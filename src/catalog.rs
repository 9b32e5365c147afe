//! From the database catalog's description of a column to a column definition.

use crate::definition::{ColumnDefinition, ColumnView, DataType};
use crate::error::Error;
use crate::order::str_equal;
use vstd::prelude::*;

verus! {

/// One column as the catalog describes it.
#[derive(Debug)]
pub struct CatalogColumn {
    pub column_name: String,
    /// `"Y"` where the column admits NULL.
    pub nullable: String,
    /// The catalog's name of the column type, such as `NUMBER` or `VARCHAR2`.
    pub data_type: String,
    pub data_length: Option<u32>,
    pub data_precision: Option<u32>,
}

/// An optional size, with zero where it is absent.
pub open spec fn size_or_zero(n: Option<u32>) -> u32 {
    match n {
        Some(v) => v,
        None => 0,
    }
}

/// The data kind of a catalog type name with its length and precision, or
/// `None` where the name is not one of the known types.
pub open spec fn data_type_of(native: Seq<char>, length: Option<u32>, precision: Option<u32>) -> Option<
    DataType,
> {
    if native == "NUMBER"@ {
        Some(DataType::Number(size_or_zero(length), size_or_zero(precision)))
    } else if native == "VARCHAR2"@ {
        Some(DataType::VarChar(size_or_zero(length)))
    } else if native == "DATE"@ {
        Some(DataType::Date)
    } else if native == "TIMESTAMP(6)"@ {
        Some(DataType::DateTime)
    } else if native == "BOOL"@ {
        Some(DataType::Boolean)
    } else if native == "CLOB"@ {
        Some(DataType::CLob)
    } else {
        None
    }
}

/// A catalog type name has a data kind exactly where it is one of `NUMBER`,
/// `VARCHAR2`, `DATE`, `TIMESTAMP(6)`, `BOOL` and `CLOB`: any other name gets
/// none, never a default one, and `map_data_type` fails on it with
/// `UnknownDataType`.
pub proof fn lemma_known_types(native: Seq<char>, length: Option<u32>, precision: Option<u32>)
    ensures
        data_type_of(native, length, precision) is Some <==> (native == "NUMBER"@ || native
            == "VARCHAR2"@ || native == "DATE"@ || native == "TIMESTAMP(6)"@ || native == "BOOL"@
            || native == "CLOB"@),
{
}

/// Maps a catalog type name, with the column's length and precision, to its
/// data kind. A number with no precision is an integer.
pub fn map_data_type(native: &str, length: Option<u32>, precision: Option<u32>) -> (r: Result<
    DataType,
    Error,
>)
    ensures
        match data_type_of(native@, length, precision) {
            Some(t) => r == Ok::<DataType, Error>(t),
            None => r matches Err(Error::UnknownDataType(name)) && name@ == native@,
        },
{
    proof {
        reveal_strlit("NUMBER");
        reveal_strlit("VARCHAR2");
        reveal_strlit("DATE");
        reveal_strlit("TIMESTAMP(6)");
        reveal_strlit("BOOL");
        reveal_strlit("CLOB");
    }
    let length = match length {
        Some(v) => v,
        None => 0,
    };
    let precision = match precision {
        Some(v) => v,
        None => 0,
    };
    if str_equal(native, "NUMBER") {
        Ok(DataType::Number(length, precision))
    } else if str_equal(native, "VARCHAR2") {
        Ok(DataType::VarChar(length))
    } else if str_equal(native, "DATE") {
        Ok(DataType::Date)
    } else if str_equal(native, "TIMESTAMP(6)") {
        Ok(DataType::DateTime)
    } else if str_equal(native, "BOOL") {
        Ok(DataType::Boolean)
    } else if str_equal(native, "CLOB") {
        Ok(DataType::CLob)
    } else {
        Err(Error::UnknownDataType(native.to_owned()))
    }
}

/// The column that a catalog entry describes, or `None` where its type is
/// not known.
pub open spec fn column_of(c: CatalogColumn) -> Option<ColumnView> {
    match data_type_of(c.data_type@, c.data_length, c.data_precision) {
        Some(t) => Some(ColumnView { name: c.column_name@, nullable: c.nullable@ == "Y"@, data_type: t }),
        None => None,
    }
}

/// Turns a catalog entry into a column definition.
pub fn column_from_catalog(c: &CatalogColumn) -> (r: Result<ColumnDefinition, Error>)
    ensures
        match column_of(*c) {
            Some(v) => r matches Ok(d) && d@ == v,
            None => r matches Err(Error::UnknownDataType(name)) && name@ == c.data_type@,
        },
{
    let data_type = map_data_type(c.data_type.as_str(), c.data_length, c.data_precision)?;
    let nullable = str_equal(c.nullable.as_str(), "Y");
    Ok(ColumnDefinition::new(c.column_name.clone(), nullable, data_type))
}

/// The catalog query for a table's columns; its parameters are the table's
/// name and, where `by_owner` holds, the owner.
pub open spec fn catalog_query(by_owner: bool) -> Seq<char> {
    if by_owner {
        "SELECT COLUMN_NAME, NULLABLE, DATA_TYPE, DATA_LENGTH, DATA_PRECISION FROM ALL_TAB_COLUMNS WHERE TABLE_NAME=:1 AND OWNER=:2"@
    } else {
        "SELECT COLUMN_NAME, NULLABLE, DATA_TYPE, DATA_LENGTH, DATA_PRECISION FROM ALL_TAB_COLUMNS WHERE TABLE_NAME=:1"@
    }
}

/// The statement that reads a table's column descriptions from the catalog,
/// with the table's name as parameter `:1` and, where `by_owner` holds, the
/// owner as parameter `:2`.
pub fn catalog_statement(by_owner: bool) -> (r: &'static str)
    ensures
        r@ == catalog_query(by_owner),
{
    proof {
        reveal_strlit(
            "SELECT COLUMN_NAME, NULLABLE, DATA_TYPE, DATA_LENGTH, DATA_PRECISION FROM ALL_TAB_COLUMNS WHERE TABLE_NAME=:1 AND OWNER=:2",
        );
        reveal_strlit(
            "SELECT COLUMN_NAME, NULLABLE, DATA_TYPE, DATA_LENGTH, DATA_PRECISION FROM ALL_TAB_COLUMNS WHERE TABLE_NAME=:1",
        );
    }
    if by_owner {
        "SELECT COLUMN_NAME, NULLABLE, DATA_TYPE, DATA_LENGTH, DATA_PRECISION FROM ALL_TAB_COLUMNS WHERE TABLE_NAME=:1 AND OWNER=:2"
    } else {
        "SELECT COLUMN_NAME, NULLABLE, DATA_TYPE, DATA_LENGTH, DATA_PRECISION FROM ALL_TAB_COLUMNS WHERE TABLE_NAME=:1"
    }
}

/// `s` holds no `.`.
pub open spec fn has_no_dot(s: Seq<char>) -> bool {
    forall|i: int| 0 <= i < s.len() ==> s[i] != '.'
}

/// Splits `owner.table` at its first `.` into the owner and the table name; a
/// name without `.` has no owner.
pub fn split_table_name(name: &str) -> (r: (Option<String>, String))
    ensures
        match r.0 {
            None => has_no_dot(name@) && r.1@ == name@,
            Some(owner) => {
                let k = owner@.len() as int;
                &&& k < name@.len()
                &&& name@[k] == '.'
                &&& has_no_dot(owner@)
                &&& owner@ == name@.subrange(0, k)
                &&& r.1@ == name@.subrange(k + 1, name@.len() as int)
            },
        },
{
    let n = name.unicode_len();
    let mut i: usize = 0;
    while i < n
        invariant
            n == name@.len(),
            i <= n,
            has_no_dot(name@.subrange(0, i as int)),
        decreases n - i,
    {
        if name.get_char(i) == '.' {
            let owner = name.substring_char(0, i).to_owned();
            let table = name.substring_char(i + 1, n).to_owned();
            return (Some(owner), table);
        }
        i = i + 1;
        assert(has_no_dot(name@.subrange(0, i as int))) by {
            assert forall|j: int| 0 <= j < i implies name@.subrange(0, i as int)[j] != '.' by {
                if j < i - 1 {
                    assert(name@.subrange(0, i as int)[j] == name@.subrange(0, i - 1)[j]);
                }
            }
        }
    }
    assert(name@.subrange(0, n as int) =~= name@);
    (None, name.to_owned())
}

} // verus!
