//! A table's rows loaded at once, and the fields of a row as text.

use crate::decode::{decode_row, decoded, fields_fit, NativeField};
use crate::definition::{
    column_names, column_views, strictly_ascending, ColumnDefinition, ColumnView, TableDefinition,
};
use crate::error::Error;
use crate::values::{field_text, value_text, ColumnValue};
use std::rc::Rc;
use vstd::prelude::*;

verus! {

/// The fields of a row as text: each value's text, `None` for a
/// floating-point value, whose text is left to the writer of the file.
pub open spec fn fields_of(row: Seq<Option<ColumnValue>>, fields: Seq<Option<String>>) -> bool {
    &&& fields.len() == row.len()
    &&& forall|i: int|
        0 <= i < row.len() ==> match #[trigger] row[i] {
            Some(ColumnValue::Float(_)) => fields[i] is None,
            _ => fields[i] matches Some(t) && t@ == value_text(row[i]),
        }
}

/// An absent value, of a column of any kind, is an empty field.
pub proof fn lemma_absent_field_empty(row: Seq<Option<ColumnValue>>, fields: Seq<Option<String>>, i: int)
    requires
        fields_of(row, fields),
        0 <= i < row.len(),
        row[i] is None,
    ensures
        fields[i] matches Some(t) && t@ == Seq::<char>::empty(),
{
    assert(value_text(row[i]) == Seq::<char>::empty());
}

/// The text of each field of a row, in order.
pub fn row_fields(values: &[Option<ColumnValue>]) -> (r: Vec<Option<String>>)
    ensures
        fields_of(values@, r@),
{
    let mut fields: Vec<Option<String>> = Vec::new();
    let mut i: usize = 0;
    while i < values.len()
        invariant
            i <= values@.len(),
            fields@.len() == i,
            forall|k: int|
                0 <= k < i ==> match #[trigger] values@[k] {
                    Some(ColumnValue::Float(_)) => fields@[k] is None,
                    _ => fields@[k] matches Some(t) && t@ == value_text(values@[k]),
                },
        decreases values@.len() - i,
    {
        fields.push(field_text(&values[i]));
        i = i + 1;
    }
    fields
}

/// One decoded row, with a shared handle to its table's columns.
#[derive(Debug)]
pub struct DataRow {
    column_defs: Rc<Vec<ColumnDefinition>>,
    column_values: Vec<Option<ColumnValue>>,
}

impl DataRow {
    pub closed spec fn spec_values(&self) -> Seq<Option<ColumnValue>> {
        self.column_values@
    }

    pub closed spec fn spec_columns(&self) -> Seq<ColumnView> {
        column_views(self.column_defs@)
    }

    /// The values, one per column in the table's column order.
    pub fn values(&self) -> (r: &[Option<ColumnValue>])
        ensures
            r@ == self.spec_values(),
    {
        self.column_values.as_slice()
    }

    /// The columns of the row's table: the handle the table holds.
    pub fn column_defs(&self) -> (r: Rc<Vec<ColumnDefinition>>)
        ensures
            column_views(r@) == self.spec_columns(),
    {
        self.column_defs.clone()
    }

    /// The fields of the row as text (see `row_fields`).
    pub fn fields(&self) -> (r: Vec<Option<String>>)
        ensures
            fields_of(self.spec_values(), r@),
    {
        row_fields(self.column_values.as_slice())
    }
}

/// A table's rows, loaded at once. The columns stand in ascending order of
/// name, each name once, and every row shares them.
#[derive(Debug)]
pub struct TableData {
    table_name: String,
    column_defs: Rc<Vec<ColumnDefinition>>,
    data: Vec<DataRow>,
}

impl TableData {
    #[verifier::type_invariant]
    spec fn names_ascending(self) -> bool {
        strictly_ascending(column_names(column_views(self.column_defs@)))
    }

    pub closed spec fn spec_table_name(&self) -> Seq<char> {
        self.table_name@
    }

    pub closed spec fn spec_columns(&self) -> Seq<ColumnView> {
        column_views(self.column_defs@)
    }

    pub closed spec fn spec_rows(&self) -> Seq<DataRow> {
        self.data@
    }

    /// The name of the table.
    pub fn table_name(&self) -> (r: &str)
        ensures
            r@ == self.spec_table_name(),
    {
        self.table_name.as_str()
    }

    /// The rows, in the order the query returned them.
    pub fn rows(&self) -> (r: &[DataRow])
        ensures
            r@ == self.spec_rows(),
    {
        self.data.as_slice()
    }

    /// The column definitions, in ascending order of name.
    pub fn column_defs(&self) -> (r: &[ColumnDefinition])
        ensures
            column_views(r@) == self.spec_columns(),
            strictly_ascending(column_names(self.spec_columns())),
    {
        proof {
            use_type_invariant(self);
        }
        self.column_defs.as_slice()
    }

    /// The header: the column names in ascending order.
    pub fn header(&self) -> (r: Vec<String>)
        ensures
            r@.map_values(|s: String| s@) == column_names(self.spec_columns()),
            strictly_ascending(r@.map_values(|s: String| s@)),
    {
        proof {
            use_type_invariant(self);
        }
        let defs = self.column_defs.as_slice();
        let mut names: Vec<String> = Vec::new();
        let mut i: usize = 0;
        while i < defs.len()
            invariant
                column_views(defs@) == self.spec_columns(),
                i <= defs@.len(),
                names@.map_values(|s: String| s@) == column_names(self.spec_columns()).subrange(
                    0,
                    i as int,
                ),
            decreases defs@.len() - i,
        {
            let name = defs[i].column_name().to_owned();
            let ghost prev = names@;
            assert(column_names(self.spec_columns())[i as int] == name@);
            names.push(name);
            assert(names@.map_values(|s: String| s@) =~= prev.map_values(|s: String| s@).push(
                name@,
            ));
            i = i + 1;
            assert(names@.map_values(|s: String| s@) =~= column_names(self.spec_columns()).subrange(
                0,
                i as int,
            ));
        }
        assert(column_names(self.spec_columns()).subrange(0, i as int) =~= column_names(
            self.spec_columns(),
        ));
        names
    }
}

/// Every row's fields match the columns.
pub open spec fn all_rows_fit(cols: Seq<ColumnView>, rows: Seq<Vec<NativeField>>) -> bool {
    forall|i: int| 0 <= i < rows.len() ==> fields_fit(cols, (#[trigger] rows[i])@)
}

impl TableDefinition {
    /// Decodes the rows that the table's `select_statement` returned, each
    /// read in the columns' order, and keeps them in their order. Fails
    /// where a row's fields do not match the columns.
    pub fn load(self, rows: &Vec<Vec<NativeField>>) -> (r: Result<TableData, Error>)
        ensures
            match r {
                Ok(data) => {
                    &&& all_rows_fit(self@.columns, rows@)
                    &&& data.spec_table_name() == self@.table_name
                    &&& data.spec_columns() == self@.columns
                    &&& data.spec_rows().len() == rows@.len()
                    &&& forall|i: int|
                        0 <= i < rows@.len() ==> {
                            &&& (#[trigger] data.spec_rows()[i]).spec_values() == decoded(
                                rows@[i]@,
                            )
                            &&& data.spec_rows()[i].spec_columns() == self@.columns
                        }
                },
                Err(e) => !all_rows_fit(self@.columns, rows@) && e is DatabaseError,
            },
    {
        let (table_name, columns) = self.into_parts();
        let column_defs = Rc::new(columns);
        let mut data: Vec<DataRow> = Vec::new();
        let mut i: usize = 0;
        while i < rows.len()
            invariant
                column_views(column_defs@) == self@.columns,
                i <= rows@.len(),
                data@.len() == i,
                forall|k: int| 0 <= k < i ==> fields_fit(self@.columns, (#[trigger] rows@[k])@),
                forall|k: int|
                    0 <= k < i ==> {
                        &&& (#[trigger] data@[k]).spec_values() == decoded(rows@[k]@)
                        &&& data@[k].spec_columns() == self@.columns
                    },
            decreases rows@.len() - i,
        {
            let values = match decode_row(column_defs.as_slice(), rows[i].as_slice()) {
                Ok(v) => v,
                Err(e) => {
                    assert(!fields_fit(self@.columns, rows@[i as int]@));
                    return Err(e);
                },
            };
            data.push(DataRow { column_defs: column_defs.clone(), column_values: values });
            i = i + 1;
        }
        Ok(TableData { table_name, column_defs, data })
    }
}

} // verus!
