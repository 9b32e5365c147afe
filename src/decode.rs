//! From a result row of the driver to the values of a row, and the query that
//! selects them.

use crate::definition::{
    column_names, column_views, ColumnDefinition, ColumnView, DataType, TableDefinition, TableView,
};
use crate::error::Error;
use crate::values::{CalendarDate, ColumnValue, Timestamp};
use vstd::prelude::*;

verus! {

/// A value is of the variant that a column's kind decodes to, or absent.
pub open spec fn value_fits(t: DataType, v: Option<ColumnValue>) -> bool {
    match v {
        None => true,
        Some(x) => match (t, x) {
            (DataType::VarChar(_), ColumnValue::Varchar(_)) => true,
            (DataType::CLob, ColumnValue::Varchar(_)) => true,
            (DataType::Number(_, p), ColumnValue::Float(_)) => p > 0,
            (DataType::Number(_, p), ColumnValue::Number(_)) => p == 0,
            (DataType::Boolean, ColumnValue::Boolean(_)) => true,
            (DataType::Date, ColumnValue::Date(_)) => true,
            (DataType::DateTime, ColumnValue::DateTime(_)) => true,
            _ => false,
        },
    }
}

/// A row has one value per column, in the columns' order, each fitting its
/// column's kind.
pub open spec fn row_fits(cols: Seq<ColumnView>, row: Seq<Option<ColumnValue>>) -> bool {
    &&& row.len() == cols.len()
    &&& forall|i: int| 0 <= i < row.len() ==> value_fits(cols[i].data_type, #[trigger] row[i])
}

/// The type that the driver reads a field as.
#[derive(Debug, Clone, Copy, PartialEq, Eq, Structural)]
pub enum FieldKind {
    Text,
    Integer,
    Float,
    Boolean,
    Date,
    DateTime,
}

/// The type a column's kind is read as: text for `VarChar` and `CLob`, an
/// integer for a number without precision, a floating-point value for one
/// with, and the kind's own type otherwise.
pub open spec fn kind_of(t: DataType) -> FieldKind {
    match t {
        DataType::VarChar(_) => FieldKind::Text,
        DataType::CLob => FieldKind::Text,
        DataType::Number(_, p) => if p > 0 {
            FieldKind::Float
        } else {
            FieldKind::Integer
        },
        DataType::Boolean => FieldKind::Boolean,
        DataType::Date => FieldKind::Date,
        DataType::DateTime => FieldKind::DateTime,
    }
}

/// The type that a column's field is to be read as (see `kind_of`).
pub fn field_kind(column: &ColumnDefinition) -> (r: FieldKind)
    ensures
        r == kind_of(column@.data_type),
{
    match column.data_type() {
        DataType::VarChar(_) | DataType::CLob => FieldKind::Text,
        DataType::Number(_, precision) => if precision > 0 {
            FieldKind::Float
        } else {
            FieldKind::Integer
        },
        DataType::Boolean => FieldKind::Boolean,
        DataType::Date => FieldKind::Date,
        DataType::DateTime => FieldKind::DateTime,
    }
}

/// One field as the driver read it; `None` where the field is NULL.
#[derive(Debug)]
pub enum NativeField {
    Text(Option<String>),
    Integer(Option<i64>),
    /// IEEE 754 binary64 bits.
    Float(Option<u64>),
    Boolean(Option<bool>),
    Date(Option<CalendarDate>),
    DateTime(Option<Timestamp>),
}

/// The type a field was read as.
pub open spec fn native_kind(f: NativeField) -> FieldKind {
    match f {
        NativeField::Text(_) => FieldKind::Text,
        NativeField::Integer(_) => FieldKind::Integer,
        NativeField::Float(_) => FieldKind::Float,
        NativeField::Boolean(_) => FieldKind::Boolean,
        NativeField::Date(_) => FieldKind::Date,
        NativeField::DateTime(_) => FieldKind::DateTime,
    }
}

/// The field was read as the type its column's kind asks for.
pub open spec fn read_as(t: DataType, f: NativeField) -> bool {
    native_kind(f) == kind_of(t)
}

/// The field is NULL.
pub open spec fn is_null(f: NativeField) -> bool {
    match f {
        NativeField::Text(x) => x is None,
        NativeField::Integer(x) => x is None,
        NativeField::Float(x) => x is None,
        NativeField::Boolean(x) => x is None,
        NativeField::Date(x) => x is None,
        NativeField::DateTime(x) => x is None,
    }
}

/// The value of a field: absent where it is NULL, else the value in the
/// variant of its type.
pub open spec fn field_value(f: NativeField) -> Option<ColumnValue> {
    match f {
        NativeField::Text(Some(s)) => Some(ColumnValue::Varchar(s)),
        NativeField::Integer(Some(n)) => Some(ColumnValue::Number(n)),
        NativeField::Float(Some(b)) => Some(ColumnValue::Float(b)),
        NativeField::Boolean(Some(b)) => Some(ColumnValue::Boolean(b)),
        NativeField::Date(Some(d)) => Some(ColumnValue::Date(d)),
        NativeField::DateTime(Some(t)) => Some(ColumnValue::DateTime(t)),
        _ => None,
    }
}

/// The values of a row's fields, in order.
pub open spec fn decoded(fields: Seq<NativeField>) -> Seq<Option<ColumnValue>> {
    fields.map_values(|f: NativeField| field_value(f))
}

/// A row's fields match the columns: one per column, in order, each read as
/// its column's kind asks.
pub open spec fn fields_fit(cols: Seq<ColumnView>, fields: Seq<NativeField>) -> bool {
    &&& fields.len() == cols.len()
    &&& forall|i: int| 0 <= i < fields.len() ==> read_as(cols[i].data_type, #[trigger] fields[i])
}

/// A field read as its column's kind decodes to an absent value exactly
/// where it is NULL, and otherwise to the variant of that kind: a number
/// without precision to an integer, one with precision to a floating-point
/// value.
pub proof fn lemma_field_value(t: DataType, f: NativeField)
    requires
        read_as(t, f),
    ensures
        field_value(f) is None <==> is_null(f),
        value_fits(t, field_value(f)),
{
}

/// Decoded fields that match their columns make a row that fits them.
pub proof fn lemma_decoded_fits(cols: Seq<ColumnView>, fields: Seq<NativeField>)
    requires
        fields_fit(cols, fields),
    ensures
        row_fits(cols, decoded(fields)),
{
    assert forall|i: int| 0 <= i < fields.len() implies value_fits(
        cols[i].data_type,
        #[trigger] decoded(fields)[i],
    ) by {
        lemma_field_value(cols[i].data_type, fields[i]);
    }
}

/// The type a field was read as.
pub fn native_field_kind(f: &NativeField) -> (r: FieldKind)
    ensures
        r == native_kind(*f),
{
    match f {
        NativeField::Text(_) => FieldKind::Text,
        NativeField::Integer(_) => FieldKind::Integer,
        NativeField::Float(_) => FieldKind::Float,
        NativeField::Boolean(_) => FieldKind::Boolean,
        NativeField::Date(_) => FieldKind::Date,
        NativeField::DateTime(_) => FieldKind::DateTime,
    }
}

/// The value of a field (see `field_value`).
pub fn to_value(f: &NativeField) -> (r: Option<ColumnValue>)
    ensures
        r == field_value(*f),
{
    match f {
        NativeField::Text(Some(s)) => Some(ColumnValue::Varchar(s.clone())),
        NativeField::Integer(Some(n)) => Some(ColumnValue::Number(*n)),
        NativeField::Float(Some(b)) => Some(ColumnValue::Float(*b)),
        NativeField::Boolean(Some(b)) => Some(ColumnValue::Boolean(*b)),
        NativeField::Date(Some(d)) => Some(ColumnValue::Date(*d)),
        NativeField::DateTime(Some(t)) => Some(ColumnValue::DateTime(*t)),
        _ => None,
    }
}

/// The error for fields that do not match the columns.
fn mismatch() -> (r: Error)
    ensures
        r is DatabaseError,
{
    Error::DatabaseError(String::from_str("row fields do not match the columns"))
}

/// Decodes one column's field. Fails where the field was not read as the
/// column's kind asks.
pub fn decode_field(column: &ColumnDefinition, field: &NativeField) -> (r: Result<
    Option<ColumnValue>,
    Error,
>)
    ensures
        read_as(column@.data_type, *field) ==> r == Ok::<Option<ColumnValue>, Error>(
            field_value(*field),
        ),
        !read_as(column@.data_type, *field) ==> r matches Err(Error::DatabaseError(_)),
{
    if native_field_kind(field) != field_kind(column) {
        return Err(mismatch());
    }
    Ok(to_value(field))
}

/// Decodes a row's fields, read in the columns' order: value `j` is the value
/// of field `j`. Fails where the fields do not match the columns.
pub fn decode_row(columns: &[ColumnDefinition], fields: &[NativeField]) -> (r: Result<
    Vec<Option<ColumnValue>>,
    Error,
>)
    ensures
        fields_fit(column_views(columns@), fields@) ==> (r matches Ok(v) && v@ == decoded(
            fields@,
        )),
        !fields_fit(column_views(columns@), fields@) ==> r matches Err(Error::DatabaseError(_)),
{
    let ghost cols = column_views(columns@);
    if fields.len() != columns.len() {
        return Err(mismatch());
    }
    let mut values: Vec<Option<ColumnValue>> = Vec::new();
    let mut i: usize = 0;
    while i < columns.len()
        invariant
            cols == column_views(columns@),
            fields@.len() == columns@.len(),
            i <= columns@.len(),
            forall|k: int| 0 <= k < i ==> read_as(cols[k].data_type, #[trigger] fields@[k]),
            values@ == decoded(fields@).subrange(0, i as int),
        decreases columns@.len() - i,
    {
        assert(cols[i as int] == columns@[i as int]@);
        let v = match decode_field(&columns[i], &fields[i]) {
            Ok(v) => v,
            Err(e) => {
                assert(!fields_fit(cols, fields@));
                return Err(e);
            },
        };
        let ghost prev = values@;
        values.push(v);
        assert(values@ =~= decoded(fields@).subrange(0, i + 1));
        i = i + 1;
    }
    assert(decoded(fields@).subrange(0, i as int) =~= decoded(fields@));
    Ok(values)
}

/// Names joined with `,` between them.
pub open spec fn comma_joined(names: Seq<Seq<char>>) -> Seq<char>
    decreases names.len(),
{
    if names.len() == 0 {
        Seq::empty()
    } else if names.len() == 1 {
        names[0]
    } else {
        comma_joined(names.drop_last()) + seq![','] + names.last()
    }
}

/// The query that reads a table's columns: `SELECT <names> FROM <table>`.
pub open spec fn select_text(t: TableView) -> Seq<char> {
    "SELECT "@ + comma_joined(column_names(t.columns)) + " FROM "@ + t.table_name
}

impl TableDefinition {
    /// The statement that reads all rows of the table, the columns in their
    /// order.
    pub fn select_statement(&self) -> (r: String)
        ensures
            r@ == select_text(self@),
    {
        let columns = self.columns();
        let ghost names = column_names(self@.columns);
        let mut list = String::new();
        let mut i: usize = 0;
        while i < columns.len()
            invariant
                names == column_names(column_views(columns@)),
                i <= columns@.len(),
                list@ == comma_joined(names.subrange(0, i as int)),
            decreases columns@.len() - i,
        {
            if i > 0 {
                list.append(",");
            }
            list.append(columns[i].column_name());
            proof {
                reveal_strlit(",");
                let prefix = names.subrange(0, i + 1);
                assert(prefix.drop_last() =~= names.subrange(0, i as int));
                assert(names[i as int] == columns@[i as int]@.name);
                if i == 0 {
                    assert(list@ =~= names[0]);
                } else {
                    assert(list@ =~= comma_joined(prefix.drop_last()) + seq![','] + prefix.last());
                }
            }
            i = i + 1;
        }
        assert(names.subrange(0, i as int) =~= names);
        let mut text = String::from_str("SELECT ");
        text.append(list.as_str());
        text.append(" FROM ");
        text.append(self.table_name());
        proof {
            reveal_strlit("SELECT ");
            reveal_strlit(" FROM ");
        }
        text
    }
}

} // verus!
