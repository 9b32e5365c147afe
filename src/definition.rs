//! Tables, columns, data kinds and the values of a row.

use crate::order::seq_less;
use vstd::prelude::*;

verus! {

/// The kind of data a column holds.
#[derive(Debug, Clone, Copy, PartialEq, Eq, Structural)]
pub enum DataType {
    /// Variable-length text of at most the given length.
    VarChar(u32),
    /// A number of the given length and precision (digits after the point).
    Number(u32, u32),
    Boolean,
    /// A calendar date.
    Date,
    /// A character large object.
    CLob,
    /// A date with a time of day.
    DateTime,
}

/// What a column definition states.
pub struct ColumnView {
    pub name: Seq<char>,
    pub nullable: bool,
    pub data_type: DataType,
}

/// Defines a table column.
#[derive(Debug)]
pub struct ColumnDefinition {
    column_name: String,
    nullable: bool,
    data_type: DataType,
}

impl View for ColumnDefinition {
    type V = ColumnView;

    closed spec fn view(&self) -> ColumnView {
        ColumnView { name: self.column_name@, nullable: self.nullable, data_type: self.data_type }
    }
}

impl ColumnDefinition {
    /// A column with the given name, nullability and kind.
    pub fn new(column_name: String, nullable: bool, data_type: DataType) -> (r: ColumnDefinition)
        ensures
            r@ == (ColumnView { name: column_name@, nullable, data_type }),
    {
        ColumnDefinition { column_name, nullable, data_type }
    }

    /// The column's name.
    pub fn column_name(&self) -> (r: &str)
        ensures
            r@ == self@.name,
    {
        self.column_name.as_str()
    }

    /// Whether the column admits NULL.
    pub fn nullable(&self) -> (r: bool)
        ensures
            r == self@.nullable,
    {
        self.nullable
    }

    /// The column's kind.
    pub fn data_type(&self) -> (r: DataType)
        ensures
            r == self@.data_type,
    {
        self.data_type
    }

    /// A copy of this definition.
    pub fn duplicate(&self) -> (r: ColumnDefinition)
        ensures
            r@ == self@,
    {
        ColumnDefinition {
            column_name: self.column_name.clone(),
            nullable: self.nullable,
            data_type: self.data_type,
        }
    }
}

/// The views of a sequence of column definitions.
pub open spec fn column_views(cols: Seq<ColumnDefinition>) -> Seq<ColumnView> {
    cols.map_values(|c: ColumnDefinition| c@)
}

/// The names of a sequence of columns, in order.
pub open spec fn column_names(cols: Seq<ColumnView>) -> Seq<Seq<char>> {
    cols.map_values(|c: ColumnView| c.name)
}

/// Each name sorts strictly before every later one: the names are unique and
/// ascending.
pub open spec fn strictly_ascending(names: Seq<Seq<char>>) -> bool {
    forall|i: int, j: int| 0 <= i < j < names.len() ==> seq_less(#[trigger] names[i], #[trigger] names[j])
}

/// What a table definition states: the table's name and its columns, in
/// ascending order of name.
pub struct TableView {
    pub table_name: Seq<char>,
    pub columns: Seq<ColumnView>,
}

/// Defines a table: its name and the columns to export, each name once, in
/// ascending order of name. That order is the column order of the header and
/// of every row.
#[derive(Debug)]
pub struct TableDefinition {
    table_name: String,
    columns: Vec<ColumnDefinition>,
}

impl View for TableDefinition {
    type V = TableView;

    closed spec fn view(&self) -> TableView {
        TableView { table_name: self.table_name@, columns: column_views(self.columns@) }
    }
}

impl TableDefinition {
    #[verifier::type_invariant]
    spec fn names_ascending(self) -> bool {
        strictly_ascending(column_names(column_views(self.columns@)))
    }

    /// Whether the columns stand in ascending order of name, each name once;
    /// every table definition does.
    pub open spec fn wf(&self) -> bool {
        strictly_ascending(column_names(self@.columns))
    }

    pub(crate) fn from_parts(table_name: String, columns: Vec<ColumnDefinition>) -> (r:
        TableDefinition)
        requires
            strictly_ascending(column_names(column_views(columns@))),
        ensures
            r@ == (TableView { table_name: table_name@, columns: column_views(columns@) }),
            r.wf(),
    {
        TableDefinition { table_name, columns }
    }

    pub(crate) fn into_parts(self) -> (r: (String, Vec<ColumnDefinition>))
        ensures
            r.0@ == self@.table_name,
            column_views(r.1@) == self@.columns,
            strictly_ascending(column_names(self@.columns)),
    {
        proof {
            use_type_invariant(&self);
        }
        (self.table_name, self.columns)
    }

    /// The name of the table.
    pub fn table_name(&self) -> (r: &str)
        ensures
            r@ == self@.table_name,
    {
        self.table_name.as_str()
    }

    /// The columns, in ascending order of name.
    pub fn columns(&self) -> (r: &[ColumnDefinition])
        ensures
            column_views(r@) == self@.columns,
            strictly_ascending(column_names(self@.columns)),
    {
        proof {
            use_type_invariant(self);
        }
        self.columns.as_slice()
    }

    /// The header: the column names in ascending order.
    pub fn header(&self) -> (r: Vec<String>)
        ensures
            r@.map_values(|s: String| s@) == column_names(self@.columns),
            strictly_ascending(r@.map_values(|s: String| s@)),
    {
        proof {
            use_type_invariant(self);
        }
        let mut names: Vec<String> = Vec::new();
        let mut i: usize = 0;
        while i < self.columns.len()
            invariant
                i <= self.columns@.len(),
                names@.map_values(|s: String| s@) == column_names(self@.columns).subrange(0, i as int),
            decreases self.columns@.len() - i,
        {
            let name = self.columns[i].column_name.clone();
            let ghost prev = names@;
            assert(column_names(self@.columns)[i as int] == name@);
            names.push(name);
            assert(names@ == prev.push(name));
            assert(names@.map_values(|s: String| s@) =~= prev.map_values(|s: String| s@).push(name@));
            i = i + 1;
            assert(names@.map_values(|s: String| s@) =~= column_names(self@.columns).subrange(0, i as int));
        }
        assert(column_names(self@.columns).subrange(0, i as int) =~= column_names(self@.columns));
        names
    }
}

} // verus!
