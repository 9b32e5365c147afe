//! What the library asks of the database layer.

use crate::catalog::CatalogColumn;
use crate::error::Error;
use vstd::prelude::*;

verus! {

/// Provides the catalog's description of a table's columns.
pub trait ColumnDataProvider {
    /// All columns of the table `table_name`, of the schema `owner` where one
    /// is given.
    fn query_column_data(&self, table_name: &str, owner: Option<&str>) -> Result<
        Vec<CatalogColumn>,
        Error,
    >;
}

} // verus!
