//! Exports relational tables as delimited text, resolving the table's schema
//! from the database's own catalog.
//!
//! The library holds the schema resolution, the row decoding, the rendering
//! of values as text fields and the decisions of the streaming export. The
//! database driver, the output file, the channel and the threads are the
//! caller's: the catalog is reached through `ColumnDataProvider`, the caller
//! reads each result row's fields as `field_kind` asks, and the export's two
//! loops are driven by `RowProducer` and `RowConsumer`.

mod builder;
mod catalog;
mod config;
mod data;
mod decode;
mod definition;
mod error;
mod meta;
mod order;
mod parameters;
mod pipeline;
mod values;

pub use builder::{
    all_discovered, all_types_known, catalog_views, columns_from_catalog, is_discovered,
    is_first_unknown_type, is_smallest_unknown, last_index_named, lemma_ascending_unique,
    lemma_last_index_named, lemma_resolved_header, lemma_selection_names, resolves, selected,
    selection, string_views, SelectionView, TableSelectionBuilder,
};
pub use catalog::{
    catalog_query, catalog_statement, column_from_catalog, column_of, data_type_of, has_no_dot, lemma_known_types,
    map_data_type, size_or_zero, split_table_name, CatalogColumn,
};
pub use config::{connect_text, Config};
pub use data::{
    all_rows_fit, fields_of, lemma_absent_field_empty, row_fields, DataRow, TableData,
};
pub use decode::{
    comma_joined, decode_field, decode_row, decoded, field_kind, field_value, fields_fit,
    is_null, kind_of, lemma_decoded_fits, lemma_field_value, native_field_kind, native_kind,
    read_as, row_fits, select_text, to_value, value_fits, FieldKind, NativeField,
};
pub use definition::{
    column_names, column_views, strictly_ascending, ColumnDefinition, ColumnView, DataType,
    TableDefinition, TableView,
};
pub use error::{error_text, Error};
pub use meta::ColumnDataProvider;
pub use order::{
    lemma_less_irreflexive, lemma_less_total, lemma_less_transitive, less_from, seq_less,
    str_equal, str_less,
};
pub use parameters::{
    column_entries, column_entry, parse_parameters, pieces, split_lines, text_lines, trim_of,
    upper_of, without_cr,
};
pub use pipeline::{
    consumer_start, consumer_step, count_after, delivered, indicator_view, lemma_consumer_stream,
    lemma_export_stream, lemma_producer_stream, produced, producer_step, row_inputs, run_consumer,
    run_producer, ActionView, ConsumerAction, ConsumerPhase, ConsumerView, IndicatorView,
    RowConsumer, RowIndicator, RowProducer, RowValues,
};
pub use values::{
    date_text, days_in_month, decimal_digits, digit_char, field_text, integer_text, is_leap_year,
    timestamp_text, valid_date, value_text, year_text, zero_padded, CalendarDate, ColumnValue,
    Timestamp, TimestampView,
};
