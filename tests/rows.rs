use lib_oradb::{
    decode_field, decode_row, field_kind, field_text, native_field_kind, row_fields, to_value,
    CalendarDate, CatalogColumn, ColumnDataProvider, ColumnDefinition, ColumnValue,
    ConsumerAction, ConsumerPhase, DataType, Error, FieldKind, NativeField, RowConsumer,
    RowIndicator, RowProducer, TableSelectionBuilder, Timestamp,
};

struct Orders;

impl ColumnDataProvider for Orders {
    fn query_column_data(&self, table_name: &str, owner: Option<&str>) -> Result<Vec<CatalogColumn>, Error> {
        assert_eq!(table_name, "ORDERS");
        assert_eq!(owner, None);
        let col = |name: &str, t: &str, len: Option<u32>, prec: Option<u32>| CatalogColumn {
            column_name: name.to_string(),
            nullable: "Y".to_string(),
            data_type: t.to_string(),
            data_length: len,
            data_precision: prec,
        };
        Ok(vec![
            col("ID", "NUMBER", Some(22), Some(0)),
            col("NAME", "VARCHAR2", Some(50), None),
            col("CREATED", "DATE", Some(7), None),
        ])
    }
}

fn date(y: i32, m: u32, d: u32) -> CalendarDate {
    CalendarDate::new(y, m, d).unwrap()
}

fn text(s: &str) -> NativeField {
    NativeField::Text(Some(s.to_string()))
}

fn all_kinds() -> Vec<ColumnDefinition> {
    vec![
        ColumnDefinition::new("A_BOOL".to_string(), true, DataType::Boolean),
        ColumnDefinition::new("B_CLOB".to_string(), true, DataType::CLob),
        ColumnDefinition::new("C_DATE".to_string(), true, DataType::Date),
        ColumnDefinition::new("D_STAMP".to_string(), true, DataType::DateTime),
        ColumnDefinition::new("E_FLOAT".to_string(), true, DataType::Number(10, 2)),
        ColumnDefinition::new("F_INT".to_string(), true, DataType::Number(10, 0)),
        ColumnDefinition::new("G_TEXT".to_string(), true, DataType::VarChar(20)),
    ]
}

/// A NULL field of the type each column is read as.
fn null_field(kind: FieldKind) -> NativeField {
    match kind {
        FieldKind::Text => NativeField::Text(None),
        FieldKind::Integer => NativeField::Integer(None),
        FieldKind::Float => NativeField::Float(None),
        FieldKind::Boolean => NativeField::Boolean(None),
        FieldKind::Date => NativeField::Date(None),
        FieldKind::DateTime => NativeField::DateTime(None),
    }
}

fn join(fields: &[Option<String>]) -> String {
    fields.iter().map(|f| f.clone().unwrap_or_default()).collect::<Vec<_>>().join(",")
}

#[test]
fn orders_scenario() {
    let def = TableSelectionBuilder::new("ORDERS").with("NAME").with("ID").build(&Orders).unwrap();
    let header = def.header();
    assert_eq!(header, vec!["ID".to_string(), "NAME".to_string()]);
    assert_eq!(def.select_statement(), "SELECT ID,NAME FROM ORDERS");
    assert_eq!(field_kind(&def.columns()[0]), FieldKind::Integer);
    assert_eq!(field_kind(&def.columns()[1]), FieldKind::Text);

    // the one source row, (ID=5, NAME="Bob", CREATED=NULL), read as the selected columns ask
    let rows = vec![vec![NativeField::Integer(Some(5)), text("Bob")]];
    let mut producer = RowProducer::new();
    let mut sent = Vec::new();
    for r in rows.iter() {
        sent.push(producer.emit(&def, Some(r.as_slice())).unwrap().unwrap());
    }
    sent.push(producer.emit(&def, None).unwrap().unwrap());
    assert!(producer.has_ended());
    assert_eq!(sent.len(), 2);
    match &sent[0] {
        RowIndicator::MoreToCome(v) => assert_eq!(
            v,
            &vec![Some(ColumnValue::Number(5)), Some(ColumnValue::Varchar("Bob".to_string()))]
        ),
        RowIndicator::EndOfData => panic!("row expected"),
    }
    assert!(sent[1].is_end());

    let mut out = vec![header.join(",")];
    let mut consumer = RowConsumer::new();
    for item in sent {
        match consumer.accept(Some(item)) {
            ConsumerAction::Write(v) => out.push(join(&row_fields(&v))),
            ConsumerAction::Finish => break,
            ConsumerAction::Fail => panic!("stream failed"),
        }
    }
    assert_eq!(out.join("\n") + "\n", "ID,NAME\n5,Bob\n");
    assert_eq!(consumer.rows_written(), 1);
    assert_eq!(consumer.phase(), ConsumerPhase::Terminated);
}

#[test]
fn test_csv_serialization() {
    let def = TableSelectionBuilder::new("ORDERS").with("CREATED").with("NAME").with("ID").build(&Orders).unwrap();
    let rows = vec![
        vec![NativeField::Date(Some(date(2023, 1, 5))), NativeField::Integer(Some(1)), text("Ann")],
        vec![NativeField::Date(None), NativeField::Integer(Some(-2)), NativeField::Text(None)],
    ];
    let data = def.load(&rows).unwrap();
    assert_eq!(data.table_name(), "ORDERS");
    assert_eq!(data.header(), vec!["CREATED".to_string(), "ID".to_string(), "NAME".to_string()]);
    assert_eq!(data.rows().len(), 2);
    let lines: Vec<String> = data.rows().iter().map(|r| join(&r.fields())).collect();
    assert_eq!(lines, vec!["2023-01-05,1,Ann".to_string(), ",-2,".to_string()]);
    assert_eq!(data.column_defs().len(), 3);
    assert_eq!(data.rows()[1].column_defs().len(), 3);
    assert_eq!(data.rows()[1].column_defs()[2].column_name(), "NAME");
}

#[test]
fn load_of_no_rows_succeeds() {
    let def = TableSelectionBuilder::new("ORDERS").with("ID").build(&Orders).unwrap();
    let data = def.load(&Vec::new()).unwrap();
    assert!(data.rows().is_empty());
    assert_eq!(data.header(), vec!["ID".to_string()]);
}

#[test]
fn load_fails_on_mismatched_field() {
    let def = TableSelectionBuilder::new("ORDERS").with("ID").build(&Orders).unwrap();
    let rows = vec![vec![NativeField::Integer(Some(1))], vec![text("1")]];
    assert!(matches!(def.load(&rows), Err(Error::DatabaseError(_))));
    let def = TableSelectionBuilder::new("ORDERS").with("ID").build(&Orders).unwrap();
    let short: Vec<Vec<NativeField>> = vec![vec![]];
    assert!(matches!(def.load(&short), Err(Error::DatabaseError(_))));
}

#[test]
fn null_is_absent_for_every_kind() {
    let cols = all_kinds();
    let fields: Vec<NativeField> = cols.iter().map(|c| null_field(field_kind(c))).collect();
    let values = decode_row(&cols, &fields).unwrap();
    assert_eq!(values.len(), 7);
    assert!(values.iter().all(|v| v.is_none()));
    let texts = row_fields(&values);
    assert!(texts.iter().all(|f| f.as_deref() == Some("")));
}

#[test]
fn every_kind_decodes_to_its_variant() {
    let cols = all_kinds();
    let stamp = Timestamp::new(date(2024, 2, 29), 13, 5, 9).unwrap();
    let fields = vec![
        NativeField::Boolean(Some(true)),
        text("long text"),
        NativeField::Date(Some(date(1999, 12, 31))),
        NativeField::DateTime(Some(stamp)),
        NativeField::Float(Some(2.5f64.to_bits())),
        NativeField::Integer(Some(42)),
        text("x"),
    ];
    let values = decode_row(&cols, &fields).unwrap();
    assert_eq!(values[0], Some(ColumnValue::Boolean(true)));
    assert_eq!(values[1], Some(ColumnValue::Varchar("long text".to_string())));
    assert_eq!(values[2], Some(ColumnValue::Date(date(1999, 12, 31))));
    assert_eq!(values[3], Some(ColumnValue::DateTime(stamp)));
    assert_eq!(values[4], Some(ColumnValue::Float(2.5f64.to_bits())));
    assert_eq!(values[5], Some(ColumnValue::Number(42)));
    assert_eq!(values[6], Some(ColumnValue::Varchar("x".to_string())));
    let texts = row_fields(&values);
    assert_eq!(texts[0].as_deref(), Some("true"));
    assert_eq!(texts[1].as_deref(), Some("long text"));
    assert_eq!(texts[2].as_deref(), Some("1999-12-31"));
    assert_eq!(texts[3].as_deref(), Some("2024-02-29 13:05:09"));
    assert_eq!(texts[4], None);
    assert_eq!(texts[5].as_deref(), Some("42"));
}

#[test]
fn precision_selects_integer_or_float() {
    let int_col = ColumnDefinition::new("N".to_string(), false, DataType::Number(5, 0));
    let float_col = ColumnDefinition::new("N".to_string(), false, DataType::Number(5, 1));
    assert_eq!(field_kind(&int_col), FieldKind::Integer);
    assert_eq!(field_kind(&float_col), FieldKind::Float);
    assert_eq!(decode_field(&int_col, &NativeField::Integer(Some(7))).unwrap(), Some(ColumnValue::Number(7)));
    assert_eq!(
        decode_field(&float_col, &NativeField::Float(Some(7.0f64.to_bits()))).unwrap(),
        Some(ColumnValue::Float(7.0f64.to_bits()))
    );
    assert!(matches!(decode_field(&float_col, &NativeField::Integer(Some(7))), Err(Error::DatabaseError(_))));
}

#[test]
fn field_kinds_of_each_type() {
    let col = |t: DataType| ColumnDefinition::new("C".to_string(), true, t);
    assert_eq!(field_kind(&col(DataType::VarChar(3))), FieldKind::Text);
    assert_eq!(field_kind(&col(DataType::CLob)), FieldKind::Text);
    assert_eq!(field_kind(&col(DataType::Boolean)), FieldKind::Boolean);
    assert_eq!(field_kind(&col(DataType::Date)), FieldKind::Date);
    assert_eq!(field_kind(&col(DataType::DateTime)), FieldKind::DateTime);
    assert_eq!(native_field_kind(&NativeField::Float(None)), FieldKind::Float);
    assert_eq!(native_field_kind(&text("a")), FieldKind::Text);
}

#[test]
fn native_fields_to_values() {
    assert_eq!(to_value(&NativeField::Text(None)), None);
    assert_eq!(to_value(&NativeField::Integer(None)), None);
    assert_eq!(to_value(&NativeField::Float(None)), None);
    assert_eq!(to_value(&NativeField::Boolean(None)), None);
    assert_eq!(to_value(&NativeField::Date(None)), None);
    assert_eq!(to_value(&NativeField::DateTime(None)), None);
    assert_eq!(to_value(&text("a")), Some(ColumnValue::Varchar("a".to_string())));
    assert_eq!(to_value(&NativeField::Integer(Some(-3))), Some(ColumnValue::Number(-3)));
    assert_eq!(to_value(&NativeField::Boolean(Some(false))), Some(ColumnValue::Boolean(false)));
    let d = date(2020, 6, 30);
    assert_eq!(to_value(&NativeField::Date(Some(d))), Some(ColumnValue::Date(d)));
}

#[test]
fn decode_row_of_no_columns() {
    assert_eq!(decode_row(&[], &[]).unwrap(), Vec::new());
    assert!(matches!(decode_row(&[], &[text("x")]), Err(Error::DatabaseError(_))));
}

#[test]
fn field_texts() {
    assert_eq!(field_text(&None), Some(String::new()));
    assert_eq!(field_text(&Some(ColumnValue::Number(-42))), Some("-42".to_string()));
    assert_eq!(field_text(&Some(ColumnValue::Number(0))), Some("0".to_string()));
    assert_eq!(field_text(&Some(ColumnValue::Number(i64::MIN))), Some("-9223372036854775808".to_string()));
    assert_eq!(field_text(&Some(ColumnValue::Boolean(false))), Some("false".to_string()));
    assert_eq!(field_text(&Some(ColumnValue::Date(date(7, 3, 9)))), Some("0007-03-09".to_string()));
    assert_eq!(field_text(&Some(ColumnValue::Date(date(-44, 3, 15)))), Some("-0044-03-15".to_string()));
    let t = Timestamp::new(date(2000, 1, 1), 0, 0, 0).unwrap();
    assert_eq!(field_text(&Some(ColumnValue::DateTime(t))), Some("2000-01-01 00:00:00".to_string()));
    assert_eq!(field_text(&Some(ColumnValue::Float(1.5f64.to_bits()))), None);
}

#[test]
fn calendar_dates() {
    assert!(CalendarDate::new(2023, 2, 29).is_none());
    assert!(CalendarDate::new(2024, 2, 29).is_some());
    assert!(CalendarDate::new(1900, 2, 29).is_none());
    assert!(CalendarDate::new(2000, 2, 29).is_some());
    assert!(CalendarDate::new(-4, 2, 29).is_some());
    assert!(CalendarDate::new(2023, 4, 31).is_none());
    assert!(CalendarDate::new(2023, 13, 1).is_none());
    assert!(CalendarDate::new(2023, 1, 0).is_none());
    assert!(CalendarDate::new(10000, 1, 1).is_none());
    let d = date(2023, 12, 31);
    assert_eq!((d.year(), d.month(), d.day()), (2023, 12, 31));
    assert!(Timestamp::new(d, 24, 0, 0).is_none());
    assert!(Timestamp::new(d, 23, 60, 0).is_none());
    assert!(Timestamp::new(d, 23, 59, 60).is_none());
    let t = Timestamp::new(d, 23, 59, 59).unwrap();
    assert_eq!((t.date(), t.hour(), t.minute(), t.second()), (d, 23, 59, 59));
}

#[test]
fn producer_sends_rows_then_one_end() {
    let def = TableSelectionBuilder::new("ORDERS").with("ID").build(&Orders).unwrap();
    let rows: Vec<Vec<NativeField>> = (0..3).map(|i| vec![NativeField::Integer(Some(i))]).collect();
    let mut producer = RowProducer::new();
    let mut sent = Vec::new();
    for r in rows.iter() {
        sent.push(producer.emit(&def, Some(r.as_slice())).unwrap().unwrap());
    }
    sent.push(producer.emit(&def, None).unwrap().unwrap());
    assert!(producer.emit(&def, None).unwrap().is_none());
    assert!(producer.emit(&def, Some(rows[0].as_slice())).unwrap().is_none());
    assert_eq!(sent.len(), 4);
    assert_eq!(sent.iter().filter(|i| i.is_end()).count(), 1);
    assert!(sent[3].is_end());
    let mut consumer = RowConsumer::new();
    let mut written = Vec::new();
    for item in sent {
        if let ConsumerAction::Write(v) = consumer.accept(Some(item)) {
            written.push(v);
        }
    }
    assert_eq!(
        written,
        vec![
            vec![Some(ColumnValue::Number(0))],
            vec![Some(ColumnValue::Number(1))],
            vec![Some(ColumnValue::Number(2))]
        ]
    );
    assert_eq!(consumer.rows_written(), 3);
    assert!(matches!(consumer.accept(Some(RowIndicator::MoreToCome(vec![]))), ConsumerAction::Finish));
    assert_eq!(consumer.rows_written(), 3);
}

#[test]
fn producer_failure_sends_no_end() {
    let def = TableSelectionBuilder::new("ORDERS").with("ID").build(&Orders).unwrap();
    let mut producer = RowProducer::new();
    let bad = vec![NativeField::Boolean(Some(true))];
    assert!(matches!(producer.emit(&def, Some(bad.as_slice())), Err(Error::DatabaseError(_))));
    assert!(!producer.has_ended());
    let mut consumer = RowConsumer::new();
    assert!(matches!(consumer.accept(None), ConsumerAction::Fail));
    assert_eq!(consumer.phase(), ConsumerPhase::Failed);
    assert!(matches!(consumer.accept(Some(RowIndicator::EndOfData)), ConsumerAction::Fail));
}

#[test]
fn empty_table_streams_only_end() {
    let def = TableSelectionBuilder::new("ORDERS").with("ID").build(&Orders).unwrap();
    let mut producer = RowProducer::new();
    let end = producer.emit(&def, None).unwrap().unwrap();
    assert!(end.is_end());
    let mut consumer = RowConsumer::new();
    assert!(matches!(consumer.accept(Some(end)), ConsumerAction::Finish));
    assert_eq!(consumer.rows_written(), 0);
    assert_eq!(consumer.phase(), ConsumerPhase::Terminated);
}
