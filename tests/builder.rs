use lib_oradb::{
    catalog_statement, column_from_catalog, map_data_type, parse_parameters, split_lines,
    split_table_name, str_less, CatalogColumn, ColumnDataProvider, ColumnDefinition, Config,
    DataType, Error, TableSelectionBuilder,
};
use std::cell::RefCell;

struct Catalog {
    columns: Vec<(&'static str, &'static str, &'static str, Option<u32>, Option<u32>)>,
    asked: RefCell<Vec<(String, Option<String>)>>,
}

impl Catalog {
    fn new(columns: Vec<(&'static str, &'static str, &'static str, Option<u32>, Option<u32>)>) -> Self {
        Catalog { columns, asked: RefCell::new(Vec::new()) }
    }
}

impl ColumnDataProvider for Catalog {
    fn query_column_data(
        &self,
        table_name: &str,
        owner: Option<&str>,
    ) -> Result<Vec<CatalogColumn>, Error> {
        self.asked.borrow_mut().push((table_name.to_string(), owner.map(|o| o.to_string())));
        Ok(self
            .columns
            .iter()
            .map(|c| CatalogColumn {
                column_name: c.0.to_string(),
                nullable: c.1.to_string(),
                data_type: c.2.to_string(),
                data_length: c.3,
                data_precision: c.4,
            })
            .collect())
    }
}

struct FailingCatalog;

impl ColumnDataProvider for FailingCatalog {
    fn query_column_data(&self, _: &str, _: Option<&str>) -> Result<Vec<CatalogColumn>, Error> {
        Err(Error::DatabaseError("ORA-00942: table or view does not exist".to_string()))
    }
}

fn auftrag() -> Catalog {
    Catalog::new(vec![
        ("AU_AKTNR", "N", "NUMBER", Some(22), Some(0)),
        ("AU_NACHNAME", "Y", "VARCHAR2", Some(40), None),
        ("AU_KAUFDAT", "Y", "DATE", Some(7), None),
        ("AU_STORDAT", "Y", "TIMESTAMP(6)", Some(11), None),
        ("AU_MAND", "N", "NUMBER", Some(3), None),
        ("AU_BETRAG", "Y", "NUMBER", Some(22), Some(2)),
        ("AU_NOTIZ", "Y", "CLOB", Some(4000), None),
    ])
}

fn names(header: &[String]) -> Vec<&str> {
    header.iter().map(|s| s.as_str()).collect()
}

#[test]
fn test_builder() {
    let builder = TableSelectionBuilder::new("AUFTRAG")
        .with("AU_AKTNR")
        .with("AU_NACHNAME")
        .with("AU_KAUFDAT")
        .with("AU_STORDAT")
        .with("AU_MAND");
    let conn = auftrag();
    let table_def = builder.build(&conn).expect("Failed to build definition.");
    assert_eq!(table_def.table_name(), "AUFTRAG");
    assert_eq!(
        names(&table_def.header()),
        vec!["AU_AKTNR", "AU_KAUFDAT", "AU_MAND", "AU_NACHNAME", "AU_STORDAT"]
    );
    let cols = table_def.columns();
    assert_eq!(cols[0].data_type(), DataType::Number(22, 0));
    assert!(!cols[0].nullable());
    assert_eq!(cols[1].data_type(), DataType::Date);
    assert_eq!(cols[2].data_type(), DataType::Number(3, 0));
    assert_eq!(cols[3].data_type(), DataType::VarChar(40));
    assert!(cols[3].nullable());
    assert_eq!(cols[4].data_type(), DataType::DateTime);
    assert_eq!(conn.asked.borrow().clone(), vec![("AUFTRAG".to_string(), None)]);
}

#[test]
fn header_is_requested_names_sorted() {
    let def = TableSelectionBuilder::new("AUFTRAG")
        .with("AU_NOTIZ")
        .with("AU_BETRAG")
        .with("AU_AKTNR")
        .build(&auftrag())
        .unwrap();
    assert_eq!(names(&def.header()), vec!["AU_AKTNR", "AU_BETRAG", "AU_NOTIZ"]);
    assert_eq!(def.columns()[1].data_type(), DataType::Number(22, 2));
    assert_eq!(def.columns()[2].data_type(), DataType::CLob);
}

#[test]
fn duplicate_requests_collapse() {
    let def = TableSelectionBuilder::new("AUFTRAG")
        .with("AU_MAND")
        .with("AU_AKTNR")
        .with("AU_MAND")
        .build(&auftrag())
        .unwrap();
    assert_eq!(names(&def.header()), vec!["AU_AKTNR", "AU_MAND"]);
}

#[test]
fn unknown_column_names_smallest() {
    let r = TableSelectionBuilder::new("AUFTRAG")
        .with("ZZ_LAST")
        .with("AU_AKTNR")
        .with("AB_FIRST")
        .with("AU_ZWISCHEN")
        .build(&auftrag());
    assert_eq!(r.unwrap_err(), Error::UnknownColumn("AB_FIRST".to_string()));
}

#[test]
fn unknown_column_single() {
    let r = TableSelectionBuilder::new("AUFTRAG").with("AU_MAND").with("NOPE").build(&auftrag());
    assert_eq!(r.unwrap_err(), Error::UnknownColumn("NOPE".to_string()));
}

#[test]
fn empty_catalog_without_request_succeeds() {
    let def = TableSelectionBuilder::new("EMPTY").build(&Catalog::new(vec![])).unwrap();
    assert!(def.header().is_empty());
    assert_eq!(def.select_statement(), "SELECT  FROM EMPTY");
}

#[test]
fn empty_catalog_with_request_fails() {
    let r = TableSelectionBuilder::new("EMPTY").with("X").build(&Catalog::new(vec![]));
    assert_eq!(r.unwrap_err(), Error::UnknownColumn("X".to_string()));
}

#[test]
fn owner_is_split_off() {
    let conn = Catalog::new(vec![("ENAME", "Y", "VARCHAR2", Some(10), None)]);
    let def = TableSelectionBuilder::new("SCOTT.EMP").with("ENAME").build(&conn).unwrap();
    assert_eq!(conn.asked.borrow().clone(), vec![("EMP".to_string(), Some("SCOTT".to_string()))]);
    assert_eq!(def.table_name(), "SCOTT.EMP");
    assert_eq!(def.select_statement(), "SELECT ENAME FROM SCOTT.EMP");
}

#[test]
fn unknown_type_fails_build() {
    let conn = Catalog::new(vec![
        ("A", "Y", "VARCHAR2", Some(10), None),
        ("B", "Y", "BLOB", None, None),
    ]);
    let r = TableSelectionBuilder::new("T").with("A").build(&conn);
    assert_eq!(r.unwrap_err(), Error::UnknownDataType("BLOB".to_string()));
}

#[test]
fn catalog_error_is_passed_on() {
    let r = TableSelectionBuilder::new("T").with("A").build(&FailingCatalog);
    assert!(matches!(r, Err(Error::DatabaseError(_))));
}

#[test]
fn last_duplicate_catalog_entry_wins() {
    let conn = Catalog::new(vec![
        ("A", "Y", "VARCHAR2", Some(10), None),
        ("A", "N", "NUMBER", Some(5), None),
    ]);
    let def = TableSelectionBuilder::new("T").with("A").build(&conn).unwrap();
    assert_eq!(def.columns().len(), 1);
    assert_eq!(def.columns()[0].data_type(), DataType::Number(5, 0));
}

#[test]
fn build_from_columns_is_exact() {
    let discovered = vec![
        ColumnDefinition::new("B".to_string(), true, DataType::Boolean),
        ColumnDefinition::new("A".to_string(), false, DataType::Date),
    ];
    let def = TableSelectionBuilder::new("T").with("B").with("A").build_from_columns(&discovered).unwrap();
    assert_eq!(names(&def.header()), vec!["A", "B"]);
    assert_eq!(def.columns()[0].column_name(), "A");
    assert_eq!(def.columns()[1].data_type(), DataType::Boolean);
}

#[test]
fn select_statement_lists_columns_in_order() {
    let def = TableSelectionBuilder::new("AUFTRAG")
        .with("AU_NACHNAME")
        .with("AU_AKTNR")
        .build(&auftrag())
        .unwrap();
    assert_eq!(def.select_statement(), "SELECT AU_AKTNR,AU_NACHNAME FROM AUFTRAG");
}

#[test]
fn type_mapping() {
    assert_eq!(map_data_type("NUMBER", Some(10), None), Ok(DataType::Number(10, 0)));
    assert_eq!(map_data_type("NUMBER", Some(10), Some(0)), Ok(DataType::Number(10, 0)));
    assert_eq!(map_data_type("NUMBER", None, Some(3)), Ok(DataType::Number(0, 3)));
    assert_eq!(map_data_type("VARCHAR2", Some(30), None), Ok(DataType::VarChar(30)));
    assert_eq!(map_data_type("VARCHAR2", None, None), Ok(DataType::VarChar(0)));
    assert_eq!(map_data_type("DATE", Some(7), None), Ok(DataType::Date));
    assert_eq!(map_data_type("TIMESTAMP(6)", Some(11), Some(6)), Ok(DataType::DateTime));
    assert_eq!(map_data_type("BOOL", None, None), Ok(DataType::Boolean));
    assert_eq!(map_data_type("CLOB", Some(4000), None), Ok(DataType::CLob));
    assert_eq!(
        map_data_type("FLOAT", Some(8), None),
        Err(Error::UnknownDataType("FLOAT".to_string()))
    );
    assert_eq!(
        map_data_type("number", None, None),
        Err(Error::UnknownDataType("number".to_string()))
    );
}

#[test]
fn catalog_entry_to_column() {
    let c = CatalogColumn {
        column_name: "ID".to_string(),
        nullable: "Y".to_string(),
        data_type: "NUMBER".to_string(),
        data_length: Some(22),
        data_precision: Some(4),
    };
    let d = column_from_catalog(&c).unwrap();
    assert_eq!(d.column_name(), "ID");
    assert!(d.nullable());
    assert_eq!(d.data_type(), DataType::Number(22, 4));
    let c2 = CatalogColumn { nullable: "N".to_string(), ..c };
    assert!(!column_from_catalog(&c2).unwrap().nullable());
}

#[test]
fn table_name_split() {
    assert_eq!(split_table_name("EMP"), (None, "EMP".to_string()));
    assert_eq!(split_table_name("SCOTT.EMP"), (Some("SCOTT".to_string()), "EMP".to_string()));
    assert_eq!(split_table_name("A.B.C"), (Some("A".to_string()), "B.C".to_string()));
    assert_eq!(split_table_name(".T"), (Some(String::new()), "T".to_string()));
}

#[test]
fn name_order() {
    assert!(str_less("A", "B"));
    assert!(str_less("AB", "ABC"));
    assert!(!str_less("ABC", "AB"));
    assert!(!str_less("X", "X"));
    assert!(str_less("Z", "a"));
    assert!(str_less("", "A"));
}

#[test]
fn error_messages() {
    assert_eq!(Error::UnknownColumn("X".to_string()).message(), "Unknown column: X");
    assert_eq!(Error::UnknownDataType("BLOB".to_string()).message(), "Unknown data type: BLOB");
    assert_eq!(Error::DatabaseError("down".to_string()).message(), "Database error: down");
}

#[test]
fn parameters_file_lines() {
    assert_eq!(split_lines("a\nb"), vec!["a".to_string(), "b".to_string()]);
    assert_eq!(split_lines("a\r\nb\n"), vec!["a".to_string(), "b".to_string()]);
    assert_eq!(split_lines("a\n\nb\r"), vec!["a".to_string(), String::new(), "b\r".to_string()]);
    assert!(split_lines("").is_empty());
    assert_eq!(
        parse_parameters("  au_aktnr \n\n\tAu_Mand\r\n   \n", true),
        vec!["AU_AKTNR".to_string(), "AU_MAND".to_string()]
    );
    assert_eq!(
        parse_parameters("  au_aktnr \n\n\tAu_Mand\r\n   \n", false),
        vec!["au_aktnr".to_string(), "Au_Mand".to_string()]
    );
}

#[test]
fn connect_string_of_config() {
    let c = Config {
        dbhost: "pora1".to_string(),
        dbname: "elkab.world".to_string(),
        dbuser: "u".to_string(),
        dbpass: "p".to_string(),
    };
    assert_eq!(c.connect_string(), "//pora1/elkab.world");
}

#[test]
fn catalog_statements() {
    assert!(catalog_statement(false).ends_with("WHERE TABLE_NAME=:1"));
    assert!(catalog_statement(true).ends_with("WHERE TABLE_NAME=:1 AND OWNER=:2"));
}
