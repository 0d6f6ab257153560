use excel2sql::error::ImportError;
use excel2sql::sql::check_table_exists;
use excel2sql::sql::make_delete_sql;
use excel2sql::sql::make_insert_sql;
use excel2sql::sql::make_show_tables_sql;
use excel2sql::table::CellValue;

#[test]
fn test_make_insert_sql_v1() {
    let sql = make_insert_sql(
        "UBOX_english_hn_lt",
        &vec![
            String::from("id"),
            String::from("name"),
            String::from("age"),
        ],
        &vec![
            CellValue::Integer(1),
            CellValue::Text(String::from("Tom")),
            CellValue::Integer(12),
        ],
    );
    assert_eq!(
        sql,
        "INSERT INTO `UBOX_english_hn_lt` (`id`, `name`, `age`) VALUES (1, \"Tom\", 12);"
    )
}

#[test]
fn test_check_table_exists_v1() {
    // The lookup outcome stands in for the database round trip: `true` says
    // the "SHOW TABLES LIKE" query for that name returned a row.
    assert!(check_table_exists("main_video", true).is_ok());
    assert!(check_table_exists("haha", false).is_err());
}

#[test]
fn insert_sql_exact_text() {
    let sql = make_insert_sql(
        "T",
        &vec![String::from("id"), String::from("name"), String::from("age")],
        &vec![
            CellValue::Integer(1),
            CellValue::Text(String::from("Tom")),
            CellValue::Integer(12),
        ],
    );
    assert_eq!(sql, "INSERT INTO `T` (`id`, `name`, `age`) VALUES (1, \"Tom\", 12);");
}

#[test]
fn insert_sql_renders_every_cell_kind() {
    let sql = make_insert_sql(
        "T",
        &vec![
            String::from("flag"),
            String::from("ratio"),
            String::from("note"),
            String::from("gap"),
        ],
        &vec![
            CellValue::Boolean(true),
            CellValue::Float(String::from("1.5")),
            CellValue::Text(String::from("hi")),
            CellValue::Empty,
        ],
    );
    assert_eq!(
        sql,
        "INSERT INTO `T` (`flag`, `ratio`, `note`, `gap`) VALUES (1, 1.5, \"hi\", null);"
    );
    let sql = make_insert_sql(
        "T",
        &vec![String::from("flag")],
        &vec![CellValue::Boolean(false)],
    );
    assert_eq!(sql, "INSERT INTO `T` (`flag`) VALUES (0);");
}

#[test]
fn insert_sql_with_no_columns() {
    let sql = make_insert_sql("T", &Vec::new(), &Vec::new());
    assert_eq!(sql, "INSERT INTO `T` () VALUES ();");
}

#[test]
fn delete_and_show_tables_text() {
    assert_eq!(make_delete_sql("main_video"), "DELETE FROM main_video");
    assert_eq!(
        make_show_tables_sql("main_video"),
        "SHOW TABLES LIKE \"main_video\""
    );
}

#[test]
fn missing_table_error_is_structured() {
    let err = match check_table_exists("haha", false) {
        Err(e) => e,
        Ok(()) => panic!("expected the missing-table error"),
    };
    assert_eq!(err.message(), "Table 'haha' doesn't exist");
    assert_eq!(err.code(), Some(99));
    assert!(matches!(err, ImportError::TableMissing(ref n) if n == "haha"));
}
