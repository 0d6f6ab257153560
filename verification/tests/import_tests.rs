use excel2sql::error::Error;
use excel2sql::import::ImportJob;
use excel2sql::import::Opts;
use excel2sql::table::CellValue;
use excel2sql::table::Table;

fn opts(clear: bool, skip: usize, django_style: bool) -> Opts {
    Opts {
        excel: String::from("manifest/main.xlsx"),
        database: String::from("testdb"),
        database_type: String::from("mysql"),
        host: String::from("localhost"),
        port: 3306,
        user: String::from("root"),
        password: String::from("SECRET-REDACTED"),
        clear,
        skip,
        django_style,
    }
}

fn sample_table() -> Table {
    Table::new(
        "Video",
        vec![
            vec![
                CellValue::Text(String::from("id")),
                CellValue::Text(String::from("title")),
            ],
            vec![
                CellValue::Integer(1),
                CellValue::Text(String::from("alpha")),
            ],
            vec![
                CellValue::Integer(2),
                CellValue::Text(String::from("beta")),
            ],
        ],
    )
    .unwrap()
}

/// Drives one import against an in-memory stand-in for the target table:
/// the delete-all empties it, every other statement adds one row.
fn run_import(o: &Opts, table: &Table, db: &mut Vec<String>) -> (u32, String) {
    let (mut job, query) = ImportJob::new(o, table);
    assert!(query.starts_with("SHOW TABLES LIKE \""));
    job.on_exists_result(true).unwrap();
    while let Some(stmt) = job.next_statement() {
        if stmt.starts_with("DELETE FROM ") {
            db.clear();
        } else {
            db.push(stmt);
        }
        job.statement_done();
    }
    job.finish()
}

#[test]
fn import_counts_rows_after_skip() {
    let table = sample_table();
    let mut db = Vec::new();
    let (count, name) = run_import(&opts(false, 1, false), &table, &mut db);
    assert_eq!(count, 2);
    assert_eq!(name, "Video");
    assert_eq!(db.len(), 2);
    assert_eq!(db[0], "INSERT INTO `Video` (`id`, `title`) VALUES (1, \"alpha\");");
    assert_eq!(db[1], "INSERT INTO `Video` (`id`, `title`) VALUES (2, \"beta\");");
}

#[test]
fn skip_zero_re_yields_the_header_row() {
    let table = sample_table();
    let mut db = Vec::new();
    let (count, _) = run_import(&opts(false, 0, false), &table, &mut db);
    assert_eq!(count, 3);
    assert_eq!(db[0], "INSERT INTO `Video` (`id`, `title`) VALUES (\"id\", \"title\");");
}

#[test]
fn rerun_with_clear_is_idempotent() {
    let table = sample_table();
    let o = opts(true, 1, false);
    let mut db = vec![String::from("leftover row")];
    let (count1, _) = run_import(&o, &table, &mut db);
    let after_first = db.clone();
    let (count2, _) = run_import(&o, &table, &mut db);
    assert_eq!(count1, count2);
    assert_eq!(db, after_first);
    assert_eq!(db.len(), 2);
}

#[test]
fn rerun_without_clear_duplicates_rows() {
    let table = sample_table();
    let o = opts(false, 1, false);
    let mut db = Vec::new();
    let (count1, _) = run_import(&o, &table, &mut db);
    let (count2, _) = run_import(&o, &table, &mut db);
    assert_eq!(count1, 2);
    assert_eq!(count2, 2);
    assert_eq!(db.len(), 4);
    assert_eq!(db[0], db[2]);
    assert_eq!(db[1], db[3]);
}

#[test]
fn clear_issues_delete_first() {
    let table = sample_table();
    let (mut job, _) = ImportJob::new(&opts(true, 1, false), &table);
    job.on_exists_result(true).unwrap();
    let first = job.next_statement().unwrap();
    assert_eq!(first, "DELETE FROM Video");
}

#[test]
fn django_style_resolves_the_conventional_name() {
    let table = sample_table();
    let (mut job, query) = ImportJob::new(&opts(false, 1, true), &table);
    assert_eq!(query, "SHOW TABLES LIKE \"main_video\"");
    job.on_exists_result(true).unwrap();
    let mut db = Vec::new();
    while let Some(stmt) = job.next_statement() {
        db.push(stmt);
        job.statement_done();
    }
    let (_, name) = job.finish();
    assert_eq!(name, "main_video");
    assert_eq!(db[0], "INSERT INTO `main_video` (`id`, `title`) VALUES (1, \"alpha\");");
}

#[test]
fn missing_table_aborts_the_import() {
    let table = sample_table();
    let (mut job, _) = ImportJob::new(&opts(false, 1, false), &table);
    let err = match job.on_exists_result(false) {
        Err(e) => e,
        Ok(()) => panic!("expected the missing-table error"),
    };
    assert_eq!(err.message(), "Table 'Video' doesn't exist");
    assert!(matches!(err, Error::Import(_)));
}

#[test]
fn statement_failure_carries_the_database_report() {
    let table = sample_table();
    let (mut job, _) = ImportJob::new(&opts(false, 1, false), &table);
    job.on_exists_result(true).unwrap();
    let err = job.statement_failed(String::from("server has gone away"));
    assert_eq!(err.message(), "server has gone away");
}
