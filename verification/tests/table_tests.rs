use excel2sql::table::CellValue;
use excel2sql::table::Table;
use excel2sql::workbook::parse_excel;
use excel2sql::workbook::Sheet;

fn sample_range() -> Vec<Vec<CellValue>> {
    vec![
        vec![
            CellValue::Text(String::from("id")),
            CellValue::Integer(7),
            CellValue::Text(String::from("title")),
            CellValue::Boolean(true),
            CellValue::Text(String::from("year")),
        ],
        vec![
            CellValue::Integer(1),
            CellValue::Empty,
            CellValue::Text(String::from("alpha")),
            CellValue::Boolean(false),
            CellValue::Integer(1999),
        ],
        vec![
            CellValue::Integer(2),
            CellValue::Empty,
            CellValue::Text(String::from("beta")),
            CellValue::Boolean(true),
            CellValue::Integer(2005),
        ],
        vec![
            CellValue::Integer(3),
            CellValue::Empty,
            CellValue::Text(String::from("gamma")),
            CellValue::Boolean(false),
            CellValue::Integer(2011),
        ],
    ]
}

#[test]
fn fields_are_the_text_cells_of_row_zero() {
    let table = Table::new("Video", sample_range()).unwrap();
    assert_eq!(table.fields, vec!["id", "title", "year"]);
    assert_eq!(table.name, "Video");
}

#[test]
fn fields_of_an_empty_range() {
    let table = Table::new("Empty", Vec::new()).unwrap();
    assert!(table.fields.is_empty());
}

#[test]
fn table_name_is_sanitized() {
    let table = Table::new("Video (2024) \u{4e2d}", Vec::new()).unwrap();
    assert_eq!(table.name, "Video 2024 ");
}

#[test]
fn django_style_fields_prefix_all_but_id() {
    let mut table = Table::new("Video", sample_range()).unwrap();
    table.to_django_style_fields();
    assert_eq!(table.fields, vec!["id", "c_title", "c_year"]);
}

#[test]
fn iter_rows_counts_and_contents() {
    let table = Table::new("Video", sample_range()).unwrap();
    let all = table.iter_rows(0).unwrap();
    assert_eq!(all.len(), 4);
    for skip in 0..6usize {
        let rows = table.iter_rows(skip).unwrap();
        assert_eq!(rows.len(), 4usize.saturating_sub(skip));
        for (i, row) in rows.iter().enumerate() {
            assert_eq!(row, &all[skip + i]);
        }
    }
}

#[test]
fn iter_rows_is_restartable() {
    let table = Table::new("Video", sample_range()).unwrap();
    let first = table.iter_rows(1).unwrap();
    let second = table.iter_rows(1).unwrap();
    assert_eq!(first, second);
}

#[test]
fn parse_excel_keeps_resolved_sheets_in_order() {
    let sheets = vec![
        Sheet { name: String::from("Video"), range: Some(sample_range()) },
        Sheet { name: String::from("Broken"), range: None },
        Sheet {
            name: String::from("KeyValue"),
            range: Some(vec![vec![
                CellValue::Text(String::from("key")),
                CellValue::Text(String::from("value")),
            ]]),
        },
    ];
    let tables = parse_excel(&sheets).unwrap();
    assert_eq!(tables.len(), 2);
    assert_eq!(tables[0].name, "Video");
    assert_eq!(tables[0].fields, vec!["id", "title", "year"]);
    assert_eq!(tables[1].name, "KeyValue");
    assert_eq!(tables[1].fields, vec!["key", "value"]);
}

#[test]
fn parse_excel_of_no_sheets() {
    let tables = parse_excel(&Vec::new()).unwrap();
    assert!(tables.is_empty());
}
