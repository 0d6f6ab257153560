use excel2sql::table::make_django_style_table_name;
use excel2sql::table::Table;
use excel2sql::text::file_stem_of;
use excel2sql::text::i64_to_string;
use excel2sql::text::lower_ascii;
use excel2sql::text::sanitize_table_name;

#[test]
fn test_make_django_style_table_name_v1() {
    let filepath = "/root/developenv/rustlang/excel2sql/manifest/main.xlsx";

    if let Ok(table) = Table::new("Video", Vec::new()) {
        let result = make_django_style_table_name(filepath, &table.name);
        assert_eq!(result, "main_video")
    } else {
        panic!("Invalid table")
    }
}

#[test]
fn test_make_django_style_table_name_v2() {
    let filepath = "/root/developenv/rustlang/excel2sql/manifest/platform.xlsx";

    if let Ok(table) = Table::new("KeyValue", Vec::new()) {
        let result = make_django_style_table_name(filepath, &table.name);
        assert_eq!(result, "platform_keyvalue")
    } else {
        panic!("Invalid table")
    }
}

#[test]
fn django_name_ignores_raw_name_casing() {
    assert_eq!(
        make_django_style_table_name("data/main.xlsx", "VIDEO"),
        make_django_style_table_name("data/main.xlsx", "video")
    );
    assert_eq!(make_django_style_table_name("data/main.xlsx", "ViDeO"), "main_video");
}

#[test]
fn django_name_with_no_stem() {
    assert_eq!(make_django_style_table_name("", "Video"), "_video");
    assert_eq!(make_django_style_table_name("/", "Video"), "_video");
}

#[test]
fn file_stem_cases() {
    assert_eq!(file_stem_of("dir/sub/main.xlsx"), "main");
    assert_eq!(file_stem_of("main.xlsx"), "main");
    assert_eq!(file_stem_of("noext"), "noext");
    assert_eq!(file_stem_of("archive.tar.gz"), "archive.tar");
    assert_eq!(file_stem_of(".bashrc"), ".bashrc");
    assert_eq!(file_stem_of("dir/.bashrc"), ".bashrc");
    assert_eq!(file_stem_of("trailing."), "trailing");
    assert_eq!(file_stem_of(""), "");
    assert_eq!(file_stem_of("/"), "");
}

#[test]
fn sanitize_strips_non_ascii_and_parens() {
    assert_eq!(sanitize_table_name("Video"), "Video");
    assert_eq!(sanitize_table_name("Vid\u{e9}o (new)"), "Vido new");
    assert_eq!(sanitize_table_name("(\u{4e2d}\u{6587})"), "");
}

#[test]
fn lower_ascii_cases() {
    assert_eq!(lower_ascii("KeyValue"), "keyvalue");
    assert_eq!(lower_ascii("already_lower_42"), "already_lower_42");
    assert_eq!(lower_ascii("A-Z keeps 0_9!"), "a-z keeps 0_9!");
}

#[test]
fn integer_rendering() {
    assert_eq!(i64_to_string(0), "0");
    assert_eq!(i64_to_string(7), "7");
    assert_eq!(i64_to_string(1234567890), "1234567890");
    assert_eq!(i64_to_string(-42), "-42");
    assert_eq!(i64_to_string(i64::MIN), "-9223372036854775808");
    assert_eq!(i64_to_string(i64::MAX), "9223372036854775807");
}
