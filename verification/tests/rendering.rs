use tracing_android::android::Severity;
use tracing_android::decimal::{push_decimal, push_signed_decimal};
use tracing_android::field::{Field, FieldValue, Metadata, Render};
use tracing_android::layer::{
    put_metadata, write_debug, write_name_with_value, write_value, SpanVisitor,
};

fn text(bytes: &[u8]) -> String {
    String::from_utf8(bytes.to_vec()).expect("text")
}

fn decimal(n: u128) -> String {
    let mut buf = Vec::new();
    push_decimal(&mut buf, n);
    text(&buf)
}

fn signed(n: i128) -> String {
    let mut buf = Vec::new();
    push_signed_decimal(&mut buf, n);
    text(&buf)
}

fn rendered(value: FieldValue) -> String {
    let mut buf = Vec::new();
    value.render(&mut buf);
    text(&buf)
}

fn metadata(file: Option<&str>, line: Option<u32>) -> Metadata {
    Metadata {
        name: "request".to_string(),
        target: "app::server".to_string(),
        level: Severity::Info,
        file: file.map(|f| f.to_string()),
        line,
    }
}

#[test]
fn numbers_are_rendered_in_decimal() {
    assert_eq!(decimal(0), "0");
    assert_eq!(decimal(7), "7");
    assert_eq!(decimal(10), "10");
    assert_eq!(decimal(42), "42");
    assert_eq!(decimal(4000), "4000");
    assert_eq!(decimal(18446744073709551615), "18446744073709551615");
    assert_eq!(decimal(u128::MAX), "340282366920938463463374607431768211455");
}

#[test]
fn negative_numbers_get_a_minus_sign() {
    assert_eq!(signed(0), "0");
    assert_eq!(signed(500), "500");
    assert_eq!(signed(-1), "-1");
    assert_eq!(signed(-120), "-120");
    assert_eq!(signed(i128::MAX), "170141183460469231731687303715884105727");
    assert_eq!(signed(i128::MIN), "-170141183460469231731687303715884105728");
}

#[test]
fn decimal_is_appended_to_what_is_there() {
    let mut buf = b"line=".to_vec();
    push_decimal(&mut buf, 12);
    push_signed_decimal(&mut buf, -3);
    assert_eq!(buf, b"line=12-3".to_vec());
}

#[test]
fn each_kind_of_value_has_its_rendering() {
    assert_eq!(rendered(FieldValue::Bool(true)), "true");
    assert_eq!(rendered(FieldValue::Bool(false)), "false");
    assert_eq!(rendered(FieldValue::I64(-42)), "-42");
    assert_eq!(rendered(FieldValue::I64(i64::MIN)), "-9223372036854775808");
    assert_eq!(rendered(FieldValue::U64(u64::MAX)), "18446744073709551615");
    assert_eq!(rendered(FieldValue::I128(-1)), "-1");
    assert_eq!(rendered(FieldValue::U128(500)), "500");
    assert_eq!(rendered(FieldValue::Debug("Point { x: 1 }".to_string())), "Point { x: 1 }");
    assert_eq!(rendered(FieldValue::Debug("1.5".to_string())), "1.5");
}

#[test]
fn a_string_is_rendered_between_quotes() {
    assert_eq!(rendered(FieldValue::Str("SELECT".to_string())), "\"SELECT\"");
    assert_eq!(rendered(FieldValue::Str(String::new())), "\"\"");
}

#[test]
fn a_string_is_rendered_with_its_escapes() {
    assert_eq!(rendered(FieldValue::Str("a\"b\\c\n".to_string())), "\"a\\\"b\\\\c\\n\"");
    assert_eq!(rendered(FieldValue::Str("nul\0".to_string())), "\"nul\\0\"");
    assert_eq!(rendered(FieldValue::Str("é".to_string())), "\"é\"");
}

#[test]
fn text_and_numbers_render_plainly() {
    let mut buf = Vec::new();
    write_value(&mut buf, "request");
    write_value(&mut buf, 12u32);
    write_value(&mut buf, 3usize);
    write_value(&mut buf, "é");
    assert_eq!(text(&buf), "request123é");
}

#[test]
fn a_name_with_its_value_outside_a_span() {
    let mut buf = Vec::new();
    write_name_with_value(&mut buf, "target", "app", None);
    write_name_with_value(&mut buf, "line", 7u32, None);
    assert_eq!(text(&buf), "target=appline=7");
}

#[test]
fn a_name_with_its_value_in_a_span() {
    let mut buf = Vec::new();
    write_name_with_value(&mut buf, "target", "app", Some(0));
    write_name_with_value(&mut buf, "line", 7u32, Some(12));
    assert_eq!(text(&buf), "s0_target=apps12_line=7");
}

#[test]
fn a_field_is_its_name_and_its_debug_rendering() {
    let mut buf = b"| ".to_vec();
    write_debug(&mut buf, "id", &FieldValue::U64(42));
    write_debug(&mut buf, "query", &FieldValue::Str("SELECT".to_string()));
    write_debug(&mut buf, "message", &FieldValue::Debug("hi".to_string()));
    assert_eq!(text(&buf), "| id=42query=\"SELECT\"message=hi");
}

#[test]
fn metadata_with_file_and_line() {
    let mut buf = Vec::new();
    put_metadata(&mut buf, &metadata(Some("src/main.rs"), Some(12)), Some(1));
    assert_eq!(text(&buf), "s1_target=app::servers1_file=src/main.rss1_line=12");
}

#[test]
fn metadata_without_file_and_line() {
    let mut buf = Vec::new();
    put_metadata(&mut buf, &metadata(None, None), Some(0));
    assert_eq!(text(&buf), "s0_target=app::server");
}

#[test]
fn metadata_with_a_line_only_and_no_span() {
    let mut buf = b"x".to_vec();
    put_metadata(&mut buf, &metadata(None, Some(0)), None);
    assert_eq!(text(&buf), "xtarget=app::serverline=0");
}

#[test]
fn a_visitor_puts_the_depth_before_each_field() {
    let mut buf = b"head".to_vec();
    {
        let mut visitor = SpanVisitor::new(&mut buf, 2);
        assert_eq!(visitor.depth, 2);
        visitor.record_debug("ok", &FieldValue::Bool(true));
        visitor.record_debug("n", &FieldValue::I64(-1));
    }
    assert_eq!(text(&buf), "heads2_ok=trues2_n=-1");
}

#[test]
fn a_visitor_records_fields_in_their_order() {
    let fields = vec![
        Field { name: "b".to_string(), value: FieldValue::U64(2) },
        Field { name: "a".to_string(), value: FieldValue::U64(1) },
        Field { name: "b".to_string(), value: FieldValue::U64(3) },
    ];
    let mut buf = Vec::new();
    SpanVisitor::new(&mut buf, 10).record_all(&fields);
    assert_eq!(text(&buf), "s10_b=2s10_a=1s10_b=3");
    SpanVisitor::new(&mut buf, 10).record_all(&[]);
    assert_eq!(text(&buf), "s10_b=2s10_a=1s10_b=3");
}
