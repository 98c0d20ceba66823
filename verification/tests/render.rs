use imo::render::{alt_hex_text, numeral_text, signed_text};
use imo::value::{DebugStructField, DebugValue, WrapperKind};

fn f64_text(bits: u64) -> String {
    format!("{}", f64::from_bits(bits))
}

fn f32_text(bits: u32) -> String {
    format!("{}", f32::from_bits(bits))
}

fn plain(v: &DebugValue) -> String {
    strip_ansi_escapes::strip_str(v.render(&f64_text, &f32_text))
}

#[test]
fn numerals() {
    assert_eq!(numeral_text(0, 10), "0");
    assert_eq!(numeral_text(1234567890, 10), "1234567890");
    assert_eq!(numeral_text(255, 16), "ff");
    assert_eq!(signed_text(-15), "-15");
    assert_eq!(signed_text(i64::MIN), i64::MIN.to_string());
    assert_eq!(alt_hex_text(0x1f), format!("{:#x}", 0x1f));
    assert_eq!(alt_hex_text(0), "0x0");
}

#[test]
fn coloured_values_wrap_in_escape_codes() {
    // A character is shown in quotes, in cyan.
    let shown = DebugValue::Char('a').render(&f64_text, &f32_text);
    assert_eq!(shown, "'\u{1b}[36ma\u{1b}[39m'");
}

#[test]
fn collections_and_structures() {
    let v = DebugValue::Vec(vec![DebugValue::Integer(1), DebugValue::Integer(-2)]);
    assert_eq!(plain(&v), "[1,-2]");
    assert_eq!(plain(&DebugValue::Array(vec![])), "[]");
    let t = DebugValue::Tuple(vec![DebugValue::Boolean(true), DebugValue::Char('a')]);
    assert_eq!(plain(&t), "(true,'a')");
    let b = DebugValue::PointerWrapper { kind: WrapperKind::Box, value: Box::new(DebugValue::Unsigned(5)) };
    assert_eq!(plain(&b), "Box(5)");
    let s = DebugValue::Struct {
        name: "Point".to_string(),
        fields: vec![
            DebugStructField { name: "x".to_string(), value: DebugValue::Integer(1) },
            DebugStructField { name: "y".to_string(), value: DebugValue::Integer(2) },
        ],
    };
    assert_eq!(plain(&s), "Point {\n    x:   1\n    y:   2\n}");
    let some = DebugValue::Variant { name: "Some".to_string(), field: Some(Box::new(DebugValue::Integer(3))) };
    assert_eq!(plain(&some), "Some(3)");
    let m = DebugValue::HashMap { entries: vec![(DebugValue::Integer(1), DebugValue::String("a".to_string()))] };
    assert_eq!(plain(&m), "HashMap {\n    1:   \"a\",\n}");
    assert_eq!(plain(&DebugValue::Pointer(255)), "0xff");
    assert_eq!(plain(&DebugValue::Float(2.5f64.to_bits())), "2.5");
    assert_eq!(plain(&DebugValue::Enum { name: "Color".to_string(), inner_name: "Red".to_string() }), "Color::Red");
    assert_eq!(plain(&DebugValue::HashSet { elements: vec![] }), "HashSet ()");
}
