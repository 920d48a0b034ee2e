use identity::error::Error;
use identity::jcs::bytes_less;
use identity::jcs::jcs_sha256;
use identity::jcs::to_jcs;
use identity::json::Value;

fn unhex(s: &str) -> Vec<u8> {
    (0..s.len() / 2).map(|i| u8::from_str_radix(&s[2 * i..2 * i + 2], 16).unwrap()).collect()
}

fn obj(members: Vec<(&str, Value)>) -> Value {
    Value::Object(members.into_iter().map(|(k, v)| (k.to_string(), v)).collect())
}

fn text(v: &Value) -> String {
    String::from_utf8(to_jcs(v).unwrap()).unwrap()
}

#[test]
fn canonical_scalars() {
    assert_eq!(text(&Value::Null), "null");
    assert_eq!(text(&Value::Bool(true)), "true");
    assert_eq!(text(&Value::Bool(false)), "false");
    assert_eq!(text(&Value::Number(0)), "0");
    assert_eq!(text(&Value::Number(7)), "7");
    assert_eq!(text(&Value::Number(10)), "10");
    assert_eq!(text(&Value::Number(-1)), "-1");
    assert_eq!(text(&Value::Number(1234567890)), "1234567890");
    assert_eq!(text(&Value::Number(i64::MAX)), "9223372036854775807");
    assert_eq!(text(&Value::Number(i64::MIN)), "-9223372036854775808");
    assert_eq!(text(&Value::text("abc")), "\"abc\"");
    assert_eq!(text(&Value::text("")), "\"\"");
}

#[test]
fn canonical_strings_escape_only_what_they_must() {
    assert_eq!(text(&Value::text("a\"b")), "\"a\\\"b\"");
    assert_eq!(text(&Value::text("a\\b")), "\"a\\\\b\"");
    assert_eq!(text(&Value::text("\u{8}\t\n\u{c}\r")), "\"\\b\\t\\n\\f\\r\"");
    assert_eq!(text(&Value::text("\u{0}\u{1f}\u{b}")), "\"\\u0000\\u001f\\u000b\"");
    assert_eq!(text(&Value::text("/ \u{7f}")), "\"/ \u{7f}\"");
    assert_eq!(text(&Value::text("\u{e9}\u{20ac}\u{1f600}")), "\"\u{e9}\u{20ac}\u{1f600}\"");
}

#[test]
fn canonical_arrays_keep_their_order() {
    assert_eq!(text(&Value::Array(Vec::new())), "[]");
    assert_eq!(text(&Value::Array(vec![Value::Number(1)])), "[1]");
    let v = Value::Array(vec![Value::Number(3), Value::text("x"), Value::Null, Value::Array(vec![])]);
    assert_eq!(text(&v), "[3,\"x\",null,[]]");
}

#[test]
fn canonical_objects_sort_their_keys() {
    assert_eq!(text(&obj(vec![])), "{}");
    let v = obj(vec![("b", Value::Number(2)), ("a", Value::Number(1))]);
    assert_eq!(text(&v), "{\"a\":1,\"b\":2}");
    let w = obj(vec![
        ("peach", Value::text("x")),
        ("a", Value::Bool(true)),
        ("pea", Value::Null),
        ("B", Value::Number(1)),
        ("", Value::Number(0)),
    ]);
    assert_eq!(text(&w), "{\"\":0,\"B\":1,\"a\":true,\"pea\":null,\"peach\":\"x\"}");
}

#[test]
fn canonical_form_is_the_same_for_any_order_of_members() {
    let one = obj(vec![("a", Value::Number(1)), ("b", Value::Number(2))]);
    let two = obj(vec![("b", Value::Number(2)), ("a", Value::Number(1))]);
    assert_eq!(to_jcs(&one), to_jcs(&two));
    assert_eq!(jcs_sha256(&one), jcs_sha256(&two));
    let h = jcs_sha256(&one).unwrap();
    assert_eq!(
        h.as_slice(),
        &unhex("43258cff783fe7036d8a43033f830adfc60ec037382473548ac742b888292777")[..]
    );
    let inner1 = obj(vec![("x", one.deep_copy()), ("list", Value::Array(vec![two.deep_copy()]))]);
    let inner2 = obj(vec![("list", Value::Array(vec![one.deep_copy()])), ("x", two.deep_copy())]);
    assert_eq!(jcs_sha256(&inner1), jcs_sha256(&inner2));
    assert_eq!(text(&inner1), "{\"list\":[{\"a\":1,\"b\":2}],\"x\":{\"a\":1,\"b\":2}}");
}

#[test]
fn canonical_form_differs_for_different_values() {
    let one = obj(vec![("a", Value::Number(1)), ("b", Value::Number(2))]);
    let two = obj(vec![("a", Value::Number(2)), ("b", Value::Number(1))]);
    assert_ne!(jcs_sha256(&one), jcs_sha256(&two));
    let three = Value::Array(vec![Value::Number(1), Value::Number(2)]);
    let four = Value::Array(vec![Value::Number(2), Value::Number(1)]);
    assert_ne!(to_jcs(&three), to_jcs(&four));
}

#[test]
fn a_key_twice_has_no_canonical_form() {
    let v = obj(vec![("a", Value::Number(1)), ("a", Value::Number(2))]);
    assert_eq!(to_jcs(&v), Err(Error::EncodingFailure));
    assert_eq!(jcs_sha256(&v), Err(Error::EncodingFailure));
    let nested = Value::Array(vec![Value::Null, obj(vec![("k", v)])]);
    assert_eq!(to_jcs(&nested), Err(Error::EncodingFailure));
}

#[test]
fn order_of_bytes() {
    assert!(bytes_less(b"", b"a"));
    assert!(!bytes_less(b"", b""));
    assert!(!bytes_less(b"a", b""));
    assert!(bytes_less(b"a", b"b"));
    assert!(bytes_less(b"a", b"aa"));
    assert!(!bytes_less(b"b", b"aa"));
    assert!(!bytes_less(b"abc", b"abc"));
    assert!(bytes_less(b"Z", b"a"));
}

#[test]
fn members_are_found_by_key() {
    let v = obj(vec![("a", Value::Number(1)), ("b", Value::text("x")), ("a", Value::Number(3))]);
    assert_eq!(v.get("a"), Some(&Value::Number(1)));
    assert_eq!(v.get("b").unwrap().as_text(), Some("x"));
    assert_eq!(v.get("c"), None);
    assert_eq!(Value::Null.get("a"), None);
    assert_eq!(Value::Number(1).as_text(), None);
    assert!(Value::Array(vec![Value::Null]).as_array().is_some());
    assert!(v.as_array().is_none());
}

#[test]
fn members_are_left_out_by_key() {
    let v = obj(vec![("a", Value::Number(1)), ("proof", Value::text("x")), ("b", Value::Number(3))]);
    let rest = v.without("proof").unwrap();
    assert_eq!(Value::Object(rest), obj(vec![("a", Value::Number(1)), ("b", Value::Number(3))]));
    assert_eq!(v.without("zzz").unwrap().len(), 3);
    assert!(Value::Null.without("a").is_none());
}

#[test]
fn a_copy_is_equal() {
    let v = obj(vec![
        ("a", Value::Array(vec![Value::Number(1), Value::Bool(false), Value::Null])),
        ("b", obj(vec![("c", Value::text("d"))])),
    ]);
    assert_eq!(v.deep_copy(), v);
}
