use senc::json::to_json;
use senc::value::Value;

fn s(text: &str) -> Value {
    Value::Str(text.to_string())
}

fn n(token: &str) -> Value {
    Value::Num(token.to_string())
}

#[test]
fn test_json_scalars() {
    assert_eq!(to_json(&Value::Null), "null");
    assert_eq!(to_json(&Value::Bool(true)), "true");
    assert_eq!(to_json(&Value::Bool(false)), "false");
    assert_eq!(to_json(&n("42")), "42");
    assert_eq!(to_json(&n("-1.5e3")), "-1.5e3");
    assert_eq!(to_json(&s("hello world")), "\"hello world\"");
}

#[test]
fn test_json_string_escapes() {
    assert_eq!(to_json(&s("a\"b")), "\"a\\\"b\"");
    assert_eq!(to_json(&s("a\\b")), "\"a\\\\b\"");
    assert_eq!(to_json(&s("line\nbreak")), "\"line\\nbreak\"");
    assert_eq!(to_json(&s("\r\t\u{8}\u{c}")), "\"\\r\\t\\b\\f\"");
    assert_eq!(to_json(&s("\u{1}\u{1f}")), "\"\\u0001\\u001f\"");
    assert_eq!(to_json(&s("caf\u{e9}")), "\"caf\u{e9}\"");
}

#[test]
fn test_json_collections() {
    assert_eq!(to_json(&Value::Arr(vec![])), "[]");
    assert_eq!(to_json(&Value::Obj(vec![])), "{}");
    let arr = Value::Arr(vec![n("1"), s("two"), Value::Null]);
    assert_eq!(to_json(&arr), "[1,\"two\",null]");
}

#[test]
fn test_json_nested_object() {
    let v = Value::Obj(vec![
        ("foo".to_string(), s("bar")),
        ("fizz".to_string(), n("42")),
        ("obj".to_string(), Value::Obj(vec![("msg".to_string(), s("hello world"))])),
    ]);
    assert_eq!(to_json(&v), "{\"foo\":\"bar\",\"fizz\":42,\"obj\":{\"msg\":\"hello world\"}}");
}

#[test]
fn test_json_string_escaping_matches_outside_serializer() {
    // Byte-identical to the outside emitter on every control character,
    // the two escaped characters, and some multi-byte ones.
    let raw: String =
        (0u8..0x20).map(|b| b as char).chain(['"', '\\', '/', '\u{e9}', '\u{2603}']).collect();
    let mine = to_json(&Value::Str(raw.clone()));
    let outside = serde_json::to_string(&serde_json::Value::String(raw)).unwrap();
    assert_eq!(mine, outside);
}

#[test]
fn test_json_matches_outside_serializer() {
    // The verified emitter agrees with the outside one on a compact
    // document, key order aside.
    let v = Value::Obj(vec![
        ("a".to_string(), Value::Arr(vec![n("1"), n("2")])),
        ("b".to_string(), s("x\ny")),
    ]);
    let text = to_json(&v);
    let reparsed: serde_json::Value = serde_json::from_str(&text).unwrap();
    assert_eq!(reparsed, serde_json::from_str::<serde_json::Value>("{\"a\":[1,2],\"b\":\"x\\ny\"}").unwrap());
}
