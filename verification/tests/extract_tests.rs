use senc::errors::SencError;
use senc::extract::{extract_one, extract_results};
use senc::outputs::{out_file_path, output_bytes, plan_write};
use senc::value::Value;

fn s(text: &str) -> Value {
    Value::Str(text.to_string())
}

fn n(token: &str) -> Value {
    Value::Num(token.to_string())
}

fn obj(fields: Vec<(&str, Value)>) -> Value {
    Value::Obj(fields.into_iter().map(|(k, v)| (k.to_string(), v)).collect())
}

fn descriptor(mut fields: Vec<(&str, Value)>) -> Value {
    let mut all = vec![("__is_senc_out_data", Value::Bool(true))];
    all.append(&mut fields);
    obj(all)
}

#[test]
fn test_plain_value_becomes_default_json_output() {
    let v = obj(vec![("foo", s("bar")), ("fizz", n("42"))]);
    let od = extract_one(&v).unwrap();
    assert_eq!(od.out_path, None);
    assert_eq!(od.out_ext, Some(".json".to_string()));
    assert_eq!(od.out_prefix, None);
    assert_eq!(od.data, "{\"foo\":\"bar\",\"fizz\":42}");
    let (dest, bytes) = plan_write("/out", "/out/simple", &od).unwrap();
    assert_eq!(dest, "/out/simple.json");
    assert_eq!(bytes, "{\"foo\":\"bar\",\"fizz\":42}");
}

#[test]
fn test_descriptor_yaml_format_defaults_to_yml_extension() {
    let payload = obj(vec![("this", s("outfile.js"))]);
    let d = descriptor(vec![("out_type", s("yaml")), ("data", payload)]);
    let od = extract_one(&d).unwrap();
    assert_eq!(od.out_path, None);
    assert_eq!(od.out_ext, Some(".yml".to_string()));
    assert_eq!(od.out_prefix, None);
    let decoded: serde_json::Value = serde_yaml::from_str(&od.data).unwrap();
    assert_eq!(decoded, serde_json::from_str::<serde_json::Value>("{\"this\":\"outfile.js\"}").unwrap());
}

#[test]
fn test_out_data_list_two_formats() {
    let payload = || obj(vec![("this", s("outfile.js"))]);
    let d1 = descriptor(vec![("out_type", s("yaml")), ("data", payload())]);
    let d2 = descriptor(vec![("out_type", s("json")), ("data", payload())]);
    let arr = Value::Arr(vec![d1, d2]);
    let outs = extract_results(&arr, true).unwrap();
    assert_eq!(outs.len(), 2);

    let expected: serde_json::Value =
        serde_json::from_str("{\"this\":\"outfile.js\"}").unwrap();
    assert_eq!(outs[0].out_ext, Some(".yml".to_string()));
    let yml: serde_json::Value = serde_yaml::from_str(&outs[0].data).unwrap();
    assert_eq!(yml, expected);
    assert_eq!(outs[1].out_ext, Some(".json".to_string()));
    let js: serde_json::Value = serde_json::from_str(&outs[1].data).unwrap();
    assert_eq!(js, expected);
}

#[test]
fn test_untagged_array_is_a_single_payload() {
    let arr = Value::Arr(vec![n("1"), n("2")]);
    let outs = extract_results(&arr, false).unwrap();
    assert_eq!(outs.len(), 1);
    assert_eq!(outs[0].data, "[1,2]");
}

#[test]
fn test_out_path_escaping_output_root_is_out_of_bounds() {
    let d = descriptor(vec![
        ("out_path", s("../../../../etc/evil.json")),
        ("data", obj(vec![])),
    ]);
    let od = extract_one(&d).unwrap();
    assert_eq!(od.out_path, Some("../../../../etc/evil.json".to_string()));
    assert_eq!(od.out_ext, None);
    let r = plan_write("/out", "/out/a/b/stem", &od);
    assert!(matches!(r, Err(SencError::OutOfBounds)));
}

#[test]
fn test_out_path_staying_inside_output_root_succeeds() {
    let d = descriptor(vec![("out_path", s("../sibling/ok.json")), ("data", obj(vec![]))]);
    let od = extract_one(&d).unwrap();
    let (dest, _bytes) = plan_write("/out", "/out/a/b/stem", &od).unwrap();
    assert_eq!(dest, "/out/a/sibling/ok.json");
}

#[test]
fn test_out_ext_escaping_output_root_is_out_of_bounds() {
    let d = descriptor(vec![("out_ext", s("/../../evil.json")), ("data", obj(vec![]))]);
    let od = extract_one(&d).unwrap();
    assert_eq!(od.out_ext, Some("/../../evil.json".to_string()));
    let r = plan_write("/out", "/out/stem", &od);
    assert!(matches!(r, Err(SencError::OutOfBounds)));
}

#[test]
fn test_conflicting_output_target() {
    let d = descriptor(vec![
        ("out_path", s("somewhere.json")),
        ("out_ext", s(".yml")),
        ("data", obj(vec![])),
    ]);
    let r = extract_one(&d);
    assert!(matches!(r, Err(SencError::ConflictingOutputTarget)));
}

#[test]
fn test_unsupported_format_is_refused() {
    let d = descriptor(vec![("out_type", s("toml")), ("data", obj(vec![]))]);
    assert!(matches!(extract_one(&d), Err(SencError::UnsupportedFormat)));
    let d2 = descriptor(vec![("out_type", n("3")), ("data", obj(vec![]))]);
    assert!(matches!(extract_one(&d2), Err(SencError::UnsupportedFormat)));
}

#[test]
fn test_empty_and_json_formats_are_default() {
    let d = descriptor(vec![("out_type", s("")), ("data", n("1"))]);
    let od = extract_one(&d).unwrap();
    assert_eq!(od.out_ext, Some(".json".to_string()));
    assert_eq!(od.data, "1");
}

#[test]
fn test_missing_data_field_takes_whole_object() {
    let d = descriptor(vec![("out_type", s("json"))]);
    let od = extract_one(&d).unwrap();
    let decoded: serde_json::Value = serde_json::from_str(&od.data).unwrap();
    assert!(decoded.get("__is_senc_out_data").is_some());
    assert!(decoded.get("out_type").is_some());
}

#[test]
fn test_prefix_prepended_verbatim() {
    let d = descriptor(vec![
        ("out_type", s("yaml")),
        ("out_prefix", s("# this is a prefix\n")),
        ("data", obj(vec![])),
    ]);
    let od = extract_one(&d).unwrap();
    assert_eq!(od.out_prefix, Some("# this is a prefix\n".to_string()));
    let bytes = output_bytes(&od);
    assert!(bytes.starts_with("# this is a prefix\n"));
    assert_eq!(bytes, format!("# this is a prefix\n{}", od.data));
    let dest = out_file_path("/tmp", "/tmp/prefixed", &od).unwrap();
    assert_eq!(dest, "/tmp/prefixed.yml");
}

#[test]
fn test_json_consistent_output() {
    let make = || obj(vec![("foo", s("bar")), ("fizz", n("42")), ("obj", obj(vec![("msg", s("hello world"))]))]);
    let first = extract_one(&make()).unwrap();
    for _i in 0..100 {
        let od = extract_one(&make()).unwrap();
        assert_eq!(od.data, first.data);
    }
}

#[test]
fn test_yaml_consistent_output() {
    let make = || {
        descriptor(vec![
            ("out_type", s("yaml")),
            ("data", obj(vec![("foo", s("bar")), ("fizz", n("42"))])),
        ])
    };
    let first = extract_one(&make()).unwrap();
    for _i in 0..100 {
        let od = extract_one(&make()).unwrap();
        assert_eq!(od.data, first.data);
    }
}
