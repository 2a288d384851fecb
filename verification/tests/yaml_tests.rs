use senc::errors::SencError;
use senc::extract::extract_one;
use senc::loader::{prepare_module_source, ModuleKind};
use senc::value::Value;

#[test]
fn test_yaml_payload_renders_exact_text() {
    let d = Value::Obj(vec![
        ("__is_senc_out_data".to_string(), Value::Bool(true)),
        ("out_type".to_string(), Value::Str("yaml".to_string())),
        (
            "data".to_string(),
            Value::Obj(vec![("a".to_string(), Value::Num("1".to_string()))]),
        ),
    ]);
    let od = extract_one(&d).unwrap();
    assert_eq!(od.data, "a: 1\n");
}

#[test]
fn test_empty_yaml_payload_renders_empty_mapping() {
    let d = Value::Obj(vec![
        ("__is_senc_out_data".to_string(), Value::Bool(true)),
        ("out_type".to_string(), Value::Str("yaml".to_string())),
        ("data".to_string(), Value::Obj(vec![])),
    ]);
    let od = extract_one(&d).unwrap();
    assert_eq!(od.data, "{}\n");
}

#[test]
fn test_yaml_module_renders_exact_json() {
    let m = prepare_module_source("/a/cfg.yml", "a: 1").unwrap();
    assert_eq!(m.0, ModuleKind::Json);
    assert_eq!(m.1, "{\"a\":1}");
}

#[test]
fn test_unparsable_yaml_module_is_refused() {
    let r = prepare_module_source("/a/cfg.yaml", "{{{");
    assert!(matches!(r, Err(SencError::Execution)));
}

#[test]
fn test_yaml_module_round_trips_through_json() {
    let json = prepare_module_source("/a/cfg.yaml", "a: 1").unwrap().1;
    let d = Value::Obj(vec![
        ("__is_senc_out_data".to_string(), Value::Bool(true)),
        ("out_type".to_string(), Value::Str("yaml".to_string())),
        (
            "data".to_string(),
            Value::Obj(vec![("a".to_string(), Value::Num("1".to_string()))]),
        ),
    ]);
    let od = extract_one(&d).unwrap();
    let reparsed: serde_json::Value = serde_yaml::from_str(&od.data).unwrap();
    assert_eq!(serde_json::to_string(&reparsed).unwrap(), json);
}
