use clikit::handlers::build_info_value;
use clikit::render::render;
use clikit::render::Format;
use clikit::value::format_value;
use clikit::value::Value;

fn sample_tree() -> Value {
    let inner = vec![
        ("c".to_string(), Value::Number(5)),
        ("d".to_string(), Value::Boolean(true)),
    ];
    Value::Object(vec![
        ("a".to_string(), Value::Text("x".to_string())),
        ("b".to_string(), Value::Object(inner)),
    ])
}

#[test]
fn json_pretty_format_is_exact() {
    let v = sample_tree();
    let out = render(&v, Format::Json);
    assert_eq!(out, "{\n  \"a\": \"x\",\n  \"b\": {\n    \"c\": 5,\n    \"d\": true\n  }\n}");
}

#[test]
fn table_format_is_exact() {
    let v = sample_tree();
    let out = render(&v, Format::Table);
    assert_eq!(out, "a: x\nb:\n  c: 5\n  d: true\n");
}

#[test]
fn table_and_yaml_are_identical() {
    let v = sample_tree();
    assert_eq!(render(&v, Format::Table), render(&v, Format::Yaml));
    let info = build_info_value(true, "123");
    assert_eq!(render(&info, Format::Table), render(&info, Format::Yaml));
    let scalar = Value::Number(7);
    assert_eq!(render(&scalar, Format::Table), render(&scalar, Format::Yaml));
}

#[test]
fn rendering_is_idempotent() {
    let v = sample_tree();
    assert_eq!(render(&v, Format::Json), render(&v, Format::Json));
    assert_eq!(render(&v, Format::Table), render(&v, Format::Table));
    assert_eq!(render(&v, Format::Yaml), render(&v, Format::Yaml));
}

#[test]
fn json_round_trips_through_standard_parser() {
    let v = sample_tree();
    let out = render(&v, Format::Json);
    let parsed: serde_json::Value = serde_json::from_str(&out).expect("rendered JSON must parse");
    let expected: serde_json::Value =
        serde_json::from_str("{\"a\":\"x\",\"b\":{\"c\":5,\"d\":true}}").unwrap();
    assert_eq!(parsed, expected);
}

#[test]
fn json_escapes_round_trip() {
    let tricky = "quote:\" backslash:\\ newline:\n tab:\t cr:\r bell:\u{7} unicode:\u{e9}";
    let v = Value::Object(vec![(
        "k\"ey\\".to_string(),
        Value::Text(tricky.to_string()),
    )]);
    let out = render(&v, Format::Json);
    let parsed: serde_json::Value = serde_json::from_str(&out).expect("escaped JSON must parse");
    match &parsed["k\"ey\\"] {
        serde_json::Value::String(s) => assert_eq!(s, tricky),
        other => panic!("wrong shape after round trip: {:?}", other),
    }
}

#[test]
fn json_scalars_and_empty_object() {
    assert_eq!(render(&Value::Number(0), Format::Json), "0");
    assert_eq!(render(&Value::Number(18446744073709551615), Format::Json), "18446744073709551615");
    assert_eq!(render(&Value::Boolean(false), Format::Json), "false");
    assert_eq!(render(&Value::Text("hi".to_string()), Format::Json), "\"hi\"");
    assert_eq!(render(&Value::Object(Vec::new()), Format::Json), "{}");
    assert_eq!(render(&Value::Number(42), Format::Table), "42\n");
}

#[test]
fn format_value_renders_scalars() {
    assert_eq!(format_value(&Value::Text("abc".to_string())), "abc");
    assert_eq!(format_value(&Value::Number(30)), "30");
    assert_eq!(format_value(&Value::Boolean(true)), "true");
}

#[test]
fn format_value_object_falls_back_to_compact_json() {
    assert_eq!(format_value(&Value::Object(Vec::new())), "{}");
    assert_eq!(
        format_value(&sample_tree()),
        "{\"a\":\"x\",\"b\":{\"c\":5,\"d\":true}}"
    );
    let quoted = Value::Object(vec![("k".to_string(), Value::Text("a\"b".to_string()))]);
    assert_eq!(format_value(&quoted), "{\"k\":\"a\\\"b\"}");
}

#[test]
fn info_value_renders_in_every_format() {
    let info = build_info_value(false, "1700000000");
    let json = render(&info, Format::Json);
    let parsed: serde_json::Value = serde_json::from_str(&json).expect("info JSON must parse");
    assert_eq!(parsed["Library"], serde_json::Value::String("Clap".to_string()));
    assert_eq!(parsed["Timestamp"], serde_json::Value::String("1700000000".to_string()));
    let table = render(&info, Format::Table);
    assert!(table.starts_with("Library: Clap\n"));
    assert!(table.contains("Timestamp: 1700000000\n"));

    let verbose = build_info_value(true, "1");
    let vjson = render(&verbose, Format::Json);
    let vparsed: serde_json::Value = serde_json::from_str(&vjson).unwrap();
    assert_eq!(
        vparsed["Extras"]["License"],
        serde_json::Value::String("MIT/Apache-2.0".to_string())
    );
    let vtable = render(&verbose, Format::Table);
    assert!(vtable.contains("Extras:\n  Documentation: https://docs.rs/clap/\n"));
}

#[test]
fn empty_nested_object_renders() {
    let v = Value::Object(vec![("e".to_string(), Value::Object(Vec::new()))]);
    assert_eq!(render(&v, Format::Json), "{\n  \"e\": {}\n}");
    assert_eq!(render(&v, Format::Table), "e:\n");
    let parsed: serde_json::Value = serde_json::from_str(&render(&v, Format::Json)).unwrap();
    let expected: serde_json::Value = serde_json::from_str("{\"e\":{}}").unwrap();
    assert_eq!(parsed, expected);
}
