use fuzzming::json::JsonValue;
use fuzzming::response_parser::{
    build_parse_repair_prompt, extract_json_payload, normalize_array_patch_values,
    normalize_envelope, normalized_payload,
};

fn to_json(v: &serde_json::Value) -> JsonValue {
    match v {
        serde_json::Value::Null => JsonValue::Null,
        serde_json::Value::Bool(b) => JsonValue::Bool(*b),
        serde_json::Value::Number(n) => JsonValue::Number(n.to_string()),
        serde_json::Value::String(s) => JsonValue::String(s.clone()),
        serde_json::Value::Array(items) => JsonValue::Array(items.iter().map(to_json).collect()),
        serde_json::Value::Object(map) => JsonValue::Object(
            map.iter()
                .map(|(k, v)| (k.clone(), to_json(v)))
                .collect(),
        ),
    }
}

fn parse(payload: &str) -> JsonValue {
    let value: serde_json::Value = serde_json::from_str(payload).expect("valid JSON");
    to_json(&value)
}

fn members(v: &JsonValue) -> &Vec<(String, JsonValue)> {
    match v {
        JsonValue::Object(ms) => ms,
        _ => panic!("expected an object"),
    }
}

fn get<'a>(v: &'a JsonValue, key: &str) -> Option<&'a JsonValue> {
    members(v).iter().find(|(k, _)| k == key).map(|(_, v)| v)
}

fn as_str(v: &JsonValue) -> &str {
    match v {
        JsonValue::String(s) => s.as_str(),
        _ => panic!("expected a string"),
    }
}

fn items(v: &JsonValue) -> &Vec<JsonValue> {
    match v {
        JsonValue::Array(items) => items,
        _ => panic!("expected an array"),
    }
}

fn render(v: &JsonValue) -> String {
    match v {
        JsonValue::Null => "null".to_string(),
        JsonValue::Bool(b) => b.to_string(),
        JsonValue::Number(n) => n.clone(),
        JsonValue::String(s) => format!("{:?}", s),
        JsonValue::Array(items) => {
            let parts: Vec<String> = items.iter().map(render).collect();
            format!("[{}]", parts.join(","))
        }
        JsonValue::Object(ms) => {
            let parts: Vec<String> = ms
                .iter()
                .map(|(k, v)| format!("{:?}:{}", k, render(v)))
                .collect();
            format!("{{{}}}", parts.join(","))
        }
    }
}

#[test]
fn response_parser_strips_markdown_code_fence() {
    let raw =
        "```json\n{\"mode\":\"patch\",\"bodies_updates\":[],\"foundry_config_updates\":[]}\n```";
    let out = extract_json_payload(raw).ok().expect("must parse fence");
    assert_eq!(
        out,
        "{\"mode\":\"patch\",\"bodies_updates\":[],\"foundry_config_updates\":[]}"
    );
}

#[test]
fn coerces_string_state_vars_to_array() {
    let payload = r#"{
        "mode": "patch",
        "bodies_updates": [
            {"op": "replace", "path": "handler.stateVars",
             "value": "Vault public vault;\naddress public token;", "reason": "fix"}
        ],
        "foundry_config_updates": []
    }"#;
    let mut value = parse(payload);
    normalize_envelope(&mut value);
    let updates = items(get(&value, "bodies_updates").expect("expected patch"));
    let first = get(&updates[0], "value").expect("value");
    assert!(
        matches!(first, JsonValue::Array(_)),
        "stateVars value should be coerced to array"
    );
    let arr = items(first);
    assert_eq!(arr.len(), 2);
    assert_eq!(as_str(&arr[0]), "Vault public vault;");
    assert_eq!(as_str(&arr[1]), "address public token;");
}

#[test]
fn response_parser_normalizes_nested_patch_envelope() {
    let payload = r#"{
        "mode": "patch",
        "patch": {
            "bodies_updates": [],
            "foundry_config_updates": []
        }
    }"#;
    let mut value = parse(payload);
    normalize_envelope(&mut value);
    assert_eq!(as_str(get(&value, "mode").expect("mode")), "patch");
    assert!(get(&value, "patch").is_none());
    assert!(items(get(&value, "bodies_updates").expect("bodies_updates")).is_empty());
    assert!(items(get(&value, "foundry_config_updates").expect("foundry_config_updates")).is_empty());
}

#[test]
fn payload_after_prose_preamble_is_found() {
    let raw = "Here is the result:\n```json\n{\"a\":1}\n```\nThanks!";
    assert_eq!(extract_json_payload(raw).ok().unwrap(), "{\"a\":1}");
}

#[test]
fn payload_with_plain_fence_and_no_closing_fence() {
    let raw = "  ```\n{\"b\":2}  ";
    assert_eq!(extract_json_payload(raw).ok().unwrap(), "{\"b\":2}");
}

#[test]
fn payload_without_fence_is_trimmed() {
    assert_eq!(extract_json_payload("  \n{\"c\":3}\t ").ok().unwrap(), "{\"c\":3}");
    assert_eq!(extract_json_payload("").ok().unwrap(), "");
}

#[test]
fn payload_of_payload_is_unchanged() {
    let raw = "text ```json\n {\"d\": [1, 2]} \n``` more ```";
    let once = extract_json_payload(raw).ok().unwrap();
    let twice = extract_json_payload(&once).ok().unwrap();
    assert_eq!(once, "{\"d\": [1, 2]}");
    assert_eq!(once, twice);
    assert!(!once.contains("```"));
}

#[test]
fn repair_prompt_names_stage_shape_error_and_payload() {
    let prompt = build_parse_repair_prompt("bodies", "bodies object", "{oops", "expected value");
    assert_eq!(
        prompt,
        "Your bodies JSON is invalid. Repair it.\nReturn JSON only, no markdown.\nRequired shape: bodies object\nParse error: expected value\nInvalid payload:\n{oops"
    );
}

#[test]
fn full_envelope_lifts_bodies_and_config() {
    let mut value = parse(
        r#"{"mode":"full","full":{"bodies":{"x":1},"foundry_config":{"runs":5}}}"#,
    );
    normalize_envelope(&mut value);
    assert!(get(&value, "full").is_none());
    assert_eq!(render(get(&value, "bodies").unwrap()), "{\"x\":1}");
    assert_eq!(render(get(&value, "foundry_config").unwrap()), "{\"runs\":5}");
}

#[test]
fn top_level_key_wins_over_nested_one() {
    let mut value = parse(
        r#"{"mode":"full","bodies":{"top":true},"full":{"bodies":{"nested":true}}}"#,
    );
    normalize_envelope(&mut value);
    assert_eq!(render(get(&value, "bodies").unwrap()), "{\"top\":true}");
    assert!(get(&value, "full").is_none());
    assert!(get(&value, "foundry_config").is_none());
}

#[test]
fn envelope_without_known_mode_is_unchanged() {
    let payload = r#"{"mode":"other","patch":{"bodies_updates":[]}}"#;
    let mut value = parse(payload);
    let before = render(&value);
    normalize_envelope(&mut value);
    assert_eq!(render(&value), before);
    let mut not_object = JsonValue::String("x".to_string());
    normalize_envelope(&mut not_object);
    assert_eq!(render(&not_object), "\"x\"");
}

#[test]
fn normalizing_twice_equals_once() {
    let payload = r#"{
        "mode": "patch",
        "patch": {
            "bodies_updates": [
                {"path": "handler.imports", "value": "import A;\n\n  import B;  \n"},
                {"path": "handler.functions.f", "value": "function f() {}\nx"}
            ],
            "foundry_config_updates": [{"path": "runs", "value": 7}]
        }
    }"#;
    let mut value = parse(payload);
    normalize_envelope(&mut value);
    let once = render(&value);
    normalize_envelope(&mut value);
    assert_eq!(render(&value), once);
    let updates = items(get(&value, "bodies_updates").unwrap());
    let imports = items(get(&updates[0], "value").unwrap());
    assert_eq!(imports.len(), 2);
    assert_eq!(as_str(&imports[0]), "import A;");
    assert_eq!(as_str(&imports[1]), "  import B;");
    assert_eq!(as_str(get(&updates[1], "value").unwrap()), "function f() {}\nx");
}

#[test]
fn array_patch_values_split_only_array_paths() {
    let value = parse(
        r#"{"bodies_updates":[{"path":"invariantTest.setUpBody","value":"a();\nb();"},{"path":"handler.contractName","value":"H\nI"}]}"#,
    );
    let mut obj = match value {
        JsonValue::Object(ms) => ms,
        _ => unreachable!(),
    };
    normalize_array_patch_values(&mut obj);
    let value = JsonValue::Object(obj);
    let updates = items(get(&value, "bodies_updates").unwrap());
    assert_eq!(render(get(&updates[0], "value").unwrap()), "[\"a();\",\"b();\"]");
    assert_eq!(as_str(get(&updates[1], "value").unwrap()), "H\nI");
}

#[test]
fn normalized_payload_parses_and_lifts() {
    let out = normalized_payload(
        "{\"mode\":\"full\",\"full\":{\"bodies\":{\"a\":\"b\"},\"foundry_config\":{}}}",
    )
    .ok()
    .expect("valid payload");
    let keys: Vec<String> = members(&out).iter().map(|(k, _)| k.clone()).collect();
    assert_eq!(keys, vec!["mode", "bodies", "foundry_config"]);
}

#[test]
fn normalized_payload_reports_unparsable_text() {
    let err = normalized_payload("not json").err().expect("must fail");
    assert_eq!(err.message, "failed to parse structured response: not json");
}
