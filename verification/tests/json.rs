use fuzzming::json::{apply_json_updates, clone_json, set_dot_path, JsonBlockUpdate, JsonValue, PatchError};

fn s(x: &str) -> JsonValue {
    JsonValue::String(x.to_string())
}

fn obj(ms: Vec<(&str, JsonValue)>) -> JsonValue {
    JsonValue::Object(ms.into_iter().map(|(k, v)| (k.to_string(), v)).collect())
}

fn show(v: &JsonValue) -> String {
    match v {
        JsonValue::Null => "null".to_string(),
        JsonValue::Bool(b) => b.to_string(),
        JsonValue::Number(n) => n.clone(),
        JsonValue::String(x) => format!("{:?}", x),
        JsonValue::Array(items) => {
            let parts: Vec<String> = items.iter().map(show).collect();
            format!("[{}]", parts.join(","))
        }
        JsonValue::Object(ms) => {
            let parts: Vec<String> =
                ms.iter().map(|(k, v)| format!("{:?}:{}", k, show(v))).collect();
            format!("{{{}}}", parts.join(","))
        }
    }
}

fn sample() -> JsonValue {
    obj(vec![
        ("handler", obj(vec![("functions", obj(vec![("deposit", s("old"))])), ("name", s("H"))])),
        ("meta", obj(vec![("contract", s("Vault"))])),
    ])
}

fn patch_update(path: &str, value: JsonValue) -> JsonBlockUpdate {
    JsonBlockUpdate {
        op: "replace".to_string(),
        path: path.to_string(),
        value,
        reason: "test".to_string(),
    }
}

#[test]
fn set_replaces_existing_leaf_and_reads_back() {
    let mut v = sample();
    assert!(set_dot_path(&mut v, "handler.functions.deposit", s("new")).is_ok());
    assert_eq!(
        show(&v),
        "{\"handler\":{\"functions\":{\"deposit\":\"new\"},\"name\":\"H\"},\"meta\":{\"contract\":\"Vault\"}}"
    );
}

#[test]
fn set_inserts_missing_last_segment_at_the_end() {
    let mut v = sample();
    assert!(set_dot_path(&mut v, "handler.functions.withdraw", s("w")).is_ok());
    assert_eq!(
        show(&v),
        "{\"handler\":{\"functions\":{\"deposit\":\"old\",\"withdraw\":\"w\"},\"name\":\"H\"},\"meta\":{\"contract\":\"Vault\"}}"
    );
}

#[test]
fn set_fails_on_missing_intermediate_key_and_keeps_root() {
    let mut v = sample();
    let before = show(&v);
    let err = set_dot_path(&mut v, "handler.missing.x", s("y")).err().expect("must fail");
    assert!(matches!(&err, PatchError::KeyNotFound { key, .. } if key == "missing"));
    assert_eq!(err.message(), "path `handler.missing.x`: key `missing` not found");
    assert_eq!(show(&v), before);
}

#[test]
fn set_fails_when_a_segment_is_not_an_object() {
    let mut v = sample();
    let err = set_dot_path(&mut v, "handler.name.first", s("y")).err().expect("must fail");
    assert!(matches!(&err, PatchError::ExpectedObject { key, .. } if key == "first"));
    assert_eq!(err.message(), "path `handler.name.first`: expected object at `first`");
    let mut scalar = s("x");
    let err = set_dot_path(&mut scalar, "a", s("y")).err().expect("must fail");
    assert!(matches!(&err, PatchError::ExpectedObject { key, .. } if key == "a"));
}

#[test]
fn updates_apply_in_order() {
    let updates = vec![
        patch_update("meta.contract", s("Bank")),
        patch_update("meta.contract", s("Bank2")),
        patch_update("handler.functions.deposit", JsonValue::Array(vec![s("a"), s("b")])),
    ];
    let out = apply_json_updates(sample(), &updates).ok().expect("applies");
    assert_eq!(
        show(&out),
        "{\"handler\":{\"functions\":{\"deposit\":[\"a\",\"b\"]},\"name\":\"H\"},\"meta\":{\"contract\":\"Bank2\"}}"
    );
}

#[test]
fn updates_stop_at_the_first_failure() {
    let updates = vec![patch_update("meta.contract", s("Bank")), patch_update("nope.x", s("y")), patch_update("meta.other", s("z"))];
    let err = apply_json_updates(sample(), &updates).err().expect("fails");
    assert_eq!(err.message(), "path `nope.x`: key `nope` not found");
}

#[test]
fn write_then_read_gives_the_written_value() {
    let mut v = sample();
    assert!(set_dot_path(&mut v, "meta.contract", JsonValue::Number("42".to_string())).is_ok());
    let JsonValue::Object(top) = &v else { panic!("object") };
    let (_, meta) = top.iter().find(|(k, _)| k == "meta").unwrap();
    let JsonValue::Object(m) = meta else { panic!("object") };
    assert_eq!(m.len(), 1);
    assert_eq!(show(&m[0].1), "42");
    let (_, handler) = top.iter().find(|(k, _)| k == "handler").unwrap();
    assert_eq!(show(handler), "{\"functions\":{\"deposit\":\"old\"},\"name\":\"H\"}");
}

#[test]
fn clone_keeps_the_value() {
    let v = sample();
    assert_eq!(show(&clone_json(&v)), show(&v));
}

#[test]
fn setting_a_deep_path_leaves_siblings_alone() {
    let mut v = sample();
    assert!(set_dot_path(&mut v, "handler.functions.deposit", s("new")).is_ok());
    let JsonValue::Object(top) = &v else { panic!("object") };
    let (_, handler) = top.iter().find(|(k, _)| k == "handler").unwrap();
    let JsonValue::Object(h) = handler else { panic!("object") };
    let (_, name) = h.iter().find(|(k, _)| k == "name").unwrap();
    assert_eq!(show(name), "\"H\"");
    let (_, meta) = top.iter().find(|(k, _)| k == "meta").unwrap();
    assert_eq!(show(meta), "{\"contract\":\"Vault\"}");
}
