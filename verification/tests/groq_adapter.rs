use fuzzming::groq_adapter::{extract_json_payload, lifted_payload, normalize_envelope, GroqAdapter};
use fuzzming::json::JsonValue;

fn value_of(v: &serde_json::Value) -> JsonValue {
    match v {
        serde_json::Value::Null => JsonValue::Null,
        serde_json::Value::Bool(b) => JsonValue::Bool(*b),
        serde_json::Value::Number(n) => JsonValue::Number(n.to_string()),
        serde_json::Value::String(s) => JsonValue::String(s.clone()),
        serde_json::Value::Array(items) => JsonValue::Array(items.iter().map(value_of).collect()),
        serde_json::Value::Object(map) => JsonValue::Object(
            map.iter()
                .map(|(k, v)| (k.clone(), value_of(v)))
                .collect(),
        ),
    }
}

fn keys(v: &JsonValue) -> Vec<String> {
    match v {
        JsonValue::Object(ms) => ms.iter().map(|(k, _)| k.clone()).collect(),
        _ => panic!("expected an object"),
    }
}

#[test]
fn groq_adapter_strips_markdown_code_fence() {
    let raw =
        "```json\n{\"mode\":\"patch\",\"bodies_updates\":[],\"foundry_config_updates\":[]}\n```";
    let out = extract_json_payload(raw).ok().expect("must parse fence");
    assert_eq!(
        out,
        "{\"mode\":\"patch\",\"bodies_updates\":[],\"foundry_config_updates\":[]}"
    );
}

#[test]
fn groq_adapter_normalizes_nested_patch_envelope() {
    let payload = r#"{
        "mode": "patch",
        "patch": {
            "bodies_updates": [],
            "foundry_config_updates": []
        }
    }"#;
    let value: serde_json::Value =
        serde_json::from_str(payload).expect("must parse normalized patch");
    let mut value = value_of(&value);
    normalize_envelope(&mut value);
    let ks = keys(&value);
    assert!(ks.contains(&"bodies_updates".to_string()));
    assert!(ks.contains(&"foundry_config_updates".to_string()));
    assert!(!ks.contains(&"patch".to_string()));
}

#[test]
fn groq_payload_only_strips_a_leading_fence() {
    assert_eq!(
        extract_json_payload("  ```json```\n{\"a\":1}\n``````  ").ok().unwrap(),
        "{\"a\":1}"
    );
    assert_eq!(
        extract_json_payload("prose ```json\n{}\n```").ok().unwrap(),
        "prose ```json\n{}\n```"
    );
}

#[test]
fn groq_patch_strings_are_not_split() {
    let payload = r#"{"mode":"patch","bodies_updates":[{"path":"handler.imports","value":"a\nb"}]}"#;
    let value: serde_json::Value = serde_json::from_str(payload).unwrap();
    let mut value = value_of(&value);
    normalize_envelope(&mut value);
    let JsonValue::Object(ms) = value else { panic!("object") };
    let (_, updates) = ms.iter().find(|(k, _)| k == "bodies_updates").unwrap();
    let JsonValue::Array(us) = updates else { panic!("array") };
    let JsonValue::Object(u) = &us[0] else { panic!("object") };
    let (_, v) = u.iter().find(|(k, _)| k == "value").unwrap();
    assert!(matches!(v, JsonValue::String(s) if s == "a\nb"));
}

#[test]
fn groq_model_gets_provider_prefix() {
    let adapter = GroqAdapter::new("key".to_string());
    assert_eq!(adapter.pick_model(""), "groq/openai/gpt-oss-120b");
    assert_eq!(adapter.pick_model("   "), "groq/openai/gpt-oss-120b");
    assert_eq!(adapter.pick_model("llama-3"), "groq/llama-3");
    assert_eq!(adapter.pick_model("groq/llama-3"), "groq/llama-3");
    let again = adapter.pick_model(&adapter.pick_model("mixtral"));
    assert_eq!(again, "groq/mixtral");
}

#[test]
fn groq_adapter_settings() {
    let adapter = GroqAdapter::new("secret".to_string());
    assert_eq!(adapter.api_key(), "secret");
    assert_eq!(adapter.default_model(), "openai/gpt-oss-120b");
    assert_eq!(adapter.max_tokens(), Some(4096));
    let adapter = adapter
        .with_default_model("llama".to_string())
        .with_max_tokens(None);
    assert_eq!(adapter.default_model(), "llama");
    assert_eq!(adapter.max_tokens(), None);
    assert_eq!(adapter.api_key(), "secret");
    assert_eq!(adapter.pick_model(""), "groq/llama");
}

#[test]
fn groq_system_prompt_embeds_source() {
    let adapter = GroqAdapter::new("k".to_string());
    let prompt = adapter.build_system_prompt("contract V {}");
    assert!(prompt.starts_with(
        "You are a Senior Smart-Contract Security Researcher and Foundry Fuzzing Expert.\nSOURCE_CODE:\ncontract V {}\n\nSTRICT OPERATIONAL RULES:\n"
    ));
    assert!(prompt.contains("You MUST use a ghost array 'address[] public actors'"));
    assert!(prompt.ends_with("5. OUTPUT: Return valid JSON only."));
}

#[test]
fn groq_stage_prompts() {
    let adapter = GroqAdapter::new("k".to_string());
    let analysis = adapter.build_round_one_analysis_prompt();
    assert!(analysis.starts_with("Stage 1/3: Security Analysis & Logic Design.\n"));
    assert!(analysis.ends_with("\"critical_invariants\": [\"string\"]\n}"));
    let bodies = adapter.build_round_one_bodies_prompt("{\"x\":1}");
    assert!(bodies.starts_with("Stage 2/3: Solidity Generation.\n"));
    assert!(bodies.ends_with("Analysis Context:\n{\"x\":1}\n"));
    let config = adapter.build_round_one_config_prompt("{}", "[\"deposit\"]");
    assert!(config.contains("Analysis JSON:\n{}\n"));
    assert!(config.ends_with("Handler function names:\n[\"deposit\"]"));
    let round = adapter.build_round_n_prompt(3, "{\"b\":1}", "{\"c\":2}");
    assert!(round.starts_with("Round: 3\nReturn JSON only.\n"));
    assert!(round.ends_with("Existing bodies:\n{\"b\":1}\n\nExisting foundry config:\n{\"c\":2}"));
}

#[test]
fn lifted_payload_parses_and_lifts() {
    let out = lifted_payload(
        "{\"mode\":\"patch\",\"patch\":{\"bodies_updates\":[],\"foundry_config_updates\":[]}}",
    )
    .ok()
    .expect("valid payload");
    assert_eq!(keys(&out), vec!["mode", "bodies_updates", "foundry_config_updates"]);
    let err = lifted_payload("{oops").err().expect("must fail");
    assert_eq!(err.message, "failed to parse structured response: {oops");
}
