use fuzzming::generation::{
    after_failed_attempt, check_patch_base, extract_relevant_bodies, validate_full_generation,
    validate_patch_updates, AttemptStep, GenerationUsage, MAX_ATTEMPTS,
};
use fuzzming::generation_adapter::LiteLlmGenerationAdapter;
use fuzzming::interfaces::{BodiesJson, BodiesMeta, HandlerBodies, InvariantTestBodies};
use fuzzming::json::{JsonBlockUpdate, JsonValue};
use indexmap::IndexMap;

fn sample_bodies() -> BodiesJson {
    let mut functions = IndexMap::new();
    functions.insert("deposit".to_string(), "function deposit() external {}".to_string());
    functions.insert("withdraw".to_string(), "function withdraw() external {}".to_string());
    let mut invariants = IndexMap::new();
    invariants.insert("invariant_solvency".to_string(), "function invariant_solvency() public {}".to_string());
    BodiesJson {
        meta: BodiesMeta {
            contract: "Vault".to_string(),
            contract_path: "src/Vault.sol".to_string(),
            solidity: "0.8.20".to_string(),
            generated_at: "now".to_string(),
        },
        handler: HandlerBodies {
            contract_name: "VaultHandler".to_string(),
            output_path: "test/VaultHandler.sol".to_string(),
            imports: vec!["import {BaseHandler} from \"src/base/BaseHandler.sol\";".to_string()],
            state_vars: vec![],
            ghost_vars: vec![],
            constructor_signature: "constructor(Vault v)".to_string(),
            constructor_body: vec![],
            functions,
            target_selectors: String::new(),
        },
        invariant_test: InvariantTestBodies {
            contract_name: "VaultInvariantTest".to_string(),
            output_path: "test/VaultInvariantTest.sol".to_string(),
            imports: vec![],
            state_vars: vec![],
            set_up_body: vec![],
            invariants,
        },
    }
}

fn update(path: &str, value: JsonValue) -> JsonBlockUpdate {
    JsonBlockUpdate {
        op: "replace".to_string(),
        path: path.to_string(),
        value,
        reason: "r".to_string(),
    }
}

fn usage(n: u64) -> GenerationUsage {
    GenerationUsage {
        calls: n,
        prompt_tokens: n,
        completion_tokens: n,
        total_tokens: n,
        cached_prompt_tokens: n,
        reasoning_tokens: n,
        thinking_tokens: n,
    }
}

#[test]
fn filters_relevant_bodies() {
    let bodies = sample_bodies();
    let filtered = extract_relevant_bodies(Some(&bodies), &["deposit".to_string()])
        .ok()
        .expect("filter")
        .expect("some");

    assert!(filtered.handler.functions.contains_key("deposit"));
    assert!(!filtered.handler.functions.contains_key("withdraw"));
    assert!(filtered.invariant_test.invariants.is_empty());
}

#[test]
fn relevant_bodies_keep_order_and_other_fields() {
    let bodies = sample_bodies();
    let needed = vec!["withdraw".to_string(), "invariant_solvency".to_string(), "deposit".to_string()];
    let filtered = extract_relevant_bodies(Some(&bodies), &needed).ok().unwrap().unwrap();
    let keys: Vec<&String> = filtered.handler.functions.keys().collect();
    assert_eq!(keys, vec!["deposit", "withdraw"]);
    assert_eq!(filtered.invariant_test.invariants.len(), 1);
    assert_eq!(filtered.meta.contract, "Vault");
    assert_eq!(filtered.handler.constructor_signature, "constructor(Vault v)");
    assert_eq!(filtered.handler.imports, bodies.handler.imports);
}

#[test]
fn relevant_bodies_report_unknown_names() {
    let bodies = sample_bodies();
    let needed = vec!["ghost".to_string(), "deposit".to_string(), "nope".to_string()];
    let err = extract_relevant_bodies(Some(&bodies), &needed).err().expect("fails");
    assert_eq!(err.message, "requested bodies not found: ghost, nope");
    assert!(matches!(extract_relevant_bodies(None, &needed), Ok(None)));
}

#[test]
fn usage_merges_saturating() {
    let mut total = usage(5);
    LiteLlmGenerationAdapter::<()>::merge_usage(&mut total, Some(usage(3)));
    assert_eq!(total.calls, 8);
    assert_eq!(total.thinking_tokens, 8);
    LiteLlmGenerationAdapter::<()>::merge_usage(&mut total, None);
    assert_eq!(total.prompt_tokens, 8);
    LiteLlmGenerationAdapter::<()>::merge_usage(&mut total, Some(usage(u64::MAX)));
    assert_eq!(total.total_tokens, u64::MAX);
    let d = GenerationUsage::default();
    assert_eq!(d.calls, 0);
    assert_eq!(d.reasoning_tokens, 0);
}

#[test]
fn usage_merge_order_does_not_matter() {
    let mut a = usage(1);
    LiteLlmGenerationAdapter::<()>::merge_usage(&mut a, Some(usage(10)));
    LiteLlmGenerationAdapter::<()>::merge_usage(&mut a, Some(usage(100)));
    let mut b = usage(1);
    LiteLlmGenerationAdapter::<()>::merge_usage(&mut b, Some(usage(100)));
    LiteLlmGenerationAdapter::<()>::merge_usage(&mut b, Some(usage(10)));
    assert_eq!(a.calls, b.calls);
    assert_eq!(a.calls, 111);
}

#[test]
fn failed_attempt_retries_then_gives_up() {
    assert_eq!(MAX_ATTEMPTS, 2);
    match after_failed_attempt("analysis", "shape", 1, "{bad", "eof") {
        AttemptStep::Retry { prompt } => assert_eq!(
            prompt,
            "Your analysis JSON is invalid. Repair it.\nReturn JSON only, no markdown.\nRequired shape: shape\nParse error: eof\nInvalid payload:\n{bad"
        ),
        AttemptStep::GiveUp { .. } => panic!("expected a retry"),
    }
    match after_failed_attempt("analysis", "shape", 2, "{bad", "eof") {
        AttemptStep::GiveUp { error } => {
            assert_eq!(error.message, "analysis failed after 2 attempts: eof")
        }
        AttemptStep::Retry { .. } => panic!("expected to give up"),
    }
}

#[test]
fn valid_patch_passes() {
    let bodies = vec![
        update("handler.functions.deposit", JsonValue::String("function deposit() {}".to_string())),
        update("invariantTest.invariants.invariant_x", JsonValue::String("f".to_string())),
        update("handler.targetSelectors", JsonValue::String("  function targetSelectors() {}".to_string())),
        update("handler.targetSelectors", JsonValue::String("   ".to_string())),
    ];
    let config = vec![update("Foundry.runs", JsonValue::Number("10".to_string()))];
    assert!(validate_patch_updates(&bodies, &config).is_ok());
}

#[test]
fn invalid_patch_lists_every_bad_path() {
    let bodies = vec![
        update("bodies.handler.x", JsonValue::Null),
        update("invariantTest.invariants.solvency", JsonValue::Null),
        update("handler.targetSelectors", JsonValue::String("selectors".to_string())),
    ];
    let config = vec![
        update("runs", JsonValue::Null),
        update("Foundry.depth", JsonValue::Null),
        update("foundry_config.depth", JsonValue::Null),
    ];
    let err = validate_patch_updates(&bodies, &config).err().expect("fails");
    assert_eq!(
        err.message,
        "invalid patch paths or values (check Foundry prefix, invariant_ names, targetSelectors function): bodies.handler.x, invariantTest.invariants.solvency, handler.targetSelectors, runs, foundry_config.depth"
    );
}

#[test]
fn full_generation_checks() {
    let bodies = sample_bodies();
    assert!(validate_full_generation(&bodies).is_ok());

    let mut bad = sample_bodies();
    bad.handler.imports = vec!["import {BaseHandler} from \"foundry-huff/BaseHandler.sol\";".to_string()];
    bad.handler.target_selectors = "bytes4[] s;".to_string();
    bad.invariant_test.invariants.insert("solvency".to_string(), "f".to_string());
    let err = validate_full_generation(&bad).err().expect("fails");
    assert_eq!(
        err.message,
        "handler imports must include BaseHandler from src/base/BaseHandler.sol; do not import BaseHandler from foundry-huff; handler.targetSelectors must be empty or a function definition; invariant name must start with invariant_: solvency"
    );
}

#[test]
fn usage_of_one_call_defaults_missing_counts() {
    let u = GenerationUsage::of_call(10, 20, 30, Some(4), None, Some(6));
    assert_eq!(u.calls, 1);
    assert_eq!(u.prompt_tokens, 10);
    assert_eq!(u.completion_tokens, 20);
    assert_eq!(u.total_tokens, 30);
    assert_eq!(u.cached_prompt_tokens, 4);
    assert_eq!(u.reasoning_tokens, 0);
    assert_eq!(u.thinking_tokens, 6);
}

#[test]
fn narrowing_twice_changes_nothing() {
    let bodies = sample_bodies();
    let needed = vec!["withdraw".to_string()];
    let once = extract_relevant_bodies(Some(&bodies), &needed).ok().unwrap().unwrap();
    let twice = extract_relevant_bodies(Some(&once), &needed).ok().unwrap().unwrap();
    let k1: Vec<&String> = once.handler.functions.keys().collect();
    let k2: Vec<&String> = twice.handler.functions.keys().collect();
    assert_eq!(k1, k2);
    assert_eq!(k1, vec!["withdraw"]);
    assert!(twice.invariant_test.invariants.is_empty());
}

#[test]
fn patch_needs_existing_artifacts() {
    assert!(check_patch_base(true, true).is_ok());
    assert_eq!(
        check_patch_base(false, true).err().unwrap().message,
        "received Patch response on round 1 \u{2014} no existing bodies"
    );
    assert_eq!(
        check_patch_base(false, false).err().unwrap().message,
        "received Patch response on round 1 \u{2014} no existing bodies"
    );
    assert_eq!(
        check_patch_base(true, false).err().unwrap().message,
        "received Patch response on round 1 \u{2014} no existing config"
    );
}
