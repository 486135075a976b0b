use fuzzming::interfaces::BugInfo;
use fuzzming::json::JsonValue;
use fuzzming::security_analysis::{
    analysis_payload, analysis_result, build_system_prompt, build_user_prompt, finish_analysis, format_bugs,
    LiteLlmSecurityAnalysisAdapter, SecurityAnalysisRequest,
};

fn bug(name: &str, seq: &str) -> BugInfo {
    BugInfo {
        invariant_name: name.to_string(),
        call_sequence: seq.to_string(),
    }
}

fn request(bugs: Vec<BugInfo>, fuzz: Option<&str>, previous: Option<&str>) -> SecurityAnalysisRequest {
    SecurityAnalysisRequest {
        contract_name: "Vault".to_string(),
        rounds_completed: 3,
        source_code: "contract Vault {}".to_string(),
        confirmed_bugs: bugs,
        fuzz_output: fuzz.map(|s| s.to_string()),
        previous_analysis: previous.map(|s| s.to_string()),
    }
}

#[test]
fn bugs_are_listed_once_per_invariant_with_sequences() {
    let bugs = vec![
        bug("invariant_a", "deposit(1)\nwithdraw(2)"),
        bug("invariant_b", ""),
        bug("invariant_a", "other()"),
    ];
    assert_eq!(
        format_bugs(&bugs),
        "- `invariant_a`\n  Call sequence:\n    deposit(1)\n    withdraw(2)\n- `invariant_b`"
    );
    assert_eq!(format_bugs(&[]), "");
}

#[test]
fn user_prompt_without_bugs_or_history() {
    let prompt = build_user_prompt(&request(vec![], None, None));
    assert!(prompt.starts_with(
        "Contract: `Vault`\nRounds completed: 3\n\nSource code:\n```solidity\ncontract Vault {}\n```\n\nConfirmed bugs (0 findings):\nNone — the fuzzer ran but found no invariant violations.\n\nProvide an initial analysis:\n"
    ));
}

#[test]
fn user_prompt_with_one_bug_fuzz_output_and_previous_analysis() {
    let prompt = build_user_prompt(&request(
        vec![bug("invariant_a", "f()")],
        Some("[FAIL]"),
        Some("old notes"),
    ));
    assert!(prompt.contains(
        "Confirmed bugs (1 finding):\n- `invariant_a`\n  Call sequence:\n    f()\n\nLatest fuzz output:\n```\n[FAIL]\n```\n\nPrevious analysis (refine and extend this — do not discard valid findings):\nold notes\n\nUpdate the analysis based on the latest fuzz output:\n"
    ));
}

#[test]
fn finished_analysis_has_header_and_text() {
    let req = request(vec![bug("invariant_a", "")], None, None);
    let parsed = JsonValue::Object(vec![(
        "analysis".to_string(),
        JsonValue::String("root cause".to_string()),
    )]);
    assert_eq!(
        finish_analysis(&req, "{\"analysis\":\"root cause\"}", Some(parsed)),
        "**Confirmed bugs at round 3:**\n- `invariant_a`\n\nroot cause"
    );
    let none = request(vec![], None, None);
    assert_eq!(
        finish_analysis(&none, "plain reply", None),
        "**Confirmed bugs at round 3:** None\n\nplain reply"
    );
    let other = JsonValue::Object(vec![("x".to_string(), JsonValue::Null)]);
    assert_eq!(
        finish_analysis(&none, "raw", Some(other)),
        "**Confirmed bugs at round 3:** None\n\nraw"
    );
}

#[test]
fn analysis_payload_strips_fences() {
    assert_eq!(analysis_payload("```json\n{\"analysis\":\"x\"}\n```"), "{\"analysis\":\"x\"}");
}

#[test]
fn system_prompt_and_adapter() {
    let system = build_system_prompt();
    assert!(system.starts_with("You are an expert smart contract security auditor"));
    let adapter = LiteLlmSecurityAnalysisAdapter::new(5u32);
    assert_eq!(*adapter.client(), 5u32);
}

#[test]
fn analysis_result_reads_the_reply() {
    let req = request(vec![bug("invariant_a", "")], None, None);
    assert_eq!(
        analysis_result(&req, "```json\n{\"analysis\": \"root cause\"}\n```"),
        "**Confirmed bugs at round 3:**\n- `invariant_a`\n\nroot cause"
    );
    let none = request(vec![], None, None);
    assert_eq!(
        analysis_result(&none, "{\"analysis\":\"from json\"}"),
        "**Confirmed bugs at round 3:** None\n\nfrom json"
    );
    assert_eq!(
        analysis_result(&none, "plain words"),
        "**Confirmed bugs at round 3:** None\n\nplain words"
    );
    assert_eq!(
        analysis_result(&none, "{\"analysis\": 7}"),
        "**Confirmed bugs at round 3:** None\n\n{\"analysis\": 7}"
    );
}
