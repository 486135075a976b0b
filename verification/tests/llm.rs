use fuzzming::interfaces::{ContractContext, CoverageContext, CoverageGap, GapType};
use fuzzming::llm::{
    assemble_prompt, build_context_sections, build_round_n_prompt, build_round_one_analysis_prompt,
    build_round_one_bodies_prompt, build_round_one_config_prompt, build_system_message,
    build_user_message, format_coverage, OpenRouterAdapter,
};
use fuzzming::prompt::Role;

fn context() -> ContractContext {
    ContractContext {
        functions: vec![],
        state_variables: vec![],
        modifiers: vec![],
        constants: vec![],
        contract_name: "Vault".to_string(),
        source_code: "contract Vault {}".to_string(),
    }
}

fn coverage(gaps: Vec<CoverageGap>) -> CoverageContext {
    CoverageContext {
        gaps,
        line_found: 4,
        line_hit: 3,
        branch_found: 0,
        branch_hit: 0,
        function_found: 1,
        function_hit: 1,
    }
}

#[test]
fn llm_coverage_lists_gaps() {
    assert_eq!(format_coverage(&coverage(vec![])), "COVERAGE: Full coverage achieved.");
    let gaps = vec![
        CoverageGap {
            file: "src/Vault.sol".to_string(),
            line: 12,
            gap_type: GapType::Branch,
            source_context: vec!["if (x) {".to_string(), "}".to_string()],
        },
        CoverageGap {
            file: "src/Vault.sol".to_string(),
            line: 30,
            gap_type: GapType::Function,
            source_context: vec![],
        },
    ];
    assert_eq!(
        format_coverage(&coverage(gaps)),
        "COVERAGE GAPS (never executed):\n  [branch] src/Vault.sol:12\n    if (x) {\n    }\n  [function] src/Vault.sol:30"
    );
}

#[test]
fn llm_user_message_sections() {
    assert_eq!(
        build_user_message(1, &None, &None),
        "Round: 1\n\nGenerate the full handler and invariant test suite for this contract."
    );
    assert_eq!(
        build_user_message(2, &Some("boom".to_string()), &Some(coverage(vec![]))),
        "Round: 2\n\nFUZZ OUTPUT:\nboom\n\nCOVERAGE: Full coverage achieved.\n\nBased on the fuzz output and coverage gaps above, patch or rewrite the invariants and handler as needed."
    );
}

#[test]
fn llm_prompt_is_assembled_from_both_messages() {
    let prompt = assemble_prompt(4, context(), Some("out".to_string()), None)
        .ok()
        .expect("assembles");
    assert_eq!(prompt.round, 4);
    assert_eq!(prompt.messages.len(), 2);
    assert!(matches!(prompt.messages[0].role, Role::System));
    assert!(matches!(prompt.messages[1].role, Role::User));
    assert_eq!(prompt.messages[0].content, build_system_message("contract Vault {}"));
    assert!(prompt.messages[0].content.contains("SOURCE_CODE:\ncontract Vault {}\n\n"));
    assert!(prompt.messages[1].content.starts_with("Round: 4\n\nFUZZ OUTPUT:\nout"));
    assert_eq!(prompt.context_sections, vec!["fuzz_output".to_string()]);
    assert_eq!(
        build_context_sections(&None, &Some(coverage(vec![]))),
        vec!["coverage".to_string()]
    );
    assert!(build_context_sections(&None, &None).is_empty());
}

#[test]
fn llm_stage_prompts() {
    let a = build_round_one_analysis_prompt();
    assert!(a.starts_with("Stage 1/3: Security Analysis & Logic Design.\nAnalyze: Ghost borrowing"));
    let b = build_round_one_bodies_prompt("{}");
    assert!(b.contains("`vault.deposit{value: msg.value}()`"));
    assert!(b.ends_with("Analysis Context:\n{}\n"));
    let c = build_round_one_config_prompt("A", "F");
    assert!(c.ends_with("Analysis JSON:\nA\n\nHandler function names:\nF"));
    let n = build_round_n_prompt(2, "B", "C");
    assert!(n.starts_with("Round: 2\n"));
    assert!(n.contains("\"bodies_updates\":[{\"path\":\"string\",\"value\":any,\"reason\":\"string\"}]"));
}

#[test]
fn open_router_settings() {
    let adapter = OpenRouterAdapter::new("key".to_string());
    assert_eq!(adapter.api_key(), "key");
    assert_eq!(adapter.api_key_env(), "OPENROUTER_API_KEY");
    assert_eq!(adapter.default_model(), "openai/gpt-4o-mini");
    assert_eq!(adapter.max_tokens(), None);
    let adapter = adapter
        .with_default_model("mistral/large".to_string())
        .with_max_tokens(Some(1000));
    assert_eq!(adapter.default_model(), "mistral/large");
    assert_eq!(adapter.max_tokens(), Some(1000));
    assert_eq!(adapter.api_key(), "key");
}
