use fuzzming::prompt::{AssembledPrompt, Message, Role};
use fuzzming::stage_prompts::{
    build_round_n_prompt, build_round_one_analysis_prompt, build_round_one_bodies_prompt,
    build_round_one_config_prompt, is_concise, system_prompt_from_request,
    user_prompt_from_request, PromptMode,
};

fn assembled(messages: Vec<(Role, &str)>) -> AssembledPrompt {
    AssembledPrompt {
        messages: messages
            .into_iter()
            .map(|(role, c)| Message { role, content: c.to_string() })
            .collect(),
        round: 2,
        context_sections: vec![],
    }
}

#[test]
fn messages_are_found_by_role() {
    let p = assembled(vec![(Role::User, "u1"), (Role::System, "s"), (Role::User, "u2")]);
    assert_eq!(system_prompt_from_request(&p), "s");
    assert_eq!(user_prompt_from_request(&p), "u1");
    let empty = assembled(vec![(Role::User, "only")]);
    assert_eq!(system_prompt_from_request(&empty), "");
}

#[test]
fn prompt_mode_flag() {
    assert!(is_concise(&PromptMode::Concise));
    assert!(!is_concise(&PromptMode::Full));
}

#[test]
fn analysis_prompt_opens_stage_one() {
    let p = build_round_one_analysis_prompt();
    assert!(p.starts_with("Stage 1/3: Security Analysis & Logic Design.\n"));
}

#[test]
fn bodies_prompt_names_contracts_and_imports() {
    let source = "import {Token} from \"./Token.sol\";\ncontract Vault {}";
    let p = build_round_one_bodies_prompt(
        "{\"summary\":1}",
        "Vault",
        "/work/src/Vault.sol",
        source,
        &PromptMode::Full,
    );
    assert!(p.starts_with("Stage 2/3: Solidity Generation.\n"));
    assert!(p.contains("VaultHandler"));
    assert!(p.contains("VaultInvariantTest"));
    assert!(p.contains("src/Vault.sol"));
    assert!(p.contains("    \"import {Token} from \"src/Token.sol\";\""));
    assert!(p.contains("{\"summary\":1}"));
    let concise = build_round_one_bodies_prompt("{}", "Vault", "src/Vault.sol", "contract Vault {}", &PromptMode::Concise);
    assert!(concise.contains("(c) Call public view functions like `target.getFee(pool)` and store the result."));
    assert!(!concise.contains("use EXACTLY these pre-resolved import lines"));
}

#[test]
fn config_and_round_n_prompts_embed_their_inputs() {
    let c = build_round_one_config_prompt("{\"a\":1}", "[\"deposit\"]");
    assert!(c.starts_with("Stage 3/3: generate Foundry config only.\n"));
    assert!(c.contains("{\"a\":1}"));
    assert!(c.contains("[\"deposit\"]"));
    let n = build_round_n_prompt(5, "Vault", "{\"b\":2}", "{\"c\":3}", &PromptMode::Full);
    assert!(n.contains("{\"b\":2}"));
    assert!(n.contains("{\"c\":3}"));
    assert!(n.contains("contract VaultHandler"));
}

#[test]
fn analysis_prompt_names_every_json_key() {
    let p = build_round_one_analysis_prompt();
    assert_eq!(p, build_round_one_analysis_prompt());
    for key in [
        "\"vulnerability_analysis\"",
        "\"handler_logic_pseudocode\"",
        "\"invariant_mathematical_proofs\"",
        "\"critical_invariants\"",
        "\"tx_origin_paths\"",
    ] {
        assert!(p.contains(key), "{key}");
    }
}

#[test]
fn bodies_prompt_carries_the_mode_specific_constructor_rule() {
    let concise = build_round_one_bodies_prompt("{}", "Vault", "src/Vault.sol", "", &PromptMode::Concise);
    let full = build_round_one_bodies_prompt("{}", "Vault", "src/Vault.sol", "", &PromptMode::Full);
    assert!(concise.contains("23. PATCH CONSTRUCTORBODY"));
    assert!(full.contains("30. PATCH CONSTRUCTORBODY"));
    assert!(full.contains("test/fuzzming/Vault/VaultHandler.sol"));
    assert!(full.contains("import {Vault} from \"src/Vault.sol\";"));
    assert!(full.contains("import {Test} from \"forge-std/Test.sol\";"));
}
