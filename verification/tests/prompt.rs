use fuzzming::interfaces::{BugInfo, ContractContext, CoverageContext, CoverageGap, GapType};
use fuzzming::prompt::{assemble_prompt, Prompt, Role};

#[test]
fn assembled_prompt_includes_context_sections_and_messages() {
    let coverage = CoverageContext {
        gaps: vec![CoverageGap {
            file: "src/MyContract.sol".to_string(),
            line: 42,
            gap_type: GapType::Line,
            source_context: vec!["42: gap".to_string()],
        }],
        line_found: 10,
        line_hit: 2,
        branch_found: 0,
        branch_hit: 0,
        function_found: 0,
        function_hit: 0,
    };

    let assembled = Prompt::new(
        2,
        "contract C {}".to_string(),
        Some("revert".to_string()),
        Some(coverage),
        vec![],
    )
    .into_assembled();

    assert_eq!(assembled.messages.len(), 2);
    assert!(matches!(assembled.messages[0].role, Role::System));
    assert!(matches!(assembled.messages[1].role, Role::User));
    assert!(assembled.context_sections.contains(&"fuzz_output".to_string()));
    assert!(assembled.context_sections.contains(&"coverage".to_string()));
    assert!(assembled.messages[1].content.contains("Round: 2"));
    assert!(assembled.messages[1].content.contains("FUZZ OUTPUT"));
    assert!(assembled.messages[1].content.contains("COVERAGE SUMMARY"));
}

#[test]
fn round_one_prompt_includes_full_generation_instruction() {
    let assembled =
        Prompt::new(1, "contract C {}".to_string(), None, None, vec![]).into_assembled();

    assert!(assembled.messages[1]
        .content
        .contains("Generate the full handler and invariant test suite"));
    assert!(assembled.context_sections.is_empty());
}

#[test]
fn confirmed_bugs_appear_in_prompt_and_context_sections() {
    let bug = BugInfo {
        invariant_name: "invariant_solvency".to_string(),
        call_sequence: "handler_deposit()".to_string(),
    };
    let assembled =
        Prompt::new(3, "contract C {}".to_string(), None, None, vec![bug]).into_assembled();

    assert!(assembled.context_sections.contains(&"confirmed_bugs".to_string()));
    assert!(assembled.messages[1].content.contains("CONFIRMED BUGS"));
    assert!(assembled.messages[1].content.contains("invariant_solvency"));
}

fn coverage(line_hit: u32, line_found: u32) -> CoverageContext {
    CoverageContext {
        gaps: vec![],
        line_found,
        line_hit,
        branch_found: 0,
        branch_hit: 0,
        function_found: 4,
        function_hit: 3,
    }
}

#[test]
fn coverage_summary_exact_text() {
    let p = Prompt::new(2, "c".to_string(), None, Some(coverage(2, 10)), vec![]);
    assert_eq!(
        p.user_message(),
        "Round: 2\n\nCOVERAGE SUMMARY: lines 2/10 (20.0%), branches 0/0 (100.0%), functions 3/4 (75.0%)\nCOVERAGE: Full coverage achieved.\n\nBased on the fuzz output and coverage gaps above, patch or rewrite the invariants and handler as needed."
    );
}

#[test]
fn coverage_percentages_match_float_formatting() {
    let mut mismatches = Vec::new();
    for found in 1u32..=120 {
        for hit in 0..=found {
            let p = Prompt::new(2, String::new(), None, Some(coverage(hit, found)), vec![]);
            let msg = p.user_message();
            let expected = format!(
                "lines {}/{} ({:.1}%)",
                hit,
                found,
                (hit as f64 / found as f64) * 100.0
            );
            let exact_tie = (2000 * hit as u64) % found as u64 == 0
                && ((2000 * hit as u64) / found as u64) % 2 == 1;
            if !exact_tie && !msg.contains(&expected) {
                mismatches.push(expected);
            }
        }
    }
    assert!(mismatches.is_empty(), "{:?}", mismatches);
}

#[test]
fn assembled_round_prompt_ignores_security_analysis() {
    let ctx = || ContractContext {
        functions: vec![],
        state_variables: vec![],
        modifiers: vec![],
        constants: vec![],
        contract_name: "C".to_string(),
        source_code: "contract C {}".to_string(),
    };
    let with = assemble_prompt(3, ctx(), None, None, vec![], Some("notes".to_string()))
        .ok()
        .unwrap();
    let without = assemble_prompt(3, ctx(), None, None, vec![], None).ok().unwrap();
    assert_eq!(with.round, 3);
    assert!(matches!(with.messages[0].role, Role::System));
    assert!(matches!(with.messages[1].role, Role::User));
    assert_eq!(with.messages[0].content, without.messages[0].content);
    assert_eq!(with.messages[1].content, without.messages[1].content);
    assert!(with.context_sections.is_empty());
    assert!(!with.messages[1].content.contains("notes"));
}

#[test]
fn coverage_section_lists_each_gap_with_its_source() {
    let mut c = coverage(1, 3);
    c.gaps = vec![CoverageGap {
        file: "src/V.sol".to_string(),
        line: 7,
        gap_type: GapType::Line,
        source_context: vec!["x = 1;".to_string()],
    }];
    assert_eq!(
        Prompt::format_coverage(&c),
        "COVERAGE SUMMARY: lines 1/3 (33.3%), branches 0/0 (100.0%), functions 3/4 (75.0%)\nCOVERAGE GAPS (never executed):\n  [line] src/V.sol:7\n    x = 1;"
    );
}
