use fuzzming::fuzz_output_parser::{
    extract_fail_message, extract_field, extract_invariant_name, format_call_step, format_for_llm,
    parse_failing_invariants,
};

const FORGE_OUTPUT: &str = "\
Ran 3 tests for test/fuzzming/Vault/VaultInvariantTest.sol:VaultInvariantTest
[FAIL: count should never exceed 100: 1000 > 100]
\t[Sequence] (original: 1, shrunk: 1)
\t\tsender=0xAAAA calldata=handler_bigJump(uint256) args=[9999]
 invariant_bounded() (runs: 1, calls: 1, reverts: 0)
[FAIL: solvency broken: 50 < 100]
\t[Shrunk sequence] (original: 5, shrunk: 2)
\t\tsender=0xBBBB calldata=handler_deposit(uint256) args=[100]
\t\tsender=0xBBBB calldata=handler_withdraw(uint256) args=[200]
 invariant_solvency() (runs: 2, calls: 2, reverts: 0)
[PASS] invariant_something() (runs: 256, calls: 512, reverts: 10)
Suite result: FAILED. 1 passed; 2 failed;";

#[test]
fn extracts_two_failures_skips_pass() {
    let failures = parse_failing_invariants(FORGE_OUTPUT);
    assert_eq!(failures.len(), 2);
    assert_eq!(failures[0].name, "invariant_bounded");
    assert_eq!(failures[1].name, "invariant_solvency");
}

#[test]
fn extracts_failure_messages() {
    let failures = parse_failing_invariants(FORGE_OUTPUT);
    assert!(failures[0].failure_message.contains("count should never exceed 100"));
    assert!(failures[1].failure_message.contains("solvency broken"));
}

#[test]
fn formats_call_steps_with_args_and_sender() {
    let failures = parse_failing_invariants(FORGE_OUTPUT);
    assert_eq!(failures[0].call_sequence.len(), 1);
    assert!(failures[0].call_sequence[0].contains("handler_bigJump(9999)"));
    assert!(failures[0].call_sequence[0].contains("sender: 0xAAAA"));
}

#[test]
fn multi_step_sequence_preserved() {
    let failures = parse_failing_invariants(FORGE_OUTPUT);
    assert_eq!(failures[1].call_sequence.len(), 2);
    assert!(failures[1].call_sequence[0].contains("handler_deposit(100)"));
    assert!(failures[1].call_sequence[1].contains("handler_withdraw(200)"));
}

#[test]
fn format_for_llm_passthrough_compile_error() {
    let raw = "COMPILATION ERROR — fix the Solidity before fuzzing can proceed:\nerror[...]";
    assert_eq!(format_for_llm(raw), raw);
}

#[test]
fn format_for_llm_all_passed() {
    let raw = "[PASS] invariant_solvency() (runs: 256, calls: 512, reverts: 0)\nSuite result: ok.";
    assert_eq!(format_for_llm(raw), "All invariants passed.");
}

#[test]
fn format_for_llm_produces_compact_output() {
    let out = format_for_llm(FORGE_OUTPUT);
    assert!(out.contains("2 failing invariant(s)"));
    assert!(out.contains("invariant_bounded"));
    assert!(out.contains("invariant_solvency"));
    assert!(!out.contains("[PASS]"));
    assert!(!out.contains("Suite result"));
    assert!(!out.contains("[Sequence]"));
}

#[test]
fn format_for_llm_exact_summary() {
    let out = format_for_llm(FORGE_OUTPUT);
    assert_eq!(
        out,
        "2 failing invariant(s):\n\n  invariant_bounded\n  Failure: count should never exceed 100: 1000 > 100\n  Call sequence (1 step(s)):\n    handler_bigJump(9999)  (sender: 0xAAAA)\n\n  invariant_solvency\n  Failure: solvency broken: 50 < 100\n  Call sequence (2 step(s)):\n    handler_deposit(100)  (sender: 0xBBBB)\n    handler_withdraw(200)  (sender: 0xBBBB)"
    );
}

#[test]
fn format_for_llm_passthrough_test_failed() {
    let raw = "TEST FAILED: test_deposit\n[FAIL: x]";
    assert_eq!(format_for_llm(raw), raw);
}

#[test]
fn failure_without_sequence_has_no_call_block() {
    let raw = "[FAIL: broken]\n invariant_x() (runs: 1, calls: 1, reverts: 0)";
    assert_eq!(format_for_llm(raw), "1 failing invariant(s):\n\n  invariant_x\n  Failure: broken");
}

#[test]
fn summary_line_without_fail_is_ignored() {
    let raw = " invariant_x() (runs: 1, calls: 1, reverts: 0)\n[FAIL: late]";
    assert!(parse_failing_invariants(raw).is_empty());
}

#[test]
fn scanning_stops_at_failing_tests_block() {
    let raw = "Failing tests:\n[FAIL: a]\n invariant_a() (runs: 1)";
    assert!(parse_failing_invariants(raw).is_empty());
}

#[test]
fn crlf_lines_are_split() {
    let raw = "[FAIL: m]\r\n invariant_crlf() (runs: 3)\r\n";
    let f = parse_failing_invariants(raw);
    assert_eq!(f.len(), 1);
    assert_eq!(f[0].name, "invariant_crlf");
    assert_eq!(f[0].failure_message, "m");
}

#[test]
fn box_drawing_lines_are_skipped() {
    let raw = "[FAIL: m]\n\u{251C}\u{2500} sender=0x1 calldata=f() args=[1]\n invariant_b() (runs: 3)";
    let f = parse_failing_invariants(raw);
    assert_eq!(f.len(), 1);
    assert!(f[0].call_sequence.is_empty());
}

#[test]
fn fail_message_strips_brackets_and_prefix() {
    assert_eq!(extract_fail_message("[FAIL: count should never exceed 100: 1000 > 100]"), "count should never exceed 100: 1000 > 100");
    assert_eq!(extract_fail_message("[[FAIL:FAIL: x ]]"), "x");
}

#[test]
fn call_step_forms() {
    assert_eq!(format_call_step("sender=0xAAA calldata=handler_deposit(uint256) args=[1000]"), "handler_deposit(1000)  (sender: 0xAAA)");
    assert_eq!(format_call_step("sender=0xAAA calldata=handler_ping() args=[]"), "handler_ping()  (sender: 0xAAA)");
    assert_eq!(format_call_step("calldata=handler_ping()"), "handler_ping()");
    assert_eq!(format_call_step("no fields here"), "no fields here");
}

#[test]
fn field_extraction() {
    assert_eq!(extract_field("a=1 b=2", "b=", " "), Some("2".to_string()));
    assert_eq!(extract_field("a=1 b=2", "c=", " "), None);
    assert_eq!(extract_field("args=[1, 2]", "args=[", "]"), Some("1, 2".to_string()));
}

#[test]
fn invariant_name_extraction() {
    assert_eq!(extract_invariant_name(" invariant_solvency() (runs: 2)"), Some("invariant_solvency".to_string()));
    assert_eq!(extract_invariant_name("no name"), None);
}

#[test]
fn inserted_pass_and_box_lines_change_nothing() {
    let base = "[FAIL: boom]\n\t[Sequence] (original: 1, shrunk: 1)\n\t\tsender=0x1 calldata=f(uint256) args=[3]\n invariant_x() (runs: 1, calls: 1, reverts: 0)\n";
    let noisy = "[FAIL: boom]\n  [PASS] invariant_y() (runs: 1)\n\t[Sequence] (original: 1, shrunk: 1)\n\u{2502} trace\n\t\tsender=0x1 calldata=f(uint256) args=[3]\n invariant_x() (runs: 1, calls: 1, reverts: 0)\n";
    let a = parse_failing_invariants(base);
    let b = parse_failing_invariants(noisy);
    assert_eq!(a.len(), 1);
    assert_eq!(b.len(), 1);
    assert_eq!(a[0].name, b[0].name);
    assert_eq!(a[0].failure_message, b[0].failure_message);
    assert_eq!(a[0].call_sequence, b[0].call_sequence);
}

#[test]
fn pass_line_appended_after_last_line_changes_nothing() {
    let base = "[FAIL: boom]\n\t[Sequence] (original: 1, shrunk: 1)\n\t\tsender=0x1 calldata=f(uint256) args=[3]\n invariant_x() (runs: 1, calls: 1, reverts: 0)\r";
    let a = parse_failing_invariants(base);
    for extra in ["\n[PASS] invariant_y() (runs: 1)", "\n\u{2570} end\n"] {
        let noisy = format!("{}{}", base, extra);
        let b = parse_failing_invariants(&noisy);
        assert_eq!(a.len(), 1);
        assert_eq!(b.len(), 1);
        assert_eq!(a[0].name, b[0].name);
        assert_eq!(a[0].failure_message, b[0].failure_message);
        assert_eq!(a[0].call_sequence, b[0].call_sequence);
    }
    let ended = format!("{}\n", base);
    let c = parse_failing_invariants(&format!("{}  [PASS] invariant_z() (runs: 3)", ended));
    assert_eq!(c.len(), 1);
    assert_eq!(c[0].name, "invariant_x");
}
