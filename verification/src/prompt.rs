//! The round prompt: the system message (source code and operational rules)
//! and the user message (round, confirmed bugs, fuzz summary, coverage and the
//! round's instruction).
use vstd::prelude::*;

use crate::fuzz_output_parser::{format_for_llm, llm_summary, strings_view};
use crate::interfaces::{BugInfo, ContractContext, CoverageContext, CoverageGap, GapType};
use crate::text::{
    append, chars_of, contains, decimal, decimal_chars, digit, join, join_chars,
    lemma_contains_in, lemma_contains_right, lemma_join_contains, lemma_join_contains_pair,
    seqs_of, string_of,
};

verus! {

/// Who a message is from.
#[derive(Clone, Copy, Debug, PartialEq, Eq, Structural)]
pub enum Role {
    System,
    User,
}

/// One chat message.
#[derive(Clone, Debug)]
pub struct Message {
    pub role: Role,
    pub content: String,
}

/// A prompt ready to send: the messages, the round, and which context
/// sections it carries.
#[derive(Clone, Debug)]
pub struct AssembledPrompt {
    pub messages: Vec<Message>,
    pub round: u32,
    pub context_sections: Vec<String>,
}

/// Operational rule 1 of the system prompt.
pub const RULE_1: &'static str = "NO FOR-IN LOOPS: Solidity mappings are not iterable. Track actors with `address[] public actors` and push new callers into it.";

/// Operational rule 2 of the system prompt.
pub const RULE_2: &'static str = "GHOST STATE: Ghost variables must track the raw INPUTS you send to the target (amounts deposited, shares withdrawn) — never the contract's own return values. Invariants then assert that the contract's reported state equals what the ghost says it should be. Example: ghost_deposits += amount; ghost_withdrawals += shares; invariant checks vault.totalAssets() == ghost_deposits - ghost_withdrawals. Tracking the contract's return value as ghost state is circular — if the contract reports a wrong value, the ghost mirrors the bug and the invariant is blind to it.";

/// Operational rule 3 of the system prompt.
pub const RULE_3: &'static str = "NO HALLUCINATIONS: Only call functions and access public variables that are present in SOURCE_CODE. Verify each reference against the source before writing it.";

/// Operational rule 4 of the system prompt.
pub const RULE_4: &'static str = "HANDLERS ARE WRAPPERS: Handler functions call the target contract externally — never reimplement its internal logic.";

/// Operational rule 5 of the system prompt.
pub const RULE_5: &'static str = "NO TRY/CATCH: Never wrap target contract calls in try/catch. Pre-check conditions before calling (e.g. if (balance == 0) return; amount = bound(amount, 1, remaining);) so expected reverts are avoided up front. Unexpected reverts from the target must propagate — they signal bugs.";

/// The numbered operational rules, one per line.
pub open spec fn rules_text() -> Seq<char> {
    "1. "@ + RULE_1@ + "\n2. "@ + RULE_2@ + "\n3. "@ + RULE_3@ + "\n4. "@ + RULE_4@ + "\n5. "@
        + RULE_5@
}

/// The system message for a contract's source code.
pub open spec fn system_text(source_code: Seq<char>) -> Seq<char> {
    "You are a Senior Smart-Contract Security Researcher and Foundry Fuzzing Expert.\nSOURCE_CODE:\n"@
        + source_code + "\n\nSTRICT OPERATIONAL RULES:\n"@ + rules_text()
}

// ---------------------------------------------------------------------------
// Coverage
// ---------------------------------------------------------------------------

/// `n / d` rounded to the nearest integer, ties to the even one.
pub open spec fn round_half_even(n: nat, d: nat) -> nat {
    let q = n / d;
    let r = n % d;
    if 2 * r > d {
        q + 1
    } else if 2 * r < d {
        q
    } else if q % 2 == 0 {
        q
    } else {
        q + 1
    }
}

/// `hit` out of `found` in tenths of a percent, rounded to nearest with ties
/// to even; 100% when nothing was found.
pub open spec fn percent_tenths(hit: nat, found: nat) -> nat {
    if found == 0 {
        1000
    } else {
        round_half_even(1000 * hit, found)
    }
}

/// A percentage with one decimal: `hit / found` as tenths of a percent,
/// rounded exactly with ties to the even tenth (`100.0` when `found` is 0).
/// This is the value that `{:.1}` shows for `hit / found * 100.0`, except at
/// an exact tie, where the rounding error of the float product decides.
pub open spec fn percent_text(hit: nat, found: nat) -> Seq<char> {
    let t = percent_tenths(hit, found);
    decimal(t / 10) + "."@ + seq![digit(t % 10)]
}

/// The name of a gap kind.
pub open spec fn gap_kind(g: GapType) -> Seq<char> {
    match g {
        GapType::Line => "line"@,
        GapType::Branch => "branch"@,
        GapType::Function => "function"@,
    }
}

/// The lines that describe one gap: its kind and place, then its source lines indented.
pub open spec fn gap_lines(g: CoverageGap) -> Seq<Seq<char>> {
    seq!["  ["@ + gap_kind(g.gap_type) + "] "@ + g.file@ + ":"@ + decimal(g.line as nat)]
        + strings_view(g.source_context@).map_values(|c: Seq<char>| "    "@ + c)
}

/// The lines that describe all gaps, in order.
pub open spec fn all_gap_lines(gaps: Seq<CoverageGap>) -> Seq<Seq<char>>
    decreases gaps.len(),
{
    if gaps.len() == 0 {
        seq![]
    } else {
        all_gap_lines(gaps.drop_last()) + gap_lines(gaps.last())
    }
}

/// `hit/found (p%)` for one coverage measure.
pub open spec fn measure_text(hit: u32, found: u32) -> Seq<char> {
    decimal(hit as nat) + "/"@ + decimal(found as nat) + " ("@ + percent_text(hit as nat, found as nat)
        + "%)"@
}

/// The coverage section: a summary of lines, branches and functions, then
/// either full coverage or the list of gaps.
pub open spec fn coverage_text(c: CoverageContext) -> Seq<char> {
    let summary = "COVERAGE SUMMARY: lines "@ + measure_text(c.line_hit, c.line_found)
        + ", branches "@ + measure_text(c.branch_hit, c.branch_found) + ", functions "@
        + measure_text(c.function_hit, c.function_found);
    if c.gaps@.len() == 0 {
        join(seq![summary, "COVERAGE: Full coverage achieved."@], "\n"@)
    } else {
        join(
            seq![summary, "COVERAGE GAPS (never executed):"@] + all_gap_lines(c.gaps@),
            "\n"@,
        )
    }
}

/// Where the lines of gap `i` start among the lines of all gaps: after the
/// lines of the gaps before it.
proof fn lemma_gap_lines_at(gaps: Seq<CoverageGap>, i: int)
    requires
        0 <= i < gaps.len(),
    ensures
        all_gap_lines(gaps.take(i)).len() + gap_lines(gaps[i]).len() <= all_gap_lines(gaps).len(),
        all_gap_lines(gaps.take(i + 1)).len() == all_gap_lines(gaps.take(i)).len() + gap_lines(
            gaps[i],
        ).len(),
        forall|m: int|
            0 <= m < gap_lines(gaps[i]).len() ==> all_gap_lines(gaps)[all_gap_lines(gaps.take(i)).len()
                + m] == #[trigger] gap_lines(gaps[i])[m],
    decreases gaps.len(),
{
    let init = gaps.drop_last();
    assert(gaps.take(i + 1).drop_last() =~= gaps.take(i));
    assert(gaps.take(i + 1).last() == gaps[i]);
    if i == gaps.len() - 1 {
        assert(gaps.take(i) =~= init);
    } else {
        assert(init[i] == gaps[i]);
        assert(init.take(i) =~= gaps.take(i));
        assert(init.take(i + 1) =~= gaps.take(i + 1));
        lemma_gap_lines_at(init, i);
    }
}

/// The coverage section lists every gap, in order: for each gap the line
/// `  [<kind>] <file>:<line>`, directly followed by its source lines, each
/// indented by four spaces, one per line; and the last line of each gap is
/// directly followed by the first line of the next.
pub proof fn lemma_coverage_lists_every_gap(c: CoverageContext)
    ensures
        forall|i: int|
            0 <= i < c.gaps@.len() ==> {
                let g = #[trigger] c.gaps@[i];
                let kind = match g.gap_type {
                    GapType::Line => "line"@,
                    GapType::Branch => "branch"@,
                    GapType::Function => "function"@,
                };
                let header = "  ["@ + kind + "] "@ + g.file@ + ":"@ + decimal(g.line as nat);
                let src = g.source_context@;
                &&& contains(coverage_text(c), header)
                &&& forall|j: int| 0 <= j < src.len() ==> contains(coverage_text(c), "    "@ + #[trigger] src[j]@)
                &&& src.len() > 0 ==> contains(coverage_text(c), header + "\n"@ + ("    "@ + src[0]@))
                &&& forall|j: int|
                    0 <= j && j + 1 < src.len() ==> contains(
                        coverage_text(c),
                        ("    "@ + #[trigger] src[j]@) + "\n"@ + ("    "@ + src[j + 1]@),
                    )
            },
        forall|i: int|
            0 <= i && i + 1 < c.gaps@.len() ==> {
                let g = #[trigger] c.gaps@[i];
                let h = c.gaps@[i + 1];
                let kind = match h.gap_type {
                    GapType::Line => "line"@,
                    GapType::Branch => "branch"@,
                    GapType::Function => "function"@,
                };
                let next = "  ["@ + kind + "] "@ + h.file@ + ":"@ + decimal(h.line as nat);
                contains(coverage_text(c), gap_lines(g).last() + "\n"@ + next)
            },
{
    let gaps = c.gaps@;
    if gaps.len() > 0 {
        let summary = "COVERAGE SUMMARY: lines "@ + measure_text(c.line_hit, c.line_found)
            + ", branches "@ + measure_text(c.branch_hit, c.branch_found) + ", functions "@
            + measure_text(c.function_hit, c.function_found);
        let parts = seq![summary, "COVERAGE GAPS (never executed):"@] + all_gap_lines(gaps);
        assert(coverage_text(c) == join(parts, "\n"@));
        assert forall|i: int| 0 <= i < gaps.len() implies {
            let g = #[trigger] gaps[i];
            let src = g.source_context@;
            &&& contains(join(parts, "\n"@), gap_lines(g)[0])
            &&& forall|j: int| 0 <= j < src.len() ==> contains(join(parts, "\n"@), "    "@ + #[trigger] src[j]@)
            &&& src.len() > 0 ==> contains(join(parts, "\n"@), gap_lines(g)[0] + "\n"@ + ("    "@ + src[0]@))
            &&& forall|j: int|
                0 <= j && j + 1 < src.len() ==> contains(
                    join(parts, "\n"@),
                    ("    "@ + #[trigger] src[j]@) + "\n"@ + ("    "@ + src[j + 1]@),
                )
        } by {
            let g = gaps[i];
            let src = g.source_context@;
            let gl = gap_lines(g);
            lemma_gap_lines_at(gaps, i);
            let k = all_gap_lines(gaps.take(i)).len() as int;
            assert(parts[2 + k] == gl[0]);
            lemma_join_contains(parts, "\n"@, 2 + k);
            assert forall|j: int| 0 <= j < src.len() implies contains(join(parts, "\n"@), "    "@ + #[trigger] src[j]@) by {
                assert(gl[1 + j] == "    "@ + src[j]@);
                assert(parts[2 + k + 1 + j] == gl[1 + j]);
                lemma_join_contains(parts, "\n"@, 2 + k + 1 + j);
            }
            if src.len() > 0 {
                assert(gl[1] == "    "@ + src[0]@);
                assert(parts[2 + k + 1] == gl[1]);
                lemma_join_contains_pair(parts, "\n"@, 2 + k);
            }
            assert forall|j: int| 0 <= j && j + 1 < src.len() implies contains(
                join(parts, "\n"@),
                ("    "@ + #[trigger] src[j]@) + "\n"@ + ("    "@ + src[j + 1]@),
            ) by {
                assert(gl[1 + j] == "    "@ + src[j]@);
                assert(gl[2 + j] == "    "@ + src[j + 1]@);
                assert(parts[2 + k + 1 + j] == gl[1 + j]);
                assert(parts[2 + k + 2 + j] == gl[2 + j]);
                lemma_join_contains_pair(parts, "\n"@, 2 + k + 1 + j);
            }
        }
        assert forall|i: int| 0 <= i && i + 1 < gaps.len() implies contains(
            join(parts, "\n"@),
            gap_lines(#[trigger] gaps[i]).last() + "\n"@ + gap_lines(gaps[i + 1])[0],
        ) by {
            lemma_gap_lines_at(gaps, i);
            lemma_gap_lines_at(gaps, i + 1);
            let k = all_gap_lines(gaps.take(i)).len() as int;
            let n = gap_lines(gaps[i]).len() as int;
            assert(parts[2 + k + n - 1] == gap_lines(gaps[i])[n - 1]);
            assert(parts[2 + k + n] == gap_lines(gaps[i + 1])[0]);
            lemma_join_contains_pair(parts, "\n"@, 2 + k + n - 1);
        }
    }
}

/// When there are confirmed bugs, the user message lists the invariant name
/// of each on a line `  - <name>`, and neighbouring bugs on neighbouring
/// lines, in the order given.
pub proof fn lemma_user_message_lists_bugs(
    round: u32,
    fuzz_output: Option<Seq<char>>,
    coverage: Option<CoverageContext>,
    bugs: Seq<BugInfo>,
)
    ensures
        forall|i: int|
            0 <= i < bugs.len() ==> contains(
                join(user_sections(round, fuzz_output, coverage, bugs), "\n\n"@),
                "  - "@ + (#[trigger] bugs[i]).invariant_name@,
            ),
        forall|i: int|
            0 <= i && i + 1 < bugs.len() ==> contains(
                join(user_sections(round, fuzz_output, coverage, bugs), "\n\n"@),
                ("  - "@ + (#[trigger] bugs[i]).invariant_name@) + "\n"@ + ("  - "@
                    + bugs[i + 1].invariant_name@),
            ),
{
    if bugs.len() > 0 {
        let secs = user_sections(round, fuzz_output, coverage, bugs);
        let msg = join(secs, "\n\n"@);
        let section = bugs_section(bugs);
        assert(secs[1] == section);
        lemma_join_contains(secs, "\n\n"@, 1);
        let named = bugs.map_values(|b: BugInfo| "  - "@ + b.invariant_name@);
        let listed = join(named, "\n"@);
        let head = section.subrange(0, section.len() - listed.len());
        assert(section =~= head + listed);
        assert forall|i: int| 0 <= i < bugs.len() implies contains(
            msg,
            "  - "@ + (#[trigger] bugs[i]).invariant_name@,
        ) by {
            lemma_join_contains(named, "\n"@, i);
            lemma_contains_right(head, listed, named[i]);
            lemma_contains_in(section, msg, named[i]);
        }
        assert forall|i: int| 0 <= i && i + 1 < bugs.len() implies contains(
            msg,
            ("  - "@ + (#[trigger] bugs[i]).invariant_name@) + "\n"@ + ("  - "@
                + bugs[i + 1].invariant_name@),
        ) by {
            lemma_join_contains_pair(named, "\n"@, i);
            let p = named[i] + "\n"@ + named[i + 1];
            lemma_contains_right(head, listed, p);
            lemma_contains_in(section, msg, p);
        }
    }
}

fn round_half_even_exec(n: u64, d: u64) -> (r: u64)
    requires
        d > 0,
        n < u64::MAX,
    ensures
        r == round_half_even(n as nat, d as nat),
{
    let q = n / d;
    let rem = n % d;
    assert(q * d <= n) by (nonlinear_arith)
        requires
            q == n / d,
            d > 0,
    ;
    if rem > d - rem {
        q + 1
    } else if rem < d - rem {
        q
    } else if q % 2 == 0 {
        q
    } else {
        q + 1
    }
}

fn percent_chars(hit: u32, found: u32) -> (r: Vec<char>)
    ensures
        r@ == percent_text(hit as nat, found as nat),
{
    let t: u64 = if found == 0 {
        1000
    } else {
        round_half_even_exec(1000 * (hit as u64), found as u64)
    };
    let mut out = decimal_chars(t / 10);
    out.push('.');
    let d = t % 10;
    let mut last: Vec<char> = Vec::new();
    last.push(digit_char_of(d));
    append(&mut out, &last);
    assert(last@ =~= seq![digit((t % 10) as nat)]);
    assert("."@ =~= seq!['.']) by {
        reveal_strlit(".");
    }
    out
}

fn digit_char_of(d: u64) -> (c: char)
    requires
        d < 10,
    ensures
        c == digit(d as nat),
{
    let v = decimal_chars(d);
    v[0]
}

fn measure_chars(hit: u32, found: u32, out: &mut Vec<char>)
    ensures
        final(out)@ == old(out)@ + measure_text(hit, found),
{
    append(out, &decimal_chars(hit as u64));
    append(out, &chars_of("/"));
    append(out, &decimal_chars(found as u64));
    append(out, &chars_of(" ("));
    append(out, &percent_chars(hit, found));
    append(out, &chars_of("%)"));
}

fn gap_kind_chars(g: GapType) -> (r: Vec<char>)
    ensures
        r@ == gap_kind(g),
{
    match g {
        GapType::Line => chars_of("line"),
        GapType::Branch => chars_of("branch"),
        GapType::Function => chars_of("function"),
    }
}

pub fn push_gap_lines(g: &CoverageGap, lines: &mut Vec<Vec<char>>)
    ensures
        seqs_of(final(lines)@) == seqs_of(old(lines)@) + gap_lines(*g),
{
    let ghost start = seqs_of(lines@);
    let mut head = chars_of("  [");
    append(&mut head, &gap_kind_chars(g.gap_type));
    append(&mut head, &chars_of("] "));
    append(&mut head, &chars_of(g.file.as_str()));
    append(&mut head, &chars_of(":"));
    append(&mut head, &decimal_chars(g.line as u64));
    lines.push(head);
    let ghost ctx = strings_view(g.source_context@).map_values(|c: Seq<char>| "    "@ + c);
    let mut i: usize = 0;
    while i < g.source_context.len()
        invariant
            i <= g.source_context@.len(),
            ctx == strings_view(g.source_context@).map_values(|c: Seq<char>| "    "@ + c),
            seqs_of(lines@) == start + gap_lines(*g).take(i + 1),
        decreases g.source_context@.len() - i,
    {
        let ghost before = seqs_of(lines@);
        let mut l = chars_of("    ");
        append(&mut l, &chars_of(g.source_context[i].as_str()));
        lines.push(l);
        proof {
            assert(gap_lines(*g).take(i + 2) =~= gap_lines(*g).take(i + 1).push(ctx[i as int]));
            assert(seqs_of(lines@) =~= before.push(ctx[i as int]));
        }
        i = i + 1;
    }
    assert(gap_lines(*g).take(i + 1) =~= gap_lines(*g));
}


// ---------------------------------------------------------------------------
// The prompt
// ---------------------------------------------------------------------------

/// The confirmed-bugs section: the invariant names of earlier confirmed bugs.
pub open spec fn bugs_section(bugs: Seq<BugInfo>) -> Seq<char> {
    "CONFIRMED BUGS (these invariants already caught real vulnerabilities — keep them in the test and focus on finding additional distinct bugs):\n"@
        + join(bugs.map_values(|b: BugInfo| "  - "@ + b.invariant_name@), "\n"@)
}

/// The closing instruction of a round.
pub open spec fn round_instruction(round: u32) -> Seq<char> {
    if round == 1 {
        "Generate the full handler and invariant test suite for this contract."@
    } else {
        "Based on the fuzz output and coverage gaps above, patch or rewrite the invariants and handler as needed."@
    }
}

/// The sections of the user message, in order.
pub open spec fn user_sections(
    round: u32,
    fuzz_output: Option<Seq<char>>,
    coverage: Option<CoverageContext>,
    bugs: Seq<BugInfo>,
) -> Seq<Seq<char>> {
    let a = seq!["Round: "@ + decimal(round as nat)];
    let b: Seq<Seq<char>> = if bugs.len() > 0 {
        seq![bugs_section(bugs)]
    } else {
        seq![]
    };
    let c: Seq<Seq<char>> = match fuzz_output {
        Some(o) => seq!["FUZZ OUTPUT:\n"@ + llm_summary(o)],
        None => seq![],
    };
    let d: Seq<Seq<char>> = match coverage {
        Some(cov) => seq![coverage_text(cov)],
        None => seq![],
    };
    a + b + c + d + seq![round_instruction(round)]
}

/// The context sections a prompt carries, in order.
pub open spec fn context_section_names(has_bugs: bool, has_fuzz: bool, has_coverage: bool) -> Seq<
    Seq<char>,
> {
    (if has_bugs {
        seq!["confirmed_bugs"@]
    } else {
        Seq::<Seq<char>>::empty()
    }) + (if has_fuzz {
        seq!["fuzz_output"@]
    } else {
        Seq::<Seq<char>>::empty()
    }) + (if has_coverage {
        seq!["coverage"@]
    } else {
        Seq::<Seq<char>>::empty()
    })
}

/// The optional text as a model value.
pub open spec fn opt_text(o: Option<String>) -> Option<Seq<char>> {
    match o {
        Some(s) => Some(s@),
        None => None,
    }
}

/// The round prompt for one contract.
pub struct Prompt {
    source_code: String,
    round: u32,
    fuzz_output: Option<String>,
    coverage_context: Option<CoverageContext>,
    confirmed_bugs: Vec<BugInfo>,
}

impl Prompt {
    /// The coverage section of the user message: the line, branch and
    /// function measures, then full coverage or each gap with its source lines.
    pub fn format_coverage(c: &CoverageContext) -> (r: String)
        ensures
            r@ == coverage_text(*c),
    {
        let mut summary = chars_of("COVERAGE SUMMARY: lines ");
        measure_chars(c.line_hit, c.line_found, &mut summary);
        append(&mut summary, &chars_of(", branches "));
        measure_chars(c.branch_hit, c.branch_found, &mut summary);
        append(&mut summary, &chars_of(", functions "));
        measure_chars(c.function_hit, c.function_found, &mut summary);
        let ghost sv = summary@;
        let mut lines: Vec<Vec<char>> = Vec::new();
        lines.push(summary);
        if c.gaps.len() == 0 {
            lines.push(chars_of("COVERAGE: Full coverage achieved."));
            assert(seqs_of(lines@) =~= seq![sv, "COVERAGE: Full coverage achieved."@]);
            return string_of(&join_chars(&lines, &chars_of("\n")));
        }
        lines.push(chars_of("COVERAGE GAPS (never executed):"));
        let ghost head = seqs_of(lines@);
        assert(head =~= seq![sv, "COVERAGE GAPS (never executed):"@]);
        let mut i: usize = 0;
        while i < c.gaps.len()
            invariant
                i <= c.gaps@.len(),
                seqs_of(lines@) == head + all_gap_lines(c.gaps@.take(i as int)),
            decreases c.gaps@.len() - i,
        {
            push_gap_lines(&c.gaps[i], &mut lines);
            proof {
                assert(c.gaps@.take(i + 1).drop_last() =~= c.gaps@.take(i as int));
                assert(c.gaps@.take(i + 1).last() == c.gaps@[i as int]);
            }
            i = i + 1;
        }
        assert(c.gaps@.take(c.gaps@.len() as int) =~= c.gaps@);
        string_of(&join_chars(&lines, &chars_of("\n")))
    }

    /// The source code the prompt is for.
    pub closed spec fn spec_source(&self) -> Seq<char> {
        self.source_code@
    }

    /// The round the prompt is for.
    pub closed spec fn spec_round(&self) -> u32 {
        self.round
    }

    /// The raw fuzz output of the last round, if any.
    pub closed spec fn spec_fuzz_output(&self) -> Option<Seq<char>> {
        opt_text(self.fuzz_output)
    }

    /// The coverage of the last round, if any.
    pub closed spec fn spec_coverage(&self) -> Option<CoverageContext> {
        self.coverage_context
    }

    /// The bugs confirmed in earlier rounds.
    pub closed spec fn spec_bugs(&self) -> Seq<BugInfo> {
        self.confirmed_bugs@
    }

    /// The prompt for `round` of the contract with `source_code`, given the last
    /// round's fuzz output and coverage and the bugs confirmed so far.
    pub fn new(
        round: u32,
        source_code: String,
        fuzz_output: Option<String>,
        coverage_context: Option<CoverageContext>,
        confirmed_bugs: Vec<BugInfo>,
    ) -> (r: Self)
        ensures
            r.spec_round() == round,
            r.spec_source() == source_code@,
            r.spec_fuzz_output() == opt_text(fuzz_output),
            r.spec_coverage() == coverage_context,
            r.spec_bugs() == confirmed_bugs@,
    {
        Self { source_code, round, fuzz_output, coverage_context, confirmed_bugs }
    }

    /// The system message: the role, the contract's source code, and the
    /// numbered operational rules.
    pub fn system_message(&self) -> (r: String)
        ensures
            r@ == system_text(self.spec_source()),
    {
        let mut out = chars_of(
            "You are a Senior Smart-Contract Security Researcher and Foundry Fuzzing Expert.\nSOURCE_CODE:\n",
        );
        append(&mut out, &chars_of(self.source_code.as_str()));
        append(&mut out, &chars_of("\n\nSTRICT OPERATIONAL RULES:\n"));
        append(&mut out, &chars_of("1. "));
        append(&mut out, &chars_of(RULE_1));
        append(&mut out, &chars_of("\n2. "));
        append(&mut out, &chars_of(RULE_2));
        append(&mut out, &chars_of("\n3. "));
        append(&mut out, &chars_of(RULE_3));
        append(&mut out, &chars_of("\n4. "));
        append(&mut out, &chars_of(RULE_4));
        append(&mut out, &chars_of("\n5. "));
        append(&mut out, &chars_of(RULE_5));
        string_of(&out)
    }

    /// The user message: the round, the confirmed bugs, the condensed fuzz
    /// output, the coverage, and the instruction for the round (full
    /// generation in round 1, a patch afterwards), separated by blank lines.
    pub fn user_message(&self) -> (r: String)
        ensures
            r@ == join(
                user_sections(
                    self.spec_round(),
                    self.spec_fuzz_output(),
                    self.spec_coverage(),
                    self.spec_bugs(),
                ),
                "\n\n"@,
            ),
    {
        let mut sections: Vec<Vec<char>> = Vec::new();
        let mut first = chars_of("Round: ");
        append(&mut first, &decimal_chars(self.round as u64));
        sections.push(first);
        let ghost s1 = seqs_of(sections@);
        if self.confirmed_bugs.len() > 0 {
            let mut items: Vec<Vec<char>> = Vec::new();
            let mut i: usize = 0;
            let ghost bl = self.confirmed_bugs@.map_values(|b: BugInfo| "  - "@ + b.invariant_name@);
            while i < self.confirmed_bugs.len()
                invariant
                    i <= self.confirmed_bugs@.len(),
                    bl == self.confirmed_bugs@.map_values(|b: BugInfo| "  - "@ + b.invariant_name@),
                    seqs_of(items@) == bl.take(i as int),
                decreases self.confirmed_bugs@.len() - i,
            {
                let mut l = chars_of("  - ");
                append(&mut l, &chars_of(self.confirmed_bugs[i].invariant_name.as_str()));
                let ghost before = seqs_of(items@);
                assert(bl[i as int] == l@);
                items.push(l);
                assert(seqs_of(items@) =~= before.push(bl[i as int]));
                assert(seqs_of(items@) =~= bl.take(i + 1));
                i = i + 1;
            }
            assert(bl.take(self.confirmed_bugs@.len() as int) =~= bl);
            let mut sec = chars_of(
                "CONFIRMED BUGS (these invariants already caught real vulnerabilities — keep them in the test and focus on finding additional distinct bugs):\n",
            );
            append(&mut sec, &join_chars(&items, &chars_of("\n")));
            sections.push(sec);
        }
        let ghost s2 = seqs_of(sections@);
        match &self.fuzz_output {
            Some(output) => {
                let mut sec = chars_of("FUZZ OUTPUT:\n");
                append(&mut sec, &chars_of(format_for_llm(output.as_str()).as_str()));
                sections.push(sec);
            },
            None => {},
        }
        let ghost s3 = seqs_of(sections@);
        match &self.coverage_context {
            Some(c) => {
                sections.push(chars_of(Prompt::format_coverage(c).as_str()));
            },
            None => {},
        }
        let ghost s4 = seqs_of(sections@);
        if self.round == 1 {
            sections.push(chars_of("Generate the full handler and invariant test suite for this contract."));
        } else {
            sections.push(
                chars_of(
                    "Based on the fuzz output and coverage gaps above, patch or rewrite the invariants and handler as needed.",
                ),
            );
        }
        assert(seqs_of(sections@) =~= user_sections(
            self.spec_round(),
            self.spec_fuzz_output(),
            self.spec_coverage(),
            self.spec_bugs(),
        ));
        string_of(&join_chars(&sections, &chars_of("\n\n")))
    }

    /// The assembled prompt: the system and user messages, the round, and the
    /// context sections it carries (`confirmed_bugs`, `fuzz_output`,
    /// `coverage`, each when present).
    pub fn into_assembled(self) -> (r: AssembledPrompt)
        ensures
            r.messages@.len() == 2,
            r.messages@[0].role == Role::System,
            r.messages@[0].content@ == system_text(self.spec_source()),
            r.messages@[1].role == Role::User,
            r.messages@[1].content@ == join(
                user_sections(
                    self.spec_round(),
                    self.spec_fuzz_output(),
                    self.spec_coverage(),
                    self.spec_bugs(),
                ),
                "\n\n"@,
            ),
            r.round == self.spec_round(),
            strings_view(r.context_sections@) == context_section_names(
                self.spec_bugs().len() > 0,
                self.spec_fuzz_output() is Some,
                self.spec_coverage() is Some,
            ),
    {
        let mut sections: Vec<String> = Vec::new();
        if self.confirmed_bugs.len() > 0 {
            sections.push(string_of(&chars_of("confirmed_bugs")));
        }
        if self.fuzz_output.is_some() {
            sections.push(string_of(&chars_of("fuzz_output")));
        }
        if self.coverage_context.is_some() {
            sections.push(string_of(&chars_of("coverage")));
        }
        assert(strings_view(sections@) =~= context_section_names(
            self.spec_bugs().len() > 0,
            self.spec_fuzz_output() is Some,
            self.spec_coverage() is Some,
        ));
        let system = self.system_message();
        let user = self.user_message();
        let mut messages: Vec<Message> = Vec::new();
        messages.push(Message { role: Role::System, content: system });
        messages.push(Message { role: Role::User, content: user });
        AssembledPrompt { messages, round: self.round, context_sections: sections }
    }
}

/// Assembles the round prompt from the contract's source, the last round's
/// fuzz output and coverage, and the bugs confirmed so far. The security
/// analysis that a caller may carry is accepted but is not part of the round
/// prompt.
pub fn assemble_prompt(
    round: u32,
    contract_context: ContractContext,
    fuzz_output: Option<String>,
    coverage_context: Option<CoverageContext>,
    confirmed_bugs: Vec<BugInfo>,
    security_analysis: Option<String>,
) -> (r: Result<AssembledPrompt, crate::response_parser::GenerationError>)
    ensures
        r matches Ok(p) && p.messages@.len() == 2 && p.messages@[0].role == Role::System
            && p.messages@[0].content@ == system_text(contract_context.source_code@)
            && p.messages@[1].role == Role::User && p.messages@[1].content@ == join(
            user_sections(round, opt_text(fuzz_output), coverage_context, confirmed_bugs@),
            "\n\n"@,
        ) && p.round == round && strings_view(p.context_sections@) == context_section_names(
            confirmed_bugs@.len() > 0,
            fuzz_output is Some,
            coverage_context is Some,
        ),
{
    let prompt = Prompt::new(
        round,
        contract_context.source_code,
        fuzz_output,
        coverage_context,
        confirmed_bugs,
    );
    Ok(prompt.into_assembled())
}

} // verus!
