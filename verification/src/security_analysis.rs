//! The security analysis that accompanies each round: its prompts, the
//! confirmed-bug list, and the stored analysis text.
use vstd::prelude::*;

use crate::interfaces::BugInfo;
use crate::json::{
    json_view, lemma_object_view, member_index, obj_get, parse_json, parsed_json, Json, JsonValue,
};
use crate::prompt::opt_text;
use crate::response_parser::{extract_json_payload, json_payload};
use crate::text::{append, chars_of, decimal, decimal_chars, join, join_chars, lines, seqs_of, split_lines, string_of};

verus! {

/// A fixed passage of prompt text.
pub const ANALYSIS_TEXT_1: &'static str = "You are an expert smart contract security auditor working in an iterative fuzzing loop. \
     Each round you receive the latest fuzzer output and an optional previous analysis, \
     and you produce a refined security analysis. Your job is to:\n\
     1. Update confirmed bug findings — adjust severity or exploitability if new evidence warrants it.\n\
     2. Add newly discovered issues revealed by the latest fuzz output.\n\
     3. Identify vulnerabilities the fuzzer is STILL missing — \
        focus on: access control, reentrancy, arithmetic overflow, oracle manipulation, \
        economic attacks (MEV/sandwich/frontrunning), state machine violations, \
        admin key risks, and missing validation.\n\
     Be precise: reference specific function names and the exact conditions that create risk. \
     Do NOT re-describe confirmed bugs in section 3 — list only distinct issues not yet caught.\n\
     Return JSON: {\"analysis\": \"<full markdown text>\"}";
/// A fixed passage of prompt text.
pub const ANALYSIS_TEXT_2: &'static str = "\n\nPrevious analysis (refine and extend this — do not discard valid findings):\n";
/// A fixed passage of prompt text.
pub const ANALYSIS_TEXT_3: &'static str = "Update the analysis based on the latest fuzz output:\n\
         ## Confirmed Bug Analysis\n\
         Keep and refine existing findings. Update severity if new evidence warrants it.\n\n\
         ## Additional Potential Vulnerabilities\n\
         Add newly discovered issues and any distinct issues the fuzzer is still missing.";
/// A fixed passage of prompt text.
pub const ANALYSIS_TEXT_4: &'static str = "Provide an initial analysis:\n\
         ## Confirmed Bug Analysis\n\
         For each confirmed bug: root cause, severity (Critical/High/Medium/Low), \
         exploitability without privileged access.\n\n\
         ## Additional Potential Vulnerabilities\n\
         Distinct issues NOT already confirmed above.";

/// What the security analysis of a round is based on.
#[derive(Clone, Debug)]
pub struct SecurityAnalysisRequest {
    pub contract_name: String,
    pub rounds_completed: u32,
    pub source_code: String,
    pub confirmed_bugs: Vec<BugInfo>,
    pub fuzz_output: Option<String>,
    pub previous_analysis: Option<String>,
}

/// The security analysis adapter; `client` answers the model calls.
pub struct LiteLlmSecurityAnalysisAdapter<C> {
    client: C,
}

impl<C> LiteLlmSecurityAnalysisAdapter<C> {
    /// The client the adapter asks.
    pub closed spec fn spec_client(&self) -> C {
        self.client
    }

    /// An adapter that asks `client`.
    pub fn new(client: C) -> (r: Self)
        ensures
            r.spec_client() == client,
    {
        Self { client }
    }

    /// The client the adapter asks.
    pub fn client(&self) -> (r: &C)
        ensures
            *r == self.spec_client(),
    {
        &self.client
    }
}

/// The auditor's system prompt: refine the analysis each round and list only
/// issues the fuzzer has not caught, as JSON `{"analysis": ...}`.
pub open spec fn analysis_system_text() -> Seq<char> {
    ANALYSIS_TEXT_1@
}

/// The auditor's system prompt.
pub fn build_system_prompt() -> (r: String)
    ensures
        r@ == analysis_system_text(),
{
    let mut out: Vec<char> = Vec::new();
    append(&mut out, &chars_of(ANALYSIS_TEXT_1));
    string_of(&out)
}

/// The bugs with the first occurrence of each invariant name, in order.
pub open spec fn first_bugs(bugs: Seq<BugInfo>) -> Seq<BugInfo>
    decreases bugs.len(),
{
    if bugs.len() == 0 {
        seq![]
    } else {
        let prev = first_bugs(bugs.drop_last());
        if exists|j: int| 0 <= j < prev.len() && prev[j].invariant_name@ == bugs.last().invariant_name@ {
            prev
        } else {
            prev.push(bugs.last())
        }
    }
}

/// One bug as a list entry: its invariant name, and its call sequence (one
/// indented line per line) when it has one.
pub open spec fn bug_entry(b: BugInfo) -> Seq<char> {
    "- `"@ + b.invariant_name@ + "`"@ + if b.call_sequence@.len() == 0 {
        Seq::<char>::empty()
    } else {
        "\n  Call sequence:\n"@ + join(lines(b.call_sequence@).map_values(|l: Seq<char>| "    "@ + l), "\n"@)
    }
}

/// The confirmed bugs as a list, one entry per invariant name (the first).
pub open spec fn bugs_list(bugs: Seq<BugInfo>) -> Seq<char> {
    join(first_bugs(bugs).map_values(|b: BugInfo| bug_entry(b)), "\n"@)
}

fn bug_entry_chars(b: &BugInfo) -> (r: Vec<char>)
    ensures
        r@ == bug_entry(*b),
{
    let mut out = chars_of("- `");
    append(&mut out, &chars_of(b.invariant_name.as_str()));
    append(&mut out, &chars_of("`"));
    let cs = chars_of(b.call_sequence.as_str());
    if cs.len() == 0 {
        assert(out@ =~= bug_entry(*b));
        return out;
    }
    let ls = split_lines(&cs);
    let ghost lv = seqs_of(ls@).map_values(|l: Seq<char>| "    "@ + l);
    let mut indented: Vec<Vec<char>> = Vec::new();
    let mut i: usize = 0;
    while i < ls.len()
        invariant
            i <= ls@.len(),
            lv == seqs_of(ls@).map_values(|l: Seq<char>| "    "@ + l),
            seqs_of(indented@) == lv.take(i as int),
        decreases ls@.len() - i,
    {
        let mut l = chars_of("    ");
        append(&mut l, &ls[i]);
        let ghost before = seqs_of(indented@);
        assert(lv[i as int] == l@);
        indented.push(l);
        assert(seqs_of(indented@) =~= before.push(lv[i as int]));
        assert(seqs_of(indented@) =~= lv.take(i + 1));
        i = i + 1;
    }
    assert(lv.take(ls@.len() as int) =~= lv);
    append(&mut out, &chars_of("\n  Call sequence:\n"));
    append(&mut out, &join_chars(&indented, &chars_of("\n")));
    out
}

/// The confirmed bugs as a list: one entry per invariant name (its first
/// occurrence, in order), each with its call sequence when it has one.
pub fn format_bugs(bugs: &[BugInfo]) -> (r: String)
    ensures
        r@ == bugs_list(bugs@),
{
    let mut names: Vec<String> = Vec::new();
    let mut entries: Vec<Vec<char>> = Vec::new();
    let ghost kept: Seq<BugInfo> = seq![];
    let mut i: usize = 0;
    while i < bugs.len()
        invariant
            i <= bugs@.len(),
            kept == first_bugs(bugs@.take(i as int)),
            names@.len() == kept.len(),
            forall|j: int| 0 <= j < kept.len() ==> #[trigger] names@[j]@ == kept[j].invariant_name@,
            seqs_of(entries@) == kept.map_values(|b: BugInfo| bug_entry(b)),
        decreases bugs@.len() - i,
    {
        proof {
            assert(bugs@.take(i + 1).drop_last() =~= bugs@.take(i as int));
            assert(bugs@.take(i + 1).last() == bugs@[i as int]);
        }
        let b = &bugs[i];
        let mut seen: bool = false;
        let mut k: usize = 0;
        while k < names.len()
            invariant
                k <= names@.len(),
                names@.len() == kept.len(),
                forall|j: int| 0 <= j < kept.len() ==> #[trigger] names@[j]@ == kept[j].invariant_name@,
                seen == exists|j: int| 0 <= j < k && kept[j].invariant_name@ == b.invariant_name@,
            decreases names@.len() - k,
        {
            if names[k] == b.invariant_name {
                seen = true;
            }
            k = k + 1;
        }
        if !seen {
            let ghost before_entries = seqs_of(entries@);
            names.push(b.invariant_name.clone());
            entries.push(bug_entry_chars(b));
            proof {
                kept = kept.push(*b);
                assert(seqs_of(entries@) =~= before_entries.push(bug_entry(*b)));
                assert(seqs_of(entries@) =~= kept.map_values(|b: BugInfo| bug_entry(b)));
            }
        }
        i = i + 1;
    }
    assert(bugs@.take(bugs@.len() as int) =~= bugs@);
    string_of(&join_chars(&entries, &chars_of("\n")))
}

/// The invariant names of a list of bugs.
pub open spec fn bug_names(bugs: Seq<BugInfo>) -> Seq<Seq<char>> {
    bugs.map_values(|b: BugInfo| b.invariant_name@)
}

/// No two entries of the confirmed-bug list share an invariant name, and every
/// confirmed bug's invariant name has an entry.
pub proof fn lemma_first_bugs_distinct(bugs: Seq<BugInfo>)
    ensures
        forall|i: int, j: int|
            0 <= i < j < first_bugs(bugs).len() ==> first_bugs(bugs)[i].invariant_name@
                != first_bugs(bugs)[j].invariant_name@,
        forall|i: int|
            0 <= i < bugs.len() ==> bug_names(first_bugs(bugs)).contains(
                #[trigger] bugs[i].invariant_name@,
            ),
    decreases bugs.len(),
{
    if bugs.len() > 0 {
        let prev = first_bugs(bugs.drop_last());
        let cur = first_bugs(bugs);
        lemma_first_bugs_distinct(bugs.drop_last());
        assert forall|i: int| 0 <= i < bugs.len() implies bug_names(cur).contains(
            #[trigger] bugs[i].invariant_name@,
        ) by {
            let x = bugs[i].invariant_name@;
            if i < bugs.len() - 1 {
                assert(bugs[i] == bugs.drop_last()[i]);
                assert(bug_names(prev).contains(bugs.drop_last()[i].invariant_name@));
                let j = choose|j: int| 0 <= j < bug_names(prev).len() && bug_names(prev)[j] == x;
                assert(bug_names(cur)[j] == x);
            } else {
                if exists|j: int| 0 <= j < prev.len() && prev[j].invariant_name@ == bugs.last().invariant_name@ {
                    let j = choose|j: int| 0 <= j < prev.len() && prev[j].invariant_name@ == bugs.last().invariant_name@;
                    assert(bug_names(cur)[j] == x);
                } else {
                    assert(bug_names(cur)[prev.len() as int] == x);
                }
            }
        }
    }
}

/// The confirmed-bugs part of the analysis request.
pub open spec fn bugs_section(bugs: Seq<BugInfo>) -> Seq<char> {
    if bugs.len() == 0 {
        "None — the fuzzer ran but found no invariant violations."@
    } else {
        bugs_list(bugs)
    }
}

/// The latest fuzz output, fenced, when there is one.
pub open spec fn fuzz_section(fuzz_output: Option<Seq<char>>) -> Seq<char> {
    match fuzz_output {
        Some(o) => "\n\nLatest fuzz output:\n```\n"@ + o + "\n```"@,
        None => seq![],
    }
}

/// The previous analysis to refine, when there is one.
pub open spec fn previous_section(previous: Option<Seq<char>>) -> Seq<char> {
    match previous {
        Some(p) => ANALYSIS_TEXT_2@ + p,
        None => seq![],
    }
}

/// The instruction: update the analysis, or write the first one.
pub open spec fn analysis_instruction(has_previous: bool) -> Seq<char> {
    if has_previous {
        ANALYSIS_TEXT_3@
    } else {
        ANALYSIS_TEXT_4@
    }
}

/// The user prompt of the security analysis.
pub open spec fn analysis_user_text(request: SecurityAnalysisRequest) -> Seq<char> {
    "Contract: `"@
        + request.contract_name@
        + "`\nRounds completed: "@
        + decimal(request.rounds_completed as nat)
        + "\n\nSource code:\n```solidity\n"@
        + request.source_code@
        + "\n```\n\n\
         Confirmed bugs ("@
        + decimal(request.confirmed_bugs@.len())
        + " finding"@
        + (if request.confirmed_bugs@.len() == 1 { Seq::<char>::empty() } else { "s"@ })
        + "):\n"@
        + bugs_section(request.confirmed_bugs@)
        + fuzz_section(opt_text(request.fuzz_output))
        + previous_section(opt_text(request.previous_analysis))
        + "\n\n"@
        + analysis_instruction(request.previous_analysis is Some)
}

/// The analysis request: the contract, the rounds completed, its source, the
/// confirmed bugs (or that none were found), the latest fuzz output and the
/// previous analysis when present, and the instruction.
pub fn build_user_prompt(request: &SecurityAnalysisRequest) -> (r: String)
    ensures
        r@ == analysis_user_text(*request),
{
    let bugs_section = if request.confirmed_bugs.len() == 0 {
        chars_of("None — the fuzzer ran but found no invariant violations.")
    } else {
        chars_of(format_bugs(request.confirmed_bugs.as_slice()).as_str())
    };
    let fuzz = match &request.fuzz_output {
        Some(o) => {
            let mut f = chars_of("\n\nLatest fuzz output:\n```\n");
            append(&mut f, &chars_of(o.as_str()));
            append(&mut f, &chars_of("\n```"));
            f
        },
        None => Vec::new(),
    };
    let previous = match &request.previous_analysis {
        Some(p) => {
            let mut f = chars_of(ANALYSIS_TEXT_2);
            append(&mut f, &chars_of(p.as_str()));
            f
        },
        None => Vec::new(),
    };
    let plural = if request.confirmed_bugs.len() == 1 {
        Vec::new()
    } else {
        chars_of("s")
    };
    let instruction = if request.previous_analysis.is_some() {
        chars_of(ANALYSIS_TEXT_3)
    } else {
        chars_of(ANALYSIS_TEXT_4)
    };
    let mut out: Vec<char> = Vec::new();
    append(&mut out, &chars_of("Contract: `"));
    append(&mut out, &chars_of(request.contract_name.as_str()));
    append(&mut out, &chars_of("`\nRounds completed: "));
    append(&mut out, &decimal_chars(request.rounds_completed as u64));
    append(&mut out, &chars_of("\n\nSource code:\n```solidity\n"));
    append(&mut out, &chars_of(request.source_code.as_str()));
    append(&mut out, &chars_of("\n```\n\n\
         Confirmed bugs ("));
    append(&mut out, &decimal_chars(request.confirmed_bugs.len() as u64));
    append(&mut out, &chars_of(" finding"));
    append(&mut out, &plural);
    append(&mut out, &chars_of("):\n"));
    append(&mut out, &bugs_section);
    append(&mut out, &fuzz);
    append(&mut out, &previous);
    append(&mut out, &chars_of("\n\n"));
    append(&mut out, &instruction);
    string_of(&out)
}

/// The header of a stored analysis: the bugs confirmed at this round.
pub open spec fn analysis_header(rounds_completed: u32, bugs: Seq<BugInfo>) -> Seq<char> {
    if bugs.len() == 0 {
        "**Confirmed bugs at round "@ + decimal(rounds_completed as nat) + ":** None\n\n"@
    } else {
        "**Confirmed bugs at round "@ + decimal(rounds_completed as nat) + ":**\n"@ + bugs_list(bugs)
            + "\n\n"@
    }
}

/// The analysis text in a reply: the `analysis` string of the reply's JSON
/// payload when it parsed to an object holding one, else the whole reply.
pub open spec fn analysis_text(raw: Seq<char>, parsed: Option<Json>) -> Seq<char> {
    match parsed {
        Some(Json::Object(ms)) => match obj_get(ms, "analysis"@) {
            Some(Json::Str(s)) => s,
            _ => raw,
        },
        _ => raw,
    }
}

/// The JSON payload of an analysis reply, to be parsed by the caller.
pub fn analysis_payload(raw: &str) -> (r: String)
    ensures
        r@ == json_payload(raw@),
{
    match extract_json_payload(raw) {
        Ok(p) => p,
        Err(_) => string_of(&chars_of(raw)),
    }
}

/// The stored analysis of a round: the confirmed-bugs header, then the
/// analysis text of the reply (`parsed` is the reply's payload as JSON, when
/// it parsed), so that the next round sees which bugs were known.
pub fn finish_analysis(request: &SecurityAnalysisRequest, raw: &str, parsed: Option<JsonValue>) -> (r: String)
    ensures
        r@ == analysis_header(request.rounds_completed, request.confirmed_bugs@) + analysis_text(
            raw@,
            match parsed {
                Some(v) => Some(json_view(v)),
                None => None,
            },
        ),
{
    let mut out = chars_of("**Confirmed bugs at round ");
    append(&mut out, &decimal_chars(request.rounds_completed as u64));
    if request.confirmed_bugs.len() == 0 {
        append(&mut out, &chars_of(":** None\n\n"));
    } else {
        append(&mut out, &chars_of(":**\n"));
        append(&mut out, &chars_of(format_bugs(request.confirmed_bugs.as_slice()).as_str()));
        append(&mut out, &chars_of("\n\n"));
    }
    let text = match parsed {
        Some(JsonValue::Object(ms)) => {
            proof {
                lemma_object_view(ms);
            }
            let k = string_of(&chars_of("analysis"));
            match member_index(&ms, &k) {
                Some(i) => match &ms[i].1 {
                    JsonValue::String(s) => chars_of(s.as_str()),
                    _ => chars_of(raw),
                },
                None => chars_of(raw),
            }
        },
        _ => chars_of(raw),
    };
    append(&mut out, &text);
    string_of(&out)
}


/// The stored analysis of a round from the model's reply: the confirmed-bugs
/// header, then the `analysis` string of the reply's JSON payload when the
/// payload parses to an object holding one, else the whole reply.
pub fn analysis_result(request: &SecurityAnalysisRequest, raw: &str) -> (r: String)
    ensures
        r@ == analysis_header(request.rounds_completed, request.confirmed_bugs@) + analysis_text(
            raw@,
            parsed_json(json_payload(raw@)),
        ),
{
    let payload = analysis_payload(raw);
    let parsed = parse_json(payload.as_str());
    finish_analysis(request, raw, parsed)
}

} // verus!
