//! Condenses raw `forge` invariant-test output into the compact summary that
//! is shown to the model: the failing invariants, their assertion messages and
//! the (shrunk) call sequences that broke them.
use vstd::prelude::*;

use crate::text::{
    append, chars_of, contains, contains_chars, copy_range, decimal, find, find_chars,
    decimal_chars, lemma_find_from, lines, trim_end_chars, seqs_of, split_lines, starts_with, starts_with_chars,
    string_of, strip_prefixes, strip_prefixes_chars, strip_suffixes, strip_suffixes_chars, trim,
    trim_chars, trim_end, trim_start, is_ws, matches_at, lemma_trim_end_prefix, lemma_absent_in_subrange,
    lemma_lines_append, lemma_lines_cons, lemma_lines_extend, lemma_lines_single,
    lemma_trim_strip_cr, strip_cr,
};

verus! {

// ---------------------------------------------------------------------------
// Model
// ---------------------------------------------------------------------------

/// One failing invariant as the parser reads it: its name, the assertion
/// message, and the formatted call steps.
pub struct InvariantFailure {
    pub name: Seq<char>,
    pub message: Seq<char>,
    pub steps: Seq<Seq<char>>,
}

/// A failing invariant extracted from forge output.
pub struct FailingInvariant {
    pub name: String,
    pub failure_message: String,
    pub call_sequence: Vec<String>,
}

/// The views of a sequence of strings.
pub open spec fn strings_view(v: Seq<String>) -> Seq<Seq<char>> {
    Seq::new(v.len(), |i: int| v[i]@)
}

impl View for FailingInvariant {
    type V = InvariantFailure;

    open spec fn view(&self) -> InvariantFailure {
        InvariantFailure {
            name: self.name@,
            message: self.failure_message@,
            steps: strings_view(self.call_sequence@),
        }
    }
}

/// The views of a sequence of failing invariants.
pub open spec fn failures_view(v: Seq<FailingInvariant>) -> Seq<InvariantFailure> {
    Seq::new(v.len(), |i: int| v[i]@)
}

/// `line[k..]` up to the first occurrence of `suffix` (or the end), where `k`
/// is just past the first occurrence of `prefix`.
pub open spec fn field(line: Seq<char>, prefix: Seq<char>, suffix: Seq<char>) -> Option<Seq<char>> {
    match find(line, prefix) {
        None => None,
        Some(k) => {
            let rest = line.skip(k + prefix.len());
            let end = match find(rest, suffix) {
                Some(e) => e,
                None => rest.len() as int,
            };
            Some(rest.take(end))
        },
    }
}

/// The part of a signature before its first `(`.
pub open spec fn before_paren(sig: Seq<char>) -> Seq<char> {
    match find(sig, "("@) {
        Some(e) => sig.take(e),
        None => sig,
    }
}

/// A forge call step `sender=S calldata=f(T) args=[A]` rendered as
/// `f(A)  (sender: S)`.
pub open spec fn call_step(line: Seq<char>) -> Seq<char> {
    let sender = field(line, "sender="@, " "@);
    let calldata = field(line, "calldata="@, " "@);
    let args = field(line, "args=["@, "]"@);
    let call = match calldata {
        Some(sig) => match args {
            Some(a) => if a.len() > 0 {
                before_paren(sig) + "("@ + a + ")"@
            } else {
                sig
            },
            None => sig,
        },
        None => line,
    };
    match sender {
        Some(s) => call + "  (sender: "@ + s + ")"@,
        None => call,
    }
}

/// The assertion message inside a `[FAIL: <message>]` line.
pub open spec fn fail_message(line: Seq<char>) -> Seq<char> {
    let inner = strip_suffixes(strip_prefixes(line, "["@), "]"@);
    trim(strip_prefixes(inner, "FAIL:"@))
}

/// The invariant name in a summary line: from `invariant_` up to the next `(`, trimmed.
pub open spec fn invariant_name(line: Seq<char>) -> Option<Seq<char>> {
    match find(line, "invariant_"@) {
        None => None,
        Some(k) => {
            let rest = line.skip(k);
            let end = match find(rest, "("@) {
                Some(e) => e,
                None => rest.len() as int,
            };
            Some(trim(rest.take(end)))
        },
    }
}

/// A well-formed invariant name: it starts with `invariant_` and holds no `(`.
pub open spec fn is_invariant_name(n: Seq<char>) -> bool {
    starts_with(n, "invariant_"@) && !contains(n, "("@)
}

/// A name read from a summary line is well formed.
proof fn lemma_invariant_name_shape(line: Seq<char>)
    ensures
        invariant_name(line) matches Some(n) ==> is_invariant_name(n),
{
    reveal_strlit("invariant_");
    reveal_strlit("(");
    let pre = "invariant_"@;
    let paren = "("@;
    lemma_find_from(line, pre, 0);
    if let Some(k) = find(line, pre) {
        let rest = line.skip(k);
        assert(rest.subrange(0, 10) =~= line.subrange(k, k + 10));
        lemma_find_from(rest, paren, 0);
        let end = match find(rest, paren) {
            Some(e) => e,
            None => rest.len() as int,
        };
        if let Some(e) = find(rest, paren) {
            if e < 10 {
                assert(rest.subrange(e, e + 1)[0] == rest[e]);
                assert(rest[e] == rest.subrange(0, 10)[e]);
            }
        }
        let h = rest.take(end);
        assert(h.subrange(0, 10) =~= rest.subrange(0, 10));
        lemma_find_from(h, paren, 0);
        if let Some(j) = find(h, paren) {
            assert(rest.subrange(j, j + 1) =~= h.subrange(j, j + 1));
            assert(matches_at(rest, paren, j));
        }
        assert(!contains(h, paren));
        assert(h[0] == h.subrange(0, 10)[0]);
        assert(h[9] == h.subrange(0, 10)[9]);
        assert(!is_ws(h[0]));
        assert(!is_ws(h[9]));
        assert(trim_start(h) == h);
        let b = lemma_trim_end_prefix(h);
        assert(b >= 10);
        let n = trim(h);
        assert(n.subrange(0, 10) =~= h.subrange(0, 10));
        lemma_absent_in_subrange(h, paren, 0, b);
    }
}

/// State of the line scanner: the pending failure message, whether call steps
/// are being collected, the steps so far, and the failures found.
pub struct ScanState {
    pub failure: Option<Seq<char>>,
    pub collecting: bool,
    pub steps: Seq<Seq<char>>,
    pub found: Seq<InvariantFailure>,
}

/// The scanner's starting state.
pub open spec fn scan_start() -> ScanState {
    ScanState { failure: None, collecting: false, steps: seq![], found: seq![] }
}

/// A line that starts forge's trailing summary, where scanning stops.
pub open spec fn is_stop_line(t: Seq<char>) -> bool {
    starts_with(t, "Failing tests:"@) || starts_with(t, "Suite result:"@)
}

/// A line of an assertion stack trace, drawn with box characters.
pub open spec fn is_box_line(t: Seq<char>) -> bool {
    t.len() > 0 && (t[0] == '\u{256D}' || t[0] == '\u{2570}' || t[0] == '\u{251C}' || t[0]
        == '\u{2502}')
}

/// The summary line of one invariant: `invariant_x() (runs: ...)`.
pub open spec fn is_summary_line(t: Seq<char>) -> bool {
    contains(t, "invariant_"@) && contains(t, "(runs:"@)
}

/// How one trimmed line (not a stop line) changes the scanner state.
pub open spec fn scan_line(st: ScanState, t: Seq<char>) -> ScanState {
    if starts_with(t, "[PASS]"@) || is_box_line(t) {
        st
    } else if starts_with(t, "[FAIL"@) {
        ScanState { failure: Some(fail_message(t)), collecting: false, steps: seq![], ..st }
    } else if contains(t, "[Sequence]"@) || contains(t, "[Shrunk sequence]"@) {
        ScanState { collecting: true, ..st }
    } else if st.collecting && starts_with(t, "sender="@) {
        ScanState { steps: st.steps.push(call_step(t)), ..st }
    } else if is_summary_line(t) {
        let found = match st.failure {
            Some(msg) => match invariant_name(t) {
                Some(name) => st.found.push(InvariantFailure { name, message: msg, steps: st.steps }),
                None => st.found,
            },
            None => st.found,
        };
        ScanState { failure: None, collecting: false, steps: seq![], found }
    } else {
        st
    }
}

/// Runs the scanner over `ls`, each line trimmed, stopping at a stop line.
pub open spec fn scan(ls: Seq<Seq<char>>, st: ScanState) -> ScanState
    decreases ls.len(),
{
    if ls.len() == 0 {
        st
    } else {
        let t = trim(ls[0]);
        if is_stop_line(t) {
            st
        } else {
            scan(ls.drop_first(), scan_line(st, t))
        }
    }
}

/// Scanning keeps every failure it has found well named.
proof fn lemma_scan_names(ls: Seq<Seq<char>>, st: ScanState)
    requires
        forall|i: int| 0 <= i < st.found.len() ==> is_invariant_name(#[trigger] st.found[i].name),
    ensures
        forall|i: int|
            0 <= i < scan(ls, st).found.len() ==> is_invariant_name(
                #[trigger] scan(ls, st).found[i].name,
            ),
    decreases ls.len(),
{
    if ls.len() > 0 {
        let t = trim(ls[0]);
        if !is_stop_line(t) {
            lemma_invariant_name_shape(t);
            let st2 = scan_line(st, t);
            assert forall|i: int| 0 <= i < st2.found.len() implies is_invariant_name(
                #[trigger] st2.found[i].name,
            ) by {
                if i < st.found.len() {
                    assert(st2.found[i] == st.found[i]);
                }
            }
            lemma_scan_names(ls.drop_first(), st2);
        }
    }
}

/// The failing invariants of a forge output, in the order they appear.
pub open spec fn failing_invariants(raw: Seq<char>) -> Seq<InvariantFailure> {
    scan(lines(raw), scan_start()).found
}

/// Every failing invariant found in a forge output is named `invariant_...`,
/// with no `(` in its name.
pub proof fn lemma_failing_names(raw: Seq<char>)
    ensures
        forall|i: int|
            0 <= i < failing_invariants(raw).len() ==> is_invariant_name(
                #[trigger] failing_invariants(raw)[i].name,
            ),
{
    lemma_scan_names(lines(raw), scan_start());
}

/// A line that scanning passes over: a passing test, or a line of an
/// assertion stack trace.
pub open spec fn is_noise_line(t: Seq<char>) -> bool {
    starts_with(t, "[PASS]"@) || is_box_line(t)
}

/// Inserting a line that trims to a noise line anywhere into the lines
/// changes nothing that scanning finds.
proof fn lemma_scan_skips_noise(ls: Seq<Seq<char>>, i: int, l: Seq<char>, st: ScanState)
    requires
        0 <= i <= ls.len(),
        is_noise_line(trim(l)),
    ensures
        scan(ls.insert(i, l), st) == scan(ls, st),
    decreases i,
{
    reveal_strlit("[PASS]");
    reveal_strlit("Failing tests:");
    reveal_strlit("Suite result:");
    let t = trim(l);
    if starts_with(t, "[PASS]"@) {
        assert(t[0] == t.subrange(0, 6)[0]);
    }
    if starts_with(t, "Failing tests:"@) {
        assert(t[0] == t.subrange(0, 14)[0]);
    }
    if starts_with(t, "Suite result:"@) {
        assert(t[0] == t.subrange(0, 13)[0]);
    }
    assert(!is_stop_line(t));
    let ls2 = ls.insert(i, l);
    if i == 0 {
        assert(ls2[0] == l);
        assert(ls2.drop_first() =~= ls);
    } else {
        assert(ls2[0] == ls[0]);
        assert(ls2.drop_first() =~= ls.drop_first().insert(i - 1, l));
        if !is_stop_line(trim(ls[0])) {
            lemma_scan_skips_noise(ls.drop_first(), i - 1, l, scan_line(st, trim(ls[0])));
        }
    }
}

/// A passing-test or stack-trace line inserted at any line boundary of a
/// forge output leaves the failing invariants unchanged.
pub proof fn lemma_noise_line_ignored(a: Seq<char>, l: Seq<char>, b: Seq<char>)
    requires
        a.len() == 0 || a.last() == '\n',
        forall|k: int| 0 <= k < l.len() ==> l[k] != '\n',
        is_noise_line(trim(l)),
    ensures
        failing_invariants(a + l + seq!['\n'] + b) == failing_invariants(a + b),
{
    lemma_trim_strip_cr(l);
    assert(a + l + seq!['\n'] + b =~= a + (l + seq!['\n'] + b));
    lemma_lines_append(a, l + seq!['\n'] + b);
    lemma_lines_cons(l, b);
    lemma_lines_append(a, b);
    let la = lines(a);
    assert(la + (seq![strip_cr(l)] + lines(b)) =~= (la + lines(b)).insert(
        la.len() as int,
        strip_cr(l),
    ));
    lemma_scan_skips_noise(la + lines(b), la.len() as int, strip_cr(l), scan_start());
}

/// Scanning sees each line only through its trimmed text.
proof fn lemma_scan_trimmed(ls1: Seq<Seq<char>>, ls2: Seq<Seq<char>>, st: ScanState)
    requires
        ls1.len() == ls2.len(),
        forall|i: int| 0 <= i < ls1.len() ==> trim(#[trigger] ls1[i]) == trim(ls2[i]),
    ensures
        scan(ls1, st) == scan(ls2, st),
    decreases ls1.len(),
{
    if ls1.len() > 0 {
        assert(trim(ls1[0]) == trim(ls2[0]));
        let r1 = ls1.drop_first();
        let r2 = ls2.drop_first();
        assert forall|i: int| 0 <= i < r1.len() implies trim(#[trigger] r1[i]) == trim(r2[i]) by {
            assert(r1[i] == ls1[i + 1]);
            assert(r2[i] == ls2[i + 1]);
        }
        lemma_scan_trimmed(r1, r2, scan_line(st, trim(ls1[0])));
    }
}

/// A passing-test or stack-trace line added after the last line of a forge
/// output, with or without a line feed of its own, leaves the failing
/// invariants unchanged: where the output ends in a line feed the line follows
/// it; where it does not, a line feed comes first.
pub proof fn lemma_noise_line_appended(raw: Seq<char>, l: Seq<char>)
    requires
        forall|k: int| 0 <= k < l.len() ==> l[k] != '\n',
        is_noise_line(trim(l)),
    ensures
        (raw.len() == 0 || raw.last() == '\n') ==> failing_invariants(raw + l)
            == failing_invariants(raw),
        (raw.len() == 0 || raw.last() == '\n') ==> failing_invariants(raw + l + seq!['\n'])
            == failing_invariants(raw),
        (raw.len() > 0 && raw.last() != '\n') ==> failing_invariants(raw + seq!['\n'] + l)
            == failing_invariants(raw),
        (raw.len() > 0 && raw.last() != '\n') ==> failing_invariants(
            raw + seq!['\n'] + l + seq!['\n'],
        ) == failing_invariants(raw),
{
    lemma_trim_strip_cr(l);
    assert(trim(l).len() > 0) by {
        reveal_strlit("[PASS]");
    }
    assert(l.len() > 0) by {
        if l.len() == 0 {
            assert(l =~= Seq::<char>::empty());
            assert(trim_start(l) == l);
            assert(trim_end(l) == l);
        }
    }
    lemma_lines_single(l);
    lemma_lines_cons(l, Seq::<char>::empty());
    let none = lines(Seq::<char>::empty());
    assert(none =~= Seq::<Seq<char>>::empty());
    let with_lf = l + seq!['\n'];
    assert(with_lf =~= l + seq!['\n'] + Seq::<char>::empty());
    assert(lines(with_lf) =~= seq![strip_cr(l)]);
    if raw.len() == 0 || raw.last() == '\n' {
        let lr = lines(raw);
        lemma_lines_append(raw, l);
        lemma_lines_append(raw, with_lf);
        assert(raw + l + seq!['\n'] =~= raw + with_lf);
        assert(lr + seq![l] =~= lr.insert(lr.len() as int, l));
        assert(lr + seq![strip_cr(l)] =~= lr.insert(lr.len() as int, strip_cr(l)));
        lemma_scan_skips_noise(lr, lr.len() as int, l, scan_start());
        lemma_scan_skips_noise(lr, lr.len() as int, strip_cr(l), scan_start());
    } else {
        lemma_lines_extend(raw, l);
        lemma_lines_extend(raw, with_lf);
        assert(raw + seq!['\n'] + l + seq!['\n'] =~= raw + seq!['\n'] + with_lf);
        let lr = lines(raw);
        let last = lr.last();
        let d = lr.drop_last();
        let shown = d + seq![strip_cr(last)];
        assert(shown + seq![l] =~= shown.insert(shown.len() as int, l));
        assert(shown + seq![strip_cr(l)] =~= shown.insert(shown.len() as int, strip_cr(l)));
        lemma_scan_skips_noise(shown, shown.len() as int, l, scan_start());
        lemma_scan_skips_noise(shown, shown.len() as int, strip_cr(l), scan_start());
        lemma_trim_strip_cr(last);
        assert forall|i: int| 0 <= i < shown.len() implies trim(#[trigger] shown[i]) == trim(
            lr[i],
        ) by {
            if i < d.len() {
                assert(shown[i] == lr[i]);
            } else {
                assert(shown[i] == strip_cr(last));
            }
        }
        lemma_scan_trimmed(shown, lr, scan_start());
    }
}

/// `"    " + step + "\n"` for each step.
pub open spec fn render_steps(steps: Seq<Seq<char>>) -> Seq<char>
    decreases steps.len(),
{
    if steps.len() == 0 {
        seq![]
    } else {
        render_steps(steps.drop_last()) + "    "@ + steps.last() + "\n"@
    }
}

/// The block that describes one failing invariant in the summary.
pub open spec fn render_failure(f: InvariantFailure) -> Seq<char> {
    "\n"@ + "  "@ + f.name + "\n"@ + "  Failure: "@ + f.message + "\n"@ + if f.steps.len() > 0 {
        "  Call sequence ("@ + decimal(f.steps.len()) + " step(s)):\n"@ + render_steps(f.steps)
    } else {
        seq![]
    }
}

/// The blocks of all failing invariants, in order.
pub open spec fn render_failures(fs: Seq<InvariantFailure>) -> Seq<char>
    decreases fs.len(),
{
    if fs.len() == 0 {
        seq![]
    } else {
        render_failures(fs.drop_last()) + render_failure(fs.last())
    }
}

/// The summary that `format_for_llm` gives for a forge output.
pub open spec fn llm_summary(raw: Seq<char>) -> Seq<char> {
    if starts_with(raw, "COMPILATION ERROR"@) || starts_with(raw, "TEST FAILED"@) {
        raw
    } else {
        let fs = failing_invariants(raw);
        if fs.len() == 0 {
            "All invariants passed."@
        } else {
            trim_end(decimal(fs.len()) + " failing invariant(s):\n"@ + render_failures(fs))
        }
    }
}

// ---------------------------------------------------------------------------
// Executable parser
// ---------------------------------------------------------------------------

/// A failing invariant under construction, held as characters.
struct FailureChars {
    name: Vec<char>,
    message: Vec<char>,
    steps: Vec<Vec<char>>,
}

impl View for FailureChars {
    type V = InvariantFailure;

    closed spec fn view(&self) -> InvariantFailure {
        InvariantFailure { name: self.name@, message: self.message@, steps: seqs_of(self.steps@) }
    }
}

spec fn opt_view(o: Option<Vec<char>>) -> Option<Seq<char>> {
    match o {
        Some(m) => Some(m@),
        None => None,
    }
}

spec fn found_view(v: Seq<FailureChars>) -> Seq<InvariantFailure> {
    Seq::new(v.len(), |i: int| v[i]@)
}

fn field_chars(line: &Vec<char>, prefix: &Vec<char>, suffix: &Vec<char>) -> (r: Option<
    Vec<char>,
>)
    ensures
        r matches Some(v) ==> field(line@, prefix@, suffix@) == Some(v@),
        r is None ==> field(line@, prefix@, suffix@) is None,
{
    match find_chars(line, prefix) {
        None => None,
        Some(k) => {
            proof {
                lemma_find_from(line@, prefix@, 0);
                assert(k + prefix.len() <= line.len());
            }
            let rest = copy_range(line, k + prefix.len(), line.len());
            assert(rest@ =~= line@.skip(k + prefix.len()));
            let end: usize = match find_chars(&rest, suffix) {
                Some(e) => {
                    proof {
                        lemma_find_from(rest@, suffix@, 0);
                    }
                    e
                },
                None => rest.len(),
            };
            let out = copy_range(&rest, 0, end);
            assert(out@ =~= rest@.take(end as int));
            Some(out)
        },
    }
}

fn before_paren_chars(sig: &Vec<char>) -> (r: Vec<char>)
    ensures
        r@ == before_paren(sig@),
{
    let paren = chars_of("(");
    match find_chars(sig, &paren) {
        Some(e) => {
            proof {
                lemma_find_from(sig@, paren@, 0);
            }
            let out = copy_range(sig, 0, e);
            assert(out@ =~= sig@.take(e as int));
            out
        },
        None => copy_range(sig, 0, sig.len()),
    }
}

fn call_step_chars(line: &Vec<char>) -> (r: Vec<char>)
    ensures
        r@ == call_step(line@),
{
    let space = chars_of(" ");
    let sender = field_chars(line, &chars_of("sender="), &space);
    let calldata = field_chars(line, &chars_of("calldata="), &space);
    let args = field_chars(line, &chars_of("args=["), &chars_of("]"));
    let mut call: Vec<char> = match calldata {
        Some(sig) => match args {
            Some(a) => if a.len() > 0 {
                let mut c = before_paren_chars(&sig);
                append(&mut c, &chars_of("("));
                append(&mut c, &a);
                append(&mut c, &chars_of(")"));
                c
            } else {
                sig
            },
            None => sig,
        },
        None => copy_range(line, 0, line.len()),
    };
    match sender {
        Some(s) => {
            append(&mut call, &chars_of("  (sender: "));
            append(&mut call, &s);
            append(&mut call, &chars_of(")"));
            call
        },
        None => call,
    }
}

fn fail_message_chars(line: &Vec<char>) -> (r: Vec<char>)
    ensures
        r@ == fail_message(line@),
{
    let a = strip_prefixes_chars(line, &chars_of("["));
    let b = strip_suffixes_chars(&a, &chars_of("]"));
    let c = strip_prefixes_chars(&b, &chars_of("FAIL:"));
    trim_chars(&c)
}

fn invariant_name_chars(line: &Vec<char>) -> (r: Option<Vec<char>>)
    ensures
        r matches Some(v) ==> invariant_name(line@) == Some(v@),
        r is None ==> invariant_name(line@) is None,
{
    match find_chars(line, &chars_of("invariant_")) {
        None => None,
        Some(k) => {
            proof {
                lemma_find_from(line@, "invariant_"@, 0);
            }
            let rest = copy_range(line, k, line.len());
            assert(rest@ =~= line@.skip(k as int));
            let paren = chars_of("(");
            let end: usize = match find_chars(&rest, &paren) {
                Some(e) => {
                    proof {
                        lemma_find_from(rest@, paren@, 0);
                    }
                    e
                },
                None => rest.len(),
            };
            let head = copy_range(&rest, 0, end);
            assert(head@ =~= rest@.take(end as int));
            Some(trim_chars(&head))
        },
    }
}

fn is_box_line_chars(t: &Vec<char>) -> (r: bool)
    ensures
        r == is_box_line(t@),
{
    t.len() > 0 && (t[0] == '\u{256D}' || t[0] == '\u{2570}' || t[0] == '\u{251C}' || t[0]
        == '\u{2502}')
}

fn strings_of(v: &Vec<Vec<char>>) -> (r: Vec<String>)
    ensures
        strings_view(r@) == seqs_of(v@),
{
    let mut r: Vec<String> = Vec::new();
    let mut i: usize = 0;
    while i < v.len()
        invariant
            i <= v.len(),
            r@.len() == i,
            forall|k: int| 0 <= k < i ==> #[trigger] r@[k]@ == v@[k]@,
        decreases v.len() - i,
    {
        r.push(string_of(&v[i]));
        i = i + 1;
    }
    assert(strings_view(r@) =~= seqs_of(v@));
    r
}

/// Scans a forge output and returns its failing invariants, held as characters.
fn scan_failures(raw: &Vec<char>) -> (r: Vec<FailureChars>)
    ensures
        found_view(r@) == failing_invariants(raw@),
{
    let ls = split_lines(raw);
    let failing_tests = chars_of("Failing tests:");
    let suite_result = chars_of("Suite result:");
    let pass = chars_of("[PASS]");
    let fail = chars_of("[FAIL");
    let sequence = chars_of("[Sequence]");
    let shrunk = chars_of("[Shrunk sequence]");
    let sender = chars_of("sender=");
    let inv_marker = chars_of("invariant_");
    let runs = chars_of("(runs:");

    let mut failure: Option<Vec<char>> = None;
    let mut collecting: bool = false;
    let mut steps: Vec<Vec<char>> = Vec::new();
    let mut found: Vec<FailureChars> = Vec::new();
    let ghost all = seqs_of(ls@);
    let mut i: usize = 0;
    assert(all.skip(0) =~= all);
    assert(seqs_of(steps@) =~= Seq::<Seq<char>>::empty());
    assert(found_view(found@) =~= Seq::<InvariantFailure>::empty());
    while i < ls.len()
        invariant
            i <= ls.len(),
            all == seqs_of(ls@),
            all == lines(raw@),
            failing_tests@ == "Failing tests:"@,
            suite_result@ == "Suite result:"@,
            pass@ == "[PASS]"@,
            fail@ == "[FAIL"@,
            sequence@ == "[Sequence]"@,
            shrunk@ == "[Shrunk sequence]"@,
            sender@ == "sender="@,
            inv_marker@ == "invariant_"@,
            runs@ == "(runs:"@,
            scan(all, scan_start()) == scan(
                all.skip(i as int),
                ScanState {
                    failure: opt_view(failure),
                    collecting,
                    steps: seqs_of(steps@),
                    found: found_view(found@),
                },
            ),
        ensures
            found_view(found@) == failing_invariants(raw@),
        decreases ls.len() - i,
    {
        let ghost st = ScanState {
            failure: opt_view(failure),
            collecting,
            steps: seqs_of(steps@),
            found: found_view(found@),
        };
        let t = trim_chars(&ls[i]);
        proof {
            let rest = all.skip(i as int);
            assert(rest[0] == ls@[i as int]@);
            assert(rest.drop_first() =~= all.skip(i + 1));
        }
        if starts_with_chars(&t, &failing_tests) || starts_with_chars(&t, &suite_result) {
            assert(is_stop_line(trim(all.skip(i as int)[0])));
            break ;
        }
        if starts_with_chars(&t, &pass) || is_box_line_chars(&t) {
        } else if starts_with_chars(&t, &fail) {
            failure = Some(fail_message_chars(&t));
            collecting = false;
            steps = Vec::new();
            assert(seqs_of(steps@) =~= Seq::<Seq<char>>::empty());
        } else if contains_chars(&t, &sequence) || contains_chars(&t, &shrunk) {
            collecting = true;
        } else if collecting && starts_with_chars(&t, &sender) {
            let ghost before = seqs_of(steps@);
            steps.push(call_step_chars(&t));
            assert(seqs_of(steps@) =~= before.push(call_step(t@)));
        } else if contains_chars(&t, &inv_marker) && contains_chars(&t, &runs) {
            let pending = failure;
            failure = None;
            match pending {
                Some(msg) => match invariant_name_chars(&t) {
                    Some(name) => {
                        let ghost before = found_view(found@);
                        let ghost item = InvariantFailure {
                            name: name@,
                            message: msg@,
                            steps: seqs_of(steps@),
                        };
                        found.push(FailureChars { name, message: msg, steps });
                        assert(found_view(found@) =~= before.push(item));
                    },
                    None => {},
                },
                None => {},
            }
            collecting = false;
            steps = Vec::new();
            assert(seqs_of(steps@) =~= Seq::<Seq<char>>::empty());
        }
        i = i + 1;
        proof {
            if i == ls.len() {
                assert(all.skip(i as int) =~= Seq::<Seq<char>>::empty());
            }
        }
    }
    found
}

/// Appends the summary block of one failing invariant to `out`.
fn render_failure_into(f: &FailureChars, out: &mut Vec<char>)
    ensures
        final(out)@ == old(out)@ + render_failure(f@),
{
    append(out, &chars_of("\n"));
    append(out, &chars_of("  "));
    append(out, &f.name);
    append(out, &chars_of("\n"));
    append(out, &chars_of("  Failure: "));
    append(out, &f.message);
    append(out, &chars_of("\n"));
    let ghost before_steps = out@;
    if f.steps.len() > 0 {
        append(out, &chars_of("  Call sequence ("));
        append(out, &decimal_chars(f.steps.len() as u64));
        append(out, &chars_of(" step(s)):\n"));
        let ghost head = out@;
        let mut i: usize = 0;
        while i < f.steps.len()
            invariant
                i <= f.steps.len(),
                out@ == head + render_steps(seqs_of(f.steps@).take(i as int)),
            decreases f.steps.len() - i,
        {
            append(out, &chars_of("    "));
            append(out, &f.steps[i]);
            append(out, &chars_of("\n"));
            proof {
                let all = seqs_of(f.steps@);
                assert(all.take(i + 1).drop_last() =~= all.take(i as int));
                assert(all.take(i + 1).last() == f.steps@[i as int]@);
            }
            i = i + 1;
        }
        proof {
            assert(seqs_of(f.steps@).take(f.steps.len() as int) =~= seqs_of(f.steps@));
            assert(out@ =~= before_steps + ("  Call sequence ("@ + decimal(f@.steps.len())
                + " step(s)):\n"@ + render_steps(f@.steps)));
        }
    } else {
        assert(out@ =~= before_steps + Seq::<char>::empty());
    }
    assert(out@ =~= old(out)@ + render_failure(f@));
}

/// Turns raw forge output into a compact summary for the model. Compile errors
/// and failing developer tests (`COMPILATION ERROR...`, `TEST FAILED...`) pass
/// through unchanged; otherwise passing tests, stack-trace boxes, sequence
/// markers and the suite summary are dropped, leaving each failing invariant
/// with its message and call sequence, or `All invariants passed.`.
pub fn format_for_llm(raw: &str) -> (r: String)
    ensures
        r@ == llm_summary(raw@),
        starts_with(raw@, "COMPILATION ERROR"@) || starts_with(raw@, "TEST FAILED"@) ==> r@
            == raw@,
{
    let chars = chars_of(raw);
    if starts_with_chars(&chars, &chars_of("COMPILATION ERROR")) || starts_with_chars(
        &chars,
        &chars_of("TEST FAILED"),
    ) {
        return string_of(&chars);
    }
    let fs = scan_failures(&chars);
    if fs.len() == 0 {
        return string_of(&chars_of("All invariants passed."));
    }
    let mut out = decimal_chars(fs.len() as u64);
    append(&mut out, &chars_of(" failing invariant(s):\n"));
    let ghost head = out@;
    let mut i: usize = 0;
    while i < fs.len()
        invariant
            i <= fs.len(),
            out@ == head + render_failures(found_view(fs@).take(i as int)),
        decreases fs.len() - i,
    {
        render_failure_into(&fs[i], &mut out);
        proof {
            let all = found_view(fs@);
            assert(all.take(i + 1).drop_last() =~= all.take(i as int));
            assert(all.take(i + 1).last() == fs@[i as int]@);
        }
        i = i + 1;
    }
    proof {
        assert(found_view(fs@).take(fs.len() as int) =~= found_view(fs@));
    }
    string_of(&trim_end_chars(&out))
}

/// The failing invariants in a forge output, in order: each `[FAIL: msg]`
/// line starts a failure, the `sender=` lines after a sequence marker are its
/// call steps, and the next `invariant_x() (runs: ...)` line names it.
/// Scanning stops at `Failing tests:` or `Suite result:`.
pub fn parse_failing_invariants(raw: &str) -> (r: Vec<FailingInvariant>)
    ensures
        failures_view(r@) == failing_invariants(raw@),
        forall|i: int| 0 <= i < r@.len() ==> is_invariant_name(#[trigger] r@[i].name@),
{
    proof {
        lemma_failing_names(raw@);
    }
    let chars = chars_of(raw);
    let found = scan_failures(&chars);
    let mut r: Vec<FailingInvariant> = Vec::new();
    let mut i: usize = 0;
    while i < found.len()
        invariant
            i <= found.len(),
            r@.len() == i,
            forall|k: int| 0 <= k < i ==> #[trigger] r@[k]@ == found@[k]@,
        decreases found.len() - i,
    {
        let f = &found[i];
        let steps = strings_of(&f.steps);
        r.push(
            FailingInvariant {
                name: string_of(&f.name),
                failure_message: string_of(&f.message),
                call_sequence: steps,
            },
        );
        i = i + 1;
    }
    assert(failures_view(r@) =~= found_view(found@));
    assert forall|i: int| 0 <= i < r@.len() implies is_invariant_name(#[trigger] r@[i].name@) by {
        assert(failures_view(r@)[i].name == r@[i].name@);
    }
    r
}

/// The assertion message of a `[FAIL: <message>]` line.
pub fn extract_fail_message(line: &str) -> (r: String)
    ensures
        r@ == fail_message(line@),
{
    string_of(&fail_message_chars(&chars_of(line)))
}

/// A forge call step `sender=S calldata=f(T) args=[A]` as `f(A)  (sender: S)`.
pub fn format_call_step(line: &str) -> (r: String)
    ensures
        r@ == call_step(line@),
{
    string_of(&call_step_chars(&chars_of(line)))
}

/// The text after the first `prefix` in `line`, up to the next `suffix` or the end.
pub fn extract_field(line: &str, prefix: &str, suffix: &str) -> (r: Option<String>)
    ensures
        r matches Some(v) ==> field(line@, prefix@, suffix@) == Some(v@),
        r is None ==> field(line@, prefix@, suffix@) is None,
{
    match field_chars(&chars_of(line), &chars_of(prefix), &chars_of(suffix)) {
        Some(v) => Some(string_of(&v)),
        None => None,
    }
}

/// The invariant name in a summary line, from `invariant_` up to the next `(`.
pub fn extract_invariant_name(line: &str) -> (r: Option<String>)
    ensures
        r matches Some(v) ==> invariant_name(line@) == Some(v@),
        r is None ==> invariant_name(line@) is None,
{
    match invariant_name_chars(&chars_of(line)) {
        Some(v) => Some(string_of(&v)),
        None => None,
    }
}

} // verus!
