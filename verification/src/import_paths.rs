//! Resolving the import lines a generated test needs: relative imports of the
//! target's source, made relative to the Foundry workspace root.
use vstd::prelude::*;

use crate::text::{
    lemma_absent_in_subrange, matches_at,
    append, chars_of, copy_range, find, find_chars, join, join_chars, lemma_find_from, lines,
    seqs_of, split_chars, split_on, split_lines, starts_with, starts_with_chars, string_of,
    strip_prefixes, strip_prefixes_chars, strip_suffixes, strip_suffixes_chars, trim, trim_chars,
};
use crate::fuzz_output_parser::strings_view;

verus! {

/// `p` from the first Solidity source directory marker on (`contracts/`,
/// `src/`, `test/`, tried in that order), or `p` when it has none.
pub open spec fn import_path(p: Seq<char>) -> Seq<char> {
    match find(p, "contracts/"@) {
        Some(i) => p.skip(i),
        None => match find(p, "src/"@) {
            Some(i) => p.skip(i),
            None => match find(p, "test/"@) {
                Some(i) => p.skip(i),
                None => p,
            },
        },
    }
}

/// An import path is already an import path: cutting before the source
/// directory a second time changes nothing.
pub proof fn lemma_import_path_settled(p: Seq<char>)
    ensures
        import_path(import_path(p)) == import_path(p),
{
    reveal_strlit("contracts/");
    reveal_strlit("src/");
    reveal_strlit("test/");
    let c = "contracts/"@;
    let s = "src/"@;
    let t = "test/"@;
    lemma_find_from(p, c, 0);
    lemma_find_from(p, s, 0);
    lemma_find_from(p, t, 0);
    match find(p, c) {
        Some(i) => {
            let r = p.skip(i);
            assert(r.subrange(0, 10) =~= p.subrange(i, i + 10));
            assert(matches_at(r, c, 0));
            assert(r.skip(0) =~= r);
        },
        None => match find(p, s) {
            Some(i) => {
                let r = p.skip(i);
                assert(r =~= p.subrange(i, p.len() as int));
                lemma_absent_in_subrange(p, c, i, p.len() as int);
                assert(r.subrange(0, 4) =~= p.subrange(i, i + 4));
                assert(matches_at(r, s, 0));
                assert(r.skip(0) =~= r);
            },
            None => match find(p, t) {
                Some(i) => {
                    let r = p.skip(i);
                    assert(r =~= p.subrange(i, p.len() as int));
                    lemma_absent_in_subrange(p, c, i, p.len() as int);
                    lemma_absent_in_subrange(p, s, i, p.len() as int);
                    assert(r.subrange(0, 5) =~= p.subrange(i, i + 5));
                    assert(matches_at(r, t, 0));
                    assert(r.skip(0) =~= r);
                },
                None => {},
            },
        },
    }
}

fn skip_from_marker(p: &Vec<char>, marker: &str) -> (r: Option<Vec<char>>)
    ensures
        r matches Some(v) ==> find(p@, marker@) matches Some(i) && v@ == p@.skip(i),
        r is None ==> find(p@, marker@) is None,
{
    let m = chars_of(marker);
    match find_chars(p, &m) {
        Some(i) => {
            proof {
                lemma_find_from(p@, m@, 0);
            }
            let v = copy_range(p, i, p.len());
            assert(v@ =~= p@.skip(i as int));
            Some(v)
        },
        None => None,
    }
}

fn import_path_chars(p: &Vec<char>) -> (r: Vec<char>)
    ensures
        r@ == import_path(p@),
{
    match skip_from_marker(p, "contracts/") {
        Some(v) => v,
        None => match skip_from_marker(p, "src/") {
            Some(v) => v,
            None => match skip_from_marker(p, "test/") {
                Some(v) => v,
                None => copy_range(p, 0, p.len()),
            },
        },
    }
}

/// Strips everything before the first standard Solidity source directory
/// (`contracts/`, `src/`, `test/`) so that an absolute contract path becomes
/// an import path that works from the Foundry workspace root.
pub fn to_import_path(contract_path: &str) -> (r: String)
    ensures
        r@ == import_path(contract_path@),
{
    string_of(&import_path_chars(&chars_of(contract_path)))
}

/// The path segments after resolving `.` and `..` in order: `..` drops the
/// last kept segment (if any), `.` is skipped, anything else is kept.
pub open spec fn resolve_segments(segs: Seq<Seq<char>>) -> Seq<Seq<char>>
    decreases segs.len(),
{
    if segs.len() == 0 {
        seq![]
    } else {
        let kept = resolve_segments(segs.drop_last());
        let seg = segs.last();
        if seg == ".."@ {
            if kept.len() > 0 {
                kept.drop_last()
            } else {
                kept
            }
        } else if seg == "."@ {
            kept
        } else {
            kept.push(seg)
        }
    }
}

/// `raw` (without its leading `./`s) appended to `dir`, with `.` and `..`
/// segments resolved.
pub open spec fn resolved_path(dir: Seq<char>, raw: Seq<char>) -> Seq<char> {
    join(resolve_segments(split_on(dir + "/"@ + strip_prefixes(raw, "./"@), '/')), "/"@)
}

fn same(a: &Vec<char>, lit: &str) -> (r: bool)
    ensures
        r == (a@ == lit@),
{
    let b = chars_of(lit);
    if a.len() != b.len() {
        return false;
    }
    let mut i: usize = 0;
    while i < a.len()
        invariant
            a.len() == b.len(),
            b@ == lit@,
            i <= a.len(),
            forall|k: int| 0 <= k < i ==> a@[k] == b@[k],
        decreases a.len() - i,
    {
        if a[i] != b[i] {
            return false;
        }
        i = i + 1;
    }
    assert(a@ =~= b@);
    true
}

fn resolved_path_chars(dir: &Vec<char>, raw: &Vec<char>) -> (r: Vec<char>)
    ensures
        r@ == resolved_path(dir@, raw@),
{
    let mut combined = copy_range(dir, 0, dir.len());
    assert(combined@ =~= dir@);
    append(&mut combined, &chars_of("/"));
    append(&mut combined, &strip_prefixes_chars(raw, &chars_of("./")));
    let segs = split_chars(&combined, '/');
    let ghost sv = seqs_of(segs@);
    let mut parts: Vec<Vec<char>> = Vec::new();
    let mut i: usize = 0;
    while i < segs.len()
        invariant
            i <= segs.len(),
            sv == seqs_of(segs@),
            seqs_of(parts@) == resolve_segments(sv.take(i as int)),
        decreases segs.len() - i,
    {
        proof {
            assert(sv.take(i + 1).drop_last() =~= sv.take(i as int));
            assert(sv.take(i + 1).last() == segs@[i as int]@);
        }
        let ghost before = seqs_of(parts@);
        if same(&segs[i], "..") {
            if parts.len() > 0 {
                parts.pop();
                assert(seqs_of(parts@) =~= before.drop_last());
            }
        } else if same(&segs[i], ".") {
        } else {
            let seg = copy_range(&segs[i], 0, segs[i].len());
            assert(seg@ =~= segs@[i as int]@);
            parts.push(seg);
            assert(seqs_of(parts@) =~= before.push(segs@[i as int]@));
        }
        i = i + 1;
    }
    assert(sv.take(segs.len() as int) =~= sv);
    join_chars(&parts, &chars_of("/"))
}

/// Joins `raw` (a `./` or `../` relative path) onto directory `dir` and
/// resolves its `.` and `..` segments.
pub fn resolve_relative_path(dir: &str, raw: &str) -> (r: String)
    ensures
        r@ == resolved_path(dir@, raw@),
{
    string_of(&resolved_path_chars(&chars_of(dir), &chars_of(raw)))
}

/// After resolution no segment is `.` or `..`.
pub proof fn lemma_resolved_segments_are_plain(segs: Seq<Seq<char>>)
    ensures
        forall|i: int|
            0 <= i < resolve_segments(segs).len() ==> #[trigger] resolve_segments(segs)[i] != ".."@
                && resolve_segments(segs)[i] != "."@,
    decreases segs.len(),
{
    if segs.len() > 0 {
        lemma_resolved_segments_are_plain(segs.drop_last());
        let kept = resolve_segments(segs.drop_last());
        let seg = segs.last();
        let r = resolve_segments(segs);
        if seg == ".."@ {
            if kept.len() > 0 {
                assert forall|i: int| 0 <= i < r.len() implies #[trigger] r[i] != ".."@ && r[i]
                    != "."@ by {
                    assert(r[i] == kept[i]);
                }
            }
        } else if seg != "."@ {
            assert forall|i: int| 0 <= i < r.len() implies #[trigger] r[i] != ".."@ && r[i]
                != "."@ by {
                if i < kept.len() {
                    assert(r[i] == kept[i]);
                } else {
                    assert(r[i] == seg);
                }
            }
        }
    }
}

/// The position of the last `c` in `s`.
pub open spec fn rfind_char(s: Seq<char>, c: char) -> Option<int>
    decreases s.len(),
{
    if s.len() == 0 {
        None
    } else if s.last() == c {
        Some(s.len() - 1)
    } else {
        rfind_char(s.drop_last(), c)
    }
}

/// The directory part of a contract path: everything before its last `/`.
pub open spec fn dir_of(p: Seq<char>) -> Seq<char> {
    match rfind_char(p, '/') {
        Some(i) => p.take(i),
        None => seq![],
    }
}

proof fn lemma_rfind_char(s: Seq<char>, c: char)
    ensures
        rfind_char(s, c) matches Some(i) ==> 0 <= i < s.len() && s[i] == c && forall|j: int|
            i < j < s.len() ==> s[j] != c,
        rfind_char(s, c) is None ==> forall|j: int| 0 <= j < s.len() ==> s[j] != c,
    decreases s.len(),
{
    if s.len() > 0 && s.last() != c {
        lemma_rfind_char(s.drop_last(), c);
        assert forall|j: int| 0 <= j < s.len() - 1 implies s[j] == s.drop_last()[j] by {}
    }
}

fn dir_chars(p: &Vec<char>) -> (r: Vec<char>)
    ensures
        r@ == dir_of(p@),
{
    let mut i: usize = p.len();
    assert(p@.take(p.len() as int) =~= p@);
    while i > 0 && p[i - 1] != '/'
        invariant
            i <= p.len(),
            rfind_char(p@, '/') == rfind_char(p@.take(i as int), '/'),
        decreases i,
    {
        proof {
            let t = p@.take(i as int);
            assert(t.last() == p@[i - 1]);
            assert(t.drop_last() =~= p@.take(i - 1));
        }
        i = i - 1;
    }
    if i == 0 {
        proof {
            assert(p@.take(0) =~= Seq::<char>::empty());
        }
        Vec::new()
    } else {
        proof {
            let t = p@.take(i as int);
            assert(t.last() == p@[i - 1]);
        }
        copy_range(p, 0, i - 1)
    }
}

/// The import line for one line of source, if it is a relative import:
/// `import {X} from "./a.sol";` keeps its symbols and gets the resolved path;
/// `import "../a.sol";` becomes `import "<resolved>";`. Other lines give none.
pub open spec fn dependency_import(dir: Seq<char>, line: Seq<char>) -> Option<Seq<char>> {
    let t = trim(line);
    if !starts_with(t, "import"@) {
        None
    } else {
        let from_pos = match find(t, " from "@) {
            Some(p) => Some(p),
            None => find(t, "\tfrom "@),
        };
        let resolve = |p: Seq<char>|
            import_path(
                if dir.len() == 0 {
                    strip_prefixes(p, "./"@)
                } else {
                    resolved_path(dir, p)
                },
            );
        match from_pos {
            Some(fp) => {
                let symbols = t.take(fp + 1);
                let rest = trim(t.skip(fp + 6));
                let path_raw = strip_suffixes(
                    strip_suffixes(strip_prefixes(rest, "\""@), ";"@),
                    "\""@,
                );
                if !starts_with(path_raw, "."@) {
                    None
                } else {
                    Some(symbols + "from \""@ + resolve(path_raw) + "\";"@)
                }
            },
            None => {
                let inner = strip_suffixes(
                    strip_suffixes(strip_prefixes(trim(strip_prefixes(t, "import"@)), "\""@), ";"@),
                    "\""@,
                );
                if !starts_with(inner, "."@) {
                    None
                } else {
                    Some("import \""@ + resolve(inner) + "\";"@)
                }
            },
        }
    }
}

/// The dependency imports of all source lines, in order.
pub open spec fn dependency_imports(dir: Seq<char>, ls: Seq<Seq<char>>) -> Seq<Seq<char>>
    decreases ls.len(),
{
    if ls.len() == 0 {
        seq![]
    } else {
        dependency_imports(dir, ls.drop_last()) + match dependency_import(dir, ls.last()) {
            Some(l) => seq![l],
            None => Seq::<Seq<char>>::empty(),
        }
    }
}

fn resolve_for(dir: &Vec<char>, p: &Vec<char>) -> (r: Vec<char>)
    ensures
        r@ == import_path(
            if dir@.len() == 0 {
                strip_prefixes(p@, "./"@)
            } else {
                resolved_path(dir@, p@)
            },
        ),
{
    let resolved = if dir.len() == 0 {
        strip_prefixes_chars(p, &chars_of("./"))
    } else {
        resolved_path_chars(dir, p)
    };
    import_path_chars(&resolved)
}

fn dependency_import_chars(dir: &Vec<char>, line: &Vec<char>) -> (r: Option<Vec<char>>)
    ensures
        r matches Some(v) ==> dependency_import(dir@, line@) == Some(v@),
        r is None ==> dependency_import(dir@, line@) is None,
{
    let t = trim_chars(line);
    if !starts_with_chars(&t, &chars_of("import")) {
        return None;
    }
    let f1 = chars_of(" from ");
    let f2 = chars_of("\tfrom ");
    let first = find_chars(&t, &f1);
    let from_pos = match first {
        Some(p) => Some(p),
        None => find_chars(&t, &f2),
    };
    proof {
        lemma_find_from(t@, f1@, 0);
        lemma_find_from(t@, f2@, 0);
        reveal_strlit(" from ");
        reveal_strlit("\tfrom ");
        assert(f1@.len() == 6);
        assert(f2@.len() == 6);
    }
    match from_pos {
        Some(fp) => {
            let tlen: usize = t.len();
            assert(fp + 6 <= tlen);
            let symbols = copy_range(&t, 0, fp + 1);
            assert(symbols@ =~= t@.take(fp + 1));
            let tail = copy_range(&t, fp + 6, t.len());
            assert(tail@ =~= t@.skip(fp + 6));
            let rest = trim_chars(&tail);
            let a = strip_prefixes_chars(&rest, &chars_of("\""));
            let b = strip_suffixes_chars(&a, &chars_of(";"));
            let path_raw = strip_suffixes_chars(&b, &chars_of("\""));
            if !starts_with_chars(&path_raw, &chars_of(".")) {
                return None;
            }
            let mut out = symbols;
            append(&mut out, &chars_of("from \""));
            append(&mut out, &resolve_for(dir, &path_raw));
            append(&mut out, &chars_of("\";"));
            Some(out)
        },
        None => {
            let a = strip_prefixes_chars(&t, &chars_of("import"));
            let b = trim_chars(&a);
            let c = strip_prefixes_chars(&b, &chars_of("\""));
            let d = strip_suffixes_chars(&c, &chars_of(";"));
            let inner = strip_suffixes_chars(&d, &chars_of("\""));
            if !starts_with_chars(&inner, &chars_of(".")) {
                return None;
            }
            let mut out = chars_of("import \"");
            append(&mut out, &resolve_for(dir, &inner));
            append(&mut out, &chars_of("\";"));
            Some(out)
        },
    }
}

/// The relative imports of `source` as ready-to-use import lines, their
/// paths resolved against the directory of `contract_path` and made relative
/// to the workspace root. E.g. with `contract_path = "src/EasyBank.sol"`, the
/// line `import {Token} from "./Token.sol";` gives
/// `import {Token} from "src/Token.sol";`. Non-relative imports are skipped.
pub fn extract_dependency_imports(contract_path: &str, source: &str) -> (r: Vec<String>)
    ensures
        strings_view(r@) == dependency_imports(dir_of(contract_path@), lines(source@)),
{
    let dir = dir_chars(&chars_of(contract_path));
    let ls = split_lines(&chars_of(source));
    let ghost lv = seqs_of(ls@);
    let mut out: Vec<String> = Vec::new();
    let mut i: usize = 0;
    while i < ls.len()
        invariant
            i <= ls.len(),
            lv == seqs_of(ls@),
            strings_view(out@) == dependency_imports(dir@, lv.take(i as int)),
        decreases ls.len() - i,
    {
        proof {
            assert(lv.take(i + 1).drop_last() =~= lv.take(i as int));
            assert(lv.take(i + 1).last() == ls@[i as int]@);
        }
        let ghost before = strings_view(out@);
        match dependency_import_chars(&dir, &ls[i]) {
            Some(l) => {
                let s = string_of(&l);
                out.push(s);
                assert(strings_view(out@) =~= before.push(l@));
            },
            None => {
                assert(strings_view(out@) =~= before + Seq::<Seq<char>>::empty());
            },
        }
        i = i + 1;
    }
    assert(lv.take(ls.len() as int) =~= lv);
    out
}

} // verus!
