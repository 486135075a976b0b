//! Character-level text model shared by the parsers and prompt builders.
//!
//! Text is handled as a sequence of Unicode scalar values (`Seq<char>` in
//! specifications, `Vec<char>` in executable code); the spec functions here
//! state what the `str` methods used by the tool do on such sequences.
use vstd::prelude::*;

verus! {

// ---------------------------------------------------------------------------
// Whitespace and trimming
// ---------------------------------------------------------------------------

/// The Unicode `White_Space` property, which is what `char::is_whitespace` and
/// `str::trim` go by.
pub open spec fn is_ws(c: char) -> bool {
    let u = c as u32;
    ||| u == 0x09 || u == 0x0A || u == 0x0B || u == 0x0C || u == 0x0D || u == 0x20
    ||| u == 0x85 || u == 0xA0 || u == 0x1680
    ||| (0x2000 <= u && u <= 0x200A)
    ||| u == 0x2028 || u == 0x2029 || u == 0x202F || u == 0x205F || u == 0x3000
}

/// Whether `c` is Unicode whitespace.
pub fn is_whitespace(c: char) -> (r: bool)
    ensures
        r == is_ws(c),
{
    let u: u32 = c as u32;
    u == 0x09 || u == 0x0A || u == 0x0B || u == 0x0C || u == 0x0D || u == 0x20 || u == 0x85
        || u == 0xA0 || u == 0x1680 || (0x2000 <= u && u <= 0x200A) || u == 0x2028 || u
        == 0x2029 || u == 0x202F || u == 0x205F || u == 0x3000
}

/// `s` without its leading whitespace (`str::trim_start`).
pub open spec fn trim_start(s: Seq<char>) -> Seq<char>
    decreases s.len(),
{
    if s.len() > 0 && is_ws(s[0]) {
        trim_start(s.drop_first())
    } else {
        s
    }
}

/// `s` without its trailing whitespace (`str::trim_end`).
pub open spec fn trim_end(s: Seq<char>) -> Seq<char>
    decreases s.len(),
{
    if s.len() > 0 && is_ws(s.last()) {
        trim_end(s.drop_last())
    } else {
        s
    }
}

/// `s` without leading and trailing whitespace (`str::trim`).
pub open spec fn trim(s: Seq<char>) -> Seq<char> {
    trim_end(trim_start(s))
}

/// Skipping a whitespace prefix does not change what `trim_start` gives.
pub proof fn lemma_trim_start_skip(s: Seq<char>, i: int)
    requires
        0 <= i <= s.len(),
        forall|j: int| 0 <= j < i ==> is_ws(#[trigger] s[j]),
    ensures
        trim_start(s) == trim_start(s.subrange(i, s.len() as int)),
    decreases i,
{
    if i > 0 {
        let t = s.drop_first();
        assert forall|j: int| 0 <= j < i - 1 implies is_ws(#[trigger] t[j]) by {
            assert(t[j] == s[j + 1]);
        }
        lemma_trim_start_skip(t, i - 1);
        assert(t.subrange(i - 1, t.len() as int) =~= s.subrange(i, s.len() as int));
    } else {
        assert(s.subrange(0, s.len() as int) =~= s);
    }
}

/// Dropping a whitespace suffix does not change what `trim_end` gives.
pub proof fn lemma_trim_end_take(s: Seq<char>, i: int)
    requires
        0 <= i <= s.len(),
        forall|j: int| i <= j < s.len() ==> is_ws(#[trigger] s[j]),
    ensures
        trim_end(s) == trim_end(s.subrange(0, i)),
    decreases s.len() - i,
{
    if i < s.len() {
        let t = s.drop_last();
        assert forall|j: int| i <= j < t.len() implies is_ws(#[trigger] t[j]) by {
            assert(t[j] == s[j]);
        }
        lemma_trim_end_take(t, i);
        assert(t.subrange(0, i) =~= s.subrange(0, i));
    } else {
        assert(s.subrange(0, i) =~= s);
    }
}

/// `trim_start` drops a prefix: it is `s` from some position on.
pub proof fn lemma_trim_start_suffix(s: Seq<char>) -> (a: int)
    ensures
        0 <= a <= s.len(),
        trim_start(s) == s.subrange(a, s.len() as int),
        trim_start(s).len() > 0 ==> !is_ws(trim_start(s)[0]),
    decreases s.len(),
{
    if s.len() > 0 && is_ws(s[0]) {
        let a = lemma_trim_start_suffix(s.drop_first());
        assert(s.drop_first().subrange(a, s.len() - 1) =~= s.subrange(a + 1, s.len() as int));
        a + 1
    } else {
        assert(s.subrange(0, s.len() as int) =~= s);
        0
    }
}

/// `trim_end` drops a suffix: it is `s` up to some position, and it ends in a
/// character that is not whitespace.
pub proof fn lemma_trim_end_prefix(s: Seq<char>) -> (b: int)
    ensures
        0 <= b <= s.len(),
        trim_end(s) == s.subrange(0, b),
        trim_end(s).len() > 0 ==> !is_ws(trim_end(s).last()),
        forall|j: int| b <= j < s.len() ==> is_ws(#[trigger] s[j]),
    decreases s.len(),
{
    if s.len() > 0 && is_ws(s.last()) {
        let b = lemma_trim_end_prefix(s.drop_last());
        assert(s.drop_last().subrange(0, b) =~= s.subrange(0, b));
        assert forall|j: int| b <= j < s.len() implies is_ws(#[trigger] s[j]) by {
            if j < s.len() - 1 {
                assert(s[j] == s.drop_last()[j]);
            }
        }
        b
    } else {
        assert(s.subrange(0, s.len() as int) =~= s);
        s.len() as int
    }
}

/// `trim` keeps a contiguous part of `s`.
pub proof fn lemma_trim_range(s: Seq<char>) -> (r: (int, int))
    ensures
        0 <= r.0 <= r.1 <= s.len(),
        trim(s) == s.subrange(r.0, r.1),
{
    let a = lemma_trim_start_suffix(s);
    let t = trim_start(s);
    let b = lemma_trim_end_prefix(t);
    assert(t.subrange(0, b) =~= s.subrange(a, a + b));
    (a, a + b)
}

/// Trimming a trimmed text changes nothing.
pub proof fn lemma_trim_idempotent(s: Seq<char>)
    ensures
        trim(trim(s)) == trim(s),
{
    let a = lemma_trim_start_suffix(s);
    let t = trim_start(s);
    let b = lemma_trim_end_prefix(t);
    let u = trim(s);
    if u.len() > 0 {
        assert(u[0] == t[0]);
        assert(trim_start(u) == u);
    } else {
        assert(trim_start(u) == u);
    }
}

/// A text with no occurrence of `p` has none in any of its parts.
pub proof fn lemma_absent_in_subrange(s: Seq<char>, p: Seq<char>, a: int, b: int)
    requires
        !contains(s, p),
        0 <= a <= b <= s.len(),
    ensures
        !contains(s.subrange(a, b), p),
{
    let sub = s.subrange(a, b);
    lemma_find_from(s, p, 0);
    lemma_find_from(sub, p, 0);
    if let Some(k) = find(sub, p) {
        assert(s.subrange(a + k, a + k + p.len()) =~= sub.subrange(k, k + p.len()));
        assert(matches_at(s, p, a + k));
    }
}

/// The characters of `s` between `lo` and `hi`.
pub fn copy_range(s: &Vec<char>, lo: usize, hi: usize) -> (r: Vec<char>)
    requires
        lo <= hi <= s.len(),
    ensures
        r@ == s@.subrange(lo as int, hi as int),
{
    let mut r: Vec<char> = Vec::new();
    let mut i: usize = lo;
    while i < hi
        invariant
            lo <= i <= hi <= s.len(),
            r@ == s@.subrange(lo as int, i as int),
        decreases hi - i,
    {
        r.push(s[i]);
        assert(r@ =~= s@.subrange(lo as int, i + 1));
        i = i + 1;
    }
    r
}

/// `s` without leading whitespace.
pub fn trim_start_chars(s: &Vec<char>) -> (r: Vec<char>)
    ensures
        r@ == trim_start(s@),
{
    let mut i: usize = 0;
    while i < s.len() && is_whitespace(s[i])
        invariant
            i <= s.len(),
            forall|j: int| 0 <= j < i ==> is_ws(#[trigger] s@[j]),
        decreases s.len() - i,
    {
        i = i + 1;
    }
    proof {
        lemma_trim_start_skip(s@, i as int);
    }
    copy_range(s, i, s.len())
}

/// `s` without trailing whitespace.
pub fn trim_end_chars(s: &Vec<char>) -> (r: Vec<char>)
    ensures
        r@ == trim_end(s@),
{
    let mut i: usize = s.len();
    while i > 0 && is_whitespace(s[i - 1])
        invariant
            i <= s.len(),
            forall|j: int| i <= j < s.len() ==> is_ws(#[trigger] s@[j]),
        decreases i,
    {
        i = i - 1;
    }
    proof {
        lemma_trim_end_take(s@, i as int);
        let t = s@.subrange(0, i as int);
        if t.len() > 0 {
            assert(t.last() == s@[i - 1]);
        }
    }
    copy_range(s, 0, i)
}

/// `s` without leading and trailing whitespace.
pub fn trim_chars(s: &Vec<char>) -> (r: Vec<char>)
    ensures
        r@ == trim(s@),
{
    let t = trim_start_chars(s);
    trim_end_chars(&t)
}

// ---------------------------------------------------------------------------
// Patterns
// ---------------------------------------------------------------------------

/// `p` occurs in `s` at position `i`.
pub open spec fn matches_at(s: Seq<char>, p: Seq<char>, i: int) -> bool {
    0 <= i && i + p.len() <= s.len() && s.subrange(i, i + p.len()) == p
}

/// `s` begins with `p` (`str::starts_with`).
pub open spec fn starts_with(s: Seq<char>, p: Seq<char>) -> bool {
    matches_at(s, p, 0)
}

/// The first position at or after `i` where `p` occurs in `s`.
pub open spec fn find_from(s: Seq<char>, p: Seq<char>, i: int) -> Option<int>
    decreases s.len() + 1 - i,
{
    if i < 0 || i + p.len() > s.len() {
        None
    } else if matches_at(s, p, i) {
        Some(i)
    } else {
        find_from(s, p, i + 1)
    }
}

/// The first position where `p` occurs in `s` (`str::find`).
pub open spec fn find(s: Seq<char>, p: Seq<char>) -> Option<int> {
    find_from(s, p, 0)
}

/// `p` occurs somewhere in `s` (`str::contains`).
pub open spec fn contains(s: Seq<char>, p: Seq<char>) -> bool {
    find(s, p) is Some
}

/// A pattern seen at some position occurs in the text.
pub proof fn lemma_occurs(s: Seq<char>, p: Seq<char>, k: int)
    requires
        0 <= k,
        k + p.len() <= s.len(),
        s.subrange(k, k + p.len()) =~= p,
    ensures
        contains(s, p),
{
    lemma_find_from(s, p, 0);
    assert(matches_at(s, p, k));
}

/// A pattern in the first part of a text is in the text.
pub proof fn lemma_contains_left(a: Seq<char>, b: Seq<char>, p: Seq<char>)
    requires
        contains(a, p),
    ensures
        contains(a + b, p),
{
    lemma_find_from(a, p, 0);
    let k = find(a, p)->Some_0;
    assert((a + b).subrange(k, k + p.len()) =~= a.subrange(k, k + p.len()));
    lemma_occurs(a + b, p, k);
}

/// A pattern in the second part of a text is in the text.
pub proof fn lemma_contains_right(a: Seq<char>, b: Seq<char>, p: Seq<char>)
    requires
        contains(b, p),
    ensures
        contains(a + b, p),
{
    lemma_find_from(b, p, 0);
    let k = find(b, p)->Some_0;
    assert((a + b).subrange(a.len() + k, a.len() + k + p.len()) =~= b.subrange(k, k + p.len()));
    lemma_occurs(a + b, p, a.len() + k);
}

/// What a text's opening part contains, the text contains.
pub proof fn lemma_contains_prefix(s: Seq<char>, pre: Seq<char>, p: Seq<char>)
    requires
        pre.len() <= s.len(),
        s.subrange(0, pre.len() as int) == pre,
        contains(pre, p),
    ensures
        contains(s, p),
{
    assert(s =~= pre + s.skip(pre.len() as int));
    lemma_contains_left(pre, s.skip(pre.len() as int), p);
}

/// Containment is transitive: what `a` contains, a text containing `a`
/// contains.
pub proof fn lemma_contains_in(a: Seq<char>, b: Seq<char>, p: Seq<char>)
    requires
        contains(b, a),
        contains(a, p),
    ensures
        contains(b, p),
{
    lemma_find_from(b, a, 0);
    lemma_find_from(a, p, 0);
    let k1 = find(b, a)->Some_0;
    let k2 = find(a, p)->Some_0;
    let inb = b.subrange(k1 + k2, k1 + k2 + p.len());
    let ina = a.subrange(k2, k2 + p.len());
    let whole = b.subrange(k1, k1 + a.len());
    assert forall|l: int| 0 <= l < p.len() implies #[trigger] inb[l] == ina[l] by {
        assert(whole[k2 + l] == b[k1 + k2 + l]);
    }
    assert(inb =~= ina);
    lemma_occurs(b, p, k1 + k2);
}

/// A piece that ends an opening part of a text is in the text.
pub proof fn lemma_piece_in_prefix(s: Seq<char>, pre: Seq<char>, x: Seq<char>)
    requires
        pre.len() + x.len() <= s.len(),
        s.subrange(0, (pre.len() + x.len()) as int) == pre + x,
    ensures
        contains(s, x),
{
    lemma_contains_self(x);
    lemma_contains_right(pre, x, x);
    lemma_contains_prefix(s, pre + x, x);
}

/// Every text contains itself.
pub proof fn lemma_contains_self(p: Seq<char>)
    ensures
        contains(p, p),
{
    lemma_occurs(p, p, 0);
}

/// Each part of a joined text is in it.
pub proof fn lemma_join_contains(parts: Seq<Seq<char>>, sep: Seq<char>, j: int)
    requires
        0 <= j < parts.len(),
    ensures
        contains(join(parts, sep), parts[j]),
    decreases parts.len(),
{
    lemma_contains_self(parts[j]);
    if parts.len() > 1 {
        let init = parts.drop_last();
        if j == parts.len() - 1 {
            lemma_contains_right(join(init, sep) + sep, parts.last(), parts[j]);
        } else {
            assert(init[j] == parts[j]);
            lemma_join_contains(init, sep, j);
            lemma_contains_left(join(init, sep), sep, parts[j]);
            lemma_contains_left(join(init, sep) + sep, parts.last(), parts[j]);
        }
    }
}

/// A joined text ends with its last part.
pub proof fn lemma_join_last(parts: Seq<Seq<char>>, sep: Seq<char>)
    requires
        parts.len() > 0,
    ensures
        join(parts, sep).len() >= parts.last().len(),
        join(parts, sep).subrange(
            join(parts, sep).len() - parts.last().len(),
            join(parts, sep).len() as int,
        ) == parts.last(),
{
    let t = join(parts, sep);
    if parts.len() == 1 {
        assert(t.subrange(0, t.len() as int) =~= t);
    } else {
        let pre = join(parts.drop_last(), sep) + sep;
        assert(t == pre + parts.last());
        assert(t.subrange(pre.len() as int, t.len() as int) =~= parts.last());
    }
}

/// Two neighbouring parts of a joined text stand in it with the separator
/// between them.
pub proof fn lemma_join_contains_pair(parts: Seq<Seq<char>>, sep: Seq<char>, j: int)
    requires
        0 <= j,
        j + 1 < parts.len(),
    ensures
        contains(join(parts, sep), parts[j] + sep + parts[j + 1]),
    decreases parts.len(),
{
    let init = parts.drop_last();
    let p = parts[j] + sep + parts[j + 1];
    if j + 1 == parts.len() - 1 {
        let ji = join(init, sep);
        lemma_join_last(init, sep);
        assert(init.last() == parts[j]);
        let x = ji.subrange(0, ji.len() - parts[j].len());
        assert(ji =~= x + parts[j]);
        assert(join(parts, sep) =~= x + p);
        lemma_contains_self(p);
        lemma_contains_right(x, p, p);
    } else {
        assert(init[j] == parts[j]);
        assert(init[j + 1] == parts[j + 1]);
        lemma_join_contains_pair(init, sep, j);
        lemma_contains_left(join(init, sep), sep, p);
        lemma_contains_left(join(init, sep) + sep, parts.last(), p);
    }
}

/// What `find_from` returns is a position at which `p` occurs, with no
/// occurrence between `i` and it.
pub proof fn lemma_find_from(s: Seq<char>, p: Seq<char>, i: int)
    requires
        0 <= i,
    ensures
        find_from(s, p, i) matches Some(k) ==> i <= k && k + p.len() <= s.len() && matches_at(
            s,
            p,
            k,
        ),
        find_from(s, p, i) matches Some(k) ==> forall|j: int|
            i <= j < k ==> !#[trigger] matches_at(s, p, j),
        find_from(s, p, i) is None ==> forall|j: int| i <= j ==> !#[trigger] matches_at(s, p, j),
    decreases s.len() + 1 - i,
{
    if i + p.len() > s.len() {
    } else if matches_at(s, p, i) {
    } else {
        lemma_find_from(s, p, i + 1);
    }
}

/// The first occurrence of `p` in `s` (`str::find`), as a position.
pub fn find_chars(s: &Vec<char>, p: &Vec<char>) -> (r: Option<usize>)
    ensures
        r matches Some(k) ==> find(s@, p@) == Some(k as int),
        r is None ==> find(s@, p@) is None,
{
    find_chars_from(s, p, 0)
}

/// Whether `p` occurs at position `i` of `s`.
pub fn matches_at_chars(s: &Vec<char>, p: &Vec<char>, i: usize) -> (r: bool)
    ensures
        r == matches_at(s@, p@, i as int),
{
    if i > s.len() || p.len() > s.len() - i {
        return false;
    }
    let mut j: usize = 0;
    while j < p.len()
        invariant
            i + p.len() <= s.len(),
            j <= p.len(),
            forall|k: int| 0 <= k < j ==> s@[i + k] == p@[k],
        decreases p.len() - j,
    {
        if s[i + j] != p[j] {
            assert(s@.subrange(i as int, i + p.len())[j as int] != p@[j as int]);
            return false;
        }
        j = j + 1;
    }
    assert(s@.subrange(i as int, i + p.len()) =~= p@);
    true
}

/// The first occurrence of `p` in `s` at or after `from`.
pub fn find_chars_from(s: &Vec<char>, p: &Vec<char>, from: usize) -> (r: Option<usize>)
    ensures
        r matches Some(k) ==> find_from(s@, p@, from as int) == Some(k as int),
        r is None ==> find_from(s@, p@, from as int) is None,
{
    if from > s.len() {
        return None;
    }
    let mut i: usize = from;
    loop
        invariant
            from <= i <= s.len(),
            find_from(s@, p@, from as int) == find_from(s@, p@, i as int),
        decreases s.len() - i,
    {
        if p.len() > s.len() - i {
            return None;
        }
        if matches_at_chars(s, p, i) {
            return Some(i);
        }
        if i == s.len() {
            assert(s@.subrange(i as int, i as int) =~= p@);
            return None;
        }
        i = i + 1;
    }
}

/// Whether `s` begins with `p`.
pub fn starts_with_chars(s: &Vec<char>, p: &Vec<char>) -> (r: bool)
    ensures
        r == starts_with(s@, p@),
{
    matches_at_chars(s, p, 0)
}

/// Whether `p` occurs in `s`.
pub fn contains_chars(s: &Vec<char>, p: &Vec<char>) -> (r: bool)
    ensures
        r == contains(s@, p@),
{
    find_chars(s, p).is_some()
}

/// `s` with every leading copy of a non-empty `p` removed (`str::trim_start_matches`).
pub open spec fn strip_prefixes(s: Seq<char>, p: Seq<char>) -> Seq<char>
    decreases s.len(),
{
    if p.len() > 0 && starts_with(s, p) {
        strip_prefixes(s.skip(p.len() as int), p)
    } else {
        s
    }
}

/// `s` with every trailing copy of a non-empty `p` removed (`str::trim_end_matches`).
pub open spec fn strip_suffixes(s: Seq<char>, p: Seq<char>) -> Seq<char>
    decreases s.len(),
{
    if p.len() > 0 && p.len() <= s.len() && s.subrange(s.len() - p.len(), s.len() as int) == p {
        strip_suffixes(s.subrange(0, s.len() - p.len()), p)
    } else {
        s
    }
}

/// `s` with every leading copy of `p` removed.
pub fn strip_prefixes_chars(s: &Vec<char>, p: &Vec<char>) -> (r: Vec<char>)
    ensures
        r@ == strip_prefixes(s@, p@),
{
    if p.len() == 0 {
        return copy_range(s, 0, s.len());
    }
    let mut i: usize = 0;
    assert(s@.skip(0) =~= s@);
    while matches_at_chars(s, p, i)
        invariant
            p.len() > 0,
            i <= s.len(),
            strip_prefixes(s@, p@) == strip_prefixes(s@.skip(i as int), p@),
        decreases s.len() - i,
    {
        proof {
            let t = s@.skip(i as int);
            assert(t.subrange(0, p.len() as int) =~= s@.subrange(i as int, i + p.len()));
            assert(t.skip(p.len() as int) =~= s@.skip(i + p.len()));
        }
        i = i + p.len();
    }
    proof {
        let t = s@.skip(i as int);
        if starts_with(t, p@) {
            assert(t.subrange(0, p.len() as int) =~= s@.subrange(i as int, i + p.len()));
        }
    }
    copy_range(s, i, s.len())
}

/// `s` with every trailing copy of `p` removed.
pub fn strip_suffixes_chars(s: &Vec<char>, p: &Vec<char>) -> (r: Vec<char>)
    ensures
        r@ == strip_suffixes(s@, p@),
{
    if p.len() == 0 {
        return copy_range(s, 0, s.len());
    }
    let mut i: usize = s.len();
    assert(s@.subrange(0, s.len() as int) =~= s@);
    while p.len() <= i && matches_at_chars(s, p, i - p.len())
        invariant
            p.len() > 0,
            i <= s.len(),
            strip_suffixes(s@, p@) == strip_suffixes(s@.subrange(0, i as int), p@),
        decreases i,
    {
        proof {
            let t = s@.subrange(0, i as int);
            assert(t.subrange(t.len() - p.len(), t.len() as int) =~= s@.subrange(
                i - p.len(),
                i as int,
            ));
            assert(t.subrange(0, t.len() - p.len()) =~= s@.subrange(0, i - p.len()));
        }
        i = i - p.len();
    }
    proof {
        let t = s@.subrange(0, i as int);
        if p.len() <= t.len() && t.subrange(t.len() - p.len(), t.len() as int) == p@ {
            assert(t.subrange(t.len() - p.len(), t.len() as int) =~= s@.subrange(
                i - p.len(),
                i as int,
            ));
        }
    }
    copy_range(s, 0, i)
}

// ---------------------------------------------------------------------------
// Lines
// ---------------------------------------------------------------------------

/// The number of characters of `s` before its first `c` (all of them if none).
pub open spec fn seg_len(s: Seq<char>, c: char) -> nat
    decreases s.len(),
{
    if s.len() == 0 || s[0] == c {
        0
    } else {
        1 + seg_len(s.drop_first(), c)
    }
}

/// `seg_len` counts the characters of `s` that are not `c`, up to a `c` or the end.
pub proof fn lemma_seg_len(s: Seq<char>, c: char)
    ensures
        seg_len(s, c) <= s.len(),
        seg_len(s, c) < s.len() ==> s[seg_len(s, c) as int] == c,
        forall|k: int| 0 <= k < seg_len(s, c) ==> s[k] != c,
    decreases s.len(),
{
    if s.len() > 0 && s[0] != c {
        lemma_seg_len(s.drop_first(), c);
        assert forall|k: int| 0 <= k < seg_len(s, c) implies s[k] != c by {
            if k > 0 {
                assert(s[k] == s.drop_first()[k - 1]);
            }
        }
    }
}

/// The number of characters before the first `'\n'` of `s` (all of them if none).
pub open spec fn line_len(s: Seq<char>) -> nat {
    seg_len(s, '\n')
}

/// `line_len` counts characters of `s` that are not line feeds, up to a line
/// feed or the end.
pub proof fn lemma_line_len(s: Seq<char>)
    ensures
        line_len(s) <= s.len(),
        line_len(s) < s.len() ==> s[line_len(s) as int] == '\n',
        forall|k: int| 0 <= k < line_len(s) ==> s[k] != '\n',
{
    lemma_seg_len(s, '\n');
}

/// A line without the `'\r'` of a `"\r\n"` ending.
pub open spec fn strip_cr(t: Seq<char>) -> Seq<char> {
    if t.len() > 0 && t.last() == '\r' {
        t.drop_last()
    } else {
        t
    }
}

/// The lines of `s` as `str::lines` gives them: split at `'\n'`, a `'\r'`
/// before the `'\n'` removed, and no empty last line after a final line feed.
pub open spec fn lines(s: Seq<char>) -> Seq<Seq<char>>
    decreases s.len(),
{
    if s.len() == 0 {
        seq![]
    } else {
        let n = line_len(s);
        if n < s.len() {
            proof {
                lemma_line_len(s);
            }
            seq![strip_cr(s.take(n as int))] + lines(s.skip((n + 1) as int))
        } else {
            seq![s]
        }
    }
}

/// The lines of a text that ends in a line feed, followed by more text, are
/// its lines followed by the lines of the rest.
pub proof fn lemma_lines_append(a: Seq<char>, t: Seq<char>)
    requires
        a.len() == 0 || a.last() == '\n',
    ensures
        lines(a + t) == lines(a) + lines(t),
    decreases a.len(),
{
    if a.len() == 0 {
        assert(a + t =~= t);
        assert(lines(a) =~= Seq::<Seq<char>>::empty());
        assert(lines(a) + lines(t) =~= lines(t));
    } else {
        let s = a + t;
        let n = line_len(a);
        lemma_line_len(a);
        assert(n < a.len());
        assert forall|k: int| 0 <= k < n implies s[k] != '\n' by {
            assert(s[k] == a[k]);
        }
        assert(s[n as int] == a[n as int]);
        lemma_seg_len_at(s, '\n', 0, n as int);
        assert(s.skip(0) =~= s);
        assert(s.take(n as int) =~= a.take(n as int));
        let rest = a.skip((n + 1) as int);
        assert(s.skip((n + 1) as int) =~= rest + t);
        if rest.len() > 0 {
            assert(rest.last() == a.last());
        }
        lemma_lines_append(rest, t);
        assert(lines(a) == seq![strip_cr(a.take(n as int))] + lines(rest));
        assert(lines(s) == seq![strip_cr(s.take(n as int))] + lines(s.skip((n + 1) as int)));
        assert(lines(s) =~= lines(a) + lines(t));
    }
}

/// A line without a line feed, then a line feed, then more text: that line
/// (without a `'\r'` ending) followed by the lines of the rest.
pub proof fn lemma_lines_cons(l: Seq<char>, t: Seq<char>)
    requires
        forall|k: int| 0 <= k < l.len() ==> l[k] != '\n',
    ensures
        lines(l + seq!['\n'] + t) == seq![strip_cr(l)] + lines(t),
{
    let s = l + seq!['\n'] + t;
    assert forall|k: int| 0 <= k < l.len() implies s[k] != '\n' by {
        assert(s[k] == l[k]);
    }
    assert(s[l.len() as int] == '\n');
    lemma_seg_len_at(s, '\n', 0, l.len() as int);
    assert(s.skip(0) =~= s);
    assert(s.take(l.len() as int) =~= l);
    assert(s.skip((l.len() + 1) as int) =~= t);
}

/// A text without line feeds, not empty, is a single line.
pub proof fn lemma_lines_single(l: Seq<char>)
    requires
        l.len() > 0,
        forall|k: int| 0 <= k < l.len() ==> l[k] != '\n',
    ensures
        lines(l) == seq![l],
{
    lemma_line_len(l);
}

/// A line feed and more text after a text that does not end in a line feed:
/// the last line loses a `'\r'` ending and the lines of the rest follow.
pub proof fn lemma_lines_extend(s: Seq<char>, t: Seq<char>)
    requires
        s.len() > 0,
        s.last() != '\n',
    ensures
        lines(s).len() > 0,
        lines(s + seq!['\n'] + t) == lines(s).drop_last() + seq![strip_cr(lines(s).last())] + lines(
            t,
        ),
    decreases s.len(),
{
    lemma_line_len(s);
    let n = line_len(s);
    let x = s + seq!['\n'] + t;
    if n < s.len() {
        assert forall|k: int| 0 <= k < n implies x[k] != '\n' by {
            assert(x[k] == s[k]);
        }
        assert(x[n as int] == s[n as int]);
        lemma_seg_len_at(x, '\n', 0, n as int);
        assert(x.skip(0) =~= x);
        let rest = s.skip((n + 1) as int);
        assert(rest.len() > 0) by {
            if n + 1 == s.len() {
                assert(s.last() == s[n as int]);
            }
        }
        assert(rest.last() == s.last());
        assert(x.skip((n + 1) as int) =~= rest + seq!['\n'] + t);
        assert(x.take(n as int) =~= s.take(n as int));
        lemma_lines_extend(rest, t);
        let h = seq![strip_cr(s.take(n as int))];
        assert(lines(s) == h + lines(rest));
        assert(lines(x) == h + lines(rest + seq!['\n'] + t));
        assert((h + lines(rest)).drop_last() =~= h + lines(rest).drop_last());
        assert((h + lines(rest)).last() == lines(rest).last());
        assert(h + (lines(rest).drop_last() + seq![strip_cr(lines(rest).last())] + lines(t))
            =~= (h + lines(rest)).drop_last() + seq![strip_cr((h + lines(rest)).last())] + lines(t));
    } else {
        lemma_lines_cons(s, t);
        assert(lines(s) == seq![s]);
        assert(seq![s].drop_last() + seq![strip_cr(s)] + lines(t) =~= seq![strip_cr(s)] + lines(t));
    }
}

/// Trimming from the front ignores a trailing whitespace character, except
/// that what remains loses it.
proof fn lemma_trim_start_drop_last(s: Seq<char>)
    requires
        s.len() > 0,
        is_ws(s.last()),
    ensures
        trim_start(s.drop_last()) == if trim_start(s).len() == 0 {
            Seq::<char>::empty()
        } else {
            trim_start(s).drop_last()
        },
    decreases s.len(),
{
    if is_ws(s[0]) {
        if s.len() == 1 {
            assert(s.drop_first() =~= Seq::<char>::empty());
            assert(s.drop_last() =~= Seq::<char>::empty());
            assert(trim_start(s) == trim_start(s.drop_first()));
        } else {
            assert(s.drop_last()[0] == s[0]);
            assert(s.drop_last().drop_first() =~= s.drop_first().drop_last());
            assert(s.drop_first().last() == s.last());
            lemma_trim_start_drop_last(s.drop_first());
            assert(trim_start(s) == trim_start(s.drop_first()));
            assert(trim_start(s.drop_last()) == trim_start(s.drop_last().drop_first()));
        }
    } else {
        if s.len() == 1 {
            assert(s[0] == s.last());
        }
        assert(s.drop_last()[0] == s[0]);
        assert(trim_start(s) == s);
        assert(trim_start(s.drop_last()) == s.drop_last());
    }
}

/// Trimming ignores a `'\r'` line ending.
pub proof fn lemma_trim_strip_cr(t: Seq<char>)
    ensures
        trim(strip_cr(t)) == trim(t),
{
    if t.len() > 0 && t.last() == '\r' {
        assert(is_ws(t.last()));
        lemma_trim_start_drop_last(t);
        let a = lemma_trim_start_suffix(t);
        let u = trim_start(t);
        if u.len() > 0 {
            assert(u.last() == t.last());
        }
    }
}

/// The views of a sequence of character vectors.
pub open spec fn seqs_of(v: Seq<Vec<char>>) -> Seq<Seq<char>> {
    Seq::new(v.len(), |i: int| v[i]@)
}

/// When the characters from `start` up to `j` are not `c` and `j` is the end
/// or a `c`, the first piece of `s.skip(start)` has `j - start` characters.
pub proof fn lemma_seg_len_at(s: Seq<char>, c: char, start: int, j: int)
    requires
        0 <= start <= j <= s.len(),
        forall|k: int| start <= k < j ==> s[k] != c,
        j == s.len() || s[j] == c,
    ensures
        seg_len(s.skip(start), c) == j - start,
    decreases j - start,
{
    let t = s.skip(start);
    if start < j {
        assert(t[0] == s[start]);
        lemma_seg_len_at(s, c, start + 1, j);
        assert(t.drop_first() =~= s.skip(start + 1));
    } else {
        if j < s.len() {
            assert(t[0] == s[j]);
        }
    }
}

/// The pieces of `s` between occurrences of `c` (`str::split` on a char).
pub open spec fn split_on(s: Seq<char>, c: char) -> Seq<Seq<char>>
    decreases s.len(),
{
    let n = seg_len(s, c);
    if n < s.len() {
        proof {
            lemma_seg_len(s, c);
        }
        seq![s.take(n as int)] + split_on(s.skip((n + 1) as int), c)
    } else {
        seq![s]
    }
}

/// The pieces of `s` between occurrences of `c`.
pub fn split_chars(s: &Vec<char>, c: char) -> (r: Vec<Vec<char>>)
    ensures
        seqs_of(r@) == split_on(s@, c),
        r@.len() >= 1,
{
    let mut r: Vec<Vec<char>> = Vec::new();
    let mut start: usize = 0;
    assert(s@.skip(0) =~= s@);
    loop
        invariant
            start <= s.len(),
            seqs_of(r@) + split_on(s@.skip(start as int), c) == split_on(s@, c),
        decreases s.len() - start,
    {
        let mut j: usize = start;
        while j < s.len() && s[j] != c
            invariant
                start <= j <= s.len(),
                forall|k: int| start <= k < j ==> s@[k] != c,
            decreases s.len() - j,
        {
            j = j + 1;
        }
        proof {
            lemma_seg_len_at(s@, c, start as int, j as int);
        }
        let ghost t = s@.skip(start as int);
        let ghost st = start as int;
        let ghost old_r = seqs_of(r@);
        let piece = copy_range(s, start, j);
        if j < s.len() {
            proof {
                assert(piece@ =~= t.take(j - st));
                assert(t.skip(j - st + 1) =~= s@.skip(j + 1));
            }
            r.push(piece);
            start = j + 1;
            proof {
                assert(seqs_of(r@) =~= old_r.push(piece@));
                assert(seqs_of(r@) + split_on(s@.skip(start as int), c) =~= old_r + split_on(t, c));
            }
        } else {
            proof {
                assert(piece@ =~= t);
            }
            r.push(piece);
            proof {
                assert(seqs_of(r@) =~= old_r.push(piece@));
                assert(seqs_of(r@) =~= old_r + split_on(t, c));
            }
            return r;
        }
    }
}

/// The lines of `s`, as `str::lines` splits them.
pub fn split_lines(s: &Vec<char>) -> (r: Vec<Vec<char>>)
    ensures
        seqs_of(r@) == lines(s@),
{
    let mut r: Vec<Vec<char>> = Vec::new();
    let mut start: usize = 0;
    assert(s@.skip(0) =~= s@);
    while start < s.len()
        invariant
            start <= s.len(),
            seqs_of(r@) + lines(s@.skip(start as int)) == lines(s@),
        decreases s.len() - start,
    {
        let mut j: usize = start;
        while j < s.len() && s[j] != '\n'
            invariant
                start <= j <= s.len(),
                forall|k: int| start <= k < j ==> s@[k] != '\n',
            decreases s.len() - j,
        {
            j = j + 1;
        }
        proof {
            lemma_seg_len_at(s@, '\n', start as int, j as int);
        }
        let ghost t = s@.skip(start as int);
        let ghost st = start as int;
        let ghost old_r = seqs_of(r@);
        if j < s.len() {
            let end: usize = if j > start && s[j - 1] == '\r' {
                j - 1
            } else {
                j
            };
            let line = copy_range(s, start, end);
            proof {
                let head = t.take(j - start);
                assert(head =~= s@.subrange(start as int, j as int));
                if j > start && s@[j - 1] == '\r' {
                    assert(head.last() == s@[j - 1]);
                    assert(strip_cr(head) =~= line@);
                } else {
                    if head.len() > 0 {
                        assert(head.last() == s@[j - 1]);
                    }
                    assert(strip_cr(head) =~= line@);
                }
                assert(t.skip(j - start + 1) =~= s@.skip(j + 1));
            }
            r.push(line);
            start = j + 1;
            proof {
                assert(seqs_of(r@) =~= old_r.push(line@));
                assert(lines(t) == seq![strip_cr(t.take(j - st))] + lines(s@.skip(
                    start as int,
                )));
                assert(seqs_of(r@) + lines(s@.skip(start as int)) =~= old_r + lines(t));
            }
        } else {
            let line = copy_range(s, start, j);
            proof {
                assert(line@ =~= t);
                assert(s@.skip(j as int) =~= Seq::<char>::empty());
            }
            r.push(line);
            start = j;
            proof {
                assert(seqs_of(r@) =~= old_r.push(line@));
                assert(seqs_of(r@) + lines(s@.skip(start as int)) =~= old_r + lines(t));
            }
        }
    }
    proof {
        assert(s@.skip(start as int) =~= Seq::<char>::empty());
        assert(seqs_of(r@) + Seq::<Seq<char>>::empty() =~= seqs_of(r@));
    }
    r
}

// ---------------------------------------------------------------------------
// Joining and numbers
// ---------------------------------------------------------------------------

/// The pieces of `parts` with `sep` between neighbours (`[String]::join`).
pub open spec fn join(parts: Seq<Seq<char>>, sep: Seq<char>) -> Seq<char>
    decreases parts.len(),
{
    if parts.len() == 0 {
        seq![]
    } else if parts.len() == 1 {
        parts[0]
    } else {
        join(parts.drop_last(), sep) + sep + parts.last()
    }
}

/// The pieces of `parts` with `sep` between neighbours.
pub fn join_chars(parts: &Vec<Vec<char>>, sep: &Vec<char>) -> (r: Vec<char>)
    ensures
        r@ == join(seqs_of(parts@), sep@),
{
    let mut r: Vec<char> = Vec::new();
    let mut i: usize = 0;
    while i < parts.len()
        invariant
            i <= parts.len(),
            r@ == join(seqs_of(parts@).take(i as int), sep@),
        decreases parts.len() - i,
    {
        let ghost before = r@;
        if i > 0 {
            append(&mut r, sep);
        }
        append(&mut r, &parts[i]);
        proof {
            let all = seqs_of(parts@);
            let next = all.take(i + 1);
            assert(next.drop_last() =~= all.take(i as int));
            assert(next.last() == parts@[i as int]@);
            if i == 0 {
                assert(next.len() == 1);
                assert(r@ =~= next[0]);
            } else {
                assert(r@ =~= before + sep@ + next.last());
            }
        }
        i = i + 1;
    }
    proof {
        assert(seqs_of(parts@).take(parts.len() as int) =~= seqs_of(parts@));
    }
    r
}

/// Appends the characters of `t` to `r`.
pub fn append(r: &mut Vec<char>, t: &Vec<char>)
    ensures
        final(r)@ == old(r)@ + t@,
{
    let mut i: usize = 0;
    while i < t.len()
        invariant
            i <= t.len(),
            r@ == old(r)@ + t@.take(i as int),
        decreases t.len() - i,
    {
        r.push(t[i]);
        proof {
            assert(t@.take(i + 1) =~= t@.take(i as int).push(t@[i as int]));
        }
        i = i + 1;
    }
    proof {
        assert(t@.take(t.len() as int) =~= t@);
    }
}

/// The decimal digit for `d < 10`.
pub open spec fn digit(d: nat) -> char {
    if d == 0 {
        '0'
    } else if d == 1 {
        '1'
    } else if d == 2 {
        '2'
    } else if d == 3 {
        '3'
    } else if d == 4 {
        '4'
    } else if d == 5 {
        '5'
    } else if d == 6 {
        '6'
    } else if d == 7 {
        '7'
    } else if d == 8 {
        '8'
    } else {
        '9'
    }
}

/// The decimal notation of `n`, as `{}` formats an unsigned integer.
pub open spec fn decimal(n: nat) -> Seq<char>
    decreases n,
{
    if n < 10 {
        seq![digit(n)]
    } else {
        decimal(n / 10) + seq![digit(n % 10)]
    }
}

fn digit_char(d: u64) -> (c: char)
    requires
        d < 10,
    ensures
        c == digit(d as nat),
{
    if d == 0 {
        '0'
    } else if d == 1 {
        '1'
    } else if d == 2 {
        '2'
    } else if d == 3 {
        '3'
    } else if d == 4 {
        '4'
    } else if d == 5 {
        '5'
    } else if d == 6 {
        '6'
    } else if d == 7 {
        '7'
    } else if d == 8 {
        '8'
    } else {
        '9'
    }
}

/// The decimal notation of `n`.
pub fn decimal_chars(n: u64) -> (r: Vec<char>)
    ensures
        r@ == decimal(n as nat),
    decreases n,
{
    if n < 10 {
        let mut r: Vec<char> = Vec::new();
        r.push(digit_char(n));
        assert(r@ =~= seq![digit(n as nat)]);
        r
    } else {
        let mut r = decimal_chars(n / 10);
        r.push(digit_char(n % 10));
        r
    }
}

// ---------------------------------------------------------------------------
// Conversions
// ---------------------------------------------------------------------------

/// The characters of `s`, in order.
pub fn chars_of(s: &str) -> (r: Vec<char>)
    ensures
        r@ == s@,
{
    let mut v: Vec<char> = Vec::new();
    for c in it: s.chars()
        invariant
            v@ == it.seq().take(it.index()),
            it.seq() == s@,
    {
        v.push(c);
    }
    v
}

/// The string made of the characters of `v`; calls `String::from_iter`.
#[verifier::external_body]
pub(crate) fn string_of(v: &Vec<char>) -> (r: String)
    ensures
        r@ == v@,
{
    String::from_iter(v.iter())
}

} // verus!
