//! The insertion-ordered string maps (`indexmap::IndexMap`) that hold the
//! generated handler functions and invariants, and the calls made on them.
use vstd::prelude::*;

use indexmap::IndexMap;

verus! {

#[verifier::external_type_specification]
#[verifier::external_body]
#[verifier::reject_recursive_types(K)]
#[verifier::reject_recursive_types(V)]
#[verifier::reject_recursive_types(S)]
pub struct ExIndexMap<K, V, S>(IndexMap<K, V, S>);

/// The entries of an ordered string map, as `(key, value)` pairs in insertion order.
pub uninterp spec fn ordered_entries(m: IndexMap<String, String>) -> Seq<(Seq<char>, Seq<char>)>;

/// The first position of key `k` in `e`.
pub open spec fn entry_index(e: Seq<(Seq<char>, Seq<char>)>, k: Seq<char>) -> Option<int> {
    if exists|j: int| 0 <= j < e.len() && e[j].0 == k {
        Some(choose|j: int| 0 <= j < e.len() && e[j].0 == k && forall|l: int| 0 <= l < j ==> e[l].0 != k)
    } else {
        None
    }
}

/// Whether key `k` occurs in `e`.
pub open spec fn has_key(e: Seq<(Seq<char>, Seq<char>)>, k: Seq<char>) -> bool {
    exists|j: int| 0 <= j < e.len() && e[j].0 == k
}

/// A new, empty map; calls `IndexMap::new`.
#[verifier::external_body]
pub(crate) fn ordered_map_new() -> (m: IndexMap<String, String>)
    ensures
        ordered_entries(m) == Seq::<(Seq<char>, Seq<char>)>::empty(),
{
    IndexMap::new()
}

/// The number of entries; calls `IndexMap::len`.
#[verifier::external_body]
pub(crate) fn ordered_map_len(m: &IndexMap<String, String>) -> (n: usize)
    ensures
        n == ordered_entries(*m).len(),
{
    m.len()
}

/// The entry at position `i`, if there is one; calls `IndexMap::get_index`.
/// The map's keys are unique, so no other entry has the returned key.
#[verifier::external_body]
pub(crate) fn ordered_map_get_index(m: &IndexMap<String, String>, i: usize) -> (r: Option<(&String, &String)>)
    ensures
        i < ordered_entries(*m).len() ==> (r matches Some((k, v)) && k@ == ordered_entries(
            *m,
        )[i as int].0 && v@ == ordered_entries(*m)[i as int].1 && forall|j: int|
            0 <= j < ordered_entries(*m).len() && j != i ==> ordered_entries(*m)[j].0 != k@),
        i >= ordered_entries(*m).len() ==> r is None,
{
    m.get_index(i)
}

/// Whether key `k` is in the map; calls `IndexMap::contains_key`.
#[verifier::external_body]
pub(crate) fn ordered_map_contains_key(m: &IndexMap<String, String>, k: &str) -> (r: bool)
    ensures
        r == has_key(ordered_entries(*m), k@),
{
    m.contains_key(k)
}

/// Sets `k` to `v`; calls `IndexMap::insert`. A present key keeps its place
/// and gets the new value (the old one is returned); a new key is added last.
#[verifier::external_body]
pub(crate) fn ordered_map_insert(m: &mut IndexMap<String, String>, k: String, v: String) -> (r: Option<
    String,
>)
    ensures
        match entry_index(ordered_entries(*old(m)), k@) {
            Some(j) => ordered_entries(*final(m)) == ordered_entries(*old(m)).update(j, (k@, v@))
                && (r matches Some(o) && o@ == ordered_entries(*old(m))[j].1),
            None => ordered_entries(*final(m)) == ordered_entries(*old(m)).push((k@, v@))
                && r is None,
        },
{
    m.insert(k, v)
}

} // verus!
