//! A JSON document model, and the dot-path updates that patch responses apply
//! to generated artifacts.
use vstd::prelude::*;

use crate::text::{append, chars_of, seqs_of, split_chars, split_on, string_of};

verus! {

// ---------------------------------------------------------------------------
// Model
// ---------------------------------------------------------------------------

/// A JSON value as the specifications read it: an object is a sequence of
/// members, looked up by the first member with a key.
pub enum Json {
    Null,
    Bool(bool),
    Number(Seq<char>),
    Str(Seq<char>),
    Array(Seq<Json>),
    Object(Seq<(Seq<char>, Json)>),
}

/// A JSON value. Numbers keep their textual form; an object lists its members
/// in order.
pub enum JsonValue {
    Null,
    Bool(bool),
    Number(String),
    String(String),
    Array(Vec<JsonValue>),
    Object(Vec<(String, JsonValue)>),
}

/// The model of a JSON value.
pub open spec fn json_view(v: JsonValue) -> Json
    decreases v,
{
    match v {
        JsonValue::Null => Json::Null,
        JsonValue::Bool(b) => Json::Bool(b),
        JsonValue::Number(n) => Json::Number(n@),
        JsonValue::String(s) => Json::Str(s@),
        JsonValue::Array(items) => Json::Array(
            Seq::new(
                items@.len(),
                |i: int|
                    if 0 <= i < items@.len() {
                        json_view(items@[i])
                    } else {
                        Json::Null
                    },
            ),
        ),
        JsonValue::Object(members) => Json::Object(
            Seq::new(
                members@.len(),
                |i: int|
                    if 0 <= i < members@.len() {
                        (members@[i].0@, json_view(members@[i].1))
                    } else {
                        (Seq::empty(), Json::Null)
                    },
            ),
        ),
    }
}

/// The models of the members of an object.
pub open spec fn members_view(ms: Seq<(String, JsonValue)>) -> Seq<(Seq<char>, Json)> {
    Seq::new(ms.len(), |i: int| (ms[i].0@, json_view(ms[i].1)))
}

/// The models of the items of an array.
pub open spec fn items_view(vs: Seq<JsonValue>) -> Seq<Json> {
    Seq::new(vs.len(), |i: int| json_view(vs[i]))
}

/// An object's model is the model of its members.
pub proof fn lemma_object_view(ms: Vec<(String, JsonValue)>)
    ensures
        json_view(JsonValue::Object(ms)) == Json::Object(members_view(ms@)),
{
    let j = json_view(JsonValue::Object(ms));
    let s = j->Object_0;
    assert(s.len() == ms@.len());
    assert forall|i: int| 0 <= i < s.len() implies s[i] == members_view(ms@)[i] by {}
    assert(s =~= members_view(ms@));
}

/// An array's model is the model of its items.
pub proof fn lemma_array_view(vs: Vec<JsonValue>)
    ensures
        json_view(JsonValue::Array(vs)) == Json::Array(items_view(vs@)),
{
    let j = json_view(JsonValue::Array(vs));
    let s = j->Array_0;
    assert(s.len() == vs@.len());
    assert forall|i: int| 0 <= i < s.len() implies s[i] == items_view(vs@)[i] by {}
    assert(s =~= items_view(vs@));
}

// ---------------------------------------------------------------------------
// Object members
// ---------------------------------------------------------------------------

/// The position of the first member at or after `i` whose key is `k`.
pub open spec fn key_index_from(ms: Seq<(Seq<char>, Json)>, k: Seq<char>, i: int) -> Option<int>
    decreases ms.len() - i,
{
    if i < 0 || i >= ms.len() {
        None
    } else if ms[i].0 == k {
        Some(i)
    } else {
        key_index_from(ms, k, i + 1)
    }
}

/// The position of the first member whose key is `k`.
pub open spec fn key_index(ms: Seq<(Seq<char>, Json)>, k: Seq<char>) -> Option<int> {
    key_index_from(ms, k, 0)
}

/// The value of key `k` (`Map::get`).
pub open spec fn obj_get(ms: Seq<(Seq<char>, Json)>, k: Seq<char>) -> Option<Json> {
    match key_index(ms, k) {
        Some(i) => Some(ms[i].1),
        None => None,
    }
}

/// Whether the object has key `k` (`Map::contains_key`).
pub open spec fn obj_has(ms: Seq<(Seq<char>, Json)>, k: Seq<char>) -> bool {
    key_index(ms, k) is Some
}

/// The object without key `k` (`Map::remove`).
pub open spec fn obj_remove(ms: Seq<(Seq<char>, Json)>, k: Seq<char>) -> Seq<(Seq<char>, Json)> {
    match key_index(ms, k) {
        Some(i) => ms.remove(i),
        None => ms,
    }
}

/// The object with key `k` set to `v`: in place when present, else added last
/// (`Map::insert`).
pub open spec fn obj_insert(ms: Seq<(Seq<char>, Json)>, k: Seq<char>, v: Json) -> Seq<
    (Seq<char>, Json),
> {
    match key_index(ms, k) {
        Some(i) => ms.update(i, (k, v)),
        None => ms.push((k, v)),
    }
}

/// What `key_index_from` returns is the first position at or after `i` holding `k`.
pub proof fn lemma_key_index_from(ms: Seq<(Seq<char>, Json)>, k: Seq<char>, i: int)
    requires
        0 <= i,
    ensures
        key_index_from(ms, k, i) matches Some(j) ==> i <= j < ms.len() && ms[j].0 == k,
        key_index_from(ms, k, i) matches Some(j) ==> forall|l: int| i <= l < j ==> ms[l].0 != k,
        key_index_from(ms, k, i) is None ==> forall|l: int| i <= l < ms.len() ==> ms[l].0 != k,
    decreases ms.len() - i,
{
    if i < ms.len() && ms[i].0 != k {
        lemma_key_index_from(ms, k, i + 1);
    }
}

/// `key_index` is the first position holding `k`.
pub proof fn lemma_key_index(ms: Seq<(Seq<char>, Json)>, k: Seq<char>)
    ensures
        key_index(ms, k) matches Some(j) ==> 0 <= j < ms.len() && ms[j].0 == k && forall|l: int|
            0 <= l < j ==> ms[l].0 != k,
        key_index(ms, k) is None ==> forall|l: int| 0 <= l < ms.len() ==> ms[l].0 != k,
{
    lemma_key_index_from(ms, k, 0);
}

/// A position that holds `k` with no `k` before it is what `key_index` gives.
pub proof fn lemma_key_index_is(ms: Seq<(Seq<char>, Json)>, k: Seq<char>, j: int)
    requires
        0 <= j < ms.len(),
        ms[j].0 == k,
        forall|l: int| 0 <= l < j ==> ms[l].0 != k,
    ensures
        key_index(ms, k) == Some(j),
{
    lemma_key_index(ms, k);
    if let Some(x) = key_index(ms, k) {
        if x < j {
        } else if x > j {
        }
    }
}

/// No member holds `k`: `key_index` is `None`.
pub proof fn lemma_key_index_none(ms: Seq<(Seq<char>, Json)>, k: Seq<char>)
    requires
        forall|l: int| 0 <= l < ms.len() ==> ms[l].0 != k,
    ensures
        key_index(ms, k) is None,
{
    lemma_key_index(ms, k);
}

/// Removing or inserting key `a` does not change where key `b != a` lives, up
/// to the shift of a removal, nor its value.
pub proof fn lemma_get_other(ms: Seq<(Seq<char>, Json)>, a: Seq<char>, b: Seq<char>, v: Json)
    requires
        a != b,
    ensures
        obj_get(obj_remove(ms, a), b) == obj_get(ms, b),
        obj_get(obj_insert(ms, a, v), b) == obj_get(ms, b),
        obj_has(obj_remove(ms, a), b) == obj_has(ms, b),
        obj_has(obj_insert(ms, a, v), b) == obj_has(ms, b),
{
    lemma_key_index(ms, a);
    lemma_key_index(ms, b);
    let r = obj_remove(ms, a);
    let n = obj_insert(ms, a, v);
    lemma_key_index(r, b);
    lemma_key_index(n, b);
    match key_index(ms, a) {
        Some(i) => {
            match key_index(ms, b) {
                Some(j) => {
                    if j < i {
                        lemma_key_index_is(r, b, j);
                    } else {
                        lemma_key_index_is(r, b, j - 1);
                    }
                    lemma_key_index_is(n, b, j);
                },
                None => {
                    lemma_key_index_none(r, b);
                    lemma_key_index_none(n, b);
                },
            }
        },
        None => {
            match key_index(ms, b) {
                Some(j) => {
                    lemma_key_index_is(n, b, j);
                },
                None => {
                    lemma_key_index_none(n, b);
                },
            }
        },
    }
}

/// Inserting key `k` makes `k` map to the inserted value.
pub proof fn lemma_get_inserted(ms: Seq<(Seq<char>, Json)>, k: Seq<char>, v: Json)
    ensures
        obj_get(obj_insert(ms, k, v), k) == Some(v),
        key_index(obj_insert(ms, k, v), k) is Some,
{
    lemma_key_index(ms, k);
    let n = obj_insert(ms, k, v);
    match key_index(ms, k) {
        Some(i) => {
            lemma_key_index_is(n, k, i);
        },
        None => {
            lemma_key_index_is(n, k, ms.len() as int);
        },
    }
}

/// No key occurs twice among an object's members, as in any object that a
/// JSON parser gives.
pub open spec fn distinct_keys(ms: Seq<(Seq<char>, Json)>) -> bool {
    forall|i: int, j: int| 0 <= i < j < ms.len() ==> #[trigger] ms[i].0 != #[trigger] ms[j].0
}

/// With distinct keys, removing `k` leaves no `k`, and the keys stay distinct.
pub proof fn lemma_remove_gone(ms: Seq<(Seq<char>, Json)>, k: Seq<char>)
    requires
        distinct_keys(ms),
    ensures
        obj_get(obj_remove(ms, k), k) is None,
        distinct_keys(obj_remove(ms, k)),
{
    lemma_key_index(ms, k);
    match key_index(ms, k) {
        Some(i) => {
            let r = ms.remove(i);
            assert forall|l: int| 0 <= l < r.len() implies r[l].0 != k by {
                if l >= i {
                    assert(r[l] == ms[l + 1]);
                    assert(ms[i].0 != ms[l + 1].0);
                }
            }
            lemma_key_index_none(r, k);
            assert forall|a: int, b: int| 0 <= a < b < r.len() implies #[trigger] r[a].0
                != #[trigger] r[b].0 by {
                let a2 = if a < i {
                    a
                } else {
                    a + 1
                };
                let b2 = if b < i {
                    b
                } else {
                    b + 1
                };
                assert(r[a] == ms[a2]);
                assert(r[b] == ms[b2]);
                assert(ms[a2].0 != ms[b2].0);
            }
        },
        None => {},
    }
}

/// Setting a key to the value it already has changes nothing.
pub proof fn lemma_insert_same(ms: Seq<(Seq<char>, Json)>, k: Seq<char>, v: Json)
    requires
        obj_get(ms, k) == Some(v),
    ensures
        obj_insert(ms, k, v) == ms,
{
    lemma_key_index(ms, k);
    let i = key_index(ms, k)->Some_0;
    assert(ms.update(i, (k, v)) =~= ms);
}

/// The position of the first member of `ms` whose key is `k`.
pub fn member_index(ms: &Vec<(String, JsonValue)>, k: &String) -> (r: Option<usize>)
    ensures
        r matches Some(i) ==> i < ms@.len() && key_index(members_view(ms@), k@) == Some(i as int),
        r is None ==> key_index(members_view(ms@), k@) is None,
{
    let ghost mv = members_view(ms@);
    let mut i: usize = 0;
    while i < ms.len()
        invariant
            i <= ms.len(),
            mv == members_view(ms@),
            forall|l: int| 0 <= l < i ==> mv[l].0 != k@,
        decreases ms.len() - i,
    {
        if ms[i].0 == *k {
            proof {
                lemma_key_index_is(mv, k@, i as int);
            }
            return Some(i);
        }
        i = i + 1;
    }
    proof {
        lemma_key_index_none(mv, k@);
    }
    None
}

/// Removes the member with key `k` and gives back its value (`Map::remove`).
pub fn take_member(ms: &mut Vec<(String, JsonValue)>, k: &String) -> (r: Option<JsonValue>)
    ensures
        members_view(final(ms)@) == obj_remove(members_view(old(ms)@), k@),
        r matches Some(v) ==> obj_get(members_view(old(ms)@), k@) == Some(json_view(v)),
        r is None ==> obj_get(members_view(old(ms)@), k@) is None,
{
    match member_index(ms, k) {
        Some(i) => {
            let ghost before = ms@;
            let (_, v) = ms.remove(i);
            assert(members_view(ms@) =~= members_view(before).remove(i as int));
            Some(v)
        },
        None => None,
    }
}

/// Sets key `k` to `v`: in place when present, else as a new last member
/// (`Map::insert`).
pub fn put_member(ms: &mut Vec<(String, JsonValue)>, k: String, v: JsonValue)
    ensures
        members_view(final(ms)@) == obj_insert(members_view(old(ms)@), k@, json_view(v)),
{
    let ghost before = ms@;
    let ghost kv = k@;
    let ghost vv = json_view(v);
    match member_index(ms, &k) {
        Some(i) => {
            ms.remove(i);
            ms.insert(i, (k, v));
            assert(members_view(ms@) =~= members_view(before).update(i as int, (kv, vv)));
        },
        None => {
            ms.push((k, v));
            assert(members_view(ms@) =~= members_view(before).push((kv, vv)));
        },
    }
}

/// Whether the object has key `k`.
pub fn has_member(ms: &Vec<(String, JsonValue)>, k: &String) -> (r: bool)
    ensures
        r == obj_has(members_view(ms@), k@),
{
    member_index(ms, k).is_some()
}

/// No object anywhere in the value repeats a key, as in every value a JSON
/// parser gives.
pub open spec fn well_keyed(v: Json) -> bool
    decreases v,
{
    match v {
        Json::Object(ms) => distinct_keys(ms) && forall|i: int|
            0 <= i < ms.len() ==> well_keyed(#[trigger] ms[i].1),
        Json::Array(items) => forall|i: int| 0 <= i < items.len() ==> well_keyed(#[trigger] items[i]),
        _ => true,
    }
}

/// Setting a key keeps the keys of an object distinct.
pub proof fn lemma_insert_distinct(ms: Seq<(Seq<char>, Json)>, k: Seq<char>, v: Json)
    requires
        distinct_keys(ms),
    ensures
        distinct_keys(obj_insert(ms, k, v)),
{
    lemma_key_index(ms, k);
    let n = obj_insert(ms, k, v);
    assert forall|a: int, b: int| 0 <= a < b < n.len() implies #[trigger] n[a].0 != #[trigger] n[b].0 by {
        if b < ms.len() {
            assert(n[a].0 == ms[a].0);
            assert(n[b].0 == ms[b].0);
            assert(ms[a].0 != ms[b].0);
        } else {
            assert(n[a] == ms[a]);
        }
    }
}

/// A member value of a well-keyed object is well keyed.
pub proof fn lemma_get_well_keyed(ms: Seq<(Seq<char>, Json)>, k: Seq<char>)
    requires
        well_keyed(Json::Object(ms)),
    ensures
        obj_get(ms, k) matches Some(x) ==> well_keyed(x),
{
    lemma_key_index(ms, k);
    if let Some(i) = key_index(ms, k) {
        assert(well_keyed(ms[i].1));
    }
}

/// Setting a key of a well-keyed object to a well-keyed value leaves it well keyed.
pub proof fn lemma_insert_well_keyed(ms: Seq<(Seq<char>, Json)>, k: Seq<char>, v: Json)
    requires
        well_keyed(Json::Object(ms)),
        well_keyed(v),
    ensures
        well_keyed(Json::Object(obj_insert(ms, k, v))),
{
    lemma_insert_distinct(ms, k, v);
    lemma_key_index(ms, k);
    let n = obj_insert(ms, k, v);
    assert forall|i: int| 0 <= i < n.len() implies well_keyed(#[trigger] n[i].1) by {
        if i < ms.len() && n[i] == ms[i] {
            assert(well_keyed(ms[i].1));
        }
    }
}

/// Removing a key of a well-keyed object leaves it well keyed.
pub proof fn lemma_remove_well_keyed(ms: Seq<(Seq<char>, Json)>, k: Seq<char>)
    requires
        well_keyed(Json::Object(ms)),
    ensures
        well_keyed(Json::Object(obj_remove(ms, k))),
{
    lemma_remove_gone(ms, k);
    lemma_key_index(ms, k);
    let r = obj_remove(ms, k);
    assert forall|l: int| 0 <= l < r.len() implies well_keyed(#[trigger] r[l].1) by {
        if let Some(i) = key_index(ms, k) {
            if l >= i {
                assert(r[l] == ms[l + 1]);
                assert(well_keyed(ms[l + 1].1));
            } else {
                assert(well_keyed(ms[l].1));
            }
        } else {
            assert(well_keyed(ms[l].1));
        }
    }
}

/// Setting a dot path of a well-keyed value to a well-keyed value leaves it
/// well keyed: no update repeats a key.
pub proof fn lemma_set_well_keyed(v: Json, parts: Seq<Seq<char>>, nv: Json)
    requires
        well_keyed(v),
        well_keyed(nv),
        set_at(v, parts, nv) is Ok,
    ensures
        well_keyed(set_at(v, parts, nv)->Ok_0),
    decreases parts.len(),
{
    if parts.len() == 1 {
        lemma_insert_well_keyed(v->Object_0, parts[0], nv);
    } else if parts.len() > 1 {
        let ms = v->Object_0;
        lemma_key_index(ms, parts[0]);
        let i = key_index(ms, parts[0])->Some_0;
        assert(well_keyed(ms[i].1));
        lemma_set_well_keyed(ms[i].1, parts.drop_first(), nv);
        let c = set_at(ms[i].1, parts.drop_first(), nv)->Ok_0;
        let n = ms.update(i, (ms[i].0, c));
        assert forall|a: int, b: int| 0 <= a < b < n.len() implies #[trigger] n[a].0
            != #[trigger] n[b].0 by {
            assert(n[a].0 == ms[a].0);
            assert(n[b].0 == ms[b].0);
            assert(ms[a].0 != ms[b].0);
        }
        assert forall|l: int| 0 <= l < n.len() implies well_keyed(#[trigger] n[l].1) by {
            if l != i {
                assert(well_keyed(ms[l].1));
            }
        }
    }
}

#[verifier::external_type_specification]
#[verifier::external_body]
pub struct ExSerdeValue(serde_json::Value);

/// What `serde_json::from_str::<serde_json::Value>` gives for a text, as the
/// library's JSON model (numbers in their textual form), or `None` when the
/// text is not JSON.
pub uninterp spec fn parsed_json(text: Seq<char>) -> Option<Json>;

/// The library's value for a `serde_json` value, member for member, with
/// numbers in their textual form; a conversion, with nothing claimed of it.
#[verifier::external_body]
fn json_value_of(v: &serde_json::Value) -> JsonValue {
    match v {
        serde_json::Value::Null => JsonValue::Null,
        serde_json::Value::Bool(b) => JsonValue::Bool(*b),
        serde_json::Value::Number(n) => JsonValue::Number(n.to_string()),
        serde_json::Value::String(t) => JsonValue::String(t.clone()),
        serde_json::Value::Array(items) => JsonValue::Array(items.iter().map(json_value_of).collect()),
        serde_json::Value::Object(map) => JsonValue::Object(
            map.iter().map(|(k, x)| (k.clone(), json_value_of(x))).collect(),
        ),
    }
}

/// Parses a text as JSON; calls `serde_json::from_str::<serde_json::Value>`.
/// The result is the named parse of the text; a `serde_json` object never
/// repeats a key, so neither does any object of the result.
#[verifier::external_body]
pub(crate) fn parse_json(text: &str) -> (r: Option<JsonValue>)
    ensures
        match r {
            Some(v) => parsed_json(text@) == Some(json_view(v)) && well_keyed(json_view(v)),
            None => parsed_json(text@) is None,
        },
{
    match serde_json::from_str::<serde_json::Value>(text) {
        Ok(v) => Some(json_value_of(&v)),
        Err(_) => None,
    }
}

/// A copy of a JSON value.
pub fn clone_json(v: &JsonValue) -> (r: JsonValue)
    ensures
        json_view(r) == json_view(*v),
    decreases *v,
{
    match v {
        JsonValue::Null => JsonValue::Null,
        JsonValue::Bool(b) => JsonValue::Bool(*b),
        JsonValue::Number(n) => JsonValue::Number(n.clone()),
        JsonValue::String(s) => JsonValue::String(s.clone()),
        JsonValue::Array(items) => {
            let mut out: Vec<JsonValue> = Vec::new();
            let mut i: usize = 0;
            while i < items.len()
                invariant
                    *v == JsonValue::Array(*items),
                    i <= items.len(),
                    out@.len() == i,
                    forall|l: int| 0 <= l < i ==> json_view(#[trigger] out@[l]) == json_view(
                        items@[l],
                    ),
                decreases items.len() - i,
            {
                proof {
                    assert(decreases_to!(*v => (*v)->Array_0));
                    assert(decreases_to!(*items => items@));
                    assert(decreases_to!(items@ => items@[i as int]));
                }
                out.push(clone_json(&items[i]));
                i = i + 1;
            }
            proof {
                lemma_array_view(*items);
                lemma_array_view(out);
                assert(items_view(out@) =~= items_view(items@));
            }
            JsonValue::Array(out)
        },
        JsonValue::Object(members) => {
            let mut out: Vec<(String, JsonValue)> = Vec::new();
            let mut i: usize = 0;
            while i < members.len()
                invariant
                    *v == JsonValue::Object(*members),
                    i <= members.len(),
                    out@.len() == i,
                    forall|l: int|
                        0 <= l < i ==> (#[trigger] out@[l]).0@ == members@[l].0@ && json_view(
                            out@[l].1,
                        ) == json_view(members@[l].1),
                decreases members.len() - i,
            {
                let key = members[i].0.clone();
                proof {
                    assert(decreases_to!(*v => (*v)->Object_0));
                    assert(decreases_to!(*members => members@));
                    assert(decreases_to!(members@ => members@[i as int]));
                    assert(decreases_to!(members@[i as int] => members@[i as int].1));
                }
                let value = clone_json(&members[i].1);
                out.push((key, value));
                i = i + 1;
            }
            proof {
                lemma_object_view(*members);
                lemma_object_view(out);
                assert(members_view(out@) =~= members_view(members@));
            }
            JsonValue::Object(out)
        },
    }
}

// ---------------------------------------------------------------------------
// Dot paths
// ---------------------------------------------------------------------------

/// How a dot-path update fails: the path, and the segment where it failed.
pub enum PatchError {
    /// A segment before the last names a key that the object lacks.
    KeyNotFound { path: String, key: String },
    /// A segment is applied to something that is not an object.
    ExpectedObject { path: String, key: String },
}

/// The model of a failed update: which kind, and at which segment.
pub enum PathFailure {
    KeyNotFound(Seq<char>),
    ExpectedObject(Seq<char>),
}

/// Sets the value at dot path `parts` (one segment or more) to `nv`: every
/// segment but the last must name an existing member of an object, and the
/// last is inserted into the object reached.
pub open spec fn set_at(v: Json, parts: Seq<Seq<char>>, nv: Json) -> Result<Json, PathFailure>
    decreases parts.len(),
{
    if parts.len() == 0 {
        Ok(v)
    } else if parts.len() == 1 {
        match v {
            Json::Object(ms) => Ok(Json::Object(obj_insert(ms, parts[0], nv))),
            _ => Err(PathFailure::ExpectedObject(parts[0])),
        }
    } else {
        match v {
            Json::Object(ms) => match key_index(ms, parts[0]) {
                Some(i) => match set_at(ms[i].1, parts.drop_first(), nv) {
                    Ok(c) => Ok(Json::Object(ms.update(i, (ms[i].0, c)))),
                    Err(e) => Err(e),
                },
                None => Err(PathFailure::KeyNotFound(parts[0])),
            },
            _ => Err(PathFailure::ExpectedObject(parts[0])),
        }
    }
}

/// The value reached by following the keys `parts` from `v`.
pub open spec fn get_at(v: Json, parts: Seq<Seq<char>>) -> Option<Json>
    decreases parts.len(),
{
    if parts.len() == 0 {
        Some(v)
    } else {
        match v {
            Json::Object(ms) => match obj_get(ms, parts[0]) {
                Some(c) => get_at(c, parts.drop_first()),
                None => None,
            },
            _ => None,
        }
    }
}

/// The model of a patch error, by its kind and segment.
pub open spec fn patch_error_view(e: PatchError) -> PathFailure {
    match e {
        PatchError::KeyNotFound { key, .. } => PathFailure::KeyNotFound(key@),
        PatchError::ExpectedObject { key, .. } => PathFailure::ExpectedObject(key@),
    }
}

/// Setting a dot path leaves the rest of the object alone: every top-level
/// key other than the path's first segment keeps its value.
pub proof fn lemma_set_frame(v: Json, parts: Seq<Seq<char>>, nv: Json, k: Seq<char>)
    requires
        parts.len() >= 1,
        set_at(v, parts, nv) is Ok,
        k != parts[0],
    ensures
        get_at(set_at(v, parts, nv)->Ok_0, seq![k]) == get_at(v, seq![k]),
{
    let ms = v->Object_0;
    let one = seq![k];
    assert(one.drop_first().len() == 0);
    if parts.len() == 1 {
        lemma_get_other(ms, parts[0], k, nv);
    } else {
        lemma_key_index(ms, parts[0]);
        let i = key_index(ms, parts[0])->Some_0;
        let c = set_at(ms[i].1, parts.drop_first(), nv)->Ok_0;
        let ms2 = ms.update(i, (ms[i].0, c));
        lemma_key_index(ms, k);
        match key_index(ms, k) {
            Some(j) => {
                lemma_key_index_is(ms2, k, j);
            },
            None => {
                lemma_key_index_none(ms2, k);
            },
        }
    }
}

/// Reading a dot path right after setting it gives back the value that was
/// set: when `set_at(v, parts, nv)` succeeds, `get_at` of the result at the same
/// path is `nv`.
pub proof fn lemma_set_then_get(v: Json, parts: Seq<Seq<char>>, nv: Json)
    requires
        parts.len() >= 1,
        set_at(v, parts, nv) is Ok,
    ensures
        get_at(set_at(v, parts, nv)->Ok_0, parts) == Some(nv),
    decreases parts.len(),
{
    let ms = v->Object_0;
    if parts.len() == 1 {
        lemma_get_inserted(ms, parts[0], nv);
        assert(parts.drop_first().len() == 0);
        assert(get_at(nv, parts.drop_first()) == Some(nv));
    } else {
        lemma_key_index(ms, parts[0]);
        let i = key_index(ms, parts[0])->Some_0;
        let c = set_at(ms[i].1, parts.drop_first(), nv)->Ok_0;
        lemma_set_then_get(ms[i].1, parts.drop_first(), nv);
        let ns = ms.update(i, (ms[i].0, c));
        assert forall|l: int| 0 <= l < i implies ns[l].0 != parts[0] by {}
        lemma_key_index_is(ns, parts[0], i);
        assert(obj_get(ns, parts[0]) == Some(c));
    }
}

/// Setting a dot path with one segment or more in an object, where every segment
/// but the last names an existing member of an object, succeeds.
pub proof fn lemma_set_succeeds(v: Json, parts: Seq<Seq<char>>, nv: Json)
    requires
        parts.len() >= 1,
        v is Object,
        parts.len() > 1 ==> get_at(v, parts.take(parts.len() - 1)) matches Some(Json::Object(_)),
    ensures
        set_at(v, parts, nv) is Ok,
    decreases parts.len(),
{
    if parts.len() > 1 {
        let ms = v->Object_0;
        let pre = parts.take(parts.len() - 1);
        assert(pre[0] == parts[0]);
        lemma_key_index(ms, parts[0]);
        let i = key_index(ms, parts[0])->Some_0;
        let rest = parts.drop_first();
        assert(pre.drop_first() =~= rest.take(rest.len() - 1));
        if rest.len() > 1 {
            lemma_set_succeeds(ms[i].1, rest, nv);
        } else {
            assert(pre.drop_first().len() == 0);
            lemma_set_succeeds(ms[i].1, rest, nv);
        }
    }
}

/// A dot path can be set only in an object whose prefixes before the last
/// segment all reach objects.
proof fn lemma_set_needs_objects(v: Json, parts: Seq<Seq<char>>, nv: Json)
    requires
        parts.len() >= 1,
        set_at(v, parts, nv) is Ok,
    ensures
        v is Object,
        parts.len() > 1 ==> get_at(v, parts.take(parts.len() - 1)) matches Some(Json::Object(_)),
    decreases parts.len(),
{
    if parts.len() > 1 {
        let ms = v->Object_0;
        lemma_key_index(ms, parts[0]);
        let i = key_index(ms, parts[0])->Some_0;
        let rest = parts.drop_first();
        lemma_set_needs_objects(ms[i].1, rest, nv);
        let pre = parts.take(parts.len() - 1);
        assert(pre[0] == parts[0]);
        assert(pre.drop_first() =~= rest.take(rest.len() - 1));
        if rest.len() == 1 {
            assert(pre.drop_first().len() == 0);
        }
    }
}

/// Setting a dot path succeeds exactly when the root is an object and every
/// prefix before the last segment reaches an object.
pub proof fn lemma_set_ok_iff(v: Json, parts: Seq<Seq<char>>, nv: Json)
    requires
        parts.len() >= 1,
    ensures
        set_at(v, parts, nv) is Ok <==> (v is Object && (parts.len() > 1 ==> get_at(
            v,
            parts.take(parts.len() - 1),
        ) matches Some(Json::Object(_)))),
{
    if set_at(v, parts, nv) is Ok {
        lemma_set_needs_objects(v, parts, nv);
    }
    if v is Object && (parts.len() > 1 ==> get_at(v, parts.take(parts.len() - 1)) matches Some(
        Json::Object(_),
    )) {
        lemma_set_succeeds(v, parts, nv);
    }
}

/// Setting a dot path changes nothing off that path: reading any path `q`
/// that leaves the set path at some segment (the same keys up to segment `j`,
/// another key there) gives what it gave before.
pub proof fn lemma_set_deep_frame(
    v: Json,
    parts: Seq<Seq<char>>,
    nv: Json,
    q: Seq<Seq<char>>,
    j: int,
)
    requires
        parts.len() >= 1,
        set_at(v, parts, nv) is Ok,
        0 <= j < q.len(),
        j < parts.len(),
        q.take(j) == parts.take(j),
        q[j] != parts[j],
    ensures
        get_at(set_at(v, parts, nv)->Ok_0, q) == get_at(v, q),
    decreases parts.len(),
{
    let ms = v->Object_0;
    let w = set_at(v, parts, nv)->Ok_0;
    if j == 0 {
        let k = q[0];
        if parts.len() == 1 {
            let wm = obj_insert(ms, parts[0], nv);
            assert(w == Json::Object(wm));
            lemma_get_other(ms, parts[0], k, nv);
        } else {
            lemma_key_index(ms, parts[0]);
            let i = key_index(ms, parts[0])->Some_0;
            let c = set_at(ms[i].1, parts.drop_first(), nv)->Ok_0;
            let wm = ms.update(i, (ms[i].0, c));
            assert(w == Json::Object(wm));
            lemma_key_index(ms, k);
            match key_index(ms, k) {
                Some(l) => {
                    lemma_key_index_is(wm, k, l);
                },
                None => {
                    lemma_key_index_none(wm, k);
                },
            }
        }
    } else {
        assert(q[0] == q.take(j)[0]);
        assert(parts[0] == parts.take(j)[0]);
        lemma_key_index(ms, parts[0]);
        let i = key_index(ms, parts[0])->Some_0;
        let rest = parts.drop_first();
        let c = set_at(ms[i].1, rest, nv)->Ok_0;
        let ns = ms.update(i, (ms[i].0, c));
        assert forall|l: int| 0 <= l < i implies ns[l].0 != parts[0] by {}
        lemma_key_index_is(ns, parts[0], i);
        assert(q.drop_first().take(j - 1) =~= rest.take(j - 1)) by {
            assert forall|l: int| 0 <= l < j - 1 implies q.drop_first()[l] == rest[l] by {
                assert(q[l + 1] == q.take(j)[l + 1]);
                assert(parts[l + 1] == parts.take(j)[l + 1]);
            }
        }
        lemma_set_deep_frame(ms[i].1, rest, nv, q.drop_first(), j - 1);
    }
}

/// The path named in a patch error.
pub open spec fn patch_error_path(e: PatchError) -> Seq<char> {
    match e {
        PatchError::KeyNotFound { path, .. } => path@,
        PatchError::ExpectedObject { path, .. } => path@,
    }
}

impl PatchError {
    /// The error's message, as the tool reports it.
    pub fn message(&self) -> (r: String)
        ensures
            r@ == (match *self {
                PatchError::KeyNotFound { path, key } => "path `"@ + path@ + "`: key `"@ + key@
                    + "` not found"@,
                PatchError::ExpectedObject { path, key } => "path `"@ + path@
                    + "`: expected object at `"@ + key@ + "`"@,
            }),
    {
        let mut out = chars_of("path `");
        match self {
            PatchError::KeyNotFound { path, key } => {
                append(&mut out, &chars_of(path.as_str()));
                append(&mut out, &chars_of("`: key `"));
                append(&mut out, &chars_of(key.as_str()));
                append(&mut out, &chars_of("` not found"));
            },
            PatchError::ExpectedObject { path, key } => {
                append(&mut out, &chars_of(path.as_str()));
                append(&mut out, &chars_of("`: expected object at `"));
                append(&mut out, &chars_of(key.as_str()));
                append(&mut out, &chars_of("`"));
            },
        }
        string_of(&out)
    }
}

/// Sets the value at `parts[idx..]` inside `v`; gives back `v` unchanged on failure.
fn set_parts(v: JsonValue, parts: &Vec<Vec<char>>, idx: usize, nv: JsonValue, path: &String) -> (r: (
    JsonValue,
    Result<(), PatchError>,
))
    requires
        idx < parts.len(),
    ensures
        match set_at(json_view(v), seqs_of(parts@).skip(idx as int), json_view(nv)) {
            Ok(w) => r.1 is Ok && json_view(r.0) == w,
            Err(e) => r.1 matches Err(pe) && patch_error_view(pe) == e && patch_error_path(pe)
                == path@ && json_view(r.0) == json_view(v),
        },
    decreases parts.len() - idx,
{
    let ghost ps = seqs_of(parts@).skip(idx as int);
    assert(ps[0] == parts@[idx as int]@);
    let key = string_of(&parts[idx]);
    match v {
        JsonValue::Object(mut ms) => {
            proof {
                lemma_object_view(ms);
            }
            if idx + 1 == parts.len() {
                put_member(&mut ms, key, nv);
                proof {
                    lemma_object_view(ms);
                }
                (JsonValue::Object(ms), Ok(()))
            } else {
                proof {
                    assert(ps.drop_first() =~= seqs_of(parts@).skip(idx + 1));
                }
                match member_index(&ms, &key) {
                    Some(i) => {
                        let ghost before = ms@;
                        let (k, child) = ms.remove(i);
                        let ghost cv = json_view(child);
                        let (new_child, res) = set_parts(child, parts, idx + 1, nv, path);
                        let ghost ncv = json_view(new_child);
                        let ghost kv = k@;
                        ms.insert(i, (k, new_child));
                        match res {
                            Ok(()) => {
                                assert(members_view(ms@) =~= members_view(before).update(
                                    i as int,
                                    (kv, ncv),
                                ));
                                proof {
                                    lemma_object_view(ms);
                                }
                                (JsonValue::Object(ms), Ok(()))
                            },
                            Err(e) => {
                                assert(members_view(ms@) =~= members_view(before));
                                proof {
                                    lemma_object_view(ms);
                                }
                                (JsonValue::Object(ms), Err(e))
                            },
                        }
                    },
                    None => {
                        let err = PatchError::KeyNotFound { path: path.clone(), key };
                        (JsonValue::Object(ms), Err(err))
                    },
                }
            }
        },
        other => {
            let err = PatchError::ExpectedObject { path: path.clone(), key };
            (other, Err(err))
        },
    }
}

/// The segments of a dot path.
pub open spec fn path_parts(path: Seq<char>) -> Seq<Seq<char>> {
    split_on(path, '.')
}

/// Sets the value at dot path `path` (keys separated by `.`) in `root`. Every
/// segment but the last must name an existing member of an object; the last
/// is inserted into the object it reaches. On failure `root` is unchanged and
/// the error names the path and the failing segment.
pub fn set_dot_path(root: &mut JsonValue, path: &str, new_value: JsonValue) -> (r: Result<
    (),
    PatchError,
>)
    ensures
        match set_at(json_view(*old(root)), path_parts(path@), json_view(new_value)) {
            Ok(w) => r is Ok && json_view(*final(root)) == w,
            Err(e) => r matches Err(pe) && patch_error_view(pe) == e && patch_error_path(pe)
                == path@ && json_view(*final(root)) == json_view(*old(root)),
        },
{
    let path_chars = chars_of(path);
    let parts = split_chars(&path_chars, '.');
    let path_string = string_of(&path_chars);
    let mut v = JsonValue::Null;
    core::mem::swap(&mut v, root);
    assert(seqs_of(parts@).skip(0) =~= seqs_of(parts@));
    let (w, res) = set_parts(v, &parts, 0, new_value, &path_string);
    *root = w;
    res
}

/// Applies the updates `(path, value)` in order, stopping at the first that fails.
pub open spec fn apply_all(v: Json, updates: Seq<(Seq<char>, Json)>) -> Result<Json, PathFailure>
    decreases updates.len(),
{
    if updates.len() == 0 {
        Ok(v)
    } else {
        match apply_all(v, updates.drop_last()) {
            Ok(w) => set_at(w, path_parts(updates.last().0), updates.last().1),
            Err(e) => Err(e),
        }
    }
}

/// Applying updates whose values are well keyed to a well-keyed value gives a
/// well-keyed value: a patch never makes an object repeat a key.
pub proof fn lemma_apply_all_well_keyed(v: Json, updates: Seq<(Seq<char>, Json)>)
    requires
        well_keyed(v),
        forall|i: int| 0 <= i < updates.len() ==> well_keyed(#[trigger] updates[i].1),
        apply_all(v, updates) is Ok,
    ensures
        well_keyed(apply_all(v, updates)->Ok_0),
    decreases updates.len(),
{
    if updates.len() > 0 {
        let pre = updates.drop_last();
        assert forall|i: int| 0 <= i < pre.len() implies well_keyed(#[trigger] pre[i].1) by {
            assert(pre[i] == updates[i]);
        }
        lemma_apply_all_well_keyed(v, pre);
        assert(well_keyed(updates[updates.len() - 1].1));
        lemma_set_well_keyed(
            apply_all(v, pre)->Ok_0,
            path_parts(updates.last().0),
            updates.last().1,
        );
    }
}

/// One update of a patch response: an operation name, the dot path it
/// targets, the new value and the model's reason.
pub struct JsonBlockUpdate {
    pub op: String,
    pub path: String,
    pub value: JsonValue,
    pub reason: String,
}

/// The `(path, value)` pairs of a list of updates.
pub open spec fn updates_view(us: Seq<JsonBlockUpdate>) -> Seq<(Seq<char>, Json)> {
    Seq::new(us.len(), |i: int| (us[i].path@, json_view(us[i].value)))
}

/// Applies each update's value at its path, in order; the first failing
/// update stops the patch and its error is returned.
pub fn apply_json_updates(root: JsonValue, updates: &Vec<JsonBlockUpdate>) -> (r: Result<
    JsonValue,
    PatchError,
>)
    ensures
        match apply_all(json_view(root), updates_view(updates@)) {
            Ok(w) => r matches Ok(rv) && json_view(rv) == w,
            Err(e) => r matches Err(pe) && patch_error_view(pe) == e,
        },
        r matches Err(pe) ==> exists|i: int|
            0 <= i < updates@.len() && apply_all(json_view(root), updates_view(updates@).take(i))
                is Ok && #[trigger] apply_all(
                json_view(root),
                updates_view(updates@).take(i + 1),
            ) is Err && patch_error_path(pe) == updates@[i].path@,
{
    let mut cur = root;
    let mut i: usize = 0;
    let ghost uv = updates_view(updates@);
    while i < updates.len()
        invariant
            i <= updates.len(),
            uv == updates_view(updates@),
            apply_all(json_view(root), uv.take(i as int)) == Ok::<Json, PathFailure>(
                json_view(cur),
            ),
        decreases updates.len() - i,
    {
        let value = clone_json(&updates[i].value);
        let res = set_dot_path(&mut cur, updates[i].path.as_str(), value);
        proof {
            assert(uv.take(i + 1).drop_last() =~= uv.take(i as int));
            assert(uv.take(i + 1).last() == uv[i as int]);
        }
        match res {
            Ok(()) => {},
            Err(e) => {
                proof {
                    lemma_apply_all_stops(json_view(root), uv, i as int);
                    assert(apply_all(json_view(root), uv.take(i + 1)) is Err);
                }
                return Err(e);
            },
        }
        i = i + 1;
    }
    assert(uv.take(updates.len() as int) =~= uv);
    Ok(cur)
}

/// Once an update fails, applying more updates fails with the same error.
proof fn lemma_apply_all_stops(v: Json, us: Seq<(Seq<char>, Json)>, i: int)
    requires
        0 <= i < us.len(),
        apply_all(v, us.take(i + 1)) is Err,
    ensures
        apply_all(v, us) == apply_all(v, us.take(i + 1)),
    decreases us.len() - i,
{
    if i + 1 < us.len() {
        assert(us.take(i + 2).drop_last() =~= us.take(i + 1));
        lemma_apply_all_stops(v, us, i + 1);
    } else {
        assert(us.take(i + 1) =~= us);
    }
}

} // verus!
