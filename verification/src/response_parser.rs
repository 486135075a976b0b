//! Reading the model's replies: finding the JSON payload in a reply,
//! normalising the envelope of a generation response, checking patch updates,
//! and asking for a repair when a payload does not parse.
use vstd::prelude::*;

use crate::json::{
    parse_json, parsed_json, well_keyed, lemma_get_well_keyed, lemma_insert_well_keyed,
    lemma_remove_well_keyed,
    distinct_keys, lemma_get_inserted, lemma_insert_same, lemma_remove_gone,
    has_member, json_view, lemma_array_view, lemma_get_other, lemma_key_index, lemma_object_view,
    items_view, member_index, members_view, obj_get, obj_has, obj_insert, obj_remove, put_member,
    take_member, Json, JsonValue,
};
use crate::text::{
    contains, lemma_absent_in_subrange, lemma_trim_idempotent, lemma_trim_range, matches_at,
    append, chars_of, find, find_chars, lemma_find_from, lines, seqs_of,
    split_lines, string_of, strip_prefixes, strip_prefixes_chars,
    trim, trim_chars, trim_end, trim_end_chars, copy_range,
};

verus! {

/// An error of the generation pipeline, with its message.
pub struct GenerationError {
    pub message: String,
}

// ---------------------------------------------------------------------------
// JSON payload extraction
// ---------------------------------------------------------------------------

/// Where the first fence starts: a ```` ```json ```` fence if there is one,
/// else any ```` ``` ```` fence.
pub open spec fn fence_start(t: Seq<char>) -> Option<int> {
    match find(t, "```json"@) {
        Some(s) => Some(s),
        None => find(t, "```"@),
    }
}

/// The JSON payload of a reply: the reply trimmed, or, when it holds a code
/// fence anywhere, the trimmed text after the first fence marker up to the
/// closing fence (or the end).
pub open spec fn json_payload(raw: Seq<char>) -> Seq<char> {
    let t = trim(raw);
    match fence_start(t) {
        Some(st) => {
            let stripped = trim(strip_prefixes(strip_prefixes(t.skip(st), "```json"@), "```"@));
            match find(stripped, "```"@) {
                Some(e) => trim(stripped.take(e)),
                None => stripped,
            }
        },
        None => t,
    }
}

fn payload_chars(raw: &Vec<char>) -> (r: Vec<char>)
    ensures
        r@ == json_payload(raw@),
{
    let t = trim_chars(raw);
    let fence_json = chars_of("```json");
    let fence = chars_of("```");
    let start = match find_chars(&t, &fence_json) {
        Some(s) => Some(s),
        None => find_chars(&t, &fence),
    };
    match start {
        Some(st) => {
            proof {
                lemma_find_from(t@, fence_json@, 0);
                lemma_find_from(t@, fence@, 0);
            }
            let after = copy_range(&t, st, t.len());
            assert(after@ =~= t@.skip(st as int));
            let a = strip_prefixes_chars(&after, &fence_json);
            let b = strip_prefixes_chars(&a, &fence);
            let stripped = trim_chars(&b);
            match find_chars(&stripped, &fence) {
                Some(e) => {
                    proof {
                        lemma_find_from(stripped@, fence@, 0);
                    }
                    let head = copy_range(&stripped, 0, e);
                    assert(head@ =~= stripped@.take(e as int));
                    trim_chars(&head)
                },
                None => stripped,
            }
        },
        None => t,
    }
}

/// The JSON payload of a model reply: the part inside the first code fence
/// (```` ```json ```` preferred) when the reply has one, even after prose,
/// else the whole reply; trimmed either way. It never fails.
pub fn extract_json_payload(raw: &str) -> (r: Result<String, GenerationError>)
    ensures
        r matches Ok(s) && s@ == json_payload(raw@),
{
    Ok(string_of(&payload_chars(&chars_of(raw))))
}

/// A trimmed text without a ```` ``` ```` marker is its own payload.
proof fn lemma_fence_free_payload(p: Seq<char>)
    requires
        !contains(p, "```"@),
        trim(p) == p,
    ensures
        json_payload(p) == p,
{
    reveal_strlit("```");
    reveal_strlit("```json");
    lemma_find_from(p, "```"@, 0);
    lemma_find_from(p, "```json"@, 0);
    if let Some(k) = find(p, "```json"@) {
        assert(p.subrange(k, k + 3) =~= p.subrange(k, k + 7).subrange(0, 3));
        assert("```json"@.subrange(0, 3) =~= "```"@);
        assert(matches_at(p, "```"@, k));
    }
}

/// The payload taken from a reply never holds a ```` ``` ```` marker and is
/// trimmed, so taking the payload of a payload gives it back unchanged.
pub proof fn lemma_payload_fence_free(raw: Seq<char>)
    ensures
        !contains(json_payload(raw), "```"@),
        trim(json_payload(raw)) == json_payload(raw),
        json_payload(json_payload(raw)) == json_payload(raw),
{
    reveal_strlit("```");
    let t = trim(raw);
    let fence = "```"@;
    lemma_trim_idempotent(raw);
    match fence_start(t) {
        Some(st) => {
            let x = strip_prefixes(strip_prefixes(t.skip(st), "```json"@), fence);
            let stripped = trim(x);
            lemma_trim_idempotent(x);
            lemma_find_from(stripped, fence, 0);
            match find(stripped, fence) {
                Some(e) => {
                    let head = stripped.take(e);
                    lemma_find_from(head, fence, 0);
                    if let Some(k) = find(head, fence) {
                        assert(stripped.subrange(k, k + fence.len()) =~= head.subrange(
                            k,
                            k + fence.len(),
                        ));
                        assert(matches_at(stripped, fence, k));
                    }
                    assert(!contains(head, fence));
                    let r = lemma_trim_range(head);
                    lemma_absent_in_subrange(head, fence, r.0, r.1);
                    lemma_trim_idempotent(head);
                },
                None => {},
            }
        },
        None => {
            lemma_find_from(t, fence, 0);
        },
    }
    lemma_fence_free_payload(json_payload(raw));
}

/// The prompt that asks the model to repair a payload that did not parse.
pub open spec fn repair_prompt(
    stage_name: Seq<char>,
    schema_hint: Seq<char>,
    previous_payload: Seq<char>,
    parse_error: Seq<char>,
) -> Seq<char> {
    "Your "@ + stage_name + " JSON is invalid. Repair it.\nReturn JSON only, no markdown.\nRequired shape: "@
        + schema_hint + "\nParse error: "@ + parse_error + "\nInvalid payload:\n"@
        + previous_payload
}

/// Asks the model to repair an invalid payload of stage `stage_name`, naming
/// the expected shape, the parse error and the payload.
pub fn build_parse_repair_prompt(
    stage_name: &str,
    schema_hint: &str,
    previous_payload: &str,
    parse_error: &str,
) -> (r: String)
    ensures
        r@ == repair_prompt(stage_name@, schema_hint@, previous_payload@, parse_error@),
{
    let mut out = chars_of("Your ");
    append(&mut out, &chars_of(stage_name));
    append(
        &mut out,
        &chars_of(" JSON is invalid. Repair it.\nReturn JSON only, no markdown.\nRequired shape: "),
    );
    append(&mut out, &chars_of(schema_hint));
    append(&mut out, &chars_of("\nParse error: "));
    append(&mut out, &chars_of(parse_error));
    append(&mut out, &chars_of("\nInvalid payload:\n"));
    append(&mut out, &chars_of(previous_payload));
    string_of(&out)
}

// ---------------------------------------------------------------------------
// Envelope normalisation
// ---------------------------------------------------------------------------

/// The update paths whose values must be arrays of lines.
pub open spec fn is_array_path(p: Seq<char>) -> bool {
    ||| p == "handler.imports"@
    ||| p == "handler.stateVars"@
    ||| p == "handler.ghostVars"@
    ||| p == "handler.constructorBody"@
    ||| p == "invariantTest.imports"@
    ||| p == "invariantTest.stateVars"@
    ||| p == "invariantTest.setUpBody"@
}

/// The non-empty lines of a string, each without trailing whitespace, as JSON strings.
pub open spec fn line_items(ls: Seq<Seq<char>>) -> Seq<Json>
    decreases ls.len(),
{
    if ls.len() == 0 {
        seq![]
    } else {
        let prev = line_items(ls.drop_last());
        let t = trim_end(ls.last());
        if t.len() > 0 {
            prev.push(Json::Str(t))
        } else {
            prev
        }
    }
}

/// One bodies update with a newline-joined string value for an array path,
/// with that value split into an array of lines.
pub open spec fn normalized_update(u: Json) -> Json {
    match u {
        Json::Object(um) => {
            let path_is_array = match obj_get(um, "path"@) {
                Some(Json::Str(p)) => is_array_path(p),
                _ => false,
            };
            if path_is_array {
                match obj_get(um, "value"@) {
                    Some(Json::Str(s)) => Json::Object(
                        obj_insert(um, "value"@, Json::Array(line_items(lines(s)))),
                    ),
                    _ => u,
                }
            } else {
                u
            }
        },
        _ => u,
    }
}

/// The object with each bodies update normalised, when `bodies_updates` is an array.
pub open spec fn normalized_array_values(ms: Seq<(Seq<char>, Json)>) -> Seq<(Seq<char>, Json)> {
    match obj_get(ms, "bodies_updates"@) {
        Some(Json::Array(us)) => obj_insert(
            ms,
            "bodies_updates"@,
            Json::Array(us.map_values(|u: Json| normalized_update(u))),
        ),
        _ => ms,
    }
}

/// The object with a nested wrapper `w` removed and its keys `k1`, `k2` lifted to
/// the top level where they are absent there.
pub open spec fn lifted(
    ms: Seq<(Seq<char>, Json)>,
    w: Seq<char>,
    k1: Seq<char>,
    k2: Seq<char>,
) -> Seq<(Seq<char>, Json)> {
    match obj_get(ms, w) {
        None => ms,
        Some(inner) => {
            let m1 = obj_remove(ms, w);
            match inner {
                Json::Object(wm) => {
                    let m2 = if !obj_has(m1, k1) && obj_get(wm, k1) is Some {
                        obj_insert(m1, k1, obj_get(wm, k1)->Some_0)
                    } else {
                        m1
                    };
                    if !obj_has(m2, k2) && obj_get(wm, k2) is Some {
                        obj_insert(m2, k2, obj_get(wm, k2)->Some_0)
                    } else {
                        m2
                    }
                },
                _ => m1,
            }
        },
    }
}

/// The members of a response envelope after normalisation, by its `mode`.
pub open spec fn normalized_members(ms: Seq<(Seq<char>, Json)>) -> Seq<(Seq<char>, Json)> {
    let mode = obj_get(ms, "mode"@);
    if mode == Some(Json::Str("full"@)) {
        lifted(ms, "full"@, "bodies"@, "foundry_config"@)
    } else if mode == Some(Json::Str("patch"@)) {
        normalized_array_values(lifted(ms, "patch"@, "bodies_updates"@, "foundry_config_updates"@))
    } else {
        ms
    }
}

/// A response envelope after normalisation; anything but an object is unchanged.
pub open spec fn normalized(v: Json) -> Json {
    match v {
        Json::Object(ms) => Json::Object(normalized_members(ms)),
        _ => v,
    }
}

/// Lifting the keys of a wrapper keeps a well-keyed object well keyed.
pub proof fn lemma_lifted_well_keyed(
    ms: Seq<(Seq<char>, Json)>,
    w: Seq<char>,
    k1: Seq<char>,
    k2: Seq<char>,
)
    requires
        well_keyed(Json::Object(ms)),
    ensures
        well_keyed(Json::Object(lifted(ms, w, k1, k2))),
{
    if let Some(inner) = obj_get(ms, w) {
        lemma_get_well_keyed(ms, w);
        lemma_remove_well_keyed(ms, w);
        let m1 = obj_remove(ms, w);
        if let Json::Object(wm) = inner {
            lemma_get_well_keyed(wm, k1);
            lemma_get_well_keyed(wm, k2);
            if !obj_has(m1, k1) && obj_get(wm, k1) is Some {
                lemma_insert_well_keyed(m1, k1, obj_get(wm, k1)->Some_0);
            }
            let m2 = if !obj_has(m1, k1) && obj_get(wm, k1) is Some {
                obj_insert(m1, k1, obj_get(wm, k1)->Some_0)
            } else {
                m1
            };
            if !obj_has(m2, k2) && obj_get(wm, k2) is Some {
                lemma_insert_well_keyed(m2, k2, obj_get(wm, k2)->Some_0);
            }
        }
    }
}

/// The items split from a string are strings.
proof fn lemma_line_items_strings(ls: Seq<Seq<char>>)
    ensures
        forall|i: int| 0 <= i < line_items(ls).len() ==> #[trigger] line_items(ls)[i] is Str,
    decreases ls.len(),
{
    if ls.len() > 0 {
        lemma_line_items_strings(ls.drop_last());
    }
}

/// Normalising a bodies update keeps it well keyed.
proof fn lemma_update_well_keyed(u: Json)
    requires
        well_keyed(u),
    ensures
        well_keyed(normalized_update(u)),
{
    if let Json::Object(um) = u {
        if let Some(Json::Str(s)) = obj_get(um, "value"@) {
            let items = line_items(lines(s));
            lemma_line_items_strings(lines(s));
            assert forall|i: int| 0 <= i < items.len() implies well_keyed(#[trigger] items[i]) by {
                assert(items[i] is Str);
            }
            assert(well_keyed(Json::Array(items)));
            lemma_insert_well_keyed(um, "value"@, Json::Array(items));
        }
    }
}

/// Splitting the array values of the bodies updates keeps an object well keyed.
proof fn lemma_array_values_well_keyed(ms: Seq<(Seq<char>, Json)>)
    requires
        well_keyed(Json::Object(ms)),
    ensures
        well_keyed(Json::Object(normalized_array_values(ms))),
{
    lemma_get_well_keyed(ms, "bodies_updates"@);
    if let Some(Json::Array(us)) = obj_get(ms, "bodies_updates"@) {
        let nus = us.map_values(|u: Json| normalized_update(u));
        assert forall|i: int| 0 <= i < nus.len() implies well_keyed(#[trigger] nus[i]) by {
            assert(well_keyed(us[i]));
            lemma_update_well_keyed(us[i]);
        }
        assert(well_keyed(Json::Array(nus)));
        lemma_insert_well_keyed(ms, "bodies_updates"@, Json::Array(nus));
    }
}

/// Normalising an envelope in which no object repeats a key (as in every
/// parsed reply) gives one in which no object repeats a key.
pub proof fn lemma_normalized_well_keyed(v: Json)
    requires
        well_keyed(v),
    ensures
        well_keyed(normalized(v)),
{
    if let Json::Object(ms) = v {
        lemma_lifted_well_keyed(ms, "full"@, "bodies"@, "foundry_config"@);
        lemma_lifted_well_keyed(ms, "patch"@, "bodies_updates"@, "foundry_config_updates"@);
        lemma_array_values_well_keyed(lifted(ms, "patch"@, "bodies_updates"@, "foundry_config_updates"@));
    }
}

/// Normalising a bodies update twice is normalising it once.
proof fn lemma_update_settled(u: Json)
    ensures
        normalized_update(normalized_update(u)) == normalized_update(u),
{
    reveal_strlit("path");
    reveal_strlit("value");
    assert("value"@.len() != "path"@.len());
    match u {
        Json::Object(um) => {
            if let Some(Json::Str(p)) = obj_get(um, "path"@) {
                if is_array_path(p) {
                    if let Some(Json::Str(t)) = obj_get(um, "value"@) {
                        let nv = Json::Array(line_items(lines(t)));
                        lemma_get_other(um, "value"@, "path"@, nv);
                        lemma_get_inserted(um, "value"@, nv);
                    }
                }
            }
        },
        _ => {},
    }
}

/// Normalising the bodies updates twice is normalising them once.
proof fn lemma_array_values_settled(ms: Seq<(Seq<char>, Json)>)
    ensures
        normalized_array_values(normalized_array_values(ms)) == normalized_array_values(ms),
{
    if let Some(Json::Array(us)) = obj_get(ms, "bodies_updates"@) {
        let us1 = us.map_values(|u: Json| normalized_update(u));
        let ms1 = obj_insert(ms, "bodies_updates"@, Json::Array(us1));
        lemma_get_inserted(ms, "bodies_updates"@, Json::Array(us1));
        assert forall|i: int| 0 <= i < us1.len() implies #[trigger] normalized_update(us1[i])
            == us1[i] by {
            lemma_update_settled(us[i]);
        }
        assert(us1.map_values(|u: Json| normalized_update(u)) =~= us1);
        lemma_insert_same(ms1, "bodies_updates"@, Json::Array(us1));
    }
}

/// Lifting wrapper `w` leaves no `w` behind, keeps any key `other` outside the
/// three, and a second lift changes nothing.
pub(crate) proof fn lemma_lifted_settled(
    ms: Seq<(Seq<char>, Json)>,
    w: Seq<char>,
    k1: Seq<char>,
    k2: Seq<char>,
    other: Seq<char>,
)
    requires
        distinct_keys(ms),
        w != k1,
        w != k2,
        k1 != k2,
        other != w,
        other != k1,
        other != k2,
    ensures
        obj_get(lifted(ms, w, k1, k2), w) is None,
        obj_get(lifted(ms, w, k1, k2), other) == obj_get(ms, other),
        lifted(lifted(ms, w, k1, k2), w, k1, k2) == lifted(ms, w, k1, k2),
{
    if let Some(inner) = obj_get(ms, w) {
        let m1 = obj_remove(ms, w);
        lemma_remove_gone(ms, w);
        lemma_get_other(ms, w, other, Json::Null);
        if let Json::Object(wm) = inner {
            let m2 = if !obj_has(m1, k1) && obj_get(wm, k1) is Some {
                obj_insert(m1, k1, obj_get(wm, k1)->Some_0)
            } else {
                m1
            };
            lemma_get_other(m1, k1, w, obj_get(wm, k1)->Some_0);
            lemma_get_other(m1, k1, other, obj_get(wm, k1)->Some_0);
            lemma_get_other(m2, k2, w, obj_get(wm, k2)->Some_0);
            lemma_get_other(m2, k2, other, obj_get(wm, k2)->Some_0);
        }
    }
}

/// What key `k` holds after wrapper `w` is lifted: its own top-level value
/// when it has one, else the wrapper's value for `k`.
pub open spec fn lifted_value(ms: Seq<(Seq<char>, Json)>, w: Seq<char>, k: Seq<char>) -> Option<
    Json,
> {
    if obj_has(ms, k) {
        obj_get(ms, k)
    } else {
        match obj_get(ms, w) {
            Some(Json::Object(wm)) => obj_get(wm, k),
            _ => None,
        }
    }
}

/// Lifting wrapper `w` removes it, gives each lifted key its
/// [`lifted_value`], and leaves every other key as it was.
pub proof fn lemma_lifted_keys(
    ms: Seq<(Seq<char>, Json)>,
    w: Seq<char>,
    k1: Seq<char>,
    k2: Seq<char>,
    k: Seq<char>,
)
    requires
        distinct_keys(ms),
        w != k1,
        w != k2,
        k1 != k2,
    ensures
        obj_get(lifted(ms, w, k1, k2), w) is None,
        (k == k1 || k == k2) ==> obj_get(lifted(ms, w, k1, k2), k) == lifted_value(ms, w, k),
        (k != w && k != k1 && k != k2) ==> obj_get(lifted(ms, w, k1, k2), k) == obj_get(ms, k),
{
    if k != w && k != k1 && k != k2 {
        lemma_lifted_settled(ms, w, k1, k2, k);
    }
    if let Some(inner) = obj_get(ms, w) {
        let m1 = obj_remove(ms, w);
        lemma_remove_gone(ms, w);
        lemma_get_other(ms, w, k1, Json::Null);
        lemma_get_other(ms, w, k2, Json::Null);
        if let Json::Object(wm) = inner {
            let v1 = obj_get(wm, k1)->Some_0;
            let v2 = obj_get(wm, k2)->Some_0;
            let m2 = if !obj_has(m1, k1) && obj_get(wm, k1) is Some {
                obj_insert(m1, k1, v1)
            } else {
                m1
            };
            lemma_get_inserted(m1, k1, v1);
            lemma_get_other(m1, k1, k2, v1);
            lemma_get_other(m1, k1, w, v1);
            lemma_get_inserted(m2, k2, v2);
            lemma_get_other(m2, k2, k1, v2);
            lemma_get_other(m2, k2, w, v2);
        }
    }
}

/// Normalising an envelope with distinct keys, key by key: anything but an
/// object, or an object whose `mode` is neither `full` nor `patch`, is left
/// as it is. For `full`, the `full` wrapper is gone, `bodies` and
/// `foundry_config` take their [`lifted_value`], and every other key keeps its
/// value. For `patch`, the `patch` wrapper is gone, `foundry_config_updates`
/// takes its lifted value, `bodies_updates` takes its lifted value with each
/// update of an array normalised, and every other key keeps its value.
pub proof fn lemma_normalized_keys(v: Json, k: Seq<char>)
    requires
        v matches Json::Object(ms) ==> distinct_keys(ms),
    ensures
        match v {
            Json::Object(ms) => {
                let n = normalized_members(ms);
                let mode = obj_get(ms, "mode"@);
                &&& mode == Some(Json::Str("full"@)) ==> {
                    &&& obj_get(n, "full"@) is None
                    &&& (k == "bodies"@ || k == "foundry_config"@) ==> obj_get(n, k)
                        == lifted_value(ms, "full"@, k)
                    &&& (k != "full"@ && k != "bodies"@ && k != "foundry_config"@) ==> obj_get(n, k)
                        == obj_get(ms, k)
                }
                &&& mode == Some(Json::Str("patch"@)) ==> {
                    &&& obj_get(n, "patch"@) is None
                    &&& k == "foundry_config_updates"@ ==> obj_get(n, k) == lifted_value(
                        ms,
                        "patch"@,
                        k,
                    )
                    &&& k == "bodies_updates"@ ==> obj_get(n, k) == match lifted_value(
                        ms,
                        "patch"@,
                        k,
                    ) {
                        Some(Json::Array(us)) => Some(
                            Json::Array(us.map_values(|u: Json| normalized_update(u))),
                        ),
                        other => other,
                    }
                    &&& (k != "patch"@ && k != "bodies_updates"@ && k != "foundry_config_updates"@)
                        ==> obj_get(n, k) == obj_get(ms, k)
                }
                &&& (mode != Some(Json::Str("full"@)) && mode != Some(Json::Str("patch"@)))
                    ==> normalized(v) == v
            },
            _ => normalized(v) == v,
        },
{
    reveal_strlit("full");
    reveal_strlit("bodies");
    reveal_strlit("foundry_config");
    reveal_strlit("patch");
    reveal_strlit("bodies_updates");
    reveal_strlit("foundry_config_updates");
    assert("full"@.len() != "bodies"@.len());
    assert("full"@.len() != "foundry_config"@.len());
    assert("bodies"@.len() != "foundry_config"@.len());
    assert("patch"@.len() != "bodies_updates"@.len());
    assert("patch"@.len() != "foundry_config_updates"@.len());
    assert("bodies_updates"@.len() != "foundry_config_updates"@.len());
    if let Json::Object(ms) = v {
        let mode = obj_get(ms, "mode"@);
        if mode == Some(Json::Str("full"@)) {
            lemma_lifted_keys(ms, "full"@, "bodies"@, "foundry_config"@, k);
        } else if mode == Some(Json::Str("patch"@)) {
            let w = "patch"@;
            let bu = "bodies_updates"@;
            let l = lifted(ms, w, bu, "foundry_config_updates"@);
            lemma_lifted_keys(ms, w, bu, "foundry_config_updates"@, k);
            lemma_lifted_keys(ms, w, bu, "foundry_config_updates"@, bu);
            if let Some(Json::Array(us)) = obj_get(l, bu) {
                let nv = Json::Array(us.map_values(|u: Json| normalized_update(u)));
                lemma_get_inserted(l, bu, nv);
                lemma_get_other(l, bu, w, nv);
                if k != bu {
                    lemma_get_other(l, bu, k, nv);
                }
            }
        }
    }
}

/// Normalising a response envelope twice gives what normalising it once
/// gives, for an object whose keys are distinct (as a parsed JSON object's
/// are).
pub proof fn lemma_normalize_settled(v: Json)
    requires
        v matches Json::Object(ms) ==> distinct_keys(ms),
    ensures
        normalized(normalized(v)) == normalized(v),
{
    reveal_strlit("mode");
    reveal_strlit("full");
    reveal_strlit("bodies");
    reveal_strlit("foundry_config");
    reveal_strlit("patch");
    reveal_strlit("bodies_updates");
    reveal_strlit("foundry_config_updates");
    assert("mode"@[0] != "full"@[0]);
    assert("mode"@.len() != "bodies"@.len());
    assert("mode"@.len() != "foundry_config"@.len());
    assert("mode"@.len() != "patch"@.len());
    assert("mode"@.len() != "bodies_updates"@.len());
    assert("mode"@.len() != "foundry_config_updates"@.len());
    assert("full"@.len() != "bodies"@.len());
    assert("full"@.len() != "foundry_config"@.len());
    assert("bodies"@.len() != "foundry_config"@.len());
    assert("patch"@.len() != "bodies_updates"@.len());
    assert("patch"@.len() != "foundry_config_updates"@.len());
    assert("bodies_updates"@.len() != "foundry_config_updates"@.len());
    if let Json::Object(ms) = v {
        let mode = obj_get(ms, "mode"@);
        if mode == Some(Json::Str("full"@)) {
            lemma_lifted_settled(ms, "full"@, "bodies"@, "foundry_config"@, "mode"@);
        } else if mode == Some(Json::Str("patch"@)) {
            let l = lifted(ms, "patch"@, "bodies_updates"@, "foundry_config_updates"@);
            lemma_lifted_settled(ms, "patch"@, "bodies_updates"@, "foundry_config_updates"@, "mode"@);
            let n = normalized_array_values(l);
            if let Some(Json::Array(us)) = obj_get(l, "bodies_updates"@) {
                let nv = Json::Array(us.map_values(|u: Json| normalized_update(u)));
                lemma_get_other(l, "bodies_updates"@, "mode"@, nv);
                lemma_get_other(l, "bodies_updates"@, "patch"@, nv);
            }
            assert(lifted(n, "patch"@, "bodies_updates"@, "foundry_config_updates"@) == n);
            lemma_array_values_settled(l);
        }
    }
}

pub(crate) fn key(s: &str) -> (r: String)
    ensures
        r@ == s@,
{
    string_of(&chars_of(s))
}

fn same_chars(a: &Vec<char>, b: &Vec<char>) -> (r: bool)
    ensures
        r == (a@ == b@),
{
    if a.len() != b.len() {
        return false;
    }
    let mut i: usize = 0;
    while i < a.len()
        invariant
            a.len() == b.len(),
            i <= a.len(),
            forall|k: int| 0 <= k < i ==> a@[k] == b@[k],
        decreases a.len() - i,
    {
        if a[i] != b[i] {
            return false;
        }
        i = i + 1;
    }
    assert(a@ =~= b@);
    true
}

fn is_array_path_chars(p: &Vec<char>) -> (r: bool)
    ensures
        r == is_array_path(p@),
{
    same_chars(p, &chars_of("handler.imports")) || same_chars(p, &chars_of("handler.stateVars"))
        || same_chars(p, &chars_of("handler.ghostVars")) || same_chars(
        p,
        &chars_of("handler.constructorBody"),
    ) || same_chars(p, &chars_of("invariantTest.imports")) || same_chars(
        p,
        &chars_of("invariantTest.stateVars"),
    ) || same_chars(p, &chars_of("invariantTest.setUpBody"))
}

/// Whether member `k` holds a string equal to `expected`.
pub(crate) fn member_is_str(ms: &Vec<(String, JsonValue)>, k: &String, expected: &str) -> (r: bool)
    ensures
        r == (obj_get(members_view(ms@), k@) == Some(Json::Str(expected@))),
{
    match member_index(ms, k) {
        Some(i) => match &ms[i].1 {
            JsonValue::String(s) => same_chars(&chars_of(s.as_str()), &chars_of(expected)),
            _ => false,
        },
        None => false,
    }
}

fn split_into_items(s: &String) -> (r: Vec<JsonValue>)
    ensures
        items_view(r@) == line_items(lines(s@)),
{
    let ls = split_lines(&chars_of(s.as_str()));
    let ghost all = seqs_of(ls@);
    let mut r: Vec<JsonValue> = Vec::new();
    let mut i: usize = 0;
    while i < ls.len()
        invariant
            i <= ls.len(),
            all == seqs_of(ls@),
            items_view(r@) == line_items(all.take(i as int)),
        decreases ls.len() - i,
    {
        let t = trim_end_chars(&ls[i]);
        let ghost before = items_view(r@);
        proof {
            assert(all.take(i + 1).drop_last() =~= all.take(i as int));
            assert(all.take(i + 1).last() == ls@[i as int]@);
        }
        if t.len() > 0 {
            r.push(JsonValue::String(string_of(&t)));
            assert(items_view(r@) =~= before.push(Json::Str(t@)));
        }
        i = i + 1;
    }
    assert(all.take(ls.len() as int) =~= all);
    r
}

fn normalize_update(u: JsonValue) -> (r: JsonValue)
    ensures
        json_view(r) == normalized_update(json_view(u)),
{
    match u {
        JsonValue::Object(mut um) => {
            proof {
                lemma_object_view(um);
            }
            let path_key = key("path");
            let value_key = key("value");
            let path_is_array = match member_index(&um, &path_key) {
                Some(i) => match &um[i].1 {
                    JsonValue::String(p) => is_array_path_chars(&chars_of(p.as_str())),
                    _ => false,
                },
                None => false,
            };
            if path_is_array {
                match member_index(&um, &value_key) {
                    Some(i) => {
                        let items = match &um[i].1 {
                            JsonValue::String(s) => Some(split_into_items(s)),
                            _ => None,
                        };
                        match items {
                            Some(items) => {
                                proof {
                                    lemma_array_view(items);
                                }
                                put_member(&mut um, value_key, JsonValue::Array(items));
                                proof {
                                    lemma_object_view(um);
                                }
                                JsonValue::Object(um)
                            },
                            None => JsonValue::Object(um),
                        }
                    },
                    None => JsonValue::Object(um),
                }
            } else {
                JsonValue::Object(um)
            }
        },
        other => other,
    }
}

fn normalize_array_values(ms: &mut Vec<(String, JsonValue)>)
    ensures
        members_view(final(ms)@) == normalized_array_values(members_view(old(ms)@)),
{
    let k = key("bodies_updates");
    match member_index(ms, &k) {
        Some(i) => {
            let ghost before = ms@;
            proof {
                lemma_key_index(members_view(before), k@);
            }
            let (name, value) = ms.remove(i);
            match value {
                JsonValue::Array(us) => {
                    proof {
                        lemma_array_view(us);
                    }
                    let ghost uv = items_view(us@);
                    let mut out: Vec<JsonValue> = Vec::new();
                    let mut rest = us;
                    let mut j: usize = 0;
                    let total: usize = rest.len();
                    while rest.len() > 0
                        invariant
                            j + rest@.len() == total,
                            total == uv.len(),
                            out@.len() == j,
                            forall|l: int|
                                0 <= l < j ==> json_view(#[trigger] out@[l]) == normalized_update(
                                    uv[l],
                                ),
                            forall|l: int|
                                0 <= l < rest@.len() ==> json_view(#[trigger] rest@[l]) == uv[j
                                    + l],
                        decreases rest@.len(),
                    {
                        let u = rest.remove(0);
                        out.push(normalize_update(u));
                        j = j + 1;
                    }
                    proof {
                        lemma_array_view(out);
                        assert(items_view(out@) =~= uv.map_values(
                            |u: Json| normalized_update(u),
                        ));
                    }
                    let ghost nv = json_view(JsonValue::Array(out));
                    let ghost kv = name@;
                    ms.insert(i, (name, JsonValue::Array(out)));
                    assert(members_view(ms@) =~= members_view(before).update(i as int, (kv, nv)));
                },
                other => {
                    ms.insert(i, (name, other));
                    assert(members_view(ms@) =~= members_view(before));
                },
            }
        },
        None => {},
    }
}

/// Removes wrapper `w` and lifts its keys `k1`, `k2` where absent at the top.
pub(crate) fn lift(ms: &mut Vec<(String, JsonValue)>, w: &str, k1: &str, k2: &str)
    requires
        w@ != k1@,
        w@ != k2@,
        k1@ != k2@,
    ensures
        members_view(final(ms)@) == lifted(members_view(old(ms)@), w@, k1@, k2@),
{
    let wk = key(w);
    let key1 = key(k1);
    let key2 = key(k2);
    match take_member(ms, &wk) {
        None => {},
        Some(inner) => match inner {
            JsonValue::Object(mut wm) => {
                proof {
                    lemma_object_view(wm);
                }
                let ghost wv = members_view(wm@);
                let ghost m1 = members_view(ms@);
                if !has_member(ms, &key1) {
                    match take_member(&mut wm, &key1) {
                        Some(b) => {
                            put_member(ms, key1, b);
                        },
                        None => {},
                    }
                }
                let ghost m2 = members_view(ms@);
                proof {
                    lemma_get_other(wv, k1@, k2@, Json::Null);
                    lemma_get_other(m1, k1@, k2@, obj_get(wv, k1@)->Some_0);
                }
                if !has_member(ms, &key2) {
                    match take_member(&mut wm, &key2) {
                        Some(c) => {
                            put_member(ms, key2, c);
                        },
                        None => {},
                    }
                }
            },
            _ => {},
        },
    }
}

/// Puts a response envelope in the canonical shape: for `mode: "full"`, keys
/// nested under `full` (`bodies`, `foundry_config`) move to the top level; for
/// `mode: "patch"`, keys nested under `patch` (`bodies_updates`,
/// `foundry_config_updates`) move up, and bodies updates of array paths whose
/// value is a newline-joined string get that value split into lines. A key
/// already at the top level is kept.
pub fn normalize_envelope(value: &mut JsonValue)
    ensures
        json_view(*final(value)) == normalized(json_view(*old(value))),
{
    let mut v = JsonValue::Null;
    core::mem::swap(&mut v, value);
    match v {
        JsonValue::Object(mut ms) => {
            proof {
                lemma_object_view(ms);
            }
            let mode_key = key("mode");
            proof {
                reveal_strlit("full");
                reveal_strlit("bodies");
                reveal_strlit("foundry_config");
                reveal_strlit("patch");
                reveal_strlit("bodies_updates");
                reveal_strlit("foundry_config_updates");
                assert("full"@.len() == 4);
                assert("bodies"@.len() == 6);
                assert("foundry_config"@.len() == 14);
                assert("patch"@.len() == 5);
                assert("bodies_updates"@.len() == 14);
                assert("bodies_updates"@[0] != "foundry_config_updates"@[0]);
            }
            if member_is_str(&ms, &mode_key, "full") {
                lift(&mut ms, "full", "bodies", "foundry_config");
            } else if member_is_str(&ms, &mode_key, "patch") {
                lift(&mut ms, "patch", "bodies_updates", "foundry_config_updates");
                normalize_array_values(&mut ms);
            }
            proof {
                lemma_object_view(ms);
            }
            *value = JsonValue::Object(ms);
        },
        other => {
            *value = other;
        },
    }
}

/// Splits newline-joined string values of array-path bodies updates into
/// arrays of their non-empty lines (trailing whitespace removed).
pub fn normalize_array_patch_values(obj: &mut Vec<(String, JsonValue)>)
    ensures
        members_view(final(obj)@) == normalized_array_values(members_view(old(obj)@)),
{
    normalize_array_values(obj)
}


/// The message for a payload that is not JSON.
pub open spec fn unparsed_message(payload: Seq<char>) -> Seq<char> {
    "failed to parse structured response: "@ + payload
}

/// Parses a round's payload as JSON and normalises its envelope; a payload
/// that is not JSON gives the error that names it.
pub fn normalized_payload(payload: &str) -> (r: Result<JsonValue, GenerationError>)
    ensures
        match parsed_json(payload@) {
            Some(j) => r matches Ok(v) && json_view(v) == normalized(j) && well_keyed(j)
                && well_keyed(json_view(v)),
            None => r matches Err(e) && e.message@ == unparsed_message(payload@),
        },
{
    match parse_json(payload) {
        Some(mut v) => {
            proof {
                lemma_normalized_well_keyed(json_view(v));
            }
            normalize_envelope(&mut v);
            Ok(v)
        },
        None => {
            let mut msg = chars_of("failed to parse structured response: ");
            append(&mut msg, &chars_of(payload));
            Err(GenerationError { message: string_of(&msg) })
        },
    }
}

} // verus!
