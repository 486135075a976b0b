//! The decisions of the generation stages: token accounting, checks on the
//! model's artifacts and patches, narrowing the bodies a patch round needs,
//! and when a stage asks for a repair or gives up.
use vstd::prelude::*;

use crate::interfaces::{BodiesJson, BodiesMeta, HandlerBodies, InvariantTestBodies};
use crate::json::{json_view, updates_view, Json, JsonBlockUpdate};
use crate::ordered_map::{
    has_key, ordered_entries, ordered_map_contains_key, ordered_map_get_index, ordered_map_insert,
    ordered_map_len, ordered_map_new, entry_index,
};
use crate::response_parser::{repair_prompt, GenerationError};
use crate::text::{
    append, chars_of, contains, contains_chars, copy_range, decimal, decimal_chars, join,
    join_chars, seqs_of, starts_with, starts_with_chars, string_of, trim, trim_chars, trim_start,
    trim_start_chars,
};
use crate::fuzz_output_parser::strings_view;

verus! {

// ---------------------------------------------------------------------------
// Token usage
// ---------------------------------------------------------------------------

/// Token counts of one or more model calls.
#[derive(Clone, Copy, Debug)]
pub struct GenerationUsage {
    pub calls: u64,
    pub prompt_tokens: u64,
    pub completion_tokens: u64,
    pub total_tokens: u64,
    pub cached_prompt_tokens: u64,
    pub reasoning_tokens: u64,
    pub thinking_tokens: u64,
}

impl Default for GenerationUsage {
    fn default() -> (r: Self)
        ensures
            r == (GenerationUsage {
                calls: 0,
                prompt_tokens: 0,
                completion_tokens: 0,
                total_tokens: 0,
                cached_prompt_tokens: 0,
                reasoning_tokens: 0,
                thinking_tokens: 0,
            }),
    {
        GenerationUsage {
            calls: 0,
            prompt_tokens: 0,
            completion_tokens: 0,
            total_tokens: 0,
            cached_prompt_tokens: 0,
            reasoning_tokens: 0,
            thinking_tokens: 0,
        }
    }
}

/// `a + b`, capped at `u64::MAX`.
pub open spec fn sat_add(a: u64, b: u64) -> u64 {
    if a + b > u64::MAX {
        u64::MAX
    } else {
        (a + b) as u64
    }
}

/// Each count of `total` plus the one of `u`, capped at `u64::MAX`.
pub open spec fn usage_sum(total: GenerationUsage, u: GenerationUsage) -> GenerationUsage {
    GenerationUsage {
        calls: sat_add(total.calls, u.calls),
        prompt_tokens: sat_add(total.prompt_tokens, u.prompt_tokens),
        completion_tokens: sat_add(total.completion_tokens, u.completion_tokens),
        total_tokens: sat_add(total.total_tokens, u.total_tokens),
        cached_prompt_tokens: sat_add(total.cached_prompt_tokens, u.cached_prompt_tokens),
        reasoning_tokens: sat_add(total.reasoning_tokens, u.reasoning_tokens),
        thinking_tokens: sat_add(total.thinking_tokens, u.thinking_tokens),
    }
}

/// A reported count, or 0 when the provider did not report it.
pub open spec fn count_or_zero(n: Option<u32>) -> u64 {
    match n {
        Some(k) => k as u64,
        None => 0,
    }
}

impl GenerationUsage {
    /// The usage of one model call from the counts its reply carried: one call,
    /// the prompt, completion and total tokens, and the cached, reasoning and
    /// thinking tokens where the provider reported them (0 where it did not).
    pub fn of_call(
        prompt_tokens: u32,
        completion_tokens: u32,
        total_tokens: u32,
        cached_prompt_tokens: Option<u32>,
        reasoning_tokens: Option<u32>,
        thinking_tokens: Option<u32>,
    ) -> (r: GenerationUsage)
        ensures
            r == (GenerationUsage {
                calls: 1,
                prompt_tokens: prompt_tokens as u64,
                completion_tokens: completion_tokens as u64,
                total_tokens: total_tokens as u64,
                cached_prompt_tokens: count_or_zero(cached_prompt_tokens),
                reasoning_tokens: count_or_zero(reasoning_tokens),
                thinking_tokens: count_or_zero(thinking_tokens),
            }),
    {
        let cached: u64 = match cached_prompt_tokens {
            Some(k) => k as u64,
            None => 0,
        };
        let reasoning: u64 = match reasoning_tokens {
            Some(k) => k as u64,
            None => 0,
        };
        let thinking: u64 = match thinking_tokens {
            Some(k) => k as u64,
            None => 0,
        };
        GenerationUsage {
            calls: 1,
            prompt_tokens: prompt_tokens as u64,
            completion_tokens: completion_tokens as u64,
            total_tokens: total_tokens as u64,
            cached_prompt_tokens: cached,
            reasoning_tokens: reasoning,
            thinking_tokens: thinking,
        }
    }
}

/// Whether a patch response has artifacts to patch: it needs the existing
/// bodies and the existing config, and names the first that is missing.
pub fn check_patch_base(has_existing_bodies: bool, has_existing_config: bool) -> (r: Result<
    (),
    GenerationError,
>)
    ensures
        r is Ok <==> has_existing_bodies && has_existing_config,
        !has_existing_bodies ==> (r matches Err(e) && e.message@
            == "received Patch response on round 1 \u{2014} no existing bodies"@),
        has_existing_bodies && !has_existing_config ==> (r matches Err(e) && e.message@
            == "received Patch response on round 1 \u{2014} no existing config"@),
{
    if !has_existing_bodies {
        return Err(
            GenerationError {
                message: string_of(
                    &chars_of("received Patch response on round 1 \u{2014} no existing bodies"),
                ),
            },
        );
    }
    if !has_existing_config {
        return Err(
            GenerationError {
                message: string_of(
                    &chars_of("received Patch response on round 1 \u{2014} no existing config"),
                ),
            },
        );
    }
    Ok(())
}

/// Merging usage never lowers a count: each count of the total after a merge
/// is at least the count before.
pub proof fn lemma_merge_usage_monotone(total: GenerationUsage, u: GenerationUsage)
    ensures
        usage_sum(total, u).calls >= total.calls,
        usage_sum(total, u).prompt_tokens >= total.prompt_tokens,
        usage_sum(total, u).completion_tokens >= total.completion_tokens,
        usage_sum(total, u).total_tokens >= total.total_tokens,
        usage_sum(total, u).cached_prompt_tokens >= total.cached_prompt_tokens,
        usage_sum(total, u).reasoning_tokens >= total.reasoning_tokens,
        usage_sum(total, u).thinking_tokens >= total.thinking_tokens,
{
}

/// The order of merges does not matter: merging `a` then `b` gives the same
/// total as merging `b` then `a`, saturation included.
pub proof fn lemma_merge_usage_commutes(total: GenerationUsage, a: GenerationUsage, b: GenerationUsage)
    ensures
        usage_sum(usage_sum(total, a), b) == usage_sum(usage_sum(total, b), a),
{
}

// ---------------------------------------------------------------------------
// Stage attempts
// ---------------------------------------------------------------------------

/// How many times a stage asks the model before giving up.
pub const MAX_ATTEMPTS: usize = 2;

/// What a stage does after an attempt whose payload did not parse or validate.
pub enum AttemptStep {
    /// Ask again with this repair prompt.
    Retry { prompt: String },
    /// Give up with this error.
    GiveUp { error: GenerationError },
}

/// The message of a stage that gave up.
pub open spec fn stage_failure(stage_name: Seq<char>, last_error: Seq<char>) -> Seq<char> {
    stage_name + " failed after "@ + decimal(MAX_ATTEMPTS as nat) + " attempts: "@ + last_error
}

/// After failed attempt number `attempt` (counting from 1) of stage
/// `stage_name`: before the last attempt, ask for a repair of `payload` naming
/// `error`; at the last, give up with the stage name, the number of attempts
/// and the error.
pub fn after_failed_attempt(
    stage_name: &str,
    schema_hint: &str,
    attempt: usize,
    payload: &str,
    error: &str,
) -> (r: AttemptStep)
    requires
        1 <= attempt <= MAX_ATTEMPTS,
    ensures
        attempt < MAX_ATTEMPTS ==> (r matches AttemptStep::Retry { prompt } && prompt@
            == repair_prompt(stage_name@, schema_hint@, payload@, error@)),
        attempt == MAX_ATTEMPTS ==> (r matches AttemptStep::GiveUp { error: e } && e.message@
            == stage_failure(stage_name@, error@)),
{
    if attempt < MAX_ATTEMPTS {
        AttemptStep::Retry {
            prompt: crate::response_parser::build_parse_repair_prompt(
                stage_name,
                schema_hint,
                payload,
                error,
            ),
        }
    } else {
        let mut out = chars_of(stage_name);
        append(&mut out, &chars_of(" failed after "));
        append(&mut out, &decimal_chars(MAX_ATTEMPTS as u64));
        append(&mut out, &chars_of(" attempts: "));
        append(&mut out, &chars_of(error));
        AttemptStep::GiveUp { error: GenerationError { message: string_of(&out) } }
    }
}

// ---------------------------------------------------------------------------
// Patch validation
// ---------------------------------------------------------------------------

/// The paths that a bodies update is reported under: once for a prefix that
/// belongs to another artifact (`bodies.`, `foundry_config.`, `Foundry.`), once
/// for an invariant whose name lacks `invariant_`, once for a non-empty
/// `handler.targetSelectors` string that is not a function definition.
pub open spec fn body_update_issues(p: Seq<char>, v: Json) -> Seq<Seq<char>> {
    let prefixed = "invariantTest.invariants."@;
    let a: Seq<Seq<char>> = if starts_with(p, "bodies."@) || starts_with(p, "foundry_config."@)
        || starts_with(p, "Foundry."@) {
        seq![p]
    } else {
        seq![]
    };
    let b: Seq<Seq<char>> = if starts_with(p, prefixed) && !starts_with(
        p.skip(prefixed.len() as int),
        "invariant_"@,
    ) {
        seq![p]
    } else {
        seq![]
    };
    let c: Seq<Seq<char>> = if p == "handler.targetSelectors"@ {
        match v {
            Json::Str(s) => if trim(s).len() > 0 && !starts_with(trim_start(s), "function"@) {
                seq![p]
            } else {
                seq![]
            },
            _ => seq![],
        }
    } else {
        seq![]
    };
    a + b + c
}

/// The paths that a config update is reported under: a bodies prefix, or no
/// `Foundry.` prefix.
pub open spec fn config_update_issues(p: Seq<char>) -> Seq<Seq<char>> {
    if starts_with(p, "bodies."@) || starts_with(p, "foundry_config."@) || !starts_with(
        p,
        "Foundry."@,
    ) {
        seq![p]
    } else {
        seq![]
    }
}

/// The issues of all bodies updates, in order.
pub open spec fn body_issues(us: Seq<(Seq<char>, Json)>) -> Seq<Seq<char>>
    decreases us.len(),
{
    if us.len() == 0 {
        seq![]
    } else {
        body_issues(us.drop_last()) + body_update_issues(us.last().0, us.last().1)
    }
}

/// The issues of all config updates, in order.
pub open spec fn config_issues(us: Seq<(Seq<char>, Json)>) -> Seq<Seq<char>>
    decreases us.len(),
{
    if us.len() == 0 {
        seq![]
    } else {
        config_issues(us.drop_last()) + config_update_issues(us.last().0)
    }
}

/// A bodies update that validation accepts: its path starts with none of
/// `bodies.`, `foundry_config.` and `Foundry.`; an invariant it names starts
/// with `invariant_`; and a string it gives `handler.targetSelectors` is blank
/// or a function definition.
pub open spec fn body_update_ok(p: Seq<char>, v: Json) -> bool {
    let prefixed = "invariantTest.invariants."@;
    &&& !starts_with(p, "bodies."@)
    &&& !starts_with(p, "foundry_config."@)
    &&& !starts_with(p, "Foundry."@)
    &&& starts_with(p, prefixed) ==> starts_with(p.skip(prefixed.len() as int), "invariant_"@)
    &&& (p == "handler.targetSelectors"@ && v is Str) ==> (trim(v->Str_0).len() == 0
        || starts_with(trim_start(v->Str_0), "function"@))
}

/// An update raises no issue exactly when validation accepts it.
proof fn lemma_body_update_ok(p: Seq<char>, v: Json)
    ensures
        body_update_issues(p, v).len() == 0 <==> body_update_ok(p, v),
{
}

/// The bodies updates raise no issue exactly when each is accepted.
proof fn lemma_body_issues_empty(us: Seq<(Seq<char>, Json)>)
    ensures
        body_issues(us).len() == 0 <==> forall|i: int|
            0 <= i < us.len() ==> body_update_ok(#[trigger] us[i].0, us[i].1),
    decreases us.len(),
{
    if us.len() > 0 {
        let p = us.drop_last();
        lemma_body_issues_empty(p);
        lemma_body_update_ok(us.last().0, us.last().1);
        if body_issues(us).len() == 0 {
            assert forall|i: int| 0 <= i < us.len() implies body_update_ok(
                #[trigger] us[i].0,
                us[i].1,
            ) by {
                if i < us.len() - 1 {
                    assert(us[i] == p[i]);
                }
            }
        }
        if forall|i: int| 0 <= i < us.len() ==> body_update_ok(#[trigger] us[i].0, us[i].1) {
            assert forall|i: int| 0 <= i < p.len() implies body_update_ok(
                #[trigger] p[i].0,
                p[i].1,
            ) by {
                assert(us[i] == p[i]);
            }
            assert(body_update_ok(us[us.len() - 1].0, us[us.len() - 1].1));
        }
    }
}

/// The config updates raise no issue exactly when each path starts with
/// `Foundry.`.
proof fn lemma_config_issues_empty(us: Seq<(Seq<char>, Json)>)
    ensures
        config_issues(us).len() == 0 <==> forall|i: int|
            0 <= i < us.len() ==> starts_with(#[trigger] us[i].0, "Foundry."@),
    decreases us.len(),
{
    reveal_strlit("Foundry.");
    reveal_strlit("bodies.");
    reveal_strlit("foundry_config.");
    if us.len() > 0 {
        let p = us.drop_last();
        lemma_config_issues_empty(p);
        let x = us.last().0;
        if starts_with(x, "Foundry."@) {
            assert(x[0] == x.subrange(0, 8)[0]);
            if starts_with(x, "bodies."@) {
                assert(x[0] == x.subrange(0, 7)[0]);
            }
            if starts_with(x, "foundry_config."@) {
                assert(x[0] == x.subrange(0, 15)[0]);
            }
        }
        if config_issues(us).len() == 0 {
            assert forall|i: int| 0 <= i < us.len() implies starts_with(
                #[trigger] us[i].0,
                "Foundry."@,
            ) by {
                if i < us.len() - 1 {
                    assert(us[i] == p[i]);
                }
            }
        }
        if forall|i: int| 0 <= i < us.len() ==> starts_with(#[trigger] us[i].0, "Foundry."@) {
            assert forall|i: int| 0 <= i < p.len() implies starts_with(
                #[trigger] p[i].0,
                "Foundry."@,
            ) by {
                assert(us[i] == p[i]);
            }
            assert(starts_with(us[us.len() - 1].0, "Foundry."@));
        }
    }
}

/// A patch passes validation exactly when every bodies update is accepted
/// and every config update's path starts with `Foundry.`.
pub proof fn lemma_patch_valid_iff(bv: Seq<(Seq<char>, Json)>, cv: Seq<(Seq<char>, Json)>)
    ensures
        (body_issues(bv) + config_issues(cv)).len() == 0 <==> ((forall|i: int|
            0 <= i < bv.len() ==> body_update_ok(#[trigger] bv[i].0, bv[i].1)) && (forall|i: int|
            0 <= i < cv.len() ==> starts_with(#[trigger] cv[i].0, "Foundry."@))),
{
    lemma_body_issues_empty(bv);
    lemma_config_issues_empty(cv);
}

/// The message that lists invalid patch paths.
pub open spec fn invalid_patch_message(issues: Seq<Seq<char>>) -> Seq<char> {
    "invalid patch paths or values (check Foundry prefix, invariant_ names, targetSelectors function): "@
        + join(issues, ", "@)
}

fn push_str(v: &mut Vec<Vec<char>>, s: &String)
    ensures
        seqs_of(final(v)@) == seqs_of(old(v)@).push(s@),
{
    let ghost before = seqs_of(v@);
    v.push(chars_of(s.as_str()));
    assert(seqs_of(v@) =~= before.push(s@));
}

fn body_update_issues_into(u: &JsonBlockUpdate, out: &mut Vec<Vec<char>>)
    ensures
        seqs_of(final(out)@) == seqs_of(old(out)@) + body_update_issues(u.path@, json_view(u.value)),
{
    let p = chars_of(u.path.as_str());
    let ghost start = seqs_of(out@);
    if starts_with_chars(&p, &chars_of("bodies.")) || starts_with_chars(
        &p,
        &chars_of("foundry_config."),
    ) || starts_with_chars(&p, &chars_of("Foundry.")) {
        push_str(out, &u.path);
    }
    let ghost after_a = seqs_of(out@);
    let prefixed = chars_of("invariantTest.invariants.");
    if starts_with_chars(&p, &prefixed) {
        let name = copy_range(&p, prefixed.len(), p.len());
        assert(name@ =~= p@.skip(prefixed@.len() as int));
        if !starts_with_chars(&name, &chars_of("invariant_")) {
            push_str(out, &u.path);
        }
    }
    let ghost after_b = seqs_of(out@);
    let target = chars_of("handler.targetSelectors");
    if p.len() == target.len() && starts_with_chars(&p, &target) {
        assert(p@ =~= target@);
        match &u.value {
            crate::json::JsonValue::String(s) => {
                let sc = chars_of(s.as_str());
                if trim_chars(&sc).len() > 0 && !starts_with_chars(
                    &trim_start_chars(&sc),
                    &chars_of("function"),
                ) {
                    push_str(out, &u.path);
                }
            },
            _ => {},
        }
    } else {
        proof {
            if p@ == target@ {
                assert(p@.subrange(0, p@.len() as int) =~= p@);
            }
        }
    }
    assert(seqs_of(out@) =~= start + body_update_issues(u.path@, json_view(u.value)));
}

/// Checks the paths and values of a patch. A bodies update fails when its
/// path starts with `bodies.`, `foundry_config.` or `Foundry.`, when it names
/// an invariant (`invariantTest.invariants.<name>`) whose name does not start
/// with `invariant_`, or when it sets `handler.targetSelectors` to a non-empty
/// string that is not a function definition. A config update fails unless its
/// path starts with `Foundry.` (and not with a bodies prefix). The error lists
/// every failing path.
pub fn validate_patch_updates(
    bodies_updates: &[JsonBlockUpdate],
    foundry_config_updates: &[JsonBlockUpdate],
) -> (r: Result<(), GenerationError>)
    ensures
        ({
            let issues = body_issues(updates_view(bodies_updates@)) + config_issues(
                updates_view(foundry_config_updates@),
            );
            &&& r is Ok <==> issues.len() == 0
            &&& r matches Err(e) ==> e.message@ == invalid_patch_message(issues)
        }),
        r is Ok <==> ((forall|i: int|
            0 <= i < bodies_updates@.len() ==> body_update_ok(
                #[trigger] bodies_updates@[i].path@,
                json_view(bodies_updates@[i].value),
            )) && (forall|i: int|
            0 <= i < foundry_config_updates@.len() ==> starts_with(
                #[trigger] foundry_config_updates@[i].path@,
                "Foundry."@,
            ))),
{
    proof {
        let bv = updates_view(bodies_updates@);
        let cv = updates_view(foundry_config_updates@);
        lemma_patch_valid_iff(bv, cv);
        assert((forall|i: int| 0 <= i < bv.len() ==> body_update_ok(#[trigger] bv[i].0, bv[i].1))
            <==> (forall|i: int|
            0 <= i < bodies_updates@.len() ==> body_update_ok(
                #[trigger] bodies_updates@[i].path@,
                json_view(bodies_updates@[i].value),
            ))) by {
            if forall|i: int| 0 <= i < bv.len() ==> body_update_ok(#[trigger] bv[i].0, bv[i].1) {
                assert forall|i: int| 0 <= i < bodies_updates@.len() implies body_update_ok(
                    #[trigger] bodies_updates@[i].path@,
                    json_view(bodies_updates@[i].value),
                ) by {
                    assert(body_update_ok(bv[i].0, bv[i].1));
                }
            }
        }
        assert((forall|i: int| 0 <= i < cv.len() ==> starts_with(#[trigger] cv[i].0, "Foundry."@))
            <==> (forall|i: int|
            0 <= i < foundry_config_updates@.len() ==> starts_with(
                #[trigger] foundry_config_updates@[i].path@,
                "Foundry."@,
            ))) by {
            if forall|i: int| 0 <= i < cv.len() ==> starts_with(#[trigger] cv[i].0, "Foundry."@) {
                assert forall|i: int| 0 <= i < foundry_config_updates@.len() implies starts_with(
                    #[trigger] foundry_config_updates@[i].path@,
                    "Foundry."@,
                ) by {
                    assert(starts_with(cv[i].0, "Foundry."@));
                }
            }
        }
    }
    let mut invalid: Vec<Vec<char>> = Vec::new();
    let ghost bv = updates_view(bodies_updates@);
    let ghost cv = updates_view(foundry_config_updates@);
    let mut i: usize = 0;
    while i < bodies_updates.len()
        invariant
            i <= bodies_updates@.len(),
            bv == updates_view(bodies_updates@),
            seqs_of(invalid@) == body_issues(bv.take(i as int)),
        decreases bodies_updates@.len() - i,
    {
        body_update_issues_into(&bodies_updates[i], &mut invalid);
        proof {
            assert(bv.take(i + 1).drop_last() =~= bv.take(i as int));
            assert(bv.take(i + 1).last() == bv[i as int]);
        }
        i = i + 1;
    }
    let ghost after_bodies = seqs_of(invalid@);
    assert(bv.take(bodies_updates@.len() as int) =~= bv);
    let mut j: usize = 0;
    while j < foundry_config_updates.len()
        invariant
            j <= foundry_config_updates@.len(),
            cv == updates_view(foundry_config_updates@),
            seqs_of(invalid@) == after_bodies + config_issues(cv.take(j as int)),
            after_bodies == body_issues(bv),
        decreases foundry_config_updates@.len() - j,
    {
        let u = &foundry_config_updates[j];
        let p = chars_of(u.path.as_str());
        let ghost before = seqs_of(invalid@);
        if starts_with_chars(&p, &chars_of("bodies.")) || starts_with_chars(
            &p,
            &chars_of("foundry_config."),
        ) || !starts_with_chars(&p, &chars_of("Foundry.")) {
            push_str(&mut invalid, &u.path);
        }
        proof {
            assert(cv.take(j + 1).drop_last() =~= cv.take(j as int));
            assert(cv.take(j + 1).last() == cv[j as int]);
            assert(seqs_of(invalid@) =~= before + config_update_issues(cv[j as int].0));
        }
        j = j + 1;
    }
    assert(cv.take(foundry_config_updates@.len() as int) =~= cv);
    if invalid.len() == 0 {
        return Ok(());
    }
    let mut msg = chars_of(
        "invalid patch paths or values (check Foundry prefix, invariant_ names, targetSelectors function): ",
    );
    append(&mut msg, &join_chars(&invalid, &chars_of(", ")));
    Err(GenerationError { message: string_of(&msg) })
}

// ---------------------------------------------------------------------------
// Full-generation validation
// ---------------------------------------------------------------------------

/// The keys of map entries, in order.
pub open spec fn entry_keys(e: Seq<(Seq<char>, Seq<char>)>) -> Seq<Seq<char>> {
    Seq::new(e.len(), |i: int| e[i].0)
}

/// `"invariant name must start with invariant_: " + name` for each name without the prefix.
pub open spec fn invariant_name_issues(names: Seq<Seq<char>>) -> Seq<Seq<char>>
    decreases names.len(),
{
    if names.len() == 0 {
        seq![]
    } else {
        invariant_name_issues(names.drop_last()) + if starts_with(names.last(), "invariant_"@) {
            Seq::<Seq<char>>::empty()
        } else {
            seq!["invariant name must start with invariant_: "@ + names.last()]
        }
    }
}

/// The problems of a full generation: the handler's imports lack the
/// `BaseHandler` import from `src/base/BaseHandler.sol`; an import takes
/// `BaseHandler` from foundry-huff; the target selectors are neither empty nor
/// a function definition; an invariant's name lacks the `invariant_` prefix.
pub open spec fn full_generation_issues(
    imports: Seq<Seq<char>>,
    target_selectors: Seq<char>,
    invariant_names: Seq<Seq<char>>,
) -> Seq<Seq<char>> {
    let has_base = exists|i: int|
        0 <= i < imports.len() && contains(imports[i], "BaseHandler"@) && contains(
            #[trigger] imports[i],
            "src/base/BaseHandler.sol"@,
        );
    let huff = exists|i: int|
        0 <= i < imports.len() && contains(#[trigger] imports[i], "foundry-huff/BaseHandler.sol"@);
    let a: Seq<Seq<char>> = if has_base {
        seq![]
    } else {
        seq!["handler imports must include BaseHandler from src/base/BaseHandler.sol"@]
    };
    let b: Seq<Seq<char>> = if huff {
        seq!["do not import BaseHandler from foundry-huff"@]
    } else {
        seq![]
    };
    let c: Seq<Seq<char>> = if trim(target_selectors).len() > 0 && !starts_with(
        trim_start(target_selectors),
        "function"@,
    ) {
        seq!["handler.targetSelectors must be empty or a function definition"@]
    } else {
        seq![]
    };
    a + b + c + invariant_name_issues(invariant_names)
}

/// A full generation that passes its checks: some import takes `BaseHandler`
/// from `src/base/BaseHandler.sol`, none takes it from foundry-huff, the
/// target selectors are blank or a function definition, and every invariant
/// name starts with `invariant_`.
pub open spec fn full_generation_ok(
    imports: Seq<Seq<char>>,
    target_selectors: Seq<char>,
    invariant_names: Seq<Seq<char>>,
) -> bool {
    &&& exists|i: int|
        0 <= i < imports.len() && contains(imports[i], "BaseHandler"@) && contains(
            #[trigger] imports[i],
            "src/base/BaseHandler.sol"@,
        )
    &&& forall|i: int|
        0 <= i < imports.len() ==> !contains(#[trigger] imports[i], "foundry-huff/BaseHandler.sol"@)
    &&& trim(target_selectors).len() == 0 || starts_with(trim_start(target_selectors), "function"@)
    &&& forall|i: int| 0 <= i < invariant_names.len() ==> starts_with(#[trigger] invariant_names[i], "invariant_"@)
}

/// The invariant names raise no issue exactly when each starts with
/// `invariant_`.
proof fn lemma_invariant_name_issues_empty(names: Seq<Seq<char>>)
    ensures
        invariant_name_issues(names).len() == 0 <==> forall|i: int|
            0 <= i < names.len() ==> starts_with(#[trigger] names[i], "invariant_"@),
    decreases names.len(),
{
    if names.len() > 0 {
        let p = names.drop_last();
        lemma_invariant_name_issues_empty(p);
        if invariant_name_issues(names).len() == 0 {
            assert forall|i: int| 0 <= i < names.len() implies starts_with(
                #[trigger] names[i],
                "invariant_"@,
            ) by {
                if i < names.len() - 1 {
                    assert(names[i] == p[i]);
                }
            }
        }
        if forall|i: int| 0 <= i < names.len() ==> starts_with(#[trigger] names[i], "invariant_"@) {
            assert forall|i: int| 0 <= i < p.len() implies starts_with(
                #[trigger] p[i],
                "invariant_"@,
            ) by {
                assert(names[i] == p[i]);
            }
            assert(starts_with(names[names.len() - 1], "invariant_"@));
        }
    }
}

/// A full generation raises no issue exactly when it passes its checks.
pub proof fn lemma_full_generation_valid_iff(
    imports: Seq<Seq<char>>,
    target_selectors: Seq<char>,
    invariant_names: Seq<Seq<char>>,
)
    ensures
        full_generation_issues(imports, target_selectors, invariant_names).len() == 0
            <==> full_generation_ok(imports, target_selectors, invariant_names),
{
    lemma_invariant_name_issues_empty(invariant_names);
}

/// Checks a full generation: the handler imports `BaseHandler` from
/// `src/base/BaseHandler.sol` and not from foundry-huff, the target selectors
/// are empty or a function definition, and every invariant is named
/// `invariant_...`. The error joins all problems with `"; "`.
pub fn validate_full_generation(bodies: &BodiesJson) -> (r: Result<(), GenerationError>)
    ensures
        ({
            let issues = full_generation_issues(
                strings_view(bodies.handler.imports@),
                bodies.handler.target_selectors@,
                entry_keys(ordered_entries(bodies.invariant_test.invariants)),
            );
            &&& r is Ok <==> issues.len() == 0
            &&& r matches Err(e) ==> e.message@ == join(issues, "; "@)
        }),
        r is Ok <==> full_generation_ok(
            strings_view(bodies.handler.imports@),
            bodies.handler.target_selectors@,
            entry_keys(ordered_entries(bodies.invariant_test.invariants)),
        ),
{
    proof {
        lemma_full_generation_valid_iff(
            strings_view(bodies.handler.imports@),
            bodies.handler.target_selectors@,
            entry_keys(ordered_entries(bodies.invariant_test.invariants)),
        );
    }
    let imports = &bodies.handler.imports;
    let ghost iv = strings_view(imports@);
    let base = chars_of("BaseHandler");
    let base_path = chars_of("src/base/BaseHandler.sol");
    let huff = chars_of("foundry-huff/BaseHandler.sol");
    let mut has_base: bool = false;
    let mut k: usize = 0;
    while k < imports.len()
        invariant
            k <= imports@.len(),
            iv == strings_view(imports@),
            base@ == "BaseHandler"@,
            base_path@ == "src/base/BaseHandler.sol"@,
            has_base == exists|i: int|
                0 <= i < k && contains(iv[i], "BaseHandler"@) && contains(
                    #[trigger] iv[i],
                    "src/base/BaseHandler.sol"@,
                ),
        decreases imports@.len() - k,
    {
        let line = chars_of(imports[k].as_str());
        assert(iv[k as int] == line@);
        if contains_chars(&line, &base) && contains_chars(&line, &base_path) {
            has_base = true;
        }
        k = k + 1;
    }
    let mut is_huff: bool = false;
    let mut k2: usize = 0;
    while k2 < imports.len()
        invariant_except_break
            !is_huff,
            forall|i: int| 0 <= i < k2 ==> !contains(#[trigger] iv[i], "foundry-huff/BaseHandler.sol"@),
        invariant
            k2 <= imports@.len(),
            iv == strings_view(imports@),
            huff@ == "foundry-huff/BaseHandler.sol"@,
        ensures
            is_huff == exists|i: int|
                0 <= i < imports@.len() && contains(#[trigger] iv[i], "foundry-huff/BaseHandler.sol"@),
        decreases imports@.len() - k2,
    {
        let line = chars_of(imports[k2].as_str());
        assert(iv[k2 as int] == line@);
        if contains_chars(&line, &huff) {
            is_huff = true;
            break;
        }
        k2 = k2 + 1;
    }
    let mut issues: Vec<Vec<char>> = Vec::new();
    if !has_base {
        issues.push(chars_of("handler imports must include BaseHandler from src/base/BaseHandler.sol"));
    }
    if is_huff {
        issues.push(chars_of("do not import BaseHandler from foundry-huff"));
    }
    let ts = chars_of(bodies.handler.target_selectors.as_str());
    if trim_chars(&ts).len() > 0 && !starts_with_chars(&trim_start_chars(&ts), &chars_of("function")) {
        issues.push(chars_of("handler.targetSelectors must be empty or a function definition"));
    }
    let ghost head = seqs_of(issues@);
    proof {
        let a: Seq<Seq<char>> = if !has_base {
            seq!["handler imports must include BaseHandler from src/base/BaseHandler.sol"@]
        } else {
            seq![]
        };
        let b: Seq<Seq<char>> = if is_huff {
            seq!["do not import BaseHandler from foundry-huff"@]
        } else {
            seq![]
        };
        let c: Seq<Seq<char>> = if trim(ts@).len() > 0 && !starts_with(trim_start(ts@), "function"@) {
            seq!["handler.targetSelectors must be empty or a function definition"@]
        } else {
            seq![]
        };
        assert(head =~= a + b + c);
    }
    let inv = &bodies.invariant_test.invariants;
    let n = ordered_map_len(inv);
    let ghost names = entry_keys(ordered_entries(*inv));
    let mut i: usize = 0;
    while i < n
        invariant
            i <= n,
            n == names.len(),
            names == entry_keys(ordered_entries(*inv)),
            seqs_of(issues@) == head + invariant_name_issues(names.take(i as int)),
        decreases n - i,
    {
        let entry = ordered_map_get_index(inv, i);
        let ghost before = seqs_of(issues@);
        proof {
            assert(names.take(i + 1).drop_last() =~= names.take(i as int));
            assert(names.take(i + 1).last() == names[i as int]);
        }
        match entry {
            Some((name, _)) => {
                let nc = chars_of(name.as_str());
                if !starts_with_chars(&nc, &chars_of("invariant_")) {
                    let mut msg = chars_of("invariant name must start with invariant_: ");
                    append(&mut msg, &nc);
                    issues.push(msg);
                    assert(seqs_of(issues@) =~= before.push(
                        "invariant name must start with invariant_: "@ + names[i as int],
                    ));
                } else {
                    assert(seqs_of(issues@) =~= before + Seq::<Seq<char>>::empty());
                }
            },
            None => {},
        }
        i = i + 1;
    }
    assert(names.take(n as int) =~= names);
    if issues.len() == 0 {
        return Ok(());
    }
    Err(GenerationError { message: string_of(&join_chars(&issues, &chars_of("; "))) })
}

} // verus!

verus! {

// ---------------------------------------------------------------------------
// Narrowing the bodies for a patch round
// ---------------------------------------------------------------------------

/// The entries of `e` whose keys are among `needed`, in order.
pub open spec fn kept_entries(e: Seq<(Seq<char>, Seq<char>)>, needed: Seq<Seq<char>>) -> Seq<
    (Seq<char>, Seq<char>),
>
    decreases e.len(),
{
    if e.len() == 0 {
        seq![]
    } else {
        kept_entries(e.drop_last(), needed) + if needed.contains(e.last().0) {
            seq![e.last()]
        } else {
            Seq::<(Seq<char>, Seq<char>)>::empty()
        }
    }
}

/// Narrowing keeps exactly the needed keys that were there: a key is in the
/// narrowed entries if and only if it was in the entries and is needed.
pub proof fn lemma_kept_keys(e: Seq<(Seq<char>, Seq<char>)>, needed: Seq<Seq<char>>, k: Seq<char>)
    ensures
        has_key(kept_entries(e, needed), k) <==> (has_key(e, k) && needed.contains(k)),
    decreases e.len(),
{
    if e.len() > 0 {
        let p = e.drop_last();
        let kp = kept_entries(p, needed);
        let kept = kept_entries(e, needed);
        lemma_kept_keys(p, needed, k);
        if has_key(kept, k) {
            let j = choose|j: int| 0 <= j < kept.len() && kept[j].0 == k;
            if j < kp.len() {
                assert(kept[j] == kp[j]);
                assert(has_key(kp, k));
                let i = choose|i: int| 0 <= i < p.len() && p[i].0 == k;
                assert(e[i] == p[i]);
            } else {
                assert(kept[j] == e.last());
                assert(e[e.len() - 1].0 == k);
            }
        }
        if has_key(e, k) && needed.contains(k) {
            let i = choose|i: int| 0 <= i < e.len() && e[i].0 == k;
            if i < e.len() - 1 {
                assert(p[i] == e[i]);
                assert(has_key(p, k));
                let j = choose|j: int| 0 <= j < kp.len() && kp[j].0 == k;
                assert(kept[j] == kp[j]);
            } else {
                assert(kept[kp.len() as int] == e.last());
            }
        }
    }
}

/// Narrowing with the same names a second time changes nothing.
pub proof fn lemma_kept_settled(e: Seq<(Seq<char>, Seq<char>)>, needed: Seq<Seq<char>>)
    ensures
        kept_entries(kept_entries(e, needed), needed) == kept_entries(e, needed),
    decreases e.len(),
{
    if e.len() > 0 {
        let p = e.drop_last();
        let kp = kept_entries(p, needed);
        lemma_kept_settled(p, needed);
        if needed.contains(e.last().0) {
            assert(kept_entries(e, needed) =~= kp.push(e.last()));
            lemma_kept_append(kp, needed, e.last());
        } else {
            assert(kept_entries(e, needed) =~= kp);
        }
    }
}

/// Narrowing one more entry narrows the rest and keeps the entry when it is
/// needed.
proof fn lemma_kept_append(
    e: Seq<(Seq<char>, Seq<char>)>,
    needed: Seq<Seq<char>>,
    x: (Seq<char>, Seq<char>),
)
    ensures
        kept_entries(e.push(x), needed) == kept_entries(e, needed) + if needed.contains(x.0) {
            seq![x]
        } else {
            Seq::<(Seq<char>, Seq<char>)>::empty()
        },
{
    assert(e.push(x).drop_last() =~= e);
}

/// The names of `needed`, in order, that are keys of neither `fe` nor `ie`.
pub open spec fn missing_names(
    needed: Seq<Seq<char>>,
    fe: Seq<(Seq<char>, Seq<char>)>,
    ie: Seq<(Seq<char>, Seq<char>)>,
) -> Seq<Seq<char>>
    decreases needed.len(),
{
    if needed.len() == 0 {
        seq![]
    } else {
        let n = needed.last();
        missing_names(needed.drop_last(), fe, ie) + if !has_key(fe, n) && !has_key(ie, n) {
            seq![n]
        } else {
            Seq::<Seq<char>>::empty()
        }
    }
}

/// Everything of `b` but the handler functions and invariants is that of `a`.
pub open spec fn same_apart_from_maps(a: BodiesJson, b: BodiesJson) -> bool {
    &&& b.meta == a.meta
    &&& b.handler.contract_name == a.handler.contract_name
    &&& b.handler.output_path == a.handler.output_path
    &&& b.handler.imports@ == a.handler.imports@
    &&& b.handler.state_vars@ == a.handler.state_vars@
    &&& b.handler.ghost_vars@ == a.handler.ghost_vars@
    &&& b.handler.constructor_signature == a.handler.constructor_signature
    &&& b.handler.constructor_body@ == a.handler.constructor_body@
    &&& b.handler.target_selectors == a.handler.target_selectors
    &&& b.invariant_test.contract_name == a.invariant_test.contract_name
    &&& b.invariant_test.output_path == a.invariant_test.output_path
    &&& b.invariant_test.imports@ == a.invariant_test.imports@
    &&& b.invariant_test.state_vars@ == a.invariant_test.state_vars@
    &&& b.invariant_test.set_up_body@ == a.invariant_test.set_up_body@
}

fn clone_strings(v: &Vec<String>) -> (r: Vec<String>)
    ensures
        r@ == v@,
{
    let mut r: Vec<String> = Vec::new();
    let mut i: usize = 0;
    while i < v.len()
        invariant
            i <= v.len(),
            r@ == v@.take(i as int),
        decreases v.len() - i,
    {
        r.push(v[i].clone());
        assert(r@ =~= v@.take(i + 1));
        i = i + 1;
    }
    assert(v@.take(v.len() as int) =~= v@);
    r
}

fn names_contain(needed: &[String], k: &String) -> (r: bool)
    ensures
        r == strings_view(needed@).contains(k@),
{
    let ghost nv = strings_view(needed@);
    let mut i: usize = 0;
    while i < needed.len()
        invariant
            i <= needed@.len(),
            nv == strings_view(needed@),
            forall|j: int| 0 <= j < i ==> nv[j] != k@,
        decreases needed@.len() - i,
    {
        if needed[i] == *k {
            assert(nv[i as int] == k@);
            return true;
        }
        i = i + 1;
    }
    false
}

/// The entries of `m` whose keys are in `needed`, in order, as a new map.
fn keep_needed(m: &indexmap::IndexMap<String, String>, needed: &[String]) -> (r:
    indexmap::IndexMap<String, String>)
    ensures
        ordered_entries(r) == kept_entries(ordered_entries(*m), strings_view(needed@)),
{
    let ghost e = ordered_entries(*m);
    let ghost nv = strings_view(needed@);
    let n = ordered_map_len(m);
    let mut out = ordered_map_new();
    let mut i: usize = 0;
    while i < n
        invariant
            i <= n,
            n == e.len(),
            e == ordered_entries(*m),
            nv == strings_view(needed@),
            ordered_entries(out) == kept_entries(e.take(i as int), nv),
            forall|x: int|
                0 <= x < ordered_entries(out).len() ==> exists|j: int|
                    0 <= j < i && #[trigger] ordered_entries(out)[x].0 == e[j].0,
        decreases n - i,
    {
        proof {
            assert(e.take(i + 1).drop_last() =~= e.take(i as int));
            assert(e.take(i + 1).last() == e[i as int]);
        }
        match ordered_map_get_index(m, i) {
            Some((k, v)) => {
                if names_contain(needed, k) {
                    let ghost before = ordered_entries(out);
                    proof {
                        if exists|x: int| 0 <= x < before.len() && before[x].0 == k@ {
                            let x = choose|x: int| 0 <= x < before.len() && before[x].0 == k@;
                            let j = choose|j: int| 0 <= j < i && #[trigger] before[x].0 == e[j].0;
                            assert(e[j].0 != k@);
                        }
                        assert(entry_index(before, k@) is None);
                    }
                    ordered_map_insert(&mut out, k.clone(), v.clone());
                    proof {
                        assert(ordered_entries(out) =~= before + seq![e[i as int]]);
                        assert forall|x: int|
                            0 <= x < ordered_entries(out).len() implies exists|j: int|
                            0 <= j < i + 1 && #[trigger] ordered_entries(out)[x].0 == e[j].0 by {
                            if x < before.len() {
                                let j = choose|j: int| 0 <= j < i && #[trigger] before[x].0 == e[j].0;
                                assert(ordered_entries(out)[x].0 == e[j].0);
                            } else {
                                assert(ordered_entries(out)[x].0 == e[i as int].0);
                            }
                        }
                    }
                } else {
                    assert(kept_entries(e.take(i + 1), nv) =~= kept_entries(e.take(i as int), nv));
                }
            },
            None => {},
        }
        i = i + 1;
    }
    assert(e.take(n as int) =~= e);
    out
}

/// Some name is missing exactly when a needed name is neither a handler
/// function nor an invariant.
pub proof fn lemma_missing_iff(
    needed: Seq<Seq<char>>,
    fe: Seq<(Seq<char>, Seq<char>)>,
    ie: Seq<(Seq<char>, Seq<char>)>,
)
    ensures
        missing_names(needed, fe, ie).len() > 0 <==> exists|i: int|
            0 <= i < needed.len() && !has_key(fe, #[trigger] needed[i]) && !has_key(ie, needed[i]),
    decreases needed.len(),
{
    if needed.len() > 0 {
        let p = needed.drop_last();
        lemma_missing_iff(p, fe, ie);
        let n = needed.last();
        if missing_names(needed, fe, ie).len() > 0 {
            if missing_names(p, fe, ie).len() > 0 {
                let i = choose|i: int|
                    0 <= i < p.len() && !has_key(fe, #[trigger] p[i]) && !has_key(ie, p[i]);
                assert(needed[i] == p[i]);
            } else {
                assert(!has_key(fe, needed[needed.len() - 1]));
            }
        }
        if exists|i: int|
            0 <= i < needed.len() && !has_key(fe, #[trigger] needed[i]) && !has_key(ie, needed[i]) {
            let i = choose|i: int|
                0 <= i < needed.len() && !has_key(fe, #[trigger] needed[i]) && !has_key(ie, needed[i]);
            if i < needed.len() - 1 {
                assert(p[i] == needed[i]);
            }
        }
    }
}

/// The message for bodies that a patch round asked for but that do not exist.
pub open spec fn missing_bodies_message(missing: Seq<Seq<char>>) -> Seq<char> {
    "requested bodies not found: "@ + join(missing, ", "@)
}

/// The bodies a patch round works on: `existing` with only the handler
/// functions and invariants whose names are in `needed` (order kept), or
/// `None` without existing bodies. Every needed name must be a handler
/// function or an invariant; the error lists those that are neither.
pub fn extract_relevant_bodies(existing: Option<&BodiesJson>, needed: &[String]) -> (r: Result<
    Option<BodiesJson>,
    GenerationError,
>)
    ensures
        existing is None ==> r matches Ok(None),
        existing matches Some(b) ==> ({
            let missing = missing_names(
                strings_view(needed@),
                ordered_entries(b.handler.functions),
                ordered_entries(b.invariant_test.invariants),
            );
            &&& r is Err <==> missing.len() > 0
            &&& r matches Err(e) ==> e.message@ == missing_bodies_message(missing)
            &&& r matches Ok(Some(f)) ==> {
                &&& ordered_entries(f.handler.functions) == kept_entries(
                    ordered_entries(b.handler.functions),
                    strings_view(needed@),
                )
                &&& ordered_entries(f.invariant_test.invariants) == kept_entries(
                    ordered_entries(b.invariant_test.invariants),
                    strings_view(needed@),
                )
                &&& same_apart_from_maps(*b, f)
            }
            &&& r is Ok ==> r matches Ok(Some(_))
        }),
        existing matches Some(b) ==> (r is Err <==> exists|i: int|
            0 <= i < needed@.len() && !has_key(
                ordered_entries(b.handler.functions),
                #[trigger] needed@[i]@,
            ) && !has_key(ordered_entries(b.invariant_test.invariants), needed@[i]@)),
        existing matches Some(b) ==> r matches Ok(Some(f)) ==> forall|k: Seq<char>|
            (has_key(ordered_entries(f.handler.functions), k) <==> has_key(
                ordered_entries(b.handler.functions),
                k,
            ) && strings_view(needed@).contains(k)) && (has_key(
                ordered_entries(f.invariant_test.invariants),
                k,
            ) <==> has_key(ordered_entries(b.invariant_test.invariants), k) && strings_view(
                needed@,
            ).contains(k)),
{
    let b = match existing {
        None => {
            return Ok(None);
        },
        Some(b) => b,
    };
    let ghost nv = strings_view(needed@);
    let ghost fe = ordered_entries(b.handler.functions);
    let ghost ie = ordered_entries(b.invariant_test.invariants);
    proof {
        lemma_missing_iff(nv, fe, ie);
        if exists|j: int| 0 <= j < nv.len() && !has_key(fe, #[trigger] nv[j]) && !has_key(ie, nv[j]) {
            let j = choose|j: int|
                0 <= j < nv.len() && !has_key(fe, #[trigger] nv[j]) && !has_key(ie, nv[j]);
            assert(nv[j] == needed@[j]@);
        }
        if exists|j: int|
            0 <= j < needed@.len() && !has_key(fe, #[trigger] needed@[j]@) && !has_key(
                ie,
                needed@[j]@,
            ) {
            let j = choose|j: int|
                0 <= j < needed@.len() && !has_key(fe, #[trigger] needed@[j]@) && !has_key(
                    ie,
                    needed@[j]@,
                );
            assert(nv[j] == needed@[j]@);
        }
        assert forall|k: Seq<char>|
            (has_key(kept_entries(fe, nv), k) <==> has_key(fe, k) && nv.contains(k)) && (has_key(
                kept_entries(ie, nv),
                k,
            ) <==> has_key(ie, k) && nv.contains(k)) by {
            lemma_kept_keys(fe, nv, k);
            lemma_kept_keys(ie, nv, k);
        }
    }
    let functions = keep_needed(&b.handler.functions, needed);
    let invariants = keep_needed(&b.invariant_test.invariants, needed);
    let filtered = BodiesJson {
        meta: BodiesMeta {
            contract: b.meta.contract.clone(),
            contract_path: b.meta.contract_path.clone(),
            solidity: b.meta.solidity.clone(),
            generated_at: b.meta.generated_at.clone(),
        },
        handler: HandlerBodies {
            contract_name: b.handler.contract_name.clone(),
            output_path: b.handler.output_path.clone(),
            imports: clone_strings(&b.handler.imports),
            state_vars: clone_strings(&b.handler.state_vars),
            ghost_vars: clone_strings(&b.handler.ghost_vars),
            constructor_signature: b.handler.constructor_signature.clone(),
            constructor_body: clone_strings(&b.handler.constructor_body),
            functions,
            target_selectors: b.handler.target_selectors.clone(),
        },
        invariant_test: InvariantTestBodies {
            contract_name: b.invariant_test.contract_name.clone(),
            output_path: b.invariant_test.output_path.clone(),
            imports: clone_strings(&b.invariant_test.imports),
            state_vars: clone_strings(&b.invariant_test.state_vars),
            set_up_body: clone_strings(&b.invariant_test.set_up_body),
            invariants,
        },
    };
    let mut missing: Vec<Vec<char>> = Vec::new();
    let mut i: usize = 0;
    while i < needed.len()
        invariant
            i <= needed@.len(),
            nv == strings_view(needed@),
            fe == ordered_entries(b.handler.functions),
            ie == ordered_entries(b.invariant_test.invariants),
            seqs_of(missing@) == missing_names(nv.take(i as int), fe, ie),
        decreases needed@.len() - i,
    {
        proof {
            assert(nv.take(i + 1).drop_last() =~= nv.take(i as int));
            assert(nv.take(i + 1).last() == nv[i as int]);
        }
        let name = needed[i].as_str();
        let ghost before = seqs_of(missing@);
        if !ordered_map_contains_key(&b.handler.functions, name) && !ordered_map_contains_key(
            &b.invariant_test.invariants,
            name,
        ) {
            missing.push(chars_of(name));
            assert(seqs_of(missing@) =~= before.push(nv[i as int]));
        } else {
            assert(seqs_of(missing@) =~= before + Seq::<Seq<char>>::empty());
        }
        i = i + 1;
    }
    assert(nv.take(needed@.len() as int) =~= nv);
    if missing.len() > 0 {
        let mut msg = chars_of("requested bodies not found: ");
        append(&mut msg, &join_chars(&missing, &chars_of(", ")));
        return Err(GenerationError { message: string_of(&msg) });
    }
    Ok(Some(filtered))
}

} // verus!
