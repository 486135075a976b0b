//! The Groq gateway: its settings, the model name it asks for, its system
//! prompt, and how it reads a reply (fence stripping and envelope lifting).
use vstd::prelude::*;

use crate::json::{json_view, lemma_object_view, Json, JsonValue};
use crate::llm::{llm_analysis_text, llm_bodies_text, llm_config_text, llm_round_n_text};
use crate::json::{distinct_keys, obj_get, parse_json, parsed_json, well_keyed};
use crate::response_parser::{
    key, lemma_lifted_settled, lemma_lifted_well_keyed, lift, lifted, member_is_str, unparsed_message, GenerationError,
};
use crate::text::{
    append, chars_of, is_ws, starts_with, starts_with_chars, string_of, strip_prefixes,
    strip_prefixes_chars, strip_suffixes, strip_suffixes_chars, trim, trim_chars, trim_end,
    trim_start,
};

verus! {

/// A fixed passage of prompt text.
pub const GROQ_TEXT_1: &'static str = "You are a Senior Smart-Contract Security Researcher and Foundry Fuzzing Expert.\n\
             SOURCE_CODE:\n";
/// A fixed passage of prompt text.
pub const GROQ_TEXT_2: &'static str = "\n\n\
             STRICT OPERATIONAL RULES:\n\
             1. NO FOR-IN LOOPS: Solidity mappings are not iterable. You MUST use a ghost array 'address[] public actors' and push msg.sender to it.\n\
             2. PHYSICAL VS LOGICAL: Always compare internal state (totalAssets) against physical balances (asset.balanceOf(address(this))).\n\
             3. NAMESPACING: Handler contract must be named 'Handler' or '[Target]Handler'.\n\
             4. USE INDEXMAP ORDER: Generate JSON keys in the order they should appear in Solidity.\n\
             5. OUTPUT: Return valid JSON only.";

/// The Groq system prompt for a contract's source: the role, the source, and
/// the operational rules.
pub open spec fn groq_system_text(source_code: Seq<char>) -> Seq<char> {
    GROQ_TEXT_1@
        + source_code
        + GROQ_TEXT_2@
}

/// The model asked for: the requested model, or the default when the request
/// is blank, with `groq/` put in front unless it is already there.
pub open spec fn chosen_model(default_model: Seq<char>, requested: Seq<char>) -> Seq<char> {
    let m = if trim(requested).len() == 0 {
        default_model
    } else {
        requested
    };
    if starts_with(m, "groq/"@) {
        m
    } else {
        "groq/"@ + m
    }
}

/// The settings of the Groq gateway: its key, its default model and its
/// token limit.
pub struct GroqAdapter {
    api_key: String,
    default_model: String,
    max_tokens: Option<u32>,
}

impl GroqAdapter {
    /// The key.
    pub closed spec fn spec_api_key(&self) -> Seq<char> {
        self.api_key@
    }

    /// The default model.
    pub closed spec fn spec_default_model(&self) -> Seq<char> {
        self.default_model@
    }

    /// The token limit.
    pub closed spec fn spec_max_tokens(&self) -> Option<u32> {
        self.max_tokens
    }

    /// A Groq gateway with `api_key`, default model `openai/gpt-oss-120b` and a
    /// limit of 4096 tokens.
    pub fn new(api_key: String) -> (r: Self)
        ensures
            r.spec_api_key() == api_key@,
            r.spec_default_model() == "openai/gpt-oss-120b"@,
            r.spec_max_tokens() == Some(4096u32),
    {
        GroqAdapter {
            api_key,
            default_model: string_of(&chars_of("openai/gpt-oss-120b")),
            max_tokens: Some(4096),
        }
    }

    /// The same gateway with another default model.
    pub fn with_default_model(self, model: String) -> (r: Self)
        ensures
            r.spec_default_model() == model@,
            r.spec_api_key() == self.spec_api_key(),
            r.spec_max_tokens() == self.spec_max_tokens(),
    {
        GroqAdapter { default_model: model, ..self }
    }

    /// The same gateway with another token limit.
    pub fn with_max_tokens(self, max_tokens: Option<u32>) -> (r: Self)
        ensures
            r.spec_max_tokens() == max_tokens,
            r.spec_api_key() == self.spec_api_key(),
            r.spec_default_model() == self.spec_default_model(),
    {
        GroqAdapter { max_tokens, ..self }
    }

    /// The key.
    pub fn api_key(&self) -> (r: &String)
        ensures
            r@ == self.spec_api_key(),
    {
        &self.api_key
    }

    /// The default model.
    pub fn default_model(&self) -> (r: &String)
        ensures
            r@ == self.spec_default_model(),
    {
        &self.default_model
    }

    /// The token limit.
    pub fn max_tokens(&self) -> (r: Option<u32>)
        ensures
            r == self.spec_max_tokens(),
    {
        self.max_tokens
    }

    /// The model name sent to the provider: the requested model, or the
    /// default when the request is blank, prefixed with `groq/` when it is not
    /// already.
    pub fn pick_model(&self, requested_model: &str) -> (r: String)
        ensures
            r@ == chosen_model(self.spec_default_model(), requested_model@),
    {
        let requested = chars_of(requested_model);
        let model = if trim_chars(&requested).len() == 0 {
            chars_of(self.default_model.as_str())
        } else {
            requested
        };
        let prefix = chars_of("groq/");
        if starts_with_chars(&model, &prefix) {
            string_of(&model)
        } else {
            let mut out = prefix;
            append(&mut out, &model);
            string_of(&out)
        }
    }

    /// The system prompt for a contract's source.
    pub fn build_system_prompt(&self, source_code: &str) -> (r: String)
        ensures
            r@ == groq_system_text(source_code@),
    {
        let mut out: Vec<char> = Vec::new();
        append(&mut out, &chars_of(GROQ_TEXT_1));
    append(&mut out, &chars_of(source_code));
    append(&mut out, &chars_of(GROQ_TEXT_2));
        string_of(&out)
    }

    /// The first stage of the first round: the security analysis.
    pub fn build_round_one_analysis_prompt(&self) -> (r: String)
        ensures
            r@ == llm_analysis_text(),
    {
        crate::llm::build_round_one_analysis_prompt()
    }

    /// The second stage of the first round: the bodies, from the analysis
    /// (serialised).
    pub fn build_round_one_bodies_prompt(&self, analysis_summary: &str) -> (r: String)
        ensures
            r@ == llm_bodies_text(analysis_summary@),
    {
        crate::llm::build_round_one_bodies_prompt(analysis_summary)
    }

    /// The third stage of the first round: the Foundry config, from the
    /// analysis and the handler's function names (both serialised).
    pub fn build_round_one_config_prompt(&self, analysis_json: &str, functions_json: &str) -> (r: String)
        ensures
            r@ == llm_config_text(analysis_json@, functions_json@),
    {
        crate::llm::build_round_one_config_prompt(analysis_json, functions_json)
    }

    /// The prompt of a later round, with the existing bodies and config
    /// (serialised).
    pub fn build_round_n_prompt(
        &self,
        round: u32,
        existing_bodies_json: &str,
        existing_config_json: &str,
    ) -> (r: String)
        ensures
            r@ == llm_round_n_text(round, existing_bodies_json@, existing_config_json@),
    {
        crate::llm::build_round_n_prompt(round, existing_bodies_json, existing_config_json)
    }
}

/// A trimmed text that does not begin with whitespace keeps its first
/// character.
proof fn lemma_trim_end_keeps_first(s: Seq<char>)
    requires
        s.len() > 0,
        !is_ws(s[0]),
    ensures
        trim_end(s).len() > 0,
    decreases s.len(),
{
    if is_ws(s.last()) {
        lemma_trim_end_keeps_first(s.drop_last());
    }
}

/// Whatever is requested, the model sent to Groq starts with `groq/`, and
/// choosing again from that name (whatever the default) gives it back.
pub proof fn lemma_chosen_model_prefixed(default_model: Seq<char>, requested: Seq<char>, other_default: Seq<char>)
    ensures
        starts_with(chosen_model(default_model, requested), "groq/"@),
        chosen_model(other_default, chosen_model(default_model, requested)) == chosen_model(
            default_model,
            requested,
        ),
{
    reveal_strlit("groq/");
    let m = if trim(requested).len() == 0 {
        default_model
    } else {
        requested
    };
    let r = chosen_model(default_model, requested);
    if !starts_with(m, "groq/"@) {
        assert(r.subrange(0, 5) =~= "groq/"@);
    }
    assert(r.subrange(0, 5)[0] == r[0]);
    assert(r[0] == 'g');
    assert(!is_ws(r[0]));
    assert(trim_start(r) == r);
    lemma_trim_end_keeps_first(r);
}

// ---------------------------------------------------------------------------
// Reading a reply
// ---------------------------------------------------------------------------

/// The JSON payload of a Groq reply: the reply trimmed; when it begins with a
/// code fence, without the leading ```` ```json ```` and ```` ``` ```` markers
/// and the trailing ```` ``` ```` markers, trimmed again.
pub open spec fn fenced_payload(raw: Seq<char>) -> Seq<char> {
    let t = trim(raw);
    if starts_with(t, "```"@) {
        trim(strip_suffixes(strip_prefixes(strip_prefixes(t, "```json"@), "```"@), "```"@))
    } else {
        t
    }
}

/// The JSON payload of a Groq reply; it never fails.
pub fn extract_json_payload(raw: &str) -> (r: Result<String, GenerationError>)
    ensures
        r matches Ok(s) && s@ == fenced_payload(raw@),
{
    let t = trim_chars(&chars_of(raw));
    let fence = chars_of("```");
    if starts_with_chars(&t, &fence) {
        let a = strip_prefixes_chars(&t, &chars_of("```json"));
        let b = strip_prefixes_chars(&a, &fence);
        let c = strip_suffixes_chars(&b, &fence);
        Ok(string_of(&trim_chars(&c)))
    } else {
        Ok(string_of(&t))
    }
}

/// The members of a Groq response envelope once the nested `full` or `patch`
/// wrapper is lifted, by its `mode`.
pub open spec fn lifted_members(ms: Seq<(Seq<char>, Json)>) -> Seq<(Seq<char>, Json)> {
    let mode = obj_get(ms, "mode"@);
    if mode == Some(Json::Str("full"@)) {
        lifted(ms, "full"@, "bodies"@, "foundry_config"@)
    } else if mode == Some(Json::Str("patch"@)) {
        lifted(ms, "patch"@, "bodies_updates"@, "foundry_config_updates"@)
    } else {
        ms
    }
}

/// A Groq response envelope after lifting; anything but an object is unchanged.
pub open spec fn lifted_envelope(v: Json) -> Json {
    match v {
        Json::Object(ms) => Json::Object(lifted_members(ms)),
        _ => v,
    }
}

/// Lifting a Groq response envelope in which no object repeats a key (as in
/// every parsed reply) gives one in which no object repeats a key.
pub proof fn lemma_lifted_envelope_well_keyed(v: Json)
    requires
        well_keyed(v),
    ensures
        well_keyed(lifted_envelope(v)),
{
    if let Json::Object(ms) = v {
        lemma_lifted_well_keyed(ms, "full"@, "bodies"@, "foundry_config"@);
        lemma_lifted_well_keyed(ms, "patch"@, "bodies_updates"@, "foundry_config_updates"@);
    }
}

/// Lifting a Groq response envelope twice gives what lifting it once gives,
/// for an object whose keys are distinct (as a parsed JSON object's are).
pub proof fn lemma_lifted_envelope_settled(v: Json)
    requires
        v matches Json::Object(ms) ==> distinct_keys(ms),
    ensures
        lifted_envelope(lifted_envelope(v)) == lifted_envelope(v),
{
    reveal_strlit("mode");
    reveal_strlit("full");
    reveal_strlit("bodies");
    reveal_strlit("foundry_config");
    reveal_strlit("patch");
    reveal_strlit("bodies_updates");
    reveal_strlit("foundry_config_updates");
    assert("mode"@[0] != "full"@[0]);
    assert("mode"@.len() != "bodies"@.len());
    assert("mode"@.len() != "foundry_config"@.len());
    assert("mode"@.len() != "patch"@.len());
    assert("mode"@.len() != "bodies_updates"@.len());
    assert("mode"@.len() != "foundry_config_updates"@.len());
    assert("full"@.len() != "bodies"@.len());
    assert("full"@.len() != "foundry_config"@.len());
    assert("bodies"@.len() != "foundry_config"@.len());
    assert("patch"@.len() != "bodies_updates"@.len());
    assert("patch"@.len() != "foundry_config_updates"@.len());
    assert("bodies_updates"@.len() != "foundry_config_updates"@.len());
    if let Json::Object(ms) = v {
        let mode = obj_get(ms, "mode"@);
        if mode == Some(Json::Str("full"@)) {
            lemma_lifted_settled(ms, "full"@, "bodies"@, "foundry_config"@, "mode"@);
        } else if mode == Some(Json::Str("patch"@)) {
            lemma_lifted_settled(ms, "patch"@, "bodies_updates"@, "foundry_config_updates"@, "mode"@);
        }
    }
}

/// Puts a Groq response envelope in the canonical shape: for `mode: "full"`,
/// `bodies` and `foundry_config` nested under `full` move to the top level; for
/// `mode: "patch"`, `bodies_updates` and `foundry_config_updates` nested under
/// `patch` move up. A key already at the top level is kept.
pub fn normalize_envelope(value: &mut JsonValue)
    ensures
        json_view(*final(value)) == lifted_envelope(json_view(*old(value))),
{
    let mut v = JsonValue::Null;
    core::mem::swap(&mut v, value);
    match v {
        JsonValue::Object(mut ms) => {
            proof {
                lemma_object_view(ms);
                reveal_strlit("full");
                reveal_strlit("bodies");
                reveal_strlit("foundry_config");
                reveal_strlit("patch");
                reveal_strlit("bodies_updates");
                reveal_strlit("foundry_config_updates");
                assert("full"@.len() == 4);
                assert("bodies"@.len() == 6);
                assert("foundry_config"@.len() == 14);
                assert("patch"@.len() == 5);
                assert("bodies_updates"@.len() == 14);
                assert("bodies_updates"@[0] != "foundry_config_updates"@[0]);
            }
            let mode_key = key("mode");
            if member_is_str(&ms, &mode_key, "full") {
                lift(&mut ms, "full", "bodies", "foundry_config");
            } else if member_is_str(&ms, &mode_key, "patch") {
                lift(&mut ms, "patch", "bodies_updates", "foundry_config_updates");
            }
            proof {
                lemma_object_view(ms);
            }
            *value = JsonValue::Object(ms);
        },
        other => {
            *value = other;
        },
    }
}


/// Parses a Groq round payload as JSON and lifts its envelope; a payload that
/// is not JSON gives the error that names it.
pub fn lifted_payload(payload: &str) -> (r: Result<JsonValue, GenerationError>)
    ensures
        match parsed_json(payload@) {
            Some(j) => r matches Ok(v) && json_view(v) == lifted_envelope(j) && well_keyed(j)
                && well_keyed(json_view(v)),
            None => r matches Err(e) && e.message@ == unparsed_message(payload@),
        },
{
    match parse_json(payload) {
        Some(mut v) => {
            proof {
                lemma_lifted_envelope_well_keyed(json_view(v));
            }
            normalize_envelope(&mut v);
            Ok(v)
        },
        None => {
            let mut msg = chars_of("failed to parse structured response: ");
            append(&mut msg, &chars_of(payload));
            Err(GenerationError { message: string_of(&msg) })
        },
    }
}

} // verus!
