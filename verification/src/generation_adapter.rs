//! The generation adapter's own decisions: which environment variable carries
//! the provider key, and when a failed model call is retried.
use vstd::prelude::*;

use crate::generation::{usage_sum, GenerationUsage};
use crate::text::{append, chars_of, contains, contains_chars, copy_range, seg_len, string_of};

verus! {

/// What `str::to_uppercase` gives for a string (Unicode case mapping).
pub uninterp spec fn uppercase(s: Seq<char>) -> Seq<char>;

/// What `str::to_lowercase` gives for a string (Unicode case mapping).
pub uninterp spec fn lowercase(s: Seq<char>) -> Seq<char>;

/// `s` in upper case; calls `str::to_uppercase`.
#[verifier::external_body]
fn to_uppercase(s: &str) -> (r: String)
    ensures
        r@ == uppercase(s@),
{
    s.to_uppercase()
}

/// `s` in lower case; calls `str::to_lowercase`.
#[verifier::external_body]
fn to_lowercase(s: &str) -> (r: String)
    ensures
        r@ == lowercase(s@),
{
    s.to_lowercase()
}

/// The generation adapter: the model name (`provider/model`), the provider's
/// API key, and the client that answers the model calls.
pub struct LiteLlmGenerationAdapter<C> {
    model: String,
    api_key: String,
    client: C,
}

/// The part of a model name before its first `/` (the provider).
pub open spec fn provider_prefix(model: Seq<char>) -> Seq<char> {
    model.take(seg_len(model, '/') as int)
}

/// The environment variable that carries the provider's key: the provider
/// prefix in upper case, then `_API_KEY`.
pub open spec fn api_key_var(model: Seq<char>) -> Seq<char> {
    uppercase(provider_prefix(model)) + "_API_KEY"@
}

impl<C> LiteLlmGenerationAdapter<C> {
    /// The model name.
    pub closed spec fn spec_model(&self) -> Seq<char> {
        self.model@
    }

    /// The API key.
    pub closed spec fn spec_api_key(&self) -> Seq<char> {
        self.api_key@
    }

    /// The client.
    pub closed spec fn spec_client(&self) -> C {
        self.client
    }

    /// An adapter for `model` (`provider/model`) with the provider's `api_key`,
    /// asking `client`.
    pub fn new(model: String, api_key: String, client: C) -> (r: Self)
        ensures
            r.spec_model() == model@,
            r.spec_api_key() == api_key@,
            r.spec_client() == client,
    {
        Self { model, api_key, client }
    }

    /// The model name.
    pub fn model(&self) -> (r: &String)
        ensures
            r@ == self.spec_model(),
    {
        &self.model
    }

    /// The API key.
    pub fn api_key(&self) -> (r: &String)
        ensures
            r@ == self.spec_api_key(),
    {
        &self.api_key
    }

    /// The client.
    pub fn client(&self) -> (r: &C)
        ensures
            *r == self.spec_client(),
    {
        &self.client
    }

    /// Adds a call's usage, when it reported one, to the running total; each
    /// count saturates at `u64::MAX`.
    pub fn merge_usage(total: &mut GenerationUsage, usage: Option<GenerationUsage>)
        ensures
            *final(total) == match usage {
                Some(u) => usage_sum(*old(total), u),
                None => *old(total),
            },
    {
        if let Some(u) = usage {
            total.calls = total.calls.saturating_add(u.calls);
            total.prompt_tokens = total.prompt_tokens.saturating_add(u.prompt_tokens);
            total.completion_tokens = total.completion_tokens.saturating_add(u.completion_tokens);
            total.total_tokens = total.total_tokens.saturating_add(u.total_tokens);
            total.cached_prompt_tokens = total.cached_prompt_tokens.saturating_add(
                u.cached_prompt_tokens,
            );
            total.reasoning_tokens = total.reasoning_tokens.saturating_add(u.reasoning_tokens);
            total.thinking_tokens = total.thinking_tokens.saturating_add(u.thinking_tokens);
        }
    }

    /// The environment variable the key is published under before a
    /// generation: `<PROVIDER>_API_KEY`, for the provider prefix of the model.
    pub fn api_key_env_var(&self) -> (r: String)
        ensures
            r@ == api_key_var(self.spec_model()),
    {
        let m = chars_of(self.model.as_str());
        let mut i: usize = 0;
        while i < m.len() && m[i] != '/'
            invariant
                i <= m@.len(),
                forall|k: int| 0 <= k < i ==> m@[k] != '/',
            decreases m@.len() - i,
        {
            i = i + 1;
        }
        proof {
            crate::text::lemma_seg_len_at(m@, '/', 0, i as int);
            assert(m@.skip(0) =~= m@);
        }
        let prefix = string_of(&copy_range(&m, 0, i));
        assert(prefix@ =~= provider_prefix(m@));
        let mut out = chars_of(to_uppercase(prefix.as_str()).as_str());
        append(&mut out, &chars_of("_API_KEY"));
        string_of(&out)
    }
}

// ---------------------------------------------------------------------------
// Retrying model calls
// ---------------------------------------------------------------------------

/// How many times a model call is made before its error is returned.
pub const MAX_HTTP_RETRIES: u32 = 3;

/// A call error worth retrying: rate limits, overload, bad gateways,
/// connection failures and timeouts (matched case-insensitively).
pub open spec fn transient(msg: Seq<char>) -> bool {
    let lower = lowercase(msg);
    ||| contains(lower, "429"@)
    ||| contains(lower, "503"@)
    ||| contains(lower, "502"@)
    ||| contains(lower, "rate limit"@)
    ||| contains(lower, "overloaded"@)
    ||| contains(lower, "connection"@)
    ||| contains(lower, "timed out"@)
}

/// Whether a model call error is transient: its lower-cased message mentions
/// 429, 503, 502, a rate limit, overload, the connection, or a timeout.
pub fn is_transient_error(msg: &str) -> (r: bool)
    ensures
        r == transient(msg@),
{
    let lower = chars_of(to_lowercase(msg).as_str());
    contains_chars(&lower, &chars_of("429")) || contains_chars(&lower, &chars_of("503"))
        || contains_chars(&lower, &chars_of("502")) || contains_chars(
        &lower,
        &chars_of("rate limit"),
    ) || contains_chars(&lower, &chars_of("overloaded")) || contains_chars(
        &lower,
        &chars_of("connection"),
    ) || contains_chars(&lower, &chars_of("timed out"))
}

/// `2^n`.
pub open spec fn pow2(n: nat) -> nat
    decreases n,
{
    if n == 0 {
        1
    } else {
        2 * pow2((n - 1) as nat)
    }
}

/// After failed call number `attempt` (from 1) with error `msg`: the seconds
/// to wait before calling again (`2^attempt`), or `None` when the error is
/// returned because it is not transient or the attempts are used up.
pub fn retry_wait_secs(attempt: u32, msg: &str) -> (r: Option<u64>)
    requires
        1 <= attempt <= MAX_HTTP_RETRIES,
    ensures
        r is None <==> (!transient(msg@) || attempt == MAX_HTTP_RETRIES),
        r matches Some(w) ==> w == pow2(attempt as nat),
{
    if !is_transient_error(msg) || attempt == MAX_HTTP_RETRIES {
        return None;
    }
    assert(pow2(0) == 1 && pow2(1) == 2 && pow2(2) == 4 && pow2(3) == 8) by {
        reveal_with_fuel(pow2, 4);
    }
    let mut w: u64 = 1;
    let mut k: u32 = 0;
    while k < attempt
        invariant
            k <= attempt <= MAX_HTTP_RETRIES,
            w == pow2(k as nat),
            pow2(0) == 1 && pow2(1) == 2 && pow2(2) == 4 && pow2(3) == 8,
        decreases attempt - k,
    {
        w = w * 2;
        k = k + 1;
    }
    Some(w)
}

} // verus!
