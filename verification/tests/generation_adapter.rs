use fuzzming::generation_adapter::{
    is_transient_error, retry_wait_secs, LiteLlmGenerationAdapter, MAX_HTTP_RETRIES,
};

#[test]
fn transient_errors_are_recognised_case_insensitively() {
    assert!(is_transient_error("HTTP 429 Too Many Requests"));
    assert!(is_transient_error("Rate Limit exceeded"));
    assert!(is_transient_error("model OVERLOADED"));
    assert!(is_transient_error("Connection reset by peer"));
    assert!(is_transient_error("request Timed Out"));
    assert!(is_transient_error("502 Bad Gateway"));
    assert!(is_transient_error("503"));
    assert!(!is_transient_error("invalid api key"));
    assert!(!is_transient_error(""));
}

#[test]
fn retry_waits_double_until_the_attempts_run_out() {
    assert_eq!(MAX_HTTP_RETRIES, 3);
    assert_eq!(retry_wait_secs(1, "429"), Some(2));
    assert_eq!(retry_wait_secs(2, "rate limit"), Some(4));
    assert_eq!(retry_wait_secs(3, "rate limit"), None);
    assert_eq!(retry_wait_secs(1, "bad request"), None);
}

#[test]
fn api_key_variable_follows_the_provider_prefix() {
    let adapter = LiteLlmGenerationAdapter::new("groq/llama-3".to_string(), "k".to_string(), 7u8);
    assert_eq!(adapter.api_key_env_var(), "GROQ_API_KEY");
    assert_eq!(adapter.model(), "groq/llama-3");
    assert_eq!(adapter.api_key(), "k");
    assert_eq!(*adapter.client(), 7u8);
    let plain = LiteLlmGenerationAdapter::new("gpt-4o".to_string(), String::new(), ());
    assert_eq!(plain.api_key_env_var(), "GPT-4O_API_KEY");
    let upper = LiteLlmGenerationAdapter::new("openRouter/x/y".to_string(), String::new(), ());
    assert_eq!(upper.api_key_env_var(), "OPENROUTER_API_KEY");
}
