use nobody::llm_service::{
    api_error, backoff_millis, check_prompt_budget, check_request, is_retryable_error,
    is_retryable_status, parse_response, should_retry_error, should_retry_status,
    config_file_path, validate_config_fields, next_step, AttemptOutcome, LLMResponse, LLMServiceError, NextStep,
    ResponseCache,
};

fn response(text: &str) -> LLMResponse {
    LLMResponse {
        text: text.to_string(),
        model: None,
        finish_reason: None,
        prompt_tokens: None,
        completion_tokens: None,
        total_tokens: None,
    }
}

#[test]
fn test_config_validation_success() {
    assert!(validate_config_fields("https://example.com/v1/chat/completions", "test-key", "gpt-test", 512).is_ok());
}

#[test]
fn test_config_validation_failure() {
    let r = validate_config_fields("", "test-key", "gpt-test", 512);
    assert!(r.is_err());
    assert_eq!(r.unwrap_err().to_string(), "invalid config: endpoint must not be empty");
}

#[test]
fn config_checks_each_field_in_order() {
    let r = validate_config_fields("https://x", "  ", "", 0);
    assert_eq!(r.unwrap_err().to_string(), "invalid config: api_key must not be empty");
    let r = validate_config_fields("https://x", "k", " ", 0);
    assert_eq!(r.unwrap_err().to_string(), "invalid config: model must not be empty");
    let r = validate_config_fields("https://x", "k", "m", 0);
    assert_eq!(r.unwrap_err().to_string(), "invalid config: max_tokens must be greater than 0");
}

#[test]
fn test_parse_chat_style_response() {
    let raw = r#"{"id":"abc","model":"gpt-test","choices":[{"message":{"role":"assistant","content":"hello cultivator"},"finish_reason":"stop"}],"usage":{"prompt_tokens":12,"completion_tokens":8,"total_tokens":20}}"#;
    let parsed = parse_response(raw).unwrap();
    assert_eq!(parsed.text, "hello cultivator");
    assert_eq!(parsed.model, Some("gpt-test".to_string()));
    assert_eq!(parsed.total_tokens, Some(20));
    assert_eq!(parsed.prompt_tokens, Some(12));
    assert_eq!(parsed.completion_tokens, Some(8));
    assert_eq!(parsed.finish_reason, Some("stop".to_string()));
}

#[test]
fn test_parse_completion_style_response() {
    let raw = r#"{"model":"gpt-test","choices":[{"text":"plain completion response","finish_reason":"stop"}]}"#;
    let parsed = parse_response(raw).unwrap();
    assert_eq!(parsed.text, "plain completion response");
}

#[test]
fn test_parse_response_without_text_fails() {
    let raw = r#"{"model":"gpt-test","choices":[{"message":{"role":"assistant","content":"   "},"finish_reason":"stop"}]}"#;
    let result = parse_response(raw);
    assert!(matches!(result, Err(LLMServiceError::InvalidResponse(_))));
}

#[test]
fn output_text_is_the_last_resort_and_usage_must_fit() {
    let raw = r#"{"output_text":"  spoken  ","usage":{"total_tokens":5000000000}}"#;
    let parsed = parse_response(raw).unwrap();
    assert_eq!(parsed.text, "spoken");
    assert_eq!(parsed.total_tokens, None);
    assert!(matches!(parse_response("not json"), Err(LLMServiceError::InvalidResponse(_))));
}

#[test]
fn prompt_over_budget_is_refused() {
    let long_prompt = (0..300).map(|_| "token").collect::<Vec<_>>().join(" ");
    let max = check_request(&long_prompt, Some(3), 512).unwrap();
    assert_eq!(max, 3);
    let result = check_prompt_budget(&long_prompt, max);
    assert_eq!(
        result.unwrap_err().to_string(),
        "invalid request: estimated prompt tokens 300 exceeds prompt limit 192"
    );
    assert!(check_prompt_budget(&long_prompt, 5).is_ok());
}

#[test]
fn request_checks_prompt_then_budget() {
    assert_eq!(
        check_request("  ", Some(3), 512).unwrap_err().to_string(),
        "invalid request: prompt must not be empty"
    );
    assert_eq!(
        check_request("hi", Some(0), 512).unwrap_err().to_string(),
        "invalid request: max_tokens must be greater than 0"
    );
    assert_eq!(check_request("hi", None, 512).unwrap(), 512);
    assert_eq!(check_request("hi", Some(4096), 512).unwrap(), 512);
}

#[test]
fn test_cache_hit_returns_cached_response() {
    let mut cache = ResponseCache::new(16, 600_000_000_000);
    let response = LLMResponse {
        text: "cached".to_string(),
        model: Some("gpt-test".to_string()),
        finish_reason: Some("stop".to_string()),
        prompt_tokens: Some(1),
        completion_tokens: Some(1),
        total_tokens: Some(2),
    };
    cache.insert("k1".to_string(), response.duplicate());
    let cached = cache.get("k1");
    assert_eq!(cached, Some(response));
}

#[test]
fn test_cache_expiry_removes_entry() {
    let mut cache = ResponseCache::new(10, 10);
    cache.insert_at("k1".to_string(), response("cached"), 1_000);
    assert!(cache.get_at("k1", 1_005).is_some());
    assert!(cache.get_at("k1", 1_020).is_none());
}

#[test]
fn test_cache_lru_eviction() {
    let mut cache = ResponseCache::new(2, 60_000_000_000);
    cache.insert("a".to_string(), response("a"));
    cache.insert("b".to_string(), response("b"));

    let _ = cache.get("a");
    cache.insert("c".to_string(), response("c"));

    assert!(cache.get("a").is_some());
    assert!(cache.get("b").is_none());
    assert!(cache.get("c").is_some());
}

#[test]
fn lru_eviction_at_fixed_times() {
    let mut cache = ResponseCache::new(2, 60_000);
    cache.insert_at("a".to_string(), response("a"), 0);
    cache.insert_at("b".to_string(), response("b"), 1);
    let _ = cache.get_at("a", 2);
    cache.insert_at("c".to_string(), response("c"), 3);

    assert!(cache.get_at("a", 4).is_some());
    assert!(cache.get_at("b", 5).is_none());
    assert!(cache.get_at("c", 6).is_some());
    assert_eq!(cache.len(), 2);
}

#[test]
fn read_at_the_end_of_the_ttl_still_hits() {
    let mut cache = ResponseCache::new(4, 10);
    cache.insert_at("k".to_string(), response("v"), 1_000);
    assert_eq!(cache.get_at("k", 1_010).map(|r| r.text), Some("v".to_string()));
    assert!(cache.get_at("k", 1_011).is_none());
}

#[test]
fn replacing_a_key_in_a_full_cache_evicts_nothing() {
    let mut cache = ResponseCache::new(2, 60_000);
    cache.insert_at("a".to_string(), response("a"), 0);
    cache.insert_at("b".to_string(), response("b"), 1);
    cache.insert_at("a".to_string(), response("a2"), 2);
    assert_eq!(cache.len(), 2);
    assert_eq!(cache.get_at("a", 3).map(|r| r.text), Some("a2".to_string()));
    assert_eq!(cache.get_at("b", 4).map(|r| r.text), Some("b".to_string()));
}

#[test]
fn zero_capacity_cache_still_holds_one() {
    let mut cache = ResponseCache::new(0, 60_000);
    cache.insert_at("a".to_string(), response("a"), 0);
    cache.insert_at("b".to_string(), response("b"), 1);
    assert_eq!(cache.len(), 1);
    assert_eq!(cache.get_at("b", 2).map(|r| r.text), Some("b".to_string()));
}

#[test]
fn test_retryable_status_detection() {
    assert!(is_retryable_status(500));
    assert!(is_retryable_status(503));
    assert!(is_retryable_status(429));
    assert!(!is_retryable_status(400));
    assert!(!is_retryable_status(401));
}

#[test]
fn test_retryable_error_detection() {
    let api_err = LLMServiceError::Api("status=503 body=oops".to_string());
    assert!(is_retryable_error(&api_err));
    let api_err = LLMServiceError::Api("status=400 body=bad".to_string());
    assert!(!is_retryable_error(&api_err));
    let timeout = LLMServiceError::Timeout;
    assert!(is_retryable_error(&timeout));
}

#[test]
fn retry_decisions_stop_after_two_retries() {
    let err = api_error("502 Bad Gateway", "upstream");
    assert_eq!(err.to_string(), "llm api returned error: status=502 Bad Gateway body=upstream");
    assert!(should_retry_error(1, &err));
    assert!(should_retry_error(2, &err));
    assert!(!should_retry_error(3, &err));
    assert!(should_retry_status(2, 429));
    assert!(!should_retry_status(1, 404));
    assert!(is_retryable_error(&LLMServiceError::Api("status=429, body".to_string())));
    assert!(!is_retryable_error(&LLMServiceError::InvalidRequest("x".to_string())));
    assert_eq!(backoff_millis(3), 600);
}

#[test]
fn attempts_are_retried_then_given_up() {
    let refused = |status: u16| AttemptOutcome::Refused {
        status,
        status_line: format!("{status} Busy"),
        body: "later".to_string(),
    };
    assert!(matches!(next_step(1, refused(503)), NextStep::Retry { wait_ms: 200 }));
    assert!(matches!(next_step(2, refused(429)), NextStep::Retry { wait_ms: 400 }));
    match next_step(3, refused(503)) {
        NextStep::Fail(LLMServiceError::Api(m)) => assert_eq!(m, "status=503 Busy body=later"),
        _ => panic!("expected an api error"),
    }
    match next_step(1, refused(400)) {
        NextStep::Fail(LLMServiceError::Api(m)) => assert_eq!(m, "status=400 Busy body=later"),
        _ => panic!("expected an api error"),
    }
    assert!(matches!(next_step(1, AttemptOutcome::Transport(LLMServiceError::Timeout)), NextStep::Retry { wait_ms: 200 }));
    assert!(matches!(
        next_step(3, AttemptOutcome::Transport(LLMServiceError::Timeout)),
        NextStep::Fail(LLMServiceError::Timeout)
    ));
    let invalid = AttemptOutcome::Transport(LLMServiceError::InvalidRequest("x".to_string()));
    assert!(matches!(next_step(1, invalid), NextStep::Fail(LLMServiceError::InvalidRequest(_))));
}

#[test]
fn answers_are_read_or_refused() {
    let body = r#"{"model":"m","choices":[{"message":{"content":"  你好  "},"finish_reason":"stop"}]}"#;
    match next_step(1, AttemptOutcome::Answered(body.to_string())) {
        NextStep::Done(r) => {
            assert_eq!(r.text, "你好");
            assert_eq!(r.model.as_deref(), Some("m"));
            assert_eq!(r.finish_reason.as_deref(), Some("stop"));
        }
        _ => panic!("expected a response"),
    }
    match next_step(1, AttemptOutcome::Answered("{}".to_string())) {
        NextStep::Fail(LLMServiceError::InvalidResponse(m)) => assert_eq!(m, "unable to locate text content"),
        _ => panic!("expected an invalid response"),
    }
}

#[test]
fn settings_file_sits_in_the_working_directory() {
    assert_eq!(config_file_path(), ".nobody_llm_config.json");
}
