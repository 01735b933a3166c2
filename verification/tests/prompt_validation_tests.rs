use nobody::llm_service::LLMResponse;
use nobody::prompt_builder::{
    estimate_token_count, truncate_text, PromptBuilder, PromptConstraints, PromptContext,
    PromptTemplate,
};
use nobody::response_validator::{ResponseValidator, ValidationConstraints, ValidationError};

fn full_context() -> PromptContext {
    PromptContext {
        scene: Some("A tense breakthrough attempt in the sect hall".to_string()),
        location: Some("Azure Cloud Sect".to_string()),
        actor_name: Some("Lin Mo".to_string()),
        actor_realm: Some("Qi Condensation - Late".to_string()),
        actor_combat_power: Some(356),
        history_events: vec![
            "Defeated a rogue cultivator".to_string(),
            "Consumed a spirit pill".to_string(),
        ],
        world_setting_summary: Some("Five-element cultivation world with strict sect laws".to_string()),
    }
}

fn strict_prompt_constraints() -> PromptConstraints {
    PromptConstraints {
        numerical_rules: vec![
            "No realm jump larger than one major realm per event".to_string(),
            "Combat outcomes must respect combat power delta".to_string(),
        ],
        world_rules: vec!["The sect forbids lethal combat inside the mountain gate".to_string()],
        output_schema_hint: Some("Return JSON: {\"text\": string, \"events\": string[]}".to_string()),
    }
}

#[test]
fn test_build_prompt_includes_template_instruction() {
    let builder = PromptBuilder::default_builder();
    let prompt = builder.build_prompt(
        PromptTemplate::NpcDecision,
        &PromptContext::default(),
        &PromptConstraints::default(),
    );
    assert!(prompt.contains("Generate an NPC decision"));
    assert!(prompt.contains("[Task]"));
}

#[test]
fn test_build_prompt_includes_context_and_constraints() {
    let builder = PromptBuilder::default_builder();
    let prompt = builder.build_prompt(
        PromptTemplate::PlotGeneration,
        &full_context(),
        &strict_prompt_constraints(),
    );
    assert!(prompt.contains("Scene: A tense breakthrough attempt in the sect hall"));
    assert!(prompt.contains("Location: Azure Cloud Sect"));
    assert!(prompt.contains("Actor: Lin Mo"));
    assert!(prompt.contains("Realm: Qi Condensation - Late"));
    assert!(prompt.contains("CombatPower: 356"));
    assert!(prompt.contains("WorldSetting: Five-element cultivation world"));
    assert!(prompt.contains("No realm jump larger than one major realm per event"));
    assert!(prompt.contains("The sect forbids lethal combat inside the mountain gate"));
    assert!(prompt.contains("Return JSON"));
}

#[test]
fn test_build_prompt_limits_history_size() {
    let builder = PromptBuilder::new(2);
    let context = PromptContext {
        history_events: vec!["event-1".to_string(), "event-2".to_string(), "event-3".to_string()],
        ..PromptContext::default()
    };
    let prompt = builder.build_prompt(PromptTemplate::OptionGeneration, &context, &PromptConstraints::default());
    assert!(!prompt.contains("- event-1"));
    assert!(prompt.contains("- event-2"));
    assert!(prompt.contains("- event-3"));
}

#[test]
fn test_build_prompt_with_token_limit_truncates_history() {
    let builder = PromptBuilder::new(10);
    let context = PromptContext {
        history_events: vec![
            "long history event one".to_string(),
            "long history event two".to_string(),
            "long history event three".to_string(),
        ],
        ..PromptContext::default()
    };
    let prompt = builder.build_prompt_with_token_limit(
        PromptTemplate::PlotGeneration,
        &context,
        &PromptConstraints::default(),
        20,
    );
    assert!(builder.estimate_prompt_tokens(&prompt) <= 20);
}

#[test]
fn test_estimate_token_count_non_empty() {
    let tokens = estimate_token_count("alpha beta gamma");
    assert_eq!(tokens, 3);
}

#[test]
fn token_estimate_without_words_counts_quarter_characters() {
    assert_eq!(estimate_token_count(""), 0);
    assert_eq!(estimate_token_count("   "), 1);
    assert_eq!(estimate_token_count("      "), 2);
}

#[test]
fn truncation_marks_the_cut() {
    assert_eq!(truncate_text("abcdef", 3), "abc...");
    assert_eq!(truncate_text("abc", 3), "abc");
}

#[test]
fn full_prompt_shows_every_history_line_and_rule() {
    let builder = PromptBuilder::default_builder();
    let prompt = builder.build_prompt(
        PromptTemplate::PlotGeneration,
        &full_context(),
        &strict_prompt_constraints(),
    );
    assert!(prompt.contains("- Defeated a rogue cultivator"));
    assert!(prompt.contains("- Consumed a spirit pill"));
    assert!(prompt.contains("- Combat outcomes must respect combat power delta"));
}

#[test]
fn tight_budget_is_respected_for_ordinary_context() {
    let builder = PromptBuilder::new(20);
    for limit in [10u32, 30, 60, 120] {
        let context = PromptContext {
            scene: Some("Test Scene".to_string()),
            location: Some("Sect".to_string()),
            actor_name: Some("Player".to_string()),
            actor_realm: Some("Qi Condensation".to_string()),
            actor_combat_power: Some(100),
            history_events: (0..15).map(|i| format!("history entry number {}", i)).collect(),
            world_setting_summary: Some("Cultivation world".to_string()),
        };
        let prompt = builder.build_prompt_with_token_limit(
            PromptTemplate::PlotGeneration,
            &context,
            &PromptConstraints::default(),
            limit,
        );
        assert!(builder.estimate_prompt_tokens(&prompt) <= limit);
    }
}

fn build_response(text: String) -> LLMResponse {
    LLMResponse {
        text,
        model: Some("gpt-test".to_string()),
        finish_reason: Some("stop".to_string()),
        prompt_tokens: None,
        completion_tokens: None,
        total_tokens: None,
    }
}

fn strict_constraints() -> ValidationConstraints {
    ValidationConstraints {
        require_json: true,
        max_realm_level: Some(3),
        min_combat_power: Some(100),
        max_combat_power: Some(1000),
        max_current_age: Some(200),
    }
}

fn update(level: u32, power: u64, age: u32) -> String {
    format!(
        "{{\"character_update\":{{\"realm_level\":{},\"combat_power\":{},\"current_age\":{}}}}}",
        level, power, age
    )
}

#[test]
fn test_validate_response_success() {
    let validator = ResponseValidator::default_validator();
    let response = build_response(update(2, 350, 28));
    assert!(validator.validate_response(&response, &strict_constraints()).is_ok());
}

#[test]
fn test_validate_response_rejects_invalid_json() {
    let validator = ResponseValidator::default_validator();
    let response = build_response("{invalid json}".to_string());
    let result = validator.validate_response(&response, &strict_constraints());
    assert!(matches!(result, Err(ValidationError::InvalidJson(_))));
}

#[test]
fn test_validate_response_rejects_numerical_violation() {
    let validator = ResponseValidator::default_validator();
    let response = build_response(update(9, 350, 28));
    let result = validator.validate_response(&response, &strict_constraints());
    assert!(matches!(result, Err(ValidationError::NumericalConstraintViolation(_))));
}

#[test]
fn test_validate_with_retry_returns_valid_retry_response() {
    let validator = ResponseValidator::new(2);
    let constraints = strict_constraints();
    let initial = build_response("not json".to_string());
    let result = validator.validate_with_retry_or_fallback(
        initial,
        &constraints,
        |attempt| {
            if attempt == 1 {
                Some(build_response(update(2, 320, 31)))
            } else {
                None
            }
        },
        None,
    );
    assert!(result.is_ok());
    assert!(result.unwrap().text.contains("realm_level"));
}

#[test]
fn test_validate_with_retry_uses_fallback() {
    let validator = ResponseValidator::new(1);
    let constraints = strict_constraints();
    let initial = build_response("not json".to_string());
    let fallback = build_response(update(1, 200, 18));
    let result = validator.validate_with_retry_or_fallback(
        initial,
        &constraints,
        |_attempt| Some(build_response("still invalid".to_string())),
        Some(fallback.clone()),
    );
    assert!(result.is_ok());
    assert_eq!(result.unwrap(), fallback);
}

#[test]
fn every_rejection_kind_has_its_text() {
    let validator = ResponseValidator::new(1);
    let c = strict_constraints();
    let empty = validator.validate_response(&build_response("  ".to_string()), &c);
    assert_eq!(empty.unwrap_err().to_string(), "response text is empty");
    let missing = validator.validate_response(&build_response("{}".to_string()), &c);
    assert_eq!(missing.unwrap_err().to_string(), "missing required field: realm_level");
    let low = validator.validate_response(&build_response(update(1, 50, 20)), &c);
    assert_eq!(low.unwrap_err().to_string(), "numerical constraint violation: combat_power 50 is below min 100");
    let old = validator.validate_response(&build_response(update(1, 500, 300)), &c);
    assert_eq!(old.unwrap_err().to_string(), "numerical constraint violation: current_age 300 exceeds max 200");
    let flat = validator.validate_response(&build_response("{\"realm_level\":2,\"combat_power\":150,\"current_age\":20}".to_string()), &c);
    assert!(flat.is_ok());
    let exhausted = validator.validate_with_retry_or_fallback(
        build_response("bad".to_string()),
        &c,
        |_attempt| Some(build_response("worse".to_string())),
        None,
    );
    match exhausted {
        Err(ValidationError::RetryExhausted { attempts, last_error }) => {
            assert_eq!(attempts, 1);
            assert!(last_error.starts_with("invalid json: "));
        }
        other => panic!("unexpected {:?}", other),
    }
    let none_left =
        validator.validate_with_retry_or_fallback(build_response("bad".to_string()), &c, |_attempt| None, None);
    assert_eq!(
        none_left.unwrap_err().to_string(),
        "validation failed after 1 attempts, last error: no retry response available"
    );
}

#[test]
fn plain_text_responses_pass_when_json_is_not_required() {
    let validator = ResponseValidator::default_validator();
    let c = ValidationConstraints {
        require_json: false,
        max_realm_level: Some(1),
        min_combat_power: None,
        max_combat_power: None,
        max_current_age: None,
    };
    assert!(validator.validate_response(&build_response("just prose".to_string()), &c).is_ok());
    assert!(validator.validate_json_format("[1, 2]").is_ok());
    assert!(validator.validate_json_format("[1, 2").is_err());
}

#[test]
fn one_letter_rules_are_cut_to_the_limit() {
    let builder = PromptBuilder::new(20);
    let rule = vec!["a"; 300].join(" ");
    let constraints = PromptConstraints {
        numerical_rules: vec![],
        world_rules: vec![rule],
        output_schema_hint: None,
    };
    for limit in [0u32, 1, 10, 100] {
        let prompt = builder.build_prompt_with_token_limit(
            PromptTemplate::PlotGeneration,
            &full_context(),
            &constraints,
            limit,
        );
        assert!(builder.estimate_prompt_tokens(&prompt) <= limit.max(1), "limit {limit}");
    }
}

#[test]
fn retries_are_asked_in_order_and_stop_at_the_first_valid_answer() {
    let validator = ResponseValidator::new(5);
    let constraints = strict_constraints();
    let mut asked: Vec<u32> = Vec::new();
    let result = validator.validate_with_retry_or_fallback(
        build_response("not json".to_string()),
        &constraints,
        |attempt| {
            asked.push(attempt);
            match attempt {
                1 => None,
                2 => Some(build_response("still bad".to_string())),
                _ => Some(build_response(update(attempt, 300, 30))),
            }
        },
        None,
    );
    assert_eq!(asked, vec![1, 2, 3]);
    assert!(result.unwrap().text.contains("\"realm_level\":3"));
}

#[test]
fn a_valid_first_answer_asks_for_no_retry() {
    let validator = ResponseValidator::new(3);
    let constraints = strict_constraints();
    let mut asked = 0;
    let initial = build_response(update(1, 200, 18));
    let result = validator.validate_with_retry_or_fallback(
        initial.clone(),
        &constraints,
        |_attempt| {
            asked += 1;
            None
        },
        None,
    );
    assert_eq!(asked, 0);
    assert_eq!(result.unwrap(), initial);
}

#[test]
fn responses_given_in_advance_are_scanned_in_order() {
    let validator = ResponseValidator::new(2);
    let constraints = strict_constraints();
    let retries = vec![None, Some(build_response(update(2, 320, 31)))];
    let result =
        validator.validate_with_responses(build_response("not json".to_string()), &constraints, &retries, None);
    assert!(result.unwrap().text.contains("realm_level"));
}
