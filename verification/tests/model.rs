use agentos_core::model::{
    classify_model_adapter_error, classify_model_error_message, DefaultModelRetryPolicy,
    ModelAdapterError, ModelCapabilities, ModelCircuitBreaker, ModelCircuitBreakerConfig,
    ModelCircuitBreakerState, ModelId, ModelMessage, ModelOutput, ModelProfile, ModelProvider,
    ModelRegistry, ModelRequest, ModelRetryConfig, ModelRetryDecision, ModelRetryErrorClass,
    ModelRetryPolicy, ModelRole, ModelStreamAccumulator, ModelStreamEvent,
    ModelStreamFinishReason, ModelToolCallDelta, ModelUsage, StructuredOutputFormat,
};

#[derive(Debug, Clone, PartialEq, Eq)]
struct ProviderCompatibilityCase {
    provider: &'static str,
    model_id: &'static str,
    supports_complete: bool,
    supports_tools: bool,
    supports_streaming: bool,
    supports_json: bool,
    supports_vision: bool,
    max_context_tokens: Option<u32>,
    real_smoke_env: Option<&'static str>,
}

fn compatibility_matrix() -> Vec<ProviderCompatibilityCase> {
    vec![
        ProviderCompatibilityCase {
            provider: "openai_compatible",
            model_id: "openai-compatible/test-chat",
            supports_complete: true,
            supports_tools: true,
            supports_streaming: true,
            supports_json: true,
            supports_vision: false,
            max_context_tokens: Some(128_000),
            real_smoke_env: Some("AGENTOS_OPENAI_COMPAT_SMOKE_URL"),
        },
        ProviderCompatibilityCase {
            provider: "anthropic",
            model_id: "anthropic/model-test",
            supports_complete: true,
            supports_tools: true,
            supports_streaming: true,
            supports_json: true,
            supports_vision: false,
            max_context_tokens: Some(200_000),
            real_smoke_env: Some("AGENTOS_ANTHROPIC_SMOKE_URL"),
        },
        ProviderCompatibilityCase {
            provider: "local",
            model_id: "local/text-only",
            supports_complete: true,
            supports_tools: false,
            supports_streaming: false,
            supports_json: false,
            supports_vision: false,
            max_context_tokens: Some(32_768),
            real_smoke_env: None,
        },
    ]
}

fn provider_for(case: &ProviderCompatibilityCase) -> ModelProvider {
    match case.provider {
        "openai_compatible" => ModelProvider::OpenAi,
        "anthropic" => ModelProvider::Anthropic,
        "local" => ModelProvider::Local,
        other => ModelProvider::Custom(other.to_string()),
    }
}

fn capabilities_for(case: &ProviderCompatibilityCase) -> ModelCapabilities {
    let mut capabilities = ModelCapabilities::text_only()
        .streaming(case.supports_streaming)
        .vision(case.supports_vision)
        .json(case.supports_json);
    capabilities.supports_tools = case.supports_tools;
    if let Some(max_context_tokens) = case.max_context_tokens {
        capabilities = capabilities.max_context_tokens(max_context_tokens);
    }
    capabilities
}

fn registry_from_matrix() -> ModelRegistry {
    let mut registry = ModelRegistry::new();
    for case in compatibility_matrix() {
        registry
            .register(ModelProfile::new(
                case.model_id,
                provider_for(&case),
                case.model_id,
                capabilities_for(&case),
            ))
            .unwrap();
    }
    registry
}

#[test]
fn mock_compatibility_matrix_registers_all_provider_profiles() {
    let matrix = compatibility_matrix();
    let registry = registry_from_matrix();

    assert_eq!(registry.len(), matrix.len());
    for case in matrix {
        assert!(case.supports_complete);
        let profile = registry.get(&ModelId::from(case.model_id)).unwrap();
        assert_eq!(profile.id, ModelId::from(case.model_id));
        assert_eq!(profile.supports_tools(), case.supports_tools);
        assert_eq!(profile.supports_streaming(), case.supports_streaming);
        assert_eq!(profile.supports_json(), case.supports_json);
        assert_eq!(profile.supports_vision(), case.supports_vision);
        assert_eq!(profile.max_context_tokens(), case.max_context_tokens);
    }
}

#[test]
fn mock_compatibility_matrix_enforces_tool_capabilities() {
    let registry = registry_from_matrix();
    for case in compatibility_matrix() {
        let model_id = ModelId::from(case.model_id);
        let result = registry.require_tools(&model_id);
        assert_eq!(result.is_ok(), case.supports_tools, "{}", case.model_id);
    }
}

#[test]
fn mock_compatibility_matrix_declares_real_smoke_env_gates() {
    let env_gated: Vec<_> = compatibility_matrix()
        .into_iter()
        .filter(|case| case.real_smoke_env.is_some())
        .collect();

    assert_eq!(env_gated.len(), 2);
    assert!(env_gated.iter().any(|case| {
        case.provider == "openai_compatible"
            && case.real_smoke_env == Some("AGENTOS_OPENAI_COMPAT_SMOKE_URL")
    }));
    assert!(env_gated.iter().any(|case| {
        case.provider == "anthropic" && case.real_smoke_env == Some("AGENTOS_ANTHROPIC_SMOKE_URL")
    }));
}

#[test]
fn model_usage_accounts_total_tokens() {
    let usage = ModelUsage { input_tokens: 10, output_tokens: 7 };
    assert_eq!(usage.total_tokens(), 17);
}

#[test]
fn model_registry_registers_and_resolves_default_model() {
    let mut registry = ModelRegistry::new();
    registry.register(ModelProfile::test_profile("test/default")).unwrap();
    registry.set_default("test/default").unwrap();

    let default = registry.default_model().unwrap();
    assert_eq!(default.id, ModelId::from("test/default"));
    assert_eq!(default.provider, ModelProvider::Test);
}

#[test]
fn model_registry_without_default_reports_it() {
    let mut registry = ModelRegistry::new();
    assert!(registry.is_empty());
    registry.register(ModelProfile::test_profile("test/default")).unwrap();
    assert_eq!(registry.default_model().unwrap_err(), ModelAdapterError::DefaultModelNotSet);
}

#[test]
fn model_registry_rejects_duplicate_model_id() {
    let mut registry = ModelRegistry::new();
    registry.register(ModelProfile::test_profile("test/default")).unwrap();
    let error = registry.register(ModelProfile::test_profile("test/default")).unwrap_err();
    assert_eq!(error, ModelAdapterError::DuplicateModelId(ModelId::from("test/default")));
    assert_eq!(registry.len(), 1);
}

#[test]
fn model_registry_tracks_provider_neutral_capabilities() {
    let profile = ModelProfile::new(
        "openai/gpt-test",
        ModelProvider::OpenAi,
        "GPT Test",
        ModelCapabilities::tool_calling()
            .streaming(true)
            .vision(true)
            .max_context_tokens(128_000),
    );
    assert!(profile.supports_tools());
    assert!(profile.supports_streaming());
    assert!(profile.supports_vision());
    assert!(profile.supports_json());
    assert_eq!(profile.max_context_tokens(), Some(128_000));
}

#[test]
fn model_registry_requires_capability_before_tool_use() {
    let mut registry = ModelRegistry::new();
    registry.register(ModelProfile::test_profile("fake/text-only")).unwrap();
    registry
        .register(ModelProfile::new(
            "fake/tools",
            ModelProvider::Test,
            "Fake Tools",
            ModelCapabilities::tool_calling(),
        ))
        .unwrap();

    let text_only = ModelId::from("fake/text-only");
    let tool_model = ModelId::from("fake/tools");

    assert!(matches!(
        registry.require_tools(&text_only),
        Err(ModelAdapterError::UnsupportedModelCapability { capability: "tools", .. })
    ));
    assert_eq!(registry.require_tools(&tool_model).unwrap().id, tool_model);
    assert!(matches!(
        registry.require_streaming(&tool_model),
        Err(ModelAdapterError::UnsupportedModelCapability { capability: "streaming", .. })
    ));
    assert!(registry.require_json(&tool_model).is_ok());
    assert!(matches!(
        registry.require_vision(&tool_model),
        Err(ModelAdapterError::UnsupportedModelCapability { capability: "vision", .. })
    ));
    assert_eq!(
        registry.require_tools(&ModelId::from("missing")).unwrap_err(),
        ModelAdapterError::ModelNotFound(ModelId::from("missing"))
    );
}

#[test]
fn model_registry_rejects_missing_default_model() {
    let mut registry = ModelRegistry::new();
    registry.register(ModelProfile::test_profile("test/default")).unwrap();
    let error = registry.set_default("missing").unwrap_err();
    assert_eq!(error, ModelAdapterError::ModelNotFound(ModelId::from("missing")));
}

#[test]
fn model_messages_carry_roles() {
    let request = ModelRequest::new(
        "test/default",
        vec![
            ModelMessage::system("You are concise."),
            ModelMessage::user("Hello"),
            ModelMessage::assistant("Hi"),
        ],
    );
    assert_eq!(request.model_id.as_str(), "test/default");
    assert_eq!(request.messages[0].role, ModelRole::System);
    assert_eq!(request.messages[1].role, ModelRole::User);
    assert_eq!(request.messages[2].role, ModelRole::Assistant);
    assert_eq!(request.messages[2].text, "Hi");
    assert!(request.temperature_millis.is_none());
    assert!(request.max_output_tokens.is_none());
    assert!(request.metadata.is_empty());
}

#[test]
fn model_output_text_accessor() {
    let output = ModelOutput::Text { text: "Hello".to_string(), usage: None };
    assert_eq!(output.text(), Some("Hello"));
    assert!(output.usage().is_none());
}

#[test]
fn model_output_tool_calls_content_accessor() {
    let output = ModelOutput::ToolCalls {
        content: Some("Thinking...".to_string()),
        tool_calls: vec![],
        usage: Some(ModelUsage { input_tokens: 1, output_tokens: 2 }),
    };
    assert_eq!(output.text(), Some("Thinking..."));
    assert_eq!(output.usage(), Some(&ModelUsage { input_tokens: 1, output_tokens: 2 }));
}

#[test]
fn model_output_tool_calls_none_content_accessor() {
    let output = ModelOutput::ToolCalls { content: None, tool_calls: vec![], usage: None };
    assert_eq!(output.text(), None);
}

#[test]
fn stream_accumulator_collects_text_and_usage() {
    let events = vec![
        ModelStreamEvent::Started { model_id: ModelId::from("test/default") },
        ModelStreamEvent::TextDelta { delta: "hello ".to_string() },
        ModelStreamEvent::TextDelta { delta: "world".to_string() },
        ModelStreamEvent::Usage { usage: ModelUsage { input_tokens: 2, output_tokens: 3 } },
        ModelStreamEvent::Finished { reason: ModelStreamFinishReason::Stop },
    ];
    let accumulator = ModelStreamAccumulator::from_events(&events);
    assert_eq!(accumulator.text, "hello world");
    assert_eq!(accumulator.usage.unwrap().total_tokens(), 5);
    assert_eq!(accumulator.finished, Some(ModelStreamFinishReason::Stop));
    assert!(accumulator.errors.is_empty());
}

#[test]
fn stream_accumulator_records_errors_and_ignores_tool_deltas() {
    let mut accumulator = ModelStreamAccumulator::new();
    accumulator.apply(&ModelStreamEvent::ToolCallDelta(ModelToolCallDelta::arguments(0, "{}")));
    accumulator.apply(&ModelStreamEvent::Error { message: "boom".to_string() });
    accumulator.apply(&ModelStreamEvent::Finished { reason: ModelStreamFinishReason::Error });
    assert_eq!(accumulator.text, "");
    assert_eq!(accumulator.errors, vec!["boom".to_string()]);
    assert_eq!(accumulator.finished, Some(ModelStreamFinishReason::Error));
    assert!(accumulator.usage.is_none());
}

#[test]
fn tool_call_delta_arguments_builder() {
    let delta = ModelToolCallDelta::arguments(2, "{\"q\":");
    assert_eq!(delta.index, 2);
    assert_eq!(delta.id_delta, None);
    assert_eq!(delta.name_delta, None);
    assert_eq!(delta.arguments_delta.as_deref(), Some("{\"q\":"));
}

#[test]
fn retry_classifier_treats_structured_output_errors_as_validation() {
    assert_eq!(
        classify_model_adapter_error(&ModelAdapterError::StructuredOutputSchemaViolation(
            "missing title".to_string()
        )),
        ModelRetryErrorClass::Validation
    );
}

#[test]
fn retry_classifier_marks_429_5xx_timeout_and_validation() {
    assert_eq!(
        classify_model_adapter_error(&ModelAdapterError::RateLimitExceeded),
        ModelRetryErrorClass::RateLimited
    );
    assert_eq!(
        classify_model_adapter_error(&ModelAdapterError::ExecutorFailed(
            "provider returned HTTP 503 temporarily unavailable".to_string()
        )),
        ModelRetryErrorClass::TransientNetwork
    );
    assert_eq!(
        classify_model_adapter_error(&ModelAdapterError::HttpError(
            "request timeout exceeded".to_string()
        )),
        ModelRetryErrorClass::Timeout
    );
    assert_eq!(
        classify_model_adapter_error(&ModelAdapterError::ExecutorFailed(
            "invalid request: bad request 400".to_string()
        )),
        ModelRetryErrorClass::Validation
    );
}

#[test]
fn retry_classifier_message_classes() {
    assert_eq!(classify_model_error_message("HTTP 429 Too Many Requests"), ModelRetryErrorClass::RateLimited);
    assert_eq!(classify_model_error_message("401 Unauthorized"), ModelRetryErrorClass::PermissionDenied);
    assert_eq!(classify_model_error_message("something odd"), ModelRetryErrorClass::Unknown);
    assert_eq!(
        classify_model_adapter_error(&ModelAdapterError::EmptyRequest),
        ModelRetryErrorClass::EmptyRequest
    );
    assert!(ModelRetryErrorClass::RateLimited.is_retryable());
    assert!(!ModelRetryErrorClass::Validation.is_retryable());
    assert_eq!(ModelRetryErrorClass::TransientNetwork.name(), "TransientNetwork");
}

#[test]
fn retry_backoff_is_deterministic_and_capped() {
    let policy = DefaultModelRetryPolicy::new(ModelRetryConfig {
        initial_delay: 100,
        multiplier: 2,
        max_delay: 250,
        max_attempts: 5,
    });
    assert_eq!(policy.backoff_delay(0), None);
    assert_eq!(policy.backoff_delay(1), Some(100));
    assert_eq!(policy.backoff_delay(2), Some(200));
    assert_eq!(policy.backoff_delay(3), Some(250));
    assert_eq!(policy.backoff_delay(5), None);
}

#[test]
fn retry_policy_decides_retry_stop_and_exhaustion() {
    let policy = DefaultModelRetryPolicy::new(ModelRetryConfig {
        initial_delay: 100,
        multiplier: 2,
        max_delay: 250,
        max_attempts: 3,
    });
    assert_eq!(
        policy.decide(&ModelAdapterError::RateLimitExceeded, 1),
        ModelRetryDecision::Retry {
            error_class: ModelRetryErrorClass::RateLimited,
            attempt: 1,
            delay: 100
        }
    );
    assert_eq!(
        policy.decide(&ModelAdapterError::RateLimitExceeded, 3),
        ModelRetryDecision::Exhausted { error_class: ModelRetryErrorClass::RateLimited, attempt: 3 }
    );
    assert_eq!(
        policy.decide(&ModelAdapterError::MissingToolCallId, 1),
        ModelRetryDecision::DoNotRetry {
            error_class: ModelRetryErrorClass::Validation,
            attempt: 1,
            reason: "Validation is not retryable".to_string()
        }
    );
}

#[test]
fn retry_config_default() {
    let config = ModelRetryConfig::default();
    assert_eq!(config.initial_delay, 250);
    assert_eq!(config.multiplier, 2);
    assert_eq!(config.max_delay, 10_000);
    assert_eq!(config.max_attempts, 3);
}

#[test]
fn circuit_breaker_opens_after_repeated_rate_limits() {
    let mut breaker = ModelCircuitBreaker::new(
        "openai",
        ModelCircuitBreakerConfig { failure_threshold: 2, cooldown: 60_000 },
    );
    assert_eq!(breaker.health().state, ModelCircuitBreakerState::Closed);
    breaker.record_error(&ModelAdapterError::RateLimitExceeded);
    assert_eq!(breaker.health().state, ModelCircuitBreakerState::Closed);
    breaker.record_error(&ModelAdapterError::RateLimitExceeded);

    let health = breaker.health();
    assert_eq!(health.provider, "openai");
    assert_eq!(health.state, ModelCircuitBreakerState::Open);
    assert_eq!(health.consecutive_failures, 2);
    assert!(breaker.before_call().is_err());
}

#[test]
fn circuit_breaker_ignores_validation_errors_and_resets_on_success() {
    let mut breaker = ModelCircuitBreaker::new(
        "anthropic",
        ModelCircuitBreakerConfig { failure_threshold: 1, cooldown: 60_000 },
    );
    breaker.record_error(&ModelAdapterError::MalformedToolCallArguments("bad json".to_string()));
    assert_eq!(breaker.health().state, ModelCircuitBreakerState::Closed);

    breaker.record_error(&ModelAdapterError::RateLimitExceeded);
    assert_eq!(breaker.health().state, ModelCircuitBreakerState::Open);
    breaker.record_success();

    let health = breaker.health();
    assert_eq!(health.state, ModelCircuitBreakerState::Closed);
    assert_eq!(health.consecutive_failures, 0);
    assert!(breaker.before_call().is_ok());
}

#[test]
fn circuit_breaker_allows_half_open_after_cooldown() {
    let mut breaker = ModelCircuitBreaker::new(
        "local",
        ModelCircuitBreakerConfig { failure_threshold: 1, cooldown: 0 },
    );
    breaker.record_error(&ModelAdapterError::RateLimitExceeded);
    assert_eq!(breaker.health().state, ModelCircuitBreakerState::Open);

    assert!(breaker.before_call().is_ok());
    assert_eq!(breaker.health().state, ModelCircuitBreakerState::HalfOpen);
}

#[test]
fn circuit_breaker_decides_on_elapsed_time() {
    let mut breaker = ModelCircuitBreaker::new(
        "local",
        ModelCircuitBreakerConfig { failure_threshold: 1, cooldown: 1_000 },
    );
    breaker.record_error(&ModelAdapterError::HttpError("timeout".to_string()));
    assert!(breaker.before_call_after(Some(999)).is_err());
    assert_eq!(breaker.health().state, ModelCircuitBreakerState::Open);
    assert!(breaker.before_call_after(Some(1_000)).is_ok());
    assert_eq!(breaker.health().state, ModelCircuitBreakerState::HalfOpen);
    assert_eq!(breaker.provider(), "local");
}

#[test]
fn circuit_breaker_default_config() {
    let config = ModelCircuitBreakerConfig::default();
    assert_eq!(config.failure_threshold, 3);
    assert_eq!(config.cooldown, 30_000);
}

#[test]
fn structured_output_format_is_strict_json_schema() {
    let schema: serde_json::Value = serde_json::from_str(r#"{"type":"object"}"#).unwrap();
    let format = StructuredOutputFormat::json_schema("task", schema.clone());
    assert_eq!(format.name, "task");
    assert!(format.strict);
    assert_eq!(format.schema, schema);
}
