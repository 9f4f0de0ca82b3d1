use agentos_core::anthropic::{
    anthropic_error_for_status,
    anthropic_stream_events, anthropic_stream_finish_reason, convert_tool_choice,
    sanitize_tool_name, sse_data_payloads, AnthropicConfig, AnthropicStreamContentBlock,
    AnthropicStreamDelta, AnthropicStreamEvent, AnthropicStreamMessage, AnthropicStreamUsage,
    AnthropicToolChoice,
};
use agentos_core::model::{
    ModelAdapterError,
    ModelId, ModelStreamAccumulator, ModelStreamEvent, ModelStreamFinishReason,
    ModelToolCallDelta, ToolChoice,
};

fn event(event_type: &str) -> AnthropicStreamEvent {
    AnthropicStreamEvent {
        event_type: event_type.to_string(),
        message: None,
        index: None,
        content_block: None,
        delta: None,
        usage: None,
    }
}

fn text_delta(index: usize, text: &str) -> AnthropicStreamEvent {
    let mut e = event("content_block_delta");
    e.index = Some(index);
    e.delta = Some(AnthropicStreamDelta {
        delta_type: Some("text_delta".to_string()),
        text: Some(text.to_string()),
        partial_json: None,
        stop_reason: None,
    });
    e
}

fn json_delta(index: usize, json: &str) -> AnthropicStreamEvent {
    let mut e = event("content_block_delta");
    e.index = Some(index);
    e.delta = Some(AnthropicStreamDelta {
        delta_type: Some("input_json_delta".to_string()),
        text: None,
        partial_json: Some(json.to_string()),
        stop_reason: None,
    });
    e
}

fn message_start(model: &str, input_tokens: u32) -> AnthropicStreamEvent {
    let mut e = event("message_start");
    e.message = Some(AnthropicStreamMessage {
        model: model.to_string(),
        usage: Some(AnthropicStreamUsage { input_tokens, output_tokens: 0 }),
    });
    e
}

fn message_delta(stop_reason: &str, output_tokens: u32) -> AnthropicStreamEvent {
    let mut e = event("message_delta");
    e.delta = Some(AnthropicStreamDelta {
        delta_type: None,
        text: None,
        partial_json: None,
        stop_reason: Some(stop_reason.to_string()),
    });
    e.usage = Some(AnthropicStreamUsage { input_tokens: 0, output_tokens });
    e
}

#[test]
fn config_messages_url() {
    let config = AnthropicConfig {
        api_key: "test".to_string(),
        base_url: "https://api.anthropic.com".to_string(),
        default_model: "model-3".to_string(),
        api_version: "2023-06-01".to_string(),
    };
    assert_eq!(config.messages_url(), "https://api.anthropic.com/v1/messages");
}

#[test]
fn provider_config_fields_are_kept() {
    let anthropic = AnthropicConfig {
        api_key: "test-key".to_string(),
        base_url: "http://127.0.0.1:1".to_string(),
        default_model: "model-test".to_string(),
        api_version: "2023-06-01".to_string(),
    };
    assert_eq!(anthropic.base_url, "http://127.0.0.1:1");
    assert_eq!(anthropic.default_model, "model-test");
    assert_eq!(anthropic.messages_url(), "http://127.0.0.1:1/v1/messages");
}

#[test]
fn tool_choice_required_maps_to_any() {
    assert_eq!(convert_tool_choice(ToolChoice::Required), AnthropicToolChoice::Any);
    assert_eq!(convert_tool_choice(ToolChoice::Auto), AnthropicToolChoice::Auto);
    assert_eq!(convert_tool_choice(ToolChoice::NoTool), AnthropicToolChoice::NoTool);
    assert_eq!(
        convert_tool_choice(ToolChoice::Named("knowledge.search".to_string())),
        AnthropicToolChoice::Tool { name: "knowledge_search".to_string() }
    );
}

#[test]
fn tool_names_are_sanitized_and_capped() {
    assert_eq!(sanitize_tool_name("knowledge.search"), "knowledge_search");
    assert_eq!(sanitize_tool_name("ok-name_1"), "ok-name_1");
    assert_eq!(sanitize_tool_name(&"a".repeat(70)), "a".repeat(64));
}

#[test]
fn stop_reasons_map_to_finish_reasons() {
    assert_eq!(anthropic_stream_finish_reason(Some("end_turn")), ModelStreamFinishReason::Stop);
    assert_eq!(anthropic_stream_finish_reason(Some("stop_sequence")), ModelStreamFinishReason::Stop);
    assert_eq!(anthropic_stream_finish_reason(Some("max_tokens")), ModelStreamFinishReason::Length);
    assert_eq!(anthropic_stream_finish_reason(Some("tool_use")), ModelStreamFinishReason::ToolCalls);
    assert_eq!(anthropic_stream_finish_reason(Some("other")), ModelStreamFinishReason::Error);
    assert_eq!(anthropic_stream_finish_reason(None), ModelStreamFinishReason::Error);
}

#[test]
fn sse_frames_yield_data_payloads() {
    let raw = "event: message_start\ndata: {\"a\":1}\n\nevent: ping\n\nevent: x\ndata: one\ndata: two\n\n";
    let payloads = sse_data_payloads(raw);
    assert_eq!(payloads, vec!["{\"a\":1}".to_string(), "one\ntwo".to_string()]);
}

#[test]
fn anthropic_stream_parser_emits_started_text_usage_finished() {
    let events = vec![
        message_start("model-test", 7),
        text_delta(0, "Hel"),
        text_delta(0, "lo"),
        message_delta("end_turn", 2),
        event("message_stop"),
    ];
    let out = anthropic_stream_events(&events, &ModelId::from("fallback"));
    assert_eq!(out.first(), Some(&ModelStreamEvent::Started { model_id: ModelId::from("model-test") }));
    let accumulator = ModelStreamAccumulator::from_events(&out);
    assert_eq!(accumulator.text, "Hello");
    assert_eq!(accumulator.usage.unwrap().total_tokens(), 9);
    assert_eq!(accumulator.finished, Some(ModelStreamFinishReason::Stop));
}

#[test]
fn anthropic_stream_parser_emits_tool_use_deltas() {
    let mut block_start = event("content_block_start");
    block_start.index = Some(1);
    block_start.content_block = Some(AnthropicStreamContentBlock {
        block_type: "tool_use".to_string(),
        id: Some("toolu_123".to_string()),
        name: Some("knowledge_search".to_string()),
    });
    let events = vec![
        message_start("model-test", 5),
        block_start,
        json_delta(1, "{\"query\":"),
        json_delta(1, "\"AgentOS\"}"),
        message_delta("tool_use", 8),
    ];
    let out = anthropic_stream_events(&events, &ModelId::from("fallback"));
    assert!(out.contains(&ModelStreamEvent::ToolCallDelta(ModelToolCallDelta {
        index: 1,
        id_delta: Some("toolu_123".to_string()),
        name_delta: Some("knowledge_search".to_string()),
        arguments_delta: None,
    })));
    assert!(out.contains(&ModelStreamEvent::ToolCallDelta(ModelToolCallDelta::arguments(
        1,
        "{\"query\":"
    ))));
    assert!(out.contains(&ModelStreamEvent::Finished { reason: ModelStreamFinishReason::ToolCalls }));
}

#[test]
fn anthropic_stream_without_start_uses_fallback_model() {
    let events = vec![text_delta(0, "hi")];
    let out = anthropic_stream_events(&events, &ModelId::from("fallback"));
    assert_eq!(out[0], ModelStreamEvent::Started { model_id: ModelId::from("fallback") });
    assert_eq!(out[1], ModelStreamEvent::TextDelta { delta: "hi".to_string() });
}

#[test]
fn anthropic_status_errors_follow_status_classes() {
    assert_eq!(
        anthropic_error_for_status(401, "Unauthorized", "bad key".to_string()),
        ModelAdapterError::AuthError("bad key".to_string())
    );
    assert_eq!(
        anthropic_error_for_status(429, "Too Many Requests", "slow down".to_string()),
        ModelAdapterError::RateLimitExceeded
    );
    assert_eq!(
        anthropic_error_for_status(503, "Service Unavailable", "overloaded".to_string()),
        ModelAdapterError::ExecutorFailed("Anthropic server error: overloaded".to_string())
    );
    assert_eq!(
        anthropic_error_for_status(400, "400 Bad Request", "bad input".to_string()),
        ModelAdapterError::ExecutorFailed("Anthropic API error (400 Bad Request): bad input".to_string())
    );
}
