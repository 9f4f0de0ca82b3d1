use agentos_core::adapter::{
    check_tool_call, count_words, error_trace, is_sensitive_metadata_key, output_stream_events,
    redacted_model_metadata, stream_usage, success_trace, text_delta_chunks, MemoryModelTraceSink,
    ModelCallOperation, ModelTraceOutcome, StaticModelAdapter, StaticStreamingModelAdapter,
};
use agentos_core::model::{
    ModelAdapterError, ModelCapabilities, ModelId, ModelMessage, ModelOutput, ModelProfile,
    ModelProvider, ModelRegistry, ModelRequest, ModelRetryErrorClass, ModelStreamAccumulator,
    ModelStreamEvent, ModelStreamFinishReason, ModelUsage, ToolChoice,
};

#[test]
fn static_adapter_returns_deterministic_response() {
    let adapter = StaticModelAdapter::default();
    let request = ModelRequest::new(
        "test/default",
        vec![ModelMessage::system("You are concise."), ModelMessage::user("Summarize this text")],
    );
    match adapter.respond(&request).unwrap() {
        ModelOutput::Text { text, usage } => {
            assert_eq!(
                text,
                "Static model response for test/default with 2 message(s): Summarize this text"
            );
            assert_eq!(usage, Some(ModelUsage { input_tokens: 6, output_tokens: 6 }));
        }
        _ => panic!("expected text output"),
    }
}

#[test]
fn static_adapter_rejects_empty_request() {
    let adapter = StaticModelAdapter::default();
    let request = ModelRequest::new("test/default", vec![]);
    assert_eq!(adapter.respond(&request).unwrap_err(), ModelAdapterError::EmptyRequest);
}

#[test]
fn static_adapter_uses_last_user_message() {
    let adapter = StaticModelAdapter::new("Echo");
    let request = ModelRequest::new(
        "m",
        vec![
            ModelMessage::user("first"),
            ModelMessage::assistant("reply"),
            ModelMessage::user("second one"),
            ModelMessage::assistant("tail"),
        ],
    );
    let output = adapter.respond(&request).unwrap();
    assert_eq!(output.text(), Some("Echo for m with 4 message(s): second one"));
}

#[test]
fn static_streaming_adapter_emits_started_text_usage_finished() {
    let adapter = StaticStreamingModelAdapter::default();
    let request = ModelRequest::new("test/default", vec![ModelMessage::user("Summarize this text")]);
    let events = adapter.stream_events(&request).unwrap();

    assert!(matches!(
        events.first(),
        Some(ModelStreamEvent::Started { model_id }) if model_id == &ModelId::from("test/default")
    ));
    assert!(events.iter().any(|event| matches!(event, ModelStreamEvent::TextDelta { .. })));
    assert!(events.iter().any(|event| matches!(event, ModelStreamEvent::Usage { .. })));
    assert_eq!(
        events.last(),
        Some(&ModelStreamEvent::Finished { reason: ModelStreamFinishReason::Stop })
    );
}

#[test]
fn static_streaming_adapter_rejects_empty_request() {
    let adapter = StaticStreamingModelAdapter::default();
    let request = ModelRequest::new("test/default", vec![]);
    assert_eq!(adapter.stream_events(&request).unwrap_err(), ModelAdapterError::EmptyRequest);
}

#[test]
fn streaming_adapter_complete_matches_accumulated_text() {
    let adapter = StaticStreamingModelAdapter::new("Streaming test-only response");
    let request = ModelRequest::new("test/default", vec![ModelMessage::user("Summarize this text")]);
    let complete = adapter.respond(&request).unwrap();
    let events = adapter.stream_events(&request).unwrap();
    let accumulator = ModelStreamAccumulator::from_events(&events);
    assert_eq!(complete.text(), Some(accumulator.text.as_str()));
    assert_eq!(complete.usage().copied(), accumulator.usage);
    assert_eq!(stream_usage(&events), accumulator.usage);
}

#[test]
fn text_delta_chunks_split_after_sixteen_bytes() {
    assert!(text_delta_chunks("").is_empty());
    let chunks = text_delta_chunks("Static model response for test/default");
    assert_eq!(chunks.concat(), "Static model response for test/default");
    assert_eq!(chunks, vec!["Static model response ", "for test/default"]);
}

#[test]
fn count_words_splits_on_whitespace() {
    assert_eq!(count_words(""), 0);
    assert_eq!(count_words("  one two\tthree\n"), 3);
}

#[test]
fn output_stream_events_for_tool_calls_finish_with_tool_calls() {
    let output = ModelOutput::ToolCalls { content: None, tool_calls: vec![], usage: None };
    let events = output_stream_events(ModelId::from("m"), output);
    assert_eq!(events.first(), Some(&ModelStreamEvent::Started { model_id: ModelId::from("m") }));
    assert_eq!(
        events.last(),
        Some(&ModelStreamEvent::Finished { reason: ModelStreamFinishReason::ToolCalls })
    );
}

#[test]
fn sensitive_metadata_keys_are_redacted() {
    assert!(is_sensitive_metadata_key("X-API_KEY"));
    assert!(is_sensitive_metadata_key("Authorization"));
    assert!(is_sensitive_metadata_key("session_token"));
    assert!(!is_sensitive_metadata_key("trace_id"));
    let metadata = vec![
        ("api_key".to_string(), "sk-live".to_string()),
        ("trace_id".to_string(), "trace-1".to_string()),
    ];
    let redacted = redacted_model_metadata(&metadata);
    assert_eq!(
        redacted,
        vec![
            ("api_key".to_string(), "<redacted>".to_string()),
            ("trace_id".to_string(), "trace-1".to_string()),
        ]
    );
}

#[test]
fn traces_record_success_and_error_classes() {
    let mut sink = MemoryModelTraceSink::new();
    let model = ModelId::from("test/default");
    let usage = Some(ModelUsage { input_tokens: 3, output_tokens: 4 });
    sink.record(success_trace(ModelCallOperation::Complete, &model, 12, usage, vec![]));
    sink.record(error_trace(
        ModelCallOperation::ToolCall,
        &model,
        5,
        &ModelAdapterError::RateLimitExceeded,
        vec![("k".to_string(), "v".to_string())],
    ));
    let traces = sink.traces();
    assert_eq!(traces.len(), 2);
    assert_eq!(traces[0].outcome, ModelTraceOutcome::Success);
    assert_eq!(traces[0].usage, usage);
    assert_eq!(traces[0].error_class, None);
    assert_eq!(traces[1].operation, ModelCallOperation::ToolCall);
    assert_eq!(traces[1].outcome, ModelTraceOutcome::Error);
    assert_eq!(traces[1].error_class, Some(ModelRetryErrorClass::RateLimited));
    assert_eq!(traces[1].usage, None);
    assert_eq!(traces[1].latency_ms, 5);
}

#[test]
fn tool_calls_are_gated_by_registry_capabilities() {
    let mut registry = ModelRegistry::new();
    registry.register(ModelProfile::test_profile("fake/text-only")).unwrap();
    registry
        .register(ModelProfile::new(
            "fake/tools",
            ModelProvider::Test,
            "Fake Tools",
            ModelCapabilities::tool_calling(),
        ))
        .unwrap();
    assert!(matches!(
        check_tool_call(&registry, &ModelId::from("fake/text-only"), 1, &ToolChoice::Auto),
        Err(ModelAdapterError::UnsupportedModelCapability { capability: "tools", .. })
    ));
    assert!(check_tool_call(&registry, &ModelId::from("fake/tools"), 1, &ToolChoice::Auto).is_ok());
    assert!(
        check_tool_call(&registry, &ModelId::from("fake/text-only"), 0, &ToolChoice::NoTool).is_ok()
    );
}
