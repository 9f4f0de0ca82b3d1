use agentos_core::model::{
    ModelAdapterError, ModelMessage, ModelOutput, ModelRequest, ModelRole, ToolChoice,
    ToolDefinition,
};
use agentos_core::openai::{
    openai_error_for_status,
    convert_response, convert_role, parse_tool_call, tool_call_from_arguments, ChatChoice,
    ChatFunctionCall, ChatMessage, ChatResponse, ChatToolCallResponse, ChatToolChoice,
    ChatUsage, OpenAiProviderConfig,
};

fn json(text: &str) -> serde_json::Value {
    serde_json::from_str(text).unwrap()
}

fn config_with(temperature_millis: Option<u32>, max_tokens: Option<u32>) -> OpenAiProviderConfig {
    OpenAiProviderConfig {
        endpoint: "https://api.example.com/v1".to_string(),
        api_key: "key".to_string(),
        model: "m".to_string(),
        temperature_millis,
        max_tokens,
        timeout_secs: None,
    }
}

fn assistant(content: Option<&str>, tool_calls: Option<Vec<ChatToolCallResponse>>) -> ChatResponse {
    ChatResponse {
        id: None,
        choices: vec![ChatChoice {
            message: ChatMessage {
                role: "assistant".to_string(),
                content: content.map(|c| c.to_string()),
                tool_calls,
                tool_call_id: None,
            },
            finish_reason: None,
        }],
        usage: None,
        model: None,
    }
}

fn call(id: Option<&str>, name: Option<&str>, arguments: &str) -> ChatToolCallResponse {
    ChatToolCallResponse {
        id: id.map(|s| s.to_string()),
        call_type: Some("function".to_string()),
        function: ChatFunctionCall { name: name.map(|s| s.to_string()), arguments: arguments.to_string() },
    }
}

#[test]
fn provider_configs_can_be_built_from_mock_matrix() {
    let openai = OpenAiProviderConfig::new("http://127.0.0.1:1", "test-key", "test-model");
    assert_eq!(openai.endpoint, "http://127.0.0.1:1");
    assert_eq!(openai.model, "test-model");
    assert_eq!(openai.temperature_millis, None);
    assert_eq!(openai.max_tokens, None);
    assert_eq!(openai.timeout_secs, None);
}

#[test]
fn convert_role_maps_correctly() {
    assert_eq!(convert_role(&ModelRole::System), "system");
    assert_eq!(convert_role(&ModelRole::User), "user");
    assert_eq!(convert_role(&ModelRole::Assistant), "assistant");
    assert_eq!(convert_role(&ModelRole::Tool), "tool");
}

#[test]
fn convert_request_preserves_messages() {
    let config = OpenAiProviderConfig::new("https://api.example.com/v1", "key", "model-x");
    let request = ModelRequest::new(
        "model-x",
        vec![
            ModelMessage::system("Be concise."),
            ModelMessage::user("Hello"),
            ModelMessage::assistant("Hi there"),
            ModelMessage::user("Summarize"),
        ],
    );
    let chat_req = config.convert_request(&request);
    assert_eq!(chat_req.model, "model-x");
    assert_eq!(chat_req.messages.len(), 4);
    assert_eq!(chat_req.messages[0].role, "system");
    assert_eq!(chat_req.messages[0].content.as_deref(), Some("Be concise."));
    assert_eq!(chat_req.messages[1].role, "user");
    assert_eq!(chat_req.messages[1].content.as_deref(), Some("Hello"));
    assert_eq!(chat_req.messages[2].role, "assistant");
    assert_eq!(chat_req.messages[2].content.as_deref(), Some("Hi there"));
    assert_eq!(chat_req.messages[3].role, "user");
    assert_eq!(chat_req.messages[3].content.as_deref(), Some("Summarize"));
    assert!(chat_req.tools.is_none());
    assert!(chat_req.tool_choice.is_none());
}

#[test]
fn convert_request_uses_per_request_temperature_over_config() {
    let config = config_with(Some(800), None);
    let mut request = ModelRequest::new("m", vec![ModelMessage::user("hi")]);
    request.temperature_millis = Some(500);
    assert_eq!(config.convert_request(&request).temperature_millis, Some(500));
}

#[test]
fn convert_request_falls_back_to_config_temperature() {
    let config = config_with(Some(1200), None);
    let request = ModelRequest::new("m", vec![ModelMessage::user("hi")]);
    assert_eq!(config.convert_request(&request).temperature_millis, Some(1200));
}

#[test]
fn convert_request_uses_per_request_max_tokens_over_config() {
    let config = config_with(None, Some(2048));
    let mut request = ModelRequest::new("m", vec![ModelMessage::user("hi")]);
    request.max_output_tokens = Some(512);
    assert_eq!(config.convert_request(&request).max_tokens, Some(512));
}

#[test]
fn convert_request_falls_back_to_config_max_tokens() {
    let config = config_with(None, Some(2048));
    let request = ModelRequest::new("m", vec![ModelMessage::user("hi")]);
    assert_eq!(config.convert_request(&request).max_tokens, Some(2048));
}

#[test]
fn convert_request_omits_unset_fields() {
    let config = OpenAiProviderConfig::new("https://api.example.com/v1", "key", "m");
    let request = ModelRequest::new("m", vec![ModelMessage::user("hi")]);
    let chat_req = config.convert_request(&request);
    assert_eq!(chat_req.temperature_millis, None);
    assert_eq!(chat_req.max_tokens, None);
}

#[test]
fn convert_request_with_tools_ignores_config_defaults() {
    let config = config_with(Some(700), Some(1000));
    let request = ModelRequest::new("m", vec![ModelMessage::user("search")]);
    let tools = vec![ToolDefinition {
        name: "knowledge.search".to_string(),
        description: "Search".to_string(),
        input_schema: json(r#"{"type":"object"}"#),
    }];
    let chat_req =
        config.convert_request_with_tools(&request, &tools, &ToolChoice::Named("knowledge.search".to_string()));
    assert_eq!(chat_req.temperature_millis, None);
    assert_eq!(chat_req.max_tokens, None);
    let chat_tools = chat_req.tools.unwrap();
    assert_eq!(chat_tools.len(), 1);
    assert_eq!(chat_tools[0].tool_type, "function");
    assert_eq!(chat_tools[0].function.name, "knowledge.search");
    assert_eq!(chat_tools[0].function.parameters, json(r#"{"type":"object"}"#));
    match chat_req.tool_choice.unwrap() {
        ChatToolChoice::Named { function } => assert_eq!(function.name, "knowledge.search"),
        other => panic!("unexpected choice: {other:?}"),
    }
    let none = config.convert_request_with_tools(&request, &[], &ToolChoice::NoTool);
    assert_eq!(none.tool_choice, Some(ChatToolChoice::NoTool));
}

#[test]
fn convert_response_extracts_text_and_usage() {
    let mut resp = assistant(Some("Hello! How can I help?"), None);
    resp.usage = Some(ChatUsage { prompt_tokens: Some(10), completion_tokens: Some(8) });
    match convert_response(resp, "model-x").unwrap() {
        ModelOutput::Text { text, usage } => {
            assert_eq!(text, "Hello! How can I help?");
            let u = usage.unwrap();
            assert_eq!(u.input_tokens, 10);
            assert_eq!(u.output_tokens, 8);
        }
        _ => panic!("expected text output"),
    }
}

#[test]
fn convert_response_counts_missing_usage_as_zero() {
    let mut resp = assistant(None, None);
    resp.usage = Some(ChatUsage { prompt_tokens: None, completion_tokens: Some(3) });
    match convert_response(resp, "model-x").unwrap() {
        ModelOutput::Text { text, usage } => {
            assert_eq!(text, "");
            let u = usage.unwrap();
            assert_eq!((u.input_tokens, u.output_tokens), (0, 3));
        }
        _ => panic!("expected text output"),
    }
}

#[test]
fn convert_response_falls_back_to_config_model() {
    match convert_response(assistant(Some("Hi"), None), "model-x").unwrap() {
        ModelOutput::Text { text, usage } => {
            assert_eq!(text, "Hi");
            assert!(usage.is_none());
        }
        _ => panic!("expected text output"),
    }
}

#[test]
fn convert_response_fails_on_empty_choices() {
    let resp = ChatResponse { id: None, choices: vec![], usage: None, model: None };
    match convert_response(resp, "model-x").unwrap_err() {
        ModelAdapterError::ExecutorFailed(msg) => assert!(msg.contains("no choices")),
        other => panic!("expected ExecutorFailed, got: {other:?}"),
    }
}

#[test]
fn convert_response_parses_tool_calls() {
    let mut resp = assistant(
        None,
        Some(vec![call(Some("call_001"), Some("knowledge.search"), r#"{"query":"agent os"}"#)]),
    );
    resp.usage = Some(ChatUsage { prompt_tokens: Some(20), completion_tokens: Some(5) });
    match convert_response(resp, "model-x").unwrap() {
        ModelOutput::ToolCalls { content, tool_calls, usage } => {
            assert!(content.is_none());
            assert_eq!(tool_calls.len(), 1);
            assert_eq!(tool_calls[0].id, "call_001");
            assert_eq!(tool_calls[0].name, "knowledge.search");
            assert_eq!(tool_calls[0].arguments, json(r#"{"query": "agent os"}"#));
            assert_eq!(tool_calls[0].raw_arguments, r#"{"query":"agent os"}"#);
            assert!(usage.is_some());
        }
        _ => panic!("expected tool_calls output"),
    }
}

#[test]
fn convert_response_parses_multiple_tool_calls() {
    let resp = assistant(
        Some("Searching..."),
        Some(vec![
            call(Some("call_001"), Some("knowledge.search"), r#"{"query":"a"}"#),
            call(Some("call_002"), Some("browser.extract_content"), r#"{"url":"https://example.com"}"#),
        ]),
    );
    match convert_response(resp, "model-x").unwrap() {
        ModelOutput::ToolCalls { content, tool_calls, .. } => {
            assert_eq!(content.as_deref(), Some("Searching..."));
            assert_eq!(tool_calls.len(), 2);
            assert_eq!(tool_calls[0].name, "knowledge.search");
            assert_eq!(tool_calls[1].name, "browser.extract_content");
        }
        _ => panic!("expected tool_calls output"),
    }
}

#[test]
fn convert_response_with_empty_tool_calls_is_text() {
    let resp = assistant(Some("plain"), Some(vec![]));
    assert_eq!(convert_response(resp, "m").unwrap().text(), Some("plain"));
}

#[test]
fn convert_response_malformed_tool_arguments_returns_error() {
    let resp = assistant(None, Some(vec![call(Some("call_bad"), Some("knowledge.search"), "not-json")]));
    match convert_response(resp, "model-x").unwrap_err() {
        ModelAdapterError::MalformedToolCallArguments(msg) => {
            assert!(msg.contains("knowledge.search"), "unexpected: {msg}");
            assert!(msg.starts_with("invalid JSON in tool call 'knowledge.search': "));
        }
        other => panic!("expected MalformedToolCallArguments, got: {other:?}"),
    }
}

#[test]
fn convert_response_missing_tool_call_id_returns_error() {
    let resp = assistant(None, Some(vec![call(None, Some("knowledge.search"), "{}")]));
    assert_eq!(convert_response(resp, "model-x").unwrap_err(), ModelAdapterError::MissingToolCallId);
}

#[test]
fn convert_response_missing_tool_call_name_returns_error() {
    let resp = assistant(None, Some(vec![call(Some("call_no_name"), None, "{}")]));
    assert_eq!(convert_response(resp, "model-x").unwrap_err(), ModelAdapterError::MissingToolCallName);
}

#[test]
fn convert_response_reports_first_failing_tool_call() {
    let resp = assistant(
        None,
        Some(vec![
            call(Some("ok"), Some("a"), "{}"),
            call(None, None, "bad"),
            call(Some("late"), None, "{}"),
        ]),
    );
    assert_eq!(convert_response(resp, "m").unwrap_err(), ModelAdapterError::MissingToolCallId);
}

#[test]
fn parse_tool_call_keeps_parsed_and_raw_arguments() {
    let tc = call(Some("c1"), Some("tool"), "[1, 2]");
    let parsed = parse_tool_call(&tc).unwrap();
    assert_eq!(parsed.arguments, json("[1,2]"));
    assert_eq!(parsed.raw_arguments, "[1, 2]");
    let failed = tool_call_from_arguments(
        "c2".to_string(),
        "tool".to_string(),
        "x".to_string(),
        Err("bad input".to_string()),
    );
    assert_eq!(
        failed.unwrap_err(),
        ModelAdapterError::MalformedToolCallArguments("invalid JSON in tool call 'tool': bad input".to_string())
    );
}

#[test]
fn chat_completions_url_construction() {
    let config = OpenAiProviderConfig::new("https://api.deepseek.com/v1/", "key", "m");
    assert_eq!(config.chat_completions_url(), "https://api.deepseek.com/v1/chat/completions");
}

#[test]
fn chat_completions_url_no_trailing_slash() {
    let config = OpenAiProviderConfig::new("https://api.openai.com/v1", "key", "m");
    assert_eq!(config.chat_completions_url(), "https://api.openai.com/v1/chat/completions");
    let many = OpenAiProviderConfig::new("https://x///", "key", "m");
    assert_eq!(many.chat_completions_url(), "https://x/chat/completions");
}

#[test]
fn openai_status_error_prefers_structured_message() {
    assert_eq!(
        openai_error_for_status("400 Bad Request", Some("invalid model".to_string()), "{}".to_string()),
        ModelAdapterError::ExecutorFailed("API returned 400 Bad Request: invalid model".to_string())
    );
    assert_eq!(
        openai_error_for_status("502 Bad Gateway", None, "upstream down".to_string()),
        ModelAdapterError::ExecutorFailed("API returned 502 Bad Gateway: upstream down".to_string())
    );
}
