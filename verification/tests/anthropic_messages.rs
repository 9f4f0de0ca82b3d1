use agentos_core::anthropic::{AnthropicConfig, AnthropicToolChoice};
use agentos_core::anthropic_messages::{
    convert_message_content, parse_response, parse_tool_result_text, AnthropicContent,
    AnthropicMessageBlock, AnthropicMessageContent, AnthropicResponse, AnthropicUsage,
};
use agentos_core::model::{
    ModelAdapterError, ModelId, ModelMessage, ModelOutput, ModelRequest, ModelRole, ToolChoice,
    ToolDefinition,
};

fn config() -> AnthropicConfig {
    AnthropicConfig {
        api_key: "test".to_string(),
        base_url: "https://api.anthropic.com".to_string(),
        default_model: "model-3".to_string(),
        api_version: "2023-06-01".to_string(),
    }
}

fn json(text: &str) -> serde_json::Value {
    serde_json::from_str(text).unwrap()
}

fn text_block(text: &str) -> AnthropicContent {
    AnthropicContent {
        content_type: "text".to_string(),
        text: Some(text.to_string()),
        id: None,
        name: None,
        input: None,
    }
}

fn tool_block(id: Option<&str>, name: Option<&str>, input: Option<serde_json::Value>) -> AnthropicContent {
    AnthropicContent {
        content_type: "tool_use".to_string(),
        text: None,
        id: id.map(|s| s.to_string()),
        name: name.map(|s| s.to_string()),
        input,
    }
}

fn response(content: Vec<AnthropicContent>, input_tokens: u32, output_tokens: u32) -> AnthropicResponse {
    AnthropicResponse {
        id: "msg_123".to_string(),
        model: "model-3".to_string(),
        content,
        usage: AnthropicUsage { input_tokens, output_tokens },
        stop_reason: Some("end_turn".to_string()),
    }
}

#[test]
fn convert_request_basic() {
    let mut request = ModelRequest::new("model-3", vec![ModelMessage::user("Hello")]);
    request.max_output_tokens = Some(100);
    request.temperature_millis = Some(500);
    let anthropic_request = config().convert_request(&request);
    assert_eq!(anthropic_request.model, "model-3");
    assert_eq!(anthropic_request.max_tokens, 100);
    assert_eq!(anthropic_request.temperature_millis, Some(500));
    assert_eq!(anthropic_request.messages.len(), 1);
    assert_eq!(anthropic_request.messages[0].role, "user");
    assert_eq!(anthropic_request.messages[0].content, AnthropicMessageContent::Text("Hello".to_string()));
    assert!(anthropic_request.system.is_none());
    assert!(anthropic_request.tools.is_empty());
    assert!(anthropic_request.tool_choice.is_none());
    assert!(anthropic_request.stream.is_none());
}

#[test]
fn convert_request_with_system() {
    let request = ModelRequest::new(
        "model-3",
        vec![
            ModelMessage::system("You are a helpful assistant"),
            ModelMessage::user("Hello"),
            ModelMessage::system("Ignored second system prompt"),
            ModelMessage::assistant("Hi"),
        ],
    );
    let anthropic_request = config().convert_request(&request);
    assert_eq!(anthropic_request.system.as_deref(), Some("You are a helpful assistant"));
    assert_eq!(anthropic_request.messages.len(), 2);
    assert_eq!(anthropic_request.messages[1].role, "assistant");
    assert_eq!(anthropic_request.max_tokens, 4096);
}

#[test]
fn convert_request_uses_default_model_for_empty_id() {
    let request = ModelRequest::new(ModelId::from(""), vec![ModelMessage::user("Hello")]);
    assert_eq!(config().convert_request(&request).model, "model-3");
}

#[test]
fn convert_request_with_tools_sanitizes_names_and_sets_choice() {
    let request = ModelRequest::new("model-3", vec![ModelMessage::user("Search docs")]);
    let tool = ToolDefinition {
        name: "knowledge.search".to_string(),
        description: "Search knowledge entries".to_string(),
        input_schema: json(r#"{"type":"object","properties":{"query":{"type":"string"}},"required":["query"]}"#),
    };
    let anthropic_request = config().convert_request_with_tools(
        &request,
        vec![tool],
        Some(ToolChoice::Named("knowledge.search".to_string())),
    );
    assert_eq!(anthropic_request.tools.len(), 1);
    assert_eq!(anthropic_request.tools[0].name, "knowledge_search");
    assert_eq!(anthropic_request.tools[0].description, "Search knowledge entries");
    assert_eq!(
        anthropic_request.tool_choice,
        Some(AnthropicToolChoice::Tool { name: "knowledge_search".to_string() })
    );
}

#[test]
fn tool_model_message_becomes_tool_result_block() {
    let content = convert_message_content(
        ModelRole::Tool,
        r#"{"tool_use_id":"toolu_123","content":"15 degrees","is_error":false}"#,
    );
    assert_eq!(
        content,
        AnthropicMessageContent::Blocks(vec![AnthropicMessageBlock::ToolResult {
            tool_use_id: "toolu_123".to_string(),
            content: "15 degrees".to_string(),
            is_error: Some(false),
        }])
    );
}

#[test]
fn tool_result_text_falls_back_to_unknown_id() {
    assert_eq!(
        parse_tool_result_text("plain result"),
        ("toolu_unknown".to_string(), "plain result".to_string(), None)
    );
    let without_content = r#"{"tool_use_id":"toolu_9"}"#;
    assert_eq!(
        parse_tool_result_text(without_content),
        ("toolu_9".to_string(), without_content.to_string(), None)
    );
    let without_id = r#"{"content":"x"}"#;
    assert_eq!(
        parse_tool_result_text(without_id),
        ("toolu_unknown".to_string(), without_id.to_string(), None)
    );
}

#[test]
fn parse_response_basic() {
    let output = parse_response(response(vec![text_block("Hello!")], 10, 5)).unwrap();
    match output {
        ModelOutput::Text { text, usage } => {
            assert_eq!(text, "Hello!");
            let u = usage.unwrap();
            assert_eq!(u.input_tokens, 10);
            assert_eq!(u.output_tokens, 5);
        }
        _ => panic!("expected text output"),
    }
}

#[test]
fn parse_response_empty_content() {
    let result = parse_response(response(vec![], 10, 0));
    assert_eq!(result.unwrap_err(), ModelAdapterError::EmptyResponse);
}

#[test]
fn parse_response_multiple_content_blocks() {
    let output =
        parse_response(response(vec![text_block("Hello "), text_block("world!")], 10, 10)).unwrap();
    assert_eq!(output.text(), Some("Hello world!"));
}

#[test]
fn parse_response_tool_use_block() {
    let output = parse_response(response(
        vec![
            text_block("I'll search."),
            tool_block(Some("toolu_123"), Some("knowledge_search"), Some(json(r#"{"query":"AgentOS"}"#))),
        ],
        25,
        12,
    ))
    .unwrap();
    match output {
        ModelOutput::ToolCalls { content, tool_calls, usage } => {
            assert_eq!(content, Some("I'll search.".to_string()));
            assert_eq!(tool_calls.len(), 1);
            assert_eq!(tool_calls[0].id, "toolu_123");
            assert_eq!(tool_calls[0].name, "knowledge_search");
            assert_eq!(tool_calls[0].arguments["query"], "AgentOS");
            assert_eq!(tool_calls[0].raw_arguments, r#"{"query":"AgentOS"}"#);
            assert_eq!(usage.unwrap().total_tokens(), 37);
        }
        other => panic!("expected tool calls, got {other:?}"),
    }
}

#[test]
fn parse_response_tool_use_without_input_gets_empty_object() {
    let output = parse_response(response(vec![tool_block(Some("t1"), Some("noop"), None)], 1, 1)).unwrap();
    match output {
        ModelOutput::ToolCalls { content, tool_calls, .. } => {
            assert_eq!(content, None);
            assert_eq!(tool_calls[0].arguments, json("{}"));
            assert_eq!(tool_calls[0].raw_arguments, "{}");
        }
        other => panic!("expected tool calls, got {other:?}"),
    }
}

#[test]
fn parse_response_tool_use_missing_id_is_error() {
    let result = parse_response(response(
        vec![tool_block(None, Some("knowledge_search"), Some(json(r#"{"query":"AgentOS"}"#)))],
        25,
        12,
    ));
    assert_eq!(result.unwrap_err(), ModelAdapterError::MissingToolCallId);
    let no_name = parse_response(response(vec![tool_block(Some("t"), None, None)], 1, 1));
    assert_eq!(no_name.unwrap_err(), ModelAdapterError::MissingToolCallName);
}
