//! Anthropic Messages API requests and responses: the request a model
//! request becomes, and the model output a response gives back. The
//! temperature is carried in thousandths.
use crate::anthropic::{
    convert_tool_choice, sanitize_tool_name, sanitized_tool_name, AnthropicConfig,
    AnthropicToolChoice,
};
use crate::json::{
    json_bool_field, json_field_bool, json_field_str, json_parse, json_serialize, json_str_field,
    json_to_text, parse_json_text,
};
use crate::model::{
    ModelAdapterError, ModelMessage, ModelOutput, ModelRequest, ModelRole, ModelUsage, ToolCall,
    ToolChoice, ToolDefinition,
};
use crate::text::{owned, push_str, str_eq};
use vstd::prelude::*;

verus! {

/// An Anthropic Messages API request.
#[derive(Debug, Clone, PartialEq)]
pub struct AnthropicRequest {
    pub model: String,
    pub max_tokens: u32,
    pub messages: Vec<AnthropicMessage>,
    pub system: Option<String>,
    /// The temperature in thousandths.
    pub temperature_millis: Option<u16>,
    pub tools: Vec<AnthropicTool>,
    pub tool_choice: Option<AnthropicToolChoice>,
    pub stream: Option<bool>,
}

/// One message of a request.
#[derive(Debug, Clone, PartialEq, Eq)]
pub struct AnthropicMessage {
    pub role: String,
    pub content: AnthropicMessageContent,
}

/// The content of a message: plain text or content blocks.
#[derive(Debug, Clone, PartialEq, Eq)]
pub enum AnthropicMessageContent {
    Text(String),
    Blocks(Vec<AnthropicMessageBlock>),
}

/// A content block of a message.
#[derive(Debug, Clone, PartialEq, Eq)]
pub enum AnthropicMessageBlock {
    Text { text: String },
    ToolResult { tool_use_id: String, content: String, is_error: Option<bool> },
}

/// A tool offered to the model.
#[derive(Debug, Clone, PartialEq)]
pub struct AnthropicTool {
    pub name: String,
    pub description: String,
    pub input_schema: serde_json::Value,
}

/// An Anthropic Messages API response.
#[derive(Debug, Clone, PartialEq)]
pub struct AnthropicResponse {
    pub id: String,
    pub model: String,
    pub content: Vec<AnthropicContent>,
    pub usage: AnthropicUsage,
    pub stop_reason: Option<String>,
}

/// A content block of a response.
#[derive(Debug, Clone, PartialEq)]
pub struct AnthropicContent {
    pub content_type: String,
    pub text: Option<String>,
    pub id: Option<String>,
    pub name: Option<String>,
    pub input: Option<serde_json::Value>,
}

/// Token usage of a response.
#[derive(Debug, Clone, Copy, PartialEq, Eq)]
pub struct AnthropicUsage {
    pub input_tokens: u32,
    pub output_tokens: u32,
}

/// The output token limit of a request that sets none.
pub const DEFAULT_MAX_TOKENS: u32 = 4096;

/// The Anthropic role of a non-system message: assistant messages keep
/// their role, all others are sent as the user's.
pub open spec fn anthropic_role(role: ModelRole) -> Seq<char> {
    match role {
        ModelRole::Assistant => "assistant"@,
        _ => "user"@,
    }
}

fn anthropic_role_name(role: ModelRole) -> (r: &'static str)
    ensures
        r@ == anthropic_role(role),
{
    match role {
        ModelRole::Assistant => "assistant",
        _ => "user",
    }
}

/// The tool-use id given to a tool result that does not name one.
pub open spec fn unknown_tool_use_id() -> Seq<char> {
    "toolu_unknown"@
}

/// The parts of a tool result given as text: when the text is a JSON
/// object with a string `tool_use_id`, that id, its string `content` (the
/// whole text when there is none) and its boolean `is_error`; otherwise the
/// unknown id and the whole text.
pub open spec fn tool_result_parts(text: Seq<char>) -> (Seq<char>, Seq<char>, Option<bool>) {
    match json_parse(text) {
        Ok(v) => match json_field_str(v, "tool_use_id"@) {
            Some(id) => (
                id,
                match json_field_str(v, "content"@) {
                    Some(c) => c,
                    None => text,
                },
                json_field_bool(v, "is_error"@),
            ),
            None => (unknown_tool_use_id(), text, None),
        },
        Err(_) => (unknown_tool_use_id(), text, None),
    }
}

/// Splits a tool result given as text into its tool-use id, content and
/// error flag; see `tool_result_parts`.
pub fn parse_tool_result_text(text: &str) -> (r: (String, String, Option<bool>))
    ensures
        (r.0@, r.1@, r.2) == tool_result_parts(text@),
{
    match parse_json_text(text) {
        Ok(v) => match json_str_field(&v, "tool_use_id") {
            Some(id) => {
                let content = match json_str_field(&v, "content") {
                    Some(c) => c,
                    None => owned(text),
                };
                (id, content, json_bool_field(&v, "is_error"))
            },
            None => (owned("toolu_unknown"), owned(text), None),
        },
        Err(_) => (owned("toolu_unknown"), owned(text), None),
    }
}

/// Whether `c` is the content sent for a message with role `role` and
/// text `text`: a tool result block for a tool message, the text otherwise.
pub open spec fn is_content_for(c: AnthropicMessageContent, role: ModelRole, text: Seq<char>) -> bool {
    if role == ModelRole::Tool {
        let p = tool_result_parts(text);
        match c {
            AnthropicMessageContent::Blocks(bs) => bs@.len() == 1 && match bs@[0] {
                AnthropicMessageBlock::ToolResult { tool_use_id, content, is_error } => tool_use_id@
                    == p.0 && content@ == p.1 && is_error == p.2,
                _ => false,
            },
            _ => false,
        }
    } else {
        match c {
            AnthropicMessageContent::Text(t) => t@ == text,
            _ => false,
        }
    }
}

/// The content sent for a message.
pub fn convert_message_content(role: ModelRole, text: &str) -> (r: AnthropicMessageContent)
    ensures
        is_content_for(r, role, text@),
{
    if role == ModelRole::Tool {
        let (tool_use_id, content, is_error) = parse_tool_result_text(text);
        let mut blocks: Vec<AnthropicMessageBlock> = Vec::new();
        blocks.push(AnthropicMessageBlock::ToolResult { tool_use_id, content, is_error });
        AnthropicMessageContent::Blocks(blocks)
    } else {
        AnthropicMessageContent::Text(owned(text))
    }
}

/// Whether `m` is a system message.
pub open spec fn is_system(m: ModelMessage) -> bool {
    m.role == ModelRole::System
}

/// The messages of `msgs` that are not system messages, in order.
pub open spec fn non_system(msgs: Seq<ModelMessage>) -> Seq<ModelMessage> {
    msgs.filter(|m: ModelMessage| !is_system(m))
}

/// Whether `s` is the system prompt of `msgs`: the text of the first
/// system message, or nothing when there is none.
pub open spec fn is_system_of(msgs: Seq<ModelMessage>, s: Option<String>) -> bool {
    match s {
        None => forall|k: int| 0 <= k < msgs.len() ==> !is_system(#[trigger] msgs[k]),
        Some(t) => exists|i: int|
            0 <= i < msgs.len() && is_system(#[trigger] msgs[i]) && t@ == msgs[i].text@ && forall|j: int|
                0 <= j < i ==> !is_system(#[trigger] msgs[j]),
    }
}

/// Whether `a` is the message sent for `m`.
pub open spec fn is_anthropic_message_for(a: AnthropicMessage, m: ModelMessage) -> bool {
    a.role@ == anthropic_role(m.role) && is_content_for(a.content, m.role, m.text@)
}

/// Whether `t` is the tool offered for `d`: its name sanitized, its
/// description and schema as they are.
pub open spec fn is_anthropic_tool_for(t: AnthropicTool, d: ToolDefinition) -> bool {
    t.name@ == sanitized_tool_name(d.name@) && t.description@ == d.description@ && t.input_schema
        == d.input_schema
}

/// Whether `c` is Anthropic's tool choice for `choice`.
pub open spec fn is_anthropic_choice_for(c: AnthropicToolChoice, choice: ToolChoice) -> bool {
    match choice {
        ToolChoice::Auto => c == AnthropicToolChoice::Auto,
        ToolChoice::NoTool => c == AnthropicToolChoice::NoTool,
        ToolChoice::Required => c == AnthropicToolChoice::Any,
        ToolChoice::Named(name) => match c {
            AnthropicToolChoice::Tool { name: n } => n@ == sanitized_tool_name(name@),
            _ => false,
        },
    }
}

/// Whether `r` is the request for `request` with tools `tools` and tool
/// choice `choice`, under default model `default_model`: the request's
/// model (the default when it is empty), its first system message as the
/// system prompt, its other messages in order, its token limit (4096 when
/// unset) and temperature, and the tools and choice converted.
pub open spec fn is_request_for(
    default_model: Seq<char>,
    request: ModelRequest,
    tools: Seq<ToolDefinition>,
    choice: Option<ToolChoice>,
    r: AnthropicRequest,
) -> bool {
    let msgs = request.messages@;
    &&& r.model@ == if request.model_id@.len() == 0 {
        default_model
    } else {
        request.model_id@
    }
    &&& is_system_of(msgs, r.system)
    &&& r.messages@.len() == non_system(msgs).len()
    &&& forall|k: int|
        0 <= k < r.messages@.len() ==> is_anthropic_message_for(
            #[trigger] r.messages@[k],
            non_system(msgs)[k],
        )
    &&& r.max_tokens == match request.max_output_tokens {
        Some(m) => m,
        None => DEFAULT_MAX_TOKENS,
    }
    &&& r.temperature_millis == request.temperature_millis
    &&& r.tools@.len() == tools.len()
    &&& forall|k: int| 0 <= k < tools.len() ==> is_anthropic_tool_for(#[trigger] r.tools@[k], tools[k])
    &&& match choice {
        Some(c) => r.tool_choice matches Some(a) && is_anthropic_choice_for(a, c),
        None => r.tool_choice is None,
    }
    &&& r.stream is None
}

/// The first system message's text, if any.
fn system_prompt(msgs: &Vec<ModelMessage>) -> (r: Option<String>)
    ensures
        is_system_of(msgs@, r),
{
    let mut i: usize = 0;
    while i < msgs.len()
        invariant
            i <= msgs@.len(),
            forall|j: int| 0 <= j < i ==> !is_system(#[trigger] msgs@[j]),
        decreases msgs@.len() - i,
    {
        if msgs[i].role == ModelRole::System {
            assert(is_system(msgs@[i as int]));
            return Some(msgs[i].text.clone());
        }
        i = i + 1;
    }
    None
}

/// The messages sent for `msgs`: every non-system message, in order.
fn anthropic_messages(msgs: &Vec<ModelMessage>) -> (r: Vec<AnthropicMessage>)
    ensures
        r@.len() == non_system(msgs@).len(),
        forall|k: int| 0 <= k < r@.len() ==> is_anthropic_message_for(#[trigger] r@[k], non_system(msgs@)[k]),
{
    let mut out: Vec<AnthropicMessage> = Vec::new();
    let mut i: usize = 0;
    while i < msgs.len()
        invariant
            i <= msgs@.len(),
            out@.len() == non_system(msgs@.take(i as int)).len(),
            forall|k: int|
                0 <= k < out@.len() ==> is_anthropic_message_for(
                    #[trigger] out@[k],
                    non_system(msgs@.take(i as int))[k],
                ),
        decreases msgs@.len() - i,
    {
        proof {
            reveal(Seq::filter);
            assert(msgs@.take(i + 1).drop_last() == msgs@.take(i as int));
        }
        let m = &msgs[i];
        if m.role != ModelRole::System {
            out.push(
                AnthropicMessage {
                    role: owned(anthropic_role_name(m.role)),
                    content: convert_message_content(m.role, m.text.as_str()),
                },
            );
        }
        i = i + 1;
    }
    assert(msgs@.take(msgs@.len() as int) == msgs@);
    out
}

/// The tools offered for `tools`, in order, with sanitized names.
fn anthropic_tools(tools: &Vec<ToolDefinition>) -> (r: Vec<AnthropicTool>)
    ensures
        r@.len() == tools@.len(),
        forall|k: int| 0 <= k < tools@.len() ==> is_anthropic_tool_for(#[trigger] r@[k], tools@[k]),
{
    let mut out: Vec<AnthropicTool> = Vec::new();
    let mut i: usize = 0;
    while i < tools.len()
        invariant
            i <= tools@.len(),
            out@.len() == i,
            forall|k: int| 0 <= k < i ==> is_anthropic_tool_for(#[trigger] out@[k], tools@[k]),
        decreases tools@.len() - i,
    {
        let t = &tools[i];
        out.push(
            AnthropicTool {
                name: sanitize_tool_name(t.name.as_str()),
                description: t.description.clone(),
                input_schema: t.input_schema.clone(),
            },
        );
        i = i + 1;
    }
    out
}

impl AnthropicConfig {
    /// The request for a model request without tools.
    pub fn convert_request(&self, request: &ModelRequest) -> (r: AnthropicRequest)
        ensures
            is_request_for(self.default_model@, *request, Seq::empty(), None, r),
    {
        self.convert_request_with_tools(request, Vec::new(), None)
    }

    /// The request for a model request offering `tools` under
    /// `tool_choice`; see `is_request_for`.
    pub fn convert_request_with_tools(
        &self,
        request: &ModelRequest,
        tools: Vec<ToolDefinition>,
        tool_choice: Option<ToolChoice>,
    ) -> (r: AnthropicRequest)
        ensures
            is_request_for(self.default_model@, *request, tools@, tool_choice, r),
    {
        let model = if request.model_id.as_str().is_empty() {
            self.default_model.clone()
        } else {
            request.model_id.to_string()
        };
        let max_tokens = match request.max_output_tokens {
            Some(m) => m,
            None => DEFAULT_MAX_TOKENS,
        };
        let choice = match tool_choice {
            Some(c) => Some(convert_tool_choice(c)),
            None => None,
        };
        AnthropicRequest {
            model,
            max_tokens,
            messages: anthropic_messages(&request.messages),
            system: system_prompt(&request.messages),
            temperature_millis: request.temperature_millis,
            tools: anthropic_tools(&tools),
            tool_choice: choice,
            stream: None,
        }
    }
}

/// The text of a response block, empty when it has none.
pub open spec fn block_text(c: AnthropicContent) -> Seq<char> {
    match c.text {
        Some(t) => t@,
        None => Seq::empty(),
    }
}

/// The texts of all response blocks, joined.
pub open spec fn joined_text(cs: Seq<AnthropicContent>) -> Seq<char>
    decreases cs.len(),
{
    if cs.len() == 0 {
        Seq::empty()
    } else {
        joined_text(cs.drop_last()) + block_text(cs.last())
    }
}

/// Whether a response block asks for a tool call.
pub open spec fn is_tool_use(c: AnthropicContent) -> bool {
    c.content_type@ == "tool_use"@
}

/// The tool-use blocks of a response, in order.
pub open spec fn tool_uses(cs: Seq<AnthropicContent>) -> Seq<AnthropicContent> {
    cs.filter(|c: AnthropicContent| is_tool_use(c))
}

/// The JSON text of the empty object.
pub open spec fn empty_object_text() -> Seq<char> {
    seq!['{', '}']
}

/// The arguments of a tool-use block: its input, or the empty object.
pub open spec fn use_arguments(c: AnthropicContent) -> Result<serde_json::Value, Seq<char>> {
    match c.input {
        Some(v) => Ok(v),
        None => json_parse(empty_object_text()),
    }
}

/// Whether a tool-use block cannot become a tool call: it has no id or no
/// name, or its arguments cannot be written as JSON text.
pub open spec fn tool_use_fails(c: AnthropicContent) -> bool {
    c.id is None || c.name is None || match use_arguments(c) {
        Ok(v) => json_serialize(v) is Err,
        Err(_) => true,
    }
}

/// Whether `e` is the error for the failing tool-use block `c`: a missing
/// id first, then a missing name, then the arguments' error.
pub open spec fn is_tool_use_error(c: AnthropicContent, e: ModelAdapterError) -> bool {
    if c.id is None {
        e == ModelAdapterError::MissingToolCallId
    } else if c.name is None {
        e == ModelAdapterError::MissingToolCallName
    } else {
        match use_arguments(c) {
            Err(m) => e matches ModelAdapterError::MalformedToolCallArguments(x) && x@ == m,
            Ok(v) => match json_serialize(v) {
                Err(m) => e matches ModelAdapterError::MalformedToolCallArguments(x) && x@ == m,
                Ok(_) => false,
            },
        }
    }
}

/// Whether `call` is the tool call for the tool-use block `c`.
pub open spec fn is_call_for_use(c: AnthropicContent, call: ToolCall) -> bool {
    &&& c.id matches Some(id) && call.id@ == id@
    &&& c.name matches Some(n) && call.name@ == n@
    &&& use_arguments(c) == Ok::<serde_json::Value, Seq<char>>(call.arguments)
    &&& json_serialize(call.arguments) == Ok::<Seq<char>, Seq<char>>(call.raw_arguments@)
}

/// Whether some block of `uses` fails.
pub open spec fn some_tool_use_fails(uses: Seq<AnthropicContent>) -> bool {
    exists|i: int| 0 <= i < uses.len() && tool_use_fails(#[trigger] uses[i])
}

/// Whether `e` is the error of the first failing block of `uses`.
pub open spec fn is_first_tool_use_error(uses: Seq<AnthropicContent>, e: ModelAdapterError) -> bool {
    exists|i: int|
        0 <= i < uses.len() && tool_use_fails(#[trigger] uses[i]) && is_tool_use_error(uses[i], e)
            && forall|j: int| 0 <= j < i ==> !tool_use_fails(#[trigger] uses[j])
}

/// Whether `out` holds the tool calls for `uses`, in order.
pub open spec fn are_calls_for_uses(uses: Seq<AnthropicContent>, out: Seq<ToolCall>) -> bool {
    out.len() == uses.len() && forall|i: int| 0 <= i < out.len() ==> is_call_for_use(uses[i], #[trigger] out[i])
}

/// The arguments of a tool-use block: its input, or the empty object
/// parsed from `{}`.
pub fn tool_use_arguments(input: &Option<serde_json::Value>) -> (r: Result<serde_json::Value, String>)
    ensures
        match *input {
            Some(v) => r == Ok::<serde_json::Value, String>(v),
            None => match r {
                Ok(v) => json_parse(empty_object_text()) == Ok::<serde_json::Value, Seq<char>>(v),
                Err(m) => json_parse(empty_object_text()) == Err::<serde_json::Value, Seq<char>>(m@),
            },
        },
{
    match input {
        Some(v) => Ok(v.clone()),
        None => {
            let text: &str = "{}";
            proof {
                reveal_strlit("{}");
                assert(text@ =~= empty_object_text());
            }
            parse_json_text(text)
        },
    }
}

/// The tool call for a tool-use block: its id and name, its arguments and
/// their JSON text.
pub fn tool_call_from_use(c: &AnthropicContent) -> (r: Result<ToolCall, ModelAdapterError>)
    ensures
        r is Err <==> tool_use_fails(*c),
        r matches Ok(call) ==> is_call_for_use(*c, call),
        r matches Err(e) ==> is_tool_use_error(*c, e),
{
    let id = match &c.id {
        Some(id) => id.clone(),
        None => return Err(ModelAdapterError::MissingToolCallId),
    };
    let name = match &c.name {
        Some(n) => n.clone(),
        None => return Err(ModelAdapterError::MissingToolCallName),
    };
    let arguments = match tool_use_arguments(&c.input) {
        Ok(v) => v,
        Err(m) => return Err(ModelAdapterError::MalformedToolCallArguments(m)),
    };
    let raw_arguments = match json_to_text(&arguments) {
        Ok(t) => t,
        Err(m) => return Err(ModelAdapterError::MalformedToolCallArguments(m)),
    };
    Ok(ToolCall { id, name, arguments, raw_arguments })
}

/// The tool calls of the tool-use blocks of `content`, stopping at the
/// first block that fails.
fn tool_calls_of(content: &Vec<AnthropicContent>) -> (r: Result<Vec<ToolCall>, ModelAdapterError>)
    ensures
        r is Err <==> some_tool_use_fails(tool_uses(content@)),
        r matches Ok(out) ==> are_calls_for_uses(tool_uses(content@), out@),
        r matches Err(e) ==> is_first_tool_use_error(tool_uses(content@), e),
{
    let ghost cs = content@;
    let mut out: Vec<ToolCall> = Vec::new();
    let mut i: usize = 0;
    while i < content.len()
        invariant
            cs == content@,
            i <= cs.len(),
            are_calls_for_uses(tool_uses(cs.take(i as int)), out@),
            !some_tool_use_fails(tool_uses(cs.take(i as int))),
        decreases cs.len() - i,
    {
        let ghost before = tool_uses(cs.take(i as int));
        proof {
            reveal(Seq::filter);
            assert(cs.take(i + 1).drop_last() == cs.take(i as int));
            assert(cs == cs.take(i + 1) + cs.skip(i + 1));
            Seq::filter_distributes_over_add(cs.take(i + 1), cs.skip(i + 1), |c: AnthropicContent| is_tool_use(c));
        }
        let c = &content[i];
        if str_eq(c.content_type.as_str(), "tool_use") {
            proof {
                assert(tool_uses(cs.take(i + 1)) == before.push(*c));
            }
            match tool_call_from_use(c) {
                Ok(call) => {
                    out.push(call);
                    proof {
                        assert(are_calls_for_uses(tool_uses(cs.take(i + 1)), out@));
                        assert forall|k: int|
                            0 <= k < tool_uses(cs.take(i + 1)).len() implies !tool_use_fails(
                            #[trigger] tool_uses(cs.take(i + 1))[k],
                        ) by {
                            if k < before.len() {
                                assert(tool_uses(cs.take(i + 1))[k] == before[k]);
                            }
                        }
                    }
                },
                Err(e) => {
                    proof {
                        let uses = tool_uses(cs);
                        assert(uses == tool_uses(cs.take(i + 1)) + tool_uses(cs.skip(i + 1)));
                        let k = before.len() as int;
                        assert(uses[k] == *c);
                        assert forall|j: int| 0 <= j < k implies !tool_use_fails(#[trigger] uses[j]) by {
                            assert(uses[j] == before[j]);
                        }
                        assert(tool_use_fails(uses[k]));
                    }
                    return Err(e);
                },
            }
        } else {
            proof {
                assert(tool_uses(cs.take(i + 1)) == before);
            }
        }
        i = i + 1;
    }
    assert(cs.take(cs.len() as int) == cs);
    Ok(out)
}

/// Joins the texts of all blocks of `content`.
fn joined_text_of(content: &Vec<AnthropicContent>) -> (r: String)
    ensures
        r@ == joined_text(content@),
{
    let mut text = String::new();
    let mut i: usize = 0;
    while i < content.len()
        invariant
            i <= content@.len(),
            text@ == joined_text(content@.take(i as int)),
        decreases content@.len() - i,
    {
        proof {
            assert(content@.take(i + 1).drop_last() == content@.take(i as int));
        }
        match &content[i].text {
            Some(t) => push_str(&mut text, t.as_str()),
            None => {},
        }
        i = i + 1;
    }
    assert(content@.take(content@.len() as int) == content@);
    text
}

/// Turns a response into a model output: tool calls when it has tool-use
/// blocks (with the joined text as content, if any), the joined text
/// otherwise; a block that cannot become a tool call, or a response with
/// neither tool calls nor text, is an error.
pub fn parse_response(response: AnthropicResponse) -> (r: Result<ModelOutput, ModelAdapterError>)
    ensures
        ({
            let text = joined_text(response.content@);
            let usage = ModelUsage {
                input_tokens: response.usage.input_tokens,
                output_tokens: response.usage.output_tokens,
            };
            let uses = tool_uses(response.content@);
            if some_tool_use_fails(uses) {
                r matches Err(e) && is_first_tool_use_error(uses, e)
            } else if uses.len() > 0 {
                r matches Ok(ModelOutput::ToolCalls { content, tool_calls, usage: u }) && (if text.len()
                    == 0 {
                    content is None
                } else {
                    content matches Some(t) && t@ == text
                }) && are_calls_for_uses(uses, tool_calls@) && u == Some(usage)
            } else if text.len() == 0 {
                r == Err::<ModelOutput, ModelAdapterError>(ModelAdapterError::EmptyResponse)
            } else {
                r matches Ok(ModelOutput::Text { text: t, usage: u }) && t@ == text && u == Some(usage)
            }
        }),
{
    let text = joined_text_of(&response.content);
    let usage = ModelUsage {
        input_tokens: response.usage.input_tokens,
        output_tokens: response.usage.output_tokens,
    };
    let tool_calls = match tool_calls_of(&response.content) {
        Ok(v) => v,
        Err(e) => return Err(e),
    };
    if tool_calls.len() > 0 {
        let content = if text.as_str().is_empty() {
            None
        } else {
            Some(text)
        };
        return Ok(ModelOutput::ToolCalls { content, tool_calls, usage: Some(usage) });
    }
    if text.as_str().is_empty() {
        return Err(ModelAdapterError::EmptyResponse);
    }
    Ok(ModelOutput::Text { text, usage: Some(usage) })
}

} // verus!
