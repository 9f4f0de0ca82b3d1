//! OpenAI-compatible Chat Completions: the endpoint URL, the chat request a
//! model request becomes, and the model output a chat response gives back.
//! Temperatures are carried in thousandths.
use crate::json::{json_parse, parse_json_text};
use crate::model::{
    ModelAdapterError, ModelMessage, ModelOutput, ModelRequest, ModelRole, ModelUsage, ToolCall,
    ToolChoice, ToolDefinition,
};
use crate::text::{chars_of, owned, push_str, string_from_chars, IntoText};
use vstd::prelude::*;

verus! {

/// Configuration for connecting to an OpenAI-compatible endpoint.
#[derive(Debug, Clone, PartialEq, Eq)]
pub struct OpenAiProviderConfig {
    /// Base URL for the Chat Completions endpoint.
    pub endpoint: String,
    /// API key / bearer token.
    pub api_key: String,
    /// Model identifier.
    pub model: String,
    /// Optional fixed temperature, in thousandths, used when a request sets none.
    pub temperature_millis: Option<u32>,
    /// Optional max output tokens, used when a request sets none.
    pub max_tokens: Option<u32>,
    /// Request timeout in seconds (120 when unset).
    pub timeout_secs: Option<u64>,
}

/// One chat message on the wire.
#[derive(Debug, Clone, PartialEq, Eq)]
pub struct ChatMessage {
    pub role: String,
    pub content: Option<String>,
    pub tool_calls: Option<Vec<ChatToolCallResponse>>,
    pub tool_call_id: Option<String>,
}

/// A function tool offered to the model.
#[derive(Debug, Clone, PartialEq)]
pub struct ChatTool {
    pub tool_type: String,
    pub function: ChatFunction,
}

/// The function a chat tool describes.
#[derive(Debug, Clone, PartialEq)]
pub struct ChatFunction {
    pub name: String,
    pub description: String,
    pub parameters: serde_json::Value,
}

/// Whether and which tool the model must call.
#[derive(Debug, Clone, PartialEq, Eq)]
pub enum ChatToolChoice {
    Auto,
    /// No tool may be called.
    NoTool,
    Required,
    Named { function: ChatToolChoiceName },
}

/// The tool named by a chat tool choice.
#[derive(Debug, Clone, PartialEq, Eq)]
pub struct ChatToolChoiceName {
    pub name: String,
}

/// A tool call in a chat response.
#[derive(Debug, Clone, PartialEq, Eq)]
pub struct ChatToolCallResponse {
    pub id: Option<String>,
    pub call_type: Option<String>,
    pub function: ChatFunctionCall,
}

/// The function call inside a tool call: its name and raw JSON arguments.
#[derive(Debug, Clone, PartialEq, Eq)]
pub struct ChatFunctionCall {
    pub name: Option<String>,
    pub arguments: String,
}

/// A chat request; the temperature is in thousandths.
#[derive(Debug, Clone, PartialEq)]
pub struct ChatRequest {
    pub model: String,
    pub messages: Vec<ChatMessage>,
    pub temperature_millis: Option<u32>,
    pub max_tokens: Option<u32>,
    pub tools: Option<Vec<ChatTool>>,
    pub tool_choice: Option<ChatToolChoice>,
}

/// A chat response.
#[derive(Debug, Clone, PartialEq, Eq)]
pub struct ChatResponse {
    pub id: Option<String>,
    pub choices: Vec<ChatChoice>,
    pub usage: Option<ChatUsage>,
    pub model: Option<String>,
}

/// One choice of a chat response.
#[derive(Debug, Clone, PartialEq, Eq)]
pub struct ChatChoice {
    pub message: ChatMessage,
    pub finish_reason: Option<String>,
}

/// Token usage of a chat response.
#[derive(Debug, Clone, Copy, PartialEq, Eq)]
pub struct ChatUsage {
    pub prompt_tokens: Option<u32>,
    pub completion_tokens: Option<u32>,
}

/// `s` without trailing `/` characters.
pub open spec fn trim_end_slashes(s: Seq<char>) -> Seq<char>
    decreases s.len(),
{
    if s.len() > 0 && s.last() == '/' {
        trim_end_slashes(s.drop_last())
    } else {
        s
    }
}

/// The wire name of a role.
pub open spec fn role_name(role: ModelRole) -> Seq<char> {
    match role {
        ModelRole::System => "system"@,
        ModelRole::User => "user"@,
        ModelRole::Assistant => "assistant"@,
        ModelRole::Tool => "tool"@,
    }
}

/// The wire name of a role.
pub fn convert_role(role: &ModelRole) -> (r: &'static str)
    ensures
        r@ == role_name(*role),
{
    match role {
        ModelRole::System => "system",
        ModelRole::User => "user",
        ModelRole::Assistant => "assistant",
        ModelRole::Tool => "tool",
    }
}

/// Whether `c` is the chat message sent for `m`: the role's wire name and
/// the text, with no tool fields.
pub open spec fn is_chat_message_for(c: ChatMessage, m: ModelMessage) -> bool {
    &&& c.role@ == role_name(m.role)
    &&& c.content matches Some(t) && t@ == m.text@
    &&& c.tool_calls is None
    &&& c.tool_call_id is None
}

/// Whether `t` is the chat tool offered for `d`: a function tool with the
/// same name, description and schema.
pub open spec fn is_chat_tool_for(t: ChatTool, d: ToolDefinition) -> bool {
    &&& t.tool_type@ == "function"@
    &&& t.function.name@ == d.name@
    &&& t.function.description@ == d.description@
    &&& t.function.parameters == d.input_schema
}

/// Whether `c` is the chat tool choice for `choice`.
pub open spec fn is_chat_choice_for(c: ChatToolChoice, choice: ToolChoice) -> bool {
    match choice {
        ToolChoice::Auto => c == ChatToolChoice::Auto,
        ToolChoice::NoTool => c == ChatToolChoice::NoTool,
        ToolChoice::Required => c == ChatToolChoice::Required,
        ToolChoice::Named(name) => c matches ChatToolChoice::Named { function } && function.name@
            == name@,
    }
}

/// `o` if it is set, else `d`.
pub open spec fn or_else<T>(o: Option<T>, d: Option<T>) -> Option<T> {
    match o {
        Some(v) => Some(v),
        None => d,
    }
}

/// A request temperature, in thousandths, widened to `u32`.
pub open spec fn widened(t: Option<u16>) -> Option<u32> {
    match t {
        Some(v) => Some(v as u32),
        None => None,
    }
}

/// The chat messages for `messages`, in order.
fn chat_messages(messages: &[ModelMessage]) -> (r: Vec<ChatMessage>)
    ensures
        r@.len() == messages@.len(),
        forall|i: int| 0 <= i < r@.len() ==> is_chat_message_for(#[trigger] r@[i], messages@[i]),
{
    let mut out: Vec<ChatMessage> = Vec::new();
    let mut i: usize = 0;
    while i < messages.len()
        invariant
            i <= messages@.len(),
            out@.len() == i,
            forall|k: int| 0 <= k < i ==> is_chat_message_for(#[trigger] out@[k], messages@[k]),
        decreases messages@.len() - i,
    {
        let m = &messages[i];
        out.push(
            ChatMessage {
                role: owned(convert_role(&m.role)),
                content: Some(m.text.clone()),
                tool_calls: None,
                tool_call_id: None,
            },
        );
        i = i + 1;
    }
    out
}

impl OpenAiProviderConfig {
    /// A configuration with no temperature, token limit or timeout set.
    pub fn new<E: IntoText, K: IntoText, M: IntoText>(endpoint: E, api_key: K, model: M) -> (r: Self)
        ensures
            r.endpoint@ == endpoint.text(),
            r.api_key@ == api_key.text(),
            r.model@ == model.text(),
            r.temperature_millis is None,
            r.max_tokens is None,
            r.timeout_secs is None,
    {
        OpenAiProviderConfig {
            endpoint: endpoint.into_text(),
            api_key: api_key.into_text(),
            model: model.into_text(),
            temperature_millis: None,
            max_tokens: None,
            timeout_secs: None,
        }
    }

    /// The Chat Completions URL: the endpoint without trailing slashes,
    /// followed by `/chat/completions`.
    pub fn chat_completions_url(&self) -> (r: String)
        ensures
            r@ == trim_end_slashes(self.endpoint@) + "/chat/completions"@,
    {
        let mut cs = chars_of(self.endpoint.as_str());
        let mut n = cs.len();
        assert(cs@.take(n as int) == cs@);
        while n > 0 && cs[n - 1] == '/'
            invariant
                cs@ == self.endpoint@,
                n <= cs@.len(),
                trim_end_slashes(cs@.take(n as int)) == trim_end_slashes(self.endpoint@),
            decreases n,
        {
            assert(cs@.take(n - 1) == cs@.take(n as int).drop_last());
            n = n - 1;
        }
        cs.truncate(n);
        let mut url = string_from_chars(cs.as_slice());
        push_str(&mut url, "/chat/completions");
        url
    }

    /// The chat request for a model request: every message with its role's
    /// wire name, the configured model, and the request's temperature and
    /// token limit, falling back to the configured ones.
    pub fn convert_request(&self, request: &ModelRequest) -> (r: ChatRequest)
        ensures
            r.model@ == self.model@,
            r.messages@.len() == request.messages@.len(),
            forall|i: int|
                0 <= i < r.messages@.len() ==> is_chat_message_for(
                    #[trigger] r.messages@[i],
                    request.messages@[i],
                ),
            r.temperature_millis == or_else(widened(request.temperature_millis), self.temperature_millis),
            r.max_tokens == or_else(request.max_output_tokens, self.max_tokens),
            r.tools is None,
            r.tool_choice is None,
    {
        let temperature_millis = match request.temperature_millis {
            Some(t) => Some(t as u32),
            None => self.temperature_millis,
        };
        let max_tokens = match request.max_output_tokens {
            Some(m) => Some(m),
            None => self.max_tokens,
        };
        ChatRequest {
            model: self.model.clone(),
            messages: chat_messages(request.messages.as_slice()),
            temperature_millis,
            max_tokens,
            tools: None,
            tool_choice: None,
        }
    }

    /// The chat request for a tool-calling model request: as
    /// `convert_request`, but with the request's own temperature and token
    /// limit only, every tool as a function tool, and the tool choice.
    pub fn convert_request_with_tools(
        &self,
        request: &ModelRequest,
        tools: &[ToolDefinition],
        tool_choice: &ToolChoice,
    ) -> (r: ChatRequest)
        ensures
            r.model@ == self.model@,
            r.messages@.len() == request.messages@.len(),
            forall|i: int|
                0 <= i < r.messages@.len() ==> is_chat_message_for(
                    #[trigger] r.messages@[i],
                    request.messages@[i],
                ),
            r.temperature_millis == widened(request.temperature_millis),
            r.max_tokens == request.max_output_tokens,
            r.tools matches Some(ts) && ts@.len() == tools@.len() && forall|i: int|
                0 <= i < ts@.len() ==> is_chat_tool_for(#[trigger] ts@[i], tools@[i]),
            r.tool_choice matches Some(c) && is_chat_choice_for(c, *tool_choice),
    {
        let mut chat_tools: Vec<ChatTool> = Vec::new();
        let mut i: usize = 0;
        while i < tools.len()
            invariant
                i <= tools@.len(),
                chat_tools@.len() == i,
                forall|k: int| 0 <= k < i ==> is_chat_tool_for(#[trigger] chat_tools@[k], tools@[k]),
            decreases tools@.len() - i,
        {
            let t = &tools[i];
            chat_tools.push(
                ChatTool {
                    tool_type: owned("function"),
                    function: ChatFunction {
                        name: t.name.clone(),
                        description: t.description.clone(),
                        parameters: t.input_schema.clone(),
                    },
                },
            );
            i = i + 1;
        }
        let choice = match tool_choice {
            ToolChoice::Auto => ChatToolChoice::Auto,
            ToolChoice::NoTool => ChatToolChoice::NoTool,
            ToolChoice::Required => ChatToolChoice::Required,
            ToolChoice::Named(name) => ChatToolChoice::Named {
                function: ChatToolChoiceName { name: name.clone() },
            },
        };
        let temperature_millis = match request.temperature_millis {
            Some(t) => Some(t as u32),
            None => None,
        };
        ChatRequest {
            model: self.model.clone(),
            messages: chat_messages(request.messages.as_slice()),
            temperature_millis,
            max_tokens: request.max_output_tokens,
            tools: Some(chat_tools),
            tool_choice: Some(choice),
        }
    }
}

/// The message of an invalid-arguments error for tool `name`.
pub open spec fn invalid_arguments_message(name: Seq<char>, reason: Seq<char>) -> Seq<char> {
    "invalid JSON in tool call '"@ + name + "': "@ + reason
}

/// Whether a wire tool call cannot become a tool call: it has no id or no
/// name, or its arguments are not JSON.
pub open spec fn tool_call_fails(tc: ChatToolCallResponse) -> bool {
    tc.id is None || tc.function.name is None || json_parse(tc.function.arguments@) is Err
}

/// Whether `e` is the error for the failing wire tool call `tc`: a missing
/// id first, then a missing name, then the arguments' parse error.
pub open spec fn is_tool_call_error(tc: ChatToolCallResponse, e: ModelAdapterError) -> bool {
    if tc.id is None {
        e == ModelAdapterError::MissingToolCallId
    } else if tc.function.name is None {
        e == ModelAdapterError::MissingToolCallName
    } else {
        match json_parse(tc.function.arguments@) {
            Err(reason) => e matches ModelAdapterError::MalformedToolCallArguments(m) && m@
                == invalid_arguments_message(tc.function.name->0@, reason),
            Ok(_) => false,
        }
    }
}

/// Whether `call` is the tool call for the wire tool call `tc`: its id,
/// name, parsed arguments and raw arguments.
pub open spec fn is_tool_call_for(tc: ChatToolCallResponse, call: ToolCall) -> bool {
    &&& tc.id matches Some(id) && call.id@ == id@
    &&& tc.function.name matches Some(n) && call.name@ == n@
    &&& json_parse(tc.function.arguments@) == Ok::<serde_json::Value, Seq<char>>(call.arguments)
    &&& call.raw_arguments@ == tc.function.arguments@
}

/// The tool call for already parsed arguments: the parsed value, or an
/// invalid-arguments error naming the tool.
pub fn tool_call_from_arguments(
    id: String,
    name: String,
    raw_arguments: String,
    parsed: Result<serde_json::Value, String>,
) -> (r: Result<ToolCall, ModelAdapterError>)
    ensures
        match parsed {
            Ok(v) => r == Ok::<ToolCall, ModelAdapterError>(
                ToolCall { id, name, arguments: v, raw_arguments },
            ),
            Err(reason) => r matches Err(ModelAdapterError::MalformedToolCallArguments(m)) && m@
                == invalid_arguments_message(name@, reason@),
        },
{
    match parsed {
        Ok(arguments) => Ok(ToolCall { id, name, arguments, raw_arguments }),
        Err(reason) => {
            let mut m = owned("invalid JSON in tool call '");
            push_str(&mut m, name.as_str());
            push_str(&mut m, "': ");
            push_str(&mut m, reason.as_str());
            Err(ModelAdapterError::MalformedToolCallArguments(m))
        },
    }
}

/// Turns a wire tool call into a tool call, parsing its arguments as JSON.
pub fn parse_tool_call(tc: &ChatToolCallResponse) -> (r: Result<ToolCall, ModelAdapterError>)
    ensures
        r is Err <==> tool_call_fails(*tc),
        r matches Ok(call) ==> is_tool_call_for(*tc, call),
        r matches Err(e) ==> is_tool_call_error(*tc, e),
{
    let id = match &tc.id {
        Some(id) => id.clone(),
        None => return Err(ModelAdapterError::MissingToolCallId),
    };
    let name = match &tc.function.name {
        Some(n) => n.clone(),
        None => return Err(ModelAdapterError::MissingToolCallName),
    };
    let parsed = parse_json_text(tc.function.arguments.as_str());
    tool_call_from_arguments(id, name, tc.function.arguments.clone(), parsed)
}

/// A count that may be missing, as zero.
pub open spec fn or_zero(n: Option<u32>) -> u32 {
    match n {
        Some(v) => v,
        None => 0,
    }
}

/// The model usage for a chat usage: missing counts are zero.
pub open spec fn usage_of(u: Option<ChatUsage>) -> Option<ModelUsage> {
    match u {
        Some(u) => Some(
            ModelUsage { input_tokens: or_zero(u.prompt_tokens), output_tokens: or_zero(u.completion_tokens) },
        ),
        None => None,
    }
}

/// Whether some wire tool call of `tcs` fails.
pub open spec fn some_tool_call_fails(tcs: Seq<ChatToolCallResponse>) -> bool {
    exists|i: int| 0 <= i < tcs.len() && tool_call_fails(#[trigger] tcs[i])
}

/// Whether `e` is the error of the first failing tool call of `tcs`.
pub open spec fn is_first_tool_call_error(tcs: Seq<ChatToolCallResponse>, e: ModelAdapterError) -> bool {
    exists|i: int|
        0 <= i < tcs.len() && tool_call_fails(#[trigger] tcs[i]) && is_tool_call_error(tcs[i], e)
            && forall|j: int| 0 <= j < i ==> !tool_call_fails(#[trigger] tcs[j])
}

/// Whether `out` holds the tool calls for `tcs`, in order.
pub open spec fn are_tool_calls_for(tcs: Seq<ChatToolCallResponse>, out: Seq<ToolCall>) -> bool {
    out.len() == tcs.len() && forall|i: int| 0 <= i < out.len() ==> is_tool_call_for(tcs[i], #[trigger] out[i])
}

/// Turns every wire tool call into a tool call, stopping at the first that fails.
fn parse_tool_calls(tcs: &Vec<ChatToolCallResponse>) -> (r: Result<Vec<ToolCall>, ModelAdapterError>)
    ensures
        r is Err <==> some_tool_call_fails(tcs@),
        r matches Ok(out) ==> are_tool_calls_for(tcs@, out@),
        r matches Err(e) ==> is_first_tool_call_error(tcs@, e),
{
    let mut out: Vec<ToolCall> = Vec::new();
    let mut i: usize = 0;
    while i < tcs.len()
        invariant
            i <= tcs@.len(),
            out@.len() == i,
            forall|k: int| 0 <= k < i ==> !tool_call_fails(#[trigger] tcs@[k]),
            forall|k: int| 0 <= k < i ==> is_tool_call_for(tcs@[k], #[trigger] out@[k]),
        decreases tcs@.len() - i,
    {
        match parse_tool_call(&tcs[i]) {
            Ok(call) => {
                out.push(call);
            },
            Err(e) => {
                assert(tool_call_fails(tcs@[i as int]));
                return Err(e);
            },
        }
        i = i + 1;
    }
    Ok(out)
}

/// Turns a chat response into a model output: its first choice gives tool
/// calls when it has any, and text otherwise; a response without choices,
/// or with a tool call that cannot be read, is an error.
pub fn convert_response(resp: ChatResponse, fallback_model: &str) -> (r: Result<ModelOutput, ModelAdapterError>)
    ensures
        resp.choices@.len() == 0 ==> (r matches Err(ModelAdapterError::ExecutorFailed(m)) && m@
            == "no choices in response"@),
        resp.choices@.len() > 0 ==> {
            let msg = resp.choices@[0].message;
            let usage = usage_of(resp.usage);
            if msg.tool_calls matches Some(tcs) && tcs@.len() > 0 {
                let tcs = msg.tool_calls->0@;
                &&& r is Err <==> some_tool_call_fails(tcs)
                &&& r matches Err(e) ==> is_first_tool_call_error(tcs, e)
                &&& r is Ok ==> (r matches Ok(ModelOutput::ToolCalls { content, tool_calls, usage: u })
                    && content == msg.content && are_tool_calls_for(tcs, tool_calls@) && u == usage)
            } else {
                r matches Ok(ModelOutput::Text { text, usage: u }) && text@ == match msg.content {
                    Some(c) => c@,
                    None => Seq::<char>::empty(),
                } && u == usage
            }
        },
{
    if resp.choices.len() == 0 {
        return Err(ModelAdapterError::ExecutorFailed(owned("no choices in response")));
    }
    let ghost first = resp.choices@[0];
    let mut choices = resp.choices;
    let choice = choices.remove(0);
    assert(choice == first);
    let usage = match resp.usage {
        Some(u) => Some(
            ModelUsage {
                input_tokens: match u.prompt_tokens {
                    Some(n) => n,
                    None => 0,
                },
                output_tokens: match u.completion_tokens {
                    Some(n) => n,
                    None => 0,
                },
            },
        ),
        None => None,
    };
    assert(usage == usage_of(resp.usage));
    let ghost msg = first.message;
    let content = choice.message.content;
    let tool_calls_opt = choice.message.tool_calls;
    assert(content == msg.content && tool_calls_opt == msg.tool_calls);
    match tool_calls_opt {
        Some(tcs) => {
            if tcs.len() > 0 {
                let tool_calls = match parse_tool_calls(&tcs) {
                    Ok(v) => v,
                    Err(e) => return Err(e),
                };
                return Ok(ModelOutput::ToolCalls { content, tool_calls, usage });
            }
        },
        None => {},
    }
    let text = match content {
        Some(c) => c,
        None => String::new(),
    };
    Ok(ModelOutput::Text { text, usage })
}

/// The error for a failed chat response with HTTP status displayed as
/// `status_text`: the message of the body's error when it has one, else
/// the body itself.
pub fn openai_error_for_status(status_text: &str, error_message: Option<String>, body: String) -> (r: ModelAdapterError)
    ensures
        r matches ModelAdapterError::ExecutorFailed(m) && m@ == "API returned "@ + status_text@ + ": "@ + match error_message {
            Some(e) => e@,
            None => body@,
        },
{
    let detail = match error_message {
        Some(e) => e,
        None => body,
    };
    let mut m = owned("API returned ");
    push_str(&mut m, status_text);
    push_str(&mut m, ": ");
    push_str(&mut m, detail.as_str());
    ModelAdapterError::ExecutorFailed(m)
}

} // verus!
