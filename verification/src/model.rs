//! Provider-neutral model adapter types: model identities and capabilities,
//! requests and outputs, stream events and their accumulation, and the
//! typed errors that adapters report.
use crate::text::{
    ascii_lower, ascii_lower_chars, chars_of, contains_chars, contains_seq, owned, push_str, IntoText,
};
use vstd::arithmetic::power::{lemma_pow_increases, pow};
use vstd::prelude::*;

verus! {

/// Unique model identifier.
#[derive(Debug, Clone, PartialEq, Eq, PartialOrd, Ord, Hash)]
pub struct ModelId(pub String);

impl View for ModelId {
    type V = Seq<char>;

    open spec fn view(&self) -> Seq<char> {
        self.0@
    }
}

impl IntoText for ModelId {
    open spec fn text(&self) -> Seq<char> {
        self@
    }

    fn into_text(self) -> (r: String) {
        self.0
    }
}

impl ModelId {
    /// Builds an id from text.
    pub fn from<T: IntoText>(s: T) -> (r: ModelId)
        ensures
            r@ == s.text(),
    {
        ModelId(s.into_text())
    }

    /// The id as it is displayed: its text.
    pub fn to_string(&self) -> (r: String)
        ensures
            r@ == self@,
    {
        self.0.clone()
    }

    /// The id as text.
    pub fn as_str(&self) -> (r: &str)
        ensures
            r@ == self@,
    {
        self.0.as_str()
    }

    /// A copy of the id.
    pub fn duplicate(&self) -> (r: ModelId)
        ensures
            r@ == self@,
    {
        ModelId(self.0.clone())
    }

    /// Whether two ids hold the same text.
    pub fn same(&self, other: &ModelId) -> (r: bool)
        ensures
            r == (self@ == other@),
    {
        self.0 == other.0
    }
}

/// Model provider identifier.
#[derive(Debug, Clone, PartialEq, Eq)]
pub enum ModelProvider {
    OpenAi,
    Anthropic,
    Google,
    Local,
    Test,
    Custom(String),
}

/// Provider-neutral capabilities supported by a model.
#[derive(Debug, Clone, Copy, PartialEq, Eq)]
pub struct ModelCapabilities {
    pub supports_streaming: bool,
    pub supports_tools: bool,
    pub supports_vision: bool,
    pub supports_json: bool,
    pub max_context_tokens: Option<u32>,
}

impl ModelCapabilities {
    /// No optional capability and no context limit.
    pub fn text_only() -> (r: Self)
        ensures
            !r.supports_streaming,
            !r.supports_tools,
            !r.supports_vision,
            !r.supports_json,
            r.max_context_tokens is None,
    {
        ModelCapabilities {
            supports_streaming: false,
            supports_tools: false,
            supports_vision: false,
            supports_json: false,
            max_context_tokens: None,
        }
    }

    /// Tools and JSON output; nothing else.
    pub fn tool_calling() -> (r: Self)
        ensures
            !r.supports_streaming,
            r.supports_tools,
            !r.supports_vision,
            r.supports_json,
            r.max_context_tokens is None,
    {
        ModelCapabilities {
            supports_streaming: false,
            supports_tools: true,
            supports_vision: false,
            supports_json: true,
            max_context_tokens: None,
        }
    }

    /// The same capabilities with streaming set to `supported`.
    pub fn streaming(self, supported: bool) -> (r: Self)
        ensures
            r == (ModelCapabilities { supports_streaming: supported, ..self }),
    {
        ModelCapabilities { supports_streaming: supported, ..self }
    }

    /// The same capabilities with vision set to `supported`.
    pub fn vision(self, supported: bool) -> (r: Self)
        ensures
            r == (ModelCapabilities { supports_vision: supported, ..self }),
    {
        ModelCapabilities { supports_vision: supported, ..self }
    }

    /// The same capabilities with JSON output set to `supported`.
    pub fn json(self, supported: bool) -> (r: Self)
        ensures
            r == (ModelCapabilities { supports_json: supported, ..self }),
    {
        ModelCapabilities { supports_json: supported, ..self }
    }

    /// The same capabilities with a context limit of `tokens`.
    pub fn max_context_tokens(self, tokens: u32) -> (r: Self)
        ensures
            r == (ModelCapabilities { max_context_tokens: Some(tokens), ..self }),
    {
        ModelCapabilities { max_context_tokens: Some(tokens), ..self }
    }
}

impl Default for ModelCapabilities {
    fn default() -> (r: Self)
        ensures
            r == ModelCapabilities::text_only_spec(),
    {
        Self::text_only()
    }
}

impl ModelCapabilities {
    /// The value `text_only` returns.
    pub open spec fn text_only_spec() -> ModelCapabilities {
        ModelCapabilities {
            supports_streaming: false,
            supports_tools: false,
            supports_vision: false,
            supports_json: false,
            max_context_tokens: None,
        }
    }
}

/// Registry metadata for a model.
#[derive(Debug, Clone, PartialEq, Eq)]
pub struct ModelProfile {
    pub id: ModelId,
    pub provider: ModelProvider,
    pub display_name: String,
    pub capabilities: ModelCapabilities,
}

impl ModelProfile {
    /// A profile with the given identity, provider, name and capabilities.
    pub fn new<I: IntoText, D: IntoText>(
        id: I,
        provider: ModelProvider,
        display_name: D,
        capabilities: ModelCapabilities,
    ) -> (r: Self)
        ensures
            r.id@ == id.text(),
            r.provider == provider,
            r.display_name@ == display_name.text(),
            r.capabilities == capabilities,
    {
        ModelProfile {
            id: ModelId(id.into_text()),
            provider,
            display_name: display_name.into_text(),
            capabilities,
        }
    }

    /// A text-only test profile whose display name is its id.
    pub fn test_profile<I: IntoText>(id: I) -> (r: Self)
        ensures
            r.id@ == id.text(),
            r.display_name@ == id.text(),
            r.provider == ModelProvider::Test,
            r.capabilities == ModelCapabilities::text_only_spec(),
    {
        let id = ModelId(id.into_text());
        ModelProfile {
            display_name: id.to_string(),
            id,
            provider: ModelProvider::Test,
            capabilities: ModelCapabilities::text_only(),
        }
    }

    pub fn supports_streaming(&self) -> (r: bool)
        ensures
            r == self.capabilities.supports_streaming,
    {
        self.capabilities.supports_streaming
    }

    pub fn supports_tools(&self) -> (r: bool)
        ensures
            r == self.capabilities.supports_tools,
    {
        self.capabilities.supports_tools
    }

    pub fn supports_vision(&self) -> (r: bool)
        ensures
            r == self.capabilities.supports_vision,
    {
        self.capabilities.supports_vision
    }

    pub fn supports_json(&self) -> (r: bool)
        ensures
            r == self.capabilities.supports_json,
    {
        self.capabilities.supports_json
    }

    pub fn max_context_tokens(&self) -> (r: Option<u32>)
        ensures
            r == self.capabilities.max_context_tokens,
    {
        self.capabilities.max_context_tokens
    }
}

/// Chat role for a text-only model message.
#[derive(Debug, Clone, Copy, PartialEq, Eq, Structural)]
pub enum ModelRole {
    System,
    User,
    Assistant,
    Tool,
}

/// Text-only message sent to a model adapter.
#[derive(Debug, Clone, PartialEq, Eq)]
pub struct ModelMessage {
    pub role: ModelRole,
    pub text: String,
}

impl ModelMessage {
    /// A system message.
    pub fn system<T: IntoText>(text: T) -> (r: Self)
        ensures
            r.role == ModelRole::System,
            r.text@ == text.text(),
    {
        ModelMessage { role: ModelRole::System, text: text.into_text() }
    }

    /// A user message.
    pub fn user<T: IntoText>(text: T) -> (r: Self)
        ensures
            r.role == ModelRole::User,
            r.text@ == text.text(),
    {
        ModelMessage { role: ModelRole::User, text: text.into_text() }
    }

    /// An assistant message.
    pub fn assistant<T: IntoText>(text: T) -> (r: Self)
        ensures
            r.role == ModelRole::Assistant,
            r.text@ == text.text(),
    {
        ModelMessage { role: ModelRole::Assistant, text: text.into_text() }
    }
}

/// Text-only model completion request.
#[derive(Debug, Clone, PartialEq, Eq)]
pub struct ModelRequest {
    pub model_id: ModelId,
    pub messages: Vec<ModelMessage>,
    pub temperature_millis: Option<u16>,
    pub max_output_tokens: Option<u32>,
    pub metadata: std::collections::BTreeMap<String, String>,
}

impl ModelRequest {
    /// A request with no sampling options and no metadata.
    pub fn new<I: IntoText>(model_id: I, messages: Vec<ModelMessage>) -> (r: Self)
        ensures
            r.model_id@ == model_id.text(),
            r.messages@ == messages@,
            r.temperature_millis is None,
            r.max_output_tokens is None,
            r.metadata@ == Map::<String, String>::empty(),
    {
        ModelRequest {
            model_id: ModelId(model_id.into_text()),
            messages,
            temperature_millis: None,
            max_output_tokens: None,
            metadata: std::collections::BTreeMap::new(),
        }
    }
}

/// Token usage reported by a model adapter.
#[derive(Debug, Clone, Copy, PartialEq, Eq, Default)]
pub struct ModelUsage {
    pub input_tokens: u32,
    pub output_tokens: u32,
}

impl ModelUsage {
    /// Input plus output tokens.
    pub fn total_tokens(&self) -> (r: u32)
        requires
            self.input_tokens + self.output_tokens <= u32::MAX,
        ensures
            r == self.input_tokens + self.output_tokens,
    {
        self.input_tokens + self.output_tokens
    }
}

/// Provider-neutral tool definition exposed to the model.
#[derive(Debug, Clone, PartialEq, Eq)]
pub struct ToolDefinition {
    /// Tool name, typically matching an action kind (e.g. `knowledge.search`).
    pub name: String,
    /// Short human-readable description for the model.
    pub description: String,
    /// JSON Schema describing the tool's input parameters.
    pub input_schema: serde_json::Value,
}

/// A single tool call returned by the model.
#[derive(Debug, Clone, PartialEq)]
pub struct ToolCall {
    /// Provider-assigned call identifier (e.g. `call_abc123`).
    pub id: String,
    /// Tool name requested by the model.
    pub name: String,
    /// Parsed JSON arguments.
    pub arguments: serde_json::Value,
    /// Original raw JSON string from the provider.
    pub raw_arguments: String,
}

/// Controls whether the model can or must use tools.
#[derive(Debug, Clone, PartialEq, Eq)]
pub enum ToolChoice {
    /// Model decides whether to call a tool.
    Auto,
    /// Model must not call any tool.
    NoTool,
    /// Model must call at least one tool.
    Required,
    /// Model must call the named tool.
    Named(String),
}

/// Unified model output: either text or tool calls.
#[derive(Debug, Clone, PartialEq)]
pub enum ModelOutput {
    Text { text: String, usage: Option<ModelUsage> },
    ToolCalls {
        /// Optional text content emitted alongside tool calls.
        content: Option<String>,
        tool_calls: Vec<ToolCall>,
        usage: Option<ModelUsage>,
    },
}

impl ModelOutput {
    /// The text of a text output, or the content of a tool-call output.
    pub fn text(&self) -> (r: Option<&str>)
        ensures
            match self {
                ModelOutput::Text { text, .. } => r matches Some(t) && t@ == text@,
                ModelOutput::ToolCalls { content, .. } => match content {
                    Some(c) => r matches Some(t) && t@ == c@,
                    None => r is None,
                },
            },
    {
        match self {
            ModelOutput::Text { text, .. } => Some(text.as_str()),
            ModelOutput::ToolCalls { content, .. } => match content {
                Some(c) => Some(c.as_str()),
                None => None,
            },
        }
    }

    /// The usage, whichever the variant.
    pub fn usage(&self) -> (r: Option<&ModelUsage>)
        ensures
            r == match self {
                ModelOutput::Text { usage, .. } => match usage {
                    Some(u) => Some(u),
                    None => None,
                },
                ModelOutput::ToolCalls { usage, .. } => match usage {
                    Some(u) => Some(u),
                    None => None,
                },
            },
    {
        match self {
            ModelOutput::Text { usage, .. } => match usage {
                Some(u) => Some(u),
                None => None,
            },
            ModelOutput::ToolCalls { usage, .. } => match usage {
                Some(u) => Some(u),
                None => None,
            },
        }
    }
}

/// Provider-neutral stream events emitted by streaming model adapters.
#[derive(Debug, Clone, PartialEq, Eq)]
pub enum ModelStreamEvent {
    Started { model_id: ModelId },
    TextDelta { delta: String },
    ToolCallDelta(ModelToolCallDelta),
    Usage { usage: ModelUsage },
    Finished { reason: ModelStreamFinishReason },
    Error { message: String },
}

/// Provider-neutral finish reason for model streams.
#[derive(Debug, Clone, Copy, PartialEq, Eq, Structural)]
pub enum ModelStreamFinishReason {
    Stop,
    Length,
    ToolCalls,
    Error,
}

/// Incremental tool call update emitted by streaming providers.
#[derive(Debug, Clone, PartialEq, Eq)]
pub struct ModelToolCallDelta {
    pub index: usize,
    pub id_delta: Option<String>,
    pub name_delta: Option<String>,
    pub arguments_delta: Option<String>,
}

impl ModelToolCallDelta {
    /// A delta that carries only an arguments fragment.
    pub fn arguments<T: IntoText>(index: usize, delta: T) -> (r: Self)
        ensures
            r.index == index,
            r.id_delta is None,
            r.name_delta is None,
            r.arguments_delta matches Some(d) && d@ == delta.text(),
    {
        ModelToolCallDelta {
            index,
            id_delta: None,
            name_delta: None,
            arguments_delta: Some(delta.into_text()),
        }
    }
}

/// A stream event with its texts as character sequences.
pub enum EventView {
    Started { model_id: Seq<char> },
    TextDelta { delta: Seq<char> },
    ToolCallDelta {
        index: usize,
        id_delta: Option<Seq<char>>,
        name_delta: Option<Seq<char>>,
        arguments_delta: Option<Seq<char>>,
    },
    Usage { usage: ModelUsage },
    Finished { reason: ModelStreamFinishReason },
    Error { message: Seq<char> },
}

/// The view of an optional text.
pub open spec fn opt_text(o: Option<String>) -> Option<Seq<char>> {
    match o {
        Some(s) => Some(s@),
        None => None,
    }
}

impl View for ModelStreamEvent {
    type V = EventView;

    open spec fn view(&self) -> EventView {
        match *self {
            ModelStreamEvent::Started { model_id } => EventView::Started { model_id: model_id@ },
            ModelStreamEvent::TextDelta { delta } => EventView::TextDelta { delta: delta@ },
            ModelStreamEvent::ToolCallDelta(d) => EventView::ToolCallDelta {
                index: d.index,
                id_delta: opt_text(d.id_delta),
                name_delta: opt_text(d.name_delta),
                arguments_delta: opt_text(d.arguments_delta),
            },
            ModelStreamEvent::Usage { usage } => EventView::Usage { usage },
            ModelStreamEvent::Finished { reason } => EventView::Finished { reason },
            ModelStreamEvent::Error { message } => EventView::Error { message: message@ },
        }
    }
}

/// Views of a sequence of events.
pub open spec fn event_views(events: Seq<ModelStreamEvent>) -> Seq<EventView> {
    events.map_values(|e: ModelStreamEvent| e@)
}

/// What an accumulator holds: the text so far, the last usage, the last
/// finish reason and the error messages in order.
pub struct AccumulatorView {
    pub text: Seq<char>,
    pub usage: Option<ModelUsage>,
    pub finished: Option<ModelStreamFinishReason>,
    pub errors: Seq<Seq<char>>,
}

/// The accumulator after one more event.
pub open spec fn accumulate_event(a: AccumulatorView, e: EventView) -> AccumulatorView {
    match e {
        EventView::TextDelta { delta } => AccumulatorView { text: a.text + delta, ..a },
        EventView::Usage { usage } => AccumulatorView { usage: Some(usage), ..a },
        EventView::Finished { reason } => AccumulatorView { finished: Some(reason), ..a },
        EventView::Error { message } => AccumulatorView { errors: a.errors.push(message), ..a },
        _ => a,
    }
}

/// The empty accumulator.
pub open spec fn empty_accumulator() -> AccumulatorView {
    AccumulatorView { text: Seq::empty(), usage: None, finished: None, errors: Seq::empty() }
}

/// The accumulator after a sequence of events, starting from `a`.
pub open spec fn accumulate_from(a: AccumulatorView, events: Seq<EventView>) -> AccumulatorView
    decreases events.len(),
{
    if events.len() == 0 {
        a
    } else {
        accumulate_event(accumulate_from(a, events.drop_last()), events.last())
    }
}

/// The accumulator after a sequence of events, from empty.
pub open spec fn accumulate_events(events: Seq<EventView>) -> AccumulatorView {
    accumulate_from(empty_accumulator(), events)
}

/// Accumulates stream events into a text/usage summary.
#[derive(Debug, Clone, PartialEq, Eq, Default)]
pub struct ModelStreamAccumulator {
    pub text: String,
    pub usage: Option<ModelUsage>,
    pub finished: Option<ModelStreamFinishReason>,
    pub errors: Vec<String>,
}

impl View for ModelStreamAccumulator {
    type V = AccumulatorView;

    open spec fn view(&self) -> AccumulatorView {
        AccumulatorView {
            text: self.text@,
            usage: self.usage,
            finished: self.finished,
            errors: self.errors@.map_values(|s: String| s@),
        }
    }
}

impl ModelStreamAccumulator {
    /// An empty accumulator.
    pub fn new() -> (r: Self)
        ensures
            r@ == empty_accumulator(),
    {
        let r = ModelStreamAccumulator {
            text: String::new(),
            usage: None,
            finished: None,
            errors: Vec::new(),
        };
        assert(r@.errors == Seq::<Seq<char>>::empty());
        r
    }

    /// Folds one event in: text deltas are appended, usage and finish reason
    /// replaced, errors collected; other events change nothing.
    pub fn apply(&mut self, event: &ModelStreamEvent)
        ensures
            final(self)@ == accumulate_event(old(self)@, event@),
    {
        match event {
            ModelStreamEvent::TextDelta { delta } => {
                crate::text::push_str(&mut self.text, delta.as_str());
            },
            ModelStreamEvent::Usage { usage } => {
                self.usage = Some(*usage);
            },
            ModelStreamEvent::Finished { reason } => {
                self.finished = Some(*reason);
            },
            ModelStreamEvent::Error { message } => {
                let ghost before = self.errors@;
                self.errors.push(message.clone());
                assert(self.errors@.map_values(|s: String| s@) == before.map_values(
                    |s: String| s@,
                ).push(message@));
            },
            _ => {},
        }
    }

    /// Folds a sequence of events into a new accumulator.
    pub fn from_events(events: &[ModelStreamEvent]) -> (r: Self)
        ensures
            r@ == accumulate_events(event_views(events@)),
    {
        let ghost all = event_views(events@);
        let mut acc = Self::new();
        let mut i: usize = 0;
        while i < events.len()
            invariant
                i <= events@.len(),
                all == event_views(events@),
                acc@ == accumulate_events(all.take(i as int)),
            decreases events@.len() - i,
        {
            acc.apply(&events[i]);
            proof {
                assert(all.take(i + 1).drop_last() == all.take(i as int));
                assert(all.take(i + 1).last() == events@[i as int]@);
            }
            i = i + 1;
        }
        proof {
            assert(all.take(events@.len() as int) == all);
        }
        acc
    }
}

/// Typed model adapter errors.
#[derive(Debug, Clone, PartialEq, Eq)]
pub enum ModelAdapterError {
    EmptyRequest,
    ModelNotFound(ModelId),
    UnsupportedModelCapability { model_id: ModelId, capability: &'static str },
    DuplicateModelId(ModelId),
    DefaultModelNotSet,
    ExecutorFailed(String),
    MalformedToolCallArguments(String),
    MalformedStructuredOutput(String),
    StructuredOutputSchemaViolation(String),
    StructuredOutputRepairFailed(String),
    MissingToolCallName,
    MissingToolCallId,
    ConfigError(String),
    HttpError(String),
    AuthError(String),
    RateLimitExceeded,
    EmptyResponse,
}

impl ModelAdapterError {
    /// The error's message.
    pub open spec fn message(&self) -> Seq<char> {
        match self {
            ModelAdapterError::EmptyRequest => "empty model request"@,
            ModelAdapterError::ModelNotFound(id) => "model not found: "@ + id@,
            ModelAdapterError::UnsupportedModelCapability { model_id, capability } =>
                "model capability unsupported: "@ + model_id@ + " does not support "@ + capability@,
            ModelAdapterError::DuplicateModelId(id) => "duplicate model id: "@ + id@,
            ModelAdapterError::DefaultModelNotSet => "default model not set"@,
            ModelAdapterError::ExecutorFailed(m) => "executor failed: "@ + m@,
            ModelAdapterError::MalformedToolCallArguments(m) => "malformed tool call arguments: "@ + m@,
            ModelAdapterError::MalformedStructuredOutput(m) => "malformed structured output: "@ + m@,
            ModelAdapterError::StructuredOutputSchemaViolation(m) =>
                "structured output schema violation: "@ + m@,
            ModelAdapterError::StructuredOutputRepairFailed(m) =>
                "structured output repair failed: "@ + m@,
            ModelAdapterError::MissingToolCallName => "missing tool call function name"@,
            ModelAdapterError::MissingToolCallId => "missing tool call id"@,
            ModelAdapterError::ConfigError(m) => "config error: "@ + m@,
            ModelAdapterError::HttpError(m) => "HTTP error: "@ + m@,
            ModelAdapterError::AuthError(m) => "auth error: "@ + m@,
            ModelAdapterError::RateLimitExceeded => "rate limit exceeded"@,
            ModelAdapterError::EmptyResponse => "empty response"@,
        }
    }

    /// The error's message.
    pub fn to_string(&self) -> (r: String)
        ensures
            r@ == self.message(),
    {
        match self {
            ModelAdapterError::EmptyRequest => owned("empty model request"),
            ModelAdapterError::ModelNotFound(id) => prefixed("model not found: ", id.as_str()),
            ModelAdapterError::UnsupportedModelCapability { model_id, capability } => {
                let mut s = prefixed("model capability unsupported: ", model_id.as_str());
                push_str(&mut s, " does not support ");
                push_str(&mut s, capability);
                s
            },
            ModelAdapterError::DuplicateModelId(id) => prefixed("duplicate model id: ", id.as_str()),
            ModelAdapterError::DefaultModelNotSet => owned("default model not set"),
            ModelAdapterError::ExecutorFailed(m) => prefixed("executor failed: ", m.as_str()),
            ModelAdapterError::MalformedToolCallArguments(m) => prefixed(
                "malformed tool call arguments: ",
                m.as_str(),
            ),
            ModelAdapterError::MalformedStructuredOutput(m) => prefixed(
                "malformed structured output: ",
                m.as_str(),
            ),
            ModelAdapterError::StructuredOutputSchemaViolation(m) => prefixed(
                "structured output schema violation: ",
                m.as_str(),
            ),
            ModelAdapterError::StructuredOutputRepairFailed(m) => prefixed(
                "structured output repair failed: ",
                m.as_str(),
            ),
            ModelAdapterError::MissingToolCallName => owned("missing tool call function name"),
            ModelAdapterError::MissingToolCallId => owned("missing tool call id"),
            ModelAdapterError::ConfigError(m) => prefixed("config error: ", m.as_str()),
            ModelAdapterError::HttpError(m) => prefixed("HTTP error: ", m.as_str()),
            ModelAdapterError::AuthError(m) => prefixed("auth error: ", m.as_str()),
            ModelAdapterError::RateLimitExceeded => owned("rate limit exceeded"),
            ModelAdapterError::EmptyResponse => owned("empty response"),
        }
    }
}

/// `prefix` followed by `rest`.
fn prefixed(prefix: &str, rest: &str) -> (r: String)
    ensures
        r@ == prefix@ + rest@,
{
    let mut s = owned(prefix);
    push_str(&mut s, rest);
    s
}


/// Retry/backoff configuration for model calls; delays are milliseconds.
#[derive(Debug, Clone, Copy, PartialEq, Eq)]
pub struct ModelRetryConfig {
    pub initial_delay: u64,
    pub multiplier: u32,
    pub max_delay: u64,
    /// Maximum total attempts, including the initial attempt.
    pub max_attempts: u32,
}

impl Default for ModelRetryConfig {
    fn default() -> (r: Self)
        ensures
            r.initial_delay == 250,
            r.multiplier == 2,
            r.max_delay == 10_000,
            r.max_attempts == 3,
    {
        ModelRetryConfig { initial_delay: 250, multiplier: 2, max_delay: 10_000, max_attempts: 3 }
    }
}

/// Provider-neutral model error classes used by retry policy decisions.
#[derive(Debug, Clone, Copy, PartialEq, Eq, Structural)]
pub enum ModelRetryErrorClass {
    RateLimited,
    Timeout,
    TransientNetwork,
    ServerError,
    Auth,
    Validation,
    PermissionDenied,
    EmptyRequest,
    EmptyResponse,
    Unknown,
}

/// The classes worth another attempt: rate limits, timeouts, transient
/// network failures and server errors.
pub open spec fn retryable_class(c: ModelRetryErrorClass) -> bool {
    c is RateLimited || c is Timeout || c is TransientNetwork || c is ServerError
}

/// The name of a class as `{:?}` prints it.
pub open spec fn error_class_name(c: ModelRetryErrorClass) -> Seq<char> {
    match c {
        ModelRetryErrorClass::RateLimited => "RateLimited"@,
        ModelRetryErrorClass::Timeout => "Timeout"@,
        ModelRetryErrorClass::TransientNetwork => "TransientNetwork"@,
        ModelRetryErrorClass::ServerError => "ServerError"@,
        ModelRetryErrorClass::Auth => "Auth"@,
        ModelRetryErrorClass::Validation => "Validation"@,
        ModelRetryErrorClass::PermissionDenied => "PermissionDenied"@,
        ModelRetryErrorClass::EmptyRequest => "EmptyRequest"@,
        ModelRetryErrorClass::EmptyResponse => "EmptyResponse"@,
        ModelRetryErrorClass::Unknown => "Unknown"@,
    }
}

impl ModelRetryErrorClass {
    /// Whether an error of this class is worth another attempt.
    pub fn is_retryable(self) -> (r: bool)
        ensures
            r == retryable_class(self),
    {
        match self {
            ModelRetryErrorClass::RateLimited
            | ModelRetryErrorClass::Timeout
            | ModelRetryErrorClass::TransientNetwork
            | ModelRetryErrorClass::ServerError => true,
            _ => false,
        }
    }

    /// The class's name as `{:?}` prints it.
    pub fn name(self) -> (r: &'static str)
        ensures
            r@ == error_class_name(self),
    {
        match self {
            ModelRetryErrorClass::RateLimited => "RateLimited",
            ModelRetryErrorClass::Timeout => "Timeout",
            ModelRetryErrorClass::TransientNetwork => "TransientNetwork",
            ModelRetryErrorClass::ServerError => "ServerError",
            ModelRetryErrorClass::Auth => "Auth",
            ModelRetryErrorClass::Validation => "Validation",
            ModelRetryErrorClass::PermissionDenied => "PermissionDenied",
            ModelRetryErrorClass::EmptyRequest => "EmptyRequest",
            ModelRetryErrorClass::EmptyResponse => "EmptyResponse",
            ModelRetryErrorClass::Unknown => "Unknown",
        }
    }
}

/// Deterministic retry policy decision for one model call attempt; the
/// delay is in milliseconds.
#[derive(Debug, Clone, PartialEq, Eq)]
pub enum ModelRetryDecision {
    Retry { error_class: ModelRetryErrorClass, attempt: u32, delay: u64 },
    DoNotRetry { error_class: ModelRetryErrorClass, attempt: u32, reason: String },
    Exhausted { error_class: ModelRetryErrorClass, attempt: u32 },
}

/// Whether `d` is the decision for an error of class `c` on attempt
/// `attempt` when the backoff for that attempt is `backoff`: no retry for a
/// class that is not retryable, a retry after the backoff when there is
/// one, and exhaustion otherwise.
pub open spec fn is_retry_decision(
    d: ModelRetryDecision,
    c: ModelRetryErrorClass,
    attempt: u32,
    backoff: Option<u64>,
) -> bool {
    if !retryable_class(c) {
        d matches ModelRetryDecision::DoNotRetry { error_class, attempt: a, reason }
            && error_class == c && a == attempt && reason@ == error_class_name(c)
            + " is not retryable"@
    } else {
        match backoff {
            Some(delay) => d == ModelRetryDecision::Retry { error_class: c, attempt, delay },
            None => d == ModelRetryDecision::Exhausted { error_class: c, attempt },
        }
    }
}

/// Classifies model adapter errors and calculates retry backoff.
pub trait ModelRetryPolicy {
    /// The class the policy gives an error.
    spec fn class_of(&self, error: ModelAdapterError) -> ModelRetryErrorClass;

    /// The delay before attempt `attempt + 1`, if another attempt is allowed.
    spec fn backoff_of(&self, attempt: u32) -> Option<u64>;

    fn classify_error(&self, error: &ModelAdapterError) -> (r: ModelRetryErrorClass)
        ensures
            r == self.class_of(*error),
    ;

    fn backoff_delay(&self, attempt: u32) -> (r: Option<u64>)
        ensures
            r == self.backoff_of(attempt),
    ;

    /// Decides what follows a failed attempt.
    fn decide(&self, error: &ModelAdapterError, attempt: u32) -> (r: ModelRetryDecision)
        ensures
            is_retry_decision(r, self.class_of(*error), attempt, self.backoff_of(attempt)),
    {
        let error_class = self.classify_error(error);
        if !error_class.is_retryable() {
            let mut reason = crate::text::owned(error_class.name());
            crate::text::push_str(&mut reason, " is not retryable");
            return ModelRetryDecision::DoNotRetry { error_class, attempt, reason };
        }
        match self.backoff_delay(attempt) {
            Some(delay) => ModelRetryDecision::Retry { error_class, attempt, delay },
            None => ModelRetryDecision::Exhausted { error_class, attempt },
        }
    }
}

/// `u32::saturating_pow`: `base` to the power `exp`, or `u32::MAX` when
/// that does not fit.
#[verifier::external_body]
fn saturating_pow_u32(base: u32, exp: u32) -> (r: u32)
    ensures
        r == saturate_u32(pow(base as int, exp as nat)),
{
    base.saturating_pow(exp)
}

/// `x` capped at `u32::MAX`.
pub open spec fn saturate_u32(x: int) -> u32 {
    if x > u32::MAX {
        u32::MAX
    } else {
        x as u32
    }
}

/// `x` capped at `u64::MAX`.
pub open spec fn saturate_u64(x: int) -> u64 {
    if x > u64::MAX {
        u64::MAX
    } else {
        x as u64
    }
}

/// The default backoff: none before the first attempt or once `max_attempts`
/// is reached; otherwise `initial_delay * multiplier^(attempt - 1)`, both
/// factors saturating, capped at `max_delay`.
pub open spec fn default_backoff(config: ModelRetryConfig, attempt: u32) -> Option<u64> {
    if attempt == 0 || attempt >= config.max_attempts {
        None
    } else {
        let factor = saturate_u32(pow(config.multiplier as int, (attempt - 1) as nat));
        let delay = saturate_u64(config.initial_delay * factor);
        Some(if delay < config.max_delay { delay } else { config.max_delay })
    }
}

/// The default retry policy: errors classified by
/// `classify_model_adapter_error`, exponential backoff by `default_backoff`.
#[derive(Debug, Clone, PartialEq, Eq)]
pub struct DefaultModelRetryPolicy {
    config: ModelRetryConfig,
}

impl DefaultModelRetryPolicy {
    pub fn new(config: ModelRetryConfig) -> (r: Self)
        ensures
            r.config_spec() == config,
    {
        DefaultModelRetryPolicy { config }
    }

    /// The configuration the policy was made with.
    pub closed spec fn config_spec(&self) -> ModelRetryConfig {
        self.config
    }

    pub fn config(&self) -> (r: &ModelRetryConfig)
        ensures
            *r == self.config_spec(),
    {
        &self.config
    }
}

impl Default for DefaultModelRetryPolicy {
    fn default() -> (r: Self)
        ensures
            r.config_spec() == (ModelRetryConfig {
                initial_delay: 250,
                multiplier: 2,
                max_delay: 10_000,
                max_attempts: 3,
            }),
    {
        Self::new(ModelRetryConfig::default())
    }
}

impl ModelRetryPolicy for DefaultModelRetryPolicy {
    open spec fn class_of(&self, error: ModelAdapterError) -> ModelRetryErrorClass {
        error_class_of(error)
    }

    open spec fn backoff_of(&self, attempt: u32) -> Option<u64> {
        default_backoff(self.config_spec(), attempt)
    }

    fn classify_error(&self, error: &ModelAdapterError) -> (r: ModelRetryErrorClass) {
        classify_model_adapter_error(error)
    }

    fn backoff_delay(&self, attempt: u32) -> (r: Option<u64>) {
        if attempt == 0 || attempt >= self.config.max_attempts {
            return None;
        }
        let exponent = attempt - 1;
        let factor = saturating_pow_u32(self.config.multiplier, exponent);
        let delay = match self.config.initial_delay.checked_mul(factor as u64) {
            Some(d) => d,
            None => u64::MAX,
        };
        Some(if delay < self.config.max_delay { delay } else { self.config.max_delay })
    }
}

/// The class of an error message: the first of rate limiting, timeout,
/// permission, validation, server error and transient network whose marker
/// words occur in the message (ASCII case ignored), else unknown.
pub open spec fn message_class(message: Seq<char>) -> ModelRetryErrorClass {
    let m = ascii_lower(message);
    if contains_seq(m, "429"@) || contains_seq(m, "rate limit"@) || contains_seq(
        m,
        "too many requests"@,
    ) {
        ModelRetryErrorClass::RateLimited
    } else if contains_seq(m, "timeout"@) || contains_seq(m, "timed out"@) || contains_seq(
        m,
        "deadline"@,
    ) {
        ModelRetryErrorClass::Timeout
    } else if contains_seq(m, "401"@) || contains_seq(m, "403"@) || contains_seq(
        m,
        "unauthorized"@,
    ) || contains_seq(m, "forbidden"@) || contains_seq(m, "permission denied"@) {
        ModelRetryErrorClass::PermissionDenied
    } else if contains_seq(m, "400"@) || contains_seq(m, "bad request"@) || contains_seq(
        m,
        "invalid request"@,
    ) || contains_seq(m, "validation"@) {
        ModelRetryErrorClass::Validation
    } else if contains_seq(m, "500"@) || contains_seq(m, "server error"@) {
        ModelRetryErrorClass::ServerError
    } else if contains_seq(m, "network"@) || contains_seq(m, "connection reset"@) || contains_seq(
        m,
        "connection refused"@,
    ) || contains_seq(m, "temporarily unavailable"@) || contains_seq(m, "502"@) || contains_seq(
        m,
        "503"@,
    ) || contains_seq(m, "504"@) {
        ModelRetryErrorClass::TransientNetwork
    } else {
        ModelRetryErrorClass::Unknown
    }
}

/// The class of a model adapter error.
pub open spec fn error_class_of(error: ModelAdapterError) -> ModelRetryErrorClass {
    match error {
        ModelAdapterError::RateLimitExceeded => ModelRetryErrorClass::RateLimited,
        ModelAdapterError::AuthError(_) => ModelRetryErrorClass::Auth,
        ModelAdapterError::EmptyRequest => ModelRetryErrorClass::EmptyRequest,
        ModelAdapterError::EmptyResponse => ModelRetryErrorClass::EmptyResponse,
        ModelAdapterError::HttpError(m) => message_class(m@),
        ModelAdapterError::ExecutorFailed(m) => message_class(m@),
        _ => ModelRetryErrorClass::Validation,
    }
}

fn has(hay: &[char], needle: &str) -> (r: bool)
    ensures
        r == contains_seq(hay@, needle@),
{
    let n = chars_of(needle);
    contains_chars(hay, n.as_slice())
}

/// Classifies an error message by the words it contains.
pub fn classify_model_error_message(message: &str) -> (r: ModelRetryErrorClass)
    ensures
        r == message_class(message@),
{
    let v = ascii_lower_chars(message);
    let m = v.as_slice();
    if has(m, "429") || has(m, "rate limit") || has(m, "too many requests") {
        return ModelRetryErrorClass::RateLimited;
    }
    if has(m, "timeout") || has(m, "timed out") || has(m, "deadline") {
        return ModelRetryErrorClass::Timeout;
    }
    if has(m, "401") || has(m, "403") || has(m, "unauthorized") || has(m, "forbidden") || has(
        m,
        "permission denied",
    ) {
        return ModelRetryErrorClass::PermissionDenied;
    }
    if has(m, "400") || has(m, "bad request") || has(m, "invalid request") || has(m, "validation") {
        return ModelRetryErrorClass::Validation;
    }
    if has(m, "500") || has(m, "server error") {
        return ModelRetryErrorClass::ServerError;
    }
    if has(m, "network") || has(m, "connection reset") || has(m, "connection refused") || has(
        m,
        "temporarily unavailable",
    ) || has(m, "502") || has(m, "503") || has(m, "504") {
        return ModelRetryErrorClass::TransientNetwork;
    }
    ModelRetryErrorClass::Unknown
}

/// Classifies a model adapter error for retry decisions.
pub fn classify_model_adapter_error(error: &ModelAdapterError) -> (r: ModelRetryErrorClass)
    ensures
        r == error_class_of(*error),
{
    match error {
        ModelAdapterError::RateLimitExceeded => ModelRetryErrorClass::RateLimited,
        ModelAdapterError::AuthError(_) => ModelRetryErrorClass::Auth,
        ModelAdapterError::EmptyRequest => ModelRetryErrorClass::EmptyRequest,
        ModelAdapterError::EmptyResponse => ModelRetryErrorClass::EmptyResponse,
        ModelAdapterError::HttpError(m) => classify_model_error_message(m.as_str()),
        ModelAdapterError::ExecutorFailed(m) => classify_model_error_message(m.as_str()),
        _ => ModelRetryErrorClass::Validation,
    }
}


/// A message that reports a server error ("500" or "server error", ASCII
/// case ignored) and no rate limiting, timeout, permission or validation
/// problem is classed a server error, which is retried and counts towards
/// the circuit breaker; the same holds of an adapter or HTTP failure with
/// that message.
pub proof fn law_server_errors_are_retryable(message: Seq<char>)
    requires
        contains_seq(ascii_lower(message), "500"@) || contains_seq(ascii_lower(message), "server error"@),
        !contains_seq(ascii_lower(message), "429"@),
        !contains_seq(ascii_lower(message), "rate limit"@),
        !contains_seq(ascii_lower(message), "too many requests"@),
        !contains_seq(ascii_lower(message), "timeout"@),
        !contains_seq(ascii_lower(message), "timed out"@),
        !contains_seq(ascii_lower(message), "deadline"@),
        !contains_seq(ascii_lower(message), "401"@),
        !contains_seq(ascii_lower(message), "403"@),
        !contains_seq(ascii_lower(message), "unauthorized"@),
        !contains_seq(ascii_lower(message), "forbidden"@),
        !contains_seq(ascii_lower(message), "permission denied"@),
        !contains_seq(ascii_lower(message), "400"@),
        !contains_seq(ascii_lower(message), "bad request"@),
        !contains_seq(ascii_lower(message), "invalid request"@),
        !contains_seq(ascii_lower(message), "validation"@),
    ensures
        message_class(message) == ModelRetryErrorClass::ServerError,
        retryable_class(message_class(message)),
        trips_breaker(message_class(message)),
        forall|m: String| m@ == message ==> #[trigger] error_class_of(ModelAdapterError::ExecutorFailed(m))
            == ModelRetryErrorClass::ServerError,
        forall|m: String| m@ == message ==> #[trigger] error_class_of(ModelAdapterError::HttpError(m))
            == ModelRetryErrorClass::ServerError,
{
}

/// A retryable error is retried while the policy still gives a delay: the
/// decision for a server-error message is `Retry` with that delay.
pub proof fn law_server_error_retried_with_backoff(c: ModelRetryErrorClass, attempt: u32, delay: u64)
    requires
        c == ModelRetryErrorClass::ServerError,
    ensures
        forall|d: ModelRetryDecision|
            is_retry_decision(d, c, attempt, Some(delay)) ==> d == (ModelRetryDecision::Retry {
                error_class: c,
                attempt,
                delay,
            }),
{
}

/// Every delay the default policy gives is at most `max_delay`.
pub proof fn law_backoff_capped(config: ModelRetryConfig, attempt: u32)
    ensures
        default_backoff(config, attempt) matches Some(d) ==> d <= config.max_delay,
        default_backoff(config, attempt) is Some <==> (1 <= attempt < config.max_attempts),
{
}

/// With a multiplier of at least one, delays never shrink from one attempt
/// to a later one.
pub proof fn law_backoff_monotone(config: ModelRetryConfig, a1: u32, a2: u32)
    requires
        config.multiplier >= 1,
        1 <= a1 <= a2 < config.max_attempts,
    ensures
        default_backoff(config, a1) matches Some(d1) && default_backoff(config, a2) matches Some(
            d2,
        ) && d1 <= d2,
{
    let p1 = pow(config.multiplier as int, (a1 - 1) as nat);
    let p2 = pow(config.multiplier as int, (a2 - 1) as nat);
    lemma_pow_increases(config.multiplier as nat, (a1 - 1) as nat, (a2 - 1) as nat);
    assert((config.multiplier as nat) as int == config.multiplier as int);
    assert(p1 <= p2);
    vstd::arithmetic::power::lemma_pow_positive(config.multiplier as int, (a1 - 1) as nat);
    let f1 = saturate_u32(p1);
    let f2 = saturate_u32(p2);
    assert(f1 <= f2);
    let i = config.initial_delay as int;
    assert(i * f1 <= i * f2) by (nonlinear_arith)
        requires
            0 <= i,
            f1 <= f2,
    ;
}

/// Retryable classes are exactly the classes that trip the breaker.
pub proof fn law_retryable_trips_breaker(c: ModelRetryErrorClass)
    ensures
        retryable_class(c) == trips_breaker(c),
{
}

/// An instant in time, as `std::time::Instant` holds it.
#[verifier::external_type_specification]
#[verifier::external_body]
pub struct ExInstant(std::time::Instant);

/// `Instant::now`: the current instant. Nothing is stated of it.
#[verifier::external_body]
fn instant_now() -> (r: std::time::Instant) {
    std::time::Instant::now()
}

/// `Instant::elapsed` in whole milliseconds (`Duration::as_millis`): the time
/// since `t`. It depends on the clock, so nothing is stated of it.
#[verifier::external_body]
fn elapsed_millis(t: &std::time::Instant) -> (r: u128) {
    t.elapsed().as_millis()
}

/// Milliseconds as a `u64`, saturating.
pub fn millis_to_u64(ms: u128) -> (r: u64)
    ensures
        r == saturate_u64(ms as int),
{
    if ms > u64::MAX as u128 {
        u64::MAX
    } else {
        ms as u64
    }
}

/// Circuit breaker configuration for per-provider model calls; the
/// cooldown is in milliseconds.
#[derive(Debug, Clone, Copy, PartialEq, Eq)]
pub struct ModelCircuitBreakerConfig {
    pub failure_threshold: u32,
    pub cooldown: u64,
}

impl Default for ModelCircuitBreakerConfig {
    fn default() -> (r: Self)
        ensures
            r.failure_threshold == 3,
            r.cooldown == 30_000,
    {
        ModelCircuitBreakerConfig { failure_threshold: 3, cooldown: 30_000 }
    }
}

/// Circuit breaker health state.
#[derive(Debug, Clone, Copy, PartialEq, Eq, Structural)]
pub enum ModelCircuitBreakerState {
    Closed,
    Open,
    HalfOpen,
}

/// Snapshot of model circuit breaker health for diagnostics.
#[derive(Debug, Clone, PartialEq, Eq)]
pub struct ModelCircuitBreakerHealth {
    pub provider: String,
    pub state: ModelCircuitBreakerState,
    pub consecutive_failures: u32,
    pub failure_threshold: u32,
    pub cooldown: u64,
}

/// Error classes that count as failures of the provider.
pub open spec fn trips_breaker(c: ModelRetryErrorClass) -> bool {
    c is RateLimited || c is Timeout || c is TransientNetwork || c is ServerError
}

/// What a breaker holds apart from its start time: provider, config, state
/// and failure count.
pub struct BreakerView {
    pub provider: Seq<char>,
    pub config: ModelCircuitBreakerConfig,
    pub state: ModelCircuitBreakerState,
    pub consecutive_failures: u32,
    pub opened: bool,
}

/// Per-provider model circuit breaker.
#[derive(Debug)]
pub struct ModelCircuitBreaker {
    provider: String,
    config: ModelCircuitBreakerConfig,
    state: ModelCircuitBreakerState,
    consecutive_failures: u32,
    opened_at: Option<std::time::Instant>,
}

impl View for ModelCircuitBreaker {
    type V = BreakerView;

    closed spec fn view(&self) -> BreakerView {
        BreakerView {
            provider: self.provider@,
            config: self.config,
            state: self.state,
            consecutive_failures: self.consecutive_failures,
            opened: self.opened_at is Some,
        }
    }
}

/// The error a call meets while the breaker is open.
pub open spec fn breaker_open_message(provider: Seq<char>) -> Seq<char> {
    "model circuit breaker open for provider "@ + provider
}

impl ModelCircuitBreaker {
    /// A closed breaker with no failures.
    pub fn new<P: IntoText>(provider: P, config: ModelCircuitBreakerConfig) -> (r: Self)
        ensures
            r@.provider == provider.text(),
            r@.config == config,
            r@.state == ModelCircuitBreakerState::Closed,
            r@.consecutive_failures == 0,
            !r@.opened,
    {
        ModelCircuitBreaker {
            provider: provider.into_text(),
            config,
            state: ModelCircuitBreakerState::Closed,
            consecutive_failures: 0,
            opened_at: None,
        }
    }

    pub fn provider(&self) -> (r: &str)
        ensures
            r@ == self@.provider,
    {
        self.provider.as_str()
    }

    /// Admits or refuses a call, given how long ago the breaker opened
    /// (`None` when it never did). An open breaker whose cooldown has passed
    /// turns half-open and admits the call; one whose cooldown has not passed
    /// refuses it. Closed and half-open breakers admit every call.
    pub fn before_call_after(&mut self, elapsed: Option<u64>) -> (r: Result<(), ModelAdapterError>)
        ensures
            final(self)@.provider == old(self)@.provider,
            final(self)@.config == old(self)@.config,
            final(self)@.consecutive_failures == old(self)@.consecutive_failures,
            final(self)@.opened == old(self)@.opened,
            old(self)@.state != ModelCircuitBreakerState::Open ==> r is Ok && final(self)@.state
                == old(self)@.state,
            old(self)@.state == ModelCircuitBreakerState::Open ==> {
                if elapsed matches Some(e) && e >= old(self)@.config.cooldown {
                    r is Ok && final(self)@.state == ModelCircuitBreakerState::HalfOpen
                } else {
                    r matches Err(ModelAdapterError::ExecutorFailed(m)) && m@ == breaker_open_message(
                        old(self)@.provider,
                    ) && final(self)@.state == ModelCircuitBreakerState::Open
                }
            },
    {
        if self.state == ModelCircuitBreakerState::Open {
            let cooled = match elapsed {
                Some(e) => e >= self.config.cooldown,
                None => false,
            };
            if cooled {
                self.state = ModelCircuitBreakerState::HalfOpen;
                return Ok(());
            }
            let mut message = crate::text::owned("model circuit breaker open for provider ");
            crate::text::push_str(&mut message, self.provider.as_str());
            return Err(ModelAdapterError::ExecutorFailed(message));
        }
        Ok(())
    }

    /// Admits or refuses a call, reading the clock for the time since the
    /// breaker opened; see `before_call_after`.
    pub fn before_call(&mut self) -> (r: Result<(), ModelAdapterError>)
        ensures
            final(self)@.provider == old(self)@.provider,
            final(self)@.config == old(self)@.config,
            final(self)@.consecutive_failures == old(self)@.consecutive_failures,
            old(self)@.state != ModelCircuitBreakerState::Open ==> r is Ok && final(self)@.state
                == old(self)@.state,
            old(self)@.state == ModelCircuitBreakerState::Open ==> {
                ||| r is Ok && final(self)@.state == ModelCircuitBreakerState::HalfOpen
                ||| r matches Err(ModelAdapterError::ExecutorFailed(m)) && m@
                    == breaker_open_message(old(self)@.provider) && final(self)@.state
                    == ModelCircuitBreakerState::Open
            },
    {
        let elapsed = match &self.opened_at {
            Some(t) => Some(millis_to_u64(elapsed_millis(t))),
            None => None,
        };
        self.before_call_after(elapsed)
    }

    /// A successful call closes the breaker and clears the failure count.
    pub fn record_success(&mut self)
        ensures
            final(self)@ == (BreakerView {
                state: ModelCircuitBreakerState::Closed,
                consecutive_failures: 0,
                opened: false,
                ..old(self)@
            }),
    {
        self.state = ModelCircuitBreakerState::Closed;
        self.consecutive_failures = 0;
        self.opened_at = None;
    }

    /// A failed call of a tripping class counts one more failure (saturating)
    /// and opens the breaker once the count reaches the threshold; other
    /// errors change nothing.
    pub fn record_error(&mut self, error: &ModelAdapterError)
        ensures
            !trips_breaker(error_class_of(*error)) ==> final(self)@ == old(self)@,
            trips_breaker(error_class_of(*error)) ==> {
                let n = if old(self)@.consecutive_failures == u32::MAX {
                    u32::MAX
                } else {
                    (old(self)@.consecutive_failures + 1) as u32
                };
                &&& final(self)@.provider == old(self)@.provider
                &&& final(self)@.config == old(self)@.config
                &&& final(self)@.consecutive_failures == n
                &&& n >= old(self)@.config.failure_threshold ==> final(self)@.state
                    == ModelCircuitBreakerState::Open && final(self)@.opened
                &&& n < old(self)@.config.failure_threshold ==> final(self)@.state == old(
                    self,
                )@.state && final(self)@.opened == old(self)@.opened
            },
    {
        let error_class = classify_model_adapter_error(error);
        if !Self::trips_on(error_class) {
            return ;
        }
        self.consecutive_failures = self.consecutive_failures.saturating_add(1);
        if self.consecutive_failures >= self.config.failure_threshold {
            self.state = ModelCircuitBreakerState::Open;
            self.opened_at = Some(instant_now());
        }
    }

    /// A snapshot of the breaker's state.
    pub fn health(&self) -> (r: ModelCircuitBreakerHealth)
        ensures
            r.provider@ == self@.provider,
            r.state == self@.state,
            r.consecutive_failures == self@.consecutive_failures,
            r.failure_threshold == self@.config.failure_threshold,
            r.cooldown == self@.config.cooldown,
    {
        ModelCircuitBreakerHealth {
            provider: self.provider.clone(),
            state: self.state,
            consecutive_failures: self.consecutive_failures,
            failure_threshold: self.config.failure_threshold,
            cooldown: self.config.cooldown,
        }
    }

    fn trips_on(error_class: ModelRetryErrorClass) -> (r: bool)
        ensures
            r == trips_breaker(error_class),
    {
        match error_class {
            ModelRetryErrorClass::RateLimited
            | ModelRetryErrorClass::Timeout
            | ModelRetryErrorClass::TransientNetwork
            | ModelRetryErrorClass::ServerError => true,
            _ => false,
        }
    }
}

impl Default for ModelCircuitBreaker {
    fn default() -> (r: Self)
        ensures
            r@.provider == "default"@,
            r@.config == (ModelCircuitBreakerConfig { failure_threshold: 3, cooldown: 30_000 }),
            r@.state == ModelCircuitBreakerState::Closed,
            r@.consecutive_failures == 0,
    {
        Self::new("default", ModelCircuitBreakerConfig::default())
    }
}


/// Whether some profile in `s` carries the id `id`.
pub open spec fn has_model(s: Seq<ModelProfile>, id: Seq<char>) -> bool {
    exists|i: int| 0 <= i < s.len() && (#[trigger] s[i]).id@ == id
}

/// No two profiles in `s` share an id.
pub open spec fn unique_model_ids(s: Seq<ModelProfile>) -> bool {
    forall|i: int, j: int|
        0 <= i < s.len() && 0 <= j < s.len() && i != j ==> (#[trigger] s[i]).id@ != (#[trigger] s[
            j
        ]).id@
}

/// A capability a registry can require of a model.
#[derive(Debug, Clone, Copy, PartialEq, Eq)]
pub enum ModelCapabilityKind {
    Tools,
    Streaming,
    Json,
    Vision,
}

/// Whether a profile supports a capability.
pub open spec fn supports(p: ModelProfile, k: ModelCapabilityKind) -> bool {
    match k {
        ModelCapabilityKind::Tools => p.capabilities.supports_tools,
        ModelCapabilityKind::Streaming => p.capabilities.supports_streaming,
        ModelCapabilityKind::Json => p.capabilities.supports_json,
        ModelCapabilityKind::Vision => p.capabilities.supports_vision,
    }
}

/// The name under which an unsupported capability is reported.
pub open spec fn capability_name(k: ModelCapabilityKind) -> Seq<char> {
    match k {
        ModelCapabilityKind::Tools => "tools"@,
        ModelCapabilityKind::Streaming => "streaming"@,
        ModelCapabilityKind::Json => "json"@,
        ModelCapabilityKind::Vision => "vision"@,
    }
}

/// What a registry holds: profiles in registration order and the default id.
pub struct RegistryView {
    pub models: Seq<ModelProfile>,
    pub default_id: Option<Seq<char>>,
}

/// The registry's invariant: ids are unique and the default, when set, is
/// registered.
pub open spec fn registry_wf(v: RegistryView) -> bool {
    &&& unique_model_ids(v.models)
    &&& v.default_id matches Some(d) ==> has_model(v.models, d)
}

/// The result of requiring capability `k` of model `id`: the registered
/// profile when it supports `k`, `ModelNotFound` when none is registered,
/// `UnsupportedModelCapability` otherwise.
pub open spec fn is_require_result(
    models: Seq<ModelProfile>,
    id: Seq<char>,
    k: ModelCapabilityKind,
    r: Result<&ModelProfile, ModelAdapterError>,
) -> bool {
    if !has_model(models, id) {
        r matches Err(ModelAdapterError::ModelNotFound(m)) && m@ == id
    } else {
        match r {
            Ok(p) => models.contains(*p) && p.id@ == id && supports(*p, k),
            Err(ModelAdapterError::UnsupportedModelCapability { model_id, capability }) => {
                &&& model_id@ == id
                &&& capability@ == capability_name(k)
                &&& forall|i: int|
                    0 <= i < models.len() && (#[trigger] models[i]).id@ == id ==> !supports(
                        models[i],
                        k,
                    )
            },
            _ => false,
        }
    }
}

/// Deterministic model registry: profiles in registration order, ids unique.
#[derive(Debug, Clone)]
pub struct ModelRegistry {
    models: Vec<ModelProfile>,
    default_model_id: Option<ModelId>,
}

impl View for ModelRegistry {
    type V = RegistryView;

    closed spec fn view(&self) -> RegistryView {
        RegistryView {
            models: self.models@,
            default_id: match self.default_model_id {
                Some(d) => Some(d@),
                None => None,
            },
        }
    }
}

impl Default for ModelRegistry {
    fn default() -> (r: Self)
        ensures
            r@.models.len() == 0,
            r@.default_id is None,
            r.wf(),
    {
        ModelRegistry { models: Vec::new(), default_model_id: None }
    }
}

impl ModelRegistry {
    /// The registry's invariant.
    pub open spec fn wf(&self) -> bool {
        registry_wf(self@)
    }

    /// An empty registry with no default.
    pub fn new() -> (r: Self)
        ensures
            r@.models.len() == 0,
            r@.default_id is None,
            r.wf(),
    {
        ModelRegistry { models: Vec::new(), default_model_id: None }
    }

    fn position(&self, id: &ModelId) -> (r: Option<usize>)
        ensures
            match r {
                Some(i) => i < self@.models.len() && self@.models[i as int].id@ == id@,
                None => !has_model(self@.models, id@),
            },
    {
        let mut i: usize = 0;
        while i < self.models.len()
            invariant
                i <= self.models@.len(),
                forall|k: int| 0 <= k < i ==> (#[trigger] self.models@[k]).id@ != id@,
            decreases self.models@.len() - i,
        {
            if self.models[i].id.same(id) {
                return Some(i);
            }
            i = i + 1;
        }
        None
    }

    /// Registers a profile; a second profile with the same id is rejected.
    pub fn register(&mut self, profile: ModelProfile) -> (r: Result<(), ModelAdapterError>)
        requires
            old(self).wf(),
        ensures
            final(self).wf(),
            final(self)@.default_id == old(self)@.default_id,
            has_model(old(self)@.models, profile.id@) ==> (r matches Err(
                ModelAdapterError::DuplicateModelId(e),
            ) && e@ == profile.id@ && final(self)@.models == old(self)@.models),
            !has_model(old(self)@.models, profile.id@) ==> (r is Ok && final(self)@.models == old(
                self,
            )@.models.push(profile)),
    {
        match self.position(&profile.id) {
            Some(_) => Err(ModelAdapterError::DuplicateModelId(profile.id)),
            None => {
                let ghost before = self.models@;
                self.models.push(profile);
                proof {
                    assert forall|d: Seq<char>| has_model(before, d) implies has_model(
                        self.models@,
                        d,
                    ) by {
                        let i = choose|i: int| 0 <= i < before.len() && (#[trigger] before[i]).id@ == d;
                        assert(self.models@[i] == before[i]);
                    }
                }
                Ok(())
            },
        }
    }

    /// Makes a registered model the default; an unknown id is rejected.
    pub fn set_default<I: IntoText>(&mut self, model_id: I) -> (r: Result<(), ModelAdapterError>)
        requires
            old(self).wf(),
        ensures
            final(self).wf(),
            final(self)@.models == old(self)@.models,
            has_model(old(self)@.models, model_id.text()) ==> r is Ok && final(self)@.default_id
                == Some(model_id.text()),
            !has_model(old(self)@.models, model_id.text()) ==> (r matches Err(
                ModelAdapterError::ModelNotFound(m),
            ) && m@ == model_id.text() && final(self)@ == old(self)@),
    {
        let id = ModelId(model_id.into_text());
        match self.position(&id) {
            None => Err(ModelAdapterError::ModelNotFound(id)),
            Some(_) => {
                self.default_model_id = Some(id);
                Ok(())
            },
        }
    }

    /// Looks up a profile by id.
    pub fn get(&self, model_id: &ModelId) -> (r: Option<&ModelProfile>)
        ensures
            r is Some <==> has_model(self@.models, model_id@),
            r matches Some(p) ==> p.id@ == model_id@ && self@.models.contains(*p),
    {
        match self.position(model_id) {
            Some(i) => Some(&self.models[i]),
            None => None,
        }
    }

    fn require_capability(&self, model_id: &ModelId, kind: ModelCapabilityKind) -> (r: Result<
        &ModelProfile,
        ModelAdapterError,
    >)
        requires
            self.wf(),
        ensures
            is_require_result(self@.models, model_id@, kind, r),
    {
        match self.position(model_id) {
            None => Err(ModelAdapterError::ModelNotFound(model_id.duplicate())),
            Some(i) => {
                let profile = &self.models[i];
                let supported = match kind {
                    ModelCapabilityKind::Tools => profile.supports_tools(),
                    ModelCapabilityKind::Streaming => profile.supports_streaming(),
                    ModelCapabilityKind::Json => profile.supports_json(),
                    ModelCapabilityKind::Vision => profile.supports_vision(),
                };
                proof {
                    assert(self@.models[i as int] == *profile);
                }
                if supported {
                    Ok(profile)
                } else {
                    let capability: &'static str = match kind {
                        ModelCapabilityKind::Tools => "tools",
                        ModelCapabilityKind::Streaming => "streaming",
                        ModelCapabilityKind::Json => "json",
                        ModelCapabilityKind::Vision => "vision",
                    };
                    proof {
                        assert forall|j: int|
                            0 <= j < self@.models.len() && (#[trigger] self@.models[j]).id@
                                == model_id@ implies !supports(self@.models[j], kind) by {
                            if j != i {
                                assert(self@.models[i as int].id@ != self@.models[j].id@);
                            }
                        }
                    }
                    Err(
                        ModelAdapterError::UnsupportedModelCapability {
                            model_id: model_id.duplicate(),
                            capability,
                        },
                    )
                }
            },
        }
    }

    /// The profile of a model that supports tools.
    pub fn require_tools(&self, model_id: &ModelId) -> (r: Result<&ModelProfile, ModelAdapterError>)
        requires
            self.wf(),
        ensures
            is_require_result(self@.models, model_id@, ModelCapabilityKind::Tools, r),
    {
        self.require_capability(model_id, ModelCapabilityKind::Tools)
    }

    /// The profile of a model that supports streaming.
    pub fn require_streaming(&self, model_id: &ModelId) -> (r: Result<
        &ModelProfile,
        ModelAdapterError,
    >)
        requires
            self.wf(),
        ensures
            is_require_result(self@.models, model_id@, ModelCapabilityKind::Streaming, r),
    {
        self.require_capability(model_id, ModelCapabilityKind::Streaming)
    }

    /// The profile of a model that supports JSON output.
    pub fn require_json(&self, model_id: &ModelId) -> (r: Result<&ModelProfile, ModelAdapterError>)
        requires
            self.wf(),
        ensures
            is_require_result(self@.models, model_id@, ModelCapabilityKind::Json, r),
    {
        self.require_capability(model_id, ModelCapabilityKind::Json)
    }

    /// The profile of a model that supports vision.
    pub fn require_vision(&self, model_id: &ModelId) -> (r: Result<&ModelProfile, ModelAdapterError>)
        requires
            self.wf(),
        ensures
            is_require_result(self@.models, model_id@, ModelCapabilityKind::Vision, r),
    {
        self.require_capability(model_id, ModelCapabilityKind::Vision)
    }

    /// The profile of the default model.
    pub fn default_model(&self) -> (r: Result<&ModelProfile, ModelAdapterError>)
        requires
            self.wf(),
        ensures
            self@.default_id is None <==> r == Err::<&ModelProfile, ModelAdapterError>(
                ModelAdapterError::DefaultModelNotSet,
            ),
            self@.default_id matches Some(d) ==> r matches Ok(p) && p.id@ == d
                && self@.models.contains(*p),
    {
        match &self.default_model_id {
            None => Err(ModelAdapterError::DefaultModelNotSet),
            Some(id) => match self.position(id) {
                Some(i) => Ok(&self.models[i]),
                None => Err(ModelAdapterError::ModelNotFound(id.duplicate())),
            },
        }
    }

    /// Number of registered models.
    pub fn len(&self) -> (r: usize)
        ensures
            r == self@.models.len(),
    {
        self.models.len()
    }

    /// Whether no model is registered.
    pub fn is_empty(&self) -> (r: bool)
        ensures
            r == (self@.models.len() == 0),
    {
        self.models.len() == 0
    }
}

/// Registering a new model and making it the default resolves the default
/// to that model; earlier models stay registered.
pub proof fn law_registry_default_resolves(before: RegistryView, p: ModelProfile)
    requires
        registry_wf(before),
        !has_model(before.models, p.id@),
    ensures
        registry_wf(RegistryView { models: before.models.push(p), default_id: Some(p.id@) }),
        forall|i: int|
            0 <= i < before.models.push(p).len() && (#[trigger] before.models.push(p)[i]).id@
                == p.id@ ==> before.models.push(p)[i] == p,
{
    let after = before.models.push(p);
    assert(after[before.models.len() as int] == p);
    assert forall|d: Seq<char>| has_model(before.models, d) implies has_model(after, d) by {
        let i = choose|i: int| 0 <= i < before.models.len() && (#[trigger] before.models[i]).id@ == d;
        assert(after[i] == before.models[i]);
    }
    assert forall|i: int| 0 <= i < after.len() && (#[trigger] after[i]).id@ == p.id@ implies after[i]
        == p by {
        if i < before.models.len() {
            assert(after[i] == before.models[i]);
            assert(has_model(before.models, p.id@));
        }
    }
}


/// Structured output format requested from a model.
#[derive(Debug, Clone, PartialEq, Eq)]
pub struct StructuredOutputFormat {
    pub name: String,
    pub schema: serde_json::Value,
    pub strict: bool,
}

impl StructuredOutputFormat {
    /// A strict JSON-schema format.
    pub fn json_schema<N: IntoText>(name: N, schema: serde_json::Value) -> (r: Self)
        ensures
            r.name@ == name.text(),
            r.schema == schema,
            r.strict,
    {
        StructuredOutputFormat { name: name.into_text(), schema, strict: true }
    }
}

/// Structured output that passed validation.
#[derive(Debug, Clone, PartialEq)]
pub struct StructuredOutput {
    pub value: serde_json::Value,
}

/// Optional hook that can repair invalid structured output before
/// validation fails.
pub trait StructuredOutputRepairPolicy {
    /// A repaired text to validate instead of `raw`, if the policy has one.
    fn repair(
        &self,
        raw: &str,
        format: &StructuredOutputFormat,
        error: &ModelAdapterError,
    ) -> Option<String>;
}

/// No-op repair policy: invalid structured output remains invalid.
#[derive(Debug, Clone, Copy, Default)]
pub struct NoopStructuredOutputRepairPolicy;

impl StructuredOutputRepairPolicy for NoopStructuredOutputRepairPolicy {
    fn repair(
        &self,
        raw: &str,
        format: &StructuredOutputFormat,
        error: &ModelAdapterError,
    ) -> (r: Option<String>)
        ensures
            r is None,
    {
        None
    }
}

} // verus!
