//! What model adapters decide around a provider call: redacted call traces,
//! the capability gate for tool calls, and the deterministic static
//! adapters with their stream events.
use crate::model::{
    accumulate_event, accumulate_events, accumulate_from, classify_model_adapter_error,
    empty_accumulator, error_class_of, event_views, has_model, is_require_result,
    AccumulatorView, EventView, ModelAdapterError, ModelCapabilityKind, ModelId, ModelMessage,
    ModelOutput, ModelRegistry, ModelRetryErrorClass, ModelRole, ModelStreamEvent,
    ModelStreamFinishReason, ModelToolCallDelta, ModelUsage, ToolCall, ToolChoice, ModelProfile, supports,
};
use crate::text::{
    ascii_lower, ascii_lower_chars, chars_of, contains_chars, contains_seq, decimal, owned,
    push_char, push_decimal, push_str, str_len, IntoText, unicode_white_space, is_whitespace,
};
use vstd::prelude::*;

verus! {

/// Model call operation recorded by observability wrappers.
#[derive(Debug, Clone, Copy, PartialEq, Eq)]
pub enum ModelCallOperation {
    Complete,
    Stream,
    ToolCall,
}

/// Outcome kind recorded by model traces.
#[derive(Debug, Clone, Copy, PartialEq, Eq)]
pub enum ModelTraceOutcome {
    Success,
    Error,
}

/// Redacted model call trace safe for logs and audit surfaces; metadata
/// entries are `(key, value)` pairs in key order.
#[derive(Debug, Clone, PartialEq, Eq)]
pub struct ModelCallTrace {
    pub operation: ModelCallOperation,
    pub model_id: ModelId,
    pub latency_ms: u64,
    pub usage: Option<ModelUsage>,
    pub outcome: ModelTraceOutcome,
    pub error_class: Option<ModelRetryErrorClass>,
    pub metadata: Vec<(String, String)>,
}

/// Whether a metadata key names a secret: it contains, ASCII case ignored,
/// one of the words for keys, tokens, credentials and passwords.
pub open spec fn sensitive_key(key: Seq<char>) -> bool {
    let k = ascii_lower(key);
    contains_seq(k, "api_key"@) || contains_seq(k, "apikey"@) || contains_seq(k, "authorization"@)
        || contains_seq(k, "auth"@) || contains_seq(k, "bearer"@) || contains_seq(
        k,
        "credential"@,
    ) || contains_seq(k, "password"@) || contains_seq(k, "secret"@) || contains_seq(k, "token"@)
}

/// The value a trace records for a metadata entry.
pub open spec fn redacted_value(key: Seq<char>, value: Seq<char>) -> Seq<char> {
    if sensitive_key(key) {
        "<redacted>"@
    } else {
        value
    }
}

fn has(hay: &[char], needle: &str) -> (r: bool)
    ensures
        r == contains_seq(hay@, needle@),
{
    let n = chars_of(needle);
    contains_chars(hay, n.as_slice())
}

/// Whether a metadata key names a secret.
pub fn is_sensitive_metadata_key(key: &str) -> (r: bool)
    ensures
        r == sensitive_key(key@),
{
    let v = ascii_lower_chars(key);
    let k = v.as_slice();
    has(k, "api_key") || has(k, "apikey") || has(k, "authorization") || has(k, "auth") || has(
        k,
        "bearer",
    ) || has(k, "credential") || has(k, "password") || has(k, "secret") || has(k, "token")
}

/// Metadata with the values of secret-named keys replaced by `<redacted>`;
/// keys and order are kept.
pub fn redacted_model_metadata(entries: &[(String, String)]) -> (r: Vec<(String, String)>)
    ensures
        r@.len() == entries@.len(),
        forall|i: int|
            0 <= i < entries@.len() ==> (#[trigger] r@[i]).0@ == entries@[i].0@ && r@[i].1@
                == redacted_value(entries@[i].0@, entries@[i].1@),
{
    let mut out: Vec<(String, String)> = Vec::new();
    let mut i: usize = 0;
    while i < entries.len()
        invariant
            i <= entries@.len(),
            out@.len() == i,
            forall|j: int|
                0 <= j < i ==> (#[trigger] out@[j]).0@ == entries@[j].0@ && out@[j].1@
                    == redacted_value(entries@[j].0@, entries@[j].1@),
        decreases entries@.len() - i,
    {
        let (key, value) = &entries[i];
        let shown = if is_sensitive_metadata_key(key.as_str()) {
            owned("<redacted>")
        } else {
            value.clone()
        };
        out.push((key.clone(), shown));
        i = i + 1;
    }
    out
}

/// The usage of the first usage event, if any.
pub open spec fn first_usage(events: Seq<EventView>) -> Option<ModelUsage>
    decreases events.len(),
{
    if events.len() == 0 {
        None
    } else {
        match events[0] {
            EventView::Usage { usage } => Some(usage),
            _ => first_usage(events.drop_first()),
        }
    }
}

/// The usage a stream reports: that of its first usage event.
pub fn stream_usage(events: &[ModelStreamEvent]) -> (r: Option<ModelUsage>)
    ensures
        r == first_usage(event_views(events@)),
{
    let ghost all = event_views(events@);
    assert(all.skip(0) == all);
    let mut i: usize = 0;
    while i < events.len()
        invariant
            i <= events@.len(),
            all == event_views(events@),
            first_usage(all) == first_usage(all.skip(i as int)),
        decreases events@.len() - i,
    {
        proof {
            assert(all.skip(i as int)[0] == events@[i as int]@);
            assert(all.skip(i as int).drop_first() == all.skip(i + 1));
        }
        match &events[i] {
            ModelStreamEvent::Usage { usage } => {
                return Some(*usage);
            },
            _ => {},
        }
        i = i + 1;
    }
    assert(all.skip(i as int).len() == 0);
    None
}

/// The trace of a successful call.
pub fn success_trace(
    operation: ModelCallOperation,
    model_id: &ModelId,
    latency_ms: u64,
    usage: Option<ModelUsage>,
    metadata: Vec<(String, String)>,
) -> (r: ModelCallTrace)
    ensures
        r.operation == operation,
        r.model_id@ == model_id@,
        r.latency_ms == latency_ms,
        r.usage == usage,
        r.outcome == ModelTraceOutcome::Success,
        r.error_class is None,
        r.metadata@ == metadata@,
{
    ModelCallTrace {
        operation,
        model_id: model_id.duplicate(),
        latency_ms,
        usage,
        outcome: ModelTraceOutcome::Success,
        error_class: None,
        metadata,
    }
}

/// The trace of a failed call: no usage, and the error's class.
pub fn error_trace(
    operation: ModelCallOperation,
    model_id: &ModelId,
    latency_ms: u64,
    error: &ModelAdapterError,
    metadata: Vec<(String, String)>,
) -> (r: ModelCallTrace)
    ensures
        r.operation == operation,
        r.model_id@ == model_id@,
        r.latency_ms == latency_ms,
        r.usage is None,
        r.outcome == ModelTraceOutcome::Error,
        r.error_class == Some(error_class_of(*error)),
        r.metadata@ == metadata@,
{
    ModelCallTrace {
        operation,
        model_id: model_id.duplicate(),
        latency_ms,
        usage: None,
        outcome: ModelTraceOutcome::Error,
        error_class: Some(classify_model_adapter_error(error)),
        metadata,
    }
}

/// In-memory trace sink for tests and local diagnostics.
#[derive(Debug)]
pub struct MemoryModelTraceSink {
    traces: Vec<ModelCallTrace>,
}

impl View for MemoryModelTraceSink {
    type V = Seq<ModelCallTrace>;

    closed spec fn view(&self) -> Seq<ModelCallTrace> {
        self.traces@
    }
}

impl Default for MemoryModelTraceSink {
    fn default() -> (r: Self)
        ensures
            r@.len() == 0,
    {
        MemoryModelTraceSink { traces: Vec::new() }
    }
}

impl MemoryModelTraceSink {
    /// An empty sink.
    pub fn new() -> (r: Self)
        ensures
            r@.len() == 0,
    {
        MemoryModelTraceSink { traces: Vec::new() }
    }

    /// Appends a trace.
    pub fn record(&mut self, trace: ModelCallTrace)
        ensures
            final(self)@ == old(self)@.push(trace),
    {
        self.traces.push(trace);
    }

    /// The traces recorded so far, in order.
    pub fn traces(&self) -> (r: &[ModelCallTrace])
        ensures
            r@ == self@,
    {
        self.traces.as_slice()
    }
}

/// Whether a tool call needs a model that supports tools: some tool is
/// offered, or a tool call is required or named.
pub open spec fn needs_tools(tool_count: nat, choice: ToolChoice) -> bool {
    tool_count > 0 || choice is Required || choice is Named
}

/// Whether a profile registered under `id` supports capability `k`.
pub open spec fn model_supports(
    models: Seq<ModelProfile>,
    id: Seq<char>,
    k: ModelCapabilityKind,
) -> bool {
    exists|i: int| 0 <= i < models.len() && (#[trigger] models[i]).id@ == id && supports(models[i], k)
}

/// Checks a tool call against the registry before it is made: when the call
/// needs tools, the model must be registered and support them, and the
/// registry's error is returned otherwise.
pub fn check_tool_call(
    registry: &ModelRegistry,
    model_id: &ModelId,
    tool_count: usize,
    choice: &ToolChoice,
) -> (r: Result<(), ModelAdapterError>)
    requires
        registry.wf(),
    ensures
        !needs_tools(tool_count as nat, *choice) ==> r is Ok,
        needs_tools(tool_count as nat, *choice) ==> (r is Ok <==> model_supports(
            registry@.models,
            model_id@,
            ModelCapabilityKind::Tools,
        )),
        r matches Err(e) ==> is_require_result(
            registry@.models,
            model_id@,
            ModelCapabilityKind::Tools,
            Err(e),
        ),
{
    let needs = tool_count > 0 || match choice {
        ToolChoice::Required => true,
        ToolChoice::Named(_) => true,
        _ => false,
    };
    if !needs {
        return Ok(());
    }
    match registry.require_tools(model_id) {
        Ok(p) => {
            proof {
                let i = choose|i: int| 0 <= i < registry@.models.len() && registry@.models[i] == *p;
                assert(registry@.models[i].id@ == model_id@);
            }
            Ok(())
        },
        Err(e) => {
            proof {
                if model_supports(registry@.models, model_id@, ModelCapabilityKind::Tools) {
                    let i = choose|i: int|
                        0 <= i < registry@.models.len() && (#[trigger] registry@.models[i]).id@
                            == model_id@ && supports(registry@.models[i], ModelCapabilityKind::Tools);
                    assert(has_model(registry@.models, model_id@));
                }
            }
            Err(e)
        },
    }
}


/// The number of words in `s`: maximal runs of characters that are not
/// whitespace.
pub open spec fn word_count(s: Seq<char>) -> nat
    decreases s.len(),
{
    if s.len() == 0 {
        0
    } else {
        word_count(s.drop_last()) + if !unicode_white_space(s.last()) && (s.len() == 1
            || unicode_white_space(s[s.len() - 2])) {
            1nat
        } else {
            0nat
        }
    }
}

proof fn lemma_word_count_bound(s: Seq<char>)
    ensures
        word_count(s) <= s.len(),
    decreases s.len(),
{
    if s.len() > 0 {
        lemma_word_count_bound(s.drop_last());
    }
}

/// Counts the whitespace-separated words of a text, as a `u32`.
pub fn count_words(text: &str) -> (r: u32)
    ensures
        r == word_count(text@) as u32,
{
    let cs = chars_of(text);
    let mut count: usize = 0;
    let mut prev_ws = true;
    let mut i: usize = 0;
    while i < cs.len()
        invariant
            cs@ == text@,
            i <= cs@.len(),
            count == word_count(text@.take(i as int)),
            prev_ws == (i == 0 || unicode_white_space(text@[i - 1])),
        decreases cs@.len() - i,
    {
        proof {
            lemma_word_count_bound(text@.take(i as int));
            assert(text@.take(i + 1).drop_last() == text@.take(i as int));
            assert(text@.take(i + 1).last() == text@[i as int]);
            if i > 0 {
                assert(text@.take(i + 1)[i - 1] == text@[i - 1]);
            }
        }
        let ws = is_whitespace(cs[i]);
        if !ws && prev_ws {
            count = count + 1;
        }
        prev_ws = ws;
        i = i + 1;
    }
    proof {
        assert(text@.take(cs@.len() as int) == text@);
    }
    count as u32
}

/// The chunks of `s` after its first `n` characters: the chunks completed
/// so far and the text of the chunk being built. A chunk ends after a space
/// once it holds at least 16 bytes.
pub open spec fn chunk_fold(s: Seq<char>, n: nat) -> (Seq<Seq<char>>, Seq<char>)
    decreases n,
{
    if n == 0 {
        (Seq::empty(), Seq::empty())
    } else {
        let (done, current) = chunk_fold(s, (n - 1) as nat);
        let next = current.push(s[n - 1]);
        if s[n - 1] == ' ' && str_len(next) >= 16 {
            (done.push(next), Seq::empty())
        } else {
            (done, next)
        }
    }
}

/// The text deltas a text is streamed in: the completed chunks, then what
/// is left over when it is not empty.
pub open spec fn delta_chunks(s: Seq<char>) -> Seq<Seq<char>> {
    let (done, current) = chunk_fold(s, s.len());
    if current.len() > 0 {
        done.push(current)
    } else {
        done
    }
}

proof fn lemma_chunk_fold_flatten(s: Seq<char>, n: nat)
    requires
        n <= s.len(),
    ensures
        chunk_fold(s, n).0.flatten() + chunk_fold(s, n).1 == s.take(n as int),
    decreases n,
{
    if n > 0 {
        lemma_chunk_fold_flatten(s, (n - 1) as nat);
        let (done, current) = chunk_fold(s, (n - 1) as nat);
        let next = current.push(s[n - 1]);
        assert(s.take(n as int) == s.take(n - 1).push(s[n - 1]));
        if s[n - 1] == ' ' && str_len(next) >= 16 {
            done.lemma_flatten_push(next);
            assert(done.push(next).flatten() + Seq::<char>::empty() == done.push(next).flatten());
            assert(done.flatten() + next == (done.flatten() + current).push(s[n - 1]));
        } else {
            assert(done.flatten() + next == (done.flatten() + current).push(s[n - 1]));
        }
    }
}

/// Streaming a text in its delta chunks loses nothing: the chunks joined
/// are the text.
pub proof fn law_delta_chunks_join(s: Seq<char>)
    ensures
        delta_chunks(s).flatten() == s,
{
    lemma_chunk_fold_flatten(s, s.len());
    let (done, current) = chunk_fold(s, s.len());
    assert(s.take(s.len() as int) == s);
    if current.len() > 0 {
        done.lemma_flatten_push(current);
    } else {
        assert(done.flatten() + current == done.flatten());
    }
}

/// Splits a text into the deltas a stream carries it in.
pub fn text_delta_chunks(text: &str) -> (r: Vec<String>)
    ensures
        r@.map_values(|c: String| c@) == delta_chunks(text@),
{
    let cs = chars_of(text);
    let mut chunks: Vec<String> = Vec::new();
    let mut current = String::new();
    let mut i: usize = 0;
    while i < cs.len()
        invariant
            cs@ == text@,
            i <= cs@.len(),
            chunks@.map_values(|c: String| c@) == chunk_fold(text@, i as nat).0,
            current@ == chunk_fold(text@, i as nat).1,
        decreases cs@.len() - i,
    {
        let c = cs[i];
        push_char(&mut current, c);
        if c == ' ' && current.as_str().len() >= 16 {
            let ghost before = chunks@;
            chunks.push(current);
            proof {
                assert(chunks@.map_values(|c: String| c@) == before.map_values(|c: String| c@).push(
                    chunk_fold(text@, (i + 1) as nat).0.last(),
                ));
            }
            current = String::new();
        }
        i = i + 1;
    }
    if !current.as_str().is_empty() {
        let ghost before = chunks@;
        chunks.push(current);
        proof {
            assert(chunks@.map_values(|c: String| c@) == before.map_values(|c: String| c@).push(
                chunk_fold(text@, text@.len()).1,
            ));
        }
    }
    chunks
}


/// The text deltas a stream carries for `chunks`.
pub open spec fn text_deltas(chunks: Seq<Seq<char>>) -> Seq<EventView> {
    chunks.map_values(|c: Seq<char>| EventView::TextDelta { delta: c })
}

/// A usage event when there is a usage.
pub open spec fn usage_events(usage: Option<ModelUsage>) -> Seq<EventView> {
    match usage {
        Some(u) => seq![EventView::Usage { usage: u }],
        None => Seq::empty(),
    }
}

/// One tool call delta per tool call, carrying its index, id, name and raw
/// arguments.
pub open spec fn tool_call_deltas(calls: Seq<ToolCall>) -> Seq<EventView> {
    Seq::new(
        calls.len(),
        |i: int|
            EventView::ToolCallDelta {
                index: i as usize,
                id_delta: Some(calls[i].id@),
                name_delta: Some(calls[i].name@),
                arguments_delta: Some(calls[i].raw_arguments@),
            },
    )
}

/// The events that stream a text output: started, the text deltas, the
/// usage when known, and a stop.
pub open spec fn text_output_events(
    model_id: Seq<char>,
    text: Seq<char>,
    usage: Option<ModelUsage>,
) -> Seq<EventView> {
    seq![EventView::Started { model_id }] + text_deltas(delta_chunks(text)) + usage_events(usage)
        + seq![EventView::Finished { reason: ModelStreamFinishReason::Stop }]
}

/// The events that stream a model output: started, the text deltas, tool
/// call deltas for tool calls, the usage when known, and a finish reason.
pub open spec fn output_events(model_id: Seq<char>, output: ModelOutput) -> Seq<EventView> {
    match output {
        ModelOutput::Text { text, usage } => text_output_events(model_id, text@, usage),
        ModelOutput::ToolCalls { content, tool_calls, usage } => seq![
            EventView::Started { model_id },
        ] + match content {
            Some(c) => text_deltas(delta_chunks(c@)),
            None => Seq::empty(),
        } + tool_call_deltas(tool_calls@) + usage_events(usage) + seq![
            EventView::Finished { reason: ModelStreamFinishReason::ToolCalls },
        ],
    }
}

fn push_text_deltas(events: &mut Vec<ModelStreamEvent>, text: &str)
    ensures
        event_views(final(events)@) == event_views(old(events)@) + text_deltas(delta_chunks(text@)),
{
    let chunks = text_delta_chunks(text);
    let ghost base = event_views(events@);
    let ghost cv = chunks@.map_values(|c: String| c@);
    let mut k: usize = 0;
    while k < chunks.len()
        invariant
            k <= chunks@.len(),
            cv == chunks@.map_values(|c: String| c@),
            cv == delta_chunks(text@),
            event_views(events@) == base + text_deltas(cv.take(k as int)),
        decreases chunks@.len() - k,
    {
        let ghost before = events@;
        events.push(ModelStreamEvent::TextDelta { delta: chunks[k].clone() });
        proof {
            assert(event_views(events@) == event_views(before).push(
                EventView::TextDelta { delta: cv[k as int] },
            ));
            assert(text_deltas(cv.take(k + 1)) == text_deltas(cv.take(k as int)).push(
                EventView::TextDelta { delta: cv[k as int] },
            ));
        }
        k = k + 1;
    }
    proof {
        assert(cv.take(chunks@.len() as int) == cv);
    }
}

fn push_usage(events: &mut Vec<ModelStreamEvent>, usage: Option<ModelUsage>)
    ensures
        event_views(final(events)@) == event_views(old(events)@) + usage_events(usage),
{
    match usage {
        Some(u) => {
            let ghost before = events@;
            events.push(ModelStreamEvent::Usage { usage: u });
            assert(event_views(events@) == event_views(before).push(EventView::Usage { usage: u }));
        },
        None => {
            assert(event_views(events@) == event_views(events@) + Seq::<EventView>::empty());
        },
    }
}

fn push_finished(events: &mut Vec<ModelStreamEvent>, reason: ModelStreamFinishReason)
    ensures
        event_views(final(events)@) == event_views(old(events)@) + seq![
            EventView::Finished { reason },
        ],
{
    let ghost before = events@;
    events.push(ModelStreamEvent::Finished { reason });
    assert(event_views(events@) == event_views(before).push(EventView::Finished { reason }));
}

/// The stream events for a model output.
pub fn output_stream_events(model_id: ModelId, output: ModelOutput) -> (r: Vec<ModelStreamEvent>)
    ensures
        event_views(r@) == output_events(model_id@, output),
{
    let ghost id = model_id@;
    let mut events: Vec<ModelStreamEvent> = Vec::new();
    events.push(ModelStreamEvent::Started { model_id });
    assert(event_views(events@) == seq![EventView::Started { model_id: id }]);
    match output {
        ModelOutput::Text { text, usage } => {
            push_text_deltas(&mut events, text.as_str());
            push_usage(&mut events, usage);
            push_finished(&mut events, ModelStreamFinishReason::Stop);
        },
        ModelOutput::ToolCalls { content, tool_calls, usage } => {
            match &content {
                Some(c) => {
                    push_text_deltas(&mut events, c.as_str());
                },
                None => {
                    assert(event_views(events@) == event_views(events@) + Seq::<EventView>::empty());
                },
            }
            let ghost base = event_views(events@);
            let mut i: usize = 0;
            while i < tool_calls.len()
                invariant
                    i <= tool_calls@.len(),
                    event_views(events@) == base + tool_call_deltas(tool_calls@.take(i as int)),
                decreases tool_calls@.len() - i,
            {
                let call = &tool_calls[i];
                let ghost before = events@;
                events.push(
                    ModelStreamEvent::ToolCallDelta(
                        ModelToolCallDelta {
                            index: i,
                            id_delta: Some(call.id.clone()),
                            name_delta: Some(call.name.clone()),
                            arguments_delta: Some(call.raw_arguments.clone()),
                        },
                    ),
                );
                proof {
                    let ghost ev = EventView::ToolCallDelta {
                        index: i,
                        id_delta: Some(tool_calls@[i as int].id@),
                        name_delta: Some(tool_calls@[i as int].name@),
                        arguments_delta: Some(tool_calls@[i as int].raw_arguments@),
                    };
                    assert(events@.last()@ == ev);
                    assert(event_views(events@) =~= event_views(before).push(ev));
                    assert(tool_call_deltas(tool_calls@.take(i + 1)) =~= tool_call_deltas(
                        tool_calls@.take(i as int),
                    ).push(ev));
                }
                i = i + 1;
            }
            proof {
                assert(tool_calls@.take(tool_calls@.len() as int) == tool_calls@);
            }
            push_usage(&mut events, usage);
            push_finished(&mut events, ModelStreamFinishReason::ToolCalls);
        },
    }
    events
}

/// The text of the last user message, or nothing when there is none.
pub open spec fn last_user_text(messages: Seq<ModelMessage>) -> Seq<char>
    decreases messages.len(),
{
    if messages.len() == 0 {
        Seq::empty()
    } else if messages.last().role == ModelRole::User {
        messages.last().text@
    } else {
        last_user_text(messages.drop_last())
    }
}

/// The words of all message texts, each message's count taken as a `u32`.
pub open spec fn message_words(messages: Seq<ModelMessage>) -> int
    decreases messages.len(),
{
    if messages.len() == 0 {
        0
    } else {
        message_words(messages.drop_last()) + (word_count(messages.last().text@) as u32) as int
    }
}

/// The static adapter's answer text.
pub open spec fn static_response_text(
    prefix: Seq<char>,
    model_id: Seq<char>,
    message_count: nat,
    last_user: Seq<char>,
) -> Seq<char> {
    prefix + " for "@ + model_id + " with "@ + decimal(message_count) + " message(s): "@ + last_user
}

/// Deterministic static adapter for tests and early runtime integration.
#[derive(Debug, Clone)]
pub struct StaticModelAdapter {
    response_prefix: String,
}

impl Default for StaticModelAdapter {
    fn default() -> (r: Self)
        ensures
            r.prefix() == "Static model response"@,
    {
        StaticModelAdapter { response_prefix: owned("Static model response") }
    }
}

impl StaticModelAdapter {
    /// An adapter whose answers start with `response_prefix`.
    pub fn new<T: IntoText>(response_prefix: T) -> (r: Self)
        ensures
            r.prefix() == response_prefix.text(),
    {
        StaticModelAdapter { response_prefix: response_prefix.into_text() }
    }

    /// The prefix of every answer.
    pub closed spec fn prefix(&self) -> Seq<char> {
        self.response_prefix@
    }

    /// Whether `respond` can count the words of `messages` within `u32`.
    pub open spec fn can_respond(&self, messages: Seq<ModelMessage>) -> bool {
        messages.len() > 0 ==> {
            &&& message_words(messages) <= u32::MAX
            &&& (word_count(self.prefix()) as u32) + (word_count(last_user_text(messages)) as u32)
                <= u32::MAX
        }
    }

    /// Whether `respond` can answer `request`: its word counts fit in `u32`.
    pub fn can_respond_to(&self, request: &crate::model::ModelRequest) -> (r: bool)
        ensures
            r == self.can_respond(request.messages@),
    {
        word_counts_fit(self.response_prefix.as_str(), request.messages.as_slice())
    }

    /// Answers a request: an empty request is rejected; otherwise the answer
    /// names the prefix, the model, the number of messages and the last user
    /// text, with word counts as usage.
    pub fn respond(&self, request: &crate::model::ModelRequest) -> (r: Result<ModelOutput, ModelAdapterError>)
        requires
            self.can_respond(request.messages@),
        ensures
            request.messages@.len() == 0 ==> r == Err::<ModelOutput, ModelAdapterError>(
                ModelAdapterError::EmptyRequest,
            ),
            request.messages@.len() > 0 ==> (r matches Ok(ModelOutput::Text { text, usage: Some(u) })
                && text@ == static_response_text(
                self.prefix(),
                request.model_id@,
                request.messages@.len(),
                last_user_text(request.messages@),
            ) && u == static_usage(self.prefix(), request.messages@)),
    {
        let messages = &request.messages;
        if messages.len() == 0 {
            return Err(ModelAdapterError::EmptyRequest);
        }
        let last_user = find_last_user(messages.as_slice());
        let mut text = self.response_prefix.clone();
        push_str(&mut text, " for ");
        push_str(&mut text, request.model_id.as_str());
        push_str(&mut text, " with ");
        push_decimal(&mut text, messages.len() as u64);
        push_str(&mut text, " message(s): ");
        push_str(&mut text, last_user);
        let input_tokens = total_words(messages.as_slice());
        let output_tokens = count_words(self.response_prefix.as_str()) + count_words(last_user);
        Ok(
            ModelOutput::Text {
                text,
                usage: Some(ModelUsage { input_tokens, output_tokens }),
            },
        )
    }
}

fn find_last_user(messages: &[ModelMessage]) -> (r: &str)
    ensures
        r@ == last_user_text(messages@),
{
    let mut k: usize = messages.len();
    proof {
        assert(messages@.take(k as int) == messages@);
    }
    while k > 0
        invariant
            k <= messages@.len(),
            last_user_text(messages@) == last_user_text(messages@.take(k as int)),
        decreases k,
    {
        proof {
            assert(messages@.take(k as int).last() == messages@[k - 1]);
            assert(messages@.take(k as int).drop_last() == messages@.take(k - 1));
        }
        if messages[k - 1].role == ModelRole::User {
            return messages[k - 1].text.as_str();
        }
        k = k - 1;
    }
    let r = "";
    proof {
        reveal_strlit("");
        assert(messages@.take(0).len() == 0);
    }
    r
}

proof fn lemma_message_words_monotone(s: Seq<ModelMessage>, i: int)
    requires
        0 <= i <= s.len(),
    ensures
        0 <= message_words(s.take(i)) <= message_words(s),
    decreases s.len(),
{
    if i == s.len() {
        assert(s.take(i) == s);
        lemma_message_words_nonneg(s);
    } else {
        lemma_message_words_monotone(s.drop_last(), i);
        assert(s.drop_last().take(i) == s.take(i));
    }
}

proof fn lemma_message_words_nonneg(s: Seq<ModelMessage>)
    ensures
        message_words(s) >= 0,
    decreases s.len(),
{
    if s.len() > 0 {
        lemma_message_words_nonneg(s.drop_last());
    }
}

proof fn lemma_message_words_prefix(s: Seq<ModelMessage>, k: int)
    requires
        0 <= k <= s.len(),
    ensures
        message_words(s.take(k)) <= message_words(s),
    decreases s.len(),
{
    if k < s.len() {
        lemma_message_words_prefix(s.drop_last(), k);
        assert(s.drop_last().take(k) == s.take(k));
    } else {
        assert(s.take(k) == s);
    }
}

/// Whether the words of `messages`, and those of the answer with `prefix`,
/// can be counted within `u32`.
fn word_counts_fit(prefix: &str, messages: &[ModelMessage]) -> (r: bool)
    ensures
        r == (messages@.len() > 0 ==> {
            &&& message_words(messages@) <= u32::MAX
            &&& (word_count(prefix@) as u32) + (word_count(last_user_text(messages@)) as u32) <= u32::MAX
        }),
{
    if messages.len() == 0 {
        return true;
    }
    let mut total: u64 = 0;
    let mut i: usize = 0;
    while i < messages.len()
        invariant
            i <= messages@.len(),
            total == message_words(messages@.take(i as int)),
            total <= u32::MAX,
        decreases messages@.len() - i,
    {
        proof {
            assert(messages@.take(i + 1).drop_last() == messages@.take(i as int));
        }
        let w = count_words(messages[i].text.as_str()) as u64;
        if total + w > 0xffff_ffff {
            proof {
                lemma_message_words_prefix(messages@, i + 1);
            }
            return false;
        }
        total = total + w;
        i = i + 1;
    }
    proof {
        assert(messages@.take(messages@.len() as int) == messages@);
    }
    let last = find_last_user(messages);
    (count_words(prefix) as u64) + (count_words(last) as u64) <= 0xffff_ffff
}

fn total_words(messages: &[ModelMessage]) -> (r: u32)
    requires
        message_words(messages@) <= u32::MAX,
    ensures
        r == message_words(messages@),
{
    let mut total: u32 = 0;
    let mut i: usize = 0;
    while i < messages.len()
        invariant
            i <= messages@.len(),
            message_words(messages@) <= u32::MAX,
            total == message_words(messages@.take(i as int)),
        decreases messages@.len() - i,
    {
        proof {
            lemma_message_words_monotone(messages@, i + 1);
            assert(messages@.take(i + 1).drop_last() == messages@.take(i as int));
            assert(messages@.take(i + 1).last() == messages@[i as int]);
        }
        let w = count_words(messages[i].text.as_str());
        total = total + w;
        i = i + 1;
    }
    proof {
        assert(messages@.take(messages@.len() as int) == messages@);
    }
    total
}


/// The usage the static adapter reports for `messages`.
pub open spec fn static_usage(prefix: Seq<char>, messages: Seq<ModelMessage>) -> ModelUsage {
    ModelUsage {
        input_tokens: message_words(messages) as u32,
        output_tokens: ((word_count(prefix) as u32) + (word_count(last_user_text(messages)) as u32))
            as u32,
    }
}

/// Deterministic streaming adapter for tests and early runtime work.
#[derive(Debug, Clone)]
pub struct StaticStreamingModelAdapter {
    inner: StaticModelAdapter,
}

impl Default for StaticStreamingModelAdapter {
    fn default() -> (r: Self)
        ensures
            r.prefix() == "Static model response"@,
    {
        StaticStreamingModelAdapter { inner: StaticModelAdapter::default() }
    }
}

impl StaticStreamingModelAdapter {
    /// An adapter whose answers start with `response_prefix`.
    pub fn new<T: IntoText>(response_prefix: T) -> (r: Self)
        ensures
            r.prefix() == response_prefix.text(),
    {
        StaticStreamingModelAdapter { inner: StaticModelAdapter::new(response_prefix) }
    }

    /// The prefix of every answer.
    pub closed spec fn prefix(&self) -> Seq<char> {
        self.inner.prefix()
    }

    /// Whether the adapter can count the words of `messages` within `u32`.
    pub open spec fn can_respond(&self, messages: Seq<ModelMessage>) -> bool {
        messages.len() > 0 ==> {
            &&& message_words(messages) <= u32::MAX
            &&& (word_count(self.prefix()) as u32) + (word_count(last_user_text(messages)) as u32)
                <= u32::MAX
        }
    }

    /// Whether `respond` and `stream_events` can answer `request`.
    pub fn can_respond_to(&self, request: &crate::model::ModelRequest) -> (r: bool)
        ensures
            r == self.can_respond(request.messages@),
    {
        self.inner.can_respond_to(request)
    }

    /// Answers a request as the static adapter does.
    pub fn respond(&self, request: &crate::model::ModelRequest) -> (r: Result<ModelOutput, ModelAdapterError>)
        requires
            self.can_respond(request.messages@),
        ensures
            request.messages@.len() == 0 ==> r == Err::<ModelOutput, ModelAdapterError>(
                ModelAdapterError::EmptyRequest,
            ),
            request.messages@.len() > 0 ==> (r matches Ok(ModelOutput::Text { text, usage: Some(u) })
                && text@ == static_response_text(
                self.prefix(),
                request.model_id@,
                request.messages@.len(),
                last_user_text(request.messages@),
            ) && u == static_usage(self.prefix(), request.messages@)),
    {
        self.inner.respond(request)
    }

    /// Streams the answer: started, the answer's text deltas, its usage, and
    /// a stop; an empty request is rejected.
    pub fn stream_events(&self, request: &crate::model::ModelRequest) -> (r: Result<
        Vec<ModelStreamEvent>,
        ModelAdapterError,
    >)
        requires
            self.can_respond(request.messages@),
        ensures
            request.messages@.len() == 0 ==> r matches Err(ModelAdapterError::EmptyRequest),
            request.messages@.len() > 0 ==> (r matches Ok(events) && event_views(events@)
                == text_output_events(
                request.model_id@,
                static_response_text(
                    self.prefix(),
                    request.model_id@,
                    request.messages@.len(),
                    last_user_text(request.messages@),
                ),
                Some(static_usage(self.prefix(), request.messages@)),
            )),
    {
        let model_id = request.model_id.duplicate();
        match self.respond(request) {
            Ok(output) => Ok(output_stream_events(model_id, output)),
            Err(e) => Err(e),
        }
    }
}

proof fn lemma_accumulate_concat(a: AccumulatorView, xs: Seq<EventView>, ys: Seq<EventView>)
    ensures
        accumulate_from(a, xs + ys) == accumulate_from(accumulate_from(a, xs), ys),
    decreases ys.len(),
{
    if ys.len() == 0 {
        assert(xs + ys == xs);
    } else {
        lemma_accumulate_concat(a, xs, ys.drop_last());
        assert((xs + ys).drop_last() == xs + ys.drop_last());
        assert((xs + ys).last() == ys.last());
    }
}

proof fn lemma_accumulate_text_deltas(a: AccumulatorView, chunks: Seq<Seq<char>>)
    ensures
        accumulate_from(a, text_deltas(chunks)) == (AccumulatorView {
            text: a.text + chunks.flatten(),
            ..a
        }),
    decreases chunks.len(),
{
    if chunks.len() == 0 {
        assert(a.text + chunks.flatten() == a.text);
    } else {
        let init = chunks.drop_last();
        lemma_accumulate_text_deltas(a, init);
        assert(text_deltas(chunks).drop_last() == text_deltas(init));
        init.lemma_flatten_push(chunks.last());
        assert(init.push(chunks.last()) == chunks);
        assert(a.text + init.flatten() + chunks.last() == a.text + chunks.flatten());
    }
}

/// Accumulating the stream of a text output gives back the output: its
/// text, its usage and a stop, with no error.
pub proof fn law_stream_accumulates_to_output(
    model_id: Seq<char>,
    text: Seq<char>,
    usage: Option<ModelUsage>,
)
    ensures
        accumulate_events(text_output_events(model_id, text, usage)) == (AccumulatorView {
            text,
            usage,
            finished: Some(ModelStreamFinishReason::Stop),
            errors: Seq::empty(),
        }),
{
    let started = seq![EventView::Started { model_id }];
    let deltas = text_deltas(delta_chunks(text));
    let us = usage_events(usage);
    let fin = seq![EventView::Finished { reason: ModelStreamFinishReason::Stop }];
    let e = empty_accumulator();
    lemma_accumulate_concat(e, started + deltas + us, fin);
    lemma_accumulate_concat(e, started + deltas, us);
    lemma_accumulate_concat(e, started, deltas);
    assert(started.drop_last() =~= Seq::<EventView>::empty());
    assert(accumulate_from(e, started.drop_last()) == e);
    let a1 = accumulate_from(e, started);
    assert(a1 == e);
    lemma_accumulate_text_deltas(a1, delta_chunks(text));
    law_delta_chunks_join(text);
    let a2 = accumulate_from(a1, deltas);
    assert(a2.text == text);
    let a3 = accumulate_from(a2, us);
    match usage {
        Some(u) => {
            assert(us.drop_last() =~= Seq::<EventView>::empty());
            assert(accumulate_from(a2, us.drop_last()) == a2);
        },
        None => {},
    }
    assert(a3 == AccumulatorView { usage, ..a2 });
    assert(fin.drop_last() =~= Seq::<EventView>::empty());
    assert(accumulate_from(a3, fin.drop_last()) == a3);
}

/// The streaming adapter streams what it answers: accumulating the events
/// of a request gives the answer's text and usage.
pub proof fn law_stream_matches_complete(
    adapter: StaticStreamingModelAdapter,
    model_id: Seq<char>,
    messages: Seq<ModelMessage>,
)
    requires
        messages.len() > 0,
    ensures
        ({
            let text = static_response_text(
                adapter.prefix(),
                model_id,
                messages.len(),
                last_user_text(messages),
            );
            let usage = static_usage(adapter.prefix(), messages);
            let acc = accumulate_events(text_output_events(model_id, text, Some(usage)));
            acc.text == text && acc.usage == Some(usage) && acc.finished == Some(
                ModelStreamFinishReason::Stop,
            ) && acc.errors.len() == 0
        }),
{
    let text = static_response_text(
        adapter.prefix(),
        model_id,
        messages.len(),
        last_user_text(messages),
    );
    law_stream_accumulates_to_output(model_id, text, Some(static_usage(adapter.prefix(), messages)));
}


/// Sink for model call traces.
pub trait ModelTraceSink {
    /// Records one trace.
    fn record(&mut self, trace: ModelCallTrace);
}

impl ModelTraceSink for MemoryModelTraceSink {
    fn record(&mut self, trace: ModelCallTrace)
        ensures
            final(self)@ == old(self)@.push(trace),
    {
        self.traces.push(trace);
    }
}

/// An adapter wrapped with a sink that receives a redacted trace of every
/// call. The sink is held through the handle `S` the caller chooses.
pub struct ObservedModelAdapter<A, S> {
    inner: A,
    sink: S,
}

impl<A, S> ObservedModelAdapter<A, S> {
    pub fn new(inner: A, sink: S) -> (r: Self)
        ensures
            r.inner_spec() == inner,
            r.sink_spec() == sink,
    {
        ObservedModelAdapter { inner, sink }
    }

    pub closed spec fn inner_spec(&self) -> A {
        self.inner
    }

    pub closed spec fn sink_spec(&self) -> S {
        self.sink
    }

    pub fn inner(&self) -> (r: &A)
        ensures
            *r == self.inner_spec(),
    {
        &self.inner
    }

    pub fn sink(&self) -> (r: &S)
        ensures
            *r == self.sink_spec(),
    {
        &self.sink
    }
}

/// An adapter guarded by a circuit breaker, held through the handle `B` the
/// caller chooses (which may be shared between adapters).
pub struct CircuitBreakingModelAdapter<A, B> {
    inner: A,
    breaker: B,
}

impl<A, B> CircuitBreakingModelAdapter<A, B> {
    pub fn new(inner: A, breaker: B) -> (r: Self)
        ensures
            r.inner_spec() == inner,
            r.breaker_spec() == breaker,
    {
        CircuitBreakingModelAdapter { inner, breaker }
    }

    /// The same as `new`, for a breaker handle shared with other adapters.
    pub fn with_shared_breaker(inner: A, breaker: B) -> (r: Self)
        ensures
            r.inner_spec() == inner,
            r.breaker_spec() == breaker,
    {
        CircuitBreakingModelAdapter { inner, breaker }
    }

    pub closed spec fn inner_spec(&self) -> A {
        self.inner
    }

    pub closed spec fn breaker_spec(&self) -> B {
        self.breaker
    }

    pub fn inner(&self) -> (r: &A)
        ensures
            *r == self.inner_spec(),
    {
        &self.inner
    }

    pub fn breaker(&self) -> (r: &B)
        ensures
            *r == self.breaker_spec(),
    {
        &self.breaker
    }
}

/// An adapter that retries failed calls as its policy `P` decides.
pub struct RetryingModelAdapter<A, P> {
    inner: A,
    policy: P,
}

impl<A, P: crate::model::ModelRetryPolicy> RetryingModelAdapter<A, P> {
    pub fn new(inner: A, policy: P) -> (r: Self)
        ensures
            r.inner_spec() == inner,
            r.policy_spec() == policy,
    {
        RetryingModelAdapter { inner, policy }
    }

    pub closed spec fn inner_spec(&self) -> A {
        self.inner
    }

    pub closed spec fn policy_spec(&self) -> P {
        self.policy
    }

    pub fn inner(&self) -> (r: &A)
        ensures
            *r == self.inner_spec(),
    {
        &self.inner
    }

    pub fn policy(&self) -> (r: &P)
        ensures
            *r == self.policy_spec(),
    {
        &self.policy
    }
}

/// A tool-calling adapter that checks the registry's capabilities before
/// each tool call; the registry is held through the handle `R`.
pub struct CapabilityGatedToolAdapter<A, R> {
    inner: A,
    registry: R,
}

impl<A, R> CapabilityGatedToolAdapter<A, R> {
    pub fn new(inner: A, registry: R) -> (r: Self)
        ensures
            r.inner_spec() == inner,
            r.registry_spec() == registry,
    {
        CapabilityGatedToolAdapter { inner, registry }
    }

    pub closed spec fn inner_spec(&self) -> A {
        self.inner
    }

    pub closed spec fn registry_spec(&self) -> R {
        self.registry
    }

    pub fn inner(&self) -> (r: &A)
        ensures
            *r == self.inner_spec(),
    {
        &self.inner
    }

    pub fn registry(&self) -> (r: &R)
        ensures
            *r == self.registry_spec(),
    {
        &self.registry
    }
}

} // verus!
