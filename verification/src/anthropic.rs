//! Anthropic Messages API: endpoint configuration, tool naming and choice,
//! and the server-sent event stream: framing its data payloads and folding
//! its decoded events into provider-neutral stream events.
use crate::model::{
    accumulate_events, accumulate_from, empty_accumulator, AccumulatorView, ModelAdapterError, opt_text, EventView, ModelId, ModelStreamEvent, ModelStreamFinishReason,
    ModelToolCallDelta, ModelUsage, ToolChoice, event_views,
};
use crate::text::{
    ascii_alnum, chars_of, is_ascii_alnum, owned, push_char, push_str, starts_with_chars, starts_with_seq,
    str_eq, string_from_chars, trim_end_chars, trim_end_ws, trim_start_from, trim_start_ws,
};
use vstd::prelude::*;

verus! {

/// Anthropic API configuration.
#[derive(Debug, Clone)]
pub struct AnthropicConfig {
    pub api_key: String,
    pub base_url: String,
    pub default_model: String,
    pub api_version: String,
}

impl AnthropicConfig {
    /// The Messages endpoint under the base URL.
    pub fn messages_url(&self) -> (r: String)
        ensures
            r@ == self.base_url@ + "/v1/messages"@,
    {
        let mut url = self.base_url.clone();
        push_str(&mut url, "/v1/messages");
        url
    }
}

/// The finish reason for an Anthropic stop reason.
pub open spec fn finish_reason_of(reason: Option<Seq<char>>) -> ModelStreamFinishReason {
    match reason {
        Some(r) => if r == "end_turn"@ || r == "stop_sequence"@ {
            ModelStreamFinishReason::Stop
        } else if r == "max_tokens"@ {
            ModelStreamFinishReason::Length
        } else if r == "tool_use"@ {
            ModelStreamFinishReason::ToolCalls
        } else {
            ModelStreamFinishReason::Error
        },
        None => ModelStreamFinishReason::Error,
    }
}

/// Maps an Anthropic stop reason to a finish reason.
pub fn anthropic_stream_finish_reason(reason: Option<&str>) -> (r: ModelStreamFinishReason)
    ensures
        r == finish_reason_of(
            match reason {
                Some(s) => Some(s@),
                None => None,
            },
        ),
{
    match reason {
        Some(s) => {
            if str_eq(s, "end_turn") || str_eq(s, "stop_sequence") {
                ModelStreamFinishReason::Stop
            } else if str_eq(s, "max_tokens") {
                ModelStreamFinishReason::Length
            } else if str_eq(s, "tool_use") {
                ModelStreamFinishReason::ToolCalls
            } else {
                ModelStreamFinishReason::Error
            }
        },
        None => ModelStreamFinishReason::Error,
    }
}

/// A character allowed in an Anthropic tool name; others become `_`.
pub open spec fn tool_name_char(c: char) -> char {
    if ascii_alnum(c) || c == '_' || c == '-' {
        c
    } else {
        '_'
    }
}

/// A tool name as Anthropic accepts it: disallowed characters replaced by
/// `_`, at most 64 characters.
pub open spec fn sanitized_tool_name(name: Seq<char>) -> Seq<char> {
    let mapped = name.map_values(|c: char| tool_name_char(c));
    if mapped.len() > 64 {
        mapped.take(64)
    } else {
        mapped
    }
}

/// Sanitizes a tool name for the Anthropic API.
pub fn sanitize_tool_name(name: &str) -> (r: String)
    ensures
        r@ == sanitized_tool_name(name@),
{
    let cs = chars_of(name);
    let n = if cs.len() > 64 {
        64
    } else {
        cs.len()
    };
    let mut out = String::new();
    let mut i: usize = 0;
    while i < n
        invariant
            cs@ == name@,
            n <= cs@.len(),
            n == if cs@.len() > 64 {
                64
            } else {
                cs@.len()
            },
            i <= n,
            out@ == name@.map_values(|c: char| tool_name_char(c)).take(i as int),
        decreases n - i,
    {
        let c = cs[i];
        let m = if is_ascii_alnum(c) || c == '_' || c == '-' {
            c
        } else {
            '_'
        };
        push_char(&mut out, m);
        proof {
            assert(name@.map_values(|c: char| tool_name_char(c)).take(i + 1) == name@.map_values(
                |c: char| tool_name_char(c),
            ).take(i as int).push(m));
        }
        i = i + 1;
    }
    proof {
        let mapped = name@.map_values(|c: char| tool_name_char(c));
        if mapped.len() <= 64 {
            assert(mapped.take(n as int) == mapped);
        }
    }
    out
}

/// Anthropic's tool choice.
#[derive(Debug, Clone, PartialEq, Eq)]
pub enum AnthropicToolChoice {
    Auto,
    /// No tool may be called.
    NoTool,
    /// Some tool must be called.
    Any,
    /// The named tool must be called.
    Tool { name: String },
}

/// Maps a provider-neutral tool choice to Anthropic's; a named tool's name
/// is sanitized.
pub fn convert_tool_choice(choice: ToolChoice) -> (r: AnthropicToolChoice)
    ensures
        match choice {
            ToolChoice::Auto => r == AnthropicToolChoice::Auto,
            ToolChoice::NoTool => r == AnthropicToolChoice::NoTool,
            ToolChoice::Required => r == AnthropicToolChoice::Any,
            ToolChoice::Named(name) => r matches AnthropicToolChoice::Tool { name: n } && n@
                == sanitized_tool_name(name@),
        },
{
    match choice {
        ToolChoice::Auto => AnthropicToolChoice::Auto,
        ToolChoice::NoTool => AnthropicToolChoice::NoTool,
        ToolChoice::Required => AnthropicToolChoice::Any,
        ToolChoice::Named(name) => AnthropicToolChoice::Tool {
            name: sanitize_tool_name(name.as_str()),
        },
    }
}


/// The data an event-stream line carries: for a `data:` line, what follows
/// the prefix without leading whitespace. Blank lines, comments (`:`) and
/// `event:` lines carry none; trailing whitespace is ignored.
pub open spec fn line_data(segment: Seq<char>) -> Option<Seq<char>> {
    let l = trim_end_ws(segment);
    if l.len() == 0 || starts_with_seq(l, ":"@) || starts_with_seq(l, "event:"@) {
        None
    } else if starts_with_seq(l, "data:"@) {
        Some(trim_start_ws(l.skip(5)))
    } else {
        None
    }
}

/// Lines joined by newlines.
pub open spec fn join_lines(ls: Seq<Seq<char>>) -> Seq<char>
    decreases ls.len(),
{
    if ls.len() == 0 {
        Seq::empty()
    } else if ls.len() == 1 {
        ls[0]
    } else {
        join_lines(ls.drop_last()) + seq!['\n'] + ls.last()
    }
}

/// The framing state after part of a stream: the payloads of the frames
/// completed, the data lines of the current frame, and the current line.
pub struct SseScan {
    pub payloads: Seq<Seq<char>>,
    pub frame: Seq<Seq<char>>,
    pub line: Seq<char>,
}

/// Ends the current frame: its data lines, joined, become a payload when
/// there are any.
pub open spec fn flush_frame(st: SseScan) -> SseScan {
    if st.frame.len() > 0 {
        SseScan { payloads: st.payloads.push(join_lines(st.frame)), frame: Seq::empty(), ..st }
    } else {
        st
    }
}

/// Ends the current line: an empty line ends the frame (frames are
/// separated by blank lines), a data line adds its data to the frame.
pub open spec fn end_line(st: SseScan) -> SseScan {
    let st2 = if st.line.len() == 0 {
        flush_frame(st)
    } else {
        match line_data(st.line) {
            Some(d) => SseScan { frame: st.frame.push(d), ..st },
            None => st,
        }
    };
    SseScan { line: Seq::empty(), ..st2 }
}

/// The framing state after the first `n` characters of `raw`.
pub open spec fn sse_scan(raw: Seq<char>, n: nat) -> SseScan
    decreases n,
{
    if n == 0 {
        SseScan { payloads: Seq::empty(), frame: Seq::empty(), line: Seq::empty() }
    } else {
        let st = sse_scan(raw, (n - 1) as nat);
        if raw[n - 1] == '\n' {
            end_line(st)
        } else {
            SseScan { line: st.line.push(raw[n - 1]), ..st }
        }
    }
}

/// The data payloads of an event stream, one per frame that has data.
pub open spec fn sse_payloads(raw: Seq<char>) -> Seq<Seq<char>> {
    flush_frame(end_line(sse_scan(raw, raw.len()))).payloads
}

fn line_data_of(line: &[char]) -> (r: Option<Vec<char>>)
    ensures
        match r {
            Some(d) => line_data(line@) == Some(d@),
            None => line_data(line@) is None,
        },
{
    let end = trim_end_chars(line);
    let l = &line[0..end];
    proof {
        assert(l@ == trim_end_ws(line@));
    }
    if end == 0 {
        return None;
    }
    let colon = chars_of(":");
    let event = chars_of("event:");
    let data = chars_of("data:");
    if starts_with_chars(l, colon.as_slice()) || starts_with_chars(l, event.as_slice()) {
        return None;
    }
    if !starts_with_chars(l, data.as_slice()) {
        return None;
    }
    proof {
        reveal_strlit("data:");
        assert(data@.len() == 5);
    }
    let start = trim_start_from(l, 5);
    let mut out: Vec<char> = Vec::new();
    let mut i: usize = start;
    while i < end
        invariant
            start <= i <= end,
            end == l@.len(),
            out@ == l@.subrange(start as int, i as int),
        decreases end - i,
    {
        out.push(l[i]);
        proof {
            assert(l@.subrange(start as int, i + 1) == l@.subrange(start as int, i as int).push(
                l@[i as int],
            ));
        }
        i = i + 1;
    }
    proof {
        assert(l@.subrange(start as int, end as int) == l@.skip(start as int));
    }
    Some(out)
}

fn join_data_lines(ls: &Vec<Vec<char>>) -> (r: Vec<char>)
    ensures
        r@ == join_lines(ls@.map_values(|l: Vec<char>| l@)),
{
    let ghost lv = ls@.map_values(|l: Vec<char>| l@);
    let mut out: Vec<char> = Vec::new();
    let mut i: usize = 0;
    while i < ls.len()
        invariant
            i <= ls@.len(),
            lv == ls@.map_values(|l: Vec<char>| l@),
            out@ == join_lines(lv.take(i as int)),
        decreases ls@.len() - i,
    {
        proof {
            assert(lv.take(i + 1).drop_last() == lv.take(i as int));
            assert(lv.take(i + 1).last() == ls@[i as int]@);
        }
        if i > 0 {
            out.push('\n');
        }
        let l = &ls[i];
        let mut j: usize = 0;
        let ghost base = out@;
        while j < l.len()
            invariant
                j <= l@.len(),
                out@ == base + l@.take(j as int),
            decreases l@.len() - j,
        {
            out.push(l[j]);
            proof {
                assert(l@.take(j + 1) == l@.take(j as int).push(l@[j as int]));
            }
            j = j + 1;
        }
        proof {
            assert(l@.take(l@.len() as int) == l@);
            if i == 0 {
                assert(lv.take(1).len() == 1);
                assert(out@ == lv.take(1)[0]);
            }
        }
        i = i + 1;
    }
    proof {
        assert(lv.take(ls@.len() as int) == lv);
    }
    out
}

fn flush_frame_exec(payloads: &mut Vec<String>, frame: &mut Vec<Vec<char>>)
    ensures
        ({
            let st = SseScan {
                payloads: old(payloads)@.map_values(|p: String| p@),
                frame: old(frame)@.map_values(|l: Vec<char>| l@),
                line: Seq::empty(),
            };
            &&& final(payloads)@.map_values(|p: String| p@) == flush_frame(st).payloads
            &&& final(frame)@.map_values(|l: Vec<char>| l@) == flush_frame(st).frame
        }),
{
    if frame.len() > 0 {
        let joined = join_data_lines(frame);
        let ghost before = payloads@;
        payloads.push(string_from_chars(joined.as_slice()));
        proof {
            assert(payloads@.map_values(|p: String| p@) == before.map_values(|p: String| p@).push(
                join_lines(old(frame)@.map_values(|l: Vec<char>| l@)),
            ));
        }
        *frame = Vec::new();
        proof {
            assert(frame@.map_values(|l: Vec<char>| l@) == Seq::<Seq<char>>::empty());
        }
    }
}

fn end_line_exec(payloads: &mut Vec<String>, frame: &mut Vec<Vec<char>>, line: &mut Vec<char>)
    ensures
        ({
            let st = SseScan {
                payloads: old(payloads)@.map_values(|p: String| p@),
                frame: old(frame)@.map_values(|l: Vec<char>| l@),
                line: old(line)@,
            };
            &&& final(payloads)@.map_values(|p: String| p@) == end_line(st).payloads
            &&& final(frame)@.map_values(|l: Vec<char>| l@) == end_line(st).frame
            &&& final(line)@ == end_line(st).line
        }),
{
    if line.len() == 0 {
        flush_frame_exec(payloads, frame);
    } else {
        match line_data_of(line.as_slice()) {
            Some(d) => {
                let ghost before = frame@;
                frame.push(d);
                proof {
                    assert(frame@.map_values(|l: Vec<char>| l@) == before.map_values(
                        |l: Vec<char>| l@,
                    ).push(line_data(old(line)@).unwrap()));
                }
            },
            None => {},
        }
    }
    *line = Vec::new();
}

/// Splits a server-sent event stream into the data payloads of its frames:
/// frames are separated by blank lines, and the data lines of a frame are
/// joined by newlines.
pub fn sse_data_payloads(raw: &str) -> (r: Vec<String>)
    ensures
        r@.map_values(|p: String| p@) == sse_payloads(raw@),
{
    let cs = chars_of(raw);
    let mut payloads: Vec<String> = Vec::new();
    let mut frame: Vec<Vec<char>> = Vec::new();
    let mut line: Vec<char> = Vec::new();
    let mut i: usize = 0;
    proof {
        assert(payloads@.map_values(|p: String| p@) == Seq::<Seq<char>>::empty());
        assert(frame@.map_values(|l: Vec<char>| l@) == Seq::<Seq<char>>::empty());
    }
    while i < cs.len()
        invariant
            cs@ == raw@,
            i <= cs@.len(),
            ({
                let st = sse_scan(raw@, i as nat);
                &&& payloads@.map_values(|p: String| p@) == st.payloads
                &&& frame@.map_values(|l: Vec<char>| l@) == st.frame
                &&& line@ == st.line
            }),
        decreases cs@.len() - i,
    {
        if cs[i] == '\n' {
            end_line_exec(&mut payloads, &mut frame, &mut line);
        } else {
            line.push(cs[i]);
        }
        i = i + 1;
    }
    end_line_exec(&mut payloads, &mut frame, &mut line);
    flush_frame_exec(&mut payloads, &mut frame);
    payloads
}


/// Token usage in an Anthropic stream event.
#[derive(Debug, Clone, Copy, PartialEq, Eq, Default)]
pub struct AnthropicStreamUsage {
    pub input_tokens: u32,
    pub output_tokens: u32,
}

/// The message announced by a `message_start` event.
#[derive(Debug, Clone, PartialEq, Eq)]
pub struct AnthropicStreamMessage {
    pub model: String,
    pub usage: Option<AnthropicStreamUsage>,
}

/// The content block opened by a `content_block_start` event.
#[derive(Debug, Clone, PartialEq, Eq)]
pub struct AnthropicStreamContentBlock {
    pub block_type: String,
    pub id: Option<String>,
    pub name: Option<String>,
}

/// The delta carried by a `content_block_delta` or `message_delta` event.
#[derive(Debug, Clone, PartialEq, Eq)]
pub struct AnthropicStreamDelta {
    pub delta_type: Option<String>,
    pub text: Option<String>,
    pub partial_json: Option<String>,
    pub stop_reason: Option<String>,
}

/// One decoded Anthropic stream event.
#[derive(Debug, Clone, PartialEq, Eq)]
pub struct AnthropicStreamEvent {
    pub event_type: String,
    pub message: Option<AnthropicStreamMessage>,
    pub index: Option<usize>,
    pub content_block: Option<AnthropicStreamContentBlock>,
    pub delta: Option<AnthropicStreamDelta>,
    pub usage: Option<AnthropicStreamUsage>,
}

/// The state of the event fold: the events so far, whether the stream has
/// started, and the input token count last reported.
pub struct SseFold {
    pub events: Seq<EventView>,
    pub started: bool,
    pub input_tokens: u32,
}

/// Adds a start event with the fallback model unless the stream started.
pub open spec fn ensure_started(st: SseFold, fallback: Seq<char>) -> SseFold {
    if st.started {
        st
    } else {
        SseFold {
            events: st.events.push(EventView::Started { model_id: fallback }),
            started: true,
            ..st
        }
    }
}

/// Whether some event is a finish.
pub open spec fn has_finished(events: Seq<EventView>) -> bool {
    exists|i: int| 0 <= i < events.len() && events[i] is Finished
}

/// The tool call index of an event, zero when it has none.
pub open spec fn event_index(e: AnthropicStreamEvent) -> usize {
    match e.index {
        Some(i) => i,
        None => 0,
    }
}

/// The fold after one more Anthropic event.
pub open spec fn sse_step(st: SseFold, e: AnthropicStreamEvent, fallback: Seq<char>) -> SseFold {
    let t = e.event_type@;
    if t == "message_start"@ {
        let model = match e.message {
            Some(m) => m.model@,
            None => fallback,
        };
        let input = match e.message {
            Some(m) => match m.usage {
                Some(u) => u.input_tokens,
                None => st.input_tokens,
            },
            None => st.input_tokens,
        };
        SseFold {
            events: st.events.push(EventView::Started { model_id: model }),
            started: true,
            input_tokens: input,
        }
    } else if t == "content_block_start"@ {
        let s1 = ensure_started(st, fallback);
        match e.content_block {
            Some(b) => if b.block_type@ == "tool_use"@ {
                SseFold {
                    events: s1.events.push(
                        EventView::ToolCallDelta {
                            index: event_index(e),
                            id_delta: opt_text(b.id),
                            name_delta: opt_text(b.name),
                            arguments_delta: None,
                        },
                    ),
                    ..s1
                }
            } else {
                s1
            },
            None => s1,
        }
    } else if t == "content_block_delta"@ {
        let s1 = ensure_started(st, fallback);
        match e.delta {
            Some(d) => {
                if opt_text(d.delta_type) == Some("text_delta"@) && d.text is Some {
                    SseFold {
                        events: s1.events.push(EventView::TextDelta { delta: d.text.unwrap()@ }),
                        ..s1
                    }
                } else if opt_text(d.delta_type) == Some("input_json_delta"@) && d.partial_json is Some {
                    SseFold {
                        events: s1.events.push(
                            EventView::ToolCallDelta {
                                index: event_index(e),
                                id_delta: None,
                                name_delta: None,
                                arguments_delta: Some(d.partial_json.unwrap()@),
                            },
                        ),
                        ..s1
                    }
                } else {
                    s1
                }
            },
            None => s1,
        }
    } else if t == "message_delta"@ {
        let s1 = match e.usage {
            Some(u) => {
                let input = if u.input_tokens > 0 {
                    u.input_tokens
                } else {
                    st.input_tokens
                };
                SseFold {
                    events: st.events.push(
                        EventView::Usage {
                            usage: ModelUsage { input_tokens: input, output_tokens: u.output_tokens },
                        },
                    ),
                    input_tokens: input,
                    ..st
                }
            },
            None => st,
        };
        match e.delta {
            Some(d) => match d.stop_reason {
                Some(r) => SseFold {
                    events: s1.events.push(
                        EventView::Finished { reason: finish_reason_of(Some(r@)) },
                    ),
                    ..s1
                },
                None => s1,
            },
            None => s1,
        }
    } else if t == "message_stop"@ {
        if has_finished(st.events) {
            st
        } else {
            SseFold {
                events: st.events.push(
                    EventView::Finished { reason: ModelStreamFinishReason::Stop },
                ),
                ..st
            }
        }
    } else {
        st
    }
}

/// The fold after the first `n` events.
pub open spec fn sse_fold(events: Seq<AnthropicStreamEvent>, fallback: Seq<char>, n: nat) -> SseFold
    decreases n,
{
    if n == 0 {
        SseFold { events: Seq::empty(), started: false, input_tokens: 0 }
    } else {
        sse_step(sse_fold(events, fallback, (n - 1) as nat), events[n - 1], fallback)
    }
}

/// The stream events for a sequence of Anthropic events: the fold's events,
/// preceded by a start with the fallback model when none started it.
pub open spec fn anthropic_stream(events: Seq<AnthropicStreamEvent>, fallback: Seq<char>) -> Seq<
    EventView,
> {
    let st = sse_fold(events, fallback, events.len());
    if st.started {
        st.events
    } else {
        seq![EventView::Started { model_id: fallback }] + st.events
    }
}

fn push_event(events: &mut Vec<ModelStreamEvent>, e: ModelStreamEvent)
    ensures
        event_views(final(events)@) == event_views(old(events)@).push(e@),
{
    events.push(e);
    assert(event_views(events@) =~= event_views(old(events)@).push(e@));
}

fn any_finished(events: &Vec<ModelStreamEvent>) -> (r: bool)
    ensures
        r == has_finished(event_views(events@)),
{
    let ghost v = event_views(events@);
    let mut i: usize = 0;
    while i < events.len()
        invariant
            i <= events@.len(),
            v == event_views(events@),
            forall|k: int| 0 <= k < i ==> !(v[k] is Finished),
        decreases events@.len() - i,
    {
        match &events[i] {
            ModelStreamEvent::Finished { .. } => {
                assert(v[i as int] is Finished);
                return true;
            },
            _ => {},
        }
        i = i + 1;
    }
    false
}

fn opt_string(o: &Option<String>) -> (r: Option<String>)
    ensures
        opt_text(r) == opt_text(*o),
{
    match o {
        Some(s) => Some(s.clone()),
        None => None,
    }
}

fn opt_is(o: &Option<String>, lit: &str) -> (r: bool)
    ensures
        r == (opt_text(*o) == Some(lit@)),
{
    match o {
        Some(s) => str_eq(s.as_str(), lit),
        None => false,
    }
}

/// Folds decoded Anthropic events into provider-neutral stream events.
pub fn anthropic_stream_events(events: &[AnthropicStreamEvent], fallback_model: &ModelId) -> (r: Vec<
    ModelStreamEvent,
>)
    ensures
        event_views(r@) == anthropic_stream(events@, fallback_model@),
{
    let ghost fb = fallback_model@;
    let mut out: Vec<ModelStreamEvent> = Vec::new();
    let mut started = false;
    let mut input_tokens: u32 = 0;
    let mut i: usize = 0;
    while i < events.len()
        invariant
            i <= events@.len(),
            fb == fallback_model@,
            ({
                let st = sse_fold(events@, fb, i as nat);
                &&& event_views(out@) == st.events
                &&& started == st.started
                &&& input_tokens == st.input_tokens
            }),
        decreases events@.len() - i,
    {
        let e = &events[i];
        let ghost st = sse_fold(events@, fb, i as nat);
        let ghost before = event_views(out@);
        let t = e.event_type.as_str();
        if str_eq(t, "message_start") {
            let model_id = match &e.message {
                Some(m) => ModelId(m.model.clone()),
                None => fallback_model.duplicate(),
            };
            match &e.message {
                Some(m) => match &m.usage {
                    Some(u) => {
                        input_tokens = u.input_tokens;
                    },
                    None => {},
                },
                None => {},
            }
            push_event(&mut out, ModelStreamEvent::Started { model_id });
            started = true;
        } else if str_eq(t, "content_block_start") || str_eq(t, "content_block_delta") {
            if !started {
                push_event(&mut out, ModelStreamEvent::Started { model_id: fallback_model.duplicate() });
                started = true;
            }
            if str_eq(t, "content_block_start") {
                match &e.content_block {
                    Some(b) => {
                        if str_eq(b.block_type.as_str(), "tool_use") {
                            let index = match e.index {
                                Some(k) => k,
                                None => 0,
                            };
                            push_event(
                                &mut out,
                                ModelStreamEvent::ToolCallDelta(
                                    ModelToolCallDelta {
                                        index,
                                        id_delta: opt_string(&b.id),
                                        name_delta: opt_string(&b.name),
                                        arguments_delta: None,
                                    },
                                ),
                            );
                        }
                    },
                    None => {},
                }
            } else {
                match &e.delta {
                    Some(d) => {
                        if opt_is(&d.delta_type, "text_delta") && d.text.is_some() {
                            let text = match &d.text {
                                Some(x) => x.clone(),
                                None => String::new(),
                            };
                            push_event(&mut out, ModelStreamEvent::TextDelta { delta: text });
                        } else if opt_is(&d.delta_type, "input_json_delta")
                            && d.partial_json.is_some() {
                            let index = match e.index {
                                Some(k) => k,
                                None => 0,
                            };
                            let partial = match &d.partial_json {
                                Some(x) => x.clone(),
                                None => String::new(),
                            };
                            push_event(
                                &mut out,
                                ModelStreamEvent::ToolCallDelta(
                                    ModelToolCallDelta {
                                        index,
                                        id_delta: None,
                                        name_delta: None,
                                        arguments_delta: Some(partial),
                                    },
                                ),
                            );
                        }
                    },
                    None => {},
                }
            }
        } else if str_eq(t, "message_delta") {
            match &e.usage {
                Some(u) => {
                    if u.input_tokens > 0 {
                        input_tokens = u.input_tokens;
                    }
                    push_event(
                        &mut out,
                        ModelStreamEvent::Usage {
                            usage: ModelUsage { input_tokens, output_tokens: u.output_tokens },
                        },
                    );
                },
                None => {},
            }
            match &e.delta {
                Some(d) => match &d.stop_reason {
                    Some(r) => {
                        let reason = anthropic_stream_finish_reason(Some(r.as_str()));
                        push_event(&mut out, ModelStreamEvent::Finished { reason });
                    },
                    None => {},
                },
                None => {},
            }
        } else if str_eq(t, "message_stop") {
            if !any_finished(&out) {
                push_event(
                    &mut out,
                    ModelStreamEvent::Finished { reason: ModelStreamFinishReason::Stop },
                );
            }
        }
        proof {
            let nx = sse_step(st, events@[i as int], fb);
            assert(sse_fold(events@, fb, (i + 1) as nat) == nx);
            assert(event_views(out@) == nx.events);
        }
        i = i + 1;
    }
    if !started {
        let ghost before = out@;
        out.insert(0, ModelStreamEvent::Started { model_id: fallback_model.duplicate() });
        proof {
            assert(event_views(out@) =~= seq![EventView::Started { model_id: fb }] + event_views(before));
        }
    }
    out
}

/// The typed error for a failed Anthropic response.
pub fn anthropic_error_for_status(status: u16, status_text: &str, message: String) -> (r: ModelAdapterError)
    ensures
        status == 401 ==> (r matches ModelAdapterError::AuthError(m) && m@ == message@),
        status == 429 ==> r == ModelAdapterError::RateLimitExceeded,
        500 <= status <= 599 ==> (r matches ModelAdapterError::ExecutorFailed(m) && m@
            == "Anthropic server error: "@ + message@),
        status != 401 && status != 429 && !(500 <= status <= 599) ==> (r matches ModelAdapterError::ExecutorFailed(m)
            && m@ == "Anthropic API error ("@ + status_text@ + "): "@ + message@),
{
    if status == 401 {
        ModelAdapterError::AuthError(message)
    } else if status == 429 {
        ModelAdapterError::RateLimitExceeded
    } else if 500 <= status && status <= 599 {
        let mut m = owned("Anthropic server error: ");
        push_str(&mut m, message.as_str());
        ModelAdapterError::ExecutorFailed(m)
    } else {
        let mut m = owned("Anthropic API error (");
        push_str(&mut m, status_text);
        push_str(&mut m, "): ");
        push_str(&mut m, message.as_str());
        ModelAdapterError::ExecutorFailed(m)
    }
}

/// The number of finish events in `s`.
pub open spec fn finish_count(s: Seq<EventView>) -> nat
    decreases s.len(),
{
    if s.len() == 0 {
        0
    } else {
        finish_count(s.drop_last()) + if s.last() is Finished {
            1nat
        } else {
            0nat
        }
    }
}

/// The reason of the last finish event of `s`, if any.
pub open spec fn last_finish(s: Seq<EventView>) -> Option<ModelStreamFinishReason>
    decreases s.len(),
{
    if s.len() == 0 {
        None
    } else {
        match s.last() {
            EventView::Finished { reason } => Some(reason),
            _ => last_finish(s.drop_last()),
        }
    }
}

/// Whether an Anthropic event is a `message_delta` that carries a stop
/// reason.
pub open spec fn is_stop_delta(e: AnthropicStreamEvent) -> bool {
    &&& e.event_type@ == "message_delta"@
    &&& e.delta is Some
    &&& e.delta.unwrap().stop_reason is Some
}

/// Whether an Anthropic event is a `message_stop`.
pub open spec fn is_message_stop(e: AnthropicStreamEvent) -> bool {
    e.event_type@ == "message_stop"@
}

/// The number of `message_delta` events of `evs` that carry a stop reason.
pub open spec fn stop_delta_count(evs: Seq<AnthropicStreamEvent>) -> nat
    decreases evs.len(),
{
    if evs.len() == 0 {
        0
    } else {
        stop_delta_count(evs.drop_last()) + if is_stop_delta(evs.last()) {
            1nat
        } else {
            0nat
        }
    }
}

/// The stop reason of the last `message_delta` of `evs` that carries one.
pub open spec fn last_stop_reason(evs: Seq<AnthropicStreamEvent>) -> Seq<char>
    decreases evs.len(),
{
    if evs.len() == 0 {
        Seq::empty()
    } else if is_stop_delta(evs.last()) {
        evs.last().delta.unwrap().stop_reason.unwrap()@
    } else {
        last_stop_reason(evs.drop_last())
    }
}

/// Whether among the first `n` events a `message_stop` comes before any
/// `message_delta` with a stop reason.
pub open spec fn early_message_stop(evs: Seq<AnthropicStreamEvent>, n: int) -> bool {
    exists|i: int| 0 <= i < n && #[trigger] is_message_stop(evs[i]) && stop_delta_count(evs.take(i)) == 0
}

proof fn lemma_event_names_distinct()
    ensures
        "message_start"@ != "content_block_start"@,
        "message_start"@ != "content_block_delta"@,
        "message_start"@ != "message_delta"@,
        "message_start"@ != "message_stop"@,
        "content_block_start"@ != "content_block_delta"@,
        "content_block_start"@ != "message_delta"@,
        "content_block_start"@ != "message_stop"@,
        "content_block_delta"@ != "message_delta"@,
        "content_block_delta"@ != "message_stop"@,
        "message_delta"@ != "message_stop"@,
{
    reveal_strlit("message_start");
    reveal_strlit("content_block_start");
    reveal_strlit("content_block_delta");
    reveal_strlit("message_delta");
    reveal_strlit("message_stop");
    assert("message_start"@.len() == 13);
    assert("message_delta"@.len() == 13);
    assert("message_stop"@.len() == 12);
    assert("content_block_start"@.len() == 19);
    assert("content_block_delta"@.len() == 19);
    assert("message_start"@[8] != "message_delta"@[8]);
    assert("content_block_start"@[14] != "content_block_delta"@[14]);
}

proof fn lemma_push_other(s: Seq<EventView>, e: EventView)
    requires
        !(e is Finished),
    ensures
        finish_count(s.push(e)) == finish_count(s),
        last_finish(s.push(e)) == last_finish(s),
{
    assert(s.push(e).drop_last() =~= s);
}

proof fn lemma_push_finished(s: Seq<EventView>, r: ModelStreamFinishReason)
    ensures
        finish_count(s.push(EventView::Finished { reason: r })) == finish_count(s) + 1,
        last_finish(s.push(EventView::Finished { reason: r })) == Some(r),
{
    assert(s.push(EventView::Finished { reason: r }).drop_last() =~= s);
}

proof fn lemma_prepend_other(x: EventView, s: Seq<EventView>)
    requires
        !(x is Finished),
    ensures
        finish_count(seq![x] + s) == finish_count(s),
        last_finish(seq![x] + s) == last_finish(s),
    decreases s.len(),
{
    let t = seq![x] + s;
    if s.len() == 0 {
        assert(t.drop_last() =~= Seq::<EventView>::empty());
        assert(t.last() == x);
        assert(finish_count(Seq::<EventView>::empty()) == 0);
        assert(last_finish(Seq::<EventView>::empty()) is None);
        assert(finish_count(t) == finish_count(t.drop_last()));
        assert(last_finish(t) == last_finish(t.drop_last()));
    } else {
        lemma_prepend_other(x, s.drop_last());
        assert(t.drop_last() =~= seq![x] + s.drop_last());
        assert(t.last() == s.last());
        assert(finish_count(t) == finish_count(seq![x] + s.drop_last()) + if s.last() is Finished {
            1nat
        } else {
            0nat
        });
    }
}

proof fn lemma_has_finished_count(s: Seq<EventView>)
    ensures
        has_finished(s) <==> finish_count(s) > 0,
    decreases s.len(),
{
    if s.len() > 0 {
        lemma_has_finished_count(s.drop_last());
        if has_finished(s.drop_last()) {
            let i = choose|i: int| 0 <= i < s.drop_last().len() && s.drop_last()[i] is Finished;
            assert(s[i] is Finished);
        }
        if has_finished(s) && !(s.last() is Finished) {
            let i = choose|i: int| 0 <= i < s.len() && s[i] is Finished;
            assert(s.drop_last()[i] is Finished);
        }
        if s.last() is Finished {
            assert(s[s.len() - 1] is Finished);
        }
    }
}

proof fn lemma_accumulate_finished(a: AccumulatorView, s: Seq<EventView>)
    ensures
        accumulate_from(a, s).finished == match last_finish(s) {
            Some(r) => Some(r),
            None => a.finished,
        },
    decreases s.len(),
{
    if s.len() > 0 {
        lemma_accumulate_finished(a, s.drop_last());
    }
}

/// What the fold has done with finish events after its first `n` events.
pub open spec fn fold_finish_facts(evs: Seq<AnthropicStreamEvent>, fb: Seq<char>, n: int) -> bool {
    let st = sse_fold(evs, fb, n as nat);
    let k = stop_delta_count(evs.take(n));
    &&& finish_count(st.events) == k + if early_message_stop(evs, n) {
        1nat
    } else {
        0nat
    }
    &&& k > 0 ==> last_finish(st.events) == Some(finish_reason_of(Some(last_stop_reason(evs.take(n)))))
    &&& k == 0 ==> last_finish(st.events) == if early_message_stop(evs, n) {
        Some(ModelStreamFinishReason::Stop)
    } else {
        None
    }
}

proof fn lemma_fold_finish_facts(evs: Seq<AnthropicStreamEvent>, fb: Seq<char>, n: int)
    requires
        0 <= n <= evs.len(),
    ensures
        fold_finish_facts(evs, fb, n),
    decreases n,
{
    lemma_event_names_distinct();
    if n == 0 {
        assert(evs.take(0) =~= Seq::<AnthropicStreamEvent>::empty());
        assert(!early_message_stop(evs, 0));
    } else {
        let m = n - 1;
        lemma_fold_finish_facts(evs, fb, m);
        let st = sse_fold(evs, fb, m as nat);
        let e = evs[m];
        let t = e.event_type@;
        assert(evs.take(n).drop_last() =~= evs.take(m));
        assert(evs.take(n).last() == e);
        let k = stop_delta_count(evs.take(m));
        // Events other than a `message_stop` leave early stops as they were.
        if !is_message_stop(e) {
            assert forall|i: int| 0 <= i < n && #[trigger] is_message_stop(evs[i]) && stop_delta_count(evs.take(i)) == 0
                implies i < m by {}
            assert(early_message_stop(evs, n) == early_message_stop(evs, m));
        }
        lemma_has_finished_count(st.events);
        let es = ensure_started(st, fb);
        lemma_push_other(st.events, EventView::Started { model_id: fb });
        assert(finish_count(es.events) == finish_count(st.events));
        assert(last_finish(es.events) == last_finish(st.events));
        if t == "message_start"@ {
            let model = match e.message {
                Some(mm) => mm.model@,
                None => fb,
            };
            lemma_push_other(st.events, EventView::Started { model_id: model });
        } else if t == "content_block_start"@ {
            match e.content_block {
                Some(b) => if b.block_type@ == "tool_use"@ {
                    lemma_push_other(
                        es.events,
                        EventView::ToolCallDelta {
                            index: event_index(e),
                            id_delta: opt_text(b.id),
                            name_delta: opt_text(b.name),
                            arguments_delta: None,
                        },
                    );
                },
                None => {},
            }
        } else if t == "content_block_delta"@ {
            match e.delta {
                Some(d) => {
                    if opt_text(d.delta_type) == Some("text_delta"@) && d.text is Some {
                        lemma_push_other(es.events, EventView::TextDelta { delta: d.text.unwrap()@ });
                    } else if opt_text(d.delta_type) == Some("input_json_delta"@) && d.partial_json is Some {
                        lemma_push_other(
                            es.events,
                            EventView::ToolCallDelta {
                                index: event_index(e),
                                id_delta: None,
                                name_delta: None,
                                arguments_delta: Some(d.partial_json.unwrap()@),
                            },
                        );
                    }
                },
                None => {},
            }
        } else if t == "message_delta"@ {
            let s1 = match e.usage {
                Some(u) => {
                    let input = if u.input_tokens > 0 {
                        u.input_tokens
                    } else {
                        st.input_tokens
                    };
                    lemma_push_other(
                        st.events,
                        EventView::Usage {
                            usage: ModelUsage { input_tokens: input, output_tokens: u.output_tokens },
                        },
                    );
                    SseFold {
                        events: st.events.push(
                            EventView::Usage {
                                usage: ModelUsage { input_tokens: input, output_tokens: u.output_tokens },
                            },
                        ),
                        input_tokens: input,
                        ..st
                    }
                },
                None => st,
            };
            match e.delta {
                Some(d) => match d.stop_reason {
                    Some(r) => {
                        lemma_push_finished(s1.events, finish_reason_of(Some(r@)));
                    },
                    None => {},
                },
                None => {},
            }
        } else if t == "message_stop"@ {
            if !has_finished(st.events) {
                lemma_push_finished(st.events, ModelStreamFinishReason::Stop);
                assert(is_message_stop(evs[m]) && stop_delta_count(evs.take(m)) == 0);
                assert(early_message_stop(evs, n));
            } else {
                if k == 0 {
                    assert(early_message_stop(evs, m));
                    let i = choose|i: int| 0 <= i < m && #[trigger] is_message_stop(evs[i]) && stop_delta_count(evs.take(i)) == 0;
                    assert(early_message_stop(evs, n));
                } else {
                    assert forall|i: int| 0 <= i < n && #[trigger] is_message_stop(evs[i]) && stop_delta_count(evs.take(i)) == 0
                        implies i < m by {}
                    assert(early_message_stop(evs, n) == early_message_stop(evs, m));
                }
            }
        }
    }
}

/// Finish events of a stream: every `message_delta` with a stop reason
/// gives one, and a `message_stop` gives one only when no finish came
/// before it (so at most one `message_stop` counts, and only before any
/// stop reason).
pub proof fn law_stream_finish_count(evs: Seq<AnthropicStreamEvent>, fallback: Seq<char>)
    ensures
        finish_count(anthropic_stream(evs, fallback)) == stop_delta_count(evs) + if early_message_stop(
            evs,
            evs.len() as int,
        ) {
            1nat
        } else {
            0nat
        },
{
    lemma_fold_finish_facts(evs, fallback, evs.len() as int);
    assert(evs.take(evs.len() as int) =~= evs);
    let st = sse_fold(evs, fallback, evs.len());
    if !st.started {
        lemma_prepend_other(EventView::Started { model_id: fallback }, st.events);
    }
}

/// The finish reason a stream accumulates to: the mapping of the last stop
/// reason a `message_delta` carried; with none, `Stop` when a
/// `message_stop` came, and no finish otherwise. In particular a
/// `message_stop` after a tool-use stop reason leaves the turn finished by
/// tool calls.
pub proof fn law_stream_finish_reason(evs: Seq<AnthropicStreamEvent>, fallback: Seq<char>)
    ensures
        stop_delta_count(evs) > 0 ==> accumulate_events(anthropic_stream(evs, fallback)).finished == Some(
            finish_reason_of(Some(last_stop_reason(evs))),
        ),
        stop_delta_count(evs) == 0 ==> accumulate_events(anthropic_stream(evs, fallback)).finished == if exists|
            i: int,
        | 0 <= i < evs.len() && #[trigger] is_message_stop(evs[i]) {
            Some(ModelStreamFinishReason::Stop)
        } else {
            None
        },
{
    lemma_fold_finish_facts(evs, fallback, evs.len() as int);
    assert(evs.take(evs.len() as int) =~= evs);
    let st = sse_fold(evs, fallback, evs.len());
    if !st.started {
        lemma_prepend_other(EventView::Started { model_id: fallback }, st.events);
    }
    lemma_accumulate_finished(empty_accumulator(), anthropic_stream(evs, fallback));
    if stop_delta_count(evs) == 0 {
        assert forall|i: int| 0 <= i < evs.len() implies stop_delta_count(evs.take(i)) == 0 by {
            lemma_stop_delta_count_prefix(evs, i);
        }
    }
}

proof fn lemma_stop_delta_count_prefix(evs: Seq<AnthropicStreamEvent>, i: int)
    requires
        0 <= i <= evs.len(),
    ensures
        stop_delta_count(evs.take(i)) <= stop_delta_count(evs),
    decreases evs.len(),
{
    if i < evs.len() {
        lemma_stop_delta_count_prefix(evs.drop_last(), i);
        assert(evs.drop_last().take(i) =~= evs.take(i));
    } else {
        assert(evs.take(i) =~= evs);
    }
}

/// A stream with exactly one stop reason, and no `message_stop` before it,
/// has exactly one finish event, with that reason mapped.
pub proof fn law_single_stop_reason(evs: Seq<AnthropicStreamEvent>, fallback: Seq<char>, j: int)
    requires
        0 <= j < evs.len(),
        is_stop_delta(evs[j]),
        stop_delta_count(evs) == 1,
        forall|i: int| 0 <= i < j ==> !#[trigger] is_message_stop(evs[i]),
    ensures
        finish_count(anthropic_stream(evs, fallback)) == 1,
        accumulate_events(anthropic_stream(evs, fallback)).finished == Some(
            finish_reason_of(Some(evs[j].delta.unwrap().stop_reason.unwrap()@)),
        ),
{
    lemma_event_names_distinct();
    assert(!is_message_stop(evs[j]));
    law_stream_finish_count(evs, fallback);
    law_stream_finish_reason(evs, fallback);
    lemma_single_stop(evs, j);
    if early_message_stop(evs, evs.len() as int) {
        let i = choose|i: int| 0 <= i < evs.len() && #[trigger] is_message_stop(evs[i]) && stop_delta_count(evs.take(i)) == 0;
        if i > j {
            lemma_stop_delta_count_has(evs.take(i), j);
        }
        assert(i != j);
    }
}

proof fn lemma_stop_delta_count_has(evs: Seq<AnthropicStreamEvent>, j: int)
    requires
        0 <= j < evs.len(),
        is_stop_delta(evs[j]),
    ensures
        stop_delta_count(evs) > 0,
    decreases evs.len(),
{
    if j < evs.len() - 1 {
        lemma_stop_delta_count_has(evs.drop_last(), j);
    }
}

proof fn lemma_single_stop(evs: Seq<AnthropicStreamEvent>, j: int)
    requires
        0 <= j < evs.len(),
        is_stop_delta(evs[j]),
        stop_delta_count(evs) == 1,
    ensures
        last_stop_reason(evs) == evs[j].delta.unwrap().stop_reason.unwrap()@,
    decreases evs.len(),
{
    if j < evs.len() - 1 {
        lemma_stop_delta_count_has(evs.drop_last(), j);
        if is_stop_delta(evs.last()) {
            assert(false);
        }
        lemma_single_stop(evs.drop_last(), j);
    }
}

} // verus!
