//! Streaming chat: turning a provider's stream of events into the items the
//! runner streams out. Text and reasoning pass through as they come; tool
//! calls are gathered and, selector calls dropped, announced as pending once
//! the stream ends; the last item is marked done.

use vstd::prelude::*;
use crate::chat_model::{ToolCall, ToolCallView, calls_view};
use crate::conversion::{non_selector_calls, ToolConverter};

verus! {

/// `uuid::Uuid::new_v4` written as text: a fresh random id in the
/// hyphenated form of 36 chars. Which id comes out is left open.
#[verifier::external_body]
fn fresh_call_id() -> (r: String)
    ensures
        r@.len() == 36,
{
    uuid::Uuid::new_v4().to_string()
}

/// `v` is `calls` with every call id replaced by a fresh 36-char id, names
/// and arguments kept, in order.
pub open spec fn fresh_ids_of(calls: Seq<ToolCall>, v: Seq<ToolCall>) -> bool {
    &&& v.len() == calls.len()
    &&& forall|k: int| 0 <= k < v.len() ==> {
        &&& (#[trigger] v[k]).fn_name@ == calls[k].fn_name@
        &&& v[k].fn_arguments@ == calls[k].fn_arguments@
        &&& v[k].call_id@.len() == 36
    }
}

/// Give each Ollama tool call a fresh call id (Ollama reports calls
/// without one), keeping names and arguments in order.
pub fn with_fresh_call_ids(calls: Vec<ToolCall>) -> (r: Vec<ToolCall>)
    ensures
        fresh_ids_of(calls@, r@),
{
    let mut out: Vec<ToolCall> = Vec::new();
    let mut i: usize = 0;
    while i < calls.len()
        invariant
            i <= calls@.len(),
            out@.len() == i,
            forall|k: int| 0 <= k < i ==> {
                &&& (#[trigger] out@[k]).fn_name@ == calls@[k].fn_name@
                &&& out@[k].fn_arguments@ == calls@[k].fn_arguments@
                &&& out@[k].call_id@.len() == 36
            },
        decreases calls.len() - i,
    {
        let id = fresh_call_id();
        out.push(ToolCall { call_id: id, fn_name: calls[i].fn_name.clone(), fn_arguments: calls[i].fn_arguments.clone() });
        i = i + 1;
    }
    out
}

/// One item the runner streams out. `U` is the usage record.
#[derive(Debug)]
pub struct StreamOutput<U> {
    pub text: Option<String>,
    pub reasoning: Option<String>,
    /// Tool calls awaiting the client (manual mode).
    pub pending_tool_calls: Option<Vec<ToolCall>>,
    pub done: bool,
    pub usage: Option<U>,
}

/// An event of a genai chat stream.
#[derive(Debug)]
pub enum GenaiStreamEvent<U> {
    Start,
    Chunk(String),
    ReasoningChunk(String),
    ThoughtSignatureChunk(String),
    ToolCallChunk(ToolCall),
    /// The end of the answer: its usage, text and reasoning as captured.
    End { usage: Option<U>, text: Option<String>, reasoning: Option<String> },
}

/// View of an optional string.
pub open spec fn opt_text(s: Option<String>) -> Option<Seq<char>> {
    match s {
        Some(t) => Some(t@),
        None => None,
    }
}

/// `o` is a plain text item with `t`.
pub open spec fn is_text_item<U>(o: StreamOutput<U>, t: Seq<char>) -> bool {
    &&& opt_text(o.text) == Some(t)
    &&& o.reasoning is None
    &&& o.pending_tool_calls is None
    &&& !o.done
    &&& o.usage is None
}

/// `o` is a plain reasoning item with `t`.
pub open spec fn is_reasoning_item<U>(o: StreamOutput<U>, t: Seq<char>) -> bool {
    &&& o.text is None
    &&& opt_text(o.reasoning) == Some(t)
    &&& o.pending_tool_calls is None
    &&& !o.done
    &&& o.usage is None
}

/// `o` announces the pending tool calls `calls`.
pub open spec fn is_pending_item<U>(o: StreamOutput<U>, calls: Seq<ToolCallView>) -> bool {
    &&& o.text is None
    &&& o.reasoning is None
    &&& (o.pending_tool_calls matches Some(v) && calls_view(v@) == calls)
    &&& !o.done
    &&& o.usage is None
}

/// The genai stream state: the tool calls gathered so far.
#[derive(Debug)]
pub struct GenaiStreamTranslator {
    accumulated: Vec<ToolCall>,
}

impl GenaiStreamTranslator {
    /// The tool calls gathered so far.
    pub closed spec fn gathered(&self) -> Seq<ToolCall> {
        self.accumulated@
    }

    /// A translator that has seen nothing.
    pub fn new() -> (t: Self)
        ensures
            t.gathered().len() == 0,
    {
        GenaiStreamTranslator { accumulated: Vec::new() }
    }

    /// The items for one event. Text, reasoning and thought-signature chunks
    /// are streamed out at once (the last two as reasoning); a tool call is
    /// gathered; at the end, the gathered calls other than selector calls
    /// are announced as pending (when any), followed by the done item with
    /// the captured usage, text and reasoning.
    pub fn on_event<U>(&mut self, event: GenaiStreamEvent<U>) -> (r: Vec<StreamOutput<U>>)
        ensures
            match event {
                GenaiStreamEvent::Start => r@.len() == 0 && final(self).gathered() == old(self).gathered(),
                GenaiStreamEvent::Chunk(t) => r@.len() == 1 && is_text_item(r@[0], t@)
                    && final(self).gathered() == old(self).gathered(),
                GenaiStreamEvent::ReasoningChunk(t) => r@.len() == 1 && is_reasoning_item(r@[0], t@)
                    && final(self).gathered() == old(self).gathered(),
                GenaiStreamEvent::ThoughtSignatureChunk(t) => r@.len() == 1 && is_reasoning_item(
                    r@[0],
                    t@,
                ) && final(self).gathered() == old(self).gathered(),
                GenaiStreamEvent::ToolCallChunk(c) => r@.len() == 0 && final(self).gathered()
                    == old(self).gathered().push(c),
                GenaiStreamEvent::End { usage, text, reasoning } => {
                    let pending = non_selector_calls(old(self).gathered());
                    let last = r@.last();
                    &&& r@.len() == if pending.len() > 0 { 2int } else { 1int }
                    &&& (pending.len() > 0 ==> is_pending_item(r@[0], calls_view(pending)))
                    &&& last.done
                    &&& last.usage == usage
                    &&& opt_text(last.text) == opt_text(text)
                    &&& opt_text(last.reasoning) == opt_text(reasoning)
                    &&& last.pending_tool_calls is None
                    &&& final(self).gathered().len() == 0
                },
            },
    {
        let mut out: Vec<StreamOutput<U>> = Vec::new();
        match event {
            GenaiStreamEvent::Start => {},
            GenaiStreamEvent::Chunk(t) => {
                out.push(
                    StreamOutput { text: Some(t), reasoning: None, pending_tool_calls: None, done: false, usage: None },
                );
            },
            GenaiStreamEvent::ReasoningChunk(t) => {
                out.push(
                    StreamOutput { text: None, reasoning: Some(t), pending_tool_calls: None, done: false, usage: None },
                );
            },
            GenaiStreamEvent::ThoughtSignatureChunk(t) => {
                out.push(
                    StreamOutput { text: None, reasoning: Some(t), pending_tool_calls: None, done: false, usage: None },
                );
            },
            GenaiStreamEvent::ToolCallChunk(c) => {
                self.accumulated.push(c);
            },
            GenaiStreamEvent::End { usage, text, reasoning } => {
                let mut gathered: Vec<ToolCall> = Vec::new();
                std::mem::swap(&mut gathered, &mut self.accumulated);
                let pending = ToolConverter::filter_selector_tools(gathered);
                if pending.len() > 0 {
                    out.push(
                        StreamOutput {
                            text: None,
                            reasoning: None,
                            pending_tool_calls: Some(pending),
                            done: false,
                            usage: None,
                        },
                    );
                }
                out.push(StreamOutput { text, reasoning, pending_tool_calls: None, done: true, usage });
            },
        }
        out
    }
}

/// One chunk of an Ollama chat stream: text, tool calls, and the final
/// statistics on the last chunk. `F` is the final statistics record.
#[derive(Debug)]
pub struct OllamaStreamChunk<F> {
    pub model: String,
    pub content: String,
    pub tool_calls: Vec<ToolCall>,
    pub final_data: Option<F>,
}

/// The done item of an Ollama stream: the model last reported and the last
/// final statistics seen, from which the usage is computed.
#[derive(Debug)]
pub struct OllamaStreamEnd<F> {
    pub pending_tool_calls: Vec<ToolCall>,
    pub model: String,
    pub final_data: Option<F>,
}

/// The Ollama stream state.
#[derive(Debug)]
pub struct OllamaStreamTranslator<F> {
    accumulated: Vec<ToolCall>,
    last_model: String,
    last_final: Option<F>,
}

impl<F> OllamaStreamTranslator<F> {
    /// The tool calls gathered so far.
    pub closed spec fn gathered(&self) -> Seq<ToolCall> {
        self.accumulated@
    }

    /// The model of the last chunk (empty before any).
    pub closed spec fn model(&self) -> Seq<char> {
        self.last_model@
    }

    /// The last final statistics seen.
    pub closed spec fn final_data(&self) -> Option<F> {
        self.last_final
    }

    /// A translator that has seen nothing.
    pub fn new() -> (t: Self)
        ensures
            t.gathered().len() == 0,
            t.model().len() == 0,
            t.final_data() is None,
    {
        OllamaStreamTranslator { accumulated: Vec::new(), last_model: String::new(), last_final: None }
    }

    /// Take in one chunk: its tool calls are gathered, its model and final
    /// statistics (when present) remembered, and its text, when not empty,
    /// streamed out.
    pub fn on_chunk<U>(&mut self, chunk: OllamaStreamChunk<F>) -> (r: Option<StreamOutput<U>>)
        ensures
            final(self).gathered() == old(self).gathered() + chunk.tool_calls@,
            final(self).model() == chunk.model@,
            final(self).final_data() == if chunk.final_data is Some {
                chunk.final_data
            } else {
                old(self).final_data()
            },
            chunk.content@.len() > 0 ==> (r matches Some(o) && is_text_item(o, chunk.content@)),
            chunk.content@.len() == 0 ==> r is None,
    {
        let OllamaStreamChunk { model, content, tool_calls, final_data } = chunk;
        let mut calls = tool_calls;
        self.accumulated.append(&mut calls);
        self.last_model = model;
        if final_data.is_some() {
            self.last_final = final_data;
        }
        if content.as_str().is_empty() {
            None
        } else {
            Some(StreamOutput { text: Some(content), reasoning: None, pending_tool_calls: None, done: false, usage: None })
        }
    }

    /// The end of the stream: the gathered calls other than selector calls
    /// (to be announced as pending when any), each with a fresh call id,
    /// with the model and final statistics for the done item's usage.
    pub fn on_end(self) -> (r: OllamaStreamEnd<F>)
        ensures
            fresh_ids_of(non_selector_calls(self.gathered()), r.pending_tool_calls@),
            r.model@ == self.model(),
            r.final_data == self.final_data(),
    {
        let OllamaStreamTranslator { accumulated, last_model, last_final } = self;
        OllamaStreamEnd {
            pending_tool_calls: with_fresh_call_ids(ToolConverter::filter_selector_tools(accumulated)),
            model: last_model,
            final_data: last_final,
        }
    }
}

/// The item sent when an Ollama stream fails: the text "Stream error",
/// marked done; nothing follows it.
pub fn stream_error_output<U>() -> (r: StreamOutput<U>)
    ensures
        opt_text(r.text) == Some("Stream error"@),
        r.done,
        r.reasoning is None,
        r.pending_tool_calls is None,
        r.usage is None,
{
    StreamOutput {
        text: Some(crate::text::string_of("Stream error")),
        reasoning: None,
        pending_tool_calls: None,
        done: true,
        usage: None,
    }
}

/// The item a completion stream gives for one genai event: text and
/// reasoning chunks as they come, the done item with the captured usage,
/// text and reasoning at the end; nothing for the start, tool-call and
/// thought-signature events, which a completion does not stream.
pub fn completion_stream_item<U>(event: GenaiStreamEvent<U>) -> (r: Option<StreamOutput<U>>)
    ensures
        match event {
            GenaiStreamEvent::Chunk(t) => r matches Some(o) && is_text_item(o, t@),
            GenaiStreamEvent::ReasoningChunk(t) => r matches Some(o) && is_reasoning_item(o, t@),
            GenaiStreamEvent::End { usage, text, reasoning } => r matches Some(o) && {
                &&& o.done
                &&& o.usage == usage
                &&& opt_text(o.text) == opt_text(text)
                &&& opt_text(o.reasoning) == opt_text(reasoning)
                &&& o.pending_tool_calls is None
            },
            _ => r is None,
        },
{
    match event {
        GenaiStreamEvent::Chunk(t) => Some(
            StreamOutput { text: Some(t), reasoning: None, pending_tool_calls: None, done: false, usage: None },
        ),
        GenaiStreamEvent::ReasoningChunk(t) => Some(
            StreamOutput { text: None, reasoning: Some(t), pending_tool_calls: None, done: false, usage: None },
        ),
        GenaiStreamEvent::End { usage, text, reasoning } => Some(
            StreamOutput { text, reasoning, pending_tool_calls: None, done: true, usage },
        ),
        _ => None,
    }
}

} // verus!
