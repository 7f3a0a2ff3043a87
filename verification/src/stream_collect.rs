//! Folding the decoded chunks of a streamed chat or completion answer into
//! the single result a non-streaming caller gets.

use vstd::prelude::*;
use crate::chat_model::{ToolCall, ToolCallView, calls_view};
use crate::text::push_str;

verus! {

/// The content of one streamed chat chunk.
#[derive(Debug)]
pub enum ChatChunkContent {
    Text(String),
    ToolCalls(Vec<ToolCall>),
    /// Image content, which cannot be merged across chunks.
    Image,
}

/// One decoded chunk of a streamed chat answer. `U` is the usage record.
#[derive(Debug)]
pub struct ChatStreamChunk<U> {
    pub content: Option<ChatChunkContent>,
    pub reasoning_content: Option<String>,
    pub done: bool,
    pub usage: Option<U>,
}

/// The collected chat answer.
#[derive(Debug)]
pub struct ChatStreamResult<U> {
    pub content: Option<ChatChunkContent>,
    pub reasoning_content: Option<String>,
    pub done: bool,
    pub usage: Option<U>,
}

/// One decoded chunk of a streamed completion. `C` is the generation
/// context, `U` the usage record.
#[derive(Debug)]
pub struct CompletionStreamChunk<C, U> {
    pub text: Option<String>,
    pub reasoning_content: Option<String>,
    pub done: bool,
    pub context: Option<C>,
    pub usage: Option<U>,
}

/// The collected completion.
#[derive(Debug)]
pub struct CompletionStreamResult<C, U> {
    pub text: Option<String>,
    pub reasoning_content: Option<String>,
    pub done: bool,
    pub context: Option<C>,
    pub usage: Option<U>,
}

/// The text of a chat chunk (empty unless it is text).
pub open spec fn chunk_text<U>(c: ChatStreamChunk<U>) -> Seq<char> {
    match c.content {
        Some(ChatChunkContent::Text(t)) => t@,
        _ => Seq::empty(),
    }
}

/// The tool calls of a chat chunk (none unless it carries calls).
pub open spec fn chunk_calls<U>(c: ChatStreamChunk<U>) -> Seq<ToolCallView> {
    match c.content {
        Some(ChatChunkContent::ToolCalls(v)) => calls_view(v@),
        _ => Seq::empty(),
    }
}

/// An optional string as chars (empty when absent).
pub open spec fn opt_chars(s: Option<String>) -> Seq<char> {
    match s {
        Some(t) => t@,
        None => Seq::empty(),
    }
}

/// All text of the chat chunks, in order.
pub open spec fn chat_text<U>(cs: Seq<ChatStreamChunk<U>>) -> Seq<char>
    decreases cs.len(),
{
    if cs.len() == 0 {
        Seq::empty()
    } else {
        chat_text(cs.drop_last()) + chunk_text(cs.last())
    }
}

/// All tool calls of the chat chunks, in order.
pub open spec fn chat_calls<U>(cs: Seq<ChatStreamChunk<U>>) -> Seq<ToolCallView>
    decreases cs.len(),
{
    if cs.len() == 0 {
        Seq::empty()
    } else {
        chat_calls(cs.drop_last()) + chunk_calls(cs.last())
    }
}

/// All reasoning of the chat chunks, in order.
pub open spec fn chat_reasoning<U>(cs: Seq<ChatStreamChunk<U>>) -> Seq<char>
    decreases cs.len(),
{
    if cs.len() == 0 {
        Seq::empty()
    } else {
        chat_reasoning(cs.drop_last()) + opt_chars(cs.last().reasoning_content)
    }
}

/// The usage of the last chunk marked done (`None` when no chunk is).
pub open spec fn chat_usage<U>(cs: Seq<ChatStreamChunk<U>>) -> Option<U>
    decreases cs.len(),
{
    if cs.len() == 0 {
        None
    } else if cs.last().done {
        cs.last().usage
    } else {
        chat_usage(cs.drop_last())
    }
}

/// All text of the completion chunks, in order.
pub open spec fn completion_text<C, U>(cs: Seq<CompletionStreamChunk<C, U>>) -> Seq<char>
    decreases cs.len(),
{
    if cs.len() == 0 {
        Seq::empty()
    } else {
        completion_text(cs.drop_last()) + opt_chars(cs.last().text)
    }
}

/// All reasoning of the completion chunks, in order.
pub open spec fn completion_reasoning<C, U>(cs: Seq<CompletionStreamChunk<C, U>>) -> Seq<char>
    decreases cs.len(),
{
    if cs.len() == 0 {
        Seq::empty()
    } else {
        completion_reasoning(cs.drop_last()) + opt_chars(cs.last().reasoning_content)
    }
}

/// The last chunk marked done, as an index (-1 when none is).
pub open spec fn last_done<C, U>(cs: Seq<CompletionStreamChunk<C, U>>) -> int
    decreases cs.len(),
{
    if cs.len() == 0 {
        -1
    } else if cs.last().done {
        cs.len() - 1
    } else {
        last_done(cs.drop_last())
    }
}

/// `Some(s)` unless `s` is empty.
pub open spec fn non_empty(s: Seq<char>) -> Option<Seq<char>> {
    if s.len() == 0 {
        None
    } else {
        Some(s)
    }
}

/// View of an optional string.
pub open spec fn opt_view(s: Option<String>) -> Option<Seq<char>> {
    match s {
        Some(t) => Some(t@),
        None => None,
    }
}

proof fn lemma_last_done_bounds<C, U>(cs: Seq<CompletionStreamChunk<C, U>>)
    ensures
        -1 <= last_done(cs) < cs.len(),
        last_done(cs) >= 0 ==> cs[last_done(cs)].done,
    decreases cs.len(),
{
    if cs.len() > 0 && !cs.last().done {
        lemma_last_done_bounds(cs.drop_last());
    }
}

/// Collect a streamed chat answer: texts, tool calls and reasoning are
/// concatenated in order; tool calls, when any, take precedence over text;
/// the usage is that of the last chunk marked done. The result is done.
pub fn collect_chat_chunks<U>(chunks: Vec<ChatStreamChunk<U>>) -> (r: ChatStreamResult<U>)
    ensures
        r.done,
        r.usage == chat_usage(chunks@),
        opt_view(r.reasoning_content) == non_empty(chat_reasoning(chunks@)),
        chat_calls(chunks@).len() > 0 ==> (r.content matches Some(ChatChunkContent::ToolCalls(v))
            && calls_view(v@) == chat_calls(chunks@)),
        chat_calls(chunks@).len() == 0 && chat_text(chunks@).len() > 0 ==> (r.content matches Some(
            ChatChunkContent::Text(t),
        ) && t@ == chat_text(chunks@)),
        chat_calls(chunks@).len() == 0 && chat_text(chunks@).len() == 0 ==> r.content is None,
{
    let ghost all = chunks@;
    let total: usize = chunks.len();
    let mut text = String::new();
    let mut reasoning = String::new();
    let mut calls: Vec<ToolCall> = Vec::new();
    let mut usage: Option<U> = None;
    let mut rest = chunks;
    let mut taken: usize = 0;
    let ghost n = all.len();
    while rest.len() > 0
        invariant
            n == all.len(),
            n == total,
            taken + rest@.len() == n,
            rest@ == all.skip(taken as int),
            text@ == chat_text(all.take(taken as int)),
            calls_view(calls@) == chat_calls(all.take(taken as int)),
            reasoning@ == chat_reasoning(all.take(taken as int)),
            usage == chat_usage(all.take(taken as int)),
        decreases rest@.len(),
    {
        let ghost i = taken as int;
        let c = rest.remove(0);
        proof {
            assert(c == all[i]);
            assert(all.take(i + 1).drop_last() =~= all.take(i));
            assert(all.take(i + 1).last() == all[i]);
        }
        let ghost before_calls = calls_view(calls@);
        let ChatStreamChunk { content, reasoning_content, done, usage: chunk_usage } = c;
        match content {
            Some(ChatChunkContent::Text(t)) => {
                push_str(&mut text, t.as_str());
                assert(calls_view(calls@) =~= before_calls + Seq::<ToolCallView>::empty());
            },
            Some(ChatChunkContent::ToolCalls(v)) => {
                let mut v = v;
                let ghost added = calls_view(v@);
                let ghost start = calls@;
                calls.append(&mut v);
                assert(calls_view(calls@) =~= calls_view(start) + added);
                assert(text@ =~= text@ + Seq::<char>::empty());
            },
            _ => {
                assert(calls_view(calls@) =~= before_calls + Seq::<ToolCallView>::empty());
                assert(text@ =~= text@ + Seq::<char>::empty());
            },
        }
        match reasoning_content {
            Some(r) => push_str(&mut reasoning, r.as_str()),
            None => {
                assert(reasoning@ =~= reasoning@ + Seq::<char>::empty());
            },
        }
        if done {
            usage = chunk_usage;
        }
        taken = taken + 1;
    }
    assert(all.take(n as int) =~= all);
    let content = if calls.len() > 0 {
        Some(ChatChunkContent::ToolCalls(calls))
    } else if text.as_str().is_empty() {
        None
    } else {
        Some(ChatChunkContent::Text(text))
    };
    let reasoning_content = if reasoning.as_str().is_empty() {
        None
    } else {
        Some(reasoning)
    };
    ChatStreamResult { content, reasoning_content, done: true, usage }
}

/// Collect a streamed completion: texts and reasoning are concatenated in
/// order; context and usage are those of the last chunk marked done. The
/// result is done.
pub fn collect_completion_chunks<C, U>(chunks: Vec<CompletionStreamChunk<C, U>>) -> (r:
    CompletionStreamResult<C, U>)
    ensures
        r.done,
        opt_view(r.text) == non_empty(completion_text(chunks@)),
        opt_view(r.reasoning_content) == non_empty(completion_reasoning(chunks@)),
        last_done(chunks@) < 0 ==> r.context is None && r.usage is None,
        last_done(chunks@) >= 0 ==> r.context == chunks@[last_done(chunks@)].context && r.usage
            == chunks@[last_done(chunks@)].usage,
{
    let ghost all = chunks@;
    let total: usize = chunks.len();
    let mut text = String::new();
    let mut reasoning = String::new();
    let mut context: Option<C> = None;
    let mut usage: Option<U> = None;
    let mut rest = chunks;
    let mut taken: usize = 0;
    let ghost n = all.len();
    proof {
        lemma_last_done_bounds(all.take(0));
    }
    while rest.len() > 0
        invariant
            n == all.len(),
            n == total,
            taken + rest@.len() == n,
            rest@ == all.skip(taken as int),
            text@ == completion_text(all.take(taken as int)),
            reasoning@ == completion_reasoning(all.take(taken as int)),
            last_done(all.take(taken as int)) < 0 ==> context is None && usage is None,
            last_done(all.take(taken as int)) >= 0 ==> context == all[last_done(
                all.take(taken as int),
            )].context && usage == all[last_done(all.take(taken as int))].usage,
        decreases rest@.len(),
    {
        let ghost i = taken as int;
        let c = rest.remove(0);
        proof {
            assert(c == all[i]);
            assert(all.take(i + 1).drop_last() =~= all.take(i));
            assert(all.take(i + 1).last() == all[i]);
            lemma_last_done_bounds(all.take(i));
            lemma_last_done_bounds(all.take(i + 1));
        }
        let CompletionStreamChunk {
            text: chunk_text,
            reasoning_content,
            done,
            context: chunk_context,
            usage: chunk_usage,
        } = c;
        match chunk_text {
            Some(t) => push_str(&mut text, t.as_str()),
            None => {
                assert(text@ =~= text@ + Seq::<char>::empty());
            },
        }
        match reasoning_content {
            Some(r) => push_str(&mut reasoning, r.as_str()),
            None => {
                assert(reasoning@ =~= reasoning@ + Seq::<char>::empty());
            },
        }
        if done {
            context = chunk_context;
            usage = chunk_usage;
        }
        taken = taken + 1;
    }
    assert(all.take(n as int) =~= all);
    let text = if text.as_str().is_empty() {
        None
    } else {
        Some(text)
    };
    let reasoning_content = if reasoning.as_str().is_empty() {
        None
    } else {
        Some(reasoning)
    };
    CompletionStreamResult { text, reasoning_content, done: true, context, usage }
}

/// One item of a result stream: a decoded data chunk, the end of the stream
/// with its metadata, or an item that carries neither.
#[derive(Debug)]
pub enum StreamItem<T> {
    Data(T),
    End(Vec<(String, String)>),
    Other,
}

/// Index of the first end item of `items` (its length when there is none).
pub open spec fn first_end<T>(items: Seq<StreamItem<T>>) -> int
    decreases items.len(),
{
    if items.len() == 0 {
        0
    } else if items[0] is End {
        0
    } else {
        1 + first_end(items.drop_first())
    }
}

/// The data chunks of `items`, in order.
pub open spec fn data_of<T>(items: Seq<StreamItem<T>>) -> Seq<T>
    decreases items.len(),
{
    if items.len() == 0 {
        Seq::empty()
    } else {
        let rest = data_of(items.drop_last());
        match items.last() {
            StreamItem::Data(d) => rest.push(d),
            _ => rest,
        }
    }
}

proof fn lemma_first_end_bounds<T>(items: Seq<StreamItem<T>>)
    ensures
        0 <= first_end(items) <= items.len(),
        first_end(items) < items.len() ==> items[first_end(items)] is End,
        forall|k: int| 0 <= k < first_end(items) ==> !(#[trigger] items[k] is End),
    decreases items.len(),
{
    if items.len() > 0 && !(items[0] is End) {
        lemma_first_end_bounds(items.drop_first());
        assert forall|k: int| 0 <= k < first_end(items) implies !(#[trigger] items[k] is End) by {
            if k > 0 {
                assert(items[k] == items.drop_first()[k - 1]);
            }
        }
    }
}

/// Split a result stream at its first end item: the data chunks before it,
/// in order, and its metadata (none when the stream has no end item).
/// Items after the end are not read.
pub fn split_at_end<T>(items: Vec<StreamItem<T>>) -> (r: (Vec<T>, Vec<(String, String)>))
    ensures
        r.0@ == data_of(items@.take(first_end(items@))),
        first_end(items@) < items@.len() ==> (items@[first_end(items@)] matches StreamItem::End(m)
            && r.1@ == m@),
        first_end(items@) == items@.len() ==> r.1@.len() == 0,
{
    let ghost all = items@;
    let total: usize = items.len();
    proof {
        lemma_first_end_bounds(all);
    }
    let mut rest = items;
    let mut data: Vec<T> = Vec::new();
    let mut taken: usize = 0;
    while rest.len() > 0
        invariant
            all == items@,
            total == all.len(),
            taken + rest@.len() == total,
            rest@ == all.skip(taken as int),
            taken <= first_end(all),
            0 <= first_end(all) <= all.len(),
            first_end(all) < all.len() ==> all[first_end(all)] is End,
            forall|k: int| 0 <= k < first_end(all) ==> !(#[trigger] all[k] is End),
            data@ == data_of(all.take(taken as int)),
        decreases rest@.len(),
    {
        let ghost i = taken as int;
        let item = rest.remove(0);
        proof {
            assert(item == all[i]);
            assert(all.take(i + 1).drop_last() =~= all.take(i));
            assert(all.take(i + 1).last() == all[i]);
        }
        match item {
            StreamItem::Data(d) => {
                data.push(d);
            },
            StreamItem::End(m) => {
                assert(i == first_end(all));
                return (data, m);
            },
            StreamItem::Other => {},
        }
        taken = taken + 1;
    }
    (data, Vec::new())
}

} // verus!
