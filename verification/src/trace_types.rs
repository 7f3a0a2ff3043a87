//! What the tracing of LLM calls records: token usage maps, the attribute
//! names usage keys are recorded under, the message/tool accessors, and the
//! end-once rule of a streaming span.

use vstd::prelude::*;
use crate::chat_model::{ChatMessage, ChatRole, MessageContent};
use crate::conversion::SelectorTool;
use crate::text::{push_str, str_eq, string_of};

verus! {

/// The usage entries recorded for a streamed generation: prompt tokens then
/// completion tokens, each when known.
pub open spec fn usage_entries(prompt: Option<u32>, completion: Option<u32>) -> Seq<(Seq<char>, int)> {
    let p: Seq<(Seq<char>, int)> = match prompt {
        Some(n) => seq![("prompt_tokens"@, n as int)],
        None => Seq::empty(),
    };
    let c: Seq<(Seq<char>, int)> = match completion {
        Some(n) => seq![("completion_tokens"@, n as int)],
        None => Seq::empty(),
    };
    p + c
}

/// The views of `(key, value)` usage entries.
pub open spec fn entries_view(v: Seq<(String, i64)>) -> Seq<(Seq<char>, int)> {
    v.map_values(|e: (String, i64)| (e.0@, e.1 as int))
}

/// Build a streaming usage map from prompt/completion token counts; `None`
/// when both are unknown. Keys are distinct and in a fixed order.
pub fn streaming_usage_map(prompt_tokens: Option<u32>, completion_tokens: Option<u32>) -> (r:
    Option<Vec<(String, i64)>>)
    ensures
        r is None <==> (prompt_tokens is None && completion_tokens is None),
        r matches Some(m) ==> entries_view(m@) == usage_entries(prompt_tokens, completion_tokens),
{
    if prompt_tokens.is_none() && completion_tokens.is_none() {
        return None;
    }
    let mut m: Vec<(String, i64)> = Vec::new();
    if let Some(p) = prompt_tokens {
        m.push((string_of("prompt_tokens"), p as i64));
    }
    let ghost mid = m@;
    if let Some(c) = completion_tokens {
        m.push((string_of("completion_tokens"), c as i64));
        assert(entries_view(m@) =~= entries_view(mid).push(("completion_tokens"@, c as int)));
    }
    assert(entries_view(m@) =~= usage_entries(prompt_tokens, completion_tokens));
    Some(m)
}

/// A count that is absent counts as 0.
pub open spec fn or_zero(n: Option<u32>) -> int {
    match n {
        Some(v) => v as int,
        None => 0,
    }
}

/// The usage map of a chat answer: prompt, completion and total tokens,
/// each 0 when unknown.
pub fn chat_usage_map(prompt_tokens: Option<u32>, completion_tokens: Option<u32>, total_tokens: Option<u32>) -> (r: Vec<(String, i64)>)
    ensures
        entries_view(r@) == seq![
            ("prompt_tokens"@, or_zero(prompt_tokens)),
            ("completion_tokens"@, or_zero(completion_tokens)),
            ("total_tokens"@, or_zero(total_tokens)),
        ],
{
    let p = match prompt_tokens { Some(v) => v, None => 0 };
    let c = match completion_tokens { Some(v) => v, None => 0 };
    let t = match total_tokens { Some(v) => v, None => 0 };
    let mut m: Vec<(String, i64)> = Vec::new();
    m.push((string_of("prompt_tokens"), p as i64));
    m.push((string_of("completion_tokens"), c as i64));
    m.push((string_of("total_tokens"), t as i64));
    assert(entries_view(m@) =~= seq![
        ("prompt_tokens"@, or_zero(prompt_tokens)),
        ("completion_tokens"@, or_zero(completion_tokens)),
        ("total_tokens"@, or_zero(total_tokens)),
    ]);
    m
}

/// The usage map of a completion: prompt and completion tokens (0 when
/// unknown) and their sum as the total.
pub fn completion_usage_map(prompt_tokens: Option<u32>, completion_tokens: Option<u32>) -> (r: Vec<(String, i64)>)
    requires
        or_zero(prompt_tokens) + or_zero(completion_tokens) <= u32::MAX,
    ensures
        entries_view(r@) == seq![
            ("prompt_tokens"@, or_zero(prompt_tokens)),
            ("completion_tokens"@, or_zero(completion_tokens)),
            ("total_tokens"@, or_zero(prompt_tokens) + or_zero(completion_tokens)),
        ],
{
    let p = match prompt_tokens { Some(v) => v, None => 0 };
    let c = match completion_tokens { Some(v) => v, None => 0 };
    chat_usage_map(prompt_tokens, completion_tokens, Some(p + c))
}

/// The span attribute a usage key is recorded under: input, output and
/// total token counts get their semantic-convention names, any other key
/// goes under `gen_ai.usage.` as is.
pub open spec fn usage_attribute(key: Seq<char>) -> Seq<char> {
    if key == "input_tokens"@ || key == "prompt_tokens"@ {
        "gen_ai.usage.input_tokens"@
    } else if key == "output_tokens"@ || key == "completion_tokens"@ {
        "gen_ai.usage.output_tokens"@
    } else if key == "total_tokens"@ {
        "gen_ai.usage.total_tokens"@
    } else {
        "gen_ai.usage."@ + key
    }
}

/// The span attribute name for a usage key.
pub fn usage_attribute_key(key: &str) -> (r: String)
    ensures
        r@ == usage_attribute(key@),
{
    if str_eq(key, "input_tokens") || str_eq(key, "prompt_tokens") {
        string_of("gen_ai.usage.input_tokens")
    } else if str_eq(key, "output_tokens") || str_eq(key, "completion_tokens") {
        string_of("gen_ai.usage.output_tokens")
    } else if str_eq(key, "total_tokens") {
        string_of("gen_ai.usage.total_tokens")
    } else {
        let mut s = string_of("gen_ai.usage.");
        push_str(&mut s, key);
        s
    }
}

/// Messages as the tracing records them: a role name and a text.
pub trait LLMMessage {
    fn get_role(&self) -> &str;

    fn get_content(&self) -> &str;
}

/// Model options recorded with a trace.
pub trait ModelOptions {

}

/// Tools as the tracing records them: by name.
pub trait ToolInfo {
    fn get_name(&self) -> &str;
}

/// The name the tracing records for a role.
pub open spec fn role_name(role: ChatRole) -> Seq<char> {
    match role {
        ChatRole::System => "system"@,
        ChatRole::Assistant => "assistant"@,
        ChatRole::Tool => "tool"@,
        _ => "user"@,
    }
}

impl LLMMessage for ChatMessage {
    /// The role's name; an unspecified role is recorded as a user message.
    fn get_role(&self) -> (r: &str)
        ensures
            r@ == role_name(self.role),
    {
        match self.role {
            ChatRole::System => "system",
            ChatRole::Assistant => "assistant",
            ChatRole::Tool => "tool",
            _ => "user",
        }
    }

    /// The text of a text message; empty for any other content.
    fn get_content(&self) -> (r: &str)
        ensures
            match self.content {
                Some(MessageContent::Text(t)) => r@ == t@,
                _ => r@.len() == 0,
            },
    {
        match &self.content {
            Some(MessageContent::Text(t)) => t.as_str(),
            _ => {
                proof {
                    reveal_strlit("");
                }
                ""
            },
        }
    }
}

impl ToolInfo for SelectorTool {
    fn get_name(&self) -> (r: &str)
        ensures
            r@ == self.name@,
    {
        self.name.as_str()
    }
}

/// A streaming span that is closed exactly once: by the first outcome
/// recorded, or at the end of the stream when none was.
#[derive(Debug)]
pub struct StreamSpanState {
    open: bool,
}

impl StreamSpanState {
    /// Whether the span is still open.
    pub closed spec fn is_open(&self) -> bool {
        self.open
    }

    /// A freshly opened span.
    pub fn new() -> (s: Self)
        ensures
            s.is_open(),
    {
        StreamSpanState { open: true }
    }

    /// Record an outcome (success or error): returns whether the span is to
    /// be finished now, which is only while it is open; afterwards it is
    /// closed.
    pub fn finish(&mut self) -> (act: bool)
        ensures
            act == old(self).is_open(),
            !final(self).is_open(),
    {
        let act = self.open;
        self.open = false;
        act
    }

    /// At the end of the stream: returns whether the span must still be
    /// ended (no outcome was recorded); afterwards it is closed.
    pub fn end_of_stream(&mut self) -> (act: bool)
        ensures
            act == old(self).is_open(),
            !final(self).is_open(),
    {
        self.finish()
    }
}

/// Once a close has been recorded, no later close acts on the span again:
/// `s1` is the state after a first `finish`, `act2` what a second
/// `finish`/`end_of_stream` on it returns.
pub proof fn law_span_closed_once(s1: StreamSpanState, act2: bool)
    requires
        !s1.is_open(),
        act2 == s1.is_open(),
    ensures
        !act2,
{
}

} // verus!
