//! Which messages of a chat request reach a provider, and in what form: the
//! provider-neutral part of the genai and Ollama message conversions.

use vstd::prelude::*;
use crate::chat_model::{ChatMessage, ChatRole, MessageContent, ToolCall, ToolCallView, calls_view};

verus! {

/// The role a provider receives: an unspecified role is sent as a user
/// message.
pub open spec fn provider_role_of(role: ChatRole) -> ChatRole {
    match role {
        ChatRole::Unspecified => ChatRole::User,
        r => r,
    }
}

/// The role a provider receives for `role`.
pub fn provider_role(role: ChatRole) -> (r: ChatRole)
    ensures
        r == provider_role_of(role),
{
    match role {
        ChatRole::Unspecified => ChatRole::User,
        r => r,
    }
}

/// The content of a message as sent to a genai provider.
#[derive(Debug)]
pub enum GenaiContent {
    Text(String),
    ImageUrl { content_type: String, url: String },
    ImageBase64 { content_type: String, data: String },
    /// Tool calls, whose arguments are still JSON text.
    ToolCalls(Vec<ToolCall>),
}

/// A message as sent to a genai provider.
#[derive(Debug)]
pub struct GenaiMessage {
    pub role: ChatRole,
    pub content: GenaiContent,
}

/// View of genai content.
pub enum GenaiContentView {
    Text(Seq<char>),
    ImageUrl(Seq<char>, Seq<char>),
    ImageBase64(Seq<char>, Seq<char>),
    ToolCalls(Seq<ToolCallView>),
}

/// The genai content for a message content, if the message is sent: text
/// and tool calls as they are; an image by its URL, else by its base64
/// data, and not at all without either; tool execution requests, tool
/// results and empty messages are not sent.
pub open spec fn genai_content_of(c: Option<MessageContent>) -> Option<GenaiContentView> {
    match c {
        Some(MessageContent::Text(t)) => Some(GenaiContentView::Text(t@)),
        Some(MessageContent::Image(i)) => if i.url@.len() > 0 {
            Some(GenaiContentView::ImageUrl(i.content_type@, i.url@))
        } else if i.base64@.len() > 0 {
            Some(GenaiContentView::ImageBase64(i.content_type@, i.base64@))
        } else {
            None
        },
        Some(MessageContent::ToolCalls(v)) => Some(GenaiContentView::ToolCalls(calls_view(v@))),
        _ => None,
    }
}

/// View of a genai message: role and content.
pub open spec fn genai_view(m: GenaiMessage) -> (ChatRole, GenaiContentView) {
    (
        m.role,
        match m.content {
            GenaiContent::Text(t) => GenaiContentView::Text(t@),
            GenaiContent::ImageUrl { content_type, url } => GenaiContentView::ImageUrl(
                content_type@,
                url@,
            ),
            GenaiContent::ImageBase64 { content_type, data } => GenaiContentView::ImageBase64(
                content_type@,
                data@,
            ),
            GenaiContent::ToolCalls(v) => GenaiContentView::ToolCalls(calls_view(v@)),
        },
    )
}

/// The genai messages for `msgs`: those that are sent, in order.
pub open spec fn genai_messages_of(msgs: Seq<ChatMessage>) -> Seq<(ChatRole, GenaiContentView)>
    decreases msgs.len(),
{
    if msgs.len() == 0 {
        Seq::empty()
    } else {
        let rest = genai_messages_of(msgs.drop_last());
        match genai_content_of(msgs.last().content) {
            Some(c) => rest.push((provider_role_of(msgs.last().role), c)),
            None => rest,
        }
    }
}

/// A text or tool-call message is always sent to a genai provider: when
/// every message is one, each is sent in its place, with its role
/// (unspecified as user) and its text, or exactly its tool calls in order.
pub proof fn law_genai_text_and_calls_sent(msgs: Seq<ChatMessage>)
    requires
        forall|k: int| 0 <= k < msgs.len() ==> ((#[trigger] msgs[k]).content matches Some(c) && (c is Text
            || c is ToolCalls)),
    ensures
        genai_messages_of(msgs).len() == msgs.len(),
        forall|k: int| 0 <= k < msgs.len() ==> {
            &&& (#[trigger] genai_messages_of(msgs)[k]).0 == provider_role_of(msgs[k].role)
            &&& (msgs[k].content matches Some(MessageContent::Text(t)) ==> genai_messages_of(msgs)[k].1
                == GenaiContentView::Text(t@))
            &&& (msgs[k].content matches Some(MessageContent::ToolCalls(v)) ==> genai_messages_of(msgs)[k].1
                == GenaiContentView::ToolCalls(calls_view(v@)))
        },
    decreases msgs.len(),
{
    if msgs.len() > 0 {
        let prev = msgs.drop_last();
        assert forall|k: int| 0 <= k < prev.len() implies ((#[trigger] prev[k]).content matches Some(c) && (c is Text
            || c is ToolCalls)) by {
            assert(prev[k] == msgs[k]);
        }
        law_genai_text_and_calls_sent(prev);
        let out = genai_messages_of(msgs);
        let rest = genai_messages_of(prev);
        assert forall|k: int| 0 <= k < msgs.len() implies {
            &&& (#[trigger] genai_messages_of(msgs)[k]).0 == provider_role_of(msgs[k].role)
            &&& (msgs[k].content matches Some(MessageContent::Text(t)) ==> genai_messages_of(msgs)[k].1
                == GenaiContentView::Text(t@))
            &&& (msgs[k].content matches Some(MessageContent::ToolCalls(v)) ==> genai_messages_of(msgs)[k].1
                == GenaiContentView::ToolCalls(calls_view(v@)))
        } by {
            if k < prev.len() {
                assert(prev[k] == msgs[k]);
                assert(out[k] == rest[k]);
            } else {
                assert(msgs.last() == msgs[k]);
            }
        }
    }
}

/// A copy of a tool call.
pub(crate) fn copy_call(c: &ToolCall) -> (r: ToolCall)
    ensures
        r@ == c@,
{
    ToolCall { call_id: c.call_id.clone(), fn_name: c.fn_name.clone(), fn_arguments: c.fn_arguments.clone() }
}

/// A copy of a list of tool calls.
pub(crate) fn copy_calls(v: &Vec<ToolCall>) -> (r: Vec<ToolCall>)
    ensures
        calls_view(r@) == calls_view(v@),
{
    let mut r: Vec<ToolCall> = Vec::new();
    let mut i: usize = 0;
    while i < v.len()
        invariant
            i <= v@.len(),
            calls_view(r@) == calls_view(v@.take(i as int)),
        decreases v.len() - i,
    {
        let ghost prev = r@;
        let c = copy_call(&v[i]);
        r.push(c);
        proof {
            assert(calls_view(r@) =~= calls_view(prev).push(c@));
            assert(calls_view(v@.take(i + 1)) =~= calls_view(v@.take(i as int)).push(v@[i as int]@));
        }
        i = i + 1;
    }
    assert(v@.take(i as int) =~= v@);
    r
}

/// The genai content for one message content, if it is sent.
fn genai_content(c: &Option<MessageContent>) -> (r: Option<GenaiContent>)
    ensures
        match r {
            Some(g) => genai_content_of(*c) == Some(genai_view(GenaiMessage { role: ChatRole::User, content: g }).1),
            None => genai_content_of(*c) is None,
        },
{
    match c {
        Some(MessageContent::Text(t)) => Some(GenaiContent::Text(t.clone())),
        Some(MessageContent::Image(i)) => {
            if !i.url.as_str().is_empty() {
                Some(GenaiContent::ImageUrl { content_type: i.content_type.clone(), url: i.url.clone() })
            } else if !i.base64.as_str().is_empty() {
                Some(GenaiContent::ImageBase64 { content_type: i.content_type.clone(), data: i.base64.clone() })
            } else {
                None
            }
        },
        Some(MessageContent::ToolCalls(v)) => Some(GenaiContent::ToolCalls(copy_calls(v))),
        _ => None,
    }
}

/// The messages a genai provider receives, in order: a message is sent
/// with its role (unspecified as user) when its content is text, tool
/// calls, or an image with a URL or base64 data; other messages are left
/// out.
pub fn genai_messages(messages: &Vec<ChatMessage>) -> (r: Vec<GenaiMessage>)
    ensures
        r@.map_values(|m: GenaiMessage| genai_view(m)) == genai_messages_of(messages@),
{
    let mut out: Vec<GenaiMessage> = Vec::new();
    let mut i: usize = 0;
    while i < messages.len()
        invariant
            i <= messages@.len(),
            out@.map_values(|m: GenaiMessage| genai_view(m)) == genai_messages_of(messages@.take(i as int)),
        decreases messages.len() - i,
    {
        proof {
            assert(messages@.take(i + 1).drop_last() =~= messages@.take(i as int));
            assert(messages@.take(i + 1).last() == messages@[i as int]);
        }
        let ghost prev = out@;
        match genai_content(&messages[i].content) {
            Some(content) => {
                let m = GenaiMessage { role: provider_role(messages[i].role), content };
                let ghost mv = genai_view(m);
                out.push(m);
                assert(out@.map_values(|m: GenaiMessage| genai_view(m)) =~= prev.map_values(
                    |m: GenaiMessage| genai_view(m),
                ).push(mv));
            },
            None => {},
        }
        i = i + 1;
    }
    assert(messages@.take(i as int) =~= messages@);
    out
}

/// The content of a message as sent to Ollama: text, images (base64 data or
/// a URL still to fetch) and tool calls; every message is sent.
#[derive(Debug)]
pub struct OllamaMessage {
    pub role: ChatRole,
    pub content: String,
    pub image_base64: Option<String>,
    pub image_url: Option<String>,
    pub tool_calls: Vec<ToolCall>,
}

/// The Ollama parts of a message content: text, base64 image, image URL to
/// fetch (only when there is no base64 data), tool calls.
pub open spec fn ollama_parts_of(c: Option<MessageContent>) -> (
    Seq<char>,
    Option<Seq<char>>,
    Option<Seq<char>>,
    Seq<ToolCallView>,
) {
    match c {
        Some(MessageContent::Text(t)) => (t@, None, None, Seq::empty()),
        Some(MessageContent::Image(i)) => if i.base64@.len() > 0 {
            (Seq::empty(), Some(i.base64@), None, Seq::empty())
        } else if i.url@.len() > 0 {
            (Seq::empty(), None, Some(i.url@), Seq::empty())
        } else {
            (Seq::empty(), None, None, Seq::empty())
        },
        Some(MessageContent::ToolCalls(v)) => (Seq::empty(), None, None, calls_view(v@)),
        _ => (Seq::empty(), None, None, Seq::empty()),
    }
}

/// What [`ollama_messages`] ensures of its result `r` for `messages`.
pub open spec fn ollama_converted(messages: Seq<ChatMessage>, r: Seq<OllamaMessage>) -> bool {
    &&& r.len() == messages.len()
    &&& forall|k: int| 0 <= k < r.len() ==> {
        let m = #[trigger] r[k];
        let p = ollama_parts_of(messages[k].content);
        &&& m.role == provider_role_of(messages[k].role)
        &&& m.content@ == p.0
        &&& opt_chars_view(m.image_base64) == p.1
        &&& opt_chars_view(m.image_url) == p.2
        &&& calls_view(m.tool_calls@) == p.3
    }
}

/// An Ollama message carries exactly the tool calls of a tool-call content,
/// in order, with empty text; a text content becomes its text and no tool
/// calls; any other content carries no tool calls.
pub proof fn law_ollama_tool_calls_kept(messages: Seq<ChatMessage>, r: Seq<OllamaMessage>)
    requires
        ollama_converted(messages, r),
    ensures
        forall|k: int| 0 <= k < r.len() ==> match messages[k].content {
            Some(MessageContent::ToolCalls(v)) => calls_view((#[trigger] r[k]).tool_calls@) == calls_view(v@)
                && r[k].tool_calls@.len() == v@.len() && r[k].content@.len() == 0,
            Some(MessageContent::Text(t)) => r[k].content@ == t@ && r[k].tool_calls@.len() == 0,
            _ => r[k].tool_calls@.len() == 0,
        },
        forall|k: int| 0 <= k < r.len() ==> (#[trigger] r[k]).role == (if messages[k].role is Unspecified {
            ChatRole::User
        } else {
            messages[k].role
        }),
        forall|k: int| 0 <= k < r.len() ==> (messages[k].content matches Some(MessageContent::Image(i)) ==> (
        if i.base64@.len() > 0 {
            (#[trigger] r[k]).image_base64 matches Some(b) && b@ == i.base64@ && r[k].image_url is None
        } else if i.url@.len() > 0 {
            r[k].image_base64 is None && (r[k].image_url matches Some(u) && u@ == i.url@)
        } else {
            r[k].image_base64 is None && r[k].image_url is None
        })),
{
    assert forall|k: int| 0 <= k < r.len() implies match messages[k].content {
        Some(MessageContent::ToolCalls(v)) => calls_view((#[trigger] r[k]).tool_calls@) == calls_view(v@)
            && r[k].tool_calls@.len() == v@.len() && r[k].content@.len() == 0,
        Some(MessageContent::Text(t)) => r[k].content@ == t@ && r[k].tool_calls@.len() == 0,
        _ => r[k].tool_calls@.len() == 0,
    } by {
        assert(calls_view(r[k].tool_calls@).len() == r[k].tool_calls@.len());
    }
}

/// View of an optional string.
pub open spec fn opt_chars_view(s: Option<String>) -> Option<Seq<char>> {
    match s {
        Some(t) => Some(t@),
        None => None,
    }
}

/// The messages Ollama receives: one per message, in order, with the role
/// (unspecified as user) and the parts of its content.
pub fn ollama_messages(messages: &Vec<ChatMessage>) -> (r: Vec<OllamaMessage>)
    ensures
        r@.len() == messages@.len(),
        forall|k: int| 0 <= k < r@.len() ==> {
            let m = #[trigger] r@[k];
            let p = ollama_parts_of(messages@[k].content);
            &&& m.role == provider_role_of(messages@[k].role)
            &&& m.content@ == p.0
            &&& opt_chars_view(m.image_base64) == p.1
            &&& opt_chars_view(m.image_url) == p.2
            &&& calls_view(m.tool_calls@) == p.3
        },
        ollama_converted(messages@, r@),
        forall|k: int| 0 <= k < r@.len() ==> (messages@[k].content matches Some(MessageContent::ToolCalls(v))
            ==> calls_view((#[trigger] r@[k]).tool_calls@) == calls_view(v@)),
{
    let mut out: Vec<OllamaMessage> = Vec::new();
    let mut i: usize = 0;
    while i < messages.len()
        invariant
            i <= messages@.len(),
            out@.len() == i,
            forall|k: int| 0 <= k < i ==> {
                let m = #[trigger] out@[k];
                let p = ollama_parts_of(messages@[k].content);
                &&& m.role == provider_role_of(messages@[k].role)
                &&& m.content@ == p.0
                &&& opt_chars_view(m.image_base64) == p.1
                &&& opt_chars_view(m.image_url) == p.2
                &&& calls_view(m.tool_calls@) == p.3
            },
        decreases messages.len() - i,
    {
        let m = &messages[i];
        let role = provider_role(m.role);
        let om = match &m.content {
            Some(MessageContent::Text(t)) => OllamaMessage {
                role,
                content: t.clone(),
                image_base64: None,
                image_url: None,
                tool_calls: Vec::new(),
            },
            Some(MessageContent::Image(img)) => {
                if !img.base64.as_str().is_empty() {
                    OllamaMessage {
                        role,
                        content: String::new(),
                        image_base64: Some(img.base64.clone()),
                        image_url: None,
                        tool_calls: Vec::new(),
                    }
                } else if !img.url.as_str().is_empty() {
                    OllamaMessage {
                        role,
                        content: String::new(),
                        image_base64: None,
                        image_url: Some(img.url.clone()),
                        tool_calls: Vec::new(),
                    }
                } else {
                    OllamaMessage {
                        role,
                        content: String::new(),
                        image_base64: None,
                        image_url: None,
                        tool_calls: Vec::new(),
                    }
                }
            },
            Some(MessageContent::ToolCalls(v)) => OllamaMessage {
                role,
                content: String::new(),
                image_base64: None,
                image_url: None,
                tool_calls: copy_calls(v),
            },
            _ => OllamaMessage {
                role,
                content: String::new(),
                image_base64: None,
                image_url: None,
                tool_calls: Vec::new(),
            },
        };
        out.push(om);
        proof {
            assert(calls_view(Seq::<ToolCall>::empty()) =~= Seq::<ToolCallView>::empty());
        }
        i = i + 1;
    }
    out
}

} // verus!
