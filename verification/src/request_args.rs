//! Request conversion for the local-model backend: which sampling limits,
//! output constraint, tools and tool choice a request carries, decided from
//! its options. The caller hands the plan to the backend's request builder,
//! together with the floating-point sampling options.

use vstd::prelude::*;
use crate::client_tools::{json_text_value, obj_get, parse_json_text, JsonValue};
use crate::chat_model::ChatRole;
use crate::text::{decimal, push_decimal, push_str, str_eq, string_of};

verus! {

/// The output grammar a request asks for.
#[derive(Debug)]
pub enum GrammarConfig {
    /// A JSON schema, as text.
    Json(String),
    /// A regular expression.
    Regex(String),
    /// A Lark grammar.
    Lark(String),
}

/// How the model may call tools, as the request gives it.
#[derive(Debug, Clone, Copy, PartialEq, Eq, Structural)]
pub enum ToolChoiceValue {
    /// The model calls no tool.
    NoTool,
    Auto,
    ForcedTool,
    /// A value that names no known option.
    Unknown(i32),
}

/// The tool a request forces the model to call.
#[derive(Debug)]
pub struct ForcedTool {
    pub name: String,
    pub description: Option<String>,
    /// Argument names and values.
    pub arguments: Vec<(String, String)>,
}

/// The integer and text options of a request (the floating-point sampling
/// options are handled by the caller).
#[derive(Debug)]
pub struct RequestOptions {
    pub max_tokens: Option<i32>,
    pub top_k: Option<i32>,
    pub stop_seqs: Vec<String>,
    pub n_choices: i32,
    pub adapters: Vec<String>,
    pub grammar_config: Option<GrammarConfig>,
    /// Tool definitions, each a JSON function object.
    pub tool_schemas: Vec<String>,
    pub tool_choice: Option<ToolChoiceValue>,
    pub forced_tool: Option<ForcedTool>,
}

/// The constraint a request's output is held to.
#[derive(Debug)]
pub enum ConstraintPlan {
    JsonSchema(JsonValue),
    Regex(String),
    Lark(String),
}

/// A tool offered to the model.
#[derive(Debug)]
pub struct ToolFunction {
    pub name: String,
    pub description: Option<String>,
    /// The parameters object, if given.
    pub parameters: Option<JsonValue>,
}

/// The tool choice sent with the tools.
#[derive(Debug)]
pub enum ToolChoicePlan {
    /// The model calls no tool.
    NoTool,
    Auto,
    /// Call this tool; its parameters are the forced arguments, if any.
    Tool { name: String, description: Option<String>, parameters: Option<Vec<(String, String)>> },
}

/// What a request's options set on the backend request.
#[derive(Debug)]
pub struct RequestPlan {
    pub max_len: Option<i32>,
    pub top_k: Option<i32>,
    /// Stop sequences, when there are any.
    pub stop_seqs: Option<Vec<String>>,
    /// The number of generations, when more than one.
    pub n_choices: Option<i32>,
    /// Adapters, when there are any.
    pub adapters: Option<Vec<String>>,
    pub constraint: Option<ConstraintPlan>,
    /// The tool schemas that define a function, in order.
    pub tools: Vec<ToolFunction>,
    /// Set only when there are tools and a choice was given.
    pub tool_choice: Option<ToolChoicePlan>,
}

/// A description field: absent or null gives none, a string gives it,
/// anything else makes the definition invalid (outer `None`).
pub open spec fn description_field(v: Option<JsonValue>) -> Option<Option<String>> {
    match v {
        None => Some(None),
        Some(JsonValue::Null) => Some(None),
        Some(JsonValue::String(s)) => Some(Some(s)),
        _ => None,
    }
}

/// A parameters field: absent or null gives none, an object gives it,
/// anything else makes the definition invalid (outer `None`).
pub open spec fn parameters_field(v: Option<JsonValue>) -> Option<Option<JsonValue>> {
    match v {
        None => Some(None),
        Some(JsonValue::Null) => Some(None),
        Some(JsonValue::Object(e)) => Some(Some(JsonValue::Object(e))),
        _ => None,
    }
}

/// The function a JSON value defines: an object with a string `name`, and
/// optionally a string `description` and an object `parameters`.
pub open spec fn function_of(v: JsonValue) -> Option<ToolFunction> {
    match v {
        JsonValue::Object(entries) => match obj_get(entries@, "name"@) {
            Some(JsonValue::String(name)) => match description_field(obj_get(entries@, "description"@)) {
                Some(description) => match parameters_field(obj_get(entries@, "parameters"@)) {
                    Some(parameters) => Some(ToolFunction { name, description, parameters }),
                    None => None,
                },
                None => None,
            },
            _ => None,
        },
        _ => None,
    }
}

/// The function a tool schema text defines, if it is JSON and defines one.
pub open spec fn schema_function(text: Seq<char>) -> Option<ToolFunction> {
    match json_text_value(text) {
        Some(v) => function_of(v),
        None => None,
    }
}

/// The functions the schemas define, in order; the others are left out.
pub open spec fn parsed_tools(schemas: Seq<String>) -> Seq<ToolFunction>
    decreases schemas.len(),
{
    if schemas.len() == 0 {
        Seq::empty()
    } else {
        let prev = parsed_tools(schemas.drop_last());
        match schema_function(schemas.last()@) {
            Some(f) => prev.push(f),
            None => prev,
        }
    }
}

/// The tool choice sent along with tools: the given option; a forced tool
/// without a tool to force, or an unknown option, falls back to `Auto`.
pub open spec fn choice_of(choice: ToolChoiceValue, forced: Option<ForcedTool>) -> ToolChoicePlan {
    match choice {
        ToolChoiceValue::NoTool => ToolChoicePlan::NoTool,
        ToolChoiceValue::Auto => ToolChoicePlan::Auto,
        ToolChoiceValue::ForcedTool => match forced {
            Some(f) => ToolChoicePlan::Tool {
                name: f.name,
                description: f.description,
                parameters: if f.arguments@.len() == 0 {
                    None
                } else {
                    Some(f.arguments)
                },
            },
            None => ToolChoicePlan::Auto,
        },
        ToolChoiceValue::Unknown(_) => ToolChoicePlan::Auto,
    }
}

/// The constraint of a grammar: a JSON schema only when its text is JSON;
/// a regex or Lark grammar as given.
pub open spec fn constraint_of(g: Option<GrammarConfig>) -> Option<ConstraintPlan> {
    match g {
        None => None,
        Some(GrammarConfig::Json(t)) => match json_text_value(t@) {
            Some(v) => Some(ConstraintPlan::JsonSchema(v)),
            None => None,
        },
        Some(GrammarConfig::Regex(t)) => Some(ConstraintPlan::Regex(t)),
        Some(GrammarConfig::Lark(t)) => Some(ConstraintPlan::Lark(t)),
    }
}

/// The role of a chat message, as the request gives it.
#[derive(Debug, Clone, Copy, PartialEq, Eq, Structural)]
pub enum MessageRole {
    User,
    Assistant,
    System,
    Tool,
    Custom,
    /// A value that names no known role.
    Unknown(i32),
}

/// The role a message is sent to the model with.
#[derive(Debug, Clone, Copy, PartialEq, Eq, Structural)]
pub enum TextRole {
    User,
    Assistant,
    System,
    Tool,
}

/// One part of a message's content.
#[derive(Debug)]
pub enum MessagePart {
    Text(String),
    /// A part that is not text (an image, a tool call); it is not sent.
    Other,
}

/// The content of a chat message.
#[derive(Debug)]
pub enum LocalMessageContent {
    Text(String),
    Parts(Vec<MessagePart>),
}

/// A chat message of a local-model request.
#[derive(Debug)]
pub struct LocalChatMessage {
    pub role: MessageRole,
    pub content: Option<LocalMessageContent>,
}

/// How a chat completion request gives its messages.
#[derive(Debug)]
pub enum MessagesFormat {
    /// One user prompt.
    PromptString(String),
    ChatMessages(Vec<LocalChatMessage>),
}

/// A text completion request.
#[derive(Debug)]
pub struct CompletionRequest {
    pub prompt: String,
    pub stream: bool,
    pub options: Option<RequestOptions>,
}

/// A chat completion request.
#[derive(Debug)]
pub struct ChatCompletionRequest {
    pub messages_format: Option<MessagesFormat>,
    pub stream: bool,
    pub logprobs: bool,
    pub top_logprobs: Option<i32>,
    pub options: Option<RequestOptions>,
}

/// A local-model request.
#[derive(Debug)]
pub enum LlmRequest {
    Completion(CompletionRequest),
    ChatCompletion(ChatCompletionRequest),
}

/// What a request sends to the backend.
#[derive(Debug)]
pub struct RequestBuild {
    /// The messages, in order.
    pub messages: Vec<(TextRole, String)>,
    /// Whether log probabilities are returned.
    pub logprobs: bool,
    /// How many top log probabilities, when they are returned.
    pub top_logprobs: Option<i32>,
    /// What the request's options set, if it has options.
    pub options: Option<RequestPlan>,
}

/// Why a request cannot be built.
#[derive(Debug, Clone, Copy, PartialEq, Eq, Structural)]
pub enum BuildError {
    /// The request's stream flag differs from the mode it is run in.
    IllegalStreamMode,
    /// A chat request gives no messages.
    FormatMissing,
    /// No request was given.
    RequestMissing,
    /// A message has the custom role.
    CustomRole,
    /// A message's role value names no role.
    UnknownRole(i32),
}

impl BuildError {
    /// The error's text.
    pub fn message(&self) -> (r: String)
        ensures
            r@ == build_error_text(*self),
    {
        match self {
            BuildError::IllegalStreamMode => string_of("illegal Stream mode for chat completion"),
            BuildError::FormatMissing => string_of("Chat messages format not specified"),
            BuildError::RequestMissing => string_of("Request not specified"),
            BuildError::CustomRole => string_of("Custom role not supported"),
            BuildError::UnknownRole(v) => {
                let mut m = string_of("unknown role value ");
                if *v < 0 {
                    push_str(&mut m, "-");
                    let n: u64 = (0i64 - (*v as i64)) as u64;
                    push_decimal(&mut m, n as usize);
                } else {
                    push_decimal(&mut m, *v as usize);
                }
                m
            },
        }
    }
}

/// The text of a build error.
pub open spec fn build_error_text(e: BuildError) -> Seq<char> {
    match e {
        BuildError::IllegalStreamMode => "illegal Stream mode for chat completion"@,
        BuildError::FormatMissing => "Chat messages format not specified"@,
        BuildError::RequestMissing => "Request not specified"@,
        BuildError::CustomRole => "Custom role not supported"@,
        BuildError::UnknownRole(v) => "unknown role value "@ + if v < 0 {
            "-"@ + decimal((0 - v) as nat)
        } else {
            decimal(v as nat)
        },
    }
}

/// The role a message is sent with, or why it cannot be.
pub open spec fn role_of(r: MessageRole) -> Result<TextRole, BuildError> {
    match r {
        MessageRole::User => Ok(TextRole::User),
        MessageRole::Assistant => Ok(TextRole::Assistant),
        MessageRole::System => Ok(TextRole::System),
        MessageRole::Tool => Ok(TextRole::Tool),
        MessageRole::Custom => Err(BuildError::CustomRole),
        MessageRole::Unknown(v) => Err(BuildError::UnknownRole(v)),
    }
}

/// The text parts of `parts`, joined by newlines.
pub open spec fn joined_text(parts: Seq<MessagePart>) -> Seq<char>
    decreases parts.len(),
{
    if parts.len() == 0 {
        Seq::empty()
    } else {
        let prev = joined_text(parts.drop_last());
        match parts.last() {
            MessagePart::Text(t) => if prev.len() == 0 {
                t@
            } else {
                prev + "\n"@ + t@
            },
            MessagePart::Other => prev,
        }
    }
}

/// The text a message is sent with: empty without content; `None`, and
/// the message is not sent, when its parts hold no text.
pub open spec fn message_text(c: Option<LocalMessageContent>) -> Option<Seq<char>> {
    match c {
        None => Some(Seq::empty()),
        Some(LocalMessageContent::Text(t)) => Some(t@),
        Some(LocalMessageContent::Parts(ps)) => {
            let j = joined_text(ps@);
            if j.len() == 0 {
                None
            } else {
                Some(j)
            }
        },
    }
}

/// The messages sent for chat messages `msgs`, in order, or the error of
/// the first message whose role cannot be sent.
pub open spec fn chat_messages(msgs: Seq<LocalChatMessage>) -> Result<Seq<(TextRole, Seq<char>)>, BuildError>
    decreases msgs.len(),
{
    if msgs.len() == 0 {
        Ok(Seq::empty())
    } else {
        match chat_messages(msgs.drop_last()) {
            Err(e) => Err(e),
            Ok(prev) => match role_of(msgs.last().role) {
                Err(e) => Err(e),
                Ok(r) => match message_text(msgs.last().content) {
                    Some(t) => Ok(prev.push((r, t))),
                    None => Ok(prev),
                },
            },
        }
    }
}

/// The views of sent messages.
pub open spec fn sent_view(v: Seq<(TextRole, String)>) -> Seq<(TextRole, Seq<char>)> {
    v.map_values(|m: (TextRole, String)| (m.0, m.1@))
}

/// `b`'s options are what the request's options set.
pub open spec fn options_built(opts: Option<RequestOptions>, b: Option<RequestPlan>) -> bool {
    match opts {
        None => b is None,
        Some(o) => b matches Some(p) && planned(o, p),
    }
}

/// What building `request` in stream mode `need_stream` gives.
pub open spec fn built(request: Option<LlmRequest>, need_stream: bool, r: Result<RequestBuild, BuildError>) -> bool {
    match request {
        None => r == Err::<RequestBuild, BuildError>(BuildError::RequestMissing),
        Some(LlmRequest::Completion(c)) => if c.stream != need_stream {
            r == Err::<RequestBuild, BuildError>(BuildError::IllegalStreamMode)
        } else {
            r matches Ok(b) && sent_view(b.messages@) == seq![(TextRole::User, c.prompt@)] && !b.logprobs
                && b.top_logprobs is None && options_built(c.options, b.options)
        },
        Some(LlmRequest::ChatCompletion(c)) => if c.stream != need_stream {
            r == Err::<RequestBuild, BuildError>(BuildError::IllegalStreamMode)
        } else {
            match c.messages_format {
                None => r == Err::<RequestBuild, BuildError>(BuildError::FormatMissing),
                Some(f) => {
                    let sent = match f {
                        MessagesFormat::PromptString(p) => Ok(seq![(TextRole::User, p@)]),
                        MessagesFormat::ChatMessages(ms) => chat_messages(ms@),
                    };
                    match sent {
                        Err(e) => r == Err::<RequestBuild, BuildError>(e),
                        Ok(v) => r matches Ok(b) && sent_view(b.messages@) == v && b.logprobs == c.logprobs
                            && b.top_logprobs == (if c.logprobs { c.top_logprobs } else { None })
                            && options_built(c.options, b.options),
                    }
                },
            }
        },
    }
}

/// `p` is what the options `opts` set on the backend request.
pub open spec fn planned(opts: RequestOptions, p: RequestPlan) -> bool {
    &&& p.max_len == opts.max_tokens
    &&& p.top_k == opts.top_k
    &&& p.stop_seqs == (if opts.stop_seqs@.len() > 0 { Some(opts.stop_seqs) } else { None })
    &&& p.n_choices == (if opts.n_choices > 1 { Some(opts.n_choices) } else { None })
    &&& p.adapters == (if opts.adapters@.len() > 0 { Some(opts.adapters) } else { None })
    &&& p.constraint == constraint_of(opts.grammar_config)
    &&& p.tools@ == parsed_tools(opts.tool_schemas@)
    &&& p.tool_choice == (if p.tools@.len() > 0 && opts.tool_choice is Some {
        Some(choice_of(opts.tool_choice->Some_0, opts.forced_tool))
    } else {
        None
    })
}

/// The `name`, `description` and `parameters` fields of an object, taken
/// out of its entries: for each, the first entry with that key.
fn function_fields(entries: Vec<(String, JsonValue)>) -> (r: (Option<JsonValue>, Option<JsonValue>, Option<JsonValue>))
    ensures
        r.0 == obj_get(entries@, "name"@),
        r.1 == obj_get(entries@, "description"@),
        r.2 == obj_get(entries@, "parameters"@),
{
    let ghost orig = entries@;
    let mut rest = entries;
    let mut name: Option<JsonValue> = None;
    let mut description: Option<JsonValue> = None;
    let mut parameters: Option<JsonValue> = None;
    while rest.len() > 0
        invariant
            obj_get(orig, "name"@) == (match name { Some(x) => Some(x), None => obj_get(rest@, "name"@) }),
            obj_get(orig, "description"@) == (match description {
                Some(x) => Some(x),
                None => obj_get(rest@, "description"@),
            }),
            obj_get(orig, "parameters"@) == (match parameters {
                Some(x) => Some(x),
                None => obj_get(rest@, "parameters"@),
            }),
        decreases rest@.len(),
    {
        let ghost before = rest@;
        let (k, v) = rest.remove(0);
        proof {
            assert(rest@ =~= before.drop_first());
            assert("name"@ != "description"@ && "name"@ != "parameters"@ && "description"@ != "parameters"@) by {
                reveal_strlit("name");
                reveal_strlit("description");
                reveal_strlit("parameters");
                assert("name"@.len() != "description"@.len());
                assert("name"@.len() != "parameters"@.len());
                assert("description"@[0] != "parameters"@[0]);
            }
        }
        let is_name = str_eq(k.as_str(), "name");
        let is_description = str_eq(k.as_str(), "description");
        let is_parameters = str_eq(k.as_str(), "parameters");
        if is_name && name.is_none() {
            name = Some(v);
        } else if is_description && description.is_none() {
            description = Some(v);
        } else if is_parameters && parameters.is_none() {
            parameters = Some(v);
        }
    }
    (name, description, parameters)
}

/// The function a JSON value defines, if any.
fn function_from(v: JsonValue) -> (r: Option<ToolFunction>)
    ensures
        r == function_of(v),
{
    match v {
        JsonValue::Object(entries) => {
            let (name, description, parameters) = function_fields(entries);
            let name = match name {
                Some(JsonValue::String(n)) => n,
                _ => return None,
            };
            let description = match description {
                None => None,
                Some(JsonValue::Null) => None,
                Some(JsonValue::String(d)) => Some(d),
                _ => return None,
            };
            let parameters = match parameters {
                None => None,
                Some(JsonValue::Null) => None,
                Some(JsonValue::Object(e)) => Some(JsonValue::Object(e)),
                _ => return None,
            };
            Some(ToolFunction { name, description, parameters })
        },
        _ => None,
    }
}

/// The functions the tool schemas define, in order.
fn tools_of(schemas: &Vec<String>) -> (r: Vec<ToolFunction>)
    ensures
        r@ == parsed_tools(schemas@),
{
    let mut tools: Vec<ToolFunction> = Vec::new();
    let mut i: usize = 0;
    while i < schemas.len()
        invariant
            i <= schemas@.len(),
            tools@ == parsed_tools(schemas@.take(i as int)),
        decreases schemas.len() - i,
    {
        proof {
            assert(schemas@.take(i + 1).drop_last() =~= schemas@.take(i as int));
            assert(schemas@.take(i + 1).last() == schemas@[i as int]);
        }
        match parse_json_text(schemas[i].as_str()) {
            Some(v) => match function_from(v) {
                Some(f) => tools.push(f),
                None => {},
            },
            None => {},
        }
        i = i + 1;
    }
    proof {
        assert(schemas@.take(i as int) =~= schemas@);
    }
    tools
}

/// The text parts of `parts`, joined by newlines.
fn join_parts(parts: Vec<MessagePart>) -> (r: String)
    ensures
        r@ == joined_text(parts@),
{
    let ghost ps = parts@;
    let mut out = String::new();
    let mut rest = parts;
    let mut done: Vec<MessagePart> = Vec::new();
    while rest.len() > 0
        invariant
            done@ + rest@ == ps,
            out@ == joined_text(done@),
        decreases rest@.len(),
    {
        let ghost before = rest@;
        let part = rest.remove(0);
        proof {
            assert(rest@ =~= before.drop_first());
        }
        let ghost prev_done = done@;
        match part {
            MessagePart::Text(t) => {
                if out.as_str().as_bytes().len() > 0 {
                    push_str(&mut out, "\n");
                }
                push_str(&mut out, t.as_str());
                done.push(MessagePart::Text(t));
            },
            MessagePart::Other => {
                done.push(MessagePart::Other);
            },
        }
        proof {
            assert(done@.drop_last() =~= prev_done);
            assert(done@ + rest@ =~= ps);
        }
    }
    proof {
        assert(done@ =~= ps);
    }
    out
}

/// The messages sent for chat messages `msgs`, or the first role error.
fn send_chat_messages(msgs: Vec<LocalChatMessage>) -> (r: Result<Vec<(TextRole, String)>, BuildError>)
    ensures
        match chat_messages(msgs@) {
            Ok(v) => r matches Ok(out) && sent_view(out@) == v,
            Err(e) => r == Err::<Vec<(TextRole, String)>, BuildError>(e),
        },
{
    let ghost ms = msgs@;
    let mut rest = msgs;
    let mut out: Vec<(TextRole, String)> = Vec::new();
    let ghost mut done: Seq<LocalChatMessage> = Seq::empty();
    proof {
        assert(sent_view(out@) =~= Seq::<(TextRole, Seq<char>)>::empty());
        assert(done + rest@ =~= ms);
    }
    while rest.len() > 0
        invariant
            ms == msgs@,
            done + rest@ == ms,
            chat_messages(done) == Ok::<Seq<(TextRole, Seq<char>)>, BuildError>(sent_view(out@)),
        decreases rest@.len(),
    {
        let ghost before = rest@;
        let m = rest.remove(0);
        let ghost prev = done;
        proof {
            assert(rest@ =~= before.drop_first());
            done = done.push(m);
            assert(done.drop_last() =~= prev);
            assert(done.last() == m);
            assert(done + rest@ =~= ms);
        }
        let role = match m.role {
            MessageRole::User => TextRole::User,
            MessageRole::Assistant => TextRole::Assistant,
            MessageRole::System => TextRole::System,
            MessageRole::Tool => TextRole::Tool,
            MessageRole::Custom => {
                proof {
                    lemma_chat_messages_error_stays(done, rest@, BuildError::CustomRole);
                    assert(done + rest@ =~= ms);
                }
                return Err(BuildError::CustomRole);
            },
            MessageRole::Unknown(v) => {
                proof {
                    lemma_chat_messages_error_stays(done, rest@, BuildError::UnknownRole(v));
                    assert(done + rest@ =~= ms);
                }
                return Err(BuildError::UnknownRole(v));
            },
        };
        let ghost out0 = out@;
        match m.content {
            None => {
                out.push((role, String::new()));
                proof {
                    assert(sent_view(out@) =~= sent_view(out0).push((role, Seq::<char>::empty())));
                }
            },
            Some(LocalMessageContent::Text(t)) => {
                let ghost tv = t@;
                out.push((role, t));
                proof {
                    assert(sent_view(out@) =~= sent_view(out0).push((role, tv)));
                }
            },
            Some(LocalMessageContent::Parts(ps)) => {
                let j = join_parts(ps);
                if j.as_str().as_bytes().len() > 0 {
                    let ghost jv = j@;
                    out.push((role, j));
                    proof {
                        assert(sent_view(out@) =~= sent_view(out0).push((role, jv)));
                    }
                }
            },
        }
    }
    proof {
        assert(done =~= ms);
    }
    Ok(out)
}

/// Once a prefix of chat messages fails, every longer one fails the same.
proof fn lemma_chat_messages_error_stays(done: Seq<LocalChatMessage>, rest: Seq<LocalChatMessage>, e: BuildError)
    requires
        chat_messages(done) == Err::<Seq<(TextRole, Seq<char>)>, BuildError>(e),
    ensures
        chat_messages(done + rest) == Err::<Seq<(TextRole, Seq<char>)>, BuildError>(e),
    decreases rest.len(),
{
    if rest.len() > 0 {
        lemma_chat_messages_error_stays(done, rest.drop_last(), e);
        assert((done + rest).drop_last() =~= done + rest.drop_last());
    } else {
        assert(done + rest =~= done);
    }
}

/// A turn of a local-model chat conversation.
#[derive(Debug)]
pub struct LocalChatTurn {
    pub role: ChatRole,
    pub content: String,
    /// The call a tool turn answers.
    pub tool_call_id: Option<String>,
}

/// One message sent to the local model.
#[derive(Debug)]
pub enum SendItem {
    Message(TextRole, String),
    /// A tool result answering call `call_id`.
    ToolResult { content: String, call_id: String },
}

/// The local-model request of a conversation: its messages, and the tools
/// offered, which the model may call as it chooses.
#[derive(Debug)]
pub struct LocalChatRequest {
    pub items: Vec<SendItem>,
    pub tools: Vec<ToolFunction>,
    /// `Auto` when tools are offered.
    pub tool_choice: Option<ToolChoicePlan>,
}

/// What a turn is sent as: a tool turn with a call id as a tool result;
/// otherwise a message with its role, an unspecified role sent as user.
pub open spec fn send_item_of(t: LocalChatTurn) -> SendItem {
    match t.role {
        ChatRole::Tool => match t.tool_call_id {
            Some(id) => SendItem::ToolResult { content: t.content, call_id: id },
            None => SendItem::Message(TextRole::Tool, t.content),
        },
        ChatRole::Assistant => SendItem::Message(TextRole::Assistant, t.content),
        ChatRole::System => SendItem::Message(TextRole::System, t.content),
        _ => SendItem::Message(TextRole::User, t.content),
    }
}

/// The request of a local-model conversation: one item per turn, in
/// order, and the tools with an `Auto` choice when there are any.
pub fn local_request_from_messages(turns: Vec<LocalChatTurn>, tools: Vec<ToolFunction>) -> (r: LocalChatRequest)
    ensures
        r.items@ == turns@.map_values(|t: LocalChatTurn| send_item_of(t)),
        r.tools == tools,
        r.tool_choice == (if tools@.len() > 0 { Some(ToolChoicePlan::Auto) } else { None::<ToolChoicePlan> }),
{
    let ghost ts = turns@;
    let mut rest = turns;
    let mut items: Vec<SendItem> = Vec::new();
    let ghost mut done: Seq<LocalChatTurn> = Seq::empty();
    proof {
        assert(items@ =~= done.map_values(|t: LocalChatTurn| send_item_of(t)));
        assert(done + rest@ =~= ts);
    }
    while rest.len() > 0
        invariant
            ts == turns@,
            done + rest@ == ts,
            items@ == done.map_values(|t: LocalChatTurn| send_item_of(t)),
        decreases rest@.len(),
    {
        let ghost before = rest@;
        let t = rest.remove(0);
        let ghost tv = t;
        proof {
            assert(rest@ =~= before.drop_first());
        }
        let item = match t.role {
            ChatRole::Tool => match t.tool_call_id {
                Some(id) => SendItem::ToolResult { content: t.content, call_id: id },
                None => SendItem::Message(TextRole::Tool, t.content),
            },
            ChatRole::Assistant => SendItem::Message(TextRole::Assistant, t.content),
            ChatRole::System => SendItem::Message(TextRole::System, t.content),
            _ => SendItem::Message(TextRole::User, t.content),
        };
        items.push(item);
        proof {
            done = done.push(tv);
            assert(done + rest@ =~= ts);
            assert(items@ =~= done.map_values(|t: LocalChatTurn| send_item_of(t)));
        }
    }
    proof {
        assert(done =~= ts);
    }
    let tool_choice = if tools.len() > 0 { Some(ToolChoicePlan::Auto) } else { None };
    LocalChatRequest { items, tools, tool_choice }
}

/// The request converter of the local-model backend.
pub trait LLMRequestConverter {
    /// What a request's options set: the token limit and top-k as given;
    /// stop sequences and adapters when there are any; the number of
    /// generations only above one; the grammar's constraint (a JSON schema
    /// only when its text is JSON); the tool schemas that define a
    /// function, in order; and, when there are tools and a choice was
    /// given, the tool choice with its fallbacks to `Auto`.
    fn apply_options(opts: RequestOptions) -> (p: RequestPlan)
        ensures
            planned(opts, p),
    {
        let RequestOptions {
            max_tokens,
            top_k,
            stop_seqs,
            n_choices,
            adapters,
            grammar_config,
            tool_schemas,
            tool_choice,
            forced_tool,
        } = opts;
        let stop_seqs = if stop_seqs.len() > 0 { Some(stop_seqs) } else { None };
        let adapters = if adapters.len() > 0 { Some(adapters) } else { None };
        let constraint = match grammar_config {
            None => None,
            Some(GrammarConfig::Json(t)) => match parse_json_text(t.as_str()) {
                Some(v) => Some(ConstraintPlan::JsonSchema(v)),
                None => None,
            },
            Some(GrammarConfig::Regex(t)) => Some(ConstraintPlan::Regex(t)),
            Some(GrammarConfig::Lark(t)) => Some(ConstraintPlan::Lark(t)),
        };
        let tools = tools_of(&tool_schemas);
        let tool_choice = if tools.len() > 0 {
            match tool_choice {
                Some(c) => Some(
                    match c {
                        ToolChoiceValue::NoTool => ToolChoicePlan::NoTool,
                        ToolChoiceValue::Auto => ToolChoicePlan::Auto,
                        ToolChoiceValue::ForcedTool => match forced_tool {
                            Some(f) => {
                                let ForcedTool { name, description, arguments } = f;
                                let parameters = if arguments.len() == 0 { None } else { Some(arguments) };
                                ToolChoicePlan::Tool { name, description, parameters }
                            },
                            None => ToolChoicePlan::Auto,
                        },
                        ToolChoiceValue::Unknown(_) => ToolChoicePlan::Auto,
                    },
                ),
                None => None,
            }
        } else {
            None
        };
        RequestPlan {
            max_len: max_tokens,
            top_k,
            stop_seqs,
            n_choices: if n_choices > 1 { Some(n_choices) } else { None },
            adapters,
            constraint,
            tools,
            tool_choice,
        }
    }

    /// The messages, log-probability settings and option plan a request
    /// sends. Fails when no request is given, when its stream flag differs
    /// from `need_stream`, when a chat request gives no messages, or at the
    /// first message whose role cannot be sent.
    fn build_request(request: Option<LlmRequest>, need_stream: bool) -> (r: Result<RequestBuild, BuildError>)
        ensures
            built(request, need_stream, r),
    {
        match request {
            None => Err(BuildError::RequestMissing),
            Some(LlmRequest::Completion(c)) => {
                if c.stream != need_stream {
                    return Err(BuildError::IllegalStreamMode);
                }
                let CompletionRequest { prompt, stream: _, options } = c;
                let ghost pv = prompt@;
                let mut messages: Vec<(TextRole, String)> = Vec::new();
                messages.push((TextRole::User, prompt));
                proof {
                    assert(sent_view(messages@) =~= seq![(TextRole::User, pv)]);
                }
                let options = match options {
                    Some(o) => Some(Self::apply_options(o)),
                    None => None,
                };
                Ok(RequestBuild { messages, logprobs: false, top_logprobs: None, options })
            },
            Some(LlmRequest::ChatCompletion(c)) => {
                if c.stream != need_stream {
                    return Err(BuildError::IllegalStreamMode);
                }
                let ChatCompletionRequest { messages_format, stream: _, logprobs, top_logprobs, options } = c;
                let messages = match messages_format {
                    None => return Err(BuildError::FormatMissing),
                    Some(MessagesFormat::PromptString(p)) => {
                        let ghost pv = p@;
                        let mut v: Vec<(TextRole, String)> = Vec::new();
                        v.push((TextRole::User, p));
                        proof {
                            assert(sent_view(v@) =~= seq![(TextRole::User, pv)]);
                        }
                        v
                    },
                    Some(MessagesFormat::ChatMessages(ms)) => match send_chat_messages(ms) {
                        Ok(v) => v,
                        Err(e) => return Err(e),
                    },
                };
                let options = match options {
                    Some(o) => Some(Self::apply_options(o)),
                    None => None,
                };
                Ok(
                    RequestBuild {
                        messages,
                        logprobs,
                        top_logprobs: if logprobs { top_logprobs } else { None },
                        options,
                    },
                )
            },
        }
    }
}

/// The request converter with the default conversions.
#[derive(Debug, Clone, Copy, Default)]
pub struct DefaultLLMRequestConverter;

impl LLMRequestConverter for DefaultLLMRequestConverter {}

} // verus!
