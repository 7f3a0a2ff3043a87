//! The chat request model that the tool-calling rules read: roles, message
//! contents, function options and the chat arguments, each with a view over
//! plain sequences.

use vstd::prelude::*;

verus! {

/// The role of a chat message.
#[derive(Debug, Clone, Copy, PartialEq, Eq, Structural)]
pub enum ChatRole {
    Unspecified,
    System,
    User,
    Assistant,
    Tool,
}

/// A tool call made by the assistant.
#[derive(Debug, Clone)]
pub struct ToolCall {
    pub call_id: String,
    pub fn_name: String,
    pub fn_arguments: String,
}

/// A request from the client to execute a tool call (manual mode).
#[derive(Debug, Clone)]
pub struct ToolExecutionRequest {
    pub call_id: String,
    pub fn_name: String,
    pub fn_arguments: String,
}

/// The client's result of one tool call.
#[derive(Debug, Clone)]
pub struct ToolResult {
    pub call_id: String,
    pub fn_name: String,
    pub content: String,
    pub is_error: bool,
}

/// An image attached to a message, by URL or as base64 data.
#[derive(Debug, Clone)]
pub struct ImageContent {
    pub content_type: String,
    pub url: String,
    pub base64: String,
}

/// The content of a chat message.
#[derive(Debug, Clone)]
pub enum MessageContent {
    Text(String),
    Image(ImageContent),
    ToolCalls(Vec<ToolCall>),
    ToolExecutionRequests(Vec<ToolExecutionRequest>),
    ToolResults(Vec<ToolResult>),
}

/// One message of a conversation.
#[derive(Debug, Clone)]
pub struct ChatMessage {
    pub role: ChatRole,
    pub content: Option<MessageContent>,
}

/// The tool-calling options of a chat request.
#[derive(Debug, Clone, Default)]
pub struct FunctionOptions {
    pub use_function_calling: bool,
    pub use_runners_as_function: Option<bool>,
    pub use_workers_as_function: Option<bool>,
    pub function_set_name: Option<String>,
    pub is_auto_calling: Option<bool>,
    pub auto_select_function_set: Option<bool>,
    pub client_tools_json: Option<String>,
}

/// The parts of a chat request that the tool-calling rules read or rewrite.
#[derive(Debug, Clone, Default)]
pub struct LlmChatArgs {
    pub model: Option<String>,
    pub messages: Vec<ChatMessage>,
    pub function_options: Option<FunctionOptions>,
    pub json_schema: Option<String>,
}

/// View of a tool call, a tool execution request or a tool result.
pub struct ToolCallView {
    pub call_id: Seq<char>,
    pub fn_name: Seq<char>,
    pub fn_arguments: Seq<char>,
}

/// View of a tool result.
pub struct ToolResultView {
    pub call_id: Seq<char>,
    pub fn_name: Seq<char>,
    pub content: Seq<char>,
    pub is_error: bool,
}

/// View of a message content.
pub enum ContentView {
    Text(Seq<char>),
    Image(Seq<char>, Seq<char>, Seq<char>),
    ToolCalls(Seq<ToolCallView>),
    ToolExecutionRequests(Seq<ToolCallView>),
    ToolResults(Seq<ToolResultView>),
}

/// View of a chat message.
pub struct MessageView {
    pub role: ChatRole,
    pub content: Option<ContentView>,
}

impl View for ToolCall {
    type V = ToolCallView;

    open spec fn view(&self) -> ToolCallView {
        ToolCallView { call_id: self.call_id@, fn_name: self.fn_name@, fn_arguments: self.fn_arguments@ }
    }
}

impl View for ToolExecutionRequest {
    type V = ToolCallView;

    open spec fn view(&self) -> ToolCallView {
        ToolCallView { call_id: self.call_id@, fn_name: self.fn_name@, fn_arguments: self.fn_arguments@ }
    }
}

impl View for ToolResult {
    type V = ToolResultView;

    open spec fn view(&self) -> ToolResultView {
        ToolResultView {
            call_id: self.call_id@,
            fn_name: self.fn_name@,
            content: self.content@,
            is_error: self.is_error,
        }
    }
}

/// The views of a sequence of tool calls.
pub open spec fn calls_view(s: Seq<ToolCall>) -> Seq<ToolCallView> {
    s.map_values(|c: ToolCall| c@)
}

/// The views of a sequence of tool execution requests.
pub open spec fn requests_view(s: Seq<ToolExecutionRequest>) -> Seq<ToolCallView> {
    s.map_values(|r: ToolExecutionRequest| r@)
}

/// The views of a sequence of tool results.
pub open spec fn results_view(s: Seq<ToolResult>) -> Seq<ToolResultView> {
    s.map_values(|r: ToolResult| r@)
}

impl View for MessageContent {
    type V = ContentView;

    open spec fn view(&self) -> ContentView {
        match self {
            MessageContent::Text(t) => ContentView::Text(t@),
            MessageContent::Image(i) => ContentView::Image(i.content_type@, i.url@, i.base64@),
            MessageContent::ToolCalls(c) => ContentView::ToolCalls(calls_view(c@)),
            MessageContent::ToolExecutionRequests(r) => ContentView::ToolExecutionRequests(
                requests_view(r@),
            ),
            MessageContent::ToolResults(r) => ContentView::ToolResults(results_view(r@)),
        }
    }
}

/// View of an optional message content.
pub open spec fn content_view(c: Option<MessageContent>) -> Option<ContentView> {
    match c {
        Some(c) => Some(c@),
        None => None,
    }
}

impl View for ChatMessage {
    type V = MessageView;

    open spec fn view(&self) -> MessageView {
        MessageView { role: self.role, content: content_view(self.content) }
    }
}

/// The views of a sequence of messages.
pub open spec fn messages_view(s: Seq<ChatMessage>) -> Seq<MessageView> {
    s.map_values(|m: ChatMessage| m@)
}

/// View of an optional string.
pub open spec fn opt_str_view(s: Option<String>) -> Option<Seq<char>> {
    match s {
        Some(t) => Some(t@),
        None => None,
    }
}

/// View of the tool-calling options.
pub struct FunctionOptionsView {
    pub use_function_calling: bool,
    pub use_runners_as_function: Option<bool>,
    pub use_workers_as_function: Option<bool>,
    pub function_set_name: Option<Seq<char>>,
    pub is_auto_calling: Option<bool>,
    pub auto_select_function_set: Option<bool>,
    pub client_tools_json: Option<Seq<char>>,
}

impl View for FunctionOptions {
    type V = FunctionOptionsView;

    open spec fn view(&self) -> FunctionOptionsView {
        FunctionOptionsView {
            use_function_calling: self.use_function_calling,
            use_runners_as_function: self.use_runners_as_function,
            use_workers_as_function: self.use_workers_as_function,
            function_set_name: opt_str_view(self.function_set_name),
            is_auto_calling: self.is_auto_calling,
            auto_select_function_set: self.auto_select_function_set,
            client_tools_json: opt_str_view(self.client_tools_json),
        }
    }
}

/// View of optional tool-calling options.
pub open spec fn options_view(o: Option<FunctionOptions>) -> Option<FunctionOptionsView> {
    match o {
        Some(f) => Some(f@),
        None => None,
    }
}

/// View of the chat arguments.
pub struct ChatArgsView {
    pub model: Option<Seq<char>>,
    pub messages: Seq<MessageView>,
    pub function_options: Option<FunctionOptionsView>,
    pub json_schema: Option<Seq<char>>,
}

impl View for LlmChatArgs {
    type V = ChatArgsView;

    open spec fn view(&self) -> ChatArgsView {
        ChatArgsView {
            model: opt_str_view(self.model),
            messages: messages_view(self.messages@),
            function_options: options_view(self.function_options),
            json_schema: opt_str_view(self.json_schema),
        }
    }
}

} // verus!
