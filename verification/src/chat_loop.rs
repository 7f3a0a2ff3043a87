//! The decisions of a chat request with tools: whether the request carries
//! tool executions to perform, and, round by round, whether the model's
//! tool calls are handed to the client, executed, or end the conversation.
//! The caller performs the model requests and tool executions.

use vstd::prelude::*;
use crate::chat_model::{LlmChatArgs, ToolExecutionRequest, options_view, requests_view};
use crate::conversion::{
    debug_str_list, selected_options, strip_selector_prefix, first_selected, names_view, non_selector_calls, AutoSelectFailed, AutoSelectResult,
    ToolCallName, ToolConverter,
};
use crate::tool_messages::all_pending_requests;
use crate::chat_model::{
    calls_view, results_view, ChatMessage, ChatRole, ContentView, MessageContent, MessageView,
    ToolCall, ToolCallView, ToolResult, ToolResultView, messages_view,
};
use crate::provider_messages::copy_calls;
use crate::text::{chars_of, contains_chars, decimal, push_decimal, push_str, seq_contains, string_of};
use crate::utf8_len::utf8_len;

verus! {

/// The deepest chain of automatic tool-call rounds a request may take.
pub const MAX_TOOL_CALL_DEPTH: u32 = 10;

/// What a chat request asks for.
#[derive(Debug)]
pub enum ChatRequestPlan {
    /// The client sent tool executions to perform (manual mode): execute
    /// them and answer with their results.
    ExecuteRequested(Vec<ToolExecutionRequest>),
    /// Ask the model; `is_auto_calling` tells whether its tool calls are
    /// executed by the runner.
    Chat { is_auto_calling: bool },
}

/// The requested auto-calling switch: `is_auto_calling` of the function
/// options, off when unset.
pub open spec fn requested_auto_calling(args: LlmChatArgs) -> bool {
    match options_view(args.function_options) {
        Some(f) => f.is_auto_calling == Some(true),
        None => false,
    }
}

/// Decide what a chat request asks for: the tool executions that its TOOL
/// messages carry, when there are any, else a model request.
pub fn plan_chat_request(args: &LlmChatArgs) -> (r: ChatRequestPlan)
    ensures
        all_pending_requests(messages_view(args.messages@)).len() > 0 ==> (r matches ChatRequestPlan::ExecuteRequested(v)
            && requests_view(v@) == all_pending_requests(messages_view(args.messages@))),
        all_pending_requests(messages_view(args.messages@)).len() == 0 ==> r == (ChatRequestPlan::Chat {
            is_auto_calling: requested_auto_calling(*args),
        }),
{
    match ToolConverter::extract_tool_execution_requests(args) {
        Some(v) => ChatRequestPlan::ExecuteRequested(v),
        None => {
            let auto = match &args.function_options {
                Some(fo) => match fo.is_auto_calling {
                    Some(b) => b,
                    None => false,
                },
                None => false,
            };
            ChatRequestPlan::Chat { is_auto_calling: auto }
        },
    }
}

/// What to do with one model answer.
#[derive(Debug)]
pub enum ChatRound<T> {
    /// The answer is final: it has no tool calls, or only selector calls.
    Final,
    /// Manual mode: hand these tool calls to the client.
    Pending(Vec<T>),
    /// Auto mode: execute these calls, add them and their results to the
    /// conversation, and ask the model again.
    Execute(Vec<T>),
}

/// The tool-call rounds of one chat request.
#[derive(Debug)]
pub struct ToolCallLoop {
    depth: u32,
    auto_calling: bool,
}

impl ToolCallLoop {
    /// The number of automatic rounds taken so far.
    pub closed spec fn depth(&self) -> nat {
        self.depth as nat
    }

    /// Whether tool calls are executed by the runner.
    pub closed spec fn auto_calling(&self) -> bool {
        self.auto_calling
    }

    /// The rounds of a request. With auto-selection the first request runs
    /// in manual mode, so that the selector call comes back to the caller.
    pub fn new(is_auto_calling: bool, is_auto_select: bool) -> (l: Self)
        ensures
            l.depth() == 0,
            l.auto_calling() == (!is_auto_select && is_auto_calling),
    {
        ToolCallLoop { depth: 0, auto_calling: !is_auto_select && is_auto_calling }
    }

    /// Whether another model request may be made: refused once
    /// `MAX_TOOL_CALL_DEPTH` automatic rounds were taken.
    pub fn may_request(&self) -> (r: bool)
        ensures
            r == (self.depth() < MAX_TOOL_CALL_DEPTH),
    {
        self.depth < MAX_TOOL_CALL_DEPTH
    }

    /// Decide on the tool calls of a model answer. Without calls the answer
    /// is final; in manual mode the calls go to the client; in auto mode
    /// the selector calls are dropped, and the rest, if any, are executed,
    /// which takes one more round.
    pub fn on_answer<T: ToolCallName>(&mut self, tool_calls: Vec<T>) -> (r: ChatRound<T>)
        requires
            old(self).depth() < MAX_TOOL_CALL_DEPTH,
        ensures
            final(self).auto_calling() == old(self).auto_calling(),
            tool_calls@.len() == 0 ==> r is Final,
            tool_calls@.len() > 0 && !old(self).auto_calling() ==> (r matches ChatRound::Pending(v)
                && v@ == tool_calls@),
            tool_calls@.len() > 0 && old(self).auto_calling() && non_selector_calls(tool_calls@).len()
                == 0 ==> r is Final,
            tool_calls@.len() > 0 && old(self).auto_calling() && non_selector_calls(tool_calls@).len()
                > 0 ==> (r matches ChatRound::Execute(v) && v@ == non_selector_calls(tool_calls@)),
            r is Execute ==> final(self).depth() == old(self).depth() + 1,
            !(r is Execute) ==> final(self).depth() == old(self).depth(),
    {
        if tool_calls.len() == 0 {
            return ChatRound::Final;
        }
        if !self.auto_calling {
            return ChatRound::Pending(tool_calls);
        }
        let calls = ToolConverter::filter_selector_tools(tool_calls);
        if calls.len() == 0 {
            return ChatRound::Final;
        }
        self.depth = self.depth + 1;
        ChatRound::Execute(calls)
    }
}

impl ToolCallLoop {
    /// The JSON schema an Ollama request of this round is sent with: the
    /// request's own in the first round, none in the rounds that follow
    /// tool execution.
    pub fn ollama_round_schema<'a>(&self, json_schema: Option<&'a str>) -> (r: Option<&'a str>)
        ensures
            r == (if self.depth() == 0 { json_schema } else { None }),
    {
        if self.depth == 0 {
            json_schema
        } else {
            None
        }
    }
}

/// Why an Ollama chat call failed, judged from the error's text.
pub open spec fn ollama_error_details(err: Seq<char>) -> Seq<char> {
    if seq_contains(err, "Connection refused"@) {
        "Ollama server connection refused. Check if Ollama is running and accessible."@
    } else if seq_contains(err, "timeout"@) {
        "Ollama request timeout. Consider increasing timeout or checking server load."@
    } else if seq_contains(err, "invalid JSON schema"@) {
        "Invalid JSON schema format. Check if the schema is compatible with Ollama."@
    } else {
        "Unknown Ollama API error"@
    }
}

/// The request an Ollama chat error is reported with: the model, the
/// number of tools, and the schema's size in bytes or `no_schema`.
pub open spec fn ollama_error_context(model: Seq<char>, tools: nat, schema: Option<Seq<char>>) -> Seq<char> {
    "model: "@ + model + ", tools: "@ + decimal(tools) + ", "@ + match schema {
        Some(s) => "schema_size: "@ + decimal(utf8_len(s)),
        None => "no_schema"@,
    }
}

/// The message of a failed Ollama chat call, from the error's text and
/// debug form and the request it failed on:
/// `Chat API error: <details> (<debug>) [<context>]`.
pub fn ollama_chat_error_message(
    error_text: &str,
    error_debug: &str,
    model: &str,
    tool_count: usize,
    json_schema: Option<&str>,
) -> (m: String)
    ensures
        m@ == "Chat API error: "@ + ollama_error_details(error_text@) + " ("@ + error_debug@ + ") ["@
            + ollama_error_context(model@, tool_count as nat, match json_schema {
            Some(s) => Some(s@),
            None => None,
        }) + "]"@,
{
    let err = chars_of(error_text);
    let mut m = string_of("Chat API error: ");
    let ghost m0 = m@;
    if contains_chars(&err, &chars_of("Connection refused")) {
        push_str(&mut m, "Ollama server connection refused. Check if Ollama is running and accessible.");
    } else if contains_chars(&err, &chars_of("timeout")) {
        push_str(&mut m, "Ollama request timeout. Consider increasing timeout or checking server load.");
    } else if contains_chars(&err, &chars_of("invalid JSON schema")) {
        push_str(&mut m, "Invalid JSON schema format. Check if the schema is compatible with Ollama.");
    } else {
        push_str(&mut m, "Unknown Ollama API error");
    }
    assert(m@ == m0 + ollama_error_details(error_text@));
    push_str(&mut m, " (");
    push_str(&mut m, error_debug);
    push_str(&mut m, ") [");
    let ghost before_ctx = m@;
    push_str(&mut m, "model: ");
    push_str(&mut m, model);
    push_str(&mut m, ", tools: ");
    push_decimal(&mut m, tool_count);
    push_str(&mut m, ", ");
    match json_schema {
        Some(s) => {
            let n: usize = s.as_bytes().len();
            assert(utf8_len(s@) == n);
            push_str(&mut m, "schema_size: ");
            push_decimal(&mut m, n);
        },
        None => {
            push_str(&mut m, "no_schema");
        },
    }
    let ghost ctx = ollama_error_context(model@, tool_count as nat, match json_schema {
        Some(s) => Some(s@),
        None => None,
    });
    assert(m@ =~= before_ctx + ctx);
    push_str(&mut m, "]");
    m
}

/// What becomes of tool calls that reached the top of a request unexecuted.
#[derive(Debug)]
pub enum PendingOutcome<T> {
    /// Auto-selection picked a FunctionSet: run the request again with
    /// these arguments.
    Restart(AutoSelectResult),
    /// Hand the tool calls to the client for approval.
    ReturnToClient(Vec<T>),
    /// Auto-selection was on but the model called no selector tool.
    Failed(AutoSelectFailed),
}

/// Decide on unexecuted tool calls: in an auto-select round the selector
/// call picks the FunctionSet to run with; otherwise the calls go to the
/// client.
pub fn on_pending_tool_calls<T: ToolCallName>(
    tool_calls: Vec<T>,
    auto_select_names: &Vec<String>,
    original_args: LlmChatArgs,
) -> (r: PendingOutcome<T>)
    ensures
        auto_select_names@.len() == 0 ==> (r matches PendingOutcome::ReturnToClient(v) && v@
            == tool_calls@),
        auto_select_names@.len() > 0 ==> ((r is Restart) <==> exists|i: int|
            first_selected(tool_calls@, names_view(auto_select_names@), i)),
        auto_select_names@.len() > 0 ==> !(r is ReturnToClient),
        r matches PendingOutcome::Restart(res) ==> {
            let i = choose|i: int| first_selected(tool_calls@, names_view(auto_select_names@), i);
            let set_name = strip_selector_prefix(tool_calls@[i].spec_tool_name());
            &&& res.selected_set_name@ == set_name
            &&& res.second_args@.model == original_args@.model
            &&& res.second_args@.messages == original_args@.messages
            &&& res.second_args@.json_schema == original_args@.json_schema
            &&& res.second_args@.function_options == Some(
                selected_options(original_args@.function_options, set_name),
            )
        },
        r matches PendingOutcome::Failed(e) ==> {
            &&& names_view(e.attempted_names@) == tool_calls@.map_values(|t: T| t.spec_tool_name())
            &&& e.message@ == "Auto-select failed: LLM called "@ + debug_str_list(
                names_view(e.attempted_names@),
            ) + " instead of selector tools"@
        },
{
    if auto_select_names.len() == 0 {
        return PendingOutcome::ReturnToClient(tool_calls);
    }
    match ToolConverter::evaluate_auto_select(tool_calls.as_slice(), auto_select_names, original_args, "") {
        Ok(res) => PendingOutcome::Restart(res),
        Err(e) => PendingOutcome::Failed(e),
    }
}

/// The messages of `ms` that are not system messages, in order.
pub open spec fn without_system(ms: Seq<MessageView>) -> Seq<MessageView>
    decreases ms.len(),
{
    if ms.len() == 0 {
        Seq::empty()
    } else {
        let rest = without_system(ms.drop_last());
        if ms.last().role == ChatRole::System {
            rest
        } else {
            rest.push(ms.last())
        }
    }
}

/// The conversation sent to the model: with a configured system prompt,
/// every system message is dropped and the prompt goes first.
pub open spec fn with_system_prompt(ms: Seq<MessageView>, prompt: Option<Seq<char>>) -> Seq<MessageView> {
    match prompt {
        None => ms,
        Some(p) => seq![MessageView { role: ChatRole::System, content: Some(ContentView::Text(p)) }]
            + without_system(ms),
    }
}

/// Apply the configured system prompt: when there is one, drop every system
/// message and put the prompt first as the system message.
pub fn apply_system_prompt(messages: Vec<ChatMessage>, system_prompt: Option<&str>) -> (r: Vec<
    ChatMessage,
>)
    ensures
        messages_view(r@) == with_system_prompt(
            messages_view(messages@),
            match system_prompt {
                Some(p) => Some(p@),
                None => None,
            },
        ),
{
    match system_prompt {
        None => messages,
        Some(p) => {
            let ghost all = messages_view(messages@);
            let mut out: Vec<ChatMessage> = Vec::new();
            out.push(ChatMessage { role: ChatRole::System, content: Some(MessageContent::Text(string_of(p))) });
            let ghost head = messages_view(out@);
            let mut rest = messages;
            let ghost orig = rest@;
            let mut taken: usize = 0;
            let total = rest.len();
            while rest.len() > 0
                invariant
                    all == messages_view(orig),
                    total == orig.len(),
                    taken + rest@.len() == total,
                    rest@ == orig.skip(taken as int),
                    messages_view(out@) == head + without_system(all.take(taken as int)),
                    head.len() == 1,
                decreases rest@.len(),
            {
                let ghost i = taken as int;
                let m = rest.remove(0);
                proof {
                    assert(m == orig[i]);
                    assert(all.take(i + 1).drop_last() =~= all.take(i));
                    assert(all.take(i + 1).last() == m@);
                }
                let ghost prev = messages_view(out@);
                if m.role != ChatRole::System {
                    out.push(m);
                    proof {
                        assert(messages_view(out@) =~= prev.push(m@));
                    }
                }
                taken = taken + 1;
            }
            proof {
                assert(all.take(taken as int) =~= all);
            }
            out
        },
    }
}

/// The text a tool call's outcome is reported to the model with: the
/// tool's output, or the error naming the tool.
pub open spec fn tool_outcome_text(fn_name: Seq<char>, outcome: Result<Seq<char>, Seq<char>>) -> Seq<char> {
    match outcome {
        Ok(s) => s,
        Err(e) => "Error executing tool '"@ + fn_name + "': "@ + e,
    }
}

/// The messages one executed round adds: the assistant's tool calls, then
/// one tool message per call with its call id, name and outcome text.
pub open spec fn tool_round_messages(calls: Seq<ToolCallView>, outcomes: Seq<Result<Seq<char>, Seq<char>>>) -> Seq<
    MessageView,
> {
    seq![MessageView { role: ChatRole::Assistant, content: Some(ContentView::ToolCalls(calls)) }]
        + Seq::new(
        calls.len(),
        |k: int|
            MessageView {
                role: ChatRole::Tool,
                content: Some(
                    ContentView::ToolResults(
                        seq![ToolResultView {
                            call_id: calls[k].call_id,
                            fn_name: calls[k].fn_name,
                            content: tool_outcome_text(calls[k].fn_name, outcomes[k]),
                            is_error: false,
                        }],
                    ),
                ),
            },
    )
}

/// A recorded round first appends the assistant message carrying exactly
/// the executed calls, in order, then one tool message per call answering
/// that call: its call id and name, and the call's result, or
/// `Error executing tool '<name>': <error>` when it failed. Every result
/// answers a call that the assistant message holds.
pub proof fn law_tool_round_answers_its_calls(calls: Seq<ToolCallView>, outcomes: Seq<Result<Seq<char>, Seq<char>>>)
    requires
        outcomes.len() == calls.len(),
    ensures
        tool_round_messages(calls, outcomes).len() == calls.len() + 1,
        tool_round_messages(calls, outcomes)[0].role == ChatRole::Assistant,
        tool_round_messages(calls, outcomes)[0].content == Some(ContentView::ToolCalls(calls)),
        forall|k: int| 0 <= k < calls.len() ==> {
            let m = #[trigger] tool_round_messages(calls, outcomes)[k + 1];
            &&& m.role == ChatRole::Tool
            &&& m.content matches Some(ContentView::ToolResults(rs)) && rs.len() == 1 && {
                &&& rs[0].call_id == calls[k].call_id
                &&& rs[0].fn_name == calls[k].fn_name
                &&& (outcomes[k] matches Ok(t) ==> rs[0].content == t)
                &&& (outcomes[k] matches Err(e) ==> rs[0].content == "Error executing tool '"@ + calls[k].fn_name
                    + "': "@ + e)
                &&& exists|j: int| 0 <= j < calls.len() && #[trigger] calls[j].call_id == rs[0].call_id
            }
        },
{
    let m = tool_round_messages(calls, outcomes);
    assert forall|k: int| 0 <= k < calls.len() implies {
        let mk = #[trigger] tool_round_messages(calls, outcomes)[k + 1];
        &&& mk.role == ChatRole::Tool
        &&& mk.content matches Some(ContentView::ToolResults(rs)) && rs.len() == 1 && {
            &&& rs[0].call_id == calls[k].call_id
            &&& rs[0].fn_name == calls[k].fn_name
            &&& (outcomes[k] matches Ok(t) ==> rs[0].content == t)
            &&& (outcomes[k] matches Err(e) ==> rs[0].content == "Error executing tool '"@ + calls[k].fn_name
                + "': "@ + e)
            &&& exists|j: int| 0 <= j < calls.len() && #[trigger] calls[j].call_id == rs[0].call_id
        }
    } by {
        assert(m[k + 1].content == Some(ContentView::ToolResults(seq![ToolResultView {
            call_id: calls[k].call_id,
            fn_name: calls[k].fn_name,
            content: tool_outcome_text(calls[k].fn_name, outcomes[k]),
            is_error: false,
        }])));
        assert(calls[k].call_id == calls[k].call_id);
    }
}

/// The views of tool outcomes.
pub open spec fn outcomes_view(o: Seq<Result<String, String>>) -> Seq<Result<Seq<char>, Seq<char>>> {
    o.map_values(
        |r: Result<String, String>|
            match r {
                Ok(s) => Ok(s@),
                Err(e) => Err(e@),
            },
    )
}

/// Record an executed round: append the assistant's tool calls and, per
/// call in order, a tool message with its outcome (`outcomes[k]` is what
/// running `calls[k]` gave).
pub fn push_tool_round(messages: &mut Vec<ChatMessage>, calls: Vec<ToolCall>, outcomes: Vec<Result<String, String>>)
    requires
        outcomes@.len() == calls@.len(),
    ensures
        messages_view(final(messages)@) == messages_view(old(messages)@) + tool_round_messages(
            calls_view(calls@),
            outcomes_view(outcomes@),
        ),
{
    let ghost start = messages_view(messages@);
    let ghost want = tool_round_messages(calls_view(calls@), outcomes_view(outcomes@));
    let copied = copy_calls(&calls);
    messages.push(ChatMessage { role: ChatRole::Assistant, content: Some(MessageContent::ToolCalls(copied)) });
    proof {
        assert(messages_view(messages@) =~= start + want.take(1));
    }
    let mut k: usize = 0;
    while k < calls.len()
        invariant
            k <= calls@.len(),
            outcomes@.len() == calls@.len(),
            want == tool_round_messages(calls_view(calls@), outcomes_view(outcomes@)),
            messages_view(messages@) == start + want.take(k + 1),
        decreases calls.len() - k,
    {
        let c = &calls[k];
        let text = match &outcomes[k] {
            Ok(s) => s.clone(),
            Err(e) => {
                let mut m = string_of("Error executing tool '");
                push_str(&mut m, c.fn_name.as_str());
                push_str(&mut m, "': ");
                push_str(&mut m, e.as_str());
                m
            },
        };
        let result = ToolResult { call_id: c.call_id.clone(), fn_name: c.fn_name.clone(), content: text, is_error: false };
        let mut results: Vec<ToolResult> = Vec::new();
        results.push(result);
        let ghost prev = messages_view(messages@);
        messages.push(ChatMessage { role: ChatRole::Tool, content: Some(MessageContent::ToolResults(results)) });
        proof {
            assert(calls_view(calls@)[k as int] == calls@[k as int]@);
            assert(outcomes_view(outcomes@)[k as int] == match outcomes@[k as int] {
                Ok(s) => Ok::<Seq<char>, Seq<char>>(s@),
                Err(e) => Err::<Seq<char>, Seq<char>>(e@),
            });
            assert(results_view(results@) =~= seq![result@]);
            assert(want.take(k + 2) =~= want.take(k + 1).push(want[k + 1]));
            assert(messages_view(messages@) =~= prev.push(want[k + 1]));
        }
        k = k + 1;
    }
    proof {
        assert(want.take(k + 1) =~= want);
    }
}

/// The text a requested (manual-mode) tool execution is answered with: the
/// tool's output, or `Error: ` and the error.
pub fn requested_tool_result_text(outcome: Result<String, String>) -> (r: String)
    ensures
        r@ == match outcome {
            Ok(s) => s@,
            Err(e) => "Error: "@ + e@,
        },
{
    match outcome {
        Ok(s) => s,
        Err(e) => {
            let mut m = string_of("Error: ");
            push_str(&mut m, e.as_str());
            m
        },
    }
}

} // verus!
