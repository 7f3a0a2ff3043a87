//! Rules over the tool messages of a conversation: answering a pending
//! tool execution request, and resolving and validating client tool results.

use vstd::prelude::*;
use crate::chat_model::{
    ChatMessage, ChatRole, ContentView, LlmChatArgs, MessageContent, MessageView, ToolCall,
    ToolCallView, ToolExecutionRequest, ToolResult, ToolResultView, calls_view, messages_view,
    requests_view, results_view,
};
use crate::conversion::{is_selector_name, ResolvedToolResult, ToolConverter};
use crate::text::{decimal, push_decimal, push_str, str_eq, string_of};

verus! {

/// Some entry of `reqs` has call id `id`.
pub open spec fn has_call_id(reqs: Seq<ToolCallView>, id: Seq<char>) -> bool {
    exists|k: int| 0 <= k < reqs.len() && #[trigger] reqs[k].call_id == id
}

/// The pending tool execution requests a message carries (none unless its
/// content is a request list).
pub open spec fn pending_requests(m: MessageView) -> Seq<ToolCallView> {
    match m.content {
        Some(ContentView::ToolExecutionRequests(r)) => r,
        _ => Seq::empty(),
    }
}

/// `m` is a TOOL message whose pending requests include call id `id`.
pub open spec fn carries_request(m: MessageView, id: Seq<char>) -> bool {
    m.role == ChatRole::Tool && has_call_id(pending_requests(m), id)
}

/// `reqs` without the entries whose call id is `id`, in order.
pub open spec fn without_call(reqs: Seq<ToolCallView>, id: Seq<char>) -> Seq<ToolCallView>
    decreases reqs.len(),
{
    if reqs.len() == 0 {
        Seq::empty()
    } else {
        let rest = without_call(reqs.drop_last(), id);
        if reqs.last().call_id == id {
            rest
        } else {
            rest.push(reqs.last())
        }
    }
}

/// `i` is the first message of `msgs` that carries request `id`.
pub open spec fn first_carrier(msgs: Seq<MessageView>, id: Seq<char>, i: int) -> bool {
    &&& 0 <= i < msgs.len()
    &&& carries_request(msgs[i], id)
    &&& forall|k: int| 0 <= k < i ==> !carries_request(#[trigger] msgs[k], id)
}

/// A TOOL message with text content `t`.
pub open spec fn tool_text_message(t: Seq<char>) -> MessageView {
    MessageView { role: ChatRole::Tool, content: Some(ContentView::Text(t)) }
}

/// `msgs` after answering request `id` with `result`: the first message
/// carrying it loses that request; it becomes the text result when no other
/// request is left, else the result follows it as a new TOOL message. No
/// change when no message carries the request.
pub open spec fn replaced_with_result(
    msgs: Seq<MessageView>,
    id: Seq<char>,
    result: Seq<char>,
) -> Seq<MessageView> {
    if exists|i: int| first_carrier(msgs, id, i) {
        let i = choose|i: int| first_carrier(msgs, id, i);
        let rest = without_call(pending_requests(msgs[i]), id);
        if rest.len() == 0 {
            msgs.update(i, tool_text_message(result))
        } else {
            msgs.update(
                i,
                MessageView {
                    role: ChatRole::Tool,
                    content: Some(ContentView::ToolExecutionRequests(rest)),
                },
            ).insert(i + 1, tool_text_message(result))
        }
    } else {
        msgs
    }
}

proof fn lemma_first_carrier_unique(msgs: Seq<MessageView>, id: Seq<char>, i: int, j: int)
    requires
        first_carrier(msgs, id, i),
        first_carrier(msgs, id, j),
    ensures
        i == j,
{
    if i < j {
        assert(!carries_request(msgs[i], id));
    } else if j < i {
        assert(!carries_request(msgs[j], id));
    }
}

/// A copy of a tool execution request.
pub(crate) fn copy_request(r: &ToolExecutionRequest) -> (c: ToolExecutionRequest)
    ensures
        c@ == r@,
{
    ToolExecutionRequest {
        call_id: r.call_id.clone(),
        fn_name: r.fn_name.clone(),
        fn_arguments: r.fn_arguments.clone(),
    }
}

/// Whether some request of `reqs` has call id `id`.
fn has_request_with_id(reqs: &Vec<ToolExecutionRequest>, id: &str) -> (r: bool)
    ensures
        r == has_call_id(requests_view(reqs@), id@),
{
    let ghost rv = requests_view(reqs@);
    let mut k: usize = 0;
    while k < reqs.len()
        invariant
            rv == requests_view(reqs@),
            k <= reqs@.len(),
            forall|j: int| 0 <= j < k ==> rv[j].call_id != id@,
        decreases reqs.len() - k,
    {
        if str_eq(reqs[k].call_id.as_str(), id) {
            assert(rv[k as int].call_id == id@);
            return true;
        }
        k = k + 1;
    }
    false
}

/// The requests of `reqs` whose call id is not `id`, in order.
fn requests_without(reqs: &Vec<ToolExecutionRequest>, id: &str) -> (r: Vec<ToolExecutionRequest>)
    ensures
        requests_view(r@) == without_call(requests_view(reqs@), id@),
{
    let ghost rv = requests_view(reqs@);
    let mut out: Vec<ToolExecutionRequest> = Vec::new();
    let mut k: usize = 0;
    while k < reqs.len()
        invariant
            rv == requests_view(reqs@),
            k <= reqs@.len(),
            requests_view(out@) == without_call(rv.take(k as int), id@),
        decreases reqs.len() - k,
    {
        proof {
            assert(rv.take(k + 1).drop_last() =~= rv.take(k as int));
            assert(rv.take(k + 1).last() == rv[k as int]);
        }
        if !str_eq(reqs[k].call_id.as_str(), id) {
            let ghost prev = out@;
            let c = copy_request(&reqs[k]);
            out.push(c);
            assert(requests_view(out@) =~= requests_view(prev).push(c@));
        }
        k = k + 1;
    }
    assert(rv.take(k as int) =~= rv);
    out
}

impl ToolConverter {
    /// Answer the pending tool execution request `call_id` with the text
    /// `result`: only that request is removed; when its message has no
    /// request left it becomes the text result, else the result follows it
    /// as a new TOOL message.
    pub fn replace_tool_execution_with_result(
        messages: &mut Vec<ChatMessage>,
        call_id: &str,
        result: &str,
    )
        ensures
            messages_view(final(messages)@) == replaced_with_result(
                messages_view(old(messages)@),
                call_id@,
                result@,
            ),
    {
        let ghost mv = messages_view(messages@);
        let mut i: usize = 0;
        while i < messages.len()
            invariant
                mv == messages_view(messages@),
                mv == messages_view(old(messages)@),
                i <= messages@.len(),
                forall|k: int| 0 <= k < i ==> !carries_request(#[trigger] mv[k], call_id@),
            decreases messages.len() - i,
        {
            let rest: Option<Vec<ToolExecutionRequest>> = if messages[i].role == ChatRole::Tool {
                match &messages[i].content {
                    Some(MessageContent::ToolExecutionRequests(reqs)) => {
                        if has_request_with_id(reqs, call_id) {
                            assert(pending_requests(mv[i as int]) == requests_view(reqs@));
                            let r = requests_without(reqs, call_id);
                            assert(requests_view(r@) == without_call(
                                pending_requests(mv[i as int]),
                                call_id@,
                            ));
                            Some(r)
                        } else {
                            None
                        }
                    },
                    _ => None,
                }
            } else {
                None
            };
            match rest {
                Some(rest) => {
                    assert(requests_view(rest@) == without_call(
                        pending_requests(mv[i as int]),
                        call_id@,
                    ));
                    proof {
                        assert(first_carrier(mv, call_id@, i as int));
                        let j = choose|j: int| first_carrier(mv, call_id@, j);
                        lemma_first_carrier_unique(mv, call_id@, i as int, j);
                    }
                    let text = ChatMessage {
                        role: ChatRole::Tool,
                        content: Some(MessageContent::Text(string_of(result))),
                    };
                    if rest.len() == 0 {
                        messages.set(i, text);
                        assert(messages_view(messages@) =~= mv.update(
                            i as int,
                            tool_text_message(result@),
                        ));
                    } else {
                        let kept = ChatMessage {
                            role: ChatRole::Tool,
                            content: Some(MessageContent::ToolExecutionRequests(rest)),
                        };
                        let ghost kept_view = kept@;
                        messages.set(i, kept);
                        messages.insert(i + 1, text);
                        assert(messages_view(messages@) =~= mv.update(i as int, kept_view).insert(
                            i + 1,
                            tool_text_message(result@),
                        ));
                    }
                    return;
                },
                None => {},
            }
            i = i + 1;
        }
        proof {
            if exists|j: int| first_carrier(mv, call_id@, j) {
                let j = choose|j: int| first_carrier(mv, call_id@, j);
                assert(!carries_request(mv[j], call_id@));
            }
        }
    }

    /// A selector pseudo-tool is never executed: its pending request is
    /// answered with "Tool selection completed". Returns whether `req` was
    /// such a selector.
    pub fn skip_selector_tool_execution(
        req: &ToolExecutionRequest,
        messages: &mut Vec<ChatMessage>,
    ) -> (r: bool)
        ensures
            r == is_selector_name(req.fn_name@),
            r ==> messages_view(final(messages)@) == replaced_with_result(
                messages_view(old(messages)@),
                req.call_id@,
                "Tool selection completed"@,
            ),
            !r ==> final(messages)@ == old(messages)@,
    {
        if Self::is_selector_tool(req.fn_name.as_str()) {
            Self::replace_tool_execution_with_result(
                messages,
                req.call_id.as_str(),
                "Tool selection completed",
            );
            true
        } else {
            false
        }
    }
}

/// Why a tool result payload was rejected, by its view.
pub enum ResolveFailure {
    EmptyResults,
    EmptyCallId,
    MissingToolCalls,
    CallIdNotFound(Seq<char>),
    WrongRole(ChatRole, int),
}

/// Why a tool result payload was rejected.
#[derive(Debug)]
pub enum ToolResultError {
    /// The payload holds no result.
    EmptyResults,
    /// A result has an empty call id.
    EmptyCallId,
    /// The closest non-TOOL message before the payload is not an ASSISTANT
    /// tool-call message (or there is none).
    MissingToolCalls,
    /// A result answers a call id that the preceding tool calls do not hold.
    CallIdNotFound(String),
    /// A result payload rides on a message whose role is not TOOL.
    WrongRole { role: ChatRole, index: usize },
}

impl View for ToolResultError {
    type V = ResolveFailure;

    open spec fn view(&self) -> ResolveFailure {
        match self {
            ToolResultError::EmptyResults => ResolveFailure::EmptyResults,
            ToolResultError::EmptyCallId => ResolveFailure::EmptyCallId,
            ToolResultError::MissingToolCalls => ResolveFailure::MissingToolCalls,
            ToolResultError::CallIdNotFound(id) => ResolveFailure::CallIdNotFound(id@),
            ToolResultError::WrongRole { role, index } => ResolveFailure::WrongRole(
                *role,
                *index as int,
            ),
        }
    }
}

/// The debug name of a role.
pub open spec fn role_debug_name(role: ChatRole) -> Seq<char> {
    match role {
        ChatRole::Unspecified => "Unspecified"@,
        ChatRole::System => "System"@,
        ChatRole::User => "User"@,
        ChatRole::Assistant => "Assistant"@,
        ChatRole::Tool => "Tool"@,
    }
}

/// The message of a rejection.
pub open spec fn failure_message(f: ResolveFailure) -> Seq<char> {
    match f {
        ResolveFailure::EmptyResults => "ToolResults.results must not be empty"@,
        ResolveFailure::EmptyCallId => "ToolResult.call_id must not be empty"@,
        ResolveFailure::MissingToolCalls => "tool_results must follow an ASSISTANT message with ToolCalls, but the preceding non-TOOL message is missing or has different content"@,
        ResolveFailure::CallIdNotFound(id) => "tool_result call_id not found in immediately-preceding ASSISTANT ToolCalls: "@ + id,
        ResolveFailure::WrongRole(role, index) => "tool_results must ride on a TOOL-role message, got role="@
            + role_debug_name(role) + " at message index "@ + decimal(index as nat),
    }
}

fn role_debug_string(role: ChatRole) -> (r: String)
    ensures
        r@ == role_debug_name(role),
{
    match role {
        ChatRole::Unspecified => string_of("Unspecified"),
        ChatRole::System => string_of("System"),
        ChatRole::User => string_of("User"),
        ChatRole::Assistant => string_of("Assistant"),
        ChatRole::Tool => string_of("Tool"),
    }
}

impl ToolResultError {
    /// The error message.
    pub fn message(&self) -> (r: String)
        ensures
            r@ == failure_message(self@),
    {
        match self {
            ToolResultError::EmptyResults => string_of("ToolResults.results must not be empty"),
            ToolResultError::EmptyCallId => string_of("ToolResult.call_id must not be empty"),
            ToolResultError::MissingToolCalls => string_of(
                "tool_results must follow an ASSISTANT message with ToolCalls, but the preceding non-TOOL message is missing or has different content",
            ),
            ToolResultError::CallIdNotFound(id) => {
                let mut m = string_of(
                    "tool_result call_id not found in immediately-preceding ASSISTANT ToolCalls: ",
                );
                push_str(&mut m, id.as_str());
                m
            },
            ToolResultError::WrongRole { role, index } => {
                let mut m = string_of("tool_results must ride on a TOOL-role message, got role=");
                let name = role_debug_string(*role);
                push_str(&mut m, name.as_str());
                push_str(&mut m, " at message index ");
                push_decimal(&mut m, *index);
                m
            },
        }
    }
}

/// Index of the last message of `msgs` whose role is not TOOL, or -1.
pub open spec fn last_non_tool(msgs: Seq<MessageView>) -> int
    decreases msgs.len(),
{
    if msgs.len() == 0 {
        -1
    } else if msgs.last().role != ChatRole::Tool {
        msgs.len() - 1
    } else {
        last_non_tool(msgs.drop_last())
    }
}

/// The tool calls of the immediately preceding non-TOOL message, when that
/// message exists and carries tool calls.
pub open spec fn preceding_tool_calls(msgs: Seq<MessageView>) -> Option<Seq<ToolCallView>> {
    let i = last_non_tool(msgs);
    if i < 0 {
        None
    } else {
        match msgs[i].content {
            Some(ContentView::ToolCalls(c)) => Some(c),
            _ => None,
        }
    }
}

/// `r` can be resolved against `calls`: non-empty call id that one of the
/// calls has.
pub open spec fn result_resolvable(calls: Seq<ToolCallView>, r: ToolResultView) -> bool {
    r.call_id.len() > 0 && has_call_id(calls, r.call_id)
}

/// `j` is the first call of `calls` with call id `id`.
pub open spec fn first_call_at(calls: Seq<ToolCallView>, id: Seq<char>, j: int) -> bool {
    &&& 0 <= j < calls.len()
    &&& calls[j].call_id == id
    &&& forall|k: int| 0 <= k < j ==> #[trigger] calls[k].call_id != id
}

/// The first call of `calls` with call id `id`.
pub open spec fn first_call_with(calls: Seq<ToolCallView>, id: Seq<char>) -> ToolCallView {
    calls[choose|j: int| first_call_at(calls, id, j)]
}

/// `r` resolved against `calls`: an empty fn_name is taken from the first
/// call with the same call id.
pub open spec fn resolved_result(calls: Seq<ToolCallView>, r: ToolResultView) -> ToolResultView {
    ToolResultView {
        call_id: r.call_id,
        fn_name: if r.fn_name.len() == 0 {
            first_call_with(calls, r.call_id).fn_name
        } else {
            r.fn_name
        },
        content: r.content,
        is_error: r.is_error,
    }
}

/// `j` is the first result of `results` that cannot be resolved.
pub open spec fn first_unresolvable(
    calls: Seq<ToolCallView>,
    results: Seq<ToolResultView>,
    j: int,
) -> bool {
    &&& 0 <= j < results.len()
    &&& !result_resolvable(calls, results[j])
    &&& forall|k: int| 0 <= k < j ==> result_resolvable(calls, #[trigger] results[k])
}

/// Why `results` cannot be resolved against `calls`: the first result that
/// cannot be resolved decides; `None` when all resolve.
pub open spec fn results_failure(
    calls: Seq<ToolCallView>,
    results: Seq<ToolResultView>,
) -> Option<ResolveFailure> {
    if exists|j: int| first_unresolvable(calls, results, j) {
        let j = choose|j: int| first_unresolvable(calls, results, j);
        if results[j].call_id.len() == 0 {
            Some(ResolveFailure::EmptyCallId)
        } else {
            Some(ResolveFailure::CallIdNotFound(results[j].call_id))
        }
    } else {
        None
    }
}

/// Why `results`, answering the messages `prefix`, are rejected; `None` when
/// they resolve.
pub open spec fn resolve_failure(
    prefix: Seq<MessageView>,
    results: Seq<ToolResultView>,
) -> Option<ResolveFailure> {
    if results.len() == 0 {
        Some(ResolveFailure::EmptyResults)
    } else {
        match preceding_tool_calls(prefix) {
            None => Some(ResolveFailure::MissingToolCalls),
            Some(calls) => results_failure(calls, results),
        }
    }
}

/// The views of resolved results.
pub open spec fn resolved_view(s: Seq<ResolvedToolResult>) -> Seq<ToolResultView> {
    s.map_values(|r: ResolvedToolResult| r@)
}

/// The rejection of the result payload of message `idx`, if it carries one:
/// a wrong role, else why its results do not resolve against the messages
/// before it.
pub open spec fn message_failure(msgs: Seq<MessageView>, idx: int) -> Option<ResolveFailure> {
    match msgs[idx].content {
        Some(ContentView::ToolResults(tr)) => {
            if msgs[idx].role != ChatRole::Tool {
                Some(ResolveFailure::WrongRole(msgs[idx].role, idx))
            } else {
                resolve_failure(msgs.take(idx), tr)
            }
        },
        _ => None,
    }
}

/// `idx` is the first message of `msgs` whose result payload is rejected.
pub open spec fn first_failing_message(msgs: Seq<MessageView>, idx: int) -> bool {
    &&& 0 <= idx < msgs.len()
    &&& message_failure(msgs, idx) is Some
    &&& forall|k: int| 0 <= k < idx ==> #[trigger] message_failure(msgs, k) is None
}

/// The tool calls of the closest non-TOOL message of `prefix`, if that
/// message carries tool calls.
fn find_preceding_tool_calls(prefix: &[ChatMessage]) -> (r: Option<&Vec<ToolCall>>)
    ensures
        match r {
            Some(c) => preceding_tool_calls(messages_view(prefix@)) == Some(calls_view(c@)),
            None => preceding_tool_calls(messages_view(prefix@)) is None,
        },
{
    let ghost mv = messages_view(prefix@);
    let mut i: usize = prefix.len();
    assert(mv.take(i as int) =~= mv);
    while i > 0 && prefix[i - 1].role == ChatRole::Tool
        invariant
            mv == messages_view(prefix@),
            i <= prefix@.len(),
            last_non_tool(mv) == last_non_tool(mv.take(i as int)),
        decreases i,
    {
        proof {
            assert(mv.take(i as int).drop_last() =~= mv.take(i - 1));
        }
        i = i - 1;
    }
    if i == 0 {
        assert(mv.take(0) =~= Seq::<MessageView>::empty());
        return None;
    }
    assert(last_non_tool(mv.take(i as int)) == i - 1);
    match &prefix[i - 1].content {
        Some(MessageContent::ToolCalls(c)) => Some(c),
        _ => None,
    }
}

/// Index of the first call of `calls` with call id `id`, if any.
fn find_call(calls: &Vec<ToolCall>, id: &str) -> (r: Option<usize>)
    ensures
        r is Some <==> has_call_id(calls_view(calls@), id@),
        r matches Some(j) ==> first_call_at(calls_view(calls@), id@, j as int),
{
    let ghost cv = calls_view(calls@);
    let mut k: usize = 0;
    while k < calls.len()
        invariant
            cv == calls_view(calls@),
            k <= calls@.len(),
            forall|j: int| 0 <= j < k ==> #[trigger] cv[j].call_id != id@,
        decreases calls.len() - k,
    {
        if str_eq(calls[k].call_id.as_str(), id) {
            assert(cv[k as int].call_id == id@);
            return Some(k);
        }
        k = k + 1;
    }
    None
}

impl ToolConverter {
    /// Resolve the tool results of a TOOL message against `prefix`, the
    /// messages strictly before it. Every call id must come from the closest
    /// non-TOOL message of `prefix` (TOOL messages in between are skipped),
    /// which must carry tool calls; an empty fn_name is taken from the
    /// matching call. Results keep their order.
    pub fn resolve_tool_results(prefix: &[ChatMessage], results: &[ToolResult]) -> (r: Result<
        Vec<ResolvedToolResult>,
        ToolResultError,
    >)
        ensures
            match r {
                Ok(v) => {
                    &&& resolve_failure(messages_view(prefix@), results_view(results@)) is None
                    &&& preceding_tool_calls(messages_view(prefix@)) matches Some(calls)
                        && resolved_view(v@) == results_view(results@).map_values(
                        |t: ToolResultView| resolved_result(calls, t),
                    )
                },
                Err(e) => resolve_failure(messages_view(prefix@), results_view(results@)) == Some(
                    e@,
                ),
            },
    {
        let ghost rv = results_view(results@);
        if results.len() == 0 {
            return Err(ToolResultError::EmptyResults);
        }
        let calls = match find_preceding_tool_calls(prefix) {
            Some(c) => c,
            None => {
                return Err(ToolResultError::MissingToolCalls);
            },
        };
        let ghost cv = calls_view(calls@);
        let ghost want = rv.map_values(|t: ToolResultView| resolved_result(cv, t));
        let mut out: Vec<ResolvedToolResult> = Vec::new();
        let mut k: usize = 0;
        while k < results.len()
            invariant
                rv == results_view(results@),
                rv.len() > 0,
                cv == calls_view(calls@),
                preceding_tool_calls(messages_view(prefix@)) == Some(cv),
                want == rv.map_values(|t: ToolResultView| resolved_result(cv, t)),
                k <= rv.len(),
                forall|j: int| 0 <= j < k ==> result_resolvable(cv, #[trigger] rv[j]),
                resolved_view(out@) == want.take(k as int),
            decreases results.len() - k,
        {
            let tr = &results[k];
            assert(rv[k as int] == tr@);
            if tr.call_id.as_str().is_empty() {
                proof {
                    lemma_resolve_failure_at(messages_view(prefix@), cv, rv, k as int);
                }
                return Err(ToolResultError::EmptyCallId);
            }
            let j = match find_call(calls, tr.call_id.as_str()) {
                Some(j) => j,
                None => {
                    proof {
                        lemma_resolve_failure_at(messages_view(prefix@), cv, rv, k as int);
                    }
                    return Err(ToolResultError::CallIdNotFound(tr.call_id.clone()));
                },
            };
            proof {
                let c = choose|c: int| first_call_at(cv, rv[k as int].call_id, c);
                lemma_first_call_unique(cv, rv[k as int].call_id, j as int, c);
            }
            let fn_name = if tr.fn_name.as_str().is_empty() {
                calls[j].fn_name.clone()
            } else {
                tr.fn_name.clone()
            };
            let item = ResolvedToolResult {
                call_id: tr.call_id.clone(),
                fn_name,
                content: tr.content.clone(),
                is_error: tr.is_error,
            };
            let ghost prev = out@;
            out.push(item);
            proof {
                assert(item@ == want[k as int]);
                assert(resolved_view(out@) =~= resolved_view(prev).push(item@));
                assert(want.take(k + 1) =~= want.take(k as int).push(want[k as int]));
            }
            k = k + 1;
        }
        proof {
            assert(want.take(k as int) =~= want);
            if exists|j: int| first_unresolvable(cv, rv, j) {
                let j = choose|j: int| first_unresolvable(cv, rv, j);
                assert(result_resolvable(cv, rv[j]));
            }
        }
        Ok(out)
    }

    /// Validate every tool result payload of `args.messages`, in order: it
    /// must ride on a TOOL message and resolve against the messages before
    /// it. The first rejection is returned.
    pub fn validate_all_tool_results(args: &LlmChatArgs) -> (r: Result<(), ToolResultError>)
        ensures
            r is Ok <==> forall|idx: int|
                0 <= idx < args.messages@.len() ==> #[trigger] message_failure(
                    messages_view(args.messages@),
                    idx,
                ) is None,
            r matches Err(e) ==> exists|idx: int|
                first_failing_message(messages_view(args.messages@), idx) && message_failure(
                    messages_view(args.messages@),
                    idx,
                ) == Some(e@),
    {
        let msgs = &args.messages;
        let ghost mv = messages_view(msgs@);
        let mut idx: usize = 0;
        while idx < msgs.len()
            invariant
                mv == messages_view(msgs@),
                msgs@ == args.messages@,
                idx <= msgs@.len(),
                forall|k: int| 0 <= k < idx ==> #[trigger] message_failure(mv, k) is None,
            decreases msgs.len() - idx,
        {
            match &msgs[idx].content {
                Some(MessageContent::ToolResults(tr)) => {
                    assert(mv[idx as int].content == Some(ContentView::ToolResults(results_view(tr@))));
                    assert(mv[idx as int].role == msgs@[idx as int].role);
                    if msgs[idx].role != ChatRole::Tool {
                        let e = ToolResultError::WrongRole { role: msgs[idx].role, index: idx };
                        assert(first_failing_message(mv, idx as int));
                        return Err(e);
                    }
                    let prefix = slice_prefix(msgs, idx);
                    proof {
                        assert(messages_view(prefix@) =~= mv.take(idx as int));
                    }
                    let trs = tr.as_slice();
                    assert(trs@ == tr@);
                    match Self::resolve_tool_results(prefix, trs) {
                        Ok(_) => {},
                        Err(e) => {
                            assert(first_failing_message(mv, idx as int));
                            return Err(e);
                        },
                    }
                },
                _ => {
                    assert(message_failure(mv, idx as int) is None);
                },
            }
            idx = idx + 1;
        }
        Ok(())
    }
}

/// `msgs[..n]`.
fn slice_prefix(msgs: &Vec<ChatMessage>, n: usize) -> (r: &[ChatMessage])
    requires
        n <= msgs@.len(),
    ensures
        r@ == msgs@.take(n as int),
{
    let s = msgs.as_slice();
    vstd::slice::slice_subrange(s, 0, n)
}

proof fn lemma_resolve_failure_at(
    prefix: Seq<MessageView>,
    calls: Seq<ToolCallView>,
    results: Seq<ToolResultView>,
    k: int,
)
    requires
        preceding_tool_calls(prefix) == Some(calls),
        first_unresolvable(calls, results, k),
    ensures
        resolve_failure(prefix, results) == if results[k].call_id.len() == 0 {
            Some(ResolveFailure::EmptyCallId)
        } else {
            Some(ResolveFailure::CallIdNotFound(results[k].call_id))
        },
{
    let j = choose|j: int| first_unresolvable(calls, results, j);
    lemma_first_unresolvable_unique(calls, results, k, j);
}

proof fn lemma_first_unresolvable_unique(
    calls: Seq<ToolCallView>,
    results: Seq<ToolResultView>,
    i: int,
    j: int,
)
    requires
        first_unresolvable(calls, results, i),
        first_unresolvable(calls, results, j),
    ensures
        i == j,
{
    if i < j {
        assert(result_resolvable(calls, results[i]));
    } else if j < i {
        assert(result_resolvable(calls, results[j]));
    }
}

proof fn lemma_first_call_unique(calls: Seq<ToolCallView>, id: Seq<char>, i: int, j: int)
    requires
        first_call_at(calls, id, i),
        first_call_at(calls, id, j),
    ensures
        i == j,
{
    if i < j {
        assert(calls[i].call_id != id);
    } else if j < i {
        assert(calls[j].call_id != id);
    }
}

/// The pending tool execution requests of all TOOL messages of `msgs`, in
/// message order.
pub open spec fn all_pending_requests(msgs: Seq<MessageView>) -> Seq<ToolCallView>
    decreases msgs.len(),
{
    if msgs.len() == 0 {
        Seq::empty()
    } else {
        let last = msgs.last();
        all_pending_requests(msgs.drop_last()) + if last.role == ChatRole::Tool {
            pending_requests(last)
        } else {
            Seq::empty()
        }
    }
}

impl ToolConverter {
    /// The tool execution requests that TOOL messages of `args` carry
    /// (manual mode), in order; `None` when there is none.
    pub fn extract_tool_execution_requests(args: &LlmChatArgs) -> (r: Option<
        Vec<ToolExecutionRequest>,
    >)
        ensures
            r is None <==> all_pending_requests(messages_view(args.messages@)).len() == 0,
            r matches Some(v) ==> requests_view(v@) == all_pending_requests(
                messages_view(args.messages@),
            ),
    {
        let msgs = &args.messages;
        let ghost mv = messages_view(msgs@);
        let mut out: Vec<ToolExecutionRequest> = Vec::new();
        let mut i: usize = 0;
        while i < msgs.len()
            invariant
                mv == messages_view(msgs@),
                i <= msgs@.len(),
                requests_view(out@) == all_pending_requests(mv.take(i as int)),
            decreases msgs.len() - i,
        {
            proof {
                assert(mv.take(i + 1).drop_last() =~= mv.take(i as int));
                assert(mv.take(i + 1).last() == mv[i as int]);
            }
            if msgs[i].role == ChatRole::Tool {
                match &msgs[i].content {
                    Some(MessageContent::ToolExecutionRequests(reqs)) => {
                        let ghost start = requests_view(out@);
                        let mut k: usize = 0;
                        while k < reqs.len()
                            invariant
                                k <= reqs@.len(),
                                requests_view(out@) == start + requests_view(reqs@).take(k as int),
                            decreases reqs.len() - k,
                        {
                            let ghost prev = out@;
                            let c = copy_request(&reqs[k]);
                            out.push(c);
                            proof {
                                assert(requests_view(out@) =~= requests_view(prev).push(c@));
                                assert(requests_view(reqs@).take(k + 1) =~= requests_view(
                                    reqs@,
                                ).take(k as int).push(requests_view(reqs@)[k as int]));
                            }
                            k = k + 1;
                        }
                        assert(requests_view(reqs@).take(k as int) =~= requests_view(reqs@));
                        assert(pending_requests(mv[i as int]) == requests_view(reqs@));
                    },
                    _ => {
                        assert(pending_requests(mv[i as int]) =~= Seq::<ToolCallView>::empty());
                        assert(requests_view(out@) =~= requests_view(out@) + Seq::<
                            ToolCallView,
                        >::empty());
                    },
                }
            } else {
                assert(requests_view(out@) =~= requests_view(out@) + Seq::<ToolCallView>::empty());
            }
            i = i + 1;
        }
        assert(mv.take(i as int) =~= mv);
        if out.len() == 0 {
            None
        } else {
            Some(out)
        }
    }
}

} // verus!
