//! Running, one by one, the tool calls that a model handed to the client
//! side, while the chat streams.
//!
//! The caller owns the tool runner and the stream; [`ToolExecution`]
//! decides. For each pending request in order, selector pseudo-tools are
//! answered on the spot and never run; any other request is handed out to
//! be run. Each outcome is turned into the result item to stream and kept;
//! once every request is handled, the kept results answer their requests in
//! the conversation, which the chat then continues from.

use vstd::prelude::*;
use crate::chat_model::{messages_view, requests_view, ChatMessage, MessageView, ToolCallView, ToolExecutionRequest};
use crate::conversion::{is_selector_name, ToolConverter};
use crate::text::{push_str, string_of};
use crate::tool_messages::{copy_request, replaced_with_result};

verus! {

/// A tool job that streams its output was enqueued.
#[derive(Debug, Clone, PartialEq, Eq)]
pub struct ToolExecutionStarted {
    pub call_id: String,
    pub fn_name: String,
    pub job_id: i64,
    pub fn_arguments: String,
}

/// The result of running one tool call.
#[derive(Debug, Clone, PartialEq, Eq)]
pub struct ToolExecutionResult {
    pub call_id: String,
    pub fn_name: String,
    /// The result text (`Error: ...` on failure).
    pub result: String,
    /// The same text, on failure only.
    pub error: Option<String>,
    pub success: bool,
    /// The job that ran, if one was enqueued.
    pub job_id: Option<i64>,
}

/// What the tool runner reported for one call.
#[derive(Debug)]
pub enum ToolRunOutcome {
    /// The job could not be enqueued; the runner's message.
    EnqueueFailed(String),
    /// The job `job_id` ran: its result as text, or the failure message.
    Ran { job_id: i64, result: Result<String, String> },
}

/// What the caller does next.
#[derive(Debug)]
pub enum ToolExecStep {
    /// Run this tool call and report the outcome.
    Run(ToolExecutionRequest),
    /// Every call is handled: continue the chat from these messages.
    Continue(Vec<ChatMessage>),
}

/// State of one round of client-side tool execution.
pub struct ToolExecution {
    messages: Vec<ChatMessage>,
    requests: Vec<ToolExecutionRequest>,
    next: usize,
    in_flight: Option<ToolExecutionRequest>,
    answers: Vec<(String, String)>,
}

/// The answer given to a selector pseudo-tool's request.
pub open spec fn selection_answer() -> Seq<char> {
    "Tool selection completed"@
}

/// `msgs` after the selector requests among `reqs[from..to]` were answered,
/// in order.
pub open spec fn skip_through(msgs: Seq<MessageView>, reqs: Seq<ToolCallView>, from: int, to: int) -> Seq<
    MessageView,
>
    decreases to - from,
{
    if to <= from {
        msgs
    } else {
        let prev = skip_through(msgs, reqs, from, to - 1);
        if is_selector_name(reqs[to - 1].fn_name) {
            replaced_with_result(prev, reqs[to - 1].call_id, selection_answer())
        } else {
            prev
        }
    }
}

/// `msgs` after each `(call id, result)` of `answers` answered its request,
/// in order.
pub open spec fn answered(msgs: Seq<MessageView>, answers: Seq<(Seq<char>, Seq<char>)>) -> Seq<MessageView>
    decreases answers.len(),
{
    if answers.len() == 0 {
        msgs
    } else {
        replaced_with_result(answered(msgs, answers.drop_last()), answers.last().0, answers.last().1)
    }
}

/// The views of kept `(call id, result)` pairs.
pub open spec fn answers_view(s: Seq<(String, String)>) -> Seq<(Seq<char>, Seq<char>)> {
    s.map_values(|p: (String, String)| (p.0@, p.1@))
}

/// The result text of an outcome.
pub open spec fn outcome_text(o: ToolRunOutcome) -> Seq<char> {
    match o {
        ToolRunOutcome::EnqueueFailed(m) => "Error: "@ + m@,
        ToolRunOutcome::Ran { result: Ok(v), .. } => v@,
        ToolRunOutcome::Ran { result: Err(m), .. } => "Error: "@ + m@,
    }
}

/// The outcome is a success.
pub open spec fn outcome_ok(o: ToolRunOutcome) -> bool {
    o matches ToolRunOutcome::Ran { result: Ok(_), .. }
}

/// The job of an outcome, if one was enqueued.
pub open spec fn outcome_job(o: ToolRunOutcome) -> Option<i64> {
    match o {
        ToolRunOutcome::EnqueueFailed(_) => None,
        ToolRunOutcome::Ran { job_id, .. } => Some(job_id),
    }
}

/// `x` reports running `req` with outcome `o`.
pub open spec fn result_of(x: ToolExecutionResult, req: ToolCallView, o: ToolRunOutcome) -> bool {
    &&& x.call_id@ == req.call_id
    &&& x.fn_name@ == req.fn_name
    &&& x.result@ == outcome_text(o)
    &&& x.success == outcome_ok(o)
    &&& x.job_id == outcome_job(o)
    &&& x.success ==> x.error is None
    &&& !x.success ==> (x.error matches Some(e) && e@ == outcome_text(o))
}

/// A run's result item: the request's call id and name; a job that ran
/// and returned gives its text, success and its job id; a job that failed
/// gives `Error: ` and the reason as both result and error, with its job id
/// when one was enqueued.
pub proof fn law_result_reports_outcome(x: ToolExecutionResult, req: ToolCallView, o: ToolRunOutcome)
    requires
        result_of(x, req, o),
    ensures
        x.call_id@ == req.call_id && x.fn_name@ == req.fn_name,
        o matches ToolRunOutcome::Ran { job_id, result: Ok(v) } ==> x.success && x.result@ == v@ && x.error is None
            && x.job_id == Some(job_id),
        o matches ToolRunOutcome::Ran { job_id, result: Err(m) } ==> !x.success && x.result@ == "Error: "@ + m@
            && (x.error matches Some(e) && e@ == "Error: "@ + m@) && x.job_id == Some(job_id),
        o matches ToolRunOutcome::EnqueueFailed(m) ==> !x.success && x.result@ == "Error: "@ + m@
            && (x.error matches Some(e) && e@ == "Error: "@ + m@) && x.job_id is None,
{
}

impl ToolExecution {
    /// Internal consistency of the state.
    pub closed spec fn wf(&self) -> bool {
        &&& self.next <= self.requests@.len()
        &&& self.in_flight matches Some(r) ==> self.next > 0 && r@ == self.requests@[self.next - 1]@
    }

    /// The requests of this round, in order.
    pub closed spec fn requests(&self) -> Seq<ToolCallView> {
        requests_view(self.requests@)
    }

    /// How many requests were handled or handed out.
    pub closed spec fn position(&self) -> int {
        self.next as int
    }

    /// The conversation as it stands.
    pub closed spec fn messages(&self) -> Seq<MessageView> {
        messages_view(self.messages@)
    }

    /// The kept `(call id, result)` pairs, in order.
    pub closed spec fn answers(&self) -> Seq<(Seq<char>, Seq<char>)> {
        answers_view(self.answers@)
    }

    /// The request handed out and not yet reported.
    pub closed spec fn in_flight(&self) -> Option<ToolCallView> {
        match self.in_flight {
            Some(r) => Some(r@),
            None => None,
        }
    }

    /// Start a round over `requests` in the conversation `messages`.
    pub fn new(messages: Vec<ChatMessage>, requests: Vec<ToolExecutionRequest>) -> (s: Self)
        ensures
            s.wf(),
            s.requests() == requests_view(requests@),
            s.messages() == messages_view(messages@),
            s.position() == 0,
            s.answers().len() == 0,
            s.in_flight() is None,
    {
        ToolExecution { messages, requests, next: 0, in_flight: None, answers: Vec::new() }
    }

    /// Hand out the next request to run, answering the selector requests
    /// before it; or, with none left, answer every request with its kept
    /// result and give back the conversation to continue from.
    pub fn next_step(&mut self) -> (step: ToolExecStep)
        requires
            old(self).wf(),
        ensures
            final(self).wf(),
            final(self).requests() == old(self).requests(),
            final(self).answers() == old(self).answers(),
            match step {
                ToolExecStep::Run(req) => {
                    &&& old(self).position() < final(self).position() <= old(self).requests().len()
                    &&& req@ == old(self).requests()[final(self).position() - 1]
                    &&& !is_selector_name(req@.fn_name)
                    &&& forall|k: int| old(self).position() <= k < final(self).position() - 1
                        ==> is_selector_name(#[trigger] old(self).requests()[k].fn_name)
                    &&& final(self).messages() == skip_through(
                        old(self).messages(),
                        old(self).requests(),
                        old(self).position(),
                        final(self).position() - 1,
                    )
                    &&& final(self).in_flight() == Some(req@)
                },
                ToolExecStep::Continue(ms) => {
                    &&& forall|k: int| old(self).position() <= k < old(self).requests().len()
                        ==> is_selector_name(#[trigger] old(self).requests()[k].fn_name)
                    &&& messages_view(ms@) == answered(
                        skip_through(old(self).messages(), old(self).requests(), old(self).position(), old(self).requests().len() as int),
                        old(self).answers(),
                    )
                    &&& final(self).position() == old(self).requests().len()
                    &&& final(self).messages().len() == 0
                    &&& final(self).in_flight() is None
                },
            },
    {
        self.in_flight = None;
        let ghost m0 = self.messages();
        let ghost rs = self.requests();
        let ghost p0 = self.next as int;
        while self.next < self.requests.len()
            invariant
                self.next <= self.requests@.len(),
                p0 <= self.next,
                rs == self.requests(),
                rs == old(self).requests(),
                p0 == old(self).position(),
                m0 == old(self).messages(),
                self.answers@ == old(self).answers@,
                self.in_flight is None,
                self.messages() == skip_through(m0, rs, p0, self.next as int),
                forall|k: int| p0 <= k < self.next ==> is_selector_name(#[trigger] rs[k].fn_name),
            decreases self.requests@.len() - self.next,
        {
            let i = self.next;
            let skipped = ToolConverter::skip_selector_tool_execution(&self.requests[i], &mut self.messages);
            self.next = i + 1;
            proof {
                assert(rs[i as int] == self.requests@[i as int]@);
            }
            if !skipped {
                let req = copy_request(&self.requests[i]);
                self.in_flight = Some(copy_request(&self.requests[i]));
                return ToolExecStep::Run(req);
            }
        }
        let mut msgs: Vec<ChatMessage> = Vec::new();
        std::mem::swap(&mut msgs, &mut self.messages);
        let ghost base = messages_view(msgs@);
        let ghost av = self.answers();
        let mut j: usize = 0;
        while j < self.answers.len()
            invariant
                j <= self.answers@.len(),
                av == self.answers(),
                av.len() == self.answers@.len(),
                messages_view(msgs@) == answered(base, av.take(j as int)),
            decreases self.answers@.len() - j,
        {
            ToolConverter::replace_tool_execution_with_result(&mut msgs, self.answers[j].0.as_str(), self.answers[j].1.as_str());
            proof {
                assert(av.take(j + 1).drop_last() =~= av.take(j as int));
                assert(av.take(j + 1).last() == av[j as int]);
            }
            j = j + 1;
        }
        proof {
            assert(av.take(j as int) =~= av);
        }
        ToolExecStep::Continue(msgs)
    }

    /// The item announcing that the request in flight was enqueued as the
    /// streaming job `job_id`; `None` with no request in flight.
    pub fn started(&self, job_id: i64) -> (r: Option<ToolExecutionStarted>)
        ensures
            match self.in_flight() {
                Some(req) => r matches Some(x) && x.call_id@ == req.call_id && x.fn_name@ == req.fn_name
                    && x.job_id == job_id && x.fn_arguments@ == req.fn_arguments,
                None => r is None,
            },
    {
        match &self.in_flight {
            Some(req) => Some(
                ToolExecutionStarted {
                    call_id: req.call_id.clone(),
                    fn_name: req.fn_name.clone(),
                    job_id,
                    fn_arguments: req.fn_arguments.clone(),
                },
            ),
            None => None,
        }
    }

    /// Report the outcome of running the request in flight: the result
    /// item to stream, whose text is kept to answer the request. `None`,
    /// and no change, with no request in flight.
    pub fn record(&mut self, outcome: ToolRunOutcome) -> (r: Option<ToolExecutionResult>)
        requires
            old(self).wf(),
        ensures
            final(self).wf(),
            final(self).requests() == old(self).requests(),
            final(self).position() == old(self).position(),
            final(self).messages() == old(self).messages(),
            final(self).in_flight() is None,
            match old(self).in_flight() {
                Some(req) => r matches Some(x) && result_of(x, req, outcome)
                    && final(self).answers() == old(self).answers().push((req.call_id, outcome_text(outcome))),
                None => r is None && final(self).answers() == old(self).answers(),
            },
    {
        let req = match self.in_flight.take() {
            Some(req) => req,
            None => return None,
        };
        let ghost o = outcome;
        let (text, success, job_id) = match outcome {
            ToolRunOutcome::EnqueueFailed(m) => {
                let mut t = string_of("Error: ");
                push_str(&mut t, m.as_str());
                (t, false, None)
            },
            ToolRunOutcome::Ran { job_id, result } => match result {
                Ok(v) => (v, true, Some(job_id)),
                Err(m) => {
                    let mut t = string_of("Error: ");
                    push_str(&mut t, m.as_str());
                    (t, false, Some(job_id))
                },
            },
        };
        let error = if success {
            None
        } else {
            Some(text.clone())
        };
        let ghost before = self.answers@;
        self.answers.push((req.call_id.clone(), text.clone()));
        proof {
            assert(answers_view(self.answers@) =~= answers_view(before).push((req.call_id@, outcome_text(o))));
        }
        Some(ToolExecutionResult { call_id: req.call_id, fn_name: req.fn_name, result: text, error, success, job_id })
    }
}

/// The text streamed when the chat cannot continue after the tool results:
/// `Continuation error: ` and the reason.
pub fn continuation_error_text(reason: &str) -> (t: String)
    ensures
        t@ == "Continuation error: "@ + reason@,
{
    let mut t = string_of("Continuation error: ");
    push_str(&mut t, reason);
    t
}

} // verus!
