use llm_wrapper::chat_model::{ChatMessage, ChatRole, MessageContent, ToolExecutionRequest};
use llm_wrapper::tool_execution::{
    continuation_error_text, ToolExecStep, ToolExecution, ToolExecutionResult, ToolRunOutcome,
};

fn req(id: &str, name: &str) -> ToolExecutionRequest {
    ToolExecutionRequest {
        call_id: id.to_string(),
        fn_name: name.to_string(),
        fn_arguments: "{\"q\":1}".to_string(),
    }
}

fn pending(reqs: Vec<ToolExecutionRequest>) -> Vec<ChatMessage> {
    vec![
        ChatMessage {
            role: ChatRole::User,
            content: Some(MessageContent::Text("hi".to_string())),
        },
        ChatMessage {
            role: ChatRole::Tool,
            content: Some(MessageContent::ToolExecutionRequests(reqs)),
        },
    ]
}

fn texts(messages: &[ChatMessage]) -> Vec<String> {
    messages
        .iter()
        .map(|m| match &m.content {
            Some(MessageContent::Text(t)) => t.clone(),
            other => panic!("expected text, got {other:?}"),
        })
        .collect()
}

#[test]
fn selectors_are_answered_and_other_calls_run_in_order() {
    let reqs = vec![req("c1", "select_toolset_web"), req("c2", "fetch"), req("c3", "search")];
    let mut run = ToolExecution::new(pending(reqs.clone()), reqs);

    let first = match run.next_step() {
        ToolExecStep::Run(r) => r,
        other => panic!("expected a call to run, got {other:?}"),
    };
    assert_eq!(first.call_id, "c2");
    let started = run.started(7).unwrap();
    assert_eq!((started.call_id.as_str(), started.fn_name.as_str(), started.job_id), ("c2", "fetch", 7));
    assert_eq!(started.fn_arguments, "{\"q\":1}");
    let r1 = run.record(ToolRunOutcome::Ran { job_id: 7, result: Ok("page".to_string()) }).unwrap();
    assert_eq!(r1, ToolExecutionResult {
        call_id: "c2".to_string(),
        fn_name: "fetch".to_string(),
        result: "page".to_string(),
        error: None,
        success: true,
        job_id: Some(7),
    });

    let second = match run.next_step() {
        ToolExecStep::Run(r) => r,
        other => panic!("expected a call to run, got {other:?}"),
    };
    assert_eq!(second.call_id, "c3");
    let r2 = run.record(ToolRunOutcome::EnqueueFailed("no worker".to_string())).unwrap();
    assert_eq!(r2.result, "Error: no worker");
    assert_eq!(r2.error, Some("Error: no worker".to_string()));
    assert!(!r2.success);
    assert_eq!(r2.job_id, None);

    match run.next_step() {
        ToolExecStep::Continue(messages) => {
            assert_eq!(texts(&messages), vec![
                "hi".to_string(),
                "Error: no worker".to_string(),
                "page".to_string(),
                "Tool selection completed".to_string(),
            ]);
        }
        other => panic!("expected to continue, got {other:?}"),
    }
}

#[test]
fn a_failed_job_keeps_its_id_and_error_text() {
    let reqs = vec![req("c1", "fetch")];
    let mut run = ToolExecution::new(pending(reqs.clone()), reqs);
    assert!(matches!(run.next_step(), ToolExecStep::Run(_)));
    let r = run.record(ToolRunOutcome::Ran { job_id: 3, result: Err("timeout".to_string()) }).unwrap();
    assert_eq!(r.result, "Error: timeout");
    assert_eq!(r.error, Some("Error: timeout".to_string()));
    assert!(!r.success);
    assert_eq!(r.job_id, Some(3));
}

#[test]
fn only_selectors_continue_at_once() {
    let reqs = vec![req("c1", "select_toolset_a")];
    let mut run = ToolExecution::new(pending(reqs.clone()), reqs);
    match run.next_step() {
        ToolExecStep::Continue(messages) => {
            assert_eq!(texts(&messages), vec!["hi".to_string(), "Tool selection completed".to_string()]);
        }
        other => panic!("expected to continue, got {other:?}"),
    }
}

#[test]
fn nothing_in_flight_records_nothing() {
    let mut run = ToolExecution::new(Vec::new(), Vec::new());
    assert!(run.started(1).is_none());
    assert!(run.record(ToolRunOutcome::EnqueueFailed("x".to_string())).is_none());
    match run.next_step() {
        ToolExecStep::Continue(messages) => assert!(messages.is_empty()),
        other => panic!("expected to continue, got {other:?}"),
    }
}

#[test]
fn continuation_error_text_names_the_reason() {
    assert_eq!(continuation_error_text("boom"), "Continuation error: boom");
}
