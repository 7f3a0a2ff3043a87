use llm_wrapper::chat_loop::{
    on_pending_tool_calls, plan_chat_request, ChatRequestPlan, ChatRound, PendingOutcome,
    ToolCallLoop, MAX_TOOL_CALL_DEPTH,
};
use llm_wrapper::chat_model::{
    ChatMessage, ChatRole, FunctionOptions, LlmChatArgs, MessageContent, ToolCall,
    ToolExecutionRequest,
};

fn call(name: &str) -> ToolCall {
    ToolCall {
        call_id: format!("id-{name}"),
        fn_name: name.to_string(),
        fn_arguments: "{}".to_string(),
    }
}

fn names(v: &[ToolCall]) -> Vec<&str> {
    v.iter().map(|c| c.fn_name.as_str()).collect()
}

#[test]
fn plan_prefers_requested_tool_executions() {
    let args = LlmChatArgs {
        messages: vec![ChatMessage {
            role: ChatRole::Tool,
            content: Some(MessageContent::ToolExecutionRequests(vec![ToolExecutionRequest {
                call_id: "c".to_string(),
                fn_name: "f".to_string(),
                fn_arguments: "{}".to_string(),
            }])),
        }],
        function_options: Some(FunctionOptions {
            is_auto_calling: Some(true),
            ..Default::default()
        }),
        ..Default::default()
    };
    assert!(matches!(plan_chat_request(&args), ChatRequestPlan::ExecuteRequested(v) if v.len() == 1));
    let args = LlmChatArgs {
        function_options: Some(FunctionOptions {
            is_auto_calling: Some(true),
            ..Default::default()
        }),
        ..Default::default()
    };
    assert!(matches!(plan_chat_request(&args), ChatRequestPlan::Chat { is_auto_calling: true }));
    assert!(matches!(
        plan_chat_request(&LlmChatArgs::default()),
        ChatRequestPlan::Chat { is_auto_calling: false }
    ));
}

#[test]
fn manual_mode_hands_calls_to_client() {
    let mut l = ToolCallLoop::new(false, false);
    match l.on_answer(vec![call("a"), call("select_toolset_x")]) {
        ChatRound::Pending(v) => assert_eq!(names(&v), vec!["a", "select_toolset_x"]),
        other => panic!("expected pending, got {other:?}"),
    }
    assert!(matches!(l.on_answer(Vec::<ToolCall>::new()), ChatRound::Final));
}

#[test]
fn auto_mode_executes_non_selector_calls_up_to_the_limit() {
    let mut l = ToolCallLoop::new(true, false);
    assert!(matches!(l.on_answer(vec![call("select_toolset_x")]), ChatRound::Final));
    let mut rounds = 0;
    while l.may_request() {
        match l.on_answer(vec![call("select_toolset_x"), call("b")]) {
            ChatRound::Execute(v) => assert_eq!(names(&v), vec!["b"]),
            other => panic!("expected execute, got {other:?}"),
        }
        rounds += 1;
    }
    assert_eq!(rounds, MAX_TOOL_CALL_DEPTH);
}

#[test]
fn auto_select_forces_manual_first_round() {
    let mut l = ToolCallLoop::new(true, true);
    assert!(matches!(l.on_answer(vec![call("select_toolset_s")]), ChatRound::Pending(_)));
}

#[test]
fn pending_calls_restart_or_return() {
    let calls = vec![call("select_toolset_s")];
    let none: Vec<String> = vec![];
    assert!(matches!(
        on_pending_tool_calls(calls, &none, LlmChatArgs::default()),
        PendingOutcome::ReturnToClient(v) if v.len() == 1
    ));
    let sel = vec!["select_toolset_s".to_string()];
    match on_pending_tool_calls(vec![call("select_toolset_s")], &sel, LlmChatArgs::default()) {
        PendingOutcome::Restart(r) => assert_eq!(r.selected_set_name, "s"),
        other => panic!("expected restart, got {other:?}"),
    }
    assert!(matches!(
        on_pending_tool_calls(vec![call("other")], &sel, LlmChatArgs::default()),
        PendingOutcome::Failed(_)
    ));
}

fn text_msg(role: ChatRole, t: &str) -> ChatMessage {
    ChatMessage { role, content: Some(MessageContent::Text(t.to_string())) }
}

#[test]
fn system_prompt_replaces_system_messages_and_goes_first() {
    let ms = vec![
        text_msg(ChatRole::User, "hi"),
        text_msg(ChatRole::System, "old"),
        text_msg(ChatRole::Assistant, "hello"),
    ];
    let out = llm_wrapper::chat_loop::apply_system_prompt(ms.clone(), Some("be brief"));
    let roles: Vec<ChatRole> = out.iter().map(|m| m.role).collect();
    assert_eq!(roles, vec![ChatRole::System, ChatRole::User, ChatRole::Assistant]);
    match &out[0].content {
        Some(MessageContent::Text(t)) => assert_eq!(t, "be brief"),
        other => panic!("unexpected {other:?}"),
    }
    let same = llm_wrapper::chat_loop::apply_system_prompt(ms, None);
    assert_eq!(same.len(), 3);
    assert_eq!(same[1].role, ChatRole::System);
}

#[test]
fn tool_round_appends_calls_then_one_result_per_call() {
    let mut ms = vec![text_msg(ChatRole::User, "q")];
    llm_wrapper::chat_loop::push_tool_round(
        &mut ms,
        vec![call("a"), call("b")],
        vec![Ok("42".to_string()), Err("boom".to_string())],
    );
    assert_eq!(ms.len(), 4);
    assert_eq!(ms[1].role, ChatRole::Assistant);
    match &ms[3].content {
        Some(MessageContent::ToolResults(rs)) => {
            assert_eq!(rs[0].call_id, "id-b");
            assert_eq!(rs[0].content, "Error executing tool 'b': boom");
        }
        other => panic!("unexpected {other:?}"),
    }
    match &ms[2].content {
        Some(MessageContent::ToolResults(rs)) => assert_eq!(rs[0].content, "42"),
        other => panic!("unexpected {other:?}"),
    }
}

#[test]
fn requested_tool_results_report_errors() {
    assert_eq!(llm_wrapper::chat_loop::requested_tool_result_text(Ok("v".to_string())), "v");
    assert_eq!(llm_wrapper::chat_loop::requested_tool_result_text(Err("x".to_string())), "Error: x");
}
