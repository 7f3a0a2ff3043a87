use llm_wrapper::chat_model::{
    ChatMessage, ChatRole, FunctionOptions, LlmChatArgs, MessageContent, ToolCall,
    ToolExecutionRequest, ToolResult,
};
use llm_wrapper::conversion::{FunctionSpecs, MethodSchema, ResolvedToolResult, ToolCallName, ToolConverter};

/// Simple struct implementing ToolCallName for testing
struct MockToolCall {
    name: String,
}

impl ToolCallName for MockToolCall {
    fn tool_name(&self) -> &str {
        &self.name
    }
}

fn names(v: &[&str]) -> Vec<String> {
    v.iter().map(|s| s.to_string()).collect()
}

#[test]
fn test_function_set_name_validation() {
    assert!(ToolConverter::is_valid_function_set_name("web-tools"));
    assert!(ToolConverter::is_valid_function_set_name("data_processing"));
    assert!(ToolConverter::is_valid_function_set_name("CodeExec123"));
    assert!(!ToolConverter::is_valid_function_set_name("bad___name"));
    assert!(!ToolConverter::is_valid_function_set_name("has spaces"));
    assert!(!ToolConverter::is_valid_function_set_name("has.dots"));
}

#[test]
fn function_set_name_validation_rejects_empty_and_non_ascii() {
    assert!(!ToolConverter::is_valid_function_set_name(""));
    assert!(!ToolConverter::is_valid_function_set_name("ツール"));
    assert!(ToolConverter::is_valid_function_set_name("a__b"));
}

#[test]
fn test_convert_function_set_to_selector_tool() {
    let tool = ToolConverter::convert_function_set_to_selector_tool(
        "web-tools",
        "Tools for web scraping",
        &[
            ("fetch_html".to_string(), "Fetch HTML from URL".to_string()),
            ("screenshot".to_string(), "Take screenshot".to_string()),
        ],
    );
    assert!(tool.is_some());
    let tool = tool.unwrap();
    assert_eq!(tool.name, "select_toolset_web-tools");
    let desc = &tool.description;
    assert!(desc.contains("web-tools"), "Should contain set name");
    assert!(
        desc.contains("Tools for web scraping"),
        "Should contain description"
    );
    assert!(desc.contains("fetch_html"), "Should list tools");
    assert!(desc.contains("screenshot"), "Should list tools");
    assert!(
        desc.contains("Activate") || desc.contains("Call this"),
        "Should instruct LLM to call this function"
    );

    // Should have empty properties schema
    let schema: serde_json::Value = serde_json::from_str(&tool.input_schema).unwrap();
    let props = schema.get("properties").unwrap();
    assert!(props.as_object().unwrap().is_empty());
}

#[test]
fn test_convert_function_set_to_selector_tool_no_tools() {
    let tool =
        ToolConverter::convert_function_set_to_selector_tool("empty-set", "An empty set", &[]);
    assert!(tool.is_some());
    let tool = tool.unwrap();
    assert_eq!(tool.name, "select_toolset_empty-set");
    let desc = &tool.description;
    assert!(
        desc.contains("Activate") || desc.contains("Call this"),
        "Should instruct LLM to call this function even with no tools"
    );
}

#[test]
fn test_convert_function_set_to_selector_tool_invalid_name() {
    let tool = ToolConverter::convert_function_set_to_selector_tool("bad___name", "desc", &[]);
    assert!(tool.is_none());
}

#[test]
fn selector_tool_description_is_exact() {
    let tool = ToolConverter::convert_function_set_to_selector_tool(
        "s",
        "D",
        &[
            ("a".to_string(), "x".to_string()),
            ("b".to_string(), "y".to_string()),
        ],
    )
    .unwrap();
    assert_eq!(
        tool.description,
        "Activate the 's' toolset. D. Call this function to load the following tools:\n- a: x\n- b: y"
    );
    let empty = ToolConverter::convert_function_set_to_selector_tool("s", "D", &[]).unwrap();
    assert_eq!(
        empty.description,
        "Activate the 's' toolset. D. Call this function to load its tools so you can use them."
    );
}

#[test]
fn test_is_selector_tool() {
    assert!(ToolConverter::is_selector_tool("select_toolset_web-tools"));
    assert!(ToolConverter::is_selector_tool("select_toolset_"));
    assert!(!ToolConverter::is_selector_tool("http_request"));
    assert!(!ToolConverter::is_selector_tool("select_toolset"));
    assert!(!ToolConverter::is_selector_tool(""));
}

#[test]
fn test_tool_call_name_for_tool_execution_request() {
    let req = ToolExecutionRequest {
        call_id: "id1".to_string(),
        fn_name: "my_tool".to_string(),
        fn_arguments: "{}".to_string(),
    };
    assert_eq!(req.tool_name(), "my_tool");
}

#[test]
fn test_filter_selector_tools_removes_selectors() {
    let calls = vec![
        MockToolCall {
            name: "select_toolset_web".to_string(),
        },
        MockToolCall {
            name: "http_request".to_string(),
        },
        MockToolCall {
            name: "select_toolset_data".to_string(),
        },
        MockToolCall {
            name: "command".to_string(),
        },
    ];
    let filtered = ToolConverter::filter_selector_tools(calls);
    assert_eq!(filtered.len(), 2);
    assert_eq!(filtered[0].tool_name(), "http_request");
    assert_eq!(filtered[1].tool_name(), "command");
}

#[test]
fn test_filter_selector_tools_all_selectors_returns_empty() {
    let calls = vec![
        MockToolCall {
            name: "select_toolset_a".to_string(),
        },
        MockToolCall {
            name: "select_toolset_b".to_string(),
        },
    ];
    let filtered = ToolConverter::filter_selector_tools(calls);
    assert!(filtered.is_empty());
}

#[test]
fn test_filter_selector_tools_empty_input() {
    let calls: Vec<MockToolCall> = vec![];
    let filtered = ToolConverter::filter_selector_tools(calls);
    assert!(filtered.is_empty());
}

#[test]
fn test_retain_non_selector_tools() {
    let mut calls = vec![
        MockToolCall {
            name: "select_toolset_web".to_string(),
        },
        MockToolCall {
            name: "http_request".to_string(),
        },
    ];
    ToolConverter::retain_non_selector_tools(&mut calls);
    assert_eq!(calls.len(), 1);
    assert_eq!(calls[0].tool_name(), "http_request");
}

#[test]
fn filtering_twice_changes_nothing() {
    let calls = vec![
        MockToolCall { name: "a".to_string() },
        MockToolCall { name: "select_toolset_x".to_string() },
        MockToolCall { name: "b".to_string() },
    ];
    let once = ToolConverter::filter_selector_tools(calls);
    let names_once: Vec<String> = once.iter().map(|c| c.name.clone()).collect();
    let twice = ToolConverter::filter_selector_tools(once);
    let names_twice: Vec<String> = twice.iter().map(|c| c.name.clone()).collect();
    assert_eq!(names_once, vec!["a".to_string(), "b".to_string()]);
    assert_eq!(names_once, names_twice);
}

#[test]
fn test_evaluate_auto_select_finds_selector() {
    let calls = vec![
        MockToolCall {
            name: "select_toolset_web-tools".to_string(),
        },
        MockToolCall {
            name: "other_tool".to_string(),
        },
    ];
    let names = names(&["select_toolset_web-tools"]);

    let args = LlmChatArgs::default();
    let result = ToolConverter::evaluate_auto_select(&calls, &names, args, "").unwrap();
    assert_eq!(result.selected_set_name, "web-tools");
    // Even when original args have no function_options, selected_set_name must be propagated
    let fo = result.second_args.function_options.unwrap();
    assert_eq!(fo.function_set_name, Some("web-tools".to_string()));
    assert_eq!(fo.auto_select_function_set, Some(false));
}

#[test]
fn test_evaluate_auto_select_with_function_options() {
    let calls = vec![MockToolCall {
        name: "select_toolset_my-set".to_string(),
    }];
    let names = names(&["select_toolset_my-set"]);

    let args = LlmChatArgs {
        function_options: Some(FunctionOptions {
            auto_select_function_set: Some(true),
            ..Default::default()
        }),
        ..Default::default()
    };
    let result = ToolConverter::evaluate_auto_select(&calls, &names, args, " (stream)").unwrap();
    assert_eq!(result.selected_set_name, "my-set");
    let fo = result.second_args.function_options.unwrap();
    assert_eq!(fo.function_set_name, Some("my-set".to_string()));
    assert_eq!(fo.auto_select_function_set, Some(false));
}

#[test]
fn test_evaluate_auto_select_no_selector_returns_error() {
    let calls = vec![MockToolCall {
        name: "http_request".to_string(),
    }];
    let names = names(&["select_toolset_web"]);

    let args = LlmChatArgs::default();
    let result = ToolConverter::evaluate_auto_select(&calls, &names, args, "");
    assert!(result.is_err());
    let err_msg = result.unwrap_err().message;
    assert!(err_msg.contains("Auto-select failed"));
}

#[test]
fn evaluate_auto_select_error_lists_attempted_names() {
    let calls = vec![
        MockToolCall { name: "a".to_string() },
        MockToolCall { name: "b".to_string() },
    ];
    let err = ToolConverter::evaluate_auto_select(&calls, &names(&["x"]), LlmChatArgs::default(), "")
        .unwrap_err();
    assert_eq!(err.attempted_names, names(&["a", "b"]));
    assert_eq!(err.message, "Auto-select failed: LLM called [\"a\", \"b\"] instead of selector tools");
}

#[test]
fn evaluate_auto_select_uses_first_selector_and_keeps_other_args() {
    let calls = vec![
        MockToolCall { name: "plain".to_string() },
        MockToolCall { name: "select_toolset_two".to_string() },
        MockToolCall { name: "select_toolset_one".to_string() },
    ];
    let args = LlmChatArgs {
        model: Some("m".to_string()),
        json_schema: Some("{}".to_string()),
        function_options: Some(FunctionOptions {
            use_function_calling: true,
            is_auto_calling: Some(true),
            ..Default::default()
        }),
        ..Default::default()
    };
    let r = ToolConverter::evaluate_auto_select(
        &calls,
        &names(&["select_toolset_one", "select_toolset_two"]),
        args,
        "",
    )
    .unwrap();
    assert_eq!(r.selected_set_name, "two");
    assert_eq!(r.second_args.model, Some("m".to_string()));
    assert_eq!(r.second_args.json_schema, Some("{}".to_string()));
    let fo = r.second_args.function_options.unwrap();
    assert_eq!(fo.is_auto_calling, Some(true));
    assert_eq!(fo.function_set_name, Some("two".to_string()));
}

fn tool_requests_message(reqs: Vec<ToolExecutionRequest>) -> ChatMessage {
    ChatMessage {
        role: ChatRole::Tool,
        content: Some(MessageContent::ToolExecutionRequests(reqs)),
    }
}

#[test]
fn test_skip_selector_tool_execution_with_selector() {
    let req = ToolExecutionRequest {
        call_id: "call-1".to_string(),
        fn_name: "select_toolset_web".to_string(),
        fn_arguments: "{}".to_string(),
    };

    let mut messages = vec![tool_requests_message(vec![req.clone()])];

    assert!(ToolConverter::skip_selector_tool_execution(&req, &mut messages));
    // Message should have been replaced with text
    match &messages[0].content {
        Some(MessageContent::Text(t)) => assert_eq!(t, "Tool selection completed"),
        other => panic!("Expected Text content, got {:?}", other),
    }
}

#[test]
fn test_skip_selector_tool_execution_with_normal_tool() {
    let req = ToolExecutionRequest {
        call_id: "call-1".to_string(),
        fn_name: "http_request".to_string(),
        fn_arguments: "{}".to_string(),
    };
    let mut messages = vec![];
    assert!(!ToolConverter::skip_selector_tool_execution(&req, &mut messages));
}

#[test]
fn test_replace_tool_execution_preserves_other_requests() {
    let req1 = ToolExecutionRequest {
        call_id: "call-1".to_string(),
        fn_name: "tool_a".to_string(),
        fn_arguments: "{}".to_string(),
    };
    let req2 = ToolExecutionRequest {
        call_id: "call-2".to_string(),
        fn_name: "tool_b".to_string(),
        fn_arguments: "{}".to_string(),
    };

    let mut messages = vec![tool_requests_message(vec![req1, req2])];

    // Replace only call-1
    ToolConverter::replace_tool_execution_with_result(&mut messages, "call-1", "result-1");

    // Should now have 2 messages: original with only call-2, and new Text with result-1
    assert_eq!(messages.len(), 2);

    // First message should still have call-2
    match &messages[0].content {
        Some(MessageContent::ToolExecutionRequests(reqs)) => {
            assert_eq!(reqs.len(), 1);
            assert_eq!(reqs[0].call_id, "call-2");
        }
        other => panic!("Expected ToolExecutionRequests, got {:?}", other),
    }

    // Second message should be the text result
    match &messages[1].content {
        Some(MessageContent::Text(t)) => assert_eq!(t, "result-1"),
        other => panic!("Expected Text content, got {:?}", other),
    }

    // Now replace call-2 — should collapse to Text
    ToolConverter::replace_tool_execution_with_result(&mut messages, "call-2", "result-2");

    // First message should now be Text
    assert_eq!(messages.len(), 2);
    match &messages[0].content {
        Some(MessageContent::Text(t)) => assert_eq!(t, "result-2"),
        other => panic!("Expected Text content, got {:?}", other),
    }
}

#[test]
fn replace_tool_execution_unknown_call_id_changes_nothing() {
    let req = ToolExecutionRequest {
        call_id: "c".to_string(),
        fn_name: "t".to_string(),
        fn_arguments: "{}".to_string(),
    };
    let mut messages = vec![
        ChatMessage { role: ChatRole::User, content: Some(MessageContent::Text("hi".to_string())) },
        tool_requests_message(vec![req]),
    ];
    ToolConverter::replace_tool_execution_with_result(&mut messages, "nope", "r");
    assert_eq!(messages.len(), 2);
    assert!(matches!(&messages[1].content, Some(MessageContent::ToolExecutionRequests(r)) if r.len() == 1));
}

#[test]
fn test_evaluate_auto_select_none_function_options_propagates() {
    let calls = vec![MockToolCall {
        name: "select_toolset_api-tools".to_string(),
    }];
    let names = names(&["select_toolset_api-tools"]);

    // function_options is None
    let args = LlmChatArgs {
        function_options: None,
        ..Default::default()
    };
    let result = ToolConverter::evaluate_auto_select(&calls, &names, args, "").unwrap();
    assert_eq!(result.selected_set_name, "api-tools");

    let fo = result
        .second_args
        .function_options
        .expect("function_options should be Some");
    assert_eq!(fo.function_set_name, Some("api-tools".to_string()));
    assert_eq!(fo.auto_select_function_set, Some(false));
    assert!(fo.use_function_calling);
}

// ====== resolve_tool_results tests ======

fn assistant_with_tool_calls(calls: Vec<(&str, &str)>) -> ChatMessage {
    ChatMessage {
        role: ChatRole::Assistant,
        content: Some(MessageContent::ToolCalls(
            calls
                .into_iter()
                .map(|(call_id, fn_name)| ToolCall {
                    call_id: call_id.to_string(),
                    fn_name: fn_name.to_string(),
                    fn_arguments: "{}".to_string(),
                })
                .collect(),
        )),
    }
}

fn tool_msg_with_results(results: Vec<(&str, &str, &str, bool)>) -> ChatMessage {
    ChatMessage {
        role: ChatRole::Tool,
        content: Some(MessageContent::ToolResults(
            results
                .into_iter()
                .map(|(call_id, fn_name, content, is_error)| ToolResult {
                    call_id: call_id.to_string(),
                    fn_name: fn_name.to_string(),
                    content: content.to_string(),
                    is_error,
                })
                .collect(),
        )),
    }
}

/// Pull the embedded results out of a TOOL-role test message.
fn extract_tool_results(msg: &ChatMessage) -> Vec<ToolResult> {
    match msg.content.as_ref().unwrap() {
        MessageContent::ToolResults(r) => r.clone(),
        other => panic!("expected ToolResults, got {other:?}"),
    }
}

#[test]
fn test_resolve_tool_results_explicit_fn_name() {
    let messages = [
        assistant_with_tool_calls(vec![("c1", "tool_a")]),
        tool_msg_with_results(vec![("c1", "tool_a", "ok", false)]),
    ];
    let results = extract_tool_results(&messages[1]);
    let resolved = ToolConverter::resolve_tool_results(&messages[..1], &results).unwrap();
    assert_eq!(resolved.len(), 1);
    assert_eq!(resolved[0].call_id, "c1");
    assert_eq!(resolved[0].fn_name, "tool_a");
    assert_eq!(resolved[0].content, "ok");
    assert!(!resolved[0].is_error);
}

#[test]
fn test_resolve_tool_results_fn_name_reverse_resolved() {
    let messages = [
        assistant_with_tool_calls(vec![("c1", "tool_a"), ("c2", "tool_b")]),
        tool_msg_with_results(vec![("c2", "", "ok", false)]),
    ];
    let results = extract_tool_results(&messages[1]);
    let resolved = ToolConverter::resolve_tool_results(&messages[..1], &results).unwrap();
    assert_eq!(resolved[0].fn_name, "tool_b");
}

#[test]
fn test_resolve_tool_results_reverse_scan_picks_latest_assistant() {
    // When the same call_id appears in multiple ASSISTANT messages,
    // the most-recent declaration must win.
    let messages = [
        assistant_with_tool_calls(vec![("c1", "old_name")]),
        assistant_with_tool_calls(vec![("c1", "new_name")]),
        tool_msg_with_results(vec![("c1", "", "ok", false)]),
    ];
    let results = extract_tool_results(&messages[2]);
    let resolved = ToolConverter::resolve_tool_results(&messages[..2], &results).unwrap();
    assert_eq!(resolved[0].fn_name, "new_name");
}

#[test]
fn test_resolve_tool_results_empty_results_bails() {
    let messages = [assistant_with_tool_calls(vec![("c1", "tool_a")])];
    let empty: Vec<ToolResult> = vec![];
    let err = ToolConverter::resolve_tool_results(&messages, &empty).unwrap_err();
    assert!(err.message().contains("must not be empty"));
}

#[test]
fn test_resolve_tool_results_empty_call_id_bails() {
    let messages = [
        assistant_with_tool_calls(vec![("c1", "tool_a")]),
        tool_msg_with_results(vec![("", "tool_a", "ok", false)]),
    ];
    let results = extract_tool_results(&messages[1]);
    let err = ToolConverter::resolve_tool_results(&messages[..1], &results).unwrap_err();
    assert!(err.message().contains("call_id must not be empty"));
}

#[test]
fn test_resolve_tool_results_unmatched_call_id_bails() {
    let messages = [
        assistant_with_tool_calls(vec![("c1", "tool_a")]),
        tool_msg_with_results(vec![("c-nonexistent", "tool_a", "ok", false)]),
    ];
    let results = extract_tool_results(&messages[1]);
    let err = ToolConverter::resolve_tool_results(&messages[..1], &results).unwrap_err();
    assert!(err.message().contains("call_id not found"));
}

#[test]
fn test_resolve_tool_results_no_assistant_history_bails() {
    // No prior ASSISTANT messages at all → must bail.
    let messages = [tool_msg_with_results(vec![("c1", "", "ok", false)])];
    let results = extract_tool_results(&messages[0]);
    let err = ToolConverter::resolve_tool_results(&[], &results).unwrap_err();
    assert!(
        err.message().contains("tool_results must follow an ASSISTANT"),
        "unexpected error: {}",
        err.message()
    );
}

#[test]
fn test_resolve_tool_results_user_in_between_bails() {
    let messages = [
        assistant_with_tool_calls(vec![("c1", "tool_a")]),
        ChatMessage {
            role: ChatRole::User,
            content: Some(MessageContent::Text("interruption".to_string())),
        },
        tool_msg_with_results(vec![("c1", "tool_a", "ok", false)]),
    ];
    let results = extract_tool_results(&messages[2]);
    let err = ToolConverter::resolve_tool_results(&messages[..2], &results).unwrap_err();
    assert!(
        err.message().contains("tool_results must follow an ASSISTANT"),
        "unexpected error: {}",
        err.message()
    );
}

#[test]
fn test_resolve_tool_results_assistant_without_tool_calls_bails() {
    let messages = [
        assistant_with_tool_calls(vec![("c1", "tool_a")]),
        ChatMessage {
            role: ChatRole::Assistant,
            content: Some(MessageContent::Text("plain reply".to_string())),
        },
        tool_msg_with_results(vec![("c1", "tool_a", "ok", false)]),
    ];
    let results = extract_tool_results(&messages[2]);
    let err = ToolConverter::resolve_tool_results(&messages[..2], &results).unwrap_err();
    assert!(
        err.message().contains("tool_results must follow an ASSISTANT"),
        "unexpected error: {}",
        err.message()
    );
}

#[test]
fn test_resolve_tool_results_allows_consecutive_tool_messages() {
    let messages = [
        assistant_with_tool_calls(vec![("c1", "tool_a"), ("c2", "tool_b")]),
        tool_msg_with_results(vec![("c1", "tool_a", "first", false)]),
        tool_msg_with_results(vec![("c2", "tool_b", "second", false)]),
    ];
    let results = extract_tool_results(&messages[2]);
    let resolved = ToolConverter::resolve_tool_results(&messages[..2], &results).unwrap();
    assert_eq!(resolved[0].call_id, "c2");
    assert_eq!(resolved[0].fn_name, "tool_b");
}

#[test]
fn test_resolve_tool_results_preserves_order_and_is_error() {
    let messages = [
        assistant_with_tool_calls(vec![("c1", "tool_a"), ("c2", "tool_b")]),
        tool_msg_with_results(vec![
            ("c1", "tool_a", "first", false),
            ("c2", "tool_b", "second-failed", true),
        ]),
    ];
    let results = extract_tool_results(&messages[1]);
    let resolved = ToolConverter::resolve_tool_results(&messages[..1], &results).unwrap();
    assert_eq!(resolved.len(), 2);
    assert_eq!(resolved[0].call_id, "c1");
    assert!(!resolved[0].is_error);
    assert_eq!(resolved[1].call_id, "c2");
    assert!(resolved[1].is_error);
    assert_eq!(resolved[1].content, "second-failed");
}

#[test]
fn test_validate_all_tool_results_passes_on_valid_input() {
    let messages = vec![
        ChatMessage {
            role: ChatRole::User,
            content: Some(MessageContent::Text("hello".to_string())),
        },
        assistant_with_tool_calls(vec![("c1", "tool_a")]),
        tool_msg_with_results(vec![("c1", "tool_a", "ok", false)]),
    ];
    let args = LlmChatArgs {
        messages,
        ..Default::default()
    };
    ToolConverter::validate_all_tool_results(&args).unwrap();
}

#[test]
fn test_validate_all_tool_results_bails_on_invalid_input() {
    let messages = vec![
        assistant_with_tool_calls(vec![("c1", "tool_a")]),
        tool_msg_with_results(vec![("c-unknown", "tool_a", "ok", false)]),
    ];
    let args = LlmChatArgs {
        messages,
        ..Default::default()
    };
    let err = ToolConverter::validate_all_tool_results(&args).unwrap_err();
    assert!(err.message().contains("call_id not found"));
}

#[test]
fn test_resolved_tool_result_display_content() {
    let ok = ResolvedToolResult {
        call_id: "c1".to_string(),
        fn_name: "tool_a".to_string(),
        content: "fine".to_string(),
        is_error: false,
    };
    assert_eq!(ok.display_content(), "fine");

    let err = ResolvedToolResult {
        call_id: "c2".to_string(),
        fn_name: "tool_b".to_string(),
        content: "boom".to_string(),
        is_error: true,
    };
    assert_eq!(err.display_content(), "[ERROR] boom");
}

#[test]
fn test_validate_all_tool_results_bails_on_non_tool_role() {
    let bad = ChatMessage {
        role: ChatRole::User,
        content: Some(MessageContent::ToolResults(vec![ToolResult {
            call_id: "c1".to_string(),
            fn_name: "tool_a".to_string(),
            content: "ok".to_string(),
            is_error: false,
        }])),
    };
    let args = LlmChatArgs {
        messages: vec![assistant_with_tool_calls(vec![("c1", "tool_a")]), bad],
        ..Default::default()
    };
    let err = ToolConverter::validate_all_tool_results(&args).unwrap_err();
    assert!(
        err.message().contains("must ride on a TOOL-role message"),
        "unexpected error: {}",
        err.message()
    );
    assert_eq!(
        err.message(),
        "tool_results must ride on a TOOL-role message, got role=User at message index 1"
    );
}

#[test]
fn effective_is_auto_calling_rules() {
    let mut args = LlmChatArgs::default();
    assert!(!ToolConverter::effective_is_auto_calling(&args));
    args.function_options = Some(FunctionOptions {
        is_auto_calling: Some(true),
        ..Default::default()
    });
    assert!(ToolConverter::effective_is_auto_calling(&args));
    args.function_options = Some(FunctionOptions {
        is_auto_calling: Some(true),
        client_tools_json: Some("[]".to_string()),
        ..Default::default()
    });
    assert!(!ToolConverter::effective_is_auto_calling(&args));
    args.function_options = Some(FunctionOptions {
        is_auto_calling: Some(true),
        client_tools_json: Some(String::new()),
        ..Default::default()
    });
    assert!(ToolConverter::effective_is_auto_calling(&args));
}

#[test]
fn server_driven_tool_selection_knobs() {
    assert!(!ToolConverter::server_driven_tool_selection_set(&FunctionOptions::default()));
    assert!(ToolConverter::server_driven_tool_selection_set(&FunctionOptions {
        function_set_name: Some("s".to_string()),
        ..Default::default()
    }));
    assert!(ToolConverter::server_driven_tool_selection_set(&FunctionOptions {
        use_runners_as_function: Some(false),
        ..Default::default()
    }));
    assert!(!ToolConverter::server_driven_tool_selection_set(&FunctionOptions {
        auto_select_function_set: Some(false),
        ..Default::default()
    }));
    assert!(ToolConverter::server_driven_tool_selection_set(&FunctionOptions {
        auto_select_function_set: Some(true),
        ..Default::default()
    }));
}

#[test]
fn tool_summaries_name_methods() {
    let specs = vec![
        FunctionSpecs {
            name: "plain".to_string(),
            description: "P".to_string(),
            settings_schema: String::new(),
            methods: None,
            worker_id: None,
        },
        FunctionSpecs {
            name: "plug".to_string(),
            description: "G".to_string(),
            settings_schema: String::new(),
            methods: Some(vec![
                ("run".to_string(), MethodSchema { description: None, arguments_schema: "{}".to_string() }),
                (
                    "method_a".to_string(),
                    MethodSchema { description: Some("A".to_string()), arguments_schema: "{}".to_string() },
                ),
            ]),
            worker_id: None,
        },
    ];
    let s = ToolConverter::get_tool_summaries(&specs);
    assert_eq!(
        s,
        vec![
            ("plain".to_string(), "P".to_string()),
            ("plug".to_string(), "G".to_string()),
            ("plug___method_a".to_string(), "A".to_string()),
        ]
    );
}

#[test]
fn extract_tool_execution_requests_collects_tool_messages_only() {
    let r = |id: &str| ToolExecutionRequest {
        call_id: id.to_string(),
        fn_name: "f".to_string(),
        fn_arguments: "{}".to_string(),
    };
    let args = LlmChatArgs {
        messages: vec![
            tool_requests_message(vec![r("1"), r("2")]),
            ChatMessage {
                role: ChatRole::User,
                content: Some(MessageContent::ToolExecutionRequests(vec![r("x")])),
            },
            tool_requests_message(vec![r("3")]),
        ],
        ..Default::default()
    };
    let got = ToolConverter::extract_tool_execution_requests(&args).unwrap();
    let ids: Vec<&str> = got.iter().map(|q| q.call_id.as_str()).collect();
    assert_eq!(ids, vec!["1", "2", "3"]);
    assert!(ToolConverter::extract_tool_execution_requests(&LlmChatArgs::default()).is_none());
}
