use llm_wrapper::chat_model::{FunctionOptions, LlmChatArgs};
use llm_wrapper::function_set_selector::FunctionSetData;
use llm_wrapper::tool_selection::{selector_tools, tool_source, ToolSource};

fn with(fo: FunctionOptions) -> LlmChatArgs {
    LlmChatArgs {
        function_options: Some(fo),
        ..Default::default()
    }
}

#[test]
fn tool_source_precedence() {
    assert_eq!(tool_source(&LlmChatArgs::default()), ToolSource::NoTools);
    assert_eq!(
        tool_source(&with(FunctionOptions {
            function_set_name: Some("s".to_string()),
            ..Default::default()
        })),
        ToolSource::NoTools
    );
    assert_eq!(
        tool_source(&with(FunctionOptions {
            use_function_calling: true,
            function_set_name: Some("s".to_string()),
            auto_select_function_set: Some(true),
            ..Default::default()
        })),
        ToolSource::FunctionSet("s".to_string())
    );
    assert_eq!(
        tool_source(&with(FunctionOptions {
            use_function_calling: true,
            auto_select_function_set: Some(true),
            ..Default::default()
        })),
        ToolSource::AutoSelectSets
    );
    assert_eq!(
        tool_source(&with(FunctionOptions {
            use_function_calling: true,
            use_workers_as_function: Some(true),
            ..Default::default()
        })),
        ToolSource::AllFunctions {
            exclude_runners: true,
            exclude_workers: false
        }
    );
}

#[test]
fn selector_tools_skip_invalid_names() {
    let set = |name: &str| FunctionSetData {
        name: name.to_string(),
        description: "d".to_string(),
        category: 0,
    };
    let sets = vec![
        (set("web"), vec![("fetch".to_string(), "Fetch".to_string())]),
        (set("bad___name"), vec![]),
        (set("data"), vec![]),
    ];
    let (tools, names) = selector_tools(&sets);
    assert_eq!(names, vec!["select_toolset_web".to_string(), "select_toolset_data".to_string()]);
    assert_eq!(tools.len(), 2);
    assert!(tools[0].description.contains("- fetch: Fetch"));
}
