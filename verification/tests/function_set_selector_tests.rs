use llm_wrapper::conversion::{FunctionSpecs, MethodSchema};
use llm_wrapper::function_set_selector::{
    default_entry, default_entry_template_text, default_result, default_result_template_text,
    default_tool_entry, default_tool_entry_template_text, filter_and_page, join_strings,
    FunctionSetData, FunctionSetSelectorArgs, FunctionSetSelectorImpl,
    FunctionSetSelectorSettings,
};

fn set(name: &str, category: i32) -> Option<FunctionSetData> {
    Some(FunctionSetData {
        name: name.to_string(),
        description: format!("{name} tools"),
        category,
    })
}

fn names(v: &[FunctionSetData]) -> Vec<&str> {
    v.iter().map(|d| d.name.as_str()).collect()
}

#[test]
fn filters_by_category_and_case_insensitive_name() {
    let sets = vec![set("Web-Tools", 1), None, set("data", 2), set("web_extra", 2)];
    let args = FunctionSetSelectorArgs {
        name_filter: Some("WEB".to_string()),
        ..Default::default()
    };
    let (page, total) = filter_and_page(sets.clone(), &args);
    assert_eq!(total, 2);
    assert_eq!(names(&page), vec!["Web-Tools", "web_extra"]);

    let args = FunctionSetSelectorArgs {
        category: Some(2),
        ..Default::default()
    };
    let (page, total) = filter_and_page(sets, &args);
    assert_eq!(total, 2);
    assert_eq!(names(&page), vec!["data", "web_extra"]);
}

#[test]
fn paging_counts_before_the_page() {
    let sets = vec![set("a", 0), set("b", 0), set("c", 0), set("d", 0)];
    let args = FunctionSetSelectorArgs {
        offset: Some(1),
        limit: Some(2),
        ..Default::default()
    };
    let (page, total) = filter_and_page(sets.clone(), &args);
    assert_eq!(total, 4);
    assert_eq!(names(&page), vec!["b", "c"]);

    // Negative offset counts as 0; zero or negative limit means no limit.
    let args = FunctionSetSelectorArgs {
        offset: Some(-3),
        limit: Some(0),
        ..Default::default()
    };
    let (page, _) = filter_and_page(sets.clone(), &args);
    assert_eq!(names(&page), vec!["a", "b", "c", "d"]);

    // Offset past the end gives an empty page.
    let args = FunctionSetSelectorArgs {
        offset: Some(10),
        ..Default::default()
    };
    let (page, total) = filter_and_page(sets, &args);
    assert!(page.is_empty());
    assert_eq!(total, 4);
}

#[test]
fn default_texts() {
    let tool = default_tool_entry("test_tool", "A test tool");
    assert_eq!(tool, "- test_tool: A test tool");
    let entry = default_entry("my-set", "A test set", &tool, 1);
    assert_eq!(
        entry,
        "## my-set\nA test set\n\nAvailable tools (1):\n- test_tool: A test tool"
    );
    let result = default_result(&entry);
    assert!(result.starts_with("The following FunctionSets are available"));
    assert!(result.contains("## my-set"));
    assert_eq!(default_entry("s", "d", "", 120).lines().nth(3).unwrap(), "Available tools (120):");
}

#[test]
fn join_strings_like_std_join() {
    let parts = vec!["a".to_string(), "b".to_string(), "c".to_string()];
    assert_eq!(join_strings(&parts, "\n\n"), parts.join("\n\n"));
    assert_eq!(join_strings(&vec![], "-"), "");
    assert_eq!(join_strings(&vec!["x".to_string()], "-"), "x");
}

fn loaded(settings: &FunctionSetSelectorSettings) -> FunctionSetSelectorImpl {
    let mut selector = FunctionSetSelectorImpl::new();
    selector.load(settings).unwrap();
    selector
}

#[test]
fn test_default_templates_parse() {
    FunctionSetSelectorImpl::parse_template(default_entry_template_text()).unwrap();
    FunctionSetSelectorImpl::parse_template(default_result_template_text()).unwrap();
    FunctionSetSelectorImpl::parse_template(default_tool_entry_template_text()).unwrap();
}

#[test]
fn test_template_rendering() {
    let selector = loaded(&FunctionSetSelectorSettings::default());

    // Test tool entry rendering
    let rendered = selector.render_tool_entry("test_tool", "A test tool");
    assert_eq!(rendered, "- test_tool: A test tool");

    // Test entry rendering
    let entry = selector.render_entry("my-set", "A test set", 1, "- test_tool: A test tool", 1);
    assert!(entry.contains("## my-set"));
    assert!(entry.contains("A test set"));
    assert!(entry.contains("Available tools (1)"));

    // Test result rendering
    let result = selector.render_result(&entry, 1);
    assert!(result.contains("The following FunctionSets are available"));
    assert!(result.contains("## my-set"));
}

#[test]
fn test_custom_template_parse() {
    let custom = "**{{ name }}** ({{ tool_count }} tools): {{ description }}";
    FunctionSetSelectorImpl::parse_template(custom).unwrap();
}

#[test]
fn test_invalid_template_fails() {
    let invalid = "{{ unclosed";
    assert!(FunctionSetSelectorImpl::parse_template(invalid).is_err());
}

#[test]
fn parse_template_keeps_its_source_and_names_the_failure() {
    let t = FunctionSetSelectorImpl::parse_template("x {{ y }}").unwrap();
    assert_eq!(t.source, "x {{ y }}");
    let e = FunctionSetSelectorImpl::parse_template("{{ unclosed").err().unwrap();
    assert!(e.message().starts_with("Failed to parse liquid template: "));
}

#[test]
fn default_templates_render_like_the_default_texts() {
    let selector = loaded(&FunctionSetSelectorSettings::default());
    assert_eq!(
        selector.render_tool_entry("t", "does t"),
        default_tool_entry("t", "does t")
    );
    assert_eq!(
        selector.render_entry("s", "set s", 3, "- t: does t", 1),
        default_entry("s", "set s", "- t: does t", 1)
    );
    assert_eq!(selector.render_result("E", 1), default_result("E"));
}

#[test]
fn custom_templates_are_used_and_empty_ones_fall_back() {
    let settings = FunctionSetSelectorSettings {
        entry_template: Some("**{{ name }}** ({{ tool_count }} tools, category {{ category }})".to_string()),
        result_template: Some(String::new()),
        tool_entry_template: Some("* {{ tool_name }}".to_string()),
    };
    let selector = loaded(&settings);
    assert_eq!(selector.entry_template.as_ref().unwrap().source, settings.entry_template.clone().unwrap());
    assert_eq!(selector.result_template.as_ref().unwrap().source, default_result_template_text());
    assert_eq!(selector.render_tool_entry("t", "ignored"), "* t");
    assert_eq!(selector.render_entry("s", "d", 7, "", 2), "**s** (2 tools, category 7)");
    assert_eq!(selector.render_result("E", 5), default_result("E"));
}

#[test]
fn a_failing_load_keeps_the_templates_before_it() {
    let mut selector = FunctionSetSelectorImpl::new();
    let settings = FunctionSetSelectorSettings {
        entry_template: None,
        result_template: Some("{% if %}".to_string()),
        tool_entry_template: None,
    };
    assert!(selector.load(&settings).is_err());
    assert!(selector.entry_template.is_some());
    assert!(selector.result_template.is_none());
    assert!(selector.tool_entry_template.is_none());
}

#[test]
fn format_output_in_the_default_layout() {
    let selector = FunctionSetSelectorImpl::new();
    let page = vec![
        FunctionSetData { name: "web".to_string(), description: "Web tools".to_string(), category: 1 },
        FunctionSetData { name: "empty".to_string(), description: "Nothing".to_string(), category: 2 },
    ];
    let specs = vec![FunctionSpecs {
        name: "fetch".to_string(),
        description: "Fetch a page".to_string(),
        settings_schema: String::new(),
        methods: Some(vec![(
            "run".to_string(),
            MethodSchema { description: None, arguments_schema: "{}".to_string() },
        )]),
        worker_id: None,
    }];
    let out = selector.format_output(&page, &vec![Some(specs), None], 2);
    assert_eq!(
        out,
        "The following FunctionSets are available. Select the most appropriate one for the user's task by name.\n\n\
## web\nWeb tools\n\nAvailable tools (1):\n- fetch: Fetch a page\n\n\
## empty\nNothing\n\nAvailable tools (0):\n"
    );
}

#[test]
fn format_output_with_loaded_default_templates_matches_the_default_layout() {
    let page = vec![FunctionSetData { name: "a".to_string(), description: "A".to_string(), category: 0 }];
    let tools = vec![None];
    let plain = FunctionSetSelectorImpl::new().format_output(&page, &tools, 1);
    let templated = loaded(&FunctionSetSelectorSettings::default()).format_output(&page, &tools, 1);
    assert_eq!(plain, templated);
}
