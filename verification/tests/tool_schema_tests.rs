use llm_wrapper::conversion::{FunctionSpecs, MethodSchema, ToolConverter};
use llm_wrapper::tool_schema::McpTool;
use serde_json::Value;

type JsonObject = serde_json::Map<String, Value>;

fn j(text: &str) -> Value {
    serde_json::from_str(text).unwrap()
}

fn no_runner_schema(_: &FunctionSpecs, _: &MethodSchema) -> Option<JsonObject> {
    None
}

fn worker_spec(name: &str, description: &str, method_description: &str, arguments: Value, worker: i64) -> FunctionSpecs {
    FunctionSpecs {
        name: name.to_string(),
        description: description.to_string(),
        settings_schema: String::new(),
        methods: Some(vec![(
            "run".to_string(),
            MethodSchema {
                description: Some(method_description.to_string()),
                arguments_schema: arguments.to_string(),
            },
        )]),
        worker_id: Some(worker),
    }
}

/// WORKFLOW worker spec: arguments_schema already holds the workflow's own
/// `input` schema.
fn make_workflow_worker_spec() -> FunctionSpecs {
    worker_spec(
        "wf_worker",
        "wf worker description",
        "wf worker summary",
        j(r#"{ "type": "object", "properties": { "owner": {"type": "string"}, "repo": {"type": "string"} } }"#),
        42,
    )
}

/// Non-WORKFLOW worker (e.g. COMMAND) backed by a pre-configured worker.
fn make_command_worker_spec() -> FunctionSpecs {
    worker_spec(
        "cmd_worker",
        "cmd worker description",
        "cmd worker",
        j(r#"{ "type": "object", "properties": {"command": {"type": "string"}} }"#),
        7,
    )
}

fn find<'a>(tools: &'a [McpTool], name: &str) -> &'a McpTool {
    tools.iter().find(|t| t.name == name).expect("tool should exist")
}

#[test]
fn test_workflow_worker_tool_schema_is_unwrapped() {
    let tools =
        ToolConverter::convert_functions_to_mcp_tools(vec![make_workflow_worker_spec()], &no_runner_schema);
    let tool = find(&tools, "wf_worker");

    // Description comes from the method (workflow summary), not the generic description.
    assert_eq!(tool.description, "wf worker summary");

    let props = tool
        .input_schema
        .get("properties")
        .and_then(|p| p.as_object())
        .expect("input schema should have properties");

    // No wrapper keys: input fields are exposed directly at the top level.
    assert!(!props.contains_key("arguments"));
    assert!(!props.contains_key("settings"));
    assert!(props.contains_key("owner") && props.contains_key("repo"));
    assert_eq!(tool.input_schema.get("type").and_then(|v| v.as_str()), Some("object"));
}

#[test]
fn test_command_worker_tool_schema_is_unwrapped() {
    let tools =
        ToolConverter::convert_functions_to_mcp_tools(vec![make_command_worker_spec()], &no_runner_schema);
    let tool = find(&tools, "cmd_worker");

    let props = tool
        .input_schema
        .get("properties")
        .and_then(|p| p.as_object())
        .expect("input schema should have properties");

    assert!(!props.contains_key("arguments") && !props.contains_key("settings"));
    assert!(props.contains_key("command"));
}

#[test]
fn test_worker_tool_schema_defaults_missing_type_to_object() {
    // Mimics `input: {}`: a JSON object schema without a `type` key.
    let spec = FunctionSpecs {
        name: "empty_input_worker".to_string(),
        description: "desc".to_string(),
        settings_schema: String::new(),
        methods: Some(vec![(
            "run".to_string(),
            MethodSchema { description: Some("empty input".to_string()), arguments_schema: "{}".to_string() },
        )]),
        worker_id: Some(99),
    };
    let tools = ToolConverter::convert_functions_to_mcp_tools(vec![spec], &no_runner_schema);
    let tool = find(&tools, "empty_input_worker");
    assert_eq!(tool.input_schema.get("type").and_then(|v| v.as_str()), Some("object"));
}

#[test]
fn test_worker_tool_schema_preserves_existing_type() {
    let spec = FunctionSpecs {
        name: "typed_worker".to_string(),
        description: "desc".to_string(),
        settings_schema: String::new(),
        methods: Some(vec![(
            "run".to_string(),
            MethodSchema {
                description: Some("typed".to_string()),
                arguments_schema: j(r#"{"type": "object", "properties": {"a": {"type": "string"}}}"#)
                    .to_string(),
            },
        )]),
        worker_id: Some(100),
    };
    let tools = ToolConverter::convert_functions_to_mcp_tools(vec![spec], &no_runner_schema);
    let tool = find(&tools, "typed_worker");
    assert_eq!(tool.input_schema.get("type").and_then(|v| v.as_str()), Some("object"));
    assert!(tool
        .input_schema
        .get("properties")
        .and_then(|p| p.as_object())
        .is_some_and(|p| p.contains_key("a")));
}

#[test]
fn worker_with_an_unusable_arguments_schema_gets_the_empty_object_schema() {
    let expected = j(r#"{"type": "object", "properties": {}}"#);
    for text in ["not json", "true", "[1, 2]"] {
        let spec = worker_spec("w", "d", "m", Value::Null, 1);
        let spec = FunctionSpecs {
            methods: Some(vec![(
                "run".to_string(),
                MethodSchema { description: None, arguments_schema: text.to_string() },
            )]),
            ..spec
        };
        let tools = ToolConverter::convert_normal_function(&spec, &no_runner_schema);
        assert_eq!(tools.len(), 1);
        assert_eq!(Value::Object(tools[0].input_schema.clone()), expected);
        // No method description: the function's description is used.
        assert_eq!(tools[0].description, "d");
    }
}

#[test]
fn worker_schema_keeps_a_non_object_type() {
    let spec = worker_spec("w", "d", "m", j(r#"{"type": "string"}"#), 1);
    let tools = ToolConverter::convert_normal_function(&spec, &no_runner_schema);
    assert_eq!(tools[0].input_schema.get("type"), Some(&j(r#""string""#)));
}

#[test]
fn empty_object_schema_is_an_object_with_no_properties() {
    assert_eq!(
        Value::Object(ToolConverter::empty_object_schema()),
        j(r#"{"type": "object", "properties": {}}"#)
    );
}

#[test]
fn runner_methods_take_the_runner_schema_and_are_dropped_without_one() {
    let spec = FunctionSpecs {
        name: "plug".to_string(),
        description: "plugin".to_string(),
        settings_schema: j(r#"{"type": "object"}"#).to_string(),
        methods: Some(vec![
            ("run".to_string(), MethodSchema { description: None, arguments_schema: "{}".to_string() }),
            (
                "skip_me".to_string(),
                MethodSchema { description: Some("skipped".to_string()), arguments_schema: "{}".to_string() },
            ),
            (
                "other".to_string(),
                MethodSchema { description: Some("Other".to_string()), arguments_schema: "{}".to_string() },
            ),
        ]),
        worker_id: None,
    };
    let combine = |f: &FunctionSpecs, m: &MethodSchema| -> Option<JsonObject> {
        if m.description.as_deref() == Some("skipped") {
            return None;
        }
        let mut schema = JsonObject::new();
        schema.insert("runner".to_string(), Value::String(f.name.clone()));
        Some(schema)
    };
    let tools = ToolConverter::convert_normal_function(&spec, &combine);
    let names: Vec<&str> = tools.iter().map(|t| t.name.as_str()).collect();
    assert_eq!(names, vec!["plug", "plug___other"]);
    assert_eq!(tools[0].description, "plugin");
    assert_eq!(tools[1].description, "Other");
    assert_eq!(tools[1].input_schema.get("runner"), Some(&j(r#""plug""#)));
}

#[test]
fn functions_without_methods_give_no_tools_and_lists_concatenate() {
    let none = FunctionSpecs {
        name: "bare".to_string(),
        description: "no methods".to_string(),
        settings_schema: String::new(),
        methods: None,
        worker_id: Some(3),
    };
    assert!(ToolConverter::convert_normal_function(&none, &no_runner_schema).is_empty());
    let tools = ToolConverter::convert_functions_to_mcp_tools(
        vec![make_workflow_worker_spec(), none, make_command_worker_spec()],
        &no_runner_schema,
    );
    let names: Vec<&str> = tools.iter().map(|t| t.name.as_str()).collect();
    assert_eq!(names, vec!["wf_worker", "cmd_worker"]);
}
