use llm_wrapper::client_tools::{ClientTool, ClientToolsError, JsonValue, ToolChoice};
use llm_wrapper::conversion::ToolConverter;

fn lookup<'a>(v: &'a JsonValue, key: &str) -> Option<&'a JsonValue> {
    match v {
        JsonValue::Object(e) => e.iter().find(|(k, _)| k == key).map(|(_, v)| v),
        _ => None,
    }
}

/// Parse and validate a client tool list; the error as its text.
fn parse_client_tools_json(json: &str) -> Result<Vec<ClientTool>, String> {
    ToolConverter::parse_client_tools_json(json).map_err(|e: ClientToolsError| e.message())
}

/// Read a client tool choice.
fn parse_tool_choice(raw: &str) -> Option<ToolChoice> {
    ToolConverter::parse_tool_choice(raw)
}

#[test]
fn parse_client_tools_json_single_tool() {
    let json = r#"[
        {"type":"function","function":{
            "name":"lookback_recall",
            "description":"Search past conversations",
            "parameters":{"type":"object","properties":{"query":{"type":"string"}}}
        }}
    ]"#;
    let tools = parse_client_tools_json(json).unwrap();
    assert_eq!(tools.len(), 1);
    assert_eq!(tools[0].name, "lookback_recall");
    assert_eq!(tools[0].description.as_deref(), Some("Search past conversations"));
    // Parameters must be forwarded as given.
    let query = lookup(&tools[0].parameters, "properties")
        .and_then(|p| lookup(p, "query"))
        .and_then(|q| lookup(q, "type"));
    assert!(matches!(query, Some(JsonValue::String(s)) if s == "string"));
}

#[test]
fn parse_client_tools_json_multiple_tools_preserve_order() {
    let json = r#"[
        {"type":"function","function":{"name":"a","parameters":{"type":"object"}}},
        {"type":"function","function":{"name":"b","parameters":{"type":"object"}}}
    ]"#;
    let tools = parse_client_tools_json(json).unwrap();
    assert_eq!(tools.len(), 2);
    assert_eq!(tools[0].name, "a");
    assert_eq!(tools[1].name, "b");
}

#[test]
fn parse_client_tools_json_top_level_not_array_bails() {
    let err = parse_client_tools_json("{}").unwrap_err();
    assert!(err.contains("top-level value must be an array"));
}

#[test]
fn parse_client_tools_json_non_function_type_bails() {
    let json = r#"[{"type":"web_search","function":{"name":"x","parameters":{}}}]"#;
    let err = parse_client_tools_json(json).unwrap_err();
    assert!(err.contains("type=\"function\""));
    assert_eq!(
        err,
        "invalid client_tools_json[0]: only type=\"function\" is supported, got \"web_search\""
    );
}

#[test]
fn parse_client_tools_json_missing_name_bails() {
    let json = r#"[{"type":"function","function":{"parameters":{}}}]"#;
    let err = parse_client_tools_json(json).unwrap_err();
    assert!(err.contains("function.name is required"));
}

#[test]
fn parse_client_tools_json_missing_parameters_bails() {
    let json = r#"[{"type":"function","function":{"name":"x"}}]"#;
    let err = parse_client_tools_json(json).unwrap_err();
    assert!(err.contains("function.parameters is required"));
}

#[test]
fn parse_client_tools_json_non_object_parameters_bails() {
    let json = r#"[{"type":"function","function":{"name":"x","parameters":42}}]"#;
    let err = parse_client_tools_json(json).unwrap_err();
    assert!(err.contains("must be an object"));
}

#[test]
fn client_tools_first_rejected_element_is_reported() {
    let json = r#"[
        {"type":"function","function":{"name":"ok","parameters":{}}},
        7,
        {"type":"other"}
    ]"#;
    let err = parse_client_tools_json(json).unwrap_err();
    assert_eq!(err, "invalid client_tools_json[1]: element must be an object");
    let err = parse_client_tools_json(r#"[{"type":"function","function":{"name":"","parameters":{}}}]"#)
        .unwrap_err();
    assert!(err.contains("function.name is required"));
    let err = parse_client_tools_json(r#"[{"type":"function","function":"x"}]"#).unwrap_err();
    assert!(err.contains("missing or non-object `function`"));
}

#[test]
fn parse_tool_choice_keywords() {
    assert!(matches!(parse_tool_choice("auto"), Some(ToolChoice::Auto)));
    assert!(matches!(parse_tool_choice("none"), Some(ToolChoice::NoTools)));
    assert!(matches!(parse_tool_choice("required"), Some(ToolChoice::Required)));
    assert_eq!(ToolConverter::parse_tool_choice("  auto \n"), Some(ToolChoice::Auto));
}

#[test]
fn parse_tool_choice_object_form() {
    let json = r#"{"type":"function","function":{"name":"lookback_recall"}}"#;
    match parse_tool_choice(json) {
        Some(ToolChoice::Tool(name)) => assert_eq!(name, "lookback_recall"),
        other => panic!("expected Tool variant, got {other:?}"),
    }
}

#[test]
fn parse_tool_choice_unknown_keyword_returns_none() {
    assert!(parse_tool_choice("never_heard_of_it").is_none());
}

#[test]
fn parse_tool_choice_invalid_json_returns_none() {
    assert!(parse_tool_choice("{not json").is_none());
}

#[test]
fn parse_tool_choice_object_without_function_name_returns_none() {
    assert!(parse_tool_choice(r#"{"type":"function"}"#).is_none());
    assert!(parse_tool_choice(r#"{"type":"function","function":{"name":""}}"#).is_none());
    assert!(parse_tool_choice(r#"{"type":"tool","function":{"name":"x"}}"#).is_none());
}

#[test]
fn parse_client_tools_json_invalid_json_bails() {
    let err = parse_client_tools_json("not json").unwrap_err();
    assert!(err.contains("invalid client_tools_json"));
}

#[test]
fn client_tools_not_json_error_names_the_text() {
    let err = parse_client_tools_json("[{not json").unwrap_err();
    assert_eq!(err, "invalid client_tools_json: not valid JSON (\"[{not json\")");
}
