use llm_wrapper::chat_loop::{ollama_chat_error_message, ChatRound, ToolCallLoop};
use llm_wrapper::chat_model::ToolCall;

fn call(name: &str) -> ToolCall {
    ToolCall {
        call_id: format!("id-{name}"),
        fn_name: name.to_string(),
        fn_arguments: "{}".to_string(),
    }
}

#[test]
fn json_schema_is_sent_in_the_first_round_only() {
    let mut rounds = ToolCallLoop::new(true, false);
    let schema = r#"{"type":"object"}"#;
    assert_eq!(rounds.ollama_round_schema(Some(schema)), Some(schema));
    assert!(matches!(rounds.on_answer(vec![call("fetch")]), ChatRound::Execute(_)));
    assert_eq!(rounds.ollama_round_schema(Some(schema)), None);
}

#[test]
fn ollama_error_names_a_refused_connection() {
    let m = ollama_chat_error_message("error sending request: Connection refused", "Reqwest(..)", "llama3", 2, None);
    assert_eq!(
        m,
        "Chat API error: Ollama server connection refused. Check if Ollama is running and accessible. (Reqwest(..)) [model: llama3, tools: 2, no_schema]"
    );
}

#[test]
fn ollama_error_reports_the_schema_size_in_bytes() {
    let m = ollama_chat_error_message("request timeout", "E", "m", 0, Some("{\"é\":1}"));
    assert_eq!(
        m,
        "Chat API error: Ollama request timeout. Consider increasing timeout or checking server load. (E) [model: m, tools: 0, schema_size: 8]"
    );
}

#[test]
fn ollama_error_about_the_schema_and_unknown_errors() {
    let m = ollama_chat_error_message("invalid JSON schema given", "E", "m", 1, None);
    assert!(m.starts_with("Chat API error: Invalid JSON schema format. Check if the schema is compatible with Ollama. (E)"));
    let m = ollama_chat_error_message("boom", "E", "m", 1, None);
    assert_eq!(m, "Chat API error: Unknown Ollama API error (E) [model: m, tools: 1, no_schema]");
}
