use llm_wrapper::chat_model::{ChatMessage, ChatRole, MessageContent};
use llm_wrapper::trace_types::{streaming_usage_map, usage_attribute_key, LLMMessage, StreamSpanState};

#[test]
fn streaming_usage_map_entries() {
    assert_eq!(streaming_usage_map(None, None), None);
    assert_eq!(
        streaming_usage_map(Some(3), None),
        Some(vec![("prompt_tokens".to_string(), 3)])
    );
    assert_eq!(
        streaming_usage_map(None, Some(4)),
        Some(vec![("completion_tokens".to_string(), 4)])
    );
    assert_eq!(
        streaming_usage_map(Some(u32::MAX), Some(0)),
        Some(vec![
            ("prompt_tokens".to_string(), u32::MAX as i64),
            ("completion_tokens".to_string(), 0)
        ])
    );
}

#[test]
fn usage_keys_map_to_span_attributes() {
    assert_eq!(usage_attribute_key("prompt_tokens"), "gen_ai.usage.input_tokens");
    assert_eq!(usage_attribute_key("input_tokens"), "gen_ai.usage.input_tokens");
    assert_eq!(usage_attribute_key("completion_tokens"), "gen_ai.usage.output_tokens");
    assert_eq!(usage_attribute_key("output_tokens"), "gen_ai.usage.output_tokens");
    assert_eq!(usage_attribute_key("total_tokens"), "gen_ai.usage.total_tokens");
    assert_eq!(usage_attribute_key("cached"), "gen_ai.usage.cached");
}

#[test]
fn chat_message_tracing_accessors() {
    let m = ChatMessage {
        role: ChatRole::Assistant,
        content: Some(MessageContent::Text("hi".to_string())),
    };
    assert_eq!(m.get_role(), "assistant");
    assert_eq!(m.get_content(), "hi");
    let t = ChatMessage {
        role: ChatRole::Unspecified,
        content: Some(MessageContent::ToolCalls(vec![])),
    };
    assert_eq!(t.get_role(), "user");
    assert_eq!(t.get_content(), "");
}

#[test]
fn stream_span_is_closed_once() {
    let mut s = StreamSpanState::new();
    assert!(s.finish());
    assert!(!s.finish());
    assert!(!s.end_of_stream());
    let mut d = StreamSpanState::new();
    assert!(d.end_of_stream());
    assert!(!d.finish());
}
