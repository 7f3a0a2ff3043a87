use llm_wrapper::chat_model::ToolCall;
use llm_wrapper::chat_stream::{
    stream_error_output, GenaiStreamEvent, GenaiStreamTranslator, OllamaStreamChunk,
    OllamaStreamTranslator, StreamOutput,
};

fn call(name: &str) -> ToolCall {
    ToolCall {
        call_id: format!("id-{name}"),
        fn_name: name.to_string(),
        fn_arguments: "{}".to_string(),
    }
}

#[test]
fn genai_stream_passes_text_and_announces_tool_calls_at_end() {
    let mut t = GenaiStreamTranslator::new();
    assert!(t.on_event::<u32>(GenaiStreamEvent::Start).is_empty());
    let out = t.on_event::<u32>(GenaiStreamEvent::Chunk("Hel".to_string()));
    assert_eq!(out.len(), 1);
    assert_eq!(out[0].text.as_deref(), Some("Hel"));
    assert!(!out[0].done);
    let out = t.on_event::<u32>(GenaiStreamEvent::ReasoningChunk("hmm".to_string()));
    assert_eq!(out[0].reasoning.as_deref(), Some("hmm"));
    assert!(t.on_event::<u32>(GenaiStreamEvent::ToolCallChunk(call("select_toolset_s"))).is_empty());
    assert!(t.on_event::<u32>(GenaiStreamEvent::ToolCallChunk(call("weather"))).is_empty());
    let out = t.on_event(GenaiStreamEvent::End {
        usage: Some(7u32),
        text: Some("Hello".to_string()),
        reasoning: None,
    });
    assert_eq!(out.len(), 2);
    let pending = out[0].pending_tool_calls.as_ref().unwrap();
    assert_eq!(pending.len(), 1);
    assert_eq!(pending[0].fn_name, "weather");
    assert!(!out[0].done);
    assert!(out[1].done);
    assert_eq!(out[1].usage, Some(7));
    assert_eq!(out[1].text.as_deref(), Some("Hello"));
}

#[test]
fn genai_stream_end_without_calls_is_one_item() {
    let mut t = GenaiStreamTranslator::new();
    t.on_event::<u32>(GenaiStreamEvent::ToolCallChunk(call("select_toolset_only")));
    let out: Vec<StreamOutput<u32>> = t.on_event(GenaiStreamEvent::End {
        usage: None,
        text: None,
        reasoning: Some("r".to_string()),
    });
    assert_eq!(out.len(), 1);
    assert!(out[0].done);
    assert_eq!(out[0].reasoning.as_deref(), Some("r"));
}

#[test]
fn ollama_stream_gathers_and_remembers_final_data() {
    let mut t: OllamaStreamTranslator<u64> = OllamaStreamTranslator::new();
    let o = t.on_chunk::<u32>(OllamaStreamChunk {
        model: "m1".to_string(),
        content: "Hi".to_string(),
        tool_calls: vec![call("a")],
        final_data: None,
    });
    assert_eq!(o.unwrap().text.as_deref(), Some("Hi"));
    let o = t.on_chunk::<u32>(OllamaStreamChunk {
        model: "m2".to_string(),
        content: String::new(),
        tool_calls: vec![call("select_toolset_x"), call("b")],
        final_data: Some(42),
    });
    assert!(o.is_none());
    let end = t.on_end();
    let names: Vec<&str> = end.pending_tool_calls.iter().map(|c| c.fn_name.as_str()).collect();
    assert_eq!(names, vec!["a", "b"]);
    assert_eq!(end.model, "m2");
    assert_eq!(end.final_data, Some(42));
    let e: StreamOutput<u32> = stream_error_output();
    assert_eq!(e.text.as_deref(), Some("Stream error"));
    assert!(e.done);
}

#[test]
fn completion_stream_items_follow_the_events() {
    let t = llm_wrapper::chat_stream::completion_stream_item::<u32>(GenaiStreamEvent::Chunk("a".to_string())).unwrap();
    assert_eq!(t.text.as_deref(), Some("a"));
    assert!(!t.done);
    let r = llm_wrapper::chat_stream::completion_stream_item::<u32>(GenaiStreamEvent::ReasoningChunk("r".to_string())).unwrap();
    assert_eq!(r.reasoning.as_deref(), Some("r"));
    assert!(llm_wrapper::chat_stream::completion_stream_item::<u32>(GenaiStreamEvent::Start).is_none());
    assert!(llm_wrapper::chat_stream::completion_stream_item::<u32>(GenaiStreamEvent::ToolCallChunk(call("x"))).is_none());
    let end = llm_wrapper::chat_stream::completion_stream_item(GenaiStreamEvent::End {
        usage: Some(7u32),
        text: Some("all".to_string()),
        reasoning: None,
    })
    .unwrap();
    assert!(end.done);
    assert_eq!(end.usage, Some(7));
    assert_eq!(end.text.as_deref(), Some("all"));
}

#[test]
fn ollama_pending_calls_get_fresh_call_ids() {
    let calls = vec![call("a"), call("b")];
    let fresh = llm_wrapper::chat_stream::with_fresh_call_ids(calls);
    assert_eq!(fresh.len(), 2);
    assert_eq!((fresh[0].fn_name.as_str(), fresh[1].fn_name.as_str()), ("a", "b"));
    assert!(fresh.iter().all(|c| c.call_id.len() == 36 && c.call_id.chars().nth(8) == Some('-')));
    assert_ne!(fresh[0].call_id, fresh[1].call_id);
    assert_ne!(fresh[0].call_id, "id-a");
}
