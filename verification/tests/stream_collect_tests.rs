use llm_wrapper::chat_model::ToolCall;
use llm_wrapper::stream_collect::{
    collect_chat_chunks, collect_completion_chunks, split_at_end, ChatChunkContent,
    ChatStreamChunk, CompletionStreamChunk, StreamItem,
};

/// Usage record of the tests: model, prompt and completion tokens.
#[derive(Debug, Clone, PartialEq)]
struct Usage {
    model: String,
    prompt_tokens: Option<u32>,
    completion_tokens: Option<u32>,
}

/// Generation context of the tests.
#[derive(Debug, Clone, PartialEq)]
struct Context {
    data: Vec<i64>,
}

fn usage(p: u32, c: u32) -> Usage {
    Usage {
        model: "test-model".to_string(),
        prompt_tokens: Some(p),
        completion_tokens: Some(c),
    }
}

/// A stream of the given chunks followed by an end item with `metadata`.
fn mock_stream<T>(chunks: Vec<T>, metadata: Vec<(String, String)>) -> Vec<StreamItem<T>> {
    let mut items: Vec<StreamItem<T>> = chunks.into_iter().map(StreamItem::Data).collect();
    items.push(StreamItem::End(metadata));
    items
}

fn completion_text_chunk(text: &str, done: bool) -> CompletionStreamChunk<Context, Usage> {
    CompletionStreamChunk {
        text: Some(text.to_string()),
        reasoning_content: None,
        done,
        context: None,
        usage: None,
    }
}

fn chat_text_chunk(text: &str, done: bool) -> ChatStreamChunk<Usage> {
    ChatStreamChunk {
        content: Some(ChatChunkContent::Text(text.to_string())),
        reasoning_content: None,
        done,
        usage: None,
    }
}

#[test]
fn test_collect_stream_single_chunk() {
    let chunk = CompletionStreamChunk {
        text: Some("Hello, World!".to_string()),
        reasoning_content: Some("Thinking...".to_string()),
        done: true,
        context: Some(Context { data: vec![1, 2, 3] }),
        usage: Some(usage(10, 5)),
    };
    let metadata = vec![("model".to_string(), "test-model".to_string())];
    let (chunks, result_metadata) = split_at_end(mock_stream(vec![chunk], metadata));
    let result = collect_completion_chunks(chunks);

    assert_eq!(result.text, Some("Hello, World!".to_string()));
    assert_eq!(result.reasoning_content, Some("Thinking...".to_string()));
    assert!(result.done);
    assert!(result.context.is_some());
    let u = result.usage.unwrap();
    assert_eq!(u.prompt_tokens, Some(10));
    assert_eq!(u.completion_tokens, Some(5));
    assert_eq!(
        result_metadata,
        vec![("model".to_string(), "test-model".to_string())]
    );
}

#[test]
fn test_collect_stream_multiple_chunks_concatenates_text() {
    let chunks = vec![
        completion_text_chunk("Hello, ", false),
        completion_text_chunk("World!", false),
        CompletionStreamChunk {
            text: Some(" Done.".to_string()),
            reasoning_content: None,
            done: true,
            context: Some(Context { data: vec![4, 5, 6] }),
            usage: Some(usage(20, 10)),
        },
    ];
    let (chunks, _) = split_at_end(mock_stream(chunks, vec![]));
    let result = collect_completion_chunks(chunks);
    assert_eq!(result.text, Some("Hello, World! Done.".to_string()));
    assert_eq!(result.context, Some(Context { data: vec![4, 5, 6] }));
    let u = result.usage.unwrap();
    assert_eq!(u.prompt_tokens, Some(20));
    assert_eq!(u.completion_tokens, Some(10));
}

#[test]
fn completion_test_collect_stream_concatenates_reasoning() {
    let chunks = vec![
        CompletionStreamChunk::<Context, Usage> {
            text: Some("Answer: ".to_string()),
            reasoning_content: Some("Step 1: ".to_string()),
            done: false,
            context: None,
            usage: None,
        },
        CompletionStreamChunk {
            text: Some("42".to_string()),
            reasoning_content: Some("Calculate result".to_string()),
            done: true,
            context: None,
            usage: None,
        },
    ];
    let (chunks, _) = split_at_end(mock_stream(chunks, vec![]));
    let result = collect_completion_chunks(chunks);
    assert_eq!(
        result.reasoning_content,
        Some("Step 1: Calculate result".to_string())
    );
}

#[test]
fn completion_test_collect_stream_empty_chunks() {
    let chunks: Vec<CompletionStreamChunk<Context, Usage>> = vec![];
    let (chunks, _) = split_at_end(mock_stream(chunks, vec![]));
    let result = collect_completion_chunks(chunks);
    assert!(result.text.is_none());
    assert!(result.reasoning_content.is_none());
    assert!(result.done); // Always set to true after collection
}

#[test]
fn test_collect_stream_single_text_chunk() {
    let chunk = ChatStreamChunk {
        content: Some(ChatChunkContent::Text("Hello, World!".to_string())),
        reasoning_content: Some("Thinking...".to_string()),
        done: true,
        usage: Some(usage(10, 5)),
    };
    let metadata = vec![("model".to_string(), "test-chat".to_string())];
    let (chunks, result_metadata) = split_at_end(mock_stream(vec![chunk], metadata));
    let result = collect_chat_chunks(chunks);
    match result.content {
        Some(ChatChunkContent::Text(t)) => assert_eq!(t, "Hello, World!"),
        other => panic!("expected text, got {:?}", other),
    }
    assert_eq!(result.reasoning_content, Some("Thinking...".to_string()));
    assert!(result.done);
    let u = result.usage.unwrap();
    assert_eq!(u.prompt_tokens, Some(10));
    assert_eq!(u.completion_tokens, Some(5));
    assert_eq!(
        result_metadata,
        vec![("model".to_string(), "test-chat".to_string())]
    );
}

#[test]
fn test_collect_stream_multiple_text_chunks_concatenates() {
    let chunks = vec![
        chat_text_chunk("Hello, ", false),
        chat_text_chunk("World!", false),
        ChatStreamChunk {
            content: Some(ChatChunkContent::Text(" Done.".to_string())),
            reasoning_content: None,
            done: true,
            usage: Some(usage(20, 10)),
        },
    ];
    let (chunks, _) = split_at_end(mock_stream(chunks, vec![]));
    let result = collect_chat_chunks(chunks);
    match result.content {
        Some(ChatChunkContent::Text(t)) => assert_eq!(t, "Hello, World! Done."),
        other => panic!("expected text, got {:?}", other),
    }
    let u = result.usage.unwrap();
    assert_eq!(u.prompt_tokens, Some(20));
    assert_eq!(u.completion_tokens, Some(10));
}

#[test]
fn test_collect_stream_tool_calls() {
    let call = |id: &str, name: &str, args: &str| ToolCall {
        call_id: id.to_string(),
        fn_name: name.to_string(),
        fn_arguments: args.to_string(),
    };
    let chunks = vec![
        ChatStreamChunk::<Usage> {
            content: Some(ChatChunkContent::ToolCalls(vec![call(
                "call_1",
                "get_weather",
                r#"{"city": "Tokyo"}"#,
            )])),
            reasoning_content: None,
            done: false,
            usage: None,
        },
        ChatStreamChunk {
            content: Some(ChatChunkContent::ToolCalls(vec![call(
                "call_2",
                "get_time",
                r#"{"timezone": "JST"}"#,
            )])),
            reasoning_content: None,
            done: true,
            usage: None,
        },
    ];
    let (chunks, _) = split_at_end(mock_stream(chunks, vec![]));
    let result = collect_chat_chunks(chunks);
    match result.content {
        Some(ChatChunkContent::ToolCalls(tc)) => {
            assert_eq!(tc.len(), 2);
            assert_eq!(tc[0].fn_name, "get_weather");
            assert_eq!(tc[1].fn_name, "get_time");
        }
        _ => panic!("Expected ToolCalls content"),
    }
}

#[test]
fn chat_test_collect_stream_concatenates_reasoning() {
    let chunks = vec![
        ChatStreamChunk::<Usage> {
            content: Some(ChatChunkContent::Text("Result: ".to_string())),
            reasoning_content: Some("First ".to_string()),
            done: false,
            usage: None,
        },
        ChatStreamChunk {
            content: Some(ChatChunkContent::Text("42".to_string())),
            reasoning_content: Some("Second".to_string()),
            done: true,
            usage: None,
        },
    ];
    let (chunks, _) = split_at_end(mock_stream(chunks, vec![]));
    let result = collect_chat_chunks(chunks);
    assert_eq!(result.reasoning_content, Some("First Second".to_string()));
}

#[test]
fn chat_test_collect_stream_empty_chunks() {
    let chunks: Vec<ChatStreamChunk<Usage>> = vec![];
    let (chunks, _) = split_at_end(mock_stream(chunks, vec![]));
    let result = collect_chat_chunks(chunks);
    assert!(result.content.is_none());
    assert!(result.reasoning_content.is_none());
    assert!(result.done);
}

#[test]
fn tool_calls_take_precedence_over_text_and_items_after_end_are_ignored() {
    let items = vec![
        StreamItem::Data(chat_text_chunk("text", false)),
        StreamItem::Other,
        StreamItem::Data(ChatStreamChunk::<Usage> {
            content: Some(ChatChunkContent::ToolCalls(vec![ToolCall {
                call_id: "c".to_string(),
                fn_name: "f".to_string(),
                fn_arguments: "{}".to_string(),
            }])),
            reasoning_content: None,
            done: true,
            usage: Some(usage(1, 2)),
        }),
        StreamItem::End(vec![]),
        StreamItem::Data(chat_text_chunk("late", true)),
    ];
    let (chunks, meta) = split_at_end(items);
    assert_eq!(chunks.len(), 2);
    assert!(meta.is_empty());
    let result = collect_chat_chunks(chunks);
    assert!(matches!(result.content, Some(ChatChunkContent::ToolCalls(ref v)) if v.len() == 1));
    assert_eq!(result.usage, Some(usage(1, 2)));
}

#[test]
fn usage_is_that_of_the_last_done_chunk() {
    let chunks = vec![
        CompletionStreamChunk::<Context, Usage> {
            text: None,
            reasoning_content: None,
            done: true,
            context: Some(Context { data: vec![1] }),
            usage: Some(usage(1, 1)),
        },
        CompletionStreamChunk {
            text: Some("x".to_string()),
            reasoning_content: None,
            done: false,
            context: Some(Context { data: vec![9] }),
            usage: Some(usage(9, 9)),
        },
    ];
    let result = collect_completion_chunks(chunks);
    assert_eq!(result.context, Some(Context { data: vec![1] }));
    assert_eq!(result.usage, Some(usage(1, 1)));
}
