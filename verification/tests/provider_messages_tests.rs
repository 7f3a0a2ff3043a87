use llm_wrapper::chat_model::{
    ChatMessage, ChatRole, ImageContent, MessageContent, ToolCall, ToolExecutionRequest,
};
use llm_wrapper::provider_messages::{genai_messages, ollama_messages, provider_role, GenaiContent};
use llm_wrapper::trace_types::{chat_usage_map, completion_usage_map};

fn image(url: &str, b64: &str) -> MessageContent {
    MessageContent::Image(ImageContent {
        content_type: "image/png".to_string(),
        url: url.to_string(),
        base64: b64.to_string(),
    })
}

fn msg(role: ChatRole, content: Option<MessageContent>) -> ChatMessage {
    ChatMessage { role, content }
}

#[test]
fn genai_messages_keep_sendable_messages_in_order() {
    let messages = vec![
        msg(ChatRole::System, Some(MessageContent::Text("sys".to_string()))),
        msg(ChatRole::Unspecified, Some(MessageContent::Text("hi".to_string()))),
        msg(ChatRole::User, Some(image("http://x/a.png", "QUJD"))),
        msg(ChatRole::User, Some(image("", "QUJD"))),
        msg(ChatRole::User, Some(image("", ""))),
        msg(
            ChatRole::Tool,
            Some(MessageContent::ToolExecutionRequests(vec![ToolExecutionRequest {
                call_id: "c".to_string(),
                fn_name: "f".to_string(),
                fn_arguments: "{}".to_string(),
            }])),
        ),
        msg(
            ChatRole::Assistant,
            Some(MessageContent::ToolCalls(vec![ToolCall {
                call_id: "c".to_string(),
                fn_name: "f".to_string(),
                fn_arguments: "{\"a\":1}".to_string(),
            }])),
        ),
        msg(ChatRole::User, None),
    ];
    let out = genai_messages(&messages);
    assert_eq!(out.len(), 5);
    assert_eq!(out[0].role, ChatRole::System);
    assert_eq!(out[1].role, ChatRole::User);
    assert!(matches!(&out[1].content, GenaiContent::Text(t) if t == "hi"));
    assert!(matches!(&out[2].content, GenaiContent::ImageUrl { url, .. } if url == "http://x/a.png"));
    assert!(matches!(&out[3].content, GenaiContent::ImageBase64 { data, .. } if data == "QUJD"));
    assert!(matches!(&out[4].content, GenaiContent::ToolCalls(v) if v[0].fn_arguments == "{\"a\":1}"));
}

#[test]
fn ollama_messages_one_per_message() {
    let messages = vec![
        msg(ChatRole::User, Some(image("http://x/a.png", "QUJD"))),
        msg(ChatRole::User, Some(image("http://x/b.png", ""))),
        msg(ChatRole::Tool, None),
    ];
    let out = ollama_messages(&messages);
    assert_eq!(out.len(), 3);
    assert_eq!(out[0].image_base64.as_deref(), Some("QUJD"));
    assert_eq!(out[0].image_url, None);
    assert_eq!(out[1].image_url.as_deref(), Some("http://x/b.png"));
    assert_eq!(out[2].role, ChatRole::Tool);
    assert_eq!(out[2].content, "");
    assert_eq!(provider_role(ChatRole::Unspecified), ChatRole::User);
}

#[test]
fn usage_maps() {
    let m = chat_usage_map(Some(3), None, Some(9));
    assert_eq!(
        m,
        vec![
            ("prompt_tokens".to_string(), 3),
            ("completion_tokens".to_string(), 0),
            ("total_tokens".to_string(), 9)
        ]
    );
    let c = completion_usage_map(Some(3), Some(4));
    assert_eq!(c[2], ("total_tokens".to_string(), 7));
}
