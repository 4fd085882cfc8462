use xiaoshi::llm::{completion_url, messages_from_history, CompletionResponse, FunctionCall, LlmMessage, ToolCall};
use xiaoshi::VERSION;

#[test]
fn test_version() {
    assert!(!VERSION.is_empty());
}

#[test]
fn test_llm_message_creation() {
    let system = LlmMessage::system("You are a helpful assistant");
    assert_eq!(system.role, "system");
    assert_eq!(system.content.as_deref(), Some("You are a helpful assistant"));

    let user = LlmMessage::user("Hello");
    assert_eq!(user.role, "user");

    let assistant = LlmMessage::assistant("Hi there!");
    assert_eq!(assistant.role, "assistant");

    let tool = LlmMessage::tool("result", "call_123");
    assert_eq!(tool.role, "tool");
    assert_eq!(tool.tool_call_id.as_deref(), Some("call_123"));
}

#[test]
fn test_assistant_with_tool_calls() {
    let call = ToolCall {
        id: "c1".to_string(),
        call_type: "function".to_string(),
        function: FunctionCall { name: "lookup".to_string(), arguments: "{}".to_string() },
    };
    let m = LlmMessage::assistant_with_tool_calls(Some("thinking"), vec![call]);
    assert_eq!(m.role, "assistant");
    assert_eq!(m.content.as_deref(), Some("thinking"));
    let calls = m.tool_calls.unwrap();
    assert_eq!(calls.len(), 1);
    assert_eq!(calls[0].function.name, "lookup");

    let m = LlmMessage::assistant_with_tool_calls(None, vec![]);
    assert!(m.content.is_none());
}

#[test]
fn test_has_tool_calls() {
    let none = CompletionResponse { content: Some("hi".to_string()), tool_calls: vec![] };
    assert!(!none.has_tool_calls());
    let some = CompletionResponse {
        content: None,
        tool_calls: vec![ToolCall {
            id: "c".to_string(),
            call_type: "function".to_string(),
            function: FunctionCall { name: "f".to_string(), arguments: "{}".to_string() },
        }],
    };
    assert!(some.has_tool_calls());
}

#[test]
fn test_from_tuple() {
    let m = LlmMessage::from_tuple("user", "内容");
    assert_eq!(m.role, "user");
    assert_eq!(m.content.as_deref(), Some("内容"));
    assert!(m.tool_calls.is_none());
    assert!(m.tool_call_id.is_none());
}

#[test]
fn test_messages_from_history() {
    let history = vec![
        ("system".to_string(), "sys".to_string()),
        ("user".to_string(), "q".to_string()),
    ];
    let msgs = messages_from_history(&history);
    assert_eq!(msgs.len(), 2);
    assert_eq!(msgs[0].role, "system");
    assert_eq!(msgs[1].content.as_deref(), Some("q"));
}

#[test]
fn test_completion_url_appends_path() {
    assert_eq!(completion_url("https://api.example.com/v1"), "https://api.example.com/v1/chat/completions");
}

#[test]
fn test_completion_url_keeps_full_path() {
    assert_eq!(
        completion_url("https://api.example.com/v1/chat/completions"),
        "https://api.example.com/v1/chat/completions"
    );
}

#[test]
fn test_completion_url_trims_trailing_slashes() {
    assert_eq!(completion_url("https://api.example.com/v1//"), "https://api.example.com/v1/chat/completions");
}
