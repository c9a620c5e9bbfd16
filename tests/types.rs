use async_anthropic::types::{
    CreateMessagesResponse, Message, MessageContent, MessageContentList, MessageRole, Text,
    ToolResult, ToolUse,
};

fn tool_use(id: &str) -> ToolUse {
    ToolUse {
        id: id.to_string(),
        input: serde_json::Value::String(format!("query {id}")),
        name: "search".to_string(),
    }
}

#[test]
fn test_from_str() {
    let message: Message = "Hello world!".into();

    assert_eq!(
        message,
        Message {
            role: MessageRole::User,
            content: MessageContentList(vec![MessageContent::Text(Text {
                text: "Hello world!".to_string()
            })])
        }
    );

    assert_eq!(message.text(), Some("Hello world!".to_string()));
}

#[test]
fn tool_uses_in_order() {
    let message = Message {
        role: MessageRole::Assistant,
        content: MessageContentList(vec![
            MessageContent::from(tool_use("a")),
            MessageContent::from("thinking"),
            MessageContent::from(ToolResult::default()),
            MessageContent::from(tool_use("b")),
        ]),
    };
    assert_eq!(message.tool_uses(), vec![tool_use("a"), tool_use("b")]);
    assert_eq!(message.text(), Some("thinking".to_string()));
}

#[test]
fn no_text_no_tool_uses() {
    let message = Message {
        role: MessageRole::User,
        content: MessageContentList::from(ToolResult {
            tool_use_id: "a".to_string(),
            content: Some("42".to_string()),
            is_error: false,
        }),
    };
    assert_eq!(message.tool_uses(), vec![]);
    assert_eq!(message.text(), None);
    assert_eq!(message.content.len(), 1);
}

#[test]
fn response_as_messages() {
    let response = CreateMessagesResponse {
        id: None,
        content: Some(vec![MessageContent::from("one"), MessageContent::from(tool_use("t"))]),
        model: None,
        stop_reason: None,
        stop_sequence: None,
        usage: None,
    };
    let messages = response.messages();
    assert_eq!(messages.len(), 2);
    assert_eq!(
        messages[0],
        Message { role: MessageRole::Assistant, content: MessageContentList::from("one") }
    );
    assert_eq!(messages[1].content, MessageContentList::from(tool_use("t")));
    assert!(messages.iter().all(|m| m.role == MessageRole::Assistant));

    let empty = CreateMessagesResponse { content: None, ..response };
    assert!(empty.messages().is_empty());
}

#[test]
fn content_accessors() {
    let c = MessageContent::from(tool_use("x"));
    assert_eq!(c.as_tool_use().map(|t| t.id.as_str()), Some("x"));
    assert!(c.as_text().is_none());
    assert!(c.as_tool_result().is_none());
    let t = MessageContent::from(Text::from("hi"));
    assert_eq!(t.as_text().map(|t| t.text.as_str()), Some("hi"));
    let r = MessageContent::from(ToolResult::default());
    assert!(r.as_tool_result().is_some());
}

#[test]
fn content_list_derefs_to_its_blocks() {
    let mut list = MessageContentList::from("a");
    list.push(MessageContent::from("b"));
    assert_eq!(list.len(), 2);
    assert_eq!(list[1].as_text().map(|t| t.text.as_str()), Some("b"));
}

#[test]
fn conversions_from_owned_strings() {
    let text = "owned".to_string();
    assert_eq!(Text::from(text.clone()).text, "owned");
    assert_eq!(MessageContent::from(text.clone()).as_text().map(|t| t.text.as_str()), Some("owned"));
    assert_eq!(MessageContentList::from(text.clone()), MessageContentList::from("owned"));
    let message = Message::from(text);
    assert_eq!(message, Message::from("owned"));
    assert_eq!(message.role, MessageRole::User);
}
