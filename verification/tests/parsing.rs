use imsg_session::frame::{line_event, RpcEvent};
use imsg_session::records::{parse_chat, parse_message};

fn val(s: &str) -> serde_json::Value {
    serde_json::from_str(s).expect("valid json")
}

#[test]
fn parse_chat_handles_minimal_fields() {
    let value = val(
        r#"{
            "id": 1,
            "identifier": "+123",
            "service": "iMessage",
            "last_message_at": "2026-01-01T00:00:00Z",
            "name": ""
        }"#,
    );
    let chat = parse_chat(&value).expect("chat");
    assert_eq!(chat.id, 1);
    assert_eq!(chat.identifier, "+123");
    assert_eq!(chat.service, "iMessage");
    assert!(chat.participants.is_empty());
}

#[test]
fn parse_chat_requires_numeric_id() {
    assert!(parse_chat(&val(r#"{"name":"x"}"#)).is_none());
    assert!(parse_chat(&val(r#"{"id":"7"}"#)).is_none());
    let chat = parse_chat(&val(r#"{"id":3}"#)).expect("chat");
    assert_eq!(chat.name, "");
    assert_eq!(chat.identifier, "");
    assert_eq!(chat.last_message_at, "");
}

#[test]
fn parse_chat_keeps_participants_in_order() {
    let chat = parse_chat(&val(r#"{"id":4,"participants":["+1","+2",7,"+3"]}"#)).expect("chat");
    assert_eq!(chat.participants, vec!["+1", "+2", "+3"]);
}

#[test]
fn parse_message_handles_minimal_fields() {
    let value = val(
        r#"{
            "chat_id": 2,
            "sender": "+123",
            "text": "hello",
            "created_at": "2026-01-01T00:00:00Z",
            "is_from_me": false
        }"#,
    );
    let message = parse_message(&value).expect("message");
    assert_eq!(message.chat_id, 2);
    assert_eq!(message.sender, "+123");
    assert_eq!(message.text, "hello");
    assert!(message.attachments.is_empty());
}

#[test]
fn parse_message_includes_reply_and_reactions() {
    let value = val(
        r#"{
            "chat_id": 2,
            "guid": "ABC",
            "reply_to_guid": "DEF",
            "sender": "+123",
            "text": "hello",
            "created_at": "2026-01-01T00:00:00Z",
            "is_from_me": false,
            "reactions": [
                { "emoji": "❤️", "sender": "+123", "is_from_me": false }
            ]
        }"#,
    );
    let message = parse_message(&value).expect("message");
    assert_eq!(message.guid, "ABC");
    assert_eq!(message.reply_to_guid.as_deref(), Some("DEF"));
    assert_eq!(message.reactions.len(), 1);
    assert_eq!(message.reactions[0].emoji, "❤️");
}

#[test]
fn parse_message_includes_reactions_and_reply() {
    let value = val(
        r#"{
            "chat_id": 2,
            "guid": "ABC",
            "reply_to_guid": "DEF",
            "sender": "+123",
            "text": "hello",
            "created_at": "2026-01-01T00:00:00Z",
            "is_from_me": false,
            "reactions": [
                { "emoji": "❤️", "sender": "+123", "is_from_me": false }
            ]
        }"#,
    );
    let message = parse_message(&value).expect("message");
    assert_eq!(message.guid, "ABC");
    assert_eq!(message.reply_to_guid.as_deref(), Some("DEF"));
    assert_eq!(message.reactions.len(), 1);
    assert_eq!(message.reactions[0].emoji, "❤️");
}

#[test]
fn parse_message_drops_empty_reactions_and_attachments() {
    let value = val(
        r#"{
            "chat_id": 9,
            "reactions": [
                { "emoji": "", "sender": "+1" },
                { "emoji": "👍" }
            ],
            "attachments": [
                { "original_path": "", "filename": "" },
                { "original_path": "/tmp/a.png", "filename": "a.png", "mime_type": "image/png" }
            ]
        }"#,
    );
    let message = parse_message(&value).expect("message");
    assert_eq!(message.reactions.len(), 1);
    assert_eq!(message.reactions[0].emoji, "👍");
    assert!(!message.reactions[0].is_from_me);
    assert_eq!(message.attachments.len(), 1);
    assert_eq!(message.attachments[0].filename, "a.png");
}

#[test]
fn classify_response_frame() {
    let event = line_event(r#"{"id":"3","result":{"ok":true}}"#).expect("event");
    match event {
        RpcEvent::Response { id, .. } => assert_eq!(id, "3"),
        _ => panic!("expected a response"),
    }
}

#[test]
fn classify_tied_error_frame() {
    let event = line_event(r#"{"id":"3","error":{"code":-1,"message":"nope"}}"#).expect("event");
    match event {
        RpcEvent::Error { id, .. } => assert_eq!(id.as_deref(), Some("3")),
        _ => panic!("expected a tied error"),
    }
}

#[test]
fn classify_untied_error_frame() {
    let event = line_event(r#"{"error":{"code":-1,"message":"nope"}}"#).expect("event");
    match event {
        RpcEvent::Error { id, .. } => assert!(id.is_none()),
        _ => panic!("expected an untied error"),
    }
}

#[test]
fn classify_notification_frame() {
    let event = line_event(r#"{"method":"message","params":{"message":{"chat_id":1}}}"#)
        .expect("event");
    match event {
        RpcEvent::Notification { method, .. } => assert_eq!(method, "message"),
        _ => panic!("expected a notification"),
    }
}

#[test]
fn response_takes_precedence_over_notification_shape() {
    let event =
        line_event(r#"{"id":"9","result":1,"method":"message","params":{}}"#).expect("event");
    assert!(matches!(event, RpcEvent::Response { .. }));
}

#[test]
fn unrecognized_frame_closes_the_connection() {
    let event = line_event(r#"{"id":"9","params":{}}"#).expect("event");
    match event {
        RpcEvent::Closed { message } => assert_eq!(message, "unrecognized frame shape"),
        _ => panic!("expected closed"),
    }
    let event = line_event(r#"{"something":"else"}"#).expect("event");
    assert!(matches!(event, RpcEvent::Closed { .. }));
}

#[test]
fn unparseable_line_closes_the_connection() {
    let event = line_event("this is not json").expect("event");
    match event {
        RpcEvent::Closed { message } => {
            assert!(message.starts_with("json parse error: "), "got: {message}")
        },
        _ => panic!("expected closed"),
    }
}

#[test]
fn blank_lines_are_skipped() {
    assert!(line_event("").is_none());
    assert!(line_event("   \t  ").is_none());
    assert!(line_event(" x ").is_some());
}
