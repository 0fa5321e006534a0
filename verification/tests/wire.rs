use imsg_session::backoff::reconnect_delay;
use imsg_session::ids::IdGen;
use imsg_session::wire::{encode_call, encode_request, RequestParams};

#[test]
fn reconnect_delay_caps_at_thirty_seconds() {
    assert_eq!(reconnect_delay(0), 2);
    assert_eq!(reconnect_delay(1), 4);
    assert_eq!(reconnect_delay(2), 8);
    assert_eq!(reconnect_delay(4), 30);
    assert_eq!(reconnect_delay(10), 30);
}

#[test]
fn backoff_schedule_is_exact() {
    let expected: Vec<u64> = vec![2, 4, 8, 16, 30, 30, 30, 30, 30, 30, 30];
    for attempt in 0..=10u32 {
        assert_eq!(reconnect_delay(attempt), expected[attempt as usize]);
    }
}

#[test]
fn identifiers_are_sequential_decimals() {
    let mut gen = IdGen::new();
    assert_eq!(gen.next_id(), "0");
    assert_eq!(gen.next_id(), "1");
    let mut seen = vec!["0".to_string(), "1".to_string()];
    for _ in 0..20 {
        let id = gen.next_id();
        assert!(!seen.contains(&id));
        seen.push(id);
    }
}

#[test]
fn request_line_is_exact_json() {
    let line = encode_call("0", &RequestParams::ChatsList { limit: 50 });
    assert_eq!(
        line,
        r#"{"jsonrpc":"2.0","id":"0","method":"chats.list","params":{"limit":50}}"#
    );
    let line = encode_call("12", &RequestParams::MessagesHistory { chat_id: -7, limit: 50 });
    assert_eq!(
        line,
        r#"{"jsonrpc":"2.0","id":"12","method":"messages.history","params":{"chat_id":-7,"limit":50}}"#
    );
}

#[test]
fn request_without_params_omits_them() {
    let line = encode_request("3", "ping", None);
    assert_eq!(line, r#"{"jsonrpc":"2.0","id":"3","method":"ping"}"#);
}

#[test]
fn encoded_text_survives_a_json_round_trip() {
    let text = "quote \" backslash \\ newline \n tab \t unicode é 控制\u{1}end";
    let line = encode_call(
        "4",
        &RequestParams::SendChat { chat_id: 5, text: text.to_string() },
    );
    let value: serde_json::Value = serde_json::from_str(&line).expect("round trip");
    assert_eq!(value["method"].as_str(), Some("send"));
    assert_eq!(value["id"].as_str(), Some("4"));
    assert_eq!(value["params"]["chat_id"].as_i64(), Some(5));
    assert_eq!(value["params"]["text"].as_str(), Some(text));
}

#[test]
fn handle_list_encodes_as_a_string_array() {
    let handles = vec!["+1".to_string(), "a@b".to_string()];
    let line = encode_call("9", &RequestParams::ContactsResolve { handles });
    let value: serde_json::Value = serde_json::from_str(&line).expect("round trip");
    let arr = value["params"]["handles"].as_array().expect("array");
    assert_eq!(arr.len(), 2);
    assert_eq!(arr[0].as_str(), Some("+1"));
    assert_eq!(arr[1].as_str(), Some("a@b"));
}

#[test]
fn every_call_kind_round_trips() {
    let calls = vec![
        (RequestParams::WatchSubscribe { chat_id: 7 }, "watch.subscribe"),
        (
            RequestParams::WatchUnsubscribe { subscription: "tok".to_string() },
            "watch.unsubscribe",
        ),
        (RequestParams::SendTo { to: "+1".to_string(), text: "hi".to_string() }, "send"),
        (
            RequestParams::ContactsSearch { query: "al".to_string(), limit: 10 },
            "contacts.search",
        ),
        (
            RequestParams::ReactionsSend { guid: "G".to_string(), reaction: "like".to_string() },
            "reactions.send",
        ),
        (
            RequestParams::AttachmentsFetch { path: "/p/a.png".to_string(), max_bytes: 20000000 },
            "attachments.fetch",
        ),
    ];
    for (params, method) in calls {
        let line = encode_call("1", &params);
        let value: serde_json::Value = serde_json::from_str(&line).expect("round trip");
        assert_eq!(value["method"].as_str(), Some(method));
        assert_eq!(value["jsonrpc"].as_str(), Some("2.0"));
        assert!(value["params"].is_object());
    }
}
