use imsg_session::coordinator::Coordinator;
use imsg_session::frame::RpcEvent;
use imsg_session::records::{Attachment, Message};

fn val(s: &str) -> serde_json::Value {
    serde_json::from_str(s).expect("valid json")
}

fn response(id: &str, result: &str) -> RpcEvent {
    RpcEvent::Response { id: id.to_string(), result: val(result) }
}

fn message(chat_id: i64, sender: &str, text: &str, from_me: bool) -> Message {
    Message {
        chat_id,
        guid: String::new(),
        reply_to_guid: None,
        sender: sender.to_string(),
        text: text.to_string(),
        created_at: String::new(),
        is_from_me: from_me,
        reactions: Vec::new(),
        attachments: Vec::new(),
    }
}

#[test]
fn unknown_reply_ids_are_discarded_silently() {
    let mut c = Coordinator::new(true, true);
    let eff = c.handle_rpc_event(response("99", r#"{"chats":[]}"#), 0);
    assert_eq!(c.status, "ready");
    assert!(eff.outbound.is_empty());
    assert!(c.chats.is_empty());

    let eff = c.handle_rpc_event(
        RpcEvent::Error { id: Some("42".to_string()), error: val(r#"{"code":1}"#) },
        0,
    );
    assert_eq!(c.status, "ready");
    assert!(eff.outbound.is_empty());
}

#[test]
fn resolved_ids_are_consumed_exactly_once() {
    let mut c = Coordinator::new(true, true);
    let _ = c.request_chats().expect("line");
    c.handle_rpc_event(response("0", r#"{"chats":[{"id":1,"name":"A"}]}"#), 0);
    assert_eq!(c.chats.len(), 1);
    assert_eq!(c.status, "chats loaded");
    // The same id again has no effect: the entry was already consumed.
    c.handle_rpc_event(response("0", r#"{"chats":[]}"#), 0);
    assert_eq!(c.chats.len(), 1);
    assert_eq!(c.status, "chats loaded");
}

#[test]
fn untied_errors_become_a_status_message() {
    let mut c = Coordinator::new(true, true);
    c.handle_rpc_event(
        RpcEvent::Error { id: None, error: val(r#"{"code":-1,"message":"down"}"#) },
        0,
    );
    assert!(c.status.starts_with("rpc error: "), "got: {}", c.status);
}

#[test]
fn tied_errors_report_code_and_message() {
    let mut c = Coordinator::new(true, true);
    let _ = c.request_chats().expect("line");
    c.handle_rpc_event(
        RpcEvent::Error {
            id: Some("0".to_string()),
            error: val(r#"{"code":-5,"message":"boom"}"#),
        },
        0,
    );
    assert_eq!(c.status, "rpc error (-5): boom");
}

#[test]
fn failed_contact_search_restores_the_query() {
    let mut c = Coordinator::new(true, true);
    c.compose_to = "ali".to_string();
    let _ = c.refresh_contact_suggestions().expect("search line");
    c.handle_rpc_event(
        RpcEvent::Error { id: Some("0".to_string()), error: val(r#"{"code":2}"#) },
        0,
    );
    assert_eq!(c.status, "contact search unavailable; enter handle");
    assert_eq!(c.compose_to, "ali");
    assert!(c.contact_query.is_none());
}

#[test]
fn notification_for_another_conversation_is_filtered_but_still_resolves() {
    let mut c = Coordinator::new(true, true);
    c.apply_chats(vec![
        imsg_session::records::parse_chat(&val(r#"{"id":1,"identifier":"+1"}"#)).unwrap(),
        imsg_session::records::parse_chat(&val(r#"{"id":2,"identifier":"+2"}"#)).unwrap(),
    ]);
    assert_eq!(c.selected, 0);
    let eff = c.apply_message_notification(message(2, "+9", "hi", false));
    // Conversation 2 is not the selected conversation 1: nothing appended.
    assert!(c.messages.is_empty());
    assert_eq!(c.status, "new message");
    // The unknown sender still triggers one name resolution.
    assert_eq!(eff.outbound.len(), 1);
    let line: serde_json::Value = serde_json::from_str(&eff.outbound[0]).unwrap();
    assert_eq!(line["method"].as_str(), Some("contacts.resolve"));
    assert_eq!(line["params"]["handles"][0].as_str(), Some("+9"));
    // An inbound message from someone else raises an alert.
    let alert = eff.alert.expect("alert");
    assert_eq!(alert.summary, "+9");
    assert_eq!(alert.body, "hi");
}

#[test]
fn notification_for_the_open_conversation_is_appended() {
    let mut c = Coordinator::new(false, true);
    c.apply_chats(vec![imsg_session::records::parse_chat(&val(r#"{"id":1}"#)).unwrap()]);
    c.apply_contacts(vec![("+9".to_string(), "Nia".to_string())]);
    let eff = c.apply_message_notification(message(1, "+9", "hi", false));
    assert_eq!(c.messages.len(), 1);
    assert_eq!(c.messages[0].text, "hi");
    // The sender is known: no resolution, and alerts are off.
    assert!(eff.outbound.is_empty());
    assert!(eff.alert.is_none());
}

#[test]
fn reconnect_clears_stale_state_and_resubscribes() {
    let mut c = Coordinator::new(true, true);
    let _ = c.request_chats().expect("line");  // id 0
    let _ = c.request_history(7).expect("line");  // id 1
    let _ = c.request_reaction("G", "like").expect("line");  // id 2
    let _ = c.toggle_watch(7).expect("line");  // id 3, subscribe
    c.handle_rpc_event(response("3", r#"{"subscription":"tok"}"#), 0);
    assert_eq!(c.watch_subscription.as_deref(), Some("tok"));
    assert_eq!(c.pending.len(), 3);

    c.handle_rpc_event(RpcEvent::Closed { message: "rpc stream closed".to_string() }, 1000);
    assert_eq!(c.status, "rpc closed: rpc stream closed");
    assert!(!c.connected);
    // The first backoff interval is 2 seconds.
    assert!(!c.reconnect_due(2999));
    assert!(c.reconnect_due(3000));

    let eff = c.reconnect_succeeded();
    assert_eq!(c.reconnect_attempts, 0);
    assert!(c.reconnect_at.is_none());
    assert!(c.connected);
    // Every identifier dispatched before the drop was abandoned.
    assert!(c.pending.get("0").is_none());
    assert!(c.pending.get("1").is_none());
    assert!(c.pending.get("2").is_none());
    assert!(c.watch_subscription.is_none());
    // The session bootstraps again and re-subscribes to the watched chat.
    assert_eq!(eff.outbound.len(), 2);
    let chats: serde_json::Value = serde_json::from_str(&eff.outbound[0]).unwrap();
    assert_eq!(chats["method"].as_str(), Some("chats.list"));
    let sub: serde_json::Value = serde_json::from_str(&eff.outbound[1]).unwrap();
    assert_eq!(sub["method"].as_str(), Some("watch.subscribe"));
    assert_eq!(sub["params"]["chat_id"].as_i64(), Some(7));
}

#[test]
fn repeated_reconnect_failures_back_off_and_retry_forever() {
    let mut c = Coordinator::new(true, true);
    c.handle_rpc_event(RpcEvent::Closed { message: "gone".to_string() }, 0);
    assert!(c.reconnect_due(2000));
    c.reconnect_failed("refused", 2000);
    assert_eq!(c.status, "reconnect failed: refused");
    assert_eq!(c.reconnect_attempts, 2);
    assert!(!c.reconnect_due(5999));
    assert!(c.reconnect_due(6000));
    c.reconnect_failed("refused", 6000);
    assert!(c.reconnect_due(6000 + 8000));
}

#[test]
fn identifiers_stay_unique_across_a_reconnect() {
    let mut c = Coordinator::new(true, true);
    let mut ids: Vec<String> = Vec::new();
    for _ in 0..3 {
        let line = c.request_chats().expect("line");
        let v: serde_json::Value = serde_json::from_str(&line).unwrap();
        ids.push(v["id"].as_str().unwrap().to_string());
    }
    c.handle_rpc_event(RpcEvent::Closed { message: "gone".to_string() }, 0);
    let eff = c.reconnect_succeeded();
    for line in &eff.outbound {
        let v: serde_json::Value = serde_json::from_str(line).unwrap();
        ids.push(v["id"].as_str().unwrap().to_string());
    }
    for i in 0..ids.len() {
        for j in 0..i {
            assert_ne!(ids[i], ids[j]);
        }
    }
}

#[test]
fn end_to_end_session_scenario() {
    let mut c = Coordinator::new(true, true);

    // Dispatch the chat list call.
    let line = c.request_chats().expect("line");
    let v: serde_json::Value = serde_json::from_str(&line).unwrap();
    assert_eq!(v["method"].as_str(), Some("chats.list"));
    let id = v["id"].as_str().unwrap().to_string();
    assert_eq!(c.status, "loading chats...");

    // The reply carries an array of chats: the list is recorded, and the
    // unseen chat identifier triggers a name resolution.
    let eff = c.handle_rpc_event(
        response(&id, r#"{"chats":[{"id":7,"name":"Seven","identifier":"+7"}]}"#),
        0,
    );
    assert_eq!(c.status, "chats loaded");
    assert_eq!(c.chats.len(), 1);
    assert_eq!(c.chats[0].id, 7);
    assert_eq!(eff.outbound.len(), 1);
    let v: serde_json::Value = serde_json::from_str(&eff.outbound[0]).unwrap();
    assert_eq!(v["method"].as_str(), Some("contacts.resolve"));
    assert_eq!(v["params"]["handles"][0].as_str(), Some("+7"));

    // Fetch the history of chat 7; its reply populates the history and the
    // unseen sender triggers a resolve-contacts dispatch.
    let line = c.request_history(7).expect("line");
    let v: serde_json::Value = serde_json::from_str(&line).unwrap();
    let id = v["id"].as_str().unwrap().to_string();
    let eff = c.handle_rpc_event(
        response(&id, r#"{"messages":[{"chat_id":7,"sender":"+9","text":"hello"}]}"#),
        0,
    );
    assert_eq!(c.status, "history loaded");
    assert_eq!(c.messages.len(), 1);
    assert_eq!(eff.outbound.len(), 1);
    let v: serde_json::Value = serde_json::from_str(&eff.outbound[0]).unwrap();
    assert_eq!(v["method"].as_str(), Some("contacts.resolve"));
    assert_eq!(v["params"]["handles"][0].as_str(), Some("+9"));

    // The transport reports end-of-stream: status reflects the closure.
    c.handle_rpc_event(RpcEvent::Closed { message: "rpc stream closed".to_string() }, 10000);
    assert_eq!(c.status, "rpc closed: rpc stream closed");
    // After the first backoff interval (2s) passes, an attempt fires.
    assert!(!c.reconnect_due(11999));
    assert!(c.reconnect_due(12000));
}

#[test]
fn contact_resolution_merges_names() {
    let mut c = Coordinator::new(true, true);
    let _ = c.request_contact_resolve(vec!["+1".to_string()]).expect("line");
    c.handle_rpc_event(
        response("0", r#"{"contacts":[{"handle":"+1","name":"Old"},{"handle":"+1","name":"New"}]}"#),
        0,
    );
    let shown = imsg_session::present::sender_display(&c.contacts, "+1");
    assert_eq!(shown, "New");
    let shown = imsg_session::present::sender_display(&c.contacts, "+2");
    assert_eq!(shown, "+2");
}

#[test]
fn single_search_match_sends_the_waiting_message() {
    let mut c = Coordinator::new(true, true);
    c.compose_to = "ali".to_string();
    c.compose_body = "hi there".to_string();
    let (sent, line) = c.send_compose();
    assert!(!sent);
    let v: serde_json::Value = serde_json::from_str(&line.expect("search line")).unwrap();
    assert_eq!(v["method"].as_str(), Some("contacts.search"));
    let id = v["id"].as_str().unwrap().to_string();
    assert_eq!(c.status, "searching contacts...");

    let eff = c.handle_rpc_event(
        response(&id, r#"{"matches":[{"name":"Alice","handles":["+15551234567"]}]}"#),
        0,
    );
    assert_eq!(c.status, "sent");
    assert_eq!(c.compose_to, "+15551234567");
    assert_eq!(c.compose_body, "");
    assert_eq!(eff.outbound.len(), 1);
    let v: serde_json::Value = serde_json::from_str(&eff.outbound[0]).unwrap();
    assert_eq!(v["method"].as_str(), Some("send"));
    assert_eq!(v["params"]["to"].as_str(), Some("+15551234567"));
    assert_eq!(v["params"]["text"].as_str(), Some("hi there"));
    assert_eq!(c.contact_suggestions.len(), 1);
    assert_eq!(c.contact_suggestions[0].0, "Alice <+15551234567>");
}

#[test]
fn empty_search_asks_for_a_handle() {
    let mut c = Coordinator::new(true, true);
    let _ = c.request_contact_search("zzz").expect("line");
    c.handle_rpc_event(response("0", r#"{"matches":[]}"#), 0);
    assert_eq!(c.status, "no contact matches; enter handle");
}

#[test]
fn compose_to_a_plain_handle_sends_directly() {
    let mut c = Coordinator::new(true, true);
    c.compose_to = " +123 ".to_string();
    c.compose_body = " yo ".to_string();
    let (sent, line) = c.send_compose();
    assert!(sent);
    let v: serde_json::Value = serde_json::from_str(&line.expect("line")).unwrap();
    assert_eq!(v["params"]["to"].as_str(), Some("+123"));
    assert_eq!(v["params"]["text"].as_str(), Some("yo"));
    assert_eq!(c.status, "sent");
    assert_eq!(c.recipient_history, vec!["+123"]);
}

#[test]
fn compose_without_recipient_goes_to_the_selected_chat() {
    let mut c = Coordinator::new(true, true);
    c.apply_chats(vec![imsg_session::records::parse_chat(
        &val(r#"{"id":5,"identifier":"+5"}"#),
    )
    .unwrap()]);
    c.compose_body = "hello".to_string();
    let (sent, line) = c.send_compose();
    assert!(sent);
    let v: serde_json::Value = serde_json::from_str(&line.expect("line")).unwrap();
    assert_eq!(v["params"]["chat_id"].as_i64(), Some(5));
    assert_eq!(c.recipient_history, vec!["+5"]);
}

#[test]
fn compose_requires_text_and_a_target() {
    let mut c = Coordinator::new(true, true);
    let (sent, line) = c.send_compose();
    assert!(!sent);
    assert!(line.is_none());
    assert_eq!(c.status, "message text required");
    c.compose_body = "x".to_string();
    let (sent, _) = c.send_compose();
    assert!(!sent);
    assert_eq!(c.status, "no chat selected");
}

#[test]
fn recipient_history_cycles_and_deduplicates() {
    let mut c = Coordinator::new(true, true);
    c.record_recipient(" +1 ");
    c.record_recipient("+2");
    c.record_recipient("+1");
    assert_eq!(c.recipient_history, vec!["+1", "+2"]);
    c.cycle_recipient_history();
    assert_eq!(c.compose_to, "+1");
    c.cycle_recipient_history();
    assert_eq!(c.compose_to, "+2");
    c.cycle_recipient_history();
    assert_eq!(c.compose_to, "+1");
}

#[test]
fn attachment_fetch_decodes_and_caches() {
    let mut c = Coordinator::new(true, true);
    let att = Attachment {
        original_path: "/library/photo.heic".to_string(),
        filename: "photo.heic".to_string(),
        mime_type: String::new(),
    };
    let line = c.request_attachment_fetch(&att, false).expect("fetch line");
    let v: serde_json::Value = serde_json::from_str(&line).unwrap();
    assert_eq!(v["method"].as_str(), Some("attachments.fetch"));
    assert_eq!(v["params"]["path"].as_str(), Some("/library/photo.heic"));
    let id = v["id"].as_str().unwrap().to_string();

    // A duplicate request for the same attachment is suppressed while one is
    // in flight.
    assert!(c.request_attachment_fetch(&att, false).is_none());

    let eff = c.handle_rpc_event(response(&id, r#"{"data":"aGVsbG8="}"#), 0);
    let save = eff.save.expect("payload to save");
    assert_eq!(save.data, b"hello");
    let key = imsg_session::attach::attachment_key("/library/photo.heic", "photo.heic");
    assert_eq!(save.key, key);
    assert_eq!(save.filename, format!("{key}.heic"));

    c.attachment_saved(save.key.clone(), "/cache/x.heic".to_string());
    let cached = imsg_session::attach::cached_attachment_path(&c.attachment_cache, &att, false);
    assert_eq!(cached.as_deref(), Some("/cache/x.heic"));
}

#[test]
fn attachment_already_on_disk_is_cached_without_a_fetch() {
    let mut c = Coordinator::new(true, true);
    let att = Attachment {
        original_path: "/library/photo.png".to_string(),
        filename: "photo.png".to_string(),
        mime_type: "image/png".to_string(),
    };
    assert!(c.request_attachment_fetch(&att, true).is_none());
    let cached = imsg_session::attach::cached_attachment_path(&c.attachment_cache, &att, true);
    assert_eq!(cached.as_deref(), Some("/library/photo.png"));
}

#[test]
fn non_image_attachments_are_not_fetched() {
    let mut c = Coordinator::new(true, true);
    let att = Attachment {
        original_path: "/library/doc.pdf".to_string(),
        filename: "doc.pdf".to_string(),
        mime_type: "application/pdf".to_string(),
    };
    assert!(c.request_attachment_fetch(&att, false).is_none());
    assert_eq!(c.pending.len(), 0);
}

#[test]
fn dispatch_is_a_no_op_while_disconnected() {
    let mut c = Coordinator::new(true, false);
    assert!(c.request_chats().is_none());
    assert!(c.request_history(1).is_none());
    assert!(c.toggle_watch(1).is_none());
    assert_eq!(c.pending.len(), 0);
    assert_eq!(c.status, "ready");
}

#[test]
fn watch_toggles_between_subscribe_and_unsubscribe() {
    let mut c = Coordinator::new(true, true);
    let line = c.toggle_watch(4).expect("line");
    let v: serde_json::Value = serde_json::from_str(&line).unwrap();
    assert_eq!(v["method"].as_str(), Some("watch.subscribe"));
    assert_eq!(c.watch_chat_id, Some(4));
    c.handle_rpc_event(response("0", r#"{"subscription":"s1"}"#), 0);
    assert_eq!(c.status, "watch subscribed");

    let line = c.toggle_watch(4).expect("line");
    let v: serde_json::Value = serde_json::from_str(&line).unwrap();
    assert_eq!(v["method"].as_str(), Some("watch.unsubscribe"));
    assert_eq!(v["params"]["subscription"].as_str(), Some("s1"));
    c.handle_rpc_event(response("1", r#"{}"#), 0);
    assert_eq!(c.status, "watch unsubscribed");
    assert!(c.watch_subscription.is_none());
    assert!(c.watch_chat_id.is_none());
}
