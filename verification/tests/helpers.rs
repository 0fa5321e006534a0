use imsg_session::attach::{
    attachment_ext, attachment_is_image, attachment_key, cached_attachment_path,
};
use imsg_session::present::{
    first_url, help_text, looks_like_handle, reaction_summary, reply_preview, sender_display,
};
use imsg_session::records::{Attachment, Message, Reaction};
use imsg_session::strmap::StrMap;
use imsg_session::textops::{dec_string, str_eq};

fn attachment(path: &str, filename: &str, mime: &str) -> Attachment {
    Attachment {
        original_path: path.to_string(),
        filename: filename.to_string(),
        mime_type: mime.to_string(),
    }
}

fn message(guid: &str, sender: &str, text: &str) -> Message {
    Message {
        chat_id: 1,
        guid: guid.to_string(),
        reply_to_guid: None,
        sender: sender.to_string(),
        text: text.to_string(),
        created_at: String::new(),
        is_from_me: false,
        reactions: Vec::new(),
        attachments: Vec::new(),
    }
}

fn reaction(emoji: &str, sender: &str) -> Reaction {
    Reaction { emoji: emoji.to_string(), sender: sender.to_string(), is_from_me: false }
}

#[test]
fn handles_are_recognised() {
    assert!(looks_like_handle("+1 (555) 123-4567"));
    assert!(looks_like_handle("  15551234567  "));
    assert!(looks_like_handle("alice@example.com"));
    assert!(!looks_like_handle("Alice"));
    assert!(!looks_like_handle(""));
    assert!(!looks_like_handle("   "));
    assert!(!looks_like_handle("+1 x"));
}

#[test]
fn sender_display_prefers_the_contact_book() {
    let mut contacts: StrMap<String> = StrMap::new();
    contacts.insert("+1".to_string(), "Alice".to_string());
    assert_eq!(sender_display(&contacts, "+1"), "Alice");
    assert_eq!(sender_display(&contacts, "+2"), "+2");
}

#[test]
fn attachment_extension_prefers_the_filename() {
    assert_eq!(attachment_ext("/a/b.png", "c.jpeg"), "jpeg");
    assert_eq!(attachment_ext("/a/b.png", "noext"), "png");
    assert_eq!(attachment_ext("", "archive.tar.gz"), "gz");
    assert_eq!(attachment_ext("", ".hidden"), "bin");
    assert_eq!(attachment_ext("", ""), "bin");
    assert_eq!(attachment_ext("/a.d/file", ""), "bin");
    assert_eq!(attachment_ext("", "trailing."), "");
}

#[test]
fn image_attachments_are_recognised() {
    assert!(attachment_is_image(&attachment("", "x.bin", "image/heic")));
    assert!(attachment_is_image(&attachment("/p/x.webp", "", "")));
    assert!(attachment_is_image(&attachment("", "x.JPG".to_lowercase().as_str(), "")));
    assert!(!attachment_is_image(&attachment("/p/x.pdf", "x.pdf", "application/pdf")));
    assert!(!attachment_is_image(&attachment("", "", "")));
}

#[test]
fn attachment_keys_are_hex_and_input_dependent() {
    let k1 = attachment_key("/a/b.png", "b.png");
    let k2 = attachment_key("/a/b.png", "b.png");
    let k3 = attachment_key("/a/c.png", "c.png");
    assert_eq!(k1, k2);
    assert_ne!(k1, k3);
    assert!(!k1.is_empty());
    assert!(k1.chars().all(|c| c.is_ascii_hexdigit()));
    // The separator between path and filename matters.
    assert_ne!(attachment_key("ab", "c"), attachment_key("a", "bc"));
}

#[test]
fn cached_attachment_path_prefers_the_cache() {
    let mut cache: StrMap<String> = StrMap::new();
    let att = attachment("/orig/x.png", "x.png", "image/png");
    assert_eq!(cached_attachment_path(&cache, &att, false), None);
    assert_eq!(
        cached_attachment_path(&cache, &att, true).as_deref(),
        Some("/orig/x.png")
    );
    let key = attachment_key("/orig/x.png", "x.png");
    cache.insert(key, "/cache/x.png".to_string());
    assert_eq!(
        cached_attachment_path(&cache, &att, true).as_deref(),
        Some("/cache/x.png")
    );
}

#[test]
fn reaction_summary_counts_and_sorts() {
    assert_eq!(reaction_summary(&Vec::new()), None);
    let rs = vec![reaction("❤️", "+1")];
    assert_eq!(reaction_summary(&rs).as_deref(), Some("❤️"));
    let rs = vec![reaction("b", "+1"), reaction("a", "+2"), reaction("b", "+3")];
    assert_eq!(reaction_summary(&rs).as_deref(), Some("a b 2"));
    let rs = vec![
        reaction("z", "+1"),
        reaction("a", "+2"),
        reaction("z", "+3"),
        reaction("a", "+4"),
        reaction("m", "+5"),
    ];
    assert_eq!(reaction_summary(&rs).as_deref(), Some("a 2 m z 2"));
}

#[test]
fn reply_preview_quotes_the_referenced_message() {
    let mut contacts: StrMap<String> = StrMap::new();
    contacts.insert("+1".to_string(), "Alice".to_string());
    let history = vec![message("DEF", "+1", "hello there"), message("GHI", "+2", "later")];
    let mut m = message("ABC", "+2", "reply text");
    m.reply_to_guid = Some("DEF".to_string());
    let preview = reply_preview(&m, &history, &contacts).expect("preview");
    assert_eq!(preview, "↪ Alice: hello there");

    m.reply_to_guid = Some("NOPE".to_string());
    let preview = reply_preview(&m, &history, &contacts).expect("preview");
    assert_eq!(preview, "↪ reply to NOPE");

    m.reply_to_guid = None;
    assert!(reply_preview(&m, &history, &contacts).is_none());
}

#[test]
fn reply_preview_truncates_long_quotes() {
    let contacts: StrMap<String> = StrMap::new();
    let long = "x".repeat(60);
    let history = vec![message("DEF", "+1", &long)];
    let mut m = message("ABC", "+2", "r");
    m.reply_to_guid = Some("DEF".to_string());
    let preview = reply_preview(&m, &history, &contacts).expect("preview");
    let expected = format!("↪ +1: {}…", "x".repeat(48));
    assert_eq!(preview, expected);

    // Truncation never splits a multi-byte character: 24 two-byte characters
    // fill the 48-byte budget exactly.
    let long = "é".repeat(30);
    let history = vec![message("DEF", "+1", &long)];
    let preview = reply_preview(&m, &history, &contacts).expect("preview");
    let expected = format!("↪ +1: {}…", "é".repeat(24));
    assert_eq!(preview, expected);
}

#[test]
fn reply_preview_uses_the_latest_message_with_the_guid() {
    let contacts: StrMap<String> = StrMap::new();
    let history = vec![message("DEF", "+1", "old"), message("DEF", "+2", "new")];
    let mut m = message("ABC", "+3", "r");
    m.reply_to_guid = Some("DEF".to_string());
    let preview = reply_preview(&m, &history, &contacts).expect("preview");
    assert_eq!(preview, "↪ +2: new");
}

#[test]
fn the_first_url_is_found() {
    let url = first_url("see https://example.com and http://two.test/x now");
    assert_eq!(url.as_deref(), Some("https://example.com"));
    assert!(first_url("no links here").is_none());
}

#[test]
fn helper_text_and_small_utilities() {
    assert!(help_text().contains("compose mode"));
    assert_eq!(dec_string(0), "0");
    assert_eq!(dec_string(10500), "10500");
    assert!(str_eq("abc", "abc"));
    assert!(!str_eq("abc", "abd"));
    assert!(!str_eq("abc", "ab"));
}
