//! The records the backend returns: conversations, messages, reactions and
//! attachments.  A record arrives as one JSON object; the trusted layer
//! hands each member over as a plain `Option`, and the verified cores below
//! pin down exactly how missing members default and which entries are kept.

use vstd::prelude::*;
use crate::jsonval::{json_as_array, json_as_bool, json_as_i64, json_as_str, json_get};

verus! {

#[derive(Debug)]
pub struct Chat {
    pub id: i64,
    pub name: String,
    pub identifier: String,
    pub service: String,
    pub last_message_at: String,
    pub participants: Vec<String>,
}

#[derive(Debug)]
pub struct Reaction {
    pub emoji: String,
    pub sender: String,
    pub is_from_me: bool,
}

#[derive(Debug)]
pub struct Attachment {
    pub original_path: String,
    pub filename: String,
    pub mime_type: String,
}

impl Clone for Attachment {
    fn clone(&self) -> (r: Attachment)
        ensures
            r == *self,
    {
        Attachment {
            original_path: self.original_path.clone(),
            filename: self.filename.clone(),
            mime_type: self.mime_type.clone(),
        }
    }
}

#[derive(Debug)]
pub struct Message {
    pub chat_id: i64,
    pub guid: String,
    pub reply_to_guid: Option<String>,
    pub sender: String,
    pub text: String,
    pub created_at: String,
    pub is_from_me: bool,
    pub reactions: Vec<Reaction>,
    pub attachments: Vec<Attachment>,
}

/// The text of an optional member, defaulting to empty.
pub open spec fn str_or_empty(o: Option<String>) -> Seq<char> {
    match o {
        Some(s) => s@,
        None => Seq::empty(),
    }
}

/// The value of an optional boolean member, defaulting to false.
pub open spec fn bool_or_false(o: Option<bool>) -> bool {
    match o {
        Some(b) => b,
        None => false,
    }
}

fn unwrap_or_empty(o: Option<String>) -> (r: String)
    ensures
        r@ == str_or_empty(o),
{
    match o {
        Some(s) => s,
        None => String::new(),
    }
}

fn unwrap_or_false(o: Option<bool>) -> (r: bool)
    ensures
        r == bool_or_false(o),
{
    match o {
        Some(b) => b,
        None => false,
    }
}

/// Builds a conversation record from its members.  A chat exists exactly
/// when its numeric `id` is present; every text member defaults to empty.
pub fn chat_from_fields(
    id: Option<i64>,
    name: Option<String>,
    identifier: Option<String>,
    service: Option<String>,
    last_message_at: Option<String>,
    participants: Vec<String>,
) -> (r: Option<Chat>)
    ensures
        r is Some <==> id is Some,
        r matches Some(c) ==> {
            &&& c.id == id->0
            &&& c.name@ == str_or_empty(name)
            &&& c.identifier@ == str_or_empty(identifier)
            &&& c.service@ == str_or_empty(service)
            &&& c.last_message_at@ == str_or_empty(last_message_at)
            &&& c.participants == participants
        },
{
    match id {
        Some(id) => Some(
            Chat {
                id,
                name: unwrap_or_empty(name),
                identifier: unwrap_or_empty(identifier),
                service: unwrap_or_empty(service),
                last_message_at: unwrap_or_empty(last_message_at),
                participants,
            },
        ),
        None => None,
    }
}

/// Builds a reaction from its members.  A reaction is kept exactly when its
/// emoji is present and non-empty.
pub fn reaction_from_fields(
    emoji: Option<String>,
    sender: Option<String>,
    is_from_me: Option<bool>,
) -> (r: Option<Reaction>)
    ensures
        r is Some <==> str_or_empty(emoji).len() > 0,
        r matches Some(x) ==> {
            &&& x.emoji@ == str_or_empty(emoji)
            &&& x.sender@ == str_or_empty(sender)
            &&& x.is_from_me == bool_or_false(is_from_me)
        },
{
    let e = unwrap_or_empty(emoji);
    if e.as_str().is_empty() {
        None
    } else {
        Some(
            Reaction {
                emoji: e,
                sender: unwrap_or_empty(sender),
                is_from_me: unwrap_or_false(is_from_me),
            },
        )
    }
}

/// Builds an attachment from its members.  An attachment is kept exactly
/// when its path or its filename is present and non-empty.
pub fn attachment_from_fields(
    original_path: Option<String>,
    filename: Option<String>,
    mime_type: Option<String>,
) -> (r: Option<Attachment>)
    ensures
        r is Some <==> (str_or_empty(original_path).len() > 0 || str_or_empty(filename).len() > 0),
        r matches Some(x) ==> {
            &&& x.original_path@ == str_or_empty(original_path)
            &&& x.filename@ == str_or_empty(filename)
            &&& x.mime_type@ == str_or_empty(mime_type)
        },
{
    let p = unwrap_or_empty(original_path);
    let f = unwrap_or_empty(filename);
    if p.as_str().is_empty() && f.as_str().is_empty() {
        None
    } else {
        Some(Attachment { original_path: p, filename: f, mime_type: unwrap_or_empty(mime_type) })
    }
}

/// Builds a message record from its members.  A message exists exactly when
/// its numeric `chat_id` is present; `reply_to_guid` stays optional, the
/// other text members default to empty, and the reaction and attachment
/// lists are taken as already filtered.
pub fn message_from_fields(
    chat_id: Option<i64>,
    guid: Option<String>,
    reply_to_guid: Option<String>,
    sender: Option<String>,
    text: Option<String>,
    created_at: Option<String>,
    is_from_me: Option<bool>,
    reactions: Vec<Reaction>,
    attachments: Vec<Attachment>,
) -> (r: Option<Message>)
    ensures
        r is Some <==> chat_id is Some,
        r matches Some(m) ==> {
            &&& m.chat_id == chat_id->0
            &&& m.guid@ == str_or_empty(guid)
            &&& m.reply_to_guid == reply_to_guid
            &&& m.sender@ == str_or_empty(sender)
            &&& m.text@ == str_or_empty(text)
            &&& m.created_at@ == str_or_empty(created_at)
            &&& m.is_from_me == bool_or_false(is_from_me)
            &&& m.reactions == reactions
            &&& m.attachments == attachments
        },
{
    match chat_id {
        Some(chat_id) => Some(
            Message {
                chat_id,
                guid: unwrap_or_empty(guid),
                reply_to_guid,
                sender: unwrap_or_empty(sender),
                text: unwrap_or_empty(text),
                created_at: unwrap_or_empty(created_at),
                is_from_me: unwrap_or_false(is_from_me),
                reactions,
                attachments,
            },
        ),
        None => None,
    }
}

/// The text of a member of a JSON object, if present as a string.
pub(crate) fn get_str_field(v: &serde_json::Value, key: &str) -> Option<String> {
    match json_get(v, key) {
        Some(f) => match json_as_str(f) {
            Some(s) => Some(s.to_owned()),
            None => None,
        },
        None => None,
    }
}

/// The value of a member of a JSON object, if present as an integer.
pub(crate) fn get_i64_field(v: &serde_json::Value, key: &str) -> Option<i64> {
    match json_get(v, key) {
        Some(f) => json_as_i64(f),
        None => None,
    }
}

fn get_bool_field(v: &serde_json::Value, key: &str) -> Option<bool> {
    match json_get(v, key) {
        Some(f) => json_as_bool(f),
        None => None,
    }
}

/// Parses one conversation object.  The members are read out of the opaque
/// JSON value; `chat_from_fields` carries the verified defaulting rules.
pub fn parse_chat(value: &serde_json::Value) -> Option<Chat> {
    let mut participants: Vec<String> = Vec::new();
    match json_get(value, "participants") {
        Some(pv) => match json_as_array(pv) {
            Some(items) => {
                let mut i: usize = 0;
                while i < items.len()
                    decreases items.len() - i,
                {
                    match json_as_str(&items[i]) {
                        Some(s) => participants.push(s.to_owned()),
                        None => {},
                    }
                    i = i + 1;
                }
            },
            None => {},
        },
        None => {},
    }
    chat_from_fields(
        get_i64_field(value, "id"),
        get_str_field(value, "name"),
        get_str_field(value, "identifier"),
        get_str_field(value, "service"),
        get_str_field(value, "last_message_at"),
        participants,
    )
}

fn parse_reactions(value: &serde_json::Value) -> Vec<Reaction> {
    let mut reactions: Vec<Reaction> = Vec::new();
    match json_get(value, "reactions") {
        Some(rv) => match json_as_array(rv) {
            Some(items) => {
                let mut i: usize = 0;
                while i < items.len()
                    decreases items.len() - i,
                {
                    let entry = &items[i];
                    match reaction_from_fields(
                        get_str_field(entry, "emoji"),
                        get_str_field(entry, "sender"),
                        get_bool_field(entry, "is_from_me"),
                    ) {
                        Some(r) => reactions.push(r),
                        None => {},
                    }
                    i = i + 1;
                }
            },
            None => {},
        },
        None => {},
    }
    reactions
}

fn parse_attachments(value: &serde_json::Value) -> Vec<Attachment> {
    let mut attachments: Vec<Attachment> = Vec::new();
    match json_get(value, "attachments") {
        Some(av) => match json_as_array(av) {
            Some(items) => {
                let mut i: usize = 0;
                while i < items.len()
                    decreases items.len() - i,
                {
                    let entry = &items[i];
                    match attachment_from_fields(
                        get_str_field(entry, "original_path"),
                        get_str_field(entry, "filename"),
                        get_str_field(entry, "mime_type"),
                    ) {
                        Some(a) => attachments.push(a),
                        None => {},
                    }
                    i = i + 1;
                }
            },
            None => {},
        },
        None => {},
    }
    attachments
}

/// Parses one message object.  The members are read out of the opaque JSON
/// value; `message_from_fields` and the per-entry cores carry the verified
/// defaulting and filtering rules.
pub fn parse_message(value: &serde_json::Value) -> Option<Message> {
    let reactions = parse_reactions(value);
    let attachments = parse_attachments(value);
    message_from_fields(
        get_i64_field(value, "chat_id"),
        get_str_field(value, "guid"),
        get_str_field(value, "reply_to_guid"),
        get_str_field(value, "sender"),
        get_str_field(value, "text"),
        get_str_field(value, "created_at"),
        get_bool_field(value, "is_from_me"),
        reactions,
        attachments,
    )
}

/// Parses the message carried inside a `"message"` notification's params.
pub fn parse_notification_message(params: &serde_json::Value) -> Option<Message> {
    match json_get(params, "message") {
        Some(m) => parse_message(m),
        None => None,
    }
}

} // verus!
