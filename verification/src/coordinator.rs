//! The session coordinator: owns the pending-request table that maps each
//! outstanding identifier to the intent that produced it, resolves inbound
//! events against it, and drives the reconnection policy.  The coordinator
//! never performs I/O: each operation returns the wire lines to enqueue and
//! the side effects (alerts, file saves, fetches) for the caller to perform,
//! and takes the current time as an argument.

use vstd::prelude::*;
use vstd::string::StringExecFns;
use crate::attach::b64_decode;
use crate::backoff::{reconnect_delay, spec_reconnect_delay};
use crate::frame::RpcEvent;
use crate::jsonval::{json_as_array, json_as_str, json_get, json_render};
use crate::present::{sender_display, spec_looks_like_handle, looks_like_handle};
use crate::records::{
    get_i64_field, get_str_field, parse_chat, parse_message, parse_notification_message,
};
use crate::ids::IdGen;
use crate::records::{Attachment, Chat, Message};
use crate::strmap::StrMap;
use crate::textops::{
    chars_of, dec_digits, lemma_dec_digits_injective, spec_trim, str_eq, string_from_chars,
    trim_chars,
};
use crate::wire::{
    dec_i64, encode_call, json_str, spec_method_of, spec_params_json, spec_request_line,
    RequestParams,
};

verus! {

/// The intent a request was dispatched with: which kind of call the caller
/// made, used to route its eventual reply.
#[derive(Clone, Copy, PartialEq, Eq, Structural, Debug)]
pub enum PendingRequest {
    Chats,
    History,
    WatchSubscribe,
    WatchUnsubscribe,
    Send,
    ResolveContacts,
    ContactSearch,
    Reaction,
    AttachmentFetch,
}

/// An attachment fetch in flight: the cache key it will be stored under and
/// the filename its extension is taken from.
#[derive(Debug)]
pub struct AttachmentFetch {
    pub key: String,
    pub filename: String,
}

/// A desktop alert for the caller to show.
#[derive(Debug)]
pub struct Alert {
    pub summary: String,
    pub body: String,
}

/// A fetched attachment payload for the caller to write to the cache
/// directory, and then report back with `attachment_saved`.
#[derive(Debug)]
pub struct SaveFile {
    pub key: String,
    pub filename: String,
    pub data: Vec<u8>,
}

/// What one coordinator step asks the caller to do: wire lines to enqueue in
/// order, at most one alert to show, at most one payload to save, and
/// attachments whose fetch should be requested next.
pub struct Effects {
    pub outbound: Vec<String>,
    pub alert: Option<Alert>,
    pub save: Option<SaveFile>,
    pub fetches: Vec<Attachment>,
}

impl Effects {
    /// No effect at all.
    pub open spec fn is_empty(self) -> bool {
        &&& self.outbound@ == Seq::<String>::empty()
        &&& self.alert is None
        &&& self.save is None
        &&& self.fetches@ == Seq::<Attachment>::empty()
    }

    pub fn none() -> (r: Effects)
        ensures
            r.is_empty(),
    {
        Effects { outbound: Vec::new(), alert: None, save: None, fetches: Vec::new() }
    }
}

/// The session coordinator.
pub struct Coordinator {
    pub connected: bool,
    pub notify: bool,
    pub ids: IdGen,
    pub pending: StrMap<PendingRequest>,
    pub chats: Vec<Chat>,
    pub messages: Vec<Message>,
    pub selected: usize,
    pub status: String,
    pub watch_subscription: Option<String>,
    pub watch_chat_id: Option<i64>,
    pub contacts: StrMap<String>,
    pub contact_query: Option<String>,
    pub contact_suggestions: Vec<(String, String)>,
    pub reconnect_at: Option<u64>,
    pub reconnect_attempts: u32,
    pub compose_to: String,
    pub compose_body: String,
    pub recipient_history: Vec<String>,
    pub history_index: Option<usize>,
    pub attachment_cache: StrMap<String>,
    pub pending_attachments: StrMap<AttachmentFetch>,
}

/// Everything but the dispatch bookkeeping (identifier generator, pending
/// table) and the status line is equal.
pub open spec fn same_but_dispatch(a: Coordinator, b: Coordinator) -> bool {
    &&& b.connected == a.connected
    &&& b.notify == a.notify
    &&& b.chats == a.chats
    &&& b.messages == a.messages
    &&& b.selected == a.selected
    &&& b.watch_subscription == a.watch_subscription
    &&& b.watch_chat_id == a.watch_chat_id
    &&& b.contacts == a.contacts
    &&& b.contact_query == a.contact_query
    &&& b.contact_suggestions == a.contact_suggestions
    &&& b.reconnect_at == a.reconnect_at
    &&& b.reconnect_attempts == a.reconnect_attempts
    &&& b.compose_to == a.compose_to
    &&& b.compose_body == a.compose_body
    &&& b.recipient_history == a.recipient_history
    &&& b.history_index == a.history_index
    &&& b.attachment_cache == a.attachment_cache
    &&& b.pending_attachments == a.pending_attachments
}

/// One identifier was issued and registered under `intent`; every other
/// pending entry is untouched.
pub open spec fn registered(pre: Coordinator, post: Coordinator, intent: PendingRequest) -> bool {
    &&& post.pending.spec_get(dec_digits(pre.ids.counter as nat)) == Some(intent)
    &&& forall|k: Seq<char>|
        k != dec_digits(pre.ids.counter as nat) ==> post.pending.spec_get(k)
            == pre.pending.spec_get(k)
    &&& post.ids.counter == pre.ids.counter + 1
    &&& post.ids.issued@ == pre.ids.issued@.push(pre.ids.counter)
}

/// The wire line of the next request `pre` will dispatch with payload `p`.
pub open spec fn next_line(pre: Coordinator, p: RequestParams) -> Seq<char> {
    spec_request_line(
        dec_digits(pre.ids.counter as nat),
        spec_method_of(p),
        Some(spec_params_json(p)),
    )
}

impl Coordinator {
    pub open spec fn wf(self) -> bool {
        &&& self.ids.wf()
        &&& self.pending.wf()
        &&& self.contacts.wf()
        &&& self.attachment_cache.wf()
        &&& self.pending_attachments.wf()
    }

    /// A fresh session.  `connected` says whether the caller holds a live
    /// transport; `notify` whether inbound messages raise alerts.
    pub fn new(notify: bool, connected: bool) -> (c: Coordinator)
        ensures
            c.wf(),
            c.connected == connected,
            c.notify == notify,
            c.ids.counter == 0,
            c.ids.issued@ == Seq::<u64>::empty(),
            c.pending@.len() == 0,
            c.chats@.len() == 0,
            c.messages@.len() == 0,
            c.selected == 0,
            c.status@ == "ready"@,
            c.watch_subscription is None,
            c.watch_chat_id is None,
            c.contacts@.len() == 0,
            c.contact_query is None,
            c.contact_suggestions@.len() == 0,
            c.reconnect_at is None,
            c.reconnect_attempts == 0,
            c.compose_to@ == Seq::<char>::empty(),
            c.compose_body@ == Seq::<char>::empty(),
            c.recipient_history@.len() == 0,
            c.history_index is None,
            c.attachment_cache@.len() == 0,
            c.pending_attachments@.len() == 0,
    {
        Coordinator {
            connected,
            notify,
            ids: IdGen::new(),
            pending: StrMap::new(),
            chats: Vec::new(),
            messages: Vec::new(),
            selected: 0,
            status: String::from_str("ready"),
            watch_subscription: None,
            watch_chat_id: None,
            contacts: StrMap::new(),
            contact_query: None,
            contact_suggestions: Vec::new(),
            reconnect_at: None,
            reconnect_attempts: 0,
            compose_to: String::new(),
            compose_body: String::new(),
            recipient_history: Vec::new(),
            history_index: None,
            attachment_cache: StrMap::new(),
            pending_attachments: StrMap::new(),
        }
    }

    /// Issues a fresh identifier, registers the intent under it, and returns
    /// the encoded wire line.  The caller has already checked connectivity.
    fn dispatch(&mut self, intent: PendingRequest, params: &RequestParams) -> (line: String)
        requires
            old(self).wf(),
            old(self).ids.counter < u64::MAX,
        ensures
            final(self).wf(),
            line@ == next_line(*old(self), *params),
            registered(*old(self), *final(self), intent),
            same_but_dispatch(*old(self), *final(self)),
            final(self).status == old(self).status,
    {
        let id = self.ids.next_id();
        let line = encode_call(id.as_str(), params);
        self.pending.insert(id, intent);
        line
    }

    /// Asks for the conversation list.  No-op while disconnected.
    pub fn request_chats(&mut self) -> (r: Option<String>)
        requires
            old(self).wf(),
            old(self).ids.counter < u64::MAX,
        ensures
            final(self).wf(),
            !old(self).connected ==> r is None && *final(self) == *old(self),
            old(self).connected ==> {
                &&& r matches Some(line) && line@ == next_line(
                    *old(self),
                    RequestParams::ChatsList { limit: 50 },
                )
                &&& registered(*old(self), *final(self), PendingRequest::Chats)
                &&& same_but_dispatch(*old(self), *final(self))
                &&& final(self).status@ == "loading chats..."@
            },
    {
        if !self.connected {
            return None;
        }
        let line = self.dispatch(PendingRequest::Chats, &RequestParams::ChatsList { limit: 50 });
        self.status = String::from_str("loading chats...");
        Some(line)
    }

    /// Asks for the recent history of one conversation.
    pub fn request_history(&mut self, chat_id: i64) -> (r: Option<String>)
        requires
            old(self).wf(),
            old(self).ids.counter < u64::MAX,
        ensures
            final(self).wf(),
            !old(self).connected ==> r is None && *final(self) == *old(self),
            old(self).connected ==> {
                &&& r matches Some(line) && line@ == next_line(
                    *old(self),
                    RequestParams::MessagesHistory { chat_id, limit: 50 },
                )
                &&& registered(*old(self), *final(self), PendingRequest::History)
                &&& same_but_dispatch(*old(self), *final(self))
                &&& final(self).status@ == "loading history for chat "@ + crate::wire::dec_i64(
                    chat_id as int,
                )
            },
    {
        if !self.connected {
            return None;
        }
        let line = self.dispatch(
            PendingRequest::History,
            &RequestParams::MessagesHistory { chat_id, limit: 50 },
        );
        let mut t: Vec<char> = Vec::new();
        crate::wire::append_lit(&mut t, "loading history for chat ");
        crate::wire::append_dec_i64(&mut t, chat_id);
        self.status = crate::textops::string_from_chars(&t);
        Some(line)
    }

    /// Sends a reaction to the message with the given guid.
    pub fn request_reaction(&mut self, guid: &str, reaction: &str) -> (r: Option<String>)
        requires
            old(self).wf(),
            old(self).ids.counter < u64::MAX,
        ensures
            final(self).wf(),
            !old(self).connected ==> r is None && *final(self) == *old(self),
            old(self).connected ==> {
                &&& r matches Some(line) && line@ == spec_request_line(
                    dec_digits(old(self).ids.counter as nat),
                    "reactions.send"@,
                    Some(
                        "{\"guid\":"@ + json_str(guid@) + ",\"reaction\":"@ + json_str(
                            reaction@,
                        ) + "}"@,
                    ),
                )
                &&& registered(*old(self), *final(self), PendingRequest::Reaction)
                &&& same_but_dispatch(*old(self), *final(self))
                &&& final(self).status@ == "sending reaction..."@
            },
    {
        if !self.connected {
            return None;
        }
        let p = RequestParams::ReactionsSend { guid: guid.to_owned(), reaction: reaction.to_owned() };
        let line = self.dispatch(PendingRequest::Reaction, &p);
        self.status = String::from_str("sending reaction...");
        Some(line)
    }

    /// Asks the backend to resolve display names for the given handles.
    pub fn request_contact_resolve(&mut self, handles: Vec<String>) -> (r: Option<String>)
        requires
            old(self).wf(),
            old(self).ids.counter < u64::MAX,
        ensures
            final(self).wf(),
            !old(self).connected ==> r is None && *final(self) == *old(self),
            old(self).connected ==> {
                &&& r matches Some(line) && line@ == next_line(
                    *old(self),
                    RequestParams::ContactsResolve { handles },
                )
                &&& registered(*old(self), *final(self), PendingRequest::ResolveContacts)
                &&& same_but_dispatch(*old(self), *final(self))
                &&& final(self).status == old(self).status
            },
    {
        if !self.connected {
            return None;
        }
        let p = RequestParams::ContactsResolve { handles };
        let line = self.dispatch(PendingRequest::ResolveContacts, &p);
        Some(line)
    }

    /// Searches contacts by name.
    pub fn request_contact_search(&mut self, query: &str) -> (r: Option<String>)
        requires
            old(self).wf(),
            old(self).ids.counter < u64::MAX,
        ensures
            final(self).wf(),
            !old(self).connected ==> r is None && *final(self) == *old(self),
            old(self).connected ==> {
                &&& r matches Some(line) && line@ == spec_request_line(
                    dec_digits(old(self).ids.counter as nat),
                    "contacts.search"@,
                    Some("{\"query\":"@ + json_str(query@) + ",\"limit\":"@ + dec_digits(10) + "}"@),
                )
                &&& registered(*old(self), *final(self), PendingRequest::ContactSearch)
                &&& same_but_dispatch(*old(self), *final(self))
                &&& final(self).status == old(self).status
            },
    {
        if !self.connected {
            return None;
        }
        let p = RequestParams::ContactsSearch { query: query.to_owned(), limit: 10 };
        let line = self.dispatch(PendingRequest::ContactSearch, &p);
        Some(line)
    }

    /// Sends a message to a conversation by its id.
    pub fn request_send_chat(&mut self, chat_id: i64, text: &str) -> (r: Option<String>)
        requires
            old(self).wf(),
            old(self).ids.counter < u64::MAX,
        ensures
            final(self).wf(),
            !old(self).connected ==> r is None && *final(self) == *old(self),
            old(self).connected ==> {
                &&& r matches Some(line) && line@ == spec_request_line(
                    dec_digits(old(self).ids.counter as nat),
                    "send"@,
                    Some(
                        "{\"chat_id\":"@ + dec_i64(chat_id as int) + ",\"text\":"@ + json_str(
                            text@,
                        ) + "}"@,
                    ),
                )
                &&& registered(*old(self), *final(self), PendingRequest::Send)
                &&& same_but_dispatch(*old(self), *final(self))
                &&& final(self).status@ == "sending..."@
            },
    {
        if !self.connected {
            return None;
        }
        let p = RequestParams::SendChat { chat_id, text: text.to_owned() };
        let line = self.dispatch(PendingRequest::Send, &p);
        self.status = String::from_str("sending...");
        Some(line)
    }

    /// Sends a message to a free-form recipient handle.
    pub fn request_send_to(&mut self, to: &str, text: &str) -> (r: Option<String>)
        requires
            old(self).wf(),
            old(self).ids.counter < u64::MAX,
        ensures
            final(self).wf(),
            !old(self).connected ==> r is None && *final(self) == *old(self),
            old(self).connected ==> {
                &&& r matches Some(line) && line@ == spec_request_line(
                    dec_digits(old(self).ids.counter as nat),
                    "send"@,
                    Some(
                        "{\"to\":"@ + json_str(to@) + ",\"text\":"@ + json_str(text@) + "}"@,
                    ),
                )
                &&& registered(*old(self), *final(self), PendingRequest::Send)
                &&& same_but_dispatch(*old(self), *final(self))
                &&& final(self).status@ == "sending..."@
            },
    {
        if !self.connected {
            return None;
        }
        let p = RequestParams::SendTo { to: to.to_owned(), text: text.to_owned() };
        let line = self.dispatch(PendingRequest::Send, &p);
        self.status = String::from_str("sending...");
        Some(line)
    }

    /// Subscribes to live updates for one conversation.
    pub fn request_watch_subscribe(&mut self, chat_id: i64) -> (r: Option<String>)
        requires
            old(self).wf(),
            old(self).ids.counter < u64::MAX,
        ensures
            final(self).wf(),
            !old(self).connected ==> r is None && *final(self) == *old(self),
            old(self).connected ==> {
                &&& r matches Some(line) && line@ == next_line(
                    *old(self),
                    RequestParams::WatchSubscribe { chat_id },
                )
                &&& registered(*old(self), *final(self), PendingRequest::WatchSubscribe)
                &&& same_but_dispatch(*old(self), *final(self))
                &&& final(self).status@ == "subscribing..."@
            },
    {
        if !self.connected {
            return None;
        }
        let line = self.dispatch(
            PendingRequest::WatchSubscribe,
            &RequestParams::WatchSubscribe { chat_id },
        );
        self.status = String::from_str("subscribing...");
        Some(line)
    }

    /// Toggles the live-update watch: unsubscribes when a subscription is
    /// active, else subscribes to the given conversation and remembers it.
    pub fn toggle_watch(&mut self, chat_id: i64) -> (r: Option<String>)
        requires
            old(self).wf(),
            old(self).ids.counter < u64::MAX,
        ensures
            final(self).wf(),
            !old(self).connected ==> r is None && *final(self) == *old(self),
            old(self).connected ==> (match old(self).watch_subscription {
                Some(sub) => {
                    &&& r matches Some(line) && line@ == next_line(
                        *old(self),
                        RequestParams::WatchUnsubscribe { subscription: sub },
                    )
                    &&& registered(*old(self), *final(self), PendingRequest::WatchUnsubscribe)
                    &&& final(self).status@ == "unsubscribing..."@
                    &&& final(self).watch_chat_id is None
                    &&& final(self).watch_subscription == old(self).watch_subscription
                },
                None => {
                    &&& r matches Some(line) && line@ == next_line(
                        *old(self),
                        RequestParams::WatchSubscribe { chat_id },
                    )
                    &&& registered(*old(self), *final(self), PendingRequest::WatchSubscribe)
                    &&& final(self).status@ == "subscribing..."@
                    &&& final(self).watch_chat_id == Some(chat_id)
                    &&& final(self).watch_subscription == old(self).watch_subscription
                },
            }),
    {
        if !self.connected {
            return None;
        }
        match &self.watch_subscription {
            Some(sub) => {
                let p = RequestParams::WatchUnsubscribe { subscription: sub.clone() };
                let line = self.dispatch(PendingRequest::WatchUnsubscribe, &p);
                self.status = String::from_str("unsubscribing...");
                self.watch_chat_id = None;
                Some(line)
            },
            None => {
                self.watch_chat_id = Some(chat_id);
                let line = self.dispatch(
                    PendingRequest::WatchSubscribe,
                    &RequestParams::WatchSubscribe { chat_id },
                );
                self.status = String::from_str("subscribing...");
                Some(line)
            },
        }
    }

    /// Records the chat list from a reply: replaces the conversations, pulls
    /// the selection back into range, and reports success.
    pub fn apply_chats(&mut self, chats: Vec<Chat>) -> (eff: Effects)
        requires
            old(self).wf(),
            old(self).ids.counter < u64::MAX,
        ensures
            final(self).wf(),
            final(self).chats == chats,
            final(self).selected == if old(self).selected >= chats@.len() {
                0
            } else {
                old(self).selected as int
            },
            final(self).status@ == "chats loaded"@,
            final(self).messages == old(self).messages,
            final(self).contacts == old(self).contacts,
            final(self).watch_subscription == old(self).watch_subscription,
            final(self).watch_chat_id == old(self).watch_chat_id,
            final(self).connected == old(self).connected,
            final(self).reconnect_at == old(self).reconnect_at,
            final(self).reconnect_attempts == old(self).reconnect_attempts,
            eff.alert is None,
            eff.save is None,
            eff.fetches@.len() == 0,
            ({
                let hs = filtered_handles(all_candidates(chats@), old(self).contacts);
                if old(self).connected && hs.len() > 0 {
                    &&& eff.outbound@.len() == 1
                    &&& eff.outbound@[0]@ == spec_request_line(
                        dec_digits(old(self).ids.counter as nat),
                        "contacts.resolve"@,
                        Some(
                            "{\"handles\":"@ + crate::wire::json_str_array(views_of(hs)) + "}"@,
                        ),
                    )
                    &&& registered(*old(self), *final(self), PendingRequest::ResolveContacts)
                } else {
                    &&& eff.outbound@.len() == 0
                    &&& final(self).pending == old(self).pending
                    &&& final(self).ids == old(self).ids
                }
            }),
    {
        let candidates = collect_candidates(&chats);
        let handles = filter_unseen(&candidates, &self.contacts);
        self.chats = chats;
        if self.selected >= self.chats.len() {
            self.selected = 0;
        }
        self.status = String::from_str("chats loaded");
        let mut eff = Effects::none();
        if handles.len() > 0 {
            proof {
                assert(handles.deep_view() =~= views_of(handles@));
            }
            match self.request_contact_resolve(handles) {
                Some(line) => eff.outbound.push(line),
                None => {},
            }
        }
        eff
    }

    /// Records the history of the open conversation from a reply, clears the
    /// compose suggestions, asks the caller to fetch every attachment, and
    /// dispatches one name-resolution call for the unseen senders, if any.
    pub fn apply_history(&mut self, messages: Vec<Message>) -> (eff: Effects)
        requires
            old(self).wf(),
            old(self).ids.counter < u64::MAX,
        ensures
            final(self).wf(),
            final(self).messages == messages,
            final(self).status@ == "history loaded"@,
            final(self).contact_suggestions@.len() == 0,
            final(self).chats == old(self).chats,
            final(self).selected == old(self).selected,
            final(self).contacts == old(self).contacts,
            final(self).connected == old(self).connected,
            final(self).watch_subscription == old(self).watch_subscription,
            final(self).watch_chat_id == old(self).watch_chat_id,
            final(self).reconnect_at == old(self).reconnect_at,
            final(self).reconnect_attempts == old(self).reconnect_attempts,
            eff.alert is None,
            eff.save is None,
            eff.fetches@ == all_attachments(messages@),
            ({
                let hs = filtered_handles(senders(messages@), old(self).contacts);
                if old(self).connected && hs.len() > 0 {
                    &&& eff.outbound@.len() == 1
                    &&& eff.outbound@[0]@ == spec_request_line(
                        dec_digits(old(self).ids.counter as nat),
                        "contacts.resolve"@,
                        Some(
                            "{\"handles\":"@ + crate::wire::json_str_array(views_of(hs)) + "}"@,
                        ),
                    )
                    &&& registered(*old(self), *final(self), PendingRequest::ResolveContacts)
                } else {
                    &&& eff.outbound@.len() == 0
                    &&& final(self).pending == old(self).pending
                    &&& final(self).ids == old(self).ids
                }
            }),
    {
        let fetches = collect_attachments(&messages);
        let sv = senders_of(&messages);
        let handles = filter_unseen(&sv, &self.contacts);
        self.messages = messages;
        self.status = String::from_str("history loaded");
        self.contact_suggestions = Vec::new();
        let mut eff = Effects::none();
        eff.fetches = fetches;
        if handles.len() > 0 {
            proof {
                assert(handles.deep_view() =~= views_of(handles@));
            }
            match self.request_contact_resolve(handles) {
                Some(line) => eff.outbound.push(line),
                None => {},
            }
        }
        eff
    }

    /// Records the subscription token from a watch-subscribe reply, when the
    /// reply carries one.
    pub fn apply_subscription(&mut self, token: Option<String>)
        requires
            old(self).wf(),
        ensures
            final(self).wf(),
            token is None ==> *final(self) == *old(self),
            token matches Some(t) ==> {
                &&& final(self).watch_subscription == Some(t)
                &&& final(self).status@ == "watch subscribed"@
                &&& final(self).pending == old(self).pending
                &&& final(self).ids == old(self).ids
                &&& final(self).watch_chat_id == old(self).watch_chat_id
                &&& final(self).messages == old(self).messages
                &&& final(self).chats == old(self).chats
            },
    {
        match token {
            Some(t) => {
                self.watch_subscription = Some(t);
                self.status = String::from_str("watch subscribed");
            },
            None => {},
        }
    }

    /// Clears the watch state after an unsubscribe reply.
    pub fn apply_unsubscribed(&mut self)
        requires
            old(self).wf(),
        ensures
            final(self).wf(),
            final(self).watch_subscription is None,
            final(self).watch_chat_id is None,
            final(self).status@ == "watch unsubscribed"@,
            final(self).pending == old(self).pending,
            final(self).ids == old(self).ids,
            final(self).messages == old(self).messages,
            final(self).chats == old(self).chats,
            final(self).contacts == old(self).contacts,
    {
        self.watch_subscription = None;
        self.watch_chat_id = None;
        self.status = String::from_str("watch unsubscribed");
    }

    /// Merges resolved names into the contact book: for each handle, the
    /// last entry of the reply wins; every other handle keeps its old name.
    pub fn apply_contacts(&mut self, entries: Vec<(String, String)>)
        requires
            old(self).wf(),
        ensures
            final(self).wf(),
            forall|k: Seq<char>| final(self).contacts.spec_get(k) == (match lookup_last(
                entries@,
                k,
            ) {
                Some(v) => Some(v),
                None => old(self).contacts.spec_get(k),
            }),
            final(self).pending == old(self).pending,
            final(self).ids == old(self).ids,
            final(self).status == old(self).status,
            final(self).messages == old(self).messages,
            final(self).chats == old(self).chats,
    {
        let mut i: usize = 0;
        while i < entries.len()
            invariant
                i <= entries@.len(),
                self.wf(),
                forall|k: Seq<char>| self.contacts.spec_get(k) == (match lookup_last(
                    entries@.take(i as int),
                    k,
                ) {
                    Some(v) => Some(v),
                    None => old(self).contacts.spec_get(k),
                }),
                self.pending == old(self).pending,
                self.ids == old(self).ids,
                self.status == old(self).status,
                self.messages == old(self).messages,
                self.chats == old(self).chats,
                self.connected == old(self).connected,
                self.attachment_cache == old(self).attachment_cache,
                self.pending_attachments == old(self).pending_attachments,
            decreases entries@.len() - i,
        {
            let handle = entries[i].0.clone();
            let name = entries[i].1.clone();
            let ghost pre = self.contacts;
            self.contacts.insert(handle, name);
            proof {
                let es = entries@;
                assert(es.take(i as int + 1).last() == es[i as int]);
                assert(es.take(i as int + 1).drop_last() =~= es.take(i as int));
                assert forall|k: Seq<char>| self.contacts.spec_get(k) == (match lookup_last(
                    es.take(i as int + 1),
                    k,
                ) {
                    Some(v) => Some(v),
                    None => old(self).contacts.spec_get(k),
                }) by {
                    if k == es[i as int].0@ {
                        assert(lookup_last(es.take(i as int + 1), k) == Some(es[i as int].1));
                    } else {
                        assert(self.contacts.spec_get(k) == pre.spec_get(k));
                        assert(lookup_last(es.take(i as int + 1), k) == lookup_last(
                            es.take(i as int),
                            k,
                        ));
                    }
                }
            }
            i = i + 1;
        }
        proof {
            assert(entries@.take(entries@.len() as int) =~= entries@);
        }
    }

    /// Resolves a finished attachment fetch: drops its pending entry and,
    /// when the payload decoded, hands the caller the bytes to store under
    /// the entry's key, named by the entry's filename extension.
    pub fn apply_attachment_data(&mut self, request_id: &str, data: Option<Vec<u8>>) -> (eff:
        Effects)
        requires
            old(self).wf(),
        ensures
            final(self).wf(),
            final(self).pending_attachments.spec_get(request_id@) is None,
            forall|k: Seq<char>|
                k != request_id@ ==> final(self).pending_attachments.spec_get(k) == old(self).pending_attachments.spec_get(k),
            final(self).pending == old(self).pending,
            final(self).ids == old(self).ids,
            final(self).status == old(self).status,
            final(self).attachment_cache == old(self).attachment_cache,
            eff.outbound@.len() == 0,
            eff.alert is None,
            eff.fetches@.len() == 0,
            ({
                let entry = old(self).pending_attachments.spec_get(request_id@);
                match (entry, data) {
                    (Some(e), Some(bytes)) => eff.save matches Some(sf) && sf.key == e.key
                        && sf.filename@ == e.key@ + seq!['.'] + crate::attach::spec_attachment_ext(
                        Seq::<char>::empty(),
                        e.filename@,
                    ) && sf.data == bytes,
                    _ => eff.save is None,
                }
            }),
    {
        let mut eff = Effects::none();
        match self.pending_attachments.remove(request_id) {
            Some(entry) => match data {
                Some(bytes) => {
                    let ext = crate::attach::attachment_ext("", entry.filename.as_str());
                    let mut name: Vec<char> = crate::textops::chars_of(entry.key.as_str());
                    name.push('.');
                    let ec = crate::textops::chars_of(ext.as_str());
                    crate::wire::append_chars(&mut name, &ec);
                    proof {
                        reveal_strlit("");
                        assert(""@ =~= Seq::<char>::empty());
                        assert(name@ =~= entry.key@ + seq!['.']
                            + crate::attach::spec_attachment_ext(
                            Seq::<char>::empty(),
                            entry.filename@,
                        ));
                    }
                    let filename = crate::textops::string_from_chars(&name);
                    eff.save = Some(SaveFile { key: entry.key, filename, data: bytes });
                },
                None => {},
            },
            None => {},
        }
        eff
    }

    /// Records where a fetched attachment was stored.
    pub fn attachment_saved(&mut self, key: String, path: String)
        requires
            old(self).wf(),
        ensures
            final(self).wf(),
            final(self).attachment_cache.spec_get(key@) == Some(path),
            forall|k: Seq<char>|
                k != key@ ==> final(self).attachment_cache.spec_get(k) == old(self).attachment_cache.spec_get(k),
            final(self).pending == old(self).pending,
            final(self).ids == old(self).ids,
            final(self).status == old(self).status,
    {
        self.attachment_cache.insert(key, path);
    }

    /// Asks the backend for an attachment payload, unless the attachment is
    /// not an image, is already cached or in flight, or already exists on
    /// disk at its original path (the caller reports whether it does; in
    /// that case the original path is cached directly).
    pub fn request_attachment_fetch(&mut self, attachment: &Attachment, original_exists: bool) -> (r:
        Option<String>)
        requires
            old(self).wf(),
            old(self).ids.counter < u64::MAX,
        ensures
            final(self).wf(),
            ({
                let key = crate::attach::spec_attachment_key(
                    attachment.original_path@,
                    attachment.filename@,
                );
                let skip = !crate::attach::spec_attachment_is_image(*attachment) || old(self).attachment_cache.spec_contains(key) || fetch_in_flight(
                    old(self).pending_attachments,
                    key,
                );
                if skip {
                    r is None && *final(self) == *old(self)
                } else if attachment.original_path@.len() > 0 && original_exists {
                    &&& r is None
                    &&& final(self).attachment_cache.spec_get(key) == Some(
                        attachment.original_path,
                    )
                    &&& forall|k: Seq<char>|
                        k != key ==> final(self).attachment_cache.spec_get(k) == old(self).attachment_cache.spec_get(k)
                    &&& final(self).pending == old(self).pending
                    &&& final(self).ids == old(self).ids
                    &&& final(self).pending_attachments == old(self).pending_attachments
                    &&& final(self).status == old(self).status
                } else if attachment.original_path@.len() == 0 || !old(self).connected {
                    r is None && *final(self) == *old(self)
                } else {
                    &&& r matches Some(line) && line@ == spec_request_line(
                        dec_digits(old(self).ids.counter as nat),
                        "attachments.fetch"@,
                        Some(
                            "{\"path\":"@ + json_str(attachment.original_path@)
                                + ",\"max_bytes\":"@ + dec_digits(20000000) + "}"@,
                        ),
                    )
                    &&& registered(*old(self), *final(self), PendingRequest::AttachmentFetch)
                    &&& final(self).pending_attachments.spec_get(
                        dec_digits(old(self).ids.counter as nat),
                    ) matches Some(e) && e.key@ == key && e.filename == attachment.filename
                    &&& forall|k: Seq<char>|
                        k != dec_digits(old(self).ids.counter as nat) ==> final(self).pending_attachments.spec_get(k) == old(self).pending_attachments.spec_get(
                            k,
                        )
                    &&& final(self).status == old(self).status
                    &&& final(self).attachment_cache == old(self).attachment_cache
                }
            }),
    {
        if !crate::attach::attachment_is_image(attachment) {
            return None;
        }
        let key = crate::attach::attachment_key(
            attachment.original_path.as_str(),
            attachment.filename.as_str(),
        );
        if self.attachment_cache.contains(key.as_str()) {
            return None;
        }
        let mut i: usize = 0;
        while i < self.pending_attachments.entries.len()
            invariant
                self == old(self),
                old(self).wf(),
                key@ == crate::attach::spec_attachment_key(
                    attachment.original_path@,
                    attachment.filename@,
                ),
                crate::attach::spec_attachment_is_image(*attachment),
                !old(self).attachment_cache.spec_contains(key@),
                i <= self.pending_attachments@.len(),
                forall|j: int|
                    0 <= j < i ==> self.pending_attachments@[j].1.key@ != key@,
            decreases self.pending_attachments@.len() - i,
        {
            if crate::textops::str_eq(
                self.pending_attachments.entries[i].1.key.as_str(),
                key.as_str(),
            ) {
                proof {
                    assert(fetch_in_flight(self.pending_attachments, key@));
                }
                return None;
            }
            i = i + 1;
        }
        proof {
            assert(!fetch_in_flight(self.pending_attachments, key@));
        }
        if !attachment.original_path.as_str().is_empty() && original_exists {
            self.attachment_cache.insert(key, attachment.original_path.clone());
            return None;
        }
        if attachment.original_path.as_str().is_empty() {
            return None;
        }
        if !self.connected {
            return None;
        }
        let p = RequestParams::AttachmentsFetch {
            path: attachment.original_path.clone(),
            max_bytes: 20000000,
        };
        let id_key = crate::textops::dec_string(self.ids.counter);
        let line = self.dispatch(PendingRequest::AttachmentFetch, &p);
        self.pending_attachments.insert(
            id_key,
            AttachmentFetch { key, filename: attachment.filename.clone() },
        );
        Some(line)
    }

    /// Schedules a reconnection attempt, unless one is already scheduled:
    /// the next attempt fires after the backoff delay for the current
    /// attempt count, which is then incremented.
    pub fn schedule_reconnect(&mut self, now_ms: u64)
        requires
            old(self).wf(),
        ensures
            final(self).wf(),
            old(self).reconnect_at is Some ==> *final(self) == *old(self),
            old(self).reconnect_at is None ==> {
                &&& final(self).reconnect_at == Some(
                    spec_sat_add(
                        now_ms,
                        (spec_reconnect_delay(old(self).reconnect_attempts as nat) * 1000) as u64,
                    ),
                )
                &&& final(self).reconnect_attempts == if old(self).reconnect_attempts < u32::MAX {
                    old(self).reconnect_attempts + 1
                } else {
                    old(self).reconnect_attempts as int
                }
                &&& final(self).status == old(self).status
                &&& final(self).pending == old(self).pending
                &&& final(self).ids == old(self).ids
                &&& final(self).connected == old(self).connected
                &&& final(self).watch_subscription == old(self).watch_subscription
                &&& final(self).watch_chat_id == old(self).watch_chat_id
                &&& final(self).messages == old(self).messages
                &&& final(self).chats == old(self).chats
                &&& final(self).contacts == old(self).contacts
            },
    {
        if self.reconnect_at.is_some() {
            return ;
        }
        let delay_s = reconnect_delay(self.reconnect_attempts);
        if self.reconnect_attempts < u32::MAX {
            self.reconnect_attempts = self.reconnect_attempts + 1;
        }
        let delay_ms = delay_s * 1000;
        let at = if now_ms > u64::MAX - delay_ms {
            u64::MAX
        } else {
            now_ms + delay_ms
        };
        self.reconnect_at = Some(at);
    }

    /// Whether a scheduled reconnection attempt is due.
    pub fn reconnect_due(&self, now_ms: u64) -> (r: bool)
        ensures
            r == (self.reconnect_at matches Some(t) && now_ms >= t),
    {
        match self.reconnect_at {
            Some(t) => now_ms >= t,
            None => false,
        }
    }

    /// Installs a fresh transport after a successful reconnection attempt:
    /// every outstanding call of the dead connection is abandoned, the
    /// attempt counter resets, and the session bootstraps again — the chat
    /// list is re-requested and, when a watch was active before the drop, a
    /// fresh subscribe call for the same conversation is dispatched.
    pub fn reconnect_succeeded(&mut self) -> (eff: Effects)
        requires
            old(self).wf(),
            old(self).ids.counter < u64::MAX - 1,
        ensures
            final(self).wf(),
            final(self).connected,
            final(self).reconnect_at is None,
            final(self).reconnect_attempts == 0,
            final(self).watch_subscription is None,
            final(self).watch_chat_id == old(self).watch_chat_id,
            final(self).ids.counter >= old(self).ids.counter + 1,
            eff.alert is None,
            eff.save is None,
            eff.fetches@.len() == 0,
            // No identifier dispatched before the reconnection is pending any
            // more: only the fresh bootstrap calls are.
            forall|k: Seq<char>|
                final(self).pending.spec_get(k) is Some ==> (k == dec_digits(
                    old(self).ids.counter as nat,
                ) || k == dec_digits((old(self).ids.counter + 1) as nat)),
            final(self).pending.spec_get(dec_digits(old(self).ids.counter as nat)) == Some(
                PendingRequest::Chats,
            ),
            eff.outbound@.len() == if old(self).watch_chat_id is Some {
                2
            } else {
                1int
            },
            eff.outbound@[0]@ == spec_request_line(
                dec_digits(old(self).ids.counter as nat),
                "chats.list"@,
                Some(spec_params_json(RequestParams::ChatsList { limit: 50 })),
            ),
            old(self).watch_chat_id matches Some(cid) ==> {
                &&& final(self).pending.spec_get(dec_digits((old(self).ids.counter + 1) as nat))
                    == Some(PendingRequest::WatchSubscribe)
                &&& eff.outbound@[1]@ == spec_request_line(
                    dec_digits((old(self).ids.counter + 1) as nat),
                    "watch.subscribe"@,
                    Some(spec_params_json(RequestParams::WatchSubscribe { chat_id: cid })),
                )
                &&& final(self).status@ == "subscribing..."@
            },
            old(self).watch_chat_id is None ==> final(self).status@ == "loading chats..."@,
    {
        self.connected = true;
        self.reconnect_at = None;
        self.reconnect_attempts = 0;
        self.watch_subscription = None;
        self.pending.clear();
        self.status = String::from_str("reconnected");
        let mut eff = Effects::none();
        let ghost cleared = *self;
        match self.request_chats() {
            Some(line) => eff.outbound.push(line),
            None => {},
        }
        let ghost after_chats = *self;
        match self.watch_chat_id {
            Some(chat_id) => {
                match self.request_watch_subscribe(chat_id) {
                    Some(line) => eff.outbound.push(line),
                    None => {},
                }
                proof {
                    assert(dec_digits(cleared.ids.counter as nat) != dec_digits(
                        (cleared.ids.counter + 1) as nat,
                    )) by {
                        if dec_digits(cleared.ids.counter as nat) == dec_digits(
                            (cleared.ids.counter + 1) as nat,
                        ) {
                            lemma_dec_digits_injective(
                                cleared.ids.counter as nat,
                                (cleared.ids.counter + 1) as nat,
                            );
                        }
                    }
                    assert forall|k: Seq<char>| self.pending.spec_get(k) is Some implies (k
                        == dec_digits(old(self).ids.counter as nat) || k == dec_digits(
                        (old(self).ids.counter + 1) as nat,
                    )) by {
                        if k != dec_digits(after_chats.ids.counter as nat) {
                            assert(self.pending.spec_get(k) == after_chats.pending.spec_get(k));
                            if k != dec_digits(cleared.ids.counter as nat) {
                                assert(after_chats.pending.spec_get(k) == cleared.pending.spec_get(
                                    k,
                                ));
                            }
                        }
                    }
                }
            },
            None => {
                proof {
                    assert forall|k: Seq<char>| self.pending.spec_get(k) is Some implies k
                        == dec_digits(old(self).ids.counter as nat) by {
                        if k != dec_digits(cleared.ids.counter as nat) {
                            assert(self.pending.spec_get(k) == cleared.pending.spec_get(k));
                        }
                    }
                }
            },
        }
        eff
    }

    /// Reports a failed reconnection attempt and schedules the next one with
    /// the next backoff delay; reconnection retries forever.
    pub fn reconnect_failed(&mut self, err: &str, now_ms: u64)
        requires
            old(self).wf(),
        ensures
            final(self).wf(),
            final(self).status@ == "reconnect failed: "@ + err@,
            final(self).reconnect_at == Some(
                spec_sat_add(
                    now_ms,
                    (spec_reconnect_delay(old(self).reconnect_attempts as nat) * 1000) as u64,
                ),
            ),
            final(self).reconnect_attempts == if old(self).reconnect_attempts < u32::MAX {
                old(self).reconnect_attempts + 1
            } else {
                old(self).reconnect_attempts as int
            },
            final(self).connected == old(self).connected,
            final(self).pending == old(self).pending,
            final(self).ids == old(self).ids,
            final(self).watch_chat_id == old(self).watch_chat_id,
            final(self).watch_subscription == old(self).watch_subscription,
    {
        self.status = String::from_str("reconnect failed: ").concat(err);
        self.reconnect_at = None;
        self.schedule_reconnect(now_ms);
    }

    /// Moves a recipient handle to the front of the recent-recipient
    /// history, dropping any older copy; blank handles are ignored.
    pub fn record_recipient(&mut self, handle: &str)
        requires
            old(self).wf(),
        ensures
            final(self).wf(),
            recorded(old(self).recipient_history@, final(self).recipient_history@, handle@),
            spec_trim(handle@).len() > 0 ==> final(self).history_index is None,
            spec_trim(handle@).len() == 0 ==> *final(self) == *old(self),
            final(self).pending == old(self).pending,
            final(self).ids == old(self).ids,
            final(self).status == old(self).status,
            final(self).compose_to == old(self).compose_to,
            final(self).compose_body == old(self).compose_body,
            final(self).contacts == old(self).contacts,
            final(self).contact_query == old(self).contact_query,
            final(self).contact_suggestions == old(self).contact_suggestions,
            final(self).messages == old(self).messages,
            final(self).chats == old(self).chats,
            final(self).connected == old(self).connected,
            final(self).watch_subscription == old(self).watch_subscription,
            final(self).watch_chat_id == old(self).watch_chat_id,
            final(self).selected == old(self).selected,
    {
        let hc = chars_of(handle);
        let t = trim_chars(&hc);
        if t.len() == 0 {
            return ;
        }
        let trimmed = string_from_chars(&t);
        let mut nh: Vec<String> = Vec::new();
        nh.push(trimmed.clone());
        let mut i: usize = 0;
        while i < self.recipient_history.len()
            invariant
                i <= self.recipient_history@.len(),
                self == old(self),
                trimmed@ == spec_trim(handle@),
                nh@.len() >= 1,
                nh@[0] == trimmed,
                nh@.skip(1) == remove_handle(
                    self.recipient_history@.take(i as int),
                    spec_trim(handle@),
                ),
            decreases self.recipient_history@.len() - i,
        {
            proof {
                let h = self.recipient_history@;
                assert(h.take(i as int + 1).last() == h[i as int]);
                assert(h.take(i as int + 1).drop_last() =~= h.take(i as int));
            }
            let item = &self.recipient_history[i];
            if !str_eq(item.as_str(), trimmed.as_str()) {
                nh.push(item.clone());
                proof {
                    assert(nh@.skip(1) =~= nh@.drop_last().skip(1).push(nh@.last()));
                }
            }
            i = i + 1;
        }
        proof {
            assert(self.recipient_history@.take(self.recipient_history@.len() as int)
                =~= self.recipient_history@);
        }
        self.recipient_history = nh;
        self.history_index = None;
        proof {
            assert(final(self).recipient_history@.skip(1).len() == remove_handle(
                old(self).recipient_history@,
                spec_trim(handle@),
            ).len());
        }
    }

    /// Steps the compose recipient through the recent-recipient history.
    pub fn cycle_recipient_history(&mut self)
        requires
            old(self).wf(),
        ensures
            final(self).wf(),
            old(self).recipient_history@.len() == 0 ==> *final(self) == *old(self),
            old(self).recipient_history@.len() > 0 ==> {
                let next = next_cycle(
                    old(self).history_index,
                    old(self).recipient_history@.len() as int,
                );
                &&& final(self).history_index matches Some(n) && n as int == next
                &&& final(self).compose_to == old(self).recipient_history@[next]
                &&& final(self).recipient_history == old(self).recipient_history
                &&& final(self).pending == old(self).pending
                &&& final(self).ids == old(self).ids
                &&& final(self).status == old(self).status
                &&& final(self).compose_body == old(self).compose_body
            },
    {
        let len = self.recipient_history.len();
        if len == 0 {
            return ;
        }
        let next: usize = match self.history_index {
            Some(i) => if i == usize::MAX {
                0
            } else {
                (i + 1) % len
            },
            None => 0,
        };
        self.history_index = Some(next);
        self.compose_to = self.recipient_history[next].clone();
    }

    /// Refreshes the compose suggestions while the recipient field is being
    /// typed: a short or already-deliverable entry clears them; otherwise a
    /// contact search for the entry is dispatched and remembered.
    pub fn refresh_contact_suggestions(&mut self) -> (r: Option<String>)
        requires
            old(self).wf(),
            old(self).ids.counter < u64::MAX,
        ensures
            final(self).wf(),
            ({
                let q = spec_trim(old(self).compose_to@);
                if q.len() < 2 || spec_looks_like_handle(old(self).compose_to@) {
                    &&& r is None
                    &&& final(self).contact_suggestions@.len() == 0
                    &&& final(self).pending == old(self).pending
                    &&& final(self).ids == old(self).ids
                    &&& final(self).status == old(self).status
                    &&& final(self).contact_query == old(self).contact_query
                } else if old(self).connected {
                    &&& final(self).contact_query matches Some(cq) && cq@ == q
                    &&& r matches Some(line) && line@ == spec_request_line(
                        dec_digits(old(self).ids.counter as nat),
                        "contacts.search"@,
                        Some(
                            "{\"query\":"@ + json_str(q) + ",\"limit\":"@ + dec_digits(10)
                                + "}"@,
                        ),
                    )
                    &&& registered(*old(self), *final(self), PendingRequest::ContactSearch)
                    &&& final(self).status == old(self).status
                } else {
                    &&& r is None
                    &&& final(self).contact_query matches Some(cq) && cq@ == q
                    &&& final(self).pending == old(self).pending
                    &&& final(self).ids == old(self).ids
                    &&& final(self).status == old(self).status
                }
            }),
            final(self).compose_to == old(self).compose_to,
            final(self).compose_body == old(self).compose_body,
            final(self).messages == old(self).messages,
            final(self).chats == old(self).chats,
            final(self).contacts == old(self).contacts,
            final(self).connected == old(self).connected,
    {
        let qc = chars_of(self.compose_to.as_str());
        let qt = trim_chars(&qc);
        let query = string_from_chars(&qt);
        if query.as_str().unicode_len() < 2 || looks_like_handle(self.compose_to.as_str()) {
            self.contact_suggestions = Vec::new();
            return None;
        }
        self.contact_query = Some(query.clone());
        self.request_contact_search(query.as_str())
    }

    /// Sends the composed message: to the selected conversation when the
    /// recipient field is blank, directly when the field already holds a
    /// deliverable handle, to the first suggestion when one is listed, and
    /// otherwise dispatches a contact search for the field.  Returns whether
    /// the message was sent and the wire line to enqueue, if any.
    pub fn send_compose(&mut self) -> (r: (bool, Option<String>))
        requires
            old(self).wf(),
            old(self).ids.counter < u64::MAX,
        ensures
            final(self).wf(),
            !old(self).connected ==> *final(self) == *old(self) && !r.0 && r.1 is None,
            old(self).connected ==> ({
                let text = spec_trim(old(self).compose_body@);
                let target = spec_trim(old(self).compose_to@);
                if text.len() == 0 {
                    &&& !r.0
                    &&& r.1 is None
                    &&& final(self).status@ == "message text required"@
                    &&& final(self).pending == old(self).pending
                    &&& final(self).ids == old(self).ids
                    &&& final(self).compose_body == old(self).compose_body
                } else if target.len() == 0 {
                    if old(self).selected < old(self).chats@.len() {
                        let chat = old(self).chats@[old(self).selected as int];
                        &&& r.0
                        &&& r.1 matches Some(line) && line@ == spec_request_line(
                            dec_digits(old(self).ids.counter as nat),
                            "send"@,
                            Some(
                                "{\"chat_id\":"@ + dec_i64(chat.id as int) + ",\"text\":"@
                                    + json_str(text) + "}"@,
                            ),
                        )
                        &&& registered(*old(self), *final(self), PendingRequest::Send)
                        &&& final(self).status@ == "sent"@
                        &&& final(self).compose_body@ == Seq::<char>::empty()
                        &&& recorded(
                            old(self).recipient_history@,
                            final(self).recipient_history@,
                            chat.identifier@,
                        )
                    } else {
                        &&& !r.0
                        &&& r.1 is None
                        &&& final(self).status@ == "no chat selected"@
                        &&& final(self).pending == old(self).pending
                        &&& final(self).ids == old(self).ids
                    }
                } else if spec_looks_like_handle(old(self).compose_to@) {
                    &&& r.0
                    &&& r.1 matches Some(line) && line@ == spec_request_line(
                        dec_digits(old(self).ids.counter as nat),
                        "send"@,
                        Some(
                            "{\"to\":"@ + json_str(target) + ",\"text\":"@ + json_str(text)
                                + "}"@,
                        ),
                    )
                    &&& registered(*old(self), *final(self), PendingRequest::Send)
                    &&& final(self).status@ == "sent"@
                    &&& final(self).compose_body@ == Seq::<char>::empty()
                    &&& recorded(
                        old(self).recipient_history@,
                        final(self).recipient_history@,
                        target,
                    )
                } else if old(self).contact_suggestions@.len() > 0 {
                    let handle = old(self).contact_suggestions@[0].1;
                    &&& r.0
                    &&& r.1 matches Some(line) && line@ == spec_request_line(
                        dec_digits(old(self).ids.counter as nat),
                        "send"@,
                        Some(
                            "{\"to\":"@ + json_str(handle@) + ",\"text\":"@ + json_str(text)
                                + "}"@,
                        ),
                    )
                    &&& registered(*old(self), *final(self), PendingRequest::Send)
                    &&& final(self).status@ == "sent"@
                    &&& final(self).compose_to == handle
                    &&& final(self).compose_body@ == Seq::<char>::empty()
                    &&& recorded(
                        old(self).recipient_history@,
                        final(self).recipient_history@,
                        handle@,
                    )
                } else {
                    &&& !r.0
                    &&& r.1 matches Some(line) && line@ == spec_request_line(
                        dec_digits(old(self).ids.counter as nat),
                        "contacts.search"@,
                        Some(
                            "{\"query\":"@ + json_str(target) + ",\"limit\":"@ + dec_digits(10)
                                + "}"@,
                        ),
                    )
                    &&& registered(*old(self), *final(self), PendingRequest::ContactSearch)
                    &&& final(self).contact_query matches Some(cq) && cq@ == target
                    &&& final(self).status@ == "searching contacts..."@
                    &&& final(self).compose_body == old(self).compose_body
                }
            }),
    {
        if !self.connected {
            return (false, None);
        }
        let bc = chars_of(self.compose_body.as_str());
        let bt = trim_chars(&bc);
        if bt.len() == 0 {
            self.status = String::from_str("message text required");
            return (false, None);
        }
        let text = string_from_chars(&bt);
        let tc = chars_of(self.compose_to.as_str());
        let tt = trim_chars(&tc);
        if tt.len() == 0 {
            if self.selected < self.chats.len() {
                let chat_id = self.chats[self.selected].id;
                let identifier = self.chats[self.selected].identifier.clone();
                let line = match self.request_send_chat(chat_id, text.as_str()) {
                    Some(line) => line,
                    None => {
                        return (false, None);
                    },
                };
                self.record_recipient(identifier.as_str());
                self.compose_body = String::new();
                self.status = String::from_str("sent");
                return (true, Some(line));
            }
            self.status = String::from_str("no chat selected");
            return (false, None);
        }
        let target = string_from_chars(&tt);
        if looks_like_handle(self.compose_to.as_str()) {
            let line = match self.request_send_to(target.as_str(), text.as_str()) {
                Some(line) => line,
                None => {
                    return (false, None);
                },
            };
            self.record_recipient(target.as_str());
            self.compose_body = String::new();
            self.status = String::from_str("sent");
            return (true, Some(line));
        }
        if self.contact_suggestions.len() > 0 {
            let handle = self.contact_suggestions[0].1.clone();
            let line = match self.request_send_to(handle.as_str(), text.as_str()) {
                Some(line) => line,
                None => {
                    return (false, None);
                },
            };
            self.compose_to = handle.clone();
            self.record_recipient(handle.as_str());
            self.compose_body = String::new();
            self.status = String::from_str("sent");
            return (true, Some(line));
        }
        let line = match self.request_contact_search(target.as_str()) {
            Some(line) => line,
            None => {
                return (false, None);
            },
        };
        self.contact_query = Some(target);
        self.status = String::from_str("searching contacts...");
        (false, Some(line))
    }

    /// Routes an inbound message notification: the message is appended to
    /// the visible history only when it belongs to the conversation
    /// currently selected; an unknown sender triggers name resolution either
    /// way; an inbound message from someone else raises an alert when alerts
    /// are on; and the message's attachments are handed back for fetching.
    pub fn apply_message_notification(&mut self, msg: Message) -> (eff: Effects)
        requires
            old(self).wf(),
            old(self).ids.counter < u64::MAX,
        ensures
            final(self).wf(),
            ({
                let append = old(self).selected < old(self).chats@.len() && old(self).chats@[old(
                    self,
                ).selected as int].id == msg.chat_id;
                final(self).messages@ == if append {
                    old(self).messages@.push(msg)
                } else {
                    old(self).messages@
                }
            }),
            final(self).status@ == "new message"@,
            final(self).chats == old(self).chats,
            final(self).selected == old(self).selected,
            final(self).contacts == old(self).contacts,
            final(self).watch_subscription == old(self).watch_subscription,
            final(self).watch_chat_id == old(self).watch_chat_id,
            final(self).connected == old(self).connected,
            final(self).reconnect_at == old(self).reconnect_at,
            eff.save is None,
            eff.fetches@ == msg.attachments@,
            ({
                if old(self).connected && old(self).contacts.spec_get(msg.sender@) is None {
                    &&& eff.outbound@.len() == 1
                    &&& eff.outbound@[0]@ == spec_request_line(
                        dec_digits(old(self).ids.counter as nat),
                        "contacts.resolve"@,
                        Some(
                            "{\"handles\":"@ + crate::wire::json_str_array(seq![msg.sender@])
                                + "}"@,
                        ),
                    )
                    &&& registered(*old(self), *final(self), PendingRequest::ResolveContacts)
                } else {
                    &&& eff.outbound@.len() == 0
                    &&& final(self).pending == old(self).pending
                    &&& final(self).ids == old(self).ids
                }
            }),
            ({
                if old(self).notify && !msg.is_from_me {
                    eff.alert matches Some(a) && a.body == msg.text && (match old(
                        self,
                    ).contacts.spec_get(msg.sender@) {
                        Some(n) => a.summary@ == n@,
                        None => a.summary@ == msg.sender@,
                    })
                } else {
                    eff.alert is None
                }
            }),
    {
        let mut eff = Effects::none();
        eff.fetches = clone_attachments(&msg.attachments);
        if self.notify && !msg.is_from_me {
            let summary = sender_display(&self.contacts, msg.sender.as_str());
            eff.alert = Some(Alert { summary, body: msg.text.clone() });
        }
        let resolve = !self.contacts.contains(msg.sender.as_str());
        let sender = msg.sender.clone();
        let append = self.selected < self.chats.len() && self.chats[self.selected].id
            == msg.chat_id;
        if append {
            self.messages.push(msg);
        }
        if resolve {
            let mut handles: Vec<String> = Vec::new();
            handles.push(sender);
            proof {
                assert(handles.deep_view() =~= seq![msg.sender@]);
            }
            match self.request_contact_resolve(handles) {
                Some(line) => eff.outbound.push(line),
                None => {},
            }
        }
        self.status = String::from_str("new message");
        eff
    }

    /// Records the suggestions of a contact-search reply.  A single match
    /// fills the recipient field, and when a send was waiting on the search
    /// (a composed body and a remembered query), it goes out to that match
    /// at once; no match asks the operator for a handle instead.
    pub fn apply_contact_search(&mut self, matches: Vec<SearchMatch>) -> (eff: Effects)
        requires
            old(self).wf(),
            old(self).ids.counter < u64::MAX,
        ensures
            final(self).wf(),
            final(self).contact_query is None,
            eff.alert is None,
            eff.save is None,
            eff.fetches@.len() == 0,
            final(self).messages == old(self).messages,
            final(self).chats == old(self).chats,
            final(self).contacts == old(self).contacts,
            final(self).connected == old(self).connected,
            final(self).watch_subscription == old(self).watch_subscription,
            ({
                let es = search_entries(matches@);
                &&& final(self).contact_suggestions@.len() == es.len()
                &&& (forall|i: int|
                    0 <= i < es.len() ==> (#[trigger] final(self).contact_suggestions@[i]).1
                        == es[i].1 && final(self).contact_suggestions@[i].0@ == spec_label(
                        es[i].0@,
                        es[i].1@,
                    ))
                &&& (es.len() == 1 ==> {
                    let body = spec_trim(old(self).compose_body@);
                    &&& final(self).compose_to == es[0].1
                    &&& ((body.len() > 0 && old(self).contact_query is Some && old(
                        self,
                    ).connected) ==> {
                        &&& eff.outbound@.len() == 1
                        &&& eff.outbound@[0]@ == spec_request_line(
                            dec_digits(old(self).ids.counter as nat),
                            "send"@,
                            Some(
                                "{\"to\":"@ + json_str(es[0].1@) + ",\"text\":"@ + json_str(
                                    body,
                                ) + "}"@,
                            ),
                        )
                        &&& registered(*old(self), *final(self), PendingRequest::Send)
                        &&& final(self).status@ == "sent"@
                        &&& final(self).compose_body@ == Seq::<char>::empty()
                        &&& recorded(
                            old(self).recipient_history@,
                            final(self).recipient_history@,
                            es[0].1@,
                        )
                    })
                    &&& (!(body.len() > 0 && old(self).contact_query is Some && old(
                        self,
                    ).connected) ==> {
                        &&& final(self).status@ == "contact resolved"@
                        &&& eff.outbound@.len() == 0
                        &&& final(self).pending == old(self).pending
                        &&& final(self).ids == old(self).ids
                    })
                })
                &&& (es.len() == 0 ==> {
                    &&& final(self).status@ == "no contact matches; enter handle"@
                    &&& eff.outbound@.len() == 0
                    &&& final(self).pending == old(self).pending
                    &&& final(self).ids == old(self).ids
                })
                &&& (es.len() > 1 ==> {
                    &&& final(self).status == old(self).status
                    &&& eff.outbound@.len() == 0
                    &&& final(self).pending == old(self).pending
                    &&& final(self).ids == old(self).ids
                })
            }),
    {
        let entries = entries_of_matches(&matches);
        let suggestions = suggestions_of(&entries);
        self.contact_suggestions = suggestions;
        let mut eff = Effects::none();
        if entries.len() == 1 {
            let handle = entries[0].1.clone();
            self.compose_to = handle.clone();
            let bc = chars_of(self.compose_body.as_str());
            let bt = trim_chars(&bc);
            if bt.len() > 0 && self.contact_query.is_some() && self.connected {
                let text = string_from_chars(&bt);
                match self.request_send_to(handle.as_str(), text.as_str()) {
                    Some(line) => eff.outbound.push(line),
                    None => {},
                }
                self.record_recipient(handle.as_str());
                self.compose_body = String::new();
                self.status = String::from_str("sent");
            } else {
                self.status = String::from_str("contact resolved");
            }
        } else if entries.len() == 0 {
            self.status = String::from_str("no contact matches; enter handle");
        }
        self.contact_query = None;
        eff
    }

    /// Applies a call-specific backend error: a failed name resolution or
    /// contact search degrades that feature with a status message (a failed
    /// search also restores the remembered query to the recipient field);
    /// any other failure reports the error's code and message verbatim.
    pub fn apply_tied_error(&mut self, intent: PendingRequest, code: i64, message: Option<String>)
        requires
            old(self).wf(),
        ensures
            final(self).wf(),
            final(self).pending == old(self).pending,
            final(self).ids == old(self).ids,
            final(self).messages == old(self).messages,
            final(self).chats == old(self).chats,
            final(self).contacts == old(self).contacts,
            final(self).connected == old(self).connected,
            final(self).watch_subscription == old(self).watch_subscription,
            final(self).watch_chat_id == old(self).watch_chat_id,
            final(self).reconnect_at == old(self).reconnect_at,
            intent == PendingRequest::ResolveContacts ==> {
                &&& final(self).status@ == "contacts unavailable; names disabled"@
                &&& final(self).contact_suggestions == old(self).contact_suggestions
                &&& final(self).compose_to == old(self).compose_to
                &&& final(self).contact_query == old(self).contact_query
            },
            intent == PendingRequest::ContactSearch ==> {
                &&& final(self).status@ == "contact search unavailable; enter handle"@
                &&& final(self).contact_suggestions@.len() == 0
                &&& final(self).contact_query is None
                &&& (old(self).contact_query matches Some(q) ==> final(self).compose_to == q)
                &&& (old(self).contact_query is None ==> final(self).compose_to == old(
                    self,
                ).compose_to)
            },
            (intent != PendingRequest::ResolveContacts && intent != PendingRequest::ContactSearch)
                ==> {
                &&& ({
                    let m = match message {
                        Some(m) => m@,
                        None => "rpc error"@,
                    };
                    final(self).status@ == if code != 0 {
                        "rpc error ("@ + dec_i64(code as int) + "): "@ + m
                    } else {
                        "rpc error: "@ + m
                    }
                })
                &&& final(self).contact_suggestions == old(self).contact_suggestions
                &&& final(self).compose_to == old(self).compose_to
                &&& final(self).contact_query == old(self).contact_query
            },
    {
        match intent {
            PendingRequest::ResolveContacts => {
                self.status = String::from_str("contacts unavailable; names disabled");
            },
            PendingRequest::ContactSearch => {
                self.status = String::from_str("contact search unavailable; enter handle");
                self.contact_suggestions = Vec::new();
                match &self.contact_query {
                    Some(q) => {
                        self.compose_to = q.clone();
                    },
                    None => {},
                }
                self.contact_query = None;
            },
            _ => {
                let m = match message {
                    Some(m) => m,
                    None => String::from_str("rpc error"),
                };
                if code != 0 {
                    let mut t: Vec<char> = Vec::new();
                    crate::wire::append_lit(&mut t, "rpc error (");
                    crate::wire::append_dec_i64(&mut t, code);
                    crate::wire::append_lit(&mut t, "): ");
                    let mc = chars_of(m.as_str());
                    crate::wire::append_chars(&mut t, &mc);
                    self.status = string_from_chars(&t);
                } else {
                    self.status = String::from_str("rpc error: ").concat(m.as_str());
                }
            },
        }
    }

    /// Extracts the code and message of a tied backend error and applies it.
    pub fn handle_rpc_error(&mut self, intent: PendingRequest, error: &serde_json::Value)
        requires
            old(self).wf(),
        ensures
            final(self).wf(),
            final(self).pending == old(self).pending,
            final(self).ids == old(self).ids,
            final(self).messages == old(self).messages,
            final(self).chats == old(self).chats,
            final(self).contacts == old(self).contacts,
            final(self).connected == old(self).connected,
            final(self).watch_subscription == old(self).watch_subscription,
            final(self).reconnect_at == old(self).reconnect_at,
    {
        let code = match get_i64_field(error, "code") {
            Some(c) => c,
            None => 0,
        };
        let message = get_str_field(error, "message");
        self.apply_tied_error(intent, code, message);
    }

    /// Routes a reply to the handler of the intent its identifier was
    /// dispatched with.  The reply payload is an opaque JSON value; what
    /// each handler does with the plain fields read out of it is pinned by
    /// the `apply_*` operations above.
    pub fn handle_response(
        &mut self,
        intent: PendingRequest,
        result: &serde_json::Value,
        request_id: &str,
    ) -> (eff: Effects)
        requires
            old(self).wf(),
            old(self).ids.counter < u64::MAX,
        ensures
            final(self).wf(),
            intent == PendingRequest::Send ==> {
                &&& same_but_status(*old(self), *final(self))
                &&& final(self).status@ == "sent"@
                &&& eff.is_empty()
            },
            intent == PendingRequest::Reaction ==> {
                &&& same_but_status(*old(self), *final(self))
                &&& final(self).status@ == "reaction sent"@
                &&& eff.is_empty()
            },
            intent == PendingRequest::WatchUnsubscribe ==> {
                &&& final(self).watch_subscription is None
                &&& final(self).watch_chat_id is None
                &&& final(self).status@ == "watch unsubscribed"@
                &&& final(self).pending == old(self).pending
                &&& final(self).ids == old(self).ids
                &&& eff.is_empty()
            },
            intent == PendingRequest::Chats ==> {
                &&& final(self).status@ == "chats loaded"@
                &&& final(self).messages == old(self).messages
                &&& final(self).contacts == old(self).contacts
            },
            intent == PendingRequest::History ==> {
                &&& final(self).status@ == "history loaded"@
                &&& final(self).contact_suggestions@.len() == 0
                &&& final(self).chats == old(self).chats
                &&& final(self).contacts == old(self).contacts
            },
            intent == PendingRequest::ResolveContacts ==> {
                &&& final(self).status == old(self).status
                &&& final(self).messages == old(self).messages
                &&& final(self).chats == old(self).chats
                &&& final(self).pending == old(self).pending
                &&& final(self).ids == old(self).ids
                &&& eff.is_empty()
            },
            intent == PendingRequest::AttachmentFetch ==> {
                &&& final(self).status == old(self).status
                &&& final(self).pending == old(self).pending
                &&& final(self).ids == old(self).ids
                &&& final(self).pending_attachments.spec_get(request_id@) is None
                &&& eff.outbound@.len() == 0
                &&& eff.alert is None
            },
    {
        match intent {
            PendingRequest::Chats => {
                let chats = parse_chats_result(result);
                self.apply_chats(chats)
            },
            PendingRequest::History => {
                let messages = parse_messages_result(result);
                self.apply_history(messages)
            },
            PendingRequest::WatchSubscribe => {
                let token: Option<String> = match json_get(result, "subscription") {
                    Some(sub) => match json_as_str(sub) {
                        Some(s) => Some(s.to_owned()),
                        None => Some(json_render(sub)),
                    },
                    None => None,
                };
                self.apply_subscription(token);
                Effects::none()
            },
            PendingRequest::WatchUnsubscribe => {
                self.apply_unsubscribed();
                Effects::none()
            },
            PendingRequest::Send => {
                self.status = String::from_str("sent");
                Effects::none()
            },
            PendingRequest::ResolveContacts => {
                let entries = parse_contacts_result(result);
                self.apply_contacts(entries);
                Effects::none()
            },
            PendingRequest::ContactSearch => {
                let matches = parse_matches_result(result);
                self.apply_contact_search(matches)
            },
            PendingRequest::Reaction => {
                self.status = String::from_str("reaction sent");
                Effects::none()
            },
            PendingRequest::AttachmentFetch => {
                let data: Option<Vec<u8>> = match get_str_field(result, "data") {
                    Some(s) => b64_decode(s.as_str()),
                    None => None,
                };
                self.apply_attachment_data(request_id, data)
            },
        }
    }

    /// Consumes one classified inbound event.  A response or tied error
    /// whose identifier was never dispatched, or was already resolved, is
    /// discarded with no observable effect; an untied error only updates the
    /// status line; a closing event starts the reconnection state machine.
    pub fn handle_rpc_event(&mut self, event: RpcEvent, now_ms: u64) -> (eff: Effects)
        requires
            old(self).wf(),
            old(self).ids.counter < u64::MAX,
        ensures
            final(self).wf(),
            (event matches RpcEvent::Response { id, .. } && old(self).pending.spec_get(id@)
                is None) ==> (*final(self) == *old(self) && eff.is_empty()),
            (event matches RpcEvent::Error { id: Some(i2), .. } && old(self).pending.spec_get(
                i2@,
            ) is None) ==> (*final(self) == *old(self) && eff.is_empty()),
            (event matches RpcEvent::Error { id: None, .. }) ==> {
                &&& final(self).pending == old(self).pending
                &&& final(self).ids == old(self).ids
                &&& final(self).connected == old(self).connected
                &&& final(self).messages == old(self).messages
                &&& final(self).reconnect_at == old(self).reconnect_at
                &&& (exists|t: Seq<char>| final(self).status@ == "rpc error: "@ + t)
                &&& eff.is_empty()
            },
            (event matches RpcEvent::Notification { method, .. } && method@ != "message"@) ==> (
            *final(self) == *old(self) && eff.is_empty()),
            (event matches RpcEvent::Response { id, .. } && old(self).pending.spec_get(id@)
                == Some(PendingRequest::Send)) ==> final(self).status@ == "sent"@,
            (event matches RpcEvent::Response { id, .. } && old(self).pending.spec_get(id@)
                == Some(PendingRequest::Reaction)) ==> final(self).status@ == "reaction sent"@,
            (event matches RpcEvent::Response { id, .. } && old(self).pending.spec_get(id@)
                == Some(PendingRequest::Chats)) ==> final(self).status@ == "chats loaded"@,
            (event matches RpcEvent::Response { id, .. } && old(self).pending.spec_get(id@)
                == Some(PendingRequest::History)) ==> final(self).status@ == "history loaded"@,
            event matches RpcEvent::Closed { message } ==> {
                &&& final(self).status@ == "rpc closed: "@ + message@
                &&& !final(self).connected
                &&& final(self).pending == old(self).pending
                &&& final(self).ids == old(self).ids
                &&& final(self).messages == old(self).messages
                &&& final(self).watch_subscription == old(self).watch_subscription
                &&& final(self).watch_chat_id == old(self).watch_chat_id
                &&& (old(self).reconnect_at is None ==> final(self).reconnect_at == Some(
                    spec_sat_add(
                        now_ms,
                        (spec_reconnect_delay(old(self).reconnect_attempts as nat) * 1000) as u64,
                    ),
                ))
                &&& (old(self).reconnect_at is Some ==> final(self).reconnect_at == old(
                    self,
                ).reconnect_at && final(self).reconnect_attempts == old(self).reconnect_attempts)
                &&& eff.is_empty()
            },
    {
        match event {
            RpcEvent::Response { id, result } => {
                match self.pending.remove(id.as_str()) {
                    Some(intent) => self.handle_response(intent, &result, id.as_str()),
                    None => Effects::none(),
                }
            },
            RpcEvent::Error { id, error } => {
                match id {
                    Some(i2) => {
                        match self.pending.remove(i2.as_str()) {
                            Some(intent) => {
                                self.handle_rpc_error(intent, &error);
                                Effects::none()
                            },
                            None => Effects::none(),
                        }
                    },
                    None => {
                        let rendered = json_render(&error);
                        self.status = String::from_str("rpc error: ").concat(rendered.as_str());
                        Effects::none()
                    },
                }
            },
            RpcEvent::Notification { method, params } => {
                if str_eq(method.as_str(), "message") {
                    match parse_notification_message(&params) {
                        Some(msg) => self.apply_message_notification(msg),
                        None => Effects::none(),
                    }
                } else {
                    Effects::none()
                }
            },
            RpcEvent::Closed { message } => {
                self.status = String::from_str("rpc closed: ").concat(message.as_str());
                self.connected = false;
                self.schedule_reconnect(now_ms);
                Effects::none()
            },
        }
    }
}


/// One contact-search match: a display name and its handles.
#[derive(Debug)]
pub struct SearchMatch {
    pub name: String,
    pub handles: Vec<String>,
}

/// Everything but the status line is equal.
pub open spec fn same_but_status(a: Coordinator, b: Coordinator) -> bool {
    &&& same_but_dispatch(a, b)
    &&& b.ids == a.ids
    &&& b.pending == a.pending
}

/// The (name, handle) entries of a contact-search reply, flattened in order.
pub open spec fn search_entries(ms: Seq<SearchMatch>) -> Seq<(String, String)>
    decreases ms.len(),
{
    if ms.len() == 0 {
        Seq::empty()
    } else {
        search_entries(ms.drop_last()) + pair_seq(ms.last().name, ms.last().handles@)
    }
}

pub open spec fn pair_seq(name: String, hs: Seq<String>) -> Seq<(String, String)> {
    Seq::new(hs.len(), |i: int| (name, hs[i]))
}

/// The suggestion label for one search entry: the bare handle when the
/// contact has no name, else `name <handle>`.
pub open spec fn spec_label(name: Seq<char>, handle: Seq<char>) -> Seq<char> {
    if name.len() == 0 {
        handle
    } else {
        name + " <"@ + handle + ">"@
    }
}

/// The recipient history after recording `t`: the trimmed handle moves to
/// the front and any copy of it elsewhere is dropped; a blank handle changes
/// nothing.
pub open spec fn recorded(pre: Seq<String>, post: Seq<String>, t: Seq<char>) -> bool {
    if spec_trim(t).len() == 0 {
        post == pre
    } else {
        &&& post.len() == remove_handle(pre, spec_trim(t)).len() + 1
        &&& post[0]@ == spec_trim(t)
        &&& post.skip(1) == remove_handle(pre, spec_trim(t))
    }
}

/// The history without any entry equal to `t`.
pub open spec fn remove_handle(h: Seq<String>, t: Seq<char>) -> Seq<String>
    decreases h.len(),
{
    if h.len() == 0 {
        Seq::empty()
    } else {
        let rest = remove_handle(h.drop_last(), t);
        if h.last()@ == t {
            rest
        } else {
            rest.push(h.last())
        }
    }
}

/// Saturating addition on timestamps.
pub open spec fn spec_sat_add(a: u64, b: u64) -> u64 {
    if a + b > u64::MAX {
        u64::MAX
    } else {
        (a + b) as u64
    }
}

/// The senders of a message list, in order.
pub open spec fn senders(msgs: Seq<Message>) -> Seq<String> {
    Seq::new(msgs.len(), |i: int| msgs[i].sender)
}

/// A handle worth resolving: non-empty and not yet in the contact book.
pub open spec fn keep_handle(h: String, contacts: StrMap<String>) -> bool {
    h@.len() > 0 && contacts.spec_get(h@) is None
}

/// The handles of `hs` worth resolving, in order.
pub open spec fn filtered_handles(hs: Seq<String>, contacts: StrMap<String>) -> Seq<String>
    decreases hs.len(),
{
    if hs.len() == 0 {
        Seq::empty()
    } else {
        let rest = filtered_handles(hs.drop_last(), contacts);
        if keep_handle(hs.last(), contacts) {
            rest.push(hs.last())
        } else {
            rest
        }
    }
}

/// The handle of a conversation's identifier member, when it has one.
pub open spec fn ident_part(c: Chat) -> Seq<String> {
    if c.identifier@.len() > 0 {
        seq![c.identifier]
    } else {
        Seq::empty()
    }
}

/// The handle candidates of one conversation: its identifier, then its
/// participants.
pub open spec fn chat_candidates(c: Chat) -> Seq<String> {
    ident_part(c) + c.participants@
}

/// The handle candidates of a chat list, in order.
pub open spec fn all_candidates(chats: Seq<Chat>) -> Seq<String>
    decreases chats.len(),
{
    if chats.len() == 0 {
        Seq::empty()
    } else {
        all_candidates(chats.drop_last()) + chat_candidates(chats.last())
    }
}

/// All attachments of a message list, in order.
pub open spec fn all_attachments(msgs: Seq<Message>) -> Seq<Attachment>
    decreases msgs.len(),
{
    if msgs.len() == 0 {
        Seq::empty()
    } else {
        all_attachments(msgs.drop_last()) + msgs.last().attachments@
    }
}

/// The character views of a string list.
pub open spec fn views_of(ss: Seq<String>) -> Seq<Seq<char>> {
    Seq::new(ss.len(), |i: int| ss[i]@)
}

/// The name of the last reply entry carrying handle `k`.
pub open spec fn lookup_last(es: Seq<(String, String)>, k: Seq<char>) -> Option<String>
    decreases es.len(),
{
    if es.len() == 0 {
        None
    } else if es.last().0@ == k {
        Some(es.last().1)
    } else {
        lookup_last(es.drop_last(), k)
    }
}

/// Whether a fetch for cache key `key` is already in flight.
pub open spec fn fetch_in_flight(pa: StrMap<AttachmentFetch>, key: Seq<char>) -> bool {
    exists|j: int| 0 <= j < pa@.len() && pa@[j].1.key@ == key
}

fn senders_of(msgs: &Vec<Message>) -> (r: Vec<String>)
    ensures
        r@ == senders(msgs@),
{
    let mut r: Vec<String> = Vec::new();
    let mut i: usize = 0;
    while i < msgs.len()
        invariant
            i <= msgs@.len(),
            r@ =~= senders(msgs@).take(i as int),
        decreases msgs@.len() - i,
    {
        r.push(msgs[i].sender.clone());
        proof {
            assert(r@ =~= senders(msgs@).take(i as int + 1));
        }
        i = i + 1;
    }
    proof {
        assert(senders(msgs@).take(msgs@.len() as int) =~= senders(msgs@));
    }
    r
}

fn collect_attachments(msgs: &Vec<Message>) -> (r: Vec<Attachment>)
    ensures
        r@ == all_attachments(msgs@),
{
    let mut r: Vec<Attachment> = Vec::new();
    let mut i: usize = 0;
    while i < msgs.len()
        invariant
            i <= msgs@.len(),
            r@ == all_attachments(msgs@.take(i as int)),
        decreases msgs@.len() - i,
    {
        let mut j: usize = 0;
        while j < msgs[i].attachments.len()
            invariant
                i < msgs@.len(),
                j <= msgs@[i as int].attachments@.len(),
                r@ == all_attachments(msgs@.take(i as int)) + msgs@[i as int].attachments@.take(
                    j as int,
                ),
            decreases msgs@[i as int].attachments@.len() - j,
        {
            r.push(msgs[i].attachments[j].clone());
            proof {
                let a = msgs@[i as int].attachments@;
                assert(a.take(j as int + 1) =~= a.take(j as int).push(a[j as int]));
                assert(all_attachments(msgs@.take(i as int)) + a.take(j as int + 1)
                    =~= (all_attachments(msgs@.take(i as int)) + a.take(j as int)).push(
                    a[j as int],
                ));
            }
            j = j + 1;
        }
        proof {
            let t = msgs@.take(i as int + 1);
            assert(t.last() == msgs@[i as int]);
            assert(t.drop_last() =~= msgs@.take(i as int));
            let a = msgs@[i as int].attachments@;
            assert(a.take(a.len() as int) =~= a);
            assert(r@ =~= all_attachments(msgs@.take(i as int + 1)));
        }
        i = i + 1;
    }
    proof {
        assert(msgs@.take(msgs@.len() as int) =~= msgs@);
        assert(r@ + Seq::<Attachment>::empty() =~= r@);
    }
    r
}

/// The next index when cycling the recipient history.
pub open spec fn next_cycle(idx: Option<usize>, len: int) -> int {
    match idx {
        Some(i) => if i == usize::MAX {
            0
        } else {
            (i + 1) as int % len
        },
        None => 0,
    }
}

fn clone_attachments(v: &Vec<Attachment>) -> (r: Vec<Attachment>)
    ensures
        r@ == v@,
{
    let mut r: Vec<Attachment> = Vec::new();
    let mut i: usize = 0;
    while i < v.len()
        invariant
            i <= v@.len(),
            r@ == v@.take(i as int),
        decreases v@.len() - i,
    {
        r.push(v[i].clone());
        proof {
            assert(v@.take(i as int + 1) =~= v@.take(i as int).push(v@[i as int]));
        }
        i = i + 1;
    }
    proof {
        assert(v@.take(v@.len() as int) =~= v@);
    }
    r
}

fn label_of(name: &String, handle: &String) -> (r: String)
    ensures
        r@ == spec_label(name@, handle@),
{
    if name.as_str().is_empty() {
        handle.clone()
    } else {
        let mut out: Vec<char> = chars_of(name.as_str());
        crate::wire::append_lit(&mut out, " <");
        let hc = chars_of(handle.as_str());
        crate::wire::append_chars(&mut out, &hc);
        crate::wire::append_lit(&mut out, ">");
        proof {
            assert(out@ =~= spec_label(name@, handle@));
        }
        string_from_chars(&out)
    }
}

fn entries_of_matches(ms: &Vec<SearchMatch>) -> (r: Vec<(String, String)>)
    ensures
        r@ == search_entries(ms@),
{
    let mut r: Vec<(String, String)> = Vec::new();
    let mut i: usize = 0;
    while i < ms.len()
        invariant
            i <= ms@.len(),
            r@ == search_entries(ms@.take(i as int)),
        decreases ms@.len() - i,
    {
        let mut j: usize = 0;
        while j < ms[i].handles.len()
            invariant
                i < ms@.len(),
                j <= ms@[i as int].handles@.len(),
                r@ == search_entries(ms@.take(i as int)) + pair_seq(
                    ms@[i as int].name,
                    ms@[i as int].handles@.take(j as int),
                ),
            decreases ms@[i as int].handles@.len() - j,
        {
            r.push((ms[i].name.clone(), ms[i].handles[j].clone()));
            proof {
                let hs = ms@[i as int].handles@;
                let name = ms@[i as int].name;
                assert(pair_seq(name, hs.take(j as int + 1)) =~= pair_seq(
                    name,
                    hs.take(j as int),
                ).push((name, hs[j as int])));
                assert(search_entries(ms@.take(i as int)) + pair_seq(name, hs.take(j as int + 1))
                    =~= (search_entries(ms@.take(i as int)) + pair_seq(
                    name,
                    hs.take(j as int),
                )).push((name, hs[j as int])));
            }
            j = j + 1;
        }
        proof {
            let t = ms@.take(i as int + 1);
            assert(t.last() == ms@[i as int]);
            assert(t.drop_last() =~= ms@.take(i as int));
            let hs = ms@[i as int].handles@;
            assert(hs.take(hs.len() as int) =~= hs);
            assert(r@ =~= search_entries(ms@.take(i as int + 1)));
        }
        i = i + 1;
    }
    proof {
        assert(ms@.take(ms@.len() as int) =~= ms@);
        assert(r@ + Seq::<(String, String)>::empty() =~= r@);
    }
    r
}

fn suggestions_of(entries: &Vec<(String, String)>) -> (r: Vec<(String, String)>)
    ensures
        r@.len() == entries@.len(),
        forall|i: int|
            0 <= i < entries@.len() ==> (#[trigger] r@[i]).1 == entries@[i].1 && r@[i].0@
                == spec_label(entries@[i].0@, entries@[i].1@),
{
    let mut r: Vec<(String, String)> = Vec::new();
    let mut i: usize = 0;
    while i < entries.len()
        invariant
            i <= entries@.len(),
            r@.len() == i,
            forall|j: int|
                0 <= j < i ==> (#[trigger] r@[j]).1 == entries@[j].1 && r@[j].0@ == spec_label(
                    entries@[j].0@,
                    entries@[j].1@,
                ),
        decreases entries@.len() - i,
    {
        let label = label_of(&entries[i].0, &entries[i].1);
        r.push((label, entries[i].1.clone()));
        i = i + 1;
    }
    r
}

fn parse_chats_result(result: &serde_json::Value) -> Vec<Chat> {
    let mut chats: Vec<Chat> = Vec::new();
    match json_get(result, "chats") {
        Some(list) => match json_as_array(list) {
            Some(items) => {
                let mut i: usize = 0;
                while i < items.len()
                    decreases items.len() - i,
                {
                    match parse_chat(&items[i]) {
                        Some(c) => chats.push(c),
                        None => {},
                    }
                    i = i + 1;
                }
            },
            None => {},
        },
        None => {},
    }
    chats
}

fn parse_messages_result(result: &serde_json::Value) -> Vec<Message> {
    let mut messages: Vec<Message> = Vec::new();
    match json_get(result, "messages") {
        Some(list) => match json_as_array(list) {
            Some(items) => {
                let mut i: usize = 0;
                while i < items.len()
                    decreases items.len() - i,
                {
                    match parse_message(&items[i]) {
                        Some(m) => messages.push(m),
                        None => {},
                    }
                    i = i + 1;
                }
            },
            None => {},
        },
        None => {},
    }
    messages
}

fn parse_contacts_result(result: &serde_json::Value) -> Vec<(String, String)> {
    let mut entries: Vec<(String, String)> = Vec::new();
    match json_get(result, "contacts") {
        Some(list) => match json_as_array(list) {
            Some(items) => {
                let mut i: usize = 0;
                while i < items.len()
                    decreases items.len() - i,
                {
                    let entry = &items[i];
                    match (get_str_field(entry, "handle"), get_str_field(entry, "name")) {
                        (Some(handle), Some(name)) => entries.push((handle, name)),
                        _ => {},
                    }
                    i = i + 1;
                }
            },
            None => {},
        },
        None => {},
    }
    entries
}

fn parse_matches_result(result: &serde_json::Value) -> Vec<SearchMatch> {
    let mut matches: Vec<SearchMatch> = Vec::new();
    match json_get(result, "matches") {
        Some(list) => match json_as_array(list) {
            Some(items) => {
                let mut i: usize = 0;
                while i < items.len()
                    decreases items.len() - i,
                {
                    let entry = &items[i];
                    let name = match get_str_field(entry, "name") {
                        Some(n) => n,
                        None => String::new(),
                    };
                    let mut handles: Vec<String> = Vec::new();
                    match json_get(entry, "handles") {
                        Some(hl) => match json_as_array(hl) {
                            Some(hitems) => {
                                let mut j: usize = 0;
                                while j < hitems.len()
                                    decreases hitems.len() - j,
                                {
                                    match json_as_str(&hitems[j]) {
                                        Some(h) => handles.push(h.to_owned()),
                                        None => {},
                                    }
                                    j = j + 1;
                                }
                            },
                            None => {},
                        },
                        None => {},
                    }
                    matches.push(SearchMatch { name, handles });
                    i = i + 1;
                }
            },
            None => {},
        },
        None => {},
    }
    matches
}

fn collect_candidates(chats: &Vec<Chat>) -> (r: Vec<String>)
    ensures
        r@ == all_candidates(chats@),
{
    let mut r: Vec<String> = Vec::new();
    let mut i: usize = 0;
    while i < chats.len()
        invariant
            i <= chats@.len(),
            r@ == all_candidates(chats@.take(i as int)),
        decreases chats@.len() - i,
    {
        let ghost base = r@;
        if !chats[i].identifier.as_str().is_empty() {
            r.push(chats[i].identifier.clone());
        }
        proof {
            assert(r@ =~= base + ident_part(chats@[i as int]));
        }
        let mut j: usize = 0;
        while j < chats[i].participants.len()
            invariant
                i < chats@.len(),
                j <= chats@[i as int].participants@.len(),
                r@ == base + ident_part(chats@[i as int]) + chats@[i as int].participants@.take(
                    j as int,
                ),
            decreases chats@[i as int].participants@.len() - j,
        {
            r.push(chats[i].participants[j].clone());
            proof {
                let ps = chats@[i as int].participants@;
                assert(ps.take(j as int + 1) =~= ps.take(j as int).push(ps[j as int]));
                assert(base + ident_part(chats@[i as int]) + ps.take(j as int + 1) =~= (base
                    + ident_part(chats@[i as int]) + ps.take(j as int)).push(ps[j as int]));
            }
            j = j + 1;
        }
        proof {
            let t = chats@.take(i as int + 1);
            assert(t.last() == chats@[i as int]);
            assert(t.drop_last() =~= chats@.take(i as int));
            let ps = chats@[i as int].participants@;
            assert(ps.take(ps.len() as int) =~= ps);
            assert(r@ =~= all_candidates(chats@.take(i as int + 1)));
        }
        i = i + 1;
    }
    proof {
        assert(chats@.take(chats@.len() as int) =~= chats@);
        assert(r@ + Seq::<String>::empty() =~= r@);
    }
    r
}

fn filter_unseen(hs: &Vec<String>, contacts: &StrMap<String>) -> (r: Vec<String>)
    ensures
        r@ == filtered_handles(hs@, *contacts),
{
    let mut r: Vec<String> = Vec::new();
    let mut i: usize = 0;
    while i < hs.len()
        invariant
            i <= hs@.len(),
            r@ == filtered_handles(hs@.take(i as int), *contacts),
        decreases hs@.len() - i,
    {
        proof {
            let t = hs@.take(i as int + 1);
            assert(t.last() == hs@[i as int]);
            assert(t.drop_last() =~= hs@.take(i as int));
        }
        let h = &hs[i];
        if !h.as_str().is_empty() && !contacts.contains(h.as_str()) {
            r.push(h.clone());
        }
        i = i + 1;
    }
    proof {
        assert(hs@.take(hs@.len() as int) =~= hs@);
    }
    r
}

} // verus!
