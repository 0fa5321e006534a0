//! Outbound wire encoding.  A request is one JSON object per line:
//! `{"jsonrpc":"2.0","id":"<n>","method":"<m>","params":{...}}`.
//! The encoder is verified down to the character sequence it emits,
//! including JSON string escaping; the parameter payloads of every call the
//! session makes are described by `RequestParams`.

use vstd::prelude::*;
use crate::textops::{chars_of, dec_digits, string_from_chars, u64_to_dec_chars};

verus! {

/// The parameter payload of each call the session layer issues.
pub enum RequestParams {
    ChatsList { limit: u64 },
    MessagesHistory { chat_id: i64, limit: u64 },
    WatchSubscribe { chat_id: i64 },
    WatchUnsubscribe { subscription: String },
    SendChat { chat_id: i64, text: String },
    SendTo { to: String, text: String },
    ContactsResolve { handles: Vec<String> },
    ContactsSearch { query: String, limit: u64 },
    ReactionsSend { guid: String, reaction: String },
    AttachmentsFetch { path: String, max_bytes: u64 },
}

/// The method name each payload is sent under.
pub open spec fn spec_method_of(p: RequestParams) -> Seq<char> {
    match p {
        RequestParams::ChatsList { .. } => "chats.list"@,
        RequestParams::MessagesHistory { .. } => "messages.history"@,
        RequestParams::WatchSubscribe { .. } => "watch.subscribe"@,
        RequestParams::WatchUnsubscribe { .. } => "watch.unsubscribe"@,
        RequestParams::SendChat { .. } => "send"@,
        RequestParams::SendTo { .. } => "send"@,
        RequestParams::ContactsResolve { .. } => "contacts.resolve"@,
        RequestParams::ContactsSearch { .. } => "contacts.search"@,
        RequestParams::ReactionsSend { .. } => "reactions.send"@,
        RequestParams::AttachmentsFetch { .. } => "attachments.fetch"@,
    }
}

/// The method name each payload is sent under.
pub fn method_of(p: &RequestParams) -> (r: &'static str)
    ensures
        r@ == spec_method_of(*p),
{
    match p {
        RequestParams::ChatsList { .. } => "chats.list",
        RequestParams::MessagesHistory { .. } => "messages.history",
        RequestParams::WatchSubscribe { .. } => "watch.subscribe",
        RequestParams::WatchUnsubscribe { .. } => "watch.unsubscribe",
        RequestParams::SendChat { .. } => "send",
        RequestParams::SendTo { .. } => "send",
        RequestParams::ContactsResolve { .. } => "contacts.resolve",
        RequestParams::ContactsSearch { .. } => "contacts.search",
        RequestParams::ReactionsSend { .. } => "reactions.send",
        RequestParams::AttachmentsFetch { .. } => "attachments.fetch",
    }
}

pub open spec fn hex_digit(d: nat) -> char {
    if d == 0 {
        '0'
    } else if d == 1 {
        '1'
    } else if d == 2 {
        '2'
    } else if d == 3 {
        '3'
    } else if d == 4 {
        '4'
    } else if d == 5 {
        '5'
    } else if d == 6 {
        '6'
    } else if d == 7 {
        '7'
    } else if d == 8 {
        '8'
    } else if d == 9 {
        '9'
    } else if d == 10 {
        'a'
    } else if d == 11 {
        'b'
    } else if d == 12 {
        'c'
    } else if d == 13 {
        'd'
    } else if d == 14 {
        'e'
    } else {
        'f'
    }
}

fn hex_digit_exec(d: u32) -> (c: char)
    requires
        d < 16,
    ensures
        c == hex_digit(d as nat),
{
    if d == 0 {
        '0'
    } else if d == 1 {
        '1'
    } else if d == 2 {
        '2'
    } else if d == 3 {
        '3'
    } else if d == 4 {
        '4'
    } else if d == 5 {
        '5'
    } else if d == 6 {
        '6'
    } else if d == 7 {
        '7'
    } else if d == 8 {
        '8'
    } else if d == 9 {
        '9'
    } else if d == 10 {
        'a'
    } else if d == 11 {
        'b'
    } else if d == 12 {
        'c'
    } else if d == 13 {
        'd'
    } else if d == 14 {
        'e'
    } else {
        'f'
    }
}

/// How one character is written inside a JSON string literal.
pub open spec fn esc_char(c: char) -> Seq<char> {
    if c == '"' {
        seq!['\\', '"']
    } else if c == '\\' {
        seq!['\\', '\\']
    } else if c == '\n' {
        seq!['\\', 'n']
    } else if c == '\r' {
        seq!['\\', 'r']
    } else if c == '\t' {
        seq!['\\', 't']
    } else if c == '\u{8}' {
        seq!['\\', 'b']
    } else if c == '\u{c}' {
        seq!['\\', 'f']
    } else if (c as u32) < 0x20 {
        seq!['\\', 'u', '0', '0', hex_digit((c as u32 / 16) as nat), hex_digit(
            (c as u32 % 16) as nat,
        )]
    } else {
        seq![c]
    }
}

/// A whole character sequence, escaped for a JSON string literal.
pub open spec fn json_escaped(s: Seq<char>) -> Seq<char>
    decreases s.len(),
{
    if s.len() == 0 {
        Seq::empty()
    } else {
        esc_char(s[0]) + json_escaped(s.drop_first())
    }
}

/// A JSON string literal: quotes around the escaped contents.
pub open spec fn json_str(s: Seq<char>) -> Seq<char> {
    seq!['"'] + json_escaped(s) + seq!['"']
}

proof fn lemma_json_escaped_snoc(s: Seq<char>, c: char)
    ensures
        json_escaped(s.push(c)) == json_escaped(s) + esc_char(c),
    decreases s.len(),
{
    let t = s.push(c);
    assert(t.len() == s.len() + 1);
    assert(json_escaped(t) == esc_char(t[0]) + json_escaped(t.drop_first()));
    if s.len() == 0 {
        assert(t[0] == c);
        assert(t.drop_first() =~= Seq::<char>::empty());
        assert(json_escaped(t.drop_first()) == Seq::<char>::empty());
        assert(json_escaped(t) =~= json_escaped(s) + esc_char(c));
    } else {
        assert(t[0] == s[0]);
        assert(t.drop_first() =~= s.drop_first().push(c));
        lemma_json_escaped_snoc(s.drop_first(), c);
        assert(json_escaped(s) == esc_char(s[0]) + json_escaped(s.drop_first()));
        assert(json_escaped(t) =~= json_escaped(s) + esc_char(c));
    }
}

/// Appends `src` to `out`.
pub fn append_chars(out: &mut Vec<char>, src: &Vec<char>)
    ensures
        final(out)@ == old(out)@ + src@,
{
    let mut i: usize = 0;
    while i < src.len()
        invariant
            i <= src.len(),
            out@ == old(out)@ + src@.take(i as int),
        decreases src.len() - i,
    {
        out.push(src[i]);
        proof {
            assert(src@.take(i as int + 1) =~= src@.take(i as int).push(src@[i as int]));
            assert((old(out)@ + src@.take(i as int)).push(src@[i as int]) =~= old(out)@
                + src@.take(i as int + 1));
        }
        i = i + 1;
    }
    proof {
        assert(old(out)@ + src@.take(src@.len() as int) =~= old(out)@ + src@);
    }
}

/// Appends a literal to `out`.
pub fn append_lit(out: &mut Vec<char>, lit: &str)
    ensures
        final(out)@ == old(out)@ + lit@,
{
    let v = chars_of(lit);
    append_chars(out, &v);
}

fn esc_char_chars(c: char) -> (r: Vec<char>)
    ensures
        r@ == esc_char(c),
{
    let mut r: Vec<char> = Vec::new();
    if c == '"' {
        r.push('\\');
        r.push('"');
    } else if c == '\\' {
        r.push('\\');
        r.push('\\');
    } else if c == '\n' {
        r.push('\\');
        r.push('n');
    } else if c == '\r' {
        r.push('\\');
        r.push('r');
    } else if c == '\t' {
        r.push('\\');
        r.push('t');
    } else if c == '\u{8}' {
        r.push('\\');
        r.push('b');
    } else if c == '\u{c}' {
        r.push('\\');
        r.push('f');
    } else {
        let u = c as u32;
        if u < 0x20 {
            r.push('\\');
            r.push('u');
            r.push('0');
            r.push('0');
            r.push(hex_digit_exec(u / 16));
            r.push(hex_digit_exec(u % 16));
        } else {
            r.push(c);
        }
    }
    proof {
        assert(r@ =~= esc_char(c));
    }
    r
}

/// Appends the JSON string literal for `s` to `out`.
pub fn append_json_string(out: &mut Vec<char>, s: &Vec<char>)
    ensures
        final(out)@ == old(out)@ + json_str(s@),
{
    out.push('"');
    let mut i: usize = 0;
    while i < s.len()
        invariant
            i <= s.len(),
            out@ == old(out)@ + seq!['"'] + json_escaped(s@.take(i as int)),
        decreases s.len() - i,
    {
        let e = esc_char_chars(s[i]);
        append_chars(out, &e);
        proof {
            assert(s@.take(i as int + 1) =~= s@.take(i as int).push(s@[i as int]));
            lemma_json_escaped_snoc(s@.take(i as int), s@[i as int]);
            assert(old(out)@ + seq!['"'] + json_escaped(s@.take(i as int)) + esc_char(
                s@[i as int],
            ) =~= old(out)@ + seq!['"'] + json_escaped(s@.take(i as int + 1)));
        }
        i = i + 1;
    }
    out.push('"');
    proof {
        assert(s@.take(s@.len() as int) =~= s@);
        assert((old(out)@ + seq!['"'] + json_escaped(s@)).push('"') =~= old(out)@ + json_str(s@));
    }
}

/// Appends the JSON string literal for a `&str`.
pub fn append_json_str_of(out: &mut Vec<char>, s: &str)
    ensures
        final(out)@ == old(out)@ + json_str(s@),
{
    let v = chars_of(s);
    append_json_string(out, &v);
}

/// Appends the decimal rendering of `n`.
pub fn append_dec_u64(out: &mut Vec<char>, n: u64)
    ensures
        final(out)@ == old(out)@ + dec_digits(n as nat),
{
    let v = u64_to_dec_chars(n);
    append_chars(out, &v);
}

/// The decimal rendering of a signed number: a minus sign for negatives.
pub open spec fn dec_i64(n: int) -> Seq<char> {
    if n >= 0 {
        dec_digits(n as nat)
    } else {
        seq!['-'] + dec_digits((-n) as nat)
    }
}

/// Appends the decimal rendering of a signed number.
pub fn append_dec_i64(out: &mut Vec<char>, n: i64)
    ensures
        final(out)@ == old(out)@ + dec_i64(n as int),
{
    if n >= 0 {
        append_dec_u64(out, n as u64);
    } else {
        out.push('-');
        let m: u64 = ((-(n + 1)) as u64) + 1;
        assert(m as nat == (-(n as int)) as nat);
        append_dec_u64(out, m);
        proof {
            assert(old(out)@.push('-') + dec_digits(m as nat) =~= old(out)@ + dec_i64(n as int));
        }
    }
}

/// A JSON array of string literals.
pub open spec fn json_str_array_inner(ss: Seq<Seq<char>>) -> Seq<char>
    decreases ss.len(),
{
    if ss.len() == 0 {
        Seq::empty()
    } else if ss.len() == 1 {
        json_str(ss[0])
    } else {
        json_str(ss[0]) + seq![','] + json_str_array_inner(ss.drop_first())
    }
}

pub open spec fn json_str_array(ss: Seq<Seq<char>>) -> Seq<char> {
    seq!['['] + json_str_array_inner(ss) + seq![']']
}

proof fn lemma_json_str_array_inner_snoc(ss: Seq<Seq<char>>)
    requires
        ss.len() >= 2,
    ensures
        json_str_array_inner(ss) == json_str_array_inner(ss.drop_last()) + seq![',']
            + json_str(ss.last()),
    decreases ss.len(),
{
    if ss.len() == 2 {
        assert(ss.drop_first().len() == 1);
        assert(json_str_array_inner(ss.drop_first()) == json_str(ss.drop_first()[0]));
        assert(ss.drop_first()[0] == ss.last());
        assert(ss.drop_last() =~= seq![ss[0]]);
        assert(json_str_array_inner(ss) =~= json_str_array_inner(ss.drop_last()) + seq![',']
            + json_str(ss.last()));
    } else {
        let df = ss.drop_first();
        lemma_json_str_array_inner_snoc(df);
        assert(df.last() == ss.last());
        assert(df.drop_last() =~= ss.drop_last().drop_first());
        assert(ss.drop_last().len() >= 2);
        assert(json_str_array_inner(ss.drop_last()) == json_str(ss.drop_last()[0]) + seq![',']
            + json_str_array_inner(ss.drop_last().drop_first()));
        assert(ss.drop_last()[0] == ss[0]);
        assert(json_str_array_inner(ss) =~= json_str_array_inner(ss.drop_last()) + seq![',']
            + json_str(ss.last()));
    }
}

/// Appends a JSON array holding each handle as a string literal.
pub fn append_json_str_vec(out: &mut Vec<char>, ss: &Vec<String>)
    ensures
        final(out)@ == old(out)@ + json_str_array(ss.deep_view()),
{
    out.push('[');
    let mut i: usize = 0;
    while i < ss.len()
        invariant
            i <= ss.len(),
            ss.deep_view().len() == ss@.len(),
            forall|j: int| 0 <= j < ss@.len() ==> ss.deep_view()[j] == ss@[j]@,
            out@ == old(out)@ + seq!['['] + json_str_array_inner(ss.deep_view().take(i as int)),
        decreases ss.len() - i,
    {
        if i > 0 {
            out.push(',');
        }
        append_json_str_of(out, ss[i].as_str());
        proof {
            let dv = ss.deep_view();
            assert(dv.take(i as int + 1) =~= dv.take(i as int).push(dv[i as int]));
            if i == 0 {
                assert(json_str_array_inner(dv.take(1)) == json_str(dv[0]));
                assert(out@ =~= old(out)@ + seq!['['] + json_str_array_inner(dv.take(1)));
            } else {
                lemma_json_str_array_inner_snoc(dv.take(i as int + 1));
                assert(dv.take(i as int + 1).drop_last() =~= dv.take(i as int));
                assert(dv.take(i as int + 1).last() == dv[i as int]);
                assert(out@ =~= old(out)@ + seq!['['] + json_str_array_inner(
                    dv.take(i as int + 1),
                ));
            }
        }
        i = i + 1;
    }
    out.push(']');
    proof {
        assert(ss.deep_view().take(ss@.len() as int) =~= ss.deep_view());
        assert((old(out)@ + seq!['['] + json_str_array_inner(ss.deep_view())).push(']')
            =~= old(out)@ + json_str_array(ss.deep_view()));
    }
}

/// The JSON object text of each parameter payload.
pub open spec fn spec_params_json(p: RequestParams) -> Seq<char> {
    match p {
        RequestParams::ChatsList { limit } => "{\"limit\":"@ + dec_digits(limit as nat) + "}"@,
        RequestParams::MessagesHistory { chat_id, limit } => "{\"chat_id\":"@ + dec_i64(
            chat_id as int,
        ) + ",\"limit\":"@ + dec_digits(limit as nat) + "}"@,
        RequestParams::WatchSubscribe { chat_id } => "{\"chat_id\":"@ + dec_i64(chat_id as int)
            + "}"@,
        RequestParams::WatchUnsubscribe { subscription } => "{\"subscription\":"@ + json_str(
            subscription@,
        ) + "}"@,
        RequestParams::SendChat { chat_id, text } => "{\"chat_id\":"@ + dec_i64(chat_id as int)
            + ",\"text\":"@ + json_str(text@) + "}"@,
        RequestParams::SendTo { to, text } => "{\"to\":"@ + json_str(to@) + ",\"text\":"@
            + json_str(text@) + "}"@,
        RequestParams::ContactsResolve { handles } => "{\"handles\":"@ + json_str_array(
            handles.deep_view(),
        ) + "}"@,
        RequestParams::ContactsSearch { query, limit } => "{\"query\":"@ + json_str(query@)
            + ",\"limit\":"@ + dec_digits(limit as nat) + "}"@,
        RequestParams::ReactionsSend { guid, reaction } => "{\"guid\":"@ + json_str(guid@)
            + ",\"reaction\":"@ + json_str(reaction@) + "}"@,
        RequestParams::AttachmentsFetch { path, max_bytes } => "{\"path\":"@ + json_str(path@)
            + ",\"max_bytes\":"@ + dec_digits(max_bytes as nat) + "}"@,
    }
}

/// Builds the JSON object text of a parameter payload.
pub fn params_json_chars(p: &RequestParams) -> (out: Vec<char>)
    ensures
        out@ == spec_params_json(*p),
{
    let mut out: Vec<char> = Vec::new();
    match p {
        RequestParams::ChatsList { limit } => {
            append_lit(&mut out, "{\"limit\":");
            append_dec_u64(&mut out, *limit);
            append_lit(&mut out, "}");
        },
        RequestParams::MessagesHistory { chat_id, limit } => {
            append_lit(&mut out, "{\"chat_id\":");
            append_dec_i64(&mut out, *chat_id);
            append_lit(&mut out, ",\"limit\":");
            append_dec_u64(&mut out, *limit);
            append_lit(&mut out, "}");
        },
        RequestParams::WatchSubscribe { chat_id } => {
            append_lit(&mut out, "{\"chat_id\":");
            append_dec_i64(&mut out, *chat_id);
            append_lit(&mut out, "}");
        },
        RequestParams::WatchUnsubscribe { subscription } => {
            append_lit(&mut out, "{\"subscription\":");
            append_json_str_of(&mut out, subscription.as_str());
            append_lit(&mut out, "}");
        },
        RequestParams::SendChat { chat_id, text } => {
            append_lit(&mut out, "{\"chat_id\":");
            append_dec_i64(&mut out, *chat_id);
            append_lit(&mut out, ",\"text\":");
            append_json_str_of(&mut out, text.as_str());
            append_lit(&mut out, "}");
        },
        RequestParams::SendTo { to, text } => {
            append_lit(&mut out, "{\"to\":");
            append_json_str_of(&mut out, to.as_str());
            append_lit(&mut out, ",\"text\":");
            append_json_str_of(&mut out, text.as_str());
            append_lit(&mut out, "}");
        },
        RequestParams::ContactsResolve { handles } => {
            append_lit(&mut out, "{\"handles\":");
            append_json_str_vec(&mut out, handles);
            append_lit(&mut out, "}");
        },
        RequestParams::ContactsSearch { query, limit } => {
            append_lit(&mut out, "{\"query\":");
            append_json_str_of(&mut out, query.as_str());
            append_lit(&mut out, ",\"limit\":");
            append_dec_u64(&mut out, *limit);
            append_lit(&mut out, "}");
        },
        RequestParams::ReactionsSend { guid, reaction } => {
            append_lit(&mut out, "{\"guid\":");
            append_json_str_of(&mut out, guid.as_str());
            append_lit(&mut out, ",\"reaction\":");
            append_json_str_of(&mut out, reaction.as_str());
            append_lit(&mut out, "}");
        },
        RequestParams::AttachmentsFetch { path, max_bytes } => {
            append_lit(&mut out, "{\"path\":");
            append_json_str_of(&mut out, path.as_str());
            append_lit(&mut out, ",\"max_bytes\":");
            append_dec_u64(&mut out, *max_bytes);
            append_lit(&mut out, "}");
        },
    }
    proof {
        assert(out@ =~= spec_params_json(*p));
    }
    out
}

/// The complete wire line for one request: protocol version tag, the
/// identifier as a JSON string, the method, and the params object if any.
pub open spec fn spec_request_line(
    id: Seq<char>,
    method: Seq<char>,
    params: Option<Seq<char>>,
) -> Seq<char> {
    "{\"jsonrpc\":\"2.0\",\"id\":"@ + json_str(id) + ",\"method\":"@ + json_str(method) + (
    match params {
        Some(p) => ",\"params\":"@ + p,
        None => Seq::empty(),
    }) + "}"@
}

/// Encodes one request as its wire line.
pub fn encode_request(id: &str, method: &str, params: Option<&RequestParams>) -> (r: String)
    ensures
        r@ == spec_request_line(
            id@,
            method@,
            match params {
                Some(p) => Some(spec_params_json(*p)),
                None => None::<Seq<char>>,
            },
        ),
{
    let mut out: Vec<char> = Vec::new();
    append_lit(&mut out, "{\"jsonrpc\":\"2.0\",\"id\":");
    append_json_str_of(&mut out, id);
    append_lit(&mut out, ",\"method\":");
    append_json_str_of(&mut out, method);
    match params {
        Some(p) => {
            append_lit(&mut out, ",\"params\":");
            let pj = params_json_chars(p);
            append_chars(&mut out, &pj);
        },
        None => {},
    }
    append_lit(&mut out, "}");
    proof {
        assert(out@ =~= spec_request_line(
            id@,
            method@,
            match params {
                Some(p) => Some(spec_params_json(*p)),
                None => None::<Seq<char>>,
            },
        ));
    }
    string_from_chars(&out)
}

/// Encodes the wire line for a payload under its own method name.
pub fn encode_call(id: &str, p: &RequestParams) -> (r: String)
    ensures
        r@ == spec_request_line(id@, spec_method_of(*p), Some(spec_params_json(*p))),
{
    let m = method_of(p);
    encode_request(id, m, Some(p))
}

} // verus!
