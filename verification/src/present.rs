//! Helpers the client shells use to interpret session state: recipient
//! handle detection, contact display names, and URL extraction.

use vstd::prelude::*;
use vstd::relations::{sorted_by, total_ordering};
use vstd::seq_lib::{lemma_sorted_unique};
use crate::records::{Message, Reaction};
use crate::strmap::StrMap;
use crate::textops::{chars_of, dec_digits, str_eq, string_from_chars, trim_chars, spec_trim, u64_to_dec_chars};

verus! {

/// A character that may appear in a phone-number-style handle.
pub open spec fn handle_body_char(c: char) -> bool {
    (48 <= c as u32 && c as u32 <= 57) || c == '+' || c == '(' || c == ')' || c == '-' || c == ' '
}

/// Whether a recipient entry is already a deliverable handle: after
/// trimming, non-empty, and either an address containing `@` or made only of
/// digits and phone punctuation.
pub open spec fn spec_looks_like_handle(s: Seq<char>) -> bool {
    let t = spec_trim(s);
    t.len() > 0 && (t.contains('@') || (forall|i: int| 0 <= i < t.len() ==> handle_body_char(
        t[i],
    )))
}

fn handle_body_char_exec(c: char) -> (r: bool)
    ensures
        r == handle_body_char(c),
{
    let u = c as u32;
    (48 <= u && u <= 57) || c == '+' || c == '(' || c == ')' || c == '-' || c == ' '
}

/// Whether a recipient entry is already a deliverable handle.
pub fn looks_like_handle(value: &str) -> (r: bool)
    ensures
        r == spec_looks_like_handle(value@),
{
    let chars = chars_of(value);
    let t = trim_chars(&chars);
    if t.len() == 0 {
        return false;
    }
    let mut i: usize = 0;
    while i < t.len()
        invariant
            i <= t@.len(),
            t@ == spec_trim(value@),
            forall|j: int| 0 <= j < i ==> t@[j] != '@',
        decreases t@.len() - i,
    {
        if t[i] == '@' {
            proof {
                assert(t@.contains('@'));
            }
            return true;
        }
        i = i + 1;
    }
    proof {
        assert(!t@.contains('@'));
    }
    let mut k: usize = 0;
    while k < t.len()
        invariant
            k <= t@.len(),
            t@ == spec_trim(value@),
            !t@.contains('@'),
            forall|j: int| 0 <= j < k ==> handle_body_char(t@[j]),
        decreases t@.len() - k,
    {
        if !handle_body_char_exec(t[k]) {
            return false;
        }
        k = k + 1;
    }
    true
}

/// The display name for a sender handle: the contact book's name when one is
/// recorded, the bare handle otherwise.
pub fn sender_display(contacts: &StrMap<String>, sender: &str) -> (r: String)
    ensures
        match contacts.spec_get(sender@) {
            Some(name) => r@ == name@,
            None => r@ == sender@,
        },
{
    match contacts.get(sender) {
        Some(name) => name.clone(),
        None => sender.to_owned(),
    }
}

/// The keybinding and action summary shown by the help overlay.
pub fn help_text() -> (r: &'static str)
    ensures
        r@ == "imsg client help\nq quit  Tab focus  Enter history  w watch  r refresh\ns send (compose)  n new (compose to)  c compose\nR react  o open url  PgUp/PgDn scroll  j/k scroll\n\ncompose mode\nTab switch field  Shift-Tab recent recipient\nEnter send  Esc cancel\n"@,
{
    "imsg client help\nq quit  Tab focus  Enter history  w watch  r refresh\ns send (compose)  n new (compose to)  c compose\nR react  o open url  PgUp/PgDn scroll  j/k scroll\n\ncompose mode\nTab switch field  Shift-Tab recent recipient\nEnter send  Esc cancel\n"
}

/// How many bytes a character occupies in UTF-8.
pub open spec fn char_utf8_len(c: char) -> nat {
    if (c as u32) < 0x80 {
        1
    } else if (c as u32) < 0x800 {
        2
    } else if (c as u32) < 0x10000 {
        3
    } else {
        4
    }
}

/// The UTF-8 byte length of a character sequence.
pub open spec fn utf8_len(s: Seq<char>) -> nat
    decreases s.len(),
{
    if s.len() == 0 {
        0
    } else {
        utf8_len(s.drop_last()) + char_utf8_len(s.last())
    }
}

/// The longest prefix of `s` whose UTF-8 length fits in `budget` bytes.
pub open spec fn cut_len(s: Seq<char>, budget: int) -> int
    decreases s.len(),
{
    if s.len() == 0 {
        0
    } else if char_utf8_len(s[0]) > budget {
        0
    } else {
        1 + cut_len(s.drop_first(), budget - char_utf8_len(s[0]))
    }
}

/// A quoted message shown in a reply preview: the text itself when it fits
/// in 48 UTF-8 bytes, else its longest fitting prefix with an ellipsis.
pub open spec fn spec_snippet(t: Seq<char>) -> Seq<char> {
    if utf8_len(t) <= 48 {
        t
    } else {
        t.take(cut_len(t, 48)) + seq!['…']
    }
}

proof fn lemma_utf8_prefix(t: Seq<char>, j: int)
    requires
        0 <= j <= t.len(),
    ensures
        utf8_len(t.take(j)) <= utf8_len(t),
    decreases t.len(),
{
    if j == t.len() {
        assert(t.take(j) =~= t);
    } else {
        assert(t.drop_last().take(j) =~= t.take(j));
        lemma_utf8_prefix(t.drop_last(), j);
    }
}

fn char_len_exec(c: char) -> (r: u64)
    ensures
        r == char_utf8_len(c),
{
    let u = c as u32;
    if u < 0x80 {
        1
    } else if u < 0x800 {
        2
    } else if u < 0x10000 {
        3
    } else {
        4
    }
}

/// The snippet for a quoted text.
pub fn snippet_chars(t: &Vec<char>) -> (r: Vec<char>)
    ensures
        r@ == spec_snippet(t@),
{
    let n = t.len();
    let mut i: usize = 0;
    let mut used: u64 = 0;
    proof {
        assert(t@.skip(0) =~= t@);
        assert(t@.take(0) =~= Seq::<char>::empty());
    }
    while i < n
        invariant_except_break
            i <= n,
            n == t@.len(),
            used == utf8_len(t@.take(i as int)),
            used <= 48,
            cut_len(t@, 48) == i + cut_len(t@.skip(i as int), 48 - used),
        ensures
            i <= n,
            n == t@.len(),
            used == utf8_len(t@.take(i as int)),
            used <= 48,
            i < n ==> (cut_len(t@, 48) == i && used + char_utf8_len(t@[i as int]) > 48),
        decreases n - i,
    {
        let cl = char_len_exec(t[i]);
        proof {
            assert(t@.skip(i as int)[0] == t@[i as int]);
            assert(t@.skip(i as int).drop_first() =~= t@.skip(i as int + 1));
            assert(t@.take(i as int + 1).drop_last() =~= t@.take(i as int));
            assert(t@.take(i as int + 1).last() == t@[i as int]);
        }
        if used + cl > 48 {
            break;
        }
        used = used + cl;
        i = i + 1;
    }
    proof {
        if i == n {
            assert(t@.take(n as int) =~= t@);
        }
    }
    if i == n {
        let mut r: Vec<char> = Vec::new();
        let mut k: usize = 0;
        while k < n
            invariant
                k <= n,
                n == t@.len(),
                r@ == t@.take(k as int),
            decreases n - k,
        {
            r.push(t[k]);
            proof {
                assert(t@.take(k as int + 1) =~= t@.take(k as int).push(t@[k as int]));
            }
            k = k + 1;
        }
        proof {
            lemma_utf8_prefix(t@, n as int);
            assert(r@ =~= spec_snippet(t@));
        }
        r
    } else {
        proof {
            lemma_utf8_prefix(t@, i as int + 1);
            assert(utf8_len(t@.take(i as int + 1)) > 48) by {
                assert(t@.take(i as int + 1).drop_last() =~= t@.take(i as int));
                assert(t@.take(i as int + 1).last() == t@[i as int]);
            }
        }
        let mut r: Vec<char> = Vec::new();
        let mut k: usize = 0;
        while k < i
            invariant
                k <= i <= n,
                n == t@.len(),
                r@ == t@.take(k as int),
            decreases i - k,
        {
            r.push(t[k]);
            proof {
                assert(t@.take(k as int + 1) =~= t@.take(k as int).push(t@[k as int]));
            }
            k = k + 1;
        }
        r.push('…');
        proof {
            assert(r@ =~= spec_snippet(t@));
        }
        r
    }
}

/// The message a reply points at: the last message of the list carrying the
/// (non-empty) guid.
pub open spec fn lookup_reply(msgs: Seq<Message>, guid: Seq<char>) -> Option<Message>
    decreases msgs.len(),
{
    if msgs.len() == 0 {
        None
    } else if msgs.last().guid@ == guid && guid.len() > 0 {
        Some(msgs.last())
    } else {
        lookup_reply(msgs.drop_last(), guid)
    }
}

/// The display name of a sender under a contact book.
pub open spec fn display_of(contacts: StrMap<String>, sender: String) -> Seq<char> {
    match contacts.spec_get(sender@) {
        Some(n) => n@,
        None => sender@,
    }
}

/// The one-line preview shown above a reply: the quoted sender's display
/// name and a snippet of the quoted text, or a bare reference to the quoted
/// guid when that message is not in the visible history.
pub fn reply_preview(
    message: &Message,
    messages: &Vec<Message>,
    contacts: &StrMap<String>,
) -> (r: Option<String>)
    ensures
        message.reply_to_guid is None ==> r is None,
        message.reply_to_guid matches Some(g) ==> (match lookup_reply(messages@, g@) {
            Some(m) => r matches Some(p) && p@ == "↪ "@ + display_of(*contacts, m.sender) + ": "@
                + spec_snippet(m.text@),
            None => r matches Some(p) && p@ == "↪ reply to "@ + g@,
        }),
{
    let g = match &message.reply_to_guid {
        Some(g) => g,
        None => {
            return None;
        },
    };
    let mut i: usize = messages.len();
    proof {
        assert(messages@.take(messages@.len() as int) =~= messages@);
    }
    while i > 0
        invariant
            i <= messages@.len(),
            message.reply_to_guid == Some(*g),
            lookup_reply(messages@, g@) == lookup_reply(messages@.take(i as int), g@),
        decreases i,
    {
        proof {
            assert(messages@.take(i as int).last() == messages@[i as int - 1]);
            assert(messages@.take(i as int).drop_last() =~= messages@.take(i as int - 1));
        }
        let m = &messages[i - 1];
        if !m.guid.as_str().is_empty() && str_eq(m.guid.as_str(), g.as_str()) {
            proof {
                assert(messages@.take(i as int).last() == messages@[i as int - 1]);
                assert(g@.len() > 0);
                assert(lookup_reply(messages@.take(i as int), g@) == Some(
                    messages@[i as int - 1],
                ));
            }
            let display = sender_display(contacts, m.sender.as_str());
            let tc = chars_of(m.text.as_str());
            let snippet = snippet_chars(&tc);
            let mut out: Vec<char> = chars_of("↪ ");
            let dc = chars_of(display.as_str());
            crate::wire::append_chars(&mut out, &dc);
            crate::wire::append_lit(&mut out, ": ");
            crate::wire::append_chars(&mut out, &snippet);
            proof {
                assert(out@ =~= "↪ "@ + display_of(*contacts, messages@[i as int - 1].sender)
                    + ": "@ + spec_snippet(messages@[i as int - 1].text@));
            }
            return Some(string_from_chars(&out));
        }
        i = i - 1;
    }
    proof {
        assert(messages@.take(0) =~= Seq::<Message>::empty());
    }
    let mut out: Vec<char> = chars_of("↪ reply to ");
    let gc = chars_of(g.as_str());
    crate::wire::append_chars(&mut out, &gc);
    Some(string_from_chars(&out))
}

/// How often an emoji occurs among the reactions.
pub open spec fn emoji_count(rs: Seq<Reaction>, e: Seq<char>) -> nat
    decreases rs.len(),
{
    if rs.len() == 0 {
        0
    } else {
        emoji_count(rs.drop_last(), e) + if rs.last().emoji@ == e {
            1nat
        } else {
            0nat
        }
    }
}

/// Whether some string of the list reads `v`.
pub open spec fn contains_view(ss: Seq<String>, v: Seq<char>) -> bool {
    exists|i: int| 0 <= i < ss.len() && ss[i]@ == v
}

/// The distinct reaction emojis, in order of first occurrence.
pub open spec fn distinct_emojis(rs: Seq<Reaction>) -> Seq<String>
    decreases rs.len(),
{
    if rs.len() == 0 {
        Seq::empty()
    } else {
        let p = distinct_emojis(rs.drop_last());
        if contains_view(p, rs.last().emoji@) {
            p
        } else {
            p.push(rs.last().emoji)
        }
    }
}

/// One part of the summary: the emoji, with its count when above one.
pub open spec fn part_label(e: Seq<char>, n: nat) -> Seq<char> {
    if n > 1 {
        e + seq![' '] + dec_digits(n)
    } else {
        e
    }
}

/// The summary parts, one per distinct emoji, in first-occurrence order.
pub open spec fn labels_of(rs: Seq<Reaction>) -> Seq<Seq<char>> {
    Seq::new(
        distinct_emojis(rs).len(),
        |i: int| part_label(distinct_emojis(rs)[i]@, emoji_count(rs, distinct_emojis(rs)[i]@)),
    )
}

/// Lexicographic order on character sequences, by code point.
pub open spec fn lex_le(a: Seq<char>, b: Seq<char>) -> bool
    decreases a.len(),
{
    if a.len() == 0 {
        true
    } else if b.len() == 0 {
        false
    } else if (a[0] as u32) < (b[0] as u32) {
        true
    } else if a[0] == b[0] {
        lex_le(a.drop_first(), b.drop_first())
    } else {
        false
    }
}

/// The lexicographic order as a relation value.
pub open spec fn lex_leq() -> spec_fn(Seq<char>, Seq<char>) -> bool {
    |a: Seq<char>, b: Seq<char>| lex_le(a, b)
}

proof fn lemma_lex_refl(a: Seq<char>)
    ensures
        lex_le(a, a),
    decreases a.len(),
{
    if a.len() > 0 {
        lemma_lex_refl(a.drop_first());
    }
}

proof fn lemma_lex_total(a: Seq<char>, b: Seq<char>)
    ensures
        lex_le(a, b) || lex_le(b, a),
    decreases a.len(),
{
    if a.len() == 0 {
    } else if b.len() == 0 {
    } else if (a[0] as u32) < (b[0] as u32) {
    } else if a[0] == b[0] {
        lemma_lex_total(a.drop_first(), b.drop_first());
    } else {
        assert((b[0] as u32) < (a[0] as u32)) by {
            if a[0] as u32 == b[0] as u32 {
                vstd::utf8::char_u32_cast(a[0], a[0] as u32);
                vstd::utf8::char_u32_cast(b[0], b[0] as u32);
            }
        }
        assert(lex_le(b, a));
    }
}

proof fn lemma_lex_antisym(a: Seq<char>, b: Seq<char>)
    requires
        lex_le(a, b),
        lex_le(b, a),
    ensures
        a == b,
    decreases a.len(),
{
    if a.len() == 0 {
        assert(b.len() == 0);
        assert(a =~= b);
    } else {
        assert(b.len() > 0);
        assert(a[0] == b[0]);
        lemma_lex_antisym(a.drop_first(), b.drop_first());
        assert(a.drop_first() == b.drop_first());
        assert(a.drop_first().len() == b.drop_first().len());
        assert(a.len() == b.len());
        assert forall|i: int| 0 <= i < a.len() implies a[i] == b[i] by {
            if i > 0 {
                assert(a[i] == a.drop_first()[i - 1]);
                assert(b[i] == b.drop_first()[i - 1]);
            }
        }
        assert(a =~= b);
    }
}

proof fn lemma_lex_trans(a: Seq<char>, b: Seq<char>, c: Seq<char>)
    requires
        lex_le(a, b),
        lex_le(b, c),
    ensures
        lex_le(a, c),
    decreases a.len(),
{
    if a.len() > 0 {
        assert(b.len() > 0);
        assert(c.len() > 0);
        if a[0] == b[0] && b[0] == c[0] {
            lemma_lex_trans(a.drop_first(), b.drop_first(), c.drop_first());
        }
    }
}

/// The lexicographic order is a total ordering.
pub proof fn lemma_lex_total_ordering()
    ensures
        total_ordering(lex_leq()),
{
    let r = lex_leq();
    assert forall|x: Seq<char>| #[trigger] r(x, x) by {
        lemma_lex_refl(x);
    }
    assert forall|x: Seq<char>, y: Seq<char>| #[trigger] r(x, y) && #[trigger] r(y, x)
        implies x == y by {
        lemma_lex_antisym(x, y);
    }
    assert forall|x: Seq<char>, y: Seq<char>, z: Seq<char>|
        #[trigger] r(x, y) && #[trigger] r(y, z) implies r(x, z) by {
        lemma_lex_trans(x, y, z);
    }
    assert forall|x: Seq<char>, y: Seq<char>| #[trigger] r(x, y) || #[trigger] r(y, x) by {
        lemma_lex_total(x, y);
    }
}

/// The summary parts in lexicographic order.
pub open spec fn sorted_labels(rs: Seq<Reaction>) -> Seq<Seq<char>> {
    labels_of(rs).sort_by(lex_leq())
}

/// The parts joined with single spaces.
pub open spec fn join_space(ss: Seq<Seq<char>>) -> Seq<char>
    decreases ss.len(),
{
    if ss.len() == 0 {
        Seq::empty()
    } else if ss.len() == 1 {
        ss[0]
    } else {
        ss[0] + seq![' '] + join_space(ss.drop_first())
    }
}

/// The whole reaction summary: the label of each distinct emoji, sorted,
/// space-separated.
pub open spec fn spec_reaction_summary(rs: Seq<Reaction>) -> Seq<char> {
    join_space(sorted_labels(rs))
}

proof fn lemma_join_space_snoc(ss: Seq<Seq<char>>)
    requires
        ss.len() >= 2,
    ensures
        join_space(ss) == join_space(ss.drop_last()) + seq![' '] + ss.last(),
    decreases ss.len(),
{
    if ss.len() == 2 {
        assert(ss.drop_first().len() == 1);
        assert(join_space(ss.drop_first()) == ss.drop_first()[0]);
        assert(ss.drop_first()[0] == ss.last());
        assert(ss.drop_last() =~= seq![ss[0]]);
        assert(join_space(ss) =~= join_space(ss.drop_last()) + seq![' '] + ss.last());
    } else {
        let df = ss.drop_first();
        lemma_join_space_snoc(df);
        assert(df.last() == ss.last());
        assert(df.drop_last() =~= ss.drop_last().drop_first());
        assert(ss.drop_last().len() >= 2);
        assert(join_space(ss.drop_last()) == ss.drop_last()[0] + seq![' '] + join_space(
            ss.drop_last().drop_first(),
        ));
        assert(ss.drop_last()[0] == ss[0]);
        assert(join_space(ss) =~= join_space(ss.drop_last()) + seq![' '] + ss.last());
    }
}

proof fn lemma_insert_multiset<A>(s: Seq<A>, p: int, x: A)
    requires
        0 <= p <= s.len(),
    ensures
        s.insert(p, x).to_multiset() == s.to_multiset().insert(x),
{
    broadcast use vstd::seq_lib::group_to_multiset_ensures;

    let t = s.insert(p, x);
    assert(t.remove(p) =~= s);
    assert(t[p] == x);
    assert(t.remove(p).to_multiset() =~= t.to_multiset().remove(t[p]));
    assert(t.contains(x)) by {
        assert(t[p] == x);
    }
    assert(t.to_multiset().count(x) > 0);
    assert(t.to_multiset() =~= s.to_multiset().insert(x));
}

/// The character views of a string list.
pub open spec fn string_views(ss: Seq<String>) -> Seq<Seq<char>> {
    Seq::new(ss.len(), |i: int| ss[i]@)
}

fn contains_str(ss: &Vec<String>, v: &str) -> (r: bool)
    ensures
        r == contains_view(ss@, v@),
{
    let mut i: usize = 0;
    while i < ss.len()
        invariant
            i <= ss@.len(),
            forall|j: int| 0 <= j < i ==> ss@[j]@ != v@,
        decreases ss@.len() - i,
    {
        if str_eq(ss[i].as_str(), v) {
            proof {
                assert(contains_view(ss@, v@));
            }
            return true;
        }
        i = i + 1;
    }
    false
}

fn lex_le_exec(a: &Vec<char>, b: &Vec<char>) -> (r: bool)
    ensures
        r == lex_le(a@, b@),
{
    let mut i: usize = 0;
    proof {
        assert(a@.skip(0) =~= a@);
        assert(b@.skip(0) =~= b@);
    }
    while i < a.len() && i < b.len()
        invariant
            i <= a@.len(),
            i <= b@.len(),
            lex_le(a@, b@) == lex_le(a@.skip(i as int), b@.skip(i as int)),
        decreases a@.len() - i,
    {
        proof {
            assert(a@.skip(i as int)[0] == a@[i as int]);
            assert(b@.skip(i as int)[0] == b@[i as int]);
            assert(a@.skip(i as int).drop_first() =~= a@.skip(i as int + 1));
            assert(b@.skip(i as int).drop_first() =~= b@.skip(i as int + 1));
        }
        let ca = a[i];
        let cb = b[i];
        if (ca as u32) < (cb as u32) {
            return true;
        }
        if ca != cb {
            return false;
        }
        i = i + 1;
    }
    proof {
        if i >= a.len() {
            assert(a@.skip(i as int).len() == 0);
        } else {
            assert(b@.skip(i as int).len() == 0);
            assert(a@.skip(i as int).len() > 0);
        }
    }
    i >= a.len()
}

fn sort_labels(labels: Vec<String>) -> (out: Vec<String>)
    ensures
        sorted_by(string_views(out@), lex_leq()),
        string_views(out@).to_multiset() == string_views(labels@).to_multiset(),
{
    let mut out: Vec<String> = Vec::new();
    let mut i: usize = 0;
    proof {
        assert(string_views(out@) =~= Seq::<Seq<char>>::empty());
        assert(string_views(labels@.take(0)) =~= Seq::<Seq<char>>::empty());
        assert(string_views(out@).to_multiset() =~= string_views(labels@.take(0)).to_multiset());
    }
    while i < labels.len()
        invariant
            i <= labels@.len(),
            sorted_by(string_views(out@), lex_leq()),
            string_views(out@).to_multiset() == string_views(labels@.take(i as int)).to_multiset(),
        decreases labels@.len() - i,
    {
        let x = labels[i].clone();
        let xc = chars_of(x.as_str());
        let mut p: usize = 0;
        while p < out.len()
            invariant_except_break
                p <= out@.len(),
                xc@ == x@,
                forall|t: int| 0 <= t < p ==> lex_le(string_views(out@)[t], x@),
            ensures
                p <= out@.len(),
                forall|t: int| 0 <= t < p ==> lex_le(string_views(out@)[t], x@),
                p < out@.len() ==> !lex_le(string_views(out@)[p as int], x@),
            decreases out@.len() - p,
        {
            let oc = chars_of(out[p].as_str());
            if !lex_le_exec(&oc, &xc) {
                break;
            }
            p = p + 1;
        }
        let ghost pre = out@;
        out.insert(p, x);
        proof {
            let vs = string_views(pre);
            let vs2 = string_views(out@);
            assert(out@ == pre.insert(p as int, x));
            assert(vs2 =~= vs.insert(p as int, x@)) by {
                assert forall|j: int| 0 <= j < vs2.len() implies vs2[j] == vs.insert(
                    p as int,
                    x@,
                )[j] by {
                    if j < p {
                        assert(out@[j] == pre[j]);
                    } else if j == p {
                        assert(out@[j] == x);
                    } else {
                        assert(out@[j] == pre[j - 1]);
                    }
                }
            }
            lemma_insert_multiset(vs, p as int, x@);
            let t = labels@.take(i as int + 1);
            assert(t.drop_last() =~= labels@.take(i as int));
            assert(t.last() == labels@[i as int]);
            assert(string_views(t) =~= string_views(labels@.take(i as int)).push(
                labels@[i as int]@,
            ));
            broadcast use vstd::seq_lib::group_to_multiset_ensures;

            assert(string_views(labels@.take(i as int + 1)).to_multiset() =~= string_views(
                labels@.take(i as int),
            ).to_multiset().insert(labels@[i as int]@));
            assert(x@ == labels@[i as int]@);
            assert forall|u: int, w: int| 0 <= u < w < vs2.len() implies #[trigger] lex_leq()(
                vs2[u],
                vs2[w],
            ) by {
                if w < p {
                    assert(vs2[u] == vs[u]);
                    assert(vs2[w] == vs[w]);
                    assert(lex_leq()(vs[u], vs[w]));
                } else if u < p && w == p {
                    assert(vs2[u] == vs[u]);
                    assert(vs2[w] == x@);
                    assert(lex_le(vs[u], x@));
                } else if u < p && w > p {
                    assert(vs2[u] == vs[u]);
                    assert(vs2[w] == vs[w - 1]);
                    assert(u < w - 1 || u == w - 1);
                    if u < w - 1 {
                        assert(lex_leq()(vs[u], vs[w - 1]));
                    } else {
                        assert(vs[w - 1] == vs[u]);
                        lemma_lex_refl(vs[u]);
                        assert(lex_leq()(vs[u], vs[w - 1]));
                    }
                } else if u == p {
                    assert(vs2[u] == x@);
                    assert(vs2[w] == vs[w - 1]);
                    assert(p < vs.len());
                    assert(!lex_le(vs[p as int], x@));
                    lemma_lex_total(vs[p as int], x@);
                    assert(lex_le(x@, vs[p as int]));
                    if w - 1 > p {
                        assert(lex_leq()(vs[p as int], vs[w - 1]));
                        lemma_lex_trans(x@, vs[p as int], vs[w - 1]);
                    }
                } else {
                    assert(u > p);
                    assert(vs2[u] == vs[u - 1]);
                    assert(vs2[w] == vs[w - 1]);
                    assert(lex_leq()(vs[u - 1], vs[w - 1]));
                }
            }
        }
        i = i + 1;
    }
    proof {
        assert(labels@.take(labels@.len() as int) =~= labels@);
    }
    out
}

/// The reaction summary shown under a message: nothing when there are no
/// reactions, else each distinct emoji with its count when above one,
/// sorted, space-separated.
pub fn reaction_summary(reactions: &Vec<Reaction>) -> (r: Option<String>)
    ensures
        r is Some <==> reactions@.len() > 0,
        r matches Some(s) ==> s@ == spec_reaction_summary(reactions@),
{
    if reactions.len() == 0 {
        return None;
    }
    let rs = reactions;
    // Distinct emojis, in first-occurrence order.
    let mut d: Vec<String> = Vec::new();
    let mut i: usize = 0;
    while i < rs.len()
        invariant
            i <= rs@.len(),
            d@ == distinct_emojis(rs@.take(i as int)),
        decreases rs@.len() - i,
    {
        proof {
            assert(rs@.take(i as int + 1).last() == rs@[i as int]);
            assert(rs@.take(i as int + 1).drop_last() =~= rs@.take(i as int));
        }
        if !contains_str(&d, rs[i].emoji.as_str()) {
            d.push(rs[i].emoji.clone());
        }
        i = i + 1;
    }
    proof {
        assert(rs@.take(rs@.len() as int) =~= rs@);
    }
    // One label per distinct emoji.
    let mut labels: Vec<String> = Vec::new();
    let mut k: usize = 0;
    while k < d.len()
        invariant
            k <= d@.len(),
            d@ == distinct_emojis(rs@),
            labels@.len() == k,
            forall|j: int| 0 <= j < k ==> (#[trigger] labels@[j])@ == labels_of(rs@)[j],
        decreases d@.len() - k,
    {
        let e = &d[k];
        let mut c: usize = 0;
        let mut m: usize = 0;
        while m < rs.len()
            invariant
                m <= rs@.len(),
                c <= m,
                c == emoji_count(rs@.take(m as int), e@),
            decreases rs@.len() - m,
        {
            proof {
                assert(rs@.take(m as int + 1).last() == rs@[m as int]);
                assert(rs@.take(m as int + 1).drop_last() =~= rs@.take(m as int));
            }
            if str_eq(rs[m].emoji.as_str(), e.as_str()) {
                c = c + 1;
            }
            m = m + 1;
        }
        proof {
            assert(rs@.take(rs@.len() as int) =~= rs@);
        }
        let label = if c > 1 {
            let mut lc: Vec<char> = chars_of(e.as_str());
            lc.push(' ');
            let dc = u64_to_dec_chars(c as u64);
            crate::wire::append_chars(&mut lc, &dc);
            proof {
                assert(lc@ =~= part_label(e@, c as nat));
            }
            string_from_chars(&lc)
        } else {
            e.clone()
        };
        labels.push(label);
        k = k + 1;
    }
    // Sort and join.
    let parts = sort_labels(labels);
    proof {
        assert(string_views(labels@) =~= labels_of(rs@));
        lemma_lex_total_ordering();
        labels_of(rs@).lemma_sort_by_ensures(lex_leq());
        lemma_sorted_unique(string_views(parts@), sorted_labels(rs@), lex_leq());
        assert(string_views(parts@) == sorted_labels(rs@));
    }
    let mut out: Vec<char> = Vec::new();
    let mut q: usize = 0;
    while q < parts.len()
        invariant
            q <= parts@.len(),
            string_views(parts@) == sorted_labels(rs@),
            out@ == join_space(string_views(parts@).take(q as int)),
        decreases parts@.len() - q,
    {
        if q > 0 {
            out.push(' ');
        }
        let pc = chars_of(parts[q].as_str());
        crate::wire::append_chars(&mut out, &pc);
        proof {
            let vs = string_views(parts@);
            assert(vs.take(q as int + 1).drop_last() =~= vs.take(q as int));
            assert(vs.take(q as int + 1).last() == vs[q as int]);
            if q == 0 {
                assert(join_space(vs.take(1)) == vs[0]);
                assert(out@ =~= join_space(vs.take(1)));
            } else {
                lemma_join_space_snoc(vs.take(q as int + 1));
                assert(out@ =~= join_space(vs.take(q as int + 1)));
            }
        }
        q = q + 1;
    }
    proof {
        assert(string_views(parts@).take(parts@.len() as int) =~= string_views(parts@));
        // A non-empty reaction list has at least one distinct emoji, so the
        // summary exists; the sorted parts have the same length.
        assert(distinct_emojis(rs@).len() > 0) by {
            assert(rs@.take(rs@.len() as int) =~= rs@);
        }
    }
    Some(string_from_chars(&out))
}

/// The URLs that the link finder recognises in `s`, in order of appearance.
pub uninterp spec fn urls_of(s: Seq<char>) -> Seq<Seq<char>>;

/// Relies on linkify's `LinkFinder` restricted to URL links: which links are
/// found depends on the text alone.
#[verifier::external_body]
pub(crate) fn extract_urls(text: &str) -> (r: Vec<String>)
    ensures
        r.deep_view() == urls_of(text@),
{
    let mut finder = linkify::LinkFinder::new();
    finder.kinds(&[linkify::LinkKind::Url]);
    finder.links(text).map(|link| link.as_str().to_string()).collect()
}

/// The first URL in a text, if it holds any: the one the open-url action
/// opens.
pub fn first_url(text: &str) -> (r: Option<String>)
    ensures
        urls_of(text@).len() == 0 ==> r is None,
        urls_of(text@).len() > 0 ==> (r matches Some(u) && u@ == urls_of(text@)[0]),
{
    let urls = extract_urls(text);
    proof {
        assert(urls.deep_view().len() == urls@.len());
    }
    if urls.len() == 0 {
        None
    } else {
        proof {
            assert(urls.deep_view()[0] == urls@[0]@);
        }
        Some(urls[0].clone())
    }
}

} // verus!
