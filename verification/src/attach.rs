//! Attachment handling: the cache key for an attachment, its file
//! extension, whether it renders as an image, and where a cached copy
//! lives.  Fetched payloads arrive base64-encoded; the decode is the one
//! trusted step.

use vstd::prelude::*;
use vstd::wrapping::u64_specs;
use crate::records::Attachment;
use crate::strmap::StrMap;
use crate::textops::{chars_of, str_eq, string_from_chars};
use crate::wire::hex_digit;

verus! {

/// One FNV-1a step over a character's code point.
pub open spec fn fnv_update(h: u64, x: u64) -> u64 {
    u64_specs::wrapping_mul(h ^ x, 0x100000001b3)
}

/// FNV-1a folded over a character sequence.
pub open spec fn fnv_chars(h: u64, s: Seq<char>) -> u64
    decreases s.len(),
{
    if s.len() == 0 {
        h
    } else {
        fnv_chars(fnv_update(h, s[0] as u64), s.drop_first())
    }
}

/// The FNV-1a offset basis.
pub open spec fn fnv_basis() -> u64 {
    0xcbf29ce484222325
}

fn fnv_fold(h0: u64, s: &Vec<char>) -> (h: u64)
    ensures
        h == fnv_chars(h0, s@),
{
    let mut h = h0;
    let mut i: usize = 0;
    proof {
        assert(s@.skip(0) =~= s@);
    }
    while i < s.len()
        invariant
            i <= s@.len(),
            fnv_chars(h, s@.skip(i as int)) == fnv_chars(h0, s@),
        decreases s@.len() - i,
    {
        proof {
            assert(s@.skip(i as int)[0] == s@[i as int]);
            assert(s@.skip(i as int).drop_first() =~= s@.skip(i as int + 1));
        }
        let c = s[i];
        h = (h ^ (c as u64)).wrapping_mul(0x100000001b3);
        i = i + 1;
    }
    proof {
        assert(s@.skip(s@.len() as int) =~= Seq::<char>::empty());
    }
    h
}

/// The hexadecimal digits of `n`, lowercase, no leading zeros.
pub open spec fn hex_digits(n: nat) -> Seq<char>
    decreases n,
{
    if n < 16 {
        seq![hex_digit(n)]
    } else {
        hex_digits(n / 16).push(hex_digit(n % 16))
    }
}

fn hex_digit_exec16(d: u64) -> (c: char)
    requires
        d < 16,
    ensures
        c == hex_digit(d as nat),
{
    if d == 0 {
        '0'
    } else if d == 1 {
        '1'
    } else if d == 2 {
        '2'
    } else if d == 3 {
        '3'
    } else if d == 4 {
        '4'
    } else if d == 5 {
        '5'
    } else if d == 6 {
        '6'
    } else if d == 7 {
        '7'
    } else if d == 8 {
        '8'
    } else if d == 9 {
        '9'
    } else if d == 10 {
        'a'
    } else if d == 11 {
        'b'
    } else if d == 12 {
        'c'
    } else if d == 13 {
        'd'
    } else if d == 14 {
        'e'
    } else {
        'f'
    }
}

fn u64_to_hex_chars(n: u64) -> (r: Vec<char>)
    ensures
        r@ == hex_digits(n as nat),
    decreases n,
{
    if n < 16 {
        let mut v: Vec<char> = Vec::new();
        v.push(hex_digit_exec16(n));
        proof {
            assert(v@ =~= seq![hex_digit(n as nat)]);
        }
        v
    } else {
        let mut v = u64_to_hex_chars(n / 16);
        v.push(hex_digit_exec16(n % 16));
        v
    }
}

/// The cache key of an attachment: the hexadecimal FNV-1a hash of its
/// original path and filename, with a separator between them.
pub open spec fn spec_attachment_key(path: Seq<char>, filename: Seq<char>) -> Seq<char> {
    hex_digits(fnv_chars(fnv_update(fnv_chars(fnv_basis(), path), 0x1f), filename) as nat)
}

/// The cache key of an attachment.
pub fn attachment_key(path: &str, filename: &str) -> (r: String)
    ensures
        r@ == spec_attachment_key(path@, filename@),
{
    let pc = chars_of(path);
    let fc = chars_of(filename);
    let h1 = fnv_fold(0xcbf29ce484222325, &pc);
    let h2 = (h1 ^ 0x1f).wrapping_mul(0x100000001b3);
    let h3 = fnv_fold(h2, &fc);
    let hex = u64_to_hex_chars(h3);
    string_from_chars(&hex)
}

/// The final path component: everything after the last `/`.
pub open spec fn last_component(s: Seq<char>) -> Seq<char>
    decreases s.len(),
{
    if s.len() == 0 {
        s
    } else if s.last() == '/' {
        Seq::empty()
    } else {
        last_component(s.drop_last()).push(s.last())
    }
}

/// The extension of a file name: the text after the last dot of its final
/// path component, provided a character precedes that dot.
pub open spec fn spec_ext_of(name: Seq<char>) -> Option<Seq<char>> {
    spec_ext_in(last_component(name))
}

/// The extension inside one path component.
pub open spec fn spec_ext_in(comp: Seq<char>) -> Option<Seq<char>>
    decreases comp.len(),
{
    if comp.len() <= 1 {
        None
    } else if comp.last() == '.' {
        Some(Seq::empty())
    } else {
        match spec_ext_in(comp.drop_last()) {
            Some(e) => Some(e.push(comp.last())),
            None => None,
        }
    }
}

fn component_of(s: &Vec<char>) -> (r: Vec<char>)
    ensures
        r@ == last_component(s@),
{
    let mut r: Vec<char> = Vec::new();
    let mut i: usize = 0;
    while i < s.len()
        invariant
            i <= s@.len(),
            r@ == last_component(s@.take(i as int)),
        decreases s@.len() - i,
    {
        proof {
            assert(s@.take(i as int + 1).last() == s@[i as int]);
            assert(s@.take(i as int + 1).drop_last() =~= s@.take(i as int));
        }
        if s[i] == '/' {
            r = Vec::new();
            proof {
                assert(r@ =~= last_component(s@.take(i as int + 1)));
            }
        } else {
            r.push(s[i]);
        }
        i = i + 1;
    }
    proof {
        assert(s@.take(s@.len() as int) =~= s@);
    }
    r
}

fn ext_in_component(comp: &Vec<char>) -> (r: Option<Vec<char>>)
    ensures
        match r {
            Some(e) => spec_ext_in(comp@) == Some(e@),
            None => spec_ext_in(comp@) is None,
        },
{
    let n = comp.len();
    if n <= 1 {
        return None;
    }
    let mut d: usize = n;
    let mut j: usize = n;
    while j > 0
        invariant_except_break
            0 <= j <= n,
            n == comp@.len(),
            d == n,
            forall|t: int| j <= t < n ==> comp@[t] != '.',
        ensures
            0 <= j <= n,
            n == comp@.len(),
            (d < n ==> (comp@[d as int] == '.' && (forall|t: int|
                d < t < n ==> comp@[t] != '.'))),
            (d == n ==> (forall|t: int| 0 <= t < n ==> comp@[t] != '.')),
            d <= n,
        decreases j,
    {
        if comp[j - 1] == '.' {
            d = j - 1;
            proof {
                assert(comp@[d as int] == '.');
            }
            break;
        }
        j = j - 1;
    }
    if d == n || d == 0 {
        proof {
            lemma_ext_none(comp@);
        }
        return None;
    }
    let mut e: Vec<char> = Vec::new();
    let mut k: usize = d + 1;
    while k < n
        invariant
            d + 1 <= k <= n,
            n == comp@.len(),
            e@ == comp@.subrange(d + 1, k as int),
        decreases n - k,
    {
        e.push(comp[k]);
        proof {
            assert(comp@.subrange(d + 1, k as int + 1) =~= comp@.subrange(d + 1, k as int).push(
                comp@[k as int],
            ));
        }
        k = k + 1;
    }
    proof {
        lemma_ext_at(comp@, d as int);
        assert(e@ =~= comp@.subrange(d + 1, n as int));
    }
    Some(e)
}

/// A component with no dot past its leading character has no extension.
proof fn lemma_ext_none(comp: Seq<char>)
    requires
        forall|t: int| 0 < t < comp.len() ==> comp[t] != '.',
    ensures
        spec_ext_in(comp) is None,
    decreases comp.len(),
{
    if comp.len() <= 1 {
    } else if comp.last() == '.' {
        assert(comp[comp.len() - 1] == '.');
    } else {
        let t = comp.drop_last();
        assert forall|j: int| 0 < j < t.len() implies t[j] != '.' by {
            assert(t[j] == comp[j]);
        }
        lemma_ext_none(t);
    }
}

/// The extension of a component whose last dot sits at `d > 0` is exactly
/// the text after that dot.
proof fn lemma_ext_at(comp: Seq<char>, d: int)
    requires
        0 < d < comp.len(),
        comp[d] == '.',
        forall|t: int| d < t < comp.len() ==> comp[t] != '.',
    ensures
        spec_ext_in(comp) == Some(comp.subrange(d + 1, comp.len() as int)),
    decreases comp.len(),
{
    if d == comp.len() - 1 {
        assert(comp.last() == '.');
        assert(comp.subrange(d + 1, comp.len() as int) =~= Seq::<char>::empty());
    } else {
        assert(comp.last() != '.');
        let t = comp.drop_last();
        assert(t[d] == comp[d]);
        lemma_ext_at(t, d);
        assert(t.subrange(d + 1, t.len() as int) =~= comp.subrange(d + 1, comp.len() - 1));
        assert(comp.subrange(d + 1, comp.len() - 1).push(comp.last()) =~= comp.subrange(
            d + 1,
            comp.len() as int,
        ));
    }
}

/// The attachment's file extension: the filename's, falling back to the
/// path's, falling back to `bin`.
pub open spec fn spec_attachment_ext(path: Seq<char>, filename: Seq<char>) -> Seq<char> {
    match spec_ext_of(filename) {
        Some(e) => e,
        None => match spec_ext_of(path) {
            Some(e) => e,
            None => "bin"@,
        },
    }
}

/// The attachment's file extension.
pub fn attachment_ext(path: &str, filename: &str) -> (r: String)
    ensures
        r@ == spec_attachment_ext(path@, filename@),
{
    let fc = chars_of(filename);
    let fcomp = component_of(&fc);
    match ext_in_component(&fcomp) {
        Some(e) => string_from_chars(&e),
        None => {
            let pc = chars_of(path);
            let pcomp = component_of(&pc);
            match ext_in_component(&pcomp) {
                Some(e) => string_from_chars(&e),
                None => String::from_str("bin"),
            }
        },
    }
}

/// Whether `s` starts with `p`.
pub open spec fn spec_starts_with(s: Seq<char>, p: Seq<char>) -> bool {
    s.len() >= p.len() && s.take(p.len() as int) == p
}

/// Whether `s` starts with `p`.
pub fn starts_with_chars(s: &Vec<char>, p: &Vec<char>) -> (r: bool)
    ensures
        r == spec_starts_with(s@, p@),
{
    if s.len() < p.len() {
        return false;
    }
    let mut i: usize = 0;
    while i < p.len()
        invariant
            i <= p@.len() <= s@.len(),
            forall|j: int| 0 <= j < i ==> s@[j] == p@[j],
        decreases p@.len() - i,
    {
        if s[i] != p[i] {
            proof {
                assert(s@.take(p@.len() as int)[i as int] != p@[i as int]);
            }
            return false;
        }
        i = i + 1;
    }
    proof {
        assert(s@.take(p@.len() as int) =~= p@);
    }
    true
}

/// The extensions rendered as images.
pub open spec fn image_ext(e: Seq<char>) -> bool {
    e == "png"@ || e == "jpg"@ || e == "jpeg"@ || e == "gif"@ || e == "heic"@ || e == "heif"@
        || e == "webp"@
}

/// Whether the attachment renders as an image: an `image/` media type, or an
/// image file extension.
pub open spec fn spec_attachment_is_image(a: Attachment) -> bool {
    spec_starts_with(a.mime_type@, "image/"@) || image_ext(
        spec_attachment_ext(a.original_path@, a.filename@),
    )
}

/// Whether the attachment renders as an image.
pub fn attachment_is_image(attachment: &Attachment) -> (r: bool)
    ensures
        r == spec_attachment_is_image(*attachment),
{
    let mc = chars_of(attachment.mime_type.as_str());
    let prefix = chars_of("image/");
    if starts_with_chars(&mc, &prefix) {
        return true;
    }
    let ext = attachment_ext(attachment.original_path.as_str(), attachment.filename.as_str());
    let e = ext.as_str();
    str_eq(e, "png") || str_eq(e, "jpg") || str_eq(e, "jpeg") || str_eq(e, "gif") || str_eq(
        e,
        "heic",
    ) || str_eq(e, "heif") || str_eq(e, "webp")
}

/// Where a local copy of the attachment lives: the cached path under the
/// attachment's key, else the original path when it exists on disk (the
/// caller reports whether it does).
pub fn cached_attachment_path(
    cache: &StrMap<String>,
    attachment: &Attachment,
    original_exists: bool,
) -> (r: Option<String>)
    ensures
        match cache.spec_get(
            spec_attachment_key(attachment.original_path@, attachment.filename@),
        ) {
            Some(p) => r matches Some(q) && q@ == p@,
            None => {
                if attachment.original_path@.len() > 0 && original_exists {
                    r matches Some(q) && q@ == attachment.original_path@
                } else {
                    r is None
                }
            },
        },
{
    let key = attachment_key(attachment.original_path.as_str(), attachment.filename.as_str());
    match cache.get(key.as_str()) {
        Some(p) => Some(p.clone()),
        None => {
            if !attachment.original_path.as_str().is_empty() && original_exists {
                Some(attachment.original_path.clone())
            } else {
                None
            }
        },
    }
}

/// A decoded base64 payload, if the text is valid standard base64.
pub uninterp spec fn base64_standard_decoded(s: Seq<char>) -> Option<Seq<u8>>;

/// The view of an optional byte buffer.
pub open spec fn opt_bytes_view(o: Option<Vec<u8>>) -> Option<Seq<u8>> {
    match o {
        Some(v) => Some(v@),
        None => None,
    }
}

/// Relies on base64's standard-alphabet engine: whether the text decodes,
/// and to which bytes, depends on the text alone.
#[verifier::external_body]
pub(crate) fn b64_decode(s: &str) -> (r: Option<Vec<u8>>)
    ensures
        opt_bytes_view(r) == base64_standard_decoded(s@),
{
    match base64::Engine::decode(&base64::engine::general_purpose::STANDARD, s) {
        Ok(v) => Some(v),
        Err(_) => None,
    }
}

} // verus!
