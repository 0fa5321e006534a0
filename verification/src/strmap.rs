//! A string-keyed association table with at most one entry per key, used for
//! the pending-request table, the contact book and the attachment caches.
//! Lookups scan from the front; `insert` removes any existing entry first,
//! so keys stay pairwise distinct.

use vstd::prelude::*;
use crate::textops::str_eq;

verus! {

/// The value under `key`, scanning from the front.
pub open spec fn spec_find<V>(s: Seq<(String, V)>, key: Seq<char>) -> Option<V>
    decreases s.len(),
{
    if s.len() == 0 {
        None
    } else if s[0].0@ == key {
        Some(s[0].1)
    } else {
        spec_find(s.drop_first(), key)
    }
}

/// Keys are pairwise distinct.
pub open spec fn distinct_keys<V>(s: Seq<(String, V)>) -> bool {
    forall|i: int, j: int| 0 <= i < j < s.len() ==> s[i].0@ != s[j].0@
}

/// A key is absent exactly when no entry carries it.
proof fn lemma_find_none<V>(s: Seq<(String, V)>, key: Seq<char>)
    ensures
        spec_find(s, key) is None <==> (forall|i: int| 0 <= i < s.len() ==> s[i].0@ != key),
    decreases s.len(),
{
    if s.len() > 0 {
        lemma_find_none(s.drop_first(), key);
        if s[0].0@ != key {
            assert forall|i: int| 0 <= i < s.len() && spec_find(s, key) is None implies s[i].0@
                != key by {
                if i > 0 {
                    assert(s.drop_first()[i - 1] == s[i]);
                }
            }
            if forall|i: int| 0 <= i < s.len() ==> s[i].0@ != key {
                assert forall|i: int| 0 <= i < s.drop_first().len() implies s.drop_first()[i].0@
                    != key by {
                    assert(s.drop_first()[i] == s[i + 1]);
                }
            }
        }
    }
}

/// The first match found by a scan is the find result.
proof fn lemma_find_at<V>(s: Seq<(String, V)>, key: Seq<char>, i: int)
    requires
        0 <= i < s.len(),
        s[i].0@ == key,
        forall|j: int| 0 <= j < i ==> s[j].0@ != key,
    ensures
        spec_find(s, key) == Some(s[i].1),
    decreases i,
{
    if i > 0 {
        assert forall|j: int| 0 <= j < i - 1 implies s.drop_first()[j].0@ != key by {
            assert(s.drop_first()[j] == s[j + 1]);
        }
        assert(s.drop_first()[i - 1] == s[i]);
        lemma_find_at(s.drop_first(), key, i - 1);
    }
}

/// Removing one entry leaves every other key's find result unchanged, and
/// leaves the removed key absent when keys were distinct.
proof fn lemma_find_remove<V>(s: Seq<(String, V)>, key: Seq<char>, i: int, k2: Seq<char>)
    requires
        0 <= i < s.len(),
        s[i].0@ == key,
        distinct_keys(s),
        k2 != key,
    ensures
        spec_find(s.remove(i), k2) == spec_find(s, k2),
        spec_find(s.remove(i), key) is None,
        distinct_keys(s.remove(i)),
    decreases i,
{
    let t = s.remove(i);
    assert(t.len() == s.len() - 1);
    assert(forall|j: int| 0 <= j < i ==> t[j] == s[j]);
    assert(forall|j: int| i <= j < t.len() ==> t[j] == s[j + 1]);
    assert forall|a: int, b: int| 0 <= a < b < t.len() implies t[a].0@ != t[b].0@ by {
        let sa = if a < i { a } else { a + 1 };
        let sb = if b < i { b } else { b + 1 };
        assert(t[a] == s[sa]);
        assert(t[b] == s[sb]);
    }
    assert forall|j: int| 0 <= j < t.len() implies t[j].0@ != key by {
        let sj = if j < i { j } else { j + 1 };
        assert(t[j] == s[sj]);
    }
    lemma_find_none(t, key);
    if i == 0 {
        assert(t =~= s.drop_first());
    } else {
        assert(s[0].0@ != key);
        assert(t[0] == s[0]);
        if s[0].0@ == k2 {
            assert(spec_find(s, k2) == Some(s[0].1));
            assert(spec_find(t, k2) == Some(t[0].1));
        } else {
            assert forall|a: int, b: int|
                0 <= a < b < s.drop_first().len() implies s.drop_first()[a].0@
                != s.drop_first()[b].0@ by {
                assert(s.drop_first()[a] == s[a + 1]);
                assert(s.drop_first()[b] == s[b + 1]);
            }
            assert(s.drop_first()[i - 1] == s[i]);
            lemma_find_remove(s.drop_first(), key, i - 1, k2);
            assert(t.drop_first() =~= s.drop_first().remove(i - 1));
        }
    }
}

/// A string-keyed table with at most one entry per key.
pub struct StrMap<V> {
    pub entries: Vec<(String, V)>,
}

impl<V> StrMap<V> {
    /// The association view of the table.
    pub open spec fn view(&self) -> Seq<(String, V)> {
        self.entries@
    }

    pub open spec fn wf(&self) -> bool {
        distinct_keys(self@)
    }

    pub open spec fn spec_get(&self, key: Seq<char>) -> Option<V> {
        spec_find(self@, key)
    }

    pub open spec fn spec_contains(&self, key: Seq<char>) -> bool {
        self.spec_get(key) is Some
    }

    pub fn new() -> (r: StrMap<V>)
        ensures
            r.wf(),
            r@ == Seq::<(String, V)>::empty(),
            forall|k: Seq<char>| r.spec_get(k) is None,
    {
        let r = StrMap { entries: Vec::new() };
        proof {
            assert forall|k: Seq<char>| r.spec_get(k) is None by {
                lemma_find_none(r@, k);
            }
        }
        r
    }

    pub fn len(&self) -> (r: usize)
        ensures
            r == self@.len(),
    {
        self.entries.len()
    }

    pub fn is_empty(&self) -> (r: bool)
        ensures
            r == (self@.len() == 0),
    {
        self.entries.len() == 0
    }

    /// A reference to the value under `key`, if present.
    pub fn get(&self, key: &str) -> (r: Option<&V>)
        ensures
            match r {
                Some(v) => self.spec_get(key@) == Some(*v),
                None => self.spec_get(key@) is None,
            },
    {
        let mut i: usize = 0;
        while i < self.entries.len()
            invariant
                i <= self@.len(),
                forall|j: int| 0 <= j < i ==> self@[j].0@ != key@,
            decreases self@.len() - i,
        {
            if str_eq(self.entries[i].0.as_str(), key) {
                proof {
                    lemma_find_at(self@, key@, i as int);
                }
                return Some(&self.entries[i].1);
            }
            i = i + 1;
        }
        proof {
            lemma_find_none(self@, key@);
        }
        None
    }

    /// Whether an entry under `key` exists.
    pub fn contains(&self, key: &str) -> (r: bool)
        ensures
            r == self.spec_contains(key@),
    {
        match self.get(key) {
            Some(_) => true,
            None => false,
        }
    }

    /// Removes and returns the entry under `key`, if present.  Every other
    /// key's entry is untouched.
    pub fn remove(&mut self, key: &str) -> (r: Option<V>)
        requires
            old(self).wf(),
        ensures
            final(self).wf(),
            r == old(self).spec_get(key@),
            final(self).spec_get(key@) is None,
            forall|k2: Seq<char>| k2 != key@ ==> final(self).spec_get(k2) == old(self).spec_get(
                k2,
            ),
            final(self)@.len() == if r is Some {
                old(self)@.len() - 1
            } else {
                old(self)@.len() as int
            },
            r is None ==> *final(self) == *old(self),
    {
        let mut i: usize = 0;
        while i < self.entries.len()
            invariant
                self == old(self),
                self.wf(),
                i <= self@.len(),
                forall|j: int| 0 <= j < i ==> self@[j].0@ != key@,
            decreases self@.len() - i,
        {
            if str_eq(self.entries[i].0.as_str(), key) {
                proof {
                    lemma_find_at(self@, key@, i as int);
                    assert forall|k2: Seq<char>| k2 != key@ implies spec_find(
                        self@.remove(i as int),
                        k2,
                    ) == spec_find(self@, k2) by {
                        lemma_find_remove(self@, key@, i as int, k2);
                    }
                    assert(key@.push(' ').len() == key@.len() + 1);
                    assert(key@.push(' ') != key@);
                    lemma_find_remove(self@, key@, i as int, key@.push(' '));
                }
                let (_, v) = self.entries.remove(i);
                return Some(v);
            }
            i = i + 1;
        }
        proof {
            lemma_find_none(self@, key@);
        }
        None
    }

    /// Inserts `value` under `key`, replacing any existing entry.  Every
    /// other key's entry is untouched.
    pub fn insert(&mut self, key: String, value: V)
        requires
            old(self).wf(),
        ensures
            final(self).wf(),
            final(self).spec_get(key@) == Some(value),
            forall|k2: Seq<char>| k2 != key@ ==> final(self).spec_get(k2) == old(self).spec_get(
                k2,
            ),
    {
        let removed = self.remove(key.as_str());
        proof {
            lemma_find_none(self@, key@);
        }
        let ghost mid = self@;
        self.entries.insert(0, (key, value));
        proof {
            assert(self@[0].1 == value);
            assert(self@.drop_first() =~= mid);
            assert(spec_find(self@, key@) == Some(value));
            assert forall|k2: Seq<char>| k2 != key@ implies spec_find(self@, k2) == spec_find(
                mid,
                k2,
            ) by {
                assert(self@[0].0@ == key@);
                assert(spec_find(self@, k2) == spec_find(self@.drop_first(), k2));
            }
            assert forall|a: int, b: int| 0 <= a < b < self@.len() implies self@[a].0@
                != self@[b].0@ by {
                if a == 0 {
                    assert(self@[b] == mid[b - 1]);
                } else {
                    assert(self@[a] == mid[a - 1]);
                    assert(self@[b] == mid[b - 1]);
                }
            }
        }
    }

    /// Drops every entry.
    pub fn clear(&mut self)
        ensures
            final(self).wf(),
            final(self)@.len() == 0,
            forall|k: Seq<char>| final(self).spec_get(k) is None,
    {
        self.entries.clear();
        proof {
            assert forall|k: Seq<char>| final(self).spec_get(k) is None by {
                lemma_find_none(self@, k);
            }
        }
    }
}

} // verus!
