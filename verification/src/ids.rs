//! Request identifier generation: a monotonically increasing counter owned by
//! the session, rendered as a decimal string.  Identifiers are never reused
//! within one generator's lifetime, in particular not across reconnects.

use vstd::prelude::*;
use crate::textops::{dec_digits, dec_string, lemma_dec_digits_injective};

verus! {

/// Generator of wire identifiers.  The ghost `issued` sequence records every
/// counter value that has been handed out, in order.
pub struct IdGen {
    pub counter: u64,
    pub issued: Ghost<Seq<u64>>,
}

impl IdGen {
    /// All issued values are strictly increasing and below the counter.
    pub open spec fn wf(self) -> bool {
        &&& forall|i: int| 0 <= i < self.issued@.len() ==> self.issued@[i] < self.counter
        &&& forall|i: int, j: int|
            0 <= i < j < self.issued@.len() ==> self.issued@[i] < self.issued@[j]
    }

    pub open spec fn issued_ids(self) -> Seq<u64> {
        self.issued@
    }

    pub open spec fn spec_counter(self) -> u64 {
        self.counter
    }

    pub fn new() -> (r: IdGen)
        ensures
            r.wf(),
            r.issued_ids() == Seq::<u64>::empty(),
            r.spec_counter() == 0,
    {
        IdGen { counter: 0, issued: Ghost(Seq::empty()) }
    }

    /// Returns a fresh identifier: the decimal rendering of the current
    /// counter value, which is then incremented.
    pub fn next_id(&mut self) -> (id: String)
        requires
            old(self).wf(),
            old(self).spec_counter() < u64::MAX,
        ensures
            final(self).wf(),
            id@ == dec_digits(old(self).spec_counter() as nat),
            final(self).issued_ids() == old(self).issued_ids().push(old(self).spec_counter()),
            final(self).spec_counter() == old(self).spec_counter() + 1,
    {
        let id = dec_string(self.counter);
        proof {
            self.issued@ = self.issued@.push(self.counter);
        }
        self.counter = self.counter + 1;
        id
    }
}

/// Identifier uniqueness: every pair of identifiers handed out by one
/// generator renders to a distinct string, however many were issued and
/// whatever happened to the rest of the session in between.
pub proof fn lemma_identifiers_unique(g: IdGen)
    requires
        g.wf(),
    ensures
        forall|i: int, j: int|
            0 <= i < j < g.issued_ids().len() ==> dec_digits(g.issued_ids()[i] as nat) != dec_digits(
                g.issued_ids()[j] as nat,
            ),
{
    assert forall|i: int, j: int|
        0 <= i < j < g.issued_ids().len() implies dec_digits(g.issued_ids()[i] as nat)
        != dec_digits(g.issued_ids()[j] as nat) by {
        if dec_digits(g.issued_ids()[i] as nat) == dec_digits(g.issued_ids()[j] as nat) {
            lemma_dec_digits_injective(g.issued_ids()[i] as nat, g.issued_ids()[j] as nat);
        }
    }
}

} // verus!
