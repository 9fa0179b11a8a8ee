//! The keyed record store.
//!
//! An explicit mapping from derived addresses to live slots. A slot's
//! existence is binary: it is either absent or present with all of its
//! fields populated; the store never exposes a partially initialized slot.
//! The store's view is the sequence of its live slots, and `store_wf` pins
//! the store-wide invariants: no two live slots share an address, and every
//! stored note is within its field bounds.

use vstd::prelude::*;
use crate::addressing::{address_bytes, lemma_address_injective};
use crate::bytes::bytes_eq;
use crate::identity::Identity;
use crate::note::Note;

verus! {

/// One live slot: a fully populated note together with the storage deposit
/// that was charged when the slot was allocated.
pub struct Entry {
    pub note: Note,
    pub deposit: u64,
}

/// The derived address a live slot is keyed by.
pub open spec fn entry_addr(e: Entry) -> Seq<u8> {
    e.note.addr()
}

/// Whether some live slot is keyed by `addr`.
pub open spec fn has_slot(s: Seq<Entry>, addr: Seq<u8>) -> bool {
    exists|i: int| 0 <= i < s.len() && entry_addr(s[i]) == addr
}

/// The index of the live slot keyed by `addr`; meaningful when `has_slot`
/// holds and the addresses are unique.
pub open spec fn slot_index(s: Seq<Entry>, addr: Seq<u8>) -> int {
    choose|i: int| 0 <= i < s.len() && entry_addr(s[i]) == addr
}

/// The live slot keyed by `addr`.
pub open spec fn slot_at(s: Seq<Entry>, addr: Seq<u8>) -> Entry {
    s[slot_index(s, addr)]
}

/// No two live slots share an address: at most one live slot per
/// (owner, title) pair.
pub open spec fn unique_addrs(s: Seq<Entry>) -> bool {
    forall|i: int, j: int|
        0 <= i < j < s.len() ==> entry_addr(s[i]) != entry_addr(s[j])
}

/// Store-wide invariant: unique addresses and every note within bounds.
pub open spec fn store_wf(s: Seq<Entry>) -> bool {
    &&& unique_addrs(s)
    &&& forall|i: int| 0 <= i < s.len() ==> (#[trigger] s[i]).note.wf()
}

/// With unique addresses, the slot looked up at the address of entry `i` is
/// entry `i` itself.
pub proof fn lemma_slot_at_index(s: Seq<Entry>, i: int)
    requires
        unique_addrs(s),
        0 <= i < s.len(),
    ensures
        has_slot(s, entry_addr(s[i])),
        slot_index(s, entry_addr(s[i])) == i,
        slot_at(s, entry_addr(s[i])) == s[i],
{
    let a = entry_addr(s[i]);
    assert(has_slot(s, a));
    let j = slot_index(s, a);
    assert(0 <= j < s.len() && entry_addr(s[j]) == a);
    if i < j {
        assert(entry_addr(s[i]) != entry_addr(s[j]));
    } else if j < i {
        assert(entry_addr(s[j]) != entry_addr(s[i]));
    }
}

/// Appending a slot at a fresh address keeps addresses unique, makes exactly
/// that slot live, and changes nothing at any other address.
pub proof fn lemma_store_push(s: Seq<Entry>, e: Entry)
    requires
        unique_addrs(s),
        !has_slot(s, entry_addr(e)),
    ensures
        unique_addrs(s.push(e)),
        has_slot(s.push(e), entry_addr(e)),
        slot_at(s.push(e), entry_addr(e)) == e,
        forall|a: Seq<u8>|
            a != entry_addr(e) ==> (#[trigger] has_slot(s.push(e), a) <==> has_slot(s, a)),
        forall|a: Seq<u8>|
            a != entry_addr(e) && has_slot(s, a) ==> #[trigger] slot_at(s.push(e), a) == slot_at(s, a),
{
    let t = s.push(e);
    assert forall|i: int, j: int| 0 <= i < j < t.len() implies entry_addr(t[i]) != entry_addr(t[j]) by {
        if j < s.len() {
            assert(t[i] == s[i] && t[j] == s[j]);
        } else {
            assert(t[j] == e && t[i] == s[i]);
            if entry_addr(s[i]) == entry_addr(e) {
                assert(has_slot(s, entry_addr(e)));
            }
        }
    }
    assert(entry_addr(t[s.len() as int]) == entry_addr(e));
    assert(has_slot(t, entry_addr(e)));
    lemma_slot_at_index(t, s.len() as int);
    assert forall|a: Seq<u8>| a != entry_addr(e) implies
        (#[trigger] has_slot(t, a) <==> has_slot(s, a)) by {
        if has_slot(t, a) {
            let i = slot_index(t, a);
            assert(0 <= i < t.len() && entry_addr(t[i]) == a);
            assert(i < s.len());
            assert(entry_addr(s[i]) == a);
            assert(has_slot(s, a));
        }
        if has_slot(s, a) {
            let i = slot_index(s, a);
            assert(0 <= i < s.len() && entry_addr(s[i]) == a);
            assert(entry_addr(t[i]) == a);
            assert(has_slot(t, a));
        }
    }
    assert forall|a: Seq<u8>| a != entry_addr(e) && has_slot(s, a) implies
        #[trigger] slot_at(t, a) == slot_at(s, a) by {
        let i = slot_index(s, a);
        assert(0 <= i < s.len() && entry_addr(s[i]) == a);
        lemma_slot_at_index(s, i);
        assert(entry_addr(t[i]) == a);
        lemma_slot_at_index(t, i);
    }
}

/// Replacing the slot at index `i` by one with the same address keeps
/// addresses unique, and changes nothing at any other address.
pub proof fn lemma_store_update(s: Seq<Entry>, i: int, e: Entry)
    requires
        unique_addrs(s),
        0 <= i < s.len(),
        entry_addr(e) == entry_addr(s[i]),
    ensures
        unique_addrs(s.update(i, e)),
        has_slot(s.update(i, e), entry_addr(e)),
        slot_at(s.update(i, e), entry_addr(e)) == e,
        forall|a: Seq<u8>|
            a != entry_addr(e) ==> (#[trigger] has_slot(s.update(i, e), a) <==> has_slot(s, a)),
        forall|a: Seq<u8>|
            a != entry_addr(e) && has_slot(s, a) ==> #[trigger] slot_at(s.update(i, e), a) == slot_at(s, a),
{
    let t = s.update(i, e);
    assert forall|p: int, q: int| 0 <= p < q < t.len() implies entry_addr(t[p]) != entry_addr(t[q]) by {
        assert(entry_addr(t[p]) == entry_addr(s[p]));
        assert(entry_addr(t[q]) == entry_addr(s[q]));
    }
    assert(entry_addr(t[i]) == entry_addr(e));
    assert(has_slot(t, entry_addr(e)));
    lemma_slot_at_index(t, i);
    assert forall|a: Seq<u8>| a != entry_addr(e) implies
        (#[trigger] has_slot(t, a) <==> has_slot(s, a)) by {
        if has_slot(t, a) {
            let p = slot_index(t, a);
            assert(0 <= p < t.len() && entry_addr(t[p]) == a);
            assert(p != i);
            assert(entry_addr(s[p]) == a);
            assert(has_slot(s, a));
        }
        if has_slot(s, a) {
            let p = slot_index(s, a);
            assert(0 <= p < s.len() && entry_addr(s[p]) == a);
            assert(p != i);
            assert(entry_addr(t[p]) == a);
            assert(has_slot(t, a));
        }
    }
    assert forall|a: Seq<u8>| a != entry_addr(e) && has_slot(s, a) implies
        #[trigger] slot_at(t, a) == slot_at(s, a) by {
        let p = slot_index(s, a);
        assert(0 <= p < s.len() && entry_addr(s[p]) == a);
        lemma_slot_at_index(s, p);
        assert(p != i);
        assert(entry_addr(t[p]) == a);
        lemma_slot_at_index(t, p);
    }
}

/// Removing the slot at index `i` keeps addresses unique, leaves its address
/// absent, and changes nothing at any other address.
pub proof fn lemma_store_remove(s: Seq<Entry>, i: int)
    requires
        unique_addrs(s),
        0 <= i < s.len(),
    ensures
        s.remove(i).len() == s.len() - 1,
        unique_addrs(s.remove(i)),
        !has_slot(s.remove(i), entry_addr(s[i])),
        forall|a: Seq<u8>|
            a != entry_addr(s[i]) ==> (#[trigger] has_slot(s.remove(i), a) <==> has_slot(s, a)),
        forall|a: Seq<u8>|
            a != entry_addr(s[i]) && has_slot(s, a) ==> #[trigger] slot_at(s.remove(i), a) == slot_at(s, a),
{
    let t = s.remove(i);
    s.remove_ensures(i);
    assert forall|p: int, q: int| 0 <= p < q < t.len() implies entry_addr(t[p]) != entry_addr(t[q]) by {
        let p0: int = if p < i { p } else { p + 1 };
        let q0: int = if q < i { q } else { q + 1 };
        assert(t[p] == s[p0]);
        assert(t[q] == s[q0]);
        assert(p0 < q0);
    }
    assert forall|p: int| 0 <= p < t.len() implies entry_addr(t[p]) != entry_addr(s[i]) by {
        let p0: int = if p < i { p } else { p + 1 };
        assert(t[p] == s[p0]);
        if p0 < i {
            assert(entry_addr(s[p0]) != entry_addr(s[i]));
        } else {
            assert(entry_addr(s[i]) != entry_addr(s[p0]));
        }
    }
    if has_slot(t, entry_addr(s[i])) {
        let p = slot_index(t, entry_addr(s[i]));
        assert(0 <= p < t.len() && entry_addr(t[p]) == entry_addr(s[i]));
    }
    assert forall|a: Seq<u8>| a != entry_addr(s[i]) implies
        (#[trigger] has_slot(t, a) <==> has_slot(s, a)) by {
        if has_slot(t, a) {
            let p = slot_index(t, a);
            assert(0 <= p < t.len() && entry_addr(t[p]) == a);
            let p0: int = if p < i { p } else { p + 1 };
            assert(t[p] == s[p0]);
            assert(entry_addr(s[p0]) == a);
            assert(has_slot(s, a));
        }
        if has_slot(s, a) {
            let p0 = slot_index(s, a);
            assert(0 <= p0 < s.len() && entry_addr(s[p0]) == a);
            assert(p0 != i);
            let p: int = if p0 < i { p0 } else { p0 - 1 };
            assert(t[p] == s[p0]);
            assert(entry_addr(t[p]) == a);
            assert(has_slot(t, a));
        }
    }
    assert forall|a: Seq<u8>| a != entry_addr(s[i]) && has_slot(s, a) implies
        #[trigger] slot_at(t, a) == slot_at(s, a) by {
        let p0 = slot_index(s, a);
        assert(0 <= p0 < s.len() && entry_addr(s[p0]) == a);
        lemma_slot_at_index(s, p0);
        assert(p0 != i);
        let p: int = if p0 < i { p0 } else { p0 - 1 };
        assert(t[p] == s[p0]);
        assert(entry_addr(t[p]) == a);
        lemma_slot_at_index(t, p);
    }
}

/// The record store: the sequence of its live slots, keyed by derived
/// addresses.
pub struct Store {
    entries: Vec<Entry>,
}

impl View for Store {
    type V = Seq<Entry>;

    closed spec fn view(&self) -> Seq<Entry> {
        self.entries@
    }
}

impl Store {
    /// An empty store: no (owner, title) pair has a live slot.
    pub fn new() -> (r: Store)
        ensures
            r@ == Seq::<Entry>::empty(),
            store_wf(r@),
    {
        let r = Store { entries: Vec::new() };
        proof {
            assert(r@ =~= Seq::<Entry>::empty());
        }
        r
    }

    /// Number of live slots.
    pub fn len(&self) -> (r: usize)
        ensures
            r == self@.len(),
    {
        self.entries.len()
    }

    /// Looks up the index of the live slot whose note carries exactly this
    /// (title, owner) pair, that is, the slot keyed by the pair's derived
    /// address.
    pub fn find(&self, title: &Vec<u8>, owner: &Identity) -> (r: Option<usize>)
        requires
            store_wf(self@),
            owner.wf(),
        ensures
            r matches Some(i) ==> {
                &&& i < self@.len()
                &&& self@[i as int].note.title@ == title@
                &&& self@[i as int].note.owner@ == owner@
                &&& entry_addr(self@[i as int]) == address_bytes(title@, owner@)
                &&& slot_index(self@, address_bytes(title@, owner@)) == i as int
            },
            r is None ==> !has_slot(self@, address_bytes(title@, owner@)),
    {
        let ghost a = address_bytes(title@, owner@);
        let mut i: usize = 0;
        while i < self.entries.len()
            invariant
                store_wf(self@),
                owner.wf(),
                a == address_bytes(title@, owner@),
                i <= self@.len(),
                forall|j: int| 0 <= j < i ==> entry_addr(self@[j]) != a,
            decreases self@.len() - i,
        {
            let e = &self.entries[i];
            if bytes_eq(&e.note.title, title) && e.note.owner.same_as(owner) {
                proof {
                    assert(entry_addr(self@[i as int]) == a);
                    lemma_slot_at_index(self@, i as int);
                }
                return Some(i);
            }
            proof {
                if entry_addr(self@[i as int]) == a {
                    lemma_address_injective(
                        self@[i as int].note.title@,
                        self@[i as int].note.owner@,
                        title@,
                        owner@,
                    );
                }
            }
            i = i + 1;
        }
        proof {
            if has_slot(self@, a) {
                let j = slot_index(self@, a);
                assert(0 <= j < self@.len() && entry_addr(self@[j]) == a);
            }
        }
        None
    }

    /// A shared borrow of the slot at index `i`.
    pub fn entry_at(&self, i: usize) -> (r: &Entry)
        requires
            i < self@.len(),
        ensures
            *r == self@[i as int],
    {
        &self.entries[i]
    }

    /// Allocates a fresh slot holding `e`: the single atomic storage
    /// transition of a Create.
    pub fn push_entry(&mut self, e: Entry)
        ensures
            final(self)@ == old(self)@.push(e),
    {
        self.entries.push(e);
    }

    /// Replaces the message of the note in slot `i` in place; owner, title
    /// and deposit are untouched.
    pub fn set_message(&mut self, i: usize, message: Vec<u8>)
        requires
            i < old(self)@.len(),
        ensures
            final(self)@ == old(self)@.update(i as int, final(self)@[i as int]),
            final(self)@[i as int].note.message == message,
            final(self)@[i as int].note.owner == old(self)@[i as int].note.owner,
            final(self)@[i as int].note.title == old(self)@[i as int].note.title,
            final(self)@[i as int].deposit == old(self)@[i as int].deposit,
    {
        let slot = &mut self.entries[i];
        slot.note.message = message;
    }

    /// Reclaims the slot at index `i`, returning it so that its deposit can
    /// be refunded.
    pub fn remove_entry(&mut self, i: usize) -> (r: Entry)
        requires
            i < old(self)@.len(),
        ensures
            r == old(self)@[i as int],
            final(self)@ == old(self)@.remove(i as int),
    {
        self.entries.remove(i)
    }

    /// Reads the note stored for this (title, owner) pair, if its slot is
    /// live.
    pub fn get_note(&self, title: &Vec<u8>, owner: &Identity) -> (r: Option<&Note>)
        requires
            store_wf(self@),
            owner.wf(),
        ensures
            r is Some <==> has_slot(self@, address_bytes(title@, owner@)),
            r matches Some(n) ==> *n == slot_at(self@, address_bytes(title@, owner@)).note,
    {
        match self.find(title, owner) {
            Some(i) => Some(&self.entries[i].note),
            None => None,
        }
    }
}

} // verus!
