//! The lifecycle operations: Create, Update, Delete.
//!
//! Each operation validates its inputs and the addressed slot, then issues
//! exactly one storage transition. Every failure is detected before any
//! mutation: a failed operation returns its error and leaves the store
//! exactly as it was. Per (owner, title) pair the slot moves between two
//! states only: absent and present-with-fields-fully-populated.

use vstd::prelude::*;
use crate::addressing::address_bytes;
use crate::bytes::copy_bytes;
use crate::errors::NoteError;
use crate::identity::Identity;
use crate::note::{Note, MAX_MESSAGE_LEN, MAX_TITLE_LEN};
use crate::store::{
    entry_addr, has_slot, lemma_store_push, lemma_store_remove, lemma_store_update, slot_at,
    store_wf, Entry, Store,
};

verus! {

/// The fixed storage deposit charged when a slot is allocated: one unit per
/// byte of the slot's fixed capacity (the owner identity, two length
/// prefixes, and the bounded title and message).
pub const SLOT_DEPOSIT: u64 = 32 + 4 + 50 + 4 + 1000;

/// A refund issued when a slot is reclaimed: the slot's deposit, owed to the
/// stored owner and to nobody else.
pub struct Refund {
    pub to: Identity,
    pub amount: u64,
}

/// The error a Create returns, or `None` when it must succeed.
pub open spec fn create_error(
    s: Seq<Entry>,
    title: Seq<u8>,
    message: Seq<u8>,
    caller: Seq<u8>,
    funds: u64,
) -> Option<NoteError> {
    if title.len() > MAX_TITLE_LEN || message.len() > MAX_MESSAGE_LEN {
        Some(NoteError::FieldTooLong)
    } else if has_slot(s, address_bytes(title, caller)) {
        Some(NoteError::AlreadyExists)
    } else if funds < SLOT_DEPOSIT {
        Some(NoteError::AllocationFailed)
    } else {
        None
    }
}

/// The error an Update returns, or `None` when it must succeed.
pub open spec fn update_error(
    s: Seq<Entry>,
    title: Seq<u8>,
    owner: Seq<u8>,
    message: Seq<u8>,
    caller: Seq<u8>,
) -> Option<NoteError> {
    if title.len() > MAX_TITLE_LEN || message.len() > MAX_MESSAGE_LEN {
        Some(NoteError::FieldTooLong)
    } else if !has_slot(s, address_bytes(title, owner)) {
        Some(NoteError::NotFound)
    } else if slot_at(s, address_bytes(title, owner)).note.owner@ != caller {
        Some(NoteError::Unauthorized)
    } else {
        None
    }
}

/// The error a Delete returns, or `None` when it must succeed.
pub open spec fn delete_error(
    s: Seq<Entry>,
    title: Seq<u8>,
    owner: Seq<u8>,
    caller: Seq<u8>,
) -> Option<NoteError> {
    if title.len() > MAX_TITLE_LEN {
        Some(NoteError::FieldTooLong)
    } else if !has_slot(s, address_bytes(title, owner)) {
        Some(NoteError::NotFound)
    } else if slot_at(s, address_bytes(title, owner)).note.owner@ != caller {
        Some(NoteError::Unauthorized)
    } else {
        None
    }
}

/// Create: validates the field bounds, derives the slot address from
/// (title, caller), requires that slot to be absent, charges the caller the
/// fixed deposit out of `funds`, and populates the new slot in one atomic
/// transition with `owner = caller`. Returns the caller's remaining funds.
pub fn create_note(
    store: &mut Store,
    title: &Vec<u8>,
    message: &Vec<u8>,
    caller: &Identity,
    funds: u64,
) -> (r: Result<u64, NoteError>)
    requires
        store_wf(old(store)@),
        caller.wf(),
    ensures
        store_wf(final(store)@),
        r is Ok <==> create_error(old(store)@, title@, message@, caller@, funds) is None,
        r matches Err(e) ==> Some(e) == create_error(old(store)@, title@, message@, caller@, funds),
        r is Err ==> final(store)@ == old(store)@,
        r matches Ok(rest) ==> rest == funds - SLOT_DEPOSIT,
        r is Ok ==> ({
            let a = address_bytes(title@, caller@);
            &&& final(store)@.len() == old(store)@.len() + 1
            &&& has_slot(final(store)@, a)
            &&& slot_at(final(store)@, a).note.owner@ == caller@
            &&& slot_at(final(store)@, a).note.title@ == title@
            &&& slot_at(final(store)@, a).note.message@ == message@
            &&& slot_at(final(store)@, a).deposit == SLOT_DEPOSIT
            &&& forall|b: Seq<u8>|
                b != a ==> (#[trigger] has_slot(final(store)@, b) <==> has_slot(old(store)@, b))
            &&& forall|b: Seq<u8>|
                b != a && has_slot(old(store)@, b)
                    ==> #[trigger] slot_at(final(store)@, b) == slot_at(old(store)@, b)
        }),
{
    if title.len() > MAX_TITLE_LEN || message.len() > MAX_MESSAGE_LEN {
        return Err(NoteError::FieldTooLong);
    }
    match store.find(title, caller) {
        Some(_) => Err(NoteError::AlreadyExists),
        None => {
            if funds < SLOT_DEPOSIT {
                Err(NoteError::AllocationFailed)
            } else {
                let note = Note {
                    owner: caller.duplicate(),
                    title: copy_bytes(title),
                    message: copy_bytes(message),
                };
                let e = Entry { note, deposit: SLOT_DEPOSIT };
                proof {
                    assert(entry_addr(e) == address_bytes(title@, caller@));
                    lemma_store_push(store@, e);
                }
                store.push_entry(e);
                proof {
                    assert forall|i: int| 0 <= i < store@.len() implies
                        (#[trigger] store@[i]).note.wf() by {
                        if i < old(store)@.len() {
                            assert(store@[i] == old(store)@[i]);
                        }
                    }
                }
                Ok(funds - SLOT_DEPOSIT)
            }
        }
    }
}

/// Update: validates the new message's bound, requires a live slot at the
/// address derived from (title, owner), and requires the attested caller to
/// equal the slot's stored owner. Replaces the message in place; owner,
/// title and deposit are untouched. The title parameter only addresses the
/// slot: a title can never change, since it is part of the address.
pub fn update_note(
    store: &mut Store,
    title: &Vec<u8>,
    owner: &Identity,
    message: &Vec<u8>,
    caller: &Identity,
) -> (r: Result<(), NoteError>)
    requires
        store_wf(old(store)@),
        owner.wf(),
        caller.wf(),
    ensures
        store_wf(final(store)@),
        r is Ok <==> update_error(old(store)@, title@, owner@, message@, caller@) is None,
        r matches Err(e) ==> Some(e) == update_error(old(store)@, title@, owner@, message@, caller@),
        r is Err ==> final(store)@ == old(store)@,
        r is Ok ==> ({
            let a = address_bytes(title@, owner@);
            &&& final(store)@.len() == old(store)@.len()
            &&& has_slot(final(store)@, a)
            &&& slot_at(final(store)@, a).note.owner == slot_at(old(store)@, a).note.owner
            &&& slot_at(final(store)@, a).note.title == slot_at(old(store)@, a).note.title
            &&& slot_at(final(store)@, a).note.message@ == message@
            &&& slot_at(final(store)@, a).deposit == slot_at(old(store)@, a).deposit
            &&& forall|b: Seq<u8>|
                b != a ==> (#[trigger] has_slot(final(store)@, b) <==> has_slot(old(store)@, b))
            &&& forall|b: Seq<u8>|
                b != a && has_slot(old(store)@, b)
                    ==> #[trigger] slot_at(final(store)@, b) == slot_at(old(store)@, b)
        }),
{
    if title.len() > MAX_TITLE_LEN || message.len() > MAX_MESSAGE_LEN {
        return Err(NoteError::FieldTooLong);
    }
    match store.find(title, owner) {
        None => Err(NoteError::NotFound),
        Some(i) => {
            if !store.entry_at(i).note.owner.same_as(caller) {
                Err(NoteError::Unauthorized)
            } else {
                store.set_message(i, copy_bytes(message));
                proof {
                    let e2 = store@[i as int];
                    assert(entry_addr(e2) == entry_addr(old(store)@[i as int]));
                    lemma_store_update(old(store)@, i as int, e2);
                    assert forall|k: int| 0 <= k < store@.len() implies
                        (#[trigger] store@[k]).note.wf() by {
                        if k != i {
                            assert(store@[k] == old(store)@[k]);
                        }
                    }
                }
                Ok(())
            }
        }
    }
}

/// Delete: requires a live slot at the address derived from (title, owner)
/// and requires the attested caller to equal the slot's stored owner.
/// Reclaims the slot — the pair returns to the absent state and may be
/// recreated — and issues the refund of the slot's deposit to the stored
/// owner, never to an address of the caller's choosing.
pub fn delete_note(
    store: &mut Store,
    title: &Vec<u8>,
    owner: &Identity,
    caller: &Identity,
) -> (r: Result<Refund, NoteError>)
    requires
        store_wf(old(store)@),
        owner.wf(),
        caller.wf(),
    ensures
        store_wf(final(store)@),
        r is Ok <==> delete_error(old(store)@, title@, owner@, caller@) is None,
        r matches Err(e) ==> Some(e) == delete_error(old(store)@, title@, owner@, caller@),
        r is Err ==> final(store)@ == old(store)@,
        r matches Ok(refund) ==> ({
            let a = address_bytes(title@, owner@);
            &&& refund.to@ == slot_at(old(store)@, a).note.owner@
            &&& refund.to@ == owner@
            &&& refund.amount == slot_at(old(store)@, a).deposit
            &&& final(store)@.len() == old(store)@.len() - 1
            &&& !has_slot(final(store)@, a)
            &&& forall|b: Seq<u8>|
                b != a ==> (#[trigger] has_slot(final(store)@, b) <==> has_slot(old(store)@, b))
            &&& forall|b: Seq<u8>|
                b != a && has_slot(old(store)@, b)
                    ==> #[trigger] slot_at(final(store)@, b) == slot_at(old(store)@, b)
        }),
{
    if title.len() > MAX_TITLE_LEN {
        return Err(NoteError::FieldTooLong);
    }
    match store.find(title, owner) {
        None => Err(NoteError::NotFound),
        Some(i) => {
            if !store.entry_at(i).note.owner.same_as(caller) {
                Err(NoteError::Unauthorized)
            } else {
                proof {
                    lemma_store_remove(store@, i as int);
                }
                let e = store.remove_entry(i);
                proof {
                    assert forall|k: int| 0 <= k < store@.len() implies
                        (#[trigger] store@[k]).note.wf() by {
                        old(store)@.remove_ensures(i as int);
                    }
                }
                Ok(Refund { to: e.note.owner, amount: e.deposit })
            }
        }
    }
}

/// Law: deleting a pair whose slot is absent fails with
/// `NotFound`, and since a failed delete leaves the store untouched (an
/// `ensures` of `delete_note`), deleting the same pair again — with no
/// intervening create — fails with `NotFound` too; the pair stays absent
/// throughout.
pub proof fn lemma_delete_absent_idempotent(
    s: Seq<Entry>,
    title: Seq<u8>,
    owner: Seq<u8>,
    caller: Seq<u8>,
)
    requires
        title.len() <= MAX_TITLE_LEN,
        !has_slot(s, address_bytes(title, owner)),
    ensures
        delete_error(s, title, owner, caller) == Some(NoteError::NotFound),
        !has_slot(s, address_bytes(title, owner)),
{
}

/// Law: an update or delete whose attested caller is not the
/// stored owner of the addressed slot fails with `Unauthorized`; by the
/// operations' contracts every failed operation leaves all stored fields
/// unchanged.
pub proof fn lemma_non_owner_rejected(
    s: Seq<Entry>,
    title: Seq<u8>,
    owner: Seq<u8>,
    message: Seq<u8>,
    caller: Seq<u8>,
)
    requires
        title.len() <= MAX_TITLE_LEN,
        message.len() <= MAX_MESSAGE_LEN,
        has_slot(s, address_bytes(title, owner)),
        slot_at(s, address_bytes(title, owner)).note.owner@ != caller,
    ensures
        update_error(s, title, owner, message, caller) == Some(NoteError::Unauthorized),
        delete_error(s, title, owner, caller) == Some(NoteError::Unauthorized),
{
}

} // verus!
