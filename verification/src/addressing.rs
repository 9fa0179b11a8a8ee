//! The address deriver.
//!
//! A slot address is derived from exactly the pair (title bytes, owner
//! bytes): the title followed by the fixed-width owner identity. Because the
//! owner part has a fixed width, distinct pairs always derive distinct
//! addresses, which is what makes one slot per (owner, title) pair an
//! invariant of the whole store.

use vstd::prelude::*;
use crate::bytes::{append_bytes, copy_bytes};
use crate::errors::NoteError;
use crate::identity::{Identity, IDENTITY_LEN};
use crate::note::MAX_TITLE_LEN;

verus! {

/// The address derived from a (title, owner) pair: the title bytes followed
/// by the `IDENTITY_LEN` owner bytes.
pub open spec fn address_bytes(title: Seq<u8>, owner: Seq<u8>) -> Seq<u8> {
    title + owner
}

/// A derived slot address.
pub struct Address {
    pub bytes: Vec<u8>,
}

/// Derives the unique slot address of a (title, owner) pair.
///
/// Pure and deterministic: the result is exactly `address_bytes` of the
/// inputs. The only failure mode is rejection of a title over
/// `MAX_TITLE_LEN` bytes.
pub fn derive_address(title: &Vec<u8>, owner: &Identity) -> (r: Result<Address, NoteError>)
    requires
        owner.wf(),
    ensures
        r is Ok <==> title@.len() <= MAX_TITLE_LEN,
        r matches Ok(a) ==> a.bytes@ == address_bytes(title@, owner@),
        r matches Err(e) ==> e == NoteError::FieldTooLong,
{
    if title.len() > MAX_TITLE_LEN {
        Err(NoteError::FieldTooLong)
    } else {
        let mut bytes = copy_bytes(title);
        append_bytes(&mut bytes, owner.as_bytes());
        Ok(Address { bytes })
    }
}

/// Law: address derivation is injective. Two (title, owner) pairs that derive
/// the same address are the same pair.
pub proof fn lemma_address_injective(t1: Seq<u8>, o1: Seq<u8>, t2: Seq<u8>, o2: Seq<u8>)
    requires
        o1.len() == IDENTITY_LEN,
        o2.len() == IDENTITY_LEN,
        address_bytes(t1, o1) == address_bytes(t2, o2),
    ensures
        t1 == t2,
        o1 == o2,
{
    let a = address_bytes(t1, o1);
    assert((t1 + o1).len() == t1.len() + o1.len());
    assert((t2 + o2).len() == t2.len() + o2.len());
    assert(t1.len() == t2.len());
    assert forall|k: int| 0 <= k < t1.len() implies t1[k] == t2[k] by {
        assert(a[k] == t1[k]);
        assert(address_bytes(t2, o2)[k] == t2[k]);
    }
    assert(t1 =~= t2);
    assert forall|k: int| 0 <= k < o1.len() implies o1[k] == o2[k] by {
        assert(a[t1.len() + k] == o1[k]);
        assert(address_bytes(t2, o2)[t2.len() + k] == o2[k]);
    }
    assert(o1 =~= o2);
}

/// Law: distinct (title, owner) pairs derive distinct addresses.
/// In particular, for one title and two different identities the two derived
/// addresses differ.
pub proof fn lemma_derive_unique(t1: Seq<u8>, o1: Seq<u8>, t2: Seq<u8>, o2: Seq<u8>)
    requires
        o1.len() == IDENTITY_LEN,
        o2.len() == IDENTITY_LEN,
        t1 != t2 || o1 != o2,
    ensures
        address_bytes(t1, o1) != address_bytes(t2, o2),
{
    if address_bytes(t1, o1) == address_bytes(t2, o2) {
        lemma_address_injective(t1, o1, t2, o2);
    }
}

/// Law: the derived address is a function of the (title, owner)
/// pair alone. Two derivations from identical inputs yield identical output.
pub proof fn lemma_derive_deterministic(t: Seq<u8>, o: Seq<u8>, a1: Seq<u8>, a2: Seq<u8>)
    requires
        a1 == address_bytes(t, o),
        a2 == address_bytes(t, o),
    ensures
        a1 == a2,
{
}

} // verus!
