//! The sole entity of the store: a note with an owner, a title and a message.

use vstd::prelude::*;
use crate::addressing::address_bytes;
use crate::identity::Identity;

verus! {

/// Maximum byte length of a note's title.
pub const MAX_TITLE_LEN: usize = 50;

/// Maximum byte length of a note's message.
pub const MAX_MESSAGE_LEN: usize = 1000;

/// One record of the store.
///
/// `owner` and `title` are immutable after creation: the title is part of the
/// slot's derived address, and the owner is the identity that paid for and
/// authorized the creation. Only `message` is mutable, and only by `owner`.
pub struct Note {
    pub owner: Identity,
    pub title: Vec<u8>,
    pub message: Vec<u8>,
}

impl Note {
    /// Field bounds that hold of every stored note at all times.
    pub open spec fn wf(&self) -> bool {
        &&& self.owner.wf()
        &&& self.title@.len() <= MAX_TITLE_LEN
        &&& self.message@.len() <= MAX_MESSAGE_LEN
    }

    /// The derived address of the slot this note lives in.
    pub open spec fn addr(&self) -> Seq<u8> {
        address_bytes(self.title@, self.owner@)
    }
}

} // verus!
