//! Fixed-width identities.
//!
//! An identity is a public-key-like value of exactly [`IDENTITY_LEN`] bytes.
//! The execution environment authenticates the caller identity of each
//! operation out of band; inside the core an `Identity` value stands for an
//! identity that has already been attested.

use vstd::prelude::*;
use crate::bytes::{bytes_eq, copy_bytes};

verus! {

/// Width in bytes of an identity value.
pub const IDENTITY_LEN: usize = 32;

/// A fixed-width, public-key-like identity.
pub struct Identity {
    bytes: Vec<u8>,
}

impl View for Identity {
    type V = Seq<u8>;

    closed spec fn view(&self) -> Seq<u8> {
        self.bytes@
    }
}

impl Identity {
    /// A well-formed identity holds exactly `IDENTITY_LEN` bytes.
    pub open spec fn wf(&self) -> bool {
        self@.len() == IDENTITY_LEN
    }

    /// Builds an identity from its bytes; rejects any width but `IDENTITY_LEN`.
    pub fn from_bytes(bytes: Vec<u8>) -> (r: Option<Identity>)
        ensures
            r is Some <==> bytes@.len() == IDENTITY_LEN,
            r matches Some(id) ==> id@ == bytes@ && id.wf(),
    {
        if bytes.len() == IDENTITY_LEN {
            Some(Identity { bytes })
        } else {
            None
        }
    }

    /// Builds an identity from bytes already known to have the exact width.
    pub fn from_exact(bytes: Vec<u8>) -> (r: Identity)
        requires
            bytes@.len() == IDENTITY_LEN,
        ensures
            r@ == bytes@,
            r.wf(),
    {
        Identity { bytes }
    }

    /// The identity's bytes.
    pub fn as_bytes(&self) -> (r: &Vec<u8>)
        ensures
            r@ == self@,
    {
        &self.bytes
    }

    /// Returns a fresh identity value equal to this one.
    pub fn duplicate(&self) -> (r: Identity)
        ensures
            r@ == self@,
    {
        Identity { bytes: copy_bytes(&self.bytes) }
    }

    /// Decides whether two identities are the same value.
    pub fn same_as(&self, other: &Identity) -> (r: bool)
        ensures
            r <==> self@ == other@,
    {
        bytes_eq(&self.bytes, &other.bytes)
    }
}

} // verus!
