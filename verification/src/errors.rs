//! The failure taxonomy of the record store.

use vstd::prelude::*;

verus! {

/// Every lifecycle operation either fully commits or returns one of these
/// errors and leaves the store untouched; no error is retried internally.
#[derive(Clone, Copy, Debug, PartialEq, Eq, Structural)]
pub enum NoteError {
    /// Create found a live slot at the derived address.
    AlreadyExists,
    /// Update or Delete found no live slot at the derived address.
    NotFound,
    /// The caller is not the stored owner of the addressed slot.
    Unauthorized,
    /// A field exceeds its fixed byte bound.
    FieldTooLong,
    /// The payer cannot cover the storage deposit of a new slot.
    AllocationFailed,
}

} // verus!
