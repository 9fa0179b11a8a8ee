//! A per-owner, per-title record store with deterministic addressing and
//! strict authorization.
//!
//! Each record (a [`note::Note`]) is identified by the pair of a human-chosen
//! title and an owning [`identity::Identity`]. The pair maps deterministically
//! to exactly one storage slot address ([`addressing`]), and only the owning
//! identity may create, update or delete the record bound to that address
//! ([`lifecycle`]). The store itself ([`store::Store`]) is an explicit mapping
//! from derived addresses to fully populated slots; every failure leaves it
//! untouched.

pub mod addressing;
pub mod bytes;
pub mod errors;
pub mod identity;
pub mod layout;
pub mod lifecycle;
pub mod note;
pub mod store;
