//! Client-side access layer for a partitioned, replicated key-value store
//! whose values are conflict-free replicated data types (lattices).
//!
//! The crate models the client core without any I/O: lattice values and their
//! merge laws, wire message types, the address-resolution caches, the
//! request/response correlation tables, the client facade steps and the
//! read-committed transaction layer.  A caller (an async runtime wrapper)
//! drives the core by sending the requests it builds and feeding back the
//! frames it receives.

pub mod assoc;
pub mod cache;
pub mod client;
pub mod codec;
pub mod convert;
pub mod correlator;
pub mod errors;
pub mod lattice;
pub mod messages;
pub mod redis_like;
pub mod topics;
pub mod transaction;
