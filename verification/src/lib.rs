//! An append-only hash-chained ledger.
//!
//! A [`block::Block`] is one unit of ledger data, bound to its predecessor by
//! a content hash and sealed by a proof-of-work search. A
//! [`ledger::Blockchain`] is the ordered sequence of blocks; it enforces
//! linkage, sequence, integrity and proof-of-work on append, and can
//! re-verify the whole chain on demand.

pub mod block;
pub mod hashing;
pub mod ledger;
