//! An append-and-vote record store with deterministic addressing.
//!
//! A creator registers a poll with a fixed question and a bounded set of
//! options; arbitrary participants each cast exactly one vote, and tallies
//! are kept consistent with the set of vote records.  Storage addresses are
//! derived deterministically from a namespace tag and the logical key
//! components, so that a record can be created at most once per logical key.

pub mod address;
pub mod errors;
pub mod records;
pub mod store;
