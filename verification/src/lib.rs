//! A tiered, pooled number lottery run as a deterministic state machine.
//!
//! Users pay a tier's entry fee and pick a number. Once a tier's pool has
//! reached its threshold, the triggerer may draw the tier's lucky number from
//! a generator seeded with aggregated entropy. Winners share the pool, a
//! pool without winners rolls over into the next round, and the triggerer is
//! paid a fee per draw.
//!
//! Every entry point is one atomic transition over an explicit state value:
//! it either applies all of its effects or returns an error and leaves the
//! state as it was.
//!
//! - [`state`] holds the records and their mathematical models,
//! - [`round`] the transitions of a round and of a tier's ledger,
//! - [`entropy`] the derivation of the draw seed,
//! - [`viewing_key`] the credential that guards private reads,
//! - [`contract`] and [`query`] the entry points,
//! - [`laws`] what holds of all of them together,
//! - [`crypto`] the trusted calls into the cryptographic crates.

pub mod contract;
pub mod crypto;
pub mod encoding;
pub mod entropy;
pub mod error;
pub mod laws;
pub mod msg;
pub mod query;
pub mod round;
pub mod state;
pub mod viewing_key;

pub use msg::TierConfig;
