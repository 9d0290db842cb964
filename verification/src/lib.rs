//! Proof-gated survey rewards with cross-chain settlement.
//!
//! The crate holds the rules of a survey reward platform: single-use,
//! time-bounded authorisation proofs signed by registered managers, the
//! survey ledger that accounts for rewards, and the two-phase correlation of
//! outbound transfers with their later callbacks.

pub mod error;
pub mod table;
pub mod order;
pub mod state;
pub mod helpers;
pub mod ledger;
pub mod ibc_lifecycle;
pub mod msg;
