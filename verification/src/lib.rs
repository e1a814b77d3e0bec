//! Stake-weighted governance: a stake ledger that locks tokens for voting
//! power, and a proposal registry whose votes are gated by that power.
//!
//! The token ledger and the hosting environment are not part of this crate.
//! Every operation takes the caller, the current time and the answers of the
//! token ledger as plain values.

pub mod errors;
pub mod laws;
pub mod staking;
pub mod types;
pub mod voting;
