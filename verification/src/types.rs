//! Plain value types shared by the stake ledger and the proposal registry.

use vstd::prelude::*;

verus! {

/// A quantity of tokens, or a number of votes.
pub type Balance = u128;

/// Milliseconds since the epoch.
pub type Timestamp = u64;

/// The identifier of a proposal.
pub type Id = u128;

/// A 256-bit account identifier, held as its upper and lower 128 bits.
#[derive(Clone, Copy, Debug, PartialEq, Eq, Structural, Hash)]
pub struct AccountId {
    pub hi: u128,
    pub lo: u128,
}

} // verus!
