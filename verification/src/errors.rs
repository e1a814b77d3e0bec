//! The error kinds of the stake ledger and the proposal registry.

use vstd::prelude::*;

verus! {

/// The failure detail that the token ledger reports for a transfer.
#[derive(Clone, Debug, PartialEq, Eq)]
pub enum TokenError {
    /// A restriction added by the token's author, with its message.
    Custom(String),
    /// The sender's balance does not cover the amount.
    InsufficientBalance,
    /// The sender's allowance does not cover the amount.
    InsufficientAllowance,
    /// The recipient is the zero address.
    ZeroRecipientAddress,
    /// The sender is the zero address.
    ZeroSenderAddress,
    /// The recipient refused the transfer, with its message.
    SafeTransferCheckFailed(String),
}

/// Why an operation of the ledger or the registry was rejected.
#[derive(Clone, Debug, PartialEq, Eq)]
pub enum StakingErr {
    /// The token ledger refused the transfer.
    TokenTransferError(TokenError),
    /// A full withdrawal was asked for before the lock window ended.
    LockingPeriodNotEnded,
    /// The amount was zero.
    AmountMustBeAboveZero,
    /// The account has no stake.
    NothingToWithdraw,
    /// The caller's voting power is below the threshold.
    NotEnoughVotingPower,
    /// No proposal has this id.
    ProposalDoesNotExist,
    /// The option index is not one of the proposal's options.
    IncorrectOption,
    /// The proposal's expiration has passed.
    ProposalExpired,
    /// Fewer than two options were given.
    TooFewOptions,
    /// More than four options were given.
    MaxFourOptions,
    /// The duration is shorter than one day.
    AtLeastOneDay,
}

impl From<TokenError> for StakingErr {
    fn from(err: TokenError) -> (r: Self) {
        StakingErr::TokenTransferError(err)
    }
}

impl vstd::std_specs::convert::FromSpecImpl<TokenError> for StakingErr {
    open spec fn obeys_from_spec() -> bool {
        true
    }

    open spec fn from_spec(err: TokenError) -> Self {
        StakingErr::TokenTransferError(err)
    }
}

impl StakingErr {
    /// The token-ledger error that stands for this error: the wrapped detail
    /// of a failed transfer, and `Custom("Custom")` for every other kind.
    pub fn into_token_error(self) -> (r: TokenError)
        ensures
            match self {
                StakingErr::TokenTransferError(e) => r == e,
                _ => r matches TokenError::Custom(s) && s@ == "Custom"@,
            },
    {
        match self {
            StakingErr::TokenTransferError(e) => e,
            _ => TokenError::Custom("Custom".to_owned()),
        }
    }
}

} // verus!
