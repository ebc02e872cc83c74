//! The reasons for which a request is refused.

use vstd::prelude::*;

verus! {

/// Why a request was refused.
#[derive(Clone, Copy, Debug, PartialEq, Eq, Structural)]
pub enum PoolError {
    /// The caller is not the owner of the contract.
    NotOwner,
    /// The amount is below [`crate::FIVE_NEAR`].
    BelowMinAmount,
    /// The available balance does not cover the withdrawal.
    NotEnoughAvailableToWithdraw,
    /// The withdrawal would leave the account open with less available than the minimum.
    BelowMinAccountBalance,
    /// The available balance does not cover the stake.
    NotEnoughAvailableToStake,
    /// At the current share price the amount is worth no share.
    NoShares,
    /// The contract holds less available funds than one of its accounts.
    AvailableInconsistency,
    /// The account's staked tokens do not cover the request.
    NotEnoughSkash,
    /// The account holds fewer shares than its valuation says.
    NotEnoughShares,
    /// The discount reaches the whole amount.
    DiscountInconsistency,
    /// The receiver of a transfer has no account.
    UnknownReceiver,
    /// The sender's available balance does not cover the transfer.
    NotEnoughNear,
    /// The sender's governance tokens do not cover the transfer.
    NotEnoughGSkash,
    /// No token has the given symbol.
    InvalidSymbol,
    /// A figure would leave the range of its machine integer.
    Overflow,
}

} // verus!
