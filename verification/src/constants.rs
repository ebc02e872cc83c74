//! Amounts and delays that the pool's rules refer to.

use vstd::prelude::*;

verus! {

/// One NEAR, in yoctoNEAR.
pub const ONE_NEAR: u128 = 1_000_000_000_000_000_000_000_000;

/// A hundredth of a NEAR.
pub const ONE_NEAR_CENT: u128 = 10_000_000_000_000_000_000_000;

/// The least amount that can be deposited or staked.
pub const FIVE_NEAR: u128 = 5_000_000_000_000_000_000_000_000;

/// One thousand NEAR. A movement between the contract and a staking pool does
/// not leave a smaller remainder behind if it can avoid it.
pub const MIN_STAKE_UNSTAKE_AMOUNT_MOVEMENT: u128 = 1_000_000_000_000_000_000_000_000_000;

/// Epochs that a staking pool keeps unstaked funds locked.
pub const NUM_EPOCHS_TO_UNLOCK: u64 = 4;

/// The account under which the liquidity pool keeps its own balances. It is not
/// a valid account id, so nobody can sign as it.
pub const NSLP_INTERNAL_ACCOUNT: &'static str = "..NSLP..";

} // verus!
