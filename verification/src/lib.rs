//! Accounting of a diversified staking pool: accounts, staking shares, the
//! liquidity pool that buys staked tokens, and the choice of the staking pool
//! to move funds to or from.
//!
//! Amounts are in yoctoNEAR. A request that the pool refuses is answered with a
//! [`PoolError`] and leaves the pool as it was.

pub mod account;
pub mod balancing;
pub mod constants;
pub mod error;
pub mod laws;
pub mod ledger;
pub mod liquidity;
pub mod math;
pub mod pool;
pub mod staking;
pub mod store;
pub mod transfer;

pub use account::{Account, RewardMeter};
pub use constants::{
    FIVE_NEAR, MIN_STAKE_UNSTAKE_AMOUNT_MOVEMENT, NSLP_INTERNAL_ACCOUNT, NUM_EPOCHS_TO_UNLOCK,
    ONE_NEAR, ONE_NEAR_CENT,
};
pub use error::PoolError;
pub use math::{amount_from_shares, apply_pct, proportional, shares_from_amount};
pub use pool::{assert_min_amount, DiversifiedPool, StakingPoolInfo};
pub use store::{AccountRecord, MAX_ACCOUNT_ID_CHARS};
