//! The choice of the staking pool to move funds to or from.

use crate::constants::MIN_STAKE_UNSTAKE_AMOUNT_MOVEMENT;
use crate::error::PoolError;
use crate::math::{apply_pct, fits, percentage};
use crate::pool::{DiversifiedPool, PoolView, StakingPoolInfo};
use vstd::prelude::*;

verus! {

/// Whether `inx` is the first place of the greatest positive figure.
pub open spec fn first_greatest(figures: Seq<int>, inx: int) -> bool {
    &&& 0 <= inx < figures.len()
    &&& figures[inx] > 0
    &&& forall|j: int| 0 <= j < figures.len() ==> #[trigger] figures[j] <= figures[inx]
    &&& forall|j: int| 0 <= j < inx ==> #[trigger] figures[j] < figures[inx]
}

/// Whether no figure is positive.
pub open spec fn none_positive(figures: Seq<int>) -> bool {
    forall|j: int| 0 <= j < figures.len() ==> #[trigger] figures[j] <= 0
}

/// What is staked in a pool that lacks `missing`, out of `total_to_stake`: all
/// of it if a small remainder would be left.
pub open spec fn stake_movement(missing: int, total_to_stake: int) -> int {
    let covered: int = if missing > total_to_stake {
        total_to_stake
    } else {
        missing
    };
    if total_to_stake - covered <= MIN_STAKE_UNSTAKE_AMOUNT_MOVEMENT {
        total_to_stake
    } else {
        covered
    }
}

/// What is unstaked from a pool that has `excess` too much of its `staked`, out
/// of `total_to_unstake`: all of it if a small remainder would be left and the
/// pool can spare it.
pub open spec fn unstake_movement(excess: int, staked: int, total_to_unstake: int) -> int {
    let covered: int = if excess > total_to_unstake {
        total_to_unstake
    } else {
        excess
    };
    if total_to_unstake - covered <= MIN_STAKE_UNSTAKE_AMOUNT_MOVEMENT && staked > total_to_unstake
        + 2 * MIN_STAKE_UNSTAKE_AMOUNT_MOVEMENT {
        total_to_unstake
    } else {
        covered
    }
}

impl PoolView {
    /// What a staking pool should have staked by its weight.
    pub open spec fn balanced_stake(self, sp: StakingPoolInfo) -> int {
        percentage(sp.weight_basis_points as int, self.total_for_staking)
    }

    /// Whether funds can be staked in a pool.
    pub open spec fn can_stake_in(sp: StakingPoolInfo) -> bool {
        !sp.busy_lock && sp.weight_basis_points > 0
    }

    /// Whether funds can be unstaked from a pool: it is not busy, has stake, and
    /// has no unstaked balance waiting for withdrawal.
    pub open spec fn can_unstake_from(sp: StakingPoolInfo) -> bool {
        !sp.busy_lock && sp.staked > 0 && sp.unstaked == 0
    }

    /// What a pool lacks to be balanced.
    pub open spec fn missing_stake(self, sp: StakingPoolInfo) -> int {
        if Self::can_stake_in(sp) {
            self.balanced_stake(sp) - sp.staked
        } else {
            0
        }
    }

    /// What a pool has too much of to be balanced.
    pub open spec fn excess_stake(self, sp: StakingPoolInfo) -> int {
        if Self::can_unstake_from(sp) {
            sp.staked - self.balanced_stake(sp)
        } else {
            0
        }
    }

    /// What each pool lacks.
    pub open spec fn missing_stakes(self) -> Seq<int> {
        self.staking_pools.map_values(|sp: StakingPoolInfo| self.missing_stake(sp))
    }

    /// What each pool has too much of.
    pub open spec fn excess_stakes(self) -> Seq<int> {
        self.staking_pools.map_values(|sp: StakingPoolInfo| self.excess_stake(sp))
    }

    /// Whether the balanced stake of each pool that can be staked in fits.
    pub open spec fn missing_stakes_fit(self) -> bool {
        forall|i: int|
            0 <= i < self.staking_pools.len() && Self::can_stake_in(self.staking_pools[i])
                ==> fits(self.balanced_stake(#[trigger] self.staking_pools[i]))
    }

    /// Whether the balanced stake of each pool that can be unstaked from fits.
    pub open spec fn excess_stakes_fit(self) -> bool {
        forall|i: int|
            0 <= i < self.staking_pools.len() && Self::can_unstake_from(self.staking_pools[i])
                ==> fits(self.balanced_stake(#[trigger] self.staking_pools[i]))
    }
}

impl DiversifiedPool {
    /// Finds the staking pool that lacks most to be balanced, and what to stake
    /// in it out of `total_to_stake`. It is `(usize::MAX, 0)` if no pool requires
    /// staking or all are busy.
    pub fn get_staking_pool_requiring_stake(&self, total_to_stake: u128) -> (res: Result<
        (usize, u128),
        PoolError,
    >)
        ensures
            match res {
                Ok((inx, amount)) => {
                    &&& self@.missing_stakes_fit()
                    &&& if none_positive(self@.missing_stakes()) {
                        inx == usize::MAX && amount == 0
                    } else {
                        &&& first_greatest(self@.missing_stakes(), inx as int)
                        &&& amount == stake_movement(
                            self@.missing_stakes()[inx as int],
                            total_to_stake as int,
                        )
                    }
                },
                Err(e) => e == PoolError::Overflow && !self@.missing_stakes_fit(),
            },
    {
        let ghost missing: Seq<int> = self@.missing_stakes();
        let mut selected_to_stake_amount: u128 = 0;
        let mut selected_sp_inx: usize = usize::MAX;
        let mut sp_inx: usize = 0;
        while sp_inx < self.staking_pools.len()
            invariant
                sp_inx <= self.staking_pools.len(),
                missing == self@.missing_stakes(),
                selected_to_stake_amount == 0 ==> selected_sp_inx == usize::MAX,
                selected_to_stake_amount > 0 ==> selected_sp_inx < sp_inx
                    && missing[selected_sp_inx as int] == selected_to_stake_amount,
                forall|j: int|
                    0 <= j < sp_inx ==> #[trigger] missing[j] <= selected_to_stake_amount,
                forall|j: int|
                    0 <= j < sp_inx && j < selected_sp_inx && selected_to_stake_amount > 0
                        ==> #[trigger] missing[j] < selected_to_stake_amount,
                forall|i: int|
                    0 <= i < sp_inx && PoolView::can_stake_in(self@.staking_pools[i]) ==> fits(
                        self@.balanced_stake(#[trigger] self@.staking_pools[i]),
                    ),
            decreases self.staking_pools.len() - sp_inx,
        {
            let sp: StakingPoolInfo = self.staking_pools[sp_inx];
            assert(sp == self@.staking_pools[sp_inx as int]);
            // if the pool is not busy, and this pool can stake
            if !sp.busy_lock && sp.weight_basis_points > 0 {
                let should_have: u128 = match apply_pct(
                    sp.weight_basis_points,
                    self.total_for_staking,
                ) {
                    Some(part) => part,
                    None => return Err(PoolError::Overflow),
                };
                // this pool requires staking?
                if should_have > sp.staked {
                    let require_amount: u128 = should_have - sp.staked;
                    // is this the most unbalanced pool so far?
                    if require_amount > selected_to_stake_amount {
                        selected_to_stake_amount = require_amount;
                        selected_sp_inx = sp_inx;
                    }
                }
            }
            sp_inx = sp_inx + 1;
        }
        if selected_to_stake_amount > 0 {
            assert(first_greatest(missing, selected_sp_inx as int));
            if selected_to_stake_amount > total_to_stake {
                selected_to_stake_amount = total_to_stake;
            }
            // to avoid moving small amounts, a small remainder is included in this movement
            let remainder: u128 = total_to_stake - selected_to_stake_amount;
            if remainder <= MIN_STAKE_UNSTAKE_AMOUNT_MOVEMENT {
                selected_to_stake_amount = selected_to_stake_amount + remainder;
            }
        }
        Ok((selected_sp_inx, selected_to_stake_amount))
    }

    /// Finds the staking pool that has most too much to be balanced, and what to
    /// unstake from it out of `total_to_unstake`. It is `(usize::MAX, 0)` if no
    /// pool requires unstaking or all are busy.
    pub fn get_staking_pool_requiring_unstake(&self, total_to_unstake: u128) -> (res: Result<
        (usize, u128),
        PoolError,
    >)
        ensures
            match res {
                Ok((inx, amount)) => {
                    &&& self@.excess_stakes_fit()
                    &&& if none_positive(self@.excess_stakes()) {
                        inx == usize::MAX && amount == 0
                    } else {
                        &&& first_greatest(self@.excess_stakes(), inx as int)
                        &&& amount == unstake_movement(
                            self@.excess_stakes()[inx as int],
                            self@.staking_pools[inx as int].staked as int,
                            total_to_unstake as int,
                        )
                    }
                },
                Err(e) => e == PoolError::Overflow && !self@.excess_stakes_fit(),
            },
    {
        let ghost excess: Seq<int> = self@.excess_stakes();
        let mut selected_to_unstake_amount: u128 = 0;
        let mut selected_stake: u128 = 0;
        let mut selected_sp_inx: usize = usize::MAX;
        let mut sp_inx: usize = 0;
        while sp_inx < self.staking_pools.len()
            invariant
                sp_inx <= self.staking_pools.len(),
                excess == self@.excess_stakes(),
                selected_to_unstake_amount == 0 ==> selected_sp_inx == usize::MAX,
                selected_to_unstake_amount > 0 ==> selected_sp_inx < sp_inx
                    && excess[selected_sp_inx as int] == selected_to_unstake_amount
                    && selected_stake == self@.staking_pools[selected_sp_inx as int].staked,
                forall|j: int|
                    0 <= j < sp_inx ==> #[trigger] excess[j] <= selected_to_unstake_amount,
                forall|j: int|
                    0 <= j < sp_inx && j < selected_sp_inx && selected_to_unstake_amount > 0
                        ==> #[trigger] excess[j] < selected_to_unstake_amount,
                forall|i: int|
                    0 <= i < sp_inx && PoolView::can_unstake_from(self@.staking_pools[i]) ==> fits(
                        self@.balanced_stake(#[trigger] self@.staking_pools[i]),
                    ),
            decreases self.staking_pools.len() - sp_inx,
        {
            let sp: StakingPoolInfo = self.staking_pools[sp_inx];
            assert(sp == self@.staking_pools[sp_inx as int]);
            // if the pool is not busy, has stake, and has no unstaked balance waiting for withdrawal
            if !sp.busy_lock && sp.staked > 0 && sp.unstaked == 0 {
                let should_have: u128 = match apply_pct(
                    sp.weight_basis_points,
                    self.total_for_staking,
                ) {
                    Some(part) => part,
                    None => return Err(PoolError::Overflow),
                };
                // does this pool require unstaking? (has too much staked?)
                if sp.staked > should_have {
                    let unstake_amount: u128 = sp.staked - should_have;
                    // is this the most unbalanced pool so far?
                    if unstake_amount > selected_to_unstake_amount {
                        selected_to_unstake_amount = unstake_amount;
                        selected_stake = sp.staked;
                        selected_sp_inx = sp_inx;
                    }
                }
            }
            sp_inx = sp_inx + 1;
        }
        if selected_to_unstake_amount > 0 {
            assert(first_greatest(excess, selected_sp_inx as int));
            if selected_to_unstake_amount > total_to_unstake {
                selected_to_unstake_amount = total_to_unstake;
            }
            // to avoid moving small amounts, a small remainder is included in this movement
            // if the pool can accommodate it
            let remainder: u128 = total_to_unstake - selected_to_unstake_amount;
            if remainder <= MIN_STAKE_UNSTAKE_AMOUNT_MOVEMENT && selected_stake >= 2
                * MIN_STAKE_UNSTAKE_AMOUNT_MOVEMENT && selected_stake - 2
                * MIN_STAKE_UNSTAKE_AMOUNT_MOVEMENT > total_to_unstake {
                selected_to_unstake_amount = selected_to_unstake_amount + remainder;
            }
        }
        Ok((selected_sp_inx, selected_to_unstake_amount))
    }
}

/// No more is staked than there is to stake.
pub proof fn law_stake_movement_is_covered(missing: int, total_to_stake: int)
    requires
        0 <= missing,
        0 <= total_to_stake,
    ensures
        0 <= stake_movement(missing, total_to_stake) <= total_to_stake,
{
}

/// No more is unstaked than was asked for, nor than the pool has.
pub proof fn law_unstake_movement_is_covered(excess: int, staked: int, total_to_unstake: int)
    requires
        0 <= excess <= staked,
        0 <= total_to_unstake,
    ensures
        0 <= unstake_movement(excess, staked, total_to_unstake) <= total_to_unstake,
        unstake_movement(excess, staked, total_to_unstake) <= staked,
{
}

/// A movement never leaves a small remainder to stake behind.
pub proof fn law_stake_movement_leaves_no_small_remainder(missing: int, total_to_stake: int)
    requires
        0 <= missing,
        0 <= total_to_stake,
    ensures
        ({
            let left: int = total_to_stake - stake_movement(missing, total_to_stake);
            left == 0 || left > MIN_STAKE_UNSTAKE_AMOUNT_MOVEMENT
        }),
{
}

} // verus!
