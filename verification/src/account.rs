//! An account of the pool and the meter that counts its staking rewards.

use crate::error::PoolError;
use crate::math::{fits, fits_signed};
use crate::store::AccountRecord;
use vstd::prelude::*;

verus! {

/// Counts staking rewards: the difference between what the staked shares are
/// worth and what was staked into them.
#[derive(Clone, Copy, Debug, PartialEq, Eq, Structural)]
pub struct RewardMeter {
    /// Staked minus unstaked. Unstaking takes rewards out too, so this can be negative.
    pub delta_staked: i128,
    /// Governance tokens per hundred units of reward.
    pub last_multiplier_pct: u16,
}

/// What the pool keeps for one user.
#[derive(Clone, Copy, Debug, PartialEq, Eq, Structural)]
pub struct Account {
    /// Funds that can be withdrawn or staked.
    pub available: u128,
    /// Shares of the funds that the contract has for staking.
    pub stake_shares: u128,
    /// Funds on their way out of staking.
    pub unstaked: u128,
    /// The epoch in which `unstaked` is released.
    pub unstaked_requested_unlock_epoch: u64,
    /// Governance tokens that were credited.
    pub realized_g_skash: u128,
    /// Meter of the staking rewards that were not yet turned into governance tokens.
    pub staking_meter: RewardMeter,
    /// Shares of the liquidity pool.
    pub nslp_shares: u128,
}

/// The figures of an [`Account`].
pub struct AccountView {
    pub available: int,
    pub stake_shares: int,
    pub unstaked: int,
    pub unlock_epoch: int,
    pub realized_g_skash: int,
    pub delta_staked: int,
    pub multiplier_pct: int,
    pub nslp_shares: int,
}

impl AccountView {
    /// The account of a user that the pool has never seen.
    pub open spec fn fresh() -> AccountView {
        AccountView {
            available: 0,
            stake_shares: 0,
            unstaked: 0,
            unlock_epoch: 0,
            realized_g_skash: 0,
            delta_staked: 0,
            multiplier_pct: 100,
            nslp_shares: 0,
        }
    }

    /// Whether every balance is zero.
    pub open spec fn is_empty(self) -> bool {
        &&& self.available == 0
        &&& self.stake_shares == 0
        &&& self.unstaked == 0
        &&& self.realized_g_skash == 0
        &&& self.nslp_shares == 0
    }

    /// Whether an [`Account`] can hold these figures.
    pub open spec fn representable(self) -> bool {
        &&& fits(self.available)
        &&& fits(self.stake_shares)
        &&& fits(self.unstaked)
        &&& 0 <= self.unlock_epoch <= u64::MAX
        &&& fits(self.realized_g_skash)
        &&& fits_signed(self.delta_staked)
        &&& 0 <= self.multiplier_pct <= u16::MAX
        &&& fits(self.nslp_shares)
    }

    /// What the shares have gained over what was staked, once they are worth `valued_shares`.
    pub open spec fn gain(self, valued_shares: int) -> int {
        if valued_shares < self.delta_staked {
            0
        } else {
            valued_shares - self.delta_staked
        }
    }

    /// Governance tokens that are owed for the gain.
    pub open spec fn pending_g_skash(self, valued_shares: int) -> int {
        self.gain(valued_shares) * self.multiplier_pct / 100
    }

    /// The account after its pending governance tokens were credited and its meter was set
    /// to zero gain.
    pub open spec fn realized(self, valued_shares: int, new_multiplier_pct: int) -> AccountView {
        AccountView {
            realized_g_skash: self.realized_g_skash + self.pending_g_skash(valued_shares),
            delta_staked: valued_shares,
            multiplier_pct: new_multiplier_pct,
            ..self
        }
    }

    /// The account with more shares, for which `skash` was staked.
    pub open spec fn with_stake_added(self, num_shares: int, skash: int) -> AccountView {
        AccountView {
            stake_shares: self.stake_shares + num_shares,
            delta_staked: self.delta_staked + skash,
            ..self
        }
    }

    /// The account with fewer shares, for which `skash` was paid out.
    pub open spec fn with_stake_removed(self, num_shares: int, skash: int) -> AccountView {
        AccountView {
            stake_shares: self.stake_shares - num_shares,
            delta_staked: self.delta_staked - skash,
            ..self
        }
    }
}

impl View for Account {
    type V = AccountView;

    open spec fn view(&self) -> AccountView {
        AccountView {
            available: self.available as int,
            stake_shares: self.stake_shares as int,
            unstaked: self.unstaked as int,
            unlock_epoch: self.unstaked_requested_unlock_epoch as int,
            realized_g_skash: self.realized_g_skash as int,
            delta_staked: self.staking_meter.delta_staked as int,
            multiplier_pct: self.staking_meter.last_multiplier_pct as int,
            nslp_shares: self.nslp_shares as int,
        }
    }
}

/// The account that a stored record stands for.
pub open spec fn account_of_record(record: AccountRecord) -> AccountView {
    AccountView {
        available: record.0 as int,
        stake_shares: record.1 as int,
        unstaked: record.2 as int,
        unlock_epoch: record.3 as int,
        realized_g_skash: record.4 as int,
        delta_staked: record.5 as int,
        multiplier_pct: record.6 as int,
        nslp_shares: record.7 as int,
    }
}

impl Default for Account {
    fn default() -> (account: Account)
        ensures
            account@ == AccountView::fresh(),
    {
        Account {
            available: 0,
            stake_shares: 0,
            unstaked: 0,
            unstaked_requested_unlock_epoch: 0,
            realized_g_skash: 0,
            staking_meter: RewardMeter { delta_staked: 0, last_multiplier_pct: 100 },
            nslp_shares: 0,
        }
    }
}

impl Account {
    /// Whether every balance is zero: such an account is not kept.
    pub fn is_empty(&self) -> (empty: bool)
        ensures
            empty == self@.is_empty(),
    {
        self.available == 0 && self.stake_shares == 0 && self.unstaked == 0
            && self.realized_g_skash == 0 && self.nslp_shares == 0
    }

    /// The record under which the account is stored.
    pub fn to_record(&self) -> (record: AccountRecord)
        ensures
            account_of_record(record) == self@,
    {
        (
            self.available,
            self.stake_shares,
            self.unstaked,
            self.unstaked_requested_unlock_epoch,
            self.realized_g_skash,
            self.staking_meter.delta_staked,
            self.staking_meter.last_multiplier_pct,
            self.nslp_shares,
        )
    }

    /// The account that a stored record stands for.
    pub fn from_record(record: AccountRecord) -> (account: Account)
        ensures
            account@ == account_of_record(record),
    {
        Account {
            available: record.0,
            stake_shares: record.1,
            unstaked: record.2,
            unstaked_requested_unlock_epoch: record.3,
            realized_g_skash: record.4,
            staking_meter: RewardMeter { delta_staked: record.5, last_multiplier_pct: record.6 },
            nslp_shares: record.7,
        }
    }

    /// Adds shares for which `skash` was staked. Refused where a figure would not fit.
    pub fn add_stake_shares(&mut self, num_shares: u128, skash: u128) -> (res: Result<
        (),
        PoolError,
    >)
        ensures
            match res {
                Ok(()) => final(self)@ == old(self)@.with_stake_added(
                    num_shares as int,
                    skash as int,
                ) && final(self)@.representable(),
                Err(e) => {
                    &&& e == PoolError::Overflow
                    &&& *final(self) == *old(self)
                    &&& !old(self)@.with_stake_added(
                        num_shares as int,
                        skash as int,
                    ).representable()
                },
            },
    {
        let stake_shares: u128 = match self.stake_shares.checked_add(num_shares) {
            Some(sum) => sum,
            None => return Err(PoolError::Overflow),
        };
        let delta_staked: i128 = match self.staking_meter.delta_staked.checked_add_unsigned(skash) {
            Some(sum) => sum,
            None => return Err(PoolError::Overflow),
        };
        self.stake_shares = stake_shares;
        self.staking_meter.delta_staked = delta_staked;
        Ok(())
    }

    /// Removes shares for which `skash` was paid out. Refused where the account
    /// holds fewer shares, or where a figure would not fit.
    pub fn sub_stake_shares(&mut self, num_shares: u128, skash: u128) -> (res: Result<
        (),
        PoolError,
    >)
        ensures
            match res {
                Ok(()) => final(self)@ == old(self)@.with_stake_removed(
                    num_shares as int,
                    skash as int,
                ) && final(self)@.representable(),
                Err(e) => {
                    &&& *final(self) == *old(self)
                    &&& e == (if old(self).stake_shares < num_shares {
                        PoolError::NotEnoughShares
                    } else {
                        PoolError::Overflow
                    })
                    &&& !old(self)@.with_stake_removed(
                        num_shares as int,
                        skash as int,
                    ).representable()
                },
            },
    {
        if self.stake_shares < num_shares {
            return Err(PoolError::NotEnoughShares);
        }
        let delta_staked: i128 = match self.staking_meter.delta_staked.checked_sub_unsigned(skash) {
            Some(difference) => difference,
            None => return Err(PoolError::Overflow),
        };
        self.stake_shares = self.stake_shares - num_shares;
        self.staking_meter.delta_staked = delta_staked;
        Ok(())
    }
}

} // verus!
