//! Deposits, withdrawals, staking and unstaking.

use crate::account::{Account, AccountView};
use crate::constants::{FIVE_NEAR, NUM_EPOCHS_TO_UNLOCK, ONE_NEAR, ONE_NEAR_CENT};
use crate::error::PoolError;
use crate::math::{fits, law_covered_amount_buys_no_more_shares};
use crate::pool::{assert_min_amount, DiversifiedPool, PoolView, StakingPoolInfo};
use crate::store::{delete_record, storable_id, write_record, AccountRecord};
use vstd::prelude::*;

verus! {

/// What can be unstaked from a pool with the normal wait: its stake, unless an
/// operation on it or an earlier unstake is in process.
pub open spec fn normal_wait_stake(sp: StakingPoolInfo) -> int {
    if !sp.busy_lock && sp.unstaked == 0 {
        sp.staked as int
    } else {
        0
    }
}

/// What can be unstaked from all pools with the normal wait.
pub open spec fn total_normal_wait_stake(pools: Seq<StakingPoolInfo>) -> int
    decreases pools.len(),
{
    if pools.len() == 0 {
        0
    } else {
        total_normal_wait_stake(pools.drop_last()) + normal_wait_stake(pools.last())
    }
}

impl PoolView {
    /// Why a deposit is refused, if it is.
    pub open spec fn deposit_refusal(self, id: Seq<char>, amount: int) -> Option<PoolError> {
        if amount < FIVE_NEAR {
            Some(PoolError::BelowMinAmount)
        } else if !fits(self.account(id).available + amount) || !fits(
            self.total_available + amount,
        ) {
            Some(PoolError::Overflow)
        } else {
            None
        }
    }

    /// The pool after a deposit.
    pub open spec fn after_deposit(self, id: Seq<char>, amount: int) -> PoolView {
        let account: AccountView = self.account(id);
        PoolView { total_available: self.total_available + amount, ..self }.with_account(
            id,
            AccountView { available: account.available + amount, ..account },
        )
    }

    /// What a withdrawal pays: what was requested, or all that is available if
    /// less than half a cent would remain.
    pub open spec fn withdrawn(self, id: Seq<char>, requested: int) -> int {
        let available: int = self.account(id).available;
        if available - requested < ONE_NEAR_CENT / 2 {
            available
        } else {
            requested
        }
    }

    /// The account after a withdrawal.
    pub open spec fn account_after_withdraw(self, id: Seq<char>, requested: int) -> AccountView {
        let account: AccountView = self.account(id);
        AccountView { available: account.available - self.withdrawn(id, requested), ..account }
    }

    /// Why a withdrawal is refused, if it is. An account that stays open keeps
    /// the minimum balance; all funds can be removed, which closes the account.
    pub open spec fn withdraw_refusal(self, id: Seq<char>, requested: int) -> Option<PoolError> {
        let left: AccountView = self.account_after_withdraw(id, requested);
        if self.account(id).available < requested {
            Some(PoolError::NotEnoughAvailableToWithdraw)
        } else if !left.is_empty() && left.available < self.min_account_balance {
            Some(PoolError::BelowMinAccountBalance)
        } else if self.total_available < self.withdrawn(id, requested) {
            Some(PoolError::Overflow)
        } else {
            None
        }
    }

    /// The pool after a withdrawal.
    pub open spec fn after_withdraw(self, id: Seq<char>, requested: int) -> PoolView {
        PoolView {
            total_available: self.total_available - self.withdrawn(id, requested),
            ..self
        }.with_account(id, self.account_after_withdraw(id, requested))
    }

    /// The account after it has staked `amount`: its pending governance tokens
    /// are credited, and it gets the shares that the amount buys.
    pub open spec fn account_after_stake(self, id: Seq<char>, amount: int) -> AccountView {
        let account: AccountView = self.account(id);
        AccountView {
            available: account.available - amount,
            ..self.account_with_g_skash_realized(account).with_stake_added(
                self.stake_shares_worth(amount),
                amount,
            )
        }
    }

    /// The pool after an account has staked `amount`, before the liquidity pool
    /// serves any order to stake.
    pub open spec fn before_clearing(self, id: Seq<char>, amount: int) -> PoolView {
        PoolView {
            total_stake_shares: self.total_stake_shares + self.stake_shares_worth(amount),
            total_for_staking: self.total_for_staking + amount,
            total_available: self.total_available - amount,
            ..self.with_g_skash_realized(self.account(id))
        }.with_account(id, self.account_after_stake(id, amount))
    }

    /// Why staking is refused, if it is.
    pub open spec fn stake_refusal(self, id: Seq<char>, amount: int) -> Option<PoolError> {
        let account: AccountView = self.account(id);
        let num_shares: int = self.stake_shares_worth(amount);
        if amount < FIVE_NEAR {
            Some(PoolError::BelowMinAmount)
        } else if account.available < amount {
            Some(PoolError::NotEnoughAvailableToStake)
        } else if !self.can_realize_g_skash(account) || !fits(num_shares) {
            Some(PoolError::Overflow)
        } else if num_shares == 0 {
            Some(PoolError::NoShares)
        } else if !self.account_after_stake(id, amount).representable() || !fits(
            self.total_stake_shares + num_shares,
        ) || !fits(self.total_for_staking + amount) {
            Some(PoolError::Overflow)
        } else if self.total_available < amount {
            Some(PoolError::AvailableInconsistency)
        } else if self.before_clearing(id, amount).clearing_overflows() {
            Some(PoolError::Overflow)
        } else {
            None
        }
    }

    /// The pool after an account has staked `amount`. The liquidity pool takes
    /// the opportunity to sell its staked tokens.
    pub open spec fn after_stake(self, id: Seq<char>, amount: int) -> PoolView {
        self.before_clearing(id, amount).after_clearing()
    }

    /// What an account's staked tokens are worth.
    pub open spec fn skash(self, id: Seq<char>) -> int {
        self.value_of_stake_shares(self.account(id).stake_shares)
    }

    /// What is unstaked: what was requested, or everything if no more than one
    /// NEAR would remain staked.
    pub open spec fn unstaked_amount(self, id: Seq<char>, requested: int) -> int {
        if self.skash(id) - requested > ONE_NEAR {
            requested
        } else {
            self.skash(id)
        }
    }

    /// The shares that are burned for it: all of them if everything is unstaked.
    pub open spec fn unstaked_shares(self, id: Seq<char>, requested: int) -> int {
        if self.unstaked_amount(id, requested) == self.skash(id) {
            self.account(id).stake_shares
        } else {
            self.stake_shares_worth(self.unstaked_amount(id, requested))
        }
    }

    /// Epochs until an unstaked amount is released: the normal wait if the pools
    /// that have no unstaking in process hold more than the amount, else twice as long.
    pub open spec fn unstaking_delay(self, amount: int) -> int {
        if total_normal_wait_stake(self.staking_pools) > amount {
            NUM_EPOCHS_TO_UNLOCK as int
        } else {
            2 * NUM_EPOCHS_TO_UNLOCK
        }
    }

    /// The account after it has unstaked.
    pub open spec fn account_after_unstake(
        self,
        id: Seq<char>,
        requested: int,
        epoch_height: int,
    ) -> AccountView {
        let account: AccountView = self.account(id);
        let amount: int = self.unstaked_amount(id, requested);
        AccountView {
            unstaked: account.unstaked + amount,
            unlock_epoch: epoch_height + self.unstaking_delay(amount),
            ..self.account_with_g_skash_realized(account).with_stake_removed(
                self.unstaked_shares(id, requested),
                amount,
            )
        }
    }

    /// Why unstaking is refused, if it is.
    pub open spec fn unstake_refusal(
        self,
        id: Seq<char>,
        requested: int,
        epoch_height: int,
    ) -> Option<PoolError> {
        let amount: int = self.unstaked_amount(id, requested);
        if !fits(self.skash(id)) {
            Some(PoolError::Overflow)
        } else if self.skash(id) < requested {
            Some(PoolError::NotEnoughSkash)
        } else if !self.can_realize_g_skash(self.account(id)) {
            Some(PoolError::Overflow)
        } else if amount != self.skash(id) && self.unstaked_shares(id, requested) == 0 {
            Some(PoolError::NoShares)
        } else if !self.account_after_unstake(id, requested, epoch_height).representable()
            || self.total_stake_shares < self.unstaked_shares(id, requested)
            || self.total_for_staking < amount {
            Some(PoolError::Overflow)
        } else {
            None
        }
    }

    /// The pool after an account has unstaked.
    pub open spec fn after_unstake(
        self,
        id: Seq<char>,
        requested: int,
        epoch_height: int,
    ) -> PoolView {
        PoolView {
            total_stake_shares: self.total_stake_shares - self.unstaked_shares(id, requested),
            total_for_staking: self.total_for_staking - self.unstaked_amount(id, requested),
            ..self.with_g_skash_realized(self.account(id))
        }.with_account(id, self.account_after_unstake(id, requested, epoch_height))
    }

    /// Whether incorporating an amount does not fit.
    pub open spec fn incorporation_overflows(self, id: Seq<char>, amount: int) -> bool {
        let num_shares: int = self.stake_shares_worth(amount);
        &&& num_shares > 0
        &&& {
            ||| !fits(num_shares)
            ||| !fits(self.account(id).stake_shares + num_shares)
            ||| !fits(self.total_stake_shares + num_shares)
            ||| !fits(self.total_for_staking + amount)
        }
    }

    /// The pool after an amount was added to the funds for staking and the shares
    /// that it buys to an account. An amount that buys no share changes nothing.
    pub open spec fn after_incorporation(self, id: Seq<char>, amount: int) -> PoolView {
        let account: AccountView = self.account(id);
        let num_shares: int = self.stake_shares_worth(amount);
        if num_shares > 0 {
            PoolView {
                total_stake_shares: self.total_stake_shares + num_shares,
                total_for_staking: self.total_for_staking + amount,
                ..self
            }.with_account(
                id,
                AccountView { stake_shares: account.stake_shares + num_shares, ..account },
            )
        } else {
            self
        }
    }
}

/// A pool adds to the total only what it has.
proof fn lemma_normal_wait_prefix(pools: Seq<StakingPoolInfo>, n: int)
    requires
        0 <= n <= pools.len(),
    ensures
        0 <= total_normal_wait_stake(pools.take(n)) <= total_normal_wait_stake(pools),
    decreases pools.len(),
{
    if n == pools.len() {
        assert(pools.take(n) =~= pools);
        if n > 0 {
            lemma_normal_wait_prefix(pools.drop_last(), n - 1);
        }
    } else {
        lemma_normal_wait_prefix(pools.drop_last(), n);
        assert(pools.drop_last().take(n) =~= pools.take(n));
    }
}

impl DiversifiedPool {
    /// Puts the account of `account_id` back to what was found there.
    fn restore_account(&mut self, account_id: &String, found: Option<Account>)
        requires
            storable_id(account_id@),
        ensures
            final(self)@ == (PoolView {
                accounts: match found {
                    Some(account) => old(self)@.accounts.insert(account_id@, account@),
                    None => old(self)@.accounts.remove(account_id@),
                },
                ..old(self)@
            }),
    {
        match found {
            Some(account) => {
                let record: AccountRecord = account.to_record();
                write_record(&mut self.accounts, account_id, &record);
                assert(self@.accounts =~= old(self)@.accounts.insert(account_id@, account@));
            },
            None => {
                delete_record(&mut self.accounts, account_id);
                assert(self@.accounts =~= old(self)@.accounts.remove(account_id@));
            },
        }
    }

    /// Adds a deposit of `amount` to what `account_id` has available.
    pub fn internal_deposit(&mut self, account_id: &String, amount: u128) -> (res: Result<
        (),
        PoolError,
    >)
        requires
            storable_id(account_id@),
        ensures
            match old(self)@.deposit_refusal(account_id@, amount as int) {
                None => res is Ok && final(self)@ == old(self)@.after_deposit(
                    account_id@,
                    amount as int,
                ),
                Some(e) => res == Err::<(), PoolError>(e) && *final(self) == *old(self),
            },
    {
        assert_min_amount(amount)?;
        let mut account: Account = self.internal_get_account(account_id);
        account.available = match account.available.checked_add(amount) {
            Some(sum) => sum,
            None => return Err(PoolError::Overflow),
        };
        self.total_available = match self.total_available.checked_add(amount) {
            Some(sum) => sum,
            None => return Err(PoolError::Overflow),
        };
        self.internal_update_account(account_id, &account);
        Ok(())
    }

    /// Takes a withdrawal out of what `account_id` has available. The result is
    /// what is to be transferred to it. An open account keeps the minimum balance,
    /// but all funds can be removed and the account closed.
    pub fn internal_withdraw(&mut self, account_id: &String, amount_requested: u128) -> (res:
        Result<u128, PoolError>)
        requires
            storable_id(account_id@),
        ensures
            match old(self)@.withdraw_refusal(account_id@, amount_requested as int) {
                None => {
                    &&& res is Ok
                    &&& res->Ok_0 == old(self)@.withdrawn(account_id@, amount_requested as int)
                    &&& final(self)@ == old(self)@.after_withdraw(
                        account_id@,
                        amount_requested as int,
                    )
                },
                Some(e) => res == Err::<u128, PoolError>(e) && *final(self) == *old(self),
            },
    {
        let mut acc: Account = self.internal_get_account(account_id);
        if acc.available < amount_requested {
            return Err(PoolError::NotEnoughAvailableToWithdraw);
        }
        let to_withdraw: u128 = if acc.available - amount_requested < ONE_NEAR_CENT / 2 {
            acc.available
        } else {
            amount_requested
        };
        acc.available = acc.available - to_withdraw;
        if !acc.is_empty() && acc.available < self.min_account_balance {
            return Err(PoolError::BelowMinAccountBalance);
        }
        if self.total_available < to_withdraw {
            return Err(PoolError::Overflow);
        }
        self.internal_update_account(account_id, &acc);
        self.total_available = self.total_available - to_withdraw;
        Ok(to_withdraw)
    }

    /// Stakes a part of what `account_id` has available. Its pending governance
    /// tokens are credited on the way, and if the liquidity pool needs liquidity
    /// it uses the opportunity to sell its staked tokens.
    pub fn internal_stake(&mut self, account_id: &String, amount: u128) -> (res: Result<
        (),
        PoolError,
    >)
        requires
            storable_id(account_id@),
        ensures
            match old(self)@.stake_refusal(account_id@, amount as int) {
                None => res is Ok && final(self)@ == old(self)@.after_stake(
                    account_id@,
                    amount as int,
                ),
                Some(e) => res == Err::<(), PoolError>(e) && final(self)@ == old(self)@,
            },
    {
        assert_min_amount(amount)?;
        let found: Option<Account> = self.find_account(account_id);
        let mut acc: Account = match found {
            Some(account) => account,
            None => Account::default(),
        };
        if acc.available < amount {
            return Err(PoolError::NotEnoughAvailableToStake);
        }
        let total_g_skash: u128 = self.total_g_skash;
        let total_stake_shares: u128 = self.total_stake_shares;
        let total_for_staking: u128 = self.total_for_staking;
        let total_available: u128 = self.total_available;
        acc.stake_realize_g_skash(self)?;
        let staked: Result<(), PoolError> = self.stake_from(account_id, &acc, amount);
        match staked {
            Ok(()) => match self.nslp_try_liquidate_skash_by_clearing() {
                Ok(_) => {
                    return Ok(());
                },
                Err(e) => {
                    self.restore_account(account_id, found);
                    self.total_g_skash = total_g_skash;
                    self.total_stake_shares = total_stake_shares;
                    self.total_for_staking = total_for_staking;
                    self.total_available = total_available;
                    assert(self@.accounts =~= old(self)@.accounts);
                    return Err(e);
                },
            },
            Err(e) => {
                self.total_g_skash = total_g_skash;
                return Err(e);
            },
        }
    }

    /// Sells shares to the account of `account_id`, which is `account` and has
    /// `amount` available.
    fn stake_from(&mut self, account_id: &String, account: &Account, amount: u128) -> (res: Result<
        (),
        PoolError,
    >)
        requires
            storable_id(account_id@),
            amount > 0,
            account@.available >= amount,
        ensures
            ({
                let num_shares: int = old(self)@.stake_shares_worth(amount as int);
                let after: AccountView = AccountView {
                    available: account@.available - amount,
                    ..account@.with_stake_added(num_shares, amount as int)
                };
                if !fits(num_shares) {
                    res == Err::<(), PoolError>(PoolError::Overflow) && *final(self) == *old(self)
                } else if num_shares == 0 {
                    res == Err::<(), PoolError>(PoolError::NoShares) && *final(self) == *old(self)
                } else if !after.representable() || !fits(
                    old(self)@.total_stake_shares + num_shares,
                ) || !fits(old(self)@.total_for_staking + amount) {
                    res == Err::<(), PoolError>(PoolError::Overflow) && *final(self) == *old(self)
                } else if old(self)@.total_available < amount {
                    res == Err::<(), PoolError>(PoolError::AvailableInconsistency) && *final(self)
                        == *old(self)
                } else {
                    res is Ok && final(self)@ == (PoolView {
                        total_stake_shares: old(self)@.total_stake_shares + num_shares,
                        total_for_staking: old(self)@.total_for_staking + amount,
                        total_available: old(self)@.total_available - amount,
                        ..old(self)@
                    }).with_account(account_id@, after)
                }
            }),
    {
        let mut acc: Account = *account;
        let num_shares: u128 = self.stake_shares_from_amount(amount)?;
        if num_shares == 0 {
            return Err(PoolError::NoShares);
        }
        acc.add_stake_shares(num_shares, amount)?;
        acc.available = acc.available - amount;
        let total_stake_shares: u128 = match self.total_stake_shares.checked_add(num_shares) {
            Some(sum) => sum,
            None => return Err(PoolError::Overflow),
        };
        let total_for_staking: u128 = match self.total_for_staking.checked_add(amount) {
            Some(sum) => sum,
            None => return Err(PoolError::Overflow),
        };
        if self.total_available < amount {
            return Err(PoolError::AvailableInconsistency);
        }
        self.total_stake_shares = total_stake_shares;
        self.total_for_staking = total_for_staking;
        self.total_available = self.total_available - amount;
        self.internal_update_account(account_id, &acc);
        Ok(())
    }

    /// Unstakes for `account_id`: burns shares, and promises their worth for
    /// when the staking pools release it. `epoch_height` is the current epoch.
    pub fn internal_unstake(
        &mut self,
        account_id: &String,
        amount_requested: u128,
        epoch_height: u64,
    ) -> (res: Result<(), PoolError>)
        requires
            storable_id(account_id@),
        ensures
            match old(self)@.unstake_refusal(
                account_id@,
                amount_requested as int,
                epoch_height as int,
            ) {
                None => res is Ok && final(self)@ == old(self)@.after_unstake(
                    account_id@,
                    amount_requested as int,
                    epoch_height as int,
                ),
                Some(e) => res == Err::<(), PoolError>(e) && final(self)@ == old(self)@,
            },
    {
        let mut acc: Account = self.internal_get_account(account_id);
        let valued_shares: u128 = self.amount_from_stake_shares(acc.stake_shares)?;
        if valued_shares < amount_requested {
            return Err(PoolError::NotEnoughSkash);
        }
        let total_g_skash: u128 = self.total_g_skash;
        acc.stake_realize_g_skash(self)?;
        let remains_staked: u128 = valued_shares - amount_requested;
        let amount_to_unstake: u128 = if remains_staked > ONE_NEAR {
            amount_requested
        } else {
            valued_shares
        };
        let unstaked: Result<(), PoolError> = self.unstake_from(
            account_id,
            &acc,
            valued_shares,
            amount_to_unstake,
            epoch_height,
        );
        if unstaked.is_err() {
            self.total_g_skash = total_g_skash;
        }
        unstaked
    }

    /// Buys shares back from the account of `account_id`, which is `account` and
    /// whose shares are worth `valued_shares`.
    fn unstake_from(
        &mut self,
        account_id: &String,
        account: &Account,
        valued_shares: u128,
        amount: u128,
        epoch_height: u64,
    ) -> (res: Result<(), PoolError>)
        requires
            storable_id(account_id@),
            valued_shares == old(self)@.value_of_stake_shares(account@.stake_shares),
            amount <= valued_shares,
        ensures
            ({
                let num_shares: int = if amount == valued_shares {
                    account@.stake_shares
                } else {
                    old(self)@.stake_shares_worth(amount as int)
                };
                let after: AccountView = AccountView {
                    unstaked: account@.unstaked + amount,
                    unlock_epoch: epoch_height + old(self)@.unstaking_delay(amount as int),
                    ..account@.with_stake_removed(num_shares, amount as int)
                };
                if amount != valued_shares && num_shares == 0 {
                    res == Err::<(), PoolError>(PoolError::NoShares) && *final(self) == *old(self)
                } else if !after.representable() || old(self)@.total_stake_shares < num_shares
                    || old(self)@.total_for_staking < amount {
                    res == Err::<(), PoolError>(PoolError::Overflow) && *final(self) == *old(self)
                } else {
                    res is Ok && final(self)@ == (PoolView {
                        total_stake_shares: old(self)@.total_stake_shares - num_shares,
                        total_for_staking: old(self)@.total_for_staking - amount,
                        ..old(self)@
                    }).with_account(account_id@, after)
                }
            }),
    {
        let mut acc: Account = *account;
        proof {
            law_covered_amount_buys_no_more_shares(
                amount as int,
                acc.stake_shares as int,
                self.total_for_staking as int,
                self.total_stake_shares as int,
            );
        }
        let num_shares: u128 = if amount == valued_shares {
            acc.stake_shares
        } else {
            let bought: u128 = self.stake_shares_from_amount(amount)?;
            if bought == 0 {
                return Err(PoolError::NoShares);
            }
            bought
        };
        acc.sub_stake_shares(num_shares, amount)?;
        acc.unstaked = match acc.unstaked.checked_add(amount) {
            Some(sum) => sum,
            None => return Err(PoolError::Overflow),
        };
        let delay: u64 = self.internal_compute_current_unstaking_delay(amount);
        acc.unstaked_requested_unlock_epoch = match epoch_height.checked_add(delay) {
            Some(sum) => sum,
            None => return Err(PoolError::Overflow),
        };
        if self.total_stake_shares < num_shares || self.total_for_staking < amount {
            return Err(PoolError::Overflow);
        }
        self.total_stake_shares = self.total_stake_shares - num_shares;
        self.total_for_staking = self.total_for_staking - amount;
        self.internal_update_account(account_id, &acc);
        Ok(())
    }

    /// Epochs until `amount` would be released if it were unstaked now.
    pub fn internal_compute_current_unstaking_delay(&self, amount: u128) -> (epochs: u64)
        ensures
            epochs == self@.unstaking_delay(amount as int),
    {
        let mut normal_wait_staked_available: u128 = 0;
        let mut inx: usize = 0;
        while inx < self.staking_pools.len()
            invariant
                inx <= self.staking_pools.len(),
                normal_wait_staked_available <= amount,
                normal_wait_staked_available == total_normal_wait_stake(
                    self.staking_pools@.take(inx as int),
                ),
            decreases self.staking_pools.len() - inx,
        {
            let sp: StakingPoolInfo = self.staking_pools[inx];
            proof {
                let pools: Seq<StakingPoolInfo> = self.staking_pools@;
                assert(pools.take(inx + 1).drop_last() =~= pools.take(inx as int));
                lemma_normal_wait_prefix(pools, inx + 1);
            }
            // if the pool has no unstaking in process
            if !sp.busy_lock && sp.staked > 0 && sp.unstaked == 0 {
                if sp.staked > amount - normal_wait_staked_available {
                    return NUM_EPOCHS_TO_UNLOCK;
                }
                normal_wait_staked_available = normal_wait_staked_available + sp.staked;
            }
            inx = inx + 1;
        }
        assert(self.staking_pools@.take(inx as int) =~= self.staking_pools@);
        // all pools are in unstaking-delay, it will take double the time
        2 * NUM_EPOCHS_TO_UNLOCK
    }

    /// Adds `amount` to the funds for staking, and the shares that it buys to the
    /// account of `account_id`, so that the share price stays. An amount that
    /// buys no share changes nothing.
    pub fn add_amount_and_shares_preserve_share_price(
        &mut self,
        account_id: String,
        amount: u128,
    ) -> (res: Result<(), PoolError>)
        requires
            storable_id(account_id@),
        ensures
            match res {
                Ok(()) => {
                    &&& !old(self)@.incorporation_overflows(account_id@, amount as int)
                    &&& final(self)@ == old(self)@.after_incorporation(account_id@, amount as int)
                },
                Err(e) => {
                    &&& old(self)@.incorporation_overflows(account_id@, amount as int)
                    &&& e == PoolError::Overflow
                    &&& *final(self) == *old(self)
                },
            },
    {
        if amount == 0 {
            return Ok(());
        }
        let num_shares: u128 = self.stake_shares_from_amount(amount)?;
        if num_shares == 0 {
            return Ok(());
        }
        let mut account: Account = self.internal_get_account(&account_id);
        account.stake_shares = match account.stake_shares.checked_add(num_shares) {
            Some(sum) => sum,
            None => return Err(PoolError::Overflow),
        };
        let total_stake_shares: u128 = match self.total_stake_shares.checked_add(num_shares) {
            Some(sum) => sum,
            None => return Err(PoolError::Overflow),
        };
        let total_for_staking: u128 = match self.total_for_staking.checked_add(amount) {
            Some(sum) => sum,
            None => return Err(PoolError::Overflow),
        };
        self.internal_update_account(&account_id, &account);
        self.total_stake_shares = total_stake_shares;
        self.total_for_staking = total_for_staking;
        Ok(())
    }
}

} // verus!
