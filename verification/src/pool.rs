//! The state of the contract, its accounts, and the price of its shares.

use crate::account::{account_of_record, Account, AccountView};
use crate::constants::{FIVE_NEAR, NSLP_INTERNAL_ACCOUNT};
use crate::error::PoolError;
use crate::math::{
    amount_from_shares, fits, fits_signed, shares_from_amount, shares_worth, value_of_shares,
};
use crate::store::{
    delete_record, read_record, storable_id, stored_records, write_record, AccountRecord,
};
use near_sdk::collections::LookupMap;
use vstd::prelude::*;

verus! {

/// A staking pool among which the contract spreads its stake.
#[derive(Clone, Copy, Debug, PartialEq, Eq, Structural)]
pub struct StakingPoolInfo {
    /// An operation on the pool is in process.
    pub busy_lock: bool,
    /// The part of the contract's stake that this pool should have.
    pub weight_basis_points: u16,
    /// What the contract has staked in the pool.
    pub staked: u128,
    /// What the contract has unstaked in the pool and not withdrawn yet.
    pub unstaked: u128,
}

/// The contract's state.
pub struct DiversifiedPool {
    /// The account that owns the contract.
    pub owner_account_id: String,
    /// The least balance of an open account.
    pub min_account_balance: u128,
    /// Funds of all accounts that are neither staked nor waiting.
    pub total_available: u128,
    /// Funds that back the stake shares, whether or not a staking pool has them yet.
    pub total_for_staking: u128,
    /// The part of `total_for_staking` that staking pools have.
    pub total_actually_staked: u128,
    /// Stake shares of all accounts.
    pub total_stake_shares: u128,
    /// Governance tokens of all accounts.
    pub total_g_skash: u128,
    /// Governance tokens per hundred units of staking reward.
    pub staker_g_skash_mult_pct: u16,
    /// The funds with which the liquidity pool asks the least discount.
    pub nslp_near_target: u128,
    /// The greatest discount of the liquidity pool.
    pub nslp_max_discount_basis_points: u16,
    /// The least discount of the liquidity pool.
    pub nslp_min_discount_basis_points: u16,
    /// The staking pools.
    pub staking_pools: Vec<StakingPoolInfo>,
    /// The accounts, by account id.
    pub accounts: LookupMap<String, AccountRecord>,
}

/// The figures of a [`DiversifiedPool`].
#[verifier::ext_equal]
pub struct PoolView {
    pub owner_account_id: Seq<char>,
    pub min_account_balance: int,
    pub total_available: int,
    pub total_for_staking: int,
    pub total_actually_staked: int,
    pub total_stake_shares: int,
    pub total_g_skash: int,
    pub staker_g_skash_mult_pct: int,
    pub nslp_near_target: int,
    pub nslp_max_discount_basis_points: int,
    pub nslp_min_discount_basis_points: int,
    pub staking_pools: Seq<StakingPoolInfo>,
    pub accounts: Map<Seq<char>, AccountView>,
}

impl View for DiversifiedPool {
    type V = PoolView;

    open spec fn view(&self) -> PoolView {
        PoolView {
            owner_account_id: self.owner_account_id@,
            min_account_balance: self.min_account_balance as int,
            total_available: self.total_available as int,
            total_for_staking: self.total_for_staking as int,
            total_actually_staked: self.total_actually_staked as int,
            total_stake_shares: self.total_stake_shares as int,
            total_g_skash: self.total_g_skash as int,
            staker_g_skash_mult_pct: self.staker_g_skash_mult_pct as int,
            nslp_near_target: self.nslp_near_target as int,
            nslp_max_discount_basis_points: self.nslp_max_discount_basis_points as int,
            nslp_min_discount_basis_points: self.nslp_min_discount_basis_points as int,
            staking_pools: self.staking_pools@,
            accounts: stored_records(self.accounts).map_values(
                |record: AccountRecord| account_of_record(record),
            ),
        }
    }
}

impl PoolView {
    /// The account of `id`, which is fresh where the pool has none.
    pub open spec fn account(self, id: Seq<char>) -> AccountView {
        if self.accounts.contains_key(id) {
            self.accounts[id]
        } else {
            AccountView::fresh()
        }
    }

    /// The pool with `account` as the account of `id`. An empty account is not kept.
    pub open spec fn with_account(self, id: Seq<char>, account: AccountView) -> PoolView {
        PoolView {
            accounts: if account.is_empty() {
                self.accounts.remove(id)
            } else {
                self.accounts.insert(id, account)
            },
            ..self
        }
    }

    /// The account of the liquidity pool.
    pub open spec fn nslp_account(self) -> AccountView {
        self.account(NSLP_INTERNAL_ACCOUNT@)
    }

    /// The stake shares that `amount` buys.
    pub open spec fn stake_shares_worth(self, amount: int) -> int {
        shares_worth(amount, self.total_for_staking, self.total_stake_shares)
    }

    /// What `num_shares` stake shares are worth.
    pub open spec fn value_of_stake_shares(self, num_shares: int) -> int {
        value_of_shares(num_shares, self.total_for_staking, self.total_stake_shares)
    }

    /// Whether a [`DiversifiedPool`] can hold these figures.
    pub open spec fn representable(self) -> bool {
        &&& fits(self.min_account_balance)
        &&& fits(self.total_available)
        &&& fits(self.total_for_staking)
        &&& fits(self.total_actually_staked)
        &&& fits(self.total_stake_shares)
        &&& fits(self.total_g_skash)
        &&& 0 <= self.staker_g_skash_mult_pct <= u16::MAX
        &&& fits(self.nslp_near_target)
        &&& 0 <= self.nslp_max_discount_basis_points <= u16::MAX
        &&& 0 <= self.nslp_min_discount_basis_points <= u16::MAX
        &&& forall|id: Seq<char>|
            #![trigger self.accounts[id]]
            self.accounts.contains_key(id) ==> self.accounts[id].representable()
    }

    /// Governance tokens that are owed to an account for its staking rewards.
    pub open spec fn pending_g_skash(self, account: AccountView) -> int {
        account.pending_g_skash(self.value_of_stake_shares(account.stake_shares))
    }

    /// Whether the pending governance tokens of an account can be credited:
    /// every figure on the way to them fits.
    pub open spec fn can_realize_g_skash(self, account: AccountView) -> bool {
        let valued_shares: int = self.value_of_stake_shares(account.stake_shares);
        &&& fits(valued_shares)
        &&& fits_signed(valued_shares)
        &&& fits(account.gain(valued_shares) * account.multiplier_pct)
        &&& fits(account.realized_g_skash + self.pending_g_skash(account))
        &&& fits(self.total_g_skash + self.pending_g_skash(account))
    }

    /// An account after its pending governance tokens were credited.
    pub open spec fn account_with_g_skash_realized(self, account: AccountView) -> AccountView {
        account.realized(
            self.value_of_stake_shares(account.stake_shares),
            self.staker_g_skash_mult_pct,
        )
    }

    /// The pool after an account's pending governance tokens were credited.
    pub open spec fn with_g_skash_realized(self, account: AccountView) -> PoolView {
        PoolView { total_g_skash: self.total_g_skash + self.pending_g_skash(account), ..self }
    }
}

/// Refuses an amount below five NEAR.
pub fn assert_min_amount(amount: u128) -> (res: Result<(), PoolError>)
    ensures
        res == (if amount < FIVE_NEAR {
            Err(PoolError::BelowMinAmount)
        } else {
            Ok(())
        }),
{
    if amount < FIVE_NEAR {
        Err(PoolError::BelowMinAmount)
    } else {
        Ok(())
    }
}

impl DiversifiedPool {
    /// Refuses a caller that is not the owner. `predecessor_id` is the account that calls.
    pub fn assert_owner_calling(&self, predecessor_id: &String) -> (res: Result<(), PoolError>)
        ensures
            res == (if predecessor_id@ == self@.owner_account_id {
                Ok(())
            } else {
                Err(PoolError::NotOwner)
            }),
    {
        if *predecessor_id == self.owner_account_id {
            Ok(())
        } else {
            Err(PoolError::NotOwner)
        }
    }

    /// The account of `account_id`, or `None` where the pool has none.
    pub fn find_account(&self, account_id: &String) -> (found: Option<Account>)
        requires
            storable_id(account_id@),
        ensures
            match found {
                Some(account) => self@.accounts.contains_key(account_id@) && account@
                    == self@.accounts[account_id@],
                None => !self@.accounts.contains_key(account_id@),
            },
    {
        match read_record(&self.accounts, account_id) {
            Some(record) => Some(Account::from_record(record)),
            None => None,
        }
    }

    /// The account of `account_id`, or a fresh one where the pool has none.
    pub fn internal_get_account(&self, account_id: &String) -> (account: Account)
        requires
            storable_id(account_id@),
        ensures
            account@ == self@.account(account_id@),
    {
        match self.find_account(account_id) {
            Some(account) => account,
            None => Account::default(),
        }
    }

    /// Keeps `account` as the account of `account_id`. An account whose balances
    /// are all zero is deleted instead, to release its storage.
    pub fn internal_update_account(&mut self, account_id: &String, account: &Account)
        requires
            storable_id(account_id@),
        ensures
            final(self)@ == old(self)@.with_account(account_id@, account@),
    {
        if account.is_empty() {
            delete_record(&mut self.accounts, account_id);
        } else {
            let record: AccountRecord = account.to_record();
            write_record(&mut self.accounts, account_id, &record);
        }
        assert(self@.accounts =~= old(self)@.with_account(account_id@, account@).accounts);
    }

    /// The id of the liquidity pool's account.
    pub fn nslp_account_id() -> (id: String)
        ensures
            id@ == NSLP_INTERNAL_ACCOUNT@,
            storable_id(id@),
    {
        proof {
            reveal_strlit("..NSLP..");
        }
        NSLP_INTERNAL_ACCOUNT.to_owned()
    }

    /// The account of the liquidity pool, or a fresh one where there is none.
    pub fn internal_get_nslp_account(&self) -> (account: Account)
        ensures
            account@ == self@.nslp_account(),
    {
        self.internal_get_account(&Self::nslp_account_id())
    }

    /// Keeps `nslp_account` as the account of the liquidity pool.
    pub fn internal_save_nslp_account(&mut self, nslp_account: &Account)
        ensures
            final(self)@ == old(self)@.with_account(NSLP_INTERNAL_ACCOUNT@, nslp_account@),
    {
        self.internal_update_account(&Self::nslp_account_id(), nslp_account);
    }

    /// The stake shares that `amount` buys at the current share price. If the
    /// amount and the shares are incorporated, the price remains the same.
    pub fn stake_shares_from_amount(&self, amount: u128) -> (res: Result<u128, PoolError>)
        ensures
            match res {
                Ok(num_shares) => num_shares == self@.stake_shares_worth(amount as int),
                Err(e) => e == PoolError::Overflow && !fits(
                    self@.stake_shares_worth(amount as int),
                ),
            },
    {
        match shares_from_amount(amount, self.total_for_staking, self.total_stake_shares) {
            Some(num_shares) => Ok(num_shares),
            None => Err(PoolError::Overflow),
        }
    }

    /// What `num_shares` stake shares are worth at the current share price.
    pub fn amount_from_stake_shares(&self, num_shares: u128) -> (res: Result<u128, PoolError>)
        ensures
            match res {
                Ok(amount) => amount == self@.value_of_stake_shares(num_shares as int),
                Err(e) => e == PoolError::Overflow && !fits(
                    self@.value_of_stake_shares(num_shares as int),
                ),
            },
    {
        match amount_from_shares(num_shares, self.total_for_staking, self.total_stake_shares) {
            Some(amount) => Ok(amount),
            None => Err(PoolError::Overflow),
        }
    }
}

impl Account {
    /// Credits the governance tokens that are owed to the account for its
    /// staking rewards. Refused where a figure would not fit.
    pub fn stake_realize_g_skash(&mut self, main: &mut DiversifiedPool) -> (res: Result<
        (),
        PoolError,
    >)
        ensures
            match res {
                Ok(()) => {
                    &&& old(main)@.can_realize_g_skash(old(self)@)
                    &&& final(self)@ == old(main)@.account_with_g_skash_realized(old(self)@)
                    &&& final(main)@ == old(main)@.with_g_skash_realized(old(self)@)
                },
                Err(e) => {
                    &&& e == PoolError::Overflow
                    &&& !old(main)@.can_realize_g_skash(old(self)@)
                    &&& *final(self) == *old(self)
                    &&& *final(main) == *old(main)
                },
            },
    {
        let valued_shares: u128 = main.amount_from_stake_shares(self.stake_shares)?;
        if valued_shares > i128::MAX as u128 {
            return Err(PoolError::Overflow);
        }
        let delta_staked: i128 = self.staking_meter.delta_staked;
        let valued: i128 = valued_shares as i128;
        let gain: u128 = if valued < delta_staked {
            0
        } else if delta_staked >= 0 {
            valued_shares - delta_staked as u128
        } else {
            valued_shares + (-(delta_staked + 1)) as u128 + 1
        };
        let scaled: u128 = match gain.checked_mul(self.staking_meter.last_multiplier_pct as u128) {
            Some(product) => product,
            None => return Err(PoolError::Overflow),
        };
        let pending: u128 = scaled / 100;
        let realized: u128 = match self.realized_g_skash.checked_add(pending) {
            Some(sum) => sum,
            None => return Err(PoolError::Overflow),
        };
        let total_g_skash: u128 = match main.total_g_skash.checked_add(pending) {
            Some(sum) => sum,
            None => return Err(PoolError::Overflow),
        };
        self.realized_g_skash = realized;
        self.staking_meter.delta_staked = valued;
        self.staking_meter.last_multiplier_pct = main.staker_g_skash_mult_pct;
        main.total_g_skash = total_g_skash;
        Ok(())
    }
}

} // verus!
