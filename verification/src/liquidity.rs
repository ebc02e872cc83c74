//! The liquidity pool: it buys staked tokens at a discount, and sells them back
//! to the contract against orders to stake.

use crate::account::{Account, AccountView};
use crate::constants::NSLP_INTERNAL_ACCOUNT;
use crate::error::PoolError;
use crate::math::{
    amount_from_shares, apply_pct, fits, law_covered_amount_buys_no_more_shares,
    law_percentage_is_a_part, percentage, shares_from_amount, shares_worth, value_of_shares,
};
use crate::pool::{DiversifiedPool, PoolView};
use vstd::prelude::*;

verus! {

impl PoolView {
    /// What the liquidity pool owns, its staked tokens included, when `nslp` is its account.
    pub open spec fn nslp_value(self, nslp: AccountView) -> int {
        nslp.available + self.value_of_stake_shares(nslp.stake_shares) + nslp.unstaked
    }

    /// Whether what the liquidity pool owns fits, and its parts do.
    pub open spec fn nslp_value_fits(self, nslp: AccountView) -> bool {
        fits(self.value_of_stake_shares(nslp.stake_shares)) && fits(self.nslp_value(nslp))
    }

    /// Whether there is an order to stake that the liquidity pool can serve.
    pub open spec fn can_clear(self) -> bool {
        self.total_for_staking > self.total_actually_staked && self.nslp_account().stake_shares > 0
    }

    /// What the liquidity pool's staked tokens are worth.
    pub open spec fn clearing_value(self) -> int {
        self.value_of_stake_shares(self.nslp_account().stake_shares)
    }

    /// What the liquidity pool sells: all of its staked tokens, or as much as was ordered.
    pub open spec fn cleared_amount(self) -> int {
        let ordered: int = self.total_for_staking - self.total_actually_staked;
        if ordered >= self.clearing_value() {
            self.clearing_value()
        } else {
            ordered
        }
    }

    /// The shares that the liquidity pool gives for it.
    pub open spec fn cleared_shares(self) -> int {
        if self.total_for_staking - self.total_actually_staked >= self.clearing_value() {
            self.nslp_account().stake_shares
        } else {
            self.stake_shares_worth(self.cleared_amount())
        }
    }

    /// The liquidity pool's account after the sale.
    pub open spec fn cleared_nslp_account(self) -> AccountView {
        let nslp: AccountView = self.nslp_account();
        AccountView {
            available: nslp.available + self.cleared_amount(),
            ..nslp.with_stake_removed(self.cleared_shares(), self.cleared_amount())
        }
    }

    /// The pool after the liquidity pool has sold what it could: the shares are
    /// burned, and the funds ordered for staking are available again.
    pub open spec fn after_clearing(self) -> PoolView {
        if self.can_clear() {
            PoolView {
                total_stake_shares: self.total_stake_shares - self.cleared_shares(),
                total_for_staking: self.total_for_staking - self.cleared_amount(),
                total_available: self.total_available + self.cleared_amount(),
                ..self
            }.with_account(NSLP_INTERNAL_ACCOUNT@, self.cleared_nslp_account())
        } else {
            self
        }
    }

    /// Whether a figure of the sale does not fit.
    pub open spec fn clearing_overflows(self) -> bool {
        &&& self.can_clear()
        &&& {
            ||| !fits(self.clearing_value())
            ||| !self.cleared_nslp_account().representable()
            ||| !fits(self.total_stake_shares - self.cleared_shares())
            ||| !fits(self.total_available + self.cleared_amount())
        }
    }

    /// Whether selling leaves so little in the liquidity pool that the discount is the greatest.
    pub open spec fn drains_nslp(self, available_near: int, max_nears_to_pay: int) -> bool {
        ||| available_near <= max_nears_to_pay
        ||| available_near - max_nears_to_pay < self.nslp_near_target / 20
    }

    /// The discount that the liquidity left would call for, before it is bounded.
    pub open spec fn raw_discount(self, available_near: int, max_nears_to_pay: int) -> int {
        self.nslp_near_target * 100 / (available_near - max_nears_to_pay) - 100
    }

    /// The discount, in basis points, at which the liquidity pool buys staked
    /// tokens for `max_nears_to_pay` when it has `available_near`.
    pub open spec fn discount(self, available_near: int, max_nears_to_pay: int) -> int {
        let raw: int = self.raw_discount(available_near, max_nears_to_pay);
        if self.drains_nslp(available_near, max_nears_to_pay) {
            self.nslp_max_discount_basis_points
        } else if raw <= self.nslp_min_discount_basis_points {
            self.nslp_min_discount_basis_points
        } else if raw > self.nslp_max_discount_basis_points {
            self.nslp_max_discount_basis_points
        } else {
            raw
        }
    }

    /// Whether the discount cannot be computed because the liquidity target is too large.
    pub open spec fn discount_overflows(self, available_near: int, max_nears_to_pay: int) -> bool {
        !self.drains_nslp(available_near, max_nears_to_pay) && !fits(self.nslp_near_target * 100)
    }

    /// Why a sale of staked tokens has no price, if it has none.
    pub open spec fn sale_refusal(self, available_near: int, skash_to_sell: int) -> Option<
        PoolError,
    > {
        if self.discount_overflows(available_near, skash_to_sell) {
            Some(PoolError::Overflow)
        } else if self.discount(available_near, skash_to_sell) >= 10_000 {
            Some(PoolError::DiscountInconsistency)
        } else {
            None
        }
    }

    /// What is paid for staked tokens: their amount less the discount.
    pub open spec fn sale_price(self, available_near: int, skash_to_sell: int) -> int {
        skash_to_sell - percentage(self.discount(available_near, skash_to_sell), skash_to_sell)
    }
}

impl DiversifiedPool {
    /// What the liquidity pool owns, its staked tokens included.
    fn nslp_total_value(&self, nslp_account: &Account) -> (res: Result<u128, PoolError>)
        ensures
            match res {
                Ok(value) => value == self@.nslp_value(nslp_account@) && self@.nslp_value_fits(
                    nslp_account@,
                ),
                Err(e) => e == PoolError::Overflow && !self@.nslp_value_fits(nslp_account@),
            },
    {
        let staked: u128 = self.amount_from_stake_shares(nslp_account.stake_shares)?;
        match nslp_account.available.checked_add(staked) {
            Some(sum) => match sum.checked_add(nslp_account.unstaked) {
                Some(value) => Ok(value),
                None => Err(PoolError::Overflow),
            },
            None => Err(PoolError::Overflow),
        }
    }

    /// The liquidity pool shares that `amount` buys, when `nslp_account` is the
    /// liquidity pool's account. What backs them includes the staked tokens that
    /// the liquidity pool has.
    pub fn nslp_shares_from_amount(&self, amount: u128, nslp_account: &Account) -> (res: Result<
        u128,
        PoolError,
    >)
        ensures
            ({
                let shares: int = shares_worth(
                    amount as int,
                    self@.nslp_value(nslp_account@),
                    nslp_account@.nslp_shares,
                );
                match res {
                    Ok(num_shares) => num_shares == shares && self@.nslp_value_fits(nslp_account@),
                    Err(e) => e == PoolError::Overflow && !(self@.nslp_value_fits(nslp_account@)
                        && fits(shares)),
                }
            }),
    {
        let total_pool_value: u128 = self.nslp_total_value(nslp_account)?;
        match shares_from_amount(amount, total_pool_value, nslp_account.nslp_shares) {
            Some(num_shares) => Ok(num_shares),
            None => Err(PoolError::Overflow),
        }
    }

    /// What `num_shares` liquidity pool shares are worth, when `nslp_account` is
    /// the liquidity pool's account.
    pub fn amount_from_nslp_shares(&self, num_shares: u128, nslp_account: &Account) -> (res: Result<
        u128,
        PoolError,
    >)
        ensures
            ({
                let worth: int = value_of_shares(
                    num_shares as int,
                    self@.nslp_value(nslp_account@),
                    nslp_account@.nslp_shares,
                );
                match res {
                    Ok(amount) => amount == worth && self@.nslp_value_fits(nslp_account@),
                    Err(e) => e == PoolError::Overflow && !(self@.nslp_value_fits(nslp_account@)
                        && fits(worth)),
                }
            }),
    {
        let total_pool_value: u128 = self.nslp_total_value(nslp_account)?;
        match amount_from_shares(num_shares, total_pool_value, nslp_account.nslp_shares) {
            Some(amount) => Ok(amount),
            None => Err(PoolError::Overflow),
        }
    }

    /// The liquidity pool gets staked tokens by the service of buying them, and
    /// needs to be rid of them soon, to recover its liquidity and to keep the
    /// discount low. Where there is an order to stake, it sells them to the
    /// contract against it. Says whether it did.
    pub fn nslp_try_liquidate_skash_by_clearing(&mut self) -> (res: Result<bool, PoolError>)
        ensures
            match res {
                Ok(cleared) => {
                    &&& !old(self)@.clearing_overflows()
                    &&& cleared == old(self)@.can_clear()
                    &&& final(self)@ == old(self)@.after_clearing()
                },
                Err(e) => {
                    &&& old(self)@.clearing_overflows()
                    &&& e == PoolError::Overflow
                    &&& *final(self) == *old(self)
                },
            },
    {
        if self.total_for_staking <= self.total_actually_staked {
            return Ok(false);
        }
        let amount_to_stake: u128 = self.total_for_staking - self.total_actually_staked;
        let mut nslp_account: Account = self.internal_get_nslp_account();
        if nslp_account.stake_shares == 0 {
            return Ok(false);
        }
        let valued_stake_shares: u128 = self.amount_from_stake_shares(nslp_account.stake_shares)?;
        let sells_all: bool = amount_to_stake >= valued_stake_shares;
        let amount_to_liquidate: u128 = if sells_all {
            valued_stake_shares
        } else {
            amount_to_stake
        };
        proof {
            law_covered_amount_buys_no_more_shares(
                amount_to_liquidate as int,
                nslp_account.stake_shares as int,
                self.total_for_staking as int,
                self.total_stake_shares as int,
            );
        }
        let shares_to_liquidate: u128 = if sells_all {
            nslp_account.stake_shares
        } else {
            self.stake_shares_from_amount(amount_to_liquidate)?
        };
        let total_available: u128 = match self.total_available.checked_add(amount_to_liquidate) {
            Some(sum) => sum,
            None => return Err(PoolError::Overflow),
        };
        let nslp_available: u128 = match nslp_account.available.checked_add(amount_to_liquidate) {
            Some(sum) => sum,
            None => return Err(PoolError::Overflow),
        };
        if self.total_stake_shares < shares_to_liquidate {
            return Err(PoolError::Overflow);
        }
        nslp_account.sub_stake_shares(shares_to_liquidate, amount_to_liquidate)?;
        nslp_account.available = nslp_available;
        self.total_stake_shares = self.total_stake_shares - shares_to_liquidate;
        self.total_for_staking = self.total_for_staking - amount_to_liquidate;
        self.total_available = total_available;
        self.internal_save_nslp_account(&nslp_account);
        Ok(true)
    }

    /// The discount, in basis points, at which the liquidity pool buys staked
    /// tokens, from what it has available and what it would pay. It is the
    /// greatest where less than a twentieth of the target would be left, and
    /// shrinks to the least as what is left nears the target.
    pub fn internal_get_discount_basis_points(
        &self,
        available_near: u128,
        max_nears_to_pay: u128,
    ) -> (res: Result<u16, PoolError>)
        ensures
            match res {
                Ok(discount) => {
                    &&& !self@.discount_overflows(available_near as int, max_nears_to_pay as int)
                    &&& discount == self@.discount(available_near as int, max_nears_to_pay as int)
                },
                Err(e) => {
                    &&& self@.discount_overflows(available_near as int, max_nears_to_pay as int)
                    &&& e == PoolError::Overflow
                },
            },
    {
        if available_near <= max_nears_to_pay {
            return Ok(self.nslp_max_discount_basis_points);
        }
        let near_after: u128 = available_near - max_nears_to_pay;
        if near_after < self.nslp_near_target / 20 {
            return Ok(self.nslp_max_discount_basis_points);
        }
        let scaled_target: u128 = match self.nslp_near_target.checked_mul(100) {
            Some(product) => product,
            None => return Err(PoolError::Overflow),
        };
        let discount_basis_plus_100: u128 = scaled_target / near_after;
        if discount_basis_plus_100 <= 100 + self.nslp_min_discount_basis_points as u128 {
            return Ok(self.nslp_min_discount_basis_points);
        }
        let discount_basis_points: u128 = discount_basis_plus_100 - 100;
        if discount_basis_points > self.nslp_max_discount_basis_points as u128 {
            return Ok(self.nslp_max_discount_basis_points);
        }
        Ok(discount_basis_points as u16)
    }

    /// What a user gets for staked tokens. It is less than their amount, because
    /// the user skips the waiting period.
    pub fn internal_get_near_amount_sell_skash(
        &self,
        available_near: u128,
        skash_to_sell: u128,
    ) -> (res: Result<u128, PoolError>)
        ensures
            match self@.sale_refusal(available_near as int, skash_to_sell as int) {
                None => res is Ok && res->Ok_0 == self@.sale_price(
                    available_near as int,
                    skash_to_sell as int,
                ),
                Some(e) => res == Err::<u128, PoolError>(e),
            },
    {
        let discount_basis_points: u16 = self.internal_get_discount_basis_points(
            available_near,
            skash_to_sell,
        )?;
        if discount_basis_points >= 10_000 {
            return Err(PoolError::DiscountInconsistency);
        }
        proof {
            law_percentage_is_a_part(discount_basis_points as int, skash_to_sell as int);
        }
        match apply_pct(discount_basis_points, skash_to_sell) {
            Some(discount) => Ok(skash_to_sell - discount),
            None => Err(PoolError::Overflow),
        }
    }
}

} // verus!
