//! Which requests are granted, and why the others are refused, said of the
//! amounts asked for and of the figures of the pool.

use crate::account::AccountView;
use crate::constants::{NSLP_INTERNAL_ACCOUNT, ONE_NEAR};
use crate::error::PoolError;
use crate::laws::effects::lemma_symbols_differ;
use crate::laws::rounding::{
    are_worth, buys, is_owed, law_g_skash_can_be_credited_where_it_fits,
    law_g_skash_is_owed_for_gains, law_stake_shares_trade_at_the_price,
    lemma_bought_is_not_negative, lemma_owed_is_not_negative, lemma_worth_is_not_negative,
};
use crate::math::law_covered_amount_buys_no_more_shares;
use crate::pool::PoolView;
use vstd::prelude::*;

verus! {

/// Whether an account whose shares are worth `value` can be credited with `owed`.
pub open spec fn is_creditable(pool: PoolView, account: AccountView, value: int, owed: int) -> bool {
    &&& value <= i128::MAX
    &&& (value - account.delta_staked) * account.multiplier_pct <= u128::MAX
    &&& account.realized_g_skash + owed <= u128::MAX
    &&& pool.total_g_skash + owed <= u128::MAX
}

/// A deposit is granted from five NEAR on, as long as the sums fit.
pub proof fn law_deposit_is_granted(pool: PoolView, id: Seq<char>, amount: int)
    requires
        pool.representable(),
    ensures
        ({
            let refusal: Option<PoolError> = pool.deposit_refusal(id, amount);
            let small: bool = amount < 5 * ONE_NEAR;
            &&& refusal is None <==> !small && pool.account(id).available + amount <= u128::MAX
                && pool.total_available + amount <= u128::MAX
            &&& refusal == Some(PoolError::BelowMinAmount) <==> small
            &&& refusal is None || refusal == Some(PoolError::BelowMinAmount) || refusal == Some(
                PoolError::Overflow,
            )
        }),
{
    assert(pool.account(id).representable());
}

/// A withdrawal is granted if what was requested is available, and the account
/// keeps the minimum balance or has nothing left at all.
pub proof fn law_withdrawal_is_granted(pool: PoolView, id: Seq<char>, requested: int, paid: int)
    requires
        pool.representable(),
        0 <= requested,
        200 * (pool.account(id).available - requested) >= ONE_NEAR ==> paid == requested,
        200 * (pool.account(id).available - requested) < ONE_NEAR ==> paid == pool.account(
            id,
        ).available,
    ensures
        ({
            let refusal: Option<PoolError> = pool.withdraw_refusal(id, requested);
            let account: AccountView = pool.account(id);
            let left: int = account.available - paid;
            let closed: bool = left + account.stake_shares + account.unstaked
                + account.realized_g_skash + account.nslp_shares == 0;
            let enough: bool = requested <= account.available;
            let kept: bool = closed || left >= pool.min_account_balance;
            &&& refusal is None <==> enough && kept && paid <= pool.total_available
            &&& refusal == Some(PoolError::NotEnoughAvailableToWithdraw) <==> !enough
            &&& refusal == Some(PoolError::BelowMinAccountBalance) <==> enough && !kept
            &&& refusal == Some(PoolError::Overflow) <==> enough && kept && paid
                > pool.total_available
        }),
{
    assert(pool.account(id).representable());
}

/// Staking is granted from five NEAR on if the amount is available, buys a share,
/// and every figure on the way fits.
pub proof fn law_staking_is_granted(
    pool: PoolView,
    id: Seq<char>,
    amount: int,
    value: int,
    owed: int,
    bought: int,
)
    requires
        pool.representable(),
        0 <= amount,
        are_worth(
            value,
            pool.account(id).stake_shares,
            pool.total_for_staking,
            pool.total_stake_shares,
        ),
        is_owed(owed, pool.account(id), value),
        buys(bought, amount, pool.total_for_staking, pool.total_stake_shares),
    ensures
        ({
            let refusal: Option<PoolError> = pool.stake_refusal(id, amount);
            let account: AccountView = pool.account(id);
            let small: bool = amount < 5 * ONE_NEAR;
            let enough: bool = amount <= account.available;
            let creditable: bool = is_creditable(pool, account, value, owed);
            let fit: bool = account.stake_shares + bought <= u128::MAX && value + amount
                <= i128::MAX && pool.total_stake_shares + bought <= u128::MAX
                && pool.total_for_staking + amount <= u128::MAX;
            &&& refusal is None <==> !small && enough && creditable && bought > 0 && fit && amount
                <= pool.total_available && !pool.before_clearing(id, amount).clearing_overflows()
            &&& refusal == Some(PoolError::BelowMinAmount) <==> small
            &&& refusal == Some(PoolError::NotEnoughAvailableToStake) <==> !small && !enough
            &&& refusal == Some(PoolError::NoShares) <==> !small && enough && creditable && bought
                == 0
            &&& refusal == Some(PoolError::AvailableInconsistency) <==> !small && enough
                && creditable && bought > 0 && fit && amount > pool.total_available
            &&& refusal is None || refusal == Some(PoolError::BelowMinAmount) || refusal == Some(
                PoolError::NotEnoughAvailableToStake,
            ) || refusal == Some(PoolError::NoShares) || refusal == Some(
                PoolError::AvailableInconsistency,
            ) || refusal == Some(PoolError::Overflow)
        }),
{
    let account: AccountView = pool.account(id);
    assert(account.representable());
    law_stake_shares_trade_at_the_price(pool, bought, amount, value, account.stake_shares);
    law_g_skash_is_owed_for_gains(pool, account, value, owed);
    law_g_skash_can_be_credited_where_it_fits(pool, account, value, owed);
    lemma_worth_is_not_negative(
        value,
        account.stake_shares,
        pool.total_for_staking,
        pool.total_stake_shares,
    );
    lemma_owed_is_not_negative(owed, account, value);
    lemma_bought_is_not_negative(
        bought,
        amount,
        pool.total_for_staking,
        pool.total_stake_shares,
    );
}

/// The liquidity pool is kept from selling only by a figure that does not fit.
pub proof fn law_clearing_is_granted(pool: PoolView, value: int, ordered_shares: int)
    requires
        pool.representable(),
        pool.total_for_staking > pool.total_actually_staked,
        pool.account(NSLP_INTERNAL_ACCOUNT@).stake_shares > 0,
        are_worth(
            value,
            pool.account(NSLP_INTERNAL_ACCOUNT@).stake_shares,
            pool.total_for_staking,
            pool.total_stake_shares,
        ),
        buys(
            ordered_shares,
            pool.total_for_staking - pool.total_actually_staked,
            pool.total_for_staking,
            pool.total_stake_shares,
        ),
    ensures
        ({
            let nslp: AccountView = pool.account(NSLP_INTERNAL_ACCOUNT@);
            let ordered: int = pool.total_for_staking - pool.total_actually_staked;
            let all: bool = value <= ordered;
            let sold: int = if all {
                value
            } else {
                ordered
            };
            pool.clearing_overflows() <==> {
                ||| value > u128::MAX
                ||| nslp.available + sold > u128::MAX
                ||| pool.total_available + sold > u128::MAX
                ||| nslp.delta_staked - sold < i128::MIN
                ||| all && nslp.stake_shares > pool.total_stake_shares
                ||| !all && ordered_shares > pool.total_stake_shares
            }
        }),
{
    let nslp: AccountView = pool.account(NSLP_INTERNAL_ACCOUNT@);
    let ordered: int = pool.total_for_staking - pool.total_actually_staked;
    assert(nslp.representable());
    law_stake_shares_trade_at_the_price(pool, ordered_shares, ordered, value, nslp.stake_shares);
    lemma_worth_is_not_negative(
        value,
        nslp.stake_shares,
        pool.total_for_staking,
        pool.total_stake_shares,
    );
    lemma_bought_is_not_negative(
        ordered_shares,
        ordered,
        pool.total_for_staking,
        pool.total_stake_shares,
    );
    if ordered <= value {
        law_covered_amount_buys_no_more_shares(
            ordered,
            nslp.stake_shares,
            pool.total_for_staking,
            pool.total_stake_shares,
        );
    }
}

/// Without an order to stake, or without staked tokens to sell, nothing can fail to fit.
pub proof fn law_nothing_to_clear_is_granted(pool: PoolView)
    requires
        pool.total_for_staking <= pool.total_actually_staked || pool.account(
            NSLP_INTERNAL_ACCOUNT@,
        ).stake_shares <= 0,
    ensures
        !pool.clearing_overflows(),
{
}

/// Unstaking is granted for any amount that the staked tokens are worth, if it
/// takes them all or buys a share, and every figure on the way fits.
pub proof fn law_unstaking_is_granted(
    pool: PoolView,
    id: Seq<char>,
    requested: int,
    epoch_height: int,
    value: int,
    owed: int,
    requested_shares: int,
)
    requires
        pool.representable(),
        0 <= requested,
        0 <= epoch_height,
        are_worth(
            value,
            pool.account(id).stake_shares,
            pool.total_for_staking,
            pool.total_stake_shares,
        ),
        is_owed(owed, pool.account(id), value),
        buys(requested_shares, requested, pool.total_for_staking, pool.total_stake_shares),
    ensures
        ({
            let refusal: Option<PoolError> = pool.unstake_refusal(id, requested, epoch_height);
            let account: AccountView = pool.account(id);
            let all: bool = value - requested <= ONE_NEAR;
            let taken: int = if all {
                value
            } else {
                requested
            };
            let burned: int = if all {
                account.stake_shares
            } else {
                requested_shares
            };
            let creditable: bool = is_creditable(pool, account, value, owed);
            let fit: bool = account.unstaked + taken <= u128::MAX && epoch_height
                + pool.unstaking_delay(taken) <= u64::MAX && burned <= pool.total_stake_shares
                && taken <= pool.total_for_staking;
            &&& refusal is None <==> requested <= value && creditable && (all || requested_shares
                > 0) && fit
            &&& refusal == Some(PoolError::NotEnoughSkash) <==> value < requested && value
                <= u128::MAX
            &&& refusal == Some(PoolError::NoShares) <==> requested <= value && creditable && !all
                && requested_shares == 0
            &&& refusal is None || refusal == Some(PoolError::NotEnoughSkash) || refusal == Some(
                PoolError::NoShares,
            ) || refusal == Some(PoolError::Overflow)
        }),
{
    let account: AccountView = pool.account(id);
    assert(account.representable());
    law_stake_shares_trade_at_the_price(
        pool,
        requested_shares,
        requested,
        value,
        account.stake_shares,
    );
    law_g_skash_is_owed_for_gains(pool, account, value, owed);
    law_g_skash_can_be_credited_where_it_fits(pool, account, value, owed);
    lemma_worth_is_not_negative(
        value,
        account.stake_shares,
        pool.total_for_staking,
        pool.total_stake_shares,
    );
    lemma_owed_is_not_negative(owed, account, value);
    lemma_bought_is_not_negative(
        requested_shares,
        requested,
        pool.total_for_staking,
        pool.total_stake_shares,
    );
    if requested <= value {
        law_covered_amount_buys_no_more_shares(
            requested,
            account.stake_shares,
            pool.total_for_staking,
            pool.total_stake_shares,
        );
    }
}

/// Incorporating an amount is refused only where it buys shares and a sum does not fit.
pub proof fn law_incorporation_is_granted(pool: PoolView, id: Seq<char>, amount: int, bought: int)
    requires
        pool.representable(),
        0 <= amount,
        buys(bought, amount, pool.total_for_staking, pool.total_stake_shares),
    ensures
        pool.incorporation_overflows(id, amount) <==> bought > 0 && (pool.account(id).stake_shares
            + bought > u128::MAX || pool.total_stake_shares + bought > u128::MAX
            || pool.total_for_staking + amount > u128::MAX),
{
    assert(pool.account(id).representable());
    law_stake_shares_trade_at_the_price(pool, bought, amount, 0, 0);
}

/// Nothing is transferred to a receiver without an account, and no token has
/// another symbol than the three.
pub proof fn law_transfer_needs_receiver_and_token(
    pool: PoolView,
    sender: Seq<char>,
    receiver: Seq<char>,
    symbol: Seq<char>,
    amount: int,
)
    ensures
        ({
            let refusal: Option<PoolError> = pool.transfer_refusal(
                sender,
                receiver,
                symbol,
                amount,
            );
            &&& refusal == Some(PoolError::UnknownReceiver) <==> !pool.accounts.contains_key(
                receiver,
            )
            &&& refusal == Some(PoolError::InvalidSymbol) <==> pool.accounts.contains_key(receiver)
                && symbol != "NEAR"@ && symbol != "SKASH"@ && symbol != "G-SKASH"@
        }),
{
}

/// A transfer of NEAR is granted if it is available, as long as the sum fits.
pub proof fn law_near_transfer_is_granted(
    pool: PoolView,
    sender: Seq<char>,
    receiver: Seq<char>,
    amount: int,
)
    requires
        pool.representable(),
        pool.accounts.contains_key(receiver),
        0 <= amount,
    ensures
        ({
            let refusal: Option<PoolError> = pool.transfer_refusal(
                sender,
                receiver,
                "NEAR"@,
                amount,
            );
            let enough: bool = amount <= pool.account(sender).available;
            let fit: bool = sender == receiver || pool.account(receiver).available + amount
                <= u128::MAX;
            &&& refusal is None <==> enough && fit
            &&& refusal == Some(PoolError::NotEnoughNear) <==> !enough
            &&& refusal == Some(PoolError::Overflow) <==> enough && !fit
        }),
{
    assert(pool.account(receiver).representable());
}

/// A transfer of SKASH is granted if the sender's shares are worth it, as long as
/// the receiver's shares fit.
pub proof fn law_skash_transfer_is_granted(
    pool: PoolView,
    sender: Seq<char>,
    receiver: Seq<char>,
    amount: int,
    value: int,
    shares: int,
)
    requires
        pool.representable(),
        pool.accounts.contains_key(receiver),
        0 <= amount,
        are_worth(
            value,
            pool.account(sender).stake_shares,
            pool.total_for_staking,
            pool.total_stake_shares,
        ),
        buys(shares, amount, pool.total_for_staking, pool.total_stake_shares),
    ensures
        ({
            let refusal: Option<PoolError> = pool.transfer_refusal(
                sender,
                receiver,
                "SKASH"@,
                amount,
            );
            let enough: bool = amount <= value;
            let fit: bool = value <= u128::MAX && (sender == receiver || pool.account(
                receiver,
            ).stake_shares + shares <= u128::MAX);
            &&& refusal is None <==> enough && fit
            &&& refusal == Some(PoolError::NotEnoughSkash) <==> !enough && value <= u128::MAX
            &&& refusal is None || refusal == Some(PoolError::NotEnoughSkash) || refusal == Some(
                PoolError::Overflow,
            )
        }),
{
    let account: AccountView = pool.account(sender);
    assert(pool.account(receiver).representable());
    assert(account.representable());
    lemma_symbols_differ();
    law_stake_shares_trade_at_the_price(pool, shares, amount, value, account.stake_shares);
    lemma_worth_is_not_negative(
        value,
        account.stake_shares,
        pool.total_for_staking,
        pool.total_stake_shares,
    );
    lemma_bought_is_not_negative(
        shares,
        amount,
        pool.total_for_staking,
        pool.total_stake_shares,
    );
}

/// A transfer of G-SKASH is granted if what the sender has, with what it is owed,
/// covers it, as long as the figures fit.
pub proof fn law_g_skash_transfer_is_granted(
    pool: PoolView,
    sender: Seq<char>,
    receiver: Seq<char>,
    amount: int,
    value: int,
    owed: int,
)
    requires
        pool.representable(),
        pool.accounts.contains_key(receiver),
        0 <= amount,
        are_worth(
            value,
            pool.account(sender).stake_shares,
            pool.total_for_staking,
            pool.total_stake_shares,
        ),
        is_owed(owed, pool.account(sender), value),
    ensures
        ({
            let refusal: Option<PoolError> = pool.transfer_refusal(
                sender,
                receiver,
                "G-SKASH"@,
                amount,
            );
            let account: AccountView = pool.account(sender);
            let creditable: bool = is_creditable(pool, account, value, owed);
            let enough: bool = amount <= account.realized_g_skash + owed;
            let fit: bool = sender == receiver || pool.account(receiver).realized_g_skash + amount
                <= u128::MAX;
            &&& refusal is None <==> creditable && enough && fit
            &&& refusal == Some(PoolError::NotEnoughGSkash) <==> creditable && !enough
            &&& refusal is None || refusal == Some(PoolError::NotEnoughGSkash) || refusal == Some(
                PoolError::Overflow,
            )
        }),
{
    let account: AccountView = pool.account(sender);
    assert(pool.account(receiver).representable());
    assert(account.representable());
    lemma_symbols_differ();
    law_stake_shares_trade_at_the_price(pool, 0, 0, value, account.stake_shares);
    law_g_skash_is_owed_for_gains(pool, account, value, owed);
    law_g_skash_can_be_credited_where_it_fits(pool, account, value, owed);
}

/// A sale of staked tokens has a price unless the discount takes it all, or the
/// target is too large to reckon a discount that has to be reckoned.
pub proof fn law_sale_is_granted(pool: PoolView, available_near: int, skash: int)
    requires
        0 <= pool.nslp_near_target,
    ensures
        ({
            let refusal: Option<PoolError> = pool.sale_refusal(available_near, skash);
            let left: int = available_near - skash;
            let reckoned: bool = left > 0 && pool.nslp_near_target < 20 * (left + 1);
            let too_large: bool = reckoned && pool.nslp_near_target * 100 > u128::MAX;
            &&& pool.discount_overflows(available_near, skash) <==> too_large
            &&& refusal is None <==> !too_large && pool.discount(available_near, skash) < 10_000
            &&& refusal == Some(PoolError::Overflow) <==> too_large
            &&& refusal == Some(PoolError::DiscountInconsistency) <==> !too_large && pool.discount(
                available_near,
                skash,
            ) >= 10_000
        }),
{
}

} // verus!
