//! What the figures that the pool rounds stand for, said without a division:
//! which whole number of shares, of value or of tokens is the right one.

use crate::account::AccountView;
use crate::constants::{
    FIVE_NEAR, MIN_STAKE_UNSTAKE_AMOUNT_MOVEMENT, NUM_EPOCHS_TO_UNLOCK, ONE_NEAR, ONE_NEAR_CENT,
};
use crate::math::{fits, fits_signed, percentage, proportion, shares_worth, value_of_shares};
use crate::pool::PoolView;
use vstd::arithmetic::div_mod::{
    lemma_fundamental_div_mod, lemma_fundamental_div_mod_converse, lemma_mod_bound,
};
use vstd::prelude::*;

verus! {

/// Whether `part` is the greatest whole number of `unit`s that `whole` has room for.
pub open spec fn rounds_down(part: int, whole: int, unit: int) -> bool {
    part * unit <= whole < (part + 1) * unit
}

/// Whether `bought` shares are what `amount` buys: as many as the price (total
/// amount over total shares) lets it pay for, or one per unit where there are no
/// shares yet. Shares that nothing backs have no price, and none are sold.
pub open spec fn buys(bought: int, amount: int, total_amount: int, total_shares: int) -> bool {
    if total_shares == 0 {
        bought == amount
    } else if total_amount == 0 {
        bought == 0
    } else {
        rounds_down(bought, amount * total_shares, total_amount)
    }
}

/// Whether `value` is what `held` shares are worth: their part of the total amount.
pub open spec fn are_worth(value: int, held: int, total_amount: int, total_shares: int) -> bool {
    if total_shares == 0 {
        value == 0
    } else {
        rounds_down(value, held * total_amount, total_shares)
    }
}

/// Whether `owed` governance tokens are due to an account whose shares are worth
/// `value`: its multiplier, in hundredths, of what they gained over what was staked.
pub open spec fn is_owed(owed: int, account: AccountView, value: int) -> bool {
    if value <= account.delta_staked {
        owed == 0
    } else {
        rounds_down(owed, (value - account.delta_staked) * account.multiplier_pct, 100)
    }
}

/// There is exactly one such part, and division finds it.
pub proof fn lemma_rounds_down_is_division(part: int, whole: int, unit: int)
    requires
        0 < unit,
    ensures
        rounds_down(part, whole, unit) <==> part == whole / unit,
{
    lemma_fundamental_div_mod(whole, unit);
    lemma_mod_bound(whole, unit);
    let quotient: int = whole / unit;
    assert((quotient + 1) * unit == unit * quotient + unit) by (nonlinear_arith);
    assert((part + 1) * unit == part * unit + unit) by (nonlinear_arith);
    assert(unit * quotient == quotient * unit) by (nonlinear_arith);
    if rounds_down(part, whole, unit) {
        lemma_fundamental_div_mod_converse(whole, unit, part, whole - part * unit);
    }
}

/// A proportion is rounded down, and by less than one.
pub proof fn law_proportion_rounds_down(
    part: int,
    amount: int,
    numerator: int,
    denominator: int,
)
    requires
        0 < denominator,
    ensures
        part == proportion(amount, numerator, denominator) <==> rounds_down(
            part,
            amount * numerator,
            denominator,
        ),
{
    lemma_rounds_down_is_division(part, amount * numerator, denominator);
}

/// Ten thousand basis points are the whole, and a percentage is rounded down.
pub proof fn law_percentage_rounds_down(part: int, basis_points: int, amount: int)
    ensures
        part == percentage(basis_points, amount) <==> rounds_down(
            part,
            basis_points * amount,
            10_000,
        ),
        percentage(10_000, amount) == amount,
{
    lemma_rounds_down_is_division(part, basis_points * amount, 10_000);
}

/// An amount buys as many shares as the price lets it pay for.
pub proof fn law_amount_buys_its_shares(
    bought: int,
    amount: int,
    total_amount: int,
    total_shares: int,
)
    requires
        0 <= amount,
        0 <= total_amount,
        0 <= total_shares,
    ensures
        bought == shares_worth(amount, total_amount, total_shares) <==> buys(
            bought,
            amount,
            total_amount,
            total_shares,
        ),
{
    if total_shares != 0 && total_amount != 0 {
        lemma_rounds_down_is_division(bought, amount * total_shares, total_amount);
        if amount == 0 {
            assert(amount * total_shares == 0) by (nonlinear_arith)
                requires
                    amount == 0,
            ;
            lemma_fundamental_div_mod_converse(0, total_amount, 0, 0);
        }
    }
}

/// Shares are worth their part of the total amount.
pub proof fn law_shares_are_worth_their_part(
    value: int,
    held: int,
    total_amount: int,
    total_shares: int,
)
    requires
        0 <= held,
        0 <= total_amount,
        0 <= total_shares,
    ensures
        value == value_of_shares(held, total_amount, total_shares) <==> are_worth(
            value,
            held,
            total_amount,
            total_shares,
        ),
{
    if total_shares != 0 {
        lemma_rounds_down_is_division(value, held * total_amount, total_shares);
        if held == 0 {
            assert(held * total_amount == 0) by (nonlinear_arith)
                requires
                    held == 0,
            ;
            lemma_fundamental_div_mod_converse(0, total_shares, 0, 0);
        }
    }
}

/// All shares together are worth all of the total amount.
pub proof fn law_all_shares_are_worth_the_total(total_amount: int, total_shares: int)
    requires
        0 <= total_amount,
        0 < total_shares,
    ensures
        value_of_shares(total_shares, total_amount, total_shares) == total_amount,
{
    assert((total_amount + 1) * total_shares == total_shares * total_amount + total_shares)
        by (nonlinear_arith);
    assert(total_amount * total_shares == total_shares * total_amount) by (nonlinear_arith);
    law_shares_are_worth_their_part(total_amount, total_shares, total_amount, total_shares);
}

/// The pool trades its stake shares at the price of its funds for staking.
pub proof fn law_stake_shares_trade_at_the_price(
    pool: PoolView,
    bought: int,
    amount: int,
    value: int,
    held: int,
)
    requires
        pool.representable(),
        0 <= amount,
        0 <= held,
    ensures
        bought == pool.stake_shares_worth(amount) <==> buys(
            bought,
            amount,
            pool.total_for_staking,
            pool.total_stake_shares,
        ),
        value == pool.value_of_stake_shares(held) <==> are_worth(
            value,
            held,
            pool.total_for_staking,
            pool.total_stake_shares,
        ),
{
    law_amount_buys_its_shares(bought, amount, pool.total_for_staking, pool.total_stake_shares);
    law_shares_are_worth_their_part(
        value,
        held,
        pool.total_for_staking,
        pool.total_stake_shares,
    );
}

/// Governance tokens are owed for what an account's shares have gained.
pub proof fn law_g_skash_is_owed_for_gains(
    pool: PoolView,
    account: AccountView,
    value: int,
    owed: int,
)
    requires
        pool.representable(),
        account.representable(),
        are_worth(
            value,
            account.stake_shares,
            pool.total_for_staking,
            pool.total_stake_shares,
        ),
    ensures
        owed == pool.pending_g_skash(account) <==> is_owed(owed, account, value),
{
    law_stake_shares_trade_at_the_price(pool, 0, 0, value, account.stake_shares);
    lemma_rounds_down_is_division(
        owed,
        (value - account.delta_staked) * account.multiplier_pct,
        100,
    );
    assert(0 * account.multiplier_pct == 0) by (nonlinear_arith);
}

/// Governance tokens can be credited where every figure on the way to them fits,
/// and only there.
pub proof fn law_g_skash_can_be_credited_where_it_fits(
    pool: PoolView,
    account: AccountView,
    value: int,
    owed: int,
)
    requires
        pool.representable(),
        account.representable(),
        are_worth(
            value,
            account.stake_shares,
            pool.total_for_staking,
            pool.total_stake_shares,
        ),
        is_owed(owed, account, value),
    ensures
        pool.can_realize_g_skash(account) <==> {
            &&& value <= i128::MAX
            &&& (value - account.delta_staked) * account.multiplier_pct <= u128::MAX
            &&& account.realized_g_skash + owed <= u128::MAX
            &&& pool.total_g_skash + owed <= u128::MAX
        },
{
    law_stake_shares_trade_at_the_price(pool, 0, 0, value, account.stake_shares);
    law_g_skash_is_owed_for_gains(pool, account, value, owed);
    lemma_worth_is_not_negative(
        value,
        account.stake_shares,
        pool.total_for_staking,
        pool.total_stake_shares,
    );
    lemma_owed_is_not_negative(owed, account, value);
    assert(0 * account.multiplier_pct == 0) by (nonlinear_arith);
    assert(value <= account.delta_staked ==> (value - account.delta_staked)
        * account.multiplier_pct <= 0) by (nonlinear_arith)
        requires
            0 <= account.multiplier_pct,
    ;
    assert(value > account.delta_staked ==> (value - account.delta_staked)
        * account.multiplier_pct >= 0) by (nonlinear_arith)
        requires
            0 <= account.multiplier_pct,
    ;
}

/// Shares are never worth less than nothing.
pub proof fn lemma_worth_is_not_negative(
    value: int,
    held: int,
    total_amount: int,
    total_shares: int,
)
    requires
        0 <= held,
        0 <= total_amount,
        0 <= total_shares,
        are_worth(value, held, total_amount, total_shares),
    ensures
        0 <= value,
{
    if total_shares != 0 {
        assert(0 <= value) by (nonlinear_arith)
            requires
                0 <= held,
                0 <= total_amount,
                0 < total_shares,
                held * total_amount < (value + 1) * total_shares,
        ;
    }
}

/// An amount never buys less than no share.
pub proof fn lemma_bought_is_not_negative(
    bought: int,
    amount: int,
    total_amount: int,
    total_shares: int,
)
    requires
        0 <= amount,
        0 <= total_amount,
        0 <= total_shares,
        buys(bought, amount, total_amount, total_shares),
    ensures
        0 <= bought,
{
    if total_shares != 0 && total_amount != 0 {
        lemma_worth_is_not_negative(bought, amount, total_shares, total_amount);
    }
}

/// Nobody owes governance tokens to the pool.
pub proof fn lemma_owed_is_not_negative(owed: int, account: AccountView, value: int)
    requires
        0 <= account.multiplier_pct,
        is_owed(owed, account, value),
    ensures
        0 <= owed,
{
    if value > account.delta_staked {
        assert(0 <= owed) by (nonlinear_arith)
            requires
                value > account.delta_staked,
                0 <= account.multiplier_pct,
                (value - account.delta_staked) * account.multiplier_pct < (owed + 1) * 100,
        ;
    }
}

/// A user that the pool has never seen has nothing, and earns one governance
/// token per unit of reward.
pub proof fn law_unknown_account_has_nothing(pool: PoolView, id: Seq<char>)
    requires
        !pool.accounts.contains_key(id),
    ensures
        ({
            let account: AccountView = pool.account(id);
            &&& account.available == 0
            &&& account.stake_shares == 0
            &&& account.unstaked == 0
            &&& account.unlock_epoch == 0
            &&& account.realized_g_skash == 0
            &&& account.delta_staked == 0
            &&& account.multiplier_pct == 100
            &&& account.nslp_shares == 0
        }),
{
}

/// A kept account is the account of its id.
pub proof fn law_kept_account_is_found(pool: PoolView, id: Seq<char>)
    requires
        pool.accounts.contains_key(id),
    ensures
        pool.account(id) == pool.accounts[id],
{
}

/// An account is empty where its balances add up to nothing.
pub proof fn law_empty_account_has_no_balance(account: AccountView)
    requires
        account.representable(),
    ensures
        account.is_empty() <==> account.available + account.stake_shares + account.unstaked
            + account.realized_g_skash + account.nslp_shares == 0,
{
}

/// The ranges of the machine integers, and the amounts and delays of the rules.
pub proof fn law_units(figure: int)
    ensures
        fits(figure) <==> 0 <= figure < 0x1_0000_0000_0000_0000_0000_0000_0000_0000int,
        fits_signed(figure) <==> -0x8000_0000_0000_0000_0000_0000_0000_0000int <= figure
            < 0x8000_0000_0000_0000_0000_0000_0000_0000int,
        ONE_NEAR == 1_000_000_000_000 * 1_000_000_000_000int,
        100 * ONE_NEAR_CENT == ONE_NEAR,
        FIVE_NEAR == 5 * ONE_NEAR,
        MIN_STAKE_UNSTAKE_AMOUNT_MOVEMENT == 1_000 * ONE_NEAR,
        NUM_EPOCHS_TO_UNLOCK == 4,
{
}

} // verus!
