//! The price at which the liquidity pool buys staked tokens, said of the funds
//! that it has left.

use crate::account::AccountView;
use crate::laws::rounding::{
    are_worth, buys, law_amount_buys_its_shares, law_percentage_rounds_down,
    law_shares_are_worth_their_part, law_stake_shares_trade_at_the_price,
    lemma_rounds_down_is_division, lemma_worth_is_not_negative, rounds_down,
};
use crate::math::{shares_worth, value_of_shares};
use crate::pool::PoolView;
use vstd::prelude::*;

verus! {

/// A sale that takes all that the liquidity pool has, or leaves less than a
/// twentieth of the target, is made at the greatest discount.
pub proof fn law_draining_sale_has_greatest_discount(
    pool: PoolView,
    available_near: int,
    max_nears_to_pay: int,
)
    requires
        available_near <= max_nears_to_pay || (available_near - max_nears_to_pay + 1) * 20
            <= pool.nslp_near_target,
    ensures
        pool.discount(available_near, max_nears_to_pay) == pool.nslp_max_discount_basis_points,
{
}

/// Between its bounds the discount is inverse to the funds left: with a hundred
/// basis points added, it is the target in hundredths of those funds, rounded down.
pub proof fn law_discount_is_inverse_to_liquidity(
    pool: PoolView,
    available_near: int,
    max_nears_to_pay: int,
)
    requires
        0 <= pool.nslp_near_target,
    ensures
        ({
            let d: int = pool.discount(available_near, max_nears_to_pay);
            let near_after: int = available_near - max_nears_to_pay;
            pool.nslp_min_discount_basis_points < d < pool.nslp_max_discount_basis_points
                && near_after >= pool.nslp_near_target / 20 ==> (d + 100) * near_after
                <= pool.nslp_near_target * 100 < (d + 101) * near_after
        }),
{
    let near_after: int = available_near - max_nears_to_pay;
    if near_after > 0 {
        lemma_rounds_down_is_division(
            pool.nslp_near_target * 100 / near_after,
            pool.nslp_near_target * 100,
            near_after,
        );
    }
}

/// Where the funds left are enough for the discount to fall below its least, it
/// is the least; where they call for more than the greatest, it is the greatest;
/// and between the two it is what they call for.
pub proof fn law_discount_is_what_liquidity_calls_for(
    pool: PoolView,
    available_near: int,
    max_nears_to_pay: int,
)
    requires
        available_near > max_nears_to_pay,
        (available_near - max_nears_to_pay + 1) * 20 > pool.nslp_near_target,
    ensures
        ({
            let d: int = pool.discount(available_near, max_nears_to_pay);
            let near_after: int = available_near - max_nears_to_pay;
            let min: int = pool.nslp_min_discount_basis_points;
            let max: int = pool.nslp_max_discount_basis_points;
            let wanted: int = pool.nslp_near_target * 100;
            &&& wanted < (min + 101) * near_after ==> d == min
            &&& wanted >= (min + 101) * near_after && wanted >= (max + 101) * near_after ==> d
                == max
            &&& wanted >= (min + 101) * near_after && wanted < (max + 101) * near_after
                ==> rounds_down(d + 100, wanted, near_after)
        }),
{
    let near_after: int = available_near - max_nears_to_pay;
    let min: int = pool.nslp_min_discount_basis_points;
    let max: int = pool.nslp_max_discount_basis_points;
    let wanted: int = pool.nslp_near_target * 100;
    let quotient: int = wanted / near_after;
    lemma_rounds_down_is_division(quotient, wanted, near_after);
    lemma_quotient_is_below(wanted, near_after, min + 101);
    lemma_quotient_is_below(wanted, near_after, max + 101);
}

/// A quotient is below a number exactly if its dividend is below that many divisors.
proof fn lemma_quotient_is_below(whole: int, unit: int, number: int)
    requires
        0 < unit,
    ensures
        whole / unit < number <==> whole < number * unit,
{
    let quotient: int = whole / unit;
    lemma_rounds_down_is_division(quotient, whole, unit);
    if quotient < number {
        assert((quotient + 1) * unit <= number * unit) by (nonlinear_arith)
            requires
                quotient + 1 <= number,
                0 < unit,
        ;
    } else {
        assert(number * unit <= quotient * unit) by (nonlinear_arith)
            requires
                number <= quotient,
                0 < unit,
        ;
    }
}

/// The seller is paid the amount less the discount's part of it, rounded down.
pub proof fn law_seller_pays_the_discount(pool: PoolView, available_near: int, skash: int)
    ensures
        rounds_down(
            skash - pool.sale_price(available_near, skash),
            pool.discount(available_near, skash) * skash,
            10_000,
        ),
{
    let d: int = pool.discount(available_near, skash);
    law_percentage_rounds_down(skash - pool.sale_price(available_near, skash), d, skash);
}

/// The liquidity pool owns what it has available, what its shares are worth, and
/// what it waits for. Its own shares are bought and valued at the price of all that.
pub proof fn law_nslp_shares_trade_at_the_price(
    pool: PoolView,
    nslp: AccountView,
    value: int,
    amount: int,
    bought: int,
    held: int,
    worth: int,
)
    requires
        pool.representable(),
        nslp.representable(),
        0 <= amount,
        0 <= held,
        are_worth(value, nslp.stake_shares, pool.total_for_staking, pool.total_stake_shares),
    ensures
        pool.nslp_value(nslp) == nslp.available + value + nslp.unstaked,
        pool.nslp_value_fits(nslp) <==> nslp.available + value + nslp.unstaked <= u128::MAX,
        bought == shares_worth(amount, pool.nslp_value(nslp), nslp.nslp_shares) <==> buys(
            bought,
            amount,
            nslp.available + value + nslp.unstaked,
            nslp.nslp_shares,
        ),
        worth == value_of_shares(held, pool.nslp_value(nslp), nslp.nslp_shares) <==> are_worth(
            worth,
            held,
            nslp.available + value + nslp.unstaked,
            nslp.nslp_shares,
        ),
{
    law_stake_shares_trade_at_the_price(pool, 0, 0, value, nslp.stake_shares);
    lemma_worth_is_not_negative(
        value,
        nslp.stake_shares,
        pool.total_for_staking,
        pool.total_stake_shares,
    );
    let backing: int = nslp.available + value + nslp.unstaked;
    law_amount_buys_its_shares(bought, amount, backing, nslp.nslp_shares);
    law_shares_are_worth_their_part(worth, held, backing, nslp.nslp_shares);
}

} // verus!
