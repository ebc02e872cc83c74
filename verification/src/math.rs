//! Proportions, percentages and the exchange between amounts and shares.

use vstd::arithmetic::div_mod::{
    lemma_div_is_ordered, lemma_fundamental_div_mod, lemma_fundamental_div_mod_converse,
};
use vstd::prelude::*;

verus! {

/// `amount * numerator / denominator`, rounded down.
pub open spec fn proportion(amount: int, numerator: int, denominator: int) -> int {
    (amount * numerator) / denominator
}

/// The part of `amount` that `basis_points` hundredths of a percent stand for, rounded down.
pub open spec fn percentage(basis_points: int, amount: int) -> int {
    proportion(basis_points, amount, 10_000)
}

/// Shares that `amount` buys when `total_shares` shares are backed by
/// `total_amount`. The first buyer gets one share per unit.
pub open spec fn shares_worth(amount: int, total_amount: int, total_shares: int) -> int {
    if total_shares == 0 {
        amount
    } else if amount == 0 || total_amount == 0 {
        0
    } else {
        proportion(amount, total_shares, total_amount)
    }
}

/// What `num_shares` shares are worth when `total_shares` shares are backed by
/// `total_amount`.
pub open spec fn value_of_shares(num_shares: int, total_amount: int, total_shares: int) -> int {
    if total_shares == 0 || num_shares == 0 {
        0
    } else {
        proportion(num_shares, total_amount, total_shares)
    }
}

/// Whether a figure can be held in a `u128`.
pub open spec fn fits(figure: int) -> bool {
    0 <= figure <= u128::MAX
}

/// Whether a figure can be held in an `i128`.
pub open spec fn fits_signed(figure: int) -> bool {
    i128::MIN <= figure <= i128::MAX
}

/// Quotient and remainder of `a * b` by `c`, or `None` where the quotient does
/// not fit. Halves `a` at each step, so no product is ever formed.
fn mul_div_rem(a: u128, b: u128, c: u128) -> (res: Option<(u128, u128)>)
    requires
        c > 0,
    ensures
        match res {
            Some((q, r)) => a * b == q * c + r && r < c,
            None => a * b >= (u128::MAX + 1) * c,
        },
    decreases a,
{
    if a == 0 {
        assert(0 * b == 0 && 0 * c == 0) by (nonlinear_arith);
        return Some((0, 0));
    }
    let half: u128 = a / 2;
    let odd: bool = a % 2 == 1;
    let ghost twice: int = 2 * (half * b);
    proof {
        assert(a * b == twice + (if odd { b as int } else { 0 })) by (nonlinear_arith)
            requires
                a == 2 * half + (if odd { 1int } else { 0int }),
                twice == 2 * (half * b),
        ;
    }
    let (q, r) = match mul_div_rem(half, b, c) {
        Some(parts) => parts,
        None => {
            assert((u128::MAX + 1) * c >= 0) by (nonlinear_arith);
            return None;
        },
    };
    let carry: bool = r >= c - r;
    let r2: u128 = if carry { r - (c - r) } else { r + r };
    let ghost q2: int = 2 * q + (if carry { 1int } else { 0int });
    assert(twice == q2 * c + r2) by (nonlinear_arith)
        requires
            twice == 2 * (q * c + r),
            q2 == 2 * q + (if carry { 1int } else { 0int }),
            r2 == 2 * r - (if carry { c as int } else { 0int }),
    ;
    let doubled: Option<u128> = match q.checked_mul(2) {
        Some(d) => d.checked_add(if carry { 1 } else { 0 }),
        None => None,
    };
    let d: u128 = match doubled {
        Some(d) => d,
        None => {
            assert(q2 * c >= (u128::MAX + 1) * c) by (nonlinear_arith)
                requires
                    q2 >= u128::MAX + 1,
                    c > 0,
            ;
            return None;
        },
    };
    if !odd {
        return Some((d, r2));
    }
    let bq: u128 = b / c;
    let br: u128 = b % c;
    let carry3: bool = r2 >= c - br;
    let r3: u128 = if carry3 { r2 - (c - br) } else { r2 + br };
    let ghost q3: int = d + bq + (if carry3 { 1int } else { 0int });
    proof {
        lemma_fundamental_div_mod(b as int, c as int);
        assert(a * b == q3 * c + r3) by (nonlinear_arith)
            requires
                a * b == d * c + r2 + b,
                b == c * bq + br,
                q3 == d + bq + (if carry3 { 1int } else { 0int }),
                r3 == r2 + br - (if carry3 { c as int } else { 0int }),
        ;
    }
    let summed: Option<u128> = match d.checked_add(bq) {
        Some(s) => s.checked_add(if carry3 { 1 } else { 0 }),
        None => None,
    };
    match summed {
        Some(s) => Some((s, r3)),
        None => {
            assert(q3 * c >= (u128::MAX + 1) * c) by (nonlinear_arith)
                requires
                    q3 >= u128::MAX + 1,
                    c > 0,
            ;
            None
        },
    }
}

/// `amount * numerator / denominator` rounded down, or `None` where that does not fit.
pub fn proportional(amount: u128, numerator: u128, denominator: u128) -> (res: Option<u128>)
    requires
        denominator > 0,
    ensures
        match res {
            Some(v) => v == proportion(amount as int, numerator as int, denominator as int),
            None => !fits(proportion(amount as int, numerator as int, denominator as int)),
        },
{
    let ghost product: int = amount * numerator;
    match mul_div_rem(amount, numerator, denominator) {
        Some((q, r)) => {
            proof {
                lemma_fundamental_div_mod_converse(product, denominator as int, q as int, r as int);
            }
            Some(q)
        },
        None => {
            proof {
                let limit: int = (u128::MAX + 1) * denominator;
                lemma_div_is_ordered(limit, product, denominator as int);
                lemma_fundamental_div_mod_converse(limit, denominator as int, u128::MAX + 1, 0);
            }
            None
        },
    }
}

/// `basis_points` hundredths of a percent of `amount`, or `None` where that does not fit.
pub fn apply_pct(basis_points: u16, amount: u128) -> (res: Option<u128>)
    ensures
        match res {
            Some(v) => v == percentage(basis_points as int, amount as int),
            None => !fits(percentage(basis_points as int, amount as int)),
        },
{
    proportional(basis_points as u128, amount, 10_000)
}

/// The shares that `amount` buys at the current share price, or `None` where
/// their number does not fit.
pub fn shares_from_amount(amount: u128, total_amount: u128, total_shares: u128) -> (res: Option<
    u128,
>)
    ensures
        match res {
            Some(v) => v == shares_worth(amount as int, total_amount as int, total_shares as int),
            None => !fits(shares_worth(amount as int, total_amount as int, total_shares as int)),
        },
{
    if total_shares == 0 {
        Some(amount)
    } else if amount == 0 || total_amount == 0 {
        Some(0)
    } else {
        proportional(amount, total_shares, total_amount)
    }
}

/// The amount that `num_shares` shares are worth at the current share price, or
/// `None` where it does not fit.
pub fn amount_from_shares(num_shares: u128, total_amount: u128, total_shares: u128) -> (res: Option<
    u128,
>)
    ensures
        match res {
            Some(v) => v == value_of_shares(
                num_shares as int,
                total_amount as int,
                total_shares as int,
            ),
            None => !fits(
                value_of_shares(num_shares as int, total_amount as int, total_shares as int),
            ),
        },
{
    if total_shares == 0 || num_shares == 0 {
        Some(0)
    } else {
        proportional(num_shares, total_amount, total_shares)
    }
}

/// A percentage below the whole is a part of the amount, and not all of it.
pub proof fn law_percentage_is_a_part(basis_points: int, amount: int)
    requires
        0 <= basis_points < 10_000,
        0 <= amount,
    ensures
        0 <= percentage(basis_points, amount) <= amount,
        0 < amount ==> percentage(basis_points, amount) < amount,
{
    assert(0 <= basis_points * amount <= 9_999 * amount) by (nonlinear_arith)
        requires
            0 <= basis_points < 10_000,
            0 <= amount,
    ;
}

/// Shares are worth what buys them: an amount that `held` shares cover buys at
/// most `held` shares.
pub proof fn law_covered_amount_buys_no_more_shares(
    amount: int,
    held: int,
    total_amount: int,
    total_shares: int,
)
    requires
        0 <= amount <= value_of_shares(held, total_amount, total_shares),
        0 <= held,
        0 <= total_amount,
        0 <= total_shares,
    ensures
        0 <= shares_worth(amount, total_amount, total_shares) <= held,
{
    if total_shares != 0 && amount != 0 && total_amount != 0 && held != 0 {
        let value: int = proportion(held, total_amount, total_shares);
        lemma_fundamental_div_mod(held * total_amount, total_shares);
        assert(0 <= amount * total_shares <= held * total_amount) by (nonlinear_arith)
            requires
                0 <= amount <= value,
                0 < total_shares,
                total_shares * value <= held * total_amount,
        ;
        lemma_div_is_ordered(amount * total_shares, held * total_amount, total_amount);
        lemma_div_is_ordered(0, amount * total_shares, total_amount);
        lemma_fundamental_div_mod_converse(held * total_amount, total_amount, held, 0);
        lemma_fundamental_div_mod_converse(0, total_amount, 0, 0);
    }
}

/// Buying shares with an amount never creates value: the shares are worth at
/// most the amount.
pub proof fn law_bought_shares_are_worth_no_more(amount: int, total_amount: int, total_shares: int)
    requires
        0 <= amount,
        0 <= total_amount,
        0 <= total_shares,
    ensures
        0 <= value_of_shares(
            shares_worth(amount, total_amount, total_shares),
            total_amount,
            total_shares,
        ) <= amount,
{
    let bought: int = shares_worth(amount, total_amount, total_shares);
    if total_shares != 0 && amount != 0 && total_amount != 0 {
        assert(0 <= amount * total_shares) by (nonlinear_arith)
            requires
                0 <= amount,
                0 <= total_shares,
        ;
        lemma_fundamental_div_mod(amount * total_shares, total_amount);
        lemma_div_is_ordered(0, amount * total_shares, total_amount);
        lemma_fundamental_div_mod_converse(0, total_amount, 0, 0);
        assert(0 <= bought * total_amount <= amount * total_shares) by (nonlinear_arith)
            requires
                0 <= bought,
                0 <= total_amount,
                total_amount * bought <= amount * total_shares,
        ;
        lemma_div_is_ordered(bought * total_amount, amount * total_shares, total_shares);
        lemma_div_is_ordered(0, bought * total_amount, total_shares);
        lemma_fundamental_div_mod_converse(amount * total_shares, total_shares, amount, 0);
        lemma_fundamental_div_mod_converse(0, total_shares, 0, 0);
    }
}

/// If an amount and the shares that it buys are incorporated, the share price
/// (total amount over total shares) remains the same, but for the rounding of
/// the bought shares: it never falls, one share more would make it fall, and it
/// is the same exactly where nothing was rounded off.
pub proof fn law_incorporated_amount_keeps_price(
    amount: int,
    total_amount: int,
    total_shares: int,
)
    requires
        0 <= amount,
        0 < total_amount,
        0 < total_shares,
    ensures
        ({
            let bought: int = shares_worth(amount, total_amount, total_shares);
            &&& total_amount * (total_shares + bought) <= (total_amount + amount) * total_shares
            &&& (total_amount + amount) * total_shares < total_amount * (total_shares + bought + 1)
            &&& (amount * total_shares) % total_amount == 0 <==> total_amount * (total_shares
                + bought) == (total_amount + amount) * total_shares
        }),
{
    let bought: int = shares_worth(amount, total_amount, total_shares);
    let product: int = amount * total_shares;
    let rest: int = product % total_amount;
    lemma_fundamental_div_mod(product, total_amount);
    if amount == 0 {
        assert(product == 0) by (nonlinear_arith)
            requires
                product == amount * total_shares,
                amount == 0,
        ;
        lemma_fundamental_div_mod_converse(0, total_amount, 0, 0);
    }
    assert(total_amount * (total_shares + bought) + rest == (total_amount + amount) * total_shares)
        by (nonlinear_arith)
        requires
            product == amount * total_shares,
            product == total_amount * bought + rest,
    ;
    assert(total_amount * (total_shares + bought + 1) == total_amount * (total_shares + bought)
        + total_amount) by (nonlinear_arith);
}

/// Shares are never worth less than nothing.
proof fn lemma_value_is_not_negative(num_shares: int, total_amount: int, total_shares: int)
    requires
        0 <= num_shares,
        0 <= total_amount,
        0 <= total_shares,
    ensures
        0 <= value_of_shares(num_shares, total_amount, total_shares),
{
    if total_shares != 0 {
        assert(0 <= num_shares * total_amount) by (nonlinear_arith)
            requires
                0 <= num_shares,
                0 <= total_amount,
        ;
        lemma_div_is_ordered(0, num_shares * total_amount, total_shares);
        lemma_fundamental_div_mod_converse(0, total_shares, 0, 0);
    }
}

/// Incorporating an amount with the shares that it buys takes nothing from the
/// holders of shares: what theirs are worth does not fall.
pub proof fn law_incorporated_amount_keeps_holders_value(
    held: int,
    amount: int,
    total_amount: int,
    total_shares: int,
)
    requires
        0 <= held,
        0 <= amount,
        0 <= total_amount,
        0 <= total_shares,
    ensures
        value_of_shares(held, total_amount, total_shares) <= value_of_shares(
            held,
            total_amount + amount,
            total_shares + shares_worth(amount, total_amount, total_shares),
        ),
{
    let bought: int = shares_worth(amount, total_amount, total_shares);
    assert(0 <= amount * total_shares) by (nonlinear_arith)
        requires
            0 <= amount,
            0 <= total_shares,
    ;
    if total_amount != 0 {
        lemma_div_is_ordered(0, amount * total_shares, total_amount);
        lemma_fundamental_div_mod_converse(0, total_amount, 0, 0);
    }
    let shares: int = total_shares + bought;
    lemma_value_is_not_negative(held, total_amount + amount, shares);
    if held != 0 && total_shares != 0 {
        let value: int = proportion(held, total_amount, total_shares);
        if total_amount == 0 {
            assert(held * total_amount == 0) by (nonlinear_arith)
                requires
                    total_amount == 0,
            ;
            lemma_fundamental_div_mod_converse(0, total_shares, 0, 0);
        } else {
            law_incorporated_amount_keeps_price(amount, total_amount, total_shares);
            lemma_fundamental_div_mod(held * total_amount, total_shares);
            assert(value * shares <= held * (total_amount + amount)) by (nonlinear_arith)
                requires
                    0 < total_shares,
                    0 < shares,
                    0 <= held,
                    total_shares * value <= held * total_amount,
                    total_amount * shares <= (total_amount + amount) * total_shares,
            {
                assert(total_shares * value * shares <= held * total_amount * shares);
                assert(held * (total_amount * shares) <= held * ((total_amount + amount)
                    * total_shares));
                assert(total_shares * (value * shares) <= total_shares * (held * (total_amount
                    + amount)));
            }
            lemma_div_is_ordered(value * shares, held * (total_amount + amount), shares);
            lemma_fundamental_div_mod_converse(value * shares, shares, value, 0);
        }
    }
}

/// Shares cannot be sold back for more than was paid for them: once an amount
/// and the shares that it bought are incorporated, they are worth at most the
/// amount. (Who buys the first shares gets what the pool had before along with them.)
pub proof fn law_purchase_earns_nothing(amount: int, total_amount: int, total_shares: int)
    requires
        0 <= amount,
        0 <= total_amount,
        0 <= total_shares,
        total_shares == 0 ==> total_amount == 0,
    ensures
        ({
            let bought: int = shares_worth(amount, total_amount, total_shares);
            value_of_shares(bought, total_amount + amount, total_shares + bought) <= amount
        }),
{
    let bought: int = shares_worth(amount, total_amount, total_shares);
    if total_shares == 0 && amount != 0 {
        lemma_fundamental_div_mod_converse(amount * amount, amount, amount, 0);
    } else if amount != 0 && total_amount != 0 {
        assert(0 <= amount * total_shares) by (nonlinear_arith)
            requires
                0 <= amount,
                0 <= total_shares,
        ;
        lemma_fundamental_div_mod(amount * total_shares, total_amount);
        lemma_div_is_ordered(0, amount * total_shares, total_amount);
        lemma_fundamental_div_mod_converse(0, total_amount, 0, 0);
        let shares: int = total_shares + bought;
        assert(bought * (total_amount + amount) <= amount * shares) by (nonlinear_arith)
            requires
                shares == total_shares + bought,
                total_amount * bought <= amount * total_shares,
        ;
        lemma_div_is_ordered(bought * (total_amount + amount), amount * shares, shares);
        lemma_fundamental_div_mod_converse(amount * shares, shares, amount, 0);
    }
}

} // verus!
