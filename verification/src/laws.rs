//! What holds of the pool's operations together.

pub mod choice;
pub mod effects;
pub mod grants;
pub mod pricing;
pub mod rounding;

use crate::account::AccountView;
use crate::balancing::{first_greatest, stake_movement, unstake_movement};
use crate::constants::{
    MIN_STAKE_UNSTAKE_AMOUNT_MOVEMENT, NSLP_INTERNAL_ACCOUNT, ONE_NEAR, ONE_NEAR_CENT,
};
use crate::math::{
    law_covered_amount_buys_no_more_shares, law_incorporated_amount_keeps_holders_value,
    law_incorporated_amount_keeps_price, law_percentage_is_a_part,
};
use crate::pool::{DiversifiedPool, PoolView, StakingPoolInfo};
use vstd::arithmetic::div_mod::{
    lemma_div_is_ordered, lemma_div_is_ordered_by_denominator, lemma_fundamental_div_mod_converse,
};
use vstd::prelude::*;

verus! {

/// The figures of a pool fit their machine integers.
pub proof fn law_pools_are_representable(pool: &DiversifiedPool)
    ensures
        pool@.representable(),
{
}

/// An account reads back as it was written, unless all its balances are zero:
/// then it was deleted, and reads as a fresh one. No other account changes.
pub proof fn law_account_reads_back(
    pool: PoolView,
    id: Seq<char>,
    account: AccountView,
    other: Seq<char>,
)
    ensures
        pool.with_account(id, account).account(id) == (if account.is_empty() {
            AccountView::fresh()
        } else {
            account
        }),
        other != id ==> pool.with_account(id, account).account(other) == pool.account(other),
{
}

/// The last of two writes of an account is what counts.
pub proof fn law_last_account_write_counts(
    pool: PoolView,
    id: Seq<char>,
    first: AccountView,
    last: AccountView,
)
    ensures
        pool.with_account(id, first).with_account(id, last) == pool.with_account(id, last),
{
    assert(pool.with_account(id, first).with_account(id, last).accounts =~= pool.with_account(
        id,
        last,
    ).accounts);
}

/// An empty account is never kept by a write.
pub proof fn law_no_empty_account_is_kept(pool: PoolView, id: Seq<char>, account: AccountView)
    ensures
        pool.with_account(id, account).accounts.contains_key(id) <==> !account.is_empty(),
{
}

/// Governance tokens are credited once: right after it, nothing more is owed.
pub proof fn law_g_skash_is_credited_once(pool: PoolView, account: AccountView)
    ensures
        pool.with_g_skash_realized(account).pending_g_skash(
            pool.account_with_g_skash_realized(account),
        ) == 0,
{
    let realized: AccountView = pool.account_with_g_skash_realized(account);
    assert(0 * realized.multiplier_pct == 0) by (nonlinear_arith);
}

/// A withdrawal pays at least what was requested and less than half a cent
/// more, never more than is available, and leaves nothing or at least half a cent.
pub proof fn law_withdrawal_pays_what_was_requested(pool: PoolView, id: Seq<char>, requested: int)
    requires
        pool.withdraw_refusal(id, requested) is None,
    ensures
        requested <= pool.withdrawn(id, requested) <= pool.account(id).available,
        pool.withdrawn(id, requested) - requested < ONE_NEAR_CENT / 2,
        ({
            let left: int = pool.after_withdraw(id, requested).account(id).available;
            left == 0 || left >= ONE_NEAR_CENT / 2
        }),
{
}

/// A withdrawal of a deposited amount pays that amount and undoes the deposit.
/// The account had no dust available before, which the withdrawal would take
/// along. If it was open it had the minimum balance, and if it had no balance at
/// all the pool did not keep it.
pub proof fn law_withdrawal_undoes_deposit(pool: PoolView, id: Seq<char>, amount: int)
    requires
        pool.representable(),
        pool.deposit_refusal(id, amount) is None,
        pool.account(id).available == 0 || pool.account(id).available >= ONE_NEAR_CENT / 2,
        pool.account(id).is_empty() ==> !pool.accounts.contains_key(id),
        !pool.account(id).is_empty() ==> pool.account(id).available >= pool.min_account_balance,
    ensures
        pool.after_deposit(id, amount).withdraw_refusal(id, amount) is None,
        pool.after_deposit(id, amount).withdrawn(id, amount) == amount,
        pool.after_deposit(id, amount).after_withdraw(id, amount) == pool,
{
    assert(pool.after_deposit(id, amount).after_withdraw(id, amount).accounts =~= pool.accounts);
}

/// Staking moves funds from available to staking and creates none, whatever the
/// liquidity pool sells on the occasion.
pub proof fn law_staking_moves_funds(pool: PoolView, id: Seq<char>, amount: int)
    ensures
        ({
            let after: PoolView = pool.after_stake(id, amount);
            after.total_available + after.total_for_staking == pool.total_available
                + pool.total_for_staking
        }),
{
}

/// Unstaking moves funds from staking to what the account has unstaked, and
/// creates none.
pub proof fn law_unstaking_moves_funds(
    pool: PoolView,
    id: Seq<char>,
    requested: int,
    epoch_height: int,
)
    requires
        pool.representable(),
        0 <= requested,
        0 <= epoch_height,
        pool.unstake_refusal(id, requested, epoch_height) is None,
    ensures
        ({
            let after: PoolView = pool.after_unstake(id, requested, epoch_height);
            after.total_for_staking + after.account(id).unstaked == pool.total_for_staking
                + pool.account(id).unstaked
        }),
{
}

/// An account unstakes at least what was requested, and never more than its
/// staked tokens are worth. Everything it has, shares included, goes at once
/// unless more than one NEAR would remain.
pub proof fn law_unstaking_takes_what_was_requested(
    pool: PoolView,
    id: Seq<char>,
    requested: int,
    epoch_height: int,
)
    requires
        pool.unstake_refusal(id, requested, epoch_height) is None,
    ensures
        requested <= pool.unstaked_amount(id, requested) <= pool.skash(id),
        pool.skash(id) - requested <= ONE_NEAR ==> {
            &&& pool.unstaked_amount(id, requested) == pool.skash(id)
            &&& pool.after_unstake(id, requested, epoch_height).account(id).stake_shares == 0
        },
{
}

/// An account never burns more shares than it holds for what it unstakes.
pub proof fn law_unstaking_burns_only_held_shares(pool: PoolView, id: Seq<char>, requested: int)
    requires
        pool.representable(),
        0 <= requested <= pool.skash(id),
    ensures
        0 <= pool.unstaked_shares(id, requested) <= pool.account(id).stake_shares,
{
    law_covered_amount_buys_no_more_shares(
        pool.unstaked_amount(id, requested),
        pool.account(id).stake_shares,
        pool.total_for_staking,
        pool.total_stake_shares,
    );
}

/// The wait for an amount is never shorter than that for a smaller one.
pub proof fn law_unstaking_delay_grows(pool: PoolView, smaller: int, larger: int)
    requires
        smaller <= larger,
    ensures
        pool.unstaking_delay(smaller) <= pool.unstaking_delay(larger),
{
}

/// Incorporating an amount with the shares that it buys preserves the share
/// price, but for the rounding of the bought shares: it never falls, and one
/// share more would have made it fall.
pub proof fn law_incorporation_preserves_share_price(pool: PoolView, id: Seq<char>, amount: int)
    requires
        0 <= amount,
        0 < pool.total_for_staking,
        0 < pool.total_stake_shares,
    ensures
        ({
            let after: PoolView = pool.after_incorporation(id, amount);
            &&& pool.total_for_staking * after.total_stake_shares <= after.total_for_staking
                * pool.total_stake_shares
            &&& after.total_for_staking * pool.total_stake_shares < pool.total_for_staking * (
            after.total_stake_shares + 1)
        }),
{
    law_incorporated_amount_keeps_price(amount, pool.total_for_staking, pool.total_stake_shares);
    let price: int = pool.total_for_staking;
    let shares: int = pool.total_stake_shares;
    assert(price * shares < price * (shares + 1)) by (nonlinear_arith)
        requires
            0 < price,
    ;
}

/// Staking sells shares at the current price: what the shares of another holder
/// are worth does not fall by it.
pub proof fn law_staking_keeps_holders_value(
    pool: PoolView,
    id: Seq<char>,
    amount: int,
    held: int,
)
    requires
        0 <= held,
        0 <= amount,
        0 <= pool.total_for_staking,
        0 <= pool.total_stake_shares,
    ensures
        pool.value_of_stake_shares(held) <= pool.before_clearing(id, amount).value_of_stake_shares(
            held,
        ),
{
    law_incorporated_amount_keeps_holders_value(
        held,
        amount,
        pool.total_for_staking,
        pool.total_stake_shares,
    );
}

/// The liquidity pool never sells more than was ordered nor more than it has,
/// and after the sale either the order is filled or it has nothing left to sell.
pub proof fn law_clearing_serves_the_order(pool: PoolView)
    requires
        pool.representable(),
        pool.can_clear(),
        !pool.clearing_overflows(),
    ensures
        ({
            let after: PoolView = pool.after_clearing();
            &&& 0 <= pool.cleared_shares() <= pool.nslp_account().stake_shares
            &&& after.total_for_staking >= pool.total_actually_staked
            &&& after.total_for_staking == pool.total_actually_staked
                || after.nslp_account().stake_shares == 0
        }),
{
    law_covered_amount_buys_no_more_shares(
        pool.cleared_amount(),
        pool.nslp_account().stake_shares,
        pool.total_for_staking,
        pool.total_stake_shares,
    );
}

/// The sale of the liquidity pool's staked tokens moves funds from staking to
/// available, both of the contract and of the liquidity pool, and creates none.
pub proof fn law_clearing_moves_funds(pool: PoolView)
    requires
        pool.representable(),
        !pool.clearing_overflows(),
    ensures
        ({
            let after: PoolView = pool.after_clearing();
            let moved: int = after.total_available - pool.total_available;
            &&& after.total_for_staking == pool.total_for_staking - moved
            &&& after.nslp_account().available == pool.nslp_account().available + moved
        }),
{
}

/// The discount stays between its bounds.
pub proof fn law_discount_is_bounded(pool: PoolView, available_near: int, max_nears_to_pay: int)
    requires
        pool.nslp_min_discount_basis_points <= pool.nslp_max_discount_basis_points,
    ensures
        pool.nslp_min_discount_basis_points <= pool.discount(available_near, max_nears_to_pay)
            <= pool.nslp_max_discount_basis_points,
{
}

/// The more the liquidity pool has, the less discount it asks.
pub proof fn law_discount_falls_with_liquidity(
    pool: PoolView,
    less_near: int,
    more_near: int,
    max_nears_to_pay: int,
)
    requires
        pool.nslp_min_discount_basis_points <= pool.nslp_max_discount_basis_points,
        0 <= pool.nslp_near_target,
        less_near <= more_near,
    ensures
        pool.discount(more_near, max_nears_to_pay) <= pool.discount(less_near, max_nears_to_pay),
{
    if !pool.drains_nslp(less_near, max_nears_to_pay) {
        lemma_div_is_ordered_by_denominator(
            pool.nslp_near_target * 100,
            less_near - max_nears_to_pay,
            more_near - max_nears_to_pay,
        );
    }
}

/// Where the target is still reached after the sale, the discount is the least.
pub proof fn law_discount_is_least_at_target(
    pool: PoolView,
    available_near: int,
    max_nears_to_pay: int,
)
    requires
        0 <= pool.nslp_min_discount_basis_points,
        0 <= pool.nslp_near_target <= available_near - max_nears_to_pay,
        max_nears_to_pay < available_near,
    ensures
        pool.discount(available_near, max_nears_to_pay) == pool.nslp_min_discount_basis_points,
{
    let near_after: int = available_near - max_nears_to_pay;
    lemma_div_is_ordered(pool.nslp_near_target * 100, near_after * 100, near_after);
    lemma_fundamental_div_mod_converse(near_after * 100, near_after, 100, 0);
}

/// The liquidity pool never pays more for staked tokens than their amount, and
/// never pays nothing for some.
pub proof fn law_sale_pays_at_most_the_amount(
    pool: PoolView,
    available_near: int,
    skash_to_sell: int,
)
    requires
        pool.representable(),
        0 <= available_near,
        0 <= skash_to_sell,
        pool.sale_refusal(available_near, skash_to_sell) is None,
    ensures
        0 <= pool.sale_price(available_near, skash_to_sell) <= skash_to_sell,
        0 < skash_to_sell ==> 0 < pool.sale_price(available_near, skash_to_sell),
{
    law_percentage_is_a_part(pool.discount(available_near, skash_to_sell), skash_to_sell);
}

/// A transfer moves an amount from one account to another and creates nothing.
/// One to oneself leaves every balance as it was. A transfer of governance tokens
/// credits the sender with what it was owed, and that is all that is added.
pub proof fn law_transfer_moves_tokens(
    pool: PoolView,
    sender: Seq<char>,
    receiver: Seq<char>,
    symbol: Seq<char>,
    amount: int,
)
    requires
        pool.representable(),
        0 <= amount,
        pool.transfer_refusal(sender, receiver, symbol, amount) is None,
    ensures
        ({
            let after: PoolView = pool.after_transfer(sender, receiver, symbol, amount);
            let from: AccountView = pool.account(sender);
            let to: AccountView = pool.account(receiver);
            let from_after: AccountView = after.account(sender);
            let to_after: AccountView = after.account(receiver);
            let near: int = if symbol == "NEAR"@ && sender != receiver {
                amount
            } else {
                0
            };
            let shares: int = if symbol != "NEAR"@ && symbol == "SKASH"@ && sender != receiver {
                pool.stake_shares_worth(amount)
            } else {
                0
            };
            let by_g_skash: bool = symbol != "NEAR"@ && symbol != "SKASH"@;
            let g_skash: int = if by_g_skash && sender != receiver {
                amount
            } else {
                0
            };
            let owed: int = if by_g_skash {
                pool.pending_g_skash(from)
            } else {
                0
            };
            &&& from_after.available == from.available - near
            &&& from_after.stake_shares == from.stake_shares - shares
            &&& from_after.realized_g_skash == from.realized_g_skash + owed - g_skash
            &&& from_after.unstaked == from.unstaked
            &&& from_after.nslp_shares == from.nslp_shares
            &&& after.total_g_skash == pool.total_g_skash + owed
            &&& sender != receiver ==> {
                &&& to_after.available == to.available + near
                &&& to_after.stake_shares == to.stake_shares + shares
                &&& to_after.realized_g_skash == to.realized_g_skash + g_skash
                &&& to_after.unstaked == to.unstaked
                &&& to_after.nslp_shares == to.nslp_shares
            }
        }),
{
}

/// No operation touches the account of anybody but its parties. Staking has the
/// liquidity pool as a party.
pub proof fn law_only_parties_are_touched(
    pool: PoolView,
    id: Seq<char>,
    receiver: Seq<char>,
    symbol: Seq<char>,
    amount: int,
    epoch_height: int,
    other: Seq<char>,
)
    requires
        other != id,
    ensures
        pool.after_deposit(id, amount).account(other) == pool.account(other),
        pool.after_withdraw(id, amount).account(other) == pool.account(other),
        pool.after_unstake(id, amount, epoch_height).account(other) == pool.account(other),
        pool.after_incorporation(id, amount).account(other) == pool.account(other),
        other != NSLP_INTERNAL_ACCOUNT@ ==> pool.after_stake(id, amount).account(other)
            == pool.account(other),
        other != receiver ==> pool.after_transfer(id, receiver, symbol, amount).account(other)
            == pool.account(other),
{
}

/// The staking pool that is chosen for staking is one that funds can be staked
/// in. No more is moved than there is, nor than the pool lacks and a small
/// remainder.
pub proof fn law_chosen_pool_can_be_staked_in(pool: PoolView, inx: int, total_to_stake: int)
    requires
        first_greatest(pool.missing_stakes(), inx),
        0 <= total_to_stake,
    ensures
        ({
            let missing: int = pool.missing_stakes()[inx];
            let moved: int = stake_movement(missing, total_to_stake);
            &&& PoolView::can_stake_in(pool.staking_pools[inx])
            &&& moved <= total_to_stake
            &&& moved <= missing + MIN_STAKE_UNSTAKE_AMOUNT_MOVEMENT
        }),
{
}

/// The staking pool that is chosen for unstaking is one that funds can be
/// unstaked from, and no more is taken than it has.
pub proof fn law_chosen_pool_can_be_unstaked_from(pool: PoolView, inx: int, total_to_unstake: int)
    requires
        pool.representable(),
        first_greatest(pool.excess_stakes(), inx),
        0 <= total_to_unstake,
    ensures
        ({
            let sp: StakingPoolInfo = pool.staking_pools[inx];
            let moved: int = unstake_movement(
                pool.excess_stakes()[inx],
                sp.staked as int,
                total_to_unstake,
            );
            &&& PoolView::can_unstake_from(sp)
            &&& moved <= total_to_unstake
            &&& moved <= sp.staked
        }),
{
    let sp: StakingPoolInfo = pool.staking_pools[inx];
    assert(0 <= sp.weight_basis_points * pool.total_for_staking) by (nonlinear_arith)
        requires
            0 <= pool.total_for_staking,
    ;
}

} // verus!
