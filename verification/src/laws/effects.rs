//! What each operation does to the figures of the pool, said of the figures
//! before and after it.

use crate::account::AccountView;
use crate::constants::{NSLP_INTERNAL_ACCOUNT, ONE_NEAR};
use crate::laws::rounding::{
    are_worth, buys, is_owed, law_amount_buys_its_shares, law_g_skash_is_owed_for_gains,
    law_stake_shares_trade_at_the_price, lemma_bought_is_not_negative,
};
use crate::pool::{PoolView, StakingPoolInfo};
use crate::staking::{normal_wait_stake, total_normal_wait_stake};
use vstd::prelude::*;

verus! {

/// Whether `account` is kept under `id`, or nothing is if it has no balance.
pub open spec fn keeps(
    accounts: Map<Seq<char>, AccountView>,
    id: Seq<char>,
    account: AccountView,
) -> bool {
    if account.available == 0 && account.stake_shares == 0 && account.unstaked == 0
        && account.realized_g_skash == 0 && account.nslp_shares == 0 {
        !accounts.contains_key(id)
    } else {
        accounts.contains_key(id) && accounts[id] == account
    }
}

/// Whether the entry of `id` is the same in both.
pub open spec fn same_entry(
    before: Map<Seq<char>, AccountView>,
    after: Map<Seq<char>, AccountView>,
    id: Seq<char>,
) -> bool {
    &&& before.contains_key(id) <==> after.contains_key(id)
    &&& before.contains_key(id) ==> before[id] == after[id]
}

/// Whether the pool is what it was but for its accounts and for these totals.
pub open spec fn has_totals(
    before: PoolView,
    after: PoolView,
    available: int,
    for_staking: int,
    stake_shares: int,
    g_skash: int,
) -> bool {
    after == PoolView {
        total_available: available,
        total_for_staking: for_staking,
        total_stake_shares: stake_shares,
        total_g_skash: g_skash,
        accounts: after.accounts,
        ..before
    }
}

/// A deposit adds its amount to what the account and the pool have available,
/// and does nothing else.
pub proof fn law_deposit_adds_the_amount(
    pool: PoolView,
    id: Seq<char>,
    amount: int,
    other: Seq<char>,
)
    ensures
        ({
            let account: AccountView = pool.account(id);
            let after: PoolView = pool.after_deposit(id, amount);
            &&& has_totals(
                pool,
                after,
                pool.total_available + amount,
                pool.total_for_staking,
                pool.total_stake_shares,
                pool.total_g_skash,
            )
            &&& keeps(
                after.accounts,
                id,
                AccountView { available: account.available + amount, ..account },
            )
            &&& other != id ==> same_entry(pool.accounts, after.accounts, other)
        }),
{
}

/// Two deposits are one of both amounts.
pub proof fn law_deposits_add_up(pool: PoolView, id: Seq<char>, first: int, second: int)
    requires
        pool.representable(),
        0 < first,
        0 < second,
    ensures
        pool.after_deposit(id, first).after_deposit(id, second) == pool.after_deposit(
            id,
            first + second,
        ),
{
    assert(pool.after_deposit(id, first).after_deposit(id, second).accounts
        =~= pool.after_deposit(id, first + second).accounts);
}

/// A withdrawal pays exactly what was requested if at least half a cent would
/// remain, and everything if not. What it pays is gone from what the account and
/// the pool have available, and nothing else changes.
pub proof fn law_withdrawal_takes_what_it_pays(
    pool: PoolView,
    id: Seq<char>,
    requested: int,
    other: Seq<char>,
)
    ensures
        ({
            let account: AccountView = pool.account(id);
            let paid: int = pool.withdrawn(id, requested);
            let after: PoolView = pool.after_withdraw(id, requested);
            &&& 200 * (account.available - requested) >= ONE_NEAR ==> paid == requested
            &&& 200 * (account.available - requested) < ONE_NEAR ==> paid == account.available
            &&& has_totals(
                pool,
                after,
                pool.total_available - paid,
                pool.total_for_staking,
                pool.total_stake_shares,
                pool.total_g_skash,
            )
            &&& keeps(
                after.accounts,
                id,
                AccountView { available: account.available - paid, ..account },
            )
            &&& other != id ==> same_entry(pool.accounts, after.accounts, other)
        }),
{
}

/// Crediting governance tokens adds what is owed to the account and to the
/// pool's total. The account's meter starts again from what its shares are worth
/// now, at the pool's current multiplier, and nothing else changes.
pub proof fn law_g_skash_is_credited(pool: PoolView, account: AccountView, value: int, owed: int)
    requires
        pool.representable(),
        account.representable(),
        are_worth(
            value,
            account.stake_shares,
            pool.total_for_staking,
            pool.total_stake_shares,
        ),
        is_owed(owed, account, value),
    ensures
        pool.account_with_g_skash_realized(account) == (AccountView {
            realized_g_skash: account.realized_g_skash + owed,
            delta_staked: value,
            multiplier_pct: pool.staker_g_skash_mult_pct,
            ..account
        }),
        pool.with_g_skash_realized(account) == (PoolView {
            total_g_skash: pool.total_g_skash + owed,
            ..pool
        }),
{
    law_stake_shares_trade_at_the_price(pool, 0, 0, value, account.stake_shares);
    law_g_skash_is_owed_for_gains(pool, account, value, owed);
}

/// Staked shares count what was staked into them, and what was paid out of them.
pub proof fn law_meter_follows_the_stake(account: AccountView, num_shares: int, skash: int)
    ensures
        account.with_stake_added(num_shares, skash) == (AccountView {
            stake_shares: account.stake_shares + num_shares,
            delta_staked: account.delta_staked + skash,
            ..account
        }),
        account.with_stake_added(num_shares, skash).with_stake_removed(num_shares, skash)
            == account,
{
}

/// Staking turns exactly the amount from available into staked, and gives the
/// account the shares that the amount buys at the price before. What was owed to
/// the account is credited, and its meter counts from what all of its shares are
/// worth.
pub proof fn law_staking_sells_shares(
    pool: PoolView,
    id: Seq<char>,
    amount: int,
    value: int,
    owed: int,
    bought: int,
    other: Seq<char>,
)
    requires
        pool.representable(),
        0 <= amount,
        are_worth(
            value,
            pool.account(id).stake_shares,
            pool.total_for_staking,
            pool.total_stake_shares,
        ),
        is_owed(owed, pool.account(id), value),
        buys(bought, amount, pool.total_for_staking, pool.total_stake_shares),
    ensures
        ({
            let account: AccountView = pool.account(id);
            let after: PoolView = pool.before_clearing(id, amount);
            &&& has_totals(
                pool,
                after,
                pool.total_available - amount,
                pool.total_for_staking + amount,
                pool.total_stake_shares + bought,
                pool.total_g_skash + owed,
            )
            &&& keeps(
                after.accounts,
                id,
                AccountView {
                    available: account.available - amount,
                    stake_shares: account.stake_shares + bought,
                    realized_g_skash: account.realized_g_skash + owed,
                    delta_staked: value + amount,
                    multiplier_pct: pool.staker_g_skash_mult_pct,
                    ..account
                },
            )
            &&& other != id ==> same_entry(pool.accounts, after.accounts, other)
            &&& pool.after_stake(id, amount) == after.after_clearing()
        }),
{
    law_stake_shares_trade_at_the_price(pool, bought, amount, value, pool.account(id).stake_shares);
    law_g_skash_is_credited(pool, pool.account(id), value, owed);
}

/// What a user has after staking does not depend on what the liquidity pool
/// sells on the occasion.
pub proof fn law_clearing_leaves_the_staker_alone(pool: PoolView, id: Seq<char>, amount: int)
    requires
        id != NSLP_INTERNAL_ACCOUNT@,
    ensures
        same_entry(
            pool.before_clearing(id, amount).accounts,
            pool.after_stake(id, amount).accounts,
            id,
        ),
{
}

/// The liquidity pool sells what was ordered, or all that it has if that is
/// worth no more. For all that it has it gives all its shares, else those that
/// the amount buys. It is paid in available funds, which are no longer for staking.
pub proof fn law_clearing_sells_the_order(
    pool: PoolView,
    value: int,
    ordered_shares: int,
    other: Seq<char>,
)
    requires
        pool.representable(),
        pool.total_for_staking > pool.total_actually_staked,
        pool.account(NSLP_INTERNAL_ACCOUNT@).stake_shares > 0,
        are_worth(
            value,
            pool.account(NSLP_INTERNAL_ACCOUNT@).stake_shares,
            pool.total_for_staking,
            pool.total_stake_shares,
        ),
        buys(
            ordered_shares,
            pool.total_for_staking - pool.total_actually_staked,
            pool.total_for_staking,
            pool.total_stake_shares,
        ),
    ensures
        pool.can_clear(),
        ({
            let nslp: AccountView = pool.account(NSLP_INTERNAL_ACCOUNT@);
            let ordered: int = pool.total_for_staking - pool.total_actually_staked;
            let after: PoolView = pool.after_clearing();
            let sold: int = pool.total_for_staking - after.total_for_staking;
            let given: int = pool.total_stake_shares - after.total_stake_shares;
            &&& sold <= ordered && sold <= value
            &&& sold == ordered || sold == value
            &&& sold == value ==> given == nslp.stake_shares
            &&& sold < value ==> given == ordered_shares
            &&& has_totals(
                pool,
                after,
                pool.total_available + sold,
                after.total_for_staking,
                after.total_stake_shares,
                pool.total_g_skash,
            )
            &&& keeps(
                after.accounts,
                NSLP_INTERNAL_ACCOUNT@,
                AccountView {
                    available: nslp.available + sold,
                    stake_shares: nslp.stake_shares - given,
                    delta_staked: nslp.delta_staked - sold,
                    ..nslp
                },
            )
            &&& other != NSLP_INTERNAL_ACCOUNT@ ==> same_entry(
                pool.accounts,
                after.accounts,
                other,
            )
        }),
{
    let ordered: int = pool.total_for_staking - pool.total_actually_staked;
    law_stake_shares_trade_at_the_price(
        pool,
        ordered_shares,
        ordered,
        value,
        pool.account(NSLP_INTERNAL_ACCOUNT@).stake_shares,
    );
}

/// Without an order to stake, or without staked tokens, the liquidity pool sells nothing.
pub proof fn law_nothing_to_clear_changes_nothing(pool: PoolView)
    requires
        pool.total_for_staking <= pool.total_actually_staked || pool.account(
            NSLP_INTERNAL_ACCOUNT@,
        ).stake_shares <= 0,
    ensures
        !pool.can_clear(),
        pool.after_clearing() == pool,
{
}

/// If more than one NEAR would remain staked, unstaking takes exactly what was
/// requested, and burns the shares that it buys. If not, it takes everything, and
/// all of the account's shares. What it takes is gone from staking, and promised to
/// the account.
pub proof fn law_unstaking_takes_exactly(
    pool: PoolView,
    id: Seq<char>,
    requested: int,
    epoch_height: int,
    value: int,
    owed: int,
    requested_shares: int,
    other: Seq<char>,
)
    requires
        pool.representable(),
        0 <= requested,
        are_worth(
            value,
            pool.account(id).stake_shares,
            pool.total_for_staking,
            pool.total_stake_shares,
        ),
        is_owed(owed, pool.account(id), value),
        buys(requested_shares, requested, pool.total_for_staking, pool.total_stake_shares),
    ensures
        ({
            let account: AccountView = pool.account(id);
            let after: PoolView = pool.after_unstake(id, requested, epoch_height);
            let taken: int = pool.total_for_staking - after.total_for_staking;
            let burned: int = pool.total_stake_shares - after.total_stake_shares;
            &&& value - requested > ONE_NEAR ==> taken == requested && burned == requested_shares
            &&& value - requested <= ONE_NEAR ==> taken == value && burned == account.stake_shares
            &&& has_totals(
                pool,
                after,
                pool.total_available,
                after.total_for_staking,
                after.total_stake_shares,
                pool.total_g_skash + owed,
            )
            &&& keeps(
                after.accounts,
                id,
                AccountView {
                    stake_shares: account.stake_shares - burned,
                    unstaked: account.unstaked + taken,
                    unlock_epoch: epoch_height + pool.unstaking_delay(taken),
                    realized_g_skash: account.realized_g_skash + owed,
                    delta_staked: value - taken,
                    multiplier_pct: pool.staker_g_skash_mult_pct,
                    ..account
                },
            )
            &&& other != id ==> same_entry(pool.accounts, after.accounts, other)
        }),
{
    law_stake_shares_trade_at_the_price(
        pool,
        requested_shares,
        requested,
        value,
        pool.account(id).stake_shares,
    );
    law_g_skash_is_credited(pool, pool.account(id), value, owed);
}

/// A granted unstake that leaves more than one NEAR staked gives the account
/// exactly what it asked for.
pub proof fn law_granted_unstake_gives_what_was_requested(
    pool: PoolView,
    id: Seq<char>,
    requested: int,
    epoch_height: int,
    value: int,
)
    requires
        pool.representable(),
        0 < requested,
        pool.unstake_refusal(id, requested, epoch_height) is None,
        are_worth(
            value,
            pool.account(id).stake_shares,
            pool.total_for_staking,
            pool.total_stake_shares,
        ),
        value - requested > ONE_NEAR,
    ensures
        ({
            let after: PoolView = pool.after_unstake(id, requested, epoch_height);
            &&& after.account(id).unstaked == pool.account(id).unstaked + requested
            &&& after.total_for_staking == pool.total_for_staking - requested
            &&& after.account(id).available == pool.account(id).available
        }),
{
    let account: AccountView = pool.account(id);
    assert(account.representable());
    law_stake_shares_trade_at_the_price(pool, 0, 0, value, account.stake_shares);
}

/// Without staking pools the wait is twice the normal four epochs.
pub proof fn law_wait_without_pools_is_double(pool: PoolView, amount: int)
    requires
        pool.staking_pools.len() == 0,
        0 <= amount,
    ensures
        pool.unstaking_delay(amount) == 8,
{
}

/// A further staking pool shortens the wait by what it can release: one that is
/// busy, or has an unstake in process, is as good as none. Another covers any
/// amount below its stake with the normal wait, and of a larger one it leaves
/// the rest to the others.
pub proof fn law_further_pool_releases_its_stake(
    fewer: PoolView,
    more: PoolView,
    sp: StakingPoolInfo,
    amount: int,
)
    requires
        more.staking_pools == fewer.staking_pools.push(sp),
        0 <= amount,
    ensures
        sp.busy_lock || sp.unstaked > 0 ==> more.unstaking_delay(amount) == fewer.unstaking_delay(
            amount,
        ),
        !sp.busy_lock && sp.unstaked == 0 && sp.staked > amount ==> more.unstaking_delay(amount)
            == 4,
        !sp.busy_lock && sp.unstaked == 0 && sp.staked <= amount ==> more.unstaking_delay(amount)
            == fewer.unstaking_delay(amount - sp.staked),
{
    assert(more.staking_pools.drop_last() =~= fewer.staking_pools);
    lemma_total_wait_is_not_negative(fewer.staking_pools);
}

/// Pools release no less than nothing.
proof fn lemma_total_wait_is_not_negative(pools: Seq<StakingPoolInfo>)
    ensures
        0 <= total_normal_wait_stake(pools),
    decreases pools.len(),
{
    if pools.len() > 0 {
        lemma_total_wait_is_not_negative(pools.drop_last());
        assert(0 <= normal_wait_stake(pools.last()));
    }
}

/// Incorporating an amount adds all of it to the funds for staking, and the
/// shares that it buys to the account and to the total. An amount that buys no
/// share changes nothing.
pub proof fn law_incorporation_adds_amount_and_shares(
    pool: PoolView,
    id: Seq<char>,
    amount: int,
    bought: int,
    other: Seq<char>,
)
    requires
        pool.representable(),
        0 <= amount,
        buys(bought, amount, pool.total_for_staking, pool.total_stake_shares),
    ensures
        ({
            let account: AccountView = pool.account(id);
            let after: PoolView = pool.after_incorporation(id, amount);
            &&& bought == 0 ==> after == pool
            &&& bought != 0 ==> {
                &&& has_totals(
                    pool,
                    after,
                    pool.total_available,
                    pool.total_for_staking + amount,
                    pool.total_stake_shares + bought,
                    pool.total_g_skash,
                )
                &&& keeps(
                    after.accounts,
                    id,
                    AccountView { stake_shares: account.stake_shares + bought, ..account },
                )
                &&& other != id ==> same_entry(pool.accounts, after.accounts, other)
            }
        }),
{
    law_amount_buys_its_shares(bought, amount, pool.total_for_staking, pool.total_stake_shares);
    lemma_bought_is_not_negative(
        bought,
        amount,
        pool.total_for_staking,
        pool.total_stake_shares,
    );
}

/// A transfer of NEAR takes the amount from what the sender has available and
/// adds it to what the receiver has, and does nothing else.
pub proof fn law_near_transfer_moves_the_amount(
    pool: PoolView,
    sender: Seq<char>,
    receiver: Seq<char>,
    amount: int,
    other: Seq<char>,
)
    ensures
        ({
            let from: AccountView = pool.account(sender);
            let to: AccountView = pool.account(receiver);
            let after: PoolView = pool.after_transfer(sender, receiver, "NEAR"@, amount);
            &&& sender == receiver ==> after == pool
            &&& sender != receiver ==> {
                &&& after == PoolView { accounts: after.accounts, ..pool }
                &&& keeps(
                    after.accounts,
                    sender,
                    AccountView { available: from.available - amount, ..from },
                )
                &&& keeps(
                    after.accounts,
                    receiver,
                    AccountView { available: to.available + amount, ..to },
                )
                &&& other != sender && other != receiver ==> same_entry(
                    pool.accounts,
                    after.accounts,
                    other,
                )
            }
        }),
{
}

/// A transfer of SKASH takes the shares that the amount buys from the sender and
/// adds them to the receiver's, and does nothing else.
pub proof fn law_skash_transfer_moves_shares(
    pool: PoolView,
    sender: Seq<char>,
    receiver: Seq<char>,
    amount: int,
    shares: int,
    other: Seq<char>,
)
    requires
        pool.representable(),
        0 <= amount,
        buys(shares, amount, pool.total_for_staking, pool.total_stake_shares),
    ensures
        ({
            let from: AccountView = pool.account(sender);
            let to: AccountView = pool.account(receiver);
            let after: PoolView = pool.after_transfer(sender, receiver, "SKASH"@, amount);
            &&& sender == receiver ==> after == pool
            &&& sender != receiver ==> {
                &&& after == PoolView { accounts: after.accounts, ..pool }
                &&& keeps(
                    after.accounts,
                    sender,
                    AccountView { stake_shares: from.stake_shares - shares, ..from },
                )
                &&& keeps(
                    after.accounts,
                    receiver,
                    AccountView { stake_shares: to.stake_shares + shares, ..to },
                )
                &&& other != sender && other != receiver ==> same_entry(
                    pool.accounts,
                    after.accounts,
                    other,
                )
            }
        }),
{
    lemma_symbols_differ();
    law_amount_buys_its_shares(shares, amount, pool.total_for_staking, pool.total_stake_shares);
}

/// A transfer of G-SKASH credits the sender with what it is owed, then takes the
/// amount from its governance tokens and adds it to the receiver's.
pub proof fn law_g_skash_transfer_moves_the_amount(
    pool: PoolView,
    sender: Seq<char>,
    receiver: Seq<char>,
    amount: int,
    value: int,
    owed: int,
    other: Seq<char>,
)
    requires
        pool.representable(),
        are_worth(
            value,
            pool.account(sender).stake_shares,
            pool.total_for_staking,
            pool.total_stake_shares,
        ),
        is_owed(owed, pool.account(sender), value),
    ensures
        ({
            let from: AccountView = pool.account(sender);
            let to: AccountView = pool.account(receiver);
            let after: PoolView = pool.after_transfer(sender, receiver, "G-SKASH"@, amount);
            let sent: int = if sender == receiver {
                0
            } else {
                amount
            };
            &&& has_totals(
                pool,
                after,
                pool.total_available,
                pool.total_for_staking,
                pool.total_stake_shares,
                pool.total_g_skash + owed,
            )
            &&& keeps(
                after.accounts,
                sender,
                AccountView {
                    realized_g_skash: from.realized_g_skash + owed - sent,
                    delta_staked: value,
                    multiplier_pct: pool.staker_g_skash_mult_pct,
                    ..from
                },
            )
            &&& sender != receiver ==> keeps(
                after.accounts,
                receiver,
                AccountView { realized_g_skash: to.realized_g_skash + amount, ..to },
            )
            &&& other != sender && other != receiver ==> same_entry(
                pool.accounts,
                after.accounts,
                other,
            )
        }),
{
    lemma_symbols_differ();
    law_g_skash_is_credited(pool, pool.account(sender), value, owed);
}

/// The three symbols are different.
pub proof fn lemma_symbols_differ()
    ensures
        "NEAR"@ != "SKASH"@,
        "NEAR"@ != "G-SKASH"@,
        "SKASH"@ != "G-SKASH"@,
{
    reveal_strlit("NEAR");
    reveal_strlit("SKASH");
    reveal_strlit("G-SKASH");
    assert("NEAR"@.len() == 4);
    assert("SKASH"@.len() == 5);
    assert("G-SKASH"@.len() == 7);
}

} // verus!
