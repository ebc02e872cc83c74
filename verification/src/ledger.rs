//! The books: the totals of the contract against the accounts they sum up, and
//! that every operation keeps them balanced.

use crate::account::AccountView;
use crate::constants::NSLP_INTERNAL_ACCOUNT;
use crate::error::PoolError;
use crate::math::law_covered_amount_buys_no_more_shares;
use crate::pool::PoolView;
use vstd::prelude::*;

verus! {

/// The sum of a figure over accounts.
pub open spec fn sum_over(
    accounts: Map<Seq<char>, AccountView>,
    figure: spec_fn(AccountView) -> int,
) -> int
    decreases accounts.dom().len(),
{
    if accounts.dom().finite() && accounts.dom().len() > 0 {
        let id: Seq<char> = accounts.dom().choose();
        figure(accounts[id]) + sum_over(accounts.remove(id), figure)
    } else {
        0
    }
}

/// What an account has available.
pub open spec fn available_of() -> spec_fn(AccountView) -> int {
    |account: AccountView| account.available
}

/// The stake shares of an account.
pub open spec fn stake_shares_of() -> spec_fn(AccountView) -> int {
    |account: AccountView| account.stake_shares
}

/// The governance tokens of an account.
pub open spec fn g_skash_of() -> spec_fn(AccountView) -> int {
    |account: AccountView| account.realized_g_skash
}

impl PoolView {
    /// Whether each total is the sum of its figure over the accounts, and every
    /// account that is kept has a balance.
    pub open spec fn ledger_balanced(self) -> bool {
        &&& self.accounts.dom().finite()
        &&& self.total_available == sum_over(self.accounts, available_of())
        &&& self.total_stake_shares == sum_over(self.accounts, stake_shares_of())
        &&& self.total_g_skash == sum_over(self.accounts, g_skash_of())
        &&& forall|id: Seq<char>|
            #![trigger self.accounts[id]]
            self.accounts.contains_key(id) ==> !self.accounts[id].is_empty()
    }
}

/// A sum does not depend on the order in which the accounts are taken.
proof fn lemma_sum_take_one(
    accounts: Map<Seq<char>, AccountView>,
    figure: spec_fn(AccountView) -> int,
    id: Seq<char>,
)
    requires
        accounts.dom().finite(),
        accounts.contains_key(id),
    ensures
        sum_over(accounts, figure) == figure(accounts[id]) + sum_over(accounts.remove(id), figure),
    decreases accounts.dom().len(),
{
    let first: Seq<char> = accounts.dom().choose();
    if accounts.dom().len() == 0 {
        assert(accounts.dom() =~= Set::empty());
    }
    assert(accounts.remove(first).dom() =~= accounts.dom().remove(first));
    assert(accounts.remove(id).dom() =~= accounts.dom().remove(id));
    if id != first {
        lemma_sum_take_one(accounts.remove(first), figure, id);
        lemma_sum_take_one(accounts.remove(id), figure, first);
        assert(accounts.remove(first).remove(id) =~= accounts.remove(id).remove(first));
    }
}

/// Keeping an account changes a sum by what the account's figure changes.
proof fn lemma_sum_with_account(
    pool: PoolView,
    figure: spec_fn(AccountView) -> int,
    id: Seq<char>,
    account: AccountView,
)
    requires
        pool.accounts.dom().finite(),
        figure(AccountView::fresh()) == 0,
        account.is_empty() ==> figure(account) == 0,
    ensures
        pool.with_account(id, account).accounts.dom().finite(),
        sum_over(pool.with_account(id, account).accounts, figure) == sum_over(
            pool.accounts,
            figure,
        ) - figure(pool.account(id)) + figure(account),
{
    let after: Map<Seq<char>, AccountView> = pool.with_account(id, account).accounts;
    assert(after.dom() =~= if account.is_empty() {
        pool.accounts.dom().remove(id)
    } else {
        pool.accounts.dom().insert(id)
    });
    if pool.accounts.contains_key(id) {
        lemma_sum_take_one(pool.accounts, figure, id);
    } else {
        assert(pool.accounts.remove(id) =~= pool.accounts);
    }
    if !account.is_empty() {
        lemma_sum_take_one(after, figure, id);
        assert(after.remove(id) =~= pool.accounts.remove(id));
    }
}

/// All three sums after an account was kept.
proof fn lemma_sums_with_account(pool: PoolView, id: Seq<char>, account: AccountView)
    requires
        pool.accounts.dom().finite(),
    ensures
        ({
            let before: AccountView = pool.account(id);
            let after: Map<Seq<char>, AccountView> = pool.with_account(id, account).accounts;
            &&& after.dom().finite()
            &&& sum_over(after, available_of()) == sum_over(pool.accounts, available_of())
                - before.available + account.available
            &&& sum_over(after, stake_shares_of()) == sum_over(pool.accounts, stake_shares_of())
                - before.stake_shares + account.stake_shares
            &&& sum_over(after, g_skash_of()) == sum_over(pool.accounts, g_skash_of())
                - before.realized_g_skash + account.realized_g_skash
        }),
{
    lemma_sum_with_account(pool, available_of(), id, account);
    lemma_sum_with_account(pool, stake_shares_of(), id, account);
    lemma_sum_with_account(pool, g_skash_of(), id, account);
}

/// No account's figure is more than the sum, where none is negative.
proof fn lemma_sum_covers(
    accounts: Map<Seq<char>, AccountView>,
    figure: spec_fn(AccountView) -> int,
    id: Seq<char>,
)
    requires
        accounts.dom().finite(),
        forall|k: Seq<char>| accounts.contains_key(k) ==> 0 <= #[trigger] figure(accounts[k]),
    ensures
        0 <= sum_over(accounts, figure),
        accounts.contains_key(id) ==> figure(accounts[id]) <= sum_over(accounts, figure),
    decreases accounts.dom().len(),
{
    if accounts.dom().len() > 0 {
        let first: Seq<char> = accounts.dom().choose();
        assert(accounts.contains_key(first));
        let rest: Map<Seq<char>, AccountView> = accounts.remove(first);
        assert(rest.dom() =~= accounts.dom().remove(first));
        assert forall|k: Seq<char>| rest.contains_key(k) implies 0 <= #[trigger] figure(
            rest[k],
        ) by {
            assert(0 <= figure(accounts[k]));
        }
        lemma_sum_covers(rest, figure, id);
        if accounts.contains_key(id) && id != first {
            assert(rest[id] == accounts[id]);
        }
        assert(0 <= figure(accounts[first]));
    } else if accounts.contains_key(id) {
        assert(accounts.dom() =~= Set::empty());
    }
}

/// While the books are balanced, the totals cover every account: no account has
/// more available, more stake shares or more governance tokens than all together.
pub proof fn law_totals_cover_every_account(pool: PoolView, id: Seq<char>)
    requires
        pool.representable(),
        pool.ledger_balanced(),
    ensures
        0 <= pool.account(id).available <= pool.total_available,
        0 <= pool.account(id).stake_shares <= pool.total_stake_shares,
        0 <= pool.account(id).realized_g_skash <= pool.total_g_skash,
{
    lemma_sum_covers(pool.accounts, available_of(), id);
    lemma_sum_covers(pool.accounts, stake_shares_of(), id);
    lemma_sum_covers(pool.accounts, g_skash_of(), id);
}

/// While the books are balanced, no request is refused because the totals do not
/// cover an account: what an account has available can be staked, and can be
/// withdrawn.
pub proof fn law_balanced_ledger_is_never_inconsistent(pool: PoolView, id: Seq<char>, amount: int)
    requires
        pool.representable(),
        pool.ledger_balanced(),
        0 <= amount,
    ensures
        pool.stake_refusal(id, amount) != Some(PoolError::AvailableInconsistency),
        pool.withdraw_refusal(id, amount) != Some(PoolError::Overflow),
{
    law_totals_cover_every_account(pool, id);
}

/// A deposit keeps the books balanced.
pub proof fn law_deposit_keeps_ledger_balanced(pool: PoolView, id: Seq<char>, amount: int)
    requires
        pool.representable(),
        pool.ledger_balanced(),
        pool.deposit_refusal(id, amount) is None,
    ensures
        pool.after_deposit(id, amount).ledger_balanced(),
{
    let account: AccountView = pool.account(id);
    lemma_sums_with_account(
        pool,
        id,
        AccountView { available: account.available + amount, ..account },
    );
}

/// A withdrawal keeps the books balanced.
pub proof fn law_withdraw_keeps_ledger_balanced(pool: PoolView, id: Seq<char>, requested: int)
    requires
        pool.representable(),
        pool.ledger_balanced(),
        0 <= requested,
        pool.withdraw_refusal(id, requested) is None,
    ensures
        pool.after_withdraw(id, requested).ledger_balanced(),
{
    lemma_sums_with_account(pool, id, pool.account_after_withdraw(id, requested));
}

/// The sale of the liquidity pool's staked tokens keeps the books balanced.
pub proof fn law_clearing_keeps_ledger_balanced(pool: PoolView)
    requires
        pool.representable(),
        pool.ledger_balanced(),
        !pool.clearing_overflows(),
    ensures
        pool.after_clearing().ledger_balanced(),
{
    if pool.can_clear() {
        lemma_sums_with_account(pool, NSLP_INTERNAL_ACCOUNT@, pool.cleared_nslp_account());
    }
}

/// Staking keeps the books balanced.
pub proof fn law_stake_keeps_ledger_balanced(pool: PoolView, id: Seq<char>, amount: int)
    requires
        pool.representable(),
        pool.ledger_balanced(),
        pool.stake_refusal(id, amount) is None,
    ensures
        pool.after_stake(id, amount).ledger_balanced(),
{
    lemma_sums_with_account(pool, id, pool.account_after_stake(id, amount));
    law_clearing_keeps_ledger_balanced(pool.before_clearing(id, amount));
}

/// Unstaking keeps the books balanced.
pub proof fn law_unstake_keeps_ledger_balanced(
    pool: PoolView,
    id: Seq<char>,
    requested: int,
    epoch_height: int,
)
    requires
        pool.representable(),
        pool.ledger_balanced(),
        0 <= requested,
        pool.unstake_refusal(id, requested, epoch_height) is None,
    ensures
        pool.after_unstake(id, requested, epoch_height).ledger_balanced(),
{
    lemma_sums_with_account(pool, id, pool.account_after_unstake(id, requested, epoch_height));
}

/// Incorporating an amount with the shares that it buys keeps the books balanced.
pub proof fn law_incorporation_keeps_ledger_balanced(pool: PoolView, id: Seq<char>, amount: int)
    requires
        pool.representable(),
        pool.ledger_balanced(),
        0 <= amount,
        !pool.incorporation_overflows(id, amount),
    ensures
        pool.after_incorporation(id, amount).ledger_balanced(),
{
    let account: AccountView = pool.account(id);
    let num_shares: int = pool.stake_shares_worth(amount);
    if num_shares > 0 {
        lemma_sums_with_account(
            pool,
            id,
            AccountView { stake_shares: account.stake_shares + num_shares, ..account },
        );
    }
}

/// A transfer keeps the books balanced.
pub proof fn law_transfer_keeps_ledger_balanced(
    pool: PoolView,
    sender: Seq<char>,
    receiver: Seq<char>,
    symbol: Seq<char>,
    amount: int,
)
    requires
        pool.representable(),
        pool.ledger_balanced(),
        0 <= amount,
        pool.transfer_refusal(sender, receiver, symbol, amount) is None,
    ensures
        pool.after_transfer(sender, receiver, symbol, amount).ledger_balanced(),
{
    let from: AccountView = pool.account(sender);
    let to: AccountView = pool.account(receiver);
    if sender == receiver {
        // only governance tokens can change, by what was owed
        lemma_sums_with_account(
            pool.with_g_skash_realized(from),
            sender,
            pool.account_with_g_skash_realized(from),
        );
    } else if symbol == "NEAR"@ {
        let sent: AccountView = AccountView { available: from.available - amount, ..from };
        lemma_sums_with_account(pool, sender, sent);
        lemma_sums_with_account(
            pool.with_account(sender, sent),
            receiver,
            AccountView { available: to.available + amount, ..to },
        );
    } else if symbol == "SKASH"@ {
        let shares: int = pool.stake_shares_worth(amount);
        law_totals_cover_every_account(pool, sender);
        law_covered_amount_buys_no_more_shares(
            amount,
            from.stake_shares,
            pool.total_for_staking,
            pool.total_stake_shares,
        );
        let sent: AccountView = AccountView { stake_shares: from.stake_shares - shares, ..from };
        lemma_sums_with_account(pool, sender, sent);
        lemma_sums_with_account(
            pool.with_account(sender, sent),
            receiver,
            AccountView { stake_shares: to.stake_shares + shares, ..to },
        );
    } else {
        let realized: AccountView = pool.account_with_g_skash_realized(from);
        let sent: AccountView = AccountView {
            realized_g_skash: realized.realized_g_skash - amount,
            ..realized
        };
        let credited: PoolView = pool.with_g_skash_realized(from);
        lemma_sums_with_account(credited, sender, sent);
        lemma_sums_with_account(
            credited.with_account(sender, sent),
            receiver,
            AccountView { realized_g_skash: to.realized_g_skash + amount, ..to },
        );
    }
}

} // verus!
