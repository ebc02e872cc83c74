use diversified_pool::{
    Account, DiversifiedPool, PoolError, RewardMeter, StakingPoolInfo, FIVE_NEAR,
    MAX_ACCOUNT_ID_CHARS, MIN_STAKE_UNSTAKE_AMOUNT_MOVEMENT, NSLP_INTERNAL_ACCOUNT, NUM_EPOCHS_TO_UNLOCK, ONE_NEAR,
    ONE_NEAR_CENT,
};
use near_sdk::collections::LookupMap;
use near_sdk::{MockedBlockchain, RuntimeFeesConfig, VMConfig, VMContext};
use std::collections::HashMap;

const HALF_CENT: u128 = ONE_NEAR_CENT / 2;

/// A pool without accounts, on a chain with empty storage.
fn new_pool() -> DiversifiedPool {
    let context = VMContext {
        current_account_id: "pool.near".to_string(),
        signer_account_id: "alice.near".to_string(),
        signer_account_pk: vec![0, 1, 2],
        predecessor_account_id: "alice.near".to_string(),
        input: vec![],
        block_index: 0,
        block_timestamp: 0,
        epoch_height: 0,
        account_balance: 0,
        account_locked_balance: 0,
        storage_usage: 1_000_000,
        attached_deposit: 0,
        prepaid_gas: 1_000_000_000_000_000_000,
        random_seed: vec![0, 1, 2],
        is_view: false,
        output_data_receivers: vec![],
    };
    near_sdk::env::set_blockchain_interface(Box::new(MockedBlockchain::new(
        context,
        VMConfig::free(),
        RuntimeFeesConfig::free(),
        vec![],
        HashMap::new(),
        HashMap::new(),
    )));
    DiversifiedPool {
        owner_account_id: "owner.near".to_string(),
        min_account_balance: 0,
        total_available: 0,
        total_for_staking: 0,
        total_actually_staked: 0,
        total_stake_shares: 0,
        total_g_skash: 0,
        staker_g_skash_mult_pct: 100,
        nslp_near_target: 10_000 * ONE_NEAR,
        nslp_max_discount_basis_points: 1_000,
        nslp_min_discount_basis_points: 50,
        staking_pools: vec![],
        accounts: LookupMap::new(b"A".to_vec()),
    }
}

fn id(name: &str) -> String {
    name.to_string()
}

fn with_available(available: u128) -> Account {
    Account { available, ..Account::default() }
}

fn with_shares(stake_shares: u128) -> Account {
    Account { stake_shares, ..Account::default() }
}

fn idle(weight_basis_points: u16, staked: u128) -> StakingPoolInfo {
    StakingPoolInfo { busy_lock: false, weight_basis_points, staked, unstaked: 0 }
}

// ---- accounts ----

#[test]
fn unknown_account_is_fresh() {
    let pool = new_pool();
    assert!(pool.find_account(&id("alice.near")).is_none());
    assert_eq!(pool.internal_get_account(&id("alice.near")), Account::default());
}

#[test]
fn account_reads_back_as_written() {
    let mut pool = new_pool();
    let account = Account {
        available: 1,
        stake_shares: 2,
        unstaked: 3,
        unstaked_requested_unlock_epoch: 4,
        realized_g_skash: 5,
        staking_meter: RewardMeter { delta_staked: -6, last_multiplier_pct: 7 },
        nslp_shares: u128::MAX,
    };
    pool.internal_update_account(&id("alice.near"), &account);
    pool.internal_update_account(&id("bob.near"), &with_available(9));
    assert_eq!(pool.internal_get_account(&id("alice.near")), account);
    assert_eq!(pool.find_account(&id("bob.near")), Some(with_available(9)));
    pool.internal_update_account(&id("alice.near"), &with_available(8));
    assert_eq!(pool.internal_get_account(&id("alice.near")), with_available(8));
    assert_eq!(pool.internal_get_account(&id("bob.near")), with_available(9));
}

#[test]
fn empty_account_is_deleted() {
    let mut pool = new_pool();
    pool.internal_update_account(&id("alice.near"), &with_available(8));
    let mut emptied = with_available(0);
    emptied.unstaked_requested_unlock_epoch = 12;
    assert!(emptied.is_empty());
    pool.internal_update_account(&id("alice.near"), &emptied);
    assert!(pool.find_account(&id("alice.near")).is_none());
    assert_eq!(pool.internal_get_account(&id("alice.near")), Account::default());
}

#[test]
fn account_with_any_balance_is_kept() {
    let mut only_unstaked = Account::default();
    only_unstaked.unstaked = 1;
    let mut only_g_skash = Account::default();
    only_g_skash.realized_g_skash = 1;
    let mut only_nslp_shares = Account::default();
    only_nslp_shares.nslp_shares = 1;
    assert!(!with_available(1).is_empty());
    assert!(!with_shares(1).is_empty());
    assert!(!only_unstaked.is_empty());
    assert!(!only_g_skash.is_empty());
    assert!(!only_nslp_shares.is_empty());
}

#[test]
fn longest_id_can_be_a_key() {
    let mut pool = new_pool();
    let longest = "\u{10ffff}".repeat(MAX_ACCOUNT_ID_CHARS as usize);
    pool.internal_update_account(&longest, &with_available(8));
    assert_eq!(pool.internal_get_account(&longest), with_available(8));
    pool.internal_update_account(&longest, &with_available(0));
    assert!(pool.find_account(&longest).is_none());
}

#[test]
fn nslp_account_is_kept_under_its_own_id() {
    let mut pool = new_pool();
    assert_eq!(pool.internal_get_nslp_account(), Account::default());
    pool.internal_save_nslp_account(&with_available(5));
    assert_eq!(pool.internal_get_nslp_account(), with_available(5));
    assert_eq!(pool.internal_get_account(&id(NSLP_INTERNAL_ACCOUNT)), with_available(5));
}

#[test]
fn only_the_owner_is_let_through() {
    let pool = new_pool();
    assert_eq!(pool.assert_owner_calling(&id("owner.near")), Ok(()));
    assert_eq!(pool.assert_owner_calling(&id("alice.near")), Err(PoolError::NotOwner));
}

#[test]
fn meter_follows_the_stake() {
    let mut account = Account::default();
    assert_eq!(account.add_stake_shares(10, 20), Ok(()));
    assert_eq!(account.stake_shares, 10);
    assert_eq!(account.staking_meter.delta_staked, 20);
    assert_eq!(account.sub_stake_shares(11, 1), Err(PoolError::NotEnoughShares));
    assert_eq!(account.sub_stake_shares(4, 50), Ok(()));
    assert_eq!(account.stake_shares, 6);
    assert_eq!(account.staking_meter.delta_staked, -30);
    assert_eq!(account.add_stake_shares(u128::MAX, 0), Err(PoolError::Overflow));
    assert_eq!(account.add_stake_shares(0, u128::MAX), Err(PoolError::Overflow));
    assert_eq!(account.sub_stake_shares(0, u128::MAX), Err(PoolError::Overflow));
}

#[test]
fn pending_g_skash_is_credited_once() {
    let mut pool = new_pool();
    pool.total_for_staking = 300;
    pool.total_stake_shares = 100;
    pool.staker_g_skash_mult_pct = 500;
    let mut account = with_shares(50);
    account.staking_meter = RewardMeter { delta_staked: 100, last_multiplier_pct: 250 };
    assert_eq!(account.stake_realize_g_skash(&mut pool), Ok(()));
    // worth 150, of which 50 is gain
    assert_eq!(account.realized_g_skash, 125);
    assert_eq!(pool.total_g_skash, 125);
    assert_eq!(account.staking_meter, RewardMeter { delta_staked: 150, last_multiplier_pct: 500 });
    assert_eq!(account.stake_realize_g_skash(&mut pool), Ok(()));
    assert_eq!(account.realized_g_skash, 125);
    account.staking_meter.delta_staked = 1_000;
    assert_eq!(account.stake_realize_g_skash(&mut pool), Ok(()));
    assert_eq!(account.realized_g_skash, 125);
    account.staking_meter.delta_staked = -50;
    assert_eq!(account.stake_realize_g_skash(&mut pool), Ok(()));
    assert_eq!(account.realized_g_skash, 125 + 1_000);
    pool.total_g_skash = u128::MAX;
    account.staking_meter.delta_staked = 0;
    assert_eq!(account.stake_realize_g_skash(&mut pool), Err(PoolError::Overflow));
    assert_eq!(account.realized_g_skash, 125 + 1_000);
}

// ---- deposit and withdraw ----

#[test]
fn deposit_is_available() {
    let mut pool = new_pool();
    assert_eq!(pool.internal_deposit(&id("alice.near"), FIVE_NEAR), Ok(()));
    assert_eq!(pool.internal_deposit(&id("alice.near"), 2 * FIVE_NEAR), Ok(()));
    assert_eq!(pool.internal_get_account(&id("alice.near")), with_available(3 * FIVE_NEAR));
    assert_eq!(pool.total_available, 3 * FIVE_NEAR);
}

#[test]
fn deposit_refusals_leave_the_pool() {
    let mut pool = new_pool();
    assert_eq!(
        pool.internal_deposit(&id("alice.near"), FIVE_NEAR - 1),
        Err(PoolError::BelowMinAmount)
    );
    pool.total_available = u128::MAX;
    assert_eq!(pool.internal_deposit(&id("alice.near"), FIVE_NEAR), Err(PoolError::Overflow));
    assert!(pool.find_account(&id("alice.near")).is_none());
    assert_eq!(pool.total_available, u128::MAX);
}

#[test]
fn withdrawal_pays_what_was_requested() {
    let mut pool = new_pool();
    pool.internal_deposit(&id("alice.near"), 10 * ONE_NEAR).unwrap();
    assert_eq!(pool.internal_withdraw(&id("alice.near"), 4 * ONE_NEAR), Ok(4 * ONE_NEAR));
    assert_eq!(pool.internal_get_account(&id("alice.near")), with_available(6 * ONE_NEAR));
    assert_eq!(pool.total_available, 6 * ONE_NEAR);
}

#[test]
fn withdrawal_takes_dust_along() {
    let mut pool = new_pool();
    pool.internal_deposit(&id("alice.near"), 10 * ONE_NEAR).unwrap();
    let most = 10 * ONE_NEAR - HALF_CENT + 1;
    assert_eq!(pool.internal_withdraw(&id("alice.near"), most), Ok(10 * ONE_NEAR));
    assert!(pool.find_account(&id("alice.near")).is_none());
    assert_eq!(pool.total_available, 0);

    pool.internal_deposit(&id("alice.near"), 10 * ONE_NEAR).unwrap();
    assert_eq!(pool.internal_withdraw(&id("alice.near"), most - 1), Ok(most - 1));
    assert_eq!(pool.internal_get_account(&id("alice.near")), with_available(HALF_CENT));
}

#[test]
fn withdrawal_refusals_leave_the_pool() {
    let mut pool = new_pool();
    pool.internal_deposit(&id("alice.near"), 10 * ONE_NEAR).unwrap();
    assert_eq!(
        pool.internal_withdraw(&id("alice.near"), 10 * ONE_NEAR + 1),
        Err(PoolError::NotEnoughAvailableToWithdraw)
    );
    pool.min_account_balance = ONE_NEAR;
    assert_eq!(
        pool.internal_withdraw(&id("alice.near"), 10 * ONE_NEAR - ONE_NEAR / 2),
        Err(PoolError::BelowMinAccountBalance)
    );
    pool.total_available = 1;
    assert_eq!(
        pool.internal_withdraw(&id("alice.near"), 5 * ONE_NEAR),
        Err(PoolError::Overflow)
    );
    assert_eq!(pool.internal_get_account(&id("alice.near")), with_available(10 * ONE_NEAR));
    assert_eq!(pool.total_available, 1);
}

#[test]
fn open_account_keeps_the_minimum_balance() {
    let mut pool = new_pool();
    pool.min_account_balance = ONE_NEAR;
    pool.internal_deposit(&id("alice.near"), 10 * ONE_NEAR).unwrap();
    assert_eq!(
        pool.internal_withdraw(&id("alice.near"), 9 * ONE_NEAR + 1),
        Err(PoolError::BelowMinAccountBalance)
    );
    assert_eq!(pool.internal_withdraw(&id("alice.near"), 9 * ONE_NEAR), Ok(9 * ONE_NEAR));
    assert_eq!(pool.internal_get_account(&id("alice.near")), with_available(ONE_NEAR));
}

#[test]
fn account_can_be_closed() {
    let mut pool = new_pool();
    pool.min_account_balance = ONE_NEAR;
    pool.internal_deposit(&id("alice.near"), 10 * ONE_NEAR).unwrap();
    assert_eq!(pool.internal_withdraw(&id("alice.near"), 10 * ONE_NEAR), Ok(10 * ONE_NEAR));
    assert!(pool.find_account(&id("alice.near")).is_none());
    assert_eq!(pool.total_available, 0);
}

#[test]
fn account_with_stake_stays_open() {
    let mut pool = new_pool();
    pool.min_account_balance = ONE_NEAR;
    let mut alice = with_available(10 * ONE_NEAR);
    alice.stake_shares = 1;
    pool.internal_update_account(&id("alice.near"), &alice);
    pool.total_available = 10 * ONE_NEAR;
    assert_eq!(
        pool.internal_withdraw(&id("alice.near"), 10 * ONE_NEAR),
        Err(PoolError::BelowMinAccountBalance)
    );
    assert_eq!(pool.internal_get_account(&id("alice.near")), alice);
}

#[test]
fn withdrawal_undoes_deposit() {
    let mut pool = new_pool();
    pool.internal_update_account(&id("alice.near"), &with_available(HALF_CENT));
    pool.total_available = HALF_CENT;
    pool.internal_deposit(&id("alice.near"), 7 * ONE_NEAR).unwrap();
    assert_eq!(pool.internal_withdraw(&id("alice.near"), 7 * ONE_NEAR), Ok(7 * ONE_NEAR));
    assert_eq!(pool.internal_get_account(&id("alice.near")), with_available(HALF_CENT));
    assert_eq!(pool.total_available, HALF_CENT);
}

#[test]
fn withdrawal_undoes_first_deposit() {
    let mut pool = new_pool();
    pool.min_account_balance = ONE_NEAR;
    pool.internal_deposit(&id("alice.near"), 7 * ONE_NEAR).unwrap();
    assert_eq!(pool.internal_withdraw(&id("alice.near"), 7 * ONE_NEAR), Ok(7 * ONE_NEAR));
    assert!(pool.find_account(&id("alice.near")).is_none());
    assert_eq!(pool.total_available, 0);
}

// ---- stake and unstake ----

#[test]
fn stake_buys_shares() {
    let mut pool = new_pool();
    pool.internal_deposit(&id("alice.near"), 20 * ONE_NEAR).unwrap();
    assert_eq!(pool.internal_stake(&id("alice.near"), 10 * ONE_NEAR), Ok(()));
    let alice = pool.internal_get_account(&id("alice.near"));
    assert_eq!(alice.available, 10 * ONE_NEAR);
    assert_eq!(alice.stake_shares, 10 * ONE_NEAR);
    assert_eq!(alice.staking_meter.delta_staked, 10 * ONE_NEAR as i128);
    assert_eq!(pool.total_available, 10 * ONE_NEAR);
    assert_eq!(pool.total_for_staking, 10 * ONE_NEAR);
    assert_eq!(pool.total_stake_shares, 10 * ONE_NEAR);

    // rewards double the price
    pool.total_for_staking = 20 * ONE_NEAR;
    assert_eq!(pool.internal_stake(&id("alice.near"), 10 * ONE_NEAR), Ok(()));
    let alice = pool.internal_get_account(&id("alice.near"));
    assert_eq!(alice.available, 0);
    assert_eq!(alice.stake_shares, 15 * ONE_NEAR);
    assert_eq!(alice.realized_g_skash, 10 * ONE_NEAR);
    assert_eq!(pool.total_g_skash, 10 * ONE_NEAR);
    assert_eq!(pool.total_for_staking, 30 * ONE_NEAR);
    assert_eq!(pool.amount_from_stake_shares(alice.stake_shares), Ok(30 * ONE_NEAR));
}

#[test]
fn stake_refusals_leave_the_pool() {
    let mut pool = new_pool();
    pool.internal_deposit(&id("alice.near"), 20 * ONE_NEAR).unwrap();
    assert_eq!(
        pool.internal_stake(&id("alice.near"), FIVE_NEAR - 1),
        Err(PoolError::BelowMinAmount)
    );
    assert_eq!(
        pool.internal_stake(&id("alice.near"), 21 * ONE_NEAR),
        Err(PoolError::NotEnoughAvailableToStake)
    );
    pool.total_stake_shares = 1;
    pool.total_for_staking = 100 * ONE_NEAR;
    assert_eq!(pool.internal_stake(&id("alice.near"), 20 * ONE_NEAR), Err(PoolError::NoShares));
    pool.total_stake_shares = 0;
    pool.total_for_staking = 0;
    pool.total_available = 19 * ONE_NEAR;
    assert_eq!(
        pool.internal_stake(&id("alice.near"), 20 * ONE_NEAR),
        Err(PoolError::AvailableInconsistency)
    );
    pool.total_available = 20 * ONE_NEAR;
    pool.total_for_staking = u128::MAX;
    assert_eq!(pool.internal_stake(&id("alice.near"), 20 * ONE_NEAR), Err(PoolError::Overflow));
    assert_eq!(pool.internal_get_account(&id("alice.near")), with_available(20 * ONE_NEAR));
    assert_eq!(pool.total_available, 20 * ONE_NEAR);
}

#[test]
fn stake_is_undone_when_the_clearing_fails() {
    let mut pool = new_pool();
    pool.internal_deposit(&id("alice.near"), 20 * ONE_NEAR).unwrap();
    let mut nslp = with_shares(10 * ONE_NEAR);
    nslp.available = u128::MAX;
    pool.internal_save_nslp_account(&nslp);
    pool.total_stake_shares = 10 * ONE_NEAR;
    pool.total_for_staking = 10 * ONE_NEAR;
    pool.total_actually_staked = 10 * ONE_NEAR;
    assert_eq!(pool.internal_stake(&id("alice.near"), 20 * ONE_NEAR), Err(PoolError::Overflow));
    assert_eq!(pool.internal_get_account(&id("alice.near")), with_available(20 * ONE_NEAR));
    assert_eq!(pool.internal_get_nslp_account(), nslp);
    assert_eq!(pool.total_available, 20 * ONE_NEAR);
    assert_eq!(pool.total_for_staking, 10 * ONE_NEAR);
    assert_eq!(pool.total_stake_shares, 10 * ONE_NEAR);
}

#[test]
fn stake_lets_the_liquidity_pool_clear() {
    let mut pool = new_pool();
    pool.internal_deposit(&id("alice.near"), 20 * ONE_NEAR).unwrap();
    pool.internal_save_nslp_account(&with_shares(8 * ONE_NEAR));
    pool.total_stake_shares = 8 * ONE_NEAR;
    pool.total_for_staking = 8 * ONE_NEAR;
    pool.total_actually_staked = 8 * ONE_NEAR;
    assert_eq!(pool.internal_stake(&id("alice.near"), 20 * ONE_NEAR), Ok(()));
    let nslp = pool.internal_get_nslp_account();
    assert_eq!(nslp.available, 8 * ONE_NEAR);
    assert_eq!(nslp.stake_shares, 0);
    assert_eq!(pool.total_available, 8 * ONE_NEAR);
    assert_eq!(pool.total_for_staking, 20 * ONE_NEAR);
    assert_eq!(pool.total_stake_shares, 20 * ONE_NEAR);
}

#[test]
fn unstake_a_part() {
    let mut pool = new_pool();
    pool.internal_update_account(&id("alice.near"), &with_shares(50 * ONE_NEAR));
    pool.total_stake_shares = 100 * ONE_NEAR;
    pool.total_for_staking = 200 * ONE_NEAR;
    pool.staking_pools = vec![idle(10_000, 200 * ONE_NEAR)];
    assert_eq!(pool.internal_unstake(&id("alice.near"), 40 * ONE_NEAR, 10), Ok(()));
    let alice = pool.internal_get_account(&id("alice.near"));
    assert_eq!(alice.stake_shares, 30 * ONE_NEAR);
    assert_eq!(alice.unstaked, 40 * ONE_NEAR);
    assert_eq!(alice.unstaked_requested_unlock_epoch, 10 + NUM_EPOCHS_TO_UNLOCK);
    assert_eq!(alice.staking_meter.delta_staked, 60 * ONE_NEAR as i128);
    assert_eq!(alice.realized_g_skash, 100 * ONE_NEAR);
    assert_eq!(pool.total_stake_shares, 80 * ONE_NEAR);
    assert_eq!(pool.total_for_staking, 160 * ONE_NEAR);
}

#[test]
fn unstake_everything_when_little_would_remain() {
    let mut pool = new_pool();
    pool.internal_update_account(&id("alice.near"), &with_shares(50 * ONE_NEAR));
    pool.total_stake_shares = 100 * ONE_NEAR;
    pool.total_for_staking = 100 * ONE_NEAR;
    assert_eq!(pool.internal_unstake(&id("alice.near"), 49 * ONE_NEAR, 10), Ok(()));
    let alice = pool.internal_get_account(&id("alice.near"));
    assert_eq!(alice.stake_shares, 0);
    assert_eq!(alice.unstaked, 50 * ONE_NEAR);
    assert_eq!(alice.unstaked_requested_unlock_epoch, 10 + 2 * NUM_EPOCHS_TO_UNLOCK);
    assert_eq!(pool.total_stake_shares, 50 * ONE_NEAR);
    assert_eq!(pool.total_for_staking, 50 * ONE_NEAR);
}

#[test]
fn unstake_refusals_leave_the_pool() {
    let mut pool = new_pool();
    let before = with_shares(50 * ONE_NEAR);
    pool.internal_update_account(&id("alice.near"), &before);
    pool.total_stake_shares = 100 * ONE_NEAR;
    pool.total_for_staking = 100 * ONE_NEAR;
    assert_eq!(
        pool.internal_unstake(&id("alice.near"), 50 * ONE_NEAR + 1, 10),
        Err(PoolError::NotEnoughSkash)
    );
    assert_eq!(pool.internal_unstake(&id("alice.near"), 0, 10), Err(PoolError::NoShares));
    assert_eq!(
        pool.internal_unstake(&id("alice.near"), 10 * ONE_NEAR, u64::MAX),
        Err(PoolError::Overflow)
    );
    assert_eq!(pool.internal_get_account(&id("alice.near")), before);
    assert_eq!(pool.total_g_skash, 0);
    assert_eq!(pool.total_stake_shares, 100 * ONE_NEAR);
    assert_eq!(pool.total_for_staking, 100 * ONE_NEAR);
}

#[test]
fn delay_doubles_when_idle_pools_do_not_cover() {
    let mut pool = new_pool();
    assert_eq!(pool.internal_compute_current_unstaking_delay(0), 2 * NUM_EPOCHS_TO_UNLOCK);
    let mut busy = idle(0, 1_000);
    busy.busy_lock = true;
    let mut waiting = idle(0, 1_000);
    waiting.unstaked = 1;
    pool.staking_pools = vec![busy, idle(0, 60), waiting, idle(0, 40)];
    assert_eq!(pool.internal_compute_current_unstaking_delay(59), NUM_EPOCHS_TO_UNLOCK);
    assert_eq!(pool.internal_compute_current_unstaking_delay(99), NUM_EPOCHS_TO_UNLOCK);
    assert_eq!(pool.internal_compute_current_unstaking_delay(100), 2 * NUM_EPOCHS_TO_UNLOCK);
}

#[test]
fn incorporation_preserves_the_share_price() {
    let mut pool = new_pool();
    pool.total_stake_shares = 50;
    pool.total_for_staking = 100;
    assert_eq!(pool.add_amount_and_shares_preserve_share_price(id("op.near"), 10), Ok(()));
    assert_eq!(pool.internal_get_account(&id("op.near")), with_shares(5));
    assert_eq!(pool.total_stake_shares, 55);
    assert_eq!(pool.total_for_staking, 110);
    assert_eq!(pool.amount_from_stake_shares(50), Ok(100));
    // no share, no change
    assert_eq!(pool.add_amount_and_shares_preserve_share_price(id("op.near"), 1), Ok(()));
    assert_eq!(pool.add_amount_and_shares_preserve_share_price(id("op.near"), 0), Ok(()));
    assert_eq!(pool.total_for_staking, 110);
    assert_eq!(
        pool.add_amount_and_shares_preserve_share_price(id("op.near"), u128::MAX),
        Err(PoolError::Overflow)
    );
    assert_eq!(pool.internal_get_account(&id("op.near")), with_shares(5));
}

#[test]
fn share_conversions_refuse_what_does_not_fit() {
    let mut pool = new_pool();
    pool.total_stake_shares = 2;
    pool.total_for_staking = 1;
    assert_eq!(pool.stake_shares_from_amount(4), Ok(8));
    assert_eq!(pool.stake_shares_from_amount(u128::MAX), Err(PoolError::Overflow));
    pool.total_for_staking = 4;
    assert_eq!(pool.amount_from_stake_shares(4), Ok(8));
    assert_eq!(pool.amount_from_stake_shares(u128::MAX), Err(PoolError::Overflow));
}

// ---- liquidity pool ----

#[test]
fn nslp_shares_count_its_staked_tokens() {
    let mut pool = new_pool();
    pool.total_stake_shares = 100;
    pool.total_for_staking = 200;
    let mut nslp = with_shares(50);
    nslp.available = 60;
    nslp.unstaked = 40;
    nslp.nslp_shares = 400;
    // 60 + 100 + 40 back 400 shares
    assert_eq!(pool.nslp_shares_from_amount(10, &nslp), Ok(20));
    assert_eq!(pool.amount_from_nslp_shares(10, &nslp), Ok(5));
    nslp.nslp_shares = 0;
    assert_eq!(pool.nslp_shares_from_amount(10, &nslp), Ok(10));
    assert_eq!(pool.amount_from_nslp_shares(10, &nslp), Ok(0));
    nslp.available = u128::MAX;
    assert_eq!(pool.nslp_shares_from_amount(10, &nslp), Err(PoolError::Overflow));
    assert_eq!(pool.amount_from_nslp_shares(10, &nslp), Err(PoolError::Overflow));
}

#[test]
fn clearing_needs_an_order_and_staked_tokens() {
    let mut pool = new_pool();
    pool.internal_save_nslp_account(&with_shares(50));
    pool.total_stake_shares = 100;
    pool.total_for_staking = 200;
    pool.total_actually_staked = 200;
    assert_eq!(pool.nslp_try_liquidate_skash_by_clearing(), Ok(false));
    pool.total_actually_staked = 100;
    pool.internal_save_nslp_account(&with_available(50));
    assert_eq!(pool.nslp_try_liquidate_skash_by_clearing(), Ok(false));
    assert_eq!(pool.total_for_staking, 200);
}

#[test]
fn clearing_sells_what_was_ordered() {
    let mut pool = new_pool();
    pool.internal_save_nslp_account(&with_shares(50));
    pool.total_stake_shares = 100;
    pool.total_for_staking = 200;
    pool.total_actually_staked = 140;
    assert_eq!(pool.nslp_try_liquidate_skash_by_clearing(), Ok(true));
    let nslp = pool.internal_get_nslp_account();
    assert_eq!(nslp.available, 60);
    assert_eq!(nslp.stake_shares, 20);
    assert_eq!(nslp.staking_meter.delta_staked, -60);
    assert_eq!(pool.total_available, 60);
    assert_eq!(pool.total_for_staking, 140);
    assert_eq!(pool.total_stake_shares, 70);
}

#[test]
fn clearing_sells_all_when_more_was_ordered() {
    let mut pool = new_pool();
    pool.internal_save_nslp_account(&with_shares(50));
    pool.total_stake_shares = 100;
    pool.total_for_staking = 200;
    pool.total_actually_staked = 50;
    assert_eq!(pool.nslp_try_liquidate_skash_by_clearing(), Ok(true));
    let nslp = pool.internal_get_nslp_account();
    assert_eq!(nslp.available, 100);
    assert_eq!(nslp.stake_shares, 0);
    assert_eq!(pool.total_for_staking, 100);
    assert_eq!(pool.total_stake_shares, 50);
}

#[test]
fn clearing_refusal_leaves_the_pool() {
    let mut pool = new_pool();
    pool.internal_save_nslp_account(&with_shares(50));
    pool.total_stake_shares = 100;
    pool.total_for_staking = 200;
    pool.total_actually_staked = 50;
    pool.total_available = u128::MAX;
    assert_eq!(pool.nslp_try_liquidate_skash_by_clearing(), Err(PoolError::Overflow));
    assert_eq!(pool.internal_get_nslp_account(), with_shares(50));
    assert_eq!(pool.total_for_staking, 200);
}

#[test]
fn discount_depends_on_the_liquidity_left() {
    let pool = new_pool();
    let target = 10_000 * ONE_NEAR;
    assert_eq!(pool.internal_get_discount_basis_points(5, 5), Ok(1_000));
    assert_eq!(pool.internal_get_discount_basis_points(target / 20 - 1, 0), Ok(1_000));
    // a tenth of the target is left: 1000 - 100
    assert_eq!(pool.internal_get_discount_basis_points(target / 10, 0), Ok(900));
    assert_eq!(pool.internal_get_discount_basis_points(target, target / 2), Ok(100));
    assert_eq!(pool.internal_get_discount_basis_points(target / 20, 0), Ok(1_000));
    assert_eq!(pool.internal_get_discount_basis_points(target, 0), Ok(50));
    assert_eq!(pool.internal_get_discount_basis_points(3 * target, target), Ok(50));
}

#[test]
fn discount_falls_with_liquidity() {
    let pool = new_pool();
    let mut last = 1_000;
    for near in 1..120u128 {
        let discount =
            pool.internal_get_discount_basis_points(near * 100 * ONE_NEAR, ONE_NEAR).unwrap();
        assert!(discount <= last && discount >= 50);
        last = discount;
    }
    assert_eq!(last, 50);
}

#[test]
fn discount_refuses_a_target_that_is_too_large() {
    let mut pool = new_pool();
    pool.nslp_near_target = u128::MAX / 10;
    assert_eq!(
        pool.internal_get_discount_basis_points(u128::MAX, 1),
        Err(PoolError::Overflow)
    );
    assert_eq!(
        pool.internal_get_near_amount_sell_skash(u128::MAX, 1),
        Err(PoolError::Overflow)
    );
}

#[test]
fn sale_pays_less_the_discount() {
    let mut pool = new_pool();
    let target = 10_000 * ONE_NEAR;
    assert_eq!(
        pool.internal_get_near_amount_sell_skash(target, target / 2),
        Ok(target / 2 - target / 200)
    );
    assert_eq!(pool.internal_get_near_amount_sell_skash(0, 1_000), Ok(900));
    assert_eq!(pool.internal_get_near_amount_sell_skash(0, 1), Ok(1));
    pool.nslp_max_discount_basis_points = 10_000;
    assert_eq!(
        pool.internal_get_near_amount_sell_skash(0, 1_000),
        Err(PoolError::DiscountInconsistency)
    );
}

// ---- choice of a staking pool ----

#[test]
fn most_unbalanced_pool_gets_the_stake() {
    let mut pool = new_pool();
    let k = MIN_STAKE_UNSTAKE_AMOUNT_MOVEMENT;
    pool.total_for_staking = 100 * k;
    let mut busy = idle(9_000, 0);
    busy.busy_lock = true;
    // lack 10k, 20k, 20k
    pool.staking_pools =
        vec![busy, idle(2_000, 10 * k), idle(3_000, 10 * k), idle(5_000, 30 * k), idle(0, 0)];
    assert_eq!(pool.get_staking_pool_requiring_stake(50 * k), Ok((2, 20 * k)));
    assert_eq!(pool.get_staking_pool_requiring_stake(21 * k), Ok((2, 21 * k)));
    assert_eq!(pool.get_staking_pool_requiring_stake(21 * k + 1), Ok((2, 20 * k)));
    assert_eq!(pool.get_staking_pool_requiring_stake(5), Ok((2, 5)));
}

#[test]
fn no_pool_requires_stake() {
    let mut pool = new_pool();
    assert_eq!(pool.get_staking_pool_requiring_stake(7), Ok((usize::MAX, 0)));
    pool.total_for_staking = 100;
    pool.staking_pools = vec![idle(10_000, 100), idle(0, 0)];
    assert_eq!(pool.get_staking_pool_requiring_stake(7), Ok((usize::MAX, 0)));
}

#[test]
fn weights_that_do_not_fit_are_refused() {
    let mut pool = new_pool();
    pool.total_for_staking = u128::MAX;
    pool.staking_pools = vec![idle(20_000, 1)];
    assert_eq!(pool.get_staking_pool_requiring_stake(7), Err(PoolError::Overflow));
    assert_eq!(pool.get_staking_pool_requiring_unstake(7), Err(PoolError::Overflow));
}

#[test]
fn most_unbalanced_pool_is_unstaked_from() {
    let mut pool = new_pool();
    let k = MIN_STAKE_UNSTAKE_AMOUNT_MOVEMENT;
    pool.total_for_staking = 100 * k;
    let mut waiting = idle(0, 90 * k);
    waiting.unstaked = 1;
    // have 5k, 10k, 10k too much
    pool.staking_pools = vec![waiting, idle(1_000, 15 * k), idle(2_000, 30 * k), idle(0, 10 * k)];
    assert_eq!(pool.get_staking_pool_requiring_unstake(50 * k), Ok((2, 10 * k)));
    assert_eq!(pool.get_staking_pool_requiring_unstake(11 * k), Ok((2, 11 * k)));
    assert_eq!(pool.get_staking_pool_requiring_unstake(3), Ok((2, 3)));
    // the pool cannot spare the remainder
    pool.staking_pools = vec![idle(0, 10 * k)];
    assert_eq!(pool.get_staking_pool_requiring_unstake(11 * k), Ok((0, 10 * k)));
}

#[test]
fn no_pool_requires_unstake() {
    let mut pool = new_pool();
    pool.total_for_staking = 100;
    pool.staking_pools = vec![idle(10_000, 100), idle(0, 0)];
    assert_eq!(pool.get_staking_pool_requiring_unstake(7), Ok((usize::MAX, 0)));
}

// ---- transfers ----

#[test]
fn near_transfer_moves_available_funds() {
    let mut pool = new_pool();
    pool.internal_update_account(&id("alice.near"), &with_available(30));
    pool.internal_update_account(&id("bob.near"), &with_available(5));
    assert_eq!(
        pool.internal_multifuntok_transfer(&id("alice.near"), &id("bob.near"), &id("NEAR"), 10),
        Ok(())
    );
    assert_eq!(pool.internal_get_account(&id("alice.near")), with_available(20));
    assert_eq!(pool.internal_get_account(&id("bob.near")), with_available(15));
    assert_eq!(
        pool.internal_multifuntok_transfer(&id("alice.near"), &id("bob.near"), &id("NEAR"), 20),
        Ok(())
    );
    assert!(pool.find_account(&id("alice.near")).is_none());
    assert_eq!(pool.internal_get_account(&id("bob.near")), with_available(35));
}

#[test]
fn transfer_refusals_leave_the_pool() {
    let mut pool = new_pool();
    let alice = id("alice.near");
    let bob = id("bob.near");
    pool.internal_update_account(&alice, &with_available(30));
    assert_eq!(
        pool.internal_multifuntok_transfer(&alice, &bob, &id("NEAR"), 10),
        Err(PoolError::UnknownReceiver)
    );
    pool.internal_update_account(&bob, &with_available(u128::MAX));
    assert_eq!(
        pool.internal_multifuntok_transfer(&alice, &bob, &id("NEAR"), 31),
        Err(PoolError::NotEnoughNear)
    );
    assert_eq!(
        pool.internal_multifuntok_transfer(&alice, &bob, &id("NEAR"), 10),
        Err(PoolError::Overflow)
    );
    assert_eq!(
        pool.internal_multifuntok_transfer(&alice, &bob, &id("SKASH"), 1),
        Err(PoolError::NotEnoughSkash)
    );
    assert_eq!(
        pool.internal_multifuntok_transfer(&alice, &bob, &id("G-SKASH"), 1),
        Err(PoolError::NotEnoughGSkash)
    );
    assert_eq!(
        pool.internal_multifuntok_transfer(&alice, &bob, &id("near"), 1),
        Err(PoolError::InvalidSymbol)
    );
    assert_eq!(pool.internal_get_account(&alice), with_available(30));
    assert_eq!(pool.internal_get_account(&bob), with_available(u128::MAX));
}

#[test]
fn skash_transfer_moves_shares() {
    let mut pool = new_pool();
    let alice = id("alice.near");
    let bob = id("bob.near");
    pool.internal_update_account(&alice, &with_shares(10));
    pool.internal_update_account(&bob, &with_shares(2));
    pool.total_stake_shares = 12;
    pool.total_for_staking = 24;
    assert_eq!(
        pool.internal_multifuntok_transfer(&alice, &bob, &id("SKASH"), 21),
        Err(PoolError::NotEnoughSkash)
    );
    assert_eq!(pool.internal_multifuntok_transfer(&alice, &bob, &id("SKASH"), 8), Ok(()));
    assert_eq!(pool.internal_get_account(&alice), with_shares(6));
    assert_eq!(pool.internal_get_account(&bob), with_shares(6));
    assert_eq!(pool.internal_multifuntok_transfer(&alice, &bob, &id("SKASH"), 12), Ok(()));
    assert!(pool.find_account(&alice).is_none());
    assert_eq!(pool.internal_get_account(&bob), with_shares(12));
    assert_eq!(pool.total_stake_shares, 12);
    assert_eq!(pool.total_for_staking, 24);
}

#[test]
fn g_skash_transfer_credits_the_sender_first() {
    let mut pool = new_pool();
    let alice = id("alice.near");
    let bob = id("bob.near");
    pool.internal_update_account(&alice, &with_shares(40));
    pool.internal_update_account(&bob, &with_available(1));
    pool.total_stake_shares = 40;
    pool.total_for_staking = 60;
    assert_eq!(
        pool.internal_multifuntok_transfer(&alice, &bob, &id("G-SKASH"), 61),
        Err(PoolError::NotEnoughGSkash)
    );
    assert_eq!(pool.total_g_skash, 0);
    assert_eq!(pool.internal_multifuntok_transfer(&alice, &bob, &id("G-SKASH"), 50), Ok(()));
    assert_eq!(pool.internal_get_account(&alice).realized_g_skash, 10);
    assert_eq!(pool.internal_get_account(&alice).staking_meter.delta_staked, 60);
    assert_eq!(pool.internal_get_account(&bob).realized_g_skash, 50);
    assert_eq!(pool.total_g_skash, 60);
}

#[test]
fn transfer_to_oneself_moves_nothing() {
    let mut pool = new_pool();
    let alice = id("alice.near");
    let mut account = with_shares(10);
    account.available = u128::MAX;
    account.staking_meter.delta_staked = 5;
    pool.internal_update_account(&alice, &account);
    pool.total_stake_shares = 10;
    pool.total_for_staking = 20;
    assert_eq!(pool.internal_multifuntok_transfer(&alice, &alice, &id("NEAR"), 4), Ok(()));
    assert_eq!(pool.internal_multifuntok_transfer(&alice, &alice, &id("SKASH"), 4), Ok(()));
    assert_eq!(
        pool.internal_multifuntok_transfer(&alice, &alice, &id("SKASH"), 21),
        Err(PoolError::NotEnoughSkash)
    );
    assert_eq!(pool.internal_get_account(&alice), account);
    assert_eq!(pool.total_g_skash, 0);
}

#[test]
fn g_skash_transfer_to_oneself_credits_what_is_owed() {
    let mut pool = new_pool();
    let alice = id("alice.near");
    pool.internal_update_account(&alice, &with_shares(10));
    pool.total_stake_shares = 10;
    pool.total_for_staking = 20;
    assert_eq!(pool.internal_multifuntok_transfer(&alice, &alice, &id("G-SKASH"), 15), Ok(()));
    let account = pool.internal_get_account(&alice);
    assert_eq!(account.realized_g_skash, 20);
    assert_eq!(account.staking_meter.delta_staked, 20);
    assert_eq!(account.stake_shares, 10);
    assert_eq!(pool.total_g_skash, 20);
}

#[test]
fn totals_sum_up_the_accounts() {
    let mut pool = new_pool();
    let alice = id("alice.near");
    let bob = id("bob.near");
    pool.internal_deposit(&alice, 40 * ONE_NEAR).unwrap();
    pool.internal_deposit(&bob, 60 * ONE_NEAR).unwrap();
    pool.internal_stake(&alice, 30 * ONE_NEAR).unwrap();
    pool.internal_stake(&bob, 10 * ONE_NEAR).unwrap();
    pool.total_for_staking += 4 * ONE_NEAR;
    pool.internal_unstake(&alice, 5 * ONE_NEAR, 3).unwrap();
    pool.internal_withdraw(&bob, 20 * ONE_NEAR).unwrap();
    pool.internal_multifuntok_transfer(&bob, &alice, &id("NEAR"), 7 * ONE_NEAR).unwrap();
    pool.internal_multifuntok_transfer(&alice, &bob, &id("G-SKASH"), ONE_NEAR).unwrap();
    let a = pool.internal_get_account(&alice);
    let b = pool.internal_get_account(&bob);
    assert_eq!(a.available + b.available, pool.total_available);
    assert_eq!(a.stake_shares + b.stake_shares, pool.total_stake_shares);
    assert_eq!(a.realized_g_skash + b.realized_g_skash, pool.total_g_skash);
    assert_eq!(pool.total_available, 40 * ONE_NEAR);
    assert_eq!(pool.total_for_staking, 39 * ONE_NEAR);
}
