use diversified_pool::{
    amount_from_shares, apply_pct, assert_min_amount, proportional, shares_from_amount, PoolError,
    FIVE_NEAR,
};

#[test]
fn proportional_is_exact_and_rounds_down() {
    assert_eq!(proportional(7, 10, 4), Some(17));
    assert_eq!(proportional(0, 10, 4), Some(0));
    assert_eq!(proportional(u128::MAX, u128::MAX, u128::MAX), Some(u128::MAX));
    assert_eq!(proportional(u128::MAX, 2, 4), Some(u128::MAX / 2));
    assert_eq!(
        proportional(1 << 100, (1 << 100) + 1, 1 << 90),
        Some((1 << 110) + (1 << 10))
    );
    assert_eq!(proportional(u128::MAX - 1, u128::MAX, u128::MAX - 1), Some(u128::MAX));
}

#[test]
fn proportional_reports_what_does_not_fit() {
    assert_eq!(proportional(u128::MAX, 2, 1), None);
    assert_eq!(proportional(u128::MAX, u128::MAX, 1), None);
    assert_eq!(proportional(u128::MAX, u128::MAX, u128::MAX - 1), None);
}

#[test]
fn percentages_are_in_basis_points() {
    assert_eq!(apply_pct(250, 10_000), Some(250));
    assert_eq!(apply_pct(1, 9_999), Some(0));
    assert_eq!(apply_pct(10_000, u128::MAX), Some(u128::MAX));
    assert_eq!(apply_pct(10_001, u128::MAX), None);
}

#[test]
fn first_buyer_gets_one_share_per_unit() {
    assert_eq!(shares_from_amount(77, 0, 0), Some(77));
    assert_eq!(shares_from_amount(77, 1_000, 0), Some(77));
}

#[test]
fn shares_are_sold_at_the_price() {
    assert_eq!(shares_from_amount(10, 100, 50), Some(5));
    assert_eq!(shares_from_amount(1, 100, 50), Some(0));
    assert_eq!(shares_from_amount(0, 100, 50), Some(0));
    assert_eq!(shares_from_amount(10, 0, 50), Some(0));
    assert_eq!(shares_from_amount(u128::MAX, 1, 2), None);
}

#[test]
fn shares_are_valued_at_the_price() {
    assert_eq!(amount_from_shares(5, 100, 50), Some(10));
    assert_eq!(amount_from_shares(5, 100, 0), Some(0));
    assert_eq!(amount_from_shares(0, 100, 50), Some(0));
    assert_eq!(amount_from_shares(u128::MAX, 2, 1), None);
}

#[test]
fn bought_shares_are_worth_no_more_than_paid() {
    let shares = shares_from_amount(1_000, 777, 333).unwrap();
    assert_eq!(shares, 428);
    assert_eq!(amount_from_shares(shares, 777, 333), Some(998));
}

#[test]
fn covered_amount_buys_no_more_shares() {
    let value = amount_from_shares(100, 777, 333).unwrap();
    assert_eq!(value, 233);
    assert_eq!(shares_from_amount(value, 777, 333), Some(99));
}

#[test]
fn price_stays_when_nothing_is_rounded() {
    let bought = shares_from_amount(20, 100, 50).unwrap();
    assert_eq!(100 * (50 + bought), (100 + 20) * 50);
    let rounded = shares_from_amount(21, 100, 50).unwrap();
    assert!(100 * (50 + rounded) < (100 + 21) * 50);
    assert!((100 + 21) * 50 < 100 * (50 + rounded + 1));
    assert!(amount_from_shares(7, 121, 50 + rounded) >= amount_from_shares(7, 100, 50));
}

#[test]
fn amounts_below_five_near_are_refused() {
    assert_eq!(assert_min_amount(FIVE_NEAR - 1), Err(PoolError::BelowMinAmount));
    assert_eq!(assert_min_amount(FIVE_NEAR), Ok(()));
}

#[test]
fn purchase_earns_nothing() {
    let bought = shares_from_amount(1_000, 777, 333).unwrap();
    assert_eq!(amount_from_shares(bought, 777 + 1_000, 333 + bought), Some(999));
    assert_eq!(amount_from_shares(10, 10, 10), Some(10));
}
