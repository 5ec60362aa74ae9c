//! Pool rate arithmetic, name parsing, and the retry policy.

use smtp_session::pool::{
    contains_id, is_rate_limited, retry_decision, to_1e18, BasePool, PoolType, RetryDecision,
    ONE_ETHER,
};

fn pool(
    base_rate: u128,
    base_slope: u128,
    kink_slope: u128,
    optimal_util_rate: u128,
    borrow_amount: u128,
    reserve_size: u128,
) -> BasePool {
    BasePool {
        pool_model_disc: String::from("SYNTHETIC"),
        contract_address: String::from("0x0"),
        pool_type: PoolType::Synthetic,
        base_rate,
        base_slope,
        kink_slope,
        optimal_util_rate,
        borrow_amount,
        reserve_size,
    }
}

#[test]
fn pool_type_from_str_accepts_each_name() {
    assert_eq!(PoolType::from_str("Synthetic"), Ok(PoolType::Synthetic));
    assert_eq!(PoolType::from_str("SturdySilo"), Ok(PoolType::SturdySilo));
    assert_eq!(PoolType::from_str("Aave"), Ok(PoolType::Aave));
    assert_eq!(PoolType::from_str("DaiSavings"), Ok(PoolType::DaiSavings));
    assert_eq!(PoolType::from_str("CompoundV3"), Ok(PoolType::CompoundV3));
    assert_eq!(PoolType::from_str("Morpho"), Ok(PoolType::Morpho));
}

#[test]
fn pool_type_from_str_rejects_unknown_names() {
    assert!(PoolType::from_str("aave").is_err());
    assert!(PoolType::from_str("").is_err());
    assert!(PoolType::from_str("Compound").is_err());
}

#[test]
fn util_rate_is_integer_division() {
    let p = pool(0, 0, 0, ONE_ETHER, 7, 2);
    assert_eq!(p.util_rate(), 3);
}

#[test]
fn borrow_rate_below_kink() {
    // Utilization below the optimum: the scaled share truncates to
    // zero, so the rate is the base rate alone.
    let p = pool(100, 50, 7000, ONE_ETHER, ONE_ETHER / 2, ONE_ETHER);
    assert_eq!(p.util_rate(), 0);
    assert_eq!(p.borrow_rate(), 100);
}

#[test]
fn borrow_rate_above_kink() {
    // Fully utilized: utilization 1, optimum 0, headroom ONE_ETHER, so
    // the kink slope contributes nothing after truncation and the rate
    // is base plus slope.
    let p = pool(100, 50, 7000, 0, ONE_ETHER, 1);
    assert_eq!(p.util_rate(), ONE_ETHER);
    assert_eq!(
        p.borrow_rate(),
        100 + 50 + (ONE_ETHER / ONE_ETHER) * 7000
    );
}

#[test]
fn supply_rate_is_product() {
    let p = pool(3, 50, 7000, 10, 8, 2);
    // util = 4, below the optimum 10: borrow = 3 + (4 / 10) * 50 = 3.
    assert_eq!(p.supply_rate(), 4 * 3);
}

#[test]
fn to_1e18_scales() {
    assert_eq!(to_1e18(0), 0);
    assert_eq!(to_1e18(1), 1_000_000_000_000_000_000);
    assert_eq!(to_1e18(7), 7_000_000_000_000_000_000);
    assert_eq!(
        to_1e18(u64::MAX),
        (u64::MAX as u128) * 1_000_000_000_000_000_000
    );
}

#[test]
fn retry_decision_follows_policy() {
    assert_eq!(retry_decision(0, false), RetryDecision::Fail);
    assert_eq!(retry_decision(0, true), RetryDecision::Retry);
    assert_eq!(retry_decision(3, true), RetryDecision::Retry);
    assert_eq!(retry_decision(4, true), RetryDecision::GiveUp);
    assert_eq!(retry_decision(4, false), RetryDecision::Fail);
}

#[test]
fn rate_limit_marker_is_found() {
    assert!(is_rate_limited("Rate limited"));
    assert!(is_rate_limited("error: Rate limited, try later"));
    assert!(!is_rate_limited("connection refused"));
    assert!(!is_rate_limited("rate limited"));
}

#[test]
fn duplicate_ids_are_detected() {
    let ids = vec![b"a".to_vec(), b"b".to_vec()];
    assert!(contains_id(&ids, &b"a".to_vec()));
    assert!(contains_id(&ids, &b"b".to_vec()));
    assert!(!contains_id(&ids, &b"c".to_vec()));
}
