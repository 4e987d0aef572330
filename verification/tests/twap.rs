use clearing_house::amm::{
    calculate_new_mark_twap, calculate_new_oracle_price_twap, calculate_twap, update_mark_twap,
    update_oracle_price_twap,
};
use clearing_house::error::ErrorCode;
use clearing_house::state::AMM;

fn amm_with_mark_twap(twap: u128, ts: i64) -> AMM {
    AMM {
        base_asset_reserve: 1_000_000,
        quote_asset_reserve: 1_000_000,
        sqrt_k: 1_000_000,
        peg_multiplier: 1_000,
        last_mark_price_twap: twap,
        last_mark_price_twap_ts: ts,
        last_oracle_price_twap: 0,
        last_oracle_price_twap_ts: 0,
    }
}

fn amm_with_oracle_twap(twap: i128, ts: i64) -> AMM {
    AMM {
        base_asset_reserve: 1_000_000,
        quote_asset_reserve: 1_000_000,
        sqrt_k: 1_000_000,
        peg_multiplier: 1_000,
        last_mark_price_twap: 0,
        last_mark_price_twap_ts: 0,
        last_oracle_price_twap: twap,
        last_oracle_price_twap_ts: ts,
    }
}

#[test]
fn twap_exact_blend() {
    // (100 * 3 + 200 * 1) / (1 + 3) = 125
    assert_eq!(calculate_twap(200, 100, 1, 3), Ok(125));
}

#[test]
fn twap_identical_samples_returns_sample() {
    assert_eq!(calculate_twap(42, 42, 7, 13), Ok(42));
    assert_eq!(calculate_twap(-42, -42, 7, 13), Ok(-42));
}

#[test]
fn twap_weight_monotone_toward_new_value() {
    // growing the new weight moves the blend toward the new value
    let low = calculate_twap(1024, 0, 1, 1).unwrap();
    let high = calculate_twap(1024, 0, 2, 1).unwrap();
    assert_eq!(low, 512);
    assert_eq!(high, 682);
    assert!(low <= high);
}

#[test]
fn twap_truncates_toward_zero() {
    // (0 * 1 + -1 * 1) / 2 = -1/2, truncated to 0 rather than floored to -1
    assert_eq!(calculate_twap(-1, 0, 1, 1), Ok(0));
}

#[test]
fn twap_zero_weight_sum_fails() {
    assert_eq!(calculate_twap(5, 5, 1, -1), Err(ErrorCode::MathError));
}

#[test]
fn twap_product_overflow_fails() {
    assert_eq!(
        calculate_twap(1, i128::MAX, 1, 2),
        Err(ErrorCode::MathError)
    );
}

#[test]
fn mark_twap_exact_blend() {
    let amm = amm_with_mark_twap(10_000, 0);
    // since_last = 60, from_start = 3540:
    // (10_000 * 3540 + 20_000 * 60) / 3600 = 10_166
    assert_eq!(
        calculate_new_mark_twap(&amm, 60, Some(20_000)),
        Ok(10_166)
    );
}

#[test]
fn mark_twap_same_instant_still_weighs_new_sample() {
    let amm = amm_with_mark_twap(10_000, 60);
    // since_last floors at 1, from_start = 3599:
    // (10_000 * 3599 + 20_000 * 1) / 3600 = 10_002
    assert_eq!(
        calculate_new_mark_twap(&amm, 60, Some(20_000)),
        Ok(10_002)
    );
}

#[test]
fn mark_twap_long_gap_keeps_old_sample_floor() {
    let amm = amm_with_mark_twap(10_000, 0);
    // since_last = 10_000 exceeds the window, from_start floors at 1:
    // (10_000 * 1 + 20_000 * 10_000) / 10_001 = 19_999
    assert_eq!(
        calculate_new_mark_twap(&amm, 10_000, Some(20_000)),
        Ok(19_999)
    );
}

#[test]
fn mark_twap_falls_back_to_live_price() {
    let amm = amm_with_mark_twap(10_000_000_000, 0);
    // live mark price is 10^10; blended with an identical old average it
    // stays 10^10
    assert_eq!(
        calculate_new_mark_twap(&amm, 60, None),
        Ok(10_000_000_000)
    );
}

#[test]
fn mark_twap_live_price_failure_propagates() {
    let mut amm = amm_with_mark_twap(10_000, 0);
    amm.base_asset_reserve = 0;
    assert_eq!(
        calculate_new_mark_twap(&amm, 60, None),
        Err(ErrorCode::MathError)
    );
}

#[test]
fn update_mark_twap_writes_state() {
    let mut amm = amm_with_mark_twap(10_000, 0);
    assert_eq!(update_mark_twap(&mut amm, 60, Some(20_000)), Ok(10_166));
    assert_eq!(amm.last_mark_price_twap, 10_166);
    assert_eq!(amm.last_mark_price_twap_ts, 60);
}

#[test]
fn update_mark_twap_failure_leaves_state() {
    let mut amm = amm_with_mark_twap(10_000, 0);
    amm.base_asset_reserve = 0;
    assert!(update_mark_twap(&mut amm, 60, None).is_err());
    assert_eq!(amm.last_mark_price_twap, 10_000);
    assert_eq!(amm.last_mark_price_twap_ts, 0);
}

#[test]
fn oracle_twap_exact_blend_with_negative_prices() {
    let amm = amm_with_oracle_twap(-100, 0);
    // since_last = 1800, from_start = 1800:
    // (-100 * 1800 + -200 * 1800) / 3600 = -150
    assert_eq!(
        calculate_new_oracle_price_twap(&amm, 1_800, -200),
        Ok(-150)
    );
}

#[test]
fn update_oracle_price_twap_writes_state() {
    let mut amm = amm_with_oracle_twap(-100, 0);
    assert_eq!(update_oracle_price_twap(&mut amm, 1_800, -200), Ok(()));
    assert_eq!(amm.last_oracle_price_twap, -150);
    assert_eq!(amm.last_oracle_price_twap_ts, 1_800);
}

#[test]
fn update_oracle_price_twap_failure_leaves_state() {
    let mut amm = amm_with_oracle_twap(i128::MAX, 0);
    // the old sample times its weight overflows
    assert!(update_oracle_price_twap(&mut amm, 60, 0).is_err());
    assert_eq!(amm.last_oracle_price_twap, i128::MAX);
    assert_eq!(amm.last_oracle_price_twap_ts, 0);
}
