use clearing_house::amm::{
    calculate_oracle_mark_spread, calculate_oracle_mark_spread_pct, is_oracle_mark_too_divergent,
    is_oracle_valid,
};
use clearing_house::error::ErrorCode;
use clearing_house::state::{OraclePriceData, PriceDivergenceGuardRails, ValidityGuardRails, AMM};

fn amm_with_mark(twap: u128) -> AMM {
    AMM {
        base_asset_reserve: 1_000_000,
        quote_asset_reserve: 1_000_000,
        sqrt_k: 1_000_000,
        peg_multiplier: 1_000,
        last_mark_price_twap: twap,
        last_mark_price_twap_ts: 0,
        last_oracle_price_twap: 0,
        last_oracle_price_twap_ts: 0,
    }
}

fn oracle(price: i128, twap: i128, confidence: u128, twap_confidence: u128, delay: u64) -> OraclePriceData {
    OraclePriceData { price, twap, confidence, twap_confidence, delay }
}

fn permissive_rails() -> ValidityGuardRails {
    ValidityGuardRails {
        too_volatile_ratio: 5,
        confidence_interval_max_size: 4,
        slots_before_stale: 10,
    }
}

#[test]
fn spread_windowed_compares_twaps() {
    let amm = amm_with_mark(1_050);
    let data = oracle(990, 1_000, 1, 1, 0);
    assert_eq!(
        calculate_oracle_mark_spread(&amm, &data, 60, None),
        Ok((1_000, 50))
    );
}

#[test]
fn spread_instantaneous_compares_prices() {
    let amm = amm_with_mark(1_050);
    let data = oracle(1_000, 900, 1, 1, 0);
    assert_eq!(
        calculate_oracle_mark_spread(&amm, &data, 0, Some(1_100)),
        Ok((1_000, 100))
    );
}

#[test]
fn spread_instantaneous_uses_live_mark_price() {
    // live mark price = 10^6 * 10^3 * 10^7 / 10^6 = 10^10
    let amm = amm_with_mark(0);
    let data = oracle(9_999_999_000, 0, 1, 1, 0);
    assert_eq!(
        calculate_oracle_mark_spread(&amm, &data, 0, None),
        Ok((9_999_999_000, 1_000))
    );
}

#[test]
fn spread_pct_scales_by_1024() {
    let amm = amm_with_mark(0);
    let data = oracle(1_000, 0, 1, 1, 0);
    // spread = 1_050 - 1_000 = 50; 50 * 1024 / 1_000 = 51
    assert_eq!(
        calculate_oracle_mark_spread_pct(&amm, &data, 0, Some(1_050)),
        Ok((1_000, 50, 51))
    );
}

#[test]
fn spread_pct_zero_reference_price_fails() {
    let amm = amm_with_mark(0);
    let data = oracle(0, 0, 1, 1, 0);
    assert_eq!(
        calculate_oracle_mark_spread_pct(&amm, &data, 0, Some(1_050)),
        Err(ErrorCode::MathError)
    );
}

#[test]
fn divergence_limit_from_rational_rails() {
    // 1/10 scaled by 1024 gives a limit of 102
    let rails = PriceDivergenceGuardRails {
        mark_oracle_divergence_numerator: 1,
        mark_oracle_divergence_denominator: 10,
    };
    assert_eq!(is_oracle_mark_too_divergent(200, &rails), Ok(true));
    assert_eq!(is_oracle_mark_too_divergent(102, &rails), Ok(false));
    assert_eq!(is_oracle_mark_too_divergent(103, &rails), Ok(true));
    assert_eq!(is_oracle_mark_too_divergent(50, &rails), Ok(false));
    assert_eq!(is_oracle_mark_too_divergent(0, &rails), Ok(false));
    assert_eq!(is_oracle_mark_too_divergent(-200, &rails), Ok(true));
}

#[test]
fn divergence_zero_denominator_fails() {
    let rails = PriceDivergenceGuardRails {
        mark_oracle_divergence_numerator: 1,
        mark_oracle_divergence_denominator: 0,
    };
    assert_eq!(
        is_oracle_mark_too_divergent(0, &rails),
        Err(ErrorCode::MathError)
    );
}

#[test]
fn oracle_valid_for_healthy_tuple() {
    let data = oracle(1_000, 1_000, 1, 1, 0);
    assert_eq!(is_oracle_valid(&data, &permissive_rails()), Ok(true));
}

#[test]
fn oracle_invalid_when_price_zero() {
    let data = oracle(0, 1_000, 1, 1, 0);
    assert_eq!(is_oracle_valid(&data, &permissive_rails()), Ok(false));
}

#[test]
fn oracle_negative_price_fails() {
    // a negative price cannot be measured against its confidence width
    let data = oracle(-1, 1_000, 1, 1, 0);
    assert_eq!(
        is_oracle_valid(&data, &permissive_rails()),
        Err(ErrorCode::MathError)
    );
}

#[test]
fn oracle_invalid_when_stale() {
    let data = oracle(1_000, 1_000, 1, 1, 11);
    assert_eq!(is_oracle_valid(&data, &permissive_rails()), Ok(false));
}

#[test]
fn oracle_valid_at_staleness_bound() {
    let data = oracle(1_000, 1_000, 1, 1, 10);
    assert_eq!(is_oracle_valid(&data, &permissive_rails()), Ok(true));
}

#[test]
fn oracle_invalid_when_too_volatile() {
    // price/twap = 10_000 exceeds the ratio of 5
    let data = oracle(10_000, 1, 1, 1, 0);
    assert_eq!(is_oracle_valid(&data, &permissive_rails()), Ok(false));
    // and in the other direction
    let data = oracle(1, 10_000, 1, 1, 0);
    assert_eq!(is_oracle_valid(&data, &permissive_rails()), Ok(false));
}

#[test]
fn oracle_invalid_when_confidence_too_wide() {
    // price/confidence = 2 falls below the minimum of 4
    let data = oracle(1_000, 1_000, 500, 1, 0);
    assert_eq!(is_oracle_valid(&data, &permissive_rails()), Ok(false));
    // and for the TWAP confidence
    let data = oracle(1_000, 1_000, 1, 500, 0);
    assert_eq!(is_oracle_valid(&data, &permissive_rails()), Ok(false));
}
