use clearing_house::amm::adjust_k_cost;
use clearing_house::bn::U256;
use clearing_house::error::ErrorCode;
use clearing_house::position::calculate_base_asset_value_and_pnl;
use clearing_house::state::{Market, AMM};

fn market(base_asset_amount: i128) -> Market {
    Market {
        base_asset_amount,
        amm: AMM {
            base_asset_reserve: 1_000_000,
            quote_asset_reserve: 1_000_000,
            sqrt_k: 1_000_000,
            peg_multiplier: 1_000,
            last_mark_price_twap: 0,
            last_mark_price_twap_ts: 0,
            last_oracle_price_twap: 0,
            last_oracle_price_twap_ts: 0,
        },
    }
}

#[test]
fn u256_narrowing_round_trip() {
    assert_eq!(U256::from_u128(42).try_to_u128(), Ok(42));
    assert_eq!(U256::from_u128(u128::MAX).try_to_u128(), Ok(u128::MAX));
}

#[test]
fn position_value_of_net_long() {
    let m = market(100_000);
    // closing the long: quote reserve falls from 1_000_000 to 909_090;
    // value = 90_910 * 1_000 / 1_000
    assert_eq!(
        calculate_base_asset_value_and_pnl(100_000, 0, &m.amm),
        Ok((90_910, 90_910))
    );
}

#[test]
fn position_value_of_net_short() {
    let m = market(-100_000);
    // closing the short: quote reserve rises from 1_000_000 to 1_111_111;
    // the pnl is measured toward the baseline
    assert_eq!(
        calculate_base_asset_value_and_pnl(-100_000, 0, &m.amm),
        Ok((111_111, -111_111))
    );
}

#[test]
fn position_value_of_flat_position() {
    let m = market(0);
    assert_eq!(
        calculate_base_asset_value_and_pnl(0, 12_345, &m.amm),
        Ok((0, 0))
    );
}

#[test]
fn rescale_flat_market_costs_nothing() {
    let mut m = market(0);
    let cost = adjust_k_cost(&mut m, U256::from_u128(2_000_000)).unwrap();
    assert_eq!(cost, 0);
    assert_eq!(m.amm.sqrt_k, 2_000_000);
    assert_eq!(m.amm.base_asset_reserve, 2_000_000);
    assert_eq!(m.amm.quote_asset_reserve, 2_000_000);
}

#[test]
fn rescale_up_with_net_long_costs_protocol() {
    let mut m = market(100_000);
    // value before: 90_910; after doubling the scale the position exits at
    // 95_239, so the protocol pays the difference
    let cost = adjust_k_cost(&mut m, U256::from_u128(2_000_000)).unwrap();
    assert_eq!(cost, 4_329);
    assert!(cost > 0);
    assert_eq!(m.amm.sqrt_k, 2_000_000);
    assert_eq!(m.amm.base_asset_reserve, 2_000_000);
    assert_eq!(m.amm.quote_asset_reserve, 2_000_000);
    assert_eq!(m.base_asset_amount, 100_000);
}

#[test]
fn rescale_down_with_net_long_improves_protocol() {
    let mut m = market(100_000);
    // value before: 90_910; after halving the scale the position exits at
    // 83_334, so the cost is negative
    let cost = adjust_k_cost(&mut m, U256::from_u128(500_000)).unwrap();
    assert_eq!(cost, -7_576);
    assert_eq!(m.amm.sqrt_k, 500_000);
    assert_eq!(m.amm.base_asset_reserve, 500_000);
    assert_eq!(m.amm.quote_asset_reserve, 500_000);
}

#[test]
fn rescale_zero_scale_fails_unchanged() {
    let mut m = market(0);
    m.amm.sqrt_k = 0;
    assert_eq!(
        adjust_k_cost(&mut m, U256::from_u128(2_000_000)),
        Err(ErrorCode::MathError)
    );
    assert_eq!(m.amm.sqrt_k, 0);
    assert_eq!(m.amm.base_asset_reserve, 1_000_000);
    assert_eq!(m.amm.quote_asset_reserve, 1_000_000);
}
