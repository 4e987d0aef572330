use clearing_house::amm::{
    calculate_price, calculate_swap_output, calculate_terminal_price,
};
use clearing_house::error::ErrorCode;
use clearing_house::state::{Market, SwapDirection, AMM};

fn amm(base: u128, quote: u128, sqrt_k: u128, peg: u128) -> AMM {
    AMM {
        base_asset_reserve: base,
        quote_asset_reserve: quote,
        sqrt_k,
        peg_multiplier: peg,
        last_mark_price_twap: 0,
        last_mark_price_twap_ts: 0,
        last_oracle_price_twap: 0,
        last_oracle_price_twap_ts: 0,
    }
}

#[test]
fn price_exact_value() {
    // 1_000_000 * 1_000_000 * 10_000_000 / 1_000_000 = 10^13
    let price = calculate_price(1_000_000, 1_000_000, 1_000_000).unwrap();
    assert_eq!(price, 10_000_000_000_000);
}

#[test]
fn price_zero_base_fails() {
    assert_eq!(
        calculate_price(1_000_000, 0, 1_000_000),
        Err(ErrorCode::MathError)
    );
}

#[test]
fn price_peg_product_overflow_fails() {
    assert_eq!(
        calculate_price(u128::MAX, 1, 2),
        Err(ErrorCode::MathError)
    );
}

#[test]
fn price_quotient_too_wide_fails() {
    // (2^127 * 1) * 10^7 / 1 does not fit back into a u128
    let huge: u128 = 1u128 << 127;
    assert_eq!(calculate_price(huge, 1, 1), Err(ErrorCode::MathError));
}

#[test]
fn price_monotone_in_quote_and_peg_antitone_in_base() {
    let p = calculate_price(1_000_000, 1_000_000, 1_000_000).unwrap();
    let p_more_quote = calculate_price(2_000_000, 1_000_000, 1_000_000).unwrap();
    let p_more_peg = calculate_price(1_000_000, 1_000_000, 2_000_000).unwrap();
    let p_more_base = calculate_price(1_000_000, 2_000_000, 1_000_000).unwrap();
    assert!(p_more_quote >= p);
    assert!(p_more_peg >= p);
    assert!(p_more_base <= p);
}

#[test]
fn mark_price_from_reserves() {
    // 2_000_000 * 1_000 * 10_000_000 / 1_000_000 = 2 * 10^10
    let a = amm(1_000_000, 2_000_000, 1_414_213, 1_000);
    assert_eq!(a.mark_price().unwrap(), 20_000_000_000);
}

#[test]
fn swap_add_exact_output() {
    let (out, new_input) =
        calculate_swap_output(10_000, 1_000_000, SwapDirection::Add, 1_000_000).unwrap();
    assert_eq!(new_input, 1_010_000);
    assert_eq!(out, 990_099);
}

#[test]
fn swap_remove_exact_output() {
    let (out, new_input) =
        calculate_swap_output(500_000, 1_000_000, SwapDirection::Remove, 1_000_000).unwrap();
    assert_eq!(new_input, 500_000);
    assert_eq!(out, 2_000_000);
}

#[test]
fn swap_remove_underflow_fails() {
    assert_eq!(
        calculate_swap_output(2_000_000, 1_000_000, SwapDirection::Remove, 1_000_000),
        Err(ErrorCode::MathError)
    );
}

#[test]
fn swap_add_overflow_fails() {
    assert_eq!(
        calculate_swap_output(1, u128::MAX, SwapDirection::Add, 1_000_000),
        Err(ErrorCode::MathError)
    );
}

#[test]
fn swap_zero_new_input_fails() {
    assert_eq!(
        calculate_swap_output(1_000_000, 1_000_000, SwapDirection::Remove, 1_000_000),
        Err(ErrorCode::MathError)
    );
}

#[test]
fn swap_invariant_beyond_192_bits_fails() {
    // (2^96)^2 == 2^192 no longer fits the 192-bit intermediate width
    let sqrt: u128 = 1u128 << 96;
    assert_eq!(
        calculate_swap_output(1, 1_000_000, SwapDirection::Add, sqrt),
        Err(ErrorCode::MathError)
    );
}

#[test]
fn swap_round_trip_restores_reserves() {
    // reserves satisfy the constant product exactly: 10^6 * 10^6 == (10^6)^2
    let (quote_after, base_after) =
        calculate_swap_output(10_000, 1_000_000, SwapDirection::Add, 1_000_000).unwrap();
    assert_eq!((quote_after, base_after), (990_099, 1_010_000));
    let (quote_back, base_back) =
        calculate_swap_output(10_000, base_after, SwapDirection::Remove, 1_000_000).unwrap();
    assert_eq!(base_back, 1_000_000);
    assert_eq!(quote_back, 1_000_000);
}

#[test]
fn end_to_end_swap_lowers_price() {
    // swapping base in yields a quote reserve of 990_099 and a lower price
    let price_before = calculate_price(1_000_000, 1_000_000, 1_000_000).unwrap();
    let (new_quote, new_base) =
        calculate_swap_output(10_000, 1_000_000, SwapDirection::Add, 1_000_000).unwrap();
    assert_eq!(new_quote, 990_099);
    assert_eq!(new_base, 1_010_000);
    let price_after = calculate_price(new_quote, new_base, 1_000_000).unwrap();
    assert!(price_after < price_before);
}

#[test]
fn terminal_price_unwinds_net_long() {
    let mut market = Market {
        base_asset_amount: 100_000,
        amm: amm(1_000_000, 1_000_000, 1_000_000, 1_000),
    };
    // unwind: base reserve grows to 1_100_000, quote falls to 909_090;
    // price = 909_090 * 1_000 * 10^7 / 1_100_000
    let terminal = calculate_terminal_price(&mut market).unwrap();
    assert_eq!(terminal, 8_264_454_545);
    // the market itself is untouched
    assert_eq!(market.amm.base_asset_reserve, 1_000_000);
    assert_eq!(market.amm.quote_asset_reserve, 1_000_000);
}

#[test]
fn terminal_price_unwinds_net_short() {
    let mut market = Market {
        base_asset_amount: -100_000,
        amm: amm(1_000_000, 1_000_000, 1_000_000, 1_000),
    };
    // unwind: base reserve falls to 900_000, quote rises to 1_111_111;
    // price = 1_111_111 * 1_000 * 10^7 / 900_000
    let terminal = calculate_terminal_price(&mut market).unwrap();
    assert_eq!(terminal, 12_345_677_777);
}
