//! Invariant pricing, swap outputs, TWAP maintenance, and the oracle
//! consistency guard.

use vstd::arithmetic::div_mod::{
    lemma_div_by_multiple, lemma_div_is_ordered, lemma_div_is_ordered_by_denominator,
    lemma_div_nonincreasing, lemma_div_pos_is_pos, lemma_fundamental_div_mod,
    lemma_mod_division_less_than_divisor,
};
use vstd::prelude::*;

use crate::bn::{checked_mul_wide, div_wide, mul_u128_wide, pow128, pow192, pow256, pow64, wide, U256};
use crate::constants::{MARK_PRICE_PRECISION, ONE_HOUR, PRICE_TO_PEG_PRECISION_RATIO};
use crate::error::{ClearingHouseResult, ErrorCode};
use crate::state::{
    Market, OraclePriceData, PriceDivergenceGuardRails, SwapDirection, ValidityGuardRails, AMM,
};

verus! {

/// Absolute value of a mathematical integer.
pub open spec fn iabs(x: int) -> int {
    if x < 0 {
        -x
    } else {
        x
    }
}

/// Maximum of two mathematical integers.
pub open spec fn max_i(a: int, b: int) -> int {
    if a >= b {
        a
    } else {
        b
    }
}

/// Integer division rounding toward zero, as native signed division does.
pub open spec fn div_trunc(x: int, d: int) -> int
    recommends
        d != 0,
{
    if x == 0 {
        0
    } else if x > 0 && d > 0 {
        x / d
    } else if x < 0 && d < 0 {
        (x * -1) / (d * -1)
    } else if x < 0 {
        ((x * -1) / d) * -1
    } else {
        (x / (d * -1)) * -1
    }
}

/// Absolute value of an `i128`, as the unsigned width.
pub fn unsigned_abs_i128(x: i128) -> (r: u128)
    ensures
        r == iabs(x as int),
{
    if x >= 0 {
        x as u128
    } else {
        (-(x + 1)) as u128 + 1
    }
}

/// The mark price determined by an unpegged quote amount, a base amount and
/// a peg multiplier: `quote * peg * PRICE_TO_PEG_PRECISION_RATIO / base`,
/// truncated toward zero.
pub open spec fn price_of(unpegged_quote: int, base: int, peg: int) -> int {
    (unpegged_quote * peg * PRICE_TO_PEG_PRECISION_RATIO) / base
}

/// When `calculate_price` succeeds: the peg-weighted quote amount fits in
/// 128 bits, the base amount is nonzero, and the final price fits in 128
/// bits.
pub open spec fn price_ok(unpegged_quote: int, base: int, peg: int) -> bool {
    &&& unpegged_quote * peg < pow128()
    &&& base > 0
    &&& price_of(unpegged_quote, base, peg) < pow128()
}

/// Derives a price from virtual reserves and the peg multiplier, entirely in
/// 192-bit intermediate precision. Fails on overflow of the peg-weighted
/// quote amount, on a zero base amount, or if the price does not fit in a
/// `u128`.
pub fn calculate_price(
    unpegged_quote_asset_amount: u128,
    base_asset_amount: u128,
    peg_multiplier: u128,
) -> (res: ClearingHouseResult<u128>)
    ensures
        match res {
            Ok(v) => price_ok(
                unpegged_quote_asset_amount as int,
                base_asset_amount as int,
                peg_multiplier as int,
            ) && v == price_of(
                unpegged_quote_asset_amount as int,
                base_asset_amount as int,
                peg_multiplier as int,
            ),
            Err(_) => !price_ok(
                unpegged_quote_asset_amount as int,
                base_asset_amount as int,
                peg_multiplier as int,
            ),
        },
{
    let peg_quote_asset_amount = match unpegged_quote_asset_amount.checked_mul(peg_multiplier) {
        Some(v) => v,
        None => {
            return Err(ErrorCode::MathError);
        },
    };
    let (num_hi, num_lo) = mul_u128_wide(peg_quote_asset_amount, PRICE_TO_PEG_PRECISION_RATIO);
    if base_asset_amount == 0 {
        return Err(ErrorCode::MathError);
    }
    let (q_hi, q_lo) = div_wide(num_hi, num_lo, base_asset_amount);
    proof {
        assert(wide(q_hi, q_lo) >= 0);
        if q_hi != 0 {
            assert(q_hi * pow128() >= pow128()) by (nonlinear_arith)
                requires
                    q_hi >= 1,
                    pow128() > 0,
            ;
        }
    }
    if q_hi != 0 {
        return Err(ErrorCode::MathError);
    }
    Ok(q_lo)
}

/// The input reserve after a swap: grown by the swapped amount for `Add`,
/// shrunk for `Remove`.
pub open spec fn swap_new_input(amount: int, input: int, dir: SwapDirection) -> int {
    if dir == SwapDirection::Add {
        input + amount
    } else {
        input - amount
    }
}

/// The opposite-side reserve solved from the constant product:
/// `sqrt^2 / new_input`, truncated.
pub open spec fn swap_output(amount: int, input: int, dir: SwapDirection, sqrt: int) -> int {
    (sqrt * sqrt) / swap_new_input(amount, input, dir)
}

/// When `calculate_swap_output` succeeds: the invariant fits in 192 bits,
/// the new input reserve neither underflows nor overflows and is nonzero,
/// and the output reserve fits in 128 bits.
pub open spec fn swap_ok(amount: int, input: int, dir: SwapDirection, sqrt: int) -> bool {
    &&& sqrt * sqrt < pow192()
    &&& 0 <= swap_new_input(amount, input, dir) < pow128()
    &&& swap_new_input(amount, input, dir) != 0
    &&& swap_output(amount, input, dir, sqrt) < pow128()
}

/// The constant-product swap rule: the invariant is `invariant_sqrt^2`, the
/// input reserve moves by `swap_amount` in the given direction, and the
/// opposite reserve is solved so the product stays equal to the invariant.
/// Returns `(output_reserve, new_input_reserve)`. Fails if the invariant
/// exceeds 192 bits, on reserve underflow or overflow, on a zero new input
/// reserve, or if the output does not fit in a `u128`.
pub fn calculate_swap_output(
    swap_amount: u128,
    input_asset_amount: u128,
    direction: SwapDirection,
    invariant_sqrt: u128,
) -> (res: ClearingHouseResult<(u128, u128)>)
    ensures
        match res {
            Ok(v) => swap_ok(
                swap_amount as int,
                input_asset_amount as int,
                direction,
                invariant_sqrt as int,
            ) && v.0 == swap_output(
                swap_amount as int,
                input_asset_amount as int,
                direction,
                invariant_sqrt as int,
            ) && v.1 == swap_new_input(swap_amount as int, input_asset_amount as int, direction),
            Err(_) => !swap_ok(
                swap_amount as int,
                input_asset_amount as int,
                direction,
                invariant_sqrt as int,
            ),
        },
{
    let (inv_hi, inv_lo) = mul_u128_wide(invariant_sqrt, invariant_sqrt);
    if inv_hi >= 0x1_0000_0000_0000_0000u128 {
        proof {
            assert(inv_hi * pow128() >= pow64() * pow128()) by (nonlinear_arith)
                requires
                    inv_hi >= pow64(),
                    pow128() > 0,
            ;
        }
        return Err(ErrorCode::MathError);
    }
    proof {
        assert(inv_hi * pow128() <= (pow64() - 1) * pow128()) by (nonlinear_arith)
            requires
                inv_hi <= pow64() - 1,
                pow128() > 0,
        ;
    }
    let new_input_amount = match direction {
        SwapDirection::Add => {
            match input_asset_amount.checked_add(swap_amount) {
                Some(v) => v,
                None => {
                    return Err(ErrorCode::MathError);
                },
            }
        },
        SwapDirection::Remove => {
            match input_asset_amount.checked_sub(swap_amount) {
                Some(v) => v,
                None => {
                    return Err(ErrorCode::MathError);
                },
            }
        },
    };
    if new_input_amount == 0 {
        return Err(ErrorCode::MathError);
    }
    let (q_hi, q_lo) = div_wide(inv_hi, inv_lo, new_input_amount);
    proof {
        if q_hi != 0 {
            assert(q_hi * pow128() >= pow128()) by (nonlinear_arith)
                requires
                    q_hi >= 1,
                    pow128() > 0,
            ;
        }
    }
    if q_hi != 0 {
        return Err(ErrorCode::MathError);
    }
    Ok((q_lo, new_input_amount))
}

/// Whether a mathematical integer fits in an `i128`.
pub open spec fn i128_fits(x: int) -> bool {
    i128::MIN <= x <= i128::MAX
}

/// The two-sample time-decayed weighted average:
/// `(old * old_weight + new * new_weight) / (new_weight + old_weight)`,
/// truncated toward zero.
pub open spec fn twap_of(new_data: int, old_data: int, new_weight: int, old_weight: int) -> int {
    div_trunc(old_data * old_weight + new_data * new_weight, new_weight + old_weight)
}

/// When `calculate_twap` succeeds: the weight sum, both weighted samples,
/// their sum, and the blended result all fit in an `i128`, and the weight
/// sum is nonzero.
pub open spec fn twap_ok(new_data: int, old_data: int, new_weight: int, old_weight: int) -> bool {
    &&& i128_fits(new_weight + old_weight)
    &&& i128_fits(old_data * old_weight)
    &&& i128_fits(new_data * new_weight)
    &&& i128_fits(old_data * old_weight + new_data * new_weight)
    &&& new_weight + old_weight != 0
    &&& i128_fits(twap_of(new_data, old_data, new_weight, old_weight))
}

/// Blends a new sample into a running average, weighting each by its share
/// of elapsed time. Fails on overflow of any intermediate product or sum,
/// or on a zero weight sum.
pub fn calculate_twap(new_data: i128, old_data: i128, new_weight: i128, old_weight: i128) -> (res:
    ClearingHouseResult<i128>)
    ensures
        match res {
            Ok(v) => twap_ok(new_data as int, old_data as int, new_weight as int, old_weight as int)
                && v == twap_of(
                new_data as int,
                old_data as int,
                new_weight as int,
                old_weight as int,
            ),
            Err(_) => !twap_ok(
                new_data as int,
                old_data as int,
                new_weight as int,
                old_weight as int,
            ),
        },
{
    let denominator = match new_weight.checked_add(old_weight) {
        Some(v) => v,
        None => {
            return Err(ErrorCode::MathError);
        },
    };
    let prev_twap_weighted = match old_data.checked_mul(old_weight) {
        Some(v) => v,
        None => {
            return Err(ErrorCode::MathError);
        },
    };
    let latest_price_weighted = match new_data.checked_mul(new_weight) {
        Some(v) => v,
        None => {
            return Err(ErrorCode::MathError);
        },
    };
    let numerator = match prev_twap_weighted.checked_add(latest_price_weighted) {
        Some(v) => v,
        None => {
            return Err(ErrorCode::MathError);
        },
    };
    match numerator.checked_div(denominator) {
        Some(v) => Ok(v),
        None => Err(ErrorCode::MathError),
    }
}

/// The elapsed time used as the new sample's weight, floored at one so the
/// new sample always carries weight.
pub open spec fn since_last_of(now: int, last_ts: int) -> int {
    max_i(1, now - last_ts)
}

/// The remainder of the averaging window used as the old sample's weight,
/// floored at one so the old sample never fully vanishes.
pub open spec fn from_start_of(since_last: int) -> int {
    max_i(1, ONE_HOUR - since_last)
}

/// The mark price used by a mark-TWAP update: the precomputed one if
/// supplied, else the live price from the current reserves and peg.
pub open spec fn mark_price_used(amm: AMM, precomputed: Option<u128>) -> int {
    match precomputed {
        Some(p) => p as int,
        None => price_of(
            amm.quote_asset_reserve as int,
            amm.base_asset_reserve as int,
            amm.peg_multiplier as int,
        ),
    }
}

/// Whether the mark price needed by a mark-TWAP update can be produced.
pub open spec fn mark_price_available(amm: AMM, precomputed: Option<u128>) -> bool {
    precomputed is Some || price_ok(
        amm.quote_asset_reserve as int,
        amm.base_asset_reserve as int,
        amm.peg_multiplier as int,
    )
}

/// When `calculate_new_mark_twap` succeeds.
pub open spec fn mark_twap_ok(amm: AMM, now: int, precomputed: Option<u128>) -> bool {
    &&& i64::MIN <= now - amm.last_mark_price_twap_ts <= i64::MAX
    &&& mark_price_available(amm, precomputed)
    &&& mark_price_used(amm, precomputed) <= i128::MAX
    &&& amm.last_mark_price_twap <= i128::MAX
    &&& twap_ok(
        mark_price_used(amm, precomputed),
        amm.last_mark_price_twap as int,
        since_last_of(now, amm.last_mark_price_twap_ts as int),
        from_start_of(since_last_of(now, amm.last_mark_price_twap_ts as int)),
    )
}

/// The blended mark TWAP after a sample at time `now`.
pub open spec fn mark_twap_of(amm: AMM, now: int, precomputed: Option<u128>) -> int {
    twap_of(
        mark_price_used(amm, precomputed),
        amm.last_mark_price_twap as int,
        since_last_of(now, amm.last_mark_price_twap_ts as int),
        from_start_of(since_last_of(now, amm.last_mark_price_twap_ts as int)),
    )
}

/// Computes the blended mark-price TWAP for a sample at time `now`, without
/// writing it back. The new sample is weighted by the time since the last
/// update (floored at one) and the old average by the remainder of the
/// one-hour window (floored at one).
pub fn calculate_new_mark_twap(amm: &AMM, now: i64, precomputed_mark_price: Option<u128>) -> (res:
    ClearingHouseResult<u128>)
    ensures
        match res {
            Ok(v) => mark_twap_ok(*amm, now as int, precomputed_mark_price) && v == mark_twap_of(
                *amm,
                now as int,
                precomputed_mark_price,
            ),
            Err(_) => !mark_twap_ok(*amm, now as int, precomputed_mark_price),
        },
{
    let diff = match now.checked_sub(amm.last_mark_price_twap_ts) {
        Some(v) => v,
        None => {
            return Err(ErrorCode::MathError);
        },
    };
    let since_last: i128 = if diff >= 1 {
        diff as i128
    } else {
        1
    };
    let from_start: i128 = if ONE_HOUR - since_last >= 1 {
        ONE_HOUR - since_last
    } else {
        1
    };
    let current_price: u128 = match precomputed_mark_price {
        Some(p) => p,
        None => {
            match amm.mark_price() {
                Ok(p) => p,
                Err(e) => {
                    return Err(e);
                },
            }
        },
    };
    if current_price > (i128::MAX as u128) {
        return Err(ErrorCode::MathError);
    }
    if amm.last_mark_price_twap > (i128::MAX as u128) {
        return Err(ErrorCode::MathError);
    }
    let new_twap = match calculate_twap(
        current_price as i128,
        amm.last_mark_price_twap as i128,
        since_last,
        from_start,
    ) {
        Ok(v) => v,
        Err(e) => {
            return Err(e);
        },
    };
    proof {
        lemma_twap_of_nonneg_samples(
            current_price as int,
            amm.last_mark_price_twap as int,
            since_last as int,
            from_start as int,
        );
    }
    Ok(new_twap as u128)
}

/// A blend of nonnegative samples with positive weights is nonnegative.
proof fn lemma_twap_of_nonneg_samples(new_data: int, old_data: int, new_weight: int, old_weight: int)
    requires
        new_data >= 0,
        old_data >= 0,
        new_weight > 0,
        old_weight > 0,
    ensures
        twap_of(new_data, old_data, new_weight, old_weight) >= 0,
{
    assert(old_data * old_weight >= 0 && new_data * new_weight >= 0) by (nonlinear_arith)
        requires
            new_data >= 0,
            old_data >= 0,
            new_weight > 0,
            old_weight > 0,
    ;
    let num = old_data * old_weight + new_data * new_weight;
    if num > 0 {
        lemma_div_pos_is_pos(num, new_weight + old_weight);
    }
}

/// Computes the blended mark-price TWAP for a sample at time `now` and
/// writes both the new TWAP and `now` into the AMM state. On failure the
/// state is unchanged.
pub fn update_mark_twap(amm: &mut AMM, now: i64, precomputed_mark_price: Option<u128>) -> (res:
    ClearingHouseResult<u128>)
    ensures
        match res {
            Ok(v) => mark_twap_ok(*old(amm), now as int, precomputed_mark_price) && v
                == mark_twap_of(*old(amm), now as int, precomputed_mark_price) && *final(amm) == (
            AMM {
                last_mark_price_twap: v,
                last_mark_price_twap_ts: now,
                ..*old(amm)
            }),
            Err(_) => !mark_twap_ok(*old(amm), now as int, precomputed_mark_price) && *final(amm)
                == *old(amm),
        },
{
    let mark_twap = match calculate_new_mark_twap(amm, now, precomputed_mark_price) {
        Ok(v) => v,
        Err(e) => {
            return Err(e);
        },
    };
    amm.last_mark_price_twap = mark_twap;
    amm.last_mark_price_twap_ts = now;
    Ok(mark_twap)
}

/// When `calculate_new_oracle_price_twap` succeeds.
pub open spec fn oracle_twap_ok(amm: AMM, now: int, oracle_price: int) -> bool {
    &&& i64::MIN <= now - amm.last_oracle_price_twap_ts <= i64::MAX
    &&& twap_ok(
        oracle_price,
        amm.last_oracle_price_twap as int,
        since_last_of(now, amm.last_oracle_price_twap_ts as int),
        from_start_of(since_last_of(now, amm.last_oracle_price_twap_ts as int)),
    )
}

/// The blended reference-price TWAP after a sample at time `now`.
pub open spec fn oracle_twap_of(amm: AMM, now: int, oracle_price: int) -> int {
    twap_of(
        oracle_price,
        amm.last_oracle_price_twap as int,
        since_last_of(now, amm.last_oracle_price_twap_ts as int),
        from_start_of(since_last_of(now, amm.last_oracle_price_twap_ts as int)),
    )
}

/// Computes the blended reference-price TWAP for a caller-supplied signed
/// reference price sampled at time `now`, without writing it back. Mirrors
/// the mark TWAP, but the reference price must always be supplied.
pub fn calculate_new_oracle_price_twap(amm: &AMM, now: i64, oracle_price: i128) -> (res:
    ClearingHouseResult<i128>)
    ensures
        match res {
            Ok(v) => oracle_twap_ok(*amm, now as int, oracle_price as int) && v == oracle_twap_of(
                *amm,
                now as int,
                oracle_price as int,
            ),
            Err(_) => !oracle_twap_ok(*amm, now as int, oracle_price as int),
        },
{
    let diff = match now.checked_sub(amm.last_oracle_price_twap_ts) {
        Some(v) => v,
        None => {
            return Err(ErrorCode::MathError);
        },
    };
    let since_last: i128 = if diff >= 1 {
        diff as i128
    } else {
        1
    };
    let from_start: i128 = if ONE_HOUR - since_last >= 1 {
        ONE_HOUR - since_last
    } else {
        1
    };
    calculate_twap(oracle_price, amm.last_oracle_price_twap, since_last, from_start)
}

/// Computes the blended reference-price TWAP for a sample at time `now` and
/// writes both the new TWAP and `now` into the AMM state. On failure the
/// state is unchanged.
pub fn update_oracle_price_twap(amm: &mut AMM, now: i64, oracle_price: i128) -> (res:
    ClearingHouseResult<()>)
    ensures
        match res {
            Ok(_) => oracle_twap_ok(*old(amm), now as int, oracle_price as int) && *final(amm) == (
            AMM {
                last_oracle_price_twap: oracle_twap_of(
                    *old(amm),
                    now as int,
                    oracle_price as int,
                ) as i128,
                last_oracle_price_twap_ts: now,
                ..*old(amm)
            }),
            Err(_) => !oracle_twap_ok(*old(amm), now as int, oracle_price as int) && *final(amm)
                == *old(amm),
        },
{
    let oracle_price_twap = match calculate_new_oracle_price_twap(amm, now, oracle_price) {
        Ok(v) => v,
        Err(e) => {
            return Err(e);
        },
    };
    amm.last_oracle_price_twap = oracle_price_twap;
    amm.last_oracle_price_twap_ts = now;
    Ok(())
}

/// The direction that unwinds the market's net position against its own
/// reserves: a net long is swapped back in, a net short is bought back out.
pub open spec fn terminal_direction(base: int) -> SwapDirection {
    if base > 0 {
        SwapDirection::Add
    } else {
        SwapDirection::Remove
    }
}

/// When `calculate_terminal_price` succeeds: the unwinding swap and the
/// price on the resulting reserves both succeed.
pub open spec fn terminal_ok(m: Market) -> bool {
    &&& swap_ok(
        iabs(m.base_asset_amount as int),
        m.amm.base_asset_reserve as int,
        terminal_direction(m.base_asset_amount as int),
        m.amm.sqrt_k as int,
    )
    &&& price_ok(
        swap_output(
            iabs(m.base_asset_amount as int),
            m.amm.base_asset_reserve as int,
            terminal_direction(m.base_asset_amount as int),
            m.amm.sqrt_k as int,
        ),
        swap_new_input(
            iabs(m.base_asset_amount as int),
            m.amm.base_asset_reserve as int,
            terminal_direction(m.base_asset_amount as int),
        ),
        m.amm.peg_multiplier as int,
    )
}

/// The price that would result from fully unwinding the net position.
pub open spec fn terminal_price_of(m: Market) -> int {
    price_of(
        swap_output(
            iabs(m.base_asset_amount as int),
            m.amm.base_asset_reserve as int,
            terminal_direction(m.base_asset_amount as int),
            m.amm.sqrt_k as int,
        ),
        swap_new_input(
            iabs(m.base_asset_amount as int),
            m.amm.base_asset_reserve as int,
            terminal_direction(m.base_asset_amount as int),
        ),
        m.amm.peg_multiplier as int,
    )
}

/// Computes the price reachable if the market's net position were fully
/// unwound against its own reserves: the absolute net position is swapped in
/// the direction opposite its sign and the resulting reserves are priced
/// with the current peg. The market is left unchanged.
pub fn calculate_terminal_price(market: &mut Market) -> (res: ClearingHouseResult<u128>)
    ensures
        *final(market) == *old(market),
        match res {
            Ok(v) => terminal_ok(*old(market)) && v == terminal_price_of(*old(market)),
            Err(_) => !terminal_ok(*old(market)),
        },
{
    let swap_direction = if market.base_asset_amount > 0 {
        SwapDirection::Add
    } else {
        SwapDirection::Remove
    };
    let abs_base = unsigned_abs_i128(market.base_asset_amount);
    let (new_quote_asset_amount, new_base_asset_amount) = match calculate_swap_output(
        abs_base,
        market.amm.base_asset_reserve,
        swap_direction,
        market.amm.sqrt_k,
    ) {
        Ok(v) => v,
        Err(e) => {
            return Err(e);
        },
    };
    let terminal_price = match calculate_price(
        new_quote_asset_amount,
        new_base_asset_amount,
        market.amm.peg_multiplier,
    ) {
        Ok(v) => v,
        Err(e) => {
            return Err(e);
        },
    };
    Ok(terminal_price)
}

/// The reference price a spread is measured against: the reference TWAP for
/// a windowed comparison, the instantaneous reference price otherwise.
pub open spec fn spread_ref_price(oracle: OraclePriceData, window: u32) -> int {
    if window > 0 {
        oracle.twap as int
    } else {
        oracle.price as int
    }
}

/// The synthetic price a spread is measured from: the mark TWAP for a
/// windowed comparison, the instantaneous mark price otherwise.
pub open spec fn spread_mark_price(amm: AMM, window: u32, precomputed: Option<u128>) -> int {
    if window > 0 {
        amm.last_mark_price_twap as int
    } else {
        mark_price_used(amm, precomputed)
    }
}

/// The signed mark/reference spread.
pub open spec fn spread_of(
    amm: AMM,
    oracle: OraclePriceData,
    window: u32,
    precomputed: Option<u128>,
) -> int {
    spread_mark_price(amm, window, precomputed) - spread_ref_price(oracle, window)
}

/// When `calculate_oracle_mark_spread` succeeds: the synthetic price exists,
/// fits in an `i128`, and the spread does not overflow.
pub open spec fn spread_ok(
    amm: AMM,
    oracle: OraclePriceData,
    window: u32,
    precomputed: Option<u128>,
) -> bool {
    &&& (window > 0 || mark_price_available(amm, precomputed))
    &&& spread_mark_price(amm, window, precomputed) <= i128::MAX
    &&& i128_fits(spread_of(amm, oracle, window, precomputed))
}

/// Computes the mark/reference spread: over the two TWAPs if `window > 0`,
/// over the instantaneous prices otherwise. Returns the reference price
/// used and the signed spread.
pub fn calculate_oracle_mark_spread(
    amm: &AMM,
    oracle_price_data: &OraclePriceData,
    window: u32,
    precomputed_mark_price: Option<u128>,
) -> (res: ClearingHouseResult<(i128, i128)>)
    ensures
        match res {
            Ok(v) => spread_ok(*amm, *oracle_price_data, window, precomputed_mark_price) && v.0
                == spread_ref_price(*oracle_price_data, window) && v.1 == spread_of(
                *amm,
                *oracle_price_data,
                window,
                precomputed_mark_price,
            ),
            Err(_) => !spread_ok(*amm, *oracle_price_data, window, precomputed_mark_price),
        },
{
    if window > 0 {
        if amm.last_mark_price_twap > (i128::MAX as u128) {
            return Err(ErrorCode::MathError);
        }
        let mark_price = amm.last_mark_price_twap as i128;
        match mark_price.checked_sub(oracle_price_data.twap) {
            Some(price_spread) => Ok((oracle_price_data.twap, price_spread)),
            None => Err(ErrorCode::MathError),
        }
    } else {
        let mark_price_u = match precomputed_mark_price {
            Some(p) => p,
            None => {
                match amm.mark_price() {
                    Ok(p) => p,
                    Err(e) => {
                        return Err(e);
                    },
                }
            },
        };
        if mark_price_u > (i128::MAX as u128) {
            return Err(ErrorCode::MathError);
        }
        let mark_price = mark_price_u as i128;
        match mark_price.checked_sub(oracle_price_data.price) {
            Some(price_spread) => Ok((oracle_price_data.price, price_spread)),
            None => Err(ErrorCode::MathError),
        }
    }
}

/// When `calculate_oracle_mark_spread_pct` succeeds: the spread itself,
/// its fixed-point scaling, and the division by the reference price all
/// stay in range, and the reference price is nonzero.
pub open spec fn spread_pct_ok(
    amm: AMM,
    oracle: OraclePriceData,
    window: u32,
    precomputed: Option<u128>,
) -> bool {
    &&& spread_ok(amm, oracle, window, precomputed)
    &&& i128_fits(spread_of(amm, oracle, window, precomputed) * 1024)
    &&& spread_ref_price(oracle, window) != 0
    &&& i128_fits(
        div_trunc(
            spread_of(amm, oracle, window, precomputed) * 1024,
            spread_ref_price(oracle, window),
        ),
    )
}

/// The spread as a fixed-point fraction of the reference price, scaled so
/// that 1024 stands for the whole reference price.
pub open spec fn spread_pct_of(
    amm: AMM,
    oracle: OraclePriceData,
    window: u32,
    precomputed: Option<u128>,
) -> int {
    div_trunc(
        spread_of(amm, oracle, window, precomputed) * 1024,
        spread_ref_price(oracle, window),
    )
}

/// Computes the mark/reference spread and expresses it as a fixed-point
/// fraction of the reference price (1024 stands for the whole price).
/// Returns the reference price used, the spread, and the scaled fraction.
/// Fails if the scaled spread overflows or the reference price is zero.
pub fn calculate_oracle_mark_spread_pct(
    amm: &AMM,
    oracle_price_data: &OraclePriceData,
    window: u32,
    precomputed_mark_price: Option<u128>,
) -> (res: ClearingHouseResult<(i128, i128, i128)>)
    ensures
        match res {
            Ok(v) => spread_pct_ok(*amm, *oracle_price_data, window, precomputed_mark_price) && v.0
                == spread_ref_price(*oracle_price_data, window) && v.1 == spread_of(
                *amm,
                *oracle_price_data,
                window,
                precomputed_mark_price,
            ) && v.2 == spread_pct_of(*amm, *oracle_price_data, window, precomputed_mark_price),
            Err(_) => !spread_pct_ok(*amm, *oracle_price_data, window, precomputed_mark_price),
        },
{
    let (oracle_price, price_spread) = match calculate_oracle_mark_spread(
        amm,
        oracle_price_data,
        window,
        precomputed_mark_price,
    ) {
        Ok(v) => v,
        Err(e) => {
            return Err(e);
        },
    };
    let scaled_spread = match price_spread.checked_mul(1024) {
        Some(v) => v,
        None => {
            return Err(ErrorCode::MathError);
        },
    };
    match scaled_spread.checked_div(oracle_price) {
        Some(price_spread_pct) => Ok((oracle_price, price_spread, price_spread_pct)),
        None => Err(ErrorCode::MathError),
    }
}

/// When `is_oracle_mark_too_divergent` succeeds: the scaled numerator fits
/// in 128 bits and the denominator is nonzero.
pub open spec fn divergence_limit_ok(rails: PriceDivergenceGuardRails) -> bool {
    &&& rails.mark_oracle_divergence_numerator * 1024 < pow128()
    &&& rails.mark_oracle_divergence_denominator != 0
}

/// The largest tolerated `spread_pct` magnitude: the guard-rail fraction
/// scaled by 1024.
pub open spec fn max_divergence_of(rails: PriceDivergenceGuardRails) -> int {
    (rails.mark_oracle_divergence_numerator * 1024) / (
    rails.mark_oracle_divergence_denominator as int)
}

/// Whether a scaled spread exceeds the divergence guard-rail.
pub open spec fn too_divergent(spread_pct: int, rails: PriceDivergenceGuardRails) -> bool {
    iabs(spread_pct) > max_divergence_of(rails)
}

/// Evaluates the divergence guard-rail: true iff the magnitude of
/// `price_spread_pct` exceeds the configured fraction scaled by 1024.
/// Fails if scaling the numerator overflows or the denominator is zero.
pub fn is_oracle_mark_too_divergent(
    price_spread_pct: i128,
    oracle_guard_rails: &PriceDivergenceGuardRails,
) -> (res: ClearingHouseResult<bool>)
    ensures
        match res {
            Ok(b) => divergence_limit_ok(*oracle_guard_rails) && b == too_divergent(
                price_spread_pct as int,
                *oracle_guard_rails,
            ),
            Err(_) => !divergence_limit_ok(*oracle_guard_rails),
        },
{
    let scaled_numerator = match oracle_guard_rails.mark_oracle_divergence_numerator.checked_mul(
        1024,
    ) {
        Some(v) => v,
        None => {
            return Err(ErrorCode::MathError);
        },
    };
    let max_divergence = match scaled_numerator.checked_div(
        oracle_guard_rails.mark_oracle_divergence_denominator,
    ) {
        Some(v) => v,
        None => {
            return Err(ErrorCode::MathError);
        },
    };
    Ok(unsigned_abs_i128(price_spread_pct) > max_divergence)
}

/// Failure predicate: the reference price or its TWAP is non-positive.
pub open spec fn oracle_nonpositive(oracle: OraclePriceData) -> bool {
    oracle.twap <= 0 || oracle.price <= 0
}

/// Failure predicate: the price-to-TWAP ratio, in either direction, exceeds
/// the volatility guard-rail (each denominator floored at one).
pub open spec fn oracle_too_volatile(oracle: OraclePriceData, rails: ValidityGuardRails) -> bool {
    ||| div_trunc(oracle.price as int, max_i(1, oracle.twap as int)) > rails.too_volatile_ratio
    ||| div_trunc(oracle.twap as int, max_i(1, oracle.price as int)) > rails.too_volatile_ratio
}

/// Failure predicate: the price or TWAP, measured in units of its own
/// confidence width (floored at one), falls below the configured minimum.
pub open spec fn oracle_conf_too_large(oracle: OraclePriceData, rails: ValidityGuardRails) -> bool {
    ||| (oracle.price as int) / max_i(1, oracle.confidence as int)
        < rails.confidence_interval_max_size
    ||| (oracle.twap as int) / max_i(1, oracle.twap_confidence as int)
        < rails.confidence_interval_max_size
}

/// Failure predicate: the reference sample is older than the staleness
/// bound.
pub open spec fn oracle_stale(oracle: OraclePriceData, rails: ValidityGuardRails) -> bool {
    oracle.delay > rails.slots_before_stale
}

/// A reference tuple is valid iff none of the four failure predicates
/// holds.
pub open spec fn oracle_valid_of(oracle: OraclePriceData, rails: ValidityGuardRails) -> bool {
    !(oracle_stale(oracle, rails) || oracle_conf_too_large(oracle, rails) || oracle_nonpositive(
        oracle,
    ) || oracle_too_volatile(oracle, rails))
}

/// Truncating division of an in-range value by a positive divisor stays in
/// range.
proof fn lemma_div_trunc_by_pos_fits(x: int, d: int)
    requires
        i128::MIN <= x <= i128::MAX,
        d >= 1,
    ensures
        i128_fits(div_trunc(x, d)),
{
    if x > 0 {
        lemma_div_pos_is_pos(x, d);
        lemma_div_nonincreasing(x, d);
    }
    if x < 0 {
        lemma_div_pos_is_pos(x * -1, d);
        lemma_div_nonincreasing(x * -1, d);
    }
}

/// Evaluates the four reference-price failure predicates and returns true
/// iff none holds. Fails only if the price or TWAP is negative, which makes
/// the confidence ratio incomputable in unsigned arithmetic.
pub fn is_oracle_valid(
    oracle_price_data: &OraclePriceData,
    valid_oracle_guard_rails: &ValidityGuardRails,
) -> (res: ClearingHouseResult<bool>)
    ensures
        match res {
            Ok(b) => oracle_price_data.price >= 0 && oracle_price_data.twap >= 0 && b
                == oracle_valid_of(*oracle_price_data, *valid_oracle_guard_rails),
            Err(_) => oracle_price_data.price < 0 || oracle_price_data.twap < 0,
        },
{
    let oracle = *oracle_price_data;
    let is_oracle_price_nonpositive = oracle.twap <= 0 || oracle.price <= 0;
    let twap_floor: i128 = if oracle.twap >= 1 {
        oracle.twap
    } else {
        1
    };
    let price_floor: i128 = if oracle.price >= 1 {
        oracle.price
    } else {
        1
    };
    proof {
        lemma_div_trunc_by_pos_fits(oracle.price as int, twap_floor as int);
        lemma_div_trunc_by_pos_fits(oracle.twap as int, price_floor as int);
    }
    let ratio_of_price = match oracle.price.checked_div(twap_floor) {
        Some(v) => v,
        None => {
            return Err(ErrorCode::MathError);
        },
    };
    let ratio_of_twap = match oracle.twap.checked_div(price_floor) {
        Some(v) => v,
        None => {
            return Err(ErrorCode::MathError);
        },
    };
    let is_oracle_price_too_volatile = ratio_of_price > valid_oracle_guard_rails.too_volatile_ratio
        || ratio_of_twap > valid_oracle_guard_rails.too_volatile_ratio;
    if oracle.price < 0 || oracle.twap < 0 {
        return Err(ErrorCode::MathError);
    }
    let conf_floor: u128 = if oracle.confidence >= 1 {
        oracle.confidence
    } else {
        1
    };
    let twap_conf_floor: u128 = if oracle.twap_confidence >= 1 {
        oracle.twap_confidence
    } else {
        1
    };
    let conf_denom_of_price = (oracle.price as u128) / conf_floor;
    let conf_denom_of_twap_price = (oracle.twap as u128) / twap_conf_floor;
    let is_conf_too_large = conf_denom_of_price
        < valid_oracle_guard_rails.confidence_interval_max_size || conf_denom_of_twap_price
        < valid_oracle_guard_rails.confidence_interval_max_size;
    let is_stale = oracle.delay > valid_oracle_guard_rails.slots_before_stale;
    Ok(
        !(is_stale || is_conf_too_large || is_oracle_price_nonpositive
            || is_oracle_price_too_volatile),
    )
}

/// The rescaling ratio `new_sqrt_k * MARK_PRICE_PRECISION / sqrt_k`, held
/// in full 256-bit precision.
pub open spec fn k_ratio(amm: AMM, new_sqrt_k: int) -> int {
    (new_sqrt_k * MARK_PRICE_PRECISION) / (amm.sqrt_k as int)
}

/// A reserve rescaled by the ratio: `reserve * ratio / MARK_PRICE_PRECISION`.
pub open spec fn rescaled_reserve(reserve: int, ratio: int) -> int {
    (reserve * ratio) / (MARK_PRICE_PRECISION as int)
}

/// The AMM after the invariant rescale: the new scale written, both
/// reserves rescaled by the same ratio, everything else untouched.
pub open spec fn rescaled_amm(amm: AMM, new_sqrt_k: int) -> AMM {
    AMM {
        sqrt_k: new_sqrt_k as u128,
        base_asset_reserve: rescaled_reserve(
            amm.base_asset_reserve as int,
            k_ratio(amm, new_sqrt_k),
        ) as u128,
        quote_asset_reserve: rescaled_reserve(
            amm.quote_asset_reserve as int,
            k_ratio(amm, new_sqrt_k),
        ) as u128,
        ..amm
    }
}

/// Machine limits a caller of `adjust_k_cost` must respect: the new scale
/// and both rescaled reserves, where the computation reaches them, must
/// narrow back to 128 bits.
pub open spec fn k_rescale_fits(m: Market, new_sqrt_k: int) -> bool {
    &&& new_sqrt_k < pow128()
    &&& (crate::position::base_value_ok(m.base_asset_amount as int, 0, m.amm) && m.amm.sqrt_k != 0
        && m.amm.base_asset_reserve * k_ratio(m.amm, new_sqrt_k) < pow256()) ==> rescaled_reserve(
        m.amm.base_asset_reserve as int,
        k_ratio(m.amm, new_sqrt_k),
    ) < pow128()
    &&& (crate::position::base_value_ok(m.base_asset_amount as int, 0, m.amm) && m.amm.sqrt_k != 0
        && m.amm.base_asset_reserve * k_ratio(m.amm, new_sqrt_k) < pow256()
        && m.amm.quote_asset_reserve * k_ratio(m.amm, new_sqrt_k) < pow256()) ==> rescaled_reserve(
        m.amm.quote_asset_reserve as int,
        k_ratio(m.amm, new_sqrt_k),
    ) < pow128()
}

/// When `adjust_k_cost` succeeds: both valuations succeed, the old scale is
/// nonzero, and neither reserve rescaling overflows 256 bits.
pub open spec fn adjust_k_ok(m: Market, new_sqrt_k: int) -> bool {
    &&& crate::position::base_value_ok(m.base_asset_amount as int, 0, m.amm)
    &&& m.amm.sqrt_k != 0
    &&& m.amm.base_asset_reserve * k_ratio(m.amm, new_sqrt_k) < pow256()
    &&& m.amm.quote_asset_reserve * k_ratio(m.amm, new_sqrt_k) < pow256()
    &&& crate::position::base_value_ok(
        m.base_asset_amount as int,
        crate::position::base_value_of(m.base_asset_amount as int, m.amm),
        rescaled_amm(m.amm, new_sqrt_k),
    )
}

/// The cost of the rescale: the net position's value change, measured from
/// its value before the rescale. Positive means the protocol is worse off.
pub open spec fn adjust_k_cost_of(m: Market, new_sqrt_k: int) -> int {
    crate::position::pnl_of(
        m.base_asset_amount as int,
        crate::position::base_value_of(m.base_asset_amount as int, m.amm),
        rescaled_amm(m.amm, new_sqrt_k),
    )
}

/// Prices the rescale of the invariant constant: values the net position
/// against the current reserves, writes the new scale and both reserves
/// rescaled by `new_sqrt_k * MARK_PRICE_PRECISION / sqrt_k` (each in 256-bit
/// precision), and re-values the unchanged position against the new
/// reserves. The returned cost is positive when the protocol is worse off.
/// The rescale is committed even though later steps may still fail, so on
/// failure the market may hold a partly rescaled state, as stated below.
pub fn adjust_k_cost(market: &mut Market, new_sqrt_k: U256) -> (res: ClearingHouseResult<i128>)
    requires
        k_rescale_fits(*old(market), new_sqrt_k.as_int()),
    ensures
        final(market).base_asset_amount == old(market).base_asset_amount,
        match res {
            Ok(cost) => adjust_k_ok(*old(market), new_sqrt_k.as_int()) && final(market).amm
                == rescaled_amm(old(market).amm, new_sqrt_k.as_int()) && cost == adjust_k_cost_of(
                *old(market),
                new_sqrt_k.as_int(),
            ),
            Err(_) => {
                &&& !adjust_k_ok(*old(market), new_sqrt_k.as_int())
                &&& if !(crate::position::base_value_ok(
                    old(market).base_asset_amount as int,
                    0,
                    old(market).amm,
                ) && old(market).amm.sqrt_k != 0) {
                    *final(market) == *old(market)
                } else if !(old(market).amm.base_asset_reserve * k_ratio(
                    old(market).amm,
                    new_sqrt_k.as_int(),
                ) < pow256()) {
                    final(market).amm == (AMM {
                        sqrt_k: new_sqrt_k.as_int() as u128,
                        ..old(market).amm
                    })
                } else if !(old(market).amm.quote_asset_reserve * k_ratio(
                    old(market).amm,
                    new_sqrt_k.as_int(),
                ) < pow256()) {
                    final(market).amm == (AMM {
                        sqrt_k: new_sqrt_k.as_int() as u128,
                        base_asset_reserve: rescaled_reserve(
                            old(market).amm.base_asset_reserve as int,
                            k_ratio(old(market).amm, new_sqrt_k.as_int()),
                        ) as u128,
                        ..old(market).amm
                    })
                } else {
                    final(market).amm == rescaled_amm(old(market).amm, new_sqrt_k.as_int())
                }
            },
        },
{
    let base = market.base_asset_amount;
    let (current_net_market_value, _) = match crate::position::calculate_base_asset_value_and_pnl(
        base,
        0,
        &market.amm,
    ) {
        Ok(v) => v,
        Err(e) => {
            return Err(e);
        },
    };
    if market.amm.sqrt_k == 0 {
        return Err(ErrorCode::MathError);
    }
    let (nsk_lo, nsk_hi) = new_sqrt_k.words();
    proof {
        crate::bn::lemma_wide_range(nsk_hi, nsk_lo);
        vstd::arithmetic::mul::lemma_mul_basics(pow128());
        assert(nsk_hi == 0 && new_sqrt_k.as_int() == nsk_lo);
    }
    let (scaled_hi, scaled_lo) = mul_u128_wide(nsk_lo, MARK_PRICE_PRECISION);
    let (ratio_hi, ratio_lo) = div_wide(scaled_hi, scaled_lo, market.amm.sqrt_k);
    market.amm.sqrt_k = nsk_lo;
    let (mb_hi, mb_lo) = match checked_mul_wide(
        0,
        market.amm.base_asset_reserve,
        ratio_hi,
        ratio_lo,
    ) {
        Some(v) => v,
        None => {
            return Err(ErrorCode::MathError);
        },
    };
    let (qb_hi, qb_lo) = div_wide(mb_hi, mb_lo, MARK_PRICE_PRECISION);
    proof {
        crate::bn::lemma_wide_range(qb_hi, qb_lo);
        assert(qb_hi == 0);
    }
    market.amm.base_asset_reserve = qb_lo;
    let (mq_hi, mq_lo) = match checked_mul_wide(
        0,
        market.amm.quote_asset_reserve,
        ratio_hi,
        ratio_lo,
    ) {
        Some(v) => v,
        None => {
            return Err(ErrorCode::MathError);
        },
    };
    let (qq_hi, qq_lo) = div_wide(mq_hi, mq_lo, MARK_PRICE_PRECISION);
    proof {
        crate::bn::lemma_wide_range(qq_hi, qq_lo);
        assert(qq_hi == 0);
    }
    market.amm.quote_asset_reserve = qq_lo;
    let (_new_net_market_value, cost) = match crate::position::calculate_base_asset_value_and_pnl(
        base,
        current_net_market_value,
        &market.amm,
    ) {
        Ok(v) => v,
        Err(e) => {
            return Err(e);
        },
    };
    Ok(cost)
}

/// Law: the price never falls when the unpegged quote amount grows, all
/// else equal.
pub proof fn lemma_price_monotone_in_quote(u1: int, u2: int, base: int, peg: int)
    requires
        0 <= u1 <= u2,
        peg >= 0,
        base > 0,
    ensures
        price_of(u1, base, peg) <= price_of(u2, base, peg),
{
    assert(u1 * peg * PRICE_TO_PEG_PRECISION_RATIO <= u2 * peg * PRICE_TO_PEG_PRECISION_RATIO)
        by (nonlinear_arith)
        requires
            0 <= u1 <= u2,
            peg >= 0,
    ;
    lemma_div_is_ordered(
        u1 * peg * PRICE_TO_PEG_PRECISION_RATIO,
        u2 * peg * PRICE_TO_PEG_PRECISION_RATIO,
        base,
    );
}

/// Law: the price never falls when the peg multiplier grows, all else
/// equal.
pub proof fn lemma_price_monotone_in_peg(u: int, base: int, peg1: int, peg2: int)
    requires
        u >= 0,
        0 <= peg1 <= peg2,
        base > 0,
    ensures
        price_of(u, base, peg1) <= price_of(u, base, peg2),
{
    assert(u * peg1 * PRICE_TO_PEG_PRECISION_RATIO <= u * peg2 * PRICE_TO_PEG_PRECISION_RATIO)
        by (nonlinear_arith)
        requires
            u >= 0,
            0 <= peg1 <= peg2,
    ;
    lemma_div_is_ordered(
        u * peg1 * PRICE_TO_PEG_PRECISION_RATIO,
        u * peg2 * PRICE_TO_PEG_PRECISION_RATIO,
        base,
    );
}

/// Law: the price never rises when the base amount grows, all else equal.
pub proof fn lemma_price_antitone_in_base(u: int, base1: int, base2: int, peg: int)
    requires
        u >= 0,
        peg >= 0,
        0 < base1 <= base2,
    ensures
        price_of(u, base2, peg) <= price_of(u, base1, peg),
{
    assert(u * peg * PRICE_TO_PEG_PRECISION_RATIO >= 0) by (nonlinear_arith)
        requires
            u >= 0,
            peg >= 0,
    ;
    lemma_div_is_ordered_by_denominator(u * peg * PRICE_TO_PEG_PRECISION_RATIO, base1, base2);
}

/// Law (round trip): on reserves that satisfy the constant product exactly,
/// swapping an amount into the base reserve and then swapping the same
/// amount back out restores both reserves exactly.
pub proof fn lemma_swap_round_trip(x: int, base: int, quote: int, sqrt: int)
    requires
        base > 0,
        quote >= 0,
        x >= 0,
        quote < pow128(),
        base * quote == sqrt * sqrt,
        swap_ok(x, base, SwapDirection::Add, sqrt),
    ensures
        swap_new_input(x, base, SwapDirection::Add) == base + x,
        swap_new_input(x, base + x, SwapDirection::Remove) == base,
        swap_ok(x, base + x, SwapDirection::Remove, sqrt),
        swap_output(x, base + x, SwapDirection::Remove, sqrt) == quote,
{
    assert(quote * base == sqrt * sqrt) by (nonlinear_arith)
        requires
            base * quote == sqrt * sqrt,
    ;
    lemma_div_by_multiple(quote, base);
}

/// Law: averaging two identical samples yields that sample, for any
/// positive weights.
pub proof fn lemma_twap_identical_samples(v: int, new_weight: int, old_weight: int)
    requires
        new_weight > 0,
        old_weight > 0,
    ensures
        twap_of(v, v, new_weight, old_weight) == v,
{
    let d = new_weight + old_weight;
    assert(v * old_weight + v * new_weight == v * d) by (nonlinear_arith)
        requires
            d == new_weight + old_weight,
    ;
    if v > 0 {
        assert(v * d > 0) by (nonlinear_arith)
            requires
                v > 0,
                d > 0,
        ;
        lemma_div_by_multiple(v, d);
    }
    if v < 0 {
        assert(v * d < 0 && (v * d) * -1 == (v * -1) * d) by (nonlinear_arith)
            requires
                v < 0,
                d > 0,
        ;
        lemma_div_by_multiple(v * -1, d);
    }
}

/// The cross-multiplied comparison behind weight monotonicity: the
/// difference of the two cross products factors into a product of
/// nonnegative terms.
#[verifier::rlimit(100)]
proof fn lemma_blend_cross(new_data: int, old_data: int, ow: int, nw1: int, nw2: int)
    by (nonlinear_arith)
    requires
        ow > 0,
        0 < nw1 <= nw2,
        old_data <= new_data,
    ensures
        (old_data * ow + new_data * nw1) * (nw2 + ow) <= (old_data * ow + new_data * nw2) * (nw1
            + ow),
{
}

/// Quotients of nonnegative fractions are ordered as the fractions are:
/// `a/b <= c/d` follows from `a*d <= c*b`.
proof fn lemma_div_frac_ordered_nonneg(a: int, b: int, c: int, d: int)
    requires
        a >= 0,
        c >= 0,
        b > 0,
        d > 0,
        a * d <= c * b,
    ensures
        a / b <= c / d,
{
    lemma_fundamental_div_mod(a, b);
    lemma_fundamental_div_mod(c, d);
    lemma_mod_division_less_than_divisor(a, b);
    lemma_mod_division_less_than_divisor(c, d);
    if a / b > c / d {
        assert(false) by (nonlinear_arith)
            requires
                a == b * (a / b) + a % b,
                c == d * (c / d) + c % d,
                0 <= a % b < b,
                0 <= c % d < d,
                a * d <= c * b,
                a / b >= c / d + 1,
                b > 0,
                d > 0,
        ;
    }
}

/// Truncating division respects the rational ordering of its operands:
/// if `a/b <= c/d` as rationals (stated cross-multiplied), the truncated
/// quotients are ordered the same way.
pub proof fn lemma_div_trunc_ordered(a: int, b: int, c: int, d: int)
    requires
        b > 0,
        d > 0,
        a * d <= c * b,
    ensures
        div_trunc(a, b) <= div_trunc(c, d),
{
    if a >= 0 && c >= 0 {
        lemma_div_frac_ordered_nonneg(a, b, c, d);
    } else if a < 0 && c >= 0 {
        lemma_div_pos_is_pos(a * -1, b);
        lemma_div_pos_is_pos(c, d);
    } else if a >= 0 && c < 0 {
        assert(a * d >= 0) by (nonlinear_arith)
            requires
                a >= 0,
                d > 0,
        ;
        assert(c * b < 0) by (nonlinear_arith)
            requires
                c < 0,
                b > 0,
        ;
    } else {
        assert((c * -1) * b <= (a * -1) * d) by (nonlinear_arith)
            requires
                a * d <= c * b,
        ;
        lemma_div_frac_ordered_nonneg(c * -1, d, a * -1, b);
    }
}

/// Law (weight monotonicity, upward): with both values and the old weight
/// fixed and the new value at least the old one, a larger new weight never
/// moves the blend away from the new value.
pub proof fn lemma_twap_weight_monotone(
    new_data: int,
    old_data: int,
    old_weight: int,
    new_weight1: int,
    new_weight2: int,
)
    requires
        old_weight > 0,
        0 < new_weight1 <= new_weight2,
        old_data <= new_data,
    ensures
        twap_of(new_data, old_data, new_weight1, old_weight) <= twap_of(
            new_data,
            old_data,
            new_weight2,
            old_weight,
        ),
{
    let a = old_data * old_weight + new_data * new_weight1;
    let b = new_weight1 + old_weight;
    let c = old_data * old_weight + new_data * new_weight2;
    let d = new_weight2 + old_weight;
    lemma_blend_cross(new_data, old_data, old_weight, new_weight1, new_weight2);
    lemma_div_trunc_ordered(a, b, c, d);
}

/// Law (weight monotonicity, downward): with the new value at most the old
/// one, a larger new weight never moves the blend away from the new value.
pub proof fn lemma_twap_weight_monotone_down(
    new_data: int,
    old_data: int,
    old_weight: int,
    new_weight1: int,
    new_weight2: int,
)
    requires
        old_weight > 0,
        0 < new_weight1 <= new_weight2,
        new_data <= old_data,
    ensures
        twap_of(new_data, old_data, new_weight2, old_weight) <= twap_of(
            new_data,
            old_data,
            new_weight1,
            old_weight,
        ),
{
    let a = old_data * old_weight + new_data * new_weight2;
    let b = new_weight2 + old_weight;
    let c = old_data * old_weight + new_data * new_weight1;
    let d = new_weight1 + old_weight;
    lemma_blend_cross(-new_data, -old_data, old_weight, new_weight1, new_weight2);
    assert((-old_data * old_weight + -new_data * new_weight1) * (new_weight2 + old_weight) <= (
    -old_data * old_weight + -new_data * new_weight2) * (new_weight1 + old_weight));
    assert(a * d <= c * b) by (nonlinear_arith)
        requires
            ((-old_data) * old_weight + (-new_data) * new_weight1) * (new_weight2 + old_weight) <= (
            (-old_data) * old_weight + (-new_data) * new_weight2) * (new_weight1 + old_weight),
            a == old_data * old_weight + new_data * new_weight2,
            b == new_weight2 + old_weight,
            c == old_data * old_weight + new_data * new_weight1,
            d == new_weight1 + old_weight,
    ;
    lemma_div_trunc_ordered(a, b, c, d);
}

/// Law: a zero spread is never reported divergent, whatever the guard-rail
/// fraction is.
pub proof fn lemma_zero_spread_never_divergent(rails: PriceDivergenceGuardRails)
    requires
        rails.mark_oracle_divergence_denominator != 0,
    ensures
        !too_divergent(0, rails),
{
    lemma_div_pos_is_pos(
        rails.mark_oracle_divergence_numerator * 1024,
        rails.mark_oracle_divergence_denominator as int,
    );
}

/// Law: a non-positive reference price is never reported valid, whatever
/// the other fields and guard-rails say.
pub proof fn lemma_nonpositive_price_never_valid(
    oracle: OraclePriceData,
    rails: ValidityGuardRails,
)
    requires
        oracle.price <= 0,
    ensures
        !oracle_valid_of(oracle, rails),
{
}

/// Law: a reference sample older than the staleness bound is never
/// reported valid.
pub proof fn lemma_stale_never_valid(oracle: OraclePriceData, rails: ValidityGuardRails)
    requires
        oracle.delay > rails.slots_before_stale,
    ensures
        !oracle_valid_of(oracle, rails),
{
}

/// Law: rescaling the invariant of a flat market (zero net position) costs
/// nothing.
pub proof fn lemma_flat_market_rescale_free(m: Market, new_sqrt_k: int)
    requires
        m.base_asset_amount == 0,
    ensures
        adjust_k_cost_of(m, new_sqrt_k) == 0,
{
}

} // verus!
