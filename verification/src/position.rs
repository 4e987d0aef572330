//! Valuation of the net market position against the current reserves.
//!
//! The net position is valued by unwinding it: the absolute position is
//! swapped through the constant-product rule in the closing direction, and
//! the quote-reserve change, scaled by the peg, is the position's exit
//! value. The profit-and-loss delta measures that value against a
//! caller-supplied baseline, from the position's side.

use vstd::prelude::*;

use crate::amm::{calculate_swap_output, iabs, swap_ok, swap_output, unsigned_abs_i128};
use crate::bn::pow128;
use crate::constants::PEG_PRECISION;
use crate::error::{ClearingHouseResult, ErrorCode};
use crate::state::{SwapDirection, AMM};

verus! {

/// The direction that closes a net position: a net long is swapped back
/// into the base reserve, a net short is bought back out of it.
pub open spec fn close_direction(base: int) -> SwapDirection {
    if base > 0 {
        SwapDirection::Add
    } else {
        SwapDirection::Remove
    }
}

/// Whether the closing swap itself succeeds.
pub open spec fn close_swap_ok(base: int, amm: AMM) -> bool {
    swap_ok(iabs(base), amm.base_asset_reserve as int, close_direction(base), amm.sqrt_k as int)
}

/// The quote reserve after the closing swap.
pub open spec fn close_new_quote(base: int, amm: AMM) -> int {
    swap_output(iabs(base), amm.base_asset_reserve as int, close_direction(base), amm.sqrt_k as int)
}

/// The quote-reserve change produced by closing the net position: the
/// quote reserve falls when a long is closed and rises when a short is.
pub open spec fn reserve_delta(base: int, amm: AMM) -> int {
    if base > 0 {
        amm.quote_asset_reserve - close_new_quote(base, amm)
    } else {
        close_new_quote(base, amm) - amm.quote_asset_reserve
    }
}

/// The exit value of the net position: the quote-reserve change scaled by
/// the peg multiplier. A flat position is worth zero.
pub open spec fn base_value_of(base: int, amm: AMM) -> int {
    if base == 0 {
        0
    } else {
        (reserve_delta(base, amm) * amm.peg_multiplier) / (PEG_PRECISION as int)
    }
}

/// When `calculate_base_asset_value_and_pnl` succeeds: for a flat position
/// always; otherwise the closing swap succeeds, the reserve change has the
/// expected sign, the peg scaling does not overflow, and both the value and
/// the baseline fit in an `i128` for the profit-and-loss subtraction.
pub open spec fn base_value_ok(base: int, baseline: int, amm: AMM) -> bool {
    base == 0 || {
        &&& close_swap_ok(base, amm)
        &&& reserve_delta(base, amm) >= 0
        &&& reserve_delta(base, amm) * amm.peg_multiplier < pow128()
        &&& base_value_of(base, amm) <= i128::MAX
        &&& baseline <= i128::MAX
    }
}

/// The profit-and-loss delta of the position's value against a baseline:
/// measured from the baseline for a net long, toward it for a net short,
/// and zero for a flat position.
pub open spec fn pnl_of(base: int, baseline: int, amm: AMM) -> int {
    if base == 0 {
        0
    } else if base > 0 {
        base_value_of(base, amm) - baseline
    } else {
        baseline - base_value_of(base, amm)
    }
}

/// Values the net position against the reserves and measures the value
/// against the caller's baseline. Returns `(value, pnl_delta)`; a flat
/// position is `(0, 0)`. Fails if the closing swap fails, the reserve
/// change has the wrong sign, the peg scaling overflows, or value or
/// baseline do not fit in an `i128`.
pub fn calculate_base_asset_value_and_pnl(
    base_asset_amount: i128,
    quote_asset_amount: u128,
    amm: &AMM,
) -> (res: ClearingHouseResult<(u128, i128)>)
    ensures
        match res {
            Ok(v) => base_value_ok(base_asset_amount as int, quote_asset_amount as int, *amm)
                && v.0 == base_value_of(base_asset_amount as int, *amm) && v.1 == pnl_of(
                base_asset_amount as int,
                quote_asset_amount as int,
                *amm,
            ),
            Err(_) => !base_value_ok(base_asset_amount as int, quote_asset_amount as int, *amm),
        },
{
    if base_asset_amount == 0 {
        return Ok((0, 0));
    }
    let swap_direction = if base_asset_amount > 0 {
        SwapDirection::Add
    } else {
        SwapDirection::Remove
    };
    let (new_quote_asset_reserve, _new_base_asset_reserve) = match calculate_swap_output(
        unsigned_abs_i128(base_asset_amount),
        amm.base_asset_reserve,
        swap_direction,
        amm.sqrt_k,
    ) {
        Ok(v) => v,
        Err(e) => {
            return Err(e);
        },
    };
    let quote_reserve_change = if base_asset_amount > 0 {
        match amm.quote_asset_reserve.checked_sub(new_quote_asset_reserve) {
            Some(v) => v,
            None => {
                return Err(ErrorCode::MathError);
            },
        }
    } else {
        match new_quote_asset_reserve.checked_sub(amm.quote_asset_reserve) {
            Some(v) => v,
            None => {
                return Err(ErrorCode::MathError);
            },
        }
    };
    let scaled = match quote_reserve_change.checked_mul(amm.peg_multiplier) {
        Some(v) => v,
        None => {
            return Err(ErrorCode::MathError);
        },
    };
    let base_asset_value = scaled / PEG_PRECISION;
    if base_asset_value > (i128::MAX as u128) {
        return Err(ErrorCode::MathError);
    }
    if quote_asset_amount > (i128::MAX as u128) {
        return Err(ErrorCode::MathError);
    }
    let pnl = if base_asset_amount > 0 {
        (base_asset_value as i128) - (quote_asset_amount as i128)
    } else {
        (quote_asset_amount as i128) - (base_asset_value as i128)
    };
    Ok((base_asset_value, pnl))
}

} // verus!
