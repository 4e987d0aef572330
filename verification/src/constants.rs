//! Fixed-point precision constants shared by the pricing components.

use vstd::prelude::*;

verus! {

/// Precision of a quoted mark price (ten decimal places).
pub const MARK_PRICE_PRECISION: u128 = 10_000_000_000;

/// Precision of the peg multiplier (three decimal places).
pub const PEG_PRECISION: u128 = 1_000;

/// `MARK_PRICE_PRECISION / PEG_PRECISION`: scales a peg-weighted reserve
/// ratio into mark-price precision.
pub const PRICE_TO_PEG_PRECISION_RATIO: u128 = 10_000_000;

/// Nominal averaging window of the TWAP engine, in seconds.
pub const ONE_HOUR: i128 = 3600;

} // verus!
