//! Market state and caller-supplied configuration.

use vstd::prelude::*;

use crate::amm::{calculate_price, price_of, price_ok};
use crate::error::ClearingHouseResult;

verus! {

/// Which side of a swap the incoming amount lands on: `Add` grows the input
/// reserve, `Remove` shrinks it.
#[derive(Clone, Copy, Debug, PartialEq, Eq, Structural)]
pub enum SwapDirection {
    Add,
    Remove,
}

/// Pricing sub-state of one market: virtual reserves, the invariant scale,
/// the peg, and the two running TWAPs with their timestamps.
#[derive(Clone, Copy, Debug, PartialEq, Eq, Structural)]
pub struct AMM {
    pub base_asset_reserve: u128,
    pub quote_asset_reserve: u128,
    pub sqrt_k: u128,
    pub peg_multiplier: u128,
    pub last_mark_price_twap: u128,
    pub last_mark_price_twap_ts: i64,
    pub last_oracle_price_twap: i128,
    pub last_oracle_price_twap_ts: i64,
}

/// One synthetic trading venue: the net open position across all traders
/// (positive means net long) and the pricing sub-state.
#[derive(Clone, Copy, Debug, PartialEq, Eq, Structural)]
pub struct Market {
    pub base_asset_amount: i128,
    pub amm: AMM,
}

/// The already-decoded output of the external reference-price collaborator:
/// instantaneous price, its time-weighted average, the confidence widths of
/// both, and the age of the sample in slots. Decoding the reference account
/// is the collaborator's responsibility; this library only consumes these
/// five values.
#[derive(Clone, Copy, Debug, PartialEq, Eq, Structural)]
pub struct OraclePriceData {
    pub price: i128,
    pub twap: i128,
    pub confidence: u128,
    pub twap_confidence: u128,
    pub delay: u64,
}

/// Divergence guard-rail: the largest tolerated mark/reference spread, as a
/// rational `numerator / denominator` to avoid precision loss at
/// configuration time.
#[derive(Clone, Copy, Debug, PartialEq, Eq, Structural)]
pub struct PriceDivergenceGuardRails {
    pub mark_oracle_divergence_numerator: u128,
    pub mark_oracle_divergence_denominator: u128,
}

/// Validity guard-rails for the reference price: the largest tolerated
/// price/TWAP ratio, the smallest tolerated price-to-confidence ratio, and
/// the staleness bound in slots.
#[derive(Clone, Copy, Debug, PartialEq, Eq, Structural)]
pub struct ValidityGuardRails {
    pub too_volatile_ratio: i128,
    pub confidence_interval_max_size: u128,
    pub slots_before_stale: u64,
}

impl AMM {
    /// The live mark price derived from the current reserves and peg.
    pub fn mark_price(&self) -> (res: ClearingHouseResult<u128>)
        ensures
            match res {
                Ok(v) => price_ok(
                    self.quote_asset_reserve as int,
                    self.base_asset_reserve as int,
                    self.peg_multiplier as int,
                ) && v == price_of(
                    self.quote_asset_reserve as int,
                    self.base_asset_reserve as int,
                    self.peg_multiplier as int,
                ),
                Err(_) => !price_ok(
                    self.quote_asset_reserve as int,
                    self.base_asset_reserve as int,
                    self.peg_multiplier as int,
                ),
            },
    {
        calculate_price(self.quote_asset_reserve, self.base_asset_reserve, self.peg_multiplier)
    }
}

} // verus!
