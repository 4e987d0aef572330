//! Pricing and consistency-checking engine of a virtual automated market
//! maker (vAMM) backing a perpetual-futures exchange.
//!
//! The two "reserves" of the AMM are virtual counters whose product is held
//! constant (or deliberately rebalanced) to derive an execution price for
//! synthetic positions. This crate derives prices from virtual reserves and a
//! peg multiplier, computes swap outputs under the constant-product
//! invariant, maintains time-weighted average prices for both the synthetic
//! market price and an external reference price, detects unsafe divergence or
//! staleness between the two, and prices the cost of rescaling the invariant.
//!
//! All arithmetic is exact, checked integer arithmetic; every overflow,
//! underflow, division by zero, or failed narrowing is reported as a
//! [`error::ErrorCode::MathError`] instead of wrapping or truncating.

pub mod amm;
pub mod bn;
pub mod constants;
pub mod error;
pub mod position;
pub mod state;
