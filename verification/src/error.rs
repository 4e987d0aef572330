//! The single error kind of the library: arithmetic failure.

use vstd::prelude::*;

verus! {

/// Raised whenever a checked add/sub/mul/div would overflow, underflow,
/// divide by zero, or narrow a value that does not fit the target width.
/// There is no distinct "invalid input" category: invalid inputs (zero
/// reserves, zero reference price) surface as the arithmetic failure of the
/// operation that first touches them.
#[derive(Clone, Copy, Debug, PartialEq, Eq, Structural)]
pub enum ErrorCode {
    MathError,
}

/// Result alias used by every fallible function of the library.
pub type ClearingHouseResult<T> = Result<T, ErrorCode>;

} // verus!
