//! Arithmetic faults.

use vstd::prelude::*;

verus! {

/// A fault of 256-bit arithmetic. A computation that meets one stops and
/// reports it: no wrapped or truncated number is ever handed on.
#[derive(Clone, Copy, Debug, PartialEq, Eq, Structural)]
pub enum ArithmeticError {
    /// A sum or a product does not fit in 256 bits.
    ArithmeticOverflow,
    /// The divisor is zero.
    DivisionByZero,
}

} // verus!
