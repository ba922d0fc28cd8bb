//! Arbitrary-precision numbers for data-processing pipelines: a signed big
//! integer and a decimal (coefficient times a power of ten), with exact
//! promotion rules, truncating division, and canonical byte and string
//! encodings. The arithmetic engines are outside crates; every contract in
//! this crate is stated over the mathematical values they compute.

use vstd::prelude::*;

pub mod arith;
pub mod backend;
pub mod bytes;
pub mod promote;
pub mod text;
pub mod decimal;
pub mod decspec;
pub mod integer;
pub mod laws;

pub use crate::decimal::{BigDecimal, DecView};
pub use crate::integer::BigInt;
pub use crate::promote::{DecOperand, IntOperand};

verus! {

/// Sign of a big integer: negative, zero, or positive.
#[derive(Debug, PartialEq, Eq, Structural, Clone, Copy)]
pub enum Sign {
    Minus,
    NoSign,
    Plus,
}

/// The sign that classifies the integer `i`.
pub open spec fn sign_of_int(i: int) -> Sign {
    if i < 0 {
        Sign::Minus
    } else if i == 0 {
        Sign::NoSign
    } else {
        Sign::Plus
    }
}

/// Error returned when a `BigInt` does not fit in a fixed-width integer.
#[derive(Debug, PartialEq, Eq, Structural, Clone, Copy)]
pub enum BigIntOutOfRangeError {
    /// The value was negative and the target type is unsigned.
    Negative,
    /// The magnitude of the value exceeds the target type's range.
    Overflow,
}

/// Error returned when a numeric literal does not match the grammar the
/// parser accepts.
#[derive(Debug, PartialEq, Eq, Structural, Clone, Copy)]
pub enum ParseNumError {
    Invalid,
}

} // verus!
