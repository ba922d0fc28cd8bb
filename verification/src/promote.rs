//! Promotion of fixed-width integers into the arbitrary-precision types:
//! one capability trait per target, implemented once per primitive width,
//! in place of an operator impl for every width and direction.

use vstd::prelude::*;

use crate::decimal::{BigDecimal, DecView};
use crate::integer::BigInt;

verus! {

/// An operand that promotes losslessly into a `BigInt`.
pub trait IntOperand: Sized {
    /// The mathematical integer the operand denotes.
    spec fn as_int(&self) -> int;

    /// Promote the operand, preserving its value.
    fn to_big_int(self) -> (r: BigInt)
        ensures
            r@ == self.as_int(),
    ;
}

impl IntOperand for i8 {
    open spec fn as_int(&self) -> int {
        *self as int
    }

    fn to_big_int(self) -> (r: BigInt) {
        BigInt::from_i64(self as i64)
    }
}

impl IntOperand for i16 {
    open spec fn as_int(&self) -> int {
        *self as int
    }

    fn to_big_int(self) -> (r: BigInt) {
        BigInt::from_i64(self as i64)
    }
}

impl IntOperand for i32 {
    open spec fn as_int(&self) -> int {
        *self as int
    }

    fn to_big_int(self) -> (r: BigInt) {
        BigInt::from_i64(self as i64)
    }
}

impl IntOperand for i64 {
    open spec fn as_int(&self) -> int {
        *self as int
    }

    fn to_big_int(self) -> (r: BigInt) {
        BigInt::from_i64(self)
    }
}

impl IntOperand for isize {
    open spec fn as_int(&self) -> int {
        *self as int
    }

    fn to_big_int(self) -> (r: BigInt) {
        BigInt::from_i64(self as i64)
    }
}

impl IntOperand for u8 {
    open spec fn as_int(&self) -> int {
        *self as int
    }

    fn to_big_int(self) -> (r: BigInt) {
        BigInt::from_u64(self as u64)
    }
}

impl IntOperand for u16 {
    open spec fn as_int(&self) -> int {
        *self as int
    }

    fn to_big_int(self) -> (r: BigInt) {
        BigInt::from_u64(self as u64)
    }
}

impl IntOperand for u32 {
    open spec fn as_int(&self) -> int {
        *self as int
    }

    fn to_big_int(self) -> (r: BigInt) {
        BigInt::from_u64(self as u64)
    }
}

impl IntOperand for u64 {
    open spec fn as_int(&self) -> int {
        *self as int
    }

    fn to_big_int(self) -> (r: BigInt) {
        BigInt::from_u64(self)
    }
}

impl IntOperand for usize {
    open spec fn as_int(&self) -> int {
        *self as int
    }

    fn to_big_int(self) -> (r: BigInt) {
        BigInt::from_u64(self as u64)
    }
}

impl IntOperand for BigInt {
    open spec fn as_int(&self) -> int {
        self.view()
    }

    fn to_big_int(self) -> (r: BigInt) {
        self
    }
}

/// An operand that promotes losslessly into a `BigDecimal`: any operand
/// combined with a decimal yields a decimal.
pub trait DecOperand: Sized {
    /// The coefficient the operand denotes.
    spec fn as_unscaled(&self) -> int;

    /// The scale the operand denotes (zero for every integer).
    spec fn as_scale(&self) -> int;

    /// Promote the operand, preserving the pair it denotes.
    fn to_big_decimal(self) -> (r: BigDecimal)
        ensures
            r@ == (DecView { unscaled: self.as_unscaled(), scale: self.as_scale() }),
    ;
}

impl DecOperand for i32 {
    open spec fn as_unscaled(&self) -> int {
        *self as int
    }

    open spec fn as_scale(&self) -> int {
        0
    }

    fn to_big_decimal(self) -> (r: BigDecimal) {
        BigDecimal::from_i64(self as i64)
    }
}

impl DecOperand for u32 {
    open spec fn as_unscaled(&self) -> int {
        *self as int
    }

    open spec fn as_scale(&self) -> int {
        0
    }

    fn to_big_decimal(self) -> (r: BigDecimal) {
        BigDecimal::from_i64(self as i64)
    }
}

impl DecOperand for i64 {
    open spec fn as_unscaled(&self) -> int {
        *self as int
    }

    open spec fn as_scale(&self) -> int {
        0
    }

    fn to_big_decimal(self) -> (r: BigDecimal) {
        BigDecimal::from_i64(self)
    }
}

impl DecOperand for u64 {
    open spec fn as_unscaled(&self) -> int {
        *self as int
    }

    open spec fn as_scale(&self) -> int {
        0
    }

    fn to_big_decimal(self) -> (r: BigDecimal) {
        BigDecimal::from_bigint(BigInt::from_u64(self))
    }
}

impl DecOperand for usize {
    open spec fn as_unscaled(&self) -> int {
        *self as int
    }

    open spec fn as_scale(&self) -> int {
        0
    }

    fn to_big_decimal(self) -> (r: BigDecimal) {
        BigDecimal::from_bigint(BigInt::from_u64(self as u64))
    }
}

impl DecOperand for BigInt {
    open spec fn as_unscaled(&self) -> int {
        self.view()
    }

    open spec fn as_scale(&self) -> int {
        0
    }

    fn to_big_decimal(self) -> (r: BigDecimal) {
        BigDecimal::from_bigint(self)
    }
}

impl DecOperand for BigDecimal {
    open spec fn as_unscaled(&self) -> int {
        self.view().unscaled
    }

    open spec fn as_scale(&self) -> int {
        self.view().scale
    }

    fn to_big_decimal(self) -> (r: BigDecimal) {
        self
    }
}

} // verus!
