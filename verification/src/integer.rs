//! Arbitrary-precision signed integer with value semantics.

use vstd::prelude::*;

use num_bigint::BigInt as NumBigInt;

use crate::arith::{abs_int, pow_int, sign_int, trunc_div, trunc_rem};
use crate::backend::{
    bit_and_int, bit_or_int, bit_xor_int, bytes_as_str, int_of, nb_abs, nb_add, nb_bitand,
    nb_bitor, nb_bitxor, nb_bits, nb_clone, nb_div_rem, nb_eq, nb_from_bytes_be, nb_from_bytes_le,
    nb_from_i64, nb_from_signed_bytes_be, nb_from_signed_bytes_le, nb_from_str, nb_from_u64,
    nb_cmp, nb_is_one, nb_is_zero, nb_mul, nb_neg, nb_new, nb_pow, nb_shl, nb_shr, nb_sub,
    nb_to_bytes_be, nb_to_bytes_le, nb_to_i32, nb_to_u32, nb_to_signed_bytes_be, nb_to_signed_bytes_le,
    nb_to_string, nb_to_u64,
};
use crate::bytes::{
    lemma_pow256_values, lemma_ule_bytes_len, lemma_ule_round_trip, lemma_ule_val_bound,
    lemma_ule_val_push, sle_bytes, sle_val, u32le_val, ube_val, ule_bytes, ule_val,
};
use crate::promote::IntOperand;
use crate::text::{ascii_chars, int_literal_ok, int_literal_val, str_of_int};
use crate::{sign_of_int, BigIntOutOfRangeError, ParseNumError, Sign};

verus! {

/// Arbitrary-precision signed integer. Its view is the mathematical
/// integer it denotes.
pub struct BigInt {
    inner: NumBigInt,
}

impl View for BigInt {
    type V = int;

    closed spec fn view(&self) -> int {
        int_of(self.inner)
    }
}

impl Clone for BigInt {
    /// The copy denotes the same integer.
    fn clone(&self) -> (r: Self)
        ensures
            r@ == self@,
    {
        BigInt { inner: nb_clone(&self.inner) }
    }
}

impl PartialEq for BigInt {
    /// Equality is value equality.
    fn eq(&self, other: &Self) -> (r: bool)
        ensures
            r == (self@ == other@),
    {
        nb_eq(&self.inner, &other.inner)
    }
}

impl vstd::std_specs::cmp::PartialEqSpecImpl for BigInt {
    open spec fn obeys_eq_spec() -> bool {
        true
    }

    open spec fn eq_spec(&self, other: &Self) -> bool {
        self@ == other@
    }
}

impl PartialOrd for BigInt {
    /// The ordering is total and numeric.
    fn partial_cmp(&self, other: &Self) -> (r: Option<core::cmp::Ordering>)
        ensures
            r == Some(
                if self@ < other@ {
                    core::cmp::Ordering::Less
                } else if self@ == other@ {
                    core::cmp::Ordering::Equal
                } else {
                    core::cmp::Ordering::Greater
                },
            ),
    {
        Some(nb_cmp(&self.inner, &other.inner))
    }
}

impl vstd::std_specs::cmp::PartialOrdSpecImpl for BigInt {
    open spec fn obeys_partial_cmp_spec() -> bool {
        true
    }

    open spec fn partial_cmp_spec(&self, other: &Self) -> Option<core::cmp::Ordering> {
        Some(
            if self@ < other@ {
                core::cmp::Ordering::Less
            } else if self@ == other@ {
                core::cmp::Ordering::Equal
            } else {
                core::cmp::Ordering::Greater
            },
        )
    }
}

impl Default for BigInt {
    /// The default value is zero.
    fn default() -> (r: Self)
        ensures
            r@ == 0,
    {
        BigInt::zero()
    }
}

/// The persisted form a store hands back: empty denotes zero, anything else
/// is an ASCII decimal integer literal.
pub open spec fn store_int_ok(b: Seq<u8>) -> bool {
    b.len() == 0 || ((forall|i: int| 0 <= i < b.len() ==> b[i] < 128) && int_literal_ok(
        ascii_chars(b),
    ))
}

/// Value denoted by a persisted buffer: zero when empty, else the literal's
/// value.
pub open spec fn store_int_val(b: Seq<u8>) -> int {
    if b.len() == 0 {
        0
    } else {
        int_literal_val(ascii_chars(b))
    }
}

impl BigInt {
    /// Hands the engine value over to a sibling module.
    pub(crate) fn into_inner(self) -> (r: NumBigInt)
        ensures
            int_of(r) == self@,
    {
        self.inner
    }

    /// Wraps an engine value produced by a sibling module.
    pub(crate) fn from_inner(inner: NumBigInt) -> (r: BigInt)
        ensures
            r@ == int_of(inner),
    {
        BigInt { inner }
    }

    /// Builds an integer from a sign and base-2^32 digits, least
    /// significant digit first; `NoSign` builds zero whatever the digits.
    pub fn new(sign: Sign, digits: Vec<u32>) -> (r: BigInt)
        ensures
            r@ == match sign {
                Sign::Minus => -u32le_val(digits@),
                Sign::NoSign => 0,
                Sign::Plus => u32le_val(digits@),
            },
    {
        BigInt { inner: nb_new(sign, digits) }
    }

    /// The integer zero.
    pub fn zero() -> (r: BigInt)
        ensures
            r@ == 0,
    {
        BigInt::from_i64(0)
    }

    /// The integer one.
    pub fn one() -> (r: BigInt)
        ensures
            r@ == 1,
    {
        BigInt::from_i64(1)
    }

    /// Exact conversion from a fixed-width signed integer.
    pub fn from_i64(n: i64) -> (r: BigInt)
        ensures
            r@ == n as int,
    {
        BigInt { inner: nb_from_i64(n) }
    }

    /// Exact conversion from a fixed-width unsigned integer.
    pub fn from_u64(n: u64) -> (r: BigInt)
        ensures
            r@ == n as int,
    {
        BigInt { inner: nb_from_u64(n) }
    }

    /// Parses a decimal integer literal: an optional sign, then digits
    /// (with `_` separators); rejects anything else.
    pub fn from_str(s: &str) -> (r: Result<BigInt, ParseNumError>)
        ensures
            r is Ok <==> int_literal_ok(s@),
            r matches Ok(v) ==> v@ == int_literal_val(s@),
            r matches Err(e) ==> e == ParseNumError::Invalid,
    {
        match nb_from_str(s) {
            Ok(v) => Ok(BigInt { inner: v }),
            Err(_) => Err(ParseNumError::Invalid),
        }
    }

    /// Reads an unsigned big-endian magnitude (leading zeros allowed).
    pub fn from_unsigned_bytes_be(bytes: &[u8]) -> (r: BigInt)
        ensures
            r@ == ube_val(bytes@),
    {
        BigInt { inner: nb_from_bytes_be(Sign::Plus, bytes) }
    }

    /// Reads an unsigned little-endian magnitude (trailing zeros allowed).
    pub fn from_unsigned_bytes_le(bytes: &[u8]) -> (r: BigInt)
        ensures
            r@ == ule_val(bytes@),
    {
        BigInt { inner: nb_from_bytes_le(Sign::Plus, bytes) }
    }

    /// Reads two's-complement little-endian bytes; empty denotes zero.
    pub fn from_signed_bytes_le(bytes: &[u8]) -> (r: BigInt)
        ensures
            r@ == sle_val(bytes@),
    {
        BigInt { inner: nb_from_signed_bytes_le(bytes) }
    }

    /// Reads two's-complement big-endian bytes; empty denotes zero.
    pub fn from_signed_bytes_be(bytes: &[u8]) -> (r: BigInt)
        ensures
            r@ == sle_val(bytes@.reverse()),
    {
        BigInt { inner: nb_from_signed_bytes_be(bytes) }
    }

    /// Reads an unsigned little-endian magnitude and applies the sign;
    /// `NoSign` yields zero whatever the bytes.
    pub fn from_bytes_le(sign: Sign, bytes: &[u8]) -> (r: BigInt)
        ensures
            r@ == match sign {
                Sign::Minus => -ule_val(bytes@),
                Sign::NoSign => 0,
                Sign::Plus => ule_val(bytes@),
            },
    {
        BigInt { inner: nb_from_bytes_le(sign, bytes) }
    }

    /// The sign and the canonical little-endian bytes of the magnitude
    /// (a single zero byte for zero).
    pub fn to_bytes_le(&self) -> (r: (Sign, Vec<u8>))
        ensures
            r.0 == sign_of_int(self@),
            r.1@ == ule_bytes(abs_int(self@) as nat),
    {
        nb_to_bytes_le(&self.inner)
    }

    /// The sign and the canonical big-endian bytes of the magnitude
    /// (a single zero byte for zero).
    pub fn to_bytes_be(&self) -> (r: (Sign, Vec<u8>))
        ensures
            r.0 == sign_of_int(self@),
            r.1@ == crate::bytes::ube_bytes(abs_int(self@) as nat),
    {
        nb_to_bytes_be(&self.inner)
    }

    /// The canonical two's-complement little-endian encoding.
    pub fn to_signed_bytes_le(&self) -> (r: Vec<u8>)
        ensures
            r@ == sle_bytes(self@),
    {
        nb_to_signed_bytes_le(&self.inner)
    }

    /// The canonical two's-complement big-endian encoding.
    pub fn to_signed_bytes_be(&self) -> (r: Vec<u8>)
        ensures
            r@ == sle_bytes(self@).reverse(),
    {
        nb_to_signed_bytes_be(&self.inner)
    }

    /// Narrows to `u64`; the value must be in range (out-of-range input is
    /// the caller's fault, as for every narrowing except `try_to_u64`).
    pub fn to_u64(&self) -> (r: u64)
        requires
            0 <= self@ <= u64::MAX,
        ensures
            r as int == self@,
    {
        match nb_to_u64(&self.inner) {
            Some(v) => v,
            None => vstd::pervasive::unreached(),
        }
    }

    /// Narrows to `i32`; the value must be in range.
    pub fn to_i32(&self) -> (r: i32)
        requires
            i32::MIN <= self@ <= i32::MAX,
        ensures
            r as int == self@,
    {
        match nb_to_i32(&self.inner) {
            Some(v) => v,
            None => vstd::pervasive::unreached(),
        }
    }

    /// Narrows to `u32`; the value must be in range.
    pub fn to_u32(&self) -> (r: u32)
        requires
            0 <= self@ <= u32::MAX,
        ensures
            r as int == self@,
    {
        match nb_to_u32(&self.inner) {
            Some(v) => v,
            None => vstd::pervasive::unreached(),
        }
    }

    /// Checked narrowing to `u64`: reports a negative value or one whose
    /// magnitude exceeds 64 bits, the one recoverable narrowing.
    pub fn try_to_u64(&self) -> (r: Result<u64, BigIntOutOfRangeError>)
        ensures
            self@ < 0 ==> r == Err::<u64, BigIntOutOfRangeError>(BigIntOutOfRangeError::Negative),
            self@ > u64::MAX ==> r == Err::<u64, BigIntOutOfRangeError>(
                BigIntOutOfRangeError::Overflow,
            ),
            0 <= self@ <= u64::MAX ==> r == Ok::<u64, BigIntOutOfRangeError>(self@ as u64),
    {
        let (sign, bytes) = self.to_bytes_le();
        if sign == Sign::Minus {
            return Err(BigIntOutOfRangeError::Negative);
        }
        let ghost v = abs_int(self@) as nat;
        proof {
            lemma_ule_round_trip(v);
            lemma_ule_bytes_len(v);
            lemma_pow256_values();
        }
        if bytes.len() > 8 {
            proof {
                crate::arith::lemma_pow_int_increases(256, 8, (bytes@.len() - 1) as nat);
            }
            return Err(BigIntOutOfRangeError::Overflow);
        }
        proof {
            crate::arith::lemma_pow_int_increases(256, bytes@.len() as nat, 8);
        }
        let mut n: u64 = 0;
        let mut m: u64 = 1;
        let mut i: usize = 0;
        while i < bytes.len()
            invariant
                0 <= i <= bytes@.len() <= 8,
                bytes@ == ule_bytes(v),
                self@ >= 0,
                v == self@,
                ule_val(bytes@) == v,
                n as int == ule_val(bytes@.take(i as int)),
                i < bytes@.len() ==> m as int == pow_int(256, i as nat),
            decreases bytes@.len() - i,
        {
            proof {
                lemma_pow256_values();
                lemma_ule_val_bound(bytes@.take(i as int));
                lemma_ule_val_push(bytes@.take(i as int), bytes@[i as int]);
                assert(bytes@.take(i as int).push(bytes@[i as int]) =~= bytes@.take(i + 1));
                crate::arith::lemma_pow_int_increases(256, (i + 1) as nat, 8);
                crate::arith::lemma_pow_int_pos(256, i as nat);
                assert(bytes@[i as int] * pow_int(256, i as nat) <= 255 * pow_int(256, i as nat))
                    by (nonlinear_arith)
                    requires
                        0 <= bytes@[i as int] <= 255,
                        pow_int(256, i as nat) >= 1,
                ;
                assert(pow_int(256, (i + 1) as nat) == 256 * pow_int(256, i as nat));
            }
            let b = bytes[i];
            n = n + (b as u64) * m;
            i = i + 1;
            if i < bytes.len() {
                proof {
                    crate::arith::lemma_pow_int_increases(256, i as nat, 7);
                }
                m = m * 256;
            }
        }
        proof {
            assert(bytes@.take(bytes@.len() as int) =~= bytes@);
        }
        Ok(n)
    }

    /// Exact exponentiation by a fixed-width exponent.
    pub fn pow(self, exponent: u32) -> (r: BigInt)
        ensures
            r@ == pow_int(self@, exponent as nat),
    {
        BigInt { inner: nb_pow(&self.inner, exponent) }
    }

    /// Bit length of the magnitude: 0 for zero, else the position of the
    /// highest set bit plus one.
    pub fn bits(&self) -> (r: u64)
        ensures
            self@ == 0 ==> r == 0,
            self@ != 0 ==> r >= 1 && pow_int(2, (r - 1) as nat) <= abs_int(self@) < pow_int(
                2,
                r as nat,
            ),
    {
        nb_bits(&self.inner)
    }

    /// Whether the value is zero.
    pub fn is_zero(&self) -> (r: bool)
        ensures
            r == (self@ == 0),
    {
        nb_is_zero(&self.inner)
    }

    /// Whether the value is one.
    pub fn is_one(&self) -> (r: bool)
        ensures
            r == (self@ == 1),
    {
        nb_is_one(&self.inner)
    }

    /// Exact negation.
    pub fn neg(&self) -> (r: BigInt)
        ensures
            r@ == -self@,
    {
        BigInt { inner: nb_neg(&self.inner) }
    }

    /// Reads a persisted buffer: empty denotes zero, anything else must be
    /// a decimal integer literal (corrupt store data is a fatal condition
    /// and is excluded here, not reported).
    pub fn from_store_bytes(bytes: &[u8]) -> (r: BigInt)
        requires
            store_int_ok(bytes@),
        ensures
            r@ == store_int_val(bytes@),
    {
        if bytes.len() == 0 {
            return BigInt::zero();
        }
        match bytes_as_str(bytes) {
            Ok(s) => {
                proof {
                    assert(s@ =~= ascii_chars(bytes@));
                }
                match BigInt::from_str(s) {
                    Ok(v) => v,
                    Err(_) => vstd::pervasive::unreached(),
                }
            },
            Err(_) => vstd::pervasive::unreached(),
        }
    }

    /// Exact absolute value.
    pub fn absolute(&self) -> (r: BigInt)
        ensures
            r@ == abs_int(self@),
    {
        BigInt { inner: nb_abs(&self.inner) }
    }

    /// Truncating division with remainder: the quotient is rounded toward
    /// zero and the identity `a == b*q + r` holds, with `|r| < |b|` and `r`
    /// zero or signed like the dividend.
    pub fn div_rem(&self, other: &BigInt) -> (r: (BigInt, BigInt))
        requires
            other@ != 0,
        ensures
            r.0@ == trunc_div(self@, other@),
            r.1@ == trunc_rem(self@, other@),
            self@ == other@ * r.0@ + r.1@,
            abs_int(r.1@) < abs_int(other@),
            r.1@ == 0 || sign_int(r.1@) == sign_int(self@),
    {
        proof {
            crate::arith::lemma_trunc_div_rem(self@, other@);
        }
        let (q, m) = nb_div_rem(&self.inner, &other.inner);
        (BigInt { inner: q }, BigInt { inner: m })
    }

    /// The canonical decimal rendering: a `-` sign when negative, then the
    /// digits of the magnitude, no leading zeros.
    pub fn to_string(&self) -> (r: String)
        ensures
            r@ == str_of_int(self@),
    {
        nb_to_string(&self.inner)
    }

    /// Exact addition; a fixed-width operand is promoted first.
    pub fn add<T: IntOperand>(self, other: T) -> (r: BigInt)
        ensures
            r@ == self@ + other.as_int(),
    {
        let rhs = other.to_big_int();
        BigInt { inner: nb_add(&self.inner, &rhs.inner) }
    }

    /// Exact subtraction; a fixed-width operand is promoted first.
    pub fn sub<T: IntOperand>(self, other: T) -> (r: BigInt)
        ensures
            r@ == self@ - other.as_int(),
    {
        let rhs = other.to_big_int();
        BigInt { inner: nb_sub(&self.inner, &rhs.inner) }
    }

    /// Exact multiplication; a fixed-width operand is promoted first.
    pub fn mul<T: IntOperand>(self, other: T) -> (r: BigInt)
        ensures
            r@ == self@ * other.as_int(),
    {
        let rhs = other.to_big_int();
        BigInt { inner: nb_mul(&self.inner, &rhs.inner) }
    }

    /// Truncating division (the divisor must not be zero: dividing by zero
    /// is a fatal condition).
    pub fn div<T: IntOperand>(self, other: T) -> (r: BigInt)
        requires
            other.as_int() != 0,
        ensures
            r@ == trunc_div(self@, other.as_int()),
    {
        let rhs = other.to_big_int();
        let (q, _) = nb_div_rem(&self.inner, &rhs.inner);
        BigInt { inner: q }
    }

    /// Remainder of truncating division (the divisor must not be zero).
    pub fn rem<T: IntOperand>(self, other: T) -> (r: BigInt)
        requires
            other.as_int() != 0,
        ensures
            r@ == trunc_rem(self@, other.as_int()),
    {
        let rhs = other.to_big_int();
        let (_, m) = nb_div_rem(&self.inner, &rhs.inner);
        BigInt { inner: m }
    }

    /// Bitwise AND over the two's-complement views.
    pub fn bitand<T: IntOperand>(self, other: T) -> (r: BigInt)
        ensures
            r@ == bit_and_int(self@, other.as_int()),
    {
        let rhs = other.to_big_int();
        BigInt { inner: nb_bitand(&self.inner, &rhs.inner) }
    }

    /// Bitwise OR over the two's-complement views.
    pub fn bitor<T: IntOperand>(self, other: T) -> (r: BigInt)
        ensures
            r@ == bit_or_int(self@, other.as_int()),
    {
        let rhs = other.to_big_int();
        BigInt { inner: nb_bitor(&self.inner, &rhs.inner) }
    }

    /// Bitwise XOR over the two's-complement views.
    pub fn bitxor<T: IntOperand>(self, other: T) -> (r: BigInt)
        ensures
            r@ == bit_xor_int(self@, other.as_int()),
    {
        let rhs = other.to_big_int();
        BigInt { inner: nb_bitxor(&self.inner, &rhs.inner) }
    }

    /// Shift left: multiplies by 2^n.
    pub fn shl(self, n: u64) -> (r: BigInt)
        ensures
            r@ == self@ * pow_int(2, n as nat),
    {
        BigInt { inner: nb_shl(&self.inner, n) }
    }

    /// Shift right: divides by 2^n rounding toward negative infinity.
    pub fn shr(self, n: u64) -> (r: BigInt)
        ensures
            r@ == self@ / pow_int(2, n as nat),
    {
        BigInt { inner: nb_shr(&self.inner, n) }
    }

    /// In-place bitwise AND, with the same result as `bitand`.
    pub fn bitand_assign(&mut self, other: &BigInt)
        ensures
            final(self)@ == bit_and_int(old(self)@, other@),
    {
        self.inner = nb_bitand(&self.inner, &other.inner);
    }

    /// In-place bitwise OR, with the same result as `bitor`.
    pub fn bitor_assign(&mut self, other: &BigInt)
        ensures
            final(self)@ == bit_or_int(old(self)@, other@),
    {
        self.inner = nb_bitor(&self.inner, &other.inner);
    }

    /// In-place bitwise XOR, with the same result as `bitxor`.
    pub fn bitxor_assign(&mut self, other: &BigInt)
        ensures
            final(self)@ == bit_xor_int(old(self)@, other@),
    {
        self.inner = nb_bitxor(&self.inner, &other.inner);
    }

    /// In-place shift left, with the same result as `shl`.
    pub fn shl_assign(&mut self, n: u64)
        ensures
            final(self)@ == old(self)@ * pow_int(2, n as nat),
    {
        self.inner = nb_shl(&self.inner, n);
    }

    /// In-place shift right, with the same result as `shr`.
    pub fn shr_assign(&mut self, n: u64)
        ensures
            final(self)@ == old(self)@ / pow_int(2, n as nat),
    {
        self.inner = nb_shr(&self.inner, n);
    }
}

} // verus!
