//! Trusted boundary around the arbitrary-precision engines.
//!
//! Every item in this module is believed, not proved: each wrapper's
//! contract states what the wrapped `num_bigint` or `bigdecimal` call
//! returns, as that crate's source shows it. Nothing else in this crate is
//! trusted.

use vstd::prelude::*;

use num_bigint::BigInt as NumBigInt;
use num_bigint::ParseBigIntError as NumParseError;
use num_integer::Integer;
use num_traits::{Pow, Signed, ToPrimitive, Zero, One};
use core::str::FromStr;

use bigdecimal::BigDecimal as RawDecimal;
use bigdecimal::ParseBigDecimalError as RawDecParseError;

use crate::arith::{abs_int, max_int, pow_int, trunc_div, trunc_rem};
use crate::decspec::{
    dec_digit_count, dec_display, dec_lit_scale_fits, dec_literal_ok, dec_lit_scale,
    dec_lit_unscaled, dec_same, dec_lt, dec_trunc, round_half_up_div,
};
use crate::bytes::{sle_bytes, sle_val, u32le_val, ube_bytes, ube_val, ule_bytes, ule_val};
use crate::text::{int_literal_ok, int_literal_val, str_of_int};
use crate::{sign_of_int, Sign};

verus! {

#[verifier::external_type_specification]
#[verifier::external_body]
pub struct ExNumBigInt(NumBigInt);

#[verifier::external_type_specification]
#[verifier::external_body]
pub struct ExNumParseError(NumParseError);

#[verifier::external_type_specification]
#[verifier::external_body]
pub struct ExUtf8Error(core::str::Utf8Error);

/// The mathematical integer that a `NumBigInt` denotes.
pub uninterp spec fn int_of(n: NumBigInt) -> int;

/// What `num_bigint`'s bitwise AND returns on the two's-complement views of
/// its operands; it depends on the operands' values alone.
pub uninterp spec fn bit_and_int(a: int, b: int) -> int;

/// What `num_bigint`'s bitwise OR returns; a function of the values alone.
pub uninterp spec fn bit_or_int(a: int, b: int) -> int;

/// What `num_bigint`'s bitwise XOR returns; a function of the values alone.
pub uninterp spec fn bit_xor_int(a: int, b: int) -> int;

// ---------- construction ----------

/// Relies on `NumBigInt: From<i64>`: exact conversion.
#[verifier::external_body]
pub(crate) fn nb_from_i64(n: i64) -> (r: NumBigInt)
    ensures
        int_of(r) == n as int,
{
    NumBigInt::from(n)
}

/// Relies on `NumBigInt: From<u64>`: exact conversion.
#[verifier::external_body]
pub(crate) fn nb_from_u64(n: u64) -> (r: NumBigInt)
    ensures
        int_of(r) == n as int,
{
    NumBigInt::from(n)
}

/// Relies on `NumBigInt::new`: the base-2^32 digits are least significant
/// first; a `NoSign` yields zero whatever the digits.
#[verifier::external_body]
pub(crate) fn nb_new(sign: Sign, digits: Vec<u32>) -> (r: NumBigInt)
    ensures
        int_of(r) == match sign {
            Sign::Minus => -u32le_val(digits@),
            Sign::NoSign => 0,
            Sign::Plus => u32le_val(digits@),
        },
{
    let s = match sign {
        Sign::Minus => num_bigint::Sign::Minus,
        Sign::NoSign => num_bigint::Sign::NoSign,
        Sign::Plus => num_bigint::Sign::Plus,
    };
    NumBigInt::new(s, digits)
}

/// Relies on `NumBigInt::from_str` (radix 10): accepts an optional sign
/// followed by a digit run with `_` separators, and returns its value.
#[verifier::external_body]
pub(crate) fn nb_from_str(s: &str) -> (r: Result<NumBigInt, NumParseError>)
    ensures
        r is Ok <==> int_literal_ok(s@),
        r matches Ok(v) ==> int_of(v) == int_literal_val(s@),
{
    NumBigInt::from_str(s)
}

/// Relies on `NumBigInt::from_bytes_be`: unsigned big-endian magnitude,
/// leading zeros allowed; `NoSign` yields zero.
#[verifier::external_body]
pub(crate) fn nb_from_bytes_be(sign: Sign, bytes: &[u8]) -> (r: NumBigInt)
    ensures
        int_of(r) == match sign {
            Sign::Minus => -ube_val(bytes@),
            Sign::NoSign => 0,
            Sign::Plus => ube_val(bytes@),
        },
{
    let s = match sign {
        Sign::Minus => num_bigint::Sign::Minus,
        Sign::NoSign => num_bigint::Sign::NoSign,
        Sign::Plus => num_bigint::Sign::Plus,
    };
    NumBigInt::from_bytes_be(s, bytes)
}

/// Relies on `NumBigInt::from_bytes_le`: unsigned little-endian magnitude,
/// trailing zeros allowed; `NoSign` yields zero.
#[verifier::external_body]
pub(crate) fn nb_from_bytes_le(sign: Sign, bytes: &[u8]) -> (r: NumBigInt)
    ensures
        int_of(r) == match sign {
            Sign::Minus => -ule_val(bytes@),
            Sign::NoSign => 0,
            Sign::Plus => ule_val(bytes@),
        },
{
    let s = match sign {
        Sign::Minus => num_bigint::Sign::Minus,
        Sign::NoSign => num_bigint::Sign::NoSign,
        Sign::Plus => num_bigint::Sign::Plus,
    };
    NumBigInt::from_bytes_le(s, bytes)
}

/// Relies on `NumBigInt::from_signed_bytes_be`: two's-complement big-endian,
/// any length; empty is zero.
#[verifier::external_body]
pub(crate) fn nb_from_signed_bytes_be(bytes: &[u8]) -> (r: NumBigInt)
    ensures
        int_of(r) == sle_val(bytes@.reverse()),
{
    NumBigInt::from_signed_bytes_be(bytes)
}

/// Relies on `NumBigInt::from_signed_bytes_le`: two's-complement
/// little-endian, any length; empty is zero.
#[verifier::external_body]
pub(crate) fn nb_from_signed_bytes_le(bytes: &[u8]) -> (r: NumBigInt)
    ensures
        int_of(r) == sle_val(bytes@),
{
    NumBigInt::from_signed_bytes_le(bytes)
}

// ---------- observation ----------

/// Relies on `NumBigInt`'s `PartialEq`: the representation is canonical, so
/// structural equality coincides with value equality.
#[verifier::external_body]
pub(crate) fn nb_eq(a: &NumBigInt, b: &NumBigInt) -> (r: bool)
    ensures
        r == (int_of(*a) == int_of(*b)),
{
    a == b
}

/// Relies on `NumBigInt`'s `Ord`: the ordering is the numeric one.
#[verifier::external_body]
pub(crate) fn nb_cmp(a: &NumBigInt, b: &NumBigInt) -> (r: core::cmp::Ordering)
    ensures
        r == (if int_of(*a) < int_of(*b) {
            core::cmp::Ordering::Less
        } else if int_of(*a) == int_of(*b) {
            core::cmp::Ordering::Equal
        } else {
            core::cmp::Ordering::Greater
        }),
{
    a.cmp(b)
}

/// Relies on `NumBigInt`'s `Clone`: the copy denotes the same value.
#[verifier::external_body]
pub(crate) fn nb_clone(a: &NumBigInt) -> (r: NumBigInt)
    ensures
        int_of(r) == int_of(*a),
{
    a.clone()
}

/// Relies on `Zero::is_zero` for `NumBigInt`.
#[verifier::external_body]
pub(crate) fn nb_is_zero(a: &NumBigInt) -> (r: bool)
    ensures
        r == (int_of(*a) == 0),
{
    a.is_zero()
}

/// Relies on `One::is_one` for `NumBigInt`.
#[verifier::external_body]
pub(crate) fn nb_is_one(a: &NumBigInt) -> (r: bool)
    ensures
        r == (int_of(*a) == 1),
{
    a.is_one()
}

/// Relies on `NumBigInt`'s `Display`: the canonical decimal rendering, a
/// `-` sign for negatives then the digits of the magnitude.
#[verifier::external_body]
pub(crate) fn nb_to_string(a: &NumBigInt) -> (r: String)
    ensures
        r@ == str_of_int(int_of(*a)),
{
    a.to_string()
}

/// Relies on `NumBigInt::to_bytes_be`: the sign and the canonical unsigned
/// big-endian bytes of the magnitude (a single zero byte for zero).
#[verifier::external_body]
pub(crate) fn nb_to_bytes_be(a: &NumBigInt) -> (r: (Sign, Vec<u8>))
    ensures
        r.0 == sign_of_int(int_of(*a)),
        r.1@ == ube_bytes(abs_int(int_of(*a)) as nat),
{
    let (s, v) = a.to_bytes_be();
    let sign = match s {
        num_bigint::Sign::Minus => Sign::Minus,
        num_bigint::Sign::NoSign => Sign::NoSign,
        num_bigint::Sign::Plus => Sign::Plus,
    };
    (sign, v)
}

/// Relies on `NumBigInt::to_bytes_le`: the sign and the canonical unsigned
/// little-endian bytes of the magnitude (a single zero byte for zero).
#[verifier::external_body]
pub(crate) fn nb_to_bytes_le(a: &NumBigInt) -> (r: (Sign, Vec<u8>))
    ensures
        r.0 == sign_of_int(int_of(*a)),
        r.1@ == ule_bytes(abs_int(int_of(*a)) as nat),
{
    let (s, v) = a.to_bytes_le();
    let sign = match s {
        num_bigint::Sign::Minus => Sign::Minus,
        num_bigint::Sign::NoSign => Sign::NoSign,
        num_bigint::Sign::Plus => Sign::Plus,
    };
    (sign, v)
}

/// Relies on `NumBigInt::to_signed_bytes_le`: the canonical two's-complement
/// little-endian encoding.
#[verifier::external_body]
pub(crate) fn nb_to_signed_bytes_le(a: &NumBigInt) -> (r: Vec<u8>)
    ensures
        r@ == sle_bytes(int_of(*a)),
{
    a.to_signed_bytes_le()
}

/// Relies on `NumBigInt::to_signed_bytes_be`: the canonical two's-complement
/// big-endian encoding, byte-reverse of the little-endian one.
#[verifier::external_body]
pub(crate) fn nb_to_signed_bytes_be(a: &NumBigInt) -> (r: Vec<u8>)
    ensures
        r@ == sle_bytes(int_of(*a)).reverse(),
{
    a.to_signed_bytes_be()
}

/// Relies on `ToPrimitive::to_u64` for `NumBigInt`: the exact value when it
/// fits, `None` otherwise.
#[verifier::external_body]
pub(crate) fn nb_to_u64(a: &NumBigInt) -> (r: Option<u64>)
    ensures
        r is Some <==> 0 <= int_of(*a) <= u64::MAX,
        r matches Some(v) ==> v as int == int_of(*a),
{
    a.to_u64()
}

/// Relies on `ToPrimitive::to_i32` for `NumBigInt`: the exact value when it
/// fits, `None` otherwise.
#[verifier::external_body]
pub(crate) fn nb_to_i32(a: &NumBigInt) -> (r: Option<i32>)
    ensures
        r is Some <==> i32::MIN <= int_of(*a) <= i32::MAX,
        r matches Some(v) ==> v as int == int_of(*a),
{
    a.to_i32()
}

/// Relies on `ToPrimitive::to_u32` for `NumBigInt`: the exact value when it
/// fits, `None` otherwise.
#[verifier::external_body]
pub(crate) fn nb_to_u32(a: &NumBigInt) -> (r: Option<u32>)
    ensures
        r is Some <==> 0 <= int_of(*a) <= u32::MAX,
        r matches Some(v) ==> v as int == int_of(*a),
{
    a.to_u32()
}

/// Relies on `NumBigInt::bits`: 0 for zero, else the bit length of the
/// magnitude.
#[verifier::external_body]
pub(crate) fn nb_bits(a: &NumBigInt) -> (r: u64)
    ensures
        int_of(*a) == 0 ==> r == 0,
        int_of(*a) != 0 ==> r >= 1 && crate::arith::pow_int(2, (r - 1) as nat) <= abs_int(
            int_of(*a),
        ) < crate::arith::pow_int(2, r as nat),
{
    a.bits()
}

// ---------- arithmetic ----------

/// Relies on `NumBigInt`'s `Add`: exact arbitrary-precision addition.
#[verifier::external_body]
pub(crate) fn nb_add(a: &NumBigInt, b: &NumBigInt) -> (r: NumBigInt)
    ensures
        int_of(r) == int_of(*a) + int_of(*b),
{
    a + b
}

/// Relies on `NumBigInt`'s `Sub`: exact arbitrary-precision subtraction.
#[verifier::external_body]
pub(crate) fn nb_sub(a: &NumBigInt, b: &NumBigInt) -> (r: NumBigInt)
    ensures
        int_of(r) == int_of(*a) - int_of(*b),
{
    a - b
}

/// Relies on `NumBigInt`'s `Mul`: exact arbitrary-precision multiplication.
#[verifier::external_body]
pub(crate) fn nb_mul(a: &NumBigInt, b: &NumBigInt) -> (r: NumBigInt)
    ensures
        int_of(r) == int_of(*a) * int_of(*b),
{
    a * b
}

/// Relies on `Integer::div_rem` for `NumBigInt`: quotient truncated toward
/// zero, remainder zero or signed like the dividend.
#[verifier::external_body]
pub(crate) fn nb_div_rem(a: &NumBigInt, b: &NumBigInt) -> (r: (NumBigInt, NumBigInt))
    requires
        int_of(*b) != 0,
    ensures
        int_of(r.0) == trunc_div(int_of(*a), int_of(*b)),
        int_of(r.1) == trunc_rem(int_of(*a), int_of(*b)),
{
    let (q, m) = Integer::div_rem(a, b);
    (q, m)
}

/// Relies on `NumBigInt`'s `Neg` (on a reference): exact negation.
#[verifier::external_body]
pub(crate) fn nb_neg(a: &NumBigInt) -> (r: NumBigInt)
    ensures
        int_of(r) == -int_of(*a),
{
    -a
}

/// Relies on `Signed::abs` for `NumBigInt`: exact absolute value.
#[verifier::external_body]
pub(crate) fn nb_abs(a: &NumBigInt) -> (r: NumBigInt)
    ensures
        int_of(r) == abs_int(int_of(*a)),
{
    a.abs()
}

/// Relies on `Pow<u32>` for `NumBigInt`: exact exponentiation.
#[verifier::external_body]
pub(crate) fn nb_pow(a: &NumBigInt, e: u32) -> (r: NumBigInt)
    ensures
        int_of(r) == crate::arith::pow_int(int_of(*a), e as nat),
{
    Pow::pow(a, e)
}

/// Relies on `Shl<u64>` for `NumBigInt`: multiplies by 2^n.
#[verifier::external_body]
pub(crate) fn nb_shl(a: &NumBigInt, n: u64) -> (r: NumBigInt)
    ensures
        int_of(r) == int_of(*a) * crate::arith::pow_int(2, n as nat),
{
    a << n
}

/// Relies on `Shr<u64>` for `NumBigInt`: divides by 2^n rounding toward
/// negative infinity.
#[verifier::external_body]
pub(crate) fn nb_shr(a: &NumBigInt, n: u64) -> (r: NumBigInt)
    ensures
        int_of(r) == int_of(*a) / crate::arith::pow_int(2, n as nat),
{
    a >> n
}

/// Relies on `BitAnd` for `NumBigInt`, acting on the two's-complement views.
#[verifier::external_body]
pub(crate) fn nb_bitand(a: &NumBigInt, b: &NumBigInt) -> (r: NumBigInt)
    ensures
        int_of(r) == bit_and_int(int_of(*a), int_of(*b)),
{
    a & b
}

/// Relies on `BitOr` for `NumBigInt`, acting on the two's-complement views.
#[verifier::external_body]
pub(crate) fn nb_bitor(a: &NumBigInt, b: &NumBigInt) -> (r: NumBigInt)
    ensures
        int_of(r) == bit_or_int(int_of(*a), int_of(*b)),
{
    a | b
}

/// Relies on `BitXor` for `NumBigInt`, acting on the two's-complement views.
#[verifier::external_body]
pub(crate) fn nb_bitxor(a: &NumBigInt, b: &NumBigInt) -> (r: NumBigInt)
    ensures
        int_of(r) == bit_xor_int(int_of(*a), int_of(*b)),
{
    a ^ b
}

// ---------- std helpers ----------

/// Relies on `core::str::from_utf8`: ASCII bytes are valid UTF-8 and decode
/// to one character per byte; a buffer with a byte outside ASCII either is
/// rejected or decodes some character outside ASCII (every multi-byte
/// sequence encodes a scalar value of at least 128).
#[verifier::external_body]
pub(crate) fn bytes_as_str(bytes: &[u8]) -> (r: Result<&str, core::str::Utf8Error>)
    ensures
        (forall|i: int| 0 <= i < bytes@.len() ==> bytes@[i] < 128) ==> r is Ok,
        r matches Ok(s) ==> ((forall|i: int| 0 <= i < bytes@.len() ==> bytes@[i] < 128) ==> (
        s@.len() == bytes@.len() && (forall|i: int|
            0 <= i < bytes@.len() ==> s@[i] == bytes@[i] as char))),
        r matches Ok(s) ==> ((exists|i: int| 0 <= i < bytes@.len() && bytes@[i] >= 128) ==> (
        exists|j: int| 0 <= j < s@.len() && #[trigger] s@[j] as int >= 128)),
{
    core::str::from_utf8(bytes)
}

// ---------- the decimal engine ----------

#[verifier::external_type_specification]
#[verifier::external_body]
pub struct ExRawDecimal(RawDecimal);

#[verifier::external_type_specification]
#[verifier::external_body]
pub struct ExRawDecParseError(RawDecParseError);

/// The coefficient that a `RawDecimal` stores: the number it denotes is
/// `dec_unscaled(d) / 10^dec_scale(d)`.
pub uninterp spec fn dec_unscaled(d: RawDecimal) -> int;

/// The scale that a `RawDecimal` stores alongside its coefficient.
pub uninterp spec fn dec_scale(d: RawDecimal) -> int;

/// What the decimal engine's division returns, as a (coefficient, scale)
/// pair, on the operand pairs its shortcuts do not cover; a function of the
/// operands' pairs alone.
pub uninterp spec fn dec_div_of(u1: int, s1: int, u2: int, s2: int) -> (int, int);

/// Relies on `RawDecimal::new`: stores the pair unchanged.
#[verifier::external_body]
pub(crate) fn bd_new(u: NumBigInt, scale: i64) -> (r: RawDecimal)
    ensures
        dec_unscaled(r) == int_of(u),
        dec_scale(r) == scale as int,
{
    RawDecimal::new(u, scale)
}

/// Relies on `RawDecimal::as_bigint_and_exponent`: hands back the stored
/// pair (so the stored scale always fits the fixed width).
#[verifier::external_body]
pub(crate) fn bd_parts(d: &RawDecimal) -> (r: (NumBigInt, i64))
    ensures
        int_of(r.0) == dec_unscaled(*d),
        r.1 as int == dec_scale(*d),
{
    d.as_bigint_and_exponent()
}

/// Relies on `RawDecimal`'s `Clone`: the copy stores the same pair.
#[verifier::external_body]
pub(crate) fn bd_clone(d: &RawDecimal) -> (r: RawDecimal)
    ensures
        dec_unscaled(r) == dec_unscaled(*d),
        dec_scale(r) == dec_scale(*d),
{
    d.clone()
}

/// Relies on `RawDecimal`'s `PartialEq`: equality compares the numbers
/// denoted, aligning the scales.
#[verifier::external_body]
pub(crate) fn bd_eq(a: &RawDecimal, b: &RawDecimal) -> (r: bool)
    requires
        -i64::MAX <= dec_scale(*a) - dec_scale(*b) <= i64::MAX,
    ensures
        r == dec_same(dec_unscaled(*a), dec_scale(*a), dec_unscaled(*b), dec_scale(*b)),
{
    a == b
}

/// Relies on `RawDecimal`'s `Ord`: the ordering compares the numbers
/// denoted, by sign and then by aligned subtraction.
#[verifier::external_body]
pub(crate) fn bd_cmp(a: &RawDecimal, b: &RawDecimal) -> (r: core::cmp::Ordering)
    requires
        -i64::MAX <= dec_scale(*a) - dec_scale(*b) <= i64::MAX,
    ensures
        r == (if dec_lt(dec_unscaled(*a), dec_scale(*a), dec_unscaled(*b), dec_scale(*b)) {
            core::cmp::Ordering::Less
        } else if dec_same(dec_unscaled(*a), dec_scale(*a), dec_unscaled(*b), dec_scale(*b)) {
            core::cmp::Ordering::Equal
        } else {
            core::cmp::Ordering::Greater
        }),
{
    a.cmp(b)
}

/// Relies on `Zero::is_zero` for `RawDecimal`: tests the coefficient.
#[verifier::external_body]
pub(crate) fn bd_is_zero(d: &RawDecimal) -> (r: bool)
    ensures
        r == (dec_unscaled(*d) == 0),
{
    bigdecimal::Zero::is_zero(d)
}

/// Relies on `RawDecimal::digits`: the count of decimal digits of the
/// coefficient's magnitude (one for zero).
#[verifier::external_body]
pub(crate) fn bd_digits(d: &RawDecimal) -> (r: u64)
    ensures
        r as int == dec_digit_count(dec_unscaled(*d)),
{
    d.digits()
}

/// Relies on `RawDecimal`'s `Add`: aligns to the larger scale and adds the
/// aligned coefficients.
#[verifier::external_body]
pub(crate) fn bd_add(a: RawDecimal, b: RawDecimal) -> (r: RawDecimal)
    requires
        -i64::MAX <= dec_scale(a) - dec_scale(b) <= i64::MAX,
    ensures
        dec_scale(r) == max_int(dec_scale(a), dec_scale(b)),
        dec_unscaled(r) == dec_unscaled(a) * pow_int(
            10,
            (max_int(dec_scale(a), dec_scale(b)) - dec_scale(a)) as nat,
        ) + dec_unscaled(b) * pow_int(
            10,
            (max_int(dec_scale(a), dec_scale(b)) - dec_scale(b)) as nat,
        ),
{
    a + b
}

/// Relies on `RawDecimal`'s `Sub`: aligns to the larger scale and subtracts
/// the aligned coefficients.
#[verifier::external_body]
pub(crate) fn bd_sub(a: RawDecimal, b: RawDecimal) -> (r: RawDecimal)
    requires
        -i64::MAX <= dec_scale(a) - dec_scale(b) <= i64::MAX,
    ensures
        dec_scale(r) == max_int(dec_scale(a), dec_scale(b)),
        dec_unscaled(r) == dec_unscaled(a) * pow_int(
            10,
            (max_int(dec_scale(a), dec_scale(b)) - dec_scale(a)) as nat,
        ) - dec_unscaled(b) * pow_int(
            10,
            (max_int(dec_scale(a), dec_scale(b)) - dec_scale(b)) as nat,
        ),
{
    a - b
}

/// Relies on `RawDecimal`'s `Mul`: an operand denoting one is returned
/// unchanged as the other operand; otherwise coefficients multiply and
/// scales add.
#[verifier::external_body]
pub(crate) fn bd_mul(a: RawDecimal, b: RawDecimal) -> (r: RawDecimal)
    requires
        dec_same(dec_unscaled(a), dec_scale(a), 1, 0) || dec_same(
            dec_unscaled(b),
            dec_scale(b),
            1,
            0,
        ) || i64::MIN <= dec_scale(a) + dec_scale(b) <= i64::MAX,
        -i64::MAX <= dec_scale(a) - dec_scale(b) <= i64::MAX,
    ensures
        dec_same(dec_unscaled(a), dec_scale(a), 1, 0) ==> dec_unscaled(r) == dec_unscaled(b)
            && dec_scale(r) == dec_scale(b),
        !dec_same(dec_unscaled(a), dec_scale(a), 1, 0) && dec_same(
            dec_unscaled(b),
            dec_scale(b),
            1,
            0,
        ) ==> dec_unscaled(r) == dec_unscaled(a) && dec_scale(r) == dec_scale(a),
        !dec_same(dec_unscaled(a), dec_scale(a), 1, 0) && !dec_same(
            dec_unscaled(b),
            dec_scale(b),
            1,
            0,
        ) ==> dec_unscaled(r) == dec_unscaled(a) * dec_unscaled(b) && dec_scale(r) == dec_scale(a)
            + dec_scale(b),
{
    a * b
}

/// Relies on `RawDecimal`'s `Div`: a zero dividend or a divisor denoting
/// one returns the dividend's pair; equal coefficients give coefficient one;
/// a coefficient-one divisor divides by a power of ten exactly; the general
/// long division is a function of the two pairs. Whenever the quotient has
/// a terminating decimal expansion of at most the engine's hundred digits
/// (witnessed by integers `q`, `t` with `u_a * 10^t == q * u_b`), the long
/// division reaches a zero remainder and the result denotes the exact
/// quotient: result times divisor denotes the dividend.
#[verifier::external_body]
pub(crate) fn bd_div(a: RawDecimal, b: &RawDecimal) -> (r: RawDecimal)
    requires
        dec_unscaled(*b) != 0,
        -i64::MAX <= dec_scale(a) - dec_scale(*b) <= i64::MAX,
        -i64::MAX <= dec_scale(*b),
        dec_unscaled(a) == 0 || dec_same(dec_unscaled(*b), dec_scale(*b), 1, 0) || dec_unscaled(a)
            == dec_unscaled(*b) || dec_unscaled(*b) == 1 || dec_scale(a) - dec_scale(*b)
            + dec_digit_count(dec_unscaled(*b)) + 100 <= i64::MAX,
    ensures
        (dec_unscaled(a) == 0 || dec_same(dec_unscaled(*b), dec_scale(*b), 1, 0)) ==> dec_unscaled(
            r,
        ) == dec_unscaled(a) && dec_scale(r) == dec_scale(a),
        !(dec_unscaled(a) == 0 || dec_same(dec_unscaled(*b), dec_scale(*b), 1, 0)) && dec_unscaled(
            a,
        ) == dec_unscaled(*b) ==> dec_unscaled(r) == 1 && dec_scale(r) == dec_scale(a) - dec_scale(
            *b,
        ),
        !(dec_unscaled(a) == 0 || dec_same(dec_unscaled(*b), dec_scale(*b), 1, 0)) && dec_unscaled(
            a,
        ) != dec_unscaled(*b) && dec_unscaled(*b) == 1 ==> dec_unscaled(r) == dec_unscaled(a)
            && dec_scale(r) == dec_scale(a) - dec_scale(*b),
        !(dec_unscaled(a) == 0 || dec_same(dec_unscaled(*b), dec_scale(*b), 1, 0)) && dec_unscaled(
            a,
        ) != dec_unscaled(*b) && dec_unscaled(*b) != 1 ==> (dec_unscaled(r), dec_scale(r))
            == dec_div_of(dec_unscaled(a), dec_scale(a), dec_unscaled(*b), dec_scale(*b))
            && dec_scale(a) - dec_scale(*b) <= dec_scale(r) <= dec_scale(a) - dec_scale(*b)
            + dec_digit_count(dec_unscaled(*b)) + 100,
        (exists|q: int, t: nat|
            #![trigger dec_digit_count(q), pow_int(10, t)]
            dec_unscaled(a) * pow_int(10, t) == q * dec_unscaled(*b) && dec_digit_count(q)
                <= 100) ==> dec_same(
            dec_unscaled(r) * dec_unscaled(*b),
            dec_scale(r) + dec_scale(*b),
            dec_unscaled(a),
            dec_scale(a),
        ),
{
    a / b
}

/// Relies on `Neg` for `&RawDecimal`: negates the coefficient, keeps the
/// scale.
#[verifier::external_body]
pub(crate) fn bd_neg(d: &RawDecimal) -> (r: RawDecimal)
    ensures
        dec_unscaled(r) == -dec_unscaled(*d),
        dec_scale(r) == dec_scale(*d),
{
    -d
}

/// Relies on `Signed::abs` for `RawDecimal`: absolute coefficient, same
/// scale.
#[verifier::external_body]
pub(crate) fn bd_abs(d: &RawDecimal) -> (r: RawDecimal)
    ensures
        dec_unscaled(r) == abs_int(dec_unscaled(*d)),
        dec_scale(r) == dec_scale(*d),
{
    d.abs()
}

/// Relies on `RawDecimal::with_prec`: pads with trailing zeros up to the
/// precision, or drops digits rounding half away from zero (toward zero for
/// negative values).
#[verifier::external_body]
pub(crate) fn bd_with_prec(d: &RawDecimal, prec: u64) -> (r: RawDecimal)
    requires
        dec_digit_count(dec_unscaled(*d)) > prec ==> i64::MIN <= dec_scale(*d) - (
        dec_digit_count(dec_unscaled(*d)) - prec),
        dec_digit_count(dec_unscaled(*d)) < prec ==> dec_scale(*d) + (prec
            - dec_digit_count(dec_unscaled(*d))) <= i64::MAX,
    ensures
        ({
            let u = dec_unscaled(*d);
            let s = dec_scale(*d);
            let dg = dec_digit_count(u);
            if dg > prec {
                dec_unscaled(r) == round_half_up_div(u, pow_int(10, (dg - prec) as nat))
                    && dec_scale(r) == s - (dg - prec)
            } else if dg < prec {
                dec_unscaled(r) == u * pow_int(10, (prec - dg) as nat) && dec_scale(r) == s + (prec
                    - dg)
            } else {
                dec_unscaled(r) == u && dec_scale(r) == s
            }
        }),
{
    d.with_prec(prec)
}

/// Relies on `ToBigInt::to_bigint` for `RawDecimal`: always succeeds and
/// truncates the fractional part toward zero.
#[verifier::external_body]
pub(crate) fn bd_to_bigint(d: &RawDecimal) -> (r: Option<NumBigInt>)
    requires
        -i64::MAX <= dec_scale(*d),
    ensures
        r is Some,
        r matches Some(v) ==> int_of(v) == dec_trunc(dec_unscaled(*d), dec_scale(*d)),
{
    num_bigint::ToBigInt::to_bigint(d)
}

/// Relies on `ToPrimitive::to_i64` for `RawDecimal`: the truncated value
/// when it fits the width, `None` otherwise.
#[verifier::external_body]
pub(crate) fn bd_to_i64(d: &RawDecimal) -> (r: Option<i64>)
    requires
        -i64::MAX <= dec_scale(*d),
    ensures
        r is Some <==> i64::MIN <= dec_trunc(dec_unscaled(*d), dec_scale(*d)) <= i64::MAX,
        r matches Some(v) ==> v as int == dec_trunc(dec_unscaled(*d), dec_scale(*d)),
{
    bigdecimal::ToPrimitive::to_i64(d)
}

/// Relies on `ToPrimitive::to_u64` for `RawDecimal`: `None` for any
/// negative coefficient (even one truncating to zero), else the truncated
/// value when it fits the width.
#[verifier::external_body]
pub(crate) fn bd_to_u64(d: &RawDecimal) -> (r: Option<u64>)
    requires
        -i64::MAX <= dec_scale(*d),
    ensures
        dec_unscaled(*d) < 0 ==> r is None,
        dec_unscaled(*d) >= 0 ==> (r is Some <==> dec_trunc(dec_unscaled(*d), dec_scale(*d))
            <= u64::MAX),
        r matches Some(v) ==> v as int == dec_trunc(dec_unscaled(*d), dec_scale(*d)),
{
    bigdecimal::ToPrimitive::to_u64(d)
}

/// Relies on `RawDecimal::from_str`: accepts an optional exponent after
/// `e`/`E` and a base with at most one decimal point, and stores the digits
/// with the scale they imply.
#[verifier::external_body]
pub(crate) fn bd_from_str(s: &str) -> (r: Result<RawDecimal, RawDecParseError>)
    requires
        dec_lit_scale_fits(s@),
    ensures
        r is Ok <==> dec_literal_ok(s@),
        r matches Ok(v) ==> dec_unscaled(v) == dec_lit_unscaled(s@) && dec_scale(v)
            == dec_lit_scale(s@),
{
    <RawDecimal as FromStr>::from_str(s)
}

/// Relies on `RawDecimal`'s `Display`: plain decimal notation, never an
/// exponent. The scale bound keeps the digit-position arithmetic inside the
/// fixed width (a rendered coefficient is shorter than the allocation
/// limit, so the headroom left by the bound can never be consumed).
#[verifier::external_body]
pub(crate) fn bd_to_string(d: &RawDecimal) -> (r: String)
    requires
        -0x4000_0000_0000_0000 <= dec_scale(*d),
    ensures
        r@ == dec_display(dec_unscaled(*d), dec_scale(*d)),
{
    d.to_string()
}

/// Relies on `RawDecimal: From<i64>`: coefficient `n`, scale zero.
#[verifier::external_body]
pub(crate) fn bd_from_i64(n: i64) -> (r: RawDecimal)
    ensures
        dec_unscaled(r) == n as int,
        dec_scale(r) == 0,
{
    RawDecimal::from(n)
}

/// Relies on `RawDecimal: From<u64>`: coefficient `n`, scale zero.
#[verifier::external_body]
pub(crate) fn bd_from_u64(n: u64) -> (r: RawDecimal)
    ensures
        dec_unscaled(r) == n as int,
        dec_scale(r) == 0,
{
    RawDecimal::from(n)
}

/// Relies on `RawDecimal: From<NumBigInt>`: that coefficient, scale zero.
#[verifier::external_body]
pub(crate) fn bd_from_bigint(n: NumBigInt) -> (r: RawDecimal)
    ensures
        dec_unscaled(r) == int_of(n),
        dec_scale(r) == 0,
{
    RawDecimal::from(n)
}

} // verus!
