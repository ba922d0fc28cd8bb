//! Arbitrary-precision decimal: a big-integer coefficient and a scale,
//! denoting `coefficient / 10^scale`, with value-based equality.

use vstd::prelude::*;

use bigdecimal::BigDecimal as RawDecimal;

use crate::arith::{abs_int, max_int, pow_int};
use crate::backend::{
    bd_abs, bd_add, bd_clone, bd_digits, bd_div, bd_eq, bd_from_bigint, bd_from_i64, bd_from_str,
    bd_cmp, bd_is_zero, bd_mul, bd_to_i64, bd_to_u64, bd_neg, bd_new, bd_parts, bd_sub, bd_to_bigint, bd_to_string,
    bd_with_prec, bytes_as_str, dec_div_of, dec_scale, dec_unscaled,
};
use crate::decspec::{
    dec_digit_count, dec_display, dec_lit_exp, dec_lit_scale, dec_lit_unscaled, dec_literal_ok,
    dec_lt, dec_parse_safe, dec_same, dec_trunc, dot_idx, exp_body, exp_idx, frac_len,
    i64_lit_ok, i64_lit_val, lemma_dot_idx, lemma_dot_idx_at, lemma_dot_idx_none, lemma_exp_idx,
    lemma_exp_idx_at, lemma_exp_idx_none, round_half_up_div, scale_limit,
};
use crate::integer::BigInt;
use crate::text::{
    all_digits, ascii_chars, digits_val, is_dec_digit, lemma_digits_val_nonneg,
    lemma_digits_val_prefix, lemma_digits_val_push,
};
use vstd::string::StrSliceExecFns;
use crate::ParseNumError;

verus! {

/// What a decimal denotes: the pair `(unscaled, scale)`, standing for
/// `unscaled / 10^scale`.
pub ghost struct DecView {
    pub unscaled: int,
    pub scale: int,
}

/// Arbitrary-precision decimal number. Its view is the stored
/// (coefficient, scale) pair; equality compares the numbers denoted.
pub struct BigDecimal {
    inner: RawDecimal,
}

impl View for BigDecimal {
    type V = DecView;

    closed spec fn view(&self) -> DecView {
        DecView { unscaled: dec_unscaled(self.inner), scale: dec_scale(self.inner) }
    }
}

impl BigDecimal {
    /// Every decimal the crate hands out keeps its scale within
    /// `scale_limit()`, so scale alignment can never overflow.
    #[verifier::type_invariant]
    spec fn wf(self) -> bool {
        -scale_limit() <= self@.scale <= scale_limit()
    }
}

impl Clone for BigDecimal {
    /// The copy stores the same pair.
    fn clone(&self) -> (r: Self)
        ensures
            r@ == self@,
    {
        proof {
            use_type_invariant(&*self);
        }
        BigDecimal { inner: bd_clone(&self.inner) }
    }
}

impl PartialEq for BigDecimal {
    /// Equality compares the numbers denoted, not the stored pairs.
    fn eq(&self, other: &Self) -> (r: bool)
        ensures
            r == dec_same(self@.unscaled, self@.scale, other@.unscaled, other@.scale),
    {
        proof {
            use_type_invariant(&*self);
            use_type_invariant(&*other);
        }
        bd_eq(&self.inner, &other.inner)
    }
}

impl vstd::std_specs::cmp::PartialEqSpecImpl for BigDecimal {
    open spec fn obeys_eq_spec() -> bool {
        true
    }

    open spec fn eq_spec(&self, other: &Self) -> bool {
        dec_same(self@.unscaled, self@.scale, other@.unscaled, other@.scale)
    }
}

impl PartialOrd for BigDecimal {
    /// The ordering is total on the numbers denoted, ignoring
    /// representation.
    fn partial_cmp(&self, other: &Self) -> (r: Option<core::cmp::Ordering>)
        ensures
            r == Some(
                if dec_lt(self@.unscaled, self@.scale, other@.unscaled, other@.scale) {
                    core::cmp::Ordering::Less
                } else if dec_same(self@.unscaled, self@.scale, other@.unscaled, other@.scale) {
                    core::cmp::Ordering::Equal
                } else {
                    core::cmp::Ordering::Greater
                },
            ),
    {
        proof {
            use_type_invariant(&*self);
            use_type_invariant(&*other);
        }
        Some(bd_cmp(&self.inner, &other.inner))
    }
}

impl vstd::std_specs::cmp::PartialOrdSpecImpl for BigDecimal {
    open spec fn obeys_partial_cmp_spec() -> bool {
        true
    }

    open spec fn partial_cmp_spec(&self, other: &Self) -> Option<core::cmp::Ordering> {
        Some(
            if dec_lt(self@.unscaled, self@.scale, other@.unscaled, other@.scale) {
                core::cmp::Ordering::Less
            } else if dec_same(self@.unscaled, self@.scale, other@.unscaled, other@.scale) {
                core::cmp::Ordering::Equal
            } else {
                core::cmp::Ordering::Greater
            },
        )
    }
}

impl Default for BigDecimal {
    /// The default value is zero.
    fn default() -> (r: Self)
        ensures
            r@ == (DecView { unscaled: 0, scale: 0 }),
    {
        BigDecimal::zero()
    }
}

/// The persisted form a store hands back: empty denotes zero, anything else
/// is an ASCII decimal literal whose scale the type can carry.
pub open spec fn store_dec_ok(b: Seq<u8>) -> bool {
    b.len() == 0 || ((forall|i: int| 0 <= i < b.len() ==> b[i] < 128) && dec_parse_safe(
        ascii_chars(b),
    ) && dec_literal_ok(ascii_chars(b)))
}

impl BigDecimal {
    /// Builds `digits * 10^exp`; the stored scale is the negated exponent.
    pub fn new(digits: BigInt, exp: i64) -> (r: BigDecimal)
        requires
            -scale_limit() <= exp <= scale_limit(),
        ensures
            r@ == (DecView { unscaled: digits@, scale: -(exp as int) }),
    {
        let scale: i64 = -exp;
        BigDecimal { inner: bd_new(digits.into_inner(), scale) }
    }

    /// The decimal zero (scale zero).
    pub fn zero() -> (r: BigDecimal)
        ensures
            r@ == (DecView { unscaled: 0, scale: 0 }),
    {
        BigDecimal { inner: bd_from_i64(0) }
    }

    /// The decimal one (scale zero).
    pub fn one() -> (r: BigDecimal)
        ensures
            r@ == (DecView { unscaled: 1, scale: 0 }),
    {
        BigDecimal { inner: bd_from_i64(1) }
    }

    /// Exact conversion from a fixed-width signed integer (scale zero).
    pub fn from_i64(n: i64) -> (r: BigDecimal)
        ensures
            r@ == (DecView { unscaled: n as int, scale: 0 }),
    {
        BigDecimal { inner: bd_from_i64(n) }
    }

    /// Lossless promotion of a big integer (scale zero).
    pub fn from_bigint(n: BigInt) -> (r: BigDecimal)
        ensures
            r@ == (DecView { unscaled: n@, scale: 0 }),
    {
        BigDecimal { inner: bd_from_bigint(n.into_inner()) }
    }

    /// Parses a buffer as a decimal literal; any buffer the grammar
    /// rejects — a byte outside ASCII included — yields `None`. (A decimal
    /// literal is pure ASCII, so a buffer with a high byte can never be
    /// one; only the exponent-overflow strings the parser would die on are
    /// excluded.)
    pub fn parse_bytes(bytes: &[u8]) -> (r: Option<BigDecimal>)
        requires
            (forall|i: int| 0 <= i < bytes@.len() ==> bytes@[i] < 128) ==> dec_parse_safe(
                ascii_chars(bytes@),
            ),
        ensures
            (forall|i: int| 0 <= i < bytes@.len() ==> bytes@[i] < 128) ==> (r is Some
                <==> dec_literal_ok(ascii_chars(bytes@))),
            !(forall|i: int| 0 <= i < bytes@.len() ==> bytes@[i] < 128) ==> r is None,
            r matches Some(v) ==> v@ == (DecView {
                unscaled: dec_lit_unscaled(ascii_chars(bytes@)),
                scale: dec_lit_scale(ascii_chars(bytes@)),
            }),
    {
        let mut i: usize = 0;
        while i < bytes.len()
            invariant
                0 <= i <= bytes@.len(),
                forall|j: int| 0 <= j < i ==> bytes@[j] < 128,
            decreases bytes@.len() - i,
        {
            if bytes[i] >= 128 {
                return None;
            }
            i = i + 1;
        }
        match bytes_as_str(bytes) {
            Ok(s) => {
                proof {
                    assert(s@ =~= ascii_chars(bytes@));
                }
                match BigDecimal::from_str(s) {
                    Ok(v) => Some(v),
                    Err(_) => None,
                }
            },
            Err(_) => vstd::pervasive::unreached(),
        }
    }

    /// Parses a decimal literal: an optional sign, digits with at most one
    /// decimal point, and an optional `e`/`E` fixed-width exponent.
    pub fn from_str(s: &str) -> (r: Result<BigDecimal, ParseNumError>)
        requires
            dec_parse_safe(s@),
        ensures
            r is Ok <==> dec_literal_ok(s@),
            r matches Ok(v) ==> v@ == (DecView {
                unscaled: dec_lit_unscaled(s@),
                scale: dec_lit_scale(s@),
            }),
            r matches Err(e) ==> e == ParseNumError::Invalid,
    {
        match bd_from_str(s) {
            Ok(v) => Ok(BigDecimal { inner: v }),
            Err(_) => Err(ParseNumError::Invalid),
        }
    }

    /// Reads a persisted buffer: empty denotes zero, anything else must be
    /// a decimal literal (corrupt store data is a fatal condition and is
    /// excluded here, not reported).
    pub fn from_store_bytes(bytes: &[u8]) -> (r: BigDecimal)
        requires
            store_dec_ok(bytes@),
        ensures
            bytes@.len() == 0 ==> r@ == (DecView { unscaled: 0, scale: 0 }),
            bytes@.len() > 0 ==> r@ == (DecView {
                unscaled: dec_lit_unscaled(ascii_chars(bytes@)),
                scale: dec_lit_scale(ascii_chars(bytes@)),
            }),
    {
        if bytes.len() == 0 {
            return BigDecimal::zero();
        }
        match BigDecimal::parse_bytes(bytes) {
            Some(v) => v,
            None => vstd::pervasive::unreached(),
        }
    }

    /// The coefficient and the scale, as stored.
    pub fn as_bigint_and_exponent(&self) -> (r: (BigInt, i64))
        ensures
            r.0@ == self@.unscaled,
            r.1 as int == self@.scale,
    {
        let (u, s) = bd_parts(&self.inner);
        (BigInt::from_inner(u), s)
    }

    /// Count of significant decimal digits of the coefficient (one for
    /// zero).
    pub fn digits(&self) -> (r: u64)
        ensures
            r as int == dec_digit_count(self@.unscaled),
    {
        bd_digits(&self.inner)
    }

    /// Whether the value denoted is zero, whatever the scale.
    pub fn is_zero(&self) -> (r: bool)
        ensures
            r == (self@.unscaled == 0),
    {
        bd_is_zero(&self.inner)
    }

    /// Rounds to `prec` significant digits: fewer digits are padded with
    /// trailing zeros, more are dropped rounding half away from zero
    /// (negative values truncate toward zero).
    pub fn with_prec(&self, prec: u64) -> (r: BigDecimal)
        requires
            dec_digit_count(self@.unscaled) > prec ==> -scale_limit() <= self@.scale - (
            dec_digit_count(self@.unscaled) - prec),
            dec_digit_count(self@.unscaled) < prec ==> self@.scale + (prec - dec_digit_count(
                self@.unscaled,
            )) <= scale_limit(),
        ensures
            ({
                let u = self@.unscaled;
                let s = self@.scale;
                let dg = dec_digit_count(u);
                if dg > prec {
                    r@ == (DecView {
                        unscaled: round_half_up_div(u, pow_int(10, (dg - prec) as nat)),
                        scale: s - (dg - prec),
                    })
                } else if dg < prec {
                    r@ == (DecView { unscaled: u * pow_int(10, (prec - dg) as nat), scale: s + (
                    prec - dg) })
                } else {
                    r@ == self@
                }
            }),
    {
        proof {
            use_type_invariant(&*self);
        }
        BigDecimal { inner: bd_with_prec(&self.inner, prec) }
    }

    /// Exact negation: the coefficient flips, the scale stays.
    pub fn neg(&self) -> (r: BigDecimal)
        ensures
            r@ == (DecView { unscaled: -self@.unscaled, scale: self@.scale }),
    {
        proof {
            use_type_invariant(&*self);
        }
        BigDecimal { inner: bd_neg(&self.inner) }
    }

    /// Exact absolute value: the coefficient's magnitude, same scale.
    pub fn absolute(&self) -> (r: BigDecimal)
        ensures
            r@ == (DecView { unscaled: abs_int(self@.unscaled), scale: self@.scale }),
    {
        proof {
            use_type_invariant(&*self);
        }
        BigDecimal { inner: bd_abs(&self.inner) }
    }

    /// Truncates to a big integer, dropping the fractional part toward
    /// zero.
    pub fn to_bigint(&self) -> (r: BigInt)
        ensures
            r@ == dec_trunc(self@.unscaled, self@.scale),
    {
        proof {
            use_type_invariant(&*self);
        }
        match bd_to_bigint(&self.inner) {
            Some(v) => BigInt::from_inner(v),
            None => vstd::pervasive::unreached(),
        }
    }

    /// Narrows to `i64`, truncating the fractional part toward zero;
    /// `None` when the truncated value does not fit.
    pub fn to_i64(&self) -> (r: Option<i64>)
        ensures
            r is Some <==> i64::MIN <= dec_trunc(self@.unscaled, self@.scale) <= i64::MAX,
            r matches Some(v) ==> v as int == dec_trunc(self@.unscaled, self@.scale),
    {
        proof {
            use_type_invariant(&*self);
        }
        bd_to_i64(&self.inner)
    }

    /// Narrows to `u64`, truncating toward zero; `None` for any negative
    /// value (even one truncating to zero) or when the truncation does not
    /// fit.
    pub fn to_u64(&self) -> (r: Option<u64>)
        ensures
            self@.unscaled < 0 ==> r is None,
            self@.unscaled >= 0 ==> (r is Some <==> dec_trunc(self@.unscaled, self@.scale)
                <= u64::MAX),
            r matches Some(v) ==> v as int == dec_trunc(self@.unscaled, self@.scale),
    {
        proof {
            use_type_invariant(&*self);
        }
        bd_to_u64(&self.inner)
    }

    /// The canonical decimal rendering: plain notation, never an exponent.
    pub fn to_string(&self) -> (r: String)
        ensures
            r@ == dec_display(self@.unscaled, self@.scale),
    {
        proof {
            use_type_invariant(&*self);
        }
        bd_to_string(&self.inner)
    }

    /// Scales `amount` down by `decimals` powers of ten, exactly.
    pub fn divide_by_decimals(big_decimal_amount: BigDecimal, decimals: u64) -> (r: BigDecimal)
        requires
            decimals <= scale_limit(),
            big_decimal_amount@.scale + decimals <= scale_limit(),
        ensures
            big_decimal_amount@.unscaled == 0 ==> r@ == (DecView {
                unscaled: 0,
                scale: big_decimal_amount@.scale,
            }),
            big_decimal_amount@.unscaled != 0 ==> r@ == (DecView {
                unscaled: big_decimal_amount@.unscaled,
                scale: big_decimal_amount@.scale + decimals,
            }),
    {
        proof {
            use_type_invariant(&big_decimal_amount);
            if decimals >= 1 {
                crate::arith::lemma_pow_int_increases(10, 1, decimals as nat);
                assert(pow_int(10, 1) == 10 * pow_int(10, 0));
            }
        }
        let divisor = BigDecimal::new(BigInt::one(), decimals as i64);
        big_decimal_amount.div(divisor)
    }

    /// Exact addition: the result carries the larger scale and the sum of
    /// the aligned coefficients.
    pub fn add<T: crate::promote::DecOperand>(self, other: T) -> (r: BigDecimal)
        ensures
            r@ == (DecView {
                unscaled: self@.unscaled * pow_int(
                    10,
                    (max_int(self@.scale, other.as_scale()) - self@.scale) as nat,
                ) + other.as_unscaled() * pow_int(
                    10,
                    (max_int(self@.scale, other.as_scale()) - other.as_scale()) as nat,
                ),
                scale: max_int(self@.scale, other.as_scale()),
            }),
    {
        let rhs = other.to_big_decimal();
        proof {
            use_type_invariant(&self);
            use_type_invariant(&rhs);
        }
        BigDecimal { inner: bd_add(self.inner, rhs.inner) }
    }

    /// Exact subtraction: the result carries the larger scale and the
    /// difference of the aligned coefficients.
    pub fn sub<T: crate::promote::DecOperand>(self, other: T) -> (r: BigDecimal)
        ensures
            r@ == (DecView {
                unscaled: self@.unscaled * pow_int(
                    10,
                    (max_int(self@.scale, other.as_scale()) - self@.scale) as nat,
                ) - other.as_unscaled() * pow_int(
                    10,
                    (max_int(self@.scale, other.as_scale()) - other.as_scale()) as nat,
                ),
                scale: max_int(self@.scale, other.as_scale()),
            }),
    {
        let rhs = other.to_big_decimal();
        proof {
            use_type_invariant(&self);
            use_type_invariant(&rhs);
        }
        BigDecimal { inner: bd_sub(self.inner, rhs.inner) }
    }

    /// Exact multiplication: coefficients multiply and scales add; an
    /// operand denoting one returns the other operand's pair unchanged.
    pub fn mul<T: crate::promote::DecOperand>(self, other: T) -> (r: BigDecimal)
        requires
            dec_same(self@.unscaled, self@.scale, 1, 0) || dec_same(
                other.as_unscaled(),
                other.as_scale(),
                1,
                0,
            ) || -scale_limit() <= self@.scale + other.as_scale() <= scale_limit(),
        ensures
            dec_same(self@.unscaled, self@.scale, 1, 0) ==> r@ == (DecView {
                unscaled: other.as_unscaled(),
                scale: other.as_scale(),
            }),
            !dec_same(self@.unscaled, self@.scale, 1, 0) && dec_same(
                other.as_unscaled(),
                other.as_scale(),
                1,
                0,
            ) ==> r@ == self@,
            !dec_same(self@.unscaled, self@.scale, 1, 0) && !dec_same(
                other.as_unscaled(),
                other.as_scale(),
                1,
                0,
            ) ==> r@ == (DecView {
                unscaled: self@.unscaled * other.as_unscaled(),
                scale: self@.scale + other.as_scale(),
            }),
    {
        let rhs = other.to_big_decimal();
        proof {
            use_type_invariant(&self);
            use_type_invariant(&rhs);
        }
        BigDecimal { inner: bd_mul(self.inner, rhs.inner) }
    }

    /// Division (the divisor must denote a nonzero value: dividing by zero
    /// is a fatal condition). A zero dividend or a divisor denoting one
    /// returns the dividend's pair; a coefficient-one divisor shifts the
    /// scale exactly; otherwise the engine's long division runs to at most
    /// a hundred digits of precision.
    pub fn div<T: crate::promote::DecOperand>(self, other: T) -> (r: BigDecimal)
        requires
            other.as_unscaled() != 0,
            -scale_limit() <= self@.scale - other.as_scale() <= scale_limit(),
            self@.unscaled == 0 || dec_same(other.as_unscaled(), other.as_scale(), 1, 0)
                || self@.unscaled == other.as_unscaled() || other.as_unscaled() == 1 || self@.scale
                - other.as_scale() + dec_digit_count(other.as_unscaled()) + 100 <= scale_limit(),
        ensures
            (self@.unscaled == 0 || dec_same(other.as_unscaled(), other.as_scale(), 1, 0)) ==> r@
                == self@,
            !(self@.unscaled == 0 || dec_same(other.as_unscaled(), other.as_scale(), 1, 0))
                && self@.unscaled == other.as_unscaled() ==> r@ == (DecView {
                unscaled: 1,
                scale: self@.scale - other.as_scale(),
            }),
            !(self@.unscaled == 0 || dec_same(other.as_unscaled(), other.as_scale(), 1, 0))
                && self@.unscaled != other.as_unscaled() && other.as_unscaled() == 1 ==> r@ == (
            DecView { unscaled: self@.unscaled, scale: self@.scale - other.as_scale() }),
            !(self@.unscaled == 0 || dec_same(other.as_unscaled(), other.as_scale(), 1, 0))
                && self@.unscaled != other.as_unscaled() && other.as_unscaled() != 1 ==> (
            r@.unscaled, r@.scale) == dec_div_of(
                self@.unscaled,
                self@.scale,
                other.as_unscaled(),
                other.as_scale(),
            ),
            (exists|q: int, t: nat|
                #![trigger dec_digit_count(q), pow_int(10, t)]
                self@.unscaled * pow_int(10, t) == q * other.as_unscaled() && dec_digit_count(q)
                    <= 100) ==> dec_same(
                r@.unscaled * other.as_unscaled(),
                r@.scale + other.as_scale(),
                self@.unscaled,
                self@.scale,
            ),
    {
        let rhs = other.to_big_decimal();
        proof {
            use_type_invariant(&self);
            use_type_invariant(&rhs);
        }
        BigDecimal { inner: bd_div(self.inner, &rhs.inner) }
    }
}

impl BigInt {
    /// Integer plus decimal: the integer is promoted, and the sum is a
    /// decimal (an integer operand never demotes a decimal).
    pub fn add_dec<T: crate::promote::DecOperand>(self, other: T) -> (r: BigDecimal)
        ensures
            r@ == (DecView {
                unscaled: self@ * pow_int(10, max_int(0, other.as_scale()) as nat)
                    + other.as_unscaled() * pow_int(
                    10,
                    (max_int(0, other.as_scale()) - other.as_scale()) as nat,
                ),
                scale: max_int(0, other.as_scale()),
            }),
    {
        BigDecimal::from_bigint(self).add(other)
    }

    /// Integer minus decimal, after promoting the integer.
    pub fn sub_dec<T: crate::promote::DecOperand>(self, other: T) -> (r: BigDecimal)
        ensures
            r@ == (DecView {
                unscaled: self@ * pow_int(10, max_int(0, other.as_scale()) as nat)
                    - other.as_unscaled() * pow_int(
                    10,
                    (max_int(0, other.as_scale()) - other.as_scale()) as nat,
                ),
                scale: max_int(0, other.as_scale()),
            }),
    {
        BigDecimal::from_bigint(self).sub(other)
    }

    /// Integer times decimal, after promoting the integer.
    pub fn mul_dec<T: crate::promote::DecOperand>(self, other: T) -> (r: BigDecimal)
        requires
            self@ == 1 || dec_same(other.as_unscaled(), other.as_scale(), 1, 0) || -scale_limit()
                <= other.as_scale() <= scale_limit(),
        ensures
            self@ == 1 ==> r@ == (DecView {
                unscaled: other.as_unscaled(),
                scale: other.as_scale(),
            }),
            self@ != 1 && dec_same(other.as_unscaled(), other.as_scale(), 1, 0) ==> r@ == (DecView {
                unscaled: self@,
                scale: 0,
            }),
            self@ != 1 && !dec_same(other.as_unscaled(), other.as_scale(), 1, 0) ==> r@ == (
            DecView { unscaled: self@ * other.as_unscaled(), scale: other.as_scale() }),
    {
        BigDecimal::from_bigint(self).mul(other)
    }

    /// Integer divided by decimal, after promoting the integer (the divisor
    /// must denote a nonzero value).
    pub fn div_dec<T: crate::promote::DecOperand>(self, other: T) -> (r: BigDecimal)
        requires
            other.as_unscaled() != 0,
            -scale_limit() <= other.as_scale() <= scale_limit(),
            self@ == 0 || dec_same(other.as_unscaled(), other.as_scale(), 1, 0) || self@
                == other.as_unscaled() || other.as_unscaled() == 1 || -other.as_scale()
                + dec_digit_count(other.as_unscaled()) + 100 <= scale_limit(),
        ensures
            (self@ == 0 || dec_same(other.as_unscaled(), other.as_scale(), 1, 0)) ==> r@ == (
            DecView { unscaled: self@, scale: 0 }),
            !(self@ == 0 || dec_same(other.as_unscaled(), other.as_scale(), 1, 0)) && self@
                == other.as_unscaled() ==> r@ == (DecView {
                unscaled: 1,
                scale: -other.as_scale(),
            }),
            !(self@ == 0 || dec_same(other.as_unscaled(), other.as_scale(), 1, 0)) && self@
                != other.as_unscaled() && other.as_unscaled() == 1 ==> r@ == (DecView {
                unscaled: self@,
                scale: -other.as_scale(),
            }),
            !(self@ == 0 || dec_same(other.as_unscaled(), other.as_scale(), 1, 0)) && self@
                != other.as_unscaled() && other.as_unscaled() != 1 ==> (r@.unscaled, r@.scale)
                == dec_div_of(self@, 0, other.as_unscaled(), other.as_scale()),
            (exists|q: int, t: nat|
                #![trigger dec_digit_count(q), pow_int(10, t)]
                self@ * pow_int(10, t) == q * other.as_unscaled() && dec_digit_count(q) <= 100)
                ==> dec_same(
                r@.unscaled * other.as_unscaled(),
                r@.scale + other.as_scale(),
                self@,
                0,
            ),
    {
        BigDecimal::from_bigint(self).div(other)
    }

    /// The value scaled down by `decimals` powers of ten, as a decimal,
    /// exactly.
    pub fn to_decimal(&self, decimals: u64) -> (r: BigDecimal)
        requires
            decimals <= scale_limit(),
        ensures
            self@ == 0 ==> r@ == (DecView { unscaled: 0, scale: 0 }),
            self@ != 0 ==> r@ == (DecView { unscaled: self@, scale: decimals as int }),
    {
        let amount = BigDecimal::from_bigint(self.clone());
        BigDecimal::divide_by_decimals(amount, decimals)
    }
}

/// Index of the first exponent marker in `s`, or its length when none.
fn find_exp_marker(s: &str, n: usize) -> (r: usize)
    requires
        n as int == s@.len(),
    ensures
        r as int == exp_idx(s@),
        r <= n,
        r < n ==> s@[r as int] == 'e' || s@[r as int] == 'E',
{
    let mut i: usize = 0;
    while i < n
        invariant
            0 <= i <= n,
            n as int == s@.len(),
            forall|j: int| 0 <= j < i ==> s@[j] != 'e' && s@[j] != 'E',
        decreases n - i,
    {
        let c = s.get_char(i);
        if c == 'e' || c == 'E' {
            proof {
                lemma_exp_idx_at(s@, i as int);
            }
            return i;
        }
        i = i + 1;
    }
    proof {
        lemma_exp_idx_none(s@);
    }
    n
}

/// Index of the first decimal point among the first `ei` characters of
/// `s`, or `ei` when none.
fn find_dot_before(s: &str, ei: usize) -> (r: usize)
    requires
        ei as int <= s@.len(),
    ensures
        r as int == dot_idx(s@.take(ei as int)),
        r <= ei,
{
    let ghost base = s@.take(ei as int);
    let mut i: usize = 0;
    while i < ei
        invariant
            0 <= i <= ei,
            ei as int <= s@.len(),
            base == s@.take(ei as int),
            forall|j: int| 0 <= j < i ==> s@[j] != '.',
        decreases ei - i,
    {
        let c = s.get_char(i);
        if c == '.' {
            proof {
                assert(forall|j: int| 0 <= j < i ==> base[j] == s@[j]);
                lemma_dot_idx_at(base, i as int);
            }
            return i;
        }
        i = i + 1;
    }
    proof {
        assert(forall|j: int| 0 <= j < base.len() ==> base[j] == s@[j]);
        lemma_dot_idx_none(base);
    }
    ei
}

impl BigDecimal {
    /// Whether `from_str` may be handed this text: `true` guarantees the
    /// parse is safe (no scale overflow, and any accepted literal's scale
    /// stays in the representable band); `false` comes only for text the
    /// parser would reject anyway or whose scale leaves that band. Lets a
    /// caller screen runtime data before parsing it.
    #[verifier::loop_isolation(false)]
    #[verifier::rlimit(100)]
    #[verifier::spinoff_prover]
    pub fn is_parse_safe(s: &str) -> (r: bool)
        ensures
            r ==> dec_parse_safe(s@),
            !r ==> !(dec_literal_ok(s@) && -scale_limit() <= dec_lit_scale(s@) <= scale_limit()),
    {
        let n = s.unicode_len();
        let ei = find_exp_marker(s, n);
        let di = find_dot_before(s, ei);
        let frac: usize = if di < ei {
            ei - di - 1
        } else {
            0
        };
        let ghost base = s@.take(ei as int);
        proof {
            lemma_dot_idx(base);
            assert(frac as int == frac_len(base));
        }
        if ei == n {
            // No exponent: the scale is the fraction length itself.
            proof {
                assert(base =~= s@);
            }
            return (frac as u64) <= 0x3fff_ffff_ffff_ffffu64;
        }
        // Exponent text, after the parser's single stripped `+`.
        let ghost t = s@.skip(ei as int + 1);
        let mut p = ei + 1;
        if p < n && s.get_char(p) == '+' {
            p = p + 1;
        }
        proof {
            assert(t.len() > 0 ==> t[0] == s@[ei as int + 1]);
            assert(exp_body(t) =~= s@.skip(p as int));
        }
        let ghost body = exp_body(t);
        // Optional sign of the exponent literal.
        let mut neg = false;
        let mut q = p;
        if q < n {
            let c = s.get_char(q);
            if c == '+' {
                q = q + 1;
            } else if c == '-' {
                neg = true;
                q = q + 1;
            }
        }
        let ghost d = s@.skip(q as int);
        proof {
            assert(body.len() > 0 ==> body[0] == s@[p as int]);
            if body.len() > 0 && (body[0] == '+' || body[0] == '-') {
                assert(d =~= body.skip(1));
            } else {
                assert(d =~= body);
            }
        }
        if q == n {
            // Empty exponent digits: the parser rejects the text.
            return true;
        }
        // Scan the exponent digits, accumulating their value.
        let mut mag: u128 = 0;
        let mut j = q;
        while j < n
            invariant
                q <= j <= n,
                q < n,
                n as int == s@.len(),
                d == s@.skip(q as int),
                forall|k: int| q <= k < j ==> is_dec_digit(s@[k]),
                mag <= 0x8000_0000_0000_0000u128,
                mag as int == digits_val(d.take(j - q)),
            decreases n - j,
        {
            let c = s.get_char(j);
            let cv = c as u32;
            if cv < 48 || cv > 57 {
                // A non-digit: the exponent is not a fixed-width literal,
                // so the parser rejects the text.
                proof {
                    assert(d[j - q] == s@[j as int]);
                    assert(!is_dec_digit(d[j - q]));
                    assert(!all_digits(d));
                    assert(!i64_lit_ok(body));
                    assert(!dec_literal_ok(s@));
                }
                return true;
            }
            proof {
                assert(d.take(j - q).push(d[j - q]) =~= d.take(j + 1 - q));
                lemma_digits_val_push(d.take(j - q), d[j - q]);
                assert(crate::text::digit_val(s@[j as int]) == cv - 48) by {
                    assert(is_dec_digit(s@[j as int]));
                }
            }
            mag = mag * 10 + ((cv - 48) as u128);
            j = j + 1;
            if mag > 0x8000_0000_0000_0000u128 {
                // The exponent magnitude leaves the fixed width in either
                // sign: the parser rejects the text.
                proof {
                    if all_digits(d) {
                        lemma_digits_val_prefix(d, j - q);
                        assert(d.take(d.len() as int) =~= d);
                        assert(digits_val(d) >= mag as int);
                        assert(!(i64::MIN <= i64_lit_val(body) <= i64::MAX));
                    }
                    assert(!i64_lit_ok(body));
                    assert(!dec_literal_ok(s@));
                }
                return true;
            }
        }
        proof {
            assert(d.take(n - q) =~= d);
            assert(all_digits(d)) by {
                assert(forall|k: int|
                    0 <= k < d.len() ==> d[k] == s@[k + q] && is_dec_digit(s@[k + q]));
            }
            lemma_digits_val_nonneg(d);
        }
        if !neg && mag == 0x8000_0000_0000_0000u128 {
            // One beyond the largest positive fixed-width exponent: the
            // parser rejects the text.
            return true;
        }
        let e: i128 = if neg {
            -(mag as i128)
        } else {
            mag as i128
        };
        proof {
            assert(e as int == i64_lit_val(body));
            assert(e as int == dec_lit_exp(s@));
        }
        let sc: i128 = (frac as i128) - e;
        proof {
            assert(sc as int == dec_lit_scale(s@));
        }
        let limit: i128 = 0x3fff_ffff_ffff_ffff;
        if sc < -limit || sc > limit {
            // An accepted literal would carry a scale outside the
            // representable band.
            return false;
        }
        true
    }
}

} // verus!
