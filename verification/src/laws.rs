//! The crate's laws: round trips and algebraic identities, stated over the
//! same spec functions and views the public contracts use.

use vstd::prelude::*;

use crate::arith::{abs_int, max_int, pow_int, sign_int, trunc_div, trunc_rem};
use crate::bytes::{
    lemma_sle_round_trip, lemma_ube_round_trip, lemma_ule_round_trip, sle_bytes, sle_val,
    ube_bytes, ube_val, ule_bytes, ule_val,
};
use crate::decspec::{
    dec_display, dec_lit_scale, dec_lit_unscaled, dec_literal_ok, dec_parse_safe, dec_same,
};
use crate::integer::BigInt;
use crate::text::{int_literal_ok, int_literal_val, str_of_int};

verus! {

/// Byte round trip: decoding what `to_bytes_be` produced (the canonical
/// big-endian magnitude) denotes the magnitude again, so
/// `from_unsigned_bytes_be(x.to_bytes_be().1)` equals `x.absolute()`; the
/// little-endian and signed variants hold alike, the signed ones giving
/// back the signed value itself.
pub proof fn lemma_bytes_round_trip(x: BigInt)
    ensures
        ube_val(ube_bytes(abs_int(x@) as nat)) == abs_int(x@),
        ule_val(ule_bytes(abs_int(x@) as nat)) == abs_int(x@),
        sle_val(sle_bytes(x@)) == x@,
        sle_val(sle_bytes(x@).reverse().reverse()) == x@,
{
    lemma_ube_round_trip(abs_int(x@) as nat);
    lemma_ule_round_trip(abs_int(x@) as nat);
    lemma_sle_round_trip(x@);
    assert(sle_bytes(x@).reverse().reverse() =~= sle_bytes(x@));
}

/// String round trip: the canonical rendering of an integer is a literal
/// the parser accepts, and it parses back to the same value, so
/// `BigInt::from_str(&x.to_string())` returns `Ok` of a value equal to `x`.
pub proof fn lemma_int_string_round_trip(x: BigInt)
    ensures
        int_literal_ok(str_of_int(x@)),
        int_literal_val(str_of_int(x@)) == x@,
{
    crate::text::lemma_str_of_int_round_trip(x@);
}

/// String round trip for the decimal: the canonical rendering of any
/// decimal value is safe to parse and accepted by the parser, and the pair
/// it parses back to denotes the same number, so
/// `BigDecimal::from_str(&x.to_string())` returns `Ok` of a value equal to
/// `x`.
pub proof fn lemma_dec_string_round_trip(u: int, s: int)
    requires
        -crate::decspec::scale_limit() <= s <= crate::decspec::scale_limit(),
    ensures
        dec_parse_safe(dec_display(u, s)),
        dec_literal_ok(dec_display(u, s)),
        dec_same(dec_lit_unscaled(dec_display(u, s)), dec_lit_scale(dec_display(u, s)), u, s),
{
    crate::decspec::lemma_dec_display_round_trip(u, s);
}

/// Truncating division: for a nonzero divisor, `div_rem` returns the unique
/// pair with `a == b*q + r`, `|r| < |b|`, and `r` zero or signed like the
/// dividend.
pub proof fn lemma_truncating_division(a: BigInt, b: BigInt)
    requires
        b@ != 0,
    ensures
        a@ == b@ * trunc_div(a@, b@) + trunc_rem(a@, b@),
        abs_int(trunc_rem(a@, b@)) < abs_int(b@),
        trunc_rem(a@, b@) == 0 || sign_int(trunc_rem(a@, b@)) == sign_int(a@),
{
    crate::arith::lemma_trunc_div_rem(a@, b@);
}

/// Additive and multiplicative identity for the integer: adding zero or
/// multiplying by one returns an equal value.
pub proof fn lemma_int_identity(x: BigInt)
    ensures
        x@ + 0 == x@,
        x@ * 1 == x@,
{
    vstd::arithmetic::mul::lemma_mul_basics(x@);
}

/// Additive identity for the decimal: adding zero (any operand denoting
/// zero at scale zero) yields the pair `add` promises, and that pair
/// denotes the same number as the operand itself.
pub proof fn lemma_dec_add_zero(u: int, s: int)
    ensures
        dec_same(
            u * pow_int(10, (max_int(s, 0) - s) as nat) + 0 * pow_int(10, max_int(s, 0) as nat),
            max_int(s, 0),
            u,
            s,
        ),
{
    if s >= 0 {
        assert(pow_int(10, 0) == 1);
        vstd::arithmetic::mul::lemma_mul_basics(u);
        vstd::arithmetic::mul::lemma_mul_basics(pow_int(10, max_int(s, 0) as nat));
    } else {
        vstd::arithmetic::mul::lemma_mul_basics(pow_int(10, max_int(s, 0) as nat));
    }
}

/// Multiplicative identity for the decimal: an operand denoting one leaves
/// the other operand's pair unchanged (this is `mul`'s contract), and in
/// the case where both denote one the returned pair still denotes the same
/// number as the receiver.
pub proof fn lemma_dec_mul_one(u: int, s: int)
    ensures
        dec_same(u, s, 1, 0) ==> dec_same(1, 0, u, s),
        !dec_same(u, s, 1, 0) ==> dec_same(u, s, u, s),
{
}

/// Promotion commutes: an integer added to a decimal yields the same pair
/// whichever side the integer stands on (`x.add_dec(d)` and `d.add(x)`
/// promise the same coefficient and scale), so the cross-type sum is
/// symmetric. A float enters this as the decimal it bridges to.
pub proof fn lemma_promotion_commutes(x: int, u: int, s: int)
    ensures
        x * pow_int(10, max_int(0, s) as nat) + u * pow_int(10, (max_int(0, s) - s) as nat) == u
            * pow_int(10, (max_int(s, 0) - s) as nat) + x * pow_int(10, max_int(s, 0) as nat),
        max_int(0, s) == max_int(s, 0),
{
}

/// What `new` builds denotes `digits * 10^exp`: for a nonnegative
/// exponent, the stored pair (coefficient `digits`, scale `-exp`) denotes
/// the same number as the plain integer `digits * 10^exp`; a negative
/// exponent needs no lemma, the stored pair is that fraction by definition.
pub proof fn lemma_new_denotes(digits: int, exp: int)
    requires
        0 <= exp,
    ensures
        dec_same(digits * pow_int(10, exp as nat), 0, digits, -exp),
{
    lemma_dec_scale_shift(digits, -exp, exp as nat);
}

/// Scale-insensitive equality: multiplying the coefficient by a power of
/// ten while raising the scale by the same amount denotes the same number,
/// so equality ignores the representation.
pub proof fn lemma_dec_scale_shift(u: int, s: int, k: nat)
    ensures
        dec_same(u * pow_int(10, k), s + k, u, s),
{
    if k == 0 {
        assert(pow_int(10, 0) == 1);
        vstd::arithmetic::mul::lemma_mul_basics(u);
    }
}

/// Denoting the same number is an equivalence: reflexive, symmetric, and
/// (with `lemma_dec_same_transitive`) transitive, so value equality is
/// well-behaved whatever the representations.
pub proof fn lemma_dec_same_equivalence(u1: int, s1: int, u2: int, s2: int)
    ensures
        dec_same(u1, s1, u1, s1),
        dec_same(u1, s1, u2, s2) == dec_same(u2, s2, u1, s1),
{
}

/// Decimal addition is commutative: the pairs `add` promises for the two
/// operand orders are identical.
pub proof fn lemma_dec_add_commutes(u1: int, s1: int, u2: int, s2: int)
    ensures
        u1 * pow_int(10, (max_int(s1, s2) - s1) as nat) + u2 * pow_int(
            10,
            (max_int(s1, s2) - s2) as nat,
        ) == u2 * pow_int(10, (max_int(s2, s1) - s2) as nat) + u1 * pow_int(
            10,
            (max_int(s2, s1) - s1) as nat,
        ),
        max_int(s1, s2) == max_int(s2, s1),
{
}

} // verus!
