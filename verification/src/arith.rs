//! Integer spec helpers: truncating division, signs, absolute values.

use vstd::prelude::*;

verus! {

/// The larger of two integers.
pub open spec fn max_int(a: int, b: int) -> int {
    if a >= b {
        a
    } else {
        b
    }
}

/// Absolute value.
pub open spec fn abs_int(i: int) -> int {
    if i < 0 {
        -i
    } else {
        i
    }
}

/// Sign of `i` as -1, 0 or 1.
pub open spec fn sign_int(i: int) -> int {
    if i < 0 {
        -1
    } else if i == 0 {
        0
    } else {
        1
    }
}

/// Quotient of `a / b` rounded toward zero (`b != 0`).
pub open spec fn trunc_div(a: int, b: int) -> int {
    if (a >= 0) == (b >= 0) {
        abs_int(a) / abs_int(b)
    } else {
        -(abs_int(a) / abs_int(b))
    }
}

/// Remainder of truncating division: `a - b * trunc_div(a, b)`; it is zero
/// or carries the sign of `a`.
pub open spec fn trunc_rem(a: int, b: int) -> int {
    if a >= 0 {
        abs_int(a) % abs_int(b)
    } else {
        -(abs_int(a) % abs_int(b))
    }
}

/// Truncating division and its remainder reassemble the dividend, the
/// remainder is smaller than the divisor and zero or signed like the
/// dividend.
pub proof fn lemma_trunc_div_rem(a: int, b: int)
    requires
        b != 0,
    ensures
        a == b * trunc_div(a, b) + trunc_rem(a, b),
        abs_int(trunc_rem(a, b)) < abs_int(b),
        trunc_rem(a, b) == 0 || sign_int(trunc_rem(a, b)) == sign_int(a),
{
    let q0 = abs_int(a) / abs_int(b);
    let r0 = abs_int(a) % abs_int(b);
    vstd::arithmetic::div_mod::lemma_fundamental_div_mod(abs_int(a), abs_int(b));
    vstd::arithmetic::div_mod::lemma_div_pos_is_pos(abs_int(a), abs_int(b));
    vstd::arithmetic::div_mod::lemma_mod_bound(abs_int(a), abs_int(b));
    vstd::arithmetic::mul::lemma_mul_basics(abs_int(b));
    vstd::arithmetic::mul::lemma_mul_unary_negation(b, q0);
    vstd::arithmetic::mul::lemma_mul_unary_negation(-b, q0);
    assert(abs_int(a) == abs_int(b) * q0 + r0);
    assert(0 <= r0 < abs_int(b));
    if a >= 0 && b > 0 {
        assert(a == b * q0 + r0);
    } else if a >= 0 && b < 0 {
        assert(a == (-b) * q0 + r0);
        assert(a == b * (-q0) + r0);
    } else if a < 0 && b > 0 {
        assert(-a == b * q0 + r0);
        assert(a == b * (-q0) + (-r0));
    } else {
        assert(-a == (-b) * q0 + r0);
        assert(a == b * q0 + (-r0));
    }
}

/// `b` to the power `e`.
pub open spec fn pow_int(b: int, e: nat) -> int
    decreases e,
{
    if e == 0 {
        1
    } else {
        b * pow_int(b, (e - 1) as nat)
    }
}

/// A power of a positive base is positive.
pub proof fn lemma_pow_int_pos(b: int, e: nat)
    requires
        b >= 1,
    ensures
        pow_int(b, e) >= 1,
    decreases e,
{
    if e > 0 {
        lemma_pow_int_pos(b, (e - 1) as nat);
        assert(b * pow_int(b, (e - 1) as nat) >= 1) by (nonlinear_arith)
            requires
                b >= 1,
                pow_int(b, (e - 1) as nat) >= 1,
        ;
    }
}

/// Powers add exponents under multiplication.
pub proof fn lemma_pow_int_adds(b: int, e1: nat, e2: nat)
    ensures
        pow_int(b, e1 + e2) == pow_int(b, e1) * pow_int(b, e2),
    decreases e1,
{
    if e1 == 0 {
        vstd::arithmetic::mul::lemma_mul_basics(pow_int(b, e2));
    } else {
        lemma_pow_int_adds(b, (e1 - 1) as nat, e2);
        assert(pow_int(b, e1 + e2) == b * pow_int(b, (e1 - 1 + e2) as nat));
        assert(b * (pow_int(b, (e1 - 1) as nat) * pow_int(b, e2)) == (b * pow_int(
            b,
            (e1 - 1) as nat,
        )) * pow_int(b, e2)) by (nonlinear_arith);
    }
}

/// With a base of at least one, powers grow with the exponent.
pub proof fn lemma_pow_int_increases(b: int, e1: nat, e2: nat)
    requires
        b >= 1,
        e1 <= e2,
    ensures
        pow_int(b, e1) <= pow_int(b, e2),
{
    lemma_pow_int_adds(b, e1, (e2 - e1) as nat);
    lemma_pow_int_pos(b, e1);
    lemma_pow_int_pos(b, (e2 - e1) as nat);
    assert(pow_int(b, e1) * pow_int(b, (e2 - e1) as nat) >= pow_int(b, e1)) by (nonlinear_arith)
        requires
            pow_int(b, e1) >= 1,
            pow_int(b, (e2 - e1) as nat) >= 1,
    ;
}

/// The truncating pair is unique: any `(q, r)` satisfying the three
/// division laws is exactly `(trunc_div(a, b), trunc_rem(a, b))`.
pub proof fn lemma_trunc_div_rem_unique(a: int, b: int, q: int, r: int)
    requires
        b != 0,
        a == b * q + r,
        abs_int(r) < abs_int(b),
        r == 0 || sign_int(r) == sign_int(a),
    ensures
        q == trunc_div(a, b),
        r == trunc_rem(a, b),
{
    lemma_trunc_div_rem(a, b);
    let q0 = trunc_div(a, b);
    let r0 = trunc_rem(a, b);
    assert(b * q + r == b * q0 + r0);
    assert(abs_int(r - r0) < abs_int(b)) by {
        if a > 0 {
            assert(0 <= r < abs_int(b) && 0 <= r0 < abs_int(b));
        } else if a < 0 {
            assert(-abs_int(b) < r <= 0 && -abs_int(b) < r0 <= 0);
        }
    }
    assert(b * (q - q0) == r0 - r) by (nonlinear_arith)
        requires
            b * q + r == b * q0 + r0,
    ;
    assert(q == q0) by (nonlinear_arith)
        requires
            b * (q - q0) == r0 - r,
            abs_int(r - r0) < abs_int(b),
            b != 0,
    ;
}

} // verus!
