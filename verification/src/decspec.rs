//! Decimal value specs: what a (coefficient, scale) pair denotes, when two
//! pairs denote the same number, the literal grammar the decimal parser
//! accepts, and the canonical rendering.

use vstd::prelude::*;

use crate::arith::{abs_int, pow_int, trunc_div};
use crate::text::{
    all_digits, count_digits, dec_digits, digits_ok, digits_val, int_literal_neg, int_literal_ok,
    int_literal_val, is_dec_digit, strip_minus, strip_plus, zeros,
};

verus! {

/// Count of decimal digits of a coefficient's magnitude (one for zero).
pub open spec fn dec_digit_count(u: int) -> int {
    count_digits(abs_int(u) as nat) as int
}

/// A decimal denotes `unscaled / 10^scale`; two pairs denote the same
/// number when aligning them to the larger scale equates the coefficients.
pub open spec fn dec_same(u1: int, s1: int, u2: int, s2: int) -> bool {
    if s1 == s2 {
        u1 == u2
    } else if s1 < s2 {
        u1 * pow_int(10, (s2 - s1) as nat) == u2
    } else {
        u1 == u2 * pow_int(10, (s1 - s2) as nat)
    }
}

/// Numeric order on decimal pairs: compare coefficients after aligning to
/// the larger scale.
pub open spec fn dec_lt(u1: int, s1: int, u2: int, s2: int) -> bool {
    if s1 == s2 {
        u1 < u2
    } else if s1 < s2 {
        u1 * pow_int(10, (s2 - s1) as nat) < u2
    } else {
        u1 < u2 * pow_int(10, (s1 - s2) as nat)
    }
}

/// The integer a decimal truncates to: the fractional part is dropped,
/// rounding toward zero.
pub open spec fn dec_trunc(u: int, s: int) -> int {
    if s <= 0 {
        u * pow_int(10, (-s) as nat)
    } else {
        trunc_div(u, pow_int(10, s as nat))
    }
}

/// Division of `u` by the positive power `p`, rounding half away from zero
/// for nonnegative `u` and toward zero for negative `u` (the precision
/// rounding the decimal engine applies).
pub open spec fn round_half_up_div(u: int, p: int) -> int {
    let q = trunc_div(u, p);
    let r = u - p * q;
    if r > 0 && 2 * r >= p {
        q + 1
    } else {
        q
    }
}

// ---------- the literal grammar ----------

/// Index of the first exponent marker `e`/`E`, or the length when none.
pub open spec fn exp_idx(s: Seq<char>) -> int
    decreases s.len(),
{
    if s.len() == 0 {
        0
    } else if s[0] == 'e' || s[0] == 'E' {
        0
    } else {
        1 + exp_idx(s.skip(1))
    }
}

/// Index of the first decimal point, or the length when none.
pub open spec fn dot_idx(s: Seq<char>) -> int
    decreases s.len(),
{
    if s.len() == 0 {
        0
    } else if s[0] == '.' {
        0
    } else {
        1 + dot_idx(s.skip(1))
    }
}

/// The exponent text after one optional leading `+` is stripped.
pub open spec fn exp_body(t: Seq<char>) -> Seq<char> {
    if t.len() > 0 && t[0] == '+' {
        t.skip(1)
    } else {
        t
    }
}

/// A fixed-width exponent literal: an optional sign, plain digits, value in
/// the range of `i64`.
pub open spec fn i64_lit_ok(t: Seq<char>) -> bool {
    let d = if t.len() > 0 && (t[0] == '+' || t[0] == '-') {
        t.skip(1)
    } else {
        t
    };
    &&& d.len() > 0
    &&& all_digits(d)
    &&& i64::MIN <= i64_lit_val(t) <= i64::MAX
}

/// Value of a fixed-width exponent literal.
pub open spec fn i64_lit_val(t: Seq<char>) -> int {
    let d = if t.len() > 0 && (t[0] == '+' || t[0] == '-') {
        t.skip(1)
    } else {
        t
    };
    if t.len() > 0 && t[0] == '-' {
        -digits_val(d)
    } else {
        digits_val(d)
    }
}

/// The digit text of the part before the exponent, with the first decimal
/// point removed.
pub open spec fn base_digits(base: Seq<char>) -> Seq<char> {
    let di = dot_idx(base);
    if di < base.len() {
        base.take(di) + base.skip(di + 1)
    } else {
        base
    }
}

/// Number of digits after the decimal point (zero when there is none).
pub open spec fn frac_len(base: Seq<char>) -> int {
    let di = dot_idx(base);
    if di < base.len() {
        base.len() - di - 1
    } else {
        0
    }
}

/// The decimal literal grammar: an optional `e`/`E` exponent (a fixed-width
/// integer), and before it a nonempty base holding an integer literal with
/// at most one decimal point.
pub open spec fn dec_literal_ok(s: Seq<char>) -> bool {
    let ei = exp_idx(s);
    let base = s.take(ei);
    &&& base.len() > 0
    &&& (ei < s.len() ==> i64_lit_ok(exp_body(s.skip(ei + 1))))
    &&& int_literal_ok(base_digits(base))
}

/// Exponent of a decimal literal (zero when none is written).
pub open spec fn dec_lit_exp(s: Seq<char>) -> int {
    let ei = exp_idx(s);
    if ei < s.len() {
        i64_lit_val(exp_body(s.skip(ei + 1)))
    } else {
        0
    }
}

/// Coefficient of a decimal literal.
pub open spec fn dec_lit_unscaled(s: Seq<char>) -> int {
    int_literal_val(base_digits(s.take(exp_idx(s))))
}

/// Scale of a decimal literal: digits after the point, minus the exponent.
pub open spec fn dec_lit_scale(s: Seq<char>) -> int {
    frac_len(s.take(exp_idx(s))) - dec_lit_exp(s)
}

/// The scale the decimal type can carry is bounded, so that aligning two
/// scales can never overflow the fixed-width arithmetic underneath.
pub open spec fn scale_limit() -> int {
    0x3fff_ffff_ffff_ffff
}

/// Parsing `s` cannot overflow the scale computation: whenever the exponent
/// part alone is a fixed-width literal, the fraction length minus the
/// exponent fits the fixed width (the parser computes this difference even
/// when the base is later rejected).
pub open spec fn dec_lit_scale_fits(s: Seq<char>) -> bool {
    let ei = exp_idx(s);
    (ei < s.len() && i64_lit_ok(exp_body(s.skip(ei + 1)))) ==> i64::MIN <= frac_len(s.take(ei))
        - i64_lit_val(exp_body(s.skip(ei + 1))) <= i64::MAX
}

/// A string the decimal parser may be handed: its scale computation cannot
/// overflow, and an accepted literal's scale stays within the bound the
/// decimal type keeps.
pub open spec fn dec_parse_safe(s: Seq<char>) -> bool {
    &&& dec_lit_scale_fits(s)
    &&& (dec_literal_ok(s) ==> -scale_limit() <= dec_lit_scale(s) <= scale_limit())
}

/// Denoting the same number can be checked at any common scale: for any
/// `m` at or above both scales, the pairs agree exactly when the
/// coefficients aligned to `m` agree.
pub proof fn lemma_dec_same_align(u1: int, s1: int, u2: int, s2: int, m: int)
    requires
        m >= s1,
        m >= s2,
    ensures
        dec_same(u1, s1, u2, s2) == (u1 * pow_int(10, (m - s1) as nat) == u2 * pow_int(
            10,
            (m - s2) as nat,
        )),
{
    crate::arith::lemma_pow_int_pos(10, (m - s1) as nat);
    crate::arith::lemma_pow_int_pos(10, (m - s2) as nat);
    if s1 == s2 {
        let p = pow_int(10, (m - s1) as nat);
        assert(u1 == u2 ==> u1 * p == u2 * p);
        assert(u1 * p == u2 * p ==> u1 == u2) by (nonlinear_arith)
            requires
                p >= 1,
        ;
    } else if s1 < s2 {
        let q = pow_int(10, (s2 - s1) as nat);
        let p = pow_int(10, (m - s2) as nat);
        assert(pow_int(10, (m - s1) as nat) == q * p) by {
            crate::arith::lemma_pow_int_adds(10, (s2 - s1) as nat, (m - s2) as nat);
        }
        assert(u1 * (q * p) == (u1 * q) * p) by (nonlinear_arith);
        assert((u1 * q) * p == u2 * p ==> u1 * q == u2) by (nonlinear_arith)
            requires
                p >= 1,
        ;
    } else {
        let q = pow_int(10, (s1 - s2) as nat);
        let p = pow_int(10, (m - s1) as nat);
        assert(pow_int(10, (m - s2) as nat) == q * p) by {
            crate::arith::lemma_pow_int_adds(10, (s1 - s2) as nat, (m - s1) as nat);
        }
        assert(u2 * (q * p) == (u2 * q) * p) by (nonlinear_arith);
        assert(u1 * p == (u2 * q) * p ==> u1 == u2 * q) by (nonlinear_arith)
            requires
                p >= 1,
        ;
    }
}

/// Denoting the same number is transitive (with symmetry and reflexivity it
/// is an equivalence, so value equality is well-behaved whatever the
/// representations).
pub proof fn lemma_dec_same_transitive(u1: int, s1: int, u2: int, s2: int, u3: int, s3: int)
    requires
        dec_same(u1, s1, u2, s2),
        dec_same(u2, s2, u3, s3),
    ensures
        dec_same(u1, s1, u3, s3),
{
    let m = crate::arith::max_int(crate::arith::max_int(s1, s2), s3);
    lemma_dec_same_align(u1, s1, u2, s2, m);
    lemma_dec_same_align(u2, s2, u3, s3, m);
    lemma_dec_same_align(u1, s1, u3, s3, m);
}

// ---------- the canonical rendering ----------

/// Canonical rendering of the pair `(u, s)`: plain decimal notation, never
/// an exponent; a value smaller than one gets a leading zero.
pub open spec fn dec_display(u: int, s: int) -> Seq<char> {
    let a = dec_digits(abs_int(u) as nat);
    let body = if s >= a.len() {
        seq!['0', '.'] + zeros((s - a.len()) as nat) + a
    } else if s <= 0 {
        a + zeros((-s) as nat)
    } else {
        a.take(a.len() - s) + seq!['.'] + a.skip(a.len() - s)
    };
    if u < 0 {
        seq!['-'] + body
    } else {
        body
    }
}

// ---------- facts about the grammar's search functions ----------

/// Where the first exponent marker stands: the index is in range, nothing
/// before it is a marker, and the index names a marker when in range.
pub proof fn lemma_exp_idx(s: Seq<char>)
    ensures
        0 <= exp_idx(s) <= s.len(),
        forall|i: int| 0 <= i < exp_idx(s) ==> s[i] != 'e' && s[i] != 'E',
        exp_idx(s) < s.len() ==> (s[exp_idx(s)] == 'e' || s[exp_idx(s)] == 'E'),
    decreases s.len(),
{
    if s.len() == 0 {
    } else if s[0] == 'e' || s[0] == 'E' {
    } else {
        lemma_exp_idx(s.skip(1));
        assert(forall|i: int| 1 <= i < exp_idx(s) ==> s[i] == s.skip(1)[i - 1]);
    }
}

/// Where the first decimal point stands.
pub proof fn lemma_dot_idx(s: Seq<char>)
    ensures
        0 <= dot_idx(s) <= s.len(),
        forall|i: int| 0 <= i < dot_idx(s) ==> s[i] != '.',
        dot_idx(s) < s.len() ==> s[dot_idx(s)] == '.',
    decreases s.len(),
{
    if s.len() == 0 {
    } else if s[0] == '.' {
    } else {
        lemma_dot_idx(s.skip(1));
        assert(forall|i: int| 1 <= i < dot_idx(s) ==> s[i] == s.skip(1)[i - 1]);
    }
}

/// A string whose first exponent marker stands at `k` has its exponent
/// index exactly there.
pub proof fn lemma_exp_idx_at(s: Seq<char>, k: int)
    requires
        0 <= k < s.len(),
        s[k] == 'e' || s[k] == 'E',
        forall|i: int| 0 <= i < k ==> s[i] != 'e' && s[i] != 'E',
    ensures
        exp_idx(s) == k,
{
    lemma_exp_idx(s);
    if exp_idx(s) < k {
        assert(s[exp_idx(s)] == 'e' || s[exp_idx(s)] == 'E');
    }
}

/// A string without exponent markers has its exponent index at the end.
pub proof fn lemma_exp_idx_none(s: Seq<char>)
    requires
        forall|i: int| 0 <= i < s.len() ==> s[i] != 'e' && s[i] != 'E',
    ensures
        exp_idx(s) == s.len(),
{
    lemma_exp_idx(s);
}

/// A string without decimal points has its point index at the end.
pub proof fn lemma_dot_idx_none(s: Seq<char>)
    requires
        forall|i: int| 0 <= i < s.len() ==> s[i] != '.',
    ensures
        dot_idx(s) == s.len(),
{
    lemma_dot_idx(s);
}

/// A string whose first decimal point stands at `k` has its point index
/// exactly there.
pub proof fn lemma_dot_idx_at(s: Seq<char>, k: int)
    requires
        0 <= k < s.len(),
        s[k] == '.',
        forall|i: int| 0 <= i < k ==> s[i] != '.',
    ensures
        dot_idx(s) == k,
{
    lemma_dot_idx(s);
    if dot_idx(s) < k {
        assert(s[dot_idx(s)] == '.');
    }
}

/// Helper: a digit run whose leading character is `0` denotes the same as
/// the run after it, shifted in; concretely, prefixing `0`-runs does not
/// change the value.
proof fn lemma_leading_zeros_val(z: Seq<char>, a: Seq<char>)
    requires
        forall|i: int| 0 <= i < z.len() ==> z[i] == '0',
        all_digits(a),
    ensures
        digits_val(z + a) == digits_val(a),
{
    assert(all_digits(z));
    crate::text::lemma_digits_val_concat(z, a);
    assert(digits_val(z) == 0) by {
        assert(z =~= zeros(z.len()));
        crate::text::lemma_zeros(z.len());
    }
    vstd::arithmetic::mul::lemma_mul_basics(pow_int(10, a.len()));
}

/// The canonical rendering of the pair `(u, s)` is a literal the decimal
/// parser accepts, its scale computation is safe, and parsing it back gives
/// a pair denoting the same number: the decimal textual round trip.
#[verifier::rlimit(100)]
#[verifier::spinoff_prover]
pub proof fn lemma_dec_display_round_trip(u: int, s: int)
    ensures
        dec_literal_ok(dec_display(u, s)),
        dec_lit_scale_fits(dec_display(u, s)),
        dec_lit_unscaled(dec_display(u, s)) == if s >= 0 {
            u
        } else {
            u * pow_int(10, (-s) as nat)
        },
        dec_lit_scale(dec_display(u, s)) == if s >= 0 {
            s
        } else {
            0
        },
        dec_same(dec_lit_unscaled(dec_display(u, s)), dec_lit_scale(dec_display(u, s)), u, s),
{
    let m = abs_int(u) as nat;
    let a = dec_digits(m);
    crate::text::lemma_dec_digits(m);
    let d = dec_display(u, s);

    // No character the rendering uses is an exponent marker.
    assert(forall|i: int| 0 <= i < a.len() ==> a[i] != 'e' && a[i] != 'E' && a[i] != '.') by {
        assert(forall|i: int| 0 <= i < a.len() ==> is_dec_digit(#[trigger] a[i]));
    }

    if s >= a.len() {
        let z = zeros((s - a.len()) as nat);
        crate::text::lemma_zeros((s - a.len()) as nat);
        let body = seq!['0', '.'] + z + a;
        assert(forall|i: int| 0 <= i < z.len() ==> #[trigger] z[i] == '0');
        if u >= 0 {
            assert(d == body);
            assert(d.len() == s + 2);
            assert(forall|i: int| 0 <= i < d.len() ==> d[i] != 'e' && d[i] != 'E');
            lemma_exp_idx_none(d);
            assert(d.take(d.len() as int) =~= d);
            assert(d[0] == '0' && d[1] == '.');
            lemma_dot_idx_at(d, 1);
            let digits = base_digits(d);
            assert(digits == d.take(1) + d.skip(2));
            assert(d.take(1) =~= seq!['0']);
            assert(d.skip(2) =~= z + a);
            assert(digits =~= (seq!['0'] + z) + a);
            assert(forall|i: int| 0 <= i < (seq!['0'] + z).len() ==> (seq!['0'] + z)[i] == '0');
            lemma_leading_zeros_val(seq!['0'] + z, a);
            assert(digits_val(digits) == m);
            assert(digits[0] == '0');
            assert(strip_minus(digits) == digits);
            assert(strip_plus(digits) == digits);
            assert(digits_ok(digits)) by {
                assert(forall|i: int|
                    0 <= i < digits.len() ==> is_dec_digit(#[trigger] digits[i])) by {
                    assert(forall|i: int|
                        0 <= i < digits.len() ==> digits[i] == if i < 1 + z.len() {
                            (seq!['0'] + z)[i]
                        } else {
                            a[i - 1 - z.len()]
                        });
                }
            }
            assert(int_literal_val(digits) == u);
            assert(frac_len(d) == s);
        } else {
            assert(d == seq!['-'] + body);
            assert(d.len() == s + 3);
            assert(forall|i: int| 0 <= i < d.len() ==> d[i] != 'e' && d[i] != 'E');
            lemma_exp_idx_none(d);
            assert(d.take(d.len() as int) =~= d);
            assert(d[0] == '-' && d[1] == '0' && d[2] == '.');
            lemma_dot_idx_at(d, 2);
            let digits = base_digits(d);
            assert(digits == d.take(2) + d.skip(3));
            assert(d.take(2) =~= seq!['-', '0']);
            assert(d.skip(3) =~= z + a);
            let tail = (seq!['0'] + z) + a;
            assert(digits =~= seq!['-'] + tail);
            assert(forall|i: int| 0 <= i < (seq!['0'] + z).len() ==> (seq!['0'] + z)[i] == '0');
            lemma_leading_zeros_val(seq!['0'] + z, a);
            assert(digits_val(tail) == m);
            assert(digits[0] == '-' && digits[1] == '0');
            assert(strip_minus(digits) =~= tail);
            assert(strip_plus(tail) == tail);
            assert(digits_ok(tail)) by {
                assert(forall|i: int| 0 <= i < tail.len() ==> is_dec_digit(#[trigger] tail[i]))
                    by {
                    assert(forall|i: int|
                        0 <= i < tail.len() ==> tail[i] == if i < 1 + z.len() {
                            (seq!['0'] + z)[i]
                        } else {
                            a[i - 1 - z.len()]
                        });
                }
            }
            assert(int_literal_neg(digits));
            assert(int_literal_val(digits) == -m);
            assert(frac_len(d) == s);
        }
    } else if s <= 0 {
        let z = zeros((-s) as nat);
        crate::text::lemma_zeros((-s) as nat);
        assert(forall|i: int| 0 <= i < z.len() ==> #[trigger] z[i] == '0');
        let body = a + z;
        assert(digits_val(body) == m * pow_int(10, (-s) as nat)) by {
            crate::text::lemma_digits_val_concat(a, z);
        }
        assert(all_digits(body)) by {
            assert(forall|i: int|
                0 <= i < body.len() ==> body[i] == if i < a.len() {
                    a[i]
                } else {
                    z[i - a.len()]
                });
        }
        if u >= 0 {
            assert(d == body);
            assert(forall|i: int| 0 <= i < d.len() ==> d[i] != 'e' && d[i] != 'E');
            lemma_exp_idx_none(d);
            assert(d.take(d.len() as int) =~= d);
            assert(forall|i: int| 0 <= i < d.len() ==> d[i] != '.');
            lemma_dot_idx_none(d);
            assert(base_digits(d) == d);
            assert(d[0] == a[0]);
            assert(strip_minus(d) == d);
            assert(strip_plus(d) == d);
            assert(digits_ok(d));
            assert(int_literal_val(d) == m * pow_int(10, (-s) as nat));
            assert(u * pow_int(10, (-s) as nat) == m * pow_int(10, (-s) as nat));
            assert(frac_len(d) == 0);
        } else {
            assert(d == seq!['-'] + body);
            assert(forall|i: int| 0 <= i < d.len() ==> d[i] != 'e' && d[i] != 'E');
            lemma_exp_idx_none(d);
            assert(d.take(d.len() as int) =~= d);
            assert(forall|i: int| 0 <= i < d.len() ==> d[i] != '.');
            lemma_dot_idx_none(d);
            assert(base_digits(d) == d);
            assert(d[0] == '-' && d[1] == a[0]);
            assert(strip_minus(d) =~= body);
            assert(strip_plus(body) == body);
            assert(digits_ok(body));
            assert(int_literal_neg(d));
            assert(int_literal_val(d) == -(m * pow_int(10, (-s) as nat)));
            assert(u * pow_int(10, (-s) as nat) == -(m * pow_int(10, (-s) as nat))) by {
                vstd::arithmetic::mul::lemma_mul_unary_negation(m as int, pow_int(10, (-s) as nat));
            }
            assert(frac_len(d) == 0);
        }
    } else {
        let k = a.len() - s;
        assert(1 <= k < a.len());
        let body = a.take(k) + seq!['.'] + a.skip(k);
        assert(a.take(k) + a.skip(k) =~= a);
        assert(digits_val(a.take(k) + a.skip(k)) == m);
        if u >= 0 {
            assert(d == body);
            assert(d.len() == a.len() + 1);
            assert(forall|i: int| 0 <= i < d.len() ==> d[i] != 'e' && d[i] != 'E') by {
                assert(forall|i: int|
                    0 <= i < d.len() ==> d[i] == if i < k {
                        a[i]
                    } else if i == k {
                        '.'
                    } else {
                        a[i - 1]
                    });
            }
            lemma_exp_idx_none(d);
            assert(d.take(d.len() as int) =~= d);
            assert(forall|i: int| 0 <= i < k ==> d[i] == a[i] && d[i] != '.');
            assert(d[k] == '.');
            lemma_dot_idx_at(d, k);
            let digits = base_digits(d);
            assert(digits == d.take(k) + d.skip(k + 1));
            assert(d.take(k) =~= a.take(k));
            assert(d.skip(k + 1) =~= a.skip(k));
            assert(digits =~= a);
            assert(strip_minus(digits) == digits);
            assert(strip_plus(digits) == digits);
            assert(int_literal_val(digits) == m);
            assert(frac_len(d) == s);
        } else {
            assert(d == seq!['-'] + body);
            assert(d.len() == a.len() + 2);
            assert(forall|i: int| 0 <= i < d.len() ==> d[i] != 'e' && d[i] != 'E') by {
                assert(forall|i: int|
                    0 <= i < d.len() ==> d[i] == if i == 0 {
                        '-'
                    } else if i < k + 1 {
                        a[i - 1]
                    } else if i == k + 1 {
                        '.'
                    } else {
                        a[i - 2]
                    });
            }
            lemma_exp_idx_none(d);
            assert(d.take(d.len() as int) =~= d);
            assert(d[0] == '-');
            assert(forall|i: int| 1 <= i < k + 1 ==> d[i] == a[i - 1] && d[i] != '.');
            assert(d[k + 1] == '.');
            lemma_dot_idx_at(d, k + 1);
            let digits = base_digits(d);
            assert(digits == d.take(k + 1) + d.skip(k + 2));
            assert(d.take(k + 1) =~= seq!['-'] + a.take(k));
            assert(d.skip(k + 2) =~= a.skip(k));
            assert(digits =~= seq!['-'] + a);
            assert(digits[0] == '-' && digits[1] == a[0]);
            assert(strip_minus(digits) =~= a);
            assert(strip_plus(a) == a);
            assert(int_literal_neg(digits));
            assert(int_literal_val(digits) == -m);
            assert(frac_len(d) == s);
        }
    }
}

} // verus!
