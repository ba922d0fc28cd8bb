//! Decimal text: digit sequences, the literal grammars the parsers accept,
//! the canonical rendering the types produce, and round-trip proofs.

use vstd::prelude::*;

use crate::arith::pow_int;

verus! {

/// `10^e`.
pub open spec fn pow10(e: nat) -> int {
    pow_int(10, e)
}

/// `c` is an ASCII decimal digit.
pub open spec fn is_dec_digit(c: char) -> bool {
    '0' <= c && c <= '9'
}

/// Numeric value of a decimal digit character.
pub open spec fn digit_val(c: char) -> int {
    c as int - '0' as int
}

/// The digit character for `d` (meaningful for `0 <= d <= 9`).
pub open spec fn digit_char(d: int) -> char {
    if d == 0 {
        '0'
    } else if d == 1 {
        '1'
    } else if d == 2 {
        '2'
    } else if d == 3 {
        '3'
    } else if d == 4 {
        '4'
    } else if d == 5 {
        '5'
    } else if d == 6 {
        '6'
    } else if d == 7 {
        '7'
    } else if d == 8 {
        '8'
    } else {
        '9'
    }
}

/// Canonical decimal digits of `n`, most significant first, no leading
/// zeros (`0` renders as "0").
pub open spec fn dec_digits(n: nat) -> Seq<char>
    decreases n,
{
    if n < 10 {
        seq![digit_char(n as int)]
    } else {
        dec_digits(n / 10).push(digit_char((n % 10) as int))
    }
}

/// Number of decimal digits of `n` (1 for zero).
pub open spec fn count_digits(n: nat) -> nat
    decreases n,
{
    if n < 10 {
        1
    } else {
        1 + count_digits(n / 10)
    }
}

/// Canonical decimal rendering of a signed integer: a `-` sign when
/// negative, then the digits of the magnitude.
pub open spec fn str_of_int(i: int) -> Seq<char> {
    if i >= 0 {
        dec_digits(i as nat)
    } else {
        seq!['-'] + dec_digits((-i) as nat)
    }
}

/// Value of a digit run, underscores skipped (the integer parser's
/// digit-separator rule).
pub open spec fn digits_val(s: Seq<char>) -> int
    decreases s.len(),
{
    if s.len() == 0 {
        0
    } else if s.last() == '_' {
        digits_val(s.drop_last())
    } else {
        10 * digits_val(s.drop_last()) + digit_val(s.last())
    }
}

/// A digit run the integer parser accepts: nonempty, leading character a
/// real digit, the rest digits or underscores.
pub open spec fn digits_ok(s: Seq<char>) -> bool {
    &&& s.len() > 0
    &&& is_dec_digit(s[0])
    &&& forall|i: int| 0 <= i < s.len() ==> is_dec_digit(s[i]) || s[i] == '_'
}

/// The body after the integer parser strips a single leading `-`
/// (not stripped when a `+` follows it).
pub open spec fn strip_minus(s: Seq<char>) -> Seq<char> {
    if s.len() > 0 && s[0] == '-' && !(s.len() > 1 && s[1] == '+') {
        s.skip(1)
    } else {
        s
    }
}

/// Whether the integer literal is negative.
pub open spec fn int_literal_neg(s: Seq<char>) -> bool {
    s.len() > 0 && s[0] == '-'
}

/// The body after the magnitude parser strips a single leading `+`
/// (not stripped when another `+` follows it).
pub open spec fn strip_plus(s: Seq<char>) -> Seq<char> {
    if s.len() > 0 && s[0] == '+' && !(s.len() > 1 && s[1] == '+') {
        s.skip(1)
    } else {
        s
    }
}

/// The digit run of a decimal integer literal, signs stripped.
pub open spec fn int_literal_body(s: Seq<char>) -> Seq<char> {
    strip_plus(strip_minus(s))
}

/// The decimal integer grammar the arbitrary-precision parser accepts:
/// an optional sign, then a digit run.
pub open spec fn int_literal_ok(s: Seq<char>) -> bool {
    digits_ok(int_literal_body(s))
}

/// Value of a decimal integer literal.
pub open spec fn int_literal_val(s: Seq<char>) -> int {
    if int_literal_neg(s) {
        -digits_val(int_literal_body(s))
    } else {
        digits_val(int_literal_body(s))
    }
}

/// The characters that a buffer of ASCII bytes decodes to, one per byte.
pub open spec fn ascii_chars(b: Seq<u8>) -> Seq<char> {
    Seq::new(b.len(), |i: int| b[i] as char)
}

/// `k` zero characters.
pub open spec fn zeros(k: nat) -> Seq<char> {
    Seq::new(k, |i: int| '0')
}

/// Every character of `s` is a plain digit (no underscores).
pub open spec fn all_digits(s: Seq<char>) -> bool {
    forall|i: int| 0 <= i < s.len() ==> is_dec_digit(s[i])
}

pub proof fn lemma_digits_val_push(s: Seq<char>, c: char)
    requires
        c != '_',
    ensures
        digits_val(s.push(c)) == 10 * digits_val(s) + digit_val(c),
{
    assert(s.push(c).last() == c);
    assert(s.push(c).drop_last() =~= s);
}

/// The canonical digits of `n` form a digit run denoting `n`, with
/// `count_digits(n)` digits and no leading zero unless `n` is zero.
pub proof fn lemma_dec_digits(n: nat)
    ensures
        all_digits(dec_digits(n)),
        digits_ok(dec_digits(n)),
        digits_val(dec_digits(n)) == n,
        dec_digits(n).len() == count_digits(n),
        n > 0 ==> dec_digits(n)[0] != '0',
        n < 10 ==> dec_digits(n).len() == 1,
    decreases n,
{
    if n < 10 {
        assert(digits_val(seq![digit_char(n as int)]) == n) by {
            let s = seq![digit_char(n as int)];
            assert(s.drop_last() =~= Seq::<char>::empty());
            assert(s.last() == digit_char(n as int));
            assert(digit_val(digit_char(n as int)) == n);
            assert(digits_val(Seq::<char>::empty()) == 0);
        }
    } else {
        lemma_dec_digits(n / 10);
        let prefix = dec_digits(n / 10);
        let c = digit_char((n % 10) as int);
        lemma_digits_val_push(prefix, c);
        assert(digits_val(dec_digits(n)) == 10 * (n / 10) + n % 10);
        assert(10 * (n / 10) + n % 10 == n) by {
            vstd::arithmetic::div_mod::lemma_fundamental_div_mod(n as int, 10);
        }
        assert(dec_digits(n)[0] == prefix[0]);
        assert(forall|i: int| 0 <= i < dec_digits(n).len() ==> is_dec_digit(#[trigger] dec_digits(n)[i]))
            by {
            assert(forall|i: int| 0 <= i < prefix.len() ==> is_dec_digit(#[trigger] prefix[i]));
            assert(forall|i: int| 0 <= i < dec_digits(n).len() ==> dec_digits(n)[i] == if i
                < prefix.len() {
                prefix[i]
            } else {
                c
            });
        }
    }
}

/// The canonical rendering of `i` is a literal the parser accepts, and it
/// parses back to `i`: the textual round trip.
pub proof fn lemma_str_of_int_round_trip(i: int)
    ensures
        int_literal_ok(str_of_int(i)),
        int_literal_val(str_of_int(i)) == i,
{
    if i >= 0 {
        lemma_dec_digits(i as nat);
        let s = str_of_int(i);
        assert(s == dec_digits(i as nat));
        assert(s[0] != '-' && s[0] != '+');
        assert(strip_minus(s) == s);
        assert(strip_plus(s) == s);
    } else {
        lemma_dec_digits((-i) as nat);
        let d = dec_digits((-i) as nat);
        let s = str_of_int(i);
        assert(s.len() == 1 + d.len());
        assert(s[0] == '-');
        assert(s[1] == d[0]);
        assert(is_dec_digit(d[0]));
        assert(s[1] != '+');
        assert(strip_minus(s) =~= d);
        assert(strip_plus(d) == d);
        assert(int_literal_body(s) == d);
        assert(int_literal_neg(s));
    }
}

/// Every character of the canonical zero run is a digit and the run
/// denotes zero.
pub proof fn lemma_zeros(k: nat)
    ensures
        zeros(k).len() == k,
        all_digits(zeros(k)),
        digits_val(zeros(k)) == 0,
    decreases k,
{
    if k > 0 {
        lemma_zeros((k - 1) as nat);
        assert(zeros(k).drop_last() =~= zeros((k - 1) as nat));
        assert(zeros(k).last() == '0');
    }
}

/// Concatenating digit runs: the left run shifts by a power of ten given
/// by the right run's length (right run free of underscores).
pub proof fn lemma_digits_val_concat(x: Seq<char>, y: Seq<char>)
    requires
        all_digits(y),
    ensures
        digits_val(x + y) == digits_val(x) * pow10(y.len()) + digits_val(y),
    decreases y.len(),
{
    if y.len() == 0 {
        assert(x + y =~= x);
        assert(pow10(0) == 1);
        vstd::arithmetic::mul::lemma_mul_basics(digits_val(x));
    } else {
        let y0 = y.drop_last();
        let c = y.last();
        assert(all_digits(y0));
        lemma_digits_val_concat(x, y0);
        assert((x + y).drop_last() =~= x + y0);
        assert((x + y).last() == c);
        assert(is_dec_digit(c));
        assert(digits_val(x + y) == 10 * digits_val(x + y0) + digit_val(c));
        let p = pow10(y0.len());
        assert(pow10(y.len()) == 10 * p) by {
            assert(pow_int(10, y.len()) == 10 * pow_int(10, (y.len() - 1) as nat));
        }
        assert(10 * (digits_val(x) * p) == digits_val(x) * (10 * p)) by (nonlinear_arith);
    }
}

/// A run of digits denotes a nonnegative value.
pub proof fn lemma_digits_val_nonneg(s: Seq<char>)
    requires
        all_digits(s),
    ensures
        digits_val(s) >= 0,
    decreases s.len(),
{
    if s.len() > 0 {
        assert(all_digits(s.drop_last()));
        lemma_digits_val_nonneg(s.drop_last());
        assert(is_dec_digit(s.last()));
    }
}

/// A digit run dominates every prefix of itself.
pub proof fn lemma_digits_val_prefix(s: Seq<char>, j: int)
    requires
        all_digits(s),
        0 <= j <= s.len(),
    ensures
        digits_val(s) >= digits_val(s.take(j)),
{
    let p = s.take(j);
    let q = s.skip(j);
    assert(p + q =~= s);
    assert(all_digits(p));
    assert(all_digits(q));
    lemma_digits_val_concat(p, q);
    lemma_digits_val_nonneg(p);
    lemma_digits_val_nonneg(q);
    crate::arith::lemma_pow_int_pos(10, q.len());
    assert(digits_val(p) * pow10(q.len()) >= digits_val(p)) by (nonlinear_arith)
        requires
            digits_val(p) >= 0,
            pow10(q.len()) >= 1,
    ;
}

} // verus!
