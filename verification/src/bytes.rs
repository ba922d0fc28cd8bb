//! Binary encodings: unsigned big-endian / little-endian magnitudes and
//! two's-complement signed forms, with their round-trip proofs.

use vstd::prelude::*;

use crate::arith::pow_int;

verus! {

/// Value of unsigned big-endian bytes (leading zeros allowed).
pub open spec fn ube_val(s: Seq<u8>) -> int
    decreases s.len(),
{
    if s.len() == 0 {
        0
    } else {
        256 * ube_val(s.drop_last()) + s.last()
    }
}

/// Value of unsigned little-endian bytes (trailing zeros allowed).
pub open spec fn ule_val(s: Seq<u8>) -> int
    decreases s.len(),
{
    if s.len() == 0 {
        0
    } else {
        s[0] + 256 * ule_val(s.skip(1))
    }
}

/// Canonical unsigned big-endian encoding of `n`: minimal length, except
/// that zero encodes as a single zero byte.
pub open spec fn ube_bytes(n: nat) -> Seq<u8>
    decreases n,
{
    if n < 256 {
        seq![n as u8]
    } else {
        ube_bytes(n / 256).push((n % 256) as u8)
    }
}

/// Canonical unsigned little-endian encoding of `n`: minimal length, except
/// that zero encodes as a single zero byte.
pub open spec fn ule_bytes(n: nat) -> Seq<u8>
    decreases n,
{
    if n < 256 {
        seq![n as u8]
    } else {
        seq![(n % 256) as u8] + ule_bytes(n / 256)
    }
}

/// Value of little-endian two's-complement bytes: the final byte's high bit
/// is the sign; the empty sequence denotes zero.
pub open spec fn sle_val(s: Seq<u8>) -> int
    decreases s.len(),
{
    if s.len() == 0 {
        0
    } else if s.len() == 1 {
        if s[0] < 128 {
            s[0] as int
        } else {
            s[0] - 256
        }
    } else {
        s[0] + 256 * sle_val(s.skip(1))
    }
}

/// Canonical little-endian two's-complement encoding of `i`: minimal
/// length, except that zero encodes as a single zero byte.
pub open spec fn sle_bytes(i: int) -> Seq<u8>
    decreases abs_byte_rank(i),
{
    if i == 0 {
        seq![0u8]
    } else if -128 <= i < 128 {
        seq![(i % 256) as u8]
    } else {
        seq![(i % 256) as u8] + sle_bytes(i / 256)
    }
}

/// Value of base-2^32 digits ordered least significant first.
pub open spec fn u32le_val(s: Seq<u32>) -> int
    decreases s.len(),
{
    if s.len() == 0 {
        0
    } else {
        s[0] + 0x1_0000_0000 * u32le_val(s.skip(1))
    }
}

/// Termination rank for `sle_bytes`.
pub open spec fn abs_byte_rank(i: int) -> nat {
    if i < 0 {
        (-i) as nat
    } else {
        i as nat
    }
}

/// Big-endian unsigned round trip: decoding the canonical encoding of `n`
/// yields `n` again.
pub proof fn lemma_ube_round_trip(n: nat)
    ensures
        ube_val(ube_bytes(n)) == n,
        ube_bytes(n).len() >= 1,
        n > 0 ==> ube_bytes(n)[0] != 0,
    decreases n,
{
    if n < 256 {
        let s = seq![n as u8];
        assert(s.drop_last() =~= Seq::<u8>::empty());
        assert(ube_val(Seq::<u8>::empty()) == 0);
        assert(s.last() == n as u8);
        assert(ube_val(s) == n);
    } else {
        vstd::arithmetic::div_mod::lemma_fundamental_div_mod(n as int, 256);
        vstd::arithmetic::div_mod::lemma_mod_bound(n as int, 256);
        vstd::arithmetic::div_mod::lemma_div_pos_is_pos(n as int, 256);
        assert(n / 256 >= 1);
        lemma_ube_round_trip(n / 256);
        let prefix = ube_bytes(n / 256);
        let s = ube_bytes(n);
        assert(s.drop_last() =~= prefix);
        assert(s.last() == (n % 256) as u8);
        assert(s[0] == prefix[0]);
    }
}

/// Little-endian unsigned round trip.
pub proof fn lemma_ule_round_trip(n: nat)
    ensures
        ule_val(ule_bytes(n)) == n,
        ule_bytes(n).len() >= 1,
        n > 0 ==> ule_bytes(n).last() != 0,
    decreases n,
{
    if n < 256 {
        let s = seq![n as u8];
        assert(s.skip(1) =~= Seq::<u8>::empty());
        assert(ule_val(Seq::<u8>::empty()) == 0);
        assert(s[0] == n as u8);
        assert(ule_val(s) == n);
    } else {
        vstd::arithmetic::div_mod::lemma_fundamental_div_mod(n as int, 256);
        vstd::arithmetic::div_mod::lemma_mod_bound(n as int, 256);
        vstd::arithmetic::div_mod::lemma_div_pos_is_pos(n as int, 256);
        assert(n / 256 >= 1);
        lemma_ule_round_trip(n / 256);
        let rest = ule_bytes(n / 256);
        let s = ule_bytes(n);
        assert(s.skip(1) =~= rest);
        assert(s[0] == (n % 256) as u8);
        assert(s.last() == rest.last());
    }
}

/// Little-endian two's-complement round trip.
pub proof fn lemma_sle_round_trip(i: int)
    ensures
        sle_val(sle_bytes(i)) == i,
        sle_bytes(i).len() >= 1,
    decreases abs_byte_rank(i),
{
    if i == 0 {
    } else if -128 <= i < 128 {
        let s = sle_bytes(i);
        if i >= 0 {
            assert(s[0] == i as u8);
        } else {
            assert(i % 256 == i + 256) by {
                vstd::arithmetic::div_mod::lemma_mod_add_multiples_vanish(i, 256);
                vstd::arithmetic::div_mod::lemma_small_mod((i + 256) as nat, 256);
            }
            assert(s[0] == (i + 256) as u8);
        }
    } else {
        vstd::arithmetic::div_mod::lemma_fundamental_div_mod(i, 256);
        assert(0 <= i % 256 < 256) by {
            vstd::arithmetic::div_mod::lemma_mod_bound(i, 256);
        }
        assert(abs_byte_rank(i / 256) < abs_byte_rank(i)) by {
            if i > 0 {
                vstd::arithmetic::div_mod::lemma_div_pos_is_pos(i, 256);
            }
        }
        lemma_sle_round_trip(i / 256);
        let rest = sle_bytes(i / 256);
        let s = sle_bytes(i);
        assert(s.skip(1) =~= rest);
        assert(s[0] == (i % 256) as u8);
        assert(s.len() >= 2);
        assert(sle_val(s) == i % 256 + 256 * (i / 256));
    }
}

/// Concrete powers of 256 up to the width of `u64`.
pub proof fn lemma_pow256_values()
    ensures
        pow_int(256, 0) == 1,
        pow_int(256, 1) == 0x100,
        pow_int(256, 2) == 0x1_0000,
        pow_int(256, 3) == 0x100_0000,
        pow_int(256, 4) == 0x1_0000_0000,
        pow_int(256, 5) == 0x100_0000_0000,
        pow_int(256, 6) == 0x1_0000_0000_0000,
        pow_int(256, 7) == 0x100_0000_0000_0000,
        pow_int(256, 8) == 0x1_0000_0000_0000_0000,
{
    assert(pow_int(256, 0) == 1);
    assert(pow_int(256, 1) == 0x100);
    assert(pow_int(256, 2) == 0x1_0000);
    assert(pow_int(256, 3) == 0x100_0000);
    assert(pow_int(256, 4) == 0x1_0000_0000);
    assert(pow_int(256, 5) == 0x100_0000_0000);
    assert(pow_int(256, 6) == 0x1_0000_0000_0000);
    assert(pow_int(256, 7) == 0x100_0000_0000_0000);
    assert(pow_int(256, 8) == 0x1_0000_0000_0000_0000);
}

/// Appending a byte to a little-endian run adds it at the next power of 256.
pub proof fn lemma_ule_val_push(s: Seq<u8>, x: u8)
    ensures
        ule_val(s.push(x)) == ule_val(s) + x * pow_int(256, s.len()),
    decreases s.len(),
{
    if s.len() == 0 {
        let t = s.push(x);
        assert(t.skip(1) =~= Seq::<u8>::empty());
        assert(ule_val(Seq::<u8>::empty()) == 0);
        assert(ule_val(t) == x);
        assert(pow_int(256, 0) == 1);
        vstd::arithmetic::mul::lemma_mul_basics(x as int);
    } else {
        let t = s.push(x);
        assert(t.skip(1) =~= s.skip(1).push(x));
        lemma_ule_val_push(s.skip(1), x);
        let p = pow_int(256, s.skip(1).len());
        assert(pow_int(256, s.len()) == 256 * p);
        assert(256 * (x * p) == x * (256 * p)) by (nonlinear_arith);
        assert(ule_val(t) == t[0] + 256 * ule_val(t.skip(1)));
        assert(t[0] == s[0]);
        assert(ule_val(t) == s[0] + 256 * (ule_val(s.skip(1)) + x * p));
    }
}

/// A little-endian run of `k` bytes denotes a value below `256^k`.
pub proof fn lemma_ule_val_bound(s: Seq<u8>)
    ensures
        0 <= ule_val(s) < pow_int(256, s.len()),
    decreases s.len(),
{
    if s.len() == 0 {
        assert(pow_int(256, 0) == 1);
    } else {
        lemma_ule_val_bound(s.skip(1));
        let p = pow_int(256, s.skip(1).len());
        assert(pow_int(256, s.len()) == 256 * p);
        assert(ule_val(s) == s[0] + 256 * ule_val(s.skip(1)));
        assert(256 * ule_val(s.skip(1)) <= 256 * p - 256);
    }
}

/// Length of the canonical little-endian encoding brackets the value
/// between neighboring powers of 256.
pub proof fn lemma_ule_bytes_len(n: nat)
    ensures
        ule_bytes(n).len() >= 1,
        n < pow_int(256, ule_bytes(n).len()),
        ule_bytes(n).len() > 1 ==> n >= pow_int(256, (ule_bytes(n).len() - 1) as nat),
    decreases n,
{
    if n < 256 {
        assert(ule_bytes(n).len() == 1);
        assert(pow_int(256, 1) == 256 * pow_int(256, 0));
        assert(pow_int(256, 0) == 1);
    } else {
        vstd::arithmetic::div_mod::lemma_fundamental_div_mod(n as int, 256);
        vstd::arithmetic::div_mod::lemma_mod_bound(n as int, 256);
        vstd::arithmetic::div_mod::lemma_div_pos_is_pos(n as int, 256);
        lemma_ule_bytes_len(n / 256);
        let rest = ule_bytes(n / 256);
        let len = ule_bytes(n).len();
        assert(len == rest.len() + 1);
        assert(pow_int(256, len) == 256 * pow_int(256, rest.len()));
        assert(n / 256 < pow_int(256, rest.len()));
        assert(256 * (n / 256) <= 256 * pow_int(256, rest.len()) - 256);
        assert(n < pow_int(256, len));
        if rest.len() == 1 {
            assert(n >= 256);
            assert(pow_int(256, 1) == 256 * pow_int(256, 0));
            assert(pow_int(256, 0) == 1);
        } else {
            assert(n / 256 >= pow_int(256, (rest.len() - 1) as nat));
            assert(256 * (n / 256) >= 256 * pow_int(256, (rest.len() - 1) as nat));
            assert(pow_int(256, rest.len()) == 256 * pow_int(256, (rest.len() - 1) as nat));
            assert(n >= 256 * (n / 256));
        }
    }
}

} // verus!
