//! Comparison of a uniform sample against an `f32` threshold.
//!
//! A threshold is the bit pattern of an IEEE-754 single-precision float. A
//! sample is an integer `k` below `2^24` that stands for the number `k / 2^24`:
//! the grid on which a uniform `f32` in `[0, 1)` is drawn.
use vstd::prelude::*;
use vstd::arithmetic::power2::*;
use vstd::arithmetic::mul::*;

verus! {

/// One past the largest sample: a sample `k` stands for `k / SAMPLE_LIMIT`.
pub const SAMPLE_LIMIT: u32 = 0x100_0000;

/// Bit pattern of `1.0f32`.
pub const ONE_BITS: u32 = 0x3f80_0000;

/// Bit pattern of `0.0f32`.
pub const ZERO_BITS: u32 = 0;

pub open spec fn sign_bit(t: u32) -> bool {
    t >= 0x8000_0000
}

pub open spec fn exponent_field(t: u32) -> nat {
    ((t / 0x80_0000) % 0x100) as nat
}

pub open spec fn fraction_field(t: u32) -> nat {
    (t % 0x80_0000) as nat
}

pub open spec fn is_nan(t: u32) -> bool {
    exponent_field(t) == 0xff && fraction_field(t) != 0
}

pub open spec fn is_infinite(t: u32) -> bool {
    exponent_field(t) == 0xff && fraction_field(t) == 0
}

/// The integer significand: a finite non-negative float `t` is
/// `significand(t) * 2^(scale(t) - 150)`.
pub open spec fn significand(t: u32) -> nat {
    if exponent_field(t) == 0 {
        fraction_field(t)
    } else {
        fraction_field(t) + 0x80_0000
    }
}

pub open spec fn scale(t: u32) -> nat {
    if exponent_field(t) == 0 {
        1
    } else {
        exponent_field(t)
    }
}

/// Whether the sample `k / 2^24` is at most the float whose bits are `t`,
/// as IEEE-754 orders numbers: nothing is at most NaN, only zero is at most
/// a zero of either sign, no sample is at most a negative number.
pub open spec fn sample_at_most(k: nat, t: u32) -> bool {
    if is_nan(t) {
        false
    } else if sign_bit(t) {
        k == 0 && exponent_field(t) == 0 && fraction_field(t) == 0
    } else if is_infinite(t) {
        true
    } else {
        // k / 2^24 <= significand * 2^(scale - 150), both sides times 2^150
        k * pow2(126) <= significand(t) * pow2(scale(t))
    }
}

/// A sample drawn from `[0, 1)`.
pub open spec fn is_sample(k: nat) -> bool {
    k < SAMPLE_LIMIT
}

/// Every sample in `[0, 1)` is at most `1.0`.
pub proof fn lemma_one_accepts_every_sample(k: nat)
    requires
        is_sample(k),
    ensures
        sample_at_most(k, ONE_BITS),
{
    assert(exponent_field(ONE_BITS) == 127 && fraction_field(ONE_BITS) == 0);
    lemma_pow2_adds(23, 1);
    lemma_pow2_adds(24, 126);
    lemma_pow2_adds(126, 1);
    lemma2_to64();
    lemma_pow2_pos(126);
    // 2^23 * 2^127 == 2^24 * 2^126 > k * 2^126
    lemma_mul_is_associative(0x80_0000, 2, pow2(126) as int);
    lemma_mul_strict_inequality(k as int, 0x100_0000, pow2(126) as int);
}

/// A threshold of `1.0` or more (infinity included) accepts every sample:
/// thresholds are not clamped, so such a toggle is always on.
pub proof fn lemma_large_threshold_accepts_every_sample(k: nat, t: u32)
    requires
        is_sample(k),
        !sign_bit(t),
        !is_nan(t),
        t >= ONE_BITS,
    ensures
        sample_at_most(k, t),
{
    let e = exponent_field(t);
    assert(e >= 127 && e == t / 0x80_0000);
    if !is_infinite(t) {
        let s: nat = (e - 126) as nat;
        lemma_pow2_adds(126, s);
        lemma_pow2_strictly_increases(0, s);
        lemma2_to64();
        lemma_pow2_pos(126);
        assert(significand(t) >= 0x80_0000 && scale(t) == e);
        // significand * 2^s >= 2^23 * 2 > k
        lemma_mul_inequality(0x80_0000, significand(t) as int, pow2(s) as int);
        lemma_mul_inequality(2, pow2(s) as int, 0x80_0000);
        lemma_mul_is_associative(significand(t) as int, pow2(s) as int, pow2(126) as int);
        lemma_scaled_le(k, (significand(t) * pow2(s)) as nat, pow2(126));
        assert(126 + s == e);
        lemma_mul_is_commutative(pow2(s) as int, pow2(126) as int);
        assert(significand(t) * pow2(s) >= 0x100_0000);
        assert(k * pow2(126) <= significand(t) * pow2(s) * pow2(126));
        assert(significand(t) * pow2(s) * pow2(126) == significand(t) * pow2(scale(t)));
    }
}

/// A negative threshold other than `-0.0` accepts no sample, so such a
/// toggle is always off.
pub proof fn lemma_negative_threshold_rejects_every_sample(k: nat, t: u32)
    requires
        sign_bit(t),
        t != 0x8000_0000,
    ensures
        !sample_at_most(k, t),
{
}

/// Only the sample `0` is at most `0.0`.
pub proof fn lemma_zero_rejects_positive_samples(k: nat)
    requires
        k > 0,
    ensures
        !sample_at_most(k, ZERO_BITS),
{
    assert(exponent_field(ZERO_BITS) == 0 && fraction_field(ZERO_BITS) == 0);
    lemma_pow2_pos(126);
    lemma_mul_strictly_positive(k as int, pow2(126) as int);
    assert(significand(ZERO_BITS) == 0 && scale(ZERO_BITS) == 1);
    lemma_mul_basics(pow2(1) as int);
}

proof fn lemma_scaled_le(a: nat, b: nat, c: nat)
    requires
        c > 0,
    ensures
        (a * c <= b * c) == (a <= b),
{
    if a <= b {
        lemma_mul_inequality(a as int, b as int, c as int);
    } else {
        lemma_mul_strict_inequality(b as int, a as int, c as int);
    }
}

/// Exact powers of two below `2^25`, computed by doubling.
fn pow2_exec(d: u32) -> (r: u64)
    requires
        d <= 24,
    ensures
        r as nat == pow2(d as nat),
{
    let mut r: u64 = 1;
    let mut i: u32 = 0;
    proof {
        lemma2_to64();
    }
    while i < d
        invariant
            i <= d,
            d <= 24,
            r as nat == pow2(i as nat),
        decreases d - i,
    {
        proof {
            lemma_pow2_unfold((i + 1) as nat);
            lemma_pow2_strictly_increases(i as nat, 25);
            lemma2_to64();
        }
        r = r * 2;
        i = i + 1;
    }
    r
}

/// Whether the sample `k / 2^24` is at most the float threshold with bits `t`.
pub fn sample_at_most_threshold(k: u32, t: u32) -> (r: bool)
    requires
        is_sample(k as nat),
    ensures
        r == sample_at_most(k as nat, t),
{
    let e: u32 = (t / 0x80_0000) % 0x100;
    let f: u32 = t % 0x80_0000;
    if e == 0xff && f != 0 {
        return false;
    }
    if t >= 0x8000_0000 {
        return k == 0 && e == 0 && f == 0;
    }
    if e == 0xff {
        return true;
    }
    let sig: u32 = if e == 0 { f } else { f + 0x80_0000 };
    let sc: u32 = if e == 0 { 1 } else { e };
    assert(sig as nat == significand(t) && sc as nat == scale(t));
    proof {
        lemma_pow2_pos(sc as nat);
        lemma_pow2_pos(126);
    }
    if k == 0 {
        proof {
            lemma_mul_nonnegative(sig as int, pow2(sc as nat) as int);
        }
        return true;
    }
    if sc > 126 {
        let s: u32 = sc - 126;
        proof {
            lemma_pow2_adds(126, s as nat);
            lemma_pow2_strictly_increases(0, s as nat);
            lemma2_to64();
            // sig * 2^s >= 2^23 * 2 > k
            lemma_mul_inequality(0x80_0000, sig as int, pow2(s as nat) as int);
            lemma_mul_inequality(2, pow2(s as nat) as int, 0x80_0000);
            lemma_mul_is_associative(sig as int, pow2(s as nat) as int, pow2(126) as int);
            lemma_scaled_le(k as nat, (sig * pow2(s as nat)) as nat, pow2(126));
        }
        return true;
    }
    let d: u32 = 126 - sc;
    proof {
        lemma_pow2_adds(d as nat, sc as nat);
        lemma_mul_is_associative(k as int, pow2(d as nat) as int, pow2(sc as nat) as int);
        lemma_scaled_le((k * pow2(d as nat)) as nat, sig as nat, pow2(sc as nat));
    }
    if d > 24 {
        proof {
            lemma_pow2_strictly_increases(24, d as nat);
            lemma2_to64();
            lemma_mul_inequality(1, k as int, pow2(d as nat) as int);
        }
        return false;
    }
    let p: u64 = pow2_exec(d);
    proof {
        lemma_pow2_strictly_increases(d as nat, 25);
        lemma2_to64();
        lemma_mul_strict_upper_bound(k as int, 0x100_0000, p as int, 0x200_0000);
    }
    (k as u64) * p <= sig as u64
}

} // verus!
