//! Milliseconds to one decimal, as a single-precision quotient reads when
//! printed: the microsecond count becomes the nearest single-precision number,
//! is divided by a thousand with the quotient rounded to single precision, and
//! that quotient is printed to tenths. Every rounding goes to the nearest
//! value, ties to even.

use vstd::prelude::*;
use vstd::arithmetic::power2::pow2;

verus! {

/// Significand bits of a single-precision number.
pub const SIG_BITS: u64 = 24;

/// `num / den` rounded to the nearest integer, ties to the even one.
pub open spec fn round_half_even(num: int, den: int) -> int {
    let q = num / den;
    let r = num % den;
    if 2 * r > den || (2 * r == den && q % 2 == 1) {
        q + 1
    } else {
        q
    }
}

/// How many low bits of `m` fall past a single-precision significand.
pub open spec fn excess_bits(m: nat) -> nat
    decreases m,
{
    if m < 16777216 {
        0
    } else {
        1 + excess_bits(m / 2)
    }
}

/// An integer as the nearest single-precision number: its significand and
/// the power of two that scales it.
pub open spec fn single_of_int(m: nat) -> (int, nat) {
    let k = excess_bits(m);
    (round_half_even(m as int, pow2(k) as int), k)
}

/// How many doublings bring `v` thousandths into the significand range
/// `[2^23, 2^24)`.
pub open spec fn thousandths_shift(v: nat) -> nat
    decreases 16777216000 - v,
{
    if v == 0 || v * 2 >= 16777216000 {
        0
    } else {
        1 + thousandths_shift(v * 2)
    }
}

/// The tenths of a millisecond a microsecond count prints as.
pub open spec fn ms_tenths(micros: nat) -> int {
    let (x, k) = single_of_int(micros);
    let v = x * pow2(k);
    let s = thousandths_shift(v as nat);
    let y = round_half_even(v * pow2(s), 1000);
    round_half_even(10 * y, pow2(s) as int)
}

fn rne(num: u64, den: u64) -> (r: u64)
    requires
        den > 0,
        num / den < u64::MAX,
    ensures
        r == round_half_even(num as int, den as int),
{
    let q = num / den;
    let r = num % den;
    if 2 * (r as u128) > den as u128 || (2 * (r as u128) == den as u128 && q % 2 == 1) {
        q + 1
    } else {
        q
    }
}

proof fn lemma_excess_step(m: nat, p: nat, k: nat)
    requires
        p == pow2(k),
        m / p >= 16777216,
    ensures
        excess_bits(m / p) == 1 + excess_bits(m / (2 * p)),
{
    vstd::arithmetic::power2::lemma_pow2_pos(k);
    vstd::arithmetic::div_mod::lemma_div_denominator(m as int, p as int, 2);
}

/// The tenths of a millisecond `micros` prints as.
pub fn millis_tenths(micros: u32) -> (r: u64)
    ensures
        r == ms_tenths(micros as nat),
{
    proof {
        vstd::arithmetic::power2::lemma2_to64();
    }
    let m = micros as u64;
    let mut p: u64 = 1;
    let ghost mut k: nat = 0;
    while m / p >= 16777216
        invariant
            p == pow2(k),
            1 <= p < 512,
            m < 0x1_0000_0000,
            excess_bits(m as nat) == k + excess_bits((m / p) as nat),
        decreases 512 - p,
    {
        assert(p * 16777216 <= m) by (nonlinear_arith)
            requires
                m / p >= 16777216,
                p >= 1,
        ;
        proof {
            vstd::arithmetic::power2::lemma2_to64();
            lemma_excess_step(m as nat, p as nat, k);
            vstd::arithmetic::power2::lemma_pow2_unfold(k + 1);
            k = k + 1;
        }
        p = p * 2;
    }
    proof {
        assert(excess_bits((m / p) as nat) == 0);
        assert(excess_bits(m as nat) == k);
    }
    let x = rne(m, p);
    assert(x <= 16777216) by (nonlinear_arith)
        requires
            x == round_half_even(m as int, p as int),
            m / p < 16777216,
            p >= 1,
    {
        assert(m % p < p);
    }
    assert(x * p < 0x2_0000_0000) by (nonlinear_arith)
        requires
            x <= 16777216,
            p < 512,
    ;
    let v = x * p;
    let mut scaled: u64 = v;
    let mut s: u64 = 0;
    let mut p2: u64 = 1;
    while scaled > 0 && scaled * 2 < 16777216000
        invariant
            scaled == v * p2,
            p2 == pow2(s as nat),
            1 <= p2,
            s <= 34,
            v > 0 ==> p2 <= scaled,
            scaled < 16777216000 || scaled == v,
            v < 0x2_0000_0000,
            thousandths_shift(v as nat) == s + thousandths_shift(scaled as nat),
        decreases 16777216000 - scaled,
    {
        assert(v > 0) by (nonlinear_arith)
            requires
                scaled == v * p2,
                scaled > 0,
        ;
        proof {
            vstd::arithmetic::power2::lemma2_to64();
            vstd::arithmetic::power2::lemma2_to64_rest();
            vstd::arithmetic::power2::lemma_pow2_unfold((s + 1) as nat);
            if s + 1 > 34 {
                vstd::arithmetic::power2::lemma_pow2_strictly_increases(34, (s + 1) as nat);
            }
        }
        assert(v * (p2 * 2) == scaled * 2) by (nonlinear_arith)
            requires
                scaled == v * p2,
        ;
        scaled = scaled * 2;
        p2 = p2 * 2;
        s = s + 1;
    }
    let y = rne(scaled, 1000);
    assert(y <= 0x1_0000_0000) by (nonlinear_arith)
        requires
            y == round_half_even(scaled as int, 1000),
            scaled < 0x10_0000_0000,
    {
        assert(scaled % 1000 < 1000);
    }
    let t = rne(10 * y, p2);
    t
}

} // verus!
