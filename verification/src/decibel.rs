//! The decibel scale of the analyzer, on fixed-point integers.
//!
//! A bin's squared magnitude is handed to the library as a `u64` in units of
//! 1e-10, the silence floor: a power `p` on that scale stands for the real
//! power `p * 1e-10`, so its decibel value is `10 * log10(p) - 100`. The
//! conversion is quantized down to whole decibels and computed exactly on
//! integers: the decade of `p` (its integer base-10 logarithm) contributes
//! 10 dB, and nine fixed thresholds cut each decade into single decibels.
//! A power of zero is clamped to the floor of -100 dB, so silence never
//! produces an unbounded value.

use vstd::prelude::*;
use vstd::arithmetic::div_mod::*;

verus! {

/// 10^e as a mathematical integer.
pub open spec fn pow10(e: nat) -> nat
    decreases e,
{
    if e == 0 {
        1
    } else {
        10 * pow10((e - 1) as nat)
    }
}

/// The decade of `p`: floor(log10 p), the number of times `p` divides by 10
/// before dropping below 10.
pub open spec fn decade(p: nat) -> nat
    decreases p,
{
    if p < 10 {
        0
    } else {
        1 + decade(p / 10)
    }
}

/// Threshold `j` cuts a decade at `j` whole decibels above its floor:
/// entry `j` is 1000 * 10^(j/10), rounded to the nearest integer, so `p`
/// sits at least `j` dB above `10^d` exactly when `p * 1000 >= thresh(j) * 10^d`.
pub open spec fn thresh(j: int) -> int {
    if j == 1 {
        1259
    } else if j == 2 {
        1585
    } else if j == 3 {
        1995
    } else if j == 4 {
        2512
    } else if j == 5 {
        3162
    } else if j == 6 {
        3981
    } else if j == 7 {
        5012
    } else if j == 8 {
        6310
    } else {
        7943
    }
}

/// Whether `p` lies at least `j` whole decibels above the floor of its decade.
pub open spec fn above(p: nat, j: int) -> bool {
    p * 1000 >= thresh(j) * pow10(decade(p))
}

/// How many whole decibels `p` lies above the floor of its decade: 0 to 9.
pub open spec fn frac_db(p: nat) -> int {
    (if above(p, 1) { 1int } else { 0 }) + (if above(p, 2) { 1int } else { 0 })
        + (if above(p, 3) { 1int } else { 0 }) + (if above(p, 4) { 1int } else { 0 })
        + (if above(p, 5) { 1int } else { 0 }) + (if above(p, 6) { 1int } else { 0 })
        + (if above(p, 7) { 1int } else { 0 }) + (if above(p, 8) { 1int } else { 0 })
        + (if above(p, 9) { 1int } else { 0 })
}

/// The decibel value of a bin of power `p` (in units of 1e-10): the whole-dB
/// quantization of `10 * log10(p) - 100`, with zero clamped to the -100 dB
/// silence floor.
pub open spec fn spec_db(p: nat) -> int {
    if p == 0 {
        -100
    } else {
        -100 + 10 * decade(p) + frac_db(p)
    }
}

/// Powers of ten only grow: `pow10` is monotone in its exponent.
pub proof fn lemma_pow10_monotone(e1: nat, e2: nat)
    requires
        e1 <= e2,
    ensures
        pow10(e1) <= pow10(e2),
    decreases e2,
{
    if e1 < e2 {
        lemma_pow10_monotone(e1, (e2 - 1) as nat);
    }
}

/// The floor of a decade never exceeds its members: `10^decade(p) <= p`.
pub proof fn lemma_pow10_decade_le(p: nat)
    requires
        1 <= p,
    ensures
        pow10(decade(p)) <= p,
    decreases p,
{
    if p >= 10 {
        lemma_pow10_decade_le(p / 10);
        lemma_fundamental_div_mod(p as int, 10);
    }
}

/// The decade is monotone: a larger power never falls in an earlier decade.
pub proof fn lemma_decade_monotone(p1: nat, p2: nat)
    requires
        1 <= p1 <= p2,
    ensures
        decade(p1) <= decade(p2),
    decreases p2,
{
    if p1 >= 10 {
        lemma_div_is_ordered(p1 as int, p2 as int, 10);
        lemma_decade_monotone(p1 / 10, p2 / 10);
    }
}

/// The in-decade part of the scale is at most nine whole decibels.
pub proof fn lemma_frac_db_bounds(p: nat)
    ensures
        0 <= frac_db(p) <= 9,
{
}

/// The decibel scale is monotone: more power never reads as fewer decibels.
pub proof fn lemma_db_monotone(p1: nat, p2: nat)
    requires
        p1 <= p2,
    ensures
        spec_db(p1) <= spec_db(p2),
{
    if p1 == 0 {
        if p2 != 0 {
            lemma_frac_db_bounds(p2);
        }
    } else {
        lemma_decade_monotone(p1, p2);
        lemma_frac_db_bounds(p1);
        lemma_frac_db_bounds(p2);
        if decade(p1) == decade(p2) {
            assert(frac_db(p1) <= frac_db(p2));
        }
    }
}

/// Decibel value of one bin's power, in units of 1e-10 of full scale.
///
/// Computes exactly the fixed-point scale `spec_db`: the decade by repeated
/// division, the in-decade decibel by the nine thresholds.
pub fn db_of_power(p: u64) -> (r: i32)
    ensures
        r == spec_db(p as nat),
{
    if p == 0 {
        return -100;
    }
    proof {
        lemma_pow10_decade_le(p as nat);
        reveal_with_fuel(pow10, 21);
        assert(pow10(20) > u64::MAX);
        if decade(p as nat) >= 20 {
            lemma_pow10_monotone(20, decade(p as nat));
        }
    }
    let mut x: u64 = p;
    let mut d: u32 = 0;
    let mut pw: u64 = 1;
    while x >= 10
        invariant
            1 <= x,
            1 <= p,
            decade(p as nat) <= 19,
            decade(p as nat) == d + decade(x as nat),
            pw == pow10(d as nat),
            pow10(decade(p as nat)) <= p,
        decreases x,
    {
        proof {
            lemma_pow10_monotone((d + 1) as nat, decade(p as nat));
        }
        x = x / 10;
        d = d + 1;
        pw = pw * 10;
    }
    let pq: u128 = (p as u128) * 1000;
    let pwq: u128 = pw as u128;
    let mut t: i32 = 0;
    if pq >= 1259 * pwq {
        t = t + 1;
    }
    if pq >= 1585 * pwq {
        t = t + 1;
    }
    if pq >= 1995 * pwq {
        t = t + 1;
    }
    if pq >= 2512 * pwq {
        t = t + 1;
    }
    if pq >= 3162 * pwq {
        t = t + 1;
    }
    if pq >= 3981 * pwq {
        t = t + 1;
    }
    if pq >= 5012 * pwq {
        t = t + 1;
    }
    if pq >= 6310 * pwq {
        t = t + 1;
    }
    if pq >= 7943 * pwq {
        t = t + 1;
    }
    -100 + 10 * (d as i32) + t
}

} // verus!
