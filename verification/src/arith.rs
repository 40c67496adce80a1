//! Saturating 128-bit arithmetic used by the valuation engine: every
//! multiplication and addition caps at `u128::MAX` instead of wrapping or
//! trapping, so an oversized position can never abort a valuation cycle.

use vstd::prelude::*;

verus! {

/// Product of `a` and `b`, capped at `u128::MAX`.
pub open spec fn sat_mul_u128(a: u128, b: u128) -> u128 {
    if a * b > u128::MAX {
        u128::MAX
    } else {
        (a * b) as u128
    }
}

/// Sum of `a` and `b`, capped at `u128::MAX`.
pub open spec fn sat_add_u128(a: u128, b: u128) -> u128 {
    if a + b > u128::MAX {
        u128::MAX
    } else {
        (a + b) as u128
    }
}

/// Saturating multiplication.
pub fn mul_sat(a: u128, b: u128) -> (r: u128)
    ensures
        r == sat_mul_u128(a, b),
{
    match a.checked_mul(b) {
        Some(p) => p,
        None => u128::MAX,
    }
}

/// Saturating addition.
pub fn add_sat(a: u128, b: u128) -> (r: u128)
    ensures
        r == sat_add_u128(a, b),
{
    a.saturating_add(b)
}

/// `10^d`, exactly.
pub open spec fn pow10(d: nat) -> int
    decreases d,
{
    if d == 0 {
        1int
    } else {
        10 * pow10((d - 1) as nat)
    }
}

pub proof fn lemma_pow10_pos(d: nat)
    ensures
        pow10(d) >= 1,
    decreases d,
{
    if d > 0 {
        lemma_pow10_pos((d - 1) as nat);
    }
}

pub proof fn lemma_pow10_mono(i: nat, j: nat)
    requires
        i <= j,
    ensures
        pow10(i) <= pow10(j),
    decreases j,
{
    if i < j {
        lemma_pow10_mono(i, (j - 1) as nat);
        lemma_pow10_pos((j - 1) as nat);
    }
}

/// `10^38` still fits in 128 bits; `10^39` does not.
pub proof fn lemma_pow10_range()
    ensures
        pow10(38) <= u128::MAX,
        pow10(39) > u128::MAX,
{
    reveal_with_fuel(pow10, 40);
    assert(pow10(38) == 100000000000000000000000000000000000000int);
}

/// Beyond thirty-eight digits the exact power leaves the 128-bit range.
pub proof fn lemma_pow10_big(d: nat)
    requires
        d >= 39,
    ensures
        pow10(d) > u128::MAX,
{
    lemma_pow10_range();
    lemma_pow10_mono(39, d);
}

/// `10^d`, capped at `u128::MAX`.
pub open spec fn pow10_sat(d: nat) -> u128
    decreases d,
{
    if d == 0 {
        1u128
    } else {
        sat_mul_u128(pow10_sat((d - 1) as nat), 10)
    }
}

/// Up to `10^38` the capped and the exact powers agree.
pub proof fn lemma_pow10_sat_exact(d: nat)
    requires
        d <= 38,
    ensures
        pow10_sat(d) == pow10(d),
        pow10(d) <= u128::MAX,
    decreases d,
{
    lemma_pow10_range();
    lemma_pow10_mono(d, 38);
    if d > 0 {
        lemma_pow10_sat_exact((d - 1) as nat);
    }
}

/// Once the capped power of ten reaches the cap it stays there.
pub proof fn lemma_pow10_sat_stays_max(i: nat, d: nat)
    requires
        i <= d,
        pow10_sat(i) == u128::MAX,
    ensures
        pow10_sat(d) == u128::MAX,
    decreases d - i,
{
    if i < d {
        lemma_pow10_sat_stays_max(i, (d - 1) as nat);
    }
}

/// `10^d` with saturation; runs in at most 39 steps because the
/// accumulator caps out.
pub fn pow10_saturating(d: u128) -> (r: u128)
    ensures
        r == pow10_sat(d as nat),
{
    let mut acc: u128 = 1;
    let mut i: u128 = 0;
    while i < d
        invariant_except_break
            i <= d,
            acc == pow10_sat(i as nat),
        ensures
            acc == pow10_sat(d as nat),
        decreases d - i,
    {
        if acc == u128::MAX {
            proof {
                lemma_pow10_sat_stays_max(i as nat, d as nat);
            }
            break ;
        }
        acc = mul_sat(acc, 10);
        i = i + 1;
    }
    acc
}

} // verus!
