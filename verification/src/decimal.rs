//! An exact rational number tracked as an unsigned numerator/denominator
//! pair. It stands in for both unit prices and the final collateralization
//! ratio; no floating point is involved anywhere.

use vstd::prelude::*;
use crate::arith::sat_mul_u128;
use crate::arith::mul_sat;

verus! {

/// Number of integer units in one whole value unit: prices carry six
/// implied decimal places.
pub const PRICE_UNIT_SCALE: u128 = 1000000;

/// `d` divides `x` evenly.
pub open spec fn divides(d: int, x: int) -> bool {
    x % d == 0
}

/// The unit-price integer representation of the rational `num/den`:
/// `floor(num * PRICE_UNIT_SCALE / den)`, with the scaling capped at
/// `u128::MAX`.
pub open spec fn spec_integer_units(num: u128, den: u128) -> u128 {
    if den == 0 {
        0u128
    } else {
        (sat_mul_u128(num, PRICE_UNIT_SCALE) as int / den as int) as u128
    }
}

/// An exact rational with a strictly positive denominator. Zero is
/// representable (`0/1`) and is distinct from "undefined": the zero-debt
/// ratio is this value, never an error.
#[derive(Debug, Clone, Copy, PartialEq, Eq, Structural)]
pub struct DecimalRatio {
    numerator: u128,
    denominator: u128,
}

impl DecimalRatio {
    pub closed spec fn num(self) -> u128 {
        self.numerator
    }

    pub closed spec fn den(self) -> u128 {
        self.denominator
    }

    /// The denominator is strictly positive.
    pub open spec fn wf(self) -> bool {
        self.den() > 0
    }

    pub open spec fn is_zero(self) -> bool {
        self.num() == 0
    }

    pub fn from_ratio(numerator: u128, denominator: u128) -> (r: DecimalRatio)
        requires
            denominator > 0,
        ensures
            r.num() == numerator,
            r.den() == denominator,
            r.wf(),
    {
        DecimalRatio { numerator, denominator }
    }

    pub fn zero() -> (r: DecimalRatio)
        ensures
            r.num() == 0,
            r.den() == 1,
            r.wf(),
            r.is_zero(),
    {
        DecimalRatio { numerator: 0, denominator: 1 }
    }

    pub fn one() -> (r: DecimalRatio)
        ensures
            r.num() == 1,
            r.den() == 1,
            r.wf(),
    {
        DecimalRatio { numerator: 1, denominator: 1 }
    }

    pub fn numerator(&self) -> (n: u128)
        ensures
            n == self.num(),
    {
        self.numerator
    }

    pub fn denominator(&self) -> (d: u128)
        ensures
            d == self.den(),
    {
        self.denominator
    }

    /// The price in integer units with six implied decimal places.
    pub fn as_integer_units(&self) -> (u: u128)
        requires
            self.wf(),
        ensures
            u == spec_integer_units(self.num(), self.den()),
    {
        let scaled = mul_sat(self.numerator, PRICE_UNIT_SCALE);
        scaled / self.denominator
    }

    /// The same rational value in lowest terms: numerator and denominator
    /// divided by their greatest common divisor, so that only one divides
    /// both.
    pub fn reduce(&self) -> (r: DecimalRatio)
        requires
            self.wf(),
        ensures
            r.wf(),
            r.num() * self.den() == self.num() * r.den(),
            forall|k: int|
                1 <= k && divides(k, r.num() as int) && divides(k, r.den() as int) ==> k == 1,
    {
        let g = gcd(self.numerator, self.denominator);
        let n = self.numerator / g;
        let d = self.denominator / g;
        proof {
            vstd::arithmetic::div_mod::lemma_fundamental_div_mod(
                self.numerator as int,
                g as int,
            );
            vstd::arithmetic::div_mod::lemma_fundamental_div_mod(
                self.denominator as int,
                g as int,
            );
            assert(n * g == self.numerator && d * g == self.denominator) by (nonlinear_arith)
                requires
                    g > 0,
                    self.numerator as int % (g as int) == 0,
                    self.denominator as int % (g as int) == 0,
                    self.numerator as int == (g as int) * (self.numerator as int / g as int)
                        + self.numerator as int % g as int,
                    self.denominator as int == (g as int) * (self.denominator as int / g as int)
                        + self.denominator as int % g as int,
                    n == self.numerator as int / g as int,
                    d == self.denominator as int / g as int,
            ;
            assert(d > 0) by (nonlinear_arith)
                requires
                    d * g == self.denominator,
                    self.denominator > 0,
                    g > 0,
                    d >= 0,
            ;
            assert(n * (d * g) == (n * g) * d) by (nonlinear_arith);
            assert forall|k: int|
                1 <= k && divides(k, n as int) && divides(k, d as int) implies k == 1 by {
                vstd::arithmetic::div_mod::lemma_fundamental_div_mod(n as int, k);
                vstd::arithmetic::div_mod::lemma_fundamental_div_mod(d as int, k);
                let nk = n as int / k;
                let dk = d as int / k;
                assert(self.numerator as int == (k * g) * nk && self.denominator as int == (k * g)
                    * dk) by (nonlinear_arith)
                    requires
                        n * g == self.numerator,
                        d * g == self.denominator,
                        n as int == k * nk,
                        d as int == k * dk,
                ;
                vstd::arithmetic::div_mod::lemma_mod_multiples_basic(nk, k * g);
                vstd::arithmetic::div_mod::lemma_mod_multiples_basic(dk, k * g);
                assert(k * g >= 1) by (nonlinear_arith)
                    requires
                        k >= 1,
                        g >= 1,
                ;
                assert(divides(k * g, self.numerator as int));
                assert(divides(k * g, self.denominator as int));
                // The gcd is divided by every common divisor, so k * g
                // divides g; for k >= 2 that is impossible.
                assert(divides(k * g, g as int));
                if k >= 2 {
                    assert(k * g >= 2 * g) by (nonlinear_arith)
                        requires
                            k >= 2,
                            g >= 0,
                    ;
                    vstd::arithmetic::div_mod::lemma_small_mod(g as nat, (k * g) as nat);
                }
            }
        }
        DecimalRatio { numerator: n, denominator: d }
    }
}

/// Euclid's algorithm: the greatest common divisor of `a` and `b` —
/// strictly positive, dividing both, and divided by every other common
/// divisor.
pub fn gcd(a: u128, b: u128) -> (g: u128)
    requires
        a > 0 || b > 0,
    ensures
        g > 0,
        divides(g as int, a as int),
        divides(g as int, b as int),
        forall|d: int|
            1 <= d && divides(d, a as int) && divides(d, b as int) ==> divides(d, g as int),
{
    let mut x = a;
    let mut y = b;
    while y != 0
        invariant
            x > 0 || y > 0,
            forall|d: int|
                1 <= d ==> ((divides(d, x as int) && divides(d, y as int)) <==> (divides(
                    d,
                    a as int,
                ) && divides(d, b as int))),
        decreases y,
    {
        let r = x % y;
        proof {
            lemma_euclid_step(x as int, y as int, r as int);
        }
        x = y;
        y = r;
    }
    proof {
        assert(divides(x as int, x as int)) by (nonlinear_arith)
            requires
                x > 0,
        ;
        assert(divides(x as int, 0int)) by (nonlinear_arith)
            requires
                x > 0,
        ;
        assert forall|d: int|
            1 <= d && divides(d, a as int) && divides(d, b as int) implies divides(
            d,
            x as int,
        ) by {
            assert(0int % d == 0);
        }
    }
    x
}

/// One Euclid step keeps the set of common divisors exactly: a positive
/// `d` divides `y` and `x % y` iff it divides `x` and `y`.
proof fn lemma_euclid_step(x: int, y: int, r: int)
    requires
        x >= 0,
        y > 0,
        r == x % y,
    ensures
        forall|d: int|
            1 <= d ==> ((divides(d, y) && divides(d, r)) <==> (divides(d, x) && divides(d, y))),
{
    vstd::arithmetic::div_mod::lemma_fundamental_div_mod(x, y);
    let q = x / y;
    assert forall|d: int|
        1 <= d implies ((divides(d, y) && divides(d, r)) <==> (divides(d, x) && divides(
        d,
        y,
    ))) by {
        vstd::arithmetic::div_mod::lemma_fundamental_div_mod(y, d);
        let ky = y / d;
        if divides(d, y) && divides(d, r) {
            vstd::arithmetic::div_mod::lemma_fundamental_div_mod(r, d);
            let kr = r / d;
            assert(x == d * (ky * q + kr)) by (nonlinear_arith)
                requires
                    x == y * q + r,
                    y == d * ky,
                    r == d * kr,
            ;
            vstd::arithmetic::div_mod::lemma_mod_multiples_basic(ky * q + kr, d);
        }
        if divides(d, x) && divides(d, y) {
            vstd::arithmetic::div_mod::lemma_fundamental_div_mod(x, d);
            let kx = x / d;
            assert(r == d * (kx - ky * q)) by (nonlinear_arith)
                requires
                    x == y * q + r,
                    y == d * ky,
                    x == d * kx,
            ;
            vstd::arithmetic::div_mod::lemma_mod_multiples_basic(kx - ky * q, d);
        }
    }
}

} // verus!
