//! The price-source capability: an interface returning a unit price for a
//! denomination, with one constant implementation. A real feed substitutes
//! for the constant one without any change to the valuation engine.

use vstd::prelude::*;
use crate::decimal::DecimalRatio;
use crate::decimal::PRICE_UNIT_SCALE;
use crate::decimal::spec_integer_units;

verus! {

/// A price lookup failed for a denomination.
#[derive(Debug, Clone, PartialEq, Eq)]
pub enum PriceError {
    Unavailable(String),
}

/// A source of unit prices. `spec_price` is the mathematical model of the
/// source: the `(numerator, denominator)` pair of the price it quotes for a
/// denomination, or `None` where it has no quote. `price_of` must answer
/// exactly as the model says, so every caller's contract can speak of the
/// model alone.
pub trait PriceOracle: Sized {
    spec fn spec_price(&self, denom: Seq<char>) -> Option<(u128, u128)>;

    fn price_of(&self, denom: &str) -> (r: Result<DecimalRatio, PriceError>)
        ensures
            match self.spec_price(denom@) {
                Some(nd) => ({
                    &&& r matches Ok(p)
                    &&& p.num() == nd.0
                    &&& p.den() == nd.1
                    &&& nd.1 > 0
                }),
                None => (r matches Err(e) && (e matches PriceError::Unavailable(d) && d@
                    == denom@)),
            },
    ;
}

/// The shipped placeholder source: every denomination is quoted at exactly
/// one value unit (`1.000000`). It never fails.
pub struct ConstantOracle;

impl PriceOracle for ConstantOracle {
    open spec fn spec_price(&self, denom: Seq<char>) -> Option<(u128, u128)> {
        Some((1u128, 1u128))
    }

    fn price_of(&self, denom: &str) -> (r: Result<DecimalRatio, PriceError>) {
        Ok(DecimalRatio::one())
    }
}

/// The constant unit price in integer units with six implied decimal
/// places: always `Ok(1000000)`.
pub fn get_price(denom: &str) -> (r: Result<u128, PriceError>)
    ensures
        r == Ok::<u128, PriceError>(PRICE_UNIT_SCALE),
{
    let oracle = ConstantOracle;
    match oracle.price_of(denom) {
        Ok(p) => {
            proof {
                assert(spec_integer_units(1u128, 1u128) == PRICE_UNIT_SCALE);
            }
            Ok(p.as_integer_units())
        },
        Err(e) => Err(e),
    }
}

} // verus!
