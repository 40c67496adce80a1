//! The valuation engine: it turns one token position into a value in
//! integer units and sums a position set into a total. Every step
//! saturates at `u128::MAX`, so valuation itself never fails; only a
//! missing price aborts it.
//!
//! The value formula applies the unit price twice — once before and once
//! after the decimal normalization. That double application is the
//! contract this engine is held to: downstream consumers compare against
//! exactly this arithmetic, so it must not be silently "corrected" to a
//! single application.

use vstd::prelude::*;
use crate::arith::mul_sat;
use crate::arith::add_sat;
use crate::arith::sat_mul_u128;
use crate::arith::sat_add_u128;
use crate::arith::pow10;
use crate::arith::pow10_saturating;
use crate::arith::lemma_pow10_pos;
use crate::arith::lemma_pow10_big;
use crate::arith::lemma_pow10_sat_exact;
use crate::positions::TokenAmount;
use crate::positions::PositionSet;
use crate::oracle::PriceOracle;
use crate::oracle::PriceError;
use crate::decimal::spec_integer_units;

verus! {

/// The number of smallest-unit digits per whole token, applied uniformly
/// until a per-denomination metadata lookup supplies real values.
pub const DEFAULT_TOKEN_DECIMALS: u128 = 6;

/// Valuation failed; arithmetic never raises (it saturates), so the only
/// cause is a price the oracle could not supply.
#[derive(Debug, Clone, PartialEq, Eq)]
pub enum ValuationError {
    Price(PriceError),
}

/// The value of a position of `magnitude` smallest units under unit price
/// `price` (integer units) and `decimals` digits of precision:
/// `((magnitude * price) / 10^decimals) * price`, each product capped at
/// `u128::MAX` and the division flooring against the exact power of ten
/// (so thirty-nine or more digits of precision floor every value to
/// zero).
pub open spec fn spec_token_value(magnitude: u128, price: u128, decimals: u128) -> u128 {
    let scaled = sat_mul_u128(magnitude, price);
    let normalized = if decimals > 0 {
        (scaled as int / pow10(decimals as nat)) as u128
    } else {
        scaled
    };
    sat_mul_u128(normalized, price)
}

/// The integer-unit price the oracle model quotes for this position's
/// denomination, where it quotes one.
pub open spec fn spec_price_units<O: PriceOracle>(position: TokenAmount, oracle: &O) -> Option<
    u128,
> {
    match oracle.spec_price(position.denom@) {
        Some(nd) => Some(spec_integer_units(nd.0, nd.1)),
        None => None,
    }
}

/// Every position in the sequence has a quoted price.
pub open spec fn all_priced<O: PriceOracle>(positions: Seq<TokenAmount>, oracle: &O) -> bool {
    forall|i: int|
        0 <= i < positions.len() ==> oracle.spec_price(positions[i].denom@) is Some
}

/// Index of the first position without a quoted price.
pub open spec fn first_unpriced<O: PriceOracle>(positions: Seq<TokenAmount>, oracle: &O) -> int
    decreases positions.len(),
{
    if positions.len() == 0 {
        0
    } else if oracle.spec_price(positions[0].denom@) is None {
        0
    } else {
        1 + first_unpriced(positions.drop_first(), oracle)
    }
}

/// The saturating sum of the values of all positions; an empty sequence
/// sums to zero. Positions the model leaves unpriced contribute nothing
/// here; the executable functions fail on them instead.
pub open spec fn spec_sum_values<O: PriceOracle>(
    positions: Seq<TokenAmount>,
    decimals: u128,
    oracle: &O,
) -> u128
    decreases positions.len(),
{
    if positions.len() == 0 {
        0u128
    } else {
        let last_value = match spec_price_units(positions.last(), oracle) {
            Some(p) => spec_token_value(positions.last().magnitude, p, decimals),
            None => 0u128,
        };
        sat_add_u128(spec_sum_values(positions.drop_last(), decimals, oracle), last_value)
    }
}

/// The value of one position: the saturating double-price formula, or the
/// unavailable-price error for the position's denomination.
pub fn get_token_value<O: PriceOracle>(
    position: &TokenAmount,
    token_decimals: u128,
    oracle: &O,
) -> (r: Result<u128, ValuationError>)
    ensures
        match spec_price_units(*position, oracle) {
            Some(p) => r == Ok::<u128, ValuationError>(
                spec_token_value(position.magnitude, p, token_decimals),
            ),
            None => (r matches Err(ValuationError::Price(PriceError::Unavailable(d))) && d@
                == position.denom@),
        },
{
    match oracle.price_of(position.denom.as_str()) {
        Err(e) => Err(ValuationError::Price(e)),
        Ok(p) => {
            let price = p.as_integer_units();
            let scaled = mul_sat(position.magnitude, price);
            let normalized = if token_decimals == 0 {
                scaled
            } else if token_decimals > 38 {
                // The exact power of ten exceeds every 128-bit value, so
                // the flooring division yields zero.
                proof {
                    lemma_pow10_big(token_decimals as nat);
                    vstd::arithmetic::div_mod::lemma_basic_div(
                        scaled as int,
                        pow10(token_decimals as nat),
                    );
                }
                0
            } else {
                proof {
                    lemma_pow10_sat_exact(token_decimals as nat);
                    lemma_pow10_pos(token_decimals as nat);
                }
                let divisor = pow10_saturating(token_decimals);
                scaled / divisor
            };
            Ok(mul_sat(normalized, price))
        },
    }
}

/// The total value of a position set: the saturating sum of `get_token_value`
/// over every element, zero for an empty set. Fails exactly where the
/// oracle leaves some position unpriced, with the error for the first such
/// position.
pub fn sum_values<O: PriceOracle>(
    positions: &PositionSet,
    token_decimals: u128,
    oracle: &O,
) -> (r: Result<u128, ValuationError>)
    ensures
        all_priced(positions@, oracle) ==> r == Ok::<u128, ValuationError>(
            spec_sum_values(positions@, token_decimals, oracle),
        ),
        !all_priced(positions@, oracle) ==> (r matches Err(
            ValuationError::Price(PriceError::Unavailable(d)),
        ) && d@ == positions@[first_unpriced(positions@, oracle)].denom@),
{
    let mut total: u128 = 0;
    let mut i: usize = 0;
    while i < positions.len()
        invariant
            i <= positions@.len(),
            all_priced(positions@.subrange(0, i as int), oracle),
            total == spec_sum_values(positions@.subrange(0, i as int), token_decimals, oracle),
        decreases positions@.len() - i,
    {
        let value = match get_token_value(&positions[i], token_decimals, oracle) {
            Ok(v) => v,
            Err(e) => {
                proof {
                    lemma_first_unpriced_here(positions@, oracle, i as int);
                }
                return Err(e);
            },
        };
        total = add_sat(total, value);
        i = i + 1;
        proof {
            assert(positions@.subrange(0, i as int).drop_last() =~= positions@.subrange(
                0,
                i as int - 1,
            ));
            assert(positions@.subrange(0, i as int).last() == positions@[i as int - 1]);
        }
    }
    proof {
        assert(positions@.subrange(0, positions@.len() as int) =~= positions@);
    }
    Ok(total)
}

/// If every position before `i` is priced and position `i` is not, then
/// `i` is the first unpriced index.
proof fn lemma_first_unpriced_here<O: PriceOracle>(positions: Seq<TokenAmount>, oracle: &O, i: int)
    requires
        0 <= i < positions.len(),
        all_priced(positions.subrange(0, i), oracle),
        oracle.spec_price(positions[i].denom@) is None,
    ensures
        !all_priced(positions, oracle),
        first_unpriced(positions, oracle) == i,
    decreases i,
{
    if i == 0 {
        assert(first_unpriced(positions, oracle) == 0);
    } else {
        assert(oracle.spec_price(positions[0].denom@) is Some) by {
            assert(positions.subrange(0, i)[0] == positions[0]);
        }
        let pre = positions.drop_first().subrange(0, i - 1);
        assert(pre =~= positions.subrange(0, i).drop_first());
        assert forall|j: int| 0 <= j < pre.len() implies #[trigger] oracle.spec_price(
            pre[j].denom@,
        ) is Some by {
            assert(pre[j] == positions.subrange(0, i)[j + 1]);
        }
        assert(all_priced(pre, oracle));
        assert(positions.drop_first()[i - 1] == positions[i]);
        lemma_first_unpriced_here(positions.drop_first(), oracle, i - 1);
    }
}

/// An empty position set sums to zero.
pub proof fn lemma_sum_values_empty<O: PriceOracle>(decimals: u128, oracle: &O)
    ensures
        spec_sum_values(Seq::<TokenAmount>::empty(), decimals, oracle) == 0,
{
}

/// A zero-magnitude position is worth zero, whatever its price or
/// precision.
pub proof fn lemma_zero_magnitude_value(price: u128, decimals: u128)
    ensures
        spec_token_value(0u128, price, decimals) == 0,
{
    assert(sat_mul_u128(0u128, price) == 0);
    if decimals > 0 {
        lemma_pow10_pos(decimals as nat);
        assert(0int / pow10(decimals as nat) == 0);
    }
}

/// A set of one zero-magnitude position sums to zero.
pub proof fn lemma_sum_values_single_zero<O: PriceOracle>(
    position: TokenAmount,
    decimals: u128,
    oracle: &O,
)
    requires
        position.magnitude == 0,
    ensures
        spec_sum_values(seq![position], decimals, oracle) == 0,
{
    let s = seq![position];
    assert(s.drop_last() =~= Seq::<TokenAmount>::empty());
    assert(s.last() == position);
    lemma_sum_values_empty(decimals, oracle);
    match spec_price_units(position, oracle) {
        Some(p) => {
            lemma_zero_magnitude_value(p, decimals);
            assert(spec_sum_values(s, decimals, oracle) == sat_add_u128(0u128, 0u128));
        },
        None => {
            assert(spec_sum_values(s, decimals, oracle) == sat_add_u128(0u128, 0u128));
        },
    }
}

/// Saturation in general: where `magnitude * price` overflows the
/// 128-bit range, the scaled product is the capped `u128::MAX` — never a
/// wrapped product — and the value is that cap normalized and re-priced.
pub proof fn lemma_value_saturates_normalized(magnitude: u128, price: u128, decimals: u128)
    requires
        magnitude * price > u128::MAX,
        decimals > 0,
    ensures
        spec_token_value(magnitude, price, decimals) == sat_mul_u128(
            ((u128::MAX as int) / pow10(decimals as nat)) as u128,
            price,
        ),
{
    assert(sat_mul_u128(magnitude, price) == u128::MAX);
}

/// Saturation: where `magnitude * price` overflows the 128-bit range and
/// no decimal normalization intervenes, the value is the maximum
/// representable value, not a wrapped one.
pub proof fn lemma_value_saturates(magnitude: u128, price: u128)
    requires
        magnitude * price > u128::MAX,
    ensures
        spec_token_value(magnitude, price, 0) == u128::MAX,
{
    assert(sat_mul_u128(magnitude, price) == u128::MAX);
    assert(price >= 1) by (nonlinear_arith)
        requires
            magnitude * price > u128::MAX,
    ;
    assert(u128::MAX * price >= u128::MAX * 1) by (nonlinear_arith)
        requires
            price >= 1,
    ;
}

} // verus!
