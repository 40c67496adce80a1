//! The ratio calculator: total collateral value divided by total debt
//! value, as an exact rational. Zero total debt yields the exact ratio
//! Zero — a defined special case meaning "no debt, no risk", never an
//! error and never infinity.

use vstd::prelude::*;
use crate::decimal::DecimalRatio;
use crate::positions::PositionSet;
use crate::positions::TokenAmount;
use crate::oracle::PriceOracle;
use crate::oracle::PriceError;
use crate::oracle::ConstantOracle;
use crate::valuation::ValuationError;
use crate::valuation::spec_sum_values;
use crate::valuation::all_priced;
use crate::valuation::first_unpriced;
use crate::valuation::sum_values;
use crate::valuation::DEFAULT_TOKEN_DECIMALS;

verus! {

/// Total value of a position set under the shipped constant oracle and the
/// uniform default decimal precision.
pub open spec fn spec_default_sum(positions: Seq<TokenAmount>) -> u128 {
    spec_sum_values(positions, DEFAULT_TOKEN_DECIMALS, &ConstantOracle)
}

/// The collateralization ratio of one account: exactly
/// `total collateral value / total debt value` as a numerator/denominator
/// pair, or exactly Zero where the total debt value is zero. Fails exactly
/// where the oracle leaves a position unpriced, collaterals checked first.
pub fn collateralization_ratio<O: PriceOracle>(
    debts: &PositionSet,
    collaterals: &PositionSet,
    token_decimals: u128,
    oracle: &O,
) -> (r: Result<DecimalRatio, ValuationError>)
    ensures
        all_priced(debts@, oracle) && all_priced(collaterals@, oracle) ==> ({
            let c = spec_sum_values(collaterals@, token_decimals, oracle);
            let d = spec_sum_values(debts@, token_decimals, oracle);
            &&& r matches Ok(q)
            &&& q.wf()
            &&& (d > 0 ==> q.num() == c && q.den() == d)
            &&& (d == 0 ==> q.num() == 0 && q.den() == 1 && q.is_zero())
        }),
        !all_priced(collaterals@, oracle) ==> (r matches Err(
            ValuationError::Price(PriceError::Unavailable(dn)),
        ) && dn@ == collaterals@[first_unpriced(collaterals@, oracle)].denom@),
        all_priced(collaterals@, oracle) && !all_priced(debts@, oracle) ==> (r matches Err(
            ValuationError::Price(PriceError::Unavailable(dn)),
        ) && dn@ == debts@[first_unpriced(debts@, oracle)].denom@),
{
    let total_collateral_value = match sum_values(collaterals, token_decimals, oracle) {
        Ok(v) => v,
        Err(e) => {
            return Err(e);
        },
    };
    let total_debt_value = match sum_values(debts, token_decimals, oracle) {
        Ok(v) => v,
        Err(e) => {
            return Err(e);
        },
    };
    if total_debt_value > 0 {
        Ok(DecimalRatio::from_ratio(total_collateral_value, total_debt_value))
    } else {
        Ok(DecimalRatio::zero())
    }
}

/// The account's collateralization ratio under the shipped constant price
/// source and the uniform default decimal precision. Never fails: the
/// constant source prices every denomination.
pub fn calculate_collateralization_ratio(
    user_debt: PositionSet,
    user_collateral: PositionSet,
) -> (r: Result<DecimalRatio, ValuationError>)
    ensures
        r matches Ok(q) && ({
            let c = spec_default_sum(user_collateral@);
            let d = spec_default_sum(user_debt@);
            &&& q.wf()
            &&& (d > 0 ==> q.num() == c && q.den() == d)
            &&& (d == 0 ==> q.num() == 0 && q.den() == 1 && q.is_zero())
        }),
{
    proof {
        assert(all_priced(user_debt@, &ConstantOracle));
        assert(all_priced(user_collateral@, &ConstantOracle));
    }
    collateralization_ratio(&user_debt, &user_collateral, DEFAULT_TOKEN_DECIMALS, &ConstantOracle)
}

} // verus!
