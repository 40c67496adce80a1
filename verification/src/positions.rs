//! The typed financial-position model: a token amount (denomination plus
//! unsigned magnitude) and an ordered set of such positions for one account.

use vstd::prelude::*;

verus! {

/// One token position: a denomination identifier and an unsigned magnitude
/// counted in the token's smallest indivisible unit.
///
/// A well-formed amount has a non-empty denomination; the lenient response
/// decoder can also produce amounts with an empty denomination when the
/// response item carries none, which `wf` distinguishes.
#[derive(Debug, Clone, PartialEq, Eq)]
pub struct TokenAmount {
    pub denom: String,
    pub magnitude: u128,
}

impl TokenAmount {
    /// A well-formed token amount names its token.
    pub open spec fn wf(self) -> bool {
        self.denom@.len() > 0
    }

    pub fn new(denom: String, magnitude: u128) -> (r: TokenAmount)
        requires
            denom@.len() > 0,
        ensures
            r.denom@ == denom@,
            r.magnitude == magnitude,
            r.wf(),
    {
        TokenAmount { denom, magnitude }
    }
}

/// The debts or the collaterals of one account at one point in time, in
/// response order. Denominations may repeat; consumers sum, they never
/// assume distinctness.
pub type PositionSet = Vec<TokenAmount>;

} // verus!
