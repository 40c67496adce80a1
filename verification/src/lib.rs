//! Valuation pipeline for an account's lending positions: typed token
//! positions, a pluggable price oracle, saturating valuation arithmetic,
//! a collateralization-ratio calculator, and the encoding/decoding of the
//! contract smart-query protocol.

pub mod arith;
pub mod decimal;
pub mod oracle;
pub mod positions;
pub mod query;
pub mod ratio;
pub mod response;
pub mod valuation;
