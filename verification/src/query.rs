//! The contract-query protocol encoding: the compact JSON smart-query
//! payload, its URL-safe base64 form, and the full query URL. The account
//! address is embedded verbatim and never interpreted.

use vstd::prelude::*;

verus! {

/// Which side of the account's book a query asks for.
#[derive(Debug, Clone, Copy, PartialEq, Eq, Structural)]
pub enum QueryKind {
    Debts,
    Collaterals,
}

impl QueryKind {
    /// The field name the contract expects for this query kind.
    pub open spec fn spec_name(self) -> Seq<char> {
        match self {
            QueryKind::Debts => "user_debts"@,
            QueryKind::Collaterals => "user_collaterals"@,
        }
    }

    pub fn name(&self) -> (r: &'static str)
        ensures
            r@ == self.spec_name(),
    {
        match self {
            QueryKind::Debts => "user_debts",
            QueryKind::Collaterals => "user_collaterals",
        }
    }
}

/// The compact JSON smart-query payload:
/// `{"<kind>":{"user":"<user>"}}`.
pub open spec fn spec_query(kind: QueryKind, user: Seq<char>) -> Seq<char> {
    "{\""@ + kind.spec_name() + "\":{\"user\":\""@ + user + "\"}}"@
}

/// Builds the compact JSON smart-query payload for one account.
pub fn build_query(kind: QueryKind, user: &str) -> (r: String)
    ensures
        r@ == spec_query(kind, user@),
{
    let mut q = String::from_str("{\"");
    q.append(kind.name());
    q.append("\":{\"user\":\"");
    q.append(user);
    q.append("\"}}");
    proof {
        assert(q@ =~= spec_query(kind, user@));
    }
    q
}

/// What the URL-safe base64 encoding of a text comes to; the encoder is
/// a function of its input alone.
pub uninterp spec fn base64_url_of(s: Seq<char>) -> Seq<char>;

/// Relies on base64's `Engine::encode` with the padded `URL_SAFE` engine:
/// the result is determined by the input bytes alone, and a padded
/// encoding spends four output characters per three input bytes, rounded
/// up. Encoding can only panic when that output length would overflow
/// `usize`, which the precondition rules out (UTF-8 spends at most four
/// bytes per character).
#[verifier::external_body]
fn base64_url_encode(s: &str) -> (r: String)
    requires
        s@.len() * 16 <= usize::MAX,
    ensures
        r@ == base64_url_of(s@),
        s.is_ascii() ==> r@.len() == 4 * ((s@.len() + 2) / 3),
{
    base64::Engine::encode(&base64::engine::general_purpose::URL_SAFE, s.as_bytes())
}

/// The full smart-query URL: the REST endpoint, the contract identifier
/// and the base64-encoded payload as the final path segment.
pub fn smart_query_url(endpoint: &str, contract: &str, kind: QueryKind, user: &str) -> (r: String)
    requires
        user@.len() * 16 + 600 <= usize::MAX,
    ensures
        r@ == endpoint@ + "/cosmwasm/wasm/v1/contract/"@ + contract@ + "/smart/"@ + base64_url_of(
            spec_query(kind, user@),
        ),
{
    let query = build_query(kind, user);
    proof {
        // The encoder's length bound needs the payload's length, and that
        // needs the lengths of the literal pieces.
        reveal_strlit("{\"");
        reveal_strlit("\":{\"user\":\"");
        reveal_strlit("\"}}");
        reveal_strlit("user_debts");
        reveal_strlit("user_collaterals");
    }
    let encoded = base64_url_encode(query.as_str());
    let mut url = String::from_str(endpoint);
    url.append("/cosmwasm/wasm/v1/contract/");
    url.append(contract);
    url.append("/smart/");
    url.append(encoded.as_str());
    proof {
        assert(url@ =~= endpoint@ + "/cosmwasm/wasm/v1/contract/"@ + contract@ + "/smart/"@
            + base64_url_of(spec_query(kind, user@)));
    }
    url
}

} // verus!
