//! Decoding of the contract query response. The response envelope is
//! strict — a non-success status or a body that is not JSON fails the
//! fetch — while the items are decoded leniently: an unparsable or
//! missing amount becomes a zero magnitude rather than aborting the whole
//! position set, so one malformed item never blocks the rest.

use vstd::prelude::*;
use crate::positions::TokenAmount;
use crate::positions::PositionSet;

verus! {

/// The request/response envelope failed; fatal to the current cycle.
#[derive(Debug, Clone, Copy, PartialEq, Eq, Structural)]
pub enum FetchError {
    /// The HTTP status was not a success status.
    RequestFailed(u16),
    /// The response body was not JSON.
    BodyNotJson,
}

pub open spec fn is_dec_digit(c: char) -> bool {
    ('0' as int) <= (c as int) && (c as int) <= ('9' as int)
}

/// The numeric value of a digit character; other characters count zero so
/// the fold below stays non-negative.
pub open spec fn dec_digit_val(c: char) -> nat {
    if is_dec_digit(c) {
        (c as int - '0' as int) as nat
    } else {
        0
    }
}

pub open spec fn all_dec_digits(s: Seq<char>) -> bool {
    forall|i: int| 0 <= i < s.len() ==> is_dec_digit(s[i])
}

/// The base-10 value of a digit string.
pub open spec fn dec_val(s: Seq<char>) -> nat
    decreases s.len(),
{
    if s.len() == 0 {
        0
    } else {
        dec_val(s.drop_last()) * 10 + dec_digit_val(s.last())
    }
}

/// What parsing a base-10 unsigned integer text yields: its value, where
/// the text is non-empty, all digits and within the 128-bit range;
/// nothing otherwise.
pub open spec fn spec_parse_u128(s: Seq<char>) -> Option<u128> {
    if s.len() > 0 && all_dec_digits(s) && dec_val(s) <= u128::MAX {
        Some(dec_val(s) as u128)
    } else {
        None
    }
}

/// Extending a digit string never lowers its value.
proof fn lemma_dec_val_prefix(s: Seq<char>, i: int)
    requires
        0 <= i <= s.len(),
    ensures
        dec_val(s) >= dec_val(s.subrange(0, i)),
    decreases s.len() - i,
{
    if i == s.len() {
        assert(s.subrange(0, i) =~= s);
    } else {
        lemma_dec_val_prefix(s.drop_last(), i);
        assert(s.drop_last().subrange(0, i) =~= s.subrange(0, i));
    }
}

/// Parses a base-10 unsigned 128-bit integer; exactly the texts that
/// `spec_parse_u128` accepts parse.
pub fn parse_u128(s: &str) -> (r: Option<u128>)
    ensures
        r == spec_parse_u128(s@),
{
    let n = s.unicode_len();
    if n == 0 {
        return None;
    }
    let mut acc: u128 = 0;
    let mut i: usize = 0;
    while i < n
        invariant
            0 < n == s@.len(),
            i <= n,
            all_dec_digits(s@.subrange(0, i as int)),
            acc == dec_val(s@.subrange(0, i as int)),
        decreases n - i,
    {
        let c = s.get_char(i);
        let cu = c as u32;
        if cu < '0' as u32 || cu > '9' as u32 {
            proof {
                assert(!is_dec_digit(s@[i as int]));
            }
            return None;
        }
        let d = cu - '0' as u32;
        proof {
            assert(s@.subrange(0, i as int + 1).drop_last() =~= s@.subrange(0, i as int));
            assert(s@.subrange(0, i as int + 1).last() == s@[i as int]);
            assert(dec_val(s@.subrange(0, i as int + 1)) == acc * 10 + d);
            assert forall|j: int| 0 <= j < i as int + 1 implies is_dec_digit(
                #[trigger] s@.subrange(0, i as int + 1)[j],
            ) by {
                if j < i as int {
                    assert(s@.subrange(0, i as int + 1)[j] == s@.subrange(0, i as int)[j]);
                }
            }
        }
        let widened = match acc.checked_mul(10) {
            Some(w) => w,
            None => {
                proof {
                    lemma_overflow_rejects(s@, i as int + 1);
                }
                return None;
            },
        };
        let next = match widened.checked_add(d as u128) {
            Some(v) => v,
            None => {
                proof {
                    lemma_overflow_rejects(s@, i as int + 1);
                }
                return None;
            },
        };
        acc = next;
        i = i + 1;
    }
    proof {
        assert(s@.subrange(0, n as int) =~= s@);
    }
    Some(acc)
}

/// A prefix already past the 128-bit range makes the whole text
/// unparsable.
proof fn lemma_overflow_rejects(s: Seq<char>, i: int)
    requires
        0 <= i <= s.len(),
        dec_val(s.subrange(0, i)) > u128::MAX,
    ensures
        spec_parse_u128(s) is None,
{
    lemma_dec_val_prefix(s, i);
}

/// The magnitude the lenient decode gives an item: the parsed amount
/// text, or zero where the text is missing or unparsable.
pub open spec fn spec_lenient_magnitude(amount: Option<Seq<char>>) -> u128 {
    match amount {
        Some(a) => match spec_parse_u128(a) {
            Some(v) => v,
            None => 0u128,
        },
        None => 0u128,
    }
}

/// Builds one token position from the `amount` and `denom` fields of a
/// response item, as far as they were present and were strings: the
/// amount decodes leniently to a magnitude, a missing denomination
/// becomes the empty one.
pub fn token_from_fields(amount: Option<&str>, denom: Option<&str>) -> (t: TokenAmount)
    ensures
        t.magnitude == spec_lenient_magnitude(
            match amount {
                Some(a) => Some(a@),
                None => None,
            },
        ),
        t.denom@ == (match denom {
            Some(d) => d@,
            None => Seq::<char>::empty(),
        }),
{
    let magnitude = match amount {
        Some(a) => match parse_u128(a) {
            Some(v) => v,
            None => 0,
        },
        None => 0,
    };
    let denom_text = match denom {
        Some(d) => d.to_owned(),
        None => String::new(),
    };
    TokenAmount { denom: denom_text, magnitude }
}

/// An amount text with any non-digit character decodes to magnitude zero:
/// the lenient-decode defect policy, stated for every such text.
pub proof fn lemma_non_numeric_amount_is_zero(a: Seq<char>)
    requires
        exists|i: int| 0 <= i < a.len() && !is_dec_digit(a[i]),
    ensures
        spec_lenient_magnitude(Some(a)) == 0,
{
    let i = choose|i: int| 0 <= i < a.len() && !is_dec_digit(a[i]);
    assert(!all_dec_digits(a));
}

#[verifier::external_type_specification]
#[verifier::external_body]
pub struct ExJsonValue(serde_json::Value);

#[verifier::external_type_specification]
#[verifier::external_body]
pub struct ExJsonError(serde_json::Error);

/// Whether a text parses as a JSON document; the parser is a function of
/// its input alone.
pub uninterp spec fn json_ok_of(s: Seq<char>) -> bool;

/// Relies on serde_json::from_str: parses a text as a JSON document, and
/// succeeds or fails by the input text alone. Nothing is claimed of the
/// parsed value, which stays opaque; what is read out of it goes through
/// the accessors below into plain values.
#[verifier::external_body]
fn parse_json_text(body: &str) -> (r: Result<serde_json::Value, serde_json::Error>)
    ensures
        (r matches Ok(_)) <==> json_ok_of(body@),
{
    serde_json::from_str::<serde_json::Value>(body)
}

/// Relies on serde_json::Value::get: the value under a key of a JSON
/// object, if the value is an object with that key.
#[verifier::external_body]
fn json_get<'a>(v: &'a serde_json::Value, key: &str) -> (r: Option<&'a serde_json::Value>) {
    v.get(key)
}

/// Relies on serde_json::Value::as_array: the elements, if the value is a
/// JSON array.
#[verifier::external_body]
fn json_as_array<'a>(v: &'a serde_json::Value) -> (r: Option<&'a Vec<serde_json::Value>>) {
    v.as_array()
}

/// Relies on serde_json::Value::as_str: the text, if the value is a JSON
/// string.
#[verifier::external_body]
fn json_as_str<'a>(v: &'a serde_json::Value) -> (r: Option<&'a str>) {
    v.as_str()
}

/// Decodes every response item into a token position, one for one and in
/// order, each through the lenient field decode of `token_from_fields`.
///
/// The contract pins only the count: that each position is built from
/// that item's own `amount` and `denom` fields passes through the
/// contract-less accessors on the opaque JSON values, so it is visible
/// only in this body (and held to by the decoding tests), not in the
/// contract. Everything value-level is pinned by `token_from_fields`.
pub fn decode_positions(items: &Vec<serde_json::Value>) -> (r: PositionSet)
    ensures
        r@.len() == items@.len(),
{
    let mut out: PositionSet = Vec::new();
    let mut i: usize = 0;
    while i < items.len()
        invariant
            i <= items@.len(),
            out@.len() == i,
        decreases items@.len() - i,
    {
        let item = &items[i];
        let amount = match json_get(item, "amount") {
            Some(a) => json_as_str(a),
            None => None,
        };
        let denom = match json_get(item, "denom") {
            Some(d) => json_as_str(d),
            None => None,
        };
        out.push(token_from_fields(amount, denom));
        i = i + 1;
    }
    out
}

/// Decodes one fetch outcome into a position set.
///
/// The envelope is strict: a status outside the success range fails with
/// exactly that status, and in the success range decoding succeeds if and
/// only if the body is JSON — a body that is not fails with exactly
/// `BodyNotJson`. A JSON body without a `data` array decodes to the empty
/// position set; a `data` array decodes item by item, leniently.
pub fn parse_positions_response(status: u16, body: &str) -> (r: Result<PositionSet, FetchError>)
    ensures
        !(200 <= status < 300) ==> r == Err::<PositionSet, FetchError>(
            FetchError::RequestFailed(status),
        ),
        200 <= status < 300 ==> ((r matches Ok(_)) <==> json_ok_of(body@)),
        200 <= status < 300 && !json_ok_of(body@) ==> r == Err::<PositionSet, FetchError>(
            FetchError::BodyNotJson,
        ),
{
    if !(status >= 200 && status < 300) {
        return Err(FetchError::RequestFailed(status));
    }
    match parse_json_text(body) {
        Err(_) => Err(FetchError::BodyNotJson),
        Ok(v) => {
            let items = match json_get(&v, "data") {
                Some(d) => json_as_array(d),
                None => None,
            };
            match items {
                Some(arr) => Ok(decode_positions(arr)),
                None => Ok(Vec::new()),
            }
        },
    }
}

} // verus!
