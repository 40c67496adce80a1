use mp_liquidation::decimal::DecimalRatio;
use mp_liquidation::oracle::get_price;
use mp_liquidation::oracle::ConstantOracle;
use mp_liquidation::positions::TokenAmount;
use mp_liquidation::query::build_query;
use mp_liquidation::query::smart_query_url;
use mp_liquidation::query::QueryKind;
use mp_liquidation::ratio::calculate_collateralization_ratio;
use mp_liquidation::response::parse_positions_response;
use mp_liquidation::response::parse_u128;
use mp_liquidation::response::FetchError;
use mp_liquidation::valuation::get_token_value;
use mp_liquidation::valuation::sum_values;

fn amount(denom: &str, magnitude: u128) -> TokenAmount {
    TokenAmount::new(denom.to_string(), magnitude)
}

#[test]
fn constant_price_is_one_usd_in_six_decimals() {
    assert_eq!(get_price("uusdc"), Ok(1_000_000));
    assert_eq!(get_price("uosmo"), Ok(1_000_000));
}

#[test]
fn token_value_applies_price_twice() {
    let v = get_token_value(&amount("uusdc", 2_000_000), 6, &ConstantOracle);
    assert_eq!(v, Ok(2_000_000_000_000));
    let v = get_token_value(&amount("uosmo", 4_000_000), 6, &ConstantOracle);
    assert_eq!(v, Ok(4_000_000_000_000));
}

#[test]
fn token_value_with_zero_decimals_skips_normalization() {
    let v = get_token_value(&amount("uusdc", 3), 0, &ConstantOracle);
    assert_eq!(v, Ok(3_000_000_000_000));
}

#[test]
fn token_value_saturates_instead_of_wrapping() {
    let v = get_token_value(&amount("uusdc", u128::MAX), 0, &ConstantOracle);
    assert_eq!(v, Ok(u128::MAX));
}

#[test]
fn sum_of_empty_set_is_zero() {
    let positions: Vec<TokenAmount> = vec![];
    assert_eq!(sum_values(&positions, 6, &ConstantOracle), Ok(0));
}

#[test]
fn sum_of_single_zero_magnitude_item_is_zero() {
    let positions = vec![amount("uusdc", 0)];
    assert_eq!(sum_values(&positions, 6, &ConstantOracle), Ok(0));
}

#[test]
fn ratio_end_to_end_example() {
    let debts = vec![amount("uusdc", 2_000_000)];
    let collaterals = vec![amount("uosmo", 4_000_000)];
    let ratio = calculate_collateralization_ratio(debts, collaterals).unwrap();
    assert_eq!(ratio.numerator(), 4_000_000_000_000);
    assert_eq!(ratio.denominator(), 2_000_000_000_000);
    let reduced = ratio.reduce();
    assert_eq!(reduced.numerator(), 2);
    assert_eq!(reduced.denominator(), 1);
}

#[test]
fn ratio_with_zero_debt_is_exactly_zero() {
    let debts: Vec<TokenAmount> = vec![];
    let collaterals = vec![amount("uosmo", 4_000_000)];
    let ratio = calculate_collateralization_ratio(debts, collaterals).unwrap();
    assert_eq!(ratio.numerator(), 0);
    assert_eq!(ratio.denominator(), 1);
}

#[test]
fn ratio_with_zero_magnitude_debt_is_exactly_zero() {
    let debts = vec![amount("uusdc", 0)];
    let collaterals: Vec<TokenAmount> = vec![];
    let ratio = calculate_collateralization_ratio(debts, collaterals).unwrap();
    assert_eq!(ratio.numerator(), 0);
    assert_eq!(ratio.denominator(), 1);
}

#[test]
fn oversized_precision_floors_every_value_to_zero() {
    let v = get_token_value(&amount("uusdc", u128::MAX), 39, &ConstantOracle);
    assert_eq!(v, Ok(0));
    let v = get_token_value(&amount("uusdc", 5), 120, &ConstantOracle);
    assert_eq!(v, Ok(0));
}

#[test]
fn decimal_ratio_reduces_by_gcd() {
    let r = DecimalRatio::from_ratio(6, 4).reduce();
    assert_eq!(r.numerator(), 3);
    assert_eq!(r.denominator(), 2);
    let r = DecimalRatio::from_ratio(12, 18).reduce();
    assert_eq!(r.numerator(), 2);
    assert_eq!(r.denominator(), 3);
}

#[test]
fn decimal_ratio_reduce_of_zero_numerator() {
    let r = DecimalRatio::from_ratio(0, 5).reduce();
    assert_eq!(r.numerator(), 0);
    assert_eq!(r.denominator(), 1);
}

#[test]
fn decimal_ratio_integer_units() {
    assert_eq!(DecimalRatio::from_ratio(3, 2).as_integer_units(), 1_500_000);
    assert_eq!(DecimalRatio::one().as_integer_units(), 1_000_000);
    assert_eq!(DecimalRatio::zero().as_integer_units(), 0);
}

#[test]
fn parse_u128_accepts_exactly_decimal_digit_texts() {
    assert_eq!(parse_u128("0"), Some(0));
    assert_eq!(parse_u128("2000000"), Some(2_000_000));
    assert_eq!(parse_u128("007"), Some(7));
    assert_eq!(
        parse_u128("340282366920938463463374607431768211455"),
        Some(u128::MAX)
    );
    assert_eq!(parse_u128("340282366920938463463374607431768211456"), None);
    assert_eq!(parse_u128(""), None);
    assert_eq!(parse_u128("12a"), None);
    assert_eq!(parse_u128("+5"), None);
    assert_eq!(parse_u128("-5"), None);
}

#[test]
fn non_numeric_amount_decodes_to_zero_and_fetch_succeeds() {
    let body = r#"{"data":[{"amount":"abc","denom":"uusdc"}]}"#;
    let positions = parse_positions_response(200, body).unwrap();
    assert_eq!(positions.len(), 1);
    assert_eq!(positions[0].magnitude, 0);
    assert_eq!(positions[0].denom, "uusdc");
}

#[test]
fn missing_fields_decode_to_defaults() {
    let body = r#"{"data":[{"denom":"uosmo"},{"amount":"7"},{"amount":5,"denom":"x"}]}"#;
    let positions = parse_positions_response(200, body).unwrap();
    assert_eq!(positions.len(), 3);
    assert_eq!(positions[0].magnitude, 0);
    assert_eq!(positions[0].denom, "uosmo");
    assert_eq!(positions[1].magnitude, 7);
    assert_eq!(positions[1].denom, "");
    assert_eq!(positions[2].magnitude, 0);
    assert_eq!(positions[2].denom, "x");
}

#[test]
fn well_formed_response_decodes_in_order() {
    let body = r#"{"data":[{"amount":"2000000","denom":"uusdc"},{"amount":"4000000","denom":"uosmo"}]}"#;
    let positions = parse_positions_response(200, body).unwrap();
    assert_eq!(positions.len(), 2);
    assert_eq!(positions[0].magnitude, 2_000_000);
    assert_eq!(positions[0].denom, "uusdc");
    assert_eq!(positions[1].magnitude, 4_000_000);
    assert_eq!(positions[1].denom, "uosmo");
}

#[test]
fn non_success_status_fails_the_fetch() {
    assert_eq!(
        parse_positions_response(404, "{}"),
        Err(FetchError::RequestFailed(404))
    );
    assert_eq!(
        parse_positions_response(500, r#"{"data":[]}"#),
        Err(FetchError::RequestFailed(500))
    );
    assert_eq!(
        parse_positions_response(199, "{}"),
        Err(FetchError::RequestFailed(199))
    );
    assert_eq!(
        parse_positions_response(300, "{}"),
        Err(FetchError::RequestFailed(300))
    );
}

#[test]
fn non_json_body_fails_the_fetch() {
    assert_eq!(
        parse_positions_response(200, "not json"),
        Err(FetchError::BodyNotJson)
    );
}

#[test]
fn json_body_without_data_array_is_empty() {
    assert_eq!(parse_positions_response(200, "{}"), Ok(vec![]));
    assert_eq!(
        parse_positions_response(200, r#"{"data":{}}"#),
        Ok(vec![])
    );
    assert_eq!(parse_positions_response(204, r#"{"data":[]}"#), Ok(vec![]));
}

#[test]
fn query_payload_is_compact_json() {
    assert_eq!(
        build_query(QueryKind::Debts, "alice"),
        r#"{"user_debts":{"user":"alice"}}"#
    );
    assert_eq!(
        build_query(QueryKind::Collaterals, "bob"),
        r#"{"user_collaterals":{"user":"bob"}}"#
    );
}

#[test]
fn query_url_embeds_url_safe_base64() {
    let url = smart_query_url("https://ep", "contract1", QueryKind::Debts, "alice");
    assert_eq!(
        url,
        "https://ep/cosmwasm/wasm/v1/contract/contract1/smart/eyJ1c2VyX2RlYnRzIjp7InVzZXIiOiJhbGljZSJ9fQ=="
    );
}

#[test]
fn query_kind_names() {
    assert_eq!(QueryKind::Debts.name(), "user_debts");
    assert_eq!(QueryKind::Collaterals.name(), "user_collaterals");
}
