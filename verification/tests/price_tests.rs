use oracular::error::Error;
use oracular::http::{decode_jsonrpc_reply, resolve_evm_price, resolve_http_price};
use oracular::parser::ParseError;
use oracular::price::parse_scaled_decimal;

#[test]
fn test_parse_scaled_decimal_exact() {
    // A price value of "1234.56" resolves to 1234.56 * 10^8.
    assert_eq!(parse_scaled_decimal("1234.56"), Some(123_456_000_000));
    assert_eq!(parse_scaled_decimal("100"), Some(10_000_000_000));
    assert_eq!(parse_scaled_decimal("0.00000001"), Some(1));
    assert_eq!(parse_scaled_decimal("0"), Some(0));
}

#[test]
fn test_parse_scaled_decimal_rounds_to_nearest() {
    // The ninth fractional digit rounds half away from zero.
    assert_eq!(parse_scaled_decimal("0.000000005"), Some(1));
    assert_eq!(parse_scaled_decimal("0.000000004"), Some(0));
    assert_eq!(parse_scaled_decimal("1.999999995"), Some(200_000_000));
}

#[test]
fn test_parse_scaled_decimal_rejects_non_decimal() {
    assert_eq!(parse_scaled_decimal(""), None);
    assert_eq!(parse_scaled_decimal("."), None);
    assert_eq!(parse_scaled_decimal("12a"), None);
    assert_eq!(parse_scaled_decimal("1.2.3"), None);
    assert_eq!(parse_scaled_decimal("-1"), None);
    // Too large to fit once scaled.
    assert_eq!(parse_scaled_decimal("999999999999999999999"), None);
}

#[test]
fn test_resolve_http_price_from_json() {
    let body = br#"{"data":{"amount":"1234.56"}}"#;
    assert_eq!(resolve_http_price(200, body, "data.amount"), Ok(123_456_000_000));
}

#[test]
fn test_resolve_http_price_errors() {
    let body = br#"{"data":{"amount":"1234.56"}}"#;

    assert_eq!(
        resolve_http_price(500, body, "data.amount"),
        Err(Error::Internal(String::from("url is not valid")))
    );
    assert_eq!(
        resolve_http_price(200, b"not json", "data.amount"),
        Err(Error::Http(String::from("serde_json err")))
    );
    assert_eq!(
        resolve_http_price(200, body, "data.price"),
        Err(Error::ParseError(ParseError::KeyNotFound(String::from("price"))))
    );
    assert_eq!(
        resolve_http_price(200, body, "data.amount.x"),
        Err(Error::ParseError(ParseError::NotAnObject(String::from("x"))))
    );
    // A numeric literal leaf is not the numeric string this source serves.
    let body_num = br#"{"data":{"amount":12}}"#;
    assert_eq!(
        resolve_http_price(200, body_num, "data.amount"),
        Err(Error::Internal(String::from("price is not a numeric string")))
    );
    let body_bad = br#"{"data":{"amount":"12f"}}"#;
    assert_eq!(
        resolve_http_price(200, body_bad, "data.amount"),
        Err(Error::Internal(String::from("price is not a valid decimal")))
    );
}

#[test]
fn test_resolve_evm_price_hex() {
    let value: serde_json::Value = serde_json::from_str(r#""0x1b""#).unwrap();
    assert_eq!(resolve_evm_price(&value), Ok(27));

    let bad: serde_json::Value = serde_json::from_str(r#""0x""#).unwrap();
    assert_eq!(
        resolve_evm_price(&bad),
        Err(Error::Internal(String::from("price is not a hex quantity")))
    );
    let not_text: serde_json::Value = serde_json::from_str("27").unwrap();
    assert_eq!(
        resolve_evm_price(&not_text),
        Err(Error::Internal(String::from("price is not a hex quantity")))
    );
}

#[test]
fn test_decode_jsonrpc_reply() {
    let ok = br#"{"jsonrpc":"2.0","id":1,"result":"0x10"}"#;
    let v = decode_jsonrpc_reply(200, ok).unwrap();
    assert_eq!(v, serde_json::Value::String(String::from("0x10")));

    let failure = br#"{"jsonrpc":"2.0","id":1,"error":{"code":-32000,"message":"nope"}}"#;
    assert_eq!(
        decode_jsonrpc_reply(200, failure),
        Err(Error::Http(String::from("JSON-RPC error")))
    );

    let neither = br#"{"jsonrpc":"2.0","id":1}"#;
    assert_eq!(
        decode_jsonrpc_reply(200, neither),
        Err(Error::Http(String::from("invalid JSON-RPC response")))
    );

    assert_eq!(
        decode_jsonrpc_reply(404, ok),
        Err(Error::Internal(String::from("url is not valid")))
    );
}
