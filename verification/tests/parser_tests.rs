use oracular::parser::{parse_path, ParseError};
use serde_json::Value;

#[test]
fn test_simple_parser() {
    // Sample JSON data for testing
    let data = r#"
        {
            "price": 100
        }
        "#;

    let parsed_data: Value = serde_json::from_str(data).unwrap();

    // Testing various dot notations
    let dot_notations = "price";

    assert_eq!(
        parse_path(&parsed_data, dot_notations).unwrap(),
        &Value::Number(100.into())
    )
}

#[test]
fn test_nested_parser() {
    // Sample JSON data for testing
    let data = r#"
        {
            "price": {
                "value": 100
            }
        }
        "#;

    let parsed_data: Value = serde_json::from_str(data).unwrap();

    // Testing various dot notations
    let dot_notations = "price.value";

    assert_eq!(
        parse_path(&parsed_data, dot_notations).unwrap(),
        &Value::Number(100.into())
    )
}

#[test]
fn test_array_parser() {
    // Sample JSON data for testing
    let data = r#"
        {
            "price": {
                "data": {
                    "value": 800
                }
            }
        }
        "#;

    let parsed_data: Value = serde_json::from_str(data).unwrap();

    // Testing various dot notations
    let dot_notations = "price.data.value";

    assert_eq!(
        parse_path(&parsed_data, dot_notations).unwrap(),
        &Value::Number(800.into())
    )
}

#[test]
fn test_parser_key_not_found() {
    let parsed_data: Value = serde_json::from_str(r#"{"price": 100}"#).unwrap();

    let err = parse_path(&parsed_data, "amount").unwrap_err();
    assert_eq!(err, ParseError::KeyNotFound(String::from("amount")));
}

#[test]
fn test_parser_not_an_object() {
    let parsed_data: Value = serde_json::from_str(r#"{"price": 100}"#).unwrap();

    let err = parse_path(&parsed_data, "price.value").unwrap_err();
    assert_eq!(err, ParseError::NotAnObject(String::from("value")));
}
