use oracular::canister::Oracular;
use oracular::types::H160;

#[test]
fn test_recover_pub_key_with_correct_payload() {
    let message = "Testing".to_string();
    let signature =
        "0x4bce59ed739b43e739f304cb790cacde57b800aa712dde352cc8aa4f4727979d3849a8c52f59c34083f5060b4f1630ad7d34902a68ae216431332f27b830953b1b".to_string();

    let expected_address =
        H160::from_hex_str("0xE757Bd3f57C51D2068742d0CEA6f49D38d567310").unwrap();

    let address = Oracular::recover_pubkey(message, signature).unwrap();

    assert_eq!(address, expected_address);
}

#[test]
fn test_recover_pub_key_with_incorrect_payload() {
    let message = "Testing 123".to_string();
    let signature =
        "0x4bce59ed739b43e739f304cb790cacde57b800aa712dde352cc8aa4f4727979d3849a8c52f59c34083f5060b4f1630ad7d34902a68ae216431332f27b830953b1b".to_string();

    let expected_address =
        H160::from_hex_str("0xE757Bd3f57C51D2068742d0CEA6f49D38d567310").unwrap();

    let address = Oracular::recover_pubkey(message, signature).unwrap();

    assert_ne!(address, expected_address);
}

#[test]
fn test_auth_message_from_body() {
    let body = br#"{"message":"Testing","signature":"0xabcdef"}"#;
    let (message, signature) = oracular::canister::auth_message_from_body(body).unwrap();
    assert_eq!(message, "Testing");
    assert_eq!(signature, "0xabcdef");

    let missing = br#"{"signature":"0xabcdef"}"#;
    assert!(oracular::canister::auth_message_from_body(missing).is_err());

    let bad = b"{";
    assert!(oracular::canister::auth_message_from_body(bad).is_err());
}
