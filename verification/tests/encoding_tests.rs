use oracular::encoding::{decode_hex_str, parse_hex_u64, raw_transaction_param};
use oracular::http::get_request_costs;
use oracular::provider::{encode_read_call, encode_update_price, Transaction};
use oracular::types::{H160, H256};

#[test]
fn test_raw_transaction_param_hex() {
    // Would fail if the hex encoder handed its input back unchanged.
    assert_eq!(raw_transaction_param(&[0xde, 0xad, 0xbe, 0xef]), "0xdeadbeef");
    assert_eq!(raw_transaction_param(&[]), "0x");
    assert_eq!(raw_transaction_param(&[0x00, 0x0f]), "0x000f");
}

#[test]
fn test_decode_hex_str() {
    assert_eq!(decode_hex_str("deadBEEF"), Some(vec![0xde, 0xad, 0xbe, 0xef]));
    assert_eq!(decode_hex_str(""), Some(vec![]));
    assert_eq!(decode_hex_str("abc"), None);
    assert_eq!(decode_hex_str("zz"), None);
}

#[test]
fn test_parse_hex_u64() {
    assert_eq!(parse_hex_u64("0x1b"), Some(27));
    assert_eq!(parse_hex_u64("0x0"), Some(0));
    assert_eq!(parse_hex_u64("0xffffffffffffffff"), Some(u64::MAX));
    assert_eq!(parse_hex_u64("0x10000000000000000"), None);
    assert_eq!(parse_hex_u64("0x"), None);
    assert_eq!(parse_hex_u64("1b"), None);
}

#[test]
fn test_h160_from_hex_str() {
    let address = H160::from_hex_str("0xE757Bd3f57C51D2068742d0CEA6f49D38d567310").unwrap();
    assert_eq!(address.bytes.len(), 20);
    assert_eq!(address.bytes[0], 0xe7);
    assert_eq!(address.bytes[19], 0x10);

    assert!(H160::from_hex_str("0xE757").is_none());
    assert!(H160::from_hex_str("E757Bd3f57C51D2068742d0CEA6f49D38d567310ab").is_none());
}

#[test]
fn test_update_price_call_data() {
    let data = encode_update_price(1);
    assert_eq!(data.len(), 36);
    // The selector is the first four bytes of the Keccak-256 hash of the
    // method signature; computed here independently of the engine.
    let expected = ethers_core::utils::id("updatePrice(int256)");
    assert_eq!(&data[0..4], &expected[..]);
    let mut word = [0u8; 32];
    word[31] = 1;
    assert_eq!(&data[4..36], &word[..]);
}

#[test]
fn test_read_call_data_is_selector() {
    let data = encode_read_call("getPrice");
    let expected = ethers_core::utils::id("getPrice()");
    assert_eq!(&data[..], &expected[..]);
}

#[test]
fn test_get_request_costs_exact() {
    // source of 10 bytes, payload 20, capped response 100:
    // ingress = 130; 1_200_000 + 2_000 * 130 + 400_000_000 + 100_000 * 230.
    assert_eq!(get_request_costs("a234567890", 20, 100), 424_460_000);
}

#[test]
fn test_transaction_assembly() {
    let from = H160::from_slice(&[1; 20]);
    let to = H160::from_slice(&[2; 20]);
    let tx = Transaction::assemble(from, Some(to), 7, 0, 21_000, 5, vec![0xab], 355_113);
    assert_eq!(tx.nonce, 7);
    assert_eq!(tx.gas, 21_000);
    assert_eq!(tx.chain_id, 355_113);
    assert_eq!(tx.v, 0);
    assert!(tx.hash.is_empty());

    let hash = H256::from_slice(&[9; 32]);
    let signed = tx.with_signature(27, vec![1; 32], vec![2; 32], hash.bytes.clone());
    assert_eq!(signed.nonce, 7);
    assert_eq!(signed.v, 27);
    assert_eq!(signed.hash, vec![9; 32]);
}
