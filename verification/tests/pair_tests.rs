use oracular::error::Error;
use oracular::state::pair_storage::{Pair, PairStorage};
use oracular::types::H160;

fn pair(base: &str, quote: &str) -> Pair {
    Pair { base_currency: String::from(base), quote_currency: String::from(quote) }
}

#[test]
fn test_pair_id_lowercases() {
    // Would fail if the lowercasing handed its input back unchanged.
    assert_eq!(pair("BTC", "ETH").id(), "btc-eth");
    assert_eq!(pair("btc", "usd").id(), "btc-usd");
}

#[test]
fn test_add_and_get_pair() {
    let mut storage = PairStorage::default();
    let id = pair("BTC", "ETH").id();

    storage.add_pair(&id, pair("BTC", "ETH"), 1000, 42).unwrap();
    let stored = storage.get(&id).unwrap();
    assert_eq!(stored.base_currency, "BTC");
    assert_eq!(stored.quote_currency, "ETH");

    // A second insertion under the same id is rejected.
    let err = storage.add_pair(&id, pair("BTC", "ETH"), 1000, 42).unwrap_err();
    assert_eq!(err, Error::PairAlreadyExists);

    assert!(storage.check_pair_exists(&id));
    assert_eq!(storage.all_pairs().len(), 1);
}

#[test]
fn test_update_pair_price() {
    let mut storage = PairStorage::default();
    let id = pair("BTC", "ETH").id();
    storage.add_pair(&id, pair("BTC", "ETH"), 1000, 42).unwrap();

    storage.update_pair(&id, 77, 2000).unwrap();
    // The pair itself is kept under the same id.
    assert!(storage.check_pair_exists(&id));

    let missing = String::from("no-pair");
    assert_eq!(storage.update_pair(&missing, 1, 1).unwrap_err(), Error::PairNotFound);
}

#[test]
fn test_remove_pair() {
    let mut storage = PairStorage::default();
    let id = pair("BTC", "ETH").id();
    storage.add_pair(&id, pair("BTC", "ETH"), 1000, 42).unwrap();
    storage.add_address(&id, H160::from_slice(&[5; 20]));

    storage.remove_pair(&id).unwrap();
    assert!(!storage.check_pair_exists(&id));
    assert_eq!(storage.all_pairs_with_address().len(), 0);

    assert_eq!(storage.remove_pair(&id).unwrap_err(), Error::PairNotFound);
}

#[test]
fn test_all_pairs_with_address_skips_dangling() {
    let mut storage = PairStorage::default();
    let id1 = pair("BTC", "ETH").id();
    let id2 = pair("BTC", "USD").id();
    storage.add_pair(&id1, pair("BTC", "ETH"), 1000, 42).unwrap();
    storage.add_address(&id1, H160::from_slice(&[5; 20]));
    // An address without a stored pair is passed over.
    storage.add_address(&id2, H160::from_slice(&[6; 20]));

    let listed = storage.all_pairs_with_address();
    assert_eq!(listed.len(), 1);
    assert_eq!(listed[0].1, H160::from_slice(&[5; 20]));

    storage.clear();
    assert_eq!(storage.all_pairs().len(), 0);
}
