use oracular::contract::{ContractService, PriceFeedCreationCallback};
use oracular::processor::{
    classify_transaction, EvmTransactionProcessorImpl, TransactionReceipt, TransactionStatus,
    TxCallback,
};
use oracular::state::pair_storage::{Pair, PairStorage};
use oracular::types::{H160, H256};

fn hash(fill: u8) -> H256 {
    H256::from_slice(&[fill; 32])
}

fn callback(pair_id: &str) -> TxCallback {
    TxCallback::PriceFeedCreation(PriceFeedCreationCallback::new(String::from(pair_id)))
}

fn receipt(tx: u8, feed: u8) -> TransactionReceipt {
    TransactionReceipt {
        transaction_hash: hash(tx),
        contract_address: Some(H160::from_slice(&[feed; 20])),
    }
}

#[test]
fn test_classify_transaction() {
    // A failed lookup stays Unknown.
    assert!(matches!(classify_transaction(None, None), TransactionStatus::Unknown));
    // A transaction absent from pool and chain was definitively dropped.
    assert!(matches!(classify_transaction(Some(false), None), TransactionStatus::Skipped));
    // Found but without receipt: not terminal yet.
    assert!(matches!(classify_transaction(Some(true), Some(None)), TransactionStatus::Unknown));
    assert!(matches!(classify_transaction(Some(true), None), TransactionStatus::Unknown));
    // Found with a receipt: processed.
    assert!(matches!(
        classify_transaction(Some(true), Some(Some(receipt(1, 2)))),
        TransactionStatus::Processed(_)
    ));
}

#[test]
fn test_register_and_extract() {
    let mut processor = EvmTransactionProcessorImpl::default();
    processor.register_transaction(hash(1), callback("btc-eth"));

    assert_eq!(processor.tracked_hashes().len(), 1);

    let extracted = processor.extract_callback(&hash(1)).unwrap();
    assert!(matches!(extracted, TxCallback::PriceFeedCreation(c) if c.pair_id == "btc-eth"));

    // Extraction removes the entry: a second extraction finds nothing.
    assert!(processor.extract_callback(&hash(1)).is_none());
    assert_eq!(processor.tracked_hashes().len(), 0);
}

#[test]
fn test_register_replaces_same_hash() {
    let mut processor = EvmTransactionProcessorImpl::default();
    processor.register_transaction(hash(1), callback("btc-eth"));
    processor.register_transaction(hash(1), callback("btc-usd"));

    assert_eq!(processor.tracked_hashes().len(), 1);
    let extracted = processor.extract_callback(&hash(1)).unwrap();
    assert!(matches!(extracted, TxCallback::PriceFeedCreation(c) if c.pair_id == "btc-usd"));
}

#[test]
fn test_dispatch_at_most_once() {
    let mut processor = EvmTransactionProcessorImpl::default();
    processor.register_transaction(hash(1), callback("btc-eth"));

    // Two non-terminal ticks leave the entry registered.
    assert!(processor.resolve_transaction(&hash(1), &TransactionStatus::Unknown).is_none());
    assert!(processor.resolve_transaction(&hash(1), &TransactionStatus::Unknown).is_none());
    assert_eq!(processor.tracked_hashes().len(), 1);

    // The first terminal tick extracts the callback; every later tick finds
    // nothing to fire.
    let fired = processor.resolve_transaction(
        &hash(1),
        &TransactionStatus::Processed(receipt(1, 5)),
    );
    assert!(fired.is_some());
    assert!(processor
        .resolve_transaction(&hash(1), &TransactionStatus::Processed(receipt(1, 5)))
        .is_none());
    assert!(processor.resolve_transaction(&hash(1), &TransactionStatus::Skipped).is_none());
}

#[test]
fn test_two_callbacks_resolve_in_completion_order() {
    let mut processor = EvmTransactionProcessorImpl::default();
    let mut pairs = PairStorage::default();
    pairs
        .add_pair(&String::from("pair-a"), Pair {
            base_currency: String::from("PAIR"),
            quote_currency: String::from("A"),
        }, 0, 0)
        .unwrap();

    processor.register_transaction(hash(1), callback("pair-a"));
    processor.register_transaction(hash(2), callback("pair-b"));

    let mut fired: Vec<&str> = Vec::new();

    // Tick 1: A resolves as Processed, B stays Unknown.
    if let Some(cb) = processor.resolve_transaction(
        &hash(1),
        &TransactionStatus::Processed(receipt(1, 7)),
    ) {
        fired.push("processed-a");
        cb.processed(&receipt(1, 7), &mut pairs);
    }
    assert!(processor.resolve_transaction(&hash(2), &TransactionStatus::Unknown).is_none());

    // Ticks 2 and 3: B still Unknown; A is already gone.
    assert!(processor.resolve_transaction(&hash(2), &TransactionStatus::Unknown).is_none());
    assert!(processor
        .resolve_transaction(&hash(1), &TransactionStatus::Processed(receipt(1, 7)))
        .is_none());
    assert!(processor.resolve_transaction(&hash(2), &TransactionStatus::Unknown).is_none());

    // Tick 4: B resolves as Skipped.
    if let Some(cb) = processor.resolve_transaction(&hash(2), &TransactionStatus::Skipped) {
        fired.push("skipped-b");
        cb.skipped(&mut pairs);
    }

    // Each fired exactly once, in the order each became terminal.
    assert_eq!(fired, vec!["processed-a", "skipped-b"]);
    assert_eq!(processor.tracked_hashes().len(), 0);

    // A's processed action recorded the deployed feed address.
    let listed = pairs.all_pairs_with_address();
    assert_eq!(listed.len(), 1);
    assert_eq!(listed[0].1, H160::from_slice(&[7; 20]));
}

#[test]
fn test_process_transactions_tick() {
    let mut processor = EvmTransactionProcessorImpl::default();
    let mut pairs = PairStorage::default();
    pairs
        .add_pair(&String::from("btc-eth"), pair_value(), 0, 0)
        .unwrap();

    processor.register_transaction(hash(1), callback("btc-eth"));
    processor.register_transaction(hash(2), callback("btc-usd"));

    // Tick 1: the first transaction is mined, the second is still unknown.
    processor.process_transactions(
        vec![
            (hash(1), TransactionStatus::Processed(receipt(1, 7))),
            (hash(2), TransactionStatus::Unknown),
        ],
        &mut pairs,
    );
    assert_eq!(processor.tracked_hashes().len(), 1);
    assert_eq!(pairs.all_pairs_with_address().len(), 1);

    // Tick 2: the second transaction was dropped; its skipped action
    // records nothing.
    processor.process_transactions(vec![(hash(2), TransactionStatus::Skipped)], &mut pairs);
    assert_eq!(processor.tracked_hashes().len(), 0);
    assert_eq!(pairs.all_pairs_with_address().len(), 1);
}

fn pair_value() -> Pair {
    Pair { base_currency: String::from("BTC"), quote_currency: String::from("ETH") }
}

#[test]
fn test_register_creation_persists_pair_callback() {
    let mut processor = EvmTransactionProcessorImpl::default();
    let service = ContractService;
    let pair = Pair { base_currency: String::from("BTC"), quote_currency: String::from("ETH") };

    service.register_creation(&mut processor, hash(9), &pair);

    let cb = processor.extract_callback(&hash(9)).unwrap();
    assert!(matches!(cb, TxCallback::PriceFeedCreation(c) if c.pair_id == "btc-eth"));
}

#[test]
fn test_reset_forgets_pending_transactions() {
    let mut processor = EvmTransactionProcessorImpl::default();
    processor.register_transaction(hash(1), callback("a"));
    processor.register_transaction(hash(2), callback("b"));
    processor.reset();
    assert_eq!(processor.tracked_hashes().len(), 0);
}
