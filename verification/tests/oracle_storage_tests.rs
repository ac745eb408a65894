use oracular::canister::{EvmDestination, EvmOrigin, HttpOrigin, Origin};
use oracular::error::Error;
use oracular::provider::Provider;
use oracular::state::oracle_storage::{OracleStorage, UpdateOracleMetadata};
use oracular::types::{H160, TimerId};

fn http_origin(url: &str, json_path: &str) -> Origin {
    Origin::Http(HttpOrigin { url: String::from(url), json_path: String::from(json_path) })
}

fn evm_origin(hostname: &str, target: H160, method: &str) -> Origin {
    Origin::Evm(EvmOrigin {
        provider: Provider { chain_id: 1, hostname: String::from(hostname) },
        target_address: target,
        method: String::from(method),
    })
}

fn destination(contract: H160, hostname: &str) -> EvmDestination {
    EvmDestination { contract, provider: Provider { chain_id: 1, hostname: String::from(hostname) } }
}

#[test]
fn clear_oracle_storage() {
    let mut oracle_storage = OracleStorage::default();

    let user_address = H160::from_slice(&[1; 20]);
    let evm_contract_address = H160::from_slice(&[2; 20]);

    let origin = http_origin("https://example.com", "data");
    let dest = destination(evm_contract_address.clone(), "https://example.com");

    oracle_storage.add_oracle(user_address.clone(), origin, 100, TimerId::default(), dest);

    oracle_storage.clear();

    let oracle_metadata = oracle_storage
        .get_oracle_by_address(user_address, evm_contract_address)
        .unwrap_err();

    assert_eq!(oracle_metadata, Error::UserNotFound);
}

#[test]
fn test_add_oracle() {
    let mut oracle_storage = OracleStorage::default();

    let user_address = H160::from_slice(&[1; 20]);
    let evm_contract_address = H160::from_slice(&[2; 20]);

    let origin = http_origin("https://example.com", "data");
    let dest = destination(evm_contract_address.clone(), "https://example.com");

    oracle_storage.add_oracle(
        user_address.clone(),
        http_origin("https://example.com", "data"),
        100,
        TimerId::default(),
        dest.clone(),
    );

    let oracle_metadata = oracle_storage
        .get_oracle_by_address(user_address, evm_contract_address)
        .unwrap();

    assert_eq!(oracle_metadata.origin, origin);
    assert_eq!(oracle_metadata.timer_interval, 100);
    assert_eq!(oracle_metadata.evm, dest);
}

#[test]
fn test_add_multiple_oracles() {
    let mut oracle_storage = OracleStorage::default();

    let user_address = H160::from_slice(&[1; 20]);
    let evm_contract_address = H160::from_slice(&[2; 20]);

    let origin1 = http_origin("https://example.com", "data");
    let destination1 = destination(evm_contract_address.clone(), "https://example.com");

    oracle_storage.add_oracle(
        user_address.clone(),
        http_origin("https://example.com", "data"),
        100,
        TimerId::default(),
        destination1.clone(),
    );

    let origin2 = evm_origin("https://example.com", H160::from_slice(&[3; 20]), "getPrice");
    let destination2 = destination(H160::from_slice(&[4; 20]), "https://example.com");

    oracle_storage.add_oracle(
        user_address.clone(),
        evm_origin("https://example.com", H160::from_slice(&[3; 20]), "getPrice"),
        50,
        TimerId::default(),
        destination2.clone(),
    );

    let oracle_metadata = oracle_storage
        .get_oracle_by_address(user_address.clone(), evm_contract_address)
        .unwrap();

    assert_eq!(oracle_metadata.origin, origin1);
    assert_eq!(oracle_metadata.timer_interval, 100);
    assert_eq!(oracle_metadata.evm, destination1);

    let oracle_metadata = oracle_storage
        .get_oracle_by_address(user_address, H160::from_slice(&[4; 20]))
        .unwrap();

    assert_eq!(oracle_metadata.origin, origin2);
    assert_eq!(oracle_metadata.timer_interval, 50);
    assert_eq!(oracle_metadata.evm, destination2);
}

#[test]
fn test_update_oracle_metadata() {
    let mut oracle_storage = OracleStorage::default();

    let user_address = H160::from_slice(&[1; 20]);
    let evm_contract_address = H160::from_slice(&[2; 20]);

    let origin1 = http_origin("https://example.com", "data");
    let destination1 = destination(evm_contract_address.clone(), "https://example.com");

    oracle_storage.add_oracle(
        user_address.clone(),
        http_origin("https://example.com", "data"),
        100,
        TimerId::default(),
        destination1,
    );

    let oracle_metadata = oracle_storage
        .get_oracle_by_address(user_address.clone(), evm_contract_address.clone())
        .unwrap();

    assert_eq!(oracle_metadata.origin, origin1);

    let new_origin = evm_origin("https://example.com", H160::from_slice(&[3; 20]), "getPrice");

    let update_metadata = UpdateOracleMetadata {
        origin: Some(evm_origin("https://example.com", H160::from_slice(&[3; 20]), "getPrice")),
        evm: None,
        timestamp: None,
    };

    oracle_storage
        .update_oracle_metadata(
            user_address.clone(),
            evm_contract_address.clone(),
            None,
            update_metadata,
        )
        .unwrap();

    let oracle_metadata = oracle_storage
        .get_oracle_by_address(user_address, evm_contract_address)
        .unwrap();

    assert_eq!(oracle_metadata.origin, new_origin);
}

#[test]
fn test_remove_single_oracle_by_address() {
    let mut oracle_storage = OracleStorage::default();

    let user_address = H160::from_slice(&[1; 20]);
    let evm_contract_address = H160::from_slice(&[2; 20]);

    let origin1 = http_origin("https://example.com", "data");
    let destination1 = destination(evm_contract_address.clone(), "https://example.com");

    oracle_storage.add_oracle(
        user_address.clone(),
        http_origin("https://example.com", "data"),
        100,
        TimerId::default(),
        destination1,
    );

    let oracle_metadata = oracle_storage
        .get_oracle_by_address(user_address.clone(), evm_contract_address.clone())
        .unwrap();

    assert_eq!(oracle_metadata.origin, origin1);

    oracle_storage
        .remove_oracle_by_address(user_address.clone(), evm_contract_address.clone())
        .unwrap();

    // If the user has no oracles, the user is removed.
    let oracle_metadata = oracle_storage
        .get_oracle_by_address(user_address, evm_contract_address)
        .unwrap_err();

    assert_eq!(oracle_metadata, Error::UserNotFound);
}

#[test]
fn test_remove_multiple_oracles_by_address() {
    let mut oracle_storage = OracleStorage::default();

    let user_address = H160::from_slice(&[1; 20]);
    let evm_contract_address1 = H160::from_slice(&[2; 20]);
    let evm_contract_address2 = H160::from_slice(&[3; 20]);

    let origin1 = http_origin("https://example.com", "data");
    let destination1 = destination(evm_contract_address1.clone(), "https://example.com");

    oracle_storage.add_oracle(
        user_address.clone(),
        http_origin("https://example.com", "data"),
        100,
        TimerId::default(),
        destination1,
    );

    let origin2 = evm_origin("https://example.com", H160::from_slice(&[3; 20]), "getPrice");
    let destination2 = destination(evm_contract_address2.clone(), "https://example.com");

    oracle_storage.add_oracle(
        user_address.clone(),
        evm_origin("https://example.com", H160::from_slice(&[3; 20]), "getPrice"),
        50,
        TimerId::default(),
        destination2,
    );

    let oracle_metadata = oracle_storage
        .get_oracle_by_address(user_address.clone(), evm_contract_address1.clone())
        .unwrap();

    assert_eq!(oracle_metadata.origin, origin1);

    let oracle_metadata = oracle_storage
        .get_oracle_by_address(user_address.clone(), evm_contract_address2.clone())
        .unwrap();

    assert_eq!(oracle_metadata.origin, origin2);

    oracle_storage
        .remove_oracle_by_address(user_address.clone(), evm_contract_address1.clone())
        .unwrap();

    let oracle_metadata = oracle_storage
        .get_oracle_by_address(user_address.clone(), evm_contract_address1)
        .unwrap_err();

    assert_eq!(oracle_metadata, Error::OracleNotFound);

    let oracle_metadata = oracle_storage
        .get_oracle_by_address(user_address, evm_contract_address2)
        .unwrap();

    assert_eq!(oracle_metadata.origin, origin2);
}

#[test]
fn test_get_user_oracles() {
    let mut oracle_storage = OracleStorage::default();

    let user_address1 = H160::from_slice(&[1; 20]);
    let user_address2 = H160::from_slice(&[2; 20]);

    let evm_contract_address1 = H160::from_slice(&[3; 20]);
    let evm_contract_address2 = H160::from_slice(&[4; 20]);

    let destination1 = destination(evm_contract_address1.clone(), "https://example.com");
    let destination2 = destination(evm_contract_address2.clone(), "https://example.com");

    oracle_storage.add_oracle(
        user_address1.clone(),
        http_origin("https://example.com", "data"),
        100,
        TimerId::default(),
        destination1.clone(),
    );

    oracle_storage.add_oracle(
        user_address2.clone(),
        evm_origin("https://example.com", H160::from_slice(&[3; 20]), "getPrice"),
        50,
        TimerId::default(),
        destination1,
    );

    oracle_storage.add_oracle(
        user_address2.clone(),
        http_origin("https://example.com", "data"),
        50,
        TimerId::default(),
        destination2,
    );

    let user_oracles = oracle_storage.get_user_oracles(user_address1).unwrap();

    assert_eq!(user_oracles.len(), 1);

    let user_oracles = oracle_storage.get_user_oracles(user_address2).unwrap();

    assert_eq!(user_oracles.len(), 2);

    let user_oracles = oracle_storage
        .get_user_oracles(H160::from_slice(&[5; 20]))
        .unwrap_err();

    assert_eq!(user_oracles, Error::UserNotFound);

    let user_oracles = oracle_storage.get_oracles();

    assert_eq!(user_oracles.len(), 2);
}

#[test]
fn test_get_timer_id_by_address() {
    let mut oracle_storage = OracleStorage::default();

    let user_address = H160::from_slice(&[1; 20]);
    let evm_contract_address = H160::from_slice(&[2; 20]);

    let destination1 = destination(evm_contract_address.clone(), "https://example.com");

    let timer = TimerId(1);

    oracle_storage.add_oracle(
        user_address.clone(),
        http_origin("https://example.com", "data"),
        100,
        timer,
        destination1,
    );

    let timer_id = oracle_storage
        .get_timer_id_by_address(user_address, evm_contract_address)
        .unwrap();

    assert_eq!(timer_id, timer);
}

#[test]
fn test_oracle_addition_with_timer_id() {
    let mut oracle_storage = OracleStorage::default();

    let user_address = H160::from_slice(&[1; 20]);
    let evm_contract_address = H160::from_slice(&[2; 20]);

    let destination1 = destination(evm_contract_address.clone(), "https://example.com");

    let timer = TimerId(1);

    oracle_storage.add_oracle(
        user_address.clone(),
        http_origin("https://example.com", "data"),
        100,
        timer,
        destination1,
    );

    let oracle_metadata = oracle_storage
        .get_timer_id_by_address(user_address, evm_contract_address)
        .unwrap();

    assert_eq!(oracle_metadata, timer);
}
