use oracular::canister::{
    check_anonymous_principal, EvmDestination, HttpOrigin, InitData, Oracular, Origin, TickRequest,
};
use oracular::error::Error;
use oracular::http::{HttpRequest, HttpResponse};
use oracular::provider::Provider;
use oracular::state::oracle_storage::UpdateOracleMetadata;
use oracular::state::settings::Settings;
use oracular::types::{H160, Principal};

fn engine() -> Oracular {
    let settings = Settings::new(
        Principal::from_slice(&[7, 7, 7]),
        Principal::management_canister(),
    );
    Oracular::from_principal(Principal::from_slice(&[9]), settings)
}

fn coinbase_origin() -> Origin {
    Origin::Http(HttpOrigin {
        url: String::from("https://api.coinbase.com/v2/prices/BTC-ETH/spot"),
        json_path: String::from("data.amount"),
    })
}

fn local_destination(contract: H160) -> EvmDestination {
    EvmDestination {
        contract,
        provider: Provider { chain_id: 355113, hostname: String::from("https://127.0.0.1:8545") },
    }
}

#[test]
fn test_create_oracle_http_origin() {
    let mut engine = engine();
    let user = H160::from_hex_str("0x637F877db257ccba80B1fe06b0bEA039cd92C736").unwrap();
    let contract = H160::from_slice(&[0xAA; 20]);

    engine
        .create_oracle(user.clone(), coinbase_origin(), 10, local_destination(contract.clone()))
        .unwrap();

    let oracles = engine.get_user_oracles(user.clone()).unwrap();
    assert_eq!(oracles.len(), 1);

    let md = engine.get_oracle_metadata(user.clone(), contract.clone()).unwrap();
    assert_eq!(md.timer_interval, 10);
    assert_eq!(md.origin, coinbase_origin());
    assert_eq!(md.owner, user);

    // Exactly one timer is armed, and it belongs to this oracle.
    let timer = engine
        .context
        .0
        .state
        .oracle_storage
        .get_timer_id_by_address(user, contract)
        .unwrap();
    assert!(engine.timers.is_armed(timer));
    assert_eq!(engine.timers.armed.len(), 1);
}

#[test]
fn test_update_oracle() {
    let mut engine = engine();
    let user = H160::from_hex_str("0x637F877db257ccba80B1fe06b0bEA039cd92C736").unwrap();
    let contract = H160::from_slice(&[0xAA; 20]);

    engine
        .create_oracle(user.clone(), coinbase_origin(), 10, local_destination(contract.clone()))
        .unwrap();

    let new_origin = Origin::Http(HttpOrigin {
        url: String::from("https://example.com"),
        json_path: String::from("data"),
    });
    let patch = UpdateOracleMetadata {
        origin: Some(Origin::Http(HttpOrigin {
            url: String::from("https://example.com"),
            json_path: String::from("data"),
        })),
        evm: None,
        timestamp: Some(20),
    };

    let old_timer = engine
        .context
        .0
        .state
        .oracle_storage
        .get_timer_id_by_address(user.clone(), contract.clone())
        .unwrap();

    engine.update_oracle_metadata(user.clone(), contract.clone(), patch).unwrap();

    let md = engine.get_oracle_metadata(user.clone(), contract.clone()).unwrap();
    assert_eq!(md.origin, new_origin);
    assert_eq!(md.timer_interval, 20);

    // The previous timer handle is invalidated and exactly one new timer
    // exists for the pair.
    assert!(!engine.timers.is_armed(old_timer));
    let new_timer = engine
        .context
        .0
        .state
        .oracle_storage
        .get_timer_id_by_address(user, contract)
        .unwrap();
    assert!(engine.timers.is_armed(new_timer));
    assert_eq!(engine.timers.armed.len(), 1);
}

#[test]
fn test_update_oracle_empty_patch_rejected() {
    let mut engine = engine();
    let user = H160::from_slice(&[1; 20]);
    let contract = H160::from_slice(&[2; 20]);

    engine
        .create_oracle(user.clone(), coinbase_origin(), 10, local_destination(contract.clone()))
        .unwrap();

    let timer = engine
        .context
        .0
        .state
        .oracle_storage
        .get_timer_id_by_address(user.clone(), contract.clone())
        .unwrap();

    // An all-empty patch is rejected with no state change and no re-arm.
    let patch = UpdateOracleMetadata { origin: None, evm: None, timestamp: None };
    let err = engine.update_oracle_metadata(user.clone(), contract.clone(), patch).unwrap_err();
    assert_eq!(
        err,
        Error::Internal(String::from("At least one of the metadata fields must be set"))
    );

    let md = engine.get_oracle_metadata(user.clone(), contract.clone()).unwrap();
    assert_eq!(md.timer_interval, 10);
    let same_timer = engine
        .context
        .0
        .state
        .oracle_storage
        .get_timer_id_by_address(user, contract)
        .unwrap();
    assert_eq!(same_timer, timer);
    assert!(engine.timers.is_armed(timer));
}

#[test]
fn delete_oracle() {
    let mut engine = engine();
    let user = H160::from_hex_str("0x637F877db257ccba80B1fe06b0bEA039cd92C736").unwrap();
    let contract = H160::from_slice(&[0xAA; 20]);

    engine
        .create_oracle(user.clone(), coinbase_origin(), 10, local_destination(contract.clone()))
        .unwrap();

    let oracles = engine.get_user_oracles(user.clone()).unwrap();
    assert_eq!(oracles.len(), 1);

    engine.delete_oracle(user.clone(), contract.clone()).unwrap();

    let err = engine.get_user_oracles(user.clone()).unwrap_err();
    assert_eq!(err, Error::UserNotFound);
    assert_eq!(engine.timers.armed.len(), 0);

    // Deleting twice reports the oracle as missing and never corrupts the
    // registry.
    let err = engine.delete_oracle(user, contract).unwrap_err();
    assert_eq!(err, Error::OracleNotFound);
}

#[test]
fn test_delete_leaves_other_oracle_untouched() {
    let mut engine = engine();
    let user = H160::from_slice(&[1; 20]);
    let contract1 = H160::from_slice(&[2; 20]);
    let contract2 = H160::from_slice(&[3; 20]);

    engine
        .create_oracle(user.clone(), coinbase_origin(), 5, local_destination(contract1.clone()))
        .unwrap();
    engine
        .create_oracle(user.clone(), coinbase_origin(), 7, local_destination(contract2.clone()))
        .unwrap();

    let timer2 = engine
        .context
        .0
        .state
        .oracle_storage
        .get_timer_id_by_address(user.clone(), contract2.clone())
        .unwrap();

    engine.delete_oracle(user.clone(), contract1).unwrap();

    // The other oracle's metadata and timer are untouched.
    let md = engine.get_oracle_metadata(user.clone(), contract2.clone()).unwrap();
    assert_eq!(md.timer_interval, 7);
    let same_timer = engine
        .context
        .0
        .state
        .oracle_storage
        .get_timer_id_by_address(user, contract2)
        .unwrap();
    assert_eq!(same_timer, timer2);
    assert!(engine.timers.is_armed(timer2));
    assert_eq!(engine.timers.armed.len(), 1);
}

#[test]
fn test_update_by_non_owner_fails_without_mutation() {
    let mut engine = engine();
    let owner = H160::from_slice(&[1; 20]);
    let stranger = H160::from_slice(&[9; 20]);
    let contract = H160::from_slice(&[2; 20]);

    engine
        .create_oracle(owner.clone(), coinbase_origin(), 10, local_destination(contract.clone()))
        .unwrap();

    let patch = UpdateOracleMetadata { origin: None, evm: None, timestamp: Some(99) };
    let err = engine.update_oracle_metadata(stranger.clone(), contract.clone(), patch).unwrap_err();
    assert_eq!(err, Error::OracleNotFound);

    let err = engine.delete_oracle(stranger, contract.clone()).unwrap_err();
    assert_eq!(err, Error::OracleNotFound);

    let md = engine.get_oracle_metadata(owner, contract).unwrap();
    assert_eq!(md.timer_interval, 10);
    assert_eq!(engine.timers.armed.len(), 1);
}

#[test]
fn test_set_owner_anonymous() {
    let mut engine = engine();

    let res = engine.set_owner(Principal::from_slice(&[7, 7, 7]), Principal::anonymous());

    assert!(res.is_err());

    let res = engine.set_owner(Principal::from_slice(&[7, 7, 7]), Principal::from_slice(&[8]));

    assert!(res.is_ok());
    assert_eq!(engine.owner(), Principal::from_slice(&[8]));
}

#[test]
fn set_owner_access() {
    let mut engine = engine();

    // A caller that is not the owner cannot hand the engine over.
    let res = engine.set_owner(Principal::from_slice(&[1]), Principal::from_slice(&[8]));
    assert!(res.is_err());

    let res = engine.set_owner(Principal::from_slice(&[7, 7, 7]), Principal::from_slice(&[8]));
    assert!(res.is_ok());
}

#[test]
fn test_init_clears_registry_and_timers() {
    let mut engine = engine();
    let user = H160::from_slice(&[1; 20]);
    let contract = H160::from_slice(&[2; 20]);
    engine
        .create_oracle(user.clone(), coinbase_origin(), 10, local_destination(contract))
        .unwrap();

    let new_owner = Principal::from_slice(&[3, 3]);
    assert!(check_anonymous_principal(&new_owner).is_ok());
    engine.init(InitData { owner: new_owner.clone() });

    assert_eq!(engine.owner(), new_owner);
    assert_eq!(engine.get_all_oracles().len(), 0);
    assert_eq!(engine.timers.armed.len(), 0);
}

#[test]
fn test_http_request_routing() {
    let engine = engine();

    let post = HttpRequest {
        method: String::from("POST"),
        url: String::from("/"),
        headers: Vec::new(),
        body: Vec::new(),
    };
    let r: HttpResponse = engine.http_request(&post);
    assert_eq!(r.status_code, 204);
    assert_eq!(r.upgrade, Some(true));

    let get = HttpRequest {
        method: String::from("GET"),
        url: String::from("/"),
        headers: Vec::new(),
        body: Vec::new(),
    };
    let r = engine.http_request(&get);
    assert_eq!(r.status_code, 400);
    assert_eq!(r.body, b"Method not allowed".to_vec());
}

#[test]
fn test_create_oracle_fires_independently() {
    // An oracle at interval 5 toward contract 0xAA..: every fire of its
    // timer plans the same independent fetch.
    let mut engine = engine();
    let user = H160::from_slice(&[1; 20]);
    let contract = H160::from_slice(&[0xAA; 20]);
    let origin = Origin::Http(HttpOrigin {
        url: String::from("https://x/price"),
        json_path: String::from("data.amount"),
    });
    let destination = EvmDestination {
        contract: contract.clone(),
        provider: Provider { chain_id: 1, hostname: String::from("https://127.0.0.1:8545") },
    };
    engine.create_oracle(user.clone(), origin, 5, destination).unwrap();

    let md = engine.get_oracle_metadata(user, contract).unwrap();
    assert_eq!(md.timer_interval, 5);
    assert_eq!(engine.timers.armed.len(), 1);
    assert_eq!(engine.timers.armed[0].1, 5);

    let mut fires = 0;
    while fires < 4 {
        match oracular::canister::plan_tick(&md.origin) {
            TickRequest::HttpGet { url, json_path } => {
                assert_eq!(url, "https://x/price");
                assert_eq!(json_path, "data.amount");
            },
            _ => panic!("an HTTP origin plans a GET"),
        }
        fires += 1;
    }
    assert_eq!(fires, 4);
}

#[test]
fn test_plan_tick_http() {
    let plan = oracular::canister::plan_tick(&coinbase_origin());
    match plan {
        TickRequest::HttpGet { url, json_path } => {
            assert_eq!(url, String::from("https://api.coinbase.com/v2/prices/BTC-ETH/spot"));
            assert_eq!(json_path, String::from("data.amount"));
        },
        _ => panic!("an HTTP origin plans a GET"),
    }
}
