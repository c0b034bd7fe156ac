//! End-to-end pallet scenarios: registration, removal and the two transfer
//! directions, exercised on the built genesis state.

use bridge_handler::builder::{
    ExtBuilder, ADMIN_ACCOUNT, ALICE, BRIDGE_ACCOUNT, LOCAL_CHAIN_ID, NATIVE_ASSET_ID,
    REGISTRAR_ACCOUNT,
};
use bridge_handler::types::{Error, Event, ResourceId};

const PCX: u32 = NATIVE_ASSET_ID;
const WETH: u32 = 1;

fn rid(tag: u8, seed: u8) -> ResourceId {
    let mut bytes = [seed; 32];
    bytes[31] = tag;
    ResourceId::new(bytes)
}

fn pcx_resource_id() -> ResourceId {
    rid(LOCAL_CHAIN_ID, 0xAA)
}

fn weth_resource_id() -> ResourceId {
    rid(1, 0xBB)
}

#[test]
fn register_resource_id_work() {
    let mut h = ExtBuilder::default().build();

    assert_eq!(h.resource_ids(PCX), None);
    assert_eq!(h.currency_ids(pcx_resource_id()), None);

    // a signer without the registrar capability is rejected
    assert_eq!(
        h.register_resource_id(ALICE, pcx_resource_id(), PCX),
        Err(Error::Unauthorized)
    );

    // a locally-tagged resource cannot be bound to a non-native asset
    assert_eq!(
        h.register_resource_id(REGISTRAR_ACCOUNT, pcx_resource_id(), WETH),
        Err(Error::ResourceOriginMismatch)
    );

    // a foreign-tagged resource cannot be bound to the native asset
    assert_eq!(
        h.register_resource_id(REGISTRAR_ACCOUNT, weth_resource_id(), PCX),
        Err(Error::ResourceOriginMismatch)
    );

    // nothing was bound by the failed attempts
    assert_eq!(h.resource_ids(PCX), None);
    assert_eq!(h.resource_ids(WETH), None);

    assert_eq!(
        h.register_resource_id(REGISTRAR_ACCOUNT, pcx_resource_id(), PCX),
        Ok(())
    );
    let register_event = Event::RegisterResourceId(pcx_resource_id(), PCX);
    assert!(h.events().iter().any(|e| *e == register_event));

    assert_eq!(h.resource_ids(PCX), Some(pcx_resource_id()));
    assert_eq!(h.currency_ids(pcx_resource_id()), Some(PCX));

    assert_eq!(
        h.register_resource_id(REGISTRAR_ACCOUNT, pcx_resource_id(), PCX),
        Err(Error::ResourceAlreadyRegistered)
    );
}

#[test]
fn remove_resource_id_work() {
    let mut h = ExtBuilder::default().build();

    assert_eq!(
        h.register_resource_id(REGISTRAR_ACCOUNT, pcx_resource_id(), PCX),
        Ok(())
    );
    assert_eq!(h.resource_ids(PCX), Some(pcx_resource_id()));
    assert_eq!(h.currency_ids(pcx_resource_id()), Some(PCX));

    assert_eq!(
        h.remove_resource_id(ALICE, pcx_resource_id()),
        Err(Error::Unauthorized)
    );
    assert_eq!(h.resource_ids(PCX), Some(pcx_resource_id()));

    assert_eq!(h.remove_resource_id(REGISTRAR_ACCOUNT, pcx_resource_id()), Ok(()));
    let unregister_event = Event::UnregisterResourceId(pcx_resource_id(), PCX);
    assert!(h.events().iter().any(|e| *e == unregister_event));

    assert_eq!(h.resource_ids(PCX), None);
    assert_eq!(h.currency_ids(pcx_resource_id()), None);
}

#[test]
fn do_transfer_to_bridge_work() {
    let mut h = ExtBuilder::default().build();
    let dest_chain_id: u8 = 0;

    assert_eq!(
        h.do_transfer_to_bridge(ALICE, PCX, dest_chain_id, vec![1], 10),
        Err(Error::UnknownDestinationChain)
    );

    assert_eq!(h.bridge.whitelist_chain(ADMIN_ACCOUNT, dest_chain_id), Ok(()));
    assert_eq!(
        h.do_transfer_to_bridge(ALICE, PCX, dest_chain_id, vec![1], 10),
        Err(Error::ResourceNotRegistered)
    );

    assert_eq!(
        h.register_resource_id(REGISTRAR_ACCOUNT, pcx_resource_id(), PCX),
        Ok(())
    );
    assert_eq!(h.total_issuance(PCX), 1000);
    assert_eq!(h.free_balance(PCX, ALICE), 1000);
    assert_eq!(h.free_balance(PCX, BRIDGE_ACCOUNT), 0);

    // origin-local: lock, supply-neutral
    assert_eq!(
        h.do_transfer_to_bridge(ALICE, PCX, dest_chain_id, vec![1], 10),
        Ok(())
    );
    assert_eq!(h.total_issuance(PCX), 1000);
    assert_eq!(h.free_balance(PCX, ALICE), 990);
    assert_eq!(h.free_balance(PCX, BRIDGE_ACCOUNT), 10);

    assert_eq!(
        h.register_resource_id(REGISTRAR_ACCOUNT, weth_resource_id(), WETH),
        Ok(())
    );
    assert_eq!(h.deposit(WETH, ALICE, 1000), Ok(()));
    assert_eq!(h.total_issuance(WETH), 1000);
    assert_eq!(h.free_balance(WETH, ALICE), 1000);
    assert_eq!(h.free_balance(WETH, BRIDGE_ACCOUNT), 0);

    // origin-remote: burn, the supply shrinks
    assert_eq!(
        h.do_transfer_to_bridge(ALICE, WETH, dest_chain_id, vec![1], 20),
        Ok(())
    );
    assert_eq!(h.total_issuance(WETH), 980);
    assert_eq!(h.free_balance(WETH, ALICE), 980);
    assert_eq!(h.free_balance(WETH, BRIDGE_ACCOUNT), 0);
}

#[test]
fn transfer_to_bridge_signed_caller() {
    let mut h = ExtBuilder::default().build();

    assert_eq!(h.bridge.whitelist_chain(ADMIN_ACCOUNT, 0), Ok(()));
    assert_eq!(
        h.register_resource_id(REGISTRAR_ACCOUNT, pcx_resource_id(), PCX),
        Ok(())
    );

    // the dispatchable debits the signed caller itself
    assert_eq!(h.transfer_to_bridge(ALICE, PCX, 0, vec![1], 10), Ok(()));
    assert_eq!(h.free_balance(PCX, ALICE), 990);
    assert_eq!(h.free_balance(PCX, BRIDGE_ACCOUNT), 10);
    assert_eq!(h.total_issuance(PCX), 1000);
}

#[test]
fn transfer_from_bridge_work() {
    let mut h = ExtBuilder::default().build();

    assert_eq!(
        h.transfer_from_bridge(ALICE, ALICE, 500, pcx_resource_id()),
        Err(Error::Unauthorized)
    );

    assert_eq!(
        h.transfer_from_bridge(BRIDGE_ACCOUNT, ALICE, 500, pcx_resource_id()),
        Err(Error::ResourceNotRegistered)
    );

    assert_eq!(
        h.register_resource_id(REGISTRAR_ACCOUNT, pcx_resource_id(), PCX),
        Ok(())
    );
    assert_eq!(h.deposit(PCX, BRIDGE_ACCOUNT, 1000), Ok(()));
    assert_eq!(h.total_issuance(PCX), 2000);
    assert_eq!(h.free_balance(PCX, ALICE), 1000);
    assert_eq!(h.free_balance(PCX, BRIDGE_ACCOUNT), 1000);

    // origin-local: unlock out of custody, supply-neutral
    assert_eq!(
        h.transfer_from_bridge(BRIDGE_ACCOUNT, ALICE, 500, pcx_resource_id()),
        Ok(())
    );
    assert_eq!(h.total_issuance(PCX), 2000);
    assert_eq!(h.free_balance(PCX, ALICE), 1500);
    assert_eq!(h.free_balance(PCX, BRIDGE_ACCOUNT), 500);

    assert_eq!(
        h.register_resource_id(REGISTRAR_ACCOUNT, weth_resource_id(), WETH),
        Ok(())
    );
    assert_eq!(h.total_issuance(WETH), 0);
    assert_eq!(h.free_balance(WETH, ALICE), 0);
    assert_eq!(h.free_balance(WETH, BRIDGE_ACCOUNT), 0);

    // origin-remote: mint, the supply grows
    assert_eq!(
        h.transfer_from_bridge(BRIDGE_ACCOUNT, ALICE, 500, weth_resource_id()),
        Ok(())
    );
    assert_eq!(h.total_issuance(WETH), 500);
    assert_eq!(h.free_balance(WETH, ALICE), 500);
    assert_eq!(h.free_balance(WETH, BRIDGE_ACCOUNT), 0);
}
