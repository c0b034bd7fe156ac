//! Concrete checks of the stated laws: the bijection, no-overwrite,
//! idempotent removal, conservation under both custody disciplines, and
//! atomicity when dispatch fails.

use bridge_handler::builder::{
    ExtBuilder, ADMIN_ACCOUNT, ALICE, BRIDGE_ACCOUNT, LOCAL_CHAIN_ID, NATIVE_ASSET_ID,
    REGISTRAR_ACCOUNT,
};
use bridge_handler::types::{Error, ResourceId};

const PCX: u32 = NATIVE_ASSET_ID;
const WETH: u32 = 1;
const DOT: u32 = 5;

fn rid(tag: u8, seed: u8) -> ResourceId {
    let mut bytes = [seed; 32];
    bytes[31] = tag;
    ResourceId::new(bytes)
}

#[test]
fn bijection_holds_both_ways() {
    let mut h = ExtBuilder::default().build();
    let r_pcx = rid(LOCAL_CHAIN_ID, 0xAA);
    let r_weth = rid(1, 0xBB);

    assert_eq!(h.register_resource_id(REGISTRAR_ACCOUNT, r_pcx, PCX), Ok(()));
    assert_eq!(h.register_resource_id(REGISTRAR_ACCOUNT, r_weth, WETH), Ok(()));

    // looking up through one direction and back gives the starting point
    assert_eq!(h.currency_ids(h.resource_ids(PCX).unwrap()), Some(PCX));
    assert_eq!(h.currency_ids(h.resource_ids(WETH).unwrap()), Some(WETH));
    assert_eq!(
        h.resource_ids(h.currency_ids(r_pcx).unwrap()),
        Some(r_pcx)
    );
    assert_eq!(
        h.resource_ids(h.currency_ids(r_weth).unwrap()),
        Some(r_weth)
    );

    // after removing one pair, the other is untouched
    assert_eq!(h.remove_resource_id(REGISTRAR_ACCOUNT, r_pcx), Ok(()));
    assert_eq!(h.resource_ids(PCX), None);
    assert_eq!(h.currency_ids(r_pcx), None);
    assert_eq!(h.resource_ids(WETH), Some(r_weth));
    assert_eq!(h.currency_ids(r_weth), Some(WETH));
}

#[test]
fn no_overwrite_on_bound_asset() {
    let mut h = ExtBuilder::default().build();
    let r_weth = rid(1, 0xBB);
    let r_other = rid(3, 0xCC);

    assert_eq!(h.register_resource_id(REGISTRAR_ACCOUNT, r_weth, WETH), Ok(()));

    // the asset side is already bound
    assert_eq!(
        h.register_resource_id(REGISTRAR_ACCOUNT, r_other, WETH),
        Err(Error::ResourceAlreadyRegistered)
    );
    assert_eq!(h.resource_ids(WETH), Some(r_weth));
    assert_eq!(h.currency_ids(r_other), None);
}

#[test]
fn no_overwrite_on_bound_resource() {
    let mut h = ExtBuilder::default().build();
    let r_weth = rid(1, 0xBB);

    assert_eq!(h.register_resource_id(REGISTRAR_ACCOUNT, r_weth, WETH), Ok(()));

    // the resource side is already bound; DOT is origin-remote too, so the
    // pair is consistent and only the collision can be reported
    assert_eq!(
        h.register_resource_id(REGISTRAR_ACCOUNT, r_weth, DOT),
        Err(Error::ResourceAlreadyRegistered)
    );
    assert_eq!(h.currency_ids(r_weth), Some(WETH));
    assert_eq!(h.resource_ids(DOT), None);
}

#[test]
fn bound_pair_beats_origin_mismatch() {
    let mut h = ExtBuilder::default().build();
    let r_weth = rid(1, 0xBB);
    let r_pcx = rid(LOCAL_CHAIN_ID, 0xAA);

    assert_eq!(h.register_resource_id(REGISTRAR_ACCOUNT, r_weth, WETH), Ok(()));

    // the resource is already bound: that is reported even though binding it
    // to the native asset would also contradict its foreign tag
    assert_eq!(
        h.register_resource_id(REGISTRAR_ACCOUNT, r_weth, PCX),
        Err(Error::ResourceAlreadyRegistered)
    );
    assert_eq!(h.currency_ids(r_weth), Some(WETH));
    assert_eq!(h.resource_ids(PCX), None);

    // the asset is already bound: same precedence on the other side
    assert_eq!(
        h.register_resource_id(REGISTRAR_ACCOUNT, r_pcx, WETH),
        Err(Error::ResourceAlreadyRegistered)
    );
    assert_eq!(h.resource_ids(WETH), Some(r_weth));
    assert_eq!(h.currency_ids(r_pcx), None);
}

#[test]
fn idempotent_removal_emits_nothing() {
    let mut h = ExtBuilder::default().build();
    let r_pcx = rid(LOCAL_CHAIN_ID, 0xAA);
    let r_unknown = rid(7, 0x11);

    assert_eq!(h.register_resource_id(REGISTRAR_ACCOUNT, r_pcx, PCX), Ok(()));
    let events_before = h.events().len();

    // removing an unknown resource id succeeds as a no-op without an event
    assert_eq!(h.remove_resource_id(REGISTRAR_ACCOUNT, r_unknown), Ok(()));
    assert_eq!(h.events().len(), events_before);
    assert_eq!(h.resource_ids(PCX), Some(r_pcx));

    // removing twice: the second call is the same no-op
    assert_eq!(h.remove_resource_id(REGISTRAR_ACCOUNT, r_pcx), Ok(()));
    let events_after_removal = h.events().len();
    assert_eq!(h.remove_resource_id(REGISTRAR_ACCOUNT, r_pcx), Ok(()));
    assert_eq!(h.events().len(), events_after_removal);
}

#[test]
fn conservation_origin_local_round_trip() {
    let mut h = ExtBuilder::default().build();
    let r_pcx = rid(LOCAL_CHAIN_ID, 0xAA);

    assert_eq!(h.bridge.whitelist_chain(ADMIN_ACCOUNT, 0), Ok(()));
    assert_eq!(h.register_resource_id(REGISTRAR_ACCOUNT, r_pcx, PCX), Ok(()));

    assert_eq!(h.do_transfer_to_bridge(ALICE, PCX, 0, vec![9, 9], 10), Ok(()));
    assert_eq!(h.free_balance(PCX, ALICE), 990);
    assert_eq!(h.free_balance(PCX, BRIDGE_ACCOUNT), 10);
    assert_eq!(h.total_issuance(PCX), 1000);

    assert_eq!(h.transfer_from_bridge(BRIDGE_ACCOUNT, ALICE, 10, r_pcx), Ok(()));
    assert_eq!(h.free_balance(PCX, ALICE), 1000);
    assert_eq!(h.free_balance(PCX, BRIDGE_ACCOUNT), 0);
    assert_eq!(h.total_issuance(PCX), 1000);
}

#[test]
fn conservation_origin_remote_burn_and_mint() {
    let mut h = ExtBuilder::default().build();
    let r_weth = rid(1, 0xBB);

    assert_eq!(h.bridge.whitelist_chain(ADMIN_ACCOUNT, 0), Ok(()));
    assert_eq!(h.register_resource_id(REGISTRAR_ACCOUNT, r_weth, WETH), Ok(()));
    assert_eq!(h.deposit(WETH, ALICE, 1000), Ok(()));

    // outbound strictly decreases the supply by the amount
    assert_eq!(h.do_transfer_to_bridge(ALICE, WETH, 0, vec![7], 20), Ok(()));
    assert_eq!(h.free_balance(WETH, ALICE), 980);
    assert_eq!(h.total_issuance(WETH), 980);

    // inbound strictly increases it again
    assert_eq!(h.transfer_from_bridge(BRIDGE_ACCOUNT, ALICE, 20, r_weth), Ok(()));
    assert_eq!(h.free_balance(WETH, ALICE), 1000);
    assert_eq!(h.total_issuance(WETH), 1000);
}

#[test]
fn atomicity_when_dispatch_fails() {
    let mut h = ExtBuilder::default().build();
    let r_pcx = rid(LOCAL_CHAIN_ID, 0xAA);

    assert_eq!(h.bridge.whitelist_chain(ADMIN_ACCOUNT, 0), Ok(()));
    assert_eq!(h.register_resource_id(REGISTRAR_ACCOUNT, r_pcx, PCX), Ok(()));

    h.bridge.set_available(false);
    assert_eq!(
        h.do_transfer_to_bridge(ALICE, PCX, 0, vec![1], 10),
        Err(Error::DispatchFailed)
    );

    // no lock survives the failed dispatch, and no message left
    assert_eq!(h.free_balance(PCX, ALICE), 1000);
    assert_eq!(h.free_balance(PCX, BRIDGE_ACCOUNT), 0);
    assert_eq!(h.total_issuance(PCX), 1000);
    assert_eq!(h.bridge.outbox.len(), 0);

    // once the transport recovers the same call goes through
    h.bridge.set_available(true);
    assert_eq!(h.do_transfer_to_bridge(ALICE, PCX, 0, vec![1], 10), Ok(()));
    assert_eq!(h.free_balance(PCX, ALICE), 990);
    assert_eq!(h.bridge.outbox.len(), 1);
}

#[test]
fn outbound_message_carries_the_resolved_resource() {
    let mut h = ExtBuilder::default().build();
    let r_pcx = rid(LOCAL_CHAIN_ID, 0xAA);

    assert_eq!(h.bridge.whitelist_chain(ADMIN_ACCOUNT, 0), Ok(()));
    assert_eq!(h.register_resource_id(REGISTRAR_ACCOUNT, r_pcx, PCX), Ok(()));
    assert_eq!(h.do_transfer_to_bridge(ALICE, PCX, 0, vec![4, 2], 10), Ok(()));

    assert_eq!(h.bridge.outbox.len(), 1);
    let message = &h.bridge.outbox[0];
    assert_eq!(message.dest_chain, 0);
    assert_eq!(message.resource_id, r_pcx);
    assert_eq!(message.recipient, vec![4, 2]);
    assert_eq!(message.amount, 10);
}

#[test]
fn insufficient_balance_leaves_state_unchanged() {
    let mut h = ExtBuilder::default().build();
    let r_pcx = rid(LOCAL_CHAIN_ID, 0xAA);

    assert_eq!(h.bridge.whitelist_chain(ADMIN_ACCOUNT, 0), Ok(()));
    assert_eq!(h.register_resource_id(REGISTRAR_ACCOUNT, r_pcx, PCX), Ok(()));

    assert_eq!(
        h.do_transfer_to_bridge(ALICE, PCX, 0, vec![1], 2000),
        Err(Error::InsufficientUsableBalance)
    );
    assert_eq!(h.free_balance(PCX, ALICE), 1000);
    assert_eq!(h.total_issuance(PCX), 1000);
    assert_eq!(h.bridge.outbox.len(), 0);

    // unlocking more than custody holds is refused too: it would create
    // net new supply
    assert_eq!(
        h.transfer_from_bridge(BRIDGE_ACCOUNT, ALICE, 1, r_pcx),
        Err(Error::InsufficientUsableBalance)
    );
    assert_eq!(h.free_balance(PCX, ALICE), 1000);
}

#[test]
fn minting_over_the_limit_is_refused() {
    let mut h = ExtBuilder::default().build();
    let r_weth = rid(1, 0xBB);

    assert_eq!(h.register_resource_id(REGISTRAR_ACCOUNT, r_weth, WETH), Ok(()));
    assert_eq!(h.deposit(WETH, ALICE, u128::MAX), Ok(()));

    assert_eq!(
        h.transfer_from_bridge(BRIDGE_ACCOUNT, ALICE, 1, r_weth),
        Err(Error::BalanceOverflow)
    );
    assert_eq!(h.free_balance(WETH, ALICE), u128::MAX);
    assert_eq!(h.total_issuance(WETH), u128::MAX);

    assert_eq!(h.deposit(WETH, ALICE, 1), Err(Error::BalanceOverflow));
}

#[test]
fn whitelisting_needs_the_admin() {
    let mut h = ExtBuilder::default().build();
    assert_eq!(h.bridge.whitelist_chain(ALICE, 0), Err(Error::Unauthorized));
    assert!(!h.bridge.is_chain_whitelisted(0));
    assert_eq!(h.bridge.whitelist_chain(ADMIN_ACCOUNT, 0), Ok(()));
    assert!(h.bridge.is_chain_whitelisted(0));
}
