//! The transfer orchestrator: admin-gated registry maintenance, and the two
//! transfer directions, each an all-or-nothing combination of capability
//! check, registry lookup, origin determination, custody mutation and bridge
//! dispatch.
//!
//! Every precondition of an operation is checked before anything is mutated,
//! so a failing call returns its error with the state exactly as it found
//! it; no partial effect is ever visible.

use vstd::prelude::*;

use crate::ledger::{balances_moved, spec_balance, spec_issuance, Ledger};
use crate::registry::{
    has_asset, has_resource, spec_asset_of, spec_origin_of, spec_resource_of, Registry,
};
use crate::transport::BridgeTransport;
use crate::types::{
    origin_is_local, spec_origin_kind, AccountId, AssetId, Balance, ChainId, Error, Event,
    OriginKind, ResourceId,
};

verus! {

/// Registration demands that the resource identifier's chain tag agree with
/// the asset's classification: the native asset must be tagged as
/// originating on the local chain, every other asset as originating
/// elsewhere.
pub open spec fn kind_consistent(
    rid: Seq<u8>,
    asset_id: AssetId,
    local_chain: ChainId,
    native_asset: AssetId,
) -> bool {
    (asset_id == native_asset) <==> origin_is_local(rid, local_chain)
}

/// The registry-and-orchestration module: the mapping bijection plus the
/// collaborators it drives, owned as explicit values.
pub struct Pallet {
    /// The asset `<->` resource bijection.
    pub registry: Registry,
    /// The asset ledger custody is delegated to.
    pub ledger: Ledger,
    /// The bridge transport messages are dispatched through.
    pub bridge: BridgeTransport,
    /// Account holding the registrar capability.
    pub registrar: AccountId,
    /// The authenticated bridge identity: the only caller allowed to
    /// originate inbound transfers, and the custody account that locked
    /// funds are parked under.
    pub bridge_account: AccountId,
    /// The asset whose canonical supply lives on the local chain.
    pub native_asset_id: AssetId,
    /// Registration and unregistration events, oldest first.
    pub events: Vec<Event>,
}

impl Pallet {
    /// Well-formedness: the registry is a bijection and every stored origin
    /// kind is the one the chain-tag rule assigns.
    pub open spec fn wf(&self) -> bool {
        &&& self.registry.wf()
        &&& self.ledger.wf()
        &&& forall|i: int|
            0 <= i < self.registry@.len() ==> (#[trigger] self.registry@[i]).origin
                == spec_origin_kind(self.registry@[i].resource_id@, self.bridge.local_chain)
    }

    pub fn new(
        local_chain: ChainId,
        admin: AccountId,
        registrar: AccountId,
        bridge_account: AccountId,
        native_asset_id: AssetId,
    ) -> (r: Pallet)
        ensures
            r.wf(),
            r.registry@.len() == 0,
            r.ledger.balances@.len() == 0,
            r.ledger.issuances@.len() == 0,
            r.bridge.local_chain == local_chain,
            r.bridge.admin == admin,
            r.bridge.whitelist@.len() == 0,
            r.bridge.available,
            r.bridge.outbox@.len() == 0,
            r.registrar == registrar,
            r.bridge_account == bridge_account,
            r.native_asset_id == native_asset_id,
            r.events@.len() == 0,
    {
        Pallet {
            registry: Registry::new(),
            ledger: Ledger::new(),
            bridge: BridgeTransport::new(local_chain, admin),
            registrar,
            bridge_account,
            native_asset_id,
            events: Vec::new(),
        }
    }

    /// Storage getter: the resource identifier registered for an asset.
    pub fn resource_ids(&self, asset_id: AssetId) -> (r: Option<ResourceId>)
        requires
            self.wf(),
        ensures
            match r {
                Some(rid) => spec_resource_of(self.registry@, asset_id) == Some(rid@),
                None => spec_resource_of(self.registry@, asset_id) is None,
            },
    {
        self.registry.lookup_resource(asset_id)
    }

    /// Storage getter: the asset registered for a resource identifier.
    pub fn currency_ids(&self, resource_id: ResourceId) -> (r: Option<AssetId>)
        requires
            self.wf(),
        ensures
            r == spec_asset_of(self.registry@, resource_id@),
    {
        match self.registry.lookup_asset(&resource_id) {
            Some(asset_id) => Some(asset_id),
            None => None,
        }
    }

    /// The usable balance `account` holds of `asset_id`.
    pub fn free_balance(&self, asset_id: AssetId, account: AccountId) -> (r: Balance)
        requires
            self.wf(),
        ensures
            r == spec_balance(self.ledger.balances@, asset_id, account),
    {
        self.ledger.free_balance(asset_id, account)
    }

    /// The total issuance of `asset_id`.
    pub fn total_issuance(&self, asset_id: AssetId) -> (r: Balance)
        requires
            self.wf(),
        ensures
            r == spec_issuance(self.ledger.issuances@, asset_id),
    {
        self.ledger.total_issuance(asset_id)
    }

    /// Credit `amount` of `asset_id` to `account`, growing the issuance
    /// (the ledger collaborator's deposit, used to endow accounts).
    pub fn deposit(&mut self, asset_id: AssetId, account: AccountId, amount: Balance) -> (r:
        Result<(), Error>)
        requires
            old(self).wf(),
        ensures
            final(self).wf(),
            r is Ok <==> spec_balance(old(self).ledger.balances@, asset_id, account) + amount
                <= u128::MAX && spec_issuance(old(self).ledger.issuances@, asset_id) + amount
                <= u128::MAX,
            r is Err ==> r == Err::<(), Error>(Error::BalanceOverflow) && *final(self) == *old(
                self,
            ),
            r is Ok ==> minted(*old(self), *final(self), asset_id, account, amount),
            final(self).registry == old(self).registry,
            final(self).bridge == old(self).bridge,
            final(self).events@ == old(self).events@,
            same_config(*old(self), *final(self)),
    {
        let r = self.ledger.issue(asset_id, account, amount);
        r
    }

    /// The registration and unregistration events emitted so far.
    pub fn events(&self) -> (r: &Vec<Event>)
        ensures
            r@ == self.events@,
    {
        &self.events
    }

    /// Register the pair `(resource_id, currency_id)` in both directions
    /// atomically, storing the origin kind computed once from the chain tag.
    ///
    /// Only the registrar may call this; a pair with either side already
    /// bound is rejected, and a pair whose tag contradicts the asset's
    /// classification is rejected.  Registration never overwrites, and a
    /// rejected call changes nothing.
    pub fn register_resource_id(
        &mut self,
        origin: AccountId,
        resource_id: ResourceId,
        currency_id: AssetId,
    ) -> (r: Result<(), Error>)
        requires
            old(self).wf(),
        ensures
            final(self).wf(),
            r == register_outcome(*old(self), origin, resource_id@, currency_id),
            r is Err ==> *final(self) == *old(self),
            r is Ok ==> register_success(*old(self), *final(self), resource_id, currency_id),
    {
        if origin != self.registrar {
            return Err(Error::Unauthorized);
        }
        if self.registry.entry_of_asset(currency_id).is_some()
            || self.registry.entry_of_resource(&resource_id).is_some() {
            return Err(Error::ResourceAlreadyRegistered);
        }
        let is_local = resource_id.chain_tag() == self.bridge.local_chain_id();
        let is_native = currency_id == self.native_asset_id;
        if is_local != is_native {
            return Err(Error::ResourceOriginMismatch);
        }
        let origin_kind = if is_local {
            OriginKind::Local
        } else {
            OriginKind::Remote
        };
        let ghost pre = self.registry@;
        if !self.registry.try_insert(resource_id, currency_id, origin_kind) {
            return Err(Error::ResourceAlreadyRegistered);
        }
        self.events.push(Event::RegisterResourceId(resource_id, currency_id));
        proof {
            assert forall|i: int| 0 <= i < self.registry@.len() implies (
            #[trigger] self.registry@[i]).origin == spec_origin_kind(
                self.registry@[i].resource_id@,
                self.bridge.local_chain,
            ) by {
                if i < pre.len() {
                    assert(self.registry@[i] == pre[i]);
                }
            }
        }
        Ok(())
    }

    /// Remove the mapping bound to `resource_id`, both directions
    /// atomically, emitting an unregistration event.  Only the registrar may
    /// call this; removal of an unknown resource identifier succeeds as a
    /// no-op and emits nothing.
    pub fn remove_resource_id(&mut self, origin: AccountId, resource_id: ResourceId) -> (r: Result<
        (),
        Error,
    >)
        requires
            old(self).wf(),
        ensures
            final(self).wf(),
            r is Ok <==> origin == old(self).registrar,
            r is Err ==> r == Err::<(), Error>(Error::Unauthorized) && *final(self) == *old(self),
            r is Ok && spec_asset_of(old(self).registry@, resource_id@) is None ==> *final(self)
                == *old(self),
            r is Ok && spec_asset_of(old(self).registry@, resource_id@) is Some ==> remove_success(
                *old(self),
                *final(self),
                resource_id,
            ),
    {
        if origin != self.registrar {
            return Err(Error::Unauthorized);
        }
        let ghost pre = self.registry@;
        match self.registry.remove(&resource_id) {
            Some(currency_id) => {
                self.events.push(Event::UnregisterResourceId(resource_id, currency_id));
                proof {
                    let k = choose|k: int| 0 <= k < pre.len() && self.registry@ == pre.remove(k);
                    assert forall|i: int| 0 <= i < self.registry@.len() implies (
                    #[trigger] self.registry@[i]).origin == spec_origin_kind(
                        self.registry@[i].resource_id@,
                        self.bridge.local_chain,
                    ) by {
                        if i < k {
                            assert(self.registry@[i] == pre[i]);
                        } else {
                            assert(self.registry@[i] == pre[i + 1]);
                        }
                    }
                }
                Ok(())
            },
            None => Ok(()),
        }
    }

    /// Outbound transfer, dispatched by a signed caller: move `amount` of
    /// `currency_id` across the bridge to `recipient` on `dest_chain_id`.
    pub fn transfer_to_bridge(
        &mut self,
        origin: AccountId,
        currency_id: AssetId,
        dest_chain_id: ChainId,
        recipient: Vec<u8>,
        amount: Balance,
    ) -> (r: Result<(), Error>)
        requires
            old(self).wf(),
        ensures
            final(self).wf(),
            r == outbound_outcome(*old(self), origin, currency_id, dest_chain_id, amount),
            r is Err ==> *final(self) == *old(self),
            r is Ok ==> outbound_success(
                *old(self),
                *final(self),
                origin,
                currency_id,
                dest_chain_id,
                recipient@,
                amount,
            ),
    {
        self.do_transfer_to_bridge(origin, currency_id, dest_chain_id, recipient, amount)
    }

    /// Outbound transfer on behalf of `from`.
    ///
    /// Checks that the destination chain is whitelisted and the asset is
    /// registered, then applies the custody discipline fixed at registration
    /// time: an origin-local asset is locked (moved from `from` into bridge
    /// custody, supply-neutral), an origin-remote asset is burned from
    /// `from` (the total issuance shrinks by `amount`).  Finally one
    /// fungible-transfer message is handed to the transport.  The call is
    /// atomic: on any failure, including a dispatch failure, no custody
    /// mutation survives.
    pub fn do_transfer_to_bridge(
        &mut self,
        from: AccountId,
        currency_id: AssetId,
        dest_chain_id: ChainId,
        recipient: Vec<u8>,
        amount: Balance,
    ) -> (r: Result<(), Error>)
        requires
            old(self).wf(),
        ensures
            final(self).wf(),
            r == outbound_outcome(*old(self), from, currency_id, dest_chain_id, amount),
            r is Err ==> *final(self) == *old(self),
            r is Ok ==> outbound_success(
                *old(self),
                *final(self),
                from,
                currency_id,
                dest_chain_id,
                recipient@,
                amount,
            ),
    {
        if !self.bridge.is_chain_whitelisted(dest_chain_id) {
            return Err(Error::UnknownDestinationChain);
        }
        let entry = match self.registry.entry_of_asset(currency_id) {
            Some(entry) => entry,
            None => {
                return Err(Error::ResourceNotRegistered);
            },
        };
        let resource_id = entry.resource_id;
        match entry.origin {
            OriginKind::Local => {
                let bal = self.ledger.free_balance(currency_id, from);
                if bal < amount {
                    return Err(Error::InsufficientUsableBalance);
                }
                if from != self.bridge_account {
                    let custody = self.ledger.free_balance(currency_id, self.bridge_account);
                    if amount > u128::MAX - custody {
                        return Err(Error::BalanceOverflow);
                    }
                }
                if !self.bridge.available {
                    return Err(Error::DispatchFailed);
                }
                match self.ledger.move_usable(currency_id, from, self.bridge_account, amount) {
                    Ok(()) => {},
                    Err(e) => {
                        return Err(e);
                    },
                }
            },
            OriginKind::Remote => {
                let bal = self.ledger.free_balance(currency_id, from);
                let iss = self.ledger.total_issuance(currency_id);
                if bal < amount || iss < amount {
                    return Err(Error::InsufficientUsableBalance);
                }
                if !self.bridge.available {
                    return Err(Error::DispatchFailed);
                }
                match self.ledger.destroy_usable(currency_id, from, amount) {
                    Ok(()) => {},
                    Err(e) => {
                        return Err(e);
                    },
                }
            },
        }
        match self.bridge.dispatch_fungible(dest_chain_id, resource_id, recipient, amount) {
            Ok(()) => Ok(()),
            Err(e) => Err(e),
        }
    }

    /// Inbound transfer, originated by the authenticated bridge identity:
    /// credit `amount` of the asset bound to `resource_id` to `to`.
    ///
    /// An origin-local asset is unlocked (moved out of bridge custody,
    /// never creating net new supply); an origin-remote asset is minted
    /// into `to` (the total issuance grows by `amount`).  The call is
    /// atomic: any failure aborts with no partial credit.
    pub fn transfer_from_bridge(
        &mut self,
        origin: AccountId,
        to: AccountId,
        amount: Balance,
        resource_id: ResourceId,
    ) -> (r: Result<(), Error>)
        requires
            old(self).wf(),
        ensures
            final(self).wf(),
            r == inbound_outcome(*old(self), origin, to, amount, resource_id@),
            r is Err ==> *final(self) == *old(self),
            r is Ok ==> inbound_success(*old(self), *final(self), to, amount, resource_id@),
    {
        if origin != self.bridge_account {
            return Err(Error::Unauthorized);
        }
        let entry = match self.registry.entry_of_resource(&resource_id) {
            Some(entry) => entry,
            None => {
                return Err(Error::ResourceNotRegistered);
            },
        };
        proof {
            let i = choose|i: int| 0 <= i < self.registry@.len() && self.registry@[i] == entry;
            assert(self.registry@[i].origin == spec_origin_kind(
                self.registry@[i].resource_id@,
                self.bridge.local_chain,
            ));
        }
        match entry.origin {
            OriginKind::Local => {
                match self.ledger.move_usable(entry.asset_id, self.bridge_account, to, amount) {
                    Ok(()) => Ok(()),
                    Err(e) => Err(e),
                }
            },
            OriginKind::Remote => {
                match self.ledger.issue(entry.asset_id, to, amount) {
                    Ok(()) => Ok(()),
                    Err(e) => Err(e),
                }
            },
        }
    }
}

/// The exact outcome of a registration attempt, as a function of the state
/// it starts from.
pub open spec fn register_outcome(
    p: Pallet,
    origin: AccountId,
    rid: Seq<u8>,
    asset_id: AssetId,
) -> Result<(), Error> {
    if origin != p.registrar {
        Err(Error::Unauthorized)
    } else if has_asset(p.registry@, asset_id) || has_resource(p.registry@, rid) {
        Err(Error::ResourceAlreadyRegistered)
    } else if !kind_consistent(rid, asset_id, p.bridge.local_chain, p.native_asset_id) {
        Err(Error::ResourceOriginMismatch)
    } else {
        Ok(())
    }
}

/// What a successful registration does: it binds the pair in both
/// directions, stores the chain-tag origin kind, emits one registration
/// event, and touches nothing else.
pub open spec fn register_success(
    pre: Pallet,
    post: Pallet,
    resource_id: ResourceId,
    asset_id: AssetId,
) -> bool {
    &&& spec_resource_of(post.registry@, asset_id) == Some(resource_id@)
    &&& spec_asset_of(post.registry@, resource_id@) == Some(asset_id)
    &&& spec_origin_of(post.registry@, resource_id@) == Some(
        spec_origin_kind(resource_id@, pre.bridge.local_chain),
    )
    &&& forall|a2: AssetId|
        a2 != asset_id ==> spec_resource_of(post.registry@, a2) == spec_resource_of(
            pre.registry@,
            a2,
        )
    &&& forall|r2: Seq<u8>|
        r2 != resource_id@ ==> spec_asset_of(post.registry@, r2) == spec_asset_of(
            pre.registry@,
            r2,
        )
    &&& post.events@ == pre.events@.push(Event::RegisterResourceId(resource_id, asset_id))
    &&& post.ledger == pre.ledger
    &&& post.bridge == pre.bridge
    &&& same_config(pre, post)
}

/// What a successful removal of a bound resource does: it unbinds both
/// directions, emits one unregistration event, and touches nothing else.
pub open spec fn remove_success(pre: Pallet, post: Pallet, resource_id: ResourceId) -> bool {
    &&& spec_asset_of(post.registry@, resource_id@) is None
    &&& spec_asset_of(pre.registry@, resource_id@) matches Some(asset_id) ==> spec_resource_of(
        post.registry@,
        asset_id,
    ) is None
    &&& forall|a2: AssetId|
        spec_resource_of(pre.registry@, a2) != Some(resource_id@) ==> spec_resource_of(
            post.registry@,
            a2,
        ) == spec_resource_of(pre.registry@, a2)
    &&& forall|r2: Seq<u8>|
        r2 != resource_id@ ==> spec_asset_of(post.registry@, r2) == spec_asset_of(
            pre.registry@,
            r2,
        )
    &&& post.registry@.len() + 1 == pre.registry@.len()
    &&& spec_asset_of(pre.registry@, resource_id@) matches Some(asset_id) ==> post.events@
        == pre.events@.push(Event::UnregisterResourceId(resource_id, asset_id))
    &&& post.ledger == pre.ledger
    &&& post.bridge == pre.bridge
    &&& same_config(pre, post)
}

/// The capability assignments and the native-asset designation never change.
pub open spec fn same_config(pre: Pallet, post: Pallet) -> bool {
    &&& post.registrar == pre.registrar
    &&& post.bridge_account == pre.bridge_account
    &&& post.native_asset_id == pre.native_asset_id
}

/// The bridge transport's configuration is untouched (only its outbox may
/// have grown).
pub open spec fn same_bridge_config(pre: Pallet, post: Pallet) -> bool {
    &&& post.bridge.local_chain == pre.bridge.local_chain
    &&& post.bridge.admin == pre.bridge.admin
    &&& post.bridge.whitelist@ == pre.bridge.whitelist@
    &&& post.bridge.available == pre.bridge.available
}

/// What burning `amount` of `asset_id` from `account` does to the ledger:
/// that balance and the total issuance shrink by exactly `amount`; every
/// other balance and issuance is untouched.
pub open spec fn burned(
    pre: Pallet,
    post: Pallet,
    asset_id: AssetId,
    account: AccountId,
    amount: Balance,
) -> bool {
    &&& spec_balance(post.ledger.balances@, asset_id, account) == spec_balance(
        pre.ledger.balances@,
        asset_id,
        account,
    ) - amount
    &&& forall|a2: AssetId, c2: AccountId|
        !(a2 == asset_id && c2 == account) ==> spec_balance(post.ledger.balances@, a2, c2)
            == spec_balance(pre.ledger.balances@, a2, c2)
    &&& spec_issuance(post.ledger.issuances@, asset_id) == spec_issuance(
        pre.ledger.issuances@,
        asset_id,
    ) - amount
    &&& forall|a2: AssetId|
        a2 != asset_id ==> spec_issuance(post.ledger.issuances@, a2) == spec_issuance(
            pre.ledger.issuances@,
            a2,
        )
}

/// What minting `amount` of `asset_id` into `account` does to the ledger:
/// the exact inverse of `burned`.
pub open spec fn minted(
    pre: Pallet,
    post: Pallet,
    asset_id: AssetId,
    account: AccountId,
    amount: Balance,
) -> bool {
    &&& spec_balance(post.ledger.balances@, asset_id, account) == spec_balance(
        pre.ledger.balances@,
        asset_id,
        account,
    ) + amount
    &&& forall|a2: AssetId, c2: AccountId|
        !(a2 == asset_id && c2 == account) ==> spec_balance(post.ledger.balances@, a2, c2)
            == spec_balance(pre.ledger.balances@, a2, c2)
    &&& spec_issuance(post.ledger.issuances@, asset_id) == spec_issuance(
        pre.ledger.issuances@,
        asset_id,
    ) + amount
    &&& forall|a2: AssetId|
        a2 != asset_id ==> spec_issuance(post.ledger.issuances@, a2) == spec_issuance(
            pre.ledger.issuances@,
            a2,
        )
}

/// The exact outcome of an outbound transfer, as a function of the state it
/// starts from.  Failures are reported in the order the steps run:
/// destination whitelisting, registry resolution, custody preconditions,
/// transport availability.
pub open spec fn outbound_outcome(
    p: Pallet,
    from: AccountId,
    asset_id: AssetId,
    dest_chain: ChainId,
    amount: Balance,
) -> Result<(), Error> {
    if !p.bridge.whitelist@.contains(dest_chain) {
        Err(Error::UnknownDestinationChain)
    } else if spec_resource_of(p.registry@, asset_id) is None {
        Err(Error::ResourceNotRegistered)
    } else {
        let rid = spec_resource_of(p.registry@, asset_id).unwrap();
        if origin_is_local(rid, p.bridge.local_chain) {
            if spec_balance(p.ledger.balances@, asset_id, from) < amount {
                Err(Error::InsufficientUsableBalance)
            } else if from != p.bridge_account && spec_balance(
                p.ledger.balances@,
                asset_id,
                p.bridge_account,
            ) + amount > u128::MAX {
                Err(Error::BalanceOverflow)
            } else if !p.bridge.available {
                Err(Error::DispatchFailed)
            } else {
                Ok(())
            }
        } else {
            if spec_balance(p.ledger.balances@, asset_id, from) < amount || spec_issuance(
                p.ledger.issuances@,
                asset_id,
            ) < amount {
                Err(Error::InsufficientUsableBalance)
            } else if !p.bridge.available {
                Err(Error::DispatchFailed)
            } else {
                Ok(())
            }
        }
    }
}

/// What a successful outbound transfer does: origin-local assets are locked
/// under the custody account with the total issuance untouched, origin-remote
/// assets are burned from the sender; either way exactly one message with
/// the resolved resource identifier, the recipient and the amount joins the
/// transport's outbox, and the registry, the events and all configuration
/// are untouched.
pub open spec fn outbound_success(
    pre: Pallet,
    post: Pallet,
    from: AccountId,
    asset_id: AssetId,
    dest_chain: ChainId,
    recipient: Seq<u8>,
    amount: Balance,
) -> bool {
    let rid = spec_resource_of(pre.registry@, asset_id).unwrap();
    &&& post.registry@ == pre.registry@
    &&& post.events@ == pre.events@
    &&& same_config(pre, post)
    &&& same_bridge_config(pre, post)
    &&& post.bridge.outbox@.len() == pre.bridge.outbox@.len() + 1
    &&& post.bridge.outbox@ == pre.bridge.outbox@.push(post.bridge.outbox@.last())
    &&& post.bridge.outbox@.last().dest_chain == dest_chain
    &&& post.bridge.outbox@.last().resource_id@ == rid
    &&& post.bridge.outbox@.last().recipient@ == recipient
    &&& post.bridge.outbox@.last().amount == amount
    &&& if origin_is_local(rid, pre.bridge.local_chain) {
        &&& balances_moved(
            pre.ledger.balances@,
            post.ledger.balances@,
            asset_id,
            from,
            pre.bridge_account,
            amount,
        )
        &&& post.ledger.issuances@ == pre.ledger.issuances@
    } else {
        burned(pre, post, asset_id, from, amount)
    }
}

/// The exact outcome of an inbound transfer, as a function of the state it
/// starts from.
pub open spec fn inbound_outcome(
    p: Pallet,
    origin: AccountId,
    to: AccountId,
    amount: Balance,
    rid: Seq<u8>,
) -> Result<(), Error> {
    if origin != p.bridge_account {
        Err(Error::Unauthorized)
    } else if spec_asset_of(p.registry@, rid) is None {
        Err(Error::ResourceNotRegistered)
    } else {
        let asset_id = spec_asset_of(p.registry@, rid).unwrap();
        if origin_is_local(rid, p.bridge.local_chain) {
            if spec_balance(p.ledger.balances@, asset_id, p.bridge_account) < amount {
                Err(Error::InsufficientUsableBalance)
            } else if to != p.bridge_account && spec_balance(p.ledger.balances@, asset_id, to)
                + amount > u128::MAX {
                Err(Error::BalanceOverflow)
            } else {
                Ok(())
            }
        } else {
            if spec_balance(p.ledger.balances@, asset_id, to) + amount > u128::MAX
                || spec_issuance(p.ledger.issuances@, asset_id) + amount > u128::MAX {
                Err(Error::BalanceOverflow)
            } else {
                Ok(())
            }
        }
    }
}

/// What a successful inbound transfer does: origin-local assets are released
/// from custody with the total issuance untouched (an unlock never creates
/// net new supply), origin-remote assets are minted into the recipient; the
/// registry, the events, the transport and all configuration are untouched.
pub open spec fn inbound_success(
    pre: Pallet,
    post: Pallet,
    to: AccountId,
    amount: Balance,
    rid: Seq<u8>,
) -> bool {
    let asset_id = spec_asset_of(pre.registry@, rid).unwrap();
    &&& post.registry@ == pre.registry@
    &&& post.events@ == pre.events@
    &&& post.bridge == pre.bridge
    &&& same_config(pre, post)
    &&& if origin_is_local(rid, pre.bridge.local_chain) {
        &&& balances_moved(
            pre.ledger.balances@,
            post.ledger.balances@,
            asset_id,
            pre.bridge_account,
            to,
            amount,
        )
        &&& post.ledger.issuances@ == pre.ledger.issuances@
    } else {
        minted(pre, post, asset_id, to, amount)
    }
}

/// Law (conservation for origin-local assets): an outbound transfer of an
/// origin-local asset followed later by the corresponding inbound transfer
/// of the same amount returns every account balance and every total
/// issuance to its pre-outbound value: the lock/unlock discipline is
/// supply-neutral and fully reversible.
pub proof fn lemma_conservation_origin_local(
    pre: Pallet,
    mid: Pallet,
    post: Pallet,
    from: AccountId,
    asset_id: AssetId,
    dest_chain: ChainId,
    recipient: Seq<u8>,
    amount: Balance,
    rid: Seq<u8>,
)
    requires
        pre.wf(),
        spec_resource_of(pre.registry@, asset_id) == Some(rid),
        origin_is_local(rid, pre.bridge.local_chain),
        outbound_success(pre, mid, from, asset_id, dest_chain, recipient, amount),
        inbound_success(mid, post, from, amount, rid),
    ensures
        forall|a2: AssetId, c2: AccountId|
            spec_balance(post.ledger.balances@, a2, c2) == spec_balance(
                pre.ledger.balances@,
                a2,
                c2,
            ),
        forall|a2: AssetId|
            spec_issuance(post.ledger.issuances@, a2) == spec_issuance(pre.ledger.issuances@, a2),
{
    crate::registry::lemma_bijection(pre.registry@);
    assert(spec_asset_of(pre.registry@, rid) == Some(asset_id));
    assert(spec_asset_of(mid.registry@, rid) == Some(asset_id));
    crate::ledger::lemma_lock_unlock_conservation(
        pre.ledger.balances@,
        mid.ledger.balances@,
        post.ledger.balances@,
        asset_id,
        from,
        pre.bridge_account,
        amount,
    );
}

} // verus!
