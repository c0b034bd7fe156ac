//! The bridge transport collaborator, modelled as an explicit value: the
//! local chain identifier, the whitelist of destination chains, the queue of
//! outbound fungible-transfer messages, and an availability switch standing
//! for everything that can make a dispatch fail inside the transport.
//!
//! Consensus among relayers, message relay and fee accounting are out of
//! scope; the orchestrator only needs to know which chains are reachable and
//! whether a message was accepted.

use vstd::prelude::*;

use crate::types::{AccountId, Balance, ChainId, Error, ResourceId};

verus! {

/// One outbound fungible-transfer message handed to the transport.
#[derive(Debug)]
pub struct OutboundMessage {
    pub dest_chain: ChainId,
    pub resource_id: ResourceId,
    pub recipient: Vec<u8>,
    pub amount: Balance,
}

/// The transport state the orchestrator depends on.
pub struct BridgeTransport {
    /// Identifier of the chain this ledger lives on.
    pub local_chain: ChainId,
    /// Account allowed to whitelist destination chains.
    pub admin: AccountId,
    /// Destination chains the transport accepts messages for.
    pub whitelist: Vec<ChainId>,
    /// Whether the transport can currently accept a message.  A dispatch
    /// while unavailable fails, which lets callers exercise the failure path
    /// of an otherwise opaque collaborator.
    pub available: bool,
    /// Every message accepted so far, oldest first.
    pub outbox: Vec<OutboundMessage>,
}

impl BridgeTransport {
    pub fn new(local_chain: ChainId, admin: AccountId) -> (r: BridgeTransport)
        ensures
            r.local_chain == local_chain,
            r.admin == admin,
            r.whitelist@ == Seq::<ChainId>::empty(),
            r.available,
            r.outbox@ == Seq::<OutboundMessage>::empty(),
    {
        BridgeTransport {
            local_chain,
            admin,
            whitelist: Vec::new(),
            available: true,
            outbox: Vec::new(),
        }
    }

    /// The identifier of the local chain.
    pub fn local_chain_id(&self) -> (r: ChainId)
        ensures
            r == self.local_chain,
    {
        self.local_chain
    }

    /// Whether the transport accepts messages for `chain`.
    pub fn is_chain_whitelisted(&self, chain: ChainId) -> (r: bool)
        ensures
            r == self.whitelist@.contains(chain),
    {
        let mut i: usize = 0;
        while i < self.whitelist.len()
            invariant
                i <= self.whitelist@.len(),
                forall|j: int| 0 <= j < i ==> self.whitelist@[j] != chain,
            decreases self.whitelist@.len() - i,
        {
            if self.whitelist[i] == chain {
                return true;
            }
            i += 1;
        }
        false
    }

    /// Admit `chain` as a destination.  Only the admin may call this; a
    /// chain already whitelisted stays whitelisted.
    pub fn whitelist_chain(&mut self, origin: AccountId, chain: ChainId) -> (r: Result<(), Error>)
        ensures
            r is Ok <==> origin == old(self).admin,
            r is Err ==> r == Err::<(), Error>(Error::Unauthorized) && *final(self) == *old(self),
            r is Ok ==> {
                &&& forall|c2: ChainId|
                    final(self).whitelist@.contains(c2) == (old(self).whitelist@.contains(c2) || c2
                        == chain)
                &&& final(self).local_chain == old(self).local_chain
                &&& final(self).admin == old(self).admin
                &&& final(self).available == old(self).available
                &&& final(self).outbox@ == old(self).outbox@
            },
    {
        if origin != self.admin {
            return Err(Error::Unauthorized);
        }
        if !self.is_chain_whitelisted(chain) {
            let ghost pre = self.whitelist@;
            self.whitelist.push(chain);
            proof {
                assert forall|c2: ChainId|
                    self.whitelist@.contains(c2) == (pre.contains(c2) || c2 == chain) by {
                    if pre.contains(c2) {
                        let j = choose|j: int| 0 <= j < pre.len() && pre[j] == c2;
                        assert(self.whitelist@[j] == c2);
                    }
                    if c2 == chain {
                        assert(self.whitelist@[pre.len() as int] == c2);
                    }
                    if self.whitelist@.contains(c2) {
                        let j = choose|j: int|
                            0 <= j < self.whitelist@.len() && self.whitelist@[j] == c2;
                        if j < pre.len() {
                            assert(pre[j] == c2);
                        }
                    }
                }
            }
        }
        Ok(())
    }

    /// Switch the transport's availability (the model of a transport-side
    /// outage and recovery).
    pub fn set_available(&mut self, available: bool)
        ensures
            final(self).available == available,
            final(self).local_chain == old(self).local_chain,
            final(self).admin == old(self).admin,
            final(self).whitelist@ == old(self).whitelist@,
            final(self).outbox@ == old(self).outbox@,
    {
        self.available = available;
    }

    /// Hand one fungible-transfer message to the transport.  The message is
    /// accepted iff the destination is whitelisted and the transport is
    /// available; a rejected message leaves no trace.
    pub fn dispatch_fungible(
        &mut self,
        dest_chain: ChainId,
        resource_id: ResourceId,
        recipient: Vec<u8>,
        amount: Balance,
    ) -> (r: Result<(), Error>)
        ensures
            r is Ok <==> old(self).whitelist@.contains(dest_chain) && old(self).available,
            !old(self).whitelist@.contains(dest_chain) ==> r == Err::<(), Error>(
                Error::UnknownDestinationChain,
            ),
            old(self).whitelist@.contains(dest_chain) && !old(self).available ==> r == Err::<
                (),
                Error,
            >(Error::DispatchFailed),
            r is Err ==> *final(self) == *old(self),
            r is Ok ==> {
                &&& final(self).outbox@.len() == old(self).outbox@.len() + 1
                &&& final(self).outbox@ == old(self).outbox@.push(
                    final(self).outbox@.last(),
                )
                &&& final(self).outbox@.last().dest_chain == dest_chain
                &&& final(self).outbox@.last().resource_id@ == resource_id@
                &&& final(self).outbox@.last().recipient@ == recipient@
                &&& final(self).outbox@.last().amount == amount
                &&& final(self).local_chain == old(self).local_chain
                &&& final(self).admin == old(self).admin
                &&& final(self).whitelist@ == old(self).whitelist@
                &&& final(self).available == old(self).available
            },
    {
        if !self.is_chain_whitelisted(dest_chain) {
            return Err(Error::UnknownDestinationChain);
        }
        if !self.available {
            return Err(Error::DispatchFailed);
        }
        self.outbox.push(OutboundMessage { dest_chain, resource_id, recipient, amount });
        Ok(())
    }
}

} // verus!
