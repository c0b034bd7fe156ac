//! Identifiers, amounts, errors and events shared by the registry and the
//! transfer orchestrator.

use vstd::prelude::*;

verus! {

/// Local identifier of a fungible asset type, unique within the local ledger.
pub type AssetId = u32;

/// Identifier of a chain participating in the bridge.
pub type ChainId = u8;

/// Account identifier on the local ledger.
pub type AccountId = u128;

/// Unsigned balance quantity.  The bridge transport carries amounts in a
/// 256-bit unsigned wire representation, so every `u128` amount converts into
/// it losslessly and converts back without saturation.
pub type Balance = u128;

/// Fixed-width opaque identifier used by the bridge transport to name a
/// cross-chain asset class.  The last byte is reserved: it carries the
/// identifier of the chain on which the asset is considered to originate.
#[derive(Clone, Copy, Debug)]
pub struct ResourceId {
    pub bytes: [u8; 32],
}

impl View for ResourceId {
    type V = Seq<u8>;

    open spec fn view(&self) -> Seq<u8> {
        self.bytes@
    }
}

/// The chain tag of a resource identifier: its reserved last byte.
pub open spec fn spec_chain_tag(rid: Seq<u8>) -> u8 {
    rid[31]
}

/// An asset is origin-local with respect to a resource identifier iff the
/// identifier's chain tag equals the local chain's identifier.  This is a
/// pure function of the identifier and the local chain configuration.
pub open spec fn origin_is_local(rid: Seq<u8>, local_chain: ChainId) -> bool {
    spec_chain_tag(rid) == local_chain
}

impl ResourceId {
    pub fn new(bytes: [u8; 32]) -> (r: ResourceId)
        ensures
            r@ == bytes@,
    {
        ResourceId { bytes }
    }

    /// The reserved last byte: the identifier of the chain of origin.
    pub fn chain_tag(&self) -> (t: u8)
        ensures
            t == spec_chain_tag(self@),
    {
        self.bytes[31]
    }

    /// Whether two resource identifiers hold the same 32 bytes.
    pub fn same_id(&self, other: &ResourceId) -> (r: bool)
        ensures
            r == (self@ == other@),
    {
        let mut i: usize = 0;
        while i < 32
            invariant
                i <= 32,
                forall|j: int| 0 <= j < i ==> self.bytes@[j] == other.bytes@[j],
            decreases 32 - i,
        {
            if self.bytes[i] != other.bytes[i] {
                return false;
            }
            i += 1;
        }
        proof {
            assert(self.bytes@ =~= other.bytes@);
        }
        true
    }
}

impl PartialEq for ResourceId {
    fn eq(&self, other: &ResourceId) -> (r: bool) {
        self.same_id(other)
    }
}

impl vstd::std_specs::cmp::PartialEqSpecImpl for ResourceId {
    open spec fn obeys_eq_spec() -> bool {
        true
    }

    open spec fn eq_spec(&self, other: &ResourceId) -> bool {
        self@ == other@
    }
}

/// Custody discipline of a registered asset, fixed at registration time by
/// the chain-tag rule: `Local` means the canonical supply lives on the local
/// chain (lock/unlock), `Remote` means the asset is a local representation of
/// value that originates elsewhere (burn/mint).
#[derive(Clone, Copy, Debug, PartialEq, Eq, Structural)]
pub enum OriginKind {
    Local,
    Remote,
}

/// The origin kind that the chain-tag rule assigns to a resource identifier.
pub open spec fn spec_origin_kind(rid: Seq<u8>, local_chain: ChainId) -> OriginKind {
    if origin_is_local(rid, local_chain) {
        OriginKind::Local
    } else {
        OriginKind::Remote
    }
}

/// Every failure an operation of this module can report.  All of them are
/// recoverable: the failing call leaves the state exactly as it found it.
#[derive(Clone, Copy, Debug, PartialEq, Eq, Structural)]
pub enum Error {
    /// The caller lacks the required capability.
    Unauthorized,
    /// Registration found one side of the pair already bound.
    ResourceAlreadyRegistered,
    /// No mapping exists for the identifier a transfer needs.
    ResourceNotRegistered,
    /// The resource identifier's chain tag contradicts the asset's
    /// local/remote classification.
    ResourceOriginMismatch,
    /// The destination chain is not whitelisted by the bridge transport.
    UnknownDestinationChain,
    /// The debited account lacks the amount in usable funds.
    InsufficientUsableBalance,
    /// Crediting would overflow a balance or a total issuance.
    BalanceOverflow,
    /// The bridge transport could not accept the outbound message.
    DispatchFailed,
}

/// Observable registry events.
#[derive(Clone, Copy, Debug, PartialEq)]
pub enum Event {
    RegisterResourceId(ResourceId, AssetId),
    UnregisterResourceId(ResourceId, AssetId),
}

} // verus!
