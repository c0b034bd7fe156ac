//! A genesis builder for a pallet instance: the standard configuration
//! (local chain, capability accounts, native asset) plus a list of endowed
//! accounts, credited through the ledger so that balances and issuance
//! start consistent.

use vstd::prelude::*;

use crate::ledger::{spec_balance, spec_issuance};
use crate::pallet::Pallet;
use crate::types::{AccountId, AssetId, Balance, ChainId};

verus! {

/// An ordinary account used throughout the tests.
pub const ALICE: AccountId = 1;

/// Account holding the bridge transport's admin capability.
pub const ADMIN_ACCOUNT: AccountId = 11;

/// Account holding the registrar capability.
pub const REGISTRAR_ACCOUNT: AccountId = 12;

/// The authenticated bridge identity and custody account.
pub const BRIDGE_ACCOUNT: AccountId = 100;

/// Identifier of the chain this ledger lives on.
pub const LOCAL_CHAIN_ID: ChainId = 2;

/// The asset whose canonical supply lives on the local chain.
pub const NATIVE_ASSET_ID: AssetId = 0;

/// Each endowed asset appears in at most one entry, so crediting the list
/// entry by entry can neither overflow nor double-credit.
pub open spec fn endowment_wf(s: Seq<(AccountId, AssetId, Balance)>) -> bool {
    forall|i: int, j: int| 0 <= i < j < s.len() ==> s[i].1 != s[j].1
}

/// Builds a pallet instance with the standard configuration, endowing the
/// listed accounts: each entry `(account, asset, amount)` credits `amount`
/// of `asset` to `account`.
pub struct ExtBuilder {
    pub endowed_accounts: Vec<(AccountId, AssetId, Balance)>,
}

impl Default for ExtBuilder {
    /// The default genesis: `ALICE` holds 1000 units of the native asset.
    fn default() -> (r: ExtBuilder)
        ensures
            r.endowed_accounts@.len() == 1,
            r.endowed_accounts@[0] == (ALICE, NATIVE_ASSET_ID, 1000u128),
            endowment_wf(r.endowed_accounts@),
    {
        let mut endowed_accounts: Vec<(AccountId, AssetId, Balance)> = Vec::new();
        endowed_accounts.push((ALICE, NATIVE_ASSET_ID, 1000u128));
        ExtBuilder { endowed_accounts }
    }
}

impl ExtBuilder {
    /// Build the pallet: standard configuration, empty registry, empty
    /// event log, the transport available with nothing whitelisted, and
    /// exactly the listed endowments on the ledger.
    pub fn build(self) -> (p: Pallet)
        requires
            endowment_wf(self.endowed_accounts@),
        ensures
            p.wf(),
            p.registry@.len() == 0,
            p.events@.len() == 0,
            p.bridge.local_chain == LOCAL_CHAIN_ID,
            p.bridge.admin == ADMIN_ACCOUNT,
            p.bridge.whitelist@.len() == 0,
            p.bridge.available,
            p.bridge.outbox@.len() == 0,
            p.registrar == REGISTRAR_ACCOUNT,
            p.bridge_account == BRIDGE_ACCOUNT,
            p.native_asset_id == NATIVE_ASSET_ID,
            forall|i: int|
                0 <= i < self.endowed_accounts@.len() ==> spec_balance(
                    p.ledger.balances@,
                    (#[trigger] self.endowed_accounts@[i]).1,
                    self.endowed_accounts@[i].0,
                ) == self.endowed_accounts@[i].2 && spec_issuance(
                    p.ledger.issuances@,
                    self.endowed_accounts@[i].1,
                ) == self.endowed_accounts@[i].2,
            forall|a2: AssetId, c2: AccountId|
                !(exists|i: int|
                    0 <= i < self.endowed_accounts@.len() && (
                    #[trigger] self.endowed_accounts@[i]).1 == a2
                        && self.endowed_accounts@[i].0 == c2) ==> spec_balance(
                    p.ledger.balances@,
                    a2,
                    c2,
                ) == 0,
            forall|a2: AssetId|
                !(exists|i: int|
                    0 <= i < self.endowed_accounts@.len() && (
                    #[trigger] self.endowed_accounts@[i]).1 == a2) ==> spec_issuance(
                    p.ledger.issuances@,
                    a2,
                ) == 0,
    {
        let mut p = Pallet::new(
            LOCAL_CHAIN_ID,
            ADMIN_ACCOUNT,
            REGISTRAR_ACCOUNT,
            BRIDGE_ACCOUNT,
            NATIVE_ASSET_ID,
        );
        let mut k: usize = 0;
        while k < self.endowed_accounts.len()
            invariant
                endowment_wf(self.endowed_accounts@),
                k <= self.endowed_accounts@.len(),
                p.wf(),
                p.registry@.len() == 0,
                p.events@.len() == 0,
                p.bridge.local_chain == LOCAL_CHAIN_ID,
                p.bridge.admin == ADMIN_ACCOUNT,
                p.bridge.whitelist@.len() == 0,
                p.bridge.available,
                p.bridge.outbox@.len() == 0,
                p.registrar == REGISTRAR_ACCOUNT,
                p.bridge_account == BRIDGE_ACCOUNT,
                p.native_asset_id == NATIVE_ASSET_ID,
                forall|i: int|
                    0 <= i < k ==> spec_balance(
                        p.ledger.balances@,
                        (#[trigger] self.endowed_accounts@[i]).1,
                        self.endowed_accounts@[i].0,
                    ) == self.endowed_accounts@[i].2 && spec_issuance(
                        p.ledger.issuances@,
                        self.endowed_accounts@[i].1,
                    ) == self.endowed_accounts@[i].2,
                forall|a2: AssetId, c2: AccountId|
                    !(exists|i: int|
                        0 <= i < k && (#[trigger] self.endowed_accounts@[i]).1 == a2
                            && self.endowed_accounts@[i].0 == c2) ==> spec_balance(
                        p.ledger.balances@,
                        a2,
                        c2,
                    ) == 0,
                forall|a2: AssetId|
                    !(exists|i: int|
                        0 <= i < k && (#[trigger] self.endowed_accounts@[i]).1 == a2)
                        ==> spec_issuance(p.ledger.issuances@, a2) == 0,
            decreases self.endowed_accounts@.len() - k,
        {
            let (who, asset_id, amount) = self.endowed_accounts[k];
            proof {
                assert forall|i: int| 0 <= i < k implies (
                #[trigger] self.endowed_accounts@[i]).1 != asset_id by {
                    assert(self.endowed_accounts@[i].1 != self.endowed_accounts@[k as int].1);
                }
                assert(spec_balance(p.ledger.balances@, asset_id, who) == 0);
                assert(spec_issuance(p.ledger.issuances@, asset_id) == 0);
            }
            match p.deposit(asset_id, who, amount) {
                Ok(()) => {},
                Err(_) => {
                    proof {
                        assert(false);
                    }
                },
            }
            k += 1;
        }
        p
    }
}

} // verus!
