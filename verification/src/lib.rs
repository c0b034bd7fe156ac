//! Cross-chain asset bridge: resource mapping and transfer orchestration.
//!
//! The crate keeps the bijection between local asset identifiers and the
//! bridge's resource identifiers, and it orchestrates the custody side of a
//! transfer in either direction: lock/unlock for assets whose canonical
//! supply lives on the local chain, burn/mint for assets that originate
//! elsewhere.  The surrounding collaborators (the asset ledger, the bridge
//! transport, the capability checks) are modelled as explicit values owned by
//! the pallet, so every rule in the module is stated as a contract and proved.

pub mod types;
pub mod registry;
pub mod ledger;
pub mod transport;
pub mod pallet;
pub mod builder;
