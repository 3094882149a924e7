//! A fungible-token balance ledger with storage-cost accounting.
//!
//! The ledger tracks ownership of a fungible asset across named accounts,
//! keeps the total supply equal to the sum of all registered balances at
//! all times, gates privileged minting behind the owner account, and
//! charges callers for the persistent storage their account registration
//! consumes.
//!
//! The surrounding host environment (caller identity, attached payment,
//! storage metering, cross-call dispatch) is a collaborator: its
//! measurements enter every operation as plain values, and every
//! operation is a single atomic transition of the contract state.

pub mod contract;
pub mod error;
pub mod ledger;
pub mod metadata;

