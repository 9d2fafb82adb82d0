//! Verified state machines for the Veritasor attestation protocol contracts:
//! attestation snapshots, attestations and their access control, the
//! protocol DAO and attestor staking with slashing.
//!
//! Each contract is modelled as a value that holds the contract's storage.
//! Every entry point is a method that either returns an error (the contract
//! would abort the transaction) or moves the storage to its next state; the
//! effects that only the host can perform (token transfers, reading another
//! contract, the ledger clock) are handed in or handed back as plain values.

pub mod attestation;
pub mod dao;
pub mod interface_spec;
pub mod snapshot;
pub mod staking;
