//! A shielded-value pool engine: an incremental Merkle commitment
//! accumulator, a nullifier registry for double-spend prevention, a
//! multi-stage prepared-operation state machine, and a proof/attestation
//! verification contract with pool-wide counters and rate limiting.

pub mod attestation;
pub mod bytes32;
pub mod engine;
pub mod errors;
pub mod factory;
pub mod groth16;
pub mod hashing;
pub mod ledger;
pub mod merkle;
pub mod nullifier;
pub mod operations;
pub mod service;
pub mod validation;
pub mod vault;
