//! Error kinds surfaced by the pool engine and its collaborators. Every
//! failure is reported to the caller with its kind; none is swallowed.

use vstd::prelude::*;

verus! {

/// Errors shared by the validation helpers.
#[derive(Clone, Copy, Debug, PartialEq, Eq, Structural)]
pub enum CommonError {
    AccountNotFound,
    InvalidAccountOwner,
    AccountDataTooShort,
    InvalidAmount,
    VerifierMismatch,
}

/// Errors raised by the pool engine proper.
#[derive(Clone, Copy, Debug, PartialEq, Eq, Structural)]
pub enum PoolError {
    AccountNotFound,
    InvalidAccountOwner,
    AccountDataTooShort,
    InvalidAmount,
    AmountTooSmall,
    AmountTooLarge,
    VerifierMismatch,
    InvalidNullifier,
    NullifierAlreadyUsed,
    InvalidRoot,
    RootMismatch,
    OriginMintMismatch,
    RateLimitExceeded,
    OperationInProgress,
    OperationNotFound,
    InvalidOperationStatus,
    InsufficientBalance,
    InsufficientAllowance,
    InvalidProof,
    InvalidPublicInputs,
    TreeUpdateFailed,
    TreeFull,
    ArithmeticOverflow,
}

/// Errors raised by proof and attestation verification.
#[derive(Clone, Copy, Debug, PartialEq, Eq, Structural)]
pub enum VerifierError {
    KeyAlreadyExists,
    KeyNotFound,
    KeyRevoked,
    InvalidProof,
    InvalidPublicInputs,
    InvalidVerifyingKey,
    ProofVerificationFailed,
    InvalidAuthority,
    AlreadyRevoked,
}

/// Errors raised by factory bookkeeping.
#[derive(Clone, Copy, Debug, PartialEq, Eq, Structural)]
pub enum FactoryError {
    AlreadyInitialized,
    MintAlreadyRegistered,
    MintNotFound,
    InvalidAuthority,
    InvalidPool,
}

/// Errors raised by the custodial vault checks.
#[derive(Clone, Copy, Debug, PartialEq, Eq, Structural)]
pub enum VaultError {
    AlreadyInitialized,
    InvalidAuthority,
    InsufficientBalance,
    InvalidMint,
    TokenAccountMismatch,
}

impl PoolError {
    /// A short human-readable description of the error kind.
    pub fn message(&self) -> (r: &'static str) {
        match self {
            PoolError::AccountNotFound => "account not found",
            PoolError::InvalidAccountOwner => "invalid account owner",
            PoolError::AccountDataTooShort => "account data too short",
            PoolError::InvalidAmount => "invalid amount",
            PoolError::AmountTooSmall => "amount too small",
            PoolError::AmountTooLarge => "amount too large",
            PoolError::VerifierMismatch => "proof verification failed",
            PoolError::InvalidNullifier => "invalid nullifier",
            PoolError::NullifierAlreadyUsed => "nullifier already used",
            PoolError::InvalidRoot => "invalid root",
            PoolError::RootMismatch => "root mismatch",
            PoolError::OriginMintMismatch => "origin mint mismatch",
            PoolError::RateLimitExceeded => "rate limit exceeded",
            PoolError::OperationInProgress => "operation in progress",
            PoolError::OperationNotFound => "operation not found",
            PoolError::InvalidOperationStatus => "invalid operation status",
            PoolError::InsufficientBalance => "insufficient balance",
            PoolError::InsufficientAllowance => "insufficient allowance",
            PoolError::InvalidProof => "invalid proof",
            PoolError::InvalidPublicInputs => "invalid public inputs",
            PoolError::TreeUpdateFailed => "tree update failed",
            PoolError::TreeFull => "commitment tree exhausted",
            PoolError::ArithmeticOverflow => "counter overflow",
        }
    }
}

} // verus!
