//! Range and shape checks applied to every operation's inputs before any
//! shared state is touched.

use vstd::prelude::*;

verus! {

use crate::errors::CommonError;

/// Smallest amount any operation may move.
pub const MIN_AMOUNT: u64 = 1;
/// Largest amount any operation may move.
pub const MAX_AMOUNT: u64 = u64::MAX;
/// Largest accepted proof, in bytes.
pub const MAX_PROOF_SIZE: usize = 1024;
/// Smallest accepted proof, in bytes.
pub const MIN_PROOF_SIZE: usize = 64;
/// Largest accepted public-input blob, in bytes.
pub const MAX_PUBLIC_INPUTS_SIZE: usize = 512;
/// Per-operation cap used by shield flows.
pub const MAX_SHIELD_AMOUNT: u64 = u64::MAX;
/// Per-operation cap used by unshield flows.
pub const MAX_UNSHIELD_AMOUNT: u64 = u64::MAX;
/// Per-operation cap used by transfer flows.
pub const MAX_TRANSFER_AMOUNT: u64 = u64::MAX;
/// Most entries a batch operation may carry.
pub const MAX_BATCH_SIZE: usize = 3;

/// Whether `amount` lies in the accepted range for a flow capped at
/// `max_amount`.
pub open spec fn amount_ok(amount: u64, max_amount: u64) -> bool {
    &&& amount >= MIN_AMOUNT
    &&& amount <= max_amount
    &&& amount <= MAX_AMOUNT
}

/// Whether a proof of `len` bytes has an accepted size under a flow capped
/// at `max_size`.
pub open spec fn proof_len_ok(len: nat, max_size: nat) -> bool {
    &&& len <= max_size
    &&& len <= MAX_PROOF_SIZE
    &&& len >= MIN_PROOF_SIZE
}

/// Whether a public-input blob of `len` bytes has an accepted size under a
/// flow capped at `max_size`.
pub open spec fn public_inputs_len_ok(len: nat, max_size: nat) -> bool {
    &&& len <= max_size
    &&& len <= MAX_PUBLIC_INPUTS_SIZE
}

/// Range checks on amounts.
pub struct InputValidator;

impl InputValidator {
    /// Accepts exactly the amounts in `[MIN_AMOUNT, min(max_amount, MAX_AMOUNT)]`.
    pub fn validate_amount(amount: u64, max_amount: u64) -> (r: Result<(), CommonError>)
        ensures
            r is Ok <==> amount_ok(amount, max_amount),
            r is Err ==> r == Result::<(), CommonError>::Err(CommonError::InvalidAmount),
    {
        if amount < MIN_AMOUNT {
            return Err(CommonError::InvalidAmount);
        }
        let cap = if max_amount < MAX_AMOUNT { max_amount } else { MAX_AMOUNT };
        if amount > cap {
            return Err(CommonError::InvalidAmount);
        }
        Ok(())
    }

    /// Accepts exactly the amounts in `[min, max]`.
    pub fn validate_amount_range(amount: u64, min: u64, max: u64) -> (r: Result<(), CommonError>)
        ensures
            r is Ok <==> min <= amount <= max,
            r is Err ==> r == Result::<(), CommonError>::Err(CommonError::InvalidAmount),
    {
        if amount < min {
            return Err(CommonError::InvalidAmount);
        }
        if amount > max {
            return Err(CommonError::InvalidAmount);
        }
        Ok(())
    }
}

/// Size checks on proof and public-input blobs.
pub struct InputSanitizer;

impl InputSanitizer {
    /// Accepts exactly the proofs whose size satisfies `proof_len_ok`.
    pub fn sanitize_proof(proof: &[u8], max_size: usize) -> (r: Result<(), CommonError>)
        ensures
            r is Ok <==> proof_len_ok(proof@.len(), max_size as nat),
            r is Err ==> r == Result::<(), CommonError>::Err(CommonError::InvalidAmount),
    {
        let cap = if max_size < MAX_PROOF_SIZE { max_size } else { MAX_PROOF_SIZE };
        if proof.len() > cap {
            return Err(CommonError::InvalidAmount);
        }
        if proof.len() < MIN_PROOF_SIZE {
            return Err(CommonError::InvalidAmount);
        }
        Ok(())
    }

    /// Accepts exactly the public-input blobs whose size satisfies
    /// `public_inputs_len_ok`.
    pub fn sanitize_public_inputs(inputs: &[u8], max_size: usize) -> (r: Result<(), CommonError>)
        ensures
            r is Ok <==> public_inputs_len_ok(inputs@.len(), max_size as nat),
            r is Err ==> r == Result::<(), CommonError>::Err(CommonError::InvalidAmount),
    {
        let cap = if max_size < MAX_PUBLIC_INPUTS_SIZE { max_size } else { MAX_PUBLIC_INPUTS_SIZE };
        if inputs.len() > cap {
            return Err(CommonError::InvalidAmount);
        }
        Ok(())
    }
}

/// Accepts an account exactly when it is owned by the expected program and
/// holds at least the required bytes.
pub fn validate_account(
    account_owner: &[u8; 32],
    expected_owner: &[u8; 32],
    data_len: usize,
    min_data_len: usize,
) -> (r: Result<(), CommonError>)
    ensures
        r is Ok <==> (account_owner@ == expected_owner@ && data_len >= min_data_len),
        account_owner@ != expected_owner@ ==> r == Err::<(), CommonError>(
            CommonError::InvalidAccountOwner,
        ),
        account_owner@ == expected_owner@ && data_len < min_data_len ==> r == Err::<
            (),
            CommonError,
        >(CommonError::AccountDataTooShort),
{
    if !crate::bytes32::bytes32_eq(account_owner, expected_owner) {
        return Err(CommonError::InvalidAccountOwner);
    }
    if data_len < min_data_len {
        return Err(CommonError::AccountDataTooShort);
    }
    Ok(())
}

/// Accepts a parent/child pair exactly when the child account is owned by
/// the parent.
pub fn validate_account_relationship(parent_key: &[u8; 32], child_owner: &[u8; 32]) -> (r: Result<
    (),
    CommonError,
>)
    ensures
        r is Ok <==> child_owner@ == parent_key@,
        r is Err ==> r == Err::<(), CommonError>(CommonError::InvalidAccountOwner),
{
    if !crate::bytes32::bytes32_eq(child_owner, parent_key) {
        return Err(CommonError::InvalidAccountOwner);
    }
    Ok(())
}

} // verus!
