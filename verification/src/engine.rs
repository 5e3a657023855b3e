//! The pool engine's transitions: shield application, the unshield
//! verify/update/withdraw stages, and the transfer validations. Every
//! `apply`-style transition checks all of its failure conditions before
//! touching any shared state, so either the full combined mutation commits
//! or none of it does.

use vstd::prelude::*;

verus! {

use vstd::bytes::{spec_u64_from_le_bytes, spec_u64_to_le_bytes, u64_from_le_bytes, u64_to_le_bytes};
use crate::attestation::{attestation_fresh, parse_attestation, sig_valid_of};
use crate::errors::PoolError;
use crate::groth16::{
    attested_verify_ok,
    public_inputs_shape_ok,
    VerifyingKeyAccount,
};
use crate::hashing::digest_of;
use crate::ledger::{min_slots_for, PoolState};
use crate::merkle::{recent_after, tree_root_of, CommitmentTree};
use crate::nullifier::NullifierSet;
use crate::operations::{
    has_id,
    id_index,
    OperationType,
    PreparedOperation,
    UserProofVault,
    STATUS_PENDING,
    STATUS_UPDATED,
    STATUS_VERIFIED,
};
use crate::validation::{
    amount_ok,
    proof_len_ok,
    public_inputs_len_ok,
    InputSanitizer,
    InputValidator,
    MAX_AMOUNT,
    MAX_BATCH_SIZE,
    MAX_PROOF_SIZE,
    MAX_PUBLIC_INPUTS_SIZE,
    MAX_SHIELD_AMOUNT,
};

/// Offset of the attached attestation within an operation payload.
pub const PAYLOAD_ATTESTATION_OFFSET: usize = 256;

/// Offset of the public inputs within an operation payload.
pub const PAYLOAD_INPUTS_OFFSET: usize = 425;

/// Append-only ledger of every shielded note commitment.
pub struct NoteLedger {
    /// The commitments, in insertion order.
    pub notes: Vec<[u8; 32]>,
}

impl NoteLedger {
    /// Creates an empty ledger.
    pub fn new() -> (r: NoteLedger)
        ensures
            r.notes@ == Seq::<[u8; 32]>::empty(),
    {
        NoteLedger { notes: Vec::new() }
    }
}

/// A claim on a shielded deposit awaiting execution.
pub struct ShieldClaim {
    /// Pool the claim belongs to.
    pub pool: [u8; 32],
    /// Who may claim.
    pub claimer: [u8; 32],
    /// Amount deposited.
    pub amount: u64,
    /// Commitment hiding the note.
    pub commitment: [u8; 32],
}

/// Proof material for one transfer.
pub struct TransferArgs {
    /// The serialized proof.
    pub proof: Vec<u8>,
    /// The concatenated 32-byte public inputs.
    pub public_inputs: Vec<u8>,
}

/// Proof material for one delegated transfer.
pub struct TransferFromArgs {
    /// The serialized proof.
    pub proof: Vec<u8>,
    /// The concatenated 32-byte public inputs.
    pub public_inputs: Vec<u8>,
}

/// A batch of transfers, applied as one unit.
pub struct BatchTransferArgs {
    /// The transfers, in order.
    pub transfers: Vec<TransferArgs>,
}

/// A batch of delegated transfers, applied as one unit.
pub struct BatchTransferFromArgs {
    /// The transfers, in order.
    pub transfers: Vec<TransferFromArgs>,
}

/// A spender's allowance over a pool's shielded value.
pub struct Allowance {
    /// Who granted the allowance.
    pub owner: [u8; 32],
    /// Who may spend it.
    pub spender: [u8; 32],
    /// Pool it applies to.
    pub pool: [u8; 32],
    /// Amount still spendable.
    pub amount: u64,
}

/// Fields of an allowance approval request.
pub struct ApproveAllowanceArgs {
    /// Who may spend.
    pub spender: [u8; 32],
    /// Amount to allow.
    pub amount: u64,
}

/// The eight big-endian bytes of an amount.
pub open spec fn amount_be_bytes(amount: u64) -> Seq<u8> {
    Seq::new(8, |i: int| spec_u64_to_le_bytes(amount)[7 - i])
}

/// The amount as a 32-byte field element: right-aligned big-endian,
/// zero-padded on the left. Both the public-input layout and the recent
/// cache's derived amount commitment use this word.
pub open spec fn amount_commitment_of(amount: u64) -> Seq<u8> {
    Seq::new(24, |i: int| 0u8) + amount_be_bytes(amount)
}

/// Encodes an amount as its 32-byte field element.
pub fn amount_to_bytes32(amount: u64) -> (r: [u8; 32])
    ensures
        r@ == amount_commitment_of(amount),
{
    let le = u64_to_le_bytes(amount);
    let mut r: [u8; 32] = [0u8; 32];
    let mut i: usize = 0;
    proof {
        vstd::bytes::lemma_auto_spec_u64_to_from_le_bytes();
    }
    while i < 8
        invariant
            i <= 8,
            le@ == spec_u64_to_le_bytes(amount),
            le@.len() == 8,
            r@.len() == 32,
            forall|j: int| 0 <= j < 24 ==> r@[j] == 0u8,
            forall|j: int| 24 <= j < 24 + i ==> r@[j] == le@[31 - j],
            forall|j: int| 24 + i <= j < 32 ==> r@[j] == 0u8,
        decreases 8 - i,
    {
        r[24 + i] = le[7 - i];
        i += 1;
    }
    proof {
        assert(r@ =~= amount_commitment_of(amount));
    }
    r
}

/// Whether a shield application is acceptable against the current pool
/// state: amount and payload shapes in range, the rate limit satisfied, the
/// operation counter not exhausted, and the tree not full.
pub open spec fn shield_core_ok(
    pool: PoolState,
    tree: CommitmentTree,
    proof: Seq<u8>,
    inputs: Seq<u8>,
    amount: u64,
    current_slot: u64,
) -> bool {
    &&& amount_ok(amount, MAX_SHIELD_AMOUNT)
    &&& proof_len_ok(proof.len(), MAX_PROOF_SIZE as nat)
    &&& public_inputs_len_ok(inputs.len(), MAX_PUBLIC_INPUTS_SIZE as nat)
    &&& pool.last_operation_slot + min_slots_for(OperationType::Shield) <= current_slot
    &&& pool.operation_count < u64::MAX
    &&& !tree.is_full()
}

/// Applies a shield operation: inserts the commitment into the accumulator,
/// records the new root in the pool's history, counts the operation, and
/// appends the note — as one unit. Every failure condition is checked before
/// any shared state changes, so a failure leaves pool, tree, and ledger
/// exactly as they were.
pub fn execute_shield_core(
    pool: &mut PoolState,
    tree: &mut CommitmentTree,
    note_ledger: &mut NoteLedger,
    proof: &Vec<u8>,
    public_inputs: &Vec<u8>,
    commitment: &[u8; 32],
    amount: u64,
    current_slot: u64,
) -> (r: Result<(), PoolError>)
    requires
        old(pool).well_formed(),
        old(tree).well_formed(),
    ensures
        final(pool).well_formed(),
        final(tree).well_formed(),
        r is Ok <==> shield_core_ok(
            *old(pool),
            *old(tree),
            proof@,
            public_inputs@,
            amount,
            current_slot,
        ),
        r is Err ==> {
            &&& *final(pool) == *old(pool)
            &&& *final(tree) == *old(tree)
            &&& final(note_ledger).notes == old(note_ledger).notes
        },
        !amount_ok(amount, MAX_SHIELD_AMOUNT) ==> r == Err::<(), PoolError>(
            PoolError::InvalidAmount,
        ),
        amount_ok(amount, MAX_SHIELD_AMOUNT) && !(proof_len_ok(proof@.len(), MAX_PROOF_SIZE as nat)
            && public_inputs_len_ok(public_inputs@.len(), MAX_PUBLIC_INPUTS_SIZE as nat)) ==> r
            == Err::<(), PoolError>(PoolError::InvalidAmount),
        amount_ok(amount, MAX_SHIELD_AMOUNT) && proof_len_ok(proof@.len(), MAX_PROOF_SIZE as nat)
            && public_inputs_len_ok(public_inputs@.len(), MAX_PUBLIC_INPUTS_SIZE as nat) && !(old(
            pool,
        ).last_operation_slot + min_slots_for(OperationType::Shield) <= current_slot) ==> r
            == Err::<(), PoolError>(PoolError::RateLimitExceeded),
        r is Ok ==> {
            &&& final(tree).commitments@ == old(tree).commitments@.push(commitment@)
            &&& final(tree).next_index == old(tree).next_index + 1
            &&& final(tree).current_root@ == tree_root_of(old(tree).commitments@.push(commitment@))
            &&& final(tree).recent_commitments@ == recent_after(
                old(tree).recent_commitments@,
                *commitment,
            )
            &&& crate::nullifier::views_of(final(tree).recent_amount_commitments@)
                == recent_after(
                crate::nullifier::views_of(old(tree).recent_amount_commitments@),
                amount_commitment_of(amount),
            )
            &&& final(tree).recent_indices@ == recent_after(
                old(tree).recent_indices@,
                old(tree).next_index,
            )
            &&& final(pool).current_root == final(tree).current_root
            &&& final(pool).roots_history@ == old(pool).roots_history@.push(
                final(tree).current_root@,
            )
            &&& final(pool).operation_count == old(pool).operation_count + 1
            &&& final(pool).last_operation_slot == current_slot
            &&& final(note_ledger).notes@ == old(note_ledger).notes@.push(*commitment)
        },
{
    if let Err(_) = InputValidator::validate_amount(amount, MAX_SHIELD_AMOUNT) {
        return Err(PoolError::InvalidAmount);
    }
    if let Err(_) = InputSanitizer::sanitize_proof(proof.as_slice(), MAX_PROOF_SIZE) {
        return Err(PoolError::InvalidAmount);
    }
    if let Err(_) = InputSanitizer::sanitize_public_inputs(
        public_inputs.as_slice(),
        MAX_PUBLIC_INPUTS_SIZE,
    ) {
        return Err(PoolError::InvalidAmount);
    }
    if let Err(e) = crate::ledger::check_rate_limit(
        pool.last_operation_slot,
        OperationType::Shield,
        current_slot,
    ) {
        return Err(e);
    }
    if pool.operation_count == u64::MAX {
        return Err(PoolError::ArithmeticOverflow);
    }
    if tree.next_index >= crate::merkle::TREE_CAPACITY {
        return Err(PoolError::TreeFull);
    }
    let amount_bytes = amount_to_bytes32(amount);
    let insert_result = tree.insert(commitment, &amount_bytes);
    let new_root = match insert_result {
        Ok((_, root)) => root,
        Err(e) => {
            return Err(e);
        },
    };
    let count_result = pool.record_operation(current_slot);
    match count_result {
        Ok(_) => (),
        Err(e) => {
            return Err(e);
        },
    }
    pool.record_root(&new_root);
    note_ledger.notes.push(*commitment);
    proof {
        let oldc = crate::nullifier::views_of(old(tree).recent_amount_commitments@);
        assert(crate::nullifier::views_of(tree.recent_amount_commitments@) =~= recent_after(
            oldc,
            amount_commitment_of(amount),
        ));
    }
    Ok(())
}

/// The proof attached to an operation payload.
pub open spec fn payload_proof(data: Seq<u8>) -> Seq<u8> {
    data.subrange(0, 256)
}

/// The wire attestation attached to an operation payload.
pub open spec fn payload_attestation(data: Seq<u8>) -> Seq<u8> {
    data.subrange(256, 425)
}

/// The public inputs attached to an operation payload; a payload that ends
/// at the attestation carries one zero field element.
pub open spec fn payload_public_inputs(data: Seq<u8>) -> Seq<u8> {
    if data.len() > 425 {
        data.subrange(425, data.len() as int)
    } else {
        Seq::new(32, |i: int| 0u8)
    }
}

/// The canonical signed message encoded in a wire attestation: the three
/// digests, the normalized validity byte, and the timestamp bytes.
pub open spec fn wire_attestation_message(ab: Seq<u8>) -> Seq<u8> {
    ab.subrange(0, 96) + seq![
        if ab[96] != 0 {
            1u8
        } else {
            0u8
        },
    ] + ab.subrange(97, 105)
}

/// Whether a wire attestation vouches for this proof material: its digests
/// match, its signature under the trusted signer checks out, it is fresh at
/// `now`, and its verdict byte is positive.
pub open spec fn wire_attestation_accepts(
    ab: Seq<u8>,
    proof: Seq<u8>,
    inputs: Seq<u8>,
    vk_data: Seq<u8>,
    signer: Seq<u8>,
    now: i64,
) -> bool {
    &&& ab.subrange(0, 32) == digest_of(proof)
    &&& ab.subrange(32, 64) == digest_of(inputs)
    &&& ab.subrange(64, 96) == digest_of(vk_data)
    &&& sig_valid_of(signer, wire_attestation_message(ab), ab.subrange(105, 169))
    &&& attestation_fresh(spec_u64_from_le_bytes(ab.subrange(97, 105)) as i64, now)
    &&& ab[96] != 0
}

/// Whether an attached payload passes verification: it is long enough to
/// carry proof and attestation, the key is not revoked, the public inputs
/// have an accepted shape, and the wire attestation vouches for the payload.
pub open spec fn unshield_verify_accepts(
    data: Seq<u8>,
    vk_revoked: bool,
    vk_data: Seq<u8>,
    signer: Seq<u8>,
    now: i64,
) -> bool {
    &&& data.len() >= PAYLOAD_INPUTS_OFFSET
    &&& !vk_revoked
    &&& public_inputs_shape_ok(payload_public_inputs(data))
    &&& wire_attestation_accepts(
        payload_attestation(data),
        payload_proof(data),
        payload_public_inputs(data),
        vk_data,
        signer,
        now,
    )
}

/// An attestation parsed from wire bytes signs exactly the wire message.
proof fn lemma_wire_attestation_message(
    att: crate::attestation::VerificationAttestation,
    ab: Seq<u8>,
)
    requires
        crate::attestation::attestation_matches(att, ab),
    ensures
        crate::attestation::attestation_message(att) == wire_attestation_message(ab),
{
    vstd::bytes::lemma_auto_spec_u64_to_from_le_bytes();
    assert(forall|y: u64| #![trigger (y as i64)] ((y as i64) as u64) == y) by (bit_vector);
    let x = spec_u64_from_le_bytes(ab.subrange(97, 105));
    assert((x as i64) as u64 == x);
    assert(spec_u64_to_le_bytes((att.timestamp as i64) as u64) == ab.subrange(97, 105));
    assert(crate::attestation::attestation_message(att) =~= wire_attestation_message(ab));
}

/// Verifies a Pending operation's attached payload against the pool's
/// verifying key and the trusted signer: on success the operation becomes
/// Verified; on verification failure it stays Pending, so the caller may
/// attach corrected material and retry.
pub fn execute_unshield_verify(
    vault: &mut UserProofVault,
    operation_id: &[u8; 32],
    verifying_key: &VerifyingKeyAccount,
    trusted_signer: &[u8; 32],
    now: i64,
) -> (r: Result<(), PoolError>)
    requires
        old(vault).well_formed(),
    ensures
        final(vault).well_formed(),
        !has_id(old(vault).ops(), operation_id@) ==> {
            &&& r == Err::<(), PoolError>(PoolError::OperationNotFound)
            &&& final(vault).ops() == old(vault).ops()
        },
        ({
            let ops = old(vault).ops();
            let i = id_index(ops, operation_id@);
            &&& has_id(ops, operation_id@) ==> {
                &&& ops[i].status != STATUS_PENDING ==> {
                    &&& r == Err::<(), PoolError>(PoolError::InvalidOperationStatus)
                    &&& final(vault).ops() == ops
                }
                &&& ops[i].status == STATUS_PENDING && ops[i].data@.len() < PAYLOAD_INPUTS_OFFSET
                    ==> {
                    &&& r == Err::<(), PoolError>(PoolError::InvalidOperationStatus)
                    &&& final(vault).ops() == ops
                }
                &&& ops[i].status == STATUS_PENDING && ops[i].data@.len() >= PAYLOAD_INPUTS_OFFSET
                    ==> {
                    &&& r is Ok <==> unshield_verify_accepts(
                        ops[i].data@,
                        verifying_key.revoked,
                        verifying_key.key_data@,
                        trusted_signer@,
                        now,
                    )
                    &&& r is Err ==> {
                        &&& r == Err::<(), PoolError>(PoolError::VerifierMismatch)
                        &&& final(vault).ops() == ops
                    }
                    &&& r is Ok ==> final(vault).ops() == ops.update(
                        i,
                        PreparedOperation { status: STATUS_VERIFIED, ..ops[i] },
                    )
                }
            }
        }),
{
    let found = vault.find_operation(operation_id);
    let i = match found {
        None => {
            return Err(PoolError::OperationNotFound);
        },
        Some(i) => i,
    };
    if vault.prepared_operations[i].status != STATUS_PENDING {
        return Err(PoolError::InvalidOperationStatus);
    }
    let verdict = {
        let data = &vault.prepared_operations[i].data;
        let n: usize = data.len();
        if n < PAYLOAD_INPUTS_OFFSET {
            return Err(PoolError::InvalidOperationStatus);
        }
        let mut proof: Vec<u8> = Vec::new();
        crate::bytes32::extend_from_range(&mut proof, data, 0, PAYLOAD_ATTESTATION_OFFSET);
        let attestation = parse_attestation(data, PAYLOAD_ATTESTATION_OFFSET);
        let mut inputs: Vec<u8> = Vec::new();
        if n > PAYLOAD_INPUTS_OFFSET {
            crate::bytes32::extend_from_range(
                &mut inputs,
                data,
                PAYLOAD_INPUTS_OFFSET,
                n - PAYLOAD_INPUTS_OFFSET,
            );
            proof {
                assert(inputs@ =~= payload_public_inputs(data@));
            }
        } else {
            let mut z: usize = 0;
            while z < 32
                invariant
                    z <= 32,
                    inputs@.len() == z,
                    forall|j: int| 0 <= j < z ==> inputs@[j] == 0u8,
                decreases 32 - z,
            {
                inputs.push(0u8);
                z += 1;
            }
            proof {
                assert(inputs@ =~= payload_public_inputs(data@));
            }
        }
        let verdict = crate::groth16::verify_with_attestation(
            verifying_key,
            &proof,
            &inputs,
            &attestation,
            trusted_signer,
            now,
        );
        proof {
            lemma_wire_attestation_message(attestation, payload_attestation(data@));
            assert(proof@ =~= payload_proof(data@));
            assert(attested_verify_ok(
                verifying_key.revoked,
                verifying_key.key_data@,
                proof@,
                inputs@,
                attestation,
                trusted_signer@,
                now,
            ) <==> unshield_verify_accepts(
                data@,
                verifying_key.revoked,
                verifying_key.key_data@,
                trusted_signer@,
                now,
            ));
        }
        verdict
    };
    match verdict {
        Err(_) => Err(PoolError::VerifierMismatch),
        Ok(_) => {
            let ghost before = vault.ops();
            let entry = &mut vault.prepared_operations[i];
            entry.status = STATUS_VERIFIED;
            proof {
                crate::operations::lemma_update_keeps_unique(before, vault.ops(), i as int);
            }
            Ok(())
        },
    }
}

/// The nullifier an operation payload designates: for a payload carrying
/// proof and attestation it follows them; a bare payload starts with it.
pub open spec fn payload_nullifier(data: Seq<u8>) -> Option<Seq<u8>> {
    if data.len() >= PAYLOAD_INPUTS_OFFSET + 32 {
        Some(data.subrange(425, 457))
    } else if data.len() >= PAYLOAD_INPUTS_OFFSET {
        None
    } else if data.len() >= 32 {
        Some(data.subrange(0, 32))
    } else {
        None
    }
}

/// Applies a Verified unshield operation to the shared nullifier registry:
/// registering the nullifier and marking the operation Updated happen as one
/// unit. A nullifier already registered by a concurrent operation leaves the
/// operation Verified and reports `NullifierAlreadyUsed`, so the caller may
/// retry with a fresh note.
pub fn execute_unshield_update(
    vault: &mut UserProofVault,
    operation_id: &[u8; 32],
    nullifier_set: &mut NullifierSet,
) -> (r: Result<(), PoolError>)
    requires
        old(vault).well_formed(),
        old(nullifier_set).well_formed(),
    ensures
        final(vault).well_formed(),
        final(nullifier_set).well_formed(),
        !has_id(old(vault).ops(), operation_id@) ==> {
            &&& r == Err::<(), PoolError>(PoolError::OperationNotFound)
            &&& final(vault).ops() == old(vault).ops()
            &&& final(nullifier_set).view_seq() == old(nullifier_set).view_seq()
        },
        ({
            let ops = old(vault).ops();
            let i = id_index(ops, operation_id@);
            &&& has_id(ops, operation_id@) ==> {
                &&& ops[i].status != STATUS_VERIFIED ==> {
                    &&& r == Err::<(), PoolError>(PoolError::InvalidOperationStatus)
                    &&& final(vault).ops() == ops
                    &&& final(nullifier_set).view_seq() == old(nullifier_set).view_seq()
                }
                &&& ops[i].status == STATUS_VERIFIED && payload_nullifier(ops[i].data@) is None
                    ==> {
                    &&& r == Err::<(), PoolError>(PoolError::InvalidNullifier)
                    &&& final(vault).ops() == ops
                    &&& final(nullifier_set).view_seq() == old(nullifier_set).view_seq()
                }
                &&& ops[i].status == STATUS_VERIFIED ==> (payload_nullifier(
                    ops[i].data@,
                ) matches Some(nf) ==> {
                    &&& old(nullifier_set).view_seq().contains(nf) ==> {
                        &&& r == Err::<(), PoolError>(PoolError::NullifierAlreadyUsed)
                        &&& final(vault).ops() == ops
                        &&& final(nullifier_set).view_seq() == old(nullifier_set).view_seq()
                    }
                    &&& !old(nullifier_set).view_seq().contains(nf) ==> {
                        &&& r == Ok::<(), PoolError>(())
                        &&& final(nullifier_set).view_seq() == old(
                            nullifier_set,
                        ).view_seq().push(nf)
                        &&& final(vault).ops() == ops.update(
                            i,
                            PreparedOperation { status: STATUS_UPDATED, ..ops[i] },
                        )
                    }
                })
            }
        }),
{
    let found = vault.find_operation(operation_id);
    let i = match found {
        None => {
            return Err(PoolError::OperationNotFound);
        },
        Some(i) => i,
    };
    if vault.prepared_operations[i].status != STATUS_VERIFIED {
        return Err(PoolError::InvalidOperationStatus);
    }
    let nullifier: [u8; 32] = {
        let data = &vault.prepared_operations[i].data;
        let n: usize = data.len();
        if n >= PAYLOAD_INPUTS_OFFSET + 32 {
            crate::bytes32::read_bytes32(data, PAYLOAD_INPUTS_OFFSET)
        } else if n >= PAYLOAD_INPUTS_OFFSET {
            return Err(PoolError::InvalidNullifier);
        } else if n >= 32 {
            crate::bytes32::read_bytes32(data, 0)
        } else {
            return Err(PoolError::InvalidNullifier);
        }
    };
    match nullifier_set.insert(&nullifier) {
        Err(e) => Err(e),
        Ok(_) => {
            let ghost before = vault.ops();
            let entry = &mut vault.prepared_operations[i];
            entry.status = STATUS_UPDATED;
            proof {
                crate::operations::lemma_update_keeps_unique(before, vault.ops(), i as int);
            }
            Ok(())
        },
    }
}

/// The withdrawal amount an operation payload designates, little-endian
/// after the leading nullifier.
pub open spec fn payload_amount(data: Seq<u8>) -> u64 {
    spec_u64_from_le_bytes(data.subrange(32, 40))
}

/// Finishes an Updated unshield operation: hands the withdrawal amount to
/// the custodial collaborator and removes the entry from the vault, so the
/// identifier is no longer in flight.
pub fn execute_unshield_withdraw(vault: &mut UserProofVault, operation_id: &[u8; 32]) -> (r:
    Result<u64, PoolError>)
    requires
        old(vault).well_formed(),
    ensures
        final(vault).well_formed(),
        !has_id(old(vault).ops(), operation_id@) ==> {
            &&& r == Err::<u64, PoolError>(PoolError::OperationNotFound)
            &&& final(vault).ops() == old(vault).ops()
        },
        ({
            let ops = old(vault).ops();
            let i = id_index(ops, operation_id@);
            &&& has_id(ops, operation_id@) ==> {
                &&& ops[i].status != STATUS_UPDATED ==> {
                    &&& r == Err::<u64, PoolError>(PoolError::InvalidOperationStatus)
                    &&& final(vault).ops() == ops
                }
                &&& ops[i].status == STATUS_UPDATED && ops[i].data@.len() < 40 ==> {
                    &&& r == Err::<u64, PoolError>(PoolError::InvalidAmount)
                    &&& final(vault).ops() == ops
                }
                &&& ops[i].status == STATUS_UPDATED && ops[i].data@.len() >= 40 ==> {
                    &&& r == Ok::<u64, PoolError>(payload_amount(ops[i].data@))
                    &&& final(vault).ops() == ops.remove(i)
                    &&& !has_id(final(vault).ops(), operation_id@)
                }
            }
        }),
{
    let found = vault.find_operation(operation_id);
    let i = match found {
        None => {
            return Err(PoolError::OperationNotFound);
        },
        Some(i) => i,
    };
    if vault.prepared_operations[i].status != STATUS_UPDATED {
        return Err(PoolError::InvalidOperationStatus);
    }
    let amount = {
        let data = &vault.prepared_operations[i].data;
        if data.len() < 40 {
            return Err(PoolError::InvalidAmount);
        }
        let mut amount_bytes: Vec<u8> = Vec::new();
        crate::bytes32::extend_from_range(&mut amount_bytes, data, 32, 8);
        u64_from_le_bytes(amount_bytes.as_slice())
    };
    let ghost before = vault.ops();
    vault.prepared_operations.remove(i);
    proof {
        let ops = before;
        let removed = ops.remove(i as int);
        assert(vault.ops() == removed);
        assert forall|a: int, b: int|
            0 <= a < b < removed.len() implies (#[trigger] removed[a].id)@ != (
        #[trigger] removed[b].id)@ by {
            let a0 = if a < i { a } else { a + 1 };
            let b0 = if b < i { b } else { b + 1 };
            assert(removed[a] == ops[a0] && removed[b] == ops[b0]);
            assert((ops[a0].id)@ != (ops[b0].id)@);
        }
        assert forall|j: int| 0 <= j < removed.len() implies (#[trigger] removed[j].id)@
            != operation_id@ by {
            let j0 = if j < i { j } else { j + 1 };
            assert(removed[j] == ops[j0]);
            if j0 < i {
                assert((ops[j0].id)@ != (ops[i as int].id)@);
            } else {
                assert(i < j0);
                assert((ops[i as int].id)@ != (ops[j0].id)@);
            }
        }
        if has_id(vault.ops(), operation_id@) {
            let w = choose|w: int|
                0 <= w < removed.len() && (#[trigger] removed[w].id)@ == operation_id@;
            assert((removed[w].id)@ != operation_id@);
        }
    }
    Ok(amount)
}

/// Whether one transfer's proof material has the accepted sizes.
pub open spec fn transfer_args_ok(proof: Seq<u8>, inputs: Seq<u8>) -> bool {
    &&& proof_len_ok(proof.len(), MAX_PROOF_SIZE as nat)
    &&& public_inputs_len_ok(inputs.len(), MAX_PUBLIC_INPUTS_SIZE as nat)
}

/// Validates a transfer's proof material before any shared state is
/// touched.
pub fn execute_transfer(args: &TransferArgs) -> (r: Result<(), PoolError>)
    ensures
        r is Ok <==> transfer_args_ok(args.proof@, args.public_inputs@),
        r is Err ==> r == Err::<(), PoolError>(PoolError::InvalidAmount),
{
    if let Err(_) = InputSanitizer::sanitize_proof(args.proof.as_slice(), MAX_PROOF_SIZE) {
        return Err(PoolError::InvalidAmount);
    }
    if let Err(_) = InputSanitizer::sanitize_public_inputs(
        args.public_inputs.as_slice(),
        MAX_PUBLIC_INPUTS_SIZE,
    ) {
        return Err(PoolError::InvalidAmount);
    }
    Ok(())
}

/// Validates a delegated transfer's proof material before any shared state
/// is touched.
pub fn execute_transfer_from(args: &TransferFromArgs) -> (r: Result<(), PoolError>)
    ensures
        r is Ok <==> transfer_args_ok(args.proof@, args.public_inputs@),
        r is Err ==> r == Err::<(), PoolError>(PoolError::InvalidAmount),
{
    if let Err(_) = InputSanitizer::sanitize_proof(args.proof.as_slice(), MAX_PROOF_SIZE) {
        return Err(PoolError::InvalidAmount);
    }
    if let Err(_) = InputSanitizer::sanitize_public_inputs(
        args.public_inputs.as_slice(),
        MAX_PUBLIC_INPUTS_SIZE,
    ) {
        return Err(PoolError::InvalidAmount);
    }
    Ok(())
}

/// Whether a whole batch is acceptable: a batch size within the cap and
/// every entry's proof material within its sizes. Validation covers every
/// entry before any shared state would change, so a batch either passes as
/// a whole or is rejected as a whole.
pub open spec fn batch_ok(transfers: Seq<TransferArgs>) -> bool {
    &&& 0 < transfers.len() <= MAX_BATCH_SIZE
    &&& forall|i: int|
        0 <= i < transfers.len() ==> transfer_args_ok(
            (#[trigger] transfers[i]).proof@,
            transfers[i].public_inputs@,
        )
}

/// Validates every entry of a transfer batch before any shared state is
/// touched.
pub fn execute_batch_transfer(args: &BatchTransferArgs) -> (r: Result<(), PoolError>)
    ensures
        r is Ok <==> batch_ok(args.transfers@),
        r is Err ==> r == Err::<(), PoolError>(PoolError::InvalidAmount),
{
    let n = args.transfers.len();
    if n == 0 || n > MAX_BATCH_SIZE {
        return Err(PoolError::InvalidAmount);
    }
    let mut i: usize = 0;
    while i < n
        invariant
            i <= n,
            n == args.transfers@.len(),
            forall|j: int|
                0 <= j < i ==> transfer_args_ok(
                    (#[trigger] args.transfers@[j]).proof@,
                    args.transfers@[j].public_inputs@,
                ),
        decreases n - i,
    {
        let transfer = &args.transfers[i];
        if let Err(_) = InputSanitizer::sanitize_proof(transfer.proof.as_slice(), MAX_PROOF_SIZE) {
            return Err(PoolError::InvalidAmount);
        }
        if let Err(_) = InputSanitizer::sanitize_public_inputs(
            transfer.public_inputs.as_slice(),
            MAX_PUBLIC_INPUTS_SIZE,
        ) {
            return Err(PoolError::InvalidAmount);
        }
        i += 1;
    }
    Ok(())
}

/// Whether a whole delegated batch is acceptable.
pub open spec fn batch_from_ok(transfers: Seq<TransferFromArgs>) -> bool {
    &&& 0 < transfers.len() <= MAX_BATCH_SIZE
    &&& forall|i: int|
        0 <= i < transfers.len() ==> transfer_args_ok(
            (#[trigger] transfers[i]).proof@,
            transfers[i].public_inputs@,
        )
}

/// Validates every entry of a delegated transfer batch before any shared
/// state is touched.
pub fn execute_batch_transfer_from(args: &BatchTransferFromArgs) -> (r: Result<(), PoolError>)
    ensures
        r is Ok <==> batch_from_ok(args.transfers@),
        r is Err ==> r == Err::<(), PoolError>(PoolError::InvalidAmount),
{
    let n = args.transfers.len();
    if n == 0 || n > MAX_BATCH_SIZE {
        return Err(PoolError::InvalidAmount);
    }
    let mut i: usize = 0;
    while i < n
        invariant
            i <= n,
            n == args.transfers@.len(),
            forall|j: int|
                0 <= j < i ==> transfer_args_ok(
                    (#[trigger] args.transfers@[j]).proof@,
                    args.transfers@[j].public_inputs@,
                ),
        decreases n - i,
    {
        let transfer = &args.transfers[i];
        if let Err(_) = InputSanitizer::sanitize_proof(transfer.proof.as_slice(), MAX_PROOF_SIZE) {
            return Err(PoolError::InvalidAmount);
        }
        if let Err(_) = InputSanitizer::sanitize_public_inputs(
            transfer.public_inputs.as_slice(),
            MAX_PUBLIC_INPUTS_SIZE,
        ) {
            return Err(PoolError::InvalidAmount);
        }
        i += 1;
    }
    Ok(())
}

/// Grants a spender an allowance over the owner's shielded value; accepts
/// exactly the amounts in range.
pub fn approve_allowance(
    owner: &[u8; 32],
    pool: &[u8; 32],
    args: &ApproveAllowanceArgs,
) -> (r: Result<Allowance, PoolError>)
    ensures
        r is Ok <==> amount_ok(args.amount, MAX_AMOUNT),
        r matches Ok(a) ==> {
            &&& a.owner == owner
            &&& a.spender == args.spender
            &&& a.pool == pool
            &&& a.amount == args.amount
        },
        r is Err ==> r == Err::<Allowance, PoolError>(PoolError::InvalidAmount),
{
    if let Err(_) = InputValidator::validate_amount(args.amount, MAX_AMOUNT) {
        return Err(PoolError::InvalidAmount);
    }
    Ok(Allowance { owner: *owner, spender: args.spender, pool: *pool, amount: args.amount })
}

/// The commitment an operation payload designates: for a payload carrying
/// proof and attestation it is the first public input; a bare payload starts
/// with it.
pub open spec fn payload_commitment(data: Seq<u8>) -> Option<Seq<u8>> {
    if data.len() >= PAYLOAD_INPUTS_OFFSET + 32 {
        Some(data.subrange(425, 457))
    } else if data.len() >= PAYLOAD_INPUTS_OFFSET {
        None
    } else if data.len() >= 32 {
        Some(data.subrange(0, 32))
    } else {
        None
    }
}

/// Whether the shared pool state admits applying a shield operation now:
/// rate limit satisfied, counter not exhausted, tree not full.
pub open spec fn shield_apply_ok(pool: PoolState, tree: CommitmentTree, current_slot: u64) -> bool {
    &&& pool.last_operation_slot + min_slots_for(OperationType::Shield) <= current_slot
    &&& pool.operation_count < u64::MAX
    &&& !tree.is_full()
}

/// Applies a Verified shield operation: inserts its commitment into the
/// accumulator, records the new root and the operation, appends the note,
/// and marks the operation Updated — as one unit. Every failure condition is
/// checked before any shared state changes.
pub fn execute_shield_v2(
    vault: &mut UserProofVault,
    operation_id: &[u8; 32],
    pool: &mut PoolState,
    tree: &mut CommitmentTree,
    note_ledger: &mut NoteLedger,
    amount: u64,
    current_slot: u64,
) -> (r: Result<(), PoolError>)
    requires
        old(vault).well_formed(),
        old(pool).well_formed(),
        old(tree).well_formed(),
    ensures
        final(vault).well_formed(),
        final(pool).well_formed(),
        final(tree).well_formed(),
        r is Err ==> {
            &&& final(vault).ops() == old(vault).ops()
            &&& *final(pool) == *old(pool)
            &&& *final(tree) == *old(tree)
            &&& final(note_ledger).notes == old(note_ledger).notes
        },
        !has_id(old(vault).ops(), operation_id@) ==> r == Err::<(), PoolError>(
            PoolError::OperationNotFound,
        ),
        ({
            let ops = old(vault).ops();
            let i = id_index(ops, operation_id@);
            &&& has_id(ops, operation_id@) ==> {
                &&& ops[i].status != STATUS_VERIFIED ==> r == Err::<(), PoolError>(
                    PoolError::InvalidOperationStatus,
                )
                &&& ops[i].status == STATUS_VERIFIED && ops[i].operation_type
                    != crate::operations::KIND_SHIELD ==> r == Err::<(), PoolError>(
                    PoolError::InvalidOperationStatus,
                )
                &&& ops[i].status == STATUS_VERIFIED && ops[i].operation_type
                    == crate::operations::KIND_SHIELD && payload_commitment(ops[i].data@) is None
                    ==> r == Err::<(), PoolError>(PoolError::InvalidProof)
                &&& (ops[i].status == STATUS_VERIFIED && ops[i].operation_type
                    == crate::operations::KIND_SHIELD) ==> (payload_commitment(
                    ops[i].data@,
                ) matches Some(c) ==> {
                    &&& r is Ok <==> shield_apply_ok(*old(pool), *old(tree), current_slot)
                    &&& r is Ok ==> {
                        &&& final(tree).commitments@ == old(tree).commitments@.push(c)
                        &&& final(tree).next_index == old(tree).next_index + 1
                        &&& final(tree).current_root@ == tree_root_of(
                            old(tree).commitments@.push(c),
                        )
                        &&& final(pool).current_root == final(tree).current_root
                        &&& final(pool).roots_history@ == old(pool).roots_history@.push(
                            final(tree).current_root@,
                        )
                        &&& final(pool).operation_count == old(pool).operation_count + 1
                        &&& final(pool).last_operation_slot == current_slot
                        &&& final(note_ledger).notes@.len() == old(note_ledger).notes@.len() + 1
                        &&& final(vault).ops() == ops.update(
                            i,
                            PreparedOperation { status: STATUS_UPDATED, ..ops[i] },
                        )
                    }
                })
            }
        }),
{
    let found = vault.find_operation(operation_id);
    let i = match found {
        None => {
            return Err(PoolError::OperationNotFound);
        },
        Some(i) => i,
    };
    if vault.prepared_operations[i].status != STATUS_VERIFIED {
        return Err(PoolError::InvalidOperationStatus);
    }
    if vault.prepared_operations[i].operation_type != crate::operations::KIND_SHIELD {
        return Err(PoolError::InvalidOperationStatus);
    }
    let commitment: [u8; 32] = {
        let data = &vault.prepared_operations[i].data;
        let n: usize = data.len();
        if n >= PAYLOAD_INPUTS_OFFSET + 32 {
            crate::bytes32::read_bytes32(data, PAYLOAD_INPUTS_OFFSET)
        } else if n >= PAYLOAD_INPUTS_OFFSET {
            return Err(PoolError::InvalidProof);
        } else if n >= 32 {
            crate::bytes32::read_bytes32(data, 0)
        } else {
            return Err(PoolError::InvalidProof);
        }
    };
    if let Err(e) = crate::ledger::check_rate_limit(
        pool.last_operation_slot,
        OperationType::Shield,
        current_slot,
    ) {
        return Err(e);
    }
    if pool.operation_count == u64::MAX {
        return Err(PoolError::ArithmeticOverflow);
    }
    if tree.next_index >= crate::merkle::TREE_CAPACITY {
        return Err(PoolError::TreeFull);
    }
    let amount_bytes = amount_to_bytes32(amount);
    let new_root = match tree.insert(&commitment, &amount_bytes) {
        Ok((_, root)) => root,
        Err(e) => {
            return Err(e);
        },
    };
    match pool.record_operation(current_slot) {
        Ok(_) => (),
        Err(e) => {
            return Err(e);
        },
    }
    pool.record_root(&new_root);
    note_ledger.notes.push(commitment);
    let ghost before = vault.ops();
    let entry = &mut vault.prepared_operations[i];
    entry.status = STATUS_UPDATED;
    proof {
        crate::operations::lemma_update_keeps_unique(before, vault.ops(), i as int);
    }
    Ok(())
}

/// Finishes an Updated operation once the custodial movement is done: the
/// entry leaves the vault, so its identifier is no longer in flight.
pub fn finalize_operation(vault: &mut UserProofVault, operation_id: &[u8; 32]) -> (r: Result<
    (),
    PoolError,
>)
    requires
        old(vault).well_formed(),
    ensures
        final(vault).well_formed(),
        !has_id(old(vault).ops(), operation_id@) ==> {
            &&& r == Err::<(), PoolError>(PoolError::OperationNotFound)
            &&& final(vault).ops() == old(vault).ops()
        },
        ({
            let ops = old(vault).ops();
            let i = id_index(ops, operation_id@);
            &&& has_id(ops, operation_id@) ==> {
                &&& ops[i].status != STATUS_UPDATED ==> {
                    &&& r == Err::<(), PoolError>(PoolError::InvalidOperationStatus)
                    &&& final(vault).ops() == ops
                }
                &&& ops[i].status == STATUS_UPDATED ==> {
                    &&& r == Ok::<(), PoolError>(())
                    &&& final(vault).ops() == ops.remove(i)
                    &&& !has_id(final(vault).ops(), operation_id@)
                }
            }
        }),
{
    let found = vault.find_operation(operation_id);
    let i = match found {
        None => {
            return Err(PoolError::OperationNotFound);
        },
        Some(i) => i,
    };
    if vault.prepared_operations[i].status != STATUS_UPDATED {
        return Err(PoolError::InvalidOperationStatus);
    }
    let ghost before = vault.ops();
    vault.prepared_operations.remove(i);
    proof {
        let ops = before;
        let removed = ops.remove(i as int);
        assert(vault.ops() == removed);
        assert forall|a: int, b: int|
            0 <= a < b < removed.len() implies (#[trigger] removed[a].id)@ != (
        #[trigger] removed[b].id)@ by {
            let a0 = if a < i { a } else { a + 1 };
            let b0 = if b < i { b } else { b + 1 };
            assert(removed[a] == ops[a0] && removed[b] == ops[b0]);
            assert((ops[a0].id)@ != (ops[b0].id)@);
        }
        assert forall|j: int| 0 <= j < removed.len() implies (#[trigger] removed[j].id)@
            != operation_id@ by {
            let j0 = if j < i { j } else { j + 1 };
            assert(removed[j] == ops[j0]);
            if j0 < i {
                assert((ops[j0].id)@ != (ops[i as int].id)@);
            } else {
                assert(i < j0);
                assert((ops[i as int].id)@ != (ops[j0].id)@);
            }
        }
        if has_id(vault.ops(), operation_id@) {
            let w = choose|w: int|
                0 <= w < removed.len() && (#[trigger] removed[w].id)@ == operation_id@;
            assert((removed[w].id)@ != operation_id@);
        }
    }
    Ok(())
}

} // verus!
