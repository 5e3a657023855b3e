//! Prepared operations and the per-owner vault that drives the
//! Pending -> Verified -> Updated -> Completed state machine.

use vstd::prelude::*;

verus! {

use vstd::bytes::{spec_u64_to_le_bytes, u64_to_le_bytes};
use crate::bytes32::extend_from_bytes32;
use crate::errors::PoolError;
use crate::hashing::{digest_of, hash_data};
use crate::validation::{amount_ok, InputValidator, MAX_SHIELD_AMOUNT, MAX_UNSHIELD_AMOUNT};

/// Status code: operation registered, payload may still change.
pub const STATUS_PENDING: u8 = 0;
/// Status code: a transition is being executed.
pub const STATUS_IN_PROGRESS: u8 = 1;
/// Status code: proof or attestation accepted.
pub const STATUS_VERIFIED: u8 = 2;
/// Status code: shared pool state mutated.
pub const STATUS_UPDATED: u8 = 3;
/// Status code: custodial movement done, entry removed.
pub const STATUS_COMPLETED: u8 = 4;
/// Status code: unrecoverable failure.
pub const STATUS_FAILED: u8 = 5;

/// Kind code for shield operations.
pub const KIND_SHIELD: u8 = 0;
/// Kind code for unshield operations.
pub const KIND_UNSHIELD: u8 = 1;
/// Kind code for transfer operations.
pub const KIND_TRANSFER: u8 = 2;

/// Lifecycle stage of a prepared operation.
#[derive(Clone, Copy, Debug, PartialEq, Eq, Structural)]
pub enum OperationStatus {
    Pending,
    InProgress,
    Verified,
    Updated,
    Completed,
    Failed,
}

/// The status encoded by a stored status byte, if the byte is a known code.
pub open spec fn spec_status_from_u8(value: u8) -> Option<OperationStatus> {
    if value == STATUS_PENDING {
        Some(OperationStatus::Pending)
    } else if value == STATUS_IN_PROGRESS {
        Some(OperationStatus::InProgress)
    } else if value == STATUS_VERIFIED {
        Some(OperationStatus::Verified)
    } else if value == STATUS_UPDATED {
        Some(OperationStatus::Updated)
    } else if value == STATUS_COMPLETED {
        Some(OperationStatus::Completed)
    } else if value == STATUS_FAILED {
        Some(OperationStatus::Failed)
    } else {
        None
    }
}

/// The byte code of a status.
pub open spec fn spec_status_code(status: OperationStatus) -> u8 {
    match status {
        OperationStatus::Pending => STATUS_PENDING,
        OperationStatus::InProgress => STATUS_IN_PROGRESS,
        OperationStatus::Verified => STATUS_VERIFIED,
        OperationStatus::Updated => STATUS_UPDATED,
        OperationStatus::Completed => STATUS_COMPLETED,
        OperationStatus::Failed => STATUS_FAILED,
    }
}

impl OperationStatus {
    /// Decodes a stored status byte.
    pub fn from_u8(value: u8) -> (r: Option<OperationStatus>)
        ensures
            r == spec_status_from_u8(value),
    {
        match value {
            0 => Some(OperationStatus::Pending),
            1 => Some(OperationStatus::InProgress),
            2 => Some(OperationStatus::Verified),
            3 => Some(OperationStatus::Updated),
            4 => Some(OperationStatus::Completed),
            5 => Some(OperationStatus::Failed),
            _ => None,
        }
    }

    /// The byte this status is stored as.
    pub fn code(&self) -> (r: u8)
        ensures
            r == spec_status_code(*self),
    {
        match self {
            OperationStatus::Pending => STATUS_PENDING,
            OperationStatus::InProgress => STATUS_IN_PROGRESS,
            OperationStatus::Verified => STATUS_VERIFIED,
            OperationStatus::Updated => STATUS_UPDATED,
            OperationStatus::Completed => STATUS_COMPLETED,
            OperationStatus::Failed => STATUS_FAILED,
        }
    }
}

/// The kind of value movement an operation performs.
#[derive(Clone, Copy, Debug, PartialEq, Eq, Structural)]
pub enum OperationType {
    Shield,
    Unshield,
    Transfer,
}

/// The byte code of an operation kind.
pub open spec fn spec_kind_code(kind: OperationType) -> u8 {
    match kind {
        OperationType::Shield => KIND_SHIELD,
        OperationType::Unshield => KIND_UNSHIELD,
        OperationType::Transfer => KIND_TRANSFER,
    }
}

/// An in-flight operation: its strong-hash identifier, lifecycle status,
/// kind, and variable-length payload (canonical fields, later the attached
/// proof material).
#[derive(Clone)]
pub struct PreparedOperation {
    /// Strong hash of the operation's canonical fields.
    pub id: [u8; 32],
    /// One of the `STATUS_*` codes.
    pub status: u8,
    /// One of the `KIND_*` codes.
    pub operation_type: u8,
    /// Canonical fields, or the attached proof payload.
    pub data: Vec<u8>,
}

impl PreparedOperation {
    /// The operation's identifier.
    pub fn id(&self) -> (r: &[u8; 32])
        ensures
            r == self.id,
    {
        &self.id
    }

    /// The operation's lifecycle status; an unknown stored code reads as
    /// `Failed`.
    pub fn status(&self) -> (r: OperationStatus)
        ensures
            r == spec_status_from_u8(self.status).unwrap_or(OperationStatus::Failed),
    {
        match OperationStatus::from_u8(self.status) {
            Some(s) => s,
            None => OperationStatus::Failed,
        }
    }

    /// Overwrites the lifecycle status.
    pub fn set_status(&mut self, status: OperationStatus)
        ensures
            *final(self) == (PreparedOperation { status: spec_status_code(status), ..*old(self) }),
    {
        self.status = status.code();
    }
}

/// Whether some operation in `ops` carries identifier `id`.
pub open spec fn has_id(ops: Seq<PreparedOperation>, id: Seq<u8>) -> bool {
    exists|i: int| 0 <= i < ops.len() && (#[trigger] ops[i].id)@ == id
}

/// The index of the operation carrying `id`; meaningful only when `has_id`
/// holds, and unique under `UserProofVault::well_formed`.
pub open spec fn id_index(ops: Seq<PreparedOperation>, id: Seq<u8>) -> int {
    choose|i: int| 0 <= i < ops.len() && (#[trigger] ops[i].id)@ == id
}

/// Canonical encoding of a shield operation's fields.
pub open spec fn shield_canonical(amount: u64, commitment: Seq<u8>) -> Seq<u8> {
    spec_u64_to_le_bytes(amount) + commitment
}

/// Identifier of a shield operation: the digest of its canonical fields.
pub open spec fn shield_operation_id(amount: u64, commitment: Seq<u8>) -> Seq<u8> {
    digest_of(shield_canonical(amount, commitment))
}

/// Canonical encoding of an unshield operation's fields; also the payload a
/// fresh unshield operation stores.
pub open spec fn unshield_canonical(nullifier: Seq<u8>, amount: u64, recipient: Seq<u8>) -> Seq<
    u8,
> {
    nullifier + spec_u64_to_le_bytes(amount) + recipient
}

/// Identifier of an unshield operation: the digest of its canonical fields.
pub open spec fn unshield_operation_id(nullifier: Seq<u8>, amount: u64, recipient: Seq<u8>) -> Seq<
    u8,
> {
    digest_of(unshield_canonical(nullifier, amount, recipient))
}

/// Fields of a shield preparation request.
pub struct PrepareShieldArgs {
    /// Amount being deposited.
    pub amount: u64,
    /// Commitment hiding the deposited note.
    pub commitment: [u8; 32],
}

/// Fields of an unshield preparation request.
pub struct PrepareUnshieldArgs {
    /// Nullifier of the note being spent.
    pub nullifier: [u8; 32],
    /// Amount being withdrawn.
    pub amount: u64,
    /// Recipient of the withdrawal.
    pub recipient: [u8; 32],
}

/// A single owner's store of in-flight operations, keyed by identifier.
pub struct UserProofVault {
    /// The in-flight operations, in preparation order.
    pub prepared_operations: Vec<PreparedOperation>,
}

impl UserProofVault {
    /// The vault's model: its operations in order.
    pub open spec fn ops(self) -> Seq<PreparedOperation> {
        self.prepared_operations@
    }

    /// No two operations share an identifier.
    pub open spec fn well_formed(self) -> bool {
        forall|i: int, j: int|
            0 <= i < j < self.ops().len() ==> (#[trigger] self.ops()[i].id)@ != (
            #[trigger] self.ops()[j].id)@
    }

    /// Creates an empty vault.
    pub fn new() -> (v: UserProofVault)
        ensures
            v.well_formed(),
            v.ops() == Seq::<PreparedOperation>::empty(),
    {
        UserProofVault { prepared_operations: Vec::new() }
    }

    /// Number of in-flight operations.
    pub fn len(&self) -> (r: usize)
        ensures
            r == self.ops().len(),
    {
        self.prepared_operations.len()
    }

    /// Finds the operation carrying `operation_id`.
    pub fn find_operation(&self, operation_id: &[u8; 32]) -> (r: Option<usize>)
        requires
            self.well_formed(),
        ensures
            r is Some <==> has_id(self.ops(), operation_id@),
            r matches Some(i) ==> {
                &&& i < self.ops().len()
                &&& (self.ops()[i as int].id)@ == operation_id@
                &&& i == id_index(self.ops(), operation_id@)
            },
    {
        let mut i: usize = 0;
        let n = self.prepared_operations.len();
        while i < n
            invariant
                i <= n,
                n == self.ops().len(),
                self.well_formed(),
                forall|j: int| 0 <= j < i ==> (#[trigger] self.ops()[j].id)@ != operation_id@,
            decreases n - i,
        {
            if crate::bytes32::bytes32_eq(&self.prepared_operations[i].id, operation_id) {
                proof {
                    assert(has_id(self.ops(), operation_id@));
                    let w = id_index(self.ops(), operation_id@);
                    assert(0 <= w < self.ops().len() && (self.ops()[w].id)@ == operation_id@);
                    if w < i {
                        assert((self.ops()[w].id)@ != (self.ops()[i as int].id)@);
                    } else if i < w {
                        assert((self.ops()[i as int].id)@ != (self.ops()[w].id)@);
                    }
                }
                return Some(i);
            }
            i += 1;
        }
        proof {
            if has_id(self.ops(), operation_id@) {
                let w = choose|j: int|
                    0 <= j < self.ops().len() && (#[trigger] self.ops()[j].id)@ == operation_id@;
                assert((self.ops()[w].id)@ != operation_id@);
            }
        }
        None
    }

    /// Whether the vault holds an operation with this identifier.
    pub fn contains_operation(&self, operation_id: &[u8; 32]) -> (r: bool)
        requires
            self.well_formed(),
        ensures
            r <==> has_id(self.ops(), operation_id@),
    {
        self.find_operation(operation_id).is_some()
    }
}

/// Registers a shield operation: validates the amount, derives the
/// identifier as the strong hash of the canonical fields, and stores a
/// Pending entry whose payload is the commitment. Rejects a second
/// preparation of the same canonical fields.
pub fn prepare_shield(vault: &mut UserProofVault, args: &PrepareShieldArgs) -> (r: Result<
    [u8; 32],
    PoolError,
>)
    requires
        old(vault).well_formed(),
    ensures
        final(vault).well_formed(),
        !amount_ok(args.amount, MAX_SHIELD_AMOUNT) ==> {
            &&& r == Err::<[u8; 32], PoolError>(PoolError::InvalidAmount)
            &&& final(vault).ops() == old(vault).ops()
        },
        amount_ok(args.amount, MAX_SHIELD_AMOUNT) && has_id(
            old(vault).ops(),
            shield_operation_id(args.amount, args.commitment@),
        ) ==> {
            &&& r == Err::<[u8; 32], PoolError>(PoolError::OperationInProgress)
            &&& final(vault).ops() == old(vault).ops()
        },
        amount_ok(args.amount, MAX_SHIELD_AMOUNT) && !has_id(
            old(vault).ops(),
            shield_operation_id(args.amount, args.commitment@),
        ) ==> {
            &&& r matches Ok(id)
            &&& r matches Ok(id) ==> id@ == shield_operation_id(args.amount, args.commitment@)
            &&& final(vault).ops().len() == old(vault).ops().len() + 1
            &&& final(vault).ops().take(old(vault).ops().len() as int) == old(vault).ops()
            &&& {
                let op = final(vault).ops().last();
                &&& op.id@ == shield_operation_id(args.amount, args.commitment@)
                &&& op.status == STATUS_PENDING
                &&& op.operation_type == KIND_SHIELD
                &&& op.data@ == args.commitment@
            }
        },
{
    if let Err(_) = InputValidator::validate_amount(args.amount, MAX_SHIELD_AMOUNT) {
        return Err(PoolError::InvalidAmount);
    }
    let mut canonical: Vec<u8> = u64_to_le_bytes(args.amount);
    extend_from_bytes32(&mut canonical, &args.commitment);
    proof {
        assert(canonical@ =~= shield_canonical(args.amount, args.commitment@));
    }
    let operation_id = hash_data(canonical.as_slice());
    if vault.contains_operation(&operation_id) {
        return Err(PoolError::OperationInProgress);
    }
    let mut data: Vec<u8> = Vec::new();
    extend_from_bytes32(&mut data, &args.commitment);
    proof {
        assert(data@ =~= args.commitment@);
    }
    let operation = PreparedOperation {
        id: operation_id,
        status: STATUS_PENDING,
        operation_type: KIND_SHIELD,
        data,
    };
    vault.prepared_operations.push(operation);
    proof {
        lemma_push_fresh_keeps_unique(old(vault).ops(), vault.ops(), operation_id@);
        assert(vault.ops().take(old(vault).ops().len() as int) =~= old(vault).ops());
    }
    Ok(operation_id)
}

/// Registers an unshield operation: validates the amount, derives the
/// identifier as the strong hash of the canonical fields, and stores a
/// Pending entry whose payload is the canonical encoding. Rejects a second
/// preparation of the same canonical fields.
pub fn prepare_unshield(vault: &mut UserProofVault, args: &PrepareUnshieldArgs) -> (r: Result<
    [u8; 32],
    PoolError,
>)
    requires
        old(vault).well_formed(),
    ensures
        final(vault).well_formed(),
        !amount_ok(args.amount, MAX_UNSHIELD_AMOUNT) ==> {
            &&& r == Err::<[u8; 32], PoolError>(PoolError::InvalidAmount)
            &&& final(vault).ops() == old(vault).ops()
        },
        amount_ok(args.amount, MAX_UNSHIELD_AMOUNT) && has_id(
            old(vault).ops(),
            unshield_operation_id(args.nullifier@, args.amount, args.recipient@),
        ) ==> {
            &&& r == Err::<[u8; 32], PoolError>(PoolError::OperationInProgress)
            &&& final(vault).ops() == old(vault).ops()
        },
        amount_ok(args.amount, MAX_UNSHIELD_AMOUNT) && !has_id(
            old(vault).ops(),
            unshield_operation_id(args.nullifier@, args.amount, args.recipient@),
        ) ==> {
            &&& r matches Ok(id)
            &&& r matches Ok(id) ==> id@ == unshield_operation_id(
                args.nullifier@,
                args.amount,
                args.recipient@,
            )
            &&& final(vault).ops().len() == old(vault).ops().len() + 1
            &&& final(vault).ops().take(old(vault).ops().len() as int) == old(vault).ops()
            &&& {
                let op = final(vault).ops().last();
                &&& op.id@ == unshield_operation_id(args.nullifier@, args.amount, args.recipient@)
                &&& op.status == STATUS_PENDING
                &&& op.operation_type == KIND_UNSHIELD
                &&& op.data@ == unshield_canonical(args.nullifier@, args.amount, args.recipient@)
            }
        },
{
    if let Err(_) = InputValidator::validate_amount(args.amount, MAX_UNSHIELD_AMOUNT) {
        return Err(PoolError::InvalidAmount);
    }
    let mut canonical: Vec<u8> = Vec::new();
    extend_from_bytes32(&mut canonical, &args.nullifier);
    let mut amount_bytes = u64_to_le_bytes(args.amount);
    canonical.append(&mut amount_bytes);
    extend_from_bytes32(&mut canonical, &args.recipient);
    proof {
        assert(canonical@ =~= unshield_canonical(args.nullifier@, args.amount, args.recipient@));
    }
    let operation_id = hash_data(canonical.as_slice());
    if vault.contains_operation(&operation_id) {
        return Err(PoolError::OperationInProgress);
    }
    let operation = PreparedOperation {
        id: operation_id,
        status: STATUS_PENDING,
        operation_type: KIND_UNSHIELD,
        data: canonical,
    };
    vault.prepared_operations.push(operation);
    proof {
        lemma_push_fresh_keeps_unique(old(vault).ops(), vault.ops(), operation_id@);
        assert(vault.ops().take(old(vault).ops().len() as int) =~= old(vault).ops());
    }
    Ok(operation_id)
}

/// Replaces a Pending operation's payload with freshly attached proof
/// material; permitted any number of times while the operation stays
/// Pending.
pub fn update_operation_data(
    vault: &mut UserProofVault,
    operation_id: &[u8; 32],
    operation_data: Vec<u8>,
) -> (r: Result<(), PoolError>)
    requires
        old(vault).well_formed(),
    ensures
        final(vault).well_formed(),
        !has_id(old(vault).ops(), operation_id@) ==> {
            &&& r == Err::<(), PoolError>(PoolError::OperationNotFound)
            &&& final(vault).ops() == old(vault).ops()
        },
        has_id(old(vault).ops(), operation_id@) && old(vault).ops()[id_index(
            old(vault).ops(),
            operation_id@,
        )].status != STATUS_PENDING ==> {
            &&& r == Err::<(), PoolError>(PoolError::InvalidOperationStatus)
            &&& final(vault).ops() == old(vault).ops()
        },
        has_id(old(vault).ops(), operation_id@) && old(vault).ops()[id_index(
            old(vault).ops(),
            operation_id@,
        )].status == STATUS_PENDING ==> {
            &&& r == Ok::<(), PoolError>(())
            &&& {
                let i = id_index(old(vault).ops(), operation_id@);
                final(vault).ops() == old(vault).ops().update(
                    i,
                    PreparedOperation { data: operation_data, ..old(vault).ops()[i] },
                )
            }
        },
{
    let found = vault.find_operation(operation_id);
    match found {
        None => Err(PoolError::OperationNotFound),
        Some(i) => {
            if vault.prepared_operations[i].status != STATUS_PENDING {
                return Err(PoolError::InvalidOperationStatus);
            }
            let ghost before = vault.ops();
            let entry = &mut vault.prepared_operations[i];
            entry.data = operation_data;
            proof {
                lemma_update_keeps_unique(before, vault.ops(), i as int);
            }
            Ok(())
        },
    }
}

/// Extracts the operation identifier from raw instruction data laid out as
/// an 8-byte discriminator followed by the 32-byte identifier.
pub fn execute_shield_v2_raw_handler(instruction_data: &Vec<u8>) -> (r: Result<[u8; 32], PoolError>)
    ensures
        instruction_data@.len() < 40 ==> r == Err::<[u8; 32], PoolError>(
            PoolError::AccountDataTooShort,
        ),
        instruction_data@.len() >= 40 ==> {
            &&& r matches Ok(id)
            &&& r matches Ok(id) ==> id@ == instruction_data@.subrange(8, 40)
        },
{
    if instruction_data.len() < 40 {
        return Err(PoolError::AccountDataTooShort);
    }
    Ok(crate::bytes32::read_bytes32(instruction_data, 8))
}

/// Appending an operation whose identifier is fresh keeps identifiers
/// unique.
proof fn lemma_push_fresh_keeps_unique(
    before: Seq<PreparedOperation>,
    after: Seq<PreparedOperation>,
    id: Seq<u8>,
)
    requires
        forall|i: int, j: int|
            0 <= i < j < before.len() ==> (#[trigger] before[i].id)@ != (#[trigger] before[j].id)@,
        !has_id(before, id),
        after.len() == before.len() + 1,
        forall|i: int| 0 <= i < before.len() ==> after[i] == before[i],
        (after.last().id)@ == id,
    ensures
        forall|i: int, j: int|
            0 <= i < j < after.len() ==> (#[trigger] after[i].id)@ != (#[trigger] after[j].id)@,
{
    assert forall|i: int, j: int| 0 <= i < j < after.len() implies (#[trigger] after[i].id)@ != (
    #[trigger] after[j].id)@ by {
        if j == after.len() - 1 {
            assert(after[i] == before[i]);
            assert(!((before[i].id)@ == id));
        } else {
            assert(after[i] == before[i] && after[j] == before[j]);
        }
    }
}

/// Updating an entry without changing its identifier keeps identifiers
/// unique.
pub(crate) proof fn lemma_update_keeps_unique(
    before: Seq<PreparedOperation>,
    after: Seq<PreparedOperation>,
    at: int,
)
    requires
        forall|i: int, j: int|
            0 <= i < j < before.len() ==> (#[trigger] before[i].id)@ != (#[trigger] before[j].id)@,
        after.len() == before.len(),
        0 <= at < before.len(),
        forall|i: int| 0 <= i < before.len() && i != at ==> after[i] == before[i],
        (after[at].id)@ == (before[at].id)@,
    ensures
        forall|i: int, j: int|
            0 <= i < j < after.len() ==> (#[trigger] after[i].id)@ != (#[trigger] after[j].id)@,
{
    assert forall|i: int, j: int| 0 <= i < j < after.len() implies (#[trigger] after[i].id)@ != (
    #[trigger] after[j].id)@ by {
        assert((after[i].id)@ == (before[i].id)@);
        assert((after[j].id)@ == (before[j].id)@);
    }
}

} // verus!
