//! Pool-wide counters: the current root, the bounded root history that keeps
//! slightly stale proofs verifiable, rate limiting, and operation counts.

use vstd::prelude::*;

verus! {

use crate::errors::PoolError;
use crate::operations::OperationType;

/// Capacity of the root-history ring.
pub const ROOT_HISTORY: usize = 16;

/// Fewest slots between two shield operations.
pub const MIN_SLOTS_BETWEEN_SHIELD: u64 = 10;
/// Fewest slots between two unshield operations.
pub const MIN_SLOTS_BETWEEN_UNSHIELD: u64 = 10;
/// Fewest slots between two transfer operations.
pub const MIN_SLOTS_BETWEEN_TRANSFER: u64 = 5;
/// Cap on operations within one slot.
pub const MAX_OPERATIONS_PER_SLOT: u64 = 100;

/// The minimum slot gap enforced before an operation of this kind.
pub open spec fn min_slots_for(kind: OperationType) -> u64 {
    match kind {
        OperationType::Shield => MIN_SLOTS_BETWEEN_SHIELD,
        OperationType::Unshield => MIN_SLOTS_BETWEEN_UNSHIELD,
        OperationType::Transfer => MIN_SLOTS_BETWEEN_TRANSFER,
    }
}

/// Accepts exactly when at least the kind's minimum number of slots has
/// passed since the last operation.
pub fn check_rate_limit(
    last_operation_slot: u64,
    operation_type: OperationType,
    current_slot: u64,
) -> (r: Result<(), PoolError>)
    ensures
        r is Ok <==> last_operation_slot + min_slots_for(operation_type) <= current_slot,
        r is Err ==> r == Err::<(), PoolError>(PoolError::RateLimitExceeded),
{
    let min_slots = match operation_type {
        OperationType::Shield => MIN_SLOTS_BETWEEN_SHIELD,
        OperationType::Unshield => MIN_SLOTS_BETWEEN_UNSHIELD,
        OperationType::Transfer => MIN_SLOTS_BETWEEN_TRANSFER,
    };
    if current_slot >= last_operation_slot && current_slot - last_operation_slot >= min_slots {
        Ok(())
    } else {
        Err(PoolError::RateLimitExceeded)
    }
}

/// The tail of the full root history that the ring is required to retain:
/// the most recent `ROOT_HISTORY` roots, oldest first.
pub open spec fn retained_roots(history: Seq<Seq<u8>>) -> Seq<Seq<u8>> {
    if history.len() >= ROOT_HISTORY {
        history.skip(history.len() - ROOT_HISTORY)
    } else {
        history
    }
}

/// Aggregate pool state. `roots_history` is the ghost sequence of every root
/// the pool has ever produced, in order; the executable ring retains the
/// most recent sixteen.
pub struct PoolState {
    /// Root produced by the latest insertion.
    pub current_root: [u8; 32],
    /// The most recent roots, oldest first, at most `ROOT_HISTORY`.
    pub recent_roots: Vec<[u8; 32]>,
    /// Mint whose value this pool shields.
    pub origin_mint: [u8; 32],
    /// Custodial vault holding the pool's deposits.
    pub vault: [u8; 32],
    /// Twin mint, where one was registered.
    pub twin_mint: Option<[u8; 32]>,
    /// Reference to the active verifying-key record.
    pub verifying_key: [u8; 32],
    /// Digest of the active verifying key's bytes.
    pub verifying_key_hash: [u8; 32],
    /// Slot of the most recent accepted operation.
    pub last_operation_slot: u64,
    /// Number of accepted operations.
    pub operation_count: u64,
    /// Every root ever produced, in order.
    pub roots_history: Ghost<Seq<Seq<u8>>>,
}

impl PoolState {
    /// The byte sequences held by the ring, oldest first.
    pub open spec fn recent_roots_view(self) -> Seq<Seq<u8>> {
        self.recent_roots@.map_values(|a: [u8; 32]| a@)
    }

    /// The ring retains exactly the most recent sixteen roots, and the
    /// latest root is both `current_root` and the ring's last entry.
    pub open spec fn well_formed(self) -> bool {
        &&& self.recent_roots_view() == retained_roots(self.roots_history@)
        &&& self.roots_history@.len() > 0 ==> self.current_root@ == self.roots_history@.last()
    }

    /// Creates the pool state for a fresh pool whose accumulator reports
    /// `initial_root`.
    pub fn new(
        initial_root: &[u8; 32],
        origin_mint: &[u8; 32],
        vault: &[u8; 32],
        verifying_key: &[u8; 32],
        verifying_key_hash: &[u8; 32],
    ) -> (p: PoolState)
        ensures
            p.well_formed(),
            p.roots_history@ == Seq::<Seq<u8>>::empty(),
            p.current_root == initial_root,
            p.origin_mint == origin_mint,
            p.vault == vault,
            p.verifying_key == verifying_key,
            p.verifying_key_hash == verifying_key_hash,
            p.last_operation_slot == 0,
            p.operation_count == 0,
    {
        let p = PoolState {
            current_root: *initial_root,
            recent_roots: Vec::new(),
            origin_mint: *origin_mint,
            vault: *vault,
            twin_mint: None,
            verifying_key: *verifying_key,
            verifying_key_hash: *verifying_key_hash,
            last_operation_slot: 0,
            operation_count: 0,
            roots_history: Ghost(Seq::empty()),
        };
        proof {
            assert(p.recent_roots_view() =~= retained_roots(p.roots_history@));
        }
        p
    }

    /// Records a newly produced root: it becomes `current_root` and the last
    /// ring entry; once the ring holds sixteen roots the oldest is evicted.
    pub fn record_root(&mut self, root: &[u8; 32])
        requires
            old(self).well_formed(),
        ensures
            final(self).well_formed(),
            final(self).roots_history@ == old(self).roots_history@.push(root@),
            final(self).current_root == root,
            final(self).recent_roots_view() == retained_roots(
                old(self).roots_history@.push(root@),
            ),
            final(self).recent_roots_view().last() == root@,
            final(self).last_operation_slot == old(self).last_operation_slot,
            final(self).operation_count == old(self).operation_count,
            final(self).origin_mint == old(self).origin_mint,
            final(self).vault == old(self).vault,
            final(self).verifying_key == old(self).verifying_key,
            final(self).verifying_key_hash == old(self).verifying_key_hash,
    {
        let ghost old_history = self.roots_history@;
        if self.recent_roots.len() >= ROOT_HISTORY {
            self.recent_roots.remove(0);
        }
        self.recent_roots.push(*root);
        self.current_root = *root;
        self.commit_root_history(Ghost(root@));
        proof {
            let new_history = old_history.push(root@);
            let rr = retained_roots(new_history);
            let old_view = old(self).recent_roots_view();
            assert(old_view == retained_roots(old_history));
            assert(old_view.len() == old(self).recent_roots@.len());
            assert(retained_roots(old_history).len() == if old_history.len() >= ROOT_HISTORY {
                ROOT_HISTORY as int
            } else {
                old_history.len() as int
            });
            assert(old(self).recent_roots@.len() >= ROOT_HISTORY <==> old_history.len()
                >= ROOT_HISTORY);
            assert(self.recent_roots_view().len() == rr.len());
            assert forall|j: int|
                0 <= j < rr.len() implies self.recent_roots_view()[j] == rr[j] by {
                if old(self).recent_roots@.len() >= ROOT_HISTORY {
                    let base = old_history.len() - ROOT_HISTORY;
                    if j < ROOT_HISTORY - 1 {
                        assert(self.recent_roots@[j] == old(self).recent_roots@[j + 1]);
                        assert(old_view[j + 1] == old_history[base + j + 1]);
                        assert(rr[j] == new_history[base + 1 + j]);
                    } else {
                        assert(self.recent_roots@[j] == *root);
                        assert(rr[j] == new_history[new_history.len() - 1]);
                    }
                } else {
                    if j < old(self).recent_roots@.len() {
                        assert(self.recent_roots@[j] == old(self).recent_roots@[j]);
                        assert(old_view[j] == old_history[j]);
                    } else {
                        assert(self.recent_roots@[j] == *root);
                    }
                }
            }
            assert(self.recent_roots_view() =~= rr);
        }
    }

    /// Extends the ghost root history by one root.
    fn commit_root_history(&mut self, root: Ghost<Seq<u8>>)
        ensures
            final(self).roots_history@ == old(self).roots_history@.push(root@),
            final(self).current_root == old(self).current_root,
            final(self).recent_roots == old(self).recent_roots,
            final(self).origin_mint == old(self).origin_mint,
            final(self).vault == old(self).vault,
            final(self).twin_mint == old(self).twin_mint,
            final(self).verifying_key == old(self).verifying_key,
            final(self).verifying_key_hash == old(self).verifying_key_hash,
            final(self).last_operation_slot == old(self).last_operation_slot,
            final(self).operation_count == old(self).operation_count,
    {
        self.roots_history = Ghost(self.roots_history@.push(root@));
    }

    /// Whether `root` is one of the retained recent roots, so that a proof
    /// generated against it is still acceptable.
    pub fn is_known_root(&self, root: &[u8; 32]) -> (r: bool)
        ensures
            r <==> self.recent_roots_view().contains(root@),
    {
        let mut i: usize = 0;
        let n = self.recent_roots.len();
        while i < n
            invariant
                i <= n,
                n == self.recent_roots@.len(),
                forall|j: int| 0 <= j < i ==> (#[trigger] self.recent_roots@[j])@ != root@,
            decreases n - i,
        {
            if crate::bytes32::bytes32_eq(&self.recent_roots[i], root) {
                proof {
                    assert(self.recent_roots_view()[i as int] == root@);
                }
                return true;
            }
            i += 1;
        }
        proof {
            assert forall|j: int|
                0 <= j < self.recent_roots_view().len() implies self.recent_roots_view()[j]
                != root@ by {
                assert((self.recent_roots@[j])@ != root@);
            }
        }
        false
    }

    /// Counts one accepted operation at `slot`. Fails, changing nothing,
    /// exactly when the counter would overflow; overflow is fatal for the
    /// pool and is never silently wrapped.
    pub fn record_operation(&mut self, slot: u64) -> (r: Result<(), PoolError>)
        requires
            old(self).well_formed(),
        ensures
            final(self).well_formed(),
            old(self).operation_count == u64::MAX ==> {
                &&& r == Err::<(), PoolError>(PoolError::ArithmeticOverflow)
                &&& *final(self) == *old(self)
            },
            old(self).operation_count < u64::MAX ==> {
                &&& r == Ok::<(), PoolError>(())
                &&& *final(self) == (PoolState {
                    operation_count: (old(self).operation_count + 1) as u64,
                    last_operation_slot: slot,
                    ..*old(self)
                })
            },
    {
        if self.operation_count == u64::MAX {
            return Err(PoolError::ArithmeticOverflow);
        }
        self.operation_count = self.operation_count + 1;
        self.last_operation_slot = slot;
        Ok(())
    }
}

/// Rejects an operation that references a root outside the retained window:
/// proofs generated against an evicted root are no longer acceptable.
pub fn check_root_reference(pool: &PoolState, root: &[u8; 32]) -> (r: Result<(), PoolError>)
    ensures
        r is Ok <==> pool.recent_roots_view().contains(root@),
        r is Err ==> r == Err::<(), PoolError>(PoolError::RootMismatch),
{
    if pool.is_known_root(root) {
        Ok(())
    } else {
        Err(PoolError::RootMismatch)
    }
}

} // verus!
