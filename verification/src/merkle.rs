//! The commitment accumulator: a fixed-depth incremental Merkle tree kept as
//! a frontier (the hashes along the rightmost path), giving O(depth) work and
//! storage per insertion.
//!
//! The model is `subtree_root`: the root of the tree obtained by laying the
//! inserted commitments out as leaves, padding with the per-level empty
//! hashes. `insert` is proved to keep `current_root` equal to that
//! independently recomputed root.

use vstd::prelude::*;

verus! {

use vstd::arithmetic::div_mod::{
    lemma_basic_div,
    lemma_div_denominator,
    lemma_fundamental_div_mod,
    lemma_fundamental_div_mod_converse,
};
use vstd::arithmetic::power2::{lemma2_to64, lemma_pow2_adds, lemma_pow2_pos, pow2};
use crate::errors::PoolError;
use crate::hashing::{hash_pair, hash_pair_of};

/// Depth of the commitment tree.
pub const DEPTH: usize = 32;

/// Capacity of the recent-leaf cache.
pub const MAX_CANOPY: usize = 128;

/// Number of leaves a depth-32 tree can hold.
pub const TREE_CAPACITY: u64 = 0x1_0000_0000;

/// Hash of the empty subtree of height `level`: all-zero bytes at the leaves,
/// combined pairwise above.
pub open spec fn zero_at(level: nat) -> Seq<u8>
    decreases level,
{
    if level == 0 {
        Seq::new(32, |i: int| 0u8)
    } else {
        hash_pair_of(zero_at((level - 1) as nat), zero_at((level - 1) as nat))
    }
}

/// Root of the height-`level` subtree whose leaves are
/// `leaves[start * 2^level .. (start + 1) * 2^level]`, padded with empty
/// leaves beyond `leaves.len()`.
pub open spec fn subtree_root(leaves: Seq<Seq<u8>>, level: nat, start: nat) -> Seq<u8>
    decreases level,
{
    if level == 0 {
        if start < leaves.len() {
            leaves[start as int]
        } else {
            zero_at(0)
        }
    } else {
        hash_pair_of(
            subtree_root(leaves, (level - 1) as nat, 2 * start),
            subtree_root(leaves, (level - 1) as nat, 2 * start + 1),
        )
    }
}

/// The root of the full depth-32 tree over `leaves`: what an independent
/// rebuild over the same commitments computes.
pub open spec fn tree_root_of(leaves: Seq<Seq<u8>>) -> Seq<u8> {
    subtree_root(leaves, DEPTH as nat, 0)
}

/// Bit `l` of `n`.
pub open spec fn nth_bit(n: nat, l: nat) -> nat {
    (n / pow2(l)) % 2
}

/// A subtree that starts at or beyond the number of leaves is empty.
pub proof fn lemma_subtree_beyond(leaves: Seq<Seq<u8>>, level: nat, start: nat)
    requires
        start * pow2(level) >= leaves.len(),
    ensures
        subtree_root(leaves, level, start) == zero_at(level),
    decreases level,
{
    lemma_pow2_pos(level);
    if level == 0 {
        assert(pow2(0) == 1) by {
            lemma2_to64();
        }
        assert(start >= leaves.len());
        assert(subtree_root(leaves, 0, start) == zero_at(0));
    } else {
        let lo = (level - 1) as nat;
        lemma_pow2_pos(lo);
        lemma_pow2_adds(lo, 1);
        lemma2_to64();
        let p = pow2(lo) as int;
        let s = start as int;
        let len = leaves.len() as int;
        assert(pow2(level) == p * 2);
        assert((2 * s) * p >= len && (2 * s + 1) * p >= len) by (nonlinear_arith)
            requires
                s * (p * 2) >= len,
                p > 0,
                s >= 0,
        ;
        lemma_subtree_beyond(leaves, lo, 2 * start);
        lemma_subtree_beyond(leaves, lo, 2 * start + 1);
        assert(subtree_root(leaves, level, start) == hash_pair_of(zero_at(lo), zero_at(lo)));
        assert(zero_at(level) == hash_pair_of(zero_at(lo), zero_at(lo)));
    }
}

/// A subtree wholly below the last leaf is unchanged by appending a leaf.
pub proof fn lemma_subtree_push_below(leaves: Seq<Seq<u8>>, c: Seq<u8>, level: nat, start: nat)
    requires
        (start + 1) * pow2(level) <= leaves.len(),
    ensures
        subtree_root(leaves.push(c), level, start) == subtree_root(leaves, level, start),
    decreases level,
{
    lemma_pow2_pos(level);
    if level == 0 {
        assert(pow2(0) == 1) by {
            lemma2_to64();
        }
        assert(start < leaves.len());
        assert(leaves.push(c)[start as int] == leaves[start as int]);
    } else {
        let lo = (level - 1) as nat;
        lemma_pow2_pos(lo);
        lemma_pow2_adds(lo, 1);
        lemma2_to64();
        let p = pow2(lo) as int;
        let s = start as int;
        let len = leaves.len() as int;
        assert(pow2(level) == p * 2);
        assert((2 * s + 1) * p <= len && (2 * s + 1 + 1) * p <= len) by (nonlinear_arith)
            requires
                (s + 1) * (p * 2) <= len,
                p > 0,
                s >= 0,
        ;
        lemma_subtree_push_below(leaves, c, lo, 2 * start);
        lemma_subtree_push_below(leaves, c, lo, 2 * start + 1);
        assert(subtree_root(leaves.push(c), level, start) == hash_pair_of(
            subtree_root(leaves.push(c), lo, 2 * start),
            subtree_root(leaves.push(c), lo, 2 * start + 1),
        ));
    }
}

/// What one frontier slot must hold: when bit `l` of the leaf count is set,
/// slot `l` is the root of the completed subtree just left of the insertion
/// path at height `l`.
pub open spec fn frontier_entry_ok(entry: Seq<u8>, leaves: Seq<Seq<u8>>, l: nat) -> bool {
    nth_bit(leaves.len(), l) == 1 ==> entry == subtree_root(
        leaves,
        l,
        (leaves.len() / pow2(l) - 1) as nat,
    )
}

/// The commitment accumulator. `commitments` is the ghost history of every
/// leaf inserted, in order; the executable fields are the frontier digest of
/// that history.
pub struct CommitmentTree {
    /// Index the next insertion receives; equals the number of leaves.
    pub next_index: u64,
    /// Root over all inserted commitments, empty-padded to depth 32.
    pub current_root: [u8; 32],
    /// Rightmost-path hashes, one per level.
    pub frontier: Vec<[u8; 32]>,
    /// Precomputed empty-subtree hashes, one per level.
    pub zeroes: Vec<[u8; 32]>,
    /// Most recent commitments, oldest first, at most `MAX_CANOPY`.
    pub recent_commitments: Vec<[u8; 32]>,
    /// Derived amount commitments matching `recent_commitments`.
    pub recent_amount_commitments: Vec<[u8; 32]>,
    /// Insertion indices matching `recent_commitments`.
    pub recent_indices: Vec<u64>,
    /// Every commitment ever inserted, in insertion order.
    pub commitments: Ghost<Seq<Seq<u8>>>,
}

impl CommitmentTree {
    /// The internal invariant: the executable fields agree with the ghost
    /// leaf history.
    pub open spec fn well_formed(self) -> bool {
        &&& self.zeroes@.len() == DEPTH
        &&& forall|l: int| 0 <= l < DEPTH ==> (#[trigger] self.zeroes@[l])@ == zero_at(l as nat)
        &&& self.frontier@.len() == DEPTH
        &&& self.next_index == self.commitments@.len()
        &&& self.next_index <= TREE_CAPACITY
        &&& forall|l: nat|
            l < DEPTH ==> frontier_entry_ok(
                (#[trigger] self.frontier@[l as int])@,
                self.commitments@,
                l,
            )
        &&& self.current_root@ == tree_root_of(self.commitments@)
        &&& self.recent_commitments@.len() <= MAX_CANOPY
        &&& self.recent_amount_commitments@.len() == self.recent_commitments@.len()
        &&& self.recent_indices@.len() == self.recent_commitments@.len()
    }

    /// Whether the tree has reached its capacity; further insertion is a
    /// fatal error for the pool.
    pub open spec fn is_full(self) -> bool {
        self.commitments@.len() >= TREE_CAPACITY
    }

    /// Creates an empty accumulator: no leaves, the empty-tree root, and the
    /// per-level empty hashes precomputed.
    pub fn new() -> (t: CommitmentTree)
        ensures
            t.well_formed(),
            t.commitments@ == Seq::<Seq<u8>>::empty(),
            t.next_index == 0,
            t.recent_commitments@.len() == 0,
    {
        let mut zeroes: Vec<[u8; 32]> = Vec::new();
        let zero_leaf: [u8; 32] = [0u8; 32];
        proof {
            assert(zero_leaf@ =~= zero_at(0));
        }
        zeroes.push(zero_leaf);
        let mut l: usize = 1;
        while l < DEPTH
            invariant
                1 <= l <= DEPTH,
                zeroes@.len() == l,
                forall|j: int| 0 <= j < l ==> (#[trigger] zeroes@[j])@ == zero_at(j as nat),
            decreases DEPTH - l,
        {
            let prev = zeroes[l - 1];
            let next = hash_pair(&prev, &prev);
            zeroes.push(next);
            l += 1;
        }
        let top = zeroes[DEPTH - 1];
        let root = hash_pair(&top, &top);
        let mut frontier: Vec<[u8; 32]> = Vec::new();
        let mut f: usize = 0;
        while f < DEPTH
            invariant
                f <= DEPTH,
                frontier@.len() == f,
            decreases DEPTH - f,
        {
            frontier.push([0u8; 32]);
            f += 1;
        }
        let t = CommitmentTree {
            next_index: 0,
            current_root: root,
            frontier,
            zeroes,
            recent_commitments: Vec::new(),
            recent_amount_commitments: Vec::new(),
            recent_indices: Vec::new(),
            commitments: Ghost(Seq::empty()),
        };
        proof {
            lemma_pow2_pos(DEPTH as nat);
            lemma_subtree_beyond(t.commitments@, DEPTH as nat, 0);
            assert(root@ == zero_at(DEPTH as nat));
            assert forall|l2: nat| l2 < DEPTH implies frontier_entry_ok(
                (#[trigger] t.frontier@[l2 as int])@,
                t.commitments@,
                l2,
            ) by {
                lemma_pow2_pos(l2);
                lemma_basic_div(0, pow2(l2) as int);
            }
        }
        t
    }

    /// Number of leaves inserted so far.
    pub fn len(&self) -> (r: u64)
        requires
            self.well_formed(),
        ensures
            r == self.commitments@.len(),
    {
        self.next_index
    }

    /// Inserts a commitment as the next leaf and returns its index and the
    /// new root, which provably equals the root recomputed from scratch over
    /// the whole leaf history. Fails (leaving the tree untouched) exactly
    /// when the tree is full.
    pub fn insert(&mut self, commitment: &[u8; 32], amount_commitment: &[u8; 32]) -> (r: Result<
        (u64, [u8; 32]),
        PoolError,
    >)
        requires
            old(self).well_formed(),
        ensures
            final(self).well_formed(),
            old(self).is_full() ==> {
                &&& r == Err::<(u64, [u8; 32]), PoolError>(PoolError::TreeFull)
                &&& *final(self) == *old(self)
            },
            !old(self).is_full() ==> {
                &&& r == Ok::<(u64, [u8; 32]), PoolError>(
                    (old(self).next_index, final(self).current_root),
                )
                &&& final(self).commitments@ == old(self).commitments@.push(commitment@)
                &&& final(self).next_index == old(self).next_index + 1
                &&& final(self).current_root@ == tree_root_of(
                    old(self).commitments@.push(commitment@),
                )
                &&& final(self).zeroes == old(self).zeroes
                &&& final(self).recent_commitments@ == recent_after(
                    old(self).recent_commitments@,
                    *commitment,
                )
                &&& final(self).recent_amount_commitments@ == recent_after(
                    old(self).recent_amount_commitments@,
                    *amount_commitment,
                )
                &&& final(self).recent_indices@ == recent_after(
                    old(self).recent_indices@,
                    old(self).next_index,
                )
            },
    {
        if self.next_index >= TREE_CAPACITY {
            return Err(PoolError::TreeFull);
        }
        let insert_index = self.next_index;
        let ghost orig = *self;
        let ghost n = insert_index as nat;
        let ghost new_leaves = orig.commitments@.push(commitment@);

        let mut cur: [u8; 32] = *commitment;
        let mut idx: u64 = insert_index;
        let mut level: usize = 0;
        proof {
            lemma2_to64();
            lemma_pow2_pos(0);
            assert(n / pow2(0) == n);
            assert(subtree_root(new_leaves, 0, n) == new_leaves[n as int]);
        }
        while level < DEPTH
            invariant
                level <= DEPTH,
                n == orig.commitments@.len(),
                n < TREE_CAPACITY,
                new_leaves == orig.commitments@.push(commitment@),
                orig.well_formed(),
                self.zeroes == orig.zeroes,
                self.next_index == orig.next_index,
                self.commitments == orig.commitments,
                self.current_root == orig.current_root,
                self.recent_commitments == orig.recent_commitments,
                self.recent_amount_commitments == orig.recent_amount_commitments,
                self.recent_indices == orig.recent_indices,
                self.frontier@.len() == DEPTH,
                idx == n / pow2(level as nat),
                cur@ == subtree_root(new_leaves, level as nat, n / pow2(level as nat)),
                forall|l: int|
                    level <= l < DEPTH ==> #[trigger] self.frontier@[l] == orig.frontier@[l],
                forall|l: nat|
                    l < level && nth_bit(n, l) == 0 ==> (#[trigger] self.frontier@[l as int])@
                        == subtree_root(new_leaves, l, n / pow2(l)),
                forall|l: nat|
                    l < level && nth_bit(n, l) == 1 ==> #[trigger] self.frontier@[l as int]
                        == orig.frontier@[l as int],
            decreases DEPTH - level,
        {
            let ghost lvl = level as nat;
            let ghost q = n / pow2(lvl);
            let ghost p = pow2(lvl) as int;
            let ghost rem = n as int % p;
            proof {
                lemma_pow2_pos(lvl);
                lemma_pow2_pos(lvl + 1);
                lemma_pow2_adds(lvl, 1);
                lemma2_to64();
                lemma_div_denominator(n as int, pow2(lvl) as int, 2);
                assert(n / pow2(lvl + 1) == q / 2);
                lemma_fundamental_div_mod(n as int, pow2(lvl) as int);
                assert(n as int == p * (q as int) + rem);
                assert(0 <= rem < p);
                assert(n < (q + 1) * p && q * p <= n) by (nonlinear_arith)
                    requires
                        n as int == p * (q as int) + rem,
                        0 <= rem < p,
                ;
            }
            if idx % 2 == 0 {
                // Left child: the right sibling is an empty subtree.
                let z = self.zeroes[level];
                self.frontier[level] = cur;
                proof {
                    // q is even, so the parent subtree at level+1 starts at q/2
                    // with children q and q+1; the right child holds no leaf.
                    lemma_fundamental_div_mod(q as int, 2);
                    assert(2 * (q / 2) == q);
                    assert((q + 1) * pow2(lvl) >= n + 1);
                    lemma_subtree_beyond(new_leaves, lvl, q + 1);
                    assert(subtree_root(new_leaves, lvl + 1, q / 2) == hash_pair_of(
                        subtree_root(new_leaves, lvl, q),
                        zero_at(lvl),
                    ));
                }
                cur = hash_pair(&cur, &z);
            } else {
                // Right child: the completed left sibling sits in the frontier.
                let left = self.frontier[level];
                proof {
                    lemma_fundamental_div_mod(q as int, 2);
                    assert(2 * (q / 2) + 1 == q);
                    assert(nth_bit(orig.commitments@.len(), lvl) == 1);
                    assert(frontier_entry_ok(
                        (orig.frontier@[lvl as int])@,
                        orig.commitments@,
                        lvl,
                    ));
                    assert(left@ == subtree_root(orig.commitments@, lvl, (q - 1) as nat));
                    assert(((q - 1) as nat + 1) * pow2(lvl) <= orig.commitments@.len());
                    lemma_subtree_push_below(orig.commitments@, commitment@, lvl, (q - 1) as nat);
                    assert(left@ == subtree_root(new_leaves, lvl, (q - 1) as nat));
                    assert(subtree_root(new_leaves, lvl + 1, q / 2) == hash_pair_of(
                        subtree_root(new_leaves, lvl, (q - 1) as nat),
                        subtree_root(new_leaves, lvl, q),
                    ));
                }
                cur = hash_pair(&left, &cur);
            }
            idx = idx / 2;
            level += 1;
        }
        proof {
            // At the top the insertion path subtree is the whole tree.
            lemma2_to64();
            lemma_basic_div(n as int, pow2(DEPTH as nat) as int);
            assert(cur@ == tree_root_of(new_leaves));
        }
        self.current_root = cur;
        self.next_index = insert_index + 1;
        self.commitments = Ghost(new_leaves);
        if self.recent_commitments.len() >= MAX_CANOPY {
            self.recent_commitments.remove(0);
            self.recent_amount_commitments.remove(0);
            self.recent_indices.remove(0);
        }
        self.recent_commitments.push(*commitment);
        self.recent_amount_commitments.push(*amount_commitment);
        self.recent_indices.push(insert_index);
        proof {
            lemma_frontier_after_push(orig, *self, commitment@, n);
        }
        Ok((insert_index, self.current_root))
    }
}


/// The accumulator's standing law: after any sequence of successful
/// insertions, `next_index` equals the number of commitments ever inserted
/// and `current_root` equals the root recomputed from scratch, by the same
/// hash, over that whole history.
pub proof fn lemma_tree_tracks_history(t: CommitmentTree)
    requires
        t.well_formed(),
    ensures
        t.next_index == t.commitments@.len(),
        t.current_root@ == tree_root_of(t.commitments@),
{
}

/// The recent-leaf cache after one insertion: append, evicting the oldest
/// entry once `MAX_CANOPY` entries are held.
pub open spec fn recent_after<T>(cache: Seq<T>, entry: T) -> Seq<T> {
    if cache.len() >= MAX_CANOPY {
        cache.skip(1).push(entry)
    } else {
        cache.push(entry)
    }
}

/// After appending leaf `n`, every frontier slot again satisfies
/// `frontier_entry_ok` for the grown history.
proof fn lemma_frontier_after_push(orig: CommitmentTree, now: CommitmentTree, c: Seq<u8>, n: nat)
    requires
        orig.well_formed(),
        n == orig.commitments@.len(),
        n < TREE_CAPACITY,
        now.commitments@ == orig.commitments@.push(c),
        now.frontier@.len() == DEPTH,
        forall|l: nat|
            l < DEPTH && nth_bit(n, l) == 0 ==> (#[trigger] now.frontier@[l as int])@
                == subtree_root(now.commitments@, l, n / pow2(l)),
        forall|l: nat|
            l < DEPTH && nth_bit(n, l) == 1 ==> #[trigger] now.frontier@[l as int]
                == orig.frontier@[l as int],
    ensures
        forall|l: nat|
            l < DEPTH ==> frontier_entry_ok(
                (#[trigger] now.frontier@[l as int])@,
                now.commitments@,
                l,
            ),
{
    let m = n + 1;
    assert forall|l: nat| l < DEPTH implies frontier_entry_ok(
        (#[trigger] now.frontier@[l as int])@,
        now.commitments@,
        l,
    ) by {
        lemma_pow2_pos(l);
        let p = pow2(l) as int;
        let q = n as int / p;
        let r = n as int % p;
        lemma_fundamental_div_mod(n as int, p);
        assert(n as int == p * q + r);
        if r == p - 1 {
            // The low l bits of n are all ones: the quotient steps up.
            assert(m as int == (q + 1) * p + 0) by (nonlinear_arith)
                requires
                    m == n + 1,
                    n as int == p * q + r,
                    r == p - 1,
            ;
            lemma_fundamental_div_mod_converse(m as int, p, q + 1, 0);
            assert(m / pow2(l) == q + 1);
            if (q + 1) % 2 == 1 {
                // Bit l of n was 0: the loop stored the completed subtree.
                assert(q % 2 == 0);
                assert(nth_bit(n, l) == 0);
                assert((now.frontier@[l as int])@ == subtree_root(now.commitments@, l, q as nat));
                assert((m / pow2(l) - 1) as nat == q as nat);
            }
        } else {
            // The quotient is unchanged; so is the required slot value.
            assert(m as int == q * p + (r + 1)) by (nonlinear_arith)
                requires
                    m == n + 1,
                    n as int == p * q + r,
            ;
            lemma_fundamental_div_mod_converse(m as int, p, q, r + 1);
            assert(m / pow2(l) == q);
            if q % 2 == 1 {
                assert(nth_bit(n, l) == 1);
                assert(now.frontier@[l as int] == orig.frontier@[l as int]);
                assert(frontier_entry_ok(
                    (orig.frontier@[l as int])@,
                    orig.commitments@,
                    l,
                ));
                assert((orig.frontier@[l as int])@ == subtree_root(
                    orig.commitments@,
                    l,
                    (q - 1) as nat,
                ));
                assert(((q - 1) as nat + 1) * pow2(l) == q * pow2(l)) by (nonlinear_arith)
                    requires
                        q >= 1,
                ;
                assert(q * pow2(l) <= n) by (nonlinear_arith)
                    requires
                        n == pow2(l) * q + n % pow2(l),
                        n % pow2(l) >= 0,
                ;
                lemma_subtree_push_below(orig.commitments@, c, l, (q - 1) as nat);
            }
        }
    }
}

} // verus!
