//! The commitment accumulator against an independent rebuild, and the pool's
//! root-history ring.

use shielded_pool::engine::{execute_shield_core, NoteLedger};
use shielded_pool::hashing::hash_pair;
use shielded_pool::ledger::PoolState;
use shielded_pool::merkle::CommitmentTree;

/// Empty-subtree hashes for levels 0..=32, recomputed from scratch.
fn zero_hashes() -> Vec<[u8; 32]> {
    let mut zeroes = vec![[0u8; 32]];
    for l in 1..=32 {
        let prev = zeroes[l - 1];
        zeroes.push(hash_pair(&prev, &prev));
    }
    zeroes
}

/// Root of the subtree of height `level` starting at leaf slot
/// `start * 2^level`, rebuilt from scratch over `leaves`.
fn rebuild_subtree(leaves: &[[u8; 32]], level: usize, start: u64, zeroes: &[[u8; 32]]) -> [u8; 32] {
    if level == 0 {
        if (start as usize) < leaves.len() {
            leaves[start as usize]
        } else {
            zeroes[0]
        }
    } else if start.checked_mul(1u64 << level).map_or(true, |base| base >= leaves.len() as u64) {
        zeroes[level]
    } else {
        let left = rebuild_subtree(leaves, level - 1, 2 * start, zeroes);
        let right = rebuild_subtree(leaves, level - 1, 2 * start + 1, zeroes);
        hash_pair(&left, &right)
    }
}

/// The full depth-32 root over `leaves`, rebuilt from scratch.
fn rebuild_root(leaves: &[[u8; 32]]) -> [u8; 32] {
    let zeroes = zero_hashes();
    rebuild_subtree(leaves, 32, 0, &zeroes)
}

fn commitment(tag: u8) -> [u8; 32] {
    let mut c = [0u8; 32];
    c[0] = tag;
    c[31] = tag.wrapping_mul(7);
    c
}

fn fresh_pool(tree: &CommitmentTree) -> PoolState {
    PoolState::new(&tree.current_root, &[1u8; 32], &[2u8; 32], &[3u8; 32], &[4u8; 32])
}

#[test]
fn empty_tree_root_matches_rebuild() {
    let tree = CommitmentTree::new();
    assert_eq!(tree.next_index, 0);
    assert_eq!(tree.current_root, rebuild_root(&[]));
}

#[test]
fn single_insert_matches_rebuild() {
    let mut tree = CommitmentTree::new();
    let c = commitment(1);
    let (index, root) = tree.insert(&c, &[0u8; 32]).expect("tree has room");
    assert_eq!(index, 0);
    assert_eq!(tree.next_index, 1);
    assert_eq!(root, rebuild_root(&[c]));
    assert_eq!(tree.current_root, root);
}

#[test]
fn shield_sequence_matches_rebuild_and_counts() {
    let mut tree = CommitmentTree::new();
    let mut pool = fresh_pool(&tree);
    let mut notes = NoteLedger::new();
    let proof = vec![9u8; 256];
    let inputs = vec![0u8; 32];
    let mut leaves: Vec<[u8; 32]> = Vec::new();
    for n in 0..5u8 {
        let c = commitment(n + 1);
        let slot = 10 * (n as u64 + 1);
        execute_shield_core(&mut pool, &mut tree, &mut notes, &proof, &inputs, &c, 100, slot)
            .expect("shield accepted");
        leaves.push(c);
        assert_eq!(tree.next_index, n as u64 + 1);
        assert_eq!(tree.current_root, rebuild_root(&leaves));
        assert_eq!(pool.current_root, tree.current_root);
    }
    assert_eq!(pool.operation_count, 5);
    assert_eq!(notes.notes.len(), 5);
    assert_eq!(tree.recent_commitments.len(), 5);
    assert_eq!(tree.recent_indices, vec![0, 1, 2, 3, 4]);
}

#[test]
fn seventeen_shields_keep_last_sixteen_roots_in_order() {
    let mut tree = CommitmentTree::new();
    let mut pool = fresh_pool(&tree);
    let mut notes = NoteLedger::new();
    let proof = vec![9u8; 256];
    let inputs = vec![0u8; 32];
    let mut all_roots: Vec<[u8; 32]> = Vec::new();
    for n in 0..17u8 {
        let c = commitment(n + 1);
        let slot = 10 * (n as u64 + 1);
        execute_shield_core(&mut pool, &mut tree, &mut notes, &proof, &inputs, &c, 100, slot)
            .expect("shield accepted");
        all_roots.push(tree.current_root);
    }
    assert_eq!(tree.next_index, 17);
    assert_eq!(pool.recent_roots.len(), 16);
    // The oldest root was evicted; the remaining sixteen sit oldest first.
    assert_eq!(pool.recent_roots.as_slice(), &all_roots[1..]);
    assert_eq!(*pool.recent_roots.last().unwrap(), pool.current_root);
    assert!(!pool.is_known_root(&all_roots[0]));
    assert!(pool.is_known_root(&all_roots[1]));
    assert!(pool.is_known_root(&all_roots[16]));
    // All seventeen roots are distinct.
    for i in 0..17 {
        for j in (i + 1)..17 {
            assert_ne!(all_roots[i], all_roots[j]);
        }
    }
}

#[test]
fn shield_rejections_leave_state_unchanged() {
    let mut tree = CommitmentTree::new();
    let mut pool = fresh_pool(&tree);
    let mut notes = NoteLedger::new();
    let proof = vec![9u8; 256];
    let inputs = vec![0u8; 32];
    let root_before = tree.current_root;

    // Amount zero is rejected.
    let r = execute_shield_core(&mut pool, &mut tree, &mut notes, &proof, &inputs, &commitment(1), 0, 10);
    assert_eq!(r, Err(shielded_pool::errors::PoolError::InvalidAmount));
    // An undersized proof is rejected.
    let r = execute_shield_core(
        &mut pool,
        &mut tree,
        &mut notes,
        &vec![9u8; 63],
        &inputs,
        &commitment(1),
        100,
        10,
    );
    assert_eq!(r, Err(shielded_pool::errors::PoolError::InvalidAmount));
    // A call inside the rate window is rejected.
    let r = execute_shield_core(&mut pool, &mut tree, &mut notes, &proof, &inputs, &commitment(1), 100, 9);
    assert_eq!(r, Err(shielded_pool::errors::PoolError::RateLimitExceeded));

    assert_eq!(tree.next_index, 0);
    assert_eq!(tree.current_root, root_before);
    assert_eq!(pool.operation_count, 0);
    assert_eq!(notes.notes.len(), 0);
}

#[test]
fn recent_leaf_cache_keeps_most_recent_entries() {
    let mut tree = CommitmentTree::new();
    for n in 0..130u32 {
        let mut c = [0u8; 32];
        c[0] = (n % 256) as u8;
        c[1] = (n / 256) as u8;
        tree.insert(&c, &[0u8; 32]).expect("tree has room");
    }
    assert_eq!(tree.recent_commitments.len(), 128);
    assert_eq!(tree.recent_indices[0], 2);
    assert_eq!(tree.recent_indices[127], 129);
}
