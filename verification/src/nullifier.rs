//! The nullifier registry: an append-only set of spent-note tags. A
//! nullifier, once registered, is never removed and never registered again.

use vstd::prelude::*;

verus! {

use crate::bytes32::bytes32_eq;
use crate::errors::PoolError;

/// Append-only registry of nullifiers, in registration order, without
/// duplicates.
pub struct NullifierSet {
    /// The registered nullifiers, oldest first.
    pub nullifiers: Vec<[u8; 32]>,
}

/// The byte sequences held by a vector of 32-byte values.
pub open spec fn views_of(s: Seq<[u8; 32]>) -> Seq<Seq<u8>> {
    s.map_values(|a: [u8; 32]| a@)
}

impl NullifierSet {
    /// The registry's model: the sequence of registered nullifiers.
    pub open spec fn view_seq(self) -> Seq<Seq<u8>> {
        views_of(self.nullifiers@)
    }

    /// No nullifier appears twice.
    pub open spec fn well_formed(self) -> bool {
        forall|i: int, j: int|
            0 <= i < j < self.view_seq().len() ==> self.view_seq()[i] != self.view_seq()[j]
    }

    /// Creates an empty registry.
    pub fn new() -> (s: NullifierSet)
        ensures
            s.well_formed(),
            s.view_seq() == Seq::<Seq<u8>>::empty(),
    {
        let s = NullifierSet { nullifiers: Vec::new() };
        proof {
            assert(s.view_seq() =~= Seq::<Seq<u8>>::empty());
        }
        s
    }

    /// Number of registered nullifiers.
    pub fn len(&self) -> (r: usize)
        ensures
            r == self.view_seq().len(),
    {
        self.nullifiers.len()
    }

    /// Whether `nullifier` has been registered.
    pub fn contains(&self, nullifier: &[u8; 32]) -> (r: bool)
        ensures
            r <==> self.view_seq().contains(nullifier@),
    {
        let mut i: usize = 0;
        let n = self.nullifiers.len();
        while i < n
            invariant
                i <= n,
                n == self.nullifiers@.len(),
                forall|j: int| 0 <= j < i ==> (#[trigger] self.nullifiers@[j])@ != nullifier@,
            decreases n - i,
        {
            if bytes32_eq(&self.nullifiers[i], nullifier) {
                proof {
                    assert(self.view_seq()[i as int] == nullifier@);
                }
                return true;
            }
            i += 1;
        }
        proof {
            assert forall|j: int| 0 <= j < self.view_seq().len() implies self.view_seq()[j]
                != nullifier@ by {
                assert((self.nullifiers@[j])@ != nullifier@);
            }
        }
        false
    }

    /// Registers `nullifier`. Fails with `NullifierAlreadyUsed`, leaving the
    /// registry unchanged, exactly when it was registered before; otherwise
    /// appends it, growing the registry by exactly one entry.
    pub fn insert(&mut self, nullifier: &[u8; 32]) -> (r: Result<(), PoolError>)
        requires
            old(self).well_formed(),
        ensures
            final(self).well_formed(),
            old(self).view_seq().contains(nullifier@) ==> {
                &&& r == Err::<(), PoolError>(PoolError::NullifierAlreadyUsed)
                &&& final(self).view_seq() == old(self).view_seq()
            },
            !old(self).view_seq().contains(nullifier@) ==> {
                &&& r == Ok::<(), PoolError>(())
                &&& final(self).view_seq() == old(self).view_seq().push(nullifier@)
            },
            final(self).view_seq().contains(nullifier@),
    {
        if self.contains(nullifier) {
            return Err(PoolError::NullifierAlreadyUsed);
        }
        self.nullifiers.push(*nullifier);
        proof {
            assert(self.view_seq() =~= old(self).view_seq().push(nullifier@));
            let ns = self.view_seq();
            assert(ns[ns.len() - 1] == nullifier@);
            assert forall|i: int, j: int| 0 <= i < j < ns.len() implies ns[i] != ns[j] by {
                if j < ns.len() - 1 {
                    assert(old(self).view_seq()[i] != old(self).view_seq()[j]);
                } else {
                    assert(old(self).view_seq()[i] == ns[i]);
                    assert(!old(self).view_seq().contains(nullifier@));
                }
            }
        }
        Ok(())
    }
}

/// A nullifier inserted once can never be inserted again: over the
/// registry's model, one successful registration makes the value a member,
/// a member is refused by `insert`, and the two calls together grow the
/// registry by exactly one entry.
pub proof fn lemma_nullifier_insert_once(registered: Seq<Seq<u8>>, x: Seq<u8>)
    requires
        !registered.contains(x),
    ensures
        registered.push(x).contains(x),
        registered.push(x).len() == registered.len() + 1,
{
    assert(registered.push(x)[registered.len() as int] == x);
}

} // verus!
