//! The collision-resistant hash backing operation identifiers, the Merkle
//! accumulator's node combiner, and the attestation digests.
//!
//! The hash itself is SHA-256 from the `sha2` crate; the engine treats its
//! value as the abstract function `digest_of` and never restates the
//! algorithm.

use vstd::prelude::*;

verus! {

/// The SHA-256 digest of a byte string. The digest is a function of the
/// input bytes alone; nothing else is assumed of it.
pub uninterp spec fn digest_of(data: Seq<u8>) -> Seq<u8>;

/// Relies on sha2::Sha256 (Digest::new, Digest::update, Digest::finalize):
/// the 32-byte SHA-256 digest of the input, a function of the input bytes
/// alone.
#[verifier::external_body]
pub(crate) fn hash_data(data: &[u8]) -> (r: [u8; 32])
    ensures
        r@ == digest_of(data@),
{
    let mut hasher = <sha2::Sha256 as sha2::Digest>::new();
    sha2::Digest::update(&mut hasher, data);
    let out = sha2::Digest::finalize(hasher);
    let mut r = [0u8; 32];
    r.copy_from_slice(&out);
    r
}

/// The combined node value for a left/right child pair: the digest of the
/// 64-byte concatenation, order-sensitive.
pub open spec fn hash_pair_of(left: Seq<u8>, right: Seq<u8>) -> Seq<u8> {
    digest_of(left + right)
}

/// Combines two 32-byte nodes into their parent node.
pub fn hash_pair(left: &[u8; 32], right: &[u8; 32]) -> (r: [u8; 32])
    ensures
        r@ == hash_pair_of(left@, right@),
{
    let mut data: Vec<u8> = Vec::new();
    crate::bytes32::extend_from_bytes32(&mut data, left);
    crate::bytes32::extend_from_bytes32(&mut data, right);
    proof {
        assert(data@ =~= left@ + right@);
    }
    hash_data(data.as_slice())
}

} // verus!
