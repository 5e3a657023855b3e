//! Signed attestations from the trusted external verifier: a statement that
//! a given proof, public-input blob, and verifying key were checked, bound
//! together by their digests and an Ed25519 signature over the canonical
//! encoding.

use vstd::prelude::*;

verus! {

use vstd::bytes::{spec_u64_from_le_bytes, spec_u64_to_le_bytes, u64_from_le_bytes, u64_to_le_bytes};
use crate::bytes32::{bytes32_eq, extend_from_bytes32, extend_from_bytes64, read_bytes32, read_bytes64};
use crate::hashing::{digest_of, hash_data};

/// Oldest age, in seconds, at which an attestation is still accepted.
pub const ATTESTATION_FRESHNESS_SECS: i64 = 300;

/// Serialized size of an attestation in bytes: three 32-byte digests, one
/// validity byte, an 8-byte timestamp, and a 64-byte signature.
pub const ATTESTATION_LEN: usize = 169;

/// Whether an Ed25519 signature `sig` over `msg` checks out under the public
/// key encoded by `key`; false whenever `key` does not encode a valid point.
/// The outcome is a function of the three byte strings alone.
pub uninterp spec fn sig_valid_of(key: Seq<u8>, msg: Seq<u8>, sig: Seq<u8>) -> bool;

/// The Ed25519 signature the holder of secret key `key` produces over `msg`;
/// deterministic, a function of the key and message bytes alone.
pub uninterp spec fn signature_of(key: Seq<u8>, msg: Seq<u8>) -> Seq<u8>;

/// Relies on ed25519_dalek::VerifyingKey::from_bytes and
/// ed25519_dalek::VerifyingKey::verify_strict: strict signature
/// verification, deterministic in the key, message, and signature bytes;
/// a byte string that is no valid public key verifies nothing.
#[verifier::external_body]
pub(crate) fn ed25519_verify(key: &[u8; 32], msg: &[u8], sig: &[u8; 64]) -> (r: bool)
    ensures
        r == sig_valid_of(key@, msg@, sig@),
{
    match ed25519_dalek::VerifyingKey::from_bytes(key) {
        Ok(vk) => {
            let signature = ed25519_dalek::Signature::from_bytes(sig);
            vk.verify_strict(msg, &signature).is_ok()
        },
        Err(_) => false,
    }
}

/// Relies on ed25519_dalek::SigningKey::from_bytes and
/// ed25519_dalek::Signer::sign: deterministic Ed25519 signing, a function of
/// the secret-key and message bytes alone.
#[verifier::external_body]
pub(crate) fn ed25519_sign(key: &[u8; 32], msg: &[u8]) -> (r: [u8; 64])
    ensures
        r@ == signature_of(key@, msg@),
{
    let signing_key = ed25519_dalek::SigningKey::from_bytes(key);
    let signature = ed25519_dalek::Signer::sign(&signing_key, msg);
    signature.to_bytes()
}

/// A signed statement from the external verifier: the digests of what was
/// checked, the verdict, when it was issued, and the signature over the
/// canonical message.
#[derive(Clone)]
pub struct VerificationAttestation {
    /// Digest of the proof that was checked.
    pub proof_hash: [u8; 32],
    /// Digest of the public inputs that were checked.
    pub public_inputs_hash: [u8; 32],
    /// Digest of the verifying key that was used.
    pub verifying_key_hash: [u8; 32],
    /// The verifier's verdict.
    pub is_valid: bool,
    /// Unix seconds at which the attestation was issued.
    pub timestamp: i64,
    /// Ed25519 signature over `attestation_message`.
    pub signature: [u8; 64],
}

/// The canonical message the external verifier signs: the three digests, a
/// validity byte, and the little-endian timestamp.
pub open spec fn attestation_message(a: VerificationAttestation) -> Seq<u8> {
    a.proof_hash@ + a.public_inputs_hash@ + a.verifying_key_hash@ + seq![
        if a.is_valid {
            1u8
        } else {
            0u8
        },
    ] + spec_u64_to_le_bytes(a.timestamp as u64)
}

/// The 169-byte wire encoding of an attestation: the signed message followed
/// by the signature.
pub open spec fn attestation_bytes(a: VerificationAttestation) -> Seq<u8> {
    attestation_message(a) + a.signature@
}

/// Whether `a` is the attestation encoded by the 169-byte string `s`.
pub open spec fn attestation_matches(a: VerificationAttestation, s: Seq<u8>) -> bool {
    &&& s.len() == ATTESTATION_LEN
    &&& a.proof_hash@ == s.subrange(0, 32)
    &&& a.public_inputs_hash@ == s.subrange(32, 64)
    &&& a.verifying_key_hash@ == s.subrange(64, 96)
    &&& a.is_valid == (s[96] != 0)
    &&& a.timestamp == spec_u64_from_le_bytes(s.subrange(97, 105)) as i64
    &&& a.signature@ == s.subrange(105, 169)
}

/// Whether an attestation issued at `timestamp` is fresh at `now`: its age
/// is nonnegative and within the freshness window.
pub open spec fn attestation_fresh(timestamp: i64, now: i64) -> bool {
    &&& now - timestamp >= 0
    &&& now - timestamp <= ATTESTATION_FRESHNESS_SECS
}

impl VerificationAttestation {
    /// The canonical message covered by the signature.
    pub fn message_to_sign(&self) -> (r: Vec<u8>)
        ensures
            r@ == attestation_message(*self),
    {
        let mut message: Vec<u8> = Vec::new();
        extend_from_bytes32(&mut message, &self.proof_hash);
        extend_from_bytes32(&mut message, &self.public_inputs_hash);
        extend_from_bytes32(&mut message, &self.verifying_key_hash);
        message.push(if self.is_valid { 1u8 } else { 0u8 });
        let mut ts = u64_to_le_bytes(self.timestamp as u64);
        message.append(&mut ts);
        proof {
            assert(message@ =~= attestation_message(*self));
        }
        message
    }

    /// Whether `signature` is the trusted signer's signature over the
    /// canonical message.
    pub fn verify_signature(&self, verifying_key: &[u8; 32]) -> (r: bool)
        ensures
            r == sig_valid_of(verifying_key@, attestation_message(*self), self.signature@),
    {
        let message = self.message_to_sign();
        ed25519_verify(verifying_key, message.as_slice(), &self.signature)
    }

    /// Whether the three digests match the data offered for verification.
    pub fn verify_hashes(&self, proof: &[u8], public_inputs: &[u8], verifying_key: &[u8]) -> (r:
        bool)
        ensures
            r <==> {
                &&& digest_of(proof@) == self.proof_hash@
                &&& digest_of(public_inputs@) == self.public_inputs_hash@
                &&& digest_of(verifying_key@) == self.verifying_key_hash@
            },
    {
        let proof_hash = hash_data(proof);
        let public_inputs_hash = hash_data(public_inputs);
        let verifying_key_hash = hash_data(verifying_key);
        bytes32_eq(&proof_hash, &self.proof_hash) && bytes32_eq(
            &public_inputs_hash,
            &self.public_inputs_hash,
        ) && bytes32_eq(&verifying_key_hash, &self.verifying_key_hash)
    }

    /// Whether the attestation is fresh at `now`.
    pub fn is_recent(&self, now: i64) -> (r: bool)
        ensures
            r == attestation_fresh(self.timestamp, now),
    {
        let age: i128 = (now as i128) - (self.timestamp as i128);
        0 <= age && age <= ATTESTATION_FRESHNESS_SECS as i128
    }

    /// The 169-byte wire encoding.
    pub fn serialize(&self) -> (r: Vec<u8>)
        ensures
            r@ == attestation_bytes(*self),
            r@.len() == ATTESTATION_LEN,
    {
        let mut out = self.message_to_sign();
        extend_from_bytes64(&mut out, &self.signature);
        proof {
            vstd::bytes::lemma_auto_spec_u64_to_from_le_bytes();
            assert(out@ =~= attestation_bytes(*self));
        }
        out
    }

    /// Decodes a 169-byte wire encoding; rejects any other length.
    pub fn deserialize(data: &Vec<u8>) -> (r: Option<VerificationAttestation>)
        ensures
            r is Some <==> data@.len() == ATTESTATION_LEN,
            r matches Some(a) ==> attestation_matches(a, data@),
    {
        if data.len() != ATTESTATION_LEN {
            return None;
        }
        let a = parse_attestation(data, 0);
        proof {
            assert(data@.subrange(0, 169) =~= data@);
        }
        Some(a)
    }
}


/// The wire codec round-trips: decoding an attestation's 169-byte encoding
/// recovers every field of the attestation.
pub proof fn lemma_attestation_codec_round_trip(a: VerificationAttestation)
    ensures
        attestation_matches(a, attestation_bytes(a)),
{
    vstd::bytes::lemma_auto_spec_u64_to_from_le_bytes();
    assert(forall|y: i64| #![trigger (y as u64)] ((y as u64) as i64) == y) by (bit_vector);
    let s = attestation_bytes(a);
    assert(s.len() == ATTESTATION_LEN);
    assert(s.subrange(0, 32) =~= a.proof_hash@);
    assert(s.subrange(32, 64) =~= a.public_inputs_hash@);
    assert(s.subrange(64, 96) =~= a.verifying_key_hash@);
    assert(s[96] == if a.is_valid { 1u8 } else { 0u8 });
    assert(s.subrange(97, 105) =~= spec_u64_to_le_bytes(a.timestamp as u64));
    assert(spec_u64_from_le_bytes(s.subrange(97, 105)) as i64 == a.timestamp);
    assert(s.subrange(105, 169) =~= a.signature@);
}

/// Decodes the attestation laid out at `offset` in `data`.
pub fn parse_attestation(data: &Vec<u8>, offset: usize) -> (r: VerificationAttestation)
    requires
        offset + ATTESTATION_LEN <= data@.len(),
    ensures
        attestation_matches(r, data@.subrange(offset as int, offset + ATTESTATION_LEN)),
{
    let n: usize = data.len();
    assert(offset + ATTESTATION_LEN <= n);
    let ghost s = data@.subrange(offset as int, offset + ATTESTATION_LEN);
    let proof_hash = read_bytes32(data, offset);
    let public_inputs_hash = read_bytes32(data, offset + 32);
    let verifying_key_hash = read_bytes32(data, offset + 64);
    let is_valid = data[offset + 96] != 0;
    let mut ts_bytes: Vec<u8> = Vec::new();
    crate::bytes32::extend_from_range(&mut ts_bytes, data, offset + 97, 8);
    let timestamp = #[verifier::truncate] (u64_from_le_bytes(ts_bytes.as_slice()) as i64);
    let signature = read_bytes64(data, offset + 105);
    let r = VerificationAttestation {
        proof_hash,
        public_inputs_hash,
        verifying_key_hash,
        is_valid,
        timestamp,
        signature,
    };
    proof {
        assert(proof_hash@ =~= s.subrange(0, 32));
        assert(public_inputs_hash@ =~= s.subrange(32, 64));
        assert(verifying_key_hash@ =~= s.subrange(64, 96));
        assert(data@[offset + 96] == s[96]);
        assert(ts_bytes@ =~= s.subrange(97, 105));
        assert(signature@ =~= s.subrange(105, 169));
    }
    r
}

/// Produces the attestation the external verifier issues at `timestamp` for
/// the given proof material and verdict, signed with `signing_key`.
pub fn create_attestation(
    proof: &[u8],
    public_inputs: &[u8],
    verifying_key: &[u8],
    is_valid: bool,
    signing_key: &[u8; 32],
    timestamp: i64,
) -> (r: VerificationAttestation)
    ensures
        r.proof_hash@ == digest_of(proof@),
        r.public_inputs_hash@ == digest_of(public_inputs@),
        r.verifying_key_hash@ == digest_of(verifying_key@),
        r.is_valid == is_valid,
        r.timestamp == timestamp,
        r.signature@ == signature_of(signing_key@, attestation_message(r)),
{
    let mut a = VerificationAttestation {
        proof_hash: hash_data(proof),
        public_inputs_hash: hash_data(public_inputs),
        verifying_key_hash: hash_data(verifying_key),
        is_valid,
        timestamp,
        signature: [0u8; 64],
    };
    let message = a.message_to_sign();
    let signature = ed25519_sign(signing_key, message.as_slice());
    let ghost before = a;
    a.signature = signature;
    proof {
        assert(attestation_message(a) == attestation_message(before));
    }
    a
}

} // verus!
