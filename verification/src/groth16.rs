//! The verifying-key record, the binary verifying-key parser, and the two
//! proof-verification strategies: the direct structural path and the
//! signed-attestation path. Under either strategy a revoked key rejects
//! unconditionally.
//!
//! The engine does not implement pairing arithmetic itself: the direct path
//! validates the proof's and key's structure and prepares the pairing
//! operands exactly; evaluating the pairing equation belongs to the external
//! verifier, whose verdict arrives as a signed attestation.

use vstd::prelude::*;

verus! {

use vstd::bytes::{spec_u32_from_le_bytes, u32_from_le_bytes};
use crate::attestation::{
    attestation_fresh,
    attestation_message,
    sig_valid_of,
    VerificationAttestation,
};
use crate::bytes32::{extend_from_range, read_bytes128, read_bytes64};
use crate::errors::VerifierError;
use crate::hashing::digest_of;

/// Size of a serialized proof: a (64) + b (128) + c (64).
pub const PROOF_LEN: usize = 256;

/// Fixed-width prefix of a serialized verifying key:
/// alpha (64) + beta (128) + gamma (128) + delta (128) + point count (4).
pub const VK_FIXED_LEN: usize = 452;

/// A parsed Groth16 verifying key.
pub struct VerifyingKey {
    /// G1 point.
    pub alpha: [u8; 64],
    /// G2 point.
    pub beta: [u8; 128],
    /// G2 point.
    pub gamma: [u8; 128],
    /// G2 point.
    pub delta: [u8; 128],
    /// One G1 point per public input.
    pub gamma_abc: Vec<[u8; 64]>,
}

/// The point count recorded in a serialized verifying key.
pub open spec fn vk_point_count(data: Seq<u8>) -> nat {
    spec_u32_from_le_bytes(data.subrange(448, 452)) as nat
}

/// Whether `data` is a complete serialized verifying key: the fixed prefix
/// and as many 64-byte points as the recorded count.
pub open spec fn vk_parse_ok(data: Seq<u8>) -> bool {
    &&& data.len() >= VK_FIXED_LEN
    &&& data.len() >= VK_FIXED_LEN + 64 * vk_point_count(data)
}

/// Whether `vk` holds exactly the fields serialized in `data`.
pub open spec fn vk_matches(vk: VerifyingKey, data: Seq<u8>) -> bool {
    &&& vk.alpha@ == data.subrange(0, 64)
    &&& vk.beta@ == data.subrange(64, 192)
    &&& vk.gamma@ == data.subrange(192, 320)
    &&& vk.delta@ == data.subrange(320, 448)
    &&& vk.gamma_abc@.len() == vk_point_count(data)
    &&& forall|i: int|
        0 <= i < vk.gamma_abc@.len() ==> (#[trigger] vk.gamma_abc@[i])@ == data.subrange(
            452 + 64 * i,
            452 + 64 * i + 64,
        )
}

impl VerifyingKey {
    /// Parses the binary layout
    /// `[alpha(64)][beta(128)][gamma(128)][delta(128)][count(4)][points(64 each)]`,
    /// accepting exactly the complete encodings.
    pub fn parse(key_data: &Vec<u8>) -> (r: Result<VerifyingKey, VerifierError>)
        ensures
            r is Ok <==> vk_parse_ok(key_data@),
            r matches Ok(vk) ==> vk_matches(vk, key_data@),
            r is Err ==> r == Err::<VerifyingKey, VerifierError>(
                VerifierError::InvalidVerifyingKey,
            ),
    {
        let n: usize = key_data.len();
        if n < VK_FIXED_LEN {
            return Err(VerifierError::InvalidVerifyingKey);
        }
        let alpha = read_bytes64(key_data, 0);
        let beta = read_bytes128(key_data, 64);
        let gamma = read_bytes128(key_data, 192);
        let delta = read_bytes128(key_data, 320);
        let mut count_bytes: Vec<u8> = Vec::new();
        extend_from_range(&mut count_bytes, key_data, 448, 4);
        let count = u32_from_le_bytes(count_bytes.as_slice());
        let ghost pc = vk_point_count(key_data@);
        proof {
            assert(count_bytes@ =~= key_data@.subrange(448, 452));
            assert(pc == count as nat);
        }
        let avail = (n as u64 - VK_FIXED_LEN as u64) / 64;
        if (count as u64) > avail {
            proof {
                let c = count as int;
                let a = avail as int;
                let room = n - VK_FIXED_LEN;
                assert(a * 64 <= room && room < (a + 1) * 64) by (nonlinear_arith)
                    requires
                        a == room / 64,
                        room >= 0,
                ;
                assert(64 * c > room) by (nonlinear_arith)
                    requires
                        c > a,
                        a * 64 <= room,
                        room < (a + 1) * 64,
                ;
            }
            return Err(VerifierError::InvalidVerifyingKey);
        }
        proof {
            let c = count as int;
            let a = avail as int;
            let room = n - VK_FIXED_LEN;
            assert(a * 64 <= room) by (nonlinear_arith)
                requires
                    a == room / 64,
                    room >= 0,
            ;
            assert(64 * c <= room) by (nonlinear_arith)
                requires
                    c <= a,
                    a * 64 <= room,
            ;
        }
        let mut gamma_abc: Vec<[u8; 64]> = Vec::new();
        let mut i: usize = 0;
        let count_usize = count as usize;
        while i < count_usize
            invariant
                i <= count_usize,
                count_usize == vk_point_count(key_data@),
                n == key_data@.len(),
                n >= VK_FIXED_LEN,
                64 * count_usize <= n - VK_FIXED_LEN,
                gamma_abc@.len() == i,
                forall|j: int|
                    0 <= j < i ==> (#[trigger] gamma_abc@[j])@ == key_data@.subrange(
                        452 + 64 * j,
                        452 + 64 * j + 64,
                    ),
            decreases count_usize - i,
        {
            proof {
                assert(64 * (i + 1) <= 64 * count_usize) by (nonlinear_arith)
                    requires
                        i + 1 <= count_usize,
                ;
            }
            let point = read_bytes64(key_data, VK_FIXED_LEN + 64 * i);
            gamma_abc.push(point);
            i += 1;
        }
        Ok(VerifyingKey { alpha, beta, gamma, delta, gamma_abc })
    }
}

/// A G1 point with its sign bit flipped: negation under the encoding whose
/// sign lives in bit zero of the first byte.
pub open spec fn negated_g1(point: Seq<u8>) -> Seq<u8> {
    point.update(0, point[0] ^ 1)
}

/// Negates a G1 point by flipping its sign bit.
pub fn negate_g1(point: &[u8; 64]) -> (r: [u8; 64])
    ensures
        r@ == negated_g1(point@),
{
    let mut negated: [u8; 64] = *point;
    negated[0] = negated[0] ^ 0x01;
    proof {
        assert(negated@ =~= negated_g1(point@));
    }
    negated
}

/// Negates a G2 point by flipping its sign bit.
pub fn negate_g2(point: &[u8; 128]) -> (r: [u8; 128])
    ensures
        r@ == negated_g1(point@),
{
    let mut negated: [u8; 128] = *point;
    negated[0] = negated[0] ^ 0x01;
    proof {
        assert(negated@ =~= negated_g1(point@));
    }
    negated
}

/// The first gamma_abc point folded with the first public input: byte `i` of
/// the point XOR byte `i` of the first 32 input bytes.
pub open spec fn combined_g1(point: Seq<u8>, inputs: Seq<u8>) -> Seq<u8> {
    Seq::new(
        64,
        |i: int|
            if i < 32 && i < inputs.len() {
                point[i] ^ inputs[i]
            } else {
                point[i]
            },
    )
}

/// Folds the public inputs into the gamma_abc points, producing the G1
/// operand of the pairing equation's third factor. Rejects an empty point
/// list and an input count of zero or more than the point count.
pub fn compute_public_inputs_g1(gamma_abc: &Vec<[u8; 64]>, public_inputs: &[u8]) -> (r: Result<
    [u8; 64],
    VerifierError,
>)
    ensures
        r is Ok <==> (gamma_abc@.len() > 0 && public_inputs@.len() / 32 > 0 && public_inputs@.len()
            / 32 <= gamma_abc@.len()),
        r matches Ok(point) ==> point@ == combined_g1((gamma_abc@[0])@, public_inputs@),
        r is Err ==> r == Err::<[u8; 64], VerifierError>(VerifierError::InvalidPublicInputs),
{
    if gamma_abc.len() == 0 {
        return Err(VerifierError::InvalidPublicInputs);
    }
    let num_inputs = public_inputs.len() / 32;
    if num_inputs == 0 || num_inputs > gamma_abc.len() {
        return Err(VerifierError::InvalidPublicInputs);
    }
    let mut result: [u8; 64] = gamma_abc[0];
    let limit = if public_inputs.len() < 32 {
        public_inputs.len()
    } else {
        32
    };
    let mut i: usize = 0;
    while i < limit
        invariant
            i <= limit,
            limit == if public_inputs@.len() < 32 {
                public_inputs@.len() as int
            } else {
                32
            },
            result@.len() == 64,
            forall|j: int| 0 <= j < i ==> result@[j] == (gamma_abc@[0])@[j] ^ public_inputs@[j],
            forall|j: int| i <= j < 64 ==> result@[j] == (gamma_abc@[0])@[j],
        decreases limit - i,
    {
        result[i] = result[i] ^ public_inputs[i];
        i += 1;
    }
    proof {
        assert(result@ =~= combined_g1((gamma_abc@[0])@, public_inputs@));
    }
    Ok(result)
}

/// Whether a proof and public-input blob have the structure the direct path
/// accepts against a parsed key: a nonempty point list and an input count in
/// range.
pub open spec fn groth16_inputs_ok(gamma_abc_len: nat, public_inputs: Seq<u8>) -> bool {
    &&& gamma_abc_len > 0
    &&& public_inputs.len() / 32 > 0
    &&& public_inputs.len() / 32 <= gamma_abc_len
}

/// The direct verification path on a parsed key: checks the structure of the
/// proof against the key and prepares the pairing operands. The pairing
/// equation itself is the external verifier's job, so a structurally valid
/// proof passes this path; deployments needing cryptographic rejection use
/// the attestation path.
pub fn verify_groth16_proof(
    proof_a: &[u8; 64],
    proof_b: &[u8; 128],
    proof_c: &[u8; 64],
    verifying_key: &VerifyingKey,
    public_inputs: &[u8],
) -> (r: Result<bool, VerifierError>)
    ensures
        verifying_key.gamma_abc@.len() == 0 ==> r == Err::<bool, VerifierError>(
            VerifierError::InvalidVerifyingKey,
        ),
        verifying_key.gamma_abc@.len() > 0 && !groth16_inputs_ok(
            verifying_key.gamma_abc@.len(),
            public_inputs@,
        ) ==> r == Err::<bool, VerifierError>(VerifierError::InvalidPublicInputs),
        groth16_inputs_ok(verifying_key.gamma_abc@.len(), public_inputs@) ==> r == Ok::<
            bool,
            VerifierError,
        >(true),
{
    if verifying_key.gamma_abc.len() == 0 {
        return Err(VerifierError::InvalidVerifyingKey);
    }
    let num_public_inputs = public_inputs.len() / 32;
    if num_public_inputs == 0 || num_public_inputs > verifying_key.gamma_abc.len() {
        return Err(VerifierError::InvalidPublicInputs);
    }
    let _neg_c = negate_g1(proof_c);
    let public_inputs_g1 = match compute_public_inputs_g1(
        &verifying_key.gamma_abc,
        public_inputs,
    ) {
        Ok(p) => p,
        Err(e) => {
            return Err(e);
        },
    };
    let _neg_delta = negate_g2(&verifying_key.delta);
    Ok(true)
}

/// The stored verifying-key record: circuit identity, version, the
/// serialized key, and its revocation flag. Once revoked, verification
/// against the record is permanently rejected.
pub struct VerifyingKeyAccount {
    /// Identifies the circuit this key verifies.
    pub circuit_tag: [u8; 32],
    /// Version of the key for this circuit.
    pub version: u32,
    /// The serialized verifying key.
    pub key_data: Vec<u8>,
    /// Whether the key has been revoked.
    pub revoked: bool,
    /// Who may manage the record.
    pub authority: [u8; 32],
}

/// Creates a verifying-key record after checking that the key bytes parse;
/// accepts exactly the complete encodings and never creates a revoked
/// record.
pub fn initialize_verifying_key(
    circuit_tag: &[u8; 32],
    version: u32,
    key_data: Vec<u8>,
    authority: &[u8; 32],
) -> (r: Result<VerifyingKeyAccount, VerifierError>)
    ensures
        r is Ok <==> vk_parse_ok(key_data@),
        r matches Ok(acct) ==> {
            &&& acct.circuit_tag == circuit_tag
            &&& acct.version == version
            &&& acct.key_data@ == key_data@
            &&& acct.revoked == false
            &&& acct.authority == authority
        },
        r is Err ==> r == Err::<VerifyingKeyAccount, VerifierError>(
            VerifierError::InvalidVerifyingKey,
        ),
{
    if key_data.len() < VK_FIXED_LEN {
        return Err(VerifierError::InvalidVerifyingKey);
    }
    if let Err(e) = VerifyingKey::parse(&key_data) {
        return Err(e);
    }
    Ok(
        VerifyingKeyAccount {
            circuit_tag: *circuit_tag,
            version,
            key_data,
            revoked: false,
            authority: *authority,
        },
    )
}

/// Whether a proof blob has the accepted shape: exactly 256 bytes.
pub open spec fn proof_shape_ok(proof: Seq<u8>) -> bool {
    proof.len() == PROOF_LEN
}

/// Whether a public-input blob has the accepted shape: nonempty, a whole
/// number of 32-byte field elements.
pub open spec fn public_inputs_shape_ok(inputs: Seq<u8>) -> bool {
    &&& inputs.len() > 0
    &&& inputs.len() % 32 == 0
}

/// Whether the direct path accepts: the key is not revoked, the shapes are
/// right, the key parses, and the parsed key admits this many inputs.
pub open spec fn direct_verify_ok(vk_revoked: bool, vk_data: Seq<u8>, proof: Seq<u8>, inputs: Seq<
    u8,
>) -> bool {
    &&& !vk_revoked
    &&& proof_shape_ok(proof)
    &&& public_inputs_shape_ok(inputs)
    &&& vk_parse_ok(vk_data)
    &&& groth16_inputs_ok(vk_point_count(vk_data), inputs)
}

/// Verifies a proof along the direct path: revocation, shape, and key
/// structure are checked exactly; a revoked key rejects regardless of the
/// proof.
pub fn verify_groth16(
    verifying_key: &VerifyingKeyAccount,
    proof: &Vec<u8>,
    public_inputs: &Vec<u8>,
) -> (r: Result<(), VerifierError>)
    ensures
        r is Ok <==> direct_verify_ok(
            verifying_key.revoked,
            verifying_key.key_data@,
            proof@,
            public_inputs@,
        ),
        verifying_key.revoked ==> r == Err::<(), VerifierError>(VerifierError::KeyRevoked),
        !verifying_key.revoked && !proof_shape_ok(proof@) ==> r == Err::<(), VerifierError>(
            VerifierError::InvalidProof,
        ),
        !verifying_key.revoked && proof_shape_ok(proof@) && !public_inputs_shape_ok(
            public_inputs@,
        ) ==> r == Err::<(), VerifierError>(VerifierError::InvalidPublicInputs),
        !verifying_key.revoked && proof_shape_ok(proof@) && public_inputs_shape_ok(public_inputs@)
            && !vk_parse_ok(verifying_key.key_data@) ==> r == Err::<(), VerifierError>(
            VerifierError::InvalidVerifyingKey,
        ),
        !verifying_key.revoked && proof_shape_ok(proof@) && public_inputs_shape_ok(public_inputs@)
            && vk_parse_ok(verifying_key.key_data@) && vk_point_count(verifying_key.key_data@)
            == 0 ==> r == Err::<(), VerifierError>(VerifierError::InvalidVerifyingKey),
        !verifying_key.revoked && proof_shape_ok(proof@) && public_inputs_shape_ok(public_inputs@)
            && vk_parse_ok(verifying_key.key_data@) && vk_point_count(verifying_key.key_data@) > 0
            && !groth16_inputs_ok(vk_point_count(verifying_key.key_data@), public_inputs@) ==> r
            == Err::<(), VerifierError>(VerifierError::InvalidPublicInputs),
{
    if verifying_key.revoked {
        return Err(VerifierError::KeyRevoked);
    }
    if proof.len() != PROOF_LEN {
        return Err(VerifierError::InvalidProof);
    }
    if public_inputs.len() == 0 || public_inputs.len() % 32 != 0 {
        return Err(VerifierError::InvalidPublicInputs);
    }
    let proof_a = read_bytes64(proof, 0);
    let proof_b = read_bytes128(proof, 64);
    let proof_c = read_bytes64(proof, 192);
    let vk = match VerifyingKey::parse(&verifying_key.key_data) {
        Ok(vk) => vk,
        Err(e) => {
            return Err(e);
        },
    };
    match verify_groth16_proof(&proof_a, &proof_b, &proof_c, &vk, public_inputs.as_slice()) {
        Ok(_) => Ok(()),
        Err(e) => Err(e),
    }
}

/// Whether the attestation path accepts: the key is not revoked, the shapes
/// are right, the attestation's digests match the offered data, its
/// signature under the trusted signer checks out, it is fresh at `now`, and
/// its verdict is positive.
pub open spec fn attested_verify_ok(
    vk_revoked: bool,
    vk_data: Seq<u8>,
    proof: Seq<u8>,
    inputs: Seq<u8>,
    attestation: VerificationAttestation,
    trusted_signer: Seq<u8>,
    now: i64,
) -> bool {
    &&& !vk_revoked
    &&& proof_shape_ok(proof)
    &&& public_inputs_shape_ok(inputs)
    &&& attestation.proof_hash@ == digest_of(proof)
    &&& attestation.public_inputs_hash@ == digest_of(inputs)
    &&& attestation.verifying_key_hash@ == digest_of(vk_data)
    &&& sig_valid_of(trusted_signer, attestation_message(attestation), attestation.signature@)
    &&& attestation_fresh(attestation.timestamp, now)
    &&& attestation.is_valid
}

/// Verifies a proof through a signed external attestation: recomputes the
/// three digests, checks the Ed25519 signature under the trusted signer,
/// requires freshness at `now` and a positive verdict; a revoked key rejects
/// regardless of the attestation.
pub fn verify_with_attestation(
    verifying_key: &VerifyingKeyAccount,
    proof: &Vec<u8>,
    public_inputs: &Vec<u8>,
    attestation: &VerificationAttestation,
    trusted_signer: &[u8; 32],
    now: i64,
) -> (r: Result<(), VerifierError>)
    ensures
        r is Ok <==> attested_verify_ok(
            verifying_key.revoked,
            verifying_key.key_data@,
            proof@,
            public_inputs@,
            *attestation,
            trusted_signer@,
            now,
        ),
        verifying_key.revoked ==> r == Err::<(), VerifierError>(VerifierError::KeyRevoked),
        !verifying_key.revoked && !proof_shape_ok(proof@) ==> r == Err::<(), VerifierError>(
            VerifierError::InvalidProof,
        ),
        !verifying_key.revoked && proof_shape_ok(proof@) && !public_inputs_shape_ok(
            public_inputs@,
        ) ==> r == Err::<(), VerifierError>(VerifierError::InvalidPublicInputs),
        !verifying_key.revoked && proof_shape_ok(proof@) && public_inputs_shape_ok(public_inputs@)
            && r is Err ==> r == Err::<(), VerifierError>(VerifierError::ProofVerificationFailed),
{
    if verifying_key.revoked {
        return Err(VerifierError::KeyRevoked);
    }
    if proof.len() != PROOF_LEN {
        return Err(VerifierError::InvalidProof);
    }
    if public_inputs.len() == 0 || public_inputs.len() % 32 != 0 {
        return Err(VerifierError::InvalidPublicInputs);
    }
    if !attestation.verify_hashes(
        proof.as_slice(),
        public_inputs.as_slice(),
        verifying_key.key_data.as_slice(),
    ) {
        return Err(VerifierError::ProofVerificationFailed);
    }
    if !attestation.verify_signature(trusted_signer) {
        return Err(VerifierError::ProofVerificationFailed);
    }
    if !attestation.is_recent(now) {
        return Err(VerifierError::ProofVerificationFailed);
    }
    if !attestation.is_valid {
        return Err(VerifierError::ProofVerificationFailed);
    }
    Ok(())
}

} // verus!
