//! Byte-level parsing and rendering: hex fields, decimal field elements, the
//! verifying-key layout, the attestation wire codec, and input validation.

use shielded_pool::attestation::{create_attestation, VerificationAttestation};
use shielded_pool::engine::{
    amount_to_bytes32, approve_allowance, execute_batch_transfer, execute_transfer,
    ApproveAllowanceArgs, BatchTransferArgs, TransferArgs,
};
use shielded_pool::errors::{CommonError, PoolError, VaultError, VerifierError};
use shielded_pool::factory::{initialize_factory, register_mint};
use shielded_pool::groth16::{
    compute_public_inputs_g1, negate_g1, verify_groth16, VerifyingKey, VerifyingKeyAccount,
};
use shielded_pool::hashing::hash_pair;
use shielded_pool::ledger::check_rate_limit;
use shielded_pool::operations::{execute_shield_v2_raw_handler, OperationStatus, OperationType};
use shielded_pool::service::{
    decimal_string, hex_decode, pad_left_32, CircuitHandler, Config, Groth16Verifier,
    ProofRequest, SnarkjsIntegration,
};
use shielded_pool::validation::{validate_account, validate_account_relationship, InputSanitizer, InputValidator};
use shielded_pool::vault::{deposit, withdraw, VaultState};

const SIGNER_SECRET: [u8; 32] = [7u8; 32];

fn request(commitment: Option<&str>, nullifier: Option<&str>, amount: Option<u64>) -> ProofRequest {
    ProofRequest {
        commitment: commitment.map(|s| s.to_string()),
        nullifier: nullifier.map(|s| s.to_string()),
        amount,
        recipient: None,
        public_key: None,
    }
}

#[test]
fn hash_pair_is_sha256_of_concatenation() {
    let left = [1u8; 32];
    let right = [2u8; 32];
    let expected: [u8; 32] = {
        let mut hasher = <sha2::Sha256 as sha2::Digest>::new();
        sha2::Digest::update(&mut hasher, &left);
        sha2::Digest::update(&mut hasher, &right);
        sha2::Digest::finalize(hasher).into()
    };
    assert_eq!(hash_pair(&left, &right), expected);
    // Order matters: the combiner is not symmetric.
    assert_ne!(hash_pair(&right, &left), expected);
}

#[test]
fn hex_decode_accepts_prefixed_and_rejects_malformed() {
    assert_eq!(hex_decode("0aff").unwrap(), vec![0x0a, 0xff]);
    assert_eq!(hex_decode("0x0aff").unwrap(), vec![0x0a, 0xff]);
    assert_eq!(hex_decode("0xAbCd").unwrap(), vec![0xab, 0xcd]);
    assert_eq!(hex_decode("abc").unwrap_err(), PoolError::InvalidPublicInputs);
    assert_eq!(hex_decode("zz").unwrap_err(), PoolError::InvalidPublicInputs);
    assert_eq!(hex_decode("").unwrap(), Vec::<u8>::new());
}

#[test]
fn decimal_rendering_matches_big_endian_value() {
    assert_eq!(decimal_string(&vec![]), "0");
    assert_eq!(decimal_string(&vec![0]), "0");
    assert_eq!(decimal_string(&vec![1, 0]), "256");
    assert_eq!(decimal_string(&vec![0xff, 0xff]), "65535");
    let verifier = Groth16Verifier::new();
    assert_eq!(verifier.snarkjs_path, "npx");
    let mut data = vec![0u8; 32];
    data[30] = 1;
    data[31] = 4;
    let rendered = verifier.bytes_to_json_public_inputs(&data).unwrap();
    assert_eq!(rendered, vec!["260".to_string()]);
    assert!(verifier.bytes_to_json_public_inputs(&vec![0u8; 33]).is_err());
}

#[test]
fn verifying_key_parse_layout() {
    let mut key = Vec::new();
    key.extend_from_slice(&[1u8; 64]); // alpha
    key.extend_from_slice(&[2u8; 128]); // beta
    key.extend_from_slice(&[3u8; 128]); // gamma
    key.extend_from_slice(&[4u8; 128]); // delta
    key.extend_from_slice(&2u32.to_le_bytes());
    key.extend_from_slice(&[5u8; 64]);
    key.extend_from_slice(&[6u8; 64]);
    let vk = VerifyingKey::parse(&key).expect("complete key");
    assert_eq!(vk.alpha, [1u8; 64]);
    assert_eq!(vk.beta, [2u8; 128]);
    assert_eq!(vk.gamma, [3u8; 128]);
    assert_eq!(vk.delta, [4u8; 128]);
    assert_eq!(vk.gamma_abc, vec![[5u8; 64], [6u8; 64]]);

    // One point short of the recorded count.
    let truncated = key[..key.len() - 64].to_vec();
    assert!(matches!(
        VerifyingKey::parse(&truncated),
        Err(VerifierError::InvalidVerifyingKey)
    ));
    // Shorter than the fixed prefix.
    assert!(matches!(
        VerifyingKey::parse(&vec![0u8; 451]),
        Err(VerifierError::InvalidVerifyingKey)
    ));
}

#[test]
fn direct_path_checks_structure() {
    let mut key = Vec::new();
    key.extend_from_slice(&[1u8; 448]);
    key.extend_from_slice(&1u32.to_le_bytes());
    key.extend_from_slice(&[5u8; 64]);
    let account = VerifyingKeyAccount {
        circuit_tag: [0u8; 32],
        version: 1,
        key_data: key,
        revoked: false,
        authority: [0u8; 32],
    };
    assert_eq!(verify_groth16(&account, &vec![0u8; 256], &vec![0u8; 32]), Ok(()));
    assert_eq!(
        verify_groth16(&account, &vec![0u8; 255], &vec![0u8; 32]),
        Err(VerifierError::InvalidProof)
    );
    assert_eq!(
        verify_groth16(&account, &vec![0u8; 256], &vec![0u8; 33]),
        Err(VerifierError::InvalidPublicInputs)
    );
    // Two inputs against a single-point key.
    assert_eq!(
        verify_groth16(&account, &vec![0u8; 256], &vec![0u8; 64]),
        Err(VerifierError::InvalidPublicInputs)
    );
}

#[test]
fn point_preparation_is_exact() {
    let mut p = [0u8; 64];
    p[0] = 0b1010_1010;
    let n = negate_g1(&p);
    assert_eq!(n[0], 0b1010_1011);
    assert_eq!(&n[1..], &p[1..]);

    let gamma_abc = vec![[0x0fu8; 64]];
    let mut inputs = vec![0u8; 32];
    inputs[0] = 0xf0;
    let combined = compute_public_inputs_g1(&gamma_abc, &inputs).unwrap();
    assert_eq!(combined[0], 0xff);
    assert_eq!(combined[1], 0x0f);
    assert_eq!(combined[32], 0x0f);
    assert_eq!(
        compute_public_inputs_g1(&gamma_abc, &[]),
        Err(VerifierError::InvalidPublicInputs)
    );
    assert_eq!(
        compute_public_inputs_g1(&Vec::new(), &inputs),
        Err(VerifierError::InvalidPublicInputs)
    );
}

#[test]
fn attestation_wire_codec_round_trips() {
    let attestation = create_attestation(b"proof", b"inputs", b"key", true, &SIGNER_SECRET, 123456);
    let bytes = attestation.serialize();
    assert_eq!(bytes.len(), 169);
    let decoded = VerificationAttestation::deserialize(&bytes).expect("exact length");
    assert_eq!(decoded.proof_hash, attestation.proof_hash);
    assert_eq!(decoded.public_inputs_hash, attestation.public_inputs_hash);
    assert_eq!(decoded.verifying_key_hash, attestation.verifying_key_hash);
    assert_eq!(decoded.is_valid, true);
    assert_eq!(decoded.timestamp, 123456);
    assert_eq!(decoded.signature, attestation.signature);
    assert!(VerificationAttestation::deserialize(&bytes[..168].to_vec()).is_none());

    let signer = ed25519_dalek::SigningKey::from_bytes(&SIGNER_SECRET)
        .verifying_key()
        .to_bytes();
    assert!(decoded.verify_signature(&signer));
    let other = ed25519_dalek::SigningKey::from_bytes(&[9u8; 32])
        .verifying_key()
        .to_bytes();
    assert!(!decoded.verify_signature(&other));
    assert!(decoded.verify_hashes(b"proof", b"inputs", b"key"));
    assert!(!decoded.verify_hashes(b"proof", b"inputs", b"other key"));
    assert!(decoded.is_recent(123456));
    assert!(decoded.is_recent(123456 + 300));
    assert!(!decoded.is_recent(123456 + 301));
    assert!(!decoded.is_recent(123455));
}

#[test]
fn validation_boundaries() {
    assert_eq!(InputValidator::validate_amount(0, u64::MAX), Err(CommonError::InvalidAmount));
    assert_eq!(InputValidator::validate_amount(1, u64::MAX), Ok(()));
    assert_eq!(InputValidator::validate_amount(10, 9), Err(CommonError::InvalidAmount));
    assert_eq!(InputValidator::validate_amount_range(5, 5, 5), Ok(()));
    assert_eq!(InputValidator::validate_amount_range(4, 5, 5), Err(CommonError::InvalidAmount));

    assert_eq!(InputSanitizer::sanitize_proof(&[0u8; 63], 1024), Err(CommonError::InvalidAmount));
    assert_eq!(InputSanitizer::sanitize_proof(&[0u8; 64], 1024), Ok(()));
    assert_eq!(InputSanitizer::sanitize_proof(&vec![0u8; 1025], 2048), Err(CommonError::InvalidAmount));
    assert_eq!(InputSanitizer::sanitize_public_inputs(&vec![0u8; 512], 1024), Ok(()));
    assert_eq!(
        InputSanitizer::sanitize_public_inputs(&vec![0u8; 513], 1024),
        Err(CommonError::InvalidAmount)
    );
}

#[test]
fn rate_limit_boundaries() {
    assert_eq!(check_rate_limit(100, OperationType::Shield, 109), Err(PoolError::RateLimitExceeded));
    assert_eq!(check_rate_limit(100, OperationType::Shield, 110), Ok(()));
    assert_eq!(check_rate_limit(100, OperationType::Transfer, 105), Ok(()));
    assert_eq!(check_rate_limit(100, OperationType::Transfer, 104), Err(PoolError::RateLimitExceeded));
    assert_eq!(check_rate_limit(100, OperationType::Unshield, 110), Ok(()));
}

#[test]
fn transfer_validation_and_batch_limits() {
    let good = TransferArgs { proof: vec![0u8; 256], public_inputs: vec![0u8; 64] };
    assert_eq!(execute_transfer(&good), Ok(()));
    let bad = TransferArgs { proof: vec![0u8; 10], public_inputs: vec![0u8; 64] };
    assert_eq!(execute_transfer(&bad), Err(PoolError::InvalidAmount));

    let batch = BatchTransferArgs { transfers: Vec::new() };
    assert_eq!(execute_batch_transfer(&batch), Err(PoolError::InvalidAmount));
    let batch = BatchTransferArgs {
        transfers: (0..4)
            .map(|_| TransferArgs { proof: vec![0u8; 256], public_inputs: vec![0u8; 64] })
            .collect(),
    };
    assert_eq!(execute_batch_transfer(&batch), Err(PoolError::InvalidAmount));
    let batch = BatchTransferArgs {
        transfers: (0..3)
            .map(|_| TransferArgs { proof: vec![0u8; 256], public_inputs: vec![0u8; 64] })
            .collect(),
    };
    assert_eq!(execute_batch_transfer(&batch), Ok(()));
}

#[test]
fn allowance_and_status_codes() {
    let a = approve_allowance(
        &[1u8; 32],
        &[2u8; 32],
        &ApproveAllowanceArgs { spender: [3u8; 32], amount: 9 },
    )
    .unwrap();
    assert_eq!(a.owner, [1u8; 32]);
    assert_eq!(a.spender, [3u8; 32]);
    assert_eq!(a.pool, [2u8; 32]);
    assert_eq!(a.amount, 9);
    assert!(approve_allowance(
        &[1u8; 32],
        &[2u8; 32],
        &ApproveAllowanceArgs { spender: [3u8; 32], amount: 0 },
    )
    .is_err());

    assert_eq!(OperationStatus::from_u8(0), Some(OperationStatus::Pending));
    assert_eq!(OperationStatus::from_u8(2), Some(OperationStatus::Verified));
    assert_eq!(OperationStatus::from_u8(3), Some(OperationStatus::Updated));
    assert_eq!(OperationStatus::from_u8(5), Some(OperationStatus::Failed));
    assert_eq!(OperationStatus::from_u8(6), None);
    assert_eq!(OperationStatus::Verified.code(), 2);
}

#[test]
fn factory_and_custodial_vault_checks() {
    let factory = initialize_factory(&[1u8; 32]);
    assert!(register_mint(&factory, &[1u8; 32], &[2u8; 32], &[3u8; 32]).is_ok());
    assert!(register_mint(&factory, &[9u8; 32], &[2u8; 32], &[3u8; 32]).is_err());

    let vault = VaultState {
        origin_mint: [1u8; 32],
        vault_token_account: [2u8; 32],
        authority: [3u8; 32],
    };
    assert_eq!(deposit(&vault, &[3u8; 32], &[1u8; 32], 10), Ok(10));
    assert_eq!(deposit(&vault, &[9u8; 32], &[1u8; 32], 10), Err(VaultError::InvalidAuthority));
    assert_eq!(deposit(&vault, &[3u8; 32], &[9u8; 32], 10), Err(VaultError::InvalidMint));
    assert_eq!(withdraw(&vault, &[3u8; 32], &[1u8; 32], &[2u8; 32], 10, 10), Ok(10));
    assert_eq!(
        withdraw(&vault, &[3u8; 32], &[1u8; 32], &[2u8; 32], 9, 10),
        Err(VaultError::InsufficientBalance)
    );
    assert_eq!(
        withdraw(&vault, &[3u8; 32], &[1u8; 32], &[9u8; 32], 10, 10),
        Err(VaultError::TokenAccountMismatch)
    );
}

#[test]
fn service_helpers_compute_layouts() {
    let handler = CircuitHandler::new(
        "circuits/shield".to_string(),
        "/srv/circuits/shield".to_string(),
        Some("npx".to_string()),
        true,
        true,
    );
    assert!(handler.use_snarkjs);
    let no_zkey = CircuitHandler::new(
        "circuits/shield".to_string(),
        "/srv/circuits/shield".to_string(),
        Some("npx".to_string()),
        true,
        false,
    );
    assert!(!no_zkey.use_snarkjs);

    // Shield layout: the commitment, right-aligned to 32 bytes.
    let req = request(Some("0x0102"), None, Some(5));
    let inputs = handler.generate_public_inputs(&OperationType::Shield, &req).unwrap();
    assert_eq!(inputs, pad_left_32(&vec![1, 2]).to_vec());
    // A missing commitment contributes one zero element.
    let req = request(None, None, Some(5));
    let inputs = handler.generate_public_inputs(&OperationType::Shield, &req).unwrap();
    assert_eq!(inputs, vec![0u8; 32]);
    // Unshield layout: [nullifier, amount], each right-aligned big-endian.
    let req = request(None, Some("0x03"), Some(260));
    let inputs = handler.generate_public_inputs(&OperationType::Unshield, &req).unwrap();
    let mut expected = pad_left_32(&vec![3u8]).to_vec();
    expected.extend_from_slice(&amount_to_bytes32(260));
    assert_eq!(inputs.len(), 64);
    assert_eq!(inputs, expected);
    // The amount element ends in the big-endian value 260 = 0x0104.
    assert_eq!(&inputs[56..64], &[0, 0, 0, 0, 0, 0, 1, 4]);
    // Each element of the layout reads back as the intended field value.
    let verifier = Groth16Verifier::new();
    let rendered = verifier.bytes_to_json_public_inputs(&inputs).unwrap();
    assert_eq!(rendered, vec!["3".to_string(), "260".to_string()]);
    // Transfer layout: [nullifier_in, commitment_out, amount].
    let req = request(Some("02"), Some("01"), Some(1));
    let inputs = handler.generate_public_inputs(&OperationType::Transfer, &req).unwrap();
    let mut expected = pad_left_32(&vec![1u8]).to_vec();
    expected.extend_from_slice(&pad_left_32(&vec![2u8]));
    expected.extend_from_slice(&amount_to_bytes32(1));
    assert_eq!(inputs.len(), 96);
    assert_eq!(inputs, expected);
    // A malformed hex field is rejected.
    let req = request(Some("0xzz"), None, None);
    assert!(handler.generate_public_inputs(&OperationType::Shield, &req).is_err());

    // Placeholder proofs are deterministic in the seed string.
    let req = request(Some("ab"), None, None);
    let proof = handler.generate_placeholder_proof(&req);
    assert_eq!(proof.len(), 256);
    assert_eq!(proof[0], b'a');
    assert_eq!(proof[1], b'b'.wrapping_add(1));
    assert_eq!(proof[2], b'a'.wrapping_add(2));
    for (i, byte) in proof.iter().enumerate() {
        let seed = [b'a', b'b'];
        assert_eq!(*byte, seed[i % 2].wrapping_add(i as u8));
    }

    assert_eq!(pad_left_32(&vec![1, 2]), {
        let mut p = [0u8; 32];
        p[30] = 1;
        p[31] = 2;
        p
    });

    let config = Config::default();
    assert_eq!(config.server.host, "127.0.0.1");
    assert_eq!(config.server.port, 8080);
    assert!(config.circuits.snarkjs_path.is_none());

    let integration = SnarkjsIntegration::new(
        "npx".to_string(),
        "circuit.wasm".to_string(),
        "circuit.zkey".to_string(),
    );
    assert_eq!(integration.circuit_wasm, "circuit.wasm");

    let data = {
        let mut d = vec![0u8; 8];
        d.extend_from_slice(&[13u8; 32]);
        d
    };
    assert_eq!(execute_shield_v2_raw_handler(&data), Ok([13u8; 32]));
    assert_eq!(
        execute_shield_v2_raw_handler(&vec![0u8; 39]),
        Err(PoolError::AccountDataTooShort)
    );
}

#[test]
fn account_validation_checks() {
    assert_eq!(validate_account(&[1u8; 32], &[1u8; 32], 100, 50), Ok(()));
    assert_eq!(
        validate_account(&[1u8; 32], &[2u8; 32], 100, 50),
        Err(CommonError::InvalidAccountOwner)
    );
    assert_eq!(
        validate_account(&[1u8; 32], &[1u8; 32], 49, 50),
        Err(CommonError::AccountDataTooShort)
    );
    assert_eq!(validate_account_relationship(&[1u8; 32], &[1u8; 32]), Ok(()));
    assert_eq!(
        validate_account_relationship(&[1u8; 32], &[2u8; 32]),
        Err(CommonError::InvalidAccountOwner)
    );
}
