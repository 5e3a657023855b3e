//! The computational half of the proof service: request/response shapes,
//! configuration records, hex field decoding, the public-input layout per
//! operation kind, deterministic placeholder proofs, and the decimal
//! rendering of field elements for the external prover's tooling. The
//! subprocess and filesystem halves live with the service binary.

use vstd::prelude::*;

verus! {

use vstd::utf8::encode_utf8;
use crate::errors::{PoolError, VerifierError};
use crate::operations::OperationType;

/// Whether `b` is the ASCII code of a hex digit.
pub open spec fn is_hex_digit(b: u8) -> bool {
    ||| 0x30 <= b <= 0x39
    ||| 0x41 <= b <= 0x46
    ||| 0x61 <= b <= 0x66
}

/// The value of a hex digit.
pub open spec fn hex_val(b: u8) -> u8 {
    if 0x30 <= b <= 0x39 {
        (b - 0x30) as u8
    } else if 0x41 <= b <= 0x46 {
        (b - 0x41 + 10) as u8
    } else {
        (b - 0x61 + 10) as u8
    }
}

/// Whether `s` is a decodable hex string: even length, hex digits only.
pub open spec fn hex_valid(s: Seq<u8>) -> bool {
    &&& s.len() % 2 == 0
    &&& forall|i: int| 0 <= i < s.len() ==> is_hex_digit(#[trigger] s[i])
}

/// The bytes a hex string decodes to: one byte per digit pair.
pub open spec fn hex_decoded(s: Seq<u8>) -> Seq<u8> {
    Seq::new(s.len() / 2, |i: int| ((hex_val(s[2 * i]) * 16 + hex_val(s[2 * i + 1])) as u8))
}

/// Relies on hex::decode: succeeds exactly on even-length strings of hex
/// digits (either case), producing one byte per digit pair.
#[verifier::external_body]
pub(crate) fn hex_decode_bytes(data: &[u8]) -> (r: Result<Vec<u8>, hex::FromHexError>)
    ensures
        r is Ok <==> hex_valid(data@),
        r matches Ok(v) ==> v@ == hex_decoded(data@),
{
    hex::decode(data)
}

/// The error hex decoding reports.
#[verifier::external_type_specification]
#[verifier::external_body]
pub struct ExFromHexError(hex::FromHexError);

/// A hex string's payload: the bytes after an optional `0x` prefix.
pub open spec fn strip_hex_prefix(b: Seq<u8>) -> Seq<u8> {
    if b.len() >= 2 && b[0] == 0x30u8 && b[1] == 0x78u8 {
        b.skip(2)
    } else {
        b
    }
}

/// Decodes a hex string, ignoring a `0x` prefix; accepts exactly the
/// decodable payloads.
pub fn hex_decode(s: &str) -> (r: Result<Vec<u8>, PoolError>)
    ensures
        r is Ok <==> hex_valid(strip_hex_prefix(encode_utf8(s@))),
        r matches Ok(v) ==> v@ == hex_decoded(strip_hex_prefix(encode_utf8(s@))),
        r is Err ==> r == Err::<Vec<u8>, PoolError>(PoolError::InvalidPublicInputs),
{
    let bytes = s.as_bytes_vec();
    let payload: Vec<u8> = if bytes.len() >= 2 && bytes[0] == 0x30u8 && bytes[1] == 0x78u8 {
        let mut rest: Vec<u8> = Vec::new();
        crate::bytes32::extend_from_range(&mut rest, &bytes, 2, bytes.len() - 2);
        proof {
            assert(rest@ =~= strip_hex_prefix(encode_utf8(s@)));
        }
        rest
    } else {
        proof {
            assert(bytes@ =~= strip_hex_prefix(encode_utf8(s@)));
        }
        bytes
    };
    match hex_decode_bytes(payload.as_slice()) {
        Ok(v) => Ok(v),
        Err(_) => Err(PoolError::InvalidPublicInputs),
    }
}

/// The integer a big-endian byte string encodes.
pub open spec fn be_bytes_to_nat(s: Seq<u8>) -> nat
    decreases s.len(),
{
    if s.len() == 0 {
        0
    } else {
        (be_bytes_to_nat(s.drop_last()) * 256 + s.last()) as nat
    }
}

/// The ASCII digit for a value below ten.
pub open spec fn decimal_digit(d: nat) -> char {
    if d == 0 {
        '0'
    } else if d == 1 {
        '1'
    } else if d == 2 {
        '2'
    } else if d == 3 {
        '3'
    } else if d == 4 {
        '4'
    } else if d == 5 {
        '5'
    } else if d == 6 {
        '6'
    } else if d == 7 {
        '7'
    } else if d == 8 {
        '8'
    } else {
        '9'
    }
}

/// The decimal rendering of a natural number, without leading zeros.
pub open spec fn decimal_of(n: nat) -> Seq<char>
    decreases n,
{
    if n < 10 {
        seq![decimal_digit(n)]
    } else {
        decimal_of(n / 10).push(decimal_digit(n % 10))
    }
}

/// Relies on num_bigint::BigUint::from_bytes_be and its Display rendering:
/// the decimal string of the big-endian integer, without leading zeros.
#[verifier::external_body]
pub(crate) fn bytes_to_decimal(bytes: &[u8]) -> (r: String)
    ensures
        r@ == decimal_of(be_bytes_to_nat(bytes@)),
{
    let value = num_bigint::BigUint::from_bytes_be(bytes);
    format!("{}", value)
}

/// Renders a big-endian byte string as the decimal the prover tooling
/// expects.
pub fn decimal_string(bytes: &Vec<u8>) -> (r: String)
    ensures
        r@ == decimal_of(be_bytes_to_nat(bytes@)),
{
    bytes_to_decimal(bytes.as_slice())
}

/// A proof request's fields; which are present depends on the operation
/// kind. String fields are hex encoded.
pub struct ProofRequest {
    /// Commitment of the note being created.
    pub commitment: Option<String>,
    /// Nullifier of the note being spent.
    pub nullifier: Option<String>,
    /// Amount being moved.
    pub amount: Option<u64>,
    /// Recipient of a withdrawal.
    pub recipient: Option<String>,
    /// Public key of the requester.
    pub public_key: Option<String>,
}

/// A generated proof with its public inputs.
pub struct ProofResponse {
    /// The serialized proof.
    pub proof: Vec<u8>,
    /// The concatenated 32-byte public inputs.
    pub public_inputs: Vec<u8>,
}

/// Where the proof service listens.
pub struct ServerConfig {
    /// Interface to bind.
    pub host: String,
    /// Port to bind.
    pub port: u16,
}

/// Where the circuits and tooling live.
pub struct CircuitConfig {
    /// Directory of the shield circuit.
    pub shield_circuit_path: String,
    /// Directory of the unshield circuit.
    pub unshield_circuit_path: String,
    /// Directory of the transfer circuit.
    pub transfer_circuit_path: String,
    /// Prover tool to invoke, when configured.
    pub snarkjs_path: Option<String>,
}

/// The proof service's configuration.
pub struct Config {
    /// Listening address.
    pub server: ServerConfig,
    /// Circuit locations.
    pub circuits: CircuitConfig,
}

impl Default for Config {
    /// The development defaults: loopback on port 8080, circuits beside the
    /// service, no prover tool.
    fn default() -> (r: Config)
        ensures
            r.server.host@ == "127.0.0.1"@,
            r.server.port == 8080,
            r.circuits.shield_circuit_path@ == "../circuits/shield"@,
            r.circuits.unshield_circuit_path@ == "../circuits/unshield"@,
            r.circuits.transfer_circuit_path@ == "../circuits/transfer"@,
            r.circuits.snarkjs_path is None,
    {
        Config {
            server: ServerConfig { host: "127.0.0.1".to_owned(), port: 8080 },
            circuits: CircuitConfig {
                shield_circuit_path: "../circuits/shield".to_owned(),
                unshield_circuit_path: "../circuits/unshield".to_owned(),
                transfer_circuit_path: "../circuits/transfer".to_owned(),
                snarkjs_path: None,
            },
        }
    }
}

/// Handles one circuit's proof generation. Whether the real prover tool is
/// usable is decided by its caller, which probes the filesystem and hands in
/// the results.
pub struct CircuitHandler {
    /// The circuit directory as configured.
    pub circuit_path: String,
    /// The resolved base directory.
    pub base_path: String,
    /// Prover tool to invoke, when configured.
    pub snarkjs_path: Option<String>,
    /// Whether the real prover tool is usable.
    pub use_snarkjs: bool,
}

/// The seed a placeholder proof is derived from: the commitment string's
/// bytes, else the nullifier string's bytes.
pub open spec fn placeholder_seed(request: ProofRequest) -> Seq<u8> {
    match request.commitment {
        Some(c) => encode_utf8(c@),
        None => match request.nullifier {
            Some(nf) => encode_utf8(nf@),
            None => Seq::empty(),
        },
    }
}

/// Byte `i` of a placeholder proof: the seed, cycled, shifted by the
/// position.
pub open spec fn placeholder_byte(seed: Seq<u8>, i: int) -> u8 {
    ((seed[i % seed.len() as int] + i) % 256) as u8
}

impl CircuitHandler {
    /// Builds a handler from the configured paths and the caller's probe
    /// results; the real prover tool is used only when it is configured and
    /// both circuit files were found.
    pub fn new(
        circuit_path: String,
        base_path: String,
        snarkjs_path: Option<String>,
        wasm_exists: bool,
        zkey_exists: bool,
    ) -> (r: CircuitHandler)
        ensures
            r.circuit_path@ == circuit_path@,
            r.base_path@ == base_path@,
            r.snarkjs_path == snarkjs_path,
            r.use_snarkjs == (snarkjs_path is Some && wasm_exists && zkey_exists),
    {
        let configured = snarkjs_path.is_some();
        CircuitHandler {
            circuit_path,
            base_path,
            snarkjs_path,
            use_snarkjs: configured && wasm_exists && zkey_exists,
        }
    }

    /// Derives a deterministic 256-byte placeholder proof from the request's
    /// commitment or nullifier string.
    pub fn generate_placeholder_proof(&self, request: &ProofRequest) -> (r: Vec<u8>)
        requires
            placeholder_seed(*request).len() > 0,
        ensures
            r@.len() == 256,
            forall|i: int|
                0 <= i < 256 ==> r@[i] == placeholder_byte(placeholder_seed(*request), i),
    {
        let seed: Vec<u8> = match &request.commitment {
            Some(c) => c.as_str().as_bytes_vec(),
            None => match &request.nullifier {
                Some(nf) => nf.as_str().as_bytes_vec(),
                None => Vec::new(),
            },
        };
        let slen = seed.len();
        let mut out: Vec<u8> = Vec::new();
        let mut i: usize = 0;
        while i < 256
            invariant
                i <= 256,
                out@.len() == i,
                slen == seed@.len(),
                slen > 0,
                seed@ == placeholder_seed(*request),
                forall|j: int|
                    0 <= j < i ==> out@[j] == placeholder_byte(placeholder_seed(*request), j),
            decreases 256 - i,
        {
            let b = seed[i % slen].wrapping_add(i as u8);
            proof {
                let sd = placeholder_seed(*request);
                assert(i % 256 == i as int);
                assert(b == ((sd[i as int % sd.len() as int] + i) % 256) as u8);
            }
            out.push(b);
            i += 1;
        }
        out
    }

    /// The kind's public-input layout over the request's fields: each field
    /// a right-aligned 32-byte big-endian element; an absent field
    /// contributes a zero element.
    pub fn generate_public_inputs(&self, operation_type: &OperationType, request: &ProofRequest)
        -> (r: Result<Vec<u8>, PoolError>)
        ensures
            r is Ok <==> public_inputs_fields_ok(*operation_type, *request),
            r matches Ok(v) ==> v@ == public_inputs_layout(*operation_type, *request),
            r is Err ==> r == Err::<Vec<u8>, PoolError>(PoolError::InvalidPublicInputs),
    {
        let mut public_inputs: Vec<u8> = Vec::new();
        match operation_type {
            OperationType::Shield => {
                if let Err(e) = push_field(&mut public_inputs, &request.commitment) {
                    return Err(e);
                }
            },
            OperationType::Unshield => {
                if let Err(e) = push_field(&mut public_inputs, &request.nullifier) {
                    return Err(e);
                }
                push_amount(&mut public_inputs, &request.amount);
            },
            OperationType::Transfer => {
                if let Err(e) = push_field(&mut public_inputs, &request.nullifier) {
                    return Err(e);
                }
                if let Err(e) = push_field(&mut public_inputs, &request.commitment) {
                    return Err(e);
                }
                push_amount(&mut public_inputs, &request.amount);
            },
        }
        Ok(public_inputs)
    }
}

/// Whether a hex field is decodable (an absent field always is).
pub open spec fn field_ok(field: Option<String>) -> bool {
    field matches Some(s) ==> hex_valid(strip_hex_prefix(encode_utf8(s@)))
}

/// The 32-byte field element a hex field contributes: its decoded bytes
/// right-aligned and zero-padded on the left, or one zero element when
/// absent.
pub open spec fn field_bytes(field: Option<String>) -> Seq<u8> {
    match field {
        Some(s) => padded_coordinate(hex_decoded(strip_hex_prefix(encode_utf8(s@)))),
        None => Seq::new(32, |i: int| 0u8),
    }
}

/// The 32-byte field element an amount contributes: right-aligned
/// big-endian, zero when absent.
pub open spec fn amount_bytes_of(amount: Option<u64>) -> Seq<u8> {
    crate::engine::amount_commitment_of(
        match amount {
            Some(a) => a,
            None => 0u64,
        },
    )
}

/// Whether every field the kind's layout reads is decodable.
pub open spec fn public_inputs_fields_ok(kind: OperationType, request: ProofRequest) -> bool {
    match kind {
        OperationType::Shield => field_ok(request.commitment),
        OperationType::Unshield => field_ok(request.nullifier),
        OperationType::Transfer => field_ok(request.nullifier) && field_ok(request.commitment),
    }
}

/// The public-input layout by kind: shield carries the commitment; unshield
/// the nullifier and amount; transfer the nullifier, the new commitment, and
/// the amount.
pub open spec fn public_inputs_layout(kind: OperationType, request: ProofRequest) -> Seq<u8> {
    match kind {
        OperationType::Shield => field_bytes(request.commitment),
        OperationType::Unshield => field_bytes(request.nullifier) + amount_bytes_of(
            request.amount,
        ),
        OperationType::Transfer => field_bytes(request.nullifier) + field_bytes(request.commitment)
            + amount_bytes_of(request.amount),
    }
}

/// Appends a hex field's contribution to the public inputs.
fn push_field(out: &mut Vec<u8>, field: &Option<String>) -> (r: Result<(), PoolError>)
    ensures
        r is Ok <==> field_ok(*field),
        r is Ok ==> final(out)@ == old(out)@ + field_bytes(*field),
        r is Err ==> {
            &&& r == Err::<(), PoolError>(PoolError::InvalidPublicInputs)
            &&& final(out)@ == old(out)@
        },
{
    match field {
        Some(s) => {
            let decoded = match hex_decode(s.as_str()) {
                Ok(d) => d,
                Err(e) => {
                    return Err(e);
                },
            };
            let padded = pad_left_32(&decoded);
            crate::bytes32::extend_from_bytes32(out, &padded);
            Ok(())
        },
        None => {
            let mut z: usize = 0;
            let ghost entry = out@;
            while z < 32
                invariant
                    z <= 32,
                    out@.len() == entry.len() + z,
                    out@ == entry + Seq::new(z as nat, |i: int| 0u8),
                decreases 32 - z,
            {
                out.push(0u8);
                proof {
                    assert(out@ =~= entry + Seq::new((z + 1) as nat, |i: int| 0u8));
                }
                z += 1;
            }
            proof {
                assert(out@ =~= entry + field_bytes(*field));
            }
            Ok(())
        },
    }
}

/// Appends an amount's 32-byte contribution to the public inputs.
fn push_amount(out: &mut Vec<u8>, amount: &Option<u64>)
    ensures
        final(out)@ == old(out)@ + amount_bytes_of(*amount),
{
    let a = match amount {
        Some(a) => *a,
        None => 0u64,
    };
    let bytes = crate::engine::amount_to_bytes32(a);
    crate::bytes32::extend_from_bytes32(out, &bytes);
}

/// Verifies proofs by driving the external prover tool; the subprocess work
/// lives with the service binary, the byte preparation here.
pub struct Groth16Verifier {
    /// Prover tool to invoke.
    pub snarkjs_path: String,
}

impl Groth16Verifier {
    /// A verifier that invokes the prover tool through the platform runner.
    pub fn new() -> (r: Groth16Verifier)
        ensures
            r.snarkjs_path@ == "npx"@,
    {
        Groth16Verifier { snarkjs_path: "npx".to_owned() }
    }

    /// Renders each 32-byte public input as the decimal string the prover
    /// tool expects; accepts exactly whole numbers of field elements.
    pub fn bytes_to_json_public_inputs(&self, data: &Vec<u8>) -> (r: Result<
        Vec<String>,
        VerifierError,
    >)
        ensures
            r is Ok <==> data@.len() % 32 == 0,
            r matches Ok(v) ==> {
                &&& v@.len() == data@.len() / 32
                &&& forall|i: int|
                    0 <= i < v@.len() ==> (#[trigger] v@[i])@ == decimal_of(
                        be_bytes_to_nat(data@.subrange(32 * i, 32 * i + 32)),
                    )
            },
            r is Err ==> r == Err::<Vec<String>, VerifierError>(VerifierError::InvalidPublicInputs),
    {
        if data.len() % 32 != 0 {
            return Err(VerifierError::InvalidPublicInputs);
        }
        let dn: usize = data.len();
        let num_inputs = dn / 32;
        let mut inputs: Vec<String> = Vec::new();
        let mut i: usize = 0;
        while i < num_inputs
            invariant
                i <= num_inputs,
                dn == data@.len(),
                num_inputs == data@.len() / 32,
                data@.len() % 32 == 0,
                inputs@.len() == i,
                forall|j: int|
                    0 <= j < i ==> (#[trigger] inputs@[j])@ == decimal_of(
                        be_bytes_to_nat(data@.subrange(32 * j, 32 * j + 32)),
                    ),
            decreases num_inputs - i,
        {
            proof {
                assert(32 * (i + 1) <= data@.len()) by (nonlinear_arith)
                    requires
                        i < num_inputs,
                        num_inputs == data@.len() / 32,
                        data@.len() % 32 == 0,
                        data@.len() >= 0,
                ;
            }
            let mut chunk: Vec<u8> = Vec::new();
            crate::bytes32::extend_from_range(&mut chunk, data, 32 * i, 32);
            let rendered = bytes_to_decimal(chunk.as_slice());
            inputs.push(rendered);
            i += 1;
        }
        Ok(inputs)
    }
}

/// Drives the external prover tool for one circuit; the subprocess work
/// lives with the service binary, the byte preparation here.
pub struct SnarkjsIntegration {
    /// Prover tool to invoke.
    pub snarkjs_path: String,
    /// The circuit's compiled witness generator.
    pub circuit_wasm: String,
    /// The circuit's proving key.
    pub circuit_zkey: String,
}

impl SnarkjsIntegration {
    /// Records where the prover tool and the circuit's files live.
    pub fn new(snarkjs_path: String, circuit_wasm: String, circuit_zkey: String) -> (r:
        SnarkjsIntegration)
        ensures
            r.snarkjs_path@ == snarkjs_path@,
            r.circuit_wasm@ == circuit_wasm@,
            r.circuit_zkey@ == circuit_zkey@,
    {
        SnarkjsIntegration { snarkjs_path, circuit_wasm, circuit_zkey }
    }
}

/// A byte string padded into a right-aligned 32-byte point coordinate: up to
/// its first 32 bytes, preceded by zeros.
pub open spec fn padded_coordinate(b: Seq<u8>) -> Seq<u8> {
    let l = if b.len() < 32 {
        b.len() as int
    } else {
        32
    };
    Seq::new(32, |i: int| if i < 32 - l { 0u8 } else { b[i - (32 - l)] })
}

/// Pads a decoded coordinate into the right-aligned 32-byte form the proof
/// encoding uses.
pub fn pad_left_32(bytes: &Vec<u8>) -> (r: [u8; 32])
    ensures
        r@ == padded_coordinate(bytes@),
{
    let l = if bytes.len() < 32 {
        bytes.len()
    } else {
        32
    };
    let mut r: [u8; 32] = [0u8; 32];
    let mut i: usize = 0;
    while i < l
        invariant
            i <= l,
            l == if bytes@.len() < 32 {
                bytes@.len() as int
            } else {
                32
            },
            r@.len() == 32,
            forall|j: int| 0 <= j < 32 - l ==> r@[j] == 0u8,
            forall|j: int| 32 - l <= j < 32 - l + i ==> r@[j] == bytes@[j - (32 - l)],
            forall|j: int| 32 - l + i <= j < 32 ==> r@[j] == 0u8,
        decreases l - i,
    {
        r[32 - l + i] = bytes[i];
        i += 1;
    }
    proof {
        assert(r@ =~= padded_coordinate(bytes@));
    }
    r
}

/// Generates proofs for the three operation kinds, one circuit handler
/// each; the prover invocations themselves live with the service binary.
pub struct ProofGenerator {
    /// Handler for shield proofs.
    pub shield_handler: CircuitHandler,
    /// Handler for unshield proofs.
    pub unshield_handler: CircuitHandler,
    /// Handler for transfer proofs.
    pub transfer_handler: CircuitHandler,
}

impl ProofGenerator {
    /// Assembles a generator from its three circuit handlers.
    pub fn new(
        shield_handler: CircuitHandler,
        unshield_handler: CircuitHandler,
        transfer_handler: CircuitHandler,
    ) -> (r: ProofGenerator)
        ensures
            r.shield_handler == shield_handler,
            r.unshield_handler == unshield_handler,
            r.transfer_handler == transfer_handler,
    {
        ProofGenerator { shield_handler, unshield_handler, transfer_handler }
    }
}

} // verus!
