//! Factory bookkeeping: the authority record, mint-to-pool mappings, and
//! verifying-key creation on behalf of the authority.

use vstd::prelude::*;

verus! {

use crate::errors::FactoryError;
use crate::errors::VerifierError;
use crate::groth16::{initialize_verifying_key, vk_parse_ok, VerifyingKeyAccount};

/// The factory's root record: who may register mints and keys.
pub struct FactoryState {
    /// The managing authority.
    pub authority: [u8; 32],
}

/// A registered mapping from an origin mint to its pool.
pub struct MintMapping {
    /// The mint whose value the pool shields.
    pub origin_mint: [u8; 32],
    /// The pool registered for it.
    pub pool: [u8; 32],
    /// Twin mint, once one exists.
    pub twin_mint: Option<[u8; 32]>,
}

/// Creates the factory record under `authority`.
pub fn initialize_factory(authority: &[u8; 32]) -> (r: FactoryState)
    ensures
        r.authority == authority,
{
    FactoryState { authority: *authority }
}

/// Registers a mint-to-pool mapping; accepts exactly the factory authority.
pub fn register_mint(
    factory: &FactoryState,
    authority: &[u8; 32],
    origin_mint: &[u8; 32],
    pool: &[u8; 32],
) -> (r: Result<MintMapping, FactoryError>)
    ensures
        r is Ok <==> factory.authority@ == authority@,
        r matches Ok(m) ==> {
            &&& m.origin_mint == origin_mint
            &&& m.pool == pool
            &&& m.twin_mint is None
        },
        r is Err ==> r == Err::<MintMapping, FactoryError>(FactoryError::InvalidAuthority),
{
    if !crate::bytes32::bytes32_eq(&factory.authority, authority) {
        return Err(FactoryError::InvalidAuthority);
    }
    proof {
        assert(factory.authority@ =~= authority@);
    }
    Ok(MintMapping { origin_mint: *origin_mint, pool: *pool, twin_mint: None })
}

/// Creates a verifying-key record on behalf of the factory authority;
/// accepts exactly the factory authority and the complete key encodings.
pub fn create_verifying_key(
    factory: &FactoryState,
    authority: &[u8; 32],
    circuit_tag: &[u8; 32],
    version: u32,
    key_data: Vec<u8>,
) -> (r: Result<VerifyingKeyAccount, VerifierError>)
    ensures
        r is Ok <==> (factory.authority@ == authority@ && vk_parse_ok(key_data@)),
        r matches Ok(acct) ==> {
            &&& acct.circuit_tag == circuit_tag
            &&& acct.version == version
            &&& acct.key_data@ == key_data@
            &&& acct.revoked == false
            &&& acct.authority == authority
        },
        factory.authority@ != authority@ ==> r == Err::<VerifyingKeyAccount, VerifierError>(
            VerifierError::InvalidAuthority,
        ),
        factory.authority@ == authority@ && !vk_parse_ok(key_data@) ==> r == Err::<
            VerifyingKeyAccount,
            VerifierError,
        >(VerifierError::InvalidVerifyingKey),
{
    if !crate::bytes32::bytes32_eq(&factory.authority, authority) {
        return Err(VerifierError::InvalidAuthority);
    }
    initialize_verifying_key(circuit_tag, version, key_data, authority)
}

} // verus!
