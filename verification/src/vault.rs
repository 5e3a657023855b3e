//! The custodial vault's acceptance checks: which deposits and withdrawals
//! the vault's record admits. The token movement itself is the custody
//! collaborator's work and happens outside the engine.

use vstd::prelude::*;

verus! {

use crate::bytes32::bytes32_eq;
use crate::errors::VaultError;

/// The custodial vault record: the mint it holds, its token account, and
/// the single authority allowed to move value.
pub struct VaultState {
    /// Mint whose tokens the vault custodies.
    pub origin_mint: [u8; 32],
    /// The vault's own token account.
    pub vault_token_account: [u8; 32],
    /// The only authority allowed to move value.
    pub authority: [u8; 32],
}

/// Accepts a deposit exactly when the caller is the vault's authority and
/// the depositing account carries the vault's mint.
pub fn deposit(
    vault: &VaultState,
    authority: &[u8; 32],
    user_token_mint: &[u8; 32],
    amount: u64,
) -> (r: Result<u64, VaultError>)
    ensures
        r is Ok <==> (vault.authority@ == authority@ && vault.origin_mint@ == user_token_mint@),
        r matches Ok(a) ==> a == amount,
        vault.authority@ != authority@ ==> r == Err::<u64, VaultError>(VaultError::InvalidAuthority),
        vault.authority@ == authority@ && vault.origin_mint@ != user_token_mint@ ==> r == Err::<
            u64,
            VaultError,
        >(VaultError::InvalidMint),
{
    if !bytes32_eq(&vault.authority, authority) {
        return Err(VaultError::InvalidAuthority);
    }
    if !bytes32_eq(&vault.origin_mint, user_token_mint) {
        return Err(VaultError::InvalidMint);
    }
    Ok(amount)
}

/// Accepts a withdrawal exactly when the caller is the vault's authority,
/// the source account is the vault's own with the vault's mint, and the
/// balance covers the amount.
pub fn withdraw(
    vault: &VaultState,
    authority: &[u8; 32],
    vault_token_mint: &[u8; 32],
    vault_token_account: &[u8; 32],
    vault_balance: u64,
    amount: u64,
) -> (r: Result<u64, VaultError>)
    ensures
        r is Ok <==> (vault.authority@ == authority@ && vault.origin_mint@ == vault_token_mint@
            && vault.vault_token_account@ == vault_token_account@ && vault_balance >= amount),
        r matches Ok(a) ==> a == amount,
        vault.authority@ != authority@ ==> r == Err::<u64, VaultError>(VaultError::InvalidAuthority),
        vault.authority@ == authority@ && vault.origin_mint@ != vault_token_mint@ ==> r == Err::<
            u64,
            VaultError,
        >(VaultError::InvalidMint),
        vault.authority@ == authority@ && vault.origin_mint@ == vault_token_mint@
            && vault.vault_token_account@ != vault_token_account@ ==> r == Err::<u64, VaultError>(
            VaultError::TokenAccountMismatch,
        ),
        vault.authority@ == authority@ && vault.origin_mint@ == vault_token_mint@
            && vault.vault_token_account@ == vault_token_account@ && vault_balance < amount ==> r
            == Err::<u64, VaultError>(VaultError::InsufficientBalance),
{
    if !bytes32_eq(&vault.authority, authority) {
        return Err(VaultError::InvalidAuthority);
    }
    if !bytes32_eq(&vault.origin_mint, vault_token_mint) {
        return Err(VaultError::InvalidMint);
    }
    if !bytes32_eq(&vault.vault_token_account, vault_token_account) {
        return Err(VaultError::TokenAccountMismatch);
    }
    if vault_balance < amount {
        return Err(VaultError::InsufficientBalance);
    }
    Ok(amount)
}

} // verus!
