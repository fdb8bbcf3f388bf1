//! The procedures that touch the whole profile: first setup, unlocking, and
//! changing the master password.
use vstd::prelude::*;

use crate::auth::{
    argon2_refuses, create_verification_token, derive_master_key, derives, generate_salt,
    token_outcome, verify_master_key,
};
use crate::crypto::argon2_key;
use crate::error::VaultError;
use crate::storage::{change_encryption_to_new_master_password, has_unreadable, rotated};
use crate::store::{nothing_written, ProfileStore};
use crate::vault::Vault;

verus! {

/// Between `before` and `after` a verification token that `key` passes was
/// recorded, and nothing else.
pub open spec fn token_written(before: ProfileStore, after: ProfileStore, key: Seq<u8>) -> bool {
    &&& after.saved_token() matches Some(t) && token_outcome(key, t) == Ok::<bool, VaultError>(true)
    &&& after.saved_salt() == before.saved_salt()
    &&& after.saved_vault() == before.saved_vault()
}

/// Draws a fresh salt and records it to be written. Nothing is recorded
/// when the generator fails.
pub fn generate_and_store_salt(store: &mut ProfileStore) -> (r: Result<[u8; 16], VaultError>)
    ensures
        match r {
            Ok(s) => {
                &&& final(store).saved_salt() == Some(s@)
                &&& final(store).saved_token() == old(store).saved_token()
                &&& final(store).saved_vault() == old(store).saved_vault()
            },
            Err(e) => e == VaultError::RandomUnavailable && nothing_written(
                *old(store),
                *final(store),
            ),
        },
{
    let salt = generate_salt()?;
    store.save_salt(salt.as_slice());
    Ok(salt)
}

/// Sets the first master password: derives its key from the salt, records
/// a fresh verification token for it, and returns the key. It fails with
/// `DerivationFailed` exactly when Argon2 refuses the password or salt;
/// on any failure nothing is recorded.
pub fn set_master_password(store: &mut ProfileStore, password: &str, salt: &[u8]) -> (r: Result<
    [u8; 32],
    VaultError,
>)
    ensures
        (r == Err::<[u8; 32], VaultError>(VaultError::DerivationFailed)) <==> argon2_refuses(
            password@,
            salt@,
        ),
        match r {
            Ok(k) => derives(password@, salt@, k@) && token_written(*old(store), *final(store), k@),
            Err(e) => (e == VaultError::DerivationFailed || e == VaultError::RandomUnavailable)
                && nothing_written(*old(store), *final(store)),
        },
{
    let key = derive_master_key(password, salt)?;
    let token = create_verification_token(&key)?;
    store.save_token(token.as_slice());
    Ok(key)
}

/// Unlocks a profile: derives the key for `password` and checks it against
/// the stored token. `Ok(None)` is a wrong password; a token shorter than
/// its nonce is `Tampered`.
pub fn unlock(password: &str, salt: &[u8], token: &[u8]) -> (r: Result<Option<[u8; 32]>, VaultError>)
    ensures
        match r {
            Ok(Some(k)) => derives(password@, salt@, k@) && token_outcome(k@, token@) == Ok::<
                bool,
                VaultError,
            >(true),
            Ok(None) => exists|k: Seq<u8>|
                derives(password@, salt@, k) && token_outcome(k, token@) == Ok::<bool, VaultError>(
                    false,
                ),
            Err(e) => (e == VaultError::DerivationFailed && argon2_key(
                vstd::utf8::encode_utf8(password@),
                salt@,
            ) is None) || (e == VaultError::Tampered && token@.len() < crate::crypto::NONCE_LEN),
        },
{
    let key = derive_master_key(password, salt)?;
    if verify_master_key(&key, token)? {
        Ok(Some(key))
    } else {
        Ok(None)
    }
}

/// Changes the master password. When the two entries differ nothing
/// changes and the result is `Ok(None)`. Otherwise the new key is derived
/// from the existing salt, every entry is re-sealed under it and the vault
/// recorded, then a fresh token for the new key is recorded, and the new key
/// is returned. The salt is never replaced. On an error nothing has changed.
pub fn change_password(
    store: &mut ProfileStore,
    vault: &mut Vault,
    master_key: &[u8; 32],
    new_password: &str,
    repeated: &str,
    salt: &[u8],
) -> (r: Result<Option<[u8; 32]>, VaultError>)
    requires
        old(vault).wf(),
    ensures
        final(vault).wf(),
        new_password@ != repeated@ ==> r == Ok::<Option<[u8; 32]>, VaultError>(None),
        (r == Err::<Option<[u8; 32]>, VaultError>(VaultError::DerivationFailed)) <==> (
        new_password@ == repeated@ && argon2_refuses(new_password@, salt@)),
        has_unreadable(old(vault)@, master_key@) && new_password@ == repeated@ ==> r is Err,
        match r {
            Ok(Some(k)) => {
                &&& new_password@ == repeated@
                &&& derives(new_password@, salt@, k@)
                &&& rotated(old(vault)@, final(vault)@, master_key@, k@)
                &&& final(store).saved_vault() == Some(final(vault)@)
                &&& final(store).saved_token() matches Some(t) && token_outcome(k@, t) == Ok::<
                    bool,
                    VaultError,
                >(true)
                &&& final(store).saved_salt() == old(store).saved_salt()
            },
            Ok(None) => new_password@ != repeated@ && final(vault)@ == old(vault)@
                && nothing_written(*old(store), *final(store)),
            Err(e) => final(vault)@ == old(vault)@ && new_password@ == repeated@ && nothing_written(
                *old(store),
                *final(store),
            ) && (e == VaultError::Undecryptable ==> has_unreadable(old(vault)@, master_key@)),
        },
{
    let a = new_password.to_owned();
    let b = repeated.to_owned();
    if !(a == b) {
        return Ok(None);
    }
    let new_key = derive_master_key(new_password, salt)?;
    let token = create_verification_token(&new_key)?;
    change_encryption_to_new_master_password(store, vault, master_key, &new_key)?;
    store.save_token(token.as_slice());
    Ok(Some(new_key))
}

} // verus!
