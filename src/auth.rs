//! The profile's salt, the derivation of the master key from a password, and
//! the verification token that proves a candidate key without storing it.
use vstd::prelude::*;

use crate::crypto::{
    aes_gcm_open, aes_gcm_opened, aes_gcm_seal, aes_gcm_sealed, argon2_derive, argon2_key,
    os_random_fill, MAX_ARGON2_INPUT_LEN, MAX_PLAIN_LEN, MIN_SALT_LEN, NONCE_LEN, TAG_LEN,
};
use crate::error::VaultError;

verus! {

/// Length in bytes of the salt.
pub const SALT_LEN: usize = 16;

/// Length in bytes of the master key.
pub const KEY_LEN: usize = 32;

/// Length in bytes of the random value sealed in a verification token.
pub const TOKEN_PAYLOAD_LEN: usize = 32;

/// `key` is what Argon2id derives from `password` (as UTF-8) and `salt`.
pub open spec fn derives(password: Seq<char>, salt: Seq<u8>, key: Seq<u8>) -> bool {
    argon2_key(vstd::utf8::encode_utf8(password), salt) == Some(key)
}

/// Argon2 refuses this password and salt: the salt is too short, or the
/// password's UTF-8 bytes or the salt too long.
pub open spec fn argon2_refuses(password: Seq<char>, salt: Seq<u8>) -> bool {
    ||| salt.len() < MIN_SALT_LEN
    ||| salt.len() > MAX_ARGON2_INPUT_LEN
    ||| vstd::utf8::encode_utf8(password).len() > MAX_ARGON2_INPUT_LEN
}

/// The nonce that starts a token of at least `NONCE_LEN` bytes.
pub open spec fn token_nonce(token: Seq<u8>) -> Seq<u8> {
    token.subrange(0, NONCE_LEN as int)
}

/// The sealed payload that follows the nonce in a token.
pub open spec fn token_cipher(token: Seq<u8>) -> Seq<u8> {
    token.subrange(NONCE_LEN as int, token.len() as int)
}

/// What checking `key` against the stored `token` gives: an integrity error
/// for a token too short to hold its nonce, else whether the token opens.
pub open spec fn token_outcome(key: Seq<u8>, token: Seq<u8>) -> Result<bool, VaultError> {
    if token.len() < NONCE_LEN {
        Err(VaultError::Tampered)
    } else {
        Ok(aes_gcm_opened(key, token_nonce(token), token_cipher(token)) is Some)
    }
}

/// Whether a profile is configured: true exactly when both the salt file and
/// the verification token file are present.
pub fn master_password_exists(salt_present: bool, token_present: bool) -> (r: bool)
    ensures
        r == (salt_present && token_present),
{
    salt_present && token_present
}

/// Draws a fresh salt from the operating system's generator.
pub fn generate_salt() -> (r: Result<[u8; 16], VaultError>)
    ensures
        r matches Err(e) ==> e == VaultError::RandomUnavailable,
{
    let mut buf: Vec<u8> = vec![0u8; SALT_LEN];
    if !os_random_fill(&mut buf) {
        return Err(VaultError::RandomUnavailable);
    }
    Ok(load_salt(buf.as_slice()).unwrap())
}

/// Reads a salt from the salt file's contents: exactly `SALT_LEN` bytes, any
/// other length counts as no salt.
pub fn load_salt(contents: &[u8]) -> (r: Option<[u8; 16]>)
    ensures
        r is Some <==> contents@.len() == SALT_LEN,
        r matches Some(s) ==> s@ == contents@,
{
    if contents.len() != SALT_LEN {
        return None;
    }
    let mut salt = [0u8; 16];
    let mut i: usize = 0;
    while i < SALT_LEN
        invariant
            contents@.len() == SALT_LEN,
            i <= SALT_LEN,
            salt@.len() == SALT_LEN,
            forall|j: int| 0 <= j < i ==> salt@[j] == contents@[j],
        decreases SALT_LEN - i,
    {
        salt[i] = contents[i];
        i = i + 1;
    }
    assert(salt@ =~= contents@);
    Some(salt)
}

/// Derives the master key from the password and salt with Argon2id. The same
/// password and salt give the same key; it fails, with `DerivationFailed`,
/// exactly when Argon2 refuses their lengths.
pub fn derive_master_key(master_password: &str, salt: &[u8]) -> (r: Result<[u8; 32], VaultError>)
    ensures
        match r {
            Ok(k) => derives(master_password@, salt@, k@),
            Err(e) => e == VaultError::DerivationFailed
                && argon2_key(vstd::utf8::encode_utf8(master_password@), salt@) is None,
        },
        r is Err <==> argon2_refuses(master_password@, salt@),
{
    match argon2_derive(master_password.as_bytes(), salt) {
        Some(k) => Ok(k),
        None => Err(VaultError::DerivationFailed),
    }
}

/// Two derivations from the same password and salt give the same key.
pub proof fn lemma_derivation_deterministic(
    password: Seq<char>,
    salt: Seq<u8>,
    k1: Seq<u8>,
    k2: Seq<u8>,
)
    requires
        derives(password, salt, k1),
        derives(password, salt, k2),
    ensures
        k1 == k2,
{
}

/// Seals `payload` under the key with the given nonce, and frames the token
/// as the nonce followed by the ciphertext.
pub fn seal_verification_token(master_key: &[u8; 32], payload: &[u8], nonce: &[u8]) -> (r: Result<
    Vec<u8>,
    VaultError,
>)
    requires
        nonce@.len() == NONCE_LEN,
    ensures
        match r {
            Ok(t) => {
                &&& t@.len() == NONCE_LEN + payload@.len() + TAG_LEN
                &&& token_nonce(t@) == nonce@
                &&& aes_gcm_sealed(master_key@, nonce@, payload@) == Some(token_cipher(t@))
                &&& token_outcome(master_key@, t@) == Ok::<bool, VaultError>(true)
            },
            Err(e) => e == VaultError::EncryptionFailed && aes_gcm_sealed(
                master_key@,
                nonce@,
                payload@,
            ) is None,
        },
        r is Err ==> payload@.len() > MAX_PLAIN_LEN,
{
    match aes_gcm_seal(master_key, nonce, payload) {
        None => Err(VaultError::EncryptionFailed),
        Some(c) => {
            let mut token: Vec<u8> = Vec::new();
            let mut i: usize = 0;
            while i < nonce.len()
                invariant
                    i <= nonce@.len(),
                    token@ == nonce@.subrange(0, i as int),
                decreases nonce@.len() - i,
            {
                token.push(nonce[i]);
                i = i + 1;
            }
            let mut j: usize = 0;
            while j < c.len()
                invariant
                    j <= c@.len(),
                    token@ == nonce@ + c@.subrange(0, j as int),
                decreases c@.len() - j,
            {
                token.push(c[j]);
                j = j + 1;
            }
            assert(token@.subrange(0, NONCE_LEN as int) =~= nonce@);
            assert(token@.subrange(NONCE_LEN as int, token@.len() as int) =~= c@);
            Ok(token)
        },
    }
}

/// Makes a fresh verification token for the key: a random nonce followed by
/// the AES-GCM seal of a random 32-byte payload under it. Checking the same
/// key against it succeeds. Only the random generator can make it fail.
pub fn create_verification_token(master_key: &[u8; 32]) -> (r: Result<Vec<u8>, VaultError>)
    ensures
        match r {
            Ok(t) => {
                &&& t@.len() == NONCE_LEN + TOKEN_PAYLOAD_LEN + TAG_LEN
                &&& exists|p: Seq<u8>|
                    p.len() == TOKEN_PAYLOAD_LEN && aes_gcm_sealed(master_key@, token_nonce(t@), p)
                        == Some(token_cipher(t@))
                &&& token_outcome(master_key@, t@) == Ok::<bool, VaultError>(true)
            },
            Err(e) => e == VaultError::RandomUnavailable,
        },
{
    let mut payload: Vec<u8> = vec![0u8; TOKEN_PAYLOAD_LEN];
    if !os_random_fill(&mut payload) {
        return Err(VaultError::RandomUnavailable);
    }
    let mut nonce: Vec<u8> = vec![0u8; NONCE_LEN];
    if !os_random_fill(&mut nonce) {
        return Err(VaultError::RandomUnavailable);
    }
    let r = seal_verification_token(master_key, payload.as_slice(), nonce.as_slice());
    proof {
        if r is Ok {
            let t = r->Ok_0;
            assert(payload@.len() == TOKEN_PAYLOAD_LEN && aes_gcm_sealed(
                master_key@,
                token_nonce(t@),
                payload@,
            ) == Some(token_cipher(t@)));
        }
    }
    r
}

/// Checks a candidate key against the stored token: `Tampered` when the
/// token is shorter than its nonce, else whether the token opens under the
/// key. A wrong key is `Ok(false)`, never an error.
pub fn verify_master_key(master_key: &[u8; 32], token: &[u8]) -> (r: Result<bool, VaultError>)
    ensures
        r == token_outcome(master_key@, token@),
{
    if token.len() < NONCE_LEN {
        return Err(VaultError::Tampered);
    }
    let nonce = vstd::slice::slice_subrange(token, 0, NONCE_LEN);
    let cipher = vstd::slice::slice_subrange(token, NONCE_LEN, token.len());
    Ok(aes_gcm_open(master_key, nonce, cipher).is_some())
}

} // verus!
