//! The primitives the vault relies on: sealing, key derivation, randomness
//! and UTF-8 decoding. Every function here makes one call into an outside
//! crate or std; its contract is what that code documents about the call.
use vstd::prelude::*;

use aes_gcm::aead::{Aead, KeyInit};
use aes_gcm::{Aes256Gcm, Key, Nonce};
use argon2::Argon2;
use rand::rngs::{OsRng, StdRng};
use rand::{Rng, SeedableRng, TryRngCore};

verus! {

/// Length in bytes of an AES-GCM nonce.
pub const NONCE_LEN: usize = 12;

/// Length in bytes of an AES-GCM authentication tag.
pub const TAG_LEN: usize = 16;

/// Longest plaintext, in bytes, that AES-GCM seals.
pub const MAX_PLAIN_LEN: u64 = 0x1000000000;

/// Shortest salt, in bytes, that Argon2 accepts.
pub const MIN_SALT_LEN: usize = 8;

/// Longest password or salt, in bytes, that Argon2 accepts.
pub const MAX_ARGON2_INPUT_LEN: u64 = 0xFFFFFFFF;

/// What AES-256-GCM produces when it seals `plain` under `key` and `nonce`
/// (`None` where the cipher refuses the input).
pub uninterp spec fn aes_gcm_sealed(key: Seq<u8>, nonce: Seq<u8>, plain: Seq<u8>) -> Option<Seq<u8>>;

/// What AES-256-GCM recovers when it opens `cipher` under `key` and `nonce`
/// (`None` where the authentication tag does not match).
pub uninterp spec fn aes_gcm_opened(key: Seq<u8>, nonce: Seq<u8>, cipher: Seq<u8>) -> Option<Seq<u8>>;

/// The 32-byte key that Argon2id with its default parameters derives from
/// `password` and `salt` (`None` where Argon2 refuses the input).
pub uninterp spec fn argon2_key(password: Seq<u8>, salt: Seq<u8>) -> Option<Seq<u8>>;

/// Relies on `rand::rngs::OsRng::try_fill_bytes`: fills the buffer with bytes
/// from the operating system's generator, or reports that it could not.
#[verifier::external_body]
pub(crate) fn os_random_fill(buf: &mut Vec<u8>) -> (ok: bool)
    ensures
        final(buf)@.len() == old(buf)@.len(),
{
    OsRng.try_fill_bytes(buf.as_mut_slice()).is_ok()
}

/// Relies on `aes_gcm::Aes256Gcm::encrypt` (through `aead::Aead`): it
/// refuses only plaintexts longer than `MAX_PLAIN_LEN`; the ciphertext is
/// the plaintext's length plus the tag, and opening it under the same key and
/// nonce gives the plaintext back.
#[verifier::external_body]
pub(crate) fn aes_gcm_seal(key: &[u8; 32], nonce: &[u8], plain: &[u8]) -> (r: Option<Vec<u8>>)
    requires
        nonce@.len() == NONCE_LEN,
    ensures
        match r {
            Some(c) => {
                &&& aes_gcm_sealed(key@, nonce@, plain@) == Some(c@)
                &&& c@.len() == plain@.len() + TAG_LEN
                &&& aes_gcm_opened(key@, nonce@, c@) == Some(plain@)
            },
            None => aes_gcm_sealed(key@, nonce@, plain@) is None,
        },
        plain@.len() <= MAX_PLAIN_LEN ==> r is Some,
{
    let cipher = Aes256Gcm::new(Key::<Aes256Gcm>::from_slice(key));
    cipher.encrypt(Nonce::from_slice(nonce), plain).ok()
}

/// Relies on `aes_gcm::Aes256Gcm::decrypt` (through `aead::Aead`): the
/// plaintext if the tag authenticates the ciphertext under the key and
/// nonce, nothing otherwise.
#[verifier::external_body]
pub(crate) fn aes_gcm_open(key: &[u8; 32], nonce: &[u8], cipher: &[u8]) -> (r: Option<Vec<u8>>)
    requires
        nonce@.len() == NONCE_LEN,
    ensures
        match r {
            Some(p) => aes_gcm_opened(key@, nonce@, cipher@) == Some(p@),
            None => aes_gcm_opened(key@, nonce@, cipher@) is None,
        },
{
    let c = Aes256Gcm::new(Key::<Aes256Gcm>::from_slice(key));
    c.decrypt(Nonce::from_slice(nonce), cipher).ok()
}

/// Relies on `argon2::Argon2::hash_password_into` with `Argon2::default()`
/// (Argon2id) and a 32-byte output: the derived key is a function of
/// password and salt; it fails exactly when the salt is shorter than
/// `MIN_SALT_LEN` or the password or salt is longer than
/// `MAX_ARGON2_INPUT_LEN`.
#[verifier::external_body]
pub(crate) fn argon2_derive(password: &[u8], salt: &[u8]) -> (r: Option<[u8; 32]>)
    ensures
        match r {
            Some(k) => argon2_key(password@, salt@) == Some(k@),
            None => argon2_key(password@, salt@) is None,
        },
        r is None <==> (salt@.len() < MIN_SALT_LEN || salt@.len() > MAX_ARGON2_INPUT_LEN
            || password@.len() > MAX_ARGON2_INPUT_LEN),
{
    let mut out = [0u8; 32];
    Argon2::default().hash_password_into(password, salt, &mut out).ok().map(|_| out)
}

/// Relies on `String::from_utf8`: succeeds exactly on valid UTF-8, and then
/// holds the characters those bytes encode.
#[verifier::external_body]
pub(crate) fn utf8_decode(bytes: Vec<u8>) -> (r: Option<String>)
    ensures
        r is Some <==> vstd::utf8::valid_utf8(bytes@),
        r matches Some(s) ==> s@ == vstd::utf8::decode_utf8(bytes@),
{
    String::from_utf8(bytes).ok()
}

/// Relies on `rand::rngs::StdRng::try_from_os_rng`, which reports a failure
/// of the operating system's generator, and `rand::Rng::random_range` on
/// the seeded generator: a value in `0..n`. `random_range` panics on an
/// empty range, which the precondition excludes.
#[verifier::external_body]
pub(crate) fn random_below(n: usize) -> (r: Option<usize>)
    requires
        n > 0,
    ensures
        r matches Some(v) ==> v < n,
{
    StdRng::try_from_os_rng().ok().map(|mut g| g.random_range(0..n))
}

} // verus!
