//! The failures the vault distinguishes.
use vstd::prelude::*;

verus! {

/// Why an operation of the vault did not complete.
#[derive(Debug, Clone, Copy, PartialEq, Eq, Structural)]
pub enum VaultError {
    /// The operating system's random generator could not be read.
    RandomUnavailable,
    /// Argon2 refused the password or salt.
    DerivationFailed,
    /// AES-GCM refused to seal the plaintext.
    EncryptionFailed,
    /// The verification token is shorter than its nonce: it was altered.
    Tampered,
    /// A stored entry does not open under the key that should have sealed it.
    Undecryptable,
    /// A stored entry opened, but its plaintext is not UTF-8 text.
    InvalidEncoding,
}

} // verus!
