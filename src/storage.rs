//! Sealing secrets into the vault, reading them back, and re-sealing the
//! whole vault under a new master key.
use vstd::prelude::*;

use crate::crypto::{
    aes_gcm_open, aes_gcm_opened, aes_gcm_seal, aes_gcm_sealed, os_random_fill, utf8_decode,
    MAX_PLAIN_LEN, NONCE_LEN, TAG_LEN,
};
use crate::error::VaultError;
use crate::store::{nothing_written, vault_written, ProfileStore};
use crate::vault::{EncryptedPassword, Vault};

verus! {

/// The plaintext bytes that an entry opens to under `key`; an entry whose
/// nonce has the wrong length does not open.
pub open spec fn entry_plain(key: Seq<u8>, entry: (Seq<u8>, Seq<u8>)) -> Option<Seq<u8>> {
    if entry.0.len() == NONCE_LEN {
        aes_gcm_opened(key, entry.0, entry.1)
    } else {
        None
    }
}

/// What reading an entry under `key` gives: nothing when it does not open,
/// an encoding error when it opens to bytes that are not UTF-8, else the text.
pub open spec fn entry_text(key: Seq<u8>, entry: (Seq<u8>, Seq<u8>)) -> Result<
    Option<Seq<char>>,
    VaultError,
> {
    match entry_plain(key, entry) {
        None => Ok(None),
        Some(b) => if vstd::utf8::valid_utf8(b) {
            Ok(Some(vstd::utf8::decode_utf8(b)))
        } else {
            Err(VaultError::InvalidEncoding)
        },
    }
}

/// What reading `label` from the vault under `key` gives; an absent label
/// reads as nothing.
pub open spec fn lookup_text(
    vault: Map<Seq<char>, (Seq<u8>, Seq<u8>)>,
    label: Seq<char>,
    key: Seq<u8>,
) -> Result<Option<Seq<char>>, VaultError> {
    if vault.contains_key(label) {
        entry_text(key, vault[label])
    } else {
        Ok(None)
    }
}

/// The view of a read's result.
pub open spec fn text_view(r: Result<Option<String>, VaultError>) -> Result<
    Option<Seq<char>>,
    VaultError,
> {
    match r {
        Ok(Some(s)) => Ok(Some(s@)),
        Ok(None) => Ok(None),
        Err(e) => Err(e),
    }
}

/// `after` is `before` with `label` now holding an entry that reads as
/// `text` under `key` (a nonce, and a ciphertext the length of the text's
/// bytes plus the tag), and every other label untouched.
pub open spec fn holds_added(
    before: Map<Seq<char>, (Seq<u8>, Seq<u8>)>,
    after: Map<Seq<char>, (Seq<u8>, Seq<u8>)>,
    label: Seq<char>,
    text: Seq<char>,
    key: Seq<u8>,
) -> bool {
    &&& after.contains_key(label)
    &&& after == before.insert(label, after[label])
    &&& entry_text(key, after[label]) == Ok::<Option<Seq<char>>, VaultError>(Some(text))
    &&& after[label].0.len() == NONCE_LEN
    &&& after[label].1.len() == vstd::utf8::encode_utf8(text).len() + TAG_LEN
}

/// The text's UTF-8 bytes are too long for AES-GCM to seal.
pub open spec fn too_long_to_seal(text: Seq<char>) -> bool {
    vstd::utf8::encode_utf8(text).len() > MAX_PLAIN_LEN
}

/// `after` holds the same labels as `before`, and each entry opens under
/// `new_key` to the bytes its old entry opened to under `old_key`.
pub open spec fn rotated(
    before: Map<Seq<char>, (Seq<u8>, Seq<u8>)>,
    after: Map<Seq<char>, (Seq<u8>, Seq<u8>)>,
    old_key: Seq<u8>,
    new_key: Seq<u8>,
) -> bool {
    &&& after.dom() == before.dom()
    &&& forall|l: Seq<char>| #[trigger]
        before.contains_key(l) ==> entry_plain(old_key, before[l]) is Some && entry_plain(
            new_key,
            after[l],
        ) == entry_plain(old_key, before[l])
}

/// Some entry of the vault does not open under `key`.
pub open spec fn has_unreadable(vault: Map<Seq<char>, (Seq<u8>, Seq<u8>)>, key: Seq<u8>) -> bool {
    exists|l: Seq<char>| #[trigger] vault.contains_key(l) && entry_plain(key, vault[l]) is None
}

/// Seals `password` under the key with the given nonce. The entry reads
/// back as the same password under the same key.
pub fn encrypt_password(password: &str, master_key: &[u8; 32], nonce: &[u8]) -> (r: Result<
    EncryptedPassword,
    VaultError,
>)
    requires
        nonce@.len() == NONCE_LEN,
    ensures
        match r {
            Ok(e) => {
                &&& e.nonce@ == nonce@
                &&& e.cipher@.len() == vstd::utf8::encode_utf8(password@).len() + TAG_LEN
                &&& aes_gcm_sealed(master_key@, nonce@, vstd::utf8::encode_utf8(password@))
                    == Some(e.cipher@)
                &&& entry_text(master_key@, e@) == Ok::<Option<Seq<char>>, VaultError>(
                    Some(password@),
                )
            },
            Err(err) => err == VaultError::EncryptionFailed && aes_gcm_sealed(
                master_key@,
                nonce@,
                vstd::utf8::encode_utf8(password@),
            ) is None && too_long_to_seal(password@),
        },
{
    match aes_gcm_seal(master_key, nonce, password.as_bytes()) {
        None => Err(VaultError::EncryptionFailed),
        Some(c) => {
            let n = vstd::slice::slice_to_vec(nonce);
            proof {
                vstd::utf8::encode_utf8_valid_utf8(password@);
                vstd::utf8::encode_utf8_decode_utf8(password@);
            }
            Ok(EncryptedPassword { nonce: n, cipher: c })
        },
    }
}

/// Opens an entry under the key: nothing if it does not open (a wrong key
/// and an altered entry look the same), an encoding error if the plaintext
/// is not UTF-8, else the text.
pub fn decrypt_password(entry: &EncryptedPassword, master_key: &[u8; 32]) -> (r: Result<
    Option<String>,
    VaultError,
>)
    ensures
        text_view(r) == entry_text(master_key@, entry@),
{
    if entry.nonce.len() != NONCE_LEN {
        return Ok(None);
    }
    match aes_gcm_open(master_key, entry.nonce.as_slice(), entry.cipher.as_slice()) {
        None => Ok(None),
        Some(b) => match utf8_decode(b) {
            Some(s) => Ok(Some(s)),
            None => Err(VaultError::InvalidEncoding),
        },
    }
}

/// Decrypting what was just encrypted under the same key gives the
/// plaintext back.
pub proof fn lemma_round_trip(key: Seq<u8>, nonce: Seq<u8>, text: Seq<char>, cipher: Seq<u8>)
    requires
        nonce.len() == NONCE_LEN,
        aes_gcm_opened(key, nonce, cipher) == Some(vstd::utf8::encode_utf8(text)),
    ensures
        entry_text(key, (nonce, cipher)) == Ok::<Option<Seq<char>>, VaultError>(Some(text)),
{
    vstd::utf8::encode_utf8_valid_utf8(text);
    vstd::utf8::encode_utf8_decode_utf8(text);
}

/// Seals `password` under a fresh random nonce and stores it at `label`,
/// replacing any entry there. On failure the vault is unchanged.
pub fn add_password(vault: &mut Vault, label: &str, password: &str, master_key: &[u8; 32]) -> (r:
    Result<(), VaultError>)
    requires
        old(vault).wf(),
    ensures
        final(vault).wf(),
        match r {
            Ok(()) => holds_added(old(vault)@, final(vault)@, label@, password@, master_key@),
            Err(e) => final(vault)@ == old(vault)@ && (e == VaultError::RandomUnavailable || (e
                == VaultError::EncryptionFailed && too_long_to_seal(password@))),
        },
{
    let mut nonce: Vec<u8> = vec![0u8; NONCE_LEN];
    if !os_random_fill(&mut nonce) {
        return Err(VaultError::RandomUnavailable);
    }
    let entry = encrypt_password(password, master_key, nonce.as_slice())?;
    let ghost e = entry@;
    vault.insert(label.to_owned(), entry);
    assert(final(vault)@[label@] == e);
    Ok(())
}

/// Adds a password as `add_password` does, then records the whole vault to
/// be written. On failure nothing is recorded.
pub fn add_and_save_password(
    store: &mut ProfileStore,
    vault: &mut Vault,
    label: &str,
    password: &str,
    master_key: &[u8; 32],
) -> (r: Result<(), VaultError>)
    requires
        old(vault).wf(),
    ensures
        final(vault).wf(),
        match r {
            Ok(()) => holds_added(old(vault)@, final(vault)@, label@, password@, master_key@),
            Err(e) => final(vault)@ == old(vault)@ && (e == VaultError::RandomUnavailable || (e
                == VaultError::EncryptionFailed && too_long_to_seal(password@))),
        },
        match r {
            Ok(()) => vault_written(*old(store), *final(store), final(vault)@),
            Err(_) => nothing_written(*old(store), *final(store)),
        },
{
    add_password(vault, label, password, master_key)?;
    store.save_vault(vault);
    Ok(())
}

/// Reads the secret stored at `label` under the key: nothing if the label is
/// absent or its entry does not open, an encoding error if it opens to bytes
/// that are not text.
pub fn get_password(vault: &Vault, label: &str, master_key: &[u8; 32]) -> (r: Result<
    Option<String>,
    VaultError,
>)
    requires
        vault.wf(),
    ensures
        text_view(r) == lookup_text(vault@, label@, master_key@),
{
    match vault.get(label) {
        None => Ok(None),
        Some(e) => decrypt_password(e, master_key),
    }
}

/// After a password is added, reading its label under the same key gives it
/// back, and every other label reads as before.
pub proof fn lemma_added_password_reads_back(
    before: Map<Seq<char>, (Seq<u8>, Seq<u8>)>,
    after: Map<Seq<char>, (Seq<u8>, Seq<u8>)>,
    label: Seq<char>,
    text: Seq<char>,
    key: Seq<u8>,
)
    requires
        holds_added(before, after, label, text, key),
    ensures
        lookup_text(after, label, key) == Ok::<Option<Seq<char>>, VaultError>(Some(text)),
        forall|l: Seq<char>, k: Seq<u8>|
            l != label ==> #[trigger] lookup_text(after, l, k) == lookup_text(before, l, k),
{
}

/// Deletes the entry at `label`, which the caller has found present.
pub fn remove_password(vault: &mut Vault, label: &str)
    requires
        old(vault).wf(),
        old(vault)@.contains_key(label@),
    ensures
        final(vault).wf(),
        final(vault)@ == old(vault)@.remove(label@),
{
    vault.remove(label);
}

/// Deletes the entry at `label`, which the caller has found present, then
/// records the whole vault to be written.
pub fn remove_password_and_save(store: &mut ProfileStore, vault: &mut Vault, label: &str)
    requires
        old(vault).wf(),
        old(vault)@.contains_key(label@),
    ensures
        final(vault).wf(),
        final(vault)@ == old(vault)@.remove(label@),
        vault_written(*old(store), *final(store), final(vault)@),
{
    remove_password(vault, label);
    store.save_vault(vault);
}

/// Opens `entry` under the old key and seals the same bytes under the new
/// key with a fresh random nonce.
fn reseal_entry(entry: &EncryptedPassword, old_key: &[u8; 32], new_key: &[u8; 32]) -> (r: Result<
    EncryptedPassword,
    VaultError,
>)
    ensures
        match r {
            Ok(e) => entry_plain(old_key@, entry@) is Some && entry_plain(new_key@, e@)
                == entry_plain(old_key@, entry@),
            Err(err) => (err == VaultError::Undecryptable <==> entry_plain(old_key@, entry@) is None)
                && (err == VaultError::Undecryptable || err == VaultError::RandomUnavailable || err
                == VaultError::EncryptionFailed),
        },
{
    if entry.nonce.len() != NONCE_LEN {
        return Err(VaultError::Undecryptable);
    }
    let plain = match aes_gcm_open(old_key, entry.nonce.as_slice(), entry.cipher.as_slice()) {
        Some(p) => p,
        None => {
            return Err(VaultError::Undecryptable);
        },
    };
    let mut nonce: Vec<u8> = vec![0u8; NONCE_LEN];
    if !os_random_fill(&mut nonce) {
        return Err(VaultError::RandomUnavailable);
    }
    match aes_gcm_seal(new_key, nonce.as_slice(), plain.as_slice()) {
        Some(c) => Ok(EncryptedPassword { nonce, cipher: c }),
        None => Err(VaultError::EncryptionFailed),
    }
}

/// Re-seals every entry under `new_master_key`: each is opened under
/// `old_master_key` and sealed again with a fresh nonce, then the whole vault
/// is recorded to be written. If any entry does not open, or sealing fails,
/// the vault is left as it was and nothing is recorded.
pub fn change_encryption_to_new_master_password(
    store: &mut ProfileStore,
    vault: &mut Vault,
    old_master_key: &[u8; 32],
    new_master_key: &[u8; 32],
) -> (r: Result<(), VaultError>)
    requires
        old(vault).wf(),
    ensures
        final(vault).wf(),
        has_unreadable(old(vault)@, old_master_key@) ==> r is Err,
        match r {
            Ok(()) => rotated(old(vault)@, final(vault)@, old_master_key@, new_master_key@),
            Err(e) => final(vault)@ == old(vault)@ && (e == VaultError::Undecryptable ==> has_unreadable(
                old(vault)@,
                old_master_key@,
            )) && (e == VaultError::Undecryptable || e == VaultError::RandomUnavailable || e
                == VaultError::EncryptionFailed),
        },
        match r {
            Ok(()) => vault_written(*old(store), *final(store), final(vault)@),
            Err(_) => nothing_written(*old(store), *final(store)),
        },
{
    let n = vault.len();
    let mut fresh = Vault::new();
    let mut i: usize = 0;
    while i < n
        invariant
            vault.wf(),
            fresh.wf(),
            n == vault.spec_len(),
            i <= n,
            forall|l: Seq<char>|
                vault@.contains_key(l) <==> exists|j: int| 0 <= j < n && vault.spec_label_at(j) == l,
            forall|l: Seq<char>|
                #[trigger] fresh@.contains_key(l) <==> exists|j: int|
                    0 <= j < i && vault.spec_label_at(j) == l,
            forall|l: Seq<char>|
                #[trigger] fresh@.contains_key(l) ==> vault@.contains_key(l) && entry_plain(
                    old_master_key@,
                    vault@[l],
                ) is Some && entry_plain(new_master_key@, fresh@[l]) == entry_plain(
                    old_master_key@,
                    vault@[l],
                ),
        decreases n - i,
    {
        let (label, entry) = vault.entry_at(i);
        let resealed = match reseal_entry(entry, old_master_key, new_master_key) {
            Ok(e) => e,
            Err(err) => {
                assert(vault@.contains_key(label@) && entry_plain(old_master_key@, vault@[label@]) is None
                    ==> has_unreadable(vault@, old_master_key@));
                return Err(err);
            },
        };
        let ghost before = fresh@;
        fresh.insert(label.clone(), resealed);
        assert forall|l: Seq<char>|
            #[trigger] fresh@.contains_key(l) <==> exists|j: int|
                0 <= j < i + 1 && vault.spec_label_at(j) == l by {
            if l != label@ && fresh@.contains_key(l) {
                assert(before.contains_key(l));
            }
        }
        i = i + 1;
    }
    proof {
        assert(fresh@.dom() =~= vault@.dom());
        if has_unreadable(vault@, old_master_key@) {
            let l = choose|l: Seq<char>|
                #[trigger] vault@.contains_key(l) && entry_plain(old_master_key@, vault@[l]) is None;
            assert(fresh@.contains_key(l));
        }
    }
    *vault = fresh;
    store.save_vault(vault);
    Ok(())
}

/// After a rotation from one key to another, every label reads under the
/// new key exactly as it read under the old one.
pub proof fn lemma_rotation_preserves_reads(
    before: Map<Seq<char>, (Seq<u8>, Seq<u8>)>,
    after: Map<Seq<char>, (Seq<u8>, Seq<u8>)>,
    old_key: Seq<u8>,
    new_key: Seq<u8>,
    label: Seq<char>,
)
    requires
        rotated(before, after, old_key, new_key),
    ensures
        lookup_text(after, label, new_key) == lookup_text(before, label, old_key),
{
    if before.contains_key(label) {
        assert(after.contains_key(label));
    } else {
        assert(!after.dom().contains(label));
    }
}

} // verus!
