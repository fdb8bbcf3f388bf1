use aes_gcm::aead::{Aead, KeyInit};
use aes_gcm::{Aes256Gcm, Key, Nonce};
use passman::auth::{
    create_verification_token, derive_master_key, load_salt, master_password_exists,
    seal_verification_token, verify_master_key,
};
use passman::error::VaultError;
use passman::profile::{change_password, generate_and_store_salt, set_master_password, unlock};
use passman::storage::{
    add_and_save_password, add_password, change_encryption_to_new_master_password,
    decrypt_password, encrypt_password, get_password, remove_password, remove_password_and_save,
};
use passman::store::ProfileStore;
use passman::vault::{EncryptedPassword, Vault};
use std::collections::HashSet;

/// Pending writes plus the files they would land in.
struct MemStore {
    pending: ProfileStore,
    salt_file: Option<Vec<u8>>,
    token_file: Option<Vec<u8>>,
    vault_file: Option<Vec<(String, EncryptedPassword)>>,
    writes: usize,
}

impl MemStore {
    fn new() -> Self {
        MemStore { pending: ProfileStore::new(), salt_file: None, token_file: None, vault_file: None, writes: 0 }
    }

    fn sync(&mut self) {
        if let Some(s) = self.pending.take_salt() {
            self.salt_file = Some(s);
        }
        if let Some(t) = self.pending.take_token() {
            self.token_file = Some(t);
        }
        if let Some(rows) = self.pending.take_vault() {
            self.vault_file = Some(rows);
            self.writes += 1;
        }
    }

    fn salt(&mut self) -> Option<Vec<u8>> {
        self.sync();
        self.salt_file.clone()
    }

    fn token(&mut self) -> Option<Vec<u8>> {
        self.sync();
        self.token_file.clone()
    }

    fn vault_writes(&mut self) -> usize {
        self.sync();
        self.writes
    }

    fn load_vault(&mut self) -> Vault {
        self.sync();
        // Rows come back reversed, as a reader with another order would give them.
        let mut rows: Vec<(String, EncryptedPassword)> = match &self.vault_file {
            Some(rows) => rows.iter().map(|(l, e)| (l.clone(), e.copy())).collect(),
            None => Vec::new(),
        };
        rows.reverse();
        Vault::from_rows(rows)
    }
}

const SALT: [u8; 16] = [7u8; 16];

fn key_for(password: &str) -> [u8; 32] {
    derive_master_key(password, &SALT).unwrap()
}

fn text(r: Result<Option<String>, VaultError>) -> Option<String> {
    r.unwrap()
}

#[test]
fn derivation_is_deterministic() {
    let a = derive_master_key("hunter2", &SALT).unwrap();
    let b = derive_master_key("hunter2", &SALT).unwrap();
    assert_eq!(a, b);
    assert_eq!(a.len(), 32);
}

#[test]
fn derivation_depends_on_password_and_salt() {
    let a = derive_master_key("hunter2", &SALT).unwrap();
    let b = derive_master_key("hunter3", &SALT).unwrap();
    let c = derive_master_key("hunter2", &[8u8; 16]).unwrap();
    assert_ne!(a, b);
    assert_ne!(a, c);
    assert_ne!(a.to_vec(), "hunter2".as_bytes().to_vec());
}

#[test]
fn derivation_refuses_short_salt() {
    assert_eq!(derive_master_key("hunter2", &[1u8; 4]), Err(VaultError::DerivationFailed));
}

#[test]
fn token_verifies_under_its_key_only() {
    let key = key_for("alpha");
    let other = key_for("beta");
    let token = create_verification_token(&key).unwrap();
    assert_eq!(token.len(), 12 + 32 + 16);
    assert_eq!(verify_master_key(&key, &token), Ok(true));
    assert_eq!(verify_master_key(&other, &token), Ok(false));
}

#[test]
fn sealed_token_is_nonce_then_ciphertext() {
    let key = key_for("alpha");
    let payload = [3u8; 32];
    let nonce = [9u8; 12];
    let token = seal_verification_token(&key, &payload, &nonce).unwrap();
    assert_eq!(&token[..12], &nonce[..]);
    assert_eq!(token.len(), 12 + 32 + 16);
    assert_ne!(&token[12..44], &payload[..]);
    assert_eq!(verify_master_key(&key, &token), Ok(true));
}

#[test]
fn truncated_token_is_tampered() {
    let key = key_for("alpha");
    let token = create_verification_token(&key).unwrap();
    assert_eq!(verify_master_key(&key, &token[..11]), Err(VaultError::Tampered));
    assert_eq!(verify_master_key(&key, &[]), Err(VaultError::Tampered));
    // Exactly a nonce and nothing else is structurally valid, and does not open.
    assert_eq!(verify_master_key(&key, &token[..12]), Ok(false));
}

#[test]
fn altered_token_is_a_wrong_password() {
    let key = key_for("alpha");
    let mut token = create_verification_token(&key).unwrap();
    let last = token.len() - 1;
    token[last] ^= 1;
    assert_eq!(verify_master_key(&key, &token), Ok(false));
}

#[test]
fn encrypt_decrypt_round_trip() {
    let key = key_for("alpha");
    for message in ["", "s3cr3t", "zażółć gęślą jaźń", "a much longer secret with spaces"] {
        let entry = encrypt_password(message, &key, &[5u8; 12]).unwrap();
        assert_eq!(entry.nonce, vec![5u8; 12]);
        assert_eq!(entry.cipher.len(), message.len() + 16);
        if !message.is_empty() {
            assert_ne!(entry.cipher[..message.len()].to_vec(), message.as_bytes().to_vec());
        }
        assert_eq!(text(decrypt_password(&entry, &key)), Some(message.to_string()));
    }
}

#[test]
fn decrypt_with_other_key_is_absent() {
    let entry = encrypt_password("s3cr3t", &key_for("alpha"), &[5u8; 12]).unwrap();
    assert_eq!(decrypt_password(&entry, &key_for("beta")), Ok(None));
}

#[test]
fn decrypt_bad_nonce_length_is_absent() {
    let key = key_for("alpha");
    let mut entry = encrypt_password("s3cr3t", &key, &[5u8; 12]).unwrap();
    entry.nonce.pop();
    assert_eq!(decrypt_password(&entry, &key), Ok(None));
}

#[test]
fn decrypt_non_utf8_is_encoding_error() {
    let key = key_for("alpha");
    let cipher = Aes256Gcm::new(Key::<Aes256Gcm>::from_slice(&key));
    let nonce = [1u8; 12];
    let sealed = cipher.encrypt(Nonce::from_slice(&nonce), &[0xffu8, 0xfe][..]).unwrap();
    let entry = EncryptedPassword { nonce: nonce.to_vec(), cipher: sealed };
    assert_eq!(decrypt_password(&entry, &key), Err(VaultError::InvalidEncoding));
}

#[test]
fn add_then_get() {
    let key = key_for("alpha");
    let other = key_for("beta");
    let mut store = MemStore::new();
    let mut vault = Vault::new();
    add_and_save_password(&mut store.pending, &mut vault, "email", "s3cr3t", &key).unwrap();
    assert_eq!(text(get_password(&vault, "email", &key)), Some("s3cr3t".to_string()));
    assert_eq!(get_password(&vault, "email", &other), Ok(None));
    assert_eq!(get_password(&vault, "bank", &key), Ok(None));
    let reloaded = store.load_vault();
    assert_eq!(text(get_password(&reloaded, "email", &key)), Some("s3cr3t".to_string()));
    assert_eq!(store.vault_writes(), 1);
}

#[test]
fn add_overwrites_existing_label() {
    let key = key_for("alpha");
    let mut vault = Vault::new();
    add_password(&mut vault, "email", "first", &key).unwrap();
    add_password(&mut vault, "bank", "money", &key).unwrap();
    add_password(&mut vault, "email", "second", &key).unwrap();
    assert_eq!(vault.len(), 2);
    assert_eq!(text(get_password(&vault, "email", &key)), Some("second".to_string()));
    assert_eq!(text(get_password(&vault, "bank", &key)), Some("money".to_string()));
}

#[test]
fn nonces_are_not_reused() {
    let key = key_for("alpha");
    let mut vault = Vault::new();
    for i in 0..300 {
        add_password(&mut vault, &format!("label{}", i), "same secret", &key).unwrap();
    }
    let mut seen = HashSet::new();
    for i in 0..vault.len() {
        let (_, entry) = vault.entry_at(i);
        assert_eq!(entry.nonce.len(), 12);
        assert!(seen.insert(entry.nonce.clone()));
    }
    assert_eq!(seen.len(), 300);
}

#[test]
fn remove_deletes_only_that_label() {
    let key = key_for("alpha");
    let mut store = MemStore::new();
    let mut vault = Vault::new();
    add_password(&mut vault, "email", "s3cr3t", &key).unwrap();
    add_password(&mut vault, "bank", "money", &key).unwrap();
    add_password(&mut vault, "shop", "cart", &key).unwrap();
    assert!(vault.contains_key("bank"));
    remove_password_and_save(&mut store.pending, &mut vault, "bank");
    assert!(!vault.contains_key("bank"));
    assert_eq!(get_password(&vault, "bank", &key), Ok(None));
    assert_eq!(text(get_password(&vault, "email", &key)), Some("s3cr3t".to_string()));
    assert_eq!(text(get_password(&vault, "shop", &key)), Some("cart".to_string()));
    assert_eq!(store.load_vault().len(), 2);
    remove_password(&mut vault, "email");
    assert_eq!(vault.len(), 1);
}

#[test]
fn absent_label_is_reported_before_remove() {
    let key = key_for("alpha");
    let mut vault = Vault::new();
    add_password(&mut vault, "email", "s3cr3t", &key).unwrap();
    assert!(!vault.contains_key("bank"));
    assert!(vault.get("bank").is_none());
    assert!(vault.contains_key("email"));
}

#[test]
fn save_and_reload_keeps_labels_and_secrets() {
    let key = key_for("alpha");
    let mut store = MemStore::new();
    let mut vault = Vault::new();
    add_and_save_password(&mut store.pending, &mut vault, "email", "s3cr3t", &key).unwrap();
    add_and_save_password(&mut store.pending, &mut vault, "bank", "money", &key).unwrap();
    let reloaded = store.load_vault();
    assert_eq!(reloaded.len(), vault.len());
    for label in ["email", "bank"] {
        assert!(reloaded.contains_key(label));
        assert_eq!(get_password(&reloaded, label, &key), get_password(&vault, label, &key));
    }
}

#[test]
fn rotation_rekeys_every_entry() {
    let old_key = key_for("alpha");
    let new_key = key_for("beta");
    let mut store = MemStore::new();
    let mut vault = Vault::new();
    add_password(&mut vault, "email", "s3cr3t", &old_key).unwrap();
    add_password(&mut vault, "bank", "money", &old_key).unwrap();
    change_encryption_to_new_master_password(&mut store.pending, &mut vault, &old_key, &new_key).unwrap();
    assert_eq!(vault.len(), 2);
    assert_eq!(text(get_password(&vault, "email", &new_key)), Some("s3cr3t".to_string()));
    assert_eq!(text(get_password(&vault, "bank", &new_key)), Some("money".to_string()));
    assert_eq!(get_password(&vault, "email", &old_key), Ok(None));
    assert_eq!(get_password(&vault, "bank", &old_key), Ok(None));
    assert_eq!(store.vault_writes(), 1);
}

#[test]
fn rotation_with_unreadable_entry_changes_nothing() {
    let old_key = key_for("alpha");
    let new_key = key_for("beta");
    let stranger = key_for("gamma");
    let mut store = MemStore::new();
    let mut vault = Vault::new();
    add_password(&mut vault, "email", "s3cr3t", &old_key).unwrap();
    add_password(&mut vault, "bank", "money", &stranger).unwrap();
    let r = change_encryption_to_new_master_password(&mut store.pending, &mut vault, &old_key, &new_key);
    assert_eq!(r, Err(VaultError::Undecryptable));
    assert_eq!(text(get_password(&vault, "email", &old_key)), Some("s3cr3t".to_string()));
    assert_eq!(store.vault_writes(), 0);
}

#[test]
fn empty_vault_rotates() {
    let mut store = MemStore::new();
    let mut vault = Vault::new();
    change_encryption_to_new_master_password(&mut store.pending, &mut vault, &key_for("a"), &key_for("b"))
        .unwrap();
    assert_eq!(vault.len(), 0);
    assert_eq!(store.vault_writes(), 1);
}

#[test]
fn setup_then_unlock() {
    let mut store = MemStore::new();
    assert!(!master_password_exists(store.salt().is_some(), store.token().is_some()));
    generate_and_store_salt(&mut store.pending).unwrap();
    let stored_salt = store.salt().unwrap();
    set_master_password(&mut store.pending, "correct horse", &stored_salt).unwrap();
    assert!(master_password_exists(store.salt().is_some(), store.token().is_some()));
    let salt = load_salt(&store.salt().unwrap()).unwrap();
    let token = store.token().unwrap();
    let good = derive_master_key("correct horse", &salt).unwrap();
    let bad = derive_master_key("wrong", &salt).unwrap();
    assert_eq!(verify_master_key(&good, &token), Ok(true));
    assert_eq!(verify_master_key(&bad, &token), Ok(false));
    assert_eq!(unlock("correct horse", &salt, &token), Ok(Some(good)));
    assert_eq!(unlock("wrong", &salt, &token), Ok(None));
    assert_eq!(unlock("correct horse", &salt, &token[..5]), Err(VaultError::Tampered));
}

#[test]
fn profile_needs_both_files() {
    assert!(!master_password_exists(true, false));
    assert!(!master_password_exists(false, true));
    assert!(!master_password_exists(false, false));
    assert!(master_password_exists(true, true));
}

#[test]
fn salts_are_fresh() {
    let mut store = MemStore::new();
    let a = generate_and_store_salt(&mut store.pending).unwrap();
    assert_eq!(store.salt().unwrap(), a.to_vec());
    let b = generate_and_store_salt(&mut store.pending).unwrap();
    assert_ne!(a, b);
}

#[test]
fn salt_must_have_exact_length() {
    assert_eq!(load_salt(&[4u8; 16]), Some([4u8; 16]));
    assert_eq!(load_salt(&[4u8; 15]), None);
    assert_eq!(load_salt(&[4u8; 17]), None);
    assert_eq!(load_salt(&[]), None);
}

#[test]
fn change_password_rekeys_vault_and_token() {
    let mut store = MemStore::new();
    let old_key = set_master_password(&mut store.pending, "alpha", &SALT).unwrap();
    let mut vault = Vault::new();
    add_password(&mut vault, "email", "s3cr3t", &old_key).unwrap();
    let new_key = change_password(&mut store.pending, &mut vault, &old_key, "beta", "beta", &SALT)
        .unwrap()
        .unwrap();
    assert_eq!(new_key, key_for("beta"));
    let token = store.token().unwrap();
    assert_eq!(verify_master_key(&new_key, &token), Ok(true));
    assert_eq!(verify_master_key(&old_key, &token), Ok(false));
    assert_eq!(text(get_password(&vault, "email", &new_key)), Some("s3cr3t".to_string()));
    let reloaded = store.load_vault();
    assert_eq!(text(get_password(&reloaded, "email", &new_key)), Some("s3cr3t".to_string()));
}

#[test]
fn change_password_mismatch_changes_nothing() {
    let mut store = MemStore::new();
    let old_key = set_master_password(&mut store.pending, "alpha", &SALT).unwrap();
    let token_before = store.token();
    let mut vault = Vault::new();
    add_password(&mut vault, "email", "s3cr3t", &old_key).unwrap();
    let r = change_password(&mut store.pending, &mut vault, &old_key, "beta", "betA", &SALT);
    assert_eq!(r, Ok(None));
    assert_eq!(store.token(), token_before);
    assert_eq!(store.vault_writes(), 0);
    assert_eq!(text(get_password(&vault, "email", &old_key)), Some("s3cr3t".to_string()));
}

fn entry(n: u8) -> EncryptedPassword {
    EncryptedPassword { nonce: vec![n; 12], cipher: vec![n; 20] }
}

#[test]
fn rows_round_trip() {
    let mut vault = Vault::new();
    vault.insert("b".to_string(), entry(2));
    vault.insert("a".to_string(), entry(1));
    vault.insert("c".to_string(), entry(3));
    let rows = vault.to_rows();
    assert_eq!(rows.len(), 3);
    let labels: Vec<&str> = rows.iter().map(|(l, _)| l.as_str()).collect();
    assert_eq!(labels, vec!["b", "a", "c"]);
    let mut reversed = vault.to_rows();
    reversed.reverse();
    let back = Vault::from_rows(reversed);
    assert_eq!(back.len(), 3);
    for label in ["a", "b", "c"] {
        assert_eq!(back.get(label).unwrap().nonce, vault.get(label).unwrap().nonce);
        assert_eq!(back.get(label).unwrap().cipher, vault.get(label).unwrap().cipher);
    }
}

#[test]
fn later_row_wins() {
    let rows = vec![
        ("a".to_string(), entry(1)),
        ("b".to_string(), entry(2)),
        ("a".to_string(), entry(9)),
    ];
    let vault = Vault::from_rows(rows);
    assert_eq!(vault.len(), 2);
    assert_eq!(vault.get("a").unwrap().nonce, vec![9u8; 12]);
    assert_eq!(vault.get("b").unwrap().cipher, vec![2u8; 20]);
    assert_eq!(Vault::from_rows(Vec::new()).len(), 0);
}

#[test]
fn entry_copy_is_equal() {
    let e = entry(4);
    let c = e.copy();
    assert_eq!(c.nonce, e.nonce);
    assert_eq!(c.cipher, e.cipher);
}

#[test]
fn generated_passwords_are_printable() {
    let a = passman::generator::generate_random_password().unwrap();
    let b = passman::generator::generate_random_password().unwrap();
    assert_eq!(a.chars().count(), 32);
    assert_eq!(a.len(), 32);
    assert!(a.chars().all(|c| (' '..='~').contains(&c)));
    assert!(b.chars().all(|c| (' '..='~').contains(&c)));
    assert_ne!(a, b);
}

#[test]
fn nothing_recorded_until_saved() {
    let mut store = ProfileStore::new();
    assert!(store.take_salt().is_none());
    assert!(store.take_token().is_none());
    assert!(store.take_vault().is_none());
    store.save_salt(&[1u8; 16]);
    store.save_token(&[2u8; 3]);
    assert_eq!(store.take_salt(), Some(vec![1u8; 16]));
    assert!(store.take_salt().is_none());
    assert_eq!(store.take_token(), Some(vec![2u8; 3]));
    assert!(store.take_vault().is_none());
}

#[test]
fn failed_derivation_records_nothing() {
    let mut store = MemStore::new();
    assert_eq!(
        set_master_password(&mut store.pending, "alpha", &[1u8; 4]),
        Err(VaultError::DerivationFailed)
    );
    assert!(store.token().is_none());
    let mut vault = Vault::new();
    let key = key_for("alpha");
    add_password(&mut vault, "email", "s3cr3t", &key).unwrap();
    let r = change_password(&mut store.pending, &mut vault, &key, "beta", "beta", &[1u8; 4]);
    assert_eq!(r, Err(VaultError::DerivationFailed));
    assert!(store.token().is_none());
    assert_eq!(store.vault_writes(), 0);
}

#[test]
fn added_entry_has_nonce_and_tagged_cipher() {
    let key = key_for("alpha");
    let mut vault = Vault::new();
    add_password(&mut vault, "email", "zażółć", &key).unwrap();
    let e = vault.get("email").unwrap();
    assert_eq!(e.nonce.len(), 12);
    assert_eq!(e.cipher.len(), "zażółć".len() + 16);
}
