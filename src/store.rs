//! What a profile's files are to hold. The library records each write here;
//! whoever owns the files takes the pending contents and puts them in place.
use vstd::prelude::*;

use crate::vault::{rows_map, rows_view, EncryptedPassword, Vault};

verus! {

/// The contents waiting to be written to a profile's salt, token and vault
/// files. `None` means nothing is waiting for that file.
pub struct ProfileStore {
    salt: Option<Vec<u8>>,
    token: Option<Vec<u8>>,
    vault: Option<Vec<(String, EncryptedPassword)>>,
}

/// The view of pending bytes.
pub open spec fn bytes_view(b: Option<Vec<u8>>) -> Option<Seq<u8>> {
    match b {
        Some(v) => Some(v@),
        None => None,
    }
}

impl ProfileStore {
    /// The salt waiting to be written.
    pub closed spec fn saved_salt(&self) -> Option<Seq<u8>> {
        bytes_view(self.salt)
    }

    /// The verification token waiting to be written.
    pub closed spec fn saved_token(&self) -> Option<Seq<u8>> {
        bytes_view(self.token)
    }

    /// The vault waiting to be written.
    pub closed spec fn saved_vault(&self) -> Option<Map<Seq<char>, (Seq<u8>, Seq<u8>)>> {
        match self.vault {
            Some(rows) => Some(rows_map(rows_view(rows@))),
            None => None,
        }
    }

    /// Nothing is waiting to be written.
    pub fn new() -> (r: ProfileStore)
        ensures
            r.saved_salt() is None,
            r.saved_token() is None,
            r.saved_vault() is None,
    {
        ProfileStore { salt: None, token: None, vault: None }
    }

    /// Records the salt to write, replacing an earlier one.
    pub fn save_salt(&mut self, salt: &[u8])
        ensures
            final(self).saved_salt() == Some(salt@),
            final(self).saved_token() == old(self).saved_token(),
            final(self).saved_vault() == old(self).saved_vault(),
    {
        self.salt = Some(vstd::slice::slice_to_vec(salt));
    }

    /// Records the verification token to write, replacing an earlier one.
    pub fn save_token(&mut self, token: &[u8])
        ensures
            final(self).saved_token() == Some(token@),
            final(self).saved_salt() == old(self).saved_salt(),
            final(self).saved_vault() == old(self).saved_vault(),
    {
        self.token = Some(vstd::slice::slice_to_vec(token));
    }

    /// Records the whole vault to write, replacing an earlier one.
    pub fn save_vault(&mut self, vault: &Vault)
        requires
            vault.wf(),
        ensures
            final(self).saved_vault() == Some(vault@),
            final(self).saved_salt() == old(self).saved_salt(),
            final(self).saved_token() == old(self).saved_token(),
    {
        self.vault = Some(vault.to_rows());
    }

    /// Hands over the salt waiting to be written; nothing waits afterwards.
    pub fn take_salt(&mut self) -> (r: Option<Vec<u8>>)
        ensures
            bytes_view(r) == old(self).saved_salt(),
            final(self).saved_salt() is None,
            final(self).saved_token() == old(self).saved_token(),
            final(self).saved_vault() == old(self).saved_vault(),
    {
        self.salt.take()
    }

    /// Hands over the token waiting to be written; nothing waits afterwards.
    pub fn take_token(&mut self) -> (r: Option<Vec<u8>>)
        ensures
            bytes_view(r) == old(self).saved_token(),
            final(self).saved_token() is None,
            final(self).saved_salt() == old(self).saved_salt(),
            final(self).saved_vault() == old(self).saved_vault(),
    {
        self.token.take()
    }

    /// Hands over the rows of the vault waiting to be written, one per label;
    /// nothing waits afterwards.
    pub fn take_vault(&mut self) -> (r: Option<Vec<(String, EncryptedPassword)>>)
        ensures
            match r {
                Some(rows) => old(self).saved_vault() == Some(rows_map(rows_view(rows@))),
                None => old(self).saved_vault() is None,
            },
            final(self).saved_vault() is None,
            final(self).saved_salt() == old(self).saved_salt(),
            final(self).saved_token() == old(self).saved_token(),
    {
        self.vault.take()
    }
}

/// Between `before` and `after` nothing new was recorded.
pub open spec fn nothing_written(before: ProfileStore, after: ProfileStore) -> bool {
    &&& after.saved_salt() == before.saved_salt()
    &&& after.saved_token() == before.saved_token()
    &&& after.saved_vault() == before.saved_vault()
}

/// Between `before` and `after` the vault `v` was recorded, and nothing else.
pub open spec fn vault_written(
    before: ProfileStore,
    after: ProfileStore,
    v: Map<Seq<char>, (Seq<u8>, Seq<u8>)>,
) -> bool {
    &&& after.saved_vault() == Some(v)
    &&& after.saved_salt() == before.saved_salt()
    &&& after.saved_token() == before.saved_token()
}

} // verus!
