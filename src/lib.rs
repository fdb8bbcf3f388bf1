//! A local secrets vault: a master key derived from a password, a sealed
//! verification token that proves the key, and a label-to-secret map whose
//! entries are each sealed with AES-256-GCM under that key.
pub mod auth;
pub mod completion;
pub mod crypto;
pub mod error;
pub mod generator;
pub mod profile;
pub mod storage;
pub mod store;
pub mod vault;
