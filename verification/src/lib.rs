//! The cryptographic and storage engine of a directory-backed secret vault.
//!
//! A vault is a filesystem directory holding a credential record
//! (`.rpm_config`), an encrypted index (`def`) that is the sole source of
//! truth for which secrets exist, and one encrypted record file per secret.
//! This crate holds everything that computes over those files: password
//! hashing and verification, Argon2id key derivation, the AES-256-GCM
//! cipher layer, the canonical serialized forms of the index and the
//! records, and the index operations. It neither reads nor writes files:
//! callers hand it file contents and write back what it returns, so every
//! rule that decides what those bytes mean is verified.

use vstd::prelude::*;

pub mod b64;
pub mod config;
pub mod crypto;
pub mod errors;
pub mod hexstr;
pub mod i18n;
pub mod jsoncodec;
pub mod key_derivation;
pub mod models;
pub mod storage;
pub mod strconv;

verus! {

} // verus!
