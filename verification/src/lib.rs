//! A local secret vault: short text values are encrypted at rest under a
//! single symmetric key, each as a self-describing envelope, while a
//! companion metadata index tracks every secret's lifecycle (creation,
//! expiration, tags).
//!
//! The crate is organised along the vault's components:
//! - [`codec`] — the on-disk envelope format and its compress-encrypt /
//!   decrypt-decompress transforms;
//! - [`keys`] — creation and derivation of the 32-byte symmetric key;
//! - [`metadata`] — the per-secret lifecycle records and the index that
//!   binds each encrypted envelope to exactly one record;
//! - [`locker`] — the lifecycle operations (create, open, renew, remove,
//!   reconcile, list) over an in-memory image of the vault directory;
//! - [`store`] — the name-keyed sequence model both stores share;
//! - [`toolbox`] — small helpers over file names;
//! - [`config`] — the vault's well-known file locations;
//! - [`export`] — rendering secrets as environment-file placeholders.
//!
//! All file and terminal I/O lives outside this crate: callers load the
//! vault directory into a [`locker::Locker`], run operations on it, and
//! persist the result.

use vstd::prelude::*;

pub mod codec;
pub mod config;
pub mod export;
pub mod keys;
pub mod locker;
pub mod metadata;
pub mod store;
pub mod toolbox;

verus! {

/// Every fallible operation of the vault returns one of these typed errors;
/// the core never panics, prompts, or exits on an allowed input.
#[derive(Debug)]
pub enum SmartLockerError {
    /// I/O, missing files or directories, or (de)serialization failures.
    FileSystemError(String),
    /// Compression or AEAD sealing failure, or an invalid key size at write time.
    EncryptionError(String),
    /// Format mismatch, unsupported version, authentication failure,
    /// decompression failure, an expired secret, or missing metadata.
    DecryptionError(String),
    /// Vault bootstrap failures.
    InitializationError(String),
    /// Anything that fits no other variant.
    UnknownError(String),
}

pub type LockerResult<T> = Result<T, SmartLockerError>;

impl SmartLockerError {
    /// The explanatory text carried by the error, whichever variant it is.
    pub fn message(&self) -> (m: &String)
        ensures
            m@ == self.spec_message(),
    {
        match self {
            SmartLockerError::FileSystemError(m) => m,
            SmartLockerError::EncryptionError(m) => m,
            SmartLockerError::DecryptionError(m) => m,
            SmartLockerError::InitializationError(m) => m,
            SmartLockerError::UnknownError(m) => m,
        }
    }

    /// The text carried by the error, as a sequence of characters.
    pub open spec fn spec_message(&self) -> Seq<char> {
        match self {
            SmartLockerError::FileSystemError(m) => m@,
            SmartLockerError::EncryptionError(m) => m@,
            SmartLockerError::DecryptionError(m) => m@,
            SmartLockerError::InitializationError(m) => m@,
            SmartLockerError::UnknownError(m) => m@,
        }
    }
}

} // verus!
