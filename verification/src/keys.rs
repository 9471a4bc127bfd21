//! The key provider: creation and derivation of the raw 32-byte symmetric
//! key. Reading and writing the key file is the caller's business; this
//! module only produces key material of the right size.

use vstd::prelude::*;
use crate::codec::KEY_SIZE;

verus! {

/// The 32-byte key PBKDF2-HMAC-SHA256 derives from the given passphrase and
/// salt at 100,000 iterations; a fixed function of those two alone.
pub uninterp spec fn pbkdf2_of(passphrase: Seq<char>, salt: Seq<u8>) -> Seq<u8>;

/// A fresh random symmetric key. Nothing is assumed of its value, only that
/// it is exactly [`KEY_SIZE`] bytes.
///
/// Relies on `rand::fill`, which draws from the thread-local CSPRNG.
#[verifier::external_body]
pub fn generate_key() -> (key: Vec<u8>)
    ensures
        key@.len() == KEY_SIZE,
{
    let mut key = [0u8; 32];
    rand::fill(&mut key);
    key.to_vec()
}

/// Derives a symmetric key from a passphrase and salt.
///
/// Relies on `ring::pbkdf2::derive` with PBKDF2-HMAC-SHA256, 100,000
/// iterations, and a 32-byte output: the derived key is a fixed function of
/// the passphrase and salt, named [`pbkdf2_of`].
#[verifier::external_body]
pub fn derive_key_from_passphrase(passphrase: &str, salt: &[u8]) -> (key: Vec<u8>)
    requires
        passphrase@.len() < 0x1000_0000_0000,
        salt@.len() < 0x1000_0000_0000,
    ensures
        key@ == pbkdf2_of(passphrase@, salt@),
        key@.len() == KEY_SIZE,
{
    let mut key = [0u8; 32];
    let iterations = std::num::NonZeroU32::new(100_000).unwrap();
    ring::pbkdf2::derive(
        ring::pbkdf2::PBKDF2_HMAC_SHA256,
        iterations,
        salt,
        passphrase.as_bytes(),
        &mut key,
    );
    key.to_vec()
}

} // verus!
