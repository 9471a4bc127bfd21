//! The envelope codec: the on-disk encrypted blob format and the
//! compress-then-encrypt / decrypt-then-decompress transforms.
//!
//! An envelope is `signature (8 bytes) ‖ version (1 byte) ‖ nonce (12 bytes)
//! ‖ ciphertext`, where the ciphertext is the AEAD sealing (AES-256-GCM,
//! no associated data) of the gzip-compressed UTF-8 bytes of the plaintext.
//! Decoding is all-or-nothing: no partial plaintext is ever returned.

use vstd::prelude::*;
use vstd::utf8::{decode_utf8, encode_utf8, valid_utf8};
use crate::SmartLockerError;

use aes_gcm::aead::Aead;
use aes_gcm::KeyInit;
use std::io::{Read, Write};

verus! {

broadcast use vstd::utf8::encode_utf8_valid_utf8, vstd::utf8::encode_utf8_decode_utf8;

/// Current revision of the envelope format; the decoder rejects all others.
pub const FORMAT_VERSION: u8 = 1;

/// Byte length of the AEAD nonce (96 bits, as AES-GCM requires).
pub const NONCE_SIZE: usize = 12;

/// Byte length of the symmetric key (256 bits, as AES-256 requires).
pub const KEY_SIZE: usize = 32;

/// Byte length of the fixed format signature.
pub const SIGNATURE_SIZE: usize = 8;

/// Byte length of everything before the ciphertext: signature, version, nonce.
pub const HEADER_SIZE: usize = 21;

/// The fixed 8-byte tag that opens every envelope: the ASCII bytes of
/// `SMARTLKR`.
pub open spec fn spec_signature() -> Seq<u8> {
    seq![83u8, 77u8, 65u8, 82u8, 84u8, 76u8, 75u8, 82u8]
}

/// The format signature as bytes, for writing envelope headers.
pub fn signature_bytes() -> (v: Vec<u8>)
    ensures
        v@ == spec_signature(),
{
    let mut v: Vec<u8> = Vec::new();
    v.push(83);
    v.push(77);
    v.push(65);
    v.push(82);
    v.push(84);
    v.push(76);
    v.push(75);
    v.push(82);
    proof {
        assert(v@ =~= spec_signature());
    }
    v
}

/// A validated AES-256-GCM key: exactly [`KEY_SIZE`] bytes.
///
/// Constructing one (via [`EncryptionConfig::init_cipher`]) is the only way
/// to reach an AEAD operation, so the key-size check always runs first.
pub struct AeadKey {
    bytes: Vec<u8>,
}

impl View for AeadKey {
    type V = Seq<u8>;

    closed spec fn view(&self) -> Seq<u8> {
        self.bytes@
    }
}

impl AeadKey {
    /// A well-formed key holds exactly [`KEY_SIZE`] bytes.
    pub closed spec fn wf(&self) -> bool {
        self.bytes@.len() == KEY_SIZE
    }
}

/// Parameters of the envelope format and its transforms.
pub struct EncryptionConfig {
    /// Fixed signature identifying the format.
    pub signature: Vec<u8>,
    /// Current version of the format.
    pub format_version: u8,
    /// Size of the nonce in bytes.
    pub nonce_size: usize,
    /// Size of the symmetric key in bytes.
    pub key_size: usize,
    /// Gzip compression level (0-9).
    pub compression_level: u32,
}

impl EncryptionConfig {
    /// The configuration matches the format this codec reads and writes.
    pub open spec fn wf(&self) -> bool {
        &&& self.signature@ == spec_signature()
        &&& self.format_version == FORMAT_VERSION
        &&& self.nonce_size == NONCE_SIZE
        &&& self.key_size == KEY_SIZE
        &&& self.compression_level <= 9
    }

    /// The one configuration in current use: gzip at its default level (6),
    /// AES-256-GCM with a 96-bit nonce.
    pub fn new() -> (c: Self)
        ensures
            c.wf(),
            c.compression_level == 6u32,
    {
        EncryptionConfig {
            signature: signature_bytes(),
            format_version: FORMAT_VERSION,
            nonce_size: NONCE_SIZE,
            key_size: KEY_SIZE,
            compression_level: 6,
        }
    }

    /// Validates the key material and turns it into an [`AeadKey`].
    ///
    /// Fails, before any AEAD operation is attempted, if and only if the
    /// material is not exactly [`KEY_SIZE`] bytes long.
    pub fn init_cipher(&self, key_data: &Vec<u8>) -> (r: Result<AeadKey, String>)
        ensures
            r matches Ok(k) ==> k.wf() && k@ == key_data@ && key_data@.len() == KEY_SIZE,
            r matches Err(m) ==> key_data@.len() != KEY_SIZE && m@ == "invalid key size"@,
    {
        if key_data.len() != KEY_SIZE {
            Err("invalid key size".to_owned())
        } else {
            Ok(AeadKey { bytes: key_data.clone() })
        }
    }

    /// A fresh random 96-bit nonce. Nothing is assumed of its value: two
    /// calls may return anything, so long as each is [`NONCE_SIZE`] bytes.
    ///
    /// Relies on `rand::random`, which draws from the thread-local CSPRNG.
    #[verifier::external_body]
    pub fn generate_nonce(&self) -> (nonce: Vec<u8>)
        ensures
            nonce@.len() == NONCE_SIZE,
    {
        let bytes: [u8; 12] = rand::random();
        bytes.to_vec()
    }
}

impl Default for EncryptionConfig {
    /// The same configuration [`EncryptionConfig::new`] builds.
    fn default() -> (c: Self)
        ensures
            c.wf(),
            c.compression_level == 6u32,
    {
        EncryptionConfig::new()
    }
}

/// What AES-256-GCM decryption yields for the given key, 96-bit nonce, and
/// ciphertext-with-tag: `Some(message)` when the tag authenticates, `None`
/// otherwise; a fixed function of those three alone.
pub uninterp spec fn open_of(key: Seq<u8>, nonce: Seq<u8>, ct: Seq<u8>) -> Option<Seq<u8>>;

/// The gzip stream compression emits for the given bytes at the given
/// level; a fixed function of the two alone — flate2 writes a reproducible
/// header (zero mtime, operating-system byte 255) and a deterministic
/// deflate body.
pub uninterp spec fn gzip_of(data: Seq<u8>, level: u32) -> Seq<u8>;

/// What gzip decompression yields for the given bytes: `Some(data)` when
/// they decompress cleanly, `None` otherwise; a fixed function of the bytes.
pub uninterp spec fn gunzip_of(bytes: Seq<u8>) -> Option<Seq<u8>>;

#[verifier::external_type_specification]
#[verifier::external_body]
pub struct ExAeadError(aes_gcm::Error);

/// Relies on `aes_gcm::Aes256Gcm` (through the `Aead` trait): opening under
/// the same key and nonce returns exactly what was sealed, and sealing fails
/// only when the message exceeds the AES-GCM plaintext bound
/// `P_MAX = 2^36 - 32` bytes.
#[verifier::external_body]
fn aead_seal(key: &AeadKey, nonce: &Vec<u8>, msg: &Vec<u8>) -> (r: Result<
    Vec<u8>,
    aes_gcm::Error,
>)
    requires
        key.wf(),
        nonce@.len() == NONCE_SIZE,
    ensures
        r matches Ok(ct) ==> open_of(key@, nonce@, ct@) == Some(msg@),
        msg@.len() <= 0xF_FFFF_FFDF ==> r is Ok,
{
    let cipher = match aes_gcm::Aes256Gcm::new_from_slice(key.bytes.as_slice()) {
        Ok(c) => c,
        Err(_) => return Err(aes_gcm::Error),
    };
    let nonce_arr = match nonce.as_slice().try_into() {
        Ok(n) => n,
        Err(_) => return Err(aes_gcm::Error),
    };
    cipher.encrypt(&nonce_arr, msg.as_slice())
}

/// Relies on `aes_gcm::Aes256Gcm` (through the `Aead` trait): opening
/// returns the sealed message exactly when the authentication tag verifies,
/// and fails otherwise, never returning altered data.
#[verifier::external_body]
fn aead_open(key: &AeadKey, nonce: &Vec<u8>, ct: &Vec<u8>) -> (r: Result<
    Vec<u8>,
    aes_gcm::Error,
>)
    requires
        key.wf(),
        nonce@.len() == NONCE_SIZE,
    ensures
        r matches Ok(msg) ==> open_of(key@, nonce@, ct@) == Some(msg@),
        r is Err ==> open_of(key@, nonce@, ct@) is None,
{
    let cipher = match aes_gcm::Aes256Gcm::new_from_slice(key.bytes.as_slice()) {
        Ok(c) => c,
        Err(_) => return Err(aes_gcm::Error),
    };
    let nonce_arr = match nonce.as_slice().try_into() {
        Ok(n) => n,
        Err(_) => return Err(aes_gcm::Error),
    };
    cipher.decrypt(&nonce_arr, ct.as_slice())
}

/// Relies on `flate2::write::GzEncoder`: its stream is the fixed function
/// [`gzip_of`] of the input and level, gzip decompression restores the input
/// from it, and writing can only fail through the underlying writer — here
/// an in-memory vector, which never does.
#[verifier::external_body]
fn gzip_compress(data: &Vec<u8>, level: u32) -> (r: Result<Vec<u8>, ()>)
    requires
        level <= 9,
    ensures
        r is Ok,
        r matches Ok(c) ==> c@ == gzip_of(data@, level) && gunzip_of(c@) == Some(data@),
{
    let mut encoder = flate2::write::GzEncoder::new(
        Vec::new(),
        flate2::Compression::new(level),
    );
    if Write::write_all(&mut encoder, data.as_slice()).is_err() {
        return Err(());
    }
    encoder.finish().map_err(|_| ())
}

/// Relies on `flate2::read::GzDecoder`: decompression of given bytes is a
/// fixed function of them, succeeding exactly on well-formed gzip data.
#[verifier::external_body]
fn gzip_decompress(data: &Vec<u8>) -> (r: Result<Vec<u8>, ()>)
    ensures
        r matches Ok(m) ==> gunzip_of(data@) == Some(m@),
        r is Err ==> gunzip_of(data@) is None,
{
    let mut decoder = flate2::read::GzDecoder::new(data.as_slice());
    let mut out = Vec::new();
    match Read::read_to_end(&mut decoder, &mut out) {
        Ok(_) => Ok(out),
        Err(_) => Err(()),
    }
}

/// Relies on `String::from_utf8`: succeeds exactly on valid UTF-8, returning
/// the string whose bytes are the input, i.e. whose characters decode it.
#[verifier::external_body]
fn bytes_to_string(bytes: Vec<u8>) -> (r: Result<String, ()>)
    ensures
        r matches Ok(s) ==> valid_utf8(bytes@) && s@ == decode_utf8(bytes@),
        r is Err ==> !valid_utf8(bytes@),
{
    String::from_utf8(bytes).map_err(|_| ())
}

/// The envelope opens with the format signature and is long enough to carry
/// a version byte.
pub open spec fn has_valid_signature(env: Seq<u8>) -> bool {
    env.len() >= 9 && env.subrange(0, 8) == spec_signature()
}

/// The envelope's version byte is one this decoder understands.
pub open spec fn has_supported_version(env: Seq<u8>) -> bool {
    env.len() >= 9 && env[8] == FORMAT_VERSION
}

/// The envelope's 12-byte nonce (bytes 9 through 20).
pub open spec fn spec_nonce(env: Seq<u8>) -> Seq<u8> {
    env.subrange(9, 21)
}

/// The envelope's ciphertext (everything after the header).
pub open spec fn spec_ciphertext(env: Seq<u8>) -> Seq<u8> {
    env.subrange(21, env.len() as int)
}

/// The compressed payload the envelope's ciphertext authenticates under the
/// key, if any: an envelope too short to hold a nonce carries none.
pub open spec fn spec_payload(env: Seq<u8>, key: Seq<u8>) -> Option<Seq<u8>> {
    if env.len() < 21 {
        None
    } else {
        open_of(key, spec_nonce(env), spec_ciphertext(env))
    }
}

/// The plaintext a well-signed, well-versioned envelope yields under the
/// key: the authenticated payload, decompressed and read as UTF-8.
pub open spec fn spec_plaintext(env: Seq<u8>, key: Seq<u8>) -> Option<Seq<char>> {
    match spec_payload(env, key) {
        None => None,
        Some(z) => match gunzip_of(z) {
            None => None,
            Some(b) => if valid_utf8(b) {
                Some(decode_utf8(b))
            } else {
                None
            },
        },
    }
}

/// The decoder accepts the envelope under this key: it opens with the
/// signature, carries a supported version, and its payload authenticates,
/// decompresses, and reads as UTF-8.
pub open spec fn decode_ok(env: Seq<u8>, key: Seq<u8>) -> bool {
    &&& has_valid_signature(env)
    &&& has_supported_version(env)
    &&& spec_plaintext(env, key) is Some
}

/// The message [`decode`] reports when it rejects this envelope under this
/// key, pinned to the first stage that fails.
pub open spec fn decode_err_message(env: Seq<u8>, key: Seq<u8>) -> Seq<char> {
    if !has_valid_signature(env) {
        "format mismatch"@
    } else if !has_supported_version(env) {
        "unsupported version"@
    } else if spec_payload(env, key) is None {
        "authentication failed"@
    } else {
        "decompression failed"@
    }
}

/// An envelope that decodes to the given plaintext under the given key:
/// correctly signed and versioned, and carrying it as payload.
pub open spec fn is_envelope_for(env: Seq<u8>, key: Seq<u8>, plaintext: Seq<char>) -> bool {
    &&& has_valid_signature(env)
    &&& has_supported_version(env)
    &&& env.len() >= 21
    &&& spec_plaintext(env, key) == Some(plaintext)
}

/// Serializes and seals one plaintext: compresses it, seals the result under
/// a fresh random nonce, and frames it as `signature ‖ version ‖ nonce ‖
/// ciphertext`.
///
/// On success the envelope decodes back to exactly the input (see
/// [`decode`], whose result is pinned by [`spec_plaintext`]). Success is
/// owed whenever the compressed plaintext fits the AEAD plaintext bound
/// `P_MAX = 2^36 - 32` — which every realistic secret does; the one failure
/// left, a payload beyond that bound, is an `EncryptionError`.
pub fn encode(plaintext: &str, key: &AeadKey, config: &EncryptionConfig) -> (r: Result<
    Vec<u8>,
    SmartLockerError,
>)
    requires
        key.wf(),
        config.wf(),
    ensures
        r matches Ok(env) ==> is_envelope_for(env@, key@, plaintext@),
        r matches Err(e) ==> e is EncryptionError,
        gzip_of(encode_utf8(plaintext@), config.compression_level).len() <= 0xF_FFFF_FFDF
            ==> r is Ok,
{
    let bytes = plaintext.as_bytes_vec();
    let compressed = match gzip_compress(&bytes, config.compression_level) {
        Ok(c) => c,
        Err(_) => {
            return Err(SmartLockerError::EncryptionError("compression failed".to_owned()));
        },
    };
    let nonce = config.generate_nonce();
    let ciphertext = match aead_seal(key, &nonce, &compressed) {
        Ok(ct) => ct,
        Err(_) => {
            return Err(SmartLockerError::EncryptionError("sealing failed".to_owned()));
        },
    };
    let mut env = signature_bytes();
    env.push(config.format_version);
    let mut nonce_tail = nonce;
    let ghost nonce_view = nonce_tail@;
    env.append(&mut nonce_tail);
    let mut ct_tail = ciphertext;
    let ghost ct_view = ct_tail@;
    env.append(&mut ct_tail);
    proof {
        assert(env@.len() == 21 + ct_view.len());
        assert(env@.subrange(0, 8) =~= spec_signature());
        assert(env@[8] == FORMAT_VERSION);
        assert(spec_nonce(env@) =~= nonce_view);
        assert(spec_ciphertext(env@) =~= ct_view);
        assert(decode_utf8(encode_utf8(plaintext@)) == plaintext@);
    }
    Ok(env)
}

/// Opens one envelope: verifies the signature and version, splits off the
/// nonce, authenticates and opens the ciphertext, decompresses, and reads
/// the result as UTF-8. All-or-nothing: every failure is a
/// `DecryptionError`, and no partial plaintext is ever returned.
///
/// Each failure is pinned to its cause:
/// - a missing signature (or an envelope too short to carry one and a
///   version byte) is a `"format mismatch"`;
/// - an unrecognized version byte is an `"unsupported version"`, whatever
///   the payload;
/// - a truncated nonce, a wrong key, or any unauthentic ciphertext is an
///   `"authentication failed"`;
/// - an authenticated payload that does not decompress to UTF-8 is a
///   `"decompression failed"`.
pub fn decode(env: &Vec<u8>, key: &AeadKey) -> (r: Result<String, SmartLockerError>)
    requires
        key.wf(),
    ensures
        r matches Ok(p) ==> decode_ok(env@, key@) && Some(p@) == spec_plaintext(env@, key@),
        decode_ok(env@, key@) ==> r is Ok,
        r matches Err(e) ==> !decode_ok(env@, key@) && e is DecryptionError && e.spec_message()
            == decode_err_message(env@, key@),
{
    let sig = signature_bytes();
    if env.len() < 9 {
        return Err(SmartLockerError::DecryptionError("format mismatch".to_owned()));
    }
    let mut i: usize = 0;
    while i < 8
        invariant
            i <= 8,
            env@.len() >= 9,
            sig@ == spec_signature(),
            forall|k: int| 0 <= k < i ==> env@[k] == spec_signature()[k],
        decreases 8 - i,
    {
        if env[i] != sig[i] {
            return Err(SmartLockerError::DecryptionError("format mismatch".to_owned()));
        }
        i += 1;
    }
    proof {
        assert(env@.subrange(0, 8) =~= spec_signature());
    }
    if env[8] != FORMAT_VERSION {
        return Err(SmartLockerError::DecryptionError("unsupported version".to_owned()));
    }
    if env.len() < HEADER_SIZE {
        return Err(SmartLockerError::DecryptionError("authentication failed".to_owned()));
    }
    let mut nonce: Vec<u8> = Vec::new();
    let mut j: usize = 9;
    while j < HEADER_SIZE
        invariant
            9 <= j <= HEADER_SIZE,
            env@.len() >= HEADER_SIZE,
            nonce@ =~= env@.subrange(9, j as int),
        decreases HEADER_SIZE - j,
    {
        nonce.push(env[j]);
        j += 1;
    }
    let mut ciphertext: Vec<u8> = Vec::new();
    let mut k: usize = HEADER_SIZE;
    while k < env.len()
        invariant
            HEADER_SIZE <= k <= env@.len(),
            ciphertext@ =~= env@.subrange(21, k as int),
        decreases env@.len() - k,
    {
        ciphertext.push(env[k]);
        k += 1;
    }
    proof {
        assert(nonce@ =~= spec_nonce(env@));
        assert(ciphertext@ =~= spec_ciphertext(env@));
    }
    let payload = match aead_open(key, &nonce, &ciphertext) {
        Ok(z) => z,
        Err(_) => {
            return Err(SmartLockerError::DecryptionError("authentication failed".to_owned()));
        },
    };
    let decompressed = match gzip_decompress(&payload) {
        Ok(m) => m,
        Err(_) => {
            return Err(SmartLockerError::DecryptionError("decompression failed".to_owned()));
        },
    };
    match bytes_to_string(decompressed) {
        Ok(s) => Ok(s),
        Err(_) => Err(SmartLockerError::DecryptionError("decompression failed".to_owned())),
    }
}

/// Round trip: an envelope [`encode`] produces under a key — whatever nonce
/// it drew — is one [`decode`] accepts under that key, and the plaintext it
/// yields is exactly the one encoded.
pub proof fn lemma_encode_decode_round_trip(env: Seq<u8>, key: Seq<u8>, plaintext: Seq<char>)
    requires
        is_envelope_for(env, key, plaintext),
    ensures
        decode_ok(env, key),
        spec_plaintext(env, key) == Some(plaintext),
{
}

} // verus!
