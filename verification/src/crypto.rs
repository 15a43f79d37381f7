//! Vetted crypto primitives (RustCrypto): Argon2id key derivation, AES-256-GCM, HKDF-SHA256,
//! SHA-256, base64 and the OS random source, each reached through one trusted item whose contract
//! names what the outside function computes.
use aes_gcm::aead::{Aead, KeyInit, Payload};
use base64::Engine;
use hkdf::Hkdf;
use sha2::Digest;
use vstd::prelude::*;
use zeroize::Zeroize;

verus! {

/// Length in bytes of every symmetric key in the vault.
pub const KEY_LEN: usize = 32;

/// Length in bytes of an AES-GCM nonce.
pub const NONCE_LEN: usize = 12;

/// Length in bytes of the AES-GCM authentication tag appended to every ciphertext.
pub const TAG_LEN: usize = 16;

/// Largest plaintext (and associated data) AES-GCM accepts: 2^36 bytes.
pub const GCM_MAX_LEN: u64 = 0x10_0000_0000;

/// Why a primitive failed.
#[derive(Debug, Clone, Copy, PartialEq, Eq, Structural)]
pub enum CryptoError {
    /// The OS random source reported an error.
    Rng,
    /// The Argon2 cost parameters are out of range.
    KdfParams,
    /// Argon2 refused the passphrase or salt (salt shorter than 8 bytes, or an over-long input).
    KdfFailed,
    /// AES-GCM refused to encrypt (over-long plaintext or associated data).
    Encrypt,
    /// AES-GCM authentication failed: wrong key or tampered data.
    Decrypt,
}

/// The description each failure displays.
pub open spec fn crypto_message(e: CryptoError) -> Seq<char> {
    match e {
        CryptoError::Rng => "rng failure"@,
        CryptoError::KdfParams => "argon2 params out of range"@,
        CryptoError::KdfFailed => "argon2 derivation failed"@,
        CryptoError::Encrypt => "AEAD encrypt failed"@,
        CryptoError::Decrypt => "decrypt failed — wrong passphrase or tampered data"@,
    }
}

impl CryptoError {
    /// A human-readable description of the failure.
    pub fn message(&self) -> (s: &'static str)
        ensures
            s@ == crypto_message(*self),
    {
        match self {
            CryptoError::Rng => "rng failure",
            CryptoError::KdfParams => "argon2 params out of range",
            CryptoError::KdfFailed => "argon2 derivation failed",
            CryptoError::Encrypt => "AEAD encrypt failed",
            CryptoError::Decrypt => "decrypt failed — wrong passphrase or tampered data",
        }
    }
}

// ------------------------------------------------------------------------------------------------
// Names for what the outside functions compute.
// ------------------------------------------------------------------------------------------------

/// The 32-byte output of Argon2id (version 0x13) with the given memory, time and lane costs.
pub uninterp spec fn argon2id_v13(passphrase: Seq<u8>, salt: Seq<u8>, m_cost: u32, t_cost: u32, p_cost: u32) -> Seq<u8>;

/// AES-256-GCM encryption: the ciphertext followed by the 16-byte tag.
pub uninterp spec fn aes256gcm_seal(key: Seq<u8>, nonce: Seq<u8>, plaintext: Seq<u8>, aad: Seq<u8>) -> Seq<u8>;

/// AES-256-GCM decryption with tag check; `None` when the tag does not verify.
pub uninterp spec fn aes256gcm_open(key: Seq<u8>, nonce: Seq<u8>, ciphertext: Seq<u8>, aad: Seq<u8>) -> Option<Seq<u8>>;

/// Standard (padded) base64 encoding.
pub uninterp spec fn base64_encode(data: Seq<u8>) -> Seq<char>;

/// Standard (padded, canonical) base64 decoding; `None` for text that is not valid base64.
pub uninterp spec fn base64_decode(text: Seq<char>) -> Option<Seq<u8>>;

/// The first 32 bytes of HKDF-SHA256 output for the given salt, input key material and info.
pub uninterp spec fn hkdf_sha256_32(salt: Seq<u8>, ikm: Seq<u8>, info: Seq<u8>) -> Seq<u8>;

/// The SHA-256 digest of `data`.
pub uninterp spec fn sha256(data: Seq<u8>) -> Seq<u8>;

/// The cost parameters that `argon2::Params::new` accepts (documented ranges).
pub open spec fn argon2_params_valid(m_cost: u32, t_cost: u32, p_cost: u32) -> bool {
    &&& m_cost >= 8
    &&& m_cost >= 8 * p_cost
    &&& t_cost >= 1
    &&& 1 <= p_cost <= 0xFF_FFFF
}

/// The passphrase and salt lengths that Argon2 accepts.
pub open spec fn argon2_inputs_valid(passphrase: Seq<u8>, salt: Seq<u8>) -> bool {
    &&& passphrase.len() <= 0xFFFF_FFFF
    &&& 8 <= salt.len() <= 0xFFFF_FFFF
}

/// Why the Argon2 call failed.
pub enum Argon2Failure {
    Params,
    Derive,
}

#[verifier::external_type_specification]
#[verifier::external_body]
pub struct ExGetrandomError(getrandom::Error);

#[verifier::external_type_specification]
#[verifier::external_body]
pub struct ExAeadError(aes_gcm::Error);

#[verifier::external_type_specification]
#[verifier::external_body]
pub struct ExDecodeError(base64::DecodeError);

// ------------------------------------------------------------------------------------------------
// Trusted items.
// ------------------------------------------------------------------------------------------------

/// `getrandom::getrandom` fills `n` fresh bytes from the OS random source. The contract states
/// only the length: the bytes themselves are chance.
#[verifier::external_body]
fn os_random(n: usize) -> (r: Result<Vec<u8>, getrandom::Error>)
    ensures
        r matches Ok(v) ==> v@.len() == n,
{
    let mut b = vec![0u8; n];
    match getrandom::getrandom(&mut b) {
        Ok(()) => Ok(b),
        Err(e) => Err(e),
    }
}

/// `argon2::Params::new(m, t, p, Some(32))` then `Argon2::new(Argon2id, V0x13, ..)
/// .hash_password_into`: fails on out-of-range costs (`Params`) or on a salt shorter than 8 bytes or
/// an over-long input (`Derive`), and otherwise yields the 32-byte Argon2id output. Lane counts above
/// 2^24 - 1 are left out because the crate computes `8 * p_cost` in `u32`. The crate allocates the
/// `m_cost` KiB of block memory before any input check; when the machine cannot provide it the
/// process aborts, which this contract leaves unsaid.
#[verifier::external_body]
fn argon2id_hash(passphrase: &[u8], salt: &[u8], m_cost: u32, t_cost: u32, p_cost: u32) -> (r: Result<Vec<u8>, Argon2Failure>)
    requires
        p_cost <= 0xFF_FFFF,
    ensures
        r matches Err(Argon2Failure::Params) <==> !argon2_params_valid(m_cost, t_cost, p_cost),
        r matches Err(Argon2Failure::Derive) <==> (argon2_params_valid(m_cost, t_cost, p_cost) && !argon2_inputs_valid(passphrase@, salt@)),
        r matches Ok(k) ==> k@ == argon2id_v13(passphrase@, salt@, m_cost, t_cost, p_cost) && k@.len() == KEY_LEN,
{
    let params = match argon2::Params::new(m_cost, t_cost, p_cost, Some(KEY_LEN)) {
        Ok(p) => p,
        Err(_) => return Err(Argon2Failure::Params),
    };
    let a2 = argon2::Argon2::new(argon2::Algorithm::Argon2id, argon2::Version::V0x13, params);
    let mut key = vec![0u8; KEY_LEN];
    match a2.hash_password_into(passphrase, salt, &mut key) {
        Ok(()) => Ok(key),
        Err(_) => Err(Argon2Failure::Derive),
    }
}

/// `Aes256Gcm::encrypt`: fails only when the plaintext or the associated data exceeds 2^36 bytes;
/// otherwise returns ciphertext||tag (16 bytes longer than the plaintext), which `decrypt` with the
/// same key, nonce and associated data turns back into the plaintext.
#[verifier::external_body]
fn gcm_encrypt(key: &[u8], nonce: &[u8], plaintext: &[u8], aad: &[u8]) -> (r: Result<Vec<u8>, aes_gcm::Error>)
    requires
        key@.len() == KEY_LEN,
        nonce@.len() == NONCE_LEN,
    ensures
        r is Ok <==> (plaintext@.len() <= GCM_MAX_LEN && aad@.len() <= GCM_MAX_LEN),
        r matches Ok(c) ==> {
            &&& c@ == aes256gcm_seal(key@, nonce@, plaintext@, aad@)
            &&& c@.len() == plaintext@.len() + TAG_LEN
            &&& aes256gcm_open(key@, nonce@, c@, aad@) == Some(plaintext@)
        },
{
    let cipher = aes_gcm::Aes256Gcm::new(aes_gcm::Key::<aes_gcm::Aes256Gcm>::from_slice(key));
    cipher.encrypt(aes_gcm::Nonce::from_slice(nonce), Payload { msg: plaintext, aad })
}

/// `Aes256Gcm::decrypt`: the plaintext when the tag verifies, an error otherwise.
#[verifier::external_body]
fn gcm_decrypt(key: &[u8], nonce: &[u8], ciphertext: &[u8], aad: &[u8]) -> (r: Result<Vec<u8>, aes_gcm::Error>)
    requires
        key@.len() == KEY_LEN,
        nonce@.len() == NONCE_LEN,
    ensures
        match r {
            Ok(p) => aes256gcm_open(key@, nonce@, ciphertext@, aad@) == Some(p@),
            Err(_) => aes256gcm_open(key@, nonce@, ciphertext@, aad@) is None,
        },
{
    let cipher = aes_gcm::Aes256Gcm::new(aes_gcm::Key::<aes_gcm::Aes256Gcm>::from_slice(key));
    cipher.decrypt(aes_gcm::Nonce::from_slice(nonce), Payload { msg: ciphertext, aad })
}

/// An ASCII letter or digit.
pub open spec fn is_ascii_alnum(c: char) -> bool {
    (48 <= (c as int) <= 57) || (65 <= (c as int) <= 90) || (97 <= (c as int) <= 122)
}

/// A character of padded standard base64.
pub open spec fn is_base64_char(c: char) -> bool {
    is_ascii_alnum(c) || c == '+' || c == '/' || c == '='
}

/// `base64::engine::general_purpose::STANDARD.encode`: padded base64 over the standard alphabet
/// (`A`-`Z`, `a`-`z`, `0`-`9`, `+`, `/`, and `=` for padding), which `decode` turns back into the
/// same bytes.
#[verifier::external_body]
pub(crate) fn b64_encode(data: &[u8]) -> (r: String)
    ensures
        r@ == base64_encode(data@),
        base64_decode(r@) == Some(data@),
        r@.len() == 4 * ((data@.len() + 2) / 3),
        forall|k: int| 0 <= k < r@.len() ==> is_base64_char(#[trigger] r@[k]),
{
    base64::engine::general_purpose::STANDARD.encode(data)
}

/// `base64::engine::general_purpose::STANDARD.decode`: the bytes when `text` is valid base64.
#[verifier::external_body]
pub(crate) fn b64_decode(text: &str) -> (r: Result<Vec<u8>, base64::DecodeError>)
    ensures
        match r {
            Ok(v) => base64_decode(text@) == Some(v@),
            Err(_) => base64_decode(text@) is None,
        },
{
    base64::engine::general_purpose::STANDARD.decode(text)
}

/// `Hkdf::<Sha256>::new(Some(salt), ikm).expand(info, ..)` into 32 bytes (well under the
/// 255 * 32 limit, so it never fails).
#[verifier::external_body]
pub(crate) fn hkdf_wrap(salt: &[u8], ikm: &[u8], info: &[u8]) -> (r: Vec<u8>)
    ensures
        r@ == hkdf_sha256_32(salt@, ikm@, info@),
        r@.len() == 32,
{
    let mut okm = vec![0u8; 32];
    let _ = Hkdf::<sha2::Sha256>::new(Some(salt), ikm).expand(info, &mut okm);
    okm
}

/// `sha2::Sha256::digest`: the 32-byte digest.
#[verifier::external_body]
pub(crate) fn sha256_digest(data: &[u8]) -> (r: Vec<u8>)
    ensures
        r@ == sha256(data@),
        r@.len() == 32,
{
    sha2::Sha256::digest(data).to_vec()
}

/// `Zeroize::zeroize` on a `Vec<u8>`: overwrites the contents (and spare capacity) with zeros and
/// then clears it, so the vector is empty afterwards.
#[verifier::external_body]
pub(crate) fn wipe(v: &mut Vec<u8>)
    ensures
        final(v)@.len() == 0,
{
    v.zeroize();
}

// ------------------------------------------------------------------------------------------------
// The library's primitives.
// ------------------------------------------------------------------------------------------------

/// `n` cryptographically secure random bytes.
pub fn random_bytes(n: usize) -> (r: Result<Vec<u8>, CryptoError>)
    ensures
        match r {
            Ok(v) => v@.len() == n,
            Err(e) => e == CryptoError::Rng,
        },
{
    match os_random(n) {
        Ok(v) => Ok(v),
        Err(_) => Err(CryptoError::Rng),
    }
}

/// Derive a 32-byte key-encryption key from a passphrase via Argon2id.
pub fn derive_kek(passphrase: &[u8], salt: &[u8], m_cost: u32, t_cost: u32, p_cost: u32) -> (r: Result<Vec<u8>, CryptoError>)
    ensures
        r is Ok <==> argon2_params_valid(m_cost, t_cost, p_cost) && argon2_inputs_valid(passphrase@, salt@),
        r matches Ok(k) ==> k@ == argon2id_v13(passphrase@, salt@, m_cost, t_cost, p_cost) && k@.len() == KEY_LEN,
        r matches Err(e) ==> (e == CryptoError::KdfParams <==> !argon2_params_valid(m_cost, t_cost, p_cost)),
        r matches Err(e) ==> (e == CryptoError::KdfParams || e == CryptoError::KdfFailed),
{
    if p_cost > 0xFF_FFFF {
        return Err(CryptoError::KdfParams);
    }
    match argon2id_hash(passphrase, salt, m_cost, t_cost, p_cost) {
        Ok(k) => Ok(k),
        Err(Argon2Failure::Params) => Err(CryptoError::KdfParams),
        Err(Argon2Failure::Derive) => Err(CryptoError::KdfFailed),
    }
}

/// AES-256-GCM encrypt. Returns ciphertext||tag. `nonce` must be unique per key.
pub fn aead_encrypt(key: &[u8], nonce: &[u8], plaintext: &[u8], aad: &[u8]) -> (r: Result<Vec<u8>, CryptoError>)
    requires
        key@.len() == KEY_LEN,
        nonce@.len() == NONCE_LEN,
    ensures
        r is Ok <==> (plaintext@.len() <= GCM_MAX_LEN && aad@.len() <= GCM_MAX_LEN),
        r matches Ok(c) ==> c@ == aes256gcm_seal(key@, nonce@, plaintext@, aad@)
            && c@.len() == plaintext@.len() + TAG_LEN,
        r matches Ok(c) ==> aes256gcm_open(key@, nonce@, c@, aad@) == Some(plaintext@),
        r matches Err(e) ==> e == CryptoError::Encrypt,
{
    match gcm_encrypt(key, nonce, plaintext, aad) {
        Ok(c) => Ok(c),
        Err(_) => Err(CryptoError::Encrypt),
    }
}

/// AES-256-GCM decrypt and verify. Fails on a wrong key or tampered data.
pub fn aead_decrypt(key: &[u8], nonce: &[u8], ciphertext: &[u8], aad: &[u8]) -> (r: Result<Vec<u8>, CryptoError>)
    requires
        key@.len() == KEY_LEN,
        nonce@.len() == NONCE_LEN,
    ensures
        match r {
            Ok(p) => aes256gcm_open(key@, nonce@, ciphertext@, aad@) == Some(p@),
            Err(e) => aes256gcm_open(key@, nonce@, ciphertext@, aad@) is None && e == CryptoError::Decrypt,
        },
{
    match gcm_decrypt(key, nonce, ciphertext, aad) {
        Ok(p) => Ok(p),
        Err(_) => Err(CryptoError::Decrypt),
    }
}


/// Append the bytes of `src` to `dst`.
pub fn extend_bytes(dst: &mut Vec<u8>, src: &[u8])
    ensures
        final(dst)@ == old(dst)@ + src@,
{
    let ghost start = dst@;
    let mut i: usize = 0;
    while i < src.len()
        invariant
            i <= src@.len(),
            dst@ == start + src@.subrange(0, i as int),
        decreases src.len() - i,
    {
        dst.push(src[i]);
        i = i + 1;
        proof {
            assert(dst@ =~= start + src@.subrange(0, i as int));
        }
    }
    proof {
        assert(src@.subrange(0, src@.len() as int) =~= src@);
    }
}

} // verus!
