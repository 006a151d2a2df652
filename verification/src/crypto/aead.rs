//! Authenticated encryption with associated data: AES-256-GCM, and
//! ChaCha20-Poly1305 as the selectable fallback.

use vstd::prelude::*;
use aes_gcm::aead::{Aead, KeyInit, Payload};
use crate::crypto::secret::Secret;
use crate::error::BentengError;

verus! {

/// The AEAD algorithms an envelope may name.
#[derive(Debug, Clone, Copy, PartialEq, Eq, Structural)]
pub enum AeadAlgorithm {
    Aes256Gcm,
    ChaCha20Poly1305,
}

/// The longest plaintext and the longest associated data that AES-GCM takes.
pub const AES_GCM_MAX_INPUT: u64 = 0x10_0000_0000;

/// The length of the authentication tag that both algorithms append.
pub const AEAD_TAG_LEN: usize = 16;

/// The AES-256-GCM ciphertext, tag appended, of a plaintext.
pub uninterp spec fn aes_256_gcm_sealed(key: Seq<u8>, nonce: Seq<u8>, plaintext: Seq<u8>, aad: Seq<u8>) -> Seq<u8>;

/// What AES-256-GCM decryption gives for a ciphertext: the plaintext, or
/// nothing where authentication fails.
pub uninterp spec fn aes_256_gcm_opened(key: Seq<u8>, nonce: Seq<u8>, ciphertext: Seq<u8>, aad: Seq<u8>) -> Option<Seq<u8>>;

/// The ChaCha20-Poly1305 ciphertext, tag appended, of a plaintext.
pub uninterp spec fn chacha20_poly1305_sealed(key: Seq<u8>, nonce: Seq<u8>, plaintext: Seq<u8>, aad: Seq<u8>) -> Seq<u8>;

/// What ChaCha20-Poly1305 decryption gives for a ciphertext.
pub uninterp spec fn chacha20_poly1305_opened(key: Seq<u8>, nonce: Seq<u8>, ciphertext: Seq<u8>, aad: Seq<u8>) -> Option<Seq<u8>>;

/// The view of an optional byte vector.
pub open spec fn opt_vec_view(v: Option<Vec<u8>>) -> Option<Seq<u8>> {
    match v {
        Some(bytes) => Some(bytes@),
        None => None,
    }
}

/// Whether an input is within what the algorithm takes and its ciphertext
/// is no longer than a vector can be.
pub open spec fn aead_input_fits(alg: AeadAlgorithm, plaintext_len: nat, aad_len: nat) -> bool {
    &&& plaintext_len + AEAD_TAG_LEN <= isize::MAX
    &&& match alg {
        AeadAlgorithm::Aes256Gcm => plaintext_len <= AES_GCM_MAX_INPUT && aad_len
            <= AES_GCM_MAX_INPUT,
        AeadAlgorithm::ChaCha20Poly1305 => plaintext_len / 64 < u32::MAX,
    }
}

/// The ciphertext of `plaintext` under `alg`.
pub open spec fn aead_sealed(
    alg: AeadAlgorithm,
    key: Seq<u8>,
    nonce: Seq<u8>,
    plaintext: Seq<u8>,
    aad: Seq<u8>,
) -> Seq<u8> {
    match alg {
        AeadAlgorithm::Aes256Gcm => aes_256_gcm_sealed(key, nonce, plaintext, aad),
        AeadAlgorithm::ChaCha20Poly1305 => chacha20_poly1305_sealed(key, nonce, plaintext, aad),
    }
}

/// What decryption under `alg` gives for `ciphertext`.
pub open spec fn aead_opened(
    alg: AeadAlgorithm,
    key: Seq<u8>,
    nonce: Seq<u8>,
    ciphertext: Seq<u8>,
    aad: Seq<u8>,
) -> Option<Seq<u8>> {
    match alg {
        AeadAlgorithm::Aes256Gcm => aes_256_gcm_opened(key, nonce, ciphertext, aad),
        AeadAlgorithm::ChaCha20Poly1305 => chacha20_poly1305_opened(key, nonce, ciphertext, aad),
    }
}

/// `Aes256Gcm::encrypt` of the `aead` trait: the ciphertext with the 16-byte
/// tag appended. The crate refuses only inputs over its length limits, which
/// `requires` leaves out; decrypting the result under the same key, nonce and
/// associated data gives the plaintext back.
#[verifier::external_body]
fn aes_gcm_encrypt(key: &[u8; 32], nonce: &[u8; 12], plaintext: &[u8], aad: &[u8]) -> (ct: Option<Vec<u8>>)
    requires
        aead_input_fits(AeadAlgorithm::Aes256Gcm, plaintext@.len(), aad@.len()),
    ensures
        ct is Some,
        ct matches Some(c) ==> c@ == aes_256_gcm_sealed(key@, nonce@, plaintext@, aad@),
        ct matches Some(c) ==> c@.len() == plaintext@.len() + AEAD_TAG_LEN,
        ct matches Some(c) ==> aes_256_gcm_opened(key@, nonce@, c@, aad@) == Some(plaintext@),
{
    let cipher = aes_gcm::Aes256Gcm::new(aes_gcm::Key::<aes_gcm::Aes256Gcm>::from_slice(key));
    cipher.encrypt(aes_gcm::Nonce::from_slice(nonce), Payload { msg: plaintext, aad }).ok()
}

/// `Aes256Gcm::decrypt` of the `aead` trait: the plaintext where the tag
/// authenticates ciphertext and associated data, nothing otherwise. A
/// plaintext is 16 bytes shorter than its ciphertext.
#[verifier::external_body]
fn aes_gcm_decrypt(key: &[u8; 32], nonce: &[u8; 12], ciphertext: &[u8], aad: &[u8]) -> (pt: Option<Vec<u8>>)
    ensures
        opt_vec_view(pt) == aes_256_gcm_opened(key@, nonce@, ciphertext@, aad@),
        pt matches Some(p) ==> p@.len() + AEAD_TAG_LEN == ciphertext@.len(),
{
    let cipher = aes_gcm::Aes256Gcm::new(aes_gcm::Key::<aes_gcm::Aes256Gcm>::from_slice(key));
    cipher.decrypt(aes_gcm::Nonce::from_slice(nonce), Payload { msg: ciphertext, aad }).ok()
}

/// `ChaCha20Poly1305::encrypt` of the `aead` trait: the ciphertext with the
/// 16-byte tag appended. The crate refuses only plaintexts of 2^32 - 1 blocks
/// or more, which `requires` leaves out; decrypting the result under the same
/// key, nonce and associated data gives the plaintext back.
#[verifier::external_body]
fn chacha_encrypt(key: &[u8; 32], nonce: &[u8; 12], plaintext: &[u8], aad: &[u8]) -> (ct: Option<Vec<u8>>)
    requires
        aead_input_fits(AeadAlgorithm::ChaCha20Poly1305, plaintext@.len(), aad@.len()),
    ensures
        ct is Some,
        ct matches Some(c) ==> c@ == chacha20_poly1305_sealed(key@, nonce@, plaintext@, aad@),
        ct matches Some(c) ==> c@.len() == plaintext@.len() + AEAD_TAG_LEN,
        ct matches Some(c) ==> chacha20_poly1305_opened(key@, nonce@, c@, aad@) == Some(plaintext@),
{
    let cipher = chacha20poly1305::ChaCha20Poly1305::new(chacha20poly1305::Key::from_slice(key));
    cipher.encrypt(chacha20poly1305::Nonce::from_slice(nonce), Payload { msg: plaintext, aad }).ok()
}

/// `ChaCha20Poly1305::decrypt` of the `aead` trait: the plaintext where the
/// tag authenticates ciphertext and associated data, nothing otherwise.
#[verifier::external_body]
fn chacha_decrypt(key: &[u8; 32], nonce: &[u8; 12], ciphertext: &[u8], aad: &[u8]) -> (pt: Option<Vec<u8>>)
    ensures
        opt_vec_view(pt) == chacha20_poly1305_opened(key@, nonce@, ciphertext@, aad@),
        pt matches Some(p) ==> p@.len() + AEAD_TAG_LEN == ciphertext@.len(),
{
    let cipher = chacha20poly1305::ChaCha20Poly1305::new(chacha20poly1305::Key::from_slice(key));
    cipher.decrypt(chacha20poly1305::Nonce::from_slice(nonce), Payload { msg: ciphertext, aad }).ok()
}

/// Whether `plaintext` and `aad` are within what `alg` takes.
fn input_fits(alg: AeadAlgorithm, plaintext: &[u8], aad: &[u8]) -> (fits: bool)
    ensures
        fits == aead_input_fits(alg, plaintext@.len(), aad@.len()),
{
    if plaintext.len() > (isize::MAX as usize) - AEAD_TAG_LEN {
        return false;
    }
    match alg {
        AeadAlgorithm::Aes256Gcm => plaintext.len() as u64 <= AES_GCM_MAX_INPUT && aad.len() as u64
            <= AES_GCM_MAX_INPUT,
        AeadAlgorithm::ChaCha20Poly1305 => ((plaintext.len() / 64) as u64) < (u32::MAX as u64),
    }
}

/// Encrypts `plaintext` under `alg`, binding `aad`. The result is the
/// ciphertext followed by the tag, and opens to `plaintext` again. Fails with
/// `AeadFailure` exactly where the input is over the algorithm's limits.
pub fn aead_encrypt(
    alg: AeadAlgorithm,
    key: &[u8; 32],
    nonce: &[u8; 12],
    plaintext: &[u8],
    aad: &[u8],
) -> (res: Result<Vec<u8>, BentengError>)
    ensures
        res is Ok <==> aead_input_fits(alg, plaintext@.len(), aad@.len()),
        res matches Ok(ct) ==> {
            &&& ct@ == aead_sealed(alg, key@, nonce@, plaintext@, aad@)
            &&& ct@.len() == plaintext@.len() + AEAD_TAG_LEN
            &&& aead_opened(alg, key@, nonce@, ct@, aad@) == Some(plaintext@)
        },
        res matches Err(e) ==> e == BentengError::AeadFailure,
{
    if !input_fits(alg, plaintext, aad) {
        return Err(BentengError::AeadFailure);
    }
    let ct = match alg {
        AeadAlgorithm::Aes256Gcm => aes_gcm_encrypt(key, nonce, plaintext, aad),
        AeadAlgorithm::ChaCha20Poly1305 => chacha_encrypt(key, nonce, plaintext, aad),
    };
    match ct {
        Some(c) => Ok(c),
        None => Err(BentengError::AeadFailure),
    }
}

/// Decrypts `ciphertext` under `alg`. Any failure is `AeadFailure`.
pub fn aead_decrypt(
    alg: AeadAlgorithm,
    key: &[u8; 32],
    nonce: &[u8; 12],
    ciphertext: &[u8],
    aad: &[u8],
) -> (res: Result<Secret, BentengError>)
    ensures
        match aead_opened(alg, key@, nonce@, ciphertext@, aad@) {
            Some(plaintext) => res matches Ok(pt) && pt@ == plaintext && plaintext.len()
                + AEAD_TAG_LEN == ciphertext@.len(),
            None => res == Err::<Secret, BentengError>(BentengError::AeadFailure),
        },
{
    let pt = match alg {
        AeadAlgorithm::Aes256Gcm => aes_gcm_decrypt(key, nonce, ciphertext, aad),
        AeadAlgorithm::ChaCha20Poly1305 => chacha_decrypt(key, nonce, ciphertext, aad),
    };
    match pt {
        Some(p) => Ok(Secret::new(p)),
        None => Err(BentengError::AeadFailure),
    }
}

/// Encrypts with AES-256-GCM.
pub fn aes_256_gcm_encrypt(key: &[u8; 32], nonce: &[u8; 12], plaintext: &[u8], aad: &[u8]) -> (res: Result<Vec<u8>, BentengError>)
    ensures
        res is Ok <==> aead_input_fits(AeadAlgorithm::Aes256Gcm, plaintext@.len(), aad@.len()),
        res matches Ok(ct) ==> {
            &&& ct@ == aes_256_gcm_sealed(key@, nonce@, plaintext@, aad@)
            &&& ct@.len() == plaintext@.len() + AEAD_TAG_LEN
            &&& aes_256_gcm_opened(key@, nonce@, ct@, aad@) == Some(plaintext@)
        },
        res matches Err(e) ==> e == BentengError::AeadFailure,
{
    aead_encrypt(AeadAlgorithm::Aes256Gcm, key, nonce, plaintext, aad)
}

/// Decrypts with AES-256-GCM. Any failure is `AeadFailure`.
pub fn aes_256_gcm_decrypt(key: &[u8; 32], nonce: &[u8; 12], ciphertext: &[u8], aad: &[u8]) -> (res: Result<Secret, BentengError>)
    ensures
        match aes_256_gcm_opened(key@, nonce@, ciphertext@, aad@) {
            Some(plaintext) => res matches Ok(pt) && pt@ == plaintext,
            None => res == Err::<Secret, BentengError>(BentengError::AeadFailure),
        },
{
    aead_decrypt(AeadAlgorithm::Aes256Gcm, key, nonce, ciphertext, aad)
}

/// Encrypts with ChaCha20-Poly1305.
pub fn chacha20_poly1305_encrypt(key: &[u8; 32], nonce: &[u8; 12], plaintext: &[u8], aad: &[u8]) -> (res: Result<Vec<u8>, BentengError>)
    ensures
        res is Ok <==> aead_input_fits(
            AeadAlgorithm::ChaCha20Poly1305,
            plaintext@.len(),
            aad@.len(),
        ),
        res matches Ok(ct) ==> {
            &&& ct@ == chacha20_poly1305_sealed(key@, nonce@, plaintext@, aad@)
            &&& ct@.len() == plaintext@.len() + AEAD_TAG_LEN
            &&& chacha20_poly1305_opened(key@, nonce@, ct@, aad@) == Some(plaintext@)
        },
        res matches Err(e) ==> e == BentengError::AeadFailure,
{
    aead_encrypt(AeadAlgorithm::ChaCha20Poly1305, key, nonce, plaintext, aad)
}

/// Decrypts with ChaCha20-Poly1305. Any failure is `AeadFailure`.
pub fn chacha20_poly1305_decrypt(key: &[u8; 32], nonce: &[u8; 12], ciphertext: &[u8], aad: &[u8]) -> (res: Result<Secret, BentengError>)
    ensures
        match chacha20_poly1305_opened(key@, nonce@, ciphertext@, aad@) {
            Some(plaintext) => res matches Ok(pt) && pt@ == plaintext,
            None => res == Err::<Secret, BentengError>(BentengError::AeadFailure),
        },
{
    aead_decrypt(AeadAlgorithm::ChaCha20Poly1305, key, nonce, ciphertext, aad)
}

} // verus!
