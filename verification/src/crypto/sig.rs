//! Detached signatures (ML-DSA-65).

use vstd::prelude::*;
use pqcrypto_traits::sign::{DetachedSignature, PublicKey, SecretKey};
use crate::error::BentengError;

verus! {

/// Length of an ML-DSA-65 public key.
pub const DILITHIUM3_PUBLIC_KEY_LEN: usize = 1952;

/// Length of an ML-DSA-65 secret key.
pub const DILITHIUM3_SECRET_KEY_LEN: usize = 4032;

/// Length of an ML-DSA-65 detached signature.
pub const DILITHIUM3_SIGNATURE_LEN: usize = 3309;

/// The detached signature that a secret key makes over a message.
pub uninterp spec fn dilithium3_signed(secret_key: Seq<u8>, message: Seq<u8>) -> Seq<u8>;

/// Whether a public key accepts a detached signature over a message.
pub uninterp spec fn dilithium3_verified(public_key: Seq<u8>, message: Seq<u8>, signature: Seq<u8>) -> bool;

/// Whether a public key and a secret key were generated together, as the
/// two halves of one key pair.
pub uninterp spec fn dilithium3_pair(public_key: Seq<u8>, secret_key: Seq<u8>) -> bool;

/// `dilithium3::keypair`: a fresh key pair, each key of its fixed length,
/// the two belonging together. Where the operating system gives no
/// randomness the call does not return.
#[verifier::external_body]
fn dilithium3_generate() -> (keys: (Vec<u8>, Vec<u8>))
    ensures
        keys.0@.len() == DILITHIUM3_PUBLIC_KEY_LEN,
        keys.1@.len() == DILITHIUM3_SECRET_KEY_LEN,
        dilithium3_pair(keys.0@, keys.1@),
{
    let (pk, sk) = pqcrypto_dilithium::dilithium3::keypair();
    (pk.as_bytes().to_vec(), sk.as_bytes().to_vec())
}

/// `dilithium3::detached_sign`: the signature over `message`, a function of
/// key and message, of the fixed signature length, and accepted over that
/// message by every public key generated together with the secret key.
#[verifier::external_body]
fn dilithium3_detached_sign(secret_key: &[u8], message: &[u8]) -> (sig: Option<Vec<u8>>)
    requires
        secret_key@.len() == DILITHIUM3_SECRET_KEY_LEN,
    ensures
        sig is Some,
        sig matches Some(s) ==> s@ == dilithium3_signed(secret_key@, message@),
        sig matches Some(s) ==> s@.len() == DILITHIUM3_SIGNATURE_LEN,
        sig matches Some(s) ==> signed_by_pair(secret_key@, message@, s@),
{
    let sk = pqcrypto_dilithium::dilithium3::SecretKey::from_bytes(secret_key).ok()?;
    Some(pqcrypto_dilithium::dilithium3::detached_sign(message, &sk).as_bytes().to_vec())
}

/// `dilithium3::verify_detached_signature`: whether the public key accepts
/// the signature, of the length of a signature, over the message.
#[verifier::external_body]
fn dilithium3_verify_detached(public_key: &[u8], message: &[u8], signature: &[u8]) -> (accepted: bool)
    requires
        public_key@.len() == DILITHIUM3_PUBLIC_KEY_LEN,
        signature@.len() == DILITHIUM3_SIGNATURE_LEN,
    ensures
        accepted == dilithium3_verified(public_key@, message@, signature@),
{
    match (
        pqcrypto_dilithium::dilithium3::PublicKey::from_bytes(public_key),
        pqcrypto_dilithium::dilithium3::DetachedSignature::from_bytes(signature),
    ) {
        (Ok(pk), Ok(sig)) => pqcrypto_dilithium::dilithium3::verify_detached_signature(&sig, message, &pk).is_ok(),
        _ => false,
    }
}

/// That every public key generated together with `secret_key` accepts
/// `signature` over `message`.
pub open spec fn signed_by_pair(secret_key: Seq<u8>, message: Seq<u8>, signature: Seq<u8>) -> bool {
    forall|public_key: Seq<u8>| #[trigger]
        dilithium3_pair(public_key, secret_key) ==> dilithium3_verified(public_key, message, signature)
}

/// Generates an ML-DSA-65 key pair: the public key and the secret key, which
/// belong together.
pub fn dilithium3_keypair() -> (res: Result<(Vec<u8>, Vec<u8>), BentengError>)
    ensures
        res matches Ok(keys) && keys.0@.len() == DILITHIUM3_PUBLIC_KEY_LEN && keys.1@.len()
            == DILITHIUM3_SECRET_KEY_LEN && dilithium3_pair(keys.0@, keys.1@),
{
    Ok(dilithium3_generate())
}

/// Signs `message`. Fails with `InternalError` exactly where the secret key
/// has not the length of an ML-DSA-65 secret key.
pub fn dilithium3_sign(secret_key: &[u8], message: &[u8]) -> (res: Result<Vec<u8>, BentengError>)
    ensures
        res is Ok <==> secret_key@.len() == DILITHIUM3_SECRET_KEY_LEN,
        res matches Ok(sig) ==> sig@ == dilithium3_signed(secret_key@, message@) && sig@.len()
            == DILITHIUM3_SIGNATURE_LEN,
        res matches Ok(sig) ==> signed_by_pair(secret_key@, message@, sig@),
        res matches Err(e) ==> e == BentengError::InternalError,
{
    if secret_key.len() != DILITHIUM3_SECRET_KEY_LEN {
        return Err(BentengError::InternalError);
    }
    match dilithium3_detached_sign(secret_key, message) {
        Some(sig) => Ok(sig),
        None => Err(BentengError::InternalError),
    }
}

/// Whether `public_key` accepts `signature` over `message`: false for a key
/// or a signature that has not the length of one.
pub open spec fn signature_accepted(public_key: Seq<u8>, message: Seq<u8>, signature: Seq<u8>) -> bool {
    &&& public_key.len() == DILITHIUM3_PUBLIC_KEY_LEN
    &&& signature.len() == DILITHIUM3_SIGNATURE_LEN
    &&& dilithium3_verified(public_key, message, signature)
}

/// Verifies a detached signature. Verification is total: a key or a
/// signature that has not the length of one gives `false`, whatever it
/// holds. Only an empty public key, a caller's mistake, is an error,
/// `InvalidSignature`.
pub fn dilithium3_verify(public_key: &[u8], message: &[u8], signature: &[u8]) -> (res: Result<bool, BentengError>)
    ensures
        public_key@.len() == 0 ==> res == Err::<bool, BentengError>(BentengError::InvalidSignature),
        public_key@.len() != 0 ==> res == Ok::<bool, BentengError>(
            signature_accepted(public_key@, message@, signature@),
        ),
{
    if public_key.len() == 0 {
        return Err(BentengError::InvalidSignature);
    }
    if public_key.len() != DILITHIUM3_PUBLIC_KEY_LEN || signature.len() != DILITHIUM3_SIGNATURE_LEN {
        return Ok(false);
    }
    Ok(dilithium3_verify_detached(public_key, message, signature))
}

} // verus!
