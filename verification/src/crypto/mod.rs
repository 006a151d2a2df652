//! Cryptographic primitives: randomness, hashing, key derivation, key
//! encapsulation, signatures and authenticated encryption.

pub mod aad;
pub mod aead;
pub mod cache;
pub mod hash;
pub mod kdf;
pub mod kem;
pub mod kms;
pub mod kms_storage;
pub mod secret;
pub mod sig;

use vstd::prelude::*;
use rand::RngCore;
use crate::error::BentengError;

verus! {

/// `rand::rngs::OsRng::try_fill_bytes`: fills `buf` from the operating
/// system's random source and says whether the source delivered. The length of
/// `buf` stays; nothing is claimed of the bytes.
#[verifier::external_body]
fn os_rng_fill(buf: &mut [u8]) -> (filled: bool)
    ensures
        final(buf)@.len() == old(buf)@.len(),
{
    rand::rngs::OsRng.try_fill_bytes(buf).is_ok()
}

/// Fills `buf` with cryptographically secure random bytes. Fails with
/// `EntropyUnavailable` only where the operating system's source fails.
pub fn secure_random(buf: &mut [u8]) -> (res: Result<(), BentengError>)
    ensures
        final(buf)@.len() == old(buf)@.len(),
        res matches Err(e) ==> e == BentengError::EntropyUnavailable,
{
    if os_rng_fill(buf) {
        Ok(())
    } else {
        Err(BentengError::EntropyUnavailable)
    }
}

/// `len` cryptographically secure random bytes.
pub fn random_bytes(len: usize) -> (res: Result<Vec<u8>, BentengError>)
    ensures
        res matches Ok(bytes) ==> bytes@.len() == len,
        res matches Err(e) ==> e == BentengError::EntropyUnavailable,
{
    let mut buf: Vec<u8> = Vec::new();
    buf.resize(len, 0u8);
    match secure_random(buf.as_mut_slice()) {
        Ok(()) => Ok(buf),
        Err(e) => Err(e),
    }
}

/// A fresh random nonce for authenticated encryption.
pub fn generate_nonce() -> (res: Result<[u8; 12], BentengError>)
    ensures
        res matches Err(e) ==> e == BentengError::EntropyUnavailable,
{
    let mut nonce = [0u8; 12];
    secure_random(&mut nonce)?;
    Ok(nonce)
}

} // verus!
