//! Key encapsulation (ML-KEM-768) and the elliptic-curve Diffie-Hellman
//! function of hybrid mode (X25519).

use vstd::prelude::*;
use pqcrypto_traits::kem::{Ciphertext, PublicKey, SecretKey, SharedSecret};
use crate::crypto::random_bytes;
use crate::crypto::secret::{scrub, Secret};
use crate::error::BentengError;

verus! {

/// Length of an ML-KEM-768 public key.
pub const KYBER768_PUBLIC_KEY_LEN: usize = 1184;

/// Length of an ML-KEM-768 secret key.
pub const KYBER768_SECRET_KEY_LEN: usize = 2400;

/// Length of an ML-KEM-768 ciphertext.
pub const KYBER768_CIPHERTEXT_LEN: usize = 1088;

/// Length of a shared secret, of ML-KEM-768 and of X25519 alike.
pub const SHARED_SECRET_LEN: usize = 32;

/// The shared secret that ML-KEM-768 decapsulation gives for a ciphertext.
pub uninterp spec fn kyber768_decapsulated(secret_key: Seq<u8>, ciphertext: Seq<u8>) -> Seq<u8>;

/// Whether an ML-KEM-768 public key and secret key were generated
/// together, as the two halves of one key pair.
pub uninterp spec fn kyber768_pair(public_key: Seq<u8>, secret_key: Seq<u8>) -> bool;

/// That every secret key generated together with `public_key` recovers
/// `shared` from `ciphertext`.
pub open spec fn recovered_by_pair(public_key: Seq<u8>, ciphertext: Seq<u8>, shared: Seq<u8>) -> bool {
    forall|secret_key: Seq<u8>| #[trigger]
        kyber768_pair(public_key, secret_key) ==> kyber768_decapsulated(secret_key, ciphertext)
            == shared
}

/// The X25519 function of a scalar and a point.
pub uninterp spec fn x25519_shared(scalar: Seq<u8>, point: Seq<u8>) -> Seq<u8>;

/// That `shared`, made of `scalar` and `point`, is the secret on which the
/// two sides of a key exchange agree: whoever holds the scalar of which
/// `point` is the public key has the same from the public key of `scalar`.
pub open spec fn x25519_agreed(scalar: Seq<u8>, point: Seq<u8>, shared: Seq<u8>) -> bool {
    forall|other: Seq<u8>|
        other.len() == 32 && point == #[trigger] x25519_shared(other, x25519_basepoint())
            ==> shared == x25519_shared(other, x25519_shared(scalar, x25519_basepoint()))
}

/// The X25519 base point.
pub open spec fn x25519_basepoint() -> Seq<u8> {
    Seq::new(32, |i: int| if i == 0 { 9u8 } else { 0u8 })
}

/// `kyber768::keypair`: a fresh key pair, each key of its fixed length,
/// the two belonging together. Where the operating system gives no
/// randomness the call does not return.
#[verifier::external_body]
fn kyber768_generate() -> (keys: (Vec<u8>, Vec<u8>))
    ensures
        keys.0@.len() == KYBER768_PUBLIC_KEY_LEN,
        keys.1@.len() == KYBER768_SECRET_KEY_LEN,
        kyber768_pair(keys.0@, keys.1@),
{
    let (pk, sk) = pqcrypto_kyber::kyber768::keypair();
    (pk.as_bytes().to_vec(), sk.as_bytes().to_vec())
}

/// `kyber768::encapsulate`: a fresh shared secret and the ciphertext that
/// carries it, each of its fixed length. As the crate documents of a key
/// pair of its own making, decapsulation with the secret key that belongs
/// to `public_key` gives the same secret. A key of another length than
/// `requires` asks for is refused by the crate's `from_bytes`. Where the
/// operating system gives no randomness the call does not return.
#[verifier::external_body]
fn kyber768_encapsulate_to(public_key: &[u8]) -> (out: Option<(Vec<u8>, Vec<u8>)>)
    requires
        public_key@.len() == KYBER768_PUBLIC_KEY_LEN,
    ensures
        out is Some,
        out matches Some(pair) ==> pair.0@.len() == KYBER768_CIPHERTEXT_LEN,
        out matches Some(pair) ==> pair.1@.len() == SHARED_SECRET_LEN,
        out matches Some(pair) ==> recovered_by_pair(public_key@, pair.0@, pair.1@),
{
    let pk = pqcrypto_kyber::kyber768::PublicKey::from_bytes(public_key).ok()?;
    let (ss, ct) = pqcrypto_kyber::kyber768::encapsulate(&pk);
    Some((ct.as_bytes().to_vec(), ss.as_bytes().to_vec()))
}

/// `kyber768::decapsulate`: the 32-byte shared secret that the secret key
/// recovers from the ciphertext, a function of the two.
#[verifier::external_body]
fn kyber768_decapsulate_with(secret_key: &[u8], ciphertext: &[u8]) -> (out: Option<Vec<u8>>)
    requires
        secret_key@.len() == KYBER768_SECRET_KEY_LEN,
        ciphertext@.len() == KYBER768_CIPHERTEXT_LEN,
    ensures
        out is Some,
        out matches Some(ss) ==> ss@ == kyber768_decapsulated(secret_key@, ciphertext@),
        out matches Some(ss) ==> ss@.len() == SHARED_SECRET_LEN,
{
    let sk = pqcrypto_kyber::kyber768::SecretKey::from_bytes(secret_key).ok()?;
    let ct = pqcrypto_kyber::kyber768::Ciphertext::from_bytes(ciphertext).ok()?;
    Some(pqcrypto_kyber::kyber768::decapsulate(&ct, &sk).as_bytes().to_vec())
}

/// `x25519_dalek::x25519`: the X25519 function of a scalar and a point. As
/// the crate documents, the two sides of an exchange have the same secret:
/// one from its scalar and the other's public key, the other likewise.
#[verifier::external_body]
fn x25519_scalar_mult(scalar: &[u8; 32], point: &[u8; 32]) -> (out: [u8; 32])
    ensures
        out@ == x25519_shared(scalar@, point@),
        x25519_agreed(scalar@, point@, out@),
{
    x25519_dalek::x25519(*scalar, *point)
}

/// Generates an ML-KEM-768 key pair: the public key and the secret key,
/// which belong together.
pub fn kyber768_keypair() -> (res: Result<(Vec<u8>, Secret), BentengError>)
    ensures
        res matches Ok(keys) && keys.0@.len() == KYBER768_PUBLIC_KEY_LEN && keys.1@.len()
            == KYBER768_SECRET_KEY_LEN && kyber768_pair(keys.0@, keys.1@),
{
    let (public_key, secret_key) = kyber768_generate();
    Ok((public_key, Secret::new(secret_key)))
}

/// Encapsulates a fresh shared secret to `public_key`: the ciphertext and
/// the secret, which every secret key that belongs to `public_key`
/// recovers from the ciphertext. Fails with `InternalError` exactly where
/// the key has not the length of an ML-KEM-768 public key.
pub fn kyber768_encapsulate(public_key: &[u8]) -> (res: Result<(Vec<u8>, Secret), BentengError>)
    ensures
        res is Ok <==> public_key@.len() == KYBER768_PUBLIC_KEY_LEN,
        res matches Ok(pair) ==> pair.0@.len() == KYBER768_CIPHERTEXT_LEN && pair.1@.len()
            == SHARED_SECRET_LEN,
        res matches Ok(pair) ==> recovered_by_pair(public_key@, pair.0@, pair.1@),
        res matches Err(e) ==> e == BentengError::InternalError,
{
    if public_key.len() != KYBER768_PUBLIC_KEY_LEN {
        return Err(BentengError::InternalError);
    }
    match kyber768_encapsulate_to(public_key) {
        Some((ciphertext, shared)) => Ok((ciphertext, Secret::new(shared))),
        None => Err(BentengError::InternalError),
    }
}

/// Whether decapsulation is defined on a secret key and a ciphertext of
/// these lengths.
pub open spec fn kyber768_lengths_ok(secret_key: Seq<u8>, ciphertext: Seq<u8>) -> bool {
    secret_key.len() == KYBER768_SECRET_KEY_LEN && ciphertext.len() == KYBER768_CIPHERTEXT_LEN
}

/// Recovers the shared secret from `ciphertext`. Fails with `InternalError`
/// exactly where the secret key or the ciphertext has the wrong length; a
/// wrong key and a wrong ciphertext are not told apart.
pub fn kyber768_decapsulate(secret_key: &[u8], ciphertext: &[u8]) -> (res: Result<Secret, BentengError>)
    ensures
        res is Ok <==> kyber768_lengths_ok(secret_key@, ciphertext@),
        res matches Ok(ss) ==> ss@ == kyber768_decapsulated(secret_key@, ciphertext@) && ss@.len()
            == SHARED_SECRET_LEN,
        res matches Err(e) ==> e == BentengError::InternalError,
{
    if secret_key.len() != KYBER768_SECRET_KEY_LEN || ciphertext.len() != KYBER768_CIPHERTEXT_LEN {
        return Err(BentengError::InternalError);
    }
    match kyber768_decapsulate_with(secret_key, ciphertext) {
        Some(shared) => Ok(Secret::new(shared)),
        None => Err(BentengError::InternalError),
    }
}

/// An X25519 key pair for hybrid mode.
pub struct X25519KeyPair {
    pub public: [u8; 32],
    pub secret: Secret,
}

/// Copies 32 bytes into an array.
pub fn array32(bytes: &[u8]) -> (out: [u8; 32])
    requires
        bytes@.len() == 32,
    ensures
        out@ == bytes@,
{
    let mut out = [0u8; 32];
    let mut i: usize = 0;
    while i < 32
        invariant
            i <= 32,
            bytes@.len() == 32,
            forall|j: int| 0 <= j < i ==> out@[j] == bytes@[j],
        decreases 32 - i,
    {
        out[i] = bytes[i];
        i += 1;
    }
    assert(out@ =~= bytes@);
    out
}

/// The X25519 base point as bytes.
fn basepoint() -> (point: [u8; 32])
    ensures
        point@ == x25519_basepoint(),
{
    let mut point = [0u8; 32];
    point[0] = 9;
    assert(point@ =~= x25519_basepoint());
    point
}

/// The X25519 public key of a secret scalar.
pub fn x25519_public_key(secret: &[u8; 32]) -> (public: [u8; 32])
    ensures
        public@ == x25519_shared(secret@, x25519_basepoint()),
{
    let point = basepoint();
    x25519_scalar_mult(secret, &point)
}

/// Generates an X25519 key pair: a random scalar and its public key. Fails
/// with `EntropyUnavailable` only where the random source fails.
pub fn x25519_keypair() -> (res: Result<X25519KeyPair, BentengError>)
    ensures
        res matches Ok(pair) ==> pair.secret@.len() == 32 && pair.public@ == x25519_shared(
            pair.secret@,
            x25519_basepoint(),
        ),
        res matches Err(e) ==> e == BentengError::EntropyUnavailable,
{
    let mut bytes = random_bytes(32)?;
    let mut scalar = array32(bytes.as_slice());
    let public = x25519_public_key(&scalar);
    let secret = Secret::from_slice(bytes.as_slice());
    scrub(&mut bytes);
    crate::crypto::secret::scrub_key(&mut scalar);
    Ok(X25519KeyPair { public, secret })
}

/// The X25519 shared secret of our secret scalar and their public key, by
/// scalar multiplication on Curve25519.
pub fn x25519_shared_secret(secret: &[u8; 32], their_public: &[u8; 32]) -> (res: Result<Secret, BentengError>)
    ensures
        res matches Ok(shared) && shared@ == x25519_shared(secret@, their_public@) && shared@.len()
            == 32 && x25519_agreed(secret@, their_public@, shared@),
{
    let mut shared = x25519_scalar_mult(secret, their_public);
    let out = Secret::from_slice(shared.as_slice());
    crate::crypto::secret::scrub_key(&mut shared);
    Ok(out)
}

} // verus!
