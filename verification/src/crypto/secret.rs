//! Scrub-on-drop buffers for key material.

use vstd::prelude::*;

verus! {

/// Key material that is overwritten with zeros when it is dropped, on every
/// path that drops it.
#[verifier::external_body]
pub struct Secret {
    inner: zeroize::Zeroizing<Vec<u8>>,
}

/// The bytes that a scrub-on-drop buffer holds.
pub uninterp spec fn secret_bytes(secret: Secret) -> Seq<u8>;

impl View for Secret {
    type V = Seq<u8>;

    open spec fn view(&self) -> Seq<u8> {
        secret_bytes(*self)
    }
}

/// `zeroize::Zeroizing::new`: wraps the vector; the buffer then holds its bytes.
#[verifier::external_body]
fn zeroizing_new(bytes: Vec<u8>) -> (secret: Secret)
    ensures
        secret_bytes(secret) == bytes@,
{
    Secret { inner: zeroize::Zeroizing::new(bytes) }
}

/// `Deref` of `zeroize::Zeroizing`: borrows the bytes that the buffer holds.
#[verifier::external_body]
fn zeroizing_as_slice(secret: &Secret) -> (bytes: &[u8])
    ensures
        bytes@ == secret_bytes(*secret),
{
    secret.inner.as_slice()
}

/// `zeroize::Zeroize::zeroize` on a 32-byte array: every byte becomes zero.
#[verifier::external_body]
fn zeroize_array(buf: &mut [u8; 32])
    ensures
        forall|i: int| 0 <= i < 32 ==> final(buf)@[i] == 0u8,
{
    zeroize::Zeroize::zeroize(buf)
}

/// `zeroize::Zeroize::zeroize` on a vector: its bytes are overwritten and it
/// is left empty.
#[verifier::external_body]
fn zeroize_vec(buf: &mut Vec<u8>)
    ensures
        final(buf)@.len() == 0,
{
    zeroize::Zeroize::zeroize(buf)
}

impl Secret {
    /// Takes ownership of `bytes`.
    pub fn new(bytes: Vec<u8>) -> (secret: Secret)
        ensures
            secret@ == bytes@,
    {
        zeroizing_new(bytes)
    }

    /// A buffer holding a copy of `bytes`.
    pub fn from_slice(bytes: &[u8]) -> (secret: Secret)
        ensures
            secret@ == bytes@,
    {
        zeroizing_new(crate::bytes::to_vec(bytes))
    }

    /// The bytes held.
    pub fn as_slice(&self) -> (bytes: &[u8])
        ensures
            bytes@ == self@,
    {
        zeroizing_as_slice(self)
    }

    /// The number of bytes held.
    pub fn len(&self) -> (n: usize)
        ensures
            n == self@.len(),
    {
        self.as_slice().len()
    }

    /// A copy of the bytes held, outside the scrubbed buffer.
    pub fn to_vec(&self) -> (bytes: Vec<u8>)
        ensures
            bytes@ == self@,
    {
        crate::bytes::to_vec(self.as_slice())
    }
}

/// Overwrites a 32-byte key with zeros.
pub fn scrub_key(key: &mut [u8; 32])
    ensures
        final(key)@ == Seq::new(32, |i: int| 0u8),
{
    zeroize_array(key);
    assert(key@ =~= Seq::new(32, |i: int| 0u8));
}

/// Overwrites the bytes of `buf` with zeros and empties it.
pub fn scrub(buf: &mut Vec<u8>)
    ensures
        final(buf)@ == Seq::<u8>::empty(),
{
    zeroize_vec(buf);
    assert(buf@ =~= Seq::<u8>::empty());
}

} // verus!
