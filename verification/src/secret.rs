//! Secrets, which are overwritten in memory when they are dropped.

use vstd::prelude::*;
use zeroize::Zeroizing;

verus! {

/// A byte buffer in a `zeroize::Zeroizing`, which overwrites it when it is dropped.
#[verifier::external_body]
pub struct SecretBytes {
    inner: Zeroizing<Vec<u8>>,
}

/// A 256-bit key in a `zeroize::Zeroizing`, which overwrites it when it is dropped.
#[verifier::external_body]
pub struct SecretKey {
    inner: Zeroizing<[u8; 32]>,
}

/// The bytes that a protected buffer holds.
pub uninterp spec fn secret_bytes(secret: SecretBytes) -> Seq<u8>;

/// The bytes that a protected key holds.
pub uninterp spec fn secret_key(secret: SecretKey) -> Seq<u8>;

impl View for SecretBytes {
    type V = Seq<u8>;

    open spec fn view(&self) -> Seq<u8> {
        secret_bytes(*self)
    }
}

impl View for SecretKey {
    type V = Seq<u8>;

    open spec fn view(&self) -> Seq<u8> {
        secret_key(*self)
    }
}

/// `Zeroizing::new` on a buffer keeps the buffer's bytes.
#[verifier::external_body]
pub(crate) fn protect_bytes(bytes: Vec<u8>) -> (secret: SecretBytes)
    ensures
        secret_bytes(secret) == bytes@,
{
    SecretBytes { inner: Zeroizing::new(bytes) }
}

/// `Zeroizing::deref` on a buffer gives the buffer itself. A `Vec<u8>` never holds more than
/// `isize::MAX` bytes.
#[verifier::external_body]
pub(crate) fn expose_bytes(secret: &SecretBytes) -> (bytes: &Vec<u8>)
    ensures
        bytes@ == secret_bytes(*secret),
        bytes@.len() <= isize::MAX,
{
    &secret.inner
}

/// `Zeroizing::deref_mut` on a buffer gives the buffer itself: what it is left with, the
/// secret holds afterwards.
#[verifier::external_body]
pub(crate) fn expose_bytes_mut(secret: &mut SecretBytes) -> (bytes: &mut Vec<u8>)
    ensures
        bytes@ == secret_bytes(*old(secret)),
        secret_bytes(*final(secret)) == final(bytes)@,
{
    &mut secret.inner
}

/// `Zeroizing::new` on a key keeps the key's bytes.
#[verifier::external_body]
pub(crate) fn protect_key(key: [u8; 32]) -> (secret: SecretKey)
    ensures
        secret_key(secret) == key@,
{
    SecretKey { inner: Zeroizing::new(key) }
}

/// `Zeroizing::deref` on a key gives the key itself.
#[verifier::external_body]
pub(crate) fn expose_key(secret: &SecretKey) -> (key: &[u8; 32])
    ensures
        key@ == secret_key(*secret),
{
    &secret.inner
}

impl SecretBytes {
    /// Protects a buffer.
    pub fn new(bytes: Vec<u8>) -> (secret: Self)
        ensures
            secret@ == bytes@,
    {
        protect_bytes(bytes)
    }

    /// The protected bytes.
    pub fn as_slice(&self) -> (bytes: &[u8])
        ensures
            bytes@ == self@,
            bytes@.len() <= isize::MAX,
    {
        expose_bytes(self).as_slice()
    }

    /// The number of protected bytes.
    pub fn len(&self) -> (len: usize)
        ensures
            len == self@.len(),
            len <= isize::MAX,
    {
        expose_bytes(self).len()
    }
}

impl SecretKey {
    /// Protects a key.
    pub fn new(key: [u8; 32]) -> (secret: Self)
        ensures
            secret@ == key@,
    {
        protect_key(key)
    }

    /// The protected key.
    pub fn as_array(&self) -> (key: &[u8; 32])
        ensures
            key@ == self@,
    {
        expose_key(self)
    }
}

impl Clone for SecretKey {
    fn clone(&self) -> (copy: Self)
        ensures
            copy@ == self@,
    {
        protect_key(*expose_key(self))
    }
}

} // verus!
