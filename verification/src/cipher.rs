//! Authenticated encryption with AES-256 in Galois/counter mode.

use aes_gcm::aead::{Aead, KeyInit, Payload};
use aes_gcm::{Aes256Gcm, Nonce};
use vstd::prelude::*;

use crate::error::{fault, internal, CryptoError, CryptoErrorKind, CryptoErrorView};
use crate::secret::SecretBytes;

verus! {

/// The length of a nonce, in bytes.
pub const NONCE_SIZE: usize = 12;

/// The length of an authentication tag, in bytes.
pub const TAG_SIZE: u64 = 16;

/// The longest message that AES-GCM encrypts, in bytes.
pub const MESSAGE_LIMIT: u64 = 0xf_ffff_ffe0;

/// The longest associated data that AES-GCM authenticates, in bytes.
pub const ASSOCIATED_LIMIT: u64 = 0x1fff_ffff_ffff_ffff;

/// The error of the `aes_gcm` crate.
#[verifier::external_type_specification]
#[verifier::external_body]
pub struct ExCipherError(aes_gcm::Error);

/// What `Aes256Gcm::encrypt` makes of a message: the encrypted message and its tag.
pub uninterp spec fn sealed(
    key: Seq<u8>,
    nonce: Seq<u8>,
    message: Seq<u8>,
    associated: Seq<u8>,
) -> Seq<u8>;

/// What `Aes256Gcm::decrypt` makes of an encrypted message: the message, if the tag is the
/// right one.
pub uninterp spec fn opened(
    key: Seq<u8>,
    nonce: Seq<u8>,
    encrypted: Seq<u8>,
    associated: Seq<u8>,
) -> Option<Seq<u8>>;

/// `Aes256Gcm::encrypt`. It fails on a message or on associated data that are too long, and on
/// nothing else. Otherwise the result is as long as the message and the tag together, and
/// `Aes256Gcm::decrypt` turns it back into the message.
#[verifier::external_body]
pub(crate) fn aes_encrypt(
    key: &[u8; 32],
    nonce: &[u8; NONCE_SIZE],
    message: &[u8],
    associated: &[u8],
) -> (outcome: Result<Vec<u8>, aes_gcm::Error>)
    requires
        message@.len() + TAG_SIZE <= isize::MAX,
    ensures
        match outcome {
            Ok(encrypted) => {
                &&& message@.len() <= MESSAGE_LIMIT
                &&& associated@.len() <= ASSOCIATED_LIMIT
                &&& encrypted@ == sealed(key@, nonce@, message@, associated@)
                &&& encrypted@.len() == message@.len() + TAG_SIZE
                &&& opened(key@, nonce@, encrypted@, associated@) == Some(message@)
            },
            Err(_) => message@.len() > MESSAGE_LIMIT || associated@.len() > ASSOCIATED_LIMIT,
        },
{
    Aes256Gcm::new_from_slice(key).expect("an AES-256 key has 32 bytes").encrypt(
        &Nonce::try_from(nonce.as_slice()).expect("an AES-GCM nonce has 12 bytes"),
        Payload { msg: message, aad: associated },
    )
}

/// Whether AES-GCM takes a message and associated data of these lengths.
pub open spec fn encryptable(message: Seq<u8>, associated: Seq<u8>) -> bool {
    message.len() <= MESSAGE_LIMIT && associated.len() <= ASSOCIATED_LIMIT
}

/// Whether AES-GCM takes a message, and makes this encrypted message of it.
pub open spec fn seals(
    key: Seq<u8>,
    nonce: Seq<u8>,
    message: Seq<u8>,
    associated: Seq<u8>,
    encrypted: Seq<u8>,
) -> bool {
    encryptable(message, associated) && sealed(key, nonce, message, associated) == encrypted
}

/// `Aes256Gcm::decrypt`. It gives a message exactly where `Aes256Gcm::encrypt`, under the same
/// key, nonce and associated data, takes that message and makes the input of it; the input is
/// then longer than the message by the tag.
#[verifier::external_body]
pub(crate) fn aes_decrypt(
    key: &[u8; 32],
    nonce: &[u8; NONCE_SIZE],
    encrypted: &[u8],
    associated: &[u8],
) -> (outcome: Result<Vec<u8>, aes_gcm::Error>)
    ensures
        match outcome {
            Ok(message) => {
                &&& opened(key@, nonce@, encrypted@, associated@) == Some(message@)
                &&& encrypted@.len() == message@.len() + TAG_SIZE
            },
            Err(_) => opened(key@, nonce@, encrypted@, associated@) is None,
        },
        forall|message: Seq<u8>|
            (outcome matches Ok(found) && found@ == message) <==> #[trigger] seals(
                key@,
                nonce@,
                message,
                associated@,
                encrypted@,
            ),
{
    Aes256Gcm::new_from_slice(key).expect("an AES-256 key has 32 bytes").decrypt(
        &Nonce::try_from(nonce.as_slice()).expect("an AES-GCM nonce has 12 bytes"),
        Payload { msg: encrypted, aad: associated },
    )
}

/// The error for a message that could not be encrypted.
pub open spec fn encryption_failure() -> CryptoErrorView {
    internal("AES-GCM 加密失敗"@)
}

/// The error for data that failed authentication.
pub open spec fn authentication_failure() -> CryptoErrorView {
    fault(CryptoErrorKind::Corrupt, "影片資料驗證失敗，檔案可能已損毀或被竄改"@)
}

/// Encrypts and authenticates a message, and authenticates the associated data.
pub fn encrypt_with_key(
    key: &[u8; 32],
    nonce: &[u8; NONCE_SIZE],
    plaintext: &[u8],
    aad: &[u8],
) -> (outcome: Result<Vec<u8>, CryptoError>)
    requires
        plaintext@.len() + TAG_SIZE <= isize::MAX,
    ensures
        match outcome {
            Ok(ciphertext) => {
                &&& encryptable(plaintext@, aad@)
                &&& ciphertext@ == sealed(key@, nonce@, plaintext@, aad@)
                &&& ciphertext@.len() == plaintext@.len() + TAG_SIZE
                &&& opened(key@, nonce@, ciphertext@, aad@) == Some(plaintext@)
            },
            Err(error) => !encryptable(plaintext@, aad@) && error@ == encryption_failure(),
        },
        forall|ciphertext: Seq<u8>|
            (outcome matches Ok(made) && made@ == ciphertext) <==> #[trigger] seals(
                key@,
                nonce@,
                plaintext@,
                aad@,
                ciphertext,
            ),
{
    match aes_encrypt(key, nonce, plaintext, aad) {
        Ok(ciphertext) => Ok(ciphertext),
        Err(_) => Err(CryptoError::new("AES-GCM 加密失敗")),
    }
}

/// Decrypts a message after it has checked that nothing was changed in it or in the
/// associated data. It gives a message exactly where encrypting that message gives the input.
pub fn decrypt_with_key(
    key: &[u8; 32],
    nonce: &[u8; NONCE_SIZE],
    ciphertext: &[u8],
    aad: &[u8],
) -> (outcome: Result<SecretBytes, CryptoError>)
    ensures
        match outcome {
            Ok(plaintext) => {
                &&& opened(key@, nonce@, ciphertext@, aad@) == Some(plaintext@)
                &&& ciphertext@.len() == plaintext@.len() + TAG_SIZE
            },
            Err(error) => {
                &&& opened(key@, nonce@, ciphertext@, aad@) is None
                &&& error@ == authentication_failure()
            },
        },
        forall|plaintext: Seq<u8>|
            (outcome matches Ok(found) && found@ == plaintext) <==> #[trigger] seals(
                key@,
                nonce@,
                plaintext,
                aad@,
                ciphertext@,
            ),
{
    match aes_decrypt(key, nonce, ciphertext, aad) {
        Ok(plaintext) => Ok(SecretBytes::new(plaintext)),
        Err(_) => Err(
            CryptoError::with_kind(
                CryptoErrorKind::Corrupt,
                "影片資料驗證失敗，檔案可能已損毀或被竄改",
            ),
        ),
    }
}

} // verus!
