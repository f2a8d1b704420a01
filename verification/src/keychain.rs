//! The device key, which the key store of the operating system keeps.
//!
//! The key store is asked for the device key. Where it has none yet, a fresh one is made and
//! handed to it to keep.

use vstd::prelude::*;
use vstd::string::*;

use crate::error::{fault, internal, CryptoError, CryptoErrorKind, CryptoErrorView};
use crate::keys::KEY_SIZE;
use crate::octets::to_array;
use crate::random::{are_drawn, is_draw_failure, random_bytes};
use crate::secret::{SecretBytes, SecretKey};

verus! {

/// The name under which the key store keeps the keys of this application.
pub const KEYRING_SERVICE: &'static str = "com.jim.mytauriapp.content-keys";

/// What the key store answers when it is asked for the device key.
pub enum KeychainReply {
    /// The secret that it keeps.
    Secret(SecretBytes),
    /// It keeps none.
    NoEntry,
    /// It could not answer, with its report.
    Failed(String),
}

/// What is to be done to have the device key.
pub enum KekStep {
    /// Nothing: here it is.
    Ready(SecretKey),
    /// The key store has to keep this fresh key.
    Store(SecretKey),
}

/// The error for a key store that could not be reached.
pub open spec fn unreachable_store(report: Seq<char>) -> CryptoErrorView {
    fault(CryptoErrorKind::KeyUnavailable, "無法初始化作業系統金鑰儲存區："@ + report)
}

/// The error for a secret that is not a key.
pub open spec fn not_a_key() -> CryptoErrorView {
    internal("作業系統金鑰儲存區中的 KEK 長度不正確"@)
}

/// The error for a device key that could not be read.
pub open spec fn unreadable_key(report: Seq<char>) -> CryptoErrorView {
    fault(CryptoErrorKind::KeyUnavailable, "無法讀取作業系統 KEK："@ + report)
}

/// The error for a device key that could not be stored.
pub open spec fn unstored_key(report: Seq<char>) -> CryptoErrorView {
    fault(CryptoErrorKind::KeyUnavailable, "無法保存作業系統 KEK："@ + report)
}

/// The error for a key store that could not be reached.
pub fn keyring_error(report: &str) -> (error: CryptoError)
    ensures
        error@ == unreachable_store(report@),
{
    CryptoError::reported(
        CryptoErrorKind::KeyUnavailable,
        "無法初始化作業系統金鑰儲存區：",
        report,
    )
}

/// The device key that the key store keeps, if it keeps one.
pub fn kept_kek(reply: KeychainReply) -> (outcome: Result<Option<SecretKey>, CryptoError>)
    ensures
        match reply {
            KeychainReply::Secret(secret) => if secret@.len() == KEY_SIZE {
                outcome matches Ok(Some(kek)) && kek@ == secret@
            } else {
                outcome matches Err(error) && error@ == not_a_key()
            },
            KeychainReply::NoEntry => outcome matches Ok(None),
            KeychainReply::Failed(report) => outcome matches Err(error) && error@
                == unreadable_key(report@),
        },
{
    match reply {
        KeychainReply::Secret(secret) => {
            if secret.len() == KEY_SIZE {
                Ok(Some(SecretKey::new(to_array::<32>(secret.as_slice()))))
            } else {
                Err(CryptoError::new("作業系統金鑰儲存區中的 KEK 長度不正確"))
            }
        },
        KeychainReply::NoEntry => Ok(None),
        KeychainReply::Failed(report) => Err(
            CryptoError::reported(
                CryptoErrorKind::KeyUnavailable,
                "無法讀取作業系統 KEK：",
                report.as_str(),
            ),
        ),
    }
}

/// What to do once the key store has answered. Only where it keeps no device key, a fresh one
/// is made.
pub fn load_or_create_kek(reply: KeychainReply) -> (outcome: Result<KekStep, CryptoError>)
    ensures
        match reply {
            KeychainReply::Secret(secret) => if secret@.len() == KEY_SIZE {
                outcome matches Ok(KekStep::Ready(kek)) && kek@ == secret@
            } else {
                outcome matches Err(error) && error@ == not_a_key()
            },
            KeychainReply::NoEntry => match outcome {
                Ok(step) => step matches KekStep::Store(kek) && are_drawn::<KEY_SIZE>(kek@),
                Err(error) => is_draw_failure::<KEY_SIZE>(error@),
            },
            KeychainReply::Failed(report) => outcome matches Err(error) && error@
                == unreadable_key(report@),
        },
{
    match kept_kek(reply) {
        Ok(Some(kek)) => Ok(KekStep::Ready(kek)),
        Ok(None) => match random_bytes::<KEY_SIZE>() {
            Ok(bytes) => Ok(KekStep::Store(SecretKey::new(bytes))),
            Err(error) => Err(error),
        },
        Err(error) => Err(error),
    }
}

/// The fresh device key, once the key store has kept it. `failure` is the report of the key
/// store, where it could not.
pub fn created_kek(kek: SecretKey, failure: Option<String>) -> (outcome: Result<
    SecretKey,
    CryptoError,
>)
    ensures
        match failure {
            None => outcome matches Ok(kept) && kept@ == kek@,
            Some(report) => outcome matches Err(error) && error@ == unstored_key(report@),
        },
{
    match failure {
        None => Ok(kek),
        Some(report) => Err(
            CryptoError::reported(
                CryptoErrorKind::KeyUnavailable,
                "無法保存作業系統 KEK：",
                report.as_str(),
            ),
        ),
    }
}

/// Whatever the key store fails at, the device key is then not available, and what the key store
/// reported comes last in the message; a secret that is no key is a fault of its own.
pub proof fn store_failures_are_reported(report: Seq<char>)
    ensures
        unreachable_store(report).kind is KeyUnavailable,
        unreachable_store(report).message == "無法初始化作業系統金鑰儲存區："@ + report,
        unreadable_key(report).kind is KeyUnavailable,
        unreadable_key(report).message == "無法讀取作業系統 KEK："@ + report,
        unstored_key(report).kind is KeyUnavailable,
        unstored_key(report).message == "無法保存作業系統 KEK："@ + report,
        not_a_key().kind is Internal,
{
}

} // verus!
