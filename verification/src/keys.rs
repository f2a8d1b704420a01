//! The key hierarchy: a device key, kept by the operating system, wraps the key of each video.

use vstd::prelude::*;
use vstd::string::*;
use vstd::utf8::*;

use crate::cipher::{
    authentication_failure, decrypt_with_key, encrypt_with_key, encryptable, encryption_failure,
    opened, sealed, NONCE_SIZE,
};
use crate::error::{fault, seen, CryptoError, CryptoErrorKind, CryptoErrorView};
use crate::octets::to_array;
use crate::random::{is_draw_failure, is_drawn, random_bytes};
use crate::secret::SecretKey;
use crate::text::{
    decimal, decimal_is_digits, decimal_string, encode_concat, encoding_is_injective,
};

verus! {

/// The version of the file format.
pub const FORMAT_VERSION: u8 = 1;

/// The name of the device key.
pub const KEYRING_USER: &'static str = "device-kek-v1";

/// The length of a key, in bytes.
pub const KEY_SIZE: usize = 32;

/// The length of a wrapped key, in bytes.
pub const WRAPPED_KEY_SIZE: usize = 48;

/// The text that binds a wrapped key to its video and to the device key.
pub open spec fn wrap_label(asset_id: Seq<char>, key_id: Seq<char>) -> Seq<char> {
    "my-tauri-app:wrap:v"@ + decimal(FORMAT_VERSION as nat) + ":"@ + asset_id + ":"@ + key_id
}

/// The text that binds an encrypted chunk to its video and to its place in it.
pub open spec fn chunk_label(asset_id: Seq<char>, chunk_index: nat) -> Seq<char> {
    "my-tauri-app:chunk:v"@ + decimal(FORMAT_VERSION as nat) + ":"@ + asset_id + ":"@ + decimal(
        chunk_index,
    )
}

/// The associated data of a wrapped key.
pub open spec fn wrap_context(asset_id: Seq<char>, key_id: Seq<char>) -> Seq<u8> {
    encode_utf8(wrap_label(asset_id, key_id))
}

/// The associated data of an encrypted chunk.
pub open spec fn chunk_context(asset_id: Seq<char>, chunk_index: nat) -> Seq<u8> {
    encode_utf8(chunk_label(asset_id, chunk_index))
}

/// The associated data of a wrapped key.
pub fn wrap_aad(asset_id: &str, key_id: &str) -> (aad: Vec<u8>)
    ensures
        aad@ == wrap_context(asset_id@, key_id@),
{
    let mut label = String::from_str("my-tauri-app:wrap:v");
    label.append(decimal_string(FORMAT_VERSION as u64).as_str());
    label.append(":");
    label.append(asset_id);
    label.append(":");
    label.append(key_id);
    label.as_str().as_bytes_vec()
}

/// The associated data of an encrypted chunk.
pub fn chunk_aad(asset_id: &str, chunk_index: u64) -> (aad: Vec<u8>)
    ensures
        aad@ == chunk_context(asset_id@, chunk_index as nat),
{
    let mut label = String::from_str("my-tauri-app:chunk:v");
    label.append(decimal_string(FORMAT_VERSION as u64).as_str());
    label.append(":");
    label.append(asset_id);
    label.append(":");
    label.append(decimal_string(chunk_index).as_str());
    label.as_str().as_bytes_vec()
}

/// Two texts that end in a separator and a tail without it are equal only part by part.
pub proof fn last_separator_splits(
    head1: Seq<char>,
    tail1: Seq<char>,
    head2: Seq<char>,
    tail2: Seq<char>,
    separator: char,
)
    requires
        head1 + seq![separator] + tail1 == head2 + seq![separator] + tail2,
        forall|i: int| 0 <= i < tail1.len() ==> #[trigger] tail1[i] != separator,
        forall|i: int| 0 <= i < tail2.len() ==> #[trigger] tail2[i] != separator,
    ensures
        head1 == head2,
        tail1 == tail2,
{
    let whole1 = head1 + seq![separator] + tail1;
    let whole2 = head2 + seq![separator] + tail2;
    assert(whole1.len() == head1.len() + 1 + tail1.len());
    assert(whole2.len() == head2.len() + 1 + tail2.len());
    if head1.len() < head2.len() {
        assert(whole2[head2.len() as int] == separator);
        assert(whole1[head2.len() as int] == tail1[head2.len() - head1.len() - 1]);
    }
    if head2.len() < head1.len() {
        assert(whole1[head1.len() as int] == separator);
        assert(whole2[head1.len() as int] == tail2[head1.len() - head2.len() - 1]);
    }
    assert(head1 =~= whole1.take(head1.len() as int));
    assert(head2 =~= whole2.take(head2.len() as int));
    assert(tail1 =~= whole1.skip(head1.len() as int + 1));
    assert(tail2 =~= whole2.skip(head2.len() as int + 1));
}

/// The associated data of a chunk names one video and one place in it: no two chunks, of one
/// video or of two, share it.
pub proof fn chunk_context_is_unique(
    asset1: Seq<char>,
    index1: nat,
    asset2: Seq<char>,
    index2: nat,
)
    requires
        chunk_context(asset1, index1) == chunk_context(asset2, index2),
    ensures
        asset1 == asset2,
        index1 == index2,
{
    encoding_is_injective(chunk_label(asset1, index1), chunk_label(asset2, index2));
    reveal_strlit(":");
    let prefix = "my-tauri-app:chunk:v"@ + decimal(FORMAT_VERSION as nat) + ":"@;
    decimal_is_digits(index1);
    decimal_is_digits(index2);
    assert(":"@ =~= seq![':']);
    last_separator_splits(
        prefix + asset1,
        decimal(index1),
        prefix + asset2,
        decimal(index2),
        ':',
    );
    assert(asset1 =~= (prefix + asset1).skip(prefix.len() as int));
    assert(asset2 =~= (prefix + asset2).skip(prefix.len() as int));
}

/// The associated data of a chunk is never that of a wrapped key.
pub proof fn contexts_are_separate(
    asset1: Seq<char>,
    index: nat,
    asset2: Seq<char>,
    key_id: Seq<char>,
)
    ensures
        chunk_context(asset1, index) != wrap_context(asset2, key_id),
{
    if chunk_context(asset1, index) == wrap_context(asset2, key_id) {
        encoding_is_injective(chunk_label(asset1, index), wrap_label(asset2, key_id));
        reveal_strlit("my-tauri-app:chunk:v");
        reveal_strlit("my-tauri-app:wrap:v");
        assert(chunk_label(asset1, index)[13] == 'c');
        assert(wrap_label(asset2, key_id)[13] == 'w');
    }
}

/// The associated data of a wrapped key names one video and one device key, among the videos
/// whose names hold no colon.
pub proof fn wrap_context_is_unique(
    asset1: Seq<char>,
    key1: Seq<char>,
    asset2: Seq<char>,
    key2: Seq<char>,
)
    requires
        wrap_context(asset1, key1) == wrap_context(asset2, key2),
        !asset1.contains(':'),
        !asset2.contains(':'),
    ensures
        asset1 == asset2,
        key1 == key2,
{
    encoding_is_injective(wrap_label(asset1, key1), wrap_label(asset2, key2));
    reveal_strlit(":");
    let prefix = "my-tauri-app:wrap:v"@ + decimal(FORMAT_VERSION as nat) + ":"@;
    let n = prefix.len() as int;
    let whole1 = wrap_label(asset1, key1);
    let whole2 = wrap_label(asset2, key2);
    assert(whole1[n + asset1.len()] == ':');
    assert(whole2[n + asset2.len()] == ':');
    if asset1.len() < asset2.len() {
        assert(whole2[n + asset1.len()] == asset2[asset1.len() as int]);
    }
    if asset2.len() < asset1.len() {
        assert(whole1[n + asset2.len()] == asset1[asset2.len() as int]);
    }
    assert(asset1 =~= whole1.subrange(n, n + asset1.len()));
    assert(asset2 =~= whole2.subrange(n, n + asset2.len()));
    assert(key1 =~= whole1.skip(n + asset1.len() + 1));
    assert(key2 =~= whole2.skip(n + asset2.len() + 1));
}

proof fn decimal_is_short(n: nat, width: nat)
    requires
        n < pow10(width),
        width > 0,
    ensures
        decimal(n).len() <= width,
    decreases width,
{
    if n >= 10 {
        assert(width > 1) by {
            if width == 1 {
                assert(pow10(0) == 1);
                assert(pow10(1) == 10);
            }
        }
        decimal_is_short(n / 10, (width - 1) as nat);
    }
}

spec fn pow10(n: nat) -> nat
    decreases n,
{
    if n == 0 {
        1
    } else {
        10 * pow10((n - 1) as nat)
    }
}

/// The associated data of a chunk is short, if the name of its video is.
pub proof fn chunk_context_is_short(asset_id: Seq<char>, chunk_index: u64)
    ensures
        chunk_context(asset_id, chunk_index as nat).len() <= encode_utf8(asset_id).len() + 43,
{
    let prefix = "my-tauri-app:chunk:v"@;
    let version = decimal(FORMAT_VERSION as nat);
    let number = decimal(chunk_index as nat);
    reveal_strlit("my-tauri-app:chunk:v");
    reveal_strlit(":");
    decimal_is_digits(FORMAT_VERSION as nat);
    decimal_is_digits(chunk_index as nat);
    reveal_with_fuel(pow10, 21);
    decimal_is_short(FORMAT_VERSION as nat, 1);
    decimal_is_short(chunk_index as nat, 20);
    encode_concat(prefix + version + ":"@ + asset_id + ":"@, number);
    encode_concat(prefix + version + ":"@ + asset_id, ":"@);
    encode_concat(prefix + version + ":"@, asset_id);
    is_ascii_chars_encode_utf8(prefix + version + ":"@);
    is_ascii_chars_encode_utf8(":"@);
    is_ascii_chars_encode_utf8(number);
}

/// Draws the nonce for the chunk at a place in a video. The place does not change what is drawn:
/// it says which chunk the nonce is for.
pub fn chunk_nonce(chunk_index: u64) -> (outcome: Result<[u8; NONCE_SIZE], CryptoError>)
    ensures
        match outcome {
            Ok(nonce) => is_drawn(nonce),
            Err(error) => is_draw_failure::<NONCE_SIZE>(error@),
        },
{
    random_bytes::<NONCE_SIZE>()
}

/// Whether a nonce is one that was drawn for the chunk at this place.
pub open spec fn is_drawn_for(nonce: [u8; NONCE_SIZE], chunk_index: u64) -> bool {
    call_ensures(chunk_nonce, (chunk_index,), Ok(nonce))
}

/// A nonce that was drawn for a chunk is one that the operating system gave.
pub proof fn chunk_nonces_are_random(nonce: [u8; NONCE_SIZE], chunk_index: u64)
    requires
        is_drawn_for(nonce, chunk_index),
    ensures
        is_drawn(nonce),
{
}

/// Encrypts the key of a video under the device key, with the given nonce.
pub fn wrap_dek_with_nonce(
    kek: &[u8; 32],
    nonce: &[u8; NONCE_SIZE],
    dek: &[u8; 32],
    asset_id: &str,
    key_id: &str,
) -> (outcome: Result<Vec<u8>, CryptoError>)
    ensures
        ({
            let context = wrap_context(asset_id@, key_id@);
            match outcome {
                Ok(wrapped) => {
                    &&& encryptable(dek@, context)
                    &&& wrapped@ == sealed(kek@, nonce@, dek@, context)
                    &&& wrapped@.len() == WRAPPED_KEY_SIZE
                    &&& opened(kek@, nonce@, wrapped@, context) == Some(dek@)
                },
                Err(error) => !encryptable(dek@, context) && error@ == encryption_failure(),
            }
        }),
{
    encrypt_with_key(kek, nonce, dek, wrap_aad(asset_id, key_id).as_slice())
}

/// Encrypts the key of a video under the device key, with a fresh nonce.
pub fn wrap_dek_with_key(
    kek: &[u8; 32],
    dek: &[u8; 32],
    asset_id: &str,
    key_id: &str,
) -> (outcome: Result<([u8; NONCE_SIZE], Vec<u8>), CryptoError>)
    ensures
        match outcome {
            Ok((nonce, wrapped)) => {
                let context = wrap_context(asset_id@, key_id@);
                &&& encryptable(dek@, context)
                &&& wrapped@ == sealed(kek@, nonce@, dek@, context)
                &&& wrapped@.len() == WRAPPED_KEY_SIZE
                &&& opened(kek@, nonce@, wrapped@, context) == Some(dek@)
                &&& is_drawn(nonce)
            },
            Err(error) => {
                ||| is_draw_failure::<NONCE_SIZE>(error@)
                ||| {
                    &&& !encryptable(dek@, wrap_context(asset_id@, key_id@))
                    &&& error@ == encryption_failure()
                }
            },
        },
{
    match random_bytes::<NONCE_SIZE>() {
        Ok(nonce) => {
            match wrap_dek_with_nonce(kek, &nonce, dek, asset_id, key_id) {
                Ok(wrapped) => Ok((nonce, wrapped)),
                Err(error) => Err(error),
            }
        },
        Err(error) => Err(error),
    }
}

/// What unwrapping a key gives: the key, or why there is none.
pub open spec fn unwrapped(
    kek: Seq<u8>,
    nonce: Seq<u8>,
    wrapped: Seq<u8>,
    asset_id: Seq<char>,
    key_id: Seq<char>,
) -> Result<Seq<u8>, CryptoErrorView> {
    match opened(kek, nonce, wrapped, wrap_context(asset_id, key_id)) {
        None => Err(authentication_failure()),
        Some(dek) => if dek.len() == KEY_SIZE {
            Ok(dek)
        } else {
            Err(fault(CryptoErrorKind::InvalidFormat, "wrapped DEK 長度不正確"@))
        },
    }
}

/// Decrypts the key of a video with the device key.
pub fn unwrap_dek_with_key(
    kek: &[u8; 32],
    nonce: &[u8; NONCE_SIZE],
    wrapped: &[u8],
    asset_id: &str,
    key_id: &str,
) -> (outcome: Result<SecretKey, CryptoError>)
    ensures
        seen(outcome) == unwrapped(kek@, nonce@, wrapped@, asset_id@, key_id@),
{
    match decrypt_with_key(kek, nonce, wrapped, wrap_aad(asset_id, key_id).as_slice()) {
        Ok(dek) => {
            if dek.len() == KEY_SIZE {
                Ok(SecretKey::new(to_array::<32>(dek.as_slice())))
            } else {
                Err(
                    CryptoError::with_kind(
                        CryptoErrorKind::InvalidFormat,
                        "wrapped DEK 長度不正確",
                    ),
                )
            }
        },
        Err(error) => Err(error),
    }
}

/// The texts that bind what is encrypted to its place, letter by letter.
pub proof fn labels_are_spelled_out(asset_id: Seq<char>, key_id: Seq<char>, chunk_index: nat)
    ensures
        wrap_label(asset_id, key_id) == "my-tauri-app:wrap:v1:"@ + asset_id + ":"@ + key_id,
        chunk_label(asset_id, chunk_index) == "my-tauri-app:chunk:v1:"@ + asset_id + ":"@ + decimal(
            chunk_index,
        ),
        wrap_context(asset_id, key_id) == encode_utf8(wrap_label(asset_id, key_id)),
        chunk_context(asset_id, chunk_index) == encode_utf8(chunk_label(asset_id, chunk_index)),
{
    reveal_strlit("my-tauri-app:wrap:v1:");
    reveal_strlit("my-tauri-app:wrap:v");
    reveal_strlit("my-tauri-app:chunk:v1:");
    reveal_strlit("my-tauri-app:chunk:v");
    reveal_strlit(":");
    assert(decimal(1) =~= seq!['1']);
    assert("my-tauri-app:wrap:v"@ + decimal(1) + ":"@ =~= "my-tauri-app:wrap:v1:"@);
    assert("my-tauri-app:chunk:v"@ + decimal(1) + ":"@ =~= "my-tauri-app:chunk:v1:"@);
}

/// A key is unwrapped exactly where the device key, the video and the name of the device key are
/// the ones that it was wrapped for, and what comes out is a key of 32 bytes.
pub proof fn unwrapping_gives_what_was_wrapped(
    kek: Seq<u8>,
    nonce: Seq<u8>,
    wrapped: Seq<u8>,
    asset_id: Seq<char>,
    key_id: Seq<char>,
)
    ensures
        ({
            let context = encode_utf8("my-tauri-app:wrap:v1:"@ + asset_id + ":"@ + key_id);
            let outcome = unwrapped(kek, nonce, wrapped, asset_id, key_id);
            match opened(kek, nonce, wrapped, context) {
                Some(dek) => {
                    &&& dek.len() == 32 ==> outcome == Ok::<Seq<u8>, CryptoErrorView>(dek)
                    &&& dek.len() != 32 ==> (outcome matches Err(error)
                        && error.kind is InvalidFormat)
                },
                None => outcome matches Err(error) && error.kind is Corrupt,
            }
        }),
{
    labels_are_spelled_out(asset_id, key_id, 0);
}

} // verus!
