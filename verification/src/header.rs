//! The header of an encrypted video file.
//!
//! | bytes   | field                                              |
//! |---------|----------------------------------------------------|
//! | 0..8    | the magic bytes `MYENCMP4`                         |
//! | 8       | the format version                                 |
//! | 9..13   | the chunk size                                     |
//! | 13..21  | the size of the video                              |
//! | 21..23  | the length of the video's name                     |
//! | 23..25  | the length of the device key's name                |
//! | 25..37  | the nonce under which the video's key was wrapped  |
//! | 37..41  | the length of the wrapped key                      |
//! | 41..    | the two names and the wrapped key                  |
//!
//! All integers are little-endian.

use vstd::prelude::*;
use vstd::slice::*;
use vstd::string::*;
use vstd::utf8::*;

use crate::cipher::NONCE_SIZE;
use crate::error::{fault, internal, seen, CryptoError, CryptoErrorKind, CryptoErrorView};
use crate::keys::{FORMAT_VERSION, WRAPPED_KEY_SIZE};
use crate::little_endian::{
    append_le, le_bytes, le_bytes_len, le_bytes_of_le_value, le_range_of_integers, le_value,
    le_value_of_le_bytes, read_le,
};
use crate::octets::{same_bytes, to_array};
use crate::text::same_text;

verus! {

/// The size of a chunk of the video, in bytes.
pub const CHUNK_SIZE: u64 = 1024 * 1024;

/// The size of the part of the header that comes before the fields of variable length.
pub const PREFIX_SIZE: usize = 41;

/// Where the size of the video stands in the header.
pub const SIZE_OFFSET: usize = 13;

/// The longest name of a video that is read, in bytes.
pub const ASSET_ID_LIMIT: usize = 1024;

/// The longest name of a device key that is read, in bytes.
pub const KEY_ID_LIMIT: usize = 256;

/// The longest wrapped key that is read, in bytes.
pub const WRAPPED_LIMIT: usize = 4096;

/// What a header says.
pub struct Header {
    /// The name of the video.
    pub asset_id: String,
    /// The name of the device key that wraps the video's key.
    pub key_id: String,
    /// The size of a chunk.
    pub chunk_size: u64,
    /// The size of the video.
    pub original_size: u64,
    /// The size of the header itself: where the first chunk starts.
    pub header_size: u64,
    /// The nonce under which the video's key was wrapped.
    pub wrap_nonce: [u8; NONCE_SIZE],
    /// The video's key, encrypted under the device key.
    pub wrapped_dek: Vec<u8>,
}

/// A `Header` with its texts and byte sequences as sequences.
#[verifier::ext_equal]
pub struct HeaderView {
    pub asset_id: Seq<char>,
    pub key_id: Seq<char>,
    pub chunk_size: u64,
    pub original_size: u64,
    pub header_size: u64,
    pub wrap_nonce: Seq<u8>,
    pub wrapped_dek: Seq<u8>,
}

impl View for Header {
    type V = HeaderView;

    open spec fn view(&self) -> HeaderView {
        HeaderView {
            asset_id: self.asset_id@,
            key_id: self.key_id@,
            chunk_size: self.chunk_size,
            original_size: self.original_size,
            header_size: self.header_size,
            wrap_nonce: self.wrap_nonce@,
            wrapped_dek: self.wrapped_dek@,
        }
    }
}

/// The bytes that a file of this format starts with.
pub open spec fn magic() -> Seq<u8> {
    seq![77u8, 89, 69, 78, 67, 77, 80, 52]
}

/// The part of a header before the size of the video.
pub open spec fn bytes_before_size(header: HeaderView) -> Seq<u8> {
    magic() + seq![FORMAT_VERSION] + le_bytes(header.chunk_size as nat, 4)
}

/// The part of a header after the size of the video.
pub open spec fn bytes_after_size(header: HeaderView) -> Seq<u8> {
    let asset_id = encode_utf8(header.asset_id);
    let key_id = encode_utf8(header.key_id);
    le_bytes(asset_id.len(), 2) + le_bytes(key_id.len(), 2) + header.wrap_nonce + le_bytes(
        header.wrapped_dek.len(),
        4,
    ) + asset_id + key_id + header.wrapped_dek
}

/// The bytes of a header.
pub open spec fn header_bytes(header: HeaderView) -> Seq<u8> {
    bytes_before_size(header) + le_bytes(header.original_size as nat, 8) + bytes_after_size(header)
}

/// What encoding a header gives: its bytes, or which field is too long.
pub open spec fn encoded(header: HeaderView) -> Result<Seq<u8>, CryptoErrorView> {
    if encode_utf8(header.asset_id).len() > u16::MAX || encode_utf8(header.key_id).len()
        > u16::MAX {
        Err(internal("asset_id 或 key_id 太長"@))
    } else if header.wrapped_dek.len() > u32::MAX {
        Err(internal("wrapped DEK 太長"@))
    } else {
        Ok(header_bytes(header))
    }
}

/// The error for a file that is not of this format.
pub open spec fn invalid(message: Seq<char>) -> CryptoErrorView {
    fault(CryptoErrorKind::InvalidFormat, message)
}

/// What reading a header gives, once the fields of fixed size are known to be acceptable.
pub open spec fn read_names(
    file: Seq<u8>,
    shortage: Seq<char>,
    expected_asset_id: Seq<char>,
) -> Result<HeaderView, CryptoErrorView> {
    let asset_end = PREFIX_SIZE + le_value(file.subrange(21, 23));
    let key_end = asset_end + le_value(file.subrange(23, 25));
    let header_end = key_end + le_value(file.subrange(37, 41));
    let asset_id = file.subrange(PREFIX_SIZE as int, asset_end as int);
    let key_id = file.subrange(asset_end as int, key_end as int);
    let wrapped_dek = file.subrange(key_end as int, header_end as int);
    if file.len() < header_end {
        Err(internal("加密影片檔頭不完整："@ + shortage))
    } else if !valid_utf8(asset_id) {
        Err(invalid("加密影片 asset_id 不是有效 UTF-8"@))
    } else if !valid_utf8(key_id) {
        Err(invalid("加密影片 key_id 不是有效 UTF-8"@))
    } else if decode_utf8(asset_id) != expected_asset_id {
        Err(invalid("影片識別碼與加密檔案不一致"@))
    } else if wrapped_dek.len() != WRAPPED_KEY_SIZE {
        Err(invalid("wrapped DEK 長度不正確"@))
    } else {
        Ok(
            HeaderView {
                asset_id: decode_utf8(asset_id),
                key_id: decode_utf8(key_id),
                chunk_size: le_value(file.subrange(9, 13)) as u64,
                original_size: le_value(file.subrange(13, 21)) as u64,
                header_size: header_end as u64,
                wrap_nonce: file.subrange(25, 37),
                wrapped_dek,
            },
        )
    }
}

/// What reading a header gives. `file` is what could be read of the file, from its start, and
/// `shortage` says why there is no more.
pub open spec fn read_header(
    file: Seq<u8>,
    shortage: Seq<char>,
    expected_asset_id: Seq<char>,
) -> Result<HeaderView, CryptoErrorView> {
    if file.len() < PREFIX_SIZE {
        Err(internal("加密檔案檔頭不完整："@ + shortage))
    } else if file.take(8) != magic() {
        Err(invalid("不是支援的加密影片格式"@))
    } else if file[8] != FORMAT_VERSION {
        Err(invalid("不支援的加密影片版本"@))
    } else if le_value(file.subrange(9, 13)) != CHUNK_SIZE || le_value(file.subrange(21, 23))
        > ASSET_ID_LIMIT || le_value(file.subrange(23, 25)) > KEY_ID_LIMIT || le_value(
        file.subrange(37, 41),
    ) > WRAPPED_LIMIT {
        Err(invalid("加密影片檔頭欄位不合法"@))
    } else {
        read_names(file, shortage, expected_asset_id)
    }
}

impl Header {
    /// Encodes a header. Its size is not part of it.
    pub fn encode(&self) -> (outcome: Result<Vec<u8>, CryptoError>)
        ensures
            seen(outcome) == encoded(self@),
    {
        let asset_id = self.asset_id.as_str().as_bytes();
        let key_id = self.key_id.as_str().as_bytes();
        if asset_id.len() > 65535 || key_id.len() > 65535 {
            return Err(CryptoError::new("asset_id 或 key_id 太長"));
        }
        if self.wrapped_dek.len() > 0xffff_ffff {
            return Err(CryptoError::new("wrapped DEK 太長"));
        }
        let mut bytes: Vec<u8> = vec![77u8, 89, 69, 78, 67, 77, 80, 52, FORMAT_VERSION];
        assert(bytes@ =~= magic() + seq![FORMAT_VERSION]);
        append_le(&mut bytes, self.chunk_size, 4);
        append_le(&mut bytes, self.original_size, 8);
        append_le(&mut bytes, asset_id.len() as u64, 2);
        append_le(&mut bytes, key_id.len() as u64, 2);
        bytes.extend_from_slice(&self.wrap_nonce);
        append_le(&mut bytes, self.wrapped_dek.len() as u64, 4);
        bytes.extend_from_slice(asset_id);
        bytes.extend_from_slice(key_id);
        bytes.extend_from_slice(self.wrapped_dek.as_slice());
        assert(bytes@ =~= header_bytes(self@));
        Ok(bytes)
    }

    /// Reads a header, for the video that is expected. `file` is what could be read of the
    /// file, from its start, and `shortage` says why there is no more.
    pub fn read_from(file: &[u8], shortage: &str, expected_asset_id: &str) -> (outcome: Result<
        Self,
        CryptoError,
    >)
        ensures
            seen(outcome) == read_header(file@, shortage@, expected_asset_id@),
    {
        if file.len() < PREFIX_SIZE {
            return Err(
                CryptoError::reported(
                    CryptoErrorKind::Internal,
                    "加密檔案檔頭不完整：",
                    shortage,
                ),
            );
        }
        let magic_bytes: Vec<u8> = vec![77u8, 89, 69, 78, 67, 77, 80, 52];
        assert(magic_bytes@ =~= magic());
        assert(file@.subrange(0, 8) =~= file@.take(8));
        if !same_bytes(&file[0..8], magic_bytes.as_slice()) {
            return Err(
                CryptoError::with_kind(
                    CryptoErrorKind::InvalidFormat,
                    "不是支援的加密影片格式",
                ),
            );
        }
        if file[8] != FORMAT_VERSION {
            return Err(
                CryptoError::with_kind(
                    CryptoErrorKind::InvalidFormat,
                    "不支援的加密影片版本",
                ),
            );
        }
        let chunk_size = read_le(&file[9..13]);
        let original_size = read_le(&file[13..21]);
        let asset_len = read_le(&file[21..23]);
        let key_len = read_le(&file[23..25]);
        let wrap_nonce: [u8; NONCE_SIZE] = to_array::<NONCE_SIZE>(&file[25..37]);
        let wrapped_len = read_le(&file[37..41]);
        if chunk_size != CHUNK_SIZE || asset_len > ASSET_ID_LIMIT as u64 || key_len
            > KEY_ID_LIMIT as u64 || wrapped_len > WRAPPED_LIMIT as u64 {
            return Err(
                CryptoError::with_kind(
                    CryptoErrorKind::InvalidFormat,
                    "加密影片檔頭欄位不合法",
                ),
            );
        }
        let asset_end: usize = PREFIX_SIZE + asset_len as usize;
        let key_end: usize = asset_end + key_len as usize;
        let header_end: usize = key_end + wrapped_len as usize;
        if file.len() < header_end {
            return Err(
                CryptoError::reported(
                    CryptoErrorKind::Internal,
                    "加密影片檔頭不完整：",
                    shortage,
                ),
            );
        }
        let asset_id = match String::from_utf8(slice_to_vec(&file[PREFIX_SIZE..asset_end])) {
            Ok(text) => text,
            Err(_) => {
                return Err(
                    CryptoError::with_kind(
                        CryptoErrorKind::InvalidFormat,
                        "加密影片 asset_id 不是有效 UTF-8",
                    ),
                );
            },
        };
        let key_id = match String::from_utf8(slice_to_vec(&file[asset_end..key_end])) {
            Ok(text) => text,
            Err(_) => {
                return Err(
                    CryptoError::with_kind(
                        CryptoErrorKind::InvalidFormat,
                        "加密影片 key_id 不是有效 UTF-8",
                    ),
                );
            },
        };
        if !same_text(asset_id.as_str(), expected_asset_id) {
            return Err(
                CryptoError::with_kind(
                    CryptoErrorKind::InvalidFormat,
                    "影片識別碼與加密檔案不一致",
                ),
            );
        }
        let wrapped_dek = slice_to_vec(&file[key_end..header_end]);
        if wrapped_dek.len() != WRAPPED_KEY_SIZE {
            return Err(
                CryptoError::with_kind(
                    CryptoErrorKind::InvalidFormat,
                    "wrapped DEK 長度不正確",
                ),
            );
        }
        Ok(
            Header {
                asset_id,
                key_id,
                chunk_size,
                original_size,
                header_size: header_end as u64,
                wrap_nonce,
                wrapped_dek,
            },
        )
    }
}

/// The lengths of the parts of a header.
proof fn header_parts(header: HeaderView)
    requires
        header.wrap_nonce.len() == NONCE_SIZE,
    ensures
        bytes_before_size(header).len() == SIZE_OFFSET,
        header_bytes(header).len() == PREFIX_SIZE + encode_utf8(header.asset_id).len()
            + encode_utf8(header.key_id).len() + header.wrapped_dek.len(),
        header_bytes(header).take(8) == magic(),
        header_bytes(header)[8] == FORMAT_VERSION,
        header_bytes(header).subrange(9, 13) == le_bytes(header.chunk_size as nat, 4),
        header_bytes(header).subrange(13, 21) == le_bytes(header.original_size as nat, 8),
        header_bytes(header).subrange(21, 23) == le_bytes(encode_utf8(header.asset_id).len(), 2),
        header_bytes(header).subrange(23, 25) == le_bytes(encode_utf8(header.key_id).len(), 2),
        header_bytes(header).subrange(25, 37) == header.wrap_nonce,
        header_bytes(header).subrange(37, 41) == le_bytes(header.wrapped_dek.len(), 4),
        header_bytes(header).skip(41) == encode_utf8(header.asset_id) + encode_utf8(header.key_id)
            + header.wrapped_dek,
{
    let bytes = header_bytes(header);
    let asset_id = encode_utf8(header.asset_id);
    let key_id = encode_utf8(header.key_id);
    le_bytes_len(header.chunk_size as nat, 4);
    le_bytes_len(header.original_size as nat, 8);
    le_bytes_len(asset_id.len(), 2);
    le_bytes_len(key_id.len(), 2);
    le_bytes_len(header.wrapped_dek.len(), 4);
    assert(bytes.take(8) =~= magic());
    assert(bytes.subrange(9, 13) =~= le_bytes(header.chunk_size as nat, 4));
    assert(bytes.subrange(13, 21) =~= le_bytes(header.original_size as nat, 8));
    assert(bytes.subrange(21, 23) =~= le_bytes(asset_id.len(), 2));
    assert(bytes.subrange(23, 25) =~= le_bytes(key_id.len(), 2));
    assert(bytes.subrange(25, 37) =~= header.wrap_nonce);
    assert(bytes.subrange(37, 41) =~= le_bytes(header.wrapped_dek.len(), 4));
    assert(bytes.skip(41) =~= asset_id + key_id + header.wrapped_dek);
}

/// Whether a header is one that reading accepts.
pub open spec fn readable(header: HeaderView) -> bool {
    &&& header.chunk_size == CHUNK_SIZE
    &&& header.wrap_nonce.len() == NONCE_SIZE
    &&& header.wrapped_dek.len() == WRAPPED_KEY_SIZE
    &&& encode_utf8(header.asset_id).len() <= ASSET_ID_LIMIT
    &&& encode_utf8(header.key_id).len() <= KEY_ID_LIMIT
}

/// A header reads back as it was encoded, whatever follows it in the file, and knows its size.
pub proof fn header_reads_back(header: HeaderView, rest: Seq<u8>, shortage: Seq<char>)
    requires
        readable(header),
    ensures
        read_header(header_bytes(header) + rest, shortage, header.asset_id) == Ok::<
            HeaderView,
            CryptoErrorView,
        >(HeaderView { header_size: header_bytes(header).len() as u64, ..header }),
{
    let bytes = header_bytes(header);
    let file = bytes + rest;
    let asset_id = encode_utf8(header.asset_id);
    let key_id = encode_utf8(header.key_id);
    header_parts(header);
    le_range_of_integers();
    le_value_of_le_bytes(header.chunk_size as nat, 4);
    le_value_of_le_bytes(header.original_size as nat, 8);
    le_value_of_le_bytes(asset_id.len(), 2);
    le_value_of_le_bytes(key_id.len(), 2);
    le_value_of_le_bytes(header.wrapped_dek.len(), 4);
    assert(file.take(8) =~= bytes.take(8));
    assert(file.subrange(9, 13) =~= bytes.subrange(9, 13));
    assert(file.subrange(13, 21) =~= bytes.subrange(13, 21));
    assert(file.subrange(21, 23) =~= bytes.subrange(21, 23));
    assert(file.subrange(23, 25) =~= bytes.subrange(23, 25));
    assert(file.subrange(25, 37) =~= bytes.subrange(25, 37));
    assert(file.subrange(37, 41) =~= bytes.subrange(37, 41));
    let names = bytes.skip(41);
    let asset_end = 41 + asset_id.len() as int;
    let key_end = asset_end + key_id.len();
    let header_end = key_end + header.wrapped_dek.len();
    assert(file.subrange(41, asset_end) =~= names.subrange(0, asset_id.len() as int));
    assert(file.subrange(41, asset_end) =~= asset_id);
    assert(file.subrange(asset_end, key_end) =~= names.subrange(asset_end - 41, key_end - 41));
    assert(file.subrange(asset_end, key_end) =~= key_id);
    assert(file.subrange(key_end, header_end) =~= names.subrange(key_end - 41, header_end - 41));
    assert(file.subrange(key_end, header_end) =~= header.wrapped_dek);
    encode_utf8_valid_utf8(header.asset_id);
    encode_utf8_valid_utf8(header.key_id);
    encode_utf8_decode_utf8(header.asset_id);
    encode_utf8_decode_utf8(header.key_id);
}

/// A file whose header could be read starts with the encoding of what was read.
pub proof fn header_is_canonical(
    file: Seq<u8>,
    shortage: Seq<char>,
    asset_id: Seq<char>,
    header: HeaderView,
)
    requires
        read_header(file, shortage, asset_id) == Ok::<HeaderView, CryptoErrorView>(header),
    ensures
        readable(header),
        header.asset_id == asset_id,
        header.header_size <= file.len(),
        header_bytes(header) == file.take(header.header_size as int),
{
    le_range_of_integers();
    le_bytes_of_le_value(file.subrange(9, 13));
    le_bytes_of_le_value(file.subrange(13, 21));
    le_bytes_of_le_value(file.subrange(21, 23));
    le_bytes_of_le_value(file.subrange(23, 25));
    le_bytes_of_le_value(file.subrange(37, 41));
    let asset_end = PREFIX_SIZE + le_value(file.subrange(21, 23));
    let key_end = asset_end + le_value(file.subrange(23, 25));
    let header_end = key_end + le_value(file.subrange(37, 41));
    let asset_bytes = file.subrange(PREFIX_SIZE as int, asset_end as int);
    let key_bytes = file.subrange(asset_end as int, key_end as int);
    decode_utf8_encode_utf8(asset_bytes);
    decode_utf8_encode_utf8(key_bytes);
    header_parts(header);
    let bytes = header_bytes(header);
    assert(bytes.len() == header_end);
    assert(bytes =~= bytes.take(8) + seq![bytes[8]] + bytes.subrange(9, 13) + bytes.subrange(13, 21)
        + bytes.subrange(21, 23) + bytes.subrange(23, 25) + bytes.subrange(25, 37)
        + bytes.subrange(37, 41) + bytes.skip(41));
    let head = file.take(header_end as int);
    assert(head =~= file.take(8) + seq![file[8]] + file.subrange(9, 13) + file.subrange(13, 21)
        + file.subrange(21, 23) + file.subrange(23, 25) + file.subrange(25, 37) + file.subrange(
        37,
        41,
    ) + (asset_bytes + key_bytes + file.subrange(key_end as int, header_end as int)));
}

/// A file is refused for any video but the one that its header names.
pub proof fn other_videos_are_refused(
    file: Seq<u8>,
    shortage: Seq<char>,
    asset_id: Seq<char>,
    other: Seq<char>,
)
    requires
        read_header(file, shortage, asset_id) is Ok,
        other != asset_id,
    ensures
        read_header(file, shortage, other) == Err::<HeaderView, CryptoErrorView>(
            invalid("影片識別碼與加密檔案不一致"@),
        ),
{
}

/// A file with the size of the video filled in.
pub open spec fn with_size(file: Seq<u8>, size: u64) -> Seq<u8> {
    file.take(SIZE_OFFSET as int) + le_bytes(size as nat, 8) + file.skip(SIZE_OFFSET + 8)
}

/// Filling in the size of the video gives the header that says this size, and leaves the rest
/// of the file alone.
pub proof fn size_can_be_filled_in(header: HeaderView, rest: Seq<u8>, size: u64)
    requires
        header.wrap_nonce.len() == NONCE_SIZE,
    ensures
        with_size(header_bytes(header) + rest, size) == header_bytes(
            HeaderView { original_size: size, ..header },
        ) + rest,
{
    let new = HeaderView { original_size: size, ..header };
    header_parts(header);
    le_bytes_len(header.original_size as nat, 8);
    le_bytes_len(size as nat, 8);
    assert(with_size(header_bytes(header) + rest, size) =~= header_bytes(new) + rest);
}

/// Where everything stands in a header: what it starts with, the integers with their lowest byte
/// first, and the names and the wrapped key at its end.
pub proof fn fields_stand_at_their_places(header: HeaderView)
    requires
        header.wrap_nonce.len() == 12,
    ensures
        ({
            let bytes = header_bytes(header);
            let names_end = 41 + encode_utf8(header.asset_id).len();
            let keys_end = names_end + encode_utf8(header.key_id).len();
            &&& bytes.len() == keys_end + header.wrapped_dek.len()
            &&& bytes[0] == 0x4d && bytes[1] == 0x59 && bytes[2] == 0x45 && bytes[3] == 0x4e
            &&& bytes[4] == 0x43 && bytes[5] == 0x4d && bytes[6] == 0x50 && bytes[7] == 0x34
            &&& bytes[8] == 1
            &&& header.chunk_size <= u32::MAX ==> le_value(bytes.subrange(9, 13))
                == header.chunk_size
            &&& le_value(bytes.subrange(13, 21)) == header.original_size
            &&& encode_utf8(header.asset_id).len() <= u16::MAX ==> le_value(bytes.subrange(21, 23))
                == encode_utf8(header.asset_id).len()
            &&& encode_utf8(header.key_id).len() <= u16::MAX ==> le_value(bytes.subrange(23, 25))
                == encode_utf8(header.key_id).len()
            &&& bytes.subrange(25, 37) == header.wrap_nonce
            &&& header.wrapped_dek.len() <= u32::MAX ==> le_value(bytes.subrange(37, 41))
                == header.wrapped_dek.len()
            &&& bytes.subrange(41, names_end as int) == encode_utf8(header.asset_id)
            &&& bytes.subrange(names_end as int, keys_end as int) == encode_utf8(header.key_id)
            &&& bytes.skip(keys_end as int) == header.wrapped_dek
        }),
{
    let bytes = header_bytes(header);
    let asset_id = encode_utf8(header.asset_id);
    let key_id = encode_utf8(header.key_id);
    let names_end = 41 + asset_id.len() as int;
    let keys_end = names_end + key_id.len();
    header_parts(header);
    le_range_of_integers();
    assert forall|i: int| 0 <= i < 8 implies #[trigger] bytes[i] == magic()[i] by {
        assert(bytes.take(8)[i] == bytes[i]);
    }
    if header.chunk_size <= u32::MAX {
        le_value_of_le_bytes(header.chunk_size as nat, 4);
    }
    le_value_of_le_bytes(header.original_size as nat, 8);
    if asset_id.len() <= u16::MAX {
        le_value_of_le_bytes(asset_id.len(), 2);
    }
    if key_id.len() <= u16::MAX {
        le_value_of_le_bytes(key_id.len(), 2);
    }
    if header.wrapped_dek.len() <= u32::MAX {
        le_value_of_le_bytes(header.wrapped_dek.len(), 4);
    }
    let names = bytes.skip(41);
    assert(bytes.subrange(41, names_end) =~= names.subrange(0, names_end - 41));
    assert(bytes.subrange(41, names_end) =~= asset_id);
    assert(bytes.subrange(names_end, keys_end) =~= names.subrange(names_end - 41, keys_end - 41));
    assert(bytes.subrange(names_end, keys_end) =~= key_id);
    assert(bytes.skip(keys_end) =~= names.skip(keys_end - 41));
    assert(bytes.skip(keys_end) =~= header.wrapped_dek);
}

/// A header can be encoded exactly where each of its lengths fits into its field.
pub proof fn lengths_must_fit(header: HeaderView)
    ensures
        encoded(header) is Ok <==> encode_utf8(header.asset_id).len() <= 65535 && encode_utf8(
            header.key_id,
        ).len() <= 65535 && header.wrapped_dek.len() <= 4294967295,
        encoded(header) matches Ok(bytes) ==> bytes == header_bytes(header),
        encoded(header) matches Err(error) ==> error.kind is Internal,
{
}

/// A header is read back if its chunks are of 1 MiB, its video has a name of at most 1024 bytes,
/// its device key one of at most 256, and its nonce and wrapped key have their lengths.
pub proof fn headers_within_their_limits_are_read(
    header: HeaderView,
    rest: Seq<u8>,
    shortage: Seq<char>,
)
    requires
        header.chunk_size == 1048576,
        header.wrap_nonce.len() == 12,
        header.wrapped_dek.len() == 48,
        encode_utf8(header.asset_id).len() <= 1024,
        encode_utf8(header.key_id).len() <= 256,
    ensures
        read_header(header_bytes(header) + rest, shortage, header.asset_id) matches Ok(read) && {
            &&& read.asset_id == header.asset_id
            &&& read.key_id == header.key_id
            &&& read.chunk_size == 1048576
            &&& read.original_size == header.original_size
            &&& read.header_size == 89 + encode_utf8(header.asset_id).len() + encode_utf8(
                header.key_id,
            ).len()
            &&& read.wrap_nonce == header.wrap_nonce
            &&& read.wrapped_dek == header.wrapped_dek
        },
{
    header_reads_back(header, rest, shortage);
    header_parts(header);
}

/// What does not start as a header of this format, or whose fields are beyond their limits, is
/// refused as a file of another format; what ends too early is refused too.
pub proof fn other_files_are_refused(file: Seq<u8>, shortage: Seq<char>, asset_id: Seq<char>)
    ensures
        file.len() < 41 ==> read_header(file, shortage, asset_id) is Err,
        file.len() >= 41 && (file[0] != 0x4d || file[1] != 0x59 || file[2] != 0x45 || file[3]
            != 0x4e || file[4] != 0x43 || file[5] != 0x4d || file[6] != 0x50 || file[7] != 0x34
            || file[8] != 1 || le_value(file.subrange(9, 13)) != 1048576 || le_value(
            file.subrange(21, 23),
        ) > 1024 || le_value(file.subrange(23, 25)) > 256 || le_value(file.subrange(37, 41))
            > 4096) ==> (read_header(file, shortage, asset_id) matches Err(error)
            && error.kind is InvalidFormat),
        read_header(file, shortage, asset_id) matches Ok(header) ==> {
            &&& le_value(file.subrange(37, 41)) == 48
            &&& file.len() >= 89 + le_value(file.subrange(21, 23)) + le_value(
                file.subrange(23, 25),
            )
        },
{
    if file.len() >= 41 && file.take(8) == magic() {
        assert forall|i: int| 0 <= i < 8 implies #[trigger] file[i] == magic()[i] by {
            assert(file.take(8)[i] == file[i]);
        }
    }
}

/// A file that ends before its header does is one that could not be read, and any other that is
/// refused is one of another format or of another video.
pub proof fn refusals_tell_short_files(file: Seq<u8>, shortage: Seq<char>, asset_id: Seq<char>)
    ensures
        read_header(file, shortage, asset_id) matches Err(error) ==> {
            let names = le_value(file.subrange(21, 23)) + le_value(file.subrange(23, 25));
            let starts_well = file.take(8) == magic() && file[8] == 1 && le_value(
                file.subrange(9, 13),
            ) == 1048576 && le_value(file.subrange(21, 23)) <= 1024 && le_value(
                file.subrange(23, 25),
            ) <= 256 && le_value(file.subrange(37, 41)) <= 4096;
            &&& error.kind is Internal || error.kind is InvalidFormat
            &&& error.kind is Internal <==> file.len() < 41 || (starts_well && file.len() < 41
                + names + le_value(file.subrange(37, 41)))
        },
{
}

} // verus!
