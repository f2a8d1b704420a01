//! Reading an encrypted video file.
//!
//! The reader knows where each chunk stands in the file, and decrypts what its caller reads
//! there.

use vstd::prelude::*;
use vstd::string::*;
use vstd::utf8::*;

use crate::cipher::{authentication_failure, decrypt_with_key, opened, NONCE_SIZE, TAG_SIZE};
use crate::error::{fault, internal, seen, CryptoError, CryptoErrorKind, CryptoErrorView};
use crate::header::{
    header_bytes, header_reads_back, read_header, readable, with_size, Header, HeaderView,
    ASSET_ID_LIMIT, CHUNK_SIZE, KEY_ID_LIMIT, PREFIX_SIZE,
};
use crate::keys::{
    chunk_aad, chunk_context, labels_are_spelled_out, unwrap_dek_with_key, unwrapped,
    wrap_context, KEYRING_USER, KEY_SIZE, WRAPPED_KEY_SIZE,
};
use crate::layout::{
    chunk_at, chunk_count, chunk_end, chunk_start, finished_header, record_at, record_holds,
    record_start, stores, RECORD_SIZE,
};
use crate::octets::to_array;
use crate::secret::{SecretBytes, SecretKey};
use crate::text::decimal;
use crate::writer::{new_header, EncryptedFileWriter};

verus! {

/// An encrypted video file that is open for reading.
pub struct EncryptedFileReader {
    header: Header,
    dek: SecretKey,
}

/// An `EncryptedFileReader` as its header and the key of the video.
pub struct ReaderView {
    pub header: HeaderView,
    pub dek: Seq<u8>,
}

impl View for EncryptedFileReader {
    type V = ReaderView;

    closed spec fn view(&self) -> ReaderView {
        ReaderView { header: self.header@, dek: self.dek@ }
    }
}

/// Where the record of a chunk stands in a file.
#[derive(Debug, Clone, Copy, PartialEq, Eq, Structural)]
pub struct ChunkLocation {
    /// Where the nonce starts.
    pub offset: u64,
    /// The length of the encrypted chunk and its tag, which follow the nonce.
    pub encrypted_len: u64,
}

/// The error for a file that could not be opened.
pub open spec fn open_fault(missing: bool, report: Seq<char>) -> CryptoErrorView {
    fault(
        if missing {
            CryptoErrorKind::NotFound
        } else {
            CryptoErrorKind::Internal
        },
        "無法開啟加密影片："@ + report,
    )
}

/// The error for a file that could not be opened: `missing` says whether it does not exist,
/// and `report` what the operating system said.
pub fn open_error(missing: bool, report: &str) -> (error: CryptoError)
    ensures
        error@ == open_fault(missing, report@),
{
    let kind = if missing {
        CryptoErrorKind::NotFound
    } else {
        CryptoErrorKind::Internal
    };
    CryptoError::reported(kind, "無法開啟加密影片：", report)
}

/// What opening a file with the device key gives.
pub open spec fn opened_file(
    file: Seq<u8>,
    shortage: Seq<char>,
    expected_asset_id: Seq<char>,
    kek: Seq<u8>,
) -> Result<ReaderView, CryptoErrorView> {
    match read_header(file, shortage, expected_asset_id) {
        Err(error) => Err(error),
        Ok(header) => match unwrapped(
            kek,
            header.wrap_nonce,
            header.wrapped_dek,
            header.asset_id,
            header.key_id,
        ) {
            Err(error) => Err(error),
            Ok(dek) => Ok(ReaderView { header, dek }),
        },
    }
}

/// What opening a file with the key of the video gives.
pub open spec fn opened_file_with_dek(
    file: Seq<u8>,
    shortage: Seq<char>,
    expected_asset_id: Seq<char>,
    dek: Seq<u8>,
) -> Result<ReaderView, CryptoErrorView> {
    match read_header(file, shortage, expected_asset_id) {
        Err(error) => Err(error),
        Ok(header) => Ok(ReaderView { header, dek }),
    }
}

/// Where the record of a chunk starts in the file.
pub open spec fn record_offset(header: HeaderView, chunk_index: u64) -> int {
    header.header_size + record_start(chunk_index as int)
}

/// Whether the place of a chunk in the file, if there is such a chunk, is a number of 64 bits.
pub open spec fn addressable(header: HeaderView, chunk_index: u64) -> bool {
    chunk_start(chunk_index as int) < header.original_size ==> record_offset(header, chunk_index)
        <= u64::MAX
}

/// The length of a chunk of a video of the given size.
pub open spec fn chunk_len(chunk_index: u64, size: u64) -> int {
    chunk_end(chunk_index as int, size as int) - chunk_start(chunk_index as int)
}

/// Where the record of a chunk stands, or why there is none.
pub open spec fn located(header: HeaderView, chunk_index: u64) -> Result<
    ChunkLocation,
    CryptoErrorView,
> {
    if chunk_start(chunk_index as int) > u64::MAX {
        Err(internal("影片 chunk 位置超出範圍"@))
    } else if chunk_start(chunk_index as int) >= header.original_size {
        Err(internal("要求的影片 chunk 不存在"@))
    } else {
        Ok(
            ChunkLocation {
                offset: record_offset(header, chunk_index) as u64,
                encrypted_len: (chunk_len(chunk_index, header.original_size) + TAG_SIZE) as u64,
            },
        )
    }
}

/// What decrypting a chunk gives.
pub open spec fn opened_chunk(
    reader: ReaderView,
    chunk_index: u64,
    nonce: Seq<u8>,
    encrypted: Seq<u8>,
) -> Result<Seq<u8>, CryptoErrorView> {
    match opened(
        reader.dek,
        nonce,
        encrypted,
        chunk_context(reader.header.asset_id, chunk_index as nat),
    ) {
        None => Err(authentication_failure()),
        Some(chunk) => Ok(chunk),
    }
}

/// What reading a chunk gives. `file` is what could be read of the file, from its start, and
/// `shortage` says why there is no more.
pub open spec fn read_chunk_of(
    reader: ReaderView,
    file: Seq<u8>,
    shortage: Seq<char>,
    chunk_index: u64,
) -> Result<Seq<u8>, CryptoErrorView> {
    match located(reader.header, chunk_index) {
        Err(error) => Err(error),
        Ok(location) => {
            let start = location.offset + NONCE_SIZE;
            let end = start + location.encrypted_len;
            if file.len() < end {
                Err(internal("加密影片 chunk 不完整："@ + shortage))
            } else {
                opened_chunk(
                    reader,
                    chunk_index,
                    file.subrange(location.offset as int, start),
                    file.subrange(start, end),
                )
            }
        },
    }
}

/// The part of a chunk that lies in a range of the video.
pub open spec fn chunk_part(chunk: Seq<u8>, chunk_index: int, start: int, end: int) -> Seq<u8> {
    let first = chunk_start(chunk_index);
    chunk.subrange(
        if start > first {
            start - first
        } else {
            0
        },
        if end < first + chunk.len() {
            end - first
        } else {
            chunk.len() as int
        },
    )
}

/// What reading the chunks from `first` to `last` gives of a range.
pub open spec fn read_chunks_of(
    reader: ReaderView,
    file: Seq<u8>,
    shortage: Seq<char>,
    start: int,
    end: int,
    first: int,
    last: int,
) -> Result<Seq<u8>, CryptoErrorView>
    decreases last + 1 - first,
{
    if first > last {
        Ok(Seq::empty())
    } else {
        match read_chunk_of(reader, file, shortage, first as u64) {
            Err(error) => Err(error),
            Ok(chunk) => preceded(
                chunk_part(chunk, first, start, end),
                read_chunks_of(reader, file, shortage, start, end, first + 1, last),
            ),
        }
    }
}

/// What comes of reading something, when more was read before it.
pub open spec fn preceded(before: Seq<u8>, outcome: Result<Seq<u8>, CryptoErrorView>) -> Result<
    Seq<u8>,
    CryptoErrorView,
> {
    match outcome {
        Err(error) => Err(error),
        Ok(bytes) => Ok(before + bytes),
    }
}

/// The chunk that holds a byte of the video.
pub open spec fn chunk_of(position: int) -> int {
    position / CHUNK_SIZE as int
}

/// Whether a range is not empty and lies in a video of the given size.
pub open spec fn is_range(start: u64, end: u64, size: u64) -> bool {
    start < end <= size
}

/// What reading a range of the video gives.
pub open spec fn read_range_of(
    reader: ReaderView,
    file: Seq<u8>,
    shortage: Seq<char>,
    start: u64,
    end: u64,
) -> Result<Seq<u8>, CryptoErrorView> {
    if !is_range(start, end, reader.header.original_size) {
        Err(internal("要求的影片範圍不合法"@))
    } else {
        read_chunks_of(
            reader,
            file,
            shortage,
            start as int,
            end as int,
            chunk_of(start as int),
            chunk_of(end - 1),
        )
    }
}

impl EncryptedFileReader {
    /// A header that was read has the one chunk size and is small.
    #[verifier::type_invariant]
    spec fn wf(&self) -> bool {
        &&& self.header@.chunk_size == CHUNK_SIZE
        &&& self.header@.header_size <= PREFIX_SIZE + ASSET_ID_LIMIT + KEY_ID_LIMIT
            + WRAPPED_KEY_SIZE
    }

    /// Opens a file with the key of the video. `file` is what could be read of the file, from
    /// its start, and `shortage` says why there is no more.
    pub fn open_with_dek(
        file: &[u8],
        shortage: &str,
        expected_asset_id: &str,
        dek: &[u8; 32],
    ) -> (outcome: Result<Self, CryptoError>)
        ensures
            seen(outcome) == opened_file_with_dek(file@, shortage@, expected_asset_id@, dek@),
    {
        match Header::read_from(file, shortage, expected_asset_id) {
            Ok(header) => Ok(EncryptedFileReader { header, dek: SecretKey::new(*dek) }),
            Err(error) => Err(error),
        }
    }

    /// Opens a file with the device key. `file` is what could be read of the file, from its
    /// start, and `shortage` says why there is no more.
    pub fn open_with_key(
        file: &[u8],
        shortage: &str,
        expected_asset_id: &str,
        kek: &[u8; 32],
    ) -> (outcome: Result<Self, CryptoError>)
        ensures
            seen(outcome) == opened_file(file@, shortage@, expected_asset_id@, kek@),
    {
        match Header::read_from(file, shortage, expected_asset_id) {
            Ok(header) => {
                match unwrap_dek_with_key(
                    kek,
                    &header.wrap_nonce,
                    header.wrapped_dek.as_slice(),
                    header.asset_id.as_str(),
                    header.key_id.as_str(),
                ) {
                    Ok(dek) => Ok(EncryptedFileReader { header, dek }),
                    Err(error) => Err(error),
                }
            },
            Err(error) => Err(error),
        }
    }

    /// A copy of the key of the video.
    pub fn clone_dek(&self) -> (dek: SecretKey)
        ensures
            dek@ == self@.dek,
    {
        self.dek.clone()
    }

    /// The size of the video.
    pub fn original_size(&self) -> (size: u64)
        ensures
            size == self@.header.original_size,
    {
        self.header.original_size
    }

    /// Whether the place of a chunk in the file is a number of 64 bits.
    pub fn is_addressable(&self, chunk_index: u64) -> (answer: bool)
        ensures
            answer == addressable(self@.header, chunk_index),
    {
        let room: u64 = 0xffff_ffff_ffff_ffff - self.header.header_size;
        match chunk_index.checked_mul(CHUNK_SIZE) {
            Some(start) => start >= self.header.original_size || chunk_index <= room / RECORD_SIZE,
            None => true,
        }
    }

    /// Where the record of a chunk stands in the file.
    pub fn locate_chunk(&self, chunk_index: u64) -> (outcome: Result<ChunkLocation, CryptoError>)
        requires
            addressable(self@.header, chunk_index),
        ensures
            match outcome {
                Ok(location) => located(self@.header, chunk_index) == Ok::<
                    ChunkLocation,
                    CryptoErrorView,
                >(location),
                Err(error) => located(self@.header, chunk_index) == Err::<
                    ChunkLocation,
                    CryptoErrorView,
                >(error@),
            },
    {
        proof {
            use_type_invariant(self);
            let size = self.header.chunk_size;
            assert(chunk_index * size == chunk_index * CHUNK_SIZE) by (nonlinear_arith)
                requires
                    size == CHUNK_SIZE,
            ;
        }
        let start: u64 = match chunk_index.checked_mul(self.header.chunk_size) {
            Some(start) => start,
            None => {
                return Err(CryptoError::new("影片 chunk 位置超出範圍"));
            },
        };
        if start >= self.header.original_size {
            return Err(CryptoError::new("要求的影片 chunk 不存在"));
        }
        let rest: u64 = self.header.original_size - start;
        let plaintext_len: u64 = if rest < self.header.chunk_size {
            rest
        } else {
            self.header.chunk_size
        };
        let encrypted_len: u64 = plaintext_len + TAG_SIZE;
        let offset: u64 = self.header.header_size + chunk_index * RECORD_SIZE;
        Ok(ChunkLocation { offset, encrypted_len })
    }

    /// Decrypts a chunk, given the nonce and the encrypted chunk that stand in its place.
    pub fn open_chunk(
        &self,
        chunk_index: u64,
        nonce: &[u8; NONCE_SIZE],
        encrypted: &[u8],
    ) -> (outcome: Result<SecretBytes, CryptoError>)
        ensures
            seen(outcome) == opened_chunk(self@, chunk_index, nonce@, encrypted@),
            outcome matches Ok(chunk) ==> chunk@.len() + TAG_SIZE == encrypted@.len(),
    {
        let aad = chunk_aad(self.header.asset_id.as_str(), chunk_index);
        decrypt_with_key(self.dek.as_array(), nonce, encrypted, aad.as_slice())
    }

    /// Reads a chunk. `file` is what could be read of the file, from its start, and `shortage`
    /// says why there is no more.
    pub fn read_chunk(&self, file: &[u8], shortage: &str, chunk_index: u64) -> (outcome: Result<
        SecretBytes,
        CryptoError,
    >)
        requires
            addressable(self@.header, chunk_index),
        ensures
            seen(outcome) == read_chunk_of(self@, file@, shortage@, chunk_index),
            outcome matches Ok(chunk) ==> chunk@.len() == chunk_len(
                chunk_index,
                self@.header.original_size,
            ),
    {
        match self.locate_chunk(chunk_index) {
            Ok(location) => {
                let available: u64 = file.len() as u64;
                if available < location.offset || available - location.offset < NONCE_SIZE as u64
                    + location.encrypted_len {
                    return Err(
                        CryptoError::reported(
                            CryptoErrorKind::Internal,
                            "加密影片 chunk 不完整：",
                            shortage,
                        ),
                    );
                }
                let offset: usize = location.offset as usize;
                let start: usize = offset + NONCE_SIZE;
                let end: usize = start + location.encrypted_len as usize;
                let nonce: [u8; NONCE_SIZE] = to_array::<NONCE_SIZE>(&file[offset..start]);
                self.open_chunk(chunk_index, &nonce, &file[start..end])
            },
            Err(error) => Err(error),
        }
    }

    /// Reads a range of the video. `file` is what could be read of the file, from its start, and
    /// `shortage` says why there is no more.
    pub fn read_range(&self, file: &[u8], shortage: &str, start: u64, end: u64) -> (outcome: Result<
        Vec<u8>,
        CryptoError,
    >)
        requires
            is_range(start, end, self@.header.original_size) ==> addressable(
                self@.header,
                chunk_of(end - 1) as u64,
            ),
        ensures
            seen(outcome) == read_range_of(self@, file@, shortage@, start, end),
    {
        if start >= end || end > self.header.original_size {
            return Err(CryptoError::new("要求的影片範圍不合法"));
        }
        let last_chunk: u64 = (end - 1) / CHUNK_SIZE;
        let mut chunk_index: u64 = start / CHUNK_SIZE;
        let mut output: Vec<u8> = Vec::new();
        let ghost expected = read_range_of(self@, file@, shortage@, start, end);
        proof {
            let all = read_chunks_of(
                self@,
                file@,
                shortage@,
                start as int,
                end as int,
                chunk_index as int,
                last_chunk as int,
            );
            if let Ok(bytes) = all {
                assert(output@ + bytes =~= bytes);
            }
        }
        while chunk_index <= last_chunk
            invariant
                start < end <= self@.header.original_size,
                last_chunk == chunk_of(end - 1),
                chunk_of(start as int) <= chunk_index <= last_chunk + 1,
                addressable(self@.header, last_chunk),
                expected == read_range_of(self@, file@, shortage@, start, end),
                preceded(
                    output@,
                    read_chunks_of(
                        self@,
                        file@,
                        shortage@,
                        start as int,
                        end as int,
                        chunk_index as int,
                        last_chunk as int,
                    ),
                ) == expected,
            decreases last_chunk + 1 - chunk_index,
        {
            let chunk_start: u64 = chunk_index * CHUNK_SIZE;
            let chunk = match self.read_chunk(file, shortage, chunk_index) {
                Ok(chunk) => chunk,
                Err(error) => {
                    return Err(error);
                },
            };
            let chunk_end: u64 = chunk_start + chunk.len() as u64;
            let from: u64 = if start > chunk_start {
                start - chunk_start
            } else {
                0
            };
            let to: u64 = if end < chunk_end {
                end - chunk_start
            } else {
                chunk_end - chunk_start
            };
            let ghost before = output@;
            let part = &chunk.as_slice()[from as usize..to as usize];
            output.extend_from_slice(part);
            chunk_index = chunk_index + 1;
            proof {
                let rest = read_chunks_of(
                    self@,
                    file@,
                    shortage@,
                    start as int,
                    end as int,
                    chunk_index as int,
                    last_chunk as int,
                );
                if let Ok(bytes) = rest {
                    assert(output@ + bytes =~= before + (part@ + bytes));
                }
            }
        }
        assert(output@ + Seq::<u8>::empty() =~= output@);
        Ok(output)
    }
}

/// The header of a finished file, as it is read.
pub open spec fn stored_header(header: HeaderView, video: Seq<u8>) -> HeaderView {
    let finished = finished_header(header, video);
    HeaderView { header_size: header_bytes(finished).len() as u64, ..finished }
}

/// The device key that wrapped the key of a video opens the finished file of the video.
pub proof fn stored_file_opens(
    file: Seq<u8>,
    header: HeaderView,
    kek: Seq<u8>,
    dek: Seq<u8>,
    video: Seq<u8>,
    shortage: Seq<char>,
)
    requires
        stores(file, header, dek, video),
        readable(header),
        unwrapped(kek, header.wrap_nonce, header.wrapped_dek, header.asset_id, header.key_id)
            == Ok::<Seq<u8>, CryptoErrorView>(dek),
    ensures
        opened_file(file, shortage, header.asset_id, kek) == Ok::<ReaderView, CryptoErrorView>(
            ReaderView { header: stored_header(header, video), dek },
        ),
        opened_file_with_dek(file, shortage, header.asset_id, dek) == Ok::<
            ReaderView,
            CryptoErrorView,
        >(ReaderView { header: stored_header(header, video), dek }),
{
    let head = header_bytes(finished_header(header, video));
    header_reads_back(finished_header(header, video), file.skip(head.len() as int), shortage);
    assert(head + file.skip(head.len() as int) =~= file);
}

/// Each chunk of a finished file reads back as the part of the video that was written there.
pub proof fn stored_chunk_reads_back(
    file: Seq<u8>,
    header: HeaderView,
    dek: Seq<u8>,
    video: Seq<u8>,
    shortage: Seq<char>,
    chunk_index: u64,
)
    requires
        stores(file, header, dek, video),
        readable(header),
        file.len() <= u64::MAX,
        chunk_index < chunk_count(video.len()),
    ensures
        addressable(stored_header(header, video), chunk_index),
        read_chunk_of(
            ReaderView { header: stored_header(header, video), dek },
            file,
            shortage,
            chunk_index,
        ) == Ok::<Seq<u8>, CryptoErrorView>(chunk_at(video, chunk_index as int)),
{
    let head = header_bytes(finished_header(header, video));
    let body = file.skip(head.len() as int);
    let index = chunk_index as int;
    let chunk = chunk_at(video, index);
    let record = record_at(body, index, chunk.len() as int);
    assert(record_holds(record, dek, header.asset_id, index as nat, chunk));
    let offset = head.len() + record_start(index);
    let start = offset + NONCE_SIZE;
    let end = start + chunk.len() + TAG_SIZE;
    assert(end <= file.len());
    assert(file.subrange(offset, start) =~= record.take(NONCE_SIZE as int));
    assert(file.subrange(start, end) =~= record.skip(NONCE_SIZE as int));
}

proof fn stored_chunks_read_back(
    file: Seq<u8>,
    header: HeaderView,
    dek: Seq<u8>,
    video: Seq<u8>,
    shortage: Seq<char>,
    start: u64,
    end: u64,
    first: int,
)
    requires
        stores(file, header, dek, video),
        readable(header),
        file.len() <= u64::MAX,
        is_range(start, end, video.len() as u64),
        chunk_of(start as int) <= first <= chunk_of(end - 1),
    ensures
        read_chunks_of(
            ReaderView { header: stored_header(header, video), dek },
            file,
            shortage,
            start as int,
            end as int,
            first,
            chunk_of(end - 1),
        ) == Ok::<Seq<u8>, CryptoErrorView>(
            video.subrange(
                if start > chunk_start(first) {
                    start as int
                } else {
                    chunk_start(first)
                },
                end as int,
            ),
        ),
    decreases chunk_of(end - 1) - first,
{
    let reader = ReaderView { header: stored_header(header, video), dek };
    let last = chunk_of(end - 1);
    stored_chunk_reads_back(file, header, dek, video, shortage, first as u64);
    let part = chunk_part(chunk_at(video, first), first, start as int, end as int);
    let from = if start > chunk_start(first) {
        start as int
    } else {
        chunk_start(first)
    };
    if first < last {
        stored_chunks_read_back(file, header, dek, video, shortage, start, end, first + 1);
        assert(part + video.subrange(chunk_start(first + 1), end as int) =~= video.subrange(
            from,
            end as int,
        ));
    } else {
        assert(read_chunks_of(
            reader,
            file,
            shortage,
            start as int,
            end as int,
            first + 1,
            last,
        ) == Ok::<Seq<u8>, CryptoErrorView>(Seq::empty()));
        assert(part + Seq::empty() =~= video.subrange(from, end as int));
    }
}

/// Every range of a finished file reads back as the bytes of the video that were written.
pub proof fn stored_range_reads_back(
    file: Seq<u8>,
    header: HeaderView,
    dek: Seq<u8>,
    video: Seq<u8>,
    shortage: Seq<char>,
    start: u64,
    end: u64,
)
    requires
        stores(file, header, dek, video),
        readable(header),
        file.len() <= u64::MAX,
        is_range(start, end, video.len() as u64),
    ensures
        addressable(stored_header(header, video), chunk_of(end - 1) as u64),
        read_range_of(
            ReaderView { header: stored_header(header, video), dek },
            file,
            shortage,
            start,
            end,
        ) == Ok::<Seq<u8>, CryptoErrorView>(video.subrange(start as int, end as int)),
{
    stored_chunk_reads_back(file, header, dek, video, shortage, chunk_of(end - 1) as u64);
    stored_chunks_read_back(
        file,
        header,
        dek,
        video,
        shortage,
        start,
        end,
        chunk_of(start as int),
    );
}

/// A video that was written reads back: the device key under which the file was started opens
/// the finished file, and every range of it is that range of the video. The name of the video is
/// one that a header can be read with.
pub proof fn written_video_reads_back(
    writer: EncryptedFileWriter,
    asset_id: Seq<char>,
    kek: Seq<u8>,
    tail: Seq<u8>,
    shortage: Seq<char>,
    start: u64,
    end: u64,
)
    requires
        writer.complete(),
        writer.header() == new_header(
            asset_id,
            writer.header().wrap_nonce,
            writer.header().wrapped_dek,
        ),
        writer.header().wrap_nonce.len() == NONCE_SIZE,
        writer.header().wrapped_dek.len() == WRAPPED_KEY_SIZE,
        writer.key().len() == KEY_SIZE,
        opened(
            kek,
            writer.header().wrap_nonce,
            writer.header().wrapped_dek,
            wrap_context(asset_id, KEYRING_USER@),
        ) == Some(writer.key()),
        stores(
            with_size(writer.file() + tail, writer.written()),
            writer.header(),
            writer.key(),
            writer.video(),
        ),
        with_size(writer.file() + tail, writer.written()).len() <= u64::MAX,
        encode_utf8(asset_id).len() <= ASSET_ID_LIMIT,
        is_range(start, end, writer.written()),
    ensures
        ({
            let file = with_size(writer.file() + tail, writer.written());
            let reader = ReaderView {
                header: stored_header(writer.header(), writer.video()),
                dek: writer.key(),
            };
            &&& opened_file(file, shortage, asset_id, kek) == Ok::<ReaderView, CryptoErrorView>(
                reader,
            )
            &&& reader.header.original_size == writer.written()
            &&& read_range_of(reader, file, shortage, start, end) == Ok::<
                Seq<u8>,
                CryptoErrorView,
            >(writer.video().subrange(start as int, end as int))
        }),
{
    let file = with_size(writer.file() + tail, writer.written());
    reveal_strlit("device-kek-v1");
    is_ascii_chars_encode_utf8("device-kek-v1"@);
    stored_file_opens(file, writer.header(), kek, writer.key(), writer.video(), shortage);
    stored_range_reads_back(
        file,
        writer.header(),
        writer.key(),
        writer.video(),
        shortage,
        start,
        end,
    );
}

/// A chunk is there exactly where the video reaches its MiB. Its record then stands behind the
/// header and the records of the chunks before it, and is as long as the chunk and its tag.
pub proof fn chunks_are_found_in_their_place(header: HeaderView, chunk_index: u64)
    requires
        header.header_size + chunk_index * 1048604 <= u64::MAX,
    ensures
        match located(header, chunk_index) {
            Ok(location) => {
                &&& chunk_index * 1048576 < header.original_size
                &&& location.offset == header.header_size + chunk_index * 1048604
                &&& (chunk_index + 1) * 1048576 <= header.original_size ==> location.encrypted_len
                    == 1048592
                &&& (chunk_index + 1) * 1048576 > header.original_size ==> location.encrypted_len
                    == header.original_size - chunk_index * 1048576 + 16
            },
            Err(error) => chunk_index * 1048576 >= header.original_size && error.kind is Internal,
        },
{
}

/// A chunk that is read is what the key of the video makes of its record, for this place in this
/// video; where it makes nothing of it the file is damaged, and where the file ends too early the
/// chunk is refused.
pub proof fn chunks_are_read_from_their_place(
    reader: ReaderView,
    file: Seq<u8>,
    shortage: Seq<char>,
    chunk_index: u64,
)
    requires
        chunk_index * 1048576 < reader.header.original_size,
        reader.header.header_size + chunk_index * 1048604 <= u64::MAX,
    ensures
        ({
            let offset = reader.header.header_size + chunk_index * 1048604;
            let left = reader.header.original_size - chunk_index * 1048576;
            let end = offset + 28 + if left < 1048576 {
                left
            } else {
                1048576
            };
            let label = "my-tauri-app:chunk:v1:"@ + reader.header.asset_id + ":"@ + decimal(
                chunk_index as nat,
            );
            let outcome = read_chunk_of(reader, file, shortage, chunk_index);
            if file.len() < end {
                outcome matches Err(error) && error.kind is Internal
            } else {
                match opened(
                    reader.dek,
                    file.subrange(offset, offset + 12),
                    file.subrange(offset + 12, end),
                    encode_utf8(label),
                ) {
                    Some(chunk) => outcome == Ok::<Seq<u8>, CryptoErrorView>(chunk),
                    None => outcome matches Err(error) && error.kind is Corrupt,
                }
            }
        }),
{
    chunks_are_found_in_their_place(reader.header, chunk_index);
    labels_are_spelled_out(reader.header.asset_id, Seq::empty(), chunk_index as nat);
}

/// A range that is empty, turned round or not inside the video is refused, and so is one of whose
/// chunks any cannot be read: nothing is returned of it.
pub proof fn ranges_are_read_whole_or_not_at_all(
    reader: ReaderView,
    file: Seq<u8>,
    shortage: Seq<char>,
    start: u64,
    end: u64,
    chunk_index: u64,
)
    ensures
        start >= end || end > reader.header.original_size ==> (read_range_of(
            reader,
            file,
            shortage,
            start,
            end,
        ) matches Err(error) && error.kind is Internal),
        start < end <= reader.header.original_size && start / 1048576 <= chunk_index <= (end - 1)
            / 1048576 && read_chunk_of(reader, file, shortage, chunk_index) is Err
            ==> read_range_of(reader, file, shortage, start, end) is Err,
{
    if start < end <= reader.header.original_size && start / 1048576 <= chunk_index <= (end - 1)
        / 1048576 && read_chunk_of(reader, file, shortage, chunk_index) is Err {
        unreadable_chunk_stops(
            reader,
            file,
            shortage,
            start as int,
            end as int,
            chunk_of(start as int),
            chunk_of(end - 1),
            chunk_index,
        );
    }
}

proof fn unreadable_chunk_stops(
    reader: ReaderView,
    file: Seq<u8>,
    shortage: Seq<char>,
    start: int,
    end: int,
    first: int,
    last: int,
    chunk_index: u64,
)
    requires
        0 <= first <= chunk_index <= last,
        read_chunk_of(reader, file, shortage, chunk_index) is Err,
    ensures
        read_chunks_of(reader, file, shortage, start, end, first, last) is Err,
    decreases last - first,
{
    if first < chunk_index {
        unreadable_chunk_stops(
            reader,
            file,
            shortage,
            start,
            end,
            first + 1,
            last,
            chunk_index,
        );
    }
}

/// A file that could be opened is one of the video that was asked for, and the key is what the
/// device key makes of the wrapped key in its header, or the one that was given.
pub proof fn opened_files_are_of_their_video(
    file: Seq<u8>,
    shortage: Seq<char>,
    asset_id: Seq<char>,
    key: Seq<u8>,
)
    ensures
        opened_file(file, shortage, asset_id, key) matches Ok(reader) ==> {
            &&& reader.header.asset_id == asset_id
            &&& reader.dek.len() == 32
            &&& opened(
                key,
                reader.header.wrap_nonce,
                reader.header.wrapped_dek,
                encode_utf8(
                    "my-tauri-app:wrap:v1:"@ + asset_id + ":"@ + reader.header.key_id,
                ),
            ) == Some(reader.dek)
        },
        opened_file_with_dek(file, shortage, asset_id, key) matches Ok(reader)
            ==> reader.header.asset_id == asset_id && reader.dek == key,
        read_header(file, shortage, asset_id) is Ok <==> opened_file_with_dek(
            file,
            shortage,
            asset_id,
            key,
        ) is Ok,
{
    if let Ok(header) = read_header(file, shortage, asset_id) {
        labels_are_spelled_out(header.asset_id, header.key_id, 0);
    }
}

/// A file that does not exist is not found; any other that could not be opened is a fault of the
/// system, and the report of the system comes last in either message.
pub proof fn missing_files_are_not_found(missing: bool, report: Seq<char>)
    ensures
        open_fault(missing, report).kind is NotFound <==> missing,
        open_fault(missing, report).kind is Internal <==> !missing,
        open_fault(missing, report).message == "無法開啟加密影片："@ + report,
{
}

/// What is sent of a chunk are its bytes that lie in the range, and no other, in their order.
pub proof fn parts_are_what_overlaps(
    chunk: Seq<u8>,
    chunk_index: int,
    start: int,
    end: int,
    position: int,
)
    requires
        0 <= chunk_index,
        chunk_index * 1048576 <= position < chunk_index * 1048576 + chunk.len(),
        start <= position < end,
    ensures
        ({
            let first = chunk_index * 1048576;
            let from = if start > first {
                start
            } else {
                first
            };
            let to = if end < first + chunk.len() {
                end
            } else {
                first + chunk.len()
            };
            let part = chunk_part(chunk, chunk_index, start, end);
            &&& part.len() == to - from
            &&& part[position - from] == chunk[position - first]
        }),
{
}

/// A file is opened exactly where its header can be read and the device key makes a key of 32
/// bytes of the wrapped key in it, for this video and this device key.
pub proof fn wrapped_keys_open_files(
    file: Seq<u8>,
    shortage: Seq<char>,
    asset_id: Seq<char>,
    kek: Seq<u8>,
)
    ensures
        match read_header(file, shortage, asset_id) {
            Err(error) => opened_file(file, shortage, asset_id, kek) == Err::<
                ReaderView,
                CryptoErrorView,
            >(error),
            Ok(header) => match opened(
                kek,
                header.wrap_nonce,
                header.wrapped_dek,
                encode_utf8(
                    "my-tauri-app:wrap:v1:"@ + header.asset_id + ":"@ + header.key_id,
                ),
            ) {
                Some(dek) => if dek.len() == 32 {
                    opened_file(file, shortage, asset_id, kek) == Ok::<
                        ReaderView,
                        CryptoErrorView,
                    >(ReaderView { header, dek })
                } else {
                    opened_file(file, shortage, asset_id, kek) is Err
                },
                None => opened_file(file, shortage, asset_id, kek) matches Err(error)
                    && error.kind is Corrupt,
            },
        },
{
    if let Ok(header) = read_header(file, shortage, asset_id) {
        labels_are_spelled_out(header.asset_id, header.key_id, 0);
    }
}

} // verus!
