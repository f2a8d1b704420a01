//! Writing an encrypted video file.
//!
//! The writer turns the bytes of a video into the bytes of the file. It hands them to its
//! caller, who appends them to the file in the order in which they come.

use vstd::prelude::*;
use vstd::string::*;
use vstd::utf8::*;

use crate::cipher::{
    encrypt_with_key, encryption_failure, opened, sealed, ASSOCIATED_LIMIT, MESSAGE_LIMIT,
    NONCE_SIZE, TAG_SIZE,
};
use crate::error::{internal, CryptoError, CryptoErrorView};
use crate::header::{
    encoded, fields_stand_at_their_places, header_bytes, size_can_be_filled_in, with_size, Header,
    HeaderView, CHUNK_SIZE,
};
use crate::keys::{
    chunk_aad, chunk_context, chunk_context_is_short, chunk_nonce, is_drawn_for, wrap_context,
    wrap_dek_with_key, KEYRING_USER, KEY_SIZE, WRAPPED_KEY_SIZE,
};
use crate::layout::{
    body_extends, body_holds, chunk_start, empty_body, finished_header, fresh_records,
    fresh_records_extend, is_fresh_record, record_holds, stores,
};
use crate::little_endian::{append_le, le_bytes};
use crate::random::{are_drawn, is_draw_failure, random_bytes};
use crate::secret::{expose_bytes_mut, SecretBytes, SecretKey};

verus! {

/// A video file that is being written.
pub struct EncryptedFileWriter {
    header: Header,
    dek: SecretKey,
    buffer: SecretBytes,
    written: u64,
    encrypted_chunks: u64,
    /// The part of the video that has been encrypted.
    encrypted: Ghost<Seq<u8>>,
    /// The bytes of the file so far.
    file: Ghost<Seq<u8>>,
}

/// What is left to write when a video is complete.
pub struct FinishedFile {
    /// The size of the video.
    pub written: u64,
    /// The last bytes of the file.
    pub tail: Vec<u8>,
    /// The size of the video as the header holds it, for the place where it belongs.
    pub size_field: Vec<u8>,
}

/// The header of a new file.
pub open spec fn new_header(
    asset_id: Seq<char>,
    wrap_nonce: Seq<u8>,
    wrapped_dek: Seq<u8>,
) -> HeaderView {
    let header = HeaderView {
        asset_id,
        key_id: KEYRING_USER@,
        chunk_size: CHUNK_SIZE,
        original_size: 0,
        header_size: 0,
        wrap_nonce,
        wrapped_dek,
    };
    HeaderView { header_size: header_bytes(header).len() as u64, ..header }
}

impl EncryptedFileWriter {
    /// The header, with no size filled in.
    pub closed spec fn header(&self) -> HeaderView {
        self.header@
    }

    /// The key of the video.
    pub closed spec fn key(&self) -> Seq<u8> {
        self.dek@
    }

    /// The number of bytes that were handed to the writer.
    pub closed spec fn written(&self) -> u64 {
        self.written
    }

    /// The part of the video that has been encrypted.
    pub closed spec fn encrypted(&self) -> Seq<u8> {
        self.encrypted@
    }

    /// The part of the video that waits for its chunk to be complete.
    pub closed spec fn waiting(&self) -> Seq<u8> {
        self.buffer@
    }

    /// The bytes of the file so far.
    pub closed spec fn file(&self) -> Seq<u8> {
        self.file@
    }

    /// The number of chunks that have been encrypted.
    pub closed spec fn chunks(&self) -> u64 {
        self.encrypted_chunks
    }

    /// The video so far.
    pub open spec fn video(&self) -> Seq<u8> {
        self.encrypted() + self.waiting()
    }

    /// The part of the file so far that follows the header.
    pub open spec fn body(&self) -> Seq<u8> {
        self.file().skip(header_bytes(self.header()).len() as int)
    }

    /// Whether the records from the given place on start with nonces that were drawn at random,
    /// each for its own place.
    pub open spec fn is_fresh_from(&self, first: u64) -> bool {
        fresh_records(
            self.body(),
            self.key(),
            self.header().asset_id,
            self.encrypted(),
            first as int,
            self.chunks() as int,
        )
    }

    /// Whether every byte that was handed to the writer is in the video. It is so until the
    /// encryption of a chunk fails, which loses that chunk.
    pub open spec fn complete(&self) -> bool {
        &&& self.written() == self.video().len()
        &&& self.waiting().len() < CHUNK_SIZE
    }

    /// Whether the file so far is the header and the records of what has been encrypted, which
    /// is a number of full chunks.
    pub closed spec fn wf(&self) -> bool {
        let head = header_bytes(self.header@);
        &&& self.header@.original_size == 0
        &&& self.header@.wrap_nonce.len() == NONCE_SIZE
        &&& encode_utf8(self.header@.asset_id).len() <= u16::MAX
        &&& head.is_prefix_of(self.file@)
        &&& body_holds(
            self.file@.skip(head.len() as int),
            self.dek@,
            self.header@.asset_id,
            self.encrypted@,
        )
        &&& self.encrypted@.len() == chunk_start(self.encrypted_chunks as int)
        &&& self.encrypted@.len() + self.buffer@.len() <= self.written
    }

    /// Whether this is the same file as before, further on.
    pub open spec fn follows(&self, before: &Self) -> bool {
        &&& self.header() == before.header()
        &&& self.key() == before.key()
        &&& before.file().is_prefix_of(self.file())
    }

    /// Starts a file with the given key for the video, which has been wrapped. The result comes
    /// with the first bytes of the file.
    pub fn create_wrapped(
        asset_id: &str,
        dek: [u8; 32],
        wrap_nonce: [u8; NONCE_SIZE],
        wrapped_dek: Vec<u8>,
    ) -> (outcome: Result<(Self, Vec<u8>), CryptoError>)
        ensures
            ({
                let header = new_header(asset_id@, wrap_nonce@, wrapped_dek@);
                match outcome {
                    Ok((writer, head)) => {
                        &&& encoded(header) == Ok::<Seq<u8>, CryptoErrorView>(head@)
                        &&& encode_utf8(asset_id@).len() <= u16::MAX
                        &&& writer.wf()
                        &&& writer.header() == header
                        &&& writer.key() == dek@
                        &&& writer.file() == head@
                        &&& writer.encrypted() == Seq::<u8>::empty()
                        &&& writer.waiting() == Seq::<u8>::empty()
                        &&& writer.written() == 0
                        &&& writer.chunks() == 0
                    },
                    Err(error) => encoded(header) == Err::<Seq<u8>, CryptoErrorView>(error@),
                }
            }),
    {
        let header = Header {
            asset_id: asset_id.to_string(),
            key_id: KEYRING_USER.to_string(),
            chunk_size: CHUNK_SIZE,
            original_size: 0,
            header_size: 0,
            wrap_nonce,
            wrapped_dek,
        };
        let head = match header.encode() {
            Ok(bytes) => bytes,
            Err(error) => {
                return Err(error);
            },
        };
        let header = Header { header_size: head.len() as u64, ..header };
        let writer = EncryptedFileWriter {
            header,
            dek: SecretKey::new(dek),
            buffer: SecretBytes::new(Vec::with_capacity(CHUNK_SIZE as usize)),
            written: 0,
            encrypted_chunks: 0,
            encrypted: Ghost(Seq::empty()),
            file: Ghost(head@),
        };
        proof {
            empty_body(dek@, asset_id@);
            assert(head@.skip(head@.len() as int) =~= Seq::<u8>::empty());
        }
        Ok((writer, head))
    }

    /// Starts a file with a fresh key for the video. The result comes with the first bytes of
    /// the file.
    pub fn create_with_key(asset_id: &str, kek: &[u8; 32]) -> (outcome: Result<
        (Self, Vec<u8>),
        CryptoError,
    >)
        ensures
            match outcome {
                Ok((writer, head)) => {
                    let header = writer.header();
                    let context = wrap_context(asset_id@, KEYRING_USER@);
                    &&& encode_utf8(asset_id@).len() <= u16::MAX
                    &&& opened(kek@, header.wrap_nonce, header.wrapped_dek, context) == Some(
                        writer.key(),
                    )
                    &&& sealed(kek@, header.wrap_nonce, writer.key(), context)
                        == header.wrapped_dek
                    &&& writer.key().len() == KEY_SIZE
                    &&& are_drawn::<KEY_SIZE>(writer.key())
                    &&& are_drawn::<NONCE_SIZE>(header.wrap_nonce)
                    &&& writer.wf()
                    &&& header == new_header(asset_id@, header.wrap_nonce, header.wrapped_dek)
                    &&& header.wrap_nonce.len() == NONCE_SIZE
                    &&& header.wrapped_dek.len() == WRAPPED_KEY_SIZE
                    &&& writer.file() == header_bytes(header)
                    &&& writer.file() == head@
                    &&& writer.encrypted() == Seq::<u8>::empty()
                    &&& writer.waiting() == Seq::<u8>::empty()
                    &&& writer.written() == 0
                    &&& writer.chunks() == 0
                },
                Err(error) => {
                    ||| is_draw_failure::<KEY_SIZE>(error@)
                    ||| is_draw_failure::<NONCE_SIZE>(error@)
                    ||| {
                        &&& wrap_context(asset_id@, KEYRING_USER@).len() > ASSOCIATED_LIMIT
                        &&& error@ == encryption_failure()
                    }
                    ||| {
                        &&& encode_utf8(asset_id@).len() > u16::MAX
                        &&& error@ == internal("asset_id 或 key_id 太長"@)
                    }
                },
            },
    {
        let dek: [u8; 32] = match random_bytes::<KEY_SIZE>() {
            Ok(bytes) => bytes,
            Err(error) => {
                return Err(error);
            },
        };
        match wrap_dek_with_key(kek, &dek, asset_id, KEYRING_USER) {
            Ok((wrap_nonce, wrapped_dek)) => {
                proof {
                    reveal_strlit("device-kek-v1");
                    is_ascii_chars_encode_utf8("device-kek-v1"@);
                }
                Self::create_wrapped(asset_id, dek, wrap_nonce, wrapped_dek)
            },
            Err(error) => Err(error),
        }
    }

    /// Encrypts a chunk for the next place in the video, with the given nonce. The result is
    /// the record of the chunk.
    pub fn seal_chunk(&self, plaintext: &[u8], nonce: &[u8; NONCE_SIZE]) -> (outcome: Result<
        Vec<u8>,
        CryptoError,
    >)
        requires
            self.wf(),
            plaintext@.len() + TAG_SIZE <= isize::MAX,
        ensures
            ({
                let context = chunk_context(self.header().asset_id, self.chunks() as nat);
                match outcome {
                    Ok(record) => {
                        &&& plaintext@.len() <= MESSAGE_LIMIT
                        &&& record@ == nonce@ + sealed(self.key(), nonce@, plaintext@, context)
                        &&& record_holds(
                            record@,
                            self.key(),
                            self.header().asset_id,
                            self.chunks() as nat,
                            plaintext@,
                        )
                    },
                    Err(error) => {
                        &&& plaintext@.len() > MESSAGE_LIMIT
                        &&& error@ == encryption_failure()
                    },
                }
            }),
    {
        proof {
            chunk_context_is_short(self.header@.asset_id, self.encrypted_chunks);
        }
        let aad = chunk_aad(self.header.asset_id.as_str(), self.encrypted_chunks);
        match encrypt_with_key(self.dek.as_array(), nonce, plaintext, aad.as_slice()) {
            Ok(ciphertext) => {
                let mut record: Vec<u8> = Vec::new();
                record.extend_from_slice(nonce);
                record.extend_from_slice(ciphertext.as_slice());
                assert(record@ =~= nonce@ + ciphertext@);
                assert(record@.take(NONCE_SIZE as int) =~= nonce@);
                assert(record@.skip(NONCE_SIZE as int) =~= ciphertext@);
                Ok(record)
            },
            Err(error) => Err(error),
        }
    }

    /// Takes the first chunk out of the waiting part of the video.
    fn take_chunk(&mut self) -> (chunk: SecretBytes)
        requires
            old(self).wf(),
            old(self).waiting().len() >= CHUNK_SIZE,
        ensures
            final(self).wf(),
            chunk@ == old(self).waiting().take(CHUNK_SIZE as int),
            final(self).waiting() == old(self).waiting().skip(CHUNK_SIZE as int),
            final(self).header() == old(self).header(),
            final(self).key() == old(self).key(),
            final(self).written() == old(self).written(),
            final(self).encrypted() == old(self).encrypted(),
            final(self).chunks() == old(self).chunks(),
            final(self).file() == old(self).file(),
    {
        let buffer = expose_bytes_mut(&mut self.buffer);
        let mut chunk: Vec<u8> = buffer.split_off(CHUNK_SIZE as usize);
        std::mem::swap(buffer, &mut chunk);
        assert(chunk@ =~= old(self).buffer@.take(CHUNK_SIZE as int));
        assert(self.buffer@ =~= old(self).buffer@.skip(CHUNK_SIZE as int));
        SecretBytes::new(chunk)
    }

    /// Encrypts a full chunk with a fresh nonce, and appends its record to the output.
    fn write_encrypted_chunk(&mut self, plaintext: &[u8], output: &mut Vec<u8>) -> (outcome: Result<
        (),
        CryptoError,
    >)
        requires
            old(self).wf(),
            plaintext@.len() == CHUNK_SIZE,
            old(self).encrypted().len() + old(self).waiting().len() + CHUNK_SIZE
                <= old(self).written(),
        ensures
            final(self).wf(),
            final(self).follows(old(self)),
            final(self).waiting() == old(self).waiting(),
            final(self).written() == old(self).written(),
            final(output)@ == old(output)@ + final(self).file().skip(
                old(self).file().len() as int,
            ),
            forall|first: u64|
                first <= old(self).chunks() && #[trigger] old(self).is_fresh_from(first)
                    ==> final(self).is_fresh_from(first),
            match outcome {
                Ok(()) => {
                    let record = final(self).file().skip(old(self).file().len() as int);
                    &&& final(self).encrypted() == old(self).encrypted() + plaintext@
                    &&& final(self).chunks() == old(self).chunks() + 1
                    &&& is_fresh_record(
                        record,
                        old(self).key(),
                        old(self).header().asset_id,
                        old(self).chunks() as nat,
                        plaintext@,
                    )
                },
                Err(error) => {
                    &&& *final(self) == *old(self)
                    &&& is_draw_failure::<NONCE_SIZE>(error@)
                },
            },
    {
        assert(output@ =~= output@ + self.file@.skip(self.file@.len() as int));
        let nonce: [u8; NONCE_SIZE] = match chunk_nonce(self.encrypted_chunks) {
            Ok(bytes) => bytes,
            Err(error) => {
                return Err(error);
            },
        };
        match self.seal_chunk(plaintext, &nonce) {
            Ok(record) => {
                output.extend_from_slice(record.as_slice());
                let ghost head = header_bytes(self.header@);
                let ghost body = self.file@.skip(head.len() as int);
                proof {
                    body_extends(
                        body,
                        self.dek@,
                        self.header@.asset_id,
                        self.encrypted@,
                        self.encrypted_chunks as nat,
                        record@,
                        plaintext@,
                    );
                    assert((self.file@ + record@).skip(head.len() as int) =~= body + record@);
                    assert((self.file@ + record@).skip(self.file@.len() as int) =~= record@);
                    assert(is_drawn_for(nonce, (self.encrypted_chunks as nat) as u64));
                    assert(is_fresh_record(
                        record@,
                        self.dek@,
                        self.header@.asset_id,
                        self.encrypted_chunks as nat,
                        plaintext@,
                    ));
                    assert forall|first: u64|
                        first <= self.encrypted_chunks && #[trigger] self.is_fresh_from(
                            first,
                        ) implies fresh_records(
                        body + record@,
                        self.dek@,
                        self.header@.asset_id,
                        self.encrypted@ + plaintext@,
                        first as int,
                        self.encrypted_chunks + 1,
                    ) by {
                        fresh_records_extend(
                            body,
                            self.dek@,
                            self.header@.asset_id,
                            self.encrypted@,
                            first as int,
                            self.encrypted_chunks as nat,
                            record@,
                            plaintext@,
                        );
                    }
                }
                self.encrypted = Ghost(self.encrypted@ + plaintext@);
                self.file = Ghost(self.file@ + record@);
                self.encrypted_chunks = self.encrypted_chunks + 1;
                assert(output@ =~= old(output)@ + record@);
                Ok(())
            },
            Err(error) => Err(error),
        }
    }

    /// Takes the next bytes of the video, and appends the records of the chunks that are
    /// complete to the output. Where a chunk cannot be encrypted it is lost, and what came
    /// after it waits.
    pub fn write_chunk(&mut self, plaintext: &[u8], output: &mut Vec<u8>) -> (outcome: Result<
        (),
        CryptoError,
    >)
        requires
            old(self).wf(),
            old(self).written() + plaintext@.len() <= u64::MAX,
        ensures
            final(self).wf(),
            final(self).follows(old(self)),
            final(self).written() == old(self).written() + plaintext@.len(),
            final(output)@ == old(output)@ + final(self).file().skip(
                old(self).file().len() as int,
            ),
            final(self).encrypted().len() == chunk_start(final(self).chunks() as int),
            final(self).is_fresh_from(old(self).chunks()),
            forall|first: u64|
                first <= old(self).chunks() && #[trigger] old(self).is_fresh_from(first)
                    ==> final(self).is_fresh_from(first),
            ({
                let video = old(self).video() + plaintext@;
                match outcome {
                    Ok(()) => {
                        &&& final(self).video() == video
                        &&& plaintext@.len() == 0 ==> *final(self) == *old(self)
                        &&& plaintext@.len() > 0 ==> final(self).waiting().len() < CHUNK_SIZE
                    },
                    Err(error) => {
                        let done = final(self).encrypted().len() as int;
                        &&& is_draw_failure::<NONCE_SIZE>(error@)
                        &&& plaintext@.len() > 0
                        &&& old(self).waiting().len() + plaintext@.len() >= CHUNK_SIZE
                        &&& done + CHUNK_SIZE <= video.len()
                        &&& final(self).encrypted() == video.take(done)
                        &&& final(self).waiting() == video.skip(done + CHUNK_SIZE)
                    },
                }
            }),
    {
        let ghost video = self.video() + plaintext@;
        if plaintext.len() == 0 {
            assert(video =~= self.video());
            assert(output@ =~= output@ + self.file@.skip(self.file@.len() as int));
            return Ok(());
        }
        let buffer = expose_bytes_mut(&mut self.buffer);
        buffer.extend_from_slice(plaintext);
        assert(self.buffer@ =~= old(self).buffer@ + plaintext@);
        self.written = self.written + plaintext.len() as u64;
        assert(self.video() =~= video);
        assert(output@ =~= old(output)@ + self.file@.skip(old(self).file@.len() as int));
        while self.buffer.len() >= CHUNK_SIZE as usize
            invariant
                self.wf(),
                self.follows(old(self)),
                self.written() == old(self).written() + plaintext@.len(),
                output@ == old(output)@ + self.file().skip(old(self).file().len() as int),
                self.video() == video,
                video == old(self).video() + plaintext@,
                plaintext@.len() > 0,
                old(self).encrypted().len() <= self.encrypted().len(),
                old(self).chunks() <= self.chunks(),
                self.is_fresh_from(old(self).chunks()),
                forall|first: u64|
                    first <= old(self).chunks() && #[trigger] old(self).is_fresh_from(first)
                        ==> self.is_fresh_from(first),
            decreases self.buffer@.len(),
        {
            let ghost before = *self;
            let chunk = self.take_chunk();
            let ghost done = self.encrypted@.len() as int;
            proof {
                assert(self.encrypted@ =~= video.take(done));
                assert(self.buffer@ =~= video.skip(done + CHUNK_SIZE));
                assert(chunk@ =~= video.subrange(done, done + CHUNK_SIZE));
            }
            let ghost taken = *self;
            assert forall|first: u64|
                #[trigger] before.is_fresh_from(first) implies taken.is_fresh_from(first) by {}
            match self.write_encrypted_chunk(chunk.as_slice(), output) {
                Ok(()) => {},
                Err(error) => {
                    return Err(error);
                },
            }
            proof {
                assert(self.video() =~= video);
                let base = old(self).file().len() as int;
                let middle = before.file().len() as int;
                assert(self.file().skip(base) =~= before.file().skip(base) + self.file().skip(
                    middle,
                ));
                assert(output@ =~= old(output)@ + self.file().skip(base));
            }
        }
        Ok(())
    }

    /// Whether that many more bytes can be counted.
    pub fn can_write(&self, len: usize) -> (answer: bool)
        ensures
            answer == (self.written() + len <= u64::MAX),
    {
        len as u64 <= 0xffff_ffff_ffff_ffff - self.written
    }

    /// Whether what waits can be encrypted in one piece of memory.
    pub fn can_finish(&self) -> (answer: bool)
        ensures
            answer == (self.waiting().len() + TAG_SIZE <= isize::MAX),
    {
        self.buffer.len() <= isize::MAX as usize - TAG_SIZE as usize
    }

    /// Completes the file, with the given nonce for the last chunk.
    pub fn finish_with_nonce(self, nonce: &[u8; NONCE_SIZE]) -> (outcome: Result<
        FinishedFile,
        CryptoError,
    >)
        requires
            self.wf(),
            self.waiting().len() + TAG_SIZE <= isize::MAX,
        ensures
            ({
                let context = chunk_context(self.header().asset_id, self.chunks() as nat);
                match outcome {
                    Ok(finished) => {
                        &&& self.waiting().len() <= MESSAGE_LIMIT
                        &&& finished.written == self.written()
                        &&& finished.size_field@ == le_bytes(self.written() as nat, 8)
                        &&& finished.tail@ == if self.waiting().len() == 0 {
                            Seq::empty()
                        } else {
                            nonce@ + sealed(self.key(), nonce@, self.waiting(), context)
                        }
                        &&& self.waiting().len() > 0 ==> record_holds(
                            finished.tail@,
                            self.key(),
                            self.header().asset_id,
                            self.chunks() as nat,
                            self.waiting(),
                        )
                        &&& self.complete() ==> stores(
                            with_size(self.file() + finished.tail@, self.written()),
                            self.header(),
                            self.key(),
                            self.video(),
                        )
                    },
                    Err(error) => {
                        &&& self.waiting().len() > MESSAGE_LIMIT
                        &&& error@ == encryption_failure()
                    },
                }
            }),
    {
        let tail: Vec<u8> = if self.buffer.len() == 0 {
            Vec::new()
        } else {
            match self.seal_chunk(self.buffer.as_slice(), nonce) {
                Ok(record) => record,
                Err(error) => {
                    return Err(error);
                },
            }
        };
        let mut size_field: Vec<u8> = Vec::new();
        append_le(&mut size_field, self.written, 8);
        proof {
            assert(size_field@ =~= le_bytes(self.written as nat, 8));
            if self.complete() {
                let head = header_bytes(self.header@);
                let body = self.file@.skip(head.len() as int);
                if self.buffer@.len() == 0 {
                    assert(body + tail@ =~= body);
                    assert(self.video() =~= self.encrypted@);
                } else {
                    body_extends(
                        body,
                        self.dek@,
                        self.header@.asset_id,
                        self.encrypted@,
                        self.encrypted_chunks as nat,
                        tail@,
                        self.buffer@,
                    );
                }
                assert(self.file@ + tail@ =~= head + (body + tail@));
                size_can_be_filled_in(self.header@, body + tail@, self.written);
                let new_head = header_bytes(finished_header(self.header@, self.video()));
                let file = with_size(self.file@ + tail@, self.written);
                assert(file == new_head + (body + tail@));
                assert(file.skip(new_head.len() as int) =~= body + tail@);
            }
        }
        Ok(FinishedFile { written: self.written, tail, size_field })
    }

    /// Completes the file: what is left of the video, and its size.
    pub fn finish(self) -> (outcome: Result<FinishedFile, CryptoError>)
        requires
            self.wf(),
            self.waiting().len() + TAG_SIZE <= isize::MAX,
        ensures
            match outcome {
                Ok(finished) => {
                    &&& finished.written == self.written()
                    &&& finished.size_field@ == le_bytes(self.written() as nat, 8)
                    &&& if self.waiting().len() == 0 {
                        finished.tail@ == Seq::<u8>::empty()
                    } else {
                        record_holds(
                            finished.tail@,
                            self.key(),
                            self.header().asset_id,
                            self.chunks() as nat,
                            self.waiting(),
                        ) && is_fresh_record(
                            finished.tail@,
                            self.key(),
                            self.header().asset_id,
                            self.chunks() as nat,
                            self.waiting(),
                        )
                    }
                    &&& self.complete() ==> stores(
                        with_size(self.file() + finished.tail@, self.written()),
                        self.header(),
                        self.key(),
                        self.video(),
                    )
                },
                Err(error) => {
                    &&& self.waiting().len() > 0
                    &&& is_draw_failure::<NONCE_SIZE>(error@) || (self.waiting().len()
                        > MESSAGE_LIMIT && error@ == encryption_failure())
                },
            },
    {
        let nonce: [u8; NONCE_SIZE] = if self.buffer.len() == 0 {
            [0u8; NONCE_SIZE]
        } else {
            match chunk_nonce(self.encrypted_chunks) {
                Ok(bytes) => bytes,
                Err(error) => {
                    return Err(error);
                },
            }
        };
        assert(self.buffer@.len() > 0 ==> is_drawn_for(
            nonce,
            (self.encrypted_chunks as nat) as u64,
        ));
        self.finish_with_nonce(&nonce)
    }
}

/// How a video is cut into chunks depends on the video alone, and not on the pieces in which it
/// was written.
pub proof fn pieces_do_not_matter(writer1: EncryptedFileWriter, writer2: EncryptedFileWriter)
    requires
        writer1.wf(),
        writer2.wf(),
        writer1.complete(),
        writer2.complete(),
        writer1.video() == writer2.video(),
    ensures
        writer1.encrypted() == writer2.encrypted(),
        writer1.waiting() == writer2.waiting(),
        writer1.chunks() == writer2.chunks(),
        writer1.written() == writer2.written(),
{
    let video = writer1.video();
    let n1 = writer1.encrypted().len() as int;
    let n2 = writer2.encrypted().len() as int;
    assert(video.len() == n1 + writer1.waiting().len());
    assert(video.len() == n2 + writer2.waiting().len());
    assert(n1 == n2);
    assert(writer1.encrypted() =~= video.take(n1));
    assert(writer2.encrypted() =~= video.take(n1));
    assert(writer1.waiting() =~= video.skip(n1));
    assert(writer2.waiting() =~= video.skip(n1));
}

/// A new file is one of the given video, for the device key of this application, with chunks of
/// 1 MiB and no size yet, and its header knows its own size.
pub proof fn new_files_have_no_size_yet(
    asset_id: Seq<char>,
    wrap_nonce: Seq<u8>,
    wrapped_dek: Seq<u8>,
)
    requires
        wrap_nonce.len() == 12,
        encode_utf8(asset_id).len() <= 65535,
        wrapped_dek.len() == 48,
    ensures
        ({
            let header = new_header(asset_id, wrap_nonce, wrapped_dek);
            &&& header.asset_id == asset_id
            &&& header.key_id == "device-kek-v1"@
            &&& header.chunk_size == 1048576
            &&& header.original_size == 0
            &&& header.wrap_nonce == wrap_nonce
            &&& header.wrapped_dek == wrapped_dek
            &&& header.header_size == 102 + encode_utf8(asset_id).len()
        }),
{
    let header = new_header(asset_id, wrap_nonce, wrapped_dek);
    fields_stand_at_their_places(HeaderView { header_size: 0, ..header });
    reveal_strlit("device-kek-v1");
    is_ascii_chars_encode_utf8("device-kek-v1"@);
}

} // verus!
