//! Sending a range of a video, chunk by chunk.

use vstd::prelude::*;
use vstd::slice::*;

use crate::error::CryptoErrorView;
use crate::header::{readable, HeaderView, CHUNK_SIZE};
use crate::layout::{chunk_at, chunk_start, stores};
use crate::ranges::{wanted_range, wanted_range_is_inside, ByteRange};
use crate::reader::{
    chunk_of, chunk_part, read_chunk_of, stored_chunk_reads_back, stored_header, ReaderView,
};
use crate::response::{announces, content_range, partial_response_is_read_back, range_head_of};
use crate::text::decimal;

verus! {

/// A range of a video that is being sent.
pub struct RangeStream {
    range: ByteRange,
    next_chunk: u64,
    last_chunk: u64,
}

/// A `RangeStream` as the range, and the chunk of which a part is to be sent next.
pub struct StreamView {
    pub range: ByteRange,
    pub next_chunk: int,
}

impl View for RangeStream {
    type V = StreamView;

    closed spec fn view(&self) -> StreamView {
        StreamView { range: self.range, next_chunk: self.next_chunk as int }
    }
}

/// Whether a chunk holds all of its bytes that lie in a range.
pub open spec fn covers(chunk: Seq<u8>, chunk_index: int, range: ByteRange) -> bool {
    &&& chunk_start(chunk_index) + chunk.len() <= u64::MAX
    &&& range.start <= chunk_start(chunk_index) + chunk.len()
}

impl RangeStream {
    #[verifier::type_invariant]
    spec fn wf(&self) -> bool {
        &&& self.range.start < self.range.end
        &&& self.last_chunk == chunk_of(self.range.end - 1)
        &&& chunk_of(self.range.start as int) <= self.next_chunk <= self.last_chunk + 1
    }

    /// Starts to send a range.
    pub fn new(range: ByteRange) -> (stream: Self)
        requires
            range.start < range.end,
        ensures
            stream@ == (StreamView { range, next_chunk: chunk_of(range.start as int) }),
    {
        RangeStream {
            range,
            next_chunk: range.start / CHUNK_SIZE,
            last_chunk: (range.end - 1) / CHUNK_SIZE,
        }
    }

    /// The chunk that is needed next, if there is more to send.
    pub fn next_chunk(&self) -> (chunk_index: Option<u64>)
        ensures
            match chunk_index {
                Some(index) => {
                    &&& index == self@.next_chunk
                    &&& self@.next_chunk <= chunk_of(self@.range.end - 1)
                },
                None => self@.next_chunk > chunk_of(self@.range.end - 1),
            },
    {
        proof {
            use_type_invariant(self);
        }
        if self.next_chunk <= self.last_chunk {
            Some(self.next_chunk)
        } else {
            None
        }
    }

    /// Whether a chunk holds all of its bytes that are to be sent.
    pub fn accepts(&self, chunk: &[u8]) -> (answer: bool)
        ensures
            answer == (self@.next_chunk <= chunk_of(self@.range.end - 1) && covers(
                chunk@,
                self@.next_chunk,
                self@.range,
            )),
    {
        proof {
            use_type_invariant(self);
        }
        if self.next_chunk > self.last_chunk {
            return false;
        }
        let chunk_start: u64 = self.next_chunk * CHUNK_SIZE;
        match chunk_start.checked_add(chunk.len() as u64) {
            Some(chunk_end) => self.range.start <= chunk_end,
            None => false,
        }
    }

    /// The part of the chunk that is to be sent, given the chunk that is needed next.
    pub fn send(&mut self, chunk: &[u8]) -> (part: Vec<u8>)
        requires
            old(self)@.next_chunk <= chunk_of(old(self)@.range.end - 1),
            covers(chunk@, old(self)@.next_chunk, old(self)@.range),
        ensures
            part@ == chunk_part(
                chunk@,
                old(self)@.next_chunk,
                old(self)@.range.start as int,
                old(self)@.range.end as int,
            ),
            final(self)@ == (StreamView { next_chunk: old(self)@.next_chunk + 1, ..old(self)@ }),
    {
        proof {
            use_type_invariant(&*self);
        }
        let chunk_start: u64 = self.next_chunk * CHUNK_SIZE;
        let chunk_end: u64 = chunk_start + chunk.len() as u64;
        let from: u64 = if self.range.start > chunk_start {
            self.range.start - chunk_start
        } else {
            0
        };
        let to: u64 = if self.range.end < chunk_end {
            self.range.end - chunk_start
        } else {
            chunk_end - chunk_start
        };
        self.next_chunk = self.next_chunk + 1;
        slice_to_vec(&chunk[from as usize..to as usize])
    }
}

/// What is sent of a range of a video, from the given chunk on.
pub open spec fn streamed(video: Seq<u8>, range: ByteRange, chunk_index: int) -> Seq<u8>
    decreases chunk_of(range.end - 1) + 1 - chunk_index,
{
    if chunk_index > chunk_of(range.end - 1) {
        Seq::empty()
    } else {
        chunk_part(
            chunk_at(video, chunk_index),
            chunk_index,
            range.start as int,
            range.end as int,
        ) + streamed(video, range, chunk_index + 1)
    }
}

proof fn streamed_from(video: Seq<u8>, range: ByteRange, chunk_index: int)
    requires
        range.start < range.end <= video.len(),
        chunk_of(range.start as int) <= chunk_index <= chunk_of(range.end - 1),
    ensures
        streamed(video, range, chunk_index) == video.subrange(
            if range.start > chunk_start(chunk_index) {
                range.start as int
            } else {
                chunk_start(chunk_index)
            },
            range.end as int,
        ),
    decreases chunk_of(range.end - 1) - chunk_index,
{
    let part = chunk_part(
        chunk_at(video, chunk_index),
        chunk_index,
        range.start as int,
        range.end as int,
    );
    let from = if range.start > chunk_start(chunk_index) {
        range.start as int
    } else {
        chunk_start(chunk_index)
    };
    if chunk_index < chunk_of(range.end - 1) {
        streamed_from(video, range, chunk_index + 1);
        assert(part + video.subrange(chunk_start(chunk_index + 1), range.end as int)
            =~= video.subrange(from, range.end as int));
    } else {
        assert(streamed(video, range, chunk_index + 1) == Seq::<u8>::empty());
        assert(part + Seq::empty() =~= video.subrange(from, range.end as int));
    }
}

/// What is sent of a range of a video is that range of the video: as many bytes as the response
/// announces.
pub proof fn range_is_sent(video: Seq<u8>, range: ByteRange)
    requires
        range.start < range.end <= video.len(),
    ensures
        streamed(video, range, chunk_of(range.start as int)) == video.subrange(
            range.start as int,
            range.end as int,
        ),
        streamed(video, range, chunk_of(range.start as int)).len() == range.end - range.start,
{
    streamed_from(video, range, chunk_of(range.start as int));
}

/// The chunks of a video hold all of their bytes that lie in a range of it.
pub proof fn chunks_cover_the_range(video: Seq<u8>, range: ByteRange, chunk_index: int)
    requires
        range.start < range.end <= video.len() <= u64::MAX,
        chunk_of(range.start as int) <= chunk_index <= chunk_of(range.end - 1),
    ensures
        covers(chunk_at(video, chunk_index), chunk_index, range),
{
}

/// A player gets what was written: of every range that a request gets of a finished file, the
/// chunks can be read, and what is sent of them is that range of the video.
pub proof fn player_gets_the_video(
    file: Seq<u8>,
    header: HeaderView,
    dek: Seq<u8>,
    video: Seq<u8>,
    shortage: Seq<char>,
    value: Option<Seq<char>>,
    range: ByteRange,
)
    requires
        stores(file, header, dek, video),
        readable(header),
        file.len() <= u64::MAX,
        wanted_range(value, video.len() as u64) == Some(range),
    ensures
        forall|chunk_index: u64|
            chunk_of(range.start as int) <= chunk_index <= chunk_of(range.end - 1)
                ==> #[trigger] read_chunk_of(
                ReaderView { header: stored_header(header, video), dek },
                file,
                shortage,
                chunk_index,
            ) == Ok::<Seq<u8>, CryptoErrorView>(chunk_at(video, chunk_index as int)),
        streamed(video, range, chunk_of(range.start as int)) == video.subrange(
            range.start as int,
            range.end as int,
        ),
{
    wanted_range_is_inside(value, video.len() as u64);
    range_is_sent(video, range);
    assert forall|chunk_index: u64|
        chunk_of(range.start as int) <= chunk_index <= chunk_of(
            range.end - 1,
        ) implies #[trigger] read_chunk_of(
        ReaderView { header: stored_header(header, video), dek },
        file,
        shortage,
        chunk_index,
    ) == Ok::<Seq<u8>, CryptoErrorView>(chunk_at(video, chunk_index as int)) by {
        stored_chunk_reads_back(file, header, dek, video, shortage, chunk_index);
    }
}

/// What a partial response announces is what is sent: read back as numbers, its headers name the
/// bytes of the video that go out, and how many they are.
pub proof fn announced_bytes_are_sent(
    video: Seq<u8>,
    range: ByteRange,
    first: nat,
    last: nat,
    whole: nat,
    length: nat,
)
    requires
        video.len() <= u64::MAX,
        range.partial,
        range.start < range.end <= video.len(),
        announces(
            range_head_of(range, video.len() as u64),
            "content-range"@,
            content_range(first, last, whole),
        ),
        announces(range_head_of(range, video.len() as u64), "content-length"@, decimal(length)),
    ensures
        first <= last < whole == video.len(),
        ({
            let sent = streamed(video, range, chunk_of(range.start as int));
            &&& sent == video.subrange(first as int, last as int + 1)
            &&& sent.len() == length == last - first + 1
        }),
{
    partial_response_is_read_back(range, video.len() as u64, first, last, whole, length);
    range_is_sent(video, range);
}

/// The parts that are sent of two neighbouring ranges are, put together, what is sent of both.
pub proof fn neighbouring_ranges_join(video: Seq<u8>, first: u64, middle: u64, end: u64)
    requires
        first < middle < end <= video.len(),
    ensures
        ({
            let left = ByteRange { start: first, end: middle, partial: true };
            let right = ByteRange { start: middle, end, partial: true };
            let both = ByteRange { start: first, end, partial: true };
            streamed(video, left, chunk_of(first as int)) + streamed(
                video,
                right,
                chunk_of(middle as int),
            ) == streamed(video, both, chunk_of(first as int))
        }),
{
    range_is_sent(video, ByteRange { start: first, end: middle, partial: true });
    range_is_sent(video, ByteRange { start: middle, end, partial: true });
    range_is_sent(video, ByteRange { start: first, end, partial: true });
    assert(video.subrange(first as int, middle as int) + video.subrange(middle as int, end as int)
        =~= video.subrange(first as int, end as int));
}

} // verus!
