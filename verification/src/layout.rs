//! How a video is cut into chunks, and where the encrypted chunks stand in a file.

use vstd::arithmetic::mul::*;
use vstd::prelude::*;
use vstd::utf8::*;

use crate::cipher::{opened, sealed, NONCE_SIZE};
use crate::header::{header_bytes, HeaderView, CHUNK_SIZE};
use crate::keys::{chunk_context, is_drawn_for, labels_are_spelled_out};
use crate::text::decimal;

verus! {

/// What a record holds besides the encrypted chunk: a nonce and a tag.
pub const RECORD_OVERHEAD: u64 = 28;

/// The size of the record of a full chunk.
pub const RECORD_SIZE: u64 = 1024 * 1024 + 28;

/// The number of chunks of a video of the given size.
pub open spec fn chunk_count(size: nat) -> nat {
    ((size + CHUNK_SIZE - 1) / CHUNK_SIZE as int) as nat
}

/// Where a chunk starts in the video.
pub open spec fn chunk_start(index: int) -> int {
    index * CHUNK_SIZE
}

/// Where a chunk of a video of the given size ends in the video.
pub open spec fn chunk_end(index: int, size: int) -> int {
    if chunk_start(index + 1) <= size {
        chunk_start(index + 1)
    } else {
        size
    }
}

/// A chunk of a video.
pub open spec fn chunk_at(video: Seq<u8>, index: int) -> Seq<u8> {
    video.subrange(chunk_start(index), chunk_end(index, video.len() as int))
}

/// Where the record of a chunk starts, counted from the end of the header.
pub open spec fn record_start(index: int) -> int {
    index * RECORD_SIZE
}

/// The record of a chunk, in the part of a file that follows the header.
pub open spec fn record_at(body: Seq<u8>, index: int, chunk_len: int) -> Seq<u8> {
    body.subrange(record_start(index), record_start(index) + chunk_len + RECORD_OVERHEAD)
}

/// Whether a record is a nonce and an encryption of the given chunk, for this place in this
/// video.
pub open spec fn record_holds(
    record: Seq<u8>,
    dek: Seq<u8>,
    asset_id: Seq<char>,
    index: nat,
    chunk: Seq<u8>,
) -> bool {
    &&& record.len() == chunk.len() + RECORD_OVERHEAD
    &&& opened(
        dek,
        record.take(NONCE_SIZE as int),
        record.skip(NONCE_SIZE as int),
        chunk_context(asset_id, index),
    ) == Some(chunk)
}

/// Whether a record is a nonce that was drawn at random for this place, and what it seals the
/// given chunk to, for this place in this video.
pub open spec fn is_fresh_record(
    record: Seq<u8>,
    dek: Seq<u8>,
    asset_id: Seq<char>,
    index: nat,
    chunk: Seq<u8>,
) -> bool {
    exists|nonce: [u8; NONCE_SIZE]|
        #[trigger] is_drawn_for(nonce, index as u64) && record == nonce@ + sealed(
            dek,
            nonce@,
            chunk,
            chunk_context(asset_id, index),
        )
}

/// Whether the records of the chunks from `first` on, and before `end`, are fresh.
pub open spec fn fresh_records(
    body: Seq<u8>,
    dek: Seq<u8>,
    asset_id: Seq<char>,
    video: Seq<u8>,
    first: int,
    end: int,
) -> bool {
    forall|index: int|
        first <= index < end ==> #[trigger] is_fresh_record(
            record_at(body, index, CHUNK_SIZE as int),
            dek,
            asset_id,
            index as nat,
            chunk_at(video, index),
        )
}

/// A further fresh record leaves the records before it as they are.
pub proof fn fresh_records_extend(
    body: Seq<u8>,
    dek: Seq<u8>,
    asset_id: Seq<char>,
    video: Seq<u8>,
    first: int,
    count: nat,
    record: Seq<u8>,
    chunk: Seq<u8>,
)
    requires
        0 <= first,
        fresh_records(body, dek, asset_id, video, first, count as int),
        body.len() == record_start(count as int),
        video.len() == chunk_start(count as int),
        chunk.len() == CHUNK_SIZE,
        record.len() == RECORD_SIZE,
        is_fresh_record(record, dek, asset_id, count, chunk),
    ensures
        fresh_records(body + record, dek, asset_id, video + chunk, first, count as int + 1),
{
    let video2 = video + chunk;
    let body2 = body + record;
    assert forall|index: int| first <= index < count + 1 implies #[trigger] is_fresh_record(
        record_at(body2, index, CHUNK_SIZE as int),
        dek,
        asset_id,
        index as nat,
        chunk_at(video2, index),
    ) by {
        if index < count {
            lemma_mul_inequality(index + 1, count as int, RECORD_SIZE as int);
            lemma_mul_is_distributive_add_other_way(RECORD_SIZE as int, index, 1);
            assert(chunk_at(video2, index) =~= chunk_at(video, index));
            assert(record_at(body2, index, CHUNK_SIZE as int) =~= record_at(
                body,
                index,
                CHUNK_SIZE as int,
            ));
            assert(is_fresh_record(
                record_at(body, index, CHUNK_SIZE as int),
                dek,
                asset_id,
                index as nat,
                chunk_at(video, index),
            ));
        } else {
            assert(chunk_at(video2, index) =~= chunk);
            assert(record_at(body2, index, CHUNK_SIZE as int) =~= record);
        }
    }
}

/// Whether the part of a file that follows the header consists of the records of a video.
pub open spec fn body_holds(
    body: Seq<u8>,
    dek: Seq<u8>,
    asset_id: Seq<char>,
    video: Seq<u8>,
) -> bool {
    &&& body.len() == video.len() + chunk_count(video.len()) * RECORD_OVERHEAD
    &&& forall|index: int|
        0 <= index < chunk_count(video.len()) ==> #[trigger] record_holds(
            record_at(body, index, chunk_at(video, index).len() as int),
            dek,
            asset_id,
            index as nat,
            chunk_at(video, index),
        )
}

/// The header of a finished file of a video.
pub open spec fn finished_header(header: HeaderView, video: Seq<u8>) -> HeaderView {
    HeaderView { original_size: video.len() as u64, ..header }
}

/// Whether a file is the finished file of a video: its header, with the size of the video, and
/// the records of the video.
pub open spec fn stores(
    file: Seq<u8>,
    header: HeaderView,
    dek: Seq<u8>,
    video: Seq<u8>,
) -> bool {
    let head = header_bytes(finished_header(header, video));
    &&& video.len() <= u64::MAX
    &&& head.is_prefix_of(file)
    &&& body_holds(file.skip(head.len() as int), dek, header.asset_id, video)
}

/// A further record extends the records of a video that ends with a full chunk.
pub proof fn body_extends(
    body: Seq<u8>,
    dek: Seq<u8>,
    asset_id: Seq<char>,
    video: Seq<u8>,
    count: nat,
    record: Seq<u8>,
    chunk: Seq<u8>,
)
    requires
        body_holds(body, dek, asset_id, video),
        video.len() == chunk_start(count as int),
        0 < chunk.len() <= CHUNK_SIZE,
        record_holds(record, dek, asset_id, count, chunk),
    ensures
        body_holds(body + record, dek, asset_id, video + chunk),
        body.len() == record_start(count as int),
        chunk_count(video.len()) == count,
        chunk_count((video + chunk).len()) == count + 1,
{
    let video2 = video + chunk;
    let body2 = body + record;
    assert(chunk_count(video.len()) == count);
    assert(chunk_count(video2.len()) == count + 1);
    assert(body.len() == record_start(count as int)) by {
        lemma_mul_is_distributive_add(count as int, CHUNK_SIZE as int, RECORD_OVERHEAD as int);
    }
    lemma_mul_is_distributive_add_other_way(RECORD_OVERHEAD as int, count as int, 1);
    assert forall|index: int| 0 <= index < count + 1 implies #[trigger] record_holds(
        record_at(body2, index, chunk_at(video2, index).len() as int),
        dek,
        asset_id,
        index as nat,
        chunk_at(video2, index),
    ) by {
        if index < count {
            lemma_mul_inequality(index + 1, count as int, RECORD_SIZE as int);
            lemma_mul_is_distributive_add_other_way(RECORD_SIZE as int, index, 1);
            assert(chunk_at(video2, index) =~= chunk_at(video, index));
            assert(record_holds(
                record_at(body, index, chunk_at(video, index).len() as int),
                dek,
                asset_id,
                index as nat,
                chunk_at(video, index),
            ));
            assert(record_at(body2, index, chunk_at(video, index).len() as int) =~= record_at(
                body,
                index,
                chunk_at(video, index).len() as int,
            ));
        } else {
            assert(chunk_at(video2, index) =~= chunk);
            assert(record_at(body2, index, chunk.len() as int) =~= record);
        }
    }
}

/// A video without bytes has no records.
pub proof fn empty_body(dek: Seq<u8>, asset_id: Seq<char>)
    ensures
        body_holds(Seq::empty(), dek, asset_id, Seq::empty()),
{
}

/// A video is cut into chunks of 1 MiB: the smallest number of them that holds it. Each byte of
/// the video stands in the chunk that its position falls into, and all chunks but the last are
/// full.
pub proof fn chunks_hold_the_video(video: Seq<u8>, position: int)
    requires
        0 <= position < video.len(),
    ensures
        ({
            let count = chunk_count(video.len()) as int;
            let index = position / 1048576;
            let chunk = chunk_at(video, index);
            &&& (count - 1) * 1048576 < video.len() <= count * 1048576
            &&& 0 <= index < count
            &&& chunk[position % 1048576] == video[position]
            &&& position % 1048576 < chunk.len() <= 1048576
            &&& index < count - 1 ==> chunk.len() == 1048576
            &&& index == count - 1 ==> chunk.len() == video.len() - index * 1048576
        }),
        chunk_count(0) == 0,
{
}

/// The chunks of a video, one after the other, are the video.
pub proof fn chunks_follow_each_other(video: Seq<u8>, index: int)
    requires
        0 <= index < chunk_count(video.len()),
    ensures
        chunk_start(0) == 0,
        chunk_start(index + 1) == chunk_start(index) + 1048576,
        video.take(chunk_start(index)) + chunk_at(video, index) == video.take(
            chunk_end(index, video.len() as int),
        ),
        index + 1 == chunk_count(video.len()) ==> chunk_end(index, video.len() as int)
            == video.len(),
        index + 1 < chunk_count(video.len()) ==> chunk_end(index, video.len() as int)
            == chunk_start(index + 1),
{
    assert(video.take(chunk_start(index)) + chunk_at(video, index) =~= video.take(
        chunk_end(index, video.len() as int),
    ));
}

/// What a finished file consists of, byte by byte: behind the header a record for each MiB of the
/// video, each of them of 12 bytes of nonce and the encrypted part of the video with a tag of 16
/// bytes, which opens with the key of the video and for this place in this video only.
pub proof fn stored_chunks_stand_in_their_place(
    file: Seq<u8>,
    header: HeaderView,
    dek: Seq<u8>,
    video: Seq<u8>,
    index: int,
)
    requires
        stores(file, header, dek, video),
        0 <= index,
        index * 1048576 < video.len(),
    ensures
        ({
            let head = header_bytes(HeaderView { original_size: video.len() as u64, ..header });
            let first = index * 1048576;
            let end = if first + 1048576 <= video.len() {
                first + 1048576
            } else {
                video.len() as int
            };
            let nonce = head.len() + index * 1048604;
            let label = "my-tauri-app:chunk:v1:"@ + header.asset_id + ":"@ + decimal(
                index as nat,
            );
            &&& file.take(head.len() as int) == head
            &&& nonce + 28 + (end - first) <= file.len()
            &&& opened(
                dek,
                file.subrange(nonce, nonce + 12),
                file.subrange(nonce + 12, nonce + 28 + (end - first)),
                encode_utf8(label),
            ) == Some(video.subrange(first, end))
            &&& end == video.len() ==> nonce + 28 + (end - first) == file.len()
        }),
{
    let head = header_bytes(finished_header(header, video));
    let body = file.skip(head.len() as int);
    let chunk = chunk_at(video, index);
    let record = record_at(body, index, chunk.len() as int);
    let count = chunk_count(video.len()) as int;
    let nonce = head.len() + index * 1048604;
    assert(index < count);
    assert(record_holds(record, dek, header.asset_id, index as nat, chunk));
    labels_are_spelled_out(header.asset_id, Seq::empty(), index as nat);
    assert(file.take(head.len() as int) =~= head);
    assert(record_start(index) == index * 1048604);
    assert(body.len() == video.len() + count * 28);
    assert(file.subrange(nonce, nonce + 12) =~= record.take(12));
    assert(file.subrange(nonce + 12, nonce + 28 + chunk.len()) =~= record.skip(12));
}

} // verus!
