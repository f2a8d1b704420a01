//! The addresses under which videos are played.

use vstd::prelude::*;
use vstd::string::*;
use vstd::utf8::*;

use crate::text::{
    chars_of, decimal, decimal_string, is_hex_digit, same_text, string_of,
};

verus! {

/// The number of characters of a session's name.
pub const SESSION_ID_LEN: usize = 64;

/// A text without the slashes that it starts with.
pub open spec fn without_leading_slashes(path: Seq<char>) -> Seq<char>
    decreases path.len(),
{
    if path.len() > 0 && path[0] == '/' {
        without_leading_slashes(path.drop_first())
    } else {
        path
    }
}

/// The parts of a text between its slashes.
pub open spec fn segments(text: Seq<char>) -> Seq<Seq<char>>
    decreases text.len(),
{
    if text.len() == 0 {
        seq![Seq::empty()]
    } else {
        let before = segments(text.drop_last());
        if text.last() == '/' {
            before.push(Seq::empty())
        } else {
            before.drop_last().push(before.last().push(text.last()))
        }
    }
}

/// The segments of the path of a request.
pub open spec fn path_segments(path: Seq<char>) -> Seq<Seq<char>> {
    segments(without_leading_slashes(path))
}

/// Whether a text consists of hexadecimal digits.
pub open spec fn all_hex(text: Seq<char>) -> bool {
    forall|i: int| 0 <= i < text.len() ==> is_hex_digit(#[trigger] text[i])
}

/// Whether a text can be the name of a session.
pub open spec fn is_session_id(text: Seq<char>) -> bool {
    text.len() == SESSION_ID_LEN && all_hex(text)
}

/// The session that a path names, if it is the path of a video.
pub open spec fn routed(path: Seq<char>) -> Option<Seq<char>> {
    let parts = path_segments(path);
    if parts.len() == 3 && parts[0] == "playback"@ && parts[2] == "video.mp4"@ && is_session_id(
        parts[1],
    ) {
        Some(parts[1])
    } else {
        None
    }
}

/// The path of the video of a session.
pub open spec fn video_path(session_id: Seq<char>) -> Seq<char> {
    "/playback/"@ + session_id + "/video.mp4"@
}

/// A truth value as a text.
pub open spec fn truth_text(truth: bool) -> Seq<char> {
    if truth {
        "true"@
    } else {
        "false"@
    }
}

/// What is logged of a path that is not the path of a video: its shape, and not the path.
pub open spec fn shape_of(path: Seq<char>) -> Seq<char> {
    let parts = path_segments(path);
    let token = if parts.len() > 1 {
        parts[1]
    } else {
        Seq::empty()
    };
    "segment_count="@ + decimal(parts.len()) + " prefix_ok="@ + truth_text(
        parts[0] == "playback"@,
    ) + " token_length="@ + decimal(encode_utf8(token).len()) + " token_hex="@ + truth_text(
        token.len() > 0 && all_hex(token),
    ) + " filename_ok="@ + truth_text(parts.len() > 2 && parts[2] == "video.mp4"@)
        + " exact_shape="@ + truth_text(parts.len() == 3)
}

proof fn segments_are_some(text: Seq<char>)
    ensures
        0 < segments(text).len() <= text.len() + 1,
    decreases text.len(),
{
    if text.len() > 0 {
        segments_are_some(text.drop_last());
    }
}

/// Drops the slashes that a text starts with.
fn trim_leading_slashes(text: &[char]) -> (rest: &[char])
    ensures
        rest@ == without_leading_slashes(text@),
{
    let mut i: usize = 0;
    assert(text@.skip(0) =~= text@);
    while i < text.len() && text[i] == '/'
        invariant
            i <= text.len(),
            without_leading_slashes(text@) == without_leading_slashes(text@.skip(i as int)),
        decreases text.len() - i,
    {
        assert(text@.skip(i as int).drop_first() =~= text@.skip(i + 1));
        i = i + 1;
    }
    let rest = &text[i..text.len()];
    assert(rest@ =~= text@.skip(i as int));
    rest
}

/// Splits a text at its slashes.
fn split_at_slashes(text: &[char]) -> (parts: Vec<Vec<char>>)
    ensures
        parts@.len() == segments(text@).len(),
        parts@.len() > 0,
        forall|i: int| 0 <= i < parts@.len() ==> (#[trigger] parts@[i])@ == segments(text@)[i],
{
    let mut done: Vec<Vec<char>> = Vec::new();
    let mut current: Vec<char> = Vec::new();
    let mut i: usize = 0;
    while i < text.len()
        invariant
            i <= text.len(),
            segments(text@.take(i as int)).len() == done@.len() + 1,
            forall|k: int|
                0 <= k < done@.len() ==> (#[trigger] done@[k])@ == segments(
                    text@.take(i as int),
                )[k],
            current@ == segments(text@.take(i as int)).last(),
        decreases text.len() - i,
    {
        let c = text[i];
        proof {
            segments_are_some(text@.take(i as int));
            assert(text@.take(i + 1).drop_last() =~= text@.take(i as int));
            assert(text@.take(i + 1).last() == c);
        }
        if c == '/' {
            done.push(current);
            current = Vec::new();
        } else {
            current.push(c);
        }
        i = i + 1;
    }
    assert(text@.take(i as int) =~= text@);
    done.push(current);
    done
}

/// Whether a text consists of hexadecimal digits.
fn is_all_hex(text: &[char]) -> (answer: bool)
    ensures
        answer == all_hex(text@),
{
    let mut i: usize = 0;
    while i < text.len()
        invariant
            i <= text.len(),
            forall|k: int| 0 <= k < i ==> is_hex_digit(#[trigger] text@[k]),
        decreases text.len() - i,
    {
        let c = text[i];
        if !(('0' <= c && c <= '9') || ('a' <= c && c <= 'f') || ('A' <= c && c <= 'F')) {
            assert(!is_hex_digit(text@[i as int]));
            return false;
        }
        i = i + 1;
    }
    true
}

/// The session that a path names, if it is the path of a video.
pub fn parse_path(path: &str) -> (session_id: Option<String>)
    ensures
        match session_id {
            Some(id) => routed(path@) == Some(id@),
            None => routed(path@) is None,
        },
{
    let chars = chars_of(path);
    let parts = split_at_slashes(trim_leading_slashes(chars.as_slice()));
    if parts.len() != 3 || !same_text(string_of(parts[0].as_slice()).as_str(), "playback") {
        return None;
    }
    if parts[1].len() != SESSION_ID_LEN || !is_all_hex(parts[1].as_slice()) {
        return None;
    }
    if !same_text(string_of(parts[2].as_slice()).as_str(), "video.mp4") {
        return None;
    }
    Some(string_of(parts[1].as_slice()))
}

fn append_truth(text: &mut String, truth: bool)
    ensures
        final(text)@ == old(text)@ + truth_text(truth),
{
    if truth {
        text.append("true");
    } else {
        text.append("false");
    }
}

/// What is logged of a path that is not the path of a video: its shape, and not the path.
pub fn path_shape(path: &str) -> (shape: String)
    ensures
        shape@ == shape_of(path@),
{
    let chars = chars_of(path);
    let parts = split_at_slashes(trim_leading_slashes(chars.as_slice()));
    let token = if parts.len() > 1 {
        string_of(parts[1].as_slice())
    } else {
        String::new()
    };
    let token_chars = chars_of(token.as_str());
    let prefix_ok = same_text(string_of(parts[0].as_slice()).as_str(), "playback");
    let filename_ok = parts.len() > 2 && same_text(
        string_of(parts[2].as_slice()).as_str(),
        "video.mp4",
    );
    let ghost segments_seen = path_segments(path@);
    assert(token@ =~= if segments_seen.len() > 1 {
        segments_seen[1]
    } else {
        Seq::empty()
    });
    let mut shape = String::from_str("segment_count=");
    shape.append(decimal_string(parts.len() as u64).as_str());
    shape.append(" prefix_ok=");
    append_truth(&mut shape, prefix_ok);
    shape.append(" token_length=");
    shape.append(decimal_string(token.as_str().as_bytes().len() as u64).as_str());
    shape.append(" token_hex=");
    append_truth(&mut shape, token_chars.len() > 0 && is_all_hex(token_chars.as_slice()));
    shape.append(" filename_ok=");
    append_truth(&mut shape, filename_ok);
    shape.append(" exact_shape=");
    append_truth(&mut shape, parts.len() == 3);
    shape
}

/// The hexadecimal digit of a value.
pub open spec fn hex_char(value: int) -> char {
    if value < 10 {
        ('0' as int + value) as char
    } else {
        ('a' as int + value - 10) as char
    }
}

/// Bytes in hexadecimal notation: two lower-case digits each.
pub open spec fn hex_text(bytes: Seq<u8>) -> Seq<char> {
    Seq::new(
        2 * bytes.len(),
        |i: int|
            if i % 2 == 0 {
                hex_char(bytes[i / 2] as int / 16)
            } else {
                hex_char(bytes[i / 2] as int % 16)
            },
    )
}

/// Hexadecimal notation has two digits for each byte, and no upper-case letter.
pub proof fn hex_text_is_lower_case(bytes: Seq<u8>)
    ensures
        hex_text(bytes).len() == 2 * bytes.len(),
        all_hex(hex_text(bytes)),
        forall|i: int|
            0 <= i < hex_text(bytes).len() ==> !('A' <= #[trigger] hex_text(bytes)[i] <= 'F'),
{
}

fn hex_digit(value: u8) -> (digit: char)
    requires
        value < 16,
    ensures
        digit == hex_char(value as int),
{
    if value < 10 {
        (48u8 + value) as char
    } else {
        (87u8 + value) as char
    }
}

/// The name of a session, made of random bytes.
pub fn session_id_from_bytes(bytes: &[u8; 32]) -> (session_id: String)
    ensures
        session_id@ == hex_text(bytes@),
        is_session_id(session_id@),
{
    let mut text = String::new();
    let mut i: usize = 0;
    while i < 32
        invariant
            i <= 32,
            bytes@.len() == 32,
            text@ == hex_text(bytes@).take(2 * i as int),
        decreases 32 - i,
    {
        text.push(hex_digit(bytes[i] / 16));
        text.push(hex_digit(bytes[i] % 16));
        i = i + 1;
        assert(text@ =~= hex_text(bytes@).take(2 * i as int));
    }
    assert(text@ =~= hex_text(bytes@));
    text
}

/// Where the videos are served.
pub struct PlaybackServer {
    pub port: u16,
}

/// The address of the video of a session.
pub open spec fn video_url(port: u16, session_id: Seq<char>) -> Seq<char> {
    "http://127.0.0.1:"@ + decimal(port as nat) + video_path(session_id)
}

impl PlaybackServer {
    /// The address of the video of a session.
    pub fn url_for(&self, session_id: &str) -> (url: String)
        ensures
            url@ == video_url(self.port, session_id@),
    {
        let mut url = String::from_str("http://127.0.0.1:");
        url.append(decimal_string(self.port as u64).as_str());
        url.append("/playback/");
        url.append(session_id);
        url.append("/video.mp4");
        assert(url@ =~= video_url(self.port, session_id@));
        url
    }
}

proof fn segment_without_slash(text: Seq<char>)
    requires
        !text.contains('/'),
    ensures
        segments(text) == seq![text],
    decreases text.len(),
{
    if text.len() > 0 {
        let rest = text.drop_last();
        assert(!rest.contains('/')) by {
            if rest.contains('/') {
                let i = choose|i: int| 0 <= i < rest.len() && rest[i] == '/';
                assert(text[i] == '/');
            }
        }
        segment_without_slash(rest);
        assert(text[text.len() - 1] != '/');
        assert(rest.push(text.last()) =~= text);
        assert(segments(text) =~= seq![text]);
    } else {
        assert(text =~= Seq::empty());
    }
}

proof fn segments_of_joined(before: Seq<char>, after: Seq<char>)
    ensures
        segments(before + seq!['/'] + after) == segments(before) + segments(after),
    decreases after.len(),
{
    let whole = before + seq!['/'] + after;
    segments_are_some(before);
    if after.len() == 0 {
        assert(whole.drop_last() =~= before);
        assert(segments(whole) =~= segments(before) + segments(after));
    } else {
        segments_of_joined(before, after.drop_last());
        segments_are_some(after.drop_last());
        assert(whole.drop_last() =~= before + seq!['/'] + after.drop_last());
        assert(whole.last() == after.last());
        let head = segments(before);
        let tail = segments(after.drop_last());
        assert((head + tail).drop_last() =~= head + tail.drop_last());
        assert((head + tail).last() == tail.last());
        assert(segments(whole) =~= head + segments(after));
    }
}

/// The path of the video of a session leads to that session.
pub proof fn video_path_is_routed(session_id: Seq<char>)
    requires
        is_session_id(session_id),
    ensures
        routed(video_path(session_id)) == Some(session_id),
{
    reveal_strlit("/playback/");
    reveal_strlit("/video.mp4");
    reveal_strlit("playback");
    reveal_strlit("video.mp4");
    let path = video_path(session_id);
    let first = "playback"@;
    let last = "video.mp4"@;
    let rest = first + seq!['/'] + session_id + seq!['/'] + last;
    assert(path[0] == '/');
    assert(path.drop_first() =~= rest);
    assert(rest[0] == 'p');
    assert(without_leading_slashes(rest) == rest);
    assert(!session_id.contains('/')) by {
        if session_id.contains('/') {
            let i = choose|i: int| 0 <= i < session_id.len() && session_id[i] == '/';
            assert(is_hex_digit(session_id[i]));
        }
    }
    segments_of_joined(first + seq!['/'] + session_id, last);
    segments_of_joined(first, session_id);
    segment_without_slash(first);
    segment_without_slash(session_id);
    segment_without_slash(last);
    assert(segments(rest) =~= seq![first, session_id, last]);
}

proof fn hex_chars_are_distinct(value1: int, value2: int)
    requires
        0 <= value1 < 16,
        0 <= value2 < 16,
        hex_char(value1) == hex_char(value2),
    ensures
        value1 == value2,
{
}

/// Different bytes make different names of sessions.
pub proof fn session_names_are_distinct(bytes1: Seq<u8>, bytes2: Seq<u8>)
    requires
        hex_text(bytes1) == hex_text(bytes2),
    ensures
        bytes1 == bytes2,
{
    assert(hex_text(bytes1).len() == 2 * bytes1.len());
    assert(hex_text(bytes2).len() == 2 * bytes2.len());
    assert forall|i: int| 0 <= i < bytes1.len() implies bytes1[i] == bytes2[i] by {
        let high = 2 * i;
        let low = 2 * i + 1;
        assert(high / 2 == i && high % 2 == 0 && low / 2 == i && low % 2 == 1);
        assert(hex_text(bytes1)[high] == hex_char(bytes1[i] as int / 16));
        assert(hex_text(bytes2)[high] == hex_char(bytes2[i] as int / 16));
        assert(hex_text(bytes1)[low] == hex_char(bytes1[i] as int % 16));
        assert(hex_text(bytes2)[low] == hex_char(bytes2[i] as int % 16));
        hex_chars_are_distinct(bytes1[i] as int / 16, bytes2[i] as int / 16);
        hex_chars_are_distinct(bytes1[i] as int % 16, bytes2[i] as int % 16);
    }
    assert(bytes1 =~= bytes2);
}

/// Texts with a slash between each and the next.
pub open spec fn joined(parts: Seq<Seq<char>>) -> Seq<char>
    decreases parts.len(),
{
    if parts.len() == 0 {
        Seq::empty()
    } else if parts.len() == 1 {
        parts[0]
    } else {
        joined(parts.drop_last()) + seq!['/'] + parts.last()
    }
}

/// The segments of a text, joined by slashes, are the text.
pub proof fn segments_join(text: Seq<char>)
    ensures
        joined(segments(text)) == text,
        forall|i: int| 0 <= i < segments(text).len() ==> !(#[trigger] segments(text)[i]).contains(
            '/',
        ),
    decreases text.len(),
{
    if text.len() == 0 {
        assert(joined(segments(text)) =~= text);
    } else {
        let rest = text.drop_last();
        let before = segments(rest);
        let whole = segments(text);
        segments_join(rest);
        segments_are_some(rest);
        assert(rest.push(text.last()) =~= text);
        if text.last() == '/' {
            assert(whole.drop_last() =~= before);
            assert(joined(whole) =~= text);
        } else {
            assert(whole.drop_last() =~= before.drop_last());
            assert(joined(whole) =~= joined(before).push(text.last()));
            assert forall|i: int| 0 <= i < whole.len() implies !(#[trigger] whole[i]).contains(
                '/',
            ) by {
                if i < before.len() - 1 {
                    assert(whole[i] == before[i]);
                } else {
                    assert(whole[i] == before[i].push(text.last()));
                    assert(!before[i].contains('/'));
                    if whole[i].contains('/') {
                        let j = choose|j: int| 0 <= j < whole[i].len() && whole[i][j] == '/';
                        assert(before[i][j] == '/');
                    }
                }
            }
        }
    }
}

/// Texts without slashes, joined by slashes, are the segments of what they make.
pub proof fn joined_segments_split(parts: Seq<Seq<char>>)
    requires
        parts.len() > 0,
        forall|i: int| 0 <= i < parts.len() ==> !(#[trigger] parts[i]).contains('/'),
    ensures
        segments(joined(parts)) == parts,
    decreases parts.len(),
{
    assert(!parts[parts.len() - 1].contains('/'));
    segment_without_slash(parts.last());
    if parts.len() == 1 {
        assert(seq![parts[0]] =~= parts);
    } else {
        let rest = parts.drop_last();
        assert forall|i: int| 0 <= i < rest.len() implies !(#[trigger] rest[i]).contains('/') by {
            assert(rest[i] == parts[i]);
        }
        joined_segments_split(rest);
        segments_of_joined(joined(rest), parts.last());
        assert(rest + seq![parts.last()] =~= parts);
    }
}

/// So many slashes.
pub open spec fn slashes(count: nat) -> Seq<char> {
    Seq::new(count, |i: int| '/')
}

/// Slashes at the start of a text are dropped, and nothing else.
proof fn leading_slashes_are_dropped(count: nat, rest: Seq<char>)
    requires
        rest.len() > 0 ==> rest[0] != '/',
    ensures
        without_leading_slashes(slashes(count) + rest) == rest,
    decreases count,
{
    let text = slashes(count) + rest;
    if count == 0 {
        assert(text =~= rest);
    } else {
        assert(text[0] == '/');
        assert(text.drop_first() =~= slashes((count - 1) as nat) + rest);
        leading_slashes_are_dropped((count - 1) as nat, rest);
    }
}

proof fn dropped_slashes_are_slashes(path: Seq<char>) -> (count: nat)
    ensures
        path == slashes(count) + without_leading_slashes(path),
    decreases path.len(),
{
    if path.len() > 0 && path[0] == '/' {
        let rest = path.drop_first();
        let count = dropped_slashes_are_slashes(rest);
        assert(path =~= seq!['/'] + rest);
        assert(slashes(count + 1) =~= seq!['/'] + slashes(count));
        assert(path =~= slashes(count + 1) + without_leading_slashes(path));
        count + 1
    } else {
        assert(path =~= slashes(0) + path);
        0
    }
}

/// A text of hexadecimal digits holds nothing but these characters.
pub proof fn hexadecimal_digits_are_known(text: Seq<char>)
    ensures
        all_hex(text) <==> forall|i: int|
            0 <= i < text.len() ==> "0123456789abcdefABCDEF"@.contains(#[trigger] text[i]),
{
    let digits = "0123456789abcdefABCDEF"@;
    reveal_strlit("0123456789abcdefABCDEF");
    assert forall|i: int| 0 <= i < text.len() implies is_hex_digit(#[trigger] text[i])
        == digits.contains(text[i]) by {
        let c = text[i];
        if is_hex_digit(c) {
            let at: int = if '0' <= c <= '9' {
                c as int - '0' as int
            } else if 'a' <= c <= 'f' {
                10 + c as int - 'a' as int
            } else {
                16 + c as int - 'A' as int
            };
            assert(digits[at] == c);
        }
        if digits.contains(c) {
            let at = choose|at: int| 0 <= at < digits.len() && digits[at] == c;
            assert(is_hex_digit(digits[at]));
        }
    }
}

/// A path with the name of a session in it leads to that session, however many slashes it starts
/// with.
pub proof fn leading_slashes_do_not_matter(count: nat, session_id: Seq<char>)
    requires
        session_id.len() == 64,
        all_hex(session_id),
    ensures
        routed(slashes(count) + "playback/"@ + session_id + "/video.mp4"@) == Some(session_id),
{
    reveal_strlit("/playback/");
    reveal_strlit("playback/");
    reveal_strlit("/video.mp4");
    let rest = "playback/"@ + session_id + "/video.mp4"@;
    let path = slashes(count) + "playback/"@ + session_id + "/video.mp4"@;
    assert(path =~= slashes(count) + rest);
    assert(rest[0] == 'p');
    leading_slashes_are_dropped(count, rest);
    leading_slashes_are_dropped(1, rest);
    assert(video_path(session_id) =~= slashes(1) + rest);
    video_path_is_routed(session_id);
}

/// Only such a path leads to a session: slashes, the fixed name, a session's name of 64
/// hexadecimal digits, and the name of the file, with nothing before, between or after them.
pub proof fn only_video_paths_are_routed(path: Seq<char>)
    ensures
        routed(path) matches Some(session_id) ==> {
            &&& session_id.len() == 64
            &&& all_hex(session_id)
            &&& exists|count: nat|
                path == #[trigger] slashes(count) + "playback/"@ + session_id + "/video.mp4"@
        },
{
    let count = dropped_slashes_are_slashes(path);
    if let Some(session_id) = routed(path) {
        reveal_strlit("playback");
        reveal_strlit("playback/");
        reveal_strlit("video.mp4");
        reveal_strlit("/video.mp4");
        let rest = without_leading_slashes(path);
        let parts = segments(rest);
        segments_join(rest);
        reveal_with_fuel(joined, 3);
        assert(parts.drop_last().drop_last()[0] == parts[0]);
        assert(parts.drop_last().last() == parts[1]);
        assert(rest == "playback"@ + seq!['/'] + session_id + seq!['/'] + "video.mp4"@);
        assert("playback"@ + seq!['/'] =~= "playback/"@);
        assert(seq!['/'] + "video.mp4"@ =~= "/video.mp4"@);
        assert(rest =~= "playback/"@ + session_id + "/video.mp4"@);
        assert(path =~= slashes(count) + "playback/"@ + session_id + "/video.mp4"@);
    }
}

/// The value of a hexadecimal digit in lower case.
pub open spec fn hex_value(digit: char) -> int {
    if '0' <= digit <= '9' {
        digit as int - '0' as int
    } else {
        digit as int - 'a' as int + 10
    }
}

/// Hexadecimal notation can be read back: the digits of each byte, the high one first, give the
/// byte.
pub proof fn hexadecimal_reads_back(bytes: Seq<u8>, i: int)
    requires
        0 <= i < bytes.len(),
    ensures
        hex_text(bytes).len() == 2 * bytes.len(),
        hex_value(hex_text(bytes)[2 * i]) * 16 + hex_value(hex_text(bytes)[2 * i + 1]) == bytes[i],
        0 <= hex_value(hex_text(bytes)[2 * i]) < 16,
        0 <= hex_value(hex_text(bytes)[2 * i + 1]) < 16,
{
    assert((2 * i) / 2 == i && (2 * i) % 2 == 0);
    assert((2 * i + 1) / 2 == i && (2 * i + 1) % 2 == 1);
}

/// The address of the video of a session is one on this machine, at the port of the server, and
/// its path leads to the session.
pub proof fn address_leads_to_the_session(port: u16, session_id: Seq<char>)
    requires
        session_id.len() == 64,
        all_hex(session_id),
    ensures
        ({
            let url = video_url(port, session_id);
            let path_starts = 17 + decimal(port as nat).len();
            &&& url.take(17) == "http://127.0.0.1:"@
            &&& url.subrange(17, path_starts as int) == decimal(port as nat)
            &&& url.skip(path_starts as int) == "/playback/"@ + session_id + "/video.mp4"@
            &&& routed(url.skip(path_starts as int)) == Some(session_id)
        }),
{
    reveal_strlit("http://127.0.0.1:");
    let url = video_url(port, session_id);
    let path_starts = 17 + decimal(port as nat).len() as int;
    assert("http://127.0.0.1:"@.len() == 17);
    assert(url.take(17) =~= "http://127.0.0.1:"@);
    assert(url.subrange(17, path_starts) =~= decimal(port as nat));
    assert(url.skip(path_starts) =~= video_path(session_id));
    video_path_is_routed(session_id);
}

/// What is logged of a path are counts and truth values of its segments: how many there are,
/// whether the first and the third are those of a video, and how long the second is and whether
/// it is hexadecimal.
pub proof fn shape_tells_of_the_segments(count: nat, parts: Seq<Seq<char>>)
    requires
        parts.len() > 0,
        forall|i: int| 0 <= i < parts.len() ==> !(#[trigger] parts[i]).contains('/'),
        parts[0].len() > 0 || parts.len() == 1,
    ensures
        ({
            let shape = shape_of(slashes(count) + joined(parts));
            &&& parts.len() == 1 ==> shape == "segment_count="@ + decimal(1) + " prefix_ok="@
                + truth_text(parts[0] == "playback"@) + " token_length="@ + decimal(0)
                + " token_hex="@ + "false"@ + " filename_ok="@ + "false"@ + " exact_shape="@
                + "false"@
            &&& parts.len() == 2 ==> shape == "segment_count="@ + decimal(2) + " prefix_ok="@
                + truth_text(parts[0] == "playback"@) + " token_length="@ + decimal(
                encode_utf8(parts[1]).len(),
            ) + " token_hex="@ + truth_text(parts[1].len() > 0 && all_hex(parts[1]))
                + " filename_ok="@ + "false"@ + " exact_shape="@ + "false"@
            &&& parts.len() >= 3 ==> shape == "segment_count="@ + decimal(parts.len())
                + " prefix_ok="@ + truth_text(parts[0] == "playback"@) + " token_length="@
                + decimal(encode_utf8(parts[1]).len()) + " token_hex="@ + truth_text(
                parts[1].len() > 0 && all_hex(parts[1]),
            ) + " filename_ok="@ + truth_text(parts[2] == "video.mp4"@) + " exact_shape="@
                + truth_text(parts.len() == 3)
        }),
        truth_text(true) == "true"@,
        truth_text(false) == "false"@,
{
    joined_starts_with_its_first(parts);
    joined_segments_split(parts);
    assert(!parts[0].contains('/'));
    if parts[0].len() > 0 {
        assert(parts[0][0] != '/') by {
            if parts[0][0] == '/' {
                assert(parts[0].contains('/'));
            }
        }
    }
    leading_slashes_are_dropped(count, joined(parts));
    if parts.len() == 1 {
        assert(encode_utf8(Seq::<char>::empty()).len() == 0);
    }
}

proof fn joined_starts_with_its_first(parts: Seq<Seq<char>>)
    requires
        parts.len() > 0,
    ensures
        parts[0].is_prefix_of(joined(parts)),
        parts.len() == 1 ==> joined(parts) == parts[0],
    decreases parts.len(),
{
    if parts.len() > 1 {
        joined_starts_with_its_first(parts.drop_last());
    }
}

} // verus!
