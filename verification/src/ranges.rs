//! Byte ranges of a video, as requests ask for them.

use vstd::prelude::*;
use vstd::string::*;

use crate::text::{
    chars_of, decimal, decimal_is_digits, digits_number, is_digit, numbers_are_read, parse_u64,
    parsed_u64,
};

verus! {

/// A part of a video: its first byte, the byte after its last, and whether a part was asked for
/// at all.
#[derive(Debug, Clone, Copy, PartialEq, Eq, Structural)]
pub struct ByteRange {
    pub start: u64,
    pub end: u64,
    pub partial: bool,
}

/// A range as it is asked for.
pub enum RangeSpec {
    /// The last bytes, that many of them.
    Suffix(u64),
    /// From a byte to the end.
    From(u64),
    /// From a byte to a byte, both included.
    Between(u64, u64),
}

/// What stands before and after the first occurrence of a character.
pub open spec fn split_once(text: Seq<char>, separator: char) -> Option<(Seq<char>, Seq<char>)> {
    match text.index_of_first(separator) {
        Some(i) => Some((text.take(i), text.skip(i + 1))),
        None => None,
    }
}

/// The range that a header asks for, if it asks for one range of bytes.
pub open spec fn range_spec(value: Seq<char>) -> Option<RangeSpec> {
    let unit = "bytes="@;
    let spec = value.skip(unit.len() as int);
    if !unit.is_prefix_of(value) || spec.contains(',') {
        None
    } else {
        match split_once(spec, '-') {
            None => None,
            Some((start, end)) => if start.len() == 0 {
                match parsed_u64(end) {
                    None => None,
                    Some(count) => Some(RangeSpec::Suffix(count)),
                }
            } else {
                match (parsed_u64(start), end.len() == 0, parsed_u64(end)) {
                    (Some(first), true, _) => Some(RangeSpec::From(first)),
                    (Some(first), false, Some(last)) => Some(RangeSpec::Between(first, last)),
                    _ => None,
                }
            },
        }
    }
}

/// The part of a video of the given size that a range stands for, if there is any.
pub open spec fn resolved(spec: RangeSpec, size: u64) -> Option<ByteRange> {
    match spec {
        RangeSpec::Suffix(count) => if size > 0 && count > 0 {
            let start = if count < size {
                (size - count) as u64
            } else {
                0
            };
            Some(ByteRange { start, end: size, partial: true })
        } else {
            None
        },
        RangeSpec::From(first) => if first < size {
            Some(ByteRange { start: first, end: size, partial: true })
        } else {
            None
        },
        RangeSpec::Between(first, last) => if first < size && first <= last {
            let end = if last < size {
                (last + 1) as u64
            } else {
                size
            };
            Some(ByteRange { start: first, end, partial: true })
        } else {
            None
        },
    }
}

/// The part of a video that a request gets: the whole video, where it asks for no range.
pub open spec fn wanted_range(value: Option<Seq<char>>, size: u64) -> Option<ByteRange> {
    match value {
        None => if size > 0 {
            Some(ByteRange { start: 0, end: size, partial: false })
        } else {
            None
        },
        Some(value) => match range_spec(value) {
            None => None,
            Some(spec) => resolved(spec, size),
        },
    }
}

/// An optional text as an optional sequence.
pub open spec fn seen_text(value: Option<&str>) -> Option<Seq<char>> {
    match value {
        None => None,
        Some(text) => Some(text@),
    }
}

/// Where a character occurs first.
fn position_of(text: &[char], wanted: char) -> (position: Option<usize>)
    ensures
        match position {
            Some(i) => text@.index_of_first(wanted) == Some(i as int) && i < text@.len(),
            None => text@.index_of_first(wanted) is None && !text@.contains(wanted),
        },
{
    let mut i: usize = 0;
    while i < text.len()
        invariant
            i <= text.len(),
            forall|k: int| 0 <= k < i ==> #[trigger] text@[k] != wanted,
        decreases text.len() - i,
    {
        if text[i] == wanted {
            proof {
                text@.index_of_first_ensures(wanted);
                assert(text@.contains(wanted));
            }
            return Some(i);
        }
        i = i + 1;
    }
    proof {
        text@.index_of_first_ensures(wanted);
    }
    None
}

/// Whether a text starts with another.
fn starts_with(text: &[char], start: &[char]) -> (answer: bool)
    ensures
        answer == start@.is_prefix_of(text@),
{
    if text.len() < start.len() {
        return false;
    }
    let mut i: usize = 0;
    while i < start.len()
        invariant
            i <= start.len() <= text.len(),
            forall|k: int| 0 <= k < i ==> #[trigger] text@[k] == start@[k],
        decreases start.len() - i,
    {
        if text[i] != start[i] {
            assert(text@.take(start@.len() as int)[i as int] != start@[i as int]);
            return false;
        }
        i = i + 1;
    }
    assert(start@ =~= text@.subrange(0, start@.len() as int));
    true
}

/// Reads the range that a header asks for.
fn read_range_spec(value: &str) -> (spec: Option<RangeSpec>)
    ensures
        spec == range_spec(value@),
{
    let chars = chars_of(value);
    let unit = chars_of("bytes=");
    if !starts_with(chars.as_slice(), unit.as_slice()) {
        return None;
    }
    let spec = &chars.as_slice()[unit.len()..chars.len()];
    assert(spec@ =~= value@.skip("bytes="@.len() as int));
    if position_of(spec, ',').is_some() {
        proof {
            spec@.index_of_first_ensures(',');
        }
        return None;
    }
    let dash: usize = match position_of(spec, '-') {
        Some(i) => i,
        None => {
            return None;
        },
    };
    let start = &spec[0..dash];
    let end = &spec[dash + 1..spec.len()];
    assert(start@ =~= spec@.take(dash as int));
    assert(end@ =~= spec@.skip(dash + 1));
    if start.len() == 0 {
        return match parse_u64(end) {
            Some(count) => Some(RangeSpec::Suffix(count)),
            None => None,
        };
    }
    let first: u64 = match parse_u64(start) {
        Some(first) => first,
        None => {
            return None;
        },
    };
    if end.len() == 0 {
        return Some(RangeSpec::From(first));
    }
    match parse_u64(end) {
        Some(last) => Some(RangeSpec::Between(first, last)),
        None => None,
    }
}

/// The part of a video of the given size that a request gets, by its range header.
pub fn parse_range(value: Option<&str>, size: u64) -> (outcome: Result<ByteRange, ()>)
    ensures
        match outcome {
            Ok(range) => wanted_range(seen_text(value), size) == Some(range),
            Err(()) => wanted_range(seen_text(value), size) is None,
        },
{
    if size == 0 {
        return Err(());
    }
    let value = match value {
        Some(value) => value,
        None => {
            return Ok(ByteRange { start: 0, end: size, partial: false });
        },
    };
    match read_range_spec(value) {
        Some(RangeSpec::Suffix(count)) => {
            if count == 0 {
                return Err(());
            }
            Ok(ByteRange { start: size.saturating_sub(count), end: size, partial: true })
        },
        Some(RangeSpec::From(first)) => {
            if first >= size {
                return Err(());
            }
            Ok(ByteRange { start: first, end: size, partial: true })
        },
        Some(RangeSpec::Between(first, last)) => {
            if first >= size {
                return Err(());
            }
            let end: u64 = if last < size {
                last + 1
            } else {
                size
            };
            if end <= first {
                return Err(());
            }
            Ok(ByteRange { start: first, end, partial: true })
        },
        None => Err(()),
    }
}

/// A range that a request gets is not empty, lies in the video, and is the whole video where
/// no range was asked for.
pub proof fn wanted_range_is_inside(value: Option<Seq<char>>, size: u64)
    ensures
        match wanted_range(value, size) {
            Some(range) => {
                &&& range.start < range.end <= size
                &&& range.partial == value is Some
                &&& !range.partial ==> range.start == 0 && range.end == size
            },
            None => true,
        },
{
}

/// Nothing can be asked of a video without bytes.
pub proof fn empty_video_has_no_range(value: Option<Seq<char>>)
    ensures
        wanted_range(value, 0) is None,
{
}

/// A range of bytes in the usual notation, from a byte to a byte, is read as it is meant.
pub proof fn range_notation_is_read(first: u64, last: u64)
    ensures
        range_spec("bytes="@ + decimal(first as nat) + "-"@ + decimal(last as nat)) == Some(
            RangeSpec::Between(first, last),
        ),
{
    let unit = "bytes="@;
    let start = decimal(first as nat);
    let end = decimal(last as nat);
    let value = unit + start + "-"@ + end;
    reveal_strlit("bytes=");
    reveal_strlit("-");
    decimal_is_digits(first as nat);
    decimal_is_digits(last as nat);
    let spec = value.skip(unit.len() as int);
    assert(unit =~= value.subrange(0, unit.len() as int));
    assert(spec =~= start + seq!['-'] + end);
    assert forall|i: int| 0 <= i < spec.len() && i != start.len() implies is_digit(
        #[trigger] spec[i],
    ) by {
        if i < start.len() {
            assert(spec[i] == start[i]);
        } else {
            assert(spec[i] == end[i - start.len() - 1]);
        }
    }
    assert(!spec.contains(',')) by {
        if spec.contains(',') {
            let i = choose|i: int| 0 <= i < spec.len() && spec[i] == ',';
            assert(i == start.len());
        }
    }
    assert(spec[start.len() as int] == '-');
    assert(spec.contains('-'));
    spec.index_of_first_ensures('-');
    let dash = spec.index_of_first('-')->0;
    assert(dash == start.len());
    assert(spec.take(dash) =~= start);
    assert(spec.skip(dash + 1) =~= end);
    number_is_read(first);
    number_is_read(last);
}

proof fn number_is_read(n: u64)
    ensures
        parsed_u64(decimal(n as nat)) == Some(n),
{
    decimal_is_digits(n as nat);
    assert(is_digit(decimal(n as nat)[0]));
    assert(digits_number(decimal(n as nat)) == Some(n));
}

/// What is before the first dash of a header, and what is after it, are read on their own.
proof fn dashed_is_split(start: Seq<char>, end: Seq<char>)
    requires
        !start.contains('-'),
        !start.contains(','),
        !end.contains(','),
    ensures
        ({
            let value = "bytes="@ + start + "-"@ + end;
            let spec = value.skip("bytes="@.len() as int);
            &&& "bytes="@.is_prefix_of(value)
            &&& !spec.contains(',')
            &&& split_once(spec, '-') == Some((start, end))
        }),
{
    let unit = "bytes="@;
    let value = unit + start + "-"@ + end;
    reveal_strlit("-");
    let spec = value.skip(unit.len() as int);
    assert(unit =~= value.subrange(0, unit.len() as int));
    assert(spec =~= start + seq!['-'] + end);
    assert(!spec.contains(',')) by {
        if spec.contains(',') {
            let i = choose|i: int| 0 <= i < spec.len() && spec[i] == ',';
            if i < start.len() {
                assert(start[i] == ',');
            } else if i > start.len() {
                assert(end[i - start.len() - 1] == ',');
            }
        }
    }
    assert(spec[start.len() as int] == '-');
    assert(spec.contains('-'));
    spec.index_of_first_ensures('-');
    let dash = spec.index_of_first('-')->0;
    if dash < start.len() {
        assert(start[dash] == '-');
    }
    assert(dash == start.len());
    assert(spec.take(dash) =~= start);
    assert(spec.skip(dash + 1) =~= end);
}

proof fn digits_only(n: nat)
    ensures
        !decimal(n).contains('-'),
        !decimal(n).contains(','),
        !decimal(n).contains('+'),
        decimal(n).len() > 0,
{
    decimal_is_digits(n);
    assert forall|c: char| #[trigger] decimal(n).contains(c) implies is_digit(c) by {
        let i = choose|i: int| 0 <= i < decimal(n).len() && decimal(n)[i] == c;
    }
}

/// A header that asks for everything from a byte on gets the bytes from that byte to the end of
/// the video, if the video has that byte, and is refused otherwise.
pub proof fn open_range_is_exact(first: u64, size: u64)
    ensures
        ({
            let wanted = wanted_range(Some("bytes="@ + decimal(first as nat) + "-"@), size);
            if first < size {
                wanted matches Some(range) && range.start == first && range.end == size
                    && range.partial
            } else {
                wanted is None
            }
        }),
{
    let start = decimal(first as nat);
    digits_only(first as nat);
    dashed_is_split(start, Seq::empty());
    assert("bytes="@ + start + "-"@ + Seq::empty() =~= "bytes="@ + start + "-"@);
    numbers_are_read(start, first);
}

/// A header that asks for the bytes from one to another, both included, gets those of them that
/// the video has, if it has the first of them, and is refused otherwise.
pub proof fn closed_range_is_exact(first: u64, last: u64, size: u64)
    ensures
        ({
            let wanted = wanted_range(
                Some("bytes="@ + decimal(first as nat) + "-"@ + decimal(last as nat)),
                size,
            );
            if first < size && first <= last {
                &&& wanted matches Some(range)
                &&& range.start == first
                &&& range.partial
                &&& last + 1 <= size ==> range.end == last + 1
                &&& last + 1 > size ==> range.end == size
            } else {
                wanted is None
            }
        }),
{
    digits_only(first as nat);
    digits_only(last as nat);
    dashed_is_split(decimal(first as nat), decimal(last as nat));
    numbers_are_read(decimal(first as nat), first);
    numbers_are_read(decimal(last as nat), last);
}

/// A header that asks for the last bytes gets that many from the end of the video, or all of it
/// where it has no more, and is refused where it asks for none.
pub proof fn suffix_range_is_exact(count: u64, size: u64)
    ensures
        ({
            let wanted = wanted_range(Some("bytes=-"@ + decimal(count as nat)), size);
            if count > 0 && size > 0 {
                &&& wanted matches Some(range)
                &&& range.end == size
                &&& range.partial
                &&& count <= size ==> range.end - range.start == count
                &&& count > size ==> range.start == 0
            } else {
                wanted is None
            }
        }),
{
    digits_only(count as nat);
    dashed_is_split(Seq::empty(), decimal(count as nat));
    reveal_strlit("bytes=-");
    reveal_strlit("bytes=");
    reveal_strlit("-");
    assert("bytes="@ + Seq::empty() + "-"@ + decimal(count as nat) =~= "bytes=-"@ + decimal(
        count as nat,
    ));
    numbers_are_read(decimal(count as nat), count);
}

/// A request without a range header gets the whole video, and a header that is not in bytes, or
/// asks for several ranges, is refused.
pub proof fn other_headers_are_refused(value: Seq<char>, size: u64)
    ensures
        size > 0 ==> wanted_range(None, size) == Some(
            ByteRange { start: 0, end: size, partial: false },
        ),
        !"bytes="@.is_prefix_of(value) ==> wanted_range(Some(value), size) is None,
        value.contains(',') ==> wanted_range(Some(value), size) is None,
        !value.contains('-') ==> wanted_range(Some(value), size) is None,
{
    let unit = "bytes="@;
    reveal_strlit("bytes=");
    if unit.is_prefix_of(value) {
        let spec = value.skip(unit.len() as int);
        assert(value =~= unit + spec);
        if value.contains(',') {
            let i = choose|i: int| 0 <= i < value.len() && value[i] == ',';
            assert(i >= 6);
            assert(spec[i - 6] == ',');
        }
        spec.index_of_first_ensures('-');
        if spec.contains('-') {
            let i = choose|i: int| 0 <= i < spec.len() && spec[i] == '-';
            assert(value[i + 6] == '-');
        }
    }
}

/// A header that is accepted holds nothing but digits, dashes and plus signs after its unit, so no
/// space, no other sign and no further unit.
pub proof fn accepted_headers_hold_numbers(value: Seq<char>, size: u64, i: int)
    requires
        wanted_range(Some(value), size) is Some,
        6 <= i < value.len(),
    ensures
        '0' <= value[i] <= '9' || value[i] == '-' || value[i] == '+',
{
    reveal_strlit("bytes=");
    let spec = value.skip(6);
    assert(spec[i - 6] == value[i]);
    spec.index_of_first_ensures('-');
    let (start, end) = split_once(spec, '-')->0;
    let dash = start.len() as int;
    if i - 6 < dash {
        assert(start[i - 6] == value[i]);
        numbers_hold_digits(start, i - 6);
    } else if i - 6 > dash {
        assert(end[i - 7 - dash] == value[i]);
        numbers_hold_digits(end, i - 7 - dash);
    }
}

proof fn numbers_hold_digits(text: Seq<char>, i: int)
    requires
        parsed_u64(text) is Some,
        0 <= i < text.len(),
    ensures
        is_digit(text[i]) || text[i] == '+',
{
    if text[0] == '+' && i > 0 {
        assert(text.skip(1)[i - 1] == text[i]);
    }
}

proof fn numbers_hold_no_separator(text: Seq<char>)
    requires
        parsed_u64(text) is Some,
    ensures
        text.len() > 0,
        !text.contains('-'),
        !text.contains(','),
{
    if text.contains('-') {
        let i = choose|i: int| 0 <= i < text.len() && text[i] == '-';
        numbers_hold_digits(text, i);
    }
    if text.contains(',') {
        let i = choose|i: int| 0 <= i < text.len() && text[i] == ',';
        numbers_hold_digits(text, i);
    }
}

/// How a number is spelled does not matter, with leading zeroes or a plus sign or without: a
/// header gets what it would get with the plain numbers.
pub proof fn spelling_does_not_matter(
    start: Seq<char>,
    first: u64,
    end: Seq<char>,
    last: u64,
    size: u64,
)
    requires
        parsed_u64(start) == Some(first),
        parsed_u64(end) == Some(last),
    ensures
        wanted_range(Some("bytes="@ + start + "-"@), size) == wanted_range(
            Some("bytes="@ + decimal(first as nat) + "-"@),
            size,
        ),
        wanted_range(Some("bytes="@ + start + "-"@ + end), size) == wanted_range(
            Some("bytes="@ + decimal(first as nat) + "-"@ + decimal(last as nat)),
            size,
        ),
        wanted_range(Some("bytes=-"@ + end), size) == wanted_range(
            Some("bytes=-"@ + decimal(last as nat)),
            size,
        ),
{
    numbers_hold_no_separator(start);
    numbers_hold_no_separator(end);
    digits_only(first as nat);
    digits_only(last as nat);
    numbers_are_read(decimal(first as nat), first);
    numbers_are_read(decimal(last as nat), last);
    let none = Seq::<char>::empty();
    dashed_is_split(start, none);
    dashed_is_split(decimal(first as nat), none);
    dashed_is_split(start, end);
    dashed_is_split(decimal(first as nat), decimal(last as nat));
    dashed_is_split(none, end);
    dashed_is_split(none, decimal(last as nat));
    assert("bytes="@ + start + "-"@ + none =~= "bytes="@ + start + "-"@);
    assert("bytes="@ + decimal(first as nat) + "-"@ + none =~= "bytes="@ + decimal(first as nat)
        + "-"@);
    reveal_strlit("bytes=-");
    reveal_strlit("bytes=");
    reveal_strlit("-");
    assert("bytes="@ + none + "-"@ + end =~= "bytes=-"@ + end);
    assert("bytes="@ + none + "-"@ + decimal(last as nat) =~= "bytes=-"@ + decimal(last as nat));
}

} // verus!
