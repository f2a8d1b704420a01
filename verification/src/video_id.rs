//! The names of videos.

use vstd::prelude::*;
use vstd::string::*;

use crate::text::{chars_of, is_digit};

verus! {

/// A character that the name of a video may hold: an ASCII letter or digit, `-` or `_`.
pub open spec fn is_id_char(c: char) -> bool {
    is_digit(c) || 'a' <= c <= 'z' || 'A' <= c <= 'Z' || c == '-' || c == '_'
}

/// Whether a text is the name of a video.
pub open spec fn is_video_id(text: Seq<char>) -> bool {
    text.len() > 0 && forall|i: int| 0 <= i < text.len() ==> is_id_char(#[trigger] text[i])
}

/// Whether a text is the name of a video.
pub fn valid_video_id(text: &str) -> (valid: bool)
    ensures
        valid == is_video_id(text@),
{
    let chars = chars_of(text);
    if chars.len() == 0 {
        return false;
    }
    let mut i: usize = 0;
    while i < chars.len()
        invariant
            i <= chars.len(),
            chars@ == text@,
            forall|k: int| 0 <= k < i ==> is_id_char(#[trigger] chars@[k]),
        decreases chars.len() - i,
    {
        let c = chars[i];
        let accepted = ('0' <= c && c <= '9') || ('a' <= c && c <= 'z') || ('A' <= c && c <= 'Z')
            || c == '-' || c == '_';
        if !accepted {
            assert(!is_id_char(text@[i as int]));
            return false;
        }
        i = i + 1;
    }
    true
}

/// The name of a video is made of the letters, the digits and the two signs that need no escape
/// in an address or in the name of a file, in any order and number, but not of none.
pub proof fn names_are_made_of_their_alphabet(text: Seq<char>)
    ensures
        is_video_id(text) <==> text.len() > 0 && forall|i: int|
            0 <= i < text.len()
                ==> "ABCDEFGHIJKLMNOPQRSTUVWXYZabcdefghijklmnopqrstuvwxyz0123456789-_"@.contains(
                #[trigger] text[i],
            ),
{
    let alphabet = "ABCDEFGHIJKLMNOPQRSTUVWXYZabcdefghijklmnopqrstuvwxyz0123456789-_"@;
    reveal_strlit("ABCDEFGHIJKLMNOPQRSTUVWXYZabcdefghijklmnopqrstuvwxyz0123456789-_");
    assert forall|i: int| 0 <= i < text.len() implies is_id_char(#[trigger] text[i])
        == alphabet.contains(text[i]) by {
        let c = text[i];
        if is_id_char(c) {
            let at: int = if 'A' <= c <= 'Z' {
                c as int - 'A' as int
            } else if 'a' <= c <= 'z' {
                26 + c as int - 'a' as int
            } else if '0' <= c <= '9' {
                52 + c as int - '0' as int
            } else if c == '-' {
                62
            } else {
                63
            };
            assert(alphabet[at] == c);
        }
        if alphabet.contains(c) {
            let at = choose|at: int| 0 <= at < alphabet.len() && alphabet[at] == c;
            assert(is_id_char(alphabet[at]));
        }
    }
}

/// Names can be joined and cut: two texts make a name exactly where each of them is one.
pub proof fn names_join(first: Seq<char>, second: Seq<char>)
    requires
        first.len() > 0,
        second.len() > 0,
    ensures
        is_video_id(first + second) <==> is_video_id(first) && is_video_id(second),
{
    let both = first + second;
    if is_video_id(both) {
        assert forall|i: int| 0 <= i < first.len() implies is_id_char(#[trigger] first[i]) by {
            assert(both[i] == first[i]);
        }
        assert forall|i: int| 0 <= i < second.len() implies is_id_char(#[trigger] second[i]) by {
            assert(both[first.len() + i] == second[i]);
        }
    }
}

} // verus!
