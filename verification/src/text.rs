//! The text of a `Utf8` entry.
//!
//! The class file format stores text in a modified UTF-8: a character of
//! the basic plane takes one, two or three bytes, the character zero takes
//! two, and a character beyond the basic plane is stored as its two UTF-16
//! surrogates of three bytes each. Decoding never fails. A byte that starts
//! no well-formed group and a surrogate without its partner each decode to
//! the replacement character.

use vstd::prelude::*;

verus! {

/// What stands in the text for bytes that encode no character.
pub const REPLACEMENT: char = '\u{FFFD}';

/// Whether `b` has the form `10xxxxxx`.
pub open spec fn is_continuation(b: u8) -> bool {
    0x80 <= b <= 0xBF
}

/// Whether `v` is the first surrogate of a pair.
pub open spec fn is_high_surrogate(v: int) -> bool {
    0xD800 <= v <= 0xDBFF
}

/// Whether `v` is the second surrogate of a pair.
pub open spec fn is_low_surrogate(v: int) -> bool {
    0xDC00 <= v <= 0xDFFF
}

/// The sixteen-bit unit that the group of bytes at `i` encodes, and the
/// number of bytes in the group; `None` where no well-formed group starts.
pub open spec fn unit_at(b: Seq<u8>, i: int) -> Option<(int, int)> {
    if !(0 <= i < b.len()) {
        None
    } else if b[i] < 0x80 {
        Some((b[i] as int, 1))
    } else if 0xC0 <= b[i] <= 0xDF && i + 1 < b.len() && is_continuation(b[i + 1]) {
        Some(((b[i] - 0xC0) * 0x40 + (b[i + 1] - 0x80), 2))
    } else if 0xE0 <= b[i] && b[i] <= 0xEF && i + 2 < b.len() && is_continuation(b[i + 1])
        && is_continuation(b[i + 2]) {
        Some(((b[i] - 0xE0) * 0x1000 + (b[i + 1] - 0x80) * 0x40 + (b[i + 2] - 0x80), 3))
    } else {
        None
    }
}

/// The character that a pair of surrogates stands for.
pub open spec fn paired(high: int, low: int) -> int {
    0x1_0000 + (high - 0xD800) * 0x400 + (low - 0xDC00)
}

/// The character decoded at `i`, and the number of bytes it takes.
pub open spec fn char_at(b: Seq<u8>, i: int) -> (char, int) {
    match unit_at(b, i) {
        None => (REPLACEMENT, 1),
        Some((v, width)) => if is_high_surrogate(v) {
            match unit_at(b, i + 3) {
                Some((low, _)) => if is_low_surrogate(low) {
                    (paired(v, low) as char, 6)
                } else {
                    (REPLACEMENT, 3)
                },
                None => (REPLACEMENT, 3),
            }
        } else if is_low_surrogate(v) {
            (REPLACEMENT, 3)
        } else {
            (v as char, width)
        },
    }
}

/// The characters decoded from `i` to the end of `b`.
pub open spec fn decode_from(b: Seq<u8>, i: int) -> Seq<char>
    decreases b.len() - i,
{
    if 0 <= i < b.len() {
        let (c, width) = char_at(b, i);
        seq![c] + decode_from(b, i + width)
    } else {
        Seq::empty()
    }
}

/// The text that the bytes `b` encode.
pub open spec fn decode_text(b: Seq<u8>) -> Seq<char> {
    decode_from(b, 0)
}

/// From position `i` on, bytes below `0x80` decode to the characters with
/// their codes, one for each byte.
pub proof fn ascii_decodes_from(b: Seq<u8>, i: int)
    requires
        0 <= i <= b.len(),
        forall|k: int| i <= k < b.len() ==> b[k] < 0x80,
    ensures
        decode_from(b, i).len() == b.len() - i,
        forall|k: int| 0 <= k < b.len() - i ==> decode_from(b, i)[k] == b[i + k] as char,
    decreases b.len() - i,
{
    if i < b.len() {
        ascii_decodes_from(b, i + 1);
    }
}

/// Text in ASCII decodes to itself: one character for each byte, with the
/// code that the byte holds.
pub proof fn ascii_decodes_to_itself(b: Seq<u8>)
    requires
        forall|k: int| 0 <= k < b.len() ==> b[k] < 0x80,
    ensures
        decode_text(b).len() == b.len(),
        forall|k: int| 0 <= k < b.len() ==> decode_text(b)[k] == b[k] as char,
{
    ascii_decodes_from(b, 0);
}

/// The text has at most as many characters as there are bytes.
pub proof fn decoded_is_no_longer(b: Seq<u8>, i: int)
    requires
        0 <= i <= b.len(),
    ensures
        decode_from(b, i).len() <= b.len() - i,
    decreases b.len() - i,
{
    if i < b.len() {
        let (_, width) = char_at(b, i);
        if i + width <= b.len() {
            decoded_is_no_longer(b, i + width);
        }
    }
}

/// `char::from_u32` gives the character with the code `code`, and nothing
/// where `code` is a surrogate or lies beyond the last code point.
pub assume_specification[ char::from_u32 ](code: u32) -> (r: Option<char>)
    ensures
        r == (if code <= 0x10FFFF && !(0xD800 <= code <= 0xDFFF) {
            Some(code as char)
        } else {
            None::<char>
        }),
;

/// `String::push` appends one character to the text.
pub assume_specification[ std::string::String::push ](
    text: &mut std::string::String,
    ch: char,
)
    ensures
        final(text)@ == old(text)@.push(ch),
;

/// Whether `b` has the form `10xxxxxx`.
fn continuation(b: u8) -> (r: bool)
    ensures
        r == is_continuation(b),
{
    0x80 <= b && b <= 0xBF
}

/// The unit encoded at `i` and the width of its group of bytes.
fn unit(bytes: &[u8], i: usize) -> (r: Option<(u32, usize)>)
    ensures
        match r {
            Some((v, width)) => unit_at(bytes@, i as int) == Some((v as int, width as int)) && i
                + width <= usize::MAX,
            None => unit_at(bytes@, i as int) is None,
        },
{
    if i >= bytes.len() {
        return None;
    }
    let rest: usize = bytes.len() - i;
    let first: u8 = bytes[i];
    if first < 0x80 {
        Some((first as u32, 1))
    } else if 0xC0 <= first && first <= 0xDF && rest > 1 && continuation(bytes[i + 1]) {
        let v: u32 = (first - 0xC0) as u32 * 0x40 + (bytes[i + 1] - 0x80) as u32;
        Some((v, 2))
    } else if 0xE0 <= first && first <= 0xEF && rest > 2 && continuation(bytes[i + 1])
        && continuation(bytes[i + 2]) {
        let v: u32 = (first - 0xE0) as u32 * 0x1000 + (bytes[i + 1] - 0x80) as u32 * 0x40 + (
        bytes[i + 2] - 0x80) as u32;
        Some((v, 3))
    } else {
        None
    }
}

/// The character with the code `code`, or the replacement character where
/// there is none.
fn character(code: u32) -> (c: char)
    ensures
        c == (if code <= 0x10FFFF && !(0xD800 <= code <= 0xDFFF) {
            code as char
        } else {
            REPLACEMENT
        }),
{
    match char::from_u32(code) {
        Some(c) => c,
        None => REPLACEMENT,
    }
}

/// The character decoded at `i` and the number of bytes it takes.
fn next_char(bytes: &[u8], i: usize) -> (r: (char, usize))
    requires
        i < bytes@.len(),
    ensures
        (r.0, r.1 as int) == char_at(bytes@, i as int),
        1 <= r.1,
        i + r.1 <= bytes@.len(),
{
    match unit(bytes, i) {
        None => (REPLACEMENT, 1),
        Some((v, width)) => {
            if 0xD800 <= v && v <= 0xDBFF {
                match unit(bytes, i + 3) {
                    Some((low, _)) => {
                        if 0xDC00 <= low && low <= 0xDFFF {
                            let code: u32 = 0x1_0000 + (v - 0xD800) * 0x400 + (low - 0xDC00);
                            (character(code), 6)
                        } else {
                            (REPLACEMENT, 3)
                        }
                    },
                    None => (REPLACEMENT, 3),
                }
            } else if 0xDC00 <= v && v <= 0xDFFF {
                (REPLACEMENT, 3)
            } else {
                (character(v), width)
            }
        },
    }
}

/// Decodes the text of a `Utf8` entry from its bytes.
pub fn decode(bytes: &[u8]) -> (text: String)
    ensures
        text@ == decode_text(bytes@),
{
    let mut text = String::new();
    let mut i: usize = 0;
    while i < bytes.len()
        invariant
            i <= bytes@.len(),
            text@ + decode_from(bytes@, i as int) == decode_text(bytes@),
        decreases bytes@.len() - i,
    {
        let (c, width) = next_char(bytes, i);
        text.push(c);
        i += width;
    }
    text
}

} // verus!
