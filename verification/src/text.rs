//! The bitmap text rasterizer: a fixed 5x7 monochrome glyph table scaled to
//! the requested size, with hex colour parsing and the text overlay
//! operation built on it.
//!
//! This is the engine's font-independent drawing path. A caller that can
//! rasterize glyphs with a real font may draw on the pixel buffer itself
//! and use only the validation and assembly pieces here.

use vstd::prelude::*;
use vstd::string::StrSliceExecFns;
use vstd::string::StringExecFns;
use crate::types::ImageData;
use crate::types::TextData;
use crate::error::AppError;
use crate::codec::b64_of;
use crate::codec::b64_decoded_of;
use crate::codec::encoding_of;
use crate::codec::base64_encode;
use crate::codec::encode_image;
use crate::pixels::spec_pixel;
use crate::pixels::spec_has_translucent;
use crate::pixels::has_translucent;
use crate::ops::MAX_ENCODE_BYTES;
use crate::ops::spec_decoded_data;
use crate::ops::decode_image_data;
use crate::strings::u64_to_string;

verus! {

/// The value of one hex digit, or `None` for any other character.
pub open spec fn spec_hex_digit(c: char) -> Option<int> {
    if '0' <= c && c <= '9' {
        Some(c as int - '0' as int)
    } else if 'a' <= c && c <= 'f' {
        Some(c as int - 'a' as int + 10)
    } else if 'A' <= c && c <= 'F' {
        Some(c as int - 'A' as int + 10)
    } else {
        None
    }
}

/// Parses one hex digit.
fn hex_digit(c: char) -> (r: Option<u8>)
    ensures
        match r {
            Some(v) => spec_hex_digit(c) == Some(v as int) && v < 16,
            None => spec_hex_digit(c) is None,
        },
{
    let cp = c as u32;
    if cp >= 48 && cp <= 57 {
        Some((cp - 48) as u8)
    } else if cp >= 97 && cp <= 102 {
        Some((cp - 97 + 10) as u8)
    } else if cp >= 65 && cp <= 70 {
        Some((cp - 65 + 10) as u8)
    } else {
        None
    }
}

/// The string with every leading `#` removed.
pub open spec fn spec_strip_hash(s: Seq<char>) -> Seq<char>
    decreases s.len(),
{
    if s.len() > 0 && s[0] == '#' {
        spec_strip_hash(s.drop_first())
    } else {
        s
    }
}

/// The colour named by a `#RRGGBB` string: exactly six hex digits after the
/// leading hashes, read as three channel bytes.
pub open spec fn spec_parse_hex_color(s: Seq<char>) -> Option<(u8, u8, u8)> {
    let t = spec_strip_hash(s);
    if t.len() == 6 {
        match (
            spec_hex_digit(t[0]),
            spec_hex_digit(t[1]),
            spec_hex_digit(t[2]),
            spec_hex_digit(t[3]),
            spec_hex_digit(t[4]),
            spec_hex_digit(t[5]),
        ) {
            (Some(a), Some(b), Some(c), Some(d), Some(e), Some(f)) => Some(
                (((a * 16 + b) as u8), ((c * 16 + d) as u8), ((e * 16 + f) as u8)),
            ),
            _ => None,
        }
    } else {
        None
    }
}

/// Parses a `#RRGGBB` colour string into its three channel bytes.
pub fn parse_hex_color(hex: &str) -> (r: Result<(u8, u8, u8), String>)
    ensures
        match r {
            Ok(c) => spec_parse_hex_color(hex@) == Some(c),
            Err(_) => spec_parse_hex_color(hex@) is None,
        },
{
    let n = hex.unicode_len();
    proof {
        assert(hex@.skip(0) =~= hex@);
    }
    let mut start: usize = 0;
    while start < n && hex.get_char(start) == '#'
        invariant
            start <= n,
            n == hex@.len(),
            spec_strip_hash(hex@) == spec_strip_hash(hex@.skip(start as int)),
            forall|j: int| 0 <= j < start ==> hex@[j] == '#',
        decreases n - start,
    {
        proof {
            assert(hex@.skip(start as int).drop_first() =~= hex@.skip(start as int + 1));
        }
        start += 1;
    }
    proof {
        if start < n {
            assert(spec_strip_hash(hex@.skip(start as int)) == hex@.skip(start as int));
        } else {
            assert(hex@.skip(start as int) =~= Seq::<char>::empty());
        }
    }
    if n - start != 6 {
        return Err(String::from_str("Color must be in #RRGGBB format"));
    }
    let d0 = hex_digit(hex.get_char(start));
    let d1 = hex_digit(hex.get_char(start + 1));
    let d2 = hex_digit(hex.get_char(start + 2));
    let d3 = hex_digit(hex.get_char(start + 3));
    let d4 = hex_digit(hex.get_char(start + 4));
    let d5 = hex_digit(hex.get_char(start + 5));
    proof {
        assert(forall|j: int| 0 <= j < 6 ==> hex@.skip(start as int)[j] == hex@[start + j]);
    }
    let (r0, r1) = match (d0, d1) {
        (Some(a), Some(b)) => (a, b),
        _ => {
            return Err(String::from_str("Invalid red component"));
        },
    };
    let (g0, g1) = match (d2, d3) {
        (Some(a), Some(b)) => (a, b),
        _ => {
            return Err(String::from_str("Invalid green component"));
        },
    };
    let (b0, b1) = match (d4, d5) {
        (Some(a), Some(b)) => (a, b),
        _ => {
            return Err(String::from_str("Invalid blue component"));
        },
    };
    Ok((r0 * 16 + r1, g0 * 16 + g1, b0 * 16 + b1))
}

/// The 5x7 glyph pattern for a character: seven rows, five bits each. Latin
/// letters, digits and common punctuation have distinct shapes; a set of
/// common CJK characters has rough shapes; any other CJK code point maps to
/// one generic glyph and every remaining character to another.
pub open spec fn spec_char_pattern(c: char) -> Seq<u8> {
    if c == 'A' {
        seq![0b01110u8, 0b10001u8, 0b10001u8, 0b11111u8, 0b10001u8, 0b10001u8, 0b00000u8]
    } else
    if c == 'B' {
        seq![0b11110u8, 0b10001u8, 0b11110u8, 0b11110u8, 0b10001u8, 0b11110u8, 0b00000u8]
    } else
    if c == 'C' {
        seq![0b01111u8, 0b10000u8, 0b10000u8, 0b10000u8, 0b10000u8, 0b01111u8, 0b00000u8]
    } else
    if c == 'D' {
        seq![0b11110u8, 0b10001u8, 0b10001u8, 0b10001u8, 0b10001u8, 0b11110u8, 0b00000u8]
    } else
    if c == 'E' {
        seq![0b11111u8, 0b10000u8, 0b11110u8, 0b11110u8, 0b10000u8, 0b11111u8, 0b00000u8]
    } else
    if c == 'F' {
        seq![0b11111u8, 0b10000u8, 0b11110u8, 0b11110u8, 0b10000u8, 0b10000u8, 0b00000u8]
    } else
    if c == 'G' {
        seq![0b01111u8, 0b10000u8, 0b10011u8, 0b10001u8, 0b10001u8, 0b01111u8, 0b00000u8]
    } else
    if c == 'H' {
        seq![0b10001u8, 0b10001u8, 0b11111u8, 0b11111u8, 0b10001u8, 0b10001u8, 0b00000u8]
    } else
    if c == 'I' {
        seq![0b01110u8, 0b00100u8, 0b00100u8, 0b00100u8, 0b00100u8, 0b01110u8, 0b00000u8]
    } else
    if c == 'J' {
        seq![0b00111u8, 0b00001u8, 0b00001u8, 0b10001u8, 0b10001u8, 0b01110u8, 0b00000u8]
    } else
    if c == 'K' {
        seq![0b10001u8, 0b10010u8, 0b11100u8, 0b11100u8, 0b10010u8, 0b10001u8, 0b00000u8]
    } else
    if c == 'L' {
        seq![0b10000u8, 0b10000u8, 0b10000u8, 0b10000u8, 0b10000u8, 0b11111u8, 0b00000u8]
    } else
    if c == 'M' {
        seq![0b10001u8, 0b11011u8, 0b10101u8, 0b10001u8, 0b10001u8, 0b10001u8, 0b00000u8]
    } else
    if c == 'N' {
        seq![0b10001u8, 0b11001u8, 0b10101u8, 0b10011u8, 0b10001u8, 0b10001u8, 0b00000u8]
    } else
    if c == 'O' {
        seq![0b01110u8, 0b10001u8, 0b10001u8, 0b10001u8, 0b10001u8, 0b01110u8, 0b00000u8]
    } else
    if c == 'P' {
        seq![0b11110u8, 0b10001u8, 0b11110u8, 0b10000u8, 0b10000u8, 0b10000u8, 0b00000u8]
    } else
    if c == 'Q' {
        seq![0b01110u8, 0b10001u8, 0b10001u8, 0b10101u8, 0b10010u8, 0b01101u8, 0b00000u8]
    } else
    if c == 'R' {
        seq![0b11110u8, 0b10001u8, 0b11110u8, 0b10010u8, 0b10001u8, 0b10001u8, 0b00000u8]
    } else
    if c == 'S' {
        seq![0b01111u8, 0b10000u8, 0b01110u8, 0b00001u8, 0b00001u8, 0b11110u8, 0b00000u8]
    } else
    if c == 'T' {
        seq![0b11111u8, 0b00100u8, 0b00100u8, 0b00100u8, 0b00100u8, 0b00100u8, 0b00000u8]
    } else
    if c == 'U' {
        seq![0b10001u8, 0b10001u8, 0b10001u8, 0b10001u8, 0b10001u8, 0b01110u8, 0b00000u8]
    } else
    if c == 'V' {
        seq![0b10001u8, 0b10001u8, 0b10001u8, 0b10001u8, 0b01010u8, 0b00100u8, 0b00000u8]
    } else
    if c == 'W' {
        seq![0b10001u8, 0b10001u8, 0b10001u8, 0b10101u8, 0b11011u8, 0b10001u8, 0b00000u8]
    } else
    if c == 'X' {
        seq![0b10001u8, 0b01010u8, 0b00100u8, 0b00100u8, 0b01010u8, 0b10001u8, 0b00000u8]
    } else
    if c == 'Y' {
        seq![0b10001u8, 0b01010u8, 0b00100u8, 0b00100u8, 0b00100u8, 0b00100u8, 0b00000u8]
    } else
    if c == 'Z' {
        seq![0b11111u8, 0b00010u8, 0b00100u8, 0b01000u8, 0b10000u8, 0b11111u8, 0b00000u8]
    } else
    if c == '0' {
        seq![0b01110u8, 0b10001u8, 0b10011u8, 0b10101u8, 0b11001u8, 0b01110u8, 0b00000u8]
    } else
    if c == '1' {
        seq![0b00100u8, 0b01100u8, 0b00100u8, 0b00100u8, 0b00100u8, 0b01110u8, 0b00000u8]
    } else
    if c == '2' {
        seq![0b01110u8, 0b10001u8, 0b00010u8, 0b00100u8, 0b01000u8, 0b11111u8, 0b00000u8]
    } else
    if c == '3' {
        seq![0b01110u8, 0b10001u8, 0b00110u8, 0b00001u8, 0b10001u8, 0b01110u8, 0b00000u8]
    } else
    if c == '4' {
        seq![0b00010u8, 0b00110u8, 0b01010u8, 0b11111u8, 0b00010u8, 0b00010u8, 0b00000u8]
    } else
    if c == '5' {
        seq![0b11111u8, 0b10000u8, 0b11110u8, 0b00001u8, 0b10001u8, 0b01110u8, 0b00000u8]
    } else
    if c == '6' {
        seq![0b01110u8, 0b10000u8, 0b11110u8, 0b10001u8, 0b10001u8, 0b01110u8, 0b00000u8]
    } else
    if c == '7' {
        seq![0b11111u8, 0b00001u8, 0b00010u8, 0b00100u8, 0b01000u8, 0b01000u8, 0b00000u8]
    } else
    if c == '8' {
        seq![0b01110u8, 0b10001u8, 0b01110u8, 0b10001u8, 0b10001u8, 0b01110u8, 0b00000u8]
    } else
    if c == '9' {
        seq![0b01110u8, 0b10001u8, 0b01111u8, 0b00001u8, 0b00001u8, 0b01110u8, 0b00000u8]
    } else
    if c == ' ' {
        seq![0b00000u8, 0b00000u8, 0b00000u8, 0b00000u8, 0b00000u8, 0b00000u8, 0b00000u8]
    } else
    if c == '!' {
        seq![0b00100u8, 0b00100u8, 0b00100u8, 0b00100u8, 0b00000u8, 0b00100u8, 0b00000u8]
    } else
    if c == '?' {
        seq![0b01110u8, 0b10001u8, 0b00010u8, 0b00100u8, 0b00000u8, 0b00100u8, 0b00000u8]
    } else
    if c == '.' {
        seq![0b00000u8, 0b00000u8, 0b00000u8, 0b00000u8, 0b00000u8, 0b00100u8, 0b00000u8]
    } else
    if c == ',' {
        seq![0b00000u8, 0b00000u8, 0b00000u8, 0b00000u8, 0b00100u8, 0b01000u8, 0b00000u8]
    } else
    if c == ':' {
        seq![0b00000u8, 0b00100u8, 0b00000u8, 0b00000u8, 0b00100u8, 0b00000u8, 0b00000u8]
    } else
    if c == ';' {
        seq![0b00000u8, 0b00100u8, 0b00000u8, 0b00000u8, 0b00100u8, 0b01000u8, 0b00000u8]
    } else
    if c == '-' {
        seq![0b00000u8, 0b00000u8, 0b11111u8, 0b00000u8, 0b00000u8, 0b00000u8, 0b00000u8]
    } else
    if c == '+' {
        seq![0b00000u8, 0b00100u8, 0b01110u8, 0b00100u8, 0b00000u8, 0b00000u8, 0b00000u8]
    } else
    if c == '=' {
        seq![0b00000u8, 0b11111u8, 0b00000u8, 0b11111u8, 0b00000u8, 0b00000u8, 0b00000u8]
    } else
    if c == '(' {
        seq![0b00010u8, 0b00100u8, 0b01000u8, 0b01000u8, 0b00100u8, 0b00010u8, 0b00000u8]
    } else
    if c == ')' {
        seq![0b01000u8, 0b00100u8, 0b00010u8, 0b00010u8, 0b00100u8, 0b01000u8, 0b00000u8]
    } else
    if c == '[' {
        seq![0b01110u8, 0b01000u8, 0b01000u8, 0b01000u8, 0b01000u8, 0b01110u8, 0b00000u8]
    } else
    if c == ']' {
        seq![0b01110u8, 0b00010u8, 0b00010u8, 0b00010u8, 0b00010u8, 0b01110u8, 0b00000u8]
    } else
    if c == '/' {
        seq![0b00001u8, 0b00010u8, 0b00100u8, 0b01000u8, 0b10000u8, 0b00000u8, 0b00000u8]
    } else
    if c == '\\' {
        seq![0b10000u8, 0b01000u8, 0b00100u8, 0b00010u8, 0b00001u8, 0b00000u8, 0b00000u8]
    } else
    if c == 'a' {
        seq![0b00000u8, 0b01110u8, 0b00001u8, 0b01111u8, 0b10001u8, 0b01111u8, 0b00000u8]
    } else
    if c == 'b' {
        seq![0b10000u8, 0b10000u8, 0b11110u8, 0b10001u8, 0b10001u8, 0b11110u8, 0b00000u8]
    } else
    if c == 'c' {
        seq![0b00000u8, 0b01111u8, 0b10000u8, 0b10000u8, 0b10000u8, 0b01111u8, 0b00000u8]
    } else
    if c == 'd' {
        seq![0b00001u8, 0b00001u8, 0b01111u8, 0b10001u8, 0b10001u8, 0b01111u8, 0b00000u8]
    } else
    if c == 'e' {
        seq![0b00000u8, 0b01110u8, 0b10001u8, 0b11111u8, 0b10000u8, 0b01111u8, 0b00000u8]
    } else
    if c == 'f' {
        seq![0b00111u8, 0b01000u8, 0b11110u8, 0b01000u8, 0b01000u8, 0b01000u8, 0b00000u8]
    } else
    if c == 'g' {
        seq![0b00000u8, 0b01111u8, 0b10001u8, 0b01111u8, 0b00001u8, 0b01110u8, 0b00000u8]
    } else
    if c == 'h' {
        seq![0b10000u8, 0b10000u8, 0b11110u8, 0b10001u8, 0b10001u8, 0b10001u8, 0b00000u8]
    } else
    if c == 'i' {
        seq![0b00100u8, 0b00000u8, 0b01100u8, 0b00100u8, 0b00100u8, 0b01110u8, 0b00000u8]
    } else
    if c == 'j' {
        seq![0b00010u8, 0b00000u8, 0b00110u8, 0b00010u8, 0b10010u8, 0b01100u8, 0b00000u8]
    } else
    if c == 'k' {
        seq![0b10000u8, 0b10010u8, 0b10100u8, 0b11000u8, 0b10100u8, 0b10010u8, 0b00000u8]
    } else
    if c == 'l' {
        seq![0b01100u8, 0b00100u8, 0b00100u8, 0b00100u8, 0b00100u8, 0b01110u8, 0b00000u8]
    } else
    if c == 'm' {
        seq![0b00000u8, 0b11010u8, 0b10101u8, 0b10101u8, 0b10101u8, 0b10101u8, 0b00000u8]
    } else
    if c == 'n' {
        seq![0b00000u8, 0b11110u8, 0b10001u8, 0b10001u8, 0b10001u8, 0b10001u8, 0b00000u8]
    } else
    if c == 'o' {
        seq![0b00000u8, 0b01110u8, 0b10001u8, 0b10001u8, 0b10001u8, 0b01110u8, 0b00000u8]
    } else
    if c == 'p' {
        seq![0b00000u8, 0b11110u8, 0b10001u8, 0b11110u8, 0b10000u8, 0b10000u8, 0b00000u8]
    } else
    if c == 'q' {
        seq![0b00000u8, 0b01111u8, 0b10001u8, 0b01111u8, 0b00001u8, 0b00001u8, 0b00000u8]
    } else
    if c == 'r' {
        seq![0b00000u8, 0b10110u8, 0b11001u8, 0b10000u8, 0b10000u8, 0b10000u8, 0b00000u8]
    } else
    if c == 's' {
        seq![0b00000u8, 0b01111u8, 0b10000u8, 0b01110u8, 0b00001u8, 0b11110u8, 0b00000u8]
    } else
    if c == 't' {
        seq![0b01000u8, 0b11110u8, 0b01000u8, 0b01000u8, 0b01001u8, 0b00110u8, 0b00000u8]
    } else
    if c == 'u' {
        seq![0b00000u8, 0b10001u8, 0b10001u8, 0b10001u8, 0b10011u8, 0b01101u8, 0b00000u8]
    } else
    if c == 'v' {
        seq![0b00000u8, 0b10001u8, 0b10001u8, 0b10001u8, 0b01010u8, 0b00100u8, 0b00000u8]
    } else
    if c == 'w' {
        seq![0b00000u8, 0b10001u8, 0b10101u8, 0b10101u8, 0b10101u8, 0b01010u8, 0b00000u8]
    } else
    if c == 'x' {
        seq![0b00000u8, 0b10001u8, 0b01010u8, 0b00100u8, 0b01010u8, 0b10001u8, 0b00000u8]
    } else
    if c == 'y' {
        seq![0b00000u8, 0b10001u8, 0b10001u8, 0b01111u8, 0b00001u8, 0b01110u8, 0b00000u8]
    } else
    if c == 'z' {
        seq![0b00000u8, 0b11111u8, 0b00010u8, 0b00100u8, 0b01000u8, 0b11111u8, 0b00000u8]
    } else
    if c == '\u{65B0}' {
        seq![0b11111u8, 0b10001u8, 0b11111u8, 0b10001u8, 0b11111u8, 0b10001u8, 0b00000u8]
    } else
    if c == '\u{6587}' {
        seq![0b11111u8, 0b00100u8, 0b01110u8, 0b10101u8, 0b01110u8, 0b00100u8, 0b00000u8]
    } else
    if c == '\u{5B57}' {
        seq![0b11111u8, 0b10001u8, 0b01110u8, 0b00100u8, 0b01110u8, 0b10001u8, 0b00000u8]
    } else
    if c == '\u{4F60}' {
        seq![0b10001u8, 0b11111u8, 0b10001u8, 0b01110u8, 0b10001u8, 0b11111u8, 0b00000u8]
    } else
    if c == '\u{597D}' {
        seq![0b10101u8, 0b11111u8, 0b10101u8, 0b01110u8, 0b10101u8, 0b11111u8, 0b00000u8]
    } else
    if c == '\u{6211}' {
        seq![0b11111u8, 0b01010u8, 0b11111u8, 0b01010u8, 0b11111u8, 0b01010u8, 0b00000u8]
    } else
    if c == '\u{662F}' {
        seq![0b11111u8, 0b10001u8, 0b11111u8, 0b00100u8, 0b11111u8, 0b10001u8, 0b00000u8]
    } else
    if c == '\u{7684}' {
        seq![0b01110u8, 0b10001u8, 0b01110u8, 0b00100u8, 0b01110u8, 0b10001u8, 0b00000u8]
    } else
    if c == '\u{5728}' {
        seq![0b11111u8, 0b00100u8, 0b11111u8, 0b00100u8, 0b11111u8, 0b00100u8, 0b00000u8]
    } else
    if c == '\u{6709}' {
        seq![0b11111u8, 0b10001u8, 0b10001u8, 0b11111u8, 0b10001u8, 0b10001u8, 0b00000u8]
    } else
    if c == '\u{4E2D}' {
        seq![0b01110u8, 0b00100u8, 0b11111u8, 0b00100u8, 0b11111u8, 0b00100u8, 0b00000u8]
    } else
    if c == '\u{56FD}' {
        seq![0b11111u8, 0b10001u8, 0b11111u8, 0b10001u8, 0b11111u8, 0b10001u8, 0b00000u8]
    } else
    if c == '\u{4EBA}' {
        seq![0b00100u8, 0b01010u8, 0b10001u8, 0b10001u8, 0b10001u8, 0b10001u8, 0b00000u8]
    } else
    if c == '\u{5927}' {
        seq![0b00100u8, 0b01010u8, 0b10001u8, 0b11111u8, 0b10001u8, 0b10001u8, 0b00000u8]
    } else
    if c == '\u{5C0F}' {
        seq![0b00100u8, 0b01010u8, 0b10001u8, 0b01010u8, 0b00100u8, 0b00000u8, 0b00000u8]
    } else
    if c == '\u{4E0A}' {
        seq![0b00100u8, 0b00100u8, 0b00100u8, 0b11111u8, 0b00000u8, 0b00000u8, 0b00000u8]
    } else
    if c == '\u{4E0B}' {
        seq![0b00000u8, 0b00000u8, 0b11111u8, 0b00100u8, 0b00100u8, 0b00100u8, 0b00000u8]
    } else
    if c == '\u{6765}' {
        seq![0b10001u8, 0b01010u8, 0b00100u8, 0b01010u8, 0b10001u8, 0b11111u8, 0b00000u8]
    } else
    if c == '\u{53BB}' {
        seq![0b11111u8, 0b10001u8, 0b01010u8, 0b00100u8, 0b01010u8, 0b10001u8, 0b00000u8]
    } else
    if c == '\u{770B}' {
        seq![0b11111u8, 0b10001u8, 0b11111u8, 0b10001u8, 0b11111u8, 0b10001u8, 0b00000u8]
    } else
    if c == '\u{8BF4}' {
        seq![0b11111u8, 0b10001u8, 0b01110u8, 0b10001u8, 0b01110u8, 0b10001u8, 0b00000u8]
    } else
    if c == '\u{505A}' {
        seq![0b10001u8, 0b11111u8, 0b10001u8, 0b11111u8, 0b10001u8, 0b11111u8, 0b00000u8]
    } else
    if c == '\u{4F1A}' {
        seq![0b11111u8, 0b10001u8, 0b11111u8, 0b10001u8, 0b11111u8, 0b10001u8, 0b00000u8]
    } else
    if c == '\u{8981}' {
        seq![0b11111u8, 0b10001u8, 0b11111u8, 0b01110u8, 0b11111u8, 0b10001u8, 0b00000u8]
    } else
    if c == '\u{4E0D}' {
        seq![0b00100u8, 0b00100u8, 0b11111u8, 0b00100u8, 0b00100u8, 0b00000u8, 0b00000u8]
    } else
    if c == '\u{4E86}' {
        seq![0b10001u8, 0b01010u8, 0b00100u8, 0b01010u8, 0b10001u8, 0b00000u8, 0b00000u8]
    } else
    if c == '\u{548C}' {
        seq![0b10001u8, 0b11111u8, 0b10001u8, 0b11111u8, 0b10001u8, 0b11111u8, 0b00000u8]
    } else
    if c == '\u{4E5F}' {
        seq![0b10001u8, 0b01010u8, 0b11111u8, 0b01010u8, 0b10001u8, 0b00000u8, 0b00000u8]
    } else
    if c == '\u{90FD}' {
        seq![0b11111u8, 0b10001u8, 0b11111u8, 0b10001u8, 0b11111u8, 0b10001u8, 0b00000u8]
    } else
    if c == '\u{5F88}' {
        seq![0b10001u8, 0b11111u8, 0b10001u8, 0b01110u8, 0b10001u8, 0b11111u8, 0b00000u8]
    } else
    if c == '\u{591A}' {
        seq![0b11111u8, 0b10001u8, 0b11111u8, 0b10001u8, 0b11111u8, 0b10001u8, 0b00000u8]
    } else
    if c == '\u{5C11}' {
        seq![0b01110u8, 0b10001u8, 0b01110u8, 0b10001u8, 0b01110u8, 0b10001u8, 0b00000u8]
    } else
    if c == '\u{5E74}' {
        seq![0b11111u8, 0b10001u8, 0b11111u8, 0b10001u8, 0b11111u8, 0b10001u8, 0b00000u8]
    } else
    if c == '\u{6708}' {
        seq![0b11111u8, 0b10001u8, 0b10001u8, 0b10001u8, 0b10001u8, 0b11111u8, 0b00000u8]
    } else
    if c == '\u{65E5}' {
        seq![0b11111u8, 0b10001u8, 0b11111u8, 0b10001u8, 0b11111u8, 0b10001u8, 0b00000u8]
    } else
    if c == '\u{65F6}' {
        seq![0b11111u8, 0b10001u8, 0b11111u8, 0b10001u8, 0b11111u8, 0b10001u8, 0b00000u8]
    } else {
        if 0x4E00 <= c as int && c as int <= 0x9FFF {
            seq![0b11111u8, 0b10001u8, 0b11111u8, 0b10001u8, 0b11111u8, 0b10001u8, 0b00000u8]
        } else {
            seq![0b11111u8, 0b10101u8, 0b11111u8, 0b10101u8, 0b11111u8, 0b10101u8, 0b00000u8]
        }
    }
}

/// Looks up the 5x7 glyph pattern for a character.
pub fn get_char_pattern(ch: char) -> (r: Vec<u8>)
    ensures
        r@ == spec_char_pattern(ch),
        r@.len() == 7,
{
    let v: Vec<u8> = match ch {
        'A' => vec![0b01110, 0b10001, 0b10001, 0b11111, 0b10001, 0b10001, 0b00000],
        'B' => vec![0b11110, 0b10001, 0b11110, 0b11110, 0b10001, 0b11110, 0b00000],
        'C' => vec![0b01111, 0b10000, 0b10000, 0b10000, 0b10000, 0b01111, 0b00000],
        'D' => vec![0b11110, 0b10001, 0b10001, 0b10001, 0b10001, 0b11110, 0b00000],
        'E' => vec![0b11111, 0b10000, 0b11110, 0b11110, 0b10000, 0b11111, 0b00000],
        'F' => vec![0b11111, 0b10000, 0b11110, 0b11110, 0b10000, 0b10000, 0b00000],
        'G' => vec![0b01111, 0b10000, 0b10011, 0b10001, 0b10001, 0b01111, 0b00000],
        'H' => vec![0b10001, 0b10001, 0b11111, 0b11111, 0b10001, 0b10001, 0b00000],
        'I' => vec![0b01110, 0b00100, 0b00100, 0b00100, 0b00100, 0b01110, 0b00000],
        'J' => vec![0b00111, 0b00001, 0b00001, 0b10001, 0b10001, 0b01110, 0b00000],
        'K' => vec![0b10001, 0b10010, 0b11100, 0b11100, 0b10010, 0b10001, 0b00000],
        'L' => vec![0b10000, 0b10000, 0b10000, 0b10000, 0b10000, 0b11111, 0b00000],
        'M' => vec![0b10001, 0b11011, 0b10101, 0b10001, 0b10001, 0b10001, 0b00000],
        'N' => vec![0b10001, 0b11001, 0b10101, 0b10011, 0b10001, 0b10001, 0b00000],
        'O' => vec![0b01110, 0b10001, 0b10001, 0b10001, 0b10001, 0b01110, 0b00000],
        'P' => vec![0b11110, 0b10001, 0b11110, 0b10000, 0b10000, 0b10000, 0b00000],
        'Q' => vec![0b01110, 0b10001, 0b10001, 0b10101, 0b10010, 0b01101, 0b00000],
        'R' => vec![0b11110, 0b10001, 0b11110, 0b10010, 0b10001, 0b10001, 0b00000],
        'S' => vec![0b01111, 0b10000, 0b01110, 0b00001, 0b00001, 0b11110, 0b00000],
        'T' => vec![0b11111, 0b00100, 0b00100, 0b00100, 0b00100, 0b00100, 0b00000],
        'U' => vec![0b10001, 0b10001, 0b10001, 0b10001, 0b10001, 0b01110, 0b00000],
        'V' => vec![0b10001, 0b10001, 0b10001, 0b10001, 0b01010, 0b00100, 0b00000],
        'W' => vec![0b10001, 0b10001, 0b10001, 0b10101, 0b11011, 0b10001, 0b00000],
        'X' => vec![0b10001, 0b01010, 0b00100, 0b00100, 0b01010, 0b10001, 0b00000],
        'Y' => vec![0b10001, 0b01010, 0b00100, 0b00100, 0b00100, 0b00100, 0b00000],
        'Z' => vec![0b11111, 0b00010, 0b00100, 0b01000, 0b10000, 0b11111, 0b00000],
        '0' => vec![0b01110, 0b10001, 0b10011, 0b10101, 0b11001, 0b01110, 0b00000],
        '1' => vec![0b00100, 0b01100, 0b00100, 0b00100, 0b00100, 0b01110, 0b00000],
        '2' => vec![0b01110, 0b10001, 0b00010, 0b00100, 0b01000, 0b11111, 0b00000],
        '3' => vec![0b01110, 0b10001, 0b00110, 0b00001, 0b10001, 0b01110, 0b00000],
        '4' => vec![0b00010, 0b00110, 0b01010, 0b11111, 0b00010, 0b00010, 0b00000],
        '5' => vec![0b11111, 0b10000, 0b11110, 0b00001, 0b10001, 0b01110, 0b00000],
        '6' => vec![0b01110, 0b10000, 0b11110, 0b10001, 0b10001, 0b01110, 0b00000],
        '7' => vec![0b11111, 0b00001, 0b00010, 0b00100, 0b01000, 0b01000, 0b00000],
        '8' => vec![0b01110, 0b10001, 0b01110, 0b10001, 0b10001, 0b01110, 0b00000],
        '9' => vec![0b01110, 0b10001, 0b01111, 0b00001, 0b00001, 0b01110, 0b00000],
        ' ' => vec![0b00000, 0b00000, 0b00000, 0b00000, 0b00000, 0b00000, 0b00000],
        '!' => vec![0b00100, 0b00100, 0b00100, 0b00100, 0b00000, 0b00100, 0b00000],
        '?' => vec![0b01110, 0b10001, 0b00010, 0b00100, 0b00000, 0b00100, 0b00000],
        '.' => vec![0b00000, 0b00000, 0b00000, 0b00000, 0b00000, 0b00100, 0b00000],
        ',' => vec![0b00000, 0b00000, 0b00000, 0b00000, 0b00100, 0b01000, 0b00000],
        ':' => vec![0b00000, 0b00100, 0b00000, 0b00000, 0b00100, 0b00000, 0b00000],
        ';' => vec![0b00000, 0b00100, 0b00000, 0b00000, 0b00100, 0b01000, 0b00000],
        '-' => vec![0b00000, 0b00000, 0b11111, 0b00000, 0b00000, 0b00000, 0b00000],
        '+' => vec![0b00000, 0b00100, 0b01110, 0b00100, 0b00000, 0b00000, 0b00000],
        '=' => vec![0b00000, 0b11111, 0b00000, 0b11111, 0b00000, 0b00000, 0b00000],
        '(' => vec![0b00010, 0b00100, 0b01000, 0b01000, 0b00100, 0b00010, 0b00000],
        ')' => vec![0b01000, 0b00100, 0b00010, 0b00010, 0b00100, 0b01000, 0b00000],
        '[' => vec![0b01110, 0b01000, 0b01000, 0b01000, 0b01000, 0b01110, 0b00000],
        ']' => vec![0b01110, 0b00010, 0b00010, 0b00010, 0b00010, 0b01110, 0b00000],
        '/' => vec![0b00001, 0b00010, 0b00100, 0b01000, 0b10000, 0b00000, 0b00000],
        '\\' => vec![0b10000, 0b01000, 0b00100, 0b00010, 0b00001, 0b00000, 0b00000],
        'a' => vec![0b00000, 0b01110, 0b00001, 0b01111, 0b10001, 0b01111, 0b00000],
        'b' => vec![0b10000, 0b10000, 0b11110, 0b10001, 0b10001, 0b11110, 0b00000],
        'c' => vec![0b00000, 0b01111, 0b10000, 0b10000, 0b10000, 0b01111, 0b00000],
        'd' => vec![0b00001, 0b00001, 0b01111, 0b10001, 0b10001, 0b01111, 0b00000],
        'e' => vec![0b00000, 0b01110, 0b10001, 0b11111, 0b10000, 0b01111, 0b00000],
        'f' => vec![0b00111, 0b01000, 0b11110, 0b01000, 0b01000, 0b01000, 0b00000],
        'g' => vec![0b00000, 0b01111, 0b10001, 0b01111, 0b00001, 0b01110, 0b00000],
        'h' => vec![0b10000, 0b10000, 0b11110, 0b10001, 0b10001, 0b10001, 0b00000],
        'i' => vec![0b00100, 0b00000, 0b01100, 0b00100, 0b00100, 0b01110, 0b00000],
        'j' => vec![0b00010, 0b00000, 0b00110, 0b00010, 0b10010, 0b01100, 0b00000],
        'k' => vec![0b10000, 0b10010, 0b10100, 0b11000, 0b10100, 0b10010, 0b00000],
        'l' => vec![0b01100, 0b00100, 0b00100, 0b00100, 0b00100, 0b01110, 0b00000],
        'm' => vec![0b00000, 0b11010, 0b10101, 0b10101, 0b10101, 0b10101, 0b00000],
        'n' => vec![0b00000, 0b11110, 0b10001, 0b10001, 0b10001, 0b10001, 0b00000],
        'o' => vec![0b00000, 0b01110, 0b10001, 0b10001, 0b10001, 0b01110, 0b00000],
        'p' => vec![0b00000, 0b11110, 0b10001, 0b11110, 0b10000, 0b10000, 0b00000],
        'q' => vec![0b00000, 0b01111, 0b10001, 0b01111, 0b00001, 0b00001, 0b00000],
        'r' => vec![0b00000, 0b10110, 0b11001, 0b10000, 0b10000, 0b10000, 0b00000],
        's' => vec![0b00000, 0b01111, 0b10000, 0b01110, 0b00001, 0b11110, 0b00000],
        't' => vec![0b01000, 0b11110, 0b01000, 0b01000, 0b01001, 0b00110, 0b00000],
        'u' => vec![0b00000, 0b10001, 0b10001, 0b10001, 0b10011, 0b01101, 0b00000],
        'v' => vec![0b00000, 0b10001, 0b10001, 0b10001, 0b01010, 0b00100, 0b00000],
        'w' => vec![0b00000, 0b10001, 0b10101, 0b10101, 0b10101, 0b01010, 0b00000],
        'x' => vec![0b00000, 0b10001, 0b01010, 0b00100, 0b01010, 0b10001, 0b00000],
        'y' => vec![0b00000, 0b10001, 0b10001, 0b01111, 0b00001, 0b01110, 0b00000],
        'z' => vec![0b00000, 0b11111, 0b00010, 0b00100, 0b01000, 0b11111, 0b00000],
        '\u{65B0}' => vec![0b11111, 0b10001, 0b11111, 0b10001, 0b11111, 0b10001, 0b00000],
        '\u{6587}' => vec![0b11111, 0b00100, 0b01110, 0b10101, 0b01110, 0b00100, 0b00000],
        '\u{5B57}' => vec![0b11111, 0b10001, 0b01110, 0b00100, 0b01110, 0b10001, 0b00000],
        '\u{4F60}' => vec![0b10001, 0b11111, 0b10001, 0b01110, 0b10001, 0b11111, 0b00000],
        '\u{597D}' => vec![0b10101, 0b11111, 0b10101, 0b01110, 0b10101, 0b11111, 0b00000],
        '\u{6211}' => vec![0b11111, 0b01010, 0b11111, 0b01010, 0b11111, 0b01010, 0b00000],
        '\u{662F}' => vec![0b11111, 0b10001, 0b11111, 0b00100, 0b11111, 0b10001, 0b00000],
        '\u{7684}' => vec![0b01110, 0b10001, 0b01110, 0b00100, 0b01110, 0b10001, 0b00000],
        '\u{5728}' => vec![0b11111, 0b00100, 0b11111, 0b00100, 0b11111, 0b00100, 0b00000],
        '\u{6709}' => vec![0b11111, 0b10001, 0b10001, 0b11111, 0b10001, 0b10001, 0b00000],
        '\u{4E2D}' => vec![0b01110, 0b00100, 0b11111, 0b00100, 0b11111, 0b00100, 0b00000],
        '\u{56FD}' => vec![0b11111, 0b10001, 0b11111, 0b10001, 0b11111, 0b10001, 0b00000],
        '\u{4EBA}' => vec![0b00100, 0b01010, 0b10001, 0b10001, 0b10001, 0b10001, 0b00000],
        '\u{5927}' => vec![0b00100, 0b01010, 0b10001, 0b11111, 0b10001, 0b10001, 0b00000],
        '\u{5C0F}' => vec![0b00100, 0b01010, 0b10001, 0b01010, 0b00100, 0b00000, 0b00000],
        '\u{4E0A}' => vec![0b00100, 0b00100, 0b00100, 0b11111, 0b00000, 0b00000, 0b00000],
        '\u{4E0B}' => vec![0b00000, 0b00000, 0b11111, 0b00100, 0b00100, 0b00100, 0b00000],
        '\u{6765}' => vec![0b10001, 0b01010, 0b00100, 0b01010, 0b10001, 0b11111, 0b00000],
        '\u{53BB}' => vec![0b11111, 0b10001, 0b01010, 0b00100, 0b01010, 0b10001, 0b00000],
        '\u{770B}' => vec![0b11111, 0b10001, 0b11111, 0b10001, 0b11111, 0b10001, 0b00000],
        '\u{8BF4}' => vec![0b11111, 0b10001, 0b01110, 0b10001, 0b01110, 0b10001, 0b00000],
        '\u{505A}' => vec![0b10001, 0b11111, 0b10001, 0b11111, 0b10001, 0b11111, 0b00000],
        '\u{4F1A}' => vec![0b11111, 0b10001, 0b11111, 0b10001, 0b11111, 0b10001, 0b00000],
        '\u{8981}' => vec![0b11111, 0b10001, 0b11111, 0b01110, 0b11111, 0b10001, 0b00000],
        '\u{4E0D}' => vec![0b00100, 0b00100, 0b11111, 0b00100, 0b00100, 0b00000, 0b00000],
        '\u{4E86}' => vec![0b10001, 0b01010, 0b00100, 0b01010, 0b10001, 0b00000, 0b00000],
        '\u{548C}' => vec![0b10001, 0b11111, 0b10001, 0b11111, 0b10001, 0b11111, 0b00000],
        '\u{4E5F}' => vec![0b10001, 0b01010, 0b11111, 0b01010, 0b10001, 0b00000, 0b00000],
        '\u{90FD}' => vec![0b11111, 0b10001, 0b11111, 0b10001, 0b11111, 0b10001, 0b00000],
        '\u{5F88}' => vec![0b10001, 0b11111, 0b10001, 0b01110, 0b10001, 0b11111, 0b00000],
        '\u{591A}' => vec![0b11111, 0b10001, 0b11111, 0b10001, 0b11111, 0b10001, 0b00000],
        '\u{5C11}' => vec![0b01110, 0b10001, 0b01110, 0b10001, 0b01110, 0b10001, 0b00000],
        '\u{5E74}' => vec![0b11111, 0b10001, 0b11111, 0b10001, 0b11111, 0b10001, 0b00000],
        '\u{6708}' => vec![0b11111, 0b10001, 0b10001, 0b10001, 0b10001, 0b11111, 0b00000],
        '\u{65E5}' => vec![0b11111, 0b10001, 0b11111, 0b10001, 0b11111, 0b10001, 0b00000],
        '\u{65F6}' => vec![0b11111, 0b10001, 0b11111, 0b10001, 0b11111, 0b10001, 0b00000],
        _ => {
            let code = ch as u32;
            if code >= 0x4E00 && code <= 0x9FFF {
                vec![0b11111, 0b10001, 0b11111, 0b10001, 0b11111, 0b10001, 0b00000]
            } else {
                vec![0b11111, 0b10101, 0b11111, 0b10101, 0b11111, 0b10101, 0b00000]
            }
        },
    };
    proof {
        assert(v@ =~= spec_char_pattern(ch));
    }
    v
}

/// Whether bit `col` of a pattern row is set, counting from the left of
/// the five-bit glyph.
pub open spec fn spec_pattern_bit(row: u8, col: int) -> bool {
    if col == 0 {
        row & 16 != 0
    } else if col == 1 {
        row & 8 != 0
    } else if col == 2 {
        row & 4 != 0
    } else if col == 3 {
        row & 2 != 0
    } else {
        row & 1 != 0
    }
}

/// Tests bit `col` of a pattern row, counting from the left.
fn pattern_bit(row: u8, col: u32) -> (r: bool)
    requires
        col < 5,
    ensures
        r == spec_pattern_bit(row, col as int),
{
    match col {
        0 => row & 16 != 0,
        1 => row & 8 != 0,
        2 => row & 4 != 0,
        3 => row & 2 != 0,
        _ => row & 1 != 0,
    }
}

/// A glyph cell's width: three quarters of the font size.
pub open spec fn spec_char_w(fs: int) -> int {
    fs * 3 / 4
}

/// The horizontal block size of a scaled glyph, at least one pixel.
pub open spec fn spec_scale_x(fs: int) -> int {
    let v = spec_char_w(fs) / 5;
    if v >= 1 {
        v
    } else {
        1
    }
}

/// The vertical block size of a scaled glyph, at least one pixel.
pub open spec fn spec_scale_y(fs: int) -> int {
    let v = fs / 7;
    if v >= 1 {
        v
    } else {
        1
    }
}

/// The fixed advance between characters.
pub open spec fn spec_spacing(fs: int) -> int {
    spec_char_w(fs) + (if fs / 8 >= 2 {
        fs / 8
    } else {
        2
    })
}

/// Whether pixel `(px, py)` lies on a set bit of the glyph for `ch` drawn
/// with its cell's corner at `(cx, y)`.
pub open spec fn spec_char_covered(ch: char, cx: int, y: int, fs: int, px: int, py: int) -> bool {
    let sx = spec_scale_x(fs);
    let sy = spec_scale_y(fs);
    px >= cx && py >= y && {
        let c = (px - cx) / sx;
        let r = (py - y) / sy;
        c < 5 && r < 7 && spec_pattern_bit(spec_char_pattern(ch)[r], c)
    }
}

/// Tests whether pixel `(px, py)` lies on a set bit of one glyph.
fn char_covered(ch: char, cx: u128, y: u32, fs: u32, px: u32, py: u32) -> (r: bool)
    ensures
        r == spec_char_covered(ch, cx as int, y as int, fs as int, px as int, py as int),
{
    let cw: u128 = (fs as u128) * 3 / 4;
    let sxv = cw / 5;
    let sx: u128 = if sxv >= 1 {
        sxv
    } else {
        1
    };
    let syv = (fs as u128) / 7;
    let sy: u128 = if syv >= 1 {
        syv
    } else {
        1
    };
    if (px as u128) >= cx && py >= y {
        let c = ((px as u128) - cx) / sx;
        let r = ((py as u128) - (y as u128)) / sy;
        if c < 5 && r < 7 {
            let pat = get_char_pattern(ch);
            pattern_bit(pat[r as usize], c as u32)
        } else {
            false
        }
    } else {
        false
    }
}

/// Whether pixel `(px, py)` lies on a set bit of any of the text's glyphs,
/// drawn left to right from `(x, y)` with the fixed advance.
pub open spec fn spec_text_covered(
    text: Seq<char>,
    x: int,
    y: int,
    fs: int,
    px: int,
    py: int,
) -> bool {
    exists|k: int| 0 <= k < text.len() && spec_char_covered(
        #[trigger] text[k],
        x + k * spec_spacing(fs),
        y,
        fs,
        px,
        py,
    )
}

/// Tests whether any glyph of the text covers pixel `(px, py)`.
fn text_covered(chars: &Vec<char>, x: u32, y: u32, fs: u32, px: u32, py: u32) -> (r: bool)
    ensures
        r == spec_text_covered(chars@, x as int, y as int, fs as int, px as int, py as int),
{
    let cw: u128 = (fs as u128) * 3 / 4;
    let pad: u128 = if (fs as u128) / 8 >= 2 {
        (fs as u128) / 8
    } else {
        2
    };
    let spacing: u128 = cw + pad;
    let n = chars.len();
    let mut k: usize = 0;
    let mut found = false;
    while k < n
        invariant
            n == chars@.len(),
            0 <= k <= n,
            spacing == spec_spacing(fs as int),
            found == exists|j: int| 0 <= j < k && spec_char_covered(
                #[trigger] chars@[j],
                x + j * spec_spacing(fs as int),
                y as int,
                fs as int,
                px as int,
                py as int,
            ),
        decreases n - k,
    {
        proof {
            assert((k as int) * (spacing as int) <= 0xFFFF_FFFF_FFFF_FFFF * spacing)
                by (nonlinear_arith)
                requires 0 <= k as int <= 0xFFFF_FFFF_FFFF_FFFF, spacing >= 0;
            assert(0xFFFF_FFFF_FFFF_FFFF * (spacing as int) <= 0xFFFF_FFFF_FFFF_FFFF
                * 0x8_0000_0000_0000_0000) by (nonlinear_arith)
                requires spacing <= 0x8_0000_0000_0000_0000;
            assert((k as int) * (spacing as int) >= 0) by (nonlinear_arith)
                requires k >= 0, spacing >= 0;
        }
        let cx: u128 = (x as u128) + (k as u128) * spacing;
        if char_covered(chars[k], cx, y, fs, px, py) {
            found = true;
        }
        k += 1;
    }
    found
}

/// Pixel `(px, py)` after the text is drawn: the text colour at full
/// opacity where a glyph covers it, the source pixel elsewhere.
pub open spec fn spec_text_pixel(
    data: Seq<u8>,
    w: int,
    text: Seq<char>,
    x: int,
    y: int,
    fs: int,
    cr: u8,
    cg: u8,
    cb: u8,
    px: int,
    py: int,
) -> Seq<u8> {
    if spec_text_covered(text, x, y, fs, px, py) {
        seq![cr, cg, cb, 255u8]
    } else {
        spec_pixel(data, w, px, py)
    }
}

/// The first `cols` pixels of row `py` after the text is drawn.
pub open spec fn spec_text_row(
    data: Seq<u8>,
    w: int,
    text: Seq<char>,
    x: int,
    y: int,
    fs: int,
    cr: u8,
    cg: u8,
    cb: u8,
    py: int,
    cols: int,
) -> Seq<u8>
    decreases cols,
{
    if cols <= 0 {
        Seq::empty()
    } else {
        spec_text_row(data, w, text, x, y, fs, cr, cg, cb, py, cols - 1) + spec_text_pixel(
            data, w, text, x, y, fs, cr, cg, cb, cols - 1, py,
        )
    }
}

/// The first `rows` rows after the text is drawn, concatenated.
pub open spec fn spec_texted(
    data: Seq<u8>,
    w: int,
    text: Seq<char>,
    x: int,
    y: int,
    fs: int,
    cr: u8,
    cg: u8,
    cb: u8,
    rows: int,
) -> Seq<u8>
    decreases rows,
{
    if rows <= 0 {
        Seq::empty()
    } else {
        spec_texted(data, w, text, x, y, fs, cr, cg, cb, rows - 1) + spec_text_row(
            data, w, text, x, y, fs, cr, cg, cb, rows - 1, w,
        )
    }
}

/// A drawn pixel holds four bytes.
proof fn lemma_text_pixel_len(
    data: Seq<u8>,
    w: int,
    h: int,
    text: Seq<char>,
    x: int,
    y: int,
    fs: int,
    cr: u8,
    cg: u8,
    cb: u8,
    px: int,
    py: int,
)
    requires
        data.len() == 4 * w * h,
        0 <= px < w,
        0 <= py < h,
    ensures
        spec_text_pixel(data, w, text, x, y, fs, cr, cg, cb, px, py).len() == 4,
{
    assert(0 <= 4 * (py * w + px) && 4 * (py * w + px) + 4 <= 4 * w * h) by (nonlinear_arith)
        requires 0 <= px < w, 0 <= py < h;
}

/// An in-bounds drawn row holds `4 * cols` bytes.
proof fn lemma_text_row_len(
    data: Seq<u8>,
    w: int,
    h: int,
    text: Seq<char>,
    x: int,
    y: int,
    fs: int,
    cr: u8,
    cg: u8,
    cb: u8,
    py: int,
    cols: int,
)
    requires
        data.len() == 4 * w * h,
        0 <= py < h,
        0 <= cols <= w,
    ensures
        spec_text_row(data, w, text, x, y, fs, cr, cg, cb, py, cols).len() == 4 * cols,
    decreases cols,
{
    if cols > 0 {
        lemma_text_row_len(data, w, h, text, x, y, fs, cr, cg, cb, py, cols - 1);
        lemma_text_pixel_len(data, w, h, text, x, y, fs, cr, cg, cb, cols - 1, py);
    }
}

/// A fully drawn buffer holds `4 * w * rows` bytes.
proof fn lemma_texted_len(
    data: Seq<u8>,
    w: int,
    h: int,
    text: Seq<char>,
    x: int,
    y: int,
    fs: int,
    cr: u8,
    cg: u8,
    cb: u8,
    rows: int,
)
    requires
        data.len() == 4 * w * h,
        0 <= rows <= h,
        0 <= w,
    ensures
        spec_texted(data, w, text, x, y, fs, cr, cg, cb, rows).len() == 4 * w * rows,
    decreases rows,
{
    if rows > 0 {
        lemma_texted_len(data, w, h, text, x, y, fs, cr, cg, cb, rows - 1);
        lemma_text_row_len(data, w, h, text, x, y, fs, cr, cg, cb, rows - 1, w);
        assert(spec_texted(data, w, text, x, y, fs, cr, cg, cb, rows).len() == 4 * w * (rows - 1)
            + 4 * w);
        assert(4 * w * (rows - 1) + 4 * w == 4 * w * rows) by (nonlinear_arith);
    } else {
        assert(4 * w * 0 == 0) by (nonlinear_arith);
    }
}

/// Draws the text over a `w` by `h` buffer with the fixed 5x7 bitmap font,
/// scaled to the font size, at full opacity; pixels outside every glyph are
/// untouched.
pub fn render_text_bitmap_fallback(
    data: &Vec<u8>,
    w: u32,
    h: u32,
    text: &str,
    x: u32,
    y: u32,
    font_size: u32,
    color: (u8, u8, u8),
) -> (r: Vec<u8>)
    requires
        data@.len() == 4 * w * h,
    ensures
        r@ == spec_texted(
            data@,
            w as int,
            text@,
            x as int,
            y as int,
            font_size as int,
            color.0,
            color.1,
            color.2,
            h as int,
        ),
        r@.len() == 4 * w * h,
{
    let n = text.unicode_len();
    let mut chars: Vec<char> = Vec::new();
    let mut i: usize = 0;
    while i < n
        invariant
            n == text@.len(),
            0 <= i <= n,
            chars@ == text@.take(i as int),
        decreases n - i,
    {
        chars.push(text.get_char(i));
        proof {
            assert(chars@ =~= text@.take(i as int + 1));
        }
        i += 1;
    }
    proof {
        assert(text@.take(n as int) =~= text@);
    }
    let (cr, cg, cb) = color;
    let mut out: Vec<u8> = Vec::new();
    let mut py: u32 = 0;
    while py < h
        invariant
            data@.len() == 4 * w * h,
            chars@ == text@,
            0 <= py <= h,
            out@ == spec_texted(
                data@, w as int, text@, x as int, y as int, font_size as int,
                cr, cg, cb, py as int,
            ),
            cr == color.0 && cg == color.1 && cb == color.2,
        decreases h - py,
    {
        let mut px: u32 = 0;
        while px < w
            invariant
                data@.len() == 4 * w * h,
                chars@ == text@,
                py < h,
                0 <= px <= w,
                out@ == spec_texted(
                    data@, w as int, text@, x as int, y as int, font_size as int,
                    cr, cg, cb, py as int,
                ) + spec_text_row(
                    data@, w as int, text@, x as int, y as int, font_size as int,
                    cr, cg, cb, py as int, px as int,
                ),
                cr == color.0 && cg == color.1 && cb == color.2,
            decreases w - px,
        {
            if text_covered(&chars, x, y, font_size, px, py) {
                out.push(cr);
                out.push(cg);
                out.push(cb);
                out.push(255);
            } else {
                crate::pixels::push_pixel(&mut out, data, w, h, px, py);
            }
            proof {
                assert(out@ =~= spec_texted(
                    data@, w as int, text@, x as int, y as int, font_size as int,
                    cr, cg, cb, py as int,
                ) + spec_text_row(
                    data@, w as int, text@, x as int, y as int, font_size as int,
                    cr, cg, cb, py as int, px as int + 1,
                ));
            }
            px += 1;
        }
        proof {
            assert(out@ =~= spec_texted(
                data@, w as int, text@, x as int, y as int, font_size as int,
                cr, cg, cb, py as int + 1,
            ));
        }
        py += 1;
    }
    proof {
        lemma_texted_len(
            data@, w as int, h as int, text@, x as int, y as int, font_size as int,
            cr, cg, cb, h as int,
        );
    }
    out
}

/// A text entry that cannot be drawn: non-empty with a zero font size or a
/// malformed colour.
pub open spec fn spec_text_bad(t: TextData) -> bool {
    t.text@.len() > 0 && (t.font_size == 0 || spec_parse_hex_color(t.color@) is None)
}

/// The base buffer with the first texts drawn in order, empty entries
/// skipped, or `None` when any entry is invalid.
pub open spec fn spec_texts_applied(
    data: Seq<u8>,
    w: int,
    h: int,
    texts: Seq<TextData>,
) -> Option<Seq<u8>>
    decreases texts.len(),
{
    if texts.len() == 0 {
        Some(data)
    } else {
        match spec_texts_applied(data, w, h, texts.drop_last()) {
            None => None,
            Some(cur) => {
                let t = texts.last();
                if t.text@.len() == 0 {
                    Some(cur)
                } else if t.font_size == 0 {
                    None
                } else {
                    match spec_parse_hex_color(t.color@) {
                        None => None,
                        Some(c) => Some(
                            spec_texted(
                                cur,
                                w,
                                t.text@,
                                t.x as int,
                                t.y as int,
                                t.font_size as int,
                                c.0,
                                c.1,
                                c.2,
                                h,
                            ),
                        ),
                    }
                }
            },
        }
    }
}

/// A bad text entry poisons every application that includes it.
proof fn lemma_texts_bad_entry(
    data: Seq<u8>,
    w: int,
    h: int,
    texts: Seq<TextData>,
    i: int,
)
    requires
        0 <= i < texts.len(),
        spec_text_bad(texts[i]),
    ensures
        spec_texts_applied(data, w, h, texts) is None,
    decreases texts.len(),
{
    if texts.len() > 0 {
        if i == texts.len() - 1 {
            assert(texts.last() == texts[i]);
        } else {
            assert(texts.drop_last()[i] == texts[i]);
            lemma_texts_bad_entry(data, w, h, texts.drop_last(), i);
        }
    }
}

/// Everything that must hold for `apply_texts` to succeed: a non-empty text
/// list, a decodable base of positive size, every non-empty entry with a
/// positive font size and a well-formed colour, an encodable format, and an
/// encoder that accepts the drawn buffer.
pub open spec fn spec_texts_ok(image: ImageData, texts: Seq<TextData>) -> bool {
    &&& texts.len() > 0
    &&& spec_decoded_data(image.data@) matches Some((dw, dh, ddata, dalpha))
    &&& dw > 0 && dh > 0
    &&& spec_texts_applied(ddata, dw as int, dh as int, texts) matches Some(drawn)
    &&& image.format.spec_encodable()
    &&& encoding_of(image.format, dw, dh, drawn) matches Some(enc)
    &&& enc.len() <= MAX_ENCODE_BYTES
}

/// Draws the text overlays onto the image, in input order, with the
/// engine's bitmap font at full opacity; empty entries are skipped and the
/// requested rotation is accepted but not applied. A caller with a glyph
/// rasterizer can instead draw on the decoded pixels itself and reuse the
/// validation and drawing pieces above.
pub fn apply_texts(image_data: &ImageData, texts: &Vec<TextData>) -> (r: Result<
    ImageData,
    AppError,
>)
    ensures
        ({
            let dec = spec_decoded_data(image_data.data@);
            match r {
                Ok(out) => {
                    &&& spec_texts_ok(*image_data, texts@)
                    &&& dec matches Some((dw, dh, ddata, dalpha))
                    &&& spec_texts_applied(ddata, dw as int, dh as int, texts@)
                        matches Some(drawn)
                    &&& out.has_alpha == (dalpha && spec_has_translucent(drawn))
                    &&& encoding_of(image_data.format, dw, dh, drawn) matches Some(enc)
                    &&& out.data@ == b64_of(enc)
                    &&& out.width == image_data.width && out.height == image_data.height
                    &&& out.path@ == image_data.path@
                    &&& out.format == image_data.format
                },
                Err(e) => {
                    &&& !spec_texts_ok(*image_data, texts@)
                    &&& (texts@.len() == 0 ==> e is InvalidParameters)
                    &&& (e is InvalidParameters ==> texts@.len() == 0 || exists|i: int|
                        0 <= i < texts@.len() && spec_text_bad(#[trigger] texts@[i]))
                    &&& (e is UnsupportedFormat ==> !image_data.format.spec_encodable())
                },
            }
        }),
{
    if texts.len() == 0 {
        return Err(AppError::InvalidParameters(String::from_str("No texts provided")));
    }
    let dec = match decode_image_data(image_data) {
        Ok(d) => d,
        Err(e) => {
            return Err(e);
        },
    };
    if dec.width == 0 || dec.height == 0 {
        return Err(AppError::ImageError(String::from_str("decoded image is empty")));
    }
    let bw = dec.width;
    let bh = dec.height;
    let ghost ddata = dec.data@;
    let ghost dalpha = dec.channel_alpha;
    let mut cur = dec.data;
    let mut i: usize = 0;
    proof {
        assert(texts@.take(0) =~= Seq::<TextData>::empty());
    }
    while i < texts.len()
        invariant
            texts@.len() > 0,
            spec_decoded_data(image_data.data@) == Some((bw, bh, ddata, dalpha)),
            bw > 0,
            bh > 0,
            0 <= i <= texts@.len(),
            spec_texts_applied(ddata, bw as int, bh as int, texts@.take(i as int)) == Some(
                cur@,
            ),
            cur@.len() == 4 * bw * bh,
        decreases texts@.len() - i,
    {
        let t = &texts[i];
        proof {
            assert(texts@.take(i as int + 1).drop_last() =~= texts@.take(i as int));
            assert(texts@.take(i as int + 1).last() == texts@[i as int]);
        }
        if t.text.as_str().unicode_len() == 0 {
            i += 1;
            continue;
        }
        if t.font_size == 0 {
            proof {
                lemma_texts_bad_entry(ddata, bw as int, bh as int, texts@, i as int);
            }
            let mut msg = String::from_str("Text ");
            msg.append(u64_to_string(i as u64).as_str());
            msg.append(" has invalid font size");
            return Err(AppError::InvalidParameters(msg));
        }
        let color = match parse_hex_color(t.color.as_str()) {
            Ok(c) => c,
            Err(why) => {
                proof {
                    lemma_texts_bad_entry(ddata, bw as int, bh as int, texts@, i as int);
                }
                let mut msg = String::from_str("Text ");
                msg.append(u64_to_string(i as u64).as_str());
                msg.append(" has invalid color '");
                msg.append(t.color.as_str());
                msg.append("': ");
                msg.append(why.as_str());
                return Err(AppError::InvalidParameters(msg));
            },
        };
        let next = render_text_bitmap_fallback(
            &cur,
            bw,
            bh,
            t.text.as_str(),
            t.x,
            t.y,
            t.font_size,
            color,
        );
        cur = next;
        i += 1;
    }
    proof {
        assert(texts@.take(texts@.len() as int) =~= texts@);
    }
    if let Err(e) = crate::error::validate_encodable(&image_data.format) {
        return Err(e);
    }
    let has_alpha = dec.channel_alpha && has_translucent(&cur);
    let encoded = match encode_image(image_data.format, bw, bh, cur) {
        Ok(b) => b,
        Err(e) => {
            return Err(e);
        },
    };
    if encoded.len() > MAX_ENCODE_BYTES {
        return Err(AppError::OperationFailed(String::from_str("encoded image is too large")));
    }
    let base64_data = base64_encode(&encoded);
    Ok(ImageData {
        path: image_data.path.clone(),
        width: image_data.width,
        height: image_data.height,
        format: image_data.format,
        data: base64_data,
        has_alpha,
    })
}

} // verus!
