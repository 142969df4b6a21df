//! Color handling: parsing `#rrggbb` color strings into fixed-point RGB
//! vectors, and the fixed cycling palettes of the point- and
//! triangle-capture demos.

use crate::fixed::ONE;
use crate::linear_algebra::{Vec3, Vec4};
use vstd::prelude::*;
use vstd::string::*;

verus! {

/// The value of a hexadecimal digit, case-insensitive; 16 marks a character
/// that is no hexadecimal digit.
pub open spec fn hex_digit_val(c: char) -> int {
    if '0' <= c <= '9' {
        c as u32 - '0' as u32
    } else if 'a' <= c <= 'f' {
        c as u32 - 'a' as u32 + 10
    } else if 'A' <= c <= 'F' {
        c as u32 - 'A' as u32 + 10
    } else {
        16
    }
}

/// A well-formed color string: exactly `#` followed by six hexadecimal
/// digits.
pub open spec fn is_hex_color(s: Seq<char>) -> bool {
    s.len() == 7 && s[0] == '#' && (forall|i: int| 1 <= i < 7 ==> hex_digit_val(s[i]) < 16)
}

/// The value of the two-digit channel starting at position `i`.
pub open spec fn hex_pair(s: Seq<char>, i: int) -> int {
    16 * hex_digit_val(s[i]) + hex_digit_val(s[i + 1])
}

/// An eight-bit channel value scaled into fixed point: full intensity `255`
/// becomes exactly `ONE`.
pub open spec fn channel_raw(v: int) -> int {
    v * ONE / 255
}

/// The fixed-point RGB vector a well-formed color string denotes.
pub open spec fn hex_color(s: Seq<char>) -> Vec3 {
    Vec3(
        channel_raw(hex_pair(s, 1)) as i64,
        channel_raw(hex_pair(s, 3)) as i64,
        channel_raw(hex_pair(s, 5)) as i64,
    )
}

/// Decodes one hexadecimal digit, either case.
fn hex_digit(c: char) -> (r: Option<u8>)
    ensures
        r == if hex_digit_val(c) < 16 {
            Some(hex_digit_val(c) as u8)
        } else {
            None::<u8>
        },
{
    let u = c as u32;
    if 48 <= u && u <= 57 {
        Some((u - 48) as u8)
    } else if 97 <= u && u <= 102 {
        Some((u - 97 + 10) as u8)
    } else if 65 <= u && u <= 70 {
        Some((u - 65 + 10) as u8)
    } else {
        None
    }
}

/// Scales an eight-bit channel into fixed point.
fn channel_to_raw(v: u8) -> (r: i64)
    ensures
        r as int == channel_raw(v as int),
        0 <= r <= ONE,
{
    let wide: u32 = (v as u32) * 65536;
    let q: u32 = wide / 255;
    q as i64
}

/// Parses a `#rrggbb` color string into a fixed-point RGB vector. Returns
/// nothing — and callers drop the submission entirely — when the string is
/// malformed: wrong length, missing `#`, or a non-hexadecimal digit.
pub fn hex_to_rgb(hex: &str) -> (r: Option<Vec3>)
    ensures
        r == if is_hex_color(hex@) {
            Some(hex_color(hex@))
        } else {
            None::<Vec3>
        },
{
    if hex.unicode_len() != 7 {
        return None;
    }
    if hex.get_char(0) != '#' {
        return None;
    }
    let mut digits: [u8; 6] = [0, 0, 0, 0, 0, 0];
    let mut i: usize = 0;
    while i < 6
        invariant
            i <= 6,
            hex@.len() == 7,
            forall|k: int| 1 <= k <= i ==> #[trigger] hex_digit_val(hex@[k]) < 16,
            forall|k: int| 1 <= k <= i ==> digits@[k - 1] as int == #[trigger] hex_digit_val(
                hex@[k],
            ),
        decreases 6 - i,
    {
        match hex_digit(hex.get_char(i + 1)) {
            Some(d) => {
                digits[i] = d;
            },
            None => {
                return None;
            },
        }
        i = i + 1;
    }
    proof {
        assert(digits@[0] as int == hex_digit_val(hex@[1]) && hex_digit_val(hex@[1]) < 16);
        assert(digits@[1] as int == hex_digit_val(hex@[2]) && hex_digit_val(hex@[2]) < 16);
        assert(digits@[2] as int == hex_digit_val(hex@[3]) && hex_digit_val(hex@[3]) < 16);
        assert(digits@[3] as int == hex_digit_val(hex@[4]) && hex_digit_val(hex@[4]) < 16);
        assert(digits@[4] as int == hex_digit_val(hex@[5]) && hex_digit_val(hex@[5]) < 16);
        assert(digits@[5] as int == hex_digit_val(hex@[6]) && hex_digit_val(hex@[6]) < 16);
    }
    Some(
        Vec3(
            channel_to_raw(16 * digits[0] + digits[1]),
            channel_to_raw(16 * digits[2] + digits[3]),
            channel_to_raw(16 * digits[4] + digits[5]),
        ),
    )
}

/// The fixed eight-color cycling palette, as RGB: black, red, yellow,
/// green, blue, magenta, cyan, white.
pub open spec fn palette_rgb(i: int) -> Vec3 {
    if i == 0 {
        Vec3(0, 0, 0)
    } else if i == 1 {
        Vec3(ONE, 0, 0)
    } else if i == 2 {
        Vec3(ONE, ONE, 0)
    } else if i == 3 {
        Vec3(0, ONE, 0)
    } else if i == 4 {
        Vec3(0, 0, ONE)
    } else if i == 5 {
        Vec3(ONE, 0, ONE)
    } else if i == 6 {
        Vec3(0, ONE, ONE)
    } else {
        Vec3(ONE, ONE, ONE)
    }
}

/// The same palette with a full alpha channel.
pub open spec fn palette_rgba(i: int) -> Vec4 {
    Vec4(palette_rgb(i).0, palette_rgb(i).1, palette_rgb(i).2, ONE)
}

/// The palette color for the vertex at the given running index: the palette
/// cycles every eight vertices.
pub fn palette3(idx: usize) -> (c: Vec3)
    ensures
        c == palette_rgb((idx % 8) as int),
{
    let i = idx % 8;
    if i == 0 {
        Vec3(0, 0, 0)
    } else if i == 1 {
        Vec3(ONE, 0, 0)
    } else if i == 2 {
        Vec3(ONE, ONE, 0)
    } else if i == 3 {
        Vec3(0, ONE, 0)
    } else if i == 4 {
        Vec3(0, 0, ONE)
    } else if i == 5 {
        Vec3(ONE, 0, ONE)
    } else if i == 6 {
        Vec3(0, ONE, ONE)
    } else {
        Vec3(ONE, ONE, ONE)
    }
}

/// The cycling palette color with a full alpha channel.
pub fn palette4(idx: usize) -> (c: Vec4)
    ensures
        c == palette_rgba((idx % 8) as int),
{
    let rgb = palette3(idx);
    Vec4(rgb.0, rgb.1, rgb.2, ONE)
}

} // verus!
