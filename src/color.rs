use vstd::prelude::*;

verus! {

/// A shadow color, one byte per channel.
#[derive(Debug, Clone, Copy, PartialEq, Eq, Structural)]
pub struct ShadowColor {
    pub r: u8,
    pub g: u8,
    pub b: u8,
    pub a: u8,
}

/// The value of an ASCII hexadecimal digit, of either case.
pub open spec fn hex_digit(c: u8) -> Option<u8> {
    if 48 <= c <= 57 {
        Some((c - 48) as u8)
    } else if 97 <= c <= 102 {
        Some((c - 87) as u8)
    } else if 65 <= c <= 70 {
        Some((c - 55) as u8)
    } else {
        None
    }
}

/// Two bytes read as a hexadecimal number, as `u8::from_str_radix(_, 16)` reads
/// them (a leading `+` is allowed), or 0 where they are not one.
pub open spec fn hex_pair(x: u8, y: u8) -> u8 {
    if x == 43 {
        match hex_digit(y) {
            Some(d) => d,
            None => 0,
        }
    } else {
        match (hex_digit(x), hex_digit(y)) {
            (Some(h), Some(l)) => (16 * h + l) as u8,
            _ => 0,
        }
    }
}

/// Whether byte offset `i` of the UTF-8 text `b` falls between two characters.
pub open spec fn char_boundary(b: Seq<u8>, i: int) -> bool {
    i == b.len() || (0 <= i < b.len() && !(0x80 <= b[i] <= 0xBF))
}

/// A color code of the form `0xRRGGBBAA` can be cut into its two-digit fields.
pub open spec fn color_code_fits(b: Seq<u8>) -> bool {
    &&& b.len() >= 10
    &&& char_boundary(b, 2)
    &&& char_boundary(b, 4)
    &&& char_boundary(b, 6)
    &&& char_boundary(b, 8)
    &&& char_boundary(b, 10)
}

fn hex_digit_of(c: u8) -> (r: Option<u8>)
    ensures
        r == hex_digit(c),
{
    if 48 <= c && c <= 57 {
        Some(c - 48)
    } else if 97 <= c && c <= 102 {
        Some(c - 87)
    } else if 65 <= c && c <= 70 {
        Some(c - 55)
    } else {
        None
    }
}

fn hex_pair_of(x: u8, y: u8) -> (r: u8)
    ensures
        r == hex_pair(x, y),
{
    if x == 43 {
        match hex_digit_of(y) {
            Some(d) => d,
            None => 0,
        }
    } else {
        match (hex_digit_of(x), hex_digit_of(y)) {
            (Some(h), Some(l)) => 16 * h + l,
            _ => 0,
        }
    }
}

impl ShadowColor {
    /// Reads the UTF-8 bytes of a code `0xRRGGBBAA`: each channel from its two
    /// characters in hexadecimal, 0 where they are not hexadecimal. The first two
    /// characters are not read.
    pub fn from_code(code: &[u8]) -> (r: ShadowColor)
        requires
            color_code_fits(code@),
        ensures
            r.r == hex_pair(code@[2], code@[3]),
            r.g == hex_pair(code@[4], code@[5]),
            r.b == hex_pair(code@[6], code@[7]),
            r.a == hex_pair(code@[8], code@[9]),
    {
        ShadowColor {
            r: hex_pair_of(code[2], code[3]),
            g: hex_pair_of(code[4], code[5]),
            b: hex_pair_of(code[6], code[7]),
            a: hex_pair_of(code[8], code[9]),
        }
    }
}

} // verus!
