//! Parsing of palette colors written as hex codes.
//!
//! A palette entry is an RGBA hex code: an optional leading `#`, then
//! exactly four digits (one per channel, scaled by 17) or exactly eight
//! digits (two per channel).
use vstd::prelude::*;
use vstd::string::*;

use crate::Color;

verus! {

/// Why a palette color failed to parse.
#[derive(Clone, Copy, PartialEq, Eq, Structural, Debug)]
pub enum HexColorError {
    /// After the optional `#`, the code is not 4 or 8 characters long.
    InvalidLength,
    /// A character of the code is not a hexadecimal digit.
    InvalidDigit,
}

/// Whether a byte is an ASCII hexadecimal digit.
pub open spec fn is_hex_digit(b: u8) -> bool {
    (48 <= b <= 57) || (97 <= b <= 102) || (65 <= b <= 70)
}

/// The value of an ASCII hexadecimal digit.
pub open spec fn hex_val(b: u8) -> int {
    if 48 <= b <= 57 {
        b - 48
    } else if 97 <= b <= 102 {
        b - 87
    } else if 65 <= b <= 70 {
        b - 55
    } else {
        0
    }
}

/// The code with its optional leading `#` stripped.
pub open spec fn hex_body(s: Seq<u8>) -> Seq<u8> {
    if s.len() > 0 && s[0] == 35 {
        s.skip(1)
    } else {
        s
    }
}

/// Whether the stripped code has an accepted length.
pub open spec fn hex_len_ok(s: Seq<u8>) -> bool {
    hex_body(s).len() == 4 || hex_body(s).len() == 8
}

/// Whether the code parses: accepted length and digits throughout.
pub open spec fn hex_grammar_ok(s: Seq<u8>) -> bool {
    hex_len_ok(s) && forall|i: int| 0 <= i < hex_body(s).len() ==> is_hex_digit(
        #[trigger] hex_body(s)[i],
    )
}

/// The channel value of digit pair `i` of an 8-digit body.
pub open spec fn hex_pair(b: Seq<u8>, i: int) -> int {
    16 * hex_val(b[2 * i]) + hex_val(b[2 * i + 1])
}

/// The color a well-formed code denotes: four digits scale each channel by
/// 17, eight digits give each channel a two-digit byte.
pub open spec fn parsed_color(s: Seq<u8>) -> Color {
    let b = hex_body(s);
    if b.len() == 4 {
        Color {
            red: (17 * hex_val(b[0])) as u8,
            green: (17 * hex_val(b[1])) as u8,
            blue: (17 * hex_val(b[2])) as u8,
            alpha: (17 * hex_val(b[3])) as u8,
        }
    } else {
        Color {
            red: hex_pair(b, 0) as u8,
            green: hex_pair(b, 1) as u8,
            blue: hex_pair(b, 2) as u8,
            alpha: hex_pair(b, 3) as u8,
        }
    }
}

fn hex_digit_value(b: u8) -> (r: Option<u8>)
    ensures
        r is Some <==> is_hex_digit(b),
        r is Some ==> r->0 as int == hex_val(b) && r->0 < 16,
{
    if 48 <= b && b <= 57 {
        Some(b - 48)
    } else if 97 <= b && b <= 102 {
        Some(b - 87)
    } else if 65 <= b && b <= 70 {
        Some(b - 55)
    } else {
        None
    }
}

/// Parses one palette color hex code.  Returns the denoted color exactly
/// when the code matches the grammar; otherwise says whether the length or
/// a digit is at fault.
pub fn parse_hex_color(s: &str) -> (r: Result<Color, HexColorError>)
    ensures
        r is Ok <==> hex_grammar_ok(s.spec_bytes()),
        r is Ok ==> r->Ok_0 == parsed_color(s.spec_bytes()),
        r == Err::<Color, HexColorError>(HexColorError::InvalidLength) <==> !hex_len_ok(
            s.spec_bytes(),
        ),
        r == Err::<Color, HexColorError>(HexColorError::InvalidDigit) <==> (hex_len_ok(
            s.spec_bytes(),
        ) && !hex_grammar_ok(s.spec_bytes())),
{
    let bytes: &[u8] = s.as_bytes();
    let n: usize = bytes.len();
    let start: usize = if n > 0 && bytes[0] == 35 {
        1
    } else {
        0
    };
    let ghost body = hex_body(s.spec_bytes());
    proof {
        assert(body =~= s.spec_bytes().skip(start as int));
    }
    let len: usize = n - start;
    if len != 4 && len != 8 {
        return Err(HexColorError::InvalidLength);
    }
    let mut vals: Vec<u8> = Vec::new();
    let mut i: usize = 0;
    while i < len
        invariant
            bytes@ == s.spec_bytes(),
            body == hex_body(s.spec_bytes()),
            body =~= s.spec_bytes().skip(start as int),
            start + len == bytes@.len(),
            body.len() == len,
            len == 4 || len == 8,
            i <= len,
            vals@.len() == i,
            forall|x: int| 0 <= x < i ==> is_hex_digit(#[trigger] body[x]) && vals@[x] as int
                == hex_val(body[x]) && vals@[x] < 16,
        decreases len - i,
    {
        let b: u8 = bytes[start + i];
        assert(b == body[i as int]);
        match hex_digit_value(b) {
            Some(v) => {
                vals.push(v);
                assert(vals@[i as int] == v);
            },
            None => {
                assert(!is_hex_digit(body[i as int]));
                return Err(HexColorError::InvalidDigit);
            },
        }
        i = i + 1;
    }
    proof {
        assert(is_hex_digit(body[0]) && is_hex_digit(body[1]) && is_hex_digit(body[2])
            && is_hex_digit(body[3]));
        if len == 8 {
            assert(is_hex_digit(body[4]) && is_hex_digit(body[5]) && is_hex_digit(body[6])
                && is_hex_digit(body[7]));
        }
    }
    if len == 4 {
        Ok(
            Color::new(
                17 * vals[0],
                17 * vals[1],
                17 * vals[2],
                17 * vals[3],
            ),
        )
    } else {
        Ok(
            Color::new(
                16 * vals[0] + vals[1],
                16 * vals[2] + vals[3],
                16 * vals[4] + vals[5],
                16 * vals[6] + vals[7],
            ),
        )
    }
}

} // verus!
