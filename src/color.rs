//! Background colours written as `#rrggbb`.
use vstd::prelude::*;
use vstd::utf8::encode_utf8;

verus! {

#[verifier::external_type_specification]
#[verifier::external_body]
pub struct ExFromHexError(hex::FromHexError);

/// A colour with eight bits per channel.
#[derive(Clone, Copy, Debug, PartialEq, Eq, Structural)]
pub struct Rgb {
    pub r: u8,
    pub g: u8,
    pub b: u8,
}

pub open spec fn is_hex_digit(c: u8) -> bool {
    (48 <= c <= 57) || (65 <= c <= 70) || (97 <= c <= 102)
}

pub open spec fn hex_value(c: u8) -> int {
    if 48 <= c <= 57 {
        c - 48
    } else if 65 <= c <= 70 {
        c - 55
    } else {
        c - 87
    }
}

/// The bytes that a string of hexadecimal digits stands for, two digits per
/// byte, high digit first; `None` for an odd length or a non-digit.
pub open spec fn hex_decoded(s: Seq<u8>) -> Option<Seq<u8>> {
    if s.len() % 2 == 0 && forall|i: int| 0 <= i < s.len() ==> #[trigger] is_hex_digit(s[i]) {
        Some(
            Seq::new(
                (s.len() / 2) as nat,
                |i: int| (hex_value(s[2 * i]) * 16 + hex_value(s[2 * i + 1])) as u8,
            ),
        )
    } else {
        None
    }
}

/// Relies on hex::decode: an even number of digits 0-9, a-f, A-F decodes to
/// one byte per pair, high digit first; anything else is an error.
#[verifier::external_body]
fn decode_hex(s: &[u8]) -> (r: Result<Vec<u8>, hex::FromHexError>)
    ensures
        match r {
            Ok(v) => hex_decoded(s@) == Some(v@),
            Err(_) => hex_decoded(s@) is None,
        },
{
    hex::decode(s)
}

/// The colour that `#rrggbb` (bytes of the text) names: a `#`, then an even
/// number of hex digits of which the first six are used.
pub open spec fn color_of(text: Seq<u8>) -> Option<Rgb> {
    if text.len() > 0 && text[0] == 35u8 {
        match hex_decoded(text.drop_first()) {
            Some(d) => if d.len() >= 3 {
                Some(Rgb { r: d[0], g: d[1], b: d[2] })
            } else {
                None
            },
            None => None,
        }
    } else {
        None
    }
}

/// The background colour of a level: its own colour where it sets one, else
/// the map's default. `None` where that text is not a colour.
pub fn background_color(level_color: &Option<String>, default: &String) -> (r: Option<Rgb>)
    ensures
        r == color_of(
            encode_utf8(
                match level_color {
                    Some(c) => c@,
                    None => default@,
                },
            ),
        ),
{
    let s: &String = match level_color {
        Some(c) => c,
        None => default,
    };
    let bytes = s.as_str().as_bytes();
    if bytes.len() == 0 || bytes[0] != 35u8 {
        return None;
    }
    let (_, digits) = bytes.split_at(1);
    assert(digits@ =~= bytes@.drop_first());
    match decode_hex(digits) {
        Ok(d) => {
            if d.len() >= 3 {
                Some(Rgb { r: d[0], g: d[1], b: d[2] })
            } else {
                None
            }
        },
        Err(_) => None,
    }
}

} // verus!
