//! Eight-bit sRGB colors and their `#rrggbb` text form.

use crate::error::EngineError;
use crate::text::{decimal_digits, push_char, push_decimal, to_chars};
use vstd::prelude::*;
use vstd::string::StringExecFns;

verus! {

/// An sRGB color quantized to eight bits per channel.
#[derive(Debug, Clone, Copy, PartialEq, Eq, Structural)]
pub struct Srgb8 {
    pub r: u8,
    pub g: u8,
    pub b: u8,
}

/// The value of a hexadecimal digit, in either case.
pub open spec fn hex_value(c: char) -> Option<u8> {
    if '0' <= c <= '9' {
        Some((c as u32 - '0' as u32) as u8)
    } else if 'a' <= c <= 'f' {
        Some((c as u32 - 'a' as u32 + 10) as u8)
    } else if 'A' <= c <= 'F' {
        Some((c as u32 - 'A' as u32 + 10) as u8)
    } else {
        None
    }
}

/// The lower-case hexadecimal digit of a value below 16.
pub open spec fn hex_char(v: u8) -> char {
    if v < 10 {
        ('0' as u32 + v as u32) as u8 as char
    } else {
        ('a' as u32 + (v - 10) as u32) as u8 as char
    }
}

/// The text after the optional leading `#`.
pub open spec fn hex_body(s: Seq<char>) -> Seq<char> {
    if s.len() > 0 && s[0] == '#' {
        s.drop_first()
    } else {
        s
    }
}

/// The two characters at `at` and `at + 1` are hexadecimal digits.
pub open spec fn is_hex_pair(body: Seq<char>, at: int) -> bool {
    hex_value(body[at]) is Some && hex_value(body[at + 1]) is Some
}

/// The value of the two hexadecimal digits at `at` and `at + 1`.
pub open spec fn hex_pair(body: Seq<char>, at: int) -> u8 {
    (hex_value(body[at])->0 * 16 + hex_value(body[at + 1])->0) as u8
}

/// The text is a color: an optional `#` and exactly six hexadecimal digits.
pub open spec fn is_hex_color(s: Seq<char>) -> bool {
    let body = hex_body(s);
    &&& body.len() == 6
    &&& is_hex_pair(body, 0)
    &&& is_hex_pair(body, 2)
    &&& is_hex_pair(body, 4)
}

/// The color that a hex color text names.
pub open spec fn hex_color(s: Seq<char>) -> Srgb8 {
    let body = hex_body(s);
    Srgb8 { r: hex_pair(body, 0), g: hex_pair(body, 2), b: hex_pair(body, 4) }
}

/// What is wrong with a text that is no hex color: its length, or else the
/// first channel with a character that is no hexadecimal digit.
pub open spec fn hex_complaint(s: Seq<char>) -> Seq<char> {
    let body = hex_body(s);
    if body.len() != 6 {
        "expected 6 hex digits, got "@ + decimal_digits(body.len())
    } else if !is_hex_pair(body, 0) {
        "invalid red component: invalid digit found in string"@
    } else if !is_hex_pair(body, 2) {
        "invalid green component: invalid digit found in string"@
    } else {
        "invalid blue component: invalid digit found in string"@
    }
}

/// The `#rrggbb` text of a color, in lower case.
pub open spec fn hex_text(c: Srgb8) -> Seq<char> {
    seq![
        '#',
        hex_char(c.r / 16),
        hex_char(c.r % 16),
        hex_char(c.g / 16),
        hex_char(c.g % 16),
        hex_char(c.b / 16),
        hex_char(c.b % 16),
    ]
}

/// The value of a hexadecimal digit, if `c` is one.
pub fn hex_digit(c: char) -> (v: Option<u8>)
    ensures
        v == hex_value(c),
        v is Some ==> v->0 < 16,
{
    if '0' <= c && c <= '9' {
        Some((c as u32 - '0' as u32) as u8)
    } else if 'a' <= c && c <= 'f' {
        Some((c as u32 - 'a' as u32 + 10) as u8)
    } else if 'A' <= c && c <= 'F' {
        Some((c as u32 - 'A' as u32 + 10) as u8)
    } else {
        None
    }
}

/// The lower-case hexadecimal digit of `v`.
pub fn hex_digit_char(v: u8) -> (c: char)
    requires
        v < 16,
    ensures
        c == hex_char(v),
        hex_value(c) == Some(v),
{
    if v < 10 {
        ('0' as u8 + v) as char
    } else {
        ('a' as u8 + (v - 10)) as char
    }
}

/// Reads the two hexadecimal digits at `at` and `at + 1`.
fn parse_pair(body: &Vec<char>, offset: usize, at: usize) -> (v: Option<u8>)
    requires
        offset + at + 1 < body.len(),
    ensures
        v is Some <==> is_hex_pair(body@.skip(offset as int), at as int),
        v is Some ==> v->0 == hex_pair(body@.skip(offset as int), at as int),
{
    let high = hex_digit(body[offset + at]);
    let low = hex_digit(body[offset + at + 1]);
    match (high, low) {
        (Some(h), Some(l)) => Some(h * 16 + l),
        _ => None,
    }
}

impl Srgb8 {
    /// Parses a hex color such as `#ff00aa` or `ff00aa`, in either case.
    pub fn from_hex(hex: &str) -> (r: Result<Srgb8, EngineError>)
        ensures
            is_hex_color(hex@) ==> r == Ok::<Srgb8, EngineError>(hex_color(hex@)),
            !is_hex_color(hex@) ==> r is Err && r->Err_0 is InvalidColor && r->Err_0->InvalidColor_0@
                == hex_complaint(hex@),
    {
        let chars: Vec<char> = to_chars(hex);
        let offset: usize = if chars.len() > 0 && chars[0] == '#' {
            1
        } else {
            0
        };
        let ghost body = hex_body(hex@);
        assert(body =~= chars@.skip(offset as int));
        let len: usize = chars.len() - offset;
        if len != 6 {
            let mut detail = String::new();
            detail.append("expected 6 hex digits, got ");
            push_decimal(&mut detail, len);
            return Err(EngineError::InvalidColor(detail));
        }
        let r = match parse_pair(&chars, offset, 0) {
            Some(v) => v,
            None => {
                return Err(
                    EngineError::InvalidColor(
                        String::from_str("invalid red component: invalid digit found in string"),
                    ),
                );
            },
        };
        let g = match parse_pair(&chars, offset, 2) {
            Some(v) => v,
            None => {
                return Err(
                    EngineError::InvalidColor(
                        String::from_str("invalid green component: invalid digit found in string"),
                    ),
                );
            },
        };
        let b = match parse_pair(&chars, offset, 4) {
            Some(v) => v,
            None => {
                return Err(
                    EngineError::InvalidColor(
                        String::from_str("invalid blue component: invalid digit found in string"),
                    ),
                );
            },
        };
        Ok(Srgb8 { r, g, b })
    }

    /// The color as `#rrggbb`, in lower case.
    pub fn to_hex(self) -> (text: String)
        ensures
            text@ == hex_text(self),
    {
        let mut out = String::new();
        push_char(&mut out, '#');
        push_char(&mut out, hex_digit_char(self.r / 16));
        push_char(&mut out, hex_digit_char(self.r % 16));
        push_char(&mut out, hex_digit_char(self.g / 16));
        push_char(&mut out, hex_digit_char(self.g % 16));
        push_char(&mut out, hex_digit_char(self.b / 16));
        push_char(&mut out, hex_digit_char(self.b % 16));
        assert(out@ =~= hex_text(self));
        out
    }
}

/// Writing a color as text and reading the text back gives the color.
pub proof fn lemma_hex_round_trip(c: Srgb8)
    ensures
        is_hex_color(hex_text(c)),
        hex_color(hex_text(c)) == c,
{
    let s = hex_text(c);
    let body = hex_body(s);
    assert(body =~= seq![
        hex_char(c.r / 16),
        hex_char(c.r % 16),
        hex_char(c.g / 16),
        hex_char(c.g % 16),
        hex_char(c.b / 16),
        hex_char(c.b % 16),
    ]);
    lemma_hex_char_value(c.r / 16);
    lemma_hex_char_value(c.r % 16);
    lemma_hex_char_value(c.g / 16);
    lemma_hex_char_value(c.g % 16);
    lemma_hex_char_value(c.b / 16);
    lemma_hex_char_value(c.b % 16);
}

/// A hexadecimal digit has the value it was made from.
pub proof fn lemma_hex_char_value(v: u8)
    requires
        v < 16,
    ensures
        hex_value(hex_char(v)) == Some(v),
{
}

} // verus!
