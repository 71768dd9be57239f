//! A color as red, green and blue bytes, written `#rrggbb` in hexadecimal.

use std::rc::Rc;
use vstd::prelude::*;

use crate::chars::{chars_of, string_of};
use crate::external::{holds, MyAny};
use crate::value::MoltValue;

verus! {

/// A color: red, green and blue intensities.
#[derive(Debug, PartialEq, Eq, Structural, Copy, Clone)]
pub struct RGB {
    pub r: u8,
    pub g: u8,
    pub b: u8,
}

/// The lower-case hexadecimal digit for `d` (below 16).
pub open spec fn hex_digit(d: nat) -> char {
    if d < 10 {
        ((d + 48) as u8) as char
    } else {
        ((d + 87) as u8) as char
    }
}

/// The value of the hexadecimal digit `c`, of either case.
pub open spec fn hex_value(c: char) -> Option<nat> {
    if '0' <= c && c <= '9' {
        Some((c as u32 - 48) as nat)
    } else if 'a' <= c && c <= 'f' {
        Some((c as u32 - 87) as nat)
    } else if 'A' <= c && c <= 'F' {
        Some((c as u32 - 55) as nat)
    } else {
        None
    }
}

/// Two hexadecimal digits for the byte `b`.
pub open spec fn hex_byte(b: u8) -> Seq<char> {
    seq![hex_digit((b / 16) as nat), hex_digit((b % 16) as nat)]
}

/// The byte written by the two hexadecimal digits of `s` at `i` and `i + 1`.
pub open spec fn byte_at(s: Seq<char>, i: int) -> Option<u8> {
    match (hex_value(s[i]), hex_value(s[i + 1])) {
        (Some(h), Some(l)) => Some((h * 16 + l) as u8),
        _ => None,
    }
}

/// The text of `c`: `#` and two lower-case hexadecimal digits per channel.
pub open spec fn rgb_text(c: RGB) -> Seq<char> {
    seq!['#'] + hex_byte(c.r) + hex_byte(c.g) + hex_byte(c.b)
}

/// The color that `s` reads as: seven characters, the first of them ASCII and
/// not examined further, then six hexadecimal digits of either case.
pub open spec fn parse_rgb(s: Seq<char>) -> Option<RGB> {
    if s.len() == 7 && s[0] as u32 <= 127 {
        match (byte_at(s, 1), byte_at(s, 3), byte_at(s, 5)) {
            (Some(r), Some(g), Some(b)) => Some(RGB { r, g, b }),
            _ => None,
        }
    } else {
        None
    }
}

fn hex_char(d: u8) -> (c: char)
    requires
        d < 16,
    ensures
        c == hex_digit(d as nat),
{
    if d < 10 {
        (d + 48) as char
    } else {
        (d + 87) as char
    }
}

fn hex_of(c: char) -> (r: Option<u8>)
    ensures
        match hex_value(c) {
            Some(v) => r == Some(v as u8) && v < 16,
            None => r is None,
        },
{
    if '0' <= c && c <= '9' {
        Some((c as u32 - 48) as u8)
    } else if 'a' <= c && c <= 'f' {
        Some((c as u32 - 87) as u8)
    } else if 'A' <= c && c <= 'F' {
        Some((c as u32 - 55) as u8)
    } else {
        None
    }
}

fn read_byte(s: &Vec<char>, i: usize) -> (r: Option<u8>)
    requires
        s@.len() == 7,
        i <= 5,
    ensures
        r == byte_at(s@, i as int),
{
    match (hex_of(s[i]), hex_of(s[i + 1])) {
        (Some(h), Some(l)) => Some(h * 16 + l),
        _ => None,
    }
}

/// The error for a text that is no color.
fn not_rgb() -> (r: String)
    ensures
        r@ == "Not a hex RGB string"@,
{
    String::from_str("Not a hex RGB string")
}

impl RGB {
    /// The color with the given channels.
    pub fn new(r: u8, g: u8, b: u8) -> (c: RGB)
        ensures
            c.r == r,
            c.g == g,
            c.b == b,
    {
        RGB { r, g, b }
    }

    /// The color held by `value`, or an error when its text is no color.
    pub fn from_molt(value: &mut MoltValue) -> (r: Result<Rc<Self>, String>)
        ensures
            match parse_rgb(old(value).text()) {
                Some(c) => r matches Ok(p) && *p == c,
                None => r is Err && r->Err_0@ == "Not a hex RGB string"@,
            },
            final(value).text() == old(value).text(),
    {
        match value.as_other::<RGB>() {
            Some(c) => Ok(c),
            None => Err(not_rgb()),
        }
    }

    /// The text of the color, as `rgb_text` gives it.
    pub fn to_string(&self) -> (s: String)
        ensures
            s@ == rgb_text(*self),
    {
        let mut out: Vec<char> = Vec::new();
        out.push('#');
        out.push(hex_char(self.r / 16));
        out.push(hex_char(self.r % 16));
        out.push(hex_char(self.g / 16));
        out.push(hex_char(self.g % 16));
        out.push(hex_char(self.b / 16));
        out.push(hex_char(self.b % 16));
        assert(out@ =~= rgb_text(*self));
        string_of(&out)
    }

    /// The color that `s` reads as, as `parse_rgb` describes.
    pub fn parse(s: &str) -> (r: Option<RGB>)
        ensures
            r == parse_rgb(s@),
    {
        let t = chars_of(s);
        if t.len() != 7 || t[0] as u32 > 127 {
            return None;
        }
        match (read_byte(&t, 1), read_byte(&t, 3), read_byte(&t, 5)) {
            (Some(r), Some(g), Some(b)) => Some(RGB { r, g, b }),
            _ => None,
        }
    }
}

proof fn lemma_hex_byte(b: u8)
    ensures
        hex_value(hex_digit((b / 16) as nat)) == Some((b / 16) as nat),
        hex_value(hex_digit((b % 16) as nat)) == Some((b % 16) as nat),
        ((b / 16) as nat * 16 + (b % 16) as nat) as u8 == b,
{
}

impl MyAny for RGB {
    open spec fn tag_spec() -> Seq<char> {
        "RGB"@
    }

    open spec fn text_spec(&self) -> Seq<char> {
        rgb_text(*self)
    }

    open spec fn parse_spec(s: Seq<char>) -> Option<Self> {
        parse_rgb(s)
    }

    fn tag() -> (r: &'static str) {
        "RGB"
    }

    fn to_text(&self) -> (r: String) {
        self.to_string()
    }

    fn parse_text(s: &str) -> (r: Option<Self>) {
        RGB::parse(s)
    }

    proof fn lemma_parse_text(v: Self) {
        lemma_hex_byte(v.r);
        lemma_hex_byte(v.g);
        lemma_hex_byte(v.b);
        let s = rgb_text(v);
        assert(s[1] == hex_digit((v.r / 16) as nat));
        assert(s[2] == hex_digit((v.r % 16) as nat));
        assert(s[3] == hex_digit((v.g / 16) as nat));
        assert(s[4] == hex_digit((v.g % 16) as nat));
        assert(s[5] == hex_digit((v.b / 16) as nat));
        assert(s[6] == hex_digit((v.b % 16) as nat));
    }
}

impl std::str::FromStr for RGB {
    type Err = String;

    /// Reads a color written `#rrggbb`.
    fn from_str(s: &str) -> Result<Self, Self::Err> {
        match RGB::parse(s) {
            Some(c) => Ok(c),
            None => Err(not_rgb()),
        }
    }
}

} // verus!
