//! The colours of the greeter: their defaults, their hexadecimal notation,
//! and the overrides given on the command line.

use crate::env::{lookup, value_of, Pair};
use crate::text::{chars_of, parse_u64, parsed_u64, trim, trimmed};
use vstd::prelude::*;

verus! {

/// The seven colours of the greeter, each as `#rrggbb`.
#[derive(Clone, Debug, PartialEq, Eq)]
pub struct Palette {
    pub accent: String,
    pub bg: String,
    pub fg: String,
    pub subfg: String,
    pub card_bg: String,
    pub card_border: String,
    pub shadow: String,
}

/// A [`Palette`] as plain values.
pub struct PaletteView {
    pub accent: Seq<char>,
    pub bg: Seq<char>,
    pub fg: Seq<char>,
    pub subfg: Seq<char>,
    pub card_bg: Seq<char>,
    pub card_border: Seq<char>,
    pub shadow: Seq<char>,
}

impl View for Palette {
    type V = PaletteView;

    open spec fn view(&self) -> PaletteView {
        PaletteView {
            accent: self.accent@,
            bg: self.bg@,
            fg: self.fg@,
            subfg: self.subfg@,
            card_bg: self.card_bg@,
            card_border: self.card_border@,
            shadow: self.shadow@,
        }
    }
}

/// The colours used where no wallpaper gives any.
pub open spec fn default_colours() -> PaletteView {
    PaletteView {
        accent: "#7cc7ff"@,
        bg: "#0e0f12"@,
        fg: "#f2f4f8"@,
        subfg: "#c2c8d2"@,
        card_bg: "#121620"@,
        card_border: "#232a3a"@,
        shadow: "#12151a"@,
    }
}

/// The colours used where no wallpaper gives any.
pub fn default_palette() -> (p: Palette)
    ensures
        p@ == default_colours(),
{
    Palette {
        accent: "#7cc7ff".to_owned(),
        bg: "#0e0f12".to_owned(),
        fg: "#f2f4f8".to_owned(),
        subfg: "#c2c8d2".to_owned(),
        card_bg: "#121620".to_owned(),
        card_border: "#232a3a".to_owned(),
        shadow: "#12151a".to_owned(),
    }
}

// ---------------------------------------------------------------------------
// Hexadecimal notation
// ---------------------------------------------------------------------------

/// The value of a hexadecimal digit, of either case.
pub open spec fn hex_value(c: char) -> Option<int> {
    if '0' <= c && c <= '9' {
        Some(c as int - 48)
    } else if 'a' <= c && c <= 'f' {
        Some(c as int - 87)
    } else if 'A' <= c && c <= 'F' {
        Some(c as int - 55)
    } else {
        None
    }
}

/// The byte that two characters denote: two hexadecimal digits, or a plus
/// sign and one digit.
pub open spec fn hex_byte(high: char, low: char) -> Option<u8> {
    match hex_value(low) {
        Some(l) => if high == '+' {
            Some(l as u8)
        } else {
            match hex_value(high) {
                Some(h) => Some((16 * h + l) as u8),
                None => None,
            }
        },
        None => None,
    }
}

/// The colour that six characters denote, two for each of red, green, blue.
pub open spec fn digits_colour(hex: Seq<char>) -> Option<[u8; 3]> {
    if hex.len() != 6 {
        None
    } else {
        match (hex_byte(hex[0], hex[1]), hex_byte(hex[2], hex[3]), hex_byte(hex[4], hex[5])) {
            (Some(r), Some(g), Some(b)) => Some([r, g, b]),
            _ => None,
        }
    }
}

/// The colour that a text denotes: white space around it and one `#` before
/// it do not count.
pub open spec fn hex_colour(value: Seq<char>) -> Option<[u8; 3]> {
    let t = trimmed(value);
    if t.len() > 0 && t[0] == '#' {
        digits_colour(t.skip(1))
    } else {
        digits_colour(t)
    }
}

fn digit_value(c: char) -> (r: Option<u8>)
    ensures
        match r {
            Some(v) => hex_value(c) == Some(v as int) && v < 16,
            None => hex_value(c) is None,
        },
{
    if '0' <= c && c <= '9' {
        Some((c as u8) - 48)
    } else if 'a' <= c && c <= 'f' {
        Some((c as u8) - 87)
    } else if 'A' <= c && c <= 'F' {
        Some((c as u8) - 55)
    } else {
        None
    }
}

fn byte_of(high: char, low: char) -> (r: Option<u8>)
    ensures
        r == hex_byte(high, low),
{
    match digit_value(low) {
        Some(l) => {
            if high == '+' {
                Some(l)
            } else {
                match digit_value(high) {
                    Some(h) => Some(16 * h + l),
                    None => None,
                }
            }
        },
        None => None,
    }
}

/// Reads a colour in hexadecimal notation.
pub fn parse_hex_color(value: &str) -> (colour: Option<[u8; 3]>)
    ensures
        colour == hex_colour(value@),
{
    let t = trim(value);
    let v = chars_of(t.as_str());
    let start: usize = if v.len() > 0 && v[0] == '#' {
        1
    } else {
        0
    };
    let ghost hex = v@.skip(start as int);
    assert(v@.skip(0) == v@);
    if v.len() - start != 6 {
        return None;
    }
    assert(hex[0] == v@[start as int] && hex[1] == v@[start + 1] && hex[2] == v@[start + 2]
        && hex[3] == v@[start + 3] && hex[4] == v@[start + 4] && hex[5] == v@[start + 5]);
    let r = byte_of(v[start], v[start + 1]);
    let g = byte_of(v[start + 2], v[start + 3]);
    let b = byte_of(v[start + 4], v[start + 5]);
    match (r, g, b) {
        (Some(r), Some(g), Some(b)) => Some([r, g, b]),
        _ => None,
    }
}

/// The lowercase hexadecimal digit for a value below sixteen.
pub open spec fn hex_digit(d: int) -> char
    recommends
        0 <= d < 16,
{
    if d < 10 {
        ((48 + d) as u8) as char
    } else {
        ((87 + d) as u8) as char
    }
}

/// A colour in hexadecimal notation: `#`, then two lowercase digits for each
/// of red, green, blue.
pub open spec fn hex_text(colour: [u8; 3]) -> Seq<char> {
    seq![
        '#',
        hex_digit(colour[0] as int / 16),
        hex_digit(colour[0] as int % 16),
        hex_digit(colour[1] as int / 16),
        hex_digit(colour[1] as int % 16),
        hex_digit(colour[2] as int / 16),
        hex_digit(colour[2] as int % 16),
    ]
}

fn digit_of(d: u8) -> (c: char)
    requires
        d < 16,
    ensures
        c == hex_digit(d as int),
{
    if d < 10 {
        (48 + d) as char
    } else {
        (87 + d) as char
    }
}

/// Writes a colour in hexadecimal notation.
pub fn to_hex(colour: [u8; 3]) -> (out: String)
    ensures
        out@ == hex_text(colour),
{
    let mut out = String::new();
    out.push('#');
    out.push(digit_of(colour[0] / 16));
    out.push(digit_of(colour[0] % 16));
    out.push(digit_of(colour[1] / 16));
    out.push(digit_of(colour[1] % 16));
    out.push(digit_of(colour[2] / 16));
    out.push(digit_of(colour[2] % 16));
    assert(out@ =~= hex_text(colour));
    out
}

proof fn lemma_digit_round_trip(d: int)
    requires
        0 <= d < 16,
    ensures
        hex_value(hex_digit(d)) == Some(d),
        hex_digit(d) != '+',
{
    if d < 10 {
        let c = ((48 + d) as u8) as char;
        assert(c as int == 48 + d);
    } else {
        let c = ((87 + d) as u8) as char;
        assert(c as int == 87 + d);
    }
}

proof fn lemma_byte_round_trip(x: u8)
    ensures
        hex_byte(hex_digit(x as int / 16), hex_digit(x as int % 16)) == Some(x),
{
    lemma_digit_round_trip(x as int / 16);
    lemma_digit_round_trip(x as int % 16);
}

/// What is written is read back as the same colour.
pub proof fn lemma_hex_round_trip(colour: [u8; 3])
    ensures
        digits_colour(hex_text(colour).skip(1)) == Some(colour),
{
    let hex = hex_text(colour).skip(1);
    lemma_byte_round_trip(colour[0]);
    lemma_byte_round_trip(colour[1]);
    lemma_byte_round_trip(colour[2]);
    assert(hex.len() == 6);
    assert(hex[0] == hex_digit(colour[0] as int / 16));
    assert(hex[1] == hex_digit(colour[0] as int % 16));
    assert(hex[2] == hex_digit(colour[1] as int / 16));
    assert(hex[3] == hex_digit(colour[1] as int % 16));
    assert(hex[4] == hex_digit(colour[2] as int / 16));
    assert(hex[5] == hex_digit(colour[2] as int % 16));
    let read = digits_colour(hex)->0;
    assert(read@ =~= colour@);
}

// ---------------------------------------------------------------------------
// Overrides
// ---------------------------------------------------------------------------

/// A colour after the overrides: the override of its name written anew,
/// where there is one and it denotes a colour; else the colour as it was.
pub open spec fn overridden(current: Seq<char>, overrides: Seq<Pair>, name: Seq<char>) -> Seq<
    char,
> {
    match lookup(overrides, name) {
        Some(value) => match hex_colour(value) {
            Some(colour) => hex_text(colour),
            None => current,
        },
        None => current,
    }
}

/// A palette after the overrides.
pub open spec fn with_overrides(p: PaletteView, overrides: Seq<Pair>) -> PaletteView {
    PaletteView {
        accent: overridden(p.accent, overrides, "accent"@),
        bg: overridden(p.bg, overrides, "bg"@),
        fg: overridden(p.fg, overrides, "fg"@),
        subfg: overridden(p.subfg, overrides, "subfg"@),
        card_bg: overridden(p.card_bg, overrides, "card_bg"@),
        card_border: overridden(p.card_border, overrides, "card_border"@),
        shadow: overridden(p.shadow, overrides, "shadow"@),
    }
}

fn override_one(current: &mut String, overrides: &Vec<(String, String)>, name: &str)
    ensures
        final(current)@ == overridden(old(current)@, overrides.deep_view(), name@),
{
    match value_of(overrides, name) {
        Some(value) => match parse_hex_color(value) {
            Some(colour) => {
                *current = to_hex(colour);
            },
            None => {},
        },
        None => {},
    }
}

/// Applies the overrides to a palette.
pub fn apply_overrides(palette: &mut Palette, overrides: &Vec<(String, String)>)
    ensures
        final(palette)@ == with_overrides(old(palette)@, overrides.deep_view()),
{
    override_one(&mut palette.accent, overrides, "accent");
    override_one(&mut palette.bg, overrides, "bg");
    override_one(&mut palette.fg, overrides, "fg");
    override_one(&mut palette.subfg, overrides, "subfg");
    override_one(&mut palette.card_bg, overrides, "card_bg");
    override_one(&mut palette.card_border, overrides, "card_border");
    override_one(&mut palette.shadow, overrides, "shadow");
}

// ---------------------------------------------------------------------------
// Numbers on the command line
// ---------------------------------------------------------------------------

/// Reads a whole number; what is no number is named in the error.
pub fn parse_int(value: &str) -> (r: Result<u64, String>)
    ensures
        match r {
            Ok(n) => parsed_u64(trimmed(value@)) == Some(n),
            Err(message) => parsed_u64(trimmed(value@)) is None && message@ == "invalid number: "@
                + value@,
        },
{
    let t = trim(value);
    match parse_u64(t.as_str()) {
        Some(n) => Ok(n),
        None => {
            let mut message = "invalid number: ".to_owned();
            message.append(value);
            Err(message)
        },
    }
}

} // verus!
