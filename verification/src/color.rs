//! Colour values, `#RRGGBB` colour strings and palette entries.

use vstd::prelude::*;
use vstd::string::*;

verus! {

/// A colour with eight bits per channel.
#[derive(Clone, Copy, Debug, PartialEq, Eq, Structural)]
pub struct Rgba {
    pub r: u8,
    pub g: u8,
    pub b: u8,
    pub a: u8,
}

/// The level of each channel of the neutral tone.
pub const NEUTRAL_LEVEL: u8 = 179;

/// The neutral tone: an opaque light grey. Outlines are drawn in it, and it
/// stands in for a palette entry that is no colour.
pub open spec fn spec_neutral_tone() -> Rgba {
    Rgba { r: NEUTRAL_LEVEL, g: NEUTRAL_LEVEL, b: NEUTRAL_LEVEL, a: 255 }
}

/// The neutral tone.
pub fn neutral_tone() -> (c: Rgba)
    ensures
        c == spec_neutral_tone(),
{
    Rgba { r: NEUTRAL_LEVEL, g: NEUTRAL_LEVEL, b: NEUTRAL_LEVEL, a: 255 }
}

/// The value of a hexadecimal digit, or `None` for any other character.
pub open spec fn hex_digit_value(c: char) -> Option<int> {
    if '0' <= c && c <= '9' {
        Some(c as int - '0' as int)
    } else if 'a' <= c && c <= 'f' {
        Some(c as int - 'a' as int + 10)
    } else if 'A' <= c && c <= 'F' {
        Some(c as int - 'A' as int + 10)
    } else {
        None
    }
}

/// The number that a string of hexadecimal digits denotes, most significant
/// digit first; `None` if any character is not a hexadecimal digit.
pub open spec fn hex_value(digits: Seq<char>) -> Option<int>
    decreases digits.len(),
{
    if digits.len() == 0 {
        Some(0)
    } else {
        match (hex_value(digits.drop_last()), hex_digit_value(digits.last())) {
            (Some(high), Some(low)) => Some(16 * high + low),
            _ => None,
        }
    }
}

/// The number that a colour string denotes: the string must be `#` followed
/// by exactly six hexadecimal digits.
pub open spec fn spec_hex_to_u32(color: Seq<char>) -> Option<u32> {
    if color.len() == 7 && color[0] == '#' {
        match hex_value(color.subrange(1, 7)) {
            Some(v) => Some(v as u32),
            None => None,
        }
    } else {
        None
    }
}

/// The opaque colour `0xRRGGBB`; bits above the low 24 are ignored.
pub open spec fn spec_rgba_from_hex(value: u32) -> Rgba {
    Rgba {
        r: ((value / 0x1_0000) % 0x100) as u8,
        g: ((value / 0x100) % 0x100) as u8,
        b: (value % 0x100) as u8,
        a: 255,
    }
}

/// A palette entry that failed to parse becomes the neutral tone.
pub open spec fn spec_color_or_neutral(parsed: Option<Rgba>) -> Rgba {
    match parsed {
        Some(c) => c,
        None => spec_neutral_tone(),
    }
}

/// The power `16^n`.
pub open spec fn sixteen_to(n: nat) -> int
    decreases n,
{
    if n == 0 {
        1
    } else {
        16 * sixteen_to((n - 1) as nat)
    }
}

/// A string of `n` hexadecimal digits denotes a number below `16^n`.
pub proof fn lemma_hex_value_bound(digits: Seq<char>)
    ensures
        hex_value(digits) matches Some(v) ==> 0 <= v < sixteen_to(digits.len()),
    decreases digits.len(),
{
    if digits.len() > 0 {
        lemma_hex_value_bound(digits.drop_last());
    }
}

/// The value of a hexadecimal digit, or `None` for any other character.
pub fn hex_digit(c: char) -> (r: Option<u32>)
    ensures
        match r {
            Some(v) => hex_digit_value(c) == Some(v as int) && v < 16,
            None => hex_digit_value(c).is_none(),
        },
{
    if '0' <= c && c <= '9' {
        Some(c as u32 - '0' as u32)
    } else if 'a' <= c && c <= 'f' {
        Some(c as u32 - 'a' as u32 + 10)
    } else if 'A' <= c && c <= 'F' {
        Some(c as u32 - 'A' as u32 + 10)
    } else {
        None
    }
}

/// Parses a colour string of the form `#RRGGBB` to the number `0xRRGGBB`.
///
/// The string must have exactly seven characters: a `#`, then six
/// hexadecimal digits in either case. Any other string gives `None`.
pub fn hex_to_u32(color: &String) -> (r: Option<u32>)
    ensures
        r == spec_hex_to_u32(color@),
        r matches Some(v) ==> v < 0x100_0000,
{
    let s = color.as_str();
    if s.unicode_len() != 7 {
        return None;
    }
    if s.get_char(0) != '#' {
        return None;
    }
    let ghost digits = color@.subrange(1, 7);
    let mut value: u32 = 0;
    let mut i: usize = 1;
    while i < 7
        invariant
            1 <= i <= 7,
            s@ == color@,
            color@.len() == 7,
            digits == color@.subrange(1, 7),
            hex_value(digits.take(i - 1)) == Some(value as int),
        decreases 7 - i,
    {
        proof {
            lemma_hex_value_bound(digits.take(i - 1));
            reveal_with_fuel(sixteen_to, 7);
            assert(digits.take(i as int).drop_last() =~= digits.take(i - 1));
        }
        match hex_digit(s.get_char(i)) {
            Some(d) => {
                value = 16 * value + d;
            },
            None => {
                proof {
                    lemma_hex_prefix_fails(digits, i as int);
                }
                return None;
            },
        }
        i += 1;
    }
    proof {
        assert(digits.take(6) =~= digits);
        lemma_hex_value_bound(digits);
        reveal_with_fuel(sixteen_to, 7);
    }
    Some(value)
}

/// A string with a prefix that is no hexadecimal number is none either.
pub proof fn lemma_hex_prefix_fails(digits: Seq<char>, n: int)
    requires
        0 <= n <= digits.len(),
        hex_value(digits.take(n)).is_none(),
    ensures
        hex_value(digits).is_none(),
    decreases digits.len(),
{
    if n < digits.len() {
        assert(digits.drop_last().take(n) =~= digits.take(n));
        lemma_hex_prefix_fails(digits.drop_last(), n);
    } else {
        assert(digits.take(n) =~= digits);
    }
}

/// The opaque colour with the channels of `0xRRGGBB`.
pub fn rgba_from_hex(value: u32) -> (c: Rgba)
    ensures
        c == spec_rgba_from_hex(value),
{
    Rgba {
        r: ((value / 0x1_0000) % 0x100) as u8,
        g: ((value / 0x100) % 0x100) as u8,
        b: (value % 0x100) as u8,
        a: 255,
    }
}

/// Whether a text is a plain colour text: it holds no opening bracket. For
/// the CSS colour parser such a text can only be a keyword, a string of
/// hexadecimal digits or the name of a colour, none of which it reads with
/// more than exact arithmetic.
pub open spec fn is_plain_color_text(text: Seq<char>) -> bool {
    !text.contains('(')
}

/// The colour that `csscolorparser` reads from a plain colour text, with
/// eight bits per channel; `None` where it reads none.
pub uninterp spec fn css_color(text: Seq<char>) -> Option<Rgba>;

/// Calls `csscolorparser`: parses `text` as a CSS colour with the crate's
/// `FromStr` impl for `Color` and reads the colour with `Color::to_rgba8`.
/// `None` stands for the crate's parse error.
///
/// For a plain colour text the result depends on the text alone; which of
/// these texts parse and to which colour is left to the crate. Of a text
/// with a bracket nothing is claimed: the crate converts some of the colour
/// functions with mathematical functions whose last bit is not fixed.
#[verifier::external_body]
fn parse_css_color(text: &str) -> (parsed: Option<Rgba>)
    ensures
        is_plain_color_text(text@) ==> parsed == css_color(text@),
{
    match text.parse::<csscolorparser::Color>() {
        Ok(color) => {
            let [r, g, b, a] = color.to_rgba8();
            Some(Rgba { r, g, b, a })
        },
        Err(_) => None,
    }
}

/// The colour of a parsed palette entry, or the neutral tone where the entry
/// did not parse.
pub fn color_or_neutral(parsed: Option<Rgba>) -> (c: Rgba)
    ensures
        c == spec_color_or_neutral(parsed),
{
    match parsed {
        Some(c) => c,
        None => neutral_tone(),
    }
}

/// Whether `color` is the colour of a palette entry. For an entry of the
/// form `#RRGGBB` it is the opaque colour with those channels. For any other
/// plain colour text it is the colour that the CSS colour parser reads from
/// the entry, or the neutral tone where it reads none. Of an entry with a
/// bracket nothing is said.
pub open spec fn is_color_of_entry(entry: Seq<char>, color: Rgba) -> bool {
    match spec_hex_to_u32(entry) {
        Some(v) => color == spec_rgba_from_hex(v),
        None => is_plain_color_text(entry) ==> color == spec_color_or_neutral(css_color(entry)),
    }
}

/// The colour of a palette entry.
///
/// An entry of the form `#RRGGBB` is the opaque colour with those channels.
/// Any other entry is handed to the CSS colour parser; where that fails the
/// entry counts as the neutral tone.
pub fn resolve_color(entry: &String) -> (c: Rgba)
    ensures
        is_color_of_entry(entry@, c),
{
    match hex_to_u32(entry) {
        Some(v) => rgba_from_hex(v),
        None => color_or_neutral(parse_css_color(entry.as_str())),
    }
}

} // verus!
