use vstd::prelude::*;
use vstd::string::{StrSliceExecFns, StringExecFns};

verus! {

/// A colour with eight bits per channel, as a colour input holds it.
#[derive(Debug, Clone, Copy, PartialEq, Eq, Hash)]
pub struct Color {
    pub r: u8,
    pub g: u8,
    pub b: u8,
    pub a: u8,
}

/// Why a text is no colour.
#[derive(Debug, Clone, Copy, PartialEq, Eq, Hash)]
pub enum ColorError {
    InvalidFormat,
}

impl ColorError {
    /// The message shown to the user.
    pub fn to_string(&self) -> (r: String)
        ensures
            r@ == "Invalid format"@,
    {
        String::from_str("Invalid format")
    }
}

/// Value of a hexadecimal digit of either case.
pub open spec fn hex_digit_value(c: char) -> Option<u8> {
    if '0' <= c && c <= '9' {
        Some((c as u32 - '0' as u32) as u8)
    } else if 'a' <= c && c <= 'f' {
        Some((c as u32 - 'a' as u32 + 10) as u8)
    } else if 'A' <= c && c <= 'F' {
        Some((c as u32 - 'A' as u32 + 10) as u8)
    } else {
        None
    }
}

/// Two characters read as a `u8` in base sixteen: two digits, or `+` and one digit.
pub open spec fn hex_pair(hi: char, lo: char) -> Option<u8> {
    match (hex_digit_value(hi), hex_digit_value(lo)) {
        (Some(h), Some(l)) => Some((h * 16 + l) as u8),
        (None, Some(l)) => if hi == '+' {
            Some(l)
        } else {
            None
        },
        _ => None,
    }
}

/// The colour that `s` writes as `#RRGGBB`, fully opaque.
pub open spec fn parse_color(s: Seq<char>) -> Option<Color> {
    if s.len() != 7 || s[0] != '#' {
        None
    } else {
        match (hex_pair(s[1], s[2]), hex_pair(s[3], s[4]), hex_pair(s[5], s[6])) {
            (Some(r), Some(g), Some(b)) => Some(Color { r, g, b, a: 255 }),
            _ => None,
        }
    }
}

/// Lower-case hexadecimal digit of `d`.
pub open spec fn hex_char(d: u8) -> char {
    seq!['0', '1', '2', '3', '4', '5', '6', '7', '8', '9', 'a', 'b', 'c', 'd', 'e', 'f'][d as int
        % 16]
}

/// `#rrggbb`, in lower case.
pub open spec fn color_text(c: Color) -> Seq<char> {
    seq!['#'] + seq![hex_char(c.r / 16), hex_char(c.r % 16)] + seq![
        hex_char(c.g / 16),
        hex_char(c.g % 16),
    ] + seq![hex_char(c.b / 16), hex_char(c.b % 16)]
}

fn hex_digit(c: char) -> (r: Option<u8>)
    ensures
        r == hex_digit_value(c),
{
    if '0' <= c && c <= '9' {
        Some((c as u32 - '0' as u32) as u8)
    } else if 'a' <= c && c <= 'f' {
        Some((c as u32 - 'a' as u32 + 10) as u8)
    } else if 'A' <= c && c <= 'F' {
        Some((c as u32 - 'A' as u32 + 10) as u8)
    } else {
        None
    }
}

fn read_hex_pair(hi: char, lo: char) -> (r: Option<u8>)
    ensures
        r == hex_pair(hi, lo),
{
    match (hex_digit(hi), hex_digit(lo)) {
        (Some(h), Some(l)) => Some(h * 16 + l),
        (None, Some(l)) => if hi == '+' {
            Some(l)
        } else {
            None
        },
        _ => None,
    }
}

/// Relies on the `{:02x}` format of `u8`: two lower-case hexadecimal digits, high digit
/// first.
#[verifier::external_body]
fn hex_byte(b: u8) -> (r: String)
    ensures
        r@ == seq![hex_char(b / 16), hex_char(b % 16)],
{
    format!("{:02x}", b)
}

impl Color {
    /// The colour written `#RRGGBB` (digits of either case), fully opaque.
    pub fn parse(s: &str) -> (r: Result<Color, ColorError>)
        ensures
            match parse_color(s@) {
                Some(c) => r == Ok::<Color, ColorError>(c),
                None => r == Err::<Color, ColorError>(ColorError::InvalidFormat),
            },
    {
        if s.unicode_len() != 7 || s.get_char(0) != '#' {
            return Err(ColorError::InvalidFormat);
        }
        let r = read_hex_pair(s.get_char(1), s.get_char(2));
        let g = read_hex_pair(s.get_char(3), s.get_char(4));
        let b = read_hex_pair(s.get_char(5), s.get_char(6));
        match (r, g, b) {
            (Some(r), Some(g), Some(b)) => Ok(Color { r, g, b, a: 255 }),
            _ => Err(ColorError::InvalidFormat),
        }
    }

    /// `#rrggbb`, the form a colour input takes; the opacity is not written.
    pub fn to_string(&self) -> (r: String)
        ensures
            r@ == color_text(*self),
    {
        let mut out = String::from_str("#");
        proof {
            reveal_strlit("#");
        }
        let red = hex_byte(self.r);
        let green = hex_byte(self.g);
        let blue = hex_byte(self.b);
        out.append(red.as_str());
        out.append(green.as_str());
        out.append(blue.as_str());
        assert(out@ =~= color_text(*self));
        out
    }
}

impl Default for Color {
    /// Opaque black.
    fn default() -> (r: Color)
        ensures
            r == (Color { r: 0, g: 0, b: 0, a: 255 }),
    {
        Color { r: 0, g: 0, b: 0, a: 255 }
    }
}

impl std::str::FromStr for Color {
    type Err = ColorError;

    fn from_str(s: &str) -> Result<Color, ColorError> {
        Color::parse(s)
    }
}

proof fn lemma_hex_char_value(d: u8)
    requires
        d < 16,
    ensures
        hex_digit_value(hex_char(d)) == Some(d),
{
    let digits = seq![
        '0', '1', '2', '3', '4', '5', '6', '7', '8', '9', 'a', 'b', 'c', 'd', 'e', 'f',
    ];
    assert(hex_char(d) == digits[d as int]);
    if d < 10 {
        assert(digits[d as int] as u32 - '0' as u32 == d) by {
            if d == 0 {
                assert(digits[0] == '0');
            } else if d == 1 {
                assert(digits[1] == '1');
            } else if d == 2 {
                assert(digits[2] == '2');
            } else if d == 3 {
                assert(digits[3] == '3');
            } else if d == 4 {
                assert(digits[4] == '4');
            } else if d == 5 {
                assert(digits[5] == '5');
            } else if d == 6 {
                assert(digits[6] == '6');
            } else if d == 7 {
                assert(digits[7] == '7');
            } else if d == 8 {
                assert(digits[8] == '8');
            } else {
                assert(digits[9] == '9');
            }
        }
    } else {
        assert(digits[d as int] as u32 - 'a' as u32 + 10 == d) by {
            if d == 10 {
                assert(digits[10] == 'a');
            } else if d == 11 {
                assert(digits[11] == 'b');
            } else if d == 12 {
                assert(digits[12] == 'c');
            } else if d == 13 {
                assert(digits[13] == 'd');
            } else if d == 14 {
                assert(digits[14] == 'e');
            } else {
                assert(digits[15] == 'f');
            }
        }
    }
}

proof fn lemma_hex_pair_reads_back(b: u8)
    ensures
        hex_pair(hex_char(b / 16), hex_char(b % 16)) == Some(b),
{
    lemma_hex_char_value(b / 16);
    lemma_hex_char_value(b % 16);
    assert((b / 16) * 16 + b % 16 == b) by (nonlinear_arith);
}

/// The text of an opaque colour reads back as the same colour.
pub proof fn lemma_color_text_reads_back(c: Color)
    requires
        c.a == 255,
    ensures
        parse_color(color_text(c)) == Some(c),
{
    lemma_hex_pair_reads_back(c.r);
    lemma_hex_pair_reads_back(c.g);
    lemma_hex_pair_reads_back(c.b);
    let t = color_text(c);
    assert(t.len() == 7);
    assert(t[0] == '#');
    assert(t[1] == hex_char(c.r / 16) && t[2] == hex_char(c.r % 16));
    assert(t[3] == hex_char(c.g / 16) && t[4] == hex_char(c.g % 16));
    assert(t[5] == hex_char(c.b / 16) && t[6] == hex_char(c.b % 16));
}

} // verus!
