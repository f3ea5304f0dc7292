//! The drawing colors: a closed set of named colors plus an arbitrary RGBA
//! variant.  Every color resolves deterministically to one RGBA quadruple.

use colors_transform::Color as CrateColor;
use vstd::prelude::*;

verus! {

/// The lowercase hexadecimal digit character for `d`.
pub open spec fn hex_digit(d: nat) -> char {
    if d == 0 {
        '0'
    } else if d == 1 {
        '1'
    } else if d == 2 {
        '2'
    } else if d == 3 {
        '3'
    } else if d == 4 {
        '4'
    } else if d == 5 {
        '5'
    } else if d == 6 {
        '6'
    } else if d == 7 {
        '7'
    } else if d == 8 {
        '8'
    } else if d == 9 {
        '9'
    } else if d == 10 {
        'a'
    } else if d == 11 {
        'b'
    } else if d == 12 {
        'c'
    } else if d == 13 {
        'd'
    } else if d == 14 {
        'e'
    } else {
        'f'
    }
}

/// The CSS hex string of an RGB triple: '#' followed by two lowercase hex
/// digits per component.
pub open spec fn css_hex(r: u8, g: u8, b: u8) -> Seq<char> {
    seq![
        '#',
        hex_digit((r / 16) as nat),
        hex_digit((r % 16) as nat),
        hex_digit((g / 16) as nat),
        hex_digit((g % 16) as nat),
        hex_digit((b / 16) as nat),
        hex_digit((b % 16) as nat),
    ]
}

/// A hexadecimal digit character, either case.
pub open spec fn is_hex_digit(c: char) -> bool {
    ('0' <= c && c <= '9') || ('a' <= c && c <= 'f') || ('A' <= c && c <= 'F')
}

/// The value of a hexadecimal digit character.
pub open spec fn hex_val(c: char) -> int {
    if '0' <= c && c <= '9' {
        c as int - '0' as int
    } else if 'a' <= c && c <= 'f' {
        c as int - 'a' as int + 10
    } else {
        c as int - 'A' as int + 10
    }
}

/// Every character of `s` is a hexadecimal digit.
pub open spec fn all_hex(s: Seq<char>) -> bool {
    forall|i: int| 0 <= i < s.len() ==> is_hex_digit(#[trigger] s[i])
}

/// The byte written as the two hexadecimal digits `hi` `lo`.
pub open spec fn hex_byte(hi: char, lo: char) -> u8 {
    (hex_val(hi) * 16 + hex_val(lo)) as u8
}

/// The RGB triple written as six hexadecimal digits.
pub open spec fn hex6_bytes(d: Seq<char>) -> (u8, u8, u8) {
    (hex_byte(d[0], d[1]), hex_byte(d[2], d[3]), hex_byte(d[4], d[5]))
}

/// The RGB triple written as three hexadecimal digits, each digit doubled.
pub open spec fn hex3_bytes(d: Seq<char>) -> (u8, u8, u8) {
    (hex_byte(d[0], d[0]), hex_byte(d[1], d[1]), hex_byte(d[2], d[2]))
}

/// The color a recognised color name stands for.
pub open spec fn named_color(s: Seq<char>) -> Option<Color> {
    if s == "white"@ {
        Some(Color::White)
    } else if s == "black"@ {
        Some(Color::Black)
    } else if s == "gray"@ {
        Some(Color::Gray)
    } else if s == "red"@ {
        Some(Color::Red)
    } else if s == "blue"@ {
        Some(Color::Blue)
    } else if s == "water-blue"@ {
        Some(Color::WaterBlue)
    } else if s == "yellow"@ {
        Some(Color::Yellow)
    } else if s == "orange"@ {
        Some(Color::Orange)
    } else if s == "green"@ {
        Some(Color::Green)
    } else if s == "jade"@ {
        Some(Color::Jade)
    } else if s == "brown"@ {
        Some(Color::Brown)
    } else if s == "purple"@ {
        Some(Color::Purple)
    } else if s == "violet"@ {
        Some(Color::Violet)
    } else if s == "pink"@ {
        Some(Color::Pink)
    } else {
        None
    }
}

/// What `Color::from_str` returns for the string `s`: recognised names map
/// through the name table; hex spellings of six or three digits, with or
/// without a leading '#', map to the written RGB with full alpha; anything
/// else falls back to black or to some fully opaque custom color.
pub open spec fn from_str_matches(s: Seq<char>, c: Color) -> bool {
    &&& (named_color(s) matches Some(n) ==> c == n)
    &&& (named_color(s) is None && s.len() == 7 && s[0] == '#' && all_hex(s.skip(1)) ==> {
        let v = hex6_bytes(s.skip(1));
        c == Color::Custom(v.0, v.1, v.2, 255u8)
    })
    &&& (named_color(s) is None && s.len() == 6 && all_hex(s) ==> {
        let v = hex6_bytes(s);
        c == Color::Custom(v.0, v.1, v.2, 255u8)
    })
    &&& (named_color(s) is None && s.len() == 4 && s[0] == '#' && all_hex(s.skip(1)) ==> {
        let v = hex3_bytes(s.skip(1));
        c == Color::Custom(v.0, v.1, v.2, 255u8)
    })
    &&& (named_color(s) is None && s.len() == 3 && all_hex(s) ==> {
        let v = hex3_bytes(s);
        c == Color::Custom(v.0, v.1, v.2, 255u8)
    })
    &&& (named_color(s) is None && s.len() == 0 ==> c == Color::Black)
    &&& (named_color(s) is None ==> c == Color::Black || (c matches Color::Custom(_, _, _, a)
        && a == 255))
}

/// A drawing color.  Named variants resolve through a fixed table; `Custom`
/// carries its own RGBA components.
#[derive(Clone, Copy, Debug, PartialEq, Eq, Structural)]
pub enum Color {
    White,
    Black,
    Gray,
    Red,
    Blue,
    WaterBlue,
    Yellow,
    Orange,
    Green,
    Jade,
    Brown,
    Purple,
    Violet,
    Pink,
    Custom(u8, u8, u8, u8),
}

impl Color {
    /// The fixed RGBA quadruple this color resolves to.
    pub open spec fn rgba(self) -> (u8, u8, u8, u8) {
        match self {
            Color::White => (255u8, 255u8, 255u8, 255u8),
            Color::Black => (0u8, 0u8, 0u8, 255u8),
            Color::Gray => (128u8, 128u8, 128u8, 255u8),
            Color::Red => (255u8, 0u8, 0u8, 255u8),
            Color::Blue => (0u8, 0u8, 255u8, 255u8),
            Color::WaterBlue => (0u8, 191u8, 255u8, 255u8),
            Color::Yellow => (255u8, 255u8, 0u8, 255u8),
            Color::Orange => (255u8, 165u8, 0u8, 255u8),
            Color::Green => (0u8, 128u8, 0u8, 255u8),
            Color::Jade => (0u8, 168u8, 107u8, 255u8),
            Color::Brown => (165u8, 42u8, 42u8, 255u8),
            Color::Purple => (128u8, 0u8, 128u8, 255u8),
            Color::Violet => (238u8, 130u8, 238u8, 255u8),
            Color::Pink => (255u8, 192u8, 203u8, 255u8),
            Color::Custom(r, g, b, a) => (r, g, b, a),
        }
    }

    /// Resolve the color to its RGBA quadruple.
    pub fn value(&self) -> (rgba: (u8, u8, u8, u8))
        ensures
            rgba == self.rgba(),
    {
        match *self {
            Color::White => (255, 255, 255, 255),
            Color::Black => (0, 0, 0, 255),
            Color::Gray => (128, 128, 128, 255),
            Color::Red => (255, 0, 0, 255),
            Color::Blue => (0, 0, 255, 255),
            Color::WaterBlue => (0, 191, 255, 255),
            Color::Yellow => (255, 255, 0, 255),
            Color::Orange => (255, 165, 0, 255),
            Color::Green => (0, 128, 0, 255),
            Color::Jade => (0, 168, 107, 255),
            Color::Brown => (165, 42, 42, 255),
            Color::Purple => (128, 0, 128, 255),
            Color::Violet => (238, 130, 238, 255),
            Color::Pink => (255, 192, 203, 255),
            Color::Custom(r, g, b, a) => (r, g, b, a),
        }
    }

    /// The CSS hex string of this color, alpha ignored.
    pub fn to_hex(&self) -> (s: String)
        ensures
            s@ == css_hex(self.rgba().0, self.rgba().1, self.rgba().2),
    {
        let v = self.value();
        rgb_hex_string(v.0, v.1, v.2)
    }

    /// The color a user-supplied color string stands for: a recognised name,
    /// a hex spelling, or black for anything unparseable.
    pub fn from_str(color: String) -> (c: Color)
        ensures
            from_str_matches(color@, c),
    {
        if string_eq(&color, "white") {
            Color::White
        } else if string_eq(&color, "black") {
            Color::Black
        } else if string_eq(&color, "gray") {
            Color::Gray
        } else if string_eq(&color, "red") {
            Color::Red
        } else if string_eq(&color, "blue") {
            Color::Blue
        } else if string_eq(&color, "water-blue") {
            Color::WaterBlue
        } else if string_eq(&color, "yellow") {
            Color::Yellow
        } else if string_eq(&color, "orange") {
            Color::Orange
        } else if string_eq(&color, "green") {
            Color::Green
        } else if string_eq(&color, "jade") {
            Color::Jade
        } else if string_eq(&color, "brown") {
            Color::Brown
        } else if string_eq(&color, "purple") {
            Color::Purple
        } else if string_eq(&color, "violet") {
            Color::Violet
        } else if string_eq(&color, "pink") {
            Color::Pink
        } else {
            match parse_hex_color(color.as_str()) {
                Some((r, g, b)) => Color::Custom(r, g, b, 255),
                None => Color::Black,
            }
        }
    }
}

/// Whether `s` spells exactly the literal `lit`.
fn string_eq(s: &String, lit: &str) -> (r: bool)
    ensures
        r == (s@ == lit@),
{
    let other: String = lit.to_owned();
    *s == other
}

/// Relies on `colors_transform::Rgb::to_css_hex_string`: for integer
/// components in range it renders '#' followed by six lowercase hex digits,
/// two per component, most significant digit first.
#[verifier::external_body]
fn rgb_hex_string(r: u8, g: u8, b: u8) -> (s: String)
    ensures
        s@ == css_hex(r, g, b),
{
    colors_transform::Rgb::from(r.into(), g.into(), b.into()).to_css_hex_string()
}

/// Relies on `colors_transform::Rgb::from_hex_str` and the component getters
/// of `colors_transform::Color`: six hex digits, with or without a leading
/// '#', parse to their three byte components; three hex digits parse with
/// each digit doubled; the empty string is refused.  The getters hand the
/// parsed components back unchanged.
#[verifier::external_body]
fn parse_hex_color(s: &str) -> (r: Option<(u8, u8, u8)>)
    ensures
        s@.len() == 7 && s@[0] == '#' && all_hex(s@.skip(1)) ==> {
            let v = hex6_bytes(s@.skip(1));
            r == Some((v.0, v.1, v.2))
        },
        s@.len() == 6 && all_hex(s@) ==> {
            let v = hex6_bytes(s@);
            r == Some((v.0, v.1, v.2))
        },
        s@.len() == 4 && s@[0] == '#' && all_hex(s@.skip(1)) ==> {
            let v = hex3_bytes(s@.skip(1));
            r == Some((v.0, v.1, v.2))
        },
        s@.len() == 3 && all_hex(s@) ==> {
            let v = hex3_bytes(s@);
            r == Some((v.0, v.1, v.2))
        },
        s@.len() == 0 ==> r is None,
{
    match colors_transform::Rgb::from_hex_str(s) {
        Ok(rgb) => Some(
            (rgb.get_red() as u8, rgb.get_green() as u8, rgb.get_blue() as u8),
        ),
        Err(_) => None,
    }
}

} // verus!
