//! The text tool's data: the accumulated text run, the font string it is
//! drawn with, and the predicate deciding which keys extend it.

use vstd::prelude::*;

verus! {

/// The decimal digit character for `d`.
pub open spec fn dec_digit(d: nat) -> char {
    if d == 0 {
        '0'
    } else if d == 1 {
        '1'
    } else if d == 2 {
        '2'
    } else if d == 3 {
        '3'
    } else if d == 4 {
        '4'
    } else if d == 5 {
        '5'
    } else if d == 6 {
        '6'
    } else if d == 7 {
        '7'
    } else if d == 8 {
        '8'
    } else {
        '9'
    }
}

/// The decimal rendering of `n`, most significant digit first.
pub open spec fn dec_str(n: nat) -> Seq<char>
    decreases n,
{
    if n < 10 {
        seq![dec_digit(n)]
    } else {
        dec_str(n / 10).push(dec_digit(n % 10))
    }
}

/// A character the text tool accepts: an ASCII letter, a digit, or a space.
pub open spec fn is_text_char(c: char) -> bool {
    ('a' <= c && c <= 'z') || ('A' <= c && c <= 'Z') || ('0' <= c && c <= '9') || c == ' '
}

/// Whether `input` is a single character the text tool accepts.
///
/// Relies on `regex::Regex::is_match` with the anchored single-character
/// class `^[a-zA-Z0-9 ]$`: it matches exactly the one-character strings whose
/// character is an ASCII letter, a digit, or a space.
#[verifier::external_body]
pub fn match_input(input: &str) -> (r: bool)
    ensures
        r == (input@.len() == 1 && is_text_char(input@[0])),
{
    regex::Regex::new(r"^[a-zA-Z0-9 ]$").unwrap().is_match(input)
}

/// Relies on the `format!` macro with the `Display` implementation of `u32`,
/// which renders the number in decimal digits.
#[verifier::external_body]
fn format_px_font(size: u32, family: &str) -> (s: String)
    ensures
        s@ == dec_str(size as nat) + "px "@ + family@,
{
    format!("{}px {}", size, family)
}

/// The in-progress text run of the text tool: the accumulated content, the
/// anchor it will be drawn at, and the font it is drawn with.
pub struct TextData {
    pub content: String,
    pub position: (i32, i32),
    pub font_size: u32,
    pub font_type: String,
}

impl TextData {
    /// This run with its content replaced by `content`; anchor and font are
    /// kept.
    pub fn append(&self, content: String) -> (t: TextData)
        ensures
            t.content@ == content@,
            t.position == self.position,
            t.font_size == self.font_size,
            t.font_type@ == self.font_type@,
    {
        TextData {
            content,
            position: self.position,
            font_size: self.font_size,
            font_type: self.font_type.clone(),
        }
    }

    /// An independent copy of this run.
    pub fn duplicate(&self) -> (t: TextData)
        ensures
            t.content@ == self.content@,
            t.position == self.position,
            t.font_size == self.font_size,
            t.font_type@ == self.font_type@,
    {
        TextData {
            content: self.content.clone(),
            position: self.position,
            font_size: self.font_size,
            font_type: self.font_type.clone(),
        }
    }

    /// The CSS font string: the size in pixels, then the family.
    pub fn format_font(&self) -> (s: String)
        ensures
            s@ == dec_str(self.font_size as nat) + "px "@ + self.font_type@,
    {
        format_px_font(self.font_size, self.font_type.as_str())
    }
}

} // verus!
