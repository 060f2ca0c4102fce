//! The escape sequences that colour and clear a terminal.

use vstd::prelude::*;
use vstd::string::StringExecFns;

use crate::text::{append_decimal, decimal};

verus! {

/// A colour given by its red, green and blue parts.
#[derive(Clone, Copy, Debug, PartialEq, Eq, Structural)]
pub struct HexColor(pub u8, pub u8, pub u8);

/// A colour of the terminal's own palette.
#[derive(Clone, Copy, Debug, PartialEq, Eq, Structural)]
pub enum ColorName {
    Black,
    Red,
    Green,
    Yellow,
    Blue,
    Magenta,
    Cyan,
    White,
    Gray,
    BrightRed,
    BrightGreen,
    BrightYellow,
    BrightBlue,
    BrightMagenta,
    BrightCyan,
    BrightWhite,
}

/// A colour for text or for its background.
#[derive(Clone, Copy, Debug, PartialEq, Eq, Structural)]
pub enum TermColor {
    Name(ColorName),
    Hex(HexColor),
}

impl From<ColorName> for Option<TermColor> {
    fn from(c: ColorName) -> (color: Option<TermColor>) {
        Some(TermColor::Name(c))
    }
}

impl vstd::std_specs::convert::FromSpecImpl<ColorName> for Option<TermColor> {
    open spec fn obeys_from_spec() -> bool {
        true
    }

    open spec fn from_spec(c: ColorName) -> Option<TermColor> {
        Some(TermColor::Name(c))
    }
}

impl From<HexColor> for Option<TermColor> {
    fn from(c: HexColor) -> (color: Option<TermColor>) {
        Some(TermColor::Hex(c))
    }
}

impl vstd::std_specs::convert::FromSpecImpl<HexColor> for Option<TermColor> {
    open spec fn obeys_from_spec() -> bool {
        true
    }

    open spec fn from_spec(c: HexColor) -> Option<TermColor> {
        Some(TermColor::Hex(c))
    }
}

impl HexColor {
    /// The parameters that select this colour: `38;2;` and the three parts.
    pub open spec fn code(self) -> Seq<char> {
        "38;2;"@ + decimal(self.0 as nat) + ";"@ + decimal(self.1 as nat) + ";"@ + decimal(
            self.2 as nat,
        )
    }

    /// The parameters that select this colour.
    pub fn as_code(&self) -> (code: String)
        ensures
            code@ == self.code(),
    {
        let mut code = "38;2;".to_owned();
        append_decimal(&mut code, self.0 as u64);
        code.append(";");
        append_decimal(&mut code, self.1 as u64);
        code.append(";");
        append_decimal(&mut code, self.2 as u64);
        assert(code@ =~= self.code());
        code
    }
}

impl ColorName {
    /// The number that selects this colour for text; 10 more select it for the
    /// background.
    pub open spec fn code(self) -> u8 {
        match self {
            ColorName::Black => 30,
            ColorName::Red => 31,
            ColorName::Green => 32,
            ColorName::Yellow => 33,
            ColorName::Blue => 34,
            ColorName::Magenta => 35,
            ColorName::Cyan => 36,
            ColorName::White => 37,
            ColorName::Gray => 90,
            ColorName::BrightRed => 91,
            ColorName::BrightGreen => 92,
            ColorName::BrightYellow => 93,
            ColorName::BrightBlue => 94,
            ColorName::BrightMagenta => 95,
            ColorName::BrightCyan => 96,
            ColorName::BrightWhite => 97,
        }
    }

    /// The number that selects this colour for text.
    pub fn as_code(&self) -> (code: u8)
        ensures
            code == self.code(),
            30 <= code <= 37 || 90 <= code <= 97,
    {
        match self {
            ColorName::Black => 30,
            ColorName::Red => 31,
            ColorName::Green => 32,
            ColorName::Yellow => 33,
            ColorName::Blue => 34,
            ColorName::Magenta => 35,
            ColorName::Cyan => 36,
            ColorName::White => 37,
            ColorName::Gray => 90,
            ColorName::BrightRed => 91,
            ColorName::BrightGreen => 92,
            ColorName::BrightYellow => 93,
            ColorName::BrightBlue => 94,
            ColorName::BrightMagenta => 95,
            ColorName::BrightCyan => 96,
            ColorName::BrightWhite => 97,
        }
    }
}

/// The parameters that select `color` for text.
pub open spec fn text_code(color: TermColor) -> Seq<char> {
    match color {
        TermColor::Name(name) => decimal(name.code() as nat),
        TermColor::Hex(hex) => hex.code(),
    }
}

/// The parameters that are sent for `color` as a background: for a colour of
/// the palette its number plus 10, for any other the same as for text.
pub open spec fn background_code(color: TermColor) -> Seq<char> {
    match color {
        TermColor::Name(name) => decimal((name.code() + 10) as nat),
        TermColor::Hex(hex) => hex.code(),
    }
}

/// The escape sequence with the parameters `code`, or nothing without them.
pub open spec fn style(code: Option<Seq<char>>) -> Seq<char> {
    match code {
        Some(code) => "\x1B["@ + code + "m"@,
        None => Seq::empty(),
    }
}

/// The escape sequence that selects `color` for text, or nothing.
pub open spec fn text_style(color: Option<TermColor>) -> Seq<char> {
    match color {
        Some(c) => style(Some(text_code(c))),
        None => Seq::empty(),
    }
}

/// The escape sequence that is sent for `color` as a background, or nothing.
pub open spec fn background_style(color: Option<TermColor>) -> Seq<char> {
    match color {
        Some(c) => style(Some(background_code(c))),
        None => Seq::empty(),
    }
}

/// What is sent to the terminal to show `s` in the given colours: the
/// sequence for the text colour, that for the background, `s`, and the
/// sequence that resets the style.
pub open spec fn styled(s: Seq<char>, text_color: Option<TermColor>, bg_color: Option<TermColor>)
    -> Seq<char> {
    text_style(text_color) + background_style(bg_color) + s + "\x1B[0m"@
}

/// What is sent to the terminal to show `s` in the given colours and end the
/// line: `s` styled, and a line feed in white.
pub open spec fn styled_line(
    s: Seq<char>,
    text_color: Option<TermColor>,
    bg_color: Option<TermColor>,
) -> Seq<char> {
    styled(s, text_color, bg_color) + styled(
        "\n"@,
        Some(TermColor::Name(ColorName::White)),
        None,
    )
}

/// The sequence that moves to the top left, clears the screen and clears the
/// lines that were scrolled away.
pub fn clear() -> (code: &'static str)
    ensures
        code@ == "\x1B[H\x1B[2J\x1B[3J"@,
{
    "\x1B[H\x1B[2J\x1B[3J"
}

/// The sequence that moves `lines` lines up and clears from there to the end
/// of the screen.
pub fn clear_lines(lines: u32) -> (code: String)
    ensures
        code@ == "\x1B["@ + decimal(lines as nat) + "A"@ + "\x1B[0J"@,
{
    let mut code = "\x1B[".to_owned();
    append_decimal(&mut code, lines as u64);
    code.append("A");
    code.append("\x1B[0J");
    code
}

/// The sequence that resets the style.
pub fn reset_term_style() -> (code: &'static str)
    ensures
        code@ == "\x1B[0m"@,
{
    "\x1B[0m"
}

/// Appends the escape sequence with the parameters `code` to `out`.
fn append_style(out: &mut String, code: &str)
    ensures
        final(out)@ == old(out)@ + style(Some(code@)),
{
    out.append("\x1B[");
    out.append(code);
    out.append("m");
    assert(out@ =~= old(out)@ + style(Some(code@)));
}

/// Appends the escape sequence that selects `color` for text to `out`.
fn append_text_style(out: &mut String, color: Option<TermColor>)
    ensures
        final(out)@ == old(out)@ + text_style(color),
{
    match color {
        Some(TermColor::Name(name)) => {
            let mut code = String::new();
            append_decimal(&mut code, name.as_code() as u64);
            assert(code@ =~= decimal(name.code() as nat));
            append_style(out, code.as_str());
        },
        Some(TermColor::Hex(hex)) => {
            let code = hex.as_code();
            append_style(out, code.as_str());
        },
        None => {
            assert(out@ =~= old(out)@ + text_style(color));
        },
    }
}

/// Appends the escape sequence that is sent for `color` as a background to
/// `out`.
fn append_background_style(out: &mut String, color: Option<TermColor>)
    ensures
        final(out)@ == old(out)@ + background_style(color),
{
    match color {
        Some(TermColor::Name(name)) => {
            let mut code = String::new();
            append_decimal(&mut code, (name.as_code() + 10) as u64);
            assert(code@ =~= decimal((name.code() + 10) as nat));
            append_style(out, code.as_str());
        },
        Some(TermColor::Hex(hex)) => {
            let code = hex.as_code();
            append_style(out, code.as_str());
        },
        None => {
            assert(out@ =~= old(out)@ + background_style(color));
        },
    }
}

/// Appends to `out` what is sent to the terminal to show `s` in the given
/// colours.
fn append_styled(
    out: &mut String,
    s: &str,
    text_color: Option<TermColor>,
    bg_color: Option<TermColor>,
)
    ensures
        final(out)@ == old(out)@ + styled(s@, text_color, bg_color),
{
    append_text_style(out, text_color);
    append_background_style(out, bg_color);
    out.append(s);
    out.append(reset_term_style());
    assert(out@ =~= old(out)@ + styled(s@, text_color, bg_color));
}

/// What is sent to the terminal to show `s` in the given colours.
pub fn write(s: &str, text_color: Option<TermColor>, bg_color: Option<TermColor>) -> (out: String)
    ensures
        out@ == styled(s@, text_color, bg_color),
{
    let mut out = String::new();
    append_styled(&mut out, s, text_color, bg_color);
    assert(out@ =~= styled(s@, text_color, bg_color));
    out
}

/// What is sent to the terminal to show `s` in the given colours and end the
/// line.
pub fn writeln(s: &str, text_color: Option<TermColor>, bg_color: Option<TermColor>) -> (out:
    String)
    ensures
        out@ == styled_line(s@, text_color, bg_color),
{
    let mut out = String::new();
    append_styled(&mut out, s, text_color, bg_color);
    append_styled(&mut out, "\n", Some(TermColor::Name(ColorName::White)), None);
    assert(out@ =~= styled_line(s@, text_color, bg_color));
    out
}

} // verus!
