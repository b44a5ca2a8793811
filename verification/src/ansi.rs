use vstd::prelude::*;

verus! {

/// The foreground colours that a rendering uses.
#[derive(Debug, Clone, Copy, PartialEq, Eq, Structural)]
pub enum Color {
    Green,
    BrightBlue,
    BrightYellow,
    BrightRed,
    White,
    BrightGreen,
}

/// The digits of a colour in a select-graphic-rendition sequence.
pub open spec fn color_code(color: Color) -> Seq<char> {
    match color {
        Color::Green => seq!['3', '2'],
        Color::BrightBlue => seq!['9', '4'],
        Color::BrightYellow => seq!['9', '3'],
        Color::BrightRed => seq!['9', '1'],
        Color::White => seq!['3', '7'],
        Color::BrightGreen => seq!['9', '2'],
    }
}

/// A text between the sequence that sets a foreground colour and the one
/// that resets the foreground to its default.
pub open spec fn painted(text: Seq<char>, color: Color) -> Seq<char> {
    seq!['\x1b', '['] + color_code(color) + seq!['m'] + text + seq!['\x1b', '[', '3', '9', 'm']
}

/// Formats what `owo_colors::OwoColorize::color` makes of a text and one
/// of the ANSI colours.
///
/// Trusted: the output is the escape sequence of the colour's foreground
/// code, the text as it stands, and the escape sequence that resets the
/// foreground; nothing is asked of the terminal or the environment.
#[verifier::external_body]
pub(crate) fn paint(text: &str, color: Color) -> (r: String)
    ensures
        r@ == painted(text@, color),
{
    let ansi = match color {
        Color::Green => owo_colors::AnsiColors::Green,
        Color::BrightBlue => owo_colors::AnsiColors::BrightBlue,
        Color::BrightYellow => owo_colors::AnsiColors::BrightYellow,
        Color::BrightRed => owo_colors::AnsiColors::BrightRed,
        Color::White => owo_colors::AnsiColors::White,
        Color::BrightGreen => owo_colors::AnsiColors::BrightGreen,
    };
    format!("{}", owo_colors::OwoColorize::color(&text, ansi))
}

/// Whether a listing is written in colours: never where colours are
/// switched off, and otherwise where they are forced or the output is a
/// terminal.
pub fn color_enabled(no_color: bool, force_color: bool, is_terminal: bool) -> (r: bool)
    ensures
        r == (!no_color && (force_color || is_terminal)),
{
    match (no_color, force_color) {
        (true, _) => false,
        (false, true) => true,
        (false, false) => is_terminal,
    }
}

} // verus!
