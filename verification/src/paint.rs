//! Styled text: what a text looks like once it is set in bold or in a colour.
//!
//! Whether a style shows at all is decided outside this library, by the
//! terminal and the environment, so a styled text is known only up to that
//! choice: it is the text itself, or the text between the control sequence that
//! switches the style on and the one that switches every style off.
use crate::color::HighlightColor;
use crate::search::contains;
use colored::{Color, Colorize};
use vstd::prelude::*;

verus! {

/// The control sequence that switches the styles `codes` on.
pub open spec fn style_on(codes: Seq<char>) -> Seq<char> {
    seq!['\u{1b}', '['] + codes + seq!['m']
}

/// The control sequence that switches every style off.
pub open spec fn style_off() -> Seq<char> {
    seq!['\u{1b}', '[', '0', 'm']
}

/// `out` is `text` in the styles `codes`: the text itself where styles do not
/// show, the text between `style_on(codes)` and `style_off()` where they do.
/// Nothing is said of a text that itself holds `style_off()`: there the
/// style is switched on again after each of them.
pub open spec fn styled(text: Seq<char>, codes: Seq<char>, out: Seq<char>) -> bool {
    ||| out == text
    ||| out == style_on(codes) + text + style_off()
    ||| contains(text, style_off())
}

/// The code of a colour as a foreground, for the sixteen colours that have a
/// fixed one.
pub open spec fn foreground_code(color: HighlightColor) -> Option<Seq<char>> {
    match color {
        HighlightColor::Black => Some(seq!['3', '0']),
        HighlightColor::Red => Some(seq!['3', '1']),
        HighlightColor::Green => Some(seq!['3', '2']),
        HighlightColor::Yellow => Some(seq!['3', '3']),
        HighlightColor::Blue => Some(seq!['3', '4']),
        HighlightColor::Magenta => Some(seq!['3', '5']),
        HighlightColor::Cyan => Some(seq!['3', '6']),
        HighlightColor::White => Some(seq!['3', '7']),
        HighlightColor::BrightBlack => Some(seq!['9', '0']),
        HighlightColor::BrightRed => Some(seq!['9', '1']),
        HighlightColor::BrightGreen => Some(seq!['9', '2']),
        HighlightColor::BrightYellow => Some(seq!['9', '3']),
        HighlightColor::BrightBlue => Some(seq!['9', '4']),
        HighlightColor::BrightMagenta => Some(seq!['9', '5']),
        HighlightColor::BrightCyan => Some(seq!['9', '6']),
        HighlightColor::BrightWhite => Some(seq!['9', '7']),
        HighlightColor::AnsiColor(_) => None,
        HighlightColor::TrueColor { .. } => None,
    }
}

/// `out` is `text` in bold and in `color`. For a colour without a fixed code
/// the codes are left open.
pub open spec fn painted(text: Seq<char>, color: HighlightColor, out: Seq<char>) -> bool {
    match foreground_code(color) {
        Some(code) => styled(text, seq!['1', ';'] + code, out),
        None => exists|codes: Seq<char>| styled(text, codes, out),
    }
}

/// `Colorize::normal` and the rendering of its result: a text without style is
/// rendered as it is.
#[verifier::external_body]
pub(crate) fn plain(text: &str) -> (out: String)
    ensures
        out@ == text@,
{
    text.normal().to_string()
}

/// `Colorize::bold` and the rendering of its result: the text in bold, with the
/// code `1`, or unchanged where styles do not show.
#[verifier::external_body]
pub(crate) fn bold(text: &str) -> (out: String)
    ensures
        styled(text@, seq!['1'], out@),
{
    text.bold().to_string()
}

/// `Colorize::red` and the rendering of its result: the text in red, with the
/// code `31`, or unchanged where styles do not show.
#[verifier::external_body]
pub(crate) fn red(text: &str) -> (out: String)
    ensures
        styled(text@, seq!['3', '1'], out@),
{
    text.red().to_string()
}

/// `Colorize::bold` followed by `Colorize::color`, and the rendering of the
/// result: the text in bold and in the colour, with the code `1` and the
/// colour's foreground code, or unchanged where styles do not show.
#[verifier::external_body]
pub(crate) fn bold_in(text: &str, color: HighlightColor) -> (out: String)
    ensures
        painted(text@, color, out@),
{
    text.bold().color(match color {
        HighlightColor::Black => Color::Black, HighlightColor::Red => Color::Red,
        HighlightColor::Green => Color::Green, HighlightColor::Yellow => Color::Yellow,
        HighlightColor::Blue => Color::Blue, HighlightColor::Magenta => Color::Magenta,
        HighlightColor::Cyan => Color::Cyan, HighlightColor::White => Color::White,
        HighlightColor::BrightBlack => Color::BrightBlack, HighlightColor::BrightRed => Color::BrightRed,
        HighlightColor::BrightGreen => Color::BrightGreen, HighlightColor::BrightYellow => Color::BrightYellow,
        HighlightColor::BrightBlue => Color::BrightBlue, HighlightColor::BrightMagenta => Color::BrightMagenta,
        HighlightColor::BrightCyan => Color::BrightCyan, HighlightColor::BrightWhite => Color::BrightWhite,
        HighlightColor::AnsiColor(code) => Color::AnsiColor(code),
        HighlightColor::TrueColor { r, g, b } => Color::TrueColor { r, g, b },
    }).to_string()
}

} // verus!
