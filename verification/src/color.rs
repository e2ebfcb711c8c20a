//! The colours a match can be marked in, and how a colour's name is resolved.
use crate::text::lowercase;
use colored::Color;
use std::str::FromStr;
use vstd::prelude::*;
use vstd::string::*;
use vstd::utf8::*;

verus! {

/// A colour for the marked part of a line.
#[derive(Clone, Copy, Debug, PartialEq, Eq, Structural)]
pub enum HighlightColor {
    Black,
    Red,
    Green,
    Yellow,
    Blue,
    Magenta,
    Cyan,
    White,
    BrightBlack,
    BrightRed,
    BrightGreen,
    BrightYellow,
    BrightBlue,
    BrightMagenta,
    BrightCyan,
    BrightWhite,
    AnsiColor(u8),
    TrueColor { r: u8, g: u8, b: u8 },
}

/// A folded name in the form of a hexadecimal colour: it opens with `#`.
pub open spec fn is_hex_form(folded_name: Seq<char>) -> bool {
    folded_name.len() > 0 && folded_name[0] == '#'
}

/// The colour that a folded name stands for, among the names of the sixteen
/// fixed colours. `purple` is another name for magenta.
pub open spec fn basic_color(folded_name: Seq<char>) -> Option<HighlightColor> {
    if folded_name == "black"@ {
        Some(HighlightColor::Black)
    } else if folded_name == "red"@ {
        Some(HighlightColor::Red)
    } else if folded_name == "green"@ {
        Some(HighlightColor::Green)
    } else if folded_name == "yellow"@ {
        Some(HighlightColor::Yellow)
    } else if folded_name == "blue"@ {
        Some(HighlightColor::Blue)
    } else if folded_name == "magenta"@ || folded_name == "purple"@ {
        Some(HighlightColor::Magenta)
    } else if folded_name == "cyan"@ {
        Some(HighlightColor::Cyan)
    } else if folded_name == "white"@ {
        Some(HighlightColor::White)
    } else if folded_name == "bright black"@ {
        Some(HighlightColor::BrightBlack)
    } else if folded_name == "bright red"@ {
        Some(HighlightColor::BrightRed)
    } else if folded_name == "bright green"@ {
        Some(HighlightColor::BrightGreen)
    } else if folded_name == "bright yellow"@ {
        Some(HighlightColor::BrightYellow)
    } else if folded_name == "bright blue"@ {
        Some(HighlightColor::BrightBlue)
    } else if folded_name == "bright magenta"@ {
        Some(HighlightColor::BrightMagenta)
    } else if folded_name == "bright cyan"@ {
        Some(HighlightColor::BrightCyan)
    } else if folded_name == "bright white"@ {
        Some(HighlightColor::BrightWhite)
    } else {
        None
    }
}

/// The colour that `colored::Color::from_str` reads from a name in hexadecimal
/// form, if it reads one.
pub uninterp spec fn hex_color(name: Seq<char>) -> Option<HighlightColor>;

/// `colored::Color::from_str`. The call folds the name to lower case. A folded
/// name that does not open with `#` is looked up among the names of the
/// sixteen fixed colours. One that opens with `#` is read as three or six
/// hexadecimal digits; what comes of that is a function of the name alone,
/// named `hex_color`. Such a name is cut at fixed byte offsets, which fails
/// inside a character of several bytes, so it has to be in ASCII.
#[verifier::external_body]
fn parse_color(name: &str) -> (parsed: Option<HighlightColor>)
    requires
        is_hex_form(lowercase(name@)) ==> is_ascii_chars(lowercase(name@)),
    ensures
        !is_hex_form(lowercase(name@)) ==> parsed == basic_color(lowercase(name@)),
        is_hex_form(lowercase(name@)) ==> parsed == hex_color(name@),
{
    let color = Color::from_str(name).ok()?;
    Some(match color {
        Color::Black => HighlightColor::Black, Color::Red => HighlightColor::Red,
        Color::Green => HighlightColor::Green, Color::Yellow => HighlightColor::Yellow,
        Color::Blue => HighlightColor::Blue, Color::Magenta => HighlightColor::Magenta,
        Color::Cyan => HighlightColor::Cyan, Color::White => HighlightColor::White,
        Color::BrightBlack => HighlightColor::BrightBlack, Color::BrightRed => HighlightColor::BrightRed,
        Color::BrightGreen => HighlightColor::BrightGreen, Color::BrightYellow => HighlightColor::BrightYellow,
        Color::BrightBlue => HighlightColor::BrightBlue, Color::BrightMagenta => HighlightColor::BrightMagenta,
        Color::BrightCyan => HighlightColor::BrightCyan, Color::BrightWhite => HighlightColor::BrightWhite,
        Color::AnsiColor(code) => HighlightColor::AnsiColor(code),
        Color::TrueColor { r, g, b } => HighlightColor::TrueColor { r, g, b },
    })
}

/// The colour used where a name gives none.
pub open spec fn default_color() -> HighlightColor {
    HighlightColor::Blue
}

/// The colour that was read, or the default where none was.
pub open spec fn chosen_color(parsed: Option<HighlightColor>) -> HighlightColor {
    match parsed {
        Some(color) => color,
        None => default_color(),
    }
}

/// The colour that a name stands for. The name is folded to lower case; the
/// name of a fixed colour gives that colour, a name in hexadecimal form the
/// colour read from it, and any other name the default. A name in hexadecimal
/// form that is not in ASCII is no colour.
pub open spec fn resolved_color(name: Seq<char>) -> HighlightColor {
    let folded_name = lowercase(name);
    if !is_hex_form(folded_name) {
        chosen_color(basic_color(folded_name))
    } else if is_ascii_chars(folded_name) {
        chosen_color(hex_color(name))
    } else {
        default_color()
    }
}

/// The colour that was read, or the default where none was.
pub fn color_or_default(parsed: Option<HighlightColor>) -> (color: HighlightColor)
    ensures
        color == chosen_color(parsed),
{
    match parsed {
        Some(color) => color,
        None => HighlightColor::Blue,
    }
}

/// Resolves a colour's name. A name that is not recognised, `off` among them,
/// gives the default colour rather than a failure: marking cannot be switched
/// off by name.
pub fn resolve_color(name: &str) -> (color: HighlightColor)
    ensures
        color == resolved_color(name@),
{
    let folded_name = name.to_lowercase();
    let hex_form = !folded_name.as_str().is_empty() && folded_name.as_str().get_char(0) == '#';
    if hex_form && !folded_name.as_str().is_ascii() {
        HighlightColor::Blue
    } else {
        color_or_default(parse_color(name))
    }
}

} // verus!
