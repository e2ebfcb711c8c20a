//! The settings of one search.
use crate::color::{resolve_color, resolved_color, HighlightColor};
use crate::errors::GrepError;
use crate::text::{blank, fold, is_blank};
use vstd::prelude::*;
use vstd::string::*;

verus! {

/// What a search is set to: the settings as plain values.
pub struct Settings {
    /// The text looked for. Never blank.
    pub pattern: Seq<char>,
    /// The file to read, or none where standard input is read.
    pub path: Option<Seq<char>>,
    /// Whether upper and lower case differ.
    pub case_sensitive: bool,
    /// Whether each line is shown with its number.
    pub show_line_numbers: bool,
    /// The colour of the marked part.
    pub color: HighlightColor,
}

/// The settings of one search. Made once and never changed; its pattern is
/// never blank.
#[derive(Debug)]
pub struct Config {
    pattern: String,
    needle: String,
    path: Option<String>,
    case_sensitive: bool,
    show_line_numbers: bool,
    color: HighlightColor,
}

/// A path as a plain value.
pub open spec fn path_text(path: Option<String>) -> Option<Seq<char>> {
    match path {
        Some(text) => Some(text@),
        None => None,
    }
}

impl View for Config {
    type V = Settings;

    closed spec fn view(&self) -> Settings {
        Settings {
            pattern: self.pattern@,
            path: path_text(self.path),
            case_sensitive: self.case_sensitive,
            show_line_numbers: self.show_line_numbers,
            color: self.color,
        }
    }
}

impl Config {
    #[verifier::type_invariant]
    spec fn valid(&self) -> bool {
        &&& !is_blank(self.pattern@)
        &&& self.needle@ == fold(self.pattern@, self.case_sensitive)
    }

    /// Makes the settings of a search.
    ///
    /// A blank pattern (empty, or nothing but whitespace) is refused with
    /// `GrepError::EmptyPattern`; every other pattern is accepted. The colour is
    /// resolved from its name, and a name that is not recognised gives the
    /// default colour.
    pub fn new(
        pattern: String,
        path: Option<String>,
        case_sensitive: bool,
        show_line_numbers: bool,
        color_name: &str,
    ) -> (made: Result<Config, GrepError>)
        ensures
            is_blank(pattern@) ==> made == Err::<Config, GrepError>(GrepError::EmptyPattern),
            !is_blank(pattern@) ==> made is Ok && made->Ok_0@ == (Settings {
                pattern: pattern@,
                path: path_text(path),
                case_sensitive,
                show_line_numbers,
                color: resolved_color(color_name@),
            }),
    {
        let color = resolve_color(color_name);
        if blank(pattern.as_str()) {
            return Err(GrepError::EmptyPattern);
        }
        let needle = if case_sensitive {
            pattern.clone()
        } else {
            pattern.as_str().to_lowercase()
        };
        Ok(Config { pattern, needle, path, case_sensitive, show_line_numbers, color })
    }

    /// The text looked for. It is never blank.
    pub fn pattern(&self) -> (pattern: &str)
        ensures
            pattern@ == self@.pattern,
            !is_blank(pattern@),
            pattern@.len() > 0,
    {
        proof {
            use_type_invariant(self);
        }
        self.pattern.as_str()
    }

    /// The pattern as it is compared: folded by the case rule.
    pub fn needle(&self) -> (needle: &str)
        ensures
            needle@ == fold(self@.pattern, self@.case_sensitive),
    {
        proof {
            use_type_invariant(self);
        }
        self.needle.as_str()
    }

    /// The file to read, or none where standard input is read.
    pub fn path(&self) -> (path: Option<&str>)
        ensures
            path is Some == self@.path is Some,
            path matches Some(text) ==> Some(text@) == self@.path,
    {
        match &self.path {
            Some(text) => Some(text.as_str()),
            None => None,
        }
    }

    /// Whether upper and lower case differ.
    pub fn case_sensitive(&self) -> (flag: bool)
        ensures
            flag == self@.case_sensitive,
    {
        self.case_sensitive
    }

    /// Whether each line is shown with its number.
    pub fn show_line_numbers(&self) -> (flag: bool)
        ensures
            flag == self@.show_line_numbers,
    {
        self.show_line_numbers
    }

    /// The colour of the marked part.
    pub fn color(&self) -> (color: HighlightColor)
        ensures
            color == self@.color,
    {
        self.color
    }
}

} // verus!
