//! What can end a search early, and how it is reported.
use crate::paint::{bold, red, styled};
use vstd::prelude::*;
use vstd::string::*;

verus! {

/// The ways a search fails. Each is final: nothing is tried again.
#[derive(Debug, PartialEq, Eq)]
pub enum GrepError {
    /// The pattern is empty or holds nothing but whitespace.
    EmptyPattern,
    /// The path that was given does not lead to a regular file.
    NotAFile(String),
    /// The source could not be opened or read; the text says why.
    Io(String),
}

/// The tag in front of every report.
pub open spec fn tag() -> Seq<char> {
    "grep-rs: "@
}

/// The report for a path shown as `shown`.
pub open spec fn path_report(shown: Seq<char>) -> Seq<char> {
    tag() + shown + " is not a file"@
}

impl GrepError {
    /// `out` is the report of this error: the tag and what went wrong. A path
    /// is shown in bold.
    pub open spec fn is_message(self, out: Seq<char>) -> bool {
        match self {
            GrepError::EmptyPattern => out == tag() + "Pattern cannot be empty"@,
            GrepError::NotAFile(path) => exists|shown: Seq<char>|
                styled(path@, seq!['1'], shown) && out == path_report(shown),
            GrepError::Io(detail) => out == tag() + detail@,
        }
    }

    /// `out` is the line written for this error: its report in red.
    pub open spec fn is_diagnostic(self, out: Seq<char>) -> bool {
        exists|message: Seq<char>|
            self.is_message(message) && styled(message, seq!['3', '1'], out)
    }

    /// The report that a path, shown as `shown`, is not a file.
    pub fn path_message(shown: &str) -> (out: String)
        ensures
            out@ == path_report(shown@),
    {
        let mut out = String::from_str("grep-rs: ");
        out.append(shown);
        out.append(" is not a file");
        out
    }

    /// The report of this error.
    pub fn message(&self) -> (out: String)
        ensures
            self.is_message(out@),
    {
        match self {
            GrepError::EmptyPattern => {
                let mut out = String::from_str("grep-rs: ");
                out.append("Pattern cannot be empty");
                out
            },
            GrepError::NotAFile(path) => {
                let shown = bold(path.as_str());
                Self::path_message(shown.as_str())
            },
            GrepError::Io(detail) => {
                let mut out = String::from_str("grep-rs: ");
                out.append(detail.as_str());
                out
            },
        }
    }

    /// The line to write for this error: its report, in red.
    pub fn diagnostic(&self) -> (out: String)
        ensures
            self.is_diagnostic(out@),
    {
        let message = self.message();
        red(message.as_str())
    }
}

} // verus!
