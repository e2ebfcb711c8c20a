//! The line written for a match: the number where numbers are shown, then the
//! three parts with the middle one marked, then a line feed.
use crate::color::HighlightColor;
use crate::config::Config;
use crate::number::{number_prefix, number_prefix_text};
use crate::paint::{bold, bold_in, painted, plain, styled};
use crate::scan::{examined, Found, Match, Scanner};
use vstd::prelude::*;
use vstd::string::*;

verus! {

/// The four pieces of an output line joined, with a line feed at the end.
pub open spec fn joined(
    prefix: Seq<char>,
    before: Seq<char>,
    marked: Seq<char>,
    after: Seq<char>,
) -> Seq<char> {
    prefix + before + marked + after + seq!['\n']
}

/// `prefix` is what stands before line `number`: the number in bold, a colon
/// and two spaces where numbers are shown, nothing where they are not.
pub open spec fn is_prefix(number: nat, show_line_numbers: bool, prefix: Seq<char>) -> bool {
    if show_line_numbers {
        styled(number_prefix(number), seq!['1'], prefix)
    } else {
        prefix == Seq::<char>::empty()
    }
}

/// `out` is the line written for `hit`: the prefix, the part before the match
/// as it is, the match in bold and in `color`, the part after it as it is, and
/// a line feed.
pub open spec fn is_rendering(
    hit: Found,
    show_line_numbers: bool,
    color: HighlightColor,
    out: Seq<char>,
) -> bool {
    exists|prefix: Seq<char>, marked: Seq<char>|
        #![trigger is_prefix(hit.number, show_line_numbers, prefix), painted(hit.parts.matched, color, marked)]
        {
            &&& is_prefix(hit.number, show_line_numbers, prefix)
            &&& painted(hit.parts.matched, color, marked)
            &&& out == joined(prefix, hit.parts.before, marked, hit.parts.after)
        }
}

/// Joins the four pieces of an output line and ends it with a line feed.
pub fn assemble(prefix: &str, before: &str, marked: &str, after: &str) -> (out: String)
    ensures
        out@ == joined(prefix@, before@, marked@, after@),
{
    proof {
        reveal_strlit("\n");
    }
    let mut out = String::from_str(prefix);
    out.append(before);
    out.append(marked);
    out.append(after);
    out.append("\n");
    assert(out@ =~= joined(prefix@, before@, marked@, after@));
    out
}

/// What stands before a line: its number in bold with a colon and two spaces
/// where numbers are shown, nothing where they are not.
pub fn prefix_text(number: u64, show_line_numbers: bool) -> (prefix: String)
    ensures
        is_prefix(number as nat, show_line_numbers, prefix@),
{
    if show_line_numbers {
        let label = number_prefix_text(number);
        bold(label.as_str())
    } else {
        String::new()
    }
}

impl Config {
    /// The line to write for a match, line feed included.
    pub fn render(&self, hit: &Match) -> (out: String)
        ensures
            is_rendering(hit@, self@.show_line_numbers, self@.color, out@),
    {
        let prefix = prefix_text(hit.number, self.show_line_numbers());
        let before = plain(hit.parts.before.as_str());
        let marked = bold_in(hit.parts.matched.as_str(), self.color());
        let after = plain(hit.parts.after.as_str());
        let out = assemble(prefix.as_str(), before.as_str(), marked.as_str(), after.as_str());
        assert(is_prefix(hit@.number, self@.show_line_numbers, prefix@));
        assert(painted(hit@.parts.matched, self@.color, marked@));
        out
    }
}

impl Scanner {
    /// Takes the next line of the source and gives the line to write for it,
    /// if it matches. The line gets the next number either way.
    pub fn emit(&mut self, line: &str) -> (out: Option<String>)
        requires
            old(self).seen() < u64::MAX,
        ensures
            final(self).settings() == old(self).settings(),
            final(self).seen() == old(self).seen() + 1,
            match examined(old(self).settings(), old(self).seen() + 1, line@) {
                Some(hit) => out is Some && is_rendering(
                    hit,
                    old(self).settings().show_line_numbers,
                    old(self).settings().color,
                    out->0@,
                ),
                None => out is None,
            },
    {
        match self.feed(line) {
            Some(hit) => Some(self.config().render(&hit)),
            None => None,
        }
    }
}

} // verus!
