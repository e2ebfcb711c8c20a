//! Cutting a matching line in three: the text before the match, the match, and
//! the text after it.
use crate::boundary::{
    floor_boundary, floor_char_boundary, lemma_boundary_of_head, lemma_floor_boundary,
    lemma_floor_boundary_monotone, lemma_occurrence_on_boundaries,
};
use crate::search::{
    contains, find, first_occurrence, lemma_contains_has_first, lemma_empty_needle_occurs_first,
    lemma_first_occurrence,
};
use crate::text::fold;
use vstd::prelude::*;
use vstd::string::*;
use vstd::utf8::*;

verus! {

/// A line cut in three for display. The middle part is the one to mark.
#[derive(Debug, PartialEq, Eq)]
pub struct Highlighted {
    pub before: String,
    pub matched: String,
    pub after: String,
}

/// The three parts of a cut line, as texts.
pub struct Parts {
    pub before: Seq<char>,
    pub matched: Seq<char>,
    pub after: Seq<char>,
}

impl Parts {
    /// The parts put together again.
    pub open spec fn whole(self) -> Seq<char> {
        self.before + self.matched + self.after
    }
}

impl View for Highlighted {
    type V = Parts;

    open spec fn view(&self) -> Parts {
        Parts { before: self.before@, matched: self.matched@, after: self.after@ }
    }
}

/// `line` cut at the byte offsets `start` and `end` of its UTF-8 form.
pub open spec fn cut(line: Seq<char>, start: int, end: int) -> Parts {
    let bytes = encode_utf8(line);
    Parts {
        before: decode_utf8(bytes.subrange(0, start)),
        matched: decode_utf8(bytes.subrange(start, end)),
        after: decode_utf8(bytes.subrange(end, bytes.len() as int)),
    }
}

/// The byte offset at which the marked region starts: that of the first
/// occurrence of the folded pattern in the folded line, and 0 where there is
/// none.
pub open spec fn match_offset(folded_line: Seq<char>, folded_pattern: Seq<char>) -> int {
    match first_occurrence(encode_utf8(folded_line), encode_utf8(folded_pattern)) {
        Some(at) => at,
        None => 0,
    }
}

/// `line` with the region of `length` bytes from byte `offset` marked. An end of
/// the region that lies beyond the line or inside a character is moved down to
/// the nearest character boundary.
pub open spec fn highlighted_at(line: Seq<char>, offset: int, length: int) -> Parts {
    let bytes = encode_utf8(line);
    cut(line, floor_boundary(bytes, offset), floor_boundary(bytes, offset + length))
}

/// `line` with its match of `pattern` marked: the region starts where the folded
/// pattern first lies in the folded line and is as long as the pattern itself.
pub open spec fn highlighted(line: Seq<char>, pattern: Seq<char>, case_sensitive: bool) -> Parts {
    highlighted_at(
        line,
        match_offset(fold(line, case_sensitive), fold(pattern, case_sensitive)),
        encode_utf8(pattern).len() as int,
    )
}

/// Cutting a line at two of its character boundaries loses nothing: the parts
/// make up the line, and their byte lengths are those of the cut.
pub proof fn lemma_cut_rebuilds_line(line: Seq<char>, start: int, end: int)
    requires
        0 <= start <= end <= encode_utf8(line).len(),
        is_char_boundary(encode_utf8(line), start),
        is_char_boundary(encode_utf8(line), end),
    ensures
        cut(line, start, end).whole() == line,
        encode_utf8(cut(line, start, end).before) == encode_utf8(line).subrange(0, start),
        encode_utf8(cut(line, start, end).matched) == encode_utf8(line).subrange(start, end),
        encode_utf8(cut(line, start, end).after) == encode_utf8(line).subrange(
            end,
            encode_utf8(line).len() as int,
        ),
{
    let bytes = encode_utf8(line);
    let head = bytes.subrange(0, end);
    encode_utf8_valid_utf8(line);
    encode_utf8_decode_utf8(line);
    lemma_boundary_of_head(bytes, start, end);
    valid_utf8_split(bytes, end);
    valid_utf8_split(head, start);
    decode_utf8_split(bytes, end);
    decode_utf8_split(head, start);
    assert(head.subrange(0, start) =~= bytes.subrange(0, start));
    assert(head.subrange(start, head.len() as int) =~= bytes.subrange(start, end));
    decode_utf8_encode_utf8(bytes.subrange(0, start));
    decode_utf8_encode_utf8(bytes.subrange(start, end));
    decode_utf8_encode_utf8(bytes.subrange(end, bytes.len() as int));
    let parts = cut(line, start, end);
    assert(parts.whole() =~= line);
}

/// Marking never alters the line: whatever the offset and the length of the
/// region, the three parts put together are the line.
pub proof fn lemma_highlight_keeps_line(line: Seq<char>, offset: int, length: int)
    requires
        0 <= length,
    ensures
        highlighted_at(line, offset, length).whole() == line,
{
    let bytes = encode_utf8(line);
    encode_utf8_valid_utf8(line);
    lemma_floor_boundary(bytes, offset);
    lemma_floor_boundary(bytes, offset + length);
    lemma_floor_boundary_monotone(bytes, offset, offset + length);
    lemma_cut_rebuilds_line(
        line,
        floor_boundary(bytes, offset),
        floor_boundary(bytes, offset + length),
    );
}

/// Marking never alters the line, for every line, pattern and case rule.
pub proof fn lemma_highlighted_keeps_line(
    line: Seq<char>,
    pattern: Seq<char>,
    case_sensitive: bool,
)
    ensures
        highlighted(line, pattern, case_sensitive).whole() == line,
{
    lemma_highlight_keeps_line(
        line,
        match_offset(fold(line, case_sensitive), fold(pattern, case_sensitive)),
        encode_utf8(pattern).len() as int,
    );
}

/// Where case matters and the line holds the pattern, the marked part is the
/// pattern itself, and the part before it ends where the pattern first lies.
pub proof fn lemma_case_sensitive_highlight_is_pattern(line: Seq<char>, pattern: Seq<char>)
    requires
        contains(encode_utf8(line), encode_utf8(pattern)),
    ensures
        highlighted(line, pattern, true).matched == pattern,
        first_occurrence(encode_utf8(line), encode_utf8(pattern)) == Some(
            encode_utf8(highlighted(line, pattern, true).before).len() as int,
        ),
{
    let bytes = encode_utf8(line);
    let needle = encode_utf8(pattern);
    let at = match_offset(line, pattern);
    encode_utf8_valid_utf8(line);
    encode_utf8_valid_utf8(pattern);
    encode_utf8_decode_utf8(pattern);
    lemma_contains_has_first(bytes, needle);
    is_char_boundary_start_end_of_seq(bytes);
    if needle.len() == 0 {
        lemma_empty_needle_occurs_first(bytes, needle);
        lemma_first_occurrence(bytes, needle, 0);
    } else {
        lemma_occurrence_on_boundaries(bytes, needle, at);
    }
    lemma_floor_boundary(bytes, at);
    lemma_floor_boundary(bytes, at + needle.len());
    lemma_cut_rebuilds_line(line, at, at + needle.len());
}

/// Where the folded line does not hold the folded pattern, the marked region
/// starts at the start of the line: nothing stands before it.
pub proof fn lemma_unfound_highlight_starts_line(
    line: Seq<char>,
    pattern: Seq<char>,
    case_sensitive: bool,
)
    requires
        !contains(
            encode_utf8(fold(line, case_sensitive)),
            encode_utf8(fold(pattern, case_sensitive)),
        ),
    ensures
        highlighted(line, pattern, case_sensitive).before == Seq::<char>::empty(),
{
    let bytes = encode_utf8(line);
    assert(bytes.subrange(0, 0) =~= Seq::<u8>::empty());
    assert(decode_utf8(Seq::<u8>::empty()) =~= Seq::<char>::empty());
}

/// Cuts `line` at two of its character boundaries.
fn cut_line(line: &str, start: usize, end: usize) -> (parts: Highlighted)
    requires
        start <= end <= encode_utf8(line@).len(),
        is_char_boundary(encode_utf8(line@), start as int),
        is_char_boundary(encode_utf8(line@), end as int),
    ensures
        parts@ == cut(line@, start as int, end as int),
{
    let ghost bytes = encode_utf8(line@);
    proof {
        encode_utf8_valid_utf8(line@);
        lemma_boundary_of_head(bytes, start as int, end as int);
    }
    let (head, after) = line.split_at(end);
    let (before, matched) = head.split_at(start);
    proof {
        assert(bytes.subrange(0, end as int).subrange(0, start as int) =~= bytes.subrange(
            0,
            start as int,
        ));
        assert(bytes.subrange(0, end as int).subrange(start as int, end as int) =~= bytes.subrange(
            start as int,
            end as int,
        ));
        encode_utf8_decode_utf8(before@);
        encode_utf8_decode_utf8(matched@);
        encode_utf8_decode_utf8(after@);
    }
    Highlighted {
        before: before.to_owned(),
        matched: matched.to_owned(),
        after: after.to_owned(),
    }
}

/// Marks the region of `length` bytes from byte `offset` of `line`.
///
/// An end of the region that lies beyond the line or inside a character is
/// moved down to the nearest character boundary, so the parts always make up
/// the line.
pub fn highlight_at(line: &str, offset: usize, length: usize) -> (parts: Highlighted)
    ensures
        parts@ == highlighted_at(line@, offset as int, length as int),
        parts@.whole() == line@,
{
    let ghost bytes = encode_utf8(line@);
    proof {
        encode_utf8_valid_utf8(line@);
        lemma_floor_boundary(bytes, offset as int);
        lemma_floor_boundary(bytes, offset + length);
        lemma_floor_boundary_monotone(bytes, offset as int, offset + length);
        lemma_highlight_keeps_line(line@, offset as int, length as int);
    }
    let start: usize = floor_char_boundary(line, offset);
    let end: usize = if length > usize::MAX - offset {
        line.as_bytes().len()
    } else {
        floor_char_boundary(line, offset + length)
    };
    cut_line(line, start, end)
}

/// Marks the match in `line`, given the line and the pattern as they are
/// compared: the region starts where `folded_pattern` first lies in
/// `folded_line` (at the start of the line where it does not) and is as long as
/// `pattern`.
pub fn highlight_folded(
    line: &str,
    pattern: &str,
    folded_line: &str,
    folded_pattern: &str,
) -> (parts: Highlighted)
    ensures
        parts@ == highlighted_at(
            line@,
            match_offset(folded_line@, folded_pattern@),
            encode_utf8(pattern@).len() as int,
        ),
        parts@.whole() == line@,
{
    let offset: usize = match find(folded_line.as_bytes(), folded_pattern.as_bytes()) {
        Some(at) => at,
        None => 0,
    };
    highlight_at(line, offset, pattern.as_bytes().len())
}

/// Marks the match of `pattern` in `line` under the given case rule.
pub fn highlight(line: &str, pattern: &str, case_sensitive: bool) -> (parts: Highlighted)
    ensures
        parts@ == highlighted(line@, pattern@, case_sensitive),
        parts@.whole() == line@,
{
    if case_sensitive {
        highlight_folded(line, pattern, line, pattern)
    } else {
        let folded_line = line.to_lowercase();
        let folded_pattern = pattern.to_lowercase();
        highlight_folded(line, pattern, folded_line.as_str(), folded_pattern.as_str())
    }
}

} // verus!
