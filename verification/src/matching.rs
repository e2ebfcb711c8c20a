//! Which lines match: a line matches when, under the case rule, it holds the
//! pattern.
use crate::boundary::lemma_occurrence_on_boundaries;
use crate::highlight::{cut, lemma_cut_rebuilds_line};
use crate::search::{contains, find, occurs_at};
use crate::text::{fold, lowercase};
use vstd::prelude::*;
use vstd::string::*;
use vstd::utf8::*;

verus! {

/// A line matches when its folded form holds the folded pattern: the line and
/// the pattern as they are where case matters, both in lower case where it does
/// not.
pub open spec fn line_matches(line: Seq<char>, pattern: Seq<char>, case_sensitive: bool) -> bool {
    contains(fold(line, case_sensitive), fold(pattern, case_sensitive))
}

/// The UTF-8 form of two texts joined is the two UTF-8 forms joined.
pub proof fn lemma_encode_concat(left: Seq<char>, right: Seq<char>)
    ensures
        encode_utf8(left + right) == encode_utf8(left) + encode_utf8(right),
    decreases left.len(),
{
    if left.len() == 0 {
        assert(left + right =~= right);
        assert(encode_utf8(left) + encode_utf8(right) =~= encode_utf8(right));
    } else {
        assert((left + right).drop_first() =~= left.drop_first() + right);
        lemma_encode_concat(left.drop_first(), right);
        assert(encode_utf8(left + right) =~= encode_utf8(left) + encode_utf8(right));
    }
}

/// A text holds a pattern exactly when its UTF-8 form holds the pattern's: a
/// search over bytes finds what a search over characters would.
pub proof fn lemma_contains_in_utf8(text: Seq<char>, pattern: Seq<char>)
    ensures
        contains(encode_utf8(text), encode_utf8(pattern)) <==> contains(text, pattern),
{
    let bytes = encode_utf8(text);
    let needle = encode_utf8(pattern);
    encode_utf8_valid_utf8(text);
    encode_utf8_valid_utf8(pattern);
    if contains(text, pattern) {
        let at = choose|at: int| occurs_at(text, pattern, at);
        let before = text.subrange(0, at);
        let after = text.subrange(at + pattern.len(), text.len() as int);
        assert(text =~= before + text.subrange(at, at + pattern.len()) + after);
        lemma_encode_concat(before, pattern);
        lemma_encode_concat(before + pattern, after);
        let start = encode_utf8(before).len() as int;
        assert(bytes.subrange(start, start + needle.len()) =~= needle);
        assert(occurs_at(bytes, needle, start));
    }
    if contains(bytes, needle) {
        if pattern.len() == 0 {
            assert(text.subrange(0, 0) =~= pattern);
            assert(occurs_at(text, pattern, 0));
        } else {
            let at = choose|at: int| occurs_at(bytes, needle, at);
            encode_utf8_decode_utf8(pattern);
            assert(needle.len() > 0) by {
                if needle.len() == 0 {
                    assert(decode_utf8(needle) =~= Seq::<char>::empty());
                }
            }
            lemma_occurrence_on_boundaries(bytes, needle, at);
            lemma_cut_rebuilds_line(text, at, at + needle.len());
            let parts = cut(text, at, at + needle.len());
            encode_utf8_decode_utf8(parts.matched);
            assert(parts.matched == pattern);
            let start = parts.before.len() as int;
            assert(parts.whole().subrange(start, start + pattern.len()) =~= pattern);
            assert(occurs_at(text, pattern, start));
        }
    }
}

/// Whether `text` holds `pattern`. The empty pattern lies in every text.
pub fn contains_text(text: &str, pattern: &str) -> (found: bool)
    ensures
        found == contains(text@, pattern@),
{
    proof {
        lemma_contains_in_utf8(text@, pattern@);
    }
    find(text.as_bytes(), pattern.as_bytes()).is_some()
}

/// Whether `line` matches `pattern` under the given case rule: where case
/// matters, whether the line holds the pattern; where it does not, whether the
/// line in lower case holds the pattern in lower case.
pub fn is_match(line: &str, pattern: &str, case_sensitive: bool) -> (found: bool)
    ensures
        found == line_matches(line@, pattern@, case_sensitive),
        case_sensitive ==> found == contains(line@, pattern@),
        !case_sensitive ==> found == contains(lowercase(line@), lowercase(pattern@)),
{
    if case_sensitive {
        contains_text(line, pattern)
    } else {
        let folded_line = line.to_lowercase();
        let folded_pattern = pattern.to_lowercase();
        contains_text(folded_line.as_str(), folded_pattern.as_str())
    }
}

} // verus!
