//! Case folding and blank text.
use vstd::prelude::*;

verus! {

/// The lower-cased form of a text, as `str::to_lowercase` gives it.
pub uninterp spec fn lowercase(text: Seq<char>) -> Seq<char>;

/// `str::to_lowercase`: the result is a function of the text alone, named
/// `lowercase`. Nothing else is claimed of it.
pub assume_specification[ str::to_lowercase ](text: &str) -> (lowered: String)
    ensures
        lowered@ == lowercase(text@),
;

/// A text as it is compared: unchanged when case matters, lower-cased otherwise.
pub open spec fn fold(text: Seq<char>, case_sensitive: bool) -> Seq<char> {
    if case_sensitive {
        text
    } else {
        lowercase(text)
    }
}

/// The code points with the Unicode property `White_Space`.
pub open spec fn is_whitespace(c: char) -> bool {
    let u = c as u32;
    ||| 0x09 <= u <= 0x0d
    ||| u == 0x20
    ||| u == 0x85
    ||| u == 0xa0
    ||| u == 0x1680
    ||| 0x2000 <= u <= 0x200a
    ||| u == 0x2028
    ||| u == 0x2029
    ||| u == 0x202f
    ||| u == 0x205f
    ||| u == 0x3000
}

/// A text is blank when it holds nothing but whitespace; the empty text is blank.
pub open spec fn is_blank(text: Seq<char>) -> bool {
    forall|i: int| 0 <= i < text.len() ==> is_whitespace(#[trigger] text[i])
}

/// Whether `c` is a whitespace character.
pub fn whitespace(c: char) -> (white: bool)
    ensures
        white == is_whitespace(c),
{
    let u: u32 = c as u32;
    (0x09 <= u && u <= 0x0d) || u == 0x20 || u == 0x85 || u == 0xa0 || u == 0x1680 || (0x2000 <= u
        && u <= 0x200a) || u == 0x2028 || u == 0x2029 || u == 0x202f || u == 0x205f || u == 0x3000
}

/// Whether `text` is blank.
pub fn blank(text: &str) -> (all_white: bool)
    ensures
        all_white == is_blank(text@),
{
    let mut all_white: bool = true;
    for c in it: text.chars()
        invariant
            it.seq() == text@,
            all_white <==> forall|i: int|
                0 <= i < it.index() ==> is_whitespace(#[trigger] text@[i]),
    {
        assert(c == text@[it.index() as int]);
        all_white = all_white && whitespace(c);
    }
    all_white
}

} // verus!
