//! Character boundaries in UTF-8 text: where a byte offset may cut a line.
use vstd::prelude::*;
use vstd::string::*;
use vstd::utf8::*;

verus! {

/// The nearest character boundary of `bytes` at or below `index`, kept within
/// the text: 0 for a negative index, the length for one beyond the end.
pub open spec fn floor_boundary(bytes: Seq<u8>, index: int) -> int
    decreases index,
{
    if index <= 0 {
        0
    } else if index >= bytes.len() {
        bytes.len() as int
    } else if is_char_boundary(bytes, index) {
        index
    } else {
        floor_boundary(bytes, index - 1)
    }
}

/// `floor_boundary` gives a boundary within the text, at or below the index.
pub proof fn lemma_floor_boundary(bytes: Seq<u8>, index: int)
    requires
        valid_utf8(bytes),
    ensures
        0 <= floor_boundary(bytes, index) <= bytes.len(),
        index >= 0 ==> floor_boundary(bytes, index) <= index,
        is_char_boundary(bytes, floor_boundary(bytes, index)),
        0 <= index <= bytes.len() && is_char_boundary(bytes, index) ==> floor_boundary(
            bytes,
            index,
        ) == index,
    decreases index,
{
    is_char_boundary_start_end_of_seq(bytes);
    if index <= 0 {
    } else if index >= bytes.len() {
    } else if is_char_boundary(bytes, index) {
    } else {
        lemma_floor_boundary(bytes, index - 1);
    }
}

/// No boundary lies between the floor of an index and the index: the floor is
/// the nearest one.
pub proof fn lemma_floor_boundary_is_nearest(bytes: Seq<u8>, index: int, boundary: int)
    requires
        valid_utf8(bytes),
        0 <= boundary <= index,
        boundary <= bytes.len(),
        is_char_boundary(bytes, boundary),
    ensures
        boundary <= floor_boundary(bytes, index),
    decreases index,
{
    if index <= 0 || index >= bytes.len() || is_char_boundary(bytes, index) {
    } else {
        lemma_floor_boundary_is_nearest(bytes, index - 1, boundary);
    }
}

/// A later index never has an earlier floor.
pub proof fn lemma_floor_boundary_monotone(bytes: Seq<u8>, low: int, high: int)
    requires
        valid_utf8(bytes),
        low <= high,
    ensures
        floor_boundary(bytes, low) <= floor_boundary(bytes, high),
    decreases high - low,
{
    lemma_floor_boundary(bytes, low);
    lemma_floor_boundary(bytes, high);
    if low == high || low <= 0 || high >= bytes.len() {
    } else if is_char_boundary(bytes, high) {
    } else {
        lemma_floor_boundary_monotone(bytes, low, high - 1);
    }
}

/// A valid text that opens another valid text ends on a boundary of it.
pub proof fn lemma_prefix_ends_on_boundary(prefix: Seq<u8>, bytes: Seq<u8>)
    requires
        valid_utf8(prefix),
        valid_utf8(bytes),
        prefix.len() <= bytes.len(),
        bytes.subrange(0, prefix.len() as int) == prefix,
    ensures
        is_char_boundary(bytes, prefix.len() as int),
    decreases prefix.len(),
{
    if prefix.len() > 0 {
        let width = length_of_first_scalar(prefix);
        assert(bytes[0] == bytes.subrange(0, prefix.len() as int)[0]);
        assert(width == length_of_first_scalar(bytes));
        assert(width <= prefix.len());
        let prefix_rest = pop_first_scalar(prefix);
        let bytes_rest = pop_first_scalar(bytes);
        assert(bytes_rest.subrange(0, prefix_rest.len() as int) =~= prefix_rest) by {
            assert forall|i: int| 0 <= i < prefix_rest.len() implies bytes_rest[i]
                == prefix_rest[i] by {
                assert(bytes[width + i] == bytes.subrange(0, prefix.len() as int)[width + i]);
            }
        }
        lemma_prefix_ends_on_boundary(prefix_rest, bytes_rest);
    }
}

/// A boundary of a text is a boundary of each part cut at another boundary
/// that lies at or beyond it.
pub proof fn lemma_boundary_of_head(bytes: Seq<u8>, index: int, end: int)
    requires
        valid_utf8(bytes),
        0 <= index <= end <= bytes.len(),
        is_char_boundary(bytes, index),
        is_char_boundary(bytes, end),
    ensures
        valid_utf8(bytes.subrange(0, end)),
        is_char_boundary(bytes.subrange(0, end), index),
{
    let head = bytes.subrange(0, end);
    valid_utf8_split(bytes, end);
    is_char_boundary_start_end_of_seq(head);
    if index < end {
        is_char_boundary_iff_not_is_continuation_byte(bytes, index);
        is_char_boundary_iff_not_is_continuation_byte(head, index);
        assert(head[index] == bytes[index]);
    }
}

/// A valid, non-empty text that lies in another valid text begins and ends on
/// boundaries of it.
pub proof fn lemma_occurrence_on_boundaries(hay: Seq<u8>, needle: Seq<u8>, at: int)
    requires
        valid_utf8(hay),
        valid_utf8(needle),
        needle.len() > 0,
        0 <= at,
        at + needle.len() <= hay.len(),
        hay.subrange(at, at + needle.len()) == needle,
    ensures
        is_char_boundary(hay, at),
        is_char_boundary(hay, at + needle.len()),
{
    is_char_boundary_start_end_of_seq(hay);
    is_char_boundary_start_end_of_seq(needle);
    is_char_boundary_iff_not_is_continuation_byte(needle, 0);
    is_char_boundary_iff_not_is_continuation_byte(hay, at);
    assert(hay[at] == hay.subrange(at, at + needle.len())[0]);
    assert(is_char_boundary(hay, at));
    let end = at + needle.len();
    if end < hay.len() {
        let tail = hay.subrange(at, hay.len() as int);
        valid_utf8_split(hay, at);
        assert(tail.subrange(0, needle.len() as int) =~= needle) by {
            assert forall|i: int| 0 <= i < needle.len() implies tail[i] == needle[i] by {
                assert(hay[at + i] == hay.subrange(at, at + needle.len())[i]);
            }
        }
        lemma_prefix_ends_on_boundary(needle, tail);
        is_char_boundary_iff_not_is_continuation_byte(tail, needle.len() as int);
        is_char_boundary_iff_not_is_continuation_byte(hay, end);
        assert(tail[needle.len() as int] == hay[end]);
    }
}

/// The nearest character boundary of `text` at or below byte offset `index`.
pub fn floor_char_boundary(text: &str, index: usize) -> (floor: usize)
    ensures
        floor == floor_boundary(encode_utf8(text@), index as int),
        floor <= index,
        floor <= encode_utf8(text@).len(),
        is_char_boundary(encode_utf8(text@), floor as int),
{
    proof {
        encode_utf8_valid_utf8(text@);
        lemma_floor_boundary(encode_utf8(text@), index as int);
    }
    let len: usize = text.as_bytes().len();
    if index >= len {
        return len;
    }
    let mut floor: usize = index;
    while !text.is_char_boundary(floor)
        invariant
            floor <= index < len,
            len == encode_utf8(text@).len(),
            valid_utf8(encode_utf8(text@)),
            floor_boundary(encode_utf8(text@), floor as int) == floor_boundary(
                encode_utf8(text@),
                index as int,
            ),
        decreases floor,
    {
        proof {
            is_char_boundary_start_end_of_seq(encode_utf8(text@));
        }
        floor -= 1;
    }
    proof {
        lemma_floor_boundary(encode_utf8(text@), floor as int);
    }
    floor
}

} // verus!
