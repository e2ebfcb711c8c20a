//! Substring search: where one sequence lies in another.
use vstd::prelude::*;

verus! {

/// `needle` lies in `hay` at offset `at`.
pub open spec fn occurs_at<T>(hay: Seq<T>, needle: Seq<T>, at: int) -> bool {
    &&& 0 <= at
    &&& at + needle.len() <= hay.len()
    &&& hay.subrange(at, at + needle.len()) == needle
}

/// `needle` lies somewhere in `hay`.
pub open spec fn contains<T>(hay: Seq<T>, needle: Seq<T>) -> bool {
    exists|at: int| occurs_at(hay, needle, at)
}

/// `at` is the lowest offset at which `needle` lies in `hay`.
pub open spec fn is_first_occurrence<T>(hay: Seq<T>, needle: Seq<T>, at: int) -> bool {
    &&& occurs_at(hay, needle, at)
    &&& forall|earlier: int| 0 <= earlier < at ==> !occurs_at(hay, needle, earlier)
}

/// The lowest offset at which `needle` lies in `hay`, if it lies there at all.
pub open spec fn first_occurrence<T>(hay: Seq<T>, needle: Seq<T>) -> Option<int> {
    if contains(hay, needle) {
        Some(choose|at: int| is_first_occurrence(hay, needle, at))
    } else {
        None
    }
}

/// The lowest offset of an occurrence is unique, so `first_occurrence` names it.
pub proof fn lemma_first_occurrence<T>(hay: Seq<T>, needle: Seq<T>, at: int)
    requires
        is_first_occurrence(hay, needle, at),
    ensures
        first_occurrence(hay, needle) == Some(at),
{
    let picked = choose|at: int| is_first_occurrence(hay, needle, at);
    assert(occurs_at(hay, needle, at));
    if picked < at {
        assert(!occurs_at(hay, needle, picked));
    } else if at < picked {
        assert(!occurs_at(hay, needle, at));
    }
}

/// Below every occurrence lies a lowest one.
proof fn lemma_lowest_occurrence<T>(hay: Seq<T>, needle: Seq<T>, at: int)
    requires
        occurs_at(hay, needle, at),
    ensures
        exists|lowest: int| is_first_occurrence(hay, needle, lowest),
    decreases at,
{
    if exists|earlier: int| 0 <= earlier < at && occurs_at(hay, needle, earlier) {
        let earlier = choose|earlier: int| 0 <= earlier < at && occurs_at(hay, needle, earlier);
        lemma_lowest_occurrence(hay, needle, earlier);
    } else {
        assert(is_first_occurrence(hay, needle, at));
    }
}

/// A text that holds the needle holds it at a lowest offset, and
/// `first_occurrence` is that offset.
pub proof fn lemma_contains_has_first<T>(hay: Seq<T>, needle: Seq<T>)
    requires
        contains(hay, needle),
    ensures
        first_occurrence(hay, needle) is Some,
        is_first_occurrence(hay, needle, first_occurrence(hay, needle)->0),
{
    let at = choose|at: int| occurs_at(hay, needle, at);
    lemma_lowest_occurrence(hay, needle, at);
}

/// The empty needle lies at offset 0 of every text.
pub proof fn lemma_empty_needle_occurs_first<T>(hay: Seq<T>, needle: Seq<T>)
    requires
        needle.len() == 0,
    ensures
        is_first_occurrence(hay, needle, 0),
        contains(hay, needle),
{
    assert(hay.subrange(0, 0) =~= needle);
    assert(occurs_at(hay, needle, 0));
}

/// Whether `needle` lies in `hay` at offset `at`. It does not where it would
/// reach beyond the end of `hay`.
pub fn matches_at(hay: &[u8], needle: &[u8], at: usize) -> (found: bool)
    ensures
        found == occurs_at(hay@, needle@, at as int),
{
    let n: usize = needle.len();
    let h: usize = hay.len();
    if n > h || at > h - n {
        return false;
    }
    let mut k: usize = 0;
    while k < n
        invariant
            n == needle@.len(),
            h == hay@.len(),
            at + n <= h,
            k <= n,
            forall|j: int| 0 <= j < k ==> hay@[at + j] == needle@[j],
        decreases n - k,
    {
        if hay[at + k] != needle[k] {
            proof {
                let window = hay@.subrange(at as int, at + n);
                assert(window[k as int] == hay@[at + k]);
            }
            return false;
        }
        k += 1;
    }
    proof {
        assert(hay@.subrange(at as int, at + n) =~= needle@);
    }
    true
}

/// The byte offset of the first occurrence of `needle` in `hay`.
///
/// `Some` exactly when `needle` lies in `hay`; the offset is then the lowest
/// one. The empty needle is found at offset 0.
pub fn find(hay: &[u8], needle: &[u8]) -> (found: Option<usize>)
    ensures
        found is Some <==> contains(hay@, needle@),
        found matches Some(at) ==> is_first_occurrence(hay@, needle@, at as int),
        first_occurrence(hay@, needle@) == match found {
            Some(at) => Some(at as int),
            None => None,
        },
{
    let n: usize = needle.len();
    let h: usize = hay.len();
    if n > h {
        return None;
    }
    let last: usize = h - n;
    let mut at: usize = 0;
    loop
        invariant
            n == needle@.len(),
            h == hay@.len(),
            last == h - n,
            at <= last,
            forall|earlier: int| 0 <= earlier < at ==> !occurs_at(hay@, needle@, earlier),
        decreases last - at,
    {
        if matches_at(hay, needle, at) {
            proof {
                lemma_first_occurrence(hay@, needle@, at as int);
            }
            return Some(at);
        }
        if at == last {
            return None;
        }
        at += 1;
    }
}

} // verus!
