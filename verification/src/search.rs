//! Finding one run of bytes inside another.

use vstd::prelude::*;

verus! {

/// The way in which a search goes through a line.
#[derive(Clone, Copy, Debug, PartialEq, Eq, Structural)]
pub enum SearchDirection {
    /// From a place towards the end of the line.
    Forward,
    /// From the start of the line up to a place, looking for the last match.
    Backward,
}

/// `needle` stands in `hay` at offset `at`.
pub open spec fn occurs_at(hay: Seq<u8>, needle: Seq<u8>, at: int) -> bool {
    &&& 0 <= at
    &&& at + needle.len() <= hay.len()
    &&& hay.subrange(at, at + needle.len()) == needle
}

/// `needle` stands in `hay` at offset `at`, and nowhere before.
pub open spec fn is_first(hay: Seq<u8>, needle: Seq<u8>, at: int) -> bool {
    &&& occurs_at(hay, needle, at)
    &&& forall|other: int| occurs_at(hay, needle, other) ==> at <= other
}

/// `needle` stands in `hay` at offset `at`, and nowhere after.
pub open spec fn is_last(hay: Seq<u8>, needle: Seq<u8>, at: int) -> bool {
    &&& occurs_at(hay, needle, at)
    &&& forall|other: int| occurs_at(hay, needle, other) ==> other <= at
}

/// The least offset at which `needle` stands in `hay`, if it stands in it at all.
pub open spec fn first_occurrence(hay: Seq<u8>, needle: Seq<u8>) -> Option<int> {
    if exists|at: int| occurs_at(hay, needle, at) {
        Some(choose|at: int| is_first(hay, needle, at))
    } else {
        None
    }
}

/// The greatest offset at which `needle` stands in `hay`, if it stands in it at all.
pub open spec fn last_occurrence(hay: Seq<u8>, needle: Seq<u8>) -> Option<int> {
    if exists|at: int| occurs_at(hay, needle, at) {
        Some(choose|at: int| is_last(hay, needle, at))
    } else {
        None
    }
}

/// An offset of the machine as a mathematical one.
pub open spec fn offset_of(found: Option<usize>) -> Option<int> {
    match found {
        Some(at) => Some(at as int),
        None => None,
    }
}

/// Whether `needle` stands in `hay` at offset `at`.
fn matches_at(hay: &[u8], needle: &[u8], at: usize) -> (same: bool)
    requires
        at + needle@.len() <= hay@.len(),
    ensures
        same == occurs_at(hay@, needle@, at as int),
{
    let size: usize = hay.len();
    let mut k: usize = 0;
    while k < needle.len()
        invariant
            k <= needle@.len(),
            at + needle@.len() <= hay@.len(),
            size == hay@.len(),
            forall|j: int| 0 <= j < k ==> hay@[at + j] == needle@[j],
        decreases needle@.len() - k,
    {
        if hay[at + k] != needle[k] {
            assert(hay@.subrange(at as int, at + needle@.len())[k as int] != needle@[k as int]);
            return false;
        }
        k += 1;
    }
    assert(hay@.subrange(at as int, at + needle@.len()) =~= needle@);
    true
}

/// The first place where `needle` stands in `hay`.
pub fn find_first(hay: &[u8], needle: &[u8]) -> (found: Option<usize>)
    ensures
        offset_of(found) == first_occurrence(hay@, needle@),
{
    if needle.len() > hay.len() {
        return None;
    }
    let last: usize = hay.len() - needle.len();
    let mut at: usize = 0;
    loop
        invariant
            last == hay@.len() - needle@.len(),
            at <= last,
            forall|other: int| 0 <= other < at ==> !occurs_at(hay@, needle@, other),
        decreases last - at,
    {
        if matches_at(hay, needle, at) {
            assert(is_first(hay@, needle@, at as int));
            return Some(at);
        }
        if at == last {
            return None;
        }
        at += 1;
    }
}

/// The last place where `needle` stands in `hay`.
pub fn find_last(hay: &[u8], needle: &[u8]) -> (found: Option<usize>)
    ensures
        offset_of(found) == last_occurrence(hay@, needle@),
{
    if needle.len() > hay.len() {
        return None;
    }
    let last: usize = hay.len() - needle.len();
    let mut at: usize = last;
    loop
        invariant
            last == hay@.len() - needle@.len(),
            at <= last,
            forall|other: int| at < other ==> !occurs_at(hay@, needle@, other),
        decreases at,
    {
        if matches_at(hay, needle, at) {
            assert(is_last(hay@, needle@, at as int));
            return Some(at);
        }
        if at == 0 {
            return None;
        }
        at -= 1;
    }
}

} // verus!
