//! Grapheme clusters: the pieces of a text that a reader takes for single characters.
//!
//! Where the clusters of a text begin and end is decided by the Unicode tables of the
//! `unicode-segmentation` crate. Nothing here looks into those tables: the clusters of
//! a text have a name, [`grapheme_clusters`], and the one function that asks the crate
//! for them, [`graphemes`], is trusted to return them.

use vstd::prelude::*;
use vstd::seq_lib::lemma_flatten_concat;
use vstd::string::StringExecFns;
use vstd::utf8::encode_utf8;
use crate::search::offset_of;
use crate::text::lemma_encode_concat;

verus! {

/// The extended grapheme clusters of `text`, in the order in which they stand in it.
pub uninterp spec fn grapheme_clusters(text: Seq<char>) -> Seq<Seq<char>>;

/// `parts` tile `text`: none of them is empty, and joined end to end they are `text`.
pub open spec fn tiles(parts: Seq<Seq<char>>, text: Seq<char>) -> bool {
    &&& parts.flatten() == text
    &&& forall|i: int| 0 <= i < parts.len() ==> (#[trigger] parts[i]).len() > 0
}

/// The clusters of `text` tile it.
pub open spec fn segmented(text: Seq<char>) -> bool {
    tiles(grapheme_clusters(text), text)
}

/// The number of scalar values that stand before cluster `index` of `text`. An `index`
/// at or past the number of clusters gives the length of the text.
pub open spec fn cluster_start(text: Seq<char>, index: int) -> int {
    let clusters = grapheme_clusters(text);
    if index <= 0 {
        0
    } else if index >= clusters.len() {
        text.len() as int
    } else {
        clusters.take(index).flatten().len() as int
    }
}

/// The number of bytes that stand before part `index` of `parts`, in UTF-8.
pub open spec fn byte_start(parts: Seq<Seq<char>>, index: int) -> int {
    encode_utf8(parts.take(index).flatten()).len() as int
}

/// Part `index` of `parts` begins at byte `offset`.
pub open spec fn starts_at_byte(parts: Seq<Seq<char>>, index: int, offset: int) -> bool {
    0 <= index < parts.len() && byte_start(parts, index) == offset
}

/// The first of `parts` that begins at byte `offset`, if one does.
pub open spec fn part_at_byte(parts: Seq<Seq<char>>, offset: int) -> Option<int> {
    if exists|index: int| starts_at_byte(parts, index, offset) {
        Some(
            choose|index: int|
                starts_at_byte(parts, index, offset) && forall|other: int|
                    starts_at_byte(parts, other, offset) ==> index <= other,
        )
    } else {
        None
    }
}

/// Splits `text` into its extended grapheme clusters.
///
/// Trusted. The body is one call of `UnicodeSegmentation::graphemes` of the
/// `unicode-segmentation` crate, with `is_extended` set, and each slice that the
/// iterator yields is copied into a `String`. Assumed of that call: what it yields is
/// `grapheme_clusters(text@)`; every slice is non-empty; and the slices follow one
/// another from the first byte of `text` to its last, so that together they are `text`.
#[verifier::external_body]
pub(crate) fn graphemes(text: &str) -> (clusters: Vec<String>)
    ensures
        clusters.deep_view() == grapheme_clusters(text@),
        tiles(clusters.deep_view(), text@),
{
    unicode_segmentation::UnicodeSegmentation::graphemes(text, true).map(String::from).collect()
}

/// A run of parts is as long as its pieces together: splitting the run anywhere splits
/// what it joins to.
pub proof fn lemma_flatten_split(parts: Seq<Seq<char>>, at: int)
    requires
        0 <= at <= parts.len(),
    ensures
        parts.flatten() == parts.take(at).flatten() + parts.skip(at).flatten(),
{
    assert(parts =~= parts.take(at) + parts.skip(at));
    lemma_flatten_concat(parts.take(at), parts.skip(at));
}

/// Joining the parts from `from` up to `to` and then part `to` joins the parts from
/// `from` up to and with `to`.
pub proof fn lemma_flatten_step(parts: Seq<Seq<char>>, from: int, to: int)
    requires
        0 <= from <= to < parts.len(),
    ensures
        parts.subrange(from, to + 1).flatten() == parts.subrange(from, to).flatten() + parts[to],
{
    assert(parts.subrange(from, to + 1) =~= parts.subrange(from, to).push(parts[to]));
    parts.subrange(from, to).lemma_flatten_push(parts[to]);
}

/// Parts of which none is empty are at most as many as the scalar values they hold.
pub proof fn lemma_count_le_len(parts: Seq<Seq<char>>)
    requires
        forall|i: int| 0 <= i < parts.len() ==> (#[trigger] parts[i]).len() > 0,
    ensures
        parts.len() <= parts.flatten().len(),
    decreases parts.len(),
{
    if parts.len() > 0 {
        let rest = parts.drop_first();
        assert forall|i: int| 0 <= i < rest.len() implies (#[trigger] rest[i]).len() > 0 by {
            assert(rest[i] == parts[i + 1]);
        }
        lemma_count_le_len(rest);
        assert(parts[0].len() > 0);
    }
}

/// Appends to `out` the clusters from `from` up to `to`, in order.
pub fn append_clusters(out: &mut String, clusters: &Vec<String>, from: usize, to: usize)
    requires
        from <= to <= clusters@.len(),
    ensures
        final(out)@ == old(out)@ + clusters.deep_view().subrange(from as int, to as int).flatten(),
{
    let ghost parts = clusters.deep_view();
    let mut index: usize = from;
    assert(parts.subrange(from as int, from as int).flatten() =~= Seq::<char>::empty());
    assert(out@ =~= old(out)@ + parts.subrange(from as int, index as int).flatten());
    while index < to
        invariant
            from <= index <= to <= clusters@.len(),
            parts == clusters.deep_view(),
            out@ == old(out)@ + parts.subrange(from as int, index as int).flatten(),
        decreases to - index,
    {
        proof {
            lemma_flatten_step(parts, from as int, index as int);
            assert(parts[index as int] == clusters@[index as int]@);
        }
        out.append(clusters[index].as_str());
        index += 1;
        assert(out@ =~= old(out)@ + parts.subrange(from as int, index as int).flatten());
    }
}

/// In a text that its clusters tile, cluster `index` begins where the clusters before
/// it end: these make up the text before that place, and the others the text after it.
pub proof fn lemma_cluster_start(text: Seq<char>, index: int)
    requires
        segmented(text),
        0 <= index <= grapheme_clusters(text).len(),
    ensures
        0 <= cluster_start(text, index) <= text.len(),
        cluster_start(text, index) == grapheme_clusters(text).take(index).flatten().len(),
        text.take(cluster_start(text, index)) == grapheme_clusters(text).take(index).flatten(),
        text.skip(cluster_start(text, index)) == grapheme_clusters(text).skip(index).flatten(),
{
    let clusters = grapheme_clusters(text);
    let head = clusters.take(index).flatten();
    let tail = clusters.skip(index).flatten();
    lemma_flatten_split(clusters, index);
    if index == 0 {
        assert(clusters.take(0) =~= Seq::<Seq<char>>::empty());
        assert(head =~= Seq::<char>::empty());
    }
    if index == clusters.len() {
        assert(clusters.take(index) =~= clusters);
    }
    assert(text.take(head.len() as int) =~= head);
    assert(text.skip(head.len() as int) =~= tail);
}

/// A part begins where the part before it ends.
pub proof fn lemma_byte_start_step(parts: Seq<Seq<char>>, index: int)
    requires
        0 <= index < parts.len(),
    ensures
        byte_start(parts, index + 1) == byte_start(parts, index) + encode_utf8(parts[index]).len(),
{
    assert(parts.take(index + 1) =~= parts.take(index).push(parts[index]));
    parts.take(index).lemma_flatten_push(parts[index]);
    lemma_encode_concat(parts.take(index).flatten(), parts[index]);
}

/// Later parts begin at later bytes, or at the same.
pub proof fn lemma_byte_start_grows(parts: Seq<Seq<char>>, low: int, high: int)
    requires
        0 <= low <= high <= parts.len(),
    ensures
        byte_start(parts, low) <= byte_start(parts, high),
    decreases high - low,
{
    if low < high {
        lemma_byte_start_grows(parts, low, high - 1);
        lemma_byte_start_step(parts, high - 1);
    }
}

/// The first cluster that begins at byte `offset`, if one does.
pub fn cluster_at_byte(clusters: &Vec<String>, offset: usize) -> (found: Option<usize>)
    ensures
        offset_of(found) == part_at_byte(clusters.deep_view(), offset as int),
        found is Some ==> found.unwrap() < clusters@.len(),
{
    let ghost parts = clusters.deep_view();
    let mut index: usize = 0;
    let mut passed: usize = 0;
    assert(parts.take(0).flatten() =~= Seq::<char>::empty());
    while index < clusters.len()
        invariant
            index <= clusters@.len(),
            parts == clusters.deep_view(),
            passed == byte_start(parts, index as int),
            passed <= offset,
            forall|other: int| 0 <= other < index ==> !starts_at_byte(parts, other, offset as int),
        decreases clusters@.len() - index,
    {
        if passed == offset {
            assert(starts_at_byte(parts, index as int, offset as int));
            return Some(index);
        }
        let size: usize = clusters[index].as_str().as_bytes().len();
        proof {
            assert(parts[index as int] == clusters@[index as int]@);
            lemma_byte_start_step(parts, index as int);
        }
        if size > offset - passed {
            proof {
                assert forall|other: int| !starts_at_byte(parts, other, offset as int) by {
                    if index < other < parts.len() {
                        lemma_byte_start_grows(parts, index + 1, other);
                    }
                }
            }
            return None;
        }
        passed += size;
        index += 1;
    }
    None
}

} // verus!
