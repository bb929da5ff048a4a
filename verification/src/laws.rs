//! What holds of the operations of a line taken together.

use vstd::prelude::*;
use vstd::utf8::encode_utf8;
use crate::row::{delete_spec, find_spec, insert_spec, search_window, split_head, split_tail, Row};
use crate::search::{occurs_at, SearchDirection};
use crate::segmentation::{cluster_start, grapheme_clusters, lemma_cluster_start};
use crate::text::lemma_encode_concat;

verus! {

/// In `text` with `c` put in before cluster `at`, the scalar value `c` is cluster `at`
/// by itself: it has joined no cluster beside it.
pub open spec fn stands_alone(text: Seq<char>, at: int, c: char) -> bool {
    let longer = insert_spec(text, at, c);
    &&& at < grapheme_clusters(longer).len()
    &&& cluster_start(longer, at) == cluster_start(text, at)
    &&& cluster_start(longer, at + 1) == cluster_start(text, at) + 1
}

/// Putting a scalar value in before cluster `at` and then taking cluster `at` out
/// gives the line back, text and clusters, whenever the scalar value has joined no
/// cluster beside it.
pub proof fn lemma_insert_then_delete(row: Row, at: int, c: char)
    requires
        row.wf(),
        0 <= at <= grapheme_clusters(row@).len(),
        stands_alone(row@, at, c),
    ensures
        delete_spec(insert_spec(row@, at, c), at) == row@,
        grapheme_clusters(delete_spec(insert_spec(row@, at, c), at)) == grapheme_clusters(row@),
{
    let text = row@;
    let place = cluster_start(text, at);
    let longer = insert_spec(text, at, c);
    lemma_cluster_start(text, at);
    assert(longer.take(place) + longer.skip(place + 1) =~= text);
}

/// A scalar value that is put in has joined no cluster where the clusters of the text
/// that results are those of the text before, with the scalar value between them.
pub proof fn lemma_stands_alone(row: Row, at: int, c: char)
    requires
        row.wf(),
        0 <= at <= grapheme_clusters(row@).len(),
        grapheme_clusters(insert_spec(row@, at, c)) == grapheme_clusters(row@).insert(at, seq![c]),
    ensures
        stands_alone(row@, at, c),
{
    let text = row@;
    let parts = grapheme_clusters(text);
    let longer = insert_spec(text, at, c);
    let more = grapheme_clusters(longer);
    lemma_cluster_start(text, at);
    assert(more.take(at) =~= parts.take(at));
    if at + 1 < more.len() {
        assert(more.take(at + 1) =~= parts.take(at).push(seq![c]));
        parts.take(at).lemma_flatten_push(seq![c]);
    }
}

/// `text` after the scalar values `scalars` were put in one by one: the first before
/// cluster `at`, the next before cluster `at + 1`, and so on.
pub open spec fn insert_run(text: Seq<char>, at: int, scalars: Seq<char>) -> Seq<char>
    decreases scalars.len(),
{
    if scalars.len() == 0 {
        text
    } else {
        insert_spec(
            insert_run(text, at, scalars.drop_last()),
            at + scalars.len() - 1,
            scalars.last(),
        )
    }
}

/// The number of clusters of `text` with the first `count` of `scalars` at its end.
pub open spec fn count_after(text: Seq<char>, scalars: Seq<char>, count: int) -> nat {
    grapheme_clusters(text + scalars.take(count)).len()
}

/// Put at the end of `text` one after the other, none of `scalars` makes more than
/// one cluster more: each joins the last cluster or makes a new one.
pub open spec fn grows_by_steps(text: Seq<char>, scalars: Seq<char>) -> bool {
    forall|count: int|
        0 <= count < scalars.len() ==> count_after(text, scalars, count + 1) <= #[trigger] count_after(
            text,
            scalars,
            count,
        ) + 1
}

/// Where no scalar value makes more than one cluster more, the first `count` of
/// `scalars` make at most `count` clusters more.
pub proof fn lemma_count_after(text: Seq<char>, scalars: Seq<char>, count: int)
    requires
        grows_by_steps(text, scalars),
        0 <= count <= scalars.len(),
    ensures
        count_after(text, scalars, count) <= grapheme_clusters(text).len() + count,
    decreases count,
{
    if count == 0 {
        assert(text + scalars.take(0) =~= text);
    } else {
        lemma_count_after(text, scalars, count - 1);
        assert(count_after(text, scalars, count - 1 + 1) <= count_after(text, scalars, count - 1)
            + 1);
    }
}

/// The scalar values of a cluster, put in one by one at the end of a line and each
/// at the place after the one before, all come to stand at the end of the line in their
/// order, whenever none of them makes more than one cluster more.
pub proof fn lemma_insert_run_appends(row: Row, scalars: Seq<char>)
    requires
        row.wf(),
        grows_by_steps(row@, scalars),
    ensures
        insert_run(row@, grapheme_clusters(row@).len() as int, scalars) == row@ + scalars,
    decreases scalars.len(),
{
    let text = row@;
    let at = grapheme_clusters(text).len() as int;
    if scalars.len() == 0 {
        assert(text + scalars =~= text);
    } else {
        let before = scalars.drop_last();
        let count = before.len() as int;
        assert forall|step: int| 0 <= step < before.len() implies count_after(
            text,
            before,
            step + 1,
        ) <= #[trigger] count_after(text, before, step) + 1 by {
            assert(before.take(step) =~= scalars.take(step));
            assert(before.take(step + 1) =~= scalars.take(step + 1));
            assert(count_after(text, scalars, step + 1) <= count_after(text, scalars, step) + 1);
        }
        lemma_insert_run_appends(row, before);
        lemma_count_after(text, scalars, count);
        assert(scalars.take(count) =~= before);
        let longer = text + before;
        assert(grapheme_clusters(longer).len() <= at + count);
        if at + count <= 0 {
            lemma_cluster_start(text, 0);
            assert(text.len() == 0) by {
                assert(grapheme_clusters(text).take(0) =~= grapheme_clusters(text));
            }
            assert(longer.len() == 0);
        }
        assert(cluster_start(longer, at + count) == longer.len());
        assert(insert_spec(longer, at + count, scalars.last()) =~= text + scalars);
    }
}

/// Cutting a line in two before any cluster and putting the second part back after
/// the first gives the text of the line back.
pub proof fn lemma_split_then_append(row: Row, at: int)
    requires
        row.wf(),
        0 <= at,
    ensures
        split_head(row@, at) + split_tail(row@, at) == row@,
{
    let text = row@;
    if at < grapheme_clusters(text).len() {
        lemma_cluster_start(text, at);
    }
    let place = cluster_start(text, at);
    assert(text.take(place) + text.skip(place) =~= text);
}

/// A search for a query whose bytes stand nowhere in the bytes of the line finds
/// nothing, from whatever place and in whichever direction it goes.
pub proof fn lemma_find_absent(row: Row, query: Seq<char>, at: int, direction: SearchDirection)
    requires
        row.wf(),
        0 <= at,
        forall|offset: int| !occurs_at(encode_utf8(row@), encode_utf8(query), offset),
    ensures
        find_spec(row@, query, at, direction) is None,
{
    let text = row@;
    if at <= grapheme_clusters(text).len() {
        lemma_cluster_start(text, at);
        let place = cluster_start(text, at);
        let window = search_window(text, at, direction);
        let needle = encode_utf8(query);
        assert(text =~= text.take(place) + text.skip(place));
        lemma_encode_concat(text.take(place), text.skip(place));
        let before = encode_utf8(text.take(place)).len() as int;
        assert forall|offset: int| !occurs_at(encode_utf8(window), needle, offset) by {
            if occurs_at(encode_utf8(window), needle, offset) {
                let shift = match direction {
                    SearchDirection::Forward => before,
                    SearchDirection::Backward => 0,
                };
                assert(encode_utf8(text).subrange(offset + shift, offset + shift + needle.len())
                    =~= encode_utf8(window).subrange(offset, offset + needle.len()));
                assert(occurs_at(encode_utf8(text), needle, offset + shift));
            }
        }
    }
}

} // verus!
