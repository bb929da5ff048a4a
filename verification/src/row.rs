//! One line of text, addressed by grapheme cluster.

use vstd::prelude::*;
use vstd::seq_lib::lemma_flatten_concat;
use vstd::string::StringExecFns;
use vstd::utf8::encode_utf8;
use crate::highlighting::Type;
use crate::search::{
    find_first, find_last, first_occurrence, last_occurrence, offset_of, SearchDirection,
};
use crate::segmentation::{
    append_clusters, cluster_at_byte, cluster_start, grapheme_clusters, graphemes,
    lemma_cluster_start, lemma_count_le_len, part_at_byte, segmented, tiles,
};
use crate::style::{foreground, foreground_mark, foreground_reset, reset_mark};
use crate::text::lemma_encode_len;

verus! {

/// The part of `text` that a search from cluster `at` goes through: forwards, the
/// clusters from `at` on; backwards, the clusters before `at`.
pub open spec fn search_window(text: Seq<char>, at: int, direction: SearchDirection) -> Seq<char> {
    match direction {
        SearchDirection::Forward => text.skip(cluster_start(text, at)),
        SearchDirection::Backward => text.take(cluster_start(text, at)),
    }
}

/// The cluster of `text` at which a search for `query` from cluster `at` ends.
///
/// No search is made from a place past the end of the line. Otherwise the bytes of
/// `query` are looked for in the bytes of the window: forwards their first occurrence
/// counts, backwards their last. That occurrence gives a cluster only where a cluster
/// of the window begins at its first byte, and the cluster is counted from the start of
/// the line.
pub open spec fn find_spec(
    text: Seq<char>,
    query: Seq<char>,
    at: int,
    direction: SearchDirection,
) -> Option<int> {
    if at > grapheme_clusters(text).len() {
        None
    } else {
        let window = search_window(text, at, direction);
        let hit = match direction {
            SearchDirection::Forward => first_occurrence(encode_utf8(window), encode_utf8(query)),
            SearchDirection::Backward => last_occurrence(encode_utf8(window), encode_utf8(query)),
        };
        let before = match direction {
            SearchDirection::Forward => at,
            SearchDirection::Backward => 0,
        };
        match hit {
            None => None,
            Some(offset) => match part_at_byte(grapheme_clusters(window), offset) {
                None => None,
                Some(index) => Some(before + index),
            },
        }
    }
}

/// The scalar value that stands for `c` on the screen: a space for a tab, so that every
/// cluster takes one column, and `c` itself otherwise.
pub open spec fn shown(c: char) -> char {
    if c == '\t' {
        ' '
    } else {
        c
    }
}

/// The class on record for cluster `index`: the entry of `tags` at `index`, and no
/// class where `tags` has no such entry.
pub open spec fn tag_at(tags: Seq<Type>, index: int) -> Type {
    if 0 <= index < tags.len() {
        tags[index]
    } else {
        Type::Plain
    }
}

/// The scalar values that stand for those of `text` on the screen, one for one.
pub open spec fn shown_text(text: Seq<char>) -> Seq<char> {
    text.map_values(|c: char| shown(c))
}

/// What is shown for one cluster of class `tag`: the mark of the class's colour, the
/// scalar values of the cluster as they are shown, and the mark that resets the
/// colour.
pub open spec fn render_cluster(cluster: Seq<char>, tag: Type) -> Seq<char> {
    if cluster.len() == 0 {
        Seq::empty()
    } else {
        foreground_mark(tag.color()) + shown_text(cluster) + reset_mark()
    }
}

/// What is shown for the clusters from `from` up to `to`, one after the other.
pub open spec fn render_range(clusters: Seq<Seq<char>>, tags: Seq<Type>, from: int, to: int) -> Seq<
    char,
>
    decreases to - from,
{
    if from >= to {
        Seq::empty()
    } else {
        render_range(clusters, tags, from, to - 1) + render_cluster(
            clusters[to - 1],
            tag_at(tags, to - 1),
        )
    }
}

/// What is shown for the clusters of `text` from `start` up to `end`, where `end` is
/// first brought down to the number of clusters, and `start` then down to `end`.
pub open spec fn render_spec(text: Seq<char>, tags: Seq<Type>, start: int, end: int) -> Seq<char> {
    let clusters = grapheme_clusters(text);
    let end = if end < clusters.len() {
        end
    } else {
        clusters.len() as int
    };
    let start = if start < end {
        start
    } else {
        end
    };
    render_range(clusters, tags, start, end)
}

/// `text` with `c` put in before cluster `at`, or at the end where the text has no
/// cluster `at`.
pub open spec fn insert_spec(text: Seq<char>, at: int, c: char) -> Seq<char> {
    text.insert(cluster_start(text, at), c)
}

/// `text` without cluster `at`; `text` itself where it has no cluster `at`.
pub open spec fn delete_spec(text: Seq<char>, at: int) -> Seq<char> {
    if at >= grapheme_clusters(text).len() {
        text
    } else {
        text.take(cluster_start(text, at)) + text.skip(cluster_start(text, at + 1))
    }
}

/// The clusters of `text` before cluster `at`.
pub open spec fn split_head(text: Seq<char>, at: int) -> Seq<char> {
    text.take(cluster_start(text, at))
}

/// The clusters of `text` from cluster `at` on.
pub open spec fn split_tail(text: Seq<char>, at: int) -> Seq<char> {
    text.skip(cluster_start(text, at))
}

/// The class of each scalar value of `text`, taken by itself.
pub open spec fn highlight_spec(text: Seq<char>) -> Seq<Type> {
    text.map_values(|c: char| Type::of(c))
}

/// A cluster of a part of a line, counted from the start of the line, is a place in
/// the line: the line has a byte for it.
proof fn lemma_index_fits(text: Seq<char>, start: int, end: int, inner: Seq<Seq<char>>, index: int)
    requires
        segmented(text),
        0 <= start <= end <= grapheme_clusters(text).len(),
        tiles(inner, grapheme_clusters(text).subrange(start, end).flatten()),
        0 <= index < inner.len(),
    ensures
        start + index < encode_utf8(text).len(),
{
    let parts = grapheme_clusters(text);
    let head = parts.take(start);
    let window = parts.subrange(start, end);
    assert(parts.take(end) =~= head + window);
    lemma_flatten_concat(head, window);
    lemma_count_le_len(inner);
    lemma_count_le_len(head);
    lemma_cluster_start(text, end);
    lemma_encode_len(text);
}

/// Appends to `out` the scalar values of `cluster` as they are shown.
pub fn append_shown(out: &mut String, cluster: &str)
    ensures
        final(out)@ == old(out)@ + shown_text(cluster@),
{
    let ghost text = cluster@;
    assert(out@ =~= old(out)@ + shown_text(text.take(0)));
    for c in it: cluster.chars()
        invariant
            it.seq() == text,
            out@ == old(out)@ + shown_text(text.take(it.index())),
    {
        if c == '\t' {
            out.push(' ');
        } else {
            out.push(c);
        }
        assert(out@ =~= old(out)@ + shown_text(text.take(it.index() + 1)));
    }
    assert(text.take(text.len() as int) =~= text);
}

/// The clusters from `start` up to `end`, as a terminal is to show them: each in the
/// colour of the class that `tags` holds for its place, and in no colour of a class
/// where `tags` holds none.
pub fn render_clusters(clusters: &Vec<String>, tags: &Vec<Type>, start: usize, end: usize) -> (result:
    String)
    requires
        start <= end <= clusters@.len(),
    ensures
        result@ == render_range(clusters.deep_view(), tags@, start as int, end as int),
{
    let ghost parts = clusters.deep_view();
    let mut result = String::new();
    let mut index: usize = start;
    while index < end
        invariant
            start <= index <= end <= clusters@.len(),
            parts == clusters.deep_view(),
            result@ == render_range(parts, tags@, start as int, index as int),
        decreases end - index,
    {
        let grapheme = clusters[index].as_str();
        let ghost before = result@;
        assert(parts[index as int] == grapheme@);
        if !grapheme.is_empty() {
            let highlighting_type = if index < tags.len() {
                tags[index]
            } else {
                Type::Plain
            };
            let start_highlight = foreground(highlighting_type.to_color());
            result.append(start_highlight.as_str());
            append_shown(&mut result, grapheme);
            let end_highlight = foreground_reset();
            result.append(end_highlight.as_str());
        }
        index += 1;
        assert(result@ =~= before + render_cluster(parts[index - 1], tag_at(tags@, index - 1)));
    }
    result
}

/// One line of text.
///
/// The text is kept as a string, together with the number of its grapheme clusters
/// and, after a call of `highlight`, the class of each of its scalar values.
pub struct Row {
    string: String,
    len: usize,
    highlighting: Vec<Type>,
}

impl View for Row {
    type V = Seq<char>;

    /// The text of the line.
    closed spec fn view(&self) -> Seq<char> {
        self.string@
    }
}

impl Row {
    /// The number of clusters that the line has on record.
    pub closed spec fn len_spec(&self) -> nat {
        self.len as nat
    }

    /// The classes that the last highlighting gave to the scalar values of the line;
    /// empty as long as the line has not been highlighted.
    pub closed spec fn tags(&self) -> Seq<Type> {
        self.highlighting@
    }

    /// The line is well formed: the number on record is the number of the text's
    /// clusters, and those clusters tile the text.
    pub open spec fn wf(&self) -> bool {
        &&& self.len_spec() == grapheme_clusters(self@).len()
        &&& segmented(self@)
    }

    /// The number of grapheme clusters of the line.
    pub fn len(&self) -> (count: usize)
        requires
            self.wf(),
        ensures
            count == grapheme_clusters(self@).len(),
            count == self.len_spec(),
    {
        self.len
    }

    /// The clusters of the line from `start` up to `end`, as a terminal is to show them:
    /// each in the colour of the class on record for its place.
    pub fn render(&self, start: usize, end: usize) -> (result: String)
        ensures
            result@ == render_spec(self@, self.tags(), start as int, end as int),
    {
        let clusters = graphemes(self.string.as_str());
        let end = if end < clusters.len() {
            end
        } else {
            clusters.len()
        };
        let start = if start < end {
            start
        } else {
            end
        };
        render_clusters(&clusters, &self.highlighting, start, end)
    }

    /// Puts the scalar value `c` in before cluster `at`, or at the end of the line
    /// where `at` is not less than the number of clusters.
    ///
    /// The clusters are counted anew on the text that results: `c` may join a cluster
    /// beside it. Where it makes a cluster of its own and leaves the others as they
    /// were, the line has one cluster more. The classes on record stay as they are.
    pub fn insert(&mut self, at: usize, c: char)
        requires
            old(self).wf(),
        ensures
            final(self).wf(),
            final(self)@ == insert_spec(old(self)@, at as int, c),
            at >= old(self).len_spec() ==> final(self)@ == old(self)@.push(c),
            final(self).tags() == old(self).tags(),
            grapheme_clusters(final(self)@).len() == grapheme_clusters(old(self)@).len() + 1
                ==> final(self).len_spec() == old(self).len_spec() + 1,
    {
        let ghost text = self.string@;
        if at >= self.len {
            self.string.push(c);
            proof {
                lemma_cluster_start(text, grapheme_clusters(text).len() as int);
                assert(self.string@ =~= insert_spec(text, at as int, c));
                assert(self.string@ == text.push(c));
            }
        } else {
            let clusters = graphemes(self.string.as_str());
            let mut result = String::new();
            append_clusters(&mut result, &clusters, 0, at);
            result.push(c);
            append_clusters(&mut result, &clusters, at, clusters.len());
            proof {
                let parts = grapheme_clusters(text);
                lemma_cluster_start(text, at as int);
                assert(parts.subrange(0, at as int) =~= parts.take(at as int));
                assert(parts.subrange(at as int, parts.len() as int) =~= parts.skip(at as int));
                assert(result@ =~= insert_spec(text, at as int, c));
            }
            self.string = result;
        }
        self.len = graphemes(self.string.as_str()).len();
    }

    /// Takes cluster `at` out of the line. Where the line has no cluster `at`, nothing
    /// changes.
    ///
    /// The clusters are counted anew on the text that results. The classes on record
    /// stay as they are.
    pub fn delete(&mut self, at: usize)
        requires
            old(self).wf(),
        ensures
            final(self).wf(),
            final(self)@ == delete_spec(old(self)@, at as int),
            final(self).tags() == old(self).tags(),
            at >= old(self).len_spec() ==> final(self).len_spec() == old(self).len_spec(),
            grapheme_clusters(final(self)@).len() + 1 == grapheme_clusters(old(self)@).len()
                ==> final(self).len_spec() + 1 == old(self).len_spec(),
    {
        if at >= self.len {
            return ;
        }
        let ghost text = self.string@;
        let clusters = graphemes(self.string.as_str());
        let mut result = String::new();
        append_clusters(&mut result, &clusters, 0, at);
        append_clusters(&mut result, &clusters, at + 1, clusters.len());
        proof {
            let parts = grapheme_clusters(text);
            lemma_cluster_start(text, at as int);
            lemma_cluster_start(text, at + 1);
            assert(parts.subrange(0, at as int) =~= parts.take(at as int));
            assert(parts.subrange(at + 1, parts.len() as int) =~= parts.skip(at + 1));
            assert(result@ =~= delete_spec(text, at as int));
        }
        self.string = result;
        self.len = graphemes(self.string.as_str()).len();
    }

    /// Puts the text of `new` after the text of the line. `new` stays as it is.
    ///
    /// The clusters are counted anew on the text that results: the first scalar values
    /// of `new` may join the last cluster of the line. Where the clusters of the two
    /// texts stay as they were, the line has as many clusters as both had together. The
    /// classes on record stay as they are.
    pub fn append(&mut self, new: &Self)
        requires
            old(self).wf(),
            new.wf(),
        ensures
            final(self).wf(),
            final(self)@ == old(self)@ + new@,
            final(self).tags() == old(self).tags(),
            grapheme_clusters(final(self)@).len() == grapheme_clusters(old(self)@).len()
                + grapheme_clusters(new@).len() ==> final(self).len_spec() == old(self).len_spec()
                + new.len_spec(),
    {
        self.string.append(new.string.as_str());
        self.len = graphemes(self.string.as_str()).len();
    }

    /// Cuts the line in two before cluster `at`: the line keeps the clusters before
    /// `at`, and the clusters from `at` on make up the line that is returned. Where
    /// `at` is not less than the number of clusters, the line keeps all of its text
    /// and the line returned is empty.
    ///
    /// The clusters of both lines are counted anew, and neither of them keeps classes
    /// on record.
    pub fn split(&mut self, at: usize) -> (tail: Row)
        requires
            old(self).wf(),
        ensures
            final(self).wf(),
            tail.wf(),
            final(self)@ == split_head(old(self)@, at as int),
            tail@ == split_tail(old(self)@, at as int),
            final(self).tags() == Seq::<Type>::empty(),
            tail.tags() == Seq::<Type>::empty(),
    {
        let ghost text = self.string@;
        let clusters = graphemes(self.string.as_str());
        let cut: usize = if at < clusters.len() {
            at
        } else {
            clusters.len()
        };
        let mut row = String::new();
        append_clusters(&mut row, &clusters, 0, cut);
        let mut split_row = String::new();
        append_clusters(&mut split_row, &clusters, cut, clusters.len());
        proof {
            let parts = grapheme_clusters(text);
            lemma_cluster_start(text, cut as int);
            assert(cluster_start(text, cut as int) == cluster_start(text, at as int));
            assert(parts.subrange(0, cut as int) =~= parts.take(cut as int));
            assert(parts.subrange(cut as int, parts.len() as int) =~= parts.skip(cut as int));
            assert(row@ =~= split_head(text, at as int));
            assert(split_row@ =~= split_tail(text, at as int));
        }
        let length = graphemes(row.as_str()).len();
        let split_length = graphemes(split_row.as_str()).len();
        self.string = row;
        self.len = length;
        self.highlighting = Vec::new();
        Row { string: split_row, len: split_length, highlighting: Vec::new() }
    }

    /// Puts on record the class of each scalar value of the line, in place of what
    /// was on record before. The text stays as it is.
    pub fn highlight(&mut self)
        ensures
            final(self)@ == old(self)@,
            final(self).len_spec() == old(self).len_spec(),
            old(self).wf() ==> final(self).wf(),
            final(self).tags() == highlight_spec(old(self)@),
    {
        let ghost text = self.string@;
        let mut highlighting: Vec<Type> = Vec::new();
        for c in it: self.string.as_str().chars()
            invariant
                it.seq() == text,
                highlighting@ == highlight_spec(text.take(it.index())),
        {
            highlighting.push(Type::classify(c));
            assert(highlighting@ =~= highlight_spec(text.take(it.index() + 1)));
        }
        assert(text.take(text.len() as int) =~= text);
        self.highlighting = highlighting;
    }

    /// Looks for `query` in the line, from cluster `at`, and gives the cluster at which
    /// it was found.
    pub fn find(&self, query: &str, at: usize, direction: SearchDirection) -> (found: Option<usize>)
        requires
            self.wf(),
        ensures
            offset_of(found) == find_spec(self@, query@, at as int, direction),
    {
        if at > self.len {
            return None;
        }
        let (start, end) = match direction {
            SearchDirection::Forward => (at, self.len),
            SearchDirection::Backward => (0, at),
        };
        let clusters = graphemes(self.string.as_str());
        let mut substring = String::new();
        append_clusters(&mut substring, &clusters, start, end);
        proof {
            let parts = grapheme_clusters(self@);
            lemma_cluster_start(self@, at as int);
            assert(parts.subrange(at as int, parts.len() as int) =~= parts.skip(at as int));
            assert(parts.subrange(0, at as int) =~= parts.take(at as int));
            assert(substring@ =~= search_window(self@, at as int, direction));
        }
        let hit = match direction {
            SearchDirection::Forward => find_first(substring.as_str().as_bytes(), query.as_bytes()),
            SearchDirection::Backward => find_last(substring.as_str().as_bytes(), query.as_bytes()),
        };
        match hit {
            None => None,
            Some(offset) => {
                let inner = graphemes(substring.as_str());
                match cluster_at_byte(&inner, offset) {
                    None => None,
                    Some(index) => {
                        // The line has a byte for each of its clusters, and the number
                        // of its bytes fits the machine: so does the sum.
                        let bytes: usize = self.string.as_str().as_bytes().len();
                        proof {
                            lemma_index_fits(
                                self@,
                                start as int,
                                end as int,
                                inner.deep_view(),
                                index as int,
                            );
                        }
                        Some(start + index)
                    },
                }
            },
        }
    }

    /// Whether the line has no text at all: not one scalar value, which is to say not
    /// one byte.
    pub fn is_empty(&self) -> (empty: bool)
        ensures
            empty == (self@.len() == 0),
            empty == (encode_utf8(self@).len() == 0),
    {
        proof {
            lemma_encode_len(self@);
        }
        self.string.as_str().is_empty()
    }

    /// The text of the line as bytes, in UTF-8.
    pub fn as_bytes(&self) -> (bytes: &[u8])
        ensures
            bytes@ == encode_utf8(self@),
    {
        self.string.as_str().as_bytes()
    }
}

impl From<&str> for Row {
    /// A line with the text `value`, not highlighted.
    fn from(value: &str) -> (row: Row)
        ensures
            row@ == value@,
            row.wf(),
            row.tags() == Seq::<Type>::empty(),
    {
        let clusters = graphemes(value);
        Row { string: value.to_owned(), len: clusters.len(), highlighting: Vec::new() }
    }
}

/// What `from` gives is said on `from` itself: a specification cannot build the string
/// that a line holds.
impl vstd::std_specs::convert::FromSpecImpl<&str> for Row {
    open spec fn obeys_from_spec() -> bool {
        false
    }

    open spec fn from_spec(value: &str) -> Row {
        arbitrary()
    }
}

impl Default for Row {
    /// The empty line.
    fn default() -> (row: Row)
        ensures
            row@ == Seq::<char>::empty(),
            row.wf(),
            row.tags() == Seq::<Type>::empty(),
    {
        proof {
            reveal_strlit("");
        }
        let row = Row::from("");
        assert(row@ =~= Seq::<char>::empty());
        row
    }
}

} // verus!
