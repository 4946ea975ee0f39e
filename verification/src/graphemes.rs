//! Splitting a source text into extended grapheme clusters.
//!
//! The scanner's cursor moves by user-perceived characters. Where those
//! begin and end is decided by the Unicode text segmentation rules, which
//! this crate does not restate: it calls `unicode_segmentation` and gives the
//! outcome a name.

use unicode_segmentation::UnicodeSegmentation;
use vstd::prelude::*;

verus! {

/// The extended grapheme clusters of `text`, in order, as
/// `unicode_segmentation` cuts them.
pub uninterp spec fn extended_grapheme_clusters(text: Seq<char>) -> Seq<Seq<char>>;

/// Every cluster holds at least one character.
pub open spec fn no_empty_cluster(clusters: Seq<Seq<char>>) -> bool {
    forall|i: int| 0 <= i < clusters.len() ==> (#[trigger] clusters[i]).len() > 0
}

/// Calls `UnicodeSegmentation::graphemes(source, true)` and collects what
/// the iterator yields, each cluster copied into a `String` of its own.
///
/// Not proved, taken from the outside crate's source: the clusters are the
/// ones named by [`extended_grapheme_clusters`]; the iterator hands out
/// consecutive slices `source[start..next]` that begin at offset zero and
/// stop at the end of the text, so joined together they give the text back;
/// and `next` lies at least one character past `start`, so no cluster is
/// empty.
#[verifier::external_body]
pub(crate) fn split_graphemes(source: &str) -> (clusters: Vec<String>)
    ensures
        clusters.deep_view() == extended_grapheme_clusters(source@),
        clusters.deep_view().flatten() == source@,
        no_empty_cluster(clusters.deep_view()),
{
    source.graphemes(true).map(String::from).collect()
}

/// The text that the clusters from `from` up to, not including, `to` spell
/// when joined.
pub open spec fn text_between(clusters: Seq<Seq<char>>, from: int, to: int) -> Seq<char> {
    clusters.subrange(from, to).flatten()
}

/// Joining one more cluster extends the joined text by that cluster.
pub proof fn lemma_text_between_extend(clusters: Seq<Seq<char>>, from: int, to: int)
    requires
        0 <= from <= to < clusters.len(),
    ensures
        text_between(clusters, from, to + 1) == text_between(clusters, from, to) + clusters[to],
{
    assert(clusters.subrange(from, to + 1) =~= clusters.subrange(from, to).push(clusters[to]));
    clusters.subrange(from, to).lemma_flatten_push(clusters[to]);
}

/// A text that is cut into non-empty clusters has at least as many
/// characters as clusters.
pub proof fn lemma_cluster_count_le_text_len(clusters: Seq<Seq<char>>)
    requires
        no_empty_cluster(clusters),
    ensures
        clusters.len() <= clusters.flatten().len(),
    decreases clusters.len(),
{
    if clusters.len() > 0 {
        lemma_cluster_count_le_text_len(clusters.drop_first());
    }
}

} // verus!
