//! The filter: which entries a typed query leaves visible.
//!
//! An entry is visible when its label, in lowercase, contains the query, in
//! lowercase. The empty query hides nothing. The visible entries keep the
//! order of the menu and are known by their position in it.

use crate::item::{labels_of, positions, Item};
use crate::selection::{checked_indices, lemma_checked_indices};
use crate::text::{contains, contains_seq, lowercase, lowercase_of};
use vstd::prelude::*;

verus! {

/// Whether a label passes the query: the query is empty, or the lowercase
/// label contains the lowercase query.
pub open spec fn matches_query(label: Seq<char>, query: Seq<char>) -> bool {
    query.len() == 0 || contains_seq(lowercase_of(label), lowercase_of(query))
}

/// For each label, whether it passes the query.
pub open spec fn match_flags(labels: Seq<Seq<char>>, query: Seq<char>) -> Seq<bool> {
    Seq::new(labels.len(), |i: int| matches_query(labels[i], query))
}

/// The positions of the labels that pass the query, in ascending order.
pub open spec fn matching_indices(labels: Seq<Seq<char>>, query: Seq<char>) -> Seq<int> {
    checked_indices(match_flags(labels, query))
}

/// The visible rows as pairs of menu position and label.
pub open spec fn filtered_view(labels: Seq<Seq<char>>, query: Seq<char>) -> Seq<(int, Seq<char>)> {
    let found = matching_indices(labels, query);
    Seq::new(found.len(), |k: int| (found[k], labels[found[k]]))
}

/// What [`matching_indices`] holds: positions of the menu, strictly
/// ascending, and among them exactly those whose label passes the query.
pub proof fn lemma_matching_indices(labels: Seq<Seq<char>>, query: Seq<char>)
    ensures
        matching_indices(labels, query).len() <= labels.len(),
        forall|k: int|
            0 <= k < matching_indices(labels, query).len() ==> 0 <= #[trigger] matching_indices(
                labels,
                query,
            )[k] < labels.len(),
        forall|j: int, k: int|
            0 <= j < k < matching_indices(labels, query).len() ==> matching_indices(
                labels,
                query,
            )[j] < matching_indices(labels, query)[k],
        forall|i: int|
            0 <= i < labels.len() ==> (matching_indices(labels, query).contains(i)
                <==> matches_query(#[trigger] labels[i], query)),
{
    let flags = match_flags(labels, query);
    lemma_checked_indices(flags);
    assert forall|i: int| 0 <= i < labels.len() implies (matching_indices(labels, query).contains(
        i,
    ) <==> matches_query(#[trigger] labels[i], query)) by {
        assert(flags[i] == matches_query(labels[i], query));
    }
}

/// The empty query shows the whole menu, in its own order.
pub proof fn lemma_empty_query_shows_all(labels: Seq<Seq<char>>)
    ensures
        matching_indices(labels, Seq::empty()) == Seq::new(labels.len(), |i: int| i),
    decreases labels.len(),
{
    if labels.len() > 0 {
        lemma_empty_query_shows_all(labels.drop_last());
        assert(match_flags(labels, Seq::empty()).drop_last() =~= match_flags(
            labels.drop_last(),
            Seq::empty(),
        ));
    }
    assert(matching_indices(labels, Seq::empty()) =~= Seq::new(labels.len(), |i: int| i));
}

/// Whether the label passes the query, see [`matches_query`].
pub fn label_matches(label: &str, query: &str) -> (b: bool)
    ensures
        b == matches_query(label@, query@),
{
    if query.is_empty() {
        true
    } else {
        let low_label = lowercase(label);
        let low_query = lowercase(query);
        contains(low_label.as_str(), low_query.as_str())
    }
}

/// The positions of the entries whose label passes the query, ascending.
pub fn matching(items: &Vec<Item>, query: &str) -> (found: Vec<usize>)
    ensures
        positions(found@) == matching_indices(labels_of(items@), query@),
{
    let mut found: Vec<usize> = Vec::new();
    let ghost labels = labels_of(items@);
    let mut i: usize = 0;
    while i < items.len()
        invariant
            i <= items.len(),
            labels == labels_of(items@),
            positions(found@) == matching_indices(labels.take(i as int), query@),
        decreases items.len() - i,
    {
        let hit = label_matches(items[i].label.as_str(), query);
        proof {
            assert(match_flags(labels.take(i + 1), query@).drop_last() =~= match_flags(
                labels.take(i as int),
                query@,
            ));
            assert(labels.take(i + 1)[i as int] == items@[i as int].label@);
        }
        let ghost old_found = found@;
        if hit {
            found.push(i);
            assert(positions(found@) =~= positions(old_found).push(i as int));
        }
        i += 1;
    }
    assert(labels.take(items.len() as int) =~= labels);
    found
}

/// The filter itself: the visible entries as pairs of menu position and
/// label, in the order of the menu.
pub fn filter(items: &Vec<Item>, query: &str) -> (rows: Vec<(usize, String)>)
    ensures
        rows.len() == filtered_view(labels_of(items@), query@).len(),
        forall|k: int|
            0 <= k < rows.len() ==> (#[trigger] rows[k]).0 == filtered_view(
                labels_of(items@),
                query@,
            )[k].0 && rows[k].1@ == filtered_view(labels_of(items@), query@)[k].1,
{
    let found = matching(items, query);
    let ghost labels = labels_of(items@);
    proof {
        lemma_matching_indices(labels, query@);
    }
    let mut rows: Vec<(usize, String)> = Vec::new();
    let mut k: usize = 0;
    while k < found.len()
        invariant
            k <= found.len(),
            rows.len() == k,
            labels == labels_of(items@),
            positions(found@) == matching_indices(labels, query@),
            forall|j: int|
                0 <= j < found.len() ==> 0 <= #[trigger] matching_indices(labels, query@)[j]
                    < labels.len(),
            forall|j: int|
                0 <= j < k ==> (#[trigger] rows[j]).0 == found[j] && rows[j].1@
                    == labels[found[j] as int],
        decreases found.len() - k,
    {
        let at: usize = found[k];
        assert(positions(found@)[k as int] == at);
        let label = items[at].label.clone();
        rows.push((at, label));
        k += 1;
    }
    assert forall|j: int| 0 <= j < rows.len() implies (#[trigger] rows[j]).0 == filtered_view(
        labels,
        query@,
    )[j].0 && rows[j].1@ == filtered_view(labels, query@)[j].1 by {
        assert(positions(found@)[j] == found[j]);
    }
    rows
}

} // verus!
