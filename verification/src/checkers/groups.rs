//! Runs: neighbours in a list that share a key.

use vstd::prelude::*;
use itertools::Itertools;

verus! {

/// The runs of `entries`: each maximal stretch of neighbours with one key
/// becomes a group of their values, under that key.  The groups come in the
/// order of the entries, and so do the values in each.
pub open spec fn grouped<V>(entries: Seq<(Seq<char>, V)>) -> Seq<(Seq<char>, Seq<V>)>
    decreases entries.len(),
{
    if entries.len() == 0 {
        Seq::empty()
    } else {
        let rest = grouped(entries.drop_last());
        let key = entries.last().0;
        let value = entries.last().1;
        if rest.len() > 0 && rest.last().0 == key {
            rest.drop_last().push((key, rest.last().1.push(value)))
        } else {
            rest.push((key, seq![value]))
        }
    }
}

/// The entries with their keys as texts.
pub open spec fn entries_view<V>(entries: Seq<(String, V)>) -> Seq<(Seq<char>, V)> {
    entries.map_values(|e: (String, V)| (e.0@, e.1))
}

/// The groups with their keys as texts and their values as sequences.
pub open spec fn groups_view<V>(groups: Seq<(String, Vec<V>)>) -> Seq<(Seq<char>, Seq<V>)> {
    groups.map_values(|g: (String, Vec<V>)| (g.0@, g.1@))
}

/// `Itertools::group_by` with the first part of each entry for its key: the
/// runs of the entries, each with its key and the second parts of its
/// entries.
#[verifier::external_body]
pub(crate) fn group_runs<V: Copy>(entries: &Vec<(String, V)>) -> (groups: Vec<(String, Vec<V>)>)
    ensures
        groups_view(groups@) == grouped(entries_view(entries@)),
{
    entries.iter().group_by(|entry| entry.0.clone()).into_iter().map(
        |(key, run)| (key, run.map(|entry| entry.1).collect()),
    ).collect()
}

/// No run is empty.
pub proof fn lemma_groups_not_empty<V>(entries: Seq<(Seq<char>, V)>)
    ensures
        forall|k: int| 0 <= k < grouped(entries).len() ==> (#[trigger] grouped(entries)[k]).1.len() > 0,
    decreases entries.len(),
{
    if entries.len() > 0 {
        lemma_groups_not_empty(entries.drop_last());
        let rest = grouped(entries.drop_last());
        let all = grouped(entries);
        assert forall|k: int| 0 <= k < all.len() implies (#[trigger] all[k]).1.len() > 0 by {
            if k < all.len() - 1 {
                if rest.len() > 0 && rest.last().0 == entries.last().0 {
                    assert(all[k] == rest.drop_last()[k]);
                    assert(rest.drop_last()[k] == rest[k]);
                } else {
                    assert(all[k] == rest[k]);
                }
            }
        }
    }
}

} // verus!
