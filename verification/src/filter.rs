//! The filter engine: from the catalog and the current search text to the
//! ordered positions of the matching entries.
//!
//! Filtering is pure and never reorders: the result is a subsequence of the
//! catalog. Empty search text keeps every entry.

use vstd::prelude::*;
use crate::entry::AppEntry;
use crate::text::{ci_contains, contains_ci};

verus! {

/// The entries a filter view names, in view order.
pub open spec fn shown_entries(c: Seq<AppEntry>, v: Seq<int>) -> Seq<AppEntry> {
    v.map_values(|i: int| c[i])
}

/// Whether one entry matches the search text `q`: empty text matches
/// everything; otherwise `q` must occur, up to ASCII case, in the entry's
/// name or in its description when one is present.
pub open spec fn entry_matches(e: AppEntry, q: Seq<char>) -> bool {
    ||| q.len() == 0
    ||| ci_contains(e.name@, q)
    ||| (e.description is Some && ci_contains(e.description->0@, q))
}

/// The positions in `c` of the entries matching `q`, in catalog order.
pub open spec fn filter_view(c: Seq<AppEntry>, q: Seq<char>) -> Seq<int>
    decreases c.len(),
{
    if c.len() == 0 {
        Seq::empty()
    } else if entry_matches(c.last(), q) {
        filter_view(c.drop_last(), q).push(c.len() - 1)
    } else {
        filter_view(c.drop_last(), q)
    }
}

/// Whether the entry matches the search text `query`.
pub fn matches_entry(e: &AppEntry, query: &Vec<char>) -> (r: bool)
    ensures
        r == entry_matches(*e, query@),
{
    if query.len() == 0 {
        return true;
    }
    if contains_ci(e.name.as_str(), query) {
        return true;
    }
    match &e.description {
        Some(d) => contains_ci(d.as_str(), query),
        None => false,
    }
}

/// Compute the filter view: the positions in `catalog` of the entries whose
/// name or description contains `query`, case-insensitively, in unchanged
/// order.
pub fn filter(catalog: &Vec<AppEntry>, query: &Vec<char>) -> (v: Vec<usize>)
    ensures
        v@.map_values(|u: usize| u as int) == filter_view(catalog@, query@),
{
    let len = catalog.len();
    let mut v: Vec<usize> = Vec::new();
    let mut i: usize = 0;
    while i < len
        invariant
            len == catalog@.len(),
            0 <= i <= len,
            v@.map_values(|u: usize| u as int) == filter_view(
                catalog@.subrange(0, i as int),
                query@,
            ),
        decreases len - i,
    {
        proof {
            assert(catalog@.subrange(0, i + 1).drop_last() =~= catalog@.subrange(0, i as int));
            assert(catalog@.subrange(0, i + 1).last() == catalog@[i as int]);
        }
        if matches_entry(&catalog[i], query) {
            v.push(i);
            proof {
                assert(v@.map_values(|u: usize| u as int) =~= v@.drop_last().map_values(
                    |u: usize| u as int,
                ).push(i as int));
            }
        }
        i += 1;
    }
    proof {
        assert(catalog@.subrange(0, len as int) =~= catalog@);
    }
    v
}

/// The filter view is a subsequence of the catalog, in the original order:
/// its positions are in bounds, strictly increasing, and each names a
/// matching entry.
pub proof fn lemma_filter_view_is_subsequence(c: Seq<AppEntry>, q: Seq<char>)
    ensures
        forall|k: int| 0 <= k < filter_view(c, q).len() ==> 0 <= #[trigger] filter_view(c, q)[k]
            < c.len(),
        forall|k1: int, k2: int|
            0 <= k1 < k2 < filter_view(c, q).len() ==> filter_view(c, q)[k1] < filter_view(
                c,
                q,
            )[k2],
        forall|k: int|
            0 <= k < filter_view(c, q).len() ==> entry_matches(
                c[#[trigger] filter_view(c, q)[k]],
                q,
            ),
    decreases c.len(),
{
    if c.len() > 0 {
        lemma_filter_view_is_subsequence(c.drop_last(), q);
        assert(forall|k: int|
            0 <= k < filter_view(c.drop_last(), q).len() ==> c.drop_last()[#[trigger] filter_view(
                c.drop_last(),
                q,
            )[k]] == c[filter_view(c.drop_last(), q)[k]]);
    }
}

/// Empty search text filters nothing: the view lists every position of the
/// catalog in order, so the shown entries are the catalog itself.
pub proof fn lemma_filter_view_empty_query(c: Seq<AppEntry>, q: Seq<char>)
    requires
        q.len() == 0,
    ensures
        filter_view(c, q) == Seq::new(c.len(), |i: int| i),
        shown_entries(c, filter_view(c, q)) == c,
    decreases c.len(),
{
    if c.len() == 0 {
        assert(filter_view(c, q) =~= Seq::new(c.len(), |i: int| i));
    } else {
        lemma_filter_view_empty_query(c.drop_last(), q);
        assert(filter_view(c, q) =~= Seq::new(c.len(), |i: int| i));
    }
    assert(shown_entries(c, filter_view(c, q)) =~= c);
}

/// Filtering is complete: the position of every matching entry stands in the
/// filter view.
pub proof fn lemma_filter_view_complete(c: Seq<AppEntry>, q: Seq<char>, j: int)
    requires
        0 <= j < c.len(),
        entry_matches(c[j], q),
    ensures
        filter_view(c, q).contains(j),
    decreases c.len(),
{
    if j == c.len() - 1 {
        assert(filter_view(c, q).last() == j);
    } else {
        lemma_filter_view_complete(c.drop_last(), q, j);
        let k = choose|k: int|
            0 <= k < filter_view(c.drop_last(), q).len() && filter_view(c.drop_last(), q)[k] == j;
        assert(filter_view(c, q)[k] == j);
    }
}

} // verus!
