//! Building the catalog: scan order kept, ineligible shortcuts skipped,
//! duplicate display names dropped with the first occurrence winning.

use vstd::prelude::*;
use crate::entry::{AppEntry, RawEntry, eligible, entry_of};
use crate::text::str_eq;

verus! {

/// The catalog already holds an entry whose display name is `n`.
pub open spec fn contains_name(c: Seq<AppEntry>, n: Seq<char>) -> bool {
    exists|i: int| 0 <= i < c.len() && #[trigger] c[i].name@ == n
}

/// The catalog built from the shortcuts `rs`, in scan order: the entry of
/// each eligible shortcut, except those whose display name an earlier entry
/// already took.
pub open spec fn catalog_of(rs: Seq<RawEntry>) -> Seq<AppEntry>
    decreases rs.len(),
{
    if rs.len() == 0 {
        Seq::empty()
    } else {
        let pre = catalog_of(rs.drop_last());
        let r = rs.last();
        if eligible(r) && !contains_name(pre, entry_of(r).name@) {
            pre.push(entry_of(r))
        } else {
            pre
        }
    }
}

/// A well-formed catalog: every entry has a non-empty name and a non-empty
/// command, and no two entries share a name.
pub open spec fn catalog_wf(c: Seq<AppEntry>) -> bool {
    &&& forall|i: int| 0 <= i < c.len() ==> (#[trigger] c[i]).name@.len() > 0 && c[i].command@.len()
        > 0
    &&& forall|i: int, j: int|
        0 <= i < j < c.len() ==> (#[trigger] c[i]).name@ != (#[trigger] c[j]).name@
}

/// Whether some entry of `c` is already named `n`.
fn name_taken(c: &Vec<AppEntry>, n: &str) -> (r: bool)
    ensures
        r == contains_name(c@, n@),
{
    let len = c.len();
    let mut i: usize = 0;
    while i < len
        invariant
            len == c@.len(),
            0 <= i <= len,
            forall|k: int| 0 <= k < i ==> #[trigger] c@[k].name@ != n@,
        decreases len - i,
    {
        if str_eq(c[i].name.as_str(), n) {
            return true;
        }
        i += 1;
    }
    false
}

/// Build the catalog from the shortcut attributes `raws`, in the order the
/// directory scan found them.
pub fn build_catalog(raws: Vec<RawEntry>) -> (c: Vec<AppEntry>)
    ensures
        c@ == catalog_of(raws@),
        catalog_wf(c@),
{
    let ghost all = raws@;
    let mut c: Vec<AppEntry> = Vec::new();
    for r in it: raws.into_iter()
        invariant
            it.seq() == all,
            c@ == catalog_of(all.subrange(0, it.index() as int)),
    {
        proof {
            assert(all.subrange(0, it.index() + 1).drop_last() =~= all.subrange(0, it.index() as int));
            assert(all.subrange(0, it.index() + 1).last() == r);
        }
        match crate::entry::to_entry(r) {
            Some(e) => {
                if !name_taken(&c, e.name.as_str()) {
                    c.push(e);
                }
            },
            None => {},
        }
    }
    proof {
        assert(all.subrange(0, all.len() as int) =~= all);
        lemma_catalog_wf(all);
    }
    c
}

/// Every catalog is well formed: names and commands are non-empty, and at
/// most one entry carries any given display name.
pub proof fn lemma_catalog_wf(rs: Seq<RawEntry>)
    ensures
        catalog_wf(catalog_of(rs)),
    decreases rs.len(),
{
    if rs.len() > 0 {
        lemma_catalog_wf(rs.drop_last());
    }
}

/// Every catalog entry comes from an eligible shortcut: one with a name, a
/// launch command, and no hidden mark. Shortcuts missing those never appear.
pub proof fn lemma_catalog_from_eligible(rs: Seq<RawEntry>)
    ensures
        forall|k: int|
            0 <= k < catalog_of(rs).len() ==> exists|i: int|
                0 <= i < rs.len() && #[trigger] eligible(rs[i]) && #[trigger] catalog_of(rs)[k]
                    == entry_of(rs[i]),
    decreases rs.len(),
{
    if rs.len() > 0 {
        let pre = catalog_of(rs.drop_last());
        lemma_catalog_from_eligible(rs.drop_last());
        assert forall|k: int| 0 <= k < catalog_of(rs).len() implies exists|i: int|
            0 <= i < rs.len() && #[trigger] eligible(rs[i]) && #[trigger] catalog_of(rs)[k]
                == entry_of(rs[i]) by {
            if k < pre.len() {
                let i = choose|i: int|
                    0 <= i < rs.drop_last().len() && #[trigger] eligible(rs.drop_last()[i])
                        && pre[k] == entry_of(rs.drop_last()[i]);
                assert(rs.drop_last()[i] == rs[i]);
                assert(catalog_of(rs)[k] == pre[k]);
            } else {
                let last: int = rs.len() - 1;
                assert(eligible(rs[last]));
                assert(catalog_of(rs)[k] == entry_of(rs[last]));
            }
        }
    }
}

/// First occurrence wins: if shortcut `i` is eligible and no earlier eligible
/// shortcut carries its display name, then its entry — with its own launch
/// command — stands in the catalog.
pub proof fn lemma_first_name_wins(rs: Seq<RawEntry>, i: int)
    requires
        0 <= i < rs.len(),
        eligible(rs[i]),
        forall|k: int|
            0 <= k < i ==> !(#[trigger] eligible(rs[k]) && entry_of(rs[k]).name@ == entry_of(
                rs[i],
            ).name@),
    ensures
        catalog_of(rs).contains(entry_of(rs[i])),
    decreases rs.len(),
{
    let pre = catalog_of(rs.drop_last());
    if i == rs.len() - 1 {
        lemma_catalog_from_eligible(rs.drop_last());
        if contains_name(pre, entry_of(rs[i]).name@) {
            let k = choose|k: int| 0 <= k < pre.len() && #[trigger] pre[k].name@ == entry_of(
                rs[i],
            ).name@;
            let j = choose|j: int|
                0 <= j < rs.drop_last().len() && #[trigger] eligible(rs.drop_last()[j]) && pre[k]
                    == entry_of(rs.drop_last()[j]);
            assert(rs.drop_last()[j] == rs[j]);
            assert(false);
        }
        assert(catalog_of(rs).last() == entry_of(rs[i]));
    } else {
        lemma_first_name_wins(rs.drop_last(), i);
        assert(rs.drop_last()[i] == rs[i]);
        let k = choose|k: int| 0 <= k < pre.len() && pre[k] == entry_of(rs[i]);
        assert(catalog_of(rs)[k] == entry_of(rs[i]));
    }
}

/// Duplicates are dropped in favour of the first occurrence: when shortcut
/// `i` is the first eligible one with its display name, the one catalog
/// entry under that name is shortcut `i`'s — with its launch command — no
/// matter how many later shortcuts reuse the name.
pub proof fn lemma_name_resolves_to_first(rs: Seq<RawEntry>, i: int, k: int)
    requires
        0 <= i < rs.len(),
        eligible(rs[i]),
        forall|h: int|
            0 <= h < i ==> !(#[trigger] eligible(rs[h]) && entry_of(rs[h]).name@ == entry_of(
                rs[i],
            ).name@),
        0 <= k < catalog_of(rs).len(),
        catalog_of(rs)[k].name@ == entry_of(rs[i]).name@,
    ensures
        catalog_of(rs)[k] == entry_of(rs[i]),
{
    lemma_first_name_wins(rs, i);
    lemma_catalog_wf(rs);
    let c = catalog_of(rs);
    let k2 = choose|k2: int| 0 <= k2 < c.len() && c[k2] == entry_of(rs[i]);
    assert(c[k].name@ == c[k2].name@);
}

} // verus!
