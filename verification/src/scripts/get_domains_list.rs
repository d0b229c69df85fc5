//! The lineages certbot holds: the directories of `/etc/letsencrypt/live`.
use vstd::prelude::*;

use crate::text::{copy_str, sort_strings, sorted_strs, strs};

verus! {

/// An entry of the live directory: its name and whether it is a directory.
pub struct LiveDirEntry {
    pub name: String,
    pub is_dir: bool,
}

/// The listing of the live directory.
pub enum LiveListing {
    /// The entries (those whose names are valid UTF-8).
    Entries(Vec<LiveDirEntry>),
    /// The directory does not exist: no certificate was ever issued.
    NotFound,
    /// The directory could not be opened; the error's text.
    Failed(String),
    /// Reading an entry failed part-way; the error's text.
    EntryFailed(String),
}

/// The model of a [`LiveDirEntry`].
pub open spec fn live_entry_view(e: LiveDirEntry) -> (Seq<char>, bool) {
    (e.name@, e.is_dir)
}

/// The lineage names among `es`: the directories, except one named
/// `README`, in order.
pub open spec fn lineage_names(es: Seq<(Seq<char>, bool)>) -> Seq<Seq<char>>
    decreases es.len(),
{
    if es.len() == 0 {
        seq![]
    } else {
        let r = lineage_names(es.drop_last());
        if es.last().1 && es.last().0 != "README"@ {
            r.push(es.last().0)
        } else {
            r
        }
    }
}

/// The error a listing of the live directory fails with.
pub open spec fn live_listing_error(listing: LiveListing) -> Option<Seq<char>> {
    match listing {
        LiveListing::Failed(e) => Some("Failed to read directory "@ + "/etc/letsencrypt/live"@ + ": "@ + e@),
        LiveListing::EntryFailed(e) => Some("Failed to read directory entry: "@ + e@),
        _ => None,
    }
}

/// The lineage names a listing of the live directory holds, sorted; a
/// missing directory holds none.
pub fn domains_from_listing(listing: LiveListing) -> (r: Result<Vec<String>, String>)
    ensures
        match r {
            Ok(v) => live_listing_error(listing) is None && sorted_strs(strs(v@)) && match listing {
                LiveListing::Entries(es) => v@.map_values(|s: String| s@).to_multiset()
                    == lineage_names(es@.map_values(|e: LiveDirEntry| live_entry_view(e))).to_multiset(),
                _ => v@.len() == 0,
            },
            Err(e) => live_listing_error(listing) == Some(e@),
        },
{
    match listing {
        LiveListing::NotFound => Ok(Vec::new()),
        LiveListing::Failed(e) => {
            let mut m = copy_str("Failed to read directory ");
            m.append("/etc/letsencrypt/live");
            m.append(": ");
            m.append(e.as_str());
            Err(m)
        },
        LiveListing::EntryFailed(e) => {
            let mut m = copy_str("Failed to read directory entry: ");
            m.append(e.as_str());
            Err(m)
        },
        LiveListing::Entries(es) => {
            let ghost all = es@.map_values(|e: LiveDirEntry| live_entry_view(e));
            let readme = copy_str("README");
            let mut names: Vec<String> = Vec::new();
            let mut i: usize = 0;
            assert(all.take(0) =~= Seq::<(Seq<char>, bool)>::empty());
            while i < es.len()
                invariant
                    i <= es.len(),
                    readme@ == "README"@,
                    all == es@.map_values(|e: LiveDirEntry| live_entry_view(e)),
                    strs(names@) == lineage_names(all.take(i as int)),
                decreases es.len() - i,
            {
                assert(all.take(i + 1).drop_last() =~= all.take(i as int));
                assert(all.take(i + 1).last() == live_entry_view(es@[i as int]));
                if es[i].is_dir && !(es[i].name == readme) {
                    let ghost before = strs(names@);
                    names.push(es[i].name.clone());
                    assert(strs(names@) =~= before.push(es@[i as int].name@));
                }
                i = i + 1;
            }
            assert(all.take(es.len() as int) =~= all);
            let sorted = sort_strings(names);
            proof {
                lemma_strs_multiset(sorted@, names@);
            }
            Ok(sorted)
        },
    }
}

/// Lists with the same strings have views with the same strings.
pub proof fn lemma_strs_multiset(a: Seq<String>, b: Seq<String>)
    requires
        a.to_multiset() == b.to_multiset(),
    ensures
        strs(a).to_multiset() == strs(b).to_multiset(),
    decreases a.len(),
{
    broadcast use vstd::seq_lib::group_to_multiset_ensures;
    broadcast use vstd::multiset::group_multiset_axioms;

    if a.len() == 0 {
        assert(b.to_multiset().len() == b.len());
        assert(a.to_multiset().len() == a.len());
        assert(b.len() == 0);
        assert(strs(a) =~= Seq::<Seq<char>>::empty());
        assert(strs(b) =~= Seq::<Seq<char>>::empty());
    } else {
        let x = a.last();
        assert(a.to_multiset().count(x) > 0) by {
            assert(a.contains(x)) by {
                assert(a[a.len() - 1] == x);
            }
        }
        assert(b.contains(x));
        let k = choose|k: int| 0 <= k < b.len() && b[k] == x;
        let a2 = a.drop_last();
        let b2 = b.remove(k);
        assert(a =~= a2.push(x));
        vstd::seq_lib::to_multiset_remove(b, k);
        assert(a2.to_multiset() =~= a.to_multiset().remove(x));
        lemma_strs_multiset(a2, b2);
        assert(strs(a) =~= strs(a2).push(x@));
        assert(strs(b2) =~= strs(b).remove(k));
        vstd::seq_lib::to_multiset_remove(strs(b), k);
        assert(strs(b).to_multiset() =~= strs(b2).to_multiset().insert(x@));
    }
}

/// The lineages listed are exactly the directories of the live directory
/// other than `README`: every such entry is listed, and every listed name is
/// such an entry. With `domains_from_listing`'s `ensures` (same names as
/// `lineage_names`), a host's every lineage shows up in the result.
pub proof fn law_every_lineage_directory_is_listed(es: Seq<(Seq<char>, bool)>)
    ensures
        forall|i: int|
            0 <= i < es.len() && #[trigger] es[i].1 && es[i].0 != "README"@ ==> lineage_names(
                es,
            ).contains(es[i].0),
        forall|n: Seq<char>|
            #[trigger] lineage_names(es).contains(n) ==> n != "README"@ && exists|i: int|
                0 <= i < es.len() && #[trigger] es[i] == (n, true),
        lineage_names(es).len() <= es.len(),
    decreases es.len(),
{
    if es.len() > 0 {
        let init = es.drop_last();
        law_every_lineage_directory_is_listed(init);
        let r = lineage_names(init);
        let l = es.last();
        assert forall|i: int|
            0 <= i < es.len() && #[trigger] es[i].1 && es[i].0 != "README"@ implies lineage_names(
                es,
            ).contains(es[i].0) by {
            if i < es.len() - 1 {
                assert(init[i] == es[i]);
                assert(r.contains(es[i].0));
                let j = choose|j: int| 0 <= j < r.len() && r[j] == es[i].0;
                if l.1 && l.0 != "README"@ {
                    assert(lineage_names(es)[j] == es[i].0);
                }
            } else {
                assert(lineage_names(es) == r.push(l.0));
                assert(lineage_names(es)[r.len() as int] == es[i].0);
            }
        }
        assert forall|n: Seq<char>| #[trigger] lineage_names(es).contains(n) implies n != "README"@
            && exists|i: int| 0 <= i < es.len() && #[trigger] es[i] == (n, true) by {
            let j = choose|j: int| 0 <= j < lineage_names(es).len() && lineage_names(es)[j] == n;
            if j < r.len() {
                assert(r[j] == n);
                assert(r.contains(n));
                let i = choose|i: int| 0 <= i < init.len() && #[trigger] init[i] == (n, true);
                assert(es[i] == init[i]);
            } else {
                assert(l.1 && l.0 != "README"@ && n == l.0);
                assert(es[es.len() - 1] == (n, true));
            }
        }
    }
}

} // verus!
