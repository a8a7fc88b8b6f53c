//! The list of recently opened repositories: newest first, one entry per
//! path, at most twenty entries.

use vstd::prelude::*;
use vstd::multiset::Multiset;
use crate::image::{file_name, file_name_of};
use crate::models::RecentRepo;
use crate::records::{lemma_insert_pos, reversed, stable_sorted};
use crate::text::{chars_of, string_from_chars};

verus! {

broadcast use vstd::seq_lib::group_to_multiset_ensures;

/// How many repositories the list keeps.
pub const MAX_RECENT: usize = 20;

/// The name under which a repository is listed: the last component of its
/// path, or "Unknown" where the path has none.
pub open spec fn display_name_of(path: Seq<char>) -> Seq<char> {
    match file_name_of(path) {
        Some(n) => n,
        None => "Unknown"@,
    }
}

/// The name under which a repository is listed.
pub fn repo_display_name(path: &str) -> (r: String)
    ensures
        r@ == display_name_of(path@),
{
    match file_name(&chars_of(path)) {
        Some(n) => string_from_chars(n.as_slice()),
        None => String::from_str("Unknown"),
    }
}

/// Newest first.
pub open spec fn by_recency(s: Seq<RecentRepo>) -> bool {
    forall|i: int, j: int| 0 <= i < j < s.len() ==> s[i].last_opened >= s[j].last_opened
}

/// An entry goes before another one when it was opened later.
pub open spec fn newer() -> spec_fn(RecentRepo, RecentRepo) -> bool {
    |a: RecentRepo, b: RecentRepo| a.last_opened > b.last_opened
}

/// Sorts repositories by the time they were last opened, newest first;
/// entries opened at the same time keep their order.
pub fn sort_by_recency(repos: Vec<RecentRepo>) -> (r: Vec<RecentRepo>)
    ensures
        r@ == stable_sorted(repos@, newer()),
        by_recency(r@),
        r@.to_multiset() == repos@.to_multiset(),
{
    let ghost orig = repos@;
    let mut src = reversed(repos);
    let mut out: Vec<RecentRepo> = Vec::new();
    while src.len() > 0
        invariant
            src@.len() <= orig.len(),
            src@ == orig.skip(orig.len() - src@.len()).reverse(),
            by_recency(out@),
            out@.to_multiset() == orig.take(orig.len() - src@.len()).to_multiset(),
            out@ == stable_sorted(orig.take(orig.len() - src@.len()), newer()),
        decreases src.len(),
    {
        let ghost k = orig.len() - src@.len();
        let x = src.pop().unwrap();
        proof {
            assert(x == orig[k]);
            assert(src@ =~= orig.skip(k + 1).reverse());
            assert(orig.take(k + 1) =~= orig.take(k).push(x));
        }
        let mut p: usize = 0;
        while p < out.len() && out[p].last_opened >= x.last_opened
            invariant
                p <= out.len(),
                forall|i: int| 0 <= i < p ==> out@[i].last_opened >= x.last_opened,
            decreases out.len() - p,
        {
            p = p + 1;
        }
        let ghost before = out@;
        proof {
            lemma_insert_pos(before, x, newer(), 0, p as int);
            assert(orig.take(k + 1).drop_last() =~= orig.take(k));
        }
        out.insert(p, x);
        proof {
            assert forall|i: int, j: int| 0 <= i < j < out@.len() implies out@[i].last_opened
                >= out@[j].last_opened by {
                if j < p {
                } else if j == p {
                } else if i < p {
                    assert(before[j - 1].last_opened < x.last_opened || before[j - 1].last_opened
                        <= before[i].last_opened);
                } else if i == p {
                    assert(before[p as int].last_opened < x.last_opened);
                    if j - 1 > p {
                        assert(before[j - 1].last_opened <= before[p as int].last_opened);
                    }
                } else {
                }
            }
        }
    }
    proof {
        assert(orig.take(orig.len() as int) =~= orig);
    }
    out
}

/// `r` is what remains of `full` once it is cut to `MAX_RECENT` entries:
/// a list that fits is kept as it is; a longer one is sorted newest first
/// (ties in their order) and keeps its first `MAX_RECENT`, so nothing it
/// drops is newer than what it keeps.
pub open spec fn capped(full: Seq<RecentRepo>, r: Seq<RecentRepo>) -> bool {
    if full.len() <= MAX_RECENT {
        r == full
    } else {
        &&& r == stable_sorted(full, newer()).take(MAX_RECENT as int)
        &&& r.len() == MAX_RECENT
        &&& by_recency(r)
        &&& forall|x: RecentRepo| #[trigger]
            full.to_multiset().count(x) >= r.to_multiset().count(x)
        &&& forall|x: RecentRepo| #[trigger]
            full.to_multiset().count(x) > r.to_multiset().count(x) ==> x.last_opened
                <= r.last().last_opened
    }
}

/// Cuts a list to the `MAX_RECENT` newest entries when it is longer.
pub fn keep_most_recent(list: Vec<RecentRepo>) -> (r: Vec<RecentRepo>)
    ensures
        capped(list@, r@),
{
    if list.len() <= MAX_RECENT {
        return list;
    }
    let ghost full = list@;
    let mut kept = sort_by_recency(list);
    let ghost sorted = kept@;
    let ghost mut dropped: Seq<RecentRepo> = seq![];
    proof {
        assert(kept@.to_multiset().len() == full.to_multiset().len());
        assert(kept@.len() == full.len());
        assert(dropped.to_multiset() =~= Multiset::empty());
        assert(kept@.to_multiset().add(dropped.to_multiset()) =~= full.to_multiset());
    }
    while kept.len() > MAX_RECENT
        invariant
            kept@.len() >= MAX_RECENT,
            kept@.len() <= sorted.len(),
            sorted == stable_sorted(full, newer()),
            kept@ == sorted.take(kept@.len() as int),
            by_recency(kept@),
            kept@.to_multiset().add(dropped.to_multiset()) == full.to_multiset(),
            forall|i: int| 0 <= i < dropped.len() ==> dropped[i].last_opened <= kept@.last().last_opened,
        decreases kept.len(),
    {
        let ghost before = kept@;
        let x = kept.pop().unwrap();
        proof {
            assert(before =~= kept@.push(x));
            assert(kept@ =~= sorted.take(kept@.len() as int));
            assert(x.last_opened <= kept@.last().last_opened);
            dropped = dropped.push(x);
            assert(kept@.to_multiset().add(dropped.to_multiset()) =~= full.to_multiset());
        }
    }
    proof {
        assert forall|x: RecentRepo| #[trigger]
            full.to_multiset().count(x) > kept@.to_multiset().count(x) implies x.last_opened
            <= kept@.last().last_opened by {
            assert(dropped.to_multiset().count(x) > 0);
            assert(dropped.contains(x));
        }
    }
    kept
}

/// The entries for paths other than `path`, in order.
pub open spec fn without_path(s: Seq<RecentRepo>, path: Seq<char>) -> Seq<RecentRepo> {
    s.filter(|x: RecentRepo| x.path@ != path)
}

/// Records that the repository at `path` was opened at time `now`: any
/// earlier entry for the path is removed, the new entry is added at the
/// end, and the list is cut to the newest `MAX_RECENT` when it grew longer.
pub fn remember_repo(repos: Vec<RecentRepo>, path: String, now: i64) -> (r: Vec<RecentRepo>)
    ensures
        exists|n: RecentRepo|
            {
                &&& n.path@ == path@
                &&& n.name@ == display_name_of(path@)
                &&& n.last_opened == now
                &&& capped(#[trigger] without_path(repos@, path@).push(n), r@)
            },
{
    let ghost orig = repos@;
    let ghost other = |x: RecentRepo| x.path@ != path@;
    let mut src = reversed(repos);
    let mut list: Vec<RecentRepo> = Vec::new();
    while src.len() > 0
        invariant
            src@.len() <= orig.len(),
            src@ == orig.skip(orig.len() - src@.len()).reverse(),
            list@ == orig.take(orig.len() - src@.len()).filter(other),
            other == (|x: RecentRepo| x.path@ != path@),
        decreases src.len(),
    {
        let ghost k = orig.len() - src@.len();
        let x = src.pop().unwrap();
        proof {
            assert(x == orig[k]);
            assert(src@ =~= orig.skip(k + 1).reverse());
            assert(orig.take(k + 1).drop_last() =~= orig.take(k));
            reveal(Seq::filter);
        }
        if x.path != path {
            list.push(x);
        }
    }
    proof {
        assert(orig.take(orig.len() as int) =~= orig);
    }
    let name = repo_display_name(path.as_str());
    let entry = RecentRepo { path, name, last_opened: now };
    let ghost n = entry;
    list.push(entry);
    let r = keep_most_recent(list);
    proof {
        assert(orig.filter(other) == without_path(orig, path@));
        assert(capped(without_path(orig, path@).push(n), r@));
    }
    r
}

} // verus!
