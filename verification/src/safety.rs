//! When a target directory may be removed.

use crate::bytes;
use crate::entry;
use crate::entry::{Entry, EntryView, Kind};
use crate::path;
use crate::repo::{Repo, RepoView};
use vstd::prelude::*;

verus! {

/// `td` overlaps neither the directory nor the target directory of any entry at another path.
pub open spec fn is_unshared(entries: Seq<EntryView>, at: Seq<Seq<u8>>, td: Seq<Seq<u8>>) -> bool {
    forall|i: int|
        0 <= i < entries.len() && (#[trigger] entries[i]).path != at ==> !path::overlap(
            td,
            entries[i].target,
        ) && !path::overlap(td, entries[i].path)
}

/// The target directory of an entry may be removed: it lies strictly below the base, is neither
/// the directory of all this repository's nor the main checkout's, overlaps neither Git's data nor
/// the main checkout, nor anything of another entry, and does not contain the entry itself, unless
/// the entry is just that target directory.
pub open spec fn is_target_safe(repo: RepoView, e: EntryView, entries: Seq<EntryView>) -> bool {
    let td = e.target;
    &&& td != repo.base
    &&& td != repo.key
    &&& path::within(td, repo.base)
    &&& !path::overlap(td, path::joined(repo.key, bytes::utf8("main"@)))
    &&& !path::overlap(td, repo.common)
    &&& !path::overlap(td, repo.main)
    &&& is_unshared(entries, e.path, td)
    &&& e.kind == Kind::Orphan || !path::within(e.path, td)
}

impl Repo {
    /// Tells whether the target directory of an entry may be removed.
    pub fn target_safe(&self, e: &Entry, entries: &[Entry]) -> (r: bool)
        ensures
            r == is_target_safe(self@, e@, entry::views(entries@)),
    {
        let td = &e.target;
        if td.same(self.base()) || td.same(self.key()) || !td.starts_with(self.base())
            || path::overlaps(td, &self.key().join("main".as_bytes())) || path::overlaps(
            td,
            self.common(),
        ) || td.starts_with(self.main()) || self.main().starts_with(td) {
            return false;
        }
        let ghost all = entry::views(entries@);
        let mut i: usize = 0;
        while i < entries.len()
            invariant
                i <= entries@.len(),
                all == entry::views(entries@),
                td@ == e@.target,
                forall|j: int|
                    0 <= j < i && (#[trigger] all[j]).path != e@.path ==> !path::overlap(
                        td@,
                        all[j].target,
                    ) && !path::overlap(td@, all[j].path),
            decreases entries@.len() - i,
        {
            let other = &entries[i];
            assert(all[i as int] == other@);
            if !other.path.same(&e.path) && (path::overlaps(td, &other.target) || path::overlaps(
                td,
                &other.path,
            )) {
                return false;
            }
            i += 1;
        }
        e.kind == Kind::Orphan || !e.path.starts_with(td)
    }
}

/// Whatever lies in a target directory that may be removed lies below the base, and outside Git's
/// data, the main checkout and its target directory.
pub proof fn safe_target_holds_nothing_protected(
    repo: RepoView,
    e: EntryView,
    entries: Seq<EntryView>,
    p: Seq<Seq<u8>>,
)
    requires
        is_target_safe(repo, e, entries),
        path::within(p, e.target),
    ensures
        path::within(p, repo.base),
        p != repo.base,
        !path::within(p, repo.common),
        !path::within(p, repo.main),
        !path::within(p, path::joined(repo.key, bytes::utf8("main"@))),
{
    let td = e.target;
    path::within_is_transitive(p, td, repo.base);
    path::disjoint_paths_share_nothing(td, repo.common, p);
    path::disjoint_paths_share_nothing(td, repo.main, p);
    path::disjoint_paths_share_nothing(td, path::joined(repo.key, bytes::utf8("main"@)), p);
    if p == repo.base {
        assert(td =~= repo.base);
    }
}

/// Whatever lies in a target directory that may be removed lies outside every other entry and its
/// target directory.
pub proof fn safe_target_holds_nothing_of_others(
    repo: RepoView,
    e: EntryView,
    entries: Seq<EntryView>,
    i: int,
    p: Seq<Seq<u8>>,
)
    requires
        is_target_safe(repo, e, entries),
        0 <= i < entries.len(),
        entries[i].path != e.path,
        path::within(p, e.target),
    ensures
        !path::within(p, entries[i].path),
        !path::within(p, entries[i].target),
{
    path::disjoint_paths_share_nothing(e.target, entries[i].path, p);
    path::disjoint_paths_share_nothing(e.target, entries[i].target, p);
}

/// Two entries at different paths that share a target directory both keep it.
pub proof fn shared_target_is_kept(repo: RepoView, entries: Seq<EntryView>, i: int, j: int)
    requires
        0 <= i < entries.len(),
        0 <= j < entries.len(),
        entries[i].path != entries[j].path,
        path::overlap(entries[i].target, entries[j].target),
    ensures
        !is_target_safe(repo, entries[i], entries),
        !is_target_safe(repo, entries[j], entries),
{
    path::overlap_is_symmetric(entries[i].target, entries[j].target);
}

/// A target directory outside the base is kept.
pub proof fn outside_target_is_kept(repo: RepoView, e: EntryView, entries: Seq<EntryView>)
    requires
        !path::within(e.target, repo.base),
    ensures
        !is_target_safe(repo, e, entries),
{
}

/// More entries never make a target directory safe that was not.
pub proof fn more_entries_protect_more(
    repo: RepoView,
    e: EntryView,
    few: Seq<EntryView>,
    many: Seq<EntryView>,
)
    requires
        forall|i: int| 0 <= i < few.len() ==> many.contains(#[trigger] few[i]),
        is_target_safe(repo, e, many),
    ensures
        is_target_safe(repo, e, few),
{
    assert forall|i: int| 0 <= i < few.len() && (#[trigger] few[i]).path != e.path implies !path::overlap(
        e.target,
        few[i].target,
    ) && !path::overlap(e.target, few[i].path) by {
        let k = many.index_of(few[i]);
        assert(many[k] == few[i]);
    }
}

} // verus!
