//! The inventory: leftover directories and unclaimed target directories beside what Git registers.

use crate::bytes;
use crate::entry;
use crate::entry::{Entry, EntryView, Kind};
use crate::path;
use crate::path::AbsPath;
use crate::repo::{Repo, RepoView};
use crate::text;
use vstd::prelude::*;
use vstd::string::*;

verus! {

/// What `.git` is in a directory.
pub enum GitMark {
    /// It is not there.
    Missing,
    /// It is a file, which names this resolved directory, or none.
    File(Option<AbsPath>),
    /// It is something else: the directory is a repository of its own.
    Other,
}

/// What `.git` is in a directory, as a value.
pub enum Mark {
    Missing,
    File(Option<Seq<Seq<u8>>>),
    Other,
}

impl View for GitMark {
    type V = Mark;

    open spec fn view(&self) -> Mark {
        match *self {
            GitMark::Missing => Mark::Missing,
            GitMark::File(Some(p)) => Mark::File(Some(p@)),
            GitMark::File(None) => Mark::File(None),
            GitMark::Other => Mark::Other,
        }
    }
}

/// A directory that was found where worktrees lie.
pub struct Leftover {
    /// Where it is.
    pub path: AbsPath,
    /// Its target directory.
    pub target: AbsPath,
    /// What `.git` is in it.
    pub git: GitMark,
    /// The target directory is there.
    pub target_is_dir: bool,
    /// One of its configuration files is there.
    pub configured: bool,
}

/// A directory that was found, as a value.
pub struct LeftoverView {
    pub path: Seq<Seq<u8>>,
    pub target: Seq<Seq<u8>>,
    pub git: Mark,
    pub target_is_dir: bool,
    pub configured: bool,
}

impl View for Leftover {
    type V = LeftoverView;

    open spec fn view(&self) -> LeftoverView {
        LeftoverView {
            path: self.path@,
            target: self.target@,
            git: self.git@,
            target_is_dir: self.target_is_dir,
            configured: self.configured,
        }
    }
}

/// Something that was found on the disk.
pub enum Sighting {
    /// A directory where worktrees lie.
    Directory(Leftover),
    /// A directory among this repository's target directories, with the name under which it was
    /// found and its resolved path.
    Target(Vec<u8>, AbsPath),
}

/// Something that was found on the disk, as a value.
pub enum SightingView {
    Directory(LeftoverView),
    Target(Seq<u8>, Seq<Seq<u8>>),
}

impl View for Sighting {
    type V = SightingView;

    open spec fn view(&self) -> SightingView {
        match *self {
            Sighting::Directory(l) => SightingView::Directory(l@),
            Sighting::Target(n, p) => SightingView::Target(n@, p@),
        }
    }
}

/// `p` is a directory in which leftovers are looked for: one that holds a registered worktree, or
/// one of the usual places in the main checkout.
pub open spec fn is_searched(
    repo: RepoView,
    entries: Seq<EntryView>,
    usual: Seq<Seq<u8>>,
    p: Seq<Seq<u8>>,
) -> bool {
    holds_worktree(entries, p) || is_usual(repo, usual, p)
}

/// `p` is one of the usual places in the main checkout.
pub open spec fn is_usual(repo: RepoView, usual: Seq<Seq<u8>>, p: Seq<Seq<u8>>) -> bool {
    exists|k: int| 0 <= k < usual.len() && path::joined(repo.main, #[trigger] usual[k]) == p
}

/// `p` holds a registered worktree.
pub open spec fn holds_worktree(entries: Seq<EntryView>, p: Seq<Seq<u8>>) -> bool {
    exists|i: int|
        0 <= i < entries.len() && (#[trigger] entries[i]).kind == Kind::Worktree
            && entries[i].path.len() > 0 && entries[i].path.drop_last() == p
}

/// Paths in strictly rising order.
pub open spec fn rising(list: Seq<Seq<Seq<u8>>>) -> bool {
    forall|i: int, j: int| 0 <= i < j < list.len() ==> path::before(#[trigger] list[i], #[trigger] list[j])
}

/// A directory is worth a look: it is neither the main checkout nor Git's data, and overlaps no
/// entry but the main checkout.
pub open spec fn is_candidate(repo: RepoView, entries: Seq<EntryView>, p: Seq<Seq<u8>>) -> bool {
    &&& p != repo.main
    &&& p != repo.common
    &&& forall|i: int|
        0 <= i < entries.len() && (#[trigger] entries[i]).kind != Kind::Main ==> !path::overlap(
            entries[i].path,
            p,
        )
}

/// A directory was a worktree of this repository: its `.git` file leads into Git's data, or it has
/// no `.git` at all and a target directory or configuration that belongs here.
pub open spec fn is_ours(repo: RepoView, l: LeftoverView) -> bool {
    match l.git {
        Mark::File(Some(dir)) => path::within(
            dir,
            path::joined(repo.common, bytes::utf8("worktrees"@)),
        ),
        Mark::File(None) => false,
        Mark::Other => false,
        Mark::Missing => path::within(l.target, repo.key) && (l.target_is_dir || l.configured),
    }
}

/// A target directory belongs to nothing: it lies among this repository's, is not the main
/// checkout's, and overlaps neither the directory nor the target directory of any entry.
pub open spec fn is_unclaimed(
    repo: RepoView,
    entries: Seq<EntryView>,
    name: Seq<u8>,
    p: Seq<Seq<u8>>,
) -> bool {
    &&& name != bytes::utf8("main"@)
    &&& path::within(p, repo.key)
    &&& forall|i: int|
        0 <= i < entries.len() ==> !path::overlap(p, (#[trigger] entries[i]).target)
            && !path::overlap(p, entries[i].path)
}

/// The entry of a leftover directory.
pub open spec fn stale_entry(l: LeftoverView) -> EntryView {
    EntryView {
        path: l.path,
        branch: None,
        target: l.target,
        kind: Kind::Stale,
        locked: false,
    }
}

/// The entry of an unclaimed target directory.
pub open spec fn orphan_entry(p: Seq<Seq<u8>>) -> EntryView {
    EntryView { path: p, branch: None, target: p, kind: Kind::Orphan, locked: false }
}

/// An inventory in the making.
#[verifier::ext_equal]
pub struct SurveyView {
    /// The entries so far.
    pub entries: Seq<EntryView>,
    /// Unclaimed target directories are wanted.
    pub orphans: bool,
    /// A target directory was found: from now on no leftover is taken in, so that no target
    /// directory of a leftover is taken for an unclaimed one.
    pub closed: bool,
}

/// The inventory before anything was found: what Git registers.
pub open spec fn started(registered: Seq<EntryView>, orphans: bool) -> SurveyView {
    SurveyView { entries: registered, orphans, closed: false }
}

/// The inventory after one more thing was found.
pub open spec fn counted(repo: RepoView, s: SurveyView, seen: SightingView) -> SurveyView {
    match seen {
        SightingView::Directory(l) => if !s.closed && is_candidate(repo, s.entries, l.path)
            && is_ours(repo, l) {
            SurveyView { entries: s.entries.push(stale_entry(l)), ..s }
        } else {
            s
        },
        SightingView::Target(name, p) => SurveyView {
            entries: if s.orphans && is_unclaimed(repo, s.entries, name, p) {
                s.entries.push(orphan_entry(p))
            } else {
                s.entries
            },
            closed: true,
            ..s
        },
    }
}

/// The inventory after everything that was found.
pub open spec fn surveyed(
    repo: RepoView,
    registered: Seq<EntryView>,
    orphans: bool,
    seen: Seq<SightingView>,
) -> SurveyView
    decreases seen.len(),
{
    if seen.len() == 0 {
        started(registered, orphans)
    } else {
        counted(repo, surveyed(repo, registered, orphans, seen.drop_last()), seen.last())
    }
}

/// An inventory in the making.
#[derive(Debug)]
pub struct Survey {
    entries: Vec<Entry>,
    orphans: bool,
    closed: bool,
}

impl View for Survey {
    type V = SurveyView;

    closed spec fn view(&self) -> SurveyView {
        SurveyView {
            entries: entry::views(self.entries@),
            orphans: self.orphans,
            closed: self.closed,
        }
    }
}

impl Survey {
    /// Begins an inventory with what Git registers.
    pub fn begin(registered: Vec<Entry>, orphans: bool) -> (r: Survey)
        ensures
            r@ == started(entry::views(registered@), orphans),
    {
        Survey { entries: registered, orphans, closed: false }
    }

    /// The entries so far.
    pub fn entries(&self) -> (r: &Vec<Entry>)
        ensures
            entry::views(r@) == self@.entries,
    {
        &self.entries
    }

    /// Ends the inventory.
    pub fn finish(self) -> (r: Vec<Entry>)
        ensures
            entry::views(r@) == self@.entries,
    {
        self.entries
    }
}

/// Puts `p` in its place in a rising list, unless it is there already.
fn insert(list: &mut Vec<AbsPath>, p: AbsPath)
    requires
        rising(path::views(old(list)@)),
    ensures
        rising(path::views(final(list)@)),
        forall|q: Seq<Seq<u8>>|
            #[trigger] path::views(final(list)@).contains(q) <==> path::views(old(list)@).contains(q)
                || q == p@,
{
    let ghost was = path::views(list@);
    let mut i: usize = 0;
    while i < list.len() && list[i].precedes(&p)
        invariant
            i <= list@.len(),
            was == path::views(list@),
            rising(was),
            forall|j: int| 0 <= j < i ==> path::before(#[trigger] was[j], p@),
        decreases list@.len() - i,
    {
        assert(was[i as int] == list@[i as int]@);
        i += 1;
    }
    if i < list.len() && list[i].same(&p) {
        assert(was[i as int] == p@);
        return;
    }
    let ghost added = p@;
    proof {
        if i < was.len() {
            path::before_is_total(was[i as int], added);
            assert forall|j: int| i <= j < was.len() implies path::before(added, #[trigger] was[j]) by {
                if j > i {
                    path::before_is_transitive(added, was[i as int], was[j]);
                }
            }
        }
    }
    list.insert(i, p);
    let ghost now = path::views(list@);
    proof {
        assert(now =~= was.insert(i as int, added));
        assert forall|a: int, b: int| 0 <= a < b < now.len() implies path::before(
            #[trigger] now[a],
            #[trigger] now[b],
        ) by {
            let x = if a < i {
                a
            } else {
                a - 1
            };
            let y = if b < i {
                b
            } else {
                b - 1
            };
            if a != i {
                assert(now[a] == was[x]);
            }
            if b != i {
                assert(now[b] == was[y]);
            }
        }
        assert forall|q: Seq<Seq<u8>>| #[trigger] now.contains(q) <==> was.contains(q) || q == added by {
            if now.contains(q) {
                let k = now.index_of(q);
                if k < i {
                    assert(was[k] == q);
                } else if k > i {
                    assert(was[k - 1] == q);
                }
            }
            if was.contains(q) {
                let k = was.index_of(q);
                if k < i {
                    assert(now[k] == q);
                } else {
                    assert(now[k + 1] == q);
                }
            }
            assert(now[i as int] == added);
        }
    }
}

/// The name of a directory in which a tool keeps its own things: a hidden one, which neither is
/// Git's nor holds worktrees itself.
pub open spec fn is_tool_name(name: Seq<u8>) -> bool {
    &&& name.len() > 0
    &&& name[0] == path::DOT
    &&& !path::is_parent(name)
    &&& name != bytes::utf8(".git"@)
    &&& name != bytes::utf8(".worktrees"@)
}

/// The place where a tool keeps worktrees, in its directory.
pub open spec fn tool_place(name: Seq<u8>) -> Seq<u8> {
    name + bytes::utf8("/worktrees"@)
}

/// The places where tools keep worktrees, given the names of the directories in a main checkout.
pub open spec fn tool_places(found: Seq<Seq<u8>>) -> Seq<Seq<u8>>
    decreases found.len(),
{
    if found.len() == 0 {
        Seq::empty()
    } else if is_tool_name(found.last()) {
        tool_places(found.drop_last()).push(tool_place(found.last()))
    } else {
        tool_places(found.drop_last())
    }
}

/// The places in a main checkout where worktrees usually lie, given the names of the directories in
/// it.
pub open spec fn places(found: Seq<Seq<u8>>) -> Seq<Seq<u8>> {
    tool_places(found) + seq![bytes::utf8(".worktrees"@), bytes::utf8("worktrees"@)]
}

/// The places in a main checkout where worktrees usually lie, given the names of the directories in
/// it.
pub fn usual_places(found: &[Vec<u8>]) -> (r: Vec<Vec<u8>>)
    ensures
        bytes::views(r@) == places(bytes::views(found@)),
{
    let ghost all = bytes::views(found@);
    let mut r: Vec<Vec<u8>> = Vec::new();
    let mut i: usize = 0;
    assert(bytes::views(r@) =~= tool_places(all.take(0)));
    while i < found.len()
        invariant
            i <= found@.len(),
            all == bytes::views(found@),
            bytes::views(r@) == tool_places(all.take(i as int)),
        decreases found@.len() - i,
    {
        let name = found[i].as_slice();
        assert(all.take(i + 1).drop_last() =~= all.take(i as int));
        assert(all.take(i + 1).last() == name@);
        let up = name.len() == 2 && name[0] == path::DOT && name[1] == path::DOT;
        assert(up == (name@ =~= seq![path::DOT, path::DOT]));
        if name.len() > 0 && name[0] == path::DOT && !up && !bytes::same(name, ".git".as_bytes())
            && !bytes::same(name, ".worktrees".as_bytes()) {
            let ghost held = bytes::views(r@);
            let mut place = bytes::copy(name);
            place.extend_from_slice("/worktrees".as_bytes());
            assert(place@ =~= tool_place(name@));
            r.push(place);
            assert(bytes::views(r@) =~= held.push(tool_place(name@)));
        }
        i += 1;
    }
    assert(all.take(i as int) =~= all);
    let ghost held = bytes::views(r@);
    r.push(bytes::copy(".worktrees".as_bytes()));
    r.push(bytes::copy("worktrees".as_bytes()));
    assert(bytes::views(r@) =~= held + seq![bytes::utf8(".worktrees"@), bytes::utf8("worktrees"@)]);
    r
}

/// The directory that the text of a `.git` file names: what follows `gitdir: ` in it.
pub open spec fn named_gitdir(content: Seq<char>) -> Option<Seq<char>> {
    let line = text::trimmed(content);
    if "gitdir: "@.is_prefix_of(line) {
        Some(line.skip("gitdir: "@.len() as int))
    } else {
        None
    }
}

/// Reads the directory that a `.git` file names.
pub fn gitdir(content: &str) -> (r: Option<String>)
    ensures
        text::optional(r) == named_gitdir(content@),
{
    let line = text::trim(content);
    text::strip(line.as_str(), "gitdir: ")
}

/// Tells whether the directory found under `name` can be an unclaimed target directory at all.
pub fn may_be_orphan(name: &[u8]) -> (r: bool)
    ensures
        r == (name@ != bytes::utf8("main"@)),
{
    !bytes::same(name, "main".as_bytes())
}

impl Repo {
    /// The directories in which leftovers are looked for, each once, in order, with these usual
    /// places in the main checkout.
    pub fn searched(&self, entries: &[Entry], usual: &[Vec<u8>]) -> (r: Vec<AbsPath>)
        ensures
            rising(path::views(r@)),
            forall|p: Seq<Seq<u8>>|
                #[trigger] path::views(r@).contains(p) <==> is_searched(
                    self@,
                    entry::views(entries@),
                    bytes::views(usual@),
                    p,
                ),
    {
        let ghost all = entry::views(entries@);
        let mut list: Vec<AbsPath> = Vec::new();
        let mut i: usize = 0;
        assert(path::views(list@) =~= Seq::empty());
        while i < entries.len()
            invariant
                i <= entries@.len(),
                all == entry::views(entries@),
                rising(path::views(list@)),
                forall|p: Seq<Seq<u8>>|
                    #[trigger] path::views(list@).contains(p) <==> holds_worktree(
                        all.take(i as int),
                        p,
                    ),
            decreases entries@.len() - i,
        {
            let e = &entries[i];
            assert(all[i as int] == e@);
            let ghost before = path::views(list@);
            let ghost short = all.take(i as int);
            let ghost long = all.take(i + 1);
            if e.kind == Kind::Worktree {
                match e.path.parent() {
                    Some(p) => insert(&mut list, p),
                    None => {},
                }
            }
            proof {
                assert forall|p: Seq<Seq<u8>>| #[trigger] path::views(list@).contains(p)
                    <==> holds_worktree(long, p) by {
                    if holds_worktree(short, p) {
                        let k = choose|k: int|
                            0 <= k < short.len() && (#[trigger] short[k]).kind == Kind::Worktree
                                && short[k].path.len() > 0 && short[k].path.drop_last() == p;
                        assert(long[k] == short[k]);
                    }
                    if holds_worktree(long, p) {
                        let k = choose|k: int|
                            0 <= k < long.len() && (#[trigger] long[k]).kind == Kind::Worktree
                                && long[k].path.len() > 0 && long[k].path.drop_last() == p;
                        if k < i {
                            assert(long[k] == short[k]);
                        }
                    }
                    assert(long[i as int] == e@);
                    assert(before.contains(p) <==> holds_worktree(short, p));
                }
            }
            i += 1;
        }
        assert(all.take(i as int) =~= all);
        let ghost places = bytes::views(usual@);
        let mut k: usize = 0;
        while k < usual.len()
            invariant
                k <= usual@.len(),
                places == bytes::views(usual@),
                rising(path::views(list@)),
                forall|p: Seq<Seq<u8>>|
                    #[trigger] path::views(list@).contains(p) <==> holds_worktree(all, p)
                        || is_usual(self@, places.take(k as int), p),
            decreases usual@.len() - k,
        {
            let ghost before = path::views(list@);
            let ghost short = places.take(k as int);
            let ghost long = places.take(k + 1);
            let place = self.main().join(usual[k].as_slice());
            let ghost added = place@;
            insert(&mut list, place);
            proof {
                assert(long[k as int] == usual@[k as int]@);
                assert forall|p: Seq<Seq<u8>>| #[trigger] path::views(list@).contains(p)
                    <==> holds_worktree(all, p) || is_usual(self@, long, p) by {
                    assert(before.contains(p) <==> holds_worktree(all, p) || is_usual(
                        self@,
                        short,
                        p,
                    ));
                    if is_usual(self@, short, p) {
                        let m = choose|m: int|
                            0 <= m < short.len() && path::joined(self@.main, #[trigger] short[m])
                                == p;
                        assert(long[m] == short[m]);
                    }
                    if is_usual(self@, long, p) {
                        let m = choose|m: int|
                            0 <= m < long.len() && path::joined(self@.main, #[trigger] long[m]) == p;
                        if m < k {
                            assert(long[m] == short[m]);
                        }
                    }
                }
            }
            k += 1;
        }
        assert(places.take(k as int) =~= places);
        list
    }

    /// Tells whether a directory is worth a look.
    pub fn candidate(&self, entries: &[Entry], p: &AbsPath) -> (r: bool)
        ensures
            r == is_candidate(self@, entry::views(entries@), p@),
    {
        let ghost all = entry::views(entries@);
        let mut i: usize = 0;
        while i < entries.len()
            invariant
                i <= entries@.len(),
                all == entry::views(entries@),
                forall|j: int|
                    0 <= j < i && (#[trigger] all[j]).kind != Kind::Main ==> !path::overlap(
                        all[j].path,
                        p@,
                    ),
            decreases entries@.len() - i,
        {
            assert(all[i as int] == entries@[i as int]@);
            if path::overlaps(&entries[i].path, p) && entries[i].kind != Kind::Main {
                return false;
            }
            i += 1;
        }
        !p.same(self.main()) && !p.same(self.common())
    }

    /// Tells whether a directory was a worktree of this repository.
    fn ours(&self, l: &Leftover) -> (r: bool)
        ensures
            r == is_ours(self@, l@),
    {
        match &l.git {
            GitMark::File(Some(dir)) => dir.starts_with(&self.common().join("worktrees".as_bytes())),
            GitMark::File(None) => false,
            GitMark::Other => false,
            GitMark::Missing => l.target.starts_with(self.key()) && (l.target_is_dir
                || l.configured),
        }
    }

    /// Tells whether a target directory belongs to nothing.
    fn unclaimed(&self, entries: &[Entry], name: &[u8], p: &AbsPath) -> (r: bool)
        ensures
            r == is_unclaimed(self@, entry::views(entries@), name@, p@),
    {
        let ghost all = entry::views(entries@);
        if !may_be_orphan(name) || !p.starts_with(self.key()) {
            return false;
        }
        let mut i: usize = 0;
        while i < entries.len()
            invariant
                i <= entries@.len(),
                all == entry::views(entries@),
                forall|j: int|
                    0 <= j < i ==> !path::overlap(p@, (#[trigger] all[j]).target) && !path::overlap(
                        p@,
                        all[j].path,
                    ),
            decreases entries@.len() - i,
        {
            assert(all[i as int] == entries@[i as int]@);
            if path::overlaps(p, &entries[i].target) || path::overlaps(p, &entries[i].path) {
                return false;
            }
            i += 1;
        }
        true
    }

    /// Takes one thing that was found into the inventory, where it belongs there.
    pub fn inventory(&self, survey: Survey, seen: Sighting) -> (r: Survey)
        ensures
            r@ == counted(self@, survey@, seen@),
    {
        let Survey { entries: mut list, orphans, closed } = survey;
        let ghost all = entry::views(list@);
        match seen {
            Sighting::Directory(l) => {
                if !closed && self.candidate(list.as_slice(), &l.path) && self.ours(&l) {
                    let ghost added = stale_entry(l@);
                    list.push(
                        Entry {
                            path: l.path,
                            branch: None,
                            target: l.target,
                            kind: Kind::Stale,
                            locked: false,
                        },
                    );
                    assert(entry::views(list@) =~= all.push(added));
                }
                Survey { entries: list, orphans, closed }
            },
            Sighting::Target(name, p) => {
                if orphans && self.unclaimed(list.as_slice(), name.as_slice(), &p) {
                    let ghost added = orphan_entry(p@);
                    list.push(
                        Entry {
                            path: p.clone(),
                            branch: None,
                            target: p,
                            kind: Kind::Orphan,
                            locked: false,
                        },
                    );
                    assert(entry::views(list@) =~= all.push(added));
                }
                Survey { entries: list, orphans, closed: true }
            },
        }
    }
}

/// The place of a tool whose directory was found is among the usual ones.
proof fn tool_place_is_listed(found: Seq<Seq<u8>>, k: int) -> (m: int)
    requires
        0 <= k < found.len(),
        is_tool_name(found[k]),
    ensures
        0 <= m < tool_places(found).len(),
        tool_places(found)[m] == tool_place(found[k]),
    decreases found.len(),
{
    if k == found.len() - 1 {
        tool_places(found).len() - 1
    } else {
        let m = tool_place_is_listed(found.drop_last(), k);
        assert(tool_places(found)[m] == tool_places(found.drop_last())[m]);
        m
    }
}

/// Leftovers are always looked for in the main checkout's own two places, and in the place of every
/// tool that has a directory there, whatever is registered.
pub proof fn usual_places_are_searched(
    repo: RepoView,
    entries: Seq<EntryView>,
    found: Seq<Seq<u8>>,
    k: int,
)
    ensures
        is_searched(
            repo,
            entries,
            places(found),
            path::joined(repo.main, bytes::utf8(".worktrees"@)),
        ),
        is_searched(
            repo,
            entries,
            places(found),
            path::joined(repo.main, bytes::utf8("worktrees"@)),
        ),
        0 <= k < found.len() && is_tool_name(found[k]) ==> is_searched(
            repo,
            entries,
            places(found),
            path::joined(repo.main, tool_place(found[k])),
        ),
{
    let all = places(found);
    let n = tool_places(found).len() as int;
    assert(all[n] == bytes::utf8(".worktrees"@));
    assert(all[n + 1] == bytes::utf8("worktrees"@));
    if 0 <= k < found.len() && is_tool_name(found[k]) {
        let m = tool_place_is_listed(found, k);
        assert(all[m] == tool_place(found[k]));
    }
}

/// An entry that was added to what Git registers: a leftover that is neither the main checkout nor
/// Git's data, or an unclaimed target directory among the repository's.
pub open spec fn is_addition(repo: RepoView, e: EntryView) -> bool {
    &&& e.kind == Kind::Stale || e.kind == Kind::Orphan
    &&& e.kind == Kind::Stale ==> e.path != repo.main && e.path != repo.common
    &&& e.kind == Kind::Orphan ==> e.path == e.target && path::within(e.path, repo.key)
    &&& !e.locked
    &&& e.branch is None
}

/// What every inventory keeps from place `from` on: only leftovers and unclaimed target directories
/// follow, the leftovers first; a leftover overlaps no entry before it but the main checkout; and an
/// unclaimed target directory overlaps neither the directory nor the target directory of any other
/// entry.
pub open spec fn kept_apart(repo: RepoView, entries: Seq<EntryView>, from: int) -> bool {
    &&& forall|j: int| from <= j < entries.len() ==> is_addition(repo, #[trigger] entries[j])
    &&& forall|i: int, j: int|
        from <= i < j < entries.len() && (#[trigger] entries[j]).kind == Kind::Stale ==> (
        #[trigger] entries[i]).kind == Kind::Stale
    &&& forall|i: int, j: int|
        0 <= i < j < entries.len() && from <= j && (#[trigger] entries[j]).kind == Kind::Stale
            && (#[trigger] entries[i]).kind != Kind::Main ==> !path::overlap(
            entries[i].path,
            entries[j].path,
        )
    &&& forall|i: int, j: int|
        0 <= i < entries.len() && from <= j < entries.len() && i != j && (
        #[trigger] entries[j]).kind == Kind::Orphan ==> {
            &&& !path::overlap(entries[j].path, (#[trigger] entries[i]).path)
            &&& !path::overlap(entries[j].path, entries[i].target)
        }
}

/// An inventory with one more leftover at its end stays apart, as long as no unclaimed target
/// directory is in it.
proof fn leftover_keeps_apart(
    repo: RepoView,
    before: Seq<EntryView>,
    from: int,
    l: LeftoverView,
)
    requires
        0 <= from <= before.len(),
        kept_apart(repo, before, from),
        forall|j: int| from <= j < before.len() ==> (#[trigger] before[j]).kind == Kind::Stale,
        is_candidate(repo, before, l.path),
    ensures
        kept_apart(repo, before.push(stale_entry(l)), from),
{
    let now = before.push(stale_entry(l));
    assert forall|j: int| from <= j < now.len() implies is_addition(repo, #[trigger] now[j]) && now[j].kind
        == Kind::Stale by {
        if j < before.len() {
            assert(now[j] == before[j]);
        }
    }
    assert forall|i: int, j: int|
        0 <= i < j < now.len() && from <= j && (#[trigger] now[j]).kind == Kind::Stale && (
        #[trigger] now[i]).kind != Kind::Main implies !path::overlap(now[i].path, now[j].path) by {
        assert(now[i] == before[i]);
        if j < before.len() {
            assert(now[j] == before[j]);
        }
    }
}

/// An inventory with one more unclaimed target directory at its end stays apart.
proof fn orphan_keeps_apart(
    repo: RepoView,
    before: Seq<EntryView>,
    from: int,
    name: Seq<u8>,
    p: Seq<Seq<u8>>,
)
    requires
        0 <= from <= before.len(),
        kept_apart(repo, before, from),
        is_unclaimed(repo, before, name, p),
    ensures
        kept_apart(repo, before.push(orphan_entry(p)), from),
{
    let now = before.push(orphan_entry(p));
    assert forall|j: int| from <= j < now.len() implies is_addition(repo, #[trigger] now[j]) by {
        if j < before.len() {
            assert(now[j] == before[j]);
        }
    }
    assert forall|i: int, j: int|
        from <= i < j < now.len() && (#[trigger] now[j]).kind == Kind::Stale implies (
    #[trigger] now[i]).kind == Kind::Stale by {
        assert(now[i] == before[i] && now[j] == before[j]);
    }
    assert forall|i: int, j: int|
        0 <= i < j < now.len() && from <= j && (#[trigger] now[j]).kind == Kind::Stale && (
        #[trigger] now[i]).kind != Kind::Main implies !path::overlap(now[i].path, now[j].path) by {
        assert(now[i] == before[i] && now[j] == before[j]);
    }
    assert forall|i: int, j: int|
        0 <= i < now.len() && from <= j < now.len() && i != j && (#[trigger] now[j]).kind
            == Kind::Orphan implies {
        &&& !path::overlap(now[j].path, (#[trigger] now[i]).path)
        &&& !path::overlap(now[j].path, now[i].target)
    } by {
        if i < before.len() {
            assert(now[i] == before[i]);
        }
        if j < before.len() {
            assert(now[j] == before[j]);
            path::overlap_is_symmetric(p, now[j].path);
        }
    }
}

/// Until a target directory is found, all that follows what Git registers are leftovers.
proof fn open_survey_holds_leftovers(
    repo: RepoView,
    registered: Seq<EntryView>,
    orphans: bool,
    seen: Seq<SightingView>,
)
    ensures
        ({
            let s = surveyed(repo, registered, orphans, seen);
            &&& s.orphans == orphans
            &&& registered.is_prefix_of(s.entries)
            &&& !s.closed || !orphans ==> forall|j: int|
                registered.len() <= j < s.entries.len() ==> (#[trigger] s.entries[j]).kind
                    == Kind::Stale
        }),
    decreases seen.len(),
{
    if seen.len() == 0 {
        assert(registered =~= registered.subrange(0, registered.len() as int));
    } else {
        open_survey_holds_leftovers(repo, registered, orphans, seen.drop_last());
        let before = surveyed(repo, registered, orphans, seen.drop_last()).entries;
        let now = surveyed(repo, registered, orphans, seen).entries;
        if now != before {
            assert(before =~= now.drop_last());
        }
        assert(registered =~= before.subrange(0, registered.len() as int));
        assert(registered =~= now.subrange(0, registered.len() as int));
    }
}

/// Whatever is found on the disk, and in whatever order, the inventory begins with what Git
/// registers, and what follows is kept apart.
pub proof fn survey_keeps_entries_apart(
    repo: RepoView,
    registered: Seq<EntryView>,
    orphans: bool,
    seen: Seq<SightingView>,
)
    ensures
        registered.is_prefix_of(surveyed(repo, registered, orphans, seen).entries),
        kept_apart(
            repo,
            surveyed(repo, registered, orphans, seen).entries,
            registered.len() as int,
        ),
    decreases seen.len(),
{
    open_survey_holds_leftovers(repo, registered, orphans, seen);
    if seen.len() > 0 {
        let before = seen.drop_last();
        survey_keeps_entries_apart(repo, registered, orphans, before);
        open_survey_holds_leftovers(repo, registered, orphans, before);
        let s = surveyed(repo, registered, orphans, before);
        let n = registered.len() as int;
        match seen.last() {
            SightingView::Directory(l) => if !s.closed && is_candidate(repo, s.entries, l.path) {
                leftover_keeps_apart(repo, s.entries, n, l);
            },
            SightingView::Target(name, p) => if is_unclaimed(repo, s.entries, name, p) {
                orphan_keeps_apart(repo, s.entries, n, name, p);
            },
        }
    }
}

/// Of the same disk, the inventory without unclaimed target directories begins with what Git
/// registers, followed by leftovers alone; the inventory with them begins with that one, followed by
/// unclaimed target directories alone.
pub proof fn unclaimed_targets_come_last(
    repo: RepoView,
    registered: Seq<EntryView>,
    seen: Seq<SightingView>,
)
    ensures
        ({
            let without = surveyed(repo, registered, false, seen).entries;
            let with = surveyed(repo, registered, true, seen).entries;
            &&& registered.is_prefix_of(without)
            &&& without.is_prefix_of(with)
            &&& forall|j: int|
                registered.len() <= j < without.len() ==> (#[trigger] without[j]).kind
                    == Kind::Stale
            &&& forall|j: int|
                without.len() <= j < with.len() ==> (#[trigger] with[j]).kind == Kind::Orphan
            &&& forall|j: int|
                registered.len() <= j < with.len() ==> (#[trigger] with[j]).branch is None
                    && !with[j].locked
        }),
    decreases seen.len(),
{
    open_survey_holds_leftovers(repo, registered, false, seen);
    survey_keeps_entries_apart(repo, registered, true, seen);
    surveys_differ_by_unclaimed_targets(repo, registered, seen);
    let with = surveyed(repo, registered, true, seen).entries;
    assert forall|j: int| registered.len() <= j < with.len() implies (
    #[trigger] with[j]).branch is None && !with[j].locked by {
        assert(is_addition(repo, with[j]));
    }
}

/// Only unclaimed target directories, at the end, tell an inventory with them from one without.
proof fn surveys_differ_by_unclaimed_targets(
    repo: RepoView,
    registered: Seq<EntryView>,
    seen: Seq<SightingView>,
)
    ensures
        ({
            let without = surveyed(repo, registered, false, seen);
            let with = surveyed(repo, registered, true, seen);
            &&& !without.orphans
            &&& with.orphans
            &&& without.closed == with.closed
            &&& !with.closed ==> with.entries == without.entries
            &&& without.entries.is_prefix_of(with.entries)
            &&& forall|j: int|
                without.entries.len() <= j < with.entries.len() ==> (
                #[trigger] with.entries[j]).kind == Kind::Orphan
        }),
    decreases seen.len(),
{
    if seen.len() == 0 {
        assert(registered =~= registered.subrange(0, registered.len() as int));
    } else {
        surveys_differ_by_unclaimed_targets(repo, registered, seen.drop_last());
        let was = surveyed(repo, registered, false, seen.drop_last()).entries;
        let had = surveyed(repo, registered, true, seen.drop_last()).entries;
        let without = surveyed(repo, registered, false, seen).entries;
        let with = surveyed(repo, registered, true, seen).entries;
        assert(was =~= had.subrange(0, was.len() as int));
        assert(without =~= with.subrange(0, without.len() as int));
    }
}

/// The main checkout's target directory is never taken for an unclaimed one.
pub proof fn main_target_is_no_orphan(repo: RepoView, s: SurveyView, p: Seq<Seq<u8>>)
    ensures
        counted(repo, s, SightingView::Target(bytes::utf8("main"@), p)).entries == s.entries,
{
}

/// A directory with a repository of its own is never taken for a leftover.
pub proof fn independent_clone_is_no_leftover(repo: RepoView, s: SurveyView, l: LeftoverView)
    requires
        l.git == Mark::Other,
    ensures
        counted(repo, s, SightingView::Directory(l)) == s,
{
}

/// A target directory that overlaps that of any entry is never taken for an unclaimed one.
pub proof fn claimed_target_is_no_orphan(
    repo: RepoView,
    s: SurveyView,
    name: Seq<u8>,
    p: Seq<Seq<u8>>,
    i: int,
)
    requires
        0 <= i < s.entries.len(),
        path::overlap(p, s.entries[i].target) || path::overlap(p, s.entries[i].path),
    ensures
        counted(repo, s, SightingView::Target(name, p)).entries == s.entries,
{
}

} // verus!
