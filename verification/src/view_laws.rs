//! Values as they are spoken of hold all that the types hold.

use crate::args::Args;
use crate::disk::{Node, Visit, VisitView};
use crate::entry::{Entry, Registration};
use crate::execute::{Answer, Reply, Request, Wish};
use crate::inventory::{GitMark, Leftover, Mark, Sighting, SightingView};
use crate::plan::{Facts, Item, Plan};
use crate::path;
use crate::path::AbsPath;
use crate::picker::{Effect, Outcome};
use crate::session::{News, Order, Report, Task};
use vstd::prelude::*;

verus! {

/// An entry is spoken of with its path, branch, target directory, kind and lock.
pub proof fn entries_are_spoken_of_in_full(e: Entry)
    ensures
        e@.path == e.path@,
        e@.target == e.target@,
        e@.kind == e.kind,
        e@.locked == e.locked,
        e.branch matches Some(b) ==> e@.branch == Some(b@),
        e.branch is None ==> e@.branch is None,
{
}

/// A listed worktree is spoken of with its path, branches and lock.
pub proof fn registrations_are_spoken_of_in_full(r: Registration, i: int)
    ensures
        r@.path == r.path@,
        r@.locked == r.locked,
        r@.branches.len() == r.branches@.len(),
        0 <= i < r.branches@.len() ==> r@.branches[i] == r.branches@[i]@,
{
}

/// What was learnt of an entry is spoken of as it was learnt.
pub proof fn facts_are_spoken_of_in_full(f: Facts)
    ensures
        f@.is_dir == f.is_dir,
        f@.exists == f.exists,
        f@.target_is_dir == f.target_is_dir,
        f.dirty matches Ok(d) ==> f@.dirty == Ok::<bool, Seq<char>>(d),
        f.dirty matches Err(m) ==> f@.dirty == Err::<bool, Seq<char>>(m@),
        f.state matches Ok(s) ==> f@.state == Ok::<Seq<char>, Seq<char>>(s@),
        f.state matches Err(m) ==> f@.state == Err::<Seq<char>, Seq<char>>(m@),
        f.clear is Ok <==> f@.clear is Ok,
        f.clear matches Err(m) ==> f@.clear == Err::<(), Seq<char>>(m@),
        f.target_clear is Ok <==> f@.target_clear is Ok,
        f.target_clear matches Err(m) ==> f@.target_clear == Err::<(), Seq<char>>(m@),
{
}

/// A plan is spoken of with all its items, errors and notes, in order.
pub proof fn plans_are_spoken_of_in_full(p: Plan, item: Item, k: int)
    ensures
        p@.items.len() == p.items@.len(),
        p@.errors.len() == p.errors@.len(),
        p@.notes.len() == p.notes@.len(),
        0 <= k < p.items@.len() ==> p@.items[k] == p.items@[k]@,
        0 <= k < p.errors@.len() ==> p@.errors[k] == p.errors@[k]@,
        0 <= k < p.notes@.len() ==> p@.notes[k] == p.notes@[k]@,
        item@.entry == item.entry@,
        item@.target == item.target,
{
}

/// Options are spoken of as they were given.
pub proof fn options_are_spoken_of_in_full(a: Args, k: int)
    ensures
        a@.worktrees.len() == a.worktrees@.len(),
        0 <= k < a.worktrees@.len() ==> a@.worktrees[k] == a.worktrees@[k]@,
        a@.dry_run == a.dry_run,
        a@.yes == a.yes,
        a@.force == a.force,
        a@.sudo == a.sudo,
        a@.quiet == a.quiet,
        a@.keep_target == a.keep_target,
        a@.delete_branch == a.delete_branch,
        a@.list == a.list,
        a@.stale == a.stale,
        a@.orphans == a.orphans,
        a@.repo == a.repo@,
{
}

/// What was met on a walk is spoken of as it was met.
pub proof fn visits_are_spoken_of_in_full(m: String, n: Node)
    ensures
        Visit::Unreadable(m)@ == VisitView::Unreadable(m@),
        Visit::Unknown(m)@ == VisitView::Unknown(m@),
        Visit::Node(n)@ == (VisitView::Node {
            path: n.path@,
            device: n.device,
            owner: n.owner,
            is_dir: n.is_dir,
            writable: n.writable,
        }),
{
}

/// What was found on the disk is spoken of as it was found.
pub proof fn sightings_are_spoken_of_in_full(l: Leftover, name: Vec<u8>, p: AbsPath)
    ensures
        Sighting::Directory(l)@ == SightingView::Directory(l@),
        Sighting::Target(name, p)@ == SightingView::Target(name@, p@),
        l@.path == l.path@,
        l@.target == l.target@,
        l@.target_is_dir == l.target_is_dir,
        l@.configured == l.configured,
        l@.git == l.git@,
        GitMark::Missing@ == Mark::Missing,
        GitMark::Other@ == Mark::Other,
        GitMark::File(None)@ == Mark::File(None),
        GitMark::File(Some(p))@ == Mark::File(Some(p@)),
{
}

/// What an execution asks for, and how it is answered, is spoken of as it is.
pub proof fn requests_are_spoken_of_in_full(
    t: String,
    u: String,
    p: AbsPath,
    force: bool,
    n: u64,
    list: Vec<Entry>,
    k: int,
)
    ensures
        Request::Say(t)@ == Wish::Say(t@),
        Request::Warn(t)@ == Wish::Warn(t@),
        Request::GitRemove(p, force)@ == Wish::GitRemove(p@, force),
        Request::Registered@ == Wish::Registered,
        Request::Measure(p)@ == Wish::Measure(p@),
        Request::Remove(p)@ == Wish::Remove(p@),
        Request::Inventory@ == Wish::Inventory,
        Request::RemoveDir(p)@ == Wish::RemoveDir(p@),
        Request::DeleteBranch(t, force)@ == Wish::DeleteBranch(t@, force),
        Request::Finish@ == Wish::Finish,
        Request::Fail(t)@ == Wish::Fail(t@),
        Reply::Done@ == Answer::Done,
        (Reply::Failed { head: t, whole: u })@ == (Answer::Failed { head: t@, whole: u@ }),
        Reply::Size(n)@ == Answer::Size(n),
        Reply::Entries(list)@ is Entries,
        Reply::Entries(list)@->Entries_0.len() == list@.len(),
        0 <= k < list@.len() ==> Reply::Entries(list)@->Entries_0[k] == list@[k]@,
{
}

/// What a run asks for, what becomes of it, and what comes of a key is spoken of as it is.
pub proof fn tasks_are_spoken_of_in_full(
    t: String,
    b: bool,
    a: Args,
    s: crate::picker::Selection,
)
    ensures
        Task::Inventory(b)@ == Order::Inventory(b),
        Task::List(b)@ == Order::List(b),
        Task::Choose(a)@ == Order::Choose(a@),
        Task::Plan(a)@ == Order::Plan(a@),
        Task::Describe@ == Order::Describe,
        Task::Execute(a)@ == Order::Execute(a@),
        Task::Finish@ == Order::Finish,
        Task::Fail(t)@ == Order::Fail(t@),
        Report::Done@ == News::Done,
        Report::Failed(t)@ == News::Failed(t@),
        Report::Chosen(None)@ == News::Chosen(None),
        Report::Chosen(Some(s))@ == News::Chosen(Some((path::views(s.paths@), s.force))),
        Outcome::Stay@ == Effect::Stay,
        Outcome::Quit@ == Effect::Quit,
        Outcome::Confirm(s)@ == Effect::Confirm(path::views(s.paths@), s.force),
        Outcome::Check(a)@ == Effect::Check(a@),
{
}

} // verus!
