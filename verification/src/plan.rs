//! The removal plan: what goes, what is kept, and what stands in the way.

use crate::args::{Args, ArgsView};
use crate::bytes;
use crate::entry;
use crate::entry::{Entry, EntryView, Kind};
use crate::path;
use crate::path::AbsPath;
use crate::repo::{Repo, RepoView};
use crate::safety;
use crate::text;
use vstd::prelude::*;
use vstd::string::*;

verus! {

/// What was learnt of an entry before it is planned.
pub struct Facts {
    /// Its directory is there.
    pub is_dir: bool,
    /// It holds changes, or why that could not be told.
    pub dirty: Result<bool, String>,
    /// Its state, or why that could not be told.
    pub state: Result<String, String>,
    /// Something is there at its path.
    pub exists: bool,
    /// All of it can be removed, or why not.
    pub clear: Result<(), String>,
    /// Its target directory is there.
    pub target_is_dir: bool,
    /// All of its target directory can be removed, or why not.
    pub target_clear: Result<(), String>,
}

/// What was learnt of an entry, as a value.
pub struct FactsView {
    pub is_dir: bool,
    pub dirty: Result<bool, Seq<char>>,
    pub state: Result<Seq<char>, Seq<char>>,
    pub exists: bool,
    pub clear: Result<(), Seq<char>>,
    pub target_is_dir: bool,
    pub target_clear: Result<(), Seq<char>>,
}

/// The contents of what was learnt with an error.
pub open spec fn clearance(r: Result<(), String>) -> Result<(), Seq<char>> {
    match r {
        Ok(()) => Ok(()),
        Err(m) => Err(m@),
    }
}

impl View for Facts {
    type V = FactsView;

    open spec fn view(&self) -> FactsView {
        FactsView {
            is_dir: self.is_dir,
            dirty: match self.dirty {
                Ok(d) => Ok(d),
                Err(m) => Err(m@),
            },
            state: match self.state {
                Ok(s) => Ok(s@),
                Err(m) => Err(m@),
            },
            exists: self.exists,
            clear: clearance(self.clear),
            target_is_dir: self.target_is_dir,
            target_clear: clearance(self.target_clear),
        }
    }
}

/// The contents of a list of facts.
pub open spec fn facts_views(list: Seq<Facts>) -> Seq<FactsView> {
    Seq::new(list.len(), |i: int| list[i]@)
}

/// One thing to remove.
#[derive(Debug)]
pub struct Item {
    /// The entry.
    pub entry: Entry,
    /// Its target directory goes too.
    pub target: bool,
}

/// One thing to remove, as a value.
#[verifier::ext_equal]
pub struct ItemView {
    pub entry: EntryView,
    pub target: bool,
}

impl View for Item {
    type V = ItemView;

    open spec fn view(&self) -> ItemView {
        ItemView { entry: self.entry@, target: self.target }
    }
}

/// The contents of a list of items.
pub open spec fn item_views(list: Seq<Item>) -> Seq<ItemView> {
    Seq::new(list.len(), |i: int| list[i]@)
}

/// A removal plan.
#[derive(Debug)]
pub struct Plan {
    /// What is to be removed, in order.
    pub items: Vec<Item>,
    /// What stands in the way of the whole plan.
    pub errors: Vec<String>,
    /// What else there is to know.
    pub notes: Vec<String>,
}

/// A removal plan, as a value.
#[verifier::ext_equal]
pub struct PlanView {
    pub items: Seq<ItemView>,
    pub errors: Seq<Seq<char>>,
    pub notes: Seq<Seq<char>>,
}

impl View for Plan {
    type V = PlanView;

    open spec fn view(&self) -> PlanView {
        PlanView {
            items: item_views(self.items@),
            errors: text::views(self.errors@),
            notes: text::views(self.notes@),
        }
    }
}

// ---------------------------------------------------------------------------------------------
// Selection
// ---------------------------------------------------------------------------------------------

/// Some entry lies at `at`.
pub open spec fn is_path_of_some(entries: Seq<EntryView>, at: Seq<Seq<u8>>) -> bool {
    exists|i: int| 0 <= i < entries.len() && (#[trigger] entries[i]).path == at
}

/// Entry `i` is meant by the argument `arg`, which resolves to `at`: by its path, or, where that
/// is no entry's path, by its name.
pub open spec fn is_meant(entries: Seq<EntryView>, arg: Seq<u8>, at: Seq<Seq<u8>>, i: int) -> bool {
    if is_path_of_some(entries, at) {
        entries[i].path == at
    } else {
        path::file_name(entries[i].path) == Some(arg)
    }
}

/// Entry `i` is meant by an argument, and no other is.
pub open spec fn is_picked(entries: Seq<EntryView>, arg: Seq<u8>, at: Seq<Seq<u8>>, i: int) -> bool {
    &&& 0 <= i < entries.len()
    &&& is_meant(entries, arg, at, i)
    &&& forall|j: int| 0 <= j < entries.len() && #[trigger] is_meant(entries, arg, at, j) ==> j == i
}

/// An argument picks an entry.
pub open spec fn picks_one(entries: Seq<EntryView>, arg: Seq<u8>, at: Seq<Seq<u8>>) -> bool {
    exists|i: int| is_picked(entries, arg, at, i)
}

/// Entry `i` is selected: picked by an argument, or by its kind.
pub open spec fn is_chosen(
    entries: Seq<EntryView>,
    args: ArgsView,
    resolved: Seq<Seq<Seq<u8>>>,
    i: int,
) -> bool {
    ||| args.stale && entries[i].kind == Kind::Stale
    ||| args.orphans && entries[i].kind == Kind::Orphan
    ||| exists|k: int|
        0 <= k < args.worktrees.len() && #[trigger] is_picked(
            entries,
            args.worktrees[k],
            resolved[k],
            i,
        )
}

/// What is said of an argument that picks no entry.
pub open spec fn unknown(arg: Seq<u8>) -> Seq<char> {
    text::shown(arg) + ": unknown or ambiguous worktree"@
}

/// The complaints about the first `n` arguments.
pub open spec fn unmatched(
    entries: Seq<EntryView>,
    args: ArgsView,
    resolved: Seq<Seq<Seq<u8>>>,
    n: nat,
) -> Seq<Seq<char>>
    decreases n,
{
    if n == 0 {
        Seq::empty()
    } else {
        let before = unmatched(entries, args, resolved, (n - 1) as nat);
        if picks_one(entries, args.worktrees[n - 1], resolved[n - 1]) {
            before
        } else {
            before.push(unknown(args.worktrees[n - 1]))
        }
    }
}

// ---------------------------------------------------------------------------------------------
// Checks
// ---------------------------------------------------------------------------------------------

/// Another entry lies below `at`.
pub open spec fn contains_other(entries: Seq<EntryView>, at: Seq<Seq<u8>>) -> bool {
    exists|i: int|
        0 <= i < entries.len() && (#[trigger] entries[i]).path != at && path::within(
            entries[i].path,
            at,
        )
}

/// Why an entry is protected from removal, whatever is forced.
pub open spec fn protection_of(
    repo: RepoView,
    entries: Seq<EntryView>,
    e: EntryView,
) -> Option<Seq<char>> {
    if e.kind == Kind::Main {
        Some("main checkout is protected"@)
    } else if e.locked {
        Some("locked worktree; unlock it explicitly first"@)
    } else if path::within(repo.root, e.path) || path::within(repo.here, e.path) {
        Some(
            "cannot remove the current working directory or its ancestor; run from the main checkout"@,
        )
    } else if path::within(repo.common, e.path) || path::within(repo.main, e.path) {
        Some("repository metadata is protected"@)
    } else if contains_other(entries, e.path) {
        Some("contains another worktree or target candidate"@)
    } else {
        None
    }
}

/// A state in which no commit is lost with a worktree.
pub open spec fn is_saved(state: Seq<char>) -> bool {
    state == "merged"@ || state == "pushed"@
}

/// Why an entry is not to be removed, for what it is and holds.
pub open spec fn objection_of(
    repo: RepoView,
    entries: Seq<EntryView>,
    e: EntryView,
    force: bool,
    f: FactsView,
) -> Option<Seq<char>> {
    match e.kind {
        Kind::Worktree => if !f.is_dir {
            Some("missing worktree; use git worktree prune to clear its registration"@)
        } else {
            match f.dirty {
                Err(m) => Some(m),
                Ok(dirty) => if dirty && !force {
                    Some("uncommitted or untracked files; pass --force to discard"@)
                } else {
                    match f.state {
                        Err(m) => Some(m),
                        Ok(state) => if !force && !is_saved(state) {
                            Some("commits are local-only; push them or pass --force"@)
                        } else {
                            None
                        },
                    }
                },
            }
        },
        Kind::Stale => if !force {
            Some(
                "stale files cannot be checked for uncommitted work; inspect them and pass --force"@,
            )
        } else {
            None
        },
        Kind::Orphan => if !safety::is_target_safe(repo, e, entries) {
            Some("unsafe orphan target path"@)
        } else {
            None
        },
        Kind::Main => None,
    }
}

/// Why an entry cannot be removed.
pub open spec fn bar_of(
    repo: RepoView,
    entries: Seq<EntryView>,
    e: EntryView,
    force: bool,
    f: FactsView,
) -> Option<Seq<char>> {
    match protection_of(repo, entries, e) {
        Some(m) => Some(m),
        None => match objection_of(repo, entries, e, force, f) {
            Some(m) => Some(m),
            None => if f.exists {
                match f.clear {
                    Err(m) => Some(m),
                    Ok(()) => None,
                }
            } else {
                None
            },
        },
    }
}

/// The target directory of an entry is to go with it, given whether it is there: that is not
/// forbidden, it is safe, and the user is not in it.
pub open spec fn target_goes(
    repo: RepoView,
    entries: Seq<EntryView>,
    e: EntryView,
    args: ArgsView,
    is_dir: bool,
) -> bool {
    &&& !args.keep_target
    &&& e.kind != Kind::Orphan
    &&& is_dir
    &&& safety::is_target_safe(repo, e, entries)
    &&& !path::within(repo.here, e.target)
}

/// What the plan says of a selected entry.
pub enum Verdict {
    /// The plan is blocked, for this reason.
    Refused(Seq<char>),
    /// It goes, with or without its target directory, with these notes.
    Granted(bool, Seq<Seq<char>>),
}

/// The notes on an entry that goes.
pub open spec fn notes_of(e: EntryView, args: ArgsView, f: FactsView, target: bool) -> Seq<
    Seq<char>,
> {
    let kept: Seq<Seq<char>> = if !target && e.kind != Kind::Orphan && f.target_is_dir {
        seq![
            "KEEP target (shared, protected, outside base or --keep-target): "@ + path::display(
                e.target,
            ),
        ]
    } else {
        Seq::empty()
    };
    match e.branch {
        Some(b) => if args.delete_branch {
            kept.push(
                "Delete local branch "@ + b
                    + " after removing checkout (Git checks merge unless --force)."@,
            )
        } else {
            kept
        },
        None => kept,
    }
}

/// What the plan says of a selected entry.
pub open spec fn verdict_of(
    repo: RepoView,
    entries: Seq<EntryView>,
    e: EntryView,
    args: ArgsView,
    f: FactsView,
) -> Verdict {
    match bar_of(repo, entries, e, args.force, f) {
        Some(m) => Verdict::Refused(path::display(e.path) + ": "@ + m),
        None => {
            let target = target_goes(repo, entries, e, args, f.target_is_dir);
            match f.target_clear {
                Err(m) => if target {
                    Verdict::Refused(path::display(e.target) + ": "@ + m)
                } else {
                    Verdict::Granted(target, notes_of(e, args, f, target))
                },
                Ok(()) => Verdict::Granted(target, notes_of(e, args, f, target)),
            }
        },
    }
}

/// A plan with one more selected entry.
pub open spec fn extended(p: PlanView, e: EntryView, v: Verdict) -> PlanView {
    match v {
        Verdict::Refused(m) => PlanView { errors: p.errors.push(m), ..p },
        Verdict::Granted(target, notes) => PlanView {
            items: p.items.push(ItemView { entry: e, target }),
            notes: p.notes + notes,
            ..p
        },
    }
}

/// The plan for the first `n` entries.
pub open spec fn planned_to(
    repo: RepoView,
    entries: Seq<EntryView>,
    args: ArgsView,
    resolved: Seq<Seq<Seq<u8>>>,
    facts: Seq<FactsView>,
    n: nat,
) -> PlanView
    decreases n,
{
    if n == 0 {
        PlanView {
            items: Seq::empty(),
            errors: unmatched(entries, args, resolved, args.worktrees.len()),
            notes: Seq::empty(),
        }
    } else {
        let i = n - 1;
        let before = planned_to(repo, entries, args, resolved, facts, i as nat);
        if is_chosen(entries, args, resolved, i) {
            extended(before, entries[i], verdict_of(repo, entries, entries[i], args, facts[i]))
        } else {
            before
        }
    }
}

/// The plan: the arguments are matched first, then the selected entries are checked in order.
pub open spec fn planned(
    repo: RepoView,
    entries: Seq<EntryView>,
    args: ArgsView,
    resolved: Seq<Seq<Seq<u8>>>,
    facts: Seq<FactsView>,
) -> PlanView {
    planned_to(repo, entries, args, resolved, facts, entries.len())
}

// ---------------------------------------------------------------------------------------------
// Planning
// ---------------------------------------------------------------------------------------------

/// What the arguments and the selecting options choose.
pub struct Selected {
    /// Whether each entry is selected.
    pub marks: Vec<bool>,
    /// Complaints about arguments that pick no entry.
    pub errors: Vec<String>,
}

/// Finds the one entry that an argument means.
fn pick(entries: &[Entry], arg: &[u8], at: &AbsPath) -> (r: Option<usize>)
    ensures
        r is Some <==> picks_one(entry::views(entries@), arg@, at@),
        r matches Some(i) ==> is_picked(entry::views(entries@), arg@, at@, i as int),
{
    let ghost all = entry::views(entries@);
    let mut by_path: bool = false;
    let mut i: usize = 0;
    while i < entries.len()
        invariant
            i <= entries@.len(),
            all == entry::views(entries@),
            by_path ==> is_path_of_some(all, at@),
            !by_path ==> forall|j: int| 0 <= j < i ==> (#[trigger] all[j]).path != at@,
        decreases entries@.len() - i,
    {
        assert(all[i as int] == entries@[i as int]@);
        if entries[i].path.same(at) {
            by_path = true;
        }
        i += 1;
    }
    assert(by_path == is_path_of_some(all, at@));
    let mut found: Option<usize> = None;
    let mut k: usize = 0;
    while k < entries.len()
        invariant
            k <= entries@.len(),
            all == entry::views(entries@),
            by_path == is_path_of_some(all, at@),
            found matches Some(x) ==> x < k && is_meant(all, arg@, at@, x as int),
            found matches Some(x) ==> forall|j: int|
                0 <= j < k && #[trigger] is_meant(all, arg@, at@, j) ==> j == x,
            found is None ==> forall|j: int| 0 <= j < k ==> !#[trigger] is_meant(all, arg@, at@, j),
        decreases entries@.len() - k,
    {
        let e = &entries[k];
        assert(all[k as int] == e@);
        let meant = if by_path {
            e.path.same(at)
        } else {
            match e.path.file_name() {
                Some(n) => bytes::same(n.as_slice(), arg),
                None => false,
            }
        };
        assert(meant == is_meant(all, arg@, at@, k as int));
        if meant {
            if let Some(x) = found {
                proof {
                    assert(is_meant(all, arg@, at@, x as int));
                    assert(is_meant(all, arg@, at@, k as int));
                }
                return None;
            }
            found = Some(k);
        }
        k += 1;
    }
    proof {
        match found {
            Some(x) => {
                assert(is_picked(all, arg@, at@, x as int));
            },
            None => {},
        }
    }
    found
}

/// Matches the arguments, given what each resolves to, and applies the selecting options.
pub fn selected(entries: &[Entry], args: &Args, resolved: &[AbsPath]) -> (r: Selected)
    requires
        resolved@.len() == args.worktrees@.len(),
    ensures
        r.marks@.len() == entries@.len(),
        forall|i: int|
            0 <= i < entries@.len() ==> #[trigger] r.marks@[i] == is_chosen(
                entry::views(entries@),
                args@,
                path::views(resolved@),
                i,
            ),
        text::views(r.errors@) == unmatched(
            entry::views(entries@),
            args@,
            path::views(resolved@),
            args@.worktrees.len(),
        ),
{
    let ghost all = entry::views(entries@);
    let ghost a = args@;
    let ghost at = path::views(resolved@);
    let mut marks: Vec<bool> = Vec::new();
    let mut i: usize = 0;
    while i < entries.len()
        invariant
            i <= entries@.len(),
            marks@.len() == i,
            all == entry::views(entries@),
            a == args@,
            forall|j: int|
                0 <= j < i ==> #[trigger] marks@[j] == (a.stale && all[j].kind == Kind::Stale
                    || a.orphans && all[j].kind == Kind::Orphan),
        decreases entries@.len() - i,
    {
        assert(all[i as int] == entries@[i as int]@);
        let kind = entries[i].kind;
        marks.push((args.stale && kind == Kind::Stale) || (args.orphans && kind == Kind::Orphan));
        i += 1;
    }
    let mut errors: Vec<String> = Vec::new();
    let mut k: usize = 0;
    assert(text::views(errors@) =~= unmatched(all, a, at, 0));
    while k < args.worktrees.len()
        invariant
            k <= args.worktrees@.len(),
            resolved@.len() == args.worktrees@.len(),
            marks@.len() == entries@.len(),
            all == entry::views(entries@),
            a == args@,
            at == path::views(resolved@),
            forall|j: int|
                0 <= j < all.len() ==> #[trigger] marks@[j] == (a.stale && all[j].kind == Kind::Stale
                    || a.orphans && all[j].kind == Kind::Orphan || exists|m: int|
                    0 <= m < k && #[trigger] is_picked(all, a.worktrees[m], at[m], j)),
            text::views(errors@) == unmatched(all, a, at, k as nat),
        decreases args.worktrees@.len() - k,
    {
        let arg = args.worktrees[k].as_slice();
        assert(a.worktrees[k as int] == arg@);
        assert(at[k as int] == resolved@[k as int]@);
        let ghost held = marks@;
        let ghost said = text::views(errors@);
        match pick(entries, arg, &resolved[k]) {
            Some(x) => {
                marks.set(x, true);
                assert(is_picked(all, a.worktrees[k as int], at[k as int], x as int));
            },
            None => {
                let mut m = text::show(arg);
                m.append(": unknown or ambiguous worktree");
                let ghost added = m@;
                errors.push(m);
                assert(text::views(errors@) =~= said.push(added));
            },
        }
        proof {
            assert forall|j: int| 0 <= j < all.len() implies #[trigger] marks@[j] == (a.stale
                && all[j].kind == Kind::Stale || a.orphans && all[j].kind == Kind::Orphan
                || exists|m: int|
                0 <= m < k + 1 && #[trigger] is_picked(all, a.worktrees[m], at[m], j)) by {
                let old_mark = held[j];
                if exists|m: int| 0 <= m < k && #[trigger] is_picked(all, a.worktrees[m], at[m], j) {
                    let m = choose|m: int|
                        0 <= m < k && #[trigger] is_picked(all, a.worktrees[m], at[m], j);
                    assert(0 <= m < k + 1 && is_picked(all, a.worktrees[m], at[m], j));
                }
                if is_picked(all, a.worktrees[k as int], at[k as int], j) {
                    assert(picks_one(all, a.worktrees[k as int], at[k as int]));
                    assert(is_meant(all, a.worktrees[k as int], at[k as int], j));
                    assert(marks@[j]);
                }
            }
        }
        k += 1;
    }
    Selected { marks, errors }
}

/// Tells whether another entry lies below `at`.
fn holds_another(entries: &[Entry], at: &AbsPath) -> (r: bool)
    ensures
        r == contains_other(entry::views(entries@), at@),
{
    let ghost all = entry::views(entries@);
    let mut i: usize = 0;
    while i < entries.len()
        invariant
            i <= entries@.len(),
            all == entry::views(entries@),
            forall|j: int|
                0 <= j < i ==> !((#[trigger] all[j]).path != at@ && path::within(all[j].path, at@)),
        decreases entries@.len() - i,
    {
        let other = &entries[i];
        assert(all[i as int] == other@);
        if !other.path.same(at) && other.path.starts_with(at) {
            return true;
        }
        i += 1;
    }
    false
}

impl Repo {
    /// Says why an entry is protected from removal, whatever is forced.
    pub fn protection(&self, entries: &[Entry], e: &Entry) -> (r: Option<String>)
        ensures
            text::optional(r) == protection_of(self@, entry::views(entries@), e@),
    {
        if e.kind == Kind::Main {
            return Some("main checkout is protected".to_owned());
        }
        if e.locked {
            return Some("locked worktree; unlock it explicitly first".to_owned());
        }
        if self.root().starts_with(&e.path) || self.here().starts_with(&e.path) {
            return Some(
                "cannot remove the current working directory or its ancestor; run from the main checkout".to_owned(),
            );
        }
        if self.common().starts_with(&e.path) || self.main().starts_with(&e.path) {
            return Some("repository metadata is protected".to_owned());
        }
        if holds_another(entries, &e.path) {
            return Some("contains another worktree or target candidate".to_owned());
        }
        None
    }

    /// Says why an entry is not to be removed, for what it is and holds.
    fn objection(&self, entries: &[Entry], e: &Entry, force: bool, f: &Facts) -> (r: Option<String>)
        ensures
            text::optional(r) == objection_of(self@, entry::views(entries@), e@, force, f@),
    {
        match e.kind {
            Kind::Worktree => {
                if !f.is_dir {
                    return Some(
                        "missing worktree; use git worktree prune to clear its registration".to_owned(),
                    );
                }
                match &f.dirty {
                    Err(m) => {
                        return Some(m.clone());
                    },
                    Ok(dirty) => {
                        if *dirty && !force {
                            return Some(
                                "uncommitted or untracked files; pass --force to discard".to_owned(),
                            );
                        }
                    },
                }
                match &f.state {
                    Err(m) => Some(m.clone()),
                    Ok(state) => {
                        if !force && !text::same(state.as_str(), "merged") && !text::same(
                            state.as_str(),
                            "pushed",
                        ) {
                            Some("commits are local-only; push them or pass --force".to_owned())
                        } else {
                            None
                        }
                    },
                }
            },
            Kind::Stale => {
                if !force {
                    Some(
                        "stale files cannot be checked for uncommitted work; inspect them and pass --force".to_owned(),
                    )
                } else {
                    None
                }
            },
            Kind::Orphan => {
                if !self.target_safe(e, entries) {
                    Some("unsafe orphan target path".to_owned())
                } else {
                    None
                }
            },
            Kind::Main => None,
        }
    }

    /// Says why an entry cannot be removed.
    fn bar(&self, entries: &[Entry], e: &Entry, force: bool, f: &Facts) -> (r: Option<String>)
        ensures
            text::optional(r) == bar_of(self@, entry::views(entries@), e@, force, f@),
    {
        if let Some(m) = self.protection(entries, e) {
            return Some(m);
        }
        if let Some(m) = self.objection(entries, e, force, f) {
            return Some(m);
        }
        if f.exists {
            match &f.clear {
                Err(m) => Some(m.clone()),
                Ok(_) => None,
            }
        } else {
            None
        }
    }

    /// Tells whether the target directory of an entry is to go with it, given whether it is there.
    pub fn takes_target(&self, entries: &[Entry], e: &Entry, args: &Args, is_dir: bool) -> (r: bool)
        ensures
            r == target_goes(self@, entry::views(entries@), e@, args@, is_dir),
    {
        !args.keep_target && e.kind != Kind::Orphan && is_dir && self.target_safe(e, entries)
            && !self.here().starts_with(&e.target)
    }

    /// Takes a selected entry into a plan.
    fn consider(&self, plan: Plan, entries: &[Entry], e: &Entry, args: &Args, f: &Facts) -> (r: Plan)
        ensures
            r@ == extended(
                plan@,
                e@,
                verdict_of(self@, entry::views(entries@), e@, args@, f@),
            ),
    {
        let ghost before = plan@;
        let Plan { mut items, mut errors, mut notes } = plan;
        let ghost v = verdict_of(self@, entry::views(entries@), e@, args@, f@);
        if let Some(m) = self.bar(entries, e, args.force, f) {
            let mut line = e.path.display();
            line.append(": ");
            line.append(m.as_str());
            let ghost added = line@;
            errors.push(line);
            assert(text::views(errors@) =~= before.errors.push(added));
            return Plan { items, errors, notes };
        }
        let target = self.takes_target(entries, e, args, f.target_is_dir);
        let ghost said: Seq<Seq<char>> = Seq::empty();
        if target {
            if let Err(m) = &f.target_clear {
                let mut line = e.target.display();
                line.append(": ");
                line.append(m.as_str());
                let ghost added = line@;
                errors.push(line);
                assert(text::views(errors@) =~= before.errors.push(added));
                return Plan { items, errors, notes };
            }
        } else if e.kind != Kind::Orphan && f.target_is_dir {
            let mut line = "KEEP target (shared, protected, outside base or --keep-target): ".to_owned();
            line.append(e.target.display().as_str());
            proof {
                said = said.push(line@);
            }
            notes.push(line);
            assert(text::views(notes@) =~= before.notes + said);
        }
        assert(text::views(notes@) =~= before.notes + said);
        if args.delete_branch {
            if let Some(b) = &e.branch {
                let mut line = "Delete local branch ".to_owned();
                line.append(b.as_str());
                line.append(" after removing checkout (Git checks merge unless --force).");
                proof {
                    said = said.push(line@);
                }
                notes.push(line);
                assert(text::views(notes@) =~= before.notes + said);
            }
        }
        assert(said =~= notes_of(e@, args@, f@, target));
        let item = Item { entry: e.clone(), target };
        let ghost added = item@;
        items.push(item);
        assert(item_views(items@) =~= before.items.push(added));
        Plan { items, errors, notes }
    }

    /// Makes the removal plan for the selected entries, from what each argument resolves to and
    /// from what was learnt of each entry. What was learnt of an entry that is not selected does
    /// not matter.
    pub fn plan(
        &self,
        entries: &[Entry],
        args: &Args,
        resolved: &[AbsPath],
        facts: &[Facts],
    ) -> (r: Plan)
        requires
            resolved@.len() == args.worktrees@.len(),
            facts@.len() == entries@.len(),
        ensures
            r@ == planned(
                self@,
                entry::views(entries@),
                args@,
                path::views(resolved@),
                facts_views(facts@),
            ),
    {
        let ghost all = entry::views(entries@);
        let ghost at = path::views(resolved@);
        let ghost known = facts_views(facts@);
        let Selected { marks, errors } = selected(entries, args, resolved);
        let mut plan = Plan { items: Vec::new(), errors, notes: Vec::new() };
        let mut i: usize = 0;
        assert(plan@ =~= planned_to(self@, all, args@, at, known, 0));
        while i < entries.len()
            invariant
                i <= entries@.len(),
                facts@.len() == entries@.len(),
                marks@.len() == entries@.len(),
                all == entry::views(entries@),
                at == path::views(resolved@),
                known == facts_views(facts@),
                forall|j: int|
                    0 <= j < entries@.len() ==> #[trigger] marks@[j] == is_chosen(all, args@, at, j),
                plan@ == planned_to(self@, all, args@, at, known, i as nat),
            decreases entries@.len() - i,
        {
            assert(all[i as int] == entries@[i as int]@);
            assert(known[i as int] == facts@[i as int]@);
            if marks[i] {
                plan = self.consider(plan, entries, &entries[i], args, &facts[i]);
            }
            i += 1;
        }
        plan
    }
}

/// The lines for one thing to remove.
pub open spec fn item_lines(item: ItemView) -> Seq<Seq<char>> {
    let first = "REMOVE "@ + entry::kind_word(item.entry.kind) + ": "@ + path::display(
        item.entry.path,
    );
    if item.target {
        seq![first, "  cargo target: "@ + path::display(item.entry.target)]
    } else {
        seq![first]
    }
}

/// The lines for all things to remove.
pub open spec fn removal_lines(items: Seq<ItemView>) -> Seq<Seq<char>>
    decreases items.len(),
{
    if items.len() == 0 {
        Seq::empty()
    } else {
        removal_lines(items.drop_last()) + item_lines(items.last())
    }
}

/// The lines that describe a plan: the notes, what is to be removed, and what stands in the way.
pub open spec fn plan_lines(p: PlanView) -> Seq<Seq<char>> {
    p.notes + removal_lines(p.items) + Seq::new(
        p.errors.len(),
        |i: int| "BLOCKED: "@ + p.errors[i],
    )
}

/// A plan as it is described.
pub open spec fn description(p: PlanView) -> Seq<char> {
    let lines = plan_lines(p);
    if lines.len() == 0 {
        "Nothing to do."@
    } else {
        text::joined(lines, "\n"@)
    }
}

impl Plan {
    /// Describes the plan.
    pub fn describe(&self) -> (r: String)
        ensures
            r@ == description(self@),
    {
        let ghost p = self@;
        let mut lines: Vec<String> = Vec::new();
        let mut i: usize = 0;
        assert(text::views(lines@) =~= p.notes.take(0));
        while i < self.notes.len()
            invariant
                i <= self.notes@.len(),
                p == self@,
                text::views(lines@) == p.notes.take(i as int),
            decreases self.notes@.len() - i,
        {
            let ghost held = text::views(lines@);
            lines.push(self.notes[i].clone());
            assert(text::views(lines@) =~= held.push(p.notes[i as int]));
            assert(p.notes.take(i + 1) =~= p.notes.take(i as int).push(p.notes[i as int]));
            i += 1;
        }
        assert(p.notes.take(i as int) =~= p.notes);
        let mut k: usize = 0;
        assert(text::views(lines@) =~= p.notes + removal_lines(p.items.take(0)));
        while k < self.items.len()
            invariant
                k <= self.items@.len(),
                p == self@,
                text::views(lines@) == p.notes + removal_lines(p.items.take(k as int)),
            decreases self.items@.len() - k,
        {
            let item = &self.items[k];
            let ghost held = text::views(lines@);
            let mut first = "REMOVE ".to_owned();
            first.append(item.entry.kind.word());
            first.append(": ");
            first.append(item.entry.path.display().as_str());
            let ghost one = first@;
            lines.push(first);
            assert(text::views(lines@) =~= held.push(one));
            if item.target {
                let mut second = "  cargo target: ".to_owned();
                second.append(item.entry.target.display().as_str());
                let ghost two = second@;
                lines.push(second);
                assert(text::views(lines@) =~= held.push(one).push(two));
            }
            proof {
                assert(p.items.take(k + 1).drop_last() =~= p.items.take(k as int));
                assert(p.items.take(k + 1).last() == item@);
                assert(text::views(lines@) =~= held + item_lines(item@));
                assert(held + item_lines(item@) =~= p.notes + removal_lines(p.items.take(k + 1)));
            }
            k += 1;
        }
        assert(p.items.take(k as int) =~= p.items);
        let ghost front = p.notes + removal_lines(p.items);
        let ghost blocked = Seq::new(p.errors.len(), |j: int| "BLOCKED: "@ + p.errors[j]);
        let mut m: usize = 0;
        assert(text::views(lines@) =~= front + blocked.take(0));
        while m < self.errors.len()
            invariant
                m <= self.errors@.len(),
                p == self@,
                blocked == Seq::new(p.errors.len(), |j: int| "BLOCKED: "@ + p.errors[j]),
                text::views(lines@) == front + blocked.take(m as int),
            decreases self.errors@.len() - m,
        {
            let ghost held = text::views(lines@);
            let mut line = "BLOCKED: ".to_owned();
            line.append(self.errors[m].as_str());
            let ghost added = line@;
            lines.push(line);
            assert(text::views(lines@) =~= held.push(added));
            assert(blocked[m as int] == added);
            assert(front + blocked.take(m + 1) =~= held.push(added));
            m += 1;
        }
        assert(blocked.take(m as int) =~= blocked);
        if lines.len() == 0 {
            assert(plan_lines(p).len() == 0) by {
                assert(text::views(lines@).len() == 0);
            }
            return "Nothing to do.".to_owned();
        }
        assert(plan_lines(p).len() > 0) by {
            assert(text::views(lines@).len() > 0);
        }
        text::join(lines.as_slice(), "\n")
    }
}

} // verus!
