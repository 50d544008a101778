//! Carrying out a plan, one request at a time.
//!
//! The execution asks for one thing after another, and decides from each answer what comes next.

use crate::args::{Args, ArgsView};
use crate::entry;
use crate::entry::{Entry, EntryView, Kind};
use crate::path;
use crate::path::AbsPath;
use crate::plan::{Plan, PlanView};
use crate::repo::{Repo, RepoView};
use crate::safety;
use crate::size;
use crate::text;
use vstd::prelude::*;
use vstd::string::*;

verus! {

/// What an execution asks for.
pub enum Request {
    /// Print a line.
    Say(String),
    /// Print a warning.
    Warn(String),
    /// Let Git remove a worktree, with or without force.
    GitRemove(AbsPath, bool),
    /// Read which worktrees Git registers.
    Registered,
    /// Measure a directory.
    Measure(AbsPath),
    /// Remove a directory tree.
    Remove(AbsPath),
    /// Take the inventory again.
    Inventory,
    /// Remove a directory if it is empty.
    RemoveDir(AbsPath),
    /// Let Git delete a branch, with or without force.
    DeleteBranch(String, bool),
    /// Nothing more: the execution has succeeded.
    Finish,
    /// Nothing more: the execution has failed, with this error.
    Fail(String),
}

/// What an execution asks for, as a value.
pub enum Wish {
    Say(Seq<char>),
    Warn(Seq<char>),
    GitRemove(Seq<Seq<u8>>, bool),
    Registered,
    Measure(Seq<Seq<u8>>),
    Remove(Seq<Seq<u8>>),
    Inventory,
    RemoveDir(Seq<Seq<u8>>),
    DeleteBranch(Seq<char>, bool),
    Finish,
    Fail(Seq<char>),
}

impl View for Request {
    type V = Wish;

    open spec fn view(&self) -> Wish {
        match *self {
            Request::Say(s) => Wish::Say(s@),
            Request::Warn(s) => Wish::Warn(s@),
            Request::GitRemove(p, f) => Wish::GitRemove(p@, f),
            Request::Registered => Wish::Registered,
            Request::Measure(p) => Wish::Measure(p@),
            Request::Remove(p) => Wish::Remove(p@),
            Request::Inventory => Wish::Inventory,
            Request::RemoveDir(p) => Wish::RemoveDir(p@),
            Request::DeleteBranch(b, f) => Wish::DeleteBranch(b@, f),
            Request::Finish => Wish::Finish,
            Request::Fail(s) => Wish::Fail(s@),
        }
    }
}

/// How a request was answered.
pub enum Reply {
    /// It was done.
    Done,
    /// It failed: what went wrong, and the same with all that led to it.
    Failed { head: String, whole: String },
    /// With these entries.
    Entries(Vec<Entry>),
    /// With this size.
    Size(u64),
}

/// How a request was answered, as a value.
pub enum Answer {
    Done,
    Failed { head: Seq<char>, whole: Seq<char> },
    Entries(Seq<EntryView>),
    Size(u64),
}

impl View for Reply {
    type V = Answer;

    open spec fn view(&self) -> Answer {
        match *self {
            Reply::Done => Answer::Done,
            Reply::Failed { head, whole } => Answer::Failed { head: head@, whole: whole@ },
            Reply::Entries(l) => Answer::Entries(entry::views(l@)),
            Reply::Size(n) => Answer::Size(n),
        }
    }
}

/// Which answer an execution waits for.
enum Stage {
    Dry,
    Checkout,
    Refused(String),
    OrphanSize,
    Place,
    Live,
    TargetSize,
    Target,
    Parent,
    Branch,
    Kept(String),
    Removed,
    Summary,
    Ended,
}

/// Which answer an execution waits for, as a value.
pub enum Phase {
    /// To the announcement of a dry run.
    Dry,
    /// To Git's removal of a worktree.
    Checkout,
    /// To which worktrees are registered, after Git refused with this error.
    Refused(Seq<char>),
    /// To the size of an unclaimed target directory.
    OrphanSize,
    /// To the removal of an entry's directory.
    Place,
    /// To a new inventory.
    Live,
    /// To the size of an entry's target directory.
    TargetSize,
    /// To the removal of an entry's target directory.
    Target,
    /// To the removal of the directory above it.
    Parent,
    /// To the deletion of a branch.
    Branch,
    /// To the warning that a branch was kept, after this error.
    Kept(Seq<char>),
    /// To the announcement of a removal.
    Removed,
    /// To the summary.
    Summary,
    /// To nothing: the execution has ended.
    Ended,
}

impl Stage {
    pub closed spec fn phase(self) -> Phase {
        match self {
            Stage::Dry => Phase::Dry,
            Stage::Checkout => Phase::Checkout,
            Stage::Refused(m) => Phase::Refused(m@),
            Stage::OrphanSize => Phase::OrphanSize,
            Stage::Place => Phase::Place,
            Stage::Live => Phase::Live,
            Stage::TargetSize => Phase::TargetSize,
            Stage::Target => Phase::Target,
            Stage::Parent => Phase::Parent,
            Stage::Branch => Phase::Branch,
            Stage::Kept(m) => Phase::Kept(m@),
            Stage::Removed => Phase::Removed,
            Stage::Summary => Phase::Summary,
            Stage::Ended => Phase::Ended,
        }
    }
}

/// An execution of a plan.
pub struct Execution {
    plan: Plan,
    args: Args,
    stage: Stage,
    index: usize,
    freed: u64,
}

/// An execution of a plan, as a value.
#[verifier::ext_equal]
pub struct ExecutionView {
    /// The plan.
    pub plan: PlanView,
    /// The options.
    pub args: ArgsView,
    /// Which answer is waited for.
    pub phase: Phase,
    /// The item at hand.
    pub index: int,
    /// The bytes of target data freed so far.
    pub freed: int,
}

impl View for Execution {
    type V = ExecutionView;

    closed spec fn view(&self) -> ExecutionView {
        ExecutionView {
            plan: self.plan@,
            args: self.args@,
            phase: self.stage.phase(),
            index: self.index as int,
            freed: self.freed as int,
        }
    }
}

/// The phase belongs to one item of the plan.
pub open spec fn is_of_item(phase: Phase) -> bool {
    match phase {
        Phase::Dry => false,
        Phase::Summary => false,
        Phase::Ended => false,
        _ => true,
    }
}

/// An answer of the kind that a phase waits for.
pub open spec fn answers(phase: Phase, a: Answer) -> bool {
    match phase {
        Phase::Checkout => a is Done || a is Failed,
        Phase::Refused(_) => a is Entries || a is Failed,
        Phase::OrphanSize => a is Size,
        Phase::Place => a is Done || a is Failed,
        Phase::Live => a is Entries || a is Failed,
        Phase::TargetSize => a is Size,
        Phase::Target => a is Done || a is Failed,
        Phase::Branch => a is Done || a is Failed,
        Phase::Dry => a is Done,
        Phase::Parent => a is Done,
        Phase::Kept(_) => a is Done,
        Phase::Removed => a is Done,
        Phase::Summary => a is Done,
        Phase::Ended => false,
    }
}

/// The next state and request: a phase, and what is asked in it.
pub open spec fn moved(s: ExecutionView, phase: Phase, wish: Wish) -> (ExecutionView, Wish) {
    (ExecutionView { phase, ..s }, wish)
}

/// The end of an execution that fails.
pub open spec fn failed(s: ExecutionView, error: Seq<char>) -> (ExecutionView, Wish) {
    moved(s, Phase::Ended, Wish::Fail(error))
}

/// The summary of what was done.
pub open spec fn summary(count: int, freed: int) -> Seq<char> {
    "worktree-prune: removed "@ + text::decimal(count as nat) + " item(s), freed "@ + size::shown(
        freed as nat,
    ) + " of target data"@
}

/// Where an execution stands at item `i`: its removal is asked for, or the summary where no item is
/// left.
pub open spec fn at_item(s: ExecutionView, i: int) -> (ExecutionView, Wish) {
    let t = ExecutionView { index: i, ..s };
    if i < s.plan.items.len() {
        let e = s.plan.items[i].entry;
        match e.kind {
            Kind::Worktree => moved(t, Phase::Checkout, Wish::GitRemove(e.path, s.args.force)),
            Kind::Stale => moved(t, Phase::Place, Wish::Remove(e.path)),
            Kind::Orphan => moved(t, Phase::OrphanSize, Wish::Measure(e.path)),
            Kind::Main => failed(t, "main checkout is protected"@),
        }
    } else {
        moved(t, Phase::Summary, Wish::Say(summary(s.plan.items.len() as int, s.freed)))
    }
}

/// After a branch is dealt with: the removal is announced, except in quiet mode.
pub open spec fn past_branch(s: ExecutionView) -> (ExecutionView, Wish) {
    if s.args.quiet {
        at_item(s, s.index + 1)
    } else {
        moved(
            s,
            Phase::Removed,
            Wish::Say("Removed "@ + path::display(s.plan.items[s.index].entry.path)),
        )
    }
}

/// After a target directory is dealt with: the branch is deleted, where that is asked for.
pub open spec fn past_target(s: ExecutionView) -> (ExecutionView, Wish) {
    match s.plan.items[s.index].entry.branch {
        Some(b) => if s.args.delete_branch {
            moved(s, Phase::Branch, Wish::DeleteBranch(b, s.args.force))
        } else {
            past_branch(s)
        },
        None => past_branch(s),
    }
}

/// After an entry's directory is gone: its target directory is looked at, where it is to go.
pub open spec fn past_place(s: ExecutionView) -> (ExecutionView, Wish) {
    if s.plan.items[s.index].target {
        moved(s, Phase::Live, Wish::Inventory)
    } else {
        past_target(s)
    }
}

/// Some entry of `list` lies at `at`.
pub open spec fn lists(list: Seq<EntryView>, at: Seq<Seq<u8>>) -> bool {
    exists|i: int| 0 <= i < list.len() && (#[trigger] list[i]).path == at
}

/// How an execution begins: a blocked plan fails, an empty one is done, and without consent nothing
/// is removed.
pub open spec fn begun(plan: PlanView, args: ArgsView) -> (ExecutionView, Wish) {
    let s = ExecutionView { plan, args, phase: Phase::Ended, index: 0, freed: 0 };
    if plan.errors.len() > 0 {
        failed(s, "plan blocked; nothing removed\n"@ + text::joined(plan.errors, "\n"@))
    } else if plan.items.len() == 0 {
        moved(s, Phase::Ended, Wish::Finish)
    } else if !args.yes {
        if args.quiet {
            moved(
                s,
                Phase::Dry,
                Wish::Say(
                    "worktree-prune: "@ + text::decimal(plan.items.len())
                        + " candidate(s); run without --quiet to review"@,
                ),
            )
        } else {
            moved(
                s,
                Phase::Dry,
                Wish::Say("Dry run: nothing removed. Pass --yes to apply."@),
            )
        }
    } else {
        at_item(s, 0)
    }
}

/// The name of a branch; empty where there is none.
pub open spec fn branch_name(branch: Option<Seq<char>>) -> Seq<char> {
    match branch {
        Some(b) => b,
        None => Seq::empty(),
    }
}

/// How an execution goes on after an answer.
pub open spec fn continued(repo: RepoView, s: ExecutionView, a: Answer) -> (ExecutionView, Wish) {
    let e = s.plan.items[s.index].entry;
    match s.phase {
        Phase::Dry => moved(s, Phase::Ended, Wish::Finish),
        Phase::Checkout => match a {
            Answer::Failed { head: _, whole } => moved(s, Phase::Refused(whole), Wish::Registered),
            _ => past_place(s),
        },
        Phase::Refused(error) => match a {
            Answer::Failed { head: _, whole } => failed(s, whole),
            Answer::Entries(list) => if lists(list, e.path) {
                failed(s, "Git refused removal; target kept: "@ + error)
            } else {
                moved(s, Phase::Place, Wish::Remove(e.path))
            },
            _ => past_place(s),
        },
        Phase::OrphanSize => match a {
            Answer::Size(n) => moved(
                ExecutionView { freed: s.freed + n, ..s },
                Phase::Place,
                Wish::Remove(e.path),
            ),
            _ => past_place(s),
        },
        Phase::Place => match a {
            Answer::Failed { head: _, whole } => failed(s, whole),
            _ => past_place(s),
        },
        Phase::Live => match a {
            Answer::Failed { head: _, whole } => failed(s, whole),
            Answer::Entries(list) => if safety::is_target_safe(repo, e, list) {
                moved(s, Phase::TargetSize, Wish::Measure(e.target))
            } else {
                failed(s, "target became shared or protected; kept "@ + path::display(e.target))
            },
            _ => past_target(s),
        },
        Phase::TargetSize => match a {
            Answer::Size(n) => moved(
                ExecutionView { freed: s.freed + n, ..s },
                Phase::Target,
                Wish::Remove(e.target),
            ),
            _ => past_target(s),
        },
        Phase::Target => match a {
            Answer::Failed { head: _, whole } => failed(s, whole),
            _ => if e.target.len() > 0 && !path::within(repo.here, e.target.drop_last()) {
                moved(s, Phase::Parent, Wish::RemoveDir(e.target.drop_last()))
            } else {
                past_target(s)
            },
        },
        Phase::Parent => past_target(s),
        Phase::Branch => match a {
            Answer::Failed { head, whole } => if !s.args.quiet {
                moved(
                    s,
                    Phase::Kept(whole),
                    Wish::Warn("Branch "@ + branch_name(e.branch) + " kept: "@ + head),
                )
            } else if s.args.force {
                failed(s, whole)
            } else {
                past_branch(s)
            },
            _ => past_branch(s),
        },
        Phase::Kept(error) => if s.args.force {
            failed(s, error)
        } else {
            past_branch(s)
        },
        Phase::Removed => at_item(s, s.index + 1),
        Phase::Summary => moved(s, Phase::Ended, Wish::Finish),
        Phase::Ended => moved(s, Phase::Ended, Wish::Finish),
    }
}

/// Tells whether some entry of `list` lies at `at`.
fn listed(list: &Vec<Entry>, at: &AbsPath) -> (r: bool)
    ensures
        r == lists(entry::views(list@), at@),
{
    let ghost all = entry::views(list@);
    let mut i: usize = 0;
    while i < list.len()
        invariant
            i <= list@.len(),
            all == entry::views(list@),
            forall|j: int| 0 <= j < i ==> (#[trigger] all[j]).path != at@,
        decreases list@.len() - i,
    {
        assert(all[i as int] == list@[i as int]@);
        if list[i].path.same(at) {
            return true;
        }
        i += 1;
    }
    false
}

/// The contents of a step.
pub open spec fn step(r: (Execution, Request)) -> (ExecutionView, Wish) {
    (r.0@, r.1@)
}

impl Execution {
    #[verifier::type_invariant]
    spec fn in_range(self) -> bool {
        is_of_item(self.stage.phase()) ==> self.index < self.plan.items@.len()
    }

    /// Moves to another stage of the same item.
    fn go(self, stage: Stage, request: Request) -> (r: (Execution, Request))
        requires
            self@.index < self@.plan.items.len() || !is_of_item(stage.phase()),
        ensures
            step(r) == moved(self@, stage.phase(), request@),
    {
        let Execution { plan, args, stage: _, index, freed } = self;
        (Execution { plan, args, stage, index, freed }, request)
    }

    /// Ends with an error.
    fn fail(self, error: String) -> (r: (Execution, Request))
        ensures
            step(r) == failed(self@, error@),
    {
        self.go(Stage::Ended, Request::Fail(error))
    }

    /// Asks for the removal of item `i`, or for the summary.
    fn item(self, i: usize) -> (r: (Execution, Request))
        ensures
            step(r) == at_item(self@, i as int),
    {
        let Execution { plan, args, stage: _, index: _, freed } = self;
        let force = args.force;
        let count: usize = plan.items.len();
        if i < count {
            let kind = plan.items[i].entry.kind;
            let at = plan.items[i].entry.path.clone();
            let s = Execution { plan, args, stage: Stage::Ended, index: i, freed };
            match kind {
                Kind::Worktree => s.go(Stage::Checkout, Request::GitRemove(at, force)),
                Kind::Stale => s.go(Stage::Place, Request::Remove(at)),
                Kind::Orphan => s.go(Stage::OrphanSize, Request::Measure(at)),
                Kind::Main => s.fail("main checkout is protected".to_owned()),
            }
        } else {
            let mut line = "worktree-prune: removed ".to_owned();
            line.append(text::to_decimal(count as u64).as_str());
            line.append(" item(s), freed ");
            line.append(size::human(freed).as_str());
            line.append(" of target data");
            let s = Execution { plan, args, stage: Stage::Ended, index: i, freed };
            s.go(Stage::Summary, Request::Say(line))
        }
    }

    /// Goes on after a branch is dealt with.
    fn after_branch(self) -> (r: (Execution, Request))
        requires
            self@.index < self@.plan.items.len(),
        ensures
            step(r) == past_branch(self@),
    {
        let i: usize = self.index;
        let count: usize = self.plan.items.len();
        assert(i < count);
        if self.args.quiet {
            self.item(i + 1)
        } else {
            let mut line = "Removed ".to_owned();
            line.append(self.plan.items[i].entry.path.display().as_str());
            self.go(Stage::Removed, Request::Say(line))
        }
    }

    /// Goes on after a target directory is dealt with.
    fn after_target(self) -> (r: (Execution, Request))
        requires
            self@.index < self@.plan.items.len(),
        ensures
            step(r) == past_target(self@),
    {
        let i: usize = self.index;
        if self.args.delete_branch {
            let branch = entry::clone_text(&self.plan.items[i].entry.branch);
            match branch {
                Some(b) => {
                    let force = self.args.force;
                    self.go(Stage::Branch, Request::DeleteBranch(b, force))
                },
                None => self.after_branch(),
            }
        } else {
            self.after_branch()
        }
    }

    /// Goes on after an entry's directory is gone.
    fn after_place(self) -> (r: (Execution, Request))
        requires
            self@.index < self@.plan.items.len(),
        ensures
            step(r) == past_place(self@),
    {
        let i: usize = self.index;
        if self.plan.items[i].target {
            self.go(Stage::Live, Request::Inventory)
        } else {
            self.after_target()
        }
    }

    /// Begins to carry out a plan.
    pub fn begin(plan: Plan, args: Args) -> (r: (Execution, Request))
        ensures
            step(r) == begun(plan@, args@),
    {
        let ghost p = plan@;
        let yes = args.yes;
        let quiet = args.quiet;
        let count: usize = plan.items.len();
        let blocked = plan.errors.len() > 0;
        let mut reason = "plan blocked; nothing removed\n".to_owned();
        reason.append(text::join(plan.errors.as_slice(), "\n").as_str());
        assert(p.items.len() == count);
        assert(p.errors.len() == plan.errors@.len());
        let s = Execution { plan, args, stage: Stage::Ended, index: 0, freed: 0 };
        if blocked {
            s.fail(reason)
        } else if count == 0 {
            s.go(Stage::Ended, Request::Finish)
        } else if !yes {
            if quiet {
                let mut line = "worktree-prune: ".to_owned();
                line.append(text::to_decimal(count as u64).as_str());
                line.append(" candidate(s); run without --quiet to review");
                s.go(Stage::Dry, Request::Say(line))
            } else {
                s.go(
                    Stage::Dry,
                    Request::Say("Dry run: nothing removed. Pass --yes to apply.".to_owned()),
                )
            }
        } else {
            s.item(0)
        }
    }

    /// The bytes of target data freed so far.
    pub fn freed(&self) -> (r: u64)
        ensures
            r == self@.freed,
    {
        self.freed
    }

    /// Takes the answer to the last request and goes on.
    pub fn resume(self, repo: &Repo, reply: Reply) -> (r: (Execution, Request))
        requires
            answers(self@.phase, reply@),
            reply@ matches Answer::Size(n) ==> self@.freed + n <= u64::MAX,
        ensures
            step(r) == continued(repo@, self@, reply@),
    {
        proof {
            use_type_invariant(&self);
        }
        let Execution { plan, args, stage, index, freed } = self;
        let s = Execution { plan, args, stage: Stage::Ended, index, freed };
        match stage {
            Stage::Dry => s.go(Stage::Ended, Request::Finish),
            Stage::Checkout => match reply {
                Reply::Failed { head: _, whole } => s.go(Stage::Refused(whole), Request::Registered),
                _ => s.after_place(),
            },
            Stage::Refused(error) => match reply {
                Reply::Failed { head: _, whole } => s.fail(whole),
                Reply::Entries(list) => {
                    if listed(&list, &s.plan.items[index].entry.path) {
                        let mut out = "Git refused removal; target kept: ".to_owned();
                        out.append(error.as_str());
                        s.fail(out)
                    } else {
                        let at = s.plan.items[index].entry.path.clone();
                        s.go(Stage::Place, Request::Remove(at))
                    }
                },
                _ => s.after_place(),
            },
            Stage::OrphanSize => match reply {
                Reply::Size(n) => {
                    let Execution { plan, args, stage: _, index: _, freed: _ } = s;
                    let at = plan.items[index].entry.path.clone();
                    let t = Execution {
                        plan,
                        args,
                        stage: Stage::Ended,
                        index,
                        freed: freed + n,
                    };
                    t.go(Stage::Place, Request::Remove(at))
                },
                _ => s.after_place(),
            },
            Stage::Place => match reply {
                Reply::Failed { head: _, whole } => s.fail(whole),
                _ => s.after_place(),
            },
            Stage::Live => match reply {
                Reply::Failed { head: _, whole } => s.fail(whole),
                Reply::Entries(list) => {
                    let target = s.plan.items[index].entry.target.clone();
                    if repo.target_safe(&s.plan.items[index].entry, list.as_slice()) {
                        s.go(Stage::TargetSize, Request::Measure(target))
                    } else {
                        let mut out = "target became shared or protected; kept ".to_owned();
                        out.append(target.display().as_str());
                        s.fail(out)
                    }
                },
                _ => s.after_target(),
            },
            Stage::TargetSize => match reply {
                Reply::Size(n) => {
                    let Execution { plan, args, stage: _, index: _, freed: _ } = s;
                    let target = plan.items[index].entry.target.clone();
                    let t = Execution {
                        plan,
                        args,
                        stage: Stage::Ended,
                        index,
                        freed: freed + n,
                    };
                    t.go(Stage::Target, Request::Remove(target))
                },
                _ => s.after_target(),
            },
            Stage::Target => match reply {
                Reply::Failed { head: _, whole } => s.fail(whole),
                _ => {
                    let above = s.plan.items[index].entry.target.parent();
                    match above {
                        Some(p) => if repo.here().starts_with(&p) {
                            s.after_target()
                        } else {
                            s.go(Stage::Parent, Request::RemoveDir(p))
                        },
                        None => s.after_target(),
                    }
                },
            },
            Stage::Parent => s.after_target(),
            Stage::Branch => match reply {
                Reply::Failed { head, whole } => {
                    if !s.args.quiet {
                        let mut out = "Branch ".to_owned();
                        let b = match &s.plan.items[index].entry.branch {
                            Some(b) => b.clone(),
                            None => String::new(),
                        };
                        out.append(b.as_str());
                        out.append(" kept: ");
                        out.append(head.as_str());
                        s.go(Stage::Kept(whole), Request::Warn(out))
                    } else if s.args.force {
                        s.fail(whole)
                    } else {
                        s.after_branch()
                    }
                },
                _ => s.after_branch(),
            },
            Stage::Kept(error) => {
                if s.args.force {
                    s.fail(error)
                } else {
                    s.after_branch()
                }
            },
            Stage::Removed => {
                let count: usize = s.plan.items.len();
                assert(index < count);
                s.item(index + 1)
            },
            Stage::Summary => s.go(Stage::Ended, Request::Finish),
            Stage::Ended => s.go(Stage::Ended, Request::Finish),
        }
    }
}

} // verus!
