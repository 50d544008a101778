//! The options of the program, and what they ask for.

use crate::bytes;
use vstd::prelude::*;
use vstd::string::*;

verus! {

/// The options of the program.
#[derive(Debug)]
pub struct Args {
    /// Names or paths of worktrees, as they were written.
    pub worktrees: Vec<Vec<u8>>,
    /// Preview without removing anything.
    pub dry_run: bool,
    /// Apply the removal plan.
    pub yes: bool,
    /// Discard local changes, and allow local-only commits and leftover files.
    pub force: bool,
    /// Remove what belongs to others, or cannot be written, with `sudo`.
    pub sudo: bool,
    /// Concise output, and success even on runtime errors.
    pub quiet: bool,
    /// Leave target directories untouched.
    pub keep_target: bool,
    /// Delete the local branch too.
    pub delete_branch: bool,
    /// List worktrees and the sizes of target directories.
    pub list: bool,
    /// Select leftover directories.
    pub stale: bool,
    /// Select unclaimed target directories.
    pub orphans: bool,
    /// Work in this repository.
    pub repo: Vec<u8>,
}

/// The options of the program, as a value.
#[verifier::ext_equal]
pub struct ArgsView {
    pub worktrees: Seq<Seq<u8>>,
    pub dry_run: bool,
    pub yes: bool,
    pub force: bool,
    pub sudo: bool,
    pub quiet: bool,
    pub keep_target: bool,
    pub delete_branch: bool,
    pub list: bool,
    pub stale: bool,
    pub orphans: bool,
    pub repo: Seq<u8>,
}

impl View for Args {
    type V = ArgsView;

    open spec fn view(&self) -> ArgsView {
        ArgsView {
            worktrees: bytes::views(self.worktrees@),
            dry_run: self.dry_run,
            yes: self.yes,
            force: self.force,
            sudo: self.sudo,
            quiet: self.quiet,
            keep_target: self.keep_target,
            delete_branch: self.delete_branch,
            list: self.list,
            stale: self.stale,
            orphans: self.orphans,
            repo: self.repo@,
        }
    }
}

/// A copy of a list of byte strings.
fn copy_list(list: &Vec<Vec<u8>>) -> (r: Vec<Vec<u8>>)
    ensures
        bytes::views(r@) == bytes::views(list@),
{
    let mut out: Vec<Vec<u8>> = Vec::new();
    let mut i: usize = 0;
    while i < list.len()
        invariant
            i <= list@.len(),
            out@.len() == i,
            forall|j: int| 0 <= j < i ==> #[trigger] out@[j]@ == list@[j]@,
        decreases list@.len() - i,
    {
        out.push(bytes::copy(list[i].as_slice()));
        i += 1;
    }
    assert(bytes::views(out@) =~= bytes::views(list@));
    out
}

impl Clone for Args {
    fn clone(&self) -> (r: Self)
        ensures
            r@ == self@,
    {
        Args {
            worktrees: copy_list(&self.worktrees),
            dry_run: self.dry_run,
            yes: self.yes,
            force: self.force,
            sudo: self.sudo,
            quiet: self.quiet,
            keep_target: self.keep_target,
            delete_branch: self.delete_branch,
            list: self.list,
            stale: self.stale,
            orphans: self.orphans,
            repo: bytes::copy(self.repo.as_slice()),
        }
    }
}

/// The options that select just these worktrees, and nothing as leftover or unclaimed.
pub open spec fn selecting(args: ArgsView, worktrees: Seq<Seq<u8>>, force: bool) -> ArgsView {
    ArgsView { worktrees, force, stale: false, orphans: false, ..args }
}

/// The options of an interactive session: what is confirmed there is applied.
pub open spec fn applying(args: ArgsView) -> ArgsView {
    ArgsView { yes: true, ..args }
}

impl Args {
    /// The options that select just these worktrees.
    pub fn select(&self, worktrees: Vec<Vec<u8>>, force: bool) -> (r: Args)
        ensures
            r@ == selecting(self@, bytes::views(worktrees@), force),
    {
        let mut out = self.clone();
        out.worktrees = worktrees;
        out.force = force;
        out.stale = false;
        out.orphans = false;
        out
    }

    /// The options of an interactive session.
    pub fn apply(&self) -> (r: Args)
        ensures
            r@ == applying(self@),
    {
        let mut out = self.clone();
        out.yes = true;
        out
    }

    /// Tells whether the options select anything to remove.
    pub fn selects(&self) -> (r: bool)
        ensures
            r == is_selective(self@),
    {
        self.worktrees.len() > 0 || self.stale || self.orphans
    }
}

/// The options select something to remove.
pub open spec fn is_selective(args: ArgsView) -> bool {
    args.worktrees.len() > 0 || args.stale || args.orphans
}

/// What a run of the program does.
#[derive(Clone, Copy, Debug, PartialEq, Eq, Structural)]
pub enum Course {
    /// Refuse: an interactive session needs a terminal.
    NoTerminal,
    /// Let the user choose.
    Interactive,
    /// List, and no more.
    List,
    /// List, then make a plan and carry it out.
    ListAndPlan,
    /// Make a plan and carry it out.
    Plan,
}

/// What a run of the program does: without any argument it is interactive, and without a selection
/// it lists.
pub open spec fn course_of(args: ArgsView, interactive: bool, terminal: bool) -> Course {
    if interactive {
        if terminal {
            Course::Interactive
        } else {
            Course::NoTerminal
        }
    } else if !is_selective(args) {
        Course::List
    } else if args.list {
        Course::ListAndPlan
    } else {
        Course::Plan
    }
}

/// Decides what a run of the program does.
pub fn course(args: &Args, interactive: bool, terminal: bool) -> (r: Course)
    ensures
        r == course_of(args@, interactive, terminal),
{
    if interactive {
        if terminal {
            Course::Interactive
        } else {
            Course::NoTerminal
        }
    } else if !args.selects() {
        Course::List
    } else if args.list {
        Course::ListAndPlan
    } else {
        Course::Plan
    }
}

/// The complaint about a missing terminal.
pub fn terminal_error() -> (r: String)
    ensures
        r@ == "interactive mode requires a terminal; use --list for text output"@,
{
    "interactive mode requires a terminal; use --list for text output".to_owned()
}

/// What is reported of an error that ends a run: nothing in quiet mode, where the run counts as a
/// success.
pub open spec fn report_of(quiet: bool, error: Seq<char>) -> Option<Seq<char>> {
    if quiet {
        None
    } else {
        Some("worktree-prune: "@ + error)
    }
}

/// The report of an error that ends a run, which then has failed; `None` where it has not.
pub fn report(quiet: bool, error: &str) -> (r: Option<String>)
    ensures
        r is Some <==> report_of(quiet, error@) is Some,
        r matches Some(s) ==> report_of(quiet, error@) == Some(s@),
{
    if quiet {
        return None;
    }
    let mut out = "worktree-prune: ".to_owned();
    out.append(error);
    Some(out)
}

/// Without a selection nothing is ever planned, whatever else is asked for.
pub proof fn only_a_selection_is_planned(args: ArgsView, terminal: bool)
    requires
        !is_selective(args),
    ensures
        course_of(args, false, terminal) == Course::List,
{
}

/// Something is asked to be removed: by name or path, as a leftover or as an unclaimed target
/// directory.
pub open spec fn asks_for_removal(args: ArgsView) -> bool {
    args.worktrees.len() > 0 || args.stale || args.orphans
}

/// What a run does goes by how it was called: without arguments it is interactive, which takes a
/// terminal; otherwise it plans just where something is asked to be removed, and lists just where that
/// is asked for or nothing else is.
pub proof fn course_goes_by_the_call(args: ArgsView, interactive: bool, terminal: bool)
    ensures
        ({
            let c = course_of(args, interactive, terminal);
            &&& interactive && terminal <==> c == Course::Interactive
            &&& interactive && !terminal <==> c == Course::NoTerminal
            &&& !interactive && asks_for_removal(args) <==> c == Course::Plan || c
                == Course::ListAndPlan
            &&& !interactive && (args.list || !asks_for_removal(args)) <==> c == Course::List || c
                == Course::ListAndPlan
        }),
{
}

/// Options for a selection differ from the given ones in the selection and force alone, and options of
/// a session in consent alone.
pub proof fn options_change_only_what_they_must(
    args: ArgsView,
    worktrees: Seq<Seq<u8>>,
    force: bool,
)
    ensures
        ({
            let s = selecting(args, worktrees, force);
            let t = applying(args);
            &&& s.worktrees == worktrees && s.force == force && !s.stale && !s.orphans
            &&& s.dry_run == args.dry_run && s.yes == args.yes && s.sudo == args.sudo && s.quiet
                == args.quiet && s.keep_target == args.keep_target && s.delete_branch
                == args.delete_branch && s.list == args.list && s.repo == args.repo
            &&& t.yes
            &&& t.worktrees == args.worktrees && t.dry_run == args.dry_run && t.force == args.force
                && t.sudo == args.sudo && t.quiet == args.quiet && t.keep_target
                == args.keep_target && t.delete_branch == args.delete_branch && t.list == args.list
                && t.stale == args.stale && t.orphans == args.orphans && t.repo == args.repo
        }),
{
}

/// An error is reported by the program's name, and not at all in quiet mode.
pub proof fn errors_are_reported_unless_quiet(quiet: bool, error: Seq<char>)
    ensures
        quiet <==> report_of(quiet, error) is None,
        !quiet ==> report_of(quiet, error) == Some("worktree-prune: "@ + error),
{
}

} // verus!
