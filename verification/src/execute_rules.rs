//! What an execution asks for and says on its way, in plain words.

use crate::args::ArgsView;
use crate::entry::{EntryView, Kind};
use crate::execute;
use crate::execute::{Answer, ExecutionView, Phase, Wish};
use crate::execute_laws;
use crate::path;
use crate::plan::PlanView;
use crate::repo::RepoView;
use crate::safety;
use crate::size;
use crate::text;
use vstd::prelude::*;

verus! {

/// The removal of an item's directory was asked for, of a worktree from Git.
pub open spec fn place_is_done(
    repo: RepoView,
    plan: PlanView,
    args: ArgsView,
    answers: Seq<Answer>,
    k: int,
) -> bool {
    let e = plan.items[k].entry;
    &&& e.kind == Kind::Worktree ==> execute_laws::was_asked(
        repo,
        plan,
        args,
        answers,
        Wish::GitRemove(e.path, args.force),
    )
    &&& e.kind != Kind::Worktree ==> execute_laws::was_asked(
        repo,
        plan,
        args,
        answers,
        Wish::Remove(e.path),
    )
}

/// An item that is an unclaimed target directory was measured.
pub open spec fn orphan_is_measured(
    repo: RepoView,
    plan: PlanView,
    args: ArgsView,
    answers: Seq<Answer>,
    k: int,
) -> bool {
    let e = plan.items[k].entry;
    e.kind == Kind::Orphan ==> execute_laws::was_asked(
        repo,
        plan,
        args,
        answers,
        Wish::Measure(e.path),
    )
}

/// The target directory of an item was measured and its removal asked for, where it is planned.
pub open spec fn target_is_done(
    repo: RepoView,
    plan: PlanView,
    args: ArgsView,
    answers: Seq<Answer>,
    k: int,
) -> bool {
    let e = plan.items[k].entry;
    plan.items[k].target ==> {
        &&& execute_laws::was_asked(repo, plan, args, answers, Wish::Inventory)
        &&& execute_laws::was_asked(repo, plan, args, answers, Wish::Measure(e.target))
        &&& execute_laws::was_asked(repo, plan, args, answers, Wish::Remove(e.target))
    }
}

/// The directory above a target directory that went was asked to go if it is empty, unless the user
/// is in it.
pub open spec fn parent_is_done(
    repo: RepoView,
    plan: PlanView,
    args: ArgsView,
    answers: Seq<Answer>,
    k: int,
) -> bool {
    let e = plan.items[k].entry;
    plan.items[k].target && e.target.len() > 0 && !e.target.drop_last().is_prefix_of(repo.here)
        ==> execute_laws::was_asked(
        repo,
        plan,
        args,
        answers,
        Wish::RemoveDir(e.target.drop_last()),
    )
}

/// The deletion of an item's branch was asked for, where branches are to be deleted and it has one.
pub open spec fn branch_is_done(
    repo: RepoView,
    plan: PlanView,
    args: ArgsView,
    answers: Seq<Answer>,
    k: int,
) -> bool {
    args.delete_branch ==> (plan.items[k].entry.branch matches Some(b) ==> execute_laws::was_asked(
        repo,
        plan,
        args,
        answers,
        Wish::DeleteBranch(b, args.force),
    ))
}

/// The removal of an item was announced, unless quiet is kept.
pub open spec fn removal_is_said(
    repo: RepoView,
    plan: PlanView,
    args: ArgsView,
    answers: Seq<Answer>,
    k: int,
) -> bool {
    !args.quiet ==> execute_laws::was_asked(
        repo,
        plan,
        args,
        answers,
        Wish::Say("Removed "@ + path::display(plan.items[k].entry.path)),
    )
}

/// All that belongs to an item was asked for.
pub open spec fn is_done_in_full(
    repo: RepoView,
    plan: PlanView,
    args: ArgsView,
    answers: Seq<Answer>,
    k: int,
) -> bool {
    &&& place_is_done(repo, plan, args, answers, k)
    &&& orphan_is_measured(repo, plan, args, answers, k)
    &&& target_is_done(repo, plan, args, answers, k)
    &&& parent_is_done(repo, plan, args, answers, k)
    &&& branch_is_done(repo, plan, args, answers, k)
    &&& removal_is_said(repo, plan, args, answers, k)
}

/// The target directory of the item at hand lies behind.
pub open spec fn is_past_target(phase: Phase) -> bool {
    phase is Branch || phase is Kept || phase is Removed
}

/// How far an execution has come: all items before the one at hand are done in full, and that one up
/// to its phase.
pub open spec fn has_come(
    repo: RepoView,
    plan: PlanView,
    args: ArgsView,
    answers: Seq<Answer>,
) -> bool {
    let s = execute_laws::run(repo, plan, args, answers).0;
    let i = s.index;
    &&& forall|k: int| 0 <= k < i ==> #[trigger] is_done_in_full(repo, plan, args, answers, k)
    &&& execute::is_of_item(s.phase) ==> orphan_is_measured(repo, plan, args, answers, i)
    &&& execute::is_of_item(s.phase) && !(s.phase is OrphanSize) ==> place_is_done(
        repo,
        plan,
        args,
        answers,
        i,
    )
    &&& s.phase is Live || s.phase is TargetSize || s.phase is Target || s.phase is Parent
        ==> execute_laws::was_asked(repo, plan, args, answers, Wish::Inventory)
    &&& s.phase is TargetSize || s.phase is Target || s.phase is Parent ==> execute_laws::was_asked(
        repo,
        plan,
        args,
        answers,
        Wish::Measure(plan.items[i].entry.target),
    )
    &&& s.phase is Target || s.phase is Parent ==> execute_laws::was_asked(
        repo,
        plan,
        args,
        answers,
        Wish::Remove(plan.items[i].entry.target),
    )
    &&& s.phase is Parent || is_past_target(s.phase) ==> target_is_done(
        repo,
        plan,
        args,
        answers,
        i,
    ) && parent_is_done(repo, plan, args, answers, i)
    &&& is_past_target(s.phase) ==> branch_is_done(repo, plan, args, answers, i)
    &&& s.phase is Removed ==> removal_is_said(repo, plan, args, answers, i)
}

/// The request that belongs to a phase.
pub open spec fn is_wish_of(s: ExecutionView, wish: Wish) -> bool {
    let e = s.plan.items[s.index].entry;
    match s.phase {
        Phase::Checkout => wish == Wish::GitRemove(e.path, s.args.force),
        Phase::Refused(_) => wish == Wish::Registered,
        Phase::OrphanSize => wish == Wish::Measure(e.path),
        Phase::Place => wish == Wish::Remove(e.path),
        Phase::Live => wish == Wish::Inventory,
        Phase::TargetSize => wish == Wish::Measure(e.target),
        Phase::Target => wish == Wish::Remove(e.target),
        Phase::Parent => wish == Wish::RemoveDir(e.target.drop_last()),
        Phase::Branch => e.branch matches Some(b) && wish == Wish::DeleteBranch(b, s.args.force),
        Phase::Kept(_) => wish is Warn,
        Phase::Removed => wish == Wish::Say("Removed "@ + path::display(e.path)),
        Phase::Summary => wish == Wish::Say(
            "worktree-prune: removed "@ + text::decimal(s.plan.items.len()) + " item(s), freed "@
                + size::shown(s.freed as nat) + " of target data"@,
        ),
        Phase::Dry => wish == Wish::Say(
            if s.args.quiet {
                "worktree-prune: "@ + text::decimal(s.plan.items.len())
                    + " candidate(s); run without --quiet to review"@
            } else {
                "Dry run: nothing removed. Pass --yes to apply."@
            },
        ),
        Phase::Ended => wish is Finish || wish is Fail,
    }
}

/// The request at an item, and after one, is the one that belongs to the phase.
proof fn item_requests_belong(s: ExecutionView, i: int)
    requires
        0 <= i <= s.plan.items.len(),
        0 <= s.index < s.plan.items.len(),
    ensures
        is_wish_of(execute::at_item(s, i).0, execute::at_item(s, i).1),
        is_wish_of(execute::past_branch(s).0, execute::past_branch(s).1),
        is_wish_of(execute::past_target(s).0, execute::past_target(s).1),
        is_wish_of(execute::past_place(s).0, execute::past_place(s).1),
{
    let t = ExecutionView { index: i, ..s };
    if i == s.plan.items.len() {
        assert(s.plan.items.len() as int as nat == s.plan.items.len());
    }
    let j = s.index + 1;
    if j == s.plan.items.len() {
        assert(j as nat == s.plan.items.len());
    }
}

/// The request after an answer is the one that belongs to the phase.
#[verifier::rlimit(40)]
proof fn next_request_belongs(repo: RepoView, s: ExecutionView, a: Answer)
    requires
        execute::answers(s.phase, a),
        execute::is_of_item(s.phase) ==> 0 <= s.index < s.plan.items.len(),
    ensures
        is_wish_of(execute::continued(repo, s, a).0, execute::continued(repo, s, a).1),
{
    if execute::is_of_item(s.phase) {
        item_requests_belong(s, s.index + 1);
        match a {
            Answer::Size(n) => {
                item_requests_belong(ExecutionView { freed: s.freed + n, ..s }, s.index);
            },
            _ => {},
        }
    }
}

/// The first request is the one that belongs to the phase.
proof fn first_request_belongs(plan: PlanView, args: ArgsView)
    ensures
        is_wish_of(execute::begun(plan, args).0, execute::begun(plan, args).1),
{
    if plan.items.len() > 0 {
        item_requests_belong(
            ExecutionView { plan, args, phase: Phase::Ended, index: 0, freed: 0 },
            0,
        );
    }
}

/// At every moment the request is the one that belongs to the phase.
pub proof fn requests_belong_to_phases(
    repo: RepoView,
    plan: PlanView,
    args: ArgsView,
    answers: Seq<Answer>,
)
    requires
        execute_laws::is_proper(repo, plan, args, answers),
    ensures
        is_wish_of(
            execute_laws::run(repo, plan, args, answers).0,
            execute_laws::run(repo, plan, args, answers).1,
        ),
{
    if answers.len() > 0 {
        execute_laws::execution_keeps_to_the_plan(repo, plan, args, answers.drop_last());
        next_request_belongs(
            repo,
            execute_laws::run(repo, plan, args, answers.drop_last()).0,
            answers.last(),
        );
    } else {
        first_request_belongs(plan, args);
    }
}

/// What was asked for, and what is asked for last, counts as asked.
proof fn asking_adds_up(
    repo: RepoView,
    plan: PlanView,
    args: ArgsView,
    answers: Seq<Answer>,
)
    ensures
        execute_laws::was_asked(
            repo,
            plan,
            args,
            answers,
            execute_laws::run(repo, plan, args, answers).1,
        ),
        answers.len() > 0 ==> forall|w: Wish|
            execute_laws::was_asked(repo, plan, args, answers.drop_last(), w)
                ==> #[trigger] execute_laws::was_asked(repo, plan, args, answers, w),
{
    execute_laws::last_wish_was_asked(repo, plan, args, answers);
    if answers.len() > 0 {
        assert forall|w: Wish|
            execute_laws::was_asked(
                repo,
                plan,
                args,
                answers.drop_last(),
                w,
            ) implies #[trigger] execute_laws::was_asked(repo, plan, args, answers, w) by {
            execute_laws::asked_stays_asked(repo, plan, args, answers, w);
        }
    }
}

/// At every moment, also of an execution that fails later, all items before the one at hand are done
/// in full: directory, target directory, the directory above it, branch and announcement.
#[verifier::rlimit(60)]
pub proof fn items_are_done_in_full(
    repo: RepoView,
    plan: PlanView,
    args: ArgsView,
    answers: Seq<Answer>,
)
    requires
        execute_laws::is_proper(repo, plan, args, answers),
    ensures
        has_come(repo, plan, args, answers),
    decreases answers.len(),
{
    asking_adds_up(repo, plan, args, answers);
    requests_belong_to_phases(repo, plan, args, answers);
    execute_laws::execution_keeps_to_the_plan(repo, plan, args, answers);
    if answers.len() > 0 {
        let before = answers.drop_last();
        items_are_done_in_full(repo, plan, args, before);
        execute_laws::execution_keeps_to_the_plan(repo, plan, args, before);
        let was = execute_laws::run(repo, plan, args, before).0;
        let now = execute_laws::run(repo, plan, args, answers).0;
        assert(now == execute::continued(repo, was, answers.last()).0);
        assert forall|k: int| is_done_in_full(repo, plan, args, before, k) implies
            #[trigger] is_done_in_full(repo, plan, args, answers, k) by {}
    }
}

/// An execution that succeeds with consent has done every item in full: its directory and, where they
/// are planned, its target directory and the directory above, and, where that is asked for, its
/// branch.
pub proof fn success_leaves_nothing_undone(
    repo: RepoView,
    plan: PlanView,
    args: ArgsView,
    answers: Seq<Answer>,
    k: int,
)
    requires
        execute_laws::is_proper(repo, plan, args, answers),
        execute_laws::run(repo, plan, args, answers).1 is Finish,
        args.yes,
        0 <= k < plan.items.len(),
    ensures
        is_done_in_full(repo, plan, args, answers, k),
        args.delete_branch ==> (plan.items[k].entry.branch matches Some(b)
            ==> execute_laws::was_asked(
            repo,
            plan,
            args,
            answers,
            Wish::DeleteBranch(b, args.force),
        )),
{
    items_are_done_in_full(repo, plan, args, answers);
    execute_laws::success_comes_after_the_last_item(repo, plan, args, answers);
    assert(is_done_in_full(repo, plan, args, answers, k));
}

/// An execution that succeeds with consent, and had something to do, says at last how many items it
/// removed and how much it freed: the sum of all sizes that it was told.
pub proof fn success_is_summed_up(
    repo: RepoView,
    plan: PlanView,
    args: ArgsView,
    answers: Seq<Answer>,
)
    requires
        execute_laws::is_proper(repo, plan, args, answers),
        execute_laws::run(repo, plan, args, answers).1 is Finish,
        args.yes,
        plan.items.len() > 0,
    ensures
        answers.len() > 0,
        execute_laws::run(repo, plan, args, answers.drop_last()).1 == Wish::Say(
            "worktree-prune: removed "@ + text::decimal(plan.items.len()) + " item(s), freed "@
                + size::shown(execute_laws::total(answers) as nat) + " of target data"@,
        ),
{
    if answers.len() > 0 {
        let before = answers.drop_last();
        requests_belong_to_phases(repo, plan, args, before);
        execute_laws::execution_keeps_to_the_plan(repo, plan, args, before);
        execute_laws::freed_is_what_was_measured(repo, plan, args, before);
        if execute_laws::run(repo, plan, args, before).0.phase is Dry {
            execute_laws::dry_is_without_consent(repo, plan, args, before);
        }
    }
}

/// How an execution begins: a blocked plan fails with all its errors, an empty one is done, and
/// without consent the plan is announced as a dry run and nothing follows.
pub proof fn beginnings(repo: RepoView, plan: PlanView, args: ArgsView)
    ensures
        ({
            let first = execute_laws::run(repo, plan, args, Seq::empty()).1;
            let then = execute_laws::run(repo, plan, args, seq![Answer::Done]).1;
            &&& plan.errors.len() > 0 ==> first == Wish::Fail(
                "plan blocked; nothing removed\n"@ + text::joined(plan.errors, "\n"@),
            )
            &&& plan.errors.len() == 0 && plan.items.len() == 0 ==> first == Wish::Finish
            &&& plan.errors.len() == 0 && plan.items.len() > 0 && !args.yes ==> {
                &&& first == Wish::Say(
                    if args.quiet {
                        "worktree-prune: "@ + text::decimal(plan.items.len())
                            + " candidate(s); run without --quiet to review"@
                    } else {
                        "Dry run: nothing removed. Pass --yes to apply."@
                    },
                )
                &&& then == Wish::Finish
            }
        }),
{
    assert(seq![Answer::Done].drop_last() =~= Seq::<Answer>::empty());
    reveal_with_fuel(execute_laws::run, 2);
}

/// A branch that Git keeps is warned of, unless quiet is kept. Without force the execution goes on as
/// if the branch were gone; with force it fails with the whole error.
pub proof fn kept_branch_matters_only_with_force(
    repo: RepoView,
    s: ExecutionView,
    head: Seq<char>,
    whole: Seq<char>,
)
    requires
        s.phase is Branch,
    ensures
        ({
            let next = execute::continued(repo, s, Answer::Failed { head, whole });
            let fine = execute::continued(repo, s, Answer::Done);
            &&& !s.args.quiet ==> (s.plan.items[s.index].entry.branch matches Some(b) ==> next.1
                == Wish::Warn("Branch "@ + b + " kept: "@ + head))
            &&& !s.args.quiet && !s.args.force ==> execute::continued(
                repo,
                next.0,
                Answer::Done,
            ).1 == fine.1
            &&& !s.args.quiet && s.args.force ==> execute::continued(
                repo,
                next.0,
                Answer::Done,
            ).1 == Wish::Fail(whole)
            &&& s.args.quiet && !s.args.force ==> next.1 == fine.1
            &&& s.args.quiet && s.args.force ==> next.1 == Wish::Fail(whole)
        }),
{
}

/// A worktree that Git does not remove is removed all the same where it is registered no more.
pub proof fn forgotten_worktree_is_removed(
    repo: RepoView,
    s: ExecutionView,
    head: Seq<char>,
    whole: Seq<char>,
    list: Seq<EntryView>,
)
    requires
        s.phase is Checkout,
    ensures
        ({
            let e = s.plan.items[s.index].entry;
            let asked = execute::continued(repo, s, Answer::Failed { head, whole });
            let next = execute::continued(repo, asked.0, Answer::Entries(list));
            &&& asked.1 == Wish::Registered
            &&& (forall|j: int| 0 <= j < list.len() ==> (#[trigger] list[j]).path != e.path)
                ==> next.1 == Wish::Remove(e.path)
            &&& (exists|j: int| 0 <= j < list.len() && (#[trigger] list[j]).path == e.path)
                ==> next.1 == Wish::Fail("Git refused removal; target kept: "@ + whole)
        }),
{
    let e = s.plan.items[s.index].entry;
    if exists|j: int| 0 <= j < list.len() && (#[trigger] list[j]).path == e.path {
        assert(execute::lists(list, e.path));
    }
}

/// A target directory that a new inventory shows not to be safe is kept, by name, and ends the
/// execution.
pub proof fn unsafe_target_is_kept(repo: RepoView, s: ExecutionView, list: Seq<EntryView>)
    requires
        s.phase is Live,
    ensures
        ({
            let e = s.plan.items[s.index].entry;
            let next = execute::continued(repo, s, Answer::Entries(list)).1;
            &&& !safety::is_target_safe(repo, e, list) ==> next == Wish::Fail(
                "target became shared or protected; kept "@ + path::display(e.target),
            )
            &&& safety::is_target_safe(repo, e, list) ==> next == Wish::Measure(e.target)
        }),
{
}

/// An answer with which nothing is amiss.
pub open spec fn is_good(repo: RepoView, s: ExecutionView, a: Answer) -> bool {
    &&& execute::answers(s.phase, a)
    &&& !(a is Failed)
    &&& s.phase is Live ==> (a matches Answer::Entries(list) && safety::is_target_safe(
        repo,
        s.plan.items[s.index].entry,
        list,
    ))
    &&& s.phase is Refused ==> (a matches Answer::Entries(list) && forall|j: int|
        0 <= j < list.len() ==> (#[trigger] list[j]).path != s.plan.items[s.index].entry.path)
    &&& s.phase is Kept ==> !s.args.force
}

/// While nothing is amiss an execution does not fail, unless the main checkout is planned.
pub proof fn good_answers_lead_on(repo: RepoView, s: ExecutionView, a: Answer)
    requires
        is_good(repo, s, a),
        0 <= s.index <= s.plan.items.len(),
        forall|k: int|
            0 <= k < s.plan.items.len() ==> (#[trigger] s.plan.items[k]).entry.kind != Kind::Main,
    ensures
        !(execute::continued(repo, s, a).1 is Fail),
{
    if s.phase is Refused {
        assert(!execute::lists(
            a->Entries_0,
            s.plan.items[s.index].entry.path,
        ));
    }
}

/// Each item begins with its own removal: a worktree from Git, with force as given, a leftover at
/// once, an unclaimed target directory after it was measured. After the last comes the summary.
pub proof fn items_begin_with_their_removal(s: ExecutionView, i: int)
    requires
        0 <= i <= s.plan.items.len(),
    ensures
        ({
            let next = execute::at_item(s, i);
            let e = s.plan.items[i].entry;
            &&& i < s.plan.items.len() && e.kind == Kind::Worktree ==> next.1 == Wish::GitRemove(
                e.path,
                s.args.force,
            )
            &&& i < s.plan.items.len() && e.kind == Kind::Stale ==> next.1 == Wish::Remove(e.path)
            &&& i < s.plan.items.len() && e.kind == Kind::Orphan ==> next.1 == Wish::Measure(
                e.path,
            )
            &&& i < s.plan.items.len() && e.kind == Kind::Main ==> next.1 == Wish::Fail(
                "main checkout is protected"@,
            )
            &&& next.0.index == i
            &&& next.0.freed == s.freed
        }),
{
}

} // verus!
