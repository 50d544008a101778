//! What holds of every execution of a plan.

use crate::args::ArgsView;
use crate::entry::{EntryView, Kind};
use crate::execute;
use crate::execute::{Answer, ExecutionView, Phase, Wish};
use crate::path;
use crate::plan;
use crate::plan::{FactsView, PlanView};
use crate::plan_laws;
use crate::repo::RepoView;
use crate::safety;
use vstd::prelude::*;

verus! {

/// The state of an execution and its last request, after these answers.
pub open spec fn run(
    repo: RepoView,
    plan: PlanView,
    args: ArgsView,
    answers: Seq<Answer>,
) -> (ExecutionView, Wish)
    decreases answers.len(),
{
    if answers.len() == 0 {
        execute::begun(plan, args)
    } else {
        execute::continued(repo, run(repo, plan, args, answers.drop_last()).0, answers.last())
    }
}

/// Each answer is of the kind that was waited for, and none comes after the end.
pub open spec fn is_proper(
    repo: RepoView,
    plan: PlanView,
    args: ArgsView,
    answers: Seq<Answer>,
) -> bool
    decreases answers.len(),
{
    answers.len() == 0 || {
        &&& is_proper(repo, plan, args, answers.drop_last())
        &&& execute::answers(run(repo, plan, args, answers.drop_last()).0.phase, answers.last())
    }
}

/// What an execution keeps at every moment.
pub open spec fn is_sound(s: ExecutionView, plan: PlanView, args: ArgsView) -> bool {
    &&& s.plan == plan
    &&& s.args == args
    &&& s.freed >= 0
    &&& 0 <= s.index <= plan.items.len()
    &&& execute::is_of_item(s.phase) ==> {
        &&& s.index < plan.items.len()
        &&& args.yes
        &&& plan.errors.len() == 0
        &&& plan.items[s.index].entry.kind != Kind::Main
    }
    &&& (s.phase is Checkout || s.phase is Refused) ==> plan.items[s.index].entry.kind
        == Kind::Worktree
    &&& (s.phase is Live || s.phase is TargetSize || s.phase is Target || s.phase is Parent)
        ==> plan.items[s.index].target
    &&& (s.phase is Branch || s.phase is Kept) ==> args.delete_branch
        && plan.items[s.index].entry.branch is Some
    &&& s.phase is Summary ==> s.index == plan.items.len() && args.yes && plan.errors.len() == 0
}

/// Item `k` of a plan stands behind a request: nothing is asked for that is not planned.
pub open spec fn is_backed(plan: PlanView, args: ArgsView, wish: Wish, k: int) -> bool {
    &&& 0 <= k < plan.items.len()
    &&& match wish {
        Wish::GitRemove(p, force) => plan.items[k].entry.path == p && plan.items[k].entry.kind
            == Kind::Worktree && force == args.force,
        Wish::Remove(p) => plan.items[k].entry.kind != Kind::Main && (plan.items[k].entry.path == p
            || plan.items[k].target && plan.items[k].entry.target == p),
        Wish::RemoveDir(p) => plan.items[k].target && plan.items[k].entry.target.len() > 0
            && plan.items[k].entry.target.drop_last() == p,
        Wish::DeleteBranch(b, force) => args.delete_branch && plan.items[k].entry.branch == Some(b)
            && force == args.force,
        _ => true,
    }
}

/// A request that changes something on the disk or in the repository.
pub open spec fn is_destructive(wish: Wish) -> bool {
    wish is GitRemove || wish is Remove || wish is RemoveDir || wish is DeleteBranch
}

/// A request after which nothing more is asked.
pub open spec fn is_last(wish: Wish) -> bool {
    wish is Finish || wish is Fail
}

/// The removal that a phase waits for is the one that was asked for.
pub open spec fn is_in_phase(s: ExecutionView, wish: Wish) -> bool {
    let e = s.plan.items[s.index].entry;
    &&& s.phase is Checkout ==> wish == Wish::GitRemove(e.path, s.args.force)
    &&& s.phase is Place ==> wish == Wish::Remove(e.path)
    &&& s.phase is Target ==> wish == Wish::Remove(e.target)
}

/// What every step keeps.
proof fn step_is_sound(
    r: (ExecutionView, Wish),
    before: ExecutionView,
    plan: PlanView,
    args: ArgsView,
    repo: RepoView,
    a: Answer,
)
    requires
        is_sound(before, plan, args),
        execute::answers(before.phase, a),
        r == execute::continued(repo, before, a),
    ensures
        is_sound(r.0, plan, args),
        is_last(r.1) <==> r.0.phase is Ended,
        is_in_phase(r.0, r.1),
        is_destructive(r.1) ==> args.yes && plan.errors.len() == 0 && is_backed(
            plan,
            args,
            r.1,
            r.0.index,
        ),
{
}

/// An execution is sound at every moment, its last request ends it and no other does, and whatever
/// it asks to be removed is planned and consented to.
pub proof fn execution_keeps_to_the_plan(
    repo: RepoView,
    plan: PlanView,
    args: ArgsView,
    answers: Seq<Answer>,
)
    requires
        is_proper(repo, plan, args, answers),
    ensures
        is_sound(run(repo, plan, args, answers).0, plan, args),
        is_last(run(repo, plan, args, answers).1) <==> run(
            repo,
            plan,
            args,
            answers,
        ).0.phase is Ended,
        is_in_phase(run(repo, plan, args, answers).0, run(repo, plan, args, answers).1),
        is_destructive(run(repo, plan, args, answers).1) ==> args.yes && plan.errors.len() == 0
            && is_backed(
            plan,
            args,
            run(repo, plan, args, answers).1,
            run(repo, plan, args, answers).0.index,
        ),
    decreases answers.len(),
{
    if answers.len() > 0 {
        execution_keeps_to_the_plan(repo, plan, args, answers.drop_last());
        let before = run(repo, plan, args, answers.drop_last()).0;
        step_is_sound(
            run(repo, plan, args, answers),
            before,
            plan,
            args,
            repo,
            answers.last(),
        );
    }
}

/// Without consent nothing is removed, whatever is answered.
pub proof fn dry_run_removes_nothing(
    repo: RepoView,
    plan: PlanView,
    args: ArgsView,
    answers: Seq<Answer>,
)
    requires
        is_proper(repo, plan, args, answers),
        !args.yes,
    ensures
        !is_destructive(run(repo, plan, args, answers).1),
{
    execution_keeps_to_the_plan(repo, plan, args, answers);
}

/// A blocked plan fails at once, before anything is removed.
pub proof fn blocked_plan_fails_at_once(
    repo: RepoView,
    plan: PlanView,
    args: ArgsView,
    answers: Seq<Answer>,
)
    requires
        is_proper(repo, plan, args, answers),
        plan.errors.len() > 0,
    ensures
        answers.len() == 0,
        run(repo, plan, args, answers).1 is Fail,
    decreases answers.len(),
{
    if answers.len() > 0 {
        blocked_plan_fails_at_once(repo, plan, args, answers.drop_last());
    }
}

/// After an error nothing more is done, except that a branch that Git keeps ends nothing without
/// force, and that a worktree that Git does not remove is removed where it is registered no more.
pub proof fn error_ends_the_execution(
    repo: RepoView,
    plan: PlanView,
    args: ArgsView,
    answers: Seq<Answer>,
)
    requires
        is_proper(repo, plan, args, answers),
        answers.len() > 0,
        answers.last() is Failed,
        ({
            let phase = run(repo, plan, args, answers.drop_last()).0.phase;
            !(phase is Checkout || phase is Branch)
        }),
    ensures
        run(repo, plan, args, answers).1 == Wish::Fail(answers.last()->whole),
        run(repo, plan, args, answers).0.phase is Ended,
{
}

/// A worktree that Git refuses to remove and still registers ends the execution, with its target
/// directory kept.
pub proof fn refused_worktree_keeps_its_target(
    repo: RepoView,
    plan: PlanView,
    args: ArgsView,
    answers: Seq<Answer>,
    head: Seq<char>,
    error: Seq<char>,
    list: Seq<EntryView>,
)
    requires
        is_proper(repo, plan, args, answers.push(Answer::Failed { head, whole: error }).push(
            Answer::Entries(list),
        )),
        run(repo, plan, args, answers).0.phase is Checkout,
        ({
            let s = run(repo, plan, args, answers).0;
            execute::lists(list, s.plan.items[s.index].entry.path)
        }),
    ensures
        run(
            repo,
            plan,
            args,
            answers.push(Answer::Failed { head, whole: error }).push(Answer::Entries(list)),
        ).1 == Wish::Fail("Git refused removal; target kept: "@ + error),
{
    let first = answers.push(Answer::Failed { head, whole: error });
    let second = first.push(Answer::Entries(list));
    assert(second.drop_last() =~= first);
    assert(first.drop_last() =~= answers);
    reveal_with_fuel(run, 3);
}

/// A target directory that the plan adds to an entry is measured only right after a new inventory
/// has shown it to be safe, and removed only right after that.
pub proof fn target_is_checked_before_it_goes(
    repo: RepoView,
    plan: PlanView,
    args: ArgsView,
    answers: Seq<Answer>,
)
    requires
        is_proper(repo, plan, args, answers),
    ensures
        ({
            let s = run(repo, plan, args, answers).0;
            let n = answers.len();
            let e = plan.items[s.index].entry;
            &&& s.phase is TargetSize ==> n >= 1 && (answers[n - 1] matches Answer::Entries(list)
                && safety::is_target_safe(repo, e, list))
            &&& s.phase is Target ==> n >= 2 && answers[n - 1] is Size && (
            answers[n - 2] matches Answer::Entries(list) && safety::is_target_safe(repo, e, list))
                && run(repo, plan, args, answers).1 == Wish::Remove(e.target)
        }),
    decreases answers.len(),
{
    if answers.len() > 0 {
        target_is_checked_before_it_goes(repo, plan, args, answers.drop_last());
        execution_keeps_to_the_plan(repo, plan, args, answers.drop_last());
    }
}

/// The sizes among the answers, added up.
pub open spec fn total(answers: Seq<Answer>) -> int
    decreases answers.len(),
{
    if answers.len() == 0 {
        0
    } else {
        total(answers.drop_last()) + match answers.last() {
            Answer::Size(n) => n as int,
            _ => 0,
        }
    }
}

/// What an execution calls freed is the sum of all sizes that it was told.
pub proof fn freed_is_what_was_measured(
    repo: RepoView,
    plan: PlanView,
    args: ArgsView,
    answers: Seq<Answer>,
)
    requires
        is_proper(repo, plan, args, answers),
    ensures
        run(repo, plan, args, answers).0.freed == total(answers),
    decreases answers.len(),
{
    if answers.len() > 0 {
        freed_is_what_was_measured(repo, plan, args, answers.drop_last());
    }
}

/// How far an item is from being done.
pub open spec fn rank(phase: Phase) -> int {
    match phase {
        Phase::Checkout => 12,
        Phase::Refused(_) => 11,
        Phase::OrphanSize => 11,
        Phase::Place => 10,
        Phase::Live => 9,
        Phase::TargetSize => 8,
        Phase::Target => 7,
        Phase::Parent => 6,
        Phase::Branch => 5,
        Phase::Kept(_) => 4,
        Phase::Removed => 3,
        Phase::Summary => 2,
        Phase::Dry => 2,
        Phase::Ended => 0,
    }
}

/// How far an execution is from its end.
pub open spec fn distance(s: ExecutionView) -> int {
    if s.phase is Ended {
        0
    } else {
        16 * (s.plan.items.len() - s.index) + rank(s.phase)
    }
}

/// Every answer brings an execution nearer to its end, so that each execution ends.
pub proof fn every_answer_brings_the_end_nearer(
    repo: RepoView,
    plan: PlanView,
    args: ArgsView,
    answers: Seq<Answer>,
)
    requires
        is_proper(repo, plan, args, answers),
        answers.len() > 0,
    ensures
        0 <= distance(run(repo, plan, args, answers).0) < distance(
            run(repo, plan, args, answers.drop_last()).0,
        ),
{
    execution_keeps_to_the_plan(repo, plan, args, answers);
    execution_keeps_to_the_plan(repo, plan, args, answers.drop_last());
}

/// Something was asked for at some moment of an execution.
pub open spec fn was_asked(
    repo: RepoView,
    plan: PlanView,
    args: ArgsView,
    answers: Seq<Answer>,
    wish: Wish,
) -> bool {
    exists|j: int|
        0 <= j <= answers.len() && (#[trigger] run(repo, plan, args, answers.take(j))).1 == wish
}

/// The removal of an item's directory was asked for.
pub open spec fn place_was_asked(
    repo: RepoView,
    plan: PlanView,
    args: ArgsView,
    answers: Seq<Answer>,
    k: int,
) -> bool {
    let e = plan.items[k].entry;
    if e.kind == Kind::Worktree {
        was_asked(repo, plan, args, answers, Wish::GitRemove(e.path, args.force))
    } else {
        was_asked(repo, plan, args, answers, Wish::Remove(e.path))
    }
}

/// The removal of an item's target directory was asked for, where it is planned.
pub open spec fn target_was_asked(
    repo: RepoView,
    plan: PlanView,
    args: ArgsView,
    answers: Seq<Answer>,
    k: int,
) -> bool {
    plan.items[k].target ==> was_asked(
        repo,
        plan,
        args,
        answers,
        Wish::Remove(plan.items[k].entry.target),
    )
}

/// What was asked for stays so.
pub proof fn asked_stays_asked(
    repo: RepoView,
    plan: PlanView,
    args: ArgsView,
    answers: Seq<Answer>,
    wish: Wish,
)
    requires
        answers.len() > 0,
        was_asked(repo, plan, args, answers.drop_last(), wish),
    ensures
        was_asked(repo, plan, args, answers, wish),
{
    let before = answers.drop_last();
    let j = choose|j: int|
        0 <= j <= before.len() && (#[trigger] run(repo, plan, args, before.take(j))).1 == wish;
    assert(before.take(j) =~= answers.take(j));
}

/// What is asked for last was asked for.
pub proof fn last_wish_was_asked(
    repo: RepoView,
    plan: PlanView,
    args: ArgsView,
    answers: Seq<Answer>,
)
    ensures
        was_asked(repo, plan, args, answers, run(repo, plan, args, answers).1),
{
    let n = answers.len() as int;
    assert(answers.take(n) =~= answers);
    assert(run(repo, plan, args, answers.take(n)).1 == run(repo, plan, args, answers).1);
}

/// How far the item at hand has come: its directory was asked for, and its target directory.
pub open spec fn has_come_so_far(
    repo: RepoView,
    plan: PlanView,
    args: ArgsView,
    answers: Seq<Answer>,
) -> bool {
    let s = run(repo, plan, args, answers).0;
    &&& forall|k: int|
        0 <= k < s.index ==> #[trigger] place_was_asked(repo, plan, args, answers, k)
    &&& forall|k: int|
        0 <= k < s.index ==> #[trigger] target_was_asked(repo, plan, args, answers, k)
    &&& execute::is_of_item(s.phase) && !(s.phase is OrphanSize) ==> place_was_asked(
        repo,
        plan,
        args,
        answers,
        s.index,
    )
    &&& (s.phase is Target || s.phase is Parent || s.phase is Branch || s.phase is Kept
        || s.phase is Removed) ==> target_was_asked(repo, plan, args, answers, s.index)
}

/// At every moment, also of an execution that fails later, the items before the one at hand have been
/// asked for in full, and the one at hand as far as it has come.
pub proof fn items_are_asked_for(
    repo: RepoView,
    plan: PlanView,
    args: ArgsView,
    answers: Seq<Answer>,
)
    requires
        is_proper(repo, plan, args, answers),
    ensures
        has_come_so_far(repo, plan, args, answers),
    decreases answers.len(),
{
    execution_keeps_to_the_plan(repo, plan, args, answers);
    last_wish_was_asked(repo, plan, args, answers);
    if answers.len() > 0 {
        let before = answers.drop_last();
        items_are_asked_for(repo, plan, args, before);
        execution_keeps_to_the_plan(repo, plan, args, before);
        assert forall|k: int|
            place_was_asked(repo, plan, args, before, k) implies #[trigger] place_was_asked(
            repo,
            plan,
            args,
            answers,
            k,
        ) by {
            let e = plan.items[k].entry;
            if e.kind == Kind::Worktree {
                asked_stays_asked(
                    repo,
                    plan,
                    args,
                    answers,
                    Wish::GitRemove(e.path, args.force),
                );
            } else {
                asked_stays_asked(repo, plan, args, answers, Wish::Remove(e.path));
            }
        }
        assert forall|k: int|
            target_was_asked(repo, plan, args, before, k) implies #[trigger] target_was_asked(
            repo,
            plan,
            args,
            answers,
            k,
        ) by {
            if plan.items[k].target {
                asked_stays_asked(
                    repo,
                    plan,
                    args,
                    answers,
                    Wish::Remove(plan.items[k].entry.target),
                );
            }
        }
        let was = run(repo, plan, args, before).0;
        let now = run(repo, plan, args, answers).0;
        assert(now == execute::continued(repo, was, answers.last()).0);
    }
}

/// An execution that succeeds with consent has dealt with every item: it has asked for the removal
/// of its directory, and of its target directory where that is planned.
pub proof fn success_comes_after_the_last_item(
    repo: RepoView,
    plan: PlanView,
    args: ArgsView,
    answers: Seq<Answer>,
)
    requires
        is_proper(repo, plan, args, answers),
        run(repo, plan, args, answers).1 is Finish,
        args.yes,
    ensures
        run(repo, plan, args, answers).0.index == plan.items.len(),
        forall|k: int|
            0 <= k < plan.items.len() ==> #[trigger] place_was_asked(repo, plan, args, answers, k),
        forall|k: int|
            0 <= k < plan.items.len() ==> #[trigger] target_was_asked(repo, plan, args, answers, k),
{
    items_are_asked_for(repo, plan, args, answers);
    if answers.len() > 0 {
        execution_keeps_to_the_plan(repo, plan, args, answers.drop_last());
        if run(repo, plan, args, answers.drop_last()).0.phase is Dry {
            dry_is_without_consent(repo, plan, args, answers.drop_last());
        }
    }
}

/// Only without consent is a dry run announced.
pub proof fn dry_is_without_consent(
    repo: RepoView,
    plan: PlanView,
    args: ArgsView,
    answers: Seq<Answer>,
)
    requires
        is_proper(repo, plan, args, answers),
        run(repo, plan, args, answers).0.phase is Dry,
    ensures
        !args.yes,
    decreases answers.len(),
{
    if answers.len() > 0 {
        execution_keeps_to_the_plan(repo, plan, args, answers.drop_last());
    }
}

/// Items are dealt with in order: an answer moves to the next item or stays at the same.
pub proof fn items_are_dealt_with_in_order(
    repo: RepoView,
    plan: PlanView,
    args: ArgsView,
    answers: Seq<Answer>,
)
    requires
        is_proper(repo, plan, args, answers),
        answers.len() > 0,
    ensures
        ({
            let was = run(repo, plan, args, answers.drop_last()).0.index;
            let now = run(repo, plan, args, answers).0.index;
            now == was || now == was + 1
        }),
{
    execution_keeps_to_the_plan(repo, plan, args, answers.drop_last());
}

/// Whatever is planned and carried out, forced or not, no directory that is asked to be removed
/// holds the main checkout or Git's data.
pub proof fn main_checkout_is_never_removed(
    repo: RepoView,
    entries: Seq<EntryView>,
    args: ArgsView,
    resolved: Seq<Seq<Seq<u8>>>,
    facts: Seq<FactsView>,
    answers: Seq<Answer>,
    p: Seq<Seq<u8>>,
)
    requires
        is_proper(repo, plan::planned(repo, entries, args, resolved, facts), args, answers),
        ({
            let wish = run(
                repo,
                plan::planned(repo, entries, args, resolved, facts),
                args,
                answers,
            ).1;
            wish == Wish::Remove(p) || wish == Wish::GitRemove(p, args.force)
        }),
    ensures
        !path::within(repo.main, p),
        !path::within(repo.common, p),
{
    let made = plan::planned(repo, entries, args, resolved, facts);
    execution_keeps_to_the_plan(repo, made, args, answers);
    let k = run(repo, made, args, answers).0.index;
    plan_laws::protected_entries_are_never_planned(repo, entries, args, resolved, facts, k);
    plan_laws::planned_targets_are_safe(repo, entries, args, resolved, facts, k);
}

/// Whatever is planned and carried out, forced or not, neither the directory that the user is in nor
/// one above it is asked to be removed.
pub proof fn user_directory_is_never_removed(
    repo: RepoView,
    entries: Seq<EntryView>,
    args: ArgsView,
    resolved: Seq<Seq<Seq<u8>>>,
    facts: Seq<FactsView>,
    answers: Seq<Answer>,
    p: Seq<Seq<u8>>,
)
    requires
        is_proper(repo, plan::planned(repo, entries, args, resolved, facts), args, answers),
        ({
            let wish = run(
                repo,
                plan::planned(repo, entries, args, resolved, facts),
                args,
                answers,
            ).1;
            wish == Wish::Remove(p) || wish == Wish::GitRemove(p, args.force) || wish
                == Wish::RemoveDir(p)
        }),
    ensures
        !path::within(repo.here, p),
{
    let made = plan::planned(repo, entries, args, resolved, facts);
    execution_keeps_to_the_plan(repo, made, args, answers);
    let k = run(repo, made, args, answers).0.index;
    plan_laws::protected_entries_are_never_planned(repo, entries, args, resolved, facts, k);
    plan_laws::planned_targets_are_safe(repo, entries, args, resolved, facts, k);
    if answers.len() > 0 {
        execution_keeps_to_the_plan(repo, made, args, answers.drop_last());
    }
}

/// Whatever is planned and carried out, forced or not, the directory of an entry that is asked to
/// be removed is not locked and holds neither the directory that the program works in, nor the one
/// that the user is in, nor another entry.
pub proof fn removed_entry_holds_nothing_protected(
    repo: RepoView,
    entries: Seq<EntryView>,
    args: ArgsView,
    resolved: Seq<Seq<Seq<u8>>>,
    facts: Seq<FactsView>,
    answers: Seq<Answer>,
)
    requires
        is_proper(repo, plan::planned(repo, entries, args, resolved, facts), args, answers),
        ({
            let s = run(
                repo,
                plan::planned(repo, entries, args, resolved, facts),
                args,
                answers,
            ).0;
            s.phase is Checkout || s.phase is Place
        }),
    ensures
        ({
            let made = plan::planned(repo, entries, args, resolved, facts);
            let s = run(repo, made, args, answers).0;
            let wish = run(repo, made, args, answers).1;
            let e = made.items[s.index].entry;
            &&& wish == Wish::Remove(e.path) || wish == Wish::GitRemove(e.path, args.force)
            &&& e.kind != Kind::Main
            &&& !e.locked
            &&& !path::within(repo.root, e.path)
            &&& !path::within(repo.here, e.path)
            &&& !plan::contains_other(entries, e.path)
        }),
{
    let made = plan::planned(repo, entries, args, resolved, facts);
    execution_keeps_to_the_plan(repo, made, args, answers);
    let k = run(repo, made, args, answers).0.index;
    plan_laws::protected_entries_are_never_planned(repo, entries, args, resolved, facts, k);
}

} // verus!
