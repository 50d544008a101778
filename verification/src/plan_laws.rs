//! What holds of every removal plan.

use crate::args::ArgsView;
use crate::entry::{EntryView, Kind};
use crate::path;
use crate::plan;
use crate::plan::{FactsView, ItemView, PlanView};
use crate::repo::RepoView;
use crate::safety;
use vstd::prelude::*;

verus! {

/// Entry `i` is selected and goes.
pub open spec fn is_granted(
    repo: RepoView,
    entries: Seq<EntryView>,
    args: ArgsView,
    resolved: Seq<Seq<Seq<u8>>>,
    facts: Seq<FactsView>,
    i: int,
) -> bool {
    plan::is_chosen(entries, args, resolved, i) && plan::verdict_of(
        repo,
        entries,
        entries[i],
        args,
        facts[i],
    ) is Granted
}

/// The indices of the entries among the first `n` that go.
pub open spec fn granted_to(
    repo: RepoView,
    entries: Seq<EntryView>,
    args: ArgsView,
    resolved: Seq<Seq<Seq<u8>>>,
    facts: Seq<FactsView>,
    n: nat,
) -> Seq<int>
    decreases n,
{
    if n == 0 {
        Seq::empty()
    } else {
        let before = granted_to(repo, entries, args, resolved, facts, (n - 1) as nat);
        if is_granted(repo, entries, args, resolved, facts, n - 1) {
            before.push(n - 1)
        } else {
            before
        }
    }
}

/// The item that entry `i` becomes.
pub open spec fn item_of(
    repo: RepoView,
    entries: Seq<EntryView>,
    args: ArgsView,
    facts: Seq<FactsView>,
    i: int,
) -> ItemView {
    ItemView {
        entry: entries[i],
        target: plan::target_goes(repo, entries, entries[i], args, facts[i].target_is_dir),
    }
}

/// The items of a plan are the selected entries that go, each once, in the order of the inventory.
pub proof fn items_are_the_granted_entries(
    repo: RepoView,
    entries: Seq<EntryView>,
    args: ArgsView,
    resolved: Seq<Seq<Seq<u8>>>,
    facts: Seq<FactsView>,
    n: nat,
)
    requires
        n <= entries.len(),
    ensures
        ({
            let p = plan::planned_to(repo, entries, args, resolved, facts, n);
            let from = granted_to(repo, entries, args, resolved, facts, n);
            &&& p.items.len() == from.len()
            &&& forall|k: int|
                0 <= k < from.len() ==> 0 <= #[trigger] from[k] < n && is_granted(
                    repo,
                    entries,
                    args,
                    resolved,
                    facts,
                    from[k],
                ) && p.items[k] == item_of(repo, entries, args, facts, from[k])
            &&& forall|k: int, m: int|
                0 <= k < m < from.len() ==> #[trigger] from[k] < #[trigger] from[m]
            &&& forall|i: int|
                0 <= i < n && is_granted(repo, entries, args, resolved, facts, i)
                    ==> #[trigger] from.contains(i)
        }),
    decreases n,
{
    if n > 0 {
        let m = (n - 1) as nat;
        items_are_the_granted_entries(repo, entries, args, resolved, facts, m);
        let before = granted_to(repo, entries, args, resolved, facts, m);
        let from = granted_to(repo, entries, args, resolved, facts, n);
        assert forall|i: int|
            0 <= i < n && is_granted(
                repo,
                entries,
                args,
                resolved,
                facts,
                i,
            ) implies #[trigger] from.contains(i) by {
            if i < m {
                assert(before.contains(i));
                let k = before.index_of(i);
                assert(from[k] == i);
            } else {
                assert(from[from.len() - 1] == i);
            }
        }
    }
}

/// Every item of a plan is a selected entry of the inventory that passed all checks.
pub proof fn item_comes_from_a_choice(
    repo: RepoView,
    entries: Seq<EntryView>,
    args: ArgsView,
    resolved: Seq<Seq<Seq<u8>>>,
    facts: Seq<FactsView>,
    k: int,
) -> (i: int)
    requires
        0 <= k < plan::planned(repo, entries, args, resolved, facts).items.len(),
    ensures
        0 <= i < entries.len(),
        plan::is_chosen(entries, args, resolved, i),
        plan::verdict_of(repo, entries, entries[i], args, facts[i]) is Granted,
        plan::bar_of(repo, entries, entries[i], args.force, facts[i]) is None,
        plan::planned(repo, entries, args, resolved, facts).items[k] == item_of(
            repo,
            entries,
            args,
            facts,
            i,
        ),
{
    items_are_the_granted_entries(repo, entries, args, resolved, facts, entries.len());
    granted_to(repo, entries, args, resolved, facts, entries.len())[k]
}

/// No plan, forced or not, removes the main checkout, a locked worktree, the directory that the
/// program works in, the one that the user is in, or one above these, Git's data, or a directory
/// that holds another entry.
pub proof fn protected_entries_are_never_planned(
    repo: RepoView,
    entries: Seq<EntryView>,
    args: ArgsView,
    resolved: Seq<Seq<Seq<u8>>>,
    facts: Seq<FactsView>,
    k: int,
)
    requires
        0 <= k < plan::planned(repo, entries, args, resolved, facts).items.len(),
    ensures
        ({
            let e = plan::planned(repo, entries, args, resolved, facts).items[k].entry;
            &&& e.kind != Kind::Main
            &&& !e.locked
            &&& !path::within(repo.root, e.path)
            &&& !path::within(repo.here, e.path)
            &&& !path::within(repo.common, e.path)
            &&& !path::within(repo.main, e.path)
            &&& forall|j: int|
                0 <= j < entries.len() && (#[trigger] entries[j]).path != e.path ==> !path::within(
                    entries[j].path,
                    e.path,
                )
        }),
{
    let i = item_comes_from_a_choice(repo, entries, args, resolved, facts, k);
}

/// Without force a plan removes a worktree only when it holds no changes and its commits are saved
/// elsewhere, and never a leftover.
pub proof fn unforced_plan_loses_no_work(
    repo: RepoView,
    entries: Seq<EntryView>,
    args: ArgsView,
    resolved: Seq<Seq<Seq<u8>>>,
    facts: Seq<FactsView>,
    k: int,
) -> (i: int)
    requires
        !args.force,
        0 <= k < plan::planned(repo, entries, args, resolved, facts).items.len(),
    ensures
        0 <= i < entries.len(),
        plan::planned(repo, entries, args, resolved, facts).items[k].entry == entries[i],
        entries[i].kind != Kind::Stale,
        entries[i].kind == Kind::Worktree ==> facts[i].is_dir && facts[i].dirty == Ok::<
            bool,
            Seq<char>,
        >(false) && (facts[i].state matches Ok(s) && plan::is_saved(s)),
{
    item_comes_from_a_choice(repo, entries, args, resolved, facts, k)
}

/// A plan removes a target directory only where that is safe and not forbidden and the user is not
/// in it, and an unclaimed one only where it is safe.
pub proof fn planned_targets_are_safe(
    repo: RepoView,
    entries: Seq<EntryView>,
    args: ArgsView,
    resolved: Seq<Seq<Seq<u8>>>,
    facts: Seq<FactsView>,
    k: int,
)
    requires
        0 <= k < plan::planned(repo, entries, args, resolved, facts).items.len(),
    ensures
        ({
            let item = plan::planned(repo, entries, args, resolved, facts).items[k];
            &&& item.target ==> !args.keep_target && item.entry.kind != Kind::Orphan
                && safety::is_target_safe(repo, item.entry, entries) && !path::within(
                repo.here,
                item.entry.target,
            )
            &&& item.entry.kind == Kind::Orphan ==> !item.target && safety::is_target_safe(
                repo,
                item.entry,
                entries,
            )
        }),
{
    let i = item_comes_from_a_choice(repo, entries, args, resolved, facts, k);
}

/// The complaints about arguments stay at the head of a plan's errors.
proof fn unmatched_arguments_stay(
    repo: RepoView,
    entries: Seq<EntryView>,
    args: ArgsView,
    resolved: Seq<Seq<Seq<u8>>>,
    facts: Seq<FactsView>,
    n: nat,
)
    ensures
        plan::planned_to(repo, entries, args, resolved, facts, n).errors.len() >= plan::unmatched(
            entries,
            args,
            resolved,
            args.worktrees.len(),
        ).len(),
    decreases n,
{
    if n > 0 {
        unmatched_arguments_stay(repo, entries, args, resolved, facts, (n - 1) as nat);
    }
}

/// Complaints are not taken back.
proof fn unmatched_grows(
    entries: Seq<EntryView>,
    args: ArgsView,
    resolved: Seq<Seq<Seq<u8>>>,
    k: nat,
    n: nat,
)
    requires
        k <= n,
    ensures
        plan::unmatched(entries, args, resolved, k).len() <= plan::unmatched(
            entries,
            args,
            resolved,
            n,
        ).len(),
    decreases n,
{
    if k < n {
        unmatched_grows(entries, args, resolved, k, (n - 1) as nat);
    }
}

/// An argument that means no entry, or more than one, blocks the whole plan.
pub proof fn unmatched_argument_blocks_the_plan(
    repo: RepoView,
    entries: Seq<EntryView>,
    args: ArgsView,
    resolved: Seq<Seq<Seq<u8>>>,
    facts: Seq<FactsView>,
    k: int,
)
    requires
        0 <= k < args.worktrees.len(),
        !plan::picks_one(entries, args.worktrees[k], resolved[k]),
    ensures
        plan::planned(repo, entries, args, resolved, facts).errors.len() > 0,
{
    unmatched_grows(entries, args, resolved, (k + 1) as nat, args.worktrees.len());
    unmatched_arguments_stay(repo, entries, args, resolved, facts, entries.len());
}

/// A name that two entries bear means neither, unless it is the path of one.
pub proof fn ambiguous_name_picks_nothing(
    entries: Seq<EntryView>,
    arg: Seq<u8>,
    at: Seq<Seq<u8>>,
    i: int,
    j: int,
)
    requires
        0 <= i < j < entries.len(),
        path::file_name(entries[i].path) == Some(arg),
        path::file_name(entries[j].path) == Some(arg),
        !plan::is_path_of_some(entries, at),
    ensures
        !plan::picks_one(entries, arg, at),
{
    assert(plan::is_meant(entries, arg, at, i));
    assert(plan::is_meant(entries, arg, at, j));
}

/// The path of a single entry means that entry, whatever names others bear.
pub proof fn exact_path_picks_its_entry(
    entries: Seq<EntryView>,
    arg: Seq<u8>,
    at: Seq<Seq<u8>>,
    i: int,
)
    requires
        0 <= i < entries.len(),
        entries[i].path == at,
        forall|j: int| 0 <= j < entries.len() && (#[trigger] entries[j]).path == at ==> j == i,
    ensures
        plan::is_picked(entries, arg, at, i),
{
    assert(plan::is_path_of_some(entries, at));
    assert forall|j: int|
        0 <= j < entries.len() && #[trigger] plan::is_meant(entries, arg, at, j) implies j == i by {
        assert(entries[j].path == at);
    }
}

/// Errors are not taken back.
proof fn errors_grow(
    repo: RepoView,
    entries: Seq<EntryView>,
    args: ArgsView,
    resolved: Seq<Seq<Seq<u8>>>,
    facts: Seq<FactsView>,
    m: nat,
    n: nat,
)
    requires
        m <= n,
    ensures
        plan::planned_to(repo, entries, args, resolved, facts, m).errors.len()
            <= plan::planned_to(repo, entries, args, resolved, facts, n).errors.len(),
    decreases n,
{
    if m < n {
        errors_grow(repo, entries, args, resolved, facts, m, (n - 1) as nat);
    }
}

/// One selected entry that cannot be removed blocks the whole plan.
pub proof fn one_refusal_blocks_the_plan(
    repo: RepoView,
    entries: Seq<EntryView>,
    args: ArgsView,
    resolved: Seq<Seq<Seq<u8>>>,
    facts: Seq<FactsView>,
    i: int,
)
    requires
        0 <= i < entries.len(),
        plan::is_chosen(entries, args, resolved, i),
        plan::verdict_of(repo, entries, entries[i], args, facts[i]) is Refused,
    ensures
        plan::planned(repo, entries, args, resolved, facts).errors.len() > 0,
{
    errors_grow(repo, entries, args, resolved, facts, (i + 1) as nat, entries.len());
}

/// A plan without errors takes every selected entry, and every argument has picked one.
pub proof fn free_plan_takes_every_choice(
    repo: RepoView,
    entries: Seq<EntryView>,
    args: ArgsView,
    resolved: Seq<Seq<Seq<u8>>>,
    facts: Seq<FactsView>,
)
    requires
        plan::planned(repo, entries, args, resolved, facts).errors.len() == 0,
    ensures
        forall|k: int|
            0 <= k < args.worktrees.len() ==> plan::picks_one(
                entries,
                #[trigger] args.worktrees[k],
                resolved[k],
            ),
        forall|i: int|
            0 <= i < entries.len() && plan::is_chosen(entries, args, resolved, i)
                ==> plan::planned(repo, entries, args, resolved, facts).items.contains(
                #[trigger] item_of(repo, entries, args, facts, i),
            ),
{
    let p = plan::planned(repo, entries, args, resolved, facts);
    assert forall|k: int| 0 <= k < args.worktrees.len() implies plan::picks_one(
        entries,
        #[trigger] args.worktrees[k],
        resolved[k],
    ) by {
        if !plan::picks_one(entries, args.worktrees[k], resolved[k]) {
            unmatched_argument_blocks_the_plan(repo, entries, args, resolved, facts, k);
        }
    }
    items_are_the_granted_entries(repo, entries, args, resolved, facts, entries.len());
    let from = granted_to(repo, entries, args, resolved, facts, entries.len());
    assert forall|i: int|
        0 <= i < entries.len() && plan::is_chosen(
            entries,
            args,
            resolved,
            i,
        ) implies p.items.contains(#[trigger] item_of(repo, entries, args, facts, i)) by {
        if plan::verdict_of(repo, entries, entries[i], args, facts[i]) is Refused {
            one_refusal_blocks_the_plan(repo, entries, args, resolved, facts, i);
        }
        assert(is_granted(repo, entries, args, resolved, facts, i));
        assert(from.contains(i));
        let k = from.index_of(i);
        assert(p.items[k] == item_of(repo, entries, args, facts, i));
    }
}

/// The same options, forced.
pub open spec fn forced(args: ArgsView) -> ArgsView {
    ArgsView { force: true, ..args }
}

/// Force changes nothing of a plan that is not blocked.
pub proof fn force_changes_no_free_plan(
    repo: RepoView,
    entries: Seq<EntryView>,
    args: ArgsView,
    resolved: Seq<Seq<Seq<u8>>>,
    facts: Seq<FactsView>,
    n: nat,
)
    requires
        plan::planned_to(repo, entries, args, resolved, facts, n).errors.len() == 0,
    ensures
        plan::planned_to(repo, entries, forced(args), resolved, facts, n) == plan::planned_to(
            repo,
            entries,
            args,
            resolved,
            facts,
            n,
        ),
    decreases n,
{
    if n == 0 {
        force_matches_the_same(entries, args, resolved, args.worktrees.len());
    } else {
        let i = n - 1;
        force_changes_no_free_plan(repo, entries, args, resolved, facts, i as nat);
        force_chooses_the_same(entries, args, resolved, i);
        if plan::is_chosen(entries, args, resolved, i) {
            assert(plan::verdict_of(repo, entries, entries[i], args, facts[i]) is Granted);
        }
    }
}

/// Force takes nothing out of a plan, blocked or not: every item stays, with or without its target
/// directory as before, and there are no more errors than without it.
pub proof fn force_takes_nothing_away(
    repo: RepoView,
    entries: Seq<EntryView>,
    args: ArgsView,
    resolved: Seq<Seq<Seq<u8>>>,
    facts: Seq<FactsView>,
    n: nat,
)
    ensures
        ({
            let plain = plan::planned_to(repo, entries, args, resolved, facts, n);
            let strong = plan::planned_to(repo, entries, forced(args), resolved, facts, n);
            &&& forall|k: int|
                0 <= k < plain.items.len() ==> strong.items.contains(#[trigger] plain.items[k])
            &&& strong.errors.len() <= plain.errors.len()
        }),
    decreases n,
{
    if n == 0 {
        force_matches_the_same(entries, args, resolved, args.worktrees.len());
    } else {
        let i = n - 1;
        force_takes_nothing_away(repo, entries, args, resolved, facts, i as nat);
        force_chooses_the_same(entries, args, resolved, i);
        let had = plan::planned_to(repo, entries, args, resolved, facts, i as nat);
        let held = plan::planned_to(repo, entries, forced(args), resolved, facts, i as nat);
        let plain = plan::planned_to(repo, entries, args, resolved, facts, n);
        let strong = plan::planned_to(repo, entries, forced(args), resolved, facts, n);
        assert forall|k: int| 0 <= k < plain.items.len() implies strong.items.contains(
            #[trigger] plain.items[k],
        ) by {
            if k < had.items.len() {
                assert(plain.items[k] == had.items[k]);
                let m = held.items.index_of(had.items[k]);
                assert(strong.items[m] == held.items[m]);
            } else {
                assert(strong.items[strong.items.len() - 1] == plain.items[k]);
            }
        }
    }
}

/// The same entries are selected whether or not force is given.
pub proof fn force_chooses_the_same(
    entries: Seq<EntryView>,
    args: ArgsView,
    resolved: Seq<Seq<Seq<u8>>>,
    i: int,
)
    ensures
        plan::is_chosen(entries, forced(args), resolved, i) == plan::is_chosen(
            entries,
            args,
            resolved,
            i,
        ),
{
    let worktrees = args.worktrees;
    assert(forced(args).worktrees == worktrees);
    if exists|k: int|
        0 <= k < worktrees.len() && #[trigger] plan::is_picked(
            entries,
            worktrees[k],
            resolved[k],
            i,
        ) {
        let k = choose|k: int|
            0 <= k < worktrees.len() && #[trigger] plan::is_picked(
                entries,
                worktrees[k],
                resolved[k],
                i,
            );
        assert(plan::is_picked(entries, forced(args).worktrees[k], resolved[k], i));
        assert(plan::is_picked(entries, args.worktrees[k], resolved[k], i));
    }
}

/// Arguments mean the same whether or not force is given.
proof fn force_matches_the_same(
    entries: Seq<EntryView>,
    args: ArgsView,
    resolved: Seq<Seq<Seq<u8>>>,
    n: nat,
)
    ensures
        plan::unmatched(entries, forced(args), resolved, n) == plan::unmatched(
            entries,
            args,
            resolved,
            n,
        ),
    decreases n,
{
    if n > 0 {
        force_matches_the_same(entries, args, resolved, (n - 1) as nat);
    }
}

/// Force lifts no protection: an entry that is protected stays so, and refuses the plan.
pub proof fn force_lifts_no_protection(
    repo: RepoView,
    entries: Seq<EntryView>,
    args: ArgsView,
    resolved: Seq<Seq<Seq<u8>>>,
    facts: Seq<FactsView>,
    i: int,
)
    requires
        0 <= i < entries.len(),
        plan::is_chosen(entries, args, resolved, i),
        plan::protection_of(repo, entries, entries[i]) is Some,
    ensures
        plan::planned(repo, entries, forced(args), resolved, facts).errors.len() > 0,
{
    force_chooses_the_same(entries, args, resolved, i);
    one_refusal_blocks_the_plan(repo, entries, forced(args), resolved, facts, i);
}

/// Leftovers are refused without force, even where they are asked for as such.
pub proof fn leftovers_need_force(
    repo: RepoView,
    entries: Seq<EntryView>,
    args: ArgsView,
    resolved: Seq<Seq<Seq<u8>>>,
    facts: Seq<FactsView>,
    i: int,
)
    requires
        0 <= i < entries.len(),
        entries[i].kind == Kind::Stale,
        plan::is_chosen(entries, args, resolved, i),
        !args.force,
    ensures
        plan::planned(repo, entries, args, resolved, facts).errors.len() > 0,
{
    one_refusal_blocks_the_plan(repo, entries, args, resolved, facts, i);
}

/// A plan for which nothing is selected is empty.
pub proof fn nothing_selected_is_nothing_planned(
    repo: RepoView,
    entries: Seq<EntryView>,
    args: ArgsView,
    resolved: Seq<Seq<Seq<u8>>>,
    facts: Seq<FactsView>,
    n: nat,
)
    requires
        args.worktrees.len() == 0,
        !args.stale,
        !args.orphans,
    ensures
        plan::planned_to(repo, entries, args, resolved, facts, n) == (PlanView {
            items: Seq::empty(),
            errors: Seq::empty(),
            notes: Seq::empty(),
        }),
    decreases n,
{
    if n > 0 {
        nothing_selected_is_nothing_planned(repo, entries, args, resolved, facts, (n - 1) as nat);
    }
}

} // verus!
