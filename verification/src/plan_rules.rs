//! Which entries a removal plan holds, and what it says, in plain words.

use crate::args::ArgsView;
use crate::bytes;
use crate::entry::{EntryView, Kind};
use crate::inventory_laws;
use crate::path;
use crate::plan;
use crate::plan::{FactsView, ItemView, PlanView, Verdict};
use crate::plan_laws;
use crate::repo::RepoView;
use crate::safety;
use crate::text;
use vstd::prelude::*;
use vstd::utf8::*;

verus! {

/// The path of an entry ends in this name.
pub open spec fn bears(e: EntryView, name: Seq<u8>) -> bool {
    e.path.len() > 0 && e.path.last() == name && name != seq![46u8, 46u8]
}

/// Some entry lies at this very path.
pub open spec fn is_taken(entries: Seq<EntryView>, at: Seq<Seq<u8>>) -> bool {
    exists|j: int| 0 <= j < entries.len() && (#[trigger] entries[j]).path == at
}

/// An argument, which resolves to `at`, fits entry `i`: by its path or, where that is no entry's,
/// by its name.
pub open spec fn fits(entries: Seq<EntryView>, arg: Seq<u8>, at: Seq<Seq<u8>>, i: int) -> bool {
    entries[i].path == at || (bears(entries[i], arg) && !is_taken(entries, at))
}

/// An argument fits entry `i` and no other.
pub open spec fn fits_only(
    entries: Seq<EntryView>,
    arg: Seq<u8>,
    at: Seq<Seq<u8>>,
    i: int,
) -> bool {
    &&& 0 <= i < entries.len()
    &&& fits(entries, arg, at, i)
    &&& forall|j: int| 0 <= j < entries.len() && #[trigger] fits(entries, arg, at, j) ==> j == i
}

/// An argument fits exactly one entry.
pub open spec fn fits_one(entries: Seq<EntryView>, arg: Seq<u8>, at: Seq<Seq<u8>>) -> bool {
    exists|i: int| fits_only(entries, arg, at, i)
}

/// Fitting is meaning.
proof fn meant_in_plain_words(
    entries: Seq<EntryView>,
    arg: Seq<u8>,
    at: Seq<Seq<u8>>,
    i: int,
)
    requires
        0 <= i < entries.len(),
    ensures
        plan::is_meant(entries, arg, at, i) == fits(entries, arg, at, i),
{
    if entries[i].path == at {
        assert(plan::is_path_of_some(entries, at));
        assert(is_taken(entries, at));
    }
    assert(plan::is_path_of_some(entries, at) == is_taken(entries, at));
}

/// An argument picks an entry just where it fits that entry and no other. In particular, a name
/// picks only what bears that very name, byte for byte.
pub proof fn argument_picks_what_it_fits(
    entries: Seq<EntryView>,
    arg: Seq<u8>,
    at: Seq<Seq<u8>>,
    i: int,
)
    ensures
        plan::is_picked(entries, arg, at, i) <==> fits_only(entries, arg, at, i),
        plan::is_picked(entries, arg, at, i) && !is_taken(entries, at) ==> bears(entries[i], arg),
        plan::is_picked(entries, arg, at, i) && is_taken(entries, at) ==> entries[i].path == at,
{
    assert forall|j: int| 0 <= j < entries.len() implies plan::is_meant(entries, arg, at, j)
        == #[trigger] fits(entries, arg, at, j) by {
        meant_in_plain_words(entries, arg, at, j);
    }
    if 0 <= i < entries.len() {
        meant_in_plain_words(entries, arg, at, i);
        if plan::is_picked(entries, arg, at, i) {
            assert forall|j: int|
                0 <= j < entries.len() && #[trigger] fits(entries, arg, at, j) implies j == i by {
                assert(plan::is_meant(entries, arg, at, j));
            }
        }
        if fits_only(entries, arg, at, i) {
            assert forall|j: int|
                0 <= j < entries.len() && #[trigger] plan::is_meant(
                    entries,
                    arg,
                    at,
                    j,
                ) implies j == i by {
                assert(fits(entries, arg, at, j));
            }
        }
    }
}

/// A name that exactly one entry bears picks that entry, where it is no entry's path.
pub proof fn sole_bearer_is_picked(
    entries: Seq<EntryView>,
    arg: Seq<u8>,
    at: Seq<Seq<u8>>,
    i: int,
)
    requires
        0 <= i < entries.len(),
        bears(entries[i], arg),
        forall|j: int| 0 <= j < entries.len() && bears(#[trigger] entries[j], arg) ==> j == i,
        forall|j: int| 0 <= j < entries.len() ==> (#[trigger] entries[j]).path != at,
    ensures
        plan::is_picked(entries, arg, at, i),
        plan::picks_one(entries, arg, at),
{
    assert(!is_taken(entries, at));
    assert forall|j: int| 0 <= j < entries.len() && #[trigger] fits(entries, arg, at, j) implies j
        == i by {
        assert(bears(entries[j], arg));
    }
    argument_picks_what_it_fits(entries, arg, at, i);
}

/// Entry `i` is wanted: as a leftover or an unclaimed target directory, where those are asked for, or
/// by an argument that fits it alone.
pub open spec fn is_wanted(
    entries: Seq<EntryView>,
    args: ArgsView,
    resolved: Seq<Seq<Seq<u8>>>,
    i: int,
) -> bool {
    ||| args.stale && entries[i].kind == Kind::Stale
    ||| args.orphans && entries[i].kind == Kind::Orphan
    ||| exists|k: int|
        0 <= k < args.worktrees.len() && #[trigger] fits_only(
            entries,
            args.worktrees[k],
            resolved[k],
            i,
        )
}

/// What is wanted is selected, and nothing else.
pub proof fn wanted_entries_are_selected(
    entries: Seq<EntryView>,
    args: ArgsView,
    resolved: Seq<Seq<Seq<u8>>>,
    i: int,
)
    ensures
        plan::is_chosen(entries, args, resolved, i) <==> is_wanted(entries, args, resolved, i),
{
    assert forall|k: int| 0 <= k < args.worktrees.len() implies plan::is_picked(
        entries,
        args.worktrees[k],
        resolved[k],
        i,
    ) == #[trigger] fits_only(entries, args.worktrees[k], resolved[k], i) by {
        argument_picks_what_it_fits(entries, args.worktrees[k], resolved[k], i);
    }
    if exists|k: int|
        0 <= k < args.worktrees.len() && #[trigger] plan::is_picked(
            entries,
            args.worktrees[k],
            resolved[k],
            i,
        ) {
        let k = choose|k: int|
            0 <= k < args.worktrees.len() && #[trigger] plan::is_picked(
                entries,
                args.worktrees[k],
                resolved[k],
                i,
            );
        assert(fits_only(entries, args.worktrees[k], resolved[k], i));
    }
    if exists|k: int|
        0 <= k < args.worktrees.len() && #[trigger] fits_only(
            entries,
            args.worktrees[k],
            resolved[k],
            i,
        ) {
        let k = choose|k: int|
            0 <= k < args.worktrees.len() && #[trigger] fits_only(
                entries,
                args.worktrees[k],
                resolved[k],
                i,
            );
        assert(plan::is_picked(entries, args.worktrees[k], resolved[k], i));
    }
}

/// The target directory of an entry stands alone: strictly below the base, not the directory of all
/// the repository's, apart from the main checkout's target directories, from Git's data, from the
/// main checkout and from all that belongs to entries elsewhere, and not above the entry itself
/// unless it is that entry.
pub open spec fn stands_alone(repo: RepoView, e: EntryView, entries: Seq<EntryView>) -> bool {
    &&& repo.base.is_prefix_of(e.target)
    &&& e.target != repo.base
    &&& e.target != repo.key
    &&& inventory_laws::are_apart(e.target, repo.key.push(encode_utf8("main"@)))
    &&& inventory_laws::are_apart(e.target, repo.common)
    &&& inventory_laws::are_apart(e.target, repo.main)
    &&& forall|j: int|
        0 <= j < entries.len() && (#[trigger] entries[j]).path != e.path
            ==> inventory_laws::are_apart(e.target, entries[j].path) && inventory_laws::are_apart(
            e.target,
            entries[j].target,
        )
    &&& e.kind == Kind::Orphan || !e.target.is_prefix_of(e.path)
}

/// A target directory may be removed just where it stands alone.
pub proof fn lone_target_is_safe(repo: RepoView, e: EntryView, entries: Seq<EntryView>)
    ensures
        safety::is_target_safe(repo, e, entries) <==> stands_alone(repo, e, entries),
{
    let name = encode_utf8("main"@);
    reveal_strlit("main");
    is_ascii_chars_encode_utf8("main"@);
    assert(name.len() == 4);
    assert(path::valid_name(name));
    path::file_name_is_one_component(name);
    assert(path::joined(repo.key, bytes::utf8("main"@)) =~= repo.key.push(name));
    if safety::is_target_safe(repo, e, entries) {
        assert forall|j: int|
            0 <= j < entries.len() && (#[trigger] entries[j]).path
                != e.path implies inventory_laws::are_apart(e.target, entries[j].path)
            && inventory_laws::are_apart(e.target, entries[j].target) by {
            assert(!path::overlap(e.target, entries[j].target));
        }
    }
    if stands_alone(repo, e, entries) {
        assert forall|j: int|
            0 <= j < entries.len() && (#[trigger] entries[j]).path != e.path implies !path::overlap(
            e.target,
            entries[j].target,
        ) && !path::overlap(e.target, entries[j].path) by {
            assert(inventory_laws::are_apart(e.target, entries[j].path));
        }
    }
}

/// The target directory of an entry goes with it: that is not forbidden, it is there, stands alone,
/// is not the entry itself, and the user is not in it.
pub open spec fn loses_target(
    repo: RepoView,
    entries: Seq<EntryView>,
    e: EntryView,
    args: ArgsView,
    f: FactsView,
) -> bool {
    &&& !args.keep_target
    &&& e.kind != Kind::Orphan
    &&& f.target_is_dir
    &&& stands_alone(repo, e, entries)
    &&& !e.target.is_prefix_of(repo.here)
}

/// An entry is out of reach of any removal: it is the main checkout or locked, holds the directory
/// that the program works in or that the user is in, Git's data or the main checkout, or another
/// entry.
pub open spec fn is_out_of_reach(
    repo: RepoView,
    entries: Seq<EntryView>,
    e: EntryView,
) -> bool {
    ||| e.kind == Kind::Main
    ||| e.locked
    ||| e.path.is_prefix_of(repo.root)
    ||| e.path.is_prefix_of(repo.here)
    ||| e.path.is_prefix_of(repo.common)
    ||| e.path.is_prefix_of(repo.main)
    ||| exists|j: int|
        0 <= j < entries.len() && (#[trigger] entries[j]).path != e.path && e.path.is_prefix_of(
            entries[j].path,
        )
}

/// Removing an entry loses nothing that it must not: a worktree is there and, without force, clean
/// and merged or pushed; a leftover is forced; an unclaimed target directory stands alone.
pub open spec fn loses_nothing(
    repo: RepoView,
    entries: Seq<EntryView>,
    e: EntryView,
    force: bool,
    f: FactsView,
) -> bool {
    &&& e.kind == Kind::Worktree ==> {
        &&& f.is_dir
        &&& f.dirty matches Ok(d) && (force || !d)
        &&& f.state matches Ok(s) && (force || s == "merged"@ || s == "pushed"@)
    }
    &&& e.kind == Kind::Stale ==> force
    &&& e.kind == Kind::Orphan ==> stands_alone(repo, e, entries)
}

/// An entry is fit to go: within reach, without loss, and all of it, and of the target directory that
/// goes with it, can be removed.
pub open spec fn is_fit(
    repo: RepoView,
    entries: Seq<EntryView>,
    e: EntryView,
    args: ArgsView,
    f: FactsView,
) -> bool {
    &&& !is_out_of_reach(repo, entries, e)
    &&& loses_nothing(repo, entries, e, args.force, f)
    &&& f.exists ==> f.clear is Ok
    &&& loses_target(repo, entries, e, args, f) ==> f.target_clear is Ok
}

/// A selected entry goes just where it is fit to, with its target directory just where that goes.
pub proof fn fit_entries_go(
    repo: RepoView,
    entries: Seq<EntryView>,
    e: EntryView,
    args: ArgsView,
    f: FactsView,
)
    ensures
        plan::verdict_of(repo, entries, e, args, f) is Granted <==> is_fit(
            repo,
            entries,
            e,
            args,
            f,
        ),
        plan::verdict_of(repo, entries, e, args, f) matches Verdict::Granted(t, _) ==> t
            == loses_target(repo, entries, e, args, f),
        plan::target_goes(repo, entries, e, args, f.target_is_dir) == loses_target(
            repo,
            entries,
            e,
            args,
            f,
        ),
        plan::protection_of(repo, entries, e) is Some <==> is_out_of_reach(repo, entries, e),
{
    lone_target_is_safe(repo, e, entries);
    if exists|j: int|
        0 <= j < entries.len() && (#[trigger] entries[j]).path != e.path && e.path.is_prefix_of(
            entries[j].path,
        ) {
        let j = choose|j: int|
            0 <= j < entries.len() && (#[trigger] entries[j]).path != e.path && e.path.is_prefix_of(
                entries[j].path,
            );
        assert(path::within(entries[j].path, e.path));
        assert(plan::contains_other(entries, e.path));
    }
    if plan::contains_other(entries, e.path) {
        let j = choose|j: int|
            0 <= j < entries.len() && (#[trigger] entries[j]).path != e.path && path::within(
                entries[j].path,
                e.path,
            );
        assert(e.path.is_prefix_of(entries[j].path));
    }
}

/// A plan holds just the entries that are wanted and fit to go, each once, in the order of the
/// inventory, each with its target directory just where that goes.
pub proof fn plan_holds_what_is_wanted_and_fit(
    repo: RepoView,
    entries: Seq<EntryView>,
    args: ArgsView,
    resolved: Seq<Seq<Seq<u8>>>,
    facts: Seq<FactsView>,
)
    ensures
        ({
            let p = plan::planned(repo, entries, args, resolved, facts);
            let from = plan_laws::granted_to(repo, entries, args, resolved, facts, entries.len());
            &&& p.items.len() == from.len()
            &&& forall|k: int|
                0 <= k < from.len() ==> {
                    &&& 0 <= #[trigger] from[k] < entries.len()
                    &&& is_wanted(entries, args, resolved, from[k])
                    &&& is_fit(repo, entries, entries[from[k]], args, facts[from[k]])
                    &&& p.items[k].entry == entries[from[k]]
                    &&& p.items[k].target == loses_target(
                        repo,
                        entries,
                        entries[from[k]],
                        args,
                        facts[from[k]],
                    )
                }
            &&& forall|k: int, m: int|
                0 <= k < m < from.len() ==> #[trigger] from[k] < #[trigger] from[m]
            &&& forall|i: int|
                0 <= i < entries.len() && is_wanted(entries, args, resolved, i) && is_fit(
                    repo,
                    entries,
                    entries[i],
                    args,
                    facts[i],
                ) ==> #[trigger] from.contains(i)
        }),
{
    let from = plan_laws::granted_to(repo, entries, args, resolved, facts, entries.len());
    let p = plan::planned(repo, entries, args, resolved, facts);
    plan_laws::items_are_the_granted_entries(repo, entries, args, resolved, facts, entries.len());
    assert forall|k: int| 0 <= k < from.len() implies {
        &&& 0 <= #[trigger] from[k] < entries.len()
        &&& is_wanted(entries, args, resolved, from[k])
        &&& is_fit(repo, entries, entries[from[k]], args, facts[from[k]])
        &&& p.items[k].entry == entries[from[k]]
        &&& p.items[k].target == loses_target(
            repo,
            entries,
            entries[from[k]],
            args,
            facts[from[k]],
        )
    } by {
        let i = from[k];
        wanted_entries_are_selected(entries, args, resolved, i);
        fit_entries_go(repo, entries, entries[i], args, facts[i]);
    }
    assert forall|i: int|
        0 <= i < entries.len() && is_wanted(entries, args, resolved, i) && is_fit(
            repo,
            entries,
            entries[i],
            args,
            facts[i],
        ) implies #[trigger] from.contains(i) by {
        wanted_entries_are_selected(entries, args, resolved, i);
        fit_entries_go(repo, entries, entries[i], args, facts[i]);
        assert(plan_laws::is_granted(repo, entries, args, resolved, facts, i));
    }
}

/// A plan has no error just where every argument fits exactly one entry and every wanted entry is fit
/// to go.
pub proof fn plan_is_free_where_nothing_is_amiss(
    repo: RepoView,
    entries: Seq<EntryView>,
    args: ArgsView,
    resolved: Seq<Seq<Seq<u8>>>,
    facts: Seq<FactsView>,
)
    ensures
        plan::planned(repo, entries, args, resolved, facts).errors.len() == 0 <==> {
            &&& forall|k: int|
                0 <= k < args.worktrees.len() ==> fits_one(entries, #[trigger] args.worktrees[k], resolved[k])
            &&& forall|i: int|
                0 <= i < entries.len() && is_wanted(entries, args, resolved, i) ==> is_fit(
                    repo,
                    entries,
                    #[trigger] entries[i],
                    args,
                    facts[i],
                )
        },
{
    let p = plan::planned(repo, entries, args, resolved, facts);
    if p.errors.len() == 0 {
        plan_laws::free_plan_takes_every_choice(repo, entries, args, resolved, facts);
        assert forall|k: int| 0 <= k < args.worktrees.len() implies fits_one(entries, #[trigger] args.worktrees[k], resolved[k]) by {
            let i = choose|i: int| plan::is_picked(entries, args.worktrees[k], resolved[k], i);
            argument_picks_what_it_fits(entries, args.worktrees[k], resolved[k], i);
        }
        assert forall|i: int|
            0 <= i < entries.len() && is_wanted(entries, args, resolved, i) implies is_fit(
            repo,
            entries,
            #[trigger] entries[i],
            args,
            facts[i],
        ) by {
            wanted_entries_are_selected(entries, args, resolved, i);
            fit_entries_go(repo, entries, entries[i], args, facts[i]);
            if !is_fit(repo, entries, entries[i], args, facts[i]) {
                plan_laws::one_refusal_blocks_the_plan(repo, entries, args, resolved, facts, i);
            }
        }
    } else if (forall|k: int|
        0 <= k < args.worktrees.len() ==> fits_one(entries, #[trigger] args.worktrees[k], resolved[k])) && (
    forall|i: int|
        0 <= i < entries.len() && is_wanted(entries, args, resolved, i) ==> is_fit(
            repo,
            entries,
            #[trigger] entries[i],
            args,
            facts[i],
        )) {
        all_arguments_match(entries, args, resolved, args.worktrees.len());
        all_entries_go(repo, entries, args, resolved, facts, entries.len());
    }
}

/// Where every argument fits one entry, none is complained of.
proof fn all_arguments_match(
    entries: Seq<EntryView>,
    args: ArgsView,
    resolved: Seq<Seq<Seq<u8>>>,
    n: nat,
)
    requires
        n <= args.worktrees.len(),
        forall|k: int|
            0 <= k < args.worktrees.len() ==> fits_one(entries, #[trigger] args.worktrees[k], resolved[k]),
    ensures
        plan::unmatched(entries, args, resolved, n).len() == 0,
    decreases n,
{
    if n > 0 {
        all_arguments_match(entries, args, resolved, (n - 1) as nat);
        let k = n - 1;
        assert(fits_one(entries, args.worktrees[k], resolved[k]));
        let i = choose|i: int| fits_only(entries, args.worktrees[k], resolved[k], i);
        argument_picks_what_it_fits(entries, args.worktrees[k], resolved[k], i);
        assert(plan::picks_one(entries, args.worktrees[k], resolved[k]));
    }
}

/// Where every wanted entry is fit, none is refused.
proof fn all_entries_go(
    repo: RepoView,
    entries: Seq<EntryView>,
    args: ArgsView,
    resolved: Seq<Seq<Seq<u8>>>,
    facts: Seq<FactsView>,
    n: nat,
)
    requires
        n <= entries.len(),
        plan::unmatched(entries, args, resolved, args.worktrees.len()).len() == 0,
        forall|i: int|
            0 <= i < entries.len() && is_wanted(entries, args, resolved, i) ==> is_fit(
                repo,
                entries,
                #[trigger] entries[i],
                args,
                facts[i],
            ),
    ensures
        plan::planned_to(repo, entries, args, resolved, facts, n).errors.len() == 0,
    decreases n,
{
    if n > 0 {
        let i = n - 1;
        all_entries_go(repo, entries, args, resolved, facts, i as nat);
        wanted_entries_are_selected(entries, args, resolved, i);
        fit_entries_go(repo, entries, entries[i], args, facts[i]);
        assert(is_wanted(entries, args, resolved, i) ==> is_fit(
            repo,
            entries,
            entries[i],
            args,
            facts[i],
        ));
    }
}

/// What is complained of an argument stays in the plan's errors.
proof fn complaint_stays(
    repo: RepoView,
    entries: Seq<EntryView>,
    args: ArgsView,
    resolved: Seq<Seq<Seq<u8>>>,
    facts: Seq<FactsView>,
    n: nat,
    m: Seq<char>,
)
    requires
        plan::unmatched(entries, args, resolved, args.worktrees.len()).contains(m),
    ensures
        plan::planned_to(repo, entries, args, resolved, facts, n).errors.contains(m),
    decreases n,
{
    if n > 0 {
        complaint_stays(repo, entries, args, resolved, facts, (n - 1) as nat, m);
        let before = plan::planned_to(repo, entries, args, resolved, facts, (n - 1) as nat).errors;
        let now = plan::planned_to(repo, entries, args, resolved, facts, n).errors;
        let j = before.index_of(m);
        assert(now[j] == m);
    }
}

/// A complaint about an argument is not taken back.
proof fn unmatched_holds(
    entries: Seq<EntryView>,
    args: ArgsView,
    resolved: Seq<Seq<Seq<u8>>>,
    k: int,
    n: nat,
)
    requires
        0 <= k < n,
        !plan::picks_one(entries, args.worktrees[k], resolved[k]),
    ensures
        plan::unmatched(entries, args, resolved, n).contains(
            text::shown(args.worktrees[k]) + ": unknown or ambiguous worktree"@,
        ),
    decreases n,
{
    let m = text::shown(args.worktrees[k]) + ": unknown or ambiguous worktree"@;
    let now = plan::unmatched(entries, args, resolved, n);
    if k == n - 1 {
        assert(now[now.len() - 1] == m);
    } else {
        unmatched_holds(entries, args, resolved, k, (n - 1) as nat);
        let before = plan::unmatched(entries, args, resolved, (n - 1) as nat);
        let j = before.index_of(m);
        assert(now[j] == m);
    }
}

/// An argument that fits no entry, or more than one, is named in the plan's errors.
pub proof fn unfitting_argument_is_named(
    repo: RepoView,
    entries: Seq<EntryView>,
    args: ArgsView,
    resolved: Seq<Seq<Seq<u8>>>,
    facts: Seq<FactsView>,
    k: int,
)
    requires
        0 <= k < args.worktrees.len(),
        !fits_one(entries, args.worktrees[k], resolved[k]),
    ensures
        plan::planned(repo, entries, args, resolved, facts).errors.contains(
            text::shown(args.worktrees[k]) + ": unknown or ambiguous worktree"@,
        ),
{
    if plan::picks_one(entries, args.worktrees[k], resolved[k]) {
        let i = choose|i: int| plan::is_picked(entries, args.worktrees[k], resolved[k], i);
        argument_picks_what_it_fits(entries, args.worktrees[k], resolved[k], i);
        assert(fits_only(entries, args.worktrees[k], resolved[k], i));
    }
    unmatched_holds(entries, args, resolved, k, args.worktrees.len());
    complaint_stays(
        repo,
        entries,
        args,
        resolved,
        facts,
        entries.len(),
        text::shown(args.worktrees[k]) + ": unknown or ambiguous worktree"@,
    );
}

/// A list holds all texts of another.
pub open spec fn holds_all(list: Seq<Seq<char>>, some: Seq<Seq<char>>) -> bool {
    forall|j: int| 0 <= j < some.len() ==> list.contains(#[trigger] some[j])
}

/// A refusal stays in the plan's errors, and the notes on what goes in its notes.
proof fn verdict_stays(
    repo: RepoView,
    entries: Seq<EntryView>,
    args: ArgsView,
    resolved: Seq<Seq<Seq<u8>>>,
    facts: Seq<FactsView>,
    i: int,
    n: nat,
)
    requires
        0 <= i < n <= entries.len(),
        plan::is_chosen(entries, args, resolved, i),
    ensures
        ({
            let p = plan::planned_to(repo, entries, args, resolved, facts, n);
            match plan::verdict_of(repo, entries, entries[i], args, facts[i]) {
                Verdict::Refused(m) => p.errors.contains(m),
                Verdict::Granted(_, notes) => holds_all(p.notes, notes),
            }
        }),
    decreases n,
{
    let before = plan::planned_to(repo, entries, args, resolved, facts, (n - 1) as nat);
    let now = plan::planned_to(repo, entries, args, resolved, facts, n);
    if i == n - 1 {
        match plan::verdict_of(repo, entries, entries[i], args, facts[i]) {
            Verdict::Refused(m) => {
                assert(now.errors[now.errors.len() - 1] == m);
            },
            Verdict::Granted(_, notes) => {
                assert forall|j: int| 0 <= j < notes.len() implies now.notes.contains(
                    #[trigger] notes[j],
                ) by {
                    assert(now.notes[before.notes.len() + j] == notes[j]);
                }
            },
        }
    } else {
        verdict_stays(repo, entries, args, resolved, facts, i, (n - 1) as nat);
        match plan::verdict_of(repo, entries, entries[i], args, facts[i]) {
            Verdict::Refused(m) => {
                let j = before.errors.index_of(m);
                assert(now.errors[j] == m);
            },
            Verdict::Granted(_, notes) => {
                assert forall|j: int| 0 <= j < notes.len() implies now.notes.contains(
                    #[trigger] notes[j],
                ) by {
                    let x = before.notes.index_of(notes[j]);
                    assert(now.notes[x] == notes[j]);
                }
            },
        }
    }
}

/// The plan says of a wanted entry, by its path, why it is out of reach.
pub proof fn plan_says_what_is_out_of_reach(
    repo: RepoView,
    entries: Seq<EntryView>,
    args: ArgsView,
    resolved: Seq<Seq<Seq<u8>>>,
    facts: Seq<FactsView>,
    i: int,
)
    requires
        0 <= i < entries.len(),
        is_wanted(entries, args, resolved, i),
    ensures
        ({
            let e = entries[i];
            let errors = plan::planned(repo, entries, args, resolved, facts).errors;
            let said = |m: Seq<char>| errors.contains(path::display(e.path) + ": "@ + m);
            let reached = e.kind != Kind::Main && !e.locked;
            let free = reached && !e.path.is_prefix_of(repo.root) && !e.path.is_prefix_of(
                repo.here,
            );
            let clear = free && !e.path.is_prefix_of(repo.common) && !e.path.is_prefix_of(
                repo.main,
            );
            &&& e.kind == Kind::Main ==> said("main checkout is protected"@)
            &&& e.kind != Kind::Main && e.locked ==> said(
                "locked worktree; unlock it explicitly first"@,
            )
            &&& reached && !free ==> said(
                "cannot remove the current working directory or its ancestor; run from the main checkout"@,
            )
            &&& free && !clear ==> said("repository metadata is protected"@)
            &&& clear && is_out_of_reach(repo, entries, e) ==> said(
                "contains another worktree or target candidate"@,
            )
        }),
{
    wanted_entries_are_selected(entries, args, resolved, i);
    fit_entries_go(repo, entries, entries[i], args, facts[i]);
    verdict_stays(repo, entries, args, resolved, facts, i, entries.len());
}

/// The plan says of a wanted entry within reach what would be lost with it, or what hinders its
/// removal.
pub proof fn plan_says_what_would_be_lost(
    repo: RepoView,
    entries: Seq<EntryView>,
    args: ArgsView,
    resolved: Seq<Seq<Seq<u8>>>,
    facts: Seq<FactsView>,
    i: int,
)
    requires
        0 <= i < entries.len(),
        is_wanted(entries, args, resolved, i),
        !is_out_of_reach(repo, entries, entries[i]),
    ensures
        ({
            let e = entries[i];
            let f = facts[i];
            let errors = plan::planned(repo, entries, args, resolved, facts).errors;
            let said = |m: Seq<char>| errors.contains(path::display(e.path) + ": "@ + m);
            let there = e.kind == Kind::Worktree && f.is_dir;
            &&& e.kind == Kind::Worktree && !f.is_dir ==> said(
                "missing worktree; use git worktree prune to clear its registration"@,
            )
            &&& there ==> (f.dirty matches Err(m) ==> said(m))
            &&& there && f.dirty == Ok::<bool, Seq<char>>(true) && !args.force ==> said(
                "uncommitted or untracked files; pass --force to discard"@,
            )
            &&& there && (f.dirty == Ok::<bool, Seq<char>>(false) || (f.dirty is Ok && args.force))
                ==> {
                &&& f.state matches Err(m) ==> said(m)
                &&& f.state matches Ok(s) ==> !args.force && s != "merged"@ && s != "pushed"@
                    ==> said("commits are local-only; push them or pass --force"@)
            }
            &&& e.kind == Kind::Stale && !args.force ==> said(
                "stale files cannot be checked for uncommitted work; inspect them and pass --force"@,
            )
            &&& e.kind == Kind::Orphan && !stands_alone(repo, e, entries) ==> said(
                "unsafe orphan target path"@,
            )
            &&& loses_nothing(repo, entries, e, args.force, f) && f.exists ==> (f.clear matches Err(
                m,
            ) ==> said(m))
            &&& loses_nothing(repo, entries, e, args.force, f) && (f.exists ==> f.clear is Ok)
                && loses_target(repo, entries, e, args, f) ==> (f.target_clear matches Err(m)
                ==> errors.contains(path::display(e.target) + ": "@ + m))
        }),
{
    wanted_entries_are_selected(entries, args, resolved, i);
    fit_entries_go(repo, entries, entries[i], args, facts[i]);
    lone_target_is_safe(repo, entries[i], entries);
    verdict_stays(repo, entries, args, resolved, facts, i, entries.len());
}

/// The plan notes, of every entry that goes, the target directory that is there and kept, and, where
/// branches are to be deleted, its branch.
pub proof fn plan_notes_what_is_kept_and_deleted(
    repo: RepoView,
    entries: Seq<EntryView>,
    args: ArgsView,
    resolved: Seq<Seq<Seq<u8>>>,
    facts: Seq<FactsView>,
    i: int,
)
    requires
        0 <= i < entries.len(),
        is_wanted(entries, args, resolved, i),
        is_fit(repo, entries, entries[i], args, facts[i]),
    ensures
        ({
            let e = entries[i];
            let notes = plan::planned(repo, entries, args, resolved, facts).notes;
            &&& facts[i].target_is_dir && e.kind != Kind::Orphan && !loses_target(
                repo,
                entries,
                e,
                args,
                facts[i],
            ) ==> notes.contains(
                "KEEP target (shared, protected, outside base or --keep-target): "@ + path::display(
                    e.target,
                ),
            )
            &&& args.delete_branch ==> (e.branch matches Some(b) ==> notes.contains(
                "Delete local branch "@ + b
                    + " after removing checkout (Git checks merge unless --force)."@,
            ))
        }),
{
    let e = entries[i];
    wanted_entries_are_selected(entries, args, resolved, i);
    fit_entries_go(repo, entries, e, args, facts[i]);
    verdict_stays(repo, entries, args, resolved, facts, i, entries.len());
    let goes = loses_target(repo, entries, e, args, facts[i]);
    let notes = plan::notes_of(e, args, facts[i], goes);
    assert(plan::verdict_of(repo, entries, e, args, facts[i]) == Verdict::Granted(goes, notes));
    if facts[i].target_is_dir && e.kind != Kind::Orphan && !goes {
        assert(notes[0] == "KEEP target (shared, protected, outside base or --keep-target): "@
            + path::display(e.target));
    }
    if args.delete_branch && e.branch is Some {
        assert(notes[notes.len() - 1] == "Delete local branch "@ + e.branch->0
            + " after removing checkout (Git checks merge unless --force)."@);
    }
}

/// Every note of a plan is on an item of it: a target directory that does not go, or a branch that is
/// deleted.
pub proof fn notes_are_on_items(
    repo: RepoView,
    entries: Seq<EntryView>,
    args: ArgsView,
    resolved: Seq<Seq<Seq<u8>>>,
    facts: Seq<FactsView>,
    n: nat,
    k: int,
) -> (m: int)
    requires
        n <= entries.len(),
        0 <= k < plan::planned_to(repo, entries, args, resolved, facts, n).notes.len(),
    ensures
        ({
            let p = plan::planned_to(repo, entries, args, resolved, facts, n);
            &&& 0 <= m < p.items.len()
            &&& {
                ||| !p.items[m].target && p.items[m].entry.kind != Kind::Orphan && p.notes[k]
                    == "KEEP target (shared, protected, outside base or --keep-target): "@
                    + path::display(p.items[m].entry.target)
                ||| args.delete_branch && (p.items[m].entry.branch matches Some(b) && p.notes[k]
                    == "Delete local branch "@ + b
                    + " after removing checkout (Git checks merge unless --force)."@)
            }
        }),
    decreases n,
{
    let i = n - 1;
    let before = plan::planned_to(repo, entries, args, resolved, facts, i as nat);
    let now = plan::planned_to(repo, entries, args, resolved, facts, n);
    if k < before.notes.len() {
        let m = notes_are_on_items(repo, entries, args, resolved, facts, i as nat, k);
        assert(now.notes[k] == before.notes[k]);
        assert(now.items[m] == before.items[m]);
        m
    } else {
        let m = now.items.len() - 1;
        assert(now.items[m].entry == entries[i]);
        m
    }
}

/// A text occurs in another.
pub open spec fn occurs(part: Seq<char>, whole: Seq<char>) -> bool {
    exists|a: Seq<char>, b: Seq<char>| whole == #[trigger] (a + part + b)
}

/// A line of a plan occurs in its description.
proof fn line_occurs(p: PlanView, k: int)
    requires
        0 <= k < plan::plan_lines(p).len(),
    ensures
        occurs(plan::plan_lines(p)[k], plan::description(p)),
{
    let (a, b) = text::joined_text_holds_each(plan::plan_lines(p), "\n"@, k);
    assert(plan::description(p) == a + plan::plan_lines(p)[k] + b);
}

/// The lines of an item stand among those of all.
proof fn item_lines_stand(items: Seq<ItemView>, k: int) -> (m: int)
    requires
        0 <= k < items.len(),
    ensures
        0 <= m,
        m + plan::item_lines(items[k]).len() <= plan::removal_lines(items).len(),
        forall|j: int|
            0 <= j < plan::item_lines(items[k]).len() ==> plan::removal_lines(items)[m + j]
                == #[trigger] plan::item_lines(items[k])[j],
    decreases items.len(),
{
    let before = plan::removal_lines(items.drop_last());
    if k == items.len() - 1 {
        before.len() as int
    } else {
        let m = item_lines_stand(items.drop_last(), k);
        assert(items.drop_last()[k] == items[k]);
        assert forall|j: int| 0 <= j < plan::item_lines(items[k]).len() implies plan::removal_lines(
            items,
        )[m + j] == #[trigger] plan::item_lines(items[k])[j] by {
            assert(plan::removal_lines(items)[m + j] == before[m + j]);
        }
        m
    }
}

/// The word for what an item is.
pub open spec fn word_of(kind: Kind) -> Seq<char> {
    match kind {
        Kind::Main => "Main"@,
        Kind::Worktree => "Worktree"@,
        Kind::Stale => "Stale"@,
        Kind::Orphan => "Orphan"@,
    }
}

/// The description of a plan tells every item with its kind and path, every target directory that
/// goes, every note and every error.
pub proof fn description_tells_everything(p: PlanView, k: int)
    ensures
        0 <= k < p.items.len() ==> occurs(
            "REMOVE "@ + word_of(p.items[k].entry.kind) + ": "@ + path::display(
                p.items[k].entry.path,
            ),
            plan::description(p),
        ),
        0 <= k < p.items.len() && p.items[k].target ==> occurs(
            "  cargo target: "@ + path::display(p.items[k].entry.target),
            plan::description(p),
        ),
        0 <= k < p.errors.len() ==> occurs("BLOCKED: "@ + p.errors[k], plan::description(p)),
        0 <= k < p.notes.len() ==> occurs(p.notes[k], plan::description(p)),
        p.items.len() == 0 && p.errors.len() == 0 && p.notes.len() == 0 ==> plan::description(p)
            == "Nothing to do."@,
{
    let lines = plan::plan_lines(p);
    let n = p.notes.len() as int;
    let r = plan::removal_lines(p.items).len() as int;
    if 0 <= k < p.items.len() {
        let m = item_lines_stand(p.items, k);
        let own = plan::item_lines(p.items[k]);
        assert(lines[n + m] == own[0]) by {
            assert(plan::removal_lines(p.items)[m + 0] == own[0]);
        }
        line_occurs(p, n + m);
        if p.items[k].target {
            assert(lines[n + m + 1] == own[1]) by {
                assert(plan::removal_lines(p.items)[m + 1] == own[1]);
            }
            line_occurs(p, n + m + 1);
        }
    }
    if 0 <= k < p.errors.len() {
        assert(lines[n + r + k] == "BLOCKED: "@ + p.errors[k]);
        line_occurs(p, n + r + k);
    }
    if 0 <= k < p.notes.len() {
        assert(lines[k] == p.notes[k]);
        line_occurs(p, k);
    }
}

/// The number of target directories that go.
pub open spec fn targets_gone(items: Seq<ItemView>) -> nat
    decreases items.len(),
{
    if items.len() == 0 {
        0
    } else {
        targets_gone(items.drop_last()) + if items.last().target {
            1nat
        } else {
            0nat
        }
    }
}

/// The description of a plan has a line for each note, each item, each target directory that goes
/// and each error, and no other.
pub proof fn description_tells_nothing_else(p: PlanView)
    ensures
        plan::plan_lines(p).len() == p.notes.len() + p.items.len() + targets_gone(p.items)
            + p.errors.len(),
        plan::plan_lines(p).len() > 0 ==> plan::description(p) == text::joined(
            plan::plan_lines(p),
            "\n"@,
        ),
{
    removal_lines_are_counted(p.items);
}

/// Each item has a line, and one more where its target directory goes.
proof fn removal_lines_are_counted(items: Seq<ItemView>)
    ensures
        plan::removal_lines(items).len() == items.len() + targets_gone(items),
    decreases items.len(),
{
    if items.len() > 0 {
        removal_lines_are_counted(items.drop_last());
    }
}

} // verus!
