//! What holds of every interactive choice.

use crate::args;
use crate::args::ArgsView;
use crate::entry::EntryView;
use crate::picker;
use crate::picker::{Effect, Key, PickerView, Press, Waiting};
use crate::plan;
use crate::plan::PlanView;
use crate::plan_laws;
use vstd::prelude::*;

verus! {

/// Something that happens in an interactive choice.
pub enum Happening {
    /// A key.
    Press(Press),
    /// The plan that was asked for.
    Plan(PlanView),
}

/// What comes of something that happens.
pub open spec fn next(s: PickerView, h: Happening) -> (PickerView, Effect) {
    match h {
        Happening::Press(p) => picker::pressed(s, p),
        Happening::Plan(p) => picker::informed(s, p),
    }
}

/// The state of an interactive choice, and what came last of it, after all this has happened.
pub open spec fn run(entries: Seq<EntryView>, args: ArgsView, story: Seq<Happening>) -> (
    PickerView,
    Effect,
)
    decreases story.len(),
{
    if story.len() == 0 {
        (picker::opened(entries, args), Effect::Stay)
    } else {
        next(run(entries, args, story.drop_last()).0, story.last())
    }
}

/// Plans come when they are asked for, keys when they are not, and nothing after the end.
pub open spec fn is_proper(entries: Seq<EntryView>, args: ArgsView, story: Seq<Happening>) -> bool
    decreases story.len(),
{
    story.len() == 0 || {
        let before = run(entries, args, story.drop_last());
        &&& is_proper(entries, args, story.drop_last())
        &&& !(before.1 is Quit || before.1 is Confirm)
        &&& before.0.waiting is Nothing <==> story.last() is Press
    }
}

/// The options with which a plan is asked for.
pub open spec fn asked(s: PickerView) -> ArgsView {
    match s.waiting {
        Waiting::Plan => picker::checking(s, s.args.force),
        _ => picker::checking(s, true),
    }
}

/// The last plan that was asked for, with the options that it was made with.
pub open spec fn latest(entries: Seq<EntryView>, args: ArgsView, story: Seq<Happening>) -> Option<
    (ArgsView, PlanView),
>
    decreases story.len(),
{
    if story.len() == 0 {
        None
    } else {
        match story.last() {
            Happening::Plan(p) => Some((asked(run(entries, args, story.drop_last()).0), p)),
            Happening::Press(_) => latest(entries, args, story.drop_last()),
        }
    }
}

/// What an interactive choice keeps at every moment.
pub open spec fn is_sound(s: PickerView, entries: Seq<EntryView>, args: ArgsView) -> bool {
    &&& s.entries == entries
    &&& s.args == args
    &&& s.marks.len() == entries.len()
    &&& entries.len() > 0 ==> 0 <= s.cursor < entries.len()
    &&& forall|i: int|
        0 <= i < entries.len() && #[trigger] s.marks[i] ==> picker::is_selectable(entries[i])
    &&& s.preview is Some || !(s.waiting is Nothing) ==> s.marks.contains(true)
    &&& s.force ==> s.preview is Some
    &&& s.modal is Some ==> (s.preview matches Some(v) && !v.1)
    &&& match s.waiting {
        Waiting::Nothing => true,
        Waiting::Plan => s.preview is None && s.modal is None,
        Waiting::Forced(_) => (s.preview matches Some(v) && !v.1) && s.modal is None && !s.force,
        Waiting::Force => s.modal matches Some(m) && m.1,
    }
}

/// A plan that can be confirmed is the last one made, for just this selection, and has no errors.
pub open spec fn is_vouched(s: PickerView, last: Option<(ArgsView, PlanView)>) -> bool {
    s.preview matches Some(v) ==> v.1 ==> {
        &&& last matches Some(l)
        &&& l.1.errors.len() == 0
        &&& l.0 == picker::checking(s, s.force || s.args.force)
    }
}

/// What every key keeps.
proof fn key_is_sound(s: PickerView, entries: Seq<EntryView>, args: ArgsView, p: Press)
    requires
        is_sound(s, entries, args),
        s.waiting is Nothing,
    ensures
        is_sound(picker::pressed(s, p).0, entries, args),
        picker::pressed(s, p).0.preview matches Some(v) ==> s.preview == Some(v) && picker::pressed(
            s,
            p,
        ).0.marks == s.marks && picker::pressed(s, p).0.force == s.force,
{
    let t = picker::pressed(s, p).0;
    if entries.len() > 0 {
        vstd::arithmetic::div_mod::lemma_mod_bound(s.cursor + 1, entries.len() as int);
        vstd::arithmetic::div_mod::lemma_mod_bound(
            s.cursor + entries.len() - 1,
            entries.len() as int,
        );
    }
    assert forall|i: int| 0 <= i < entries.len() && #[trigger] t.marks[i] implies picker::is_selectable(
        entries[i],
    ) by {
        if t.marks != s.marks && i != s.cursor {
            assert(s.marks.len() == entries.len());
        }
    }
}

/// At every moment only what can be selected is, a forced plan is forgotten with its preview, and
/// a plan that can be confirmed is the last one made, for just this selection, without errors.
pub proof fn choice_is_sound(
    entries: Seq<EntryView>,
    args: ArgsView,
    story: Seq<Happening>,
)
    requires
        is_proper(entries, args, story),
    ensures
        is_sound(run(entries, args, story).0, entries, args),
        is_vouched(run(entries, args, story).0, latest(entries, args, story)),
    decreases story.len(),
{
    if story.len() > 0 {
        choice_is_sound(entries, args, story.drop_last());
        let s = run(entries, args, story.drop_last()).0;
        match story.last() {
            Happening::Press(p) => key_is_sound(s, entries, args, p),
            Happening::Plan(p) => {},
        }
    }
}

/// What is confirmed is the selection, and the last plan, made for just that selection, had no
/// errors.
pub proof fn confirmed_selection_was_checked(
    entries: Seq<EntryView>,
    args: ArgsView,
    story: Seq<Happening>,
    paths: Seq<Seq<Seq<u8>>>,
    force: bool,
)
    requires
        is_proper(entries, args, story),
        run(entries, args, story).1 == Effect::Confirm(paths, force),
    ensures
        paths == picker::picked(run(entries, args, story).0),
        latest(entries, args, story) matches Some(l) && l.1.errors.len() == 0 && l.0
            == args::selecting(args, picker::written(paths), force || args.force),
        story.last() matches Happening::Press(p) && p.key == Key::Char('y') && p.pressed,
{
    if story.len() > 0 {
        choice_is_sound(entries, args, story.drop_last());
        choice_is_sound(entries, args, story);
    }
}

/// What is confirmed is never empty.
pub proof fn confirmed_selection_is_not_empty(
    entries: Seq<EntryView>,
    args: ArgsView,
    story: Seq<Happening>,
    paths: Seq<Seq<Seq<u8>>>,
    force: bool,
)
    requires
        is_proper(entries, args, story),
        run(entries, args, story).1 == Effect::Confirm(paths, force),
    ensures
        paths.len() > 0,
{
    confirmed_selection_was_checked(entries, args, story, paths, force);
    choice_is_sound(entries, args, story);
    let s = run(entries, args, story).0;
    let i = s.marks.index_of(true);
    mark_is_picked(entries, s.marks, entries.len(), i);
}

/// Every confirmed path is that of an entry that is neither the main checkout nor locked.
pub proof fn confirmed_paths_can_be_selected(
    entries: Seq<EntryView>,
    args: ArgsView,
    story: Seq<Happening>,
    paths: Seq<Seq<Seq<u8>>>,
    force: bool,
    k: int,
)
    requires
        is_proper(entries, args, story),
        run(entries, args, story).1 == Effect::Confirm(paths, force),
        0 <= k < paths.len(),
    ensures
        exists|i: int|
            0 <= i < entries.len() && (#[trigger] entries[i]).path == paths[k]
                && picker::is_selectable(entries[i]),
{
    confirmed_selection_was_checked(entries, args, story, paths, force);
    choice_is_sound(entries, args, story);
    let s = run(entries, args, story).0;
    picked_comes_from_a_mark(entries, s.marks, entries.len(), k);
}

/// A picked path is that of a marked entry.
proof fn picked_comes_from_a_mark(
    entries: Seq<EntryView>,
    marks: Seq<bool>,
    n: nat,
    k: int,
) -> (i: int)
    requires
        n <= entries.len(),
        marks.len() == entries.len(),
        0 <= k < picker::picked_to(entries, marks, n).len(),
    ensures
        0 <= i < n,
        marks[i],
        entries[i].path == picker::picked_to(entries, marks, n)[k],
    decreases n,
{
    let before = picker::picked_to(entries, marks, (n - 1) as nat);
    if k < before.len() {
        picked_comes_from_a_mark(entries, marks, (n - 1) as nat, k)
    } else {
        n - 1
    }
}

/// Back in the list, force is off.
pub proof fn force_is_off_in_the_list(
    entries: Seq<EntryView>,
    args: ArgsView,
    story: Seq<Happening>,
)
    requires
        is_proper(entries, args, story),
        run(entries, args, story).0.preview is None,
    ensures
        !run(entries, args, story).0.force,
{
    choice_is_sound(entries, args, story);
}

/// Where the reasons for blocking cannot be forced, no key leads on but away.
pub proof fn unforceable_modal_confirms_nothing(s: PickerView, p: Press)
    requires
        s.modal matches Some(m) && !m.1,
    ensures
        picker::pressed(s, p).1 is Stay || picker::pressed(s, p).1 is Quit,
{
}

/// Wherever they are pressed and whatever is selected, the quitting keys give the choice up and
/// change nothing; in the list of entries, so does the escape key.
pub proof fn quitting_keys_give_up(s: PickerView, p: Press)
    requires
        p.pressed,
        picker::is_quit(p) || (p.key == Key::Esc && s.modal is None && s.preview is None),
    ensures
        picker::pressed(s, p) == (s, Effect::Quit),
{
}

/// While a plan is shown the selection does not change.
pub proof fn shown_plan_keeps_the_selection(s: PickerView, p: Press)
    requires
        s.preview is Some,
    ensures
        picker::pressed(s, p).0.marks == s.marks,
{
}

/// Selecting an entry twice changes nothing.
pub proof fn space_twice_changes_nothing(s: PickerView, p: Press)
    requires
        p.key == Key::Char(' '),
        p.pressed,
        s.modal is None,
        s.preview is None,
        s.marks.len() == s.entries.len(),
        s.entries.len() > 0 ==> 0 <= s.cursor < s.entries.len(),
    ensures
        picker::pressed(picker::pressed(s, p).0, p).0 == s,
{
    assert(picker::pressed(picker::pressed(s, p).0, p).0.marks =~= s.marks);
}

/// A step down and a step up lead back.
pub proof fn down_and_up_lead_back(s: PickerView, down: Press, up: Press)
    requires
        picker::is_down(down.key),
        down.pressed,
        picker::is_up(up.key),
        up.pressed,
        s.modal is None,
        s.preview is None,
        s.entries.len() > 0,
        0 <= s.cursor < s.entries.len(),
    ensures
        picker::pressed(picker::pressed(s, down).0, up).0 == s,
{
    let n = s.entries.len() as int;
    picker::cursor_wraps(s.cursor, n);
    picker::cursor_wraps((s.cursor + 1) % n, n);
}

/// Toggling all selects everything that can be selected, unless all of that is: then nothing.
pub proof fn toggling_all_selects_all_or_nothing(s: PickerView, p: Press)
    requires
        p.key == Key::Char('a'),
        p.pressed,
        s.modal is None,
        s.preview is None,
    ensures
        s.marks != picker::available(s.entries) ==> picker::pressed(s, p).0.marks
            == picker::available(s.entries),
        s.marks == picker::available(s.entries) ==> picker::pressed(s, p).0.marks
            == picker::nothing(s.entries),
{
}

/// A marked entry's path is picked.
proof fn mark_is_picked(entries: Seq<EntryView>, marks: Seq<bool>, n: nat, i: int) -> (k: int)
    requires
        n <= entries.len(),
        marks.len() == entries.len(),
        0 <= i < n,
        marks[i],
    ensures
        0 <= k < picker::picked_to(entries, marks, n).len(),
        picker::picked_to(entries, marks, n)[k] == entries[i].path,
    decreases n,
{
    if i == n - 1 {
        picker::picked_to(entries, marks, (n - 1) as nat).len() as int
    } else {
        mark_is_picked(entries, marks, (n - 1) as nat, i)
    }
}

/// The plan that is asked for chooses just the selected entries, where no two lie at one path and
/// each path resolves to itself.
pub proof fn plan_chooses_just_the_selection(
    s: PickerView,
    entries: Seq<EntryView>,
    args: ArgsView,
    force: bool,
    i: int,
)
    requires
        is_sound(s, entries, args),
        forall|a: int, b: int|
            0 <= a < b < entries.len() ==> (#[trigger] entries[a]).path != (
            #[trigger] entries[b]).path,
        0 <= i < entries.len(),
    ensures
        plan::is_chosen(entries, picker::checking(s, force), picker::picked(s), i) <==> s.marks[i],
{
    let wanted = picker::checking(s, force);
    let paths = picker::picked(s);
    if s.marks[i] {
        let k = mark_is_picked(entries, s.marks, entries.len(), i);
        plan_laws::exact_path_picks_its_entry(entries, wanted.worktrees[k], paths[k], i);
    }
    if plan::is_chosen(entries, wanted, paths, i) {
        let k = choose|k: int|
            0 <= k < wanted.worktrees.len() && #[trigger] plan::is_picked(
                entries,
                wanted.worktrees[k],
                paths[k],
                i,
            );
        let m = picked_comes_from_a_mark(entries, s.marks, entries.len(), k);
        assert(plan::is_path_of_some(entries, paths[k]));
        assert(entries[i].path == entries[m].path);
    }
}

} // verus!
