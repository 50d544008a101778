//! What each key does in the interactive choice, in plain words.

use crate::args::ArgsView;
use crate::entry::{EntryView, Kind};
use crate::path;
use crate::picker;
use crate::picker::{Effect, Key, PickerView, Press, Waiting};
use crate::plan;
use crate::plan::PlanView;
use crate::screen;
use crate::text;
use vstd::prelude::*;

verus! {

/// A key that is pressed, without the control key.
pub open spec fn plain(key: Key) -> Press {
    Press { key, control: false, pressed: true }
}

/// Nothing happens when a key is released or repeated; `q`, and `c` with the control key, give the
/// choice up wherever they are pressed.
pub proof fn keys_count_when_pressed(s: PickerView, key: Key, control: bool)
    ensures
        picker::pressed(s, Press { key, control, pressed: false }) == (s, Effect::Stay),
        picker::pressed(s, Press { key: Key::Char('q'), control, pressed: true }) == (
            s,
            Effect::Quit,
        ),
        picker::pressed(s, Press { key: Key::Char('c'), control: true, pressed: true }) == (
            s,
            Effect::Quit,
        ),
        key != Key::Char('q') && key != Key::Char('c') && !(key == Key::Esc && s.modal is None
            && s.preview is None) ==> !(picker::pressed(s, Press { key, control, pressed: true }).1
            is Quit),
{
}

/// In the list, the cursor goes one entry down or up, round the ends, and nothing else changes.
pub proof fn cursor_keys_move_by_one(s: PickerView)
    requires
        s.modal is None,
        s.preview is None,
        0 <= s.cursor < s.entries.len(),
    ensures
        ({
            let n = s.entries.len() as int;
            let down = PickerView {
                cursor: if s.cursor + 1 < n {
                    s.cursor + 1
                } else {
                    0
                },
                ..s
            };
            let up = PickerView {
                cursor: if s.cursor > 0 {
                    s.cursor - 1
                } else {
                    n - 1
                },
                ..s
            };
            &&& picker::pressed(s, plain(Key::Down)) == (down, Effect::Stay)
            &&& picker::pressed(s, plain(Key::Char('j'))) == (down, Effect::Stay)
            &&& picker::pressed(s, plain(Key::Up)) == (up, Effect::Stay)
            &&& picker::pressed(s, plain(Key::Char('k'))) == (up, Effect::Stay)
        }),
{
    picker::cursor_wraps(s.cursor, s.entries.len() as int);
}

/// In the list, the space key selects the entry under the cursor, or no longer does, unless that is
/// the main checkout or locked; no other mark changes.
pub proof fn space_toggles_the_entry_under_the_cursor(s: PickerView, i: int)
    requires
        s.modal is None,
        s.preview is None,
        s.marks.len() == s.entries.len(),
        0 <= s.cursor < s.entries.len(),
        0 <= i < s.entries.len(),
    ensures
        ({
            let t = picker::pressed(s, plain(Key::Char(' ')));
            let e = s.entries[s.cursor];
            &&& t.1 is Stay
            &&& t.0.marks.len() == s.marks.len()
            &&& i != s.cursor ==> t.0.marks[i] == s.marks[i]
            &&& e.kind != Kind::Main && !e.locked ==> t.0.marks[s.cursor] == !s.marks[s.cursor]
            &&& e.kind == Kind::Main || e.locked ==> t.0.marks[s.cursor] == s.marks[s.cursor]
            &&& t.0.cursor == s.cursor
            &&& t.0.preview is None
            &&& t.0.modal is None
        }),
{
}

/// In the list, `a` selects every entry that is neither the main checkout nor locked, unless just
/// those are selected: then none.
pub proof fn a_toggles_all(s: PickerView, i: int)
    requires
        s.modal is None,
        s.preview is None,
        s.marks.len() == s.entries.len(),
        0 <= i < s.entries.len(),
    ensures
        ({
            let t = picker::pressed(s, plain(Key::Char('a')));
            let all = forall|j: int|
                0 <= j < s.entries.len() ==> (#[trigger] s.marks[j] <==> s.entries[j].kind
                    != Kind::Main && !s.entries[j].locked);
            &&& t.1 is Stay
            &&& t.0.marks.len() == s.entries.len()
            &&& all ==> !t.0.marks[i]
            &&& !all ==> (t.0.marks[i] <==> s.entries[i].kind != Kind::Main
                && !s.entries[i].locked)
        }),
{
    let full = picker::available(s.entries);
    if forall|j: int|
        0 <= j < s.entries.len() ==> (#[trigger] s.marks[j] <==> s.entries[j].kind != Kind::Main
            && !s.entries[j].locked) {
        assert(s.marks =~= full);
    } else if s.marks == full {
        assert forall|j: int| 0 <= j < s.entries.len() implies (#[trigger] s.marks[j]
            <==> s.entries[j].kind != Kind::Main && !s.entries[j].locked) by {
            assert(full[j] == s.marks[j]);
        }
    }
}

/// The options with which the selection is planned: just its paths, written out, and force; no
/// leftovers or unclaimed target directories beside, and all else as it was.
pub open spec fn options_for(s: PickerView, force: bool) -> ArgsView {
    ArgsView {
        worktrees: Seq::new(picker::picked(s).len(), |i: int| path::written(picker::picked(s)[i])),
        force,
        stale: false,
        orphans: false,
        ..s.args
    }
}

/// In the list, the enter key asks for the plan of the selection, and does nothing where nothing is
/// selected; the escape key gives up.
pub proof fn enter_asks_for_the_plan(s: PickerView, i: int)
    requires
        s.modal is None,
        s.preview is None,
    ensures
        0 <= i < s.marks.len() && s.marks[i] ==> picker::pressed(s, plain(Key::Enter)) == (
            PickerView { waiting: Waiting::Plan, ..s },
            Effect::Check(options_for(s, s.args.force)),
        ),
        (forall|j: int| 0 <= j < s.marks.len() ==> !#[trigger] s.marks[j]) ==> picker::pressed(
            s,
            plain(Key::Enter),
        ) == (s, Effect::Stay),
        picker::pressed(s, plain(Key::Esc)) == (s, Effect::Quit),
{
    assert(options_for(s, s.args.force) =~= picker::checking(s, s.args.force));
    if 0 <= i < s.marks.len() && s.marks[i] {
        assert(s.marks.contains(true));
    }
}

/// While a plan is shown, the escape key goes back to the list and turns force off; `y` confirms the
/// selection just where the plan can be confirmed, with force as it is on; the arrows, `j` and `k`
/// scroll; and no other key does anything.
pub proof fn keys_in_a_shown_plan(s: PickerView, key: Key, shown: Seq<char>, valid: bool)
    requires
        s.modal is None,
        s.preview == Some((shown, valid)),
    ensures
        picker::pressed(s, plain(Key::Esc)) == (
            PickerView { preview: None, force: false, scroll: 0, ..s },
            Effect::Stay,
        ),
        valid ==> picker::pressed(s, plain(Key::Char('y'))) == (
            s,
            Effect::Confirm(picker::picked(s), s.force),
        ),
        !valid ==> picker::pressed(s, plain(Key::Char('y'))) == (s, Effect::Stay),
        key != Key::Esc && key != Key::Char('y') && key != Key::Char('q') && key != Key::Down && key
            != Key::Up && key != Key::Char('j') && key != Key::Char('k') ==> picker::pressed(
            s,
            plain(key),
        ) == (s, Effect::Stay),
{
}

/// While the reasons for blocking are shown, the escape key and `n` close them; `y` asks for the
/// forced plan just where force can help; the arrows, `j` and `k` scroll; and no other key does
/// anything.
pub proof fn keys_in_the_modal_window(s: PickerView, key: Key, reasons: Seq<char>, can_force: bool)
    requires
        s.modal == Some((reasons, can_force)),
    ensures
        picker::pressed(s, plain(Key::Esc)) == (
            PickerView { modal: None, scroll: 0, ..s },
            Effect::Stay,
        ),
        picker::pressed(s, plain(Key::Char('n'))) == (
            PickerView { modal: None, scroll: 0, ..s },
            Effect::Stay,
        ),
        can_force ==> picker::pressed(s, plain(Key::Char('y'))) == (
            PickerView { waiting: Waiting::Force, ..s },
            Effect::Check(options_for(s, true)),
        ),
        !can_force ==> picker::pressed(s, plain(Key::Char('y'))) == (s, Effect::Stay),
        key != Key::Esc && key != Key::Char('n') && key != Key::Char('y') && key != Key::Char('q')
            && key != Key::Down && key != Key::Up && key != Key::Char('j') && key != Key::Char('k')
            ==> picker::pressed(s, plain(key)) == (s, Effect::Stay),
{
    assert(options_for(s, true) =~= picker::checking(s, true));
}

/// While a text is shown, the arrows, `j` and `k` scroll by one line, as far as that goes, and change
/// nothing else.
pub proof fn arrows_scroll_by_one(s: PickerView)
    requires
        s.modal is Some || s.preview is Some,
    ensures
        ({
            let down = if s.scroll < u16::MAX {
                PickerView { scroll: (s.scroll + 1) as u16, ..s }
            } else {
                s
            };
            let up = if s.scroll > 0 {
                PickerView { scroll: (s.scroll - 1) as u16, ..s }
            } else {
                s
            };
            &&& picker::pressed(s, plain(Key::Down)) == (down, Effect::Stay)
            &&& picker::pressed(s, plain(Key::Char('j'))) == (down, Effect::Stay)
            &&& picker::pressed(s, plain(Key::Up)) == (up, Effect::Stay)
            &&& picker::pressed(s, plain(Key::Char('k'))) == (up, Effect::Stay)
        }),
{
}

/// A plan without errors is shown and can be confirmed; one with errors is shown as blocked, and its
/// forced form is asked for.
pub proof fn plan_is_shown(s: PickerView, p: PlanView)
    requires
        s.waiting is Plan,
    ensures
        p.errors.len() == 0 ==> picker::informed(s, p) == (
            PickerView {
                preview: Some(
                    (
                        plan::description(p) + "\n\nPress y to permanently remove these items."@,
                        true,
                    ),
                ),
                waiting: Waiting::Nothing,
                ..s
            },
            Effect::Stay,
        ),
        p.errors.len() > 0 ==> picker::informed(s, p) == (
            PickerView {
                preview: Some(
                    (plan::description(p) + "\n\nBlocked: nothing will be removed."@, false),
                ),
                waiting: Waiting::Forced(p.errors),
                ..s
            },
            Effect::Check(options_for(s, true)),
        ),
{
    assert(options_for(s, true) =~= picker::checking(s, true));
}

/// After a blocked plan the reasons are shown: its own where force would lift them all, and those that
/// force leaves otherwise.
pub proof fn reasons_are_shown(s: PickerView, p: PlanView, errors: Seq<Seq<char>>)
    requires
        s.waiting == Waiting::Forced(errors),
    ensures
        p.errors.len() == 0 ==> picker::informed(s, p) == (
            PickerView {
                modal: Some((text::joined(errors, "\n\n"@), true)),
                scroll: 0,
                waiting: Waiting::Nothing,
                ..s
            },
            Effect::Stay,
        ),
        p.errors.len() > 0 ==> picker::informed(s, p) == (
            PickerView {
                modal: Some((text::joined(p.errors, "\n\n"@), false)),
                scroll: 0,
                waiting: Waiting::Nothing,
                ..s
            },
            Effect::Stay,
        ),
{
}

/// Once force was confirmed its plan is shown, with a warning, and can be confirmed just where it has
/// no errors.
pub proof fn forced_plan_is_shown(s: PickerView, p: PlanView)
    requires
        s.waiting is Force,
    ensures
        picker::informed(s, p) == (
            PickerView {
                preview: Some(
                    (
                        plan::description(p)
                            + "\n\nFORCE: local changes and untracked files will be discarded.\nPress y to permanently remove these items."@,
                        p.errors.len() == 0,
                    ),
                ),
                modal: None,
                force: true,
                scroll: 0,
                waiting: Waiting::Nothing,
                ..s
            },
            Effect::Stay,
        ),
{
}

/// At the start nothing is shown and force is off; an entry is selected just where it is neither the
/// main checkout nor locked and was asked for: as a leftover, as an unclaimed target directory, by its
/// path or by its name.
pub proof fn choice_starts_from_the_options(entries: Seq<EntryView>, args: ArgsView, i: int)
    requires
        0 <= i < entries.len(),
    ensures
        ({
            let s = picker::opened(entries, args);
            let e = entries[i];
            &&& s.entries == entries
            &&& s.args == args
            &&& s.marks.len() == entries.len()
            &&& s.marks[i] <==> e.kind != Kind::Main && !e.locked && {
                ||| args.stale && e.kind == Kind::Stale
                ||| args.orphans && e.kind == Kind::Orphan
                ||| exists|k: int|
                    0 <= k < args.worktrees.len() && is_name_or_path(
                        #[trigger] args.worktrees[k],
                        e.path,
                    )
            }
            &&& s.cursor == 0
            &&& s.preview is None
            &&& s.modal is None
            &&& !s.force
            &&& s.scroll == 0
            &&& s.waiting is Nothing
        }),
{
    let e = entries[i];
    assert forall|k: int| 0 <= k < args.worktrees.len() implies picker::is_named(
        #[trigger] args.worktrees[k],
        e.path,
    ) == is_name_or_path(args.worktrees[k], e.path) by {
        if args.worktrees[k].len() == 0 {
            assert(args.worktrees[k] =~= Seq::<u8>::empty());
        }
    }
    if exists|k: int|
        0 <= k < args.worktrees.len() && is_name_or_path(#[trigger] args.worktrees[k], e.path) {
        let k = choose|k: int|
            0 <= k < args.worktrees.len() && is_name_or_path(#[trigger] args.worktrees[k], e.path);
        assert(picker::is_named(args.worktrees[k], e.path));
    }
    if exists|k: int|
        0 <= k < args.worktrees.len() && picker::is_named(#[trigger] args.worktrees[k], e.path) {
        let k = choose|k: int|
            0 <= k < args.worktrees.len() && picker::is_named(#[trigger] args.worktrees[k], e.path);
        assert(is_name_or_path(args.worktrees[k], e.path));
    }
}

/// An argument is the last name of a path, or an absolute path with just the same names.
pub open spec fn is_name_or_path(arg: Seq<u8>, at: Seq<Seq<u8>>) -> bool {
    ||| arg.len() > 0 && arg[0] == 47 && path::components(arg) == at
    ||| at.len() > 0 && at.last() != seq![46u8, 46u8] && arg == at.last()
    ||| (at.len() == 0 || at.last() == seq![46u8, 46u8]) && arg.len() == 0
}

/// The picked paths are those of the marked entries, one for each.
pub proof fn picked_paths_are_counted(entries: Seq<EntryView>, marks: Seq<bool>, n: nat)
    ensures
        picker::picked_to(entries, marks, n).len() == screen::count_to(marks, n),
        n > 0 && marks[n - 1] ==> picker::picked_to(entries, marks, n) == picker::picked_to(
            entries,
            marks,
            (n - 1) as nat,
        ).push(entries[n - 1].path),
        n > 0 && !marks[n - 1] ==> picker::picked_to(entries, marks, n) == picker::picked_to(
            entries,
            marks,
            (n - 1) as nat,
        ),
    decreases n,
{
    if n > 0 {
        picked_paths_are_counted(entries, marks, (n - 1) as nat);
    }
}

} // verus!
