//! What holds of all that the interactive choice shows.

use crate::entry::{EntryView, Kind};
use crate::path;
use crate::picker::PickerView;
use crate::screen;
use crate::screen::{Area, Tint};
use crate::status::Finding;
use crate::text;
use vstd::prelude::*;

verus! {

/// The words that have colours of their own are not locked.
proof fn plain_words_are_not_locked()
    ensures
        !screen::ends_with("merged"@, " / locked"@),
        !screen::ends_with("pushed"@, " / locked"@),
        !screen::ends_with("main"@, " / locked"@),
        !screen::ends_with("stale"@, " / locked"@),
        !screen::ends_with("orphan"@, " / locked"@),
        "main"@ != "merged"@,
        "main"@ != "pushed"@,
        "stale"@ != "merged"@,
        "stale"@ != "pushed"@,
        "stale"@ != "main"@,
        "orphan"@ != "merged"@,
        "orphan"@ != "pushed"@,
        "orphan"@ != "main"@,
        "dirty"@ != "clean"@,
{
    reveal_strlit("merged");
    reveal_strlit("pushed");
    reveal_strlit("main");
    reveal_strlit("stale");
    reveal_strlit("orphan");
    reveal_strlit(" / locked");
    reveal_strlit("clean");
    reveal_strlit("dirty");
    assert("main"@.len() == 4);
    assert("stale"@.len() == 5);
    assert("orphan"@[0] == 'o');
    assert("merged"@[0] == 'm');
    assert("pushed"@[0] == 'p');
    assert("dirty"@[0] == 'd');
    assert("clean"@[0] == 'c');
}

/// What is locked is yellow; of the rest, merged and pushed work is green, the main checkout cyan,
/// leftovers and unclaimed target directories yellow, and anything else red.
pub proof fn states_are_coloured_by_safety(state: Seq<char>, front: Seq<char>)
    ensures
        screen::state_tint(front + " / locked"@) == Tint::Yellow,
        screen::state_tint("merged"@) == Tint::Green,
        screen::state_tint("pushed"@) == Tint::Green,
        screen::state_tint("main"@) == Tint::Cyan,
        screen::state_tint("stale"@) == Tint::Yellow,
        screen::state_tint("orphan"@) == Tint::Yellow,
        screen::state_tint(state) == Tint::Green ==> state == "merged"@ || state == "pushed"@,
        screen::state_tint(state) == Tint::Cyan ==> state == "main"@,
        screen::state_tint(state) == Tint::Yellow ==> state == "stale"@ || state == "orphan"@
            || exists|f: Seq<char>| state == #[trigger] (f + " / locked"@),
{
    plain_words_are_not_locked();
    let word = " / locked"@;
    let s = front + word;
    assert(s.skip(s.len() - word.len()) =~= word);
    if screen::ends_with(state, word) {
        let f = state.take(state.len() - word.len());
        assert(state =~= f + word);
    }
}

/// A size is green below ten GiB, red above a hundred, and yellow from the one to the other.
pub proof fn sizes_are_coloured_by_thresholds(bytes: int)
    ensures
        screen::target_tint(bytes) == Tint::Green <==> bytes < 10 * 1024 * 1024 * 1024,
        screen::target_tint(bytes) == Tint::Red <==> bytes > 100 * 1024 * 1024 * 1024,
        screen::target_tint(bytes) == Tint::Yellow <==> 10 * 1024 * 1024 * 1024 <= bytes <= 100
            * 1024 * 1024 * 1024,
{
}

/// Clean is green, dirty is yellow, and anything else is red.
pub proof fn changes_are_coloured(changes: Seq<char>)
    ensures
        screen::changes_tint(changes) == Tint::Green <==> changes == "clean"@,
        screen::changes_tint(changes) == Tint::Yellow <==> changes == "dirty"@,
{
    plain_words_are_not_locked();
}

/// The cells of a row tell the branch or that there is none, the state and whether it is locked, and
/// whether there are changes.
pub proof fn cells_tell_of_the_entry(branch: Option<Seq<char>>, locked: bool, f: Finding)
    ensures
        branch matches Some(b) ==> screen::branch_cell(branch) == b,
        branch is None ==> screen::branch_cell(branch) == "detached"@,
        f.state matches Some(s) ==> screen::state_cell(false, f) == s@ && screen::state_cell(
            true,
            f,
        ) == s@ + " / locked"@,
        f.state is None ==> screen::state_cell(false, f) == "unknown"@ && screen::state_cell(
            true,
            f,
        ) == "unknown"@ + " / locked"@,
        screen::changes_cell(Some(true)) == "dirty"@,
        screen::changes_cell(Some(false)) == "clean"@,
        screen::changes_cell(None) == "unknown"@,
{
    reveal_strlit("");
    match f.state {
        Some(s) => {
            assert(s@ + ""@ =~= s@);
        },
        None => {
            assert("unknown"@ + ""@ =~= "unknown"@);
        },
    }
}

/// The number of selected entries grows by one with each that is selected, and is none without.
pub proof fn selected_entries_are_counted(marks: Seq<bool>, mark: bool)
    ensures
        screen::count_to(marks.push(mark), marks.len() + 1) == screen::count_to(marks, marks.len())
            + if mark {
            1nat
        } else {
            0nat
        },
        screen::count_to(Seq::empty(), 0) == 0,
{
    count_looks_at_the_front(marks, mark, marks.len());
}

/// Counting the front of a list does not look at its end.
proof fn count_looks_at_the_front(marks: Seq<bool>, mark: bool, n: nat)
    requires
        n <= marks.len(),
    ensures
        screen::count_to(marks.push(mark), n) == screen::count_to(marks, n),
    decreases n,
{
    if n > 0 {
        count_looks_at_the_front(marks, mark, (n - 1) as nat);
    }
}

/// The line at the top tells whether the plan is applied, how many entries are selected, and whether
/// force is on.
pub proof fn header_tells_of_the_session(s: PickerView)
    ensures
        ({
            let n = text::decimal(screen::count_to(s.marks, s.marks.len()));
            &&& s.args.yes && !s.force ==> screen::header_of(s) == "worktree-prune  |  "@
                + "APPLY"@ + "  |  "@ + n + " selected"@ + ""@
            &&& !s.args.yes && !s.force ==> screen::header_of(s) == "worktree-prune  |  "@
                + "DRY RUN"@ + "  |  "@ + n + " selected"@ + ""@
            &&& s.args.yes && s.force ==> screen::header_of(s) == "worktree-prune  |  "@ + "APPLY"@
                + "  |  "@ + n + " selected"@ + "  |  FORCE: local files may be lost"@
        }),
{
}

/// The mark before an entry tells that it cannot be selected, is, or is not.
pub proof fn markers_tell_the_selection(e: EntryView, mark: bool)
    ensures
        e.kind == Kind::Main || e.locked ==> screen::marker_of(e, mark) == "[-]"@,
        e.kind != Kind::Main && !e.locked && mark ==> screen::marker_of(e, mark) == "[x]"@,
        e.kind != Kind::Main && !e.locked && !mark ==> screen::marker_of(e, mark) == "[ ]"@,
{
}

/// The lines about the entry under the cursor tell its path, its target directory and whether target
/// directories are kept.
pub proof fn details_tell_of_the_cursor(s: PickerView)
    ensures
        s.entries.len() == 0 ==> screen::detail_of(s) == "No worktrees found."@,
        s.entries.len() > 0 && s.args.keep_target ==> screen::detail_of(s) == "Path: "@
            + path::display(s.entries[s.cursor].path) + "\nTarget: "@ + path::display(
            s.entries[s.cursor].target,
        ) + "\n"@ + "Cargo target will be kept."@,
        s.entries.len() > 0 && !s.args.keep_target ==> screen::detail_of(s) == "Path: "@
            + path::display(s.entries[s.cursor].path) + "\nTarget: "@ + path::display(
            s.entries[s.cursor].target,
        ) + "\n"@ + "Shared and protected targets will be kept."@,
{
}

/// The line about the keys offers confirmation just where a plan is shown that can be confirmed.
pub proof fn help_offers_what_keys_do(s: PickerView)
    ensures
        s.preview is None ==> screen::help_of(s)
            == "↑↓ / j k: move  ·  Space: select  ·  a: toggle all  ·  Enter: preview  ·  q: quit"@,
        s.preview matches Some(v) ==> v.1 ==> screen::help_of(s)
            == "y: confirm deletion  ·  Esc: back  ·  ↑↓: scroll  ·  q: cancel"@,
        s.preview matches Some(v) ==> !v.1 ==> screen::help_of(s)
            == "Esc: back  ·  ↑↓: scroll  ·  q: close (no deletion)"@,
{
}

/// The modal window leaves two columns and one line free on each side, as far as there is room, and
/// never exceeds 96 columns and 28 lines.
pub proof fn modal_window_leaves_a_margin(screen: Area)
    ensures
        screen.width >= 100 ==> screen::modal_width(screen) == 96,
        4 <= screen.width < 100 ==> screen::modal_width(screen) == screen.width - 4,
        screen.width < 4 ==> screen::modal_width(screen) == 0,
        screen.height >= 30 ==> screen::modal_height(screen) == 28,
        2 <= screen.height < 30 ==> screen::modal_height(screen) == screen.height - 2,
        screen.height < 2 ==> screen::modal_height(screen) == 0,
{
}

} // verus!
