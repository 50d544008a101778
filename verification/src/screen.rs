//! What the interactive choice shows: texts, colours and the place of the modal window.

use crate::entry;
use crate::entry::{Entry, EntryView};
use crate::path;
use crate::picker;
use crate::picker::{Picker, PickerView};
use crate::size;
use crate::status;
use crate::status::Finding;
use crate::text;
use vstd::prelude::*;
use vstd::string::*;

verus! {

/// The colour of a cell.
#[derive(Clone, Copy, Debug, PartialEq, Eq, Structural)]
pub enum Tint {
    Red,
    Yellow,
    Green,
    Cyan,
}

/// `s` ends with `suffix`.
pub open spec fn ends_with(s: Seq<char>, suffix: Seq<char>) -> bool {
    suffix.len() <= s.len() && s.skip(s.len() - suffix.len()) == suffix
}

/// The colour of a state.
pub open spec fn state_tint(state: Seq<char>) -> Tint {
    if ends_with(state, " / locked"@) {
        Tint::Yellow
    } else if state == "merged"@ || state == "pushed"@ {
        Tint::Green
    } else if state == "main"@ {
        Tint::Cyan
    } else if state == "stale"@ || state == "orphan"@ {
        Tint::Yellow
    } else {
        Tint::Red
    }
}

/// The number of bytes in a GiB.
pub const GIB: u64 = 0x4000_0000;

/// The colour of a size: green below ten GiB, red above a hundred.
pub open spec fn target_tint(bytes: int) -> Tint {
    if bytes > 100 * GIB {
        Tint::Red
    } else if bytes >= 10 * GIB {
        Tint::Yellow
    } else {
        Tint::Green
    }
}

/// The colour of what is said of changes.
pub open spec fn changes_tint(changes: Seq<char>) -> Tint {
    if changes == "clean"@ {
        Tint::Green
    } else if changes == "dirty"@ {
        Tint::Yellow
    } else {
        Tint::Red
    }
}

/// Finds the colour of a state.
pub fn state_color(state: &str) -> (r: Tint)
    ensures
        r == state_tint(state@),
{
    if has_suffix(state, " / locked") {
        return Tint::Yellow;
    }
    if text::same(state, "merged") || text::same(state, "pushed") {
        return Tint::Green;
    }
    if text::same(state, "main") {
        return Tint::Cyan;
    }
    if text::same(state, "stale") || text::same(state, "orphan") {
        return Tint::Yellow;
    }
    Tint::Red
}

/// Tells whether `s` ends with `suffix`.
fn has_suffix(s: &str, suffix: &str) -> (r: bool)
    ensures
        r == ends_with(s@, suffix@),
{
    let whole = text::characters(s);
    let part = text::characters(suffix);
    if whole.len() < part.len() {
        return false;
    }
    let from: usize = whole.len() - part.len();
    let end = text::string_of(whole.as_slice(), from, whole.len());
    assert(end@ =~= s@.skip(s@.len() - suffix@.len()));
    text::same(end.as_str(), suffix)
}

/// Finds the colour of a size.
pub fn target_color(bytes: u64) -> (r: Tint)
    ensures
        r == target_tint(bytes as int),
{
    if bytes > 100 * GIB {
        Tint::Red
    } else if bytes >= 10 * GIB {
        Tint::Yellow
    } else {
        Tint::Green
    }
}

/// Finds the colour of what is said of changes.
pub fn changes_color(changes: &str) -> (r: Tint)
    ensures
        r == changes_tint(changes@),
{
    if text::same(changes, "clean") {
        Tint::Green
    } else if text::same(changes, "dirty") {
        Tint::Yellow
    } else {
        Tint::Red
    }
}

/// The cells of an entry's row.
pub struct Cells {
    pub name: String,
    pub branch: String,
    pub state: String,
    pub changes: String,
    pub size: String,
}

/// The state in a row.
pub open spec fn state_cell(locked: bool, f: Finding) -> Seq<char> {
    status::shown_state(f) + if locked {
        " / locked"@
    } else {
        ""@
    }
}

/// The branch in a row.
pub open spec fn branch_cell(branch: Option<Seq<char>>) -> Seq<char> {
    match branch {
        Some(b) => b,
        None => "detached"@,
    }
}

/// The changes in a row.
pub open spec fn changes_cell(dirty: Option<bool>) -> Seq<char> {
    match dirty {
        Some(true) => "dirty"@,
        Some(false) => "clean"@,
        None => "unknown"@,
    }
}

/// Writes the cells of an entry's row.
pub fn cells(e: &Entry, f: &Finding) -> (r: Cells)
    ensures
        r.name@ == text::escaped(entry::name_of(e.path@)),
        r.branch@ == branch_cell(e@.branch),
        r.state@ == state_cell(e.locked, *f),
        r.changes@ == changes_cell(f.dirty),
        r.size@ == size::shown(f.size as nat),
{
    let mut state = match &f.state {
        Some(s) => s.clone(),
        None => "unknown".to_owned(),
    };
    state.append(
        if e.locked {
            " / locked"
        } else {
            ""
        },
    );
    Cells {
        name: text::escape(e.name().as_str()),
        branch: match &e.branch {
            Some(b) => b.clone(),
            None => "detached".to_owned(),
        },
        state,
        changes: match f.dirty {
            Some(true) => "dirty".to_owned(),
            Some(false) => "clean".to_owned(),
            None => "unknown".to_owned(),
        },
        size: size::human(f.size),
    }
}

/// The number of marks that are set among the first `n`.
pub open spec fn count_to(marks: Seq<bool>, n: nat) -> nat
    decreases n,
{
    if n == 0 {
        0
    } else {
        count_to(marks, (n - 1) as nat) + if marks[n - 1] {
            1nat
        } else {
            0nat
        }
    }
}

/// The number of selected entries.
pub open spec fn count(s: PickerView) -> nat {
    count_to(s.marks, s.marks.len())
}

/// The line at the top.
pub open spec fn header_of(s: PickerView) -> Seq<char> {
    "worktree-prune  |  "@ + (if s.args.yes {
        "APPLY"@
    } else {
        "DRY RUN"@
    }) + "  |  "@ + text::decimal(count(s)) + " selected"@ + (if s.force {
        "  |  FORCE: local files may be lost"@
    } else {
        ""@
    })
}

/// The mark before an entry.
pub open spec fn marker_of(e: EntryView, mark: bool) -> Seq<char> {
    if !picker::is_selectable(e) {
        "[-]"@
    } else if mark {
        "[x]"@
    } else {
        "[ ]"@
    }
}

/// The lines about the entry under the cursor.
pub open spec fn detail_of(s: PickerView) -> Seq<char> {
    if s.entries.len() == 0 {
        "No worktrees found."@
    } else {
        "Path: "@ + path::display(s.entries[s.cursor].path) + "\nTarget: "@ + path::display(
            s.entries[s.cursor].target,
        ) + "\n"@ + if s.args.keep_target {
            "Cargo target will be kept."@
        } else {
            "Shared and protected targets will be kept."@
        }
    }
}

/// The line about the keys.
pub open spec fn help_of(s: PickerView) -> Seq<char> {
    match s.preview {
        Some(v) => if v.1 {
            "y: confirm deletion  ·  Esc: back  ·  ↑↓: scroll  ·  q: cancel"@
        } else {
            "Esc: back  ·  ↑↓: scroll  ·  q: close (no deletion)"@
        },
        None =>
            "↑↓ / j k: move  ·  Space: select  ·  a: toggle all  ·  Enter: preview  ·  q: quit"@,
    }
}

impl Picker {
    /// Counts the selected entries.
    pub fn count(&self) -> (r: usize)
        ensures
            r == count(self@),
    {
        let marks = self.marks();
        let mut n: usize = 0;
        let mut i: usize = 0;
        while i < marks.len()
            invariant
                i <= marks@.len(),
                n <= i,
                n == count_to(marks@, i as nat),
            decreases marks@.len() - i,
        {
            if marks[i] {
                n += 1;
            }
            i += 1;
        }
        n
    }

    /// Writes the line at the top.
    pub fn header(&self) -> (r: String)
        ensures
            r@ == header_of(self@),
    {
        let mut out = "worktree-prune  |  ".to_owned();
        out.append(
            if self.args().yes {
                "APPLY"
            } else {
                "DRY RUN"
            },
        );
        out.append("  |  ");
        out.append(text::to_decimal(self.count() as u64).as_str());
        out.append(" selected");
        out.append(
            if self.forced() {
                "  |  FORCE: local files may be lost"
            } else {
                ""
            },
        );
        out
    }

    /// Writes the mark before entry `i`.
    pub fn marker(&self, i: usize) -> (r: &'static str)
        requires
            i < self@.entries.len(),
            i < self@.marks.len(),
        ensures
            r@ == marker_of(self@.entries[i as int], self@.marks[i as int]),
    {
        let e = &self.entries()[i];
        assert(self@.entries[i as int] == e@);
        if !picker::selectable(e) {
            "[-]"
        } else if self.marks()[i] {
            "[x]"
        } else {
            "[ ]"
        }
    }

    /// Writes the lines about the entry under the cursor.
    pub fn detail(&self) -> (r: String)
        ensures
            r@ == detail_of(self@),
    {
        match self.cursor() {
            None => "No worktrees found.".to_owned(),
            Some(i) => {
                let e = &self.entries()[i];
                assert(self@.entries[i as int] == e@);
                let mut out = "Path: ".to_owned();
                out.append(e.path.display().as_str());
                out.append("\nTarget: ");
                out.append(e.target.display().as_str());
                out.append("\n");
                out.append(
                    if self.args().keep_target {
                        "Cargo target will be kept."
                    } else {
                        "Shared and protected targets will be kept."
                    },
                );
                out
            },
        }
    }

    /// Writes the line about the keys.
    pub fn help(&self) -> (r: &'static str)
        ensures
            r@ == help_of(self@),
    {
        match self.preview() {
            Some((_, true)) => "y: confirm deletion  ·  Esc: back  ·  ↑↓: scroll  ·  q: cancel",
            Some((_, false)) => "Esc: back  ·  ↑↓: scroll  ·  q: close (no deletion)",
            None =>
                "↑↓ / j k: move  ·  Space: select  ·  a: toggle all  ·  Enter: preview  ·  q: quit",
        }
    }
}

/// The texts of the modal window.
pub struct ModalText {
    pub title: String,
    pub count: String,
    pub heading: &'static str,
    pub warning: &'static str,
    /// The button that closes the window.
    pub cancel: &'static str,
    /// The button that enables force, where that can help.
    pub enable: Option<&'static str>,
}

/// Writes the texts of the modal window for so many selected entries.
pub fn modal_text(can_force: bool, selected: usize) -> (r: ModalText)
    ensures
        r.title@ == "!  "@ + (if can_force {
            "Blocked — confirm FORCE"@
        } else {
            "Blocked — cannot force"@
        }),
        r.count@ == text::decimal(selected as nat) + " selected  /  Nothing has been removed"@,
        r.heading@ == (if can_force {
            "Before you continue"@
        } else {
            "This selection is protected"@
        }),
        r.warning@ == (if can_force {
            "Local changes and untracked files will be lost. Local-only commits may remain only in the local branch. You will review the forced plan before deletion."@
        } else {
            "Force cannot bypass these protections. Resolve the reasons above, then try again."@
        }),
        r.cancel@ == "  n / Esc  Cancel  "@,
        r.enable is Some <==> can_force,
        r.enable matches Some(s) ==> s@ == "  y  Enable force  "@,
{
    let mut title = "!  ".to_owned();
    title.append(
        if can_force {
            "Blocked — confirm FORCE"
        } else {
            "Blocked — cannot force"
        },
    );
    let mut count = text::to_decimal(selected as u64);
    count.append(" selected  /  Nothing has been removed");
    let heading = if can_force {
        "Before you continue"
    } else {
        "This selection is protected"
    };
    let warning = if can_force {
        "Local changes and untracked files will be lost. Local-only commits may remain only in the local branch. You will review the forced plan before deletion."
    } else {
        "Force cannot bypass these protections. Resolve the reasons above, then try again."
    };
    let enable = if can_force {
        Some("  y  Enable force  ")
    } else {
        None
    };
    ModalText { title, count, heading, warning, cancel: "  n / Esc  Cancel  ", enable }
}

/// A rectangle of character cells.
#[derive(Clone, Copy, Debug, PartialEq, Eq, Structural)]
pub struct Area {
    pub x: u16,
    pub y: u16,
    pub width: u16,
    pub height: u16,
}

/// A cell lies in a rectangle.
pub open spec fn covers(a: Area, x: int, y: int) -> bool {
    a.x <= x < a.x + a.width && a.y <= y < a.y + a.height
}

/// The smaller of two numbers.
pub open spec fn least(a: int, b: int) -> int {
    if a <= b {
        a
    } else {
        b
    }
}

/// The greater of two numbers.
pub open spec fn most(a: int, b: int) -> int {
    if a <= b {
        b
    } else {
        a
    }
}

/// The width of the modal window.
pub open spec fn modal_width(screen: Area) -> int {
    least(most(screen.width - 4, 0), 96)
}

/// The height of the modal window.
pub open spec fn modal_height(screen: Area) -> int {
    least(most(screen.height - 2, 0), 28)
}

/// A screen whose cells can all be counted, and at least one more past its corner.
pub open spec fn is_countable(screen: Area) -> bool {
    &&& screen.x + screen.width <= u16::MAX
    &&& screen.y + screen.height <= u16::MAX
    &&& screen.x < u16::MAX
    &&& screen.y < u16::MAX
}

/// Places the modal window in the middle of the screen.
pub fn modal_area(screen: Area) -> (r: Area)
    requires
        is_countable(screen),
    ensures
        r.width == modal_width(screen),
        r.height == modal_height(screen),
        r.x == screen.x + (screen.width - r.width) / 2,
        r.y == screen.y + (screen.height - r.height) / 2,
        forall|x: int, y: int| covers(r, x, y) ==> covers(screen, x, y),
{
    let width: u16 = if screen.width < 4 {
        0
    } else if screen.width - 4 < 96 {
        screen.width - 4
    } else {
        96
    };
    let height: u16 = if screen.height < 2 {
        0
    } else if screen.height - 2 < 28 {
        screen.height - 2
    } else {
        28
    };
    Area {
        x: screen.x + (screen.width - width) / 2,
        y: screen.y + (screen.height - height) / 2,
        width,
        height,
    }
}

/// Places the shadow of a window: its rectangle, moved by one cell right and down, as far as the
/// screen goes.
pub fn shadow(area: Area, screen: Area) -> (r: Area)
    requires
        area.x < u16::MAX,
        area.y < u16::MAX,
        screen.x + screen.width <= u16::MAX,
        screen.y + screen.height <= u16::MAX,
    ensures
        r.x == most(area.x + 1, screen.x as int),
        r.y == most(area.y + 1, screen.y as int),
        r.width == most(
            least(
                least(area.x + 1 + area.width, u16::MAX as int),
                screen.x + screen.width,
            ) - r.x,
            0,
        ),
        r.height == most(
            least(
                least(area.y + 1 + area.height, u16::MAX as int),
                screen.y + screen.height,
            ) - r.y,
            0,
        ),
        forall|x: int, y: int|
            covers(r, x, y) <==> covers(screen, x, y) && x < u16::MAX && y < u16::MAX && covers(
                area,
                x - 1,
                y - 1,
            ),
{
    let left: u16 = area.x + 1;
    let top: u16 = area.y + 1;
    let right: u16 = if area.width > u16::MAX - left {
        u16::MAX
    } else {
        left + area.width
    };
    let bottom: u16 = if area.height > u16::MAX - top {
        u16::MAX
    } else {
        top + area.height
    };
    let x: u16 = if left < screen.x {
        screen.x
    } else {
        left
    };
    let y: u16 = if top < screen.y {
        screen.y
    } else {
        top
    };
    let end_x: u16 = if right < screen.x + screen.width {
        right
    } else {
        screen.x + screen.width
    };
    let end_y: u16 = if bottom < screen.y + screen.height {
        bottom
    } else {
        screen.y + screen.height
    };
    let width: u16 = if end_x < x {
        0
    } else {
        end_x - x
    };
    let height: u16 = if end_y < y {
        0
    } else {
        end_y - y
    };
    Area { x, y, width, height }
}

/// The room at either side of the modal window's text.
pub fn modal_padding(width: u16) -> (r: u16)
    ensures
        r == (if width >= 60 {
            2int
        } else {
            1int
        }),
{
    if width >= 60 {
        2
    } else {
        1
    }
}

/// The heights of the title and of the warning in the modal window: less where it is low.
pub fn modal_heights(inner: u16) -> (r: (u16, u16))
    ensures
        r == (if inner < 20 {
            (2u16, 4u16)
        } else {
            (3u16, 5u16)
        }),
{
    if inner < 20 {
        (2, 4)
    } else {
        (3, 5)
    }
}

} // verus!
