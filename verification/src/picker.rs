//! The interactive choice of what to remove, key by key.

use crate::args;
use crate::args::{Args, ArgsView};
use crate::bytes;
use crate::entry;
use crate::entry::{Entry, EntryView, Kind};
use crate::path;
use crate::path::AbsPath;
use crate::plan;
use crate::plan::{Plan, PlanView};
use crate::text;
use vstd::prelude::*;
use vstd::string::*;

verus! {

/// A key.
#[derive(Clone, Copy, Debug, PartialEq, Eq, Structural)]
pub enum Key {
    Char(char),
    Esc,
    Up,
    Down,
    Enter,
    Other,
}

/// What was done to a key.
#[derive(Clone, Copy, Debug, PartialEq, Eq, Structural)]
pub struct Press {
    /// The key.
    pub key: Key,
    /// The control key was held down.
    pub control: bool,
    /// The key was pressed, not released or repeated.
    pub pressed: bool,
}

/// What was chosen and confirmed.
#[derive(Debug)]
pub struct Selection {
    /// The paths of the chosen entries.
    pub paths: Vec<AbsPath>,
    /// Their removal is forced.
    pub force: bool,
}

/// Which plan is waited for.
enum Wait {
    Nothing,
    Plan,
    Forced(Vec<String>),
    Force,
}

/// Which plan is waited for, as a value.
pub enum Waiting {
    /// None: the next key is.
    Nothing,
    /// The plan for the selection.
    Plan,
    /// The forced plan for the selection, after the plan had these errors.
    Forced(Seq<Seq<char>>),
    /// The forced plan for the selection, after force was confirmed.
    Force,
}

impl Wait {
    pub closed spec fn waiting(self) -> Waiting {
        match self {
            Wait::Nothing => Waiting::Nothing,
            Wait::Plan => Waiting::Plan,
            Wait::Forced(l) => Waiting::Forced(text::views(l@)),
            Wait::Force => Waiting::Force,
        }
    }
}

/// The state of an interactive choice.
pub struct Picker {
    entries: Vec<Entry>,
    args: Args,
    cursor: usize,
    marks: Vec<bool>,
    preview: Option<(String, bool)>,
    modal: Option<(String, bool)>,
    force: bool,
    scroll: u16,
    wait: Wait,
}

/// The state of an interactive choice, as a value.
#[verifier::ext_equal]
pub struct PickerView {
    /// What can be chosen from.
    pub entries: Seq<EntryView>,
    /// The options of the session.
    pub args: ArgsView,
    /// The entry under the cursor, where there is any.
    pub cursor: int,
    /// Which entries are selected.
    pub marks: Seq<bool>,
    /// The plan that is shown, and whether it can be confirmed.
    pub preview: Option<(Seq<char>, bool)>,
    /// The reasons for blocking that are shown, and whether they can be forced.
    pub modal: Option<(Seq<char>, bool)>,
    /// The plan that is shown is forced.
    pub force: bool,
    /// How far the text is scrolled.
    pub scroll: u16,
    /// Which plan is waited for.
    pub waiting: Waiting,
}

/// The contents of a text with a mark.
pub open spec fn marked(t: Option<(String, bool)>) -> Option<(Seq<char>, bool)> {
    match t {
        Some(p) => Some((p.0@, p.1)),
        None => None,
    }
}

impl View for Picker {
    type V = PickerView;

    closed spec fn view(&self) -> PickerView {
        PickerView {
            entries: entry::views(self.entries@),
            args: self.args@,
            cursor: self.cursor as int,
            marks: self.marks@,
            preview: marked(self.preview),
            modal: marked(self.modal),
            force: self.force,
            scroll: self.scroll,
            waiting: self.wait.waiting(),
        }
    }
}

/// What comes of a key or a plan.
pub enum Outcome {
    /// The next key is waited for.
    Stay,
    /// The choice is given up.
    Quit,
    /// The selection is confirmed.
    Confirm(Selection),
    /// A plan with these options is wanted.
    Check(Args),
}

/// What comes of a key or a plan, as a value.
pub enum Effect {
    Stay,
    Quit,
    Confirm(Seq<Seq<Seq<u8>>>, bool),
    Check(ArgsView),
}

impl View for Outcome {
    type V = Effect;

    open spec fn view(&self) -> Effect {
        match *self {
            Outcome::Stay => Effect::Stay,
            Outcome::Quit => Effect::Quit,
            Outcome::Confirm(s) => Effect::Confirm(path::views(s.paths@), s.force),
            Outcome::Check(a) => Effect::Check(a@),
        }
    }
}

/// An entry can be selected: neither the main checkout nor what is locked can.
pub open spec fn is_selectable(e: EntryView) -> bool {
    e.kind != Kind::Main && !e.locked
}

/// An argument names an entry: by its path, or by its last name.
pub open spec fn is_named(arg: Seq<u8>, at: Seq<Seq<u8>>) -> bool {
    ||| path::is_absolute(arg) && path::components(arg) == at
    ||| arg == match path::file_name(at) {
        Some(n) => n,
        None => Seq::empty(),
    }
}

/// An entry is selected from the start.
pub open spec fn is_preselected(e: EntryView, args: ArgsView) -> bool {
    &&& is_selectable(e)
    &&& {
        ||| args.stale && e.kind == Kind::Stale
        ||| args.orphans && e.kind == Kind::Orphan
        ||| exists|k: int|
            0 <= k < args.worktrees.len() && is_named(#[trigger] args.worktrees[k], e.path)
    }
}

/// The state at the start.
pub open spec fn opened(entries: Seq<EntryView>, args: ArgsView) -> PickerView {
    PickerView {
        entries,
        args,
        cursor: 0,
        marks: Seq::new(entries.len(), |i: int| is_preselected(entries[i], args)),
        preview: None,
        modal: None,
        force: false,
        scroll: 0,
        waiting: Waiting::Nothing,
    }
}

/// The paths of the selected entries among the first `n`.
pub open spec fn picked_to(entries: Seq<EntryView>, marks: Seq<bool>, n: nat) -> Seq<Seq<Seq<u8>>>
    decreases n,
{
    if n == 0 {
        Seq::empty()
    } else {
        let before = picked_to(entries, marks, (n - 1) as nat);
        if marks[n - 1] {
            before.push(entries[n - 1].path)
        } else {
            before
        }
    }
}

/// The paths of the selected entries.
pub open spec fn picked(s: PickerView) -> Seq<Seq<Seq<u8>>> {
    picked_to(s.entries, s.marks, s.entries.len())
}

/// Paths, written out.
pub open spec fn written(paths: Seq<Seq<Seq<u8>>>) -> Seq<Seq<u8>> {
    Seq::new(paths.len(), |i: int| path::written(paths[i]))
}

/// The options for a plan of the selection.
pub open spec fn checking(s: PickerView, force: bool) -> ArgsView {
    args::selecting(s.args, written(picked(s)), force)
}

/// The marks when all that can be selected is.
pub open spec fn available(entries: Seq<EntryView>) -> Seq<bool> {
    Seq::new(entries.len(), |i: int| is_selectable(entries[i]))
}

/// The marks when nothing is selected.
pub open spec fn nothing(entries: Seq<EntryView>) -> Seq<bool> {
    Seq::new(entries.len(), |i: int| false)
}

/// A number of lines further down, as far as lines can be counted.
pub open spec fn lower(scroll: u16) -> u16 {
    if scroll == u16::MAX {
        scroll
    } else {
        (scroll + 1) as u16
    }
}

/// A number of lines further up, as far as there are any.
pub open spec fn higher(scroll: u16) -> u16 {
    if scroll == 0 {
        scroll
    } else {
        (scroll - 1) as u16
    }
}

/// The key moves down.
pub open spec fn is_down(k: Key) -> bool {
    k == Key::Down || k == Key::Char('j')
}

/// The key moves up.
pub open spec fn is_up(k: Key) -> bool {
    k == Key::Up || k == Key::Char('k')
}

/// The key gives the choice up, wherever it is pressed.
pub open spec fn is_quit(p: Press) -> bool {
    p.key == Key::Char('q') || (p.key == Key::Char('c') && p.control)
}

/// What a key does while reasons for blocking are shown.
pub open spec fn pressed_in_modal(s: PickerView, k: Key, can_force: bool) -> (PickerView, Effect) {
    if k == Key::Esc || k == Key::Char('n') {
        (PickerView { modal: None, scroll: 0, ..s }, Effect::Stay)
    } else if is_down(k) {
        (PickerView { scroll: lower(s.scroll), ..s }, Effect::Stay)
    } else if is_up(k) {
        (PickerView { scroll: higher(s.scroll), ..s }, Effect::Stay)
    } else if k == Key::Char('y') && can_force {
        (PickerView { waiting: Waiting::Force, ..s }, Effect::Check(checking(s, true)))
    } else {
        (s, Effect::Stay)
    }
}

/// What a key does while a plan is shown.
pub open spec fn pressed_in_preview(s: PickerView, k: Key, valid: bool) -> (PickerView, Effect) {
    if k == Key::Esc {
        (PickerView { preview: None, force: false, scroll: 0, ..s }, Effect::Stay)
    } else if is_down(k) {
        (PickerView { scroll: lower(s.scroll), ..s }, Effect::Stay)
    } else if is_up(k) {
        (PickerView { scroll: higher(s.scroll), ..s }, Effect::Stay)
    } else if k == Key::Char('y') && valid {
        (s, Effect::Confirm(picked(s), s.force))
    } else {
        (s, Effect::Stay)
    }
}

/// What a key does in the list of entries.
pub open spec fn pressed_in_list(s: PickerView, k: Key) -> (PickerView, Effect) {
    let n = s.entries.len() as int;
    if k == Key::Esc {
        (s, Effect::Quit)
    } else if is_down(k) && n > 0 {
        (PickerView { cursor: (s.cursor + 1) % n, ..s }, Effect::Stay)
    } else if is_up(k) && n > 0 {
        (PickerView { cursor: (s.cursor + n - 1) % n, ..s }, Effect::Stay)
    } else if k == Key::Char(' ') {
        if n > 0 && is_selectable(s.entries[s.cursor]) {
            (
                PickerView { marks: s.marks.update(s.cursor, !s.marks[s.cursor]), ..s },
                Effect::Stay,
            )
        } else {
            (s, Effect::Stay)
        }
    } else if k == Key::Char('a') {
        let all = available(s.entries);
        (
            PickerView {
                marks: if s.marks == all {
                    nothing(s.entries)
                } else {
                    all
                },
                ..s
            },
            Effect::Stay,
        )
    } else if k == Key::Enter && s.marks.contains(true) {
        (
            PickerView { waiting: Waiting::Plan, ..s },
            Effect::Check(checking(s, s.args.force)),
        )
    } else {
        (s, Effect::Stay)
    }
}

/// What a key does.
pub open spec fn pressed(s: PickerView, p: Press) -> (PickerView, Effect) {
    if !p.pressed {
        (s, Effect::Stay)
    } else if is_quit(p) {
        (s, Effect::Quit)
    } else {
        match s.modal {
            Some(m) => pressed_in_modal(s, p.key, m.1),
            None => match s.preview {
                Some(v) => pressed_in_preview(s, p.key, v.1),
                None => pressed_in_list(s, p.key),
            },
        }
    }
}

/// The plan that is shown for a selection.
pub open spec fn shown_plan(p: PlanView) -> Seq<char> {
    plan::description(p) + if p.errors.len() > 0 {
        "\n\nBlocked: nothing will be removed."@
    } else {
        "\n\nPress y to permanently remove these items."@
    }
}

/// The plan that is shown once force was confirmed.
pub open spec fn shown_forced_plan(p: PlanView) -> Seq<char> {
    plan::description(p)
        + "\n\nFORCE: local changes and untracked files will be discarded.\nPress y to permanently remove these items."@
}

/// What a plan that was waited for does.
pub open spec fn informed(s: PickerView, p: PlanView) -> (PickerView, Effect) {
    match s.waiting {
        Waiting::Nothing => (s, Effect::Stay),
        Waiting::Plan => {
            let t = PickerView { preview: Some((shown_plan(p), p.errors.len() == 0)), ..s };
            if p.errors.len() > 0 {
                (
                    PickerView { waiting: Waiting::Forced(p.errors), ..t },
                    Effect::Check(checking(s, true)),
                )
            } else {
                (PickerView { waiting: Waiting::Nothing, ..t }, Effect::Stay)
            }
        },
        Waiting::Forced(errors) => {
            let can_force = p.errors.len() == 0;
            let reasons = if can_force {
                errors
            } else {
                p.errors
            };
            (
                PickerView {
                    modal: Some((text::joined(reasons, "\n\n"@), can_force)),
                    scroll: 0,
                    waiting: Waiting::Nothing,
                    ..s
                },
                Effect::Stay,
            )
        },
        Waiting::Force => (
            PickerView {
                preview: Some((shown_forced_plan(p), p.errors.len() == 0)),
                modal: None,
                force: true,
                scroll: 0,
                waiting: Waiting::Nothing,
                ..s
            },
            Effect::Stay,
        ),
    }
}

/// The contents of a turn.
pub open spec fn turn(r: (Picker, Outcome)) -> (PickerView, Effect) {
    (r.0@, r.1@)
}

/// Tells whether an entry can be selected.
pub fn selectable(e: &Entry) -> (r: bool)
    ensures
        r == is_selectable(e@),
{
    e.kind != Kind::Main && !e.locked
}

/// Writes paths out.
pub fn write_paths(paths: &[AbsPath]) -> (r: Vec<Vec<u8>>)
    ensures
        bytes::views(r@) == written(path::views(paths@)),
{
    let mut out: Vec<Vec<u8>> = Vec::new();
    let mut i: usize = 0;
    while i < paths.len()
        invariant
            i <= paths@.len(),
            out@.len() == i,
            forall|j: int| 0 <= j < i ==> #[trigger] out@[j]@ == path::written(paths@[j]@),
        decreases paths@.len() - i,
    {
        out.push(paths[i].to_bytes());
        i += 1;
    }
    assert(bytes::views(out@) =~= written(path::views(paths@)));
    out
}

/// Tells whether an argument names the entry at `at`.
fn names(arg: &[u8], at: &AbsPath) -> (r: bool)
    ensures
        r == is_named(arg@, at@),
{
    let absolute = arg.len() > 0 && arg[0] == path::SLASH;
    if absolute && AbsPath::root().join(arg).same(at) {
        return true;
    }
    match at.file_name() {
        Some(n) => bytes::same(arg, n.as_slice()),
        None => {
            assert(arg@.len() == 0 ==> arg@ =~= Seq::<u8>::empty());
            arg.len() == 0
        },
    }
}

/// Tells whether an entry is selected from the start.
fn preselected(e: &Entry, args: &Args) -> (r: bool)
    ensures
        r == is_preselected(e@, args@),
{
    if !selectable(e) {
        return false;
    }
    if (args.stale && e.kind == Kind::Stale) || (args.orphans && e.kind == Kind::Orphan) {
        return true;
    }
    names_any(args, &e.path)
}

/// Tells whether an argument names the entry at `at`.
fn names_any(args: &Args, at: &AbsPath) -> (r: bool)
    ensures
        r == exists|k: int|
            0 <= k < args@.worktrees.len() && is_named(#[trigger] args@.worktrees[k], at@),
{
    let ghost all = args@.worktrees;
    let mut k: usize = 0;
    while k < args.worktrees.len()
        invariant
            k <= args.worktrees@.len(),
            all == args@.worktrees,
            forall|j: int| 0 <= j < k ==> !is_named(#[trigger] all[j], at@),
        decreases args.worktrees@.len() - k,
    {
        assert(all[k as int] == args.worktrees@[k as int]@);
        if names(args.worktrees[k].as_slice(), at) {
            return true;
        }
        k += 1;
    }
    false
}

/// A step down from the last entry leads to the first, and a step up from the first to the last.
pub proof fn cursor_wraps(c: int, n: int)
    requires
        0 <= c < n,
    ensures
        (c + 1) % n == (if c == n - 1 {
            0
        } else {
            c + 1
        }),
        (c + n - 1) % n == (if c == 0 {
            n - 1
        } else {
            c - 1
        }),
{
    if c == n - 1 {
        vstd::arithmetic::div_mod::lemma_mod_self_0(n);
    } else {
        vstd::arithmetic::div_mod::lemma_small_mod((c + 1) as nat, n as nat);
    }
    if c == 0 {
        vstd::arithmetic::div_mod::lemma_small_mod((n - 1) as nat, n as nat);
    } else {
        vstd::arithmetic::div_mod::lemma_mod_add_multiples_vanish(c - 1, n);
        vstd::arithmetic::div_mod::lemma_small_mod((c - 1) as nat, n as nat);
        assert(n + (c - 1) == c + n - 1);
    }
}

impl Picker {
    #[verifier::type_invariant]
    spec fn in_range(self) -> bool {
        &&& self.marks@.len() == self.entries@.len()
        &&& self.entries@.len() == 0 ==> self.cursor == 0
        &&& self.entries@.len() > 0 ==> self.cursor < self.entries@.len()
    }

    /// Begins an interactive choice.
    pub fn open(entries: Vec<Entry>, args: Args) -> (r: Picker)
        ensures
            r@ == opened(entry::views(entries@), args@),
    {
        let ghost all = entry::views(entries@);
        let mut marks: Vec<bool> = Vec::new();
        let mut i: usize = 0;
        while i < entries.len()
            invariant
                i <= entries@.len(),
                marks@.len() == i,
                all == entry::views(entries@),
                forall|j: int| 0 <= j < i ==> #[trigger] marks@[j] == is_preselected(all[j], args@),
            decreases entries@.len() - i,
        {
            assert(all[i as int] == entries@[i as int]@);
            marks.push(preselected(&entries[i], &args));
            i += 1;
        }
        let r = Picker {
            entries,
            args,
            cursor: 0,
            marks,
            preview: None,
            modal: None,
            force: false,
            scroll: 0,
            wait: Wait::Nothing,
        };
        assert(r@.marks =~= opened(all, args@).marks);
        r
    }

    /// The paths of the selected entries.
    fn paths(&self) -> (r: Vec<AbsPath>)
        ensures
            path::views(r@) == picked(self@),
    {
        proof {
            use_type_invariant(self);
        }
        let ghost all = self@.entries;
        let mut out: Vec<AbsPath> = Vec::new();
        let mut i: usize = 0;
        assert(path::views(out@) =~= picked_to(all, self.marks@, 0));
        while i < self.entries.len()
            invariant
                i <= self.entries@.len(),
                self.marks@.len() == self.entries@.len(),
                all == entry::views(self.entries@),
                path::views(out@) == picked_to(all, self.marks@, i as nat),
            decreases self.entries@.len() - i,
        {
            if self.marks[i] {
                let ghost held = path::views(out@);
                out.push(self.entries[i].path.clone());
                assert(all[i as int] == self.entries@[i as int]@);
                assert(path::views(out@) =~= held.push(all[i as int].path));
            }
            i += 1;
        }
        out
    }

    /// The options for a plan of the selection.
    fn check(&self, force: bool) -> (r: Args)
        ensures
            r@ == checking(self@, force),
    {
        self.args.select(write_paths(self.paths().as_slice()), force)
    }

    /// Tells whether anything is selected.
    fn any(&self) -> (r: bool)
        ensures
            r == self@.marks.contains(true),
    {
        let mut i: usize = 0;
        while i < self.marks.len()
            invariant
                i <= self.marks@.len(),
                forall|j: int| 0 <= j < i ==> !#[trigger] self.marks@[j],
            decreases self.marks@.len() - i,
        {
            if self.marks[i] {
                assert(self@.marks[i as int]);
                return true;
            }
            i += 1;
        }
        false
    }

    /// The marks after all entries are toggled at once.
    fn toggled(&self) -> (r: Vec<bool>)
        ensures
            r@ == (if self@.marks == available(self@.entries) {
                nothing(self@.entries)
            } else {
                available(self@.entries)
            }),
    {
        proof {
            use_type_invariant(self);
        }
        let ghost all = self@.entries;
        let mut full: Vec<bool> = Vec::new();
        let mut none: Vec<bool> = Vec::new();
        let mut same: bool = true;
        let mut i: usize = 0;
        while i < self.entries.len()
            invariant
                i <= self.entries@.len(),
                self.marks@.len() == self.entries@.len(),
                all == entry::views(self.entries@),
                full@.len() == i,
                none@.len() == i,
                forall|j: int| 0 <= j < i ==> #[trigger] full@[j] == is_selectable(all[j]),
                forall|j: int| 0 <= j < i ==> !#[trigger] none@[j],
                same <==> forall|j: int| 0 <= j < i ==> #[trigger] self.marks@[j] == full@[j],
            decreases self.entries@.len() - i,
        {
            assert(all[i as int] == self.entries@[i as int]@);
            let can = selectable(&self.entries[i]);
            if self.marks[i] != can {
                same = false;
            }
            let ghost held = full@;
            full.push(can);
            none.push(false);
            proof {
                assert(forall|j: int| 0 <= j < i ==> full@[j] == held[j]);
                assert(full@[i as int] == can);
            }
            i += 1;
        }
        assert(full@ =~= available(all));
        assert(none@ =~= nothing(all));
        assert(same == (self.marks@ =~= available(all)));
        if same {
            none
        } else {
            full
        }
    }

    /// Takes a key while reasons for blocking are shown.
    fn press_in_modal(self, key: Key, can_force: bool) -> (r: (Picker, Outcome))
        ensures
            turn(r) == pressed_in_modal(self@, key, can_force),
    {
        proof {
            use_type_invariant(&self);
        }
        match key {
            Key::Esc | Key::Char('n') => {
                (Picker { modal: None, scroll: 0, ..self }, Outcome::Stay)
            },
            Key::Down | Key::Char('j') => {
                let scroll: u16 = if self.scroll == u16::MAX {
                    self.scroll
                } else {
                    self.scroll + 1
                };
                (Picker { scroll, ..self }, Outcome::Stay)
            },
            Key::Up | Key::Char('k') => {
                let scroll: u16 = if self.scroll == 0 {
                    self.scroll
                } else {
                    self.scroll - 1
                };
                (Picker { scroll, ..self }, Outcome::Stay)
            },
            Key::Char('y') => {
                if can_force {
                    let wanted = self.check(true);
                    (Picker { wait: Wait::Force, ..self }, Outcome::Check(wanted))
                } else {
                    (self, Outcome::Stay)
                }
            },
            _ => (self, Outcome::Stay),
        }
    }

    /// Takes a key while a plan is shown.
    fn press_in_preview(self, key: Key, valid: bool) -> (r: (Picker, Outcome))
        ensures
            turn(r) == pressed_in_preview(self@, key, valid),
    {
        proof {
            use_type_invariant(&self);
        }
        match key {
            Key::Esc => {
                (Picker { preview: None, force: false, scroll: 0, ..self }, Outcome::Stay)
            },
            Key::Down | Key::Char('j') => {
                let scroll: u16 = if self.scroll == u16::MAX {
                    self.scroll
                } else {
                    self.scroll + 1
                };
                (Picker { scroll, ..self }, Outcome::Stay)
            },
            Key::Up | Key::Char('k') => {
                let scroll: u16 = if self.scroll == 0 {
                    self.scroll
                } else {
                    self.scroll - 1
                };
                (Picker { scroll, ..self }, Outcome::Stay)
            },
            Key::Char('y') => {
                if valid {
                    let paths = self.paths();
                    let force = self.force;
                    (self, Outcome::Confirm(Selection { paths, force }))
                } else {
                    (self, Outcome::Stay)
                }
            },
            _ => (self, Outcome::Stay),
        }
    }

    /// Takes a key in the list of entries.
    fn press_in_list(self, key: Key) -> (r: (Picker, Outcome))
        ensures
            turn(r) == pressed_in_list(self@, key),
    {
        proof {
            use_type_invariant(&self);
        }
        let n: usize = self.entries.len();
        let c: usize = self.cursor;
        match key {
            Key::Esc => (self, Outcome::Quit),
            Key::Down | Key::Char('j') => {
                if n == 0 {
                    return (self, Outcome::Stay);
                }
                let cursor: usize = if c == n - 1 {
                    0
                } else {
                    c + 1
                };
                proof {
                    cursor_wraps(c as int, n as int);
                }
                (Picker { cursor, ..self }, Outcome::Stay)
            },
            Key::Up | Key::Char('k') => {
                if n == 0 {
                    return (self, Outcome::Stay);
                }
                let cursor: usize = if c == 0 {
                    n - 1
                } else {
                    c - 1
                };
                proof {
                    cursor_wraps(c as int, n as int);
                }
                (Picker { cursor, ..self }, Outcome::Stay)
            },
            Key::Char(' ') => {
                if n > 0 && selectable(&self.entries[c]) {
                    let Picker {
                        entries,
                        args,
                        cursor,
                        mut marks,
                        preview,
                        modal,
                        force,
                        scroll,
                        wait,
                    } = self;
                    let b = marks[c];
                    marks.set(c, !b);
                    (
                        Picker {
                            entries,
                            args,
                            cursor,
                            marks,
                            preview,
                            modal,
                            force,
                            scroll,
                            wait,
                        },
                        Outcome::Stay,
                    )
                } else {
                    (self, Outcome::Stay)
                }
            },
            Key::Char('a') => {
                let marks = self.toggled();
                (Picker { marks, ..self }, Outcome::Stay)
            },
            Key::Enter => {
                if self.any() {
                    let wanted = self.check(self.args.force);
                    (Picker { wait: Wait::Plan, ..self }, Outcome::Check(wanted))
                } else {
                    (self, Outcome::Stay)
                }
            },
            _ => (self, Outcome::Stay),
        }
    }

    /// Takes a key.
    pub fn press(self, p: Press) -> (r: (Picker, Outcome))
        requires
            self@.waiting is Nothing,
        ensures
            turn(r) == pressed(self@, p),
    {
        if !p.pressed {
            return (self, Outcome::Stay);
        }
        match p.key {
            Key::Char('q') => {
                return (self, Outcome::Quit);
            },
            Key::Char('c') => {
                if p.control {
                    return (self, Outcome::Quit);
                }
            },
            _ => {},
        }
        let modal = match &self.modal {
            Some(m) => Some(m.1),
            None => None,
        };
        let preview = match &self.preview {
            Some(v) => Some(v.1),
            None => None,
        };
        match modal {
            Some(can_force) => self.press_in_modal(p.key, can_force),
            None => match preview {
                Some(valid) => self.press_in_preview(p.key, valid),
                None => self.press_in_list(p.key),
            },
        }
    }

    /// Takes the plan that was asked for.
    pub fn inform(self, plan: Plan) -> (r: (Picker, Outcome))
        requires
            !(self@.waiting is Nothing),
        ensures
            turn(r) == informed(self@, plan@),
    {
        proof {
            use_type_invariant(&self);
        }
        let free = plan.errors.len() == 0;
        let ghost p = plan@;
        assert(p.errors.len() == plan.errors@.len());
        let mut shown = plan.describe();
        let wanted = self.check(true);
        let Picker { entries, args, cursor, marks, preview, modal, force, scroll, wait } = self;
        match wait {
            Wait::Nothing => (
                Picker { entries, args, cursor, marks, preview, modal, force, scroll, wait },
                Outcome::Stay,
            ),
            Wait::Plan => {
                if free {
                    shown.append("\n\nPress y to permanently remove these items.");
                    (
                        Picker {
                            entries,
                            args,
                            cursor,
                            marks,
                            preview: Some((shown, true)),
                            modal,
                            force,
                            scroll,
                            wait: Wait::Nothing,
                        },
                        Outcome::Stay,
                    )
                } else {
                    shown.append("\n\nBlocked: nothing will be removed.");
                    (
                        Picker {
                            entries,
                            args,
                            cursor,
                            marks,
                            preview: Some((shown, false)),
                            modal,
                            force,
                            scroll,
                            wait: Wait::Forced(plan.errors),
                        },
                        Outcome::Check(wanted),
                    )
                }
            },
            Wait::Forced(errors) => {
                let message = if free {
                    text::join(errors.as_slice(), "\n\n")
                } else {
                    text::join(plan.errors.as_slice(), "\n\n")
                };
                (
                    Picker {
                        entries,
                        args,
                        cursor,
                        marks,
                        preview,
                        modal: Some((message, free)),
                        force,
                        scroll: 0,
                        wait: Wait::Nothing,
                    },
                    Outcome::Stay,
                )
            },
            Wait::Force => {
                shown.append(
                    "\n\nFORCE: local changes and untracked files will be discarded.\nPress y to permanently remove these items.",
                );
                (
                    Picker {
                        entries,
                        args,
                        cursor,
                        marks,
                        preview: Some((shown, free)),
                        modal: None,
                        force: true,
                        scroll: 0,
                        wait: Wait::Nothing,
                    },
                    Outcome::Stay,
                )
            },
        }
    }
}

impl Picker {
    /// What can be chosen from.
    pub fn entries(&self) -> (r: &Vec<Entry>)
        ensures
            entry::views(r@) == self@.entries,
    {
        &self.entries
    }

    /// The options of the session.
    pub fn args(&self) -> (r: &Args)
        ensures
            r@ == self@.args,
    {
        &self.args
    }

    /// Which entries are selected.
    pub fn marks(&self) -> (r: &Vec<bool>)
        ensures
            r@ == self@.marks,
            r@.len() == self@.entries.len(),
    {
        proof {
            use_type_invariant(self);
        }
        &self.marks
    }

    /// The entry under the cursor, where there is any.
    pub fn cursor(&self) -> (r: Option<usize>)
        ensures
            r is None <==> self@.entries.len() == 0,
            r matches Some(i) ==> i == self@.cursor && i < self@.entries.len(),
    {
        proof {
            use_type_invariant(self);
        }
        if self.entries.len() == 0 {
            None
        } else {
            Some(self.cursor)
        }
    }

    /// The plan that is shown, and whether it can be confirmed.
    pub fn preview(&self) -> (r: Option<(&str, bool)>)
        ensures
            r is Some <==> self@.preview is Some,
            r matches Some(v) ==> self@.preview == Some((v.0@, v.1)),
    {
        match &self.preview {
            Some(v) => Some((v.0.as_str(), v.1)),
            None => None,
        }
    }

    /// The reasons for blocking that are shown, and whether they can be forced.
    pub fn modal(&self) -> (r: Option<(&str, bool)>)
        ensures
            r is Some <==> self@.modal is Some,
            r matches Some(m) ==> self@.modal == Some((m.0@, m.1)),
    {
        match &self.modal {
            Some(m) => Some((m.0.as_str(), m.1)),
            None => None,
        }
    }

    /// The plan that is shown is forced.
    pub fn forced(&self) -> (r: bool)
        ensures
            r == self@.force,
    {
        self.force
    }

    /// How far the text is scrolled.
    pub fn scroll(&self) -> (r: u16)
        ensures
            r == self@.scroll,
    {
        self.scroll
    }
}

} // verus!
