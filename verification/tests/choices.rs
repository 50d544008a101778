use worktree_prune::args::Args;
use worktree_prune::entry::{Entry, Kind};
use worktree_prune::path::AbsPath;
use worktree_prune::picker::{Key, Outcome, Picker, Press};
use worktree_prune::plan::{Item, Plan};
use worktree_prune::screen::{
    cells, changes_color, modal_area, modal_heights, modal_padding, modal_text, shadow,
    state_color, target_color, Area, Tint,
};
use worktree_prune::status::Finding;

fn path(s: &str) -> AbsPath {
    AbsPath::root().join(s.as_bytes())
}

fn entry(kind: Kind, at: &str, locked: bool) -> Entry {
    Entry {
        path: path(at),
        branch: None,
        target: path("/t"),
        kind,
        locked,
    }
}

fn entries() -> Vec<Entry> {
    vec![
        entry(Kind::Main, "/w/repo", false),
        entry(Kind::Worktree, "/x/a", false),
        entry(Kind::Worktree, "/x/b", true),
        entry(Kind::Stale, "/x/c", false),
    ]
}

fn args(worktrees: &[&str], stale: bool) -> Args {
    Args {
        worktrees: worktrees.iter().map(|w| w.as_bytes().to_vec()).collect(),
        dry_run: false,
        yes: true,
        force: false,
        sudo: false,
        quiet: false,
        keep_target: false,
        delete_branch: false,
        list: false,
        stale,
        orphans: false,
        repo: b".".to_vec(),
    }
}

fn open() -> Picker {
    Picker::open(entries(), args(&[], false))
}

fn key(k: Key) -> Press {
    Press { key: k, control: false, pressed: true }
}

fn press(p: Picker, k: Key) -> Picker {
    match p.press(key(k)) {
        (p, Outcome::Stay) => p,
        _ => panic!("the key changes the state only"),
    }
}

fn type_in(mut p: Picker, keys: &str) -> Picker {
    for c in keys.chars() {
        p = press(p, Key::Char(c));
    }
    p
}

fn check(p: Picker, k: Key) -> (Picker, Args) {
    match p.press(key(k)) {
        (p, Outcome::Check(a)) => (p, a),
        _ => panic!("the key asks for a plan"),
    }
}

fn free() -> Plan {
    Plan {
        items: vec![Item { entry: entry(Kind::Worktree, "/x/a", false), target: false }],
        errors: vec![],
        notes: vec![],
    }
}

fn blocked(reasons: &[&str]) -> Plan {
    Plan {
        items: vec![],
        errors: reasons.iter().map(|r| r.to_string()).collect(),
        notes: vec![],
    }
}

#[test]
fn cursor_moves_and_wraps() {
    let p = open();
    assert_eq!(p.cursor(), Some(0));
    let p = type_in(p, "jj");
    assert_eq!(p.cursor(), Some(2));
    let p = press(press(p, Key::Up), Key::Char('k'));
    assert_eq!(p.cursor(), Some(0));
    let p = press(p, Key::Up);
    assert_eq!(p.cursor(), Some(3));
    let p = press(p, Key::Down);
    assert_eq!(p.cursor(), Some(0));
    let p = press(Picker::open(vec![], args(&[], false)), Key::Down);
    assert_eq!(p.cursor(), None);
    assert_eq!(p.detail(), "No worktrees found.");
}

#[test]
fn only_what_can_go_is_selected() {
    let p = type_in(open(), " j j j ");
    assert_eq!(p.marks(), &vec![false, true, false, true]);
    assert_eq!(p.count(), 2);
    assert_eq!(
        (0..4).map(|i| p.marker(i)).collect::<Vec<_>>(),
        ["[-]", "[x]", "[-]", "[x]"]
    );
    // Selecting twice changes nothing.
    let p = type_in(p, "  ");
    assert_eq!(p.marks(), &vec![false, true, false, true]);
    let p = type_in(p, "a");
    assert_eq!(p.marks(), &vec![false, false, false, false]);
    let p = type_in(p, "a");
    assert_eq!(p.marks(), &vec![false, true, false, true]);
}

#[test]
fn options_preselect() {
    let marks = |worktrees: &[&str], stale: bool| {
        Picker::open(entries(), args(worktrees, stale)).marks().clone()
    };
    assert_eq!(marks(&[], true), [false, false, false, true]);
    assert_eq!(marks(&["a", "b", "repo"], false), [false, true, false, false]);
    assert_eq!(marks(&["/x/./c"], false), [false, false, false, true]);
    assert_eq!(marks(&["x/c"], false), [false, false, false, false]);
}

#[test]
fn free_plans_are_confirmed() {
    let p = type_in(open(), "j ");
    let (p, wanted) = check(p, Key::Enter);
    assert_eq!(wanted.worktrees, [b"/x/a".to_vec()]);
    assert!(!wanted.force && !wanted.stale && !wanted.orphans && wanted.yes);
    let p = match p.inform(free()) {
        (p, Outcome::Stay) => p,
        _ => panic!("the plan is shown"),
    };
    assert_eq!(
        p.preview(),
        Some(("REMOVE Worktree: /x/a\n\nPress y to permanently remove these items.", true))
    );
    assert!(p.help().starts_with("y: confirm deletion"));
    let p = type_in(p, "jjk ");
    assert_eq!(p.scroll(), 1);
    match p.press(key(Key::Char('y'))) {
        (_, Outcome::Confirm(s)) => {
            assert!(!s.force);
            assert_eq!(s.paths.len(), 1);
            assert_eq!(s.paths[0].display(), "/x/a");
        }
        _ => panic!("the selection is confirmed"),
    }
}

#[test]
fn blocked_plans_need_force_twice() {
    let p = type_in(open(), "j ");
    let (p, _) = check(p, Key::Enter);
    let (p, wanted) = match p.inform(blocked(&["one", "two"])) {
        (p, Outcome::Check(a)) => (p, a),
        _ => panic!("a forced plan is tried"),
    };
    assert!(wanted.force);
    let p = match p.inform(free()) {
        (p, Outcome::Stay) => p,
        _ => panic!("the reasons are shown"),
    };
    assert_eq!(p.modal(), Some(("one\n\ntwo", true)));
    assert_eq!(
        p.preview(),
        Some(("BLOCKED: one\nBLOCKED: two\n\nBlocked: nothing will be removed.", false))
    );
    assert!(!p.forced());
    let (p, wanted) = check(type_in(p, "jx"), Key::Char('y'));
    assert!(wanted.force);
    let p = match p.inform(free()) {
        (p, Outcome::Stay) => p,
        _ => panic!("the forced plan is shown"),
    };
    assert!(p.forced() && p.modal().is_none());
    assert_eq!(p.scroll(), 0);
    assert_eq!(
        p.preview().map(|v| v.0),
        Some("REMOVE Worktree: /x/a\n\nFORCE: local changes and untracked files will be discarded.\nPress y to permanently remove these items.")
    );
    assert_eq!(p.header(), "worktree-prune  |  APPLY  |  1 selected  |  FORCE: local files may be lost");
    // Back in the list force is off.
    let p = press(p, Key::Esc);
    assert!(!p.forced() && p.preview().is_none());
    assert_eq!(p.header(), "worktree-prune  |  APPLY  |  1 selected");
}

#[test]
fn forced_selection_is_confirmed_as_forced() {
    let (p, _) = check(type_in(open(), "j "), Key::Enter);
    let (p, _) = p.inform(blocked(&["one"]));
    let (p, _) = p.inform(free());
    let (p, _) = check(p, Key::Char('y'));
    let (p, _) = p.inform(free());
    match p.press(key(Key::Char('y'))) {
        (_, Outcome::Confirm(s)) => assert!(s.force),
        _ => panic!("the selection is confirmed"),
    }
}

#[test]
fn protections_cannot_be_forced() {
    let (p, _) = check(type_in(open(), "a"), Key::Enter);
    let (p, _) = p.inform(blocked(&["dirty"]));
    let (p, _) = p.inform(blocked(&["protected"]));
    assert_eq!(p.modal(), Some(("protected", false)));
    let p = type_in(p, "y");
    assert_eq!(p.modal(), Some(("protected", false)));
    let p = type_in(p, "n");
    assert!(p.modal().is_none());
    let p = type_in(p, "y");
    assert_eq!(p.preview().map(|v| v.1), Some(false));
    assert!(p.help().starts_with("Esc: back"));
    let p = press(p, Key::Esc);
    assert!(p.preview().is_none());
}

#[test]
fn choices_can_be_given_up() {
    let quits = |p: Picker, k: Press| matches!(p.press(k).1, Outcome::Quit);
    assert!(quits(open(), key(Key::Char('q'))));
    assert!(quits(open(), key(Key::Esc)));
    assert!(quits(open(), Press { key: Key::Char('c'), control: true, pressed: true }));
    assert!(!quits(open(), key(Key::Char('c'))));
    assert!(!quits(open(), Press { key: Key::Char('q'), control: false, pressed: false }));
    assert!(!quits(open(), key(Key::Enter)));
    assert!(!quits(open(), key(Key::Other)));
}

#[test]
fn cells_and_details_are_written() {
    let mut e = entry(Kind::Worktree, "/x/a", true);
    e.branch = Some("topic".to_string());
    let c = cells(&e, &Finding { state: Some("merged".to_string()), dirty: Some(true), size: 1024 });
    assert_eq!(
        [c.name, c.branch, c.state, c.changes, c.size],
        ["a", "topic", "merged / locked", "dirty", "1.0 KiB"]
    );
    let e = entry(Kind::Stale, "/x/n\n", false);
    let c = cells(&e, &Finding { state: None, dirty: None, size: 0 });
    assert_eq!(
        [c.name, c.branch, c.state, c.changes, c.size],
        ["n\\n", "detached", "unknown", "unknown", "0.0 B"]
    );
    assert_eq!(
        open().detail(),
        "Path: /w/repo\nTarget: /t\nShared and protected targets will be kept."
    );
    assert!(open().help().starts_with("↑↓ / j k: move"));
}

#[test]
fn colours_tell_states_apart() {
    assert_eq!(state_color("merged"), Tint::Green);
    assert_eq!(state_color("pushed"), Tint::Green);
    assert_eq!(state_color("merged / locked"), Tint::Yellow);
    assert_eq!(state_color("main"), Tint::Cyan);
    assert_eq!(state_color("stale"), Tint::Yellow);
    assert_eq!(state_color("orphan"), Tint::Yellow);
    assert_eq!(state_color("local-only"), Tint::Red);
    let gib = 1024 * 1024 * 1024;
    assert_eq!(target_color(10 * gib - 1), Tint::Green);
    assert_eq!(target_color(10 * gib), Tint::Yellow);
    assert_eq!(target_color(100 * gib), Tint::Yellow);
    assert_eq!(target_color(100 * gib + 1), Tint::Red);
    assert_eq!(changes_color("clean"), Tint::Green);
    assert_eq!(changes_color("dirty"), Tint::Yellow);
    assert_eq!(changes_color("unknown"), Tint::Red);
}

#[test]
fn modal_window_is_placed() {
    let screen = Area { x: 0, y: 0, width: 80, height: 24 };
    let area = modal_area(screen);
    assert_eq!(area, Area { x: 2, y: 1, width: 76, height: 22 });
    assert_eq!(shadow(area, screen), Area { x: 3, y: 2, width: 76, height: 22 });
    let wide = Area { x: 0, y: 0, width: 200, height: 60 };
    assert_eq!(modal_area(wide), Area { x: 52, y: 16, width: 96, height: 28 });
    let tiny = Area { x: 0, y: 0, width: 3, height: 1 };
    let area = modal_area(tiny);
    assert_eq!(area, Area { x: 1, y: 0, width: 0, height: 0 });
    let theirs = |a: Area| ratatui::layout::Rect::new(a.x, a.y, a.width, a.height);
    for (a, s) in [
        (Area { x: 5, y: 5, width: 10, height: 10 }, Area { x: 0, y: 0, width: 12, height: 30 }),
        (Area { x: 50, y: 5, width: 10, height: 10 }, Area { x: 0, y: 0, width: 12, height: 30 }),
        (Area { x: 65_000, y: 65_000, width: 900, height: 900 }, Area { x: 64_000, y: 1, width: 1_535, height: 65_534 }),
    ] {
        let moved = ratatui::layout::Rect::new(a.x + 1, a.y + 1, a.width, a.height);
        assert_eq!(theirs(shadow(a, s)), moved.intersection(theirs(s)));
    }
    assert_eq!((modal_padding(59), modal_padding(60)), (1, 2));
    assert_eq!((modal_heights(19), modal_heights(20)), ((2, 4), (3, 5)));
    let t = modal_text(true, 3);
    assert_eq!(t.title, "!  Blocked — confirm FORCE");
    assert_eq!(t.count, "3 selected  /  Nothing has been removed");
    assert_eq!(t.heading, "Before you continue");
    assert_eq!((t.cancel, t.enable), ("  n / Esc  Cancel  ", Some("  y  Enable force  ")));
    let t = modal_text(false, 1);
    assert_eq!(t.title, "!  Blocked — cannot force");
    assert_eq!(t.heading, "This selection is protected");
    assert_eq!((t.cancel, t.enable), ("  n / Esc  Cancel  ", None));
    assert!(t.warning.starts_with("Force cannot bypass"));
}
