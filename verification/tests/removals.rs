use worktree_prune::args::Args;
use worktree_prune::disk::{preflight, remove, Node, Removal, Visit};
use worktree_prune::entry::{Entry, Kind};
use worktree_prune::execute::{Execution, Reply, Request};
use worktree_prune::path::AbsPath;
use worktree_prune::plan::{selected, Facts, Item, Plan};
use worktree_prune::repo::Repo;

fn path(s: &str) -> AbsPath {
    AbsPath::root().join(s.as_bytes())
}

fn repo() -> Repo {
    at("/w/repo/.worktrees/here/deep", "/home/me")
}

fn at(root: &str, here: &str) -> Repo {
    Repo::open(path(root), path(here), path("/w/repo/.git"), path("/w/targets"))
        .ok()
        .unwrap()
}

fn entry(kind: Kind, at: &str) -> Entry {
    let name = at.rsplit('/').next().unwrap_or("");
    Entry {
        path: path(at),
        branch: Some(name.to_string()),
        target: path(&format!("/w/targets/repo/{name}/target")),
        kind,
        locked: false,
    }
}

fn args(worktrees: &[&str], flags: &[&str]) -> Args {
    let on = |f: &str| flags.contains(&f);
    Args {
        worktrees: worktrees.iter().map(|w| w.as_bytes().to_vec()).collect(),
        dry_run: false,
        yes: on("yes"),
        force: on("force"),
        sudo: on("sudo"),
        quiet: on("quiet"),
        keep_target: on("keep-target"),
        delete_branch: on("delete-branch"),
        list: false,
        stale: on("stale"),
        orphans: on("orphans"),
        repo: b".".to_vec(),
    }
}

fn failed(error: &str) -> Reply {
    Reply::Failed {
        head: error.to_string(),
        whole: error.to_string(),
    }
}

fn fine() -> Facts {
    Facts {
        is_dir: true,
        dirty: Ok(false),
        state: Ok("pushed".to_string()),
        exists: true,
        clear: Ok(()),
        target_is_dir: false,
        target_clear: Ok(()),
    }
}

fn errors(entries: &[Entry], a: &Args, facts: Vec<Facts>) -> Vec<String> {
    let resolved: Vec<AbsPath> = a.worktrees.iter().map(|w| path("/cwd").join(w)).collect();
    repo().plan(entries, a, &resolved, &facts).errors
}

#[test]
fn every_reason_is_given() {
    let wt = || vec![entry(Kind::Worktree, "/x/a")];
    let a = args(&["a"], &[]);
    let one = |f: Facts| errors(&wt(), &a, vec![f]);
    assert!(one(fine()).is_empty());
    assert_eq!(
        one(Facts { is_dir: false, ..fine() }),
        ["/x/a: missing worktree; use git worktree prune to clear its registration"]
    );
    assert_eq!(one(Facts { dirty: Err("broken".to_string()), ..fine() }), ["/x/a: broken"]);
    assert_eq!(one(Facts { state: Err("no HEAD".to_string()), ..fine() }), ["/x/a: no HEAD"]);
    assert_eq!(one(Facts { clear: Err("foreign".to_string()), ..fine() }), ["/x/a: foreign"]);
    assert!(one(Facts { clear: Err("foreign".to_string()), exists: false, ..fine() }).is_empty());
    assert_eq!(
        one(Facts { target_is_dir: true, target_clear: Err("busy".to_string()), ..fine() }),
        ["/w/targets/repo/a/target: busy"]
    );
    assert!(one(Facts { target_clear: Err("busy".to_string()), ..fine() }).is_empty());
    let here = vec![entry(Kind::Worktree, "/w/repo/.worktrees/here")];
    assert_eq!(
        errors(&here, &args(&["here"], &["force"]), vec![fine()]),
        ["/w/repo/.worktrees/here: cannot remove the current working directory or its ancestor; run from the main checkout"]
    );
    let above = vec![entry(Kind::Stale, "/w/repo/.git")];
    assert_eq!(
        errors(&above, &args(&[], &["stale", "force"]), vec![fine()]),
        ["/w/repo/.git: repository metadata is protected"]
    );
    let nest = vec![entry(Kind::Worktree, "/x/a"), entry(Kind::Worktree, "/x/a/b")];
    assert_eq!(
        errors(&nest, &args(&["a"], &["force"]), vec![fine(), fine()]),
        ["/x/a: contains another worktree or target candidate"]
    );
    let orphan = vec![entry(Kind::Orphan, "/outside/o")];
    let mut bad = orphan;
    bad[0].target = path("/outside/o");
    assert_eq!(
        errors(&bad, &args(&[], &["orphans"]), vec![fine()]),
        ["/outside/o: unsafe orphan target path"]
    );
}

#[test]
fn force_changes_nothing_that_was_free() {
    let entries = vec![entry(Kind::Worktree, "/x/a"), entry(Kind::Worktree, "/x/b")];
    let at = vec![path("/cwd/a")];
    let facts = || vec![fine(), fine()];
    let free = repo().plan(&entries, &args(&["a"], &[]), &at, &facts());
    let forced = repo().plan(&entries, &args(&["a"], &["force"]), &at, &facts());
    assert_eq!(free.describe(), forced.describe());
    assert_eq!(free.describe(), "REMOVE Worktree: /x/a");
    let none = repo().plan(&entries, &args(&[], &[]), &[], &facts());
    assert_eq!(none.describe(), "Nothing to do.");
}

#[test]
fn blocked_plans_say_so() {
    let p = Plan {
        items: vec![],
        errors: vec!["one".to_string(), "two".to_string()],
        notes: vec!["note".to_string()],
    };
    assert_eq!(p.describe(), "note\nBLOCKED: one\nBLOCKED: two");
}

#[test]
fn selections_go_by_path_then_name() {
    let entries = vec![entry(Kind::Worktree, "/x/a"), entry(Kind::Stale, "/y/a"), entry(Kind::Orphan, "/o")];
    let pick = |w: &[&str], flags: &[&str], at: &[&str]| {
        let resolved: Vec<AbsPath> = at.iter().map(|p| path(p)).collect();
        let s = selected(&entries, &args(w, flags), &resolved);
        (s.marks, s.errors.len())
    };
    assert_eq!(pick(&["/x/a"], &[], &["/x/a"]), (vec![true, false, false], 0));
    assert_eq!(pick(&["a"], &[], &["/cwd/a"]), (vec![false, false, false], 1));
    assert_eq!(pick(&["o"], &[], &["/cwd/o"]), (vec![false, false, true], 0));
    assert_eq!(pick(&[], &["stale", "orphans"], &[]), (vec![false, true, true], 0));
    // A name is the path where it resolves to one.
    assert_eq!(pick(&["a"], &[], &["/y/a"]), (vec![false, true, false], 0));
}

fn begin(kind: Kind, target: bool, a: &Args) -> (Execution, Request) {
    let p = Plan {
        items: vec![Item { entry: entry(kind, "/x/a"), target }],
        errors: vec![],
        notes: vec![],
    };
    Execution::begin(p, a.clone())
}

fn word(r: &Request) -> String {
    match r {
        Request::Say(s) => format!("say {s}"),
        Request::Warn(s) => format!("warn {s}"),
        Request::GitRemove(p, f) => format!("git {} {f}", p.display()),
        Request::Registered => "registered".to_string(),
        Request::Measure(p) => format!("measure {}", p.display()),
        Request::Remove(p) => format!("remove {}", p.display()),
        Request::Inventory => "inventory".to_string(),
        Request::RemoveDir(p) => format!("rmdir {}", p.display()),
        Request::DeleteBranch(b, f) => format!("branch {b} {f}"),
        Request::Finish => "finish".to_string(),
        Request::Fail(e) => format!("fail {e}"),
    }
}

fn answer(start: (Execution, Request), replies: Vec<Reply>) -> Vec<String> {
    let (mut e, r) = start;
    let mut log = vec![word(&r)];
    for reply in replies {
        let (next, r) = e.resume(&repo(), reply);
        e = next;
        log.push(word(&r));
    }
    log
}

#[test]
fn refused_worktrees_keep_their_target() {
    let a = args(&[], &["yes"]);
    let log = answer(
        begin(Kind::Worktree, true, &a),
        vec![
            failed("is dirty"),
            Reply::Entries(vec![entry(Kind::Worktree, "/x/a")]),
        ],
    );
    assert_eq!(
        log,
        ["git /x/a false", "registered", "fail Git refused removal; target kept: is dirty"]
    );
    let log = answer(
        begin(Kind::Worktree, false, &a),
        vec![
            failed("is dirty"),
            Reply::Entries(vec![]),
            Reply::Done,
            Reply::Done,
            Reply::Done,
        ],
    );
    assert_eq!(
        log,
        [
            "git /x/a false",
            "registered",
            "remove /x/a",
            "say Removed /x/a",
            "say worktree-prune: removed 1 item(s), freed 0.0 B of target data",
            "finish",
        ]
    );
}

#[test]
fn errors_end_an_execution() {
    let a = args(&[], &["yes"]);
    let no = || failed("no");
    assert_eq!(answer(begin(Kind::Stale, true, &a), vec![no()]), ["remove /x/a", "fail no"]);
    assert_eq!(
        answer(begin(Kind::Stale, true, &a), vec![Reply::Done, no()]),
        ["remove /x/a", "inventory", "fail no"]
    );
    assert_eq!(
        answer(
            begin(Kind::Stale, true, &a),
            vec![Reply::Done, Reply::Entries(vec![]), Reply::Size(5), no()]
        ),
        [
            "remove /x/a",
            "inventory",
            "measure /w/targets/repo/a/target",
            "remove /w/targets/repo/a/target",
            "fail no",
        ]
    );
    assert_eq!(
        answer(begin(Kind::Worktree, true, &a), vec![no(), no()]),
        ["git /x/a false", "registered", "fail no"]
    );
    assert_eq!(
        answer(begin(Kind::Main, false, &a), vec![]),
        ["fail main checkout is protected"]
    );
}

#[test]
fn claimed_targets_are_kept_at_the_last_moment() {
    let a = args(&[], &["yes"]);
    let mut other = entry(Kind::Worktree, "/x/new");
    other.target = path("/w/targets/repo/a/target");
    assert_eq!(
        answer(
            begin(Kind::Stale, true, &a),
            vec![Reply::Done, Reply::Entries(vec![other])]
        ),
        [
            "remove /x/a",
            "inventory",
            "fail target became shared or protected; kept /w/targets/repo/a/target",
        ]
    );
}

#[test]
fn kept_branches_matter_only_with_force() {
    let no = || failed("not merged");
    let run = |flags: &[&str], replies: Vec<Reply>| {
        answer(begin(Kind::Stale, false, &args(&[], flags)), replies)
    };
    assert_eq!(
        run(&["yes", "delete-branch"], vec![Reply::Done, no(), Reply::Done, Reply::Done, Reply::Done]),
        [
            "remove /x/a",
            "branch a false",
            "warn Branch a kept: not merged",
            "say Removed /x/a",
            "say worktree-prune: removed 1 item(s), freed 0.0 B of target data",
            "finish",
        ]
    );
    assert_eq!(
        run(&["yes", "delete-branch", "force"], vec![Reply::Done, no(), Reply::Done]),
        ["remove /x/a", "branch a true", "warn Branch a kept: not merged", "fail not merged"]
    );
    assert_eq!(
        run(&["yes", "delete-branch", "force", "quiet"], vec![Reply::Done, no()]),
        ["remove /x/a", "branch a true", "fail not merged"]
    );
    assert_eq!(
        run(&["yes", "delete-branch", "quiet"], vec![Reply::Done, no(), Reply::Done]),
        [
            "remove /x/a",
            "branch a false",
            "say worktree-prune: removed 1 item(s), freed 0.0 B of target data",
            "finish",
        ]
    );
}

#[test]
fn sizes_are_added_up() {
    let p = Plan {
        items: vec![
            Item { entry: entry(Kind::Orphan, "/o/a"), target: false },
            Item { entry: entry(Kind::Orphan, "/o/b"), target: false },
        ],
        errors: vec![],
        notes: vec![],
    };
    let log = answer(
        Execution::begin(p, args(&[], &["yes", "quiet"])),
        vec![Reply::Size(1000), Reply::Done, Reply::Size(24), Reply::Done, Reply::Done],
    );
    assert_eq!(
        log,
        [
            "measure /o/a",
            "remove /o/a",
            "measure /o/b",
            "remove /o/b",
            "say worktree-prune: removed 2 item(s), freed 1.0 KiB of target data",
            "finish",
        ]
    );
}

#[test]
fn quiet_dry_runs_count_candidates() {
    assert_eq!(
        answer(begin(Kind::Stale, true, &args(&[], &["quiet"])), vec![Reply::Done]),
        ["say worktree-prune: 1 candidate(s); run without --quiet to review", "finish"]
    );
    let empty = Plan { items: vec![], errors: vec![], notes: vec![] };
    assert_eq!(answer(Execution::begin(empty, args(&[], &[])), vec![]), ["finish"]);
}

fn node(device: u64, owner: u32, is_dir: bool, writable: bool) -> Visit {
    Visit::Node(Node { path: b"/d/x".to_vec(), device, owner, is_dir, writable })
}

#[test]
fn trees_are_checked() {
    let check = |v: Visit, sudo: bool| preflight(&[node(1, 7, true, true), v], 1, 7, sudo);
    assert_eq!(check(node(1, 7, false, false), false), Ok(()));
    assert_eq!(check(node(2, 7, true, true), false), Err("nested mount point: /d/x".to_string()));
    assert_eq!(check(node(2, 7, true, true), true), Err("nested mount point: /d/x".to_string()));
    assert_eq!(
        check(node(1, 0, false, true), false),
        Err("foreign-owned path /d/x; pass --sudo".to_string())
    );
    assert_eq!(check(node(1, 0, false, true), true), Ok(()));
    assert_eq!(
        check(node(1, 7, true, false), false),
        Err("unwritable directory /d/x; pass --sudo".to_string())
    );
    assert_eq!(check(node(1, 7, true, false), true), Ok(()));
    assert_eq!(check(Visit::Unreadable("denied".to_string()), false), Err("denied".to_string()));
    assert_eq!(check(Visit::Unreadable("denied".to_string()), true), Ok(()));
    assert_eq!(check(Visit::Unknown("gone".to_string()), true), Err("gone".to_string()));
    assert_eq!(preflight(&[], 1, 7, false), Ok(()));
}

#[test]
fn sudo_is_a_last_resort() {
    assert!(matches!(remove(false, true, Err("x".to_string()), false), Removal::Nothing));
    assert!(matches!(remove(true, true, Ok(()), false), Removal::Sudo));
    assert!(matches!(remove(true, true, Ok(()), true), Removal::Plain));
    assert!(matches!(remove(true, false, Ok(()), false), Removal::Plain));
    match remove(true, true, Err("mount".to_string()), false) {
        Removal::Refused(m) => assert_eq!(m, "mount"),
        _ => panic!("the removal is refused"),
    }
}

#[test]
fn user_directory_is_kept_even_with_force() {
    let stale = vec![entry(Kind::Stale, "/w/repo/.worktrees/a")];
    let force = args(&[], &["stale", "force"]);
    let p = at("/w/repo", "/w/repo/.worktrees/a/src").plan(&stale, &force, &[], &[fine()]);
    assert!(p.items.is_empty());
    assert_eq!(
        p.errors,
        ["/w/repo/.worktrees/a: cannot remove the current working directory or its ancestor; run from the main checkout"]
    );
    let full = || Facts { target_is_dir: true, ..fine() };
    let p = at("/w/repo", "/home/me").plan(&stale, &force, &[], &[full()]);
    assert!(p.errors.is_empty() && p.items[0].target);
    let p = at("/w/repo", "/w/targets/repo/a/target/debug").plan(&stale, &force, &[], &[full()]);
    assert!(p.errors.is_empty() && !p.items[0].target);
    assert_eq!(
        p.notes,
        ["KEEP target (shared, protected, outside base or --keep-target): /w/targets/repo/a/target"]
    );
}

#[test]
fn directory_above_a_target_stays_while_the_user_is_in_it() {
    let run = |here: &str| {
        let r = at("/w/repo", here);
        let (mut e, _) = begin(Kind::Stale, true, &args(&[], &["yes", "quiet"]));
        let mut last = String::new();
        for reply in [Reply::Done, Reply::Entries(vec![]), Reply::Size(1), Reply::Done] {
            let (next, request) = e.resume(&r, reply);
            e = next;
            last = word(&request);
        }
        last
    };
    assert_eq!(run("/home/me"), "rmdir /w/targets/repo/a");
    assert_eq!(
        run("/w/targets/repo/a"),
        "say worktree-prune: removed 1 item(s), freed 1.0 B of target data"
    );
}

#[test]
fn warnings_are_short_and_failures_whole() {
    let reply = || Reply::Failed {
        head: "cannot run git".to_string(),
        whole: "cannot run git: not found".to_string(),
    };
    assert_eq!(
        answer(
            begin(Kind::Stale, false, &args(&[], &["yes", "delete-branch", "force"])),
            vec![Reply::Done, reply(), Reply::Done]
        ),
        [
            "remove /x/a",
            "branch a true",
            "warn Branch a kept: cannot run git",
            "fail cannot run git: not found",
        ]
    );
}

#[test]
fn force_keeps_what_a_blocked_plan_holds() {
    let entries = vec![entry(Kind::Worktree, "/x/a"), entry(Kind::Worktree, "/x/b")];
    let known = || vec![fine(), Facts { dirty: Ok(true), ..fine() }];
    let at = vec![path("/cwd/a"), path("/cwd/b")];
    let plain = repo().plan(&entries, &args(&["a", "b"], &[]), &at, &known());
    assert_eq!((plain.items.len(), plain.errors.len()), (1, 1));
    let strong = repo().plan(&entries, &args(&["a", "b"], &["force"]), &at, &known());
    assert_eq!((strong.items.len(), strong.errors.len()), (2, 0));
    assert!(strong.items[0].entry.path.same(&plain.items[0].entry.path));
}
