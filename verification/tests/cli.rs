use worktree_prune::args::{course, report, terminal_error, Args, Course};
use worktree_prune::entry::{parse_registrations, Entry, Kind};
use worktree_prune::execute::{Execution, Reply, Request};
use worktree_prune::inventory::{GitMark, Leftover, Sighting, Survey};
use worktree_prune::path::AbsPath;
use worktree_prune::plan::{Facts, Plan};
use worktree_prune::repo::Repo;
use worktree_prune::resolve::{Probe, Resolution, Turn};

fn path(s: &str) -> AbsPath {
    AbsPath::root().join(s.as_bytes())
}

fn repo() -> Repo {
    match Repo::open(path("/w/repo"), path("/w/repo"), path("/w/repo/.git"), path("/w/targets")) {
        Ok(r) => r,
        Err(_) => panic!("the repository opens"),
    }
}

fn entry(kind: Kind, at: &str, branch: Option<&str>, target: &str) -> Entry {
    Entry {
        path: path(at),
        branch: branch.map(|b| b.to_string()),
        target: path(target),
        kind,
        locked: false,
    }
}

fn main_entry() -> Entry {
    entry(Kind::Main, "/w/repo", Some("main"), "/w/targets/repo/main/target")
}

fn worktree(name: &str) -> Entry {
    entry(
        Kind::Worktree,
        &format!("/w/repo/.worktrees/{name}"),
        Some(name),
        &format!("/w/targets/repo/{name}/target"),
    )
}

fn args(worktrees: &[&str], flags: &[&str]) -> Args {
    let on = |f: &str| flags.contains(&f);
    Args {
        worktrees: worktrees.iter().map(|w| w.as_bytes().to_vec()).collect(),
        dry_run: on("dry-run"),
        yes: on("yes"),
        force: on("force"),
        sudo: on("sudo"),
        quiet: on("quiet"),
        keep_target: on("keep-target"),
        delete_branch: on("delete-branch"),
        list: on("list"),
        stale: on("stale"),
        orphans: on("orphans"),
        repo: b".".to_vec(),
    }
}

fn clean() -> Facts {
    Facts {
        is_dir: true,
        dirty: Ok(false),
        state: Ok("merged".to_string()),
        exists: true,
        clear: Ok(()),
        target_is_dir: true,
        target_clear: Ok(()),
    }
}

/// A plan in which each argument resolves below the main checkout, where no entry lies.
fn plan(r: &Repo, entries: &[Entry], a: &Args, facts: &[Facts]) -> Plan {
    let resolved: Vec<AbsPath> = a.worktrees.iter().map(|w| path("/w/repo").join(w)).collect();
    r.plan(entries, a, &resolved, facts)
}

/// What an execution asks for when all goes well and the inventory is `live` afterwards.
fn carry_out(r: &Repo, p: Plan, a: &Args, live: &[Entry]) -> Vec<String> {
    let mut log = Vec::new();
    let (mut execution, mut request) = Execution::begin(p, a.clone());
    loop {
        let reply = match request {
            Request::Say(s) => {
                log.push(format!("say {s}"));
                Reply::Done
            }
            Request::Warn(s) => {
                log.push(format!("warn {s}"));
                Reply::Done
            }
            Request::GitRemove(p, force) => {
                log.push(format!("git remove {} {force}", p.display()));
                Reply::Done
            }
            Request::Registered => Reply::Entries(live.to_vec()),
            Request::Measure(p) => {
                log.push(format!("measure {}", p.display()));
                Reply::Size(1536)
            }
            Request::Remove(p) => {
                log.push(format!("remove {}", p.display()));
                Reply::Done
            }
            Request::Inventory => {
                log.push("inventory".to_string());
                Reply::Entries(live.to_vec())
            }
            Request::RemoveDir(p) => {
                log.push(format!("rmdir {}", p.display()));
                Reply::Done
            }
            Request::DeleteBranch(b, force) => {
                log.push(format!("delete branch {b} {force}"));
                Reply::Done
            }
            Request::Finish => {
                log.push("finish".to_string());
                return log;
            }
            Request::Fail(e) => {
                log.push(format!("fail {e}"));
                return log;
            }
        };
        (execution, request) = execution.resume(r, reply);
    }
}

#[test]
fn dry_run_then_remove_target_and_branch() {
    let r = repo();
    let entries = vec![main_entry(), worktree("feature")];
    let facts = vec![clean(), clean()];
    let dry = args(&["feature"], &[]);
    let p = plan(&r, &entries, &dry, &facts);
    assert!(p.errors.is_empty());
    assert_eq!(
        p.describe(),
        "REMOVE Worktree: /w/repo/.worktrees/feature\n  cargo target: /w/targets/repo/feature/target"
    );
    assert_eq!(
        carry_out(&r, p, &dry, &entries),
        ["say Dry run: nothing removed. Pass --yes to apply.", "finish"]
    );
    let wet = args(&["feature"], &["yes", "delete-branch"]);
    let p = plan(&r, &entries, &wet, &facts);
    assert_eq!(
        p.describe(),
        "Delete local branch feature after removing checkout (Git checks merge unless --force).\n\
         REMOVE Worktree: /w/repo/.worktrees/feature\n  cargo target: /w/targets/repo/feature/target"
    );
    assert_eq!(
        carry_out(&r, p, &wet, &[main_entry()]),
        [
            "git remove /w/repo/.worktrees/feature false",
            "inventory",
            "measure /w/targets/repo/feature/target",
            "remove /w/targets/repo/feature/target",
            "rmdir /w/targets/repo/feature",
            "delete branch feature false",
            "say Removed /w/repo/.worktrees/feature",
            "say worktree-prune: removed 1 item(s), freed 1.5 KiB of target data",
            "finish",
        ]
    );
}

#[test]
fn one_dirty_selection_blocks_entire_batch() {
    let r = repo();
    let entries = vec![main_entry(), worktree("clean"), worktree("dirty")];
    let known = || vec![clean(), clean(), Facts { dirty: Ok(true), ..clean() }];
    let a = args(&["clean", "dirty"], &["yes"]);
    let p = plan(&r, &entries, &a, &known());
    let blocked =
        "/w/repo/.worktrees/dirty: uncommitted or untracked files; pass --force to discard";
    assert_eq!(p.errors, [blocked]);
    assert_eq!(p.items.len(), 1);
    assert_eq!(
        carry_out(&r, p, &a, &entries),
        [format!("fail plan blocked; nothing removed\n{blocked}")]
    );
    let a = args(&["dirty"], &["yes", "force"]);
    let p = plan(&r, &entries, &a, &known());
    let log = carry_out(&r, p, &a, &[main_entry(), worktree("clean")]);
    assert_eq!(log[0], "git remove /w/repo/.worktrees/dirty true");
    assert_eq!(log.last().map(|s| s.as_str()), Some("finish"));
}

#[test]
fn local_only_commits_are_protected() {
    let r = repo();
    let entries = vec![main_entry(), worktree("local")];
    let known = vec![clean(), Facts { state: Ok("local-only".to_string()), ..clean() }];
    let a = args(&["local"], &["yes"]);
    let p = plan(&r, &entries, &a, &known);
    assert_eq!(
        p.errors,
        ["/w/repo/.worktrees/local: commits are local-only; push them or pass --force"]
    );
    assert!(p.items.is_empty());
}

#[test]
fn main_and_locked_are_protected_even_with_force() {
    let r = repo();
    let mut locked = worktree("locked");
    locked.locked = true;
    let entries = vec![main_entry(), locked];
    let known = vec![clean(), clean()];
    let p = plan(&r, &entries, &args(&["locked"], &["yes", "force"]), &known);
    assert_eq!(
        p.errors,
        ["/w/repo/.worktrees/locked: locked worktree; unlock it explicitly first"]
    );
    let p = plan(&r, &entries, &args(&["/w/repo"], &["yes", "force"]), &known);
    assert_eq!(p.errors, ["/w/repo: main checkout is protected"]);
    assert!(p.items.is_empty());
}

#[test]
fn shared_and_external_targets_are_kept() {
    let r = repo();
    let set = "[build]\ntarget-dir = '/w/targets/repo/shared/target'\n";
    let mut a = worktree("a");
    let mut b = worktree("b");
    for e in [&mut a, &mut b] {
        let found = match r.target(&e.path, None, Some(set)) {
            Ok(t) => t,
            Err(_) => panic!("the setting is read"),
        };
        assert_eq!(found.display(), "/w/targets/repo/shared/target");
        e.target = found;
    }
    let entries = vec![main_entry(), a, b];
    let known = vec![clean(), clean(), clean()];
    let p = plan(&r, &entries, &args(&["a"], &["yes", "force"]), &known);
    assert!(p.errors.is_empty());
    assert!(!p.items[0].target);
    assert_eq!(
        p.notes,
        ["KEEP target (shared, protected, outside base or --keep-target): /w/targets/repo/shared/target"]
    );
    let mut b = worktree("b");
    b.target = match r.target(&b.path, None, Some("[build]\ntarget-dir = '/w/outside'")) {
        Ok(t) => t,
        Err(_) => panic!("the setting is read"),
    };
    let p = plan(&r, &[main_entry(), b], &args(&["b"], &["yes", "force"]), &[clean(), clean()]);
    assert!(p.errors.is_empty());
    assert!(!p.items[0].target);
}

/// Resolves on a disk on which all exists but what `missing` names, and links lead elsewhere.
fn resolve(p: AbsPath, links: &[(&str, &str)], missing: &[&str]) -> Result<String, String> {
    let mut resolution = Resolution::absolute(p);
    loop {
        let at = resolution.subject().display();
        let probe = match links.iter().find(|l| l.0 == at) {
            Some(l) if l.1.is_empty() => Probe::Dangling,
            Some(l) => Probe::Canonical(path(l.1)),
            None if missing.contains(&at.as_str()) => Probe::Missing,
            None => Probe::Canonical(path(&at)),
        };
        match resolution.resume(probe) {
            Turn::Ask(next) => resolution = next,
            Turn::Done(p) => return Ok(p.display()),
            Turn::Dangling(p) => return Err(p.display()),
        }
    }
}

#[test]
fn symlink_escape_target_is_kept() {
    let r = repo();
    let mut e = worktree("feature");
    let written = match r.target(&e.path, None, None) {
        Ok(t) => t,
        Err(_) => panic!("the usual target is known"),
    };
    assert_eq!(written.display(), "/w/targets/repo/feature/target");
    let links = [("/w/targets/repo/feature/target", "/w/outside")];
    assert_eq!(resolve(written, &links, &[]), Ok("/w/outside".to_string()));
    e.target = path("/w/outside");
    let entries = vec![main_entry(), e];
    assert!(!r.target_safe(&entries[1], &entries));
    let p = plan(&r, &entries, &args(&["feature"], &["yes"]), &[clean(), clean()]);
    assert!(p.errors.is_empty());
    assert!(!p.items[0].target);
}

#[test]
fn orphans_preserve_live_stale_and_main_targets() {
    let r = repo();
    let mut survey = Survey::begin(vec![main_entry(), worktree("live")], true);
    let stale = Leftover {
        path: path("/w/repo/.worktrees/stale"),
        target: path("/w/targets/repo/stale/target"),
        git: GitMark::Missing,
        target_is_dir: true,
        configured: false,
    };
    survey = r.inventory(survey, Sighting::Directory(stale));
    for name in ["live", "main", "orphan", "stale"] {
        let at = path(&format!("/w/targets/repo/{name}"));
        survey = r.inventory(survey, Sighting::Target(name.as_bytes().to_vec(), at));
    }
    let entries = survey.finish();
    let kinds: Vec<Kind> = entries.iter().map(|e| e.kind).collect();
    assert_eq!(kinds, [Kind::Main, Kind::Worktree, Kind::Stale, Kind::Orphan]);
    assert_eq!(entries[3].path.display(), "/w/targets/repo/orphan");
    let known: Vec<Facts> = entries.iter().map(|_| clean()).collect();
    let a = args(&[], &["orphans", "yes"]);
    let p = plan(&r, &entries, &a, &known);
    assert!(p.errors.is_empty());
    let live: Vec<Entry> = entries[..3].to_vec();
    assert_eq!(
        carry_out(&r, p, &a, &live),
        [
            "measure /w/targets/repo/orphan",
            "remove /w/targets/repo/orphan",
            "say Removed /w/targets/repo/orphan",
            "say worktree-prune: removed 1 item(s), freed 1.5 KiB of target data",
            "finish",
        ]
    );
}

#[test]
fn stale_requires_force_and_unrelated_clone_survives() {
    let r = repo();
    let mut survey = Survey::begin(vec![main_entry(), worktree("live")], false);
    let found = |name: &str, git: GitMark| Leftover {
        path: path(&format!("/w/repo/.worktrees/{name}")),
        target: path(&format!("/w/targets/repo/{name}/target")),
        git,
        target_is_dir: true,
        configured: false,
    };
    survey = r.inventory(survey, Sighting::Directory(found("stale", GitMark::Missing)));
    survey = r.inventory(survey, Sighting::Directory(found("unrelated", GitMark::Other)));
    let entries = survey.finish();
    assert_eq!(entries.len(), 3);
    let known = || vec![clean(), clean(), clean()];
    let p = plan(&r, &entries, &args(&[], &["stale", "yes"]), &known());
    assert_eq!(
        p.errors,
        ["/w/repo/.worktrees/stale: stale files cannot be checked for uncommitted work; inspect them and pass --force"]
    );
    let a = args(&[], &["stale", "yes", "force"]);
    let p = plan(&r, &entries, &a, &known());
    let log = carry_out(&r, p, &a, &[main_entry(), worktree("live")]);
    assert_eq!(log[0], "remove /w/repo/.worktrees/stale");
    assert!(log.contains(&"remove /w/targets/repo/stale/target".to_string()));
    assert!(!log.iter().any(|l| l.contains("unrelated")));
}

#[test]
fn paths_with_spaces_and_newlines() {
    let raw = b"worktree /w/repo\0HEAD 1\0branch refs/heads/main\0\0worktree /w/repo/.worktrees/with space\nand newline\0HEAD 2\0branch refs/heads/feature\0\0";
    let r = repo();
    let mut entries = Vec::new();
    for listed in parse_registrations(raw) {
        let at = AbsPath::root().join(&listed.path);
        let target = match r.target(&at, None, None) {
            Ok(t) => t,
            Err(_) => panic!("the usual target is known"),
        };
        entries.push(r.registered(&listed, at, target).unwrap());
    }
    assert_eq!(entries.len(), 2);
    assert_eq!(entries[1].name(), "with space\nand newline");
    assert_eq!(entries[1].branch.as_deref(), Some("feature"));
    let a = args(&["/w/repo/.worktrees/with space\nand newline"], &["yes"]);
    let p = plan(&r, &entries, &a, &[clean(), clean()]);
    assert!(p.errors.is_empty());
    let log = carry_out(&r, p, &a, &[main_entry()]);
    assert_eq!(log[0], "git remove /w/repo/.worktrees/with space\nand newline false");
}

#[test]
fn keep_target_and_quiet_hook_behavior() {
    let r = repo();
    let entries = vec![main_entry(), worktree("a")];
    let known = vec![clean(), clean()];
    let a = args(&["a"], &["yes", "keep-target"]);
    let p = plan(&r, &entries, &a, &known);
    assert!(!p.items[0].target);
    let log = carry_out(&r, p, &a, &[main_entry()]);
    assert!(!log.iter().any(|l| l.contains("/w/targets")));
    let a = args(&["unknown"], &["quiet", "yes"]);
    let p = plan(&r, &entries, &a, &known);
    assert_eq!(p.errors, ["unknown: unknown or ambiguous worktree"]);
    assert_eq!(report(true, "plan blocked"), None);
    assert_eq!(report(false, "plan blocked"), Some("worktree-prune: plan blocked".to_string()));
}

#[test]
fn tui_requires_terminal_and_help_needs_no_repo() {
    let plain = args(&[], &[]);
    assert_eq!(course(&plain, true, false), Course::NoTerminal);
    assert!(terminal_error().contains("use --list"));
    assert_eq!(course(&plain, true, true), Course::Interactive);
    for flags in [&["list"][..], &["dry-run"][..], &["quiet"][..], &[][..]] {
        assert_eq!(course(&args(&[], flags), false, false), Course::List);
    }
    assert_eq!(course(&args(&["x"], &["list"]), false, false), Course::ListAndPlan);
    assert_eq!(course(&args(&[], &["stale"]), false, false), Course::Plan);
    assert_eq!(course(&args(&[], &["orphans"]), false, false), Course::Plan);
}

#[test]
fn ambiguous_basename_is_rejected() {
    let r = repo();
    let entries = vec![
        main_entry(),
        entry(Kind::Worktree, "/w/one/same", Some("one"), "/w/targets/repo/same/target"),
        entry(Kind::Worktree, "/w/two/same", Some("two"), "/w/targets/repo/same/target"),
    ];
    let known = || vec![clean(), clean(), clean()];
    let p = plan(&r, &entries, &args(&["same"], &["yes"]), &known());
    assert_eq!(p.errors, ["same: unknown or ambiguous worktree"]);
    let p = plan(&r, &entries, &args(&["/w/two/same"], &["yes"]), &known());
    assert!(p.errors.is_empty());
    assert_eq!(p.items[0].entry.path.display(), "/w/two/same");
}

#[test]
fn dangling_links_are_named() {
    let links = [("/w/link", "")];
    assert_eq!(resolve(path("/w/link/x"), &links, &[]), Err("/w/link".to_string()));
    assert_eq!(
        worktree_prune::resolve::dangling_error(&path("/w/link")),
        "dangling symlink: /w/link"
    );
}

#[test]
fn missing_and_parent_steps_resolve() {
    let links = [("/a/link", "/real/dir")];
    assert_eq!(resolve(path("/a/link/../x"), &links, &[]), Ok("/real/x".to_string()));
    assert_eq!(
        resolve(path("/a/gone/../link/y"), &links, &["/a/gone"]),
        Ok("/real/dir/y".to_string())
    );
    assert_eq!(resolve(path("/../../x"), &links, &["/x"]), Ok("/x".to_string()));
    assert_eq!(resolve(path("/"), &links, &[]), Ok("/".to_string()));
    // Resolving twice is resolving once.
    assert_eq!(resolve(path("/real/x"), &links, &[]), Ok("/real/x".to_string()));
}
