use worktree_prune::command;
use worktree_prune::config::{document_target_dir, interpret, text_target_dir, ConfigError};
use worktree_prune::entry::{parse_registrations, Entry, Kind, Registration};
use worktree_prune::inventory::{gitdir, may_be_orphan, usual_places, GitMark, Leftover, Sighting, Survey};
use worktree_prune::path::AbsPath;
use worktree_prune::repo::{base_setting, OpenError, Repo, TargetError};
use worktree_prune::size;
use worktree_prune::status::Finding;

fn path(s: &str) -> AbsPath {
    AbsPath::root().join(s.as_bytes())
}

fn open(common: &str, base: &str) -> Result<Repo, OpenError> {
    Repo::open(path("/w/repo"), path("/home/me"), path(common), path(base))
}

fn repo() -> Repo {
    open("/w/repo/.git", "/w/targets").ok().unwrap()
}

fn entry(kind: Kind, at: &str, target: &str) -> Entry {
    Entry {
        path: path(at),
        branch: None,
        target: path(target),
        kind,
        locked: false,
    }
}

#[test]
fn repositories_are_named_after_their_checkout() {
    let r = repo();
    assert_eq!(r.main().display(), "/w/repo");
    assert_eq!(r.common().display(), "/w/repo/.git");
    assert_eq!(r.base().display(), "/w/targets");
    assert_eq!(r.key().display(), "/w/targets/repo");
    assert_eq!(r.root().display(), "/w/repo");
    assert_eq!(r.here().display(), "/home/me");
    let bare = open("/srv/project.git", "/w/targets").ok().unwrap();
    assert_eq!(bare.main().display(), "/srv/project.git");
    assert_eq!(bare.key().display(), "/w/targets/project");
}

#[test]
fn unusable_repositories_are_refused() {
    assert_eq!(open("/", "/w/targets").err(), Some(OpenError::NoName));
    assert_eq!(open("/w/repo/.git", "/").err(), Some(OpenError::RootBase));
    assert_eq!(OpenError::NoName.message(), "repository has no name");
    assert_eq!(
        OpenError::RootBase.message(),
        "Cargo target base must not be the filesystem root"
    );
    assert_eq!(Repo::locate(&path("/")).err(), Some(OpenError::NoName));
}

#[test]
fn base_comes_from_the_environment_or_its_default() {
    assert_eq!(base_setting(Some(b"/x".to_vec())), b"/x");
    assert_eq!(base_setting(None), b"/.cargo-targets/targets");
}

#[test]
fn usual_targets_are_keyed_by_names() {
    let r = repo();
    let at = |p: &str| r.target(&path(p), None, None).ok().unwrap().display();
    assert_eq!(at("/w/repo"), "/w/targets/repo/main/target");
    assert_eq!(at("/elsewhere/feature"), "/w/targets/repo/feature/target");
    assert!(matches!(r.target(&path("/"), None, None), Err(TargetError::NoName)));
    assert_eq!(TargetError::NoName.message(), "worktree has no name");
}

#[test]
fn configured_targets_are_read_in_the_worktree() {
    let r = repo();
    let wt = path("/w/repo/.worktrees/a");
    let get = |bare: Option<&str>, toml: Option<&str>| match r.target(&wt, bare, toml) {
        Ok(p) => p.display(),
        Err(e) => e.message(),
    };
    assert_eq!(get(None, Some("[build]\ntarget-dir = 'out'")), "/w/repo/.worktrees/a/out");
    assert_eq!(get(None, Some("[build]\ntarget-dir = '/abs/t'")), "/abs/t");
    assert_eq!(
        get(None, Some("build.target-dir = '../shared'")),
        "/w/repo/.worktrees/a/../shared"
    );
    assert_eq!(get(None, Some("[build]\njobs = 2")), "/w/targets/repo/a/target");
    assert_eq!(get(None, Some("build = 3")), "/w/targets/repo/a/target");
    assert_eq!(
        get(None, Some("[build]\ntarget-dir = 3")),
        "build.target-dir must be a string"
    );
    // The file without an extension goes first, and alone.
    assert_eq!(
        get(Some("[build]\ntarget-dir = '/first'"), Some("[build]\ntarget-dir = '/second'")),
        "/first"
    );
    assert_eq!(
        get(Some(""), Some("[build]\ntarget-dir = '/second'")),
        "/w/targets/repo/a/target"
    );
    let broken = get(Some("not toml at all"), None);
    assert!(broken.starts_with("invalid /w/repo/.worktrees/a/.cargo/config: "));
    let message = toml::from_str::<toml::Value>("not toml at all").unwrap_err().to_string();
    assert!(broken.ends_with(&message));
    let broken = get(None, Some("= 1"));
    assert!(broken.starts_with("invalid /w/repo/.worktrees/a/.cargo/config.toml: "));
}

#[test]
fn settings_are_found_in_documents() {
    let mut build = toml::Table::new();
    build.insert("target-dir".to_string(), toml::Value::String("x".to_string()));
    let mut top = toml::Table::new();
    top.insert("build".to_string(), toml::Value::Table(build));
    assert_eq!(
        document_target_dir(&toml::Value::Table(top)).ok(),
        Some(Some("x".to_string()))
    );
    assert_eq!(document_target_dir(&toml::Value::Integer(1)).ok(), Some(None));
    assert_eq!(text_target_dir("").ok(), Some(None));
    assert!(matches!(text_target_dir("["), Err(ConfigError::Syntax(_))));
    assert!(matches!(text_target_dir("build.target-dir = []"), Err(ConfigError::NotAString)));
    assert!(matches!(interpret(Some(None)), Err(ConfigError::NotAString)));
    assert_eq!(interpret(None).ok(), Some(None));
    assert_eq!(interpret(Some(Some("y"))).ok(), Some(Some("y".to_string())));
}

#[test]
fn listings_are_parsed() {
    let raw = b"stray\0worktree /a\0HEAD x\0branch refs/heads/main\0\0worktree /b\0HEAD y\0detached\0locked for a reason\0\0worktree /c\0bare\0\0";
    let list = parse_registrations(raw);
    assert_eq!(list.len(), 3);
    assert_eq!(list[0].path, b"/a");
    assert_eq!(list[0].branches, [b"main".to_vec()]);
    assert!(!list[0].locked);
    assert_eq!(list[1].path, b"/b");
    assert!(list[1].branches.is_empty());
    assert!(list[1].locked);
    assert!(!list[2].locked);
    assert!(parse_registrations(b"").is_empty());
}

#[test]
fn registrations_become_entries() {
    let r = repo();
    let listed = |branches: Vec<Vec<u8>>, locked: bool| Registration {
        path: b"/x".to_vec(),
        branches,
        locked,
    };
    let t = || path("/w/targets/repo/x/target");
    let e = r.registered(&listed(vec![b"f\xc3\xa9".to_vec()], true), path("/x"), t()).unwrap();
    assert_eq!(e.branch.as_deref(), Some("fé"));
    assert_eq!(e.kind, Kind::Worktree);
    assert!(e.locked);
    assert_eq!(e.name(), "x");
    for main in ["/w/repo", "/w/repo/.git"] {
        let e = r.registered(&listed(vec![], false), path(main), t()).unwrap();
        assert_eq!(e.kind, Kind::Main);
        assert_eq!(e.branch, None);
    }
    let bad = vec![b"ok".to_vec(), b"\xff".to_vec()];
    let message = String::from_utf8(b"\xff".to_vec()).unwrap_err().to_string();
    assert_eq!(r.registered(&listed(bad, false), path("/x"), t()).err(), Some(message));
}

#[test]
fn names_are_repaired_for_display() {
    let mut e = entry(Kind::Worktree, "/x", "/t");
    e.path = AbsPath::root().join(b"/d/caf\xe9");
    assert_eq!(e.name(), "caf\u{fffd}");
    e.path = AbsPath::root();
    assert_eq!(e.name(), "");
}

#[test]
fn leftovers_are_looked_for_in_order() {
    let r = repo();
    let entries = vec![
        entry(Kind::Main, "/w/repo", "/w/targets/repo/main/target"),
        entry(Kind::Worktree, "/z/b", "/t1"),
        entry(Kind::Worktree, "/a/b", "/t2"),
        entry(Kind::Worktree, "/a/c", "/t3"),
        entry(Kind::Stale, "/s/c", "/t4"),
    ];
    let found: Vec<String> =
        r.searched(&entries, &usual_places(&[b".tool".to_vec(), b"src".to_vec()])).iter().map(|p| p.display()).collect();
    assert_eq!(found, ["/a", "/w/repo/.tool/worktrees", "/w/repo/.worktrees", "/w/repo/worktrees", "/z"]);
    let other: Vec<String> = r
        .searched(&entries, &[b".tool/worktrees".to_vec(), b"/z".to_vec()])
        .iter()
        .map(|p| p.display())
        .collect();
    assert_eq!(other, ["/a", "/w/repo/.tool/worktrees", "/z"]);
}

#[test]
fn hidden_directories_hold_places_too() {
    let usual: [&[u8]; 2] = [b".worktrees", b"worktrees"];
    assert_eq!(usual_places(&[]), usual);
    let found: Vec<Vec<u8>> = [".git", ".worktrees", "src", ".tool", "", "..", ".gitx", "worktrees"]
        .iter()
        .map(|n| n.as_bytes().to_vec())
        .collect();
    let places: [&[u8]; 4] = [b".tool/worktrees", b".gitx/worktrees", b".worktrees", b"worktrees"];
    assert_eq!(usual_places(&found), places);
}

#[test]
fn leftovers_belong_to_the_repository() {
    let r = repo();
    let base = || {
        vec![
            entry(Kind::Main, "/w/repo", "/w/targets/repo/main/target"),
            entry(Kind::Worktree, "/w/repo/.worktrees/live", "/w/targets/repo/live/target"),
        ]
    };
    let add = |at: &str, target: &str, git: GitMark, is_dir: bool, configured: bool| {
        let l = Leftover {
            path: path(at),
            target: path(target),
            git,
            target_is_dir: is_dir,
            configured,
        };
        let survey = Survey::begin(base(), false);
        r.inventory(survey, Sighting::Directory(l)).finish().len() - 2
    };
    let at = "/w/repo/.worktrees/old";
    let t = "/w/targets/repo/old/target";
    let inside = || GitMark::File(Some(path("/w/repo/.git/worktrees/old")));
    assert_eq!(add(at, t, inside(), false, false), 1);
    assert_eq!(add(at, t, GitMark::File(Some(path("/other/.git"))), true, true), 0);
    assert_eq!(add(at, t, GitMark::File(None), true, true), 0);
    assert_eq!(add(at, t, GitMark::Other, true, true), 0);
    assert_eq!(add(at, t, GitMark::Missing, true, false), 1);
    assert_eq!(add(at, t, GitMark::Missing, false, true), 1);
    assert_eq!(add(at, t, GitMark::Missing, false, false), 0);
    assert_eq!(add(at, "/elsewhere", GitMark::Missing, true, true), 0);
    assert_eq!(add("/w/repo/.worktrees/live/sub", t, inside(), true, true), 0);
    assert_eq!(add("/w/repo", t, inside(), true, true), 0);
    assert_eq!(add("/w/repo/.git", t, inside(), true, true), 0);
    assert!(r.candidate(&base(), &path(at)));
    assert!(!r.candidate(&base(), &path("/w/repo/.worktrees")));
    assert_eq!(gitdir("gitdir: /w/repo/.git/worktrees/x\n").as_deref(), Some("/w/repo/.git/worktrees/x"));
    assert_eq!(gitdir("nothing"), None);
    assert!(!may_be_orphan(b"main") && may_be_orphan(b"mains"));
}

#[test]
fn leftovers_come_before_unclaimed_targets() {
    let r = repo();
    let leftover = |name: &str| {
        Sighting::Directory(Leftover {
            path: path(&format!("/w/repo/.tool/worktrees/{name}")),
            target: path(&format!("/w/targets/repo/{name}/target")),
            git: GitMark::Missing,
            target_is_dir: true,
            configured: false,
        })
    };
    let target = |name: &str| {
        Sighting::Target(name.as_bytes().to_vec(), path(&format!("/w/targets/repo/{name}")))
    };
    let survey = |orphans: bool| {
        let mut s = Survey::begin(
            vec![entry(Kind::Main, "/w/repo", "/w/targets/repo/main/target")],
            orphans,
        );
        for seen in [leftover("old"), target("old"), target("lost"), leftover("late"), target("main")] {
            s = r.inventory(s, seen);
        }
        let found: Vec<(Kind, String)> =
            s.finish().iter().map(|e| (e.kind, e.path.display())).collect();
        found
    };
    let without = survey(false);
    assert_eq!(
        without,
        [
            (Kind::Main, "/w/repo".to_string()),
            (Kind::Stale, "/w/repo/.tool/worktrees/old".to_string()),
        ]
    );
    let with = survey(true);
    assert_eq!(with[..2], without[..]);
    assert_eq!(with[2..], [(Kind::Orphan, "/w/targets/repo/lost".to_string())]);
}

#[test]
fn states_follow_references() {
    let r = repo();
    let e = entry(Kind::Worktree, "/x", "/t");
    let get = |refs: &[u8]| r.state(&e, true, refs);
    assert_eq!(get(b"refs/heads/main"), "merged");
    assert_eq!(get(b"refs/remotes/other/x\nrefs/heads/master"), "merged");
    assert_eq!(get(b"refs/remotes/origin/main\r\nrefs/x"), "merged");
    assert_eq!(get(b"refs/remotes/origin/master"), "merged");
    assert_eq!(get(b"refs/remotes/origin/sprint-12"), "merged");
    assert_eq!(get(b"refs/remotes/origin/main\r"), "pushed");
    assert_eq!(get(b"refs/remotes/origin/feature"), "pushed");
    assert_eq!(get(b"refs/heads/mainly"), "local-only");
    assert_eq!(get(b""), "local-only");
    assert_eq!(r.state(&e, false, b"refs/heads/main"), "missing");
    for (kind, word) in [(Kind::Main, "main"), (Kind::Stale, "stale"), (Kind::Orphan, "orphan")] {
        assert_eq!(r.state(&entry(kind, "/x", "/t"), true, b""), word);
    }
    assert!(r.dirty(b"?? x\0") && !r.dirty(b""));
}

#[test]
fn listings_are_written() {
    let r = repo();
    let mut e = entry(Kind::Worktree, "/x/a\tb", "/w/targets/repo/a/target");
    e.branch = Some("topic".to_string());
    let entries = vec![e, entry(Kind::Stale, "/x/old", "/t")];
    let found = vec![
        Finding { state: Some("pushed".to_string()), dirty: Some(true), size: 2048 },
        Finding { state: None, dirty: Some(false), size: 0 },
    ];
    let lines = r.list(&entries, &found, false);
    assert_eq!(lines.len(), 3);
    assert_eq!(
        lines[0],
        format!("{:<25} {:<28} {:<12} {:<7} TARGET", "NAME", "BRANCH", "STATE", "DIRTY")
    );
    assert_eq!(
        lines[1],
        format!(
            "{:<25} {:<28} {:<12} {:<7} {}  {}",
            entries[0].name().escape_default(),
            "topic",
            "pushed",
            "yes",
            size::human(2048),
            "/w/targets/repo/a/target"
        )
    );
    assert_eq!(
        lines[2],
        format!(
            "{:<25} {:<28} {:<12} {:<7} {}  {}",
            "old".escape_default(), "(detached)", "unknown", "?", "0.0 B", "/t"
        )
    );
    assert!(r.list(&entries, &found, true).is_empty());
}

#[test]
fn targets_are_safe_only_by_themselves() {
    let r = repo();
    let safe = |e: Entry, others: Vec<Entry>| {
        let mut all = vec![entry(Kind::Main, "/w/repo", "/w/targets/repo/main/target"), e.clone()];
        all.extend(others);
        r.target_safe(&e, &all)
    };
    let wt = |target: &str| entry(Kind::Worktree, "/x/a", target);
    assert!(safe(wt("/w/targets/repo/a/target"), vec![]));
    assert!(safe(wt("/w/targets/other"), vec![]));
    for target in [
        "/w/targets",
        "/w/targets/repo",
        "/w/elsewhere",
        "/w/targets/repo/main",
        "/w/targets/repo/main/target",
        "/w",
        "/",
    ] {
        assert!(!safe(wt(target), vec![]), "{target}");
    }
    let t = "/w/targets/repo/a/target";
    assert!(!safe(wt(t), vec![entry(Kind::Worktree, "/x/b", t)]));
    assert!(!safe(wt(t), vec![entry(Kind::Worktree, "/x/b", "/w/targets/repo/a/target/sub")]));
    assert!(!safe(wt(t), vec![entry(Kind::Worktree, "/w/targets/repo/a", "/y")]));
    assert!(!safe(entry(Kind::Worktree, "/w/targets/repo/a/wt", "/w/targets/repo/a"), vec![]));
    assert!(safe(entry(Kind::Orphan, "/w/targets/repo/a", "/w/targets/repo/a"), vec![]));
    let inside = Repo::open(path("/w/targets/m"), path("/home/me"), path("/w/targets/m/.git"), path("/w/targets"));
    let inside = inside.ok().unwrap();
    assert!(!inside.target_safe(&wt("/w/targets/m/out"), &[]));
    assert!(!inside.target_safe(&wt("/w/targets/m/.git/out"), &[]));
}

#[test]
fn command_results_are_read() {
    assert_eq!(command::output(true, b"out".to_vec(), b"err"), Ok(b"out".to_vec()));
    assert_eq!(
        command::output(false, b"out".to_vec(), b" fatal: \xff no\n"),
        Err("fatal: \u{fffd} no".to_string())
    );
    assert_eq!(command::text(b" abc\n".to_vec()), Ok("abc".to_string()));
    let message = String::from_utf8(b"a\xff".to_vec()).unwrap_err().to_string();
    assert_eq!(command::text(b"a\xff".to_vec()), Err(message));
}
