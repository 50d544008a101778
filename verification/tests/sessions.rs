use worktree_prune::args::Args;
use worktree_prune::path::AbsPath;
use worktree_prune::picker::{write_paths, Selection};
use worktree_prune::session::{Report, Session, Task};

fn args(worktrees: &[&str], list: bool, quiet: bool) -> Args {
    Args {
        worktrees: worktrees.iter().map(|w| w.as_bytes().to_vec()).collect(),
        dry_run: false,
        yes: false,
        force: false,
        sudo: false,
        quiet,
        keep_target: false,
        delete_branch: false,
        list,
        stale: false,
        orphans: false,
        repo: b".".to_vec(),
    }
}

fn options(a: &Args) -> String {
    let names: Vec<String> = a
        .worktrees
        .iter()
        .map(|w| String::from_utf8(w.clone()).unwrap())
        .collect();
    format!("{} yes={} force={} stale={}", names.join(","), a.yes, a.force, a.stale)
}

fn word(task: &Task) -> String {
    match task {
        Task::Inventory(o) => format!("inventory {o}"),
        Task::List(q) => format!("list {q}"),
        Task::Choose(a) => format!("choose {}", options(a)),
        Task::Plan(a) => format!("plan {}", options(a)),
        Task::Describe => "describe".to_string(),
        Task::Execute(a) => format!("execute {}", options(a)),
        Task::Finish => "finish".to_string(),
        Task::Fail(m) => format!("fail {m}"),
    }
}

fn play(a: Args, interactive: bool, terminal: bool, reports: Vec<Report>) -> Vec<String> {
    let (mut session, task) = Session::begin(a, interactive, terminal);
    let mut log = vec![word(&task)];
    for report in reports {
        let (next, task) = session.run(report);
        session = next;
        log.push(word(&task));
    }
    log
}

fn done(n: usize) -> Vec<Report> {
    (0..n).map(|_| Report::Done).collect()
}

#[test]
fn flags_without_selection_list() {
    assert_eq!(
        play(args(&[], false, false), false, false, done(2)),
        ["inventory false", "list false", "finish"]
    );
    assert_eq!(
        play(args(&[], true, true), false, true, done(2)),
        ["inventory false", "list true", "finish"]
    );
}

#[test]
fn selections_are_planned_described_and_carried_out() {
    let plan = "plan a yes=false force=false stale=false";
    let execute = "execute a yes=false force=false stale=false";
    assert_eq!(
        play(args(&["a"], false, false), false, false, done(4)),
        ["inventory false", plan, "describe", execute, "finish"]
    );
    assert_eq!(
        play(args(&["a"], true, false), false, false, done(5)),
        ["inventory false", "list false", plan, "describe", execute, "finish"]
    );
    assert_eq!(
        play(args(&["a"], false, true), false, false, done(3)),
        ["inventory false", plan, execute, "finish"]
    );
}

#[test]
fn confirmed_choices_are_read_again() {
    let mut a = args(&[], false, false);
    a.stale = true;
    let chosen = Selection {
        paths: vec![AbsPath::root().join(b"/x/a"), AbsPath::root().join(b"y")],
        force: true,
    };
    let mut reports = done(1);
    reports.push(Report::Chosen(Some(chosen)));
    reports.extend(done(3));
    assert_eq!(
        play(a, true, true, reports),
        [
            "inventory false",
            "choose  yes=true force=false stale=true",
            "inventory false",
            "plan /x/a,/y yes=true force=true stale=false",
            "execute /x/a,/y yes=true force=true stale=false",
            "finish",
        ]
    );
    let mut reports = done(1);
    reports.push(Report::Chosen(None));
    assert_eq!(
        play(args(&[], false, false), true, true, reports).last().map(String::as_str),
        Some("finish")
    );
    assert_eq!(write_paths(&[AbsPath::root()]), [b"/".to_vec()]);
}

#[test]
fn choices_need_a_terminal() {
    assert_eq!(
        play(args(&[], false, false), true, false, done(1)),
        [
            "inventory false",
            "fail interactive mode requires a terminal; use --list for text output",
        ]
    );
}

#[test]
fn errors_end_a_run() {
    let mut reports = done(1);
    reports.push(Report::Failed("no".to_string()));
    assert_eq!(
        play(args(&["a"], false, false), false, false, reports),
        ["inventory false", "plan a yes=false force=false stale=false", "fail no"]
    );
}
