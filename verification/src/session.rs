//! A run of the program from its inventory to its end, one task at a time.

use crate::args;
use crate::args::{Args, ArgsView, Course};
use crate::path;
use crate::picker;
use crate::picker::Selection;
use vstd::prelude::*;

verus! {

/// What a run asks for. Plans are made of the last inventory, and the last plan is carried out.
pub enum Task {
    /// Take the inventory, with or without unclaimed target directories.
    Inventory(bool),
    /// List the inventory, quietly or not.
    List(bool),
    /// Let the user choose, with these options.
    Choose(Args),
    /// Make a plan with these options.
    Plan(Args),
    /// Print the description of the plan.
    Describe,
    /// Carry the plan out with these options.
    Execute(Args),
    /// Nothing more: the run has succeeded.
    Finish,
    /// Nothing more: the run has failed, with this error.
    Fail(String),
}

/// What a run asks for, as a value.
pub enum Order {
    Inventory(bool),
    List(bool),
    Choose(ArgsView),
    Plan(ArgsView),
    Describe,
    Execute(ArgsView),
    Finish,
    Fail(Seq<char>),
}

impl View for Task {
    type V = Order;

    open spec fn view(&self) -> Order {
        match *self {
            Task::Inventory(o) => Order::Inventory(o),
            Task::List(q) => Order::List(q),
            Task::Choose(a) => Order::Choose(a@),
            Task::Plan(a) => Order::Plan(a@),
            Task::Describe => Order::Describe,
            Task::Execute(a) => Order::Execute(a@),
            Task::Finish => Order::Finish,
            Task::Fail(m) => Order::Fail(m@),
        }
    }
}

/// What became of a task.
pub enum Report {
    /// It was done.
    Done,
    /// It failed, with this error.
    Failed(String),
    /// The user gave the choice up, or confirmed this.
    Chosen(Option<Selection>),
}

/// What became of a task, as a value.
pub enum News {
    Done,
    Failed(Seq<char>),
    Chosen(Option<(Seq<Seq<Seq<u8>>>, bool)>),
}

impl View for Report {
    type V = News;

    open spec fn view(&self) -> News {
        match *self {
            Report::Done => News::Done,
            Report::Failed(m) => News::Failed(m@),
            Report::Chosen(Some(s)) => News::Chosen(Some((path::views(s.paths@), s.force))),
            Report::Chosen(None) => News::Chosen(None),
        }
    }
}

/// Which report a run waits for.
enum Stage {
    Inventory,
    List,
    Choice,
    Fresh(Args),
    Plan(Args),
    Description(Args),
    Execution,
    Ended,
}

/// Which report a run waits for, as a value.
pub enum Point {
    /// On the first inventory.
    Inventory,
    /// On the listing.
    List,
    /// On the user's choice.
    Choice,
    /// On a new inventory, after a choice that led to these options.
    Fresh(ArgsView),
    /// On a plan with these options.
    Plan(ArgsView),
    /// On the description of a plan with these options.
    Description(ArgsView),
    /// On the execution of a plan.
    Execution,
    /// On nothing: the run has ended.
    Ended,
}

impl Stage {
    pub closed spec fn point(self) -> Point {
        match self {
            Stage::Inventory => Point::Inventory,
            Stage::List => Point::List,
            Stage::Choice => Point::Choice,
            Stage::Fresh(a) => Point::Fresh(a@),
            Stage::Plan(a) => Point::Plan(a@),
            Stage::Description(a) => Point::Description(a@),
            Stage::Execution => Point::Execution,
            Stage::Ended => Point::Ended,
        }
    }
}

/// A run of the program.
pub struct Session {
    args: Args,
    interactive: bool,
    terminal: bool,
    stage: Stage,
}

/// A run of the program, as a value.
#[verifier::ext_equal]
pub struct SessionView {
    /// The options of the program.
    pub args: ArgsView,
    /// The program was called without any argument.
    pub interactive: bool,
    /// There is a terminal to choose at.
    pub terminal: bool,
    /// Which report is waited for.
    pub point: Point,
}

impl View for Session {
    type V = SessionView;

    closed spec fn view(&self) -> SessionView {
        SessionView {
            args: self.args@,
            interactive: self.interactive,
            terminal: self.terminal,
            point: self.stage.point(),
        }
    }
}

/// A report of the kind that is waited for.
pub open spec fn reports(point: Point, news: News) -> bool {
    match point {
        Point::Choice => news is Chosen || news is Failed,
        Point::Ended => false,
        _ => news is Done || news is Failed,
    }
}

/// The next state and task: what is waited for, and what is asked.
pub open spec fn moved(s: SessionView, point: Point, order: Order) -> (SessionView, Order) {
    (SessionView { point, ..s }, order)
}

/// How a run begins: with the inventory.
pub open spec fn begun(args: ArgsView, interactive: bool, terminal: bool) -> (SessionView, Order) {
    let s = SessionView { args, interactive, terminal, point: Point::Inventory };
    (s, Order::Inventory(args.orphans))
}

/// The options under which a confirmed choice is carried out.
pub open spec fn confirmed(args: ArgsView, paths: Seq<Seq<Seq<u8>>>, force: bool) -> ArgsView {
    args::selecting(args::applying(args), picker::written(paths), force)
}

/// How a run goes on after a report.
pub open spec fn continued(s: SessionView, news: News) -> (SessionView, Order) {
    match news {
        News::Failed(m) => moved(s, Point::Ended, Order::Fail(m)),
        News::Chosen(None) => moved(s, Point::Ended, Order::Finish),
        News::Chosen(Some(c)) => moved(
            s,
            Point::Fresh(confirmed(s.args, c.0, c.1)),
            Order::Inventory(s.args.orphans),
        ),
        News::Done => match s.point {
            Point::Inventory => match args::course_of(s.args, s.interactive, s.terminal) {
                Course::NoTerminal => moved(
                    s,
                    Point::Ended,
                    Order::Fail(
                        "interactive mode requires a terminal; use --list for text output"@,
                    ),
                ),
                Course::Interactive => moved(
                    s,
                    Point::Choice,
                    Order::Choose(args::applying(s.args)),
                ),
                Course::List => moved(s, Point::List, Order::List(s.args.quiet)),
                Course::ListAndPlan => moved(s, Point::List, Order::List(s.args.quiet)),
                Course::Plan => moved(s, Point::Plan(s.args), Order::Plan(s.args)),
            },
            Point::List => if args::is_selective(s.args) {
                moved(s, Point::Plan(s.args), Order::Plan(s.args))
            } else {
                moved(s, Point::Ended, Order::Finish)
            },
            Point::Fresh(a) => moved(s, Point::Plan(a), Order::Plan(a)),
            Point::Plan(a) => if s.interactive || s.args.quiet {
                moved(s, Point::Execution, Order::Execute(a))
            } else {
                moved(s, Point::Description(a), Order::Describe)
            },
            Point::Description(a) => moved(s, Point::Execution, Order::Execute(a)),
            _ => moved(s, Point::Ended, Order::Finish),
        },
    }
}

/// The contents of a step.
pub open spec fn step(r: (Session, Task)) -> (SessionView, Order) {
    (r.0@, r.1@)
}

impl Session {
    /// Begins a run.
    pub fn begin(args: Args, interactive: bool, terminal: bool) -> (r: (Session, Task))
        ensures
            step(r) == begun(args@, interactive, terminal),
    {
        let orphans = args.orphans;
        (
            Session { args, interactive, terminal, stage: Stage::Inventory },
            Task::Inventory(orphans),
        )
    }

    /// Moves on to another task.
    fn go(self, stage: Stage, task: Task) -> (r: (Session, Task))
        ensures
            step(r) == moved(self@, stage.point(), task@),
    {
        (Session { stage, ..self }, task)
    }

    /// Takes the report on the last task and goes on.
    pub fn run(self, report: Report) -> (r: (Session, Task))
        requires
            reports(self@.point, report@),
        ensures
            step(r) == continued(self@, report@),
    {
        let quiet = self.args.quiet;
        let orphans = self.args.orphans;
        match report {
            Report::Failed(m) => {
                return self.go(Stage::Ended, Task::Fail(m));
            },
            Report::Chosen(None) => {
                return self.go(Stage::Ended, Task::Finish);
            },
            Report::Chosen(Some(chosen)) => {
                let wanted = self.args.apply().select(
                    picker::write_paths(chosen.paths.as_slice()),
                    chosen.force,
                );
                return self.go(Stage::Fresh(wanted), Task::Inventory(orphans));
            },
            Report::Done => {},
        }
        let Session { args, interactive, terminal, stage } = self;
        let plain = args.clone();
        let s = Session { args, interactive, terminal, stage: Stage::Ended };
        match stage {
            Stage::Inventory => match args::course(&plain, interactive, terminal) {
                Course::NoTerminal => s.go(Stage::Ended, Task::Fail(args::terminal_error())),
                Course::Interactive => s.go(Stage::Choice, Task::Choose(plain.apply())),
                Course::List => s.go(Stage::List, Task::List(quiet)),
                Course::ListAndPlan => s.go(Stage::List, Task::List(quiet)),
                Course::Plan => s.go(Stage::Plan(plain.clone()), Task::Plan(plain)),
            },
            Stage::List => {
                if plain.selects() {
                    s.go(Stage::Plan(plain.clone()), Task::Plan(plain))
                } else {
                    s.go(Stage::Ended, Task::Finish)
                }
            },
            Stage::Fresh(a) => s.go(Stage::Plan(a.clone()), Task::Plan(a)),
            Stage::Plan(a) => {
                if interactive || quiet {
                    s.go(Stage::Execution, Task::Execute(a))
                } else {
                    s.go(Stage::Description(a), Task::Describe)
                }
            },
            Stage::Description(a) => s.go(Stage::Execution, Task::Execute(a)),
            _ => s.go(Stage::Ended, Task::Finish),
        }
    }
}

/// The state of a run and its last task, after these reports.
pub open spec fn ran(
    args: ArgsView,
    interactive: bool,
    terminal: bool,
    news: Seq<News>,
) -> (SessionView, Order)
    decreases news.len(),
{
    if news.len() == 0 {
        begun(args, interactive, terminal)
    } else {
        continued(ran(args, interactive, terminal, news.drop_last()).0, news.last())
    }
}

/// Each report is of the kind that was waited for, and none comes after the end.
pub open spec fn is_proper(
    args: ArgsView,
    interactive: bool,
    terminal: bool,
    news: Seq<News>,
) -> bool
    decreases news.len(),
{
    news.len() == 0 || {
        &&& is_proper(args, interactive, terminal, news.drop_last())
        &&& reports(ran(args, interactive, terminal, news.drop_last()).0.point, news.last())
    }
}

/// The options that are at hand while a plan is made and described.
pub open spec fn at_hand(point: Point) -> Option<ArgsView> {
    match point {
        Point::Fresh(a) => Some(a),
        Point::Plan(a) => Some(a),
        Point::Description(a) => Some(a),
        _ => None,
    }
}

/// What a run keeps at every moment.
pub open spec fn is_sound(
    s: SessionView,
    args: ArgsView,
    interactive: bool,
    terminal: bool,
) -> bool {
    &&& s.args == args
    &&& s.interactive == interactive
    &&& s.terminal == terminal
    &&& s.point is Choice || s.point is Fresh ==> interactive && terminal
    &&& s.point is List ==> !interactive
    &&& at_hand(s.point) matches Some(a) ==> {
        ||| !interactive && args::is_selective(args) && a == args
        ||| interactive && terminal && a.yes && !a.stale && !a.orphans
    }
    &&& s.point is Execution ==> (!interactive && args::is_selective(args)) || (interactive
        && terminal)
}

/// At every moment of a run, the options at hand are those of the program, which select something,
/// or those of a choice that was confirmed at a terminal.
pub proof fn runs_are_sound(args: ArgsView, interactive: bool, terminal: bool, news: Seq<News>)
    requires
        is_proper(args, interactive, terminal, news),
    ensures
        is_sound(ran(args, interactive, terminal, news).0, args, interactive, terminal),
    decreases news.len(),
{
    if news.len() > 0 {
        runs_are_sound(args, interactive, terminal, news.drop_last());
    }
}

/// Nothing is carried out but with the options of the plan that was made last, and only after that
/// plan was made.
pub proof fn only_plans_are_carried_out(s: SessionView, news: News, a: ArgsView)
    requires
        reports(s.point, news),
        continued(s, news).1 == Order::Execute(a),
    ensures
        news is Done,
        s.point == Point::Plan(a) || s.point == Point::Description(a),
{
}

/// Without a selection, a run that is not interactive carries nothing out.
pub proof fn no_selection_carries_nothing_out(
    args: ArgsView,
    terminal: bool,
    news: Seq<News>,
)
    requires
        !args::is_selective(args),
        is_proper(args, false, terminal, news),
    ensures
        !(ran(args, false, terminal, news).1 is Execute),
        !(ran(args, false, terminal, news).1 is Plan),
{
    if news.len() > 0 {
        runs_are_sound(args, false, terminal, news.drop_last());
        runs_are_sound(args, false, terminal, news);
    }
}

/// An interactive run carries nothing out before a choice was confirmed.
pub proof fn nothing_happens_before_a_confirmation(
    args: ArgsView,
    terminal: bool,
    news: Seq<News>,
)
    requires
        is_proper(args, true, terminal, news),
        forall|i: int| 0 <= i < news.len() ==> !((#[trigger] news[i]) matches News::Chosen(Some(_))),
    ensures
        !(ran(args, true, terminal, news).1 is Execute),
        !(ran(args, true, terminal, news).1 is Plan),
        at_hand(ran(args, true, terminal, news).0.point) is None,
    decreases news.len(),
{
    if news.len() > 0 {
        let before = news.drop_last();
        assert forall|i: int| 0 <= i < before.len() implies !((#[trigger] before[i]) matches News::Chosen(
            Some(_),
        )) by {
            assert(before[i] == news[i]);
        }
        nothing_happens_before_a_confirmation(args, terminal, before);
        runs_are_sound(args, true, terminal, before);
        assert(!(news[news.len() - 1] matches News::Chosen(Some(_))));
    }
}

/// A confirmed choice is planned anew on a new inventory, and just that plan is carried out, with
/// consent, for just the chosen paths.
pub proof fn confirmed_choice_is_planned_anew(
    s: SessionView,
    paths: Seq<Seq<Seq<u8>>>,
    force: bool,
)
    requires
        s.point == Point::Choice,
        s.interactive,
    ensures
        ({
            let wanted = confirmed(s.args, paths, force);
            let fresh = continued(s, News::Chosen(Some((paths, force))));
            let planned = continued(fresh.0, News::Done);
            let carried = continued(planned.0, News::Done);
            &&& fresh.1 == Order::Inventory(s.args.orphans)
            &&& planned.1 == Order::Plan(wanted)
            &&& carried.1 == Order::Execute(wanted)
            &&& wanted.yes
            &&& wanted.force == force
            &&& wanted.worktrees == picker::written(paths)
            &&& !wanted.stale
            &&& !wanted.orphans
        }),
{
}

/// Outside quiet mode, a plan that the command line asked for is described before it is carried
/// out.
pub proof fn plan_is_described_first(s: SessionView, a: ArgsView)
    requires
        s.point == Point::Plan(a),
        !s.interactive,
        !s.args.quiet,
    ensures
        continued(s, News::Done).1 == Order::Describe,
        continued(continued(s, News::Done).0, News::Done).1 == Order::Execute(a),
{
}

/// An error ends a run, and is its error.
pub proof fn error_ends_the_run(s: SessionView, error: Seq<char>)
    ensures
        continued(s, News::Failed(error)).0.point == Point::Ended,
        continued(s, News::Failed(error)).1 == Order::Fail(error),
{
}

/// How many reports are left at most.
pub open spec fn left(point: Point) -> nat {
    match point {
        Point::Inventory => 6,
        Point::List => 5,
        Point::Choice => 5,
        Point::Fresh(_) => 4,
        Point::Plan(_) => 3,
        Point::Description(_) => 2,
        Point::Execution => 1,
        Point::Ended => 0,
    }
}

/// Every report brings the end of a run nearer.
pub proof fn every_report_brings_the_end_nearer(s: SessionView, news: News)
    requires
        reports(s.point, news),
    ensures
        left(continued(s, news).0.point) < left(s.point),
{
}

/// So many reports that all went well.
pub open spec fn fine(n: nat) -> Seq<News> {
    Seq::new(n, |i: int| News::Done)
}

/// One more report that all went well.
proof fn one_more_is_fine(args: ArgsView, interactive: bool, terminal: bool, n: nat)
    requires
        n > 0,
    ensures
        ran(args, interactive, terminal, fine(n)) == continued(
            ran(args, interactive, terminal, fine((n - 1) as nat)).0,
            News::Done,
        ),
{
    assert(fine(n).drop_last() =~= fine((n - 1) as nat));
}

/// A run from the command line on which all goes well takes the inventory, with unclaimed target
/// directories just where those are asked for; lists where that is asked for or nothing is to be
/// removed; and, where something is to be removed, makes a plan, describes it unless quiet is kept,
/// and carries it out, all with the options as given. Then it ends.
pub proof fn command_line_runs_in_order(args: ArgsView, terminal: bool)
    ensures
        ({
            let removes = args.worktrees.len() > 0 || args.stale || args.orphans;
            let lists = args.list || !removes;
            let from: nat = if lists {
                2
            } else {
                1
            };
            let past: nat = if args.quiet {
                from + 1
            } else {
                from + 2
            };
            let at = |n: nat| ran(args, false, terminal, fine(n)).1;
            &&& at(0) == Order::Inventory(args.orphans)
            &&& lists ==> at(1) == Order::List(args.quiet)
            &&& !removes ==> at(2) == Order::Finish
            &&& removes ==> at(from) == Order::Plan(args)
            &&& removes && !args.quiet ==> at(from + 1) == Order::Describe
            &&& removes ==> at(past) == Order::Execute(args)
            &&& removes ==> at(past + 1) == Order::Finish
        }),
{
    assert(fine(0) =~= Seq::<News>::empty());
    one_more_is_fine(args, false, terminal, 1);
    one_more_is_fine(args, false, terminal, 2);
    one_more_is_fine(args, false, terminal, 3);
    one_more_is_fine(args, false, terminal, 4);
    one_more_is_fine(args, false, terminal, 5);
}

/// A run without arguments takes the inventory and then, at a terminal, lets the user choose, with
/// consent given and all else as it was; without one it fails and says what to do.
pub proof fn bare_call_lets_the_user_choose(args: ArgsView, terminal: bool)
    ensures
        ran(args, true, terminal, fine(0)).1 == Order::Inventory(args.orphans),
        terminal ==> ran(args, true, terminal, fine(1)).1 == Order::Choose(
            ArgsView { yes: true, ..args },
        ),
        !terminal ==> ran(args, true, terminal, fine(1)).1 == Order::Fail(
            "interactive mode requires a terminal; use --list for text output"@,
        ),
        terminal ==> continued(ran(args, true, terminal, fine(1)).0, News::Chosen(None)).1
            == Order::Finish,
{
    assert(fine(0) =~= Seq::<News>::empty());
    one_more_is_fine(args, true, terminal, 1);
}

} // verus!
