//! The runs of strategies that were decided upon: which one may start, and what
//! cancelling one takes.
//!
//! Actions are performed behind the decisions, and those of several packets side
//! by side. So a run can be cancelled before it starts, and one can be due while
//! another has not ended yet.
use std::collections::HashSet;

use vstd::prelude::*;

use crate::command_router::router::RouterAction;

verus! {

broadcast use vstd::std_specs::hash::group_hash_axioms;

/// What is to be done about a run that is due.
#[derive(Clone, Copy, Debug, PartialEq, Eq, Structural)]
pub enum Starting {
    /// Start it now.
    Go,
    /// Ask again once this run has ended.
    WaitFor(u64),
    /// Do not start it: it was cancelled.
    Never,
}

/// What cancelling a run takes.
#[derive(Clone, Copy, Debug, PartialEq, Eq, Structural)]
pub enum Cancelling {
    /// The run is under way: interrupt it, and wait until it has ended.
    Interrupt,
    /// The run is not started and will not be. Where another one has not ended
    /// yet, wait until it has.
    NeverStarts(Option<u64>),
    /// There is no such run any more.
    Ended,
}

/// The runs that wait for their start, and the one that is under way.
pub struct RunTable {
    waiting: HashSet<u64>,
    running: Option<u64>,
}

/// The mathematical content of a [`RunTable`].
pub struct RunsView {
    pub waiting: Set<u64>,
    pub running: Option<u64>,
}

impl View for RunTable {
    type V = RunsView;

    closed spec fn view(&self) -> RunsView {
        RunsView { waiting: self.waiting@, running: self.running }
    }
}

/// The run that an action starts.
pub open spec fn started_by(action: RouterAction) -> Option<u64> {
    match action {
        RouterAction::Start(_, run, _) => Some(run),
        _ => None,
    }
}

/// The runs that actions start.
pub open spec fn started_in(actions: Seq<RouterAction>) -> Set<u64>
    decreases actions.len(),
{
    if actions.len() == 0 {
        Set::empty()
    } else {
        match started_by(actions.last()) {
            Some(run) => started_in(actions.drop_last()).insert(run),
            None => started_in(actions.drop_last()),
        }
    }
}

impl RunsView {
    /// The table with runs more that wait.
    pub open spec fn entered(self, runs: Set<u64>) -> RunsView {
        RunsView { waiting: self.waiting.union(runs), ..self }
    }

    /// What is to be done about a run that is due, and the table behind it.
    pub open spec fn start(self, run: u64) -> (RunsView, Starting) {
        if !self.waiting.contains(run) {
            (self, Starting::Never)
        } else {
            match self.running {
                Some(other) => (self, Starting::WaitFor(other)),
                None => (
                    RunsView { waiting: self.waiting.remove(run), running: Some(run) },
                    Starting::Go,
                ),
            }
        }
    }

    /// What cancelling a run takes, and the table behind it.
    pub open spec fn cancel(self, run: u64) -> (RunsView, Cancelling) {
        if self.running == Some(run) {
            (self, Cancelling::Interrupt)
        } else if self.waiting.contains(run) {
            (
                RunsView { waiting: self.waiting.remove(run), ..self },
                Cancelling::NeverStarts(self.running),
            )
        } else {
            (self, Cancelling::Ended)
        }
    }

    /// The table once a run has ended.
    pub open spec fn ended(self, run: u64) -> RunsView {
        if self.running == Some(run) {
            RunsView { running: None, ..self }
        } else {
            self
        }
    }
}

impl RunTable {
    /// A table without runs.
    pub fn new() -> (r: RunTable)
        ensures
            r@ == (RunsView { waiting: Set::empty(), running: None }),
    {
        RunTable { waiting: HashSet::new(), running: None }
    }

    /// Takes in the runs that the actions of a decision start.
    pub fn enter(&mut self, actions: &Vec<RouterAction>)
        ensures
            final(self)@ == old(self)@.entered(started_in(actions@)),
    {
        let ghost before = self@;
        assert(before.waiting.union(started_in(actions@.take(0))) =~= before.waiting);
        for i in 0..actions.len()
            invariant
                before == old(self)@,
                self.running == before.running,
                self.waiting@ =~= before.waiting.union(started_in(actions@.take(i as int))),
        {
            assert(actions@.take(i + 1).drop_last() =~= actions@.take(i as int));
            match &actions[i] {
                RouterAction::Start(_, run, _) => {
                    self.waiting.insert(*run);
                },
                _ => {},
            }
        }
        assert(actions@.take(actions@.len() as int) =~= actions@);
    }

    /// Asks whether a run that is due may start. It is under way where it may.
    pub fn start(&mut self, run: u64) -> (r: Starting)
        ensures
            (final(self)@, r) == old(self)@.start(run),
    {
        if !self.waiting.contains(&run) {
            return Starting::Never;
        }
        match self.running {
            Some(other) => Starting::WaitFor(other),
            None => {
                self.waiting.remove(&run);
                self.running = Some(run);
                Starting::Go
            },
        }
    }

    /// Asks what cancelling a run takes. One that is not started will not be.
    pub fn cancel(&mut self, run: u64) -> (r: Cancelling)
        ensures
            (final(self)@, r) == old(self)@.cancel(run),
    {
        let is_running = match self.running {
            Some(other) => other == run,
            None => false,
        };
        if is_running {
            Cancelling::Interrupt
        } else if self.waiting.contains(&run) {
            self.waiting.remove(&run);
            Cancelling::NeverStarts(self.running)
        } else {
            Cancelling::Ended
        }
    }

    /// Notes that a run has ended.
    pub fn end(&mut self, run: u64)
        ensures
            final(self)@ == old(self)@.ended(run),
    {
        let is_running = match self.running {
            Some(other) => other == run,
            None => false,
        };
        if is_running {
            self.running = None;
        }
    }
}

/// What happens to a table.
pub enum RunEvent {
    /// These runs were decided upon.
    Enter(Set<u64>),
    /// A run is due.
    Start(u64),
    /// A run is cancelled.
    Cancel(u64),
    /// A run has ended.
    End(u64),
}

/// The table behind an event.
pub open spec fn run_event(t: RunsView, event: RunEvent) -> RunsView {
    match event {
        RunEvent::Enter(runs) => t.entered(runs),
        RunEvent::Start(run) => t.start(run).0,
        RunEvent::Cancel(run) => t.cancel(run).0,
        RunEvent::End(run) => t.ended(run),
    }
}

/// The table behind events.
pub open spec fn run_events(t: RunsView, events: Seq<RunEvent>) -> RunsView
    decreases events.len(),
{
    if events.len() == 0 {
        t
    } else {
        run_event(run_events(t, events.drop_last()), events.last())
    }
}

/// A run that was cancelled before it started never starts, whatever happens
/// afterwards, as long as its number is not given to another run.
pub proof fn cancelled_runs_never_start(t: RunsView, run: u64, events: Seq<RunEvent>)
    requires
        t.running != Some(run),
        forall|i: int|
            0 <= i < events.len() ==> (#[trigger] events[i] matches RunEvent::Enter(runs)
                ==> !runs.contains(run)),
    ensures
        run_events(t.cancel(run).0, events).start(run).1 == Starting::Never,
        run_events(t.cancel(run).0, events).running != Some(run),
    decreases events.len(),
{
    if events.len() > 0 {
        let rest = events.drop_last();
        assert forall|i: int| 0 <= i < rest.len() implies (
        #[trigger] rest[i] matches RunEvent::Enter(runs) ==> !runs.contains(run)) by {
            assert(rest[i] == events[i]);
        }
        cancelled_runs_never_start(t, run, rest);
        assert(events[events.len() - 1] == events.last());
    }
}

/// The runs that started and have not ended, after events that begin with an
/// empty table.
pub open spec fn under_way(events: Seq<RunEvent>) -> Set<u64>
    decreases events.len(),
{
    if events.len() == 0 {
        Set::empty()
    } else {
        let before = under_way(events.drop_last());
        let table = run_events(
            RunsView { waiting: Set::empty(), running: None },
            events.drop_last(),
        );
        match events.last() {
            RunEvent::Start(run) => if table.start(run).1 == Starting::Go {
                before.insert(run)
            } else {
                before
            },
            RunEvent::End(run) => before.remove(run),
            _ => before,
        }
    }
}

/// Two runs are never under way at the same time, whatever is decided, cancelled
/// and performed in whatever order.
pub proof fn two_runs_are_never_under_way(events: Seq<RunEvent>, a: u64, b: u64)
    requires
        under_way(events).contains(a),
        under_way(events).contains(b),
    ensures
        a == b,
{
    lemma_under_way(events);
}

proof fn lemma_under_way(events: Seq<RunEvent>)
    ensures
        under_way(events) == match run_events(
            RunsView { waiting: Set::empty(), running: None },
            events,
        ).running {
            Some(run) => set![run],
            None => Set::<u64>::empty(),
        },
    decreases events.len(),
{
    let empty = RunsView { waiting: Set::empty(), running: None };
    if events.len() > 0 {
        lemma_under_way(events.drop_last());
        assert(under_way(events) =~= match run_events(empty, events).running {
            Some(run) => set![run],
            None => Set::<u64>::empty(),
        });
    }
}

/// A run is waited for only while it is under way, and asking again once it has
/// ended starts the run that is due.
pub proof fn waiting_ends(t: RunsView, run: u64, other: u64)
    requires
        t.start(run).1 == Starting::WaitFor(other),
    ensures
        t.running == Some(other),
        t.start(run).0 == t,
        t.ended(other).start(run).1 == Starting::Go,
{
}

/// A run that waits starts as soon as it is due and nothing is under way, and is
/// then what is under way; while something is, it is told to wait for that, and goes
/// on waiting. One that does not wait does not start.
pub proof fn waiting_runs_start_when_nothing_is_under_way(t: RunsView, run: u64)
    ensures
        t.waiting.contains(run) && t.running is None ==> t.start(run) == (
            RunsView { waiting: t.waiting.remove(run), running: Some(run) },
            Starting::Go,
        ),
        t.waiting.contains(run) && t.running is Some ==> t.start(run) == (
            t,
            Starting::WaitFor(t.running->0),
        ),
        !t.waiting.contains(run) ==> t.start(run) == (t, Starting::Never),
{
}

/// Cancelling what is under way takes an interruption. Cancelling what waits takes
/// none, but makes it wait no longer. Any other run has ended.
pub proof fn cancelling_takes_what_the_run_needs(t: RunsView, run: u64)
    ensures
        t.running == Some(run) ==> t.cancel(run) == (t, Cancelling::Interrupt),
        t.running != Some(run) && t.waiting.contains(run) ==> t.cancel(run) == (
            RunsView { waiting: t.waiting.remove(run), running: t.running },
            Cancelling::NeverStarts(t.running),
        ),
        t.running != Some(run) && !t.waiting.contains(run) ==> t.cancel(run) == (
            t,
            Cancelling::Ended,
        ),
{
}

/// Only the end of the run that is under way makes room for another.
pub proof fn ends_make_room(t: RunsView, run: u64)
    ensures
        t.running == Some(run) ==> t.ended(run) == (RunsView {
            waiting: t.waiting,
            running: None,
        }),
        t.running != Some(run) ==> t.ended(run) == t,
{
}

/// The runs that wait behind a decision are those that waited before and those that it
/// starts, and no others. What is under way stays so.
pub proof fn decided_runs_wait(t: RunsView, actions: Seq<RouterAction>, run: u64)
    ensures
        t.entered(started_in(actions)).waiting.contains(run) <==> t.waiting.contains(run) || exists|
            k: int,
        |
            0 <= k < actions.len() && (#[trigger] actions[k] matches RouterAction::Start(_, r, _)
                && r == run),
        t.entered(started_in(actions)).running == t.running,
{
    lemma_started(actions, run);
}

proof fn lemma_started(actions: Seq<RouterAction>, run: u64)
    ensures
        started_in(actions).contains(run) <==> exists|k: int|
            0 <= k < actions.len() && (#[trigger] actions[k] matches RouterAction::Start(_, r, _)
                && r == run),
    decreases actions.len(),
{
    if actions.len() > 0 {
        let rest = actions.drop_last();
        let last = actions.len() - 1;
        lemma_started(rest, run);
        if started_in(rest).contains(run) {
            let k = choose|k: int|
                0 <= k < rest.len() && (#[trigger] rest[k] matches RouterAction::Start(_, r, _) && r
                    == run);
            assert(actions[k] == rest[k]);
        }
        if exists|k: int|
            0 <= k < actions.len() && (#[trigger] actions[k] matches RouterAction::Start(_, r, _)
                && r == run) {
            let k = choose|k: int|
                0 <= k < actions.len() && (
                #[trigger] actions[k] matches RouterAction::Start(_, r, _) && r == run);
            if k < last {
                assert(rest[k] == actions[k]);
            } else {
                assert(actions[k] == actions.last());
            }
        } else {
            assert(actions[last] == actions.last());
        }
    }
}

} // verus!
