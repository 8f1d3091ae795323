//! Keeping a number of game instances alive.
//!
//! The supervisor holds no handle of a process. It counts the processes
//! that carry the game's name, launches what is missing, and is told of
//! each thing that was done for it: it answers every event with the next
//! action.

use vstd::prelude::*;

verus! {

/// Seconds that a started game is given before the next one is started.
pub const SETTLE_SECONDS: u64 = 6;

/// Seconds between two counts of the live instances.
pub const POLL_SECONDS: u64 = 5;

/// Name of the game's process.
pub const GAME_PROCESS: &'static str = "hl.exe";

/// Where the supervisor stands.
#[derive(Clone, Copy, Debug, PartialEq, Eq)]
pub enum Phase {
    /// The instances that run before the first launch are being counted.
    Measuring,
    /// Launch `number` of `batch` is being made; `again` tells a batch that
    /// makes up for lost instances from the first one.
    Launching { number: usize, batch: usize, again: bool },
    /// Launch `number` of `batch` was made, and the game is coming up.
    Settling { number: usize, batch: usize, again: bool },
    /// The live instances are being counted.
    Polling,
    /// Nothing is done until the next count.
    Resting,
    /// The supervision has ended.
    Finished,
}

/// What the supervisor is told.
#[derive(Clone, Copy, Debug, PartialEq, Eq)]
pub enum Event {
    /// So many processes carry the game's name.
    Counted(usize),
    /// A launch was tried; `true` if the process was started.
    Launched(bool),
    /// The time asked for has passed.
    Slept,
}

/// What the supervisor asks for.
#[derive(Clone, Copy, Debug, PartialEq, Eq)]
pub enum Action {
    /// Count the processes that carry the game's name.
    Count,
    /// Start one instance: number `number` of `batch`.
    Launch { number: usize, batch: usize },
    /// Let so many seconds pass.
    Sleep { seconds: u64 },
    /// Nothing more.
    Stop,
}

/// The supervision of `target` instances.
#[derive(Clone, Copy, Debug, PartialEq, Eq)]
pub struct Supervisor {
    /// How many instances are to be started, and kept alive.
    pub target: usize,
    /// Whether lost instances are made up for.
    pub keep_alive: bool,
    /// How many processes carried the game's name before the first launch.
    pub baseline: usize,
    pub phase: Phase,
}

/// How many instances are missing when `actual` processes are alive of the
/// `baseline + target` that are expected.
pub open spec fn deficit(baseline: int, target: int, actual: int) -> int {
    if actual < baseline + target {
        baseline + target - actual
    } else {
        0
    }
}

/// The phase that follows a finished batch.
pub open spec fn after_batch(keep_alive: bool, again: bool) -> Phase {
    if again {
        Phase::Resting
    } else if keep_alive {
        Phase::Polling
    } else {
        Phase::Finished
    }
}

/// The phase that starts a batch of `batch` launches.
pub open spec fn begin_batch(batch: usize, keep_alive: bool, again: bool) -> Phase {
    if batch > 0 {
        Phase::Launching { number: 1, batch, again }
    } else {
        after_batch(keep_alive, again)
    }
}

/// The action that a phase waits to have done.
pub open spec fn awaited(phase: Phase) -> Action {
    match phase {
        Phase::Measuring => Action::Count,
        Phase::Launching { number, batch, again } => Action::Launch { number, batch },
        Phase::Settling { number, batch, again } => Action::Sleep { seconds: SETTLE_SECONDS },
        Phase::Polling => Action::Count,
        Phase::Resting => Action::Sleep { seconds: POLL_SECONDS },
        Phase::Finished => Action::Stop,
    }
}

impl Supervisor {
    /// Whether the supervisor's numbers fit together: the launch in progress
    /// is one of its batch, and the expected number of instances can be
    /// counted.
    pub open spec fn wf(&self) -> bool {
        &&& !(self.phase is Measuring) ==> self.baseline + self.target <= usize::MAX
        &&& match self.phase {
            Phase::Launching { number, batch, again } => 1 <= number <= batch,
            Phase::Settling { number, batch, again } => 1 <= number <= batch,
            _ => true,
        }
    }

    /// Whether the event can be taken in: the first count, together with
    /// the target, must not pass what can be counted.
    pub open spec fn admits(&self, event: Event) -> bool {
        self.phase is Measuring && event is Counted ==> event->Counted_0 + self.target
            <= usize::MAX
    }

    /// The supervisor after an event. An event that the phase does not wait
    /// for changes nothing.
    pub open spec fn after(&self, event: Event) -> Supervisor {
        match (self.phase, event) {
            (Phase::Measuring, Event::Counted(count)) => Supervisor {
                baseline: count,
                phase: begin_batch(self.target, self.keep_alive, false),
                ..*self
            },
            (Phase::Launching { number, batch, again }, Event::Launched(_)) => Supervisor {
                phase: Phase::Settling { number, batch, again },
                ..*self
            },
            (Phase::Settling { number, batch, again }, Event::Slept) => Supervisor {
                phase: if number < batch {
                    Phase::Launching { number: (number + 1) as usize, batch, again }
                } else {
                    after_batch(self.keep_alive, again)
                },
                ..*self
            },
            (Phase::Polling, Event::Counted(count)) => Supervisor {
                phase: begin_batch(
                    deficit(self.baseline as int, self.target as int, count as int) as usize,
                    self.keep_alive,
                    true,
                ),
                ..*self
            },
            (Phase::Resting, Event::Slept) => Supervisor { phase: Phase::Polling, ..*self },
            _ => *self,
        }
    }

    /// Begins the supervision of `target` instances. The first thing asked
    /// for is the count of the instances that run already.
    pub fn start(target: usize, keep_alive: bool) -> (begun: (Supervisor, Action))
        ensures
            begun.0 == (Supervisor { target, keep_alive, baseline: 0, phase: Phase::Measuring }),
            begun.1 == Action::Count,
            begun.0.wf(),
    {
        (Supervisor { target, keep_alive, baseline: 0, phase: Phase::Measuring }, Action::Count)
    }

    /// The action that the supervisor waits to have done.
    pub fn pending(&self) -> (action: Action)
        ensures
            action == awaited(self.phase),
    {
        match self.phase {
            Phase::Measuring => Action::Count,
            Phase::Launching { number, batch, again } => Action::Launch { number, batch },
            Phase::Settling { number, batch, again } => Action::Sleep { seconds: SETTLE_SECONDS },
            Phase::Polling => Action::Count,
            Phase::Resting => Action::Sleep { seconds: POLL_SECONDS },
            Phase::Finished => Action::Stop,
        }
    }

    /// Takes in an event and says what is to be done next.
    ///
    /// The first count is kept as the baseline, and `target` launches
    /// follow, each with a pause behind it, whether it succeeded or not.
    /// Then the supervision ends, or, with `keep_alive`, the instances are
    /// counted: where fewer are alive than the baseline and the target
    /// together, exactly as many launches follow as are missing, and after
    /// a rest the count is taken again.
    pub fn step(self, event: Event) -> (next: (Supervisor, Action))
        requires
            self.wf(),
            self.admits(event),
        ensures
            next.0 == self.after(event),
            next.1 == awaited(self.after(event).phase),
            next.0.wf(),
    {
        let phase = match (self.phase, event) {
            (Phase::Measuring, Event::Counted(count)) => {
                let begun = Supervisor { baseline: count, ..self };
                return begun.batch(self.target, false);
            },
            (Phase::Launching { number, batch, again }, Event::Launched(_)) => Phase::Settling {
                number,
                batch,
                again,
            },
            (Phase::Settling { number, batch, again }, Event::Slept) => {
                if number < batch {
                    Phase::Launching { number: number + 1, batch, again }
                } else {
                    return self.batch(0, again);
                }
            },
            (Phase::Polling, Event::Counted(count)) => {
                let expected = self.baseline + self.target;
                let missing = if count < expected {
                    expected - count
                } else {
                    0
                };
                return self.batch(missing, true);
            },
            (Phase::Resting, Event::Slept) => Phase::Polling,
            _ => self.phase,
        };
        let next = Supervisor { phase, ..self };
        (next, next.pending())
    }

    fn batch(self, batch: usize, again: bool) -> (next: (Supervisor, Action))
        requires
            self.baseline + self.target <= usize::MAX,
        ensures
            next.0 == (Supervisor { phase: begin_batch(batch, self.keep_alive, again), ..self }),
            next.1 == awaited(next.0.phase),
            next.0.wf(),
    {
        let phase = if batch > 0 {
            Phase::Launching { number: 1, batch, again }
        } else if again {
            Phase::Resting
        } else if self.keep_alive {
            Phase::Polling
        } else {
            Phase::Finished
        };
        let next = Supervisor { phase, ..self };
        (next, next.pending())
    }
}

/// The supervisor after a run of events, and the actions it asked for on
/// the way, one for each event.
pub open spec fn run(from: Supervisor, events: Seq<Event>) -> (Supervisor, Seq<Action>)
    decreases events.len(),
{
    if events.len() == 0 {
        (from, seq![])
    } else {
        let (mid, actions) = run(from, events.drop_last());
        let next = mid.after(events.last());
        (next, actions.push(awaited(next.phase)))
    }
}

/// How many launches are among the actions.
pub open spec fn launches(actions: Seq<Action>) -> nat
    decreases actions.len(),
{
    if actions.len() == 0 {
        0
    } else {
        launches(actions.drop_last()) + if actions.last() is Launch {
            1nat
        } else {
            0nat
        }
    }
}

/// The events of a batch of launches with the given outcomes: each launch
/// is reported, then the pause behind it.
pub open spec fn batch_events(outcomes: Seq<bool>) -> Seq<Event>
    decreases outcomes.len(),
{
    if outcomes.len() == 0 {
        seq![]
    } else {
        batch_events(outcomes.drop_last()) + seq![Event::Launched(outcomes.last()), Event::Slept]
    }
}

proof fn lemma_run_two(from: Supervisor, events: Seq<Event>, first: Event, second: Event)
    ensures
        run(from, events + seq![first, second]) == ({
            let (mid, actions) = run(from, events);
            let one = mid.after(first);
            let two = one.after(second);
            (two, actions.push(awaited(one.phase)).push(awaited(two.phase)))
        }),
{
    let all = events + seq![first, second];
    let most = events.push(first);
    assert(all.drop_last() =~= most);
    assert(most.drop_last() =~= events);
    let (mid, actions) = run(from, events);
    let one = mid.after(first);
    assert(run(from, most) == (one, actions.push(awaited(one.phase))));
}

proof fn lemma_launches_push(actions: Seq<Action>, action: Action)
    ensures
        launches(actions.push(action)) == launches(actions) + if action is Launch {
            1nat
        } else {
            0nat
        },
{
    assert(actions.push(action).drop_last() =~= actions);
}

/// In the middle of a batch: after `done` launches have been reported and
/// paused for, the next launch of the batch is in progress, and `done`
/// more launches have been asked for.
proof fn lemma_batch_progress(from: Supervisor, outcomes: Seq<bool>, done: int)
    requires
        from.phase is Launching,
        from.phase->Launching_number == 1,
        0 <= done < from.phase->Launching_batch,
        done <= outcomes.len(),
    ensures
        run(from, batch_events(outcomes.take(done))).0 == (Supervisor {
            phase: Phase::Launching {
                number: (1 + done) as usize,
                batch: from.phase->Launching_batch,
                again: from.phase->Launching_again,
            },
            ..from
        }),
        launches(run(from, batch_events(outcomes.take(done))).1) == done,
    decreases done,
{
    if done == 0 {
        assert(outcomes.take(0) =~= Seq::<bool>::empty());
    } else {
        lemma_batch_progress(from, outcomes, done - 1);
        let taken = outcomes.take(done);
        assert(taken.drop_last() =~= outcomes.take(done - 1));
        let before = batch_events(outcomes.take(done - 1));
        lemma_run_two(from, before, Event::Launched(taken.last()), Event::Slept);
        let (mid, actions) = run(from, before);
        let one = mid.after(Event::Launched(taken.last()));
        let two = one.after(Event::Slept);
        lemma_launches_push(actions, awaited(one.phase));
        lemma_launches_push(actions.push(awaited(one.phase)), awaited(two.phase));
    }
}

/// A batch is launched in full: once all its launches have been reported
/// and paused for, whatever their outcomes, one launch fewer than the batch
/// holds has been asked for on the way (the first was asked for by what
/// began the batch), and the batch is over.
pub proof fn lemma_batch_complete(from: Supervisor, outcomes: Seq<bool>)
    requires
        from.phase is Launching,
        from.phase->Launching_number == 1,
        from.phase->Launching_batch >= 1,
        outcomes.len() == from.phase->Launching_batch,
    ensures
        run(from, batch_events(outcomes)).0 == (Supervisor {
            phase: after_batch(from.keep_alive, from.phase->Launching_again),
            ..from
        }),
        launches(run(from, batch_events(outcomes)).1) == from.phase->Launching_batch - 1,
{
    let done = outcomes.len() - 1;
    lemma_batch_progress(from, outcomes, done);
    assert(outcomes.drop_last() =~= outcomes.take(done));
    let before = batch_events(outcomes.take(done));
    lemma_run_two(from, before, Event::Launched(outcomes.last()), Event::Slept);
    let (mid, actions) = run(from, before);
    let one = mid.after(Event::Launched(outcomes.last()));
    let two = one.after(Event::Slept);
    lemma_launches_push(actions, awaited(one.phase));
    lemma_launches_push(actions.push(awaited(one.phase)), awaited(two.phase));
}

proof fn lemma_run_front(from: Supervisor, first: Event, events: Seq<Event>)
    ensures
        run(from, seq![first] + events) == ({
            let begun = from.after(first);
            let (end, actions) = run(begun, events);
            (end, seq![awaited(begun.phase)] + actions)
        }),
    decreases events.len(),
{
    let all = seq![first] + events;
    if events.len() == 0 {
        let none = Seq::<Event>::empty();
        assert(all.drop_last() =~= none);
        assert(run(from, none) == (from, Seq::<Action>::empty()));
        assert(run(from, all).1 =~= seq![awaited(from.after(first).phase)] + Seq::<
            Action,
        >::empty());
    } else {
        lemma_run_front(from, first, events.drop_last());
        assert(all.drop_last() =~= seq![first] + events.drop_last());
        let begun = from.after(first);
        let (mid, actions) = run(begun, events.drop_last());
        let next = mid.after(events.last());
        assert((seq![awaited(begun.phase)] + actions).push(awaited(next.phase)) =~= seq![
            awaited(begun.phase),
        ] + actions.push(awaited(next.phase)));
    }
}

proof fn lemma_launches_front(action: Action, actions: Seq<Action>)
    ensures
        launches(seq![action] + actions) == launches(actions) + if action is Launch {
            1nat
        } else {
            0nat
        },
    decreases actions.len(),
{
    let all = seq![action] + actions;
    if actions.len() == 0 {
        let none = Seq::<Action>::empty();
        assert(all.drop_last() =~= none);
        assert(launches(none) == 0);
    } else {
        lemma_launches_front(action, actions.drop_last());
        assert(all.drop_last() =~= seq![action] + actions.drop_last());
    }
}

/// When a count finds fewer instances alive than are expected, exactly the
/// missing number of launches is asked for before the supervisor rests,
/// whether the launches succeed or not; when none is missing, none is
/// asked for.
pub proof fn lemma_relaunch_exact(watching: Supervisor, actual: usize, outcomes: Seq<bool>)
    requires
        watching.wf(),
        watching.phase is Polling,
        outcomes.len() == deficit(watching.baseline as int, watching.target as int, actual as int),
    ensures
        launches(run(watching, seq![Event::Counted(actual)] + batch_events(outcomes)).1)
            == deficit(watching.baseline as int, watching.target as int, actual as int),
        run(watching, seq![Event::Counted(actual)] + batch_events(outcomes)).0 == (Supervisor {
            phase: Phase::Resting,
            ..watching
        }),
{
    let first = Event::Counted(actual);
    let begun = watching.after(first);
    lemma_run_front(watching, first, batch_events(outcomes));
    lemma_launches_front(awaited(begun.phase), run(begun, batch_events(outcomes)).1);
    if outcomes.len() > 0 {
        lemma_batch_complete(begun, outcomes);
    }
}

/// The first batch holds exactly `target` launches, whether they succeed
/// or not. After it the supervision ends, or, with `keep_alive`, the
/// instances are counted.
pub proof fn lemma_first_batch_exact(
    target: usize,
    keep_alive: bool,
    baseline: usize,
    outcomes: Seq<bool>,
)
    requires
        baseline + target <= usize::MAX,
        outcomes.len() == target,
    ensures
        ({
            let from = Supervisor { target, keep_alive, baseline: 0, phase: Phase::Measuring };
            let (end, actions) = run(from, seq![Event::Counted(baseline)] + batch_events(outcomes));
            &&& launches(actions) == target
            &&& end == Supervisor {
                target,
                keep_alive,
                baseline,
                phase: if keep_alive {
                    Phase::Polling
                } else {
                    Phase::Finished
                },
            }
        }),
{
    let from = Supervisor { target, keep_alive, baseline: 0, phase: Phase::Measuring };
    let first = Event::Counted(baseline);
    let begun = from.after(first);
    lemma_run_front(from, first, batch_events(outcomes));
    lemma_launches_front(awaited(begun.phase), run(begun, batch_events(outcomes)).1);
    if outcomes.len() > 0 {
        lemma_batch_complete(begun, outcomes);
    }
}

/// A supervisor that keeps its instances alive never ends of itself: no
/// event takes it to the end.
pub proof fn lemma_keep_alive_never_finishes(supervisor: Supervisor, event: Event)
    requires
        supervisor.keep_alive,
        !(supervisor.phase is Finished),
    ensures
        !(supervisor.after(event).phase is Finished),
        supervisor.after(event).keep_alive,
{
}

/// The process table of `sysinfo`, which Verus does not look into.
#[verifier::external_type_specification]
#[verifier::external_body]
pub struct ExSystem(sysinfo::System);

/// The names of the processes that a process table holds, one for each
/// process: the name as text, or `None` for a name that is no Unicode.
pub uninterp spec fn process_names(system: sysinfo::System) -> vstd::multiset::Multiset<
    Option<Seq<char>>,
>;

/// `sysinfo::System::new`: a process table with nothing loaded. It holds no
/// process until it is refreshed.
#[verifier::external_body]
fn system_new() -> (system: sysinfo::System)
    ensures
        process_names(system) == vstd::multiset::Multiset::<Option<Seq<char>>>::empty(),
{
    sysinfo::System::new()
}

/// `sysinfo::System::refresh_processes_specifics`, for all processes, with
/// the dead ones taken out: reads the system's processes into the table and
/// returns how many it read. Nothing is claimed of the number, nor of what
/// the table then holds: that is what runs on the machine.
#[verifier::external_body]
fn refresh_processes(system: &mut sysinfo::System) -> usize {
    system.refresh_processes_specifics(
        sysinfo::ProcessesToUpdate::All,
        true,
        sysinfo::ProcessRefreshKind::new().with_cpu(),
    )
}

/// `sysinfo::System::processes_by_exact_name`, counted: the number of
/// processes in the table whose name is `name`. The table is only read.
#[verifier::external_body]
fn processes_named(system: &sysinfo::System, name: &str) -> (count: usize)
    ensures
        count == process_names(*system).count(Some(name@)),
{
    system.processes_by_exact_name(name.as_ref()).count()
}

/// The system's processes, as far as the supervisor looks at them.
pub struct ProcessTable {
    system: sysinfo::System,
}

impl ProcessTable {
    /// The names of the processes that the table holds, one for each
    /// process, as the table was last read.
    pub closed spec fn names(&self) -> vstd::multiset::Multiset<Option<Seq<char>>> {
        process_names(self.system)
    }

    /// How many processes of the table carry the game's name.
    pub open spec fn live(&self) -> nat {
        self.names().count(Some(GAME_PROCESS@))
    }

    /// A table that has not been read yet: it holds no process.
    pub fn new() -> (table: ProcessTable)
        ensures
            table.names() == vstd::multiset::Multiset::<Option<Seq<char>>>::empty(),
    {
        ProcessTable { system: system_new() }
    }

    /// Reads the system's processes anew and counts those that carry the
    /// game's name: the count is that of the table as it was just read,
    /// never one kept from before.
    fn live_instances(&mut self) -> (count: usize)
        ensures
            count == final(self).live(),
    {
        let _ = refresh_processes(&mut self.system);
        processes_named(&self.system, GAME_PROCESS)
    }
}

impl Supervisor {
    /// Reads the process table anew, where the supervisor waits for a
    /// count, and takes in the number of processes that carry the game's
    /// name, as `step` does; in any other phase the table is left alone and
    /// nothing changes. The result is `None` where the first count and the
    /// target together pass what can be counted.
    pub fn observe(self, table: &mut ProcessTable) -> (next: Option<(Supervisor, Action)>)
        requires
            self.wf(),
        ensures
            match next {
                Some((supervisor, action)) => {
                    &&& supervisor.wf()
                    &&& action == awaited(supervisor.phase)
                    &&& if self.phase is Measuring || self.phase is Polling {
                        &&& final(table).live() <= usize::MAX
                        &&& self.admits(Event::Counted(final(table).live() as usize))
                        &&& supervisor == self.after(
                            Event::Counted(final(table).live() as usize),
                        )
                    } else {
                        &&& supervisor == self
                        &&& final(table).names() == old(table).names()
                    }
                },
                None => self.phase is Measuring && final(table).live() + self.target
                    > usize::MAX,
            },
    {
        match self.phase {
            Phase::Measuring => {
                let count = table.live_instances();
                if count > usize::MAX - self.target {
                    None
                } else {
                    Some(self.step(Event::Counted(count)))
                }
            },
            Phase::Polling => {
                let count = table.live_instances();
                Some(self.step(Event::Counted(count)))
            },
            _ => Some((self, self.pending())),
        }
    }
}

} // verus!
