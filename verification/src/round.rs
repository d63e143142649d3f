use vstd::prelude::*;
use crate::text::{decimal, lemma_decimal_injective, push_decimal};

verus! {

/// Where the orchestrator stands in the life of a run.
#[derive(Debug, Clone, Copy, PartialEq, Eq, Structural)]
pub enum Phase {
    /// Between rounds; nothing is running.
    Idle,
    /// The queue, the workers and the collector of a round are being set up.
    Dispatching,
    /// The collector gathers the results of the round.
    Collecting,
    /// The result file and the summary of the round are being written.
    Reporting,
    /// The pause before the next round.
    Sleeping,
    /// The run is over.
    Done,
}

/// What happened since the last command.
#[derive(Debug, Clone, Copy, PartialEq, Eq, Structural)]
pub enum Event {
    /// The run begins.
    Start,
    /// Queue, workers and collector stand.
    Dispatched,
    /// The collector has ended; it holds `received` results.
    Collected { received: usize },
    /// File and summary are written.
    Reported,
    /// The pause is over.
    Woke,
}

/// What the caller is to do next.
#[derive(Debug, Clone, Copy, PartialEq, Eq, Structural)]
pub enum Command {
    /// Set up round `round` with `jobs` jobs. `announce` says whether the
    /// round is announced by its number.
    Dispatch { round: u64, jobs: usize, announce: bool },
    /// Gather up to `expected` results. `heading` says whether the table gets
    /// its heading first.
    Collect { expected: usize, heading: bool },
    /// Write the result file of round `round`, if `write_file` says so, then
    /// the summary. `nothing_received` says that jobs were dispatched and no
    /// result came back.
    Report { round: u64, write_file: bool, nothing_received: bool },
    /// Pause for `seconds` seconds. `skipped` says that the round was skipped
    /// because there is nothing to check.
    Sleep { seconds: u64, skipped: bool },
    /// End the run.
    Exit,
    /// The event does not belong to the phase: nothing changes.
    Stay,
}

/// The state of a run as mathematical values.
pub struct RunState {
    /// The pause between rounds in seconds; `None` for a single round.
    pub period_seconds: Option<u64>,
    /// How many URLs each round checks.
    pub targets: usize,
    /// The number of the round that was begun last; 0 before the first.
    pub round: u64,
    pub phase: Phase,
}

/// The state in which a round begins, and the command that goes with it.
/// With nothing to check the round is skipped: a periodic run sleeps, a
/// single run ends.
pub open spec fn begin_round(state: RunState) -> (RunState, Command) {
    let round = (state.round + 1) as u64;
    if state.targets == 0 {
        match state.period_seconds {
            Some(seconds) => (
                RunState { round, phase: Phase::Sleeping, ..state },
                Command::Sleep { seconds, skipped: true },
            ),
            None => (RunState { round, phase: Phase::Done, ..state }, Command::Exit),
        }
    } else {
        (
            RunState { round, phase: Phase::Dispatching, ..state },
            Command::Dispatch {
                round,
                jobs: state.targets,
                announce: state.period_seconds is Some,
            },
        )
    }
}

/// True when `event` begins a round in `phase`: the start of the run, and the
/// end of a pause.
pub open spec fn begins_round(phase: Phase, event: Event) -> bool {
    (phase == Phase::Idle && event == Event::Start) || (phase == Phase::Sleeping && event
        == Event::Woke)
}

/// The state after `event`, and the command that goes with it. An event that
/// does not belong to the phase changes nothing.
pub open spec fn advance(state: RunState, event: Event) -> (RunState, Command) {
    match (state.phase, event) {
        (Phase::Idle, Event::Start) => begin_round(state),
        (Phase::Sleeping, Event::Woke) => begin_round(state),
        (Phase::Dispatching, Event::Dispatched) => (
            RunState { phase: Phase::Collecting, ..state },
            Command::Collect {
                expected: state.targets,
                heading: state.round == 1 || state.period_seconds is Some,
            },
        ),
        (Phase::Collecting, Event::Collected { received }) => (
            RunState { phase: Phase::Reporting, ..state },
            Command::Report {
                round: state.round,
                write_file: received > 0,
                nothing_received: received == 0 && state.targets > 0,
            },
        ),
        (Phase::Reporting, Event::Reported) => match state.period_seconds {
            Some(seconds) if seconds > 0 => (
                RunState { phase: Phase::Sleeping, ..state },
                Command::Sleep { seconds, skipped: false },
            ),
            _ => (RunState { phase: Phase::Done, ..state }, Command::Exit),
        },
        _ => (state, Command::Stay),
    }
}

/// A run that is over stays over: no event leads out of `Done`.
pub proof fn lemma_done_is_final(state: RunState, event: Event)
    requires
        state.phase == Phase::Done,
    ensures
        advance(state, event) == (state, Command::Stay),
{
}

/// A periodic run with a pause of at least a second never ends by itself.
pub proof fn lemma_periodic_run_goes_on(state: RunState, event: Event)
    requires
        state.period_seconds is Some,
        state.period_seconds->0 > 0,
        state.phase != Phase::Done,
    ensures
        advance(state, event).0.phase != Phase::Done,
        advance(state, event).1 != Command::Exit,
        advance(state, event).0.period_seconds == state.period_seconds,
{
}

/// A single run ends after its first round: once the round is reported, or at
/// once where there is nothing to check.
pub proof fn lemma_single_run_ends(state: RunState)
    requires
        state.period_seconds is None,
    ensures
        state.phase == Phase::Reporting ==> advance(state, Event::Reported) == (
            RunState { phase: Phase::Done, ..state },
            Command::Exit,
        ),
        state.phase == Phase::Idle && state.targets == 0 ==> advance(state, Event::Start).1
            == Command::Exit,
{
}

/// Every round that begins has the number after that of the round before it.
pub proof fn lemma_rounds_are_numbered_in_turn(state: RunState, event: Event)
    requires
        state.round < u64::MAX,
    ensures
        begins_round(state.phase, event) ==> advance(state, event).0.round == state.round + 1,
        !begins_round(state.phase, event) ==> advance(state, event).0.round == state.round,
{
}

/// The name of the result file of round `round`: a fixed name for a single
/// round, a name that holds the round's number in a periodic run.
pub open spec fn file_name(period_seconds: Option<u64>, round: u64) -> Seq<char> {
    if period_seconds is Some {
        "status_round_"@ + decimal(round as nat) + ".json"@
    } else {
        "status.json"@
    }
}

/// In a periodic run two rounds never share a result file: different round
/// numbers give different names.
pub proof fn lemma_rounds_have_their_own_files(seconds: u64, first: u64, second: u64)
    requires
        first != second,
    ensures
        file_name(Some(seconds), first) != file_name(Some(seconds), second),
{
    let head = "status_round_"@;
    let tail = ".json"@;
    let a = decimal(first as nat);
    let b = decimal(second as nat);
    if head + a + tail == head + b + tail {
        assert((head + a + tail).len() == (head + b + tail).len());
        assert(a.len() == b.len());
        assert forall|i: int| 0 <= i < a.len() implies a[i] == b[i] by {
            assert((head + a + tail)[head.len() + i] == a[i]);
            assert((head + b + tail)[head.len() + i] == b[i]);
        }
        assert(a =~= b);
        lemma_decimal_injective(first as nat, second as nat);
    }
}

/// The name of the result file of round `round`.
pub fn result_file_name(period_seconds: Option<u64>, round: u64) -> (name: String)
    ensures
        name@ == file_name(period_seconds, round),
{
    match period_seconds {
        Some(_) => {
            let mut name = String::from_str("status_round_");
            push_decimal(&mut name, round as u128);
            name.append(".json");
            name
        },
        None => String::from_str("status.json"),
    }
}

/// The orchestrator of a run: it knows which round is on and in which phase,
/// and says what is to be done next.
#[derive(Debug)]
pub struct Orchestrator {
    period_seconds: Option<u64>,
    targets: usize,
    round: u64,
    phase: Phase,
}

impl View for Orchestrator {
    type V = RunState;

    closed spec fn view(&self) -> RunState {
        RunState {
            period_seconds: self.period_seconds,
            targets: self.targets,
            round: self.round,
            phase: self.phase,
        }
    }
}

impl Orchestrator {
    /// The orchestrator of a run over `targets` URLs that has not begun.
    pub fn new(period_seconds: Option<u64>, targets: usize) -> (orchestrator: Orchestrator)
        ensures
            orchestrator@ == (RunState { period_seconds, targets, round: 0, phase: Phase::Idle }),
    {
        Orchestrator { period_seconds, targets, round: 0, phase: Phase::Idle }
    }

    /// The phase the run is in.
    pub fn phase(&self) -> (phase: Phase)
        ensures
            phase == self@.phase,
    {
        self.phase
    }

    /// The number of the round that was begun last; 0 before the first.
    pub fn round(&self) -> (round: u64)
        ensures
            round == self@.round,
    {
        self.round
    }

    /// Tells whether `step` can take `event`: where the event begins a round,
    /// the round counter must have room for it.
    pub fn can_step(&self, event: Event) -> (ok: bool)
        ensures
            ok == (begins_round(self@.phase, event) ==> self@.round < u64::MAX),
    {
        match (self.phase, event) {
            (Phase::Idle, Event::Start) | (Phase::Sleeping, Event::Woke) => self.round < u64::MAX,
            _ => true,
        }
    }

    /// Takes in an event and says what is to be done next. Where the event
    /// begins a round, the round counter must have room for it.
    pub fn step(&mut self, event: Event) -> (command: Command)
        requires
            begins_round(old(self)@.phase, event) ==> old(self)@.round < u64::MAX,
        ensures
            (final(self)@, command) == advance(old(self)@, event),
    {
        match (self.phase, event) {
            (Phase::Idle, Event::Start) | (Phase::Sleeping, Event::Woke) => {
                self.round = self.round + 1;
                if self.targets == 0 {
                    match self.period_seconds {
                        Some(seconds) => {
                            self.phase = Phase::Sleeping;
                            Command::Sleep { seconds, skipped: true }
                        },
                        None => {
                            self.phase = Phase::Done;
                            Command::Exit
                        },
                    }
                } else {
                    self.phase = Phase::Dispatching;
                    Command::Dispatch {
                        round: self.round,
                        jobs: self.targets,
                        announce: self.period_seconds.is_some(),
                    }
                }
            },
            (Phase::Dispatching, Event::Dispatched) => {
                self.phase = Phase::Collecting;
                Command::Collect {
                    expected: self.targets,
                    heading: self.round == 1 || self.period_seconds.is_some(),
                }
            },
            (Phase::Collecting, Event::Collected { received }) => {
                self.phase = Phase::Reporting;
                Command::Report {
                    round: self.round,
                    write_file: received > 0,
                    nothing_received: received == 0 && self.targets > 0,
                }
            },
            (Phase::Reporting, Event::Reported) => match self.period_seconds {
                Some(seconds) if seconds > 0 => {
                    self.phase = Phase::Sleeping;
                    Command::Sleep { seconds, skipped: false }
                },
                _ => {
                    self.phase = Phase::Done;
                    Command::Exit
                },
            },
            _ => Command::Stay,
        }
    }
}

} // verus!
