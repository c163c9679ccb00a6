use crate::parser::parse_cachegrind_output;
use crate::parser::parse_spec;
use crate::parser::ParseError;
use crate::report::report;
use crate::report::report_spec;
use crate::report::Report;
use crate::stats::CachegrindStats;
use vstd::prelude::*;

verus! {

/// What is measured: the empty calibration body, or the benchmark at a
/// position of the registered list.
#[derive(Clone, Copy, Debug, PartialEq, Eq, Structural)]
pub enum Target {
    Calibration,
    User(usize),
}

/// Where a run of the harness stands.
#[derive(Clone, Copy, Debug, PartialEq, Eq, Structural)]
pub enum Phase {
    Idle,
    CheckingSimulator,
    Rotating(Target),
    Running(Target),
    ReadingCurrent(Target),
    ReadingPrevious(usize),
    Reporting(usize),
    Finished,
    Failed,
}

/// Why a run of the harness stopped early.
#[derive(Clone, Copy, Debug, PartialEq, Eq, Structural)]
pub enum Failure {
    /// The simulator is not installed or does not start.
    SimulatorUnavailable,
    /// The directory for the reports could not be made.
    DirectoryUnavailable(Target),
    /// The child process could not be started.
    SpawnFailed(Target),
    /// The child process ended with a status other than success.
    RunFailed(Target),
    /// The report of the run could not be read.
    ReportUnreadable(Target),
    /// The report of the run is no valid report.
    ReportInvalid(Target, ParseError),
    /// The counters left after calibration contradict each other, or
    /// their cycle estimate exceeds 64 bits.
    InconsistentCounters(Target),
    /// An event arrived that the state did not wait for.
    UnexpectedEvent,
}

/// How moving the last report aside went.
#[derive(Clone, Copy, Debug, PartialEq, Eq, Structural)]
pub enum Rotation {
    /// The last report now carries the suffix of an old one.
    Moved,
    /// There was no report to move.
    NothingToMove,
    /// The report could not be moved; the caller has warned about it.
    Failed,
    /// The directory for the reports could not be made.
    NoDirectory,
}

/// How the simulated child process ended.
#[derive(Clone, Copy, Debug, PartialEq, Eq, Structural)]
pub enum RunOutcome {
    Success,
    NonZeroExit,
    SpawnFailed,
}

/// What the outside world reports back to the coordinator.
#[derive(Clone, Debug)]
pub enum Event {
    Start,
    SimulatorChecked(bool),
    Rotated(Rotation),
    RunEnded(RunOutcome),
    /// The text of the report just written, if it could be read.
    CurrentRead(Option<String>),
    /// The text of the report moved aside, if there is one to read.
    PreviousRead(Option<String>),
    Reported,
}

/// What the coordinator asks the outside world to do next.
#[derive(Clone, Copy, Debug, PartialEq, Eq, Structural)]
pub enum Action {
    CheckSimulator,
    Rotate(Target),
    Run(Target),
    ReadCurrent(Target),
    ReadPrevious(usize),
    Report(usize, Report),
    Finish,
    Fail(Failure),
}

/// The decisions of one run of the harness: simulator check, calibration,
/// then every benchmark in the order of the list.
#[derive(Clone, Copy, Debug, PartialEq, Eq, Structural)]
pub struct Coordinator {
    pub phase: Phase,
    /// Length of the list of benchmarks.
    pub benchmarks: usize,
    /// Counters of the calibration run, once it is done.
    pub baseline: Option<CachegrindStats>,
    /// Counters of the benchmark's run while its earlier report is read.
    pub pending: Option<CachegrindStats>,
    pub failure: Option<Failure>,
}

/// The counters that a report moved aside gives; none where it is missing
/// or cannot be read as a report.
pub open spec fn previous_counters(text: Option<String>) -> Option<CachegrindStats> {
    match text {
        Some(text) => match parse_spec(text@) {
            Ok(stats) => Some(stats),
            Err(_) => None,
        },
        None => None,
    }
}

impl Coordinator {
    /// The state's parts fit together.
    pub open spec fn wf(self) -> bool {
        &&& (self.phase == Phase::Failed) == self.failure.is_some()
        &&& match self.phase {
            Phase::Idle | Phase::CheckingSimulator => self.baseline.is_none(),
            Phase::Rotating(target) | Phase::Running(target) | Phase::ReadingCurrent(
                target,
            ) => match target {
                Target::Calibration => self.baseline.is_none(),
                Target::User(index) => index < self.benchmarks && self.baseline.is_some(),
            },
            Phase::ReadingPrevious(index) => index < self.benchmarks && self.baseline.is_some()
                && self.pending.is_some(),
            Phase::Reporting(index) => index < self.benchmarks && self.baseline.is_some(),
            Phase::Finished => self.baseline.is_some(),
            Phase::Failed => true,
        }
    }

    /// The run has ended, well or badly.
    pub open spec fn terminal(self) -> bool {
        self.phase == Phase::Finished || self.phase == Phase::Failed
    }

    /// How many benchmarks have been reported, or are past reporting.
    pub open spec fn reported(self) -> int {
        match self.phase {
            Phase::Rotating(Target::User(index)) | Phase::Running(Target::User(index))
            | Phase::ReadingCurrent(Target::User(index)) => index as int,
            Phase::ReadingPrevious(index) => index as int,
            Phase::Reporting(index) => index + 1,
            Phase::Finished => self.benchmarks as int,
            _ => 0,
        }
    }

    /// Stops the run with `failure`.
    pub open spec fn failed(self, failure: Failure) -> (Coordinator, Action) {
        (Coordinator { phase: Phase::Failed, failure: Some(failure), ..self }, Action::Fail(failure))
    }

    /// Begins the measurement of `target` by moving its last report aside.
    pub open spec fn measure(self, target: Target) -> (Coordinator, Action) {
        (Coordinator { phase: Phase::Rotating(target), ..self }, Action::Rotate(target))
    }

    /// Goes on with the benchmark at `index`, or ends the run after the last.
    pub open spec fn proceed(self, index: int) -> (Coordinator, Action) {
        if index < self.benchmarks {
            self.measure(Target::User(index as usize))
        } else {
            (Coordinator { phase: Phase::Finished, ..self }, Action::Finish)
        }
    }

    /// The transition: the state after `event`, and what to do next.
    pub open spec fn next(self, event: Event) -> (Coordinator, Action) {
        match (self.phase, event) {
            (Phase::Finished, _) => (self, Action::Finish),
            (Phase::Failed, _) => (
                self,
                Action::Fail(
                    match self.failure {
                        Some(failure) => failure,
                        None => Failure::UnexpectedEvent,
                    },
                ),
            ),
            (Phase::Idle, Event::Start) => (
                Coordinator { phase: Phase::CheckingSimulator, ..self },
                Action::CheckSimulator,
            ),
            (Phase::CheckingSimulator, Event::SimulatorChecked(available)) => if available {
                self.measure(Target::Calibration)
            } else {
                self.failed(Failure::SimulatorUnavailable)
            },
            (Phase::Rotating(target), Event::Rotated(rotation)) => match rotation {
                Rotation::NoDirectory => self.failed(Failure::DirectoryUnavailable(target)),
                _ => (Coordinator { phase: Phase::Running(target), ..self }, Action::Run(target)),
            },
            (Phase::Running(target), Event::RunEnded(outcome)) => match outcome {
                RunOutcome::Success => (
                    Coordinator { phase: Phase::ReadingCurrent(target), ..self },
                    Action::ReadCurrent(target),
                ),
                RunOutcome::NonZeroExit => self.failed(Failure::RunFailed(target)),
                RunOutcome::SpawnFailed => self.failed(Failure::SpawnFailed(target)),
            },
            (Phase::ReadingCurrent(target), Event::CurrentRead(text)) => match text {
                None => self.failed(Failure::ReportUnreadable(target)),
                Some(text) => match parse_spec(text@) {
                    Err(error) => self.failed(Failure::ReportInvalid(target, error)),
                    Ok(stats) => match target {
                        Target::Calibration => (Coordinator {
                            baseline: Some(stats),
                            ..self
                        }).proceed(0),
                        Target::User(index) => (
                            Coordinator {
                                phase: Phase::ReadingPrevious(index),
                                pending: Some(stats),
                                ..self
                            },
                            Action::ReadPrevious(index),
                        ),
                    },
                },
            },
            (Phase::ReadingPrevious(index), Event::PreviousRead(text)) => match (
                self.pending,
                self.baseline,
            ) {
                (Some(new), Some(baseline)) => match report_spec(
                    new,
                    previous_counters(text),
                    baseline,
                ) {
                    Some(report) => (
                        Coordinator { phase: Phase::Reporting(index), pending: None, ..self },
                        Action::Report(index, report),
                    ),
                    None => self.failed(Failure::InconsistentCounters(Target::User(index))),
                },
                _ => self.failed(Failure::UnexpectedEvent),
            },
            (Phase::Reporting(index), Event::Reported) => self.proceed(index + 1),
            _ => self.failed(Failure::UnexpectedEvent),
        }
    }

    /// A coordinator that has not begun, for a list of `benchmarks` entries.
    pub fn new(benchmarks: usize) -> (coordinator: Coordinator)
        ensures
            coordinator == (Coordinator {
                phase: Phase::Idle,
                benchmarks,
                baseline: None,
                pending: None,
                failure: None,
            }),
            coordinator.wf(),
    {
        Coordinator { phase: Phase::Idle, benchmarks, baseline: None, pending: None, failure: None }
    }

    fn fail(&mut self, failure: Failure) -> (action: Action)
        ensures
            (*final(self), action) == old(self).failed(failure),
    {
        self.phase = Phase::Failed;
        self.failure = Some(failure);
        Action::Fail(failure)
    }

    fn go_on(&mut self, index: usize) -> (action: Action)
        ensures
            (*final(self), action) == old(self).proceed(index as int),
    {
        if index < self.benchmarks {
            self.phase = Phase::Rotating(Target::User(index));
            Action::Rotate(Target::User(index))
        } else {
            self.phase = Phase::Finished;
            Action::Finish
        }
    }

    /// Takes in what happened and says what to do next.
    ///
    /// The run stops at the first failure, and an event that the state does
    /// not wait for is such a failure.
    pub fn step(&mut self, event: Event) -> (action: Action)
        requires
            old(self).wf(),
        ensures
            (*final(self), action) == old(self).next(event),
            final(self).wf(),
    {
        let phase = self.phase;
        match (phase, event) {
            (Phase::Finished, _) => Action::Finish,
            (Phase::Failed, _) => Action::Fail(
                match self.failure {
                    Some(failure) => failure,
                    None => Failure::UnexpectedEvent,
                },
            ),
            (Phase::Idle, Event::Start) => {
                self.phase = Phase::CheckingSimulator;
                Action::CheckSimulator
            },
            (Phase::CheckingSimulator, Event::SimulatorChecked(available)) => {
                if available {
                    self.phase = Phase::Rotating(Target::Calibration);
                    Action::Rotate(Target::Calibration)
                } else {
                    self.fail(Failure::SimulatorUnavailable)
                }
            },
            (Phase::Rotating(target), Event::Rotated(rotation)) => match rotation {
                Rotation::NoDirectory => self.fail(Failure::DirectoryUnavailable(target)),
                _ => {
                    self.phase = Phase::Running(target);
                    Action::Run(target)
                },
            },
            (Phase::Running(target), Event::RunEnded(outcome)) => match outcome {
                RunOutcome::Success => {
                    self.phase = Phase::ReadingCurrent(target);
                    Action::ReadCurrent(target)
                },
                RunOutcome::NonZeroExit => self.fail(Failure::RunFailed(target)),
                RunOutcome::SpawnFailed => self.fail(Failure::SpawnFailed(target)),
            },
            (Phase::ReadingCurrent(target), Event::CurrentRead(text)) => match text {
                None => self.fail(Failure::ReportUnreadable(target)),
                Some(text) => match parse_cachegrind_output(text.as_str()) {
                    Err(error) => self.fail(Failure::ReportInvalid(target, error)),
                    Ok(stats) => match target {
                        Target::Calibration => {
                            self.baseline = Some(stats);
                            self.go_on(0)
                        },
                        Target::User(index) => {
                            self.phase = Phase::ReadingPrevious(index);
                            self.pending = Some(stats);
                            Action::ReadPrevious(index)
                        },
                    },
                },
            },
            (Phase::ReadingPrevious(index), Event::PreviousRead(text)) => {
                let earlier = read_previous(&text);
                match (self.pending, self.baseline) {
                    (Some(new), Some(baseline)) => match report(&new, &earlier, &baseline) {
                        Some(report) => {
                            self.phase = Phase::Reporting(index);
                            self.pending = None;
                            Action::Report(index, report)
                        },
                        None => self.fail(Failure::InconsistentCounters(Target::User(index))),
                    },
                    _ => self.fail(Failure::UnexpectedEvent),
                }
            },
            (Phase::Reporting(index), Event::Reported) => self.go_on(index + 1),
            _ => self.fail(Failure::UnexpectedEvent),
        }
    }
}

/// Reads the counters of the report that was moved aside; a report that is
/// missing or invalid gives none.
pub fn read_previous(text: &Option<String>) -> (counters: Option<CachegrindStats>)
    ensures
        counters == previous_counters(*text),
{
    match text {
        Some(text) => match parse_cachegrind_output(text.as_str()) {
            Ok(stats) => Some(stats),
            Err(_) => None,
        },
        None => None,
    }
}

/// Once the run has ended, nothing changes any more.
pub proof fn lemma_terminal_is_final(state: Coordinator, event: Event)
    requires
        state.terminal(),
    ensures
        state.next(event).0 == state,
        state.next(event).1 is Finish || state.next(event).1 is Fail,
{
}

/// A failure ends the run: the state that answers with `Fail` is terminal,
/// so no further benchmark is rotated, run or reported.
pub proof fn lemma_failure_stops(state: Coordinator, event: Event)
    requires
        state.wf(),
        state.next(event).1 is Fail,
    ensures
        state.next(event).0.phase == Phase::Failed,
        state.next(event).0.terminal(),
{
}

/// The calibration's counters, once taken, are never replaced.
pub proof fn lemma_baseline_is_fixed(state: Coordinator, event: Event)
    requires
        state.wf(),
        state.baseline.is_some(),
    ensures
        state.next(event).0.baseline == state.baseline,
{
}

/// The length of the list never changes, and every step keeps the state's
/// parts fitting together.
pub proof fn lemma_step_keeps_wf(state: Coordinator, event: Event)
    requires
        state.wf(),
    ensures
        state.next(event).0.wf(),
        state.next(event).0.benchmarks == state.benchmarks,
{
}

/// Benchmarks are taken in the order of the list, one at a time: unless the
/// run fails, the count of reported benchmarks never falls and grows by at
/// most one per step, and the run finishes only when all are reported.
pub proof fn lemma_registration_order(state: Coordinator, event: Event)
    requires
        state.wf(),
        state.next(event).0.phase != Phase::Failed,
    ensures
        state.reported() <= state.next(event).0.reported() <= state.reported() + 1,
        state.next(event).0.reported() <= state.benchmarks,
        !state.terminal() && state.next(event).0.phase == Phase::Finished ==> state.reported()
            == state.benchmarks,
{
}

/// A benchmark is run only right after its last report was moved aside,
/// and its new report is read only right after the run succeeded.
pub proof fn lemma_rotate_before_run(state: Coordinator, event: Event)
    requires
        state.wf(),
    ensures
        state.next(event).1 is Run ==> state.phase == Phase::Rotating(
            state.next(event).1->Run_0,
        ),
        state.next(event).1 is ReadCurrent ==> state.phase == Phase::Running(
            state.next(event).1->ReadCurrent_0,
        ) && event == Event::RunEnded(RunOutcome::Success),
{
}

/// What is reported for a benchmark is computed from its own run and the
/// calibration alone: the estimate is one cycle per first-level hit, five
/// per last-level hit and thirty-five per main-memory access of the run's
/// counters less the calibration's.
pub proof fn lemma_report_action(state: Coordinator, event: Event)
    requires
        state.wf(),
        state.next(event).1 is Report,
    ensures
        state.phase == Phase::ReadingPrevious(state.next(event).1->Report_0),
        state.pending is Some,
        state.baseline is Some,
        ({
            let rest = state.pending->Some_0.subtract_spec(state.baseline->Some_0);
            let figures = state.next(event).1->Report_1.new;
            &&& rest.consistent()
            &&& figures.instructions == rest.instruction_reads
            &&& figures.l1_hits == rest.summarize_spec().l1_hits
            &&& figures.l3_hits == rest.summarize_spec().l3_hits
            &&& figures.ram_hits == rest.summarize_spec().ram_hits
            &&& figures.cycles == rest.summarize_spec().l1_hits + 5 * rest.summarize_spec().l3_hits
                + 35 * rest.summarize_spec().ram_hits
        }),
{
}

} // verus!
