use crate::coordinator::previous_counters;
use crate::coordinator::Action;
use crate::coordinator::Coordinator;
use crate::coordinator::Event;
use crate::coordinator::Failure;
use crate::coordinator::Phase;
use crate::coordinator::Rotation;
use crate::coordinator::RunOutcome;
use crate::coordinator::Target;
use crate::parser::parse_spec;
use crate::report::report_spec;
use vstd::prelude::*;

verus! {

/// The reports kept for one benchmark name: the one of the last run and
/// the one of the run before it. Moving the last report aside replaces
/// the older one; a run then writes a new last report.
pub struct Generations {
    pub current: Option<String>,
    pub old: Option<String>,
}

impl Generations {
    /// The reports after the last one was moved aside. Where there is no
    /// last report, nothing moves and the older one stays.
    pub open spec fn rotated(self) -> Generations {
        match self.current {
            Some(report) => Generations { current: None, old: Some(report) },
            None => self,
        }
    }

    /// The reports after a run wrote `report`.
    pub open spec fn written(self, report: String) -> Generations {
        Generations { current: Some(report), old: self.old }
    }

    /// The reports after one whole run: the last one moved aside, then
    /// `report` written.
    pub open spec fn after_run(self, report: String) -> Generations {
        self.rotated().written(report)
    }

    /// How many reports are kept.
    pub open spec fn files(self) -> nat {
        let current: nat = if self.current is Some {
            1
        } else {
            0
        };
        let old: nat = if self.old is Some {
            1
        } else {
            0
        };
        current + old
    }

    /// How moving the last report aside goes.
    pub open spec fn rotation(self) -> Rotation {
        if self.current is Some {
            Rotation::Moved
        } else {
            Rotation::NothingToMove
        }
    }

    /// No report of any run.
    pub fn new() -> (reports: Generations)
        ensures
            reports.current is None,
            reports.old is None,
    {
        Generations { current: None, old: None }
    }

    /// Moves the last report aside, over the older one.
    pub fn rotate(&mut self) -> (outcome: Rotation)
        ensures
            *final(self) == old(self).rotated(),
            outcome == old(self).rotation(),
    {
        let last = self.current.take();
        match last {
            Some(report) => {
                self.old = Some(report);
                Rotation::Moved
            },
            None => Rotation::NothingToMove,
        }
    }

    /// Writes the report of a run in the place of the last one.
    pub fn write(&mut self, report: String)
        ensures
            *final(self) == old(self).written(report),
    {
        self.current = Some(report);
    }
}

/// What one measurement of the benchmark at `index` comes to when the
/// outside world does as it is asked: the last report is moved aside, the
/// run succeeds and writes `report`, and both reports are read back.
pub open spec fn measured(state: Coordinator, reports: Generations, report: String) -> (
    Coordinator,
    Generations,
    Action,
) {
    let after = reports.after_run(report);
    let rotated = state.next(Event::Rotated(reports.rotation())).0;
    let ran = rotated.next(Event::RunEnded(RunOutcome::Success)).0;
    let read = ran.next(Event::CurrentRead(after.current)).0;
    let (compared, action) = read.next(Event::PreviousRead(after.old));
    (compared, after, action)
}

/// After two runs under one name exactly two reports are kept: that of
/// the second run, and as the old one that of the first, whatever was
/// there before.
pub proof fn lemma_two_runs(start: Generations, first: String, second: String)
    ensures
        start.after_run(first).after_run(second) == (Generations {
            current: Some(second),
            old: Some(first),
        }),
        start.after_run(first).after_run(second).files() == 2,
{
}

/// A third run keeps one generation of history and no more: the old
/// report is that of the second run, and that of the first is gone.
pub proof fn lemma_three_runs(start: Generations, first: String, second: String, third: String)
    ensures
        start.after_run(first).after_run(second).after_run(third) == (Generations {
            current: Some(third),
            old: Some(second),
        }),
        start.after_run(first).after_run(second).after_run(third).files() == 2,
{
}

/// A measurement reports the run that was just written against the
/// report that is then kept as the old one: the report that was moved
/// aside, or, where there was none to move, the old one that stayed.
/// Both sides are taken less the baseline, which the measurement leaves
/// as it is.
pub proof fn lemma_measured(state: Coordinator, reports: Generations, report: String, index: usize)
    requires
        state.wf(),
        state.phase == Phase::Rotating(Target::User(index)),
        parse_spec(report@) is Ok,
    ensures
        measured(state, reports, report).1 == reports.after_run(report),
        measured(state, reports, report).2 == (match report_spec(
            parse_spec(report@)->Ok_0,
            previous_counters(reports.rotated().old),
            state.baseline->Some_0,
        ) {
            Some(figures) => Action::Report(index, figures),
            None => Action::Fail(Failure::InconsistentCounters(Target::User(index))),
        }),
        measured(state, reports, report).0.baseline == state.baseline,
        reports.current is Some ==> reports.rotated().old == reports.current,
{
}

} // verus!
