use crate::stats::CachegrindStats;
use crate::stats::Stats;
use vstd::prelude::*;

verus! {

/// The five figures that are reported for one run.
#[derive(Clone, Copy, Debug, PartialEq, Eq, Structural)]
pub struct Figures {
    pub instructions: u64,
    pub l1_hits: u64,
    pub l3_hits: u64,
    pub ram_hits: u64,
    pub cycles: u64,
}

/// The figures of the current run and, where they are known, of the run before.
#[derive(Clone, Copy, Debug, PartialEq, Eq, Structural)]
pub struct Report {
    pub new: Figures,
    pub old: Option<Figures>,
}

/// How a figure stands against the same figure of the run before.
#[derive(Clone, Copy, Debug, PartialEq, Eq, Structural)]
pub enum Change {
    /// There is no earlier figure.
    NoPrior,
    /// The figure is the same as before.
    NoChange,
    /// The figure moved away from the earlier one, which is given.
    From(u64),
}

/// The figures of a record whose counters are consistent and whose cycle
/// estimate fits in 64 bits; none for any other record.
pub open spec fn figures_spec(stats: CachegrindStats) -> Option<Figures> {
    if stats.consistent() && stats.summarize_spec().cycles_spec() <= u64::MAX {
        Some(
            Figures {
                instructions: stats.instruction_reads,
                l1_hits: stats.summarize_spec().l1_hits,
                l3_hits: stats.summarize_spec().l3_hits,
                ram_hits: stats.summarize_spec().ram_hits,
                cycles: stats.summarize_spec().cycles_spec() as u64,
            },
        )
    } else {
        None
    }
}

/// The report on a run with counters `new`, an optional earlier run `old`,
/// and the calibration run `baseline`, whose counters are taken off both.
/// An earlier run without usable figures counts as none.
pub open spec fn report_spec(
    new: CachegrindStats,
    old: Option<CachegrindStats>,
    baseline: CachegrindStats,
) -> Option<Report> {
    match figures_spec(new.subtract_spec(baseline)) {
        None => None,
        Some(figures) => Some(
            Report {
                new: figures,
                old: match old {
                    Some(earlier) => figures_spec(earlier.subtract_spec(baseline)),
                    None => None,
                },
            },
        ),
    }
}

/// How `new` stands against the earlier figure `old`.
pub open spec fn change_spec(new: u64, old: Option<u64>) -> Change {
    match old {
        None => Change::NoPrior,
        Some(earlier) => if new == earlier {
            Change::NoChange
        } else {
            Change::From(earlier)
        },
    }
}

/// Computes the five reported figures of a record.
pub fn figures(stats: &CachegrindStats) -> (outcome: Option<Figures>)
    ensures
        outcome == figures_spec(*stats),
{
    match stats.checked_summarize() {
        None => None,
        Some(summary) => match summary.checked_cycles() {
            None => None,
            Some(cycles) => Some(
                Figures {
                    instructions: stats.instruction_reads,
                    l1_hits: summary.l1_hits,
                    l3_hits: summary.l3_hits,
                    ram_hits: summary.ram_hits,
                    cycles,
                },
            ),
        },
    }
}

/// Takes the calibration's counters off the current run and off the run
/// before it, and computes the figures of both.
pub fn report(
    new: &CachegrindStats,
    old: &Option<CachegrindStats>,
    baseline: &CachegrindStats,
) -> (outcome: Option<Report>)
    ensures
        outcome == report_spec(*new, *old, *baseline),
{
    let calibration = Stats { new: *baseline, old: None };
    let rest = (Stats { new: *new, old: *old }).subtract(&calibration);
    match figures(&rest.new) {
        None => None,
        Some(current) => {
            let earlier = match &rest.old {
                Some(earlier) => figures(earlier),
                None => None,
            };
            Some(Report { new: current, old: earlier })
        },
    }
}

/// Compares a figure with the same figure of the run before.
pub fn change(new: u64, old: Option<u64>) -> (outcome: Change)
    ensures
        outcome == change_spec(new, old),
{
    match old {
        None => Change::NoPrior,
        Some(earlier) => if new == earlier {
            Change::NoChange
        } else {
            Change::From(earlier)
        },
    }
}

/// The reported estimate is one cycle per first-level hit, five per
/// last-level hit and thirty-five per main-memory access of the run's
/// counters less the calibration's.
pub proof fn lemma_reported_estimate(
    new: CachegrindStats,
    old: Option<CachegrindStats>,
    baseline: CachegrindStats,
)
    requires
        report_spec(new, old, baseline) is Some,
    ensures
        ({
            let rest = new.subtract_spec(baseline).summarize_spec();
            let figures = report_spec(new, old, baseline)->Some_0.new;
            &&& figures.cycles == rest.l1_hits + 5 * rest.l3_hits + 35 * rest.ram_hits
            &&& figures.l1_hits == rest.l1_hits
            &&& figures.l3_hits == rest.l3_hits
            &&& figures.ram_hits == rest.ram_hits
        }),
{
}

} // verus!
