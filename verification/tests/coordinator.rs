use iai::coordinator::Action;
use iai::coordinator::Coordinator;
use iai::coordinator::Event;
use iai::coordinator::Failure;
use iai::coordinator::Phase;
use iai::coordinator::read_previous;
use iai::coordinator::Rotation;
use iai::coordinator::RunOutcome;
use iai::coordinator::Target;
use iai::parser::NumberError;
use iai::parser::ParseError;
use iai::report::Figures;

const CALIBRATION: &str =
    "events: Ir I1mr ILmr Dr D1mr DLmr Dw D1mw DLmw\nsummary: 1000 10 2 200 10 2 100 10 2\n";
const FIRST: &str =
    "events: Ir I1mr ILmr Dr D1mr DLmr Dw D1mw DLmw\nsummary: 1100 19 5 240 18 4 130 17 3\n";
const SECOND: &str =
    "events: Ir I1mr ILmr Dr D1mr DLmr Dw D1mw DLmw\nsummary: 1200 19 5 240 18 4 130 17 3\n";

fn text(s: &str) -> Option<String> {
    Some(s.to_string())
}

fn calibrated(benchmarks: usize) -> (Coordinator, Action) {
    let mut c = Coordinator::new(benchmarks);
    assert_eq!(c.step(Event::Start), Action::CheckSimulator);
    assert_eq!(c.step(Event::SimulatorChecked(true)), Action::Rotate(Target::Calibration));
    assert_eq!(c.step(Event::Rotated(Rotation::NothingToMove)), Action::Run(Target::Calibration));
    assert_eq!(
        c.step(Event::RunEnded(RunOutcome::Success)),
        Action::ReadCurrent(Target::Calibration)
    );
    let action = c.step(Event::CurrentRead(text(CALIBRATION)));
    (c, action)
}

fn measured(c: &mut Coordinator, index: usize, new: &str, old: Option<String>) -> Action {
    assert_eq!(c.phase, Phase::Rotating(Target::User(index)));
    assert_eq!(c.step(Event::Rotated(Rotation::Moved)), Action::Run(Target::User(index)));
    assert_eq!(
        c.step(Event::RunEnded(RunOutcome::Success)),
        Action::ReadCurrent(Target::User(index))
    );
    assert_eq!(c.step(Event::CurrentRead(text(new))), Action::ReadPrevious(index));
    c.step(Event::PreviousRead(old))
}

#[test]
fn a_new_coordinator_is_idle() {
    let c = Coordinator::new(3);
    assert_eq!(c.phase, Phase::Idle);
    assert_eq!(c.benchmarks, 3);
    assert_eq!(c.baseline, None);
    assert_eq!(c.pending, None);
    assert_eq!(c.failure, None);
}

#[test]
fn calibration_then_report_of_the_difference() {
    let (mut c, action) = calibrated(1);
    assert_eq!(action, Action::Rotate(Target::User(0)));
    let baseline = c.baseline;
    assert!(baseline.is_some());
    let action = measured(&mut c, 0, FIRST, None);
    let report = match action {
        Action::Report(0, report) => report,
        other => panic!("unexpected action {:?}", other),
    };
    assert_eq!(
        report.new,
        Figures {
            instructions: 100,
            l1_hits: 146,
            l3_hits: 18,
            ram_hits: 6,
            cycles: 146 + 5 * 18 + 35 * 6,
        }
    );
    assert_eq!(report.old, None);
    assert_eq!(c.baseline, baseline);
    assert_eq!(c.step(Event::Reported), Action::Finish);
    assert_eq!(c.phase, Phase::Finished);
}

#[test]
fn the_earlier_report_is_compared_against_the_same_baseline() {
    let (mut c, _) = calibrated(1);
    let action = measured(&mut c, 0, SECOND, text(FIRST));
    let report = match action {
        Action::Report(0, report) => report,
        other => panic!("unexpected action {:?}", other),
    };
    assert_eq!(report.new.instructions, 200);
    assert_eq!(report.new.cycles, 246 + 5 * 18 + 35 * 6);
    assert_eq!(report.old.unwrap().instructions, 100);
    assert_eq!(report.old.unwrap().cycles, 146 + 5 * 18 + 35 * 6);
}

#[test]
fn an_invalid_earlier_report_counts_as_none() {
    let (mut c, _) = calibrated(1);
    let action = measured(&mut c, 0, FIRST, text("events: Ir\n"));
    match action {
        Action::Report(0, report) => assert_eq!(report.old, None),
        other => panic!("unexpected action {:?}", other),
    }
    assert_eq!(read_previous(&text("events: Ir\nsummary: x\n")), None);
    assert_eq!(read_previous(&None), None);
    assert_eq!(read_previous(&text("events: Ir\nsummary: 4\n")).unwrap().instruction_reads, 4);
}

#[test]
fn benchmarks_are_taken_in_order() {
    let (mut c, action) = calibrated(3);
    assert_eq!(action, Action::Rotate(Target::User(0)));
    for index in 0..3 {
        match measured(&mut c, index, FIRST, None) {
            Action::Report(at, _) => assert_eq!(at, index),
            other => panic!("unexpected action {:?}", other),
        }
        let next = c.step(Event::Reported);
        if index < 2 {
            assert_eq!(next, Action::Rotate(Target::User(index + 1)));
        } else {
            assert_eq!(next, Action::Finish);
        }
    }
    assert_eq!(c.step(Event::Start), Action::Finish);
    assert_eq!(c.phase, Phase::Finished);
}

#[test]
fn an_empty_list_ends_after_calibration() {
    let (c, action) = calibrated(0);
    assert_eq!(action, Action::Finish);
    assert_eq!(c.phase, Phase::Finished);
}

#[test]
fn a_missing_simulator_stops_everything() {
    let mut c = Coordinator::new(2);
    c.step(Event::Start);
    assert_eq!(
        c.step(Event::SimulatorChecked(false)),
        Action::Fail(Failure::SimulatorUnavailable)
    );
    assert_eq!(c.phase, Phase::Failed);
    assert_eq!(c.step(Event::Start), Action::Fail(Failure::SimulatorUnavailable));
    assert_eq!(
        c.step(Event::Rotated(Rotation::Moved)),
        Action::Fail(Failure::SimulatorUnavailable)
    );
    assert_eq!(c.phase, Phase::Failed);
}

#[test]
fn a_failed_rename_is_no_failure() {
    let mut c = Coordinator::new(0);
    c.step(Event::Start);
    c.step(Event::SimulatorChecked(true));
    assert_eq!(c.step(Event::Rotated(Rotation::Failed)), Action::Run(Target::Calibration));
}

#[test]
fn a_missing_directory_is_a_failure() {
    let mut c = Coordinator::new(0);
    c.step(Event::Start);
    c.step(Event::SimulatorChecked(true));
    assert_eq!(
        c.step(Event::Rotated(Rotation::NoDirectory)),
        Action::Fail(Failure::DirectoryUnavailable(Target::Calibration))
    );
}

#[test]
fn a_failed_run_is_a_failure() {
    let (mut c, _) = calibrated(2);
    c.step(Event::Rotated(Rotation::Moved));
    assert_eq!(
        c.step(Event::RunEnded(RunOutcome::NonZeroExit)),
        Action::Fail(Failure::RunFailed(Target::User(0)))
    );
    assert_eq!(c.step(Event::Reported), Action::Fail(Failure::RunFailed(Target::User(0))));

    let (mut c, _) = calibrated(2);
    c.step(Event::Rotated(Rotation::Moved));
    assert_eq!(
        c.step(Event::RunEnded(RunOutcome::SpawnFailed)),
        Action::Fail(Failure::SpawnFailed(Target::User(0)))
    );
}

#[test]
fn a_bad_current_report_is_a_failure() {
    let (mut c, _) = calibrated(1);
    c.step(Event::Rotated(Rotation::Moved));
    c.step(Event::RunEnded(RunOutcome::Success));
    assert_eq!(
        c.step(Event::CurrentRead(None)),
        Action::Fail(Failure::ReportUnreadable(Target::User(0)))
    );

    let (mut c, _) = calibrated(1);
    c.step(Event::Rotated(Rotation::Moved));
    c.step(Event::RunEnded(RunOutcome::Success));
    assert_eq!(
        c.step(Event::CurrentRead(text("events: Ir\nsummary: many\n"))),
        Action::Fail(Failure::ReportInvalid(
            Target::User(0),
            ParseError::InvalidNumber(NumberError::InvalidDigit)
        ))
    );

    let mut c = Coordinator::new(1);
    c.step(Event::Start);
    c.step(Event::SimulatorChecked(true));
    c.step(Event::Rotated(Rotation::Moved));
    c.step(Event::RunEnded(RunOutcome::Success));
    assert_eq!(
        c.step(Event::CurrentRead(text("nothing\n"))),
        Action::Fail(Failure::ReportInvalid(Target::Calibration, ParseError::EventsNotFound))
    );
}

#[test]
fn contradictory_counters_are_a_failure() {
    let (mut c, _) = calibrated(1);
    let action = measured(&mut c, 0, "events: Ir ILmr\nsummary: 2000 50\n", None);
    assert_eq!(action, Action::Fail(Failure::InconsistentCounters(Target::User(0))));
    assert_eq!(c.phase, Phase::Failed);
}

#[test]
fn an_event_out_of_turn_is_a_failure() {
    let mut c = Coordinator::new(1);
    assert_eq!(c.step(Event::Reported), Action::Fail(Failure::UnexpectedEvent));
    let (mut c, _) = calibrated(1);
    assert_eq!(
        c.step(Event::RunEnded(RunOutcome::Success)),
        Action::Fail(Failure::UnexpectedEvent)
    );
    assert_eq!(c.failure, Some(Failure::UnexpectedEvent));
}
