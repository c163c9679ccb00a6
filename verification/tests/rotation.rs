use iai::coordinator::Action;
use iai::coordinator::Coordinator;
use iai::coordinator::Event;
use iai::coordinator::Rotation;
use iai::coordinator::RunOutcome;
use iai::coordinator::Target;
use iai::report::Report;
use iai::rotation::Generations;

const CALIBRATION: &str =
    "events: Ir I1mr ILmr Dr D1mr DLmr Dw D1mw DLmw\nsummary: 1000 10 2 200 10 2 100 10 2\n";
const FIRST: &str =
    "events: Ir I1mr ILmr Dr D1mr DLmr Dw D1mw DLmw\nsummary: 1100 19 5 240 18 4 130 17 3\n";
const SECOND: &str =
    "events: Ir I1mr ILmr Dr D1mr DLmr Dw D1mw DLmw\nsummary: 1200 19 5 240 18 4 130 17 3\n";
const THIRD: &str =
    "events: Ir I1mr ILmr Dr D1mr DLmr Dw D1mw DLmw\nsummary: 1300 19 5 240 18 4 130 17 3\n";

fn slot(target: Target) -> usize {
    match target {
        Target::Calibration => 0,
        Target::User(index) => index + 1,
    }
}

// One invocation of the harness with the reports kept in memory: the
// first entry holds the calibration's reports, the others a benchmark's.
fn invocation(kept: &mut Vec<Generations>, written: &[&str]) -> Vec<Report> {
    let mut coordinator = Coordinator::new(kept.len() - 1);
    let mut reports = Vec::new();
    let mut event = Event::Start;
    loop {
        event = match coordinator.step(event) {
            Action::CheckSimulator => Event::SimulatorChecked(true),
            Action::Rotate(target) => Event::Rotated(kept[slot(target)].rotate()),
            Action::Run(target) => {
                kept[slot(target)].write(written[slot(target)].to_string());
                Event::RunEnded(RunOutcome::Success)
            }
            Action::ReadCurrent(target) => Event::CurrentRead(kept[slot(target)].current.clone()),
            Action::ReadPrevious(index) => Event::PreviousRead(kept[index + 1].old.clone()),
            Action::Report(_, report) => {
                reports.push(report);
                Event::Reported
            }
            Action::Finish => return reports,
            Action::Fail(failure) => panic!("the run failed: {:?}", failure),
        };
    }
}

#[test]
fn rotating_moves_the_last_report_aside() {
    let mut kept = Generations::new();
    assert_eq!(kept.current, None);
    assert_eq!(kept.old, None);
    assert_eq!(kept.rotate(), Rotation::NothingToMove);
    assert_eq!(kept.current, None);
    assert_eq!(kept.old, None);
    kept.write("one".to_string());
    assert_eq!(kept.current.as_deref(), Some("one"));
    assert_eq!(kept.old, None);
    assert_eq!(kept.rotate(), Rotation::Moved);
    assert_eq!(kept.current, None);
    assert_eq!(kept.old.as_deref(), Some("one"));
    assert_eq!(kept.rotate(), Rotation::NothingToMove);
    assert_eq!(kept.old.as_deref(), Some("one"));
    kept.write("two".to_string());
    kept.write("three".to_string());
    assert_eq!(kept.current.as_deref(), Some("three"));
    assert_eq!(kept.old.as_deref(), Some("one"));
}

#[test]
fn a_second_run_keeps_the_first_report_as_the_old_one() {
    let mut kept = vec![Generations::new(), Generations::new()];
    let first = invocation(&mut kept, &[CALIBRATION, FIRST]);
    assert_eq!(first.len(), 1);
    assert_eq!(first[0].new.instructions, 100);
    assert_eq!(first[0].old, None);
    assert_eq!(kept[1].current.as_deref(), Some(FIRST));
    assert_eq!(kept[1].old, None);

    let second = invocation(&mut kept, &[CALIBRATION, SECOND]);
    assert_eq!(kept[1].current.as_deref(), Some(SECOND));
    assert_eq!(kept[1].old.as_deref(), Some(FIRST));
    assert_eq!(kept[0].current.as_deref(), Some(CALIBRATION));
    assert_eq!(kept[0].old.as_deref(), Some(CALIBRATION));
    assert_eq!(second[0].new.instructions, 200);
    assert_eq!(second[0].new.cycles, 246 + 5 * 18 + 35 * 6);
    assert_eq!(second[0].old, Some(first[0].new));
}

#[test]
fn a_third_run_keeps_one_generation_only() {
    let mut kept = vec![Generations::new(), Generations::new()];
    invocation(&mut kept, &[CALIBRATION, FIRST]);
    let second = invocation(&mut kept, &[CALIBRATION, SECOND]);
    let third = invocation(&mut kept, &[CALIBRATION, THIRD]);
    assert_eq!(kept[1].current.as_deref(), Some(THIRD));
    assert_eq!(kept[1].old.as_deref(), Some(SECOND));
    assert_eq!(third[0].new.instructions, 300);
    assert_eq!(third[0].old, Some(second[0].new));
    assert_eq!(third[0].old.unwrap().instructions, 200);
}

#[test]
fn benchmarks_keep_their_reports_apart() {
    let mut kept = vec![Generations::new(), Generations::new(), Generations::new()];
    invocation(&mut kept, &[CALIBRATION, FIRST, SECOND]);
    let reports = invocation(&mut kept, &[CALIBRATION, SECOND, THIRD]);
    assert_eq!(kept[1].old.as_deref(), Some(FIRST));
    assert_eq!(kept[2].old.as_deref(), Some(SECOND));
    assert_eq!(reports[0].old.unwrap().instructions, 100);
    assert_eq!(reports[1].old.unwrap().instructions, 200);
    assert_eq!(reports[1].new.instructions, 300);
}
