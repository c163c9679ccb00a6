use iai::benchmark::entry_mode;
use iai::benchmark::Benchmark;
use iai::benchmark::Mode;
use iai::cachegrind::Cachegrind;
use iai::cachegrind::Platform;
use iai::client::running_on_valgrind;
use iai::client::running_on_valgrind_request;
use iai::client::start_instrumentation;
use iai::client::stop_instrumentation;
use iai::client::valgrind_request_code;
use iai::client::Transport;
use iai::client::ValgrindSignal;
use iai::coordinator::Target;
use iai::signal::Mark;
use iai::signal::NoSignal;
use iai::signal::Recorder;
use iai::signal::Signal;
use iai::Iai;
use std::cell::RefCell;

fn strings(words: &[&str]) -> Vec<String> {
    words.iter().map(|w| w.to_string()).collect()
}

#[test]
fn run_returns_what_the_closure_returns() {
    let mut iai = Iai::new(NoSignal::new());
    assert_eq!(iai.run(|| 6 * 7), 42);
    let owned = String::from("kept");
    assert_eq!(iai.run(move || owned), "kept");
    iai.run(|| {});
    assert!(!iai.signal.active());
}

#[test]
fn run_brackets_the_call_with_both_signals() {
    let mut iai = Iai::new(Recorder::new());
    assert!(iai.signal.active());
    assert_eq!(iai.run(|| 1), 1);
    assert_eq!(iai.signal.sent, vec![Mark::Begin, Mark::End]);
    assert_eq!(iai.run(|| 2), 2);
    assert_eq!(iai.signal.sent, vec![Mark::Begin, Mark::End, Mark::Begin, Mark::End]);
}

#[test]
fn request_codes_pack_letters_and_number() {
    assert_eq!(valgrind_request_code(b'C', b'G', 0), 0x4347_0000);
    assert_eq!(valgrind_request_code(b'C', b'G', 1), 0x4347_0001);
    assert_eq!(valgrind_request_code(0, 0, 0), 0);
    assert_eq!(valgrind_request_code(255, 255, 65535), 0xffff_ffff);
    assert_eq!(valgrind_request_code(1, 2, 3), 0x0102_0003);
}

#[test]
fn requests_carry_no_argument() {
    assert_eq!(start_instrumentation(), [0x4347_0000, 0, 0, 0, 0, 0]);
    assert_eq!(stop_instrumentation(), [0x4347_0001, 0, 0, 0, 0, 0]);
    assert_eq!(running_on_valgrind_request(), [0x1001, 0, 0, 0, 0, 0]);
}

#[test]
fn any_reply_but_zero_means_simulated() {
    assert!(!running_on_valgrind(0));
    assert!(running_on_valgrind(1));
    assert!(running_on_valgrind(usize::MAX));
}

#[test]
fn benchmark_names() {
    assert_eq!(Benchmark::Calibration.name(), "::iai::calibration");
    assert_eq!(Benchmark::User("fib".to_string()).name(), "fib");
    assert_eq!(Benchmark::User(String::new()).name(), "");
}

#[test]
fn names_are_read_back() {
    assert!(matches!(Benchmark::from_str("::iai::calibration"), Benchmark::Calibration));
    match Benchmark::from_str("fib") {
        Benchmark::User(name) => assert_eq!(name, "fib"),
        Benchmark::Calibration => panic!("a user's benchmark was taken for the calibration"),
    }
    for name in ["", "fib", "::iai::calibration", "::iai::calibration ", "iai::calibration"] {
        assert_eq!(Benchmark::from_str(name).name(), name);
    }
}

#[test]
fn report_files_are_named_after_the_benchmark() {
    let fib = Benchmark::User("fib".to_string());
    assert_eq!(fib.output_file(), "cachegrind.out.fib");
    assert_eq!(fib.old_output_file(), "cachegrind.out.fib.old");
    assert_eq!(fib.run_argument(), "--iai-run=fib");
    assert_eq!(Benchmark::Calibration.output_file(), "cachegrind.out.::iai::calibration");
    assert_eq!(Benchmark::Calibration.old_output_file(), "cachegrind.out.::iai::calibration.old");
    assert_eq!(Benchmark::Calibration.run_argument(), "--iai-run=::iai::calibration");
}

#[test]
fn select_finds_the_first_entry_of_that_name() {
    let names = strings(&["a", "b", "a", "c"]);
    assert_eq!(Benchmark::User("a".to_string()).select(&names), Some(Target::User(0)));
    assert_eq!(Benchmark::User("b".to_string()).select(&names), Some(Target::User(1)));
    assert_eq!(Benchmark::User("c".to_string()).select(&names), Some(Target::User(3)));
    assert_eq!(Benchmark::User("d".to_string()).select(&names), None);
    assert_eq!(Benchmark::User("a".to_string()).select(&strings(&[])), None);
    assert_eq!(Benchmark::Calibration.select(&names), Some(Target::Calibration));
    assert_eq!(Benchmark::Calibration.select(&strings(&[])), Some(Target::Calibration));
}

#[test]
fn the_mode_follows_the_argument() {
    assert!(matches!(entry_mode(&None), Mode::Outer));
    assert!(matches!(
        entry_mode(&Some("::iai::calibration".to_string())),
        Mode::Inner(Benchmark::Calibration)
    ));
    match entry_mode(&Some("fib".to_string())) {
        Mode::Inner(Benchmark::User(name)) => assert_eq!(name, "fib"),
        _ => panic!("the argument did not select the benchmark"),
    }
}

#[test]
fn new_settings_suppress_randomisation() {
    let settings = Cachegrind::new();
    assert_eq!(settings.out_file, None);
    assert!(!settings.allow_aslr);
}

#[test]
fn command_line_on_linux() {
    let mut settings = Cachegrind::new();
    settings.out_file("target/iai/cachegrind.out.fib");
    let line = settings.command(Platform::Linux, &strings(&["bench", "--iai-run=fib"]));
    assert_eq!(
        line,
        strings(&[
            "setarch",
            "-R",
            "valgrind",
            "--tool=cachegrind",
            "--cache-sim=yes",
            "--instr-at-start=no",
            "--I1=32768,8,64",
            "--D1=32768,8,64",
            "--LL=8388608,16,64",
            "--cachegrind-out-file=target/iai/cachegrind.out.fib",
            "bench",
            "--iai-run=fib",
        ])
    );
}

#[test]
fn command_line_on_freebsd() {
    let settings = Cachegrind::new();
    let line = settings.command(Platform::FreeBsd, &strings(&["bench"]));
    assert_eq!(
        line,
        strings(&[
            "proccontrol",
            "-m",
            "aslr",
            "-s",
            "disable",
            "valgrind",
            "--tool=cachegrind",
            "--cache-sim=yes",
            "--instr-at-start=no",
            "--I1=32768,8,64",
            "--D1=32768,8,64",
            "--LL=8388608,16,64",
            "bench",
        ])
    );
}

#[test]
fn command_line_without_suppression() {
    let expected = strings(&[
        "valgrind",
        "--tool=cachegrind",
        "--cache-sim=yes",
        "--instr-at-start=no",
        "--I1=32768,8,64",
        "--D1=32768,8,64",
        "--LL=8388608,16,64",
    ]);
    let settings = Cachegrind::new();
    assert_eq!(settings.command(Platform::Other, &strings(&[])), expected);
    let mut allowed = Cachegrind::new();
    allowed.allow_aslr(true);
    assert!(allowed.allow_aslr);
    assert_eq!(allowed.command(Platform::Linux, &strings(&[])), expected);
    assert_eq!(allowed.command(Platform::FreeBsd, &strings(&[])), expected);
    allowed.allow_aslr(false);
    assert_eq!(allowed.command(Platform::Linux, &strings(&[]))[0], "setarch");
}

#[test]
fn check_command_asks_for_the_version() {
    assert_eq!(Cachegrind::check_command(), strings(&["valgrind", "--tool=cachegrind", "--version"]));
}

struct Tape {
    requests: RefCell<Vec<[usize; 6]>>,
    reply: usize,
}

impl Transport for &Tape {
    fn request(&self, words: &[usize; 6]) -> usize {
        self.requests.borrow_mut().push(*words);
        self.reply
    }
}

#[test]
fn each_signal_is_one_request_to_the_simulator() {
    let tape = Tape { requests: RefCell::new(Vec::new()), reply: 0 };
    let mut iai = Iai::new(ValgrindSignal::new(&tape));
    assert!(tape.requests.borrow().is_empty());
    let seen_inside = iai.run(|| tape.requests.borrow().clone());
    assert_eq!(seen_inside, vec![[0x4347_0000, 0, 0, 0, 0, 0]]);
    assert_eq!(
        *tape.requests.borrow(),
        vec![[0x4347_0000, 0, 0, 0, 0, 0], [0x4347_0001, 0, 0, 0, 0, 0]]
    );
}

#[test]
fn the_simulator_answers_whether_it_listens() {
    let silent = Tape { requests: RefCell::new(Vec::new()), reply: 0 };
    assert!(!ValgrindSignal::new(&silent).active());
    assert_eq!(*silent.requests.borrow(), vec![[0x1001, 0, 0, 0, 0, 0]]);
    let listening = Tape { requests: RefCell::new(Vec::new()), reply: 1 };
    assert!(ValgrindSignal::new(&listening).active());
}

#[test]
fn the_call_lies_between_the_two_signals() {
    let tape = Tape { requests: RefCell::new(Vec::new()), reply: 1 };
    let mut iai = Iai::new(ValgrindSignal::new(&tape));
    let during = iai.run(|| tape.requests.borrow().len());
    assert_eq!(during, 1);
    assert_eq!(tape.requests.borrow().len(), 2);
}
