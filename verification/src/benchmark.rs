use crate::coordinator::Target;
use vstd::prelude::*;
use vstd::string::*;

verus! {

/// What a child process is asked to run: a benchmark of the list, by its
/// name, or the empty calibration body.
#[derive(Clone, Debug)]
pub enum Benchmark {
    User(String),
    Calibration,
}

/// The name kept for the calibration run. It is no identifier, so no
/// function of a list can carry it.
pub open spec fn calibration_name() -> Seq<char> {
    "::iai::calibration"@
}

/// The name is the one kept for the calibration run.
pub open spec fn is_calibration_name(name: Seq<char>) -> bool {
    name == calibration_name()
}

/// Position of the first entry of `names` that equals `name`, from `from` on.
pub open spec fn first_named(names: Seq<String>, name: Seq<char>, from: int) -> Option<int>
    decreases names.len() - from,
{
    if from < 0 || from >= names.len() {
        None
    } else if names[from]@ == name {
        Some(from)
    } else {
        first_named(names, name, from + 1)
    }
}

impl Benchmark {
    /// The benchmark's name: its own, or the one kept for the calibration.
    pub open spec fn name_spec(self) -> Seq<char> {
        match self {
            Benchmark::User(name) => name@,
            Benchmark::Calibration => calibration_name(),
        }
    }

    /// Which entry of the list the benchmark is; none where no entry has
    /// its name.
    pub open spec fn select_spec(self, names: Seq<String>) -> Option<Target> {
        match self {
            Benchmark::Calibration => Some(Target::Calibration),
            Benchmark::User(name) => match first_named(names, name@, 0) {
                Some(index) => Some(Target::User(index as usize)),
                None => None,
            },
        }
    }

    /// The name by which the benchmark is passed to the child process and
    /// from which its report files are named.
    pub fn name(&self) -> (name: &str)
        ensures
            name@ == self.name_spec(),
    {
        match self {
            Benchmark::User(name) => name.as_str(),
            Benchmark::Calibration => "::iai::calibration",
        }
    }

    /// The benchmark that a name stands for: the calibration for its
    /// reserved name, a benchmark of the list for any other.
    pub fn from_str(s: &str) -> (benchmark: Benchmark)
        ensures
            benchmark.name_spec() == s@,
            benchmark is Calibration <==> is_calibration_name(s@),
    {
        let given = String::from_str(s);
        let reserved = String::from_str("::iai::calibration");
        if given == reserved {
            Benchmark::Calibration
        } else {
            Benchmark::User(given)
        }
    }

    /// The file name of the benchmark's report.
    pub fn output_file(&self) -> (file: String)
        ensures
            file@ == "cachegrind.out."@ + self.name_spec(),
    {
        String::from_str("cachegrind.out.").concat(self.name())
    }

    /// The file name under which the report of the run before is kept.
    pub fn old_output_file(&self) -> (file: String)
        ensures
            file@ == "cachegrind.out."@ + self.name_spec() + ".old"@,
    {
        String::from_str("cachegrind.out.").concat(self.name()).concat(".old")
    }

    /// The argument that asks the child process for this one benchmark.
    pub fn run_argument(&self) -> (argument: String)
        ensures
            argument@ == "--iai-run="@ + self.name_spec(),
    {
        String::from_str("--iai-run=").concat(self.name())
    }

    /// Finds the benchmark in the list of names: the first entry that
    /// carries its name. The calibration is in no list and always found.
    pub fn select(&self, names: &Vec<String>) -> (target: Option<Target>)
        ensures
            target == self.select_spec(names@),
            match target {
                Some(Target::User(index)) => index < names@.len() && names@[index as int]@
                    == self.name_spec(),
                Some(Target::Calibration) => self is Calibration,
                None => self is User && forall|i: int|
                    0 <= i < names@.len() ==> names@[i]@ != self.name_spec(),
            },
    {
        match self {
            Benchmark::Calibration => Some(Target::Calibration),
            Benchmark::User(name) => {
                let mut i: usize = 0;
                while i < names.len()
                    invariant
                        0 <= i <= names@.len(),
                        *self == Benchmark::User(*name),
                        first_named(names@, name@, 0) == first_named(names@, name@, i as int),
                        forall|k: int| 0 <= k < i ==> names@[k]@ != name@,
                    decreases names@.len() - i,
                {
                    if names[i] == *name {
                        return Some(Target::User(i));
                    }
                    i += 1;
                }
                None
            },
        }
    }
}

/// How the harness was started: to run every benchmark under the
/// simulator, or, as a child under it, to run a single one.
#[derive(Clone, Debug)]
pub enum Mode {
    Outer,
    Inner(Benchmark),
}

/// Reads the mode off the argument that names a single benchmark: with it
/// the process is the child and runs that benchmark, without it the
/// process runs them all.
pub fn entry_mode(single: &Option<String>) -> (mode: Mode)
    ensures
        match single {
            None => mode is Outer,
            Some(name) => mode is Inner && mode->Inner_0.name_spec() == name@ && (
            mode->Inner_0 is Calibration <==> is_calibration_name(name@)),
        },
{
    match single {
        None => Mode::Outer,
        Some(name) => Mode::Inner(Benchmark::from_str(name.as_str())),
    }
}

} // verus!
