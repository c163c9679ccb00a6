use vstd::prelude::*;
use vstd::string::*;

verus! {

/// The operating system that the harness runs on, as far as it matters
/// for switching address-space randomisation off.
#[derive(Clone, Copy, Debug, PartialEq, Eq, Structural)]
pub enum Platform {
    Linux,
    FreeBsd,
    Other,
}

/// The settings of one simulated run.
#[derive(Clone, Debug)]
pub struct Cachegrind {
    pub out_file: Option<String>,
    pub allow_aslr: bool,
}

/// A list of words, each as its sequence of characters.
pub open spec fn words(list: Seq<String>) -> Seq<Seq<char>> {
    Seq::new(list.len(), |i: int| list[i]@)
}

/// The program and the leading words that start the simulator, with
/// address-space randomisation switched off where the platform has a way.
pub open spec fn launcher(platform: Platform, allow_aslr: bool) -> Seq<Seq<char>> {
    if allow_aslr {
        seq!["valgrind"@]
    } else {
        match platform {
            Platform::Linux => seq!["setarch"@, "-R"@, "valgrind"@],
            Platform::FreeBsd => seq![
                "proccontrol"@,
                "-m"@,
                "aslr"@,
                "-s"@,
                "disable"@,
                "valgrind"@,
            ],
            Platform::Other => seq!["valgrind"@],
        }
    }
}

/// The simulator's mode and the cache geometry, the same for every run.
pub open spec fn fixed_flags() -> Seq<Seq<char>> {
    seq![
        "--tool=cachegrind"@,
        "--cache-sim=yes"@,
        "--instr-at-start=no"@,
        "--I1=32768,8,64"@,
        "--D1=32768,8,64"@,
        "--LL=8388608,16,64"@,
    ]
}

/// The flag that names the report's file, where one is set.
pub open spec fn out_file_flag(out_file: Option<String>) -> Seq<Seq<char>> {
    match out_file {
        Some(path) => seq!["--cachegrind-out-file="@ + path@],
        None => Seq::<Seq<char>>::empty(),
    }
}

/// The words that check whether the simulator can be started at all.
pub open spec fn check_command_spec() -> Seq<Seq<char>> {
    seq!["valgrind"@, "--tool=cachegrind"@, "--version"@]
}

fn push_word(list: &mut Vec<String>, word: &str)
    ensures
        words(final(list)@) == words(old(list)@).push(word@),
{
    let owned = String::from_str(word);
    list.push(owned);
    assert(words(list@) =~= words(old(list)@).push(word@));
}

impl Cachegrind {
    /// The whole command line of a run: launcher, fixed flags, the
    /// report's file, then the words of the benchmarked command.
    pub open spec fn command_spec(self, platform: Platform, args: Seq<Seq<char>>) -> Seq<
        Seq<char>,
    > {
        launcher(platform, self.allow_aslr) + fixed_flags() + out_file_flag(self.out_file) + args
    }

    /// Settings with no report file and address-space randomisation off.
    pub fn new() -> (settings: Cachegrind)
        ensures
            settings.out_file is None,
            !settings.allow_aslr,
    {
        Cachegrind { out_file: None, allow_aslr: false }
    }

    /// Sets whether address-space randomisation is left on.
    pub fn allow_aslr(&mut self, allow_aslr: bool)
        ensures
            final(self).allow_aslr == allow_aslr,
            final(self).out_file == old(self).out_file,
    {
        self.allow_aslr = allow_aslr;
    }

    /// Sets the file that the simulator writes its report to.
    pub fn out_file(&mut self, out_file: &str)
        ensures
            final(self).out_file is Some,
            final(self).out_file->Some_0@ == out_file@,
            final(self).allow_aslr == old(self).allow_aslr,
    {
        self.out_file = Some(String::from_str(out_file));
    }

    /// Builds the command line that runs `args` under the simulator. The
    /// first word is the program to start.
    pub fn command(&self, platform: Platform, args: &Vec<String>) -> (line: Vec<String>)
        ensures
            words(line@) == self.command_spec(platform, words(args@)),
            line@.len() > 0,
    {
        let mut line: Vec<String> = Vec::new();
        assert(words(line@) =~= Seq::<Seq<char>>::empty());
        if self.allow_aslr {
            push_word(&mut line, "valgrind");
        } else {
            match platform {
                Platform::Linux => {
                    push_word(&mut line, "setarch");
                    push_word(&mut line, "-R");
                    push_word(&mut line, "valgrind");
                },
                Platform::FreeBsd => {
                    push_word(&mut line, "proccontrol");
                    push_word(&mut line, "-m");
                    push_word(&mut line, "aslr");
                    push_word(&mut line, "-s");
                    push_word(&mut line, "disable");
                    push_word(&mut line, "valgrind");
                },
                Platform::Other => {
                    push_word(&mut line, "valgrind");
                },
            }
        }
        assert(words(line@) =~= launcher(platform, self.allow_aslr));

        push_word(&mut line, "--tool=cachegrind");
        push_word(&mut line, "--cache-sim=yes");
        push_word(&mut line, "--instr-at-start=no");
        push_word(&mut line, "--I1=32768,8,64");
        push_word(&mut line, "--D1=32768,8,64");
        push_word(&mut line, "--LL=8388608,16,64");
        assert(words(line@) =~= launcher(platform, self.allow_aslr) + fixed_flags());

        match &self.out_file {
            Some(path) => {
                let flag = String::from_str("--cachegrind-out-file=").concat(path.as_str());
                push_word(&mut line, flag.as_str());
            },
            None => {},
        }
        assert(words(line@) =~= launcher(platform, self.allow_aslr) + fixed_flags()
            + out_file_flag(self.out_file));

        let ghost head = words(line@);
        let mut i: usize = 0;
        while i < args.len()
            invariant
                0 <= i <= args@.len(),
                words(line@) == head + words(args@).take(i as int),
            decreases args@.len() - i,
        {
            push_word(&mut line, args[i].as_str());
            assert(words(line@) =~= head + words(args@).take(i + 1));
            i += 1;
        }
        assert(words(args@).take(i as int) =~= words(args@));
        assert(words(line@).len() == line@.len());
        line
    }

    /// Builds the command line that asks the simulator for its version.
    pub fn check_command() -> (line: Vec<String>)
        ensures
            words(line@) == check_command_spec(),
    {
        let mut line: Vec<String> = Vec::new();
        assert(words(line@) =~= Seq::<Seq<char>>::empty());
        push_word(&mut line, "valgrind");
        push_word(&mut line, "--tool=cachegrind");
        push_word(&mut line, "--version");
        assert(words(line@) =~= check_command_spec());
        line
    }
}

} // verus!
