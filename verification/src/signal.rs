use vstd::prelude::*;

verus! {

/// One of the two signals that bracket a measured call.
#[derive(Clone, Copy, Debug, PartialEq, Eq, Structural)]
pub enum Mark {
    Begin,
    End,
}

/// The channel to the simulator: switches its counting on and off.
pub trait Signal {
    /// The signals that the channel has received so far, oldest first.
    spec fn received(&self) -> Seq<Mark>;

    /// Switches counting on.
    fn begin(&mut self)
        ensures
            final(self).received() == old(self).received().push(Mark::Begin),
    ;

    /// Switches counting off.
    fn end(&mut self)
        ensures
            final(self).received() == old(self).received().push(Mark::End),
    ;

    /// Says whether anything listens to the signals.
    fn active(&self) -> bool;
}

/// The channel of a platform that has none: nothing listens, and a signal
/// is taken and forgotten.
pub struct NoSignal {
    taken: Ghost<Seq<Mark>>,
}

impl NoSignal {
    /// The channel without a listener, before any signal.
    pub fn new() -> (signal: NoSignal)
        ensures
            signal.received() == Seq::<Mark>::empty(),
    {
        NoSignal { taken: Ghost(Seq::empty()) }
    }
}

impl Signal for NoSignal {
    closed spec fn received(&self) -> Seq<Mark> {
        self.taken@
    }

    fn begin(&mut self) {
        self.taken = Ghost(self.taken@.push(Mark::Begin));
    }

    fn end(&mut self) {
        self.taken = Ghost(self.taken@.push(Mark::End));
    }

    fn active(&self) -> (listening: bool)
        ensures
            !listening,
    {
        false
    }
}

/// A channel that keeps the signals in memory, for looking at them later.
pub struct Recorder {
    pub sent: Vec<Mark>,
}

impl Recorder {
    /// A channel that has recorded nothing yet.
    pub fn new() -> (signal: Recorder)
        ensures
            signal.sent@ == Seq::<Mark>::empty(),
            signal.received() == Seq::<Mark>::empty(),
    {
        Recorder { sent: Vec::new() }
    }
}

impl Signal for Recorder {
    open spec fn received(&self) -> Seq<Mark> {
        self.sent@
    }

    fn begin(&mut self) {
        self.sent.push(Mark::Begin);
    }

    fn end(&mut self) {
        self.sent.push(Mark::End);
    }

    fn active(&self) -> (listening: bool)
        ensures
            listening,
    {
        true
    }
}

} // verus!
