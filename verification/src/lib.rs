use crate::signal::Mark;
use crate::signal::Signal;
use vstd::prelude::*;

pub mod benchmark;
pub mod cachegrind;
pub mod client;
pub mod coordinator;
pub mod parser;
pub mod registration;
pub mod report;
pub mod rotation;
pub mod signal;
pub mod stats;

verus! {

/// Hands a value through `std::hint::black_box`, which returns its
/// argument unchanged and keeps the compiler from reasoning about it.
#[verifier::external_body]
fn opaque<T>(value: T) -> (same: T)
    ensures
        same == value,
{
    std::hint::black_box(value)
}

/// Measures closures: brackets each call with the two signals that switch
/// the simulator's counting on and off.
pub struct Iai<S: Signal> {
    pub signal: S,
}

impl<S: Signal> Iai<S> {
    /// A harness that signals through `signal`.
    pub fn new(signal: S) -> (iai: Iai<S>)
        ensures
            iai.signal == signal,
    {
        Iai { signal }
    }

    /// Runs and measures the given closure.
    ///
    /// The result of the closure is returned. Counting is switched on just
    /// before the call and off just after it, so dropping the result is
    /// not measured: on each run the channel receives one `Begin` and then
    /// one `End`, and nothing else.
    pub fn run<F, T>(&mut self, f: F) -> (result: T) where F: FnOnce() -> T
        requires
            f.requires(()),
        ensures
            f.ensures((), result),
            final(self).signal.received() == old(self).signal.received().push(Mark::Begin).push(
                Mark::End,
            ),
    {
        self.signal.begin();
        let result = opaque(f());
        self.signal.end();
        result
    }
}

} // verus!
