use crate::signal::Mark;
use crate::signal::Signal;
use vstd::prelude::*;

verus! {

/// The request that asks whether the process runs under the simulator.
pub const RUNNING_ON_VALGRIND: usize = 0x1001;

/// The code of a request to a tool of the simulator: the tool's two
/// letters in the upper bytes, the request's number below them.
pub open spec fn request_code_spec(a: u8, b: u8, c: u16) -> int {
    a * 0x100_0000 + b * 0x1_0000 + c
}

/// Packs a tool's two letters and a request number into a request code.
pub fn valgrind_request_code(a: u8, b: u8, c: u16) -> (code: usize)
    ensures
        code == request_code_spec(a, b, c),
{
    let high: u32 = a as u32;
    let mid: u32 = b as u32;
    let low: u32 = c as u32;
    let packed: u32 = high << 24 | mid << 16 | low;
    assert(packed == high * 0x100_0000 + mid * 0x1_0000 + low) by (bit_vector)
        requires
            high < 0x100,
            mid < 0x100,
            low < 0x1_0000,
            packed == high << 24 | mid << 16 | low,
    ;
    packed as usize
}

/// The six words of a request that carries no argument.
pub open spec fn request_spec(code: int) -> Seq<usize> {
    seq![code as usize, 0, 0, 0, 0, 0]
}

/// The request that asks whether the process runs under the simulator.
pub fn running_on_valgrind_request() -> (request: [usize; 6])
    ensures
        request@ == request_spec(0x1001),
{
    let request: [usize; 6] = [RUNNING_ON_VALGRIND, 0, 0, 0, 0, 0];
    assert(request@ =~= request_spec(0x1001));
    request
}

/// Reads the simulator's answer to that request: anything but zero means
/// that the process runs under it.
pub fn running_on_valgrind(reply: usize) -> (running: bool)
    ensures
        running == (reply != 0),
{
    reply != 0
}

/// The request that switches counting on: number 0 of the tool `CG`.
pub fn start_instrumentation() -> (request: [usize; 6])
    ensures
        request@ == request_spec(request_code_spec(0x43, 0x47, 0)),
{
    let code = valgrind_request_code(0x43, 0x47, 0);
    let request: [usize; 6] = [code, 0, 0, 0, 0, 0];
    assert(request@ =~= request_spec(request_code_spec(0x43, 0x47, 0)));
    request
}

/// The request that switches counting off: number 1 of the tool `CG`.
pub fn stop_instrumentation() -> (request: [usize; 6])
    ensures
        request@ == request_spec(request_code_spec(0x43, 0x47, 1)),
{
    let code = valgrind_request_code(0x43, 0x47, 1);
    let request: [usize; 6] = [code, 0, 0, 0, 0, 0];
    assert(request@ =~= request_spec(request_code_spec(0x43, 0x47, 1)));
    request
}

/// The way into the simulator: hands it the six words of a request and
/// returns its reply. Outside the simulator a request does nothing and the
/// reply is zero.
pub trait Transport {
    fn request(&self, words: &[usize; 6]) -> usize;
}

/// The channel to the simulator that the process runs under: each signal
/// is one request handed to the transport.
pub struct ValgrindSignal<T: Transport> {
    pub transport: T,
    /// The signals handed to the transport so far, oldest first.
    pub handed: Ghost<Seq<Mark>>,
}

impl<T: Transport> ValgrindSignal<T> {
    /// A channel over `transport` that has signalled nothing yet.
    pub fn new(transport: T) -> (signal: ValgrindSignal<T>)
        ensures
            signal.transport == transport,
            signal.received() == Seq::<Mark>::empty(),
    {
        ValgrindSignal { transport, handed: Ghost(Seq::empty()) }
    }
}

impl<T: Transport> Signal for ValgrindSignal<T> {
    open spec fn received(&self) -> Seq<Mark> {
        self.handed@
    }

    #[inline(always)]
    fn begin(&mut self) {
        let request = start_instrumentation();
        self.transport.request(&request);
        self.handed = Ghost(self.handed@.push(Mark::Begin));
    }

    #[inline(always)]
    fn end(&mut self) {
        let request = stop_instrumentation();
        self.transport.request(&request);
        self.handed = Ghost(self.handed@.push(Mark::End));
    }

    #[inline(always)]
    fn active(&self) -> bool {
        let request = running_on_valgrind_request();
        running_on_valgrind(self.transport.request(&request))
    }
}

} // verus!
