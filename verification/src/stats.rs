use vstd::prelude::*;

verus! {

/// Raw event counters of one simulated run.
#[derive(Clone, Copy, Debug, PartialEq, Eq, Structural)]
pub struct CachegrindStats {
    pub instruction_reads: u64,
    pub instruction_l1_misses: u64,
    pub instruction_cache_misses: u64,
    pub data_reads: u64,
    pub data_l1_read_misses: u64,
    pub data_cache_read_misses: u64,
    pub data_writes: u64,
    pub data_l1_write_misses: u64,
    pub data_cache_write_misses: u64,
}

/// Hits per memory tier, derived from the raw counters of one run.
#[derive(Clone, Copy, Debug, PartialEq, Eq, Structural)]
pub struct CachegrindSummary {
    pub l1_hits: u64,
    pub l3_hits: u64,
    pub ram_hits: u64,
}

/// Counters of the current run and, where one is known, of the run before it.
#[derive(Clone, Copy, Debug, PartialEq, Eq, Structural)]
pub struct Stats {
    pub new: CachegrindStats,
    pub old: Option<CachegrindStats>,
}

/// Difference of two counters that stops at zero.
pub open spec fn clamped_difference(a: u64, b: u64) -> u64 {
    if a >= b {
        (a - b) as u64
    } else {
        0
    }
}

impl CachegrindStats {
    /// The nine counters in their fixed order.
    pub open spec fn counters(self) -> Seq<u64> {
        seq![
            self.instruction_reads,
            self.instruction_l1_misses,
            self.instruction_cache_misses,
            self.data_reads,
            self.data_l1_read_misses,
            self.data_cache_read_misses,
            self.data_writes,
            self.data_l1_write_misses,
            self.data_cache_write_misses,
        ]
    }

    /// The record in which every counter is zero.
    pub open spec fn zero() -> CachegrindStats {
        CachegrindStats {
            instruction_reads: 0,
            instruction_l1_misses: 0,
            instruction_cache_misses: 0,
            data_reads: 0,
            data_l1_read_misses: 0,
            data_cache_read_misses: 0,
            data_writes: 0,
            data_l1_write_misses: 0,
            data_cache_write_misses: 0,
        }
    }

    /// Accesses that went all the way to main memory.
    pub open spec fn ram_accesses_spec(self) -> int {
        self.instruction_cache_misses + self.data_cache_read_misses + self.data_cache_write_misses
    }

    /// Accesses that missed the first level and reached the last-level cache.
    pub open spec fn l3_accesses_spec(self) -> int {
        self.instruction_l1_misses + self.data_l1_read_misses + self.data_l1_write_misses
    }

    /// Every instruction fetch, data read and data write.
    pub open spec fn total_memory_rw_spec(self) -> int {
        self.instruction_reads + self.data_reads + self.data_writes
    }

    /// The counters agree with each other: no tier was missed more often than
    /// it was reached, and the total fits in 64 bits.
    pub open spec fn consistent(self) -> bool {
        &&& self.ram_accesses_spec() <= self.l3_accesses_spec()
        &&& self.l3_accesses_spec() <= self.total_memory_rw_spec()
        &&& self.total_memory_rw_spec() <= u64::MAX
    }

    /// Hits per tier of a consistent record.
    pub open spec fn summarize_spec(self) -> CachegrindSummary
        recommends
            self.consistent(),
    {
        CachegrindSummary {
            l1_hits: (self.total_memory_rw_spec() - self.l3_accesses_spec()) as u64,
            l3_hits: (self.l3_accesses_spec() - self.ram_accesses_spec()) as u64,
            ram_hits: self.ram_accesses_spec() as u64,
        }
    }

    /// Counter by counter, `self` less `calibration`, stopping at zero.
    pub open spec fn subtract_spec(self, calibration: CachegrindStats) -> CachegrindStats {
        CachegrindStats {
            instruction_reads: clamped_difference(
                self.instruction_reads,
                calibration.instruction_reads,
            ),
            instruction_l1_misses: clamped_difference(
                self.instruction_l1_misses,
                calibration.instruction_l1_misses,
            ),
            instruction_cache_misses: clamped_difference(
                self.instruction_cache_misses,
                calibration.instruction_cache_misses,
            ),
            data_reads: clamped_difference(self.data_reads, calibration.data_reads),
            data_l1_read_misses: clamped_difference(
                self.data_l1_read_misses,
                calibration.data_l1_read_misses,
            ),
            data_cache_read_misses: clamped_difference(
                self.data_cache_read_misses,
                calibration.data_cache_read_misses,
            ),
            data_writes: clamped_difference(self.data_writes, calibration.data_writes),
            data_l1_write_misses: clamped_difference(
                self.data_l1_write_misses,
                calibration.data_l1_write_misses,
            ),
            data_cache_write_misses: clamped_difference(
                self.data_cache_write_misses,
                calibration.data_cache_write_misses,
            ),
        }
    }

    /// Says whether the counters are consistent, so that `summarize` may be called.
    pub fn is_consistent(&self) -> (ok: bool)
        ensures
            ok == self.consistent(),
    {
        let ram: u128 = self.instruction_cache_misses as u128 + self.data_cache_read_misses as u128
            + self.data_cache_write_misses as u128;
        let l3: u128 = self.instruction_l1_misses as u128 + self.data_l1_read_misses as u128
            + self.data_l1_write_misses as u128;
        let total: u128 = self.instruction_reads as u128 + self.data_reads as u128
            + self.data_writes as u128;
        ram <= l3 && l3 <= total && total <= u64::MAX as u128
    }

    /// Number of accesses served by main memory.
    pub fn ram_accesses(&self) -> (ram: u64)
        requires
            self.ram_accesses_spec() <= u64::MAX,
        ensures
            ram == self.ram_accesses_spec(),
    {
        self.instruction_cache_misses + self.data_cache_read_misses + self.data_cache_write_misses
    }

    /// Hits per memory tier. Together they account for every memory operation.
    pub fn summarize(&self) -> (summary: CachegrindSummary)
        requires
            self.consistent(),
        ensures
            summary == self.summarize_spec(),
            summary.ram_hits == self.ram_accesses_spec(),
            summary.l3_hits == self.l3_accesses_spec() - self.ram_accesses_spec(),
            summary.l1_hits == self.total_memory_rw_spec() - (summary.ram_hits
                + summary.l3_hits),
            summary.l1_hits + summary.l3_hits + summary.ram_hits == self.total_memory_rw_spec(),
    {
        let ram_hits = self.ram_accesses();
        let l3_accesses = self.instruction_l1_misses + self.data_l1_read_misses
            + self.data_l1_write_misses;
        let l3_hits = l3_accesses - ram_hits;

        let total_memory_rw = self.instruction_reads + self.data_reads + self.data_writes;
        let l1_hits = total_memory_rw - (ram_hits + l3_hits);

        CachegrindSummary { l1_hits, l3_hits, ram_hits }
    }

    /// Hits per memory tier, or `None` where the counters contradict each other.
    pub fn checked_summarize(&self) -> (summary: Option<CachegrindSummary>)
        ensures
            summary == (if self.consistent() {
                Some(self.summarize_spec())
            } else {
                None
            }),
    {
        if self.is_consistent() {
            Some(self.summarize())
        } else {
            None
        }
    }

    /// Removes the calibration run's share from every counter; a counter
    /// that would fall below zero stays at zero.
    pub fn subtract(&self, calibration: &CachegrindStats) -> (rest: CachegrindStats)
        ensures
            rest == self.subtract_spec(*calibration),
    {
        CachegrindStats {
            instruction_reads: self.instruction_reads.saturating_sub(
                calibration.instruction_reads,
            ),
            instruction_l1_misses: self.instruction_l1_misses.saturating_sub(
                calibration.instruction_l1_misses,
            ),
            instruction_cache_misses: self.instruction_cache_misses.saturating_sub(
                calibration.instruction_cache_misses,
            ),
            data_reads: self.data_reads.saturating_sub(calibration.data_reads),
            data_l1_read_misses: self.data_l1_read_misses.saturating_sub(
                calibration.data_l1_read_misses,
            ),
            data_cache_read_misses: self.data_cache_read_misses.saturating_sub(
                calibration.data_cache_read_misses,
            ),
            data_writes: self.data_writes.saturating_sub(calibration.data_writes),
            data_l1_write_misses: self.data_l1_write_misses.saturating_sub(
                calibration.data_l1_write_misses,
            ),
            data_cache_write_misses: self.data_cache_write_misses.saturating_sub(
                calibration.data_cache_write_misses,
            ),
        }
    }
}

impl CachegrindSummary {
    /// The weighted cycle estimate as a mathematical integer: one cycle for
    /// a first-level hit, five for a last-level hit, thirty-five for main memory.
    pub open spec fn cycles_spec(self) -> int {
        self.l1_hits + 5 * self.l3_hits + 35 * self.ram_hits
    }

    /// The weighted cycle estimate; the caller shows that it fits in 64 bits.
    pub fn cycles(&self) -> (estimate: u64)
        requires
            self.cycles_spec() <= u64::MAX,
        ensures
            estimate == self.cycles_spec(),
    {
        self.l1_hits + (5 * self.l3_hits) + (35 * self.ram_hits)
    }

    /// The weighted cycle estimate, or `None` where it exceeds 64 bits.
    pub fn checked_cycles(&self) -> (estimate: Option<u64>)
        ensures
            estimate == (if self.cycles_spec() <= u64::MAX {
                Some(self.cycles_spec() as u64)
            } else {
                None
            }),
    {
        let l1: u128 = self.l1_hits as u128;
        let l3: u128 = self.l3_hits as u128;
        let ram: u128 = self.ram_hits as u128;
        let wide: u128 = l1 + 5 * l3 + 35 * ram;
        if wide <= u64::MAX as u128 {
            Some(self.cycles())
        } else {
            None
        }
    }
}

impl Stats {
    /// Both sides less the baseline, which is the current run of the
    /// calibration record `other`. The old side stays where there is one,
    /// whatever the calibration's own old side is.
    pub open spec fn subtract_spec(self, other: Stats) -> Stats {
        Stats {
            new: self.new.subtract_spec(other.new),
            old: match self.old {
                Some(earlier) => Some(earlier.subtract_spec(other.new)),
                None => None,
            },
        }
    }

    /// Removes the one baseline of this invocation, the current run of the
    /// calibration record, from both sides of the record.
    pub fn subtract(&self, other: &Stats) -> (rest: Stats)
        ensures
            rest == self.subtract_spec(*other),
            rest.new == self.new.subtract_spec(other.new),
            rest.old == match self.old {
                Some(earlier) => Some(earlier.subtract_spec(other.new)),
                None => None,
            },
    {
        let new = self.new.subtract(&other.new);
        let old = match &self.old {
            Some(earlier) => Some(earlier.subtract(&other.new)),
            None => None,
        };
        Stats { new, old }
    }
}

/// Subtracting a record from itself leaves nothing.
pub proof fn lemma_subtract_self(a: CachegrindStats)
    ensures
        a.subtract_spec(a) == CachegrindStats::zero(),
        forall|i: int| 0 <= i < 9 ==> a.subtract_spec(a).counters()[i] == 0,
{
}

/// Where no counter of `b` exceeds that of `a`, adding `b` back to the
/// difference gives `a` again, counter by counter.
pub proof fn lemma_subtract_restores(a: CachegrindStats, b: CachegrindStats)
    requires
        forall|i: int| 0 <= i < 9 ==> b.counters()[i] <= a.counters()[i],
    ensures
        forall|i: int|
            0 <= i < 9 ==> a.subtract_spec(b).counters()[i] + b.counters()[i] == a.counters()[i],
{
    assert(b.counters()[0] <= a.counters()[0]);
    assert(b.counters()[1] <= a.counters()[1]);
    assert(b.counters()[2] <= a.counters()[2]);
    assert(b.counters()[3] <= a.counters()[3]);
    assert(b.counters()[4] <= a.counters()[4]);
    assert(b.counters()[5] <= a.counters()[5]);
    assert(b.counters()[6] <= a.counters()[6]);
    assert(b.counters()[7] <= a.counters()[7]);
    assert(b.counters()[8] <= a.counters()[8]);
}

/// A counter of `b` that exceeds that of `a` leaves exactly zero; every
/// other counter is the plain difference.
pub proof fn lemma_subtract_clamps(a: CachegrindStats, b: CachegrindStats, i: int)
    requires
        0 <= i < 9,
    ensures
        b.counters()[i] > a.counters()[i] ==> a.subtract_spec(b).counters()[i] == 0,
        b.counters()[i] <= a.counters()[i] ==> a.subtract_spec(b).counters()[i]
            == a.counters()[i] - b.counters()[i],
        a.subtract_spec(b).counters()[i] <= a.counters()[i],
{
}

/// The estimate never falls when any tier's hits grow.
pub proof fn lemma_cycles_monotone(a: CachegrindSummary, b: CachegrindSummary)
    requires
        a.l1_hits <= b.l1_hits,
        a.l3_hits <= b.l3_hits,
        a.ram_hits <= b.ram_hits,
    ensures
        a.cycles_spec() <= b.cycles_spec(),
{
}

/// One more hit costs 1 cycle at the first level, 5 at the last level and
/// 35 in main memory, so each slower tier weighs strictly more.
pub proof fn lemma_cycles_weights(s: CachegrindSummary)
    requires
        s.l1_hits < u64::MAX,
        s.l3_hits < u64::MAX,
        s.ram_hits < u64::MAX,
    ensures
        (CachegrindSummary { l1_hits: (s.l1_hits + 1) as u64, ..s }).cycles_spec()
            == s.cycles_spec() + 1,
        (CachegrindSummary { l3_hits: (s.l3_hits + 1) as u64, ..s }).cycles_spec()
            == s.cycles_spec() + 5,
        (CachegrindSummary { ram_hits: (s.ram_hits + 1) as u64, ..s }).cycles_spec()
            == s.cycles_spec() + 35,
{
}

} // verus!
