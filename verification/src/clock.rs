//! The gravity clock: how long a piece rests on a row at each level, and the
//! repeating timer that tells when it has to fall.
//!
//! All times are whole nanoseconds.

use crate::progress::MAX_LEVEL;
use vstd::prelude::*;

verus! {

/// The time between two falls at level 0.
pub const BASE_TIME: u64 = 800_000_000;

/// The time between two falls at the highest level, and while the player
/// speeds the piece up.
pub const MIN_TIME: u64 = 100_000_000;

/// The time between two falls at `level`: from the base time at level 0 down
/// to the least time at the highest level, along the square of the level.
/// The quotient is rounded down to a whole nanosecond.
pub open spec fn interval(level: nat) -> int {
    BASE_TIME - ((BASE_TIME - MIN_TIME) * (level * level)) / ((MAX_LEVEL * MAX_LEVEL) as int)
}

/// The clock as a value.
pub struct Timing {
    pub period: nat,
    pub elapsed: nat,
}

impl Timing {
    /// The period is not zero.
    pub open spec fn wf(self) -> bool {
        self.period > 0
    }

    /// The clock with another period. The time that has run since the last
    /// fall stays as it is.
    pub open spec fn retimed(self, period: nat) -> Timing {
        Timing { period, ..self }
    }

    /// Whether at least one period ends while `delta` passes.
    pub open spec fn fires(self, delta: nat) -> bool {
        self.elapsed + delta >= self.period
    }

    /// The clock after `delta` has passed: the periods that have ended are
    /// taken off the time that has run.
    pub open spec fn ticked(self, delta: nat) -> Timing {
        Timing { elapsed: ((self.elapsed + delta) % self.period) as nat, ..self }
    }
}

/// A repeating timer.
#[derive(Clone, Copy, Debug)]
pub struct GravityClock {
    period: u64,
    elapsed: u64,
}

impl View for GravityClock {
    type V = Timing;

    closed spec fn view(&self) -> Timing {
        Timing { period: self.period as nat, elapsed: self.elapsed as nat }
    }
}

impl GravityClock {
    /// The period is not zero.
    pub open spec fn wf(&self) -> bool {
        self@.wf()
    }

    /// A clock with the period of level 0, on which no time has run.
    pub fn new() -> (clock: GravityClock)
        ensures
            clock.wf(),
            clock@ == (Timing { period: BASE_TIME as nat, elapsed: 0 }),
    {
        GravityClock { period: BASE_TIME, elapsed: 0 }
    }

    pub fn period(&self) -> (period: u64)
        ensures
            period == self@.period,
    {
        self.period
    }

    /// The time that has run since the last fall.
    pub fn elapsed(&self) -> (elapsed: u64)
        ensures
            elapsed == self@.elapsed,
    {
        self.elapsed
    }

    /// Gives the clock another period and keeps the time that has run.
    pub fn set_period(&mut self, period: u64)
        requires
            period > 0,
        ensures
            final(self).wf(),
            final(self)@ == old(self)@.retimed(period as nat),
    {
        self.period = period;
    }

    /// Lets `delta` pass. Returns whether a period has ended, which is when
    /// the piece has to fall; however many periods have ended, the answer is
    /// one fall.
    pub fn tick(&mut self, delta: u64) -> (fired: bool)
        requires
            old(self).wf(),
        ensures
            final(self).wf(),
            fired == old(self)@.fires(delta as nat),
            final(self)@ == old(self)@.ticked(delta as nat),
    {
        let total: u128 = self.elapsed as u128 + delta as u128;
        let period: u128 = self.period as u128;
        self.elapsed = (total % period) as u64;
        total >= period
    }
}

/// The time between two falls at `level`.
pub fn gravity_interval(level: usize) -> (time: u64)
    requires
        level <= MAX_LEVEL,
    ensures
        time == interval(level as nat),
        MIN_TIME <= time <= BASE_TIME,
{
    let step: u64 = level as u64;
    assert(step * step <= 841) by (nonlinear_arith)
        requires
            step <= 29,
    ;
    let square: u64 = step * step;
    assert(700_000_000 * square <= 700_000_000 * 841);
    let cut: u64 = (BASE_TIME - MIN_TIME) * square / 841;
    assert(cut <= 700_000_000);
    BASE_TIME - cut
}

/// The fall is slowest at level 0 and fastest at the highest level, and no
/// level is slower than a lower one.
pub proof fn lemma_interval_shrinks(low: nat, high: nat)
    requires
        low <= high <= MAX_LEVEL,
    ensures
        interval(0) == BASE_TIME,
        interval(MAX_LEVEL as nat) == MIN_TIME,
        MIN_TIME <= interval(high) <= interval(low) <= BASE_TIME,
{
    assert(low * low <= high * high && high * high <= 841 && 0 <= low * low) by (nonlinear_arith)
        requires
            low <= high <= 29,
    ;
    let a = 700_000_000 * (low * low);
    let b = 700_000_000 * (high * high);
    assert(0 <= a <= b <= 700_000_000 * 841);
    assert(a / 841 <= b / 841 <= 700_000_000 && 0 <= a / 841);
}

} // verus!
