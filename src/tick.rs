//! The tick source: evenly spaced pulses, with missed pulses coalesced.
use vstd::prelude::*;

verus! {

/// The first multiple of `period` after `elapsed` (capped at `u64::MAX`);
/// with a period of zero every poll is due.
pub open spec fn next_due_after(elapsed: int, period: int) -> int {
    if period == 0 {
        0
    } else if elapsed - elapsed % period + period > u64::MAX {
        u64::MAX as int
    } else {
        elapsed - elapsed % period + period
    }
}

/// Pulses every `period_ms` milliseconds, counted from the start of a run.
/// Polled late, it fires once and skips the pulses that were missed, so that
/// a slow consumer never sees several pulses back to back.
pub struct TickSource {
    period_ms: u64,
    next_due: u64,
}

impl TickSource {
    pub closed spec fn period(&self) -> nat {
        self.period_ms as nat
    }

    pub closed spec fn next_due(&self) -> nat {
        self.next_due as nat
    }

    /// A tick source for `frequency` pulses per second; the first pulse is
    /// due at once.
    pub fn new(frequency: u64) -> (r: TickSource)
        requires
            frequency > 0,
        ensures
            r.period() == 1000int / (frequency as int),
            r.next_due() == 0,
    {
        TickSource { period_ms: 1000 / frequency, next_due: 0 }
    }

    pub fn period_ms(&self) -> (r: u64)
        ensures
            r == self.period(),
    {
        self.period_ms
    }

    /// Whether a pulse is due `elapsed_ms` milliseconds after the start; if
    /// so, the next pulse is the first multiple of the period after it.
    pub fn poll(&mut self, elapsed_ms: u64) -> (fired: bool)
        ensures
            fired == (elapsed_ms >= old(self).next_due()),
            final(self).period() == old(self).period(),
            fired ==> final(self).next_due() == next_due_after(
                elapsed_ms as int,
                old(self).period() as int,
            ),
            !fired ==> final(self).next_due() == old(self).next_due(),
    {
        if elapsed_ms < self.next_due {
            return false;
        }
        let p = self.period_ms;
        if p == 0 {
            self.next_due = 0;
        } else {
            let rem = elapsed_ms % p;
            assert(rem <= elapsed_ms) by (nonlinear_arith)
                requires
                    rem == elapsed_ms % p,
                    p > 0,
            ;
            let next: u128 = (elapsed_ms - rem) as u128 + p as u128;
            if next > u64::MAX as u128 {
                self.next_due = u64::MAX;
            } else {
                self.next_due = next as u64;
            }
        }
        true
    }
}

} // verus!
