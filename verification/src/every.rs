use vstd::prelude::*;

verus! {

/// Paces a periodic action on a millisecond clock: remembers the next
/// instant the action is due. The caller reads the clock, asks `call`
/// whether the action is due, and performs it when told so.
pub struct CallEvery<const PERIOD_MS: u64> {
    next_call: u64,
}

impl<const PERIOD_MS: u64> CallEvery<PERIOD_MS> {
    /// The clock instant, in milliseconds, at which the action is next due.
    pub closed spec fn next_due(self) -> u64 {
        self.next_call
    }

    fn period() -> (r: u64)
        ensures
            r == PERIOD_MS,
    {
        PERIOD_MS
    }

    pub fn new(now_ms: u64) -> (r: Self)
        requires
            now_ms + PERIOD_MS <= u64::MAX,
        ensures
            r.next_due() == now_ms + PERIOD_MS,
    {
        CallEvery { next_call: now_ms + Self::period() }
    }

    /// Whether the action is due at `now_ms`; when it is, the next due
    /// instant moves one period forward.
    pub fn call(&mut self, now_ms: u64) -> (due: bool)
        requires
            old(self).next_due() + PERIOD_MS <= u64::MAX,
        ensures
            due == (now_ms >= old(self).next_due()),
            due ==> final(self).next_due() == old(self).next_due() + PERIOD_MS,
            !due ==> final(self).next_due() == old(self).next_due(),
    {
        // if call is due
        if now_ms >= self.next_call {
            // schedule next call in a period
            self.next_call = self.next_call + Self::period();
            true
        } else {
            false
        }
    }

    /// The next due instant, for callers that must check the schedule can
    /// still move forward before asking `call`.
    pub fn next_due_ms(&self) -> (r: u64)
        ensures
            r == self.next_due(),
    {
        self.next_call
    }
}

} // verus!
