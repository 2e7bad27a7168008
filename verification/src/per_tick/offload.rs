//! Work that is handed to another thread, one round at a time.
use vstd::prelude::*;

verus! {

/// Whether a round of work is running elsewhere.
pub struct OffloadGuard {
    in_flight: bool,
}

impl OffloadGuard {
    /// A round is running.
    pub closed spec fn busy(&self) -> bool {
        self.in_flight
    }

    pub fn new() -> (g: Self)
        ensures
            !g.busy(),
    {
        OffloadGuard { in_flight: false }
    }

    /// Begins a round, unless one is running.
    pub fn begin(&mut self) -> (started: bool)
        ensures
            started == !old(self).busy(),
            final(self).busy(),
    {
        let started: bool = !self.in_flight;
        self.in_flight = true;
        started
    }

    /// The round is over, however it ended.
    pub fn finish(&mut self)
        ensures
            !final(self).busy(),
    {
        self.in_flight = false;
    }

    /// Whether a round is running.
    pub fn is_in_flight(&self) -> (r: bool)
        ensures
            r == self.busy(),
    {
        self.in_flight
    }
}

} // verus!
