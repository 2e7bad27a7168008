//! Drives the verification of injected messages.
use crate::cadence::{is_multiple_of, multiple_of, next_tick};
use vstd::prelude::*;

verus! {

/// Drives the verification of injected messages.
pub struct InjectDeliveryHandler {
    every_n_ticks: u64,
    counter: u64,
}

impl InjectDeliveryHandler {
    /// How often it runs.
    pub closed spec fn every(&self) -> u64 {
        self.every_n_ticks
    }

    /// The ticks that were counted.
    pub closed spec fn ticks(&self) -> u64 {
        self.counter
    }

    pub fn new(every_n_ticks: u64) -> (h: Self)
        ensures
            h.every() == every_n_ticks,
            h.ticks() == 0,
    {
        InjectDeliveryHandler { every_n_ticks, counter: 0 }
    }

    /// The name of the handler.
    pub fn name(&self) -> (r: &'static str)
        ensures
            r@ == "inject_delivery"@,
    {
        "inject_delivery"
    }

    /// One tick: whether to verify now.
    pub fn should_fire(&mut self) -> (r: bool)
        ensures
            final(self).every() == old(self).every(),
            final(self).ticks() == next_tick(old(self).ticks()),
            r == multiple_of(old(self).ticks(), old(self).every()),
    {
        let n: u64 = self.counter;
        self.counter = if n == u64::MAX {
            0
        } else {
            n + 1
        };
        is_multiple_of(n, self.every_n_ticks)
    }
}

} // verus!
