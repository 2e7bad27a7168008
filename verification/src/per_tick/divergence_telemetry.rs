//! Flushes the comparison of what the screen shows with what the hooks report.
use crate::cadence::{is_multiple_of, multiple_of, next_tick};
use vstd::prelude::*;

verus! {

/// The seconds from one tick to the next.
pub const TICK_SECS: u64 = 10;

/// Flushes the telemetry now and then.
pub struct DivergenceTelemetryHandler {
    flush_every: u64,
    counter: u64,
}

impl DivergenceTelemetryHandler {
    /// How many ticks a window has.
    pub closed spec fn window(&self) -> u64 {
        self.flush_every
    }

    /// The ticks that were counted.
    pub closed spec fn ticks(&self) -> u64 {
        self.counter
    }

    /// A handler that flushes every `flush_every` ticks, on every tick at most.
    pub fn new(flush_every: u64) -> (h: Self)
        requires
            flush_every <= u64::MAX / TICK_SECS,
        ensures
            h.window() == if flush_every == 0 {
                1
            } else {
                flush_every
            },
            h.ticks() == 0,
            h.window() <= u64::MAX / TICK_SECS,
    {
        let every: u64 = if flush_every == 0 {
            1
        } else {
            flush_every
        };
        DivergenceTelemetryHandler { flush_every: every, counter: 0 }
    }

    /// The name of the handler.
    pub fn name(&self) -> (r: &'static str)
        ensures
            r@ == "divergence_telemetry"@,
    {
        "divergence_telemetry"
    }

    /// How many ticks a window has.
    pub fn flush_every(&self) -> (r: u64)
        ensures
            r == self.window(),
    {
        self.flush_every
    }

    /// One tick: the seconds of the window to flush, where one is over. The first
    /// tick flushes nothing.
    pub fn run(&mut self) -> (r: Option<u64>)
        requires
            old(self).window() <= u64::MAX / TICK_SECS,
        ensures
            final(self).window() == old(self).window(),
            final(self).ticks() == next_tick(old(self).ticks()),
            r is Some <==> old(self).ticks() != 0 && multiple_of(old(self).ticks(), old(self).window()),
            r is Some ==> r->0 == old(self).window() * TICK_SECS,
    {
        let n: u64 = self.counter;
        self.counter = if n == u64::MAX {
            0
        } else {
            n + 1
        };
        if n != 0 && is_multiple_of(n, self.flush_every) {
            Some(self.flush_every * TICK_SECS)
        } else {
            None
        }
    }
}

} // verus!
