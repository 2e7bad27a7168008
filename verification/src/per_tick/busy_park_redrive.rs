//! Drives the scan for dispatches that were parked while their target was busy.
use crate::cadence::{fresh_gate, ticked, CadenceGate, GateState};
use vstd::prelude::*;

verus! {

/// Drives the scan for parked dispatches.
pub struct BusyParkRedriveHandler {
    gate: CadenceGate,
}

impl BusyParkRedriveHandler {
    /// What its gate counts.
    pub closed spec fn gate(&self) -> GateState {
        self.gate@
    }

    /// A handler that runs on the first tick and on every `n`-th after it.
    pub fn new(every_n_ticks: u64) -> (h: Self)
        ensures
            h.gate() == fresh_gate(every_n_ticks),
    {
        BusyParkRedriveHandler { gate: CadenceGate::new(every_n_ticks) }
    }

    /// The name of the handler.
    pub fn name(&self) -> (r: &'static str)
        ensures
            r@ == "busy_park_redrive"@,
    {
        "busy_park_redrive"
    }

    /// One tick: whether it is time to run.
    pub fn due(&mut self) -> (r: bool)
        ensures
            ticked(old(self).gate(), final(self).gate(), r),
    {
        self.gate.fire()
    }
}

/// What one scan did.
#[derive(Debug, Clone, Copy, PartialEq, Eq, Structural)]
pub struct RedriveStats {
    pub scanned: u64,
    pub delivered: u64,
    pub reparked: u64,
    pub dropped: u64,
}

/// Whether a scan is worth a line in the log: it looked at something.
pub fn worth_logging(stats: &RedriveStats) -> (r: bool)
    ensures
        r == (stats.scanned > 0),
{
    stats.scanned > 0
}

} // verus!
