//! Removes the ephemeral workers that are finished, too old or gone.
use crate::cadence::{fresh_gate, ticked, CadenceGate, GateState};
use vstd::prelude::*;

verus! {

/// Removes ephemeral workers.
pub struct EphemeralReapHandler {
    gate: CadenceGate,
}

impl EphemeralReapHandler {
    /// What its gate counts.
    pub closed spec fn gate(&self) -> GateState {
        self.gate@
    }

    /// A handler that runs on the first tick and on every `n`-th after it.
    pub fn new(every_n_ticks: u64) -> (h: Self)
        ensures
            h.gate() == fresh_gate(every_n_ticks),
    {
        EphemeralReapHandler { gate: CadenceGate::new(every_n_ticks) }
    }

    /// The name of the handler.
    pub fn name(&self) -> (r: &'static str)
        ensures
            r@ == "ephemeral_reap"@,
    {
        "ephemeral_reap"
    }

    /// One tick: whether it is time to run.
    pub fn due(&mut self) -> (r: bool)
        ensures
            ticked(old(self).gate(), final(self).gate(), r),
    {
        self.gate.fire()
    }
}

} // verus!
