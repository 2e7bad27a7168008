//! Retries the checkouts whose rollback got stuck.
use crate::cadence::{fresh_gate, ticked, CadenceGate, GateState};
use vstd::prelude::*;

verus! {

/// Retries stuck checkout rollbacks.
pub struct CheckoutTxnRecoverHandler {
    gate: CadenceGate,
}

impl CheckoutTxnRecoverHandler {
    /// What its gate counts.
    pub closed spec fn gate(&self) -> GateState {
        self.gate@
    }

    /// A handler that runs on the first tick and on every `n`-th after it.
    pub fn new(every_n_ticks: u64) -> (h: Self)
        ensures
            h.gate() == fresh_gate(every_n_ticks),
    {
        CheckoutTxnRecoverHandler { gate: CadenceGate::new(every_n_ticks) }
    }

    /// The name of the handler.
    pub fn name(&self) -> (r: &'static str)
        ensures
            r@ == "checkout_txn_recover"@,
    {
        "checkout_txn_recover"
    }

    /// One tick: whether it is time to run.
    pub fn due(&mut self) -> (r: bool)
        ensures
            ticked(old(self).gate(), final(self).gate(), r),
    {
        self.gate.fire()
    }
}

} // verus!
