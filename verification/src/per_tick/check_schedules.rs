//! Fires the schedules that are due, on every tick.
use vstd::prelude::*;

verus! {

/// Fires the schedules that are due, on every tick.
pub struct CheckSchedulesHandler;

impl CheckSchedulesHandler {
    pub fn new() -> (h: Self)
        ensures
            h == CheckSchedulesHandler,
    {
        CheckSchedulesHandler
    }

    /// The name of the handler.
    pub fn name(&self) -> (r: &'static str)
        ensures
            r@ == "check_schedules"@,
    {
        "check_schedules"
    }
}

} // verus!
