//! Polls the watched builds, on every tick.
use vstd::prelude::*;

verus! {

/// Polls the watched builds, on every tick.
pub struct CiWatchPollHandler;

impl CiWatchPollHandler {
    pub fn new() -> (h: Self)
        ensures
            h == CiWatchPollHandler,
    {
        CiWatchPollHandler
    }

    /// The name of the handler.
    pub fn name(&self) -> (r: &'static str)
        ensures
            r@ == "ci_watch_poll"@,
    {
        "ci_watch_poll"
    }
}

} // verus!
