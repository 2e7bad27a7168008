//! Watches whether the daemon's own binary was replaced after the daemon started.
use crate::cadence::{gate_next, Cadence, CadenceGate, GateState};
use vstd::prelude::*;

verus! {

/// A scan runs once per this many ticks.
pub const TICKS_PER_REGISTRY_SCAN: u64 = 30;

/// Whether the binary counts as replaced after a scan: once it does, it always
/// does. `binary_mtime` is when the binary was last written, where that is known.
pub open spec fn stale_after(stale: bool, binary_mtime: Option<u64>, started_at: u64) -> bool {
    stale || (binary_mtime is Some && binary_mtime->0 > started_at)
}

/// Scans once. Times are nanoseconds of the wall clock.
pub fn scan_and_set_flag(binary_mtime: Option<u64>, started_at: u64, binary_stale: &mut bool)
    ensures
        *final(binary_stale) == stale_after(*old(binary_stale), binary_mtime, started_at),
{
    match binary_mtime {
        None => {},
        Some(mtime) => {
            if mtime > started_at {
                *binary_stale = true;
            }
        },
    }
}

/// Scans at its cadence.
pub struct McpRegistryWatcherTracker {
    gate: CadenceGate,
    started_at: u64,
}

impl McpRegistryWatcherTracker {
    /// What its gate counts.
    pub closed spec fn gate(&self) -> GateState {
        self.gate@
    }

    /// When the daemon started.
    pub closed spec fn started_at(&self) -> u64 {
        self.started_at
    }

    /// A tracker for a daemon that started at `started_at`.
    pub fn new(started_at: u64) -> (t: Self)
        ensures
            t.started_at() == started_at,
            t.gate() == (GateState {
                cadence: Cadence::EveryNth,
                every: TICKS_PER_REGISTRY_SCAN,
                counter: 0,
                grace_ms: 0,
            }),
    {
        McpRegistryWatcherTracker {
            gate: CadenceGate::new_interval(TICKS_PER_REGISTRY_SCAN),
            started_at,
        }
    }

    /// One tick: scans if it is time, and says whether it was. `binary_mtime` is
    /// when the binary was last written, where that is known.
    pub fn maybe_scan(&mut self, binary_mtime: Option<u64>, binary_stale: &mut bool) -> (scanned:
        bool)
        requires
            old(self).gate().grace_ms == 0,
        ensures
            (final(self).gate(), scanned) == gate_next(old(self).gate(), 0),
            final(self).started_at() == old(self).started_at(),
            *final(binary_stale) == (if scanned {
                stale_after(*old(binary_stale), binary_mtime, old(self).started_at())
            } else {
                *old(binary_stale)
            }),
    {
        if !self.gate.fire() {
            return false;
        }
        scan_and_set_flag(binary_mtime, self.started_at, binary_stale);
        true
    }
}

/// Nothing that a later scan sees clears the flag.
pub proof fn law_stale_is_sticky(binary_mtime: Option<u64>, started_at: u64)
    ensures
        stale_after(true, binary_mtime, started_at),
{
}

/// A binary that cannot be read, or is no newer than the daemon, sets no flag.
pub proof fn law_fresh_binary_sets_nothing(binary_mtime: Option<u64>, started_at: u64)
    requires
        binary_mtime is Some ==> binary_mtime->0 <= started_at,
    ensures
        !stale_after(false, binary_mtime, started_at),
{
}

/// A scan finds the binary replaced exactly if it was found so before or was written after
/// the daemon started; a scan is due once in thirty ticks.
pub proof fn law_when_a_binary_counts_as_replaced(
    stale: bool,
    binary_mtime: Option<u64>,
    started_at: u64,
)
    ensures
        stale_after(stale, binary_mtime, started_at) <==> stale || (binary_mtime is Some
            && started_at < binary_mtime->0),
        TICKS_PER_REGISTRY_SCAN == 30,
{
}

} // verus!
