//! The upkeep of the inboxes, the tasks and the worktrees, in one batch.
use crate::cadence::{fresh_gate, ticked, CadenceGate, GateState};
use crate::events::{event, LogEvent};
use vstd::prelude::*;

verus! {

/// Runs the upkeep.
pub struct InboxMaintenanceHandler {
    gate: CadenceGate,
}

impl InboxMaintenanceHandler {
    /// What its gate counts.
    pub closed spec fn gate(&self) -> GateState {
        self.gate@
    }

    /// A handler that runs on the first tick and on every `n`-th after it.
    pub fn new(every_n_ticks: u64) -> (h: Self)
        ensures
            h.gate() == fresh_gate(every_n_ticks),
    {
        InboxMaintenanceHandler { gate: CadenceGate::new(every_n_ticks) }
    }

    /// The name of the handler.
    pub fn name(&self) -> (r: &'static str)
        ensures
            r@ == "inbox_maintenance"@,
    {
        "inbox_maintenance"
    }

    /// One tick: whether it is time to run.
    pub fn due(&mut self) -> (r: bool)
        ensures
            ticked(old(self).gate(), final(self).gate(), r),
    {
        self.gate.fire()
    }
}

/// One piece of the upkeep.
#[derive(Debug, Clone, Copy, PartialEq, Eq, Structural)]
pub enum UpkeepStep {
    SweepExpired,
    ReclaimStaleDelivering,
    CheckDiskSpace,
    TaskMaintenance,
    WorktreeCleanup,
}

/// The pieces of the upkeep, in the order in which they run.
pub open spec fn upkeep() -> Seq<UpkeepStep> {
    seq![
        UpkeepStep::SweepExpired,
        UpkeepStep::ReclaimStaleDelivering,
        UpkeepStep::CheckDiskSpace,
        UpkeepStep::TaskMaintenance,
        UpkeepStep::WorktreeCleanup,
    ]
}

/// The pieces of the upkeep, in the order in which they run.
pub fn upkeep_steps() -> (r: Vec<UpkeepStep>)
    ensures
        r@ == upkeep(),
{
    let mut r: Vec<UpkeepStep> = Vec::new();
    r.push(UpkeepStep::SweepExpired);
    r.push(UpkeepStep::ReclaimStaleDelivering);
    r.push(UpkeepStep::CheckDiskSpace);
    r.push(UpkeepStep::TaskMaintenance);
    r.push(UpkeepStep::WorktreeCleanup);
    assert(r@ =~= upkeep());
    r
}

/// The record of a worktree that was removed because its branch was merged.
pub fn worktree_removed_event(branch: &str, path: &str) -> (e: LogEvent)
    ensures
        e.says("worktree_auto_removed"@, branch@, "path="@ + path@ + ", branch merged into main"@),
{
    let mut detail = String::from_str("path=");
    detail.append(path);
    detail.append(", branch merged into main");
    event("worktree_auto_removed", branch, detail.as_str())
}

/// The upkeep takes each of its pieces once, and in this order.
pub proof fn law_the_upkeep_is_complete(step: UpkeepStep)
    ensures
        upkeep().contains(step),
        upkeep().no_duplicates(),
        upkeep() == seq![
            UpkeepStep::SweepExpired,
            UpkeepStep::ReclaimStaleDelivering,
            UpkeepStep::CheckDiskSpace,
            UpkeepStep::TaskMaintenance,
            UpkeepStep::WorktreeCleanup,
        ],
{
    let s = upkeep();
    assert(s[0] == UpkeepStep::SweepExpired && s[1] == UpkeepStep::ReclaimStaleDelivering && s[2]
        == UpkeepStep::CheckDiskSpace && s[3] == UpkeepStep::TaskMaintenance && s[4]
        == UpkeepStep::WorktreeCleanup);
}

} // verus!
