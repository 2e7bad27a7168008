//! Records the tasks that were claimed although a dependency on another board is not
//! done.
use crate::cadence::{fresh_gate, ticked, CadenceGate, GateState};
use crate::events::{event, LogEvent};
use vstd::prelude::*;

verus! {

/// Records claims that rest on an undone dependency.
pub struct CrossBoardDepDetectiveHandler {
    gate: CadenceGate,
}

impl CrossBoardDepDetectiveHandler {
    /// What its gate counts.
    pub closed spec fn gate(&self) -> GateState {
        self.gate@
    }

    /// A handler that runs on the first tick and on every `n`-th after it.
    pub fn new(every_n_ticks: u64) -> (h: Self)
        ensures
            h.gate() == fresh_gate(every_n_ticks),
    {
        CrossBoardDepDetectiveHandler { gate: CadenceGate::new(every_n_ticks) }
    }

    /// The name of the handler.
    pub fn name(&self) -> (r: &'static str)
        ensures
            r@ == "cross_board_dep_detective"@,
    {
        "cross_board_dep_detective"
    }

    /// One tick: whether it is time to run.
    pub fn due(&mut self) -> (r: bool)
        ensures
            ticked(old(self).gate(), final(self).gate(), r),
    {
        self.gate.fire()
    }
}

/// The record of a claim that was released.
pub open spec fn released_record(e: LogEvent, task: Seq<char>) -> bool {
    e.says(
        "audit2_014_cross_board_claim_released"@,
        task,
        "cross-board dependency no longer Done — claim released back to open (self-healed a claim-time TOCTOU race, AUDIT2-014)"@,
    )
}

/// The record of a task in progress that was only flagged.
pub open spec fn flagged_record(e: LogEvent, task: Seq<char>) -> bool {
    e.says(
        "audit2_014_cross_board_dep_stale_in_progress"@,
        task,
        "in-progress task's cross-board dependency is no longer Done — flagged only, not auto-released (AUDIT2-014)"@,
    )
}

/// The records of a pass: one for each released claim, then one for each flagged
/// task.
pub fn records(released: &Vec<String>, flagged: &Vec<String>) -> (r: Vec<LogEvent>)
    ensures
        r@.len() == released@.len() + flagged@.len(),
        forall|i: int| 0 <= i < released@.len() ==> released_record(#[trigger] r@[i], released@[i]@),
        forall|i: int|
            released@.len() <= i < r@.len() ==> flagged_record(
                #[trigger] r@[i],
                flagged@[i - released@.len()]@,
            ),
{
    let mut r: Vec<LogEvent> = Vec::new();
    let mut i: usize = 0;
    while i < released.len()
        invariant
            i <= released@.len(),
            r@.len() == i,
            forall|k: int| 0 <= k < i ==> released_record(#[trigger] r@[k], released@[k]@),
        decreases released@.len() - i,
    {
        r.push(
            event(
                "audit2_014_cross_board_claim_released",
                released[i].as_str(),
                "cross-board dependency no longer Done — claim released back to open (self-healed a claim-time TOCTOU race, AUDIT2-014)",
            ),
        );
        i = i + 1;
    }
    let mut j: usize = 0;
    while j < flagged.len()
        invariant
            j <= flagged@.len(),
            r@.len() == released@.len() + j,
            forall|k: int| 0 <= k < released@.len() ==> released_record(#[trigger] r@[k], released@[k]@),
            forall|k: int|
                released@.len() <= k < r@.len() ==> flagged_record(
                    #[trigger] r@[k],
                    flagged@[k - released@.len()]@,
                ),
        decreases flagged@.len() - j,
    {
        r.push(
            event(
                "audit2_014_cross_board_dep_stale_in_progress",
                flagged[j].as_str(),
                "in-progress task's cross-board dependency is no longer Done — flagged only, not auto-released (AUDIT2-014)",
            ),
        );
        j = j + 1;
    }
    r
}

/// The record of a task is about that task and says what was done: a claim was released, or
/// the task was only flagged.
pub proof fn law_what_is_recorded_of_a_claim(e: LogEvent, task: Seq<char>)
    ensures
        released_record(e, task) ==> e.kind@ == "audit2_014_cross_board_claim_released"@
            && e.subject@ == task && e.detail@
            == "cross-board dependency no longer Done — claim released back to open (self-healed a claim-time TOCTOU race, AUDIT2-014)"@,
        flagged_record(e, task) ==> e.kind@ == "audit2_014_cross_board_dep_stale_in_progress"@
            && e.subject@ == task && e.detail@
            == "in-progress task's cross-board dependency is no longer Done — flagged only, not auto-released (AUDIT2-014)"@,
{
}

} // verus!
