//! Escalates hangs of team orchestrators.
//!
//! An agent that hangs can be reported by its peers, unless it is the
//! orchestrator of its own team: then nobody can, and the operator is paged. The
//! agents are looked at once; everything after that works on what was seen.
use crate::positions::lemma_pushed;
use crate::text::{decimal, same, u64_text, views};
use vstd::prelude::*;

verus! {

/// How long an orchestrator has to hang before the operator is paged, in seconds.
pub const HUNG_ESCALATE_AFTER_SECS: u64 = 60;

/// What was seen of one agent.
pub struct HangSight {
    pub name: String,
    /// It hung before this look.
    pub was_hung: bool,
    /// It hangs now.
    pub now_hung: bool,
    /// This look found that out.
    pub just_detected: bool,
}

/// An agent that hangs.
pub struct HungAgent {
    pub name: String,
    /// An agent of its name began to hang with this look.
    pub newly: bool,
}

/// The agents that hang, and those that do not any more.
pub struct HangScan {
    pub hung: Vec<HungAgent>,
    pub left: Vec<String>,
}

/// What a list of hanging agents says.
pub open spec fn hung_views(s: Seq<HungAgent>) -> Seq<(Seq<char>, bool)> {
    s.map_values(|h: HungAgent| (h.name@, h.newly))
}

/// One of the agents with this name hangs, and this look found that out.
pub open spec fn newly_hung(seen: Seq<HangSight>, name: Seq<char>) -> bool {
    exists|i: int|
        0 <= i < seen.len() && (#[trigger] seen[i]).now_hung && seen[i].just_detected
            && seen[i].name@ == name
}

/// Those of a part of the agents that hang, in order; `seen` are all of them.
pub open spec fn hung_among(part: Seq<HangSight>, seen: Seq<HangSight>) -> Seq<(Seq<char>, bool)>
    decreases part.len(),
{
    if part.len() == 0 {
        Seq::empty()
    } else if part.last().now_hung {
        hung_among(part.drop_last(), seen).push(
            (part.last().name@, newly_hung(seen, part.last().name@)),
        )
    } else {
        hung_among(part.drop_last(), seen)
    }
}

/// The agents that hang, in order. Whether one newly hangs goes by its name.
pub open spec fn hung_in(seen: Seq<HangSight>) -> Seq<(Seq<char>, bool)> {
    hung_among(seen, seen)
}

/// The agents that have stopped hanging, in order.
pub open spec fn left_in(s: Seq<HangSight>) -> Seq<Seq<char>>
    decreases s.len(),
{
    if s.len() == 0 {
        Seq::empty()
    } else if s.last().was_hung && !s.last().now_hung {
        left_in(s.drop_last()).push(s.last().name@)
    } else {
        left_in(s.drop_last())
    }
}

/// Whether an agent is the orchestrator of its own team.
#[derive(Debug, Clone, Copy, PartialEq, Eq, Structural)]
pub enum SelfOrchStatus {
    Yes,
    No,
    /// The fleet could not be read; it counts as one.
    Unknown,
}

/// Decides whether an agent is the orchestrator of its own team. `fleet_readable`
/// says that the fleet could be read, a fleet that is not there being empty;
/// `orchestrator` is the one of the agent's team.
pub fn self_orch_status(fleet_readable: bool, orchestrator: Option<&str>, name: &str) -> (r:
    SelfOrchStatus)
    ensures
        r == (if !fleet_readable {
            SelfOrchStatus::Unknown
        } else if orchestrator is Some && orchestrator->0@ == name@ {
            SelfOrchStatus::Yes
        } else {
            SelfOrchStatus::No
        }),
{
    if !fleet_readable {
        return SelfOrchStatus::Unknown;
    }
    match orchestrator {
        Some(o) => if same(o, name) {
            SelfOrchStatus::Yes
        } else {
            SelfOrchStatus::No
        },
        None => SelfOrchStatus::No,
    }
}

/// Whether it is asked if a page is due: asking spends the page, so it is asked only
/// for an agent that may be the orchestrator of its own team.
pub fn asks_for_page(status: SelfOrchStatus) -> (r: bool)
    ensures
        r == (status != SelfOrchStatus::No),
{
    status != SelfOrchStatus::No
}

/// What is done about an agent that hangs.
#[derive(Debug, Clone, Copy, PartialEq, Eq, Structural)]
pub struct HangResponse {
    /// The operator is paged.
    pub notify: bool,
    /// What is known of the hang is written down.
    pub persist: bool,
}

/// What is done about an agent that hangs.
pub open spec fn response(status: SelfOrchStatus, newly: bool, due: bool) -> HangResponse {
    if status == SelfOrchStatus::No {
        HangResponse { notify: false, persist: false }
    } else {
        HangResponse { notify: due, persist: newly || due }
    }
}

/// Decides what is done about an agent that hangs. `due` says that it has hung
/// for long enough and the operator was not paged yet.
pub fn hang_response(status: SelfOrchStatus, newly: bool, due: bool) -> (r: HangResponse)
    ensures
        r == response(status, newly, due),
{
    if status == SelfOrchStatus::No {
        HangResponse { notify: false, persist: false }
    } else {
        HangResponse { notify: due, persist: newly || due }
    }
}

/// Whether the record of a hang is cleared when an agent has stopped hanging.
pub open spec fn clears_anchor(status: SelfOrchStatus, has_record: bool) -> bool {
    status != SelfOrchStatus::No && has_record
}

/// Decides whether the record of a hang is cleared when an agent has stopped
/// hanging.
pub fn clear_left_hung_anchor(status: SelfOrchStatus, has_record: bool) -> (r: bool)
    ensures
        r == clears_anchor(status, has_record),
{
    if status == SelfOrchStatus::No {
        return false;
    }
    has_record
}

/// The page to the operator.
pub open spec fn hung_text(name: Seq<char>) -> Seq<char> {
    "🛑 "@ + name + " (team orchestrator) has been HUNG ≥"@ + decimal(
        HUNG_ESCALATE_AFTER_SECS as nat,
    )
        + "s — no peer can relay this and the team is stalled until it recovers. Manual intervention likely (check the pane / interrupt / re-prime)."@
}

/// The page to the operator.
pub fn notify_self_orch_hung(name: &str) -> (r: String)
    ensures
        r@ == hung_text(name@),
{
    let secs = u64_text(HUNG_ESCALATE_AFTER_SECS);
    let mut s: String = String::from_str("🛑 ");
    s.append(name);
    s.append(" (team orchestrator) has been HUNG ≥");
    s.append(secs.as_str());
    s.append(
        "s — no peer can relay this and the team is stalled until it recovers. Manual intervention likely (check the pane / interrupt / re-prime).",
    );
    s
}

fn is_newly_hung(seen: &Vec<HangSight>, name: &str) -> (r: bool)
    ensures
        r == newly_hung(seen@, name@),
{
    let mut i: usize = 0;
    while i < seen.len()
        invariant
            i <= seen@.len(),
            forall|k: int|
                0 <= k < i ==> !((#[trigger] seen@[k]).now_hung && seen@[k].just_detected
                    && seen@[k].name@ == name@),
        decreases seen@.len() - i,
    {
        if seen[i].now_hung && seen[i].just_detected && same(seen[i].name.as_str(), name) {
            assert(seen@[i as int].name@ == name@);
            return true;
        }
        i = i + 1;
    }
    false
}

/// Watches for hangs.
pub struct HangDetectionHandler {}

impl HangDetectionHandler {
    pub fn new() -> (h: Self)
        ensures
            h == (HangDetectionHandler {  }),
    {
        HangDetectionHandler {  }
    }

    /// The name of the handler.
    pub fn name(&self) -> (r: &'static str)
        ensures
            r@ == "hang_detection"@,
    {
        "hang_detection"
    }

    /// Sorts what was seen of the agents.
    pub fn run(&self, seen: &Vec<HangSight>) -> (r: HangScan)
        ensures
            hung_views(r.hung@) == hung_in(seen@),
            views(r.left@) == left_in(seen@),
    {
        let mut hung: Vec<HungAgent> = Vec::new();
        let mut left: Vec<String> = Vec::new();
        let mut i: usize = 0;
        assert(hung_views(hung@) =~= hung_among(seen@.take(0), seen@));
        assert(views(left@) =~= left_in(seen@.take(0)));
        while i < seen.len()
            invariant
                i <= seen@.len(),
                hung_views(hung@) == hung_among(seen@.take(i as int), seen@),
                views(left@) == left_in(seen@.take(i as int)),
            decreases seen@.len() - i,
        {
            let s = &seen[i];
            assert(seen@.take(i + 1).drop_last() =~= seen@.take(i as int));
            let ghost hung_before = hung_views(hung@);
            let ghost left_before = views(left@);
            if s.now_hung {
                let newly: bool = is_newly_hung(seen, s.name.as_str());
                hung.push(HungAgent { name: s.name.clone(), newly });
                assert(hung_views(hung@) =~= hung_before.push((s.name@, newly)));
            } else if s.was_hung {
                left.push(s.name.clone());
                assert(views(left@) =~= left_before.push(s.name@));
            }
            i = i + 1;
        }
        assert(seen@.take(i as int) =~= seen@);
        HangScan { hung, left }
    }
}

/// Whether the fleet has to be read at all.
pub fn needs_fleet(scan: &HangScan) -> (r: bool)
    ensures
        r == (scan.hung@.len() > 0 || scan.left@.len() > 0),
{
    scan.hung.len() > 0 || scan.left.len() > 0
}

// ---------------------------------------------------------------------------
// Laws
// ---------------------------------------------------------------------------

/// The operator is never paged, and nothing is written, for an agent that is known
/// not to orchestrate its own team.
pub proof fn law_peers_report_the_others(newly: bool, due: bool, has_record: bool)
    ensures
        response(SelfOrchStatus::No, newly, due) == (HangResponse { notify: false, persist: false }),
        !clears_anchor(SelfOrchStatus::No, has_record),
{
}

/// A fleet that cannot be read hides no hang: the agent counts as an orchestrator.
pub proof fn law_unreadable_fleet_hides_no_hang(newly: bool, due: bool)
    ensures
        response(SelfOrchStatus::Unknown, newly, due) == response(SelfOrchStatus::Yes, newly, due),
{
}

/// A hang is written down when it begins and when the operator is paged, so that
/// neither is lost with the daemon.
pub proof fn law_a_hang_is_written_down(status: SelfOrchStatus, newly: bool, due: bool)
    requires
        status != SelfOrchStatus::No,
    ensures
        newly ==> response(status, newly, due).persist,
        response(status, newly, due).notify ==> response(status, newly, due).persist,
{
}

/// For an agent that orchestrates its own team, or may do so, the operator is paged
/// exactly when the page is due, whether the hang is new or not, and the hang is
/// written down when it is new or the page is due.
pub proof fn law_the_operator_is_paged_when_due(status: SelfOrchStatus, newly: bool, due: bool)
    requires
        status == SelfOrchStatus::Yes || status == SelfOrchStatus::Unknown,
    ensures
        response(status, newly, due).notify == due,
        response(status, newly, due).persist == (newly || due),
{
}

/// Every agent that hangs is listed once, in order and by its name, and nobody else;
/// it newly hangs exactly if this look found an agent of its name hanging. The law gives
/// their places.
pub proof fn law_every_hang_is_listed(part: Seq<HangSight>, seen: Seq<HangSight>) -> (at: Seq<int>)
    ensures
        at.len() == hung_among(part, seen).len(),
        forall|i: int, j: int| 0 <= i < j < at.len() ==> #[trigger] at[i] < #[trigger] at[j],
        forall|i: int|
            0 <= i < at.len() ==> ({
                &&& 0 <= #[trigger] at[i] < part.len()
                &&& hung_among(part, seen)[i].0 == part[at[i]].name@
                &&& hung_among(part, seen)[i].1 <==> exists|j: int|
                    0 <= j < seen.len() && (#[trigger] seen[j]).now_hung && seen[j].just_detected
                        && seen[j].name@ == part[at[i]].name@
            }),
        forall|k: int| 0 <= k < part.len() ==> (at.contains(k) <==> (#[trigger] part[k]).now_hung),
    decreases part.len(),
{
    if part.len() == 0 {
        Seq::empty()
    } else {
        let rest = part.drop_last();
        let n = part.len() - 1;
        let before = law_every_hang_is_listed(rest, seen);
        assert(forall|k: int| 0 <= k < n ==> rest[k] == #[trigger] part[k]);
        assert(!before.contains(n));
        if part.last().now_hung {
            let at = before.push(n);
            assert forall|k: int| 0 <= k < part.len() implies (at.contains(k) <==> (
            #[trigger] part[k]).now_hung) by {
                lemma_pushed(before, n, k);
            }
            at
        } else {
            before
        }
    }
}

/// Every agent that hung and does not any more is listed once, in order and by its
/// name, and nobody else. The law gives their places.
pub proof fn law_every_recovery_is_listed(seen: Seq<HangSight>) -> (at: Seq<int>)
    ensures
        at.len() == left_in(seen).len(),
        forall|i: int, j: int| 0 <= i < j < at.len() ==> #[trigger] at[i] < #[trigger] at[j],
        forall|i: int|
            0 <= i < at.len() ==> 0 <= #[trigger] at[i] < seen.len() && left_in(seen)[i]
                == seen[at[i]].name@,
        forall|k: int|
            0 <= k < seen.len() ==> (at.contains(k) <==> (#[trigger] seen[k]).was_hung
                && !seen[k].now_hung),
    decreases seen.len(),
{
    if seen.len() == 0 {
        Seq::empty()
    } else {
        let rest = seen.drop_last();
        let n = seen.len() - 1;
        let before = law_every_recovery_is_listed(rest);
        assert(forall|k: int| 0 <= k < n ==> rest[k] == #[trigger] seen[k]);
        assert(!before.contains(n));
        if seen.last().was_hung && !seen.last().now_hung {
            let at = before.push(n);
            assert forall|k: int| 0 <= k < seen.len() implies (at.contains(k) <==> (
            #[trigger] seen[k]).was_hung && !seen[k].now_hung) by {
                lemma_pushed(before, n, k);
            }
            at
        } else {
            before
        }
    }
}

/// The record of a hang is cleared exactly where there is one and the agent
/// orchestrates its own team, or may do so.
pub proof fn law_a_recovery_clears_the_record(status: SelfOrchStatus, has_record: bool)
    ensures
        clears_anchor(status, has_record) <==> has_record && (status == SelfOrchStatus::Yes
            || status == SelfOrchStatus::Unknown),
{
}

/// The page says that the agent has hung for a minute or longer.
pub proof fn law_what_the_page_says(name: Seq<char>)
    ensures
        hung_text(name) == "🛑 "@ + name + " (team orchestrator) has been HUNG ≥"@ + decimal(60)
            + "s — no peer can relay this and the team is stalled until it recovers. Manual intervention likely (check the pane / interrupt / re-prime)."@,
{
}

} // verus!
