//! Tells the orchestrator when the first message to a freshly started agent was
//! accepted but never confirmed, and when a late confirmation settles that.
use crate::cadence::{fresh_gate, ticked, CadenceGate, GateState};
use crate::dates::{date_text, millis, moment_date, moment_millis, within_dates, Moment};
use crate::events::{notice, Notice};
use crate::text::{i64_text, opt_view, same, signed_decimal, u64_text, decimal};
use vstd::prelude::*;

verus! {

/// Where an observation comes from.
#[derive(Debug, Clone, Copy, PartialEq, Eq, Structural)]
pub enum Authority {
    Hook,
    Screen,
    Inferred,
}

/// What an agent was seen to do.
#[derive(Debug, Clone, Copy, PartialEq, Eq, Structural)]
pub enum ObservedState {
    Active,
    Thinking,
    ToolUse,
    Responding,
    /// Anything in which no turn is open.
    Other,
}

/// What was last seen of an agent.
#[derive(Debug, Clone, Copy, PartialEq, Eq, Structural)]
pub struct ObservedStatus {
    pub state: ObservedState,
    pub authority: Authority,
    /// Since when, in milliseconds since 1970.
    pub since_ms: u64,
}

/// What is known of a running agent.
#[derive(Debug, Clone, Copy, PartialEq, Eq, Structural)]
pub struct AgentEvidence {
    pub observed: Option<ObservedStatus>,
    /// When it was started, in milliseconds since 1970; zero where that is unknown.
    pub spawned_at_epoch_ms: u64,
}

/// A turn that was seen after the message was accepted.
#[derive(Debug, Clone, Copy, PartialEq, Eq, Structural)]
pub struct TurnObservation {
    pub after_accept_secs: i64,
}

/// A state in which a turn is open.
pub open spec fn turn_open(s: ObservedState) -> bool {
    s == ObservedState::Active || s == ObservedState::Thinking || s == ObservedState::ToolUse || s
        == ObservedState::Responding
}

/// The turn that the agent's own hooks reported at or after the moment.
pub open spec fn turn_after(evidence: Option<AgentEvidence>, accepted_at: Moment) -> Option<int> {
    match evidence {
        Some(e) => match e.observed {
            Some(o) => if o.authority == Authority::Hook && turn_open(o.state) && o.since_ms <= i64::MAX
                && o.since_ms >= millis(accepted_at) {
                Some((o.since_ms - millis(accepted_at)) / 1000)
            } else {
                None
            },
            None => None,
        },
        None => None,
    }
}

/// The turn that the agent's own hooks reported at or after the moment. What the
/// screen shows is no turn.
pub fn turn_since(evidence: &Option<AgentEvidence>, accepted_at: Moment) -> (r: Option<TurnObservation>)
    requires
        within_dates(accepted_at),
    ensures
        match turn_after(*evidence, accepted_at) {
            Some(secs) => r is Some && (r->0).after_accept_secs == secs,
            None => r is None,
        },
{
    let e = match evidence {
        Some(e) => e,
        None => return None,
    };
    let status = match e.observed {
        Some(o) => o,
        None => return None,
    };
    if status.authority != Authority::Hook {
        return None;
    }
    match status.state {
        ObservedState::Other => return None,
        _ => {},
    }
    if status.since_ms > i64::MAX as u64 {
        return None;
    }
    let since_ms: i128 = status.since_ms as i128;
    let accepted_ms: i128 = moment_millis(accepted_at) as i128;
    if since_ms < accepted_ms {
        return None;
    }
    let secs: i64 = ((since_ms - accepted_ms) / 1000) as i64;
    Some(TurnObservation { after_accept_secs: secs })
}

/// The seconds from the start of the agent to the moment, where that start is known
/// and came first.
pub open spec fn spawn_delta(evidence: Option<AgentEvidence>, accepted_at: Moment) -> Option<int> {
    match evidence {
        Some(e) => if 0 < e.spawned_at_epoch_ms <= i64::MAX && millis(accepted_at)
            >= e.spawned_at_epoch_ms {
            Some((millis(accepted_at) - e.spawned_at_epoch_ms) / 1000)
        } else {
            None
        },
        None => None,
    }
}

/// The seconds from the start of the agent to the moment. An agent that was started
/// later is not the one that the message was for.
pub fn spawn_delta_secs(evidence: &Option<AgentEvidence>, accepted_at: Moment) -> (r: Option<i64>)
    requires
        within_dates(accepted_at),
    ensures
        match spawn_delta(*evidence, accepted_at) {
            Some(secs) => r is Some && r->0 == secs,
            None => r is None,
        },
{
    match evidence {
        Some(e) => {
            if e.spawned_at_epoch_ms == 0 || e.spawned_at_epoch_ms > i64::MAX as u64 {
                return None;
            }
            let spawned: i64 = e.spawned_at_epoch_ms as i64;
            let accepted: i64 = moment_millis(accepted_at);
            if accepted < spawned {
                return None;
            }
            Some((accepted - spawned) / 1000)
        },
        None => None,
    }
}

/// How long ago the agent was started, where that can be said.
pub open spec fn spawn_clause(delta: Option<i64>) -> Seq<char> {
    match delta {
        Some(d) => " (+"@ + signed_decimal(d as int) + "s after spawn)"@,
        None => ""@,
    }
}

/// Which of the two failures it is.
pub open spec fn classification(turn: Option<TurnObservation>) -> Seq<char> {
    match turn {
        None => "No turn was observed since the kick — the resume most likely never became a session turn (delivery accepted ≠ consumed)"@,
        Some(t) => "A turn was observed at +"@ + signed_decimal(t.after_accept_secs as int)
            + "s but no ack_start followed within the window — the agent is late or did not follow the ack protocol; it may still be recovering"@,
    }
}

/// The notice that no confirmation came in time.
pub open spec fn overdue_text(
    agent: Seq<char>,
    delivery_id: Seq<char>,
    accepted: Seq<char>,
    delta: Option<i64>,
    turn: Option<TurnObservation>,
    window_secs: u64,
) -> Seq<char> {
    "[claude_self_kick] agent '"@ + agent + "' fresh-restart resume NOT confirmed: delivery "@
        + delivery_id + " was accepted by the channel bridge at "@ + accepted + spawn_clause(delta)
        + " but no ack_start arrived within "@ + decimal(window_secs as nat) + " s. "@
        + classification(turn)
        + ". Action: check the agent — if it is idle at a fresh prompt with no recovery in progress, send it a query or restart_instance(mode=fresh) again; its board/inbox state is intact. Late acks are reconciled automatically (you will get a follow-up notice)."@
}

/// The notice that no confirmation came in time; `accepted` is the date of the
/// acceptance.
pub fn overdue_notice_text(
    agent: &str,
    delivery_id: &str,
    accepted: &str,
    delta: Option<i64>,
    turn: Option<TurnObservation>,
    window_secs: u64,
) -> (r: String)
    ensures
        r@ == overdue_text(agent@, delivery_id@, accepted@, delta, turn, window_secs),
{
    let spawn = match delta {
        Some(d) => {
            let mut s = String::from_str(" (+");
            s.append(i64_text(d).as_str());
            s.append("s after spawn)");
            s
        },
        None => String::from_str(""),
    };
    let class = match turn {
        None => String::from_str(
            "No turn was observed since the kick — the resume most likely never became a session turn (delivery accepted ≠ consumed)",
        ),
        Some(t) => {
            let mut s = String::from_str("A turn was observed at +");
            s.append(i64_text(t.after_accept_secs).as_str());
            s.append(
                "s but no ack_start followed within the window — the agent is late or did not follow the ack protocol; it may still be recovering",
            );
            s
        },
    };
    let mut r = String::from_str("[claude_self_kick] agent '");
    r.append(agent);
    r.append("' fresh-restart resume NOT confirmed: delivery ");
    r.append(delivery_id);
    r.append(" was accepted by the channel bridge at ");
    r.append(accepted);
    r.append(spawn.as_str());
    r.append(" but no ack_start arrived within ");
    r.append(u64_text(window_secs).as_str());
    r.append(" s. ");
    r.append(class.as_str());
    r.append(
        ". Action: check the agent — if it is idle at a fresh prompt with no recovery in progress, send it a query or restart_instance(mode=fresh) again; its board/inbox state is intact. Late acks are reconciled automatically (you will get a follow-up notice).",
    );
    r
}

/// The notice that the confirmation came late.
pub open spec fn late_text(agent: Seq<char>, delivery_id: Seq<char>, late_by_secs: i64) -> Seq<char> {
    "[claude_self_kick] agent '"@ + agent + "' resume ack arrived late (+"@ + signed_decimal(
        late_by_secs as int,
    ) + "s after the window) for delivery "@ + delivery_id
        + " — the earlier AckOverdue is resolved; no action needed."@
}

/// The notice that the confirmation came late.
pub fn late_notice_text(agent: &str, delivery_id: &str, late_by_secs: i64) -> (r: String)
    ensures
        r@ == late_text(agent@, delivery_id@, late_by_secs),
{
    let mut r = String::from_str("[claude_self_kick] agent '");
    r.append(agent);
    r.append("' resume ack arrived late (+");
    r.append(i64_text(late_by_secs).as_str());
    r.append("s after the window) for delivery ");
    r.append(delivery_id);
    r.append(" — the earlier AckOverdue is resolved; no action needed.");
    r
}

/// What became of a message.
#[derive(Debug, Clone, Copy, PartialEq, Eq, Structural)]
pub enum SelfKickOutcomeKind {
    AckOverdue { turn: Option<TurnObservation> },
    AckLate { late_by_secs: i64 },
}

/// What became of one message.
pub struct SelfKickOutcome {
    pub delivery_id: String,
    /// When it was accepted, or when the late confirmation came.
    pub at: Moment,
    pub kind: SelfKickOutcomeKind,
}

/// The two states that the health of an agent shows.
#[derive(Debug, Clone, Copy, PartialEq, Eq, Structural)]
pub enum SelfKickState {
    AckOverdue,
    TurnStartedLate,
}

impl SelfKickState {
    pub open spec fn text(self) -> Seq<char> {
        match self {
            SelfKickState::AckOverdue => "ack_overdue"@,
            SelfKickState::TurnStartedLate => "turn_started_late"@,
        }
    }

    pub fn as_str(self) -> (r: &'static str)
        ensures
            r@ == self.text(),
    {
        match self {
            SelfKickState::AckOverdue => "ack_overdue",
            SelfKickState::TurnStartedLate => "turn_started_late",
        }
    }
}

/// What is said of one message, and what the health of the agent then shows.
pub struct Announcement {
    pub notice: Notice,
    pub state: SelfKickState,
    pub turn_observed: bool,
}

/// What is said of a message that was accepted on the given date.
pub open spec fn announces(
    a: Announcement,
    agent: Seq<char>,
    recipient: Seq<char>,
    evidence: Option<AgentEvidence>,
    outcome: SelfKickOutcome,
    window_secs: u64,
    accepted: Seq<char>,
) -> bool {
    match outcome.kind {
        SelfKickOutcomeKind::AckOverdue { turn } => {
            &&& a.notice.says(
                recipient,
                "system:claude_self_kick"@,
                "claude_self_kick_ack_overdue"@,
                overdue_text(
                    agent,
                    outcome.delivery_id@,
                    accepted,
                    match spawn_delta(evidence, outcome.at) {
                        Some(d) => Some(d as i64),
                        None => None,
                    },
                    turn,
                    window_secs,
                ),
                agent,
            )
            &&& a.state == SelfKickState::AckOverdue
            &&& a.turn_observed == (turn is Some)
        },
        SelfKickOutcomeKind::AckLate { late_by_secs } => {
            &&& a.notice.says(
                recipient,
                "system:claude_self_kick"@,
                "claude_self_kick_ack_late"@,
                late_text(agent, outcome.delivery_id@, late_by_secs),
                agent,
            )
            &&& a.state == SelfKickState::TurnStartedLate
            &&& a.turn_observed
        },
    }
}

/// What is said of one message, given the date of its moment. The recipient may be
/// the agent itself: an orchestrator that was restarted has no other inbox.
pub fn announce_on(
    agent: &str,
    recipient: &str,
    evidence: &Option<AgentEvidence>,
    outcome: &SelfKickOutcome,
    window_secs: u64,
    accepted: &str,
) -> (r: Announcement)
    requires
        within_dates(outcome.at),
    ensures
        announces(r, agent@, recipient@, *evidence, *outcome, window_secs, accepted@),
{
    match outcome.kind {
        SelfKickOutcomeKind::AckOverdue { turn } => {
            let delta = spawn_delta_secs(evidence, outcome.at);
            let text = overdue_notice_text(
                agent,
                outcome.delivery_id.as_str(),
                accepted,
                delta,
                turn,
                window_secs,
            );
            Announcement {
                notice: notice(
                    recipient,
                    "system:claude_self_kick",
                    "claude_self_kick_ack_overdue",
                    text.as_str(),
                    agent,
                ),
                state: SelfKickState::AckOverdue,
                turn_observed: turn.is_some(),
            }
        },
        SelfKickOutcomeKind::AckLate { late_by_secs } => {
            let text = late_notice_text(agent, outcome.delivery_id.as_str(), late_by_secs);
            Announcement {
                notice: notice(
                    recipient,
                    "system:claude_self_kick",
                    "claude_self_kick_ack_late",
                    text.as_str(),
                    agent,
                ),
                state: SelfKickState::TurnStartedLate,
                turn_observed: true,
            }
        },
    }
}

/// What is said of one message; nothing only where its moment is no date.
pub fn announce(
    agent: &str,
    recipient: &str,
    evidence: &Option<AgentEvidence>,
    outcome: &SelfKickOutcome,
    window_secs: u64,
) -> (r: Option<Announcement>)
    requires
        within_dates(outcome.at),
    ensures
        match moment_date(outcome.at.secs, outcome.at.nanos) {
            Some(accepted) => r is Some && announces(
                r->0,
                agent@,
                recipient@,
                *evidence,
                *outcome,
                window_secs,
                accepted,
            ),
            None => r is None,
        },
{
    match date_text(outcome.at) {
        Some(accepted) => Some(
            announce_on(agent, recipient, evidence, outcome, window_secs, accepted.as_str()),
        ),
        None => None,
    }
}

/// What the health of an agent shows of its last message.
pub struct SelfKickEvidence {
    pub delivery_id: String,
    pub accepted_at: Moment,
    pub state: SelfKickState,
    pub turn_observed_since_kick: bool,
    pub at: Moment,
}

/// What the health of an agent shows after an announcement that was made `now`: the
/// acceptance is that of the same message, where one was noted before.
pub fn record_evidence(
    last: &Option<SelfKickEvidence>,
    delivery_id: &str,
    state: SelfKickState,
    turn_observed_since_kick: bool,
    at: Moment,
    now: Moment,
) -> (r: SelfKickEvidence)
    ensures
        r.delivery_id@ == delivery_id@,
        r.accepted_at == (match *last {
            Some(prev) => if prev.delivery_id@ == delivery_id@ {
                prev.accepted_at
            } else {
                at
            },
            None => at,
        }),
        r.state == state,
        r.turn_observed_since_kick == turn_observed_since_kick,
        r.at == now,
{
    let accepted_at = match last {
        Some(prev) => if same(prev.delivery_id.as_str(), delivery_id) {
            prev.accepted_at
        } else {
            at
        },
        None => at,
    };
    SelfKickEvidence {
        delivery_id: String::from_str(delivery_id),
        accepted_at,
        state,
        turn_observed_since_kick,
        at: now,
    }
}

/// Whom to tell: the orchestrator of the team, or the fallback.
pub fn recipient_for(orchestrator: &Option<String>) -> (r: String)
    ensures
        r@ == (match opt_view(*orchestrator) {
            Some(o) => o,
            None => "general"@,
        }),
{
    match orchestrator {
        Some(o) => o.clone(),
        None => String::from_str("general"),
    }
}

pub struct ClaudeSelfKickHandler {
    gate: CadenceGate,
}

impl ClaudeSelfKickHandler {
    pub closed spec fn gate(&self) -> GateState {
        self.gate@
    }

    pub fn new(every_n_ticks: u64) -> (h: Self)
        ensures
            h.gate() == fresh_gate(every_n_ticks),
    {
        ClaudeSelfKickHandler { gate: CadenceGate::new(every_n_ticks) }
    }

    pub fn name(&self) -> (r: &'static str)
        ensures
            r@ == "claude_self_kick"@,
    {
        "claude_self_kick"
    }

    /// One tick: whether it is time to run.
    pub fn due(&mut self) -> (r: bool)
        ensures
            ticked(old(self).gate(), final(self).gate(), r),
    {
        self.gate.fire()
    }
}

// ---------------------------------------------------------------------------
// Laws
// ---------------------------------------------------------------------------

/// What the screen shows, or what was inferred, is never a turn.
pub proof fn law_only_hooks_prove_a_turn(e: AgentEvidence, o: ObservedStatus, accepted_at: Moment)
    requires
        e.observed == Some(o),
        o.authority != Authority::Hook,
    ensures
        turn_after(Some(e), accepted_at) is None,
{
}

/// An agent that was started after the acceptance is not spoken of.
pub proof fn law_a_later_start_is_not_named(e: AgentEvidence, accepted_at: Moment)
    requires
        millis(accepted_at) < e.spawned_at_epoch_ms,
    ensures
        spawn_delta(Some(e), accepted_at) is None,
{
}

/// A turn counts exactly if the agent's own hooks report an open one that began when the
/// message was accepted or later; it is told by the whole seconds between the two.
pub proof fn law_what_counts_as_a_turn(e: AgentEvidence, accepted_at: Moment)
    ensures
        ({
            let o = e.observed->0;
            let turn = turn_after(Some(e), accepted_at);
            &&& turn is Some <==> e.observed is Some && o.authority == Authority::Hook && o.state
                != ObservedState::Other && o.since_ms <= i64::MAX && o.since_ms >= millis(
                accepted_at,
            )
            &&& turn is Some ==> 1000 * turn->0 <= o.since_ms - millis(accepted_at) < 1000 * (
            turn->0 + 1)
        }),
        turn_after(None, accepted_at) is None,
{
}

/// The start of an agent is told by the whole seconds from it to the acceptance, exactly
/// where it is known and came first.
pub proof fn law_what_is_told_of_a_start(e: AgentEvidence, accepted_at: Moment)
    ensures
        ({
            let delta = spawn_delta(Some(e), accepted_at);
            let spawned = e.spawned_at_epoch_ms;
            &&& delta is Some <==> 0 < spawned <= i64::MAX && spawned <= millis(accepted_at)
            &&& delta is Some ==> 1000 * delta->0 <= millis(accepted_at) - spawned < 1000 * (delta->0
                + 1)
        }),
        spawn_delta(None, accepted_at) is None,
{
}

/// The notice of a missing confirmation goes to the recipient and names the agent, the
/// message, when it was accepted, the start and the turn; that of a late one names by how
/// much it is late. Each sets the state that the health of the agent shows.
pub proof fn law_what_is_announced(
    a: Announcement,
    agent: Seq<char>,
    recipient: Seq<char>,
    evidence: Option<AgentEvidence>,
    outcome: SelfKickOutcome,
    window_secs: u64,
    accepted: Seq<char>,
)
    requires
        announces(a, agent, recipient, evidence, outcome, window_secs, accepted),
    ensures
        a.notice.message.to@ == recipient,
        a.notice.message.source@ == "system:claude_self_kick"@,
        a.notice.about@ == agent,
        outcome.kind is AckOverdue ==> {
            let turn = outcome.kind->turn;
            let delta = spawn_delta(evidence, outcome.at);
            &&& a.notice.message.kind@ == "claude_self_kick_ack_overdue"@
            &&& a.state == SelfKickState::AckOverdue
            &&& a.turn_observed == (turn is Some)
            &&& a.notice.message.text@ == overdue_text(
                agent,
                outcome.delivery_id@,
                accepted,
                if delta is Some {
                    Some(delta->0 as i64)
                } else {
                    None
                },
                turn,
                window_secs,
            )
        },
        outcome.kind is AckLate ==> {
            &&& a.notice.message.kind@ == "claude_self_kick_ack_late"@
            &&& a.state == SelfKickState::TurnStartedLate
            &&& a.turn_observed
            &&& a.notice.message.text@ == "[claude_self_kick] agent '"@ + agent
                + "' resume ack arrived late (+"@ + signed_decimal(
                outcome.kind->late_by_secs as int,
            ) + "s after the window) for delivery "@ + outcome.delivery_id@
                + " — the earlier AckOverdue is resolved; no action needed."@
        },
{
}

/// The text of a missing confirmation tells the start only where it is known, and which of
/// the two failures it is.
pub proof fn law_what_a_missing_confirmation_says(
    agent: Seq<char>,
    delivery_id: Seq<char>,
    accepted: Seq<char>,
    delta: Option<i64>,
    turn: Option<TurnObservation>,
    window_secs: u64,
)
    ensures
        overdue_text(agent, delivery_id, accepted, delta, turn, window_secs)
            == "[claude_self_kick] agent '"@ + agent
            + "' fresh-restart resume NOT confirmed: delivery "@ + delivery_id
            + " was accepted by the channel bridge at "@ + accepted + (if delta is Some {
            " (+"@ + signed_decimal(delta->0 as int) + "s after spawn)"@
        } else {
            ""@
        }) + " but no ack_start arrived within "@ + decimal(window_secs as nat) + " s. "@ + (
        if turn is Some {
            "A turn was observed at +"@ + signed_decimal((turn->0).after_accept_secs as int)
                + "s but no ack_start followed within the window — the agent is late or did not follow the ack protocol; it may still be recovering"@
        } else {
            "No turn was observed since the kick — the resume most likely never became a session turn (delivery accepted ≠ consumed)"@
        })
            + ". Action: check the agent — if it is idle at a fresh prompt with no recovery in progress, send it a query or restart_instance(mode=fresh) again; its board/inbox state is intact. Late acks are reconciled automatically (you will get a follow-up notice)."@,
        SelfKickState::AckOverdue.text() == "ack_overdue"@,
        SelfKickState::TurnStartedLate.text() == "turn_started_late"@,
{
}

} // verus!
