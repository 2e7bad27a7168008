//! Alerts the orchestrator of a team when an agent's context fills up.
//!
//! Percentages are thousandths of a percent. Instants are nanoseconds on a
//! monotonic clock.
use crate::cadence::{fresh_gate, ticked, CadenceGate, GateState};
use crate::events::{notice, Notice};
use crate::positions::lemma_pushed;
use crate::table::{kept, Table};
use crate::text::{list_contains, same, views};
use vstd::prelude::*;

verus! {

/// How far usage has to drop below the threshold before the next crossing counts.
pub const HYSTERESIS: i64 = 5_000;

/// How long after an alert the next one is due while usage stays high.
pub const REALERT_AFTER_NANOS: u64 = 1_800_000_000_000;

/// Who is told where an agent has no orchestrator.
pub const FALLBACK_RECIPIENT: &'static str = "general";

/// What is remembered of one agent.
#[derive(Debug, Clone, Copy, PartialEq, Eq, Structural)]
pub struct AlertState {
    /// The next crossing alerts at once.
    pub armed: bool,
    pub last_alert: Option<u64>,
}

/// What is remembered of an agent that was never seen.
pub open spec fn fresh_state() -> AlertState {
    AlertState { armed: true, last_alert: None }
}

impl Default for AlertState {
    fn default() -> (s: Self)
        ensures
            s == fresh_state(),
    {
        AlertState { armed: true, last_alert: None }
    }
}

/// Whether enough time has passed since the last alert.
pub open spec fn realert_due(s: AlertState, now: u64) -> bool {
    s.last_alert is None || now - s.last_alert->0 >= REALERT_AFTER_NANOS
}

/// What a reading leaves behind, and whether it alerts.
pub open spec fn decided(s: AlertState, pct: i64, threshold: i64, now: u64) -> (AlertState, bool) {
    if pct >= threshold {
        if s.armed || realert_due(s, now) {
            (AlertState { armed: false, last_alert: Some(now) }, true)
        } else {
            (s, false)
        }
    } else if pct < threshold - HYSTERESIS {
        (AlertState { armed: true, ..s }, false)
    } else {
        (s, false)
    }
}

/// Decides whether a reading alerts now.
pub fn decide(state: &mut AlertState, pct: i64, threshold: i64, now: u64) -> (fires: bool)
    ensures
        (*final(state), fires) == decided(*old(state), pct, threshold, now),
{
    if pct >= threshold {
        let due: bool = match state.last_alert {
            None => true,
            Some(t) => now.saturating_sub(t) >= REALERT_AFTER_NANOS,
        };
        if state.armed || due {
            state.armed = false;
            state.last_alert = Some(now);
            return true;
        }
        return false;
    }
    if threshold >= i64::MIN + HYSTERESIS && pct < threshold - HYSTERESIS {
        state.armed = true;
    }
    false
}

/// One reading of an agent's context.
pub struct AlertReading {
    pub name: String,
    pub pct: i64,
    /// The threshold that holds for this agent.
    pub threshold: i64,
    /// The two, as they are shown.
    pub pct_text: String,
    pub threshold_text: String,
    /// Where the reading comes from.
    pub source: String,
    /// The orchestrator of the agent's team.
    pub orchestrator: Option<String>,
}

/// Who is told.
pub open spec fn recipient(r: AlertReading) -> Seq<char> {
    match r.orchestrator {
        Some(o) => o@,
        None => FALLBACK_RECIPIENT@,
    }
}

/// The text of an alert.
pub open spec fn alert_text(r: AlertReading) -> Seq<char> {
    "[context_alert] agent '"@ + r.name@ + "' context usage at "@ + r.pct_text@ + "% (source: "@
        + r.source@ + ", threshold "@ + r.threshold_text@
        + "%). Handling is NOT automated — at a natural boundary consider a handoff + restart_instance to free the context. Re-alerts every 30min while it stays high."@
}

/// What is remembered of the agents.
pub type AlertStates = Map<Seq<char>, AlertState>;

/// What is remembered of one agent.
pub open spec fn state_of(m: AlertStates, name: Seq<char>) -> AlertState {
    if m.dom().contains(name) {
        m[name]
    } else {
        fresh_state()
    }
}

/// What is remembered after one more reading.
pub open spec fn after_reading(m: AlertStates, r: AlertReading, now: u64) -> AlertStates {
    m.insert(r.name@, decided(state_of(m, r.name@), r.pct, r.threshold, now).0)
}

/// What is remembered after a run of readings.
pub open spec fn after_readings(m: AlertStates, rs: Seq<AlertReading>, now: u64) -> AlertStates
    decreases rs.len(),
{
    if rs.len() == 0 {
        m
    } else {
        after_reading(after_readings(m, rs.drop_last(), now), rs.last(), now)
    }
}

/// The readings of which somebody is told, in order: those that alert, unless the
/// agent would be told about itself.
pub open spec fn told(m: AlertStates, rs: Seq<AlertReading>, now: u64) -> Seq<AlertReading>
    decreases rs.len(),
{
    if rs.len() == 0 {
        Seq::empty()
    } else {
        let before = after_readings(m, rs.drop_last(), now);
        let r = rs.last();
        if decided(state_of(before, r.name@), r.pct, r.threshold, now).1 && recipient(r) != r.name@ {
            told(m, rs.drop_last(), now).push(r)
        } else {
            told(m, rs.drop_last(), now)
        }
    }
}

/// The agents that are still there.
pub open spec fn is_live(live: Seq<Seq<char>>) -> spec_fn(Seq<char>, AlertState) -> bool {
    |name: Seq<char>, s: AlertState| live.contains(name)
}

fn alert_message(r: &AlertReading, to: &str) -> (m: Notice)
    ensures
        m.says(to@, "system:context_alert"@, "context_alert"@, alert_text(*r), r.name@),
{
    let mut t: String = String::from_str("[context_alert] agent '");
    t.append(r.name.as_str());
    t.append("' context usage at ");
    t.append(r.pct_text.as_str());
    t.append("% (source: ");
    t.append(r.source.as_str());
    t.append(", threshold ");
    t.append(r.threshold_text.as_str());
    t.append(
        "%). Handling is NOT automated — at a natural boundary consider a handoff + restart_instance to free the context. Re-alerts every 30min while it stays high.",
    );
    notice(to, "system:context_alert", "context_alert", t.as_str(), r.name.as_str())
}

/// Watches the context of the agents.
pub struct ContextAlertHandler {
    gate: CadenceGate,
    states: Table<String, AlertState>,
}

impl ContextAlertHandler {
    /// What its gate counts.
    pub closed spec fn gate(&self) -> GateState {
        self.gate@
    }

    /// What it remembers of the agents.
    pub closed spec fn states(&self) -> AlertStates {
        self.states@
    }

    /// A handler that has seen nothing.
    pub fn new(every_n_ticks: u64) -> (h: Self)
        ensures
            h.states() == AlertStates::empty(),
            h.gate() == fresh_gate(every_n_ticks),
    {
        ContextAlertHandler { gate: CadenceGate::new(every_n_ticks), states: Table::new() }
    }

    /// The name of the handler.
    pub fn name(&self) -> (r: &'static str)
        ensures
            r@ == "context_alert"@,
    {
        "context_alert"
    }

    /// One tick: whether it is time to run.
    pub fn due(&mut self) -> (r: bool)
        ensures
            ticked(old(self).gate(), final(self).gate(), r),
            final(self).states() == old(self).states(),
    {
        self.gate.fire()
    }

    /// Whether the next crossing of an agent alerts at once, where it was seen.
    pub fn is_armed(&self, name: &str) -> (r: Option<bool>)
        ensures
            r == (if self.states().dom().contains(name@) {
                Some(self.states()[name@].armed)
            } else {
                None
            }),
    {
        let key: String = String::from_str(name);
        match self.states.get(&key) {
            Some(s) => Some(s.armed),
            None => None,
        }
    }

    /// Takes the readings of this tick and forgets the agents that are gone.
    pub fn run(&mut self, readings: &Vec<AlertReading>, live: &Vec<String>, now: u64) -> (out: Vec<
        Notice,
    >)
        ensures
            final(self).gate() == old(self).gate(),
            final(self).states() == kept(
                after_readings(old(self).states(), readings@, now),
                is_live(views(live@)),
            ),
            ({
                let t = told(old(self).states(), readings@, now);
                &&& out@.len() == t.len()
                &&& forall|i: int|
                    0 <= i < t.len() ==> (#[trigger] out@[i]).says(
                        recipient(t[i]),
                        "system:context_alert"@,
                        "context_alert"@,
                        alert_text(t[i]),
                        t[i].name@,
                    )
            }),
    {
        let ghost m = self.states@;
        let mut out: Vec<Notice> = Vec::new();
        let mut i: usize = 0;
        assert(readings@.take(0) =~= Seq::<AlertReading>::empty());
        while i < readings.len()
            invariant
                i <= readings@.len(),
                self.gate@ == old(self).gate@,
                self.states@ == after_readings(m, readings@.take(i as int), now),
                out@.len() == told(m, readings@.take(i as int), now).len(),
                forall|k: int|
                    0 <= k < out@.len() ==> (#[trigger] out@[k]).says(
                        recipient(told(m, readings@.take(i as int), now)[k]),
                        "system:context_alert"@,
                        "context_alert"@,
                        alert_text(told(m, readings@.take(i as int), now)[k]),
                        told(m, readings@.take(i as int), now)[k].name@,
                    ),
            decreases readings@.len() - i,
        {
            let r = &readings[i];
            assert(readings@.take(i + 1).drop_last() =~= readings@.take(i as int));
            assert(readings@.take(i + 1).last() == *r);
            let mut state: AlertState = match self.states.get(&r.name) {
                Some(s) => *s,
                None => AlertState { armed: true, last_alert: None },
            };
            let fires: bool = decide(&mut state, r.pct, r.threshold, now);
            self.states.insert(r.name.clone(), state);
            if fires {
                let to: String = match &r.orchestrator {
                    Some(o) => o.clone(),
                    None => String::from_str(FALLBACK_RECIPIENT),
                };
                if !same(to.as_str(), r.name.as_str()) {
                    out.push(alert_message(r, to.as_str()));
                }
            }
            i = i + 1;
        }
        assert(readings@.take(i as int) =~= readings@);
        let keep = |k: &String, s: &AlertState| -> (b: bool)
            ensures
                b == views(live@).contains(k@),
        {
            list_contains(live, k.as_str())
        };
        let _gone: usize = self.states.retain(keep, Ghost(is_live(views(live@))));
        out
    }
}

// ---------------------------------------------------------------------------
// Laws
// ---------------------------------------------------------------------------

/// An alert needs usage at or above the threshold.
pub proof fn law_no_alert_below_the_threshold(s: AlertState, pct: i64, threshold: i64, now: u64)
    requires
        pct < threshold,
    ensures
        !decided(s, pct, threshold, now).1,
{
}

/// After an alert the next one comes only when the window is over, or after usage
/// has dropped below the hysteresis floor; wobbling round the threshold is silent.
pub proof fn law_wobble_is_silent(
    s: AlertState,
    first: i64,
    dip: i64,
    second: i64,
    threshold: i64,
    t0: u64,
    t1: u64,
    t2: u64,
)
    requires
        decided(s, first, threshold, t0).1,
        threshold - HYSTERESIS <= dip < threshold,
        t2 - t0 < REALERT_AFTER_NANOS,
    ensures
        ({
            let fired = decided(s, first, threshold, t0).0;
            let dipped = decided(fired, dip, threshold, t1).0;
            &&& !decided(fired, second, threshold, t2).1
            &&& !decided(dipped, second, threshold, t2).1
        }),
{
}

/// A drop below the floor re-arms: the next crossing alerts at once.
pub proof fn law_drop_rearms(
    s: AlertState,
    low: i64,
    high: i64,
    threshold: i64,
    t0: u64,
    t1: u64,
)
    requires
        low < threshold - HYSTERESIS,
        high >= threshold,
    ensures
        decided(decided(s, low, threshold, t0).0, high, threshold, t1).1,
{
}

/// Usage that stays high alerts again when the window is over.
pub proof fn law_high_usage_realerts(s: AlertState, pct: i64, threshold: i64, t0: u64, t1: u64)
    requires
        decided(s, pct, threshold, t0).1,
        t1 - t0 >= REALERT_AFTER_NANOS,
    ensures
        decided(decided(s, pct, threshold, t0).0, pct, threshold, t1).1,
{
}

/// A reading alerts exactly if usage is at or above the threshold and the agent is armed or
/// was not reported for half an hour. It then disarms; usage more than five percent below
/// the threshold arms again, and nothing else changes what is remembered.
pub proof fn law_when_a_reading_alerts(s: AlertState, pct: i64, threshold: i64, now: u64)
    ensures
        ({
            let (n, alerts) = decided(s, pct, threshold, now);
            &&& alerts <==> pct >= threshold && (s.armed || s.last_alert is None || now
                - s.last_alert->0 >= 1_800_000_000_000)
            &&& alerts ==> !n.armed && n.last_alert == Some(now)
            &&& !alerts ==> n.last_alert == s.last_alert
            &&& !alerts ==> n.armed == (s.armed || pct < threshold - 5_000)
        }),
        fresh_state().armed,
        fresh_state().last_alert is None,
{
}

/// The orchestrator of the agent's team is told, and everybody where there is none; the
/// text names the agent, the usage, its source and the threshold.
pub proof fn law_who_is_told_what(r: AlertReading)
    ensures
        r.orchestrator is Some ==> recipient(r) == r.orchestrator->0@,
        r.orchestrator is None ==> recipient(r) == "general"@,
        alert_text(r) == "[context_alert] agent '"@ + r.name@ + "' context usage at "@ + r.pct_text@
            + "% (source: "@ + r.source@ + ", threshold "@ + r.threshold_text@
            + "%). Handling is NOT automated — at a natural boundary consider a handoff + restart_instance to free the context. Re-alerts every 30min while it stays high."@,
{
}

proof fn lemma_others_are_untouched(m: AlertStates, rs: Seq<AlertReading>, now: u64, name: Seq<char>)
    requires
        forall|i: int| 0 <= i < rs.len() ==> (#[trigger] rs[i]).name@ != name,
    ensures
        state_of(after_readings(m, rs, now), name) == state_of(m, name),
        after_readings(m, rs, now).dom().contains(name) == m.dom().contains(name),
    decreases rs.len(),
{
    if rs.len() > 0 {
        let rest = rs.drop_last();
        assert forall|i: int| 0 <= i < rest.len() implies (#[trigger] rest[i]).name@ != name by {
            assert(rest[i] == rs[i]);
        }
        lemma_others_are_untouched(m, rest, now, name);
        assert(rs[rs.len() - 1].name@ != name);
    }
}

/// Of the readings of one round somebody is told of exactly those whose usage is at or
/// above their threshold and whose agent is armed or was not reported for half an hour,
/// unless the agent would be told about itself; in order, and each judged by what was
/// remembered of its own agent before. The law gives their places.
pub proof fn law_which_readings_are_told(m: AlertStates, rs: Seq<AlertReading>, now: u64) -> (at: Seq<
    int,
>)
    requires
        forall|i: int, j: int|
            0 <= i < j < rs.len() ==> (#[trigger] rs[i]).name@ != (#[trigger] rs[j]).name@,
    ensures
        at.len() == told(m, rs, now).len(),
        forall|i: int, j: int| 0 <= i < j < at.len() ==> #[trigger] at[i] < #[trigger] at[j],
        forall|i: int|
            0 <= i < at.len() ==> 0 <= #[trigger] at[i] < rs.len() && told(m, rs, now)[i]
                == rs[at[i]],
        forall|k: int|
            0 <= k < rs.len() ==> (at.contains(k) <==> {
                let s = state_of(m, (#[trigger] rs[k]).name@);
                &&& rs[k].pct >= rs[k].threshold
                &&& s.armed || s.last_alert is None || now - s.last_alert->0 >= 1_800_000_000_000
                &&& recipient(rs[k]) != rs[k].name@
            }),
        forall|k: int|
            0 <= k < rs.len() ==> state_of(
                after_readings(m, rs, now),
                (#[trigger] rs[k]).name@,
            ) == decided(state_of(m, rs[k].name@), rs[k].pct, rs[k].threshold, now).0,
    decreases rs.len(),
{
    if rs.len() == 0 {
        Seq::empty()
    } else {
        let rest = rs.drop_last();
        let n = rs.len() - 1;
        assert(forall|k: int| 0 <= k < n ==> rest[k] == #[trigger] rs[k]);
        assert forall|i: int, j: int| 0 <= i < j < rest.len() implies (#[trigger] rest[i]).name@ != (
        #[trigger] rest[j]).name@ by {
            assert(rs[i].name@ != rs[j].name@);
        }
        let before = law_which_readings_are_told(m, rest, now);
        let r = rs.last();
        assert forall|i: int| 0 <= i < rest.len() implies (#[trigger] rest[i]).name@ != r.name@ by {
            assert(rs[i].name@ != rs[n].name@);
        }
        lemma_others_are_untouched(m, rest, now, r.name@);
        assert(!before.contains(n));
        assert forall|k: int| 0 <= k < rs.len() implies state_of(
            after_readings(m, rs, now),
            (#[trigger] rs[k]).name@,
        ) == decided(state_of(m, rs[k].name@), rs[k].pct, rs[k].threshold, now).0 by {
            if k < n {
                assert(rest[k].name@ != r.name@);
            }
        }
        let alerts = decided(state_of(m, r.name@), r.pct, r.threshold, now).1;
        if alerts && recipient(r) != r.name@ {
            let at = before.push(n);
            assert forall|k: int| 0 <= k < rs.len() implies (at.contains(k) <==> {
                let s = state_of(m, (#[trigger] rs[k]).name@);
                &&& rs[k].pct >= rs[k].threshold
                &&& s.armed || s.last_alert is None || now - s.last_alert->0 >= 1_800_000_000_000
                &&& recipient(rs[k]) != rs[k].name@
            }) by {
                lemma_pushed(before, n, k);
            }
            at
        } else {
            before
        }
    }
}

/// One more reading of a round is judged by what is remembered after those before it, even
/// of its own agent: it is told of where it alerts, unless the agent would be told about
/// itself, and it changes what is remembered of its agent only.
pub proof fn law_one_more_reading(m: AlertStates, rs: Seq<AlertReading>, r: AlertReading, now: u64)
    ensures
        told(m, Seq::empty(), now).len() == 0,
        after_readings(m, Seq::empty(), now) == m,
        ({
            let before = after_readings(m, rs, now);
            let s = if before.dom().contains(r.name@) {
                before[r.name@]
            } else {
                AlertState { armed: true, last_alert: None }
            };
            let alerts = r.pct >= r.threshold && (s.armed || s.last_alert is None || now
                - s.last_alert->0 >= 1_800_000_000_000);
            &&& told(m, rs.push(r), now) == (if alerts && recipient(r) != r.name@ {
                told(m, rs, now).push(r)
            } else {
                told(m, rs, now)
            })
            &&& after_readings(m, rs.push(r), now) == before.insert(
                r.name@,
                AlertState {
                    armed: !alerts && (s.armed || r.pct < r.threshold - 5_000),
                    last_alert: if alerts {
                        Some(now)
                    } else {
                        s.last_alert
                    },
                },
            )
        }),
{
    assert(rs.push(r).drop_last() =~= rs);
}

/// What is remembered of the agents that are still there is kept, and nothing else.
pub proof fn law_live_agents_are_remembered(m: AlertStates, live: Seq<Seq<char>>, name: Seq<char>)
    ensures
        kept(m, is_live(live)).dom().contains(name) <==> m.dom().contains(name) && live.contains(
            name,
        ),
        kept(m, is_live(live)).dom().contains(name) ==> kept(m, is_live(live))[name] == m[name],
{
}

} // verus!
