//! Nudges an agent whose context fills up to write its state down, once per
//! episode, and tells the operator once if it does not.
//!
//! An episode is one stay above the handoff threshold. Percentages are
//! thousandths of a percent, times are milliseconds of the wall clock.
use crate::cadence::{fresh_gate, ticked, CadenceGate, GateState};
use crate::events::{event, LogEvent};
use crate::table::{kept, Table};
use crate::text::{list_contains, views};
use vstd::prelude::*;

verus! {

/// The handoff threshold where nothing else is set.
pub const DEFAULT_HANDOFF_PCT: i64 = 85_000;

/// The escalation threshold where nothing else is set.
pub const DEFAULT_ESCALATE_PCT: i64 = 92_000;

/// How far usage has to drop below the handoff threshold to end an episode.
pub const HYSTERESIS: i64 = 5_000;

/// The file that the agent is asked to write.
pub const HANDOFF_FILENAME: &'static str = "SESSION-HANDOFF.md";

/// The mark of a nudge that the agent is meant to act on.
pub const HANDOFF_MARKER: &'static str = "[AGEND-HANDOFF]";

/// How far an episode has come.
#[derive(Debug, Clone, Copy, PartialEq, Eq, Structural)]
pub enum Phase {
    /// There is none: the next crossing acts.
    Armed,
    /// The agent was idle at the crossing, which was only recorded.
    IdleMarked,
    /// The agent was nudged; the operator was told or not.
    Injected { injected_at_ms: i64, escalated: bool },
}

/// What is done for an agent.
#[derive(Debug, Clone, Copy, PartialEq, Eq, Structural)]
pub enum Action {
    /// It is nudged.
    Inject,
    /// It is idle: that is recorded.
    MarkIdle,
    /// The operator is told.
    Escalate,
}

/// Whether the handoff file was written at or after `since_ms`. A file that is
/// missing or cannot be read was not.
pub open spec fn written_since(written_at_ms: Option<i64>, since_ms: i64) -> bool {
    written_at_ms is Some && written_at_ms->0 >= since_ms
}

/// Whether the handoff file was written at or after `since_ms`.
pub fn handoff_written_since(written_at_ms: Option<i64>, since_ms: i64) -> (r: bool)
    ensures
        r == written_since(written_at_ms, since_ms),
{
    match written_at_ms {
        Some(t) => t >= since_ms,
        None => false,
    }
}

/// One look at an agent.
#[derive(Debug, Clone, Copy, PartialEq, Eq, Structural)]
pub struct Look {
    pub pct: i64,
    pub is_idle: bool,
    /// When the handoff file was last written, where that is known.
    pub written_at_ms: Option<i64>,
    pub now_ms: i64,
    pub handoff_pct: i64,
    pub escalate_pct: i64,
}

/// Where a look leaves the episode, and what is done.
pub open spec fn decided(phase: Phase, l: Look) -> (Phase, Option<Action>) {
    if l.pct < l.handoff_pct - HYSTERESIS {
        (Phase::Armed, None)
    } else if l.pct < l.handoff_pct {
        (phase, None)
    } else {
        match phase {
            Phase::Armed => if l.is_idle {
                (Phase::IdleMarked, Some(Action::MarkIdle))
            } else {
                (
                    Phase::Injected { injected_at_ms: l.now_ms, escalated: false },
                    Some(Action::Inject),
                )
            },
            Phase::IdleMarked => if l.is_idle {
                (phase, None)
            } else {
                (
                    Phase::Injected { injected_at_ms: l.now_ms, escalated: false },
                    Some(Action::Inject),
                )
            },
            Phase::Injected { injected_at_ms, escalated } => if !escalated && l.pct
                >= l.escalate_pct && !written_since(l.written_at_ms, injected_at_ms) {
                (Phase::Injected { injected_at_ms, escalated: true }, Some(Action::Escalate))
            } else {
                (phase, None)
            },
        }
    }
}

/// Decides what is done for an agent.
pub fn decide(phase: &mut Phase, l: &Look) -> (r: Option<Action>)
    ensures
        (*final(phase), r) == decided(*old(phase), *l),
{
    if l.handoff_pct >= i64::MIN + HYSTERESIS && l.pct < l.handoff_pct - HYSTERESIS {
        *phase = Phase::Armed;
        return None;
    }
    if l.pct < l.handoff_pct {
        return None;
    }
    match *phase {
        Phase::Armed => {
            if l.is_idle {
                *phase = Phase::IdleMarked;
                Some(Action::MarkIdle)
            } else {
                *phase = Phase::Injected { injected_at_ms: l.now_ms, escalated: false };
                Some(Action::Inject)
            }
        },
        Phase::IdleMarked => {
            if l.is_idle {
                None
            } else {
                *phase = Phase::Injected { injected_at_ms: l.now_ms, escalated: false };
                Some(Action::Inject)
            }
        },
        Phase::Injected { injected_at_ms, escalated } => {
            if !escalated && l.pct >= l.escalate_pct && !handoff_written_since(
                l.written_at_ms,
                injected_at_ms,
            ) {
                *phase = Phase::Injected { injected_at_ms, escalated: true };
                Some(Action::Escalate)
            } else {
                None
            }
        },
    }
}

/// The nudge; `pct_text` is the usage as it is shown.
pub open spec fn payload(pct_text: Seq<char>) -> Seq<char> {
    HANDOFF_MARKER@ + " context usage at "@ + pct_text + "% — before it runs out: (1) write "@
        + HANDOFF_FILENAME@
        + " in your working directory (current task + state, key decisions, next steps, open branches/PRs); (2) add a brief handoff note to your active task on the board (task action=update); then continue working. One-shot reminder — the daemon will not repeat it this episode."@
}

/// The nudge; `pct_text` is the usage as it is shown.
pub fn handoff_payload(pct_text: &str) -> (r: String)
    ensures
        r@ == payload(pct_text@),
{
    let mut s: String = String::from_str(HANDOFF_MARKER);
    s.append(" context usage at ");
    s.append(pct_text);
    s.append("% — before it runs out: (1) write ");
    s.append(HANDOFF_FILENAME);
    s.append(
        " in your working directory (current task + state, key decisions, next steps, open branches/PRs); (2) add a brief handoff note to your active task on the board (task action=update); then continue working. One-shot reminder — the daemon will not repeat it this episode.",
    );
    s
}

/// The notice to the operator.
pub open spec fn escalation_text(name: Seq<char>, pct_text: Seq<char>, handoff_text: Seq<char>)
    -> Seq<char> {
    "[context-handoff] agent '"@ + name + "' context at "@ + pct_text + "% and no "@
        + HANDOFF_FILENAME@ + " update since the "@ + handoff_text
        + "% nudge — consider a manual handoff + restart_instance. (One-time notice.)"@
}

/// The notice to the operator.
pub fn escalation_notice(name: &str, pct_text: &str, handoff_text: &str) -> (r: String)
    ensures
        r@ == escalation_text(name@, pct_text@, handoff_text@),
{
    let mut s: String = String::from_str("[context-handoff] agent '");
    s.append(name);
    s.append("' context at ");
    s.append(pct_text);
    s.append("% and no ");
    s.append(HANDOFF_FILENAME);
    s.append(" update since the ");
    s.append(handoff_text);
    s.append("% nudge — consider a manual handoff + restart_instance. (One-time notice.)");
    s
}

/// The record of what was done. A nudge is recorded only where it was delivered.
pub open spec fn record_of(
    a: Action,
    name: Seq<char>,
    pct_text: Seq<char>,
    handoff_text: Seq<char>,
    e: LogEvent,
) -> bool {
    match a {
        Action::Inject => e.says(
            "context_handoff_injected"@,
            name,
            "context at "@ + pct_text + "% — handoff nudge injected (one per episode)"@,
        ),
        Action::MarkIdle => e.says(
            "context_full_idle"@,
            name,
            "context at "@ + pct_text
                + "% while Idle — not injecting (idle context-full is not urgent); injection fires if it wakes while still high"@,
        ),
        Action::Escalate => e.says(
            "context_handoff_escalated"@,
            name,
            escalation_text(name, pct_text, handoff_text),
        ),
    }
}

/// The record of what was done for an agent, if there is one: `delivered` says
/// that a nudge reached the agent.
pub fn handoff_record(
    action: Action,
    delivered: bool,
    name: &str,
    pct_text: &str,
    handoff_text: &str,
) -> (r: Option<LogEvent>)
    ensures
        r is None <==> action == Action::Inject && !delivered,
        r is Some ==> record_of(action, name@, pct_text@, handoff_text@, r->0),
{
    match action {
        Action::Inject => {
            if !delivered {
                return None;
            }
            let d = String::from_str("context at ").concat(pct_text).concat(
                "% — handoff nudge injected (one per episode)",
            );
            Some(event("context_handoff_injected", name, d.as_str()))
        },
        Action::MarkIdle => {
            let d = String::from_str("context at ").concat(pct_text).concat(
                "% while Idle — not injecting (idle context-full is not urgent); injection fires if it wakes while still high",
            );
            Some(event("context_full_idle", name, d.as_str()))
        },
        Action::Escalate => {
            let d = escalation_notice(name, pct_text, handoff_text);
            Some(event("context_handoff_escalated", name, d.as_str()))
        },
    }
}

/// One look at a named agent.
pub struct NamedLook {
    pub name: String,
    pub look: Look,
}

/// What is done for a named agent.
pub struct NamedAction {
    /// The position of the look that it answers.
    pub look: usize,
    pub action: Action,
}

/// How far the episode of each agent has come.
pub type Episodes = Map<Seq<char>, Phase>;

/// How far the episode of one agent has come.
pub open spec fn phase_in(m: Episodes, name: Seq<char>) -> Phase {
    if m.dom().contains(name) {
        m[name]
    } else {
        Phase::Armed
    }
}

/// The episodes after a run of looks.
pub open spec fn after_looks(m: Episodes, ls: Seq<NamedLook>) -> Episodes
    decreases ls.len(),
{
    if ls.len() == 0 {
        m
    } else {
        let before = after_looks(m, ls.drop_last());
        let l = ls.last();
        before.insert(l.name@, decided(phase_in(before, l.name@), l.look).0)
    }
}

/// What is done after a run of looks, in order: the position of the look and the
/// action.
pub open spec fn actions_of(m: Episodes, ls: Seq<NamedLook>) -> Seq<(int, Action)>
    decreases ls.len(),
{
    if ls.len() == 0 {
        Seq::empty()
    } else {
        let before = after_looks(m, ls.drop_last());
        let l = ls.last();
        let a = decided(phase_in(before, l.name@), l.look).1;
        if a is Some {
            actions_of(m, ls.drop_last()).push((ls.len() - 1, a->0))
        } else {
            actions_of(m, ls.drop_last())
        }
    }
}

/// The agents that are still there.
pub open spec fn is_live(live: Seq<Seq<char>>) -> spec_fn(Seq<char>, Phase) -> bool {
    |name: Seq<char>, p: Phase| live.contains(name)
}

/// What a list of actions says.
pub open spec fn action_views(s: Seq<NamedAction>) -> Seq<(int, Action)> {
    s.map_values(|a: NamedAction| (a.look as int, a.action))
}

/// Watches the context of the agents.
pub struct ContextHandoffHandler {
    gate: CadenceGate,
    states: Table<String, Phase>,
}

impl ContextHandoffHandler {
    /// What its gate counts.
    pub closed spec fn gate(&self) -> GateState {
        self.gate@
    }

    /// How far the episode of each agent has come.
    pub closed spec fn episodes(&self) -> Episodes {
        self.states@
    }

    /// A handler that has seen nothing.
    pub fn new(every_n_ticks: u64) -> (h: Self)
        ensures
            h.episodes() == Episodes::empty(),
            h.gate() == fresh_gate(every_n_ticks),
    {
        ContextHandoffHandler { gate: CadenceGate::new(every_n_ticks), states: Table::new() }
    }

    /// The name of the handler.
    pub fn name(&self) -> (r: &'static str)
        ensures
            r@ == "context_handoff"@,
    {
        "context_handoff"
    }

    /// One tick: whether it is time to run.
    pub fn due(&mut self) -> (r: bool)
        ensures
            ticked(old(self).gate(), final(self).gate(), r),
            final(self).episodes() == old(self).episodes(),
    {
        self.gate.fire()
    }

    /// How far the episode of an agent has come, where it was seen.
    pub fn phase_of(&self, name: &str) -> (r: Option<Phase>)
        ensures
            r == (if self.episodes().dom().contains(name@) {
                Some(self.episodes()[name@])
            } else {
                None
            }),
    {
        let key: String = String::from_str(name);
        match self.states.get(&key) {
            Some(p) => Some(*p),
            None => None,
        }
    }

    /// Takes the looks of this tick and forgets the agents that are gone.
    pub fn run(&mut self, looks: &Vec<NamedLook>, live: &Vec<String>) -> (out: Vec<NamedAction>)
        ensures
            final(self).gate() == old(self).gate(),
            final(self).episodes() == kept(
                after_looks(old(self).episodes(), looks@),
                is_live(views(live@)),
            ),
            action_views(out@) == actions_of(old(self).episodes(), looks@),
    {
        let ghost m = self.states@;
        let mut out: Vec<NamedAction> = Vec::new();
        let mut i: usize = 0;
        assert(looks@.take(0) =~= Seq::<NamedLook>::empty());
        assert(action_views(out@) =~= actions_of(m, looks@.take(0)));
        while i < looks.len()
            invariant
                i <= looks@.len(),
                self.gate@ == old(self).gate@,
                self.states@ == after_looks(m, looks@.take(i as int)),
                action_views(out@) == actions_of(m, looks@.take(i as int)),
            decreases looks@.len() - i,
        {
            let l = &looks[i];
            assert(looks@.take(i + 1).drop_last() =~= looks@.take(i as int));
            assert(looks@.take(i + 1).last() == *l);
            let mut phase: Phase = match self.states.get(&l.name) {
                Some(p) => *p,
                None => Phase::Armed,
            };
            let action = decide(&mut phase, &l.look);
            self.states.insert(l.name.clone(), phase);
            let ghost before = action_views(out@);
            if let Some(action) = action {
                out.push(NamedAction { look: i, action });
                assert(action_views(out@) =~= before.push((i as int, action)));
            }
            i = i + 1;
        }
        assert(looks@.take(i as int) =~= looks@);
        let keep = |k: &String, p: &Phase| -> (b: bool)
            ensures
                b == views(live@).contains(k@),
        {
            list_contains(live, k.as_str())
        };
        let _gone: usize = self.states.retain(keep, Ghost(is_live(views(live@))));
        out
    }
}

// ---------------------------------------------------------------------------
// Laws
// ---------------------------------------------------------------------------

/// How often an action is taken for an agent over a run of looks.
pub open spec fn count_actions(phase: Phase, looks: Seq<Look>, a: Action) -> nat
    decreases looks.len(),
{
    if looks.len() == 0 {
        0
    } else {
        let (next, done) = decided(phase, looks[0]);
        count_actions(next, looks.drop_first(), a) + (if done == Some(a) {
            1nat
        } else {
            0nat
        })
    }
}

/// Usage never drops below the hysteresis floor.
pub open spec fn one_episode(looks: Seq<Look>) -> bool {
    forall|i: int|
        0 <= i < looks.len() ==> (#[trigger] looks[i]).pct >= looks[i].handoff_pct - HYSTERESIS
}

/// Within one episode an agent is nudged at most once, the operator is told at
/// most once, and idleness is recorded at most once, however long it lasts.
pub proof fn law_once_per_episode(phase: Phase, looks: Seq<Look>)
    requires
        one_episode(looks),
    ensures
        count_actions(phase, looks, Action::Inject) <= 1,
        count_actions(phase, looks, Action::Escalate) <= 1,
        count_actions(phase, looks, Action::MarkIdle) <= 1,
        phase is Injected ==> count_actions(phase, looks, Action::Inject) == 0,
        phase is Injected || phase is IdleMarked ==> count_actions(phase, looks, Action::MarkIdle)
            == 0,
        phase is Injected && phase->escalated ==> count_actions(phase, looks, Action::Escalate) == 0,
    decreases looks.len(),
{
    if looks.len() > 0 {
        let rest = looks.drop_first();
        assert forall|i: int| 0 <= i < rest.len() implies (#[trigger] rest[i]).pct
            >= rest[i].handoff_pct - HYSTERESIS by {
            assert(rest[i] == looks[i + 1]);
        }
        let next = decided(phase, looks[0]).0;
        law_once_per_episode(next, rest);
    }
}

/// A drop below the floor ends the episode silently; the next crossing of a
/// working agent nudges it again.
pub proof fn law_drop_ends_the_episode(phase: Phase, low: Look, high: Look)
    requires
        low.pct < low.handoff_pct - HYSTERESIS,
        high.pct >= high.handoff_pct,
        !high.is_idle,
    ensures
        decided(phase, low) == (Phase::Armed, None::<Action>),
        decided(Phase::Armed, high).1 == Some(Action::Inject),
{
}

/// The operator is told only of an agent that was nudged, is still high and has
/// not written its handoff since.
pub proof fn law_escalation_needs_an_unanswered_nudge(phase: Phase, l: Look)
    requires
        decided(phase, l).1 == Some(Action::Escalate),
    ensures
        phase is Injected,
        !written_since(l.written_at_ms, phase->injected_at_ms),
        l.pct >= l.escalate_pct,
        l.pct >= l.handoff_pct,
{
}

/// Below the threshold nothing is done.
pub proof fn law_nothing_below_the_threshold(phase: Phase, l: Look)
    requires
        l.pct < l.handoff_pct,
    ensures
        decided(phase, l).1 is None,
{
}

/// Usage more than five percent below the handoff threshold ends the episode. At or above
/// it an agent that works is nudged unless it was before, an idle one is recorded unless it
/// was, and the operator is told exactly if a nudged agent is at or above the escalation
/// threshold, has written nothing since and the operator was not told yet.
pub proof fn law_how_an_episode_goes(phase: Phase, l: Look)
    ensures
        ({
            let (n, a) = decided(phase, l);
            let high = l.pct >= l.handoff_pct;
            let unanswered = l.written_at_ms is None || l.written_at_ms->0 < phase->injected_at_ms;
            &&& l.pct < l.handoff_pct - 5_000 ==> n == Phase::Armed
            &&& l.handoff_pct - 5_000 <= l.pct < l.handoff_pct ==> n == phase
            &&& a == Some(Action::Inject) <==> high && !(phase is Injected) && !l.is_idle
            &&& a == Some(Action::Inject) ==> n == (Phase::Injected {
                injected_at_ms: l.now_ms,
                escalated: false,
            })
            &&& a == Some(Action::MarkIdle) <==> high && phase == Phase::Armed && l.is_idle
            &&& a == Some(Action::MarkIdle) ==> n == Phase::IdleMarked
            &&& a == Some(Action::Escalate) <==> high && phase is Injected && !phase->escalated
                && l.pct >= l.escalate_pct && unanswered
            &&& a == Some(Action::Escalate) ==> n == (Phase::Injected {
                injected_at_ms: phase->injected_at_ms,
                escalated: true,
            })
            &&& a is None && high ==> n == phase
        }),
        forall|w: Option<i64>, since: i64| #[trigger]
            written_since(w, since) <==> w is Some && w->0 >= since,
{
}

proof fn lemma_others_are_untouched(m: Episodes, ls: Seq<NamedLook>, name: Seq<char>)
    requires
        forall|i: int| 0 <= i < ls.len() ==> (#[trigger] ls[i]).name@ != name,
    ensures
        phase_in(after_looks(m, ls), name) == phase_in(m, name),
    decreases ls.len(),
{
    if ls.len() > 0 {
        let rest = ls.drop_last();
        assert forall|i: int| 0 <= i < rest.len() implies (#[trigger] rest[i]).name@ != name by {
            assert(rest[i] == ls[i]);
        }
        lemma_others_are_untouched(m, rest, name);
        assert(ls[ls.len() - 1].name@ != name);
    }
}

/// Of the looks of one round each that calls for an action, by how far its own agent's
/// episode had come, gets that action, in order and by its place; the others get none, and
/// each episode goes on as its look says.
pub proof fn law_which_looks_are_acted_on(m: Episodes, ls: Seq<NamedLook>)
    requires
        forall|i: int, j: int|
            0 <= i < j < ls.len() ==> (#[trigger] ls[i]).name@ != (#[trigger] ls[j]).name@,
    ensures
        forall|i: int, j: int|
            0 <= i < j < actions_of(m, ls).len() ==> (#[trigger] actions_of(m, ls)[i]).0 < (
            #[trigger] actions_of(m, ls)[j]).0,
        forall|i: int|
            0 <= i < actions_of(m, ls).len() ==> ({
                let (k, a) = #[trigger] actions_of(m, ls)[i];
                &&& 0 <= k < ls.len()
                &&& decided(phase_in(m, ls[k].name@), ls[k].look).1 == Some(a)
            }),
        forall|k: int|
            0 <= k < ls.len() && decided(
                phase_in(m, (#[trigger] ls[k]).name@),
                ls[k].look,
            ).1 is Some ==> exists|i: int|
                0 <= i < actions_of(m, ls).len() && (#[trigger] actions_of(m, ls)[i]).0 == k,
        forall|k: int|
            0 <= k < ls.len() ==> phase_in(after_looks(m, ls), (#[trigger] ls[k]).name@) == decided(
                phase_in(m, ls[k].name@),
                ls[k].look,
            ).0,
    decreases ls.len(),
{
    if ls.len() > 0 {
        let rest = ls.drop_last();
        let n = ls.len() - 1;
        assert(forall|k: int| 0 <= k < n ==> rest[k] == #[trigger] ls[k]);
        assert forall|i: int, j: int| 0 <= i < j < rest.len() implies (#[trigger] rest[i]).name@ != (
        #[trigger] rest[j]).name@ by {
            assert(ls[i].name@ != ls[j].name@);
        }
        law_which_looks_are_acted_on(m, rest);
        let l = ls.last();
        assert forall|i: int| 0 <= i < rest.len() implies (#[trigger] rest[i]).name@ != l.name@ by {
            assert(ls[i].name@ != ls[n].name@);
        }
        lemma_others_are_untouched(m, rest, l.name@);
        let before = actions_of(m, rest);
        let after = actions_of(m, ls);
        assert(forall|i: int| 0 <= i < before.len() ==> after[i] == #[trigger] before[i]);
        assert forall|k: int| 0 <= k < ls.len() && decided(
            phase_in(m, (#[trigger] ls[k]).name@),
            ls[k].look,
        ).1 is Some implies exists|i: int|
            0 <= i < after.len() && (#[trigger] after[i]).0 == k by {
            if k < n {
                assert(rest[k] == ls[k]);
                let i = choose|i: int| 0 <= i < before.len() && (#[trigger] before[i]).0 == k;
                assert(after[i].0 == k);
            } else {
                assert(after[before.len() as int].0 == k);
            }
        }
        assert forall|k: int| 0 <= k < ls.len() implies phase_in(
            after_looks(m, ls),
            (#[trigger] ls[k]).name@,
        ) == decided(phase_in(m, ls[k].name@), ls[k].look).0 by {
            if k < n {
                assert(rest[k].name@ != l.name@);
            }
        }
    }
}

/// An agent that was never seen has no episode; the record of what was done is about the
/// agent and tells its usage.
pub proof fn law_what_is_recorded_of_an_episode(
    name: Seq<char>,
    pct_text: Seq<char>,
    handoff_text: Seq<char>,
    e: LogEvent,
)
    ensures
        phase_in(Episodes::empty(), name) == Phase::Armed,
        record_of(Action::Inject, name, pct_text, handoff_text, e) ==> e.kind@
            == "context_handoff_injected"@ && e.subject@ == name && e.detail@ == "context at "@
            + pct_text + "% — handoff nudge injected (one per episode)"@,
        record_of(Action::MarkIdle, name, pct_text, handoff_text, e) ==> e.kind@
            == "context_full_idle"@ && e.subject@ == name && e.detail@ == "context at "@ + pct_text
            + "% while Idle — not injecting (idle context-full is not urgent); injection fires if it wakes while still high"@,
        record_of(Action::Escalate, name, pct_text, handoff_text, e) ==> e.kind@
            == "context_handoff_escalated"@ && e.subject@ == name && e.detail@
            == "[context-handoff] agent '"@ + name + "' context at "@ + pct_text + "% and no "@
            + "SESSION-HANDOFF.md"@ + " update since the "@ + handoff_text
            + "% nudge — consider a manual handoff + restart_instance. (One-time notice.)"@,
        payload(pct_text) == "[AGEND-HANDOFF]"@ + " context usage at "@ + pct_text
            + "% — before it runs out: (1) write "@ + "SESSION-HANDOFF.md"@
            + " in your working directory (current task + state, key decisions, next steps, open branches/PRs); (2) add a brief handoff note to your active task on the board (task action=update); then continue working. One-shot reminder — the daemon will not repeat it this episode."@,
{
}

/// Where nothing else is set an agent is nudged from 85 percent on and the operator is told
/// from 92 percent on, which is in order.
pub proof fn law_the_default_thresholds()
    ensures
        DEFAULT_HANDOFF_PCT == 85_000,
        DEFAULT_ESCALATE_PCT == 92_000,
        HYSTERESIS == 5_000,
        DEFAULT_HANDOFF_PCT < DEFAULT_ESCALATE_PCT,
{
}

/// One more look of a round is judged by how far the episode of its agent has come after
/// those before it: what it calls for is done by its place, and only that episode goes on.
pub proof fn law_one_more_look(m: Episodes, ls: Seq<NamedLook>, l: NamedLook)
    ensures
        actions_of(m, Seq::empty()).len() == 0,
        after_looks(m, Seq::empty()) == m,
        ({
            let before = after_looks(m, ls);
            let phase = if before.dom().contains(l.name@) {
                before[l.name@]
            } else {
                Phase::Armed
            };
            let (next, action) = decided(phase, l.look);
            &&& after_looks(m, ls.push(l)) == before.insert(l.name@, next)
            &&& actions_of(m, ls.push(l)) == (if action is Some {
                actions_of(m, ls).push((ls.len() as int, action->0))
            } else {
                actions_of(m, ls)
            })
        }),
{
    assert(ls.push(l).drop_last() =~= ls);
}

/// What is remembered of the agents that are still there is kept, and nothing else.
pub proof fn law_live_agents_are_remembered(m: Episodes, live: Seq<Seq<char>>, name: Seq<char>)
    ensures
        kept(m, is_live(live)).dom().contains(name) <==> m.dom().contains(name) && live.contains(
            name,
        ),
        kept(m, is_live(live)).dom().contains(name) ==> kept(m, is_live(live))[name] == m[name],
{
}

} // verus!
