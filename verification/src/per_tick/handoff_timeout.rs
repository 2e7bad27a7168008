//! The watchdog of handoffs that nobody takes up: when it runs, and what it has
//! already escalated or nudged.
use crate::cadence::{graced_gate, ticked_since, CadenceGate, GateState};
use crate::dates::Moment;
use crate::table::{Key, Table};
use crate::text::same;
use vstd::prelude::*;

verus! {

/// A handoff to an agent.
pub struct HandoffKey {
    pub agent: String,
    pub handoff: String,
}

impl Key for HandoffKey {
    type Held = (Seq<char>, Seq<char>);

    open spec fn held(&self) -> (Seq<char>, Seq<char>) {
        (self.agent@, self.handoff@)
    }

    fn same_key(&self, other: &Self) -> (r: bool) {
        same(self.agent.as_str(), other.agent.as_str()) && same(
            self.handoff.as_str(),
            other.handoff.as_str(),
        )
    }
}

/// When something was last done about each handoff.
pub type HandoffTimes = Map<(Seq<char>, Seq<char>), Moment>;

/// Watches for handoffs that nobody takes up.
pub struct HandoffTimeoutHandler {
    gate: CadenceGate,
    last_escalated: Table<HandoffKey, Moment>,
    last_renudged: Table<HandoffKey, Moment>,
}

impl HandoffTimeoutHandler {
    /// What its gate counts.
    pub closed spec fn gate(&self) -> GateState {
        self.gate@
    }

    /// How old it was at its making, in milliseconds.
    pub closed spec fn born_age(&self) -> u64 {
        self.gate.born_age()
    }

    /// When each handoff was last escalated.
    pub closed spec fn escalated(&self) -> HandoffTimes {
        self.last_escalated@
    }

    /// When each handoff was last nudged again.
    pub closed spec fn renudged(&self) -> HandoffTimes {
        self.last_renudged@
    }

    /// A handler that stays quiet for a while after its making.
    pub fn new(every_n_ticks: u64, boot_grace_ms: u64) -> (h: Self)
        ensures
            h.gate() == graced_gate(every_n_ticks, boot_grace_ms),
            h.born_age() == 0,
            h.escalated() == HandoffTimes::empty(),
            h.renudged() == HandoffTimes::empty(),
    {
        HandoffTimeoutHandler::new_at(every_n_ticks, boot_grace_ms, 0)
    }

    /// The same, for a handler that counts as made `age_ms` ago.
    pub fn new_at(every_n_ticks: u64, boot_grace_ms: u64, age_ms: u64) -> (h: Self)
        ensures
            h.gate() == graced_gate(every_n_ticks, boot_grace_ms),
            h.born_age() == age_ms,
            h.escalated() == HandoffTimes::empty(),
            h.renudged() == HandoffTimes::empty(),
    {
        HandoffTimeoutHandler {
            gate: CadenceGate::new_with_boot_grace_aged(every_n_ticks, boot_grace_ms, age_ms),
            last_escalated: Table::new(),
            last_renudged: Table::new(),
        }
    }

    /// The name of the handler.
    pub fn name(&self) -> (r: &'static str)
        ensures
            r@ == "handoff_timeout_watchdog"@,
    {
        "handoff_timeout_watchdog"
    }

    /// One tick: whether it is time to run.
    pub fn due(&mut self) -> (r: bool)
        ensures
            ticked_since(old(self).gate(), final(self).gate(), r, old(self).born_age()),
            final(self).born_age() == old(self).born_age(),
            final(self).escalated() == old(self).escalated(),
            final(self).renudged() == old(self).renudged(),
    {
        self.gate.fire()
    }

    /// Notes that a handoff was escalated.
    pub fn note_escalation(&mut self, key: HandoffKey, at: Moment)
        ensures
            final(self).gate() == old(self).gate(),
            final(self).born_age() == old(self).born_age(),
            final(self).escalated() == old(self).escalated().insert(key.held(), at),
            final(self).renudged() == old(self).renudged(),
    {
        self.last_escalated.insert(key, at);
    }

    /// Notes that a handoff was nudged again.
    pub fn note_renudge(&mut self, key: HandoffKey, at: Moment)
        ensures
            final(self).gate() == old(self).gate(),
            final(self).born_age() == old(self).born_age(),
            final(self).escalated() == old(self).escalated(),
            final(self).renudged() == old(self).renudged().insert(key.held(), at),
    {
        self.last_renudged.insert(key, at);
    }

    /// When a handoff was last escalated.
    pub fn last_escalation(&self, key: &HandoffKey) -> (r: Option<Moment>)
        ensures
            r == (if self.escalated().dom().contains(key.held()) {
                Some(self.escalated()[key.held()])
            } else {
                None
            }),
    {
        match self.last_escalated.get(key) {
            Some(at) => Some(*at),
            None => None,
        }
    }

    /// When a handoff was last nudged again.
    pub fn last_renudge(&self, key: &HandoffKey) -> (r: Option<Moment>)
        ensures
            r == (if self.renudged().dom().contains(key.held()) {
                Some(self.renudged()[key.held()])
            } else {
                None
            }),
    {
        match self.last_renudged.get(key) {
            Some(at) => Some(*at),
            None => None,
        }
    }
}

/// Two handoffs are the same exactly if they are of the same agent and the same handoff.
pub proof fn law_which_handoffs_are_the_same(a: HandoffKey, b: HandoffKey)
    ensures
        a.held() == b.held() <==> a.agent@ == b.agent@ && a.handoff@ == b.handoff@,
{
}

} // verus!
