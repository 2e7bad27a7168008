//! The watchdog of inboxes that nobody reads: when it runs, whom it has already
//! alerted, and which agents have come back from a usage limit.
use crate::cadence::{graced_gate, ticked_since, CadenceGate, GateState};
use crate::dates::Moment;
use crate::table::{kept, Table};
use crate::text::{list_contains, views};
use vstd::prelude::*;

verus! {

/// An alert about an agent.
pub struct StuckAlert {
    pub name: String,
    pub at: Moment,
}

/// When each agent was last alerted about.
pub type AlertTimes = Map<Seq<char>, Moment>;

/// The times after a run of alerts.
pub open spec fn after_alerts(m: AlertTimes, alerts: Seq<StuckAlert>) -> AlertTimes
    decreases alerts.len(),
{
    if alerts.len() == 0 {
        m
    } else {
        after_alerts(m, alerts.drop_last()).insert(alerts.last().name@, alerts.last().at)
    }
}

/// The agents that are still there.
pub open spec fn is_live(live: Seq<Seq<char>>) -> spec_fn(Seq<char>, Moment) -> bool {
    |name: Seq<char>, at: Moment| live.contains(name)
}

/// The agents of a list that are not blocked, in order.
pub open spec fn unblocked(live: Seq<Seq<char>>, blocked: Seq<Seq<char>>) -> Seq<Seq<char>>
    decreases live.len(),
{
    if live.len() == 0 {
        Seq::empty()
    } else if blocked.contains(live.last()) {
        unblocked(live.drop_last(), blocked)
    } else {
        unblocked(live.drop_last(), blocked).push(live.last())
    }
}

/// The live agents that no usage limit blocks: for each of them the last episode is
/// over.
pub fn recovered_agents(live: &Vec<String>, blocked: &Vec<String>) -> (r: Vec<String>)
    ensures
        views(r@) == unblocked(views(live@), views(blocked@)),
{
    let ghost all = views(live@);
    let mut r: Vec<String> = Vec::new();
    let mut i: usize = 0;
    assert(views(r@) =~= unblocked(all.take(0), views(blocked@)));
    while i < live.len()
        invariant
            all == views(live@),
            i <= live@.len(),
            views(r@) == unblocked(all.take(i as int), views(blocked@)),
        decreases live@.len() - i,
    {
        assert(all.take(i + 1).drop_last() =~= all.take(i as int));
        assert(all.take(i + 1).last() == live@[i as int]@);
        if !list_contains(blocked, live[i].as_str()) {
            let ghost before = views(r@);
            r.push(live[i].clone());
            assert(views(r@) =~= before.push(live@[i as int]@));
        }
        i = i + 1;
    }
    assert(all.take(i as int) =~= all);
    r
}

/// Watches for inboxes that nobody reads.
pub struct InboxStuckHandler {
    gate: CadenceGate,
    last_alerted: Table<String, Moment>,
}

impl InboxStuckHandler {
    /// What its gate counts.
    pub closed spec fn gate(&self) -> GateState {
        self.gate@
    }

    /// How old it was at its making, in milliseconds.
    pub closed spec fn born_age(&self) -> u64 {
        self.gate.born_age()
    }

    /// When each agent was last alerted about.
    pub closed spec fn alert_times(&self) -> AlertTimes {
        self.last_alerted@
    }

    /// A handler that stays quiet for a while after its making.
    pub fn new(every_n_ticks: u64, boot_grace_ms: u64) -> (h: Self)
        ensures
            h.gate() == graced_gate(every_n_ticks, boot_grace_ms),
            h.born_age() == 0,
            h.alert_times() == AlertTimes::empty(),
    {
        InboxStuckHandler::new_at(every_n_ticks, boot_grace_ms, 0)
    }

    /// The same, for a handler that counts as made `age_ms` ago.
    pub fn new_at(every_n_ticks: u64, boot_grace_ms: u64, age_ms: u64) -> (h: Self)
        ensures
            h.gate() == graced_gate(every_n_ticks, boot_grace_ms),
            h.born_age() == age_ms,
            h.alert_times() == AlertTimes::empty(),
    {
        InboxStuckHandler {
            gate: CadenceGate::new_with_boot_grace_aged(every_n_ticks, boot_grace_ms, age_ms),
            last_alerted: Table::new(),
        }
    }

    /// The name of the handler.
    pub fn name(&self) -> (r: &'static str)
        ensures
            r@ == "inbox_stuck_watchdog"@,
    {
        "inbox_stuck_watchdog"
    }

    /// One tick: whether it is time to run.
    pub fn due(&mut self) -> (r: bool)
        ensures
            ticked_since(old(self).gate(), final(self).gate(), r, old(self).born_age()),
            final(self).born_age() == old(self).born_age(),
            final(self).alert_times() == old(self).alert_times(),
    {
        self.gate.fire()
    }

    /// When an agent was last alerted about.
    pub fn last_alert(&self, name: &str) -> (r: Option<Moment>)
        ensures
            r == (if self.alert_times().dom().contains(name@) {
                Some(self.alert_times()[name@])
            } else {
                None
            }),
    {
        let key = String::from_str(name);
        match self.last_alerted.get(&key) {
            Some(at) => Some(*at),
            None => None,
        }
    }

    /// Notes the alerts of a scan and forgets the agents that are gone, so that an
    /// agent of the same name starts afresh.
    pub fn settle(&mut self, alerts: &Vec<StuckAlert>, live: &Vec<String>)
        ensures
            final(self).gate() == old(self).gate(),
            final(self).born_age() == old(self).born_age(),
            final(self).alert_times() == kept(
                after_alerts(old(self).alert_times(), alerts@),
                is_live(views(live@)),
            ),
    {
        let ghost m = self.last_alerted@;
        let mut i: usize = 0;
        assert(alerts@.take(0) =~= Seq::<StuckAlert>::empty());
        while i < alerts.len()
            invariant
                i <= alerts@.len(),
                self.gate == old(self).gate,
                self.last_alerted@ == after_alerts(m, alerts@.take(i as int)),
            decreases alerts@.len() - i,
        {
            assert(alerts@.take(i + 1).drop_last() =~= alerts@.take(i as int));
            self.last_alerted.insert(alerts[i].name.clone(), alerts[i].at);
            i = i + 1;
        }
        assert(alerts@.take(i as int) =~= alerts@);
        let keep = |k: &String, at: &Moment| -> (b: bool)
            ensures
                b == views(live@).contains(k@),
        {
            list_contains(live, k.as_str())
        };
        let _gone: usize = self.last_alerted.retain(keep, Ghost(is_live(views(live@))));
    }

    /// Forgets the alert about an agent whose work was taken back.
    pub fn clear(&mut self, name: &str)
        ensures
            final(self).gate() == old(self).gate(),
            final(self).born_age() == old(self).born_age(),
            final(self).alert_times() == old(self).alert_times().remove(name@),
    {
        let key = String::from_str(name);
        self.last_alerted.remove(&key);
    }
}

/// An agent that is gone leaves no alert behind.
pub proof fn law_gone_agents_are_forgotten(m: AlertTimes, alerts: Seq<StuckAlert>, live: Seq<Seq<char>>, name: Seq<char>)
    requires
        !live.contains(name),
    ensures
        !kept(after_alerts(m, alerts), is_live(live)).dom().contains(name),
{
}

/// The last of the alerts about an agent is the one that is noted; an agent without one is
/// noted as before.
pub proof fn law_the_last_alert_is_noted(m: AlertTimes, alerts: Seq<StuckAlert>, name: Seq<char>, i: int)
    requires
        -1 <= i < alerts.len(),
        forall|j: int| i < j < alerts.len() ==> (#[trigger] alerts[j]).name@ != name,
        i >= 0 ==> alerts[i].name@ == name,
    ensures
        i >= 0 ==> after_alerts(m, alerts).dom().contains(name) && after_alerts(m, alerts)[name]
            == alerts[i].at,
        i < 0 ==> after_alerts(m, alerts).dom().contains(name) == m.dom().contains(name),
        i < 0 && m.dom().contains(name) ==> after_alerts(m, alerts)[name] == m[name],
    decreases alerts.len(),
{
    if alerts.len() > 0 && i < alerts.len() - 1 {
        let rest = alerts.drop_last();
        assert(forall|j: int| 0 <= j < rest.len() ==> rest[j] == #[trigger] alerts[j]);
        assert(alerts[alerts.len() - 1].name@ != name);
        law_the_last_alert_is_noted(m, rest, name, i);
    }
}

/// What is noted of the agents that are still there is kept, and nothing else.
pub proof fn law_live_agents_are_remembered(m: AlertTimes, live: Seq<Seq<char>>, name: Seq<char>)
    ensures
        kept(m, is_live(live)).dom().contains(name) <==> m.dom().contains(name) && live.contains(
            name,
        ),
        kept(m, is_live(live)).dom().contains(name) ==> kept(m, is_live(live))[name] == m[name],
{
}

/// The agents that have come back are the live ones that nothing blocks, in order.
pub proof fn law_who_has_come_back(live: Seq<Seq<char>>, blocked: Seq<Seq<char>>)
    ensures
        unblocked(live, blocked) == live.filter(|name: Seq<char>| !blocked.contains(name)),
    decreases live.len(),
{
    reveal(Seq::filter);
    if live.len() > 0 {
        law_who_has_come_back(live.drop_last(), blocked);
    }
}

} // verus!
