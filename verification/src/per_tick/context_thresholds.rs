//! The thresholds of the two context watchdogs, and the handler that runs both.
//!
//! An instance may override any of the three thresholds. If what comes out is not
//! in order, the override is ignored as a whole, and that is said once.
use crate::events::Notice;
use crate::per_tick::context_alert::{
    after_readings, alert_text, recipient, told, AlertReading, ContextAlertHandler,
};
use crate::per_tick::context_handoff::{
    action_views, actions_of, after_looks, ContextHandoffHandler, Look, NamedAction, NamedLook,
};
use crate::positions::lemma_pushed;
use crate::table::{kept, Table};
use crate::text::{opt_copy, opt_view, views};
use vstd::prelude::*;

verus! {

/// The three thresholds, in thousandths of a percent.
#[derive(Debug, Clone, Copy, PartialEq, Eq, Structural)]
pub struct Thresholds {
    pub alert: i64,
    pub handoff: i64,
    pub escalate: i64,
}

/// What an instance overrides.
#[derive(Debug, Clone, Copy, PartialEq, Eq, Structural)]
pub struct Overlay {
    pub alert: Option<i64>,
    pub handoff: Option<i64>,
    pub escalate: Option<i64>,
}

/// The thresholds with what an instance overrides.
pub open spec fn composed(global: Thresholds, o: Overlay) -> Thresholds {
    Thresholds {
        alert: match o.alert {
            Some(v) => v,
            None => global.alert,
        },
        handoff: match o.handoff {
            Some(v) => v,
            None => global.handoff,
        },
        escalate: match o.escalate {
            Some(v) => v,
            None => global.escalate,
        },
    }
}

/// The thresholds rise from the alert to the escalation.
pub open spec fn in_order(t: Thresholds) -> bool {
    t.alert < t.handoff && t.handoff < t.escalate
}

/// Whether an instance overrides anything.
pub open spec fn overrides(o: Overlay) -> bool {
    o.alert is Some || o.handoff is Some || o.escalate is Some
}

/// The thresholds that hold for an instance.
pub open spec fn effective(global: Thresholds, o: Overlay) -> Thresholds {
    if in_order(composed(global, o)) {
        composed(global, o)
    } else {
        global
    }
}

/// What holds for an instance.
#[derive(Debug, Clone, Copy, PartialEq, Eq, Structural)]
pub struct Resolved {
    pub thresholds: Thresholds,
    /// The instance overrides something that cannot be used.
    pub invalid: bool,
}

/// Decides which thresholds hold for an instance.
pub fn resolve_thresholds(global: Thresholds, o: Overlay) -> (r: Resolved)
    ensures
        r.thresholds == effective(global, o),
        r.invalid == (overrides(o) && !in_order(composed(global, o))),
{
    let t = Thresholds {
        alert: match o.alert {
            Some(v) => v,
            None => global.alert,
        },
        handoff: match o.handoff {
            Some(v) => v,
            None => global.handoff,
        },
        escalate: match o.escalate {
            Some(v) => v,
            None => global.escalate,
        },
    };
    let good: bool = t.alert < t.handoff && t.handoff < t.escalate;
    let any: bool = o.alert.is_some() || o.handoff.is_some() || o.escalate.is_some();
    Resolved {
        thresholds: if good {
            t
        } else {
            global
        },
        invalid: any && !good,
    }
}

/// The instances whose override is being ignored, each warned about once.
pub struct InvalidWarnings {
    warned: Table<String, bool>,
}

impl InvalidWarnings {
    /// The instances that were warned about.
    pub closed spec fn names(&self) -> Set<Seq<char>> {
        self.warned@.dom()
    }

    /// Nobody was warned about.
    pub fn new() -> (w: Self)
        ensures
            w.names() == Set::<Seq<char>>::empty(),
    {
        let w = InvalidWarnings { warned: Table::new() };
        assert(w.names() =~= Set::<Seq<char>>::empty());
        w
    }

    /// Notes whether the override of an instance is unusable, and says whether to
    /// warn: once until it is usable again.
    pub fn note(&mut self, name: &str, invalid: bool) -> (warn: bool)
        ensures
            warn == (invalid && !old(self).names().contains(name@)),
            final(self).names() == (if invalid {
                old(self).names().insert(name@)
            } else {
                old(self).names().remove(name@)
            }),
    {
        let key: String = String::from_str(name);
        let known: bool = self.warned.contains(&key);
        if invalid {
            let ghost before = self.warned@;
            self.warned.insert(key, true);
            assert(before.insert(name@, true).dom() =~= before.dom().insert(name@));
        } else {
            let ghost before = self.warned@;
            self.warned.remove(&key);
            assert(before.remove(name@).dom() =~= before.dom().remove(name@));
        }
        invalid && !known
    }

    /// How many instances are being warned about.
    pub fn count(&self) -> (n: usize)
        ensures
            self.names().finite(),
            n == self.names().len(),
    {
        self.warned.len()
    }
}

// ---------------------------------------------------------------------------
// What was seen of the instances
// ---------------------------------------------------------------------------

/// What was seen of an instance whose context could be read.
pub struct InstanceUsage {
    pub name: String,
    /// What the instance overrides; nothing where the fleet does not list it.
    pub overlay: Overlay,
    pub pct: i64,
    pub pct_text: String,
    /// The alert threshold that the instance overrides, as it is shown.
    pub alert_shown: String,
    /// Where the reading comes from.
    pub source: String,
    /// The orchestrator of the instance's team.
    pub orchestrator: Option<String>,
    pub is_idle: bool,
    /// When the handoff file was last written, where that is known.
    pub written_at_ms: Option<i64>,
}

/// The thresholds of all instances that override nothing.
pub struct GlobalThresholds {
    pub thresholds: Thresholds,
    /// The alert threshold, as it is shown.
    pub alert_shown: String,
}

/// The override of an instance cannot be used.
pub open spec fn unusable(global: Thresholds, o: Overlay) -> bool {
    overrides(o) && !in_order(composed(global, o))
}

/// The alert threshold that holds for an instance, as it is shown.
pub open spec fn shown_threshold(g: GlobalThresholds, u: InstanceUsage) -> Seq<char> {
    if u.overlay.alert is Some && in_order(composed(g.thresholds, u.overlay)) {
        u.alert_shown@
    } else {
        g.alert_shown@
    }
}

/// The reading of an instance, with the threshold that holds for it.
pub open spec fn is_reading_of(r: AlertReading, g: GlobalThresholds, u: InstanceUsage) -> bool {
    &&& r.name@ == u.name@
    &&& r.pct == u.pct
    &&& r.threshold == effective(g.thresholds, u.overlay).alert
    &&& r.pct_text@ == u.pct_text@
    &&& r.threshold_text@ == shown_threshold(g, u)
    &&& r.source@ == u.source@
    &&& opt_view(r.orchestrator) == opt_view(u.orchestrator)
}

/// The look at an instance, with the thresholds that hold for it.
pub open spec fn is_look_of(l: NamedLook, g: GlobalThresholds, u: InstanceUsage, now_ms: i64) -> bool {
    &&& l.name@ == u.name@
    &&& l.look == (Look {
        pct: u.pct,
        is_idle: u.is_idle,
        written_at_ms: u.written_at_ms,
        now_ms,
        handoff_pct: effective(g.thresholds, u.overlay).handoff,
        escalate_pct: effective(g.thresholds, u.overlay).escalate,
    })
}

/// The instances that count as warned about after these were seen.
pub open spec fn warned_after(
    warned: Set<Seq<char>>,
    global: Thresholds,
    seen: Seq<InstanceUsage>,
) -> Set<Seq<char>>
    decreases seen.len(),
{
    if seen.len() == 0 {
        warned
    } else {
        let before = warned_after(warned, global, seen.drop_last());
        if unusable(global, seen.last().overlay) {
            before.insert(seen.last().name@)
        } else {
            before.remove(seen.last().name@)
        }
    }
}

/// The instances to warn about, in order: those with an unusable override that do
/// not count as warned about.
pub open spec fn to_warn(
    warned: Set<Seq<char>>,
    global: Thresholds,
    seen: Seq<InstanceUsage>,
) -> Seq<Seq<char>>
    decreases seen.len(),
{
    if seen.len() == 0 {
        Seq::empty()
    } else {
        let u = seen.last();
        let rest = to_warn(warned, global, seen.drop_last());
        if unusable(global, u.overlay) && !warned_after(warned, global, seen.drop_last()).contains(
            u.name@,
        ) {
            rest.push(u.name@)
        } else {
            rest
        }
    }
}

/// What was seen, with the thresholds that hold for each instance.
pub struct ResolvedInstances {
    pub readings: Vec<AlertReading>,
    pub looks: Vec<NamedLook>,
    /// The instances to warn about.
    pub warn: Vec<String>,
}

/// One reading and one look for each instance that was seen, in order.
pub open spec fn resolved_as(
    readings: Seq<AlertReading>,
    looks: Seq<NamedLook>,
    g: GlobalThresholds,
    seen: Seq<InstanceUsage>,
    now_ms: i64,
) -> bool {
    &&& readings.len() == seen.len()
    &&& looks.len() == seen.len()
    &&& forall|i: int| 0 <= i < seen.len() ==> is_reading_of(#[trigger] readings[i], g, seen[i])
    &&& forall|i: int| 0 <= i < seen.len() ==> is_look_of(#[trigger] looks[i], g, seen[i], now_ms)
}

/// Decides which thresholds hold for each instance, and which unusable overrides to
/// warn about.
pub fn resolve_instances(
    global: &GlobalThresholds,
    seen: &Vec<InstanceUsage>,
    now_ms: i64,
    warnings: &mut InvalidWarnings,
) -> (r: ResolvedInstances)
    ensures
        resolved_as(r.readings@, r.looks@, *global, seen@, now_ms),
        views(r.warn@) == to_warn(old(warnings).names(), global.thresholds, seen@),
        final(warnings).names() == warned_after(old(warnings).names(), global.thresholds, seen@),
{
    let ghost start = warnings.names();
    let mut readings: Vec<AlertReading> = Vec::new();
    let mut looks: Vec<NamedLook> = Vec::new();
    let mut warn: Vec<String> = Vec::new();
    let mut i: usize = 0;
    assert(seen@.take(0) =~= Seq::<InstanceUsage>::empty());
    assert(views(warn@) =~= Seq::<Seq<char>>::empty());
    while i < seen.len()
        invariant
            i <= seen@.len(),
            readings@.len() == i,
            looks@.len() == i,
            forall|k: int| 0 <= k < i ==> is_reading_of(#[trigger] readings@[k], *global, seen@[k]),
            forall|k: int| 0 <= k < i ==> is_look_of(#[trigger] looks@[k], *global, seen@[k], now_ms),
            views(warn@) == to_warn(start, global.thresholds, seen@.take(i as int)),
            warnings.names() == warned_after(start, global.thresholds, seen@.take(i as int)),
        decreases seen@.len() - i,
    {
        let u = &seen[i];
        assert(seen@.take(i + 1).drop_last() =~= seen@.take(i as int));
        assert(seen@.take(i + 1).last() == *u);
        let held = resolve_thresholds(global.thresholds, u.overlay);
        let ghost before = views(warn@);
        if warnings.note(u.name.as_str(), held.invalid) {
            warn.push(u.name.clone());
            assert(views(warn@) =~= before.push(u.name@));
        }
        let threshold_text: String = if u.overlay.alert.is_some() && !held.invalid {
            u.alert_shown.clone()
        } else {
            global.alert_shown.clone()
        };
        readings.push(
            AlertReading {
                name: u.name.clone(),
                pct: u.pct,
                threshold: held.thresholds.alert,
                pct_text: u.pct_text.clone(),
                threshold_text,
                source: u.source.clone(),
                orchestrator: opt_copy(&u.orchestrator),
            },
        );
        looks.push(
            NamedLook {
                name: u.name.clone(),
                look: Look {
                    pct: u.pct,
                    is_idle: u.is_idle,
                    written_at_ms: u.written_at_ms,
                    now_ms,
                    handoff_pct: held.thresholds.handoff,
                    escalate_pct: held.thresholds.escalate,
                },
            },
        );
        i = i + 1;
    }
    assert(seen@.take(i as int) =~= seen@);
    ResolvedInstances { readings, looks, warn }
}

/// What came of one round of the watchdogs.
pub struct ThresholdsRound {
    /// What was looked at.
    pub readings: Vec<AlertReading>,
    pub looks: Vec<NamedLook>,
    /// The instances whose override cannot be used, to warn about.
    pub warn: Vec<String>,
    pub alerts: Vec<Notice>,
    /// What is done, by the position of the look.
    pub actions: Vec<NamedAction>,
}

/// Runs the two watchdogs, each with its own cadence and memory.
pub struct ContextThresholdsHandler {
    pub context_alert: ContextAlertHandler,
    pub context_handoff: ContextHandoffHandler,
    pub warnings: InvalidWarnings,
}

impl ContextThresholdsHandler {
    /// A handler that has seen nothing.
    pub fn new(alert_ticks: u64, handoff_ticks: u64) -> (h: Self)
        ensures
            h.context_alert.gate() == crate::cadence::fresh_gate(alert_ticks),
            h.context_handoff.gate() == crate::cadence::fresh_gate(handoff_ticks),
            h.context_alert.states() == crate::per_tick::context_alert::AlertStates::empty(),
            h.context_handoff.episodes() == crate::per_tick::context_handoff::Episodes::empty(),
            h.warnings.names() == Set::<Seq<char>>::empty(),
    {
        ContextThresholdsHandler {
            context_alert: ContextAlertHandler::new(alert_ticks),
            context_handoff: ContextHandoffHandler::new(handoff_ticks),
            warnings: InvalidWarnings::new(),
        }
    }

    /// The name of the handler.
    pub fn name(&self) -> (r: &'static str)
        ensures
            r@ == "context_thresholds"@,
    {
        "context_thresholds"
    }

    /// One round: the watchdogs that are due look at what was seen, each instance by
    /// the thresholds that hold for it. A watchdog that is not due stays as it is;
    /// where neither is, nothing is resolved.
    pub fn run(
        &mut self,
        alert_due: bool,
        handoff_due: bool,
        global: &GlobalThresholds,
        seen: &Vec<InstanceUsage>,
        live: &Vec<String>,
        now: u64,
        now_ms: i64,
    ) -> (out: ThresholdsRound)
        ensures
            final(self).context_alert.gate() == old(self).context_alert.gate(),
            final(self).context_handoff.gate() == old(self).context_handoff.gate(),
            if alert_due || handoff_due {
                &&& resolved_as(out.readings@, out.looks@, *global, seen@, now_ms)
                &&& views(out.warn@) == to_warn(
                    old(self).warnings.names(),
                    global.thresholds,
                    seen@,
                )
                &&& final(self).warnings.names() == warned_after(
                    old(self).warnings.names(),
                    global.thresholds,
                    seen@,
                )
            } else {
                &&& out.readings@.len() == 0
                &&& out.looks@.len() == 0
                &&& out.warn@.len() == 0
                &&& final(self).warnings.names() == old(self).warnings.names()
            },
            if alert_due {
                let t = told(old(self).context_alert.states(), out.readings@, now);
                &&& final(self).context_alert.states() == kept(
                    after_readings(old(self).context_alert.states(), out.readings@, now),
                    crate::per_tick::context_alert::is_live(views(live@)),
                )
                &&& out.alerts@.len() == t.len()
                &&& forall|i: int|
                    0 <= i < t.len() ==> (#[trigger] out.alerts@[i]).says(
                        recipient(t[i]),
                        "system:context_alert"@,
                        "context_alert"@,
                        alert_text(t[i]),
                        t[i].name@,
                    )
            } else {
                &&& out.alerts@.len() == 0
                &&& final(self).context_alert.states() == old(self).context_alert.states()
            },
            if handoff_due {
                &&& action_views(out.actions@) == actions_of(
                    old(self).context_handoff.episodes(),
                    out.looks@,
                )
                &&& final(self).context_handoff.episodes() == kept(
                    after_looks(old(self).context_handoff.episodes(), out.looks@),
                    crate::per_tick::context_handoff::is_live(views(live@)),
                )
            } else {
                &&& out.actions@.len() == 0
                &&& final(self).context_handoff.episodes() == old(self).context_handoff.episodes()
            },
    {
        if !alert_due && !handoff_due {
            return ThresholdsRound {
                readings: Vec::new(),
                looks: Vec::new(),
                warn: Vec::new(),
                alerts: Vec::new(),
                actions: Vec::new(),
            };
        }
        let r = resolve_instances(global, seen, now_ms, &mut self.warnings);
        let alerts: Vec<Notice> = if alert_due {
            self.context_alert.run(&r.readings, live, now)
        } else {
            Vec::new()
        };
        let actions: Vec<NamedAction> = if handoff_due {
            self.context_handoff.run(&r.looks, live)
        } else {
            Vec::new()
        };
        ThresholdsRound { readings: r.readings, looks: r.looks, warn: r.warn, alerts, actions }
    }
}

// ---------------------------------------------------------------------------
// Laws
// ---------------------------------------------------------------------------

/// An override that is out of order changes nothing at all.
pub proof fn law_bad_override_is_ignored_as_a_whole(global: Thresholds, o: Overlay)
    requires
        !in_order(composed(global, o)),
    ensures
        effective(global, o) == global,
{
}

/// Thresholds that hold are in order, if the global ones are.
pub proof fn law_thresholds_stay_in_order(global: Thresholds, o: Overlay)
    requires
        in_order(global),
    ensures
        in_order(effective(global, o)),
{
}

/// An instance that overrides nothing has the global thresholds.
pub proof fn law_no_override_means_global(global: Thresholds, o: Overlay)
    requires
        !overrides(o),
    ensures
        effective(global, o) == global,
{
}

proof fn lemma_warned(
    warned: Set<Seq<char>>,
    global: Thresholds,
    seen: Seq<InstanceUsage>,
    name: Seq<char>,
)
    ensures
        (forall|i: int| 0 <= i < seen.len() ==> (#[trigger] seen[i]).name@ != name)
            ==> warned_after(warned, global, seen).contains(name) == warned.contains(name),
    decreases seen.len(),
{
    if seen.len() > 0 && (forall|i: int| 0 <= i < seen.len() ==> (#[trigger] seen[i]).name@ != name) {
        let rest = seen.drop_last();
        assert forall|i: int| 0 <= i < rest.len() implies (#[trigger] rest[i]).name@ != name by {
            assert(rest[i] == seen[i]);
        }
        lemma_warned(warned, global, rest, name);
        assert(seen[seen.len() - 1].name@ != name);
    }
}

/// After a round, just those of the instances that were seen count as warned about
/// whose override cannot be used.
pub proof fn law_warnings_follow_the_overrides(
    warned: Set<Seq<char>>,
    global: Thresholds,
    seen: Seq<InstanceUsage>,
    at: int,
)
    requires
        0 <= at < seen.len(),
        forall|i: int, j: int|
            0 <= i < j < seen.len() ==> (#[trigger] seen[i]).name@ != (#[trigger] seen[j]).name@,
    ensures
        warned_after(warned, global, seen).contains(seen[at].name@) == unusable(
            global,
            seen[at].overlay,
        ),
    decreases seen.len(),
{
    let rest = seen.drop_last();
    if at < seen.len() - 1 {
        assert forall|i: int, j: int| 0 <= i < j < rest.len() implies (#[trigger] rest[i]).name@ != (
        #[trigger] rest[j]).name@ by {
            assert(rest[i] == seen[i] && rest[j] == seen[j]);
        }
        law_warnings_follow_the_overrides(warned, global, rest, at);
        assert(rest[at] == seen[at]);
        assert(seen[at].name@ != seen[seen.len() - 1].name@);
    }
}

/// An unusable override is warned about once: a second round that sees the same
/// warns about nobody.
pub proof fn law_one_warning_per_episode(
    warned: Set<Seq<char>>,
    global: Thresholds,
    seen: Seq<InstanceUsage>,
)
    requires
        forall|i: int, j: int|
            0 <= i < j < seen.len() ==> (#[trigger] seen[i]).name@ != (#[trigger] seen[j]).name@,
    ensures
        to_warn(warned_after(warned, global, seen), global, seen).len() == 0,
{
    lemma_second_round(warned, global, seen, seen.len() as int);
    assert(seen.take(seen.len() as int) =~= seen);
}

proof fn lemma_second_round(
    warned: Set<Seq<char>>,
    global: Thresholds,
    seen: Seq<InstanceUsage>,
    n: int,
)
    requires
        0 <= n <= seen.len(),
        forall|i: int, j: int|
            0 <= i < j < seen.len() ==> (#[trigger] seen[i]).name@ != (#[trigger] seen[j]).name@,
    ensures
        to_warn(warned_after(warned, global, seen), global, seen.take(n)).len() == 0,
    decreases n,
{
    if n > 0 {
        let after = warned_after(warned, global, seen);
        let part = seen.take(n);
        lemma_second_round(warned, global, seen, n - 1);
        assert(part.drop_last() =~= seen.take(n - 1));
        assert(part.last() == seen[n - 1]);
        law_warnings_follow_the_overrides(warned, global, seen, n - 1);
        let name = seen[n - 1].name@;
        assert forall|i: int| 0 <= i < seen.take(n - 1).len() implies (#[trigger] seen.take(
            n - 1,
        )[i]).name@ != name by {
            assert(seen.take(n - 1)[i] == seen[i]);
            assert(seen[i].name@ != seen[n - 1].name@);
        }
        lemma_warned(after, global, seen.take(n - 1), name);
    }
}

/// An instance has its own thresholds where it sets them and the global ones otherwise, as
/// long as what comes out rises from the alert to the handoff to the escalation; if it does
/// not, it has the global ones. An override cannot be used exactly if it sets something and
/// what comes out does not rise.
pub proof fn law_which_thresholds_hold(global: Thresholds, o: Overlay)
    ensures
        ({
            let alert = if o.alert is Some {
                o.alert->0
            } else {
                global.alert
            };
            let handoff = if o.handoff is Some {
                o.handoff->0
            } else {
                global.handoff
            };
            let escalate = if o.escalate is Some {
                o.escalate->0
            } else {
                global.escalate
            };
            let rises = alert < handoff && handoff < escalate;
            let held = effective(global, o);
            &&& rises ==> held.alert == alert && held.handoff == handoff && held.escalate
                == escalate
            &&& !rises ==> held == global
            &&& unusable(global, o) <==> !rises && (o.alert is Some || o.handoff is Some
                || o.escalate is Some)
        }),
{
}

/// Each instance that was seen is judged once by either watchdog, in order, by its own
/// usage and the thresholds that hold for it.
pub proof fn law_each_instance_is_judged_by_its_thresholds(
    readings: Seq<AlertReading>,
    looks: Seq<NamedLook>,
    g: GlobalThresholds,
    seen: Seq<InstanceUsage>,
    now_ms: i64,
    i: int,
)
    requires
        resolved_as(readings, looks, g, seen, now_ms),
        0 <= i < seen.len(),
    ensures
        readings.len() == seen.len(),
        looks.len() == seen.len(),
        readings[i].name@ == seen[i].name@,
        readings[i].pct == seen[i].pct,
        readings[i].threshold == effective(g.thresholds, seen[i].overlay).alert,
        readings[i].pct_text@ == seen[i].pct_text@,
        readings[i].source@ == seen[i].source@,
        opt_view(readings[i].orchestrator) == opt_view(seen[i].orchestrator),
        readings[i].threshold_text@ == (if seen[i].overlay.alert is Some && !unusable(
            g.thresholds,
            seen[i].overlay,
        ) {
            seen[i].alert_shown@
        } else {
            g.alert_shown@
        }),
        looks[i].name@ == seen[i].name@,
        looks[i].look.pct == seen[i].pct,
        looks[i].look.is_idle == seen[i].is_idle,
        looks[i].look.written_at_ms == seen[i].written_at_ms,
        looks[i].look.now_ms == now_ms,
        looks[i].look.handoff_pct == effective(g.thresholds, seen[i].overlay).handoff,
        looks[i].look.escalate_pct == effective(g.thresholds, seen[i].overlay).escalate,
{
    assert(is_reading_of(readings[i], g, seen[i]));
    assert(is_look_of(looks[i], g, seen[i], now_ms));
}

/// Of the instances that were seen exactly those are warned about whose override cannot be
/// used and that were not warned about before, in order. The law gives their places.
pub proof fn law_who_is_warned_about(
    warned: Set<Seq<char>>,
    global: Thresholds,
    seen: Seq<InstanceUsage>,
) -> (at: Seq<int>)
    requires
        forall|i: int, j: int|
            0 <= i < j < seen.len() ==> (#[trigger] seen[i]).name@ != (#[trigger] seen[j]).name@,
    ensures
        at.len() == to_warn(warned, global, seen).len(),
        forall|i: int, j: int| 0 <= i < j < at.len() ==> #[trigger] at[i] < #[trigger] at[j],
        forall|i: int|
            0 <= i < at.len() ==> 0 <= #[trigger] at[i] < seen.len() && to_warn(
                warned,
                global,
                seen,
            )[i] == seen[at[i]].name@,
        forall|k: int|
            0 <= k < seen.len() ==> (at.contains(k) <==> unusable(
                global,
                (#[trigger] seen[k]).overlay,
            ) && !warned.contains(seen[k].name@)),
    decreases seen.len(),
{
    if seen.len() == 0 {
        Seq::empty()
    } else {
        let rest = seen.drop_last();
        let n = seen.len() - 1;
        assert(forall|k: int| 0 <= k < n ==> rest[k] == #[trigger] seen[k]);
        assert forall|i: int, j: int| 0 <= i < j < rest.len() implies (#[trigger] rest[i]).name@ != (
        #[trigger] rest[j]).name@ by {
            assert(seen[i].name@ != seen[j].name@);
        }
        let before = law_who_is_warned_about(warned, global, rest);
        let u = seen.last();
        assert forall|i: int| 0 <= i < rest.len() implies (#[trigger] rest[i]).name@ != u.name@ by {
            assert(seen[i].name@ != seen[n].name@);
        }
        lemma_warned(warned, global, rest, u.name@);
        assert(!before.contains(n));
        if unusable(global, u.overlay) && !warned.contains(u.name@) {
            let at = before.push(n);
            assert forall|k: int| 0 <= k < seen.len() implies (at.contains(k) <==> unusable(
                global,
                (#[trigger] seen[k]).overlay,
            ) && !warned.contains(seen[k].name@)) by {
                lemma_pushed(before, n, k);
            }
            at
        } else {
            before
        }
    }
}

/// One more instance of a round counts as warned about exactly while its override cannot be
/// used, and is warned about where it did not count so after those before it.
pub proof fn law_one_more_instance(
    warned: Set<Seq<char>>,
    global: Thresholds,
    seen: Seq<InstanceUsage>,
    u: InstanceUsage,
)
    ensures
        to_warn(warned, global, Seq::empty()).len() == 0,
        warned_after(warned, global, Seq::empty()) == warned,
        ({
            let before = warned_after(warned, global, seen);
            let bad = unusable(global, u.overlay);
            &&& warned_after(warned, global, seen.push(u)) == (if bad {
                before.insert(u.name@)
            } else {
                before.remove(u.name@)
            })
            &&& to_warn(warned, global, seen.push(u)) == (if bad && !before.contains(u.name@) {
                to_warn(warned, global, seen).push(u.name@)
            } else {
                to_warn(warned, global, seen)
            })
        }),
{
    assert(seen.push(u).drop_last() =~= seen);
}

} // verus!
