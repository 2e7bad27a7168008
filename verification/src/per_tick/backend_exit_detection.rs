//! Notices when an agent's backend has exited and something else runs in its
//! place.
//!
//! Times are milliseconds.
use crate::agents::{backend_named, program_name, Backend, Preset};
use crate::events::{event, LogEvent};
use crate::positions::lemma_pushed;
use crate::table::Table;
use crate::text::views;
use vstd::prelude::*;

verus! {

/// How long after its start an agent is not reported.
pub const BACKEND_EXIT_GRACE_MS: u64 = 15_000;

/// How long after a notice the next one about the same agent is held back.
pub const NOTIFY_COOLDOWN_MS: u64 = 60_000;

/// Whether what runs is not the backend that was configured. A command that stands
/// for no known backend is never reported.
pub open spec fn mismatched(presets: Seq<Preset>, configured: Seq<char>, live: Seq<char>) -> bool {
    let want = backend_named(presets, program_name(configured));
    want is Some && backend_named(presets, program_name(live)) != want
}

/// Whether an agent is reported, so long after its start.
pub open spec fn fires(presets: Seq<Preset>, configured: Seq<char>, live: Seq<char>, elapsed_ms: u64) -> bool {
    mismatched(presets, configured, live) && elapsed_ms >= BACKEND_EXIT_GRACE_MS
}

/// Whether what runs is not the backend that was configured.
pub fn backend_mismatch(presets: &Vec<Preset>, configured: &str, live: &str) -> (r: bool)
    ensures
        r == mismatched(presets@, configured@, live@),
{
    match Backend::from_command(presets, configured) {
        None => false,
        Some(want) => match Backend::from_command(presets, live) {
            None => true,
            Some(runs) => runs != want,
        },
    }
}

/// Whether an agent is reported, so long after its start.
pub fn should_fire_backend_exit(
    presets: &Vec<Preset>,
    configured: &str,
    live: &str,
    elapsed_ms: u64,
) -> (r: bool)
    ensures
        r == fires(presets@, configured@, live@, elapsed_ms),
{
    elapsed_ms >= BACKEND_EXIT_GRACE_MS && backend_mismatch(presets, configured, live)
}

/// What was seen of one agent.
pub struct BackendSight {
    pub name: String,
    /// What runs.
    pub live: String,
    /// How long ago it was started.
    pub elapsed_ms: u64,
    /// What the fleet says should run, where it knows the agent.
    pub configured: Option<String>,
}

/// When each agent was last reported.
pub type Reported = Map<Seq<char>, u64>;

/// Whether a notice about an agent is not held back.
pub open spec fn notice_due(m: Reported, name: Seq<char>, now: u64) -> bool {
    !m.dom().contains(name) || now - m[name] >= NOTIFY_COOLDOWN_MS
}

/// When each agent was last reported, after one more look.
pub open spec fn after_sight(presets: Seq<Preset>, m: Reported, s: BackendSight, now: u64) -> Reported {
    if s.configured is None {
        m
    } else if fires(presets, s.configured->0@, s.live@, s.elapsed_ms) {
        if notice_due(m, s.name@, now) {
            m.insert(s.name@, now)
        } else {
            m
        }
    } else {
        m.remove(s.name@)
    }
}

/// When each agent was last reported, after a run of looks.
pub open spec fn after_sights(presets: Seq<Preset>, m: Reported, s: Seq<BackendSight>, now: u64) -> Reported
    decreases s.len(),
{
    if s.len() == 0 {
        m
    } else {
        after_sight(presets, after_sights(presets, m, s.drop_last(), now), s.last(), now)
    }
}

/// The agents that are reported, in order.
pub open spec fn reports(presets: Seq<Preset>, m: Reported, s: Seq<BackendSight>, now: u64) -> Seq<BackendSight>
    decreases s.len(),
{
    if s.len() == 0 {
        Seq::empty()
    } else {
        let before = after_sights(presets, m, s.drop_last(), now);
        let l = s.last();
        if l.configured is Some && fires(presets, l.configured->0@, l.live@, l.elapsed_ms) && notice_due(
            before,
            l.name@,
            now,
        ) {
            reports(presets, m, s.drop_last(), now).push(l)
        } else {
            reports(presets, m, s.drop_last(), now)
        }
    }
}

/// The agents whose backend does not run, in order.
pub open spec fn mismatches(presets: Seq<Preset>, s: Seq<BackendSight>) -> Seq<Seq<char>>
    decreases s.len(),
{
    if s.len() == 0 {
        Seq::empty()
    } else if s.last().configured is Some && mismatched(presets, s.last().configured->0@, s.last().live@) {
        mismatches(presets, s.drop_last()).push(s.last().name@)
    } else {
        mismatches(presets, s.drop_last())
    }
}

/// A notice about an agent.
pub struct BackendExited {
    pub name: String,
    pub expected: String,
    pub live: String,
}

/// The notice is about this agent.
pub open spec fn reports_on(b: BackendExited, s: BackendSight) -> bool {
    &&& b.name@ == s.name@
    &&& s.configured is Some
    &&& b.expected@ == s.configured->0@
    &&& b.live@ == s.live@
}

/// What a look at the agents came to.
pub struct BackendScan {
    pub mismatched: Vec<String>,
    pub notify: Vec<BackendExited>,
}

/// How an agent is doing.
#[derive(Debug, Clone, Copy, PartialEq, Eq, Structural)]
pub enum HealthState {
    Healthy,
    Unhealthy,
    Hung,
    /// The operator has paused it.
    Paused,
    Other,
}

/// How an agent is doing after the look.
pub open spec fn health_after(state: HealthState, mismatch: bool) -> HealthState {
    if state == HealthState::Paused {
        state
    } else if mismatch {
        HealthState::Unhealthy
    } else if state == HealthState::Unhealthy {
        HealthState::Healthy
    } else {
        state
    }
}

/// Decides how an agent is doing after the look.
pub fn apply_health(state: HealthState, mismatch: bool) -> (r: HealthState)
    ensures
        r == health_after(state, mismatch),
{
    if state == HealthState::Paused {
        state
    } else if mismatch {
        HealthState::Unhealthy
    } else if state == HealthState::Unhealthy {
        HealthState::Healthy
    } else {
        state
    }
}

/// The record of a notice.
pub fn backend_exited_event(b: &BackendExited) -> (e: LogEvent)
    ensures
        e.says("backend_exited"@, b.name@, "expected="@ + b.expected@ + " observed="@ + b.live@),
{
    let mut d: String = String::from_str("expected=");
    d.append(b.expected.as_str());
    d.append(" observed=");
    d.append(b.live.as_str());
    event("backend_exited", b.name.as_str(), d.as_str())
}

/// The text of a notice.
pub fn notify_backend_exited(b: &BackendExited) -> (r: String)
    ensures
        r@ == "⚠️ "@ + b.name@ + ": backend process exited unexpectedly (expected `"@
            + b.expected@ + "`, pane now shows `"@ + b.live@
            + "`). Dispatches to this agent will sit unread until it's respawned or replaced."@,
{
    let mut s: String = String::from_str("⚠️ ");
    s.append(b.name.as_str());
    s.append(": backend process exited unexpectedly (expected `");
    s.append(b.expected.as_str());
    s.append("`, pane now shows `");
    s.append(b.live.as_str());
    s.append("`). Dispatches to this agent will sit unread until it's respawned or replaced.");
    s
}

/// Watches the backends of the agents.
pub struct BackendExitDetectionHandler {
    last_notified: Table<String, u64>,
}

impl BackendExitDetectionHandler {
    /// When each agent was last reported.
    pub closed spec fn reported(&self) -> Reported {
        self.last_notified@
    }

    /// A handler that has reported nobody.
    pub fn new() -> (h: Self)
        ensures
            h.reported() == Reported::empty(),
    {
        BackendExitDetectionHandler { last_notified: Table::new() }
    }

    /// The name of the handler.
    pub fn name(&self) -> (r: &'static str)
        ensures
            r@ == "backend_exit_detection"@,
    {
        "backend_exit_detection"
    }

    /// Looks at the agents.
    pub fn run(&mut self, presets: &Vec<Preset>, seen: &Vec<BackendSight>, now: u64) -> (r: BackendScan)
        ensures
            final(self).reported() == after_sights(presets@, old(self).reported(), seen@, now),
            views(r.mismatched@) == mismatches(presets@, seen@),
            r.notify@.len() == reports(presets@, old(self).reported(), seen@, now).len(),
            forall|i: int|
                0 <= i < r.notify@.len() ==> reports_on(
                    #[trigger] r.notify@[i],
                    reports(presets@, old(self).reported(), seen@, now)[i],
                ),
    {
        let ghost m = self.last_notified@;
        let mut mismatch: Vec<String> = Vec::new();
        let mut notify: Vec<BackendExited> = Vec::new();
        let mut i: usize = 0;
        assert(seen@.take(0) =~= Seq::<BackendSight>::empty());
        assert(views(mismatch@) =~= mismatches(presets@, seen@.take(0)));
        while i < seen.len()
            invariant
                i <= seen@.len(),
                self.last_notified@ == after_sights(presets@, m, seen@.take(i as int), now),
                views(mismatch@) == mismatches(presets@, seen@.take(i as int)),
                notify@.len() == reports(presets@, m, seen@.take(i as int), now).len(),
                forall|k: int|
                    0 <= k < notify@.len() ==> reports_on(
                        #[trigger] notify@[k],
                        reports(presets@, m, seen@.take(i as int), now)[k],
                    ),
            decreases seen@.len() - i,
        {
            let s = &seen[i];
            assert(seen@.take(i + 1).drop_last() =~= seen@.take(i as int));
            assert(seen@.take(i + 1).last() == *s);
            if let Some(configured) = &s.configured {
                if backend_mismatch(presets, configured.as_str(), s.live.as_str()) {
                    let ghost before = views(mismatch@);
                    mismatch.push(s.name.clone());
                    assert(views(mismatch@) =~= before.push(s.name@));
                }
                if should_fire_backend_exit(
                    presets,
                    configured.as_str(),
                    s.live.as_str(),
                    s.elapsed_ms,
                ) {
                    let due: bool = match self.last_notified.get(&s.name) {
                        None => true,
                        Some(t) => now.saturating_sub(*t) >= NOTIFY_COOLDOWN_MS,
                    };
                    if due {
                        self.last_notified.insert(s.name.clone(), now);
                        notify.push(
                            BackendExited {
                                name: s.name.clone(),
                                expected: configured.clone(),
                                live: s.live.clone(),
                            },
                        );
                    }
                } else {
                    self.last_notified.remove(&s.name);
                }
            }
            i = i + 1;
        }
        assert(seen@.take(i as int) =~= seen@);
        BackendScan { mismatched: mismatch, notify }
    }
}

// ---------------------------------------------------------------------------
// Laws
// ---------------------------------------------------------------------------

/// A backend never mismatches itself, under whatever path it runs.
pub proof fn law_same_program_matches(presets: Seq<Preset>, configured: Seq<char>, live: Seq<char>)
    requires
        program_name(configured) == program_name(live),
    ensures
        !mismatched(presets, configured, live),
{
}

/// An agent that was configured with something else than a known backend is never
/// reported.
pub proof fn law_unknown_backends_are_exempt(
    presets: Seq<Preset>,
    configured: Seq<char>,
    live: Seq<char>,
    elapsed_ms: u64,
)
    requires
        backend_named(presets, program_name(configured)) is None,
    ensures
        !fires(presets, configured, live, elapsed_ms),
{
}

/// Two notices about one agent in a row are a cooldown apart, unless it matched in
/// between.
pub proof fn law_notices_keep_their_distance(
    presets: Seq<Preset>,
    m: Reported,
    s: BackendSight,
    t0: u64,
    t1: u64,
)
    requires
        s.configured is Some,
        fires(presets, s.configured->0@, s.live@, s.elapsed_ms),
        notice_due(m, s.name@, t0),
        t1 - t0 < NOTIFY_COOLDOWN_MS,
    ensures
        !notice_due(after_sight(presets, m, s, t0), s.name@, t1),
{
}

/// A paused agent stays paused, and an agent that recovers is healthy again.
pub proof fn law_pause_is_the_operators(mismatch: bool)
    ensures
        health_after(HealthState::Paused, mismatch) == HealthState::Paused,
        health_after(health_after(HealthState::Healthy, true), false) == HealthState::Healthy,
{
}

/// What runs is not the configured backend exactly if the configured command stands for a
/// known one and what runs stands for another or for none. That is reported from fifteen
/// seconds after the start on, and again a minute after the last report.
pub proof fn law_when_an_exit_is_reported(
    presets: Seq<Preset>,
    configured: Seq<char>,
    live: Seq<char>,
    elapsed_ms: u64,
    m: Reported,
    name: Seq<char>,
    now: u64,
)
    ensures
        ({
            let want = backend_named(presets, program_name(configured));
            let runs = backend_named(presets, program_name(live));
            &&& mismatched(presets, configured, live) <==> want is Some && (runs is None || runs->0
                != want->0)
            &&& fires(presets, configured, live, elapsed_ms) <==> want is Some && (runs is None
                || runs->0 != want->0) && elapsed_ms >= 15_000
        }),
        notice_due(m, name, now) <==> !m.dom().contains(name) || now - m[name] >= 60_000,
{
}

/// An agent that is reported is remembered with the time, one that runs what it should is
/// forgotten, and nothing else changes; an agent that the fleet does not know is passed
/// over.
pub proof fn law_what_is_remembered_of_an_agent(
    presets: Seq<Preset>,
    m: Reported,
    s: BackendSight,
    now: u64,
    other: Seq<char>,
)
    ensures
        ({
            let n = after_sight(presets, m, s, now);
            let exited = s.configured is Some && fires(
                presets,
                s.configured->0@,
                s.live@,
                s.elapsed_ms,
            );
            &&& s.configured is None ==> n == m
            &&& exited && notice_due(m, s.name@, now) ==> n.dom().contains(s.name@) && n[s.name@]
                == now
            &&& exited && !notice_due(m, s.name@, now) ==> n == m
            &&& s.configured is Some && !exited ==> !n.dom().contains(s.name@)
            &&& other != s.name@ ==> n.dom().contains(other) == m.dom().contains(other) && (
            m.dom().contains(other) ==> n[other] == m[other])
        }),
{
}

proof fn lemma_others_are_untouched(
    presets: Seq<Preset>,
    m: Reported,
    s: Seq<BackendSight>,
    now: u64,
    name: Seq<char>,
)
    requires
        forall|i: int| 0 <= i < s.len() ==> (#[trigger] s[i]).name@ != name,
    ensures
        notice_due(after_sights(presets, m, s, now), name, now) == notice_due(m, name, now),
        after_sights(presets, m, s, now).dom().contains(name) == m.dom().contains(name),
        m.dom().contains(name) ==> after_sights(presets, m, s, now)[name] == m[name],
    decreases s.len(),
{
    if s.len() > 0 {
        let rest = s.drop_last();
        assert forall|i: int| 0 <= i < rest.len() implies (#[trigger] rest[i]).name@ != name by {
            assert(rest[i] == s[i]);
        }
        lemma_others_are_untouched(presets, m, rest, now, name);
        assert(s[s.len() - 1].name@ != name);
    }
}

/// Of the agents of one look exactly those are reported whose configured backend does not
/// run fifteen seconds after the start or later and whose last report, if any, is a minute
/// ago or longer; in order, each judged by its own reports. The law gives their places.
pub proof fn law_which_agents_are_reported(
    presets: Seq<Preset>,
    m: Reported,
    s: Seq<BackendSight>,
    now: u64,
) -> (at: Seq<int>)
    requires
        forall|i: int, j: int|
            0 <= i < j < s.len() ==> (#[trigger] s[i]).name@ != (#[trigger] s[j]).name@,
    ensures
        at.len() == reports(presets, m, s, now).len(),
        forall|i: int, j: int| 0 <= i < j < at.len() ==> #[trigger] at[i] < #[trigger] at[j],
        forall|i: int|
            0 <= i < at.len() ==> 0 <= #[trigger] at[i] < s.len() && reports(presets, m, s, now)[i]
                == s[at[i]],
        forall|k: int|
            0 <= k < s.len() ==> (at.contains(k) <==> {
                &&& (#[trigger] s[k]).configured is Some
                &&& mismatched(presets, s[k].configured->0@, s[k].live@)
                &&& s[k].elapsed_ms >= 15_000
                &&& m.dom().contains(s[k].name@) ==> now - m[s[k].name@] >= 60_000
            }),
    decreases s.len(),
{
    if s.len() == 0 {
        Seq::empty()
    } else {
        let rest = s.drop_last();
        let n = s.len() - 1;
        assert(forall|k: int| 0 <= k < n ==> rest[k] == #[trigger] s[k]);
        assert forall|i: int, j: int| 0 <= i < j < rest.len() implies (#[trigger] rest[i]).name@ != (
        #[trigger] rest[j]).name@ by {
            assert(s[i].name@ != s[j].name@);
        }
        let before = law_which_agents_are_reported(presets, m, rest, now);
        let l = s.last();
        assert forall|i: int| 0 <= i < rest.len() implies (#[trigger] rest[i]).name@ != l.name@ by {
            assert(s[i].name@ != s[n].name@);
        }
        lemma_others_are_untouched(presets, m, rest, now, l.name@);
        assert(!before.contains(n));
        if l.configured is Some && mismatched(presets, l.configured->0@, l.live@) && l.elapsed_ms
            >= 15_000 && (m.dom().contains(l.name@) ==> now - m[l.name@] >= 60_000) {
            let at = before.push(n);
            assert forall|k: int| 0 <= k < s.len() implies (at.contains(k) <==> {
                &&& (#[trigger] s[k]).configured is Some
                &&& mismatched(presets, s[k].configured->0@, s[k].live@)
                &&& s[k].elapsed_ms >= 15_000
                &&& m.dom().contains(s[k].name@) ==> now - m[s[k].name@] >= 60_000
            }) by {
                lemma_pushed(before, n, k);
            }
            at
        } else {
            before
        }
    }
}

/// The agents whose configured backend does not run are listed by their names, in order,
/// and no others, however long ago they were started. The law gives their places.
pub proof fn law_which_agents_mismatch(presets: Seq<Preset>, s: Seq<BackendSight>) -> (at: Seq<int>)
    ensures
        at.len() == mismatches(presets, s).len(),
        forall|i: int, j: int| 0 <= i < j < at.len() ==> #[trigger] at[i] < #[trigger] at[j],
        forall|i: int|
            0 <= i < at.len() ==> 0 <= #[trigger] at[i] < s.len() && mismatches(presets, s)[i]
                == s[at[i]].name@,
        forall|k: int|
            0 <= k < s.len() ==> (at.contains(k) <==> (#[trigger] s[k]).configured is Some
                && mismatched(presets, s[k].configured->0@, s[k].live@)),
    decreases s.len(),
{
    if s.len() == 0 {
        Seq::empty()
    } else {
        let rest = s.drop_last();
        let n = s.len() - 1;
        assert(forall|k: int| 0 <= k < n ==> rest[k] == #[trigger] s[k]);
        let before = law_which_agents_mismatch(presets, rest);
        assert(!before.contains(n));
        if s.last().configured is Some && mismatched(
            presets,
            s.last().configured->0@,
            s.last().live@,
        ) {
            let at = before.push(n);
            assert forall|k: int| 0 <= k < s.len() implies (at.contains(k) <==> (
            #[trigger] s[k]).configured is Some && mismatched(
                presets,
                s[k].configured->0@,
                s[k].live@,
            )) by {
                lemma_pushed(before, n, k);
            }
            at
        } else {
            before
        }
    }
}

/// A notice names the agent, what should run and what does.
pub proof fn law_what_a_notice_names(b: BackendExited, s: BackendSight)
    requires
        reports_on(b, s),
    ensures
        b.name@ == s.name@,
        s.configured is Some,
        b.expected@ == s.configured->0@,
        b.live@ == s.live@,
{
}

/// An agent whose backend does not run is unhealthy and one that was unhealthy recovers;
/// a paused one, and any other that runs what it should, stays as it is.
pub proof fn law_how_health_follows_the_backend(state: HealthState)
    ensures
        state != HealthState::Paused ==> health_after(state, true) == HealthState::Unhealthy,
        health_after(HealthState::Unhealthy, false) == HealthState::Healthy,
        state != HealthState::Unhealthy ==> health_after(state, false) == state,
        health_after(HealthState::Paused, true) == HealthState::Paused,
{
}

/// One more agent of a look is judged by the reports after those before it.
pub proof fn law_one_more_sight(
    presets: Seq<Preset>,
    m: Reported,
    s: Seq<BackendSight>,
    l: BackendSight,
    now: u64,
)
    ensures
        reports(presets, m, Seq::empty(), now).len() == 0,
        after_sights(presets, m, Seq::empty(), now) == m,
        ({
            let before = after_sights(presets, m, s, now);
            let known = l.configured is Some;
            let exited = known && mismatched(presets, l.configured->0@, l.live@) && l.elapsed_ms
                >= 15_000;
            let due = !before.dom().contains(l.name@) || now - before[l.name@] >= 60_000;
            &&& reports(presets, m, s.push(l), now) == (if exited && due {
                reports(presets, m, s, now).push(l)
            } else {
                reports(presets, m, s, now)
            })
            &&& after_sights(presets, m, s.push(l), now) == (if exited && due {
                before.insert(l.name@, now)
            } else if exited || !known {
                before
            } else {
                before.remove(l.name@)
            })
        }),
{
    assert(s.push(l).drop_last() =~= s);
}

} // verus!
