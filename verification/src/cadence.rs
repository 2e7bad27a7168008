//! The cadence of periodic work: on which ticks a piece of work is due.
use crate::clock::{clock_start, nanos_since};
use vstd::prelude::*;

verus! {

/// When a gate opens.
#[derive(Debug, Clone, Copy, PartialEq, Eq, Structural)]
pub enum Cadence {
    /// On the first tick and on every `n`-th after it.
    FirstThenEvery,
    /// On every `n`-th tick, for the first time on the `n`-th.
    EveryNth,
}

/// What a gate counts.
#[derive(Debug, Clone, Copy, PartialEq, Eq, Structural)]
pub struct GateState {
    pub cadence: Cadence,
    pub every: u64,
    /// The ticks that were counted; they start over where the number runs out.
    pub counter: u64,
    /// How long it stays shut after its making, in milliseconds.
    pub grace_ms: u64,
}

/// Whether `n` is a multiple of `every`; of zero only zero is.
pub open spec fn multiple_of(n: u64, every: u64) -> bool {
    if every == 0 {
        n == 0
    } else {
        n % every == 0
    }
}

/// Whether `n` is a multiple of `every`.
pub fn is_multiple_of(n: u64, every: u64) -> (r: bool)
    ensures
        r == multiple_of(n, every),
{
    if every == 0 {
        n == 0
    } else {
        n % every == 0
    }
}

/// The number after `n`, or zero where it runs out.
pub open spec fn next_tick(n: u64) -> u64 {
    if n == u64::MAX {
        0
    } else {
        (n + 1) as u64
    }
}

/// One tick of a gate that is `age_ms` old: its new state, and whether it opens.
/// In its grace window a gate does not count.
pub open spec fn gate_next(g: GateState, age_ms: u64) -> (GateState, bool) {
    if age_ms < g.grace_ms {
        (g, false)
    } else {
        match g.cadence {
            Cadence::FirstThenEvery => (
                GateState { counter: next_tick(g.counter), ..g },
                multiple_of(g.counter, g.every),
            ),
            Cadence::EveryNth => if next_tick(g.counter) >= g.every {
                (GateState { counter: 0, ..g }, true)
            } else {
                (GateState { counter: next_tick(g.counter), ..g }, false)
            },
        }
    }
}

/// What counts for a piece of work that is due on the first tick and on every `n`-th
/// after it.
pub open spec fn fresh_gate(every_n_ticks: u64) -> GateState {
    graced_gate(every_n_ticks, 0)
}

/// The same, shut for a while after its making.
pub open spec fn graced_gate(every_n_ticks: u64, grace_ms: u64) -> GateState {
    GateState { cadence: Cadence::FirstThenEvery, every: every_n_ticks, counter: 0, grace_ms }
}

/// A gate has taken one tick: without a grace window exactly as its count says,
/// otherwise as it says for some age.
pub open spec fn ticked(before: GateState, after: GateState, due: bool) -> bool {
    &&& exists|age_ms: u64| (after, due) == #[trigger] gate_next(before, age_ms)
    &&& before.grace_ms == 0 ==> (after, due) == gate_next(before, 0)
}

/// A gate that was `born_ms` old at its making has taken one tick: as its count says
/// for some age from there on, and exactly so where no age from there on lies in its
/// grace window.
pub open spec fn ticked_since(before: GateState, after: GateState, due: bool, born_ms: u64) -> bool {
    &&& exists|age_ms: u64|
        age_ms >= born_ms && (after, due) == #[trigger] gate_next(before, age_ms)
    &&& before.grace_ms <= born_ms ==> (after, due) == gate_next(before, born_ms)
}

/// A gate that opens on some of the ticks.
pub struct CadenceGate {
    state: GateState,
    start: std::time::Instant,
    born_aged_ms: u64,
}

impl View for CadenceGate {
    type V = GateState;

    closed spec fn view(&self) -> GateState {
        self.state
    }
}

impl CadenceGate {
    /// How old it was at its making, in milliseconds.
    pub closed spec fn born_age(&self) -> u64 {
        self.born_aged_ms
    }

    /// A gate that opens on the first tick and on every `n`-th after it.
    pub fn new(every_n_ticks: u64) -> (g: Self)
        ensures
            g@ == fresh_gate(every_n_ticks),
            g.born_age() == 0,
    {
        CadenceGate::new_with_boot_grace_aged(every_n_ticks, 0, 0)
    }

    /// A gate that opens on every `n`-th tick.
    pub fn new_interval(every_n_ticks: u64) -> (g: Self)
        ensures
            g@ == (GateState {
                cadence: Cadence::EveryNth,
                every: every_n_ticks,
                counter: 0,
                grace_ms: 0,
            }),
            g.born_age() == 0,
    {
        CadenceGate {
            state: GateState {
                cadence: Cadence::EveryNth,
                every: every_n_ticks,
                counter: 0,
                grace_ms: 0,
            },
            start: clock_start(),
            born_aged_ms: 0,
        }
    }

    /// A gate that stays shut for a while after its making.
    pub fn new_with_boot_grace(every_n_ticks: u64, grace_ms: u64) -> (g: Self)
        ensures
            g@ == graced_gate(every_n_ticks, grace_ms),
            g.born_age() == 0,
    {
        CadenceGate::new_with_boot_grace_aged(every_n_ticks, grace_ms, 0)
    }

    /// The same, for a gate that counts as made `age_ms` ago.
    pub fn new_with_boot_grace_aged(every_n_ticks: u64, grace_ms: u64, age_ms: u64) -> (g: Self)
        ensures
            g@ == graced_gate(every_n_ticks, grace_ms),
            g.born_age() == age_ms,
    {
        CadenceGate {
            state: GateState {
                cadence: Cadence::FirstThenEvery,
                every: every_n_ticks,
                counter: 0,
                grace_ms,
            },
            start: clock_start(),
            born_aged_ms: age_ms,
        }
    }

    /// One tick: whether the work is due. Without a grace window the answer does
    /// not depend on the clock.
    pub fn fire(&mut self) -> (due: bool)
        ensures
            ticked(old(self)@, final(self)@, due),
            ticked_since(old(self)@, final(self)@, due, old(self).born_age()),
            final(self).born_age() == old(self).born_age(),
    {
        let age_ms: u64 = self.born_aged_ms.saturating_add(nanos_since(&self.start) / 1_000_000);
        let ghost before = self.state;
        let due: bool = self.fire_at(age_ms);
        assert((self.state, due) == gate_next(before, age_ms));
        due
    }

    /// One tick of a gate that is `age_ms` old: whether the work is due.
    pub fn fire_at(&mut self, age_ms: u64) -> (due: bool)
        ensures
            (final(self)@, due) == gate_next(old(self)@, age_ms),
            final(self).born_age() == old(self).born_age(),
    {
        if age_ms < self.state.grace_ms {
            return false;
        }
        let seen: u64 = self.state.counter;
        let next: u64 = if seen == u64::MAX {
            0
        } else {
            seen + 1
        };
        match self.state.cadence {
            Cadence::FirstThenEvery => {
                self.state.counter = next;
                is_multiple_of(seen, self.state.every)
            },
            Cadence::EveryNth => {
                if next >= self.state.every {
                    self.state.counter = 0;
                    true
                } else {
                    self.state.counter = next;
                    false
                }
            },
        }
    }
}

// ---------------------------------------------------------------------------
// Laws
// ---------------------------------------------------------------------------

/// A gate after `ticks` ticks out of its grace window.
pub open spec fn after_ticks(g: GateState, ticks: nat) -> GateState
    decreases ticks,
{
    if ticks == 0 {
        g
    } else {
        gate_next(after_ticks(g, (ticks - 1) as nat), g.grace_ms).0
    }
}

proof fn lemma_after_ticks(g: GateState, ticks: nat)
    requires
        g.counter == 0,
        g.cadence == Cadence::FirstThenEvery,
        ticks <= u64::MAX,
    ensures
        after_ticks(g, ticks) == (GateState { counter: ticks as u64, ..g }),
    decreases ticks,
{
    if ticks > 0 {
        lemma_after_ticks(g, (ticks - 1) as nat);
    }
}

/// A fresh gate opens on tick `i`, counted from zero, exactly where `i` is a
/// multiple of its period.
pub proof fn law_first_then_every(g: GateState, i: nat)
    requires
        g.counter == 0,
        g.cadence == Cadence::FirstThenEvery,
        i <= u64::MAX,
    ensures
        gate_next(after_ticks(g, i), g.grace_ms).1 == multiple_of(i as u64, g.every),
{
    lemma_after_ticks(g, i);
}

/// A fresh interval gate stays shut for the first `every - 1` ticks, opens on the
/// next, and is then as it was.
pub proof fn law_every_nth(g: GateState, i: nat)
    requires
        g.counter == 0,
        g.cadence == Cadence::EveryNth,
        0 < g.every < u64::MAX,
        i < g.every,
    ensures
        after_ticks(g, i) == (GateState { counter: i as u64, ..g }),
        gate_next(after_ticks(g, i), g.grace_ms).1 == (i + 1 == g.every),
        i + 1 == g.every ==> gate_next(after_ticks(g, i), g.grace_ms).0 == g,
    decreases i,
{
    if i > 0 {
        law_every_nth(g, (i - 1) as nat);
    }
}

/// A gate that was older than its grace window at its making opens on its first tick.
pub proof fn law_an_aged_gate_opens_at_once(every: u64, grace_ms: u64, born_ms: u64, after: GateState, due: bool)
    requires
        grace_ms <= born_ms,
        ticked_since(graced_gate(every, grace_ms), after, due, born_ms),
    ensures
        due,
        after == (GateState { counter: 1, ..graced_gate(every, grace_ms) }),
{
}

/// In its grace window a gate never opens and loses no tick.
pub proof fn law_grace_loses_no_tick(g: GateState, age_ms: u64)
    requires
        age_ms < g.grace_ms,
    ensures
        gate_next(g, age_ms) == (g, false),
{
}

/// A gate out of its grace window counts every tick, and starts over where the number
/// runs out; nothing else about it changes. One that opens on the first tick and every
/// `n`-th after it opens exactly on the counts that `n` divides, and one without a period
/// on the first only.
pub proof fn law_what_a_tick_does(g: GateState, age_ms: u64)
    requires
        age_ms >= g.grace_ms,
        g.cadence == Cadence::FirstThenEvery,
    ensures
        ({
            let (n, due) = gate_next(g, age_ms);
            &&& g.counter < u64::MAX ==> n.counter == g.counter + 1
            &&& g.counter == u64::MAX ==> n.counter == 0
            &&& n.cadence == g.cadence && n.every == g.every && n.grace_ms == g.grace_ms
            &&& g.every > 0 ==> (due <==> exists|k: int| #[trigger]
                (k * g.every as int) == g.counter as int)
            &&& g.every == 0 ==> (due <==> g.counter == 0)
        }),
{
    if g.every > 0 {
        let (c, e) = (g.counter as int, g.every as int);
        vstd::arithmetic::div_mod::lemma_fundamental_div_mod(c, e);
        if c % e == 0 {
            assert((c / e) * e == c) by (nonlinear_arith)
                requires
                    c == e * (c / e) + c % e,
                    c % e == 0,
            ;
        }
        if exists|k: int| #[trigger] (k * e) == c {
            let k = choose|k: int| #[trigger] (k * e) == c;
            vstd::arithmetic::div_mod::lemma_mod_multiples_basic(k, e);
        }
    }
}

/// An interval gate out of its grace window opens exactly when its count reaches its
/// period, and then counts anew; nothing else about it changes.
pub proof fn law_what_a_tick_of_an_interval_does(g: GateState, age_ms: u64)
    requires
        age_ms >= g.grace_ms,
        g.cadence == Cadence::EveryNth,
    ensures
        ({
            let (n, due) = gate_next(g, age_ms);
            let count = if g.counter == u64::MAX {
                0
            } else {
                g.counter + 1
            };
            &&& due <==> count >= g.every
            &&& due ==> n.counter == 0
            &&& !due ==> n.counter == count
            &&& n.cadence == g.cadence && n.every == g.every && n.grace_ms == g.grace_ms
        }),
{
}

/// A fresh gate has counted nothing, opens on the first tick and has no grace window but
/// the one that it was given.
pub proof fn law_what_a_fresh_gate_is(every: u64, grace_ms: u64)
    ensures
        fresh_gate(every) == graced_gate(every, 0),
        graced_gate(every, grace_ms).counter == 0,
        graced_gate(every, grace_ms).every == every,
        graced_gate(every, grace_ms).grace_ms == grace_ms,
        graced_gate(every, grace_ms).cadence == Cadence::FirstThenEvery,
        gate_next(graced_gate(every, grace_ms), grace_ms).1,
{
}

/// A tick of a gate without a grace window does not depend on the clock, and no tick of
/// any gate does more than shut it or count.
pub proof fn law_what_a_gate_has_taken(
    before: GateState,
    after: GateState,
    due: bool,
    born_ms: u64,
)
    ensures
        ticked(before, after, due) && before.grace_ms == 0 ==> (after, due) == gate_next(
            before,
            u64::MAX,
        ),
        ticked(before, after, due) ==> (after, due) == (before, false) || (after, due) == gate_next(
            before,
            u64::MAX,
        ),
        ticked_since(before, after, due, born_ms) && before.grace_ms <= born_ms ==> (after, due)
            == gate_next(before, u64::MAX),
        ticked_since(before, after, due, born_ms) ==> (after, due) == (before, false) || (
        after,
        due,
    ) == gate_next(before, u64::MAX),
{
}

/// The ticks are counted one by one and start over where the number runs out; a period
/// divides a count exactly if the count is so many times the period, and without a period
/// only the first tick counts.
pub proof fn law_how_ticks_are_counted(n: u64, every: u64, times: int)
    ensures
        n < u64::MAX ==> next_tick(n) == n + 1,
        next_tick(u64::MAX) == 0,
        multiple_of(n, 0) <==> n == 0,
        every > 0 && n == times * every ==> multiple_of(n, every),
        every > 0 && times * every < n < (times + 1) * every ==> !multiple_of(n, every),
{
    if every > 0 {
        let (c, e) = (n as int, every as int);
        if c == times * e {
            vstd::arithmetic::div_mod::lemma_mod_multiples_basic(times, e);
        }
        if times * e < c < (times + 1) * e {
            assert(c % e != 0) by (nonlinear_arith)
                requires
                    e > 0,
                    times * e < c,
                    c < (times + 1) * e,
            ;
        }
    }
}

} // verus!
