//! Forgets the external agents whose process is gone.
use crate::events::{event, LogEvent};
use crate::positions::lemma_pushed;
use crate::table::{kept, Table};
use vstd::prelude::*;

verus! {

/// An agent that the daemon did not start.
pub struct ExternalAgent {
    pub backend_command: String,
    pub pid: u32,
}

/// The external agents whose process is among these.
pub open spec fn runs(alive: Seq<u32>) -> spec_fn(Seq<char>, ExternalAgent) -> bool {
    |name: Seq<char>, a: ExternalAgent| alive.contains(a.pid)
}

/// The agents that are gone, in the order of the table.
pub open spec fn gone(m: Map<Seq<char>, ExternalAgent>, order: Seq<Seq<char>>, alive: Seq<u32>) -> Seq<
    Seq<char>,
>
    decreases order.len(),
{
    if order.len() == 0 {
        Seq::empty()
    } else if alive.contains(m[order.last()].pid) {
        gone(m, order.drop_last(), alive)
    } else {
        gone(m, order.drop_last(), alive).push(order.last())
    }
}

fn has_pid(alive: &Vec<u32>, pid: u32) -> (r: bool)
    ensures
        r == alive@.contains(pid),
{
    let mut i: usize = 0;
    while i < alive.len()
        invariant
            i <= alive@.len(),
            forall|k: int| 0 <= k < i ==> alive@[k] != pid,
        decreases alive@.len() - i,
    {
        if alive[i] == pid {
            assert(alive@[i as int] == pid);
            return true;
        }
        i = i + 1;
    }
    false
}

/// Forgets the external agents whose process is gone.
pub struct ExternalLivenessHandler;

impl ExternalLivenessHandler {
    pub fn new() -> (h: Self)
        ensures
            h == ExternalLivenessHandler,
    {
        ExternalLivenessHandler
    }

    /// The name of the handler.
    pub fn name(&self) -> (r: &'static str)
        ensures
            r@ == "external_liveness"@,
    {
        "external_liveness"
    }

    /// Forgets the agents whose process is not among those that are alive, and
    /// gives the record of each.
    pub fn run(&self, externals: &mut Table<String, ExternalAgent>, alive: &Vec<u32>) -> (r: Vec<LogEvent>)
        ensures
            final(externals)@ == kept(old(externals)@, runs(alive@)),
            ({
                let g = gone(old(externals)@, old(externals).order(), alive@);
                &&& r@.len() == g.len()
                &&& forall|i: int|
                    0 <= i < g.len() ==> (#[trigger] r@[i]).says(
                        "disconnect"@,
                        g[i],
                        "external agent PID gone"@,
                    )
            }),
    {
        let ghost m = externals@;
        let ghost order = externals.order();
        let n: usize = externals.positions();
        let mut r: Vec<LogEvent> = Vec::new();
        let mut i: usize = 0;
        assert(order.take(0) =~= Seq::<Seq<char>>::empty());
        while i < n
            invariant
                externals@ == m,
                externals.order() == order,
                n == order.len(),
                i <= n,
                r@.len() == gone(m, order.take(i as int), alive@).len(),
                forall|k: int|
                    0 <= k < r@.len() ==> (#[trigger] r@[k]).says(
                        "disconnect"@,
                        gone(m, order.take(i as int), alive@)[k],
                        "external agent PID gone"@,
                    ),
            decreases n - i,
        {
            assert(order.take(i + 1).drop_last() =~= order.take(i as int));
            assert(order.take(i + 1).last() == order[i as int]);
            if !has_pid(alive, externals.value_at(i).pid) {
                r.push(event("disconnect", externals.key_at(i).as_str(), "external agent PID gone"));
            }
            i = i + 1;
        }
        assert(order.take(i as int) =~= order);
        let keep = |k: &String, a: &ExternalAgent| -> (b: bool)
            ensures
                b == alive@.contains(a.pid),
        {
            has_pid(alive, a.pid)
        };
        let _gone: usize = externals.retain(keep, Ghost(runs(alive@)));
        r
    }
}

/// The agents that are gone are exactly those whose process is not alive, in the order of
/// the table, and exactly the others are kept, as they were. The law gives the places of
/// those that are gone.
pub proof fn law_which_agents_are_gone(
    m: Map<Seq<char>, ExternalAgent>,
    order: Seq<Seq<char>>,
    alive: Seq<u32>,
) -> (at: Seq<int>)
    ensures
        at.len() == gone(m, order, alive).len(),
        forall|i: int, j: int| 0 <= i < j < at.len() ==> #[trigger] at[i] < #[trigger] at[j],
        forall|i: int|
            0 <= i < at.len() ==> 0 <= #[trigger] at[i] < order.len() && gone(m, order, alive)[i]
                == order[at[i]],
        forall|k: int|
            0 <= k < order.len() ==> (at.contains(k) <==> !alive.contains(
                m[#[trigger] order[k]].pid,
            )),
        forall|name: Seq<char>| #[trigger]
            kept(m, runs(alive)).dom().contains(name) <==> m.dom().contains(name) && alive.contains(
                m[name].pid,
            ),
    decreases order.len(),
{
    if order.len() == 0 {
        Seq::empty()
    } else {
        let rest = order.drop_last();
        let n = order.len() - 1;
        assert(forall|k: int| 0 <= k < n ==> rest[k] == #[trigger] order[k]);
        let before = law_which_agents_are_gone(m, rest, alive);
        assert(!before.contains(n));
        if !alive.contains(m[order.last()].pid) {
            let at = before.push(n);
            assert forall|k: int| 0 <= k < order.len() implies (at.contains(k) <==> !alive.contains(
                m[#[trigger] order[k]].pid,
            )) by {
                lemma_pushed(before, n, k);
            }
            at
        } else {
            before
        }
    }
}

} // verus!
