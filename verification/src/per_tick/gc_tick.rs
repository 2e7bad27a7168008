//! The hourly collection of released worktrees and of old build directories.
use crate::cadence::{fresh_gate, ticked, CadenceGate, GateState};
use vstd::prelude::*;

verus! {

/// What became of one build directory.
#[derive(Debug, Clone, Copy, PartialEq, Eq, Structural)]
pub struct TargetSweep {
    pub removed: bool,
    pub freed_bytes: u64,
}

/// How many of a list are true.
pub open spec fn true_count(v: Seq<bool>) -> nat
    decreases v.len(),
{
    if v.len() == 0 {
        0
    } else {
        true_count(v.drop_last()) + if v.last() {
            1nat
        } else {
            0nat
        }
    }
}

proof fn lemma_true_count(v: Seq<bool>)
    ensures
        true_count(v) <= v.len(),
    decreases v.len(),
{
    if v.len() > 0 {
        lemma_true_count(v.drop_last());
    }
}

/// How many worktrees were removed, and how many were not, given whether each was.
pub fn tally(removed: &Vec<bool>) -> (r: (usize, usize))
    ensures
        r.0 == true_count(removed@),
        r.1 == removed@.len() - true_count(removed@),
{
    let mut n: usize = 0;
    let mut i: usize = 0;
    while i < removed.len()
        invariant
            i <= removed@.len(),
            n <= i,
            n == true_count(removed@.take(i as int)),
        decreases removed@.len() - i,
    {
        assert(removed@.take(i + 1).drop_last() =~= removed@.take(i as int));
        if removed[i] {
            n = n + 1;
        }
        i = i + 1;
    }
    assert(removed@.take(i as int) =~= removed@);
    (n, removed.len() - n)
}

/// How many build directories were removed.
pub open spec fn reclaimed(v: Seq<TargetSweep>) -> nat
    decreases v.len(),
{
    if v.len() == 0 {
        0
    } else {
        reclaimed(v.drop_last()) + if v.last().removed {
            1nat
        } else {
            0nat
        }
    }
}

/// The bytes of the build directories that were removed.
pub open spec fn freed(v: Seq<TargetSweep>) -> nat
    decreases v.len(),
{
    if v.len() == 0 {
        0
    } else {
        freed(v.drop_last()) + if v.last().removed {
            v.last().freed_bytes as nat
        } else {
            0nat
        }
    }
}

proof fn lemma_freed_prefix(v: Seq<TargetSweep>, i: int)
    requires
        0 <= i <= v.len(),
    ensures
        freed(v.take(i)) <= freed(v),
    decreases v.len(),
{
    if i < v.len() {
        lemma_freed_prefix(v.drop_last(), i);
        assert(v.drop_last().take(i) =~= v.take(i));
    } else {
        assert(v.take(i) =~= v);
    }
}

/// How many build directories were removed and how many whole mebibytes that freed;
/// nothing where none was.
pub fn target_sweep_summary(swept: &Vec<TargetSweep>) -> (r: Option<(usize, u64)>)
    requires
        freed(swept@) <= u64::MAX,
    ensures
        r is None <==> reclaimed(swept@) == 0,
        r is Some ==> (r->0).0 == reclaimed(swept@) && (r->0).1 == freed(swept@) / (1024 * 1024),
{
    let mut n: usize = 0;
    let mut bytes: u64 = 0;
    let mut i: usize = 0;
    while i < swept.len()
        invariant
            freed(swept@) <= u64::MAX,
            i <= swept@.len(),
            n <= i,
            n == reclaimed(swept@.take(i as int)),
            bytes == freed(swept@.take(i as int)),
        decreases swept@.len() - i,
    {
        proof {
            assert(swept@.take(i + 1).drop_last() =~= swept@.take(i as int));
            lemma_freed_prefix(swept@, i + 1);
        }
        if swept[i].removed {
            n = n + 1;
            bytes = bytes + swept[i].freed_bytes;
        }
        i = i + 1;
    }
    assert(swept@.take(i as int) =~= swept@);
    if n == 0 {
        None
    } else {
        Some((n, bytes / (1024 * 1024)))
    }
}

/// Collects worktrees and build directories.
pub struct GcTickHandler {
    gate: CadenceGate,
    target_sweep_armed: bool,
}

impl GcTickHandler {
    /// What its gate counts.
    pub closed spec fn gate(&self) -> GateState {
        self.gate@
    }

    /// The next pass also sweeps the build directories.
    pub closed spec fn armed(&self) -> bool {
        self.target_sweep_armed
    }

    pub fn new(every_n_ticks: u64) -> (h: Self)
        ensures
            h.gate() == fresh_gate(every_n_ticks),
            !h.armed(),
    {
        GcTickHandler { gate: CadenceGate::new(every_n_ticks), target_sweep_armed: false }
    }

    /// The name of the handler.
    pub fn name(&self) -> (r: &'static str)
        ensures
            r@ == "gc_tick"@,
    {
        "gc_tick"
    }

    /// One tick: whether it is time to run.
    pub fn due(&mut self) -> (r: bool)
        ensures
            ticked(old(self).gate(), final(self).gate(), r),
            final(self).armed() == old(self).armed(),
    {
        self.gate.fire()
    }

    /// Whether a pass sweeps the build directories: every one but the first, which
    /// falls into the start of the daemon.
    pub fn arm_target_sweep(&mut self) -> (sweep: bool)
        ensures
            sweep == old(self).armed(),
            final(self).armed(),
            final(self).gate() == old(self).gate(),
    {
        let sweep: bool = self.target_sweep_armed;
        self.target_sweep_armed = true;
        sweep
    }
}

/// The worktrees that were removed are counted wherever they stand, and so are the build
/// directories.
pub proof fn law_what_is_counted(v: Seq<bool>, w: Seq<TargetSweep>)
    ensures
        true_count(v) == v.filter(|b: bool| b).len(),
        reclaimed(w) == w.filter(|t: TargetSweep| t.removed).len(),
    decreases v.len() + w.len(),
{
    reveal(Seq::filter);
    if v.len() > 0 {
        law_what_is_counted(v.drop_last(), w);
    } else if w.len() > 0 {
        law_what_is_counted(v, w.drop_last());
    }
}

/// Each build directory that was removed frees its bytes, and one that was not frees none.
pub proof fn law_what_is_freed(w: Seq<TargetSweep>, t: TargetSweep)
    ensures
        freed(Seq::empty()) == 0,
        freed(w.push(t)) == freed(w) + (if t.removed {
            t.freed_bytes as int
        } else {
            0
        }),
{
    assert(w.push(t).drop_last() =~= w);
}

} // verus!
