//! The four hourly sweeps as one handler: their gates count on the tick, their work
//! runs elsewhere, one round at a time.
use crate::cadence::{fresh_gate, graced_gate, ticked, CadenceGate, GateState};
use crate::per_tick::gc_tick::GcTickHandler;
use crate::per_tick::offload::OffloadGuard;
use vstd::prelude::*;

verus! {

/// One of the sweeps.
#[derive(Debug, Clone, Copy, PartialEq, Eq, Structural)]
pub enum Sweep {
    GcTick,
    WorkspaceBoundary,
    TmpReview,
    ReconcileBackups,
}

impl Sweep {
    pub open spec fn text(self) -> Seq<char> {
        match self {
            Sweep::GcTick => "gc_tick"@,
            Sweep::WorkspaceBoundary => "workspace_boundary_sweep"@,
            Sweep::TmpReview => "tmp_review_gc"@,
            Sweep::ReconcileBackups => "reconcile_backups_gc"@,
        }
    }

    /// The name of the sweep.
    pub fn name(self) -> (r: &'static str)
        ensures
            r@ == self.text(),
    {
        match self {
            Sweep::GcTick => "gc_tick",
            Sweep::WorkspaceBoundary => "workspace_boundary_sweep",
            Sweep::TmpReview => "tmp_review_gc",
            Sweep::ReconcileBackups => "reconcile_backups_gc",
        }
    }
}

/// Which of the sweeps are due.
#[derive(Debug, Clone, Copy, PartialEq, Eq, Structural)]
pub struct DueSweeps {
    pub gc_tick: bool,
    pub workspace_boundary: bool,
    pub tmp_review: bool,
    pub reconcile_backups: bool,
}

/// The list with one more sweep where that is due.
pub open spec fn and_if(s: Seq<Sweep>, due: bool, sweep: Sweep) -> Seq<Sweep> {
    if due {
        s.push(sweep)
    } else {
        s
    }
}

/// The sweeps that are due, in the order in which they run: worktrees are collected
/// before the workspace is swept for them.
pub open spec fn round(d: DueSweeps) -> Seq<Sweep> {
    and_if(
        and_if(
            and_if(
                and_if(Seq::empty(), d.gc_tick, Sweep::GcTick),
                d.workspace_boundary,
                Sweep::WorkspaceBoundary,
            ),
            d.tmp_review,
            Sweep::TmpReview,
        ),
        d.reconcile_backups,
        Sweep::ReconcileBackups,
    )
}

/// The sweeps that are due, in the order in which they run.
pub fn due_sweeps(d: DueSweeps) -> (r: Vec<Sweep>)
    ensures
        r@ == round(d),
{
    let mut r: Vec<Sweep> = Vec::new();
    if d.gc_tick {
        r.push(Sweep::GcTick);
    }
    if d.workspace_boundary {
        r.push(Sweep::WorkspaceBoundary);
    }
    if d.tmp_review {
        r.push(Sweep::TmpReview);
    }
    if d.reconcile_backups {
        r.push(Sweep::ReconcileBackups);
    }
    assert(r@ =~= round(d));
    r
}

/// The four gates.
pub struct Gates {
    pub gc_tick: GateState,
    pub workspace_boundary: GateState,
    pub tmp_review: GateState,
    pub reconcile_backups: GateState,
}

/// Each of the gates has taken one tick.
pub open spec fn all_ticked(before: Gates, after: Gates, d: DueSweeps) -> bool {
    &&& ticked(before.gc_tick, after.gc_tick, d.gc_tick)
    &&& ticked(before.workspace_boundary, after.workspace_boundary, d.workspace_boundary)
    &&& ticked(before.tmp_review, after.tmp_review, d.tmp_review)
    &&& ticked(before.reconcile_backups, after.reconcile_backups, d.reconcile_backups)
}

/// Runs the hourly sweeps.
pub struct HourlyGcHandler {
    gc_tick: GcTickHandler,
    workspace_boundary: CadenceGate,
    tmp_review: CadenceGate,
    reconcile_backups: CadenceGate,
    guard: OffloadGuard,
}

impl HourlyGcHandler {
    pub closed spec fn gates(&self) -> Gates {
        Gates {
            gc_tick: self.gc_tick.gate(),
            workspace_boundary: self.workspace_boundary@,
            tmp_review: self.tmp_review@,
            reconcile_backups: self.reconcile_backups@,
        }
    }

    /// A round is running.
    pub closed spec fn busy(&self) -> bool {
        self.guard.busy()
    }

    /// The next worktree collection also sweeps the build directories.
    pub closed spec fn armed(&self) -> bool {
        self.gc_tick.armed()
    }

    /// A handler with four fresh gates; that of the workspace sweep stays shut for a
    /// while.
    pub fn new(every_n_ticks: u64, boot_grace_ms: u64) -> (h: Self)
        ensures
            h.gates() == (Gates {
                gc_tick: fresh_gate(every_n_ticks),
                workspace_boundary: graced_gate(every_n_ticks, boot_grace_ms),
                tmp_review: fresh_gate(every_n_ticks),
                reconcile_backups: fresh_gate(every_n_ticks),
            }),
            !h.busy(),
            !h.armed(),
    {
        HourlyGcHandler {
            gc_tick: GcTickHandler::new(every_n_ticks),
            workspace_boundary: CadenceGate::new_with_boot_grace(every_n_ticks, boot_grace_ms),
            tmp_review: CadenceGate::new(every_n_ticks),
            reconcile_backups: CadenceGate::new(every_n_ticks),
            guard: OffloadGuard::new(),
        }
    }

    /// The name of the handler.
    pub fn name(&self) -> (r: &'static str)
        ensures
            r@ == "hourly_gc"@,
    {
        "hourly_gc"
    }

    /// One tick: the sweeps to run in the background, in order. Every gate takes the
    /// tick, whether a round is running or not; a round that is running keeps
    /// another from beginning.
    pub fn run(&mut self) -> (r: Vec<Sweep>)
        ensures
            exists|d: DueSweeps| #[trigger]
                all_ticked(old(self).gates(), final(self).gates(), d) && r@ == (if old(self).busy() {
                    Seq::empty()
                } else {
                    round(d)
                }) && final(self).busy() == (old(self).busy() || round(d).len() > 0),
            final(self).armed() == old(self).armed(),
    {
        let d = DueSweeps {
            gc_tick: self.gc_tick.due(),
            workspace_boundary: self.workspace_boundary.fire(),
            tmp_review: self.tmp_review.fire(),
            reconcile_backups: self.reconcile_backups.fire(),
        };
        assert(all_ticked(old(self).gates(), self.gates(), d));
        let sweeps = due_sweeps(d);
        if sweeps.len() == 0 {
            assert(sweeps@ =~= Seq::<Sweep>::empty());
            return sweeps;
        }
        if !self.guard.begin() {
            return Vec::new();
        }
        sweeps
    }

    /// Whether the worktree collection of this round also sweeps the build
    /// directories.
    pub fn arm_target_sweep(&mut self) -> (sweep: bool)
        ensures
            sweep == old(self).armed(),
            final(self).armed(),
            final(self).gates() == old(self).gates(),
            final(self).busy() == old(self).busy(),
    {
        self.gc_tick.arm_target_sweep()
    }

    /// The round is over, however it ended.
    pub fn finish(&mut self)
        ensures
            !final(self).busy(),
            final(self).gates() == old(self).gates(),
            final(self).armed() == old(self).armed(),
    {
        self.guard.finish();
    }

    /// Whether a round is running.
    pub fn is_in_flight(&self) -> (r: bool)
        ensures
            r == self.busy(),
    {
        self.guard.is_in_flight()
    }
}

/// A round holds no sweep that is not due, each due one once, and the worktree
/// collection first.
pub proof fn law_round_runs_what_is_due(d: DueSweeps)
    ensures
        round(d).no_duplicates(),
        round(d).contains(Sweep::GcTick) <==> d.gc_tick,
        round(d).contains(Sweep::WorkspaceBoundary) <==> d.workspace_boundary,
        round(d).contains(Sweep::TmpReview) <==> d.tmp_review,
        round(d).contains(Sweep::ReconcileBackups) <==> d.reconcile_backups,
        d.gc_tick ==> round(d)[0] == Sweep::GcTick,
{
    let a = and_if(Seq::empty(), d.gc_tick, Sweep::GcTick);
    let b = and_if(a, d.workspace_boundary, Sweep::WorkspaceBoundary);
    let c = and_if(b, d.tmp_review, Sweep::TmpReview);
    let e = round(d);
    if d.gc_tick {
        assert(e[0] == Sweep::GcTick);
    }
    if d.workspace_boundary {
        assert(e[a.len() as int] == Sweep::WorkspaceBoundary);
    }
    if d.tmp_review {
        assert(e[b.len() as int] == Sweep::TmpReview);
    }
    if d.reconcile_backups {
        assert(e[c.len() as int] == Sweep::ReconcileBackups);
    }
}

/// A round runs the sweeps in one order, whichever of them are due: worktrees, workspace,
/// reviews, backups.
pub proof fn law_the_order_of_a_round(d: DueSweeps, i: int, j: int)
    requires
        0 <= i < round(d).len(),
        0 <= j < round(d).len(),
    ensures
        round(d)[i] == Sweep::GcTick && round(d)[j] != Sweep::GcTick ==> i < j,
        round(d)[i] == Sweep::WorkspaceBoundary && (round(d)[j] == Sweep::TmpReview || round(d)[j]
            == Sweep::ReconcileBackups) ==> i < j,
        round(d)[i] == Sweep::TmpReview && round(d)[j] == Sweep::ReconcileBackups ==> i < j,
{
}

/// A tick of the handler is a tick of each of its gates, and each sweep has its name.
pub proof fn law_every_gate_takes_the_tick(before: Gates, after: Gates, d: DueSweeps)
    requires
        all_ticked(before, after, d),
    ensures
        ticked(before.gc_tick, after.gc_tick, d.gc_tick),
        ticked(before.workspace_boundary, after.workspace_boundary, d.workspace_boundary),
        ticked(before.tmp_review, after.tmp_review, d.tmp_review),
        ticked(before.reconcile_backups, after.reconcile_backups, d.reconcile_backups),
        Sweep::GcTick.text() == "gc_tick"@,
        Sweep::WorkspaceBoundary.text() == "workspace_boundary_sweep"@,
        Sweep::TmpReview.text() == "tmp_review_gc"@,
        Sweep::ReconcileBackups.text() == "reconcile_backups_gc"@,
{
}

} // verus!
