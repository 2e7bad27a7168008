//! The maintenance cycle of a host that owns its fleet.
use crate::owner_services::{OwnerRole, OwnerServicesStarted};
use vstd::prelude::*;

verus! {

/// Where a host is in its cycle.
#[derive(Debug, Clone, Copy, PartialEq, Eq, Structural)]
pub enum Phase {
    /// Between two ticks.
    Waiting,
    /// Before the handlers.
    Preflight,
    /// In the handler at this position.
    Handler(usize),
    /// After the handlers.
    PostHandlers,
}

/// One step of a cycle.
#[derive(Debug, Clone, Copy, PartialEq, Eq, Structural)]
pub enum CycleStep {
    /// The runtime controls are read anew.
    ReloadControls,
    /// The handler at this position runs; a panic in it stops no other.
    RunHandler(usize),
    /// The handlers are over.
    Close,
}

/// The steps of a cycle with this many handlers.
pub open spec fn cycle_steps(handlers: nat) -> Seq<CycleStep> {
    Seq::new(
        handlers + 2,
        |i: int|
            if i == 0 {
                CycleStep::ReloadControls
            } else if i <= handlers {
                CycleStep::RunHandler((i - 1) as usize)
            } else {
                CycleStep::Close
            },
    )
}

/// Where a host is while it takes a step.
pub open spec fn phase_in(step: CycleStep) -> Phase {
    match step {
        CycleStep::ReloadControls => Phase::Preflight,
        CycleStep::RunHandler(i) => Phase::Handler(i),
        CycleStep::Close => Phase::PostHandlers,
    }
}

/// The maintenance cycle of an owning host.
pub struct OwnedMaintenanceCycle {
    handlers: Vec<String>,
    services: OwnerServicesStarted,
    progress: Option<Phase>,
}

impl OwnedMaintenanceCycle {
    /// The names of the handlers, in order.
    pub closed spec fn handlers(&self) -> Seq<Seq<char>> {
        crate::text::views(self.handlers@)
    }

    /// Where the cycle is, if its progress is reported.
    pub closed spec fn phase(&self) -> Option<Phase> {
        self.progress
    }

    /// A cycle with these handlers, for a host whose services run. `reported` says
    /// that its progress is reported.
    pub fn new(handlers: Vec<String>, owner_services: OwnerServicesStarted, reported: bool) -> (c:
        Self)
        ensures
            c.handlers() == crate::text::views(handlers@),
            c.phase() == (if reported {
                Some(Phase::Waiting)
            } else {
                None
            }),
    {
        OwnedMaintenanceCycle {
            handlers,
            services: owner_services,
            progress: if reported {
                Some(Phase::Waiting)
            } else {
                None
            },
        }
    }

    /// A cycle for an owning host; an attached one has none.
    pub fn new_for_role(
        role: OwnerRole,
        handlers: Vec<String>,
        owner_services: Option<OwnerServicesStarted>,
        reported: bool,
    ) -> (c: Option<Self>)
        requires
            role == OwnerRole::Owned ==> owner_services is Some,
        ensures
            role == OwnerRole::Attached ==> c is None,
            role == OwnerRole::Owned ==> c is Some && c->0.handlers() == crate::text::views(
                handlers@,
            ) && c->0.phase() == (if reported {
                Some(Phase::Waiting)
            } else {
                None
            }),
    {
        if role == OwnerRole::Attached {
            return None;
        }
        match owner_services {
            Some(services) => Some(OwnedMaintenanceCycle::new(handlers, services, reported)),
            None => None,
        }
    }

    /// Says that the host waits for its next tick.
    pub fn enter_waiting(&mut self)
        ensures
            final(self).handlers() == old(self).handlers(),
            final(self).phase() == (if old(self).phase() is Some {
                Some(Phase::Waiting)
            } else {
                None
            }),
    {
        if self.progress.is_some() {
            self.progress = Some(Phase::Waiting);
        }
    }

    /// Says which step of a cycle the host takes now; called before the step.
    pub fn enter(&mut self, step: CycleStep)
        ensures
            final(self).handlers() == old(self).handlers(),
            final(self).phase() == (if old(self).phase() is Some {
                Some(phase_in(step))
            } else {
                None
            }),
    {
        if self.progress.is_some() {
            self.progress = Some(
                match step {
                    CycleStep::ReloadControls => Phase::Preflight,
                    CycleStep::RunHandler(i) => Phase::Handler(i),
                    CycleStep::Close => Phase::PostHandlers,
                },
            );
        }
    }

    /// Where the host is, if its progress is reported.
    pub fn reported_phase(&self) -> (p: Option<Phase>)
        ensures
            p == self.phase(),
    {
        self.progress
    }

    /// The names of the handlers, in order.
    pub fn handler_names(&self) -> (r: &Vec<String>)
        ensures
            crate::text::views(r@) == self.handlers(),
    {
        &self.handlers
    }

    /// Begins a cycle: what to do, in order. Nothing has been done yet.
    pub fn run_once(&mut self) -> (steps: Vec<CycleStep>)
        ensures
            steps@ == cycle_steps(old(self).handlers().len()),
            final(self).handlers() == old(self).handlers(),
            final(self).phase() == (if old(self).phase() is Some {
                Some(Phase::Preflight)
            } else {
                None
            }),
    {
        let mut steps: Vec<CycleStep> = Vec::new();
        steps.push(CycleStep::ReloadControls);
        let n: usize = self.handlers.len();
        let mut i: usize = 0;
        while i < n
            invariant
                n == self.handlers@.len(),
                i <= n,
                steps@.len() == i + 1,
                forall|k: int| 0 <= k < steps@.len() ==> #[trigger] steps@[k] == cycle_steps(n as nat)[k],
            decreases n - i,
        {
            steps.push(CycleStep::RunHandler(i));
            i = i + 1;
        }
        steps.push(CycleStep::Close);
        assert(steps@ =~= cycle_steps(n as nat));
        self.enter(CycleStep::ReloadControls);
        steps
    }
}

/// A cycle begins before its handlers, is in each of them while that one runs, in
/// order, and closes after them.
pub proof fn law_phases_follow_the_steps(handlers: nat, i: int)
    requires
        0 <= i < cycle_steps(handlers).len(),
    ensures
        phase_in(cycle_steps(handlers)[i]) == (if i == 0 {
            Phase::Preflight
        } else if i <= handlers {
            Phase::Handler((i - 1) as usize)
        } else {
            Phase::PostHandlers
        }),
        phase_in(cycle_steps(handlers).last()) == Phase::PostHandlers,
{
}

/// A cycle reads the controls first, then runs each handler once, in order, and closes.
pub proof fn law_a_cycle_runs_each_handler_once(handlers: nat, i: int)
    requires
        0 <= i < handlers <= usize::MAX,
    ensures
        cycle_steps(handlers).len() == handlers + 2,
        cycle_steps(handlers)[0] == CycleStep::ReloadControls,
        cycle_steps(handlers)[i + 1] == CycleStep::RunHandler(i as usize),
        cycle_steps(handlers).last() == CycleStep::Close,
        phase_in(CycleStep::RunHandler(i as usize)) == Phase::Handler(i as usize),
        phase_in(CycleStep::ReloadControls) == Phase::Preflight,
        phase_in(CycleStep::Close) == Phase::PostHandlers,
{
}

} // verus!
