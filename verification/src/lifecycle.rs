//! Transactions on the life of an agent: waiting for its child, deleting it, and
//! taking a failed start back.
use crate::events::{event, LogEvent};
use vstd::prelude::*;

verus! {

/// How long a killed child may take to exit, in milliseconds.
pub const CHILD_EXIT_TIMEOUT_MS: u64 = 5_000;

/// The pause between two looks at a killed child, in milliseconds.
pub const CHILD_EXIT_POLL_MS: u64 = 50;

/// What a look at a killed child means.
#[derive(Debug, Clone, Copy, PartialEq, Eq, Structural)]
pub enum WaitStep {
    /// It has exited.
    Exited,
    /// It has not, and its time is over.
    TimedOut,
    /// It has not; look again after a pause.
    Poll,
}

/// What a look at a killed child means, `waited_ms` after it was killed.
pub open spec fn wait_step(exited: bool, waited_ms: u64) -> WaitStep {
    if exited {
        WaitStep::Exited
    } else if waited_ms >= CHILD_EXIT_TIMEOUT_MS {
        WaitStep::TimedOut
    } else {
        WaitStep::Poll
    }
}

/// Decides what a look at a killed child means.
pub fn wait_for_child_exit(exited: bool, waited_ms: u64) -> (r: WaitStep)
    ensures
        r == wait_step(exited, waited_ms),
{
    if exited {
        WaitStep::Exited
    } else if waited_ms >= CHILD_EXIT_TIMEOUT_MS {
        WaitStep::TimedOut
    } else {
        WaitStep::Poll
    }
}

// ---------------------------------------------------------------------------
// The fence round a delete
// ---------------------------------------------------------------------------

/// One step of raising or lowering the fence.
#[derive(Debug, Clone, Copy, PartialEq, Eq, Structural)]
pub enum FenceStep {
    /// The instance is marked as being deleted.
    MarkDeleting,
    /// The agent's transport is taken over for cleanup.
    BeginCleanup,
    /// The agent's armed wakes are forgotten.
    ForgetWakes,
    /// The mark is cleared.
    ClearMark,
    /// The transport's generation ends and it is let go.
    EndCleanup,
}

/// What the fence holds.
#[derive(Debug, Clone, Copy, PartialEq, Eq, Structural)]
pub struct DeleteFence {
    /// The instance is marked as being deleted.
    pub deleting: bool,
    /// Its transport is held.
    pub transport: bool,
}

/// The steps that raise the fence.
pub open spec fn raise_steps(hold_transport: bool) -> Seq<FenceStep> {
    if hold_transport {
        seq![FenceStep::MarkDeleting, FenceStep::BeginCleanup, FenceStep::ForgetWakes]
    } else {
        seq![FenceStep::MarkDeleting]
    }
}

/// The steps that lower the fence.
pub open spec fn lower_steps(f: DeleteFence) -> Seq<FenceStep> {
    (if f.deleting {
        seq![FenceStep::ClearMark]
    } else {
        Seq::empty()
    }) + (if f.transport {
        seq![FenceStep::EndCleanup]
    } else {
        Seq::empty()
    })
}

impl DeleteFence {
    /// Raises the fence, with or without the agent's transport.
    pub fn new(hold_transport: bool) -> (r: (DeleteFence, Vec<FenceStep>))
        ensures
            r.0 == (DeleteFence { deleting: true, transport: hold_transport }),
            r.1@ == raise_steps(hold_transport),
    {
        let mut steps: Vec<FenceStep> = Vec::new();
        steps.push(FenceStep::MarkDeleting);
        if hold_transport {
            steps.push(FenceStep::BeginCleanup);
            steps.push(FenceStep::ForgetWakes);
        }
        assert(steps@ =~= raise_steps(hold_transport));
        (DeleteFence { deleting: true, transport: hold_transport }, steps)
    }

    /// Takes the agent's transport into a fence that does not hold it yet.
    pub fn attach_transport_cleanup(&mut self) -> (steps: Vec<FenceStep>)
        requires
            !old(self).transport,
        ensures
            *final(self) == (DeleteFence { transport: true, ..*old(self) }),
            steps@ == seq![FenceStep::BeginCleanup, FenceStep::ForgetWakes],
    {
        let mut steps: Vec<FenceStep> = Vec::new();
        steps.push(FenceStep::BeginCleanup);
        steps.push(FenceStep::ForgetWakes);
        self.transport = true;
        assert(steps@ =~= seq![FenceStep::BeginCleanup, FenceStep::ForgetWakes]);
        steps
    }

    /// Lowers the fence: the mark first, then the transport.
    pub fn release(&mut self) -> (steps: Vec<FenceStep>)
        ensures
            *final(self) == (DeleteFence { deleting: false, transport: false }),
            steps@ == lower_steps(*old(self)),
    {
        let mut steps: Vec<FenceStep> = Vec::new();
        if self.deleting {
            steps.push(FenceStep::ClearMark);
        }
        if self.transport {
            steps.push(FenceStep::EndCleanup);
        }
        assert(steps@ =~= lower_steps(*self));
        self.deleting = false;
        self.transport = false;
        steps
    }
}

// ---------------------------------------------------------------------------
// Deleting an agent
// ---------------------------------------------------------------------------

/// One step of a delete.
#[derive(Debug, Clone, Copy, PartialEq, Eq, Structural)]
pub enum DeleteStep {
    /// The registry entry is marked, so that nothing starts in its place.
    MarkDeleted,
    /// The child's process tree is killed, then the child itself.
    Kill,
    /// The child is waited for.
    WaitExit,
    /// The registry entry is removed.
    RemoveEntry,
    /// The agent's binding on every channel is dropped.
    DropBinding,
    /// The stored configuration is removed.
    RemoveConfig,
    /// The published port is removed.
    RemovePort,
    /// The delete is recorded as done.
    LogDone,
    /// The delete is recorded as refused.
    LogRetained,
}

/// The steps before it is known whether the child has exited.
pub open spec fn kill_steps(has_child: bool, skip_exit_wait: bool) -> Seq<DeleteStep> {
    if !has_child {
        Seq::empty()
    } else if skip_exit_wait {
        seq![DeleteStep::MarkDeleted, DeleteStep::Kill]
    } else {
        seq![DeleteStep::MarkDeleted, DeleteStep::Kill, DeleteStep::WaitExit]
    }
}

/// The steps after it is known whether the child has exited.
pub open spec fn cleanup_steps(exited: bool, has_entry: bool, has_configs: bool) -> Seq<DeleteStep> {
    if !exited {
        seq![DeleteStep::LogRetained]
    } else {
        (if has_entry {
            seq![DeleteStep::RemoveEntry]
        } else {
            Seq::empty()
        }) + seq![DeleteStep::DropBinding] + (if has_configs {
            seq![DeleteStep::RemoveConfig]
        } else {
            Seq::empty()
        }) + seq![DeleteStep::RemovePort, DeleteStep::LogDone]
    }
}

/// The steps of a delete before it is known whether the child has exited.
pub fn delete_kill(has_child: bool, skip_exit_wait: bool) -> (r: Vec<DeleteStep>)
    ensures
        r@ == kill_steps(has_child, skip_exit_wait),
{
    let mut r: Vec<DeleteStep> = Vec::new();
    if has_child {
        r.push(DeleteStep::MarkDeleted);
        r.push(DeleteStep::Kill);
        if !skip_exit_wait {
            r.push(DeleteStep::WaitExit);
        }
    }
    assert(r@ =~= kill_steps(has_child, skip_exit_wait));
    r
}

/// Whether the child counts as gone: there was none, nobody waits for it, or the
/// wait saw it exit.
pub open spec fn counts_as_gone(has_child: bool, skip_exit_wait: bool, wait_saw_exit: bool) -> bool {
    !has_child || skip_exit_wait || wait_saw_exit
}

/// The rest of a delete.
pub struct DeleteRest {
    /// Whether the delete went through.
    pub done: bool,
    pub steps: Vec<DeleteStep>,
}

/// Decides the rest of a delete. `has_entry` says that the instance is known by
/// its id, `has_configs` that the caller keeps configurations, and
/// `wait_saw_exit` what the wait came to, where there was one.
pub fn delete_transaction_under_guard(
    has_child: bool,
    skip_exit_wait: bool,
    wait_saw_exit: bool,
    has_entry: bool,
    has_configs: bool,
) -> (r: DeleteRest)
    ensures
        r.done == counts_as_gone(has_child, skip_exit_wait, wait_saw_exit),
        r.steps@ == cleanup_steps(r.done, has_entry, has_configs),
{
    let gone: bool = !has_child || skip_exit_wait || wait_saw_exit;
    let mut steps: Vec<DeleteStep> = Vec::new();
    if !gone {
        steps.push(DeleteStep::LogRetained);
        assert(steps@ =~= cleanup_steps(gone, has_entry, has_configs));
        return DeleteRest { done: false, steps };
    }
    if has_entry {
        steps.push(DeleteStep::RemoveEntry);
    }
    steps.push(DeleteStep::DropBinding);
    if has_configs {
        steps.push(DeleteStep::RemoveConfig);
    }
    steps.push(DeleteStep::RemovePort);
    steps.push(DeleteStep::LogDone);
    assert(steps@ =~= cleanup_steps(gone, has_entry, has_configs));
    DeleteRest { done: true, steps }
}

/// One step of a delete that raises its own fence.
#[derive(Debug, Clone, Copy, PartialEq, Eq, Structural)]
pub enum TransactionStep {
    /// The fence is raised, with the transport.
    RaiseFence,
    /// What was delivered to the agent is removed.
    RemoveDeliveries,
    /// The delete itself runs.
    Delete,
    /// The fence is lowered.
    LowerFence,
}

/// The steps of a delete that raises its own fence. The delete runs even where
/// the deliveries could not be removed.
pub fn delete_transaction() -> (r: Vec<TransactionStep>)
    ensures
        r@ == seq![
            TransactionStep::RaiseFence,
            TransactionStep::RemoveDeliveries,
            TransactionStep::Delete,
            TransactionStep::LowerFence,
        ],
{
    let mut r: Vec<TransactionStep> = Vec::new();
    r.push(TransactionStep::RaiseFence);
    r.push(TransactionStep::RemoveDeliveries);
    r.push(TransactionStep::Delete);
    r.push(TransactionStep::LowerFence);
    assert(r@ =~= seq![
        TransactionStep::RaiseFence,
        TransactionStep::RemoveDeliveries,
        TransactionStep::Delete,
        TransactionStep::LowerFence,
    ]);
    r
}

/// The record of a delete.
pub fn delete_event(name: &str, done: bool) -> (e: LogEvent)
    ensures
        e.says(
            "delete"@,
            name@,
            if done {
                "delete: child exited cleanly"@
            } else {
                "delete: child kill timeout — retained registry entry"@
            },
        ),
{
    if done {
        event("delete", name, "delete: child exited cleanly")
    } else {
        event("delete", name, "delete: child kill timeout — retained registry entry")
    }
}

// ---------------------------------------------------------------------------
// Taking a failed start back
// ---------------------------------------------------------------------------

/// What is undone, in this order: the registration and its binding, then the
/// child.
pub struct Undo<C, I> {
    /// The registry entry to remove, and with it the agent's binding.
    pub unregister: Option<I>,
    /// The child to kill.
    pub kill: Option<C>,
}

/// A guard over the start of an agent: until it is committed, letting go of it
/// undoes what was marked.
pub struct SpawnRollback<C, I> {
    name: String,
    child: Option<C>,
    instance_id: Option<I>,
    armed: bool,
}

impl<C, I> SpawnRollback<C, I> {
    /// The agent's name.
    pub closed spec fn agent(&self) -> Seq<char> {
        self.name@
    }

    /// The child that was marked.
    pub closed spec fn child(&self) -> Option<C> {
        self.child
    }

    /// The registry entry that was marked.
    pub closed spec fn registered(&self) -> Option<I> {
        self.instance_id
    }

    /// Whether letting go of the guard undoes anything.
    pub closed spec fn armed(&self) -> bool {
        self.armed
    }

    /// A guard with nothing marked.
    pub fn new(name: &str) -> (g: Self)
        ensures
            g.agent() == name@,
            g.child() is None,
            g.registered() is None,
            g.armed(),
    {
        SpawnRollback { name: String::from_str(name), child: None, instance_id: None, armed: true }
    }

    /// Marks that the child was started.
    pub fn mark_child_spawned(&mut self, child: C)
        ensures
            final(self).agent() == old(self).agent(),
            final(self).child() == Some(child),
            final(self).registered() == old(self).registered(),
            final(self).armed() == old(self).armed(),
    {
        self.child = Some(child);
    }

    /// Marks that the agent was registered.
    pub fn mark_registered(&mut self, instance_id: I)
        ensures
            final(self).agent() == old(self).agent(),
            final(self).child() == old(self).child(),
            final(self).registered() == Some(instance_id),
            final(self).armed() == old(self).armed(),
    {
        self.instance_id = Some(instance_id);
    }

    /// Marks that the start succeeded: nothing is undone any more.
    pub fn commit(&mut self)
        ensures
            final(self).agent() == old(self).agent(),
            final(self).child() == old(self).child(),
            final(self).registered() == old(self).registered(),
            !final(self).armed(),
    {
        self.armed = false;
    }

    /// Lets go of the guard and says what is to be undone: all that was marked if
    /// the start was not committed, else nothing.
    pub fn undo(&mut self) -> (u: Undo<C, I>)
        ensures
            u.unregister == (if old(self).armed() {
                old(self).registered()
            } else {
                None
            }),
            u.kill == (if old(self).armed() {
                old(self).child()
            } else {
                None
            }),
            !final(self).armed(),
    {
        if !self.armed {
            return Undo { unregister: None, kill: None };
        }
        self.armed = false;
        let unregister = self.instance_id.take();
        let kill = self.child.take();
        Undo { unregister, kill }
    }
}

// ---------------------------------------------------------------------------
// Laws
// ---------------------------------------------------------------------------

/// A child is given its whole time: the wait ends without an exit only when that
/// is over, and an exit that is seen always counts.
pub proof fn law_no_early_timeout(exited: bool, waited_ms: u64)
    ensures
        wait_step(exited, waited_ms) == WaitStep::TimedOut ==> !exited && waited_ms
            >= CHILD_EXIT_TIMEOUT_MS,
        exited ==> wait_step(exited, waited_ms) == WaitStep::Exited,
{
}

/// A delete whose child does not exit removes nothing; it only leaves a record.
pub proof fn law_stuck_child_keeps_its_entry(has_entry: bool, has_configs: bool, i: int)
    requires
        0 <= i < cleanup_steps(false, has_entry, has_configs).len(),
    ensures
        cleanup_steps(false, has_entry, has_configs)[i] == DeleteStep::LogRetained,
{
}

/// The fence forgets the agent's wakes only once its transport is held, and lets
/// the transport go only after the mark is cleared.
pub proof fn law_fence_order(hold_transport: bool, f: DeleteFence, i: int, j: int)
    ensures
        0 <= i < raise_steps(hold_transport).len() && 0 <= j < raise_steps(hold_transport).len()
            && raise_steps(hold_transport)[i] == FenceStep::BeginCleanup && raise_steps(
            hold_transport,
        )[j] == FenceStep::ForgetWakes ==> i < j,
        !hold_transport ==> !raise_steps(hold_transport).contains(FenceStep::ForgetWakes),
        0 <= i < lower_steps(f).len() && 0 <= j < lower_steps(f).len() && lower_steps(f)[i]
            == FenceStep::ClearMark && lower_steps(f)[j] == FenceStep::EndCleanup ==> i < j,
{
}

/// The registry entry goes first of all that a delete removes, and only after the
/// kill steps.
pub proof fn law_entry_goes_before_its_traces(has_configs: bool, i: int)
    requires
        0 < i < cleanup_steps(true, true, has_configs).len(),
    ensures
        cleanup_steps(true, true, has_configs)[0] == DeleteStep::RemoveEntry,
        cleanup_steps(true, true, has_configs)[i] != DeleteStep::RemoveEntry,
{
}

/// A killed child that has not exited is looked at again for five seconds and then given
/// up.
pub proof fn law_how_long_a_child_is_waited_for(exited: bool, waited_ms: u64)
    ensures
        wait_step(exited, waited_ms) == WaitStep::Exited <==> exited,
        wait_step(exited, waited_ms) == WaitStep::TimedOut <==> !exited && waited_ms >= 5_000,
        wait_step(exited, waited_ms) == WaitStep::Poll <==> !exited && waited_ms < 5_000,
{
}

/// Raising the fence marks the instance and, where the transport is held, takes that over
/// and forgets the wakes; lowering it undoes each of the two that the fence holds, once.
pub proof fn law_what_a_fence_holds(hold_transport: bool, f: DeleteFence)
    ensures
        raise_steps(hold_transport).first() == FenceStep::MarkDeleting,
        raise_steps(true) == seq![
            FenceStep::MarkDeleting,
            FenceStep::BeginCleanup,
            FenceStep::ForgetWakes,
        ],
        raise_steps(false) == seq![FenceStep::MarkDeleting],
        f.deleting <==> lower_steps(f).contains(FenceStep::ClearMark),
        f.transport <==> lower_steps(f).contains(FenceStep::EndCleanup),
        lower_steps(f).no_duplicates(),
        forall|step: FenceStep| #[trigger]
            lower_steps(f).contains(step) ==> step == FenceStep::ClearMark || step
                == FenceStep::EndCleanup,
{
    let steps = lower_steps(f);
    if f.deleting {
        assert(steps[0] == FenceStep::ClearMark);
    }
    if f.transport {
        assert(steps[steps.len() - 1] == FenceStep::EndCleanup);
    }
}

/// A child that is there is marked and then killed, and waited for unless nobody waits.
pub proof fn law_how_a_child_is_ended(skip_exit_wait: bool)
    ensures
        kill_steps(false, skip_exit_wait).len() == 0,
        kill_steps(true, true) == seq![DeleteStep::MarkDeleted, DeleteStep::Kill],
        kill_steps(true, false) == seq![
            DeleteStep::MarkDeleted,
            DeleteStep::Kill,
            DeleteStep::WaitExit,
        ],
{
}

/// A delete goes through exactly if there was no child, nobody waits for it or it was seen
/// to exit. Then it drops the binding and the port and is recorded as done, the entry and
/// the configuration go where there are any, each step once; otherwise it is recorded as
/// refused and nothing goes.
pub proof fn law_what_a_delete_removes(
    has_child: bool,
    skip_exit_wait: bool,
    wait_saw_exit: bool,
    has_entry: bool,
    has_configs: bool,
)
    ensures
        counts_as_gone(has_child, skip_exit_wait, wait_saw_exit) <==> !(has_child && !skip_exit_wait
            && !wait_saw_exit),
        cleanup_steps(false, has_entry, has_configs) == seq![DeleteStep::LogRetained],
        cleanup_steps(true, has_entry, has_configs).no_duplicates(),
        forall|step: DeleteStep| #[trigger]
            cleanup_steps(true, has_entry, has_configs).contains(step) <==> {
                ||| step == DeleteStep::DropBinding
                ||| step == DeleteStep::RemovePort
                ||| step == DeleteStep::LogDone
                ||| step == DeleteStep::RemoveEntry && has_entry
                ||| step == DeleteStep::RemoveConfig && has_configs
            },
        cleanup_steps(true, has_entry, has_configs).last() == DeleteStep::LogDone,
{
    let steps = cleanup_steps(true, has_entry, has_configs);
    let n = steps.len() as int;
    assert(steps[n - 1] == DeleteStep::LogDone && steps[n - 2] == DeleteStep::RemovePort);
    if has_entry {
        assert(steps[0] == DeleteStep::RemoveEntry && steps[1] == DeleteStep::DropBinding);
    } else {
        assert(steps[0] == DeleteStep::DropBinding);
    }
    if has_configs {
        assert(steps[n - 3] == DeleteStep::RemoveConfig);
    }
}

} // verus!
