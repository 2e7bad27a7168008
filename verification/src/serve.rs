//! The course of a daemon's life: the order of its boot, the serve loop, the
//! teardown and the ways out.
//!
//! A daemon boots in one of two ways. Normally the exclusive lock is held before
//! anything starts. A successor that takes over from a running daemon first
//! brings its control plane up, then waits for the lock, and touches shared
//! state only once it has it.
use crate::events::{event, LogEvent};
use crate::shutdown::{called_off, confirm_shutdown_or_abort_respawn, tears_down, RespawnFlags};
use crate::text::{decimal, u64_text};
use vstd::prelude::*;

verus! {

/// How long a successor waits for the lock, in seconds.
pub const HANDOFF_LOCK_WAIT_SECS: u64 = 30;

/// How long the daemon waits for its API to listen, in seconds.
pub const API_READY_TIMEOUT_SECS: u64 = 10;

/// The delay between two agents that are started, in milliseconds, where nothing
/// else is set.
pub const SPAWN_STAGGER_MS: u64 = 500;

/// The exit code that asks a supervisor to start the daemon again.
pub const RESTART_EXIT_CODE: i32 = 42;

// ---------------------------------------------------------------------------
// Boot
// ---------------------------------------------------------------------------

/// Where the fleet comes from.
#[derive(Debug, Clone, Copy, PartialEq, Eq, Structural)]
pub enum FleetSource {
    /// It was resolved while the lock was held.
    Resolved,
    /// It is resolved after the handoff; the successor may have to resume the
    /// agent that asked for the restart.
    HandoffDeferred { resume_requester: bool },
}

/// One step of the boot.
#[derive(Debug, Clone, Copy, PartialEq, Eq, Structural)]
pub enum BootStep {
    ReloadControls,
    /// Binds and publishes the API.
    InitServices,
    RegisterSubscribers,
    /// Tells the predecessor that the control plane is up.
    WriteControlReady,
    /// Waits until the predecessor has released the lock.
    AcquireLock,
    /// Makes this daemon discoverable.
    PublishIdentity,
    /// Cleans and migrates state that daemons share.
    PostLockInit,
    HygieneSweeps,
    ResolveFleet,
    StartObserver,
    SpawnFleet,
    ResumeRequester,
    ReleaseOrphans,
    InstallSignals,
    LogStart,
    BuildTicks,
}

/// The part of the boot that both ways share.
pub open spec fn common_boot() -> Seq<BootStep> {
    seq![BootStep::ReloadControls, BootStep::InitServices, BootStep::RegisterSubscribers]
}

/// The part of the boot up to the point where shared state is in order.
pub open spec fn promotion(source: FleetSource) -> Seq<BootStep> {
    match source {
        FleetSource::Resolved => seq![BootStep::PostLockInit],
        FleetSource::HandoffDeferred { .. } => seq![
            BootStep::WriteControlReady,
            BootStep::AcquireLock,
            BootStep::PublishIdentity,
            BootStep::PostLockInit,
            BootStep::HygieneSweeps,
            BootStep::ResolveFleet,
        ],
    }
}

/// The part of the boot that starts the fleet.
pub open spec fn launch(source: FleetSource) -> Seq<BootStep> {
    let start = seq![BootStep::StartObserver, BootStep::SpawnFleet];
    match source {
        FleetSource::HandoffDeferred { resume_requester: true } => start.push(
            BootStep::ResumeRequester,
        ),
        _ => start,
    }
}

/// The last part of the boot.
pub open spec fn settle() -> Seq<BootStep> {
    seq![
        BootStep::ReleaseOrphans,
        BootStep::InstallSignals,
        BootStep::LogStart,
        BootStep::BuildTicks,
    ]
}

/// The whole boot, in order.
pub open spec fn boot_order(source: FleetSource) -> Seq<BootStep> {
    common_boot() + promotion(source) + launch(source) + settle()
}

/// The whole boot, in order.
pub fn boot_plan(source: FleetSource) -> (r: Vec<BootStep>)
    ensures
        r@ == boot_order(source),
{
    let mut r: Vec<BootStep> = Vec::new();
    r.push(BootStep::ReloadControls);
    r.push(BootStep::InitServices);
    r.push(BootStep::RegisterSubscribers);
    let resume: bool = match source {
        FleetSource::Resolved => {
            r.push(BootStep::PostLockInit);
            false
        },
        FleetSource::HandoffDeferred { resume_requester } => {
            r.push(BootStep::WriteControlReady);
            r.push(BootStep::AcquireLock);
            r.push(BootStep::PublishIdentity);
            r.push(BootStep::PostLockInit);
            r.push(BootStep::HygieneSweeps);
            r.push(BootStep::ResolveFleet);
            resume_requester
        },
    };
    r.push(BootStep::StartObserver);
    r.push(BootStep::SpawnFleet);
    if resume {
        r.push(BootStep::ResumeRequester);
    }
    r.push(BootStep::ReleaseOrphans);
    r.push(BootStep::InstallSignals);
    r.push(BootStep::LogStart);
    r.push(BootStep::BuildTicks);
    assert(r@ =~= boot_order(source));
    r
}

/// Whether the boot is given up when the step fails.
pub open spec fn is_fatal(step: BootStep) -> bool {
    step == BootStep::InitServices || step == BootStep::AcquireLock || step
        == BootStep::PostLockInit || step == BootStep::ResolveFleet
}

/// Whether the boot goes on after a step.
pub fn boot_goes_on(step: BootStep, succeeded: bool) -> (r: bool)
    ensures
        r == (succeeded || !is_fatal(step)),
{
    let fatal: bool = match step {
        BootStep::InitServices => true,
        BootStep::AcquireLock => true,
        BootStep::PostLockInit => true,
        BootStep::ResolveFleet => true,
        _ => false,
    };
    succeeded || !fatal
}

/// One step of building the tick infrastructure.
#[derive(Debug, Clone, Copy, PartialEq, Eq, Structural)]
pub enum TickStep {
    StartTaskSweep,
    /// Only where the system has the supervisor.
    StartSupervisor,
    StartRouter,
    StartOwnerMonitoring,
    StartOwnerStreamObservers,
    RecoverInboxes,
    RecoverTaskLog,
    ReplayMissedSchedules,
    SweepBuildWatches,
    SweepOrphans,
    BuildHandlers,
    StartTicking,
}

/// The steps of building the tick infrastructure, in order: what a crash left half
/// written is recovered before anything reads it, and ticking starts last.
pub open spec fn tick_order(supervised: bool) -> Seq<TickStep> {
    seq![TickStep::StartTaskSweep] + (if supervised {
        seq![TickStep::StartSupervisor]
    } else {
        Seq::empty()
    }) + seq![
        TickStep::StartRouter,
        TickStep::StartOwnerMonitoring,
        TickStep::StartOwnerStreamObservers,
        TickStep::RecoverInboxes,
        TickStep::RecoverTaskLog,
        TickStep::ReplayMissedSchedules,
        TickStep::SweepBuildWatches,
        TickStep::SweepOrphans,
        TickStep::BuildHandlers,
        TickStep::StartTicking,
    ]
}

/// The steps of building the tick infrastructure, in order.
pub fn build_tick_infrastructure(supervised: bool) -> (r: Vec<TickStep>)
    ensures
        r@ == tick_order(supervised),
{
    let mut r: Vec<TickStep> = Vec::new();
    r.push(TickStep::StartTaskSweep);
    if supervised {
        r.push(TickStep::StartSupervisor);
    }
    r.push(TickStep::StartRouter);
    r.push(TickStep::StartOwnerMonitoring);
    r.push(TickStep::StartOwnerStreamObservers);
    r.push(TickStep::RecoverInboxes);
    r.push(TickStep::RecoverTaskLog);
    r.push(TickStep::ReplayMissedSchedules);
    r.push(TickStep::SweepBuildWatches);
    r.push(TickStep::SweepOrphans);
    r.push(TickStep::BuildHandlers);
    r.push(TickStep::StartTicking);
    assert(r@ =~= tick_order(supervised));
    r
}

/// The record of a daemon that has started.
pub fn daemon_start_event(agents: usize) -> (e: LogEvent)
    ensures
        e.says("daemon_start"@, ""@, decimal(agents as nat) + " agents"@),
{
    let mut detail = u64_text(agents as u64);
    detail.append(" agents");
    event("daemon_start", "", detail.as_str())
}

/// What became of starting the API.
pub enum ApiReady {
    Listening,
    Failed(String),
    TimedOut,
    Gone,
}

/// Why the daemon cannot start, if the API does not listen.
pub open spec fn api_error(r: ApiReady) -> Option<Seq<char>> {
    match r {
        ApiReady::Listening => None,
        ApiReady::Failed(e) => Some("API server failed to start: "@ + e@),
        ApiReady::TimedOut => Some(
            "API server did not publish a ready listener within "@ + decimal(
                API_READY_TIMEOUT_SECS as nat,
            ) + "s"@,
        ),
        ApiReady::Gone => Some("API server exited before reporting readiness"@),
    }
}

/// Decides whether the daemon can start with what became of its API.
pub fn init_daemon_services(ready: ApiReady) -> (r: Result<(), String>)
    ensures
        match r {
            Ok(_) => api_error(ready) is None,
            Err(e) => api_error(ready) == Some(e@),
        },
{
    match ready {
        ApiReady::Listening => Ok(()),
        ApiReady::Failed(e) => Err(
            String::from_str("API server failed to start: ").concat(e.as_str()),
        ),
        ApiReady::TimedOut => {
            let secs = u64_text(API_READY_TIMEOUT_SECS);
            Err(
                String::from_str("API server did not publish a ready listener within ").concat(
                    secs.as_str(),
                ).concat("s"),
            )
        },
        ApiReady::Gone => Err(String::from_str("API server exited before reporting readiness")),
    }
}

/// Which channel gets the registry of agents.
#[derive(Debug, Clone, Copy, PartialEq, Eq, Structural)]
pub enum RegistryAttach {
    /// The one that the boot brought along.
    Prepared,
    /// The one that is registered under its name.
    ByName,
    /// There is none.
    Nobody,
}

/// Decides which channel gets the registry of agents.
pub fn registry_attach(prepared: bool, registered: bool) -> (r: RegistryAttach)
    ensures
        r == (if prepared {
            RegistryAttach::Prepared
        } else if registered {
            RegistryAttach::ByName
        } else {
            RegistryAttach::Nobody
        }),
{
    if prepared {
        RegistryAttach::Prepared
    } else if registered {
        RegistryAttach::ByName
    } else {
        RegistryAttach::Nobody
    }
}

/// The operator's time zone: an empty one counts as none.
pub fn display_timezone(configured: Option<String>) -> (r: Option<String>)
    ensures
        r == (if configured is Some && configured->0@.len() > 0 {
            configured
        } else {
            None
        }),
{
    match configured {
        Some(tz) => if tz.as_str().unicode_len() > 0 {
            Some(tz)
        } else {
            None
        },
        None => None,
    }
}

/// Why the boot is given up after a failed migration of the task log.
pub fn init_daemon_services_post_lock(migration: Result<(), String>) -> (r: Result<(), String>)
    ensures
        match migration {
            Ok(_) => r is Ok,
            Err(e) => r is Err && r->Err_0@ == "task_events: legacy migration failed: "@ + e@,
        },
{
    match migration {
        Ok(_) => Ok(()),
        Err(e) => Err(
            String::from_str("task_events: legacy migration failed: ").concat(e.as_str()),
        ),
    }
}

/// What is done with one agent of the fleet at boot.
#[derive(Debug, Clone, Copy, PartialEq, Eq, Structural)]
pub struct FleetSpawn {
    /// It is started; an agent that has left the fleet meanwhile is not.
    pub spawn: bool,
    /// The daemon pauses after it.
    pub pause_ms: u64,
}

/// The delay between two agents that are started, in milliseconds; `setting` is
/// what the environment asks for, none where it asks for nothing that is a number.
pub fn spawn_stagger(setting: Option<u64>) -> (ms: u64)
    ensures
        ms == (if setting is Some {
            setting->0
        } else {
            SPAWN_STAGGER_MS
        }),
{
    match setting {
        Some(ms) => ms,
        None => SPAWN_STAGGER_MS,
    }
}

/// Decides what is done with one agent of the fleet: `known` says that it still
/// belongs to the fleet, `fleet_size` how many agents are started in all, and
/// `stagger_ms` how long to wait between two of them.
pub fn spawn_fleet_agents(known: bool, fleet_size: usize, stagger_ms: u64) -> (r: FleetSpawn)
    ensures
        r.spawn == known,
        r.pause_ms == (if known && fleet_size > 1 {
            stagger_ms
        } else {
            0
        }),
{
    FleetSpawn {
        spawn: known,
        pause_ms: if known && fleet_size > 1 {
            stagger_ms
        } else {
            0
        },
    }
}

/// Why the agent that asked for a restart is not resumed.
#[derive(Debug, Clone, Copy, PartialEq, Eq, Structural)]
pub enum SelfKick {
    /// It is not in the fleet any more.
    NotInFleet,
    /// It was not resolved.
    NotResolved,
    /// It was not started.
    NotSpawned,
    /// It is resumed; its backend has this long to get ready.
    Resume { ready_timeout_secs: u64 },
}

/// Decides whether the agent that asked for a restart is resumed.
/// `ready_timeout_secs` is how long its backend takes at most, where that is known.
pub fn spawn_handoff_requester_self_kick(
    in_fleet: bool,
    resolved: bool,
    registered: bool,
    ready_timeout_secs: Option<u64>,
) -> (r: SelfKick)
    ensures
        r == (if !in_fleet {
            SelfKick::NotInFleet
        } else if !resolved {
            SelfKick::NotResolved
        } else if !registered {
            SelfKick::NotSpawned
        } else {
            let base: u64 = match ready_timeout_secs {
                Some(t) => t,
                None => 60,
            };
            SelfKick::Resume {
                ready_timeout_secs: if base + 15 > u64::MAX {
                    u64::MAX
                } else {
                    (base + 15) as u64
                },
            }
        }),
{
    if !in_fleet {
        SelfKick::NotInFleet
    } else if !resolved {
        SelfKick::NotResolved
    } else if !registered {
        SelfKick::NotSpawned
    } else {
        let base: u64 = match ready_timeout_secs {
            Some(t) => t,
            None => 60,
        };
        SelfKick::Resume { ready_timeout_secs: base.saturating_add(15) }
    }
}

// ---------------------------------------------------------------------------
// Serving
// ---------------------------------------------------------------------------

/// Where the daemon is.
#[derive(Debug, Clone, Copy, PartialEq, Eq, Structural)]
pub enum Phase {
    /// About to look at the shutdown flag.
    Loop,
    /// Waiting to be woken.
    Waiting,
    /// Running its periodic maintenance.
    Maintaining,
    /// Woken by an exit of an agent, about to look at the shutdown flag again.
    ExitSeen,
    /// Handling the exit of an agent.
    Dispatching,
    /// Terminating its agents.
    TearingDown,
    /// Giving a successor time to fail before it exits itself.
    Settling,
    /// Starting its agents again after its successor has died.
    Recovering,
    /// Removing its run directory and pausing.
    Leaving,
    /// Gone.
    Done,
}

/// What woke the daemon.
#[derive(Debug, Clone, Copy, PartialEq, Eq, Structural)]
pub enum Wake {
    /// An agent has exited.
    Exit,
    /// The channel of exits was closed.
    ExitChannelClosed,
    /// It is time for maintenance.
    Tick,
    /// Somebody asked for a shutdown.
    Shutdown,
}

/// What the daemon is to do.
#[derive(Debug, Clone, Copy, PartialEq, Eq, Structural)]
pub enum Action {
    /// Look at the flags again.
    Check,
    /// Wait to be woken.
    Wait,
    /// Run the periodic maintenance.
    RunMaintenance,
    /// Handle the exit that woke it.
    DispatchExit,
    /// Terminate the agents and record the stop.
    TearDown,
    /// Wait a moment, then look whether the successor lives.
    Settle,
    /// Drop the restart request and start the fleet again.
    RespawnFleet,
    /// Drop the restart request and the run directory and exit at once.
    ExitZero,
    /// Remove the run directory and pause a second.
    RemoveRunDir,
    /// Drop the restart request and exit so that a supervisor starts it again.
    ExitForRestart,
    /// Return to the caller.
    Return,
}

/// What the daemon learns when it takes a step.
#[derive(Debug, Clone, Copy, PartialEq, Eq, Structural)]
pub struct Observed {
    /// What woke it; looked at only where it was waiting.
    pub wake: Wake,
    /// Whether its successor has died; looked at only where that matters.
    pub successor_died: bool,
}

/// The daemon between two steps.
#[derive(Debug, Clone, Copy, PartialEq, Eq, Structural)]
pub struct Serve {
    pub phase: Phase,
    pub flags: RespawnFlags,
}

/// What the daemon does next, and where that leaves it. `self_respawn` says that
/// this daemon hands over to a successor of its own; it never changes.
pub open spec fn next(s: Serve, self_respawn: bool, o: Observed) -> (Serve, Action) {
    match s.phase {
        Phase::Loop => if !s.flags.shutdown {
            (Serve { phase: Phase::Waiting, ..s }, Action::Wait)
        } else if tears_down(s.flags, self_respawn, o.successor_died) {
            (Serve { phase: Phase::TearingDown, ..s }, Action::TearDown)
        } else {
            (Serve { phase: Phase::Loop, flags: called_off() }, Action::Check)
        },
        Phase::Waiting => match o.wake {
            Wake::Shutdown => (Serve { phase: Phase::Loop, ..s }, Action::Check),
            Wake::Tick | Wake::ExitChannelClosed => (
                Serve { phase: Phase::Maintaining, ..s },
                Action::RunMaintenance,
            ),
            Wake::Exit => (Serve { phase: Phase::ExitSeen, ..s }, Action::Check),
        },
        Phase::Maintaining | Phase::Dispatching | Phase::Recovering => (
            Serve { phase: Phase::Loop, ..s },
            Action::Check,
        ),
        Phase::ExitSeen => if !s.flags.shutdown {
            (Serve { phase: Phase::Dispatching, ..s }, Action::DispatchExit)
        } else if tears_down(s.flags, self_respawn, o.successor_died) {
            (Serve { phase: Phase::TearingDown, ..s }, Action::TearDown)
        } else {
            (Serve { phase: Phase::Loop, flags: called_off() }, Action::Check)
        },
        Phase::TearingDown => if s.flags.restart_pending && self_respawn {
            (Serve { phase: Phase::Settling, ..s }, Action::Settle)
        } else {
            (Serve { phase: Phase::Leaving, ..s }, Action::RemoveRunDir)
        },
        Phase::Settling => if o.successor_died {
            (Serve { phase: Phase::Recovering, flags: called_off() }, Action::RespawnFleet)
        } else {
            (Serve { phase: Phase::Done, ..s }, Action::ExitZero)
        },
        Phase::Leaving | Phase::Done => (
            Serve { phase: Phase::Done, ..s },
            if s.flags.restart_pending {
                Action::ExitForRestart
            } else {
                Action::Return
            },
        ),
    }
}

impl Serve {
    /// The daemon after its boot.
    pub fn new() -> (s: Self)
        ensures
            s == (Serve { phase: Phase::Loop, flags: called_off() }),
    {
        Serve {
            phase: Phase::Loop,
            flags: RespawnFlags {
                shutdown: false,
                restart_pending: false,
                successor_parked: false,
            },
        }
    }

    /// Takes one step: the caller performs the action, reads the flags anew and
    /// comes back with what it has observed.
    pub fn run_core(&mut self, self_respawn: bool, o: Observed) -> (a: Action)
        ensures
            (*final(self), a) == next(*old(self), self_respawn, o),
    {
        match self.phase {
            Phase::Loop => {
                if !self.flags.shutdown {
                    self.phase = Phase::Waiting;
                    return Action::Wait;
                }
                let mut flags = self.flags;
                let down: bool = confirm_shutdown_or_abort_respawn(
                    &mut flags,
                    self_respawn,
                    o.successor_died,
                );
                self.flags = flags;
                if down {
                    self.phase = Phase::TearingDown;
                    Action::TearDown
                } else {
                    Action::Check
                }
            },
            Phase::Waiting => {
                if o.wake == Wake::Shutdown {
                    self.phase = Phase::Loop;
                    return Action::Check;
                }
                if serve_loop_post_select(o.wake == Wake::Exit) {
                    self.phase = Phase::Maintaining;
                    Action::RunMaintenance
                } else {
                    self.phase = Phase::ExitSeen;
                    Action::Check
                }
            },
            Phase::Maintaining => {
                self.phase = Phase::Loop;
                Action::Check
            },
            Phase::Dispatching => {
                self.phase = Phase::Loop;
                Action::Check
            },
            Phase::Recovering => {
                self.phase = Phase::Loop;
                Action::Check
            },
            Phase::ExitSeen => {
                if !self.flags.shutdown {
                    self.phase = Phase::Dispatching;
                    return Action::DispatchExit;
                }
                let mut flags = self.flags;
                let down: bool = confirm_shutdown_or_abort_respawn(
                    &mut flags,
                    self_respawn,
                    o.successor_died,
                );
                self.flags = flags;
                if down {
                    self.phase = Phase::TearingDown;
                    Action::TearDown
                } else {
                    self.phase = Phase::Loop;
                    Action::Check
                }
            },
            Phase::TearingDown => {
                if self.flags.restart_pending && self_respawn {
                    self.phase = Phase::Settling;
                    Action::Settle
                } else {
                    self.phase = Phase::Leaving;
                    Action::RemoveRunDir
                }
            },
            Phase::Settling => {
                if o.successor_died {
                    self.flags = RespawnFlags {
                        shutdown: false,
                        restart_pending: false,
                        successor_parked: false,
                    };
                    self.phase = Phase::Recovering;
                    Action::RespawnFleet
                } else {
                    self.phase = Phase::Done;
                    Action::ExitZero
                }
            },
            Phase::Leaving => {
                self.phase = Phase::Done;
                if self.flags.restart_pending {
                    Action::ExitForRestart
                } else {
                    Action::Return
                }
            },
            Phase::Done => {
                if self.flags.restart_pending {
                    Action::ExitForRestart
                } else {
                    Action::Return
                }
            },
        }
    }
}

/// Whether the periodic maintenance runs after the daemon was woken: not when an
/// agent's exit has to be handled.
pub fn serve_loop_post_select(exit_seen: bool) -> (r: bool)
    ensures
        r == !exit_seen,
{
    !exit_seen
}

// ---------------------------------------------------------------------------
// Laws
// ---------------------------------------------------------------------------

/// A successor touches nothing that daemons share before it has the lock, is
/// discoverable only after that, and asks its predecessor to leave only once its
/// own API is up.
pub proof fn law_successor_waits_for_the_lock(resume_requester: bool, i: int, j: int)
    requires
        0 <= i < boot_order(FleetSource::HandoffDeferred { resume_requester }).len(),
        0 <= j < boot_order(FleetSource::HandoffDeferred { resume_requester }).len(),
        boot_order(FleetSource::HandoffDeferred { resume_requester })[i] == BootStep::AcquireLock,
    ensures
        ({
            let step = boot_order(FleetSource::HandoffDeferred { resume_requester })[j];
            &&& step == BootStep::PublishIdentity || step == BootStep::PostLockInit || step
                == BootStep::HygieneSweeps || step == BootStep::ResolveFleet || step
                == BootStep::StartObserver || step == BootStep::SpawnFleet || step
                == BootStep::ReleaseOrphans ==> i < j
            &&& step == BootStep::InitServices || step == BootStep::WriteControlReady ==> j < i
        }),
{
    let order = boot_order(FleetSource::HandoffDeferred { resume_requester });
    let head = seq![
        BootStep::ReloadControls,
        BootStep::InitServices,
        BootStep::RegisterSubscribers,
        BootStep::WriteControlReady,
        BootStep::AcquireLock,
    ];
    assert(order.take(5) =~= head);
    assert(forall|k: int| 0 <= k < 5 ==> order[k] == head[k]);
}

/// Agents are started only after shared state is in order and the observer runs,
/// whichever way the daemon boots.
pub proof fn law_agents_start_last(source: FleetSource, i: int, j: int)
    requires
        0 <= i < boot_order(source).len(),
        0 <= j < boot_order(source).len(),
        boot_order(source)[i] == BootStep::SpawnFleet,
    ensures
        boot_order(source)[j] == BootStep::PostLockInit || boot_order(source)[j]
            == BootStep::StartObserver || boot_order(source)[j] == BootStep::InitServices ==> j < i,
        boot_order(source)[j] == BootStep::ReleaseOrphans || boot_order(source)[j]
            == BootStep::ResumeRequester ==> i < j,
{
}

/// The daemon exits with success out of a restart only if it hands over to a
/// successor, and only if that successor was alive at the last look.
pub proof fn law_no_exit_without_a_live_successor(s: Serve, self_respawn: bool, o: Observed)
    requires
        next(s, self_respawn, o).1 == Action::ExitZero,
    ensures
        s.phase == Phase::Settling,
        !o.successor_died,
{
}

/// The only way to the last look at a successor is a restart by self-respawn.
pub proof fn law_only_a_handover_settles(s: Serve, self_respawn: bool, o: Observed)
    requires
        next(s, self_respawn, o).0.phase == Phase::Settling,
    ensures
        s.phase == Phase::TearingDown,
        s.flags.restart_pending,
        self_respawn,
{
}

/// A daemon whose successor has died goes on serving, with its agents started
/// again if they were already gone.
pub proof fn law_dead_successor_means_staying(s: Serve, o: Observed)
    requires
        o.successor_died,
        s.flags.restart_pending,
        s.flags.shutdown,
        s.phase == Phase::Loop || s.phase == Phase::ExitSeen || s.phase == Phase::Settling,
    ensures
        next(s, true, o).0.flags == called_off(),
        s.phase == Phase::Settling ==> next(s, true, o).1 == Action::RespawnFleet,
        s.phase != Phase::Settling ==> next(s, true, o).0.phase == Phase::Loop,
        s.phase == Phase::Settling ==> next(next(s, true, o).0, true, o).0.phase == Phase::Loop,
{
}

/// A daemon leaves by way of a supervisor only when a restart was asked for that
/// it does not hand over itself.
pub proof fn law_supervised_restart_only_without_handover(
    s: Serve,
    self_respawn: bool,
    first: Observed,
    second: Observed,
)
    requires
        s.phase == Phase::TearingDown,
        next(s, self_respawn, first).0.phase == Phase::Leaving,
    ensures
        next(next(s, self_respawn, first).0, self_respawn, second).1 == Action::ExitForRestart ==> !(
        self_respawn),
        next(next(s, self_respawn, first).0, self_respawn, second).1 == (if s.flags.restart_pending {
            Action::ExitForRestart
        } else {
            Action::Return
        }),
{
}

/// An exit of an agent never starts the maintenance, and is not handled once a
/// shutdown was asked for.
pub proof fn law_exits_skip_the_maintenance(s: Serve, self_respawn: bool, o: Observed)
    ensures
        s.phase == Phase::Waiting && o.wake == Wake::Exit ==> next(s, self_respawn, o).1
            != Action::RunMaintenance,
        s.flags.shutdown ==> next(s, self_respawn, o).1 != Action::DispatchExit,
        next(s, self_respawn, o).1 == Action::RunMaintenance ==> s.phase == Phase::Waiting && o.wake
            != Wake::Exit,
{
}

/// Every boot takes each of its steps once: those of a normal start, and where it
/// takes over from a daemon also those of a successor, and no others. The requester is
/// resumed exactly where the successor has to.
pub proof fn law_every_boot_takes_each_step_once(source: FleetSource)
    ensures
        boot_order(source).no_duplicates(),
        forall|step: BootStep| #[trigger]
            boot_order(source).contains(step) <==> (match step {
                BootStep::WriteControlReady
                | BootStep::AcquireLock
                | BootStep::PublishIdentity
                | BootStep::HygieneSweeps
                | BootStep::ResolveFleet => source != FleetSource::Resolved,
                BootStep::ResumeRequester => source == (FleetSource::HandoffDeferred {
                    resume_requester: true,
                }),
                BootStep::ReloadControls
                | BootStep::InitServices
                | BootStep::RegisterSubscribers
                | BootStep::PostLockInit
                | BootStep::StartObserver
                | BootStep::SpawnFleet
                | BootStep::ReleaseOrphans
                | BootStep::InstallSignals
                | BootStep::LogStart
                | BootStep::BuildTicks => true,
            }),
{
    let order = boot_order(source);
    let n = order.len() as int;
    match source {
        FleetSource::Resolved => {
            assert(order[0] == BootStep::ReloadControls && order[1] == BootStep::InitServices
                && order[2] == BootStep::RegisterSubscribers && order[3] == BootStep::PostLockInit
                && order[4] == BootStep::StartObserver && order[5] == BootStep::SpawnFleet);
        },
        FleetSource::HandoffDeferred { resume_requester } => {
            assert(order[0] == BootStep::ReloadControls && order[1] == BootStep::InitServices
                && order[2] == BootStep::RegisterSubscribers && order[3]
                == BootStep::WriteControlReady && order[4] == BootStep::AcquireLock && order[5]
                == BootStep::PublishIdentity && order[6] == BootStep::PostLockInit && order[7]
                == BootStep::HygieneSweeps && order[8] == BootStep::ResolveFleet && order[9]
                == BootStep::StartObserver && order[10] == BootStep::SpawnFleet);
            assert(resume_requester ==> order[11] == BootStep::ResumeRequester);
        },
    }
    assert(order[n - 4] == BootStep::ReleaseOrphans && order[n - 3] == BootStep::InstallSignals
        && order[n - 2] == BootStep::LogStart && order[n - 1] == BootStep::BuildTicks);
}

/// A normal boot has its shared state in order, observes, starts the fleet and
/// settles; a successor brings its control plane up and takes the lock before that.
pub proof fn law_the_order_of_a_boot(source: FleetSource)
    ensures
        source == FleetSource::Resolved ==> boot_order(source) == seq![
            BootStep::ReloadControls,
            BootStep::InitServices,
            BootStep::RegisterSubscribers,
            BootStep::PostLockInit,
            BootStep::StartObserver,
            BootStep::SpawnFleet,
            BootStep::ReleaseOrphans,
            BootStep::InstallSignals,
            BootStep::LogStart,
            BootStep::BuildTicks,
        ],
        source == (FleetSource::HandoffDeferred { resume_requester: false }) ==> boot_order(source)
            == seq![
            BootStep::ReloadControls,
            BootStep::InitServices,
            BootStep::RegisterSubscribers,
            BootStep::WriteControlReady,
            BootStep::AcquireLock,
            BootStep::PublishIdentity,
            BootStep::PostLockInit,
            BootStep::HygieneSweeps,
            BootStep::ResolveFleet,
            BootStep::StartObserver,
            BootStep::SpawnFleet,
            BootStep::ReleaseOrphans,
            BootStep::InstallSignals,
            BootStep::LogStart,
            BootStep::BuildTicks,
        ],
        source == (FleetSource::HandoffDeferred { resume_requester: true }) ==> boot_order(source)
            == boot_order(FleetSource::HandoffDeferred { resume_requester: false }).insert(
            11,
            BootStep::ResumeRequester,
        ),
{
    if source == (FleetSource::HandoffDeferred { resume_requester: true }) {
        assert(boot_order(source) =~= boot_order(
            FleetSource::HandoffDeferred { resume_requester: false },
        ).insert(11, BootStep::ResumeRequester));
    }
}

/// A boot is given up exactly where the API does not come up, the lock is not had,
/// shared state cannot be put in order or the fleet cannot be resolved.
pub proof fn law_which_steps_a_boot_needs(step: BootStep)
    ensures
        is_fatal(step) <==> (match step {
            BootStep::InitServices
            | BootStep::AcquireLock
            | BootStep::PostLockInit
            | BootStep::ResolveFleet => true,
            _ => false,
        }),
{
}

/// Every step of building the tick infrastructure is taken once, the supervisor's
/// exactly where there is one. What a crash left half written is recovered before the
/// handlers are built, and ticking starts last.
pub proof fn law_every_tick_step_is_taken_once(supervised: bool)
    ensures
        tick_order(supervised).no_duplicates(),
        forall|step: TickStep| #[trigger]
            tick_order(supervised).contains(step) <==> (supervised || step
                != TickStep::StartSupervisor),
        tick_order(supervised).last() == TickStep::StartTicking,
        tick_order(supervised).first() == TickStep::StartTaskSweep,
        tick_order(supervised) == (if supervised {
            tick_order(false).insert(1, TickStep::StartSupervisor)
        } else {
            seq![
                TickStep::StartTaskSweep,
                TickStep::StartRouter,
                TickStep::StartOwnerMonitoring,
                TickStep::StartOwnerStreamObservers,
                TickStep::RecoverInboxes,
                TickStep::RecoverTaskLog,
                TickStep::ReplayMissedSchedules,
                TickStep::SweepBuildWatches,
                TickStep::SweepOrphans,
                TickStep::BuildHandlers,
                TickStep::StartTicking,
            ]
        }),
{
    let order = tick_order(supervised);
    let n = order.len() as int;
    assert(tick_order(true) =~= tick_order(false).insert(1, TickStep::StartSupervisor));
    assert(order[0] == TickStep::StartTaskSweep);
    assert(supervised ==> order[1] == TickStep::StartSupervisor);
    assert(order[n - 10] == TickStep::StartRouter && order[n - 9] == TickStep::StartOwnerMonitoring
        && order[n - 8] == TickStep::StartOwnerStreamObservers && order[n - 7]
        == TickStep::RecoverInboxes && order[n - 6] == TickStep::RecoverTaskLog && order[n - 5]
        == TickStep::ReplayMissedSchedules && order[n - 4] == TickStep::SweepBuildWatches
        && order[n - 3] == TickStep::SweepOrphans && order[n - 2] == TickStep::BuildHandlers
        && order[n - 1] == TickStep::StartTicking);
}

/// The daemon starts exactly if its API listens, and says otherwise what became of it.
pub proof fn law_no_start_without_the_api(ready: ApiReady)
    ensures
        api_error(ready) is None <==> ready is Listening,
        ready is Failed ==> api_error(ready) == Some(
            "API server failed to start: "@ + ready->Failed_0@,
        ),
        ready is TimedOut ==> api_error(ready) == Some(
            "API server did not publish a ready listener within "@ + decimal(10) + "s"@,
        ),
        ready is Gone ==> api_error(ready) == Some(
            "API server exited before reporting readiness"@,
        ),
{
}

/// A daemon that was not told to stop waits, maintains itself when it is time or its
/// exits cannot be heard any more, handles each exit, and comes back to waiting. None
/// of that changes a flag.
pub proof fn law_how_the_daemon_serves(s: Serve, self_respawn: bool, o: Observed)
    ensures
        ({
            let (n, a) = next(s, self_respawn, o);
            &&& s.phase == Phase::Loop && !s.flags.shutdown ==> a == Action::Wait && n == (Serve {
                phase: Phase::Waiting,
                ..s
            })
            &&& s.phase == Phase::Waiting && (o.wake == Wake::Tick || o.wake
                == Wake::ExitChannelClosed) ==> a == Action::RunMaintenance && n == (Serve {
                phase: Phase::Maintaining,
                ..s
            })
            &&& s.phase == Phase::Waiting && o.wake == Wake::Shutdown ==> a == Action::Check && n
                == (Serve { phase: Phase::Loop, ..s })
            &&& s.phase == Phase::Waiting && o.wake == Wake::Exit ==> a == Action::Check && n == (
            Serve { phase: Phase::ExitSeen, ..s })
            &&& s.phase == Phase::ExitSeen && !s.flags.shutdown ==> a == Action::DispatchExit && n
                == (Serve { phase: Phase::Dispatching, ..s })
            &&& s.phase == Phase::Maintaining || s.phase == Phase::Dispatching || s.phase
                == Phase::Recovering ==> a == Action::Check && n == (Serve {
                phase: Phase::Loop,
                ..s
            })
        }),
{
}

/// A daemon that was told to stop tears down, whether it looks up from waiting or from
/// an exit, unless it hands over and its successor has died: then it drops every flag
/// and goes on.
pub proof fn law_a_shutdown_is_obeyed(s: Serve, self_respawn: bool, o: Observed)
    requires
        s.phase == Phase::Loop || s.phase == Phase::ExitSeen,
        s.flags.shutdown,
    ensures
        ({
            let (n, a) = next(s, self_respawn, o);
            let dropped = s.flags.restart_pending && self_respawn && o.successor_died;
            &&& a == (if dropped {
                Action::Check
            } else {
                Action::TearDown
            })
            &&& n.phase == (if dropped {
                Phase::Loop
            } else {
                Phase::TearingDown
            })
            &&& n.flags.shutdown == !dropped
            &&& n.flags.restart_pending == (s.flags.restart_pending && !dropped)
            &&& n.flags.successor_parked == (s.flags.successor_parked && !dropped)
        }),
{
}

/// After the teardown a daemon that hands over watches its successor and then exits
/// with success, or starts its fleet again if the successor has died; any other removes
/// its run directory and leaves, for a supervisor to start it again exactly where a
/// restart was asked for.
pub proof fn law_the_ways_out(s: Serve, self_respawn: bool, o: Observed)
    ensures
        ({
            let (n, a) = next(s, self_respawn, o);
            &&& s.phase == Phase::TearingDown ==> {
                let handover = s.flags.restart_pending && self_respawn;
                &&& handover ==> a == Action::Settle && n.phase == Phase::Settling
                &&& !handover ==> a == Action::RemoveRunDir && n.phase == Phase::Leaving
                &&& n.flags == s.flags
            }
            &&& s.phase == Phase::Settling && !o.successor_died ==> a == Action::ExitZero && n.phase
                == Phase::Done && n.flags == s.flags
            &&& s.phase == Phase::Settling && o.successor_died ==> a == Action::RespawnFleet
                && n.phase == Phase::Recovering && !n.flags.shutdown && !n.flags.restart_pending
                && !n.flags.successor_parked
            &&& s.phase == Phase::Leaving || s.phase == Phase::Done ==> n.phase == Phase::Done
                && n.flags == s.flags && (a == Action::ExitForRestart <==> s.flags.restart_pending)
                && (a == Action::Return <==> !s.flags.restart_pending)
        }),
{
}

/// A successor waits half a minute for the lock and a daemon ten seconds for its API; two
/// agents are started half a second apart where nothing else is set, and a supervisor is
/// asked for a restart by its own exit code.
pub proof fn law_how_long_a_boot_waits()
    ensures
        HANDOFF_LOCK_WAIT_SECS == 30,
        API_READY_TIMEOUT_SECS == 10,
        SPAWN_STAGGER_MS == 500,
        RESTART_EXIT_CODE == 42,
{
}

} // verus!
