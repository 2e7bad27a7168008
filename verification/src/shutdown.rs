//! Why and how the daemon stops: the recorded reason, the decision whether a
//! restart really tears down, the fate of each agent after the grace window, and
//! the summary of the whole.
use crate::events::{event, LogEvent};
use crate::text::{decimal, u64_text};
use vstd::prelude::*;

verus! {

/// How long agents are given to stop by themselves, in seconds.
pub const SHUTDOWN_GRACE_SECS: u64 = 2;

/// How long a restarting daemon watches its successor before it exits, in seconds.
pub const SELF_RESPAWN_SETTLE_SECS: u64 = 1;

/// How long a daemon that hands over waits before its last look at its successor,
/// in seconds; `setting` is what the environment asks for, none where it asks for
/// nothing that is a number.
pub fn self_respawn_settle(setting: Option<u64>) -> (secs: u64)
    ensures
        secs == (if setting is Some {
            setting->0
        } else {
            SELF_RESPAWN_SETTLE_SECS
        }),
{
    match setting {
        Some(secs) => secs,
        None => SELF_RESPAWN_SETTLE_SECS,
    }
}

/// Why the daemon stopped.
#[derive(Debug, Clone, Copy, PartialEq, Eq, Structural)]
pub enum ShutdownReason {
    Unknown,
    Signal,
    ApiShutdown,
    Watchdog,
    CleanExit,
    OperatorRestart,
    SignalSigint,
    SignalSigterm,
    SignalSighup,
}

/// The number under which a reason is recorded.
pub open spec fn reason_code(r: ShutdownReason) -> u8 {
    match r {
        ShutdownReason::Unknown => 0,
        ShutdownReason::Signal => 1,
        ShutdownReason::ApiShutdown => 2,
        ShutdownReason::Watchdog => 3,
        ShutdownReason::CleanExit => 4,
        ShutdownReason::OperatorRestart => 5,
        ShutdownReason::SignalSigint => 6,
        ShutdownReason::SignalSigterm => 7,
        ShutdownReason::SignalSighup => 8,
    }
}

/// The name under which a reason is reported.
pub open spec fn reason_name(r: ShutdownReason) -> Seq<char> {
    match r {
        ShutdownReason::Unknown => "unknown"@,
        ShutdownReason::Signal => "signal"@,
        ShutdownReason::ApiShutdown => "api_shutdown"@,
        ShutdownReason::Watchdog => "watchdog"@,
        ShutdownReason::CleanExit => "clean_exit"@,
        ShutdownReason::OperatorRestart => "operator_restart"@,
        ShutdownReason::SignalSigint => "signal_sigint"@,
        ShutdownReason::SignalSigterm => "signal_sigterm"@,
        ShutdownReason::SignalSighup => "signal_sighup"@,
    }
}

impl ShutdownReason {
    /// The name under which the reason is reported.
    pub fn as_str(self) -> (r: &'static str)
        ensures
            r@ == reason_name(self),
    {
        match self {
            ShutdownReason::Unknown => "unknown",
            ShutdownReason::Signal => "signal",
            ShutdownReason::ApiShutdown => "api_shutdown",
            ShutdownReason::Watchdog => "watchdog",
            ShutdownReason::CleanExit => "clean_exit",
            ShutdownReason::OperatorRestart => "operator_restart",
            ShutdownReason::SignalSigint => "signal_sigint",
            ShutdownReason::SignalSigterm => "signal_sigterm",
            ShutdownReason::SignalSighup => "signal_sighup",
        }
    }

    /// The number under which the reason is recorded.
    pub fn code(self) -> (r: u8)
        ensures
            r == reason_code(self),
    {
        match self {
            ShutdownReason::Unknown => 0,
            ShutdownReason::Signal => 1,
            ShutdownReason::ApiShutdown => 2,
            ShutdownReason::Watchdog => 3,
            ShutdownReason::CleanExit => 4,
            ShutdownReason::OperatorRestart => 5,
            ShutdownReason::SignalSigint => 6,
            ShutdownReason::SignalSigterm => 7,
            ShutdownReason::SignalSighup => 8,
        }
    }

    /// The reason recorded under a number; a number that stands for none is an
    /// unknown reason.
    pub fn from_u8(raw: u8) -> (r: ShutdownReason)
        ensures
            raw <= 8 ==> reason_code(r) == raw,
            raw > 8 ==> r == ShutdownReason::Unknown,
    {
        match raw {
            1 => ShutdownReason::Signal,
            2 => ShutdownReason::ApiShutdown,
            3 => ShutdownReason::Watchdog,
            4 => ShutdownReason::CleanExit,
            5 => ShutdownReason::OperatorRestart,
            6 => ShutdownReason::SignalSigint,
            7 => ShutdownReason::SignalSigterm,
            8 => ShutdownReason::SignalSighup,
            _ => ShutdownReason::Unknown,
        }
    }
}

/// The record after `reason` was reported: the first known reason stays.
pub open spec fn recorded_reason(record: u8, reason: ShutdownReason) -> u8 {
    if record == 0 {
        reason_code(reason)
    } else {
        record
    }
}

/// Reports a reason to the record.
pub fn record_shutdown_reason(record: &mut u8, reason: ShutdownReason)
    ensures
        *final(record) == recorded_reason(*old(record), reason),
{
    if *record == 0 {
        *record = reason.code();
    }
}

/// The flags that decide whether the daemon goes on serving.
#[derive(Debug, Clone, Copy, PartialEq, Eq, Structural)]
pub struct RespawnFlags {
    /// The daemon was told to stop.
    pub shutdown: bool,
    /// It was told to restart.
    pub restart_pending: bool,
    /// Its successor's process is being watched.
    pub successor_parked: bool,
}

/// The flags after a restart was called off.
pub open spec fn called_off() -> RespawnFlags {
    RespawnFlags { shutdown: false, restart_pending: false, successor_parked: false }
}

/// Whether a requested shutdown really tears down: not if it was a restart by
/// self-respawn whose successor has died.
pub open spec fn tears_down(f: RespawnFlags, self_respawn: bool, successor_died: bool) -> bool {
    !(f.restart_pending && self_respawn && successor_died)
}

/// Decides whether a requested shutdown really tears down. If not, the restart is
/// called off and the daemon goes on serving.
pub fn confirm_shutdown_or_abort_respawn(
    flags: &mut RespawnFlags,
    self_respawn: bool,
    successor_died: bool,
) -> (r: bool)
    ensures
        r == tears_down(*old(flags), self_respawn, successor_died),
        *final(flags) == (if r {
            *old(flags)
        } else {
            called_off()
        }),
{
    if !flags.restart_pending || !self_respawn {
        return true;
    }
    if successor_died {
        *flags = RespawnFlags { shutdown: false, restart_pending: false, successor_parked: false };
        return false;
    }
    true
}

/// What a look at a child process after the grace window showed.
#[derive(Debug, Clone, Copy, PartialEq, Eq, Structural)]
pub enum ChildStatus {
    /// It is provably still running.
    Running,
    /// It has exited.
    Exited,
    /// Its state could not be read.
    Unreadable,
}

/// What is done with a child after the grace window.
#[derive(Debug, Clone, Copy, PartialEq, Eq, Structural)]
pub enum GraceDisposition {
    /// Its whole process group is killed.
    HardKill,
    /// It is only reaped; its process id may belong to another process by now.
    ReapOnly,
}

/// What is done with a child, given whether it is still running.
pub open spec fn disposition(still_alive: bool) -> GraceDisposition {
    if still_alive {
        GraceDisposition::HardKill
    } else {
        GraceDisposition::ReapOnly
    }
}

/// Decides what is done with a child after the grace window.
pub fn grace_disposition(still_alive: bool) -> (r: GraceDisposition)
    ensures
        r == disposition(still_alive),
{
    if still_alive {
        GraceDisposition::HardKill
    } else {
        GraceDisposition::ReapOnly
    }
}

/// What is done with each of a list of children.
pub open spec fn dispositions(s: Seq<ChildStatus>) -> Seq<GraceDisposition> {
    s.map_values(|c: ChildStatus| disposition(c == ChildStatus::Running))
}

/// How many children are still running.
pub open spec fn holdouts(s: Seq<ChildStatus>) -> nat
    decreases s.len(),
{
    if s.len() == 0 {
        0
    } else if s.last() == ChildStatus::Running {
        holdouts(s.drop_last()) + 1
    } else {
        holdouts(s.drop_last())
    }
}

/// What is done with the agents after the grace window.
pub struct Termination {
    pub plan: Vec<GraceDisposition>,
    pub killed_after_grace: usize,
}

/// Decides what is done with the agents after the one grace window that they all
/// share, and counts those that have to be killed.
pub fn terminate_agents_parallel(children: &Vec<ChildStatus>) -> (r: Termination)
    ensures
        r.plan@ == dispositions(children@),
        r.killed_after_grace == holdouts(children@),
{
    let mut plan: Vec<GraceDisposition> = Vec::new();
    let mut killed: usize = 0;
    let mut i: usize = 0;
    assert(plan@ =~= dispositions(children@.take(0)));
    while i < children.len()
        invariant
            i <= children@.len(),
            plan@ == dispositions(children@.take(i as int)),
            killed == holdouts(children@.take(i as int)),
        decreases children@.len() - i,
    {
        let running: bool = children[i] == ChildStatus::Running;
        assert(children@.take(i + 1).drop_last() =~= children@.take(i as int));
        proof {
            law_no_more_killed_than_drained(children@.take(i as int));
        }
        let fate = grace_disposition(running);
        if running {
            killed = killed + 1;
        }
        plan.push(fate);
        i = i + 1;
        assert(plan@ =~= dispositions(children@.take(i as int)));
    }
    assert(children@.take(i as int) =~= children@);
    Termination { plan, killed_after_grace: killed }
}

/// The summary of a shutdown.
#[derive(Debug, Clone, Copy, PartialEq, Eq, Structural)]
pub struct ShutdownMetrics {
    pub reason: ShutdownReason,
    pub agents_total: usize,
    pub agents_killed_after_grace: usize,
    pub uptime_secs: u64,
    pub transports_cleaned: usize,
    pub transports_failed: usize,
}

/// One step of the shutdown.
#[derive(Debug, Clone, Copy, PartialEq, Eq, Structural)]
pub enum ShutdownStep {
    /// The names of the agents are read, while the registry still holds them.
    ReadNames,
    /// The sessions that can be resumed are saved.
    Checkpoint,
    /// The registry is emptied, so that no exit of an agent counts as a crash.
    DrainRegistry,
    /// The agents that were drained are terminated.
    TerminateAgents,
    /// The transports of the agents are torn down.
    CleanTransports,
    /// Transports without an agent are torn down.
    SweepResidual,
}

/// The steps of a shutdown, in order.
pub open spec fn shutdown_order() -> Seq<ShutdownStep> {
    seq![
        ShutdownStep::ReadNames,
        ShutdownStep::Checkpoint,
        ShutdownStep::DrainRegistry,
        ShutdownStep::TerminateAgents,
        ShutdownStep::CleanTransports,
        ShutdownStep::SweepResidual,
    ]
}

/// The steps of a shutdown, in order.
pub fn shutdown_sequence() -> (r: Vec<ShutdownStep>)
    ensures
        r@ == shutdown_order(),
{
    let mut r: Vec<ShutdownStep> = Vec::new();
    r.push(ShutdownStep::ReadNames);
    r.push(ShutdownStep::Checkpoint);
    r.push(ShutdownStep::DrainRegistry);
    r.push(ShutdownStep::TerminateAgents);
    r.push(ShutdownStep::CleanTransports);
    r.push(ShutdownStep::SweepResidual);
    assert(r@ =~= shutdown_order());
    r
}

/// What the steps of a shutdown came to.
pub struct ShutdownTally {
    /// The recorded reason.
    pub reason_record: u8,
    /// How many agents were drained.
    pub drained: usize,
    /// How many of them had to be killed.
    pub killed_after_grace: usize,
    /// Transports of agents: torn down and failed.
    pub cleaned: usize,
    pub failed: usize,
    /// Transports without an agent: torn down and failed.
    pub residual_cleaned: usize,
    pub residual_failed: usize,
    /// How long the daemon ran.
    pub uptime_secs: u64,
}

/// What the teardown of transports came to.
#[derive(Debug, Clone, Copy, PartialEq, Eq, Structural)]
pub struct Teardown {
    pub cleaned: usize,
    pub failed: usize,
}

/// What the steps of a shutdown came to: `children` says of each agent that was
/// drained what was seen of it after the grace window.
pub fn shutdown_tally(
    reason_record: u8,
    children: &Vec<ChildStatus>,
    transports: Teardown,
    residual: Teardown,
    uptime_secs: u64,
) -> (t: ShutdownTally)
    ensures
        t.reason_record == reason_record,
        t.drained == children@.len(),
        t.killed_after_grace == holdouts(children@),
        t.cleaned == transports.cleaned,
        t.failed == transports.failed,
        t.residual_cleaned == residual.cleaned,
        t.residual_failed == residual.failed,
        t.uptime_secs == uptime_secs,
{
    let killed_after_grace: usize = terminate_agents_parallel(children).killed_after_grace;
    ShutdownTally {
        reason_record,
        drained: children.len(),
        killed_after_grace,
        cleaned: transports.cleaned,
        failed: transports.failed,
        residual_cleaned: residual.cleaned,
        residual_failed: residual.failed,
        uptime_secs,
    }
}

/// The summary of a shutdown.
pub fn shutdown_metrics(t: &ShutdownTally) -> (m: ShutdownMetrics)
    requires
        t.cleaned + t.residual_cleaned <= usize::MAX,
        t.failed + t.residual_failed <= usize::MAX,
    ensures
        t.reason_record <= 8 ==> reason_code(m.reason) == t.reason_record,
        t.reason_record > 8 ==> m.reason == ShutdownReason::Unknown,
        m.agents_total == t.drained,
        m.agents_killed_after_grace == t.killed_after_grace,
        m.uptime_secs == t.uptime_secs,
        m.transports_cleaned == t.cleaned + t.residual_cleaned,
        m.transports_failed == t.failed + t.residual_failed,
{
    ShutdownMetrics {
        reason: ShutdownReason::from_u8(t.reason_record),
        agents_total: t.drained,
        agents_killed_after_grace: t.killed_after_grace,
        uptime_secs: t.uptime_secs,
        transports_cleaned: t.cleaned + t.residual_cleaned,
        transports_failed: t.failed + t.residual_failed,
    }
}

/// The particulars of the record that the daemon leaves when it stops.
pub open spec fn stop_detail(m: ShutdownMetrics) -> Seq<char> {
    "reason="@ + reason_name(m.reason) + " agents_total="@ + decimal(m.agents_total as nat)
        + " agents_killed_after_grace="@ + decimal(m.agents_killed_after_grace as nat)
        + " transports_cleaned="@ + decimal(m.transports_cleaned as nat) + " transports_failed="@
        + decimal(m.transports_failed as nat) + " uptime_secs="@ + decimal(m.uptime_secs as nat)
}

/// The record that the daemon leaves when it stops.
pub fn daemon_stop_event(m: &ShutdownMetrics) -> (e: LogEvent)
    ensures
        e.says("daemon_stop"@, ""@, stop_detail(*m)),
{
    let mut d: String = String::from_str("reason=");
    d.append(m.reason.as_str());
    d.append(" agents_total=");
    let total = u64_text(m.agents_total as u64);
    d.append(total.as_str());
    d.append(" agents_killed_after_grace=");
    let killed = u64_text(m.agents_killed_after_grace as u64);
    d.append(killed.as_str());
    d.append(" transports_cleaned=");
    let cleaned = u64_text(m.transports_cleaned as u64);
    d.append(cleaned.as_str());
    d.append(" transports_failed=");
    let failed = u64_text(m.transports_failed as u64);
    d.append(failed.as_str());
    d.append(" uptime_secs=");
    let uptime = u64_text(m.uptime_secs);
    d.append(uptime.as_str());
    event("daemon_stop", "", d.as_str())
}

// ---------------------------------------------------------------------------
// Laws
// ---------------------------------------------------------------------------

/// No more agents are killed than were drained.
pub proof fn law_no_more_killed_than_drained(s: Seq<ChildStatus>)
    ensures
        holdouts(s) <= s.len(),
    decreases s.len(),
{
    if s.len() > 0 {
        law_no_more_killed_than_drained(s.drop_last());
    }
}

/// The first reason that is reported stays, whatever is reported later.
pub proof fn law_first_reason_stays(first: ShutdownReason, later: ShutdownReason)
    requires
        first != ShutdownReason::Unknown,
    ensures
        recorded_reason(recorded_reason(0, first), later) == reason_code(first),
{
}

/// Two reasons are never recorded under one number.
pub proof fn law_reason_codes_differ(a: ShutdownReason, b: ShutdownReason)
    ensures
        reason_code(a) == reason_code(b) <==> a == b,
{
}

/// Only a child that is provably still running is killed.
pub proof fn law_only_running_children_are_killed(s: Seq<ChildStatus>, i: int)
    requires
        0 <= i < s.len(),
    ensures
        dispositions(s)[i] == GraceDisposition::HardKill <==> s[i] == ChildStatus::Running,
{
}

/// The registry is drained before any agent is terminated, the sessions are saved
/// while it is still full, and transports go last.
pub proof fn law_registry_is_drained_before_the_kill(i: int, j: int)
    requires
        0 <= i < shutdown_order().len(),
        0 <= j < shutdown_order().len(),
    ensures
        shutdown_order()[i] == ShutdownStep::DrainRegistry && shutdown_order()[j]
            == ShutdownStep::TerminateAgents ==> i < j,
        shutdown_order()[i] == ShutdownStep::Checkpoint && shutdown_order()[j]
            == ShutdownStep::DrainRegistry ==> i < j,
        shutdown_order()[i] == ShutdownStep::TerminateAgents && shutdown_order()[j]
            == ShutdownStep::CleanTransports ==> i < j,
{
}

/// As many agents are killed as are still running.
pub proof fn law_the_killed_are_the_running(s: Seq<ChildStatus>)
    ensures
        holdouts(s) == s.filter(|c: ChildStatus| c == ChildStatus::Running).len(),
        holdouts(s) == dispositions(s).filter(
            |d: GraceDisposition| d == GraceDisposition::HardKill,
        ).len(),
        dispositions(s).len() == s.len(),
    decreases s.len(),
{
    reveal(Seq::filter);
    if s.len() > 0 {
        law_the_killed_are_the_running(s.drop_last());
        assert(dispositions(s).drop_last() =~= dispositions(s.drop_last()));
    }
}

/// Each reason has its number and its name.
pub proof fn law_how_reasons_are_recorded(r: ShutdownReason)
    ensures
        match r {
            ShutdownReason::Unknown => reason_code(r) == 0 && reason_name(r) == "unknown"@,
            ShutdownReason::Signal => reason_code(r) == 1 && reason_name(r) == "signal"@,
            ShutdownReason::ApiShutdown => reason_code(r) == 2 && reason_name(r) == "api_shutdown"@,
            ShutdownReason::Watchdog => reason_code(r) == 3 && reason_name(r) == "watchdog"@,
            ShutdownReason::CleanExit => reason_code(r) == 4 && reason_name(r) == "clean_exit"@,
            ShutdownReason::OperatorRestart => reason_code(r) == 5 && reason_name(r)
                == "operator_restart"@,
            ShutdownReason::SignalSigint => reason_code(r) == 6 && reason_name(r)
                == "signal_sigint"@,
            ShutdownReason::SignalSigterm => reason_code(r) == 7 && reason_name(r)
                == "signal_sigterm"@,
            ShutdownReason::SignalSighup => reason_code(r) == 8 && reason_name(r)
                == "signal_sighup"@,
        },
{
}

/// A reason is recorded exactly where none is recorded yet.
pub proof fn law_a_reason_is_recorded_once(record: u8, reason: ShutdownReason)
    ensures
        record == 0 ==> recorded_reason(record, reason) == reason_code(reason),
        record != 0 ==> recorded_reason(record, reason) == record,
{
}

/// A shutdown tears down unless it is a restart by self-respawn whose successor has
/// died; calling it off drops every flag.
pub proof fn law_what_calls_a_shutdown_off(
    f: RespawnFlags,
    self_respawn: bool,
    successor_died: bool,
)
    ensures
        !f.restart_pending ==> tears_down(f, self_respawn, successor_died),
        !self_respawn ==> tears_down(f, self_respawn, successor_died),
        !successor_died ==> tears_down(f, self_respawn, successor_died),
        f.restart_pending && self_respawn && successor_died ==> !tears_down(
            f,
            self_respawn,
            successor_died,
        ),
        !called_off().shutdown,
        !called_off().restart_pending,
        !called_off().successor_parked,
{
}

/// A shutdown takes each of its steps once: the names, the checkpoint, the drain, the
/// kill, the transports of the agents and those that are left over.
pub proof fn law_a_shutdown_takes_each_step_once(step: ShutdownStep)
    ensures
        shutdown_order().no_duplicates(),
        shutdown_order().contains(step),
        shutdown_order() == seq![
            ShutdownStep::ReadNames,
            ShutdownStep::Checkpoint,
            ShutdownStep::DrainRegistry,
            ShutdownStep::TerminateAgents,
            ShutdownStep::CleanTransports,
            ShutdownStep::SweepResidual,
        ],
{
    let order = shutdown_order();
    assert(order[0] == ShutdownStep::ReadNames && order[1] == ShutdownStep::Checkpoint && order[2]
        == ShutdownStep::DrainRegistry && order[3] == ShutdownStep::TerminateAgents && order[4]
        == ShutdownStep::CleanTransports && order[5] == ShutdownStep::SweepResidual);
}

/// The record of a stop names the reason and tells the agents, those that were killed,
/// the transports and how long the daemon ran, in this order.
pub proof fn law_what_the_record_of_a_stop_tells(m: ShutdownMetrics)
    ensures
        stop_detail(m) == "reason="@ + reason_name(m.reason) + " agents_total="@ + decimal(
            m.agents_total as nat,
        ) + " agents_killed_after_grace="@ + decimal(m.agents_killed_after_grace as nat)
            + " transports_cleaned="@ + decimal(m.transports_cleaned as nat)
            + " transports_failed="@ + decimal(m.transports_failed as nat) + " uptime_secs="@
            + decimal(m.uptime_secs as nat),
{
}

/// Agents are given two seconds to stop by themselves, and a successor is watched for one
/// where nothing else is set.
pub proof fn law_how_long_a_shutdown_waits()
    ensures
        SHUTDOWN_GRACE_SECS == 2,
        SELF_RESPAWN_SETTLE_SECS == 1,
{
}

} // verus!
