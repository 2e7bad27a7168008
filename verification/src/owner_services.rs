//! The background services that only the owner of a fleet runs, started in two
//! phases. The second phase asks for the witness of the first.
use vstd::prelude::*;

verus! {

/// Whether this host owns its fleet or is attached to another daemon's.
#[derive(Debug, Clone, Copy, PartialEq, Eq, Structural)]
pub enum OwnerRole {
    Owned,
    Attached,
}

/// A service that only an owner runs.
#[derive(Debug, Clone, Copy, PartialEq, Eq, Structural)]
pub enum OwnerService {
    MonitorTick,
    ApiActivityProbe,
    Rollout,
    OpenCode,
    Kiro,
}

impl OwnerService {
    /// The name of the service.
    pub fn name(self) -> (r: &'static str)
        ensures
            r@ == (match self {
                OwnerService::MonitorTick => "monitor_tick"@,
                OwnerService::ApiActivityProbe => "api_activity_probe"@,
                OwnerService::Rollout => "rollout"@,
                OwnerService::OpenCode => "opencode"@,
                OwnerService::Kiro => "kiro"@,
            }),
    {
        match self {
            OwnerService::MonitorTick => "monitor_tick",
            OwnerService::ApiActivityProbe => "api_activity_probe",
            OwnerService::Rollout => "rollout",
            OwnerService::OpenCode => "opencode",
            OwnerService::Kiro => "kiro",
        }
    }
}

/// The services of the first phase.
pub open spec fn monitoring_services(role: OwnerRole) -> Seq<OwnerService> {
    match role {
        OwnerRole::Owned => seq![OwnerService::MonitorTick, OwnerService::ApiActivityProbe],
        OwnerRole::Attached => Seq::empty(),
    }
}

/// The services of the second phase.
pub open spec fn stream_services(role: OwnerRole) -> Seq<OwnerService> {
    match role {
        OwnerRole::Owned => seq![OwnerService::Rollout, OwnerService::OpenCode, OwnerService::Kiro],
        OwnerRole::Attached => Seq::empty(),
    }
}

/// The witness that the first phase ran. Only this module can make one.
pub struct OwnerMonitoringStarted {
    sealed: bool,
}

/// The witness that both phases ran. Only this module can make one.
pub struct OwnerServicesStarted {
    sealed: bool,
}

/// The first phase: what to start, in order.
pub fn start_owner_monitoring(role: OwnerRole) -> (r: (OwnerMonitoringStarted, Vec<OwnerService>))
    ensures
        r.1@ == monitoring_services(role),
{
    let mut services: Vec<OwnerService> = Vec::new();
    if role == OwnerRole::Owned {
        services.push(OwnerService::MonitorTick);
        services.push(OwnerService::ApiActivityProbe);
    }
    assert(services@ =~= monitoring_services(role));
    (OwnerMonitoringStarted { sealed: true }, services)
}

/// The second phase: what to start, in order.
pub fn start_owner_stream_observers(role: OwnerRole, monitoring: &OwnerMonitoringStarted) -> (r: (
    OwnerServicesStarted,
    Vec<OwnerService>,
))
    ensures
        r.1@ == stream_services(role),
{
    let mut services: Vec<OwnerService> = Vec::new();
    if role == OwnerRole::Owned {
        services.push(OwnerService::Rollout);
        services.push(OwnerService::OpenCode);
        services.push(OwnerService::Kiro);
    }
    assert(services@ =~= stream_services(role));
    (OwnerServicesStarted { sealed: monitoring.sealed }, services)
}

/// An owner starts all five services, each once; an attached host starts none.
pub proof fn law_owner_starts_everything_once(role: OwnerRole, s: OwnerService)
    ensures
        role == OwnerRole::Owned ==> (monitoring_services(role) + stream_services(role)).contains(s)
            && (monitoring_services(role) + stream_services(role)).no_duplicates(),
        role == OwnerRole::Attached ==> monitoring_services(role) + stream_services(role) == Seq::<
            OwnerService,
        >::empty(),
{
    let all = monitoring_services(role) + stream_services(role);
    if role == OwnerRole::Owned {
        assert(all[0] == OwnerService::MonitorTick);
        assert(all[1] == OwnerService::ApiActivityProbe);
        assert(all[2] == OwnerService::Rollout);
        assert(all[3] == OwnerService::OpenCode);
        assert(all[4] == OwnerService::Kiro);
        assert(all.contains(s));
    } else {
        assert(all =~= Seq::<OwnerService>::empty());
    }
}

/// An owner starts the monitor and the probe first, then the three observers; an attached
/// host starts nothing in either phase.
pub proof fn law_what_an_owner_starts(role: OwnerRole)
    ensures
        monitoring_services(OwnerRole::Owned) == seq![
            OwnerService::MonitorTick,
            OwnerService::ApiActivityProbe,
        ],
        stream_services(OwnerRole::Owned) == seq![
            OwnerService::Rollout,
            OwnerService::OpenCode,
            OwnerService::Kiro,
        ],
        role == OwnerRole::Attached ==> monitoring_services(role).len() == 0 && stream_services(
            role,
        ).len() == 0,
{
}

} // verus!
