use agend_daemon::mcp_registry_watcher::{scan_and_set_flag, McpRegistryWatcherTracker, TICKS_PER_REGISTRY_SCAN};
use agend_daemon::owned_maintenance::{CycleStep, OwnedMaintenanceCycle, Phase};
use agend_daemon::owner_services::{start_owner_monitoring, start_owner_stream_observers, OwnerRole};

fn run_both_phases(role: OwnerRole) -> Vec<&'static str> {
    let mut log = Vec::new();
    let (mon, first) = start_owner_monitoring(role);
    for s in first {
        log.push(s.name());
    }
    let (_services, second) = start_owner_stream_observers(role, &mon);
    for s in second {
        log.push(s.name());
    }
    log
}

#[test]
fn owned_two_phases_start_all_five_in_order() {
    assert_eq!(
        run_both_phases(OwnerRole::Owned),
        ["monitor_tick", "api_activity_probe", "rollout", "opencode", "kiro"],
        "owned mode must start exactly the five owner services, monitoring before stream"
    );
}

#[test]
fn attached_two_phases_start_none() {
    assert!(
        run_both_phases(OwnerRole::Attached).is_empty(),
        "attached mode must start no owner services"
    );
}

#[test]
fn attached_role_constructs_no_cycle() {
    assert!(OwnedMaintenanceCycle::new_for_role(OwnerRole::Attached, Vec::new(), None, true).is_none());
}

#[test]
fn an_owned_cycle_runs_its_handlers_in_order() {
    let (mon, _) = start_owner_monitoring(OwnerRole::Owned);
    let (services, _) = start_owner_stream_observers(OwnerRole::Owned, &mon);
    let names = vec!["first".to_string(), "second".to_string()];
    let mut cycle =
        OwnedMaintenanceCycle::new_for_role(OwnerRole::Owned, names, Some(services), true).expect("owned");
    assert_eq!(
        cycle.run_once(),
        vec![CycleStep::ReloadControls, CycleStep::RunHandler(0), CycleStep::RunHandler(1), CycleStep::Close]
    );
    assert_eq!(cycle.reported_phase(), Some(Phase::Preflight), "nothing has been done yet");
    cycle.enter(CycleStep::RunHandler(1));
    assert_eq!(cycle.reported_phase(), Some(Phase::Handler(1)));
    cycle.enter(CycleStep::Close);
    assert_eq!(cycle.reported_phase(), Some(Phase::PostHandlers));
    cycle.enter_waiting();
    assert_eq!(cycle.reported_phase(), Some(Phase::Waiting));
}

#[test]
fn run_once_owns_profile_and_finishes_in_post_handlers() {
    let (mon, _) = start_owner_monitoring(OwnerRole::Owned);
    let (services, _) = start_owner_stream_observers(OwnerRole::Owned, &mon);
    let mut cycle = OwnedMaintenanceCycle::new(vec!["recording".to_string()], services, true);
    assert_eq!(*cycle.handler_names(), vec!["recording".to_string()]);
    let mut runs = 0;
    for step in cycle.run_once() {
        cycle.enter(step);
        if step == CycleStep::RunHandler(0) {
            runs += 1;
            assert_eq!(cycle.reported_phase(), Some(Phase::Handler(0)));
        }
    }
    assert_eq!(runs, 1);
    assert_eq!(cycle.reported_phase(), Some(Phase::PostHandlers));
}

#[test]
fn scan_sets_flag_when_binary_replaced() {
    let mut flag = false;
    scan_and_set_flag(Some(20), 10, &mut flag);
    assert!(flag, "post-start binary must flip flag to true");
}

#[test]
fn scan_leaves_flag_false_when_binary_fresh() {
    let mut flag = false;
    scan_and_set_flag(Some(10), 20, &mut flag);
    assert!(!flag, "binary older than process-start must keep flag=false");
    scan_and_set_flag(None, 20, &mut flag);
    assert!(!flag, "a binary that cannot be read says nothing");
}

#[test]
fn scan_does_not_clear_flag_once_set() {
    let mut flag = true;
    scan_and_set_flag(Some(10), 60, &mut flag);
    assert!(flag, "flag must remain true once set; got cleared");
}

#[test]
fn tracker_throttles_until_full_tick_window() {
    let mut tracker = McpRegistryWatcherTracker::new(0);
    let mut flag = false;
    for i in 0..(TICKS_PER_REGISTRY_SCAN - 1) {
        assert!(
            !tracker.maybe_scan(None, &mut flag),
            "scan must not run before tick window completes (i={i})"
        );
    }
    assert!(tracker.maybe_scan(None, &mut flag));
    assert!(!tracker.maybe_scan(None, &mut flag));
}
