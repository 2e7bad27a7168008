use agend_daemon::agents::{Backend, Preset};
use agend_daemon::dates::Moment;
use agend_daemon::per_tick::assignment_reconcile::{
    needs_row, next_step, workset, AssignmentEvidence, AssignmentReconcileHandler, AssignmentRecord, BranchId, BranchPass,
    BranchStep, Heard, Learned, LiveSubject, NextStep, TaskStanding,
};
use agend_daemon::per_tick::backend_exit_detection::{
    apply_health, backend_exited_event, backend_mismatch, notify_backend_exited, should_fire_backend_exit,
    BackendExitDetectionHandler, BackendExited, BackendSight, HealthState,
};
use agend_daemon::per_tick::busy_park_redrive::{worth_logging, BusyParkRedriveHandler, RedriveStats};
use agend_daemon::per_tick::canonical_heartbeat::{canonical_missing_reason, page_event, CanonicalHeartbeatHandler, RepoLook};
use agend_daemon::per_tick::check_schedules::CheckSchedulesHandler;
use agend_daemon::per_tick::checkout_txn_recover::CheckoutTxnRecoverHandler;
use agend_daemon::per_tick::ci_watch_poll::CiWatchPollHandler;
use agend_daemon::per_tick::cross_board_dep_detective::{records, CrossBoardDepDetectiveHandler};
use agend_daemon::per_tick::divergence_telemetry::DivergenceTelemetryHandler;
use agend_daemon::per_tick::ephemeral_reap::EphemeralReapHandler;
use agend_daemon::per_tick::external_liveness::{ExternalAgent, ExternalLivenessHandler};
use agend_daemon::per_tick::gc_tick::{tally, target_sweep_summary, GcTickHandler, TargetSweep};
use agend_daemon::per_tick::handoff_timeout::{HandoffKey, HandoffTimeoutHandler};
use agend_daemon::per_tick::hang_detection::{
    asks_for_page, clear_left_hung_anchor, hang_response, needs_fleet, notify_self_orch_hung, self_orch_status,
    HangDetectionHandler, HangSight, SelfOrchStatus,
};
use agend_daemon::per_tick::hourly_gc::{due_sweeps, DueSweeps, HourlyGcHandler, Sweep};
use agend_daemon::per_tick::inbox_maintenance::{upkeep_steps, worktree_removed_event, InboxMaintenanceHandler, UpkeepStep};
use agend_daemon::per_tick::inbox_stuck::{recovered_agents, InboxStuckHandler, StuckAlert};
use agend_daemon::per_tick::inject_delivery::InjectDeliveryHandler;
use agend_daemon::per_tick::offload::OffloadGuard;
use agend_daemon::per_tick::pipeline::default_handler_names;
use agend_daemon::table::Table;

const BOOT_GRACE_MS: u64 = 120_000;

fn presets() -> Vec<Preset> {
    vec![
        Preset { program: "codex".to_string(), backend: Backend::Codex },
        Preset { program: "opencode".to_string(), backend: Backend::OpenCode },
    ]
}

#[test]
fn backend_mismatch_fires_when_backend_exited_to_shell() {
    assert!(
        backend_mismatch(&presets(), "codex", "/bin/bash"),
        "a codex-configured instance whose live process is now a bare shell must mismatch"
    );
}

#[test]
fn backend_mismatch_false_when_live_matches_configured() {
    assert!(
        !backend_mismatch(&presets(), "codex", "codex"),
        "matching live/configured backend must not mismatch"
    );
    assert!(
        !backend_mismatch(&presets(), "codex", "/usr/local/bin/codex"),
        "a resolved absolute path for the same backend must still match by basename"
    );
}

#[test]
fn backend_mismatch_false_when_configured_is_shell() {
    assert!(
        !backend_mismatch(&presets(), "/bin/bash", "/bin/zsh"),
        "a shell-configured instance has no preset identity to compare — must never mismatch"
    );
    assert!(
        !backend_mismatch(&presets(), "/bin/bash", "codex"),
        "even a live codex under a shell-configured instance must not fire"
    );
}

#[test]
fn should_fire_backend_exit_false_within_grace_even_when_mismatched() {
    assert!(!should_fire_backend_exit(&presets(), "codex", "/bin/bash", 2_000));
}

#[test]
fn should_fire_backend_exit_true_past_grace_when_mismatched() {
    assert!(should_fire_backend_exit(&presets(), "codex", "/bin/bash", 60_000));
}

#[test]
fn should_fire_backend_exit_false_when_no_mismatch_regardless_of_elapsed() {
    assert!(!should_fire_backend_exit(&presets(), "codex", "codex", 600_000));
}

#[test]
fn backend_exit_detection_run_is_noop_on_empty_registry() {
    let r = BackendExitDetectionHandler::new().run(&presets(), &Vec::new(), 0);
    assert!(r.mismatched.is_empty() && r.notify.is_empty());
}

#[test]
fn backend_exit_detection_name_matches_module() {
    assert_eq!(BackendExitDetectionHandler::new().name(), "backend_exit_detection");
}

#[test]
fn a_backend_that_exited_is_reported_once_in_a_while() {
    let sight = || BackendSight {
        name: "w".to_string(),
        live: "/bin/bash".to_string(),
        elapsed_ms: 60_000,
        configured: Some("codex".to_string()),
    };
    let mut h = BackendExitDetectionHandler::new();
    assert_eq!(h.run(&presets(), &vec![sight()], 100_000).notify.len(), 1);
    let again = h.run(&presets(), &vec![sight()], 130_000);
    assert_eq!((again.mismatched.len(), again.notify.len()), (1, 0));
    assert_eq!(h.run(&presets(), &vec![sight()], 160_000).notify.len(), 1);
    assert_eq!(apply_health(HealthState::Healthy, true), HealthState::Unhealthy);
    assert_eq!(apply_health(HealthState::Paused, true), HealthState::Paused);
    assert_eq!(apply_health(HealthState::Unhealthy, false), HealthState::Healthy);
    let b = BackendExited { name: "w".into(), expected: "codex".into(), live: "bash".into() };
    let e = backend_exited_event(&b);
    assert_eq!((e.kind.as_str(), e.subject.as_str(), e.detail.as_str()), ("backend_exited", "w", "expected=codex observed=bash"));
    assert!(notify_backend_exited(&b).contains("expected `codex`, pane now shows `bash`"));
}

#[test]
fn registered_in_default_daemon_pipeline() {
    let handlers = default_handler_names();
    assert!(
        handlers.iter().any(|h| *h == "busy_park_redrive"),
        "BusyParkRedriveHandler must run in every tick"
    );
    let mut sorted = handlers.clone();
    sorted.sort();
    sorted.dedup();
    assert_eq!(sorted.len(), handlers.len(), "no handler runs twice");
}

#[test]
fn busy_park_redrive_fires_at_expected_cadence() {
    let mut h = BusyParkRedriveHandler::new(3);
    let fires: Vec<bool> = (0..7).map(|_| h.due()).collect();
    assert_eq!(fires, vec![true, false, false, true, false, false, true]);
}

#[test]
fn busy_park_redrive_name_matches_module() {
    assert_eq!(BusyParkRedriveHandler::new(1).name(), "busy_park_redrive");
}

#[test]
fn an_empty_scan_is_not_logged() {
    assert!(!worth_logging(&RedriveStats { scanned: 0, delivered: 0, reparked: 0, dropped: 0 }));
    assert!(worth_logging(&RedriveStats { scanned: 1, delivered: 0, reparked: 1, dropped: 0 }));
}

#[test]
fn check_schedules_name_matches_module() {
    assert_eq!(CheckSchedulesHandler::new().name(), "check_schedules");
}

#[test]
fn ci_watch_poll_name_matches_module() {
    assert_eq!(CiWatchPollHandler::new().name(), "ci_watch_poll");
}

#[test]
fn divergence_telemetry_name_matches_module() {
    assert_eq!(DivergenceTelemetryHandler::new(360).name(), "divergence_telemetry");
}

#[test]
fn flush_every_floored_to_one() {
    assert_eq!(DivergenceTelemetryHandler::new(0).flush_every(), 1);
}

#[test]
fn a_window_is_flushed_when_it_is_over() {
    let mut h = DivergenceTelemetryHandler::new(3);
    let out: Vec<Option<u64>> = (0..7).map(|_| h.run()).collect();
    assert_eq!(out, vec![None, None, None, Some(30), None, None, Some(30)]);
}

#[test]
fn should_fire_respects_every_n_ticks() {
    let mut handler = GcTickHandler::new(3);
    assert!(handler.due());
    assert!(!handler.due());
    assert!(!handler.due());
    assert!(handler.due());
    assert!(!handler.due());
}

#[test]
fn the_first_pass_sweeps_no_build_directory() {
    let mut h = GcTickHandler::new(3);
    assert_eq!(h.name(), "gc_tick");
    assert!(!h.arm_target_sweep());
    assert!(h.arm_target_sweep());
    assert_eq!(tally(&vec![true, false, true]), (2, 1));
    let swept = vec![
        TargetSweep { removed: true, freed_bytes: 3 * 1024 * 1024 },
        TargetSweep { removed: false, freed_bytes: 99 * 1024 * 1024 },
        TargetSweep { removed: true, freed_bytes: 1024 * 1024 + 5 },
    ];
    assert_eq!(target_sweep_summary(&swept), Some((2, 4)));
    assert_eq!(target_sweep_summary(&vec![TargetSweep { removed: false, freed_bytes: 7 }]), None);
}

#[test]
fn hang_detection_name_matches_module() {
    assert_eq!(HangDetectionHandler::new().name(), "hang_detection");
}

#[test]
fn phase2_does_not_relock_registry_per_hung_agent() {
    let seen = vec![
        HangSight { name: "a".into(), was_hung: false, now_hung: true, just_detected: true },
        HangSight { name: "b".into(), was_hung: true, now_hung: true, just_detected: false },
        HangSight { name: "c".into(), was_hung: true, now_hung: false, just_detected: false },
    ];
    let scan = HangDetectionHandler::new().run(&seen);
    let hung: Vec<(&str, bool)> = scan.hung.iter().map(|h| (h.name.as_str(), h.newly)).collect();
    assert_eq!(hung, vec![("a", true), ("b", false)], "one look at the registry says who is hung");
    assert_eq!(scan.left, vec!["c".to_string()]);
    assert!(needs_fleet(&scan));
}

#[test]
fn hang_detection_run_is_noop_on_empty_registry() {
    let scan = HangDetectionHandler::new().run(&Vec::new());
    assert!(scan.hung.is_empty() && scan.left.is_empty());
    assert!(!needs_fleet(&scan));
}

#[test]
fn left_hung_anchor_cleared_narrow_1870_h2() {
    let status = self_orch_status(true, Some("orch-1"), "orch-1");
    assert_eq!(status, SelfOrchStatus::Yes);
    assert!(clear_left_hung_anchor(status, true));
    assert!(notify_self_orch_hung("orch-1").contains("orch-1"));
    assert!(hang_response(status, true, true).persist);
}

#[test]
fn no_fleet_yaml_left_hung_agent_escalation_store_unchanged() {
    let status = self_orch_status(true, None, "w");
    assert_eq!(status, SelfOrchStatus::No);
    assert!(!clear_left_hung_anchor(status, true));
}

#[test]
fn name_is_hourly_gc() {
    assert_eq!(HourlyGcHandler::new(360, BOOT_GRACE_MS).name(), "hourly_gc");
}

#[test]
fn no_panic_all_four_run_in_order() {
    let all = DueSweeps { gc_tick: true, workspace_boundary: true, tmp_review: true, reconcile_backups: true };
    let names: Vec<&str> = due_sweeps(all).iter().map(|s| s.name()).collect();
    assert_eq!(names, ["gc_tick", "workspace_boundary_sweep", "tmp_review_gc", "reconcile_backups_gc"]);
    let some = DueSweeps { gc_tick: false, workspace_boundary: true, tmp_review: false, reconcile_backups: true };
    assert_eq!(due_sweeps(some), vec![Sweep::WorkspaceBoundary, Sweep::ReconcileBackups]);
}

#[test]
fn run_does_not_block_tick_loop_during_slow_round_p1_2607() {
    let mut h = HourlyGcHandler::new(1, 0);
    assert_eq!(h.run().len(), 4);
    assert!(h.is_in_flight(), "the round is still running elsewhere");
    assert!(h.run().is_empty(), "a second round does not begin");
    assert!(h.is_in_flight());
    h.finish();
    assert!(!h.is_in_flight());
    assert_eq!(h.run().len(), 4);
    assert!(!h.arm_target_sweep());
    assert!(h.arm_target_sweep());
}

#[test]
fn the_workspace_sweep_waits_out_the_boot() {
    let mut h = HourlyGcHandler::new(2, BOOT_GRACE_MS);
    assert_eq!(h.run(), vec![Sweep::GcTick, Sweep::TmpReview, Sweep::ReconcileBackups]);
    h.finish();
    assert!(h.run().is_empty());
}

#[test]
fn one_round_at_a_time() {
    let mut g = OffloadGuard::new();
    assert!(g.begin());
    assert!(!g.begin());
    assert!(g.is_in_flight());
    g.finish();
    assert!(g.begin());
}

#[test]
fn fires_on_first_tick_then_every_n() {
    let mut h = InboxMaintenanceHandler::new(4);
    let fires: Vec<bool> = (0..9).map(|_| h.due()).collect();
    assert_eq!(fires, vec![true, false, false, false, true, false, false, false, true]);
}

#[test]
fn the_upkeep_keeps_its_order() {
    assert_eq!(InboxMaintenanceHandler::new(1).name(), "inbox_maintenance");
    assert_eq!(
        upkeep_steps(),
        vec![
            UpkeepStep::SweepExpired,
            UpkeepStep::ReclaimStaleDelivering,
            UpkeepStep::CheckDiskSpace,
            UpkeepStep::TaskMaintenance,
            UpkeepStep::WorktreeCleanup
        ]
    );
    let e = worktree_removed_event("feat", "/w/feat");
    assert_eq!(
        (e.kind.as_str(), e.subject.as_str(), e.detail.as_str()),
        ("worktree_auto_removed", "feat", "path=/w/feat, branch merged into main")
    );
}

#[test]
fn external_liveness_run_is_noop_on_empty_registry() {
    let mut externals: Table<String, ExternalAgent> = Table::new();
    let events = ExternalLivenessHandler::new().run(&mut externals, &Vec::new());
    assert!(events.is_empty());
    assert_eq!(externals.len(), 0);
}

#[test]
fn run_evicts_dead_pid_keeps_live_pid() {
    let mut externals: Table<String, ExternalAgent> = Table::new();
    externals.insert("dead-agent".to_string(), ExternalAgent { backend_command: "codex".into(), pid: 999_999_999 });
    externals.insert("live-agent".to_string(), ExternalAgent { backend_command: "codex".into(), pid: 7 });
    let h = ExternalLivenessHandler::new();
    assert_eq!(h.name(), "external_liveness");
    let events = h.run(&mut externals, &vec![7]);
    assert!(!externals.contains(&"dead-agent".to_string()), "dead PID must be evicted");
    assert!(externals.contains(&"live-agent".to_string()), "live PID must be retained");
    assert_eq!(events.len(), 1);
    assert_eq!(
        (events[0].kind.as_str(), events[0].subject.as_str(), events[0].detail.as_str()),
        ("disconnect", "dead-agent", "external agent PID gone")
    );
}

#[test]
fn handoff_timeout_fires_at_expected_cadence() {
    let mut h = HandoffTimeoutHandler::new_at(3, BOOT_GRACE_MS, BOOT_GRACE_MS + 1_000);
    let fires: Vec<bool> = (0..7).map(|_| h.due()).collect();
    assert_eq!(fires, vec![true, false, false, true, false, false, true]);
}

#[test]
fn handoff_timeout_name_matches_module() {
    assert_eq!(HandoffTimeoutHandler::new(30, BOOT_GRACE_MS).name(), "handoff_timeout_watchdog");
}

#[test]
fn handoff_timeout_boot_grace_suppresses_then_fires() {
    let mut fresh = HandoffTimeoutHandler::new(30, BOOT_GRACE_MS);
    assert!(!fresh.due(), "in boot-grace → suppressed");
    assert!(!fresh.due(), "still suppressed; counter not consumed");
    let mut aged = HandoffTimeoutHandler::new_at(30, BOOT_GRACE_MS, BOOT_GRACE_MS + 1_000);
    assert!(aged.due(), "after grace, first tick fires");
}

#[test]
fn handoffs_are_remembered() {
    let key = || HandoffKey { agent: "a".into(), handoff: "h".into() };
    let at = Moment { secs: 5, nanos: 0 };
    let mut h = HandoffTimeoutHandler::new(1, 0);
    assert_eq!(h.last_escalation(&key()), None);
    h.note_escalation(key(), at);
    assert_eq!(h.last_escalation(&key()), Some(at));
    assert_eq!(h.last_renudge(&key()), None);
    h.note_renudge(key(), at);
    assert_eq!(h.last_renudge(&key()), Some(at));
}

#[test]
fn inbox_stuck_fires_at_expected_cadence() {
    let mut h = InboxStuckHandler::new_at(3, BOOT_GRACE_MS, BOOT_GRACE_MS + 1_000);
    let fires: Vec<bool> = (0..7).map(|_| h.due()).collect();
    assert_eq!(fires, vec![true, false, false, true, false, false, true]);
}

#[test]
fn inbox_stuck_name_matches_module() {
    assert_eq!(InboxStuckHandler::new(30, BOOT_GRACE_MS).name(), "inbox_stuck_watchdog");
}

#[test]
fn inbox_stuck_boot_grace_suppresses_then_fires() {
    let mut fresh = InboxStuckHandler::new(30, BOOT_GRACE_MS);
    assert!(!fresh.due(), "in boot-grace → suppressed");
    assert!(!fresh.due(), "still suppressed; counter not consumed");
    let mut aged = InboxStuckHandler::new_at(30, BOOT_GRACE_MS, BOOT_GRACE_MS + 1_000);
    assert!(aged.due(), "after grace, first tick fires");
}

#[test]
fn deleted_agent_alert_timer_pruned_on_run() {
    let at = Moment { secs: 5, nanos: 0 };
    let mut h = InboxStuckHandler::new_at(1, BOOT_GRACE_MS, BOOT_GRACE_MS + 1_000);
    h.settle(&vec![StuckAlert { name: "ghost".into(), at }], &vec!["ghost".to_string()]);
    assert_eq!(h.last_alert("ghost"), Some(at));
    h.settle(&Vec::new(), &Vec::new());
    assert_eq!(h.last_alert("ghost"), None, "a deleted agent's re-alert timer must be pruned");
}

#[test]
fn live_agent_keeps_alert_timer() {
    let at = Moment { secs: 5, nanos: 0 };
    let mut h = InboxStuckHandler::new_at(1, BOOT_GRACE_MS, BOOT_GRACE_MS + 1_000);
    let live = vec!["alive".to_string()];
    h.settle(&vec![StuckAlert { name: "alive".into(), at }], &live);
    h.settle(&Vec::new(), &live);
    assert_eq!(h.last_alert("alive"), Some(at), "a live agent must keep its re-alert timer");
    h.clear("alive");
    assert_eq!(h.last_alert("alive"), None);
}

#[test]
fn agents_that_are_not_blocked_have_recovered() {
    let live = vec!["a".to_string(), "b".to_string(), "c".to_string()];
    assert_eq!(recovered_agents(&live, &vec!["b".to_string()]), vec!["a".to_string(), "c".to_string()]);
}

#[test]
fn injects_are_verified_every_n_ticks() {
    let mut h = InjectDeliveryHandler::new(2);
    assert_eq!(h.name(), "inject_delivery");
    let fires: Vec<bool> = (0..4).map(|_| h.should_fire()).collect();
    assert_eq!(fires, vec![true, false, true, false]);
}

#[test]
fn the_names_of_the_small_handlers() {
    let mut a = CheckoutTxnRecoverHandler::new(2);
    assert_eq!(a.name(), "checkout_txn_recover");
    assert!(a.due() && !a.due());
    let mut b = EphemeralReapHandler::new(2);
    assert_eq!(b.name(), "ephemeral_reap");
    assert!(b.due() && !b.due());
    let mut c = CrossBoardDepDetectiveHandler::new(2);
    assert_eq!(c.name(), "cross_board_dep_detective");
    assert!(c.due() && !c.due());
    let e = records(&vec!["t-1".to_string()], &vec!["t-2".to_string()]);
    assert_eq!(e.len(), 2);
    assert_eq!((e[0].kind.as_str(), e[0].subject.as_str()), ("audit2_014_cross_board_claim_released", "t-1"));
    assert_eq!((e[1].kind.as_str(), e[1].subject.as_str()), ("audit2_014_cross_board_dep_stale_in_progress", "t-2"));
}

#[test]
fn healthy_repo_is_not_missing() {
    assert_eq!(canonical_missing_reason(true, true), None);
}

#[test]
fn deleted_dir_is_path_missing() {
    assert_eq!(canonical_missing_reason(false, false), Some("path missing"));
}

#[test]
fn existing_non_git_dir_is_corrupt() {
    assert_eq!(canonical_missing_reason(true, false), Some("not a git repo (corrupt/removed .git)"));
}

#[test]
fn tick_runner_progresses_while_body_gated_pr3() {
    let mut h = CanonicalHeartbeatHandler::new(1);
    assert_eq!(h.name(), "canonical_heartbeat");
    assert!(h.start(), "the first tick begins a round");
    assert!(!h.start(), "the next tick goes on while the round is running");
    h.finish();
    assert!(h.start());
}

#[test]
fn an_outage_pages_once() {
    let look = |exists: bool, git_ok: bool| vec![RepoLook { repo: "/r".into(), exists, git_ok }];
    let mut h = CanonicalHeartbeatHandler::new(1);
    assert!(h.run(&look(true, true)).is_empty());
    let pages = h.run(&look(false, false));
    assert_eq!(pages.len(), 1);
    assert!(pages[0].text.starts_with("[canonical-missing] registered source_repo '/r' is GONE (path missing)."));
    let e = page_event(&pages[0]);
    assert_eq!((e.kind.as_str(), e.subject.as_str()), ("canonical_repo_missing", "/r"));
    assert!(h.run(&look(false, false)).is_empty(), "the outage goes on");
    assert!(h.run(&look(true, true)).is_empty(), "recovery is silent");
    assert_eq!(h.run(&look(true, false)).len(), 1, "the next outage pages again");
    assert!(h.run(&Vec::new()).is_empty());
    assert_eq!(h.run(&look(false, false)).len(), 1, "a repository that was forgotten pages again");
}

fn record(pr_number: u64, head: Option<&str>) -> AssignmentRecord {
    AssignmentRecord {
        target: "rev".into(),
        pr_number,
        reviewed_head: head.map(|h| h.to_string()),
        row_pending: false,
    }
}

fn live(pr_number: u64, head: &str) -> Option<LiveSubject> {
    Some(LiveSubject { head_sha: head.into(), pr_number })
}

const NOTHING: Learned = Learned { task: None, evidence: None, repaired: None };

fn learned(task: TaskStanding, evidence: AssignmentEvidence, repaired: bool) -> Learned {
    Learned { task: Some(task), evidence: Some(evidence), repaired: Some(repaired) }
}

#[test]
fn head_advance_no_receipt_retires() {
    assert_eq!(next_step(&record(7, Some("old")), &live(7, "new"), &NOTHING), NextStep::RetireContradicted);
}

#[test]
fn pr_number_mismatch_retires() {
    assert_eq!(next_step(&record(7, None), &live(8, "h"), &NOTHING), NextStep::RetireContradicted);
}

#[test]
fn same_head_unengaged_still_nudges() {
    let r = record(7, Some("h"));
    assert_eq!(next_step(&r, &live(7, "h"), &NOTHING), NextStep::ReadTask);
    let l = Learned { task: Some(TaskStanding::Underway), evidence: None, repaired: None };
    assert_eq!(next_step(&r, &live(7, "h"), &l), NextStep::Classify { against_live: true });
    let l = Learned { evidence: Some(AssignmentEvidence::Unengaged), ..l };
    assert_eq!(next_step(&r, &live(7, "h"), &l), NextStep::Repair);
    assert_eq!(
        next_step(&r, &live(7, "h"), &learned(TaskStanding::Underway, AssignmentEvidence::Unengaged, true)),
        NextStep::Wake
    );
}

#[test]
fn absent_prstate_no_retire() {
    let l = Learned { task: Some(TaskStanding::Unknown), evidence: None, repaired: None };
    assert_eq!(next_step(&record(7, Some("h")), &None, &l), NextStep::Classify { against_live: false });
}

#[test]
fn c2_current_head_engaged_unsatisfied_not_retired() {
    assert_eq!(
        next_step(
            &record(7, Some("h")),
            &live(7, "h"),
            &learned(TaskStanding::Underway, AssignmentEvidence::EngagedUnsatisfied, true)
        ),
        NextStep::Leave
    );
}

#[test]
fn c3_head_sha_exact_byte_comparison() {
    assert_eq!(next_step(&record(7, Some("abcdef")), &live(7, "abcde"), &NOTHING), NextStep::RetireContradicted);
    assert_eq!(next_step(&record(7, Some("abc")), &live(7, "ABC"), &NOTHING), NextStep::RetireContradicted);
}

#[test]
fn d5_retired_assignment_no_stale_wake() {
    assert_eq!(
        next_step(
            &record(7, Some("old")),
            &live(7, "new"),
            &learned(TaskStanding::Underway, AssignmentEvidence::Unengaged, true)
        ),
        NextStep::RetireContradicted
    );
}

#[test]
fn cancelled_task_assignment_is_retired_not_nudged() {
    assert_eq!(
        next_step(&record(7, None), &live(7, "h"), &learned(TaskStanding::Over, AssignmentEvidence::Unengaged, true)),
        NextStep::RetireTaskOver
    );
}

#[test]
fn read_or_delivering_row_does_not_wake() {
    assert_eq!(
        next_step(&record(7, None), &live(7, "h"), &learned(TaskStanding::Underway, AssignmentEvidence::Unengaged, false)),
        NextStep::Leave
    );
    assert_eq!(
        next_step(&record(7, None), &live(7, "h"), &learned(TaskStanding::Underway, AssignmentEvidence::Satisfied, true)),
        NextStep::Leave
    );
}

#[test]
fn a_pending_row_is_stored() {
    let mut r = record(7, None);
    assert!(!needs_row(&r));
    r.row_pending = true;
    assert!(needs_row(&r));
}

#[test]
fn the_workset_is_sorted_and_holds_nothing_twice() {
    let b = |repo: &str, branch: &str| BranchId { repo: repo.into(), branch: branch.into() };
    let w = workset(&vec![b("o/r", "z"), b("o/r", "a"), b("o/q", "zz")], &vec![b("o/r", "a"), b("o/r", "aa")]);
    let names: Vec<(&str, &str)> = w.iter().map(|x| (x.repo.as_str(), x.branch.as_str())).collect();
    assert_eq!(names, vec![("o/q", "zz"), ("o/r", "a"), ("o/r", "aa"), ("o/r", "z")]);
}

#[test]
fn t28_handler_registered_and_runs() {
    let mut h = AssignmentReconcileHandler::new(1);
    assert_eq!(h.name(), "assignment_reconcile");
    assert!(default_handler_names().contains(&"assignment_reconcile"));
    let first = h.run();
    assert!(first.census && first.reconcile);
    let second = h.run();
    assert!(!second.census && second.reconcile);
    let mut every_other = AssignmentReconcileHandler::new(2);
    let ticks: Vec<bool> = (0..4).map(|_| every_other.run().reconcile).collect();
    assert_eq!(ticks, vec![true, false, true, false]);
    assert!(AssignmentReconcileHandler::new(0).run().reconcile);
}

#[test]
fn a_branch_is_reconciled_in_order() {
    let mut idle = record(7, Some("abc"));
    idle.target = "idle".into();
    idle.row_pending = true;
    let mut gone = record(6, None);
    gone.target = "gone".into();
    let mut done = record(7, None);
    done.target = "done".into();
    let mut busy = record(7, None);
    busy.target = "busy".into();
    let mut p = BranchPass::new();
    assert_eq!(p.reconcile_branch(Heard::Nothing), BranchStep::DropFinished);
    assert_eq!(p.reconcile_branch(Heard::Nothing), BranchStep::ReadBranch);
    assert_eq!(p.reconcile_branch(Heard::Nothing), BranchStep::ReadBranch, "an unanswered question is put again");
    let read = Heard::Branch { live: live(7, "abc"), records: vec![idle, gone, done, busy] };
    assert_eq!(p.reconcile_branch(read), BranchStep::StoreRow { at: 0 }, "the row comes first");
    assert_eq!(p.reconcile_branch(Heard::Nothing), BranchStep::About { at: 0, step: NextStep::ReadTask });
    assert_eq!(
        p.reconcile_branch(Heard::Task(TaskStanding::Underway)),
        BranchStep::About { at: 0, step: NextStep::Classify { against_live: true } }
    );
    assert_eq!(
        p.reconcile_branch(Heard::Evidence(AssignmentEvidence::Unengaged)),
        BranchStep::About { at: 0, step: NextStep::Repair }
    );
    assert_eq!(p.reconcile_branch(Heard::Repaired(true)), BranchStep::About { at: 0, step: NextStep::Wake });
    assert_eq!(p.reconcile_branch(Heard::Nothing), BranchStep::About { at: 1, step: NextStep::RetireContradicted });
    assert_eq!(p.reconcile_branch(Heard::Nothing), BranchStep::About { at: 2, step: NextStep::ReadTask });
    assert_eq!(
        p.reconcile_branch(Heard::Task(TaskStanding::Over)),
        BranchStep::About { at: 2, step: NextStep::RetireTaskOver }
    );
    assert_eq!(p.reconcile_branch(Heard::Nothing), BranchStep::About { at: 3, step: NextStep::ReadTask });
    p.reconcile_branch(Heard::Task(TaskStanding::Unknown));
    assert_eq!(
        p.reconcile_branch(Heard::Evidence(AssignmentEvidence::EngagedUnsatisfied)),
        BranchStep::About { at: 3, step: NextStep::Leave }
    );
    assert_eq!(p.reconcile_branch(Heard::Nothing), BranchStep::ReserveAgain);
    assert_eq!(p.reconcile_branch(Heard::Nothing), BranchStep::Done);
    assert_eq!(p.wakes, vec!["idle".to_string()]);
}

#[test]
fn an_empty_branch_still_derives_its_reservations() {
    let mut p = BranchPass::new();
    p.reconcile_branch(Heard::Nothing);
    p.reconcile_branch(Heard::Nothing);
    let read = Heard::Branch { live: None, records: vec![] };
    assert_eq!(p.reconcile_branch(read), BranchStep::ReserveAgain);
    assert!(p.wakes.is_empty());
}

#[test]
fn a_hang_is_new_by_its_name() {
    let seen = vec![
        HangSight { name: "twin".into(), was_hung: true, now_hung: true, just_detected: false },
        HangSight { name: "other".into(), was_hung: true, now_hung: true, just_detected: false },
        HangSight { name: "twin".into(), was_hung: false, now_hung: true, just_detected: true },
        HangSight { name: "other".into(), was_hung: false, now_hung: false, just_detected: true },
    ];
    let scan = HangDetectionHandler::new().run(&seen);
    let hung: Vec<(&str, bool)> = scan.hung.iter().map(|h| (h.name.as_str(), h.newly)).collect();
    assert_eq!(hung, vec![("twin", true), ("other", false), ("twin", true)]);
}

#[test]
fn only_a_possible_orchestrator_is_asked_for() {
    assert!(asks_for_page(SelfOrchStatus::Yes));
    assert!(asks_for_page(SelfOrchStatus::Unknown));
    assert!(!asks_for_page(SelfOrchStatus::No));
}
