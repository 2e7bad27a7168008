use agend_daemon::agents::{
    handle_clean_exit, identity_dir, refuse_second_daemon, skill_backend, run_with_prepared, spawn_and_register_agent, terminal_size, AgentConfig, Backend,
    EnvVar, PreparedFleet, Preset, SpawnAction, SpawnPhase,
};
use agend_daemon::cadence::{is_multiple_of, CadenceGate};
use agend_daemon::dates::{date_text, is_later, moment_millis, parse_date, Moment};
use agend_daemon::lifecycle::{
    delete_event, delete_kill, delete_transaction, delete_transaction_under_guard, wait_for_child_exit, DeleteFence, DeleteStep,
    FenceStep, SpawnRollback, TransactionStep, WaitStep,
};
use agend_daemon::run_dir::{
    daemon_identity, find_active_run_dir, join_path, judge_run_dir, read_daemon_boot_unix, read_daemon_pid,
    read_daemon_start_token, run_dir_for_pid, sweep_stale_run_dirs, RunDirVerdict, RunEntry,
};
use agend_daemon::serve::{
    boot_goes_on, boot_plan, build_tick_infrastructure, daemon_start_event, display_timezone, init_daemon_services,
    init_daemon_services_post_lock, registry_attach, serve_loop_post_select, spawn_fleet_agents, spawn_stagger,
    spawn_handoff_requester_self_kick, Action, ApiReady, BootStep, FleetSource, Observed, Phase, RegistryAttach, SelfKick, Serve,
    TickStep, Wake,
};
use agend_daemon::shutdown::{
    confirm_shutdown_or_abort_respawn, daemon_stop_event, grace_disposition, record_shutdown_reason, self_respawn_settle, shutdown_metrics,
    shutdown_sequence, shutdown_tally, terminate_agents_parallel, ChildStatus, GraceDisposition, RespawnFlags, ShutdownReason, ShutdownStep,
    ShutdownTally, Teardown,
};
use agend_daemon::table::Table;
use agend_daemon::task_maintenance::{
    notify_unsettled_after_report, replay_missed_at_startup, run_task_maintenance, Dispatch, Findings, MissedSchedule,
    ReplayDelivery, UnsettledTask,
};

#[test]
fn spawn_rollback_committed_does_not_remove_registry_entry() {
    let mut guard: SpawnRollback<u32, u64> = SpawnRollback::new("alpha");
    guard.mark_registered(7);
    guard.commit();
    let undo = guard.undo();
    assert!(undo.unregister.is_none() && undo.kill.is_none());
}

#[test]
fn spawn_rollback_armed_drop_removes_registry_entry() {
    let mut guard: SpawnRollback<u32, u64> = SpawnRollback::new("beta");
    guard.mark_child_spawned(3);
    guard.mark_registered(7);
    let undo = guard.undo();
    assert_eq!(undo.unregister, Some(7));
    assert_eq!(undo.kill, Some(3));
    let again = guard.undo();
    assert!(again.unregister.is_none() && again.kill.is_none(), "a rollback happens once");
}

#[test]
fn delete_transaction_no_registry_entry_is_no_op_returns_true() {
    assert!(delete_kill(false, false).is_empty());
    let rest = delete_transaction_under_guard(false, false, false, false, false);
    assert!(rest.done, "missing registry entry → wait is vacuous true");
    assert_eq!(rest.steps, vec![DeleteStep::DropBinding, DeleteStep::RemovePort, DeleteStep::LogDone]);
}

#[test]
fn delete_transaction_with_exited_child_returns_true() {
    assert_eq!(delete_kill(true, false), vec![DeleteStep::MarkDeleted, DeleteStep::Kill, DeleteStep::WaitExit]);
    let rest = delete_transaction_under_guard(true, false, true, true, true);
    assert!(rest.done);
    assert_eq!(
        rest.steps,
        vec![
            DeleteStep::RemoveEntry,
            DeleteStep::DropBinding,
            DeleteStep::RemoveConfig,
            DeleteStep::RemovePort,
            DeleteStep::LogDone
        ]
    );
}

#[test]
fn a_child_that_stays_keeps_its_entry() {
    let rest = delete_transaction_under_guard(true, false, false, true, true);
    assert!(!rest.done);
    assert_eq!(rest.steps, vec![DeleteStep::LogRetained]);
    assert_eq!(delete_event("a", true).subject, "a");
    assert_ne!(delete_event("a", true).detail, delete_event("a", false).detail);
    assert_eq!(wait_for_child_exit(true, 0), WaitStep::Exited);
    assert_eq!(wait_for_child_exit(false, 0), WaitStep::Poll);
    assert_eq!(wait_for_child_exit(false, 5_000), WaitStep::TimedOut);
}

#[test]
fn delete_fence_clears_marker_before_transport_finalization() {
    let (mut fence, steps) = DeleteFence::new(true);
    assert_eq!(steps, vec![FenceStep::MarkDeleting, FenceStep::BeginCleanup, FenceStep::ForgetWakes]);
    assert_eq!(fence.release(), vec![FenceStep::ClearMark, FenceStep::EndCleanup]);
    let (mut bare, steps) = DeleteFence::new(false);
    assert_eq!(steps, vec![FenceStep::MarkDeleting]);
    assert_eq!(bare.attach_transport_cleanup(), vec![FenceStep::BeginCleanup, FenceStep::ForgetWakes]);
    assert_eq!(bare.release(), vec![FenceStep::ClearMark, FenceStep::EndCleanup]);
    assert!(bare.release().is_empty());
    assert_eq!(
        delete_transaction(),
        vec![
            TransactionStep::RaiseFence,
            TransactionStep::RemoveDeliveries,
            TransactionStep::Delete,
            TransactionStep::LowerFence
        ]
    );
}

#[test]
fn an_identity_is_read_back() {
    let id = daemon_identity(42, 1_700_000_000, Some(99));
    assert_eq!(id, "42:1700000000:99");
    assert_eq!(read_daemon_pid(&id), Some(42));
    assert_eq!(read_daemon_boot_unix(&id), Some(1_700_000_000));
    assert_eq!(read_daemon_start_token(&id), Some(99));
    assert_eq!(read_daemon_start_token(&daemon_identity(42, 1, None)), Some(0), "an unknown token is written as zero");
    assert_eq!(read_daemon_start_token("42:1"), None, "a record without a token has none");
    assert_eq!(read_daemon_pid("x:1:2"), None);
    assert_eq!(run_dir_for_pid("/h", 42), "/h/run/42");
    assert_eq!(join_path("/h/", "run"), "/h/run");
}

fn run_entry(name: &str, alive: bool, record: Option<&str>, token: Option<u64>) -> RunEntry {
    RunEntry { name: name.into(), alive, record: record.map(|r| r.to_string()), current_token: token }
}

#[test]
fn the_active_run_directory_is_found() {
    let entries = vec![
        run_entry("tmp", true, None, None),
        run_entry("1", false, Some("1:5:9"), None),
        run_entry("2", true, None, None),
        run_entry("3", true, Some("3:5:9"), Some(8)),
        run_entry("4", true, Some("4:5:9"), Some(9)),
        run_entry("5", true, Some("5:5:9"), Some(9)),
    ];
    let verdicts: Vec<RunDirVerdict> = entries.iter().map(judge_run_dir).collect();
    assert_eq!(
        verdicts,
        vec![
            RunDirVerdict::Skip,
            RunDirVerdict::Remove,
            RunDirVerdict::Skip,
            RunDirVerdict::Remove,
            RunDirVerdict::Accept,
            RunDirVerdict::Accept
        ]
    );
    let scan = find_active_run_dir(&entries);
    assert_eq!(scan.active, Some(4));
    assert_eq!(scan.stale, vec![1, 3]);
    assert!(sweep_stale_run_dirs("7", true, false));
    assert!(!sweep_stale_run_dirs("7", true, true));
    assert!(!sweep_stale_run_dirs("tmp", false, false));
}

#[test]
fn the_first_reason_to_stop_counts() {
    let mut record: u8 = ShutdownReason::Unknown.code();
    record_shutdown_reason(&mut record, ShutdownReason::Watchdog);
    record_shutdown_reason(&mut record, ShutdownReason::Signal);
    assert_eq!(ShutdownReason::from_u8(record), ShutdownReason::Watchdog);
    assert_eq!(ShutdownReason::from_u8(250), ShutdownReason::Unknown);
    for r in [
        ShutdownReason::Signal,
        ShutdownReason::ApiShutdown,
        ShutdownReason::CleanExit,
        ShutdownReason::OperatorRestart,
        ShutdownReason::SignalSigint,
        ShutdownReason::SignalSigterm,
        ShutdownReason::SignalSighup,
    ] {
        assert_eq!(ShutdownReason::from_u8(r.code()), r);
        assert!(!r.as_str().is_empty());
    }
}

#[test]
fn a_dead_successor_calls_the_restart_off() {
    let asked = RespawnFlags { shutdown: true, restart_pending: true, successor_parked: true };
    let mut flags = asked;
    assert!(!confirm_shutdown_or_abort_respawn(&mut flags, true, true));
    assert_eq!(flags, RespawnFlags { shutdown: false, restart_pending: false, successor_parked: false });
    let mut flags = asked;
    assert!(confirm_shutdown_or_abort_respawn(&mut flags, true, false));
    assert_eq!(flags, asked);
    let mut flags = asked;
    assert!(confirm_shutdown_or_abort_respawn(&mut flags, false, true));
}

#[test]
fn what_is_left_after_the_grace_is_killed() {
    assert_eq!(grace_disposition(true), GraceDisposition::HardKill);
    assert_eq!(grace_disposition(false), GraceDisposition::ReapOnly);
    let t = terminate_agents_parallel(&vec![ChildStatus::Running, ChildStatus::Exited, ChildStatus::Running]);
    assert_eq!(t.plan, vec![GraceDisposition::HardKill, GraceDisposition::ReapOnly, GraceDisposition::HardKill]);
    assert_eq!(t.killed_after_grace, 2);
    assert_eq!(shutdown_sequence()[0], ShutdownStep::ReadNames);
    let m = shutdown_metrics(&ShutdownTally {
        reason_record: ShutdownReason::SignalSigterm.code(),
        drained: 3,
        killed_after_grace: 2,
        cleaned: 1,
        failed: 0,
        residual_cleaned: 4,
        residual_failed: 1,
        uptime_secs: 60,
    });
    let e = daemon_stop_event(&m);
    assert_eq!(e.kind, "daemon_stop");
    assert!(e.detail.contains("agents_total=3 agents_killed_after_grace=2 transports_cleaned=5 transports_failed=1 uptime_secs=60"));
}

#[test]
fn a_successor_publishes_itself_only_with_the_lock() {
    let plan = boot_plan(FleetSource::HandoffDeferred { resume_requester: true });
    let at = |s: BootStep| plan.iter().position(|x| *x == s).expect("a step of the plan");
    assert!(at(BootStep::WriteControlReady) < at(BootStep::AcquireLock));
    assert!(at(BootStep::AcquireLock) < at(BootStep::PublishIdentity));
    assert!(at(BootStep::ResolveFleet) < at(BootStep::SpawnFleet));
    assert!(at(BootStep::SpawnFleet) < at(BootStep::ResumeRequester));
    let normal = boot_plan(FleetSource::Resolved);
    assert!(!normal.contains(&BootStep::AcquireLock));
    assert!(!boot_goes_on(BootStep::AcquireLock, false));
    assert!(boot_goes_on(BootStep::HygieneSweeps, false));
    assert!(boot_goes_on(BootStep::AcquireLock, true));
    let ticks = build_tick_infrastructure(true);
    assert_eq!(ticks.len(), 12);
    assert_eq!(ticks[11], TickStep::StartTicking);
    assert!(!build_tick_infrastructure(false).contains(&TickStep::StartSupervisor));
    let e = daemon_start_event(3);
    assert_eq!((e.kind.as_str(), e.detail.as_str()), ("daemon_start", "3 agents"));
}

#[test]
fn the_api_has_to_listen() {
    assert!(init_daemon_services(ApiReady::Listening).is_ok());
    assert_eq!(
        init_daemon_services(ApiReady::Failed("port in use".into())),
        Err("API server failed to start: port in use".to_string())
    );
    assert_eq!(
        init_daemon_services(ApiReady::TimedOut),
        Err("API server did not publish a ready listener within 10s".to_string())
    );
    assert_eq!(
        init_daemon_services(ApiReady::Gone),
        Err("API server exited before reporting readiness".to_string())
    );
    assert!(init_daemon_services_post_lock(Ok(())).is_ok());
    assert_eq!(
        init_daemon_services_post_lock(Err("bad".into())),
        Err("task_events: legacy migration failed: bad".to_string())
    );
    assert_eq!(registry_attach(true, true), RegistryAttach::Prepared);
    assert_eq!(registry_attach(false, true), RegistryAttach::ByName);
    assert_eq!(registry_attach(false, false), RegistryAttach::Nobody);
    assert_eq!(display_timezone(Some(String::new())), None);
    assert_eq!(display_timezone(Some("UTC".into())), Some("UTC".into()));
}

#[test]
fn agents_of_a_fleet_start_apart() {
    assert_eq!(spawn_fleet_agents(true, 2, spawn_stagger(None)).pause_ms, 500);
    assert_eq!(spawn_fleet_agents(true, 1, 500).pause_ms, 0);
    assert!(!spawn_fleet_agents(false, 2, 500).spawn);
    assert_eq!(spawn_fleet_agents(false, 2, 500).pause_ms, 0);
    assert_eq!(spawn_stagger(Some(20)), 20);
    assert_eq!(self_respawn_settle(None), 1);
    assert_eq!(self_respawn_settle(Some(9)), 9);
    assert_eq!(spawn_handoff_requester_self_kick(false, true, true, None), SelfKick::NotInFleet);
    assert_eq!(spawn_handoff_requester_self_kick(true, false, true, None), SelfKick::NotResolved);
    assert_eq!(spawn_handoff_requester_self_kick(true, true, false, None), SelfKick::NotSpawned);
    assert_eq!(
        spawn_handoff_requester_self_kick(true, true, true, Some(9)),
        SelfKick::Resume { ready_timeout_secs: 24 }
    );
    assert_eq!(
        spawn_handoff_requester_self_kick(true, true, true, None),
        SelfKick::Resume { ready_timeout_secs: 75 }
    );
}

fn seen(wake: Wake, successor_died: bool) -> Observed {
    Observed { wake, successor_died }
}

#[test]
fn a_daemon_serves_until_it_is_stopped() {
    let mut s = Serve::new();
    assert_eq!(s.run_core(false, seen(Wake::Tick, false)), Action::Wait);
    assert_eq!(s.run_core(false, seen(Wake::Tick, false)), Action::RunMaintenance);
    assert_eq!(s.run_core(false, seen(Wake::Tick, false)), Action::Check);
    assert_eq!(s.run_core(false, seen(Wake::Exit, false)), Action::Wait);
    assert_eq!(s.run_core(false, seen(Wake::Exit, false)), Action::Check);
    assert_eq!(s.run_core(false, seen(Wake::Exit, false)), Action::DispatchExit);
    s.flags.shutdown = true;
    assert_eq!(s.run_core(false, seen(Wake::Shutdown, false)), Action::Check);
    assert_eq!(s.run_core(false, seen(Wake::Shutdown, false)), Action::TearDown);
    assert_eq!(s.run_core(false, seen(Wake::Shutdown, false)), Action::RemoveRunDir);
    assert_eq!(s.run_core(false, seen(Wake::Shutdown, false)), Action::Return);
    assert!(serve_loop_post_select(true) != serve_loop_post_select(false));
}

#[test]
fn a_handover_that_fails_late_is_recovered() {
    let mut s = Serve::new();
    s.flags = RespawnFlags { shutdown: true, restart_pending: true, successor_parked: true };
    assert_eq!(s.run_core(true, seen(Wake::Shutdown, false)), Action::TearDown);
    assert_eq!(s.run_core(true, seen(Wake::Shutdown, false)), Action::Settle);
    assert_eq!(s.run_core(true, seen(Wake::Shutdown, true)), Action::RespawnFleet);
    assert!(!s.flags.shutdown && !s.flags.restart_pending);
    assert_eq!(s.phase, Phase::Recovering);
    let mut s = Serve::new();
    s.flags = RespawnFlags { shutdown: true, restart_pending: true, successor_parked: false };
    assert_eq!(s.run_core(false, seen(Wake::Shutdown, false)), Action::TearDown);
    assert_eq!(s.run_core(false, seen(Wake::Shutdown, false)), Action::RemoveRunDir);
    assert_eq!(s.run_core(false, seen(Wake::Shutdown, false)), Action::ExitForRestart);
}

fn config(name: &str) -> AgentConfig {
    AgentConfig {
        name: name.into(),
        backend: Some(Backend::Codex),
        backend_command: "codex".into(),
        args: vec!["-c".into()],
        env: Some(vec![EnvVar { name: "A".into(), value: "1".into() }]),
        working_dir: None,
        submit_key: "\r".into(),
    }
}

#[test]
fn a_start_that_fails_leaves_nothing() {
    let mut phase = SpawnPhase::AskDeleting;
    assert_eq!(spawn_and_register_agent(&mut phase, false, false), SpawnAction::AskOwner);
    assert_eq!(spawn_and_register_agent(&mut phase, false, false), SpawnAction::StoreConfig);
    assert_eq!(spawn_and_register_agent(&mut phase, true, false), SpawnAction::Spawn);
    let mut failed = phase;
    assert_eq!(spawn_and_register_agent(&mut failed, false, false), SpawnAction::DropConfig);
    assert_eq!(spawn_and_register_agent(&mut failed, true, false), SpawnAction::FinishFailed);
    assert_eq!(spawn_and_register_agent(&mut phase, true, false), SpawnAction::Rehydrate);
    assert_eq!(spawn_and_register_agent(&mut phase, true, false), SpawnAction::PublishPort);
    assert_eq!(spawn_and_register_agent(&mut phase, true, false), SpawnAction::StartServer);
    assert_eq!(spawn_and_register_agent(&mut phase, true, false), SpawnAction::FinishRunning);
    assert_eq!(terminal_size(None), (120, 40));
    assert_eq!(terminal_size(Some((80, 24))), (80, 24));
}

#[test]
fn a_clean_exit_is_not_started_again() {
    let mut registry: Table<String, u8> = Table::new();
    registry.insert("id-1".to_string(), 1);
    registry.insert("id-2".to_string(), 2);
    let mut configs: Table<String, AgentConfig> = Table::new();
    configs.insert("a".to_string(), config("a"));
    configs.insert("b".to_string(), config("b"));
    handle_clean_exit(&mut registry, &mut configs, &Some("id-1".to_string()), "a");
    assert!(!registry.contains(&"id-1".to_string()) && registry.contains(&"id-2".to_string()));
    assert!(!configs.contains(&"a".to_string()) && configs.contains(&"b".to_string()));
    handle_clean_exit(&mut registry, &mut configs, &None, "b");
    assert_eq!((registry.len(), configs.len()), (1, 0));
    let copy = config("a").copy();
    assert_eq!((copy.name.as_str(), copy.args.len()), ("a", 1));
}

#[test]
fn a_prepared_fleet_is_handed_over_once() {
    let mut p = PreparedFleet { home: "/h".into(), agents: vec![config("a")], has_channel: true };
    let r = run_with_prepared(&mut p);
    assert_eq!((r.home.as_str(), r.agents.len(), r.has_channel), ("/h", 1, true));
    assert!(p.agents.is_empty());
    assert!(refuse_second_daemon(None).is_ok());
    assert!(refuse_second_daemon(Some("/h/run/1")).is_err());
}

#[test]
fn backends_are_known_by_their_program() {
    let presets = vec![
        Preset { program: "codex".into(), backend: Backend::Codex },
        Preset { program: "grok".into(), backend: Backend::Grok },
        Preset { program: "codex".into(), backend: Backend::Agy },
    ];
    assert_eq!(Backend::from_command(&presets, "/usr/bin/codex"), Some(Backend::Codex));
    assert_eq!(Backend::from_command(&presets, "grok"), Some(Backend::Grok));
    assert_eq!(Backend::from_command(&presets, "/bin/sh"), None);
    assert_eq!(Backend::from_command(&presets, "codex/"), None);
}

fn dispatch(to: &str, task_id: Option<&str>) -> Dispatch {
    Dispatch { to: to.into(), task_id: task_id.map(|t| t.to_string()), delegated_at: "then".into() }
}

#[test]
fn stuck_work_is_recorded_and_asked_about() {
    let found = Findings {
        overdue: vec!["t-1".into()],
        stuck: vec![dispatch("a", Some("t-2"))],
        ask: vec![dispatch("b", Some("t-3"))],
        orphans: vec![dispatch("c", Some("t-4"))],
    };
    let r = run_task_maintenance(&found, 30, 60);
    assert_eq!((r.overdue.len(), r.warned.len(), r.queries.len(), r.asked.len(), r.orphaned.len()), (1, 1, 1, 1, 1));
    assert_eq!((r.overdue[0].kind.as_str(), r.overdue[0].subject.as_str()), ("task_overdue_unclaimed", "t-1"));
    assert_eq!(r.warned[0].detail, "no report_result after 30min");
    assert_eq!(r.queries[0].to, "b");
    assert_eq!(r.queries[0].text, "dispatch stuck check: still working on task_id=t-3 (dispatched 60min ago)?");
    assert_eq!(r.asked[0].detail, "no report_result after 60min, querying assignee");
    assert_eq!(r.orphaned[0].detail, "task_id=t-4 dispatched_at=then");
}

#[test]
fn an_unsettled_task_reminds_both_sides_once() {
    let t = |assignee: Option<&str>| UnsettledTask {
        task_id: "t-1".into(),
        status: "in_progress".into(),
        age_minutes: 12,
        assignee: assignee.map(|a| a.to_string()),
        created_by: "lead".into(),
    };
    let n = notify_unsettled_after_report(&t(Some("dev")));
    let to: Vec<&str> = n.messages.iter().map(|m| m.to.as_str()).collect();
    assert_eq!(to, vec!["dev", "lead"]);
    assert_eq!(n.record.kind, "task_unsettled_after_report");
    assert_eq!(n.record.detail, "task_id=t-1 status=in_progress reported 12min ago, still unsettled");
    assert_eq!(notify_unsettled_after_report(&t(Some("lead"))).messages.len(), 1);
    assert_eq!(notify_unsettled_after_report(&t(None)).messages[0].to, "lead");
}

#[test]
fn a_missed_schedule_is_replayed() {
    let s = MissedSchedule { target: "a".into(), message: "go".into(), label: None };
    let r = replay_missed_at_startup(&s, true);
    assert_eq!((r.record.kind.as_str(), r.record.detail.as_str()), ("schedule_replay", "(unnamed): go"));
    match r.delivery {
        ReplayDelivery::Inject { text } => assert_eq!(text, "go"),
        ReplayDelivery::Enqueue(_) => panic!("a reachable target is typed to"),
    }
    match replay_missed_at_startup(&s, false).delivery {
        ReplayDelivery::Enqueue(m) => assert_eq!((m.to.as_str(), m.source.as_str()), ("a", "system:schedule")),
        ReplayDelivery::Inject { .. } => panic!("another gets it in its inbox"),
    }
}

#[test]
fn cadence_counts_ticks() {
    let mut first = CadenceGate::new(3);
    let fires: Vec<bool> = (0..7).map(|_| first.fire()).collect();
    assert_eq!(fires, vec![true, false, false, true, false, false, true]);
    let mut nth = CadenceGate::new_interval(3);
    let fires: Vec<bool> = (0..7).map(|_| nth.fire()).collect();
    assert_eq!(fires, vec![false, false, true, false, false, true, false]);
    let mut graced = CadenceGate::new_with_boot_grace(2, 1_000);
    assert!(!graced.fire_at(999));
    assert!(graced.fire_at(1_000));
    assert!(!graced.fire_at(1_000));
    let mut aged = CadenceGate::new_with_boot_grace_aged(1, 1_000, 5_000);
    assert!(aged.fire());
    assert!(is_multiple_of(6, 3) && !is_multiple_of(7, 3) && is_multiple_of(0, 0) && !is_multiple_of(1, 0));
}

#[test]
fn dates_are_moments() {
    assert_eq!(parse_date("1970-01-01T00:00:01.5Z"), Some(Moment { secs: 1, nanos: 500_000_000 }));
    assert_eq!(parse_date("1970-01-01T01:00:00+01:00"), Some(Moment { secs: 0, nanos: 0 }));
    assert_eq!(parse_date("yesterday"), None);
    assert_eq!(date_text(Moment { secs: 0, nanos: 0 }), Some("1970-01-01T00:00:00+00:00".to_string()));
    assert_eq!(date_text(Moment { secs: i64::MAX, nanos: 0 }), None);
    assert!(is_later(Moment { secs: 2, nanos: 0 }, Moment { secs: 1, nanos: 9 }));
    assert!(!is_later(Moment { secs: 1, nanos: 9 }, Moment { secs: 1, nanos: 9 }));
    assert_eq!(moment_millis(Moment { secs: -1, nanos: 999_000_000 }), -1);
}

#[test]
fn a_roll_back_without_an_exit_keeps_the_entry() {
    let kept = delete_transaction_under_guard(true, false, false, true, true);
    assert!(!kept.done);
    assert_eq!(kept.steps, vec![DeleteStep::LogRetained], "entry, configuration and port stay");
    let gone = delete_transaction_under_guard(true, false, true, true, true);
    assert!(gone.done);
    assert!(gone.steps.contains(&DeleteStep::RemoveConfig) && gone.steps.contains(&DeleteStep::RemovePort));
    let unknown = delete_transaction_under_guard(false, false, false, false, true);
    assert!(unknown.done && !unknown.steps.contains(&DeleteStep::RemoveEntry));
    let mut phase = SpawnPhase::Publishing;
    assert_eq!(spawn_and_register_agent(&mut phase, false, true), SpawnAction::RollBack);
    assert_eq!(spawn_and_register_agent(&mut phase, false, true), SpawnAction::FinishFailed, "the start fails either way");
}

#[test]
fn the_tally_counts_the_drained() {
    let seen = vec![ChildStatus::Exited, ChildStatus::Running, ChildStatus::Unreadable, ChildStatus::Running];
    let t = shutdown_tally(5, &seen, Teardown { cleaned: 3, failed: 1 }, Teardown { cleaned: 2, failed: 0 }, 60);
    assert_eq!((t.drained, t.killed_after_grace), (4, 2));
    let m = shutdown_metrics(&t);
    assert_eq!((m.agents_total, m.agents_killed_after_grace), (4, 2));
    assert_eq!((m.transports_cleaned, m.transports_failed, m.uptime_secs), (5, 1, 60));
    assert_eq!(m.reason, ShutdownReason::OperatorRestart);
}

#[test]
fn what_a_start_falls_back_to() {
    let presets = vec![Preset { program: "codex".into(), backend: Backend::Codex }];
    let mut config = AgentConfig {
        name: "worker".into(),
        backend: None,
        backend_command: "/usr/bin/codex".into(),
        args: Vec::new(),
        env: None,
        working_dir: None,
        submit_key: "enter".into(),
    };
    assert_eq!(skill_backend(&presets, &config), Some(Backend::Codex));
    assert_eq!(identity_dir(&config, "/home/workspace"), "/home/workspace/worker");
    config.backend = Some(Backend::Kiro);
    config.working_dir = Some("/srv/worker".into());
    assert_eq!(skill_backend(&presets, &config), Some(Backend::Kiro));
    assert_eq!(identity_dir(&config, "/home/workspace"), "/srv/worker");
    config.working_dir = None;
    config.name = "/abs".into();
    assert_eq!(identity_dir(&config, "/home/workspace"), "/abs");
}

#[test]
fn an_aged_gate_opens_at_once() {
    let mut fresh = CadenceGate::new_with_boot_grace(3, 60_000);
    assert!(!fresh.fire());
    let mut aged = CadenceGate::new_with_boot_grace_aged(3, 60_000, 60_000);
    assert!(aged.fire());
    assert!(!aged.fire());
}
