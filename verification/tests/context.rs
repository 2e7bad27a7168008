use agend_daemon::agents::Backend;
use agend_daemon::dates::Moment;
use agend_daemon::per_tick::claude_self_kick::{
    announce, announce_on, late_notice_text, overdue_notice_text, recipient_for, record_evidence, spawn_delta_secs, turn_since,
    AgentEvidence, Authority, ClaudeSelfKickHandler, ObservedState, ObservedStatus, SelfKickEvidence, SelfKickOutcome,
    SelfKickOutcomeKind, SelfKickState, TurnObservation,
};
use agend_daemon::per_tick::codex_mcp_refusal::{
    is_refusal, typed_line, CodexMcpRefusalHandler, PaneLook, REFUSED_CALL, REFUSED_DELEGATE,
};
use agend_daemon::per_tick::context_alert::{decide as alert, AlertReading, AlertState, ContextAlertHandler, REALERT_AFTER_NANOS};
use agend_daemon::per_tick::context_handoff::{
    decide as handoff, escalation_notice, handoff_payload, handoff_record, handoff_written_since, Action, ContextHandoffHandler,
    Look, NamedLook, Phase,
};
use agend_daemon::per_tick::context_thresholds::{
    resolve_instances, resolve_thresholds, ContextThresholdsHandler, GlobalThresholds, InstanceUsage, InvalidWarnings, Overlay,
    Thresholds, ThresholdsRound,
};

const T: i64 = 80_000;

#[test]
fn fires_on_crossing_then_dedups_while_high() {
    let mut s = AlertState::default();
    let now = 7;
    assert!(alert(&mut s, 81_000, T, now), "armed crossing fires");
    assert!(!alert(&mut s, 85_000, T, now), "still high, within window — no re-fire");
    assert!(!alert(&mut s, 99_000, T, now), "still no re-fire");
}

#[test]
fn realerts_after_window_while_still_high() {
    let mut s = AlertState::default();
    let now = 7;
    assert!(alert(&mut s, 90_000, T, now));
    let later = now + REALERT_AFTER_NANOS;
    assert!(alert(&mut s, 90_000, T, later), "re-alert due after window");
    assert!(!alert(&mut s, 90_000, T, later), "and dedups again");
}

#[test]
fn boundary_wobble_does_not_refire() {
    let mut s = AlertState::default();
    assert!(alert(&mut s, 81_000, T, 7));
    assert!(!alert(&mut s, 79_000, T, 7), "below threshold — no fire");
    assert!(!alert(&mut s, 81_000, T, 7), "wobble back above must not re-fire");
}

#[test]
fn compact_rearms_next_crossing_fires() {
    let mut s = AlertState::default();
    assert!(alert(&mut s, 85_000, T, 7));
    assert!(!alert(&mut s, 40_000, T, 7), "compact drop — re-arms, no fire");
    assert!(alert(&mut s, 82_000, T, 7), "fresh crossing fires immediately");
}

#[test]
fn below_threshold_never_fires() {
    let mut s = AlertState::default();
    assert!(!alert(&mut s, 0, T, 7));
    assert!(!alert(&mut s, 79_900, T, 7));
}

fn reading(name: &str, pct: i64, threshold: i64) -> AlertReading {
    AlertReading {
        name: name.into(),
        pct,
        threshold,
        pct_text: format!("{}.{}", pct / 1000, pct % 1000 / 100),
        threshold_text: format!("{}.{}", threshold / 1000, threshold % 1000 / 100),
        source: "statusline".into(),
        orchestrator: Some("lead".into()),
    }
}

fn live(names: &[&str]) -> Vec<String> {
    names.iter().map(|n| n.to_string()).collect()
}

#[test]
fn deleted_agent_latch_pruned_on_run() {
    let mut h = ContextAlertHandler::new(1);
    h.run(&vec![reading("ghost", 10_000, T)], &live(&["ghost"]), 0);
    assert_eq!(h.is_armed("ghost"), Some(true));
    h.run(&Vec::new(), &Vec::new(), 0);
    assert_eq!(h.is_armed("ghost"), None, "a deleted agent's latch must be pruned");
}

#[test]
fn live_agent_without_context_reading_keeps_latch() {
    let mut h = ContextAlertHandler::new(1);
    h.run(&vec![reading("alive", 10_000, T)], &live(&["alive"]), 0);
    h.run(&Vec::new(), &live(&["alive"]), 0);
    assert_eq!(h.is_armed("alive"), Some(true), "a live agent without a reading keeps its latch");
}

#[test]
fn context_alert_production_renders_one_decimal() {
    let mut h = ContextAlertHandler::new(1);
    let out = h.run(&vec![reading("watched", 82_000, T)], &live(&["watched"]), 0);
    assert_eq!(out.len(), 1);
    assert_eq!(out[0].message.to, "lead");
    assert_eq!(out[0].about, "watched");
    let text = &out[0].message.text;
    assert!(text.contains("[context_alert]"));
    assert!(text.contains("82.0%"), "{text}");
    assert!(text.contains("80.0%"), "{text}");
}

#[test]
fn nobody_is_alerted_about_itself() {
    let mut h = ContextAlertHandler::new(1);
    let mut r = reading("lead", 82_000, T);
    assert!(h.run(&vec![r], &live(&["lead"]), 0).is_empty());
    assert_eq!(h.is_armed("lead"), Some(false), "the crossing is spent all the same");
    r = reading("solo", 82_000, T);
    r.orchestrator = None;
    assert_eq!(h.run(&vec![r], &live(&["solo"]), 0)[0].message.to, "general");
    assert_eq!(h.name(), "context_alert");
    assert!(h.due());
}

fn look(pct: i64, idle: bool, fresh: bool) -> Look {
    Look {
        pct,
        is_idle: idle,
        written_at_ms: if fresh { Some(1_000) } else { None },
        now_ms: 1_000,
        handoff_pct: 85_000,
        escalate_pct: 92_000,
    }
}

fn dec(p: &mut Phase, pct: i64, idle: bool, fresh: bool) -> Option<Action> {
    handoff(p, &look(pct, idle, fresh))
}

#[test]
fn crossing_injects_once_and_never_repeats() {
    let mut s = Phase::Armed;
    assert_eq!(dec(&mut s, 86_000, false, false), Some(Action::Inject));
    assert_eq!(dec(&mut s, 87_000, false, false), None);
    assert_eq!(dec(&mut s, 91_900, false, false), None, "below escalate — silent");
}

#[test]
fn drop_rearms_next_crossing_injects() {
    let mut s = Phase::Armed;
    assert_eq!(dec(&mut s, 86_000, false, false), Some(Action::Inject));
    assert_eq!(dec(&mut s, 30_000, false, false), None, "auto-resolve is silent");
    assert_eq!(s, Phase::Armed, "latch re-armed");
    assert_eq!(dec(&mut s, 88_000, false, false), Some(Action::Inject));
}

#[test]
fn boundary_wobble_is_silent() {
    let mut s = Phase::Armed;
    assert_eq!(dec(&mut s, 86_000, false, false), Some(Action::Inject));
    assert_eq!(dec(&mut s, 84_000, false, false), None, "above floor — holds phase");
    assert_eq!(dec(&mut s, 86_000, false, false), None, "wobble back — no second inject");
}

#[test]
fn escalates_once_at_92_without_handoff() {
    let mut s = Phase::Armed;
    assert_eq!(dec(&mut s, 86_000, false, false), Some(Action::Inject));
    assert_eq!(dec(&mut s, 93_000, false, false), Some(Action::Escalate));
    assert_eq!(dec(&mut s, 95_000, false, false), None, "second 92%+ tick — silent");

    let mut s = Phase::Armed;
    assert_eq!(dec(&mut s, 86_000, false, false), Some(Action::Inject));
    assert_eq!(dec(&mut s, 93_000, false, true), None, "handoff file written since inject — no escalation");
}

#[test]
fn idle_marks_then_wake_injects() {
    let mut s = Phase::Armed;
    assert_eq!(dec(&mut s, 86_000, true, false), Some(Action::MarkIdle));
    assert_eq!(dec(&mut s, 87_000, true, false), None, "still idle — once only");
    assert_eq!(dec(&mut s, 87_000, false, false), Some(Action::Inject), "woke while high");
    assert_eq!(dec(&mut s, 88_000, false, false), None);
}

#[test]
fn idle_episode_does_not_escalate() {
    let mut s = Phase::Armed;
    assert_eq!(dec(&mut s, 86_000, true, false), Some(Action::MarkIdle));
    assert_eq!(dec(&mut s, 95_000, true, false), None, "idle at 95 — still silent");
}

#[test]
fn below_threshold_never_acts() {
    let mut s = Phase::Armed;
    assert_eq!(dec(&mut s, 0, false, false), None);
    assert_eq!(dec(&mut s, 84_900, false, false), None);
}

#[test]
fn handoff_written_since_fails_closed() {
    assert!(!handoff_written_since(None, 0));
    assert!(handoff_written_since(Some(1_000), 0), "fresh file counts (mtime ≥ since)");
    assert!(handoff_written_since(Some(1_000), 1_000));
    assert!(!handoff_written_since(Some(1_000), 3_600_000), "file older than the injection → false");
}

#[test]
fn deleted_agent_episode_pruned_on_run() {
    let mut h = ContextHandoffHandler::new(1);
    let looks = vec![NamedLook { name: "ghost".into(), look: look(86_000, false, false) }];
    assert_eq!(h.run(&looks, &live(&["ghost"])).len(), 1);
    assert!(h.phase_of("ghost").is_some());
    h.run(&Vec::new(), &Vec::new());
    assert_eq!(h.phase_of("ghost"), None, "a deleted agent's episode must be pruned");
}

#[test]
fn live_agent_without_context_reading_keeps_episode() {
    let mut h = ContextHandoffHandler::new(1);
    let looks = vec![NamedLook { name: "alive".into(), look: look(10_000, false, false) }];
    h.run(&looks, &live(&["alive"]));
    h.run(&Vec::new(), &live(&["alive"]));
    assert_eq!(h.phase_of("alive"), Some(Phase::Armed));
    assert_eq!(h.name(), "context_handoff");
    assert!(h.due());
}

#[test]
fn the_texts_of_a_handoff() {
    assert!(handoff_payload("86.0").contains("86.0"));
    assert!(escalation_notice("w", "93.0", "85.0").contains("93.0"));
    let e = handoff_record(Action::Inject, true, "w", "86.0", "85.0").expect("a record");
    assert_eq!(e.subject, "w");
    assert!(handoff_record(Action::MarkIdle, true, "w", "86.0", "85.0").is_some());
}

#[test]
fn name_is_context_thresholds() {
    assert_eq!(ContextThresholdsHandler::new(6, 6).name(), "context_thresholds");
}

const GLOBAL: Thresholds = Thresholds { alert: 80_000, handoff: 85_000, escalate: 92_000 };

const NO_OVERRIDE: Overlay = Overlay { alert: None, handoff: None, escalate: None };

fn overlay(alert: Option<i64>, handoff: Option<i64>, escalate: Option<i64>) -> Overlay {
    Overlay { alert, handoff, escalate }
}

fn global(thresholds: Thresholds) -> GlobalThresholds {
    GlobalThresholds { thresholds, alert_shown: "80.0".into() }
}

fn usage(name: &str, pct: i64, overlay: Overlay) -> InstanceUsage {
    InstanceUsage {
        name: name.into(),
        overlay,
        pct,
        pct_text: "82.0".into(),
        alert_shown: "70.0".into(),
        source: "statusline".into(),
        orchestrator: Some("lead".into()),
        is_idle: true,
        written_at_ms: None,
    }
}

/// One round of both watchdogs.
fn round(h: &mut ContextThresholdsHandler, thresholds: Thresholds, seen: Vec<InstanceUsage>) -> ThresholdsRound {
    let names: Vec<String> = seen.iter().map(|u| u.name.clone()).collect();
    h.run(true, true, &global(thresholds), &seen, &names, 0, 1_000)
}

#[test]
fn alert_firing_does_not_perturb_handoff_state() {
    let mut h = ContextThresholdsHandler::new(1, 1);
    round(&mut h, GLOBAL, vec![usage("watched", 82_000, NO_OVERRIDE)]);
    assert_eq!(h.context_alert.is_armed("watched"), Some(false));
    assert_eq!(h.context_handoff.phase_of("watched"), Some(Phase::Armed));
}

#[test]
fn both_firing_on_same_agent_keep_independent_latches() {
    let mut h = ContextThresholdsHandler::new(1, 1);
    let r = round(&mut h, GLOBAL, vec![usage("watched", 90_000, NO_OVERRIDE)]);
    assert_eq!((r.alerts.len(), r.actions.len()), (1, 1));
    assert_eq!(h.context_alert.is_armed("watched"), Some(false));
    assert_eq!(h.context_handoff.phase_of("watched"), Some(Phase::IdleMarked));
}

#[test]
fn a_watchdog_that_is_not_due_stays_as_it_is() {
    let mut h = ContextThresholdsHandler::new(1, 1);
    let seen = vec![usage("watched", 90_000, overlay(Some(95_000), None, None))];
    let r = h.run(false, false, &global(GLOBAL), &seen, &live(&["watched"]), 0, 0);
    assert!(r.readings.is_empty() && r.looks.is_empty() && r.warn.is_empty());
    assert_eq!(h.warnings.count(), 0);
    let r = h.run(false, true, &global(GLOBAL), &seen, &live(&["watched"]), 0, 0);
    assert_eq!((r.alerts.len(), r.actions.len()), (0, 1));
    assert_eq!(h.context_alert.is_armed("watched"), None);
    assert_eq!(h.warnings.count(), 1, "either watchdog notes an unusable override");
}

#[test]
fn per_instance_alert_thresholds_are_isolated() {
    let mut h = ContextThresholdsHandler::new(1, 1);
    let r = round(
        &mut h,
        GLOBAL,
        vec![
            usage("low", 82_000, overlay(Some(70_000), None, None)),
            usage("high", 82_000, overlay(Some(84_000), None, None)),
        ],
    );
    assert_eq!(h.context_alert.is_armed("low"), Some(false), "the low per-instance alert threshold must fire at 82%");
    assert_eq!(h.context_alert.is_armed("high"), Some(true), "the high one must remain armed at 82%");
    assert!(r.alerts[0].message.text.contains("threshold 70.0%"), "the override is shown");
}

#[test]
fn partial_instance_overlay_preserves_global_handoff_and_escalate() {
    let mut h = ContextThresholdsHandler::new(1, 1);
    let r = round(&mut h, GLOBAL, vec![usage("partial", 86_000, overlay(None, Some(88_000), None))]);
    assert_eq!(h.context_handoff.phase_of("partial"), Some(Phase::Armed));
    assert_eq!((r.looks[0].look.handoff_pct, r.looks[0].look.escalate_pct), (88_000, 92_000));
    assert_eq!(r.readings[0].threshold, 80_000);
    assert!(r.warn.is_empty());
}

#[test]
fn invalid_instance_triplet_falls_back_atomically_without_poisoning_other_agents() {
    let mut h = ContextThresholdsHandler::new(1, 1);
    let r = round(
        &mut h,
        GLOBAL,
        vec![
            usage("invalid", 82_000, overlay(Some(95_000), Some(90_000), Some(92_000))),
            usage("valid", 82_000, overlay(Some(84_000), None, None)),
        ],
    );
    assert_eq!(h.context_alert.is_armed("invalid"), Some(false), "the complete global triplet holds");
    assert_eq!(h.context_alert.is_armed("valid"), Some(true), "another agent's override is not poisoned");
    assert_eq!(r.warn, vec!["invalid".to_string()]);
    assert!(r.alerts[0].message.text.contains("threshold 80.0%"), "the global threshold is shown");
}

#[test]
fn missing_instance_falls_back_to_global_and_deleted_latch_is_pruned() {
    let mut h = ContextThresholdsHandler::new(1, 1);
    round(&mut h, GLOBAL, vec![usage("watched", 82_000, overlay(Some(84_000), None, None))]);
    assert_eq!(h.context_alert.is_armed("watched"), Some(true));
    round(&mut h, GLOBAL, vec![usage("watched", 82_000, NO_OVERRIDE)]);
    assert_eq!(h.context_alert.is_armed("watched"), Some(false));
    round(&mut h, GLOBAL, Vec::new());
    assert_eq!(h.context_alert.is_armed("watched"), None);
}

#[test]
fn fleet_reload_changes_per_instance_threshold_on_next_fired_tick() {
    let mut h = ContextThresholdsHandler::new(1, 1);
    round(&mut h, GLOBAL, vec![usage("watched", 82_000, overlay(Some(84_000), None, None))]);
    assert_eq!(h.context_alert.is_armed("watched"), Some(true));
    round(&mut h, GLOBAL, vec![usage("watched", 82_000, overlay(Some(70_000), None, None))]);
    assert_eq!(h.context_alert.is_armed("watched"), Some(false), "the next round must observe the change");
}

#[test]
fn global_runtime_reload_updates_only_agents_without_overrides() {
    let seen = || {
        vec![usage("plain", 82_000, NO_OVERRIDE), usage("overridden", 82_000, overlay(Some(84_000), None, None))]
    };
    let mut first = ContextThresholdsHandler::new(1, 1);
    round(&mut first, GLOBAL, seen());
    assert_eq!(first.context_alert.is_armed("plain"), Some(false));
    assert_eq!(first.context_alert.is_armed("overridden"), Some(true));
    let reloaded = Thresholds { alert: 83_000, handoff: 85_000, escalate: 92_000 };
    let mut second = ContextThresholdsHandler::new(1, 1);
    round(&mut second, reloaded, seen());
    assert_eq!(second.context_alert.is_armed("plain"), Some(true));
    assert_eq!(second.context_alert.is_armed("overridden"), Some(true));
}

#[test]
fn invalid_override_warning_is_shared_deduped_and_rearmed_after_valid() {
    let bad = || vec![usage("watched", 82_000, overlay(Some(95_000), Some(90_000), Some(92_000)))];
    let good = || vec![usage("watched", 82_000, overlay(Some(84_000), Some(86_000), Some(92_000)))];
    let mut h = ContextThresholdsHandler::new(1, 1);
    let mut warned = round(&mut h, GLOBAL, bad()).warn.len();
    assert_eq!(h.warnings.count(), 1, "alert and handoff share one entry per agent");
    warned += round(&mut h, GLOBAL, good()).warn.len();
    assert_eq!(h.warnings.count(), 0, "a valid composition must reset the episode");
    warned += round(&mut h, GLOBAL, bad()).warn.len();
    assert_eq!(warned, 2, "one warning for each invalid episode, across both watchdogs");
    assert!(round(&mut h, GLOBAL, bad()).warn.is_empty(), "and none while it lasts");
}

#[test]
fn thresholds_are_resolved_for_each_instance() {
    let mut warnings = InvalidWarnings::new();
    let seen = vec![usage("a", 50_000, overlay(Some(70_000), None, Some(95_000))), usage("b", 50_000, NO_OVERRIDE)];
    let r = resolve_instances(&global(GLOBAL), &seen, 7, &mut warnings);
    assert_eq!((r.readings[0].threshold, r.readings[0].threshold_text.as_str()), (70_000, "70.0"));
    assert_eq!((r.looks[0].look.handoff_pct, r.looks[0].look.escalate_pct, r.looks[0].look.now_ms), (85_000, 95_000, 7));
    assert_eq!((r.readings[1].threshold, r.readings[1].threshold_text.as_str()), (80_000, "80.0"));
    assert!(r.warn.is_empty());
    let bad = resolve_thresholds(GLOBAL, overlay(Some(95_000), Some(90_000), Some(92_000)));
    assert!(bad.invalid);
    assert_eq!(bad.thresholds, GLOBAL);
}

fn moment(secs: i64) -> Moment {
    Moment { secs, nanos: 0 }
}

const ACCEPTED: i64 = 1_800_000_000;

fn overdue(turn: Option<TurnObservation>) -> SelfKickOutcome {
    SelfKickOutcome {
        delivery_id: "d-1".into(),
        at: moment(ACCEPTED),
        kind: SelfKickOutcomeKind::AckOverdue { turn },
    }
}

fn hook_turn(after_secs: i64) -> Option<AgentEvidence> {
    Some(AgentEvidence {
        observed: Some(ObservedStatus {
            state: ObservedState::Active,
            authority: Authority::Hook,
            since_ms: ((ACCEPTED + after_secs) * 1_000) as u64,
        }),
        spawned_at_epoch_ms: 0,
    })
}

#[test]
fn ack_overdue_notifies_the_orchestrator_inbox() {
    let a = announce("worker", "lead", &None, &overdue(None), 30).expect("a date");
    assert_eq!(a.notice.message.to, "lead");
    assert_eq!(a.notice.message.source, "system:claude_self_kick");
    assert_eq!(a.notice.message.kind, "claude_self_kick_ack_overdue");
    assert_eq!(a.notice.about, "worker");
    let text = &a.notice.message.text;
    assert!(text.contains("'worker'"), "names the agent: {text}");
    assert!(text.contains("d-1"), "carries the delivery id: {text}");
    assert!(text.contains("No turn was observed since the kick"), "classifies an unconsumed resume: {text}");
    assert!(text.contains("at 2027-01-15T08:00:00+00:00"), "carries the date: {text}");
    assert!(text.contains("within 30 s"), "{text}");
    assert_eq!(a.state.as_str(), "ack_overdue");
    assert!(!a.turn_observed);
    let ev = record_evidence(&None, "d-1", a.state, a.turn_observed, moment(ACCEPTED), moment(ACCEPTED + 31));
    assert_eq!(ev.delivery_id, "d-1");
    assert_eq!(ev.accepted_at, moment(ACCEPTED));
    assert!(!ev.turn_observed_since_kick);
}

#[test]
fn overdue_with_observed_turn_classifies_as_late_ack() {
    let turn = turn_since(&hook_turn(5), moment(ACCEPTED));
    assert_eq!(turn, Some(TurnObservation { after_accept_secs: 5 }));
    let a = announce("worker", "lead", &hook_turn(5), &overdue(turn), 30).expect("a date");
    assert!(a.notice.message.text.contains("A turn was observed at +5s"));
    assert!(a.turn_observed);
}

#[test]
fn late_ack_after_overdue_emits_resolved_notice_once() {
    let late = SelfKickOutcome {
        delivery_id: "d-1".into(),
        at: moment(ACCEPTED + 44),
        kind: SelfKickOutcomeKind::AckLate { late_by_secs: 14 },
    };
    let a = announce("worker", "lead", &None, &late, 30).expect("a date");
    assert_eq!(a.notice.message.kind, "claude_self_kick_ack_late");
    assert!(a.notice.message.text.contains("arrived late (+14s after the window)"));
    assert!(a.notice.message.text.contains("resolved"));
    assert_eq!(a.state, SelfKickState::TurnStartedLate);
    assert!(a.turn_observed);
    let before = SelfKickEvidence {
        delivery_id: "d-1".into(),
        accepted_at: moment(ACCEPTED),
        state: SelfKickState::AckOverdue,
        turn_observed_since_kick: false,
        at: moment(ACCEPTED + 31),
    };
    let ev = record_evidence(&Some(before), "d-1", a.state, true, late.at, moment(ACCEPTED + 50));
    assert_eq!(ev.state.as_str(), "turn_started_late");
    assert_eq!(ev.accepted_at, moment(ACCEPTED), "the acceptance of the same delivery is carried over");
    let other = record_evidence(&Some(ev), "d-2", a.state, true, late.at, moment(ACCEPTED + 50));
    assert_eq!(other.accepted_at, late.at);
}

#[test]
fn self_restarted_orchestrator_is_notified_in_its_own_inbox() {
    let to = recipient_for(&Some("worker".to_string()));
    let a = announce("worker", &to, &None, &overdue(None), 30).expect("a date");
    assert_eq!(a.notice.message.to, "worker");
    assert_eq!(recipient_for(&None), "general");
}

#[test]
fn spawn_delta_is_stated_only_when_the_handle_predates_the_kick() {
    let at = moment(ACCEPTED);
    let stamp = |offset_ms: i64| {
        Some(AgentEvidence { observed: None, spawned_at_epoch_ms: (ACCEPTED * 1_000 + offset_ms) as u64 })
    };
    assert_eq!(spawn_delta_secs(&stamp(-4_200), at), Some(4));
    assert_eq!(
        spawn_delta_secs(&stamp(4_200), at),
        None,
        "a handle spawned AFTER the kick was accepted is a different process"
    );
    assert_eq!(
        spawn_delta_secs(&Some(AgentEvidence { observed: None, spawned_at_epoch_ms: 0 }), at),
        None,
        "0 is the no-stamp sentinel, not 1970"
    );
    assert_eq!(spawn_delta_secs(&None, at), None);
    assert!(overdue_notice_text("worker", "d-1", "now", Some(4), None, 30).contains("(+4s after spawn)"));
    assert!(!overdue_notice_text("worker", "d-1", "now", None, None, 30).contains("after spawn"));
}

#[test]
fn only_a_hook_reports_a_turn() {
    let at = moment(ACCEPTED);
    let mut e = hook_turn(5).expect("evidence");
    let mut o = e.observed.expect("observed");
    o.authority = Authority::Screen;
    e.observed = Some(o);
    assert_eq!(turn_since(&Some(e), at), None);
    o.authority = Authority::Hook;
    o.state = ObservedState::Other;
    e.observed = Some(o);
    assert_eq!(turn_since(&Some(e), at), None);
    assert_eq!(turn_since(&hook_turn(-1), at), None, "a turn before the acceptance is another");
    assert_eq!(turn_since(&None, at), None);
}

#[test]
fn a_moment_that_is_no_date_is_not_announced() {
    let o = SelfKickOutcome {
        delivery_id: "d".into(),
        at: Moment { secs: 8_390_000_000_000, nanos: 0 },
        kind: SelfKickOutcomeKind::AckLate { late_by_secs: 1 },
    };
    assert!(announce("a", "b", &None, &o, 30).is_none());
    let a = announce_on("a", "b", &None, &o, 30, "some day");
    assert_eq!(a.notice.message.text, late_notice_text("a", "d", 1));
    let mut h = ClaudeSelfKickHandler::new(2);
    assert_eq!(h.name(), "claude_self_kick");
    assert!(h.due() && !h.due());
}

fn pane(backend: Backend, lines: &[&str]) -> PaneLook {
    PaneLook {
        name: "worker".into(),
        backend: Some(backend),
        lines: lines.iter().map(|l| l.to_string()).collect(),
        orchestrator: Some("lead".into()),
        model: Some("gpt-5.6-luna".into()),
        args: vec!["-c".into(), "model_reasoning_effort=xhigh".into()],
    }
}

fn tool_result_frame(body: &str) -> Vec<String> {
    vec![format!("  \u{2514} {body}"), String::new(), "\u{203a} ".to_string()]
}

fn tick(h: &mut CodexMcpRefusalHandler, backend: Backend, lines: Vec<String>) -> Vec<String> {
    let mut look = pane(backend, &[]);
    look.lines = lines;
    let out = h.run(&vec![look], &live(&["worker"]));
    out.iter().map(|r| r.notice.as_ref().expect("a notice").message.text.clone()).collect()
}

fn healthy_frame() -> Vec<String> {
    tool_result_frame("tool call ok")
}

#[test]
fn refusal_line_raises_exactly_one_notice() {
    let mut h = CodexMcpRefusalHandler::new(1);
    let notices = tick(&mut h, Backend::Codex, tool_result_frame(REFUSED_CALL));
    assert_eq!(notices.len(), 1, "exactly one notice must reach the orchestrator");
    let text = &notices[0];
    assert!(text.contains("[codex_mcp_refusal]"));
    assert!(text.contains("'worker'"), "must name the agent: {text}");
    assert!(text.contains(REFUSED_CALL), "must quote the pane line: {text}");
    assert!(text.contains("model=gpt-5.6-luna"), "must carry the instance model override: {text}");
    assert!(
        text.contains("args=") && text.contains("model_reasoning_effort=xhigh"),
        "must carry the instance args override: {text}"
    );
    assert!(
        tick(&mut h, Backend::Codex, tool_result_frame(REFUSED_CALL)).is_empty(),
        "the same still-present line must NOT re-fire"
    );
}

#[test]
fn healthy_frame_raises_nothing() {
    let mut h = CodexMcpRefusalHandler::new(1);
    assert!(tick(&mut h, Backend::Codex, healthy_frame()).is_empty(), "healthy pane must be silent");
}

#[test]
fn line_re_arms_after_it_disappears() {
    let mut h = CodexMcpRefusalHandler::new(1);
    let first = tick(&mut h, Backend::Codex, tool_result_frame(REFUSED_CALL)).len();
    let quiet = tick(&mut h, Backend::Codex, healthy_frame()).len();
    let second = tick(&mut h, Backend::Codex, tool_result_frame(REFUSED_CALL)).len();
    assert_eq!(first, 1, "first episode fires once");
    assert_eq!(quiet, 0, "the line's disappearance is silent (it re-arms)");
    assert_eq!(second, 1, "the second episode fires again");
    assert_eq!(first + quiet + second, 2, "two episodes → two notices total");
}

#[test]
fn composer_typed_line_is_not_evidence() {
    let mut h = CodexMcpRefusalHandler::new(1);
    let mut frame = healthy_frame();
    frame[2] = format!("\u{203a} {REFUSED_CALL}");
    assert!(tick(&mut h, Backend::Codex, frame).is_empty(), "a composer-line match must never fire");
    assert!(typed_line("  \u{203a} x"));
    assert!(!is_refusal(&format!(" \u{203a}{REFUSED_CALL}")));
}

#[test]
fn non_codex_backend_is_ignored() {
    let mut h = CodexMcpRefusalHandler::new(1);
    assert!(
        tick(&mut h, Backend::ClaudeCode, tool_result_frame(REFUSED_CALL)).is_empty(),
        "a non-codex backend is never scanned"
    );
}

#[test]
fn sibling_literal_is_detected() {
    let mut h = CodexMcpRefusalHandler::new(1);
    let notices = tick(&mut h, Backend::Codex, tool_result_frame(REFUSED_DELEGATE));
    assert_eq!(notices.len(), 1, "the sibling literal must fire one notice");
    assert!(notices[0].contains(REFUSED_DELEGATE), "and must quote it: {}", notices[0]);
}

#[test]
fn a_refusal_of_the_orchestrator_itself_is_only_noted() {
    let mut h = CodexMcpRefusalHandler::new(1);
    let mut look = pane(Backend::Codex, &[REFUSED_CALL, "x"]);
    look.orchestrator = Some("worker".into());
    look.model = None;
    let out = h.run(&vec![look], &live(&["worker"]));
    assert_eq!(out.len(), 1);
    assert!(out[0].notice.is_none());
    assert_eq!((out[0].name.as_str(), out[0].line.as_str()), ("worker", REFUSED_CALL));
    assert_eq!(h.name(), "codex_mcp_refusal");
    assert!(h.due());
    let gone = h.run(&Vec::new(), &Vec::new());
    assert!(gone.is_empty());
    assert_eq!(tick(&mut h, Backend::Codex, tool_result_frame(REFUSED_CALL)).len(), 1, "a new agent of the name is armed");
}
