use agend_daemon::inject_delivery::{
    commit_rearm_after_reclaim, load_latches_for_epoch, logical_row_id, persist_latch, persist_plan, redelivery_event,
    undelivered_event, ChannelKind, DurableLatch, FlushStep, GivenUp, LatchLoad, Pending, Persisted, PersistPlan,
    RearmCommitOutcome, RearmReservation, ReserveStep, TransportMode, Verifier, VERIFY_WINDOW_MS,
};
use agend_daemon::table::Table;

const NOW: u64 = 1_000_000;

fn no_submissions() -> Table<String, u64> {
    Table::new()
}

fn submitted(agent: &str, at: u64) -> Table<String, u64> {
    let mut t = Table::new();
    t.insert(agent.to_string(), at);
    t
}

fn arm(v: &mut Verifier, agent: &str, text: &str, mode: TransportMode, epoch: u64, at: u64) {
    let prepared = v.prepare_arm(true, &Some(Vec::new()), agent, text, mode, None).expect("arm");
    assert!(v.commit_prepared_arm(prepared, epoch, at));
}

fn bridge_row(agent: &str, row_id: &str, epoch: u64) -> Pending {
    Pending {
        agent: agent.to_string(),
        injected_at_ms: NOW,
        text: format!("wake id={row_id}"),
        channel_origin: None,
        redelivered: true,
        transport_epoch: epoch,
        transport_mode: TransportMode::ChannelBridge,
        gave_up: true,
        rearm_count: 0,
        rearm_reserved: false,
        rearm_pending: false,
    }
}

/// Arms a structured wake and lets both windows pass without an answer.
fn given_up(agent: &str, row_id: &str, epoch: u64) -> (Verifier, Vec<DurableLatch>) {
    let mut v = Verifier::new();
    let text = format!("[AGEND-MSG-PENDING] id={row_id} kind=task from=lead inbox=1");
    arm(&mut v, agent, &text, TransportMode::ChannelBridge, epoch, NOW);
    let later = NOW + VERIFY_WINDOW_MS + 1;
    assert_eq!(v.verify_pass(&no_submissions(), later).redeliver.len(), 1);
    let last = v.verify_pass(&no_submissions(), later + VERIFY_WINDOW_MS + 1);
    assert!(last.gave_up.is_empty(), "a structured wake is latched, not dropped");
    assert_eq!(last.persist.len(), 1);
    assert_eq!(last.persist[0].row_id, row_id);
    let latches = persist_latch(&Vec::new(), row_id, &last.persist[0].row);
    (v, latches)
}

fn reserved(step: ReserveStep) -> RearmReservation {
    match step {
        ReserveStep::Reserved(r) => r,
        _ => panic!("a reservation is owed"),
    }
}

#[test]
fn the_2044_redelivery_path_preserves_channel_origin_3324() {
    let agent = "origin-carry-3324-agent";
    let text = "[user:alice] via telegram] please help kind=task ";
    let row_id = logical_row_id(agent, text);
    let mut v = Verifier::new();
    let prepared = v
        .prepare_arm(true, &Some(Vec::new()), agent, text, TransportMode::ChannelBridge, Some(ChannelKind::Telegram))
        .expect("arm");
    assert!(v.commit_prepared_arm(prepared, 4, NOW));
    let armed = v.row(&row_id).expect("armed row");
    assert_eq!(
        armed.channel_origin,
        Some(ChannelKind::Telegram),
        "the armed wake must remember the origin it was admitted with"
    );

    let mut latched = armed.copy();
    latched.gave_up = true;
    latched.rearm_pending = true;
    assert_eq!(persist_plan(&latched, 4), PersistPlan::Write, "the latch must be written at the current epoch");
    let latches = persist_latch(&Vec::new(), &row_id, &latched);

    let mut restarted = Verifier::new();
    assert!(matches!(restarted.take_deferred_rearm_for_flush(agent, &row_id, 4), FlushStep::ConsultLatches));
    restarted
        .take_deferred_rearm_from_latches(agent, &row_id, 4, &Some(latches), NOW + 5)
        .expect("rebuild from latch");
    let rebuilt = restarted.row(&row_id).expect("rebuilt row");
    assert_eq!(
        rebuilt.channel_origin,
        Some(ChannelKind::Telegram),
        "a latch reloaded after a restart must not downgrade the wake to internal"
    );
}

#[test]
fn arm_noop_without_hook_history() {
    let v = Verifier::new();
    assert!(
        v.prepare_arm(false, &Some(Vec::new()), "no-hooks-2044", "wake", TransportMode::LegacyPty, None).is_none(),
        "no hook history → not armed"
    );
}

#[test]
fn delivered_clears_without_redelivery() {
    let agent = "deliv-2044";
    let mut v = Verifier::new();
    let injected = NOW - VERIFY_WINDOW_MS - 1_000;
    arm(&mut v, agent, "wake", TransportMode::LegacyPty, 0, injected);
    let a = v.verify_pass(&submitted(agent, injected + 500), NOW);
    assert!(a.redeliver.is_empty() && a.gave_up.is_empty());
    assert!(
        v.row("agent:deliv-2044").is_none(),
        "UserPromptSubmit after inject ⇒ delivered, cleared (no re-delivery)"
    );
}

#[test]
fn unconfirmed_redelivers_once_then_gives_up() {
    let agent = "unconf-2044";
    let row = "agent:unconf-2044";
    let mut v = Verifier::new();
    arm(&mut v, agent, "wake", TransportMode::LegacyPty, 0, NOW);
    let a = v.verify_pass(&no_submissions(), NOW);
    assert!(a.redeliver.is_empty());
    assert!(!v.row(row).expect("row").redelivered, "still waiting");

    let later = NOW + VERIFY_WINDOW_MS + 1;
    let a = v.verify_pass(&no_submissions(), later);
    assert_eq!(a.redeliver.len(), 1);
    assert_eq!(a.redeliver[0].agent, agent);
    assert_eq!(a.redeliver[0].text, "wake");
    assert!(v.row(row).expect("row").redelivered, "one re-delivery fired, latched");

    let a = v.verify_pass(&no_submissions(), later + VERIFY_WINDOW_MS + 1);
    assert!(a.redeliver.is_empty());
    assert_eq!(a.gave_up.len(), 1);
    assert!(v.row(row).is_none(), "gave up after the single re-delivery — no storm");
}

#[test]
fn distinct_durable_rows_have_independent_verification_latches() {
    let agent = "row-keyed-2044";
    let mut v = Verifier::new();
    arm(
        &mut v,
        agent,
        "[AGEND-MSG-PENDING] id=row-a kind=task from=lead inbox=1",
        TransportMode::LegacyPty,
        0,
        NOW,
    );
    arm(
        &mut v,
        agent,
        "[AGEND-MSG-PENDING] id=row-b kind=task from=lead inbox=1",
        TransportMode::LegacyPty,
        0,
        NOW,
    );
    assert!(v.row("row-a").is_some(), "row-a must have its own latch");
    assert!(v.row("row-b").is_some(), "row-b must have its own latch");
    v.forget(agent);
    assert!(v.row("row-a").is_none() && v.row("row-b").is_none());
}

#[test]
fn structured_give_up_rearm_is_bounded_and_cleanup_is_successor_safe() {
    let agent = "structured-rearm-2044";
    let row_id = "row-structured";
    let (v, latches) = given_up(agent, row_id, 0);
    assert!(
        v.row(row_id).expect("row").gave_up,
        "structured give-up must remain re-armable by durable row id"
    );

    let mut restarted = Verifier::new();
    assert!(matches!(restarted.reserve_rearm_after_reclaim(agent, row_id, 0, NOW), ReserveStep::ConsultLatches));
    let r = restarted
        .reserve_rearm_from_latches(agent, row_id, 0, &Some(latches), NOW)
        .expect("one re-arm is owed");
    let updated = restarted.plan_commit(&r).expect("commit");
    let outcome = restarted.commit_rearm_after_reclaim_outcome(Some(updated), Persisted::Written);
    assert!(commit_rearm_after_reclaim(outcome));
    assert!(matches!(restarted.reserve_rearm_after_reclaim(agent, row_id, 0, NOW), ReserveStep::Refused));
    let row = restarted.row(row_id).expect("row");
    assert!(!row.gave_up && row.rearm_count == 1);

    let mut cleaned = Verifier::new();
    assert!(cleaned.reserve_rearm_from_latches(agent, row_id, 0, &Some(Vec::new()), NOW).is_none());
}

#[test]
fn reclaim_rearm_route_failure_rolls_back_and_duplicate_reserve_is_single() {
    let agent = "rearm-transaction-2044";
    let row_id = "row-rearm-transaction";
    let (mut v, _) = given_up(agent, row_id, 0);
    let r = reserved(v.reserve_rearm_after_reclaim(agent, row_id, 0, NOW));
    assert!(
        matches!(v.reserve_rearm_after_reclaim(agent, row_id, 0, NOW), ReserveStep::Refused),
        "a second reclaim finds the row reserved"
    );
    let back = v.plan_rollback(&r).expect("rollback");
    assert!(v.rollback_rearm_after_reclaim(back, Persisted::Written));
    let row = v.row(row_id).expect("row");
    assert!(row.gave_up && !row.rearm_reserved && row.rearm_count == 0);

    let r = reserved(v.reserve_rearm_after_reclaim(agent, row_id, 0, NOW));
    let back = v.plan_rollback(&r).expect("rollback");
    assert!(
        !v.rollback_rearm_after_reclaim(back, Persisted::Stale),
        "a stale-generation rollback must not report persistence success"
    );
}

#[test]
fn stale_prior_user_prompt_submit_does_not_confirm() {
    let agent = "stale-2044";
    let mut v = Verifier::new();
    let injected = NOW - VERIFY_WINDOW_MS - 1_000;
    arm(&mut v, agent, "wake", TransportMode::LegacyPty, 0, injected);
    v.verify_pass(&submitted(agent, injected - 5_000), NOW);
    assert!(
        v.row("agent:stale-2044").expect("row").redelivered,
        "the pre-inject UserPromptSubmit must not confirm the new inject"
    );
}

#[test]
fn concurrent_structured_latch_persistence_keeps_both_rows() {
    let agent = "concurrent-latches-2044";
    let first = persist_latch(&Vec::new(), "m-latch-a", &bridge_row(agent, "m-latch-a", 3));
    let both = persist_latch(&first, "m-latch-b", &bridge_row(agent, "m-latch-b", 3));
    match load_latches_for_epoch(3, 3, Some(both)) {
        LatchLoad::Loaded { latches, purge } => {
            assert!(!purge);
            let ids: Vec<&str> = latches.iter().map(|l| l.row_id.as_str()).collect();
            assert_eq!(ids.len(), 2);
            assert!(ids.contains(&"m-latch-a") && ids.contains(&"m-latch-b"));
        }
        LatchLoad::Refused => panic!("the latches of the generation load"),
    }
}

#[test]
fn stale_generation_persist_rejects_before_lock_and_has_no_lock_side_effect() {
    let row = bridge_row("stale-persist-before-lock-2044", "m-stale-before-lock", 5);
    assert_eq!(persist_plan(&row, 6), PersistPlan::Stale);
    assert_eq!(persist_plan(&row, 5), PersistPlan::Write);
}

#[test]
fn a_legacy_wake_leaves_no_latch() {
    let mut row = bridge_row("a", "r", 5);
    row.transport_mode = TransportMode::LegacyPty;
    assert_eq!(persist_plan(&row, 5), PersistPlan::NotNeeded);
}

#[test]
fn stale_generation_persist_cannot_poison_same_name_successor() {
    let agent = "stale-latch-generation-2044";
    let text = "[AGEND-MSG] id=m-stale-latch kind=task";
    let (_, old) = given_up(agent, "m-stale-latch", 1);
    let successor = Verifier::new();
    match load_latches_for_epoch(2, 2, Some(old)) {
        LatchLoad::Loaded { latches, purge } => {
            assert!(latches.is_empty() && purge, "the latch of the old generation is dropped");
            assert!(
                successor
                    .prepare_arm(true, &Some(latches), agent, text, TransportMode::ChannelBridge, None)
                    .is_some(),
                "a delayed predecessor must not leave a terminal latch"
            );
        }
        LatchLoad::Refused => panic!("the successor reads its own generation"),
    }
}

#[test]
fn cancel_rearm_arm_rejects_wrong_agent_and_epoch() {
    let agent = "cancel-rearm-identity-2044";
    let row_id = "m-cancel-rearm-identity";
    let (_, mut latches) = given_up(agent, row_id, 7);
    latches[0].rearm_pending = true;
    let mut v = Verifier::new();
    let correct = v
        .take_deferred_rearm_from_latches(agent, row_id, 7, &Some(latches), NOW)
        .expect("deferred re-arm");
    let wrong_agent = RearmReservation {
        agent: "successor-agent".to_string(),
        row_id: row_id.to_string(),
        transport_epoch: 7,
        deferred: true,
    };
    assert!(!v.cancel_rearm_arm(&wrong_agent));
    assert!(v.row(row_id).is_some());
    let wrong_epoch =
        RearmReservation { agent: agent.to_string(), row_id: row_id.to_string(), transport_epoch: 8, deferred: true };
    assert!(!v.cancel_rearm_arm(&wrong_epoch));
    assert!(v.row(row_id).is_some());
    assert!(v.cancel_rearm_arm(&correct));
    assert!(v.row(row_id).is_none());
}

#[test]
fn stale_generation_load_cannot_purge_successor_latch() {
    let agent = "stale-load-generation-2044";
    let written = persist_latch(&Vec::new(), "m-successor-latch", &bridge_row(agent, "m-successor-latch", 2));
    assert!(matches!(load_latches_for_epoch(2, 1, Some(written)), LatchLoad::Refused));
    let written = persist_latch(&Vec::new(), "m-successor-latch", &bridge_row(agent, "m-successor-latch", 2));
    match load_latches_for_epoch(2, 2, Some(written)) {
        LatchLoad::Loaded { latches, purge } => {
            assert!(!purge);
            assert!(latches.iter().any(|l| l.row_id == "m-successor-latch"));
        }
        LatchLoad::Refused => panic!("the successor loads its own latch"),
    }
}

#[test]
fn an_unreadable_latch_file_arms_nothing() {
    let v = Verifier::new();
    assert!(matches!(load_latches_for_epoch(2, 2, None), LatchLoad::Refused));
    assert!(
        v.prepare_arm(true, &None, "a", "wake id=m-1", TransportMode::ChannelBridge, None).is_none(),
        "an unavailable latch file must fail closed"
    );
    assert!(v.prepare_arm(true, &None, "a", "wake id=m-1", TransportMode::LegacyPty, None).is_none());
}

#[test]
fn durable_committed_outcome_survives_process_cas_loss() {
    let agent = "durable-committed-cas-loss-2044";
    let row_id = "m-durable-committed-cas-loss";
    let (mut v, _) = given_up(agent, row_id, 3);
    let r = reserved(v.reserve_rearm_after_reclaim(agent, row_id, 3, NOW));
    let updated = v.plan_commit(&r).expect("commit");
    let latches = persist_latch(&Vec::new(), row_id, updated.row());
    v.forget(agent);
    assert_eq!(
        v.commit_rearm_after_reclaim_outcome(Some(updated), Persisted::Written),
        RearmCommitOutcome::DurableCommitted
    );
    assert_eq!(latches.len(), 1);
    assert_eq!(latches[0].rearm_count, 1);
    assert!(!latches[0].gave_up);
    assert!(!latches[0].rearm_pending);
    assert!(v.row(row_id).is_none());
}

#[test]
fn a_commit_that_was_not_stored_is_none() {
    let (mut v, _) = given_up("a", "r", 3);
    let r = reserved(v.reserve_rearm_after_reclaim("a", "r", 3, NOW));
    let updated = v.plan_commit(&r);
    assert_eq!(
        v.commit_rearm_after_reclaim_outcome(updated, Persisted::Failed),
        RearmCommitOutcome::NotCommitted
    );
    assert!(!commit_rearm_after_reclaim(RearmCommitOutcome::NotCommitted));
}

#[test]
fn a_deferred_rearm_is_taken_once() {
    let (mut v, _) = given_up("a", "r", 3);
    let r = reserved(v.reserve_rearm_after_reclaim("a", "r", 3, NOW));
    let deferred = v.plan_defer(&r).expect("defer");
    assert!(v.defer_rearm_after_reclaim(deferred, Persisted::Written));
    match v.take_deferred_rearm_for_flush("a", "r", 3) {
        FlushStep::Taken(t) => assert!(t.deferred),
        _ => panic!("the deferred re-arm is taken"),
    }
    assert!(matches!(v.take_deferred_rearm_for_flush("a", "r", 3), FlushStep::Refused));
}

#[test]
fn the_records_of_a_wake() {
    let e = redelivery_event("a", None);
    assert_eq!((e.kind.as_str(), e.subject.as_str()), ("inject_redelivered", "a"));
    assert_eq!(e.detail, "actionable inject unconfirmed (no UserPromptSubmit) — re-delivered once");
    assert_eq!(redelivery_event("a", Some("transport generation fenced")).kind, "inject_redelivery_suppressed");
    assert_eq!(redelivery_event("a", Some("queue full")).kind, "inject_redelivery_failed");
    let g = undelivered_event(&GivenUp { agent: "a".to_string(), row_id: "r".to_string() });
    assert_eq!((g.kind.as_str(), g.subject.as_str()), ("inject_undelivered", "a"));
}

#[test]
fn a_row_is_named_by_its_message_or_its_agent() {
    assert_eq!(logical_row_id("a", "wake id=m-7 kind=task"), "m-7");
    assert_eq!(logical_row_id("a", "wake"), "agent:a");
}

#[test]
fn agents_are_listed() {
    let mut v = Verifier::new();
    arm(&mut v, "a", "wake id=1", TransportMode::LegacyPty, 0, NOW);
    arm(&mut v, "b", "wake id=2", TransportMode::LegacyPty, 0, NOW);
    let mut names = v.agents();
    names.sort();
    assert_eq!(names, vec!["a".to_string(), "b".to_string()]);
}

#[test]
fn a_restart_gives_no_second_rearm() {
    let (mut v, latches) = given_up("a", "r", 3);
    let r = reserved(v.reserve_rearm_after_reclaim("a", "r", 3, NOW));
    let plan = v.plan_commit(&r).expect("commit");
    let latches = persist_latch(&latches, "r", plan.row());
    assert_eq!(
        v.commit_rearm_after_reclaim_outcome(Some(plan), Persisted::Written),
        RearmCommitOutcome::Committed
    );
    let mut restarted = Verifier::new();
    assert!(matches!(restarted.reserve_rearm_after_reclaim("a", "r", 3, NOW), ReserveStep::ConsultLatches));
    assert!(restarted.reserve_rearm_from_latches("a", "r", 3, &Some(latches), NOW).is_none());
}
