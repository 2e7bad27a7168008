use agend_daemon::notification_dedup::{extract_msg_id_from_header, Ledger, IDEMPOTENCY_WINDOW_NANOS, IDEMPOTENCY_WINDOW_SECS};

const SECOND: u64 = 1_000_000_000;

#[test]
fn dedup_set_inserts_on_inject() {
    let mut l = Ledger::default();
    l.record_inject("alice836", "m-1");
    assert_eq!(l.len(), 1);
    assert!(
        !l.should_suppress_reinject("alice836", "m-1"),
        "fresh entry must not suppress — only consumed entries suppress"
    );
}

#[test]
fn dedup_set_suppresses_already_delivered() {
    let mut l = Ledger::default();
    l.record_inject("alice836", "m-1");
    l.mark_consumed("alice836", "m-1");
    assert!(l.should_suppress_reinject("alice836", "m-1"), "a consumed entry suppresses");
}

#[test]
fn dedup_set_expires_after_window() {
    let mut l = Ledger::default();
    let t0: u64 = l.now();
    l.record_inject_at("alice836", "m-1", t0);
    l.mark_consumed("alice836", "m-1");
    let inside_window = t0 + (IDEMPOTENCY_WINDOW_SECS - 1) * SECOND;
    assert!(
        l.should_suppress_reinject_at("alice836", "m-1", inside_window),
        "consumed entry inside window must still suppress"
    );
    let outside_window = t0 + (IDEMPOTENCY_WINDOW_SECS + 1) * SECOND;
    assert!(
        !l.should_suppress_reinject_at("alice836", "m-1", outside_window),
        "consumed entry past the window must NOT suppress"
    );
}

#[test]
fn dedup_set_handles_multi_msg_drain() {
    let mut l = Ledger::default();
    l.record_inject("alice836", "m-1");
    l.record_inject("alice836", "m-2");
    l.mark_consumed("alice836", "m-1");
    assert!(l.should_suppress_reinject("alice836", "m-1"));
    assert!(
        !l.should_suppress_reinject("alice836", "m-2"),
        "partial-consume must NOT suppress the still-pending msg"
    );
}

#[test]
fn extract_msg_id_finds_id_field_in_canonical_header() {
    let header = "\u{1b}[2m[AGEND-MSG]\u{1b}[0m from=fixup-lead \
                  id=m-20260515184625304633-133 kind=task size=1545";
    let id = extract_msg_id_from_header(header);
    assert_eq!(id, Some("m-20260515184625304633-133".to_string()));
}

#[test]
fn extract_msg_id_round_trips_real_format_header() {
    let id = "m-20260530120000000000-42";
    let header = format!(
        "\u{1b}[2m[AGEND-MSG]\u{1b}[0m from=fixup-lead id={id} kind=task now=2026-05-30T12:00:00Z size=12"
    );
    assert_eq!(
        extract_msg_id_from_header(&header),
        Some("m-20260530120000000000-42".to_string()),
        "id must round-trip through the header: {header}"
    );
}

#[test]
fn extract_msg_id_returns_none_when_field_absent() {
    let header = "[AGEND-MSG] from=fixup-lead kind=task size=200";
    assert_eq!(extract_msg_id_from_header(header), None);
    let header_empty = "[AGEND-MSG] from=fixup-lead id= kind=task";
    assert_eq!(extract_msg_id_from_header(header_empty), None);
}

#[test]
fn e2e_consume_then_retry_suppresses_reinject() {
    let mut l = Ledger::default();
    l.record_inject("agent-race", "m-race");
    l.mark_consumed("agent-race", "m-race");
    assert!(
        l.should_suppress_reinject("agent-race", "m-race"),
        "post-consume retry MUST be suppressed"
    );
}

#[test]
fn an_unknown_message_is_never_suppressed() {
    let mut l = Ledger::default();
    assert!(!l.should_suppress_reinject("alice", "m-1"));
    l.mark_consumed("alice", "m-1");
    assert_eq!(l.len(), 0, "consuming an unknown message notes nothing");
    l.record_inject("alice", "m-1");
    l.mark_consumed("alice", "m-1");
    assert!(!l.should_suppress_reinject("bob", "m-1"), "another agent's message is another message");
}

#[test]
fn an_entry_is_swept_when_its_window_is_over() {
    let mut l = Ledger::default();
    l.record_inject_at("alice", "m-1", 0);
    l.record_inject_at("alice", "m-2", 5 * SECOND);
    assert_eq!(l.sweep_expired_at(IDEMPOTENCY_WINDOW_NANOS - 1), 0);
    assert_eq!(l.sweep_expired_at(IDEMPOTENCY_WINDOW_NANOS), 1);
    assert_eq!(l.len(), 1);
    l.sweep_expired();
    assert_eq!(l.len(), 1, "the clock of a fresh ledger is far from the window");
}

#[test]
fn the_first_id_of_a_header_counts() {
    assert_eq!(extract_msg_id_from_header("id=a id=b"), Some("a".to_string()));
    assert_eq!(extract_msg_id_from_header("xid=a id=b"), Some("b".to_string()));
    assert_eq!(extract_msg_id_from_header("id= id=b"), None);
}
