//! The handlers that every tick of the daemon runs.
use vstd::prelude::*;

verus! {

/// The names of the handlers, in the order in which a tick runs them.
pub open spec fn handler_names() -> Seq<Seq<char>> {
    seq![
        "assignment_reconcile"@,
        "backend_exit_detection"@,
        "busy_park_redrive"@,
        "canonical_heartbeat"@,
        "check_schedules"@,
        "checkout_txn_recover"@,
        "ci_watch_poll"@,
        "claude_self_kick"@,
        "codex_mcp_refusal"@,
        "context_thresholds"@,
        "cross_board_dep_detective"@,
        "divergence_telemetry"@,
        "ephemeral_reap"@,
        "external_liveness"@,
        "handoff_timeout_watchdog"@,
        "hang_detection"@,
        "hourly_gc"@,
        "inbox_maintenance"@,
        "inbox_stuck_watchdog"@,
        "inject_delivery"@,
    ]
}

/// The names of the handlers, in the order in which a tick runs them. Each handler
/// answers to its name.
pub fn default_handler_names() -> (r: Vec<&'static str>)
    ensures
        r@.map_values(|s: &'static str| s@) == handler_names(),
{
    let mut r: Vec<&'static str> = Vec::new();
    r.push("assignment_reconcile");
    r.push("backend_exit_detection");
    r.push("busy_park_redrive");
    r.push("canonical_heartbeat");
    r.push("check_schedules");
    r.push("checkout_txn_recover");
    r.push("ci_watch_poll");
    r.push("claude_self_kick");
    r.push("codex_mcp_refusal");
    r.push("context_thresholds");
    r.push("cross_board_dep_detective");
    r.push("divergence_telemetry");
    r.push("ephemeral_reap");
    r.push("external_liveness");
    r.push("handoff_timeout_watchdog");
    r.push("hang_detection");
    r.push("hourly_gc");
    r.push("inbox_maintenance");
    r.push("inbox_stuck_watchdog");
    r.push("inject_delivery");
    assert(r@.map_values(|s: &'static str| s@) =~= handler_names());
    r
}

} // verus!
