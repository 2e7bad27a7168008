//! The handlers that run on every tick of the daemon, and what each of them
//! decides.
pub mod assignment_reconcile;
pub mod backend_exit_detection;
pub mod busy_park_redrive;
pub mod canonical_heartbeat;
pub mod check_schedules;
pub mod checkout_txn_recover;
pub mod ci_watch_poll;
pub mod claude_self_kick;
pub mod codex_mcp_refusal;
pub mod context_alert;
pub mod context_handoff;
pub mod context_thresholds;
pub mod cross_board_dep_detective;
pub mod divergence_telemetry;
pub mod ephemeral_reap;
pub mod external_liveness;
pub mod gc_tick;
pub mod handoff_timeout;
pub mod hang_detection;
pub mod hourly_gc;
pub mod inbox_maintenance;
pub mod inbox_stuck;
pub mod inject_delivery;
pub mod offload;
pub mod pipeline;
