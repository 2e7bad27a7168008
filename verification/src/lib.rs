//! The decision core of the agent daemon: delivery verification, run-directory
//! identity, lifecycle and shutdown rules, task maintenance and the per-tick
//! watchdogs, each stated as a contract and proved.
pub mod agents;
pub mod cadence;
pub mod clock;
pub mod dates;
pub mod events;
pub mod inject_delivery;
pub mod janitor;
pub mod json;
pub mod legacy_backfill;
pub mod lifecycle;
pub mod markup;
pub mod mcp_registry_watcher;
pub mod notification_dedup;
pub mod owned_maintenance;
pub mod owner_services;
pub mod patterns;
pub mod per_tick;
pub mod positions;
pub mod ratio;
pub mod rearm_budget;
pub mod run_dir;
pub mod serve;
pub mod shutdown;
pub mod table;
pub mod task_maintenance;
pub mod text;
pub mod titles;
