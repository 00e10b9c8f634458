//! Verified core of the Vigil uptime and certificate monitor.

use vstd::prelude::*;

pub mod anchor;
pub mod api;
pub mod app;
pub mod cert_scheduler;
pub mod certcheck;
pub mod clock;
pub mod config;
pub mod cooldown;
pub mod db;
pub mod digest;
pub mod engine;
pub mod events;
pub mod fleet;
pub mod heartbeat;
pub mod json;
pub mod maintenance;
pub mod maintenance_windows;
pub mod models;
pub mod notify;
pub mod numbers;
pub mod probe;
pub mod renotify;
pub mod report;
pub mod rollup;
pub mod scheduler;
pub mod secrets;
pub mod settings_store;
pub mod state;
pub mod status_codes;
pub mod text;
pub mod uptime;
pub mod worker;

verus! {

} // verus!
