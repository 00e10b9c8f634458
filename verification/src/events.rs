//! What happened, for whoever listens.

use vstd::prelude::*;

use crate::models::{Monitor, Status, Ts};

verus! {

/// An event on the bus.
#[derive(Clone, Debug)]
pub enum Event {
    MonitorUpdated { id: i64, status: Status, response_time_ms: Option<i64>, checked_at: Ts },
    MonitorTransition { id: i64, from: Status, to: Status, incident_id: Option<i64> },
    IncidentOpened { id: i64, monitor_id: i64 },
    IncidentResolved { id: i64, monitor_id: i64, duration_seconds: i64 },
    ConnectivityChanged { online: bool },
    MaintenanceChanged { id: i64, in_maintenance: bool },
    Snapshot { monitors: Vec<Monitor>, online: bool },
    CertUpdated { id: i64 },
}

} // verus!
