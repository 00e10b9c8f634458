//! What a probe result changes in the stored world: the monitor's status and counters, its incident,
//! the events to publish, and the notification to send.
//!
//! A result is planned in full before anything is written, so that the monitor and its incident are
//! written together; events and notifications follow only a successful write.

use vstd::prelude::*;

use crate::events::Event;
use crate::models::{Cause, Connectivity, Monitor, ProbeOutcome, Status, Trigger, Ts};
use crate::notify::own_opt;
use crate::renotify;
use crate::state;
use crate::state::{Decision, Inputs, Thresholds, Transition};
use crate::text;

verus! {

/// What applying a result came to.
#[derive(Clone, Copy, Debug, PartialEq, Eq, Structural)]
pub struct ApplyOutcome {
    pub incident_id: Option<i64>,
    pub use_retry_interval: bool,
}

/// The newest open incident of a monitor.
#[derive(Clone, Copy, Debug, PartialEq, Eq, Structural)]
pub struct OpenIncident {
    pub id: i64,
    pub started_at: Ts,
}

/// An incident to insert.
#[derive(Clone, Debug)]
pub struct NewIncident {
    pub monitor_id: i64,
    pub started_at: Ts,
    pub cause: String,
    pub status_code: Option<i64>,
    pub error_message: Option<String>,
}

/// What is written of incidents.
#[derive(Clone, Debug)]
pub enum IncidentWrite {
    Nothing,
    Open(NewIncident),
    Close { id: i64, resolved_at: Ts, duration_seconds: i64 },
}

/// What is written of the monitor.
#[derive(Clone, Copy, Debug, PartialEq, Eq, Structural)]
pub struct MonitorWrite {
    pub id: i64,
    pub status: Status,
    pub consecutive_failures: i64,
    pub consecutive_successes: i64,
    pub last_checked_at: Ts,
    pub updated_at: Ts,
}

/// Everything that one result writes.
#[derive(Clone, Debug)]
pub struct ResultPlan {
    pub decision: Decision,
    pub monitor: MonitorWrite,
    pub incident: IncidentWrite,
}

/// What follows a successful write.
#[derive(Clone, Debug)]
pub struct Effects {
    pub outcome: ApplyOutcome,
    /// In the order in which they are published.
    pub events: Vec<Event>,
    /// The notification to send, with the incident it is about. It goes out before the last event.
    pub notify: Option<(Trigger, i64)>,
}

/// What the state machine is asked about a result.
pub open spec fn inputs(
    m: Monitor,
    ok: bool,
    anchor: Connectivity,
    open: Option<OpenIncident>,
) -> Inputs {
    Inputs {
        current: m.status,
        prev_confirmed: if open is Some {
            Status::Down
        } else {
            Status::Up
        },
        consecutive_failures: m.consecutive_failures,
        consecutive_successes: m.consecutive_successes,
        outcome_ok: ok,
        anchor,
        th: Thresholds {
            confirmation: m.confirmation_threshold,
            recovery: m.recovery_threshold,
        },
    }
}

/// The stored cause of an outage; one without a cause is put down to the connection.
pub open spec fn cause_name(cause: Option<Cause>) -> Seq<char> {
    match cause {
        Some(c) => c.name(),
        None => "connection"@,
    }
}

/// `w` is what a transition writes of incidents: opening inserts one, closing resolves the newest
/// open one if there is one, and nothing else touches incidents.
pub open spec fn writes_incident(
    w: IncidentWrite,
    transition: Option<Transition>,
    m: Monitor,
    out: ProbeOutcome,
    open: Option<OpenIncident>,
    now: Ts,
) -> bool {
    match transition {
        Some(Transition::ToDownOpenIncident) => w matches IncidentWrite::Open(n) && n.monitor_id
            == m.id && n.started_at == now && n.cause@ == cause_name(out.cause) && n.status_code
            == out.status_code && text::view_opt(n.error_message) == text::view_opt(
            out.error_message,
        ),
        Some(Transition::ToUpCloseIncident) => match open {
            Some(o) => w == (IncidentWrite::Close {
                id: o.id,
                resolved_at: now,
                duration_seconds: (now - o.started_at) as i64,
            }),
            None => w is Nothing,
        },
        _ => w is Nothing,
    }
}

/// `r` is what a result writes, given the monitor's newest open incident.
pub open spec fn plans(
    r: ResultPlan,
    m: Monitor,
    out: ProbeOutcome,
    anchor: Connectivity,
    open: Option<OpenIncident>,
    now: Ts,
) -> bool {
    &&& r.decision == inputs(m, out.ok, anchor, open).decision()
    &&& r.monitor == (MonitorWrite {
        id: m.id,
        status: r.decision.next_status,
        consecutive_failures: r.decision.consecutive_failures,
        consecutive_successes: r.decision.consecutive_successes,
        last_checked_at: now,
        updated_at: now,
    })
    &&& writes_incident(r.incident, r.decision.transition, m, out, open, now)
}

/// Plans what a result writes, given the monitor's newest open incident.
pub fn apply_result(
    m: &Monitor,
    out: &ProbeOutcome,
    anchor: Connectivity,
    open: Option<OpenIncident>,
    now: Ts,
) -> (r: ResultPlan)
    requires
        inputs(*m, out.ok, anchor, open).countable(),
        open matches Some(o) ==> i64::MIN <= now - o.started_at <= i64::MAX,
    ensures
        plans(r, *m, *out, anchor, open, now),
{
    let prev = if open.is_some() {
        Status::Down
    } else {
        Status::Up
    };
    let i = Inputs {
        current: m.status,
        prev_confirmed: prev,
        consecutive_failures: m.consecutive_failures,
        consecutive_successes: m.consecutive_successes,
        outcome_ok: out.ok,
        anchor,
        th: Thresholds { confirmation: m.confirmation_threshold, recovery: m.recovery_threshold },
    };
    let d = state::evaluate(&i);
    let incident = match d.transition {
        Some(Transition::ToDownOpenIncident) => {
            let cause = match out.cause {
                Some(c) => text::own(c.as_str()),
                None => text::own("connection"),
            };
            IncidentWrite::Open(
                NewIncident {
                    monitor_id: m.id,
                    started_at: now,
                    cause,
                    status_code: out.status_code,
                    error_message: own_opt(&out.error_message),
                },
            )
        },
        Some(Transition::ToUpCloseIncident) => match open {
            Some(o) => IncidentWrite::Close {
                id: o.id,
                resolved_at: now,
                duration_seconds: now - o.started_at,
            },
            None => IncidentWrite::Nothing,
        },
        _ => IncidentWrite::Nothing,
    };
    ResultPlan {
        decision: d,
        monitor: MonitorWrite {
            id: m.id,
            status: d.next_status,
            consecutive_failures: d.consecutive_failures,
            consecutive_successes: d.consecutive_successes,
            last_checked_at: now,
            updated_at: now,
        },
        incident,
    }
}

/// The events of an opened incident.
pub open spec fn opened_events(id: i64, m: i64, from: Status, to: Status) -> Seq<Event> {
    seq![
        Event::IncidentOpened { id, monitor_id: m },
        Event::MonitorTransition { id: m, from, to, incident_id: Some(id) },
    ]
}

/// The events of a resolved incident.
pub open spec fn resolved_events(
    id: i64,
    m: i64,
    from: Status,
    to: Status,
    duration_seconds: i64,
) -> Seq<Event> {
    seq![
        Event::IncidentResolved { id, monitor_id: m, duration_seconds },
        Event::MonitorTransition { id: m, from, to, incident_id: Some(id) },
    ]
}

/// The events of a result that was written, but for the closing update.
pub open spec fn transition_events(m: Monitor, plan: ResultPlan, opened_id: i64) -> Seq<Event> {
    let to = plan.decision.next_status;
    match plan.incident {
        IncidentWrite::Open(_) => opened_events(opened_id, m.id, m.status, to),
        IncidentWrite::Close { id, resolved_at, duration_seconds } => resolved_events(
            id,
            m.id,
            m.status,
            to,
            duration_seconds,
        ),
        IncidentWrite::Nothing => if plan.decision.transition == Some(Transition::ToUpNoIncident)
            || plan.decision.transition == Some(Transition::ToUnknown) {
            seq![Event::MonitorTransition { id: m.id, from: m.status, to, incident_id: None }]
        } else {
            Seq::empty()
        },
    }
}

/// The incident that a result wrote.
pub open spec fn written_incident(plan: ResultPlan, opened_id: i64) -> Option<i64> {
    match plan.incident {
        IncidentWrite::Open(_) => Some(opened_id),
        IncidentWrite::Close { id, resolved_at, duration_seconds } => Some(id),
        IncidentWrite::Nothing => None,
    }
}

/// The notification that a result calls for.
pub open spec fn called_for(m: Monitor, plan: ResultPlan, opened_id: i64) -> Option<(Trigger, i64)> {
    match plan.incident {
        IncidentWrite::Open(_) => Some((renotify::outage_trigger(m.kind@), opened_id)),
        IncidentWrite::Close { id, resolved_at, duration_seconds } => Some((Trigger::Recovered, id)),
        IncidentWrite::Nothing => None,
    }
}

/// `r` is what follows a successful write of a plan.
pub open spec fn follows_write(
    r: Effects,
    m: Monitor,
    out: ProbeOutcome,
    plan: ResultPlan,
    opened_id: i64,
    now: Ts,
) -> bool {
    &&& r.outcome.incident_id == written_incident(plan, opened_id)
    &&& r.outcome.use_retry_interval == plan.decision.use_retry_interval
    &&& r.events@ == transition_events(m, plan, opened_id).push(
        Event::MonitorUpdated {
            id: m.id,
            status: plan.decision.next_status,
            response_time_ms: out.response_time_ms,
            checked_at: now,
        },
    )
    &&& r.notify == called_for(m, plan, opened_id)
}

/// What follows a successful write of a plan; `opened_id` is the id of the incident it inserted, if
/// it inserted one. The monitor's update is always published, and last.
pub fn after_commit(
    m: &Monitor,
    out: &ProbeOutcome,
    plan: &ResultPlan,
    opened_id: i64,
    now: Ts,
) -> (r: Effects)
    ensures
        follows_write(r, *m, *out, *plan, opened_id, now),
{
    let to = plan.decision.next_status;
    let mut events: Vec<Event> = Vec::new();
    let mut incident_id: Option<i64> = None;
    let mut notify: Option<(Trigger, i64)> = None;
    match &plan.incident {
        IncidentWrite::Open(_) => {
            events.push(Event::IncidentOpened { id: opened_id, monitor_id: m.id });
            events.push(
                Event::MonitorTransition {
                    id: m.id,
                    from: m.status,
                    to,
                    incident_id: Some(opened_id),
                },
            );
            incident_id = Some(opened_id);
            notify = Some((renotify::trigger_for(m.kind.as_str()), opened_id));
        },
        IncidentWrite::Close { id, resolved_at, duration_seconds } => {
            events.push(
                Event::IncidentResolved {
                    id: *id,
                    monitor_id: m.id,
                    duration_seconds: *duration_seconds,
                },
            );
            events.push(
                Event::MonitorTransition { id: m.id, from: m.status, to, incident_id: Some(*id) },
            );
            incident_id = Some(*id);
            notify = Some((Trigger::Recovered, *id));
        },
        IncidentWrite::Nothing => {
            let edge = match plan.decision.transition {
                Some(Transition::ToUpNoIncident) => true,
                Some(Transition::ToUnknown) => true,
                _ => false,
            };
            if edge {
                events.push(
                    Event::MonitorTransition { id: m.id, from: m.status, to, incident_id: None },
                );
            }
        },
    }
    assert(events@ =~= transition_events(*m, *plan, opened_id));
    events.push(
        Event::MonitorUpdated {
            id: m.id,
            status: to,
            response_time_ms: out.response_time_ms,
            checked_at: now,
        },
    );
    Effects {
        outcome: ApplyOutcome {
            incident_id,
            use_retry_interval: plan.decision.use_retry_interval,
        },
        events,
        notify,
    }
}

// ---- the whole fleet ----

/// What the loss of the whole fleet's state reads of a monitor.
#[derive(Clone, Debug)]
pub struct FleetRow {
    pub id: i64,
    pub status: String,
    pub is_paused: bool,
}

/// A monitor's state is lost with the fleet's: it is not paused, and was known.
pub open spec fn loses_state(row: FleetRow) -> bool {
    !row.is_paused && row.status@ != "unknown"@
}

/// The monitors of `rows` whose state is lost, in order.
pub open spec fn lost(rows: Seq<FleetRow>) -> Seq<FleetRow> {
    rows.filter(|row: FleetRow| loses_state(row))
}

/// The events of monitors whose state was lost, in order: each changes from its status to unknown.
pub open spec fn lost_events(rows: Seq<FleetRow>, now: Ts) -> Seq<Event>
    decreases rows.len(),
{
    if rows.len() == 0 {
        Seq::empty()
    } else {
        let row = rows.last();
        lost_events(rows.drop_last(), now).push(
            Event::MonitorTransition {
                id: row.id,
                from: Status::named(row.status@),
                to: Status::Unknown,
                incident_id: None,
            },
        ).push(
            Event::MonitorUpdated {
                id: row.id,
                status: Status::Unknown,
                response_time_ms: None,
                checked_at: now,
            },
        )
    }
}

/// What the loss of the whole fleet's state does.
#[derive(Clone, Debug)]
pub struct FleetLoss {
    /// The monitors that are set to unknown.
    pub ids: Vec<i64>,
    /// What is published once they are.
    pub events: Vec<Event>,
}

/// `r` is the loss of the state of `rows`.
pub open spec fn is_loss(r: FleetLoss, rows: Seq<FleetRow>, now: Ts) -> bool {
    &&& r.ids@ == lost(rows).map_values(|row: FleetRow| row.id)
    &&& r.events@ == lost_events(lost(rows), now)
}

/// Sets every monitor that is not paused, nor unknown already, to unknown, and publishes the change
/// of each.
pub fn bulk_set_unknown(rows: &Vec<FleetRow>, now: Ts) -> (r: FleetLoss)
    ensures
        is_loss(r, rows@, now),
{
    let mut ids: Vec<i64> = Vec::new();
    let mut events: Vec<Event> = Vec::new();
    let mut i: usize = 0;
    let ghost of = |row: FleetRow| row.id;
    let ghost keep = |row: FleetRow| loses_state(row);
    proof {
        reveal(Seq::filter);
    }
    assert(rows@.take(0) =~= Seq::<FleetRow>::empty());
    assert(lost(rows@.take(0)) =~= Seq::<FleetRow>::empty());
    while i < rows.len()
        invariant
            i <= rows@.len(),
            keep == (|row: FleetRow| loses_state(row)),
            of == (|row: FleetRow| row.id),
            ids@ == lost(rows@.take(i as int)).map_values(of),
            events@ == lost_events(lost(rows@.take(i as int)), now),
        decreases rows@.len() - i,
    {
        let row = &rows[i];
        let ghost before = rows@.take(i as int);
        let ghost after = rows@.take(i + 1);
        proof {
            assert(after.drop_last() =~= before);
            assert(after.last() == *row);
            reveal(Seq::filter);
            assert(lost(after) == if loses_state(*row) {
                lost(before).push(*row)
            } else {
                lost(before)
            });
            assert(lost(before).push(*row).drop_last() =~= lost(before));
        }
        if !row.is_paused && !text::same(row.status.as_str(), "unknown") {
            let from = Status::from_db(row.status.as_str());
            ids.push(row.id);
            events.push(
                Event::MonitorTransition {
                    id: row.id,
                    from,
                    to: Status::Unknown,
                    incident_id: None,
                },
            );
            events.push(
                Event::MonitorUpdated {
                    id: row.id,
                    status: Status::Unknown,
                    response_time_ms: None,
                    checked_at: now,
                },
            );
            assert(ids@ =~= lost(after).map_values(of));
        }
        i += 1;
    }
    assert(rows@.take(rows@.len() as int) =~= rows@);
    FleetLoss { ids, events }
}

/// Whether an event means that the whole fleet's state is lost.
pub fn fleet_lost(e: &Event) -> (r: bool)
    ensures
        r == (*e == Event::ConnectivityChanged { online: false }),
{
    match e {
        Event::ConnectivityChanged { online } => !*online,
        _ => false,
    }
}

// ---- laws ----

/// How many incidents of the monitor are open after a plan is written, of those known.
pub open spec fn open_after(open: Option<OpenIncident>, w: IncidentWrite) -> int {
    (if open is Some {
        1int
    } else {
        0
    }) + match w {
        IncidentWrite::Open(_) => 1int,
        IncidentWrite::Close { id, resolved_at, duration_seconds } => -1,
        IncidentWrite::Nothing => 0,
    }
}

/// An open incident belongs to a confirmed outage: the monitor is down, or its state was lost, and
/// its failures stand at the threshold.
pub open spec fn incident_explained(
    status: Status,
    failures: int,
    confirmation: int,
    has_open: bool,
) -> bool {
    has_open ==> (status == Status::Down || status == Status::Unknown) && failures >= confirmation
}

/// A monitor never has two open incidents, and an open incident always belongs to a confirmed
/// outage, for monitors that recover on their first success.
pub proof fn law_at_most_one_open_incident(
    m: Monitor,
    out: ProbeOutcome,
    anchor: Connectivity,
    open: Option<OpenIncident>,
    now: Ts,
    w: IncidentWrite,
)
    requires
        inputs(m, out.ok, anchor, open).countable(),
        m.recovery_threshold <= 1,
        m.consecutive_successes >= 0,
        incident_explained(
            m.status,
            m.consecutive_failures as int,
            m.confirmation_threshold as int,
            open is Some,
        ),
        writes_incident(
            w,
            inputs(m, out.ok, anchor, open).decision().transition,
            m,
            out,
            open,
            now,
        ),
    ensures
        0 <= open_after(open, w) <= 1,
        ({
            let d = inputs(m, out.ok, anchor, open).decision();
            incident_explained(
                d.next_status,
                d.consecutive_failures as int,
                m.confirmation_threshold as int,
                open_after(open, w) == 1,
            )
        }),
{
}

/// Losing the whole fleet's state keeps every open incident explained.
pub proof fn law_lost_state_keeps_incidents(
    status: Status,
    failures: int,
    confirmation: int,
    has_open: bool,
)
    requires
        incident_explained(status, failures, confirmation, has_open),
    ensures
        incident_explained(Status::Unknown, failures, confirmation, has_open),
{
}

/// A closing resolves the incident that was open, at the time of the result: its duration is the
/// time from its start to its resolution.
pub proof fn law_closed_duration_is_elapsed(
    m: Monitor,
    out: ProbeOutcome,
    o: OpenIncident,
    now: Ts,
    w: IncidentWrite,
)
    requires
        i64::MIN <= now - o.started_at <= i64::MAX,
        writes_incident(w, Some(Transition::ToUpCloseIncident), m, out, Some(o), now),
    ensures
        w matches IncidentWrite::Close { id, resolved_at, duration_seconds } && id == o.id
            && resolved_at == now && o.started_at + duration_seconds == resolved_at,
{
}

/// What a result writes of the monitor: its own row, the time of the result, one more of the run that
/// the result belongs to, and the status that the result leaves.
pub proof fn law_result_is_recorded(
    r: ResultPlan,
    m: Monitor,
    out: ProbeOutcome,
    anchor: Connectivity,
    open: Option<OpenIncident>,
    now: Ts,
)
    requires
        plans(r, m, out, anchor, open, now),
        inputs(m, out.ok, anchor, open).countable(),
    ensures
        r.monitor.id == m.id,
        r.monitor.last_checked_at == now,
        r.monitor.updated_at == now,
        out.ok ==> r.monitor.status == Status::Up && r.monitor.consecutive_failures == 0
            && r.monitor.consecutive_successes == m.consecutive_successes + 1,
        !out.ok ==> r.monitor.consecutive_failures == m.consecutive_failures + 1
            && r.monitor.consecutive_successes == 0,
        !out.ok && m.consecutive_failures + 1 >= m.confirmation_threshold ==> r.monitor.status == (
        if anchor == Connectivity::Online {
            Status::Down
        } else {
            Status::Unknown
        }),
        r.decision.use_retry_interval <==> !out.ok && m.consecutive_failures + 1
            < m.confirmation_threshold,
{
}

/// An incident is opened by the failure that confirms an outage which is not known yet, while the
/// anchors are reachable, and by nothing else; it tells what failed and when.
pub proof fn law_incident_opens_with_the_outage(
    r: ResultPlan,
    m: Monitor,
    out: ProbeOutcome,
    anchor: Connectivity,
    open: Option<OpenIncident>,
    now: Ts,
)
    requires
        plans(r, m, out, anchor, open, now),
    ensures
        r.incident is Open <==> !out.ok && m.consecutive_failures + 1 >= m.confirmation_threshold
            && anchor == Connectivity::Online && m.status != Status::Down && !(m.status
            == Status::Unknown && open is Some),
        r.incident matches IncidentWrite::Open(n) ==> {
            &&& n.monitor_id == m.id
            &&& n.started_at == now
            &&& (out.cause matches Some(c) ==> n.cause@ == c.name())
            &&& (out.cause is None ==> n.cause@ == "connection"@)
            &&& n.status_code == out.status_code
            &&& (n.error_message is Some <==> out.error_message is Some)
            &&& (n.error_message matches Some(e) ==> e@ == out.error_message->0@)
        },
{
}

/// The open incident is closed by the success that completes the recovery of a monitor which is down,
/// or was when its state was lost, and by nothing else; its duration runs from its start to now.
pub proof fn law_incident_closes_with_the_recovery(
    r: ResultPlan,
    m: Monitor,
    out: ProbeOutcome,
    anchor: Connectivity,
    open: Option<OpenIncident>,
    now: Ts,
)
    requires
        plans(r, m, out, anchor, open, now),
        open matches Some(o) ==> i64::MIN <= now - o.started_at <= i64::MAX,
    ensures
        r.incident is Close <==> open is Some && out.ok && (m.status == Status::Down || m.status
            == Status::Unknown) && m.consecutive_successes + 1 >= m.recovery_threshold,
        r.incident matches IncidentWrite::Close { id, resolved_at, duration_seconds } ==> {
            &&& id == open->0.id
            &&& resolved_at == now
            &&& open->0.started_at + duration_seconds == now
        },
{
}

/// A notification goes out exactly where an incident was opened or closed, and is about that
/// incident: a missed heartbeat of a heartbeat monitor, an outage of any other, or a recovery.
pub proof fn law_incident_edges_are_notified(
    r: Effects,
    m: Monitor,
    out: ProbeOutcome,
    plan: ResultPlan,
    opened_id: i64,
    now: Ts,
)
    requires
        follows_write(r, m, out, plan, opened_id, now),
    ensures
        plan.incident is Open ==> r.outcome.incident_id == Some(opened_id) && r.notify is Some && (
        r.notify->0).1 == opened_id && (r.notify->0).0 == (if m.kind@ == "heartbeat"@ {
            Trigger::HeartbeatMissed
        } else {
            Trigger::Down
        }),
        plan.incident matches IncidentWrite::Close { id, resolved_at, duration_seconds }
            ==> r.outcome.incident_id == Some(id) && r.notify == Some((Trigger::Recovered, id)),
        plan.incident is Nothing ==> r.outcome.incident_id is None && r.notify is None,
        r.outcome.use_retry_interval == plan.decision.use_retry_interval,
{
}

/// What is published of a result: the monitor's update, last and once; before it, where the state
/// changed, the change from the status that the monitor had; and before that an incident that was
/// opened or resolved.
pub proof fn law_published_events(
    r: Effects,
    m: Monitor,
    out: ProbeOutcome,
    plan: ResultPlan,
    opened_id: i64,
    now: Ts,
    k: int,
)
    requires
        follows_write(r, m, out, plan, opened_id, now),
        0 <= k < r.events@.len(),
    ensures
        r.events@.len() == (if !(plan.incident is Nothing) {
            3int
        } else if plan.decision.transition == Some(Transition::ToUpNoIncident)
            || plan.decision.transition == Some(Transition::ToUnknown) {
            2int
        } else {
            1int
        }),
        r.events@[k] is MonitorUpdated <==> k == r.events@.len() - 1,
        r.events@[k] is MonitorTransition <==> k == r.events@.len() - 2,
        r.events@[k] matches Event::MonitorUpdated { id, status, response_time_ms, checked_at } ==> id
            == m.id && status == plan.decision.next_status && response_time_ms
            == out.response_time_ms && checked_at == now,
        r.events@[k] matches Event::MonitorTransition { id, from, to, incident_id } ==> id == m.id
            && from == m.status && to == plan.decision.next_status && incident_id
            == r.outcome.incident_id,
        r.events@[k] matches Event::IncidentOpened { id, monitor_id } ==> plan.incident is Open && id
            == opened_id && monitor_id == m.id,
        r.events@[k] matches Event::IncidentResolved { id, monitor_id, duration_seconds } ==> (
        plan.incident matches IncidentWrite::Close { id: of, resolved_at: _, duration_seconds: took }
            && of == id && took == duration_seconds) && monitor_id == m.id,
        plan.incident is Open ==> r.events@[0] is IncidentOpened,
        plan.incident is Close ==> r.events@[0] is IncidentResolved,
{
}

proof fn lemma_lost_holds(rows: Seq<FleetRow>, k: int)
    requires
        0 <= k < rows.len(),
    ensures
        loses_state(rows[k]) ==> lost(rows).contains(rows[k]),
    decreases rows.len(),
{
    reveal(Seq::filter);
    let rest = rows.drop_last();
    if k < rows.len() - 1 {
        lemma_lost_holds(rest, k);
        if loses_state(rows[k]) {
            let j = choose|j: int| 0 <= j < lost(rest).len() && lost(rest)[j] == rows[k];
            assert(lost(rows)[j] == rows[k]);
        }
    } else if loses_state(rows[k]) {
        assert(lost(rows)[lost(rows).len() - 1] == rows[k]);
    }
}

proof fn lemma_lost_lost(rows: Seq<FleetRow>, j: int)
    requires
        0 <= j < lost(rows).len(),
    ensures
        loses_state(lost(rows)[j]),
        rows.contains(lost(rows)[j]),
    decreases rows.len(),
{
    reveal(Seq::filter);
    let rest = rows.drop_last();
    if rows.len() > 0 {
        if j < lost(rest).len() {
            lemma_lost_lost(rest, j);
            let k = choose|k: int| 0 <= k < rest.len() && rest[k] == lost(rest)[j];
            assert(rows[k] == lost(rows)[j]);
        } else {
            assert(rows[rows.len() - 1] == lost(rows)[j]);
        }
    }
}

proof fn lemma_lost_events(rows: Seq<FleetRow>, now: Ts, j: int)
    requires
        0 <= j < rows.len(),
    ensures
        lost_events(rows, now).len() == 2 * rows.len(),
        lost_events(rows, now)[2 * j] == (Event::MonitorTransition {
            id: rows[j].id,
            from: Status::named(rows[j].status@),
            to: Status::Unknown,
            incident_id: None,
        }),
        lost_events(rows, now)[2 * j + 1] == (Event::MonitorUpdated {
            id: rows[j].id,
            status: Status::Unknown,
            response_time_ms: None,
            checked_at: now,
        }),
    decreases rows.len(),
{
    let rest = rows.drop_last();
    if rest.len() == 0 {
        assert(lost_events(rest, now).len() == 0);
    } else if j < rest.len() {
        lemma_lost_events(rest, now, j);
    } else {
        lemma_lost_events(rest, now, 0);
    }
}

/// When the whole fleet's state is lost, a monitor is set to unknown exactly if it runs and was not
/// unknown before; each such change is published once, with the status that the monitor had, and
/// nothing else is.
pub proof fn law_the_running_fleet_is_lost(r: FleetLoss, rows: Seq<FleetRow>, now: Ts, k: int, j: int)
    requires
        is_loss(r, rows, now),
        0 <= k < rows.len(),
        0 <= j < r.ids@.len(),
    ensures
        !rows[k].is_paused && rows[k].status@ != "unknown"@ ==> r.ids@.contains(rows[k].id),
        exists|i: int|
            0 <= i < rows.len() && (#[trigger] rows[i]).id == r.ids@[j] && !rows[i].is_paused
                && rows[i].status@ != "unknown"@ && r.events@[2 * j]
                == (Event::MonitorTransition {
                id: r.ids@[j],
                from: Status::named(rows[i].status@),
                to: Status::Unknown,
                incident_id: None,
            }),
        r.events@.len() == 2 * r.ids@.len(),
        r.events@[2 * j + 1] == (Event::MonitorUpdated {
            id: r.ids@[j],
            status: Status::Unknown,
            response_time_ms: None,
            checked_at: now,
        }),
{
    let gone = lost(rows);
    lemma_lost_holds(rows, k);
    if loses_state(rows[k]) {
        let i = choose|i: int| 0 <= i < gone.len() && gone[i] == rows[k];
        assert(r.ids@[i] == rows[k].id);
    }
    lemma_lost_lost(rows, j);
    let i = choose|i: int| 0 <= i < rows.len() && rows[i] == gone[j];
    assert(rows[i].id == r.ids@[j]);
    lemma_lost_events(gone, now, j);
}

} // verus!
