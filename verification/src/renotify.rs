//! Reminders of an ongoing outage.

use vstd::prelude::*;

use crate::models::{Connectivity, Monitor, Trigger, Ts};
use crate::notify::dispatch;
use crate::notify::templates;
use crate::notify::NotifyMsg;
use crate::text;

verus! {

/// An elapsed time as `6h 3m`, or `3m` below an hour.
pub open spec fn elapsed_text(secs: int) -> Seq<char> {
    let s = if secs > 0 {
        secs
    } else {
        0
    };
    let h = s / 3600;
    let m = (s % 3600) / 60;
    if h > 0 {
        text::dec(h) + "h "@ + text::dec(m) + "m"@
    } else {
        text::dec(m) + "m"@
    }
}

/// Formats an elapsed time.
pub fn format_elapsed(secs: i64) -> (r: String)
    ensures
        r@ == elapsed_text(secs as int),
{
    let s: i64 = if secs > 0 {
        secs
    } else {
        0
    };
    let h: i64 = s / 3600;
    let m: i64 = (s % 3600) / 60;
    if h > 0 {
        let mut r = text::int_text(h);
        r.append("h ");
        r.append(text::int_text(m).as_str());
        r.append("m");
        r
    } else {
        let mut r = text::int_text(m);
        r.append("m");
        r
    }
}

/// `msg` reminds of an outage that started at `started_at`: the down notification, marked as a
/// reminder, with how long the outage has lasted.
pub open spec fn is_reminder(
    msg: NotifyMsg,
    m: Monitor,
    trigger: Trigger,
    started_at: Ts,
    now: Ts,
) -> bool {
    exists|ctx: crate::notify::TemplateCtx|
        dispatch::is_transition_ctx(ctx, m, "down"@, Some((now - started_at) as i64), now)
            && #[trigger] dispatch::carries(msg, ctx) && msg.subject@ == "Reminder: "@
            + templates::transition_subject(trigger, ctx.monitor_name@) && msg.body@ == text::joined(
            templates::transition_lines(ctx),
            "\n"@,
        ) + "\n\nStill down for "@ + elapsed_text(now - started_at) + "."@
}

/// Builds the reminder of an outage.
pub fn build_reminder_msg(m: &Monitor, trigger: Trigger, started_at: Ts, now_ts: Ts) -> (msg:
    NotifyMsg)
    requires
        i64::MIN <= now_ts - started_at <= i64::MAX,
    ensures
        is_reminder(msg, *m, trigger, started_at, now_ts),
{
    let elapsed: i64 = now_ts - started_at;
    let ctx = dispatch::transition_ctx(m, "down", Some(elapsed), now_ts);
    let (rendered_subject, rendered_body, body_html) = templates::render(trigger, &ctx);
    let mut subject = text::own("Reminder: ");
    subject.append(rendered_subject.as_str());
    let mut body = rendered_body;
    body.append("\n\nStill down for ");
    body.append(format_elapsed(elapsed).as_str());
    body.append(".");
    let msg = NotifyMsg {
        monitor_name: text::own(ctx.monitor_name.as_str()),
        url: text::own(ctx.url.as_str()),
        status: text::own(ctx.status.as_str()),
        status_code: None,
        error: None,
        response_time_ms: None,
        duration: Some(elapsed),
        ssl_days: None,
        domain_days: None,
        checked_at: now_ts,
        incident_url: None,
        subject,
        body,
        body_html,
    };
    assert(dispatch::carries(msg, ctx));
    msg
}

/// Whether a reminder pass runs at all: reminders are switched on, and this machine is online.
pub fn pass_runs(renotify_hours: i64, anchor: Connectivity) -> (r: bool)
    ensures
        r == (renotify_hours > 0 && anchor == Connectivity::Online),
{
    renotify_hours > 0 && anchor == Connectivity::Online
}

/// A reminder is due: the last one for the incident, or else its start, is at least the cadence past.
pub open spec fn due(
    last_reminder: Option<Ts>,
    started_at: Ts,
    now: int,
    renotify_hours: int,
) -> bool {
    now - (match last_reminder {
        Some(t) => t,
        None => started_at,
    }) >= renotify_hours * 3600
}

/// Whether a reminder is due.
pub fn reminder_due(
    last_reminder: Option<Ts>,
    started_at: Ts,
    now_ts: Ts,
    renotify_hours: i64,
) -> (r: bool)
    ensures
        r == due(last_reminder, started_at, now_ts as int, renotify_hours as int),
{
    let baseline: Ts = match last_reminder {
        Some(t) => t,
        None => started_at,
    };
    now_ts as i128 - baseline as i128 >= renotify_hours as i128 * 3600
}

/// What an incident row says when it is read again.
#[derive(Clone, Copy, Debug, PartialEq, Eq, Structural)]
pub struct IncidentState {
    pub resolved_at: Option<Ts>,
    pub acknowledged: bool,
}

/// Whether the incident is still open and nobody took note of it.
pub fn still_open(row: Option<IncidentState>) -> (r: bool)
    ensures
        r == (row matches Some(s) && s.resolved_at is None && !s.acknowledged),
{
    match row {
        Some(s) => s.resolved_at.is_none() && !s.acknowledged,
        None => false,
    }
}

/// What an outage of a monitor is called: a missed heartbeat, or down.
pub open spec fn outage_trigger(kind: Seq<char>) -> Trigger {
    if kind == "heartbeat"@ {
        Trigger::HeartbeatMissed
    } else {
        Trigger::Down
    }
}

/// What an outage of a monitor is called.
pub fn trigger_for(kind: &str) -> (r: Trigger)
    ensures
        r == outage_trigger(kind@),
{
    if text::same(kind, "heartbeat") {
        Trigger::HeartbeatMissed
    } else {
        Trigger::Down
    }
}

/// `r` is the reminder to send for an open incident, if any.
pub open spec fn reminds(
    r: Option<(Trigger, NotifyMsg)>,
    m: Monitor,
    started_at: Ts,
    last_reminder: Option<Ts>,
    row: Option<IncidentState>,
    now: Ts,
    renotify_hours: i64,
) -> bool {
    &&& (r is Some <==> due(last_reminder, started_at, now as int, renotify_hours as int) && (row
        matches Some(s) && s.resolved_at is None && !s.acknowledged))
    &&& (r matches Some(p) ==> p.0 == outage_trigger(m.kind@) && is_reminder(
        p.1,
        m,
        p.0,
        started_at,
        now,
    ))
}

/// The reminder to send for an open incident, if it is due and the incident is still open and
/// unacknowledged when it is read again.
pub fn renotify_once(
    m: &Monitor,
    started_at: Ts,
    last_reminder: Option<Ts>,
    row: Option<IncidentState>,
    now_ts: Ts,
    renotify_hours: i64,
) -> (r: Option<(Trigger, NotifyMsg)>)
    requires
        i64::MIN <= now_ts - started_at <= i64::MAX,
    ensures
        reminds(r, *m, started_at, last_reminder, row, now_ts, renotify_hours),
{
    if !reminder_due(last_reminder, started_at, now_ts, renotify_hours) {
        return None;
    }
    if !still_open(row) {
        return None;
    }
    let trigger = trigger_for(m.kind.as_str());
    Some((trigger, build_reminder_msg(m, trigger, started_at, now_ts)))
}

/// Reminders of one incident stand at least the cadence apart.
pub proof fn law_reminders_stand_apart(last: Ts, started_at: Ts, now: int, renotify_hours: int)
    requires
        due(Some(last), started_at, now, renotify_hours),
    ensures
        now - last >= renotify_hours * 3600,
{
}

/// A reminder goes out exactly for an incident that is still open and that nobody took note of, once
/// the cadence has passed since the last reminder or, before the first one, since the incident began;
/// it says how long the outage has lasted.
pub proof fn law_open_incidents_are_recalled(
    r: Option<(Trigger, NotifyMsg)>,
    m: Monitor,
    started_at: Ts,
    last_reminder: Option<Ts>,
    row: Option<IncidentState>,
    now: Ts,
    renotify_hours: i64,
)
    requires
        reminds(r, m, started_at, last_reminder, row, now, renotify_hours),
        i64::MIN <= now - started_at <= i64::MAX,
    ensures
        row is None || row->0.resolved_at is Some || row->0.acknowledged ==> r is None,
        row is Some && row->0.resolved_at is None && !row->0.acknowledged && last_reminder is None
            ==> (r is Some <==> now - started_at >= renotify_hours * 3600),
        row is Some && row->0.resolved_at is None && !row->0.acknowledged && last_reminder is Some
            ==> (r is Some <==> now - last_reminder->0 >= renotify_hours * 3600),
        r matches Some((t, msg)) ==> {
            &&& t == (if m.kind@ == "heartbeat"@ {
                Trigger::HeartbeatMissed
            } else {
                Trigger::Down
            })
            &&& msg.monitor_name@ == m.name@
            &&& msg.status@ == "down"@
            &&& msg.duration == Some((now - started_at) as i64)
            &&& msg.checked_at == now
            &&& text::within(msg.subject@, "Reminder: "@)
            &&& text::within(msg.subject@, m.name@)
            &&& text::within(msg.body@, "Monitor: "@ + m.name@)
            &&& text::within(msg.body@, "\n\nStill down for "@)
            &&& text::within(msg.body@, elapsed_text(now - started_at))
        },
{
    if let Some((t, msg)) = r {
        let ctx = choose|ctx: crate::notify::TemplateCtx|
            dispatch::is_transition_ctx(ctx, m, "down"@, Some((now - started_at) as i64), now)
                && #[trigger] dispatch::carries(msg, ctx) && msg.subject@ == "Reminder: "@
                + templates::transition_subject(t, ctx.monitor_name@) && msg.body@ == text::joined(
                templates::transition_lines(ctx),
                "\n"@,
            ) + "\n\nStill down for "@ + elapsed_text(now - started_at) + "."@;
        let subject = templates::transition_subject(t, ctx.monitor_name@);
        templates::law_subjects_say_what_happened(t, m.name@);
        text::law_halves_are_held("Reminder: "@, subject, "Reminder: "@);
        text::law_halves_are_held("Reminder: "@, subject, m.name@);
        let lines = templates::transition_lines(ctx);
        let body = text::joined(lines, "\n"@);
        text::law_joined_parts_are_held(lines, "\n"@, 0);
        let mid = "\n\nStill down for "@;
        let e = elapsed_text(now - started_at);
        let name = "Monitor: "@ + m.name@;
        text::law_halves_are_held(body, mid, name);
        text::law_halves_are_held(body + mid, e, name);
        text::law_halves_are_held(body + mid + e, "."@, name);
        text::law_halves_are_held(mid, Seq::empty(), mid);
        text::law_halves_are_held(body, mid, mid);
        text::law_halves_are_held(body + mid, e, mid);
        text::law_halves_are_held(body + mid + e, "."@, mid);
        text::law_halves_are_held(e, Seq::empty(), e);
        text::law_halves_are_held(body + mid, e, e);
        text::law_halves_are_held(body + mid + e, "."@, e);
    }
}

/// An elapsed time is told in full hours and the minutes that remain; below an hour in minutes alone,
/// and what is not past in none.
pub proof fn law_elapsed_time(h: int, m: int, s: int, negative: int)
    requires
        0 <= h,
        0 <= m < 60,
        0 <= s < 60,
        negative <= 0,
    ensures
        h > 0 ==> elapsed_text(h * 3600 + m * 60 + s) == text::dec(h) + "h "@ + text::dec(m) + "m"@,
        h == 0 ==> elapsed_text(m * 60 + s) == text::dec(m) + "m"@,
        elapsed_text(negative) == text::dec(0) + "m"@,
{
    let t = h * 3600 + m * 60 + s;
    assert(t / 3600 == h && t % 3600 == m * 60 + s) by (nonlinear_arith)
        requires
            t == h * 3600 + m * 60 + s,
            0 <= m * 60 + s < 3600,
    ;
    assert((m * 60 + s) / 60 == m) by (nonlinear_arith)
        requires
            0 <= s < 60,
    ;
    assert((m * 60 + s) / 3600 == 0 && (m * 60 + s) % 3600 == m * 60 + s);
}

} // verus!
