//! The daily digest: yesterday's fleet uptime, incidents and upcoming expirations, when it is due,
//! and the message that carries it.

use vstd::prelude::*;

use crate::clock;
use crate::fleet;
use crate::fleet::Observed;
use crate::models::{MaintenanceWindow, Ts};
use crate::notify;
use crate::notify::own_opt;
use crate::numbers;
use crate::rollup;
use crate::text;
use crate::uptime::Share;

verus! {

/// The fleet's figures for a day. The uptime is the share of measured time that was down.
#[derive(Clone, Copy, Debug, PartialEq, Eq, Structural)]
pub struct FleetSummary {
    pub uptime_pct: Option<Share>,
    pub monitors_total: i64,
    pub clean_monitors: i64,
    pub incidents: i64,
    pub downtime_seconds: i64,
}

/// An incident of the day.
#[derive(Clone, Debug)]
pub struct DigestIncident {
    pub monitor_name: String,
    pub started_at: i64,
    pub resolved_at: Option<i64>,
    pub duration_seconds: Option<i64>,
    pub cause: Option<String>,
    pub status_code: Option<i64>,
    pub error_message: Option<String>,
}

/// A monitor that is down when the digest is sent.
#[derive(Clone, Debug)]
pub struct DigestDown {
    pub monitor_name: String,
    pub since: i64,
}

/// A certificate or domain that needs attention.
#[derive(Clone, Debug)]
pub struct DigestExpiration {
    pub monitor_name: String,
    pub kind: String,
    pub days_remaining: Option<i64>,
    pub flag: String,
}

/// What a digest holds.
#[derive(Clone, Debug)]
pub struct DigestSummary {
    pub day: String,
    pub fleet: FleetSummary,
    pub incidents: Vec<DigestIncident>,
    pub currently_down: Vec<DigestDown>,
    pub expirations: Vec<DigestExpiration>,
}

/// A stored incident with the name of its monitor.
#[derive(Clone, Debug)]
pub struct NamedIncident {
    pub monitor_name: String,
    pub started_at: i64,
    pub resolved_at: Option<i64>,
    pub cause: Option<String>,
    pub status_code: Option<i64>,
    pub error_message: Option<String>,
}

/// A monitor has data for a day: a check, or, where it waits for pings, a first ping.
pub open spec fn has_data(o: Observed) -> bool {
    o.has_samples || (o.monitor.kind@ == "heartbeat"@ && o.monitor.last_ping_at is Some)
}

/// A monitor counts in the day's fleet figures.
pub open spec fn included(o: Observed) -> bool {
    !o.monitor.is_paused && has_data(o)
}

/// Which monitors of a list count.
pub open spec fn inclusion(list: Seq<Observed>) -> Seq<bool> {
    list.map_values(|o: Observed| included(o))
}

fn includes(o: &Observed) -> (r: bool)
    ensures
        r == included(*o),
{
    if o.monitor.is_paused {
        return false;
    }
    let armed = match o.monitor.last_ping_at {
        Some(_) => true,
        None => false,
    };
    o.has_samples || (text::same(o.monitor.kind.as_str(), "heartbeat") && armed)
}

fn include_all(list: &Vec<Observed>) -> (r: Vec<bool>)
    ensures
        r@ == inclusion(list@),
{
    let mut r: Vec<bool> = Vec::new();
    let mut i: usize = 0;
    while i < list.len()
        invariant
            i <= list@.len(),
            r@ =~= inclusion(list@.take(i as int)),
        decreases list@.len() - i,
    {
        r.push(includes(&list[i]));
        i += 1;
    }
    assert(list@.take(list@.len() as int) =~= list@);
    r
}

/// `d` is the entry of a stored incident.
pub open spec fn entry_of(d: DigestIncident, i: NamedIncident) -> bool {
    &&& d.monitor_name@ == i.monitor_name@
    &&& d.started_at == i.started_at
    &&& d.resolved_at == i.resolved_at
    &&& (d.duration_seconds is Some <==> i.resolved_at is Some)
    &&& (d.duration_seconds matches Some(s) ==> s == i.resolved_at->0 - i.started_at)
    &&& text::view_opt(d.cause) == text::view_opt(i.cause)
    &&& d.status_code == i.status_code
    &&& text::view_opt(d.error_message) == text::view_opt(i.error_message)
}

/// The duration of an incident fits its field.
pub open spec fn measurable(i: NamedIncident) -> bool {
    i.resolved_at matches Some(r) ==> i64::MIN <= r - i.started_at <= i64::MAX
}

fn entries(rows: &Vec<NamedIncident>) -> (r: Vec<DigestIncident>)
    requires
        forall|i: int| 0 <= i < rows@.len() ==> measurable(#[trigger] rows@[i]),
    ensures
        r@.len() == rows@.len(),
        forall|i: int| 0 <= i < r@.len() ==> entry_of(#[trigger] r@[i], rows@[i]),
{
    let mut r: Vec<DigestIncident> = Vec::new();
    let mut i: usize = 0;
    while i < rows.len()
        invariant
            i <= rows@.len(),
            r@.len() == i,
            forall|k: int| 0 <= k < rows@.len() ==> measurable(#[trigger] rows@[k]),
            forall|k: int| 0 <= k < r@.len() ==> entry_of(#[trigger] r@[k], rows@[k]),
        decreases rows@.len() - i,
    {
        let row = &rows[i];
        assert(measurable(rows@[i as int]));
        let duration_seconds: Option<i64> = match row.resolved_at {
            Some(t) => Some(t - row.started_at),
            None => None,
        };
        let e = DigestIncident {
            monitor_name: text::own(row.monitor_name.as_str()),
            started_at: row.started_at,
            resolved_at: row.resolved_at,
            duration_seconds,
            cause: own_opt(&row.cause),
            status_code: row.status_code,
            error_message: own_opt(&row.error_message),
        };
        assert(entry_of(e, rows@[i as int]));
        r.push(e);
        i += 1;
    }
    r
}

/// `v` names the monitors that are down, each with its start.
pub open spec fn down_list(v: Seq<DigestDown>, rows: Seq<(String, i64)>) -> bool {
    &&& v.len() == rows.len()
    &&& forall|i: int|
        0 <= i < v.len() ==> (#[trigger] v[i]).monitor_name@ == rows[i].0@ && v[i].since
            == rows[i].1
}

fn downs(rows: &Vec<(String, i64)>) -> (r: Vec<DigestDown>)
    ensures
        down_list(r@, rows@),
{
    let mut r: Vec<DigestDown> = Vec::new();
    let mut i: usize = 0;
    while i < rows.len()
        invariant
            i <= rows@.len(),
            down_list(r@, rows@.take(i as int)),
        decreases rows@.len() - i,
    {
        let row = &rows[i];
        r.push(DigestDown { monitor_name: text::own(row.0.as_str()), since: row.1 });
        assert(rows@.take(i + 1).drop_last() =~= rows@.take(i as int));
        assert forall|k: int| 0 <= k < r@.len() implies (#[trigger] r@[k]).monitor_name@
            == rows@.take(i + 1)[k].0@ && r@[k].since == rows@.take(i + 1)[k].1 by {
            if k < i {
                assert(rows@.take(i + 1)[k] == rows@.take(i as int)[k]);
            }
        }
        i += 1;
    }
    assert(rows@.take(rows@.len() as int) =~= rows@);
    r
}

impl View for DigestExpiration {
    type V = fleet::Expiry;

    open spec fn view(&self) -> fleet::Expiry {
        (self.monitor_name@, self.kind@, self.days_remaining, self.flag@)
    }
}

/// The contents of a list of expirations.
pub open spec fn expiries(v: Seq<DigestExpiration>) -> Seq<fleet::Expiry> {
    v.map_values(|e: DigestExpiration| e@)
}

/// The items that need attention.
pub open spec fn urgent(v: Seq<fleet::Expiry>) -> Seq<fleet::Expiry>
    decreases v.len(),
{
    if v.len() == 0 {
        Seq::empty()
    } else if v.last().3 == "ok"@ {
        urgent(v.drop_last())
    } else {
        urgent(v.drop_last()).push(v.last())
    }
}

fn urgent_items(list: &Vec<Observed>) -> (r: Vec<DigestExpiration>)
    ensures
        expiries(r@) == urgent(fleet::outlook(list@)),
{
    let all = fleet::expirations(list);
    let ghost items = fleet::expiries(all@);
    let mut r: Vec<DigestExpiration> = Vec::new();
    let mut i: usize = 0;
    assert(expiries(r@) =~= urgent(items.take(0)));
    while i < all.len()
        invariant
            i <= all@.len(),
            items == fleet::expiries(all@),
            expiries(r@) == urgent(items.take(i as int)),
        decreases all@.len() - i,
    {
        let e = &all[i];
        let ghost before = expiries(r@);
        assert(items.take(i + 1).drop_last() =~= items.take(i as int));
        assert(items.take(i + 1).last() == e@);
        if !text::same(e.flag.as_str(), "ok") {
            r.push(
                DigestExpiration {
                    monitor_name: text::own(e.monitor.as_str()),
                    kind: text::own(e.kind.as_str()),
                    days_remaining: e.days_remaining,
                    flag: text::own(e.flag.as_str()),
                },
            );
            assert(expiries(r@) =~= before.push(e@));
        }
        i += 1;
    }
    assert(items.take(items.len() as int) =~= items);
    r
}

/// `s` is the digest of a day over `ds..de`.
pub open spec fn digests(
    s: DigestSummary,
    day: Seq<char>,
    ds: int,
    de: int,
    list: Seq<Observed>,
    windows: Seq<MaintenanceWindow>,
    rows: Seq<NamedIncident>,
    down: Seq<(String, i64)>,
) -> bool {
    let v = fleet::measures(list, inclusion(list), windows, ds, de);
    &&& s.day@ == day
    &&& (s.fleet.uptime_pct is Some <==> fleet::time_sum(v) > 0)
    &&& (s.fleet.uptime_pct matches Some(share) ==> share.down == fleet::down_sum(v)
        && share.total == fleet::time_sum(v))
    &&& s.fleet.monitors_total == list.len()
    &&& s.fleet.clean_monitors == fleet::without_downtime(v)
    &&& s.fleet.incidents == rows.len()
    &&& s.fleet.downtime_seconds == fleet::down_sum(v)
    &&& s.incidents@.len() == rows.len()
    &&& forall|i: int| 0 <= i < rows.len() ==> entry_of(#[trigger] s.incidents@[i], rows[i])
    &&& down_list(s.currently_down@, down)
    &&& expiries(s.expirations@) == urgent(fleet::outlook(list))
}

/// Builds the digest of a completed day from the monitors, the incidents that touch the day, and
/// the monitors that are down now.
///
/// Paused monitors and monitors without data stay out of the fleet's figures. Maintenance counts
/// neither as downtime nor as measured time.
pub fn build(
    day: &str,
    list: &Vec<Observed>,
    windows: &[MaintenanceWindow],
    rows: &Vec<NamedIncident>,
    down: &Vec<(String, i64)>,
) -> (r: DigestSummary)
    requires
        fleet::addable(
            list@,
            windows@,
            rollup::day_start(day@),
            rollup::day_start(day@) + 86400,
        ),
        rows@.len() <= i64::MAX,
        forall|i: int| 0 <= i < rows@.len() ==> measurable(#[trigger] rows@[i]),
    ensures
        digests(
            r,
            day@,
            rollup::day_start(day@),
            rollup::day_start(day@) + 86400,
            list@,
            windows@,
            rows@,
            down@,
        ),
{
    let (ds, de) = rollup::day_bounds(day);
    let included = include_all(list);
    let (_, totals) = fleet::tally(list, &included, windows, ds, de);
    let incidents = entries(rows);
    let currently_down = downs(down);
    let expirations = urgent_items(list);
    DigestSummary {
        day: text::own(day),
        fleet: FleetSummary {
            uptime_pct: totals.share(),
            monitors_total: list.len() as i64,
            clean_monitors: totals.without_downtime,
            incidents: rows.len() as i64,
            downtime_seconds: totals.down,
        },
        incidents,
        currently_down,
        expirations,
    }
}

fn all_measurable(rows: &Vec<NamedIncident>) -> (r: bool)
    ensures
        r == forall|i: int| 0 <= i < rows@.len() ==> measurable(#[trigger] rows@[i]),
{
    let mut i: usize = 0;
    while i < rows.len()
        invariant
            i <= rows@.len(),
            forall|k: int| 0 <= k < i ==> measurable(#[trigger] rows@[k]),
        decreases rows@.len() - i,
    {
        if let Some(t) = rows[i].resolved_at {
            let d: i128 = t as i128 - rows[i].started_at as i128;
            if d < i64::MIN as i128 || d > i64::MAX as i128 {
                assert(!measurable(rows@[i as int]));
                return false;
            }
        }
        i += 1;
    }
    true
}

/// [`build`], where the day's figures stay within 64 bits and its maintenance windows off the
/// edges of the calendar; `None` where they do not.
pub fn try_build(
    day: &str,
    list: &Vec<Observed>,
    windows: &[MaintenanceWindow],
    rows: &Vec<NamedIncident>,
    down: &Vec<(String, i64)>,
) -> (r: Option<DigestSummary>)
    ensures
        r is Some <==> {
            &&& fleet::addable(
                list@,
                windows@,
                rollup::day_start(day@),
                rollup::day_start(day@) + 86400,
            )
            &&& rows@.len() <= i64::MAX
            &&& forall|i: int| 0 <= i < rows@.len() ==> measurable(#[trigger] rows@[i])
        },
        r matches Some(s) ==> digests(
            s,
            day@,
            rollup::day_start(day@),
            rollup::day_start(day@) + 86400,
            list@,
            windows@,
            rows@,
            down@,
        ),
{
    let (ds, de) = rollup::day_bounds(day);
    if fleet::can_add(list, windows, ds, de) && rows.len() as u128 <= i64::MAX as u128
        && all_measurable(rows) {
        Some(build(day, list, windows, rows, down))
    } else {
        None
    }
}

// ---- when ----

/// A number of a range, read from a text.
pub open spec fn part(s: Seq<char>, limit: int) -> Option<int> {
    match text::signed(s, i64::MIN as int, i64::MAX as int) {
        Some(n) => if 0 <= n < limit {
            Some(n)
        } else {
            None
        },
        None => None,
    }
}

/// Seconds into the day of a time of day; eight o'clock where the text is none.
pub open spec fn time_of_day(s: Seq<char>) -> int {
    let parts = text::split(s, ':');
    if parts.len() == 2 && part(parts[0], 24) is Some && part(parts[1], 60) is Some {
        part(parts[0], 24)->0 * 3600 + part(parts[1], 60)->0 * 60
    } else {
        28800
    }
}

/// Reads a number below `limit` that is not negative.
pub fn read_part(s: &str, limit: i64) -> (r: Option<i64>)
    ensures
        r is Some <==> part(s@, limit as int) is Some,
        r matches Some(n) ==> part(s@, limit as int) == Some(n as int) && 0 <= n < limit,
{
    match text::parse_i64(s) {
        Some(n) => if 0 <= n && n < limit {
            Some(n)
        } else {
            None
        },
        None => None,
    }
}

/// Reads `HH:MM` in UTC as seconds into the day; anything else reads as 08:00.
pub fn parse_digest_time(s: &str) -> (r: i64)
    ensures
        r == time_of_day(s@),
        0 <= r < 86400,
{
    let parts = text::split_on(s, ':');
    if parts.len() == 2 {
        assert(parts@[0]@ == text::split(s@, ':')[0]);
        assert(parts@[1]@ == text::split(s@, ':')[1]);
        let h = read_part(parts[0].as_str(), 24);
        let m = read_part(parts[1].as_str(), 60);
        if let (Some(h), Some(m)) = (h, m) {
            return h * 3600 + m * 60;
        }
    }
    8 * 3600
}

/// The digest fires: the day's instant has passed, and the day has not been sent.
pub open spec fn fires(now: int, today: Seq<char>, last: Seq<char>, offset: int) -> bool {
    now >= rollup::day_start(today) + offset && text::at_most(last, today) && last != today
}

/// Whether a digest is due: `now` has passed today's instant, and the last day that was sent
/// comes before today.
pub fn should_send(now_ts: i64, today: &str, last_sent_day: &str, fire_offset: i64) -> (r: bool)
    ensures
        r == fires(now_ts as int, today@, last_sent_day@, fire_offset as int),
{
    let (today_start, _) = rollup::day_bounds(today);
    now_ts as i128 >= today_start as i128 + fire_offset as i128 && text::precedes(
        last_sent_day,
        today,
    ) && !text::same(last_sent_day, today)
}

/// What came of sending a digest.
#[derive(Clone, Copy, Debug, PartialEq, Eq, Structural)]
pub enum SendOutcome {
    Delivered,
    NothingToSend,
    AllFailed,
}

/// The log entry of a digest that nobody could receive.
pub const NO_RECIPIENTS: &'static str = "no deliverable email recipients";

/// The addressed channels that can be delivered to: those with a configuration, in order.
pub open spec fn reachable(ids: Seq<i64>, configs: Seq<Option<String>>) -> Seq<(i64, Seq<char>)>
    decreases ids.len(),
{
    if ids.len() == 0 || configs.len() != ids.len() {
        Seq::empty()
    } else {
        let rest = reachable(ids.drop_last(), configs.drop_last());
        match configs.last() {
            Some(c) => rest.push((ids.last(), c@)),
            None => rest,
        }
    }
}

/// The contents of a list of channels.
pub open spec fn channels(v: Seq<(i64, String)>) -> Seq<(i64, Seq<char>)> {
    v.map_values(|c: (i64, String)| (c.0, c.1@))
}

/// Keeps the addressed channels that have a configuration: the active email channels among them.
pub fn recipients(ids: &Vec<i64>, configs: &Vec<Option<String>>) -> (r: Vec<(i64, String)>)
    requires
        configs@.len() == ids@.len(),
    ensures
        channels(r@) == reachable(ids@, configs@),
{
    let mut r: Vec<(i64, String)> = Vec::new();
    let mut i: usize = 0;
    assert(channels(r@) =~= reachable(ids@.take(0), configs@.take(0)));
    while i < ids.len()
        invariant
            i <= ids@.len(),
            configs@.len() == ids@.len(),
            channels(r@) == reachable(ids@.take(i as int), configs@.take(i as int)),
        decreases ids@.len() - i,
    {
        let ghost before = channels(r@);
        assert(ids@.take(i + 1).drop_last() =~= ids@.take(i as int));
        assert(configs@.take(i + 1).drop_last() =~= configs@.take(i as int));
        if let Some(c) = &configs[i] {
            r.push((ids[i], text::own(c.as_str())));
            assert(channels(r@) =~= before.push((ids@[i as int], c@)));
        }
        i += 1;
    }
    assert(ids@.take(ids@.len() as int) =~= ids@);
    assert(configs@.take(configs@.len() as int) =~= configs@);
    r
}

/// The outcome of sending to channels, one result for each.
pub open spec fn sent(results: Seq<bool>, r: SendOutcome) -> bool {
    &&& r == (if results.len() == 0 {
        SendOutcome::NothingToSend
    } else if results.contains(true) {
        SendOutcome::Delivered
    } else {
        SendOutcome::AllFailed
    })
}

/// What came of sending to each channel: one success is a delivery.
pub fn outcome(results: &Vec<bool>) -> (r: SendOutcome)
    ensures
        sent(results@, r),
{
    if results.len() == 0 {
        return SendOutcome::NothingToSend;
    }
    let mut i: usize = 0;
    while i < results.len()
        invariant
            i <= results@.len(),
            forall|k: int| 0 <= k < i ==> !#[trigger] results@[k],
        decreases results@.len() - i,
    {
        if results[i] {
            assert(results@[i as int]);
            return SendOutcome::Delivered;
        }
        i += 1;
    }
    SendOutcome::AllFailed
}

/// `r` is the marker to store on an instance.
pub open spec fn is_seed(existing: Option<String>, now: int, r: Option<String>) -> bool {
    &&& text::view_opt(r) == (match existing {
        Some(_) => None,
        None => Some(rollup::day_at(now)),
    })
}

/// The marker to store on an instance that has none: today, so that no day before the instance
/// existed is sent.
pub fn seed_marker_if_absent(existing: &Option<String>, now: Ts) -> (r: Option<String>)
    ensures
        is_seed(*existing, now as int, r),
{
    match existing {
        Some(_) => None,
        None => Some(rollup::day_str(now)),
    }
}

/// The days of a digest that is due: the day that sends it, and the day that it covers.
#[derive(Clone, Debug)]
pub struct DigestDays {
    pub today: String,
    pub yesterday: String,
}

/// `r` is the days of the digest that is due at `now`, if one is.
pub open spec fn is_tick(now: int, last: Seq<char>, time: Seq<char>, r: Option<DigestDays>) -> bool {
    &&& r is Some <==> fires(now, rollup::day_at(now), last, time_of_day(time))
    &&& r matches Some(d) ==> d.today@ == rollup::day_at(now) && d.yesterday@ == rollup::day_at(
        now - 86400,
    )
}

/// Decides at `now` whether a digest is due, and for which day, from the last day that was sent
/// and the configured time.
pub fn tick_once(now: Ts, last: &str, time: &str) -> (r: Option<DigestDays>)
    requires
        now - 86400 >= i64::MIN,
    ensures
        is_tick(now as int, last@, time@, r),
{
    let today = rollup::day_str(now);
    let offset = parse_digest_time(time);
    if !should_send(now, today.as_str(), last, offset) {
        return None;
    }
    Some(DigestDays { today, yesterday: rollup::day_str(now - 86_400) })
}

/// The marker after a digest: the day itself where it was delivered or nobody was to receive it;
/// otherwise the marker stays, and the next tick tries again.
pub open spec fn marker_after(outcome: SendOutcome, today: Seq<char>, marker: Seq<char>) -> Seq<
    char,
> {
    if outcome == SendOutcome::AllFailed {
        marker
    } else {
        today
    }
}

/// The marker to keep after a digest came to `outcome`.
pub fn advance_marker(outcome: SendOutcome, today: &str, marker: &str) -> (r: String)
    ensures
        r@ == marker_after(outcome, today@, marker@),
{
    match outcome {
        SendOutcome::AllFailed => text::own(marker),
        _ => text::own(today),
    }
}

/// A day's digest goes out once: after one that was delivered, or that nobody was to receive,
/// none is due for the rest of the day, whatever the configured time becomes.
pub proof fn law_one_digest_a_day(
    outcome: SendOutcome,
    today: Seq<char>,
    marker: Seq<char>,
    later: int,
    offset: int,
)
    requires
        outcome != SendOutcome::AllFailed,
    ensures
        !fires(later, today, marker_after(outcome, today, marker), offset),
{
}

/// A digest that reached nobody stays due for the rest of the day.
pub proof fn law_failed_digest_stays_due(
    today: Seq<char>,
    marker: Seq<char>,
    now: int,
    later: int,
    offset: int,
)
    requires
        fires(now, today, marker, offset),
        now <= later,
    ensures
        fires(later, today, marker_after(SendOutcome::AllFailed, today, marker), offset),
{
}

// ---- the message ----

/// An uptime in hundredths of a percent, as it is shown.
pub open spec fn shown_pct(hundredths: Option<i64>, other: Seq<char>) -> Seq<char> {
    match hundredths {
        Some(h) => numbers::fixed2(h as int) + "%"@,
        None => other,
    }
}

/// Shows an uptime in hundredths of a percent.
pub fn show_pct(hundredths: Option<i64>, other: &str) -> (r: String)
    ensures
        r@ == shown_pct(hundredths, other@),
{
    match hundredths {
        Some(h) => {
            let mut s = numbers::fixed2_text(h);
            s.append("%");
            s
        },
        None => text::own(other),
    }
}

/// A timestamp as messages show it.
pub fn fmt_ts(at: i64) -> (r: String)
    ensures
        r@ == text::dec(at as int),
{
    text::int_text(at)
}

/// A number with its unit, or another text where there is none.
pub open spec fn with_unit(n: Option<i64>, unit: Seq<char>, other: Seq<char>) -> Seq<char> {
    match n {
        Some(v) => text::dec(v as int) + unit,
        None => other,
    }
}

/// Writes a number with its unit, or another text where there is none.
pub fn unit_text(n: Option<i64>, unit: &str, other: &str) -> (r: String)
    ensures
        r@ == with_unit(n, unit@, other@),
{
    match n {
        Some(v) => {
            let mut s = text::int_text(v);
            s.append(unit);
            s
        },
        None => text::own(other),
    }
}

/// The line of an incident.
pub open spec fn incident_line(i: DigestIncident) -> Seq<char> {
    "  - "@ + i.monitor_name@ + " | started "@ + text::dec(i.started_at as int) + " | "@
        + with_unit(i.duration_seconds, "s"@, "ongoing"@) + " | "@ + notify::text_or(i.cause, "-"@)
        + "\n"@
}

/// The lines of a list of incidents.
pub open spec fn incident_lines(v: Seq<DigestIncident>) -> Seq<char>
    decreases v.len(),
{
    if v.len() == 0 {
        Seq::empty()
    } else {
        incident_lines(v.drop_last()) + incident_line(v.last())
    }
}

/// The line of a monitor that is down.
pub open spec fn down_line(d: DigestDown) -> Seq<char> {
    "  - "@ + d.monitor_name@ + " (since "@ + text::dec(d.since as int) + ")\n"@
}

/// The lines of the monitors that are down.
pub open spec fn down_lines(v: Seq<DigestDown>) -> Seq<char>
    decreases v.len(),
{
    if v.len() == 0 {
        Seq::empty()
    } else {
        down_lines(v.drop_last()) + down_line(v.last())
    }
}

/// The line of an expiration.
pub open spec fn expiration_line(e: DigestExpiration) -> Seq<char> {
    "  - "@ + e.monitor_name@ + " "@ + e.kind@ + " ["@ + e.flag@ + "] "@ + with_unit(
        e.days_remaining,
        "d"@,
        "unknown"@,
    ) + "\n"@
}

/// The lines of the expirations.
pub open spec fn expiration_lines(v: Seq<DigestExpiration>) -> Seq<char>
    decreases v.len(),
{
    if v.len() == 0 {
        Seq::empty()
    } else {
        expiration_lines(v.drop_last()) + expiration_line(v.last())
    }
}

/// The subject of a digest.
pub open spec fn digest_subject(s: DigestSummary, uptime: Option<i64>) -> Seq<char> {
    "Vigil daily digest — "@ + s.day@ + " — "@ + shown_pct(uptime, "n/a"@) + " uptime"@
}

/// The figures at the top of a digest.
pub open spec fn digest_head(s: DigestSummary, uptime: Option<i64>) -> Seq<char> {
    "Vigil daily digest for "@ + s.day@ + " (UTC)\n\n"@ + "Fleet uptime: "@ + shown_pct(
        uptime,
        "n/a"@,
    ) + "\nMonitors: "@ + text::dec(s.fleet.monitors_total as int) + " ("@ + text::dec(
        s.fleet.clean_monitors as int,
    ) + " clean)\nIncidents: "@ + text::dec(s.fleet.incidents as int) + "\nTotal downtime: "@
        + text::dec(s.fleet.downtime_seconds as int) + "s\n\n"@
}

/// The body of a digest: the figures, the incidents, and, where there are any, what is down and
/// what expires.
pub open spec fn digest_body(s: DigestSummary, uptime: Option<i64>) -> Seq<char> {
    digest_head(s, uptime) + (if s.incidents@.len() == 0 {
        "No incidents.\n"@
    } else {
        "Incidents:\n"@ + incident_lines(s.incidents@)
    }) + (if s.currently_down@.len() == 0 {
        Seq::empty()
    } else {
        "\nCurrently down:\n"@ + down_lines(s.currently_down@)
    }) + (if s.expirations@.len() == 0 {
        Seq::empty()
    } else {
        "\nUpcoming expirations:\n"@ + expiration_lines(s.expirations@)
    })
}

fn add_incident(body: &mut String, i: &DigestIncident)
    ensures
        final(body)@ == old(body)@ + incident_line(*i),
{
    let ghost before = body@;
    let started = text::int_text(i.started_at);
    let took = unit_text(i.duration_seconds, "s", "ongoing");
    let cause = notify::own_or(&i.cause, "-");
    body.append("  - ");
    body.append(i.monitor_name.as_str());
    body.append(" | started ");
    body.append(started.as_str());
    body.append(" | ");
    body.append(took.as_str());
    body.append(" | ");
    body.append(cause.as_str());
    body.append("\n");
    assert(body@ =~= before + incident_line(*i));
}

fn add_down(body: &mut String, d: &DigestDown)
    ensures
        final(body)@ == old(body)@ + down_line(*d),
{
    let ghost before = body@;
    let since = text::int_text(d.since);
    body.append("  - ");
    body.append(d.monitor_name.as_str());
    body.append(" (since ");
    body.append(since.as_str());
    body.append(")\n");
    assert(body@ =~= before + down_line(*d));
}

fn add_expiration(body: &mut String, e: &DigestExpiration)
    ensures
        final(body)@ == old(body)@ + expiration_line(*e),
{
    let ghost before = body@;
    let days = unit_text(e.days_remaining, "d", "unknown");
    body.append("  - ");
    body.append(e.monitor_name.as_str());
    body.append(" ");
    body.append(e.kind.as_str());
    body.append(" [");
    body.append(e.flag.as_str());
    body.append("] ");
    body.append(days.as_str());
    body.append("\n");
    assert(body@ =~= before + expiration_line(*e));
}

fn write_head(s: &DigestSummary, uptime: Option<i64>) -> (r: String)
    ensures
        r@ == digest_head(*s, uptime),
{
    let shown = show_pct(uptime, "n/a");
    let total = text::int_text(s.fleet.monitors_total);
    let clean = text::int_text(s.fleet.clean_monitors);
    let incidents = text::int_text(s.fleet.incidents);
    let downtime = text::int_text(s.fleet.downtime_seconds);
    let mut body = text::own("Vigil daily digest for ");
    body.append(s.day.as_str());
    body.append(" (UTC)\n\n");
    body.append("Fleet uptime: ");
    body.append(shown.as_str());
    body.append("\nMonitors: ");
    body.append(total.as_str());
    body.append(" (");
    body.append(clean.as_str());
    body.append(" clean)\nIncidents: ");
    body.append(incidents.as_str());
    body.append("\nTotal downtime: ");
    body.append(downtime.as_str());
    body.append("s\n\n");
    assert(body@ =~= digest_head(*s, uptime));
    body
}

fn write_incidents(body: &mut String, v: &Vec<DigestIncident>)
    ensures
        final(body)@ == old(body)@ + incident_lines(v@),
{
    let ghost before = body@;
    let mut i: usize = 0;
    assert(before + incident_lines(v@.take(0)) =~= before);
    while i < v.len()
        invariant
            i <= v@.len(),
            body@ == before + incident_lines(v@.take(i as int)),
        decreases v@.len() - i,
    {
        assert(v@.take(i + 1).drop_last() =~= v@.take(i as int));
        add_incident(body, &v[i]);
        assert(body@ =~= before + incident_lines(v@.take(i + 1)));
        i += 1;
    }
    assert(v@.take(v@.len() as int) =~= v@);
}

fn write_downs(body: &mut String, v: &Vec<DigestDown>)
    ensures
        final(body)@ == old(body)@ + down_lines(v@),
{
    let ghost before = body@;
    let mut i: usize = 0;
    assert(before + down_lines(v@.take(0)) =~= before);
    while i < v.len()
        invariant
            i <= v@.len(),
            body@ == before + down_lines(v@.take(i as int)),
        decreases v@.len() - i,
    {
        assert(v@.take(i + 1).drop_last() =~= v@.take(i as int));
        add_down(body, &v[i]);
        assert(body@ =~= before + down_lines(v@.take(i + 1)));
        i += 1;
    }
    assert(v@.take(v@.len() as int) =~= v@);
}

fn write_expirations(body: &mut String, v: &Vec<DigestExpiration>)
    ensures
        final(body)@ == old(body)@ + expiration_lines(v@),
{
    let ghost before = body@;
    let mut i: usize = 0;
    assert(before + expiration_lines(v@.take(0)) =~= before);
    while i < v.len()
        invariant
            i <= v@.len(),
            body@ == before + expiration_lines(v@.take(i as int)),
        decreases v@.len() - i,
    {
        assert(v@.take(i + 1).drop_last() =~= v@.take(i as int));
        add_expiration(body, &v[i]);
        assert(body@ =~= before + expiration_lines(v@.take(i + 1)));
        i += 1;
    }
    assert(v@.take(v@.len() as int) =~= v@);
}

/// `r` is a digest as a message: its subject and its body.
pub open spec fn is_rendered(r: (String, String), s: DigestSummary, uptime: Option<i64>) -> bool {
    &&& r.0@ == digest_subject(s, uptime)
    &&& r.1@ == digest_body(s, uptime)
}

/// Writes a digest as a plain-text message: its subject and its body. The fleet's uptime comes in
/// hundredths of a percent.
pub fn render_digest(s: &DigestSummary, uptime: Option<i64>) -> (r: (String, String))
    ensures
        is_rendered(r, *s, uptime),
{
    let shown = show_pct(uptime, "n/a");
    let mut subject = text::own("Vigil daily digest — ");
    subject.append(s.day.as_str());
    subject.append(" — ");
    subject.append(shown.as_str());
    subject.append(" uptime");
    assert(subject@ =~= digest_subject(*s, uptime));
    let mut body = write_head(s, uptime);
    if s.incidents.len() == 0 {
        body.append("No incidents.\n");
    } else {
        body.append("Incidents:\n");
        write_incidents(&mut body, &s.incidents);
    }
    if s.currently_down.len() > 0 {
        body.append("\nCurrently down:\n");
        write_downs(&mut body, &s.currently_down);
    }
    if s.expirations.len() > 0 {
        body.append("\nUpcoming expirations:\n");
        write_expirations(&mut body, &s.expirations);
    }
    assert(body@ =~= digest_body(*s, uptime));
    (subject, body)
}

/// How one more monitor changes a digest: one that is not paused and has data, by a check or by a
/// first ping, adds its own downtime and its own measured time to the fleet's, and counts as clean
/// where it was never down; any other adds to the number of monitors alone.
pub proof fn law_digest_adds_monitors_up(
    s: DigestSummary,
    next: DigestSummary,
    day: Seq<char>,
    ds: int,
    de: int,
    list: Seq<Observed>,
    o: Observed,
    windows: Seq<MaintenanceWindow>,
    rows: Seq<NamedIncident>,
    down: Seq<(String, i64)>,
)
    requires
        digests(s, day, ds, de, list, windows, rows, down),
        digests(next, day, ds, de, list.push(o), windows, rows, down),
        ds <= de,
    ensures
        ({
            let counted = !o.monitor.is_paused && (o.has_samples || (o.monitor.kind@ == "heartbeat"@
                && o.monitor.last_ping_at is Some));
            let own = fleet::figures(o, windows, ds, de);
            let total = match s.fleet.uptime_pct {
                Some(share) => share.total as int,
                None => 0,
            };
            let after = match next.fleet.uptime_pct {
                Some(share) => share.total as int,
                None => 0,
            };
            &&& next.fleet.monitors_total == s.fleet.monitors_total + 1
            &&& counted ==> next.fleet.downtime_seconds == s.fleet.downtime_seconds + own.0
            &&& counted ==> after == total + own.1
            &&& counted ==> next.fleet.clean_monitors == s.fleet.clean_monitors + if own.0 == 0 {
                1int
            } else {
                0
            }
            &&& !counted ==> next.fleet.downtime_seconds == s.fleet.downtime_seconds
            &&& !counted ==> after == total
            &&& !counted ==> next.fleet.clean_monitors == s.fleet.clean_monitors
        }),
{
    let v = fleet::measures(list, inclusion(list), windows, ds, de);
    let w = fleet::measures(list.push(o), inclusion(list.push(o)), windows, ds, de);
    assert(w.drop_last() =~= v);
    lemma_measured_time(list, windows, ds, de);
    lemma_measured_time(list.push(o), windows, ds, de);
}

proof fn lemma_measured_time(
    list: Seq<Observed>,
    windows: Seq<MaintenanceWindow>,
    ds: int,
    de: int,
)
    requires
        ds <= de,
    ensures
        fleet::time_sum(fleet::measures(list, inclusion(list), windows, ds, de)) >= 0,
        fleet::down_sum(fleet::measures(list, inclusion(list), windows, ds, de)) >= 0,
    decreases list.len(),
{
    if list.len() > 0 {
        let v = fleet::measures(list, inclusion(list), windows, ds, de);
        lemma_measured_time(list.drop_last(), windows, ds, de);
        assert(fleet::measures(list.drop_last(), inclusion(list.drop_last()), windows, ds, de)
            =~= v.drop_last());
        fleet::law_figures_are_bounded(list.last(), windows, ds, de);
    }
}

/// A digest of no monitors has no uptime and no downtime; one of any monitors has an uptime exactly
/// where time was measured, whose downtime is the fleet's, and without maintenance its measured time
/// is the day once for every monitor that counts.
pub proof fn law_digest_share(
    s: DigestSummary,
    day: Seq<char>,
    ds: int,
    de: int,
    list: Seq<Observed>,
    windows: Seq<MaintenanceWindow>,
    rows: Seq<NamedIncident>,
    down: Seq<(String, i64)>,
)
    requires
        digests(s, day, ds, de, list, windows, rows, down),
        ds <= de,
    ensures
        list.len() == 0 ==> s.fleet.uptime_pct is None && s.fleet.downtime_seconds == 0
            && s.fleet.clean_monitors == 0 && s.fleet.monitors_total == 0,
        s.fleet.uptime_pct matches Some(share) ==> share.down == s.fleet.downtime_seconds
            && share.total > 0,
        s.fleet.uptime_pct is None && windows.len() == 0 && ds < de ==> forall|i: int|
            0 <= i < list.len() ==> (#[trigger] list[i]).monitor.is_paused || !has_data(list[i]),
        windows.len() == 0 ==> (s.fleet.uptime_pct matches Some(share) ==> share.total
            == fleet::reporting(fleet::measures(list, inclusion(list), windows, ds, de)) * (de
            - ds)),
        s.day@ == day,
        s.fleet.incidents == rows.len(),
        s.fleet.monitors_total == list.len(),
{
    let v = fleet::measures(list, inclusion(list), windows, ds, de);
    if windows.len() == 0 {
        assert(windows =~= Seq::empty());
        fleet::law_every_reporting_monitor_counts_in_full(list, inclusion(list), ds, de);
        if s.fleet.uptime_pct is None && ds < de {
            assert forall|i: int| 0 <= i < list.len() implies (
            #[trigger] list[i]).monitor.is_paused || !has_data(list[i]) by {
                if included(list[i]) {
                    fleet::law_figures_without_maintenance(list, inclusion(list), ds, de, i);
                    lemma_reports(v, i);
                    let k = fleet::reporting(v);
                    assert(k * (de - ds) > 0) by (nonlinear_arith)
                        requires
                            k >= 1,
                            de > ds,
                    ;
                }
            }
        }
    }
}

proof fn lemma_reports(v: Seq<Option<(int, int)>>, i: int)
    requires
        0 <= i < v.len(),
        v[i] is Some,
    ensures
        fleet::reporting(v) >= 1,
    decreases v.len(),
{
    if i < v.len() - 1 {
        lemma_reports(v.drop_last(), i);
    } else {
        lemma_reporting_is_natural(v.drop_last());
    }
}

proof fn lemma_reporting_is_natural(v: Seq<Option<(int, int)>>)
    ensures
        fleet::reporting(v) >= 0,
    decreases v.len(),
{
    if v.len() > 0 {
        lemma_reporting_is_natural(v.drop_last());
    }
}

/// A monitor has data for a day by a check of any kind, and a heartbeat monitor also by a first ping;
/// what it is paused for or how it stands does not matter to that.
pub proof fn law_who_has_data(o: Observed)
    ensures
        o.has_samples ==> has_data(o),
        o.monitor.kind@ == "heartbeat"@ && o.monitor.last_ping_at is Some ==> has_data(o),
        !o.has_samples && o.monitor.last_ping_at is None ==> !has_data(o),
        !o.has_samples && o.monitor.kind@ != "heartbeat"@ ==> !has_data(o),
        included(o) <==> has_data(o) && !o.monitor.is_paused,
{
}

/// A digest lists every incident of the day with what is stored of it, and how long it took where it
/// is over; and every monitor that is down now with since when.
pub proof fn law_digest_lists_what_happened(
    s: DigestSummary,
    day: Seq<char>,
    ds: int,
    de: int,
    list: Seq<Observed>,
    windows: Seq<MaintenanceWindow>,
    rows: Seq<NamedIncident>,
    down: Seq<(String, i64)>,
    i: int,
)
    requires
        digests(s, day, ds, de, list, windows, rows, down),
    ensures
        s.incidents@.len() == rows.len(),
        s.currently_down@.len() == down.len(),
        0 <= i < rows.len() ==> {
            let e = s.incidents@[i];
            &&& e.monitor_name@ == rows[i].monitor_name@
            &&& e.started_at == rows[i].started_at
            &&& e.resolved_at == rows[i].resolved_at
            &&& e.status_code == rows[i].status_code
            &&& (e.cause is Some <==> rows[i].cause is Some)
            &&& (e.cause matches Some(c) ==> c@ == rows[i].cause->0@)
            &&& (e.error_message is Some <==> rows[i].error_message is Some)
            &&& (e.error_message matches Some(m) ==> m@ == rows[i].error_message->0@)
            &&& (e.duration_seconds is None <==> rows[i].resolved_at is None)
            &&& (e.duration_seconds matches Some(d) ==> rows[i].started_at + d
                == rows[i].resolved_at->0)
        },
        0 <= i < down.len() ==> s.currently_down@[i].monitor_name@ == down[i].0@
            && s.currently_down@[i].since == down[i].1,
{
    if 0 <= i < rows.len() {
        assert(entry_of(s.incidents@[i], rows[i]));
    }
}

/// The items that need attention are those that are not in order, and only those, in their order.
pub proof fn law_urgent_items(v: Seq<fleet::Expiry>, w: Seq<fleet::Expiry>, k: int)
    ensures
        urgent(v + w) == urgent(v) + urgent(w),
        0 <= k < v.len() && v[k].3 != "ok"@ ==> urgent(v).contains(v[k]),
        0 <= k < urgent(v).len() ==> urgent(v)[k].3 != "ok"@ && v.contains(urgent(v)[k]),
    decreases v.len() + w.len(),
{
    if w.len() > 0 {
        law_urgent_items(v, w.drop_last(), k);
        assert((v + w).drop_last() =~= v + w.drop_last());
        assert(urgent(v + w) =~= urgent(v) + urgent(w));
    } else {
        assert(v + w =~= v);
        assert(urgent(v) + urgent(w) =~= urgent(v));
        if v.len() > 0 {
            let rest = v.drop_last();
            law_urgent_items(rest, Seq::empty(), k);
            if 0 <= k < rest.len() && v[k].3 != "ok"@ {
                let j = choose|j: int| 0 <= j < urgent(rest).len() && urgent(rest)[j] == rest[k];
                assert(urgent(v)[j] == v[k]);
            } else if k == rest.len() && v[k].3 != "ok"@ {
                assert(urgent(v)[urgent(rest).len() as int] == v[k]);
            }
            if 0 <= k < urgent(v).len() {
                if k < urgent(rest).len() {
                    let j = choose|j: int| 0 <= j < rest.len() && rest[j] == urgent(rest)[k];
                    assert(v[j] == urgent(v)[k]);
                } else {
                    assert(v[v.len() - 1] == urgent(v)[k]);
                }
            }
        }
    }
}

/// Every item that a digest lists is one of the outlook that is not in order, and every such item is
/// listed.
pub proof fn law_digest_lists_what_expires(
    s: DigestSummary,
    day: Seq<char>,
    ds: int,
    de: int,
    list: Seq<Observed>,
    windows: Seq<MaintenanceWindow>,
    rows: Seq<NamedIncident>,
    down: Seq<(String, i64)>,
    k: int,
)
    requires
        digests(s, day, ds, de, list, windows, rows, down),
    ensures
        0 <= k < fleet::outlook(list).len() && fleet::outlook(list)[k].3 != "ok"@ ==> expiries(
            s.expirations@,
        ).contains(fleet::outlook(list)[k]),
        0 <= k < s.expirations@.len() ==> s.expirations@[k].flag@ != "ok"@ && fleet::outlook(
            list,
        ).contains(
            (
                s.expirations@[k].monitor_name@,
                s.expirations@[k].kind@,
                s.expirations@[k].days_remaining,
                s.expirations@[k].flag@,
            ),
        ),
{
    law_urgent_items(fleet::outlook(list), Seq::empty(), k);
    if 0 <= k < s.expirations@.len() {
        assert(expiries(s.expirations@)[k] == s.expirations@[k]@);
    }
}

/// A time of day reads as its hours and minutes; a text that is none reads as eight o'clock, and no
/// text reads as anything outside the day.
pub proof fn law_time_of_day(h: Seq<char>, m: Seq<char>, s: Seq<char>)
    requires
        !h.contains(':'),
        !m.contains(':'),
    ensures
        part(h, 24) is Some && part(m, 60) is Some ==> time_of_day(h + seq![':'] + m) == part(
            h,
            24,
        )->0 * 3600 + part(m, 60)->0 * 60,
        part(h, 24) is None || part(m, 60) is None ==> time_of_day(h + seq![':'] + m) == 8 * 3600,
        time_of_day(h) == 8 * 3600,
        0 <= time_of_day(s) < 86400,
        part(s, 24) matches Some(n) ==> 0 <= n < 24 && text::signed(
            s,
            i64::MIN as int,
            i64::MAX as int,
        ) == Some(n),
{
    text::law_split_at(h, m, ':');
    text::law_split_alone(h, ':');
    text::law_split_alone(m, ':');
}

/// A digest is due from the day's instant on, on a day that comes after the last one sent, and
/// stays due until then.
pub proof fn law_digest_is_due(now: int, today: Seq<char>, last: Seq<char>, offset: int)
    ensures
        fires(now, today, last, offset) ==> now >= rollup::day_start(today) + offset,
        now >= rollup::day_start(today) + offset && text::at_most(last, today) && last != today
            ==> fires(now, today, last, offset),
        !text::at_most(last, today) ==> !fires(now, today, last, offset),
        !fires(now, today, today, offset),
{
}

proof fn lemma_incident_lines_hold(v: Seq<DigestIncident>, i: int)
    requires
        0 <= i < v.len(),
    ensures
        text::within(incident_lines(v), incident_line(v[i])),
    decreases v.len(),
{
    let front = incident_lines(v.drop_last());
    let last = incident_line(v.last());
    if i < v.len() - 1 {
        lemma_incident_lines_hold(v.drop_last(), i);
    }
    text::law_halves_are_held(last, Seq::empty(), last);
    text::law_halves_are_held(front, last, incident_line(v[i]));
}

proof fn lemma_down_lines_hold(v: Seq<DigestDown>, i: int)
    requires
        0 <= i < v.len(),
    ensures
        text::within(down_lines(v), down_line(v[i])),
    decreases v.len(),
{
    let front = down_lines(v.drop_last());
    let last = down_line(v.last());
    if i < v.len() - 1 {
        lemma_down_lines_hold(v.drop_last(), i);
    }
    text::law_halves_are_held(last, Seq::empty(), last);
    text::law_halves_are_held(front, last, down_line(v[i]));
}

proof fn lemma_expiration_lines_hold(v: Seq<DigestExpiration>, i: int)
    requires
        0 <= i < v.len(),
    ensures
        text::within(expiration_lines(v), expiration_line(v[i])),
    decreases v.len(),
{
    let front = expiration_lines(v.drop_last());
    let last = expiration_line(v.last());
    if i < v.len() - 1 {
        lemma_expiration_lines_hold(v.drop_last(), i);
    }
    text::law_halves_are_held(last, Seq::empty(), last);
    text::law_halves_are_held(front, last, expiration_line(v[i]));
}

/// `pat` is held by one of two texts, and so by the two together.
proof fn lemma_held(a: Seq<char>, b: Seq<char>, pat: Seq<char>)
    requires
        text::within(a, pat) || text::within(b, pat),
    ensures
        text::within(a + b, pat),
{
    text::law_halves_are_held(a, b, pat);
}

proof fn lemma_held_by_itself(a: Seq<char>)
    ensures
        text::within(a, a),
{
    text::law_halves_are_held(a, Seq::empty(), a);
}

/// The body of a digest falls into its figures, the incidents, what is down and what expires.
proof fn lemma_body_holds(s: DigestSummary, uptime: Option<i64>, pat: Seq<char>)
    requires
        text::within(digest_head(s, uptime), pat) || (s.incidents@.len() > 0 && text::within(
            incident_lines(s.incidents@),
            pat,
        )) || (s.incidents@.len() == 0 && text::within("No incidents.\n"@, pat)) || (
        s.currently_down@.len() > 0 && text::within(down_lines(s.currently_down@), pat)) || (
        s.expirations@.len() > 0 && text::within(expiration_lines(s.expirations@), pat)),
    ensures
        text::within(digest_body(s, uptime), pat),
{
    let head = digest_head(s, uptime);
    let mid = if s.incidents@.len() == 0 {
        "No incidents.\n"@
    } else {
        "Incidents:\n"@ + incident_lines(s.incidents@)
    };
    let down = if s.currently_down@.len() == 0 {
        Seq::empty()
    } else {
        "\nCurrently down:\n"@ + down_lines(s.currently_down@)
    };
    let tail = if s.expirations@.len() == 0 {
        Seq::empty()
    } else {
        "\nUpcoming expirations:\n"@ + expiration_lines(s.expirations@)
    };
    text::law_halves_are_held("Incidents:\n"@, incident_lines(s.incidents@), pat);
    text::law_halves_are_held("\nCurrently down:\n"@, down_lines(s.currently_down@), pat);
    text::law_halves_are_held("\nUpcoming expirations:\n"@, expiration_lines(s.expirations@), pat);
    text::law_halves_are_held(head, mid, pat);
    text::law_halves_are_held(head + mid, down, pat);
    text::law_halves_are_held(head + mid + down, tail, pat);
}

/// The message of a digest gives the fleet's figures: the day, the uptime as it is shown or that
/// there is none, the number of monitors and of clean ones, of incidents, and the downtime.
pub proof fn law_digest_states_the_figures(r: (String, String), s: DigestSummary, uptime: Option<i64>)
    requires
        is_rendered(r, s, uptime),
    ensures
        text::within(r.0@, s.day@),
        text::within(r.1@, s.day@),
        uptime matches Some(h) ==> text::within(r.0@, numbers::fixed2(h as int) + "%"@),
        uptime matches Some(h) ==> text::within(
            r.1@,
            "Fleet uptime: "@ + (numbers::fixed2(h as int) + "%"@),
        ),
        uptime is None ==> text::within(r.0@, "n/a"@),
        uptime is None ==> text::within(r.1@, "Fleet uptime: "@ + "n/a"@),
        text::within(r.1@, "\nMonitors: "@ + text::dec(s.fleet.monitors_total as int)),
        text::within(r.1@, " ("@ + text::dec(s.fleet.clean_monitors as int)),
        text::within(r.1@, " clean)\nIncidents: "@ + text::dec(s.fleet.incidents as int)),
        text::within(r.1@, "\nTotal downtime: "@ + text::dec(s.fleet.downtime_seconds as int)),
        s.incidents@.len() == 0 ==> text::within(r.1@, "No incidents.\n"@),
{
    let shown = shown_pct(uptime, "n/a"@);
    let a0 = "Vigil daily digest — "@;
    lemma_held_by_itself(s.day@);
    lemma_held_by_itself(shown);
    lemma_held(a0, s.day@, s.day@);
    lemma_held(a0 + s.day@, " — "@, s.day@);
    lemma_held(a0 + s.day@ + " — "@, shown, s.day@);
    lemma_held(a0 + s.day@ + " — "@ + shown, " uptime"@, s.day@);
    lemma_held(a0 + s.day@ + " — "@, shown, shown);
    lemma_held(a0 + s.day@ + " — "@ + shown, " uptime"@, shown);

    let total = text::dec(s.fleet.monitors_total as int);
    let clean = text::dec(s.fleet.clean_monitors as int);
    let incidents = text::dec(s.fleet.incidents as int);
    let down = text::dec(s.fleet.downtime_seconds as int);
    let h0 = "Vigil daily digest for "@ + s.day@;
    let h1 = h0 + " (UTC)\n\n"@;
    let h2 = h1 + ("Fleet uptime: "@ + shown);
    let h3 = h2 + ("\nMonitors: "@ + total);
    let h4 = h3 + (" ("@ + clean);
    let h5 = h4 + (" clean)\nIncidents: "@ + incidents);
    let h6 = h5 + ("\nTotal downtime: "@ + down);
    let h7 = h6 + "s\n\n"@;
    assert(digest_head(s, uptime) =~= h7);
    lemma_held("Vigil daily digest for "@, s.day@, s.day@);
    lemma_held(h0, " (UTC)\n\n"@, s.day@);
    lemma_to_the_head(h1, h2, h3, h4, h5, h6, h7, s.day@, 1, uptime, total, clean, incidents, down);
    let p2 = "Fleet uptime: "@ + shown;
    lemma_held_by_itself(p2);
    lemma_held(h1, p2, p2);
    lemma_to_the_head(h1, h2, h3, h4, h5, h6, h7, p2, 2, uptime, total, clean, incidents, down);
    let p3 = "\nMonitors: "@ + total;
    lemma_held_by_itself(p3);
    lemma_held(h2, p3, p3);
    lemma_to_the_head(h1, h2, h3, h4, h5, h6, h7, p3, 3, uptime, total, clean, incidents, down);
    let p4 = " ("@ + clean;
    lemma_held_by_itself(p4);
    lemma_held(h3, p4, p4);
    lemma_to_the_head(h1, h2, h3, h4, h5, h6, h7, p4, 4, uptime, total, clean, incidents, down);
    let p5 = " clean)\nIncidents: "@ + incidents;
    lemma_held_by_itself(p5);
    lemma_held(h4, p5, p5);
    lemma_to_the_head(h1, h2, h3, h4, h5, h6, h7, p5, 5, uptime, total, clean, incidents, down);
    let p6 = "\nTotal downtime: "@ + down;
    lemma_held_by_itself(p6);
    lemma_held(h5, p6, p6);
    lemma_to_the_head(h1, h2, h3, h4, h5, h6, h7, p6, 6, uptime, total, clean, incidents, down);
    lemma_held_by_itself("No incidents.\n"@);
    lemma_body_holds(s, uptime, s.day@);
    lemma_body_holds(s, uptime, p2);
    lemma_body_holds(s, uptime, p3);
    lemma_body_holds(s, uptime, p4);
    lemma_body_holds(s, uptime, p5);
    lemma_body_holds(s, uptime, p6);
    if s.incidents@.len() == 0 {
        lemma_body_holds(s, uptime, "No incidents.\n"@);
    }
}

proof fn lemma_to_the_head(
    h1: Seq<char>,
    h2: Seq<char>,
    h3: Seq<char>,
    h4: Seq<char>,
    h5: Seq<char>,
    h6: Seq<char>,
    h7: Seq<char>,
    pat: Seq<char>,
    from: int,
    uptime: Option<i64>,
    total: Seq<char>,
    clean: Seq<char>,
    incidents: Seq<char>,
    down: Seq<char>,
)
    requires
        h2 == h1 + ("Fleet uptime: "@ + shown_pct(uptime, "n/a"@)),
        h3 == h2 + ("\nMonitors: "@ + total),
        h4 == h3 + (" ("@ + clean),
        h5 == h4 + (" clean)\nIncidents: "@ + incidents),
        h6 == h5 + ("\nTotal downtime: "@ + down),
        h7 == h6 + "s\n\n"@,
        1 <= from <= 6,
        from == 1 ==> text::within(h1, pat),
        from == 2 ==> text::within(h2, pat),
        from == 3 ==> text::within(h3, pat),
        from == 4 ==> text::within(h4, pat),
        from == 5 ==> text::within(h5, pat),
        from == 6 ==> text::within(h6, pat),
    ensures
        text::within(h7, pat),
{
    text::law_halves_are_held(h1, "Fleet uptime: "@ + shown_pct(uptime, "n/a"@), pat);
    text::law_halves_are_held(h2, "\nMonitors: "@ + total, pat);
    text::law_halves_are_held(h3, " ("@ + clean, pat);
    text::law_halves_are_held(h4, " clean)\nIncidents: "@ + incidents, pat);
    text::law_halves_are_held(h5, "\nTotal downtime: "@ + down, pat);
    text::law_halves_are_held(h6, "s\n\n"@, pat);
}

/// The message of a digest tells of every incident its monitor, its start, how long it took or that it
/// goes on, and its cause or a dash.
pub proof fn law_digest_tells_every_incident(
    r: (String, String),
    s: DigestSummary,
    uptime: Option<i64>,
    i: int,
)
    requires
        is_rendered(r, s, uptime),
        0 <= i < s.incidents@.len(),
    ensures
        text::within(r.1@, s.incidents@[i].monitor_name@),
        text::within(r.1@, " | started "@ + text::dec(s.incidents@[i].started_at as int)),
        s.incidents@[i].duration_seconds matches Some(d) ==> text::within(
            r.1@,
            " | "@ + (text::dec(d as int) + "s"@),
        ),
        s.incidents@[i].duration_seconds is None ==> text::within(r.1@, " | "@ + "ongoing"@),
        s.incidents@[i].cause matches Some(c) ==> text::within(r.1@, " | "@ + c@),
        s.incidents@[i].cause is None ==> text::within(r.1@, " | "@ + "-"@),
{
    let e = s.incidents@[i];
    let line = incident_line(e);
    let start = " | started "@ + text::dec(e.started_at as int);
    let took = " | "@ + with_unit(e.duration_seconds, "s"@, "ongoing"@);
    let cause = " | "@ + notify::text_or(e.cause, "-"@);
    let l1 = "  - "@ + e.monitor_name@;
    let l2 = l1 + start;
    let l3 = l2 + took;
    let l4 = l3 + cause;
    assert(line =~= l4 + "\n"@);
    lemma_held_by_itself(e.monitor_name@);
    lemma_held_by_itself(start);
    lemma_held_by_itself(took);
    lemma_held_by_itself(cause);
    lemma_held("  - "@, e.monitor_name@, e.monitor_name@);
    lemma_held(l1, start, e.monitor_name@);
    lemma_held(l1, start, start);
    lemma_held(l2, took, e.monitor_name@);
    lemma_held(l2, took, start);
    lemma_held(l2, took, took);
    lemma_held(l3, cause, e.monitor_name@);
    lemma_held(l3, cause, start);
    lemma_held(l3, cause, took);
    lemma_held(l3, cause, cause);
    lemma_held(l4, "\n"@, e.monitor_name@);
    lemma_held(l4, "\n"@, start);
    lemma_held(l4, "\n"@, took);
    lemma_held(l4, "\n"@, cause);
    lemma_incident_lines_hold(s.incidents@, i);
    lemma_body_holds(s, uptime, line);
    text::law_holding_is_transitive(r.1@, line, e.monitor_name@);
    text::law_holding_is_transitive(r.1@, line, start);
    text::law_holding_is_transitive(r.1@, line, took);
    text::law_holding_is_transitive(r.1@, line, cause);
}

/// The message of a digest names every monitor that is down, with since when.
pub proof fn law_digest_tells_what_is_down(
    r: (String, String),
    s: DigestSummary,
    uptime: Option<i64>,
    i: int,
)
    requires
        is_rendered(r, s, uptime),
        0 <= i < s.currently_down@.len(),
    ensures
        text::within(
            r.1@,
            s.currently_down@[i].monitor_name@ + " (since "@ + text::dec(
                s.currently_down@[i].since as int,
            ) + ")"@,
        ),
{
    let d = s.currently_down@[i];
    let line = down_line(d);
    let pat = d.monitor_name@ + " (since "@ + text::dec(d.since as int) + ")"@;
    reveal_strlit(")\n");
    reveal_strlit(")");
    assert(")\n"@ =~= ")"@ + seq!['\n']);
    assert(line =~= "  - "@ + pat + seq!['\n']);
    lemma_held_by_itself(pat);
    lemma_held("  - "@, pat, pat);
    lemma_held("  - "@ + pat, seq!['\n'], pat);
    lemma_down_lines_hold(s.currently_down@, i);
    lemma_body_holds(s, uptime, line);
    text::law_holding_is_transitive(r.1@, line, pat);
}

/// The message of a digest tells of every item that needs attention its monitor, what it is, how it
/// stands, and the days that remain or that they are unknown.
pub proof fn law_digest_tells_what_expires(
    r: (String, String),
    s: DigestSummary,
    uptime: Option<i64>,
    i: int,
)
    requires
        is_rendered(r, s, uptime),
        0 <= i < s.expirations@.len(),
    ensures
        ({
            let e = s.expirations@[i];
            let head = e.monitor_name@ + " "@ + e.kind@ + " ["@ + e.flag@ + "] "@;
            &&& e.days_remaining matches Some(n) ==> text::within(
                r.1@,
                head + (text::dec(n as int) + "d"@),
            )
            &&& e.days_remaining is None ==> text::within(r.1@, head + "unknown"@)
        }),
{
    let e = s.expirations@[i];
    let line = expiration_line(e);
    let head = e.monitor_name@ + " "@ + e.kind@ + " ["@ + e.flag@ + "] "@;
    let pat = head + with_unit(e.days_remaining, "d"@, "unknown"@);
    assert(line =~= "  - "@ + pat + "\n"@);
    lemma_held_by_itself(pat);
    lemma_held("  - "@, pat, pat);
    lemma_held("  - "@ + pat, "\n"@, pat);
    lemma_expiration_lines_hold(s.expirations@, i);
    lemma_body_holds(s, uptime, line);
    text::law_holding_is_transitive(r.1@, line, pat);
}

/// Sending is delivered where any channel took it, failed where there were channels and none did, and
/// was nothing to do where there were none.
pub proof fn law_one_delivery_counts(results: Seq<bool>, r: SendOutcome)
    requires
        sent(results, r),
    ensures
        r == SendOutcome::Delivered <==> exists|k: int| 0 <= k < results.len() && #[trigger] results[k],
        r == SendOutcome::NothingToSend <==> results.len() == 0,
        r == SendOutcome::AllFailed <==> results.len() > 0 && forall|k: int|
            0 <= k < results.len() ==> !#[trigger] results[k],
{
    if results.contains(true) {
        let k = choose|k: int| 0 <= k < results.len() && results[k] == true;
        assert(results[k]);
    }
    if exists|k: int| 0 <= k < results.len() && #[trigger] results[k] {
        let k = choose|k: int| 0 <= k < results.len() && #[trigger] results[k];
        assert(results.contains(true));
    }
}

/// A new instance counts its first day as sent, so that no digest covers a time before it; one that
/// has a marker keeps it.
pub proof fn law_seeding_starts_today(existing: Option<String>, now: int, r: Option<String>)
    requires
        is_seed(existing, now, r),
    ensures
        existing is Some ==> r is None,
        existing is None ==> r is Some && (r->0)@ == rollup::day_at(now),
{
}

/// A digest is sent on the day of `now` and covers the day before it, whose midnight comes a day
/// earlier; it is due from the configured time of the day on.
pub proof fn law_digest_covers_the_day_before(
    now: int,
    last: Seq<char>,
    time: Seq<char>,
    r: Option<DigestDays>,
)
    requires
        is_tick(now, last, time, r),
        clock::CALENDAR_MIN + 86400 <= now <= clock::CALENDAR_MAX,
    ensures
        r is Some ==> now >= rollup::day_start(rollup::day_at(now)) + time_of_day(time),
        r is Some ==> last != rollup::day_at(now),
        r matches Some(d) ==> d.today@ == rollup::day_at(now),
        r matches Some(d) ==> ({
            let a = clock::date_of(clock::day_index(now));
            let b = clock::date_of(clock::day_index(now) - 1);
            d.today@ == clock::day_text(a.0, a.1, a.2) && d.yesterday@ == clock::day_text(b.0, b.1, b.2)
        }),
{
    assert(clock::day_index(now - 86400) == clock::day_index(now) - 1);
}

/// Channels that still have a configuration are sent to, each once and in order, and no others are.
pub proof fn law_who_is_sent_to(
    ids: Seq<i64>,
    configs: Seq<Option<String>>,
    id: i64,
    config: Option<String>,
)
    requires
        ids.len() == configs.len(),
    ensures
        reachable(Seq::empty(), Seq::empty()).len() == 0,
        config is None ==> reachable(ids.push(id), configs.push(config)) == reachable(ids, configs),
        config matches Some(c) ==> reachable(ids.push(id), configs.push(config)) == reachable(
            ids,
            configs,
        ).push((id, c@)),
{
    assert(ids.push(id).drop_last() =~= ids);
    assert(configs.push(config).drop_last() =~= configs);
}

} // verus!
