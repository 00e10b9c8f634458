//! Daily rollups: which days are due, and what a day's row holds.

use vstd::prelude::*;

use crate::clock;
use crate::models::Ts;
use crate::text;
use crate::uptime;
use crate::uptime::{Span, Uptime};

verus! {

/// The midnight of a day text; a text that is no day reads as the epoch.
pub open spec fn day_start(day: Seq<char>) -> int {
    match clock::parsed_date(day, "%Y-%m-%d"@) {
        Some(t) => t,
        None => 0,
    }
}

/// `b` bounds a day text: from its midnight to the next one. Every date's own text is bounded by
/// that date.
pub open spec fn bounds(day: Seq<char>, b: (i64, i64)) -> bool {
    &&& b.0 == day_start(day)
    &&& b.1 == b.0 + clock::DAY_SECONDS
    &&& b.0 % clock::DAY_SECONDS == 0
    &&& clock::CALENDAR_MIN <= b.0 <= clock::CALENDAR_MAX
    &&& forall|y: int, m: int, d: int|
        clock::valid_date(y, m, d) && day == #[trigger] clock::day_text(y, m, d) ==> b.0
            == clock::day_number(y, m, d) * clock::DAY_SECONDS
}

/// The start and the exclusive end of a day, in UTC.
pub fn day_bounds(day: &str) -> (r: (i64, i64))
    ensures
        bounds(day@, r),
{
    let start: i64 = match clock::parse_date(day, "%Y-%m-%d") {
        Some(t) => t,
        None => 0,
    };
    (start, start + clock::DAY_SECONDS)
}

/// The text of the day that a second lies in; a second outside the calendar reads as the epoch.
pub open spec fn day_at(epoch: int) -> Seq<char> {
    let day = if clock::CALENDAR_MIN <= epoch <= clock::CALENDAR_MAX {
        clock::day_index(epoch)
    } else {
        0
    };
    let date = clock::date_of(day);
    clock::day_text(date.0, date.1, date.2)
}

/// Formats a second as its day.
pub fn day_str(epoch: Ts) -> (r: String)
    ensures
        r@ == day_at(epoch as int),
{
    match clock::utc_date(epoch) {
        Some((y, m, d)) => {
            proof {
                clock::law_dates_are_unique(
                    clock::day_index(epoch as int),
                    (y as int, m as int, d as int),
                );
            }
            clock::format_date(y, m, d, "%Y-%m-%d")
        },
        None => {
            proof {
                assert(clock::days_before_month(1970, 1) == 0);
                assert(clock::dates(0, (1970int, 1int, 1int)));
                clock::law_dates_are_unique(0, (1970int, 1int, 1int));
            }
            clock::format_date(1970, 1, 1, "%Y-%m-%d")
        },
    }
}

/// The bounds of a second's day hold the second.
pub proof fn law_day_bounds_hold_their_day(epoch: i64, b: (i64, i64))
    requires
        clock::CALENDAR_MIN <= epoch <= clock::CALENDAR_MAX,
        bounds(day_at(epoch as int), b),
    ensures
        b.0 <= epoch < b.1,
{
    let day = clock::day_index(epoch as int);
    clock::law_every_day_has_a_date(day);
    let date = clock::date_of(day);
    assert(day_at(epoch as int) == clock::day_text(date.0, date.1, date.2));
}

/// The start of a date reads back as the date.
pub proof fn law_day_text_round_trips(y: int, m: int, d: int, b: (i64, i64))
    requires
        clock::valid_date(y, m, d),
        bounds(clock::day_text(y, m, d), b),
    ensures
        day_at(b.0 as int) == clock::day_text(y, m, d),
{
    let day = clock::day_number(y, m, d);
    assert(clock::dates(day, (y, m, d)));
    clock::law_dates_are_unique(day, (y, m, d));
    assert(clock::day_index(b.0 as int) == day);
}

/// The days from `cursor` on, a day apart, that start before `end`, at most `n` of them.
pub open spec fn day_list(cursor: int, end: int, n: int) -> Seq<Seq<char>>
    decreases n,
{
    if n <= 0 || cursor >= end {
        Seq::empty()
    } else {
        seq![day_at(cursor)] + day_list(cursor + clock::DAY_SECONDS, end, n - 1)
    }
}

/// Where the catch-up of a monitor starts: the day after its last aggregate, else the day of its
/// oldest check; nowhere if it has neither.
pub open spec fn catch_up_start(
    last_aggregate: Option<Seq<char>>,
    oldest_check: Option<int>,
) -> Option<int> {
    match last_aggregate {
        Some(d) => Some(day_start(d) + clock::DAY_SECONDS),
        None => match oldest_check {
            Some(t) => Some(day_start(day_at(t))),
            None => None,
        },
    }
}

/// The days that a monitor's catch-up rolls up: from where it starts, and never from before the
/// retention floor, through yesterday, and never more than the retained days.
pub open spec fn catch_up_days(
    now: int,
    retention_days: int,
    last_aggregate: Option<Seq<char>>,
    oldest_check: Option<int>,
) -> Seq<Seq<char>> {
    match catch_up_start(last_aggregate, oldest_check) {
        None => Seq::empty(),
        Some(start) => {
            let floor = now - retention_days * clock::DAY_SECONDS;
            day_list(
                if start > floor {
                    start
                } else {
                    floor
                },
                day_start(day_at(now)),
                retention_days,
            )
        },
    }
}

/// The days to roll up for one monitor, oldest first.
pub fn ensure_aggregates(
    now: Ts,
    retention_days: i64,
    last_aggregate: &Option<String>,
    oldest_check: Option<Ts>,
) -> (r: Vec<String>)
    requires
        i64::MIN <= retention_days * clock::DAY_SECONDS <= i64::MAX,
        i64::MIN <= now - retention_days * clock::DAY_SECONDS <= i64::MAX,
    ensures
        text::views(r@) == catch_up_days(
            now as int,
            retention_days as int,
            text::view_opt(*last_aggregate),
            match oldest_check {
                Some(t) => Some(t as int),
                None => None,
            },
        ),
{
    let mut out: Vec<String> = Vec::new();
    let floor: i64 = now - retention_days * clock::DAY_SECONDS;
    let today = day_str(now);
    let (today_start, _) = day_bounds(today.as_str());
    let start: i64 = match last_aggregate {
        Some(d) => {
            let (s, _) = day_bounds(d.as_str());
            s + clock::DAY_SECONDS
        },
        None => match oldest_check {
            Some(t) => {
                let day = day_str(t);
                let (s, _) = day_bounds(day.as_str());
                s
            },
            None => {
                assert(text::views(out@) =~= Seq::<Seq<char>>::empty());
                return out;
            },
        },
    };
    let mut cursor: i64 = if start > floor {
        start
    } else {
        floor
    };
    let mut done: i64 = 0;
    let ghost goal = day_list(cursor as int, today_start as int, retention_days as int);
    assert(text::views(out@) + goal =~= goal);
    while cursor < today_start && done < retention_days
        invariant
            0 <= done,
            done <= retention_days || done == 0,
            today_start <= clock::CALENDAR_MAX,
            text::views(out@) + day_list(
                cursor as int,
                today_start as int,
                retention_days - done,
            ) == goal,
        decreases retention_days - done,
    {
        let day = day_str(cursor);
        let ghost before = text::views(out@);
        let ghost piece = day@;
        out.push(day);
        proof {
            assert(text::views(out@) =~= before.push(piece));
            assert(text::views(out@) + day_list(
                cursor + clock::DAY_SECONDS,
                today_start as int,
                retention_days - done - 1,
            ) =~= before + day_list(cursor as int, today_start as int, retention_days - done));
        }
        cursor = cursor + clock::DAY_SECONDS;
        done += 1;
    }
    assert(text::views(out@) + Seq::<Seq<char>>::empty() =~= text::views(out@));
    out
}

/// The catch-up of a monitor never rolls up more days than are retained.
pub proof fn law_catch_up_is_bounded(cursor: int, end: int, n: int)
    ensures
        day_list(cursor, end, n).len() <= if n > 0 {
            n
        } else {
            0
        },
    decreases n,
{
    if n > 0 && cursor < end {
        law_catch_up_is_bounded(cursor + clock::DAY_SECONDS, end, n - 1);
    }
}

/// The counts of one monitor's day.
#[derive(Clone, Copy, Debug, PartialEq, Eq, Structural)]
pub struct DayAggregate {
    pub up_count: i64,
    pub down_count: i64,
    pub sample_count: i64,
    pub incident_count: i64,
    pub uptime: Uptime,
}

/// `r` is the aggregate of one monitor's day.
pub open spec fn aggregates(
    r: DayAggregate,
    up_count: i64,
    down_count: i64,
    incident_count: i64,
    spans: Seq<Span>,
    ds: int,
    de: int,
) -> bool {
    &&& r.up_count == up_count
    &&& r.down_count == down_count
    &&& r.sample_count == up_count + down_count
    &&& r.incident_count == incident_count
    &&& uptime::reports(r.uptime, uptime::uptime(spans, ds, de, true, Seq::empty()))
}

/// Aggregates one monitor's completed day from its counts and the incidents that touch it.
///
/// The uptime is taken as of the day's end. Maintenance is not taken out: a day is rolled up once
/// and stays as it was.
pub fn rollup_monitor_day(
    up_count: i64,
    down_count: i64,
    incident_count: i64,
    spans: &[Span],
    ds: Ts,
    de: Ts,
) -> (r: DayAggregate)
    requires
        i64::MIN <= up_count + down_count <= i64::MAX,
        de - ds <= i64::MAX,
        uptime::downtime(spans@, ds as int, de as int, Seq::empty()) <= i64::MAX,
    ensures
        aggregates(r, up_count, down_count, incident_count, spans@, ds as int, de as int),
{
    let none: Vec<(Ts, Ts)> = Vec::new();
    assert(none@ =~= Seq::<(Ts, Ts)>::empty());
    let uptime = uptime::compute(spans, ds, de, true, none.as_slice());
    DayAggregate { up_count, down_count, sample_count: up_count + down_count, incident_count, uptime }
}

/// A day's aggregate counts its samples, passed and failed, and its incidents; its uptime is over the
/// whole day, with the downtime of every incident and no maintenance taken out.
pub proof fn law_day_aggregate(
    r: DayAggregate,
    up_count: i64,
    down_count: i64,
    incident_count: i64,
    spans: Seq<Span>,
    ds: int,
    de: int,
)
    requires
        aggregates(r, up_count, down_count, incident_count, spans, ds, de),
        ds < de,
    ensures
        r.sample_count == r.up_count + r.down_count,
        r.up_count == up_count,
        r.down_count == down_count,
        r.incident_count == incident_count,
        r.uptime.uptime_pct is Some,
        r.uptime.uptime_pct->0.total == de - ds,
        r.uptime.uptime_pct->0.down == uptime::downtime(spans, ds, de, Seq::empty()),
        r.uptime.downtime_seconds == uptime::downtime(spans, ds, de, Seq::empty()),
        spans.len() == 0 ==> r.uptime.downtime_seconds == 0,
{
    uptime::law_whole_window_is_measured(ds, de);
    uptime::law_uptime_is_a_share(r.uptime, spans, ds, de, true, Seq::empty());
}

/// A catch-up starts on the day after the last aggregate, or with the oldest check where there is
/// none yet, and not at all where there is neither; an aggregate decides over any check.
pub proof fn law_where_catch_up_starts(last: Option<Seq<char>>, oldest: Option<int>)
    ensures
        last matches Some(d) ==> catch_up_start(last, oldest) == Some(day_start(d) + 86400),
        last is None && oldest is Some ==> catch_up_start(last, oldest) == Some(
            day_start(day_at(oldest->0)),
        ),
        last is None && oldest is None ==> catch_up_start(last, oldest) is None,
{
}

/// The days of a catch-up follow each other, a day apart, from where it starts; each starts before the
/// end, and the catch-up goes on to the end unless it has as many days as are allowed.
pub proof fn law_days_follow_each_other(cursor: int, end: int, n: int, i: int)
    requires
        0 <= i < day_list(cursor, end, n).len(),
    ensures
        day_list(cursor, end, n)[i] == day_at(cursor + i * 86400),
        cursor + i * 86400 < end,
        day_list(cursor, end, n).len() == n || cursor + day_list(cursor, end, n).len() * 86400 >= end,
    decreases n,
{
    let rest = day_list(cursor + 86400, end, n - 1);
    if i > 0 {
        law_days_follow_each_other(cursor + 86400, end, n - 1, i - 1);
        assert(day_list(cursor, end, n)[i] == rest[i - 1]);
    } else if rest.len() > 0 {
        law_days_follow_each_other(cursor + 86400, end, n - 1, 0);
    } else if n > 1 {
        assert(cursor + 86400 >= end);
    }
}

/// No catch-up reaches back before the retention or up to today.
pub proof fn law_catch_up_stays_in_the_retention(
    now: int,
    retention_days: int,
    last: Option<Seq<char>>,
    oldest: Option<int>,
    i: int,
)
    requires
        0 <= i < catch_up_days(now, retention_days, last, oldest).len(),
    ensures
        exists|t: int|
            catch_up_days(now, retention_days, last, oldest)[i] == #[trigger] day_at(t) && t >= now
                - retention_days * 86400 && t < day_start(day_at(now)) && t >= catch_up_start(
                last,
                oldest,
            )->0,
        catch_up_days(now, retention_days, last, oldest).len() <= retention_days,
{
    let start = catch_up_start(last, oldest)->0;
    let floor = now - retention_days * clock::DAY_SECONDS;
    let cursor = if start > floor {
        start
    } else {
        floor
    };
    let end = day_start(day_at(now));
    law_days_follow_each_other(cursor, end, retention_days, i);
    law_catch_up_is_bounded(cursor, end, retention_days);
    let t = cursor + i * 86400;
    assert(catch_up_days(now, retention_days, last, oldest)[i] == day_at(t));
}

} // verus!
