//! When monthly reports are due, and which months are.

use vstd::prelude::*;

use crate::clock;
use crate::digest;
use crate::digest::SendOutcome;
use crate::models::Ts;
use crate::report;
use crate::report::{month_of, next_month, prior_month};
use crate::text;

verus! {

/// The date that a second lies in; a second outside the calendar reads as the epoch.
pub open spec fn date_at(epoch: int) -> (int, int, int) {
    if clock::CALENDAR_MIN <= epoch <= clock::CALENDAR_MAX {
        clock::date_of(clock::day_index(epoch))
    } else {
        (1970, 1, 1)
    }
}

/// How many days the month of a second has; the last month of the calendar counts 28.
pub open spec fn month_length(epoch: int) -> int {
    let (y, m, _) = date_at(epoch);
    if clock::month_after(y, m).0 <= clock::YEAR_MAX {
        clock::month_days(y, m)
    } else {
        28
    }
}

fn utc_day(epoch: Ts) -> (r: (i32, u32, u32))
    ensures
        (r.0 as int, r.1 as int, r.2 as int) == date_at(epoch as int),
        clock::valid_date(r.0 as int, r.1 as int, r.2 as int),
        clock::CALENDAR_MIN <= epoch <= clock::CALENDAR_MAX ==> clock::day_number(
            r.0 as int,
            r.1 as int,
            r.2 as int,
        ) == clock::day_index(epoch as int),
{
    match clock::utc_date(epoch) {
        Some((y, m, d)) => {
            proof {
                clock::law_dates_are_unique(
                    clock::day_index(epoch as int),
                    (y as int, m as int, d as int),
                );
            }
            (y, m, d)
        },
        None => (1970, 1, 1),
    }
}

/// The days of the month that a second lies in.
pub fn days_in_month(epoch: Ts) -> (r: u32)
    ensures
        r == month_length(epoch as int),
        28 <= r <= 31,
{
    let (y, m, _) = utc_day(epoch);
    proof {
        clock::lemma_month_length(y as int, m as int);
    }
    match clock::following_month(y, m) {
        Some((ny, nm)) => {
            let start: i64 = match clock::midnight(y, m, 1) {
                Some(t) => t,
                None => 0,
            };
            let end: i64 = match clock::midnight(ny, nm, 1) {
                Some(t) => t,
                None => 0,
            };
            ((end - start) / clock::DAY_SECONDS) as u32
        },
        None => 28,
    }
}

/// The day of the month that a configured day means in a month of `length` days.
pub open spec fn effective_day(day_of_month: int, length: int) -> int {
    if day_of_month < 1 {
        1
    } else if day_of_month > length {
        length
    } else {
        day_of_month
    }
}

/// The midnight before a second; that of the epoch for a second outside the calendar.
pub open spec fn start_of_day(epoch: int) -> int {
    if clock::CALENDAR_MIN <= epoch <= clock::CALENDAR_MAX {
        clock::day_index(epoch) * clock::DAY_SECONDS
    } else {
        0
    }
}

/// Reports run at `now`: the configured day of the month has come, and the day's instant has
/// passed.
pub open spec fn runs(now: int, day_of_month: int, offset: int) -> bool {
    date_at(now).2 >= effective_day(day_of_month, month_length(now)) && now >= start_of_day(now)
        + offset
}

/// Whether reports run at `now`. A day past the end of the month means its last day.
pub fn should_run_today(now_ts: i64, day_of_month: i64, time_offset: i64) -> (r: bool)
    ensures
        r == runs(now_ts as int, day_of_month as int, time_offset as int),
{
    let (y, m, d) = utc_day(now_ts);
    let length: i64 = days_in_month(now_ts) as i64;
    let day: i64 = if day_of_month < 1 {
        1
    } else if day_of_month > length {
        length
    } else {
        day_of_month
    };
    let start: i64 = match clock::midnight(y, m, d) {
        Some(t) => t,
        None => 0,
    };
    proof {
        assert(clock::days_before_month(1970, 1) == 0);
    }
    d as i64 >= day && now_ts as i128 >= start as i128 + time_offset as i128
}

/// Seconds into the day of the first two parts of a time; eight o'clock where they are none.
pub open spec fn time_of_day(s: Seq<char>) -> int {
    let parts = text::split(s, ':');
    if parts.len() >= 2 && digest::part(parts[0], 24) is Some && digest::part(parts[1], 60) is Some {
        digest::part(parts[0], 24)->0 * 3600 + digest::part(parts[1], 60)->0 * 60
    } else {
        28800
    }
}

/// Reads `HH:MM` as seconds into the day, whatever follows; anything else reads as 08:00.
pub fn parse_hm(s: &str) -> (r: i64)
    ensures
        r == time_of_day(s@),
        0 <= r < 86400,
{
    let parts = text::split_on(s, ':');
    if parts.len() >= 2 {
        assert(parts@[0]@ == text::split(s@, ':')[0]);
        assert(parts@[1]@ == text::split(s@, ':')[1]);
        let h = digest::read_part(parts[0].as_str(), 24);
        let m = digest::read_part(parts[1].as_str(), 60);
        if let (Some(h), Some(m)) = (h, m) {
            return h * 3600 + m * 60;
        }
    }
    8 * 3600
}

/// The marker to store on an instance.
pub open spec fn seed(existing: Option<String>, now: int) -> Option<Seq<char>> {
    match existing {
        Some(_) => None,
        None => Some(report::prior_of(report::month_at(now))),
    }
}

/// The marker to store on an instance that has none: the month that just ended, so that no month
/// before the instance existed is reported.
pub fn seed_marker_if_absent(existing: &Option<String>, now: Ts) -> (r: Option<String>)
    ensures
        text::view_opt(r) == seed(*existing, now as int),
{
    match existing {
        Some(_) => None,
        None => {
            let month = month_of(now);
            Some(prior_month(month.as_str()))
        },
    }
}

/// A run over the months that are due: the last one that was reported, and the last one to report.
#[derive(Clone, Debug)]
pub struct Backfill {
    pub cursor: String,
    pub target: String,
}

/// `r` is the run that is due at `now`, if one is.
pub open spec fn is_tick(
    auto: bool,
    now: int,
    day_of_month: int,
    time: Seq<char>,
    marker: Seq<char>,
    r: Option<Backfill>,
) -> bool {
    &&& r is Some <==> auto && runs(now, day_of_month, time_of_day(time))
    &&& r matches Some(b) ==> {
        let target = report::prior_of(report::month_at(now));
        &&& b.target@ == target
        &&& b.cursor@ == if marker.len() == 0 {
            report::prior_of(target)
        } else {
            marker
        }
    }
}

/// Decides at `now` whether reports run, and from which month to which. Without a marker only the
/// month that just ended is due.
pub fn tick_once(auto: bool, now: Ts, day_of_month: i64, time: &str, marker: &str) -> (r: Option<
    Backfill,
>)
    ensures
        is_tick(auto, now as int, day_of_month as int, time@, marker@, r),
{
    if !auto {
        return None;
    }
    let month = month_of(now);
    let target = prior_month(month.as_str());
    let offset = parse_hm(time);
    if !should_run_today(now, day_of_month, offset) {
        return None;
    }
    proof {
        reveal_strlit("");
        assert(""@ =~= Seq::<char>::empty());
        if marker@.len() == 0 {
            assert(marker@ =~= ""@);
        }
    }
    let cursor = if text::same(marker, "") {
        prior_month(target.as_str())
    } else {
        text::own(marker)
    };
    Some(Backfill { cursor, target })
}

/// The next month to report, while it comes no later than the target.
pub open spec fn due(cursor: Seq<char>, target: Seq<char>) -> Option<Seq<char>> {
    if text::at_most(report::next_of(cursor), target) {
        Some(report::next_of(cursor))
    } else {
        None
    }
}

/// The next month to report, if any is left.
pub fn next_due(cursor: &str, target: &str) -> (r: Option<String>)
    ensures
        text::view_opt(r) == due(cursor@, target@),
{
    let next = next_month(cursor);
    if text::precedes(next.as_str(), target) {
        Some(next)
    } else {
        None
    }
}

/// `r` is the marker after a month's report came to `outcome`, and whether the run goes on.
pub open spec fn is_advance(
    outcome: SendOutcome,
    month: Seq<char>,
    marker: Seq<char>,
    r: (String, bool),
) -> bool {
    &&& r.0@ == digest::marker_after(outcome, month, marker)
    &&& r.1 == (outcome != SendOutcome::AllFailed)
}

/// The marker after a month's report came to `outcome`: the month itself, or the marker as it was
/// where nobody could be reached, which also ends the run.
pub fn advance(outcome: SendOutcome, month: &str, marker: &str) -> (r: (String, bool))
    ensures
        is_advance(outcome, month@, marker@, r),
{
    let goes_on = match outcome {
        SendOutcome::AllFailed => false,
        _ => true,
    };
    (digest::advance_marker(outcome, month, marker), goes_on)
}

/// A month is due exactly where it comes no later than the target in time, for months of
/// four-digit years.
pub proof fn law_due_months_follow_the_calendar(c: (int, int), t: (int, int))
    requires
        report::valid_month(c.0, c.1),
        report::valid_month(t.0, t.1),
        0 <= c.0,
        clock::month_after(c.0, c.1).0 <= 9999,
        0 <= t.0 <= 9999,
    ensures
        due(clock::month_text(c.0, c.1), clock::month_text(t.0, t.1)) is Some <==> c.0 * 12 + c.1
            < t.0 * 12 + t.1,
        due(clock::month_text(c.0, c.1), clock::month_text(t.0, t.1)) matches Some(p) ==> p
            == clock::month_text(
            clock::month_after(c.0, c.1).0,
            clock::month_after(c.0, c.1).1,
        ),
{
    let n = clock::month_after(c.0, c.1);
    report::law_month_text_reads_back(c.0, c.1);
    assert(report::next_of(clock::month_text(c.0, c.1)) == clock::month_text(n.0, n.1));
    if n == t {
        text::law_order_is_reflexive(clock::month_text(n.0, n.1));
    } else if n.0 < t.0 || (n.0 == t.0 && n.1 < t.1) {
        clock::law_month_texts_are_ordered(n, t);
    } else {
        clock::law_month_texts_are_ordered(t, n);
    }
}

/// A month that was reported is not due again, for months of four-digit years.
pub proof fn law_reported_months_stay_reported(outcome: SendOutcome, t: (int, int), marker: Seq<char>)
    requires
        outcome != SendOutcome::AllFailed,
        report::valid_month(t.0, t.1),
        0 <= t.0,
        clock::month_after(t.0, t.1).0 <= 9999,
    ensures
        due(
            digest::marker_after(outcome, clock::month_text(t.0, t.1), marker),
            clock::month_text(t.0, t.1),
        ) is None,
{
    law_due_months_follow_the_calendar(t, t);
}

/// A new instance starts at the month that ended before it, so that nothing older is reported; one
/// that has a marker keeps it.
pub proof fn law_seeding_starts_at_the_last_month(existing: Option<String>, now: int)
    ensures
        existing is Some ==> seed(existing, now) is None,
        existing is None ==> seed(existing, now) == Some(report::prior_of(report::month_at(now))),
{
}

/// Reports run only where they are switched on, from the time of the day on of the day of the month
/// that is configured. They end with the month that ended last, and go on after the marker or, where
/// there is none, cover that one month.
pub proof fn law_reports_run_when_their_day_has_come(
    auto: bool,
    now: int,
    day_of_month: int,
    time: Seq<char>,
    marker: Seq<char>,
    r: Option<Backfill>,
)
    requires
        is_tick(auto, now, day_of_month, time, marker, r),
        clock::CALENDAR_MIN <= now <= clock::CALENDAR_MAX,
        1 <= day_of_month <= 28,
    ensures
        r is Some <==> auto && clock::date_of(clock::day_index(now)).2 >= day_of_month && now
            - clock::day_index(now) * 86400 >= time_of_day(time),
        r matches Some(b) ==> b.target@ == report::prior_of(report::month_at(now)),
        r matches Some(b) ==> (marker.len() > 0 ==> b.cursor@ == marker),
        r matches Some(b) ==> (marker.len() == 0 ==> b.cursor@ == report::prior_of(b.target@)),
{
}

/// A configured day means itself where the month has it, the last day where the month is shorter, and
/// the first where it is none.
pub proof fn law_effective_day(day_of_month: int, length: int)
    requires
        28 <= length <= 31,
    ensures
        1 <= effective_day(day_of_month, length) <= length,
        1 <= day_of_month <= length ==> effective_day(day_of_month, length) == day_of_month,
        day_of_month > length ==> effective_day(day_of_month, length) == length,
        day_of_month < 1 ==> effective_day(day_of_month, length) == 1,
{
}

/// A time of day reads as its hours and minutes, whatever seconds follow; a text that is none reads as
/// eight o'clock.
pub proof fn law_time_of_day(h: Seq<char>, m: Seq<char>, rest: Seq<char>)
    requires
        !h.contains(':'),
        !m.contains(':'),
    ensures
        digest::part(h, 24) is Some && digest::part(m, 60) is Some ==> time_of_day(
            h + seq![':'] + m,
        ) == digest::part(h, 24)->0 * 3600 + digest::part(m, 60)->0 * 60,
        digest::part(h, 24) is Some && digest::part(m, 60) is Some ==> time_of_day(
            h + seq![':'] + (m + seq![':'] + rest),
        ) == digest::part(h, 24)->0 * 3600 + digest::part(m, 60)->0 * 60,
        digest::part(h, 24) is None || digest::part(m, 60) is None ==> time_of_day(
            h + seq![':'] + m,
        ) == 8 * 3600,
        time_of_day(h) == 8 * 3600,
{
    text::law_split_at(h, m, ':');
    text::law_split_at(h, m + seq![':'] + rest, ':');
    text::law_split_at(m, rest, ':');
    text::law_split_alone(h, ':');
    text::law_split_alone(m, ':');
    text::law_split_join(rest, ':');
}

/// A month counts as reported, and the run goes on, unless its report reached nobody whom it was sent
/// to: then the marker stays and the run ends.
pub proof fn law_run_goes_on_after_a_report(
    outcome: SendOutcome,
    month: Seq<char>,
    marker: Seq<char>,
    r: (String, bool),
)
    requires
        is_advance(outcome, month, marker, r),
    ensures
        outcome == SendOutcome::AllFailed ==> r.0@ == marker && !r.1,
        outcome != SendOutcome::AllFailed ==> r.0@ == month && r.1,
{
}

} // verus!
