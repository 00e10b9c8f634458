//! Monthly reports: calendar months in UTC, the figures of a month, and the documents that show
//! them.

use vstd::prelude::*;

use crate::clock;
use crate::digest;
use crate::numbers;
use crate::text;

pub mod compute;
pub mod html;
pub mod scheduler;

pub use compute::{
    compute, fleet_uptime_for, ExpiryItem, FleetReport, LongestOutage, MonitorReport, ReportIncident,
    ReportSummary,
};

verus! {

/// A stored report.
#[derive(Clone, Debug)]
pub struct Report {
    pub id: i64,
    pub period_start: i64,
    pub period_end: i64,
    pub label: String,
    pub generated_at: i64,
    pub summary_json: String,
    pub html_path: Option<String>,
    pub pdf_path: Option<String>,
    pub emailed_at: Option<i64>,
}

/// The year of a period text; 1970 where there is none.
pub open spec fn period_year(period: Seq<char>) -> int {
    match text::signed(text::split(period, '-')[0], i32::MIN as int, i32::MAX as int) {
        Some(y) => y,
        None => 1970,
    }
}

/// The month of a period text; January where there is none.
pub open spec fn period_month(period: Seq<char>) -> int {
    let parts = text::split(period, '-');
    if parts.len() < 2 {
        1
    } else {
        match text::unsigned(parts[1], u32::MAX as int) {
            Some(m) => if 1 <= m <= 12 {
                m
            } else {
                1
            },
            None => 1,
        }
    }
}

/// The year and month that a period text names; January 1970 where the calendar does not reach
/// that year.
pub open spec fn month_first(period: Seq<char>) -> (int, int) {
    let y = period_year(period);
    if clock::YEAR_MIN <= y <= clock::YEAR_MAX {
        (y, period_month(period))
    } else {
        (1970, 1)
    }
}

/// A month of the calendar.
pub open spec fn valid_month(y: int, m: int) -> bool {
    clock::YEAR_MIN <= y <= clock::YEAR_MAX && 1 <= m <= 12
}

/// The first second of a month.
pub open spec fn month_start(y: int, m: int) -> int {
    clock::day_number(y, m, 1) * clock::DAY_SECONDS
}

/// The month after a month; the last month of the calendar has itself.
pub open spec fn month_next(y: int, m: int) -> (int, int) {
    let n = clock::month_after(y, m);
    if n.0 <= clock::YEAR_MAX {
        n
    } else {
        (y, m)
    }
}

/// The month before a month; the first month of the calendar has itself.
pub open spec fn month_prior(y: int, m: int) -> (int, int) {
    let p = clock::month_before(y, m);
    if p.0 >= clock::YEAR_MIN {
        p
    } else {
        (y, m)
    }
}

/// The text of the month that a second lies in; a second outside the calendar reads as the epoch.
pub open spec fn month_at(epoch: int) -> Seq<char> {
    let day = if clock::CALENDAR_MIN <= epoch <= clock::CALENDAR_MAX {
        clock::day_index(epoch)
    } else {
        0
    };
    let date = clock::date_of(day);
    clock::month_text(date.0, date.1)
}

/// Reads `YYYY-MM` as a year and a month.
fn parse_month_first(period: &str) -> (r: (i32, u32))
    ensures
        (r.0 as int, r.1 as int) == month_first(period@),
        valid_month(r.0 as int, r.1 as int),
        clock::valid_date(r.0 as int, r.1 as int, 1),
{
    let parts = text::split_on(period, '-');
    proof {
        text::law_split_join(period@, '-');
        assert(parts@[0]@ == text::split(period@, '-')[0]);
    }
    let y: i32 = match text::parse_i32(parts[0].as_str()) {
        Some(y) => y,
        None => 1970,
    };
    let m: u32 = if parts.len() < 2 {
        1
    } else {
        assert(parts@[1]@ == text::split(period@, '-')[1]);
        match text::parse_u32(parts[1].as_str()) {
            Some(m) => if 1 <= m && m <= 12 {
                m
            } else {
                1
            },
            None => 1,
        }
    };
    match clock::midnight(y, m, 1) {
        Some(_) => (y, m),
        None => (1970, 1),
    }
}

/// The month that a second lies in, as `YYYY-MM` in UTC.
pub fn month_of(epoch: i64) -> (r: String)
    ensures
        r@ == month_at(epoch as int),
{
    proof {
        reveal_strlit("%Y-%m");
        reveal_strlit("%Y-%m-%d");
        assert("%Y-%m"@.len() != "%Y-%m-%d"@.len());
    }
    match clock::utc_date(epoch) {
        Some((y, m, d)) => {
            proof {
                clock::law_dates_are_unique(
                    clock::day_index(epoch as int),
                    (y as int, m as int, d as int),
                );
            }
            clock::format_date(y, m, d, "%Y-%m")
        },
        None => {
            proof {
                assert(clock::days_before_month(1970, 1) == 0);
                assert(clock::dates(0, (1970int, 1int, 1int)));
                clock::law_dates_are_unique(0, (1970int, 1int, 1int));
            }
            clock::format_date(1970, 1, 1, "%Y-%m")
        },
    }
}

/// The first second of a period's month, and the first second after it.
pub open spec fn period_bounds(period: Seq<char>) -> (int, int) {
    let f = month_first(period);
    let n = month_next(f.0, f.1);
    (month_start(f.0, f.1), month_start(n.0, n.1))
}

/// The start and the exclusive end of a month, in UTC.
pub fn month_bounds(period: &str) -> (r: (i64, i64))
    ensures
        (r.0 as int, r.1 as int) == period_bounds(period@),
        clock::CALENDAR_MIN <= r.0 <= r.1 <= clock::CALENDAR_MAX,
        r.1 - r.0 <= 31 * 86400,
{
    let (y, m) = parse_month_first(period);
    let (ny, nm) = match clock::following_month(y, m) {
        Some(n) => n,
        None => (y, m),
    };
    proof {
        clock::lemma_month_length(y as int, m as int);
    }
    let start: i64 = match clock::midnight(y, m, 1) {
        Some(t) => t,
        None => 0,
    };
    let end: i64 = match clock::midnight(ny, nm, 1) {
        Some(t) => t,
        None => 0,
    };
    (start, end)
}

/// The name of a period's month and its year.
pub open spec fn label_of(period: Seq<char>) -> Seq<char> {
    let f = month_first(period);
    clock::month_name(f.1) + seq![' '] + clock::year_text(f.0)
}

/// Names a month: `March 2026` for `2026-03`.
pub fn month_label(period: &str) -> (r: String)
    ensures
        r@ == label_of(period@),
{
    let (y, m) = parse_month_first(period);
    proof {
        reveal_strlit("%B %Y");
        reveal_strlit("%Y-%m");
        reveal_strlit("%Y-%m-%d");
        assert("%B %Y"@[1] != "%Y-%m"@[1]);
        assert("%B %Y"@[1] != "%Y-%m-%d"@[1]);
    }
    clock::format_date(y, m, 1, "%B %Y")
}

/// The text of the month before a period.
pub open spec fn prior_of(period: Seq<char>) -> Seq<char> {
    let f = month_first(period);
    let p = month_prior(f.0, f.1);
    clock::month_text(p.0, p.1)
}

/// The text of the month after a period.
pub open spec fn next_of(period: Seq<char>) -> Seq<char> {
    let f = month_first(period);
    let n = month_next(f.0, f.1);
    clock::month_text(n.0, n.1)
}

fn month_string(y: i32, m: u32) -> (r: String)
    requires
        valid_month(y as int, m as int),
    ensures
        r@ == clock::month_text(y as int, m as int),
{
    proof {
        reveal_strlit("%Y-%m");
        reveal_strlit("%Y-%m-%d");
        assert("%Y-%m"@.len() != "%Y-%m-%d"@.len());
    }
    clock::format_date(y, m, 1, "%Y-%m")
}

/// The month before a period.
pub fn prior_month(period: &str) -> (r: String)
    ensures
        r@ == prior_of(period@),
{
    let (y, m) = parse_month_first(period);
    let (py, pm) = match clock::preceding_month(y, m) {
        Some(p) => p,
        None => (y, m),
    };
    month_string(py, pm)
}

/// The month after a period.
pub fn next_month(period: &str) -> (r: String)
    ensures
        r@ == next_of(period@),
{
    let (y, m) = parse_month_first(period);
    let (ny, nm) = match clock::following_month(y, m) {
        Some(n) => n,
        None => (y, m),
    };
    month_string(ny, nm)
}

/// The text of a month names the month, for every year that is not negative.
pub proof fn law_month_text_reads_back(y: int, m: int)
    requires
        valid_month(y, m),
        0 <= y,
    ensures
        month_first(clock::month_text(y, m)) == (y, m),
{
    let year = clock::year_text(y);
    let month = text::padded(m as nat, 2);
    let digits = text::padded(y as nat, 4);
    text::law_padded_round_trip(y as nat, 4);
    text::law_padded_round_trip(m as nat, 2);
    assert(text::is_digit(digits[0]));
    if year.contains('-') {
        let k = choose|k: int| 0 <= k < year.len() && year[k] == '-';
        if y <= 9999 {
            assert(text::is_digit(digits[k]));
        } else if k > 0 {
            assert(text::is_digit(digits[k - 1]));
        }
    }
    if month.contains('-') {
        let k = choose|k: int| 0 <= k < month.len() && month[k] == '-';
        assert(text::is_digit(month[k]));
    }
    text::law_split_at(year, month, '-');
    text::law_split_alone(month, '-');
    let parts = text::split(clock::month_text(y, m), '-');
    assert(parts =~= seq![year, month]);
    assert(text::is_digit(month[0]));
    if y > 9999 {
        assert(year[0] == '+');
        assert(text::unplus(year) =~= digits);
    }
}

/// A month starts where the month before it ends.
pub proof fn law_months_meet(y: int, m: int)
    requires
        valid_month(y, m),
        0 <= y,
        clock::month_after(y, m).0 <= clock::YEAR_MAX,
    ensures
        period_bounds(clock::month_text(y, m)).1 == period_bounds(
            next_of(clock::month_text(y, m)),
        ).0,
        period_bounds(clock::month_text(y, m)).0 < period_bounds(clock::month_text(y, m)).1,
{
    law_month_text_reads_back(y, m);
    let n = clock::month_after(y, m);
    law_month_text_reads_back(n.0, n.1);
    clock::lemma_month_length(y, m);
}

/// The bounds of a second's month hold the second.
pub proof fn law_month_bounds_hold_their_month(epoch: int)
    requires
        clock::CALENDAR_MIN <= epoch <= clock::CALENDAR_MAX,
        0 <= clock::date_of(clock::day_index(epoch)).0,
        clock::month_after(
            clock::date_of(clock::day_index(epoch)).0,
            clock::date_of(clock::day_index(epoch)).1,
        ).0 <= clock::YEAR_MAX,
    ensures
        period_bounds(month_at(epoch)).0 <= epoch < period_bounds(month_at(epoch)).1,
{
    let day = clock::day_index(epoch);
    clock::law_every_day_has_a_date(day);
    let date = clock::date_of(day);
    law_month_text_reads_back(date.0, date.1);
    clock::lemma_month_length(date.0, date.1);
}

/// The month after the month before a month is the month again.
pub proof fn law_next_undoes_prior(y: int, m: int)
    requires
        valid_month(y, m),
        0 <= clock::month_before(y, m).0,
    ensures
        next_of(prior_of(clock::month_text(y, m))) == clock::month_text(y, m),
{
    let p = clock::month_before(y, m);
    law_month_text_reads_back(y, m);
    law_month_text_reads_back(p.0, p.1);
}

/// The subject of a report's message.
pub open spec fn report_subject(label: Seq<char>, uptime: Option<i64>) -> Seq<char> {
    "Vigil monthly report — "@ + label + " — "@ + digest::shown_pct(uptime, "n/a"@) + " uptime"@
}

/// The plain text of a report's message.
pub open spec fn report_text(label: Seq<char>) -> Seq<char> {
    "Vigil monthly report for "@ + label + ". Open the HTML version for the full report."@
}

/// Writes the subject and the plain text that carry a report by mail. The fleet's uptime comes in
/// hundredths of a percent.
pub fn send_report_email(label: &str, uptime: Option<i64>) -> (r: (String, String))
    ensures
        r.0@ == report_subject(label@, uptime),
        r.1@ == report_text(label@),
{
    let shown = digest::show_pct(uptime, "n/a");
    let mut subject = text::own("Vigil monthly report — ");
    subject.append(label);
    subject.append(" — ");
    subject.append(shown.as_str());
    subject.append(" uptime");
    let mut body = text::own("Vigil monthly report for ");
    body.append(label);
    body.append(". Open the HTML version for the full report.");
    (subject, body)
}

/// A report's message says which month it is for and how the fleet did, in percent with two decimals.
pub proof fn law_report_message(label: Seq<char>, uptime: Option<i64>)
    ensures
        uptime matches Some(h) ==> report_subject(label, uptime) == "Vigil monthly report — "@ + label
            + " — "@ + (numbers::fixed2(h as int) + "%"@) + " uptime"@,
        uptime is None ==> report_subject(label, uptime) == "Vigil monthly report — "@ + label
            + " — "@ + "n/a"@ + " uptime"@,
        text::within(report_text(label), label),
{
    text::law_ends_are_held("Vigil monthly report for "@, label);
    text::law_ends_are_held(
        "Vigil monthly report for "@ + label,
        ". Open the HTML version for the full report."@,
    );
}

/// A period of the form `YYYY-MM` covers its month, from its first second to that of the next; it is
/// named after the month, follows the month before it and is followed by the month after it.
pub proof fn law_period_is_its_month(y: int, m: int)
    requires
        valid_month(y, m),
        0 <= y,
        clock::month_before(y, m).0 >= 0,
        clock::month_after(y, m).0 <= clock::YEAR_MAX,
    ensures
        ({
            let period = clock::month_text(y, m);
            let after = if m == 12 {
                (y + 1, 1int)
            } else {
                (y, m + 1)
            };
            let before = if m == 1 {
                (y - 1, 12int)
            } else {
                (y, m - 1)
            };
            &&& period_bounds(period).0 == clock::day_number(y, m, 1) * 86400
            &&& period_bounds(period).1 == clock::day_number(after.0, after.1, 1) * 86400
            &&& label_of(period) == clock::month_name(m) + " "@ + clock::year_text(y)
            &&& prior_of(period) == clock::month_text(before.0, before.1)
            &&& next_of(period) == clock::month_text(after.0, after.1)
        }),
{
    law_month_text_reads_back(y, m);
    reveal_strlit(" ");
    assert(" "@ =~= seq![' ']);
}

} // verus!
