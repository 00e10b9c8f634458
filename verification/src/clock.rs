//! Calendar and cron primitives.

use chrono::Datelike;
use vstd::prelude::*;

use crate::text;

verus! {

/// The first second of the calendar that `chrono` represents.
pub const CALENDAR_MIN: i64 = -8_334_601_228_800;

/// The last second of the calendar that `chrono` represents.
pub const CALENDAR_MAX: i64 = 8_210_266_876_799;

/// The first second of the year 5000, where cron searches end.
pub const CRON_HORIZON: i64 = 95_617_584_000;

pub const DAY_SECONDS: i64 = 86_400;

// ---- the proleptic Gregorian calendar ----

/// The years that `chrono` represents.
pub const YEAR_MIN: i32 = -262_143;

pub const YEAR_MAX: i32 = 262_142;

/// A leap year.
pub open spec fn leap(y: int) -> bool {
    y % 4 == 0 && (y % 100 != 0 || y % 400 == 0)
}

/// How many days a month has.
pub open spec fn month_days(y: int, m: int) -> int {
    if m == 2 {
        if leap(y) {
            29
        } else {
            28
        }
    } else if m == 4 || m == 6 || m == 9 || m == 11 {
        30
    } else {
        31
    }
}

/// How many days of a year come before a month.
pub open spec fn days_before_month(y: int, m: int) -> int
    decreases m,
{
    if m <= 1 {
        0
    } else {
        days_before_month(y, m - 1) + month_days(y, m - 1)
    }
}

/// How many days come between the start of 1970 and the start of a year.
pub open spec fn days_before_year(y: int) -> int {
    365 * (y - 1970) + ((y - 1) / 4 - 492) - ((y - 1) / 100 - 19) + ((y - 1) / 400 - 4)
}

/// A date of the calendar.
pub open spec fn valid_date(y: int, m: int, d: int) -> bool {
    YEAR_MIN <= y <= YEAR_MAX && 1 <= m <= 12 && 1 <= d <= month_days(y, m)
}

/// How many days come between 1970-01-01 and a date.
pub open spec fn day_number(y: int, m: int, d: int) -> int {
    days_before_year(y) + days_before_month(y, m) + d - 1
}

/// `date` is the date of a day.
pub open spec fn dates(day: int, date: (int, int, int)) -> bool {
    valid_date(date.0, date.1, date.2) && day_number(date.0, date.1, date.2) == day
}

/// The date of a day of the calendar.
pub open spec fn date_of(day: int) -> (int, int, int) {
    choose|date: (int, int, int)| dates(day, date)
}

proof fn lemma_month_offsets(y: int)
    ensures
        days_before_month(y, 1) == 0,
        days_before_month(y, 2) == 31,
        days_before_month(y, 3) == 59 + if leap(y) { 1int } else { 0 },
        days_before_month(y, 4) == 90 + if leap(y) { 1int } else { 0 },
        days_before_month(y, 5) == 120 + if leap(y) { 1int } else { 0 },
        days_before_month(y, 6) == 151 + if leap(y) { 1int } else { 0 },
        days_before_month(y, 7) == 181 + if leap(y) { 1int } else { 0 },
        days_before_month(y, 8) == 212 + if leap(y) { 1int } else { 0 },
        days_before_month(y, 9) == 243 + if leap(y) { 1int } else { 0 },
        days_before_month(y, 10) == 273 + if leap(y) { 1int } else { 0 },
        days_before_month(y, 11) == 304 + if leap(y) { 1int } else { 0 },
        days_before_month(y, 12) == 334 + if leap(y) { 1int } else { 0 },
{
    reveal_with_fuel(days_before_month, 13);
}

proof fn lemma_year_length(y: int)
    ensures
        days_before_year(y + 1) == days_before_year(y) + if leap(y) { 366int } else { 365 },
{
    assert(y % 4 == 0 ==> y / 4 == (y - 1) / 4 + 1);
    assert(y % 4 != 0 ==> y / 4 == (y - 1) / 4);
    assert(y % 100 == 0 ==> y / 100 == (y - 1) / 100 + 1);
    assert(y % 100 != 0 ==> y / 100 == (y - 1) / 100);
    assert(y % 400 == 0 ==> y / 400 == (y - 1) / 400 + 1);
    assert(y % 400 != 0 ==> y / 400 == (y - 1) / 400);
    assert(y % 400 == 0 ==> y % 100 == 0);
    assert(y % 100 == 0 ==> y % 4 == 0);
}

proof fn lemma_years_ordered(a: int, b: int)
    requires
        a < b,
    ensures
        days_before_year(a) + 365 <= days_before_year(b),
        leap(a) ==> days_before_year(a) + 366 <= days_before_year(b),
    decreases b - a,
{
    lemma_year_length(b - 1);
    if a < b - 1 {
        lemma_years_ordered(a, b - 1);
    }
}

/// A month lasts from its first day to the first day of the month after it.
pub proof fn lemma_month_length(y: int, m: int)
    requires
        1 <= m <= 12,
    ensures
        28 <= month_days(y, m) <= 31,
        day_number(month_after(y, m).0, month_after(y, m).1, 1) == day_number(y, m, 1) + month_days(
            y,
            m,
        ),
{
    lemma_month_offsets(y);
    lemma_month_offsets(y + 1);
    lemma_year_length(y);
}

/// A later date has a larger day number.
pub proof fn law_days_are_ordered(a: (int, int, int), b: (int, int, int))
    requires
        valid_date(a.0, a.1, a.2),
        valid_date(b.0, b.1, b.2),
        a.0 < b.0 || (a.0 == b.0 && (a.1 < b.1 || (a.1 == b.1 && a.2 < b.2))),
    ensures
        day_number(a.0, a.1, a.2) < day_number(b.0, b.1, b.2),
{
    lemma_month_offsets(a.0);
    lemma_month_offsets(b.0);
    if a.0 < b.0 {
        lemma_years_ordered(a.0, b.0);
    }
}

/// Every day has at most one date.
pub proof fn law_dates_are_unique(day: int, a: (int, int, int))
    requires
        dates(day, a),
    ensures
        date_of(day) == a,
{
    let b = date_of(day);
    assert(dates(day, b));
    if a != b {
        if a.0 < b.0 || (a.0 == b.0 && (a.1 < b.1 || (a.1 == b.1 && a.2 < b.2))) {
            law_days_are_ordered(a, b);
        } else {
            law_days_are_ordered(b, a);
        }
    }
}

/// The first day of the calendar.
pub open spec fn first_day() -> int {
    CALENDAR_MIN as int / (DAY_SECONDS as int)
}

/// The last day of the calendar.
pub open spec fn last_day() -> int {
    CALENDAR_MAX as int / (DAY_SECONDS as int)
}

proof fn lemma_has_date_from(day: int)
    requires
        0 <= day <= last_day(),
    ensures
        exists|date: (int, int, int)| dates(day, date),
    decreases day,
{
    if day == 0 {
        lemma_month_offsets(1970);
        assert(dates(0, (1970int, 1int, 1int)));
    } else {
        lemma_has_date_from(day - 1);
        let (y, m, d) = date_of(day - 1);
        lemma_month_offsets(y);
        lemma_month_offsets(y + 1);
        lemma_year_length(y);
        lemma_month_offsets(YEAR_MAX as int);
        if d < month_days(y, m) {
            assert(dates(day, (y, m, d + 1)));
        } else if m < 12 {
            assert(dates(day, (y, m + 1, 1int)));
        } else {
            if y == YEAR_MAX {
                assert(day - 1 == last_day());
            }
            assert(dates(day, (y + 1, 1int, 1int)));
        }
    }
}

proof fn lemma_has_date_until(day: int)
    requires
        first_day() <= day <= 0,
    ensures
        exists|date: (int, int, int)| dates(day, date),
    decreases -day,
{
    if day == 0 {
        lemma_month_offsets(1970);
        assert(dates(0, (1970int, 1int, 1int)));
    } else {
        lemma_has_date_until(day + 1);
        let (y, m, d) = date_of(day + 1);
        lemma_month_offsets(y);
        lemma_month_offsets(y - 1);
        lemma_year_length(y - 1);
        if d > 1 {
            assert(dates(day, (y, m, d - 1)));
        } else if m > 1 {
            assert(dates(day, (y, m - 1, month_days(y, m - 1))));
        } else {
            if y == YEAR_MIN {
                assert(day + 1 == first_day());
            }
            assert(dates(day, (y - 1, 12int, 31int)));
        }
    }
}

/// Every day of the calendar has a date.
pub proof fn law_every_day_has_a_date(day: int)
    requires
        first_day() <= day <= last_day(),
    ensures
        dates(day, date_of(day)),
{
    if day >= 0 {
        lemma_has_date_from(day);
    } else {
        lemma_has_date_until(day);
    }
}

/// The day that a second lies in.
pub open spec fn day_index(epoch: int) -> int {
    epoch / (DAY_SECONDS as int)
}

/// `chrono`'s `DateTime::<Utc>::from_timestamp`, with the year, month and day of the result:
/// the date of the day that the second lies in, where the calendar reaches that far.
#[verifier::external_body]
pub(crate) fn utc_date(epoch: i64) -> (r: Option<(i32, u32, u32)>)
    ensures
        r is Some <==> CALENDAR_MIN <= epoch <= CALENDAR_MAX,
        r matches Some(d) ==> dates(day_index(epoch as int), (d.0 as int, d.1 as int, d.2 as int)),
{
    let at = chrono::DateTime::<chrono::Utc>::from_timestamp(epoch, 0)?;
    Some((at.year(), at.month(), at.day()))
}

/// `chrono`'s `NaiveDate::from_ymd_opt`, with the timestamp of the date's midnight in UTC: none
/// where there is no such date.
#[verifier::external_body]
pub(crate) fn midnight(y: i32, m: u32, d: u32) -> (r: Option<i64>)
    ensures
        r is Some <==> valid_date(y as int, m as int, d as int),
        r matches Some(t) ==> t == day_number(y as int, m as int, d as int) * DAY_SECONDS
            && CALENDAR_MIN <= t <= CALENDAR_MAX - (DAY_SECONDS - 1),
{
    let date = chrono::NaiveDate::from_ymd_opt(y, m, d)?;
    Some(date.and_hms_opt(0, 0, 0)?.and_utc().timestamp())
}

/// The month after a month.
pub open spec fn month_after(y: int, m: int) -> (int, int) {
    if m == 12 {
        (y + 1, 1)
    } else {
        (y, m + 1)
    }
}

/// The month before a month.
pub open spec fn month_before(y: int, m: int) -> (int, int) {
    if m == 1 {
        (y - 1, 12)
    } else {
        (y, m - 1)
    }
}

/// `chrono`'s `NaiveDate::checked_add_months` by one month, from the first day of a month: the
/// month after, where the calendar reaches that far.
#[verifier::external_body]
pub(crate) fn following_month(y: i32, m: u32) -> (r: Option<(i32, u32)>)
    requires
        valid_date(y as int, m as int, 1),
    ensures
        r is Some <==> month_after(y as int, m as int).0 <= YEAR_MAX,
        r matches Some(n) ==> (n.0 as int, n.1 as int) == month_after(y as int, m as int),
{
    let first = chrono::NaiveDate::from_ymd_opt(y, m, 1)?;
    let next = first.checked_add_months(chrono::Months::new(1))?;
    Some((next.year(), next.month()))
}

/// `chrono`'s `NaiveDate::checked_sub_months` by one month, from the first day of a month: the
/// month before, where the calendar reaches that far.
#[verifier::external_body]
pub(crate) fn preceding_month(y: i32, m: u32) -> (r: Option<(i32, u32)>)
    requires
        valid_date(y as int, m as int, 1),
    ensures
        r is Some <==> month_before(y as int, m as int).0 >= YEAR_MIN,
        r matches Some(n) ==> (n.0 as int, n.1 as int) == month_before(y as int, m as int),
{
    let first = chrono::NaiveDate::from_ymd_opt(y, m, 1)?;
    let prior = first.checked_sub_months(chrono::Months::new(1))?;
    Some((prior.year(), prior.month()))
}

// ---- dates as text ----

/// A year as text: four digits, with a sign outside of 0 to 9999.
pub open spec fn year_text(y: int) -> Seq<char> {
    if 0 <= y <= 9999 {
        text::padded(y as nat, 4)
    } else if y < 0 {
        seq!['-'] + text::padded((-y) as nat, 4)
    } else {
        seq!['+'] + text::padded(y as nat, 4)
    }
}

/// A month as `YYYY-MM`.
pub open spec fn month_text(y: int, m: int) -> Seq<char> {
    year_text(y) + seq!['-'] + text::padded(m as nat, 2)
}

/// A date as `YYYY-MM-DD`.
pub open spec fn day_text(y: int, m: int, d: int) -> Seq<char> {
    month_text(y, m) + seq!['-'] + text::padded(d as nat, 2)
}

/// The English name of a month.
pub open spec fn month_name(m: int) -> Seq<char> {
    if m == 1 {
        "January"@
    } else if m == 2 {
        "February"@
    } else if m == 3 {
        "March"@
    } else if m == 4 {
        "April"@
    } else if m == 5 {
        "May"@
    } else if m == 6 {
        "June"@
    } else if m == 7 {
        "July"@
    } else if m == 8 {
        "August"@
    } else if m == 9 {
        "September"@
    } else if m == 10 {
        "October"@
    } else if m == 11 {
        "November"@
    } else {
        "December"@
    }
}

/// A date in one of the formats that the library writes.
pub open spec fn formatted(y: int, m: int, d: int, fmt: Seq<char>) -> Seq<char> {
    if fmt == "%Y-%m-%d"@ {
        day_text(y, m, d)
    } else if fmt == "%Y-%m"@ {
        month_text(y, m)
    } else {
        month_name(m) + seq![' '] + year_text(y)
    }
}

/// `chrono`'s `NaiveDate::format`, on the three formats that the library writes: a day, a month,
/// and a month with its English name.
#[verifier::external_body]
pub(crate) fn format_date(y: i32, m: u32, d: u32, fmt: &str) -> (r: String)
    requires
        valid_date(y as int, m as int, d as int),
        fmt@ == "%Y-%m-%d"@ || fmt@ == "%Y-%m"@ || fmt@ == "%B %Y"@,
    ensures
        r@ == formatted(y as int, m as int, d as int, fmt@),
{
    chrono::NaiveDate::from_ymd_opt(y, m, d).unwrap_or_default().format(fmt).to_string()
}

/// The two digits of a number below a hundred.
spec fn two(n: int) -> Seq<char> {
    seq![text::digit((n / 10) as nat), text::digit((n % 10) as nat)]
}

proof fn lemma_two(n: int)
    requires
        0 <= n < 100,
    ensures
        text::padded(n as nat, 2) == two(n),
{
    reveal_with_fuel(text::dec_nat, 3);
    reveal_with_fuel(text::padded, 3);
    assert(text::padded(n as nat, 2) =~= two(n));
}

proof fn lemma_four(n: int)
    requires
        0 <= n < 10000,
    ensures
        text::padded(n as nat, 4) == two(n / 100) + two(n % 100),
{
    reveal_with_fuel(text::dec_nat, 5);
    reveal_with_fuel(text::padded, 5);
    assert(n / 10 / 10 == n / 100);
    assert(n / 100 / 10 == n / 1000);
    assert(n / 10 % 10 == n % 100 / 10);
    assert(n % 100 % 10 == n % 10);
    assert(text::padded(n as nat, 4) =~= two(n / 100) + two(n % 100));
}

proof fn lemma_two_ordered(a: int, b: int)
    requires
        0 <= a < b < 100,
    ensures
        text::before(two(a), two(b)),
{
    let x = two(a);
    let y = two(b);
    reveal_with_fuel(text::at_most, 3);
    assert(x[0] == text::digit((a / 10) as nat) && x[1] == text::digit((a % 10) as nat));
    assert(y[0] == text::digit((b / 10) as nat) && y[1] == text::digit((b % 10) as nat));
    if a / 10 == b / 10 {
        let u = x.subrange(1, 2);
        let v = y.subrange(1, 2);
        assert(u[0] == x[1] && v[0] == y[1]);
        assert(u[0] < v[0]);
        assert(text::before(u, v));
    } else {
        assert(x[0] < y[0]);
    }
}

proof fn lemma_four_ordered(a: int, b: int)
    requires
        0 <= a < b < 10000,
    ensures
        text::before(text::padded(a as nat, 4), text::padded(b as nat, 4)),
        text::padded(a as nat, 4).len() == 4,
        text::padded(b as nat, 4).len() == 4,
{
    lemma_four(a);
    lemma_four(b);
    if a / 100 == b / 100 {
        lemma_two_ordered(a % 100, b % 100);
        text::law_common_front(two(a / 100), two(a % 100), two(b % 100));
    } else {
        lemma_two_ordered(a / 100, b / 100);
        text::law_fronts_decide(two(a / 100), two(b / 100), two(a % 100), two(b % 100));
    }
}

/// A month of a four-digit year is written with four digits, a dash and two digits.
pub proof fn law_month_text_shape(y: int, m: int)
    requires
        0 <= y <= 9999,
        1 <= m <= 12,
    ensures
        month_text(y, m).len() == 7,
        month_text(y, m)[4] == '-',
        forall|i: int| 0 <= i < 7 && i != 4 ==> text::is_digit(#[trigger] month_text(y, m)[i]),
{
    lemma_four(y);
    lemma_two(m);
    let t = two(y / 100) + two(y % 100) + seq!['-'] + two(m);
    assert(month_text(y, m) =~= t);
    assert forall|i: int| 0 <= i < 7 && i != 4 implies text::is_digit(
        #[trigger] month_text(y, m)[i],
    ) by {
        assert(t[i] == if i < 2 {
            two(y / 100)[i]
        } else if i < 4 {
            two(y % 100)[i - 2]
        } else {
            two(m)[i - 5]
        });
    }
}

/// Months of four-digit years compare as texts as they do in time.
pub proof fn law_month_texts_are_ordered(a: (int, int), b: (int, int))
    requires
        valid_date(a.0, a.1, 1),
        valid_date(b.0, b.1, 1),
        0 <= a.0 <= 9999,
        0 <= b.0 <= 9999,
        a.0 < b.0 || (a.0 == b.0 && a.1 < b.1),
    ensures
        text::before(month_text(a.0, a.1), month_text(b.0, b.1)),
        month_text(a.0, a.1).len() == 7,
        month_text(b.0, b.1).len() == 7,
{
    lemma_two(a.1);
    lemma_two(b.1);
    lemma_four(a.0);
    lemma_four(b.0);
    let x = seq!['-'] + two(a.1);
    let y = seq!['-'] + two(b.1);
    assert(month_text(a.0, a.1) =~= year_text(a.0) + x);
    assert(month_text(b.0, b.1) =~= year_text(b.0) + y);
    if a.0 < b.0 {
        lemma_four_ordered(a.0, b.0);
        text::law_fronts_decide(year_text(a.0), year_text(b.0), x, y);
    } else {
        lemma_two_ordered(a.1, b.1);
        text::law_common_front(seq!['-'], two(a.1), two(b.1));
        text::law_common_front(year_text(a.0), x, y);
    }
}

/// Dates of four-digit years compare as texts as they do in time.
pub proof fn law_day_texts_are_ordered(a: (int, int, int), b: (int, int, int))
    requires
        valid_date(a.0, a.1, a.2),
        valid_date(b.0, b.1, b.2),
        0 <= a.0 <= 9999,
        0 <= b.0 <= 9999,
        a.0 < b.0 || (a.0 == b.0 && (a.1 < b.1 || (a.1 == b.1 && a.2 < b.2))),
    ensures
        text::before(day_text(a.0, a.1, a.2), day_text(b.0, b.1, b.2)),
{
    lemma_two(a.2);
    lemma_two(b.2);
    let x = seq!['-'] + two(a.2);
    let y = seq!['-'] + two(b.2);
    assert(day_text(a.0, a.1, a.2) =~= month_text(a.0, a.1) + x);
    assert(day_text(b.0, b.1, b.2) =~= month_text(b.0, b.1) + y);
    if a.0 < b.0 || a.1 < b.1 {
        law_month_texts_are_ordered((a.0, a.1), (b.0, b.1));
        text::law_fronts_decide(month_text(a.0, a.1), month_text(b.0, b.1), x, y);
    } else {
        lemma_two_ordered(a.2, b.2);
        text::law_common_front(seq!['-'], two(a.2), two(b.2));
        text::law_common_front(month_text(a.0, a.1), x, y);
    }
}

/// The midnight in UTC of the date that `chrono`'s `NaiveDate::parse_from_str` reads from a text,
/// if it reads one.
pub uninterp spec fn parsed_date(s: Seq<char>, fmt: Seq<char>) -> Option<int>;

/// The second in UTC of the time that `chrono`'s `NaiveDateTime::parse_from_str` reads from a
/// text, if it reads one.
pub uninterp spec fn parsed_datetime(s: Seq<char>, fmt: Seq<char>) -> Option<int>;

/// The second of the time that `chrono`'s `DateTime::parse_from_rfc3339` reads from a text, if it
/// reads one.
pub uninterp spec fn parsed_rfc3339(s: Seq<char>) -> Option<int>;

/// `r` is the midnight of a date wherever `s` is the text of one.
pub open spec fn reads_back(s: Seq<char>, r: Option<i64>) -> bool {
    forall|y: int, m: int, d: int|
        valid_date(y, m, d) && s == #[trigger] day_text(y, m, d) ==> r is Some && r->0
            == day_number(y, m, d) * DAY_SECONDS
}

/// `chrono`'s `NaiveDate::parse_from_str`, with the timestamp of the date's midnight in UTC.
///
/// The result is a midnight of the calendar. The day format reads back every date that it
/// writes.
#[verifier::external_body]
pub(crate) fn parse_date(s: &str, fmt: &str) -> (r: Option<i64>)
    ensures
        r is Some <==> parsed_date(s@, fmt@) is Some,
        r matches Some(t) ==> parsed_date(s@, fmt@) == Some(t as int) && t % DAY_SECONDS == 0
            && CALENDAR_MIN <= t <= CALENDAR_MAX - (DAY_SECONDS - 1),
        fmt@ == "%Y-%m-%d"@ ==> reads_back(s@, r),
{
    let date = chrono::NaiveDate::parse_from_str(s, fmt).ok()?;
    Some(date.and_hms_opt(0, 0, 0)?.and_utc().timestamp())
}

/// `chrono`'s `NaiveDateTime::parse_from_str`, with the timestamp of the result taken as UTC.
#[verifier::external_body]
pub(crate) fn parse_datetime(s: &str, fmt: &str) -> (r: Option<i64>)
    ensures
        r is Some <==> parsed_datetime(s@, fmt@) is Some,
        r matches Some(t) ==> parsed_datetime(s@, fmt@) == Some(t as int) && CALENDAR_MIN <= t
            <= CALENDAR_MAX,
{
    Some(chrono::NaiveDateTime::parse_from_str(s, fmt).ok()?.and_utc().timestamp())
}

/// `chrono`'s `DateTime::parse_from_rfc3339`, with the timestamp of the result.
#[verifier::external_body]
pub(crate) fn parse_rfc3339(s: &str) -> (r: Option<i64>)
    ensures
        r is Some <==> parsed_rfc3339(s@) is Some,
        r matches Some(t) ==> parsed_rfc3339(s@) == Some(t as int) && CALENDAR_MIN <= t
            <= CALENDAR_MAX,
{
    Some(chrono::DateTime::parse_from_rfc3339(s).ok()?.timestamp())
}

/// The whole days from one second to another, rounded down.
pub open spec fn days_between(now: int, until: int) -> int {
    (until - now) / (DAY_SECONDS as int)
}

/// Whole days from `now` until `until`, rounded down, so that less than a day past counts as one
/// day past.
pub fn days_until(until: i64, now: i64) -> (r: i64)
    ensures
        r == days_between(now as int, until as int),
{
    let span: i128 = until as i128 - now as i128;
    if span >= 0 {
        (span / 86_400) as i64
    } else {
        let back: i128 = (-span + 86_399) / 86_400;
        (-back) as i64
    }
}

// ---- cron ----

/// The first time at or after `from` that a five-field cron pattern matches, as
/// `croner::Cron::find_next_occurrence` finds it; none where the pattern does not parse, the
/// time is outside the calendar, or the search reaches its limit.
pub uninterp spec fn cron_next(expr: Seq<char>, from: int) -> Option<int>;

/// Whether `croner::Cron::parse` accepts a pattern.
pub uninterp spec fn cron_parses(expr: Seq<char>) -> bool;

/// `s` is a time that the pattern matches.
pub open spec fn cron_occurs(expr: Seq<char>, s: int) -> bool {
    cron_next(expr, s) == Some(s)
}

/// A time at which a cron search can start: one outside the calendar, which finds nothing, or
/// one that leaves the search room for the neighbouring days it looks at.
pub open spec fn cron_start(t: int) -> bool {
    t < CALENDAR_MIN || CALENDAR_MIN + DAY_SECONDS <= t <= CALENDAR_MAX - 31 * DAY_SECONDS || t
        > CALENDAR_MAX
}

/// `croner::Cron::parse`: whether the pattern parses.
#[verifier::external_body]
pub(crate) fn cron_valid(expr: &str) -> (r: bool)
    ensures
        r == cron_parses(expr@),
{
    croner::Cron::new(expr).parse().is_ok()
}

/// `croner::Cron::find_next_occurrence`, searching forward from `from` with `from` itself
/// included, on a pattern without a seconds field.
///
/// A time outside the calendar finds nothing. The time found is not before `from`, stands on a
/// full minute, and is the one found from
/// every time between the two. Where nothing is found from a time of the calendar, nothing is
/// found from any later time before the year 5000 either.
#[verifier::external_body]
pub(crate) fn cron_next_at(expr: &str, from: i64) -> (r: Option<i64>)
    requires
        cron_start(from as int),
    ensures
        match r {
            Some(s) => cron_next(expr@, from as int) == Some(s as int) && CALENDAR_MIN <= from <= s
                <= CALENDAR_MAX && s % 60 == 0 && forall|t: int|
                from <= t <= s ==> #[trigger] cron_next(expr@, t) == Some(s as int),
            None => cron_next(expr@, from as int) is None && (CALENDAR_MIN <= from ==> forall|
                t: int,
            |
                from <= t < CRON_HORIZON ==> #[trigger] cron_next(expr@, t) is None),
        },
{
    let at = chrono::DateTime::<chrono::Utc>::from_timestamp(from, 0)?;
    let cron = croner::Cron::new(expr).parse().ok()?;
    let next = cron.find_next_occurrence(&at, true).ok()?;
    Some(next.timestamp())
}

/// A day is left for every full day until a time: the last day counts none, and the first second past
/// the time counts as a day past.
pub proof fn law_days_are_whole(now: int, until: int)
    ensures
        days_between(now, until) * 86400 <= until - now < (days_between(now, until) + 1) * 86400,
        days_between(now, now) == 0,
        days_between(now, now - 1) == -1,
        days_between(now, until + 86400) == days_between(now, until) + 1,
{
}

/// The calendar's lengths: thirty days have the fourth, sixth, ninth and eleventh month, the second
/// has one more in a leap year than its twenty-eight, and the others have thirty-one; the count of
/// days starts with the year 1970.
pub proof fn law_lengths_of_the_calendar(y: int, m: int)
    requires
        1 <= m <= 12,
    ensures
        m == 4 || m == 6 || m == 9 || m == 11 ==> month_days(y, m) == 30,
        m == 1 || m == 3 || m == 5 || m == 7 || m == 8 || m == 10 || m == 12 ==> month_days(y, m) == 31,
        y % 4 != 0 ==> month_days(y, 2) == 28,
        y % 400 == 0 ==> month_days(y, 2) == 29,
        day_number(1970, 1, 1) == 0,
        day_number(y + 1, 1, 1) == day_number(y, 12, 31) + 1,
        m < 12 ==> day_number(y, m + 1, 1) == day_number(y, m, month_days(y, m)) + 1,
{
    lemma_month_offsets(y);
    lemma_month_offsets(y + 1);
    lemma_month_offsets(1970);
    assert(days_before_month(1970, 1) == 0);
    assert(days_before_month(y + 1, 1) == 0);
}

/// The months have their English names.
pub proof fn law_names_of_the_months()
    ensures
        month_name(1) == "January"@,
        month_name(2) == "February"@,
        month_name(3) == "March"@,
        month_name(4) == "April"@,
        month_name(5) == "May"@,
        month_name(6) == "June"@,
        month_name(7) == "July"@,
        month_name(8) == "August"@,
        month_name(9) == "September"@,
        month_name(10) == "October"@,
        month_name(11) == "November"@,
        month_name(12) == "December"@,
{
}

} // verus!
