//! Requests about reports.

use vstd::prelude::*;

use crate::api;
use crate::api::{invalid, ApiError};
use crate::clock;
use crate::digest::SendOutcome;
use crate::models::Ts;
use crate::report;
use crate::report::month_of;
use crate::text;

verus! {

/// A request to generate a report.
#[derive(Clone, Debug)]
pub struct GenerateDto {
    pub period: String,
}

/// A text of the shape `YYYY-MM`.
pub open spec fn is_period(s: Seq<char>) -> bool {
    s.len() == 7 && s[4] == '-' && forall|i: int|
        0 <= i < 7 && i != 4 ==> text::is_digit(#[trigger] s[i])
}

/// What is wrong with the period of a request, if anything.
pub open spec fn period_error(period: Seq<char>, now: int) -> Option<Seq<char>> {
    if !is_period(period) {
        Some("period must be YYYY-MM"@)
    } else if !text::at_most(period, report::month_at(now)) {
        Some("period is in the future"@)
    } else {
        None
    }
}

fn has_shape(period: &str) -> (r: bool)
    ensures
        r == is_period(period@),
{
    let v = text::chars(period);
    if v.len() != 7 || v[4] != '-' {
        return false;
    }
    let mut i: usize = 0;
    while i < 7
        invariant
            i <= 7,
            v@.len() == 7,
            v@ == period@,
            forall|k: int| 0 <= k < i && k != 4 ==> text::is_digit(#[trigger] v@[k]),
        decreases 7 - i,
    {
        if i != 4 && !('0' <= v[i] && v[i] <= '9') {
            assert(!text::is_digit(v@[i as int]));
            return false;
        }
        i += 1;
    }
    true
}

/// `r` says whether a report may be generated.
pub open spec fn is_generable(r: Result<(), ApiError>, period: Seq<char>, now: int) -> bool {
    &&& match r {
        Ok(_) => period_error(period, now) is None,
        Err(e) => period_error(period, now) is Some && api::refuses(
            e,
            api::UNPROCESSABLE,
            period_error(period, now)->0,
        ),
    }
}

/// Whether a report may be generated: its period is a month that is not in the future.
pub fn generate(dto: &GenerateDto, now: Ts) -> (r: Result<(), ApiError>)
    ensures
        is_generable(r, dto.period@, now as int),
{
    if !has_shape(dto.period.as_str()) {
        return Err(invalid(text::own("period must be YYYY-MM")));
    }
    let current = month_of(now);
    if !text::precedes(dto.period.as_str(), current.as_str()) {
        return Err(invalid(text::own("period is in the future")));
    }
    Ok(())
}

/// `r` tells how sending a report went.
pub open spec fn tells(outcome: SendOutcome, r: (bool, &'static str)) -> bool {
    &&& r.0 == (outcome == SendOutcome::Delivered)
    &&& r.1@ == match outcome {
        SendOutcome::Delivered => "Delivered"@,
        SendOutcome::NothingToSend => "NothingToSend"@,
        SendOutcome::AllFailed => "AllFailed"@,
    }
}

/// Whether a report was mailed, and what came of it by name.
pub fn email(outcome: SendOutcome) -> (r: (bool, &'static str))
    ensures
        tells(outcome, r),
{
    match outcome {
        SendOutcome::Delivered => (true, "Delivered"),
        SendOutcome::NothingToSend => (false, "NothingToSend"),
        SendOutcome::AllFailed => (false, "AllFailed"),
    }
}

/// The current month may be reported, and so may every earlier month of a four-digit year.
pub proof fn law_past_months_are_accepted(y: int, m: int, now: int, current: (int, int))
    requires
        report::valid_month(y, m),
        report::valid_month(current.0, current.1),
        report::month_at(now) == clock::month_text(current.0, current.1),
        0 <= y <= 9999,
        0 <= current.0 <= 9999,
        y < current.0 || (y == current.0 && m <= current.1),
    ensures
        period_error(clock::month_text(y, m), now) is None,
{
    clock::law_month_text_shape(y, m);
    if y == current.0 && m == current.1 {
        text::law_order_is_reflexive(clock::month_text(y, m));
    } else {
        clock::law_month_texts_are_ordered((y, m), current);
    }
}

/// A later month of a four-digit year is refused.
pub proof fn law_future_months_are_refused(y: int, m: int, now: int, current: (int, int))
    requires
        report::valid_month(y, m),
        report::valid_month(current.0, current.1),
        report::month_at(now) == clock::month_text(current.0, current.1),
        0 <= y <= 9999,
        0 <= current.0 <= 9999,
        current.0 < y || (current.0 == y && current.1 < m),
    ensures
        period_error(clock::month_text(y, m), now) == Some("period is in the future"@),
{
    clock::law_month_text_shape(y, m);
    clock::law_month_texts_are_ordered(current, (y, m));
}

/// A report is made of a month that is written as four digits, a dash and two digits and does not come
/// after the current one; anything else is unprocessable, for its shape first.
pub proof fn law_periods(r: Result<(), ApiError>, period: Seq<char>, now: int)
    requires
        is_generable(r, period, now),
    ensures
        r is Ok ==> period.len() == 7 && period[4] == '-' && text::at_most(
            period,
            report::month_at(now),
        ),
        r is Ok ==> forall|i: int| 0 <= i < 7 && i != 4 ==> '0' <= #[trigger] period[i] <= '9',
        is_period(period) && text::at_most(period, report::month_at(now)) ==> r is Ok,
        r matches Err(e) ==> e.status == 422 && (!is_period(period) ==> e.message@
            == "period must be YYYY-MM"@) && (is_period(period) ==> e.message@
            == "period is in the future"@),
{
}

/// Sending went well exactly where a report was delivered, and is told by the word of its outcome.
pub proof fn law_sending_is_told(outcome: SendOutcome, r: (bool, &'static str))
    requires
        tells(outcome, r),
    ensures
        r.0 <==> outcome == SendOutcome::Delivered,
        outcome == SendOutcome::Delivered ==> r.1@ == "Delivered"@,
        outcome == SendOutcome::NothingToSend ==> r.1@ == "NothingToSend"@,
        outcome == SendOutcome::AllFailed ==> r.1@ == "AllFailed"@,
{
}

} // verus!
