//! Requests about incidents.

use vstd::prelude::*;

use crate::models::Ts;
use crate::text;

verus! {

/// An incident with the name of its monitor.
#[derive(Clone, Debug)]
pub struct IncidentDto {
    pub id: i64,
    pub monitor_id: i64,
    pub monitor_name: String,
    pub started_at: i64,
    pub resolved_at: Option<i64>,
    pub duration_seconds: Option<i64>,
    pub cause: Option<String>,
    pub status_code: Option<i64>,
    pub error_message: Option<String>,
    pub acknowledged: bool,
}

/// Which incidents to list.
#[derive(Clone, Debug)]
pub struct ListQuery {
    pub monitor_id: Option<i64>,
    pub range: Option<String>,
}

/// The columns of a listed incident.
#[derive(Clone, Debug)]
pub struct IncidentColumns {
    pub id: i64,
    pub monitor_id: i64,
    pub monitor_name: String,
    pub started_at: i64,
    pub resolved_at: Option<i64>,
    pub duration_seconds: Option<i64>,
    pub cause: Option<String>,
    pub status_code: Option<i64>,
    pub error_message: Option<String>,
    pub acknowledged: i64,
}

/// The length of a named range; thirty days where it is not known.
pub open spec fn window_of(range: Option<Seq<char>>) -> int {
    if range == Some("24h"@) {
        86400
    } else if range == Some("7d"@) {
        604800
    } else if range == Some("90d"@) {
        7776000
    } else {
        2592000
    }
}

/// The length of a named range, in seconds.
pub fn range_window_seconds(range: &Option<String>) -> (r: i64)
    ensures
        r == window_of(text::view_opt(*range)),
{
    match range {
        Some(s) => if text::same(s.as_str(), "24h") {
            86400
        } else if text::same(s.as_str(), "7d") {
            7 * 86400
        } else if text::same(s.as_str(), "90d") {
            90 * 86400
        } else {
            30 * 86400
        },
        None => 30 * 86400,
    }
}

/// Where the list of incidents starts.
pub fn list_start(query: &ListQuery, now: Ts) -> (r: Ts)
    requires
        now - 7776000 >= i64::MIN,
    ensures
        r == now - window_of(text::view_opt(query.range)),
{
    now - range_window_seconds(&query.range)
}

/// `r` is a listed incident.
pub open spec fn is_listed(r: IncidentDto, row: IncidentColumns) -> bool {
    &&& r.id == row.id
    &&& r.monitor_id == row.monitor_id
    &&& r.monitor_name == row.monitor_name
    &&& r.started_at == row.started_at
    &&& r.resolved_at == row.resolved_at
    &&& r.duration_seconds == row.duration_seconds
    &&& r.cause == row.cause
    &&& r.status_code == row.status_code
    &&& r.error_message == row.error_message
    &&& r.acknowledged == (row.acknowledged != 0)
}

/// Reads a listed incident.
pub fn list_row(row: IncidentColumns) -> (r: IncidentDto)
    ensures
        is_listed(r, row),
{
    IncidentDto {
        id: row.id,
        monitor_id: row.monitor_id,
        monitor_name: row.monitor_name,
        started_at: row.started_at,
        resolved_at: row.resolved_at,
        duration_seconds: row.duration_seconds,
        cause: row.cause,
        status_code: row.status_code,
        error_message: row.error_message,
        acknowledged: row.acknowledged != 0,
    }
}

/// A listed incident shows its columns: nobody took note of it exactly where the column is zero.
pub proof fn law_listed_incident(r: IncidentDto, row: IncidentColumns)
    requires
        is_listed(r, row),
    ensures
        r.id == row.id && r.monitor_id == row.monitor_id,
        r.monitor_name@ == row.monitor_name@,
        r.started_at == row.started_at && r.resolved_at == row.resolved_at,
        r.duration_seconds == row.duration_seconds,
        r.cause == row.cause && r.status_code == row.status_code && r.error_message
            == row.error_message,
        !r.acknowledged <==> row.acknowledged == 0,
{
}

/// The named ranges are a day, a week and ninety days; what is not known, or not named, is thirty days.
pub proof fn law_named_ranges(range: Seq<char>)
    ensures
        window_of(Some("24h"@)) == 86400,
        window_of(Some("7d"@)) == 7 * 86400,
        window_of(Some("90d"@)) == 90 * 86400,
        window_of(None) == 30 * 86400,
        range != "24h"@ && range != "7d"@ && range != "90d"@ ==> window_of(Some(range)) == 30 * 86400,
{
    reveal_strlit("24h");
    reveal_strlit("7d");
    reveal_strlit("90d");
    assert("24h"@[0] == '2' && "90d"@[0] == '9' && "7d"@.len() == 2);
}

} // verus!
