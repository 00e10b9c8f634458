//! Maintenance-window resolution: scope matching, one-off and cron active-at checks,
//! occurrence enumeration over a time range, and the interval arithmetic that takes
//! maintenance out of uptime denominators.
//!
//! Cron searches only run forward, so a search for what covers an instant starts a window's
//! length before that instant.

use vstd::prelude::*;

use crate::clock;
use crate::json;
use crate::json::Json;
use crate::models;
use crate::models::{MaintenanceWindow, Ts};
use crate::text;

verus! {

/// The strongest suppression that a window in scope applies to a monitor, from weakest to
/// strongest.
#[derive(Clone, Copy, Debug, PartialEq, Eq, Structural)]
pub enum Suppression {
    Nothing,
    Alerts,
    Checks,
}

/// The tags that a stored text names: none where it is not a JSON array of strings.
pub open spec fn tags_of(raw: Seq<char>) -> Seq<Seq<char>> {
    match json::json_strings(raw) {
        Some(tags) => tags,
        None => Seq::empty(),
    }
}

/// Reads a stored tag list; a text that is none reads as no tags.
pub fn parse_tags(raw: &str) -> (r: Vec<String>)
    ensures
        text::views(r@) == tags_of(raw@),
{
    match json::parse_strings(raw) {
        Some(v) => v,
        None => {
            let v: Vec<String> = Vec::new();
            assert(text::views(v@) =~= Seq::<Seq<char>>::empty());
            v
        },
    }
}

/// How many steps a cron search over a range of seconds may take: one per minute and two more,
/// and never under ten thousand.
pub open spec fn step_cap(range_seconds: int) -> int {
    let per_minute = (if range_seconds > 0 {
        range_seconds
    } else {
        0
    }) / 60 + 2;
    if per_minute > 10_000 {
        per_minute
    } else {
        10_000
    }
}

/// Computes [`step_cap`].
pub fn scan_cap(range_seconds: i64) -> (r: u64)
    ensures
        r == step_cap(range_seconds as int),
{
    let range: i64 = if range_seconds > 0 {
        range_seconds
    } else {
        0
    };
    let per_minute: u64 = (range / 60 + 2) as u64;
    if per_minute > 10_000 {
        per_minute
    } else {
        10_000
    }
}

/// The times from `t` to `limit` that a pattern matches, the first `steps` of them.
pub open spec fn cron_starts(expr: Seq<char>, t: int, limit: int, steps: nat) -> Seq<int>
    decreases steps,
{
    if steps == 0 {
        Seq::empty()
    } else {
        match clock::cron_next(expr, t) {
            Some(s) => if s > limit {
                Seq::empty()
            } else {
                seq![s] + cron_starts(expr, s + 1, limit, (steps - 1) as nat)
            },
            None => Seq::empty(),
        }
    }
}

/// A cron search from `anchor` to `limit` stays off the edges of the calendar.
pub open spec fn scannable(anchor: int, limit: int) -> bool {
    &&& anchor < clock::CALENDAR_MIN || clock::CALENDAR_MIN + clock::DAY_SECONDS <= anchor
    &&& anchor > clock::CALENDAR_MAX || (anchor <= clock::CALENDAR_MAX - 31 * clock::DAY_SECONDS
        && limit < clock::CALENDAR_MAX - 31 * clock::DAY_SECONDS)
    &&& limit - anchor <= i64::MAX
}

/// `starts` lists, in order, times of `anchor..=limit` that the pattern matches, and leaves out
/// none of those that stand before `end`.
pub open spec fn lists_starts(
    expr: Seq<char>,
    anchor: int,
    limit: int,
    end: int,
    starts: Seq<i64>,
) -> bool {
    &&& forall|k: int|
        0 <= k < starts.len() ==> anchor <= #[trigger] starts[k] <= limit && clock::cron_occurs(
            expr,
            starts[k] as int,
        )
    &&& forall|i: int, j: int| 0 <= i < j < starts.len() ==> starts[i] < starts[j]
    &&& forall|s: int|
        anchor <= s <= limit && s < end && #[trigger] clock::cron_occurs(expr, s) ==> exists|k: int|
            0 <= k < starts.len() && #[trigger] starts[k] == s
}

/// Searches forward from `anchor` and collects every start up to `limit`, at most `cap` of them.
fn collect_starts(expr: &str, anchor: Ts, limit: Ts, cap: u64) -> (r: Vec<Ts>)
    requires
        scannable(anchor as int, limit as int),
        cap >= 1,
    ensures
        r@.map_values(|s: i64| s as int) == cron_starts(
            expr@,
            anchor as int,
            limit as int,
            cap as nat,
        ),
        r@.len() <= cap,
        forall|k: int| 0 <= k < r@.len() ==> anchor <= #[trigger] r@[k] <= limit,
        clock::CALENDAR_MIN <= anchor && limit < clock::CRON_HORIZON ==> lists_starts(
            expr@,
            anchor as int,
            limit as int,
            if r@.len() == cap {
                r@.last() as int
            } else {
                limit + 1
            },
            r@,
        ),
        r@.len() > 0 ==> 60 * (r@.len() - 1) <= limit - anchor,
{
    let mut t: Ts = anchor;
    let mut out: Vec<Ts> = Vec::new();
    let mut steps: u64 = 0;
    let ghost goal = cron_starts(expr@, anchor as int, limit as int, cap as nat);
    let ghost plain = clock::CALENDAR_MIN <= anchor && limit < clock::CRON_HORIZON;
    assert(out@.map_values(|s: i64| s as int) + goal =~= goal);
    while steps < cap
        invariant
            scannable(anchor as int, limit as int),
            steps <= cap,
            steps == out@.len(),
            anchor <= t,
            t == anchor || t <= limit + 1,
            clock::cron_start(t as int),
            plain == (clock::CALENDAR_MIN <= anchor && limit < clock::CRON_HORIZON),
            out@.map_values(|s: i64| s as int) + cron_starts(
                expr@,
                t as int,
                limit as int,
                (cap - steps) as nat,
            ) == goal,
            goal == cron_starts(expr@, anchor as int, limit as int, cap as nat),
            forall|k: int| 0 <= k < out@.len() ==> anchor <= #[trigger] out@[k] <= limit,
            out@.len() > 0 ==> t == out@.last() + 1 && out@.last() >= anchor + 60 * (out@.len() - 1)
                && out@.last() % 60 == 0,
            lists_starts(expr@, anchor as int, limit as int, t as int, out@),
        decreases cap - steps,
    {
        let next = clock::cron_next_at(expr, t);
        let s: Ts = match next {
            Some(s) => s,
            None => {
                proof {
                    assert(cron_starts(expr@, t as int, limit as int, (cap - steps) as nat)
                        =~= Seq::<int>::empty());
                    assert(out@.map_values(|s: i64| s as int) =~= goal);
                    if plain {
                        assert forall|u: int|
                            anchor <= u <= limit && #[trigger] clock::cron_occurs(
                                expr@,
                                u,
                            ) implies exists|k: int|
                            0 <= k < out@.len() && #[trigger] out@[k] == u by {
                            if u >= t {
                                assert(clock::cron_next(expr@, u) is None);
                            }
                        }
                    }
                }
                return out;
            },
        };
        if s > limit {
            proof {
                assert(cron_starts(expr@, t as int, limit as int, (cap - steps) as nat)
                    =~= Seq::<int>::empty());
                assert(out@.map_values(|s: i64| s as int) =~= goal);
                assert forall|u: int|
                    anchor <= u <= limit && #[trigger] clock::cron_occurs(expr@, u) implies exists|
                    k: int,
                |
                    0 <= k < out@.len() && #[trigger] out@[k] == u by {
                    if u >= t {
                        assert(clock::cron_next(expr@, u) == Some(s as int));
                    }
                }
            }
            return out;
        }
        let ghost before = out@;
        out.push(s);
        proof {
            assert(clock::cron_next(expr@, s as int) == Some(s as int));
            assert(out@.map_values(|s: i64| s as int) + cron_starts(
                expr@,
                s + 1,
                limit as int,
                (cap - steps - 1) as nat,
            ) =~= before.map_values(|s: i64| s as int) + cron_starts(
                expr@,
                t as int,
                limit as int,
                (cap - steps) as nat,
            ));
            assert forall|u: int|
                anchor <= u <= limit && u < s + 1 && #[trigger] clock::cron_occurs(
                    expr@,
                    u,
                ) implies exists|k: int| 0 <= k < out@.len() && #[trigger] out@[k] == u by {
                if u >= t {
                    assert(clock::cron_next(expr@, u) == Some(s as int));
                    assert(out@[out@.len() - 1] == u);
                } else {
                    let k = choose|k: int| 0 <= k < before.len() && #[trigger] before[k] == u;
                    assert(out@[k] == u);
                }
            }
        }
        t = s + 1;
        steps += 1;
    }
    proof {
        assert(cron_starts(expr@, t as int, limit as int, 0) =~= Seq::<int>::empty());
        assert(out@.map_values(|s: i64| s as int) =~= goal);
    }
    out
}

/// Whether a one-off window covers `now`, both ends included.
pub open spec fn one_off_active(window: MaintenanceWindow, now: int) -> bool {
    window.starts_at <= now <= window.ends_at
}

/// The length of a window.
pub open spec fn length(window: MaintenanceWindow) -> int {
    window.ends_at - window.starts_at
}

/// Where a search for what covers `from` starts: a window's length earlier, and not before the
/// window's first start.
pub open spec fn search_anchor(window: MaintenanceWindow, from: int) -> int {
    if window.starts_at > from - length(window) {
        window.starts_at as int
    } else {
        from - length(window)
    }
}

/// A recurring window covers `now`: the last start that the search finds is at most a window's
/// length past.
pub open spec fn recurring_active(window: MaintenanceWindow, expr: Seq<char>, now: int) -> bool {
    let anchor = search_anchor(window, now);
    let starts = cron_starts(expr, anchor, now, step_cap(now - anchor) as nat);
    length(window) > 0 && starts.len() > 0 && starts.last() >= window.starts_at && now
        < starts.last() + length(window)
}

/// Whether a window covers `now`.
pub open spec fn active_at(window: MaintenanceWindow, now: int) -> bool {
    match window.recurrence {
        None => one_off_active(window, now),
        Some(expr) => recurring_active(window, expr@, now),
    }
}

/// The arithmetic of a window's search around `now` stays within 64 bits and off the edges of
/// the calendar.
pub open spec fn resolvable(window: MaintenanceWindow, now: int) -> bool {
    window.recurrence is Some ==> {
        &&& i64::MIN <= length(window) <= i64::MAX
        &&& length(window) > 0 ==> i64::MIN <= now - length(window) <= i64::MAX && scannable(
            search_anchor(window, now),
            now,
        )
    }
}

/// Whether a window can be resolved at `now`.
pub fn can_resolve(window: &MaintenanceWindow, now: Ts) -> (r: bool)
    ensures
        r == resolvable(*window, now as int),
{
    match &window.recurrence {
        None => true,
        Some(_) => {
            let at: i128 = now as i128;
            let len: i128 = window.ends_at as i128 - window.starts_at as i128;
            let low: i128 = i64::MIN as i128;
            let high: i128 = i64::MAX as i128;
            if len < low || len > high {
                return false;
            }
            if len <= 0 {
                return true;
            }
            let anchor: i128 = if window.starts_at as i128 > at - len {
                window.starts_at as i128
            } else {
                at - len
            };
            low <= at - len && can_scan(anchor, at)
        },
    }
}

/// The pattern matches at `s`, and the occurrence that starts there covers `now`.
pub open spec fn covering_start(
    window: MaintenanceWindow,
    expr: Seq<char>,
    now: int,
    s: int,
) -> bool {
    clock::cron_occurs(expr, s) && window.starts_at <= s <= now < s + length(window)
}

/// Whether `window` is active at `now`.
///
/// A one-off window is active from its start to its end, both included. A recurring one is
/// active while an occurrence that started at or after `starts_at` still runs; a pattern that
/// does not parse or a window without a positive length is never active.
pub fn window_active_at(window: &MaintenanceWindow, now: Ts) -> (r: bool)
    requires
        resolvable(*window, now as int),
    ensures
        r == active_at(*window, now as int),
        window.recurrence matches Some(expr) ==> clock::CALENDAR_MIN <= search_anchor(
            *window,
            now as int,
        ) && now < clock::CRON_HORIZON ==> r == exists|s: int| #[trigger]
            covering_start(*window, expr@, now as int, s),
{
    match &window.recurrence {
        None => window.starts_at <= now && now <= window.ends_at,
        Some(expr) => {
            let dur: i64 = window.ends_at - window.starts_at;
            if dur <= 0 {
                return false;
            }
            let back: i64 = now - dur;
            let anchor: Ts = if window.starts_at > back {
                window.starts_at
            } else {
                back
            };
            match last_occurrence_start(expr.as_str(), anchor, now) {
                Some(s) => {
                    let r = s >= window.starts_at && now - s < dur;
                    proof {
                        if r && clock::cron_occurs(expr@, s as int) {
                            assert(covering_start(*window, expr@, now as int, s as int));
                        }
                    }
                    r
                },
                None => false,
            }
        },
    }
}

/// Searches forward from `anchor` and returns the last start that is not after `limit`.
fn last_occurrence_start(expr: &str, anchor: Ts, limit: Ts) -> (r: Option<Ts>)
    requires
        scannable(anchor as int, limit as int),
    ensures
        ({
            let starts = cron_starts(
                expr@,
                anchor as int,
                limit as int,
                step_cap(limit - anchor) as nat,
            );
            match r {
                Some(s) => starts.len() > 0 && s == starts.last() && anchor <= s <= limit,
                None => starts.len() == 0,
            }
        }),
        clock::CALENDAR_MIN <= anchor && limit < clock::CRON_HORIZON ==> match r {
            Some(s) => clock::cron_occurs(expr@, s as int) && forall|u: int|
                s < u <= limit ==> !#[trigger] clock::cron_occurs(expr@, u),
            None => forall|u: int| anchor <= u <= limit ==> !#[trigger] clock::cron_occurs(expr@, u),
        },
{
    let range: i64 = if limit > anchor {
        limit - anchor
    } else {
        0
    };
    let cap: u64 = scan_cap(range);
    let found = collect_starts(expr, anchor, limit, cap);
    let n: usize = found.len();
    let ghost starts = cron_starts(expr@, anchor as int, limit as int, cap as nat);
    assert(starts.len() == n);
    if n == 0 {
        None
    } else {
        let s: Ts = found[n - 1];
        assert(starts.last() == starts[n - 1]);
        assert(n < cap);
        Some(s)
    }
}

// ---- occurrences over a range ----

/// The occurrences of `window` that overlap `from..=to`, not clipped to it.
///
/// A recurring window lists the first [`step_cap`] of them, counted for the range.
pub open spec fn occurrences(window: MaintenanceWindow, from: int, to: int) -> Seq<(int, int)> {
    if to < from {
        Seq::empty()
    } else {
        match window.recurrence {
            None => if window.starts_at <= to && window.ends_at >= from {
                seq![(window.starts_at as int, window.ends_at as int)]
            } else {
                Seq::empty()
            },
            Some(expr) => if length(window) <= 0 {
                Seq::empty()
            } else {
                cron_starts(
                    expr@,
                    search_anchor(window, from),
                    to,
                    step_cap(to - from) as nat,
                ).map_values(|s: int| (s, s + length(window)))
            },
        }
    }
}

/// The arithmetic of listing a window's occurrences over `from..=to` stays within 64 bits and
/// off the edges of the calendar.
pub open spec fn listable(window: MaintenanceWindow, from: int, to: int) -> bool {
    from <= to && window.recurrence is Some ==> {
        &&& to - from <= i64::MAX
        &&& i64::MIN <= length(window) <= i64::MAX
        &&& length(window) > 0 ==> i64::MIN <= from - length(window) && to + length(window)
            <= i64::MAX && scannable(search_anchor(window, from), to)
    }
}

/// Whether a window's occurrences can be listed over `from..=to`.
pub fn can_list(window: &MaintenanceWindow, from: Ts, to: Ts) -> (r: bool)
    ensures
        r == listable(*window, from as int, to as int),
{
    if from > to {
        return true;
    }
    match &window.recurrence {
        None => true,
        Some(_) => {
            let a: i128 = from as i128;
            let b: i128 = to as i128;
            let len: i128 = window.ends_at as i128 - window.starts_at as i128;
            let low: i128 = i64::MIN as i128;
            let high: i128 = i64::MAX as i128;
            if b - a > high || len < low || len > high {
                return false;
            }
            if len <= 0 {
                return true;
            }
            let anchor: i128 = if window.starts_at as i128 > a - len {
                window.starts_at as i128
            } else {
                a - len
            };
            low <= a - len && b + len <= high && can_scan(anchor, b)
        },
    }
}

fn can_scan(anchor: i128, limit: i128) -> (r: bool)
    requires
        i64::MIN - i64::MAX <= anchor <= i64::MAX,
        i64::MIN <= limit <= i64::MAX,
    ensures
        r == scannable(anchor as int, limit as int),
{
    let first: i128 = clock::CALENDAR_MIN as i128;
    let last: i128 = clock::CALENDAR_MAX as i128;
    let edge: i128 = last - 31 * clock::DAY_SECONDS as i128;
    (anchor < first || first + clock::DAY_SECONDS as i128 <= anchor) && (anchor > last || (anchor
        <= edge && limit < edge)) && limit - anchor <= i64::MAX as i128
}

/// Pairs of times as pairs of integers.
pub open spec fn int_pairs(v: Seq<(Ts, Ts)>) -> Seq<(int, int)> {
    v.map_values(|p: (Ts, Ts)| (p.0 as int, p.1 as int))
}

/// Lists the occurrences of `window` that overlap `from..=to`.
pub fn occurrences_overlapping(window: &MaintenanceWindow, from: Ts, to: Ts) -> (r: Vec<(Ts, Ts)>)
    requires
        listable(*window, from as int, to as int),
    ensures
        int_pairs(r@) == occurrences(*window, from as int, to as int),
        forall|k: int| 0 <= k < r@.len() ==> (#[trigger] r@[k]).0 <= to && r@[k].1 >= from,
        window.recurrence matches Some(expr) ==> from <= to && length(*window) > 0
            && clock::CALENDAR_MIN <= search_anchor(*window, from as int) && to
            < clock::CRON_HORIZON ==> lists_starts(
            expr@,
            search_anchor(*window, from as int),
            to as int,
            if r@.len() == step_cap(to - from) {
                r@.last().0 as int
            } else {
                to + 1
            },
            r@.map_values(|p: (Ts, Ts)| p.0),
        ),
{
    let mut out: Vec<(Ts, Ts)> = Vec::new();
    if to < from {
        assert(int_pairs(out@) =~= Seq::<(int, int)>::empty());
        return out;
    }
    match &window.recurrence {
        None => {
            if window.starts_at <= to && window.ends_at >= from {
                out.push((window.starts_at, window.ends_at));
            }
            assert(int_pairs(out@) =~= occurrences(*window, from as int, to as int));
            out
        },
        Some(expr) => {
            let dur: i64 = window.ends_at - window.starts_at;
            if dur <= 0 {
                assert(int_pairs(out@) =~= Seq::<(int, int)>::empty());
                return out;
            }
            let back: i64 = from - dur;
            let anchor: Ts = if window.starts_at > back {
                window.starts_at
            } else {
                back
            };
            let cap: u64 = scan_cap(to - from);
            let found = collect_starts(expr.as_str(), anchor, to, cap);
            let mut i: usize = 0;
            while i < found.len()
                invariant
                    i <= found@.len(),
                    i == out@.len(),
                    to + dur <= i64::MAX,
                    dur > 0,
                    dur == window.ends_at - window.starts_at,
                    back == from - dur,
                    back <= anchor,
                    forall|k: int| 0 <= k < found@.len() ==> anchor <= #[trigger] found@[k] <= to,
                    forall|k: int|
                        0 <= k < i ==> #[trigger] out@[k] == (found@[k], (found@[k] + dur) as i64),
                decreases found@.len() - i,
            {
                let s: Ts = found[i];
                out.push((s, s + dur));
                i += 1;
            }
            proof {
                let starts = cron_starts(expr@, anchor as int, to as int, cap as nat);
                assert(starts =~= found@.map_values(|s: i64| s as int));
                let goal = starts.map_values(|s: int| (s, s + length(*window)));
                assert forall|k: int| 0 <= k < out@.len() implies int_pairs(out@)[k] == goal[k] by {
                    assert(out@[k] == (found@[k], (found@[k] + dur) as i64));
                    assert(starts[k] == found@[k]);
                }
                assert(int_pairs(out@) =~= goal);
                assert(out@.map_values(|p: (Ts, Ts)| p.0) =~= found@);
            }
            out
        },
    }
}

// ---- scope ----

/// Whether a window's scope covers a monitor.
pub open spec fn in_scope(window: MaintenanceWindow, monitor_id: i64, tags: Seq<Seq<char>>) -> bool {
    if window.scope@ == "all"@ {
        true
    } else if window.scope@ == "tag"@ {
        match window.target_ref {
            Some(raw) => match json::json_string(raw@) {
                Some(tag) => tags.contains(tag),
                None => false,
            },
            None => false,
        }
    } else if window.scope@ == "monitors"@ {
        match window.target_ref {
            Some(raw) => match json::json_ints(raw@) {
                Some(ids) => ids.contains(monitor_id),
                None => false,
            },
            None => false,
        }
    } else {
        false
    }
}

fn holds_text(items: &[String], wanted: &str) -> (r: bool)
    ensures
        r == text::views(items@).contains(wanted@),
{
    let mut i: usize = 0;
    while i < items.len()
        invariant
            i <= items@.len(),
            forall|k: int| 0 <= k < i ==> (#[trigger] items@[k])@ != wanted@,
        decreases items@.len() - i,
    {
        if text::same(items[i].as_str(), wanted) {
            assert(text::views(items@)[i as int] == wanted@);
            return true;
        }
        i += 1;
    }
    proof {
        if text::views(items@).contains(wanted@) {
            let k = choose|k: int|
                0 <= k < items@.len() && text::views(items@)[k] == wanted@;
            assert(items@[k]@ == wanted@);
        }
    }
    false
}

fn holds_id(items: &Vec<i64>, wanted: i64) -> (r: bool)
    ensures
        r == items@.contains(wanted),
{
    let mut i: usize = 0;
    while i < items.len()
        invariant
            i <= items@.len(),
            forall|k: int| 0 <= k < i ==> #[trigger] items@[k] != wanted,
        decreases items@.len() - i,
    {
        if items[i] == wanted {
            assert(items@[i as int] == wanted);
            return true;
        }
        i += 1;
    }
    false
}

/// Whether `window` covers the monitor, given its tags.
///
/// A missing or malformed target covers nothing, and so does an unknown scope.
pub fn monitor_in_scope(window: &MaintenanceWindow, monitor_id: i64, tags: &[String]) -> (r: bool)
    ensures
        r == in_scope(*window, monitor_id, text::views(tags@)),
{
    if text::same(window.scope.as_str(), "all") {
        return true;
    }
    if text::same(window.scope.as_str(), "tag") {
        return match &window.target_ref {
            Some(raw) => match json::parse_string(raw.as_str()) {
                Some(tag) => holds_text(tags, tag.as_str()),
                None => false,
            },
            None => false,
        };
    }
    if text::same(window.scope.as_str(), "monitors") {
        return match &window.target_ref {
            Some(raw) => match json::parse_ints(raw.as_str()) {
                Some(ids) => holds_id(&ids, monitor_id),
                None => false,
            },
            None => false,
        };
    }
    false
}

// ---- suppression ----

/// A window that applies to the monitor at `now`.
pub open spec fn applies(
    window: MaintenanceWindow,
    monitor_id: i64,
    tags: Seq<Seq<char>>,
    now: int,
) -> bool {
    window.is_active && active_at(window, now) && in_scope(window, monitor_id, tags)
}

/// The strongest suppression that any of `windows` applies: checks before alerts before none.
pub open spec fn suppression(
    windows: Seq<MaintenanceWindow>,
    monitor_id: i64,
    tags: Seq<Seq<char>>,
    now: int,
) -> Suppression {
    if exists|k: int|
        0 <= k < windows.len() && #[trigger] applies(windows[k], monitor_id, tags, now)
            && windows[k].suppress@ == "checks"@ {
        Suppression::Checks
    } else if exists|k: int|
        0 <= k < windows.len() && #[trigger] applies(windows[k], monitor_id, tags, now) {
        Suppression::Alerts
    } else {
        Suppression::Nothing
    }
}

/// The strongest suppression that applies to the monitor at `now`.
pub fn maintenance_for(
    windows: &[MaintenanceWindow],
    monitor_id: i64,
    tags: &[String],
    now: Ts,
) -> (r: Suppression)
    requires
        forall|k: int|
            0 <= k < windows@.len() && (#[trigger] windows@[k]).is_active ==> resolvable(
                windows@[k],
                now as int,
            ),
    ensures
        r == suppression(windows@, monitor_id, text::views(tags@), now as int),
{
    let mut any_alerts: bool = false;
    let mut i: usize = 0;
    while i < windows.len()
        invariant
            i <= windows@.len(),
            forall|k: int|
                0 <= k < windows@.len() && (#[trigger] windows@[k]).is_active ==> resolvable(
                    windows@[k],
                    now as int,
                ),
            any_alerts == exists|k: int|
                0 <= k < i && #[trigger] applies(
                    windows@[k],
                    monitor_id,
                    text::views(tags@),
                    now as int,
                ),
            forall|k: int|
                0 <= k < i && #[trigger] applies(
                    windows@[k],
                    monitor_id,
                    text::views(tags@),
                    now as int,
                ) ==> windows@[k].suppress@ != "checks"@,
        decreases windows@.len() - i,
    {
        let w = &windows[i];
        let hit = w.is_active && window_active_at(w, now) && monitor_in_scope(w, monitor_id, tags);
        assert(hit == applies(windows@[i as int], monitor_id, text::views(tags@), now as int));
        if hit {
            if text::same(w.suppress.as_str(), "checks") {
                return Suppression::Checks;
            }
            any_alerts = true;
        }
        i += 1;
    }
    if any_alerts {
        Suppression::Alerts
    } else {
        Suppression::Nothing
    }
}

// ---- interval arithmetic ----

/// Second `t` lies in one of the half-open intervals.
pub open spec fn covered(iv: Seq<(Ts, Ts)>, t: int) -> bool {
    exists|k: int| 0 <= k < iv.len() && (#[trigger] iv[k]).0 <= t < iv[k].1
}

/// The intervals are non-empty, sorted, and apart from each other. Such a list is determined by
/// the seconds that it covers.
pub open spec fn canonical(iv: Seq<(Ts, Ts)>) -> bool {
    &&& forall|k: int| 0 <= k < iv.len() ==> (#[trigger] iv[k]).0 < iv[k].1
    &&& forall|i: int, j: int|
        0 <= i < j < iv.len() ==> (#[trigger] iv[i]).1 < (#[trigger] iv[j]).0
}

/// Non-empty intervals sorted by start.
spec fn by_start(iv: Seq<(Ts, Ts)>) -> bool {
    &&& forall|k: int| 0 <= k < iv.len() ==> (#[trigger] iv[k]).0 < iv[k].1
    &&& forall|i: int, j: int|
        0 <= i < j < iv.len() ==> (#[trigger] iv[i]).0 <= (#[trigger] iv[j]).0
}

fn insert_by_start(v: &mut Vec<(Ts, Ts)>, s: Ts, e: Ts)
    requires
        by_start(old(v)@),
        s < e,
    ensures
        by_start(final(v)@),
        forall|t: int| #[trigger] covered(final(v)@, t) <==> covered(old(v)@, t) || s <= t < e,
{
    let n: usize = v.len();
    let mut p: usize = n;
    while p > 0 && v[p - 1].0 > s
        invariant
            p <= n,
            n == v@.len(),
            v@ == old(v)@,
            by_start(v@),
            forall|k: int| p <= k < n ==> (#[trigger] v@[k]).0 > s,
        decreases p,
    {
        p -= 1;
    }
    let ghost was = v@;
    v.insert(p, (s, e));
    proof {
        assert forall|k: int| 0 <= k < v@.len() implies (#[trigger] v@[k]).0 < v@[k].1 by {
            if k < p {
                assert(v@[k] == was[k]);
            } else if k > p {
                assert(v@[k] == was[k - 1]);
            }
        }
        assert forall|i: int, j: int| 0 <= i < j < v@.len() implies (#[trigger] v@[i]).0 <= (
        #[trigger] v@[j]).0 by {
            if p > 0 {
                assert(was[p - 1].0 <= s);
            }
            let i2 = if i < p { i } else { i - 1 };
            let j2 = if j < p { j } else { j - 1 };
            if i != p {
                assert(v@[i] == was[i2]);
            }
            if j != p {
                assert(v@[j] == was[j2]);
            }
            if i < p && p > 0 {
                assert(was[i2].0 <= was[p - 1].0 || i2 == p - 1);
            }
        }
        assert forall|t: int| #[trigger] covered(v@, t) <==> covered(was, t) || s <= t < e by {
            if covered(v@, t) {
                let k = choose|k: int| 0 <= k < v@.len() && (#[trigger] v@[k]).0 <= t < v@[k].1;
                if k < p {
                    assert(was[k].0 <= t < was[k].1);
                } else if k > p {
                    assert(was[k - 1].0 <= t < was[k - 1].1);
                }
            }
            if covered(was, t) {
                let k = choose|k: int| 0 <= k < was.len() && (#[trigger] was[k]).0 <= t < was[k].1;
                if k < p {
                    assert(v@[k] == was[k]);
                } else {
                    assert(v@[k + 1] == was[k]);
                }
            }
            if s <= t < e {
                assert(v@[p as int].0 <= t < v@[p as int].1);
            }
        }
    }
}

/// Joins overlapping and adjacent intervals.
fn merge(v: &Vec<(Ts, Ts)>) -> (r: Vec<(Ts, Ts)>)
    requires
        by_start(v@),
    ensures
        canonical(r@),
        forall|t: int| #[trigger] covered(r@, t) <==> covered(v@, t),
{
    let mut merged: Vec<(Ts, Ts)> = Vec::new();
    let mut i: usize = 0;
    assert forall|t: int| #[trigger] covered(merged@, t) <==> covered(v@.take(0), t) by {}
    while i < v.len()
        invariant
            i <= v@.len(),
            by_start(v@),
            canonical(merged@),
            merged@.len() == 0 <==> i == 0,
            merged@.len() > 0 ==> merged@.last().0 <= v@[i - 1].0,
            forall|t: int| #[trigger] covered(merged@, t) <==> covered(v@.take(i as int), t),
        decreases v@.len() - i,
    {
        let (s, e) = v[i];
        let ghost was = merged@;
        let n: usize = merged.len();
        let ghost part = v@.take(i as int);
        let ghost next = v@.take(i + 1);
        proof {
            assert(next =~= part.push(v@[i as int]));
            if i > 0 {
                assert(v@[i - 1].0 <= v@[i as int].0);
            }
        }
        if n > 0 && s <= merged[n - 1].1 {
            let (ls, le) = merged[n - 1];
            let end: Ts = if le > e {
                le
            } else {
                e
            };
            merged.set(n - 1, (ls, end));
            proof {
                assert forall|t: int| #[trigger] covered(merged@, t) <==> covered(next, t) by {
                    if covered(merged@, t) {
                        let k = choose|k: int|
                            0 <= k < merged@.len() && (#[trigger] merged@[k]).0 <= t < merged@[k].1;
                        if k < n - 1 {
                            assert(was[k].0 <= t < was[k].1);
                            assert(covered(was, t));
                        } else if t < le {
                            assert(was[n - 1].0 <= t < was[n - 1].1);
                            assert(covered(was, t));
                        } else {
                            assert(next[i as int].0 <= t < next[i as int].1);
                        }
                        if covered(was, t) {
                            assert(covered(part, t));
                            let q = choose|q: int|
                                0 <= q < part.len() && (#[trigger] part[q]).0 <= t < part[q].1;
                            assert(next[q] == part[q]);
                        }
                    }
                    if covered(next, t) {
                        let k = choose|k: int|
                            0 <= k < next.len() && (#[trigger] next[k]).0 <= t < next[k].1;
                        if k < i {
                            assert(part[k] == next[k]);
                            assert(covered(part, t));
                            assert(covered(was, t));
                            let q = choose|q: int|
                                0 <= q < was.len() && (#[trigger] was[q]).0 <= t < was[q].1;
                            if q < n - 1 {
                                assert(merged@[q] == was[q]);
                            } else {
                                assert(merged@[n - 1].0 <= t < merged@[n - 1].1);
                            }
                        } else {
                            assert(merged@[n - 1].0 <= t < merged@[n - 1].1);
                        }
                    }
                }
            }
        } else {
            merged.push((s, e));
            proof {
                assert forall|a: int, b: int| 0 <= a < b < merged@.len() implies (
                #[trigger] merged@[a]).1 < (#[trigger] merged@[b]).0 by {
                    if b == n {
                        assert(merged@[a] == was[a]);
                        if a < n - 1 {
                            assert(was[a].1 < was[n - 1].0);
                        }
                    } else {
                        assert(merged@[a] == was[a]);
                        assert(merged@[b] == was[b]);
                    }
                }
                assert forall|k: int| 0 <= k < merged@.len() implies (#[trigger] merged@[k]).0
                    < merged@[k].1 by {
                    if k < n {
                        assert(merged@[k] == was[k]);
                    }
                }
                assert forall|t: int| #[trigger] covered(merged@, t) <==> covered(next, t) by {
                    if covered(merged@, t) {
                        let k = choose|k: int|
                            0 <= k < merged@.len() && (#[trigger] merged@[k]).0 <= t < merged@[k].1;
                        if k < n {
                            assert(was[k] == merged@[k]);
                            assert(covered(was, t));
                            assert(covered(part, t));
                            let q = choose|q: int|
                                0 <= q < part.len() && (#[trigger] part[q]).0 <= t < part[q].1;
                            assert(next[q] == part[q]);
                        } else {
                            assert(next[i as int].0 <= t < next[i as int].1);
                        }
                    }
                    if covered(next, t) {
                        let k = choose|k: int|
                            0 <= k < next.len() && (#[trigger] next[k]).0 <= t < next[k].1;
                        if k < i {
                            assert(part[k] == next[k]);
                            assert(covered(part, t));
                            assert(covered(was, t));
                            let q = choose|q: int|
                                0 <= q < was.len() && (#[trigger] was[q]).0 <= t < was[q].1;
                            assert(merged@[q] == was[q]);
                        } else {
                            assert(merged@[n as int].0 <= t < merged@[n as int].1);
                        }
                    }
                }
            }
        }
        i += 1;
    }
    assert(v@.take(v@.len() as int) =~= v@);
    merged
}

/// Second `t` lies in an occurrence of `window` that overlaps `from..=to`.
pub open spec fn occurring(window: MaintenanceWindow, from: int, to: int, t: int) -> bool {
    exists|j: int|
        0 <= j < occurrences(window, from, to).len() && (#[trigger] occurrences(
            window,
            from,
            to,
        )[j]).0 <= t < occurrences(window, from, to)[j].1
}

/// Second `t` lies in an occurrence of an active window in scope.
pub open spec fn under_maintenance(
    windows: Seq<MaintenanceWindow>,
    monitor_id: i64,
    tags: Seq<Seq<char>>,
    from: int,
    to: int,
    t: int,
) -> bool {
    exists|k: int|
        0 <= k < windows.len() && windows[k].is_active && in_scope(windows[k], monitor_id, tags)
            && #[trigger] occurring(windows[k], from, to, t)
}

/// Adds the parts of `occ` that lie in `from..to`.
fn add_clipped(raw: &mut Vec<(Ts, Ts)>, occ: &Vec<(Ts, Ts)>, from: Ts, to: Ts)
    requires
        by_start(old(raw)@),
    ensures
        by_start(final(raw)@),
        forall|t: int| #[trigger]
            covered(final(raw)@, t) <==> covered(old(raw)@, t) || (from <= t < to && covered(occ@, t)),
{
    let mut i: usize = 0;
    let ghost start = raw@;
    while i < occ.len()
        invariant
            i <= occ@.len(),
            by_start(raw@),
            forall|t: int| #[trigger]
                covered(raw@, t) <==> covered(start, t) || (from <= t < to && covered(
                    occ@.take(i as int),
                    t,
                )),
        decreases occ@.len() - i,
    {
        let (s, e) = occ[i];
        let cs: Ts = if s > from {
            s
        } else {
            from
        };
        let ce: Ts = if e < to {
            e
        } else {
            to
        };
        let ghost was = raw@;
        if cs < ce {
            insert_by_start(raw, cs, ce);
        }
        proof {
            let part = occ@.take(i as int);
            let next = occ@.take(i + 1);
            assert(next =~= part.push(occ@[i as int]));
            assert forall|t: int| #[trigger] covered(raw@, t) <==> covered(start, t) || (from <= t
                < to && covered(next, t)) by {
                assert(covered(was, t) <==> covered(start, t) || (from <= t < to && covered(
                    part,
                    t,
                )));
                if covered(part, t) {
                    let q = choose|q: int|
                        0 <= q < part.len() && (#[trigger] part[q]).0 <= t < part[q].1;
                    assert(next[q] == part[q]);
                }
                if covered(next, t) {
                    let q = choose|q: int|
                        0 <= q < next.len() && (#[trigger] next[q]).0 <= t < next[q].1;
                    if q < i {
                        assert(part[q] == next[q]);
                    }
                }
                if s <= t < e {
                    assert(next[i as int].0 <= t < next[i as int].1);
                }
            }
        }
        i += 1;
    }
    assert(occ@.take(occ@.len() as int) =~= occ@);
    assert forall|t: int| #[trigger] covered(raw@, t) <==> covered(start, t) || (from <= t < to
        && covered(occ@, t)) by {
        if i == 0 {
            assert(!covered(occ@.take(0), t));
        }
    }
}

/// The seconds of `from..to` at which the monitor is under maintenance, as sorted intervals
/// with gaps between them, whatever the windows suppress.
pub fn maintenance_intervals(
    windows: &[MaintenanceWindow],
    monitor_id: i64,
    tags: &[String],
    from: Ts,
    to: Ts,
) -> (r: Vec<(Ts, Ts)>)
    requires
        from < to ==> forall|k: int|
            0 <= k < windows@.len() && (#[trigger] windows@[k]).is_active ==> listable(
                windows@[k],
                from as int,
                to as int,
            ),
    ensures
        canonical(r@),
        forall|t: int| #[trigger]
            covered(r@, t) <==> from <= t < to && under_maintenance(
                windows@,
                monitor_id,
                text::views(tags@),
                from as int,
                to as int,
                t,
            ),
{
    let mut raw: Vec<(Ts, Ts)> = Vec::new();
    if to <= from {
        return raw;
    }
    let mut i: usize = 0;
    let ghost views = text::views(tags@);
    while i < windows.len()
        invariant
            i <= windows@.len(),
            from < to,
            views == text::views(tags@),
            forall|k: int|
                0 <= k < windows@.len() && (#[trigger] windows@[k]).is_active ==> listable(
                    windows@[k],
                    from as int,
                    to as int,
                ),
            by_start(raw@),
            forall|t: int| #[trigger]
                covered(raw@, t) <==> from <= t < to && under_maintenance(
                    windows@.take(i as int),
                    monitor_id,
                    views,
                    from as int,
                    to as int,
                    t,
                ),
        decreases windows@.len() - i,
    {
        let w = &windows[i];
        let ghost was = raw@;
        let ghost part = windows@.take(i as int);
        let ghost next = windows@.take(i + 1);
        let hit = w.is_active && monitor_in_scope(w, monitor_id, tags);
        if hit {
            let occ = occurrences_overlapping(w, from, to);
            add_clipped(&mut raw, &occ, from, to);
            proof {
                let o = occurrences(*w, from as int, to as int);
                assert forall|t: int| #[trigger] covered(occ@, t) <==> occurring(
                    *w,
                    from as int,
                    to as int,
                    t,
                ) by {
                    if covered(occ@, t) {
                        let k = choose|k: int|
                            0 <= k < occ@.len() && (#[trigger] occ@[k]).0 <= t < occ@[k].1;
                        assert(int_pairs(occ@)[k] == o[k]);
                    }
                    if occurring(*w, from as int, to as int, t) {
                        let k = choose|k: int|
                            0 <= k < o.len() && (#[trigger] o[k]).0 <= t < o[k].1;
                        assert(int_pairs(occ@)[k] == o[k]);
                        assert(occ@[k].0 <= t < occ@[k].1);
                    }
                }
            }
        }
        proof {
            assert(next =~= part.push(windows@[i as int]));
            assert forall|t: int| #[trigger] covered(raw@, t) <==> from <= t < to
                && under_maintenance(next, monitor_id, views, from as int, to as int, t) by {
                assert(covered(was, t) <==> from <= t < to && under_maintenance(
                    part,
                    monitor_id,
                    views,
                    from as int,
                    to as int,
                    t,
                ));
                if under_maintenance(part, monitor_id, views, from as int, to as int, t) {
                    let k = choose|k: int|
                        0 <= k < part.len() && part[k].is_active && in_scope(
                            part[k],
                            monitor_id,
                            views,
                        ) && #[trigger] occurring(part[k], from as int, to as int, t);
                    assert(next[k] == part[k]);
                    assert(occurring(next[k], from as int, to as int, t));
                }
                if under_maintenance(next, monitor_id, views, from as int, to as int, t) {
                    let k = choose|k: int|
                        0 <= k < next.len() && next[k].is_active && in_scope(
                            next[k],
                            monitor_id,
                            views,
                        ) && #[trigger] occurring(next[k], from as int, to as int, t);
                    if k < i {
                        assert(part[k] == next[k]);
                        assert(occurring(part[k], from as int, to as int, t));
                    }
                }
                if hit && occurring(*w, from as int, to as int, t) {
                    assert(occurring(next[i as int], from as int, to as int, t));
                }
            }
        }
        i += 1;
    }
    assert(windows@.take(windows@.len() as int) =~= windows@);
    merge(&raw)
}

/// `base` minus every interval of `cuts`, as sorted intervals with gaps between them. The cuts
/// may overlap, be in any order, and reach outside `base`.
pub fn subtract_intervals(base: (Ts, Ts), cuts: &[(Ts, Ts)]) -> (r: Vec<(Ts, Ts)>)
    ensures
        canonical(r@),
        forall|t: int| #[trigger] covered(r@, t) <==> base.0 <= t < base.1 && !covered(cuts@, t),
{
    let (base_start, base_end) = base;
    let mut result: Vec<(Ts, Ts)> = Vec::new();
    if base_start >= base_end {
        return result;
    }
    let mut all: Vec<(Ts, Ts)> = Vec::new();
    let mut i: usize = 0;
    while i < cuts.len()
        invariant
            i <= cuts@.len(),
            all@ == cuts@.take(i as int),
        decreases cuts@.len() - i,
    {
        all.push(cuts[i]);
        i += 1;
    }
    assert(all@ =~= cuts@);
    let mut clipped: Vec<(Ts, Ts)> = Vec::new();
    add_clipped(&mut clipped, &all, base_start, base_end);
    let merged = merge(&clipped);
    assert forall|t: int| #[trigger] covered(merged@, t) <==> base_start <= t < base_end && covered(
        cuts@,
        t,
    ) by {
        assert(covered(merged@, t) <==> covered(clipped@, t));
    }
    let mut cursor: Ts = base_start;
    let mut j: usize = 0;
    proof {
        assert forall|t: int| t < cursor implies !#[trigger] covered(result@, t) by {}
    }
    while j < merged.len()
        invariant
            j <= merged@.len(),
            base_start < base_end,
            canonical(merged@),
            forall|t: int| #[trigger]
                covered(merged@, t) <==> base_start <= t < base_end && covered(cuts@, t),
            base_start <= cursor <= base_end,
            cursor == if j == 0 {
                base_start
            } else {
                merged@[j - 1].1
            },
            canonical(result@),
            result@.len() > 0 ==> result@.last().1 < cursor,
            forall|t: int| #[trigger]
                covered(result@, t) <==> base_start <= t < cursor && !covered(merged@, t),
        decreases merged@.len() - j,
    {
        let (s, e) = merged[j];
        proof {
            assert(merged@[j as int].0 <= s < merged@[j as int].1);
            assert(covered(merged@, s as int));
            assert(merged@[j as int].0 <= e - 1 < merged@[j as int].1);
            assert(covered(merged@, e - 1));
            if j > 0 {
                assert(merged@[j - 1].1 < merged@[j as int].0);
            }
        }
        let ghost was = result@;
        let ghost old_cursor = cursor;
        if cursor < s {
            result.push((cursor, s));
        }
        if e > cursor {
            cursor = e;
        }
        proof {
            if old_cursor < s {
                assert forall|a: int, b: int| 0 <= a < b < result@.len() implies (
                #[trigger] result@[a]).1 < (#[trigger] result@[b]).0 by {
                    assert(result@[a] == was[a]);
                    if b < was.len() {
                        assert(result@[b] == was[b]);
                    } else if a < was.len() - 1 {
                        assert(was[a].1 < was[was.len() - 1].0);
                    }
                }
                assert forall|k: int| 0 <= k < result@.len() implies (#[trigger] result@[k]).0
                    < result@[k].1 by {
                    if k < was.len() {
                        assert(result@[k] == was[k]);
                    }
                }
            }
            assert forall|t: int| #[trigger] covered(result@, t) <==> base_start <= t < cursor
                && !covered(merged@, t) by {
                assert(covered(was, t) <==> base_start <= t < old_cursor && !covered(merged@, t));
                if covered(was, t) {
                    let k = choose|k: int| 0 <= k < was.len() && (#[trigger] was[k]).0 <= t < was[k].1;
                    assert(result@[k] == was[k]);
                }
                if old_cursor <= t < s {
                    assert(result@[result@.len() - 1].0 <= t < result@[result@.len() - 1].1);
                    if covered(merged@, t) {
                        let k = choose|k: int|
                            0 <= k < merged@.len() && (#[trigger] merged@[k]).0 <= t < merged@[k].1;
                        if k < j - 1 {
                            assert(merged@[k].1 < merged@[j - 1].0);
                        } else if k > j {
                            assert(merged@[j as int].1 < merged@[k].0);
                        }
                    }
                }
                if s <= t < e {
                    assert(merged@[j as int].0 <= t < merged@[j as int].1);
                    assert(covered(merged@, t));
                }
                if covered(result@, t) {
                    let k = choose|k: int|
                        0 <= k < result@.len() && (#[trigger] result@[k]).0 <= t < result@[k].1;
                    if k < was.len() {
                        assert(was[k] == result@[k]);
                        assert(covered(was, t));
                    } else {
                        assert(old_cursor <= t < s);
                    }
                }
            }
        }
        j += 1;
    }
    let ghost was = result@;
    if cursor < base_end {
        result.push((cursor, base_end));
    }
    proof {
        assert forall|a: int, b: int| 0 <= a < b < result@.len() implies (#[trigger] result@[a]).1 < (
        #[trigger] result@[b]).0 by {
            assert(result@[a] == was[a]);
            if b < was.len() {
                assert(result@[b] == was[b]);
            } else if a < was.len() - 1 {
                assert(was[a].1 < was[was.len() - 1].0);
            }
        }
        assert forall|t: int| #[trigger] covered(result@, t) <==> base.0 <= t < base.1 && !covered(
            cuts@,
            t,
        ) by {
            assert(covered(was, t) <==> base_start <= t < cursor && !covered(merged@, t));
            assert(covered(merged@, t) <==> base_start <= t < base_end && covered(cuts@, t));
            if covered(was, t) {
                let k = choose|k: int| 0 <= k < was.len() && (#[trigger] was[k]).0 <= t < was[k].1;
                assert(result@[k] == was[k]);
            }
            if cursor <= t < base_end {
                assert(result@[result@.len() - 1].0 <= t < result@[result@.len() - 1].1);
                if covered(merged@, t) {
                    let k = choose|k: int|
                        0 <= k < merged@.len() && (#[trigger] merged@[k]).0 <= t < merged@[k].1;
                    if k < merged@.len() - 1 {
                        assert(merged@[k].1 < merged@[merged@.len() - 1].0);
                    }
                }
            }
            if covered(result@, t) {
                let k = choose|k: int|
                    0 <= k < result@.len() && (#[trigger] result@[k]).0 <= t < result@[k].1;
                if k < was.len() {
                    assert(was[k] == result@[k]);
                    assert(covered(was, t));
                }
            }
        }
    }
    result
}

// ---- laws ----

/// A canonical list is determined by the seconds it covers, so [`maintenance_intervals`] and
/// [`subtract_intervals`] have one result each, whatever the order of windows or cuts.
pub proof fn law_canonical_lists_are_determined(a: Seq<(Ts, Ts)>, b: Seq<(Ts, Ts)>)
    requires
        canonical(a),
        canonical(b),
        forall|t: int| #[trigger] covered(a, t) <==> covered(b, t),
    ensures
        a == b,
    decreases a.len(),
{
    if a.len() == 0 {
        if b.len() > 0 {
            assert(b[0].0 <= b[0].0 < b[0].1);
            assert(covered(b, b[0].0 as int));
            assert(covered(a, b[0].0 as int));
        }
        assert(a =~= b);
    } else {
        assert(a[0].0 <= a[0].0 < a[0].1);
        assert(covered(a, a[0].0 as int));
        assert(covered(b, a[0].0 as int));
        assert(b.len() > 0);
        assert(b[0].0 <= b[0].0 < b[0].1);
        assert(covered(b, b[0].0 as int));
        assert(covered(a, b[0].0 as int));
        lemma_first(a, b[0].0 as int);
        lemma_first(b, a[0].0 as int);
        assert(a[0].0 == b[0].0);
        lemma_first_end(a);
        lemma_first_end(b);
        if a[0].1 < b[0].1 {
            assert(b[0].0 <= a[0].1 < b[0].1);
            assert(covered(b, a[0].1 as int));
            assert(covered(a, a[0].1 as int));
        }
        if b[0].1 < a[0].1 {
            assert(a[0].0 <= b[0].1 < a[0].1);
            assert(covered(a, b[0].1 as int));
            assert(covered(b, b[0].1 as int));
        }
        let x = a.subrange(1, a.len() as int);
        let y = b.subrange(1, b.len() as int);
        assert forall|i: int, j: int| 0 <= i < j < x.len() implies (#[trigger] x[i]).1 < (
        #[trigger] x[j]).0 by {
            assert(a[i + 1].1 < a[j + 1].0);
        }
        assert forall|i: int, j: int| 0 <= i < j < y.len() implies (#[trigger] y[i]).1 < (
        #[trigger] y[j]).0 by {
            assert(b[i + 1].1 < b[j + 1].0);
        }
        assert forall|t: int| #[trigger] covered(x, t) <==> covered(y, t) by {
            lemma_rest(a, t);
            lemma_rest(b, t);
            assert(covered(a, t) <==> covered(b, t));
        }
        law_canonical_lists_are_determined(x, y);
        assert(a =~= seq![a[0]] + x);
        assert(b =~= seq![b[0]] + y);
    }
}

proof fn lemma_first(a: Seq<(Ts, Ts)>, t: int)
    requires
        canonical(a),
        a.len() > 0,
        covered(a, t),
    ensures
        a[0].0 <= t,
{
    let k = choose|k: int| 0 <= k < a.len() && (#[trigger] a[k]).0 <= t < a[k].1;
    if k > 0 {
        assert(a[0].1 < a[k].0);
    }
}

proof fn lemma_first_end(a: Seq<(Ts, Ts)>)
    requires
        canonical(a),
        a.len() > 0,
    ensures
        !covered(a, a[0].1 as int),
{
    let t = a[0].1 as int;
    if covered(a, t) {
        let k = choose|k: int| 0 <= k < a.len() && (#[trigger] a[k]).0 <= t < a[k].1;
        if k > 0 {
            assert(a[0].1 < a[k].0);
        }
    }
}

proof fn lemma_rest(a: Seq<(Ts, Ts)>, t: int)
    requires
        canonical(a),
        a.len() > 0,
    ensures
        covered(a.subrange(1, a.len() as int), t) <==> covered(a, t) && t >= a[0].1,
{
    let x = a.subrange(1, a.len() as int);
    if covered(x, t) {
        let k = choose|k: int| 0 <= k < x.len() && (#[trigger] x[k]).0 <= t < x[k].1;
        assert(a[k + 1] == x[k]);
        assert(a[0].1 < a[k + 1].0);
    }
    if covered(a, t) && t >= a[0].1 {
        let k = choose|k: int| 0 <= k < a.len() && (#[trigger] a[k]).0 <= t < a[k].1;
        assert(k > 0);
        assert(x[k - 1] == a[k]);
    }
}

/// Nothing is suppressed exactly where no window applies.
pub proof fn law_only_applying_windows_suppress(
    windows: Seq<MaintenanceWindow>,
    monitor_id: i64,
    tags: Seq<Seq<char>>,
    now: int,
)
    ensures
        suppression(windows, monitor_id, tags, now) == Suppression::Nothing <==> forall|k: int|
            0 <= k < windows.len() ==> !#[trigger] applies(windows[k], monitor_id, tags, now),
{
}

/// Adding a window never weakens the suppression.
pub proof fn law_more_windows_suppress_no_less(
    windows: Seq<MaintenanceWindow>,
    more: MaintenanceWindow,
    monitor_id: i64,
    tags: Seq<Seq<char>>,
    now: int,
)
    ensures
        suppression(windows, monitor_id, tags, now) == Suppression::Checks ==> suppression(
            windows.push(more),
            monitor_id,
            tags,
            now,
        ) == Suppression::Checks,
        suppression(windows, monitor_id, tags, now) == Suppression::Alerts ==> suppression(
            windows.push(more),
            monitor_id,
            tags,
            now,
        ) != Suppression::Nothing,
{
    let all = windows.push(more);
    if suppression(windows, monitor_id, tags, now) == Suppression::Checks {
        let k = choose|k: int|
            0 <= k < windows.len() && #[trigger] applies(windows[k], monitor_id, tags, now)
                && windows[k].suppress@ == "checks"@;
        assert(applies(all[k], monitor_id, tags, now));
    }
    if suppression(windows, monitor_id, tags, now) == Suppression::Alerts {
        let k = choose|k: int|
            0 <= k < windows.len() && #[trigger] applies(windows[k], monitor_id, tags, now);
        assert(applies(all[k], monitor_id, tags, now));
    }
}

/// A window that passed validation can be resolved and listed at every time that cron searches
/// reach, unless it starts in the last month of the calendar.
pub proof fn law_accepted_windows_can_be_resolved(
    window: MaintenanceWindow,
    target_ref: Option<Json>,
    from: int,
    to: int,
)
    requires
        models::window_error(
            window.name@,
            window.scope@,
            target_ref,
            window.starts_at as int,
            window.ends_at as int,
            window.recurrence,
        ) is None,
        !(clock::CALENDAR_MAX - 31 * clock::DAY_SECONDS < window.starts_at <= clock::CALENDAR_MAX),
        0 <= from <= to < clock::CRON_HORIZON,
    ensures
        resolvable(window, to),
        listable(window, from, to),
{
}

/// A window that does not recur covers the seconds from its start to its end, both of them, and
/// occurs once, as a whole, in every range that it touches.
pub proof fn law_one_off_window(window: MaintenanceWindow, now: int, from: int, to: int)
    requires
        window.recurrence is None,
    ensures
        active_at(window, now) <==> window.starts_at <= now && now <= window.ends_at,
        from <= to && window.starts_at <= to && from <= window.ends_at ==> occurrences(window, from, to)
            == seq![(window.starts_at as int, window.ends_at as int)],
        from > to || window.starts_at > to || from > window.ends_at ==> occurrences(window, from, to).len()
            == 0,
{
}

/// A recurring window covers a time only while an occurrence runs that the pattern started, not before
/// the window's own start, and less than the window's length ago; one without a length covers
/// nothing and never occurs.
pub proof fn law_recurring_window(window: MaintenanceWindow, now: int, from: int, to: int)
    requires
        window.recurrence is Some,
    ensures
        active_at(window, now) ==> exists|t: int|
            (#[trigger] clock::cron_next((window.recurrence->0)@, t)) is Some && window.starts_at
                <= clock::cron_next((window.recurrence->0)@, t)->0 <= now && now - clock::cron_next(
                (window.recurrence->0)@,
                t,
            )->0 < window.ends_at - window.starts_at,
        window.ends_at <= window.starts_at ==> !active_at(window, now) && occurrences(
            window,
            from,
            to,
        ).len() == 0,
        forall|k: int|
            0 <= k < occurrences(window, from, to).len() ==> (#[trigger] occurrences(
                window,
                from,
                to,
            )[k]).1 - occurrences(window, from, to)[k].0 == window.ends_at - window.starts_at,
        forall|k: int|
            0 <= k < occurrences(window, from, to).len() ==> (#[trigger] occurrences(
                window,
                from,
                to,
            )[k]).0 <= to,
{
    let expr = (window.recurrence->0)@;
    if active_at(window, now) {
        let anchor = search_anchor(window, now);
        let steps = step_cap(now - anchor) as nat;
        lemma_starts_are_matches(expr, anchor, now, steps, cron_starts(expr, anchor, now, steps).len() - 1);
    }
    if from <= to && length(window) > 0 {
        let anchor = search_anchor(window, from);
        let steps = step_cap(to - from) as nat;
        assert forall|k: int| 0 <= k < occurrences(window, from, to).len() implies (
        #[trigger] occurrences(window, from, to)[k]).0 <= to by {
            lemma_starts_are_matches(expr, anchor, to, steps, k);
        }
    }
}

proof fn lemma_starts_are_matches(expr: Seq<char>, t: int, limit: int, steps: nat, k: int)
    requires
        0 <= k < cron_starts(expr, t, limit, steps).len(),
    ensures
        cron_starts(expr, t, limit, steps)[k] <= limit,
        exists|u: int| #[trigger]
            clock::cron_next(expr, u) == Some(cron_starts(expr, t, limit, steps)[k]),
    decreases steps,
{
    let s = clock::cron_next(expr, t)->0;
    if k > 0 {
        lemma_starts_are_matches(expr, s + 1, limit, (steps - 1) as nat, k - 1);
        assert(cron_starts(expr, t, limit, steps)[k] == cron_starts(
            expr,
            s + 1,
            limit,
            (steps - 1) as nat,
        )[k - 1]);
    } else {
        assert(clock::cron_next(expr, t) == Some(cron_starts(expr, t, limit, steps)[0]));
    }
}

/// A window for all covers every monitor, one for a tag those that carry it, and one for monitors
/// those that it lists; a window without a target covers nobody but with the first, and one of
/// another scope nobody at all.
pub proof fn law_whom_a_window_covers(window: MaintenanceWindow, monitor_id: i64, tags: Seq<Seq<char>>)
    ensures
        window.scope@ == "all"@ ==> in_scope(window, monitor_id, tags),
        window.scope@ == "tag"@ ==> (in_scope(window, monitor_id, tags) <==> window.target_ref is Some
            && json::json_string((window.target_ref->0)@) is Some && tags.contains(
            json::json_string((window.target_ref->0)@)->0,
        )),
        window.scope@ == "monitors"@ ==> (in_scope(window, monitor_id, tags) <==> window.target_ref
            is Some && json::json_ints((window.target_ref->0)@) is Some && json::json_ints(
            (window.target_ref->0)@,
        )->0.contains(monitor_id)),
        window.scope@ != "all"@ && window.scope@ != "tag"@ && window.scope@ != "monitors"@
            ==> !in_scope(window, monitor_id, tags),
{
    reveal_strlit("all");
    reveal_strlit("tag");
    reveal_strlit("monitors");
    assert("all"@[0] == 'a');
    assert("tag"@[0] == 't');
    assert("monitors"@[0] == 'm');
}

/// Checks are suppressed exactly where a window that is switched on, covers the time and covers the
/// monitor says so; any other such window suppresses alerts, and without one nothing is
/// suppressed.
pub proof fn law_how_far_a_window_suppresses(
    windows: Seq<MaintenanceWindow>,
    monitor_id: i64,
    tags: Seq<Seq<char>>,
    now: int,
)
    ensures
        suppression(windows, monitor_id, tags, now) == Suppression::Checks <==> exists|k: int|
            0 <= k < windows.len() && (#[trigger] windows[k]).is_active && active_at(windows[k], now)
                && in_scope(windows[k], monitor_id, tags) && windows[k].suppress@ == "checks"@,
        suppression(windows, monitor_id, tags, now) == Suppression::Nothing <==> forall|k: int|
            0 <= k < windows.len() && (#[trigger] windows[k]).is_active && active_at(windows[k], now)
                ==> !in_scope(windows[k], monitor_id, tags),
{
    if exists|k: int|
        0 <= k < windows.len() && (#[trigger] windows[k]).is_active && active_at(windows[k], now)
            && in_scope(windows[k], monitor_id, tags) && windows[k].suppress@ == "checks"@ {
        let k = choose|k: int|
            0 <= k < windows.len() && (#[trigger] windows[k]).is_active && active_at(windows[k], now)
                && in_scope(windows[k], monitor_id, tags) && windows[k].suppress@ == "checks"@;
        assert(applies(windows[k], monitor_id, tags, now));
    }
    if !(forall|k: int|
        0 <= k < windows.len() && (#[trigger] windows[k]).is_active && active_at(windows[k], now)
            ==> !in_scope(windows[k], monitor_id, tags)) {
        let k = choose|k: int|
            0 <= k < windows.len() && (#[trigger] windows[k]).is_active && active_at(windows[k], now)
                && in_scope(windows[k], monitor_id, tags);
        assert(applies(windows[k], monitor_id, tags, now));
    }
    if suppression(windows, monitor_id, tags, now) != Suppression::Nothing {
        let k = choose|k: int|
            0 <= k < windows.len() && #[trigger] applies(windows[k], monitor_id, tags, now);
        assert(windows[k].is_active && active_at(windows[k], now));
    }
}

/// A search never stops short of one step for each minute of its range, nor of ten thousand.
pub proof fn law_search_reaches_the_end(range_seconds: int)
    ensures
        step_cap(range_seconds) >= 10_000,
        range_seconds >= 0 ==> step_cap(range_seconds) * 60 > range_seconds + 60,
        range_seconds <= 599_000 ==> step_cap(range_seconds) == 10_000,
{
}

} // verus!
