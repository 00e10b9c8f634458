//! The figures of a month, from the stored incidents, samples and certificate checks.

use vstd::prelude::*;

use crate::clock;
use crate::digest::NamedIncident;
use crate::fleet;
use crate::fleet::{Observed, Totals};
use crate::models::{MaintenanceWindow, Ts};
use crate::notify::own_opt;
use crate::numbers;
use crate::report;
use crate::report::{month_bounds, month_label, next_month, prior_month};
use crate::text;
use crate::uptime;
use crate::uptime::{Share, Span};

pub use crate::fleet::ExpiryItem;

verus! {

/// The fleet's figures for a month. Uptimes and their difference are in hundredths of a percent.
#[derive(Clone, Debug)]
pub struct FleetReport {
    pub uptime_pct: Option<i64>,
    pub uptime_delta: Option<i64>,
    pub incidents: i64,
    pub downtime_seconds: i64,
    pub mttr_seconds: Option<i64>,
    pub longest_outage: Option<LongestOutage>,
    pub monitors_total: i64,
    pub clean_monitors: i64,
    pub ssl_alerts: i64,
    pub domain_alerts: i64,
    pub expiring_30d: i64,
    pub expiring_60d: i64,
}

/// The longest outage of a month, cut to the month.
#[derive(Clone, Debug)]
pub struct LongestOutage {
    pub monitor: String,
    pub seconds: i64,
}

/// A monitor's month.
#[derive(Clone, Debug)]
pub struct MonitorReport {
    pub id: i64,
    pub name: String,
    pub kind: String,
    pub uptime_pct: Option<i64>,
    pub incidents: i64,
    pub downtime_seconds: i64,
    pub mttr_seconds: Option<i64>,
    pub avg_ms: Option<i64>,
    pub p95_ms: Option<i64>,
    pub end_status: String,
}

/// An incident of a month, its duration cut to the month.
#[derive(Clone, Debug)]
pub struct ReportIncident {
    pub monitor_name: String,
    pub started_at: i64,
    pub resolved_at: Option<i64>,
    pub duration_seconds: Option<i64>,
    pub cause: Option<String>,
    pub status_code: Option<i64>,
    pub error_message: Option<String>,
}

/// What a report holds.
#[derive(Clone, Debug)]
pub struct ReportSummary {
    pub period: String,
    pub label: String,
    pub generated_at: i64,
    pub fleet: FleetReport,
    pub cert_outlook: Vec<ExpiryItem>,
    pub monitors: Vec<MonitorReport>,
    pub incidents: Vec<ReportIncident>,
}

// ---- durations ----

/// The seconds of an incident that lie in `ds..de`; an open one lasts until `de`.
pub open spec fn clipped(started_at: i64, resolved_at: Option<i64>, ds: int, de: int) -> int {
    let end = match resolved_at {
        Some(r) => if r < de {
            r as int
        } else {
            de
        },
        None => de,
    };
    end - if started_at > ds {
        started_at as int
    } else {
        ds
    }
}

/// Cuts an incident to `ds..de` and measures it.
pub fn clip(started_at: i64, resolved_at: Option<i64>, ds: Ts, de: Ts) -> (r: i64)
    requires
        i64::MIN <= clipped(started_at, resolved_at, ds as int, de as int) <= i64::MAX,
    ensures
        r == clipped(started_at, resolved_at, ds as int, de as int),
{
    let end: i64 = match resolved_at {
        Some(r) => if r < de {
            r
        } else {
            de
        },
        None => de,
    };
    let start: i64 = if started_at > ds {
        started_at
    } else {
        ds
    };
    end - start
}

/// The full durations of the incidents that were resolved in `ds..de`.
pub open spec fn resolved_durations(raw: Seq<Span>, ds: int, de: int) -> Seq<int>
    decreases raw.len(),
{
    if raw.len() == 0 {
        Seq::empty()
    } else {
        let rest = resolved_durations(raw.drop_last(), ds, de);
        match raw.last().end {
            Some(r) => if ds <= r < de {
                rest.push(r - raw.last().start)
            } else {
                rest
            },
            None => rest,
        }
    }
}

/// The sum of a list of numbers.
pub open spec fn sum(v: Seq<int>) -> int
    decreases v.len(),
{
    if v.len() == 0 {
        0
    } else {
        sum(v.drop_last()) + v.last()
    }
}

/// The mean of a list of numbers, rounded toward zero.
pub open spec fn mean(v: Seq<int>) -> Option<int> {
    if v.len() == 0 {
        None
    } else {
        Some(numbers::quotient(sum(v), v.len() as int))
    }
}

/// The duration of an incident fits its field.
pub open spec fn measurable(s: Span) -> bool {
    s.end matches Some(e) ==> i64::MIN <= e - s.start <= i64::MAX
}

proof fn lemma_mean_bound(total: int, n: int)
    requires
        n > 0,
        n * i64::MIN <= total <= n * i64::MAX,
    ensures
        i64::MIN <= numbers::quotient(total, n) <= i64::MAX,
{
    if total >= 0 {
        assert(0 <= total / n <= i64::MAX) by (nonlinear_arith)
            requires
                n > 0,
                0 <= total <= n * i64::MAX,
        ;
    } else {
        let back = -total;
        assert(n * i64::MIN == -(n * 9223372036854775808)) by (nonlinear_arith);
        assert(0 <= back / n <= 9223372036854775808) by (nonlinear_arith)
            requires
                n > 0,
                0 <= back <= n * 9223372036854775808,
        ;
    }
}

proof fn lemma_step(n: int)
    ensures
        (n + 1) * i64::MIN == n * i64::MIN + i64::MIN,
        (n + 1) * i64::MAX == n * i64::MAX + i64::MAX,
{
    assert((n + 1) * i64::MIN == n * i64::MIN + i64::MIN) by (nonlinear_arith);
    assert((n + 1) * i64::MAX == n * i64::MAX + i64::MAX) by (nonlinear_arith);
}

/// The mean time to recover: over the incidents resolved in `ds..de`, in full length.
pub fn mean_resolved_in_window(raw: &Vec<Span>, ds: Ts, de: Ts) -> (r: Option<i64>)
    requires
        raw@.len() <= i64::MAX,
        forall|i: int| 0 <= i < raw@.len() ==> measurable(#[trigger] raw@[i]),
    ensures
        r is Some <==> mean(resolved_durations(raw@, ds as int, de as int)) is Some,
        r matches Some(m) ==> mean(resolved_durations(raw@, ds as int, de as int)) == Some(m as int),
{
    let ghost all = resolved_durations(raw@, ds as int, de as int);
    let mut total: i128 = 0;
    let mut n: i64 = 0;
    let mut i: usize = 0;
    assert(resolved_durations(raw@.take(0), ds as int, de as int) =~= Seq::empty());
    while i < raw.len()
        invariant
            i <= raw@.len(),
            raw@.len() <= i64::MAX,
            0 <= n <= i,
            forall|k: int| 0 <= k < raw@.len() ==> measurable(#[trigger] raw@[k]),
            n == resolved_durations(raw@.take(i as int), ds as int, de as int).len(),
            total == sum(resolved_durations(raw@.take(i as int), ds as int, de as int)),
            n * i64::MIN <= total <= n * i64::MAX,
        decreases raw@.len() - i,
    {
        let s = raw[i];
        let ghost part = resolved_durations(raw@.take(i as int), ds as int, de as int);
        assert(raw@.take(i + 1).drop_last() =~= raw@.take(i as int));
        assert(measurable(raw@[i as int]));
        if let Some(e) = s.end {
            if e >= ds && e < de {
                proof {
                    lemma_step(n as int);
                    assert(part.push(e - s.start).drop_last() =~= part);
                    assert(i64::MIN * i64::MAX <= n * i64::MIN) by (nonlinear_arith)
                        requires
                            0 <= n <= i64::MAX,
                    ;
                    assert(n * i64::MAX <= i64::MAX * i64::MAX) by (nonlinear_arith)
                        requires
                            0 <= n <= i64::MAX,
                    ;
                }
                let took: i64 = e - s.start;
                total = total + took as i128;
                n = n + 1;
            }
        }
        i += 1;
    }
    assert(raw@.take(raw@.len() as int) =~= raw@);
    if n == 0 {
        None
    } else {
        proof {
            lemma_mean_bound(total as int, n as int);
        }
        Some(numbers::divide_wide(total, n))
    }
}

/// An incident is open at the end of a month.
pub open spec fn open_at(s: Span, de: int) -> bool {
    s.start < de && match s.end {
        Some(r) => r >= de,
        None => true,
    }
}

/// How a monitor stood at the end of a month: down where an incident was open.
pub open spec fn status_at(raw: Seq<Span>, de: int) -> Seq<char> {
    if exists|i: int| 0 <= i < raw.len() && open_at(#[trigger] raw[i], de) {
        "down"@
    } else {
        "up"@
    }
}

/// How a monitor stood at `de`.
pub fn end_status_at(raw: &Vec<Span>, de: Ts) -> (r: String)
    ensures
        r@ == status_at(raw@, de as int),
{
    let mut i: usize = 0;
    while i < raw.len()
        invariant
            i <= raw@.len(),
            forall|k: int| 0 <= k < i ==> !open_at(#[trigger] raw@[k], de as int),
        decreases raw@.len() - i,
    {
        let s = raw[i];
        let lasts = match s.end {
            Some(r) => r >= de,
            None => true,
        };
        if s.start < de && lasts {
            assert(open_at(raw@[i as int], de as int));
            return text::own("down");
        }
        i += 1;
    }
    text::own("up")
}

// ---- latency ----

/// A list in ascending order.
pub open spec fn ascending(v: Seq<i64>) -> bool {
    forall|i: int, j: int| 0 <= i <= j < v.len() ==> v[i] <= v[j]
}

fn merge(a: &Vec<i64>, b: &Vec<i64>) -> (r: Vec<i64>)
    requires
        ascending(a@),
        ascending(b@),
    ensures
        ascending(r@),
        r@.to_multiset() == a@.to_multiset().add(b@.to_multiset()),
{
    let mut r: Vec<i64> = Vec::new();
    let mut i: usize = 0;
    let mut j: usize = 0;
    assert(a@.take(0) =~= Seq::empty());
    assert(b@.take(0) =~= Seq::empty());
    assert(r@.to_multiset() =~= a@.take(0).to_multiset().add(b@.take(0).to_multiset())) by {
        broadcast use vstd::seq_lib::group_to_multiset_ensures;

    }
    while i < a.len() || j < b.len()
        invariant
            i <= a@.len(),
            j <= b@.len(),
            ascending(a@),
            ascending(b@),
            ascending(r@),
            r@.to_multiset() == a@.take(i as int).to_multiset().add(
                b@.take(j as int).to_multiset(),
            ),
            forall|k: int|
                0 <= k < r@.len() ==> (i < a@.len() ==> #[trigger] r@[k] <= a@[i as int]) && (j
                    < b@.len() ==> r@[k] <= b@[j as int]),
        decreases a@.len() - i + b@.len() - j,
    {
        let ghost was = r@;
        if j >= b.len() || (i < a.len() && a[i] <= b[j]) {
            proof {
                assert(a@.take(i + 1) =~= a@.take(i as int).push(a@[i as int]));
                vstd::seq_lib::to_multiset_build(a@.take(i as int), a@[i as int]);
                vstd::seq_lib::to_multiset_build(was, a@[i as int]);
            }
            r.push(a[i]);
            assert(r@.to_multiset() =~= a@.take(i + 1).to_multiset().add(
                b@.take(j as int).to_multiset(),
            ));
            i += 1;
        } else {
            proof {
                assert(b@.take(j + 1) =~= b@.take(j as int).push(b@[j as int]));
                vstd::seq_lib::to_multiset_build(b@.take(j as int), b@[j as int]);
                vstd::seq_lib::to_multiset_build(was, b@[j as int]);
            }
            r.push(b[j]);
            assert(r@.to_multiset() =~= a@.take(i as int).to_multiset().add(
                b@.take(j + 1).to_multiset(),
            ));
            j += 1;
        }
        assert forall|k: int, l: int| 0 <= k <= l < r@.len() implies r@[k] <= r@[l] by {
            if l < was.len() {
                assert(was[k] <= was[l]);
            } else if k < was.len() {
                assert(r@[k] == was[k]);
            }
        }
    }
    assert(a@.take(a@.len() as int) =~= a@);
    assert(b@.take(b@.len() as int) =~= b@);
    r
}

/// Sorts a range of a list.
fn sort_range(v: &Vec<i64>, from: usize, to: usize) -> (r: Vec<i64>)
    requires
        from <= to <= v@.len(),
    ensures
        ascending(r@),
        r@.to_multiset() == v@.subrange(from as int, to as int).to_multiset(),
    decreases to - from,
{
    if to - from <= 1 {
        let mut r: Vec<i64> = Vec::new();
        if from < to {
            r.push(v[from]);
        }
        assert(r@ =~= v@.subrange(from as int, to as int));
        return r;
    }
    let mid: usize = from + (to - from) / 2;
    let a = sort_range(v, from, mid);
    let b = sort_range(v, mid, to);
    proof {
        let x = v@.subrange(from as int, mid as int);
        let y = v@.subrange(mid as int, to as int);
        assert(x + y =~= v@.subrange(from as int, to as int));
        vstd::seq_lib::lemma_multiset_commutative(x, y);
    }
    merge(&a, &b)
}

/// `s` is `v` in ascending order.
pub open spec fn sorts(s: Seq<i64>, v: Seq<i64>) -> bool {
    ascending(s) && s.to_multiset() == v.to_multiset()
}

/// The number at position `index` of a list in ascending order; the last one where the list is
/// shorter.
pub fn nth_smallest(v: &Vec<i64>, index: usize) -> (r: Option<i64>)
    ensures
        r is Some <==> v@.len() > 0,
        r matches Some(x) ==> exists|s: Seq<i64>| #[trigger]
            sorts(s, v@) && x == s[if index < v@.len() {
                index as int
            } else {
                v@.len() - 1
            }],
{
    if v.len() == 0 {
        return None;
    }
    let sorted = sort_range(v, 0, v.len());
    assert(v@.subrange(0, v@.len() as int) =~= v@);
    proof {
        vstd::seq_lib::to_multiset_len(sorted@);
        vstd::seq_lib::to_multiset_len(v@);
        assert(sorts(sorted@, v@));
    }
    let k: usize = if index < v.len() {
        index
    } else {
        v.len() - 1
    };
    Some(sorted[k])
}

/// A list has one ascending order.
pub proof fn law_ascending_order_is_determined(a: Seq<i64>, b: Seq<i64>, v: Seq<i64>)
    requires
        sorts(a, v),
        sorts(b, v),
    ensures
        a == b,
{
    let leq = |x: i64, y: i64| x <= y;
    assert(vstd::relations::sorted_by(a, leq));
    assert(vstd::relations::sorted_by(b, leq));
    vstd::seq_lib::lemma_sorted_unique(a, b, leq);
}

/// Whether a month's raw samples are all still stored: the month starts inside the retention.
pub open spec fn retained(ds: int, now: int, retention_days: int) -> bool {
    ds >= now - retention_days * 86400
}

/// Whether a month's percentile can be taken: only where none of its samples were pruned.
pub fn percentile_available(ds: Ts, now: Ts, retention_days: i64) -> (r: bool)
    ensures
        r == retained(ds as int, now as int, retention_days as int),
{
    ds as i128 >= now as i128 - retention_days as i128 * 86_400
}

/// The position of the 95th percentile among `n` samples in ascending order.
pub open spec fn p95_position(n: int) -> int {
    (n * 95 + 99) / 100 - 1
}

/// `r` is the slow response time of a month, where its samples are kept.
pub open spec fn is_p95(samples: Seq<i64>, ds: int, now: int, retention_days: int, r: Option<i64>) -> bool {
    &&& r is Some <==> retained(ds, now, retention_days) && samples.len() > 0
    &&& r matches Some(x) ==> exists|s: Seq<i64>| #[trigger]
        sorts(s, samples) && x == s[p95_position(samples.len() as int)]
}

/// The 95th percentile of a month's response times: nothing where some of the month's samples were
/// pruned, which would bias it, or where there are none.
pub fn monthly_p95_ms(samples: &Vec<i64>, ds: Ts, now: Ts, retention_days: i64) -> (r: Option<i64>)
    ensures
        is_p95(samples@, ds as int, now as int, retention_days as int, r),
{
    if !percentile_available(ds, now, retention_days) || samples.len() == 0 {
        return None;
    }
    let index: usize = ((samples.len() as u128 * 95 + 99) / 100 - 1) as usize;
    nth_smallest(samples, index)
}

// ---- monitors ----

/// A monitor has data for a month: a daily aggregate, or an incident that touches the month.
pub open spec fn has_data(o: Observed) -> bool {
    o.has_samples || o.spans@.len() > 0
}

/// Whether a monitor has data for a month.
pub fn had_any(o: &Observed) -> (r: bool)
    ensures
        r == has_data(*o),
{
    o.has_samples || o.spans.len() > 0
}

/// A monitor counts in the month's figures.
pub open spec fn included(o: Observed) -> bool {
    !o.monitor.is_paused && has_data(o)
}

/// Which monitors of a list count.
pub open spec fn inclusion(list: Seq<Observed>) -> Seq<bool> {
    list.map_values(|o: Observed| included(o))
}

fn include_all(list: &Vec<Observed>) -> (r: Vec<bool>)
    ensures
        r@ == inclusion(list@),
{
    let mut r: Vec<bool> = Vec::new();
    let mut i: usize = 0;
    while i < list.len()
        invariant
            i <= list@.len(),
            r@ =~= inclusion(list@.take(i as int)),
        decreases list@.len() - i,
    {
        r.push(!list[i].monitor.is_paused && had_any(&list[i]));
        i += 1;
    }
    assert(list@.take(list@.len() as int) =~= list@);
    r
}

/// The figures of a month's monitors.
pub open spec fn month_measures(
    period: Seq<char>,
    list: Seq<Observed>,
    windows: Seq<MaintenanceWindow>,
) -> Seq<Option<(int, int)>> {
    let (ds, de) = report::period_bounds(period);
    fleet::measures(list, inclusion(list), windows, ds, de)
}

/// The figures of a month's monitors can be added up.
pub open spec fn month_addable(
    period: Seq<char>,
    list: Seq<Observed>,
    windows: Seq<MaintenanceWindow>,
) -> bool {
    let (ds, de) = report::period_bounds(period);
    fleet::addable(list, windows, ds, de)
}

/// Whether the figures of a month's monitors can be added up.
pub fn can_measure(period: &str, list: &Vec<Observed>, windows: &[MaintenanceWindow]) -> (r: bool)
    ensures
        r == month_addable(period@, list@, windows@),
{
    let (ds, de) = month_bounds(period);
    fleet::can_add(list, windows, ds, de)
}

/// Measures every monitor over a month, and adds the figures up.
pub fn measure_month(period: &str, list: &Vec<Observed>, windows: &[MaintenanceWindow]) -> (r: (
    Vec<Option<(i64, i64)>>,
    Totals,
))
    requires
        month_addable(period@, list@, windows@),
    ensures
        fleet::as_ints(r.0@) == month_measures(period@, list@, windows@),
        r.1.total(month_measures(period@, list@, windows@)),
{
    let (ds, de) = month_bounds(period);
    let included = include_all(list);
    fleet::tally(list, &included, windows, ds, de)
}

/// `r` is the fleet's share of a month, where any of it was measured.
pub open spec fn is_month_share(period: Seq<char>, list: Seq<Observed>, windows: Seq<MaintenanceWindow>, r: Option<Share>) -> bool {
    &&& r is Some <==> fleet::time_sum(month_measures(period, list, windows)) > 0
    &&& r matches Some(s) ==> s.down == fleet::down_sum(month_measures(period, list, windows)) && s.total
        == fleet::time_sum(month_measures(period, list, windows))
}

/// The fleet's share of downtime in a month, where any second of it counts.
pub fn fleet_uptime_for(period: &str, list: &Vec<Observed>, windows: &[MaintenanceWindow]) -> (r:
    Option<Share>)
    requires
        month_addable(period@, list@, windows@),
    ensures
        is_month_share(period@, list@, windows@, r),
{
    let (_, totals) = measure_month(period, list, windows);
    totals.share()
}

/// `r` is the first day of a month and that of the next.
pub open spec fn are_aggregate_days(period: Seq<char>, r: (String, String)) -> bool {
    &&& r.0@ == period + "-01"@
    &&& r.1@ == report::next_of(period) + "-01"@
}

/// The first days of a period's month and of the month after it, as the daily aggregates name
/// them.
pub fn aggregate_days(period: &str) -> (r: (String, String))
    ensures
        are_aggregate_days(period@, r),
{
    let mut first = text::own(period);
    first.append("-01");
    let mut next = next_month(period);
    next.append("-01");
    (first, next)
}

// ---- the order of monitors ----

/// The monitor at position `a` comes before the one at `b`: the lower uptime first, those without
/// an uptime last, and equal ones in their own order.
pub open spec fn comes_before(keys: Seq<Option<i64>>, a: int, b: int) -> bool {
    match (keys[a], keys[b]) {
        (Some(x), Some(y)) => x < y || (x == y && a < b),
        (Some(_), None) => true,
        (None, Some(_)) => false,
        (None, None) => a < b,
    }
}

/// `order` lists every position of `keys`, worst uptime first.
pub open spec fn ranked(keys: Seq<Option<i64>>, order: Seq<int>) -> bool {
    &&& order.len() == keys.len()
    &&& forall|i: int| 0 <= i < order.len() ==> 0 <= #[trigger] order[i] < keys.len()
    &&& forall|i: int, j: int|
        0 <= i < j < order.len() ==> comes_before(keys, #[trigger] order[i], #[trigger] order[j])
}

/// The positions of `keys`, worst uptime first.
pub open spec fn ranking(keys: Seq<Option<i64>>) -> Seq<int> {
    choose|order: Seq<int>| ranked(keys, order)
}

/// The positions of a list as numbers.
pub open spec fn positions(v: Seq<usize>) -> Seq<int> {
    v.map_values(|p: usize| p as int)
}

proof fn lemma_ranked_holds_all(keys: Seq<Option<i64>>, order: Seq<int>, x: int)
    requires
        ranked(keys, order),
    ensures
        order.no_duplicates(),
        order.contains(x) <==> 0 <= x < keys.len(),
{
    assert(order.no_duplicates());
    let all = vstd::set_lib::set_int_range(0, keys.len() as int);
    vstd::set_lib::lemma_int_range(0, keys.len() as int);
    order.unique_seq_to_set();
    let have = order.to_set();
    assert forall|y: int| have.contains(y) implies all.contains(y) by {
        let k = choose|k: int| 0 <= k < order.len() && order[k] == y;
        assert(0 <= order[k] < keys.len());
    }
    vstd::set_lib::lemma_subset_equality(have, all);
    assert(have.contains(x) <==> all.contains(x));
}

/// A list of uptimes has one ranking.
pub proof fn law_ranking_is_determined(keys: Seq<Option<i64>>, a: Seq<int>, b: Seq<int>)
    requires
        ranked(keys, a),
        ranked(keys, b),
    ensures
        a == b,
        ranking(keys) == a,
{
    lemma_one_ranking(keys, a, b);
    let c = ranking(keys);
    assert(ranked(keys, c));
    lemma_one_ranking(keys, a, c);
}

proof fn lemma_one_ranking(keys: Seq<Option<i64>>, a: Seq<int>, b: Seq<int>)
    requires
        ranked(keys, a),
        ranked(keys, b),
    ensures
        a == b,
{
    let leq = |x: int, y: int| x == y || comes_before(keys, x, y);
    assert(vstd::relations::total_ordering(leq));
    assert(vstd::relations::sorted_by(a, leq));
    assert(vstd::relations::sorted_by(b, leq));
    lemma_ranked_holds_all(keys, a, 0);
    lemma_ranked_holds_all(keys, b, 0);
    a.lemma_multiset_has_no_duplicates();
    b.lemma_multiset_has_no_duplicates();
    assert forall|x: int| a.to_multiset().count(x) == b.to_multiset().count(x) by {
        lemma_ranked_holds_all(keys, a, x);
        lemma_ranked_holds_all(keys, b, x);
        vstd::seq_lib::to_multiset_contains(a, x);
        vstd::seq_lib::to_multiset_contains(b, x);
        assert(a.to_multiset().contains(x) ==> a.to_multiset().count(x) == 1);
        assert(b.to_multiset().contains(x) ==> b.to_multiset().count(x) == 1);
    }
    assert(a.to_multiset() =~= b.to_multiset());
    vstd::seq_lib::lemma_sorted_unique(a, b, leq);
}

fn goes_before(keys: &Vec<Option<i64>>, a: usize, b: usize) -> (r: bool)
    requires
        a < keys@.len(),
        b < keys@.len(),
    ensures
        r == comes_before(keys@, a as int, b as int),
{
    match (keys[a], keys[b]) {
        (Some(x), Some(y)) => x < y || (x == y && a < b),
        (Some(_), None) => true,
        (None, Some(_)) => false,
        (None, None) => a < b,
    }
}

/// Orders monitors by uptime, worst first; those without an uptime come last, and equal ones keep
/// their order.
pub fn worst_first(keys: &Vec<Option<i64>>) -> (r: Vec<usize>)
    ensures
        ranked(keys@, positions(r@)),
        positions(r@) == ranking(keys@),
{
    let mut order: Vec<usize> = Vec::new();
    let mut i: usize = 0;
    while i < keys.len()
        invariant
            i <= keys@.len(),
            order@.len() == i,
            forall|k: int| 0 <= k < order@.len() ==> #[trigger] order@[k] < i,
            forall|k: int, l: int|
                0 <= k < l < order@.len() ==> comes_before(
                    keys@,
                    (#[trigger] order@[k]) as int,
                    (#[trigger] order@[l]) as int,
                ),
        decreases keys@.len() - i,
    {
        let mut p: usize = 0;
        while p < order.len() && !goes_before(keys, i, order[p])
            invariant
                p <= order@.len(),
                i < keys@.len(),
                forall|k: int| 0 <= k < order@.len() ==> #[trigger] order@[k] < i,
                forall|k: int|
                    0 <= k < p ==> comes_before(keys@, (#[trigger] order@[k]) as int, i as int),
            decreases order@.len() - p,
        {
            p += 1;
        }
        let ghost was = order@;
        order.insert(p, i);
        assert forall|k: int, l: int| 0 <= k < l < order@.len() implies comes_before(
            keys@,
            (#[trigger] order@[k]) as int,
            (#[trigger] order@[l]) as int,
        ) by {
            if k < p && l > p {
                assert(order@[k] == was[k] && order@[l] == was[l - 1]);
            } else if k > p {
                assert(order@[k] == was[k - 1] && order@[l] == was[l - 1]);
            } else if l < p {
                assert(order@[k] == was[k] && order@[l] == was[l]);
            } else if k == p {
                assert(order@[l] == was[l - 1]);
                assert(comes_before(keys@, i as int, was[p as int] as int));
                if l - 1 > p {
                    assert(comes_before(keys@, was[p as int] as int, was[l - 1] as int));
                }
            } else {
                assert(order@[k] == was[k]);
            }
        }
        assert forall|k: int| 0 <= k < order@.len() implies #[trigger] order@[k] < i + 1 by {
            if k < p {
                assert(order@[k] == was[k]);
            } else if k > p {
                assert(order@[k] == was[k - 1]);
            }
        }
        i += 1;
    }
    proof {
        let v = positions(order@);
        assert forall|k: int| 0 <= k < v.len() implies 0 <= #[trigger] v[k] < keys@.len() by {
            assert(order@[k] < i);
        }
        assert forall|k: int, l: int| 0 <= k < l < v.len() implies comes_before(
            keys@,
            #[trigger] v[k],
            #[trigger] v[l],
        ) by {
            assert(v[k] == order@[k] && v[l] == order@[l]);
        }
        law_ranking_is_determined(keys@, v, v);
    }
    order
}

// ---- rows ----

/// The uptime that a row shows: none where no time was measured.
pub open spec fn row_uptime(f: Option<(int, int)>, shown: Option<i64>) -> Option<i64> {
    match f {
        Some(v) => if v.1 > 0 {
            shown
        } else {
            None
        },
        None => None,
    }
}

/// The uptimes that the rows show.
pub open spec fn row_uptimes(measures: Seq<Option<(int, int)>>, shown: Seq<Option<i64>>) -> Seq<
    Option<i64>,
> {
    Seq::new(measures.len(), |i: int| row_uptime(measures[i], shown[i]))
}

/// How a monitor's row ends.
pub open spec fn row_status(o: Observed, de: int) -> Seq<char> {
    if included(o) {
        status_at(o.spans@, de)
    } else if o.monitor.is_paused {
        "paused"@
    } else {
        "no data"@
    }
}

/// `r` is the row of a monitor.
pub open spec fn row_of(
    r: MonitorReport,
    o: Observed,
    f: Option<(int, int)>,
    shown: Option<i64>,
    latency: (Option<i64>, Option<i64>),
    ds: int,
    de: int,
) -> bool {
    let mttr = mean(resolved_durations(o.spans@, ds, de));
    &&& r.id == o.monitor.id
    &&& r.name@ == o.monitor.name@
    &&& r.kind@ == o.monitor.kind@
    &&& r.uptime_pct == row_uptime(f, shown)
    &&& r.incidents == o.spans@.len()
    &&& r.downtime_seconds == match f {
        Some(v) => v.0,
        None => 0,
    }
    &&& (r.mttr_seconds is Some <==> mttr is Some)
    &&& (r.mttr_seconds matches Some(m) ==> mttr == Some(m as int))
    &&& r.avg_ms == latency.0
    &&& r.p95_ms == latency.1
    &&& r.end_status@ == row_status(o, de)
}

/// Every incident of a monitor can be measured.
pub open spec fn all_measurable(o: Observed) -> bool {
    o.spans@.len() <= i64::MAX && forall|i: int|
        0 <= i < o.spans@.len() ==> measurable(#[trigger] o.spans@[i])
}

fn row(
    o: &Observed,
    f: Option<(i64, i64)>,
    shown: Option<i64>,
    latency: (Option<i64>, Option<i64>),
    ds: Ts,
    de: Ts,
) -> (r: MonitorReport)
    requires
        all_measurable(*o),
        f is Some <==> included(*o),
    ensures
        row_of(
            r,
            *o,
            match f {
                Some(v) => Some((v.0 as int, v.1 as int)),
                None => None,
            },
            shown,
            latency,
            ds as int,
            de as int,
        ),
{
    let mttr = mean_resolved_in_window(&o.spans, ds, de);
    let (uptime_pct, downtime, status): (Option<i64>, i64, String) = match f {
        Some((down, time)) => (
            if time > 0 {
                shown
            } else {
                None
            },
            down,
            end_status_at(&o.spans, de),
        ),
        None => (
            None,
            0,
            if o.monitor.is_paused {
                text::own("paused")
            } else {
                text::own("no data")
            },
        ),
    };
    MonitorReport {
        id: o.monitor.id,
        name: text::own(o.monitor.name.as_str()),
        kind: text::own(o.monitor.kind.as_str()),
        uptime_pct,
        incidents: o.spans.len() as i64,
        downtime_seconds: downtime,
        mttr_seconds: mttr,
        avg_ms: latency.0,
        p95_ms: latency.1,
        end_status: status,
    }
}

// ---- the incident log ----

/// An incident touches `ds..de`.
pub open spec fn touches(i: NamedIncident, ds: int, de: int) -> bool {
    i.started_at < de && (i.resolved_at matches Some(r) ==> r > ds)
}

/// The span of a stored incident.
pub open spec fn span_of(i: NamedIncident) -> Span {
    Span { start: i.started_at, end: i.resolved_at }
}

/// The spans of stored incidents.
pub open spec fn spans_of(rows: Seq<NamedIncident>) -> Seq<Span> {
    rows.map_values(|i: NamedIncident| span_of(i))
}

/// `e` is the entry of a stored incident.
pub open spec fn entry_of(e: ReportIncident, i: NamedIncident, ds: int, de: int) -> bool {
    &&& e.monitor_name@ == i.monitor_name@
    &&& e.started_at == i.started_at
    &&& e.resolved_at == i.resolved_at
    &&& e.duration_seconds is Some
    &&& e.duration_seconds->0 == clipped(i.started_at, i.resolved_at, ds, de)
    &&& text::view_opt(e.cause) == text::view_opt(i.cause)
    &&& e.status_code == i.status_code
    &&& text::view_opt(e.error_message) == text::view_opt(i.error_message)
}

/// The longest outage: the first of those that last longest in `ds..de`.
pub open spec fn longest(rows: Seq<NamedIncident>, ds: int, de: int) -> Option<(Seq<char>, int)>
    decreases rows.len(),
{
    if rows.len() == 0 {
        None
    } else {
        let i = rows.last();
        let d = clipped(i.started_at, i.resolved_at, ds, de);
        match longest(rows.drop_last(), ds, de) {
            Some(best) => if d > best.1 {
                Some((i.monitor_name@, d))
            } else {
                Some(best)
            },
            None => Some((i.monitor_name@, d)),
        }
    }
}

/// `l` is the longest outage.
pub open spec fn is_longest(l: Option<LongestOutage>, best: Option<(Seq<char>, int)>) -> bool {
    match best {
        Some(b) => l is Some && l->0.monitor@ == b.0 && l->0.seconds == b.1,
        None => l is None,
    }
}

/// The longest outage is no shorter than any other.
pub proof fn law_longest_outage_bounds_all(rows: Seq<NamedIncident>, ds: int, de: int, k: int)
    requires
        0 <= k < rows.len(),
    ensures
        longest(rows, ds, de) is Some,
        clipped(rows[k].started_at, rows[k].resolved_at, ds, de) <= (longest(rows, ds, de)->0).1,
    decreases rows.len(),
{
    if k < rows.len() - 1 {
        law_longest_outage_bounds_all(rows.drop_last(), ds, de, k);
    }
}

/// The log of a month: its entries, the longest outage, and the spans.
pub struct IncidentLog {
    pub entries: Vec<ReportIncident>,
    pub longest: Option<LongestOutage>,
    pub spans: Vec<Span>,
}

fn incident_log(rows: &Vec<NamedIncident>, ds: Ts, de: Ts) -> (r: IncidentLog)
    requires
        0 <= de - ds <= i64::MAX,
        forall|i: int| 0 <= i < rows@.len() ==> touches(#[trigger] rows@[i], ds as int, de as int),
    ensures
        r.entries@.len() == rows@.len(),
        forall|i: int|
            0 <= i < rows@.len() ==> entry_of(
                #[trigger] r.entries@[i],
                rows@[i],
                ds as int,
                de as int,
            ),
        is_longest(r.longest, longest(rows@, ds as int, de as int)),
        r.spans@ == spans_of(rows@),
{
    let mut entries: Vec<ReportIncident> = Vec::new();
    let mut spans: Vec<Span> = Vec::new();
    let mut best: Option<LongestOutage> = None;
    let mut i: usize = 0;
    while i < rows.len()
        invariant
            i <= rows@.len(),
            0 <= de - ds <= i64::MAX,
            forall|k: int|
                0 <= k < rows@.len() ==> touches(#[trigger] rows@[k], ds as int, de as int),
            entries@.len() == i,
            forall|k: int|
                0 <= k < i ==> entry_of(#[trigger] entries@[k], rows@[k], ds as int, de as int),
            is_longest(best, longest(rows@.take(i as int), ds as int, de as int)),
            spans@ =~= spans_of(rows@.take(i as int)),
        decreases rows@.len() - i,
    {
        let row = &rows[i];
        assert(touches(rows@[i as int], ds as int, de as int));
        assert(rows@.take(i + 1).drop_last() =~= rows@.take(i as int));
        let took = clip(row.started_at, row.resolved_at, ds, de);
        let longer = match &best {
            Some(b) => took > b.seconds,
            None => true,
        };
        if longer {
            best = Some(
                LongestOutage { monitor: text::own(row.monitor_name.as_str()), seconds: took },
            );
        }
        spans.push(Span { start: row.started_at, end: row.resolved_at });
        let e = ReportIncident {
            monitor_name: text::own(row.monitor_name.as_str()),
            started_at: row.started_at,
            resolved_at: row.resolved_at,
            duration_seconds: Some(took),
            cause: own_opt(&row.cause),
            status_code: row.status_code,
            error_message: own_opt(&row.error_message),
        };
        assert(entry_of(e, rows@[i as int], ds as int, de as int));
        entries.push(e);
        i += 1;
    }
    assert(rows@.take(rows@.len() as int) =~= rows@);
    IncidentLog { entries, longest: best, spans }
}

/// How many items of an outlook have at most `limit` days left.
pub open spec fn due_within(v: Seq<fleet::Expiry>, limit: int) -> int
    decreases v.len(),
{
    if v.len() == 0 {
        0
    } else {
        due_within(v.drop_last(), limit) + if v.last().2 is Some && v.last().2->0 <= limit {
            1int
        } else {
            0int
        }
    }
}

/// What expires within thirty days expires within sixty.
pub proof fn law_due_counts_nest(v: Seq<fleet::Expiry>, a: int, b: int)
    requires
        a <= b,
    ensures
        0 <= due_within(v, a) <= due_within(v, b) <= v.len(),
    decreases v.len(),
{
    if v.len() > 0 {
        law_due_counts_nest(v.drop_last(), a, b);
    }
}

fn count_due(items: &Vec<ExpiryItem>, limit: i64) -> (r: i64)
    requires
        items@.len() <= i64::MAX,
    ensures
        r == due_within(fleet::expiries(items@), limit as int),
{
    let ghost v = fleet::expiries(items@);
    let mut n: i64 = 0;
    let mut i: usize = 0;
    while i < items.len()
        invariant
            i <= items@.len(),
            items@.len() <= i64::MAX,
            v == fleet::expiries(items@),
            n == due_within(v.take(i as int), limit as int),
            0 <= n <= i,
        decreases items@.len() - i,
    {
        assert(v.take(i + 1).drop_last() =~= v.take(i as int));
        if let Some(d) = items[i].days_remaining {
            if d <= limit {
                n = n + 1;
            }
        }
        i += 1;
    }
    assert(v.take(v.len() as int) =~= v);
    n
}

/// Every watched certificate and domain, with how many expire within 30 and 60 days.
pub fn cert_outlook(list: &Vec<Observed>) -> (r: (Vec<ExpiryItem>, i64, i64))
    requires
        2 * list@.len() <= i64::MAX,
    ensures
        fleet::expiries(r.0@) == fleet::outlook(list@),
        r.1 == due_within(fleet::outlook(list@), 30),
        r.2 == due_within(fleet::outlook(list@), 60),
{
    let items = fleet::expirations(list);
    proof {
        fleet::lemma_outlook_length(list@);
        assert(items@.len() == fleet::expiries(items@).len());
    }
    let e30 = count_due(&items, 30);
    let e60 = count_due(&items, 60);
    (items, e30, e60)
}

// ---- the report ----

/// What a report is computed from beside the monitors and incidents: the uptimes as they are
/// shown, in hundredths of a percent, and the counts and latencies of the month.
#[derive(Clone, Debug)]
pub struct MonthInput {
    pub generated_at: i64,
    /// The monitors as the month before saw them.
    pub before: Vec<Observed>,
    /// Each monitor's uptime.
    pub shown: Vec<Option<i64>>,
    /// Each monitor's mean response time and its 95th percentile.
    pub latency: Vec<(Option<i64>, Option<i64>)>,
    /// The fleet's uptime, and that of the month before.
    pub fleet_pct: Option<i64>,
    pub prior_pct: Option<i64>,
    pub ssl_alerts: i64,
    pub domain_alerts: i64,
}

/// An uptime as it is shown belongs to the figures: there is one exactly where time was measured, and
/// it shows the share of downtime.
pub open spec fn shows_figures(shown: Option<i64>, f: Option<(int, int)>) -> bool {
    match f {
        Some(v) => if v.1 > 0 {
            shown is Some && uptime::shows(shown->0 as int, v.0, v.1)
        } else {
            shown is None
        },
        None => shown is None,
    }
}

fn can_show(shown: Option<i64>, f: Option<(i64, i64)>) -> (r: bool)
    ensures
        r == shows_figures(
            shown,
            match f {
                Some(v) => Some((v.0 as int, v.1 as int)),
                None => None,
            },
        ),
{
    match f {
        Some((down, total)) => if total > 0 {
            match shown {
                Some(pct) => (Share { down, total }).shown_by(pct),
                None => false,
            }
        } else {
            shown.is_none()
        },
        None => shown.is_none(),
    }
}

/// The figures of a whole fleet, added up.
pub open spec fn fleet_figures(v: Seq<Option<(int, int)>>) -> Option<(int, int)> {
    Some((fleet::down_sum(v), fleet::time_sum(v)))
}

/// The uptimes as they are shown belong to what was measured, of each monitor, of the fleet, and of
/// the fleet in the month before.
pub open spec fn shows_month(
    input: MonthInput,
    period: Seq<char>,
    list: Seq<Observed>,
    windows: Seq<MaintenanceWindow>,
) -> bool {
    let v = month_measures(period, list, windows);
    let before = month_measures(report::prior_of(period), input.before@, windows);
    &&& input.shown@.len() == list.len()
    &&& forall|i: int|
        0 <= i < list.len() ==> shows_figures(#[trigger] input.shown@[i], v[i])
    &&& shows_figures(input.fleet_pct, fleet_figures(v))
    &&& shows_figures(input.prior_pct, fleet_figures(before))
}

fn can_show_month(
    input: &MonthInput,
    period: &str,
    list: &Vec<Observed>,
    windows: &[MaintenanceWindow],
) -> (r: bool)
    requires
        month_addable(period@, list@, windows@),
        month_addable(report::prior_of(period@), input.before@, windows@),
    ensures
        r == shows_month(*input, period@, list@, windows@),
{
    let earlier = prior_month(period);
    let (each, totals) = measure_month(period, list, windows);
    let (_, before) = measure_month(earlier.as_str(), &input.before, windows);
    let ghost v = month_measures(period@, list@, windows@);
    assert(fleet::as_ints(each@) == v);
    assert(each@.len() == v.len());
    if input.shown.len() != list.len() || !can_show(
        input.fleet_pct,
        Some((totals.down, totals.time)),
    ) || !can_show(input.prior_pct, Some((before.down, before.time))) {
        return false;
    }
    let mut i: usize = 0;
    while i < list.len()
        invariant
            i <= list@.len(),
            v == month_measures(period@, list@, windows@),
            v == fleet::as_ints(each@),
            each@.len() == list@.len(),
            input.shown@.len() == list@.len(),
            forall|k: int| 0 <= k < i ==> shows_figures(#[trigger] input.shown@[k], v[k]),
        decreases list@.len() - i,
    {
        if !can_show(input.shown[i], each[i]) {
            assert(!shows_figures(input.shown@[i as int], v[i as int]));
            return false;
        }
        assert(shows_figures(input.shown@[i as int], v[i as int]));
        i += 1;
    }
    true
}

/// The difference of two uptimes, where both are known.
pub open spec fn delta_of(now: Option<i64>, prior: Option<i64>) -> Option<int> {
    match (now, prior) {
        (Some(c), Some(p)) => Some(c - p),
        _ => None,
    }
}

/// The report of a month can be computed: its figures fit, and the inputs belong together.
pub open spec fn computable(
    period: Seq<char>,
    list: Seq<Observed>,
    windows: Seq<MaintenanceWindow>,
    rows: Seq<NamedIncident>,
    input: MonthInput,
) -> bool {
    let (ds, de) = report::period_bounds(period);
    &&& month_addable(period, list, windows)
    &&& 2 * list.len() <= i64::MAX
    &&& forall|i: int| 0 <= i < list.len() ==> all_measurable(#[trigger] list[i])
    &&& rows.len() <= i64::MAX
    &&& forall|i: int|
        0 <= i < rows.len() ==> touches(#[trigger] rows[i], ds, de) && measurable(span_of(rows[i]))
    &&& month_addable(report::prior_of(period), input.before@, windows)
    &&& shows_month(input, period, list, windows)
    &&& input.latency@.len() == list.len()
    &&& (delta_of(input.fleet_pct, input.prior_pct) matches Some(d) ==> i64::MIN <= d <= i64::MAX)
}

fn span_measurable(s: Span) -> (r: bool)
    ensures
        r == measurable(s),
{
    match s.end {
        Some(e) => {
            let d: i128 = e as i128 - s.start as i128;
            i64::MIN as i128 <= d && d <= i64::MAX as i128
        },
        None => true,
    }
}

fn can_measure_all(o: &Observed) -> (r: bool)
    ensures
        r == all_measurable(*o),
{
    let mut i: usize = 0;
    while i < o.spans.len()
        invariant
            i <= o.spans@.len(),
            forall|k: int| 0 <= k < i ==> measurable(#[trigger] o.spans@[k]),
        decreases o.spans@.len() - i,
    {
        if !span_measurable(o.spans[i]) {
            assert(!measurable(o.spans@[i as int]));
            return false;
        }
        i += 1;
    }
    o.spans.len() as u128 <= i64::MAX as u128
}

fn can_log(rows: &Vec<NamedIncident>, ds: Ts, de: Ts) -> (r: bool)
    ensures
        r == forall|i: int|
            0 <= i < rows@.len() ==> touches(#[trigger] rows@[i], ds as int, de as int)
                && measurable(span_of(rows@[i])),
{
    let mut i: usize = 0;
    while i < rows.len()
        invariant
            i <= rows@.len(),
            forall|k: int|
                0 <= k < i ==> touches(#[trigger] rows@[k], ds as int, de as int) && measurable(
                    span_of(rows@[k]),
                ),
        decreases rows@.len() - i,
    {
        let row = &rows[i];
        let reaches = match row.resolved_at {
            Some(t) => t > ds,
            None => true,
        };
        let fits = span_measurable(Span { start: row.started_at, end: row.resolved_at });
        if row.started_at >= de || !reaches || !fits {
            assert(!(touches(rows@[i as int], ds as int, de as int) && measurable(
                span_of(rows@[i as int]),
            )));
            return false;
        }
        i += 1;
    }
    true
}

/// Whether the report of a month can be computed.
pub fn can_compute(
    period: &str,
    list: &Vec<Observed>,
    windows: &[MaintenanceWindow],
    rows: &Vec<NamedIncident>,
    input: &MonthInput,
) -> (r: bool)
    ensures
        r == computable(period@, list@, windows@, rows@, *input),
{
    let (ds, de) = month_bounds(period);
    let earlier = prior_month(period);
    if !can_measure(period, list, windows) || !can_measure(
        earlier.as_str(),
        &input.before,
        windows,
    ) || !can_show_month(input, period, list, windows) {
        return false;
    }
    if 2 * (list.len() as u128) > i64::MAX as u128 || rows.len() as u128 > i64::MAX as u128
        || input.latency.len() != list.len() || !can_log(rows, ds, de) {
        return false;
    }
    if let (Some(c), Some(p)) = (input.fleet_pct, input.prior_pct) {
        let d: i128 = c as i128 - p as i128;
        if d < i64::MIN as i128 || d > i64::MAX as i128 {
            return false;
        }
    }
    let mut i: usize = 0;
    while i < list.len()
        invariant
            i <= list@.len(),
            forall|k: int| 0 <= k < i ==> all_measurable(#[trigger] list@[k]),
        decreases list@.len() - i,
    {
        if !can_measure_all(&list[i]) {
            assert(!all_measurable(list@[i as int]));
            return false;
        }
        i += 1;
    }
    true
}

/// `f` holds the fleet's figures.
pub open spec fn fleet_of(
    f: FleetReport,
    v: Seq<Option<(int, int)>>,
    list: Seq<Observed>,
    rows: Seq<NamedIncident>,
    input: MonthInput,
    ds: int,
    de: int,
) -> bool {
    let mttr = mean(resolved_durations(spans_of(rows), ds, de));
    let delta = delta_of(f.uptime_pct, input.prior_pct);
    &&& f.uptime_pct == (if fleet::time_sum(v) > 0 {
        input.fleet_pct
    } else {
        None
    })
    &&& (f.uptime_delta is Some <==> delta is Some)
    &&& (f.uptime_delta matches Some(d) ==> delta == Some(d as int))
    &&& f.incidents == rows.len()
    &&& f.downtime_seconds == fleet::down_sum(v)
    &&& (f.mttr_seconds is Some <==> mttr is Some)
    &&& (f.mttr_seconds matches Some(m) ==> mttr == Some(m as int))
    &&& is_longest(f.longest_outage, longest(rows, ds, de))
    &&& f.monitors_total == fleet::reporting(v)
    &&& f.clean_monitors == fleet::up_throughout(v)
    &&& f.ssl_alerts == input.ssl_alerts
    &&& f.domain_alerts == input.domain_alerts
    &&& f.expiring_30d == due_within(fleet::outlook(list), 30)
    &&& f.expiring_60d == due_within(fleet::outlook(list), 60)
}

/// `rows` are the monitors' rows, worst uptime first.
pub open spec fn rows_of(
    rows: Seq<MonitorReport>,
    v: Seq<Option<(int, int)>>,
    list: Seq<Observed>,
    input: MonthInput,
    ds: int,
    de: int,
) -> bool {
    let order = ranking(row_uptimes(v, input.shown@));
    &&& ranked(row_uptimes(v, input.shown@), order)
    &&& rows.len() == list.len()
    &&& forall|i: int|
        0 <= i < rows.len() ==> row_of(
            #[trigger] rows[i],
            list[order[i]],
            v[order[i]],
            input.shown@[order[i]],
            input.latency@[order[i]],
            ds,
            de,
        )
}

fn keys_of(each: &Vec<Option<(i64, i64)>>, shown: &Vec<Option<i64>>) -> (r: Vec<Option<i64>>)
    requires
        each@.len() == shown@.len(),
    ensures
        r@ == row_uptimes(fleet::as_ints(each@), shown@),
{
    let mut r: Vec<Option<i64>> = Vec::new();
    let mut i: usize = 0;
    while i < each.len()
        invariant
            i <= each@.len(),
            each@.len() == shown@.len(),
            r@ =~= row_uptimes(fleet::as_ints(each@), shown@).take(i as int),
        decreases each@.len() - i,
    {
        let key: Option<i64> = match each[i] {
            Some((_, time)) => if time > 0 {
                shown[i]
            } else {
                None
            },
            None => None,
        };
        r.push(key);
        i += 1;
    }
    r
}

fn monitor_rows(
    list: &Vec<Observed>,
    each: &Vec<Option<(i64, i64)>>,
    windows: Ghost<Seq<MaintenanceWindow>>,
    input: &MonthInput,
    ds: Ts,
    de: Ts,
) -> (r: Vec<MonitorReport>)
    requires
        forall|i: int| 0 <= i < list@.len() ==> all_measurable(#[trigger] list@[i]),
        input.shown@.len() == list@.len(),
        input.latency@.len() == list@.len(),
        fleet::as_ints(each@) == fleet::measures(
            list@,
            inclusion(list@),
            windows@,
            ds as int,
            de as int,
        ),
    ensures
        rows_of(r@, fleet::as_ints(each@), list@, *input, ds as int, de as int),
{
    let ghost v = fleet::as_ints(each@);
    assert(each@.len() == v.len());
    let keys = keys_of(each, &input.shown);
    let order = worst_first(&keys);
    let ghost places = ranking(row_uptimes(v, input.shown@));
    let mut r: Vec<MonitorReport> = Vec::new();
    let mut i: usize = 0;
    while i < order.len()
        invariant
            i <= order@.len(),
            r@.len() == i,
            order@.len() == list@.len(),
            each@.len() == list@.len(),
            v == fleet::as_ints(each@),
            v == fleet::measures(list@, inclusion(list@), windows@, ds as int, de as int),
            places == positions(order@),
            ranked(keys@, places),
            keys@.len() == list@.len(),
            input.shown@.len() == list@.len(),
            input.latency@.len() == list@.len(),
            forall|k: int| 0 <= k < list@.len() ==> all_measurable(#[trigger] list@[k]),
            forall|k: int|
                0 <= k < i ==> row_of(
                    #[trigger] r@[k],
                    list@[places[k]],
                    v[places[k]],
                    input.shown@[places[k]],
                    input.latency@[places[k]],
                    ds as int,
                    de as int,
                ),
        decreases order@.len() - i,
    {
        let at: usize = order[i];
        proof {
            assert(places[i as int] == at);
            assert(0 <= places[i as int] < keys@.len());
            assert(all_measurable(list@[at as int]));
            assert(v[at as int] is Some <==> inclusion(list@)[at as int]);
        }
        let next = row(&list[at], each[at], input.shown[at], input.latency[at], ds, de);
        r.push(next);
        i += 1;
    }
    r
}

/// `s` is the report of a month.
pub open spec fn reports(
    s: ReportSummary,
    period: Seq<char>,
    list: Seq<Observed>,
    windows: Seq<MaintenanceWindow>,
    rows: Seq<NamedIncident>,
    input: MonthInput,
) -> bool {
    let (ds, de) = report::period_bounds(period);
    let v = month_measures(period, list, windows);
    &&& s.period@ == period
    &&& s.label@ == report::label_of(period)
    &&& s.generated_at == input.generated_at
    &&& fleet_of(s.fleet, v, list, rows, input, ds, de)
    &&& fleet::expiries(s.cert_outlook@) == fleet::outlook(list)
    &&& rows_of(s.monitors@, v, list, input, ds, de)
    &&& s.incidents@.len() == rows.len()
    &&& forall|i: int|
        0 <= i < rows.len() ==> entry_of(#[trigger] s.incidents@[i], rows[i], ds, de)
}

/// Computes the report of a month from its monitors and the incidents that touch it.
///
/// Monitors come worst uptime first. Paused monitors and monitors without data have a row, and
/// stay out of the fleet's figures.
pub fn compute(
    period: &str,
    list: &Vec<Observed>,
    windows: &[MaintenanceWindow],
    rows: &Vec<NamedIncident>,
    input: &MonthInput,
) -> (r: ReportSummary)
    requires
        computable(period@, list@, windows@, rows@, *input),
    ensures
        reports(r, period@, list@, windows@, rows@, *input),
{
    let (ds, de) = month_bounds(period);
    let (each, totals) = measure_month(period, list, windows);
    let monitors = monitor_rows(list, &each, Ghost(windows@), input, ds, de);
    let log = incident_log(rows, ds, de);
    assert forall|i: int| 0 <= i < log.spans@.len() implies measurable(#[trigger] log.spans@[i]) by {
        assert(touches(rows@[i], ds as int, de as int) && measurable(span_of(rows@[i])));
    }
    let mttr = mean_resolved_in_window(&log.spans, ds, de);
    let (outlook, e30, e60) = cert_outlook(list);
    let uptime_pct: Option<i64> = if totals.time > 0 {
        input.fleet_pct
    } else {
        None
    };
    let uptime_delta: Option<i64> = match (uptime_pct, input.prior_pct) {
        (Some(c), Some(p)) => Some(c - p),
        _ => None,
    };
    ReportSummary {
        period: text::own(period),
        label: month_label(period),
        generated_at: input.generated_at,
        fleet: FleetReport {
            uptime_pct,
            uptime_delta,
            incidents: rows.len() as i64,
            downtime_seconds: totals.down,
            mttr_seconds: mttr,
            longest_outage: log.longest,
            monitors_total: totals.reporting,
            clean_monitors: totals.up_throughout,
            ssl_alerts: input.ssl_alerts,
            domain_alerts: input.domain_alerts,
            expiring_30d: e30,
            expiring_60d: e60,
        },
        cert_outlook: outlook,
        monitors,
        incidents: log.entries,
    }
}

/// Every uptime of a report shows what was measured: that of a monitor the share of its row, and that
/// of the fleet the share of all. The change since the month before is that of two such uptimes.
pub proof fn law_shown_uptimes_are_measured(
    s: ReportSummary,
    period: Seq<char>,
    list: Seq<Observed>,
    windows: Seq<MaintenanceWindow>,
    rows: Seq<NamedIncident>,
    input: MonthInput,
    i: int,
)
    requires
        computable(period, list, windows, rows, input),
        reports(s, period, list, windows, rows, input),
        0 <= i < list.len(),
    ensures
        ({
            let v = month_measures(period, list, windows);
            let order = ranking(row_uptimes(v, input.shown@));
            let before = month_measures(report::prior_of(period), input.before@, windows);
            &&& shows_figures(s.fleet.uptime_pct, fleet_figures(v))
            &&& shows_figures(s.monitors@[i].uptime_pct, v[order[i]])
            &&& s.fleet.uptime_delta matches Some(d) ==> shows_figures(
                Some((s.fleet.uptime_pct->0 - d) as i64),
                fleet_figures(before),
            )
        }),
{
    let v = month_measures(period, list, windows);
    let keys = row_uptimes(v, input.shown@);
    let order = ranking(keys);
    assert(0 <= order[i] < keys.len());
    assert(row_of(
        s.monitors@[i],
        list[order[i]],
        v[order[i]],
        input.shown@[order[i]],
        input.latency@[order[i]],
        report::period_bounds(period).0,
        report::period_bounds(period).1,
    ));
    assert(shows_figures(input.shown@[order[i]], v[order[i]]));
}

/// A monitor has data for a month by a daily aggregate or by an incident, and counts unless it is
/// paused.
pub proof fn law_who_counts(o: Observed)
    ensures
        has_data(o) <==> o.has_samples || o.spans@.len() > 0,
        included(o) <==> !o.monitor.is_paused && (o.has_samples || o.spans@.len() > 0),
{
}

/// How one more monitor changes the fleet's figures: one that is not paused and has data adds its own
/// downtime, counts among the monitors, and as clean where it was measured and never down; any other
/// changes none of them.
pub proof fn law_fleet_adds_monitors_up(
    s: ReportSummary,
    next: ReportSummary,
    period: Seq<char>,
    list: Seq<Observed>,
    o: Observed,
    windows: Seq<MaintenanceWindow>,
    rows: Seq<NamedIncident>,
    input: MonthInput,
    next_input: MonthInput,
)
    requires
        reports(s, period, list, windows, rows, input),
        reports(next, period, list.push(o), windows, rows, next_input),
    ensures
        ({
            let counted = !o.monitor.is_paused && (o.has_samples || o.spans@.len() > 0);
            let (ds, de) = report::period_bounds(period);
            let own = fleet::figures(o, windows, ds, de);
            &&& counted ==> next.fleet.downtime_seconds == s.fleet.downtime_seconds + own.0
            &&& counted ==> next.fleet.monitors_total == s.fleet.monitors_total + 1
            &&& counted ==> next.fleet.clean_monitors == s.fleet.clean_monitors + if own.0 == 0
                && own.1 > 0 {
                1int
            } else {
                0
            }
            &&& !counted ==> next.fleet.downtime_seconds == s.fleet.downtime_seconds
            &&& !counted ==> next.fleet.monitors_total == s.fleet.monitors_total
            &&& !counted ==> next.fleet.clean_monitors == s.fleet.clean_monitors
            &&& next.monitors@.len() == s.monitors@.len() + 1
        }),
{
    let v = month_measures(period, list, windows);
    let w = month_measures(period, list.push(o), windows);
    assert(w.drop_last() =~= v);
}

/// A report of no monitors has no uptime and no downtime.
pub proof fn law_empty_fleet(
    s: ReportSummary,
    period: Seq<char>,
    windows: Seq<MaintenanceWindow>,
    rows: Seq<NamedIncident>,
    input: MonthInput,
)
    requires
        reports(s, period, Seq::empty(), windows, rows, input),
    ensures
        s.fleet.uptime_pct is None,
        s.fleet.uptime_delta is None,
        s.fleet.downtime_seconds == 0,
        s.fleet.monitors_total == 0,
        s.fleet.clean_monitors == 0,
        s.monitors@.len() == 0,
        s.fleet.expiring_30d == 0,
        s.fleet.expiring_60d == 0,
{
}

/// The row of a monitor tells of it: who it is, how many incidents touch the month, its own downtime
/// where it counts and none where it does not, its latencies, and how the month ended for it: paused,
/// without data, or down exactly where an incident was open.
pub proof fn law_rows_tell_their_monitors(
    s: ReportSummary,
    period: Seq<char>,
    list: Seq<Observed>,
    windows: Seq<MaintenanceWindow>,
    rows: Seq<NamedIncident>,
    input: MonthInput,
    i: int,
)
    requires
        reports(s, period, list, windows, rows, input),
        0 <= i < list.len(),
    ensures
        ({
            let (ds, de) = report::period_bounds(period);
            let v = month_measures(period, list, windows);
            let k = ranking(row_uptimes(v, input.shown@))[i];
            let o = list[k];
            let r = s.monitors@[i];
            let counted = !o.monitor.is_paused && (o.has_samples || o.spans@.len() > 0);
            let open = exists|j: int|
                0 <= j < o.spans@.len() && (#[trigger] o.spans@[j]).start < de && (o.spans@[j].end
                    is None || o.spans@[j].end->0 >= de);
            &&& 0 <= k < list.len()
            &&& s.monitors@.len() == list.len()
            &&& r.id == o.monitor.id
            &&& r.name@ == o.monitor.name@
            &&& r.kind@ == o.monitor.kind@
            &&& r.incidents == o.spans@.len()
            &&& counted ==> r.downtime_seconds == fleet::figures(o, windows, ds, de).0
            &&& !counted ==> r.downtime_seconds == 0 && r.uptime_pct is None
            &&& (o.spans@.len() == 0 ==> r.downtime_seconds == 0)
            &&& (windows.len() == 0 && ds <= de && counted ==> r.downtime_seconds
                == uptime::downtime(o.spans@, ds, de, Seq::empty()))
            &&& counted && fleet::figures(o, windows, ds, de).1 > 0 ==> r.uptime_pct
                == input.shown@[k]
            &&& r.avg_ms == input.latency@[k].0
            &&& r.p95_ms == input.latency@[k].1
            &&& o.monitor.is_paused ==> r.end_status@ == "paused"@
            &&& !o.monitor.is_paused && !counted ==> r.end_status@ == "no data"@
            &&& counted && open ==> r.end_status@ == "down"@
            &&& counted && !open ==> r.end_status@ == "up"@
        }),
{
    let (ds, de) = report::period_bounds(period);
    let v = month_measures(period, list, windows);
    let keys = row_uptimes(v, input.shown@);
    let order = ranking(keys);
    assert(0 <= order[i] < keys.len());
    let k = order[i];
    let o = list[k];
    assert(row_of(s.monitors@[i], o, v[k], input.shown@[k], input.latency@[k], ds, de));
    assert(v[k] == (if included(o) {
        Some(fleet::figures(o, windows, ds, de))
    } else {
        None
    }));
    if windows.len() == 0 && ds <= de {
        assert(windows =~= Seq::empty());
        fleet::law_figures_without_maintenance(list, inclusion(list), ds, de, k);
    }
    if exists|j: int|
        0 <= j < o.spans@.len() && (#[trigger] o.spans@[j]).start < de && (o.spans@[j].end is None
            || o.spans@[j].end->0 >= de) {
        let j = choose|j: int|
            0 <= j < o.spans@.len() && (#[trigger] o.spans@[j]).start < de && (o.spans@[j].end
                is None || o.spans@[j].end->0 >= de);
        assert(open_at(o.spans@[j], de));
    } else if exists|j: int| 0 <= j < o.spans@.len() && open_at(#[trigger] o.spans@[j], de) {
        let j = choose|j: int| 0 <= j < o.spans@.len() && open_at(#[trigger] o.spans@[j], de);
        assert(o.spans@[j].start < de);
    }
}

/// Every monitor has a row, and the rows come worst uptime first, those without an uptime last.
pub proof fn law_rows_come_worst_first(
    s: ReportSummary,
    period: Seq<char>,
    list: Seq<Observed>,
    windows: Seq<MaintenanceWindow>,
    rows: Seq<NamedIncident>,
    input: MonthInput,
    i: int,
    j: int,
    k: int,
)
    requires
        reports(s, period, list, windows, rows, input),
        0 <= i < j < list.len(),
        0 <= k < list.len(),
    ensures
        exists|r: int| 0 <= r < s.monitors@.len() && (#[trigger] s.monitors@[r]).id
            == list[k].monitor.id && s.monitors@[r].name@ == list[k].monitor.name@,
        s.monitors@[i].uptime_pct is None ==> s.monitors@[j].uptime_pct is None,
        s.monitors@[i].uptime_pct is Some && s.monitors@[j].uptime_pct is Some
            ==> s.monitors@[i].uptime_pct->0 <= s.monitors@[j].uptime_pct->0,
{
    let (ds, de) = report::period_bounds(period);
    let v = month_measures(period, list, windows);
    let keys = row_uptimes(v, input.shown@);
    let order = ranking(keys);
    lemma_ranked_holds_all(keys, order, k);
    let r = choose|r: int| 0 <= r < order.len() && order[r] == k;
    assert(row_of(s.monitors@[r], list[k], v[k], input.shown@[k], input.latency@[k], ds, de));
    assert(s.monitors@[r].id == list[k].monitor.id);
    assert(comes_before(keys, order[i], order[j]));
    assert(0 <= order[i] < keys.len() && 0 <= order[j] < keys.len());
    assert(row_of(
        s.monitors@[i],
        list[order[i]],
        v[order[i]],
        input.shown@[order[i]],
        input.latency@[order[i]],
        ds,
        de,
    ));
    assert(row_of(
        s.monitors@[j],
        list[order[j]],
        v[order[j]],
        input.shown@[order[j]],
        input.latency@[order[j]],
        ds,
        de,
    ));
}

/// The part of an incident that is listed is the downtime that it alone would be in the month.
pub proof fn law_listed_duration_is_downtime(start: i64, end: Option<i64>, ds: int, de: int)
    requires
        ds < de,
        start < de,
        end matches Some(e) ==> ds < e && start <= e,
    ensures
        clipped(start, end, ds, de) == uptime::downtime(
            seq![Span { start, end }],
            ds,
            de,
            Seq::empty(),
        ),
        0 <= clipped(start, end, ds, de) <= de - ds,
{
    uptime::law_outage_counts_in_the_window(Span { start, end }, ds, de);
}

/// The incidents that count for the mean time to recover are those resolved in the month, each in its
/// full length, however long before the month it started.
pub proof fn law_resolved_incidents(a: Seq<Span>, b: Seq<Span>, one: Span, ds: int, de: int)
    ensures
        resolved_durations(a + b, ds, de) == resolved_durations(a, ds, de) + resolved_durations(
            b,
            ds,
            de,
        ),
        one.end is None ==> resolved_durations(seq![one], ds, de).len() == 0,
        one.end matches Some(e) ==> !(ds <= e < de) ==> resolved_durations(seq![one], ds, de).len()
            == 0,
        one.end matches Some(e) ==> ds <= e < de ==> resolved_durations(seq![one], ds, de)
            == seq![e - one.start],
    decreases b.len(),
{
    assert(seq![one].drop_last() =~= Seq::<Span>::empty());
    reveal_with_fuel(resolved_durations, 2);
    if one.end is Some && ds <= one.end->0 < de {
        assert(resolved_durations(seq![one], ds, de) =~= seq![one.end->0 - one.start]);
    }
    if b.len() == 0 {
        assert(a + b =~= a);
        assert(resolved_durations(a, ds, de) + resolved_durations(b, ds, de)
            =~= resolved_durations(a, ds, de));
    } else {
        law_resolved_incidents(a, b.drop_last(), one, ds, de);
        assert((a + b).drop_last() =~= a + b.drop_last());
        assert(resolved_durations(a + b, ds, de) =~= resolved_durations(a, ds, de)
            + resolved_durations(b, ds, de));
    }
}

/// A sum adds up part by part, and a mean times the count differs from the sum by less than the count.
pub proof fn law_mean_of_a_list(a: Seq<int>, b: Seq<int>, x: int)
    ensures
        sum(a + b) == sum(a) + sum(b),
        sum(seq![x]) == x,
        mean(seq![x]) == Some(x),
        mean(a) is None <==> a.len() == 0,
        mean(a) matches Some(m) ==> -a.len() < sum(a) - m * a.len() < a.len(),
    decreases b.len(),
{
    reveal_with_fuel(sum, 2);
    assert(seq![x].drop_last() =~= Seq::<int>::empty());
    if a.len() > 0 {
        lemma_quotient(sum(a), a.len() as int);
    }
    lemma_quotient(x, 1);
    if b.len() == 0 {
        assert(a + b =~= a);
    } else {
        law_mean_of_a_list(a, b.drop_last(), x);
        assert((a + b).drop_last() =~= a + b.drop_last());
    }
}

proof fn lemma_quotient(a: int, n: int)
    requires
        n > 0,
    ensures
        -n < a - numbers::quotient(a, n) * n < n,
        n == 1 ==> numbers::quotient(a, n) == a,
{
    let q = numbers::quotient(a, n);
    if a >= 0 {
        assert(-n < a - q * n < n) by (nonlinear_arith)
            requires
                n > 0,
                q == a / n,
        ;
    } else {
        let b = -a;
        assert(-n < a - q * n < n) by (nonlinear_arith)
            requires
                n > 0,
                b == -a,
                q == -(b / n),
        ;
    }
}

/// The mean time to recover of a row is over its own incidents, that of the fleet over all that are
/// listed; there is one exactly where one of them was resolved in the month.
pub proof fn law_recovery_times(
    s: ReportSummary,
    period: Seq<char>,
    list: Seq<Observed>,
    windows: Seq<MaintenanceWindow>,
    rows: Seq<NamedIncident>,
    input: MonthInput,
    i: int,
)
    requires
        reports(s, period, list, windows, rows, input),
        0 <= i < list.len(),
    ensures
        ({
            let (ds, de) = report::period_bounds(period);
            let v = month_measures(period, list, windows);
            let k = ranking(row_uptimes(v, input.shown@))[i];
            let own = resolved_durations(list[k].spans@, ds, de);
            let all = resolved_durations(spans_of(rows), ds, de);
            &&& s.monitors@[i].mttr_seconds is Some <==> own.len() > 0
            &&& s.monitors@[i].mttr_seconds matches Some(m) ==> -own.len() < sum(own) - m * own.len()
                < own.len()
            &&& s.fleet.mttr_seconds is Some <==> all.len() > 0
            &&& s.fleet.mttr_seconds matches Some(m) ==> -all.len() < sum(all) - m * all.len()
                < all.len()
        }),
{
    let (ds, de) = report::period_bounds(period);
    let v = month_measures(period, list, windows);
    let keys = row_uptimes(v, input.shown@);
    let k = ranking(keys)[i];
    assert(0 <= k < keys.len());
    assert(row_of(s.monitors@[i], list[k], v[k], input.shown@[k], input.latency@[k], ds, de));
    law_mean_of_a_list(resolved_durations(list[k].spans@, ds, de), Seq::empty(), 0);
    law_mean_of_a_list(resolved_durations(spans_of(rows), ds, de), Seq::empty(), 0);
}

/// The longest outage is that of one of the incidents, as long as its part in the month, and the first
/// of those that are as long.
pub proof fn law_longest_outage_is_one_of_them(rows: Seq<NamedIncident>, ds: int, de: int)
    requires
        rows.len() > 0,
    ensures
        exists|k: int|
            0 <= k < rows.len() && longest(rows, ds, de) == Some(
                (
                    (#[trigger] rows[k]).monitor_name@,
                    clipped(rows[k].started_at, rows[k].resolved_at, ds, de),
                ),
            ) && forall|j: int|
                0 <= j < k ==> clipped(
                    (#[trigger] rows[j]).started_at,
                    rows[j].resolved_at,
                    ds,
                    de,
                ) < (longest(rows, ds, de)->0).1,
    decreases rows.len(),
{
    let rest = rows.drop_last();
    let n = rows.len() - 1;
    let d = clipped(rows[n].started_at, rows[n].resolved_at, ds, de);
    if rest.len() == 0 {
        assert(longest(rest, ds, de) is None);
        assert(rows[n] == rows.last());
    } else {
        law_longest_outage_is_one_of_them(rest, ds, de);
        let best = longest(rest, ds, de)->0;
        if d > best.1 {
            assert(longest(rows, ds, de) == Some((rows[n].monitor_name@, d)));
            assert forall|j: int| 0 <= j < n implies clipped(
                (#[trigger] rows[j]).started_at,
                rows[j].resolved_at,
                ds,
                de,
            ) < d by {
                law_longest_outage_bounds_all(rest, ds, de, j);
                assert(rest[j] == rows[j]);
            }
        } else {
            let k = choose|k: int|
                0 <= k < rest.len() && longest(rest, ds, de) == Some(
                    (
                        (#[trigger] rest[k]).monitor_name@,
                        clipped(rest[k].started_at, rest[k].resolved_at, ds, de),
                    ),
                ) && forall|j: int|
                    0 <= j < k ==> clipped(
                        (#[trigger] rest[j]).started_at,
                        rest[j].resolved_at,
                        ds,
                        de,
                    ) < best.1;
            assert(rest[k] == rows[k]);
            assert forall|j: int| 0 <= j < k implies clipped(
                (#[trigger] rows[j]).started_at,
                rows[j].resolved_at,
                ds,
                de,
            ) < best.1 by {
                assert(rest[j] == rows[j]);
            }
        }
    }
}

/// What is due adds up, item by item: one whose days are known and no more than the limit counts.
pub proof fn law_due_items(a: Seq<fleet::Expiry>, b: Seq<fleet::Expiry>, e: fleet::Expiry, limit: int)
    ensures
        due_within(a + b, limit) == due_within(a, limit) + due_within(b, limit),
        e.2 is Some && e.2->0 <= limit ==> due_within(seq![e], limit) == 1,
        e.2 is None || e.2->0 > limit ==> due_within(seq![e], limit) == 0,
    decreases b.len(),
{
    reveal_with_fuel(due_within, 2);
    assert(seq![e].drop_last() =~= Seq::<fleet::Expiry>::empty());
    if b.len() == 0 {
        assert(a + b =~= a);
    } else {
        law_due_items(a, b.drop_last(), e, limit);
        assert((a + b).drop_last() =~= a + b.drop_last());
    }
}

/// At least 95 of 100 samples are no slower than the percentile's, and fewer than that come before it.
pub proof fn law_percentile_position(n: int)
    requires
        n > 0,
    ensures
        0 <= p95_position(n) < n,
        (p95_position(n) + 1) * 100 >= 95 * n,
        p95_position(n) * 100 < 95 * n,
{
}

/// The samples of a month are all stored exactly where the month starts no earlier than the retention
/// reaches back.
pub proof fn law_retention_reaches_back(ds: int, now: int, days: int)
    ensures
        retained(ds, now, days) <==> now - ds <= days * 86400,
{
}

/// A report says what it was made of: its month, when it was made, every incident with what is stored
/// of it and its part in the month, the outlook, and the counts of alerts.
pub proof fn law_report_lists_what_happened(
    s: ReportSummary,
    period: Seq<char>,
    list: Seq<Observed>,
    windows: Seq<MaintenanceWindow>,
    rows: Seq<NamedIncident>,
    input: MonthInput,
    i: int,
)
    requires
        reports(s, period, list, windows, rows, input),
    ensures
        s.period@ == period,
        s.generated_at == input.generated_at,
        s.fleet.incidents == rows.len(),
        s.incidents@.len() == rows.len(),
        s.fleet.ssl_alerts == input.ssl_alerts,
        s.fleet.domain_alerts == input.domain_alerts,
        s.fleet.longest_outage is Some <==> rows.len() > 0,
        s.cert_outlook@.len() == fleet::outlook(list).len(),
        s.fleet.expiring_30d == due_within(fleet::outlook(list), 30),
        s.fleet.expiring_60d == due_within(fleet::outlook(list), 60),
        s.fleet.uptime_delta matches Some(d) ==> s.fleet.uptime_pct is Some && input.prior_pct is Some
            && s.fleet.uptime_pct->0 == input.prior_pct->0 + d,
        s.fleet.uptime_pct is Some && input.prior_pct is Some ==> s.fleet.uptime_delta is Some,
        0 <= i < rows.len() ==> {
            let (ds, de) = report::period_bounds(period);
            let e = s.incidents@[i];
            &&& e.monitor_name@ == rows[i].monitor_name@
            &&& e.started_at == rows[i].started_at
            &&& e.resolved_at == rows[i].resolved_at
            &&& e.status_code == rows[i].status_code
            &&& (e.cause is Some <==> rows[i].cause is Some)
            &&& (e.cause matches Some(c) ==> c@ == rows[i].cause->0@)
            &&& (e.error_message is Some <==> rows[i].error_message is Some)
            &&& (e.error_message matches Some(m) ==> m@ == rows[i].error_message->0@)
            &&& e.duration_seconds is Some
            &&& e.duration_seconds->0 == clipped(rows[i].started_at, rows[i].resolved_at, ds, de)
            &&& s.fleet.longest_outage->0.seconds >= e.duration_seconds->0
        },
        0 <= i < fleet::outlook(list).len() ==> {
            let x = s.cert_outlook@[i];
            let o = fleet::outlook(list)[i];
            x.monitor@ == o.0 && x.kind@ == o.1 && x.days_remaining == o.2 && x.flag@ == o.3
        },
{
    let (ds, de) = report::period_bounds(period);
    if rows.len() > 0 {
        law_longest_outage_bounds_all(rows, ds, de, 0);
    }
    if 0 <= i < rows.len() {
        assert(entry_of(s.incidents@[i], rows[i], ds, de));
        law_longest_outage_bounds_all(rows, ds, de, i);
    }
    assert(fleet::expiries(s.cert_outlook@).len() == s.cert_outlook@.len());
    if 0 <= i < fleet::outlook(list).len() {
        assert(fleet::expiries(s.cert_outlook@)[i] == s.cert_outlook@[i]@);
    }
}

/// An uptime that is shown belongs to the time that was measured: there is none without such time,
/// and otherwise it is within one hundredth of a percent of the share that was up.
pub proof fn law_shown_figures(shown: Option<i64>, down: int, total: int)
    requires
        shows_figures(shown, Some((down, total))),
    ensures
        shown is Some <==> total > 0,
        shown matches Some(h) ==> (h - 1) * total <= (total - down) * 10000 <= (h + 1) * total,
{
    if let Some(h) = shown {
        let x = h as int;
        assert((x - 1) * total == x * total - total && (x + 1) * total == x * total + total)
            by (nonlinear_arith);
    }
}

/// The downtimes of the rows add up to that of the fleet.
pub proof fn law_rows_add_up_to_the_fleet(
    s: ReportSummary,
    period: Seq<char>,
    list: Seq<Observed>,
    windows: Seq<MaintenanceWindow>,
    rows: Seq<NamedIncident>,
    input: MonthInput,
)
    requires
        reports(s, period, list, windows, rows, input),
        input.shown@.len() == list.len(),
    ensures
        sum(s.monitors@.map_values(|r: MonitorReport| r.downtime_seconds as int))
            == s.fleet.downtime_seconds,
{
    let (ds, de) = report::period_bounds(period);
    let v = month_measures(period, list, windows);
    let keys = row_uptimes(v, input.shown@);
    let order = ranking(keys);
    let own = downs(v);
    let shown = s.monitors@.map_values(|r: MonitorReport| r.downtime_seconds as int);
    assert(v.len() == list.len());
    assert(ranked(keys, order));
    assert forall|i: int, j: int| 0 <= i < order.len() && 0 <= j < order.len() && i != j implies
        order[i] != order[j] by {
        if i < j {
            assert(comes_before(keys, order[i], order[j]));
        } else {
            assert(comes_before(keys, order[j], order[i]));
        }
    }
    assert forall|i: int| 0 <= i < order.len() implies shown[i] == own[#[trigger] order[i]] by {
        assert(row_of(
            s.monitors@[i],
            list[order[i]],
            v[order[i]],
            input.shown@[order[i]],
            input.latency@[order[i]],
            ds,
            de,
        ));
    }
    assert(shown =~= order.map_values(|k: int| own[k]));
    lemma_reordered_sum(own, order);
    lemma_down_sum(v);
}

/// The downtime of each measured monitor, and none for the others.
spec fn downs(v: Seq<Option<(int, int)>>) -> Seq<int> {
    v.map_values(
        |f: Option<(int, int)>|
            match f {
                Some(g) => g.0,
                None => 0,
            },
    )
}

proof fn lemma_down_sum(v: Seq<Option<(int, int)>>)
    ensures
        sum(downs(v)) == fleet::down_sum(v),
    decreases v.len(),
{
    if v.len() > 0 {
        lemma_down_sum(v.drop_last());
        assert(downs(v).drop_last() =~= downs(v.drop_last()));
    }
}

proof fn lemma_sum_without(a: Seq<int>, p: int)
    requires
        0 <= p < a.len(),
    ensures
        sum(a) == sum(a.remove(p)) + a[p],
    decreases a.len(),
{
    if p == a.len() - 1 {
        assert(a.remove(p) =~= a.drop_last());
    } else {
        lemma_sum_without(a.drop_last(), p);
        assert(a.remove(p).drop_last() =~= a.drop_last().remove(p));
        assert(a.remove(p).last() == a.last());
    }
}

proof fn lemma_reordered_sum(a: Seq<int>, order: Seq<int>)
    requires
        order.len() == a.len(),
        forall|i: int| 0 <= i < order.len() ==> 0 <= #[trigger] order[i] < a.len(),
        forall|i: int, j: int|
            0 <= i < order.len() && 0 <= j < order.len() && i != j ==> order[i] != order[j],
    ensures
        sum(order.map_values(|k: int| a[k])) == sum(a),
    decreases a.len(),
{
    let b = order.map_values(|k: int| a[k]);
    if a.len() > 0 {
        let p = order.last();
        assert(order[order.len() - 1] == p);
        let rest = a.remove(p);
        let moved = order.drop_last().map_values(
            |k: int|
                if k > p {
                    k - 1
                } else {
                    k
                },
        );
        assert forall|i: int| 0 <= i < moved.len() implies 0 <= #[trigger] moved[i] < rest.len() && rest[moved[i]]
            == a[order[i]] by {
            assert(order[i] != p);
        }
        assert forall|i: int, j: int| 0 <= i < moved.len() && 0 <= j < moved.len() && i != j implies
            moved[i] != moved[j] by {
            assert(order[i] != p && order[j] != p && order[i] != order[j]);
        }
        lemma_reordered_sum(rest, moved);
        assert(b.drop_last() =~= moved.map_values(|k: int| rest[k]));
        lemma_sum_without(a, p);
        assert(b.last() == a[p]);
    }
}

/// The fleet's share of a month grows by what each counted monitor was down and by what of it was
/// measured; without anything measured there is none.
pub proof fn law_month_share_adds_monitors_up(
    period: Seq<char>,
    list: Seq<Observed>,
    o: Observed,
    windows: Seq<MaintenanceWindow>,
    r: Option<Share>,
    next: Option<Share>,
)
    requires
        is_month_share(period, list, windows, r),
        is_month_share(period, list.push(o), windows, next),
        r is Some,
        next is Some,
    ensures
        ({
            let counted = !o.monitor.is_paused && (o.has_samples || o.spans@.len() > 0);
            let (ds, de) = report::period_bounds(period);
            let own = fleet::figures(o, windows, ds, de);
            &&& counted ==> next->0.down == r->0.down + own.0 && next->0.total == r->0.total + own.1
            &&& !counted ==> next->0.down == r->0.down && next->0.total == r->0.total
        }),
{
    let (ds, de) = report::period_bounds(period);
    let a = month_measures(period, list, windows);
    let b = month_measures(period, list.push(o), windows);
    assert(inclusion(list.push(o)) =~= inclusion(list).push(included(o)));
    assert(b.drop_last() =~= a);
    assert(b.last() == (if included(o) {
        Some(fleet::figures(o, windows, ds, de))
    } else {
        None
    }));
}

/// The aggregates of a month run from its first day to the first day of the next month.
pub proof fn law_aggregates_of_a_month(y: int, m: int, r: (String, String))
    requires
        are_aggregate_days(clock::month_text(y, m), r),
        report::valid_month(y, m),
        0 <= y,
        clock::month_after(y, m).0 <= clock::YEAR_MAX,
    ensures
        r.0@ == clock::day_text(y, m, 1),
        r.1@ == (if m == 12 {
            clock::day_text(y + 1, 1, 1)
        } else {
            clock::day_text(y, m + 1, 1)
        }),
{
    report::law_month_text_reads_back(y, m);
    reveal_strlit("-01");
    reveal_with_fuel(text::padded, 3);
    reveal_with_fuel(text::dec_nat, 2);
    assert("-01"@ =~= seq!['-'] + text::padded(1, 2));
    let n = clock::month_after(y, m);
    assert(clock::month_text(y, m) + "-01"@ =~= clock::day_text(y, m, 1));
    assert(clock::month_text(n.0, n.1) + "-01"@ =~= clock::day_text(n.0, n.1, 1));
}

/// The slow response time is one of the samples: at least ninety-five in a hundred are no slower, and
/// there is one exactly where the month is still kept and has samples.
pub proof fn law_slow_response_is_a_sample(
    samples: Seq<i64>,
    ds: int,
    now: int,
    retention_days: int,
    r: Option<i64>,
)
    requires
        is_p95(samples, ds, now, retention_days, r),
    ensures
        r is Some <==> retained(ds, now, retention_days) && samples.len() > 0,
        r matches Some(x) ==> samples.contains(x),
        r matches Some(x) ==> exists|s: Seq<i64>, k: int|
            s.to_multiset() == samples.to_multiset() && 0 <= k < s.len() && #[trigger] s[k] == x && (k
                + 1) * 100 >= 95 * s.len() && k * 100 < 95 * s.len() && (forall|i: int|
                0 <= i <= k ==> #[trigger] s[i] <= x) && (forall|i: int|
                k <= i < s.len() ==> x <= #[trigger] s[i]),
{
    if r is Some {
        let x = r->0;
        let s = choose|s: Seq<i64>| #[trigger]
            sorts(s, samples) && x == s[p95_position(samples.len() as int)];
        let k = p95_position(samples.len() as int);
        vstd::seq_lib::to_multiset_len(s);
        vstd::seq_lib::to_multiset_len(samples);
        law_percentile_position(samples.len() as int);
        assert(s[k] == x);
        assert(s.contains(x));
        vstd::seq_lib::to_multiset_contains(s, x);
        vstd::seq_lib::to_multiset_contains(samples, x);
    }
}

/// A report is named after its month.
pub proof fn law_report_is_named_after_its_month(
    s: ReportSummary,
    y: int,
    m: int,
    list: Seq<Observed>,
    windows: Seq<MaintenanceWindow>,
    rows: Seq<NamedIncident>,
    input: MonthInput,
)
    requires
        reports(s, clock::month_text(y, m), list, windows, rows, input),
        report::valid_month(y, m),
        0 <= y,
    ensures
        s.label@ == clock::month_name(m) + seq![' '] + clock::year_text(y),
        s.period@ == clock::month_text(y, m),
{
    report::law_month_text_reads_back(y, m);
}

} // verus!
