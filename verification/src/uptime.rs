//! Uptime over a window of time, from incident spans and maintenance intervals.

use vstd::prelude::*;

use crate::maintenance_windows::resolve;
use crate::maintenance_windows::resolve::subtract_intervals;
use crate::models::Ts;

verus! {

/// An incident: when it started, and when it ended if it did.
#[derive(Clone, Copy, Debug, PartialEq, Eq, Structural)]
pub struct Span {
    pub start: Ts,
    pub end: Option<Ts>,
}

/// A share of time: `down` seconds out of `total`.
#[derive(Clone, Copy, Debug, PartialEq, Eq, Structural)]
pub struct Share {
    pub down: i64,
    pub total: i64,
}

/// An uptime in hundredths of a percent shows a share of downtime: it lies within one hundredth of
/// the uptime that the share leaves.
pub open spec fn shows(hundredths: int, down: int, total: int) -> bool {
    total > 0 && -total <= hundredths * total - (total - down) * 10000 <= total
}

impl Share {
    /// Whether an uptime in hundredths of a percent shows this share.
    pub fn shown_by(&self, hundredths: i64) -> (r: bool)
        ensures
            r == shows(hundredths as int, self.down as int, self.total as int),
    {
        if self.total <= 0 {
            return false;
        }
        proof {
            let (h, t) = (hundredths as int, self.total as int);
            assert(-0x8000_0000_0000_0000 * 0x8000_0000_0000_0000 <= h * t <= 0x8000_0000_0000_0000
                * 0x8000_0000_0000_0000) by (nonlinear_arith)
                requires
                    -0x8000_0000_0000_0000 <= h <= 0x8000_0000_0000_0000,
                    0 < t <= 0x8000_0000_0000_0000,
            ;
        }
        let total: i128 = self.total as i128;
        let up: i128 = total - self.down as i128;
        let gap: i128 = hundredths as i128 * total - up * 10000;
        -total <= gap && gap <= total
    }
}

/// Uptime over a window: the share of measured time that was down, where any time was
/// measured, and the seconds of downtime.
#[derive(Clone, Copy, Debug, PartialEq, Eq, Structural)]
pub struct Uptime {
    pub uptime_pct: Option<Share>,
    pub downtime_seconds: i64,
}

/// How many integers of `a..b` satisfy `p`.
pub open spec fn seconds(p: spec_fn(int) -> bool, a: int, b: int) -> nat
    decreases b - a,
{
    if a >= b {
        0
    } else {
        seconds(p, a, b - 1) + if p(b - 1) {
            1nat
        } else {
            0nat
        }
    }
}

/// The seconds outside maintenance.
pub open spec fn outside(maintenance: Seq<(Ts, Ts)>) -> spec_fn(int) -> bool {
    |t: int| !resolve::covered(maintenance, t)
}

/// How many seconds of `a..b` lie outside maintenance.
pub open spec fn measured(a: int, b: int, maintenance: Seq<(Ts, Ts)>) -> nat {
    seconds(outside(maintenance), a, b)
}

/// The part of a span that lies in `from..to`; a span without an end lasts until `to`.
pub open spec fn clip(span: Span, from: int, to: int) -> (int, int) {
    let end = match span.end {
        Some(e) => e as int,
        None => to,
    };
    (if span.start > from {
        span.start as int
    } else {
        from
    }, if end < to {
        end
    } else {
        to
    })
}

/// The downtime of every span in `from..to`, of the seconds that count, added up.
pub open spec fn counted_downtime(
    spans: Seq<Span>,
    from: int,
    to: int,
    counts: spec_fn(int) -> bool,
) -> nat
    decreases spans.len(),
{
    if spans.len() == 0 {
        0
    } else {
        let (a, b) = clip(spans.last(), from, to);
        counted_downtime(spans.drop_last(), from, to, counts) + seconds(counts, a, b)
    }
}

/// The downtime of every span in `from..to` outside maintenance, added up.
pub open spec fn downtime(spans: Seq<Span>, from: int, to: int, maintenance: Seq<(Ts, Ts)>) -> nat {
    counted_downtime(spans, from, to, outside(maintenance))
}

pub proof fn lemma_seconds_bound(p: spec_fn(int) -> bool, a: int, b: int)
    ensures
        a <= b ==> seconds(p, a, b) <= b - a,
    decreases b - a,
{
    if a < b {
        lemma_seconds_bound(p, a, b - 1);
    }
}

proof fn lemma_seconds_split(p: spec_fn(int) -> bool, a: int, m: int, b: int)
    requires
        a <= m <= b,
    ensures
        seconds(p, a, b) == seconds(p, a, m) + seconds(p, m, b),
    decreases b - m,
{
    if m < b {
        lemma_seconds_split(p, a, m, b - 1);
    }
}

proof fn lemma_seconds_all(p: spec_fn(int) -> bool, a: int, b: int)
    requires
        a <= b,
        forall|t: int| a <= t < b ==> #[trigger] p(t),
    ensures
        seconds(p, a, b) == b - a,
    decreases b - a,
{
    if a < b {
        assert(p(b - 1));
        lemma_seconds_all(p, a, b - 1);
    }
}

pub proof fn lemma_seconds_same(p: spec_fn(int) -> bool, q: spec_fn(int) -> bool, a: int, b: int)
    requires
        forall|t: int| a <= t < b ==> #[trigger] p(t) == q(t),
    ensures
        seconds(p, a, b) == seconds(q, a, b),
    decreases b - a,
{
    if a < b {
        assert(p(b - 1) == q(b - 1));
        lemma_seconds_same(p, q, a, b - 1);
    }
}

proof fn lemma_seconds_none(p: spec_fn(int) -> bool, a: int, b: int)
    requires
        forall|t: int| a <= t < b ==> !#[trigger] p(t),
    ensures
        seconds(p, a, b) == 0,
    decreases b - a,
{
    if a < b {
        assert(!p(b - 1));
        lemma_seconds_none(p, a, b - 1);
    }
}

/// The lengths of intervals, added up.
pub open spec fn total_length(iv: Seq<(Ts, Ts)>) -> int
    decreases iv.len(),
{
    if iv.len() == 0 {
        0
    } else {
        total_length(iv.drop_last()) + (iv.last().1 - iv.last().0)
    }
}

/// The lengths of a canonical list of intervals inside `a..b` add up to the seconds that the
/// list covers.
pub proof fn law_length_counts_seconds(iv: Seq<(Ts, Ts)>, a: int, b: int)
    requires
        resolve::canonical(iv),
        a <= b,
        forall|k: int| 0 <= k < iv.len() ==> a <= (#[trigger] iv[k]).0 && iv[k].1 <= b,
    ensures
        total_length(iv) == seconds(|t: int| resolve::covered(iv, t), a, b),
    decreases iv.len(),
{
    let p = |t: int| resolve::covered(iv, t);
    if iv.len() == 0 {
        lemma_seconds_none(p, a, b);
    } else {
        let rest = iv.drop_last();
        let (s, e) = iv.last();
        assert(iv[iv.len() - 1] == (s, e));
        assert forall|i: int, j: int| 0 <= i < j < rest.len() implies (#[trigger] rest[i]).1 < (
        #[trigger] rest[j]).0 by {
            assert(iv[i].1 < iv[j].0);
        }
        assert forall|k: int| 0 <= k < rest.len() implies a <= (#[trigger] rest[k]).0 && rest[k].1
            <= s by {
            assert(iv[k].1 < iv[iv.len() - 1].0);
        }
        law_length_counts_seconds(rest, a, s as int);
        let q = |t: int| resolve::covered(rest, t);
        assert forall|t: int| a <= t < s implies #[trigger] p(t) == q(t) by {
            if resolve::covered(iv, t) {
                let k = choose|k: int| 0 <= k < iv.len() && (#[trigger] iv[k]).0 <= t < iv[k].1;
                assert(rest[k] == iv[k]);
            }
            if resolve::covered(rest, t) {
                let k = choose|k: int|
                    0 <= k < rest.len() && (#[trigger] rest[k]).0 <= t < rest[k].1;
                assert(rest[k] == iv[k]);
            }
        }
        lemma_seconds_same(p, q, a, s as int);
        assert forall|t: int| s <= t < e implies #[trigger] p(t) by {
            assert(iv[iv.len() - 1].0 <= t < iv[iv.len() - 1].1);
        }
        lemma_seconds_all(p, s as int, e as int);
        assert forall|t: int| e <= t < b implies !#[trigger] p(t) by {
            if resolve::covered(iv, t) {
                let k = choose|k: int| 0 <= k < iv.len() && (#[trigger] iv[k]).0 <= t < iv[k].1;
                if k < iv.len() - 1 {
                    assert(iv[k].1 < iv[iv.len() - 1].0);
                }
            }
        }
        lemma_seconds_none(p, e as int, b);
        lemma_seconds_split(p, a, s as int, b);
        lemma_seconds_split(p, s as int, e as int, b);
    }
}

/// The seconds of `a..b` outside maintenance.
pub fn measure(a: Ts, b: Ts, maintenance: &[(Ts, Ts)]) -> (r: i64)
    requires
        b - a <= i64::MAX,
    ensures
        r == measured(a as int, b as int, maintenance@),
{
    if a >= b {
        return 0;
    }
    let left = subtract_intervals((a, b), maintenance);
    proof {
        let p = |t: int| resolve::covered(left@, t);
        let q = outside(maintenance@);
        assert forall|k: int| 0 <= k < left@.len() implies a <= (#[trigger] left@[k]).0
            && left@[k].1 <= b by {
            let (s, e) = left@[k];
            assert(left@[k].0 <= s < left@[k].1);
            assert(resolve::covered(left@, s as int));
            assert(left@[k].0 <= e - 1 < left@[k].1);
            assert(resolve::covered(left@, e - 1));
        }
        law_length_counts_seconds(left@, a as int, b as int);
        assert forall|t: int| a <= t < b implies #[trigger] p(t) == q(t) by {
            assert(resolve::covered(left@, t) <==> a <= t < b && !resolve::covered(maintenance@, t));
        }
        lemma_seconds_same(p, q, a as int, b as int);
        lemma_seconds_bound(q, a as int, b as int);
    }
    let mut sum: i64 = 0;
    let mut i: usize = 0;
    while i < left.len()
        invariant
            i <= left@.len(),
            resolve::canonical(left@),
            sum == total_length(left@.take(i as int)),
            0 <= sum,
            total_length(left@) <= i64::MAX,
        decreases left@.len() - i,
    {
        let (s, e) = left[i];
        proof {
            assert(left@.take(i + 1).drop_last() =~= left@.take(i as int));
            assert(left@[i as int].0 < left@[i as int].1);
            lemma_prefix_length(left@, i + 1);
        }
        sum = sum + (e - s);
        i += 1;
    }
    assert(left@.take(left@.len() as int) =~= left@);
    sum
}

proof fn lemma_prefix_length(iv: Seq<(Ts, Ts)>, n: int)
    requires
        resolve::canonical(iv),
        0 <= n <= iv.len(),
    ensures
        0 <= total_length(iv.take(n)) <= total_length(iv),
    decreases iv.len(),
{
    if n < iv.len() {
        let rest = iv.drop_last();
        assert forall|i: int, j: int| 0 <= i < j < rest.len() implies (#[trigger] rest[i]).1 < (
        #[trigger] rest[j]).0 by {
            assert(iv[i].1 < iv[j].0);
        }
        assert(iv[iv.len() - 1].0 < iv[iv.len() - 1].1);
        lemma_prefix_length(rest, n);
        assert(rest.take(n) =~= iv.take(n));
    } else {
        assert(iv.take(n) =~= iv);
        if n > 0 {
            let rest = iv.drop_last();
            assert forall|i: int, j: int| 0 <= i < j < rest.len() implies (#[trigger] rest[i]).1 < (
            #[trigger] rest[j]).0 by {
                assert(iv[i].1 < iv[j].0);
            }
            lemma_prefix_length(rest, n - 1);
            assert(rest.take(n - 1) =~= rest);
            assert(iv[iv.len() - 1].0 < iv[iv.len() - 1].1);
        }
    }
}

/// What the uptime of a window is.
pub open spec fn uptime(
    spans: Seq<Span>,
    window_start: int,
    now: int,
    had_any_check: bool,
    maintenance: Seq<(Ts, Ts)>,
) -> (Option<(int, int)>, int) {
    let total = measured(window_start, now, maintenance) as int;
    let down = downtime(spans, window_start, now, maintenance) as int;
    if !had_any_check {
        (None, 0)
    } else if total == 0 {
        (None, 0)
    } else {
        (Some((down, total)), down)
    }
}

/// `r` holds an uptime.
pub open spec fn reports(r: Uptime, u: (Option<(int, int)>, int)) -> bool {
    &&& r.downtime_seconds == u.1
    &&& match u.0 {
        Some((down, total)) => r.uptime_pct is Some && r.uptime_pct->0.down == down
            && r.uptime_pct->0.total == total && total > 0,
        None => r.uptime_pct is None,
    }
}

/// Computes uptime from incident spans, with maintenance taken out of both the window and the
/// downtime.
///
/// Without any check, or with no time left in the window to measure, nothing was measured: an empty
/// window, and one wholly under maintenance, have no uptime.
pub fn compute(
    spans: &[Span],
    window_start: Ts,
    now: Ts,
    had_any_check: bool,
    maintenance: &[(Ts, Ts)],
) -> (r: Uptime)
    requires
        now - window_start <= i64::MAX,
        downtime(spans@, window_start as int, now as int, maintenance@) <= i64::MAX,
    ensures
        reports(
            r,
            uptime(spans@, window_start as int, now as int, had_any_check, maintenance@),
        ),
{
    if !had_any_check {
        return Uptime { uptime_pct: None, downtime_seconds: 0 };
    }
    let total = measure(window_start, now, maintenance);
    if total <= 0 {
        return Uptime { uptime_pct: None, downtime_seconds: 0 };
    }
    let mut down: i64 = 0;
    let mut i: usize = 0;
    while i < spans.len()
        invariant
            i <= spans@.len(),
            window_start < now,
            now - window_start <= i64::MAX,
            down == downtime(
                spans@.take(i as int),
                window_start as int,
                now as int,
                maintenance@,
            ),
            downtime(spans@, window_start as int, now as int, maintenance@) <= i64::MAX,
        decreases spans@.len() - i,
    {
        let span = &spans[i];
        let start: Ts = if span.start > window_start {
            span.start
        } else {
            window_start
        };
        let open_end: Ts = match span.end {
            Some(e) => e,
            None => now,
        };
        let end: Ts = if open_end < now {
            open_end
        } else {
            now
        };
        proof {
            assert(spans@.take(i + 1).drop_last() =~= spans@.take(i as int));
            lemma_downtime_grows(
                spans@,
                i + 1,
                window_start as int,
                now as int,
                outside(maintenance@),
            );
        }
        if start < end {
            let part = measure(start, end, maintenance);
            down = down + part;
        }
        i += 1;
    }
    assert(spans@.take(spans@.len() as int) =~= spans@);
    Uptime { uptime_pct: Some(Share { down, total }), downtime_seconds: down }
}

proof fn lemma_downtime_grows(
    spans: Seq<Span>,
    n: int,
    from: int,
    to: int,
    counts: spec_fn(int) -> bool,
)
    requires
        0 <= n <= spans.len(),
    ensures
        counted_downtime(spans.take(n), from, to, counts) <= counted_downtime(
            spans,
            from,
            to,
            counts,
        ),
    decreases spans.len(),
{
    if n < spans.len() {
        lemma_downtime_grows(spans.drop_last(), n, from, to, counts);
        assert(spans.drop_last().take(n) =~= spans.take(n));
    } else {
        assert(spans.take(n) =~= spans);
    }
}

/// Downtime depends on the seconds of the window alone.
pub proof fn lemma_downtime_same(
    spans: Seq<Span>,
    from: int,
    to: int,
    p: spec_fn(int) -> bool,
    q: spec_fn(int) -> bool,
)
    requires
        forall|t: int| from <= t < to ==> #[trigger] p(t) == q(t),
    ensures
        counted_downtime(spans, from, to, p) == counted_downtime(spans, from, to, q),
    decreases spans.len(),
{
    if spans.len() > 0 {
        lemma_downtime_same(spans.drop_last(), from, to, p, q);
        let (a, b) = clip(spans.last(), from, to);
        lemma_seconds_same(p, q, a, b);
    }
}

/// Every span adds at most the window.
pub proof fn lemma_downtime_bound(spans: Seq<Span>, from: int, to: int, c: spec_fn(int) -> bool)
    requires
        from <= to,
    ensures
        counted_downtime(spans, from, to, c) <= spans.len() * (to - from),
    decreases spans.len(),
{
    if spans.len() > 0 {
        let n: int = spans.len() as int;
        lemma_downtime_bound(spans.drop_last(), from, to, c);
        let (a, b) = clip(spans.last(), from, to);
        lemma_seconds_bound(c, a, b);
        assert((n - 1) * (to - from) + (to - from) == n * (to - from)) by (nonlinear_arith);
    } else {
        assert(0 * (to - from) == 0);
    }
}

/// Where no second of the window counts, there is no downtime.
pub proof fn lemma_no_time_no_downtime(
    spans: Seq<Span>,
    from: int,
    to: int,
    p: spec_fn(int) -> bool,
)
    requires
        from <= to,
        seconds(p, from, to) == 0,
    ensures
        counted_downtime(spans, from, to, p) == 0,
    decreases spans.len(),
{
    if spans.len() > 0 {
        lemma_no_time_no_downtime(spans.drop_last(), from, to, p);
        let (a, b) = clip(spans.last(), from, to);
        if a < b {
            lemma_seconds_split(p, from, a, to);
            lemma_seconds_split(p, a, b, to);
        }
    }
}

/// Maintenance never counts as downtime: a span that lies wholly inside maintenance adds
/// nothing.
pub proof fn law_maintained_outage_is_free(
    spans: Seq<Span>,
    outage: Span,
    from: int,
    to: int,
    maintenance: Seq<(Ts, Ts)>,
)
    requires
        forall|t: int|
            clip(outage, from, to).0 <= t < clip(outage, from, to).1 ==> #[trigger] resolve::covered(
                maintenance,
                t,
            ),
    ensures
        downtime(spans.push(outage), from, to, maintenance) == downtime(
            spans,
            from,
            to,
            maintenance,
        ),
{
    let (a, b) = clip(outage, from, to);
    let p = outside(maintenance);
    assert forall|t: int| a <= t < b implies !#[trigger] p(t) by {}
    lemma_seconds_none(p, a, b);
    assert(spans.push(outage).drop_last() =~= spans);
}

/// One outage never counts for more than the time that was measured, so an uptime from it lies
/// between nothing and all.
pub proof fn law_single_outage_within_window(
    outage: Span,
    from: int,
    to: int,
    maintenance: Seq<(Ts, Ts)>,
)
    requires
        from <= to,
    ensures
        downtime(seq![outage], from, to, maintenance) <= measured(from, to, maintenance),
{
    let (a, b) = clip(outage, from, to);
    let p = outside(maintenance);
    assert(seq![outage].drop_last() =~= Seq::<Span>::empty());
    reveal_with_fuel(counted_downtime, 2);
    if a < b {
        lemma_seconds_split(p, from, a, to);
        lemma_seconds_split(p, a, b, to);
    }
}

/// Where no time of a window is left to measure, the window has no uptime and no downtime, whether it
/// is empty or wholly under maintenance.
pub proof fn law_no_time_has_no_uptime(
    spans: Seq<Span>,
    from: int,
    to: int,
    had_any_check: bool,
    maintenance: Seq<(Ts, Ts)>,
)
    requires
        from >= to || forall|t: int|
            from <= t < to ==> #[trigger] resolve::covered(maintenance, t),
    ensures
        uptime(spans, from, to, had_any_check, maintenance) == (None::<(int, int)>, 0int),
{
    let p = outside(maintenance);
    assert forall|t: int| from <= t < to implies !#[trigger] p(t) by {}
    lemma_seconds_none(p, from, to);
}

/// Without maintenance, an outage counts for the part of it that lies in the window; one that goes on
/// lasts until the window's end.
pub proof fn law_outage_counts_in_the_window(outage: Span, from: int, to: int)
    ensures
        ({
            let end = if outage.end is Some && (outage.end->0 as int) < to {
                outage.end->0 as int
            } else {
                to
            };
            let start = if (outage.start as int) < from {
                from
            } else {
                outage.start as int
            };
            downtime(seq![outage], from, to, Seq::empty()) == if start < end {
                end - start
            } else {
                0
            }
        }),
{
    let p = outside(Seq::empty());
    let (a, b) = clip(outage, from, to);
    assert(seq![outage].drop_last() =~= Seq::<Span>::empty());
    reveal_with_fuel(counted_downtime, 2);
    if a < b {
        lemma_seconds_all(p, a, b);
    }
}

/// Without maintenance, the whole window is measured.
pub proof fn law_whole_window_is_measured(from: int, to: int)
    requires
        from <= to,
    ensures
        measured(from, to, Seq::empty()) == to - from,
{
    lemma_seconds_all(outside(Seq::empty()), from, to);
}

/// Outages add up, each by itself, and no outage is no downtime.
pub proof fn law_outages_add_up(
    a: Seq<Span>,
    b: Seq<Span>,
    from: int,
    to: int,
    maintenance: Seq<(Ts, Ts)>,
)
    ensures
        downtime(a + b, from, to, maintenance) == downtime(a, from, to, maintenance) + downtime(
            b,
            from,
            to,
            maintenance,
        ),
        downtime(Seq::empty(), from, to, maintenance) == 0,
    decreases b.len(),
{
    if b.len() == 0 {
        assert(a + b =~= a);
    } else {
        law_outages_add_up(a, b.drop_last(), from, to, maintenance);
        assert((a + b).drop_last() =~= a + b.drop_last());
    }
}

/// A maintenance interval inside a window takes its length out of the measured time, and of an outage
/// that covers it as much.
pub proof fn law_maintenance_is_taken_out(from: int, to: int, s: Ts, e: Ts)
    requires
        from <= s <= e <= to,
        i64::MIN <= from,
    ensures
        measured(from, to, seq![(s, e)]) == (to - from) - (e - s),
        downtime(seq![Span { start: from as i64, end: None }], from, to, seq![(s, e)]) == (to - from)
            - (e - s),
{
    let m = seq![(s, e)];
    let p = outside(m);
    assert(m[0] == (s, e));
    assert forall|t: int| from <= t < s implies #[trigger] p(t) by {}
    assert forall|t: int| e <= t < to implies #[trigger] p(t) by {}
    assert forall|t: int| s <= t < e implies !#[trigger] p(t) by {
        assert(m[0].0 <= t < m[0].1);
    }
    lemma_seconds_all(p, from, s as int);
    lemma_seconds_none(p, s as int, e as int);
    lemma_seconds_all(p, e as int, to);
    lemma_seconds_split(p, from, s as int, to);
    lemma_seconds_split(p, s as int, e as int, to);
    let span = Span { start: from as i64, end: None };
    assert(seq![span].drop_last() =~= Seq::<Span>::empty());
    reveal_with_fuel(counted_downtime, 2);
}

/// An uptime is the share of the measured time that was down, where there were checks and time was
/// measured, and its downtime is that of the share; otherwise there is neither.
pub proof fn law_uptime_is_a_share(
    r: Uptime,
    spans: Seq<Span>,
    from: int,
    to: int,
    had_any_check: bool,
    maintenance: Seq<(Ts, Ts)>,
)
    requires
        reports(r, uptime(spans, from, to, had_any_check, maintenance)),
    ensures
        r.uptime_pct is Some <==> had_any_check && measured(from, to, maintenance) > 0,
        r.uptime_pct matches Some(share) ==> share.down == downtime(spans, from, to, maintenance)
            && share.total == measured(from, to, maintenance) && r.downtime_seconds == share.down,
        r.uptime_pct is None ==> r.downtime_seconds == 0,
{
}

/// A shown uptime follows the share: with no downtime it shows all, up to its last digit, with
/// nothing but downtime it shows none, and more downtime never shows more.
pub proof fn law_shown_uptime_follows_the_share(h: int, k: int, down: int, more: int, total: int)
    requires
        0 <= down <= more,
        shows(h, down, total),
        shows(k, more, total),
    ensures
        k <= h + 2,
        down == 0 ==> 9999 <= h <= 10001,
        down == total ==> -1 <= h <= 1,
{
    assert((total - down) * 10000 >= (total - more) * 10000);
    assert(k * total <= h * total + 2 * total);
    assert(k <= h + 2) by (nonlinear_arith)
        requires
            total > 0,
            k * total <= h * total + 2 * total,
    ;
    if down == 0 {
        assert(9999 <= h <= 10001) by (nonlinear_arith)
            requires
                total > 0,
                -total <= h * total - total * 10000 <= total,
        ;
    }
    if down == total {
        assert(-1 <= h <= 1) by (nonlinear_arith)
            requires
                total > 0,
                -total <= h * total <= total,
        ;
    }
}

} // verus!
