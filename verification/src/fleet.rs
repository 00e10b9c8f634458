//! Figures over all monitors for a period: time measured, downtime, expirations.

use vstd::prelude::*;

use crate::json;
use crate::maintenance_windows;
use crate::maintenance_windows::resolve;
use crate::models::{DomainInfo, MaintenanceWindow, Monitor, SslCert, Ts};
use crate::text;
use crate::uptime;
use crate::uptime::{Share, Span};

verus! {

/// A monitor with what is stored of it for a period: the incidents that touch the period,
/// whether any sample lies in it, and the last certificate and domain checks.
#[derive(Clone, Debug)]
pub struct Observed {
    pub monitor: Monitor,
    pub spans: Vec<Span>,
    pub has_samples: bool,
    pub cert: Option<SslCert>,
    pub domain: Option<DomainInfo>,
}

/// The seconds of `from..to` that count for a monitor: those outside its maintenance.
pub open spec fn counts(
    m: Monitor,
    windows: Seq<MaintenanceWindow>,
    from: int,
    to: int,
) -> spec_fn(int) -> bool {
    |t: int| !resolve::under_maintenance(
        windows,
        m.id,
        maintenance_windows::stored_tags(m.tags),
        from,
        to,
        t,
    )
}

/// A monitor's downtime in `from..to`, and how many seconds of it count.
pub open spec fn figures(
    o: Observed,
    windows: Seq<MaintenanceWindow>,
    from: int,
    to: int,
) -> (int, int) {
    let c = counts(o.monitor, windows, from, to);
    (uptime::counted_downtime(o.spans@, from, to, c) as int, uptime::seconds(c, from, to) as int)
}

/// Every active window can be listed over `from..to`.
pub open spec fn resolvable(windows: Seq<MaintenanceWindow>, from: int, to: int) -> bool {
    forall|k: int|
        0 <= k < windows.len() && (#[trigger] windows[k]).is_active ==> resolve::listable(
            windows[k],
            from,
            to,
        )
}

/// How many periods of `width` seconds add up to a number of 64 bits.
pub open spec fn room(width: int) -> int {
    if width <= 0 {
        i64::MAX as int
    } else {
        i64::MAX as int / width
    }
}

/// How many incidents a list of monitors has.
pub open spec fn span_count(list: Seq<Observed>) -> nat
    decreases list.len(),
{
    if list.len() == 0 {
        0
    } else {
        span_count(list.drop_last()) + list.last().spans@.len()
    }
}

proof fn lemma_room(n: int, width: int)
    requires
        0 <= n <= room(width),
        0 <= width,
    ensures
        0 <= n * width <= i64::MAX,
{
    if width > 0 {
        assert(0 <= n * width <= i64::MAX) by (nonlinear_arith)
            requires
                0 <= n <= i64::MAX as int / width,
                width > 0,
        ;
    } else {
        assert(n * width == 0) by (nonlinear_arith)
            requires
                width == 0,
        ;
    }
}

proof fn lemma_figures_bound(o: Observed, windows: Seq<MaintenanceWindow>, from: int, to: int)
    requires
        from <= to,
        o.spans@.len() <= room(to - from),
    ensures
        0 <= figures(o, windows, from, to).0 <= o.spans@.len() * (to - from) <= i64::MAX,
        0 <= figures(o, windows, from, to).1 <= to - from,
{
    let c = counts(o.monitor, windows, from, to);
    uptime::lemma_downtime_bound(o.spans@, from, to, c);
    uptime::lemma_seconds_bound(c, from, to);
    lemma_room(o.spans@.len() as int, to - from);
}

/// Measures one monitor over `from..to`: its downtime, and how many seconds count.
pub fn monitor_uptime(o: &Observed, from: Ts, to: Ts, windows: &[MaintenanceWindow]) -> (r: (
    i64,
    i64,
))
    requires
        from <= to,
        to - from <= i64::MAX,
        resolvable(windows@, from as int, to as int),
        o.spans@.len() <= room(to - from),
    ensures
        (r.0 as int, r.1 as int) == figures(*o, windows@, from as int, to as int),
        0 <= r.0,
        0 <= r.1,
{
    let tags = match &o.monitor.tags {
        Some(raw) => resolve::parse_tags(raw.as_str()),
        None => resolve::parse_tags(""),
    };
    let maint = resolve::maintenance_intervals(
        windows,
        o.monitor.id,
        tags.as_slice(),
        from,
        to,
    );
    proof {
        let p = counts(o.monitor, windows@, from as int, to as int);
        let q = uptime::outside(maint@);
        assert forall|t: int| from <= t < to implies #[trigger] p(t) == q(t) by {
            assert(resolve::covered(maint@, t) <==> from <= t < to && resolve::under_maintenance(
                windows@,
                o.monitor.id,
                text::views(tags@),
                from as int,
                to as int,
                t,
            ));
        }
        uptime::lemma_downtime_same(o.spans@, from as int, to as int, p, q);
        uptime::lemma_seconds_same(p, q, from as int, to as int);
        lemma_figures_bound(*o, windows@, from as int, to as int);
        if uptime::seconds(q, from as int, to as int) == 0 {
            uptime::lemma_no_time_no_downtime(o.spans@, from as int, to as int, q);
        }
    }
    let u = uptime::compute(o.spans.as_slice(), from, to, true, maint.as_slice());
    let total = uptime::measure(from, to, maint.as_slice());
    (u.downtime_seconds, total)
}

/// The figures of the included monitors, `None` for the others.
pub open spec fn measures(
    list: Seq<Observed>,
    included: Seq<bool>,
    windows: Seq<MaintenanceWindow>,
    from: int,
    to: int,
) -> Seq<Option<(int, int)>> {
    Seq::new(
        list.len(),
        |i: int|
            if included[i] {
                Some(figures(list[i], windows, from, to))
            } else {
                None
            },
    )
}

/// The downtime of all measured monitors.
pub open spec fn down_sum(v: Seq<Option<(int, int)>>) -> int
    decreases v.len(),
{
    if v.len() == 0 {
        0
    } else {
        down_sum(v.drop_last()) + match v.last() {
            Some(f) => f.0,
            None => 0,
        }
    }
}

/// The seconds that count of all measured monitors.
pub open spec fn time_sum(v: Seq<Option<(int, int)>>) -> int
    decreases v.len(),
{
    if v.len() == 0 {
        0
    } else {
        time_sum(v.drop_last()) + match v.last() {
            Some(f) => f.1,
            None => 0,
        }
    }
}

/// How many monitors were measured.
pub open spec fn reporting(v: Seq<Option<(int, int)>>) -> int
    decreases v.len(),
{
    if v.len() == 0 {
        0
    } else {
        reporting(v.drop_last()) + if v.last() is Some {
            1int
        } else {
            0int
        }
    }
}

/// How many measured monitors had no downtime.
pub open spec fn without_downtime(v: Seq<Option<(int, int)>>) -> int
    decreases v.len(),
{
    if v.len() == 0 {
        0
    } else {
        without_downtime(v.drop_last()) + match v.last() {
            Some(f) => if f.0 == 0 {
                1int
            } else {
                0int
            },
            None => 0,
        }
    }
}

/// How many measured monitors had time that counts, and no downtime.
pub open spec fn up_throughout(v: Seq<Option<(int, int)>>) -> int
    decreases v.len(),
{
    if v.len() == 0 {
        0
    } else {
        up_throughout(v.drop_last()) + match v.last() {
            Some(f) => if f.0 == 0 && f.1 > 0 {
                1int
            } else {
                0int
            },
            None => 0,
        }
    }
}

/// The figures of a fleet, added up.
#[derive(Clone, Copy, Debug, PartialEq, Eq, Structural)]
pub struct Totals {
    pub down: i64,
    pub time: i64,
    pub reporting: i64,
    pub without_downtime: i64,
    pub up_throughout: i64,
}

/// `r` is the share that was down of the time that was measured, if any was.
pub open spec fn is_share_of(f: Totals, r: Option<Share>) -> bool {
    r == (if f.time > 0 {
        Some(Share { down: f.down, total: f.time })
    } else {
        None
    })
}

impl Totals {
    /// These are the totals of `v`.
    pub open spec fn total(self, v: Seq<Option<(int, int)>>) -> bool {
        &&& self.down == down_sum(v)
        &&& self.time == time_sum(v)
        &&& self.reporting == reporting(v)
        &&& self.without_downtime == without_downtime(v)
        &&& self.up_throughout == up_throughout(v)
    }

    /// The fleet's share of downtime, where any second counts.
    pub fn share(&self) -> (r: Option<Share>)
        ensures
            is_share_of(*self, r),
    {
        if self.time > 0 {
            Some(Share { down: self.down, total: self.time })
        } else {
            None
        }
    }
}

/// Figures are never negative.
pub open spec fn positive(v: Seq<Option<(int, int)>>) -> bool {
    forall|i: int|
        0 <= i < v.len() ==> (#[trigger] v[i] matches Some(f) ==> 0 <= f.0 && 0 <= f.1)
}

proof fn lemma_sums_grow(v: Seq<Option<(int, int)>>, n: int)
    requires
        positive(v),
        0 <= n <= v.len(),
    ensures
        0 <= down_sum(v.take(n)) <= down_sum(v),
        0 <= time_sum(v.take(n)) <= time_sum(v),
        0 <= reporting(v.take(n)) <= n,
        0 <= without_downtime(v.take(n)) <= n,
        0 <= up_throughout(v.take(n)) <= n,
    decreases v.len(),
{
    if n < v.len() {
        let rest = v.drop_last();
        assert forall|i: int| 0 <= i < rest.len() implies (#[trigger] rest[i] matches Some(f)
            ==> 0 <= f.0 && 0 <= f.1) by {
            assert(v[i] matches Some(f) ==> 0 <= f.0 && 0 <= f.1);
        }
        lemma_sums_grow(rest, n);
        assert(rest.take(n) =~= v.take(n));
        assert(v[v.len() - 1] matches Some(f) ==> 0 <= f.0 && 0 <= f.1);
    } else if n > 0 {
        assert(v.take(n) =~= v);
        let rest = v.drop_last();
        assert forall|i: int| 0 <= i < rest.len() implies (#[trigger] rest[i] matches Some(f)
            ==> 0 <= f.0 && 0 <= f.1) by {
            assert(v[i] matches Some(f) ==> 0 <= f.0 && 0 <= f.1);
        }
        lemma_sums_grow(rest, n - 1);
        assert(rest.take(n - 1) =~= rest);
        assert(v[v.len() - 1] matches Some(f) ==> 0 <= f.0 && 0 <= f.1);
    }
}

/// The figures of a list of monitors over `from..to` can be added up in 64 bits, and the windows
/// can be listed over it.
pub open spec fn addable(
    list: Seq<Observed>,
    windows: Seq<MaintenanceWindow>,
    from: int,
    to: int,
) -> bool {
    &&& from <= to
    &&& to - from <= i64::MAX
    &&& resolvable(windows, from, to)
    &&& list.len() <= room(to - from)
    &&& list.len() <= i64::MAX
    &&& span_count(list) <= room(to - from)
}

proof fn lemma_span_count(list: Seq<Observed>, i: int)
    requires
        0 <= i < list.len(),
    ensures
        list[i].spans@.len() <= span_count(list),
    decreases list.len(),
{
    if i < list.len() - 1 {
        lemma_span_count(list.drop_last(), i);
    }
}

proof fn lemma_sums_bound(
    list: Seq<Observed>,
    included: Seq<bool>,
    windows: Seq<MaintenanceWindow>,
    from: int,
    to: int,
)
    requires
        from <= to,
        included.len() == list.len(),
        span_count(list) <= room(to - from),
    ensures
        0 <= down_sum(measures(list, included, windows, from, to)) <= span_count(list) * (to - from),
        0 <= time_sum(measures(list, included, windows, from, to)) <= list.len() * (to - from),
    decreases list.len(),
{
    let v = measures(list, included, windows, from, to);
    let w = to - from;
    if list.len() == 0 {
        assert(0 * w == 0);
    } else {
        let rest = list.drop_last();
        let n: int = list.len() as int;
        let s: int = span_count(rest) as int;
        let k: int = list.last().spans@.len() as int;
        lemma_sums_bound(rest, included.drop_last(), windows, from, to);
        assert(measures(rest, included.drop_last(), windows, from, to) =~= v.drop_last());
        lemma_figures_bound(list.last(), windows, from, to);
        assert((n - 1) * w + w == n * w) by (nonlinear_arith);
        assert(s * w + k * w == (s + k) * w) by (nonlinear_arith);
        assert(0 <= k * w) by (nonlinear_arith)
            requires
                0 <= k,
                0 <= w,
        ;
    }
}

/// Whether the windows can be listed over `from..to`.
pub fn can_resolve(windows: &[MaintenanceWindow], from: Ts, to: Ts) -> (r: bool)
    ensures
        r == resolvable(windows@, from as int, to as int),
{
    let mut i: usize = 0;
    while i < windows.len()
        invariant
            i <= windows@.len(),
            forall|k: int|
                0 <= k < i && (#[trigger] windows@[k]).is_active ==> resolve::listable(
                    windows@[k],
                    from as int,
                    to as int,
                ),
        decreases windows@.len() - i,
    {
        if windows[i].is_active && !resolve::can_list(&windows[i], from, to) {
            assert(windows@[i as int].is_active);
            return false;
        }
        i += 1;
    }
    true
}

fn room_for(width: i64) -> (r: i64)
    ensures
        r == room(width as int),
        r >= 0,
{
    if width <= 0 {
        i64::MAX
    } else {
        let q: i64 = i64::MAX / width;
        assert(q >= 0) by (nonlinear_arith)
            requires
                q == i64::MAX / width,
                width > 0,
        ;
        q
    }
}

/// Whether the figures of a list of monitors can be added up over `from..to`.
pub fn can_add(list: &Vec<Observed>, windows: &[MaintenanceWindow], from: Ts, to: Ts) -> (r: bool)
    ensures
        r == addable(list@, windows@, from as int, to as int),
{
    if from > to || to as i128 - from as i128 > i64::MAX as i128 {
        return false;
    }
    let limit = room_for(to - from);
    if !can_resolve(windows, from, to) || list.len() as u128 > limit as u128 {
        return false;
    }
    let mut count: i64 = 0;
    let mut i: usize = 0;
    while i < list.len()
        invariant
            i <= list@.len(),
            limit == room(to - from),
            0 <= count <= limit,
            count == span_count(list@.take(i as int)),
        decreases list@.len() - i,
    {
        proof {
            assert(list@.take(i + 1).drop_last() =~= list@.take(i as int));
            lemma_count_grows(list@, i + 1);
        }
        let n: usize = list[i].spans.len();
        if n as i128 + count as i128 > limit as i128 {
            return false;
        }
        count = count + n as i64;
        i += 1;
    }
    assert(list@.take(list@.len() as int) =~= list@);
    true
}

proof fn lemma_count_grows(list: Seq<Observed>, n: int)
    requires
        0 <= n <= list.len(),
    ensures
        span_count(list.take(n)) <= span_count(list),
    decreases list.len(),
{
    if n < list.len() {
        lemma_count_grows(list.drop_last(), n);
        assert(list.drop_last().take(n) =~= list.take(n));
    } else {
        assert(list.take(n) =~= list);
    }
}

/// The measured figures, as numbers.
pub open spec fn as_ints(v: Seq<Option<(i64, i64)>>) -> Seq<Option<(int, int)>> {
    v.map_values(
        |f: Option<(i64, i64)>|
            match f {
                Some(p) => Some((p.0 as int, p.1 as int)),
                None => None,
            },
    )
}

/// Measures every included monitor over `from..to`, and adds the figures up.
pub fn tally(
    list: &Vec<Observed>,
    included: &Vec<bool>,
    windows: &[MaintenanceWindow],
    from: Ts,
    to: Ts,
) -> (r: (Vec<Option<(i64, i64)>>, Totals))
    requires
        included@.len() == list@.len(),
        addable(list@, windows@, from as int, to as int),
    ensures
        as_ints(r.0@) == measures(list@, included@, windows@, from as int, to as int),
        r.1.total(measures(list@, included@, windows@, from as int, to as int)),
{
    let ghost all = measures(list@, included@, windows@, from as int, to as int);
    let mut each: Vec<Option<(i64, i64)>> = Vec::new();
    let mut sum = Totals { down: 0, time: 0, reporting: 0, without_downtime: 0, up_throughout: 0 };
    let mut i: usize = 0;
    assert(all.take(0) =~= Seq::empty());
    proof {
        lemma_sums_bound(list@, included@, windows@, from as int, to as int);
        lemma_room(span_count(list@) as int, to - from);
        lemma_room(list@.len() as int, to - from);
        assert(positive(all));
    }
    while i < list.len()
        invariant
            i <= list@.len(),
            included@.len() == list@.len(),
            addable(list@, windows@, from as int, to as int),
            down_sum(all) <= i64::MAX,
            time_sum(all) <= i64::MAX,
            all == measures(list@, included@, windows@, from as int, to as int),
            positive(all),
            as_ints(each@) =~= all.take(i as int),
            sum.total(all.take(i as int)),
        decreases list@.len() - i,
    {
        proof {
            assert(all.take(i + 1).drop_last() =~= all.take(i as int));
            lemma_sums_grow(all, i + 1);
            lemma_sums_grow(all, i as int);
            lemma_span_count(list@, i as int);
        }
        if included[i] {
            assert(all[i as int] == Some(figures(list@[i as int], windows@, from as int, to as int)));
            let (down, time) = monitor_uptime(&list[i], from, to, windows);
            sum = Totals {
                down: sum.down + down,
                time: sum.time + time,
                reporting: sum.reporting + 1,
                without_downtime: sum.without_downtime + if down == 0 {
                    1
                } else {
                    0
                },
                up_throughout: sum.up_throughout + if down == 0 && time > 0 {
                    1
                } else {
                    0
                },
            };
            each.push(Some((down, time)));
        } else {
            each.push(None);
        }
        assert(as_ints(each@) =~= all.take(i + 1));
        i += 1;
    }
    assert(all.take(list@.len() as int) =~= all);
    (each, sum)
}

/// The largest of a list of numbers, or zero where there is none.
pub open spec fn largest(v: Seq<i64>) -> int
    decreases v.len(),
{
    if v.len() == 0 {
        0
    } else if v.len() == 1 {
        v[0] as int
    } else if v.last() > largest(v.drop_last()) {
        v.last() as int
    } else {
        largest(v.drop_last())
    }
}

/// The earliest warning of a stored list of days; a text that is no list of numbers has none.
pub open spec fn widest(days: Seq<char>) -> int {
    largest(
        match json::json_ints(days) {
            Some(v) => v,
            None => Seq::empty(),
        },
    )
}

/// The largest number of days in a stored list of thresholds, or zero.
pub fn widest_threshold(days: &str) -> (r: i64)
    ensures
        r == widest(days@),
{
    let v: Vec<i64> = match json::parse_ints(days) {
        Some(v) => v,
        None => Vec::new(),
    };
    if v.len() == 0 {
        assert(v@ =~= Seq::empty());
        return 0;
    }
    let mut best: i64 = v[0];
    let mut i: usize = 1;
    assert(v@.take(1) =~= seq![v@[0]]);
    while i < v.len()
        invariant
            1 <= i <= v@.len(),
            best == largest(v@.take(i as int)),
        decreases v@.len() - i,
    {
        assert(v@.take(i + 1).drop_last() =~= v@.take(i as int));
        if v[i] > best {
            best = v[i];
        }
        i += 1;
    }
    assert(v@.take(v@.len() as int) =~= v@);
    best
}

/// The days are known, and inside the widest threshold.
pub open spec fn expiring(days: Option<i64>, thresholds: Seq<char>) -> bool {
    days is Some && days->0 <= widest(thresholds)
}

/// How a certificate stands.
pub open spec fn ssl_flag(m: Monitor, c: SslCert) -> Seq<char> {
    if c.is_valid == Some(false) {
        "invalid"@
    } else if expiring(c.days_remaining, m.ssl_alert_days@) {
        "expiring"@
    } else {
        "ok"@
    }
}

/// How a domain registration stands.
pub open spec fn domain_flag(m: Monitor, d: DomainInfo) -> Seq<char> {
    if d.queryable == Some(false) {
        "unknown"@
    } else if expiring(d.days_remaining, m.domain_alert_days@) {
        "expiring"@
    } else {
        "ok"@
    }
}

/// A certificate or domain with the days that remain and how it stands.
#[derive(Clone, Debug)]
pub struct ExpiryItem {
    pub monitor: String,
    pub kind: String,
    pub days_remaining: Option<i64>,
    pub flag: String,
}

/// The contents of an expiry item.
pub type Expiry = (Seq<char>, Seq<char>, Option<i64>, Seq<char>);

impl View for ExpiryItem {
    type V = Expiry;

    open spec fn view(&self) -> Expiry {
        (self.monitor@, self.kind@, self.days_remaining, self.flag@)
    }
}

/// The contents of a list of expiry items.
pub open spec fn expiries(v: Seq<ExpiryItem>) -> Seq<Expiry> {
    v.map_values(|e: ExpiryItem| e@)
}

/// The certificate of a monitor, where one is watched and was checked.
pub open spec fn ssl_item(o: Observed) -> Seq<Expiry> {
    if o.monitor.ssl_check_enabled && o.cert is Some {
        seq![
            (
                o.monitor.name@,
                "ssl"@,
                o.cert->0.days_remaining,
                ssl_flag(o.monitor, o.cert->0),
            ),
        ]
    } else {
        Seq::empty()
    }
}

/// The domain of a monitor, where one is watched and was checked.
pub open spec fn domain_item(o: Observed) -> Seq<Expiry> {
    if o.monitor.domain_check_enabled && o.domain is Some {
        seq![
            (
                o.monitor.name@,
                "domain"@,
                o.domain->0.days_remaining,
                domain_flag(o.monitor, o.domain->0),
            ),
        ]
    } else {
        Seq::empty()
    }
}

/// Every watched certificate and domain, in the order of the monitors.
pub open spec fn outlook(list: Seq<Observed>) -> Seq<Expiry>
    decreases list.len(),
{
    if list.len() == 0 {
        Seq::empty()
    } else {
        outlook(list.drop_last()) + ssl_item(list.last()) + domain_item(list.last())
    }
}

/// A monitor has at most two items in the outlook.
pub proof fn lemma_outlook_length(list: Seq<Observed>)
    ensures
        outlook(list).len() <= 2 * list.len(),
    decreases list.len(),
{
    if list.len() > 0 {
        lemma_outlook_length(list.drop_last());
    }
}

fn is_expiring(days: Option<i64>, thresholds: &str) -> (r: bool)
    ensures
        r == expiring(days, thresholds@),
{
    let widest = widest_threshold(thresholds);
    match days {
        Some(d) => d <= widest,
        None => false,
    }
}

fn push_ssl(out: &mut Vec<ExpiryItem>, o: &Observed)
    ensures
        expiries(final(out)@) == expiries(old(out)@) + ssl_item(*o),
{
    let ghost before = expiries(out@);
    if o.monitor.ssl_check_enabled {
        if let Some(c) = &o.cert {
            let invalid = match c.is_valid {
                Some(v) => !v,
                None => false,
            };
            let near = is_expiring(c.days_remaining, o.monitor.ssl_alert_days.as_str());
            let flag = if invalid {
                text::own("invalid")
            } else if near {
                text::own("expiring")
            } else {
                text::own("ok")
            };
            out.push(
                ExpiryItem {
                    monitor: text::own(o.monitor.name.as_str()),
                    kind: text::own("ssl"),
                    days_remaining: c.days_remaining,
                    flag,
                },
            );
        }
    }
    assert(expiries(out@) =~= before + ssl_item(*o));
}

fn push_domain(out: &mut Vec<ExpiryItem>, o: &Observed)
    ensures
        expiries(final(out)@) == expiries(old(out)@) + domain_item(*o),
{
    let ghost before = expiries(out@);
    if o.monitor.domain_check_enabled {
        if let Some(d) = &o.domain {
            let unknown = match d.queryable {
                Some(v) => !v,
                None => false,
            };
            let near = is_expiring(d.days_remaining, o.monitor.domain_alert_days.as_str());
            let flag = if unknown {
                text::own("unknown")
            } else if near {
                text::own("expiring")
            } else {
                text::own("ok")
            };
            out.push(
                ExpiryItem {
                    monitor: text::own(o.monitor.name.as_str()),
                    kind: text::own("domain"),
                    days_remaining: d.days_remaining,
                    flag,
                },
            );
        }
    }
    assert(expiries(out@) =~= before + domain_item(*o));
}

/// Lists every watched certificate and domain with how it stands.
pub fn expirations(list: &Vec<Observed>) -> (r: Vec<ExpiryItem>)
    ensures
        expiries(r@) == outlook(list@),
{
    let mut out: Vec<ExpiryItem> = Vec::new();
    let mut i: usize = 0;
    assert(expiries(out@) =~= outlook(list@.take(0)));
    while i < list.len()
        invariant
            i <= list@.len(),
            expiries(out@) == outlook(list@.take(i as int)),
        decreases list@.len() - i,
    {
        assert(list@.take(i + 1).drop_last() =~= list@.take(i as int));
        push_ssl(&mut out, &list[i]);
        push_domain(&mut out, &list[i]);
        i += 1;
    }
    assert(list@.take(list@.len() as int) =~= list@);
    out
}

/// Where no monitor's downtime exceeds its measured time, the fleet's does not either, and the
/// counts of monitors nest.
pub proof fn law_shares_add_up(v: Seq<Option<(int, int)>>)
    requires
        forall|i: int|
            0 <= i < v.len() ==> (#[trigger] v[i] matches Some(f) ==> 0 <= f.0 <= f.1),
    ensures
        0 <= down_sum(v) <= time_sum(v),
        0 <= up_throughout(v) <= without_downtime(v) <= reporting(v) <= v.len(),
    decreases v.len(),
{
    if v.len() > 0 {
        let rest = v.drop_last();
        assert forall|i: int| 0 <= i < rest.len() implies (#[trigger] rest[i] matches Some(f)
            ==> 0 <= f.0 <= f.1) by {
            assert(v[i] matches Some(f) ==> 0 <= f.0 <= f.1);
        }
        law_shares_add_up(rest);
        assert(v[v.len() - 1] matches Some(f) ==> 0 <= f.0 <= f.1);
    }
}

/// The figures of a fleet add up: those of two groups are the sums of each group's, and those of one
/// monitor are its own.
pub proof fn law_groups_add_up(a: Seq<Option<(int, int)>>, b: Seq<Option<(int, int)>>, f: (int, int))
    ensures
        down_sum(a + b) == down_sum(a) + down_sum(b),
        time_sum(a + b) == time_sum(a) + time_sum(b),
        reporting(a + b) == reporting(a) + reporting(b),
        without_downtime(a + b) == without_downtime(a) + without_downtime(b),
        up_throughout(a + b) == up_throughout(a) + up_throughout(b),
        down_sum(seq![Some(f)]) == f.0,
        time_sum(seq![Some(f)]) == f.1,
        reporting(seq![Some(f)]) == 1,
        without_downtime(seq![Some(f)]) == (if f.0 == 0 {
            1int
        } else {
            0
        }),
        up_throughout(seq![Some(f)]) == (if f.0 == 0 && f.1 > 0 {
            1int
        } else {
            0
        }),
        down_sum(seq![None]) == 0,
        time_sum(seq![None]) == 0,
        reporting(seq![None]) == 0,
        without_downtime(seq![None]) == 0,
        up_throughout(seq![None]) == 0,
    decreases b.len(),
{
    reveal_with_fuel(down_sum, 2);
    reveal_with_fuel(time_sum, 2);
    reveal_with_fuel(reporting, 2);
    reveal_with_fuel(without_downtime, 2);
    reveal_with_fuel(up_throughout, 2);
    if b.len() == 0 {
        assert(a + b =~= a);
    } else {
        law_groups_add_up(a, b.drop_last(), f);
        assert((a + b).drop_last() =~= a + b.drop_last());
    }
}

/// A monitor without maintenance counts for every second of a period, and its downtime is that of its
/// incidents; exactly the included monitors are measured.
pub proof fn law_figures_without_maintenance(
    list: Seq<Observed>,
    included: Seq<bool>,
    from: int,
    to: int,
    i: int,
)
    requires
        from <= to,
        included.len() == list.len(),
        0 <= i < list.len(),
    ensures
        measures(list, included, Seq::empty(), from, to).len() == list.len(),
        measures(list, included, Seq::empty(), from, to)[i] is Some <==> included[i],
        measures(list, included, Seq::empty(), from, to)[i] matches Some(f) ==> f.0
            == uptime::downtime(list[i].spans@, from, to, Seq::empty()) && f.1 == to - from,
{
    let none = Seq::<MaintenanceWindow>::empty();
    let p = counts(list[i].monitor, none, from, to);
    let q = uptime::outside(Seq::empty());
    assert forall|t: int| from <= t < to implies #[trigger] p(t) == q(t) by {
        assert(!resolve::under_maintenance(
            none,
            list[i].monitor.id,
            maintenance_windows::stored_tags(list[i].monitor.tags),
            from,
            to,
            t,
        ));
    }
    uptime::lemma_downtime_same(list[i].spans@, from, to, p, q);
    uptime::lemma_seconds_same(p, q, from, to);
    uptime::law_whole_window_is_measured(from, to);
}

/// Where nothing is under maintenance, the measured time of a fleet is the period once for every
/// monitor that reports.
pub proof fn law_every_reporting_monitor_counts_in_full(
    list: Seq<Observed>,
    included: Seq<bool>,
    from: int,
    to: int,
)
    requires
        from <= to,
        included.len() == list.len(),
    ensures
        time_sum(measures(list, included, Seq::empty(), from, to)) == reporting(
            measures(list, included, Seq::empty(), from, to),
        ) * (to - from),
    decreases list.len(),
{
    let v = measures(list, included, Seq::empty(), from, to);
    let w = to - from;
    if list.len() == 0 {
        assert(0 * w == 0);
    } else {
        let n = list.len() - 1;
        law_every_reporting_monitor_counts_in_full(list.drop_last(), included.drop_last(), from, to);
        assert(measures(list.drop_last(), included.drop_last(), Seq::empty(), from, to)
            =~= v.drop_last());
        law_figures_without_maintenance(list, included, from, to, n);
        let k = reporting(v.drop_last());
        assert((k + 1) * w == k * w + w) by (nonlinear_arith);
    }
}

/// The widest of a list of thresholds is one of them, and none is wider; without any it is zero.
pub proof fn law_widest_bounds_the_thresholds(v: Seq<i64>, k: int)
    ensures
        v.len() == 0 ==> largest(v) == 0,
        v.len() > 0 ==> exists|i: int| 0 <= i < v.len() && #[trigger] v[i] == largest(v),
        0 <= k < v.len() ==> v[k] <= largest(v),
    decreases v.len(),
{
    if v.len() == 1 {
        assert(v[0] == largest(v));
    } else if v.len() > 1 {
        let rest = v.drop_last();
        law_widest_bounds_the_thresholds(rest, k);
        if v.last() > largest(rest) {
            assert(v[v.len() - 1] == largest(v));
        } else {
            let i = choose|i: int| 0 <= i < rest.len() && #[trigger] rest[i] == largest(rest);
            assert(v[i] == largest(v));
        }
    }
}

/// The outlook of a fleet is that of its monitors, one after the other, the certificate before the
/// domain.
pub proof fn law_outlooks_follow_each_other(a: Seq<Observed>, b: Seq<Observed>)
    ensures
        outlook(a + b) == outlook(a) + outlook(b),
    decreases b.len(),
{
    if b.len() == 0 {
        assert(a + b =~= a);
        assert(outlook(a) + outlook(b) =~= outlook(a));
    } else {
        law_outlooks_follow_each_other(a, b.drop_last());
        assert((a + b).drop_last() =~= a + b.drop_last());
        assert(outlook(a + b) =~= outlook(a) + outlook(b));
    }
}

/// What the outlook says of one monitor: an item for its certificate exactly where it is watched and
/// was checked, and likewise for its domain, each with the name of the monitor and the days that the
/// check found.
pub proof fn law_outlook_of_a_monitor(o: Observed)
    ensures
        ({
            let v = outlook(seq![o]);
            let ssl = o.monitor.ssl_check_enabled && o.cert is Some;
            let domain = o.monitor.domain_check_enabled && o.domain is Some;
            &&& v.len() == (if ssl {
                1int
            } else {
                0
            }) + (if domain {
                1int
            } else {
                0
            })
            &&& ssl ==> v[0].0 == o.monitor.name@ && v[0].1 == "ssl"@ && v[0].2
                == o.cert->0.days_remaining
            &&& domain ==> v.last().0 == o.monitor.name@ && v.last().1 == "domain"@ && v.last().2
                == o.domain->0.days_remaining
        }),
{
    reveal_with_fuel(outlook, 2);
    assert(seq![o].drop_last() =~= Seq::<Observed>::empty());
}

/// A certificate that was found invalid says so, whatever its days; any other is expiring exactly
/// where its days are known and no more than the widest of its thresholds.
pub proof fn law_certificate_flags(m: Monitor, c: SslCert)
    ensures
        c.is_valid == Some(false) <==> ssl_flag(m, c) == "invalid"@,
        ssl_flag(m, c) == "expiring"@ <==> c.is_valid != Some(false) && c.days_remaining is Some
            && c.days_remaining->0 <= widest(m.ssl_alert_days@),
        ssl_flag(m, c) == "invalid"@ || ssl_flag(m, c) == "expiring"@ || ssl_flag(m, c) == "ok"@,
{
    reveal_strlit("invalid");
    reveal_strlit("expiring");
    reveal_strlit("ok");
    assert("invalid"@.len() == 7 && "expiring"@.len() == 8 && "ok"@.len() == 2);
}

/// A registration that could not be asked about is unknown, whatever its days; any other is expiring
/// exactly where its days are known and no more than the widest of its thresholds.
pub proof fn law_domain_flags(m: Monitor, d: DomainInfo)
    ensures
        d.queryable == Some(false) <==> domain_flag(m, d) == "unknown"@,
        domain_flag(m, d) == "expiring"@ <==> d.queryable != Some(false) && d.days_remaining is Some
            && d.days_remaining->0 <= widest(m.domain_alert_days@),
        domain_flag(m, d) == "unknown"@ || domain_flag(m, d) == "expiring"@ || domain_flag(m, d)
            == "ok"@,
{
    reveal_strlit("unknown");
    reveal_strlit("expiring");
    reveal_strlit("ok");
    assert("unknown"@.len() == 7 && "expiring"@.len() == 8 && "ok"@.len() == 2);
}

/// What is widest of a stored list is the widest of the numbers that it reads as; a text that is no
/// list of numbers counts as an empty one.
pub proof fn law_widest_reads_the_list(days: Seq<char>)
    ensures
        json::json_ints(days) matches Some(v) ==> widest(days) == largest(v),
        json::json_ints(days) is None ==> widest(days) == 0,
{
}

/// A period that is wholly under a monitor's maintenance counts for nothing, neither as measured time
/// nor as downtime.
pub proof fn law_maintained_period_does_not_count(
    o: Observed,
    windows: Seq<MaintenanceWindow>,
    from: int,
    to: int,
)
    requires
        from <= to,
        forall|t: int|
            from <= t < to ==> #[trigger] resolve::under_maintenance(
                windows,
                o.monitor.id,
                maintenance_windows::stored_tags(o.monitor.tags),
                from,
                to,
                t,
            ),
    ensures
        figures(o, windows, from, to) == (0int, 0int),
{
    let c = counts(o.monitor, windows, from, to);
    let never = |t: int| false;
    assert forall|t: int| from <= t < to implies #[trigger] c(t) == never(t) by {
        assert(resolve::under_maintenance(
            windows,
            o.monitor.id,
            maintenance_windows::stored_tags(o.monitor.tags),
            from,
            to,
            t,
        ));
    }
    uptime::lemma_seconds_same(c, never, from, to);
    lemma_never(from, to);
    uptime::lemma_no_time_no_downtime(o.spans@, from, to, c);
}

proof fn lemma_never(from: int, to: int)
    ensures
        uptime::seconds(|t: int| false, from, to) == 0,
    decreases to - from,
{
    if from < to {
        lemma_never(from, to - 1);
    }
}

/// A monitor is measured for no more than the period, and an incident-free one has no downtime.
pub proof fn law_figures_are_bounded(
    o: Observed,
    windows: Seq<MaintenanceWindow>,
    from: int,
    to: int,
)
    requires
        from <= to,
    ensures
        0 <= figures(o, windows, from, to).0,
        0 <= figures(o, windows, from, to).1 <= to - from,
        o.spans@.len() == 0 ==> figures(o, windows, from, to).0 == 0,
{
    uptime::lemma_seconds_bound(counts(o.monitor, windows, from, to), from, to);
}

/// The share of a fleet is its downtime out of its measured time, and there is none where nothing was
/// measured.
pub proof fn law_share_of_the_fleet(f: Totals, r: Option<Share>)
    requires
        is_share_of(f, r),
    ensures
        r is Some <==> f.time > 0,
        r matches Some(s) ==> s.down == f.down && s.total == f.time,
{
}

/// Totals grow with each monitor that was measured by its downtime, its measured time and one, and by
/// nothing with one that was not.
pub proof fn law_totals_grow_with_each_monitor(
    t: Totals,
    u: Totals,
    v: Seq<Option<(int, int)>>,
    f: Option<(int, int)>,
)
    requires
        t.total(v),
        u.total(v.push(f)),
    ensures
        f is None ==> u.down == t.down && u.time == t.time && u.reporting == t.reporting
            && u.without_downtime == t.without_downtime && u.up_throughout == t.up_throughout,
        f matches Some(g) ==> u.down == t.down + g.0 && u.time == t.time + g.1 && u.reporting
            == t.reporting + 1,
        f matches Some(g) ==> u.without_downtime == t.without_downtime + if g.0 == 0 {
            1int
        } else {
            0
        },
        f matches Some(g) ==> u.up_throughout == t.up_throughout + if g.0 == 0 && g.1 > 0 {
            1int
        } else {
            0
        },
{
    assert(v.push(f).drop_last() =~= v);
}

} // verus!
