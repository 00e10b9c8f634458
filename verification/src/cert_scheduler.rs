//! Certificate and domain refreshes: what to check, which alerts fire, and what is remembered so that
//! each fires once.

use vstd::prelude::*;

use crate::certcheck::alerts;
use crate::certcheck::alerts::TierDecision;
use crate::certcheck::domain::DomainResult;
use crate::certcheck::ssl::SslResult;
use crate::clock;
use crate::json;
use crate::models::{Connectivity, Monitor, Ts};
use crate::notify;
use crate::notify::{own_opt, own_or, AlertCtx};
use crate::text;

verus! {

// ---- targets ----

/// What `reqwest::Url::parse` reads from a text, if it reads one: the scheme, the host, and the port
/// or the scheme's own port.
pub uninterp spec fn url_of(s: Seq<char>) -> Option<(Seq<char>, Option<Seq<char>>, Option<u16>)>;

/// The parts of an address.
#[derive(Clone, Debug)]
pub struct UrlParts {
    pub scheme: String,
    pub host: Option<String>,
    pub port: Option<u16>,
}

impl View for UrlParts {
    type V = (Seq<char>, Option<Seq<char>>, Option<u16>);

    open spec fn view(&self) -> (Seq<char>, Option<Seq<char>>, Option<u16>) {
        (self.scheme@, text::view_opt(self.host), self.port)
    }
}

/// `reqwest::Url::parse`, with the scheme, the host, and the port or the scheme's own port of the
/// address that it reads.
#[verifier::external_body]
fn parse_url(s: &str) -> (r: Option<UrlParts>)
    ensures
        r is Some <==> url_of(s@) is Some,
        r matches Some(u) ==> url_of(s@) == Some(u@),
{
    let url = reqwest::Url::parse(s).ok()?;
    Some(UrlParts {
        scheme: url.scheme().to_string(),
        host: url.host_str().map(|h| h.to_string()),
        port: url.port_or_known_default(),
    })
}

/// The host that a monitor names, if it names one.
pub open spec fn named_host(m: Monitor) -> Option<Seq<char>> {
    match m.host {
        Some(h) => if h@.len() > 0 {
            Some(h@)
        } else {
            None
        },
        None => None,
    }
}

/// Where an address's certificate is served, if it is served anywhere.
pub open spec fn https_target(
    parts: Option<(Seq<char>, Option<Seq<char>>, Option<u16>)>,
) -> Option<(Seq<char>, u16)> {
    match parts {
        Some((scheme, host, port)) => if scheme == "https"@ && host is Some {
            Some(
                (
                    host->0,
                    match port {
                        Some(p) => p,
                        None => 443u16,
                    },
                ),
            )
        } else {
            None
        },
        None => None,
    }
}

/// Where a monitor's certificate is served: at its own host and port for a certificate monitor, and
/// at its secure address for any other.
pub open spec fn certificate_target(m: Monitor) -> Option<(Seq<char>, u16)> {
    if m.kind@ == "ssl"@ {
        match named_host(m) {
            Some(h) => Some(
                (
                    h,
                    match m.port {
                        Some(p) => p as u16,
                        None => 443u16,
                    },
                ),
            ),
            None => None,
        }
    } else {
        match m.url {
            Some(u) => https_target(url_of(u@)),
            None => None,
        }
    }
}

fn host_named(m: &Monitor) -> (r: Option<String>)
    ensures
        text::view_opt(r) == named_host(*m),
{
    match &m.host {
        Some(h) => {
            if h.as_str().is_empty() {
                None
            } else {
                Some(text::own(h.as_str()))
            }
        },
        None => None,
    }
}

/// Where the certificate of an address is served.
pub fn target_of(parts: &Option<UrlParts>) -> (r: Option<(String, u16)>)
    ensures
        ({
            let wanted = https_target(
                match *parts {
                    Some(p) => Some(p@),
                    None => None,
                },
            );
            match r {
                Some(t) => wanted == Some((t.0@, t.1)),
                None => wanted is None,
            }
        }),
{
    match parts {
        Some(p) => {
            if !text::same(p.scheme.as_str(), "https") {
                return None;
            }
            match &p.host {
                Some(h) => {
                    let port: u16 = match p.port {
                        Some(n) => n,
                        None => 443,
                    };
                    Some((text::own(h.as_str()), port))
                },
                None => None,
            }
        },
        None => None,
    }
}

/// Where a monitor's certificate is served.
pub fn ssl_target(m: &Monitor) -> (r: Option<(String, u16)>)
    ensures
        match r {
            Some(t) => certificate_target(*m) == Some((t.0@, t.1)),
            None => certificate_target(*m) is None,
        },
{
    if text::same(m.kind.as_str(), "ssl") {
        return match host_named(m) {
            Some(h) => {
                let port: u16 = match m.port {
                    Some(p) => #[verifier::truncate]
                    (p as u16),
                    None => 443,
                };
                Some((h, port))
            },
            None => None,
        };
    }
    match &m.url {
        Some(u) => {
            let parts = parse_url(u.as_str());
            target_of(&parts)
        },
        None => None,
    }
}

/// Whose registration a monitor watches: its own host's, or else its address's.
pub open spec fn registration_host(m: Monitor) -> Option<Seq<char>> {
    if named_host(m) is Some {
        named_host(m)
    } else {
        match m.url {
            Some(u) => match url_of(u@) {
                Some((scheme, host, port)) => host,
                None => None,
            },
            None => None,
        }
    }
}

/// Whose registration a monitor watches.
pub fn domain_host(m: &Monitor) -> (r: Option<String>)
    ensures
        text::view_opt(r) == registration_host(*m),
{
    let named = host_named(m);
    if named.is_some() {
        return named;
    }
    match &m.url {
        Some(u) => match parse_url(u.as_str()) {
            Some(p) => p.host,
            None => None,
        },
        None => None,
    }
}

/// How a monitor is referred to in an alert: by its address, else by its host.
pub open spec fn reference(m: Monitor) -> Seq<char> {
    match m.url {
        Some(u) => u@,
        None => notify::text_or(m.host, Seq::empty()),
    }
}

/// How a monitor is referred to in an alert.
pub fn monitor_ctx_url(m: &Monitor) -> (r: String)
    ensures
        r@ == reference(*m),
{
    proof {
        reveal_strlit("");
        assert(""@ =~= Seq::<char>::empty());
    }
    match &m.url {
        Some(u) => text::own(u.as_str()),
        None => own_or(&m.host, ""),
    }
}

// ---- alerts ----

/// The thresholds that a stored text lists: none where it is no JSON array of integers.
pub open spec fn thresholds(raw: Seq<char>) -> Seq<i64> {
    match json::json_ints(raw) {
        Some(v) => v,
        None => Seq::empty(),
    }
}

fn read_thresholds(raw: &str) -> (r: Vec<i64>)
    ensures
        r@ == thresholds(raw@),
{
    match json::parse_ints(raw) {
        Some(v) => v,
        None => Vec::new(),
    }
}

/// `ctx` is an alert about a monitor.
pub open spec fn is_alert(
    ctx: AlertCtx,
    m: Monitor,
    ssl_days: Option<i64>,
    domain_days: Option<i64>,
    error: Option<Seq<char>>,
    checked_at: Ts,
) -> bool {
    &&& ctx.monitor_name@ == m.name@
    &&& ctx.url@ == reference(m)
    &&& ctx.ssl_days == ssl_days
    &&& ctx.domain_days == domain_days
    &&& text::view_opt(ctx.error) == error
    &&& ctx.checked_at == checked_at
}

fn alert(
    m: &Monitor,
    ssl_days: Option<i64>,
    domain_days: Option<i64>,
    error: &Option<String>,
    checked_at: Ts,
) -> (r: AlertCtx)
    ensures
        is_alert(r, *m, ssl_days, domain_days, text::view_opt(*error), checked_at),
{
    AlertCtx {
        monitor_name: text::own(m.name.as_str()),
        url: monitor_ctx_url(m),
        ssl_days,
        domain_days,
        error: own_opt(error),
        checked_at,
    }
}

/// A certificate that was captured and is not valid, on a monitor that does not report that by itself.
pub open spec fn invalid_shown(kind: Seq<char>, is_valid: bool, has_error: bool) -> bool {
    !is_valid && !has_error && kind != "ssl"@
}

/// Whether an invalid certificate has been alerted, after a check.
pub open spec fn invalid_remembered(
    kind: Seq<char>,
    is_valid: bool,
    has_error: bool,
    before: bool,
) -> bool {
    if invalid_shown(kind, is_valid, has_error) {
        true
    } else if is_valid {
        false
    } else {
        before
    }
}

/// The alerts of a certificate check, and what to remember of them.
#[derive(Clone, Debug)]
pub struct SslAlerts {
    pub invalid: Option<AlertCtx>,
    pub expiring: Option<AlertCtx>,
    pub alerted_days: Option<i64>,
    pub invalid_alerted: bool,
}

/// `r` is what a certificate check calls for.
pub open spec fn ssl_alerts(
    r: SslAlerts,
    m: Monitor,
    days_remaining: Option<i64>,
    is_valid: bool,
    error: Option<String>,
    old_alerted: Option<i64>,
    old_invalid_alerted: bool,
    checked_at: Ts,
) -> bool {
    let shown = invalid_shown(m.kind@, is_valid, error is Some);
    &&& r.invalid_alerted == invalid_remembered(
        m.kind@,
        is_valid,
        error is Some,
        old_invalid_alerted,
    )
    &&& r.invalid is Some <==> shown && !old_invalid_alerted
    &&& r.invalid matches Some(ctx) ==> is_alert(
        ctx,
        m,
        days_remaining,
        None,
        text::view_opt(error),
        checked_at,
    )
    &&& match days_remaining {
        Some(days) => alerts::decides(
            days,
            thresholds(m.ssl_alert_days@),
            old_alerted,
            TierDecision { fire: r.expiring is Some, new_alerted_days: r.alerted_days },
        ),
        None => r.expiring is None && r.alerted_days == old_alerted,
    }
    &&& r.expiring matches Some(ctx) ==> is_alert(
        ctx,
        m,
        days_remaining,
        None,
        text::view_opt(error),
        checked_at,
    )
}

/// Decides the alerts of a certificate check. An invalid certificate is alerted once until it is
/// valid again; an expiry is alerted once for each threshold it crosses.
pub fn evaluate_ssl_alerts(
    m: &Monitor,
    days_remaining: Option<i64>,
    is_valid: bool,
    error: &Option<String>,
    old_alerted: Option<i64>,
    old_invalid_alerted: bool,
    checked_at: Ts,
) -> (r: SslAlerts)
    ensures
        ssl_alerts(
            r,
            *m,
            days_remaining,
            is_valid,
            *error,
            old_alerted,
            old_invalid_alerted,
            checked_at,
        ),
{
    let shown = !is_valid && error.is_none() && !text::same(m.kind.as_str(), "ssl");
    let invalid = if shown && !old_invalid_alerted {
        Some(alert(m, days_remaining, None, error, checked_at))
    } else {
        None
    };
    let invalid_alerted = if shown {
        true
    } else if is_valid {
        false
    } else {
        old_invalid_alerted
    };
    let mut expiring: Option<AlertCtx> = None;
    let mut alerted_days = old_alerted;
    if let Some(days) = days_remaining {
        let list = read_thresholds(m.ssl_alert_days.as_str());
        let d = alerts::tier(days, list.as_slice(), old_alerted);
        alerted_days = d.new_alerted_days;
        if d.fire {
            expiring = Some(alert(m, Some(days), None, error, checked_at));
        }
    }
    SslAlerts { invalid, expiring, alerted_days, invalid_alerted }
}

/// The alert of a domain check, and what to remember of it.
#[derive(Clone, Debug)]
pub struct DomainAlert {
    pub expiring: Option<AlertCtx>,
    pub alerted_days: Option<i64>,
}

/// `r` is what a domain check calls for.
pub open spec fn domain_alert(
    r: DomainAlert,
    m: Monitor,
    days_remaining: Option<i64>,
    old_alerted: Option<i64>,
    checked_at: Ts,
) -> bool {
    &&& match days_remaining {
        Some(days) => alerts::decides(
            days,
            thresholds(m.domain_alert_days@),
            old_alerted,
            TierDecision { fire: r.expiring is Some, new_alerted_days: r.alerted_days },
        ),
        None => r.expiring is None && r.alerted_days == old_alerted,
    }
    &&& r.expiring matches Some(ctx) ==> is_alert(ctx, m, None, days_remaining, None, checked_at)
}

/// Decides the alert of a domain check.
pub fn evaluate_domain_alerts(
    m: &Monitor,
    days_remaining: Option<i64>,
    old_alerted: Option<i64>,
    checked_at: Ts,
) -> (r: DomainAlert)
    ensures
        domain_alert(r, *m, days_remaining, old_alerted, checked_at),
{
    match days_remaining {
        None => DomainAlert { expiring: None, alerted_days: old_alerted },
        Some(days) => {
            let list = read_thresholds(m.domain_alert_days.as_str());
            let d = alerts::tier(days, list.as_slice(), old_alerted);
            let expiring = if d.fire {
                Some(alert(m, None, Some(days), &None, checked_at))
            } else {
                None
            };
            DomainAlert { expiring, alerted_days: d.new_alerted_days }
        },
    }
}

// ---- refreshes ----

/// What was remembered of a monitor's certificate alerts: nothing where no check is stored.
pub open spec fn remembered(row: Option<(Option<i64>, i64)>) -> (Option<i64>, bool) {
    match row {
        Some((a, inv)) => (a, inv != 0),
        None => (None, false),
    }
}

/// `r` is what a refresh does with a certificate check: its alerts, or, while this machine is
/// offline, none, with what was remembered carried on.
pub open spec fn refreshed_ssl(
    r: SslAlerts,
    m: Monitor,
    check: SslResult,
    row: Option<(Option<i64>, i64)>,
    anchor: Connectivity,
    checked_at: Ts,
) -> bool {
    let (alerted, invalid) = remembered(row);
    if anchor == Connectivity::Offline {
        r.invalid is None && r.expiring is None && r.alerted_days == alerted && r.invalid_alerted
            == invalid
    } else {
        ssl_alerts(
            r,
            m,
            check.days_remaining,
            check.is_valid,
            check.error,
            alerted,
            invalid,
            checked_at,
        )
    }
}

/// Decides the alerts of a refreshed certificate and what to store of them. The stored check itself
/// never touches what was alerted.
pub fn refresh_ssl(
    m: &Monitor,
    check: &SslResult,
    row: Option<(Option<i64>, i64)>,
    anchor: Connectivity,
    checked_at: Ts,
) -> (r: SslAlerts)
    ensures
        refreshed_ssl(r, *m, *check, row, anchor, checked_at),
{
    let (alerted, invalid): (Option<i64>, bool) = match row {
        Some((a, inv)) => (a, inv != 0),
        None => (None, false),
    };
    if anchor == Connectivity::Offline {
        return SslAlerts {
            invalid: None,
            expiring: None,
            alerted_days: alerted,
            invalid_alerted: invalid,
        };
    }
    evaluate_ssl_alerts(
        m,
        check.days_remaining,
        check.is_valid,
        &check.error,
        alerted,
        invalid,
        checked_at,
    )
}

/// The check of a monitor that has nothing to check.
pub fn no_target() -> (r: SslResult)
    ensures
        r.failed_with("no ssl target configured for this monitor"@),
{
    SslResult::error("no ssl target configured for this monitor")
}

/// What a domain refresh stores.
#[derive(Clone, Debug)]
pub struct DomainStore {
    pub days_remaining: Option<i64>,
    /// A JSON array.
    pub name_servers: String,
    /// A JSON array.
    pub status_codes: String,
    pub alert: DomainAlert,
}

/// Days until an expiry, rounded down.
pub open spec fn days_left(expiry: Option<i64>, now: int) -> Option<i64> {
    match expiry {
        Some(e) => Some(((e - now) / (clock::DAY_SECONDS as int)) as i64),
        None => None,
    }
}

/// `r` is what a refresh does with a domain check: nothing but advance the clock after a transient
/// failure, and otherwise the data, with its alert unless this machine is offline.
pub open spec fn refreshed_domain(
    r: Option<DomainStore>,
    m: Monitor,
    check: DomainResult,
    old_alerted: Option<i64>,
    anchor: Connectivity,
    checked_at: Ts,
) -> bool {
    match r {
        None => check.transient,
        Some(s) => {
            &&& !check.transient
            &&& s.days_remaining == days_left(check.expiry_date, checked_at as int)
            &&& s.name_servers@ == json::quoted_array(text::views(check.name_servers@))
            &&& s.status_codes@ == json::quoted_array(text::views(check.status_codes@))
            &&& if anchor == Connectivity::Offline {
                s.alert.expiring is None && s.alert.alerted_days == old_alerted
            } else {
                domain_alert(s.alert, m, s.days_remaining, old_alerted, checked_at)
            }
        },
    }
}

/// Decides what a domain refresh stores, if anything.
pub fn refresh_domain(
    m: &Monitor,
    check: &DomainResult,
    old_alerted: Option<i64>,
    anchor: Connectivity,
    checked_at: Ts,
) -> (r: Option<DomainStore>)
    ensures
        refreshed_domain(r, *m, *check, old_alerted, anchor, checked_at),
{
    if check.transient {
        return None;
    }
    let days_remaining = match check.expiry_date {
        Some(e) => Some(clock::days_until(e, checked_at)),
        None => None,
    };
    let alert = if anchor == Connectivity::Offline {
        DomainAlert { expiring: None, alerted_days: old_alerted }
    } else {
        evaluate_domain_alerts(m, days_remaining, old_alerted, checked_at)
    };
    Some(
        DomainStore {
            days_remaining,
            name_servers: json::quote_all(&check.name_servers),
            status_codes: json::quote_all(&check.status_codes),
            alert,
        },
    )
}

/// `r` is the time before which a check is old, where the clock reaches it.
pub open spec fn is_cutoff(now: int, interval_seconds: int, r: Option<Ts>) -> bool {
    &&& r is Some <==> i64::MIN <= now - interval_seconds <= i64::MAX
    &&& r matches Some(t) ==> t == now - interval_seconds
}

/// The time before which a last check makes a monitor due, where the interval fits the clock.
pub fn cutoff(now: Ts, interval_seconds: i64) -> (r: Option<Ts>)
    ensures
        is_cutoff(now as int, interval_seconds as int, r),
{
    now.checked_sub(interval_seconds)
}

/// `r` is how long a check may take.
pub open spec fn is_timeout(timeout_seconds: int, r: u64) -> bool {
    &&& r == if timeout_seconds > 1 {
        timeout_seconds
    } else {
        1
    }
}

/// How long a check may take: at least a second.
pub fn check_timeout(timeout_seconds: i64) -> (r: u64)
    ensures
        is_timeout(timeout_seconds as int, r),
{
    if timeout_seconds > 1 {
        timeout_seconds as u64
    } else {
        1
    }
}

// ---- laws ----

/// An invalid certificate is alerted once: a second check that finds the same fires nothing, and a
/// valid one in between starts afresh.
pub proof fn law_invalid_alert_fires_once(
    m: Monitor,
    is_valid: bool,
    error: Option<String>,
    days: Option<i64>,
    old_alerted: Option<i64>,
    old_invalid: bool,
    t1: Ts,
    t2: Ts,
    first: SslAlerts,
    second: SslAlerts,
)
    requires
        ssl_alerts(first, m, days, is_valid, error, old_alerted, old_invalid, t1),
        ssl_alerts(
            second,
            m,
            days,
            is_valid,
            error,
            first.alerted_days,
            first.invalid_alerted,
            t2,
        ),
    ensures
        second.invalid is None,
        first.expiring is Some ==> second.expiring is None,
        is_valid ==> !first.invalid_alerted,
{
    if first.expiring is Some {
        alerts::law_fires_once(
            days->0,
            thresholds(m.ssl_alert_days@),
            old_alerted,
            TierDecision { fire: true, new_alerted_days: first.alerted_days },
            TierDecision { fire: second.expiring is Some, new_alerted_days: second.alerted_days },
        );
    }
}

/// While this machine is offline a refresh alerts nobody and forgets nothing.
pub proof fn law_offline_refresh_changes_no_alert(
    m: Monitor,
    check: SslResult,
    row: Option<(Option<i64>, i64)>,
    checked_at: Ts,
    r: SslAlerts,
)
    requires
        refreshed_ssl(r, m, check, row, Connectivity::Offline, checked_at),
    ensures
        r.invalid is None && r.expiring is None,
        (r.alerted_days, r.invalid_alerted) == remembered(row),
{
}

/// An alert about a certificate or a domain says whom it is about, by name and by address or else by
/// host, the days, the error, and when it was found.
pub proof fn law_alert_says_whom_it_is_about(
    ctx: AlertCtx,
    m: Monitor,
    ssl_days: Option<i64>,
    domain_days: Option<i64>,
    error: Option<Seq<char>>,
    checked_at: Ts,
)
    requires
        is_alert(ctx, m, ssl_days, domain_days, error, checked_at),
    ensures
        ctx.monitor_name@ == m.name@,
        m.url matches Some(u) ==> ctx.url@ == u@,
        m.url is None && m.host is Some ==> ctx.url@ == m.host->0@,
        m.url is None && m.host is None ==> ctx.url@.len() == 0,
        ctx.ssl_days == ssl_days,
        ctx.domain_days == domain_days,
        ctx.error is Some <==> error is Some,
        ctx.error matches Some(e) ==> e@ == error->0,
        ctx.checked_at == checked_at,
{
}

/// An invalid certificate is alerted where it was captured, the monitor does not report it by itself,
/// and it was not alerted before; the alert is remembered until a valid one is seen, and a check that
/// captured nothing changes nothing of that.
pub proof fn law_invalid_certificates(
    r: SslAlerts,
    m: Monitor,
    days: Option<i64>,
    is_valid: bool,
    error: Option<String>,
    old_alerted: Option<i64>,
    old_invalid: bool,
    checked_at: Ts,
)
    requires
        ssl_alerts(r, m, days, is_valid, error, old_alerted, old_invalid, checked_at),
    ensures
        r.invalid is Some <==> !is_valid && error is None && m.kind@ != "ssl"@ && !old_invalid,
        is_valid ==> !r.invalid_alerted,
        !is_valid && error is Some ==> r.invalid_alerted == old_invalid,
        !is_valid && error is None && m.kind@ != "ssl"@ ==> r.invalid_alerted,
        m.kind@ == "ssl"@ && !is_valid ==> r.invalid_alerted == old_invalid,
        r.invalid matches Some(ctx) ==> ctx.monitor_name@ == m.name@ && ctx.ssl_days == days
            && ctx.domain_days is None && ctx.checked_at == checked_at,
{
}

/// A certificate's expiry is alerted by the certificate thresholds and its own days, once they are
/// known; the alert carries the days.
pub proof fn law_expiring_certificates(
    r: SslAlerts,
    m: Monitor,
    days: Option<i64>,
    is_valid: bool,
    error: Option<String>,
    old_alerted: Option<i64>,
    old_invalid: bool,
    checked_at: Ts,
    t: i64,
)
    requires
        ssl_alerts(r, m, days, is_valid, error, old_alerted, old_invalid, checked_at),
    ensures
        days is None ==> r.expiring is None && r.alerted_days == old_alerted,
        days matches Some(d) ==> old_alerted is None && thresholds(m.ssl_alert_days@).contains(t) && d
            <= t ==> r.expiring is Some,
        days matches Some(d) ==> (old_alerted matches Some(a) ==> d > a ==> r.expiring is None
            && r.alerted_days is None),
        r.expiring is Some ==> r.alerted_days is Some && thresholds(m.ssl_alert_days@).contains(
            r.alerted_days->0,
        ) && days->0 <= r.alerted_days->0,
        r.expiring matches Some(ctx) ==> ctx.monitor_name@ == m.name@ && ctx.ssl_days == days
            && ctx.domain_days is None && ctx.checked_at == checked_at,
{
    if let Some(d) = days {
        alerts::law_crossed_thresholds_fire(
            d,
            thresholds(m.ssl_alert_days@),
            old_alerted,
            TierDecision { fire: r.expiring is Some, new_alerted_days: r.alerted_days },
            t,
        );
    }
}

/// A registration's expiry is alerted by the domain thresholds and its own days, once they are known;
/// the alert carries the days.
pub proof fn law_expiring_domains(
    r: DomainAlert,
    m: Monitor,
    days: Option<i64>,
    old_alerted: Option<i64>,
    checked_at: Ts,
    t: i64,
)
    requires
        domain_alert(r, m, days, old_alerted, checked_at),
    ensures
        days is None ==> r.expiring is None && r.alerted_days == old_alerted,
        days matches Some(d) ==> old_alerted is None && thresholds(m.domain_alert_days@).contains(t)
            && d <= t ==> r.expiring is Some,
        days matches Some(d) ==> (old_alerted matches Some(a) ==> d > a ==> r.expiring is None
            && r.alerted_days is None),
        r.expiring is Some ==> r.alerted_days is Some && thresholds(m.domain_alert_days@).contains(
            r.alerted_days->0,
        ) && days->0 <= r.alerted_days->0,
        r.expiring matches Some(ctx) ==> ctx.monitor_name@ == m.name@ && ctx.domain_days == days
            && ctx.ssl_days is None && ctx.error is None && ctx.checked_at == checked_at,
{
    if let Some(d) = days {
        alerts::law_crossed_thresholds_fire(
            d,
            thresholds(m.domain_alert_days@),
            old_alerted,
            TierDecision { fire: r.expiring is Some, new_alerted_days: r.alerted_days },
            t,
        );
    }
}

/// While this machine is online a refresh alerts by what it found and by what is stored: nothing was
/// alerted before where nothing is stored, and the flag is set where its column is not zero.
pub proof fn law_online_refresh(
    m: Monitor,
    check: SslResult,
    row: Option<(Option<i64>, i64)>,
    checked_at: Ts,
    r: SslAlerts,
)
    requires
        refreshed_ssl(r, m, check, row, Connectivity::Online, checked_at),
    ensures
        row is None ==> ssl_alerts(
            r,
            m,
            check.days_remaining,
            check.is_valid,
            check.error,
            None,
            false,
            checked_at,
        ),
        row matches Some((a, f)) ==> ssl_alerts(
            r,
            m,
            check.days_remaining,
            check.is_valid,
            check.error,
            a,
            f != 0,
            checked_at,
        ),
{
}

/// A failure that is to be retried stores nothing of a registration; any other answer is stored, with
/// the whole days until its expiry rounded down, and alerts nobody while this machine is offline.
pub proof fn law_domain_refresh(
    r: Option<DomainStore>,
    m: Monitor,
    check: DomainResult,
    old_alerted: Option<i64>,
    anchor: Connectivity,
    checked_at: Ts,
)
    requires
        refreshed_domain(r, m, check, old_alerted, anchor, checked_at),
    ensures
        r is None <==> check.transient,
        r matches Some(s) ==> {
            &&& s.days_remaining is Some <==> check.expiry_date is Some
            &&& (anchor == Connectivity::Offline ==> s.alert.expiring is None
                && s.alert.alerted_days == old_alerted)
            &&& (anchor == Connectivity::Online ==> domain_alert(
                s.alert,
                m,
                s.days_remaining,
                old_alerted,
                checked_at,
            ))
            &&& s.name_servers@ == json::quoted_array(text::views(check.name_servers@))
            &&& s.status_codes@ == json::quoted_array(text::views(check.status_codes@))
        },
{
}

/// The days until an expiry are the whole days that are left; once it is past they are negative.
pub proof fn law_days_left(expiry: i64, now: i64)
    ensures
        days_left(None, now as int) is None,
        days_left(Some(expiry), now as int) matches Some(d) && d * 86400 <= expiry - now < (d + 1)
            * 86400,
        expiry < now ==> days_left(Some(expiry), now as int)->0 < 0,
{
    let d = (expiry - now) / 86400;
    assert(i64::MIN <= d <= i64::MAX);
}

/// A certificate monitor serves its certificate at its own host, at its port or the usual one; any
/// other at its address, and only where that is secure.
pub proof fn law_where_certificates_are(m: Monitor)
    ensures
        m.kind@ == "ssl"@ && m.host is Some && m.host->0@.len() > 0 ==> certificate_target(m) is Some
            && (certificate_target(m)->0).0 == m.host->0@ && (m.port is None ==> (
        certificate_target(m)->0).1 == 443) && (m.port matches Some(p) ==> 0 <= p <= 65535 ==> (
        certificate_target(m)->0).1 == p),
        m.kind@ == "ssl"@ && (m.host is None || m.host->0@.len() == 0) ==> certificate_target(m)
            is None,
        m.kind@ != "ssl"@ && m.url is None ==> certificate_target(m) is None,
        m.kind@ != "ssl"@ && certificate_target(m) is Some ==> url_of(m.url->0@) is Some && (url_of(
            m.url->0@,
        )->0).0 == "https"@ && (url_of(m.url->0@)->0).1 == Some((certificate_target(m)->0).0),
{
}

/// A registration is that of a monitor's own host where it names one, and of its address's otherwise.
pub proof fn law_whose_registration(m: Monitor)
    ensures
        m.host is Some && m.host->0@.len() > 0 ==> registration_host(m) == Some(m.host->0@),
        (m.host is None || m.host->0@.len() == 0) && m.url is None ==> registration_host(m) is None,
        (m.host is None || m.host->0@.len() == 0) && m.url is Some && url_of(m.url->0@) is Some
            ==> registration_host(m) == (url_of(m.url->0@)->0).1,
{
}

/// A check is old once its interval has passed since; the time is told wherever the clock reaches it.
pub proof fn law_checks_grow_old(now: i64, interval_seconds: i64, r: Option<Ts>)
    requires
        is_cutoff(now as int, interval_seconds as int, r),
    ensures
        r matches Some(t) ==> t + interval_seconds == now,
        now >= 0 && interval_seconds >= 0 ==> r is Some,
{
}

/// A check may take as long as its monitor says, and never less than a second.
pub proof fn law_checks_have_a_second(timeout_seconds: i64, r: u64)
    requires
        is_timeout(timeout_seconds as int, r),
    ensures
        r >= 1,
        timeout_seconds >= 1 ==> r == timeout_seconds,
        timeout_seconds < 1 ==> r == 1,
{
}

} // verus!
