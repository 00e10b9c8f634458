//! Requests about monitors: what a monitor must have, how a change applies, and the figures of its
//! tiles.

use vstd::prelude::*;

use crate::api;
use crate::api::{invalid, ApiError};
use crate::app::SchedCmd;
use crate::heartbeat;
use crate::json;
use crate::models::{
    test_defaults_monitor, CreateMonitorDto, Monitor, Status, Ts, UpdateMonitorDto,
};
use crate::text;
use crate::uptime;
use crate::uptime::{Span, Uptime};

verus! {

/// The shortest interval between checks.
pub const MIN_INTERVAL_SECONDS: i64 = 15;

/// A text is missing, or white space alone.
pub open spec fn is_blank(s: Option<String>) -> bool {
    match s {
        Some(t) => text::trimmed(t@).len() == 0,
        None => true,
    }
}

fn blank(s: &Option<String>) -> (r: bool)
    ensures
        r == is_blank(*s),
{
    match s {
        Some(t) => {
            let trimmed = text::trim(t.as_str());
            trimmed.as_str().is_empty()
        },
        None => true,
    }
}

/// What a monitor of a type lacks, if anything: the first of what its type needs.
pub open spec fn monitor_error(
    kind: Seq<char>,
    url: Option<String>,
    host: Option<String>,
    port: Option<i64>,
    keyword: Option<String>,
    keyword_mode: Option<String>,
    dns_record_type: Option<String>,
) -> Option<Seq<char>> {
    if kind == "keyword"@ {
        if is_blank(url) {
            Some("url is required"@)
        } else if is_blank(keyword) {
            Some("keyword is required"@)
        } else if is_blank(keyword_mode) {
            Some("keyword_mode is required"@)
        } else {
            None
        }
    } else if kind == "port"@ {
        if is_blank(host) {
            Some("host is required"@)
        } else if port is None {
            Some("port is required"@)
        } else {
            None
        }
    } else if kind == "ping"@ {
        if is_blank(host) {
            Some("host is required"@)
        } else {
            None
        }
    } else if kind == "dns"@ {
        if is_blank(host) {
            Some("host is required"@)
        } else if is_blank(dns_record_type) {
            Some("dns_record_type is required"@)
        } else {
            None
        }
    } else if is_blank(url) {
        Some("url is required"@)
    } else {
        None
    }
}

/// Whether a monitor has what its type needs. A type that is not known needs an address.
pub fn validate_monitor_dto(
    kind: &str,
    url: &Option<String>,
    host: &Option<String>,
    port: &Option<i64>,
    keyword: &Option<String>,
    keyword_mode: &Option<String>,
    dns_record_type: &Option<String>,
) -> (r: Result<(), String>)
    ensures
        match r {
            Ok(_) => monitor_error(
                kind@,
                *url,
                *host,
                *port,
                *keyword,
                *keyword_mode,
                *dns_record_type,
            ) is None,
            Err(e) => monitor_error(
                kind@,
                *url,
                *host,
                *port,
                *keyword,
                *keyword_mode,
                *dns_record_type,
            ) == Some(e@),
        },
{
    if text::same(kind, "keyword") {
        if blank(url) {
            return Err(text::own("url is required"));
        }
        if blank(keyword) {
            return Err(text::own("keyword is required"));
        }
        if blank(keyword_mode) {
            return Err(text::own("keyword_mode is required"));
        }
    } else if text::same(kind, "port") {
        if blank(host) {
            return Err(text::own("host is required"));
        }
        if port.is_none() {
            return Err(text::own("port is required"));
        }
    } else if text::same(kind, "ping") {
        if blank(host) {
            return Err(text::own("host is required"));
        }
    } else if text::same(kind, "dns") {
        if blank(host) {
            return Err(text::own("host is required"));
        }
        if blank(dns_record_type) {
            return Err(text::own("dns_record_type is required"));
        }
    } else if blank(url) {
        return Err(text::own("url is required"));
    }
    Ok(())
}

/// What is wrong with a request to create a monitor, if anything.
pub open spec fn create_error(dto: CreateMonitorDto) -> Option<Seq<char>> {
    match monitor_error(
        dto.kind@,
        dto.url,
        dto.host,
        dto.port,
        dto.keyword,
        dto.keyword_mode,
        dto.dns_record_type,
    ) {
        Some(e) => Some(e),
        None => if dto.interval_seconds < MIN_INTERVAL_SECONDS {
            Some("interval must be >= 15s"@)
        } else {
            None
        },
    }
}

/// `r` says whether a monitor may be created.
pub open spec fn is_creatable(r: Result<(), ApiError>, dto: CreateMonitorDto) -> bool {
    match r {
        Ok(_) => create_error(dto) is None,
        Err(e) => create_error(dto) is Some && api::refuses(
            e,
            api::UNPROCESSABLE,
            create_error(dto)->0,
        ),
    }
}

/// Whether a monitor may be created.
pub fn create(dto: &CreateMonitorDto) -> (r: Result<(), ApiError>)
    ensures
        is_creatable(r, *dto),
{
    match validate_monitor_dto(
        dto.kind.as_str(),
        &dto.url,
        &dto.host,
        &dto.port,
        &dto.keyword,
        &dto.keyword_mode,
        &dto.dns_record_type,
    ) {
        Err(message) => Err(invalid(message)),
        Ok(_) => if dto.interval_seconds < MIN_INTERVAL_SECONDS {
            Err(invalid(text::own("interval must be >= 15s")))
        } else {
            Ok(())
        },
    }
}

/// The secret that a new monitor is given: a heartbeat monitor gets a new one, and no other has any.
pub fn new_token(kind: &str) -> (r: Option<String>)
    ensures
        r is Some <==> kind@ == "heartbeat"@,
        r matches Some(token) ==> heartbeat::is_token(token@),
{
    if text::same(kind, "heartbeat") {
        Some(heartbeat::generate_token())
    } else {
        None
    }
}

/// A value, or the one that it replaces where it is absent.
pub open spec fn either<T>(new: Option<T>, existing: T) -> T {
    match new {
        Some(v) => v,
        None => existing,
    }
}

/// An optional value, or the one that it replaces where it is absent.
pub open spec fn either_opt<T>(new: Option<T>, existing: Option<T>) -> Option<T> {
    match new {
        Some(v) => Some(v),
        None => existing,
    }
}

fn pick<T>(new: Option<T>, existing: T) -> (r: T)
    ensures
        r == either(new, existing),
{
    match new {
        Some(v) => v,
        None => existing,
    }
}

fn pick_opt<T>(new: Option<T>, existing: Option<T>) -> (r: Option<T>)
    ensures
        r == either_opt(new, existing),
{
    match new {
        Some(v) => Some(v),
        None => existing,
    }
}

/// A monitor with a change applied: what the request names, and the time of the change. The type
/// is never changed.
pub open spec fn merged(existing: Monitor, dto: UpdateMonitorDto, ts: Ts) -> Monitor {
    Monitor {
        name: either(dto.name, existing.name),
        url: either_opt(dto.url, existing.url),
        method: either(dto.method, existing.method),
        headers: either_opt(dto.headers, existing.headers),
        body: either_opt(dto.body, existing.body),
        auth_type: either_opt(dto.auth_type, existing.auth_type),
        auth_ref: either_opt(dto.auth_ref, existing.auth_ref),
        expected_status_codes: either(dto.expected_status_codes, existing.expected_status_codes),
        interval_seconds: either(dto.interval_seconds, existing.interval_seconds),
        timeout_seconds: either(dto.timeout_seconds, existing.timeout_seconds),
        follow_redirects: either(dto.follow_redirects, existing.follow_redirects),
        verify_ssl: either(dto.verify_ssl, existing.verify_ssl),
        confirmation_threshold: either(dto.confirmation_threshold, existing.confirmation_threshold),
        recovery_threshold: either(dto.recovery_threshold, existing.recovery_threshold),
        retry_interval_seconds: either(dto.retry_interval_seconds, existing.retry_interval_seconds),
        host: either_opt(dto.host, existing.host),
        port: either_opt(dto.port, existing.port),
        keyword: either_opt(dto.keyword, existing.keyword),
        keyword_mode: either_opt(dto.keyword_mode, existing.keyword_mode),
        keyword_case_sensitive: either(dto.keyword_case_sensitive, existing.keyword_case_sensitive),
        dns_record_type: either_opt(dto.dns_record_type, existing.dns_record_type),
        dns_expected_value: either_opt(dto.dns_expected_value, existing.dns_expected_value),
        updated_at: ts,
        ..existing
    }
}

/// What is wrong with a request to change a monitor, if anything.
pub open spec fn update_error(existing: Monitor, dto: UpdateMonitorDto) -> Option<Seq<char>> {
    if dto.interval_seconds is Some && dto.interval_seconds->0 < MIN_INTERVAL_SECONDS {
        Some("interval must be >= 15s"@)
    } else {
        let m = merged(existing, dto, 0);
        monitor_error(
            m.kind@,
            m.url,
            m.host,
            m.port,
            m.keyword,
            m.keyword_mode,
            m.dns_record_type,
        )
    }
}

/// `r` is what a change of a monitor comes to: the changed monitor, or why it is refused.
pub open spec fn is_updated(
    r: Result<Monitor, ApiError>,
    existing: Monitor,
    dto: UpdateMonitorDto,
    ts: Ts,
) -> bool {
    match r {
        Ok(m) => update_error(existing, dto) is None && m == merged(existing, dto, ts),
        Err(e) => update_error(existing, dto) is Some && api::refuses(
            e,
            api::UNPROCESSABLE,
            update_error(existing, dto)->0,
        ),
    }
}

/// Applies a change to a monitor: what the request leaves out stays as it is, and the monitor that
/// results must have what its type needs.
pub fn update(existing: Monitor, dto: UpdateMonitorDto, ts: Ts) -> (r: Result<Monitor, ApiError>)
    ensures
        is_updated(r, existing, dto, ts),
{
    if let Some(interval) = dto.interval_seconds {
        if interval < MIN_INTERVAL_SECONDS {
            return Err(invalid(text::own("interval must be >= 15s")));
        }
    }
    let m = Monitor {
        id: existing.id,
        name: pick(dto.name, existing.name),
        kind: existing.kind,
        url: pick_opt(dto.url, existing.url),
        method: pick(dto.method, existing.method),
        headers: pick_opt(dto.headers, existing.headers),
        body: pick_opt(dto.body, existing.body),
        auth_type: pick_opt(dto.auth_type, existing.auth_type),
        auth_ref: pick_opt(dto.auth_ref, existing.auth_ref),
        expected_status_codes: pick(dto.expected_status_codes, existing.expected_status_codes),
        interval_seconds: pick(dto.interval_seconds, existing.interval_seconds),
        timeout_seconds: pick(dto.timeout_seconds, existing.timeout_seconds),
        follow_redirects: pick(dto.follow_redirects, existing.follow_redirects),
        verify_ssl: pick(dto.verify_ssl, existing.verify_ssl),
        confirmation_threshold: pick(dto.confirmation_threshold, existing.confirmation_threshold),
        recovery_threshold: pick(dto.recovery_threshold, existing.recovery_threshold),
        retry_interval_seconds: pick(dto.retry_interval_seconds, existing.retry_interval_seconds),
        host: pick_opt(dto.host, existing.host),
        port: pick_opt(dto.port, existing.port),
        keyword: pick_opt(dto.keyword, existing.keyword),
        keyword_mode: pick_opt(dto.keyword_mode, existing.keyword_mode),
        keyword_case_sensitive: pick(dto.keyword_case_sensitive, existing.keyword_case_sensitive),
        dns_record_type: pick_opt(dto.dns_record_type, existing.dns_record_type),
        dns_expected_value: pick_opt(dto.dns_expected_value, existing.dns_expected_value),
        ssl_check_enabled: existing.ssl_check_enabled,
        ssl_alert_days: existing.ssl_alert_days,
        domain_check_enabled: existing.domain_check_enabled,
        domain_alert_days: existing.domain_alert_days,
        heartbeat_token: existing.heartbeat_token,
        heartbeat_grace_seconds: existing.heartbeat_grace_seconds,
        last_ping_at: existing.last_ping_at,
        status: existing.status,
        is_paused: existing.is_paused,
        last_checked_at: existing.last_checked_at,
        next_run_at: existing.next_run_at,
        consecutive_failures: existing.consecutive_failures,
        consecutive_successes: existing.consecutive_successes,
        tags: existing.tags,
        sort_order: existing.sort_order,
        created_at: existing.created_at,
        updated_at: ts,
    };
    match validate_monitor_dto(
        m.kind.as_str(),
        &m.url,
        &m.host,
        &m.port,
        &m.keyword,
        &m.keyword_mode,
        &m.dns_record_type,
    ) {
        Err(message) => Err(invalid(message)),
        Ok(_) => Ok(m),
    }
}

/// A change that names nothing and applies to a valid monitor leaves everything but the time of
/// the change.
pub proof fn law_empty_change_keeps_the_monitor(existing: Monitor, dto: UpdateMonitorDto, ts: Ts)
    requires
        dto.name is None,
        dto.url is None,
        dto.method is None,
        dto.headers is None,
        dto.body is None,
        dto.auth_type is None,
        dto.auth_ref is None,
        dto.expected_status_codes is None,
        dto.interval_seconds is None,
        dto.timeout_seconds is None,
        dto.follow_redirects is None,
        dto.verify_ssl is None,
        dto.confirmation_threshold is None,
        dto.recovery_threshold is None,
        dto.retry_interval_seconds is None,
        dto.host is None,
        dto.port is None,
        dto.keyword is None,
        dto.keyword_mode is None,
        dto.keyword_case_sensitive is None,
        dto.dns_record_type is None,
        dto.dns_expected_value is None,
    ensures
        merged(existing, dto, ts) == (Monitor { updated_at: ts, ..existing }),
{
}

/// A change never moves a monitor to another type, nor touches what checks record of it.
pub proof fn law_change_keeps_type_and_state(existing: Monitor, dto: UpdateMonitorDto, ts: Ts)
    ensures
        merged(existing, dto, ts).id == existing.id,
        merged(existing, dto, ts).kind == existing.kind,
        merged(existing, dto, ts).status == existing.status,
        merged(existing, dto, ts).is_paused == existing.is_paused,
        merged(existing, dto, ts).consecutive_failures == existing.consecutive_failures,
        merged(existing, dto, ts).consecutive_successes == existing.consecutive_successes,
        merged(existing, dto, ts).heartbeat_token == existing.heartbeat_token,
{
}

/// What pausing or resuming stores, and what the scheduler is told.
#[derive(Clone, Copy, Debug)]
pub struct PauseChange {
    pub is_paused: bool,
    pub status: Status,
    /// The next check, where it changes.
    pub next_run_at: Option<Ts>,
    pub command: SchedCmd,
}

/// `r` pauses a monitor.
pub open spec fn pauses(r: PauseChange, id: i64) -> bool {
    &&& r.is_paused
    &&& r.status == Status::Paused
    &&& r.next_run_at is None
    &&& r.command == SchedCmd::Remove(id)
}

/// `r` resumes a monitor.
pub open spec fn resumes(r: PauseChange, id: i64) -> bool {
    &&& !r.is_paused
    &&& r.status == Status::Pending
    &&& r.next_run_at == Some(0i64)
    &&& r.command == SchedCmd::Upsert(id)
}

/// Pauses a monitor: it is taken off the schedule.
pub fn pause(id: i64) -> (r: PauseChange)
    ensures
        pauses(r, id),
{
    PauseChange {
        is_paused: true,
        status: Status::Paused,
        next_run_at: None,
        command: SchedCmd::Remove(id),
    }
}

/// Resumes a monitor: it is checked at once.
pub fn resume(id: i64) -> (r: PauseChange)
    ensures
        resumes(r, id),
{
    PauseChange {
        is_paused: false,
        status: Status::Pending,
        next_run_at: Some(0),
        command: SchedCmd::Upsert(id),
    }
}

/// `r` is the monitor that a trial probe uses.
pub open spec fn is_trial(r: Monitor, dto: CreateMonitorDto) -> bool {
    &&& r.id == 0
    &&& r.name == dto.name
    &&& r.kind == dto.kind
    &&& r.url == dto.url
    &&& r.method == dto.method
    &&& r.headers == dto.headers
    &&& r.body == dto.body
    &&& r.auth_type == dto.auth_type
    &&& r.auth_ref == dto.auth_ref
    &&& r.expected_status_codes == dto.expected_status_codes
    &&& r.timeout_seconds == dto.timeout_seconds
    &&& r.follow_redirects == dto.follow_redirects
    &&& r.verify_ssl == dto.verify_ssl
    &&& r.host == dto.host
    &&& r.port == dto.port
    &&& r.keyword == dto.keyword
    &&& r.keyword_mode == dto.keyword_mode
    &&& r.keyword_case_sensitive == dto.keyword_case_sensitive
    &&& r.dns_record_type == dto.dns_record_type
    &&& r.dns_expected_value == dto.dns_expected_value
    &&& r.interval_seconds == 300
    &&& r.confirmation_threshold == 3
    &&& r.recovery_threshold == 1
    &&& r.retry_interval_seconds == 30
    &&& !r.ssl_check_enabled
    &&& r.ssl_alert_days@ == "[30,14,7,3,1]"@
    &&& !r.domain_check_enabled
    &&& r.domain_alert_days@ == "[45,30,14,7]"@
    &&& r.heartbeat_token is None
    &&& r.heartbeat_grace_seconds == 60
    &&& r.last_ping_at is None
    &&& r.status == Status::Pending
    &&& !r.is_paused
    &&& r.last_checked_at is None
    &&& r.next_run_at is None
    &&& r.consecutive_failures == 0
    &&& r.consecutive_successes == 0
    &&& r.tags is None
    &&& r.sort_order == 0
    &&& r.created_at == 0
    &&& r.updated_at == 0
}

/// The monitor that a trial probe uses: the request's values over the defaults.
pub fn test_check(dto: CreateMonitorDto) -> (r: Monitor)
    ensures
        is_trial(r, dto),
{
    let mut m = test_defaults_monitor();
    m.name = dto.name;
    m.kind = dto.kind;
    m.url = dto.url;
    m.method = dto.method;
    m.headers = dto.headers;
    m.body = dto.body;
    m.auth_type = dto.auth_type;
    m.auth_ref = dto.auth_ref;
    m.expected_status_codes = dto.expected_status_codes;
    m.timeout_seconds = dto.timeout_seconds;
    m.follow_redirects = dto.follow_redirects;
    m.verify_ssl = dto.verify_ssl;
    m.host = dto.host;
    m.port = dto.port;
    m.keyword = dto.keyword;
    m.keyword_mode = dto.keyword_mode;
    m.keyword_case_sensitive = dto.keyword_case_sensitive;
    m.dns_record_type = dto.dns_record_type;
    m.dns_expected_value = dto.dns_expected_value;
    m
}

// ---- notifications ----

/// A channel that a monitor notifies, and on which triggers.
#[derive(Clone, Debug)]
pub struct MonitorNotification {
    pub channel_id: i64,
    pub triggers: Vec<String>,
}

/// The triggers of a stored list; none where it is no JSON array of strings.
pub open spec fn triggers_of(raw: Seq<char>) -> Seq<Seq<char>> {
    match json::json_strings(raw) {
        Some(v) => v,
        None => Seq::empty(),
    }
}

/// Reads a stored attachment.
pub fn list_notification(channel_id: i64, triggers: &str) -> (r: MonitorNotification)
    ensures
        r.channel_id == channel_id,
        text::views(r.triggers@) == triggers_of(triggers@),
{
    let triggers: Vec<String> = match json::parse_strings(triggers) {
        Some(v) => v,
        None => {
            let none: Vec<String> = Vec::new();
            assert(text::views(none@) =~= Seq::<Seq<char>>::empty());
            none
        },
    };
    MonitorNotification { channel_id, triggers }
}

/// Writes the triggers of an attachment as they are stored. The stored text reads back as the
/// same triggers.
pub fn set_notification(item: &MonitorNotification) -> (r: String)
    ensures
        r@ == json::quoted_array(text::views(item.triggers@)),
        triggers_of(r@) == text::views(item.triggers@),
{
    json::quote_all(&item.triggers)
}

// ---- figures ----

/// Which range of the tiles is asked for.
#[derive(Clone, Debug)]
pub struct StatsQuery {
    pub range: Option<String>,
}

/// The window of the tiles: a week, or else a day.
pub open spec fn stats_window(query: StatsQuery) -> int {
    if text::view_opt(query.range) == Some("7d"@) {
        604800
    } else {
        86400
    }
}

/// Where the window of the tiles starts.
pub fn stats_start(query: &StatsQuery, now: Ts) -> (r: Ts)
    requires
        now - 604800 >= i64::MIN,
    ensures
        r == now - stats_window(*query),
{
    let week = match &query.range {
        Some(s) => text::same(s.as_str(), "7d"),
        None => false,
    };
    if week {
        now - 7 * 86400
    } else {
        now - 86400
    }
}

/// The figures of the tiles.
#[derive(Clone, Copy, Debug, PartialEq, Eq, Structural)]
pub struct Stats {
    pub uptime: Uptime,
    pub incidents: i64,
}

/// `r` holds a monitor's figures over the window of the tiles.
pub open spec fn is_stats(
    r: Stats,
    query: StatsQuery,
    now: Ts,
    spans: Seq<Span>,
    had_any_check: bool,
    maintenance: Seq<(Ts, Ts)>,
) -> bool {
    &&& uptime::reports(
        r.uptime,
        uptime::uptime(spans, now - stats_window(query), now as int, had_any_check, maintenance),
    )
    &&& r.incidents == spans.len()
}

/// The figures of a monitor over the window of the tiles. Every incident that touches the window
/// counts, whenever it started.
pub fn stats(
    query: &StatsQuery,
    now: Ts,
    spans: &Vec<Span>,
    had_any_check: bool,
    maintenance: &[(Ts, Ts)],
) -> (r: Stats)
    requires
        now - 604800 >= i64::MIN,
        spans@.len() * 604800 <= i64::MAX,
    ensures
        is_stats(r, *query, now, spans@, had_any_check, maintenance@),
{
    let start = stats_start(query, now);
    proof {
        let w = stats_window(*query);
        let n: int = spans@.len() as int;
        uptime::lemma_downtime_bound(
            spans@,
            start as int,
            now as int,
            uptime::outside(maintenance@),
        );
        assert(n * w <= n * 604800) by (nonlinear_arith)
            requires
                0 <= n,
                w <= 604800,
        ;
    }
    let uptime = uptime::compute(spans.as_slice(), start, now, had_any_check, maintenance);
    Stats { uptime, incidents: spans.len() as i64 }
}

/// A change that is accepted takes effect on every field that it names.
pub proof fn law_change_takes_effect(
    r: Result<Monitor, ApiError>,
    existing: Monitor,
    dto: UpdateMonitorDto,
    ts: Ts,
    m: Monitor,
)
    requires
        is_updated(r, existing, dto, ts),
        r == Ok::<Monitor, ApiError>(m),
    ensures
        m.updated_at == ts,
        dto.name matches Some(v) ==> m.name == v,
        dto.method matches Some(v) ==> m.method == v,
        dto.expected_status_codes matches Some(v) ==> m.expected_status_codes == v,
        dto.interval_seconds matches Some(v) ==> m.interval_seconds == v,
        dto.timeout_seconds matches Some(v) ==> m.timeout_seconds == v,
        dto.follow_redirects matches Some(v) ==> m.follow_redirects == v,
        dto.verify_ssl matches Some(v) ==> m.verify_ssl == v,
        dto.confirmation_threshold matches Some(v) ==> m.confirmation_threshold == v,
        dto.recovery_threshold matches Some(v) ==> m.recovery_threshold == v,
        dto.retry_interval_seconds matches Some(v) ==> m.retry_interval_seconds == v,
        dto.keyword_case_sensitive matches Some(v) ==> m.keyword_case_sensitive == v,
        dto.url matches Some(v) ==> m.url == Some(v),
        dto.headers matches Some(v) ==> m.headers == Some(v),
        dto.body matches Some(v) ==> m.body == Some(v),
        dto.auth_type matches Some(v) ==> m.auth_type == Some(v),
        dto.auth_ref matches Some(v) ==> m.auth_ref == Some(v),
        dto.host matches Some(v) ==> m.host == Some(v),
        dto.port matches Some(v) ==> m.port == Some(v),
        dto.keyword matches Some(v) ==> m.keyword == Some(v),
        dto.keyword_mode matches Some(v) ==> m.keyword_mode == Some(v),
        dto.dns_record_type matches Some(v) ==> m.dns_record_type == Some(v),
        dto.dns_expected_value matches Some(v) ==> m.dns_expected_value == Some(v),
{
}

/// A change that is accepted leaves alone every field that it does not name, and those that no change
/// can name.
pub proof fn law_change_leaves_the_rest(
    r: Result<Monitor, ApiError>,
    existing: Monitor,
    dto: UpdateMonitorDto,
    ts: Ts,
    m: Monitor,
)
    requires
        is_updated(r, existing, dto, ts),
        r == Ok::<Monitor, ApiError>(m),
    ensures
        dto.name is None ==> m.name == existing.name,
        dto.method is None ==> m.method == existing.method,
        dto.expected_status_codes is None ==> m.expected_status_codes == existing.expected_status_codes,
        dto.interval_seconds is None ==> m.interval_seconds == existing.interval_seconds,
        dto.timeout_seconds is None ==> m.timeout_seconds == existing.timeout_seconds,
        dto.follow_redirects is None ==> m.follow_redirects == existing.follow_redirects,
        dto.verify_ssl is None ==> m.verify_ssl == existing.verify_ssl,
        dto.confirmation_threshold is None ==> m.confirmation_threshold == existing.confirmation_threshold,
        dto.recovery_threshold is None ==> m.recovery_threshold == existing.recovery_threshold,
        dto.retry_interval_seconds is None ==> m.retry_interval_seconds == existing.retry_interval_seconds,
        dto.keyword_case_sensitive is None ==> m.keyword_case_sensitive == existing.keyword_case_sensitive,
        dto.url is None ==> m.url == existing.url,
        dto.headers is None ==> m.headers == existing.headers,
        dto.body is None ==> m.body == existing.body,
        dto.auth_type is None ==> m.auth_type == existing.auth_type,
        dto.auth_ref is None ==> m.auth_ref == existing.auth_ref,
        dto.host is None ==> m.host == existing.host,
        dto.port is None ==> m.port == existing.port,
        dto.keyword is None ==> m.keyword == existing.keyword,
        dto.keyword_mode is None ==> m.keyword_mode == existing.keyword_mode,
        dto.dns_record_type is None ==> m.dns_record_type == existing.dns_record_type,
        dto.dns_expected_value is None ==> m.dns_expected_value == existing.dns_expected_value,
        m.id == existing.id,
        m.kind == existing.kind,
        m.ssl_check_enabled == existing.ssl_check_enabled,
        m.ssl_alert_days == existing.ssl_alert_days,
        m.domain_check_enabled == existing.domain_check_enabled,
        m.domain_alert_days == existing.domain_alert_days,
        m.heartbeat_token == existing.heartbeat_token,
        m.heartbeat_grace_seconds == existing.heartbeat_grace_seconds,
        m.last_ping_at == existing.last_ping_at,
        m.status == existing.status,
        m.is_paused == existing.is_paused,
        m.last_checked_at == existing.last_checked_at,
        m.next_run_at == existing.next_run_at,
        m.consecutive_failures == existing.consecutive_failures,
        m.consecutive_successes == existing.consecutive_successes,
        m.tags == existing.tags,
        m.sort_order == existing.sort_order,
        m.created_at == existing.created_at,
{
}

/// What a type of monitor needs: a keyword monitor an address, a keyword and a mode; a port monitor a
/// host and a port; a ping monitor a host; a DNS monitor a host and a record type; any other an
/// address. A monitor that has what its type needs is in order, whatever else it has.
pub proof fn law_what_a_type_needs(
    kind: Seq<char>,
    url: Option<String>,
    host: Option<String>,
    port: Option<i64>,
    keyword: Option<String>,
    keyword_mode: Option<String>,
    dns_record_type: Option<String>,
)
    ensures
        ({
            let e = monitor_error(kind, url, host, port, keyword, keyword_mode, dns_record_type);
            &&& kind == "keyword"@ ==> (e is None <==> !is_blank(url) && !is_blank(keyword)
                && !is_blank(keyword_mode))
            &&& kind == "port"@ ==> (e is None <==> !is_blank(host) && port is Some)
            &&& kind == "ping"@ ==> (e is None <==> !is_blank(host))
            &&& kind == "dns"@ ==> (e is None <==> !is_blank(host) && !is_blank(dns_record_type))
            &&& kind != "keyword"@ && kind != "port"@ && kind != "ping"@ && kind != "dns"@ ==> (e
                is None <==> !is_blank(url))
            &&& e == Some("url is required"@) ==> is_blank(url)
            &&& e == Some("host is required"@) ==> is_blank(host)
            &&& e == Some("port is required"@) ==> port is None && !is_blank(host)
            &&& e == Some("keyword is required"@) ==> is_blank(keyword) && !is_blank(url)
            &&& e == Some("keyword_mode is required"@) ==> is_blank(keyword_mode)
            &&& e == Some("dns_record_type is required"@) ==> is_blank(dns_record_type)
            &&& is_blank(url) && (kind == "http"@ || kind == "keyword"@) ==> e == Some(
                "url is required"@,
            )
            &&& is_blank(host) && (kind == "port"@ || kind == "ping"@ || kind == "dns"@) ==> e
                == Some("host is required"@)
        }),
{
    reveal_strlit("keyword");
    reveal_strlit("port");
    reveal_strlit("ping");
    reveal_strlit("dns");
    reveal_strlit("http");
    reveal_strlit("url is required");
    reveal_strlit("host is required");
    reveal_strlit("port is required");
    reveal_strlit("keyword is required");
    reveal_strlit("keyword_mode is required");
    reveal_strlit("dns_record_type is required");
    assert("keyword"@.len() == 7 && "port"@.len() == 4 && "ping"@.len() == 4 && "dns"@.len() == 3
        && "http"@.len() == 4);
    assert("port"@[0] == 'p' && "ping"@[1] == 'i' && "port"@[1] == 'o' && "http"@[0] == 'h');
    assert("url is required"@.len() == 15 && "host is required"@.len() == 16
        && "port is required"@.len() == 16 && "keyword is required"@.len() == 19
        && "keyword_mode is required"@.len() == 24 && "dns_record_type is required"@.len() == 27);
    assert("host is required"@[0] == 'h' && "port is required"@[0] == 'p');
}

/// A text is blank exactly where it is missing or nothing is left of it once trimmed.
pub proof fn law_blank_texts(s: String)
    ensures
        is_blank(None),
        is_blank(Some(s)) <==> text::trimmed(s@).len() == 0,
{
}

/// A monitor may be created exactly where it has what its type needs and is checked no more often than
/// every 15 seconds; a refusal is unprocessable and names what is missing.
pub proof fn law_creation(r: Result<(), ApiError>, dto: CreateMonitorDto)
    requires
        is_creatable(r, dto),
    ensures
        r is Ok <==> dto.interval_seconds >= 15 && monitor_error(
            dto.kind@,
            dto.url,
            dto.host,
            dto.port,
            dto.keyword,
            dto.keyword_mode,
            dto.dns_record_type,
        ) is None,
        r matches Err(e) ==> e.status == 422,
        r matches Err(e) ==> (monitor_error(
            dto.kind@,
            dto.url,
            dto.host,
            dto.port,
            dto.keyword,
            dto.keyword_mode,
            dto.dns_record_type,
        ) matches Some(why) ==> e.message@ == why),
        r matches Err(e) ==> (monitor_error(
            dto.kind@,
            dto.url,
            dto.host,
            dto.port,
            dto.keyword,
            dto.keyword_mode,
            dto.dns_record_type,
        ) is None ==> e.message@ == "interval must be >= 15s"@),
{
}

/// A change is accepted exactly where the interval that it names, if any, is at least 15 seconds and
/// the changed monitor has what its type needs; the kept interval is not questioned.
pub proof fn law_change_is_validated(
    r: Result<Monitor, ApiError>,
    existing: Monitor,
    dto: UpdateMonitorDto,
    ts: Ts,
)
    requires
        is_updated(r, existing, dto, ts),
    ensures
        dto.interval_seconds is Some && dto.interval_seconds->0 < 15 ==> r is Err,
        r matches Ok(m) ==> monitor_error(
            m.kind@,
            m.url,
            m.host,
            m.port,
            m.keyword,
            m.keyword_mode,
            m.dns_record_type,
        ) is None,
        r matches Err(e) ==> e.status == 422,
        r is Err && (dto.interval_seconds is None || dto.interval_seconds->0 >= 15) ==> {
            let m = merged(existing, dto, ts);
            monitor_error(
                m.kind@,
                m.url,
                m.host,
                m.port,
                m.keyword,
                m.keyword_mode,
                m.dns_record_type,
            ) is Some
        },
{
}

/// Pausing takes a monitor off the schedule and shows it as paused; resuming undoes it: the monitor
/// waits for its first result and is due at once.
pub proof fn law_pausing_and_resuming(p: PauseChange, r: PauseChange, id: i64)
    requires
        pauses(p, id),
        resumes(r, id),
    ensures
        p.is_paused && !r.is_paused,
        p.status == Status::Paused && r.status == Status::Pending,
        p.command == SchedCmd::Remove(id) && r.command == SchedCmd::Upsert(id),
        p.next_run_at is None,
        r.next_run_at matches Some(t) && t <= 0,
{
}

/// A trial probe asks what the request names: everything that a probe reads comes from the request.
pub proof fn law_trial_follows_the_request(r: Monitor, dto: CreateMonitorDto)
    requires
        is_trial(r, dto),
    ensures
        r.kind == dto.kind && r.url == dto.url && r.method == dto.method && r.headers == dto.headers,
        r.body == dto.body && r.auth_type == dto.auth_type && r.auth_ref == dto.auth_ref,
        r.expected_status_codes == dto.expected_status_codes,
        r.timeout_seconds == dto.timeout_seconds,
        r.follow_redirects == dto.follow_redirects && r.verify_ssl == dto.verify_ssl,
        r.host == dto.host && r.port == dto.port,
        r.keyword == dto.keyword && r.keyword_mode == dto.keyword_mode && r.keyword_case_sensitive
            == dto.keyword_case_sensitive,
        r.dns_record_type == dto.dns_record_type && r.dns_expected_value == dto.dns_expected_value,
        r.name == dto.name,
        r.id == 0,
        !r.is_paused,
        r.status == Status::Pending,
        r.consecutive_failures == 0 && r.consecutive_successes == 0,
{
}

/// The tiles cover a week where a week is asked for and a day otherwise, count every incident, and
/// show the share of the time outside maintenance that was down, where there were checks.
pub proof fn law_tiles(
    r: Stats,
    query: StatsQuery,
    now: Ts,
    spans: Seq<Span>,
    had_any_check: bool,
    maintenance: Seq<(Ts, Ts)>,
)
    requires
        is_stats(r, query, now, spans, had_any_check, maintenance),
    ensures
        r.incidents == spans.len(),
        stats_window(query) == 7 * 86400 <==> query.range is Some && query.range->0@ == "7d"@,
        stats_window(query) == 86400 <==> !(query.range is Some && query.range->0@ == "7d"@),
        r.uptime.uptime_pct is Some <==> had_any_check && uptime::measured(
            now - stats_window(query),
            now as int,
            maintenance,
        ) > 0,
        r.uptime.uptime_pct matches Some(share) ==> share.total == uptime::measured(
            now - stats_window(query),
            now as int,
            maintenance,
        ) && share.down == uptime::downtime(
            spans,
            now - stats_window(query),
            now as int,
            maintenance,
        ) && r.uptime.downtime_seconds == share.down,
{
    uptime::law_uptime_is_a_share(
        r.uptime,
        spans,
        now - stats_window(query),
        now as int,
        had_any_check,
        maintenance,
    );
}

} // verus!
