//! Domain types shared by every module, their stored-text forms, and the validation of
//! maintenance-window requests.

use vstd::prelude::*;

use crate::clock;
use crate::json::Json;
use crate::text;

verus! {

/// Unix epoch seconds.
pub type Ts = i64;

/// What a monitor is known to be.
#[derive(Clone, Copy, Debug, PartialEq, Eq, Structural)]
pub enum Status {
    Pending,
    Up,
    Down,
    Paused,
    Unknown,
}

impl Status {
    /// The stored text of a status.
    pub open spec fn name(self) -> Seq<char> {
        match self {
            Status::Pending => "pending"@,
            Status::Up => "up"@,
            Status::Down => "down"@,
            Status::Paused => "paused"@,
            Status::Unknown => "unknown"@,
        }
    }

    /// The status that a stored text stands for; an unknown text is `Pending`.
    pub open spec fn named(s: Seq<char>) -> Status {
        if s == "up"@ {
            Status::Up
        } else if s == "down"@ {
            Status::Down
        } else if s == "paused"@ {
            Status::Paused
        } else if s == "unknown"@ {
            Status::Unknown
        } else {
            Status::Pending
        }
    }

    pub fn as_str(&self) -> (r: &'static str)
        ensures
            r@ == self.name(),
    {
        match self {
            Status::Pending => "pending",
            Status::Up => "up",
            Status::Down => "down",
            Status::Paused => "paused",
            Status::Unknown => "unknown",
        }
    }

    pub fn from_db(s: &str) -> (r: Status)
        ensures
            r == Status::named(s@),
    {
        if text::same(s, "up") {
            Status::Up
        } else if text::same(s, "down") {
            Status::Down
        } else if text::same(s, "paused") {
            Status::Paused
        } else if text::same(s, "unknown") {
            Status::Unknown
        } else {
            Status::Pending
        }
    }

    /// A status read back from its stored text is the same status.
    pub proof fn law_stored_round_trip(self)
        ensures
            Status::named(self.name()) == self,
    {
        reveal_strlit("pending");
        reveal_strlit("up");
        reveal_strlit("down");
        reveal_strlit("paused");
        reveal_strlit("unknown");
        assert("pending"@[0] == 'p');
        assert("pending"@.len() == 7);
        assert("unknown"@[0] == 'u');
        assert("paused"@.len() == 6);
        assert("up"@.len() == 2);
        assert("down"@.len() == 4);
    }
}

/// Whether the anchors say that this machine is online.
#[derive(Clone, Copy, Debug, PartialEq, Eq, Structural)]
pub enum Connectivity {
    Online,
    Offline,
}

/// A maintenance window: scheduled downtime that suppresses alerts or checks for the monitors
/// in scope. `target_ref` is the stored JSON text: none for `all`, a string for `tag`, an array
/// of integers for `monitors`.
#[derive(Clone, Debug)]
pub struct MaintenanceWindow {
    pub id: i64,
    pub name: String,
    /// `all`, `tag` or `monitors`.
    pub scope: String,
    pub target_ref: Option<String>,
    pub starts_at: Ts,
    pub ends_at: Ts,
    pub recurrence: Option<String>,
    /// `alerts` or `checks`.
    pub suppress: String,
    pub is_active: bool,
    pub created_at: Ts,
}

/// Why a check failed.
#[derive(Clone, Copy, Debug, PartialEq, Eq, Structural)]
pub enum Cause {
    Timeout,
    Status,
    Connection,
    Dns,
    Keyword,
    Ssl,
    Heartbeat,
}

impl Cause {
    /// The stored text of a cause.
    pub open spec fn name(self) -> Seq<char> {
        match self {
            Cause::Timeout => "timeout"@,
            Cause::Status => "status"@,
            Cause::Connection => "connection"@,
            Cause::Dns => "dns"@,
            Cause::Keyword => "keyword"@,
            Cause::Ssl => "ssl"@,
            Cause::Heartbeat => "heartbeat"@,
        }
    }

    pub fn as_str(&self) -> (r: &'static str)
        ensures
            r@ == self.name(),
    {
        match self {
            Cause::Timeout => "timeout",
            Cause::Status => "status",
            Cause::Connection => "connection",
            Cause::Dns => "dns",
            Cause::Keyword => "keyword",
            Cause::Ssl => "ssl",
            Cause::Heartbeat => "heartbeat",
        }
    }
}

/// What a notification is about.
#[derive(Clone, Copy, Debug, PartialEq, Eq, Structural)]
pub enum Trigger {
    Down,
    Recovered,
    SslExpiring,
    SslInvalid,
    DomainExpiring,
    HeartbeatMissed,
}

impl Trigger {
    /// The stored text of a trigger.
    pub open spec fn name(self) -> Seq<char> {
        match self {
            Trigger::Down => "down"@,
            Trigger::Recovered => "recovered"@,
            Trigger::SslExpiring => "ssl_expiring"@,
            Trigger::SslInvalid => "ssl_invalid"@,
            Trigger::DomainExpiring => "domain_expiring"@,
            Trigger::HeartbeatMissed => "heartbeat_missed"@,
        }
    }

    pub fn as_str(&self) -> (r: &'static str)
        ensures
            r@ == self.name(),
    {
        match self {
            Trigger::Down => "down",
            Trigger::Recovered => "recovered",
            Trigger::SslExpiring => "ssl_expiring",
            Trigger::SslInvalid => "ssl_invalid",
            Trigger::DomainExpiring => "domain_expiring",
            Trigger::HeartbeatMissed => "heartbeat_missed",
        }
    }

    /// Different triggers have different texts.
    pub proof fn law_names_differ(self, other: Trigger)
        ensures
            self.name() == other.name() ==> self == other,
    {
        reveal_strlit("down");
        reveal_strlit("recovered");
        reveal_strlit("ssl_expiring");
        reveal_strlit("ssl_invalid");
        reveal_strlit("domain_expiring");
        reveal_strlit("heartbeat_missed");
        assert("down"@.len() == 4);
        assert("recovered"@.len() == 9);
        assert("ssl_expiring"@.len() == 12);
        assert("ssl_invalid"@.len() == 11);
        assert("domain_expiring"@.len() == 15);
        assert("heartbeat_missed"@.len() == 16);
    }
}

/// What one probe found. A cause stands exactly where the probe failed.
#[derive(Clone, Debug)]
pub struct ProbeOutcome {
    pub ok: bool,
    pub response_time_ms: Option<i64>,
    pub status_code: Option<i64>,
    pub error_message: Option<String>,
    pub resolved_ip: Option<String>,
    pub cause: Option<Cause>,
}

impl ProbeOutcome {
    /// A failed probe says why, and a passed one has nothing to say.
    pub open spec fn wf(self) -> bool {
        self.ok <==> self.cause is None
    }
}

/// A stored optional flag.
pub open spec fn flag(raw: Option<i64>) -> Option<bool> {
    match raw {
        Some(v) => Some(v != 0),
        None => None,
    }
}

fn read_flag(raw: Option<i64>) -> (r: Option<bool>)
    ensures
        r == flag(raw),
{
    match raw {
        Some(v) => Some(v != 0),
        None => None,
    }
}

/// A monitored target. The heartbeat token is a secret: no payload that describes a monitor
/// carries it.
#[derive(Clone, Debug)]
pub struct Monitor {
    pub id: i64,
    pub name: String,
    pub kind: String,
    pub url: Option<String>,
    pub method: String,
    pub headers: Option<String>,
    pub body: Option<String>,
    pub auth_type: Option<String>,
    pub auth_ref: Option<String>,
    pub expected_status_codes: String,
    pub interval_seconds: i64,
    pub timeout_seconds: i64,
    pub follow_redirects: bool,
    pub verify_ssl: bool,
    pub confirmation_threshold: i64,
    pub recovery_threshold: i64,
    pub retry_interval_seconds: i64,
    pub host: Option<String>,
    pub port: Option<i64>,
    pub keyword: Option<String>,
    pub keyword_mode: Option<String>,
    pub keyword_case_sensitive: bool,
    pub dns_record_type: Option<String>,
    pub dns_expected_value: Option<String>,
    pub ssl_check_enabled: bool,
    pub ssl_alert_days: String,
    pub domain_check_enabled: bool,
    pub domain_alert_days: String,
    pub heartbeat_token: Option<String>,
    pub heartbeat_grace_seconds: i64,
    pub last_ping_at: Option<Ts>,
    pub status: Status,
    pub is_paused: bool,
    pub last_checked_at: Option<Ts>,
    pub next_run_at: Option<Ts>,
    pub consecutive_failures: i64,
    pub consecutive_successes: i64,
    pub tags: Option<String>,
    pub sort_order: i64,
    pub created_at: Ts,
    pub updated_at: Ts,
}

/// The columns of a stored monitor.
#[derive(Clone, Debug)]
pub struct MonitorRow {
    pub id: i64,
    pub name: String,
    pub kind: String,
    pub url: Option<String>,
    pub method: String,
    pub headers: Option<String>,
    pub body: Option<String>,
    pub auth_type: Option<String>,
    pub auth_ref: Option<String>,
    pub expected_status_codes: String,
    pub interval_seconds: i64,
    pub timeout_seconds: i64,
    pub follow_redirects: i64,
    pub verify_ssl: i64,
    pub confirmation_threshold: i64,
    pub recovery_threshold: i64,
    pub retry_interval_seconds: i64,
    pub host: Option<String>,
    pub port: Option<i64>,
    pub keyword: Option<String>,
    pub keyword_mode: Option<String>,
    pub keyword_case_sensitive: i64,
    pub dns_record_type: Option<String>,
    pub dns_expected_value: Option<String>,
    pub ssl_check_enabled: i64,
    pub ssl_alert_days: String,
    pub domain_check_enabled: i64,
    pub domain_alert_days: String,
    pub heartbeat_token: Option<String>,
    pub heartbeat_grace_seconds: i64,
    pub last_ping_at: Option<Ts>,
    pub status: String,
    pub is_paused: i64,
    pub last_checked_at: Option<Ts>,
    pub next_run_at: Option<Ts>,
    pub consecutive_failures: i64,
    pub consecutive_successes: i64,
    pub tags: Option<String>,
    pub sort_order: i64,
    pub created_at: Ts,
    pub updated_at: Ts,
}

/// `r` is the monitor of a stored row: flags are non-zero integers.
pub open spec fn reads_monitor(row: MonitorRow, r: Monitor) -> bool {
    &&& r.id == row.id
    &&& r.name == row.name
    &&& r.kind == row.kind
    &&& r.url == row.url
    &&& r.method == row.method
    &&& r.headers == row.headers
    &&& r.body == row.body
    &&& r.auth_type == row.auth_type
    &&& r.auth_ref == row.auth_ref
    &&& r.expected_status_codes == row.expected_status_codes
    &&& r.interval_seconds == row.interval_seconds
    &&& r.timeout_seconds == row.timeout_seconds
    &&& r.follow_redirects == (row.follow_redirects != 0)
    &&& r.verify_ssl == (row.verify_ssl != 0)
    &&& r.confirmation_threshold == row.confirmation_threshold
    &&& r.recovery_threshold == row.recovery_threshold
    &&& r.retry_interval_seconds == row.retry_interval_seconds
    &&& r.host == row.host
    &&& r.port == row.port
    &&& r.keyword == row.keyword
    &&& r.keyword_mode == row.keyword_mode
    &&& r.keyword_case_sensitive == (row.keyword_case_sensitive != 0)
    &&& r.dns_record_type == row.dns_record_type
    &&& r.dns_expected_value == row.dns_expected_value
    &&& r.ssl_check_enabled == (row.ssl_check_enabled != 0)
    &&& r.ssl_alert_days == row.ssl_alert_days
    &&& r.domain_check_enabled == (row.domain_check_enabled != 0)
    &&& r.domain_alert_days == row.domain_alert_days
    &&& r.heartbeat_token == row.heartbeat_token
    &&& r.heartbeat_grace_seconds == row.heartbeat_grace_seconds
    &&& r.last_ping_at == row.last_ping_at
    &&& r.status == Status::named(row.status@)
    &&& r.is_paused == (row.is_paused != 0)
    &&& r.last_checked_at == row.last_checked_at
    &&& r.next_run_at == row.next_run_at
    &&& r.consecutive_failures == row.consecutive_failures
    &&& r.consecutive_successes == row.consecutive_successes
    &&& r.tags == row.tags
    &&& r.sort_order == row.sort_order
    &&& r.created_at == row.created_at
    &&& r.updated_at == row.updated_at
}

impl Monitor {
    /// Reads a stored row: flags are non-zero integers, the status is its stored text.
    pub fn from_row(row: MonitorRow) -> (r: Monitor)
        ensures
            reads_monitor(row, r),
    {
        Monitor {
            id: row.id,
            name: row.name,
            kind: row.kind,
            url: row.url,
            method: row.method,
            headers: row.headers,
            body: row.body,
            auth_type: row.auth_type,
            auth_ref: row.auth_ref,
            expected_status_codes: row.expected_status_codes,
            interval_seconds: row.interval_seconds,
            timeout_seconds: row.timeout_seconds,
            follow_redirects: row.follow_redirects != 0,
            verify_ssl: row.verify_ssl != 0,
            confirmation_threshold: row.confirmation_threshold,
            recovery_threshold: row.recovery_threshold,
            retry_interval_seconds: row.retry_interval_seconds,
            host: row.host,
            port: row.port,
            keyword: row.keyword,
            keyword_mode: row.keyword_mode,
            keyword_case_sensitive: row.keyword_case_sensitive != 0,
            dns_record_type: row.dns_record_type,
            dns_expected_value: row.dns_expected_value,
            ssl_check_enabled: row.ssl_check_enabled != 0,
            ssl_alert_days: row.ssl_alert_days,
            domain_check_enabled: row.domain_check_enabled != 0,
            domain_alert_days: row.domain_alert_days,
            heartbeat_token: row.heartbeat_token,
            heartbeat_grace_seconds: row.heartbeat_grace_seconds,
            last_ping_at: row.last_ping_at,
            status: Status::from_db(row.status.as_str()),
            is_paused: row.is_paused != 0,
            last_checked_at: row.last_checked_at,
            next_run_at: row.next_run_at,
            consecutive_failures: row.consecutive_failures,
            consecutive_successes: row.consecutive_successes,
            tags: row.tags,
            sort_order: row.sort_order,
            created_at: row.created_at,
            updated_at: row.updated_at,
        }
    }
}

/// An outage: open until it is resolved.
#[derive(Clone, Debug)]
pub struct Incident {
    pub id: i64,
    pub monitor_id: i64,
    pub started_at: Ts,
    pub resolved_at: Option<Ts>,
    pub duration_seconds: Option<i64>,
    pub cause: Option<String>,
    pub status_code: Option<i64>,
    pub error_message: Option<String>,
    pub acknowledged: bool,
}

/// The columns of a stored incident.
#[derive(Clone, Debug)]
pub struct IncidentRow {
    pub id: i64,
    pub monitor_id: i64,
    pub started_at: Ts,
    pub resolved_at: Option<Ts>,
    pub duration_seconds: Option<i64>,
    pub cause: Option<String>,
    pub status_code: Option<i64>,
    pub error_message: Option<String>,
    pub acknowledged: i64,
}

/// `r` is the incident of a stored row: flags are non-zero integers.
pub open spec fn reads_incident(row: IncidentRow, r: Incident) -> bool {
    &&& r.id == row.id
    &&& r.monitor_id == row.monitor_id
    &&& r.started_at == row.started_at
    &&& r.resolved_at == row.resolved_at
    &&& r.duration_seconds == row.duration_seconds
    &&& r.cause == row.cause
    &&& r.status_code == row.status_code
    &&& r.error_message == row.error_message
    &&& r.acknowledged == (row.acknowledged != 0)
}

impl Incident {
    /// Reads a stored row: flags are non-zero integers.
    pub fn from_row(row: IncidentRow) -> (r: Incident)
        ensures
            reads_incident(row, r),
    {
        Incident {
            id: row.id,
            monitor_id: row.monitor_id,
            started_at: row.started_at,
            resolved_at: row.resolved_at,
            duration_seconds: row.duration_seconds,
            cause: row.cause,
            status_code: row.status_code,
            error_message: row.error_message,
            acknowledged: row.acknowledged != 0,
        }
    }
}

/// What the last certificate check of a monitor found.
#[derive(Clone, Debug)]
pub struct SslCert {
    pub monitor_id: i64,
    pub issuer: Option<String>,
    pub subject: Option<String>,
    pub valid_from: Option<i64>,
    pub valid_until: Option<i64>,
    pub days_remaining: Option<i64>,
    pub is_valid: Option<bool>,
    pub chain_ok: Option<bool>,
    pub hostname_match: Option<bool>,
    pub self_signed: Option<bool>,
    pub error: Option<String>,
    pub alerted_days: Option<i64>,
    pub invalid_alerted: bool,
    pub last_checked: Option<i64>,
}

/// The columns of a stored certificate check.
#[derive(Clone, Debug)]
pub struct SslCertRow {
    pub monitor_id: i64,
    pub issuer: Option<String>,
    pub subject: Option<String>,
    pub valid_from: Option<i64>,
    pub valid_until: Option<i64>,
    pub days_remaining: Option<i64>,
    pub is_valid: Option<i64>,
    pub chain_ok: Option<i64>,
    pub hostname_match: Option<i64>,
    pub self_signed: Option<i64>,
    pub error: Option<String>,
    pub alerted_days: Option<i64>,
    pub invalid_alerted: i64,
    pub last_checked: Option<i64>,
}

/// `r` is the certificate check of a stored row: flags are non-zero integers.
pub open spec fn reads_cert(row: SslCertRow, r: SslCert) -> bool {
    &&& r.monitor_id == row.monitor_id
    &&& r.issuer == row.issuer
    &&& r.subject == row.subject
    &&& r.valid_from == row.valid_from
    &&& r.valid_until == row.valid_until
    &&& r.days_remaining == row.days_remaining
    &&& r.is_valid == flag(row.is_valid)
    &&& r.chain_ok == flag(row.chain_ok)
    &&& r.hostname_match == flag(row.hostname_match)
    &&& r.self_signed == flag(row.self_signed)
    &&& r.error == row.error
    &&& r.alerted_days == row.alerted_days
    &&& r.invalid_alerted == (row.invalid_alerted != 0)
    &&& r.last_checked == row.last_checked
}

impl SslCert {
    /// Reads a stored row: flags are non-zero integers.
    pub fn from_row(row: SslCertRow) -> (r: SslCert)
        ensures
            reads_cert(row, r),
    {
        SslCert {
            monitor_id: row.monitor_id,
            issuer: row.issuer,
            subject: row.subject,
            valid_from: row.valid_from,
            valid_until: row.valid_until,
            days_remaining: row.days_remaining,
            is_valid: read_flag(row.is_valid),
            chain_ok: read_flag(row.chain_ok),
            hostname_match: read_flag(row.hostname_match),
            self_signed: read_flag(row.self_signed),
            error: row.error,
            alerted_days: row.alerted_days,
            invalid_alerted: row.invalid_alerted != 0,
            last_checked: row.last_checked,
        }
    }
}

/// What the last domain-registration check of a monitor found.
#[derive(Clone, Debug)]
pub struct DomainInfo {
    pub monitor_id: i64,
    pub registrar: Option<String>,
    pub expiry_date: Option<i64>,
    pub days_remaining: Option<i64>,
    pub name_servers: Option<String>,
    pub status_codes: Option<String>,
    pub queryable: Option<bool>,
    pub source: Option<String>,
    pub alerted_days: Option<i64>,
    pub last_checked: Option<i64>,
}

/// The columns of a stored domain check.
#[derive(Clone, Debug)]
pub struct DomainInfoRow {
    pub monitor_id: i64,
    pub registrar: Option<String>,
    pub expiry_date: Option<i64>,
    pub days_remaining: Option<i64>,
    pub name_servers: Option<String>,
    pub status_codes: Option<String>,
    pub queryable: Option<i64>,
    pub source: Option<String>,
    pub alerted_days: Option<i64>,
    pub last_checked: Option<i64>,
}

/// `r` is the domain check of a stored row: flags are non-zero integers.
pub open spec fn reads_domain(row: DomainInfoRow, r: DomainInfo) -> bool {
    &&& r.monitor_id == row.monitor_id
    &&& r.registrar == row.registrar
    &&& r.expiry_date == row.expiry_date
    &&& r.days_remaining == row.days_remaining
    &&& r.name_servers == row.name_servers
    &&& r.status_codes == row.status_codes
    &&& r.queryable == flag(row.queryable)
    &&& r.source == row.source
    &&& r.alerted_days == row.alerted_days
    &&& r.last_checked == row.last_checked
}

impl DomainInfo {
    /// Reads a stored row: flags are non-zero integers.
    pub fn from_row(row: DomainInfoRow) -> (r: DomainInfo)
        ensures
            reads_domain(row, r),
    {
        DomainInfo {
            monitor_id: row.monitor_id,
            registrar: row.registrar,
            expiry_date: row.expiry_date,
            days_remaining: row.days_remaining,
            name_servers: row.name_servers,
            status_codes: row.status_codes,
            queryable: read_flag(row.queryable),
            source: row.source,
            alerted_days: row.alerted_days,
            last_checked: row.last_checked,
        }
    }
}

// ---- request payloads ----

/// The seconds between checks where none are named.
pub const DEFAULT_INTERVAL_SECONDS: i64 = 300;

/// The seconds before a check times out where none are named.
pub const DEFAULT_TIMEOUT_SECONDS: i64 = 30;

/// The failures that confirm an outage where none are named.
pub const DEFAULT_CONFIRMATIONS: i64 = 3;

/// The successes that confirm a recovery where none are named.
pub const DEFAULT_RECOVERIES: i64 = 1;

/// The seconds before a retry where none are named.
pub const DEFAULT_RETRY_SECONDS: i64 = 30;

/// The seconds that a heartbeat may be late where none are named.
pub const DEFAULT_GRACE_SECONDS: i64 = 60;

/// The request method where none is named.
pub const DEFAULT_METHOD: &'static str = "GET";

/// The accepted status codes where none are named.
pub const DEFAULT_CODES: &'static str = "200-299";

/// The monitor kind where none is named.
pub const DEFAULT_KIND: &'static str = "http";

/// The certificate alert thresholds where none are named.
pub const DEFAULT_SSL_ALERT_DAYS: &'static str = "[30,14,7,3,1]";

/// The domain alert thresholds where none are named.
pub const DEFAULT_DOMAIN_ALERT_DAYS: &'static str = "[45,30,14,7]";

/// What a maintenance window suppresses where nothing is named.
pub const DEFAULT_SUPPRESS: &'static str = "alerts";

/// The default request method.
pub fn d_method() -> (r: String)
    ensures
        r@ == DEFAULT_METHOD@,
{
    text::own(DEFAULT_METHOD)
}

/// The default accepted status codes.
pub fn d_codes() -> (r: String)
    ensures
        r@ == DEFAULT_CODES@,
{
    text::own(DEFAULT_CODES)
}

/// The default seconds between checks.
pub fn d_interval() -> (r: i64)
    ensures
        r == DEFAULT_INTERVAL_SECONDS,
{
    DEFAULT_INTERVAL_SECONDS
}

/// The default seconds before a check times out.
pub fn d_timeout() -> (r: i64)
    ensures
        r == DEFAULT_TIMEOUT_SECONDS,
{
    DEFAULT_TIMEOUT_SECONDS
}

/// The default of options that are on unless switched off.
pub fn d_true() -> (r: bool)
    ensures
        r == true,
{
    true
}

/// The default number of failures that confirm an outage.
pub fn d_conf() -> (r: i64)
    ensures
        r == DEFAULT_CONFIRMATIONS,
{
    DEFAULT_CONFIRMATIONS
}

/// The default number of successes that confirm a recovery.
pub fn d_rec() -> (r: i64)
    ensures
        r == DEFAULT_RECOVERIES,
{
    DEFAULT_RECOVERIES
}

/// The default seconds before an unconfirmed failure is retried.
pub fn d_retry() -> (r: i64)
    ensures
        r == DEFAULT_RETRY_SECONDS,
{
    DEFAULT_RETRY_SECONDS
}

/// The default monitor kind.
pub fn d_http() -> (r: String)
    ensures
        r@ == DEFAULT_KIND@,
{
    text::own(DEFAULT_KIND)
}

/// The default certificate alert thresholds.
pub fn d_ssl_alert_days() -> (r: String)
    ensures
        r@ == DEFAULT_SSL_ALERT_DAYS@,
{
    text::own(DEFAULT_SSL_ALERT_DAYS)
}

/// The default domain alert thresholds.
pub fn d_domain_alert_days() -> (r: String)
    ensures
        r@ == DEFAULT_DOMAIN_ALERT_DAYS@,
{
    text::own(DEFAULT_DOMAIN_ALERT_DAYS)
}

/// The default seconds a heartbeat may be late.
pub fn default_grace() -> (r: i64)
    ensures
        r == DEFAULT_GRACE_SECONDS,
{
    DEFAULT_GRACE_SECONDS
}

/// A request to create a monitor.
#[derive(Clone, Debug)]
pub struct CreateMonitorDto {
    pub name: String,
    pub kind: String,
    pub url: Option<String>,
    pub method: String,
    pub headers: Option<String>,
    pub body: Option<String>,
    pub auth_type: Option<String>,
    pub auth_ref: Option<String>,
    pub expected_status_codes: String,
    pub interval_seconds: i64,
    pub timeout_seconds: i64,
    pub follow_redirects: bool,
    pub verify_ssl: bool,
    pub confirmation_threshold: i64,
    pub recovery_threshold: i64,
    pub retry_interval_seconds: i64,
    pub host: Option<String>,
    pub port: Option<i64>,
    pub keyword: Option<String>,
    pub keyword_mode: Option<String>,
    pub keyword_case_sensitive: bool,
    pub dns_record_type: Option<String>,
    pub dns_expected_value: Option<String>,
    pub ssl_check_enabled: bool,
    pub ssl_alert_days: String,
    pub domain_check_enabled: bool,
    pub domain_alert_days: String,
    pub heartbeat_grace_seconds: i64,
}

/// A request to change a monitor: what is absent stays.
#[derive(Clone, Debug)]
pub struct UpdateMonitorDto {
    pub name: Option<String>,
    pub url: Option<String>,
    pub method: Option<String>,
    pub headers: Option<String>,
    pub body: Option<String>,
    pub auth_type: Option<String>,
    pub auth_ref: Option<String>,
    pub expected_status_codes: Option<String>,
    pub interval_seconds: Option<i64>,
    pub timeout_seconds: Option<i64>,
    pub follow_redirects: Option<bool>,
    pub verify_ssl: Option<bool>,
    pub confirmation_threshold: Option<i64>,
    pub recovery_threshold: Option<i64>,
    pub retry_interval_seconds: Option<i64>,
    pub host: Option<String>,
    pub port: Option<i64>,
    pub keyword: Option<String>,
    pub keyword_mode: Option<String>,
    pub keyword_case_sensitive: Option<bool>,
    pub dns_record_type: Option<String>,
    pub dns_expected_value: Option<String>,
    pub ssl_check_enabled: Option<bool>,
    pub ssl_alert_days: Option<String>,
    pub domain_check_enabled: Option<bool>,
    pub domain_alert_days: Option<String>,
    pub heartbeat_grace_seconds: Option<i64>,
}

/// The default suppression of a maintenance window.
pub fn default_suppress() -> (r: String)
    ensures
        r@ == DEFAULT_SUPPRESS@,
{
    text::own(DEFAULT_SUPPRESS)
}

/// A request to create a maintenance window.
#[derive(Debug)]
pub struct CreateMaintenanceWindowDto {
    pub name: String,
    pub scope: String,
    pub target_ref: Option<Json>,
    pub starts_at: i64,
    pub ends_at: i64,
    pub recurrence: Option<String>,
    pub suppress: String,
}

/// A request to change a maintenance window: what is absent stays.
#[derive(Debug)]
pub struct UpdateMaintenanceWindowDto {
    pub name: Option<String>,
    pub scope: Option<String>,
    pub target_ref: Option<Json>,
    pub starts_at: Option<i64>,
    pub ends_at: Option<i64>,
    pub recurrence: Option<String>,
    pub suppress: Option<String>,
    pub is_active: Option<bool>,
}

/// The longest maintenance window: 366 days.
pub const MAX_WINDOW_DURATION_SECONDS: i64 = 31_622_400;

/// An integer of either sign that JSON tells apart from a fraction.
pub open spec fn is_integer(v: Json) -> bool {
    v is Int || v is UInt
}

/// What is wrong with the target of a scope, if anything.
pub open spec fn target_error(scope: Seq<char>, target_ref: Option<Json>) -> Option<Seq<char>> {
    if scope == "all"@ {
        None
    } else if scope == "tag"@ {
        if target_ref matches Some(Json::Str(s)) && s@.len() > 0 {
            None
        } else {
            Some("scope 'tag' requires a non-empty string target_ref"@)
        }
    } else if scope == "monitors"@ {
        if target_ref matches Some(Json::Array(a)) && a@.len() > 0 && forall|k: int|
            0 <= k < a@.len() ==> is_integer(#[trigger] a@[k]) {
            None
        } else {
            Some("scope 'monitors' requires a non-empty array of monitor ids as target_ref"@)
        }
    } else {
        Some("scope must be one of all|tag|monitors"@)
    }
}

/// What is wrong with a window's times, if anything.
pub open spec fn duration_error(starts_at: int, ends_at: int) -> Option<Seq<char>> {
    let dur = ends_at - starts_at;
    if dur < i64::MIN || dur > i64::MAX {
        Some("window duration is out of range"@)
    } else if dur <= 0 {
        Some("ends_at must be after starts_at"@)
    } else if dur > MAX_WINDOW_DURATION_SECONDS {
        Some("window duration exceeds 366 days"@)
    } else {
        None
    }
}

/// What is wrong with a recurrence, if anything: it has to be five fields that parse as cron.
pub open spec fn recurrence_error(recurrence: Option<String>) -> Option<Seq<char>> {
    match recurrence {
        None => None,
        Some(expr) => if text::words(expr@).len() != 5 {
            Some("recurrence must be exactly 5 whitespace-separated fields"@)
        } else if !clock::cron_parses(expr@) {
            Some("recurrence is not a valid 5-field cron expression"@)
        } else {
            None
        },
    }
}

/// The first thing that is wrong with a window request, if anything.
pub open spec fn window_error(
    name: Seq<char>,
    scope: Seq<char>,
    target_ref: Option<Json>,
    starts_at: int,
    ends_at: int,
    recurrence: Option<String>,
) -> Option<Seq<char>> {
    if text::trimmed(name).len() == 0 {
        Some("name must not be empty"@)
    } else if target_error(scope, target_ref) is Some {
        target_error(scope, target_ref)
    } else if duration_error(starts_at, ends_at) is Some {
        duration_error(starts_at, ends_at)
    } else {
        recurrence_error(recurrence)
    }
}

fn all_integers(a: &Vec<Json>) -> (r: bool)
    ensures
        r == forall|k: int| 0 <= k < a@.len() ==> is_integer(#[trigger] a@[k]),
{
    let mut i: usize = 0;
    while i < a.len()
        invariant
            i <= a@.len(),
            forall|k: int| 0 <= k < i ==> is_integer(#[trigger] a@[k]),
        decreases a@.len() - i,
    {
        let ok = match &a[i] {
            Json::Int(_) => true,
            Json::UInt(_) => true,
            _ => false,
        };
        if !ok {
            assert(!is_integer(a@[i as int]));
            return false;
        }
        i += 1;
    }
    true
}

/// Validates a window request. The complaint is the first thing that is wrong: an empty name,
/// a target that does not fit the scope, a duration that is not between one second and 366
/// days, or a recurrence that is not a five-field cron pattern.
pub fn validate_window_dto(
    name: &str,
    scope: &str,
    target_ref: &Option<Json>,
    starts_at: i64,
    ends_at: i64,
    recurrence: &Option<String>,
) -> (r: Result<(), String>)
    ensures
        match r {
            Ok(_) => window_error(
                name@,
                scope@,
                *target_ref,
                starts_at as int,
                ends_at as int,
                *recurrence,
            ) is None,
            Err(e) => window_error(
                name@,
                scope@,
                *target_ref,
                starts_at as int,
                ends_at as int,
                *recurrence,
            ) == Some(e@),
        },
{
    if text::trim(name).as_str().is_empty() {
        return Err(text::own("name must not be empty"));
    }
    if text::same(scope, "all") {
    } else if text::same(scope, "tag") {
        let ok = match target_ref {
            Some(Json::Str(s)) => !s.as_str().is_empty(),
            _ => false,
        };
        if !ok {
            return Err(text::own("scope 'tag' requires a non-empty string target_ref"));
        }
    } else if text::same(scope, "monitors") {
        let ok = match target_ref {
            Some(Json::Array(a)) => a.len() > 0 && all_integers(a),
            _ => false,
        };
        if !ok {
            return Err(
                text::own(
                    "scope 'monitors' requires a non-empty array of monitor ids as target_ref",
                ),
            );
        }
    } else {
        return Err(text::own("scope must be one of all|tag|monitors"));
    }
    let dur: i64 = match ends_at.checked_sub(starts_at) {
        Some(d) => d,
        None => {
            return Err(text::own("window duration is out of range"));
        },
    };
    if dur <= 0 {
        return Err(text::own("ends_at must be after starts_at"));
    }
    if dur > MAX_WINDOW_DURATION_SECONDS {
        return Err(text::own("window duration exceeds 366 days"));
    }
    if let Some(expr) = recurrence {
        let fields = text::split_words(expr.as_str());
        assert(text::views(fields@).len() == fields@.len());
        if fields.len() != 5 {
            return Err(text::own("recurrence must be exactly 5 whitespace-separated fields"));
        }
        if !clock::cron_valid(expr.as_str()) {
            return Err(text::own("recurrence is not a valid 5-field cron expression"));
        }
    }
    Ok(())
}

/// An accepted window is short enough for every later computation with it: its length fits 64
/// bits and is between one second and 366 days.
pub proof fn law_accepted_windows_are_bounded(
    name: Seq<char>,
    scope: Seq<char>,
    target_ref: Option<Json>,
    starts_at: i64,
    ends_at: i64,
    recurrence: Option<String>,
)
    requires
        window_error(name, scope, target_ref, starts_at as int, ends_at as int, recurrence) is None,
    ensures
        1 <= ends_at - starts_at <= MAX_WINDOW_DURATION_SECONDS,
{
}

/// An HTTP monitor with every setting at its default.
pub fn test_defaults_monitor() -> (r: Monitor)
    ensures
        r.id == 0,
        r.name@ == "test"@,
        r.kind@ == "http"@,
        text::view_opt(r.url) == Some("https://example.com"@),
        r.method@ == "GET"@,
        r.headers is None,
        r.body is None,
        r.auth_type is None,
        r.auth_ref is None,
        r.expected_status_codes@ == "200-299"@,
        r.interval_seconds == 300,
        r.timeout_seconds == 30,
        r.follow_redirects == true,
        r.verify_ssl == true,
        r.confirmation_threshold == 3,
        r.recovery_threshold == 1,
        r.retry_interval_seconds == 30,
        r.host is None,
        r.port is None,
        r.keyword is None,
        r.keyword_mode is None,
        r.keyword_case_sensitive == false,
        r.dns_record_type is None,
        r.dns_expected_value is None,
        r.ssl_check_enabled == false,
        r.ssl_alert_days@ == "[30,14,7,3,1]"@,
        r.domain_check_enabled == false,
        r.domain_alert_days@ == "[45,30,14,7]"@,
        r.heartbeat_token is None,
        r.heartbeat_grace_seconds == 60,
        r.last_ping_at is None,
        r.status == Status::Pending,
        r.is_paused == false,
        r.last_checked_at is None,
        r.next_run_at is None,
        r.consecutive_failures == 0,
        r.consecutive_successes == 0,
        r.tags is None,
        r.sort_order == 0,
        r.created_at == 0,
        r.updated_at == 0,
{
    Monitor {
        id: 0,
        name: text::own("test"),
        kind: text::own("http"),
        url: Some(text::own("https://example.com")),
        method: text::own("GET"),
        headers: None,
        body: None,
        auth_type: None,
        auth_ref: None,
        expected_status_codes: text::own("200-299"),
        interval_seconds: 300,
        timeout_seconds: 30,
        follow_redirects: true,
        verify_ssl: true,
        confirmation_threshold: 3,
        recovery_threshold: 1,
        retry_interval_seconds: 30,
        host: None,
        port: None,
        keyword: None,
        keyword_mode: None,
        keyword_case_sensitive: false,
        dns_record_type: None,
        dns_expected_value: None,
        ssl_check_enabled: false,
        ssl_alert_days: text::own("[30,14,7,3,1]"),
        domain_check_enabled: false,
        domain_alert_days: text::own("[45,30,14,7]"),
        heartbeat_token: None,
        heartbeat_grace_seconds: 60,
        last_ping_at: None,
        status: Status::Pending,
        is_paused: false,
        last_checked_at: None,
        next_run_at: None,
        consecutive_failures: 0,
        consecutive_successes: 0,
        tags: None,
        sort_order: 0,
        created_at: 0,
        updated_at: 0,
    }
}

/// Storing loses nothing: a monitor that is written to a row, flag by flag as one or zero, is the
/// monitor that is read from it.
pub proof fn law_stored_monitor_is_read_back(m: Monitor, row: MonitorRow, r: Monitor)
    requires
        reads_monitor(row, r),
        row.id == m.id,
        row.name == m.name,
        row.kind == m.kind,
        row.url == m.url,
        row.method == m.method,
        row.headers == m.headers,
        row.body == m.body,
        row.auth_type == m.auth_type,
        row.auth_ref == m.auth_ref,
        row.expected_status_codes == m.expected_status_codes,
        row.interval_seconds == m.interval_seconds,
        row.timeout_seconds == m.timeout_seconds,
        row.follow_redirects == (if m.follow_redirects {
            1int
        } else {
            0
        }),
        row.verify_ssl == (if m.verify_ssl {
            1int
        } else {
            0
        }),
        row.confirmation_threshold == m.confirmation_threshold,
        row.recovery_threshold == m.recovery_threshold,
        row.retry_interval_seconds == m.retry_interval_seconds,
        row.host == m.host,
        row.port == m.port,
        row.keyword == m.keyword,
        row.keyword_mode == m.keyword_mode,
        row.keyword_case_sensitive == (if m.keyword_case_sensitive {
            1int
        } else {
            0
        }),
        row.dns_record_type == m.dns_record_type,
        row.dns_expected_value == m.dns_expected_value,
        row.ssl_check_enabled == (if m.ssl_check_enabled {
            1int
        } else {
            0
        }),
        row.ssl_alert_days == m.ssl_alert_days,
        row.domain_check_enabled == (if m.domain_check_enabled {
            1int
        } else {
            0
        }),
        row.domain_alert_days == m.domain_alert_days,
        row.heartbeat_token == m.heartbeat_token,
        row.heartbeat_grace_seconds == m.heartbeat_grace_seconds,
        row.last_ping_at == m.last_ping_at,
        row.status@ == m.status.name(),
        row.is_paused == (if m.is_paused {
            1int
        } else {
            0
        }),
        row.last_checked_at == m.last_checked_at,
        row.next_run_at == m.next_run_at,
        row.consecutive_failures == m.consecutive_failures,
        row.consecutive_successes == m.consecutive_successes,
        row.tags == m.tags,
        row.sort_order == m.sort_order,
        row.created_at == m.created_at,
        row.updated_at == m.updated_at,
    ensures
        r == m,
{
    m.status.law_stored_round_trip();
}

/// Storing loses nothing: an incident that is written to a row, flag by flag as one or zero, is the
/// incident that is read from it.
pub proof fn law_stored_incident_is_read_back(m: Incident, row: IncidentRow, r: Incident)
    requires
        reads_incident(row, r),
        row.id == m.id,
        row.monitor_id == m.monitor_id,
        row.started_at == m.started_at,
        row.resolved_at == m.resolved_at,
        row.duration_seconds == m.duration_seconds,
        row.cause == m.cause,
        row.status_code == m.status_code,
        row.error_message == m.error_message,
        row.acknowledged == (if m.acknowledged {
            1int
        } else {
            0
        }),
    ensures
        r == m,
{
}

/// Storing loses nothing: a certificate check that is written to a row, flag by flag as one or zero, is the
/// certificate check that is read from it.
pub proof fn law_stored_certificate_is_read_back(m: SslCert, row: SslCertRow, r: SslCert)
    requires
        reads_cert(row, r),
        row.monitor_id == m.monitor_id,
        row.issuer == m.issuer,
        row.subject == m.subject,
        row.valid_from == m.valid_from,
        row.valid_until == m.valid_until,
        row.days_remaining == m.days_remaining,
        row.is_valid == (match m.is_valid {
            Some(b) => Some(if b {
                1i64
            } else {
                0
            }),
            None => None,
        }),
        row.chain_ok == (match m.chain_ok {
            Some(b) => Some(if b {
                1i64
            } else {
                0
            }),
            None => None,
        }),
        row.hostname_match == (match m.hostname_match {
            Some(b) => Some(if b {
                1i64
            } else {
                0
            }),
            None => None,
        }),
        row.self_signed == (match m.self_signed {
            Some(b) => Some(if b {
                1i64
            } else {
                0
            }),
            None => None,
        }),
        row.error == m.error,
        row.alerted_days == m.alerted_days,
        row.invalid_alerted == (if m.invalid_alerted {
            1int
        } else {
            0
        }),
        row.last_checked == m.last_checked,
    ensures
        r == m,
{
}

/// Storing loses nothing: a domain check that is written to a row, flag by flag as one or zero, is the
/// domain check that is read from it.
pub proof fn law_stored_domain_is_read_back(m: DomainInfo, row: DomainInfoRow, r: DomainInfo)
    requires
        reads_domain(row, r),
        row.monitor_id == m.monitor_id,
        row.registrar == m.registrar,
        row.expiry_date == m.expiry_date,
        row.days_remaining == m.days_remaining,
        row.name_servers == m.name_servers,
        row.status_codes == m.status_codes,
        row.queryable == (match m.queryable {
            Some(b) => Some(if b {
                1i64
            } else {
                0
            }),
            None => None,
        }),
        row.source == m.source,
        row.alerted_days == m.alerted_days,
        row.last_checked == m.last_checked,
    ensures
        r == m,
{
}


/// Statuses, causes and triggers are stored under their own words.
pub proof fn law_stored_words()
    ensures
        Status::Pending.name() == "pending"@,
        Status::Up.name() == "up"@,
        Status::Down.name() == "down"@,
        Status::Paused.name() == "paused"@,
        Status::Unknown.name() == "unknown"@,
        Cause::Timeout.name() == "timeout"@,
        Cause::Status.name() == "status"@,
        Cause::Connection.name() == "connection"@,
        Cause::Dns.name() == "dns"@,
        Cause::Keyword.name() == "keyword"@,
        Cause::Ssl.name() == "ssl"@,
        Cause::Heartbeat.name() == "heartbeat"@,
        Trigger::Down.name() == "down"@,
        Trigger::Recovered.name() == "recovered"@,
        Trigger::SslExpiring.name() == "ssl_expiring"@,
        Trigger::SslInvalid.name() == "ssl_invalid"@,
        Trigger::DomainExpiring.name() == "domain_expiring"@,
        Trigger::HeartbeatMissed.name() == "heartbeat_missed"@,
{
}

/// A text that names no status stands for a pending monitor.
pub proof fn law_unknown_words_are_pending(word: Seq<char>)
    requires
        word != "up"@ && word != "down"@ && word != "paused"@ && word != "unknown"@,
    ensures
        Status::named(word) == Status::Pending,
{
}

/// A window request is accepted exactly where it has a name, a target that fits its scope, a length
/// between one second and 366 days, and either no recurrence or a cron pattern of five fields.
pub proof fn law_accepted_windows(
    name: Seq<char>,
    scope: Seq<char>,
    target_ref: Option<Json>,
    starts_at: i64,
    ends_at: i64,
    recurrence: Option<String>,
)
    ensures
        window_error(name, scope, target_ref, starts_at as int, ends_at as int, recurrence) is None
            <==> {
            &&& text::trimmed(name).len() > 0
            &&& {
                ||| scope == "all"@
                ||| scope == "tag"@ && (target_ref matches Some(Json::Str(s)) && s@.len() > 0)
                ||| scope == "monitors"@ && (target_ref matches Some(Json::Array(a)) && a@.len() > 0
                    && forall|k: int|
                    0 <= k < a@.len() ==> ((#[trigger] a@[k]) is Int || a@[k] is UInt))
            }
            &&& 1 <= ends_at - starts_at <= 31_622_400
            &&& recurrence is None || (text::words((recurrence->0)@).len() == 5
                && clock::cron_parses((recurrence->0)@))
        },
{
    reveal_strlit("all");
    reveal_strlit("tag");
    reveal_strlit("monitors");
    assert("all"@[0] == 'a');
    assert("tag"@[0] == 't');
    assert("monitors"@[0] == 'm');
    if target_ref is Some && target_ref->0 is Array {
        let a = target_ref->0->Array_0;
        assert((forall|k: int| 0 <= k < a@.len() ==> is_integer(#[trigger] a@[k])) <==> (forall|
            k: int,
        | 0 <= k < a@.len() ==> ((#[trigger] a@[k]) is Int || a@[k] is UInt)));
    }
}

/// A refused window request is told the first thing that is wrong with it: the name goes before the
/// target, the target before the times, and the times before the recurrence.
pub proof fn law_first_complaint_about_a_window(
    name: Seq<char>,
    scope: Seq<char>,
    target_ref: Option<Json>,
    starts_at: i64,
    ends_at: i64,
    recurrence: Option<String>,
)
    ensures
        ({
            let e = window_error(
                name,
                scope,
                target_ref,
                starts_at as int,
                ends_at as int,
                recurrence,
            );
            let known = scope == "all"@ || scope == "tag"@ || scope == "monitors"@;
            &&& text::trimmed(name).len() == 0 ==> e == Some("name must not be empty"@)
            &&& text::trimmed(name).len() > 0 && !known ==> e == Some(
                "scope must be one of all|tag|monitors"@,
            )
            &&& text::trimmed(name).len() > 0 && scope == "tag"@ && target_ref is None ==> e
                == Some("scope 'tag' requires a non-empty string target_ref"@)
            &&& text::trimmed(name).len() > 0 && scope == "monitors"@ && target_ref is None ==> e
                == Some("scope 'monitors' requires a non-empty array of monitor ids as target_ref"@)
            &&& text::trimmed(name).len() > 0 && scope == "all"@ && i64::MIN <= ends_at - starts_at
                <= 0 ==> e == Some("ends_at must be after starts_at"@)
            &&& text::trimmed(name).len() > 0 && scope == "all"@ && 31_622_400 < ends_at
                - starts_at <= i64::MAX ==> e == Some("window duration exceeds 366 days"@)
            &&& text::trimmed(name).len() > 0 && scope == "all"@ && (ends_at - starts_at > i64::MAX
                || ends_at - starts_at < i64::MIN) ==> e == Some("window duration is out of range"@)
        }),
{
    reveal_strlit("all");
    reveal_strlit("tag");
    reveal_strlit("monitors");
    assert("all"@[0] == 'a');
    assert("tag"@[0] == 't');
    assert("monitors"@[0] == 'm');
}

/// A monitor that names nothing else is asked with `GET` every five minutes, has half a minute to
/// answer with a success, is down after three failures half a minute apart and up after one success;
/// a heartbeat may be a minute late, and a window suppresses alerts.
pub proof fn law_defaults()
    ensures
        DEFAULT_INTERVAL_SECONDS == 5 * 60,
        DEFAULT_TIMEOUT_SECONDS == 30,
        DEFAULT_CONFIRMATIONS == 3,
        DEFAULT_RECOVERIES == 1,
        DEFAULT_RETRY_SECONDS == 30,
        DEFAULT_GRACE_SECONDS == 60,
        DEFAULT_METHOD@ == "GET"@,
        DEFAULT_CODES@ == "200-299"@,
        DEFAULT_KIND@ == "http"@,
        DEFAULT_SSL_ALERT_DAYS@ == "[30,14,7,3,1]"@,
        DEFAULT_DOMAIN_ALERT_DAYS@ == "[45,30,14,7]"@,
        DEFAULT_SUPPRESS@ == "alerts"@,
{
}

} // verus!
