//! Probes, and the requests that the interface answers.

use vigil::api;
use vigil::api::backup::{
    attach_statement, check_magic, check_version, content_disposition, replace_all, sql_quote,
    snapshot_name, stamped_name, unique_name, vacuum_statement, Import, ImportEvent, Phase, EXPORT_PREFIX,
};
use vigil::api::channels::{self, Channel, UpdateChannelDto};
use vigil::api::incidents::{list_row, list_start, range_window_seconds, IncidentColumns, ListQuery};
use vigil::api::maintenance::{self, preview, preview_active, preview_window, PreviewDto};
use vigil::api::monitors::{
    self, list_notification, pause, resume, set_notification, stats, stats_start, test_check,
    validate_monitor_dto, MonitorNotification, StatsQuery,
};
use vigil::api::reports::{email, generate, GenerateDto};
use vigil::api::settings::{get_settings, hosts, recipients, update_settings};
use vigil::api::settings::{StoredSettings, UpdateSettingsDto};
use vigil::api::sse::{BusRead, Forwarder, Step};
use vigil::api::static_assets::service;
use vigil::app::SchedCmd;
use vigil::digest::SendOutcome;
use vigil::events::Event;
use vigil::json::Json;
use vigil::maintenance_windows::{can_resolve, eval_once, monitors_in_maintenance};
use vigil::models::{
    d_codes, d_conf, d_domain_alert_days, d_http, d_interval, d_method, d_rec, d_retry,
    d_ssl_alert_days, d_timeout, default_grace, default_suppress, test_defaults_monitor, Cause,
    CreateMaintenanceWindowDto, CreateMonitorDto, MaintenanceWindow, Monitor, Status,
    UpdateMaintenanceWindowDto, UpdateMonitorDto,
};
use vigil::notify::dispatch::EmailChannelConfig;
use vigil::probe::dns::{
    invalid_type, join_pieces, probe_with, question, real_resolve, record_text, DnsRecord, DnsReply,
};
use vigil::probe::http::{
    auth_source, classify_send_error, meets_keyword, probe, reads_body, request, resolve_auth,
    AuthSource, HttpReply, ProbeAuth,
};
use vigil::probe::{run, tcp, Prober};
use vigil::uptime::Span;

fn text(s: &str) -> Option<String> {
    Some(s.to_string())
}

fn word(s: &str) -> Json {
    Json::Str(s.to_string())
}

fn strings(v: &[&str]) -> Vec<String> {
    v.iter().map(|s| s.to_string()).collect()
}

fn site() -> Monitor {
    Monitor {
        id: 3,
        name: "site".into(),
        kind: "http".into(),
        url: text("https://example.com"),
        expected_status_codes: "200-299".into(),
        ..test_defaults_monitor()
    }
}

// ---- probes ----

#[test]
fn a_probe_is_chosen_by_kind() {
    assert_eq!(run("port"), Prober::Tcp);
    assert_eq!(run("ping"), Prober::Tcp);
    assert_eq!(run("dns"), Prober::Dns);
    assert_eq!(run("http"), Prober::Http);
    assert_eq!(run("keyword"), Prober::Http);
    let r = tcp::probe();
    assert!(!r.ok);
    assert_eq!(r.error_message, text("not yet implemented"));
}

#[test]
fn a_secret_is_looked_up_where_it_is_kept() {
    assert!(matches!(auth_source(&text("env:TOKEN")), AuthSource::Env(v) if v == "TOKEN"));
    assert!(matches!(auth_source(&text("inline:x:y")), AuthSource::Inline(v) if v == "x:y"));
    assert!(matches!(auth_source(&text("TOKEN")), AuthSource::Missing));
    assert!(matches!(auth_source(&None), AuthSource::Missing));
    assert_eq!(resolve_auth(&text("env:TOKEN"), &text("t")), text("t"));
    assert_eq!(resolve_auth(&text("env:TOKEN"), &None), None);
    assert_eq!(resolve_auth(&text("inline:v"), &text("t")), text("v"));
    assert_eq!(resolve_auth(&text("other"), &text("t")), None);
}

#[test]
fn a_probe_request_follows_its_monitor() {
    let mut m = site();
    m.method = "HEAD".into();
    m.headers = text("{\"X-A\":\"1\"}");
    m.body = text("b");
    m.auth_type = text("basic");
    m.auth_ref = text("inline:user:pa:ss");
    let q = request(&m, &None).unwrap();
    assert_eq!(q.url, "https://example.com");
    assert_eq!(q.method, "HEAD");
    assert_eq!(q.headers, vec![("X-A".to_string(), "1".to_string())]);
    assert_eq!(q.body, text("b"));
    assert!(matches!(&q.auth, ProbeAuth::Basic(u, p) if u == "user" && p == "pa:ss"));
    m.headers = text("[]");
    m.method = "no such method".into();
    m.auth_ref = text("inline:user");
    let q = request(&m, &None).unwrap();
    assert!(q.headers.is_empty());
    assert_eq!(q.method, "GET");
    assert!(matches!(&q.auth, ProbeAuth::Basic(u, p) if u == "user" && p.is_empty()));
    m.auth_type = text("bearer");
    m.auth_ref = text("env:T");
    assert!(matches!(request(&m, &text("tok")).unwrap().auth, ProbeAuth::Bearer(t) if t == "tok"));
    assert!(matches!(request(&m, &None).unwrap().auth, ProbeAuth::Anonymous));
    m.auth_type = text("header");
    m.auth_ref = text("inline: X-Key : v ");
    assert!(matches!(
        request(&m, &None).unwrap().auth,
        ProbeAuth::Header(n, v) if n == "X-Key" && v == "v"
    ));
    m.auth_ref = text("inline:X-Key");
    assert!(matches!(
        request(&m, &None).unwrap().auth,
        ProbeAuth::Header(n, v) if n == "X-Key" && v.is_empty()
    ));
    m.url = None;
    let failed = request(&m, &None).unwrap_err();
    assert_eq!(failed.error_message, text("monitor has no url configured"));
    assert_eq!(failed.cause, Some(Cause::Connection));
}

#[test]
fn a_keyword_monitor_reads_the_body() {
    let page = |body: &str| HttpReply::Status(200, body.to_string());
    let mut m = Monitor { kind: "keyword".into(), keyword: text("Ready"), ..site() };
    m.keyword_mode = text("present");
    m.keyword_case_sensitive = true;
    assert!(reads_body(&m, 200));
    assert!(!reads_body(&m, 500));
    assert!(!reads_body(&site(), 200));
    assert!(probe(&m, 12, page("all Ready now")).ok);
    let missing = probe(&m, 12, page("all ready now"));
    assert!(!missing.ok);
    assert_eq!(missing.cause, Some(Cause::Keyword));
    assert_eq!(missing.status_code, Some(200));
    assert_eq!(missing.error_message, text("keyword not found"));
    m.keyword_case_sensitive = false;
    assert!(probe(&m, 12, page("all ready now")).ok);
    assert!(meets_keyword(&m, "READY"));

    m.keyword_mode = text("absent");
    let found = probe(&m, 12, page("all ready now"));
    assert_eq!((found.ok, found.cause), (false, Some(Cause::Keyword)));
    assert_eq!(found.error_message, text("keyword found"));
    assert!(probe(&m, 12, page("down")).ok);

    let refused = probe(&m, 12, HttpReply::Status(500, "down".into()));
    assert_eq!(refused.cause, Some(Cause::Status));
    let plain = Monitor { kind: "http".into(), ..m };
    assert!(probe(&plain, 12, page("all ready now")).ok);
}

#[test]
fn a_reply_meets_expectations_or_fails() {
    let ok = probe(&site(), 12, HttpReply::Status(204, String::new()));
    assert!(ok.ok);
    assert_eq!((ok.response_time_ms, ok.status_code), (Some(12), Some(204)));
    let unexpected = probe(&site(), 12, HttpReply::Status(404, String::new()));
    assert!(!unexpected.ok);
    assert_eq!(unexpected.error_message, text("unexpected status 404"));
    assert_eq!(unexpected.cause, Some(Cause::Status));
    let odd = Monitor { expected_status_codes: "garbage".into(), ..site() };
    assert!(!probe(&odd, 12, HttpReply::Status(200, String::new())).ok);
    let failed = probe(&site(), 12, HttpReply::Failed(true, false, "slow".into()));
    assert_eq!(failed.cause, Some(Cause::Timeout));
    assert_eq!(failed.error_message, text("slow"));
    assert_eq!(classify_send_error(false, true, "dns"), Cause::Connection);
    assert_eq!(classify_send_error(false, false, "DNS error"), Cause::Dns);
    assert_eq!(classify_send_error(false, false, "reset"), Cause::Connection);
}

#[test]
fn a_name_is_looked_up() {
    let mut m = Monitor { kind: "dns".into(), host: text("example.com"), ..site() };
    assert_eq!(
        question(&m).unwrap_err().error_message,
        text("monitor has no dns_record_type configured")
    );
    m.dns_record_type = text("a");
    assert_eq!(question(&m).unwrap().host, "example.com");
    let records = |v: &[&str]| DnsReply::Records(strings(v));
    let any = probe_with(&m, "a", 7, records(&["1.2.3.4", "5.6.7.8"]));
    assert!(any.ok);
    assert_eq!(any.resolved_ip, text("1.2.3.4"));
    m.dns_expected_value = text("ExAmple");
    let hit = probe_with(&m, "CNAME", 7, records(&["x", "my.EXAMPLE.com"]));
    assert!(hit.ok);
    assert_eq!(hit.resolved_ip, None);
    let miss = probe_with(&m, "AAAA", 7, records(&["::1"]));
    assert_eq!(miss.error_message, text("expected value not found"));
    assert_eq!(miss.resolved_ip, text("::1"));
    assert_eq!(probe_with(&m, "A", 7, records(&[])).error_message, text("no records"));
    assert_eq!(probe_with(&m, "A", 7, DnsReply::TimedOut).cause, Some(Cause::Timeout));
    assert_eq!(probe_with(&m, "A", 7, DnsReply::Failed("nx".into())).error_message, text("nx"));
    m.host = None;
    assert_eq!(question(&m).unwrap_err().error_message, text("monitor has no host configured"));
}

#[test]
fn dns_records_have_a_text() {
    assert_eq!(record_text(&DnsRecord::Name("a.b..".into())), text("a.b"));
    assert_eq!(record_text(&DnsRecord::Mail(10, "mx.".into())), text("10 mx"));
    let txt = |pieces: &[&[u8]]| DnsRecord::Text(pieces.iter().map(|p| p.to_vec()).collect());
    assert_eq!(record_text(&txt(&[b"v=", b"spf1"])), text("v=spf1"));
    assert_eq!(record_text(&txt(&["é".as_bytes(), b"\xff!"])), text("é\u{fffd}!"));
    assert_eq!(join_pieces(&strings(&["v=", "spf1"])), "v=spf1");
    assert_eq!(record_text(&DnsRecord::Other), None);
    let all = vec![DnsRecord::Address("1.1.1.1".into()), DnsRecord::Other, DnsRecord::Name("n.".into())];
    assert_eq!(real_resolve(&all), strings(&["1.1.1.1", "n"]));
    assert!(invalid_type("ZZ", "unknown").contains("ZZ"));
}

// ---- monitors ----

fn dto(kind: &str) -> CreateMonitorDto {
    CreateMonitorDto {
        name: "n".into(),
        kind: kind.into(),
        url: None,
        method: d_method(),
        headers: None,
        body: None,
        auth_type: None,
        auth_ref: None,
        expected_status_codes: d_codes(),
        interval_seconds: d_interval(),
        timeout_seconds: d_timeout(),
        follow_redirects: true,
        verify_ssl: true,
        confirmation_threshold: d_conf(),
        recovery_threshold: d_rec(),
        retry_interval_seconds: d_retry(),
        host: None,
        port: None,
        keyword: None,
        keyword_mode: None,
        keyword_case_sensitive: false,
        dns_record_type: None,
        dns_expected_value: None,
        ssl_check_enabled: true,
        ssl_alert_days: d_ssl_alert_days(),
        domain_check_enabled: true,
        domain_alert_days: d_domain_alert_days(),
        heartbeat_grace_seconds: default_grace(),
    }
}

fn no_change() -> UpdateMonitorDto {
    UpdateMonitorDto {
        name: None,
        url: None,
        method: None,
        headers: None,
        body: None,
        auth_type: None,
        auth_ref: None,
        expected_status_codes: None,
        interval_seconds: None,
        timeout_seconds: None,
        follow_redirects: None,
        verify_ssl: None,
        confirmation_threshold: None,
        recovery_threshold: None,
        retry_interval_seconds: None,
        host: None,
        port: None,
        keyword: None,
        keyword_mode: None,
        keyword_case_sensitive: None,
        dns_record_type: None,
        dns_expected_value: None,
        ssl_check_enabled: None,
        ssl_alert_days: None,
        domain_check_enabled: None,
        domain_alert_days: None,
        heartbeat_grace_seconds: None,
    }
}

#[test]
fn a_monitor_names_what_its_kind_needs() {
    let missing = |kind: &str| {
        validate_monitor_dto(kind, &None, &None, &None, &None, &None, &None).unwrap_err()
    };
    assert_eq!(missing("http"), "url is required");
    assert_eq!(missing("keyword"), "url is required");
    assert_eq!(missing("port"), "host is required");
    assert_eq!(missing("ping"), "host is required");
    assert_eq!(missing("dns"), "host is required");
    let u = text("u");
    let h = text("h");
    assert_eq!(
        validate_monitor_dto("keyword", &u, &None, &None, &None, &None, &None),
        Err("keyword is required".to_string())
    );
    assert_eq!(
        validate_monitor_dto("keyword", &u, &None, &None, &text("k"), &None, &None),
        Err("keyword_mode is required".to_string())
    );
    assert_eq!(
        validate_monitor_dto("port", &None, &h, &None, &None, &None, &None),
        Err("port is required".to_string())
    );
    assert_eq!(
        validate_monitor_dto("dns", &None, &h, &None, &None, &None, &None),
        Err("dns_record_type is required".to_string())
    );
    assert_eq!(validate_monitor_dto("http", &u, &None, &None, &None, &None, &None), Ok(()));
    assert_eq!(validate_monitor_dto("port", &None, &h, &Some(1), &None, &None, &None), Ok(()));
}

#[test]
fn a_new_monitor_is_checked() {
    assert_eq!(d_http(), "http");
    let refused = monitors::create(&dto("http")).unwrap_err();
    assert_eq!((refused.status, refused.message.as_str()), (422, "url is required"));
    let mut fast = dto("http");
    fast.url = text("https://x");
    fast.interval_seconds = 14;
    let refused = monitors::create(&fast).unwrap_err();
    assert_eq!((refused.status, refused.message.as_str()), (422, "interval must be >= 15s"));
    fast.interval_seconds = 15;
    assert!(monitors::create(&fast).is_ok());
    let tried = test_check(fast);
    assert_eq!(tried.url, text("https://x"));
    assert_eq!(tried.method, d_method());
    assert_eq!(tried.status, Status::Pending);
    let defaults = test_defaults_monitor();
    assert_eq!(tried.ssl_check_enabled, defaults.ssl_check_enabled);
    assert_eq!(tried.ssl_alert_days, defaults.ssl_alert_days);
    assert_eq!(tried.domain_check_enabled, defaults.domain_check_enabled);
    assert_eq!(tried.domain_alert_days, defaults.domain_alert_days);
    assert_eq!(tried.heartbeat_token, None);
    assert_eq!(tried.interval_seconds, defaults.interval_seconds);
    assert_eq!((tried.sort_order, tried.created_at, tried.updated_at), (0, 0, 0));
}

#[test]
fn an_empty_change_keeps_the_monitor() {
    let before = site();
    let after = monitors::update(site(), no_change(), 99).unwrap();
    assert_eq!(after.updated_at, 99);
    assert_eq!(after.name, before.name);
    assert_eq!(after.url, before.url);
    assert_eq!(after.interval_seconds, before.interval_seconds);
    assert_eq!(after.kind, before.kind);
    let mut change = no_change();
    change.name = text("new");
    change.verify_ssl = Some(false);
    let after = monitors::update(site(), change, 99).unwrap();
    assert_eq!(after.name, "new");
    assert!(!after.verify_ssl);
    assert_eq!(after.url, before.url);
    let mut fast = no_change();
    fast.interval_seconds = Some(1);
    assert_eq!(monitors::update(site(), fast, 99).unwrap_err().message, "interval must be >= 15s");
}

#[test]
fn a_pause_takes_a_monitor_off_the_schedule() {
    let p = pause(3);
    assert!(p.is_paused);
    assert_eq!(p.status, Status::Paused);
    assert_eq!(p.command, SchedCmd::Remove(3));
    let r = resume(3);
    assert!(!r.is_paused);
    assert_eq!(r.status, Status::Pending);
    assert_eq!(r.command, SchedCmd::Upsert(3));
}

#[test]
fn channel_wishes_read_back() {
    let item = MonitorNotification { channel_id: 4, triggers: strings(&["down", "a\"b"]) };
    let stored = set_notification(&item);
    assert_eq!(stored, "[\"down\",\"a\\\"b\"]");
    let read = list_notification(4, &stored);
    assert_eq!(read.triggers, item.triggers);
    assert!(list_notification(4, "x").triggers.is_empty());
}

#[test]
fn statistics_cover_a_range() {
    let day = StatsQuery { range: None };
    let week = StatsQuery { range: text("7d") };
    let now = 1_700_000_000;
    assert_eq!(stats_start(&day, now), now - 86_400);
    assert_eq!(stats_start(&week, now), now - 604_800);
    let spans = vec![Span { start: now - 100, end: Some(now - 40) }];
    let s = stats(&day, now, &spans, true, &[]);
    assert_eq!(s.incidents, 1);
    assert_eq!(s.uptime.downtime_seconds, 60);
    assert_eq!(s.uptime.uptime_pct.unwrap().total, 86_400);
    assert!(stats(&day, now, &vec![], false, &[]).uptime.uptime_pct.is_none());
}

// ---- incidents and reports ----

#[test]
fn incidents_are_listed_by_range() {
    assert_eq!(range_window_seconds(&text("24h")), 86_400);
    assert_eq!(range_window_seconds(&text("7d")), 604_800);
    assert_eq!(range_window_seconds(&text("90d")), 7_776_000);
    assert_eq!(range_window_seconds(&None), 2_592_000);
    assert_eq!(range_window_seconds(&text("1y")), 2_592_000);
    let query = ListQuery { monitor_id: None, range: text("24h") };
    assert_eq!(list_start(&query, 100_000), 13_600);
    let row = list_row(IncidentColumns {
        id: 1,
        monitor_id: 2,
        monitor_name: "n".into(),
        started_at: 3,
        resolved_at: None,
        duration_seconds: None,
        cause: text("dns"),
        status_code: None,
        error_message: None,
        acknowledged: 1,
    });
    assert!(row.acknowledged);
    assert_eq!(row.monitor_name, "n");
    assert_eq!(row.cause, text("dns"));
}

#[test]
fn a_report_is_made_for_a_past_month() {
    let now = 1_700_000_000;
    let asked = |p: &str| generate(&GenerateDto { period: p.into() }, now).map_err(|e| (e.status, e.message));
    assert_eq!(asked("2023-10"), Ok(()));
    assert_eq!(asked("2023-11"), Ok(()));
    assert_eq!(asked("2023-12"), Err((422, "period is in the future".to_string())));
    assert_eq!(asked("2023-13"), Err((422, "period is in the future".to_string())));
    assert_eq!(asked("2022-13"), Ok(()));
    assert_eq!(asked("2023/10"), Err((422, "period must be YYYY-MM".to_string())));
    assert_eq!(asked("2023-1"), Err((422, "period must be YYYY-MM".to_string())));
    assert_eq!(asked("last"), Err((422, "period must be YYYY-MM".to_string())));
    assert_eq!(email(SendOutcome::Delivered), (true, "Delivered"));
    assert_eq!(email(SendOutcome::NothingToSend), (false, "NothingToSend"));
    assert_eq!(email(SendOutcome::AllFailed), (false, "AllFailed"));
}

#[test]
fn errors_have_a_status() {
    assert_eq!(api::not_found("monitor").status, 404);
    assert_eq!(api::invalid("x".into()).status, 422);
    assert_eq!(api::bad("x".into()).status, 400);
    let e = api::ise("boom".into());
    assert_eq!((e.status, e.message.as_str()), (500, "boom"));
}

// ---- channels ----

#[test]
fn a_channel_changes_where_asked() {
    let channel = || Channel {
        id: 1,
        name: "c".into(),
        kind: "email".into(),
        config: "{}".into(),
        is_active: true,
        created_at: 2,
    };
    let same = channels::update(channel(), UpdateChannelDto { name: None, config: None, is_active: None });
    assert_eq!((same.name.as_str(), same.config.as_str(), same.is_active), ("c", "{}", true));
    let new = channels::update(
        channel(),
        UpdateChannelDto { name: text("d"), config: None, is_active: Some(false) },
    );
    assert_eq!((new.name.as_str(), new.kind.as_str(), new.is_active), ("d", "email", false));
    let (smtp, mail) = channels::test_email(EmailChannelConfig {
        host: "h".into(),
        port: 25,
        security: "none".into(),
        from: "f".into(),
        to: strings(&["t"]),
        username: None,
    });
    assert_eq!(smtp.host, "h");
    assert_eq!(mail.subject, "Vigil test email");
    assert_eq!(mail.to, strings(&["t"]));
    let msg = channels::test_message(9);
    assert_eq!((msg.status.as_str(), msg.checked_at), ("test", 9));
}

// ---- settings ----

#[test]
fn settings_are_written_where_named() {
    let dto = UpdateSettingsDto {
        anchors: Some(Json::Array(vec![word("a:1"), Json::Int(3), word("b:2")])),
        cooldown_minutes: Some(5),
        retention_days: None,
        accent: text("#fff"),
        renotify_hours: None,
        digest_enabled: Some(true),
        digest_time: None,
        digest_recipients: Some(Json::Array(vec![Json::Int(3), word("x")])),
        report_auto_generate: Some(false),
        report_day_of_month: None,
        report_time: None,
        report_recipients: None,
    };
    let (pairs, anchors) = update_settings(dto);
    let expected: Vec<(String, String)> = [
        ("anchors", "a:1,b:2"),
        ("notify.cooldown_minutes", "5"),
        ("appearance.accent", "#fff"),
        ("notify.digest_enabled", "1"),
        ("notify.digest_recipients", "[3]"),
        ("report_auto_generate", "0"),
    ]
    .iter()
    .map(|(k, v)| (k.to_string(), v.to_string()))
    .collect();
    assert_eq!(pairs, expected);
    assert_eq!(anchors, Some(strings(&["a:1", "b:2"])));
    assert_eq!(hosts(&word(" a , ,b")), strings(&["a", "b"]));
    assert!(hosts(&Json::Null).is_empty());
    assert!(recipients(&word("3")).is_empty());
}

#[test]
fn settings_read_back_as_they_were_written() {
    let empty = StoredSettings {
        anchors: None,
        cooldown_minutes: None,
        retention_days: None,
        accent: None,
        renotify_hours: None,
        digest_enabled: None,
        digest_time: None,
        digest_recipients: None,
        report_auto_generate: None,
        report_day_of_month: None,
        report_time: None,
        report_recipients: None,
    };
    let defaults = get_settings(&empty);
    assert_eq!(defaults.accent, "#3FC8E4");
    assert_eq!(defaults.cooldown_minutes, 15);
    assert!(!defaults.digest_enabled);
    assert!(defaults.report_auto_generate);
    let stored = StoredSettings {
        digest_enabled: text("1"),
        report_auto_generate: text("0"),
        report_recipients: text("[7,8]"),
        cooldown_minutes: text("5"),
        ..empty
    };
    let read = get_settings(&stored);
    assert!(read.digest_enabled);
    assert!(!read.report_auto_generate);
    assert_eq!(read.report_recipients, vec![7, 8]);
    assert_eq!(read.cooldown_minutes, 5);
}

// ---- maintenance ----

fn window(scope: &str, target_ref: Option<Json>) -> CreateMaintenanceWindowDto {
    CreateMaintenanceWindowDto {
        name: "w".into(),
        scope: scope.into(),
        target_ref,
        starts_at: 100,
        ends_at: 200,
        recurrence: None,
        suppress: default_suppress(),
    }
}

#[test]
fn a_window_is_stored_with_its_target() {
    let all = maintenance::create(window("all", Some(word("x"))), 9).unwrap();
    assert_eq!(all.target_ref, None);
    assert_eq!((all.created_at, all.is_active, all.suppress.as_str()), (9, true, "alerts"));
    let tagged = maintenance::create(window("tag", Some(word("prod"))), 9).unwrap();
    assert_eq!(tagged.target_ref, text("\"prod\""));
    let some = maintenance::create(
        window("monitors", Some(Json::Array(vec![Json::Int(1), Json::Int(2)]))),
        9,
    )
    .unwrap();
    assert_eq!(some.target_ref, text("[1,2]"));
    let refused = maintenance::create(window("everything", None), 9).unwrap_err();
    assert_eq!(refused.status, 422);
}

#[test]
fn a_window_changes_where_asked() {
    let existing = || maintenance::create(window("tag", Some(word("prod"))), 9).unwrap();
    let keep = || UpdateMaintenanceWindowDto {
        name: None,
        scope: None,
        target_ref: None,
        starts_at: None,
        ends_at: None,
        recurrence: None,
        suppress: None,
        is_active: None,
    };
    let same = maintenance::update(existing(), Some(word("prod")), keep()).unwrap();
    assert_eq!(same.target_ref, text("\"prod\""));
    assert_eq!((same.starts_at, same.ends_at), (100, 200));
    let later = maintenance::update(
        existing(),
        Some(word("prod")),
        UpdateMaintenanceWindowDto { ends_at: Some(300), is_active: Some(false), ..keep() },
    )
    .unwrap();
    assert_eq!((later.ends_at, later.is_active), (300, false));
    let refused = maintenance::update(
        existing(),
        Some(word("prod")),
        UpdateMaintenanceWindowDto { ends_at: Some(50), ..keep() },
    );
    assert_eq!(refused.unwrap_err().status, 422);
}

#[test]
fn a_preview_lists_whom_a_window_covers() {
    let body = PreviewDto {
        scope: "tag".into(),
        target_ref: Some(word("prod")),
        recurrence: None,
        starts_at: Some(100),
        ends_at: Some(200),
    };
    let w = preview_window(body);
    let rows = vec![(1, text("[\"prod\"]")), (2, text("[\"test\"]")), (3, None)];
    assert_eq!(preview(&w, &rows), vec![1]);
    assert_eq!(preview_active(&w, true, 150), Some(true));
    assert_eq!(preview_active(&w, true, 250), Some(false));
    assert_eq!(preview_active(&w, false, 150), None);
}

#[test]
fn maintenance_changes_are_published_once() {
    let w = maintenance::create(window("tag", Some(word("prod"))), 9).unwrap();
    let windows: Vec<MaintenanceWindow> = vec![w];
    let rows = vec![(1, text("[\"prod\"]")), (2, None)];
    assert!(can_resolve(&windows, 150));
    let inside = monitors_in_maintenance(&windows, &rows, 150);
    assert_eq!(inside, vec![1]);
    assert!(monitors_in_maintenance(&windows, &rows, 250).is_empty());
    let mut prev = Vec::new();
    let entered = eval_once(&mut prev, &inside);
    assert_eq!(entered.len(), 1);
    assert!(matches!(entered[0], Event::MaintenanceChanged { id: 1, in_maintenance: true }));
    assert!(eval_once(&mut prev, &inside).is_empty());
    let left = eval_once(&mut prev, &vec![]);
    assert!(matches!(left[0], Event::MaintenanceChanged { id: 1, in_maintenance: false }));
    assert!(prev.is_empty());
}

// ---- events and assets ----

#[test]
fn forwarded_events_are_numbered() {
    let mut f = Forwarder::new();
    assert_eq!(f.on_read(BusRead::Event), Step::Forward(1));
    assert_eq!(f.on_read(BusRead::Lagged), Step::Resync(2));
    assert_eq!(f.on_read(BusRead::Event), Step::Forward(3));
    assert_eq!(f.on_read(BusRead::Closed), Step::Stop);
}

#[test]
fn assets_come_from_a_directory() {
    assert_eq!(service(&None).0, "/srv/web-dist");
    assert_eq!(service(&text("/w")), ("/w".to_string(), "/w/index.html".to_string()));
}

// ---- backups ----

#[test]
fn paths_are_quoted_in_statements() {
    assert_eq!(sql_quote("it's"), "it''s");
    assert_eq!(vacuum_statement("/d/o'k.db"), "VACUUM INTO '/d/o''k.db'");
    assert_eq!(attach_statement("/d/x.db"), "ATTACH DATABASE '/d/x.db' AS backup");
    assert_eq!(content_disposition(5), "attachment; filename=\"vigil-backup-5.db\"");
}

#[test]
fn a_replacement_is_one_transaction() {
    assert_eq!(
        replace_all(&strings(&["monitors"])),
        strings(&[
            "BEGIN",
            "PRAGMA defer_foreign_keys=ON",
            "DELETE FROM main.\"monitors\"",
            "INSERT INTO main.\"monitors\" SELECT * FROM backup.\"monitors\"",
            "COMMIT",
        ])
    );
}

#[test]
fn file_names_are_stamped() {
    assert_eq!(stamped_name("p-", -5, 7), "p--5-7.db");
    assert_eq!(snapshot_name(1_704_067_200), "pre-import-1704067200.db");
    let names: Vec<String> = (0..20).map(|_| unique_name(EXPORT_PREFIX, 9)).collect();
    assert!(names.iter().all(|n| n.starts_with(".vigil-export-9-") && n.ends_with(".db")));
    assert!(names.iter().any(|n| *n != names[0]));
}

#[test]
fn an_upload_is_a_database_of_a_known_version() {
    assert!(check_magic(b"SQLite format 3\0and more").is_ok());
    let refused = check_magic(b"SQLite format 2\0").unwrap_err();
    assert_eq!((refused.status, refused.message.as_str()), (400, "not a SQLite database"));
    assert!(check_magic(b"SQLite").is_err());
    assert!(!check_version(2, 2).unwrap());
    assert!(check_version(1, 2).unwrap());
    assert_eq!(check_version(0, 2).unwrap_err().message, "empty or invalid backup");
    assert_eq!(
        check_version(3, 2).unwrap_err().message,
        "backup is from a newer Vigil version (schema v3); upgrade Vigil first"
    );
}

fn import() -> Import {
    Import::start(b"SQLite format 3\0", 2, 1_704_067_200).unwrap()
}

#[test]
fn an_import_runs_its_course() {
    let mut run = import();
    run.on_event(ImportEvent::Done);
    assert_eq!(run.phase, Phase::Validate);
    run.on_event(ImportEvent::Version(1));
    assert_eq!(run.phase, Phase::Migrate);
    run.on_event(ImportEvent::Done);
    assert_eq!(run.phase, Phase::Snapshot);
    run.on_event(ImportEvent::Done);
    run.on_event(ImportEvent::Tables(strings(&["monitors"])));
    assert_eq!(run.phase, Phase::Attach);
    run.on_event(ImportEvent::Done);
    assert_eq!(run.phase, Phase::Replace);
    run.on_event(ImportEvent::Done);
    run.on_event(ImportEvent::Done);
    assert_eq!(run.phase, Phase::Count);
    run.on_event(ImportEvent::Counts(vec![("monitors".to_string(), 4)]));
    run.on_event(ImportEvent::Done);
    assert_eq!(run.phase, Phase::Reseed);
    run.on_event(ImportEvent::Done);
    assert_eq!(run.phase, Phase::Finish);
    let result = run.answer().unwrap();
    assert!(result.ok);
    assert!(result.migrated);
    assert_eq!((result.schema_version, result.backup_version), (2, 1));
    assert_eq!(result.pre_import_snapshot, "pre-import-1704067200.db");
    assert_eq!(result.tables, vec![("monitors".to_string(), 4)]);
}

#[test]
fn a_refused_import_cleans_up() {
    let mut run = import();
    run.on_event(ImportEvent::Done);
    run.on_event(ImportEvent::Version(9));
    assert_eq!(run.phase, Phase::Cleanup);
    assert!(!run.snapshot_taken);
    run.on_event(ImportEvent::Done);
    assert_eq!(run.phase, Phase::Finish);
    assert_eq!(run.answer().unwrap_err().status, 400);

    let mut run = import();
    run.on_event(ImportEvent::Done);
    run.on_event(ImportEvent::Version(2));
    run.on_event(ImportEvent::Done);
    run.on_event(ImportEvent::Tables(vec![]));
    run.on_event(ImportEvent::Done);
    run.on_event(ImportEvent::Failed("disk full".to_string()));
    assert_eq!(run.phase, Phase::Detach);
    run.on_event(ImportEvent::Done);
    assert_eq!(run.phase, Phase::Cleanup);
    run.on_event(ImportEvent::Done);
    let refused = run.answer().unwrap_err();
    assert_eq!(refused.status, 500);
    assert_eq!(refused.message, "import failed, rolled back (no data changed): disk full");
}

#[test]
fn each_step_of_an_import_has_its_complaint() {
    let complaint = |events: Vec<ImportEvent>| {
        let mut run = import();
        for e in events {
            run.on_event(e);
        }
        while run.phase != Phase::Finish {
            run.on_event(ImportEvent::Done);
        }
        run.answer().unwrap_err().message
    };
    let e = || "e".to_string();
    let done = || ImportEvent::Done;
    assert_eq!(complaint(vec![ImportEvent::Failed(e())]), "write upload: e");
    assert_eq!(complaint(vec![done(), ImportEvent::NotOpened(e())]), "open backup: e");
    assert_eq!(complaint(vec![done(), ImportEvent::NotADatabase]), "not a valid database");
    assert_eq!(
        complaint(vec![done(), ImportEvent::NoVersion]),
        "not a Vigil backup (no schema_migrations)"
    );
    assert_eq!(
        complaint(vec![done(), ImportEvent::Version(1), ImportEvent::NoPath]),
        "non-UTF-8 import path"
    );
    assert_eq!(
        complaint(vec![done(), ImportEvent::Version(1), ImportEvent::Failed(e())]),
        "migrate backup: e"
    );
    let valid = |more: Vec<ImportEvent>| {
        let mut all = vec![ImportEvent::Done, ImportEvent::Version(2)];
        all.extend(more);
        all
    };
    assert_eq!(complaint(valid(vec![ImportEvent::Failed(e())])), "pre-import snapshot: e");
    assert_eq!(complaint(valid(vec![done(), ImportEvent::Failed(e())])), "e");
    assert_eq!(
        complaint(valid(vec![done(), ImportEvent::Tables(vec![]), ImportEvent::Failed(e())])),
        "attach backup: e"
    );
    assert!(Import::start(b"zip", 2, 0).is_err());
}
