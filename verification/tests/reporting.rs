//! The daily digest and the monthly report: their figures, their schedule and their text.

use vigil::digest;
use vigil::digest::{
    advance_marker, parse_digest_time, render_digest, should_send, try_build, NamedIncident,
    SendOutcome,
};
use vigil::fleet::{can_add, expirations, tally, widest_threshold, ExpiryItem, Observed};
use vigil::models::{test_defaults_monitor, DomainInfo, MaintenanceWindow, Monitor, SslCert};
use vigil::numbers::{divide, divide_wide, fixed2_text, left_over};
use vigil::report::compute::{
    aggregate_days, can_compute, can_measure, cert_outlook, clip, compute, end_status_at,
    fleet_uptime_for, mean_resolved_in_window, monthly_p95_ms, nth_smallest, percentile_available, worst_first,
    MonthInput,
};
use vigil::report::html::{delta, esc, incident_row, outlook_row, render_html, secs};
use vigil::report::scheduler;
use vigil::report::scheduler::{advance, days_in_month, next_due, parse_hm, should_run_today};
use vigil::report::send_report_email;
use vigil::uptime::Span;

const DAY: i64 = 86_400;
/// 2023-11-13T00:00:00Z.
const MONDAY: i64 = 1_699_833_600;
/// 2023-11-01T00:00:00Z.
const NOVEMBER: i64 = 1_698_796_800;

fn observed(id: i64, name: &str, spans: Vec<(i64, Option<i64>)>, has_samples: bool) -> Observed {
    Observed {
        monitor: Monitor {
            id,
            name: name.into(),
            kind: "http".into(),
            ..test_defaults_monitor()
        },
        spans: spans.into_iter().map(|(start, end)| Span { start, end }).collect(),
        has_samples,
        cert: None,
        domain: None,
    }
}

fn cert(days_remaining: Option<i64>, is_valid: Option<bool>) -> SslCert {
    SslCert {
        monitor_id: 1,
        issuer: None,
        subject: None,
        valid_from: None,
        valid_until: None,
        days_remaining,
        is_valid,
        chain_ok: None,
        hostname_match: None,
        self_signed: None,
        error: None,
        alerted_days: None,
        invalid_alerted: false,
        last_checked: None,
    }
}

fn domain(days_remaining: Option<i64>, queryable: Option<bool>) -> DomainInfo {
    DomainInfo {
        monitor_id: 1,
        registrar: None,
        expiry_date: None,
        days_remaining,
        name_servers: None,
        status_codes: None,
        queryable,
        source: None,
        alerted_days: None,
        last_checked: None,
    }
}

fn incident(name: &str, started_at: i64, resolved_at: Option<i64>) -> NamedIncident {
    NamedIncident {
        monitor_name: name.into(),
        started_at,
        resolved_at,
        cause: Some("status".into()),
        status_code: Some(503),
        error_message: None,
    }
}

fn maintenance(starts_at: i64, ends_at: i64) -> MaintenanceWindow {
    MaintenanceWindow {
        id: 1,
        name: "w".into(),
        scope: "all".into(),
        target_ref: None,
        starts_at,
        ends_at,
        recurrence: None,
        suppress: "alerts".into(),
        is_active: true,
        created_at: 0,
    }
}

#[test]
fn a_fleet_is_tallied() {
    let list = vec![
        observed(1, "a", vec![(MONDAY + 10, Some(MONDAY + 110))], true),
        observed(2, "b", vec![], true),
        observed(3, "c", vec![(MONDAY, None)], true),
    ];
    let (measured, totals) =
        tally(&list, &vec![true, true, false], &[], MONDAY, MONDAY + DAY);
    assert_eq!(measured, vec![Some((100, DAY)), Some((0, DAY)), None]);
    assert_eq!((totals.down, totals.time), (100, 2 * DAY));
    assert_eq!((totals.reporting, totals.without_downtime, totals.up_throughout), (2, 1, 1));
    let share = totals.share().unwrap();
    assert_eq!((share.down, share.total), (100, 2 * DAY));
    assert!(can_add(&list, &[], MONDAY, MONDAY + DAY));
}

#[test]
fn maintained_downtime_is_free() {
    let list = vec![observed(1, "a", vec![(MONDAY + 10, Some(MONDAY + 110))], true)];
    let windows = vec![maintenance(MONDAY, MONDAY + 60)];
    let (measured, totals) = tally(&list, &vec![true], &windows, MONDAY, MONDAY + DAY);
    assert_eq!(measured, vec![Some((50, DAY - 60))]);
    assert_eq!(totals.up_throughout, 0);
}

#[test]
fn a_digest_sums_up_its_day() {
    let mut paused = observed(4, "paused", vec![], true);
    paused.monitor.is_paused = true;
    let mut watched = observed(1, "a", vec![(MONDAY + 10, Some(MONDAY + 110))], true);
    watched.monitor.ssl_check_enabled = true;
    watched.monitor.ssl_alert_days = "[30,7]".into();
    watched.cert = Some(cert(Some(20), Some(true)));
    let list = vec![watched, observed(2, "b", vec![], true), paused];
    let rows = vec![incident("a", MONDAY + 10, Some(MONDAY + 110)), incident("b", MONDAY + 500, None)];
    let down = vec![("b".to_string(), MONDAY + 500)];
    let s = try_build("2023-11-13", &list, &[], &rows, &down).unwrap();
    assert_eq!(s.day, "2023-11-13");
    assert_eq!(s.fleet.incidents, 2);
    assert_eq!(s.incidents[0].duration_seconds, Some(100));
    assert_eq!(s.incidents[1].duration_seconds, None);
    assert_eq!(s.currently_down[0].since, MONDAY + 500);
    assert_eq!(s.fleet.downtime_seconds, 100);
    assert_eq!(s.expirations.len(), 1);
    assert_eq!(s.expirations[0].flag, "expiring");
    let (subject, body) = render_digest(&s, Some(9994));
    assert_eq!(subject, "Vigil daily digest — 2023-11-13 — 99.94% uptime");
    assert!(body.starts_with("Vigil daily digest for 2023-11-13 (UTC)\n\nFleet uptime: 99.94%\n"));
    assert!(body.contains("Incidents:\n  - a | started 1699833610 | 100s | status\n"));
    assert!(body.contains("  - b | started 1699834100 | ongoing | status\n"));
    assert!(body.contains("\nCurrently down:\n  - b (since 1699834100)\n"));
    assert!(body.ends_with("\nUpcoming expirations:\n  - a ssl [expiring] 20d\n"));
}

#[test]
fn a_quiet_digest_says_so() {
    let s = try_build("2023-11-13", &vec![], &[], &vec![], &vec![]).unwrap();
    let (subject, body) = render_digest(&s, None);
    assert_eq!(subject, "Vigil daily digest — 2023-11-13 — n/a uptime");
    assert_eq!(
        body,
        "Vigil daily digest for 2023-11-13 (UTC)\n\nFleet uptime: n/a\nMonitors: 0 (0 clean)\n\
         Incidents: 0\nTotal downtime: 0s\n\nNo incidents.\n"
    );
    assert!(s.fleet.uptime_pct.is_none());
}

#[test]
fn an_overflowing_digest_is_not_built() {
    let rows = vec![incident("a", i64::MIN, Some(i64::MAX))];
    assert!(try_build("2023-11-13", &vec![], &[], &rows, &vec![]).is_none());
}

#[test]
fn a_digest_time_is_read() {
    assert_eq!(parse_digest_time("09:30"), 34_200);
    assert_eq!(parse_digest_time("00:00"), 0);
    assert_eq!(parse_digest_time("24:00"), 28_800);
    assert_eq!(parse_digest_time("09:60"), 28_800);
    assert_eq!(parse_digest_time("9"), 28_800);
    assert_eq!(parse_digest_time("09:30:00"), 28_800);
    assert_eq!(parse_hm("09:30:00"), 34_200);
    assert_eq!(parse_hm("x"), 28_800);
}

#[test]
fn one_digest_a_day() {
    let noon = MONDAY + 12 * 3600;
    assert!(should_send(noon, "2023-11-13", "2023-11-12", 8 * 3600));
    assert!(!should_send(noon, "2023-11-13", "2023-11-13", 8 * 3600));
    assert!(!should_send(MONDAY + 7 * 3600, "2023-11-13", "2023-11-12", 8 * 3600));
    assert!(!should_send(noon, "2023-11-13", "2023-11-14", 8 * 3600));
    let days = digest::tick_once(noon, "2023-11-12", "08:00").unwrap();
    assert_eq!((days.today.as_str(), days.yesterday.as_str()), ("2023-11-13", "2023-11-12"));
    let marker = advance_marker(SendOutcome::Delivered, &days.today, "2023-11-12");
    assert!(digest::tick_once(noon + 60, &marker, "08:00").is_none());
    let failed = advance_marker(SendOutcome::AllFailed, &days.today, "2023-11-12");
    assert!(digest::tick_once(noon + 60, &failed, "08:00").is_some());
    assert_eq!(digest::seed_marker_if_absent(&None, noon), Some("2023-11-13".to_string()));
    assert_eq!(digest::seed_marker_if_absent(&Some(String::new()), noon), None);
}

#[test]
fn digests_reach_the_channels_that_are_there() {
    let configs = vec![Some("{}".to_string()), None];
    assert_eq!(digest::recipients(&vec![3, 4], &configs), vec![(3, "{}".to_string())]);
    assert_eq!(digest::outcome(&vec![]), SendOutcome::NothingToSend);
    assert_eq!(digest::outcome(&vec![false, true]), SendOutcome::Delivered);
    assert_eq!(digest::outcome(&vec![false, false]), SendOutcome::AllFailed);
}

#[test]
fn expirations_are_flagged() {
    let mut a = observed(1, "a", vec![], true);
    a.monitor.ssl_check_enabled = true;
    a.monitor.ssl_alert_days = "[30,7]".into();
    a.monitor.domain_check_enabled = true;
    a.monitor.domain_alert_days = "[60]".into();
    a.cert = Some(cert(Some(31), Some(true)));
    a.domain = Some(domain(Some(60), Some(true)));
    let kinds = |o: &Observed| -> Vec<(String, String)> {
        expirations(&vec![o.clone()]).into_iter().map(|e| (e.kind, e.flag)).collect()
    };
    assert_eq!(
        kinds(&a),
        vec![
            ("ssl".to_string(), "ok".to_string()),
            ("domain".to_string(), "expiring".to_string()),
        ]
    );
    a.cert = Some(cert(Some(31), Some(false)));
    a.domain = Some(domain(None, Some(false)));
    assert_eq!(
        kinds(&a),
        vec![
            ("ssl".to_string(), "invalid".to_string()),
            ("domain".to_string(), "unknown".to_string()),
        ]
    );
    assert_eq!(widest_threshold("[7,30,14]"), 30);
    assert_eq!(widest_threshold("nothing"), 0);
}

#[test]
fn numbers_round_toward_zero() {
    assert_eq!(divide(-7, 2), -3);
    assert_eq!(left_over(-7, 2), -1);
    assert_eq!(divide_wide(i64::MAX as i128 * 3, 3), i64::MAX);
    assert_eq!(fixed2_text(9994), "99.94");
    assert_eq!(fixed2_text(5), "0.05");
    assert_eq!(fixed2_text(-5), "-0.05");
    assert_eq!(fixed2_text(10_000), "100.00");
}

#[test]
fn an_incident_is_cut_to_its_month() {
    assert_eq!(clip(5, Some(15), 10, 20), 5);
    assert_eq!(clip(12, None, 10, 20), 8);
    assert_eq!(clip(5, Some(25), 10, 20), 10);
}

#[test]
fn recovery_times_are_averaged() {
    let raw = vec![
        Span { start: 0, end: Some(10) },
        Span { start: 0, end: Some(15) },
        Span { start: 0, end: Some(25) },
        Span { start: 0, end: None },
    ];
    assert_eq!(mean_resolved_in_window(&raw, 0, 20), Some(12));
    assert_eq!(mean_resolved_in_window(&raw, 30, 40), None);
    assert_eq!(end_status_at(&raw, 20), "down");
    assert_eq!(end_status_at(&vec![Span { start: 0, end: Some(10) }], 20), "up");
    assert_eq!(end_status_at(&vec![Span { start: 20, end: None }], 20), "up");
}

#[test]
fn a_percentile_is_picked_from_the_ordered_samples() {
    let v = vec![5, 1, 4, 2, 3];
    assert_eq!(nth_smallest(&v, 0), Some(1));
    assert_eq!(nth_smallest(&v, 4), Some(5));
    assert_eq!(nth_smallest(&v, 9), Some(5));
    assert_eq!(nth_smallest(&vec![], 0), None);
    assert_eq!(nth_smallest(&vec![7, 7, 1], 1), Some(7));
    let hundred: Vec<i64> = (1..=100).rev().collect();
    assert_eq!(monthly_p95_ms(&hundred, 0, 0, 30), Some(95));
    assert_eq!(monthly_p95_ms(&v, 0, 0, 30), Some(5));
    assert_eq!(monthly_p95_ms(&vec![9], 0, 0, 30), Some(9));
    assert_eq!(monthly_p95_ms(&vec![], 0, 0, 30), None);
    assert_eq!(monthly_p95_ms(&v, 0, 31 * DAY, 30), None);
    for n in 1..3000usize {
        let samples: Vec<i64> = (0..n as i64).collect();
        let index = (((n as f64) * 0.95).ceil() as usize).saturating_sub(1).min(n - 1);
        assert_eq!(monthly_p95_ms(&samples, 0, 0, 30), Some(index as i64));
    }
    assert!(percentile_available(100, 100 + 30 * DAY, 30));
    assert!(!percentile_available(99, 100 + 30 * DAY, 30));
}

#[test]
fn the_worst_come_first() {
    assert_eq!(
        worst_first(&vec![Some(10_000), None, Some(9_900), Some(10_000), None]),
        vec![2, 0, 3, 1, 4]
    );
}

#[test]
fn aggregates_cover_the_month() {
    let (first, last) = aggregate_days("2023-11");
    assert_eq!(first, "2023-11-01");
    assert_eq!(last, "2023-12-01");
}

fn month() -> (Vec<Observed>, Vec<NamedIncident>, MonthInput) {
    let mut a = observed(1, "a", vec![(NOVEMBER - 100, Some(NOVEMBER + 300))], true);
    a.monitor.ssl_check_enabled = true;
    a.cert = Some(cert(Some(45), Some(true)));
    let b = observed(2, "b", vec![], true);
    let c = observed(3, "c", vec![], false);
    let rows = vec![
        incident("a", NOVEMBER - 100, Some(NOVEMBER + 300)),
        incident("b", NOVEMBER + 1000, Some(NOVEMBER + 1010)),
    ];
    let october = NOVEMBER - 31 * DAY;
    let input = MonthInput {
        generated_at: 5,
        before: vec![observed(1, "a", vec![(october, Some(october + 1_339))], true)],
        shown: vec![Some(9_999), Some(10_000), None],
        latency: vec![(Some(12), Some(30)), (None, None), (None, None)],
        fleet_pct: Some(9_999),
        prior_pct: Some(9_995),
        ssl_alerts: 1,
        domain_alerts: 2,
    };
    (vec![a, b, c], rows, input)
}

#[test]
fn a_month_is_computed() {
    let (list, rows, input) = month();
    assert!(can_measure("2023-11", &list, &[]));
    assert!(can_compute("2023-11", &list, &[], &rows, &input));
    let r = compute("2023-11", &list, &[], &rows, &input);
    assert_eq!(r.period, "2023-11");
    assert_eq!(r.label, "November 2023");
    assert_eq!(r.fleet.uptime_pct, Some(9_999));
    assert_eq!(r.fleet.uptime_delta, Some(4));
    assert_eq!(r.fleet.incidents, 2);
    assert_eq!(r.fleet.downtime_seconds, 300);
    assert_eq!(r.fleet.mttr_seconds, Some(205));
    let longest = r.fleet.longest_outage.unwrap();
    assert_eq!((longest.monitor.as_str(), longest.seconds), ("a", 300));
    assert_eq!((r.fleet.monitors_total, r.fleet.clean_monitors), (2, 1));
    assert_eq!((r.fleet.ssl_alerts, r.fleet.domain_alerts), (1, 2));
    assert_eq!((r.fleet.expiring_30d, r.fleet.expiring_60d), (0, 1));
    let names: Vec<&str> = r.monitors.iter().map(|m| m.name.as_str()).collect();
    assert_eq!(names, vec!["a", "b", "c"]);
    assert_eq!(r.monitors[0].avg_ms, Some(12));
    assert_eq!(r.monitors[0].p95_ms, Some(30));
    assert_eq!(r.monitors[0].mttr_seconds, Some(400));
    assert_eq!(r.monitors[2].end_status, "no data");
    assert_eq!(r.incidents[0].duration_seconds, Some(300));
    let share = fleet_uptime_for("2023-11", &list, &[]).unwrap();
    assert_eq!((share.down, share.total), (300, 2 * 30 * DAY));
    let (items, within_30, within_60) = cert_outlook(&list);
    assert_eq!((items.len(), within_30, within_60), (1, 0, 1));
}

#[test]
fn a_month_that_does_not_fit_is_not_computed() {
    let (list, rows, mut input) = month();
    input.shown.pop();
    assert!(!can_compute("2023-11", &list, &[], &rows, &input));
    let (list, rows, mut input) = month();
    input.shown[0] = Some(9_997);
    assert!(!can_compute("2023-11", &list, &[], &rows, &input));
    let (list, rows, mut input) = month();
    input.fleet_pct = Some(9_990);
    assert!(!can_compute("2023-11", &list, &[], &rows, &input));
    let (list, rows, mut input) = month();
    input.prior_pct = None;
    assert!(!can_compute("2023-11", &list, &[], &rows, &input));
    let (list, _, input) = month();
    let outside = vec![incident("a", 0, Some(10))];
    assert!(!can_compute("2023-11", &list, &[], &outside, &input));
}

#[test]
fn html_is_escaped() {
    assert_eq!(esc("<a href=\"x\">&</a>"), "&lt;a href=&quot;x&quot;&gt;&amp;&lt;/a&gt;");
    assert_eq!(secs(125), "2m 5s");
    assert_eq!(secs(-61), "-1m -1s");
    assert_eq!(delta(Some(5)), "▲ 0.05");
    assert_eq!(delta(Some(-120)), "▼ 1.20");
    assert_eq!(delta(None), "—");
}

#[test]
fn a_report_is_one_document() {
    let (list, rows, input) = month();
    let r = compute("2023-11", &list, &[], &rows, &input);
    let html = render_html(&r, "0.1");
    assert!(html.starts_with("<!doctype html>"));
    assert!(html.ends_with("</body></html>"));
    assert!(html.contains("<title>Vigil report — November 2023</title>"));
    assert!(html.contains("99.99% <small>(▲ 0.04)</small>"));
    assert!(html.contains("<td>a</td><td>http</td><td class=\"mono\">99.99%</td>"));
    assert!(html.contains(&incident_row(&r.incidents[0])));
    assert!(!html.contains("No incidents."));
    let item = ExpiryItem {
        monitor: "x".into(),
        kind: "ssl".into(),
        days_remaining: None,
        flag: "invalid".into(),
    };
    assert_eq!(
        outlook_row(&item),
        "<tr><td>x</td><td>ssl</td><td class=\"mono\">—</td>\
         <td class=\"flag-invalid\">invalid</td></tr>"
    );
    let empty = MonthInput { shown: vec![], latency: vec![], fleet_pct: None, ..input };
    let quiet = render_html(&compute("2023-11", &vec![], &[], &vec![], &empty), "0.1");
    assert!(quiet.contains("No incidents."));
    assert!(quiet.contains("Nothing tracked."));
}

#[test]
fn a_report_mail_names_its_month() {
    let (subject, body) = send_report_email("November 2023", Some(9_990));
    assert_eq!(subject, "Vigil monthly report — November 2023 — 99.90% uptime");
    assert_eq!(
        body,
        "Vigil monthly report for November 2023. Open the HTML version for the full report."
    );
    assert!(send_report_email("x", None).0.contains("n/a uptime"));
}

#[test]
fn reports_run_on_their_day() {
    assert_eq!(days_in_month(NOVEMBER), 30);
    assert_eq!(days_in_month(1_709_164_800), 29);
    assert!(should_run_today(NOVEMBER + 9 * 3600, 1, 8 * 3600));
    assert!(!should_run_today(NOVEMBER + 7 * 3600, 1, 8 * 3600));
    assert!(!should_run_today(NOVEMBER + 9 * 3600, 2, 8 * 3600));
    assert!(should_run_today(NOVEMBER + 29 * DAY + 9 * 3600, 31, 8 * 3600));
    assert!(should_run_today(NOVEMBER + 9 * 3600, -4, 8 * 3600));
}

#[test]
fn missed_months_are_made_up_for() {
    let now = NOVEMBER + 9 * 3600;
    let b = scheduler::tick_once(true, now, 1, "08:00", "2023-08").unwrap();
    assert_eq!((b.cursor.as_str(), b.target.as_str()), ("2023-08", "2023-10"));
    assert_eq!(next_due(&b.cursor, &b.target), Some("2023-09".to_string()));
    assert_eq!(next_due("2023-09", &b.target), Some("2023-10".to_string()));
    assert_eq!(next_due("2023-10", &b.target), None);
    assert_eq!(next_due("2022-12", "2023-01"), Some("2023-01".to_string()));
    assert!(scheduler::tick_once(false, now, 1, "08:00", "").is_none());
    assert_eq!(scheduler::tick_once(true, now, 1, "08:00", "").unwrap().cursor, "2023-09");
    assert_eq!(
        advance(SendOutcome::Delivered, "2023-09", "2023-08"),
        ("2023-09".to_string(), true)
    );
    assert_eq!(
        advance(SendOutcome::NothingToSend, "2023-09", "2023-08"),
        ("2023-09".to_string(), true)
    );
    assert_eq!(
        advance(SendOutcome::AllFailed, "2023-09", "2023-08"),
        ("2023-08".to_string(), false)
    );
    assert_eq!(scheduler::seed_marker_if_absent(&None, now), Some("2023-10".to_string()));
}
