//! The monitoring loop: results, incidents, the schedule, connectivity, settings and storage.

use vigil::anchor::{verdict_from_probe, AnchorGate};
use vigil::app::SchedCmd;
use vigil::db::{current_schema_version, run_migrations, split_statements};
use vigil::engine::{
    after_commit, apply_result, bulk_set_unknown, fleet_lost, FleetRow, IncidentWrite, OpenIncident,
};
use vigil::events::Event;
use vigil::maintenance_windows::resolve::Suppression;
use vigil::maintenance::{can_prune, prune_old_checks, vacuum_due};
use vigil::models::{
    test_defaults_monitor, Cause, Connectivity, Incident, IncidentRow, MaintenanceWindow, Monitor,
    MonitorRow,
    ProbeOutcome, SslCert, SslCertRow, Status, Trigger,
};
use vigil::rollup::{ensure_aggregates, rollup_monitor_day};
use vigil::scheduler::{
    catch_up, next_run_with, next_run_with_jitter, wake_secs, FollowUp, SchedState, ScheduleRow,
    IDLE_SLEEP_SECS,
};
use vigil::secrets::{read_smtp_password, secret_path, SecretFile};
use vigil::settings_store;
use vigil::uptime::Span;
use vigil::worker::{
    check_status, decide, next_interval, next_run, plan_next, run_check, suppression_of, Admission,
    Check, CheckEvent, Step,
};

fn monitor(status: Status, failures: i64) -> Monitor {
    Monitor {
        id: 7,
        kind: "http".into(),
        status,
        consecutive_failures: failures,
        confirmation_threshold: 3,
        recovery_threshold: 1,
        interval_seconds: 60,
        retry_interval_seconds: 20,
        ..test_defaults_monitor()
    }
}

fn outcome(ok: bool) -> ProbeOutcome {
    ProbeOutcome {
        ok,
        response_time_ms: Some(12),
        status_code: Some(if ok { 200 } else { 503 }),
        error_message: if ok { None } else { Some("unavailable".into()) },
        resolved_ip: None,
        cause: if ok { None } else { Some(Cause::Status) },
    }
}

#[test]
fn a_confirmed_failure_opens_an_incident() {
    let m = monitor(Status::Up, 2);
    let out = outcome(false);
    let plan = apply_result(&m, &out, Connectivity::Online, None, 1000);
    assert_eq!(plan.monitor.status, Status::Down);
    assert_eq!(plan.monitor.consecutive_failures, 3);
    assert_eq!(plan.monitor.last_checked_at, 1000);
    match &plan.incident {
        IncidentWrite::Open(n) => {
            assert_eq!(n.monitor_id, 7);
            assert_eq!(n.started_at, 1000);
            assert_eq!(n.cause, "status");
            assert_eq!(n.status_code, Some(503));
            assert_eq!(n.error_message, Some("unavailable".to_string()));
        }
        other => panic!("not opened: {other:?}"),
    }
    let effects = after_commit(&m, &out, &plan, 42, 1000);
    assert_eq!(effects.outcome.incident_id, Some(42));
    assert_eq!(effects.notify, Some((Trigger::Down, 42)));
    assert_eq!(effects.events.len(), 3);
    assert!(matches!(effects.events[0], Event::IncidentOpened { id: 42, monitor_id: 7 }));
    assert!(matches!(
        effects.events[1],
        Event::MonitorTransition { id: 7, from: Status::Up, to: Status::Down, incident_id: Some(42) }
    ));
    assert!(matches!(
        effects.events[2],
        Event::MonitorUpdated {
            id: 7,
            status: Status::Down,
            response_time_ms: Some(12),
            checked_at: 1000
        }
    ));
}

#[test]
fn a_recovery_closes_the_open_incident() {
    let m = monitor(Status::Down, 5);
    let out = outcome(true);
    let open = Some(OpenIncident { id: 42, started_at: 400 });
    let plan = apply_result(&m, &out, Connectivity::Online, open, 1000);
    assert!(matches!(
        plan.incident,
        IncidentWrite::Close { id: 42, resolved_at: 1000, duration_seconds: 600 }
    ));
    let effects = after_commit(&m, &out, &plan, 0, 1000);
    assert_eq!(effects.outcome.incident_id, Some(42));
    assert_eq!(effects.notify, Some((Trigger::Recovered, 42)));
    assert!(matches!(
        effects.events[0],
        Event::IncidentResolved { id: 42, monitor_id: 7, duration_seconds: 600 }
    ));
}

#[test]
fn an_outage_in_progress_opens_no_second_incident() {
    let open = Some(OpenIncident { id: 42, started_at: 400 });
    let plan =
        apply_result(&monitor(Status::Down, 5), &outcome(false), Connectivity::Online, open, 1000);
    assert!(matches!(plan.incident, IncidentWrite::Nothing));
    let unknown =
        apply_result(&monitor(Status::Unknown, 5), &outcome(false), Connectivity::Online, open, 1000);
    assert!(matches!(unknown.incident, IncidentWrite::Nothing));
    assert_eq!(unknown.monitor.status, Status::Down);
}

#[test]
fn a_slow_recovery_may_leave_an_incident_open() {
    let mut m = monitor(Status::Down, 5);
    m.recovery_threshold = 2;
    let open = Some(OpenIncident { id: 42, started_at: 400 });
    let plan = apply_result(&m, &outcome(true), Connectivity::Online, open, 1000);
    assert!(matches!(plan.incident, IncidentWrite::Nothing));
}

#[test]
fn a_failure_without_a_cause_is_a_connection_failure() {
    let out = ProbeOutcome { cause: None, ..outcome(false) };
    let plan = apply_result(&monitor(Status::Up, 2), &out, Connectivity::Online, None, 1);
    assert!(matches!(plan.incident, IncidentWrite::Open(n) if n.cause == "connection"));
}

#[test]
fn an_offline_machine_knows_nothing() {
    let m = monitor(Status::Up, 2);
    let out = outcome(false);
    let plan = apply_result(&m, &out, Connectivity::Offline, None, 1000);
    assert_eq!(plan.monitor.status, Status::Unknown);
    assert!(matches!(plan.incident, IncidentWrite::Nothing));
    let effects = after_commit(&m, &out, &plan, 0, 1000);
    assert_eq!(effects.outcome.incident_id, None);
    assert_eq!(effects.notify, None);
    assert_eq!(effects.events.len(), 2);
    assert!(matches!(
        effects.events[0],
        Event::MonitorTransition { id: 7, from: Status::Up, to: Status::Unknown, incident_id: None }
    ));
}

#[test]
fn a_missed_heartbeat_is_announced_as_one() {
    let m = Monitor { kind: "heartbeat".into(), ..monitor(Status::Up, 2) };
    let out = outcome(false);
    let plan = apply_result(&m, &out, Connectivity::Online, None, 1000);
    let effects = after_commit(&m, &out, &plan, 3, 1000);
    assert_eq!(effects.notify, Some((Trigger::HeartbeatMissed, 3)));
}

#[test]
fn a_lost_fleet_is_announced_monitor_by_monitor() {
    let row = |id: i64, status: &str, is_paused: bool| FleetRow {
        id,
        status: status.into(),
        is_paused,
    };
    let rows = vec![
        row(1, "up", false),
        row(5, "unknown", false),
        row(6, "paused", true),
        row(2, "down", false),
    ];
    let loss = bulk_set_unknown(&rows, 50);
    assert_eq!(loss.ids, vec![1, 2]);
    let events = loss.events;
    assert_eq!(events.len(), 4);
    let transitions: Vec<(i64, Status)> = events
        .iter()
        .filter_map(|e| match e {
            Event::MonitorTransition { id, from, to: Status::Unknown, .. } => Some((*id, *from)),
            _ => None,
        })
        .collect();
    assert_eq!(transitions, vec![(1, Status::Up), (2, Status::Down)]);
    assert!(fleet_lost(&Event::ConnectivityChanged { online: false }));
    assert!(!fleet_lost(&Event::ConnectivityChanged { online: true }));
    assert!(!fleet_lost(&Event::CertUpdated { id: 1 }));
}

#[test]
fn windows_that_suppress_checks_pause_them() {
    let window = |suppress: &str| MaintenanceWindow {
        id: 1,
        name: "w".into(),
        scope: "all".into(),
        target_ref: None,
        starts_at: 100,
        ends_at: 200,
        recurrence: None,
        suppress: suppress.into(),
        is_active: true,
        created_at: 0,
    };
    let m = monitor(Status::Up, 0);
    let checks = suppression_of(&[window("alerts"), window("checks")], &m, 150);
    assert_eq!(checks, Suppression::Checks);
    assert_eq!(suppression_of(&[window("alerts")], &m, 150), Suppression::Alerts);
    assert_eq!(suppression_of(&[window("checks")], &m, 300), Suppression::Nothing);
    assert_eq!(decide(&Some(m.clone()), Suppression::Checks), Admission::Skip);
    assert_eq!(decide(&Some(m.clone()), Suppression::Alerts), Admission::Probe);
    assert_eq!(decide(&Some(m.clone()), Suppression::Nothing), Admission::Probe);

    let mut run = Check::start(7);
    run.on_event(CheckEvent::Loaded(Some(m), Suppression::Checks, 150));
    assert_eq!((run.step, run.at, run.use_retry), (Step::Plan, 150, Some(false)));
    run.on_event(CheckEvent::Planned);
    assert_eq!(run.step, Step::Complete);
}

#[test]
fn a_check_completes_once_however_it_ends() {
    let walk = |events: Vec<CheckEvent>| {
        let mut run = Check::start(7);
        let mut told = vec![];
        for e in events {
            told.extend(run.command());
            run.on_event(e);
        }
        assert_eq!(run.step, Step::Finish);
        assert_eq!(run.command(), None);
        told
    };
    let once = vec![SchedCmd::Complete(7)];
    let loaded = |m: Option<Monitor>| CheckEvent::Loaded(m, Suppression::Nothing, 5);
    assert_eq!(walk(vec![loaded(None), CheckEvent::Completed]), once);
    let paused = Monitor { is_paused: true, ..monitor(Status::Paused, 0) };
    assert_eq!(walk(vec![loaded(Some(paused)), CheckEvent::Completed]), once);
    for applied in [Some(true), Some(false), None] {
        let full = vec![
            loaded(Some(monitor(Status::Up, 0))),
            CheckEvent::Probed(outcome(true), 9),
            CheckEvent::Recorded,
            CheckEvent::Applied(applied),
            CheckEvent::Planned,
            CheckEvent::Completed,
        ];
        assert_eq!(walk(full), once);
    }
    let far = Monitor { interval_seconds: i64::MAX, ..monitor(Status::Up, 0) };
    assert_eq!(plan_next(&far, Some(false), 9), None);
    let near = Monitor { interval_seconds: 100, ..far };
    assert!((104..=114).contains(&plan_next(&near, Some(false), 9).unwrap()));
}

#[test]
fn a_check_is_admitted_by_kind() {
    assert_eq!(run_check(&None), Admission::Skip);
    assert_eq!(run_check(&Some(monitor(Status::Up, 0))), Admission::Probe);
    let of = |kind: &str| Some(Monitor { kind: kind.into(), ..monitor(Status::Up, 0) });
    assert_eq!(run_check(&of("heartbeat")), Admission::Skip);
    assert_eq!(run_check(&of("ssl")), Admission::Certificate);
    assert_eq!(run_check(&of("dns")), Admission::Probe);
    let paused = Monitor { is_paused: true, ..monitor(Status::Paused, 0) };
    assert_eq!(run_check(&Some(paused)), Admission::Skip);
    assert_eq!(check_status(true), "up");
    assert_eq!(check_status(false), "down");
}

#[test]
fn the_next_run_is_an_interval_away() {
    let m = monitor(Status::Up, 0);
    assert_eq!(next_interval(&m, Some(false)), 60);
    assert_eq!(next_interval(&m, Some(true)), 20);
    assert_eq!(next_interval(&m, None), 20);
    for _ in 0..50 {
        let t = next_run(&m, Some(false), 1000);
        assert!((1057..=1063).contains(&t), "{t}");
    }
}

#[test]
fn jitter_stays_within_five_percent() {
    let runs: Vec<i64> = (0..200).map(|_| next_run_with_jitter(0, 3600)).collect();
    assert!(runs.iter().all(|t| (3420..=3780).contains(t)));
    assert!(runs.iter().any(|t| *t != runs[0]));
    assert_eq!(next_run_with_jitter(5, 10), 15);
    assert_eq!(next_run_with(100, 60, -3), 157);
}

#[test]
fn the_loop_sleeps_until_the_next_entry() {
    assert_eq!(wake_secs(Some(110), 100), 10);
    assert_eq!(wake_secs(Some(90), 100), 0);
    assert_eq!(wake_secs(None, 100), IDLE_SLEEP_SECS);
    assert_eq!(wake_secs(Some(i64::MAX), i64::MIN), u64::MAX);
}

#[test]
fn commands_drive_the_schedule() {
    let mut s = SchedState::new();
    catch_up(&mut s, &vec![(1, Some(100)), (2, None)]);
    assert_eq!(s.next_due(), Some(0));
    assert_eq!(s.take_due(50), Some(2));
    assert_eq!(s.take_due(50), None);
    assert_eq!(s.on_command(SchedCmd::Complete(2)), FollowUp::Reschedule(2));
    let row = |next_run_at, is_paused, kind: &str| {
        Some(ScheduleRow { next_run_at, is_paused, kind: kind.to_string() })
    };
    s.reschedule(2, &row(Some(70), false, "http"));
    assert_eq!(s.next_due(), Some(70));
    assert_eq!(s.on_command(SchedCmd::Remove(2)), FollowUp::Nothing);
    assert_eq!(s.next_due(), Some(100));
    s.reschedule(3, &row(Some(1), true, "http"));
    s.reschedule(4, &row(Some(1), false, "heartbeat"));
    s.reschedule(5, &None);
    assert_eq!(s.next_due(), Some(100));
    assert_eq!(s.on_command(SchedCmd::CheckNow(9)), FollowUp::Nothing);
    assert_eq!(s.take_due(0), Some(9));
    assert_eq!(s.on_command(SchedCmd::Upsert(1)), FollowUp::Reschedule(1));
    assert_eq!(s.on_command(SchedCmd::Reseed), FollowUp::Reseed);
    assert_eq!(s.next_due(), None);
    assert!(s.is_in_flight(9));
}

#[test]
fn a_check_never_runs_twice_at_once() {
    let mut s = SchedState::new();
    s.schedule(1, 0);
    assert_eq!(s.take_due(10), Some(1));
    s.schedule(1, 0);
    assert_eq!(s.take_due(10), None);
    s.complete(1);
    s.schedule(1, 5);
    assert_eq!(s.take_due(10), Some(1));
}

#[test]
fn edges_of_connectivity_are_announced_once() {
    let mut gate = AnchorGate::new();
    assert_eq!(gate.current(), Connectivity::Online);
    assert_eq!(gate.probe_and_update(true, 100), Some(true));
    assert_eq!(gate.probe_and_update(true, 105), None);
    assert!(!gate.stale(115));
    assert!(gate.stale(116));
    assert_eq!(gate.probe_and_update(false, 120), Some(false));
    assert_eq!(gate.probe_and_update(false, 121), None);
    assert_eq!(gate.current(), Connectivity::Offline);
    assert_eq!(verdict_from_probe(true), Connectivity::Online);
}

fn stored(s: &str) -> Option<String> {
    Some(s.to_string())
}

#[test]
fn settings_have_defaults() {
    assert_eq!(settings_store::cooldown_minutes(&None), 15);
    assert_eq!(settings_store::retention_days(&None), 30);
    assert_eq!(settings_store::cert_ssl_interval_seconds(&None), 43_200);
    assert_eq!(settings_store::cert_domain_interval_seconds(&None), 86_400);
    assert_eq!(settings_store::cert_tick_seconds(&None), 60);
    assert_eq!(settings_store::cert_concurrency(&None), 5);
    assert_eq!(settings_store::heartbeat_tick_seconds(&None), 20);
    assert_eq!(settings_store::maintenance_tick_seconds(&None), 30);
    assert_eq!(settings_store::renotify_hours(&None), 6);
    assert_eq!(settings_store::renotify_tick_seconds(&None), 300);
    assert_eq!(settings_store::digest_tick_seconds(&None), 60);
    assert_eq!(settings_store::report_day_of_month(&None), 1);
    assert_eq!(settings_store::report_tick_seconds(&None), 300);
    assert_eq!(settings_store::anchors(&None), vec!["1.1.1.1:443", "8.8.8.8:443"]);
    assert_eq!(settings_store::digest_time(&None), "08:00");
    assert_eq!(settings_store::report_time(&None), "08:00");
    assert!(settings_store::digest_recipients(&None).is_empty());
    assert_eq!(settings_store::get(&None, "d"), "d");
    assert_eq!(settings_store::get(&stored("x"), "d"), "x");
}

#[test]
fn stored_settings_are_read() {
    assert_eq!(settings_store::cooldown_minutes(&stored("0")), 0);
    assert_eq!(settings_store::cooldown_minutes(&stored("-3")), -3);
    assert_eq!(settings_store::cooldown_minutes(&stored("soon")), 15);
    assert_eq!(settings_store::cooldown_minutes(&stored("99999999999999999999")), 15);
    assert_eq!(settings_store::anchors(&stored(" a:1 ,, b:2 ")), vec!["a:1", "b:2"]);
    assert_eq!(settings_store::digest_recipients(&stored("[3,1]")), vec![3, 1]);
    assert!(settings_store::digest_recipients(&stored("x")).is_empty());
    assert_eq!(settings_store::digest_time(&stored("09:30")), "09:30");
    assert_eq!(settings_store::sleep_seconds(30), 30);
    assert_eq!(settings_store::sleep_seconds(-1), 1);
}

#[test]
fn a_number_reads_back_as_it_was_stored() {
    for n in [0, 1, -1, i64::MAX, i64::MIN] {
        assert_eq!(settings_store::retention_days(&Some(vigil::text::int_text(n))), n);
    }
}

#[test]
fn a_secret_file_comes_first() {
    assert_eq!(secret_path(&None), "/run/secrets/smtp_password");
    assert_eq!(secret_path(&stored("/p")), "/p");
    let contents = SecretFile::Contents(" pw\n".to_string());
    assert_eq!(read_smtp_password(&contents, &stored("env")), stored("pw"));
    assert_eq!(read_smtp_password(&SecretFile::Unreadable, &stored("env")), None);
    assert_eq!(read_smtp_password(&SecretFile::Absent, &stored("env")), stored("env"));
    assert_eq!(read_smtp_password(&SecretFile::Absent, &None), None);
}

#[test]
fn statuses_are_stored_and_read_back() {
    for s in [Status::Pending, Status::Up, Status::Down, Status::Paused, Status::Unknown] {
        assert_eq!(Status::from_db(s.as_str()), s);
    }
    assert_eq!(Status::from_db("other"), Status::Pending);
    assert_eq!(Cause::Keyword.as_str(), "keyword");
    assert_eq!(Trigger::SslInvalid.as_str(), "ssl_invalid");
}

#[test]
fn rows_become_records() {
    let incident = Incident::from_row(IncidentRow {
        id: 1,
        monitor_id: 2,
        started_at: 3,
        resolved_at: None,
        duration_seconds: None,
        cause: Some("dns".into()),
        status_code: None,
        error_message: None,
        acknowledged: 1,
    });
    assert!(incident.acknowledged);
    assert_eq!(incident.cause, stored("dns"));
    let cert = SslCert::from_row(SslCertRow {
        monitor_id: 2,
        issuer: None,
        subject: None,
        valid_from: None,
        valid_until: Some(9),
        days_remaining: None,
        is_valid: Some(0),
        chain_ok: Some(1),
        hostname_match: None,
        self_signed: Some(2),
        error: None,
        alerted_days: Some(7),
        invalid_alerted: 0,
        last_checked: None,
    });
    assert_eq!(cert.is_valid, Some(false));
    assert_eq!(cert.chain_ok, Some(true));
    assert_eq!(cert.hostname_match, None);
    assert_eq!(cert.self_signed, Some(true));
    assert!(!cert.invalid_alerted);
    let m = monitor(Status::Up, 4);
    let row = MonitorRow {
        id: m.id,
        name: m.name.clone(),
        kind: m.kind.clone(),
        url: m.url.clone(),
        method: m.method.clone(),
        headers: None,
        body: None,
        auth_type: None,
        auth_ref: None,
        expected_status_codes: m.expected_status_codes.clone(),
        interval_seconds: 60,
        timeout_seconds: 10,
        follow_redirects: 1,
        verify_ssl: 0,
        confirmation_threshold: 3,
        recovery_threshold: 1,
        retry_interval_seconds: 20,
        host: None,
        port: None,
        keyword: None,
        keyword_mode: None,
        keyword_case_sensitive: 0,
        dns_record_type: None,
        dns_expected_value: None,
        ssl_check_enabled: 1,
        ssl_alert_days: "[]".into(),
        domain_check_enabled: 0,
        domain_alert_days: "[]".into(),
        heartbeat_token: None,
        heartbeat_grace_seconds: 60,
        last_ping_at: None,
        status: "down".into(),
        is_paused: 0,
        last_checked_at: None,
        next_run_at: Some(5),
        consecutive_failures: 4,
        consecutive_successes: 0,
        tags: None,
        sort_order: 0,
        created_at: 1,
        updated_at: 2,
    };
    let read = Monitor::from_row(row);
    assert_eq!(read.status, Status::Down);
    assert!(read.follow_redirects);
    assert!(!read.verify_ssl);
    assert!(read.ssl_check_enabled);
    assert_eq!(read.next_run_at, Some(5));
}

#[test]
fn a_catch_up_runs_through_yesterday() {
    let day = 86_400;
    let now = 1_700_000_000;
    let today = now - now % day;
    let days = ensure_aggregates(now, 30, &None, Some(today - 2 * day + 5));
    assert_eq!(days, vec!["2023-11-12", "2023-11-13"]);
    let after = ensure_aggregates(now, 30, &stored("2023-11-12"), Some(0));
    assert_eq!(after, vec!["2023-11-13"]);
    assert!(ensure_aggregates(now, 30, &stored("2023-11-13"), Some(0)).is_empty());
    assert!(ensure_aggregates(now, 30, &None, None).is_empty());
    assert!(ensure_aggregates(now, 3, &None, Some(0)).len() <= 3);
}

#[test]
fn a_day_is_rolled_up() {
    let spans = vec![Span { start: 100, end: Some(200) }, Span { start: 86_000, end: None }];
    let r = rollup_monitor_day(90, 10, 2, &spans, 0, 86_400);
    assert_eq!(r.sample_count, 100);
    assert_eq!(r.incident_count, 2);
    assert_eq!(r.uptime.downtime_seconds, 500);
    let share = r.uptime.uptime_pct.unwrap();
    assert_eq!((share.down, share.total), (500, 86_400));
    assert_eq!(rollup_monitor_day(1, 0, 0, &[], 0, 86_400).uptime.downtime_seconds, 0);
}

#[test]
fn migrations_apply_once() {
    assert_eq!(run_migrations(&vec![1, 2], &vec![]), vec![1, 2]);
    assert_eq!(run_migrations(&vec![1, 2], &vec![1]), vec![2]);
    assert!(run_migrations(&vec![1, 2], &vec![1, 2]).is_empty());
    assert_eq!(current_schema_version(), 2);
}

#[test]
fn a_script_is_split_into_statements() {
    let statements = split_statements("CREATE TABLE a (x);\n\n  INSERT INTO a VALUES (1) ;\n;\n");
    assert_eq!(statements, vec!["CREATE TABLE a (x)", "INSERT INTO a VALUES (1)"]);
    assert!(split_statements("  \n-- only; a comment\n").is_empty());
}

#[test]
fn old_checks_are_pruned_by_the_day() {
    assert_eq!(prune_old_checks(30, 1_700_000_000), 1_700_000_000 - 30 * 86_400);
    assert!(can_prune(30, 1_700_000_000));
    assert!(!can_prune(i64::MAX, 0));
    let due: Vec<u64> = (0..30).filter(|n| vacuum_due(*n)).collect();
    assert_eq!(due, vec![0, 7, 14, 21, 28]);
}
