//! Notifications: what they say, who gets them, and the requests that carry them.

use vigil::json::{self, Json};
use vigil::models::{test_defaults_monitor, Connectivity, MaintenanceWindow, Monitor, Trigger};
use vigil::notify::dispatch::{
    by_email, deliver, on_transition, send_alert, send_email_via_channel, trigger_status, wants,
    AttachedChannel, EmailChannelConfig,
};
use vigil::notify::email::{security, Security, SmtpTransport};
use vigil::notify::http::{
    build_discord_payload, discord_color, reply_error, send, send_discord, send_ntfy, send_webhook,
    substitute_vars, Payload, DEFAULT_WEBHOOK_TEMPLATE,
};
use vigil::notify::templates::{render, render_alert};
use vigil::notify::{auth_user, AlertCtx, EmailMsg, NotifyMsg, SmtpConfig, TemplateCtx};
use vigil::renotify::{
    build_reminder_msg, format_elapsed, pass_runs, reminder_due, renotify_once, still_open,
    trigger_for, IncidentState,
};

fn sample_msg() -> NotifyMsg {
    NotifyMsg {
        monitor_name: "api".into(),
        url: "https://api.example.com".into(),
        status: "down".into(),
        status_code: Some(503),
        error: Some("connection refused".into()),
        response_time_ms: None,
        duration: None,
        ssl_days: None,
        domain_days: None,
        checked_at: 1_700_000_000,
        incident_url: None,
        subject: "🔴 api is DOWN".into(),
        body: "Monitor: api\nStatus: down".into(),
        body_html: None,
    }
}

fn text(s: &str) -> Json {
    Json::Str(s.to_string())
}

fn object(members: Vec<(&str, Json)>) -> Json {
    Json::Object(members.into_iter().map(|(k, v)| (k.to_string(), v)).collect())
}

fn pairs(v: &[(&str, &str)]) -> Vec<(String, String)> {
    v.iter().map(|(a, b)| (a.to_string(), b.to_string())).collect()
}

fn parsed(s: &str) -> serde_json::Value {
    serde_json::from_str(s).expect("valid JSON")
}

fn api() -> Monitor {
    Monitor {
        id: 7,
        name: "api".into(),
        url: Some("https://api.example.com".into()),
        ..test_defaults_monitor()
    }
}

#[test]
fn webhook_default_template_is_valid_json_with_monitor_name() {
    let body = substitute_vars(DEFAULT_WEBHOOK_TEMPLATE, &sample_msg());
    let v = parsed(&body);
    assert_eq!(v["monitor"], "api");
    assert_eq!(v["status"], "down");
    assert_eq!(v["status_code"], "503");
}

#[test]
fn webhook_template_escapes_quotes_in_error() {
    let mut msg = sample_msg();
    msg.error = Some("said \"no\"".into());
    let body = substitute_vars(DEFAULT_WEBHOOK_TEMPLATE, &msg);
    let v = parsed(&body);
    assert_eq!(v["error"], "said \"no\"");
}

#[test]
fn discord_payload_has_embed_with_monitor_name() {
    let msg = sample_msg();
    let v = parsed(&json::write(&build_discord_payload(&msg)));
    assert_eq!(v["content"], msg.subject);
    assert_eq!(v["embeds"][0]["title"], msg.subject);
    assert_eq!(v["embeds"][0]["description"], msg.body);
    assert_eq!(v["embeds"][0]["color"], 0xF2_6D_6D);
}

#[test]
fn discord_colors_follow_the_status() {
    assert_eq!(discord_color("down"), 0xF2_6D_6D);
    assert_eq!(discord_color("up"), 0x35_D0_7F);
    assert_eq!(discord_color("recovered"), 0x35_D0_7F);
    assert_eq!(discord_color("alert"), 0xF5_A6_23);
}

#[test]
fn every_variable_is_substituted() {
    let template = "{{monitor_name}}|{{url}}|{{status}}|{{status_code}}|{{error}}|\
                    {{response_time_ms}}|{{duration}}|{{ssl_days}}|{{domain_days}}|\
                    {{checked_at}}|{{incident_url}}|{{subject}}|{{body}}|{{unknown}}";
    let mut msg = sample_msg();
    msg.response_time_ms = Some(42);
    msg.duration = Some(9);
    msg.ssl_days = Some(3);
    msg.domain_days = Some(4);
    msg.incident_url = Some("/i/1".into());
    assert_eq!(
        substitute_vars(template, &msg),
        "api|https://api.example.com|down|503|connection refused|42|9|3|4|1700000000|/i/1|\
         🔴 api is DOWN|Monitor: api\\nStatus: down|{{unknown}}"
    );
}

#[test]
fn a_webhook_request_follows_its_configuration() {
    let config = object(vec![
        ("url", text("https://hooks.example.com/x")),
        ("method", text("put")),
        ("template", text("{\"m\":\"{{monitor_name}}\"}")),
        ("headers", object(vec![("X-A", text("1")), ("X-B", Json::Int(2)), ("X-C", text("3"))])),
    ]);
    let r = send_webhook(&config, &sample_msg()).unwrap();
    assert_eq!(r.url, "https://hooks.example.com/x");
    assert_eq!(r.method, "PUT");
    assert!(matches!(&r.body, Payload::Text(t) if t == "{\"m\":\"api\"}"));
    assert_eq!(
        r.headers,
        pairs(&[("X-A", "1"), ("X-C", "3"), ("Content-Type", "application/json")])
    );
}

#[test]
fn an_impossible_method_becomes_a_post() {
    let spaced = object(vec![("url", text("u")), ("method", text("get it"))]);
    assert_eq!(send_webhook(&spaced, &sample_msg()).unwrap().method, "POST");
    let empty = object(vec![("url", text("u")), ("method", text(""))]);
    assert_eq!(send_webhook(&empty, &sample_msg()).unwrap().method, "POST");
    let own = object(vec![("url", text("u")), ("method", text("purge"))]);
    assert_eq!(send_webhook(&own, &sample_msg()).unwrap().method, "PURGE");
    let none = object(vec![("url", text("u"))]);
    assert_eq!(send_webhook(&none, &sample_msg()).unwrap().method, "POST");
}

#[test]
fn an_uppercased_method_may_be_none() {
    let sharp = object(vec![("url", text("u")), ("method", text("straße"))]);
    assert_eq!(send_webhook(&sharp, &sample_msg()).unwrap().method, "STRASSE");
    let foreign = object(vec![("url", text("u")), ("method", text("é"))]);
    assert_eq!(send_webhook(&foreign, &sample_msg()).unwrap().method, "POST");
}

#[test]
fn an_ntfy_request_carries_the_subject_as_title() {
    let config = object(vec![
        ("server", text("https://ntfy.example.com//")),
        ("topic", text("ops")),
        ("priority", text("high")),
        ("tags", text("skull")),
        ("token", text("tk")),
    ]);
    let r = send_ntfy(&config, &sample_msg()).unwrap();
    assert_eq!(r.url, "https://ntfy.example.com/ops");
    assert_eq!(r.method, "POST");
    assert!(matches!(&r.body, Payload::Text(t) if t == "Monitor: api\nStatus: down"));
    assert_eq!(
        r.headers,
        pairs(&[
            ("Title", "🔴 api is DOWN"),
            ("Priority", "high"),
            ("Tags", "skull"),
            ("Authorization", "Bearer tk"),
        ])
    );
    let plain = send_ntfy(&object(vec![("topic", text("ops"))]), &sample_msg()).unwrap();
    assert_eq!(plain.url, "https://ntfy.sh/ops");
    assert_eq!(plain.headers, pairs(&[("Title", "🔴 api is DOWN")]));
}

#[test]
fn a_discord_request_posts_json() {
    let config = object(vec![("webhook_url", text("https://discord.example.com/w"))]);
    let r = send_discord(&config, &sample_msg()).unwrap();
    assert_eq!(r.method, "POST");
    assert_eq!(r.url, "https://discord.example.com/w");
    assert!(r.headers.is_empty());
    let Payload::Json(payload) = r.body else { panic!("a Discord message is JSON") };
    assert_eq!(parsed(&json::write(&payload))["content"], "🔴 api is DOWN");
}

#[test]
fn a_request_needs_a_known_channel_and_its_address() {
    let msg = sample_msg();
    let empty = object(vec![]);
    let fails = |kind: &str, config: &Json| send(kind, config, &msg).unwrap_err();
    assert_eq!(fails("webhook", &empty), "webhook channel config missing 'url'");
    assert_eq!(fails("discord", &empty), "discord channel config missing 'webhook_url'");
    assert_eq!(fails("ntfy", &empty), "ntfy channel config missing 'topic'");
    assert_eq!(fails("ntfy", &object(vec![("topic", Json::Int(1))])), "ntfy channel config missing 'topic'");
    assert_eq!(fails("webhook", &Json::Null), "webhook channel config missing 'url'");
    assert_eq!(fails("pager", &empty), "unsupported notification channel type: pager");
    let whole = object(vec![("url", text("a")), ("webhook_url", text("b")), ("topic", text("c"))]);
    assert_eq!(send("webhook", &whole, &msg).unwrap().url, "a");
    assert_eq!(send("discord", &whole, &msg).unwrap().url, "b");
    assert_eq!(send("ntfy", &whole, &msg).unwrap().url, "https://ntfy.sh/c");
}

#[test]
fn only_a_successful_reply_is_no_error() {
    assert_eq!(reply_error("webhook", 200, "200 OK"), None);
    assert_eq!(reply_error("webhook", 299, "299"), None);
    assert_eq!(
        reply_error("webhook", 500, "500 Internal Server Error").unwrap(),
        "webhook returned 500 Internal Server Error"
    );
    assert_eq!(
        reply_error("discord", 404, "404 Not Found").unwrap(),
        "discord webhook returned 404 Not Found"
    );
    assert_eq!(reply_error("ntfy", 199, "199").unwrap(), "ntfy returned 199");
}

#[test]
fn json_is_written_compactly() {
    let v = object(vec![
        ("a", Json::Array(vec![Json::Null, Json::Bool(true), Json::Bool(false)])),
        ("b\"", Json::Int(-3)),
        ("c", Json::UInt(18_446_744_073_709_551_615)),
        ("d", Json::Real("1.5".into())),
        ("e", text("x\n\u{1}é")),
        ("f", object(vec![])),
    ]);
    assert_eq!(
        json::write(&v),
        "{\"a\":[null,true,false],\"b\\\"\":-3,\"c\":18446744073709551615,\"d\":1.5,\
         \"e\":\"x\\n\\u0001é\",\"f\":{}}"
    );
    assert_eq!(json::escape("\\ \u{8}\u{c}\r\t"), "\\\\ \\b\\f\\r\\t");
}

#[test]
fn transition_templates_name_the_monitor() {
    let ctx = TemplateCtx {
        monitor_name: "api".into(),
        url: "https://a".into(),
        status: "down".into(),
        status_code: Some(500),
        error: Some("boom".into()),
        response_time_ms: Some(12),
        duration: Some(60),
        checked_at: 9,
    };
    let (subject, body, html) = render(Trigger::Down, &ctx);
    assert_eq!(subject, "🔴 api is DOWN");
    assert_eq!(
        body,
        "Monitor: api\nURL: https://a\nStatus: down\nStatus code: 500\nError: boom\n\
         Response time: 12ms\nDuration: 60s\nChecked at: 9"
    );
    assert_eq!(html, None);
    let bare = TemplateCtx {
        status_code: None,
        error: None,
        response_time_ms: None,
        duration: None,
        ..ctx
    };
    let (subject, body, _) = render(Trigger::Recovered, &bare);
    assert_eq!(subject, "✅ api recovered");
    assert_eq!(body, "Monitor: api\nURL: https://a\nStatus: down\nStatus code: n/a\nChecked at: 9");
    assert_eq!(render(Trigger::HeartbeatMissed, &bare).0, "api notification");
}

#[test]
fn alert_templates_name_the_monitor() {
    let ctx = AlertCtx {
        monitor_name: "api".into(),
        url: "https://a".into(),
        ssl_days: Some(5),
        domain_days: None,
        error: None,
        checked_at: 9,
    };
    let (subject, body, html) = render_alert(Trigger::SslExpiring, &ctx);
    assert_eq!(subject, "⚠️ api SSL certificate expiring soon");
    assert_eq!(body, "Monitor: api\nURL: https://a\nSSL days remaining: 5\nChecked at: 9");
    assert_eq!(html, None);
    assert_eq!(render_alert(Trigger::SslInvalid, &ctx).0, "🔴 api SSL certificate invalid");
    assert_eq!(
        render_alert(Trigger::DomainExpiring, &ctx).0,
        "⚠️ api domain registration expiring soon"
    );
    assert_eq!(render_alert(Trigger::Down, &ctx).0, "api notification");
}

#[test]
fn a_transition_message_carries_its_context() {
    let msg = on_transition(&api(), Trigger::Recovered, 100);
    assert_eq!(msg.status, "up");
    assert_eq!(msg.monitor_name, "api");
    assert_eq!(msg.url, "https://api.example.com");
    assert_eq!(msg.subject, "✅ api recovered");
    assert_eq!(msg.checked_at, 100);
    assert_eq!(msg.status_code, None);
    assert_eq!(trigger_status(Trigger::HeartbeatMissed), "down");
    assert_eq!(trigger_status(Trigger::SslExpiring), "alert");
    let mut nameless = api();
    nameless.url = None;
    assert_eq!(on_transition(&nameless, Trigger::Down, 0).url, "");
}

#[test]
fn an_alert_message_carries_the_days_left() {
    let ctx = AlertCtx {
        monitor_name: "api".into(),
        url: "u".into(),
        ssl_days: None,
        domain_days: Some(6),
        error: Some("late".into()),
        checked_at: 1,
    };
    let msg = send_alert(Trigger::DomainExpiring, &ctx);
    assert_eq!(msg.domain_days, Some(6));
    assert_eq!(msg.ssl_days, None);
    assert_eq!(msg.error, Some("late".to_string()));
    assert_eq!(msg.status, "domain_expiring");
}

fn channel(id: i64, triggers: &str) -> AttachedChannel {
    AttachedChannel {
        channel_id: id,
        channel_type: "webhook".into(),
        config: "{}".into(),
        triggers: triggers.into(),
    }
}

#[test]
fn a_channel_gets_what_it_wants() {
    assert!(wants("[\"down\",\"recovered\"]", Trigger::Down));
    assert!(!wants("[\"down\",\"recovered\"]", Trigger::SslExpiring));
    assert!(wants("[\"heartbeat_missed\"]", Trigger::HeartbeatMissed));
    assert!(!wants("not json", Trigger::Down));
    assert!(!wants("", Trigger::Down));
    assert!(!wants("[1]", Trigger::Down));
}

#[test]
fn delivery_respects_wishes_and_cooldown() {
    let channels =
        vec![channel(1, "[\"down\"]"), channel(2, "[\"recovered\"]"), channel(3, "[\"down\"]")];
    let last = vec![None, None, Some(940)];
    assert_eq!(deliver(&[], &api(), Trigger::Down, &channels, &last, 1000, 5), vec![0]);
    assert_eq!(deliver(&[], &api(), Trigger::Down, &channels, &last, 1000, 1), vec![0, 2]);
    assert_eq!(deliver(&[], &api(), Trigger::Recovered, &channels, &last, 1000, 5), vec![1]);
}

#[test]
fn a_maintenance_window_silences_delivery() {
    let channels = vec![channel(1, "[\"down\"]")];
    let window = |suppress: &str| MaintenanceWindow {
        id: 1,
        name: "w".into(),
        scope: "all".into(),
        target_ref: None,
        starts_at: 0,
        ends_at: 2000,
        recurrence: None,
        suppress: suppress.into(),
        is_active: true,
        created_at: 0,
    };
    for kind in ["alerts", "checks"] {
        let w = vec![window(kind)];
        assert!(deliver(&w, &api(), Trigger::Down, &channels, &vec![None], 2000, 5).is_empty());
        assert_eq!(deliver(&w, &api(), Trigger::Down, &channels, &vec![None], 2001, 5), vec![0]);
    }
}

#[test]
fn channels_cool_down_separately() {
    let channels = vec![channel(1, "[\"down\"]"), channel(2, "[\"down\"]")];
    let first = deliver(&[], &api(), Trigger::Down, &channels, &vec![None, Some(0)], 299, 5);
    assert_eq!(first, vec![0]);
    let second = deliver(&[], &api(), Trigger::Down, &channels, &vec![Some(299), Some(0)], 300, 5);
    assert_eq!(second, vec![1]);
}

#[test]
fn an_email_channel_becomes_a_mail() {
    let cfg = EmailChannelConfig {
        host: "smtp.example.com".into(),
        port: 587,
        security: "starttls".into(),
        from: "vigil@example.com".into(),
        to: vec!["ops@example.com".into()],
        username: None,
    };
    let (smtp, mail) = send_email_via_channel(cfg, "s", "b", &Some("<b>".into()));
    assert_eq!(smtp.host, "smtp.example.com");
    assert_eq!(smtp.port, 587);
    assert_eq!(smtp.security, "starttls");
    assert_eq!(mail.to, vec!["ops@example.com".to_string()]);
    assert_eq!(mail.from, "vigil@example.com");
    assert_eq!(mail.subject, "s");
    assert_eq!(mail.body_text, "b");
    assert_eq!(mail.body_html, Some("<b>".to_string()));
    assert!(by_email("email"));
    assert!(!by_email("webhook"));
}

fn smtp(security: &str, username: Option<&str>) -> SmtpConfig {
    SmtpConfig {
        host: "h".into(),
        port: 25,
        security: security.into(),
        username: username.map(str::to_string),
    }
}

#[test]
fn security_follows_the_configuration() {
    assert_eq!(security(&smtp("none", None)), Security::Plain);
    assert_eq!(security(&smtp("tls", None)), Security::Tls);
    assert_eq!(security(&smtp("starttls", None)), Security::StartTls);
}

#[test]
fn a_login_needs_a_password() {
    let mail = EmailMsg {
        to: vec![],
        from: "me@example.com".into(),
        subject: String::new(),
        body_text: String::new(),
        body_html: None,
    };
    let transport = SmtpTransport::new(Some("pw".into()));
    let login = |user: Option<&str>| transport.credentials(&smtp("none", user), &mail);
    assert_eq!(login(Some("u")), Some(("u".to_string(), "pw".to_string())));
    assert_eq!(login(None), Some(("me@example.com".to_string(), "pw".to_string())));
    assert_eq!(SmtpTransport::new(None).credentials(&smtp("none", Some("u")), &mail), None);
    assert_eq!(auth_user(&None, "f"), "f");
    assert_eq!(auth_user(&Some("u".into()), "f"), "u");
}

#[test]
fn elapsed_time_is_hours_and_minutes() {
    assert_eq!(format_elapsed(0), "0m");
    assert_eq!(format_elapsed(-5), "0m");
    assert_eq!(format_elapsed(59), "0m");
    assert_eq!(format_elapsed(180), "3m");
    assert_eq!(format_elapsed(6 * 3600 + 180), "6h 3m");
}

#[test]
fn a_reminder_says_how_long_it_has_been() {
    let msg = build_reminder_msg(&api(), Trigger::Down, 1000, 1000 + 7260);
    assert_eq!(msg.subject, "Reminder: 🔴 api is DOWN");
    assert!(msg.body.ends_with("\n\nStill down for 2h 1m."));
    assert!(msg.body.contains("Duration: 7260s"));
    assert_eq!(msg.duration, Some(7260));
    assert_eq!(msg.status, "down");
}

#[test]
fn reminders_wait_for_their_cadence() {
    assert!(reminder_due(None, 0, 3600, 1));
    assert!(!reminder_due(None, 0, 3599, 1));
    assert!(!reminder_due(Some(3600), 0, 7199, 1));
    assert!(reminder_due(Some(3600), 0, 7200, 1));
    assert!(pass_runs(1, Connectivity::Online));
    assert!(!pass_runs(0, Connectivity::Online));
    assert!(!pass_runs(1, Connectivity::Offline));
    assert_eq!(trigger_for("heartbeat"), Trigger::HeartbeatMissed);
    assert_eq!(trigger_for("http"), Trigger::Down);
}

#[test]
fn only_open_unacknowledged_incidents_are_reminded() {
    let state = |resolved_at, acknowledged| Some(IncidentState { resolved_at, acknowledged });
    assert!(still_open(state(None, false)));
    assert!(!still_open(state(Some(1), false)));
    assert!(!still_open(state(None, true)));
    assert!(!still_open(None));
    let once = |row| renotify_once(&api(), 0, None, row, 3600, 1);
    let (trigger, msg) = once(state(None, false)).unwrap();
    assert_eq!(trigger, Trigger::Down);
    assert_eq!(msg.subject, "Reminder: 🔴 api is DOWN");
    assert!(once(state(None, true)).is_none());
    assert!(renotify_once(&api(), 0, Some(1), state(None, false), 3600, 1).is_none());
}
