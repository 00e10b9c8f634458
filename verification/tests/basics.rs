//! Configuration, cooldown, tokens, tiers and status codes.

use vigil::certcheck::alerts::{tier, TierDecision};
use vigil::config::{port_from_bind, Config};
use vigil::cooldown::allowed;
use vigil::api::monitors::new_token;
use vigil::heartbeat::generate_token;
use vigil::status_codes;
use vigil::status_codes::parse_expected;

#[test]
fn test_fresh_cert_no_fire() {
    let result = tier(40, &[30, 14, 7, 3, 1], None);
    assert_eq!(result, TierDecision { fire: false, new_alerted_days: None });
}

#[test]
fn test_25_days_fire_30() {
    let result = tier(25, &[30, 14, 7, 3, 1], None);
    assert_eq!(result, TierDecision { fire: true, new_alerted_days: Some(30) });
}

#[test]
fn test_10_days_alerted_30_fire_14() {
    let result = tier(10, &[30, 14, 7, 3, 1], Some(30));
    assert_eq!(result, TierDecision { fire: true, new_alerted_days: Some(14) });
}

#[test]
fn test_5_days_alerted_14_fire_7() {
    let result = tier(5, &[30, 14, 7, 3, 1], Some(14));
    assert_eq!(result, TierDecision { fire: true, new_alerted_days: Some(7) });
}

#[test]
fn test_renewal_reset() {
    let result = tier(40, &[30, 14, 7, 3, 1], Some(7));
    assert_eq!(result, TierDecision { fire: false, new_alerted_days: None });
}

#[test]
fn test_order_independence() {
    let shuffled = &[7, 30, 1, 14, 3];
    let result = tier(25, shuffled, None);
    assert_eq!(result, TierDecision { fire: true, new_alerted_days: Some(30) });
}

#[test]
fn a_tier_fires_once() {
    let first = tier(10, &[30, 14, 7], None);
    assert_eq!(first, TierDecision { fire: true, new_alerted_days: Some(14) });
    let second = tier(10, &[30, 14, 7], first.new_alerted_days);
    assert!(!second.fire);
    assert_eq!(second.new_alerted_days, Some(14));
}

#[test]
fn defaults_match_global_constraints() {
    let cfg = Config::default();
    assert_eq!(cfg.bind, "0.0.0.0:8080");
    assert_eq!(cfg.db_path, "/data/vigil.db");
    assert_eq!(cfg.max_concurrency, 25);
}

#[test]
fn the_environment_overrides_the_defaults() {
    let cfg = Config::from_env(
        &Some("127.0.0.1:9000".to_string()),
        &None,
        &Some("4".to_string()),
    );
    assert_eq!(cfg.bind, "127.0.0.1:9000");
    assert_eq!(cfg.db_path, "/data/vigil.db");
    assert_eq!(cfg.max_concurrency, 4);
    let odd = Config::from_env(&None, &None, &Some("many".to_string()));
    assert_eq!(odd.max_concurrency, 25);
}

#[test]
fn port_from_bind_extracts_port() {
    assert_eq!(port_from_bind("0.0.0.0:8080"), "8080");
    assert_eq!(port_from_bind("127.0.0.1:9090"), "9090");
    assert_eq!(port_from_bind("garbage"), "garbage");
}

#[test]
fn the_port_follows_the_last_colon() {
    assert_eq!(port_from_bind("[::1]:7"), "7");
    assert_eq!(port_from_bind("host:"), "");
    assert_eq!(port_from_bind(""), "");
}

#[test]
fn first_allowed() {
    assert!(allowed(None, 1000, 15));
}

#[test]
fn within_blocked() {
    assert!(!allowed(Some(1000), 1000 + 14 * 60, 15));
}

#[test]
fn after_allowed() {
    assert!(allowed(Some(1000), 1000 + 15 * 60, 15));
}

#[test]
fn generates_32_char_alphanumeric_token() {
    let t = generate_token();
    assert_eq!(t.len(), 32);
    assert!(t.chars().all(|c| c.is_ascii_alphanumeric()));
}

#[test]
fn two_calls_differ() {
    assert_ne!(generate_token(), generate_token());
}

#[test]
fn parses_ranges_and_singles() {
    let r = parse_expected("200-299,301,418").unwrap();
    assert!(status_codes::matches(&r, 200) && status_codes::matches(&r, 299) && status_codes::matches(&r, 301) && status_codes::matches(&r, 418));
    assert!(!status_codes::matches(&r, 300) && !status_codes::matches(&r, 500));
}

#[test]
fn rejects_garbage() {
    assert!(parse_expected("abc").is_err());
}

#[test]
fn default_2xx() {
    let r = parse_expected("200-299").unwrap();
    assert!(status_codes::matches(&r, 204) && !status_codes::matches(&r, 199));
}

#[test]
fn rejects_reversed_range() {
    assert!(parse_expected("299-200").is_err());
    assert!(parse_expected("200-299").is_ok());
}

#[test]
fn parsed_ranges_are_in_order() {
    assert_eq!(parse_expected(" 500 , 200-204 ").unwrap(), vec![(500, 500), (200, 204)]);
    assert!(parse_expected("200-300-400").is_err());
    assert!(parse_expected("70000").is_err());
}

#[test]
fn only_heartbeat_monitors_get_a_token() {
    let t = new_token("heartbeat").unwrap();
    assert_eq!(t.len(), 32);
    assert!(t.chars().all(|c| c.is_ascii_alphanumeric()));
    assert_ne!(new_token("heartbeat").unwrap(), t);
    assert_eq!(new_token("http"), None);
    assert_eq!(new_token("heartbeats"), None);
}
