//! Uptime, days and months.

use vigil::report::{month_bounds, month_label, month_of, next_month, prior_month};
use vigil::rollup::{day_bounds, day_str};
use vigil::uptime::{compute, Share, Span};

fn pct(share: Option<Share>) -> Option<f64> {
    share.map(|s| ((1.0 - s.down as f64 / s.total as f64) * 100.0 * 100.0).round() / 100.0)
}

#[test]
fn no_checks_none() {
    let u = compute(&[], 0, 1000, false, &[]);
    assert_eq!(pct(u.uptime_pct), None);
    assert_eq!(u.downtime_seconds, 0);
}

#[test]
fn no_incidents_100() {
    let u = compute(&[], 0, 1000, true, &[]);
    assert_eq!(pct(u.uptime_pct), Some(100.0));
}

#[test]
fn open_incident_to_now() {
    let u = compute(&[Span { start: 800, end: None }], 0, 1000, true, &[]);
    assert_eq!(u.downtime_seconds, 200);
    assert_eq!(pct(u.uptime_pct), Some(80.0));
}

#[test]
fn clips_to_window() {
    let u = compute(&[Span { start: -100, end: Some(100) }], 0, 1000, true, &[]);
    assert_eq!(u.downtime_seconds, 100);
}

#[test]
fn downtime_fully_inside_maintenance_is_excluded() {
    let u = compute(&[Span { start: 400, end: Some(600) }], 0, 1000, true, &[(300, 600)]);
    assert_eq!(u.downtime_seconds, 0);
    assert_eq!(pct(u.uptime_pct), Some(100.0));
}

#[test]
fn downtime_partial_overlap_counts_only_outside_part() {
    let u = compute(&[Span { start: 400, end: Some(600) }], 0, 1000, true, &[(300, 500)]);
    assert_eq!(u.downtime_seconds, 100);
    assert_eq!(pct(u.uptime_pct), Some(87.5));
}

#[test]
fn whole_window_under_maintenance_is_none() {
    let u = compute(&[Span { start: 400, end: Some(600) }], 0, 1000, true, &[(0, 1000)]);
    assert_eq!(pct(u.uptime_pct), None);
    assert_eq!(u.downtime_seconds, 0);
}

#[test]
fn maintenance_unmerged_and_out_of_window_still_correct() {
    let u = compute(
        &[Span { start: 400, end: Some(600) }],
        0,
        1000,
        true,
        &[(300, 500), (450, 600), (2000, 3000)],
    );
    assert_eq!(u.downtime_seconds, 0);
    assert_eq!(pct(u.uptime_pct), Some(100.0));
}

#[test]
fn an_empty_window_has_no_uptime() {
    let u = compute(&[Span { start: 0, end: None }], 1000, 1000, true, &[]);
    assert_eq!(u.uptime_pct, None);
    assert_eq!(u.downtime_seconds, 0);
    let u = compute(&[], 1000, 1000, true, &[]);
    assert_eq!(u.uptime_pct, None);
    assert_eq!(u.downtime_seconds, 0);
}

#[test]
fn day_bounds_known_epoch() {
    let (start, end) = day_bounds("2000-01-01");
    assert_eq!(start, 946_684_800);
    assert_eq!(end, 946_684_800 + 86_400);
}

#[test]
fn day_str_round_trips_day_bounds() {
    let (start, _) = day_bounds("2024-03-15");
    assert_eq!(day_str(start), "2024-03-15");
}

#[test]
fn day_bounds_bad_input_falls_back_to_epoch_zero() {
    let (start, end) = day_bounds("not-a-day");
    assert_eq!(start, 0);
    assert_eq!(end, 86400);
}

#[test]
fn days_of_distant_years_round_trip() {
    for at in [-62_167_219_200i64, 253_402_300_799, 253_402_300_800, -2_208_988_800] {
        let day = day_str(at);
        let (start, end) = day_bounds(&day);
        assert!(start <= at && at < end, "{day}");
        assert_eq!(day_str(start), day);
    }
    assert_eq!(day_str(253_402_300_800), "+10000-01-01");
    assert_eq!(day_str(-62_167_219_201), "-0001-12-31");
    assert_eq!(day_bounds("-0001-12-31").1, -62_167_219_200);
}

#[test]
fn month_bounds_and_labels_utc() {
    let (s, e) = month_bounds("2026-03");
    assert_eq!(s, 1_772_323_200);
    assert_eq!(e, 1_775_001_600);
    assert_eq!(month_label("2026-03"), "March 2026");
    assert_eq!(month_of(s), "2026-03");
    assert_eq!(month_of(e - 1), "2026-03");
}

#[test]
fn prior_and_next_month_year_rollover() {
    assert_eq!(prior_month("2026-01"), "2025-12");
    assert_eq!(next_month("2025-12"), "2026-01");
    assert_eq!(prior_month("2026-03"), "2026-02");
    assert_eq!(next_month("2026-03"), "2026-04");
}

#[test]
fn month_bounds_bad_input_is_safe() {
    let (s, e) = month_bounds("nonsense");
    assert!(e > s);
}

#[test]
fn months_meet_and_hold_their_seconds() {
    let mut period = "2023-11".to_string();
    for _ in 0..30 {
        let (start, end) = month_bounds(&period);
        let next = next_month(&period);
        assert_eq!(month_bounds(&next).0, end);
        assert_eq!(prior_month(&next), period);
        assert_eq!(month_of(start), period);
        assert_eq!(month_of(end - 1), period);
        assert_eq!(month_of(end), next);
        assert!(period < next);
        period = next;
    }
    assert_eq!(month_bounds("2024-02").1 - month_bounds("2024-02").0, 29 * 86_400);
}

#[test]
fn odd_periods_fall_back() {
    assert_eq!(month_label("2026-13"), "January 2026");
    assert_eq!(month_label("2026"), "January 2026");
    assert_eq!(month_label("999999-05"), "January 1970");
    assert_eq!(next_month("x-12"), "1971-01");
    assert_eq!(month_of(i64::MAX), "1970-01");
}

#[test]
fn a_shown_uptime_lies_near_its_share() {
    let share = Share { down: 300, total: 2_592_000 };
    assert!(share.shown_by(9_998));
    assert!(share.shown_by(9_999));
    assert!(!share.shown_by(9_997));
    assert!(!share.shown_by(10_000));
    assert!(Share { down: 0, total: 1 }.shown_by(10_000));
    assert!(!Share { down: 0, total: 0 }.shown_by(10_000));
}
