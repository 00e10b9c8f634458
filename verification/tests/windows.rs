//! Maintenance windows: when they are active, whom they cover, and how they are validated.

use vigil::json::Json;
use vigil::maintenance_windows::resolve::{
    can_list, can_resolve, maintenance_for, maintenance_intervals, monitor_in_scope,
    occurrences_overlapping, parse_tags, scan_cap, subtract_intervals, window_active_at, Suppression,
};
use vigil::models::{validate_window_dto, MaintenanceWindow, Ts};

#[allow(clippy::too_many_arguments)]
fn window(
    id: i64,
    scope: &str,
    target_ref: Option<&str>,
    starts_at: Ts,
    ends_at: Ts,
    recurrence: Option<&str>,
    suppress: &str,
    is_active: bool,
) -> MaintenanceWindow {
    MaintenanceWindow {
        id,
        name: format!("w{id}"),
        scope: scope.to_string(),
        target_ref: target_ref.map(str::to_string),
        starts_at,
        ends_at,
        recurrence: recurrence.map(str::to_string),
        suppress: suppress.to_string(),
        is_active,
        created_at: 0,
    }
}

const JAN1_00: Ts = 1_704_067_200;
const JAN1_0130: Ts = 1_704_072_600;
const JAN1_02: Ts = 1_704_074_400;
const JAN1_0230: Ts = 1_704_076_200;
const JAN1_0245: Ts = 1_704_077_100;
const JAN1_03: Ts = 1_704_078_000;
const JAN1_04: Ts = 1_704_081_600;
const JAN1_05: Ts = 1_704_085_200;
const JAN1_06: Ts = 1_704_088_800;
const JAN2_00: Ts = 1_704_153_600;
const DEC31_00: Ts = 1_703_980_800;

#[test]
fn one_off_before_during_after() {
    let w = window(1, "all", None, 1_000, 2_000, None, "alerts", true);
    assert!(!window_active_at(&w, 999));
    assert!(window_active_at(&w, 1_000));
    assert!(window_active_at(&w, 1_500));
    assert!(window_active_at(&w, 2_000));
    assert!(!window_active_at(&w, 2_001));
}

#[test]
fn cron_active_in_occurrence() {
    let w = window(1, "all", None, DEC31_00, DEC31_00 + 3_600, Some("0 * * * *"), "alerts", true);
    assert!(window_active_at(&w, JAN1_0230));
}

#[test]
fn cron_inactive_between_occurrences() {
    let w = window(1, "all", None, DEC31_00, DEC31_00 + 1_800, Some("0 * * * *"), "alerts", true);
    assert!(window_active_at(&w, JAN1_02));
    assert!(!window_active_at(&w, JAN1_0245));
    assert!(window_active_at(&w, JAN1_03));
}

#[test]
fn cron_inactive_before_starts_at() {
    let w = window(1, "all", None, JAN2_00, JAN2_00 + 3_600, Some("0 * * * *"), "alerts", true);
    assert!(!window_active_at(&w, JAN1_0230));
}

#[test]
fn cron_duration_exceeds_period_still_resolves_latest_occurrence() {
    let w = window(1, "all", None, JAN1_00, JAN1_00 + 7_200, Some("0 * * * *"), "alerts", true);
    assert!(window_active_at(&w, JAN1_0130));
}

#[test]
fn occurrences_overlapping_one_off() {
    let w = window(1, "all", None, 1_000, 2_000, None, "alerts", true);
    assert_eq!(occurrences_overlapping(&w, 500, 1_500), vec![(1_000, 2_000)]);
    assert_eq!(occurrences_overlapping(&w, 2_000, 3_000), vec![(1_000, 2_000)]);
    assert_eq!(occurrences_overlapping(&w, 2_001, 3_000), vec![]);
    assert_eq!(occurrences_overlapping(&w, 0, 999), vec![]);
}

#[test]
fn occurrences_overlapping_backs_up_from_minus_dur() {
    let w = window(1, "all", None, DEC31_00, DEC31_00 + 3_600, Some("0 * * * *"), "alerts", true);
    let occ = occurrences_overlapping(&w, JAN1_0230, JAN1_05);
    assert_eq!(
        occ,
        vec![
            (JAN1_02, JAN1_03),
            (JAN1_03, JAN1_04),
            (JAN1_04, JAN1_05),
            (JAN1_05, JAN1_06),
        ]
    );
    assert_eq!((occ[0].0.max(JAN1_0230), occ[0].1.min(JAN1_05)), (JAN1_0230, JAN1_03));
}

#[test]
fn occurrences_overlapping_floored_by_starts_at() {
    let w = window(1, "all", None, JAN2_00, JAN2_00 + 3_600, Some("0 * * * *"), "alerts", true);
    assert_eq!(occurrences_overlapping(&w, JAN1_00, JAN1_02), vec![]);
}

#[test]
fn scan_cap_floor_and_growth() {
    assert_eq!(scan_cap(0), 10_000);
    assert_eq!(scan_cap(-100), 10_000);
    assert_eq!(scan_cap(600_000), 600_000 / 60 + 2);
}

#[test]
fn monitor_in_scope_all() {
    let w = window(1, "all", None, 0, 0, None, "alerts", true);
    assert!(monitor_in_scope(&w, 42, &[]));
    assert!(monitor_in_scope(&w, 42, &["prod".to_string()]));
}

#[test]
fn monitor_in_scope_tag_match_and_mismatch() {
    let w = window(1, "tag", Some("\"prod\""), 0, 0, None, "alerts", true);
    assert!(monitor_in_scope(&w, 1, &["prod".to_string(), "web".to_string()]));
    assert!(!monitor_in_scope(&w, 1, &["staging".to_string()]));
    assert!(!monitor_in_scope(&w, 1, &[]));
}

#[test]
fn monitor_in_scope_tag_malformed_or_missing_target_ref_never_panics() {
    let missing = window(1, "tag", None, 0, 0, None, "alerts", true);
    assert!(!monitor_in_scope(&missing, 1, &["prod".to_string()]));
    let malformed = window(2, "tag", Some("not json"), 0, 0, None, "alerts", true);
    assert!(!monitor_in_scope(&malformed, 1, &["prod".to_string()]));
    let wrong_shape = window(3, "tag", Some("[1,2,3]"), 0, 0, None, "alerts", true);
    assert!(!monitor_in_scope(&wrong_shape, 1, &["prod".to_string()]));
    let empty = window(4, "tag", Some(""), 0, 0, None, "alerts", true);
    assert!(!monitor_in_scope(&empty, 1, &["prod".to_string()]));
}

#[test]
fn monitor_in_scope_monitors_match_and_mismatch() {
    let w = window(1, "monitors", Some("[1,2,3]"), 0, 0, None, "alerts", true);
    assert!(monitor_in_scope(&w, 2, &[]));
    assert!(!monitor_in_scope(&w, 99, &[]));
}

#[test]
fn monitor_in_scope_monitors_malformed_or_missing_target_ref_never_panics() {
    let missing = window(1, "monitors", None, 0, 0, None, "alerts", true);
    assert!(!monitor_in_scope(&missing, 2, &[]));
    let malformed = window(2, "monitors", Some("nope"), 0, 0, None, "alerts", true);
    assert!(!monitor_in_scope(&malformed, 2, &[]));
    let empty_array = window(3, "monitors", Some("[]"), 0, 0, None, "alerts", true);
    assert!(!monitor_in_scope(&empty_array, 2, &[]));
}

#[test]
fn monitor_in_scope_unknown_scope_defaults_false() {
    let w = window(1, "bogus", None, 0, 0, None, "alerts", true);
    assert!(!monitor_in_scope(&w, 1, &[]));
}

#[test]
fn maintenance_for_strongest_wins() {
    let now = 1_500;
    let alerts_w = window(1, "all", None, 1_000, 2_000, None, "alerts", true);
    let checks_w = window(2, "all", None, 1_000, 2_000, None, "checks", true);
    assert_eq!(
        maintenance_for(std::slice::from_ref(&alerts_w), 1, &[], now),
        Suppression::Alerts
    );
    assert_eq!(
        maintenance_for(&[alerts_w.clone(), checks_w.clone()], 1, &[], now),
        Suppression::Checks
    );
    assert_eq!(maintenance_for(&[checks_w, alerts_w], 1, &[], now), Suppression::Checks);
}

#[test]
fn maintenance_for_none_when_no_match() {
    let now = 1_500;
    let inactive = window(1, "all", None, 1_000, 2_000, None, "checks", false);
    let out_of_time = window(2, "all", None, 3_000, 4_000, None, "checks", true);
    let out_of_scope = window(3, "monitors", Some("[99]"), 1_000, 2_000, None, "checks", true);
    assert_eq!(maintenance_for(&[inactive], 1, &[], now), Suppression::Nothing);
    assert_eq!(maintenance_for(&[out_of_time], 1, &[], now), Suppression::Nothing);
    assert_eq!(maintenance_for(&[out_of_scope], 1, &[], now), Suppression::Nothing);
    assert_eq!(maintenance_for(&[], 1, &[], now), Suppression::Nothing);
}

#[test]
fn maintenance_intervals_clips_to_range() {
    let w = window(1, "all", None, 1_000, 3_000, None, "alerts", true);
    assert_eq!(maintenance_intervals(&[w], 1, &[], 1_500, 2_500), vec![(1_500, 2_500)]);
}

#[test]
fn maintenance_intervals_merges_overlapping_windows() {
    let a = window(1, "all", None, 1_000, 2_000, None, "alerts", true);
    let b = window(2, "all", None, 1_500, 2_500, None, "checks", true);
    assert_eq!(maintenance_intervals(&[a, b], 1, &[], 0, 5_000), vec![(1_000, 2_500)]);
}

#[test]
fn maintenance_intervals_skips_inactive_and_out_of_scope() {
    let inactive = window(1, "all", None, 1_000, 2_000, None, "alerts", false);
    let out_of_scope = window(2, "monitors", Some("[99]"), 1_000, 2_000, None, "alerts", true);
    assert_eq!(maintenance_intervals(&[inactive, out_of_scope], 1, &[], 0, 5_000), vec![]);
}

#[test]
fn subtract_intervals_no_cuts() {
    assert_eq!(subtract_intervals((0, 100), &[]), vec![(0, 100)]);
}

#[test]
fn subtract_intervals_partial_cut() {
    assert_eq!(subtract_intervals((0, 100), &[(20, 40)]), vec![(0, 20), (40, 100)]);
    assert_eq!(subtract_intervals((0, 100), &[(-10, 10)]), vec![(10, 100)]);
    assert_eq!(subtract_intervals((0, 100), &[(90, 200)]), vec![(0, 90)]);
}

#[test]
fn subtract_intervals_full_cut() {
    assert_eq!(subtract_intervals((0, 100), &[(0, 100)]), vec![]);
    assert_eq!(subtract_intervals((0, 100), &[(-10, 200)]), vec![]);
}

#[test]
fn subtract_intervals_multiple_unsorted_overlapping_cuts() {
    let cuts = vec![(60, 80), (10, 20), (15, 25)];
    assert_eq!(subtract_intervals((0, 100), &cuts), vec![(0, 10), (25, 60), (80, 100)]);
}

#[test]
fn subtract_intervals_empty_or_inverted_base() {
    assert_eq!(subtract_intervals((50, 50), &[(0, 100)]), vec![]);
    assert_eq!(subtract_intervals((100, 50), &[]), vec![]);
}

#[test]
fn parse_tags_valid() {
    assert_eq!(parse_tags(r#"["prod","web"]"#), vec!["prod".to_string(), "web".to_string()]);
    assert_eq!(parse_tags("[]"), Vec::<String>::new());
}

#[test]
fn parse_tags_malformed_or_wrong_shape_or_empty_never_panics() {
    assert_eq!(parse_tags(""), Vec::<String>::new());
    assert_eq!(parse_tags("not json"), Vec::<String>::new());
    assert_eq!(parse_tags("{}"), Vec::<String>::new());
    assert_eq!(parse_tags("[1,2,3]"), Vec::<String>::new());
}

#[test]
fn valid_create_all_scope() {
    assert!(validate_window_dto("nightly", "all", &None, 1000, 2000, &None).is_ok());
}

#[test]
fn valid_create_monitors_scope_with_cron() {
    let target = Some(Json::Array(vec![Json::Int(1), Json::Int(2), Json::Int(3)]));
    assert!(validate_window_dto(
        "db upgrade",
        "monitors",
        &target,
        1000,
        2000,
        &Some("0 2 * * 0".to_string())
    )
    .is_ok());
}

#[test]
fn valid_create_tag_scope() {
    let target = Some(Json::Str("prod".to_string()));
    assert!(validate_window_dto("tag window", "tag", &target, 1000, 2000, &None).is_ok());
}

#[test]
fn empty_name_rejected() {
    assert!(validate_window_dto("", "all", &None, 1000, 2000, &None).is_err());
}

#[test]
fn bad_scope_rejected() {
    assert!(validate_window_dto("w", "bogus", &None, 1000, 2000, &None).is_err());
}

#[test]
fn monitors_scope_non_array_target_ref_rejected() {
    let target = Some(Json::Str("not-an-array".to_string()));
    assert!(validate_window_dto("w", "monitors", &target, 1000, 2000, &None).is_err());
}

#[test]
fn monitors_scope_empty_array_target_ref_rejected() {
    let target = Some(Json::Array(vec![]));
    assert!(validate_window_dto("w", "monitors", &target, 1000, 2000, &None).is_err());
}

#[test]
fn monitors_scope_missing_target_ref_rejected() {
    assert!(validate_window_dto("w", "monitors", &None, 1000, 2000, &None).is_err());
}

#[test]
fn tag_scope_non_string_target_ref_rejected() {
    let target = Some(Json::Array(vec![Json::Str("prod".to_string())]));
    assert!(validate_window_dto("w", "tag", &target, 1000, 2000, &None).is_err());
}

#[test]
fn tag_scope_empty_string_target_ref_rejected() {
    let target = Some(Json::Str("".to_string()));
    assert!(validate_window_dto("w", "tag", &target, 1000, 2000, &None).is_err());
}

#[test]
fn ends_at_equal_starts_at_rejected() {
    assert!(validate_window_dto("w", "all", &None, 2000, 2000, &None).is_err());
}

#[test]
fn ends_at_before_starts_at_rejected() {
    assert!(validate_window_dto("w", "all", &None, 2000, 1000, &None).is_err());
}

#[test]
fn extreme_bounds_overflow_rejected_not_panics() {
    assert!(validate_window_dto("w", "all", &None, i64::MIN, i64::MAX, &None).is_err());
}

#[test]
fn duration_over_366_days_rejected() {
    let too_long = 366 * 24 * 3600 + 1;
    assert!(validate_window_dto("w", "all", &None, 0, too_long, &None).is_err());
}

#[test]
fn duration_exactly_366_days_accepted() {
    let max_ok = 366 * 24 * 3600;
    assert!(validate_window_dto("w", "all", &None, 0, max_ok, &None).is_ok());
}

#[test]
fn six_field_cron_rejected() {
    let rec = Some("0 18 * * * 5".to_string());
    assert!(validate_window_dto("w", "all", &None, 1000, 2000, &rec).is_err());
}

#[test]
fn macro_recurrence_rejected() {
    let rec = Some("@daily".to_string());
    assert!(validate_window_dto("w", "all", &None, 1000, 2000, &rec).is_err());
}

#[test]
fn malformed_five_field_cron_rejected() {
    let rec = Some("99 * * * *".to_string());
    assert!(validate_window_dto("w", "all", &None, 1000, 2000, &rec).is_err());
}

#[test]
fn valid_five_field_cron_accepted() {
    let rec = Some("0 2 * * 0".to_string());
    assert!(validate_window_dto("w", "all", &None, 1000, 2000, &rec).is_ok());
}

#[test]
fn accepted_windows_can_be_resolved_and_listed() {
    let cron = Some("0 2 * * *".to_string());
    assert!(validate_window_dto("nightly", "all", &None, JAN1_02, JAN1_03, &cron).is_ok());
    let w = window(1, "all", None, JAN1_02, JAN1_03, Some("0 2 * * *"), "alerts", true);
    assert!(can_resolve(&w, JAN2_00 + 9_000));
    assert!(window_active_at(&w, JAN2_00 + 9_000));
    assert!(can_list(&w, JAN1_00, JAN2_00));
    assert_eq!(occurrences_overlapping(&w, JAN1_00, JAN2_00), vec![(JAN1_02, JAN1_03)]);
}
