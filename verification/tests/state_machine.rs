//! The state machine of a monitor.

use vigil::models::Connectivity::{Offline, Online};
use vigil::models::Status::{Down, Pending, Unknown, Up};
use vigil::models::{Connectivity, Status};
use vigil::state::{evaluate, Inputs, Thresholds, Transition};

fn inp(cur: Status, prev: Status, f: i64, s: i64, ok: bool, a: Connectivity) -> Inputs {
    Inputs {
        current: cur,
        prev_confirmed: prev,
        consecutive_failures: f,
        consecutive_successes: s,
        outcome_ok: ok,
        anchor: a,
        th: Thresholds { confirmation: 3, recovery: 1 },
    }
}

#[test]
fn pending_first_success_goes_up() {
    let d = evaluate(&inp(Pending, Pending, 0, 0, true, Online));
    assert_eq!(d.next_status, Up);
    assert_eq!(d.transition, Some(Transition::ToUpNoIncident));
}

#[test]
fn one_failure_stays_up_and_retries() {
    let d = evaluate(&inp(Up, Up, 0, 0, false, Online));
    assert_eq!(d.next_status, Up);
    assert_eq!(d.consecutive_failures, 1);
    assert!(d.use_retry_interval);
    assert_eq!(d.transition, None);
}

#[test]
fn third_failure_anchors_up_goes_down() {
    let d = evaluate(&inp(Up, Up, 2, 0, false, Online));
    assert_eq!(d.next_status, Down);
    assert_eq!(d.consecutive_failures, 3);
    assert_eq!(d.transition, Some(Transition::ToDownOpenIncident));
}

#[test]
fn third_failure_anchors_down_goes_unknown() {
    let d = evaluate(&inp(Up, Up, 2, 0, false, Offline));
    assert_eq!(d.next_status, Unknown);
    assert_eq!(d.transition, Some(Transition::ToUnknown));
}

#[test]
fn down_recovers_on_first_success() {
    let d = evaluate(&inp(Down, Down, 3, 0, true, Online));
    assert_eq!(d.next_status, Up);
    assert_eq!(d.transition, Some(Transition::ToUpCloseIncident));
}

#[test]
fn unknown_to_up_prev_up() {
    let d = evaluate(&inp(Unknown, Up, 0, 0, true, Online));
    assert_eq!(d.next_status, Up);
    assert_eq!(d.transition, Some(Transition::ToUpNoIncident));
}

#[test]
fn unknown_to_up_prev_down_closes() {
    let d = evaluate(&inp(Unknown, Down, 0, 0, true, Online));
    assert_eq!(d.next_status, Up);
    assert_eq!(d.transition, Some(Transition::ToUpCloseIncident));
}

#[test]
fn unknown_confirmed_fail_prev_up_opens() {
    let d = evaluate(&inp(Unknown, Up, 2, 0, false, Online));
    assert_eq!(d.next_status, Down);
    assert_eq!(d.transition, Some(Transition::ToDownOpenIncident));
}

#[test]
fn unknown_confirmed_fail_prev_down_no_dup() {
    let d = evaluate(&inp(Unknown, Down, 2, 0, false, Online));
    assert_eq!(d.next_status, Down);
    assert_eq!(d.transition, None);
}

#[test]
fn fail_while_offline_never_opens_incident() {
    let d = evaluate(&inp(Down, Down, 2, 0, false, Offline));
    assert_eq!(d.next_status, Unknown);
    assert_eq!(d.transition, Some(Transition::ToUnknown));
}

#[test]
fn failures_are_counted_until_a_success() {
    let first = evaluate(&inp(Up, Up, 0, 5, false, Online));
    assert_eq!((first.consecutive_failures, first.consecutive_successes), (1, 0));
    let second = evaluate(&inp(Up, Up, first.consecutive_failures, 0, true, Online));
    assert_eq!((second.consecutive_failures, second.consecutive_successes), (0, 1));
    assert_eq!(second.next_status, Up);
    assert_eq!(second.transition, None);
}
