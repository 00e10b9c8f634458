//! The schedule of checks.

use vigil::scheduler::SchedState;

#[test]
fn schedule_dedups_to_one_entry() {
    let mut s = SchedState::new();
    s.schedule(1, 100);
    s.schedule(1, 50);
    assert_eq!(s.take_due(100), Some(1));
    assert_eq!(s.take_due(100), None);
}

#[test]
fn take_due_marks_in_flight_no_double_fire() {
    let mut s = SchedState::new();
    s.schedule(1, 0);
    assert_eq!(s.take_due(10), Some(1));
    s.schedule(1, 0);
    assert_eq!(s.take_due(10), None, "in-flight monitor must not fire again");
    s.complete(1);
    s.schedule(1, 0);
    assert_eq!(s.take_due(10), Some(1), "after complete it can run again");
}

#[test]
fn not_due_yet_returns_none() {
    let mut s = SchedState::new();
    s.schedule(1, 100);
    assert_eq!(s.take_due(50), None);
}

#[test]
fn check_now_skipped_while_in_flight() {
    let mut s = SchedState::new();
    s.schedule(1, 100);
    assert_eq!(s.take_due(100), Some(1));
    s.check_now(1);
    assert_eq!(s.take_due(100), None);
}

#[test]
fn remove_evicts_and_clears() {
    let mut s = SchedState::new();
    s.schedule(1, 0);
    s.remove(1);
    assert_eq!(s.take_due(100), None);
}

#[test]
fn remove_does_not_clear_in_flight_no_double_fire() {
    let mut s = SchedState::new();
    s.schedule(1, 0);
    assert_eq!(s.take_due(10), Some(1));
    s.remove(1);
    s.schedule(1, 0);
    assert_eq!(
        s.take_due(10),
        None,
        "must NOT double-fire an in-flight monitor after remove+reschedule"
    );
    s.complete(1);
    s.schedule(1, 0);
    assert_eq!(s.take_due(10), Some(1), "safe to run again after Complete");
}

#[test]
fn clear_schedule_empties_heap_keeps_inflight() {
    let mut s = SchedState::new();
    s.schedule(1, 0);
    assert_eq!(s.take_due(10), Some(1));
    s.schedule(2, 0);
    s.clear_schedule();
    assert_eq!(s.take_due(10), None, "heap cleared: nothing left to fire");
    s.schedule(1, 0);
    assert_eq!(s.take_due(10), None, "in-flight id 1 must not double-fire after clear+reseed");
    s.complete(1);
    s.schedule(1, 0);
    assert_eq!(s.take_due(10), Some(1), "after Complete it can run again");
}
