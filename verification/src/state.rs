//! The state machine for monitor status transitions.
//!
//! One function over plain inputs decides the next status, the updated consecutive
//! counters, and whether a transition (incident open or close, unknown edge) occurred.

use vstd::prelude::*;

use crate::models::{Connectivity, Status};

verus! {

/// How many consecutive results confirm an outage and a recovery.
#[derive(Clone, Copy, Debug, PartialEq, Eq, Structural)]
pub struct Thresholds {
    pub confirmation: i64,
    pub recovery: i64,
}

/// What one probe result changes.
#[derive(Clone, Copy, Debug, PartialEq, Eq, Structural)]
pub struct Decision {
    pub next_status: Status,
    pub consecutive_failures: i64,
    pub consecutive_successes: i64,
    pub transition: Option<Transition>,
    pub use_retry_interval: bool,
}

#[derive(Clone, Copy, Debug, PartialEq, Eq, Structural)]
pub enum Transition {
    ToDownOpenIncident,
    ToUpCloseIncident,
    ToUpNoIncident,
    ToUnknown,
}

#[derive(Clone, Copy, Debug, PartialEq, Eq, Structural)]
pub struct Inputs {
    pub current: Status,
    pub prev_confirmed: Status,
    pub consecutive_failures: i64,
    pub consecutive_successes: i64,
    pub outcome_ok: bool,
    pub anchor: Connectivity,
    pub th: Thresholds,
}

impl Inputs {
    /// The last confirmed state is an outage: the monitor is down, or its state was lost
    /// while it was down.
    pub open spec fn in_outage(self) -> bool {
        self.current == Status::Down || (self.current == Status::Unknown && self.prev_confirmed
            == Status::Down)
    }

    /// The counters can take one more result.
    pub open spec fn countable(self) -> bool {
        if self.outcome_ok {
            self.consecutive_successes < i64::MAX
        } else {
            self.consecutive_failures < i64::MAX
        }
    }

    /// What a passing result decides.
    pub open spec fn on_success(self) -> Decision {
        Decision {
            next_status: Status::Up,
            consecutive_failures: 0,
            consecutive_successes: (self.consecutive_successes + 1) as i64,
            transition: if self.in_outage() {
                if self.consecutive_successes + 1 >= self.th.recovery {
                    Some(Transition::ToUpCloseIncident)
                } else {
                    None
                }
            } else if self.current == Status::Pending || self.current == Status::Unknown {
                Some(Transition::ToUpNoIncident)
            } else {
                None
            },
            use_retry_interval: false,
        }
    }

    /// What a failing result decides.
    pub open spec fn on_failure(self) -> Decision {
        let failures = self.consecutive_failures + 1;
        let confirmed = failures >= self.th.confirmation;
        Decision {
            next_status: if !confirmed {
                shown_while_retrying(self.current)
            } else if self.anchor == Connectivity::Offline {
                Status::Unknown
            } else {
                Status::Down
            },
            consecutive_failures: failures as i64,
            consecutive_successes: 0,
            transition: if !confirmed {
                None
            } else if self.anchor == Connectivity::Offline {
                Some(Transition::ToUnknown)
            } else if self.in_outage() {
                None
            } else {
                Some(Transition::ToDownOpenIncident)
            },
            use_retry_interval: !confirmed,
        }
    }

    /// What the result decides.
    pub open spec fn decision(self) -> Decision {
        if self.outcome_ok {
            self.on_success()
        } else {
            self.on_failure()
        }
    }
}

/// What an unconfirmed failure displays: `Down` and `Paused` stay, anything else is `Up`.
pub open spec fn shown_while_retrying(current: Status) -> Status {
    match current {
        Status::Down => Status::Down,
        Status::Paused => Status::Paused,
        _ => Status::Up,
    }
}

/// Decides what one probe result changes.
pub fn evaluate(i: &Inputs) -> (d: Decision)
    requires
        i.countable(),
    ensures
        d == i.decision(),
{
    let mut f: i64 = i.consecutive_failures;
    let mut s: i64 = i.consecutive_successes;
    if i.outcome_ok {
        s += 1;
        f = 0;
        let recovered = i.current == Status::Down || (i.current == Status::Unknown
            && i.prev_confirmed == Status::Down);
        if recovered && s >= i.th.recovery {
            return Decision {
                next_status: Status::Up,
                consecutive_failures: f,
                consecutive_successes: s,
                transition: Some(Transition::ToUpCloseIncident),
                use_retry_interval: false,
            };
        }
        let to_up_fresh = i.current == Status::Pending || (i.current == Status::Unknown
            && i.prev_confirmed != Status::Down);
        let trans = if to_up_fresh {
            Some(Transition::ToUpNoIncident)
        } else {
            None
        };
        return Decision {
            next_status: Status::Up,
            consecutive_failures: f,
            consecutive_successes: s,
            transition: trans,
            use_retry_interval: false,
        };
    }
    f += 1;
    s = 0;
    if f < i.th.confirmation {
        return Decision {
            next_status: active_display(i.current),
            consecutive_failures: f,
            consecutive_successes: s,
            transition: None,
            use_retry_interval: true,
        };
    }
    match i.anchor {
        Connectivity::Offline => Decision {
            next_status: Status::Unknown,
            consecutive_failures: f,
            consecutive_successes: 0,
            transition: Some(Transition::ToUnknown),
            use_retry_interval: false,
        },
        Connectivity::Online => {
            let already_down = i.current == Status::Down || (i.current == Status::Unknown
                && i.prev_confirmed == Status::Down);
            let trans = if already_down {
                None
            } else {
                Some(Transition::ToDownOpenIncident)
            };
            Decision {
                next_status: Status::Down,
                consecutive_failures: f,
                consecutive_successes: 0,
                transition: trans,
                use_retry_interval: false,
            }
        },
    }
}

/// The status to show during pre-confirmation retry.
fn active_display(current: Status) -> (r: Status)
    ensures
        r == shown_while_retrying(current),
{
    match current {
        Status::Down => Status::Down,
        Status::Paused => Status::Paused,
        _ => Status::Up,
    }
}

/// While the anchors are unreachable no result opens an incident or confirms an outage.
pub proof fn law_offline_never_opens_an_incident(i: Inputs)
    requires
        i.anchor == Connectivity::Offline,
    ensures
        i.decision().transition != Some(Transition::ToDownOpenIncident),
        i.decision().next_status == Status::Down ==> i.current == Status::Down,
{
}

/// An incident opens only outside an outage and leaves the monitor down; it closes only
/// inside an outage and leaves the monitor up.
pub proof fn law_incident_edges(i: Inputs)
    ensures
        i.decision().transition == Some(Transition::ToDownOpenIncident) ==> !i.in_outage()
            && i.decision().next_status == Status::Down,
        i.decision().transition == Some(Transition::ToUpCloseIncident) ==> i.in_outage()
            && i.decision().next_status == Status::Up,
{
}

/// The monitor after `d` was applied, facing the next result.
pub open spec fn following(i: Inputs, d: Decision, ok: bool, anchor: Connectivity) -> Inputs {
    Inputs {
        current: d.next_status,
        prev_confirmed: i.prev_confirmed,
        consecutive_failures: d.consecutive_failures,
        consecutive_successes: d.consecutive_successes,
        outcome_ok: ok,
        anchor,
        th: i.th,
    }
}

/// The monitor after `n` failing results in a row with the anchors reachable, facing one more.
pub open spec fn after_failures(i: Inputs, n: nat) -> Inputs
    decreases n,
{
    if n == 0 {
        Inputs { outcome_ok: false, anchor: Connectivity::Online, ..i }
    } else {
        let p = after_failures(i, (n - 1) as nat);
        following(p, p.decision(), false, Connectivity::Online)
    }
}

/// A monitor that is up is confirmed down by exactly the configured number of consecutive
/// failures: every earlier failure only retries, and the confirming one opens the incident.
pub proof fn law_confirmation_takes_threshold_failures(i: Inputs, n: nat)
    requires
        i.current == Status::Up,
        i.consecutive_failures == 0,
        0 < n <= i.th.confirmation,
    ensures
        ({
            let d = after_failures(i, (n - 1) as nat).decision();
            &&& d.consecutive_failures == n
            &&& n < i.th.confirmation ==> d.next_status == Status::Up && d.transition is None
                && d.use_retry_interval
            &&& n == i.th.confirmation ==> d.next_status == Status::Down && d.transition == Some(
                Transition::ToDownOpenIncident,
            )
        }),
    decreases n,
{
    let p = after_failures(i, (n - 1) as nat);
    if n > 1 {
        law_confirmation_takes_threshold_failures(i, (n - 1) as nat);
    }
    lemma_failures_keep_settings(i, (n - 1) as nat);
    assert(p.consecutive_failures == n - 1);
    assert(p.current == Status::Up);
}

proof fn lemma_failures_keep_settings(i: Inputs, n: nat)
    ensures
        after_failures(i, n).th == i.th,
        after_failures(i, n).anchor == Connectivity::Online,
        !after_failures(i, n).outcome_ok,
    decreases n,
{
    if n > 0 {
        lemma_failures_keep_settings(i, (n - 1) as nat);
    }
}

/// One passing result ends an outage that needs no more than one: the incident closes and
/// the failure count restarts.
pub proof fn law_recovery_on_first_success(i: Inputs)
    requires
        i.outcome_ok,
        i.in_outage(),
        i.th.recovery <= 1,
        i.consecutive_successes >= 0,
    ensures
        i.decision().next_status == Status::Up,
        i.decision().transition == Some(Transition::ToUpCloseIncident),
        i.decision().consecutive_failures == 0,
{
}

/// A check is repeated soon exactly while an outage is in doubt: the result failed, and with it fewer
/// failures stand than confirm an outage. A passing result never asks for a retry.
pub proof fn law_retry_only_while_in_doubt(i: Inputs)
    ensures
        i.decision().use_retry_interval <==> !i.outcome_ok && i.consecutive_failures + 1
            < i.th.confirmation,
        i.outcome_ok ==> !i.decision().use_retry_interval,
{
}

/// A result adds one to the count of its kind, and ends the run of the other kind.
pub proof fn law_runs_are_counted(i: Inputs)
    requires
        i.countable(),
    ensures
        i.outcome_ok ==> i.decision().consecutive_successes == i.consecutive_successes + 1
            && i.decision().consecutive_failures == 0,
        !i.outcome_ok ==> i.decision().consecutive_failures == i.consecutive_failures + 1
            && i.decision().consecutive_successes == 0,
{
}

/// A monitor shows as up after every passing result; after a failure it shows as down once the outage
/// is confirmed with the anchors reachable, as unknown once it is confirmed without them, and until
/// then an outage and a pause stay as they are and all else shows as up.
pub proof fn law_shown_status(i: Inputs)
    ensures
        i.outcome_ok ==> i.decision().next_status == Status::Up,
        !i.outcome_ok && i.consecutive_failures + 1 >= i.th.confirmation && i.anchor
            == Connectivity::Online ==> i.decision().next_status == Status::Down,
        !i.outcome_ok && i.consecutive_failures + 1 >= i.th.confirmation && i.anchor
            == Connectivity::Offline ==> i.decision().next_status == Status::Unknown,
        !i.outcome_ok && i.consecutive_failures + 1 < i.th.confirmation && (i.current
            == Status::Down || i.current == Status::Paused) ==> i.decision().next_status
            == i.current,
        !i.outcome_ok && i.consecutive_failures + 1 < i.th.confirmation && (i.current == Status::Up
            || i.current == Status::Pending || i.current == Status::Unknown)
            ==> i.decision().next_status == Status::Up,
{
}

/// Each edge comes exactly where it is called for: an incident opens on the confirming failure of a
/// monitor that was not known to be down, while the anchors are reachable; it closes on the success
/// that completes the recovery of one that was; a monitor whose state was not known comes up without
/// one; and a failure that is confirmed while the anchors are unreachable loses the state.
pub proof fn law_edges_come_when_called_for(i: Inputs)
    ensures
        ({
            let known_down = i.current == Status::Down || (i.current == Status::Unknown
                && i.prev_confirmed == Status::Down);
            let confirmed = i.consecutive_failures + 1 >= i.th.confirmation;
            let t = i.decision().transition;
            &&& t == Some(Transition::ToDownOpenIncident) <==> !i.outcome_ok && confirmed && i.anchor
                == Connectivity::Online && !known_down
            &&& t == Some(Transition::ToUnknown) <==> !i.outcome_ok && confirmed && i.anchor
                == Connectivity::Offline
            &&& t == Some(Transition::ToUpCloseIncident) <==> i.outcome_ok && known_down
                && i.consecutive_successes + 1 >= i.th.recovery
            &&& t == Some(Transition::ToUpNoIncident) <==> i.outcome_ok && !known_down && (i.current
                == Status::Pending || i.current == Status::Unknown)
        }),
{
}

/// The anchors matter only to a failure that is confirmed, and the last confirmed state only to a
/// monitor whose state was lost.
pub proof fn law_what_a_result_depends_on(i: Inputs, anchor: Connectivity, prev: Status)
    ensures
        i.outcome_ok || i.consecutive_failures + 1 < i.th.confirmation ==> (Inputs {
            anchor,
            ..i
        }).decision() == i.decision(),
        i.current != Status::Unknown ==> (Inputs { prev_confirmed: prev, ..i }).decision()
            == i.decision(),
{
}

} // verus!
