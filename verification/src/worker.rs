//! One check of one monitor: whether it runs, what is recorded of it, when the next one is due, and
//! that the scheduler hears of its end once.

use vstd::prelude::*;

use crate::app::SchedCmd;
use crate::maintenance_windows::resolve;
use crate::maintenance_windows::resolve::{maintenance_for, parse_tags, Suppression};
use crate::models::{MaintenanceWindow, Monitor, ProbeOutcome, Ts};
use crate::notify::dispatch;
use crate::notify::own_or;
use crate::scheduler;
use crate::text;

verus! {

/// What to do with a monitor that fired.
#[derive(Clone, Copy, Debug, PartialEq, Eq, Structural)]
pub enum Admission {
    /// Nothing: it is gone, paused, driven by heartbeats, or its checks are suppressed.
    Skip,
    /// Check its certificate.
    Certificate,
    /// Probe it.
    Probe,
}

/// What to do with a monitor that fired.
pub open spec fn admitted(m: Option<Monitor>) -> Admission {
    match m {
        None => Admission::Skip,
        Some(m) => if m.is_paused || m.kind@ == "heartbeat"@ {
            Admission::Skip
        } else if m.kind@ == "ssl"@ {
            Admission::Certificate
        } else {
            Admission::Probe
        },
    }
}

/// Decides what to do with a monitor that fired. A monitor that was deleted or paused meanwhile is
/// left alone, and so is a heartbeat monitor, which has nothing to probe.
pub fn run_check(m: &Option<Monitor>) -> (r: Admission)
    ensures
        r == admitted(*m),
{
    match m {
        None => Admission::Skip,
        Some(m) => {
            if m.is_paused || text::same(m.kind.as_str(), "heartbeat") {
                Admission::Skip
            } else if text::same(m.kind.as_str(), "ssl") {
                Admission::Certificate
            } else {
                Admission::Probe
            }
        },
    }
}

/// How far maintenance suppresses a monitor.
pub fn suppression_of(windows: &[MaintenanceWindow], m: &Monitor, now: Ts) -> (r: Suppression)
    requires
        forall|k: int|
            0 <= k < windows@.len() && (#[trigger] windows@[k]).is_active ==> resolve::resolvable(
                windows@[k],
                now as int,
            ),
    ensures
        r == resolve::suppression(windows@, m.id, dispatch::monitor_tags(*m), now as int),
{
    proof {
        reveal_strlit("");
        assert(""@ =~= Seq::<char>::empty());
    }
    let tags = parse_tags(own_or(&m.tags, "").as_str());
    maintenance_for(windows, m.id, tags.as_slice(), now)
}

/// What to do with a monitor that fired, under a suppression. Suppressed checks are not run.
pub open spec fn allowed(m: Option<Monitor>, suppression: Suppression) -> Admission {
    if suppression == Suppression::Checks {
        Admission::Skip
    } else {
        admitted(m)
    }
}

/// Decides what to do with a monitor that fired, given how far maintenance suppresses it: a window
/// that suppresses checks pauses them, and one that suppresses alerts does not.
pub fn decide(m: &Option<Monitor>, suppression: Suppression) -> (r: Admission)
    ensures
        r == allowed(*m, suppression),
{
    if suppression == Suppression::Checks {
        Admission::Skip
    } else {
        run_check(m)
    }
}

/// The word under which a check is recorded.
pub open spec fn recorded(ok: bool) -> Seq<char> {
    if ok {
        "up"@
    } else {
        "down"@
    }
}

/// The recorded status of a check.
pub fn check_status(ok: bool) -> (r: &'static str)
    ensures
        r@ == recorded(ok),
{
    if ok {
        "up"
    } else {
        "down"
    }
}

/// The interval until the next check: the retry interval while a failure is unconfirmed or the
/// result could not be applied, and the regular one otherwise.
pub open spec fn base_interval(m: Monitor, use_retry: Option<bool>) -> i64 {
    match use_retry {
        Some(false) => m.interval_seconds,
        _ => m.retry_interval_seconds,
    }
}

/// The interval until the next check, given whether the applied result asks for a retry; none where
/// it could not be applied.
pub fn next_interval(m: &Monitor, use_retry: Option<bool>) -> (r: i64)
    ensures
        r == base_interval(*m, use_retry),
{
    match use_retry {
        Some(retry) => if retry {
            m.retry_interval_seconds
        } else {
            m.interval_seconds
        },
        None => m.retry_interval_seconds,
    }
}

/// The next run, with every jitter, fits the clock.
pub open spec fn plannable(m: Monitor, use_retry: Option<bool>, now: int) -> bool {
    let base = base_interval(m, use_retry) as int;
    let span = scheduler::jitter_span(base);
    i64::MIN <= base * 5 <= i64::MAX && i64::MIN <= now + base - span && now + base + span
        <= i64::MAX
}

/// A time is an interval from now, moved by a jitter of up to five percent.
pub open spec fn in_reach(r: Ts, m: Monitor, use_retry: Option<bool>, now: int) -> bool {
    let base = base_interval(m, use_retry) as int;
    let span = scheduler::jitter_span(base);
    now + base - span <= r <= now + base + span
}

/// When the monitor runs again: an interval from now, with a jitter of up to five percent.
pub fn next_run(m: &Monitor, use_retry: Option<bool>, now: Ts) -> (r: Ts)
    requires
        plannable(*m, use_retry, now as int),
    ensures
        in_reach(r, *m, use_retry, now as int),
{
    let base = next_interval(m, use_retry);
    scheduler::next_run_with_jitter(now, base)
}

/// When the monitor runs again, where that fits the clock.
pub fn plan_next(m: &Monitor, use_retry: Option<bool>, now: Ts) -> (r: Option<Ts>)
    ensures
        r is Some <==> plannable(*m, use_retry, now as int),
        r matches Some(t) ==> in_reach(t, *m, use_retry, now as int),
{
    let base: i128 = next_interval(m, use_retry) as i128;
    let at: i128 = now as i128 + base;
    let low: i128 = i64::MIN as i128;
    let high: i128 = i64::MAX as i128;
    if base * 5 < low || base * 5 > high {
        return None;
    }
    let span: i128 = if base < 0 {
        0
    } else {
        base * 5 / 100
    };
    if at - span < low || at + span > high {
        return None;
    }
    Some(next_run(m, use_retry, now))
}

// ---- the course of a check ----

/// What a check does next.
#[derive(Clone, Copy, Debug, PartialEq, Eq, Structural)]
pub enum Step {
    /// Read the monitor, and how far maintenance suppresses it.
    Load,
    /// Check its certificate.
    Certificate,
    /// Probe it.
    Probe,
    /// Record what the probe found.
    Record,
    /// Apply what the probe found to the monitor's state.
    Apply,
    /// Store when the monitor runs again.
    Plan,
    /// Tell the scheduler that the check is over.
    Complete,
    /// Nothing.
    Finish,
}

/// What came of a step.
#[derive(Clone, Debug)]
pub enum CheckEvent {
    /// The monitor, if it is there, how far maintenance suppresses it, and when that was.
    Loaded(Option<Monitor>, Suppression, Ts),
    /// What the probe found, and when.
    Probed(ProbeOutcome, Ts),
    /// The finding was recorded, as far as that went.
    Recorded,
    /// Whether the applied finding asks for a retry; none where it could not be applied.
    Applied(Option<bool>),
    /// The next run was stored, as far as that went.
    Planned,
    /// The scheduler was told.
    Completed,
}

/// A check under way.
#[derive(Clone, Debug)]
pub struct Check {
    pub step: Step,
    pub monitor_id: i64,
    pub monitor: Option<Monitor>,
    pub outcome: Option<ProbeOutcome>,
    /// When the check took place.
    pub at: Ts,
    pub use_retry: Option<bool>,
}

/// An event can come of a step.
pub open spec fn fits(step: Step, event: CheckEvent) -> bool {
    match step {
        Step::Load => event is Loaded,
        Step::Certificate | Step::Probe => event is Probed,
        Step::Record => event is Recorded,
        Step::Apply => event is Applied,
        Step::Plan => event is Planned,
        Step::Complete => event is Completed,
        Step::Finish => false,
    }
}

/// The first step for a monitor that was read. One that would be checked but for a suppression is
/// planned anew; one that is not checked at all is not.
pub open spec fn first_step(m: Option<Monitor>, suppression: Suppression) -> Step {
    match allowed(m, suppression) {
        Admission::Certificate => Step::Certificate,
        Admission::Probe => Step::Probe,
        Admission::Skip => if admitted(m) == Admission::Skip {
            Step::Complete
        } else {
            Step::Plan
        },
    }
}

/// What a check does after an event.
pub open spec fn next_step(step: Step, event: CheckEvent) -> Step {
    match (step, event) {
        (Step::Load, CheckEvent::Loaded(m, suppression, _)) => first_step(m, suppression),
        (Step::Load, _) => Step::Complete,
        (Step::Certificate, _) => Step::Record,
        (Step::Probe, _) => Step::Record,
        (Step::Record, _) => Step::Apply,
        (Step::Apply, _) => Step::Plan,
        (Step::Plan, _) => Step::Complete,
        (Step::Complete, _) => Step::Finish,
        (Step::Finish, _) => Step::Finish,
    }
}

/// `next` is a check after an event.
pub open spec fn follows(run: Check, event: CheckEvent, next: Check) -> bool {
    &&& next.step == next_step(run.step, event)
    &&& next.monitor_id == run.monitor_id
    &&& next.monitor == (match event {
        CheckEvent::Loaded(m, _, _) => m,
        _ => run.monitor,
    })
    &&& next.outcome == (match event {
        CheckEvent::Probed(o, _) => Some(o),
        _ => run.outcome,
    })
    &&& next.at == (match event {
        CheckEvent::Loaded(_, _, at) => at,
        CheckEvent::Probed(_, at) => at,
        _ => run.at,
    })
    &&& next.use_retry == (match event {
        CheckEvent::Applied(retry) => retry,
        _ => run.use_retry,
    })
}

/// What the scheduler is told at a step of a check.
pub open spec fn told(run: Check) -> Option<SchedCmd> {
    if run.step == Step::Complete {
        Some(SchedCmd::Complete(run.monitor_id))
    } else {
        None
    }
}

impl Check {
    /// What holds of every check under way: a step has what it works on, and one that was not run is
    /// planned by the regular interval.
    pub open spec fn wf(self) -> bool {
        &&& (self.step == Step::Certificate || self.step == Step::Probe || self.step == Step::Record
            || self.step == Step::Apply || self.step == Step::Plan) ==> self.monitor is Some
        &&& (self.step == Step::Record || self.step == Step::Apply) ==> self.outcome is Some
        &&& self.outcome is None ==> self.use_retry == Some(false)
        &&& (self.step == Step::Load || self.step == Step::Certificate || self.step == Step::Probe)
            ==> self.outcome is None
    }

    /// A check of a monitor that fired.
    pub fn start(monitor_id: i64) -> (r: Check)
        ensures
            r.wf(),
            r.step == Step::Load,
            r.monitor_id == monitor_id,
            r.monitor is None,
            r.outcome is None,
            r.at == 0,
            r.use_retry == Some(false),
    {
        Check {
            step: Step::Load,
            monitor_id,
            monitor: None,
            outcome: None,
            at: 0,
            use_retry: Some(false),
        }
    }

    /// Takes what came of the current step, and decides what follows.
    pub fn on_event(&mut self, event: CheckEvent)
        requires
            old(self).wf(),
            fits(old(self).step, event),
        ensures
            follows(*old(self), event, *final(self)),
            final(self).wf(),
    {
        let step = self.step;
        self.step = match step {
            Step::Load => Step::Complete,
            Step::Certificate | Step::Probe => Step::Record,
            Step::Record => Step::Apply,
            Step::Apply => Step::Plan,
            Step::Plan => Step::Complete,
            Step::Complete | Step::Finish => Step::Finish,
        };
        match event {
            CheckEvent::Loaded(m, suppression, at) => {
                self.step = match decide(&m, suppression) {
                    Admission::Certificate => Step::Certificate,
                    Admission::Probe => Step::Probe,
                    Admission::Skip => if run_check(&m) == Admission::Skip {
                        Step::Complete
                    } else {
                        Step::Plan
                    },
                };
                self.monitor = m;
                self.at = at;
            },
            CheckEvent::Probed(o, at) => {
                self.outcome = Some(o);
                self.at = at;
            },
            CheckEvent::Applied(retry) => {
                self.use_retry = retry;
            },
            CheckEvent::Recorded | CheckEvent::Planned | CheckEvent::Completed => {},
        }
    }

    /// What the scheduler is told at this step, if anything.
    pub fn command(&self) -> (r: Option<SchedCmd>)
        ensures
            r == told(*self),
    {
        if self.step == Step::Complete {
            Some(SchedCmd::Complete(self.monitor_id))
        } else {
            None
        }
    }
}

/// `states` is a check from its start, with an event between each state and the next.
pub open spec fn course(states: Seq<Check>, events: Seq<CheckEvent>) -> bool {
    &&& states.len() == events.len() + 1
    &&& states[0].step == Step::Load
    &&& forall|i: int|
        0 <= i < events.len() ==> fits(states[i].step, #[trigger] events[i]) && follows(
            states[i],
            events[i],
            states[i + 1],
        )
}

/// However a check ends, the scheduler is told once, of its monitor, as the last thing that the check
/// does.
pub proof fn law_one_completion(states: Seq<Check>, events: Seq<CheckEvent>)
    requires
        course(states, events),
        states.last().step == Step::Finish,
    ensures
        events.len() > 0,
        states[events.len() - 1].step == Step::Complete,
        states[events.len() - 1].monitor_id == states[0].monitor_id,
        forall|j: int|
            0 <= j < states.len() && #[trigger] states[j].step == Step::Complete ==> j
                == events.len() - 1,
{
    let last = events.len() - 1;
    assert(fits(states[last].step, events[last]));
    lemma_same_monitor(states, events, last);
    assert forall|j: int|
        0 <= j < states.len() && #[trigger] states[j].step == Step::Complete implies j == last by {
        if j < last {
            assert(fits(states[j].step, events[j]));
            assert(fits(states[j + 1].step, events[j + 1]));
        }
    }
}

proof fn lemma_same_monitor(states: Seq<Check>, events: Seq<CheckEvent>, j: int)
    requires
        course(states, events),
        0 <= j < states.len(),
    ensures
        states[j].monitor_id == states[0].monitor_id,
    decreases j,
{
    if j > 0 {
        lemma_same_monitor(states, events, j - 1);
        assert(fits(states[j - 1].step, events[j - 1]));
    }
}

/// How many steps a check has left at most.
pub open spec fn left(step: Step) -> nat {
    match step {
        Step::Load => 6,
        Step::Certificate => 5,
        Step::Probe => 5,
        Step::Record => 4,
        Step::Apply => 3,
        Step::Plan => 2,
        Step::Complete => 1,
        Step::Finish => 0,
    }
}

/// Every check comes to an end.
pub proof fn law_checks_end(step: Step, event: CheckEvent)
    requires
        fits(step, event),
    ensures
        left(next_step(step, event)) < left(step),
{
}

/// While a window suppresses the checks of a monitor, nothing is probed, recorded or applied.
pub proof fn law_suppressed_checks_do_not_run(states: Seq<Check>, events: Seq<CheckEvent>, j: int)
    requires
        course(states, events),
        events.len() > 0,
        events[0] matches CheckEvent::Loaded(_, suppression, _) && suppression
            == Suppression::Checks,
        0 < j < states.len(),
    ensures
        states[j].step == Step::Plan || states[j].step == Step::Complete || states[j].step
            == Step::Finish,
    decreases j,
{
    assert(fits(states[j - 1].step, events[j - 1]));
    if j > 1 {
        law_suppressed_checks_do_not_run(states, events, j - 1);
    }
}

/// A monitor that fired is left alone exactly where it is gone, paused, driven by heartbeats or under
/// a window that suppresses checks; a certificate monitor has its certificate checked, and every other
/// is probed. A window that suppresses alerts changes none of this.
pub proof fn law_who_is_checked(m: Option<Monitor>, suppression: Suppression)
    ensures
        allowed(m, suppression) == Admission::Skip <==> m is None || (m->0).is_paused || (
        m->0).kind@ == "heartbeat"@ || suppression == Suppression::Checks,
        m is Some && !(m->0).is_paused && suppression != Suppression::Checks && (m->0).kind@
            == "ssl"@ ==> allowed(m, suppression) == Admission::Certificate,
        m is Some && !(m->0).is_paused && suppression != Suppression::Checks && (m->0).kind@
            != "ssl"@ && (m->0).kind@ != "heartbeat"@ ==> allowed(m, suppression) == Admission::Probe,
        allowed(m, Suppression::Alerts) == allowed(m, Suppression::Nothing),
{
    reveal_strlit("ssl");
    reveal_strlit("heartbeat");
    assert("ssl"@[0] == 's');
    assert("heartbeat"@[0] == 'h');
}

/// The regular interval runs until the next check exactly where the result was applied and asks for no
/// retry; the retry interval runs where it asks for one, and where it could not be applied.
pub proof fn law_interval_until_the_next_check(m: Monitor, use_retry: Option<bool>)
    ensures
        use_retry == Some(false) ==> base_interval(m, use_retry) == m.interval_seconds,
        use_retry == Some(true) ==> base_interval(m, use_retry) == m.retry_interval_seconds,
        use_retry is None ==> base_interval(m, use_retry) == m.retry_interval_seconds,
{
}

/// The next run lies an interval ahead, no further off than a twentieth of the interval.
pub proof fn law_next_run_is_an_interval_ahead(r: Ts, m: Monitor, use_retry: Option<bool>, now: int)
    requires
        in_reach(r, m, use_retry, now),
        m.interval_seconds >= 0,
        m.retry_interval_seconds >= 0,
    ensures
        use_retry == Some(false) ==> -m.interval_seconds <= 20 * (r - now - m.interval_seconds)
            <= m.interval_seconds,
        use_retry != Some(false) ==> -m.retry_interval_seconds <= 20 * (r - now
            - m.retry_interval_seconds) <= m.retry_interval_seconds,
        now <= r,
{
}

/// What a check found is recorded, then applied, and then the next run is planned; the finding, its
/// time and the answer on a retry are kept from one step to the next.
pub proof fn law_course_of_a_check(run: Check, event: CheckEvent, next: Check)
    requires
        fits(run.step, event),
        follows(run, event, next),
    ensures
        next.monitor_id == run.monitor_id,
        run.step == Step::Probe || run.step == Step::Certificate ==> next.step == Step::Record && (
        event matches CheckEvent::Probed(o, at) && next.outcome == Some(o) && next.at == at)
            && next.monitor == run.monitor,
        run.step == Step::Record ==> next.step == Step::Apply && next.outcome == run.outcome && next.at
            == run.at && next.monitor == run.monitor,
        run.step == Step::Apply ==> next.step == Step::Plan && (event matches CheckEvent::Applied(
            retry,
        ) && next.use_retry == retry) && next.monitor == run.monitor && next.at == run.at,
        run.step == Step::Plan ==> next.step == Step::Complete,
        run.step == Step::Complete ==> next.step == Step::Finish,
        run.step == Step::Load ==> (event matches CheckEvent::Loaded(m, suppression, at) && next.monitor
            == m && next.at == at && next.outcome == run.outcome && next.use_retry == run.use_retry),
{
}

/// What is done with a monitor that was read: one that is gone, paused or driven by heartbeats is
/// over at once, one whose checks are suppressed is only planned anew, and any other is checked.
pub proof fn law_first_step(m: Option<Monitor>, suppression: Suppression)
    ensures
        m is None ==> first_step(m, suppression) == Step::Complete,
        m is Some && ((m->0).is_paused || (m->0).kind@ == "heartbeat"@) ==> first_step(m, suppression)
            == Step::Complete,
        m is Some && !(m->0).is_paused && (m->0).kind@ != "heartbeat"@ && suppression
            == Suppression::Checks ==> first_step(m, suppression) == Step::Plan,
        m is Some && !(m->0).is_paused && (m->0).kind@ != "heartbeat"@ && suppression
            != Suppression::Checks && (m->0).kind@ == "ssl"@ ==> first_step(m, suppression)
            == Step::Certificate,
        m is Some && !(m->0).is_paused && (m->0).kind@ != "heartbeat"@ && suppression
            != Suppression::Checks && (m->0).kind@ != "ssl"@ ==> first_step(m, suppression)
            == Step::Probe,
{
    reveal_strlit("ssl");
    reveal_strlit("heartbeat");
    assert("ssl"@[0] == 's');
    assert("heartbeat"@[0] == 'h');
}

/// A check is recorded under the word of the status that it speaks for.
pub proof fn law_recorded_words()
    ensures
        recorded(true) == "up"@,
        recorded(false) == "down"@,
{
}

/// The scheduler is told of a check's end, with its own monitor, and of nothing else.
pub proof fn law_scheduler_is_told_of_the_end(run: Check)
    ensures
        told(run) is Some <==> run.step == Step::Complete,
        told(run) matches Some(cmd) ==> cmd == SchedCmd::Complete(run.monitor_id),
{
}

/// Every monitor with an ordinary interval is planned: one that is not negative and stays, as the time
/// does, under a tenth of what the clock counts.
pub proof fn law_ordinary_intervals_are_planned(m: Monitor, use_retry: Option<bool>, now: int)
    requires
        0 <= now <= 900_000_000_000_000_000,
        0 <= m.interval_seconds <= 900_000_000_000_000_000,
        0 <= m.retry_interval_seconds <= 900_000_000_000_000_000,
    ensures
        plannable(m, use_retry, now),
{
}

} // verus!
