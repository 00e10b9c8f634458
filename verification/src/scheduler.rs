//! Scheduling decisions: which monitor fires next, and when it runs again.
//!
//! `SchedState` holds at most one entry per monitor and a set of monitors whose check is
//! running. A monitor fires only while it is not running, and only `complete` makes a
//! running monitor eligible again, so no monitor ever has two checks at once.

use rand::Rng;
use std::collections::HashSet;
use vstd::prelude::*;

use crate::app::SchedCmd;
use crate::models::Ts;
use crate::text;

verus! {

/// How long to sleep when nothing is scheduled.
pub const IDLE_SLEEP_SECS: u64 = 3600;

/// The schedule as mathematics: when each monitor is due, and which monitors are running.
#[verifier::ext_equal]
pub struct Plan {
    pub scheduled: Map<i64, Ts>,
    pub in_flight: Set<i64>,
}

/// Entry `a` fires before entry `b`: it is due sooner, or as soon with the smaller id.
pub open spec fn before(t1: Ts, id1: i64, t2: Ts, id2: i64) -> bool {
    t1 < t2 || (t1 == t2 && id1 < id2)
}

impl Plan {
    /// `id` has an entry at `t`.
    pub open spec fn due_at(self, id: i64, t: Ts) -> bool {
        self.scheduled.contains_key(id) && self.scheduled[id] == t
    }

    /// `id` could fire at `now`.
    pub open spec fn runnable(self, id: i64, now: Ts) -> bool {
        self.scheduled.contains_key(id) && self.scheduled[id] <= now && !self.in_flight.contains(id)
    }

    /// `id` is the runnable monitor that fires first.
    pub open spec fn first_runnable(self, id: i64, now: Ts) -> bool {
        self.runnable(id, now) && forall|o: i64| #[trigger]
            self.runnable(o, now) && o != id ==> before(self.scheduled[id], id, self.scheduled[o], o)
    }

    /// With `id` due at `next`, in place of any entry it had.
    pub open spec fn with_entry(self, id: i64, next: Ts) -> Plan {
        Plan { scheduled: self.scheduled.insert(id, next), ..self }
    }

    /// Without an entry for `id`.
    pub open spec fn without_entry(self, id: i64) -> Plan {
        Plan { scheduled: self.scheduled.remove(id), ..self }
    }

    /// With `id` no longer running.
    pub open spec fn completed(self, id: i64) -> Plan {
        Plan { in_flight: self.in_flight.remove(id), ..self }
    }

    /// With `id` due at once, unless it is running.
    pub open spec fn checked_now(self, id: i64) -> Plan {
        if self.in_flight.contains(id) {
            self
        } else {
            self.with_entry(id, 0)
        }
    }

    /// With no entries.
    pub open spec fn cleared(self) -> Plan {
        Plan { scheduled: Map::empty(), ..self }
    }

    /// With `id` fired: every entry up to its own is spent and it is running.
    pub open spec fn fired(self, id: i64) -> Plan {
        Plan {
            scheduled: self.scheduled.restrict(
                Set::new(
                    |o: i64|
                        self.scheduled.contains_key(o) && before(
                            self.scheduled[id],
                            id,
                            self.scheduled[o],
                            o,
                        ),
                ),
            ),
            in_flight: self.in_flight.insert(id),
        }
    }

    /// With every entry that is due at `now` spent.
    pub open spec fn spent(self, now: Ts) -> Plan {
        Plan {
            scheduled: self.scheduled.restrict(
                Set::new(|o: i64| self.scheduled.contains_key(o) && self.scheduled[o] > now),
            ),
            ..self
        }
    }

    /// With the entries of `rows`, in order.
    pub open spec fn seeded(self, rows: Seq<(i64, Option<Ts>)>) -> Plan
        decreases rows.len(),
    {
        if rows.len() == 0 {
            self
        } else {
            let (id, next) = rows.last();
            self.seeded(rows.drop_last()).with_entry(
                id,
                match next {
                    Some(t) => t,
                    None => 0,
                },
            )
        }
    }
}

/// Entries are unique by monitor.
pub open spec fn unique(e: Seq<(Ts, i64)>) -> bool {
    forall|i: int, j: int|
        0 <= i < e.len() && 0 <= j < e.len() && #[trigger] e[i].1 == #[trigger] e[j].1 ==> i == j
}

/// The map that unique entries describe.
pub open spec fn entries_map(e: Seq<(Ts, i64)>) -> Map<i64, Ts> {
    Map::new(
        |id: i64| exists|k: int| 0 <= k < e.len() && #[trigger] e[k].1 == id,
        |id: i64| e[choose|k: int| 0 <= k < e.len() && #[trigger] e[k].1 == id].0,
    )
}

proof fn lemma_entry(e: Seq<(Ts, i64)>, k: int)
    requires
        unique(e),
        0 <= k < e.len(),
    ensures
        entries_map(e).contains_key(e[k].1),
        entries_map(e)[e[k].1] == e[k].0,
{
    let id = e[k].1;
    let c = choose|c: int| 0 <= c < e.len() && #[trigger] e[c].1 == id;
    assert(0 <= c < e.len() && e[c].1 == id);
    assert(c == k);
}

proof fn lemma_push(e: Seq<(Ts, i64)>, t: Ts, id: i64)
    requires
        unique(e),
        !entries_map(e).contains_key(id),
    ensures
        unique(e.push((t, id))),
        entries_map(e.push((t, id))) == entries_map(e).insert(id, t),
{
    let f = e.push((t, id));
    assert forall|i: int, j: int|
        0 <= i < f.len() && 0 <= j < f.len() && #[trigger] f[i].1 == #[trigger] f[j].1 implies i
        == j by {
        if i < e.len() {
            assert(f[i] == e[i]);
        }
        if j < e.len() {
            assert(f[j] == e[j]);
        }
    }
    assert forall|o: i64|
        entries_map(f).contains_key(o) == entries_map(e).insert(id, t).contains_key(o) by {
        if o == id {
            assert(f[e.len() as int].1 == id);
        } else {
            if entries_map(e).contains_key(o) {
                let k = choose|k: int| 0 <= k < e.len() && #[trigger] e[k].1 == o;
                assert(f[k].1 == o);
            }
            if entries_map(f).contains_key(o) {
                let k = choose|k: int| 0 <= k < f.len() && #[trigger] f[k].1 == o;
                assert(e[k].1 == o);
            }
        }
    }
    assert forall|o: i64| entries_map(f).contains_key(o) implies entries_map(f)[o] == entries_map(
        e,
    ).insert(id, t)[o] by {
        let k = choose|k: int| 0 <= k < f.len() && #[trigger] f[k].1 == o;
        lemma_entry(f, k);
        if o != id {
            assert(e[k] == f[k]);
            lemma_entry(e, k);
        }
    }
    assert(entries_map(f) =~= entries_map(e).insert(id, t));
}

proof fn lemma_remove_at(e: Seq<(Ts, i64)>, k: int)
    requires
        unique(e),
        0 <= k < e.len(),
    ensures
        unique(e.remove(k)),
        entries_map(e.remove(k)) == entries_map(e).remove(e[k].1),
{
    let f = e.remove(k);
    let id = e[k].1;
    assert forall|i: int, j: int|
        0 <= i < f.len() && 0 <= j < f.len() && #[trigger] f[i].1 == #[trigger] f[j].1 implies i
        == j by {
        let i2 = if i < k { i } else { i + 1 };
        let j2 = if j < k { j } else { j + 1 };
        assert(f[i] == e[i2]);
        assert(f[j] == e[j2]);
        assert(e[i2].1 == e[j2].1);
    }
    assert forall|o: i64|
        entries_map(f).contains_key(o) == entries_map(e).remove(id).contains_key(o) by {
        if entries_map(f).contains_key(o) {
            let i = choose|i: int| 0 <= i < f.len() && #[trigger] f[i].1 == o;
            let i2 = if i < k { i } else { i + 1 };
            assert(f[i] == e[i2]);
            assert(e[i2].1 == o);
            if o == id {
                assert(e[i2].1 == e[k].1);
            }
        }
        if o != id && entries_map(e).contains_key(o) {
            let i = choose|i: int| 0 <= i < e.len() && #[trigger] e[i].1 == o;
            let i2 = if i < k { i } else { i - 1 };
            assert(f[i2] == e[i]);
            assert(f[i2].1 == o);
        }
    }
    assert forall|o: i64| entries_map(f).contains_key(o) implies entries_map(f)[o] == entries_map(
        e,
    ).remove(id)[o] by {
        let i = choose|i: int| 0 <= i < f.len() && #[trigger] f[i].1 == o;
        lemma_entry(f, i);
        let i2 = if i < k { i } else { i + 1 };
        assert(f[i] == e[i2]);
        lemma_entry(e, i2);
    }
    assert(entries_map(f) =~= entries_map(e).remove(id));
}

/// Which monitors are waiting and which are running.
pub struct SchedState {
    entries: Vec<(Ts, i64)>,
    in_flight: HashSet<i64>,
}

impl View for SchedState {
    type V = Plan;

    closed spec fn view(&self) -> Plan {
        Plan { scheduled: entries_map(self.entries@), in_flight: self.in_flight@ }
    }
}

impl SchedState {
    /// At most one entry per monitor.
    pub closed spec fn wf(&self) -> bool {
        unique(self.entries@)
    }

    pub fn new() -> (r: Self)
        ensures
            r.wf(),
            r@.scheduled == Map::<i64, Ts>::empty(),
            r@.in_flight == Set::<i64>::empty(),
    {
        broadcast use vstd::std_specs::hash::group_hash_axioms;

        let r = SchedState { entries: Vec::new(), in_flight: HashSet::new() };
        assert(entries_map(r.entries@) =~= Map::<i64, Ts>::empty());
        r
    }

    fn position(&self, id: i64) -> (r: Option<usize>)
        ensures
            r matches Some(k) ==> k < self.entries@.len() && self.entries@[k as int].1 == id,
            r is None ==> !entries_map(self.entries@).contains_key(id),
    {
        let mut i: usize = 0;
        while i < self.entries.len()
            invariant
                i <= self.entries@.len(),
                forall|k: int| 0 <= k < i ==> (#[trigger] self.entries@[k]).1 != id,
            decreases self.entries@.len() - i,
        {
            if self.entries[i].1 == id {
                return Some(i);
            }
            i += 1;
        }
        None
    }

    /// Inserts or replaces the single entry for `id`.
    pub fn schedule(&mut self, id: i64, next: Ts)
        requires
            old(self).wf(),
        ensures
            final(self).wf(),
            step(old(self)@, Op::Schedule(id, next), None, final(self)@),
    {
        self.remove(id);
        proof {
            lemma_push(self.entries@, next, id);
            assert(old(self)@.scheduled.remove(id).insert(id, next) =~= old(self)@.scheduled.insert(
                id,
                next,
            ));
        }
        self.entries.push((next, id));
    }

    fn soonest(&self) -> (r: Option<usize>)
        requires
            self.wf(),
        ensures
            r is None <==> self.entries@.len() == 0,
            r matches Some(k) ==> k < self.entries@.len() && forall|j: int|
                0 <= j < self.entries@.len() && j != k ==> before(
                    self.entries@[k as int].0,
                    self.entries@[k as int].1,
                    (#[trigger] self.entries@[j]).0,
                    self.entries@[j].1,
                ),
    {
        let n: usize = self.entries.len();
        if n == 0 {
            return None;
        }
        let mut best: usize = 0;
        let mut i: usize = 1;
        while i < n
            invariant
                n == self.entries@.len(),
                unique(self.entries@),
                best < i <= n,
                forall|j: int|
                    0 <= j < i && j != best ==> before(
                        self.entries@[best as int].0,
                        self.entries@[best as int].1,
                        (#[trigger] self.entries@[j]).0,
                        self.entries@[j].1,
                    ),
            decreases n - i,
        {
            let (t, id) = self.entries[i];
            let (bt, bid) = self.entries[best];
            proof {
                assert(self.entries@[i as int].1 != self.entries@[best as int].1);
            }
            if t < bt || (t == bt && id < bid) {
                best = i;
            }
            i += 1;
        }
        Some(best)
    }

    /// The soonest scheduled time.
    pub fn next_due(&self) -> (r: Option<Ts>)
        requires
            self.wf(),
        ensures
            match r {
                None => self@.scheduled == Map::<i64, Ts>::empty(),
                Some(t) => (exists|id: i64| #[trigger] self@.due_at(id, t)) && forall|o: i64|
                    #[trigger] self@.scheduled.contains_key(o) ==> t <= self@.scheduled[o],
            },
    {
        let k: usize = match self.soonest() {
            None => {
                assert(self@.scheduled =~= Map::<i64, Ts>::empty());
                return None;
            },
            Some(k) => k,
        };
        let t: Ts = self.entries[k].0;
        proof {
            lemma_entry(self.entries@, k as int);
            assert(self@.due_at(self.entries@[k as int].1, t));
            assert forall|o: i64| #[trigger] self@.scheduled.contains_key(o) implies t
                <= self@.scheduled[o] by {
                let j = choose|j: int|
                    0 <= j < self.entries@.len() && #[trigger] self.entries@[j].1 == o;
                lemma_entry(self.entries@, j);
            }
        }
        let r = Some(t);
        assert(self@.due_at(self.entries@[k as int].1, r->0));
        r
    }

    /// Whether `id` has an entry, due or not.
    pub fn is_scheduled(&self, id: i64) -> (r: bool)
        requires
            self.wf(),
        ensures
            r == self@.scheduled.contains_key(id),
    {
        match self.position(id) {
            Some(k) => {
                proof {
                    lemma_entry(self.entries@, k as int);
                }
                true
            },
            None => false,
        }
    }

    /// Whether a check of `id` is running.
    pub fn is_in_flight(&self, id: i64) -> (r: bool)
        ensures
            r == self@.in_flight.contains(id),
    {
        broadcast use vstd::std_specs::hash::group_hash_axioms;

        self.in_flight.contains(&id)
    }

    /// Fires the first runnable monitor, if any is due.
    ///
    /// Due entries of running monitors that stand before it are discarded; where nothing is
    /// runnable every due entry is discarded.
    pub fn take_due(&mut self, now: Ts) -> (r: Option<i64>)
        requires
            old(self).wf(),
        ensures
            final(self).wf(),
            step(old(self)@, Op::Take(now), r, final(self)@),
    {
        broadcast use vstd::std_specs::hash::group_hash_axioms;

        let ghost start = self@;
        proof {
            assert(start.scheduled =~= start.scheduled.restrict(start.scheduled.dom()));
        }
        loop
            invariant
                self.wf(),
                self@.in_flight == start.in_flight,
                start.in_flight == old(self)@.in_flight,
                start == old(self)@,
                // what is gone was due, running, and stood before everything that is left
                forall|o: i64| #[trigger]
                    self@.scheduled.contains_key(o) ==> start.scheduled.contains_key(o)
                        && self@.scheduled[o] == start.scheduled[o],
                forall|o: i64| #[trigger]
                    start.scheduled.contains_key(o) && !self@.scheduled.contains_key(o)
                        ==> start.in_flight.contains(o) && start.scheduled[o] <= now,
                forall|o: i64, q: i64|
                    #![trigger self@.scheduled.contains_key(o), start.scheduled.contains_key(q)]
                    self@.scheduled.contains_key(o) && start.scheduled.contains_key(q)
                        && !self@.scheduled.contains_key(q) ==> before(
                        start.scheduled[q],
                        q,
                        start.scheduled[o],
                        o,
                    ),
            decreases self.entries@.len(),
        {
            broadcast use vstd::std_specs::hash::group_hash_axioms;

            let k: usize = match self.soonest() {
                None => {
                    proof {
                        assert(self@.scheduled.dom() =~= Set::<i64>::empty());
                        assert forall|o: i64| !start.runnable(o, now) by {
                            assert(!self@.scheduled.contains_key(o));
                        }
                        assert(self@.scheduled =~= start.spent(now).scheduled);
                        assert(self@ =~= start.spent(now));
                    }
                    return None;
                },
                Some(k) => k,
            };
            let (t, id) = self.entries[k];
            let ghost here = self@;
            proof {
                lemma_entry(self.entries@, k as int);
                assert forall|o: i64| #[trigger] here.scheduled.contains_key(o) && o != id implies before(
                    t,
                    id,
                    here.scheduled[o],
                    o,
                ) by {
                    let j = choose|j: int|
                        0 <= j < self.entries@.len() && #[trigger] self.entries@[j].1 == o;
                    lemma_entry(self.entries@, j);
                }
                lemma_remove_at(self.entries@, k as int);
            }
            if t > now {
                proof {
                    assert forall|o: i64| !start.runnable(o, now) by {
                        if start.runnable(o, now) {
                            assert(here.scheduled.contains_key(o));
                        }
                    }
                    assert forall|o: i64| start.spent(now).scheduled.contains_key(o)
                        == here.scheduled.contains_key(o) by {
                        if start.scheduled.contains_key(o) && start.scheduled[o] > now {
                            assert(here.scheduled.contains_key(o));
                        }
                    }
                    assert(here.scheduled =~= start.spent(now).scheduled);
                    assert(here =~= start.spent(now));
                }
                return None;
            }
            self.entries.remove(k);
            assert(self@.scheduled == here.scheduled.remove(id));
            if self.in_flight.contains(&id) {
                continue;
            }
            self.in_flight.insert(id);
            proof {
                assert(start.runnable(id, now));
                assert forall|o: i64| #[trigger] start.runnable(o, now) && o != id implies before(
                    start.scheduled[id],
                    id,
                    start.scheduled[o],
                    o,
                ) by {
                    assert(here.scheduled.contains_key(o));
                }
                assert forall|o: i64| start.fired(id).scheduled.contains_key(o)
                    == self@.scheduled.contains_key(o) by {
                    if start.scheduled.contains_key(o) && before(
                        start.scheduled[id],
                        id,
                        start.scheduled[o],
                        o,
                    ) {
                        if !here.scheduled.contains_key(o) {
                            assert(here.scheduled.contains_key(id));
                            assert(before(start.scheduled[o], o, start.scheduled[id], id));
                        }
                    }
                }
                assert(self@.scheduled =~= start.fired(id).scheduled);
                assert(self@ =~= start.fired(id));
            }
            return Some(id);
        }
    }

    /// The check of `id` finished: it may fire again.
    pub fn complete(&mut self, id: i64)
        requires
            old(self).wf(),
        ensures
            final(self).wf(),
            final(self)@ == old(self)@.completed(id),
    {
        broadcast use vstd::std_specs::hash::group_hash_axioms;

        self.in_flight.remove(&id);
        assert(self@ =~= old(self)@.completed(id));
    }

    /// Schedules `id` at once, unless it is running.
    pub fn check_now(&mut self, id: i64)
        requires
            old(self).wf(),
        ensures
            final(self).wf(),
            final(self)@ == old(self)@.checked_now(id),
    {
        broadcast use vstd::std_specs::hash::group_hash_axioms;

        if !self.in_flight.contains(&id) {
            self.schedule(id, 0);
        }
    }

    /// Drops the entry of `id`, and leaves it running if it is.
    pub fn remove(&mut self, id: i64)
        requires
            old(self).wf(),
        ensures
            final(self).wf(),
            final(self)@ == old(self)@.without_entry(id),
    {
        match self.position(id) {
            Some(k) => {
                proof {
                    lemma_remove_at(self.entries@, k as int);
                }
                self.entries.remove(k);
            },
            None => {
                assert(self@.scheduled.remove(id) =~= self@.scheduled);
            },
        }
    }

    /// Drops every entry, and leaves the running monitors running.
    pub fn clear_schedule(&mut self)
        requires
            old(self).wf(),
        ensures
            final(self).wf(),
            final(self)@ == old(self)@.cleared(),
    {
        self.entries.clear();
        assert(entries_map(self.entries@) =~= Map::<i64, Ts>::empty());
    }
}

// ---- when a monitor runs again ----

/// The largest jitter for a base interval: five percent of it, never negative.
pub open spec fn jitter_span(base_secs: int) -> int {
    if base_secs < 0 {
        0
    } else {
        base_secs * 5 / 100
    }
}

/// `rand`'s `Rng::gen_range` on the thread's generator, over `-span..=span`: some integer of
/// that range, by chance.
#[verifier::external_body]
fn random_within(span: i64) -> (r: i64)
    requires
        0 <= span,
    ensures
        -span <= r <= span,
{
    rand::thread_rng().gen_range(-span..=span)
}

/// The next run for a jitter that was drawn.
pub fn next_run_with(now: Ts, base_secs: i64, jitter: i64) -> (r: Ts)
    requires
        i64::MIN <= now + base_secs <= i64::MAX,
        i64::MIN <= now + base_secs + jitter <= i64::MAX,
    ensures
        r == now + base_secs + jitter,
{
    now + base_secs + jitter
}

/// `now + base_secs`, moved by a random amount of up to five percent of `base_secs` either
/// way, so that monitors that share an interval do not all run on the same tick.
pub fn next_run_with_jitter(now: Ts, base_secs: i64) -> (r: Ts)
    requires
        i64::MIN <= base_secs * 5 <= i64::MAX,
        i64::MIN <= now + base_secs - jitter_span(base_secs as int),
        now + base_secs + jitter_span(base_secs as int) <= i64::MAX,
    ensures
        now + base_secs - jitter_span(base_secs as int) <= r <= now + base_secs + jitter_span(
            base_secs as int,
        ),
{
    let span: i64 = if base_secs < 0 {
        0
    } else {
        base_secs * 5 / 100
    };
    let jitter = random_within(span);
    next_run_with(now, base_secs, jitter)
}

/// The seconds until the next entry is due.
pub open spec fn sleep(next_due: Option<Ts>, now: Ts) -> int {
    match next_due {
        Some(t) => if t > now {
            t - now
        } else {
            0
        },
        None => IDLE_SLEEP_SECS as int,
    }
}

/// How long the loop sleeps before the next entry is due, given when that is.
pub fn wake_secs(next_due: Option<Ts>, now: Ts) -> (r: u64)
    ensures
        r == sleep(next_due, now),
{
    match next_due {
        Some(t) => if t > now {
            (t as i128 - now as i128) as u64
        } else {
            0
        },
        None => IDLE_SLEEP_SECS,
    }
}

/// The stored facts that decide whether a monitor is scheduled.
#[derive(Clone, Debug)]
pub struct ScheduleRow {
    pub next_run_at: Option<Ts>,
    pub is_paused: bool,
    pub kind: String,
}

impl Plan {
    /// After a monitor's stored row was read again: a monitor that is gone, paused, or driven
    /// by heartbeats gets no new entry; any other is due when the row says, at once if it
    /// does not say.
    pub open spec fn rescheduled(self, id: i64, row: Option<ScheduleRow>) -> Plan {
        match row {
            Some(r) => if r.kind@ == "heartbeat"@ || r.is_paused {
                self
            } else {
                self.with_entry(
                    id,
                    match r.next_run_at {
                        Some(t) => t,
                        None => 0,
                    },
                )
            },
            None => self,
        }
    }

    /// What a command changes before anything stored is read.
    pub open spec fn commanded(self, cmd: SchedCmd) -> Plan {
        match cmd {
            SchedCmd::Complete(id) => self.completed(id),
            SchedCmd::Upsert(id) => self,
            SchedCmd::CheckNow(id) => self.checked_now(id),
            SchedCmd::Remove(id) => self.without_entry(id),
            SchedCmd::Reseed => self.cleared(),
        }
    }
}

/// What the loop reads after a command.
#[derive(Clone, Copy, Debug, PartialEq, Eq, Structural)]
pub enum FollowUp {
    Nothing,
    /// Read the row of this monitor and reschedule it.
    Reschedule(i64),
    /// Read every active row and seed the schedule.
    Reseed,
}

/// What has to be read after a command.
pub open spec fn follow_up(cmd: SchedCmd) -> FollowUp {
    match cmd {
        SchedCmd::Complete(id) => FollowUp::Reschedule(id),
        SchedCmd::Upsert(id) => FollowUp::Reschedule(id),
        SchedCmd::CheckNow(id) => FollowUp::Nothing,
        SchedCmd::Remove(id) => FollowUp::Nothing,
        SchedCmd::Reseed => FollowUp::Reseed,
    }
}

impl SchedState {
    /// Applies what the stored row of `id` says now.
    pub fn reschedule(&mut self, id: i64, row: &Option<ScheduleRow>)
        requires
            old(self).wf(),
        ensures
            final(self).wf(),
            final(self)@ == old(self)@.rescheduled(id, *row),
    {
        match row {
            Some(r) => {
                if !text::same(r.kind.as_str(), "heartbeat") && !r.is_paused {
                    let next: Ts = match r.next_run_at {
                        Some(t) => t,
                        None => 0,
                    };
                    self.schedule(id, next);
                }
            },
            None => {},
        }
    }

    /// Applies a command and says what has to be read next.
    pub fn on_command(&mut self, cmd: SchedCmd) -> (r: FollowUp)
        requires
            old(self).wf(),
        ensures
            final(self).wf(),
            step(old(self)@, Op::Command(cmd), None, final(self)@),
            r == follow_up(cmd),
    {
        match cmd {
            SchedCmd::Complete(id) => {
                self.complete(id);
                FollowUp::Reschedule(id)
            },
            SchedCmd::Upsert(id) => FollowUp::Reschedule(id),
            SchedCmd::CheckNow(id) => {
                self.check_now(id);
                FollowUp::Nothing
            },
            SchedCmd::Remove(id) => {
                self.remove(id);
                FollowUp::Nothing
            },
            SchedCmd::Reseed => {
                self.clear_schedule();
                FollowUp::Reseed
            },
        }
    }
}

/// Seeds the schedule with the active monitors; one that never ran is due at once.
pub fn catch_up(sched: &mut SchedState, rows: &Vec<(i64, Option<Ts>)>)
    requires
        old(sched).wf(),
    ensures
        final(sched).wf(),
        final(sched)@ == old(sched)@.seeded(rows@),
{
    let mut i: usize = 0;
    assert(rows@.take(0) =~= Seq::<(i64, Option<Ts>)>::empty());
    while i < rows.len()
        invariant
            sched.wf(),
            i <= rows@.len(),
            sched@ == old(sched)@.seeded(rows@.take(i as int)),
        decreases rows@.len() - i,
    {
        let (id, next_run_at) = rows[i];
        let next: Ts = match next_run_at {
            Some(t) => t,
            None => 0,
        };
        assert(rows@.take(i + 1).drop_last() =~= rows@.take(i as int));
        sched.schedule(id, next);
        i += 1;
    }
    assert(rows@.take(rows@.len() as int) =~= rows@);
}

impl Default for SchedState {
    fn default() -> (r: Self)
        ensures
            r.wf(),
            r@.scheduled == Map::<i64, Ts>::empty(),
            r@.in_flight == Set::<i64>::empty(),
    {
        SchedState::new()
    }
}

// ---- laws ----

/// One operation on the schedule.
pub enum Op {
    Command(SchedCmd),
    Schedule(i64, Ts),
    Take(Ts),
}

/// `op` takes `p` to `q` and fires `out`.
pub open spec fn step(p: Plan, op: Op, out: Option<i64>, q: Plan) -> bool {
    match op {
        Op::Command(cmd) => out is None && q == p.commanded(cmd),
        Op::Schedule(id, next) => out is None && q == p.with_entry(id, next),
        Op::Take(now) => match out {
            Some(id) => p.first_runnable(id, now) && q == p.fired(id),
            None => (forall|o: i64| !p.runnable(o, now)) && q == p.spent(now),
        },
    }
}

/// `plans` is a run of the schedule: each operation takes each plan to the next.
pub open spec fn run(plans: Seq<Plan>, ops: Seq<Op>, outs: Seq<Option<i64>>) -> bool {
    &&& ops.len() == outs.len()
    &&& plans.len() == ops.len() + 1
    &&& forall|k: int|
        0 <= k < ops.len() ==> #[trigger] step(plans[k], ops[k], outs[k], plans[k + 1])
}

/// A monitor never fires twice without its check completing in between, whatever commands and
/// schedule changes arrive.
pub proof fn law_no_double_fire(
    plans: Seq<Plan>,
    ops: Seq<Op>,
    outs: Seq<Option<i64>>,
    i: int,
    j: int,
    id: i64,
)
    requires
        run(plans, ops, outs),
        0 <= i < j < ops.len(),
        outs[i] == Some(id),
        outs[j] == Some(id),
    ensures
        exists|k: int| i < k < j && #[trigger] ops[k] == Op::Command(SchedCmd::Complete(id)),
{
    if forall|k: int| i < k < j ==> #[trigger] ops[k] != Op::Command(SchedCmd::Complete(id)) {
        assert(step(plans[i], ops[i], outs[i], plans[i + 1]));
        lemma_stays_in_flight(plans, ops, outs, i + 1, j, id);
        assert(step(plans[j], ops[j], outs[j], plans[j + 1]));
        assert(false);
    }
}

proof fn lemma_stays_in_flight(
    plans: Seq<Plan>,
    ops: Seq<Op>,
    outs: Seq<Option<i64>>,
    a: int,
    b: int,
    id: i64,
)
    requires
        run(plans, ops, outs),
        0 <= a <= b <= ops.len(),
        plans[a].in_flight.contains(id),
        forall|k: int| a <= k < b ==> #[trigger] ops[k] != Op::Command(SchedCmd::Complete(id)),
    ensures
        plans[b].in_flight.contains(id),
    decreases b - a,
{
    if a < b {
        assert(step(plans[a], ops[a], outs[a], plans[a + 1]));
        assert(ops[a] != Op::Command(SchedCmd::Complete(id)));
        lemma_stays_in_flight(plans, ops, outs, a + 1, b, id);
    }
}

/// Scheduling a monitor again replaces its entry: the later time alone counts.
pub proof fn law_schedule_replaces(p: Plan, id: i64, t1: Ts, t2: Ts)
    ensures
        p.with_entry(id, t1).with_entry(id, t2) == p.with_entry(id, t2),
{
    assert(p.with_entry(id, t1).with_entry(id, t2) =~= p.with_entry(id, t2));
}

/// Dropping or rebuilding the schedule leaves every running monitor running.
pub proof fn law_removal_keeps_running(p: Plan, id: i64, rows: Seq<(i64, Option<Ts>)>)
    ensures
        p.without_entry(id).in_flight == p.in_flight,
        p.cleared().seeded(rows).in_flight == p.in_flight,
{
    lemma_seed_keeps_running(p.cleared(), rows);
}

proof fn lemma_seed_keeps_running(p: Plan, rows: Seq<(i64, Option<Ts>)>)
    ensures
        p.seeded(rows).in_flight == p.in_flight,
    decreases rows.len(),
{
    if rows.len() > 0 {
        lemma_seed_keeps_running(p, rows.drop_last());
    }
}

/// A command changes its own monitor alone: a completed one may fire again and keeps its entry, one
/// to be checked now is due at once unless it is running, and a removed one has no entry but keeps
/// running. A new seeding starts from no entries at all.
pub proof fn law_commands_change_their_monitor(p: Plan, cmd: SchedCmd, id: i64, other: i64)
    requires
        other != id,
    ensures
        cmd == SchedCmd::Complete(id) ==> !p.commanded(cmd).in_flight.contains(id)
            && p.commanded(cmd).scheduled == p.scheduled && (p.commanded(cmd).in_flight.contains(
            other,
        ) <==> p.in_flight.contains(other)),
        cmd == SchedCmd::Upsert(id) ==> p.commanded(cmd).scheduled == p.scheduled && p.commanded(
            cmd,
        ).in_flight == p.in_flight,
        cmd == SchedCmd::CheckNow(id) && !p.in_flight.contains(id) ==> p.commanded(cmd).due_at(id, 0),
        cmd == SchedCmd::CheckNow(id) && p.in_flight.contains(id) ==> p.commanded(cmd).scheduled
            == p.scheduled,
        cmd == SchedCmd::Remove(id) ==> !p.commanded(cmd).scheduled.contains_key(id),
        cmd == SchedCmd::CheckNow(id) || cmd == SchedCmd::Remove(id) ==> p.commanded(cmd).in_flight
            == p.in_flight && (p.commanded(cmd).scheduled.contains_key(other)
            <==> p.scheduled.contains_key(other)) && (p.scheduled.contains_key(other)
            ==> p.commanded(cmd).scheduled[other] == p.scheduled[other]),
        cmd == SchedCmd::Reseed ==> p.commanded(cmd).in_flight == p.in_flight && !p.commanded(
            cmd,
        ).scheduled.contains_key(id),
{
}

/// What is read after a command: the row of a monitor that completed or changed, every row for a new
/// seeding, and nothing for the others.
pub proof fn law_what_is_read_after_a_command(id: i64)
    ensures
        follow_up(SchedCmd::Complete(id)) == FollowUp::Reschedule(id),
        follow_up(SchedCmd::Upsert(id)) == FollowUp::Reschedule(id),
        follow_up(SchedCmd::CheckNow(id)) == FollowUp::Nothing,
        follow_up(SchedCmd::Remove(id)) == FollowUp::Nothing,
        follow_up(SchedCmd::Reseed) == FollowUp::Reseed,
{
}

/// A monitor is due when its row says, at once where the row does not say; one that is gone, paused
/// or driven by heartbeats gets no entry. No other monitor is touched.
pub proof fn law_rows_decide_when_monitors_run(p: Plan, id: i64, row: Option<ScheduleRow>, other: i64)
    requires
        other != id,
    ensures
        row is None ==> p.rescheduled(id, row) == p,
        row matches Some(r) ==> (r.is_paused || r.kind@ == "heartbeat"@ ==> p.rescheduled(id, row)
            == p),
        row matches Some(r) ==> (!r.is_paused && r.kind@ != "heartbeat"@ ==> p.rescheduled(
            id,
            row,
        ).due_at(
            id,
            if r.next_run_at is Some {
                r.next_run_at->0
            } else {
                0
            },
        )),
        p.rescheduled(id, row).in_flight == p.in_flight,
        p.rescheduled(id, row).scheduled.contains_key(other) <==> p.scheduled.contains_key(other),
        p.scheduled.contains_key(other) ==> p.rescheduled(id, row).scheduled[other]
            == p.scheduled[other],
{
}

/// Seeding gives every row an entry, at the time that it says or at once where it says none; the last
/// row of a monitor counts, and monitors without a row keep the entry that they had.
pub proof fn law_rows_are_seeded(p: Plan, rows: Seq<(i64, Option<Ts>)>, id: i64, k: int)
    requires
        -1 <= k < rows.len(),
        k >= 0 ==> rows[k].0 == id,
        forall|j: int| k < j < rows.len() ==> (#[trigger] rows[j]).0 != id,
    ensures
        k >= 0 ==> p.seeded(rows).due_at(
            id,
            if rows[k].1 is Some {
                rows[k].1->0
            } else {
                0
            },
        ),
        k == -1 ==> (p.seeded(rows).scheduled.contains_key(id) <==> p.scheduled.contains_key(id)),
        k == -1 && p.scheduled.contains_key(id) ==> p.seeded(rows).scheduled[id] == p.scheduled[id],
    decreases rows.len(),
{
    if rows.len() > 0 && k < rows.len() - 1 {
        let rest = rows.drop_last();
        assert(rows[rows.len() - 1].0 != id);
        assert forall|j: int| k < j < rest.len() implies (#[trigger] rest[j]).0 != id by {
            assert(rest[j] == rows[j]);
        }
        law_rows_are_seeded(p, rest, id, k);
    }
}

/// The monitor that fires is due, is not running, and stands before every other that could fire. From
/// then on it runs without an entry, and entries that stand after it wait on.
pub proof fn law_firing(p: Plan, now: Ts, id: i64, q: Plan, other: i64)
    requires
        step(p, Op::Take(now), Some(id), q),
    ensures
        p.scheduled.contains_key(id) && p.scheduled[id] <= now,
        !p.in_flight.contains(id),
        q.in_flight.contains(id),
        !q.scheduled.contains_key(id),
        other != id ==> (q.in_flight.contains(other) <==> p.in_flight.contains(other)),
        other != id && p.scheduled.contains_key(other) && !p.in_flight.contains(other)
            ==> p.scheduled[id] < p.scheduled[other] || (p.scheduled[id] == p.scheduled[other] && id
            < other),
        other != id && p.scheduled.contains_key(other) && !p.in_flight.contains(other)
            ==> q.scheduled.contains_key(other) && q.scheduled[other] == p.scheduled[other],
        q.scheduled.contains_key(other) ==> p.scheduled.contains_key(other) && q.scheduled[other]
            == p.scheduled[other],
{
    if other != id && p.scheduled.contains_key(other) && !p.in_flight.contains(other) {
        if p.scheduled[other] <= now {
            assert(p.runnable(other, now));
        }
    }
}

/// Where nothing fires nothing was due but what is running; entries of a later time wait on, and
/// nothing starts to run.
pub proof fn law_nothing_fires(p: Plan, now: Ts, q: Plan, id: i64)
    requires
        step(p, Op::Take(now), None, q),
    ensures
        p.scheduled.contains_key(id) && p.scheduled[id] <= now ==> p.in_flight.contains(id)
            && !q.scheduled.contains_key(id),
        p.scheduled.contains_key(id) && p.scheduled[id] > now ==> q.scheduled.contains_key(id)
            && q.scheduled[id] == p.scheduled[id],
        !p.scheduled.contains_key(id) ==> !q.scheduled.contains_key(id),
        q.in_flight == p.in_flight,
{
    assert(!p.runnable(id, now));
}

/// A jitter is at most a twentieth of its interval, to the second, and never negative.
pub proof fn law_jitter_is_a_twentieth(base_secs: int)
    ensures
        base_secs >= 0 ==> 20 * jitter_span(base_secs) <= base_secs < 20 * (jitter_span(base_secs)
            + 1),
        base_secs < 0 ==> jitter_span(base_secs) == 0,
{
}

/// The loop wakes when the next entry is due, at once where that is past, and after an hour where
/// there is none.
pub proof fn law_waking(next_due: Option<Ts>, now: Ts)
    ensures
        next_due matches Some(t) ==> (t >= now ==> now + sleep(next_due, now) == t),
        next_due matches Some(t) ==> (t < now ==> sleep(next_due, now) == 0),
        next_due is None ==> sleep(next_due, now) == 60 * 60,
{
}

} // verus!
