//! Maintenance windows: which monitors are under one, and what changed since the last look.

use vstd::prelude::*;

use crate::events::Event;
use crate::models::{MaintenanceWindow, Ts};
use crate::text;

pub mod resolve;

use resolve::{maintenance_for, parse_tags, Suppression};

verus! {

/// A monitor's tags, as they are stored.
pub open spec fn stored_tags(raw: Option<String>) -> Seq<Seq<char>> {
    resolve::tags_of(
        match raw {
            Some(s) => s@,
            None => ""@,
        },
    )
}

/// A monitor is under some window at `now`, whatever the window suppresses.
pub open spec fn under_window(
    windows: Seq<MaintenanceWindow>,
    row: (i64, Option<String>),
    now: int,
) -> bool {
    resolve::suppression(windows, row.0, stored_tags(row.1), now) != Suppression::Nothing
}

/// The monitors that are under a window, in order.
pub open spec fn ids_under(
    windows: Seq<MaintenanceWindow>,
    rows: Seq<(i64, Option<String>)>,
    now: int,
) -> Seq<i64>
    decreases rows.len(),
{
    if rows.len() == 0 {
        Seq::empty()
    } else if under_window(windows, rows.last(), now) {
        ids_under(windows, rows.drop_last(), now).push(rows.last().0)
    } else {
        ids_under(windows, rows.drop_last(), now)
    }
}

/// Whether every active window can be resolved at `now`.
pub fn can_resolve(windows: &[MaintenanceWindow], now: Ts) -> (r: bool)
    ensures
        r == forall|k: int|
            0 <= k < windows@.len() && (#[trigger] windows@[k]).is_active ==> resolve::resolvable(
                windows@[k],
                now as int,
            ),
{
    let mut i: usize = 0;
    while i < windows.len()
        invariant
            i <= windows@.len(),
            forall|k: int|
                0 <= k < i && (#[trigger] windows@[k]).is_active ==> resolve::resolvable(
                    windows@[k],
                    now as int,
                ),
        decreases windows@.len() - i,
    {
        if windows[i].is_active && !resolve::can_resolve(&windows[i], now) {
            assert(windows@[i as int].is_active);
            return false;
        }
        i += 1;
    }
    true
}

/// Every monitor that is under some active window at `now`. Each row holds a monitor's id and its
/// tags.
pub fn monitors_in_maintenance(
    windows: &[MaintenanceWindow],
    rows: &Vec<(i64, Option<String>)>,
    now: Ts,
) -> (r: Vec<i64>)
    requires
        forall|k: int|
            0 <= k < windows@.len() && (#[trigger] windows@[k]).is_active ==> resolve::resolvable(
                windows@[k],
                now as int,
            ),
    ensures
        r@ == ids_under(windows@, rows@, now as int),
{
    let mut r: Vec<i64> = Vec::new();
    let mut i: usize = 0;
    while i < rows.len()
        invariant
            i <= rows@.len(),
            forall|k: int|
                0 <= k < windows@.len() && (#[trigger] windows@[k]).is_active
                    ==> resolve::resolvable(windows@[k], now as int),
            r@ == ids_under(windows@, rows@.take(i as int), now as int),
        decreases rows@.len() - i,
    {
        assert(rows@.take(i + 1).drop_last() =~= rows@.take(i as int));
        let (id, raw) = &rows[i];
        let tags = match raw {
            Some(s) => parse_tags(s.as_str()),
            None => parse_tags(""),
        };
        let found = maintenance_for(windows, *id, tags.as_slice(), now);
        if found != Suppression::Nothing {
            r.push(*id);
        }
        i += 1;
    }
    assert(rows@.take(rows@.len() as int) =~= rows@);
    r
}

/// A list without its repetitions: each number where it first stands.
pub open spec fn distinct(v: Seq<i64>) -> Seq<i64>
    decreases v.len(),
{
    if v.len() == 0 {
        Seq::empty()
    } else if distinct(v.drop_last()).contains(v.last()) {
        distinct(v.drop_last())
    } else {
        distinct(v.drop_last()).push(v.last())
    }
}

/// One change for each number of `v` that `other` lacks.
pub open spec fn changes(v: Seq<i64>, other: Seq<i64>, in_maintenance: bool) -> Seq<Event>
    decreases v.len(),
{
    if v.len() == 0 {
        Seq::empty()
    } else if other.contains(v.last()) {
        changes(v.drop_last(), other, in_maintenance)
    } else {
        changes(v.drop_last(), other, in_maintenance).push(
            Event::MaintenanceChanged { id: v.last(), in_maintenance },
        )
    }
}

/// What a look publishes: the monitors that entered maintenance, then those that left it.
pub open spec fn published(prev: Seq<i64>, current: Seq<i64>) -> Seq<Event> {
    changes(distinct(current), prev, true) + changes(prev, distinct(current), false)
}

fn holds(v: &Vec<i64>, x: i64) -> (r: bool)
    ensures
        r == v@.contains(x),
{
    let mut i: usize = 0;
    while i < v.len()
        invariant
            i <= v@.len(),
            forall|k: int| 0 <= k < i ==> v@[k] != x,
        decreases v@.len() - i,
    {
        if v[i] == x {
            return true;
        }
        i += 1;
    }
    false
}

fn push_changes(events: &mut Vec<Event>, v: &Vec<i64>, other: &Vec<i64>, in_maintenance: bool)
    ensures
        final(events)@ == old(events)@ + changes(v@, other@, in_maintenance),
{
    let ghost before = events@;
    let mut i: usize = 0;
    assert(before + changes(v@.take(0), other@, in_maintenance) =~= before);
    while i < v.len()
        invariant
            i <= v@.len(),
            events@ =~= before + changes(v@.take(i as int), other@, in_maintenance),
        decreases v@.len() - i,
    {
        assert(v@.take(i + 1).drop_last() =~= v@.take(i as int));
        if !holds(other, v[i]) {
            events.push(Event::MaintenanceChanged { id: v[i], in_maintenance });
        }
        i += 1;
    }
    assert(v@.take(v@.len() as int) =~= v@);
}

/// Compares the monitors under maintenance with those of the last look, and keeps them for the
/// next one. A monitor that stayed in or stayed out publishes nothing.
pub fn eval_once(prev: &mut Vec<i64>, current: &Vec<i64>) -> (r: Vec<Event>)
    ensures
        r@ == published(old(prev)@, current@),
        final(prev)@ == distinct(current@),
{
    let mut now: Vec<i64> = Vec::new();
    let mut i: usize = 0;
    while i < current.len()
        invariant
            i <= current@.len(),
            now@ == distinct(current@.take(i as int)),
        decreases current@.len() - i,
    {
        assert(current@.take(i + 1).drop_last() =~= current@.take(i as int));
        if !holds(&now, current[i]) {
            now.push(current[i]);
        }
        i += 1;
    }
    assert(current@.take(current@.len() as int) =~= current@);
    let mut events: Vec<Event> = Vec::new();
    push_changes(&mut events, &now, prev, true);
    push_changes(&mut events, prev, &now, false);
    assert(events@ =~= published(prev@, current@));
    *prev = now;
    events
}

proof fn lemma_distinct(v: Seq<i64>)
    ensures
        distinct(v).no_duplicates(),
        forall|x: i64| #[trigger] distinct(v).contains(x) <==> v.contains(x),
    decreases v.len(),
{
    if v.len() > 0 {
        let rest = v.drop_last();
        lemma_distinct(rest);
        assert forall|x: i64| #[trigger] distinct(v).contains(x) <==> v.contains(x) by {
            assert(distinct(rest).contains(x) <==> rest.contains(x));
            if v.contains(x) {
                let k = choose|k: int| 0 <= k < v.len() && v[k] == x;
                if k < rest.len() {
                    assert(rest[k] == x);
                }
            }
            if rest.contains(x) {
                let k = choose|k: int| 0 <= k < rest.len() && rest[k] == x;
                assert(v[k] == x);
            }
            let d = distinct(rest).push(v.last());
            assert(d.contains(x) <==> distinct(rest).contains(x) || x == v.last()) by {
                if distinct(rest).contains(x) {
                    let k = choose|k: int| 0 <= k < distinct(rest).len() && distinct(rest)[k] == x;
                    assert(d[k] == x);
                }
                if x == v.last() {
                    assert(d[d.len() - 1] == x);
                }
            }
            assert(v[v.len() - 1] == v.last());
        }
    }
}

proof fn lemma_changes(v: Seq<i64>, other: Seq<i64>, in_maintenance: bool, e: Event)
    ensures
        changes(v, other, in_maintenance).contains(e) <==> exists|id: i64|
            e == (Event::MaintenanceChanged { id, in_maintenance }) && #[trigger] v.contains(id)
                && !other.contains(id),
    decreases v.len(),
{
    let c = changes(v, other, in_maintenance);
    if v.len() > 0 {
        let rest = v.drop_last();
        let last = v.last();
        lemma_changes(rest, other, in_maintenance, e);
        let r = changes(rest, other, in_maintenance);
        assert(v[v.len() - 1] == last);
        if c.contains(e) {
            let k = choose|k: int| 0 <= k < c.len() && c[k] == e;
            if k < r.len() {
                assert(r[k] == e);
                let id = choose|id: i64|
                    e == (Event::MaintenanceChanged { id, in_maintenance })
                        && #[trigger] rest.contains(id) && !other.contains(id);
                let q = choose|q: int| 0 <= q < rest.len() && rest[q] == id;
                assert(v[q] == id);
                assert(v.contains(id));
            } else {
                assert(v.contains(last));
            }
        }
        if exists|id: i64|
            e == (Event::MaintenanceChanged { id, in_maintenance }) && #[trigger] v.contains(id)
                && !other.contains(id) {
            let id = choose|id: i64|
                e == (Event::MaintenanceChanged { id, in_maintenance }) && #[trigger] v.contains(id)
                    && !other.contains(id);
            let q = choose|q: int| 0 <= q < v.len() && v[q] == id;
            if q < rest.len() {
                assert(rest[q] == id);
                assert(rest.contains(id));
                let k = choose|k: int| 0 <= k < r.len() && r[k] == e;
                assert(c[k] == e);
            } else {
                assert(c[c.len() - 1] == e);
            }
        }
    }
}

/// A look publishes exactly the changes: a monitor that entered maintenance, and one that left it.
pub proof fn law_changes_are_published(prev: Seq<i64>, current: Seq<i64>, id: i64)
    ensures
        published(prev, current).contains(Event::MaintenanceChanged { id, in_maintenance: true })
            <==> current.contains(id) && !prev.contains(id),
        published(prev, current).contains(Event::MaintenanceChanged { id, in_maintenance: false })
            <==> prev.contains(id) && !current.contains(id),
{
    let now = distinct(current);
    lemma_distinct(current);
    let a = changes(now, prev, true);
    let b = changes(prev, now, false);
    let p = a + b;
    let enter = Event::MaintenanceChanged { id, in_maintenance: true };
    let leave = Event::MaintenanceChanged { id, in_maintenance: false };
    lemma_changes(now, prev, true, enter);
    lemma_changes(now, prev, true, leave);
    lemma_changes(prev, now, false, enter);
    lemma_changes(prev, now, false, leave);
    lemma_joined(a, b, enter);
    lemma_joined(a, b, leave);
    assert(now.contains(id) <==> current.contains(id));
}

proof fn lemma_joined(a: Seq<Event>, b: Seq<Event>, e: Event)
    ensures
        (a + b).contains(e) <==> a.contains(e) || b.contains(e),
{
    if a.contains(e) {
        let k = choose|k: int| 0 <= k < a.len() && a[k] == e;
        assert((a + b)[k] == e);
    }
    if b.contains(e) {
        let k = choose|k: int| 0 <= k < b.len() && b[k] == e;
        assert((a + b)[a.len() + k] == e);
    }
}

proof fn lemma_no_changes(v: Seq<i64>, other: Seq<i64>, in_maintenance: bool)
    requires
        forall|i: int| 0 <= i < v.len() ==> other.contains(#[trigger] v[i]),
    ensures
        changes(v, other, in_maintenance) =~= Seq::empty(),
    decreases v.len(),
{
    if v.len() > 0 {
        assert(other.contains(v[v.len() - 1]));
        assert forall|i: int| 0 <= i < v.drop_last().len() implies other.contains(
            #[trigger] v.drop_last()[i],
        ) by {
            assert(other.contains(v[i]));
        }
        lemma_no_changes(v.drop_last(), other, in_maintenance);
    }
}

/// A second look at the same monitors publishes nothing.
pub proof fn law_steady_state_is_silent(current: Seq<i64>)
    ensures
        published(distinct(current), current) =~= Seq::empty(),
{
    let now = distinct(current);
    assert forall|i: int| 0 <= i < now.len() implies now.contains(#[trigger] now[i]) by {}
    lemma_no_changes(now, now, true);
    lemma_no_changes(now, now, false);
}

/// Every monitor is looked at by itself, in order: it is listed exactly where some window suppresses
/// anything of it, with the tags that are stored for it.
pub proof fn law_monitors_are_looked_at_one_by_one(
    windows: Seq<MaintenanceWindow>,
    rows: Seq<(i64, Option<String>)>,
    row: (i64, Option<String>),
    tags: Seq<Seq<char>>,
    now: int,
)
    requires
        row.1 matches Some(raw) ==> tags == resolve::tags_of(raw@),
        row.1 is None ==> tags == resolve::tags_of(""@),
    ensures
        ids_under(windows, Seq::empty(), now).len() == 0,
        (forall|k: int|
            0 <= k < windows.len() ==> !#[trigger] resolve::applies(windows[k], row.0, tags, now))
            ==> ids_under(windows, rows.push(row), now) == ids_under(windows, rows, now),
        (exists|k: int|
            0 <= k < windows.len() && #[trigger] resolve::applies(windows[k], row.0, tags, now))
            ==> ids_under(windows, rows.push(row), now) == ids_under(windows, rows, now).push(row.0),
{
    assert(rows.push(row).drop_last() =~= rows);
    assert(stored_tags(row.1) == tags);
    resolve::law_only_applying_windows_suppress(windows, row.0, tags, now);
}

} // verus!
