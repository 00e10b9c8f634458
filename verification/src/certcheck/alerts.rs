//! Fire-once, most-urgent-first expiry alerts, for certificates and domain registrations.

use vstd::prelude::*;

verus! {

/// Whether to alert, and the threshold to remember.
#[derive(Clone, Copy, Debug, PartialEq, Eq, Structural)]
pub struct TierDecision {
    pub fire: bool,
    pub new_alerted_days: Option<i64>,
}

/// The expiry moved past the threshold that was alerted: what expires was renewed.
pub open spec fn renewed(days_remaining: i64, alerted_days: Option<i64>) -> bool {
    alerted_days matches Some(a) && days_remaining > a
}

/// Threshold `t` is crossed and is more urgent than the last one alerted.
pub open spec fn pending(t: i64, days_remaining: i64, alerted_days: Option<i64>) -> bool {
    days_remaining <= t && (alerted_days matches Some(a) ==> t < a)
}

/// `d` is what the thresholds decide.
pub open spec fn decides(
    days_remaining: i64,
    alert_days: Seq<i64>,
    alerted_days: Option<i64>,
    d: TierDecision,
) -> bool {
    if renewed(days_remaining, alerted_days) {
        !d.fire && d.new_alerted_days is None
    } else if exists|t: i64| #[trigger]
        alert_days.contains(t) && pending(t, days_remaining, alerted_days) {
        d.fire && d.new_alerted_days is Some && alert_days.contains(d.new_alerted_days->0)
            && pending(d.new_alerted_days->0, days_remaining, alerted_days) && forall|t: i64|
            #[trigger] alert_days.contains(t) && pending(t, days_remaining, alerted_days)
                ==> d.new_alerted_days->0 <= t
    } else {
        !d.fire && d.new_alerted_days == alerted_days
    }
}

/// Decides whether to fire an expiry alert: a renewal forgets what was alerted; otherwise the
/// smallest crossed threshold below the last alerted one fires and is remembered.
pub fn tier(days_remaining: i64, alert_days: &[i64], alerted_days: Option<i64>) -> (r: TierDecision)
    ensures
        decides(days_remaining, alert_days@, alerted_days, r),
{
    if let Some(prev) = alerted_days {
        if days_remaining > prev {
            return TierDecision { fire: false, new_alerted_days: None };
        }
    }
    let mut best: Option<i64> = None;
    let mut i: usize = 0;
    while i < alert_days.len()
        invariant
            i <= alert_days@.len(),
            best matches Some(b) ==> pending(b, days_remaining, alerted_days)
                && alert_days@.contains(b),
            forall|k: int|
                0 <= k < i && pending(#[trigger] alert_days@[k], days_remaining, alerted_days)
                    ==> best is Some && best->0 <= alert_days@[k],
        decreases alert_days@.len() - i,
    {
        let t: i64 = alert_days[i];
        let open = match alerted_days {
            Some(a) => t < a,
            None => true,
        };
        if days_remaining <= t && open {
            assert(alert_days@[i as int] == t);
            match best {
                Some(b) => {
                    if t < b {
                        best = Some(t);
                    }
                },
                None => {
                    best = Some(t);
                },
            }
        }
        i += 1;
    }
    proof {
        assert forall|t: i64| #[trigger] alert_days@.contains(t) && pending(
            t,
            days_remaining,
            alerted_days,
        ) implies best is Some && best->0 <= t by {
            let k = choose|k: int| 0 <= k < alert_days@.len() && alert_days@[k] == t;
            assert(pending(alert_days@[k], days_remaining, alerted_days));
        }
    }
    match best {
        Some(t) => TierDecision { fire: true, new_alerted_days: Some(t) },
        None => TierDecision { fire: false, new_alerted_days: alerted_days },
    }
}

/// The decision depends on which thresholds are listed, not on their order or repetition.
pub proof fn law_order_of_thresholds_is_irrelevant(
    days_remaining: i64,
    a: Seq<i64>,
    b: Seq<i64>,
    alerted_days: Option<i64>,
    da: TierDecision,
    db: TierDecision,
)
    requires
        forall|t: i64| #[trigger] a.contains(t) <==> b.contains(t),
        decides(days_remaining, a, alerted_days, da),
        decides(days_remaining, b, alerted_days, db),
    ensures
        da == db,
{
    if !renewed(days_remaining, alerted_days) && exists|t: i64| #[trigger]
        a.contains(t) && pending(t, days_remaining, alerted_days) {
        let t = choose|t: i64| #[trigger]
            a.contains(t) && pending(t, days_remaining, alerted_days);
        assert(b.contains(t));
        assert(b.contains(da.new_alerted_days->0));
        assert(a.contains(db.new_alerted_days->0));
    } else if !renewed(days_remaining, alerted_days) {
        if exists|t: i64| #[trigger] b.contains(t) && pending(t, days_remaining, alerted_days) {
            let t = choose|t: i64| #[trigger]
                b.contains(t) && pending(t, days_remaining, alerted_days);
            assert(a.contains(t));
        }
    }
}

/// An alert fires once: unless the first answer was that of a renewal, asking again on the same day,
/// with what the first answer remembered, fires nothing and remembers the same.
pub proof fn law_fires_once(
    days_remaining: i64,
    alert_days: Seq<i64>,
    alerted_days: Option<i64>,
    first: TierDecision,
    second: TierDecision,
)
    requires
        decides(days_remaining, alert_days, alerted_days, first),
        decides(days_remaining, alert_days, first.new_alerted_days, second),
        !renewed(days_remaining, alerted_days),
    ensures
        !second.fire,
        second.new_alerted_days == first.new_alerted_days,
{
    if exists|t: i64| #[trigger]
        alert_days.contains(t) && pending(t, days_remaining, first.new_alerted_days) {
        let t = choose|t: i64| #[trigger]
            alert_days.contains(t) && pending(t, days_remaining, first.new_alerted_days);
        assert(pending(t, days_remaining, alerted_days));
    }
}

/// Between renewals each alert is more urgent than the one before.
pub proof fn law_alerts_grow_more_urgent(
    days_remaining: i64,
    alert_days: Seq<i64>,
    alerted: i64,
    d: TierDecision,
)
    requires
        decides(days_remaining, alert_days, Some(alerted), d),
        d.fire,
    ensures
        d.new_alerted_days is Some,
        days_remaining <= d.new_alerted_days->0 < alerted,
{
}

/// An alert fires exactly where a threshold is crossed that is more urgent than the last one alerted,
/// and nothing was renewed since; it remembers the most urgent one that is crossed.
pub proof fn law_crossed_thresholds_fire(
    days_remaining: i64,
    alert_days: Seq<i64>,
    alerted_days: Option<i64>,
    d: TierDecision,
    t: i64,
)
    requires
        decides(days_remaining, alert_days, alerted_days, d),
    ensures
        alerted_days is None && alert_days.contains(t) && days_remaining <= t ==> d.fire
            && d.new_alerted_days is Some && days_remaining <= d.new_alerted_days->0 <= t,
        alerted_days matches Some(a) ==> days_remaining <= a && alert_days.contains(t)
            && days_remaining <= t < a ==> d.fire && d.new_alerted_days is Some && days_remaining
            <= d.new_alerted_days->0 <= t,
        d.fire ==> d.new_alerted_days is Some && alert_days.contains(d.new_alerted_days->0)
            && days_remaining <= d.new_alerted_days->0,
        alerted_days matches Some(a) ==> days_remaining > a ==> !d.fire && d.new_alerted_days
            is None,
        !d.fire && !(alerted_days matches Some(a) && days_remaining > a) ==> d.new_alerted_days
            == alerted_days,
        alert_days.len() == 0 ==> !d.fire,
{
    if alert_days.contains(t) && pending(t, days_remaining, alerted_days) {
        assert(exists|t: i64| #[trigger]
            alert_days.contains(t) && pending(t, days_remaining, alerted_days));
    }
}

} // verus!
