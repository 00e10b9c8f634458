//! How soon a notification may be repeated.

use vstd::prelude::*;

use crate::models::Ts;

verus! {

/// A send is allowed: none went before, or the last one is at least the cooldown past.
pub open spec fn cooled(last_sent_at: Option<Ts>, now: int, cooldown_minutes: int) -> bool {
    match last_sent_at {
        Some(t) => now - t >= cooldown_minutes * 60,
        None => true,
    }
}

/// Whether a send is allowed.
pub fn allowed(last_sent_at: Option<Ts>, now: Ts, cooldown_minutes: i64) -> (r: bool)
    ensures
        r == cooled(last_sent_at, now as int, cooldown_minutes as int),
{
    match last_sent_at {
        Some(t) => now as i128 - t as i128 >= cooldown_minutes as i128 * 60,
        None => true,
    }
}

/// Two sends that are allowed one after the other stand at least the cooldown apart.
pub proof fn law_sends_stand_apart(first: Ts, second: int, cooldown_minutes: int)
    requires
        cooled(Some(first), second, cooldown_minutes),
    ensures
        second >= first + cooldown_minutes * 60,
{
}

/// The first send is always allowed, a later one from the end of the cooldown on, and then for good; a
/// longer cooldown never allows more.
pub proof fn law_cooldown_ends(last: Ts, now: int, later: int, minutes: int, longer: int)
    requires
        now <= later,
        minutes <= longer,
    ensures
        cooled(None, now, minutes),
        cooled(Some(last), last + minutes * 60, minutes),
        now < last + minutes * 60 ==> !cooled(Some(last), now, minutes),
        cooled(Some(last), now, minutes) ==> cooled(Some(last), later, minutes),
        cooled(Some(last), now, longer) ==> cooled(Some(last), now, minutes),
{
}

} // verus!
