//! Nightly maintenance: how old checks may get, and when the database is compacted.

use vstd::prelude::*;

use crate::models::Ts;

verus! {

/// The time before which checks are deleted.
pub open spec fn cutoff(retention_days: int, now: int) -> int {
    now - retention_days * 86400
}

/// The database is compacted in a pass.
pub open spec fn is_vacuumed(pass: int) -> bool {
    pass % 7 == 0
}

/// Checks before this time are deleted.
pub fn prune_old_checks(retention_days: i64, now: Ts) -> (r: Ts)
    requires
        i64::MIN <= retention_days * 86400 <= i64::MAX,
        i64::MIN <= now - retention_days * 86400 <= i64::MAX,
    ensures
        r == cutoff(retention_days as int, now as int),
{
    now - retention_days * 86400
}

/// Whether a retention can be applied at `now`.
pub fn can_prune(retention_days: i64, now: Ts) -> (r: bool)
    ensures
        r == (i64::MIN <= retention_days * 86400 <= i64::MAX && i64::MIN <= now - retention_days
            * 86400 <= i64::MAX),
{
    let span: i128 = retention_days as i128 * 86400;
    let at: i128 = now as i128 - span;
    i64::MIN as i128 <= span && span <= i64::MAX as i128 && i64::MIN as i128 <= at && at
        <= i64::MAX as i128
}

/// Whether the database is compacted in a pass: in the first one, and in every seventh after it.
pub fn vacuum_due(pass: u64) -> (r: bool)
    ensures
        r == is_vacuumed(pass as int),
{
    pass % 7 == 0
}

/// A day of retention keeps the checks of the last day, and each further day those of one day more;
/// without retention nothing from before now is kept.
pub proof fn law_retention_counts_days(retention_days: int, now: int)
    ensures
        cutoff(0, now) == now,
        cutoff(1, now) == now - 24 * 60 * 60,
        cutoff(retention_days + 1, now) == cutoff(retention_days, now) - 24 * 60 * 60,
        cutoff(retention_days, now + 1) == cutoff(retention_days, now) + 1,
{
}

/// The database is compacted in the first pass and in one of every seven that follow each other.
pub proof fn law_vacuum_once_in_seven(pass: int, k: int)
    requires
        pass >= 0,
        1 <= k < 7,
    ensures
        is_vacuumed(0),
        is_vacuumed(pass) ==> is_vacuumed(pass + 7) && !is_vacuumed(pass + k),
{
}

} // verus!
