//! The TCP prober. It does not connect yet: every probe fails.

use vstd::prelude::*;

use crate::models::{Cause, ProbeOutcome};
use crate::probe;
use crate::probe::failure;
use crate::text;

verus! {

/// What a port or ping probe reports.
pub fn probe() -> (r: ProbeOutcome)
    ensures
        probe::is_failure(r, None, "not yet implemented"@, Cause::Connection),
{
    failure(None, text::own("not yet implemented"), Cause::Connection)
}

} // verus!
