//! Commands between the parts of the application.

use vstd::prelude::*;

verus! {

/// Commands to the scheduler: recompute a monitor's schedule (created or updated), drop it
/// (deleted or paused), run it at once, note that its check finished, or rebuild the whole
/// schedule after the stored monitors were replaced.
#[derive(Clone, Copy, Debug, PartialEq, Eq, Structural)]
pub enum SchedCmd {
    Upsert(i64),
    Remove(i64),
    CheckNow(i64),
    Complete(i64),
    Reseed,
}

} // verus!
