//! The internet-sanity gate: whether an unreachable monitor is its fault or ours.
//!
//! The verdict of the last probe of the anchors is kept for a short time; a change of verdict is an
//! edge that is announced once.

use vstd::prelude::*;

use crate::models::{Connectivity, Ts};

verus! {

/// How long a verdict is good for.
pub const TTL_SECONDS: i64 = 10;

/// How often the anchors are probed in the background.
pub const POLL_INTERVAL_SECONDS: u64 = 15;

/// The verdict of a probe: online if any anchor was reached.
pub open spec fn verdict(any_anchor_reachable: bool) -> Connectivity {
    if any_anchor_reachable {
        Connectivity::Online
    } else {
        Connectivity::Offline
    }
}

/// The verdict of a probe.
pub fn verdict_from_probe(any_anchor_reachable: bool) -> (r: Connectivity)
    ensures
        r == verdict(any_anchor_reachable),
{
    if any_anchor_reachable {
        Connectivity::Online
    } else {
        Connectivity::Offline
    }
}

/// What is known of the anchors: the last verdict, if there was one, and when they were last probed.
#[derive(Clone, Copy, Debug, PartialEq, Eq, Structural)]
pub struct AnchorGate {
    pub verdict: Option<Connectivity>,
    pub checked_at: Ts,
}

impl AnchorGate {
    pub fn new() -> (r: Self)
        ensures
            r.verdict is None,
            r.checked_at == 0,
    {
        AnchorGate { verdict: None, checked_at: 0 }
    }

    /// What is known after a probe.
    pub open spec fn probed(self, reachable: bool, now: Ts) -> AnchorGate {
        AnchorGate { verdict: Some(verdict(reachable)), checked_at: now }
    }

    /// What a probe announces: whether it is online, if that is news.
    pub open spec fn edge(self, reachable: bool) -> Option<bool> {
        if self.verdict == Some(verdict(reachable)) {
            None
        } else {
            Some(reachable)
        }
    }

    /// Takes in a probe, and says whether it is an edge: the first verdict, or another one than
    /// before.
    pub fn probe_and_update(&mut self, reachable: bool, now: Ts) -> (r: Option<bool>)
        ensures
            *final(self) == old(self).probed(reachable, now),
            r == old(self).edge(reachable),
    {
        let new = verdict_from_probe(reachable);
        let changed = match self.verdict {
            Some(v) => v != new,
            None => true,
        };
        self.checked_at = now;
        if changed {
            self.verdict = Some(new);
            Some(reachable)
        } else {
            None
        }
    }

    /// The verdict is too old to answer with.
    pub open spec fn is_stale(self, now: Ts) -> bool {
        now - self.checked_at > TTL_SECONDS
    }

    /// The verdict to answer with.
    pub open spec fn answer(self) -> Connectivity {
        match self.verdict {
            Some(v) => v,
            None => Connectivity::Online,
        }
    }

    /// Whether the verdict is too old to answer with.
    pub fn stale(&self, now: Ts) -> (r: bool)
        ensures
            r == self.is_stale(now),
    {
        now as i128 - self.checked_at as i128 > TTL_SECONDS as i128
    }

    /// The verdict to answer with. Without one the answer is that all is well: no outage is invented.
    pub fn current(&self) -> (r: Connectivity)
        ensures
            r == self.answer(),
    {
        match self.verdict {
            Some(v) => v,
            None => Connectivity::Online,
        }
    }
}

impl Default for AnchorGate {
    fn default() -> (r: Self)
        ensures
            r.verdict is None,
            r.checked_at == 0,
    {
        AnchorGate::new()
    }
}

/// An edge is announced once: the same result again announces nothing, and the opposite result is an
/// edge.
pub proof fn law_edges_are_announced_once(g: AnchorGate, reachable: bool, now: Ts)
    ensures
        g.probed(reachable, now).edge(reachable) is None,
        g.probed(reachable, now).edge(!reachable) == Some(!reachable),
{
}

/// A probe is answered with for ten seconds: the answer is online exactly where an anchor was reached,
/// and before the first probe. The first probe is an edge whatever it finds.
pub proof fn law_answers_follow_the_probe(g: AnchorGate, reachable: bool, at: Ts, now: Ts)
    ensures
        g.probed(reachable, at).answer() == Connectivity::Online <==> reachable,
        g.verdict is None ==> g.answer() == Connectivity::Online && g.edge(reachable) == Some(reachable),
        g.probed(reachable, at).is_stale(now) <==> now > at + 10,
{
}

} // verus!
