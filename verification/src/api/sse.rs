//! The event stream: what a subscriber is sent after each read of the bus.

use vstd::prelude::*;

verus! {

/// What a read of the bus gave.
#[derive(Clone, Copy, Debug, PartialEq, Eq, Structural)]
pub enum BusRead {
    /// An event.
    Event,
    /// A gap: the subscriber fell behind.
    Lagged,
    /// The end.
    Closed,
}

/// What to do after a read.
#[derive(Clone, Copy, Debug, PartialEq, Eq, Structural)]
pub enum Step {
    /// Send the event under an id.
    Forward(u64),
    /// Send a fresh snapshot under an id.
    Resync(u64),
    /// End the stream.
    Stop,
}

/// A subscriber's place in its stream: the id of the last message, of which the first is the
/// snapshot on connecting.
#[derive(Clone, Copy, Debug, PartialEq, Eq, Structural)]
pub struct Forwarder {
    pub last_id: u64,
}

/// A read takes a subscriber's place from `f` to `g`, and `step` follows it.
pub open spec fn follows_read(f: Forwarder, read: BusRead, g: Forwarder, step: Step) -> bool {
    &&& step == (match read {
        BusRead::Event => Step::Forward((f.last_id + 1) as u64),
        BusRead::Lagged => Step::Resync((f.last_id + 1) as u64),
        BusRead::Closed => Step::Stop,
    })
    &&& g.last_id == (if read == BusRead::Closed {
        f.last_id as int
    } else {
        f.last_id + 1
    })
}

impl Forwarder {
    /// A subscriber that was sent its first snapshot.
    pub fn new() -> (r: Self)
        ensures
            r.last_id == 0,
    {
        Forwarder { last_id: 0 }
    }

    /// Decides what follows a read. A gap is closed by a fresh snapshot, so that no update is
    /// missed, and every message has the next id.
    pub fn on_read(&mut self, read: BusRead) -> (r: Step)
        requires
            old(self).last_id < u64::MAX,
        ensures
            follows_read(*old(self), read, *final(self), r),
    {
        match read {
            BusRead::Event => {
                self.last_id = self.last_id + 1;
                Step::Forward(self.last_id)
            },
            BusRead::Lagged => {
                self.last_id = self.last_id + 1;
                Step::Resync(self.last_id)
            },
            BusRead::Closed => Step::Stop,
        }
    }
}

/// Every message has the id after that of the last one: an event is passed on, and a gap is answered
/// with a snapshot. The end of the bus ends the stream and takes no id.
pub proof fn law_ids_follow_each_other(f: Forwarder, read: BusRead, g: Forwarder, step: Step)
    requires
        f.last_id < u64::MAX,
        follows_read(f, read, g, step),
    ensures
        read == BusRead::Event ==> (step matches Step::Forward(id) && id == f.last_id + 1 && g.last_id
            == id),
        read == BusRead::Lagged ==> (step matches Step::Resync(id) && id == f.last_id + 1 && g.last_id
            == id),
        read == BusRead::Closed ==> step == Step::Stop && g.last_id == f.last_id,
{
}

} // verus!
