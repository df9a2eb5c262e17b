//! The concurrency limiter's accounting: how many probes hold a slot, out
//! of a fixed number of slots. Granting and releasing are decisions on this
//! counter; the suspension of a unit that was denied a slot is the
//! runtime's affair, not this module's.

use vstd::prelude::*;

verus! {

/// Slot accounting for the probe limiter. At most `capacity` slots are
/// ever granted at once; `in_flight` is the number granted and not yet
/// released.
pub struct Limiter {
    pub capacity: u32,
    pub in_flight: u32,
}

impl Limiter {
    /// The bound the limiter exists for: never more probes in flight than
    /// it was configured to allow.
    pub open spec fn wf(self) -> bool {
        &&& self.capacity >= 1
        &&& self.in_flight <= self.capacity
    }

    /// A fresh limiter with `capacity` slots, none granted.
    pub fn new(capacity: u32) -> (l: Limiter)
        requires
            capacity >= 1,
        ensures
            l.wf(),
            l.capacity == capacity,
            l.in_flight == 0,
    {
        Limiter { capacity, in_flight: 0 }
    }

    /// Asks for a slot. A slot is granted exactly when one is free; a unit
    /// that is denied holds nothing and must ask again later.
    pub fn try_acquire(&mut self) -> (granted: bool)
        requires
            old(self).wf(),
        ensures
            final(self).wf(),
            final(self).capacity == old(self).capacity,
            granted == (old(self).in_flight < old(self).capacity),
            granted ==> final(self).in_flight == old(self).in_flight + 1,
            !granted ==> final(self).in_flight == old(self).in_flight,
    {
        if self.in_flight < self.capacity {
            self.in_flight = self.in_flight + 1;
            true
        } else {
            false
        }
    }

    /// Gives a granted slot back. Each grant is released exactly once, so
    /// a release always finds at least one slot in flight.
    pub fn release(&mut self)
        requires
            old(self).wf(),
            old(self).in_flight >= 1,
        ensures
            final(self).wf(),
            final(self).capacity == old(self).capacity,
            final(self).in_flight == old(self).in_flight - 1,
    {
        self.in_flight = self.in_flight - 1;
    }
}

} // verus!
