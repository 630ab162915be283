//! The in-memory state of the barrier manager: the `prev_epoch` of the
//! last barrier sent. Persisting it to the metadata store happens
//! outside; this holds and hands out the value.

use vstd::prelude::*;

verus! {

/// An epoch value as it travels with a barrier.
#[derive(Clone, Copy, Debug, PartialEq, Eq, Structural)]
pub struct TracedEpoch {
    pub curr: u64,
}

impl TracedEpoch {
    pub fn new(curr: u64) -> (r: TracedEpoch)
        ensures
            r.curr == curr,
    {
        TracedEpoch { curr }
    }

    pub fn value(&self) -> (r: u64)
        ensures
            r == self.curr,
    {
        self.curr
    }
}

/// The state the global barrier manager keeps between barriers.
pub struct BarrierManagerState {
    /// The last sent `prev_epoch`.
    in_flight_prev_epoch: TracedEpoch,
}

impl BarrierManagerState {
    pub closed spec fn spec_in_flight_prev_epoch(self) -> TracedEpoch {
        self.in_flight_prev_epoch
    }

    /// Starts from the epoch recovered from the metadata store, or
    /// from the invalid epoch on first start.
    pub fn new(in_flight_prev_epoch: TracedEpoch) -> (r: BarrierManagerState)
        ensures
            r.spec_in_flight_prev_epoch() == in_flight_prev_epoch,
    {
        BarrierManagerState { in_flight_prev_epoch }
    }

    /// Moves to the epoch of the barrier just sent; the caller
    /// persists it before calling.
    pub fn set_inflight_prev_epoch(&mut self, new_epoch: TracedEpoch)
        ensures
            final(self).spec_in_flight_prev_epoch() == new_epoch,
    {
        self.in_flight_prev_epoch = new_epoch;
    }

    /// The last sent `prev_epoch`.
    pub fn in_flight_prev_epoch(&self) -> (r: TracedEpoch)
        ensures
            r == self.spec_in_flight_prev_epoch(),
    {
        self.in_flight_prev_epoch
    }
}

} // verus!
