//! The bounded-concurrency fan-out model: a permit counter over a fixed
//! work set. The caller starts one request per permit and reports each
//! completion back; the ceiling on simultaneously in-flight requests is an
//! invariant of the state, not a batching pattern, so a new request may be
//! admitted as soon as a slot frees.
use vstd::prelude::*;

verus! {

/// The ceiling on simultaneously in-flight delete requests.
pub const DELETE_CONCURRENCY: usize = 10;

/// The ceiling on simultaneously in-flight create requests.
pub const CREATE_CONCURRENCY: usize = 25;

/// The state of one bounded fan-out: how many of `total` requests have been
/// started, and how many of those are still in flight.
#[derive(Debug)]
pub struct FanOut {
    pub limit: usize,
    pub total: usize,
    pub started: usize,
    pub in_flight: usize,
}

impl FanOut {
    /// The state invariant: never more than `limit` requests in flight, and
    /// never more work started than exists.
    pub open spec fn wf(&self) -> bool {
        &&& self.in_flight <= self.limit
        &&& self.in_flight <= self.started
        &&& self.started <= self.total
    }

    /// All work started and every request completed.
    pub open spec fn spec_done(&self) -> bool {
        self.started == self.total && self.in_flight == 0
    }

    /// A fresh fan-out over `total` requests: nothing started, so an empty
    /// work set is complete at once, with no request issued.
    pub fn new(limit: usize, total: usize) -> (r: FanOut)
        requires
            limit >= 1,
        ensures
            r.wf(),
            r.limit == limit,
            r.total == total,
            r.started == 0,
            r.in_flight == 0,
            r.spec_done() == (total == 0),
    {
        FanOut { limit, total, started: 0, in_flight: 0 }
    }

    /// Whether a new request may be admitted: work remains and a permit is
    /// free.
    pub fn can_start(&self) -> (r: bool)
        ensures
            r == (self.started < self.total && self.in_flight < self.limit),
    {
        self.started < self.total && self.in_flight < self.limit
    }

    /// Admits one request, taking a permit.
    pub fn start(&mut self)
        requires
            old(self).wf(),
            old(self).started < old(self).total,
            old(self).in_flight < old(self).limit,
        ensures
            final(self).wf(),
            final(self).limit == old(self).limit,
            final(self).total == old(self).total,
            final(self).started == old(self).started + 1,
            final(self).in_flight == old(self).in_flight + 1,
    {
        self.started = self.started + 1;
        self.in_flight = self.in_flight + 1;
    }

    /// Records one completion, freeing its permit, whether the request
    /// succeeded or failed.
    pub fn finish(&mut self)
        requires
            old(self).wf(),
            old(self).in_flight > 0,
        ensures
            final(self).wf(),
            final(self).limit == old(self).limit,
            final(self).total == old(self).total,
            final(self).started == old(self).started,
            final(self).in_flight == old(self).in_flight - 1,
    {
        self.in_flight = self.in_flight - 1;
    }

    /// Whether the fan-out is complete.
    pub fn done(&self) -> (r: bool)
        ensures
            r == self.spec_done(),
    {
        self.started == self.total && self.in_flight == 0
    }
}

/// The concurrency ceiling is respected: in every reachable fan-out state —
/// the constructor establishes `wf` and every step preserves it — the number
/// of in-flight requests is at most the configured limit, however large the
/// work set is.
pub proof fn lemma_in_flight_bounded(f: &FanOut)
    requires
        f.wf(),
    ensures
        f.in_flight <= f.limit,
{
}

} // verus!
