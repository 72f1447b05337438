//! The concurrency limiter, modeled.
//!
//! The fan-out launches one unit of work per target but gates them through
//! a counting limiter of fixed capacity: a unit acquires one slot before
//! any of its work and releases exactly one slot on every exit path. This
//! model carries the bound the orchestrator relies on; the live gate in
//! the surrounding runtime is a counting semaphore of the same capacity.

use vstd::prelude::*;

verus! {

/// The number of concurrent units the fan-out admits.
pub const CONCURRENCY_LIMIT: u32 = 10;

/// A counting limiter with a fixed capacity.
pub struct Limiter {
    pub capacity: u32,
    pub in_use: u32,
}

impl Limiter {
    /// No more units hold a slot than the capacity admits.
    pub open spec fn wf(self) -> bool {
        self.in_use <= self.capacity
    }

    pub fn new(capacity: u32) -> (r: Limiter)
        ensures
            r.capacity == capacity,
            r.in_use == 0,
            r.wf(),
    {
        Limiter { capacity, in_use: 0 }
    }

    /// Grants a slot exactly where one is free.
    pub fn try_acquire(&mut self) -> (granted: bool)
        ensures
            final(self).capacity == old(self).capacity,
            granted <==> old(self).in_use < old(self).capacity,
            granted ==> final(self).in_use == old(self).in_use + 1,
            !granted ==> final(self).in_use == old(self).in_use,
            old(self).wf() ==> final(self).wf(),
    {
        if self.in_use < self.capacity {
            self.in_use = self.in_use + 1;
            true
        } else {
            false
        }
    }

    /// Returns one held slot; every exit path of a unit does this once.
    pub fn release(&mut self)
        requires
            old(self).in_use >= 1,
        ensures
            final(self).capacity == old(self).capacity,
            final(self).in_use == old(self).in_use - 1,
            old(self).wf() ==> final(self).wf(),
    {
        self.in_use = self.in_use - 1;
    }
}

/// One step of the fan-out's schedule, as the limiter sees it.
pub enum LimiterOp {
    Acquire,
    Release,
}

/// The number of units holding a slot after a sequence of steps, starting
/// from an idle limiter: an acquire is granted only while a slot is free,
/// a release returns a slot only while one is held.
pub open spec fn spec_slots_after(capacity: nat, ops: Seq<LimiterOp>) -> nat
    decreases ops.len(),
{
    if ops.len() == 0 {
        0
    } else {
        let prev = spec_slots_after(capacity, ops.drop_last());
        match ops.last() {
            LimiterOp::Acquire => if prev < capacity {
                prev + 1
            } else {
                prev
            },
            LimiterOp::Release => if prev > 0 {
                (prev - 1) as nat
            } else {
                prev
            },
        }
    }
}

/// However the units' acquires and releases interleave, at no point do
/// more units hold a slot than the limiter's capacity.
pub proof fn lemma_bounded_concurrency(capacity: nat, ops: Seq<LimiterOp>)
    ensures
        spec_slots_after(capacity, ops) <= capacity,
    decreases ops.len(),
{
    if ops.len() > 0 {
        lemma_bounded_concurrency(capacity, ops.drop_last());
    }
}

} // verus!
