//! The concurrency governor: a counting permit pool that bounds how many
//! remote fetches run at once. The model decides, per request, whether a
//! token is granted or the requester must wait; the count of outstanding
//! tokens never exceeds the configured capacity.
//!
//! The suspension itself needs an async primitive, so at run time the
//! unverified shell holds an async semaphore of the same capacity; this
//! module states and proves the grant/release policy and its bound.

use vstd::prelude::*;

verus! {

/// One event at the governor: a task asks for a token, or returns one.
pub enum GovEvent {
    Request,
    Release,
}

/// The outstanding-token count after one event: a request is granted
/// only below capacity (an excess requester waits, leaving the count
/// unchanged until a release), and a release returns one token.
pub open spec fn gov_step(held: int, capacity: int, e: GovEvent) -> int {
    match e {
        GovEvent::Request => if held < capacity {
            held + 1
        } else {
            held
        },
        GovEvent::Release => if held > 0 {
            held - 1
        } else {
            held
        },
    }
}

/// The outstanding-token count after a whole sequence of events.
pub open spec fn gov_run(held: int, capacity: int, evs: Seq<GovEvent>) -> int
    decreases evs.len(),
{
    if evs.len() == 0 {
        held
    } else {
        gov_step(gov_run(held, capacity, evs.drop_last()), capacity, evs.last())
    }
}

/// Law: under any interleaving of requests and releases, starting idle,
/// the number of concurrently held tokens never exceeds the capacity —
/// at every point of the run, not only at its end.
pub proof fn lemma_capacity_never_exceeded(capacity: int, evs: Seq<GovEvent>, k: int)
    requires
        capacity >= 0,
        0 <= k <= evs.len(),
    ensures
        0 <= gov_run(0, capacity, evs.take(k)) <= capacity,
    decreases k,
{
    if k == 0 {
        assert(evs.take(0) =~= Seq::<GovEvent>::empty());
    } else {
        lemma_capacity_never_exceeded(capacity, evs, k - 1);
        assert(evs.take(k).drop_last() =~= evs.take(k - 1));
        assert(evs.take(k).last() == evs[k - 1]);
    }
}

/// A counting permit pool of fixed capacity.
pub struct Governor {
    pub capacity: usize,
    pub held: usize,
}

impl Governor {
    /// The outstanding count stays within capacity.
    pub open spec fn wf(&self) -> bool {
        self.held <= self.capacity
    }

    /// An idle pool of the given capacity.
    pub fn new(capacity: usize) -> (r: Self)
        ensures
            r.wf(),
            r.capacity == capacity,
            r.held == 0,
    {
        Governor { capacity, held: 0 }
    }

    /// Ask for a token. It is granted exactly when a permit is free;
    /// otherwise the requester must suspend and ask again after a
    /// release.
    pub fn try_acquire(&mut self) -> (granted: bool)
        requires
            old(self).wf(),
        ensures
            final(self).wf(),
            final(self).capacity == old(self).capacity,
            granted == (old(self).held < old(self).capacity),
            final(self).held as int == gov_step(
                old(self).held as int,
                old(self).capacity as int,
                GovEvent::Request,
            ),
    {
        if self.held < self.capacity {
            self.held = self.held + 1;
            true
        } else {
            false
        }
    }

    /// Return a held token to the pool.
    pub fn release(&mut self)
        requires
            old(self).wf(),
            old(self).held > 0,
        ensures
            final(self).wf(),
            final(self).capacity == old(self).capacity,
            final(self).held as int == gov_step(
                old(self).held as int,
                old(self).capacity as int,
                GovEvent::Release,
            ),
    {
        self.held = self.held - 1;
    }
}

} // verus!
