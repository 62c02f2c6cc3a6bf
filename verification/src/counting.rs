//! Counting-semaphore state: a counter of live accesses bounded by a limit.
//!
//! `try_lock` succeeds and increments the count iff the count is below the
//! limit; `unlock` succeeds and decrements iff the count is above zero. The
//! lock is considered locked exactly when no capacity remains.

use vstd::prelude::*;

verus! {

/// One step of the semaphore state machine: what the live count becomes
/// when a `try_lock` (`acquire == true`) or an `unlock` (`acquire == false`)
/// is applied to a count of `curr` under the given `limit`.
pub open spec fn sem_step(limit: u64, curr: u64, acquire: bool) -> u64 {
    if acquire {
        if curr < limit {
            (curr + 1) as u64
        } else {
            curr
        }
    } else {
        if curr > 0 {
            (curr - 1) as u64
        } else {
            curr
        }
    }
}

/// The live count after a whole sequence of `try_lock`/`unlock` calls,
/// starting from zero live accesses.
pub open spec fn live_after(limit: u64, ops: Seq<bool>) -> u64
    decreases ops.len(),
{
    if ops.len() == 0 {
        0u64
    } else {
        sem_step(limit, live_after(limit, ops.drop_last()), ops.last())
    }
}

/// Semaphore bound: whatever sequence of `try_lock`/`unlock` calls is
/// applied, the number of simultaneously live (granted and un-released)
/// accesses never exceeds the limit.
pub proof fn lemma_semaphore_bound(limit: u64, ops: Seq<bool>)
    ensures
        live_after(limit, ops) <= limit,
    decreases ops.len(),
{
    if ops.len() > 0 {
        lemma_semaphore_bound(limit, ops.drop_last());
    }
}

/// Number of simultaneously permitted accesses, and how many are live.
pub struct Counter {
    curr: u64,
    limit: u64,
}

impl Counter {
    /// The semaphore invariant: live accesses never exceed the limit.
    pub closed spec fn wf(self) -> bool {
        self.curr <= self.limit
    }

    pub closed spec fn spec_curr(self) -> u64 {
        self.curr
    }

    pub closed spec fn spec_limit(self) -> u64 {
        self.limit
    }

    pub fn new(limit: u64) -> (r: Counter)
        ensures
            r.wf(),
            r.spec_curr() == 0,
            r.spec_limit() == limit,
    {
        Counter { curr: 0, limit }
    }

    /// How many more accesses may be granted before the semaphore blocks.
    pub fn remaining_capacity(&self) -> (r: u64)
        requires
            self.wf(),
        ensures
            r == self.spec_limit() - self.spec_curr(),
    {
        self.limit - self.curr
    }

    /// Record one more live access, if capacity remains.
    pub fn increment(&mut self) -> (granted: bool)
        requires
            old(self).wf(),
        ensures
            final(self).wf(),
            final(self).spec_limit() == old(self).spec_limit(),
            granted == (old(self).spec_curr() < old(self).spec_limit()),
            granted ==> final(self).spec_curr() == old(self).spec_curr() + 1,
            !granted ==> final(self).spec_curr() == old(self).spec_curr(),
    {
        if self.curr < self.limit {
            self.curr = self.curr + 1;
            true
        } else {
            false
        }
    }

    /// Release one live access, if any is held.
    pub fn decrement(&mut self) -> (released: bool)
        requires
            old(self).wf(),
        ensures
            final(self).wf(),
            final(self).spec_limit() == old(self).spec_limit(),
            released == (old(self).spec_curr() > 0),
            released ==> final(self).spec_curr() == old(self).spec_curr() - 1,
            !released ==> final(self).spec_curr() == old(self).spec_curr(),
    {
        if self.curr > 0 {
            self.curr = self.curr - 1;
            true
        } else {
            false
        }
    }

    /// Locked means no capacity remains: a further `try_lock` would fail.
    pub fn is_locked(&self) -> (r: bool)
        requires
            self.wf(),
        ensures
            r == (self.spec_curr() == self.spec_limit()),
    {
        self.curr == self.limit
    }

    pub fn try_lock(&mut self) -> (granted: bool)
        requires
            old(self).wf(),
        ensures
            final(self).wf(),
            final(self).spec_limit() == old(self).spec_limit(),
            granted == (old(self).spec_curr() < old(self).spec_limit()),
            final(self).spec_curr() == sem_step(
                old(self).spec_limit(),
                old(self).spec_curr(),
                true,
            ),
    {
        self.increment()
    }

    pub fn unlock(&mut self) -> (released: bool)
        requires
            old(self).wf(),
        ensures
            final(self).wf(),
            final(self).spec_limit() == old(self).spec_limit(),
            released == (old(self).spec_curr() > 0),
            final(self).spec_curr() == sem_step(
                old(self).spec_limit(),
                old(self).spec_curr(),
                false,
            ),
    {
        self.decrement()
    }
}

} // verus!
