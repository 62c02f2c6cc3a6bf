//! Counting lock states behind a common interface.
//!
//! A counting lock state is any record that tracks a live-access count
//! bounded by a limit; the predicate lock drives one through `try_lock` /
//! `unlock`. `CountState` keeps the limit at run time, `ConstCountLock`
//! fixes it at compile time, and `CountingLock` pairs a state with the
//! "has parked waiters" flag the notify path reads.

use vstd::prelude::*;

use crate::counting::sem_step;

verus! {

/// A live-access counter bounded by a limit: the state of a counting
/// semaphore, as the predicate lock consumes it.
pub trait CountingLockState: Sized {
    spec fn inv(&self) -> bool;

    spec fn curr_spec(&self) -> u64;

    spec fn limit_spec(&self) -> u64;

    fn curr(&self) -> (r: u64)
        requires
            self.inv(),
        ensures
            r == self.curr_spec(),
    ;

    fn limit(&self) -> (r: u64)
        requires
            self.inv(),
        ensures
            r == self.limit_spec(),
    ;

    /// Record one more live access iff the count is below the limit.
    fn increment(&mut self) -> (granted: bool)
        requires
            old(self).inv(),
        ensures
            final(self).inv(),
            final(self).limit_spec() == old(self).limit_spec(),
            granted == (old(self).curr_spec() < old(self).limit_spec()),
            final(self).curr_spec() == sem_step(
                old(self).limit_spec(),
                old(self).curr_spec(),
                true,
            ),
    ;

    /// Release one live access iff the count is above zero.
    fn decrement(&mut self) -> (released: bool)
        requires
            old(self).inv(),
        ensures
            final(self).inv(),
            final(self).limit_spec() == old(self).limit_spec(),
            released == (old(self).curr_spec() > 0),
            final(self).curr_spec() == sem_step(
                old(self).limit_spec(),
                old(self).curr_spec(),
                false,
            ),
    ;
}

/// A counting-lock state whose limit is chosen at run time.
pub struct CountState {
    limit: u64,
    curr: u64,
}

impl CountState {
    pub fn new(limit: u64) -> (r: CountState)
        ensures
            r.inv(),
            r.curr_spec() == 0,
            r.limit_spec() == limit,
    {
        CountState { limit, curr: 0 }
    }
}

impl CountingLockState for CountState {
    closed spec fn inv(&self) -> bool {
        self.curr <= self.limit
    }

    closed spec fn curr_spec(&self) -> u64 {
        self.curr
    }

    closed spec fn limit_spec(&self) -> u64 {
        self.limit
    }

    fn curr(&self) -> u64 {
        self.curr
    }

    fn limit(&self) -> u64 {
        self.limit
    }

    fn increment(&mut self) -> bool {
        if self.curr < self.limit {
            self.curr = self.curr + 1;
            true
        } else {
            false
        }
    }

    fn decrement(&mut self) -> bool {
        if self.curr > 0 {
            self.curr = self.curr - 1;
            true
        } else {
            false
        }
    }
}

/// A counting-lock state whose limit is fixed at compile time.
pub struct ConstCountLock<const LIMIT: u8> {
    curr: u8,
}

impl<const LIMIT: u8> ConstCountLock<LIMIT> {
    pub fn new() -> (r: ConstCountLock<LIMIT>)
        ensures
            r.inv(),
            r.curr_spec() == 0,
            r.limit_spec() == LIMIT as u64,
    {
        ConstCountLock { curr: 0 }
    }
}

impl<const LIMIT: u8> CountingLockState for ConstCountLock<LIMIT> {
    closed spec fn inv(&self) -> bool {
        self.curr <= LIMIT
    }

    closed spec fn curr_spec(&self) -> u64 {
        self.curr as u64
    }

    closed spec fn limit_spec(&self) -> u64 {
        LIMIT as u64
    }

    fn curr(&self) -> u64 {
        self.curr as u64
    }

    fn limit(&self) -> u64 {
        LIMIT as u64
    }

    fn increment(&mut self) -> bool {
        if self.curr < LIMIT {
            self.curr = self.curr + 1;
            true
        } else {
            false
        }
    }

    fn decrement(&mut self) -> bool {
        if self.curr > 0 {
            self.curr = self.curr - 1;
            true
        } else {
            false
        }
    }
}

/// A counting-lock state together with the flag that records whether any
/// thread is parked waiting on it. The flag is what `notify_one` /
/// `notify_all` consult before touching the wait queue.
pub struct CountingLock<S: CountingLockState> {
    state: S,
    parked: bool,
}

impl<S: CountingLockState> CountingLock<S> {
    pub closed spec fn inv(&self) -> bool {
        self.state.inv()
    }

    pub closed spec fn curr_spec(&self) -> u64 {
        self.state.curr_spec()
    }

    pub closed spec fn limit_spec(&self) -> u64 {
        self.state.limit_spec()
    }

    pub closed spec fn parked_spec(&self) -> bool {
        self.parked
    }

    pub fn new(state: S) -> (r: CountingLock<S>)
        requires
            state.inv(),
        ensures
            r.inv(),
            r.curr_spec() == state.curr_spec(),
            r.limit_spec() == state.limit_spec(),
            !r.parked_spec(),
    {
        CountingLock { state, parked: false }
    }

    /// Locked means no capacity remains: a waiter woken now would fail.
    pub fn is_locked(&self) -> (r: bool)
        requires
            self.inv(),
        ensures
            r == (self.curr_spec() == self.limit_spec()),
    {
        self.state.curr() == self.state.limit()
    }

    pub fn try_lock(&mut self) -> (granted: bool)
        requires
            old(self).inv(),
        ensures
            final(self).inv(),
            final(self).limit_spec() == old(self).limit_spec(),
            final(self).parked_spec() == old(self).parked_spec(),
            granted == (old(self).curr_spec() < old(self).limit_spec()),
            final(self).curr_spec() == sem_step(
                old(self).limit_spec(),
                old(self).curr_spec(),
                true,
            ),
    {
        self.state.increment()
    }

    pub fn unlock(&mut self) -> (released: bool)
        requires
            old(self).inv(),
        ensures
            final(self).inv(),
            final(self).limit_spec() == old(self).limit_spec(),
            final(self).parked_spec() == old(self).parked_spec(),
            released == (old(self).curr_spec() > 0),
            final(self).curr_spec() == sem_step(
                old(self).limit_spec(),
                old(self).curr_spec(),
                false,
            ),
    {
        self.state.decrement()
    }

    pub fn parked(&self) -> (r: bool)
        ensures
            r == self.parked_spec(),
    {
        self.parked
    }

    pub fn mark_parked(&mut self)
        requires
            old(self).inv(),
        ensures
            final(self).inv(),
            final(self).parked_spec(),
            final(self).curr_spec() == old(self).curr_spec(),
            final(self).limit_spec() == old(self).limit_spec(),
    {
        self.parked = true;
    }

    pub fn mark_unparked(&mut self)
        requires
            old(self).inv(),
        ensures
            final(self).inv(),
            !final(self).parked_spec(),
            final(self).curr_spec() == old(self).curr_spec(),
            final(self).limit_spec() == old(self).limit_spec(),
    {
        self.parked = false;
    }
}

} // verus!
