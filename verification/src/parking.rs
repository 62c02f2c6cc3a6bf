//! Wake/requeue decision logic of the predicate lock.
//!
//! Parking suspends a thread on a queue keyed by the lock's address;
//! unparking dequeues and resumes it; requeueing moves it to another queue
//! without waking it. The queue itself is run by the thread-parking engine
//! outside this library; what is verified here is every decision that engine
//! is handed: which requeue operation a notify call selects, how the
//! "has parked waiters" flag is maintained afterwards, and how a waiter
//! classifies the outcome of its park call.

use vstd::prelude::*;

verus! {

/// The operation a notify call asks the parking engine to perform on the
/// wait queue, chosen under the queue's own lock.
#[derive(Clone, Copy, Debug, PartialEq, Eq, Structural)]
pub enum RequeueDecision {
    /// Wake exactly one waiter.
    UnparkOne,
    /// Move one waiter to the target queue without waking it.
    RequeueOne,
    /// Move all waiters to the target queue without waking them.
    RequeueAll,
    /// Wake one waiter and move the rest.
    UnparkOneRequeueRest,
    /// No eligible waiters: do nothing.
    Abort,
}

/// What a parked thread observes when its park call returns.
#[derive(Clone, Copy, Debug, PartialEq, Eq, Structural)]
pub enum ParkResultKind {
    /// Another thread woke it.
    Unparked,
    /// The pre-sleep validation failed and it never slept.
    Invalid,
    /// The bounded wait elapsed.
    TimedOut,
}

/// Result of one bounded wait on a predicate lock.
#[derive(Clone, Copy, Debug, PartialEq, Eq, Structural)]
pub enum WaitOutcome {
    /// Woken and the lock attempt succeeded: access is held.
    Success,
    /// Woken but the lock attempt failed: retry.
    Failure,
    /// Moved to a different queue mid-wait: the lock identity changed.
    Requeued,
    /// The wait's deadline passed.
    TimedOut,
}

impl WaitOutcome {
    /// Check if the result indicates a timeout.
    pub fn timed_out(&self) -> (r: bool)
        ensures
            r == (*self is TimedOut),
    {
        match self {
            WaitOutcome::TimedOut => true,
            _ => false,
        }
    }

    /// Check if the result indicates successful gain of access.
    pub fn acquired_access(&self) -> (r: bool)
        ensures
            r == (*self is Success),
    {
        match self {
            WaitOutcome::Success => true,
            _ => false,
        }
    }
}

/// Error of one failed wait, where success carries a guard instead.
#[derive(Clone, Copy, Debug, PartialEq, Eq, Structural)]
pub enum AccessError {
    /// Woken, but the lock attempt failed: retry.
    AttemptFailed,
    /// Moved to a different queue mid-wait: retry against the new lock.
    Requeued,
    /// The wait's deadline passed: terminal for a bounded wait.
    TimedOut,
}

impl AccessError {
    /// Check if the error indicates a timeout.
    pub fn timed_out(&self) -> (r: bool)
        ensures
            r == (*self is TimedOut),
    {
        match self {
            AccessError::TimedOut => true,
            _ => false,
        }
    }

    /// A failed wait is worth retrying unless its deadline passed.
    pub fn retryable(&self) -> (r: bool)
        ensures
            r == !(*self is TimedOut),
    {
        match self {
            AccessError::TimedOut => false,
            _ => true,
        }
    }
}

impl Default for AccessError {
    fn default() -> (r: AccessError)
        ensures
            r is AttemptFailed,
    {
        AccessError::AttemptFailed
    }
}

/// Error of a wait whose outcome is reported without a guard.
#[derive(Clone, Copy, Debug, PartialEq, Eq, Structural)]
pub enum WaitError {
    Failure,
    Requeued,
    TimedOut,
}

impl WaitError {
    /// Check if the error indicates a timeout.
    pub fn timed_out(&self) -> (r: bool)
        ensures
            r == (*self is TimedOut),
    {
        match self {
            WaitError::TimedOut => true,
            _ => false,
        }
    }
}

/// The operation `notify_one` selects: wake one waiter only if one exists
/// and the lock has capacity; requeue instead of waking a waiter that would
/// only fail its lock attempt; abort if nothing is parked.
pub open spec fn notify_one_choice(has_parked: bool, is_locked: bool) -> RequeueDecision {
    if !has_parked {
        RequeueDecision::Abort
    } else if is_locked {
        RequeueDecision::RequeueOne
    } else {
        RequeueDecision::UnparkOne
    }
}

/// The operation `notify_all` selects: with capacity free, wake one waiter
/// to claim it and requeue the rest; with none, requeue everyone; with
/// nothing parked, abort.
pub open spec fn notify_all_choice(has_parked: bool, is_locked: bool) -> RequeueDecision {
    if !has_parked {
        RequeueDecision::Abort
    } else if is_locked {
        RequeueDecision::RequeueAll
    } else {
        RequeueDecision::UnparkOneRequeueRest
    }
}

/// Decide what `notify_one` asks of the parking engine.
pub fn notify_one_decision(has_parked: bool, is_locked: bool) -> (d: RequeueDecision)
    ensures
        d == notify_one_choice(has_parked, is_locked),
{
    if !has_parked {
        RequeueDecision::Abort
    } else if is_locked {
        RequeueDecision::RequeueOne
    } else {
        RequeueDecision::UnparkOne
    }
}

/// Decide what `notify_all` asks of the parking engine.
pub fn notify_all_decision(has_parked: bool, is_locked: bool) -> (d: RequeueDecision)
    ensures
        d == notify_all_choice(has_parked, is_locked),
{
    if !has_parked {
        RequeueDecision::Abort
    } else if is_locked {
        RequeueDecision::RequeueAll
    } else {
        RequeueDecision::UnparkOneRequeueRest
    }
}

/// The "has parked waiters" flag after a notify operation, as a function of
/// what the parking engine reported: how many threads it requeued onto this
/// lock's own queue, and whether the queue still holds sleepers.
pub open spec fn parked_flag_spec(requeued: nat, have_more_threads: bool) -> bool {
    requeued > 0 || have_more_threads
}

/// Recompute the "has parked waiters" flag after a notify operation. Waiters
/// remain exactly when some thread was requeued onto this lock's own queue
/// or the queue still holds sleepers.
pub fn parked_flag_after_notify(requeued: usize, have_more_threads: bool) -> (flag: bool)
    ensures
        flag == parked_flag_spec(requeued as nat, have_more_threads),
{
    requeued > 0 || have_more_threads
}

/// Whether a notify call reached any waiter at all.
pub fn notified_someone(unparked: usize, requeued: usize) -> (r: bool)
    ensures
        r == (unparked + requeued != 0),
{
    unparked > 0 || requeued > 0
}

/// Classify the return of one park call: a move to a different queue
/// surfaces as `Requeued`; a wake-up stands or falls with the lock attempt
/// that follows it; anything else is a timeout.
pub fn wait_outcome(
    park_result: ParkResultKind,
    requeued_elsewhere: bool,
    lock_granted: bool,
) -> (w: WaitOutcome)
    ensures
        w == (if requeued_elsewhere {
            WaitOutcome::Requeued
        } else if park_result is Unparked && lock_granted {
            WaitOutcome::Success
        } else if park_result is Unparked {
            WaitOutcome::Failure
        } else {
            WaitOutcome::TimedOut
        }),
{
    if requeued_elsewhere {
        WaitOutcome::Requeued
    } else {
        match park_result {
            ParkResultKind::Unparked => {
                if lock_granted {
                    WaitOutcome::Success
                } else {
                    WaitOutcome::Failure
                }
            },
            _ => WaitOutcome::TimedOut,
        }
    }
}

/// Whether a wait should be repeated after this outcome: a failed attempt
/// or a requeue is always retried; a timeout ends a bounded wait but not
/// an unbounded one; success ends either.
pub fn wait_retry(outcome: &WaitOutcome, bounded: bool) -> (r: bool)
    ensures
        r == (!(*outcome is Success) && !(bounded && *outcome is TimedOut)),
{
    match outcome {
        WaitOutcome::Success => false,
        WaitOutcome::TimedOut => !bounded,
        WaitOutcome::Failure | WaitOutcome::Requeued => true,
    }
}

/// No lost wakeup: a thread parked awaiting `try_lock` success is not left
/// asleep once capacity frees up and a notify call runs. Releasing one of
/// `curr > 0` live accesses leaves the count strictly below the limit, so
/// both notify decisions wake a waiter (neither aborts nor merely
/// requeues), and the woken waiter's own `try_lock` then succeeds.
pub proof fn lemma_no_lost_wakeup(limit: u64, curr: u64, has_parked: bool)
    requires
        has_parked,
        0 < curr <= limit,
    ensures
        crate::counting::sem_step(limit, curr, false) < limit,
        notify_one_choice(has_parked, crate::counting::sem_step(limit, curr, false) == limit)
            is UnparkOne,
        notify_all_choice(has_parked, crate::counting::sem_step(limit, curr, false) == limit)
            is UnparkOneRequeueRest,
        crate::counting::sem_step(limit, crate::counting::sem_step(limit, curr, false), true)
            == crate::counting::sem_step(limit, curr, false) + 1,
{
}

/// The flag bookkeeping never loses a waiter: after any notify operation,
/// the "has parked waiters" flag is cleared only if the parking engine
/// reported that no thread was requeued here and none remains asleep.
pub proof fn lemma_parked_flag_conservative(requeued: nat, have_more_threads: bool)
    ensures
        !parked_flag_spec(requeued, have_more_threads) ==> requeued == 0
            && !have_more_threads,
{
}

} // verus!
