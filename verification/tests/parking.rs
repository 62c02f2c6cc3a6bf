use count_dir::parking::{
    notified_someone, notify_all_decision, notify_one_decision, parked_flag_after_notify,
    wait_outcome, wait_retry, AccessError, ParkResultKind, RequeueDecision, WaitError,
    WaitOutcome,
};

#[test]
fn notify_one_choices() {
    // Nothing parked: abort. Parked but still locked: requeue, do not
    // wake a waiter that would fail. Parked and unlocked: wake one.
    assert_eq!(notify_one_decision(false, false), RequeueDecision::Abort);
    assert_eq!(notify_one_decision(false, true), RequeueDecision::Abort);
    assert_eq!(notify_one_decision(true, true), RequeueDecision::RequeueOne);
    assert_eq!(notify_one_decision(true, false), RequeueDecision::UnparkOne);
}

#[test]
fn notify_all_choices() {
    assert_eq!(notify_all_decision(false, false), RequeueDecision::Abort);
    assert_eq!(notify_all_decision(true, true), RequeueDecision::RequeueAll);
    assert_eq!(
        notify_all_decision(true, false),
        RequeueDecision::UnparkOneRequeueRest
    );
}

#[test]
fn parked_flag_cleared_only_when_no_waiters() {
    assert!(parked_flag_after_notify(1, false));
    assert!(parked_flag_after_notify(0, true));
    assert!(!parked_flag_after_notify(0, false));
}

#[test]
fn notified_counts() {
    assert!(notified_someone(1, 0));
    assert!(notified_someone(0, 2));
    assert!(!notified_someone(0, 0));
}

#[test]
fn wait_outcomes() {
    assert_eq!(
        wait_outcome(ParkResultKind::Unparked, true, true),
        WaitOutcome::Requeued
    );
    assert_eq!(
        wait_outcome(ParkResultKind::Unparked, false, true),
        WaitOutcome::Success
    );
    assert_eq!(
        wait_outcome(ParkResultKind::Unparked, false, false),
        WaitOutcome::Failure
    );
    assert_eq!(
        wait_outcome(ParkResultKind::TimedOut, false, false),
        WaitOutcome::TimedOut
    );
    assert_eq!(
        wait_outcome(ParkResultKind::Invalid, false, true),
        WaitOutcome::TimedOut
    );
}

#[test]
fn outcome_predicates() {
    assert!(WaitOutcome::TimedOut.timed_out());
    assert!(!WaitOutcome::Success.timed_out());
    assert!(WaitOutcome::Success.acquired_access());
    assert!(!WaitOutcome::Failure.acquired_access());
}

#[test]
fn access_error_retry_policy() {
    assert!(AccessError::AttemptFailed.retryable());
    assert!(AccessError::Requeued.retryable());
    assert!(!AccessError::TimedOut.retryable());
    assert!(AccessError::TimedOut.timed_out());
    assert!(!AccessError::Requeued.timed_out());
    assert_eq!(AccessError::default(), AccessError::AttemptFailed);
}

#[test]
fn wait_error_timed_out() {
    assert!(WaitError::TimedOut.timed_out());
    assert!(!WaitError::Failure.timed_out());
    assert!(!WaitError::Requeued.timed_out());
}

#[test]
fn wait_retry_policy() {
    assert!(!wait_retry(&WaitOutcome::Success, true));
    assert!(!wait_retry(&WaitOutcome::Success, false));
    assert!(wait_retry(&WaitOutcome::Failure, true));
    assert!(wait_retry(&WaitOutcome::Requeued, false));
    assert!(!wait_retry(&WaitOutcome::TimedOut, true));
    assert!(wait_retry(&WaitOutcome::TimedOut, false));
}
