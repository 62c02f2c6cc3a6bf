use count_dir::count_lock::{ConstCountLock, CountState, CountingLock, CountingLockState};
use count_dir::counting::Counter;

#[test]
fn semaphore_limit_two_three_locks() {
    // limit 2: exactly two of three try_lock calls succeed; after one
    // unlock, a further try_lock succeeds again.
    let mut c = Counter::new(2);
    assert!(c.try_lock());
    assert!(c.try_lock());
    assert!(!c.try_lock());
    assert!(c.unlock());
    assert!(c.try_lock());
}

#[test]
fn counter_remaining_capacity() {
    let mut c = Counter::new(3);
    assert_eq!(c.remaining_capacity(), 3);
    assert!(c.increment());
    assert_eq!(c.remaining_capacity(), 2);
    assert!(!c.is_locked());
    assert!(c.increment());
    assert!(c.increment());
    assert!(c.is_locked());
    assert_eq!(c.remaining_capacity(), 0);
}

#[test]
fn counter_decrement_at_zero_fails() {
    let mut c = Counter::new(1);
    assert!(!c.decrement());
    assert!(c.increment());
    assert!(c.decrement());
    assert!(!c.decrement());
}

#[test]
fn count_state_tracks_limit() {
    let mut s = CountState::new(2);
    assert_eq!(s.curr(), 0);
    assert_eq!(s.limit(), 2);
    assert!(s.increment());
    assert!(s.increment());
    assert!(!s.increment());
    assert_eq!(s.curr(), 2);
    assert!(s.decrement());
    assert_eq!(s.curr(), 1);
}

#[test]
fn const_count_lock_fixed_limit() {
    let mut s: ConstCountLock<2> = ConstCountLock::new();
    assert_eq!(s.limit(), 2);
    assert!(s.increment());
    assert!(s.increment());
    assert!(!s.increment());
    assert!(s.decrement());
    assert!(s.increment());
}

#[test]
fn counting_lock_parked_flag() {
    let mut l = CountingLock::new(CountState::new(1));
    assert!(!l.parked());
    l.mark_parked();
    assert!(l.parked());
    l.mark_unparked();
    assert!(!l.parked());
    assert!(!l.is_locked());
    assert!(l.try_lock());
    assert!(l.is_locked());
    assert!(!l.try_lock());
    assert!(l.unlock());
    assert!(!l.is_locked());
    assert!(!l.unlock());
}
