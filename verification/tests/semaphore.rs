use barefuzz::concurrency::semaphore::{AcquireOutcome, Semaphore};

#[test]
fn acquire_then_release_restores_count() {
    let mut semaphore = Semaphore::with_permits(5);
    let guard = semaphore.acquire(3);
    assert_eq!(semaphore.available_permits(), 2);
    assert_eq!(guard.permits(), 3);
    guard.release(&mut semaphore);
    assert_eq!(semaphore.available_permits(), 5);
}

#[test]
fn acquire_release_restores_for_every_count_up_to_capacity() {
    for capacity in 0..6usize {
        for permits in 0..=capacity {
            let mut semaphore = Semaphore::with_permits(capacity);
            let guard = semaphore.try_acquire(permits).expect("enough permits");
            assert_eq!(semaphore.available_permits(), capacity - permits);
            semaphore.release(guard.permits());
            assert_eq!(semaphore.available_permits(), capacity);
        }
    }
}

#[test]
fn try_acquire_fails_without_enough_permits() {
    let mut semaphore = Semaphore::with_permits(2);
    assert!(semaphore.try_acquire(3).is_none());
    assert_eq!(semaphore.available_permits(), 2);
    let first = semaphore.try_acquire(2);
    assert!(first.is_some());
    assert_eq!(semaphore.available_permits(), 0);
    assert!(semaphore.try_acquire(1).is_none());
    assert_eq!(semaphore.available_permits(), 0);
}

#[test]
fn try_acquire_of_nothing_always_succeeds() {
    let mut semaphore = Semaphore::with_permits(0);
    let guard = semaphore.try_acquire(0).expect("zero permits are always there");
    assert_eq!(guard.permits(), 0);
    assert_eq!(semaphore.available_permits(), 0);
}

#[test]
fn release_has_no_upper_bound() {
    let mut semaphore = Semaphore::with_permits(1);
    semaphore.release(3);
    assert_eq!(semaphore.available_permits(), 4);
    semaphore.release(1);
    assert_eq!(semaphore.available_permits(), 5);
}

#[test]
fn release_wraps_at_the_word_size() {
    let mut semaphore = Semaphore::with_permits(usize::MAX);
    semaphore.release(2);
    assert_eq!(semaphore.available_permits(), 1);
}

#[test]
fn acquire_unguarded_returns_the_remaining_count() {
    let mut semaphore = Semaphore::with_permits(4);
    assert_eq!(semaphore.acquire_unguarded(1), 3);
    assert_eq!(semaphore.acquire_unguarded(3), 0);
    assert_eq!(semaphore.available_permits(), 0);
    semaphore.release(4);
    assert_eq!(semaphore.available_permits(), 4);
}

#[test]
fn unguarded_round_reports_deadlock_only_when_dry() {
    let mut semaphore = Semaphore::with_permits(0);
    assert_eq!(semaphore.acquire_unguarded_round(1, false), AcquireOutcome::Deadlock);
    assert_eq!(semaphore.acquire_unguarded_round(1, true), AcquireOutcome::Busy);
    semaphore.release(2);
    assert_eq!(semaphore.acquire_unguarded_round(3, false), AcquireOutcome::Busy);
    assert_eq!(semaphore.available_permits(), 2);
    assert_eq!(semaphore.acquire_unguarded_round(1, false), AcquireOutcome::Acquired(1));
    assert_eq!(semaphore.available_permits(), 1);
}

#[test]
fn poll_unguarded_takes_permits_when_they_are_there() {
    let mut semaphore = Semaphore::with_permits(2);
    assert_eq!(semaphore.poll_unguarded(2), AcquireOutcome::Acquired(0));
    assert_eq!(semaphore.available_permits(), 0);
}

#[test]
fn poll_unguarded_leaves_a_dry_counter_alone() {
    let mut semaphore = Semaphore::with_permits(0);
    let outcome = semaphore.poll_unguarded(1);
    assert!(outcome == AcquireOutcome::Busy || outcome == AcquireOutcome::Deadlock);
    assert_eq!(semaphore.available_permits(), 0);
    let enabled = x86_64::instructions::interrupts::are_enabled();
    assert_eq!(outcome == AcquireOutcome::Busy, enabled);
}

#[test]
fn force_release_frees_a_dry_counter_only() {
    let mut dry = Semaphore::with_permits(0);
    dry.force_release();
    assert_eq!(dry.available_permits(), 1);
    let mut free = Semaphore::with_permits(1);
    free.force_release();
    assert_eq!(free.available_permits(), 1);
    let mut plenty = Semaphore::with_permits(7);
    plenty.force_release();
    assert_eq!(plenty.available_permits(), 7);
}
