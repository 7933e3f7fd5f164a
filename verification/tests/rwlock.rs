use barefuzz::concurrency::rwlock::RwLock;

#[test]
fn readers_coexist_without_a_writer() {
    let mut lock = RwLock::new(5u32);
    let mut guards = Vec::new();
    for expected in 1..=8usize {
        let guard = lock.try_read().expect("no writer is announced");
        assert_eq!(*lock.get(&guard), 5);
        guards.push(guard);
        assert_eq!(lock.holders(), expected);
    }
    let another = lock.read();
    assert_eq!(lock.holders(), 9);
    lock.release_read(another);
    for guard in guards {
        lock.release_read(guard);
    }
    assert_eq!(lock.holders(), 0);
    assert_eq!(lock.pending_writers(), 0);
}

#[test]
fn announced_writer_keeps_new_readers_out() {
    let mut lock = RwLock::new(String::from("x"));
    let early = lock.read();
    lock.announce_write();
    assert_eq!(lock.pending_writers(), 1);
    assert!(lock.try_read().is_none());
    assert_eq!(lock.holders(), 1);
    assert!(lock.try_claim_write().is_none());
    assert!(lock.try_read().is_none());
    lock.release_read(early);
    assert_eq!(lock.holders(), 0);
    let writer = lock.try_claim_write().expect("the readers are gone");
    assert_eq!(lock.holders(), 1);
    assert!(lock.try_read().is_none());
    lock.get_mut(&writer).push('y');
    lock.release_write(writer);
    assert_eq!(lock.holders(), 0);
    assert_eq!(lock.pending_writers(), 0);
    let reader = lock.try_read().expect("the writer is gone");
    assert_eq!(lock.get(&reader).as_str(), "xy");
    lock.release_read(reader);
}

#[test]
fn write_on_a_free_lock_is_exclusive() {
    let mut lock = RwLock::new(1u8);
    let writer = lock.write();
    assert_eq!(lock.holders(), 1);
    assert_eq!(lock.pending_writers(), 1);
    assert!(lock.try_read().is_none());
    assert!(lock.try_claim_write().is_none());
    *lock.get_mut(&writer) = 9;
    lock.release_write(writer);
    let reader = lock.read();
    assert_eq!(*lock.get(&reader), 9);
    lock.release_read(reader);
}

#[test]
fn only_one_of_several_pending_writers_wins() {
    let mut lock = RwLock::new(0u64);
    lock.announce_write();
    lock.announce_write();
    assert_eq!(lock.pending_writers(), 2);
    let first = lock.try_claim_write().expect("nobody holds the lock");
    assert!(lock.try_claim_write().is_none());
    lock.release_write(first);
    assert_eq!(lock.pending_writers(), 1);
    assert!(lock.try_read().is_none());
    let second = lock.try_claim_write().expect("the first writer is gone");
    lock.release_write(second);
    assert_eq!(lock.pending_writers(), 0);
    assert!(lock.try_read().is_some());
}

#[test]
fn refused_reader_leaves_the_counters_alone() {
    let mut lock = RwLock::new(());
    lock.announce_write();
    for _ in 0..5 {
        assert!(lock.try_read().is_none());
        assert_eq!(lock.holders(), 0);
        assert_eq!(lock.pending_writers(), 1);
    }
}

#[test]
fn default_rwlock_is_free() {
    let mut lock: RwLock<i32> = RwLock::default();
    assert_eq!(lock.holders(), 0);
    assert_eq!(lock.pending_writers(), 0);
    let guard = lock.read();
    assert_eq!(*lock.get(&guard), 0);
    lock.release_read(guard);
}

#[test]
fn guard_of_another_lock_wraps_the_counters() {
    let mut lock = RwLock::new(0u8);
    let mut other = RwLock::new(0u8);
    let foreign_reader = other.read();
    lock.release_read(foreign_reader);
    assert_eq!(lock.holders(), usize::MAX);
    let reader = lock.try_read().expect("no writer is announced");
    assert_eq!(lock.holders(), 0);
    lock.release_read(reader);
    let foreign_writer = other.write();
    lock.release_write(foreign_writer);
    assert_eq!(lock.pending_writers(), usize::MAX);
    assert_eq!(lock.holders(), usize::MAX - 1);
}
