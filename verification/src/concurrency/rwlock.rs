//! Reader-writer lock over two counters: writers that announced themselves,
//! and holders of the lock (any number of readers, or one writer).
//!
//! Readers step in optimistically and step back as soon as they see an
//! announced writer. A writer first announces itself, which keeps every later
//! reader out, and then claims the lock once the holder count has dropped to
//! zero. Each method below is one indivisible step of that protocol.

use vstd::prelude::*;

verus! {

/// `n + 1`, wrapping at the width of the machine word.
pub open spec fn count_up(n: usize) -> usize {
    if n < usize::MAX {
        (n + 1) as usize
    } else {
        0
    }
}

/// `n - 1`, wrapping at the width of the machine word.
pub open spec fn count_down(n: usize) -> usize {
    if n > 0 {
        (n - 1) as usize
    } else {
        usize::MAX
    }
}

/// The two counters of a reader-writer lock.
pub struct RwCounts {
    /// Writers that have announced themselves and not yet released the lock.
    pub pending_writers: usize,
    /// Current holders: the readers, or one for an active writer.
    pub holders: usize,
}

/// One round of a reader's attempt: the counters afterwards, and whether the
/// reader was let in. With a writer announced the reader backs off and the
/// counters end up where they were.
pub open spec fn after_read_attempt(counts: RwCounts) -> (RwCounts, bool) {
    if counts.pending_writers == 0 {
        (RwCounts { holders: count_up(counts.holders), ..counts }, true)
    } else {
        (counts, false)
    }
}

/// A writer announces itself.
pub open spec fn after_announce(counts: RwCounts) -> RwCounts {
    RwCounts { pending_writers: count_up(counts.pending_writers), ..counts }
}

/// One attempt of an announced writer to claim the lock: it wins exactly when
/// nobody holds the lock.
pub open spec fn after_claim_attempt(counts: RwCounts) -> (RwCounts, bool) {
    if counts.holders == 0 {
        (RwCounts { holders: 1, ..counts }, true)
    } else {
        (counts, false)
    }
}

/// A reader leaves.
pub open spec fn after_read_release(counts: RwCounts) -> RwCounts {
    RwCounts { holders: count_down(counts.holders), ..counts }
}

/// The writer leaves, taking back both its claim and its announcement.
pub open spec fn after_write_release(counts: RwCounts) -> RwCounts {
    RwCounts {
        pending_writers: count_down(counts.pending_writers),
        holders: count_down(counts.holders),
    }
}

/// A value that many readers or one writer may access at a time.
#[derive(Debug)]
pub struct RwLock<T> {
    pending_or_locked_writers: usize,
    holder_count: usize,
    datum: T,
}

/// Proof that shared access was granted, until handed to
/// [`RwLock::release_read`].
#[derive(Debug)]
pub struct ReadGuard {
    granted: (),
}

/// Proof that exclusive access was granted, until handed to
/// [`RwLock::release_write`].
#[derive(Debug)]
pub struct WriteGuard {
    granted: (),
}

impl<T> RwLock<T> {
    /// The guarded value.
    pub closed spec fn view(&self) -> T {
        self.datum
    }

    /// The lock's two counters.
    pub closed spec fn counts(&self) -> RwCounts {
        RwCounts { pending_writers: self.pending_or_locked_writers, holders: self.holder_count }
    }

    /// Wraps `value` in a lock that nobody holds or waits for.
    pub fn new(value: T) -> (lock: Self)
        ensures
            lock@ == value,
            lock.counts() == (RwCounts { pending_writers: 0, holders: 0 }),
    {
        Self { pending_or_locked_writers: 0, holder_count: 0, datum: value }
    }

    /// Number of writers that have announced themselves and not yet left.
    pub fn pending_writers(&self) -> (n: usize)
        ensures
            n == self.counts().pending_writers,
    {
        self.pending_or_locked_writers
    }

    /// Number of current holders.
    pub fn holders(&self) -> (n: usize)
        ensures
            n == self.counts().holders,
    {
        self.holder_count
    }

    /// One round of a reader's attempt to get in. The reader is let in exactly
    /// when no writer is announced; otherwise it backs off and nothing changes.
    pub fn try_read(&mut self) -> (guard: Option<ReadGuard>)
        ensures
            final(self).counts() == after_read_attempt(old(self).counts()).0,
            guard is Some <==> after_read_attempt(old(self).counts()).1,
            final(self)@ == old(self)@,
    {
        self.holder_count = self.holder_count.wrapping_add(1);
        if self.pending_or_locked_writers == 0 {
            return Some(ReadGuard { granted: () });
        }
        self.holder_count = self.holder_count.wrapping_sub(1);
        None
    }

    /// Acquires shared access. The caller must know that no writer is
    /// announced: with one announced and nobody else able to run, waiting
    /// never ends.
    pub fn read(&mut self) -> (guard: ReadGuard)
        requires
            old(self).counts().pending_writers == 0,
        ensures
            final(self).counts() == after_read_attempt(old(self).counts()).0,
            final(self)@ == old(self)@,
    {
        self.holder_count = self.holder_count.wrapping_add(1);
        ReadGuard { granted: () }
    }

    /// First half of a write acquisition: announces the writer, so that from
    /// now on every reader backs off.
    pub fn announce_write(&mut self)
        ensures
            final(self).counts() == after_announce(old(self).counts()),
            final(self)@ == old(self)@,
    {
        self.pending_or_locked_writers = self.pending_or_locked_writers.wrapping_add(1);
    }

    /// Second half of a write acquisition: one attempt of an announced writer
    /// to claim the lock. It wins exactly when nobody holds the lock.
    pub fn try_claim_write(&mut self) -> (guard: Option<WriteGuard>)
        ensures
            final(self).counts() == after_claim_attempt(old(self).counts()).0,
            guard is Some <==> after_claim_attempt(old(self).counts()).1,
            final(self)@ == old(self)@,
    {
        if self.holder_count != 0 {
            return None;
        }
        self.holder_count = 1;
        Some(WriteGuard { granted: () })
    }

    /// Acquires exclusive access: announces the writer and claims the lock.
    /// The caller must know that nobody holds the lock: with a holder left
    /// and nobody else able to run, waiting never ends.
    pub fn write(&mut self) -> (guard: WriteGuard)
        requires
            old(self).counts().holders == 0,
        ensures
            final(self).counts() == after_claim_attempt(after_announce(old(self).counts())).0,
            after_claim_attempt(after_announce(old(self).counts())).1,
            final(self)@ == old(self)@,
    {
        self.announce_write();
        self.holder_count = 1;
        WriteGuard { granted: () }
    }

    /// Ends the life of a reader's guard.
    pub fn release_read(&mut self, guard: ReadGuard)
        ensures
            final(self).counts() == after_read_release(old(self).counts()),
            final(self)@ == old(self)@,
    {
        self.holder_count = self.holder_count.wrapping_sub(1);
    }

    /// Ends the life of the writer's guard.
    pub fn release_write(&mut self, guard: WriteGuard)
        ensures
            final(self).counts() == after_write_release(old(self).counts()),
            final(self)@ == old(self)@,
    {
        self.pending_or_locked_writers = self.pending_or_locked_writers.wrapping_sub(1);
        self.holder_count = self.holder_count.wrapping_sub(1);
    }

    /// Shared access to the guarded value for the holder of a reader's guard.
    pub fn get(&self, guard: &ReadGuard) -> (value: &T)
        ensures
            *value == self@,
    {
        &self.datum
    }

    /// Exclusive access to the guarded value for the holder of the writer's
    /// guard.
    pub fn get_mut(&mut self, guard: &WriteGuard) -> (value: &mut T)
        ensures
            *value == old(self)@,
            final(self)@ == *final(value),
            final(self).counts() == old(self).counts(),
    {
        &mut self.datum
    }
}

impl<T: Default> Default for RwLock<T> {
    /// A free lock around the default value of `T`.
    fn default() -> (lock: Self)
        ensures
            lock.counts() == (RwCounts { pending_writers: 0, holders: 0 }),
            call_ensures(T::default, (), lock@),
    {
        RwLock::new(T::default())
    }
}

/// Something that happens to a reader-writer lock.
pub enum RwEvent {
    /// A reader makes one attempt to get in.
    ReadAttempt,
    /// A reader gives its guard back.
    ReadRelease,
    /// A writer announces itself.
    WriteAnnounce,
    /// An announced writer makes one attempt to claim the lock.
    WriteClaim,
    /// The writer gives its guard back.
    WriteRelease,
}

/// The counters of a lock together with the guards and announcements that are
/// outstanding.
pub struct RwHistory {
    pub counts: RwCounts,
    /// Readers' guards handed out and not yet given back.
    pub readers: nat,
    /// Writers that announced themselves and have not claimed the lock yet.
    pub waiting_writers: nat,
    /// Whether the writer's guard is handed out.
    pub writer: bool,
}

/// A lock that nobody holds or waits for.
pub open spec fn rw_fresh() -> RwHistory {
    RwHistory {
        counts: RwCounts { pending_writers: 0, holders: 0 },
        readers: 0,
        waiting_writers: 0,
        writer: false,
    }
}

/// The effect of one event. A release needs its guard and a claim needs an
/// announcement, so without them the event cannot happen and changes nothing.
pub open spec fn rw_step(before: RwHistory, event: RwEvent) -> RwHistory {
    match event {
        RwEvent::ReadAttempt => {
            let (counts, granted) = after_read_attempt(before.counts);
            if granted {
                RwHistory { counts, readers: before.readers + 1, ..before }
            } else {
                before
            }
        },
        RwEvent::ReadRelease => if before.readers > 0 {
            RwHistory {
                counts: after_read_release(before.counts),
                readers: (before.readers - 1) as nat,
                ..before
            }
        } else {
            before
        },
        RwEvent::WriteAnnounce => RwHistory {
            counts: after_announce(before.counts),
            waiting_writers: before.waiting_writers + 1,
            ..before
        },
        RwEvent::WriteClaim => {
            let (counts, granted) = after_claim_attempt(before.counts);
            if before.waiting_writers > 0 && granted {
                RwHistory {
                    counts,
                    waiting_writers: (before.waiting_writers - 1) as nat,
                    writer: true,
                    ..before
                }
            } else {
                before
            }
        },
        RwEvent::WriteRelease => if before.writer {
            RwHistory { counts: after_write_release(before.counts), writer: false, ..before }
        } else {
            before
        },
    }
}

/// Where a lock that starts at `start` stands after `events`.
pub open spec fn rw_run(start: RwHistory, events: Seq<RwEvent>) -> RwHistory
    decreases events.len(),
{
    if events.len() == 0 {
        start
    } else {
        rw_step(rw_run(start, events.drop_last()), events.last())
    }
}

/// The counters say exactly who is outstanding, and a writer holds the lock
/// alone.
pub open spec fn rw_consistent(history: RwHistory) -> bool {
    &&& history.counts.holders == history.readers + (if history.writer {
        1nat
    } else {
        0nat
    })
    &&& history.counts.pending_writers == history.waiting_writers + (if history.writer {
        1nat
    } else {
        0nat
    })
    &&& history.writer ==> history.readers == 0
}

/// Number of guards and announcements outstanding.
pub open spec fn rw_outstanding(history: RwHistory) -> nat {
    history.readers + history.waiting_writers + (if history.writer {
        1nat
    } else {
        0nat
    })
}

/// One event keeps the counters in line with who is outstanding, as long as
/// the counters have room for one more.
pub proof fn lemma_rw_step_consistent(before: RwHistory, event: RwEvent)
    requires
        rw_consistent(before),
        rw_outstanding(before) < usize::MAX,
    ensures
        rw_consistent(rw_step(before, event)),
        rw_outstanding(rw_step(before, event)) <= rw_outstanding(before) + 1,
{
}

/// Exclusion: however readers and writers interleave on a fresh lock, the
/// counters always say who is outstanding, and while the writer holds its
/// guard no reader holds one.
pub proof fn lemma_writer_excludes_readers(events: Seq<RwEvent>)
    requires
        events.len() < usize::MAX,
    ensures
        rw_consistent(rw_run(rw_fresh(), events)),
        rw_outstanding(rw_run(rw_fresh(), events)) <= events.len(),
        rw_run(rw_fresh(), events).writer ==> rw_run(rw_fresh(), events).readers == 0,
    decreases events.len(),
{
    if events.len() > 0 {
        lemma_writer_excludes_readers(events.drop_last());
        lemma_rw_step_consistent(rw_run(rw_fresh(), events.drop_last()), events.last());
    }
}

/// With no writer announced, readers are let in one after the other and hold
/// the lock together.
pub proof fn lemma_readers_coexist(start: RwHistory, n: nat)
    requires
        rw_consistent(start),
        start.counts.pending_writers == 0,
        start.readers + n <= usize::MAX,
    ensures
        rw_run(start, Seq::new(n, |i: int| RwEvent::ReadAttempt)).readers == start.readers + n,
        rw_run(start, Seq::new(n, |i: int| RwEvent::ReadAttempt)).counts.holders == start.readers
            + n,
        rw_run(start, Seq::new(n, |i: int| RwEvent::ReadAttempt)).counts.pending_writers == 0,
        rw_consistent(rw_run(start, Seq::new(n, |i: int| RwEvent::ReadAttempt))),
    decreases n,
{
    let attempts = Seq::new(n, |i: int| RwEvent::ReadAttempt);
    if n > 0 {
        let fewer = Seq::new((n - 1) as nat, |i: int| RwEvent::ReadAttempt);
        assert(attempts.drop_last() =~= fewer);
        lemma_readers_coexist(start, (n - 1) as nat);
    }
}

/// Whether `events` holds nothing but moves of readers and claim attempts.
pub open spec fn no_writer_leaves_or_arrives(events: Seq<RwEvent>) -> bool {
    forall|i: int|
        0 <= i < events.len() ==> (#[trigger] events[i]) is ReadAttempt || events[i] is ReadRelease
            || events[i] is WriteClaim
}

/// Once a writer is announced, no reader is let in until a writer's guard has
/// been given back: the number of readers can only go down.
pub proof fn lemma_announced_writer_keeps_readers_out(start: RwHistory, events: Seq<RwEvent>)
    requires
        rw_consistent(start),
        rw_outstanding(start) < usize::MAX,
        start.counts.pending_writers > 0,
        no_writer_leaves_or_arrives(events),
    ensures
        rw_step(start, RwEvent::ReadAttempt) == start,
        rw_run(start, events).readers <= start.readers,
        rw_run(start, events).counts.pending_writers == start.counts.pending_writers,
        rw_consistent(rw_run(start, events)),
        rw_outstanding(rw_run(start, events)) <= rw_outstanding(start),
    decreases events.len(),
{
    if events.len() > 0 {
        let earlier = events.drop_last();
        assert(no_writer_leaves_or_arrives(earlier)) by {
            assert forall|i: int| 0 <= i < earlier.len() implies (#[trigger] earlier[i])
                is ReadAttempt || earlier[i] is ReadRelease || earlier[i] is WriteClaim by {
                assert(earlier[i] == events[i]);
            }
        }
        lemma_announced_writer_keeps_readers_out(start, earlier);
        assert(events.last() == events[events.len() - 1]);
    }
}

/// An announced writer gets the lock as soon as the readers that were ahead
/// of it have all left.
pub proof fn lemma_writer_claims_after_readers_leave(start: RwHistory)
    requires
        rw_consistent(start),
        start.waiting_writers > 0,
        !start.writer,
    ensures
        rw_run(start, Seq::new(start.readers, |i: int| RwEvent::ReadRelease)).counts.holders == 0,
        rw_step(
            rw_run(start, Seq::new(start.readers, |i: int| RwEvent::ReadRelease)),
            RwEvent::WriteClaim,
        ).writer,
    decreases start.readers,
{
    lemma_readers_leave(start, start.readers);
}

/// Each reader that leaves lowers the holder count by one.
proof fn lemma_readers_leave(start: RwHistory, n: nat)
    requires
        rw_consistent(start),
        !start.writer,
        n <= start.readers,
    ensures
        rw_run(start, Seq::new(n, |i: int| RwEvent::ReadRelease)).readers == start.readers - n,
        rw_run(start, Seq::new(n, |i: int| RwEvent::ReadRelease)).counts.holders == start.readers
            - n,
        rw_run(start, Seq::new(n, |i: int| RwEvent::ReadRelease)).waiting_writers
            == start.waiting_writers,
        !rw_run(start, Seq::new(n, |i: int| RwEvent::ReadRelease)).writer,
    decreases n,
{
    let releases = Seq::new(n, |i: int| RwEvent::ReadRelease);
    if n > 0 {
        let fewer = Seq::new((n - 1) as nat, |i: int| RwEvent::ReadRelease);
        assert(releases.drop_last() =~= fewer);
        lemma_readers_leave(start, (n - 1) as nat);
    }
}

} // verus!
