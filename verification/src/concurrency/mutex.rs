//! Exclusive-access lock: a one-permit semaphore next to the value it guards.

use vstd::prelude::*;
use crate::concurrency::semaphore::{
    lemma_permits_are_conserved,
    permit_history,
    permit_step,
    permits_after_acquire,
    permits_after_release,
    PermitEvent,
    Semaphore,
    SemaphoreGuard,
};

verus! {

/// A value guarded by a semaphore that starts with a single permit.
#[derive(Debug)]
pub struct Mutex<T> {
    /// The permit counter. It is exposed so that fault handlers can keep a
    /// list of counters to release by force.
    pub semaphore: Semaphore,
    datum: T,
}

/// Proof that the mutex was acquired. It holds the one permit of the mutex
/// until it is handed to [`Mutex::unlock`].
#[derive(Debug)]
pub struct MutexGuard {
    inner: SemaphoreGuard,
}

impl MutexGuard {
    #[verifier::type_invariant]
    spec fn holds_one_permit(self) -> bool {
        self.inner.held() == 1
    }
}

impl<T> Mutex<T> {
    /// The guarded value.
    pub closed spec fn view(&self) -> T {
        self.datum
    }

    /// Number of permits left in the mutex's semaphore.
    pub closed spec fn available(&self) -> usize {
        self.semaphore.available()
    }

    /// Whether no permit is left, so that every attempt to lock fails.
    pub open spec fn is_locked(&self) -> bool {
        self.available() == 0
    }

    /// Wraps `value` in an unlocked mutex.
    pub fn new(value: T) -> (mutex: Self)
        ensures
            mutex@ == value,
            mutex.available() == 1,
    {
        Self { semaphore: Semaphore::with_permits(1), datum: value }
    }

    /// Acquires the mutex. The caller must know it is free: on a locked mutex
    /// with nobody else able to run, waiting never ends.
    pub fn lock(&mut self) -> (guard: MutexGuard)
        requires
            !old(self).is_locked(),
        ensures
            final(self).available() == old(self).available() - 1,
            final(self)@ == old(self)@,
    {
        let guard = self.semaphore.acquire(1);
        MutexGuard { inner: guard }
    }

    /// Releases one permit whether or not anybody holds the mutex. Fault
    /// paths use it to get past a holder that will never run again; calling
    /// it while a holder is still at work breaks mutual exclusion.
    pub fn force_unlock(&mut self)
        ensures
            final(self).available() == permits_after_release(old(self).available(), 1),
            final(self)@ == old(self)@,
    {
        self.semaphore.release(1);
    }

    /// A single attempt to acquire the mutex. Fails exactly when it is locked,
    /// and then changes nothing.
    pub fn try_lock(&mut self) -> (guard: Option<MutexGuard>)
        ensures
            guard is None <==> old(self).is_locked(),
            final(self).available() == match permits_after_acquire(old(self).available(), 1) {
                Some(rest) => rest,
                None => old(self).available(),
            },
            final(self)@ == old(self)@,
    {
        match self.semaphore.try_acquire(1) {
            Some(inner) => Some(MutexGuard { inner }),
            None => None,
        }
    }

    /// Ends the life of `guard`, handing its permit back.
    pub fn unlock(&mut self, guard: MutexGuard)
        ensures
            final(self).available() == permits_after_release(old(self).available(), 1),
            final(self)@ == old(self)@,
    {
        proof {
            use_type_invariant(&guard);
        }
        guard.inner.release(&mut self.semaphore);
    }

    /// Shared access to the guarded value for the holder of `guard`.
    pub fn get(&self, guard: &MutexGuard) -> (value: &T)
        ensures
            *value == self@,
    {
        &self.datum
    }

    /// Exclusive access to the guarded value for the holder of `guard`.
    pub fn get_mut(&mut self, guard: &MutexGuard) -> (value: &mut T)
        ensures
            *value == old(self)@,
            final(self)@ == *final(value),
            final(self).available() == old(self).available(),
    {
        &mut self.datum
    }
}

impl<T: Default> Default for Mutex<T> {
    /// An unlocked mutex around the default value of `T`.
    fn default() -> (mutex: Self)
        ensures
            mutex.available() == 1,
            call_ensures(T::default, (), mutex@),
    {
        Mutex::new(T::default())
    }
}

/// Whether every event is about a single permit, as the events of a mutex
/// are: an attempt to lock, or a guard given back.
pub open spec fn one_permit_each(events: Seq<PermitEvent>) -> bool {
    forall|i: int|
        0 <= i < events.len() ==> #[trigger] events[i] == PermitEvent::Attempt(1) || events[i]
            == PermitEvent::Return(1)
}

/// Mutual exclusion: however attempts and unlocks interleave, a mutex that is
/// never released by force has at most one live guard, and it is locked
/// exactly while that guard lives.
pub proof fn lemma_at_most_one_guard(events: Seq<PermitEvent>)
    requires
        one_permit_each(events),
    ensures
        permit_history(1, events).granted <= 1,
        permit_history(1, events).available == 0 <==> permit_history(1, events).granted == 1,
{
    lemma_permits_are_conserved(1, events);
}

/// While a guard lives, every further attempt is refused; once the guard is
/// given back, the next attempt succeeds at once.
pub proof fn lemma_attempt_after_unlock_succeeds(events: Seq<PermitEvent>)
    requires
        one_permit_each(events),
        permit_history(1, events).granted == 1,
    ensures
        permit_step(permit_history(1, events), PermitEvent::Attempt(1)) == permit_history(
            1,
            events,
        ),
        permit_step(
            permit_step(permit_history(1, events), PermitEvent::Return(1)),
            PermitEvent::Attempt(1),
        ) == permit_history(1, events),
{
    lemma_permits_are_conserved(1, events);
}

/// A forced release makes a mutex whose holder is gone available again,
/// whatever happened to the holder's guard.
pub proof fn lemma_force_unlock_frees_locked_mutex(available: usize)
    requires
        available == 0,
    ensures
        permits_after_release(available, 1) == 1,
        permits_after_acquire(permits_after_release(available, 1), 1) == Some(0usize),
{
}

} // verus!
