//! Counting permit primitive on which every other lock is built.
//!
//! A semaphore is a single permit counter. On a single core every operation
//! below is one indivisible step of the permit protocol: the caller owns the
//! counter for the duration of the step, and contention shows up as a step
//! that finds too few permits. A blocked caller is a caller that repeats
//! [`Semaphore::try_acquire`] until it succeeds.

use vstd::prelude::*;
use crate::arch::interrupts_enabled;

verus! {

/// The permit count left after taking `desired` permits out of `available`,
/// or `None` when there are not enough.
pub open spec fn permits_after_acquire(available: usize, desired: usize) -> Option<usize> {
    if desired <= available {
        Some((available - desired) as usize)
    } else {
        None
    }
}

/// The permit count after handing `count` permits back. Nothing caps the
/// count: it only wraps at the width of the machine word.
pub open spec fn permits_after_release(available: usize, count: usize) -> usize {
    if available + count <= usize::MAX {
        (available + count) as usize
    } else {
        (available + count - usize::MAX - 1) as usize
    }
}

/// What one round of an unguarded acquisition leads to.
#[derive(Debug, Clone, Copy, PartialEq, Eq, Structural)]
pub enum AcquireOutcome {
    /// The permits were taken; the payload is the count that remains.
    Acquired(usize),
    /// No permit is left and interrupts are off, so nobody can ever release one.
    Deadlock,
    /// Too few permits for now; the caller may try again later.
    Busy,
}

/// The outcome of one unguarded acquisition round on a counter holding
/// `available` permits.
pub open spec fn unguarded_round(
    available: usize,
    desired: usize,
    interrupts_enabled: bool,
) -> AcquireOutcome {
    if desired <= available {
        AcquireOutcome::Acquired((available - desired) as usize)
    } else if available == 0 && !interrupts_enabled {
        AcquireOutcome::Deadlock
    } else {
        AcquireOutcome::Busy
    }
}

/// A counter of available permits.
#[derive(Debug)]
pub struct Semaphore {
    permits: usize,
}

/// Proof of a successful acquisition: records how many permits are owed back.
#[derive(Debug)]
pub struct SemaphoreGuard {
    permits: usize,
}

impl SemaphoreGuard {
    /// Number of permits this guard holds.
    pub closed spec fn held(&self) -> usize {
        self.permits
    }

    /// Number of permits this guard holds.
    pub fn permits(&self) -> (n: usize)
        ensures
            n == self.held(),
    {
        self.permits
    }

    /// Ends the guard's life, handing its permits back to `semaphore`.
    pub fn release(self, semaphore: &mut Semaphore)
        ensures
            final(semaphore).available() == permits_after_release(
                old(semaphore).available(),
                self.held(),
            ),
    {
        semaphore.release(self.permits);
    }
}

impl Semaphore {
    /// Number of permits currently available.
    pub closed spec fn available(&self) -> usize {
        self.permits
    }

    /// Creates a semaphore holding `count` permits.
    pub fn with_permits(count: usize) -> (semaphore: Self)
        ensures
            semaphore.available() == count,
    {
        Semaphore { permits: count }
    }

    /// Number of permits currently available.
    pub fn available_permits(&self) -> (n: usize)
        ensures
            n == self.available(),
    {
        self.permits
    }

    /// Takes `desired_permits` permits. The caller must know they are there:
    /// with fewer available and nobody else able to run, waiting never ends.
    pub fn acquire(&mut self, desired_permits: usize) -> (guard: SemaphoreGuard)
        requires
            desired_permits <= old(self).available(),
        ensures
            final(self).available() == old(self).available() - desired_permits,
            guard.held() == desired_permits,
    {
        self.permits = self.permits - desired_permits;
        SemaphoreGuard { permits: desired_permits }
    }

    /// A single attempt to take `desired_permits` permits. Succeeds exactly
    /// when that many are available, and otherwise changes nothing.
    pub fn try_acquire(&mut self, desired_permits: usize) -> (guard: Option<SemaphoreGuard>)
        ensures
            match permits_after_acquire(old(self).available(), desired_permits) {
                Some(rest) => {
                    &&& guard is Some
                    &&& guard->0.held() == desired_permits
                    &&& final(self).available() == rest
                },
                None => guard is None && final(self).available() == old(self).available(),
            },
    {
        let available_permits = self.permits;
        if available_permits >= desired_permits {
            self.permits = available_permits - desired_permits;
            Some(SemaphoreGuard { permits: desired_permits })
        } else {
            None
        }
    }

    /// Takes `desired_permits` permits without creating a guard and returns
    /// the count that remains. The caller hands the permits back by calling
    /// [`Semaphore::release`] itself.
    pub fn acquire_unguarded(&mut self, desired_permits: usize) -> (remaining: usize)
        requires
            desired_permits <= old(self).available(),
        ensures
            remaining == old(self).available() - desired_permits,
            final(self).available() == remaining,
    {
        self.permits = self.permits - desired_permits;
        self.permits
    }

    /// One round of an unguarded acquisition, for a caller that knows whether
    /// interrupts are enabled. The permits are taken when they are available.
    /// Otherwise the counter is left alone and the round reports whether
    /// waiting can still succeed.
    pub fn acquire_unguarded_round(
        &mut self,
        desired_permits: usize,
        interrupts_enabled: bool,
    ) -> (outcome: AcquireOutcome)
        ensures
            outcome == unguarded_round(old(self).available(), desired_permits, interrupts_enabled),
            final(self).available() == match outcome {
                AcquireOutcome::Acquired(remaining) => remaining,
                _ => old(self).available(),
            },
    {
        let available_permits = self.permits;
        if available_permits >= desired_permits {
            self.permits = available_permits - desired_permits;
            AcquireOutcome::Acquired(self.permits)
        } else if available_permits == 0 && !interrupts_enabled {
            AcquireOutcome::Deadlock
        } else {
            AcquireOutcome::Busy
        }
    }

    /// One round of an unguarded acquisition that asks the processor whether
    /// interrupts are enabled. Whatever the processor answers, the permits are
    /// taken exactly when they are available, and a deadlock is only ever
    /// reported on an empty counter.
    pub fn poll_unguarded(&mut self, desired_permits: usize) -> (outcome: AcquireOutcome)
        ensures
            outcome == unguarded_round(old(self).available(), desired_permits, true) || outcome
                == unguarded_round(old(self).available(), desired_permits, false),
            final(self).available() == match outcome {
                AcquireOutcome::Acquired(remaining) => remaining,
                _ => old(self).available(),
            },
    {
        let enabled = interrupts_enabled();
        self.acquire_unguarded_round(desired_permits, enabled)
    }

    /// Adds `count` permits. No check is made that they were ever taken, and
    /// no ceiling is enforced.
    pub fn release(&mut self, count: usize)
        ensures
            final(self).available() == permits_after_release(old(self).available(), count),
    {
        self.permits = self.permits.wrapping_add(count);
    }

    /// Makes sure at least one permit is available: a counter that has run
    /// dry gets one permit back, any other counter is left as it is.
    pub fn force_release(&mut self)
        ensures
            final(self).available() == if old(self).available() == 0 {
                1
            } else {
                old(self).available()
            },
    {
        match self.try_acquire(1) {
            Some(guard) => guard.release(self),
            None => self.release(1),
        }
    }
}

/// Something that happens to a semaphore.
pub enum PermitEvent {
    /// Somebody makes one attempt to take this many permits.
    Attempt(usize),
    /// A guard that holds this many permits is given back.
    Return(usize),
}

/// The count of a semaphore together with the permits that guards hold.
pub struct PermitHistory {
    pub available: usize,
    /// Permits granted to guards and not yet given back.
    pub granted: nat,
}

/// The effect of one event. Giving back a guard needs the guard, so permits
/// that were never granted cannot come back that way.
pub open spec fn permit_step(before: PermitHistory, event: PermitEvent) -> PermitHistory {
    match event {
        PermitEvent::Attempt(desired) => match permits_after_acquire(before.available, desired) {
            Some(rest) => PermitHistory {
                available: rest,
                granted: before.granted + desired as nat,
            },
            None => before,
        },
        PermitEvent::Return(held) => if held <= before.granted {
            PermitHistory {
                available: permits_after_release(before.available, held),
                granted: (before.granted - held) as nat,
            }
        } else {
            before
        },
    }
}

/// Where a semaphore created with `capacity` permits stands after `events`.
pub open spec fn permit_history(capacity: usize, events: Seq<PermitEvent>) -> PermitHistory
    decreases events.len(),
{
    if events.len() == 0 {
        PermitHistory { available: capacity, granted: 0 }
    } else {
        permit_step(permit_history(capacity, events.drop_last()), events.last())
    }
}

/// Permits are conserved: as long as permits only come back through the
/// guards they were granted to, the permits that are available and the
/// permits that guards hold always add up to the count the semaphore was
/// created with. In particular no more are ever granted than there were.
pub proof fn lemma_permits_are_conserved(capacity: usize, events: Seq<PermitEvent>)
    ensures
        permit_history(capacity, events).available + permit_history(capacity, events).granted
            == capacity,
        permit_history(capacity, events).granted <= capacity,
    decreases events.len(),
{
    if events.len() > 0 {
        lemma_permits_are_conserved(capacity, events.drop_last());
    }
}

/// Handing back exactly the permits that were taken restores the count.
pub proof fn lemma_release_restores_acquired(available: usize, permits: usize)
    requires
        permits <= available,
    ensures
        permits_after_acquire(available, permits) is Some,
        permits_after_release(permits_after_acquire(available, permits)->0, permits) == available,
{
}

/// Releasing is never refused and never capped: as long as the machine word
/// can hold it, the count simply grows, even past the count the semaphore
/// was created with.
pub proof fn lemma_release_is_unbounded(capacity: usize, count: usize)
    requires
        capacity + count <= usize::MAX,
    ensures
        permits_after_release(capacity, count) == capacity + count,
        count > 0 ==> permits_after_release(capacity, count) > capacity,
{
}

/// A refused attempt leaves every permit where it was, and an attempt is
/// refused exactly when it asks for more than is available.
pub proof fn lemma_acquire_refused_iff_short(available: usize, desired: usize)
    ensures
        permits_after_acquire(available, desired) is None <==> available < desired,
        permits_after_acquire(available, desired) is Some ==> permits_after_acquire(
            available,
            desired,
        )->0 + desired == available,
{
}

} // verus!
