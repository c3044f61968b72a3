//! The counting semaphore: a fixed capacity, an atomic count of live guards,
//! and the guarded value. Acquisition runs a compare-and-exchange loop and
//! parks on the wait queue while the capacity is exhausted; a guard releases
//! its unit exactly once, by being consumed.

use vstd::prelude::*;

use std::sync::atomic::AtomicU32;
use std::sync::atomic::Ordering;

use crate::protocol::can_claim;
use crate::protocol::must_wait;
use crate::wait_queue::wait_queue_block;
use crate::wait_queue::wait_queue_wake_one;

verus! {

/// How many inspections of the count one `access` call may spend before it
/// gives up: every loop in this crate terminates, so the retry loop carries a
/// budget large enough never to run out in practice.
pub const ATTEMPT_BUDGET: u64 = 0xffff_ffff_ffff_ffff;

/// What one inspection of the shared count tells an acquirer to do next.
#[derive(Clone, Copy, PartialEq, Eq, Structural, Debug)]
pub enum AcquireStep {
    /// The count is below capacity: try to raise it to the carried value.
    Claim(u32),
    /// The count equals the capacity: park until a holder releases.
    Park,
    /// The count was observed above the capacity, which no allowed history
    /// produces: read it again.
    Reload,
}

/// The decision at the heart of the acquire loop, as a function of the
/// observed count and the capacity alone.
pub fn acquire_step(observed: u32, capacity: u32) -> (step: AcquireStep)
    ensures
        can_claim(observed as int, capacity as int) ==> step == AcquireStep::Claim((observed + 1) as u32),
        must_wait(observed as int, capacity as int) ==> step == AcquireStep::Park,
        observed > capacity ==> step == AcquireStep::Reload,
{
    if observed < capacity {
        AcquireStep::Claim(observed + 1)
    } else if observed == capacity {
        AcquireStep::Park
    } else {
        AcquireStep::Reload
    }
}

/// A semaphore-guarded value: at most `capacity` guards are live at once.
pub struct SemVar<T> {
    /// The greatest number of simultaneous accesses allowed.
    capacity: u32,
    /// The number of live guards: raised by compare-and-exchange on
    /// acquisition, lowered on release.
    count: AtomicU32,
    /// The value being guarded.
    value: T,
}

/// Access to the guarded value, holding one unit of the capacity from a
/// successful claim until released.
pub struct SemGuard<'a, T> {
    /// The semaphore the unit was claimed from.
    sem: &'a SemVar<T>,
    /// The count that the successful claim raised the semaphore to.
    claim: Ghost<u32>,
}

impl<T> SemVar<T> {
    /// The capacity the semaphore was constructed with.
    pub closed spec fn capacity(self) -> u32 {
        self.capacity
    }

    /// The guarded value.
    pub closed spec fn guarded(self) -> T {
        self.value
    }

    /// Create a semaphore over `value` with the access limit `capacity`,
    /// with no guard live yet. A capacity of zero is accepted and makes the
    /// semaphore permanently blocking: no unit can ever be claimed, so every
    /// `access` parks forever.
    pub fn new(capacity: u32, value: T) -> (sem: Self)
        ensures
            sem.capacity() == capacity,
            sem.guarded() == value,
    {
        SemVar { capacity, count: AtomicU32::new(0), value }
    }

    /// Gain access to the guarded value, parking while the capacity is
    /// exhausted. A returned guard stands for exactly one successful claim of
    /// a free unit. Each inspection of the count spends one unit of an
    /// attempt budget of `2^64 - 1`; only its exhaustion yields `None`, which
    /// no realistic execution reaches — parking, not spinning, is what fills
    /// the time under contention.
    pub fn access(&self) -> (guard: Option<SemGuard<'_, T>>)
        ensures
            guard matches Some(g) ==> g.wf() && g.sem() == *self,
    {
        let mut observed: u32 = self.count.load(Ordering::Relaxed);
        let mut attempts: u64 = ATTEMPT_BUDGET;

        while attempts > 0
            decreases attempts,
        {
            attempts = attempts - 1;
            match acquire_step(observed, self.capacity) {
                AcquireStep::Claim(next) => {
                    match self.count.compare_exchange(
                        observed,
                        next,
                        Ordering::Acquire,
                        Ordering::Relaxed,
                    ) {
                        Ok(_) => {
                            return Some(SemGuard { sem: self, claim: Ghost(next) });
                        },
                        Err(current) => {
                            observed = current;
                        },
                    }
                },
                AcquireStep::Park => {
                    wait_queue_block(&self.count, observed);
                    observed = self.count.load(Ordering::Relaxed);
                },
                AcquireStep::Reload => {
                    observed = self.count.load(Ordering::Relaxed);
                },
            }
        }
        None
    }
}

impl<'a, T> SemGuard<'a, T> {
    /// The semaphore this guard holds a unit of.
    pub closed spec fn sem(self) -> SemVar<T> {
        *self.sem
    }

    /// The count that this guard's claim raised the semaphore to.
    pub closed spec fn claim(self) -> u32 {
        self.claim@
    }

    /// A live guard stands for one of the capacity's units: its claim raised
    /// the count to somewhere in `1 ..= capacity`.
    pub open spec fn wf(self) -> bool {
        1 <= self.claim() <= self.sem().capacity()
    }

    /// Read the guarded value, shared with every other live guard.
    pub fn read(&self) -> (value: &T)
        ensures
            *value == self.sem().guarded(),
    {
        &self.sem.value
    }

    /// Give the unit back: lower the count and wake one parked waiter, which
    /// re-checks the count itself. Consuming the guard makes release
    /// exactly-once: a released guard can neither be read nor released again.
    pub fn release(self) {
        let _before: u32 = self.sem.count.fetch_sub(1, Ordering::Release);
        wait_queue_wake_one(&self.sem.count);
    }
}

} // verus!
