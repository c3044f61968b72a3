//! The mutual-exclusion lock: a counting semaphore fixed to capacity one
//! over a store cell. While the single unit is held the value itself lives
//! inside the guard, which is what makes exclusive mutation sound; `unlock`
//! puts it back for the next holder.

use vstd::prelude::*;

use core::cell::Cell;

use crate::sem::SemGuard;
use crate::sem::SemVar;

verus! {

/// core::cell::Cell, declared so the store cell can stand in fields; its
/// contents stay opaque to the verifier and move only through the wrappers
/// below.
#[verifier::external_type_specification]
#[verifier::external_body]
#[verifier::reject_recursive_types(T)]
pub struct ExCell<T: ?Sized>(Cell<T>);

/// Relies on core::cell::Cell::new: builds the store cell holding the value.
#[verifier::external_body]
fn cell_new<T>(value: T) -> Cell<Option<T>> {
    Cell::new(Some(value))
}

/// Relies on core::cell::Cell::take: moves the contents out, leaving `None`.
#[verifier::external_body]
fn cell_take<T>(cell: &Cell<Option<T>>) -> Option<T> {
    cell.take()
}

/// Relies on core::cell::Cell::set: stores the value in the cell.
#[verifier::external_body]
fn cell_put<T>(cell: &Cell<Option<T>>, value: T) {
    cell.set(Some(value));
}

/// A mutual-exclusion lock: a counting semaphore of capacity one over a
/// store cell that the sole holder takes the value from and puts it back
/// into.
#[verifier::reject_recursive_types(T)]
pub struct Mutex<T> {
    inner: SemVar<Cell<Option<T>>>,
}

/// Exclusive access to a locked value from a successful `lock` until
/// `unlock`. The value moves into the guard for as long as it is held, so
/// reading and writing it need no sharing at all.
#[verifier::reject_recursive_types(T)]
pub struct MutexGuard<'a, T> {
    /// The single unit of the lock's capacity.
    slot: SemGuard<'a, Cell<Option<T>>>,
    /// The locked value, owned by the holder until `unlock` returns it.
    value: T,
}

impl<T> Mutex<T> {
    /// Every lock wraps a semaphore that admits a single holder: "at most
    /// one live guard" is what makes handing out mutable access sound.
    #[verifier::type_invariant]
    spec fn capacity_is_one(self) -> bool {
        self.inner.capacity() == 1
    }

    /// How many holders the lock admits at once: always one.
    pub closed spec fn capacity(self) -> u32 {
        self.inner.capacity()
    }

    /// Create a lock over `value`, unlocked.
    pub fn new(value: T) -> (mutex: Self)
        ensures
            mutex.capacity() == 1,
    {
        Mutex { inner: SemVar::new(1, cell_new(value)) }
    }

    /// Take the lock, parking while another holder has it; the locked value
    /// moves into the returned guard. `None` is reported only if the acquire
    /// attempt budget runs out, which no realistic execution reaches.
    pub fn lock(&self) -> (guard: Option<MutexGuard<'_, T>>)
        ensures
            guard matches Some(g) ==> g.wf() && g.belongs_to(*self),
    {
        proof {
            use_type_invariant(self);
        }
        match self.inner.access() {
            None => None,
            Some(slot) => {
                match cell_take(slot.read()) {
                    Some(value) => Some(MutexGuard { slot, value }),
                    None => {
                        // Every holder puts the value back before giving its
                        // unit up, so the sole holder finds the cell full;
                        // this arm only makes the function total.
                        slot.release();
                        None
                    },
                }
            },
        }
    }
}

impl<'a, T> MutexGuard<'a, T> {
    /// The locked value as the holder last left it.
    pub closed spec fn value(self) -> T {
        self.value
    }

    /// The guard holds the single unit of a capacity-one semaphore: its
    /// claim raised the count to exactly one.
    pub closed spec fn wf(self) -> bool {
        self.slot.wf() && self.slot.sem().capacity() == 1
    }

    /// The guard holds the single unit of exactly this lock.
    pub closed spec fn belongs_to(self, mutex: Mutex<T>) -> bool {
        self.slot.sem() == mutex.inner
    }

    /// Read the locked value.
    pub fn read(&self) -> (value: &T)
        ensures
            *value == self.value(),
    {
        &self.value
    }

    /// Replace the locked value: the next `read` — and, after `unlock`, the
    /// next holder — sees exactly what was written.
    pub fn write(&mut self, value: T)
        ensures
            final(self).value() == value,
            final(self).wf() == old(self).wf(),
    {
        self.value = value;
    }

    /// Put the value back for the next holder and give the unit back, waking
    /// one parked waiter. Consuming the guard makes unlock exactly-once: an
    /// unlocked guard can neither be read nor unlocked again.
    pub fn unlock(self) {
        let MutexGuard { slot, value } = self;
        cell_put(slot.read(), value);
        slot.release();
    }
}

/// The value of a counter after a number of increments, each performed while
/// holding the lock and therefore applied to the previous holder's result.
pub open spec fn after_increments(start: int, increments: nat) -> int
    decreases increments,
{
    if increments == 0 {
        start
    } else {
        after_increments(start, (increments - 1) as nat) + 1
    }
}

/// Serialized increments all land: a counter incremented `increments` times,
/// each time under the lock, ends exactly `increments` above where it began.
pub proof fn lemma_increments_add_up(start: int, increments: nat)
    ensures
        after_increments(start, increments) == start + increments,
    decreases increments,
{
    if increments > 0 {
        lemma_increments_add_up(start, (increments - 1) as nat);
    }
}

/// No lost updates: `threads` holders, each taking the lock for `per_thread`
/// increments of a counter starting at zero, perform `threads * per_thread`
/// increments in some serial order — exclusivity forbids any overlap — and
/// every one of them lands: the final value is exactly `threads * per_thread`.
pub proof fn lemma_no_lost_updates(threads: nat, per_thread: nat)
    ensures
        after_increments(0, threads * per_thread) == threads * per_thread,
{
    lemma_increments_add_up(0, threads * per_thread);
}

} // verus!
