//! The one blocking capability the semaphore relies on: parking a thread on a
//! 32-bit atomic until another holder wakes it.

use vstd::prelude::*;

use std::sync::atomic::AtomicU32;

use atomic_wait::wait;
use atomic_wait::wake_one;

verus! {

/// Relies on atomic_wait::wait: blocks the calling thread only while the
/// atomic still holds `expected` at the moment of the check; returns once
/// woken, possibly spuriously, so callers always re-validate the count
/// afterwards.
#[verifier::external_body]
pub(crate) fn wait_queue_block(count: &AtomicU32, expected: u32) {
    wait(count, expected);
}

/// Relies on atomic_wait::wake_one: wakes at most one thread currently
/// blocked on the atomic; a no-op when none is blocked.
#[verifier::external_body]
pub(crate) fn wait_queue_wake_one(count: &AtomicU32) {
    wake_one(count);
}

} // verus!
