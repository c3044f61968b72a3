//! A blocking counting semaphore over an atomic holder count and a
//! futex-style wait queue, and a mutual-exclusion lock built on it by fixing
//! the capacity to one.
//!
//! The claim/release protocol and the guard lifecycle are verified: a guard
//! comes only from a successful compare-and-exchange made strictly below the
//! capacity, and releasing is exactly-once because a guard is consumed by it.
//! `protocol` states the protocol's laws — the count stays within
//! `0 ..= capacity`, a release unblocks a full semaphore, a lone holder never
//! parks — and proves them for every history of claims and releases. Only
//! the pieces no verifier can see into are taken on trust: the wait queue's
//! park and wake calls, and the atomics' and the store cell's behavior under
//! sharing.

pub mod mutex;
pub mod protocol;
pub mod sem;
mod wait_queue;
