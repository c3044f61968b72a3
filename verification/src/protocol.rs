//! The mathematical protocol behind the semaphore: what the shared count is
//! after a history of claims and releases, and which histories the primitive
//! allows.

use vstd::prelude::*;

verus! {

/// A holder may claim a unit exactly when the count is below capacity.
pub open spec fn can_claim(count: int, capacity: int) -> bool {
    count < capacity
}

/// An acquirer must park exactly when the count has reached the capacity.
pub open spec fn must_wait(count: int, capacity: int) -> bool {
    count == capacity
}

/// One observable transition of the shared count.
pub enum SemEvent {
    /// A successful claim: the count rose by one.
    Acquire,
    /// A guard released its unit: the count fell by one.
    Release,
}

/// The count after a history of events, starting from the zero of a fresh
/// semaphore.
pub open spec fn count_after(history: Seq<SemEvent>) -> int
    decreases history.len(),
{
    if history.len() == 0 {
        0
    } else {
        match history.last() {
            SemEvent::Acquire => count_after(history.drop_last()) + 1,
            SemEvent::Release => count_after(history.drop_last()) - 1,
        }
    }
}

/// The protocol obeyed at position `i` of a history: a claim happens only
/// below capacity (the compare-and-exchange re-validates exactly this), and a
/// release comes only from a live guard.
pub open spec fn step_allowed(history: Seq<SemEvent>, i: int, capacity: int) -> bool {
    match history[i] {
        SemEvent::Acquire => can_claim(count_after(history.take(i)), capacity),
        SemEvent::Release => count_after(history.take(i)) >= 1,
    }
}

/// A history the primitive can produce: every step obeyed the protocol.
pub open spec fn valid_history(history: Seq<SemEvent>, capacity: int) -> bool {
    forall|i: int| 0 <= i < history.len() ==> #[trigger] step_allowed(history, i, capacity)
}

/// How many claims a history holds.
pub open spec fn claims_made(history: Seq<SemEvent>) -> int
    decreases history.len(),
{
    if history.len() == 0 {
        0
    } else {
        claims_made(history.drop_last()) + match history.last() {
            SemEvent::Acquire => 1int,
            SemEvent::Release => 0int,
        }
    }
}

/// How many releases a history holds.
pub open spec fn releases_made(history: Seq<SemEvent>) -> int
    decreases history.len(),
{
    if history.len() == 0 {
        0
    } else {
        releases_made(history.drop_last()) + match history.last() {
            SemEvent::Acquire => 0int,
            SemEvent::Release => 1int,
        }
    }
}

/// The count is exactly the number of guards still live: the claims made so
/// far less the releases made so far.
pub proof fn lemma_count_is_live_guards(history: Seq<SemEvent>)
    ensures
        count_after(history) == claims_made(history) - releases_made(history),
    decreases history.len(),
{
    if history.len() > 0 {
        lemma_count_is_live_guards(history.drop_last());
    }
}

/// Cutting the last event off an allowed history leaves an allowed history.
proof fn lemma_prefix_valid(history: Seq<SemEvent>, capacity: int)
    requires
        valid_history(history, capacity),
        history.len() > 0,
    ensures
        valid_history(history.drop_last(), capacity),
{
    let prefix = history.drop_last();
    assert forall|i: int| 0 <= i < prefix.len() implies #[trigger] step_allowed(
        prefix,
        i,
        capacity,
    ) by {
        assert(step_allowed(history, i, capacity));
        assert(prefix.take(i) =~= history.take(i));
        assert(prefix[i] == history[i]);
    }
}

/// The capacity bound: under the protocol the count of live guards never
/// goes negative and never exceeds the capacity, after any history of
/// claims and releases.
pub proof fn lemma_count_bounded(history: Seq<SemEvent>, capacity: int)
    requires
        capacity >= 0,
        valid_history(history, capacity),
    ensures
        0 <= count_after(history) <= capacity,
    decreases history.len(),
{
    if history.len() > 0 {
        let prefix = history.drop_last();
        lemma_prefix_valid(history, capacity);
        lemma_count_bounded(prefix, capacity);
        assert(step_allowed(history, history.len() - 1, capacity));
        assert(history.take(history.len() - 1) =~= prefix);
    }
}

/// A claim at full capacity is not a protocol step: the compare-and-exchange
/// that makes a claim re-validates `count < capacity`, so a full semaphore
/// admits no further guard until someone releases.
pub proof fn lemma_no_claim_when_full(history: Seq<SemEvent>, capacity: int)
    requires
        count_after(history) == capacity,
    ensures
        !step_allowed(history.push(SemEvent::Acquire), history.len() as int, capacity),
{
    assert(history.push(SemEvent::Acquire).take(history.len() as int) =~= history);
}

/// A release with no guard live is not a protocol step: only the destruction
/// of a live guard lowers the count, so the count cannot go negative.
pub proof fn lemma_no_release_without_holder(history: Seq<SemEvent>, capacity: int)
    requires
        count_after(history) == 0,
    ensures
        !step_allowed(history.push(SemEvent::Release), history.len() as int, capacity),
{
    assert(history.push(SemEvent::Release).take(history.len() as int) =~= history);
}

/// Blocking and unblocking: while every unit is claimed a further acquirer
/// must park, and a single release is enough to make a claim allowed again.
pub proof fn lemma_full_then_release_unblocks(history: Seq<SemEvent>, capacity: int)
    requires
        capacity >= 1,
        valid_history(history, capacity),
        count_after(history) == capacity,
    ensures
        must_wait(count_after(history), capacity),
        valid_history(history.push(SemEvent::Release), capacity),
        can_claim(count_after(history.push(SemEvent::Release)), capacity),
{
    let extended = history.push(SemEvent::Release);
    assert(extended.drop_last() =~= history);
    assert forall|i: int| 0 <= i < extended.len() implies #[trigger] step_allowed(
        extended,
        i,
        capacity,
    ) by {
        if i < history.len() {
            assert(step_allowed(history, i, capacity));
            assert(extended.take(i) =~= history.take(i));
            assert(extended[i] == history[i]);
        } else {
            assert(extended[i] == SemEvent::Release);
            assert(extended.take(i) =~= history);
        }
    }
}

/// The history of a lone holder: `cycle_count` acquire/release pairs, each
/// release before the next claim.
pub open spec fn lone_holder_cycles(cycle_count: nat) -> Seq<SemEvent>
    decreases cycle_count,
{
    if cycle_count == 0 {
        Seq::empty()
    } else {
        lone_holder_cycles((cycle_count - 1) as nat) + seq![SemEvent::Acquire, SemEvent::Release]
    }
}

/// Sequential fast path: a lone holder cycling through acquire and release
/// produces an allowed history — every claim of it finds the count strictly
/// below capacity, so it succeeds at once and never parks — and the count
/// comes back to zero.
pub proof fn lemma_sequential_fast_path(cycle_count: nat, capacity: int)
    requires
        capacity >= 1,
    ensures
        valid_history(lone_holder_cycles(cycle_count), capacity),
        count_after(lone_holder_cycles(cycle_count)) == 0,
    decreases cycle_count,
{
    let history = lone_holder_cycles(cycle_count);
    if cycle_count == 0 {
        assert(history.len() == 0);
    } else {
        let prefix = lone_holder_cycles((cycle_count - 1) as nat);
        lemma_sequential_fast_path((cycle_count - 1) as nat, capacity);
        let after_claim = prefix.push(SemEvent::Acquire);
        assert(history.len() == prefix.len() + 2);
        assert(history.take(prefix.len() as int) =~= prefix);
        assert(history.take((prefix.len() + 1) as int) =~= after_claim);
        assert(after_claim.drop_last() =~= prefix);
        assert(count_after(after_claim) == 1);
        assert(history.drop_last() =~= after_claim);
        assert(history.last() == SemEvent::Release);
        assert(count_after(history) == 0);
        assert forall|i: int| 0 <= i < history.len() implies #[trigger] step_allowed(
            history,
            i,
            capacity,
        ) by {
            if i < prefix.len() {
                assert(step_allowed(prefix, i, capacity));
                assert(history.take(i) =~= prefix.take(i));
                assert(history[i] == prefix[i]);
            } else if i == prefix.len() {
                assert(history[i] == SemEvent::Acquire);
            } else {
                assert(history[i] == SemEvent::Release);
            }
        }
    }
}

} // verus!
