//! The emission schedule: a list of slots, each releasing an amount linearly
//! over a time window.

use vstd::prelude::*;
use crate::math::{lemma_ratio_bounds, lemma_scaled_monotonic, ratio_atomics, scaled_amount};

verus! {

/// A slot `(start, end, amount)` releases `amount` evenly over `[start, end)`.
/// Slots may overlap; their rates then add up.
pub type Slot = (u64, u64, u128);

/// A slot is well formed when it ends after it starts. One that does not
/// overlaps no window and so never releases anything.
pub open spec fn slot_valid(slot: Slot) -> bool {
    slot.0 < slot.1
}

/// Every slot of the schedule is well formed.
pub open spec fn schedule_valid(schedule: Seq<Slot>) -> bool {
    forall|i: int| 0 <= i < schedule.len() ==> slot_valid(#[trigger] schedule[i])
}

/// Seconds that `slot` and the window `[from, to)` have in common.
pub open spec fn overlap(slot: Slot, from: int, to: int) -> int {
    let low = if slot.0 > from { slot.0 as int } else { from };
    let high = if slot.1 < to { slot.1 as int } else { to };
    if low < high { high - low } else { 0 }
}

/// Emission per second of `slot`, in atomic units, rounded down.
pub open spec fn slot_rate(slot: Slot) -> int {
    ratio_atomics(slot.2 as int, slot.1 - slot.0)
}

/// What `slot` releases during `[from, to)`: its rate times the overlap,
/// rounded down; nothing when they do not overlap.
pub open spec fn slot_distributed(slot: Slot, from: int, to: int) -> int {
    if overlap(slot, from, to) > 0 {
        scaled_amount(overlap(slot, from, to), slot_rate(slot))
    } else {
        0
    }
}

/// What the whole schedule releases during `[from, to)`.
pub open spec fn distributed_amount(schedule: Seq<Slot>, from: int, to: int) -> int
    decreases schedule.len(),
{
    if schedule.len() == 0 {
        0
    } else {
        distributed_amount(schedule.drop_last(), from, to) + slot_distributed(
            schedule.last(),
            from,
            to,
        )
    }
}

/// Every slot that overlaps `[from, to)` has a rate that fits in 128 bits.
pub open spec fn rates_fit(schedule: Seq<Slot>, from: int, to: int) -> bool {
    forall|i: int|
        0 <= i < schedule.len() && overlap(#[trigger] schedule[i], from, to) > 0 ==> slot_rate(
            schedule[i],
        ) <= u128::MAX
}

/// The nominal size of the pool: the sum of all slot amounts.
pub open spec fn total_amount(schedule: Seq<Slot>) -> int
    decreases schedule.len(),
{
    if schedule.len() == 0 {
        0
    } else {
        total_amount(schedule.drop_last()) + schedule.last().2
    }
}

/// What becomes of a started slot when the pool is wound up at `now`. A slot
/// that has run out stays as it is. One still running is cut off at `now`,
/// and its amount becomes what it has released from its start until then.
pub open spec fn migrated_slot(slot: Slot, now: u64) -> Slot {
    if slot.1 <= now {
        slot
    } else {
        (slot.0, now, slot_distributed(slot, slot.0 as int, now as int) as u128)
    }
}

/// What becomes of the schedule when the pool is wound up at `now`: slots
/// that have not started are dropped, the others are kept in order, each as
/// [`migrated_slot`] leaves it.
pub open spec fn migrated_schedule(schedule: Seq<Slot>, now: u64) -> Seq<Slot>
    decreases schedule.len(),
{
    if schedule.len() == 0 {
        Seq::empty()
    } else if schedule.last().0 < now {
        migrated_schedule(schedule.drop_last(), now).push(migrated_slot(schedule.last(), now))
    } else {
        migrated_schedule(schedule.drop_last(), now)
    }
}

/// Every slot that is running at `now` has a rate that fits in 128 bits.
pub open spec fn running_rates_fit(schedule: Seq<Slot>, now: u64) -> bool {
    forall|i: int|
        0 <= i < schedule.len() && (#[trigger] schedule[i]).0 < now < schedule[i].1 ==> slot_rate(
            schedule[i],
        ) <= u128::MAX
}

/// How many times `slot` occurs in `schedule`.
pub open spec fn count_of(schedule: Seq<Slot>, slot: Slot) -> nat
    decreases schedule.len(),
{
    if schedule.len() == 0 {
        0
    } else if schedule.last() == slot {
        count_of(schedule.drop_last(), slot) + 1
    } else {
        count_of(schedule.drop_last(), slot)
    }
}

/// Some slot of `current` that has started by `cutoff` occurs less often in
/// `proposed`: it was dropped or altered.
pub open spec fn removes_started(current: Seq<Slot>, proposed: Seq<Slot>, cutoff: u64) -> bool {
    exists|i: int|
        0 <= i < current.len() && (#[trigger] current[i]).0 <= cutoff && count_of(
            proposed,
            current[i],
        ) < count_of(current, current[i])
}

/// Some slot of `proposed` that would have started by `cutoff` occurs more
/// often than in `current`: it was added.
pub open spec fn adds_started(current: Seq<Slot>, proposed: Seq<Slot>, cutoff: u64) -> bool {
    exists|j: int|
        0 <= j < proposed.len() && (#[trigger] proposed[j]).0 <= cutoff && count_of(
            current,
            proposed[j],
        ) < count_of(proposed, proposed[j])
}

/// A slot never releases more than its amount, whatever the window.
pub proof fn lemma_slot_distributed_bounds(slot: Slot, from: int, to: int)
    ensures
        0 <= slot_distributed(slot, from, to) <= slot.2,
{
    let shared = overlap(slot, from, to);
    if shared > 0 {
        let duration = slot.1 - slot.0;
        let rate = slot_rate(slot);
        lemma_ratio_bounds(slot.2 as int, duration);
        lemma_scaled_monotonic(shared, duration, rate);
        assert(duration * rate == rate * duration) by (nonlinear_arith);
    }
}

/// A schedule never releases more than its nominal amount, whatever the
/// window.
pub proof fn lemma_distributed_bounds(schedule: Seq<Slot>, from: int, to: int)
    ensures
        0 <= distributed_amount(schedule, from, to) <= total_amount(schedule),
    decreases schedule.len(),
{
    if schedule.len() > 0 {
        lemma_distributed_bounds(schedule.drop_last(), from, to);
        lemma_slot_distributed_bounds(schedule.last(), from, to);
    }
}

/// The first `n` slots release no more than the whole schedule.
pub proof fn lemma_distributed_prefix(schedule: Seq<Slot>, n: int, from: int, to: int)
    requires
        0 <= n <= schedule.len(),
    ensures
        distributed_amount(schedule.take(n), from, to) <= distributed_amount(schedule, from, to),
    decreases schedule.len(),
{
    if n == schedule.len() {
        assert(schedule.take(n) =~= schedule);
    } else {
        lemma_distributed_prefix(schedule.drop_last(), n, from, to);
        lemma_slot_distributed_bounds(schedule.last(), from, to);
        assert(schedule.drop_last().take(n) =~= schedule.take(n));
    }
}

/// The first `n` slots hold no more than the whole schedule.
pub proof fn lemma_total_prefix(schedule: Seq<Slot>, n: int)
    requires
        0 <= n <= schedule.len(),
    ensures
        0 <= total_amount(schedule.take(n)) <= total_amount(schedule),
    decreases schedule.len(),
{
    if n == schedule.len() {
        assert(schedule.take(n) =~= schedule);
        if n > 0 {
            lemma_total_prefix(schedule.drop_last(), n - 1);
        }
    } else {
        lemma_total_prefix(schedule.drop_last(), n);
        assert(schedule.drop_last().take(n) =~= schedule.take(n));
    }
}

/// Winding up never adds to the pool: what the kept slots hold is at most
/// the nominal amount.
pub proof fn lemma_migrated_total(schedule: Seq<Slot>, now: u64)
    ensures
        0 <= total_amount(migrated_schedule(schedule, now)) <= total_amount(schedule),
    decreases schedule.len(),
{
    if schedule.len() > 0 {
        let slot = schedule.last();
        lemma_migrated_total(schedule.drop_last(), now);
        lemma_slot_distributed_bounds(slot, slot.0 as int, now as int);
        if slot.0 < now {
            let kept = migrated_schedule(schedule.drop_last(), now);
            assert(kept.push(migrated_slot(slot, now)).drop_last() =~= kept);
        }
    }
}

/// A slot occurs at most as often as the schedule is long.
pub proof fn lemma_count_bound(schedule: Seq<Slot>, slot: Slot)
    ensures
        count_of(schedule, slot) <= schedule.len(),
    decreases schedule.len(),
{
    if schedule.len() > 0 {
        lemma_count_bound(schedule.drop_last(), slot);
    }
}

/// A slot that is counted at least once stands somewhere in the schedule.
pub proof fn lemma_count_positive(schedule: Seq<Slot>, slot: Slot) -> (i: int)
    requires
        count_of(schedule, slot) > 0,
    ensures
        0 <= i < schedule.len(),
        schedule[i] == slot,
    decreases schedule.len(),
{
    if schedule.last() == slot {
        schedule.len() - 1
    } else {
        lemma_count_positive(schedule.drop_last(), slot)
    }
}

/// Appending a slot raises its own count by one and leaves the others.
pub proof fn lemma_count_push(schedule: Seq<Slot>, added: Slot, slot: Slot)
    ensures
        count_of(schedule.push(added), slot) == count_of(schedule, slot) + if added == slot {
            1nat
        } else {
            0nat
        },
{
    assert(schedule.push(added).drop_last() =~= schedule);
}

} // verus!
