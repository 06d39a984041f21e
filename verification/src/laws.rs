//! What holds of the accounting whatever the inputs: each law is stated over
//! the functions in which the entry points' contracts are written, and
//! proved.

use vstd::prelude::*;
use crate::contract::{bond_outcome, replacement_verdict};
use crate::math::{lemma_ratio_bounds, lemma_scaled_monotonic, ratio_atomics, scaled_amount};
use crate::msg::Response;
use crate::schedule::{
    adds_started, count_of, distributed_amount, lemma_count_positive, lemma_count_push,
    lemma_distributed_bounds, migrated_schedule, overlap, rates_fit, removes_started,
    schedule_valid, slot_rate, slot_valid, total_amount, Slot,
};
use crate::state::{Config, StakerInfo, State};

verus! {

/// No time, no release: over an empty window the schedule releases nothing.
pub proof fn lemma_nothing_in_no_time(schedule: Seq<Slot>, now: int)
    ensures
        distributed_amount(schedule, now, now) == 0,
        rates_fit(schedule, now, now),
    decreases schedule.len(),
{
    if schedule.len() > 0 {
        lemma_nothing_in_no_time(schedule.drop_last(), now);
    }
}

/// An accrual never lowers the index, and leaves the clock at its time.
pub proof fn law_advance_monotonic(schedule: Seq<Slot>, state: State, now: u64)
    requires
        state.can_advance(schedule, now),
    ensures
        state.advanced(schedule, now).global_reward_index.atomics
            >= state.global_reward_index.atomics,
        state.advanced(schedule, now).last_distributed == now,
        state.advanced(schedule, now).last_distributed >= state.last_distributed,
        state.advanced(schedule, now).total_bond_amount == state.total_bond_amount,
{
    if state.total_bond_amount != 0 {
        lemma_distributed_bounds(schedule, state.last_distributed as int, now as int);
        lemma_ratio_bounds(
            distributed_amount(schedule, state.last_distributed as int, now as int),
            state.total_bond_amount as int,
        );
    }
}

/// An accrual at the time of the last one changes nothing: after
/// `advanced(now)`, a second `advanced(now)` is possible and leaves the
/// index, the clock and the total as they are.
pub proof fn law_advance_idempotent(schedule: Seq<Slot>, state: State, now: u64)
    requires
        state.can_advance(schedule, now),
    ensures
        state.advanced(schedule, now).can_advance(schedule, now),
        state.advanced(schedule, now).advanced(schedule, now) == state.advanced(schedule, now),
{
    let once = state.advanced(schedule, now);
    lemma_nothing_in_no_time(schedule, now as int);
    if once.total_bond_amount != 0 {
        assert(ratio_atomics(0, once.total_bond_amount as int) == 0) by (nonlinear_arith)
            requires
                once.total_bond_amount > 0,
                ratio_atomics(0, once.total_bond_amount as int) == (0 * 1_000_000_000_000_000_000int)
                    / (once.total_bond_amount as int),
        ;
    }
}

/// The state after a series of accruals at `times`, one after the other, or
/// `None` where one of them is not possible.
pub open spec fn advanced_through(schedule: Seq<Slot>, state: State, times: Seq<u64>) -> Option<
    State,
>
    decreases times.len(),
{
    if times.len() == 0 {
        Some(state)
    } else {
        match advanced_through(schedule, state, times.drop_last()) {
            Some(earlier) => if earlier.can_advance(schedule, times.last()) {
                Some(earlier.advanced(schedule, times.last()))
            } else {
                None
            },
            None => None,
        }
    }
}

/// Over any series of accruals the index never falls and the clock never
/// runs backwards.
pub proof fn law_index_monotonic(schedule: Seq<Slot>, state: State, times: Seq<u64>)
    requires
        advanced_through(schedule, state, times) is Some,
    ensures
        advanced_through(schedule, state, times)->0.global_reward_index.atomics
            >= state.global_reward_index.atomics,
        advanced_through(schedule, state, times)->0.last_distributed >= state.last_distributed,
    decreases times.len(),
{
    if times.len() > 0 {
        law_index_monotonic(schedule, state, times.drop_last());
        law_advance_monotonic(
            schedule,
            advanced_through(schedule, state, times.drop_last())->0,
            times.last(),
        );
    }
}

/// Two windows that follow one another release no more than the one window
/// that spans both: rounding down at every step only ever withholds.
pub proof fn lemma_windows_join(schedule: Seq<Slot>, from: int, mid: int, to: int)
    requires
        from <= mid <= to,
    ensures
        distributed_amount(schedule, from, mid) + distributed_amount(schedule, mid, to)
            <= distributed_amount(schedule, from, to),
    decreases schedule.len(),
{
    if schedule.len() > 0 {
        lemma_windows_join(schedule.drop_last(), from, mid, to);
        let slot = schedule.last();
        let rate = slot_rate(slot);
        let first = overlap(slot, from, mid);
        let second = overlap(slot, mid, to);
        assert(first + second == overlap(slot, from, to));
        assert((first + second) * rate == first * rate + second * rate) by (nonlinear_arith);
        assert(0 * rate == 0) by (nonlinear_arith);
        assert(scaled_amount(first, rate) + scaled_amount(second, rate) <= scaled_amount(
            first + second,
            rate,
        ));
        assert(scaled_amount(0, rate) == 0);
    }
}

/// What one accrual releases: nothing while nothing is bonded, else what the
/// schedule releases between the last accrual and this one.
pub open spec fn call_distributed(schedule: Seq<Slot>, last: u64, now: u64, bonded: u128) -> int {
    if bonded == 0 {
        0
    } else {
        distributed_amount(schedule, last as int, now as int)
    }
}

/// The time of the last of `calls`, or `start` where there is none.
pub open spec fn last_time(start: u64, calls: Seq<(u64, u128)>) -> u64 {
    if calls.len() == 0 {
        start
    } else {
        calls.last().0
    }
}

/// What a series of accruals releases in all. Each call is a time and the
/// total that is bonded when it is made; the first follows an accrual at
/// `start`.
pub open spec fn cumulative_distributed(
    schedule: Seq<Slot>,
    start: u64,
    calls: Seq<(u64, u128)>,
) -> int
    decreases calls.len(),
{
    if calls.len() == 0 {
        0
    } else {
        cumulative_distributed(schedule, start, calls.drop_last()) + call_distributed(
            schedule,
            last_time(start, calls.drop_last()),
            calls.last().0,
            calls.last().1,
        )
    }
}

/// The calls come in the order of their times, none before `start`.
pub open spec fn times_ascend(start: u64, calls: Seq<(u64, u128)>) -> bool
    decreases calls.len(),
{
    calls.len() > 0 ==> times_ascend(start, calls.drop_last()) && last_time(
        start,
        calls.drop_last(),
    ) <= calls.last().0
}

/// A series of accruals releases no more than one accrual over the whole
/// span would.
pub proof fn lemma_cumulative_bound(schedule: Seq<Slot>, start: u64, calls: Seq<(u64, u128)>)
    requires
        times_ascend(start, calls),
    ensures
        start <= last_time(start, calls),
        0 <= cumulative_distributed(schedule, start, calls) <= distributed_amount(
            schedule,
            start as int,
            last_time(start, calls) as int,
        ),
    decreases calls.len(),
{
    if calls.len() == 0 {
        lemma_nothing_in_no_time(schedule, start as int);
    } else {
        let earlier = calls.drop_last();
        let middle = last_time(start, earlier);
        lemma_cumulative_bound(schedule, start, earlier);
        lemma_windows_join(schedule, start as int, middle as int, calls.last().0 as int);
        lemma_distributed_bounds(schedule, middle as int, calls.last().0 as int);
    }
}

/// Conservation: whatever the times of the accruals and whatever is bonded
/// at each, all that they release together does not exceed the nominal
/// amount of the schedule.
pub proof fn law_conservation(schedule: Seq<Slot>, start: u64, calls: Seq<(u64, u128)>)
    requires
        times_ascend(start, calls),
    ensures
        cumulative_distributed(schedule, start, calls) <= total_amount(schedule),
{
    lemma_cumulative_bound(schedule, start, calls);
    lemma_distributed_bounds(schedule, start as int, last_time(start, calls) as int);
}

/// The sum of `bonds`.
pub open spec fn total_bonded(bonds: Seq<u128>) -> int
    decreases bonds.len(),
{
    if bonds.len() == 0 {
        0
    } else {
        total_bonded(bonds.drop_last()) + bonds.last()
    }
}

/// What the holders of `bonds` accrue together while the index grows by
/// `growth` atomic units, each rounded down.
pub open spec fn total_accrued(bonds: Seq<u128>, growth: int) -> int
    decreases bonds.len(),
{
    if bonds.len() == 0 {
        0
    } else {
        total_accrued(bonds.drop_last(), growth) + scaled_amount(bonds.last() as int, growth)
    }
}

/// Settled one by one, holders accrue no more than their bonds would
/// together.
pub proof fn lemma_accrued_together(bonds: Seq<u128>, growth: int)
    requires
        growth >= 0,
    ensures
        0 <= total_bonded(bonds),
        0 <= total_accrued(bonds, growth) <= scaled_amount(total_bonded(bonds), growth),
    decreases bonds.len(),
{
    if bonds.len() > 0 {
        lemma_accrued_together(bonds.drop_last(), growth);
        let rest = total_bonded(bonds.drop_last());
        let last = bonds.last() as int;
        assert((rest + last) * growth == rest * growth + last * growth) by (nonlinear_arith);
        assert(last * growth >= 0) by (nonlinear_arith)
            requires
                last >= 0,
                growth >= 0,
        ;
    }
}

/// What an accrual makes claimable stays within what it released: where the
/// bonds of the participants add up to no more than the total, the rewards
/// that they accrue from the growth of the index add up to no more than the
/// amount distributed.
pub proof fn law_accrued_within_distributed(bonds: Seq<u128>, total: u128, distributed: int)
    requires
        distributed >= 0,
        total > 0,
        total_bonded(bonds) <= total,
    ensures
        total_accrued(bonds, ratio_atomics(distributed, total as int)) <= distributed,
{
    let growth = ratio_atomics(distributed, total as int);
    lemma_ratio_bounds(distributed, total as int);
    lemma_accrued_together(bonds, growth);
    lemma_scaled_monotonic(total_bonded(bonds), total as int, growth);
    assert(total * growth == growth * total) by (nonlinear_arith);
}

/// Fairness: two participants with equal bonds and equal snapshots accrue
/// the same reward against any state, whatever else happened to the pool in
/// between. Others' deposits and withdrawals reach a participant only
/// through the index, which all share.
pub proof fn law_equal_bonds_accrue_equally(first: StakerInfo, second: StakerInfo, state: State)
    requires
        first.bond_amount == second.bond_amount,
        first.reward_index == second.reward_index,
    ensures
        first.accrued(state) == second.accrued(state),
        first.pending_reward == second.pending_reward ==> first.can_settle(state)
            == second.can_settle(state) && first.settled(state).pending_reward == second.settled(
            state,
        ).pending_reward,
{
}

/// Two deposits at one time take the same snapshot, in whichever order they
/// are made: the first changes the total, and the accrual before the second
/// finds no time passed.
pub proof fn law_same_time_same_snapshot(schedule: Seq<Slot>, state: State, now: u64, amount: u128)
    requires
        state.can_advance(schedule, now),
        state.total_bond_amount + amount <= u128::MAX,
    ensures
        ({
            let first = state.advanced(schedule, now);
            let between = State {
                total_bond_amount: (first.total_bond_amount + amount) as u128,
                ..first
            };
            &&& between.can_advance(schedule, now)
            &&& between.advanced(schedule, now).global_reward_index == first.global_reward_index
        }),
{
    let first = state.advanced(schedule, now);
    let between = State { total_bond_amount: (first.total_bond_amount + amount) as u128, ..first };
    lemma_nothing_in_no_time(schedule, now as int);
    if between.total_bond_amount != 0 {
        assert(ratio_atomics(0, between.total_bond_amount as int) == 0) by (nonlinear_arith)
            requires
                between.total_bond_amount > 0,
                ratio_atomics(0, between.total_bond_amount as int) == (0
                    * 1_000_000_000_000_000_000int) / (between.total_bond_amount as int),
        ;
    }
}

/// Fairness, from the deposits on: two newcomers who bond the same amount at
/// the same time, one after the other, hold the same pending reward
/// whenever both are settled against the same later state.
pub proof fn law_equal_deposits_earn_equally(
    config: Config,
    state: State,
    now: u64,
    amount: u128,
    first: String,
    second: String,
    between: State,
    first_record: Option<StakerInfo>,
    first_response: Response,
    after: State,
    second_record: Option<StakerInfo>,
    second_response: Response,
    later: State,
)
    requires
        bond_outcome(
            config,
            state,
            None,
            now,
            first,
            amount,
            between,
            first_record,
            Ok(first_response),
        ),
        bond_outcome(
            config,
            between,
            None,
            now,
            second,
            amount,
            after,
            second_record,
            Ok(second_response),
        ),
        first_record is Some ==> first_record->0.can_settle(later),
    ensures
        first_record is Some,
        second_record is Some,
        first_record->0.bond_amount == amount,
        second_record->0.bond_amount == amount,
        first_record->0.reward_index == second_record->0.reward_index,
        second_record->0.can_settle(later),
        first_record->0.settled(later).pending_reward == second_record->0.settled(
            later,
        ).pending_reward,
{
    law_same_time_same_snapshot(config.distribution_schedule@, state, now, amount);
}

/// Winding up keeps the schedule well formed: a slot that is cut off ends at
/// a time after its start.
pub proof fn law_wind_up_keeps_slots_valid(schedule: Seq<Slot>, now: u64)
    requires
        schedule_valid(schedule),
    ensures
        schedule_valid(migrated_schedule(schedule, now)),
    decreases schedule.len(),
{
    if schedule.len() > 0 {
        law_wind_up_keeps_slots_valid(schedule.drop_last(), now);
        assert(slot_valid(schedule.last()));
    }
}

/// A settlement never lowers the pending reward.
pub proof fn law_pending_monotonic(staker: StakerInfo, state: State)
    requires
        staker.can_settle(state),
    ensures
        staker.settled(state).pending_reward >= staker.pending_reward,
        staker.settled(state).bond_amount == staker.bond_amount,
        staker.settled(state).reward_index == state.global_reward_index,
{
    let growth = state.global_reward_index.atomics - staker.reward_index.atomics;
    assert(staker.bond_amount * growth >= 0) by (nonlinear_arith)
        requires
            staker.bond_amount >= 0,
            growth >= 0,
    ;
}

/// A replacement that drops or alters a started slot is refused: where a
/// slot that started by the cutoff occurs less often in the proposed
/// schedule than in the current one, the verdict is an error.
pub proof fn law_started_slot_cannot_go(
    current: Seq<Slot>,
    proposed: Seq<Slot>,
    cutoff: u64,
    i: int,
)
    requires
        0 <= i < current.len(),
        current[i].0 <= cutoff,
        count_of(proposed, current[i]) < count_of(current, current[i]),
    ensures
        replacement_verdict(current, proposed, cutoff) is Err,
{
}

/// A replacement that only appends a slot starting after the cutoff is
/// accepted.
pub proof fn law_future_slot_can_come(current: Seq<Slot>, cutoff: u64, slot: Slot)
    requires
        slot.0 > cutoff,
    ensures
        replacement_verdict(current, current.push(slot), cutoff) is Ok,
{
    let proposed = current.push(slot);
    assert forall|i: int| 0 <= i < current.len() implies count_of(proposed, #[trigger] current[i])
        >= count_of(current, current[i]) by {
        lemma_count_push(current, slot, current[i]);
    }
    assert forall|j: int|
        0 <= j < proposed.len() && (#[trigger] proposed[j]).0 <= cutoff implies count_of(
        current,
        proposed[j],
    ) >= count_of(proposed, proposed[j]) by {
        lemma_count_push(current, slot, proposed[j]);
    }
}

/// An accepted replacement leaves every started slot as it was: each slot
/// that starts by the cutoff occurs in the new schedule exactly as often as
/// in the old one.
pub proof fn law_accepted_keeps_started(
    current: Seq<Slot>,
    proposed: Seq<Slot>,
    cutoff: u64,
    slot: Slot,
)
    requires
        replacement_verdict(current, proposed, cutoff) is Ok,
        slot.0 <= cutoff,
    ensures
        count_of(proposed, slot) == count_of(current, slot),
{
    if count_of(proposed, slot) < count_of(current, slot) {
        let i = lemma_count_positive(current, slot);
        assert(removes_started(current, proposed, cutoff));
    }
    if count_of(current, slot) < count_of(proposed, slot) {
        let j = lemma_count_positive(proposed, slot);
        assert(adds_started(current, proposed, cutoff));
    }
}

} // verus!
