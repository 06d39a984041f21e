//! The entry points and the accounting behind them.

use vstd::prelude::*;
use crate::error::ContractError;
use crate::laws::law_advance_monotonic;
use crate::math::{checked_from_ratio, checked_mul_floor, Decimal};
use crate::msg::{
    action_log, migration_log, owner_log, transfer_of, Action, Attribute, Cw20HookMsg,
    Cw20ReceiveMsg, ExecuteMsg, InstantiateMsg, Response, Transfer,
};
use crate::schedule::{
    adds_started, count_of, distributed_amount, lemma_count_bound, lemma_distributed_prefix,
    lemma_migrated_total, lemma_slot_distributed_bounds, lemma_total_prefix, migrated_schedule,
    migrated_slot, overlap, rates_fit, removes_started, running_rates_fit, slot_distributed,
    slot_rate, total_amount, Slot,
};
use crate::state::{staker_info_key, Config, StakerInfo, State};

verus! {

/// What the schedule releases during `[from, to)`, or `None` where a slot's
/// rate or the sum leaves the range of 128 bits.
pub fn compute_distributed(schedule: &Vec<Slot>, from: u64, to: u64) -> (total: Option<u128>)
    ensures
        match total {
            Some(amount) => rates_fit(schedule@, from as int, to as int) && amount
                == distributed_amount(schedule@, from as int, to as int),
            None => !rates_fit(schedule@, from as int, to as int) || distributed_amount(
                schedule@,
                from as int,
                to as int,
            ) > u128::MAX,
        },
{
    let mut sum: u128 = 0;
    let mut i: usize = 0;
    while i < schedule.len()
        invariant
            0 <= i <= schedule.len(),
            rates_fit(schedule@.take(i as int), from as int, to as int),
            sum == distributed_amount(schedule@.take(i as int), from as int, to as int),
        decreases schedule.len() - i,
    {
        let slot = schedule[i];
        let low: u64 = if slot.0 > from { slot.0 } else { from };
        let high: u64 = if slot.1 < to { slot.1 } else { to };
        let mut released: u128 = 0;
        proof {
            assert(schedule@.take(i + 1).drop_last() =~= schedule@.take(i as int));
            assert(schedule@.take(i + 1).last() == slot);
            lemma_slot_distributed_bounds(slot, from as int, to as int);
            lemma_distributed_prefix(schedule@, i + 1, from as int, to as int);
        }
        if low < high {
            let shared: u64 = high - low;
            let duration: u64 = slot.1 - slot.0;
            assert(shared == overlap(slot, from as int, to as int));
            let rate = match checked_from_ratio(slot.2, duration as u128) {
                Some(rate) => rate,
                None => {
                    assert(schedule@[i as int] == slot);
                    return None;
                },
            };
            assert(rate.atomics == slot_rate(slot));
            released =
            match checked_mul_floor(shared as u128, rate) {
                Some(amount) => amount,
                None => {
                    return None;
                },
            };
        }
        assert(released == slot_distributed(slot, from as int, to as int));
        sum =
        match sum.checked_add(released) {
            Some(next) => next,
            None => {
                return None;
            },
        };
        assert forall|j: int|
            0 <= j < schedule@.take(i + 1).len() && overlap(
                #[trigger] schedule@.take(i + 1)[j],
                from as int,
                to as int,
            ) > 0 implies slot_rate(schedule@.take(i + 1)[j]) <= u128::MAX by {
            if j < i {
                assert(schedule@.take(i + 1)[j] == schedule@.take(i as int)[j]);
            }
        }
        i += 1;
    }
    assert(schedule@.take(i as int) =~= schedule@);
    Some(sum)
}

/// Brings the global state forward to `block_time`.
///
/// With nothing bonded only the clock moves. Otherwise the index grows by
/// what the schedule released since the last accrual, divided by the total
/// bonded, rounded down. A call with the time of the last accrual changes
/// nothing. The call is refused, and the state kept, where `block_time` lies
/// before the last accrual or a value leaves its range.
pub fn compute_reward(config: &Config, state: &mut State, block_time: u64) -> (res: Result<
    (),
    ContractError,
>)
    ensures
        res is Ok <==> old(state).can_advance(config.distribution_schedule@, block_time),
        res is Ok ==> *final(state) == old(state).advanced(
            config.distribution_schedule@,
            block_time,
        ),
        res is Ok ==> final(state).last_distributed == block_time,
        res is Ok ==> final(state).global_reward_index.atomics >= old(
            state,
        ).global_reward_index.atomics,
        res is Err ==> res == Err::<(), ContractError>(ContractError::Overflow {  }),
        res is Err ==> *final(state) == *old(state),
{
    proof {
        if state.can_advance(config.distribution_schedule@, block_time) {
            law_advance_monotonic(config.distribution_schedule@, *state, block_time);
        }
    }
    if block_time < state.last_distributed {
        return Err(ContractError::Overflow {  });
    }
    if state.total_bond_amount == 0 {
        state.last_distributed = block_time;
        return Ok(());
    }
    let distributed = match compute_distributed(
        &config.distribution_schedule,
        state.last_distributed,
        block_time,
    ) {
        Some(amount) => amount,
        None => {
            return Err(ContractError::Overflow {  });
        },
    };
    let growth = match checked_from_ratio(distributed, state.total_bond_amount) {
        Some(ratio) => ratio,
        None => {
            return Err(ContractError::Overflow {  });
        },
    };
    let index = match state.global_reward_index.atomics.checked_add(growth.atomics) {
        Some(atomics) => atomics,
        None => {
            return Err(ContractError::Overflow {  });
        },
    };
    state.last_distributed = block_time;
    state.global_reward_index = Decimal { atomics: index };
    Ok(())
}

/// Settles a participant against the global index: the reward accrued since
/// the participant's snapshot is added to the pending reward, and the
/// snapshot moves to the current index.
///
/// The call is refused, and the record kept, where the index lies below the
/// snapshot or the pending reward would leave its range.
pub fn compute_staker_reward(state: &State, staker_info: &mut StakerInfo) -> (res: Result<
    (),
    ContractError,
>)
    ensures
        res is Ok <==> old(staker_info).can_settle(*state),
        res is Ok ==> *final(staker_info) == old(staker_info).settled(*state),
        res is Err ==> res == Err::<(), ContractError>(ContractError::Overflow {  }),
        res is Err ==> *final(staker_info) == *old(staker_info),
{
    let growth = match state.global_reward_index.atomics.checked_sub(
        staker_info.reward_index.atomics,
    ) {
        Some(atomics) => Decimal { atomics },
        None => {
            return Err(ContractError::Overflow {  });
        },
    };
    let accrued = match checked_mul_floor(staker_info.bond_amount, growth) {
        Some(amount) => amount,
        None => {
            return Err(ContractError::Overflow {  });
        },
    };
    let pending = match staker_info.pending_reward.checked_add(accrued) {
        Some(amount) => amount,
        None => {
            return Err(ContractError::Overflow {  });
        },
    };
    staker_info.reward_index = state.global_reward_index;
    staker_info.pending_reward = pending;
    Ok(())
}

/// Whether `sender` is the admin of the pool.
pub fn authcheck(config: &Config, sender: &String) -> (res: Result<(), ContractError>)
    ensures
        res is Ok <==> sender@ == config.admin@,
        res is Err ==> res == Err::<(), ContractError>(ContractError::Unauthorized {  }),
{
    if *sender == config.admin {
        Ok(())
    } else {
        Err(ContractError::Unauthorized {  })
    }
}

/// The order to the token contract at `contract_addr` to send `amount` to
/// `recipient`.
fn order_transfer(contract_addr: &String, recipient: &String, amount: u128) -> (messages: Vec<
    Transfer,
>)
    ensures
        messages@ == transfer_of(*contract_addr, *recipient, amount),
{
    let messages = vec![
        Transfer { contract_addr: contract_addr.clone(), recipient: recipient.clone(), amount },
    ];
    assert(messages@ =~= transfer_of(*contract_addr, *recipient, amount));
    messages
}

/// Whether the pool can be wound up at `now`: the state can be brought
/// forward, the nominal amount fits in 128 bits, and so does the rate of
/// every slot that is still running.
pub open spec fn can_migrate(schedule: Seq<Slot>, state: State, now: u64) -> bool {
    &&& state.can_advance(schedule, now)
    &&& total_amount(schedule) <= u128::MAX
    &&& running_rates_fit(schedule, now)
}

/// The schedule as a wind-up at `now` leaves it, the nominal amount of the
/// schedule as it was, and what the kept slots hold; `None` where the
/// nominal amount or the rate of a running slot leaves the range of 128
/// bits.
fn wind_up_schedule(schedule: &Vec<Slot>, now: u64) -> (res: Option<(Vec<Slot>, u128, u128)>)
    ensures
        match res {
            Some((kept, nominal, distributed)) => {
                &&& running_rates_fit(schedule@, now)
                &&& kept@ == migrated_schedule(schedule@, now)
                &&& nominal == total_amount(schedule@)
                &&& distributed == total_amount(kept@)
            },
            None => total_amount(schedule@) > u128::MAX || !running_rates_fit(schedule@, now),
        },
{
    let mut kept: Vec<Slot> = Vec::new();
    let mut nominal: u128 = 0;
    let mut distributed: u128 = 0;
    let mut i: usize = 0;
    while i < schedule.len()
        invariant
            0 <= i <= schedule.len(),
            running_rates_fit(schedule@.take(i as int), now),
            kept@ == migrated_schedule(schedule@.take(i as int), now),
            nominal == total_amount(schedule@.take(i as int)),
            distributed == total_amount(kept@),
        decreases schedule.len() - i,
    {
        let slot = schedule[i];
        proof {
            assert(schedule@.take(i + 1).drop_last() =~= schedule@.take(i as int));
            assert(schedule@.take(i + 1).last() == slot);
            lemma_total_prefix(schedule@, i + 1);
            lemma_migrated_total(schedule@.take(i + 1), now);
            lemma_slot_distributed_bounds(slot, slot.0 as int, now as int);
        }
        nominal =
        match nominal.checked_add(slot.2) {
            Some(sum) => sum,
            None => {
                return None;
            },
        };
        if slot.0 < now {
            let mut closed = slot;
            if slot.1 > now {
                let rate = match checked_from_ratio(slot.2, (slot.1 - slot.0) as u128) {
                    Some(rate) => rate,
                    None => {
                        assert(schedule@[i as int] == slot);
                        return None;
                    },
                };
                let released = match checked_mul_floor((now - slot.0) as u128, rate) {
                    Some(amount) => amount,
                    None => {
                        return None;
                    },
                };
                closed = (slot.0, now, released);
            }
            assert(closed == migrated_slot(slot, now));
            proof {
                assert(kept@.push(closed).drop_last() =~= kept@);
            }
            kept.push(closed);
            distributed = distributed + closed.2;
        }
        assert forall|j: int|
            0 <= j < schedule@.take(i + 1).len() && (#[trigger] schedule@.take(i + 1)[j]).0 < now
                < schedule@.take(i + 1)[j].1 implies slot_rate(schedule@.take(i + 1)[j])
            <= u128::MAX by {
            if j < i {
                assert(schedule@.take(i + 1)[j] == schedule@.take(i as int)[j]);
            }
        }
        i += 1;
    }
    assert(schedule@.take(i as int) =~= schedule@);
    Some((kept, nominal, distributed))
}

/// What [`migrate_staking`] does. Only the admin may wind the pool up. The
/// state is brought forward first. Slots that have not started are dropped
/// from the schedule. A slot that has run out counts in full as distributed
/// and stays as it is; a running slot counts with what it released from its
/// start until now, and is cut down to just that. What the schedule
/// nominally held beyond the distributed amount is sent, in the bonded
/// asset, to the new contract. A refused call changes nothing.
pub open spec fn migrate_staking_outcome(
    config: Config,
    state: State,
    block_time: u64,
    sender: String,
    new_staking_contract: String,
    config_after: Config,
    state_after: State,
    res: Result<Response, ContractError>,
) -> bool {
    let schedule = config.distribution_schedule@;
    let kept = migrated_schedule(schedule, block_time);
    let remaining = total_amount(schedule) - total_amount(kept);
    match res {
        Ok(response) => {
            &&& sender@ == config.admin@
            &&& can_migrate(schedule, state, block_time)
            &&& state_after == state.advanced(schedule, block_time)
            &&& config_after.distribution_schedule@ =~= kept
            &&& config_after.lp_token_contract == config.lp_token_contract
            &&& config_after.reward_token_contract == config.reward_token_contract
            &&& config_after.admin == config.admin
            &&& 0 <= remaining <= u128::MAX
            &&& response.messages@ =~= transfer_of(
                config.lp_token_contract,
                new_staking_contract,
                remaining as u128,
            )
            &&& response.attributes@ =~= migration_log(total_amount(kept) as u128, remaining as u128)
        },
        Err(error) => {
            &&& config_after == config
            &&& state_after == state
            &&& if sender@ != config.admin@ {
                error == (ContractError::Unauthorized {  })
            } else {
                error == (ContractError::Overflow {  }) && !can_migrate(schedule, state, block_time)
            }
        },
    }
}

/// Winds the pool up at `block_time` and hands what is left to
/// `new_staking_contract`: see [`migrate_staking_outcome`].
pub fn migrate_staking(
    config: &mut Config,
    state: &mut State,
    block_time: u64,
    sender: &String,
    new_staking_contract: String,
) -> (res: Result<Response, ContractError>)
    ensures
        migrate_staking_outcome(
            *old(config),
            *old(state),
            block_time,
            *sender,
            new_staking_contract,
            *final(config),
            *final(state),
            res,
        ),
{
    match authcheck(config, sender) {
        Ok(()) => {},
        Err(error) => {
            return Err(error);
        },
    }
    let mut next = *state;
    match compute_reward(config, &mut next, block_time) {
        Ok(()) => {},
        Err(error) => {
            return Err(error);
        },
    }
    let (kept, nominal, distributed) = match wind_up_schedule(
        &config.distribution_schedule,
        block_time,
    ) {
        Some(outcome) => outcome,
        None => {
            return Err(ContractError::Overflow {  });
        },
    };
    proof {
        lemma_migrated_total(config.distribution_schedule@, block_time);
    }
    let remaining = nominal - distributed;
    let response = Response {
        messages: order_transfer(&config.lp_token_contract, &new_staking_contract, remaining),
        attributes: vec![
            Attribute::Action(Action::MigrateStaking),
            Attribute::DistributedAmount(distributed),
            Attribute::RemainingAmount(remaining),
        ],
    };
    config.distribution_schedule = kept;
    *state = next;
    Ok(response)
}

/// What is said to a schedule proposed in place of `current`, when the last
/// accrual was at `cutoff`. It must not be shorter. A slot that has started
/// by the cutoff must occur in it as often as before: no less, or it was
/// dropped or altered, and no more, or one was added behind the cutoff.
/// Slots that start later may be added, dropped and changed freely. Slots
/// are equal when all three fields are, and are counted with repetition.
pub open spec fn replacement_verdict(current: Seq<Slot>, proposed: Seq<Slot>, cutoff: u64) -> Result<
    (),
    ContractError,
> {
    if proposed.len() < current.len() {
        Err(ContractError::NotIncludeAllDistributionSchedule {  })
    } else if removes_started(current, proposed, cutoff) {
        Err(ContractError::NewScheduleRemovePastDistribution {  })
    } else if adds_started(current, proposed, cutoff) {
        Err(ContractError::NewScheduleAddPastDistribution {  })
    } else {
        Ok(())
    }
}

/// How many times `slot` occurs in `schedule`.
fn count_slot(schedule: &Vec<Slot>, slot: Slot) -> (n: usize)
    ensures
        n == count_of(schedule@, slot),
{
    let mut n: usize = 0;
    let mut i: usize = 0;
    while i < schedule.len()
        invariant
            0 <= i <= schedule.len(),
            n == count_of(schedule@.take(i as int), slot),
        decreases schedule.len() - i,
    {
        proof {
            assert(schedule@.take(i + 1).drop_last() =~= schedule@.take(i as int));
            lemma_count_bound(schedule@.take(i as int), slot);
        }
        let here = schedule[i];
        if here.0 == slot.0 && here.1 == slot.1 && here.2 == slot.2 {
            n += 1;
        }
        i += 1;
    }
    assert(schedule@.take(i as int) =~= schedule@);
    n
}

/// Judges a proposed schedule against the current one.
fn check_replacement(current: &Vec<Slot>, proposed: &Vec<Slot>, cutoff: u64) -> (res: Result<
    (),
    ContractError,
>)
    ensures
        res == replacement_verdict(current@, proposed@, cutoff),
{
    if proposed.len() < current.len() {
        return Err(ContractError::NotIncludeAllDistributionSchedule {  });
    }
    let mut i: usize = 0;
    while i < current.len()
        invariant
            0 <= i <= current.len(),
            current.len() <= proposed.len(),
            forall|k: int|
                0 <= k < i && (#[trigger] current@[k]).0 <= cutoff ==> count_of(
                    proposed@,
                    current@[k],
                ) >= count_of(current@, current@[k]),
        decreases current.len() - i,
    {
        let slot = current[i];
        if slot.0 <= cutoff && count_slot(proposed, slot) < count_slot(current, slot) {
            assert(current@[i as int] == slot);
            return Err(ContractError::NewScheduleRemovePastDistribution {  });
        }
        i += 1;
    }
    let mut j: usize = 0;
    while j < proposed.len()
        invariant
            0 <= j <= proposed.len(),
            current.len() <= proposed.len(),
            !removes_started(current@, proposed@, cutoff),
            forall|k: int|
                0 <= k < j && (#[trigger] proposed@[k]).0 <= cutoff ==> count_of(
                    current@,
                    proposed@[k],
                ) >= count_of(proposed@, proposed@[k]),
        decreases proposed.len() - j,
    {
        let slot = proposed[j];
        if slot.0 <= cutoff && count_slot(current, slot) < count_slot(proposed, slot) {
            assert(proposed@[j as int] == slot);
            return Err(ContractError::NewScheduleAddPastDistribution {  });
        }
        j += 1;
    }
    Ok(())
}

/// Judges a schedule proposed in place of the configured one: see
/// [`replacement_verdict`].
pub fn assert_new_schedules(
    config: &Config,
    state: &State,
    distribution_schedule: Vec<Slot>,
) -> (res: Result<(), ContractError>)
    ensures
        res == replacement_verdict(
            config.distribution_schedule@,
            distribution_schedule@,
            state.last_distributed,
        ),
{
    check_replacement(
        &config.distribution_schedule,
        &distribution_schedule,
        state.last_distributed,
    )
}

/// What [`update_config`] does. The schedule is replaced where the caller is
/// the admin and the new schedule passes [`replacement_verdict`]; a refused
/// call changes nothing.
pub open spec fn update_config_outcome(
    config: Config,
    state: State,
    sender: String,
    distribution_schedule: Vec<Slot>,
    config_after: Config,
    res: Result<Response, ContractError>,
) -> bool {
    let verdict = replacement_verdict(
        config.distribution_schedule@,
        distribution_schedule@,
        state.last_distributed,
    );
    match res {
        Ok(response) => {
            &&& sender@ == config.admin@
            &&& verdict is Ok
            &&& config_after.distribution_schedule == distribution_schedule
            &&& config_after.lp_token_contract == config.lp_token_contract
            &&& config_after.reward_token_contract == config.reward_token_contract
            &&& config_after.admin == config.admin
            &&& response.messages@ =~= Seq::<Transfer>::empty()
            &&& response.attributes@ =~= action_log(Action::UpdateConfig)
        },
        Err(error) => {
            &&& config_after == config
            &&& if sender@ != config.admin@ {
                error == (ContractError::Unauthorized {  })
            } else {
                verdict == Err::<(), ContractError>(error)
            }
        },
    }
}

/// Replaces the schedule: see [`update_config_outcome`].
pub fn update_config(
    config: &mut Config,
    state: &State,
    sender: &String,
    distribution_schedule: Vec<Slot>,
) -> (res: Result<Response, ContractError>)
    ensures
        update_config_outcome(
            *old(config),
            *state,
            *sender,
            distribution_schedule,
            *final(config),
            res,
        ),
{
    match authcheck(config, sender) {
        Ok(()) => {},
        Err(error) => {
            return Err(error);
        },
    }
    match check_replacement(
        &config.distribution_schedule,
        &distribution_schedule,
        state.last_distributed,
    ) {
        Ok(()) => {},
        Err(error) => {
            return Err(error);
        },
    }
    config.distribution_schedule = distribution_schedule;
    Ok(Response { messages: Vec::new(), attributes: vec![Attribute::Action(Action::UpdateConfig)] })
}

/// Whether the state can be brought forward to `now` and the participant
/// then be settled against it.
pub open spec fn can_refresh(schedule: Seq<Slot>, state: State, staker: StakerInfo, now: u64) -> bool {
    &&& state.can_advance(schedule, now)
    &&& staker.can_settle(state.advanced(schedule, now))
}

/// Brings a copy of the state forward to `block_time` and settles a copy of
/// the participant against it.
fn refresh(config: &Config, state: &State, staker: &StakerInfo, block_time: u64) -> (res: Result<
    (State, StakerInfo),
    ContractError,
>)
    ensures
        match res {
            Ok((next, settled)) => {
                &&& can_refresh(config.distribution_schedule@, *state, *staker, block_time)
                &&& next == state.advanced(config.distribution_schedule@, block_time)
                &&& settled == staker.settled(next)
            },
            Err(error) => {
                &&& error == (ContractError::Overflow {  })
                &&& !can_refresh(config.distribution_schedule@, *state, *staker, block_time)
            },
        },
{
    let mut next = *state;
    match compute_reward(config, &mut next, block_time) {
        Ok(()) => {},
        Err(error) => {
            return Err(error);
        },
    }
    let mut settled = StakerInfo {
        address: staker.address.clone(),
        reward_index: staker.reward_index,
        bond_amount: staker.bond_amount,
        pending_reward: staker.pending_reward,
    };
    match compute_staker_reward(&next, &mut settled) {
        Ok(()) => {},
        Err(error) => {
            return Err(error);
        },
    }
    Ok((next, settled))
}

/// Adds `amount` to the total and to the participant.
fn increase_bond_amount(state: &mut State, staker_info: &mut StakerInfo, amount: u128)
    requires
        old(state).total_bond_amount + amount <= u128::MAX,
        old(staker_info).bond_amount + amount <= u128::MAX,
    ensures
        *final(state) == (State {
            total_bond_amount: (old(state).total_bond_amount + amount) as u128,
            ..*old(state)
        }),
        *final(staker_info) == (StakerInfo {
            bond_amount: (old(staker_info).bond_amount + amount) as u128,
            ..*old(staker_info)
        }),
{
    state.total_bond_amount = state.total_bond_amount + amount;
    staker_info.bond_amount = staker_info.bond_amount + amount;
}

/// Takes `amount` from the total and from the participant.
fn decrease_bond_amount(state: &mut State, staker_info: &mut StakerInfo, amount: u128)
    requires
        amount <= old(state).total_bond_amount,
        amount <= old(staker_info).bond_amount,
    ensures
        *final(state) == (State {
            total_bond_amount: (old(state).total_bond_amount - amount) as u128,
            ..*old(state)
        }),
        *final(staker_info) == (StakerInfo {
            bond_amount: (old(staker_info).bond_amount - amount) as u128,
            ..*old(staker_info)
        }),
{
    state.total_bond_amount = state.total_bond_amount - amount;
    staker_info.bond_amount = staker_info.bond_amount - amount;
}

/// The record to work on: the stored one, or a fresh one for `address`.
pub open spec fn staker_or_fresh(staker: Option<StakerInfo>, address: String) -> StakerInfo {
    match staker {
        Some(info) => info,
        None => StakerInfo::fresh(address),
    }
}

/// Whether `amount` can be bonded at `now`: state and participant can be
/// refreshed, and the total and the participant's bond stay in range.
pub open spec fn can_bond(
    schedule: Seq<Slot>,
    state: State,
    staker: StakerInfo,
    now: u64,
    amount: u128,
) -> bool {
    &&& can_refresh(schedule, state, staker, now)
    &&& state.total_bond_amount + amount <= u128::MAX
    &&& staker.bond_amount + amount <= u128::MAX
}

/// What [`bond`] does. An accepted deposit brings the state forward to
/// `block_time`, settles the participant (a fresh record where there was
/// none), then adds `amount` to the total and to the participant's bond. A
/// refused one changes nothing.
pub open spec fn bond_outcome(
    config: Config,
    state: State,
    staker: Option<StakerInfo>,
    block_time: u64,
    sender_addr: String,
    amount: u128,
    state_after: State,
    staker_after: Option<StakerInfo>,
    res: Result<Response, ContractError>,
) -> bool {
    let schedule = config.distribution_schedule@;
    let before = staker_or_fresh(staker, sender_addr);
    let next = state.advanced(schedule, block_time);
    let settled = before.settled(next);
    match res {
        Ok(response) => {
            &&& can_bond(schedule, state, before, block_time, amount)
            &&& state_after == (State {
                total_bond_amount: (next.total_bond_amount + amount) as u128,
                ..next
            })
            &&& staker_after == Some(
                StakerInfo { bond_amount: (settled.bond_amount + amount) as u128, ..settled },
            )
            &&& response.messages@ =~= Seq::<Transfer>::empty()
            &&& response.attributes@ =~= owner_log(Action::Bond, sender_addr, amount)
        },
        Err(error) => {
            &&& !can_bond(schedule, state, before, block_time, amount)
            &&& error == (ContractError::Overflow {  })
            &&& state_after == state
            &&& staker_after == staker
        },
    }
}

/// Deposits `amount` of the bonded asset for `sender_addr`: see
/// [`bond_outcome`].
pub fn bond(
    config: &Config,
    state: &mut State,
    staker: &mut Option<StakerInfo>,
    block_time: u64,
    sender_addr: String,
    amount: u128,
) -> (res: Result<Response, ContractError>)
    ensures
        bond_outcome(
            *config,
            *old(state),
            *old(staker),
            block_time,
            sender_addr,
            amount,
            *final(state),
            *final(staker),
            res,
        ),
{
    let refreshed = match staker.as_ref() {
        Some(info) => refresh(config, state, info, block_time),
        None => {
            let fresh = StakerInfo {
                address: sender_addr.clone(),
                reward_index: Decimal { atomics: 0 },
                bond_amount: 0,
                pending_reward: 0,
            };
            refresh(config, state, &fresh, block_time)
        },
    };
    let (mut next, mut settled) = match refreshed {
        Ok(pair) => pair,
        Err(error) => {
            return Err(error);
        },
    };
    if next.total_bond_amount > u128::MAX - amount || settled.bond_amount > u128::MAX - amount {
        return Err(ContractError::Overflow {  });
    }
    increase_bond_amount(&mut next, &mut settled, amount);
    *state = next;
    *staker = Some(settled);
    Ok(
        Response {
            messages: Vec::new(),
            attributes: vec![
                Attribute::Action(Action::Bond),
                Attribute::Owner(sender_addr),
                Attribute::Amount(amount),
            ],
        },
    )
}

/// Whether `amount` can be taken back at `now`, given that the participant
/// has bonded that much: state and participant can be refreshed, and the
/// total covers the amount.
pub open spec fn can_unbond(
    schedule: Seq<Slot>,
    state: State,
    staker: StakerInfo,
    now: u64,
    amount: u128,
) -> bool {
    &&& can_refresh(schedule, state, staker, now)
    &&& amount <= state.total_bond_amount
}

/// What [`unbond`] does. An accepted withdrawal brings the state forward
/// to `block_time`, settles the participant, takes `amount` from the total
/// and from the participant's bond, and orders the transfer of `amount` of
/// the bonded asset to the participant. The record is deleted when neither
/// bond nor pending reward is left. A request for more than is bonded is
/// refused as such before anything else is looked at; a refused call changes
/// nothing.
pub open spec fn unbond_outcome(
    config: Config,
    state: State,
    staker: Option<StakerInfo>,
    block_time: u64,
    sender: String,
    amount: u128,
    state_after: State,
    staker_after: Option<StakerInfo>,
    res: Result<Response, ContractError>,
) -> bool {
    let schedule = config.distribution_schedule@;
    match res {
        Ok(response) => {
            &&& staker matches Some(before)
            &&& amount <= before.bond_amount
            &&& can_unbond(schedule, state, before, block_time, amount)
            &&& {
                let next = state.advanced(schedule, block_time);
                let settled = before.settled(next);
                let left = (settled.bond_amount - amount) as u128;
                &&& state_after == (State {
                    total_bond_amount: (next.total_bond_amount - amount) as u128,
                    ..next
                })
                &&& staker_after == if settled.pending_reward == 0 && left == 0 {
                    None
                } else {
                    Some(StakerInfo { bond_amount: left, ..settled })
                }
            }
            &&& response.messages@ =~= transfer_of(config.lp_token_contract, sender, amount)
            &&& response.attributes@ =~= owner_log(Action::Unbond, sender, amount)
        },
        Err(error) => {
            &&& state_after == state
            &&& staker_after == staker
            &&& match staker {
                None => error == (ContractError::NotStaked {  }),
                Some(before) => if before.bond_amount < amount {
                    error == (ContractError::ExceedBondAmount {  })
                } else {
                    &&& error == (ContractError::Overflow {  })
                    &&& !can_unbond(schedule, state, before, block_time, amount)
                },
            }
        },
    }
}

/// Takes `amount` of the bonded asset back for `sender`: see
/// [`unbond_outcome`].
pub fn unbond(
    config: &Config,
    state: &mut State,
    staker: &mut Option<StakerInfo>,
    block_time: u64,
    sender: String,
    amount: u128,
) -> (res: Result<Response, ContractError>)
    ensures
        unbond_outcome(
            *config,
            *old(state),
            *old(staker),
            block_time,
            sender,
            amount,
            *final(state),
            *final(staker),
            res,
        ),
{
    let refreshed = match staker.as_ref() {
        Some(info) => {
            if info.bond_amount < amount {
                return Err(ContractError::ExceedBondAmount {  });
            }
            refresh(config, state, info, block_time)
        },
        None => {
            return Err(ContractError::NotStaked {  });
        },
    };
    let (mut next, mut settled) = match refreshed {
        Ok(pair) => pair,
        Err(error) => {
            return Err(error);
        },
    };
    if next.total_bond_amount < amount {
        return Err(ContractError::Overflow {  });
    }
    decrease_bond_amount(&mut next, &mut settled, amount);
    *state = next;
    if settled.pending_reward == 0 && settled.bond_amount == 0 {
        *staker = None;
    } else {
        *staker = Some(settled);
    }
    Ok(
        Response {
            messages: order_transfer(&config.lp_token_contract, &sender, amount),
            attributes: vec![
                Attribute::Action(Action::Unbond),
                Attribute::Owner(sender),
                Attribute::Amount(amount),
            ],
        },
    )
}

/// What [`withdraw`] does. An accepted claim brings the state forward to
/// `block_time`, settles the participant, sets the pending reward to zero
/// and orders the transfer of what was pending, in the reward asset, to the
/// participant. The record is deleted when nothing is bonded. A refused
/// call changes nothing.
pub open spec fn withdraw_outcome(
    config: Config,
    state: State,
    staker: Option<StakerInfo>,
    block_time: u64,
    sender: String,
    state_after: State,
    staker_after: Option<StakerInfo>,
    res: Result<Response, ContractError>,
) -> bool {
    let schedule = config.distribution_schedule@;
    match res {
        Ok(response) => {
            &&& staker matches Some(before)
            &&& can_refresh(schedule, state, before, block_time)
            &&& {
                let next = state.advanced(schedule, block_time);
                let settled = before.settled(next);
                &&& state_after == next
                &&& staker_after == if settled.bond_amount == 0 {
                    None
                } else {
                    Some(StakerInfo { pending_reward: 0, ..settled })
                }
                &&& response.messages@ =~= transfer_of(
                    config.reward_token_contract,
                    sender,
                    settled.pending_reward,
                )
                &&& response.attributes@ =~= owner_log(
                    Action::Withdraw,
                    sender,
                    settled.pending_reward,
                )
            }
        },
        Err(error) => {
            &&& state_after == state
            &&& staker_after == staker
            &&& match staker {
                None => error == (ContractError::NotStaked {  }),
                Some(before) => {
                    &&& error == (ContractError::Overflow {  })
                    &&& !can_refresh(schedule, state, before, block_time)
                },
            }
        },
    }
}

/// Pays `sender` the reward that is pending: see [`withdraw_outcome`].
pub fn withdraw(
    config: &Config,
    state: &mut State,
    staker: &mut Option<StakerInfo>,
    block_time: u64,
    sender: String,
) -> (res: Result<Response, ContractError>)
    ensures
        withdraw_outcome(
            *config,
            *old(state),
            *old(staker),
            block_time,
            sender,
            *final(state),
            *final(staker),
            res,
        ),
{
    let refreshed = match staker.as_ref() {
        Some(info) => refresh(config, state, info, block_time),
        None => {
            return Err(ContractError::NotStaked {  });
        },
    };
    let (next, mut settled) = match refreshed {
        Ok(pair) => pair,
        Err(error) => {
            return Err(error);
        },
    };
    let amount = settled.pending_reward;
    settled.pending_reward = 0;
    *state = next;
    if settled.bond_amount == 0 {
        *staker = None;
    } else {
        *staker = Some(settled);
    }
    Ok(
        Response {
            messages: order_transfer(&config.reward_token_contract, &sender, amount),
            attributes: vec![
                Attribute::Action(Action::Withdraw),
                Attribute::Owner(sender),
                Attribute::Amount(amount),
            ],
        },
    )
}

/// What [`update_admin`] does: the admin, and nobody else, hands the pool
/// over to `address`.
pub open spec fn update_admin_outcome(
    config: Config,
    sender: String,
    address: String,
    config_after: Config,
    res: Result<Response, ContractError>,
) -> bool {
    match res {
        Ok(response) => {
            &&& sender@ == config.admin@
            &&& config_after == (Config { admin: address, ..config })
            &&& response.messages@ =~= Seq::<Transfer>::empty()
            &&& response.attributes@ =~= action_log(Action::UpdateAdmin)
        },
        Err(error) => {
            &&& sender@ != config.admin@
            &&& error == (ContractError::Unauthorized {  })
            &&& config_after == config
        },
    }
}

/// Hands the pool over to a new admin: see [`update_admin_outcome`].
pub fn update_admin(config: &mut Config, sender: &String, address: String) -> (res: Result<
    Response,
    ContractError,
>)
    ensures
        update_admin_outcome(*old(config), *sender, address, *final(config), res),
{
    match authcheck(config, sender) {
        Ok(()) => {},
        Err(error) => {
            return Err(error);
        },
    }
    config.admin = address;
    Ok(Response { messages: Vec::new(), attributes: vec![Attribute::Action(Action::UpdateAdmin)] })
}

/// What [`update_token_contract`] does: the admin, and nobody else, names
/// the contracts of the bonded asset and of the reward asset anew. The log
/// reads as that of [`update_admin`] does.
pub open spec fn update_token_contract_outcome(
    config: Config,
    sender: String,
    lp_contract: String,
    reward_contract: String,
    config_after: Config,
    res: Result<Response, ContractError>,
) -> bool {
    match res {
        Ok(response) => {
            &&& sender@ == config.admin@
            &&& config_after == (Config {
                lp_token_contract: lp_contract,
                reward_token_contract: reward_contract,
                ..config
            })
            &&& response.messages@ =~= Seq::<Transfer>::empty()
            &&& response.attributes@ =~= action_log(Action::UpdateAdmin)
        },
        Err(error) => {
            &&& sender@ != config.admin@
            &&& error == (ContractError::Unauthorized {  })
            &&& config_after == config
        },
    }
}

/// Names the asset contracts anew: see [`update_token_contract_outcome`].
pub fn update_token_contract(
    config: &mut Config,
    sender: &String,
    lp_contract: String,
    reward_contract: String,
) -> (res: Result<Response, ContractError>)
    ensures
        update_token_contract_outcome(
            *old(config),
            *sender,
            lp_contract,
            reward_contract,
            *final(config),
            res,
        ),
{
    match authcheck(config, sender) {
        Ok(()) => {},
        Err(error) => {
            return Err(error);
        },
    }
    config.reward_token_contract = reward_contract;
    config.lp_token_contract = lp_contract;
    Ok(Response { messages: Vec::new(), attributes: vec![Attribute::Action(Action::UpdateAdmin)] })
}

/// What [`receive_cw20`] does with a notification that arrived from
/// `sender`. Without a readable instruction it is refused. An instruction
/// to bond is refused unless the bonded asset's own contract sent the
/// notification; otherwise the amount is bonded for the account that the
/// notification names.
pub open spec fn receive_cw20_outcome(
    config: Config,
    state: State,
    staker: Option<StakerInfo>,
    block_time: u64,
    sender: String,
    cw20_msg: Cw20ReceiveMsg,
    state_after: State,
    staker_after: Option<StakerInfo>,
    res: Result<Response, ContractError>,
) -> bool {
    match cw20_msg.msg {
        None => {
            &&& res == Err::<Response, ContractError>(ContractError::DataShouldBeGiven {  })
            &&& state_after == state
            &&& staker_after == staker
        },
        Some(Cw20HookMsg::Bond {  }) => if config.lp_token_contract@ != sender@ {
            &&& res == Err::<Response, ContractError>(ContractError::WrongContractError {  })
            &&& state_after == state
            &&& staker_after == staker
        } else {
            bond_outcome(
                config,
                state,
                staker,
                block_time,
                cw20_msg.sender,
                cw20_msg.amount,
                state_after,
                staker_after,
                res,
            )
        },
    }
}

/// Takes a notification of received tokens: see [`receive_cw20_outcome`].
pub fn receive_cw20(
    config: &Config,
    state: &mut State,
    staker: &mut Option<StakerInfo>,
    block_time: u64,
    sender: &String,
    cw20_msg: Cw20ReceiveMsg,
) -> (res: Result<Response, ContractError>)
    ensures
        receive_cw20_outcome(
            *config,
            *old(state),
            *old(staker),
            block_time,
            *sender,
            cw20_msg,
            *final(state),
            *final(staker),
            res,
        ),
{
    match cw20_msg.msg {
        Some(Cw20HookMsg::Bond {  }) => {
            if !(config.lp_token_contract == *sender) {
                return Err(ContractError::WrongContractError {  });
            }
            bond(config, state, staker, block_time, cw20_msg.sender, cw20_msg.amount)
        },
        None => Err(ContractError::DataShouldBeGiven {  }),
    }
}

/// Sets a pool up at `block_time`, with `sender` as its admin: the settings
/// are those of `msg`, nothing is bonded and the index is zero.
pub fn instantiate(block_time: u64, sender: String, msg: InstantiateMsg) -> (res: (
    Config,
    State,
    Response,
))
    ensures
        res.0 == (Config {
            lp_token_contract: msg.lp_token_contract,
            reward_token_contract: msg.reward_token_contract,
            distribution_schedule: msg.distribution_schedule,
            admin: sender,
        }),
        res.1 == (State {
            last_distributed: block_time,
            total_bond_amount: 0,
            global_reward_index: Decimal { atomics: 0 },
        }),
        res.2.messages@ == Seq::<Transfer>::empty(),
        res.2.attributes@ == action_log(Action::Instantiate),
{
    (
        Config {
            lp_token_contract: msg.lp_token_contract,
            reward_token_contract: msg.reward_token_contract,
            distribution_schedule: msg.distribution_schedule,
            admin: sender,
        },
        State {
            last_distributed: block_time,
            total_bond_amount: 0,
            global_reward_index: Decimal { atomics: 0 },
        },
        Response {
            messages: Vec::new(),
            attributes: vec![Attribute::Action(Action::Instantiate)],
        },
    )
}

/// The account whose record a command reads and writes, if it touches one:
/// the depositor for a notification of received tokens, the caller for a
/// withdrawal or a claim.
pub fn staker_key(sender: &String, msg: &ExecuteMsg) -> (key: Option<String>)
    ensures
        match *msg {
            ExecuteMsg::Receive(cw20_msg) => key is Some && key->0@ == cw20_msg.sender@,
            ExecuteMsg::Unbond { .. } => key is Some && key->0@ == sender@,
            ExecuteMsg::Withdraw {  } => key is Some && key->0@ == sender@,
            _ => key is None,
        },
{
    match msg {
        ExecuteMsg::Receive(cw20_msg) => Some(staker_info_key(&cw20_msg.sender)),
        ExecuteMsg::Unbond { .. } => Some(staker_info_key(sender)),
        ExecuteMsg::Withdraw {  } => Some(staker_info_key(sender)),
        _ => None,
    }
}

/// What [`execute`] does: each command has the outcome of the entry point of
/// its name, and leaves alone what that entry point does not take.
pub open spec fn execute_outcome(
    config: Config,
    state: State,
    staker: Option<StakerInfo>,
    block_time: u64,
    sender: String,
    msg: ExecuteMsg,
    config_after: Config,
    state_after: State,
    staker_after: Option<StakerInfo>,
    res: Result<Response, ContractError>,
) -> bool {
    match msg {
        ExecuteMsg::Receive(cw20_msg) => {
            &&& config_after == config
            &&& receive_cw20_outcome(
                config,
                state,
                staker,
                block_time,
                sender,
                cw20_msg,
                state_after,
                staker_after,
                res,
            )
        },
        ExecuteMsg::Unbond { amount } => {
            &&& config_after == config
            &&& unbond_outcome(
                config,
                state,
                staker,
                block_time,
                sender,
                amount,
                state_after,
                staker_after,
                res,
            )
        },
        ExecuteMsg::Withdraw {  } => {
            &&& config_after == config
            &&& withdraw_outcome(
                config,
                state,
                staker,
                block_time,
                sender,
                state_after,
                staker_after,
                res,
            )
        },
        ExecuteMsg::UpdateConfig { distribution_schedule } => {
            &&& state_after == state
            &&& staker_after == staker
            &&& update_config_outcome(
                config,
                state,
                sender,
                distribution_schedule,
                config_after,
                res,
            )
        },
        ExecuteMsg::MigrateStaking { new_staking_contract } => {
            &&& staker_after == staker
            &&& migrate_staking_outcome(
                config,
                state,
                block_time,
                sender,
                new_staking_contract,
                config_after,
                state_after,
                res,
            )
        },
        ExecuteMsg::UpdateAdmin { admin } => {
            &&& state_after == state
            &&& staker_after == staker
            &&& update_admin_outcome(config, sender, admin, config_after, res)
        },
        ExecuteMsg::UpdateTokenContract { lp_token_contract, reward_token_contract } => {
            &&& state_after == state
            &&& staker_after == staker
            &&& update_token_contract_outcome(
                config,
                sender,
                lp_token_contract,
                reward_token_contract,
                config_after,
                res,
            )
        },
    }
}

/// Carries out a command of `sender` at `block_time`: see
/// [`execute_outcome`]. `staker` is the record kept under
/// [`staker_key`], or `None` where there is none.
pub fn execute(
    config: &mut Config,
    state: &mut State,
    staker: &mut Option<StakerInfo>,
    block_time: u64,
    sender: String,
    msg: ExecuteMsg,
) -> (res: Result<Response, ContractError>)
    ensures
        execute_outcome(
            *old(config),
            *old(state),
            *old(staker),
            block_time,
            sender,
            msg,
            *final(config),
            *final(state),
            *final(staker),
            res,
        ),
{
    match msg {
        ExecuteMsg::Receive(cw20_msg) => receive_cw20(
            config,
            state,
            staker,
            block_time,
            &sender,
            cw20_msg,
        ),
        ExecuteMsg::Unbond { amount } => unbond(config, state, staker, block_time, sender, amount),
        ExecuteMsg::Withdraw {  } => withdraw(config, state, staker, block_time, sender),
        ExecuteMsg::UpdateConfig { distribution_schedule } => update_config(
            config,
            state,
            &sender,
            distribution_schedule,
        ),
        ExecuteMsg::MigrateStaking { new_staking_contract } => migrate_staking(
            config,
            state,
            block_time,
            &sender,
            new_staking_contract,
        ),
        ExecuteMsg::UpdateAdmin { admin } => update_admin(config, &sender, admin),
        ExecuteMsg::UpdateTokenContract {
            lp_token_contract,
            reward_token_contract,
        } => update_token_contract(config, &sender, lp_token_contract, reward_token_contract),
    }
}

/// The name under which a pool of this kind is registered.
pub const CONTRACT_NAME: &'static str = "Hope_Staking";

/// The version of this code.
pub const CONTRACT_VERSION: &'static str = "0.1.0";

/// Guards a code upgrade: it goes through only where the stored contract is
/// of this kind and of this version.
pub fn migrate(previous_contract: String, previous_version: String) -> (res: Result<
    Response,
    ContractError,
>)
    ensures
        match res {
            Ok(response) => {
                &&& previous_contract@ == CONTRACT_NAME@
                &&& previous_version@ == CONTRACT_VERSION@
                &&& response.messages@ =~= Seq::<Transfer>::empty()
                &&& response.attributes@ =~= Seq::<Attribute>::empty()
            },
            Err(error) => {
                &&& previous_contract@ != CONTRACT_NAME@ || previous_version@ != CONTRACT_VERSION@
                &&& error == (ContractError::CannotMigrate { previous_contract })
            },
        },
{
    if !(previous_contract == CONTRACT_NAME.to_owned()) {
        return Err(ContractError::CannotMigrate { previous_contract });
    }
    if !(previous_version == CONTRACT_VERSION.to_owned()) {
        return Err(ContractError::CannotMigrate { previous_contract });
    }
    Ok(Response { messages: Vec::new(), attributes: Vec::new() })
}

} // verus!
