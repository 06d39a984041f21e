//! The read-only questions. None of them changes what it is shown; with a
//! time it answers as of that time, on a copy.

use vstd::prelude::*;
use crate::contract::{can_refresh, compute_reward, compute_staker_reward};
use crate::error::ContractError;
use crate::math::Decimal;
use crate::msg::{ConfigResponse, QueryMsg, QueryResponse, StakerInfoResponse, StateResponse};
use crate::schedule::Slot;
use crate::state::{Config, StakerInfo, State};

verus! {

/// A copy of a schedule.
fn copy_schedule(schedule: &Vec<Slot>) -> (copy: Vec<Slot>)
    ensures
        copy@ == schedule@,
{
    let mut copy: Vec<Slot> = Vec::new();
    let mut i: usize = 0;
    while i < schedule.len()
        invariant
            0 <= i <= schedule.len(),
            copy@ == schedule@.take(i as int),
        decreases schedule.len() - i,
    {
        copy.push(schedule[i]);
        assert(copy@ =~= schedule@.take(i + 1));
        i += 1;
    }
    assert(schedule@.take(i as int) =~= schedule@);
    copy
}

/// The configuration as it stands.
pub fn query_config(config: &Config) -> (res: ConfigResponse)
    ensures
        res.lp_token_contract == config.lp_token_contract,
        res.reward_token_contract == config.reward_token_contract,
        res.distribution_schedule@ == config.distribution_schedule@,
        res.admin == config.admin,
{
    ConfigResponse {
        lp_token_contract: config.lp_token_contract.clone(),
        reward_token_contract: config.reward_token_contract.clone(),
        distribution_schedule: copy_schedule(&config.distribution_schedule),
        admin: config.admin.clone(),
    }
}

/// How a state is reported.
pub open spec fn state_response(state: State) -> StateResponse {
    StateResponse {
        last_distributed: state.last_distributed,
        total_bond_amount: state.total_bond_amount,
        global_reward_index: state.global_reward_index,
    }
}

/// The global state: as it stands, or, with a time, as an accrual at that
/// time would leave it. The question is refused where that accrual would be.
pub fn query_state(config: &Config, state: &State, block_time: Option<u64>) -> (res: Result<
    StateResponse,
    ContractError,
>)
    ensures
        res == match block_time {
            None => Ok::<StateResponse, ContractError>(state_response(*state)),
            Some(time) => if state.can_advance(config.distribution_schedule@, time) {
                Ok(state_response(state.advanced(config.distribution_schedule@, time)))
            } else {
                Err(ContractError::Overflow {  })
            },
        },
{
    let mut shown = *state;
    if let Some(time) = block_time {
        match compute_reward(config, &mut shown, time) {
            Ok(()) => {},
            Err(error) => {
                return Err(error);
            },
        }
    }
    Ok(
        StateResponse {
            last_distributed: shown.last_distributed,
            total_bond_amount: shown.total_bond_amount,
            global_reward_index: shown.global_reward_index,
        },
    )
}

/// How a participant's record is reported to someone who asked for `staker`.
pub open spec fn staker_response(staker: String, info: StakerInfo) -> StakerInfoResponse {
    StakerInfoResponse {
        staker,
        reward_index: info.reward_index,
        bond_amount: info.bond_amount,
        pending_reward: info.pending_reward,
    }
}

/// What is reported of `staker`, whose record is `staker_info`. Of an
/// unknown participant all is zero. Of a known one it is the record as it
/// stands, or, with a time, as an accrual and a settlement at that time
/// would leave it; the question is refused where those would be.
pub open spec fn staker_info_answer(
    config: Config,
    state: State,
    staker_info: Option<StakerInfo>,
    staker: String,
    block_time: Option<u64>,
) -> Result<StakerInfoResponse, ContractError> {
    match staker_info {
        None => Ok(staker_response(staker, StakerInfo::fresh(staker))),
        Some(info) => match block_time {
            None => Ok(staker_response(staker, info)),
            Some(time) => if can_refresh(config.distribution_schedule@, state, info, time) {
                Ok(
                    staker_response(
                        staker,
                        info.settled(state.advanced(config.distribution_schedule@, time)),
                    ),
                )
            } else {
                Err(ContractError::Overflow {  })
            },
        },
    }
}

/// The record of one participant: see [`staker_info_answer`].
pub fn query_staker_info(
    config: &Config,
    state: &State,
    staker_info: Option<&StakerInfo>,
    staker: String,
    block_time: Option<u64>,
) -> (res: Result<StakerInfoResponse, ContractError>)
    ensures
        res == staker_info_answer(
            *config,
            *state,
            match staker_info {
                Some(info) => Some(*info),
                None => None,
            },
            staker,
            block_time,
        ),
{
    match staker_info {
        Some(info) => {
            let mut shown = StakerInfo {
                address: info.address.clone(),
                reward_index: info.reward_index,
                bond_amount: info.bond_amount,
                pending_reward: info.pending_reward,
            };
            if let Some(time) = block_time {
                let mut next = *state;
                match compute_reward(config, &mut next, time) {
                    Ok(()) => {},
                    Err(error) => {
                        return Err(error);
                    },
                }
                match compute_staker_reward(&next, &mut shown) {
                    Ok(()) => {},
                    Err(error) => {
                        return Err(error);
                    },
                }
            }
            Ok(
                StakerInfoResponse {
                    staker,
                    reward_index: shown.reward_index,
                    bond_amount: shown.bond_amount,
                    pending_reward: shown.pending_reward,
                },
            )
        },
        None => Ok(
            StakerInfoResponse {
                staker,
                reward_index: Decimal { atomics: 0 },
                bond_amount: 0,
                pending_reward: 0,
            },
        ),
    }
}

/// Answers a question: each has the answer of the function of its name.
/// `staker_info` is the record of the participant asked about, if the
/// question names one and a record is kept.
pub fn query(config: &Config, state: &State, staker_info: Option<&StakerInfo>, msg: QueryMsg) -> (res:
    Result<QueryResponse, ContractError>)
    ensures
        match msg {
            QueryMsg::Config {  } => {
                &&& res matches Ok(QueryResponse::Config(answer))
                &&& answer.lp_token_contract == config.lp_token_contract
                &&& answer.reward_token_contract == config.reward_token_contract
                &&& answer.distribution_schedule@ == config.distribution_schedule@
                &&& answer.admin == config.admin
            },
            QueryMsg::State { block_time } => match res {
                Ok(answer) => {
                    &&& answer matches QueryResponse::State(shown)
                    &&& block_time is Some ==> state.can_advance(
                        config.distribution_schedule@,
                        block_time->0,
                    )
                    &&& shown == state_response(
                        match block_time {
                            Some(time) => state.advanced(config.distribution_schedule@, time),
                            None => *state,
                        },
                    )
                },
                Err(error) => {
                    &&& error == (ContractError::Overflow {  })
                    &&& block_time is Some
                    &&& !state.can_advance(config.distribution_schedule@, block_time->0)
                },
            },
            QueryMsg::StakerInfo { staker, block_time } => {
                let expected = staker_info_answer(
                    *config,
                    *state,
                    match staker_info {
                        Some(info) => Some(*info),
                        None => None,
                    },
                    staker,
                    block_time,
                );
                match res {
                    Ok(answer) => {
                        &&& answer matches QueryResponse::StakerInfo(shown)
                        &&& expected == Ok::<StakerInfoResponse, ContractError>(shown)
                    },
                    Err(error) => expected == Err::<StakerInfoResponse, ContractError>(error),
                }
            },
        },
{
    match msg {
        QueryMsg::Config {  } => Ok(QueryResponse::Config(query_config(config))),
        QueryMsg::State { block_time } => match query_state(config, state, block_time) {
            Ok(answer) => Ok(QueryResponse::State(answer)),
            Err(error) => Err(error),
        },
        QueryMsg::StakerInfo { staker, block_time } => match query_staker_info(
            config,
            state,
            staker_info,
            staker,
            block_time,
        ) {
            Ok(answer) => Ok(QueryResponse::StakerInfo(answer)),
            Err(error) => Err(error),
        },
    }
}

} // verus!
