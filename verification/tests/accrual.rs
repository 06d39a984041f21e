use hope_staking::contract::{compute_distributed, compute_reward, compute_staker_reward};
use hope_staking::error::ContractError;
use hope_staking::math::{Decimal, DECIMAL_FRACTIONAL};
use hope_staking::state::{staker_info_key, Config, StakerInfo, State};

fn config_with(schedule: Vec<(u64, u64, u128)>) -> Config {
    Config {
        lp_token_contract: "lp_token_contract".to_string(),
        reward_token_contract: "reward_token_contract".to_string(),
        distribution_schedule: schedule,
        admin: "owner".to_string(),
    }
}

fn state_at(last: u64, total: u128, index: u128) -> State {
    State {
        last_distributed: last,
        total_bond_amount: total,
        global_reward_index: Decimal { atomics: index },
    }
}

fn staker(bond: u128, snapshot: u128, pending: u128) -> StakerInfo {
    StakerInfo {
        address: "user1".to_string(),
        reward_index: Decimal { atomics: snapshot },
        bond_amount: bond,
        pending_reward: pending,
    }
}

#[test]
fn staker_info_key_is_the_address() {
    let address = "user1".to_string();
    assert_eq!(staker_info_key(&address), "user1".to_string());
    assert_eq!(staker_info_key(&String::new()), String::new());
}

#[test]
fn distributed_is_rate_times_overlap() {
    let schedule = vec![(0u64, 100u64, 1000u128)];
    assert_eq!(compute_distributed(&schedule, 0, 50), Some(500));
    assert_eq!(compute_distributed(&schedule, 50, 100), Some(500));
    assert_eq!(compute_distributed(&schedule, 0, 100), Some(1000));
    assert_eq!(compute_distributed(&schedule, 20, 30), Some(100));
    // the window reaches beyond the slot on both sides
    assert_eq!(compute_distributed(&vec![(10u64, 20u64, 50u128)], 0, 100), Some(50));
    // no overlap before, after, or at the edges
    assert_eq!(compute_distributed(&schedule, 100, 200), Some(0));
    assert_eq!(compute_distributed(&vec![(50u64, 60u64, 10u128)], 0, 50), Some(0));
    assert_eq!(compute_distributed(&Vec::new(), 0, 50), Some(0));
}

#[test]
fn distributed_sums_overlapping_slots() {
    let schedule = vec![(0u64, 100u64, 1000u128), (50u64, 150u64, 2000u128)];
    // 10 per second throughout, 20 more per second from 50 on
    assert_eq!(compute_distributed(&schedule, 0, 50), Some(500));
    assert_eq!(compute_distributed(&schedule, 50, 100), Some(1500));
    assert_eq!(compute_distributed(&schedule, 100, 150), Some(1000));
    assert_eq!(compute_distributed(&schedule, 0, 150), Some(3000));
}

#[test]
fn distributed_rounds_the_rate_down_once_per_slot() {
    // 10 tokens over 3 seconds: the rate is 3.333333333333333333
    let schedule = vec![(0u64, 3u64, 10u128)];
    assert_eq!(compute_distributed(&schedule, 0, 1), Some(3));
    assert_eq!(compute_distributed(&schedule, 0, 2), Some(6));
    assert_eq!(compute_distributed(&schedule, 0, 3), Some(9));
    assert_eq!(compute_distributed(&schedule, 1, 3), Some(6));
}

#[test]
fn distributed_ignores_a_slot_that_never_runs() {
    // a slot whose end is not after its start overlaps nothing
    assert_eq!(compute_distributed(&vec![(10u64, 10u64, 5u128)], 0, 100), Some(0));
    assert_eq!(compute_distributed(&vec![(10u64, 5u64, 5u128)], 0, 100), Some(0));
}

#[test]
fn distributed_refuses_a_rate_out_of_range() {
    let schedule = vec![(0u64, 1u64, u128::MAX)];
    assert_eq!(compute_distributed(&schedule, 0, 1), None);
    // the slot is not touched outside its window
    assert_eq!(compute_distributed(&schedule, 1, 2), Some(0));
}

#[test]
fn distributed_refuses_a_sum_out_of_range() {
    // over 10^18 seconds the rate of even the largest amount fits
    let long = 1_000_000_000_000_000_000u64;
    assert_eq!(compute_distributed(&vec![(0u64, long, u128::MAX)], 0, long), Some(u128::MAX));
    assert_eq!(compute_distributed(&vec![(0u64, long, u128::MAX); 2], 0, long), None);
    let half = u128::MAX / 2 + 1;
    let one = compute_distributed(&vec![(0u64, u64::MAX, half)], 0, u64::MAX);
    assert_eq!(one, Some(half - 1));
    let both = compute_distributed(&vec![(0u64, u64::MAX, half); 2], 0, u64::MAX);
    assert_eq!(both, Some(u128::MAX - 1));
}

#[test]
fn advance_with_nothing_bonded_moves_only_the_clock() {
    let config = config_with(vec![(0, 100, 1000)]);
    let mut state = state_at(0, 0, 7);
    assert_eq!(compute_reward(&config, &mut state, 50), Ok(()));
    assert_eq!(state, state_at(50, 0, 7));
    // what was released meanwhile is not made up for later
    state.total_bond_amount = 100;
    assert_eq!(compute_reward(&config, &mut state, 100), Ok(()));
    assert_eq!(state, state_at(100, 100, 7 + 5 * DECIMAL_FRACTIONAL));
}

#[test]
fn advance_adds_distributed_per_bonded_unit() {
    let config = config_with(vec![(0, 100, 1000)]);
    let mut state = state_at(0, 100, 0);
    assert_eq!(compute_reward(&config, &mut state, 50), Ok(()));
    assert_eq!(state, state_at(50, 100, 5 * DECIMAL_FRACTIONAL));
    state.total_bond_amount = 200;
    assert_eq!(compute_reward(&config, &mut state, 100), Ok(()));
    assert_eq!(state, state_at(100, 200, 7_500_000_000_000_000_000));
}

#[test]
fn advance_rounds_the_index_down() {
    let config = config_with(vec![(0, 3, 10)]);
    let mut state = state_at(0, 7, 0);
    assert_eq!(compute_reward(&config, &mut state, 1), Ok(()));
    // 3 tokens over 7 bonded units: 0.428571428571428571
    assert_eq!(state, state_at(1, 7, 428_571_428_571_428_571));
}

#[test]
fn advance_agrees_with_the_decimal_type() {
    let config = config_with(vec![(0, 3, 10)]);
    let mut state = state_at(0, 7, 0);
    compute_reward(&config, &mut state, 2).unwrap();
    let rate = cosmwasm_std::Decimal::from_ratio(10u128, 3u128);
    let released = rate * cosmwasm_std::Uint128::new(2);
    let index = cosmwasm_std::Decimal::from_ratio(released, 7u128);
    assert_eq!(state.global_reward_index.atomics, index.atomics().u128());
}

#[test]
fn advance_twice_at_one_time_changes_nothing() {
    let config = config_with(vec![(0, 100, 1000), (20, 70, 333)]);
    let mut state = state_at(10, 30, 11);
    compute_reward(&config, &mut state, 60).unwrap();
    let once = state;
    assert_eq!(compute_reward(&config, &mut state, 60), Ok(()));
    assert_eq!(state, once);
}

#[test]
fn advance_never_lowers_the_index() {
    let config = config_with(vec![(0, 100, 1000), (20, 70, 333), (90, 400, 5)]);
    let mut state = state_at(0, 13, 0);
    let mut before = state.global_reward_index.atomics;
    for now in [0u64, 1, 1, 19, 20, 21, 69, 70, 71, 99, 100, 101, 399, 400, 401, 1000] {
        assert_eq!(compute_reward(&config, &mut state, now), Ok(()));
        assert!(state.global_reward_index.atomics >= before);
        assert_eq!(state.last_distributed, now);
        before = state.global_reward_index.atomics;
    }
}

#[test]
fn advance_refuses_a_time_before_the_last_accrual() {
    let config = config_with(vec![(0, 100, 1000)]);
    let mut state = state_at(50, 100, 3);
    assert_eq!(compute_reward(&config, &mut state, 49), Err(ContractError::Overflow {}));
    assert_eq!(state, state_at(50, 100, 3));
    let mut idle = state_at(50, 0, 3);
    assert_eq!(compute_reward(&config, &mut idle, 49), Err(ContractError::Overflow {}));
    assert_eq!(idle, state_at(50, 0, 3));
}

#[test]
fn advance_refuses_an_index_out_of_range() {
    let config = config_with(vec![(0, 100, 1000)]);
    let mut state = state_at(0, 1, u128::MAX - 10);
    assert_eq!(compute_reward(&config, &mut state, 50), Err(ContractError::Overflow {}));
    assert_eq!(state, state_at(0, 1, u128::MAX - 10));
    // the growth alone does not fit
    let huge = config_with(vec![(0, 1, u128::MAX / DECIMAL_FRACTIONAL)]);
    let mut small = state_at(0, 1, 0);
    assert_eq!(compute_reward(&huge, &mut small, 1), Ok(()));
    let mut smaller = state_at(0, 1, 0);
    let more = config_with(vec![(0, 1, u128::MAX / DECIMAL_FRACTIONAL); 2]);
    assert_eq!(compute_reward(&more, &mut smaller, 1), Err(ContractError::Overflow {}));
    assert_eq!(smaller, state_at(0, 1, 0));
}

#[test]
fn conservation_over_many_accruals() {
    let schedule = vec![(0u64, 7u64, 100u128), (3u64, 11u64, 50u128), (5u64, 6u64, 9u128)];
    let nominal: u128 = 159;
    let mut released: u128 = 0;
    let mut last = 0u64;
    for now in 1..=20u64 {
        released += compute_distributed(&schedule, last, now).unwrap();
        last = now;
    }
    assert!(released <= nominal);
    // second by second each slot loses its rounding dust every time
    assert_eq!(released, 7 * 14 + 8 * 6 + 9);
    assert_eq!(compute_distributed(&schedule, 0, 20), Some(99 + 50 + 9));
}

#[test]
fn settle_adds_bond_times_index_growth() {
    let state = state_at(100, 200, 7_500_000_000_000_000_000);
    let mut info = staker(100, 5 * DECIMAL_FRACTIONAL, 500);
    assert_eq!(compute_staker_reward(&state, &mut info), Ok(()));
    assert_eq!(info, staker(100, 7_500_000_000_000_000_000, 750));
    // settling again adds nothing
    assert_eq!(compute_staker_reward(&state, &mut info), Ok(()));
    assert_eq!(info, staker(100, 7_500_000_000_000_000_000, 750));
}

#[test]
fn settle_rounds_down() {
    let state = state_at(1, 7, 428_571_428_571_428_571);
    let mut info = staker(7, 0, 0);
    assert_eq!(compute_staker_reward(&state, &mut info), Ok(()));
    assert_eq!(info, staker(7, 428_571_428_571_428_571, 2));
    // the growth is taken first and multiplied then
    let later = state_at(2, 7, 1_500_000_000_000_000_000);
    let mut half = staker(1, 900_000_000_000_000_000, 0);
    assert_eq!(compute_staker_reward(&later, &mut half), Ok(()));
    assert_eq!(half, staker(1, 1_500_000_000_000_000_000, 0));
}

#[test]
fn settle_refuses_an_index_below_the_snapshot() {
    let state = state_at(1, 7, 4);
    let mut info = staker(7, 5, 1);
    assert_eq!(compute_staker_reward(&state, &mut info), Err(ContractError::Overflow {}));
    assert_eq!(info, staker(7, 5, 1));
}

#[test]
fn settle_refuses_a_pending_reward_out_of_range() {
    let state = state_at(1, 7, DECIMAL_FRACTIONAL);
    let mut info = staker(7, 0, u128::MAX - 6);
    assert_eq!(compute_staker_reward(&state, &mut info), Err(ContractError::Overflow {}));
    assert_eq!(info, staker(7, 0, u128::MAX - 6));
    let mut fits = staker(7, 0, u128::MAX - 7);
    assert_eq!(compute_staker_reward(&state, &mut fits), Ok(()));
    assert_eq!(fits.pending_reward, u128::MAX);
    // the product alone does not fit
    let steep = state_at(1, 7, 2 * DECIMAL_FRACTIONAL);
    let mut large = staker(u128::MAX, 0, 0);
    assert_eq!(compute_staker_reward(&steep, &mut large), Err(ContractError::Overflow {}));
    assert_eq!(large, staker(u128::MAX, 0, 0));
}

#[test]
fn equal_bonds_over_one_interval_accrue_equally() {
    let state = state_at(100, 1000, 9_123_456_789_012_345_678);
    let mut first = staker(321, 1_000_000_000_000_000_001, 0);
    let mut second = staker(321, 1_000_000_000_000_000_001, 0);
    second.address = "user2".to_string();
    compute_staker_reward(&state, &mut first).unwrap();
    compute_staker_reward(&state, &mut second).unwrap();
    assert_eq!(first.pending_reward, second.pending_reward);
    assert_eq!(first.pending_reward, 2607);
}

#[test]
fn accrued_rewards_stay_within_distributed() {
    let config = config_with(vec![(0, 3, 10)]);
    let mut state = state_at(0, 7, 0);
    let released = compute_distributed(&config.distribution_schedule, 0, 1).unwrap();
    compute_reward(&config, &mut state, 1).unwrap();
    let mut claimable = 0u128;
    for bond in [3u128, 2, 2] {
        let mut info = staker(bond, 0, 0);
        compute_staker_reward(&state, &mut info).unwrap();
        claimable += info.pending_reward;
    }
    assert_eq!(released, 3);
    assert_eq!(claimable, 1);
    assert!(claimable <= released);
}
