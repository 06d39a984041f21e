use hope_staking::contract::migrate_staking;
use hope_staking::error::ContractError;
use hope_staking::math::{Decimal, DECIMAL_FRACTIONAL};
use hope_staking::msg::{Action, Attribute, Response, Transfer};
use hope_staking::query::{query_config, query_state};
use hope_staking::state::{Config, State};

fn config_with(schedule: Vec<(u64, u64, u128)>) -> Config {
    Config {
        lp_token_contract: "lp_token_contract".to_string(),
        reward_token_contract: "reward_token_contract".to_string(),
        distribution_schedule: schedule,
        admin: "owner".to_string(),
    }
}

fn state_at(last: u64, total: u128, index: u128) -> State {
    State {
        last_distributed: last,
        total_bond_amount: total,
        global_reward_index: Decimal { atomics: index },
    }
}

fn outcome(distributed: u128, remaining: u128) -> Response {
    Response {
        messages: vec![Transfer {
            contract_addr: "lp_token_contract".to_string(),
            recipient: "new_staking".to_string(),
            amount: remaining,
        }],
        attributes: vec![
            Attribute::Action(Action::MigrateStaking),
            Attribute::DistributedAmount(distributed),
            Attribute::RemainingAmount(remaining),
        ],
    }
}

#[test]
fn migration_in_the_middle_of_a_slot() {
    let mut config = config_with(vec![(0, 100, 1000)]);
    let mut state = state_at(0, 0, 0);
    let owner = "owner".to_string();
    let response =
        migrate_staking(&mut config, &mut state, 40, &owner, "new_staking".to_string()).unwrap();
    assert_eq!(response, outcome(400, 600));
    assert_eq!(config, config_with(vec![(0, 40, 400)]));
    assert_eq!(state, state_at(40, 0, 0));
}

#[test]
fn migration_brings_the_index_forward() {
    let mut config = config_with(vec![(0, 100, 1000)]);
    let mut state = state_at(0, 100, 0);
    let owner = "owner".to_string();
    migrate_staking(&mut config, &mut state, 40, &owner, "new_staking".to_string()).unwrap();
    assert_eq!(state, state_at(40, 100, 4 * DECIMAL_FRACTIONAL));
}

#[test]
fn migration_sorts_slots_by_what_they_have_done() {
    let mut config = config_with(vec![
        (0, 10, 100),  // run out
        (50, 60, 7),   // not started: starts now
        (0, 50, 33),   // runs out just now
        (20, 80, 600), // running
        (51, 60, 9),   // not started
        (49, 52, 10),  // running, with rounding
    ]);
    let mut state = state_at(0, 0, 0);
    let owner = "owner".to_string();
    let response =
        migrate_staking(&mut config, &mut state, 50, &owner, "new_staking".to_string()).unwrap();
    // 100 + 33 in full, 300 of 600, and 3 of 10
    assert_eq!(response, outcome(436, 759 - 436));
    assert_eq!(
        config.distribution_schedule,
        vec![(0, 10, 100), (0, 50, 33), (20, 50, 300), (49, 50, 3)]
    );
}

#[test]
fn migration_of_an_empty_or_unstarted_schedule() {
    let owner = "owner".to_string();
    let mut config = config_with(vec![]);
    let mut state = state_at(3, 0, 0);
    let response =
        migrate_staking(&mut config, &mut state, 5, &owner, "new_staking".to_string()).unwrap();
    assert_eq!(response, outcome(0, 0));
    let mut config = config_with(vec![(10, 20, 30), (5, 6, 1)]);
    let response =
        migrate_staking(&mut config, &mut state, 5, &owner, "new_staking".to_string()).unwrap();
    assert_eq!(response, outcome(0, 31));
    assert_eq!(config.distribution_schedule, vec![]);
}

#[test]
fn migration_needs_the_admin() {
    let mut config = config_with(vec![(0, 100, 1000)]);
    let mut state = state_at(0, 10, 0);
    let stranger = "user1".to_string();
    assert_eq!(
        migrate_staking(&mut config, &mut state, 40, &stranger, "new_staking".to_string()),
        Err(ContractError::Unauthorized {})
    );
    assert_eq!(config, config_with(vec![(0, 100, 1000)]));
    assert_eq!(state, state_at(0, 10, 0));
}

#[test]
fn migration_refusals_change_nothing() {
    let owner = "owner".to_string();
    // the nominal amount does not fit
    let schedule = vec![(100, 200, u128::MAX), (100, 200, 1)];
    let mut config = config_with(schedule.clone());
    let mut state = state_at(0, 10, 0);
    assert_eq!(
        migrate_staking(&mut config, &mut state, 40, &owner, "new_staking".to_string()),
        Err(ContractError::Overflow {})
    );
    assert_eq!(config, config_with(schedule));
    assert_eq!(state, state_at(0, 10, 0));
    // the rate of a running slot does not fit
    let schedule = vec![(0, 2, u128::MAX)];
    let mut config = config_with(schedule.clone());
    let mut state = state_at(0, 0, 0);
    assert_eq!(
        migrate_staking(&mut config, &mut state, 1, &owner, "new_staking".to_string()),
        Err(ContractError::Overflow {})
    );
    assert_eq!(config, config_with(schedule));
    assert_eq!(state, state_at(0, 0, 0));
    // time runs backwards
    let mut config = config_with(vec![]);
    let mut state = state_at(41, 0, 0);
    assert_eq!(
        migrate_staking(&mut config, &mut state, 40, &owner, "new_staking".to_string()),
        Err(ContractError::Overflow {})
    );
    assert_eq!(state, state_at(41, 0, 0));
}

#[test]
fn query_config_copies_the_configuration() {
    let config = config_with(vec![(0, 100, 1000), (5, 6, 7)]);
    let answer = query_config(&config);
    assert_eq!(answer.lp_token_contract, "lp_token_contract");
    assert_eq!(answer.reward_token_contract, "reward_token_contract");
    assert_eq!(answer.admin, "owner");
    assert_eq!(answer.distribution_schedule, vec![(0, 100, 1000), (5, 6, 7)]);
}

#[test]
fn query_state_projects_without_committing() {
    let config = config_with(vec![(0, 100, 1000)]);
    let state = state_at(0, 100, 0);
    let as_is = query_state(&config, &state, None).unwrap();
    assert_eq!(as_is.last_distributed, 0);
    assert_eq!(as_is.total_bond_amount, 100);
    assert_eq!(as_is.global_reward_index, Decimal { atomics: 0 });
    let later = query_state(&config, &state, Some(50)).unwrap();
    assert_eq!(later.last_distributed, 50);
    assert_eq!(later.total_bond_amount, 100);
    assert_eq!(later.global_reward_index, Decimal { atomics: 5 * DECIMAL_FRACTIONAL });
    assert_eq!(state, state_at(0, 100, 0));
    let earlier = query_state(&config, &state_at(10, 100, 0), Some(9));
    assert_eq!(earlier, Err(ContractError::Overflow {}));
}
