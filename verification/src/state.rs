//! The persisted aggregates: configuration, global state and one record per
//! participant.

use vstd::prelude::*;
use crate::math::{ratio_atomics, scaled_amount, Decimal};
use crate::schedule::{distributed_amount, rates_fit, Slot};

verus! {

/// Who may administer the pool, which assets it deals in and how rewards are
/// released.
#[derive(Clone, Debug, PartialEq)]
pub struct Config {
    pub lp_token_contract: String,
    pub reward_token_contract: String,
    pub distribution_schedule: Vec<Slot>,
    pub admin: String,
}

/// The pool-wide accounting state.
#[derive(Clone, Copy, Debug, PartialEq, Eq, Structural)]
pub struct State {
    /// Time of the most recent accrual.
    pub last_distributed: u64,
    /// Sum of all bonded amounts.
    pub total_bond_amount: u128,
    /// Reward per bonded unit accumulated since the start.
    pub global_reward_index: Decimal,
}

impl State {
    /// Whether the state can be brought forward to `now`: time does not run
    /// backwards and, where anything is bonded, every amount and the new
    /// index stay in range.
    pub open spec fn can_advance(self, schedule: Seq<Slot>, now: u64) -> bool {
        &&& self.last_distributed <= now
        &&& self.total_bond_amount != 0 ==> {
            let distributed = distributed_amount(
                schedule,
                self.last_distributed as int,
                now as int,
            );
            &&& rates_fit(schedule, self.last_distributed as int, now as int)
            &&& distributed <= u128::MAX
            &&& self.global_reward_index.atomics + ratio_atomics(
                distributed,
                self.total_bond_amount as int,
            ) <= u128::MAX
        }
    }

    /// The state brought forward to `now`. With nothing bonded only the clock
    /// moves: what the schedule releases meanwhile is left out of the
    /// accounting for good. Otherwise the index grows by what was released
    /// since the last accrual, per bonded unit, rounded down.
    pub open spec fn advanced(self, schedule: Seq<Slot>, now: u64) -> State {
        if self.total_bond_amount == 0 {
            State { last_distributed: now, ..self }
        } else {
            let distributed = distributed_amount(
                schedule,
                self.last_distributed as int,
                now as int,
            );
            State {
                last_distributed: now,
                total_bond_amount: self.total_bond_amount,
                global_reward_index: Decimal {
                    atomics: (self.global_reward_index.atomics + ratio_atomics(
                        distributed,
                        self.total_bond_amount as int,
                    )) as u128,
                },
            }
        }
    }
}

/// One participant's record.
#[derive(Clone, Debug, PartialEq)]
pub struct StakerInfo {
    pub address: String,
    /// The global index as of this record's last settlement.
    pub reward_index: Decimal,
    pub bond_amount: u128,
    /// Reward settled but not yet claimed.
    pub pending_reward: u128,
}

impl StakerInfo {
    /// The record that a participant starts with: nothing bonded, nothing
    /// pending, and a snapshot of zero.
    pub open spec fn fresh(address: String) -> StakerInfo {
        StakerInfo {
            address,
            reward_index: Decimal { atomics: 0 },
            bond_amount: 0,
            pending_reward: 0,
        }
    }

    /// The reward accrued since the record's snapshot: the bonded amount times
    /// the growth of the index, rounded down.
    pub open spec fn accrued(self, state: State) -> int {
        scaled_amount(
            self.bond_amount as int,
            state.global_reward_index.atomics - self.reward_index.atomics,
        )
    }

    /// Whether the record can be settled against `state`: the index has not
    /// fallen below the snapshot, and the pending reward stays in range.
    pub open spec fn can_settle(self, state: State) -> bool {
        &&& self.reward_index.atomics <= state.global_reward_index.atomics
        &&& self.pending_reward + self.accrued(state) <= u128::MAX
    }

    /// The record settled against `state`: the accrued reward is added to the
    /// pending reward and the snapshot is moved to the current index.
    pub open spec fn settled(self, state: State) -> StakerInfo {
        StakerInfo {
            reward_index: state.global_reward_index,
            pending_reward: (self.pending_reward + self.accrued(state)) as u128,
            ..self
        }
    }
}

/// The key under which a participant's record is kept: the address itself.
pub fn staker_info_key(address: &String) -> (key: String)
    ensures
        key@ == address@,
{
    address.clone()
}

} // verus!
