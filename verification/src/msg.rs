//! What callers send in and what they get back.

use vstd::prelude::*;
use crate::math::Decimal;
use crate::schedule::Slot;

verus! {

/// The settings a pool starts with.
#[derive(Clone, Debug, PartialEq)]
pub struct InstantiateMsg {
    pub lp_token_contract: String,
    pub reward_token_contract: String,
    pub distribution_schedule: Vec<Slot>,
}

/// The instruction that may accompany a notification of received tokens.
#[derive(Clone, Copy, Debug, PartialEq, Eq)]
pub enum Cw20HookMsg {
    Bond {  },
}

/// A notification that `sender` moved `amount` tokens to the pool. `msg` is
/// the accompanying instruction, or `None` where it could not be read.
#[derive(Clone, Debug, PartialEq)]
pub struct Cw20ReceiveMsg {
    pub sender: String,
    pub amount: u128,
    pub msg: Option<Cw20HookMsg>,
}

/// The commands of the pool.
#[derive(Clone, Debug, PartialEq)]
pub enum ExecuteMsg {
    Receive(Cw20ReceiveMsg),
    Unbond { amount: u128 },
    Withdraw {  },
    UpdateConfig { distribution_schedule: Vec<Slot> },
    MigrateStaking { new_staking_contract: String },
    UpdateAdmin { admin: String },
    UpdateTokenContract { lp_token_contract: String, reward_token_contract: String },
}

/// The read-only questions. A `block_time` asks for the answer as it would
/// be at that time, without committing anything.
#[derive(Clone, Debug, PartialEq)]
pub enum QueryMsg {
    Config {  },
    State { block_time: Option<u64> },
    StakerInfo { staker: String, block_time: Option<u64> },
}

/// The message of a code upgrade; it carries nothing.
#[derive(Clone, Copy, Debug, PartialEq, Eq)]
pub struct MigrateMsg {}

/// The current time together with the time from which a claim is possible.
#[derive(Clone, Copy, Debug, PartialEq, Eq, Structural)]
pub struct TimeInfo {
    pub crr_time: u64,
    pub claimable_time: u64,
}

#[derive(Clone, Debug, PartialEq)]
pub struct ConfigResponse {
    pub lp_token_contract: String,
    pub reward_token_contract: String,
    pub distribution_schedule: Vec<Slot>,
    pub admin: String,
}

#[derive(Clone, Copy, Debug, PartialEq, Eq, Structural)]
pub struct StateResponse {
    pub last_distributed: u64,
    pub total_bond_amount: u128,
    pub global_reward_index: Decimal,
}

#[derive(Clone, Debug, PartialEq)]
pub struct StakerInfoResponse {
    pub staker: String,
    pub reward_index: Decimal,
    pub bond_amount: u128,
    pub pending_reward: u128,
}

/// An answer to a [`QueryMsg`].
#[derive(Clone, Debug, PartialEq)]
pub enum QueryResponse {
    Config(ConfigResponse),
    State(StateResponse),
    StakerInfo(StakerInfoResponse),
}

/// An instruction to the token contract at `contract_addr` to move `amount`
/// of its tokens from the pool to `recipient`.
#[derive(Clone, Debug, PartialEq)]
pub struct Transfer {
    pub contract_addr: String,
    pub recipient: String,
    pub amount: u128,
}

/// What an entry point did.
#[derive(Clone, Copy, Debug, PartialEq, Eq, Structural)]
pub enum Action {
    Instantiate,
    Bond,
    Unbond,
    Withdraw,
    MigrateStaking,
    UpdateConfig,
    UpdateAdmin,
}

/// One entry of the log that an entry point leaves.
#[derive(Clone, Debug, PartialEq)]
pub enum Attribute {
    Action(Action),
    Owner(String),
    Amount(u128),
    DistributedAmount(u128),
    RemainingAmount(u128),
}

/// The outcome of an accepted call: the transfers to carry out and a log of
/// what was done.
#[derive(Clone, Debug, PartialEq)]
pub struct Response {
    pub messages: Vec<Transfer>,
    pub attributes: Vec<Attribute>,
}

/// The single transfer of `amount` tokens of `contract_addr` to `recipient`.
pub open spec fn transfer_of(contract_addr: String, recipient: String, amount: u128) -> Seq<
    Transfer,
> {
    seq![Transfer { contract_addr, recipient, amount }]
}

/// The log of an action that takes no further note.
pub open spec fn action_log(action: Action) -> Seq<Attribute> {
    seq![Attribute::Action(action)]
}

/// The log of an action of `owner` on `amount` tokens.
pub open spec fn owner_log(action: Action, owner: String, amount: u128) -> Seq<Attribute> {
    seq![Attribute::Action(action), Attribute::Owner(owner), Attribute::Amount(amount)]
}

/// The log of a wind-up that found `distributed` tokens released and
/// `remaining` tokens left.
pub open spec fn migration_log(distributed: u128, remaining: u128) -> Seq<Attribute> {
    seq![
        Attribute::Action(Action::MigrateStaking),
        Attribute::DistributedAmount(distributed),
        Attribute::RemainingAmount(remaining),
    ]
}

} // verus!
