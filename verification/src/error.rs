//! The reasons for which an entry point refuses a call.

use vstd::prelude::*;

verus! {

/// Why a call was refused. A refused call changes nothing.
#[derive(Debug, PartialEq, Eq)]
pub enum ContractError {
    /// An amount, a ratio or a time difference left the range of its type.
    Overflow {  },
    /// The caller is not the configured admin.
    Unauthorized {  },
    /// A deposit was announced by a contract other than the bonded asset's.
    WrongContractError {  },
    /// A deposit notification carried no readable bond instruction.
    DataShouldBeGiven {  },
    /// The caller has no staking record.
    NotStaked {  },
    /// More was asked back than the caller has bonded.
    ExceedBondAmount {  },
    /// The new schedule has fewer slots than the current one.
    NotIncludeAllDistributionSchedule {  },
    /// The new schedule drops or alters a slot that has already started.
    NewScheduleRemovePastDistribution {  },
    /// The new schedule adds a slot that would already have started.
    NewScheduleAddPastDistribution {  },
    /// The stored contract is of another kind or version.
    CannotMigrate { previous_contract: String },
}

} // verus!
