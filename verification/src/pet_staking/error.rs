use vstd::prelude::*;
use crate::chain::{CommonError, OverflowOperation};

verus! {

/// Why a change of the admin was refused.
#[derive(Clone, Debug, PartialEq, Eq)]
pub enum AdminError {
    Std(CommonError),
    /// The caller is not the admin.
    NotAdmin {},
}

/// Why the staking ledger refused an operation.
#[derive(Clone, Debug, PartialEq, Eq)]
pub enum ContractError {
    /// An error that is not particular to this ledger. A stake that does
    /// not suffice is reported here, as the overflow of a subtraction; a
    /// stake or a total that would leave the range of an amount, as the
    /// overflow of an addition.
    Std(CommonError),
    Admin(AdminError),
    /// The ledger does not know the token ledger.
    Unauthorized {},
    /// The ledger has not been set up.
    NoData {},
    /// Less is staked in all than the withdrawal asks for.
    NoFunds {},
}

impl AdminError {
    /// The description of the error.
    pub open spec fn description(&self) -> Seq<char> {
        match *self {
            AdminError::Std(e) => e.description(),
            AdminError::NotAdmin {  } => "Caller is not admin"@,
        }
    }

    pub fn to_string(&self) -> (r: String)
        ensures
            r@ == self.description(),
    {
        match self {
            AdminError::Std(e) => e.to_string(),
            AdminError::NotAdmin {  } => "Caller is not admin".to_owned(),
        }
    }
}

impl ContractError {
    /// The description of the error.
    pub open spec fn description(&self) -> Seq<char> {
        match *self {
            ContractError::Std(e) => e.description(),
            ContractError::Admin(e) => e.description(),
            ContractError::Unauthorized {  } => "Unauthorized"@,
            ContractError::NoData {  } => "No data"@,
            ContractError::NoFunds {  } => "No funds"@,
        }
    }

    pub fn to_string(&self) -> (r: String)
        ensures
            r@ == self.description(),
    {
        match self {
            ContractError::Std(e) => e.to_string(),
            ContractError::Admin(e) => e.to_string(),
            ContractError::Unauthorized {  } => "Unauthorized".to_owned(),
            ContractError::NoData {  } => "No data".to_owned(),
            ContractError::NoFunds {  } => "No funds".to_owned(),
        }
    }
}

/// The error of a subtraction that would go below zero.
pub open spec fn insufficient() -> ContractError {
    ContractError::Std(CommonError::Overflow { operation: OverflowOperation::Sub })
}

/// The error of an addition that leaves the range of an amount.
pub open spec fn overflow() -> ContractError {
    ContractError::Std(CommonError::Overflow { operation: OverflowOperation::Add })
}

} // verus!
