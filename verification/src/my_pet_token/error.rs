use vstd::prelude::*;
use crate::chain::CommonError;

verus! {

/// Why the token ledger refused an operation.
#[derive(Clone, Debug, PartialEq, Eq)]
pub enum ContractError {
    /// An error that is not particular to this ledger. A balance or an
    /// allowance that does not suffice is reported here, as the overflow of
    /// a subtraction.
    Std(CommonError),
    /// The caller may not do this.
    Unauthorized {},
    CannotSetOwnAccount {},
    InvalidZeroAmount {},
    /// The allowance has ended.
    Expired {},
    /// The owner has approved nothing for this spender.
    NoAllowance {},
    CannotExceedCap {},
    /// The expiration given has already been reached.
    InvalidExpiration {},
    /// An account occurs twice among the initial balances.
    DuplicateInitialBalanceAddresses {},
    /// The mint would issue more than the window still allows.
    TokenLimitReached {},
}

impl ContractError {
    /// The description of the error.
    pub open spec fn description(&self) -> Seq<char> {
        match *self {
            ContractError::Std(e) => e.description(),
            ContractError::Unauthorized {  } => "Unauthorized"@,
            ContractError::CannotSetOwnAccount {  } => "Cannot set to own account"@,
            ContractError::InvalidZeroAmount {  } => "Invalid zero amount"@,
            ContractError::Expired {  } => "Allowance is expired"@,
            ContractError::NoAllowance {  } => "No allowance for this account"@,
            ContractError::CannotExceedCap {  } => "Minting cannot exceed the cap"@,
            ContractError::InvalidExpiration {  } => "Invalid expiration value"@,
            ContractError::DuplicateInitialBalanceAddresses {  } => "Duplicate initial balance addresses"@,
            ContractError::TokenLimitReached {  } => "Token limit of 1M per day for pet staking has been reached"@,
        }
    }

    pub fn to_string(&self) -> (r: String)
        ensures
            r@ == self.description(),
    {
        match self {
            ContractError::Std(e) => e.to_string(),
            ContractError::Unauthorized {  } => "Unauthorized".to_owned(),
            ContractError::CannotSetOwnAccount {  } => "Cannot set to own account".to_owned(),
            ContractError::InvalidZeroAmount {  } => "Invalid zero amount".to_owned(),
            ContractError::Expired {  } => "Allowance is expired".to_owned(),
            ContractError::NoAllowance {  } => "No allowance for this account".to_owned(),
            ContractError::CannotExceedCap {  } => "Minting cannot exceed the cap".to_owned(),
            ContractError::InvalidExpiration {  } => "Invalid expiration value".to_owned(),
            ContractError::DuplicateInitialBalanceAddresses {  } => "Duplicate initial balance addresses".to_owned(),
            ContractError::TokenLimitReached {  } => "Token limit of 1M per day for pet staking has been reached".to_owned(),
        }
    }
}

/// The error of a subtraction that would go below zero.
pub open spec fn insufficient() -> ContractError {
    ContractError::Std(CommonError::Overflow { operation: crate::chain::OverflowOperation::Sub })
}

/// The error of an addition that leaves the range of an amount.
pub open spec fn overflow() -> ContractError {
    ContractError::Std(CommonError::Overflow { operation: crate::chain::OverflowOperation::Add })
}

} // verus!
