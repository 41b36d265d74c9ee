//! The token ledger's interface as other contracts see it: the requests it
//! takes and the answers it gives.

use vstd::prelude::*;
use crate::chain::Expiration;

verus! {

/// The requests that the staking ledger sends to the token ledger.
#[derive(Clone, Debug, PartialEq, Eq)]
pub enum Cw20ExecuteMsg {
    Transfer { recipient: String, amount: u128 },
    TransferFrom { owner: String, recipient: String, amount: u128 },
    Mint { recipient: String, amount: u128 },
}

/// A request as a mathematical value.
pub enum Cw20Request {
    Transfer { recipient: Seq<char>, amount: u128 },
    TransferFrom { owner: Seq<char>, recipient: Seq<char>, amount: u128 },
    Mint { recipient: Seq<char>, amount: u128 },
}

impl View for Cw20ExecuteMsg {
    type V = Cw20Request;

    open spec fn view(&self) -> Cw20Request {
        match *self {
            Cw20ExecuteMsg::Transfer { recipient, amount } => Cw20Request::Transfer {
                recipient: recipient@,
                amount,
            },
            Cw20ExecuteMsg::TransferFrom { owner, recipient, amount } => Cw20Request::TransferFrom {
                owner: owner@,
                recipient: recipient@,
                amount,
            },
            Cw20ExecuteMsg::Mint { recipient, amount } => Cw20Request::Mint {
                recipient: recipient@,
                amount,
            },
        }
    }
}

/// An account and its balance, as given when a ledger is set up.
#[derive(Clone, Debug, PartialEq, Eq)]
pub struct Cw20Coin {
    pub address: String,
    pub amount: u128,
}

/// What a spender may still take from an owner's account, and until when.
#[derive(Clone, Copy, Debug, PartialEq, Eq, Structural)]
pub struct AllowanceResponse {
    pub allowance: u128,
    pub expires: Expiration,
}

#[derive(Clone, Copy, Debug, PartialEq, Eq, Structural)]
pub struct BalanceResponse {
    pub balance: u128,
}

#[derive(Clone, Debug, PartialEq, Eq)]
pub struct TokenInfoResponse {
    pub name: String,
    pub symbol: String,
    pub decimals: u8,
    pub total_supply: u128,
}

/// An allowance that an owner has given, with the spender it is for.
#[derive(Clone, Debug, PartialEq, Eq)]
pub struct AllowanceInfo {
    pub spender: String,
    pub allowance: u128,
    pub expires: Expiration,
}

#[derive(Clone, Debug, PartialEq, Eq)]
pub struct AllAllowancesResponse {
    pub allowances: Vec<AllowanceInfo>,
}

/// An allowance that a spender has been given, with the owner it is from.
#[derive(Clone, Debug, PartialEq, Eq)]
pub struct SpenderAllowanceInfo {
    pub owner: String,
    pub allowance: u128,
    pub expires: Expiration,
}

#[derive(Clone, Debug, PartialEq, Eq)]
pub struct AllSpenderAllowancesResponse {
    pub allowances: Vec<SpenderAllowanceInfo>,
}

#[derive(Clone, Debug, PartialEq, Eq)]
pub struct AllAccountsResponse {
    pub accounts: Vec<String>,
}

/// The absence of an allowance: nothing may be taken, at any time.
pub open spec fn no_allowance() -> AllowanceResponse {
    AllowanceResponse { allowance: 0, expires: Expiration::Never {  } }
}

impl AllowanceResponse {
    pub fn none() -> (r: AllowanceResponse)
        ensures
            r == no_allowance(),
    {
        AllowanceResponse { allowance: 0, expires: Expiration::Never {  } }
    }

    /// Nothing is allowed and nothing ends: the same as no record at all.
    pub fn is_none(&self) -> (r: bool)
        ensures
            r == (*self == no_allowance()),
    {
        self.allowance == 0 && matches!(self.expires, Expiration::Never {  })
    }
}

} // verus!
