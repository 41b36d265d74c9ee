use vstd::prelude::*;
use vstd::utf8::*;
use crate::chain::{CommonError, Expiration};
use crate::interface::{
    AllAccountsResponse, AllAllowancesResponse, AllSpenderAllowancesResponse, AllowanceResponse,
    BalanceResponse, Cw20Coin, TokenInfoResponse,
};
use crate::my_pet_token::state::PetStakingData;

verus! {

#[derive(Clone, Debug, PartialEq, Eq)]
pub enum ExecuteMsg {
    /// Moves tokens from the caller to another account.
    Transfer { recipient: String, amount: u128 },
    /// Lets the spender take `amount` more from the caller's account. An
    /// expiration, if given, replaces the one in force.
    IncreaseAllowance { spender: String, amount: u128, expires: Option<Expiration> },
    /// Lets the spender take `amount` less from the caller's account. An
    /// expiration, if given, replaces the one in force.
    DecreaseAllowance { spender: String, amount: u128, expires: Option<Expiration> },
    /// Moves tokens from the owner to the recipient, against what the owner
    /// has allowed the caller.
    TransferFrom { owner: String, recipient: String, amount: u128 },
    /// Creates new tokens in the recipient's account; for the minter only.
    Mint { recipient: String, amount: u128 },
    /// Hands the minter's role to another account; for the minter only.
    UpdateMinter { new_minter: String },
}

#[derive(Clone, Debug, PartialEq, Eq)]
pub struct InstantiateMsg {
    pub name: String,
    pub symbol: String,
    pub decimals: u8,
    pub initial_balances: Vec<Cw20Coin>,
    pub mint: String,
}

/// A byte that may stand in a ticker symbol: a hyphen or an ASCII letter.
pub open spec fn symbol_byte(b: u8) -> bool {
    b == 45 || 65 <= b <= 90 || 97 <= b <= 122
}

/// The name is 3 to 50 bytes long.
pub open spec fn valid_name(name: Seq<char>) -> bool {
    3 <= encode_utf8(name).len() <= 50
}

/// The symbol is 3 to 12 bytes long and made of hyphens and ASCII letters.
pub open spec fn valid_symbol(symbol: Seq<char>) -> bool {
    &&& 3 <= encode_utf8(symbol).len() <= 12
    &&& forall|i: int| 0 <= i < encode_utf8(symbol).len() ==> symbol_byte(#[trigger] encode_utf8(symbol)[i])
}

impl InstantiateMsg {
    /// The complaint about the first of name, symbol and decimals that is
    /// not as it must be.
    pub open spec fn complaint(&self) -> Option<Seq<char>> {
        if !valid_name(self.name@) {
            Some("Name is not in the expected format (3-50 UTF-8 bytes)"@)
        } else if !valid_symbol(self.symbol@) {
            Some("Ticker symbol is not in expected format [a-zA-Z\\-]{3,12}"@)
        } else if self.decimals > 18 {
            Some("Decimals must not exceed 18"@)
        } else {
            None
        }
    }

    pub fn validate(&self) -> (r: Result<(), CommonError>)
        ensures
            self.complaint() is None <==> r is Ok,
            r matches Err(e) ==> e matches CommonError::GenericErr { msg } && Some(msg@)
                == self.complaint(),
    {
        if !self.has_valid_name() {
            return Err(
                CommonError::GenericErr {
                    msg: "Name is not in the expected format (3-50 UTF-8 bytes)".to_owned(),
                },
            );
        }
        if !self.has_valid_symbol() {
            return Err(
                CommonError::GenericErr {
                    msg: "Ticker symbol is not in expected format [a-zA-Z\\-]{3,12}".to_owned(),
                },
            );
        }
        if self.decimals > 18 {
            return Err(CommonError::GenericErr { msg: "Decimals must not exceed 18".to_owned() });
        }
        Ok(())
    }

    pub fn has_valid_name(&self) -> (r: bool)
        ensures
            r == valid_name(self.name@),
    {
        let bytes = self.name.as_str().as_bytes();
        if bytes.len() < 3 || bytes.len() > 50 {
            return false;
        }
        true
    }

    pub fn has_valid_symbol(&self) -> (r: bool)
        ensures
            r == valid_symbol(self.symbol@),
    {
        let bytes = self.symbol.as_str().as_bytes();
        if bytes.len() < 3 || bytes.len() > 12 {
            return false;
        }
        let mut i: usize = 0;
        while i < bytes.len()
            invariant
                i <= bytes@.len(),
                bytes@ == encode_utf8(self.symbol@),
                forall|j: int| 0 <= j < i ==> symbol_byte(#[trigger] bytes@[j]),
            decreases bytes@.len() - i,
        {
            let byte = bytes[i];
            if (byte != 45) && (byte < 65 || byte > 90) && (byte < 97 || byte > 122) {
                return false;
            }
            i += 1;
        }
        true
    }
}

#[derive(Clone, Debug, PartialEq, Eq)]
pub enum QueryMsg {
    /// The balance of an account; zero where it has none.
    Balance { address: String },
    /// Name, symbol, decimals and total supply.
    TokenInfo {  },
    /// The account that may mint.
    Minter {  },
    /// What the spender may take from the owner's account.
    Allowance { owner: String, spender: String },
    /// The allowances that the owner has given, page by page.
    AllAllowances { owner: String, start_after: Option<String>, limit: Option<u32> },
    /// The allowances that the spender has been given, page by page.
    AllSpenderAllowances { spender: String, start_after: Option<String>, limit: Option<u32> },
    /// The accounts that hold tokens, page by page.
    AllAccounts { start_after: Option<String>, limit: Option<u32> },
    /// The mint window.
    PetStaking {  },
}

/// The answer to a query, one variant for each kind of query.
#[derive(Clone, Debug, PartialEq, Eq)]
pub enum QueryResponse {
    Balance(BalanceResponse),
    TokenInfo(TokenInfoResponse),
    Minter(String),
    Allowance(AllowanceResponse),
    AllAllowances(AllAllowancesResponse),
    AllSpenderAllowances(AllSpenderAllowancesResponse),
    AllAccounts(AllAccountsResponse),
    PetStaking(PetStakingData),
}

#[derive(Clone, Debug, PartialEq, Eq)]
pub struct MigrateMsg {}

} // verus!
