//! The exchange between the two ledgers as the host runs it. An operation
//! of the staking ledger sends one request to the token ledger; the host
//! carries the request out there in the name of the staking ledger, and
//! both ledgers change or neither does.

use vstd::prelude::*;
use crate::bindings::cw20_execute_json;
use crate::chain::{CommonError, ContractInfo, Env, MessageInfo};
use crate::interface::Cw20Request;
use crate::my_pet_token::allowances::{after_transfer_from, execute_transfer_from, transfer_from_error};
use crate::my_pet_token::contract::{after_mint, after_transfer, execute_mint, execute_transfer, mint_error};
use crate::my_pet_token::error::ContractError as TokenError;
use crate::my_pet_token::state::TokenLedger;
use crate::pet_staking::contract::{
    after_stake, after_withdraw, mint, stake, stake_refusal, withdraw, withdraw_refusal,
};
use crate::pet_staking::error::ContractError as StakingError;
use crate::pet_staking::state::{StakingLedger, StakingLedgerView};
use crate::sums::{amount_of, lemma_sum_bounds};

verus! {

/// Which ledger refused an operation, and why.
#[derive(Clone, Debug, PartialEq, Eq)]
pub enum Refusal {
    Staking(StakingError),
    Token(TokenError),
}

/// The account of the token ledger that `staking` knows; empty where it
/// knows none.
fn token_address(staking: &StakingLedger) -> (r: String)
    ensures
        r@ == match staking@.token {
            Some(token) => token,
            None => Seq::<char>::empty(),
        },
{
    match staking.config() {
        Some(config) => config.addr.clone(),
        None => String::new(),
    }
}

/// Why the staking ledger refuses to stake, if it does: on account of what
/// it holds, or because the request could not be written.
pub open spec fn stake_refused(staking: StakingLedgerView, staker: Seq<char>, custody: Seq<char>, amount: u128) -> Option<
    StakingError,
> {
    match stake_refusal(staking, staker, amount) {
        Some(e) => Some(e),
        None => if cw20_execute_json(
            Cw20Request::TransferFrom { owner: staker, recipient: custody, amount },
        ) is None {
            Some(StakingError::Std(CommonError::SerializeErr {  }))
        } else {
            None
        },
    }
}

/// Stakes `amount` for the caller and collects the tokens: the staking
/// ledger, whose account is `env.contract.address`, takes them from the
/// caller's account in `token` on the allowance that the caller has given
/// it. Where either ledger refuses, both stay as they were.
pub fn settle_stake(
    staking: &mut StakingLedger,
    token: &mut TokenLedger,
    env: Env,
    info: MessageInfo,
    amount: u128,
) -> (r: Result<(), Refusal>)
    requires
        old(staking).wf(),
        old(token).wf(),
    ensures
        final(staking).wf(),
        final(token).wf(),
        r is Err ==> final(staking)@ == old(staking)@ && final(token)@ == old(token)@,
        match stake_refused(old(staking)@, info.sender@, env.contract.address@, amount) {
            Some(e) => r == Err::<(), Refusal>(Refusal::Staking(e)),
            None => match transfer_from_error(
                old(token)@,
                env.block,
                env.contract.address@,
                info.sender@,
                amount,
            ) {
                Some(e) => r == Err::<(), Refusal>(Refusal::Token(e)),
                None => r is Ok && final(staking)@ == after_stake(old(staking)@, info.sender@, amount)
                    && final(token)@ == after_transfer_from(
                    old(token)@,
                    env.contract.address@,
                    info.sender@,
                    env.contract.address@,
                    amount,
                ),
            },
        },
{
    let staker = info.sender.clone();
    let custody = env.contract.address.clone();
    let at_token = Env { block: env.block, contract: ContractInfo { address: token_address(staking) } };
    proof {
        staking.lemma_inv();
    }
    match stake(staking, env, info, amount) {
        Err(e) => {
            return Err(Refusal::Staking(e));
        },
        Ok(_) => {},
    }
    match execute_transfer_from(
        token,
        at_token,
        MessageInfo { sender: custody.clone() },
        staker.clone(),
        custody,
        amount,
    ) {
        Ok(_) => Ok(()),
        Err(e) => {
            staking.remove_stake(&staker, amount);
            assert(staking@.balances =~= old(staking)@.balances);
            Err(Refusal::Token(e))
        },
    }
}

/// Why the staking ledger refuses a withdrawal, if it does: on account of
/// what it holds, or because the request could not be written.
pub open spec fn withdraw_refused(staking: StakingLedgerView, staker: Seq<char>, amount: u128) -> Option<StakingError> {
    match withdraw_refusal(staking, staker, amount) {
        Some(e) => Some(e),
        None => if cw20_execute_json(Cw20Request::Transfer { recipient: staker, amount }) is None {
            Some(StakingError::Std(CommonError::SerializeErr {  }))
        } else {
            None
        },
    }
}

/// Withdraws `amount` of the caller's stake and pays it out: the staking
/// ledger, whose account is `env.contract.address`, transfers the tokens
/// from its account in `token` to the caller. Where either ledger
/// refuses, both stay as they were.
pub fn settle_withdraw(
    staking: &mut StakingLedger,
    token: &mut TokenLedger,
    env: Env,
    info: MessageInfo,
    amount: u128,
) -> (r: Result<(), Refusal>)
    requires
        old(staking).wf(),
        old(token).wf(),
    ensures
        final(staking).wf(),
        final(token).wf(),
        r is Err ==> final(staking)@ == old(staking)@ && final(token)@ == old(token)@,
        match withdraw_refused(old(staking)@, info.sender@, amount) {
            Some(e) => r == Err::<(), Refusal>(Refusal::Staking(e)),
            None => if amount > amount_of(old(token)@.balances, env.contract.address@) {
                r == Err::<(), Refusal>(Refusal::Token(crate::my_pet_token::error::insufficient()))
            } else {
                r is Ok && final(staking)@ == after_withdraw(old(staking)@, info.sender@, amount)
                    && final(token)@ == after_transfer(
                    old(token)@,
                    env.contract.address@,
                    info.sender@,
                    amount,
                )
            },
        },
{
    let staker = info.sender.clone();
    let custody = env.contract.address.clone();
    let at_token = Env { block: env.block, contract: ContractInfo { address: token_address(staking) } };
    proof {
        staking.lemma_inv();
        lemma_sum_bounds(staking@.balances, staker@);
    }
    match withdraw(staking, env, info, amount) {
        Err(e) => {
            return Err(Refusal::Staking(e));
        },
        Ok(_) => {},
    }
    match execute_transfer(token, at_token, MessageInfo { sender: custody }, staker.clone(), amount) {
        Ok(_) => Ok(()),
        Err(e) => {
            staking.add_stake(&staker, amount);
            assert(staking@.balances =~= old(staking)@.balances);
            Err(Refusal::Token(e))
        },
    }
}

/// Why the staking ledger refuses to ask for a mint, if it does: it does
/// not know the token ledger, or the request could not be written.
pub open spec fn mint_refused(staking: StakingLedgerView, caller: Seq<char>, amount: u128) -> Option<StakingError> {
    if staking.token is None {
        Some(StakingError::Unauthorized {  })
    } else if cw20_execute_json(Cw20Request::Mint { recipient: caller, amount }) is None {
        Some(StakingError::Std(CommonError::SerializeErr {  }))
    } else {
        None
    }
}

/// Asks for `amount` new tokens for the caller and has them minted: the
/// token ledger sees the request come from the staking ledger, whose
/// account is `env.contract.address`, and mints only where that account is
/// the minter. The staking ledger stays as it was in any case, and the
/// token ledger does where either refuses.
pub fn settle_mint(
    staking: &mut StakingLedger,
    token: &mut TokenLedger,
    env: Env,
    info: MessageInfo,
    amount: u128,
) -> (r: Result<(), Refusal>)
    requires
        old(staking).wf(),
        old(token).wf(),
    ensures
        final(staking).wf(),
        final(token).wf(),
        final(staking)@ == old(staking)@,
        r is Err ==> final(token)@ == old(token)@,
        match mint_refused(old(staking)@, info.sender@, amount) {
            Some(e) => r == Err::<(), Refusal>(Refusal::Staking(e)),
            None => match mint_error(old(token)@, env.block.time, env.contract.address@, amount) {
                Some(e) => r == Err::<(), Refusal>(Refusal::Token(e)),
                None => r is Ok && final(token)@ == after_mint(
                    old(token)@,
                    env.block.time,
                    info.sender@,
                    amount,
                ),
            },
        },
{
    let caller = info.sender.clone();
    let custody = env.contract.address.clone();
    let at_token = Env { block: env.block, contract: ContractInfo { address: token_address(staking) } };
    match mint(staking, env, info, amount) {
        Err(e) => {
            return Err(Refusal::Staking(e));
        },
        Ok(_) => {},
    }
    match execute_mint(token, at_token, MessageInfo { sender: custody }, caller, amount) {
        Ok(_) => Ok(()),
        Err(e) => Err(Refusal::Token(e)),
    }
}

} // verus!
