//! Allowances: what an owner lets a spender take from the owner's account.

use vstd::prelude::*;
use crate::bindings::{checked_add, checked_sub, is_expired};
use crate::chain::{BlockInfo, CommonError, Env, Expiration, MessageInfo, OverflowOperation, Response};
use crate::interface::{no_allowance, AllowanceResponse};
use crate::my_pet_token::contract::{credited, quiet_ok};
use crate::my_pet_token::error::{insufficient, overflow, ContractError};
use crate::my_pet_token::state::{allowance_of, moved, with_allowance, TokenLedger, TokenLedgerView};
use crate::order::PairKey;
use crate::sums::amount_of;

verus! {

/// The ledger after the allowance of `spender` on the account of `owner`
/// has been set to `value`, in both indices.
pub open spec fn after_approval(pre: TokenLedgerView, owner: Seq<char>, spender: Seq<char>, value: AllowanceResponse) -> TokenLedgerView {
    TokenLedgerView {
        allowances: with_allowance(pre.allowances, owner, spender, value),
        allowances_spender: with_allowance(pre.allowances_spender, spender, owner, value),
        ..pre
    }
}

/// The expiration in force after an operation that may give a new one.
pub open spec fn replaced(stored: Expiration, expires: Option<Expiration>) -> Expiration {
    match expires {
        Some(e) => e,
        None => stored,
    }
}

/// Why a rise of an allowance is refused, if it is: the expiration given
/// has been reached already, or the allowance would leave the range of an
/// amount.
pub open spec fn increase_error(
    pre: TokenLedgerView,
    block: BlockInfo,
    owner: Seq<char>,
    spender: Seq<char>,
    amount: u128,
    expires: Option<Expiration>,
) -> Option<ContractError> {
    if expires matches Some(e) && e.expired_at(block) {
        Some(ContractError::InvalidExpiration {  })
    } else if allowance_of(pre.allowances, owner, spender).allowance + amount > u128::MAX {
        Some(overflow())
    } else {
        None
    }
}

/// The ledger after `owner` has let `spender` take `amount` more.
pub open spec fn after_increase(
    pre: TokenLedgerView,
    owner: Seq<char>,
    spender: Seq<char>,
    amount: u128,
    expires: Option<Expiration>,
) -> TokenLedgerView {
    let stored = allowance_of(pre.allowances, owner, spender);
    after_approval(
        pre,
        owner,
        spender,
        AllowanceResponse {
            allowance: (stored.allowance + amount) as u128,
            expires: replaced(stored.expires, expires),
        },
    )
}

/// The allowance that the ledger holds for `spender` on the account of
/// `owner`, or the absence of one.
fn stored_allowance(state: &TokenLedger, owner: &String, spender: &String) -> (r: Option<AllowanceResponse>)
    requires
        state.wf(),
    ensures
        r == if state@.allowances.contains_key((owner@, spender@)) {
            Some(state@.allowances[(owner@, spender@)])
        } else {
            None::<AllowanceResponse>
        },
{
    let key = PairKey { first: owner.clone(), second: spender.clone() };
    state.allowances().get(&key)
}

/// Lets `spender` take `amount` more from the caller's account. An
/// expiration, if given, replaces the one in force; one that has been
/// reached already is refused.
pub fn execute_increase_allowance(
    state: &mut TokenLedger,
    env: Env,
    info: MessageInfo,
    spender: String,
    amount: u128,
    expires: Option<Expiration>,
) -> (r: Result<Response, ContractError>)
    requires
        old(state).wf(),
    ensures
        final(state).wf(),
        old(state)@.mirrored() ==> final(state)@.mirrored(),
        match increase_error(old(state)@, env.block, info.sender@, spender@, amount, expires) {
            Some(e) => r == Err::<Response, ContractError>(e) && final(state)@ == old(state)@,
            None => quiet_ok(r) && final(state)@ == after_increase(
                old(state)@,
                info.sender@,
                spender@,
                amount,
                expires,
            ),
        },
{
    let mut val = match stored_allowance(state, &info.sender, &spender) {
        Some(a) => a,
        None => AllowanceResponse::none(),
    };
    if let Some(exp) = expires {
        if is_expired(exp, env.block) {
            return Err(ContractError::InvalidExpiration {  });
        }
        val.expires = exp;
    }
    match checked_add(val.allowance, amount) {
        Ok(sum) => {
            val.allowance = sum;
        },
        Err(_) => {
            return Err(ContractError::Std(CommonError::Overflow { operation: OverflowOperation::Add }));
        },
    }
    state.set_allowance(&info.sender, &spender, val);
    Ok(Response::new())
}

/// Why a cut of an allowance is refused, if it is: the allowance is less
/// than `amount`, or the expiration given has been reached already.
pub open spec fn decrease_error(
    pre: TokenLedgerView,
    block: BlockInfo,
    owner: Seq<char>,
    spender: Seq<char>,
    amount: u128,
    expires: Option<Expiration>,
) -> Option<ContractError> {
    if amount > allowance_of(pre.allowances, owner, spender).allowance {
        Some(insufficient())
    } else if expires matches Some(e) && e.expired_at(block) {
        Some(ContractError::InvalidExpiration {  })
    } else {
        None
    }
}

/// The ledger after `owner` has let `spender` take `amount` less. An
/// allowance of zero that never ends is no allowance, and is not kept.
pub open spec fn after_decrease(
    pre: TokenLedgerView,
    owner: Seq<char>,
    spender: Seq<char>,
    amount: u128,
    expires: Option<Expiration>,
) -> TokenLedgerView {
    let stored = allowance_of(pre.allowances, owner, spender);
    after_approval(
        pre,
        owner,
        spender,
        AllowanceResponse {
            allowance: (stored.allowance - amount) as u128,
            expires: replaced(stored.expires, expires),
        },
    )
}

/// A rise of an allowance followed by a cut of the same amount, neither
/// with an expiration, is not refused and gives back the allowance that
/// was there: the record as it was, or none where there was none. Where
/// the two indices held the same, the whole ledger is as it was.
pub proof fn lemma_increase_then_decrease(
    pre: TokenLedgerView,
    block: BlockInfo,
    later: BlockInfo,
    owner: Seq<char>,
    spender: Seq<char>,
    amount: u128,
)
    requires
        pre.inv(),
        increase_error(pre, block, owner, spender, amount, None) is None,
    ensures
        ({
            let raised = after_increase(pre, owner, spender, amount, None);
            &&& decrease_error(raised, later, owner, spender, amount, None) is None
            &&& after_decrease(raised, owner, spender, amount, None).allowances == pre.allowances
            &&& pre.mirrored() ==> after_decrease(raised, owner, spender, amount, None) == pre
        }),
{
    let raised = after_increase(pre, owner, spender, amount, None);
    let back = after_decrease(raised, owner, spender, amount, None);
    let stored = allowance_of(pre.allowances, owner, spender);
    assert(allowance_of(raised.allowances, owner, spender).allowance == stored.allowance + amount);
    assert(allowance_of(raised.allowances, owner, spender).expires == stored.expires);
    assert(back.allowances =~= pre.allowances);
    if pre.mirrored() {
        assert(pre.allowances.contains_key((owner, spender)) <==> pre.allowances_spender.contains_key(
            (spender, owner),
        ));
        assert(back.allowances_spender =~= pre.allowances_spender);
    }
}

/// Lets `spender` take `amount` less from the caller's account. An
/// expiration, if given, replaces the one in force.
pub fn execute_decrease_allowance(
    state: &mut TokenLedger,
    env: Env,
    info: MessageInfo,
    spender: String,
    amount: u128,
    expires: Option<Expiration>,
) -> (r: Result<Response, ContractError>)
    requires
        old(state).wf(),
    ensures
        final(state).wf(),
        old(state)@.mirrored() ==> final(state)@.mirrored(),
        match decrease_error(old(state)@, env.block, info.sender@, spender@, amount, expires) {
            Some(e) => r == Err::<Response, ContractError>(e) && final(state)@ == old(state)@,
            None => quiet_ok(r) && final(state)@ == after_decrease(
                old(state)@,
                info.sender@,
                spender@,
                amount,
                expires,
            ),
        },
{
    let mut val = match stored_allowance(state, &info.sender, &spender) {
        Some(a) => a,
        None => AllowanceResponse::none(),
    };
    match checked_sub(val.allowance, amount) {
        Ok(rest) => {
            val.allowance = rest;
        },
        Err(_) => {
            return Err(ContractError::Std(CommonError::Overflow { operation: OverflowOperation::Sub }));
        },
    }
    if let Some(exp) = expires {
        if is_expired(exp, env.block) {
            return Err(ContractError::InvalidExpiration {  });
        }
        val.expires = exp;
    }
    state.set_allowance(&info.sender, &spender, val);
    Ok(Response::new())
}

/// Why a transfer on an allowance is refused, if it is: the owner has given
/// the spender none, it has ended, it is less than `amount`, or the owner
/// holds less than `amount`.
pub open spec fn transfer_from_error(
    pre: TokenLedgerView,
    block: BlockInfo,
    spender: Seq<char>,
    owner: Seq<char>,
    amount: u128,
) -> Option<ContractError> {
    if !pre.allowances.contains_key((owner, spender)) {
        Some(ContractError::NoAllowance {  })
    } else if pre.allowances[(owner, spender)].expires.expired_at(block) {
        Some(ContractError::Expired {  })
    } else if amount > pre.allowances[(owner, spender)].allowance {
        Some(insufficient())
    } else if amount > amount_of(pre.balances, owner) {
        Some(insufficient())
    } else {
        None
    }
}

/// What is left of the allowance `stored` once `amount` has been taken: an
/// allowance that has reached zero is no allowance any more.
pub open spec fn deducted(stored: AllowanceResponse, amount: u128) -> AllowanceResponse {
    if stored.allowance == amount {
        no_allowance()
    } else {
        AllowanceResponse { allowance: (stored.allowance - amount) as u128, expires: stored.expires }
    }
}

/// The ledger after `spender` has moved `amount` from `owner` to
/// `recipient`.
pub open spec fn after_transfer_from(
    pre: TokenLedgerView,
    spender: Seq<char>,
    owner: Seq<char>,
    recipient: Seq<char>,
    amount: u128,
) -> TokenLedgerView {
    TokenLedgerView {
        balances: moved(pre.balances, owner, recipient, amount),
        ..after_approval(pre, owner, spender, deducted(pre.allowances[(owner, spender)], amount))
    }
}

/// Moves `amount` from the account of `owner` to that of `recipient`,
/// against what `owner` has allowed the caller. Allowance and balances
/// change together or not at all.
pub fn execute_transfer_from(
    state: &mut TokenLedger,
    env: Env,
    info: MessageInfo,
    owner: String,
    recipient: String,
    amount: u128,
) -> (r: Result<Response, ContractError>)
    requires
        old(state).wf(),
    ensures
        final(state).wf(),
        old(state)@.mirrored() ==> final(state)@.mirrored(),
        match transfer_from_error(old(state)@, env.block, info.sender@, owner@, amount) {
            Some(e) => r == Err::<Response, ContractError>(e) && final(state)@ == old(state)@,
            None => quiet_ok(r) && final(state)@ == after_transfer_from(
                old(state)@,
                info.sender@,
                owner@,
                recipient@,
                amount,
            ),
        },
{
    let stored = match stored_allowance(state, &owner, &info.sender) {
        Some(a) => a,
        None => {
            return Err(ContractError::NoAllowance {  });
        },
    };
    if is_expired(stored.expires, env.block) {
        return Err(ContractError::Expired {  });
    }
    let rest = match checked_sub(stored.allowance, amount) {
        Ok(rest) => rest,
        Err(_) => {
            return Err(ContractError::Std(CommonError::Overflow { operation: OverflowOperation::Sub }));
        },
    };
    if checked_sub(state.balances().balance(&owner), amount).is_err() {
        return Err(ContractError::Std(CommonError::Overflow { operation: OverflowOperation::Sub }));
    }
    match credited(state, &owner, &recipient, amount) {
        Ok(_) => {},
        Err(e) => {
            return Err(e);
        },
    }
    let left = if rest == 0 {
        AllowanceResponse::none()
    } else {
        AllowanceResponse { allowance: rest, expires: stored.expires }
    };
    state.set_allowance(&owner, &info.sender, left);
    state.move_amount(&owner, &recipient, amount);
    Ok(Response::new())
}

/// The allowance in force in `block`: the recorded one while it has not
/// ended, else none.
pub open spec fn allowance_in_force(pre: TokenLedgerView, block: BlockInfo, owner: Seq<char>, spender: Seq<char>) -> AllowanceResponse {
    let stored = allowance_of(pre.allowances, owner, spender);
    if stored.expires.expired_at(block) {
        no_allowance()
    } else {
        stored
    }
}

/// What `spender` may take from the account of `owner` in the block of
/// `env`. An allowance that has ended counts as none, though its record is
/// still there.
pub fn query_allowance(state: &TokenLedger, env: &Env, owner: String, spender: String) -> (r: Result<
    AllowanceResponse,
    CommonError,
>)
    requires
        state.wf(),
    ensures
        r == Ok::<AllowanceResponse, CommonError>(
            allowance_in_force(state@, env.block, owner@, spender@),
        ),
{
    match stored_allowance(state, &owner, &spender) {
        Some(a) => {
            if is_expired(a.expires, env.block) {
                Ok(AllowanceResponse::none())
            } else {
                Ok(a)
            }
        },
        None => Ok(AllowanceResponse::none()),
    }
}

} // verus!
