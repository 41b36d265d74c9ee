//! The calls that the ledgers make into the CosmWasm crates and into
//! `semver`. Verus does not see those crates: what is stated of each call
//! here is taken from the crate's source and is not proved.

use vstd::prelude::*;
use cosmwasm_std::Uint128;
use crate::chain::{BlockInfo, Expiration};
use crate::interface::{Cw20ExecuteMsg, Cw20Request};

verus! {

/// `cosmwasm_std::OverflowError`, the error of its checked arithmetic.
/// Nothing is known of what a value of it holds.
#[verifier::external_type_specification]
#[verifier::external_body]
pub struct ExOverflowError(cosmwasm_std::OverflowError);

/// `cosmwasm_std::StdError`, the error of its other calls. Nothing is
/// known of what a value of it holds.
#[verifier::external_type_specification]
#[verifier::external_body]
pub struct ExStdError(cosmwasm_std::StdError);

/// `cosmwasm_std::Uint128::checked_add`: the sum of two amounts, or an error
/// where the sum does not fit in 128 bits.
#[verifier::external_body]
pub(crate) fn checked_add(a: u128, b: u128) -> (r: Result<u128, cosmwasm_std::OverflowError>)
    ensures
        r is Ok <==> a + b <= u128::MAX,
        r matches Ok(sum) ==> sum == a + b,
{
    Uint128::new(a).checked_add(Uint128::new(b)).map(|sum| sum.u128())
}

/// `cosmwasm_std::Uint128::checked_sub`: the difference of two amounts, or an
/// error where the second is the larger.
#[verifier::external_body]
pub(crate) fn checked_sub(a: u128, b: u128) -> (r: Result<u128, cosmwasm_std::OverflowError>)
    ensures
        r is Ok <==> a >= b,
        r matches Ok(rest) ==> rest == a - b,
{
    Uint128::new(a).checked_sub(Uint128::new(b)).map(|rest| rest.u128())
}

/// `cw_utils::Expiration::is_expired`: a height or a time has been reached
/// once the block's is at least as large; `Never` is never reached.
#[verifier::external_body]
pub(crate) fn is_expired(expiration: Expiration, block: BlockInfo) -> (r: bool)
    ensures
        r == expiration.expired_at(block),
{
    let time = cosmwasm_std::Timestamp::from_nanos(block.time.nanos);
    let theirs = match expiration {
        Expiration::AtHeight(h) => cw_utils::Expiration::AtHeight(h),
        Expiration::AtTime(t) => cw_utils::Expiration::AtTime(cosmwasm_std::Timestamp::from_nanos(t.nanos)),
        Expiration::Never {  } => cw_utils::Expiration::Never {  },
    };
    theirs.is_expired(&cosmwasm_std::BlockInfo { height: block.height, time, chain_id: String::new() })
}

/// The JSON text that `cosmwasm_std::to_json_binary` gives for a request to
/// the token ledger, or `None` where it reports an error.
pub uninterp spec fn cw20_execute_json(msg: Cw20Request) -> Option<Seq<u8>>;

/// `cosmwasm_std::to_json_binary` on a `cw20::Cw20ExecuteMsg`: the bytes
/// depend on the request alone.
#[verifier::external_body]
pub(crate) fn cw20_execute_to_json(msg: &Cw20ExecuteMsg) -> (r: Result<Vec<u8>, cosmwasm_std::StdError>)
    ensures
        r matches Ok(bytes) ==> cw20_execute_json(msg@) == Some(bytes@),
        r is Err ==> cw20_execute_json(msg@) is None,
{
    let theirs = match msg.clone() {
        Cw20ExecuteMsg::Transfer { recipient, amount } => cw20::Cw20ExecuteMsg::Transfer { recipient, amount: Uint128::new(amount) },
        Cw20ExecuteMsg::TransferFrom { owner, recipient, amount } => cw20::Cw20ExecuteMsg::TransferFrom { owner, recipient, amount: Uint128::new(amount) },
        Cw20ExecuteMsg::Mint { recipient, amount } => cw20::Cw20ExecuteMsg::Mint { recipient, amount: Uint128::new(amount) },
    };
    cosmwasm_std::to_json_binary(&theirs).map(|binary| binary.0)
}

/// The JSON text that `cw20::Cw20ReceiveMsg::into_binary` gives for a
/// notice of received tokens, or `None` where it reports an error.
pub uninterp spec fn cw20_receive_json(sender: Seq<char>, amount: u128, msg: Seq<u8>) -> Option<Seq<u8>>;

/// `cw20::Cw20ReceiveMsg::into_binary`: the bytes depend on the sender, the
/// amount and the attached message alone.
#[verifier::external_body]
pub(crate) fn cw20_receive_to_json(sender: &String, amount: u128, msg: &Vec<u8>) -> (r: Result<Vec<u8>, cosmwasm_std::StdError>)
    ensures
        r matches Ok(bytes) ==> cw20_receive_json(sender@, amount, msg@) == Some(bytes@),
        r is Err ==> cw20_receive_json(sender@, amount, msg@) is None,
{
    let theirs = cw20::Cw20ReceiveMsg {
        sender: sender.clone(),
        amount: Uint128::new(amount),
        msg: cosmwasm_std::Binary(msg.clone()),
    };
    theirs.into_binary().map(|binary| binary.0)
}

/// Whether the version `version` stands before the version `bound` in the
/// order that `semver` gives to the versions it reads, which goes by major,
/// minor, patch, pre-release and then build metadata; `None` where it
/// cannot read one of the two.
pub uninterp spec fn semver_precedes(version: Seq<char>, bound: Seq<char>) -> Option<bool>;

/// `semver::Version::parse` on both texts and `<` on the versions read.
#[verifier::external_body]
pub(crate) fn version_precedes(version: &str, bound: &str) -> (r: Option<bool>)
    ensures
        r == semver_precedes(version@, bound@),
{
    let version = semver::Version::parse(version).ok()?;
    let bound = semver::Version::parse(bound).ok()?;
    Some(version < bound)
}

} // verus!
