//! What the host chain hands to a ledger with each operation, and what a
//! ledger hands back: block data, the caller, outbound messages, errors.

use vstd::prelude::*;

verus! {

/// A point in time, in nanoseconds since the epoch.
#[derive(Clone, Copy, Debug, PartialEq, Eq, Structural)]
pub struct Timestamp {
    pub nanos: u64,
}

/// The block in which an operation runs.
#[derive(Clone, Copy, Debug, PartialEq, Eq, Structural)]
pub struct BlockInfo {
    pub height: u64,
    pub time: Timestamp,
}

/// The ledger instance that runs an operation.
#[derive(Clone, Debug, PartialEq, Eq)]
pub struct ContractInfo {
    pub address: String,
}

#[derive(Clone, Debug, PartialEq, Eq)]
pub struct Env {
    pub block: BlockInfo,
    pub contract: ContractInfo,
}

/// The caller of an operation; the host has verified the identifier.
#[derive(Clone, Debug, PartialEq, Eq)]
pub struct MessageInfo {
    pub sender: String,
}

/// When an approval ends. It has ended once the block's height or time has
/// reached the stated one.
#[derive(Clone, Copy, Debug, PartialEq, Eq, Structural)]
pub enum Expiration {
    AtHeight(u64),
    AtTime(Timestamp),
    Never {},
}

impl Expiration {
    /// The approval has ended in `block`.
    pub open spec fn expired_at(self, block: BlockInfo) -> bool {
        match self {
            Expiration::AtHeight(height) => block.height >= height,
            Expiration::AtTime(time) => block.time.nanos >= time.nanos,
            Expiration::Never {} => false,
        }
    }
}

#[derive(Clone, Debug, PartialEq, Eq)]
pub struct Coin {
    pub denom: String,
    pub amount: u128,
}

/// A call of another contract.
#[derive(Clone, Debug, PartialEq, Eq)]
pub enum WasmMsg {
    Execute { contract_addr: String, msg: Vec<u8>, funds: Vec<Coin> },
}

#[derive(Clone, Debug, PartialEq, Eq)]
pub enum CosmosMsg {
    Wasm(WasmMsg),
}

impl CosmosMsg {
    /// The message asks `contract` to execute `body` and sends no funds
    /// along.
    pub open spec fn is_execute(self, contract: Seq<char>, body: Seq<u8>) -> bool {
        &&& self matches CosmosMsg::Wasm(WasmMsg::Execute { contract_addr, msg, funds })
        &&& contract_addr@ == contract
        &&& msg@ == body
        &&& funds@.len() == 0
    }
}

/// On which outcome of a message the sender wants to be called back.
#[derive(Clone, Copy, Debug, PartialEq, Eq, Structural)]
pub enum ReplyOn {
    Always,
    Error,
    Success,
    Never,
}

/// An outbound message as the host dispatches it.
#[derive(Clone, Debug, PartialEq, Eq)]
pub struct SubMsg {
    pub id: u64,
    pub msg: CosmosMsg,
    pub gas_limit: Option<u64>,
    pub reply_on: ReplyOn,
}

impl SubMsg {
    /// The message asks `contract` to execute `body`, sends no funds along
    /// and wants no reply.
    pub open spec fn is_request(self, contract: Seq<char>, body: Seq<u8>) -> bool {
        &&& self.forgets()
        &&& self.msg.is_execute(contract, body)
    }

    /// The message is sent and forgotten: no reply is asked for.
    pub open spec fn forgets(self) -> bool {
        &&& self.id == 0
        &&& self.gas_limit is None
        &&& self.reply_on is Never
    }

    /// A message that is sent and forgotten: no reply is asked for.
    pub fn new(msg: CosmosMsg) -> (r: SubMsg)
        ensures
            r.id == 0,
            r.msg == msg,
            r.gas_limit is None,
            r.reply_on is Never,
    {
        SubMsg { id: 0, msg, gas_limit: None, reply_on: ReplyOn::Never }
    }
}

/// What an operation that succeeded hands back to the host.
#[derive(Clone, Debug, PartialEq, Eq)]
pub struct Response {
    pub messages: Vec<SubMsg>,
}

impl Response {
    /// A response without messages.
    pub fn new() -> (r: Response)
        ensures
            r.messages@.len() == 0,
    {
        Response { messages: Vec::new() }
    }

    /// Adds `msg` behind the messages already there.
    pub fn add_submessage(self, msg: SubMsg) -> (r: Response)
        ensures
            r.messages@ == self.messages@.push(msg),
    {
        let mut messages = self.messages;
        messages.push(msg);
        Response { messages }
    }
}

/// The arithmetic operation that left the range of its type.
#[derive(Clone, Copy, Debug, PartialEq, Eq, Structural)]
pub enum OverflowOperation {
    Add,
    Sub,
}

/// The errors that are not particular to one ledger.
#[derive(Clone, Debug, PartialEq, Eq)]
pub enum CommonError {
    /// An input was refused; the message says why.
    GenericErr { msg: String },
    /// An amount left the range of its type. A subtraction that would go
    /// below zero reports a balance, stake or allowance that does not
    /// suffice.
    Overflow { operation: OverflowOperation },
    /// A record that an operation needs is not there.
    NotFound {},
    /// A value could not be written as JSON.
    SerializeErr {},
    /// A version string could not be read.
    ParseErr {},
}

impl CommonError {
    /// The description of the error.
    pub open spec fn description(&self) -> Seq<char> {
        match *self {
            CommonError::GenericErr { msg } => msg@,
            CommonError::Overflow { operation: OverflowOperation::Add } => "Overflow: cannot add"@,
            CommonError::Overflow { operation: OverflowOperation::Sub } => "Overflow: cannot subtract"@,
            CommonError::NotFound {  } => "Not found"@,
            CommonError::SerializeErr {  } => "Error serializing"@,
            CommonError::ParseErr {  } => "Error parsing"@,
        }
    }

    pub fn to_string(&self) -> (r: String)
        ensures
            r@ == self.description(),
    {
        match self {
            CommonError::GenericErr { msg } => msg.clone(),
            CommonError::Overflow { operation: OverflowOperation::Add } => "Overflow: cannot add".to_owned(),
            CommonError::Overflow { operation: OverflowOperation::Sub } => "Overflow: cannot subtract".to_owned(),
            CommonError::NotFound {  } => "Not found".to_owned(),
            CommonError::SerializeErr {  } => "Error serializing".to_owned(),
            CommonError::ParseErr {  } => "Error parsing".to_owned(),
        }
    }
}

} // verus!
