//! What passes between the two state machines and the host that runs them:
//! who called and when, the calls a machine asks the host to make, and the
//! events a finished call hands back.

use vstd::prelude::*;
use vstd::string::*;
use crate::vamm::msg::ExecuteMsg;

verus! {

/// The moment and the place of a call.
#[derive(Debug, PartialEq, Eq)]
pub struct Env {
    /// Block time, in nanoseconds.
    pub time: u64,
    /// Identity of the machine that is running.
    pub contract: String,
}

impl Clone for Env {
    fn clone(&self) -> (copy: Env)
        ensures
            copy == *self,
    {
        Env { time: self.time, contract: self.contract.clone() }
    }
}

/// Who made the call.
#[derive(Debug, PartialEq, Eq)]
pub struct MessageInfo {
    pub sender: String,
}

impl Clone for MessageInfo {
    fn clone(&self) -> (copy: MessageInfo)
        ensures
            copy == *self,
    {
        MessageInfo { sender: self.sender.clone() }
    }
}

/// A key and its value, as a finished operation reports them.
#[derive(Debug, PartialEq, Eq)]
pub struct Attribute {
    pub key: String,
    pub value: String,
}

impl Clone for Attribute {
    fn clone(&self) -> (copy: Attribute)
        ensures
            copy == *self,
    {
        Attribute { key: self.key.clone(), value: self.value.clone() }
    }
}

impl View for Attribute {
    type V = (Seq<char>, Seq<char>);

    open spec fn view(&self) -> (Seq<char>, Seq<char>) {
        (self.key@, self.value@)
    }
}

/// Attributes under a label.
#[derive(Debug, PartialEq, Eq)]
pub struct Event {
    pub ty: String,
    pub attributes: Vec<Attribute>,
}

/// When the host resumes the caller after a call it made on its behalf.
#[derive(Clone, Copy, Debug, PartialEq, Eq, Structural)]
pub enum ReplyOn {
    Always,
    Error,
    Success,
    Never,
}

/// The body of a call to another machine.
#[derive(Debug, PartialEq, Eq)]
pub enum CallMsg {
    /// A trade against a pricing curve.
    Swap(ExecuteMsg),
    /// A transfer of collateral that its owner has allowed.
    TransferFrom { owner: String, recipient: String, amount: u128 },
}

/// A call that the host is asked to make, and the continuation id under which
/// its outcome comes back.
#[derive(Debug, PartialEq, Eq)]
pub struct SubMsg {
    pub id: u64,
    pub contract_addr: String,
    pub msg: CallMsg,
    pub gas_limit: Option<u64>,
    pub reply_on: ReplyOn,
}

/// What a finished operation hands to the host.
#[derive(Debug, PartialEq, Eq)]
pub struct Response {
    pub messages: Vec<SubMsg>,
    pub attributes: Vec<Attribute>,
}

/// A response as sequences: the calls as they are, the attributes as text.
pub struct ResponseView {
    pub messages: Seq<SubMsg>,
    pub attributes: Seq<(Seq<char>, Seq<char>)>,
}

impl View for Response {
    type V = ResponseView;

    open spec fn view(&self) -> ResponseView {
        ResponseView {
            messages: self.messages@,
            attributes: self.attributes@.map_values(|a: Attribute| a@),
        }
    }
}

/// The response that asks for nothing and reports nothing.
pub open spec fn spec_empty_response() -> ResponseView {
    ResponseView { messages: Seq::empty(), attributes: Seq::empty() }
}

/// The response of an operation named `action` that asks for one call.
pub open spec fn spec_call_response(action: Seq<char>, msg: SubMsg) -> ResponseView {
    ResponseView { messages: seq![msg], attributes: seq![("action"@, action)] }
}

impl Response {
    /// A response that asks for nothing and reports nothing.
    pub fn new() -> (response: Response)
        ensures
            response@ == spec_empty_response(),
    {
        let response = Response { messages: Vec::new(), attributes: Vec::new() };
        assert(response@.attributes =~= Seq::empty());
        response
    }

    /// Adds one attribute after those already there.
    pub fn add_attribute(self, key: &str, value: &str) -> (response: Response)
        ensures
            response@ == (ResponseView {
                messages: self@.messages,
                attributes: self@.attributes.push((key@, value@)),
            }),
    {
        let mut response = self;
        let attribute = Attribute { key: String::from_str(key), value: String::from_str(value) };
        response.attributes.push(attribute);
        assert(response@.attributes =~= self@.attributes.push((key@, value@)));
        response
    }

    /// Adds one call after those already there.
    pub fn add_submessage(self, msg: SubMsg) -> (response: Response)
        ensures
            response@ == (ResponseView {
                messages: self@.messages.push(msg),
                attributes: self@.attributes,
            }),
    {
        let mut response = self;
        response.messages.push(msg);
        response
    }
}

/// What a call made through the host produced.
#[derive(Debug, PartialEq, Eq)]
pub struct SubMsgExecutionResponse {
    pub events: Vec<Event>,
}

/// The outcome of a call, delivered to the machine that asked for it.
#[derive(Debug, PartialEq, Eq)]
pub struct Reply {
    /// The continuation id that the call was issued under.
    pub id: u64,
    /// The events of the call, or why it failed.
    pub result: Result<SubMsgExecutionResponse, String>,
}

} // verus!
