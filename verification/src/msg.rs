use vstd::prelude::*;

use crate::state::Message;

verus! {

/// The system initialization request. It carries no parameters.
#[derive(Clone, Copy, Debug, PartialEq, Eq, Structural)]
pub struct InstantiateMsg {}

/// The caller's authenticated identity, supplied by the surrounding
/// runtime with every state-changing request.
#[derive(Debug, PartialEq, Eq)]
pub struct MessageInfo {
    pub sender: String,
}

/// The one state-changing request: append a message under a topic. The
/// owner is taken from the caller's identity, not from the payload.
#[derive(Debug, PartialEq, Eq)]
pub enum ExecuteMsg {
    AddMessage { topic: String, message: String },
}

/// The read-only requests.
#[derive(Debug, PartialEq, Eq)]
pub enum QueryMsg {
    GetCurrentId {},
    GetAllMessage {},
    GetMessagesByAddr { address: String },
    GetMessagesByTopic { topic: String },
    GetMessagesById { id: u128 },
}

/// The payload of every message-returning query.
#[derive(Debug, PartialEq, Eq)]
pub struct MessagesResponse {
    pub messages: Vec<Message>,
}

/// The answer to a read-only request: the counter value for
/// `GetCurrentId`, a list of records for every other query.
#[derive(Debug, PartialEq, Eq)]
pub enum QueryAnswer {
    CurrentId(u128),
    Messages(MessagesResponse),
}

/// One key-value pair of the event a state transition emits.
#[derive(Debug, PartialEq, Eq)]
pub struct Attribute {
    pub key: String,
    pub value: String,
}

impl Attribute {
    pub fn new(key: &str, value: String) -> (r: Attribute)
        ensures
            r.key@ == key@,
            r.value@ == value@,
    {
        Attribute { key: key.to_owned(), value }
    }
}

/// The observable outcome of a successful state transition: the event
/// attributes it emits, in order.
#[derive(Debug, PartialEq, Eq)]
pub struct Response {
    pub attributes: Vec<Attribute>,
}

impl Response {
    /// A response that emits no event.
    pub fn new() -> (r: Response)
        ensures
            r.attributes@ == Seq::<Attribute>::empty(),
    {
        Response { attributes: Vec::new() }
    }

    /// Appends one event attribute.
    pub fn add_attribute(self, key: &str, value: String) -> (r: Response)
        ensures
            r.attributes@.len() == self.attributes@.len() + 1,
            forall|i: int|
                0 <= i < self.attributes@.len() ==> r.attributes@[i] == self.attributes@[i],
            r.attributes@.last().key@ == key@,
            r.attributes@.last().value@ == value@,
    {
        let mut attributes = self.attributes;
        attributes.push(Attribute::new(key, value));
        Response { attributes }
    }
}

} // verus!
