use vstd::prelude::*;

use crate::state::Message;

verus! {

/// Instantiation takes no parameters.
pub struct InstantiateMsg {}

/// The mutating commands.
pub enum ExecuteMsg {
    AddMessage { topic: String, message: String },
}

/// The read-only queries.
pub enum QueryMsg {
    GetCurrentId {},
    GetAllMessage {},
    GetMessagesByAddr { address: String },
    GetMessagesByTopic { topic: String },
    GetMessagesById { id: u128 },
}

/// A list of records, in ascending id order.
#[derive(Debug, PartialEq, Eq)]
pub struct MessagesResponse {
    pub messages: Vec<Message>,
}

/// What a query returns.
#[derive(Debug, PartialEq, Eq)]
pub enum QueryAnswer {
    CurrentId(u128),
    Messages(MessagesResponse),
}

/// One key/value pair reported by a successful command.
#[derive(Debug, Clone, PartialEq, Eq)]
pub struct Attribute {
    pub key: String,
    pub value: String,
}

impl View for Attribute {
    type V = (Seq<char>, Seq<char>);

    open spec fn view(&self) -> (Seq<char>, Seq<char>) {
        (self.key@, self.value@)
    }
}

/// The outcome of a successful command: its attributes, in order.
#[derive(Debug, Clone, PartialEq, Eq)]
pub struct Response {
    pub attributes: Vec<Attribute>,
}

impl View for Response {
    type V = Seq<(Seq<char>, Seq<char>)>;

    open spec fn view(&self) -> Seq<(Seq<char>, Seq<char>)> {
        self.attributes@.map_values(|a: Attribute| a@)
    }
}

} // verus!
