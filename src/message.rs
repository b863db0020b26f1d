use vstd::prelude::*;

use crate::value::{ExternalValue, Value};

verus! {

/// A message from the host element to the component.
#[derive(Debug)]
pub enum Message {
    /// An observed attribute changed; `None` when it was removed
    SetAttribute { name: String, value: Option<String> },
    /// Read a property; the answer goes back under the ticket `reply`
    Get { name: String, reply: u64 },
    /// Write a property
    SetProperty { name: String, value: ExternalValue },
}

pub ghost enum MessageModel {
    SetAttribute { name: Seq<char>, value: Option<Seq<char>> },
    Get { name: Seq<char>, reply: u64 },
    SetProperty { name: Seq<char>, value: Value },
}

pub open spec fn opt_text(v: Option<String>) -> Option<Seq<char>> {
    match v {
        Some(s) => Some(s@),
        None => None,
    }
}

impl View for Message {
    type V = MessageModel;

    open spec fn view(&self) -> MessageModel {
        match self {
            Message::SetAttribute { name, value } => MessageModel::SetAttribute {
                name: name@,
                value: opt_text(*value),
            },
            Message::Get { name, reply } => MessageModel::Get { name: name@, reply: *reply },
            Message::SetProperty { name, value } => MessageModel::SetProperty { name: name@, value: value@ },
        }
    }
}

/// The answer to a [`Message::Get`].
#[derive(Debug)]
pub struct Reply {
    /// The ticket of the request
    pub reply: u64,
    pub value: ExternalValue,
}

pub open spec fn reply_model(r: Option<Reply>) -> Option<(u64, Value)> {
    match r {
        Some(x) => Some((x.reply, x.value@)),
        None => None,
    }
}

} // verus!
