//! The chat messages that the transcript is built from.

use vstd::prelude::*;

verus! {

/// What an ordinary chat message carries: who wrote it, what it says and when
/// it was created, in milliseconds since the Unix epoch.
#[derive(Debug)]
pub struct MessageData {
    pub author: String,
    pub content: String,
    pub timestamp: i64,
}

/// One message as the message source delivers it.
#[derive(Debug)]
pub enum Message {
    /// An ordinary content message.
    Default(MessageData),
    /// A reply: the replying message's own data, and the message it answers
    /// where the source sent it along.
    Reply(MessageData, Option<Box<Message>>),
    /// Any other kind (joins, pins, system notices): nothing to keep.
    Other,
}

impl Message {
    /// The data that a turn is made of: the message's own for an ordinary
    /// message and for a reply, none for the other kinds.
    pub open spec fn own_data(self) -> Option<MessageData> {
        match self {
            Message::Default(data) => Some(data),
            Message::Reply(data, _) => Some(data),
            Message::Other => None,
        }
    }

    /// Whether the message can become a turn.
    pub fn is_admissible(&self) -> (r: bool)
        ensures
            r == self.own_data().is_some(),
    {
        match self {
            Message::Default(_) => true,
            Message::Reply(_, _) => true,
            Message::Other => false,
        }
    }
}

} // verus!
