//! The top-level container that the message batches are folded into.

use vstd::prelude::*;
use crate::conversation::{conversation_text, with_turn, Conversation, Turn, TurnView};
use crate::json::{array_json, array_text, texts, SaveError};
use crate::message::Message;

verus! {

/// The conversations after one more message arrived: its turn, where it
/// yields one, goes to the first conversation; nothing else changes.
pub open spec fn with_message(conversations: Seq<Seq<TurnView>>, msg: Message) -> Seq<Seq<TurnView>> {
    match Turn::extracted(msg) {
        Some(turn) => conversations.update(0, with_turn(conversations[0], turn)),
        None => conversations,
    }
}

/// The conversations after a batch of messages arrived, taken in the
/// batch's own order.
pub open spec fn with_messages(conversations: Seq<Seq<TurnView>>, msgs: Seq<Message>) -> Seq<Seq<TurnView>>
    decreases msgs.len(),
{
    if msgs.len() == 0 {
        conversations
    } else {
        with_message(with_messages(conversations, msgs.drop_last()), msgs.last())
    }
}

/// The conversations as JSON text: an array of the conversations, each an
/// array of its entries, oldest first.
pub open spec fn context_text(conversations: Seq<Seq<TurnView>>) -> Seq<char> {
    array_text(conversations.map_values(|c: Seq<TurnView>| conversation_text(c, 1)), 0)
}

/// What one run collects: a sequence of conversations, of which there is
/// always exactly one.
pub struct Context(Vec<Conversation>);

impl View for Context {
    type V = Seq<Seq<TurnView>>;

    closed spec fn view(&self) -> Seq<Seq<TurnView>> {
        self.0@.map_values(|c: Conversation| c@)
    }
}

impl Context {
    #[verifier::type_invariant]
    spec fn well_formed(&self) -> bool {
        self.0@.len() == 1
    }

    /// A context that holds one empty conversation.
    pub fn new() -> (r: Context)
        ensures
            r@ == seq![Seq::<TurnView>::empty()],
    {
        let mut conversations: Vec<Conversation> = Vec::new();
        conversations.push(Conversation::new());
        let r = Context(conversations);
        r
    }

    /// The conversations that the context holds.
    pub fn conversations(&self) -> (r: &[Conversation])
        ensures
            r@.len() == 1,
            r@.map_values(|c: Conversation| c@) == self@,
    {
        proof {
            use_type_invariant(self);
        }
        self.0.as_slice()
    }

    /// Takes in one message: its turn, if it yields one, is added to the
    /// conversation; a message of any other kind is passed over.
    pub fn add(&mut self, message: &Message)
        ensures
            final(self)@ == with_message(old(self)@, *message),
    {
        proof {
            use_type_invariant(&*self);
        }
        let turn = Turn::new(message);
        if let Some(t) = turn {
            // The conversation leaves `self` while it changes.
            let mut conversation = Conversation::new();
            core::mem::swap(&mut self.0[0], &mut conversation);
            conversation.add_turn(t);
            core::mem::swap(&mut self.0[0], &mut conversation);
        }
    }

    /// Takes in a batch of messages, one after the other in the batch's order.
    pub fn add_chunk(&mut self, messages: &[Message])
        ensures
            final(self)@ == with_messages(old(self)@, messages@),
    {
        let n = messages.len();
        let mut i: usize = 0;
        while i < n
            invariant
                n == messages@.len(),
                i <= n,
                self@ == with_messages(old(self)@, messages@.take(i as int)),
            decreases n - i,
        {
            self.add(&messages[i]);
            proof {
                assert(messages@.take(i + 1).drop_last() =~= messages@.take(i as int));
            }
            i += 1;
        }
        proof {
            assert(messages@.take(n as int) =~= messages@);
        }
    }

    /// The context as JSON text: always `Ok`, of an array of the
    /// conversations, each an array of its entries, oldest first.
    pub fn serialize(&self) -> (r: Result<String, SaveError>)
        ensures
            r matches Ok(text) && text@ == context_text(self@),
    {
        let n = self.0.len();
        let ghost wanted = self@.map_values(|c: Seq<TurnView>| conversation_text(c, 1));
        let mut items: Vec<String> = Vec::new();
        let mut k: usize = 0;
        while k < n
            invariant
                n == self.0@.len(),
                k <= n,
                wanted == self@.map_values(|c: Seq<TurnView>| conversation_text(c, 1)),
                wanted.len() == n,
                items@.len() == k,
                texts(items@) == wanted.take(k as int),
            decreases n - k,
        {
            let item = match self.0[k].serialize_at(1) {
                Ok(text) => text,
                Err(e) => {
                    return Err(e);
                },
            };
            items.push(item);
            k += 1;
        }
        proof {
            assert(wanted.take(n as int) =~= wanted);
        }
        Ok(array_json(&items, 0))
    }

    /// Writes the context as JSON text over what `destination` holds. The
    /// save always succeeds, and what it leaves depends on what the context
    /// holds alone: not on what `destination` held, nor on earlier saves.
    pub fn save_to(&self, destination: &mut String) -> (r: Result<(), SaveError>)
        ensures
            r is Ok,
            final(destination)@ == context_text(self@),
    {
        match self.serialize() {
            Ok(text) => {
                *destination = text;
                Ok(())
            },
            Err(e) => Err(e),
        }
    }
}

} // verus!
