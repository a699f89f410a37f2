//! Turns and the conversation that accumulates them.

use vstd::prelude::*;
use vstd::string::*;
use crate::clock::{clock_at, clock_of};
use crate::json::{array_json, array_text, entry_json, json_string, quote, texts, turn_text, SaveError};
use crate::message::{Message, MessageData};

verus! {

/// One coalesced unit of conversation: what was said, by whom, and when, in
/// milliseconds since the Unix epoch.
#[derive(Debug)]
pub struct Turn {
    pub content: String,
    pub author: String,
    pub start_time: i64,
}

/// The mathematical value of a [`Turn`].
pub struct TurnView {
    pub content: Seq<char>,
    pub author: Seq<char>,
    pub start_time: int,
}

impl View for Turn {
    type V = TurnView;

    open spec fn view(&self) -> TurnView {
        TurnView { content: self.content@, author: self.author@, start_time: self.start_time as int }
    }
}

impl Turn {
    /// The turn that carries the author, content and timestamp of `data`.
    pub open spec fn of_data(data: MessageData) -> TurnView {
        TurnView { content: data.content@, author: data.author@, start_time: data.timestamp as int }
    }

    /// The turn that a message yields: one made of the message's own data for
    /// an ordinary message or a reply, none for any other kind.
    pub open spec fn extracted(msg: Message) -> Option<TurnView> {
        match msg.own_data() {
            Some(data) => Some(Turn::of_data(data)),
            None => None,
        }
    }

    /// Extracts the turn of a message. An ordinary message and a reply yield a
    /// turn that copies the message's own author, content and timestamp; what a
    /// reply refers to is not read. Every other kind yields nothing.
    pub fn new(msg: &Message) -> (r: Option<Turn>)
        ensures
            match r {
                Some(turn) => Turn::extracted(*msg) == Some(turn@),
                None => Turn::extracted(*msg).is_none(),
            },
    {
        let data: &MessageData = match msg {
            Message::Default(data) => data,
            Message::Reply(data, _) => data,
            Message::Other => {
                return None;
            },
        };
        Some(
            Turn {
                content: data.content.clone(),
                author: data.author.clone(),
                start_time: data.timestamp,
            },
        )
    }
}

/// The text of two merged turns: the incoming content, a line break, then the
/// content that was already stored.
pub open spec fn merged_content(incoming: Seq<char>, existing: Seq<char>) -> Seq<char> {
    incoming + seq!['\n'] + existing
}

/// The stored turns after one more turn arrived. A turn by the author of the
/// most recently stored entry is merged into that entry, whose timestamp
/// stays; any other turn becomes a new entry behind it.
pub open spec fn with_turn(stored: Seq<TurnView>, turn: TurnView) -> Seq<TurnView> {
    if stored.len() > 0 && stored.last().author == turn.author {
        stored.update(
            stored.len() - 1,
            TurnView {
                content: merged_content(turn.content, stored.last().content),
                author: stored.last().author,
                start_time: stored.last().start_time,
            },
        )
    } else {
        stored.push(turn)
    }
}

/// No two neighbouring entries have the same author.
pub open spec fn authors_alternate(stored: Seq<TurnView>) -> bool {
    forall|i: int| 0 <= i < stored.len() - 1 ==> #[trigger] stored[i].author != stored[i + 1].author
}

/// The entries in the order in which they are read and written: the last
/// stored entry first.
pub open spec fn oldest_first(stored: Seq<TurnView>) -> Seq<TurnView> {
    Seq::new(stored.len(), |i: int| stored[stored.len() - 1 - i])
}

/// A turn as a JSON object at a nesting depth, its content and author
/// written as JSON string literals.
pub open spec fn turn_json_text(turn: TurnView, depth: nat) -> Seq<char> {
    turn_text(json_string(turn.content), json_string(turn.author), turn.start_time, depth)
}

/// The entries of a conversation as the items of a JSON array at a nesting
/// depth: objects one level below it, oldest first.
pub open spec fn entry_texts(stored: Seq<TurnView>, depth: nat) -> Seq<Seq<char>> {
    oldest_first(stored).map_values(|t: TurnView| turn_json_text(t, depth + 1))
}

/// A conversation as a JSON array at a nesting depth.
pub open spec fn conversation_text(stored: Seq<TurnView>, depth: nat) -> Seq<char> {
    array_text(entry_texts(stored, depth), depth)
}

/// A turn as a console shows it: an empty line, a line with the author and
/// the time of day, then the content.
pub open spec fn shown_turn(turn: TurnView) -> Seq<char> {
    "\n"@ + turn.author + " at "@ + clock_at(turn.start_time) + "\n"@ + turn.content + "\n"@
}

/// A conversation as a console shows it: its entries one after the other,
/// the last stored one first.
pub open spec fn shown(stored: Seq<TurnView>) -> Seq<char>
    decreases stored.len(),
{
    if stored.len() == 0 {
        Seq::empty()
    } else {
        shown_turn(stored.last()) + shown(stored.drop_last())
    }
}

/// An ordered exchange of turns. The entries are kept in the order in which
/// they arrived, which is newest first, and are read oldest first.
pub struct Conversation(Vec<Turn>);

impl View for Conversation {
    type V = Seq<TurnView>;

    /// The stored entries in arrival order.
    closed spec fn view(&self) -> Seq<TurnView> {
        self.0@.map_values(|t: Turn| t@)
    }
}

impl Conversation {
    #[verifier::type_invariant]
    spec fn well_formed(&self) -> bool {
        authors_alternate(self@)
    }

    /// An empty conversation.
    pub fn new() -> (r: Conversation)
        ensures
            r@ == Seq::<TurnView>::empty(),
    {
        let r = Conversation(Vec::new());
        r
    }

    /// Takes in one turn, merging it into the most recently stored entry
    /// where both have the same author.
    pub fn add_turn(&mut self, turn: Turn)
        ensures
            final(self)@ == with_turn(old(self)@, turn@),
    {
        proof {
            use_type_invariant(&*self);
        }
        // The entries leave `self` while they change: `Vec::push` may unwind.
        let mut turns: Vec<Turn> = Vec::new();
        core::mem::swap(&mut self.0, &mut turns);
        let ghost before = turns@;
        let n = turns.len();
        if n > 0 && turns[n - 1].author == turn.author {
            let mut content = turn.content;
            content.append("\n");
            content.append(turns[n - 1].content.as_str());
            proof {
                reveal_strlit("\n");
                assert(content@ == merged_content(turn@.content, before[n - 1]@.content));
            }
            turns[n - 1].content = content;
            assert(turns@.map_values(|t: Turn| t@) =~= with_turn(old(self)@, turn@));
        } else {
            turns.push(turn);
            assert(turns@.map_values(|t: Turn| t@) =~= with_turn(old(self)@, turn@));
        }
        core::mem::swap(&mut self.0, &mut turns);
    }

    /// The number of stored entries.
    pub fn len(&self) -> (n: usize)
        ensures
            n == self@.len(),
    {
        self.0.len()
    }

    /// Whether nothing is stored.
    pub fn is_empty(&self) -> (r: bool)
        ensures
            r == (self@.len() == 0),
    {
        self.0.len() == 0
    }

    /// The entries, oldest first. No two neighbours have the same author.
    pub fn iter(&self) -> (r: Vec<&Turn>)
        ensures
            r@.len() == self@.len(),
            r@.map_values(|t: &Turn| t@) == oldest_first(self@),
            authors_alternate(self@),
    {
        proof {
            use_type_invariant(self);
        }
        let n = self.0.len();
        let mut out: Vec<&Turn> = Vec::new();
        let mut k: usize = 0;
        while k < n
            invariant
                n == self.0@.len(),
                k <= n,
                out@.len() == k,
                forall|i: int| 0 <= i < k ==> *#[trigger] out@[i] == self.0@[n - 1 - i],
            decreases n - k,
        {
            out.push(&self.0[n - 1 - k]);
            k += 1;
        }
        out
    }

    /// Hands the entries out, oldest first, and drains the conversation.
    pub fn into_iter(self) -> (r: Vec<Turn>)
        ensures
            r@.len() == self@.len(),
            r@.map_values(|t: Turn| t@) == oldest_first(self@),
    {
        let ghost stored = self.0@;
        let mut turns = self.0;
        let mut out: Vec<Turn> = Vec::new();
        while turns.len() > 0
            invariant
                turns@.len() + out@.len() == stored.len(),
                turns@ == stored.subrange(0, turns@.len() as int),
                forall|i: int| 0 <= i < out@.len() ==> #[trigger] out@[i] == stored[stored.len() - 1 - i],
            decreases turns@.len(),
        {
            let last = turns.pop();
            match last {
                Some(turn) => {
                    out.push(turn);
                },
                None => {},
            }
        }
        out
    }

    /// The conversation as JSON text, nested `depth` levels deep: always
    /// `Ok`, of an array of its entries, oldest first.
    pub fn serialize_at(&self, depth: usize) -> (r: Result<String, SaveError>)
        requires
            depth < usize::MAX - 1,
        ensures
            r matches Ok(text) && text@ == conversation_text(self@, depth as nat),
    {
        let n = self.0.len();
        let ghost wanted = entry_texts(self@, depth as nat);
        let mut items: Vec<String> = Vec::new();
        let mut k: usize = 0;
        while k < n
            invariant
                n == self.0@.len(),
                k <= n,
                depth < usize::MAX - 1,
                wanted == entry_texts(self@, depth as nat),
                wanted.len() == n,
                items@.len() == k,
                texts(items@) == wanted.take(k as int),
            decreases n - k,
        {
            let turn = &self.0[n - 1 - k];
            let content = quote(turn.content.as_str());
            let author = quote(turn.author.as_str());
            let item = match entry_json(content, author, turn.start_time, depth + 1) {
                Ok(text) => text,
                Err(e) => {
                    return Err(e);
                },
            };
            items.push(item);
            k += 1;
        }
        proof {
            assert(wanted.take(n as int) =~= wanted);
        }
        Ok(array_json(&items, depth))
    }

    /// The conversation as JSON text: always `Ok`, of an array of its
    /// entries, oldest first.
    pub fn serialize(&self) -> (r: Result<String, SaveError>)
        ensures
            r matches Ok(text) && text@ == conversation_text(self@, 0),
    {
        self.serialize_at(0)
    }

    /// The text that shows the conversation on a console, oldest entry
    /// first. Writing it out is left to the caller.
    pub fn print(&self) -> (r: String)
        ensures
            r@ == shown(self@),
    {
        let n = self.0.len();
        let mut out = String::new();
        let mut k: usize = 0;
        proof {
            assert(self@.take(n as int) =~= self@);
        }
        while k < n
            invariant
                n == self.0@.len(),
                k <= n,
                out@ + shown(self@.take(n - k)) == shown(self@),
            decreases n - k,
        {
            let turn = &self.0[n - 1 - k];
            out.append("\n");
            out.append(turn.author.as_str());
            out.append(" at ");
            out.append(clock_of(turn.start_time).as_str());
            out.append("\n");
            out.append(turn.content.as_str());
            out.append("\n");
            proof {
                assert(self@.take(n - k).drop_last() =~= self@.take(n - k - 1));
            }
            k += 1;
        }
        out
    }
}

} // verus!
