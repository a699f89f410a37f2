//! What holds of every conversation, however its turns arrived.

use vstd::prelude::*;
use crate::context::{context_text, with_message, with_messages, Context};
use crate::json::SaveError;
use crate::conversation::{
    authors_alternate, conversation_text, merged_content, oldest_first, with_turn, Conversation, Turn,
    TurnView,
};
use crate::message::Message;

verus! {

/// The stored entries after a sequence of turns arrived, one after the
/// other.
pub open spec fn with_turns(stored: Seq<TurnView>, turns: Seq<TurnView>) -> Seq<TurnView>
    decreases turns.len(),
{
    if turns.len() == 0 {
        stored
    } else {
        with_turn(with_turns(stored, turns.drop_last()), turns.last())
    }
}

/// Whether a turn that arrives now opens an entry of its own: nothing is
/// stored yet, or the last stored entry has another author.
pub open spec fn opens_entry(stored: Seq<TurnView>, turn: TurnView) -> bool {
    stored.len() == 0 || stored.last().author != turn.author
}

/// A run: one or more turns, all by the author of the first.
pub open spec fn is_run(run: Seq<TurnView>) -> bool {
    &&& run.len() > 0
    &&& forall|i: int| 0 <= i < run.len() ==> (#[trigger] run[i]).author == run[0].author
}

/// The content of a merged run: the content of the turn that arrived last on
/// top, that of the first at the bottom, a line break between two of them.
pub open spec fn run_content(run: Seq<TurnView>) -> Seq<char>
    decreases run.len(),
{
    if run.len() == 0 {
        Seq::empty()
    } else if run.len() == 1 {
        run[0].content
    } else {
        merged_content(run.last().content, run_content(run.drop_last()))
    }
}

/// The entry that a run is stored as: its merged content, under the author
/// and the timestamp of the turn that arrived first.
pub open spec fn run_entry(run: Seq<TurnView>) -> TurnView {
    TurnView { content: run_content(run), author: run[0].author, start_time: run[0].start_time }
}

/// Runs that are as long as they can be: each is a run, and no two
/// neighbours have the same author.
pub open spec fn maximal_runs(runs: Seq<Seq<TurnView>>) -> bool {
    &&& forall|k: int| 0 <= k < runs.len() ==> is_run(#[trigger] runs[k])
    &&& forall|k: int|
        0 <= k < runs.len() - 1 ==> (#[trigger] runs[k])[0].author != runs[k + 1][0].author
}

/// The turns of all runs, in order.
pub open spec fn joined(runs: Seq<Seq<TurnView>>) -> Seq<TurnView>
    decreases runs.len(),
{
    if runs.len() == 0 {
        Seq::empty()
    } else {
        joined(runs.drop_last()) + runs.last()
    }
}

/// The entries that a sequence of runs is stored as, run by run.
pub open spec fn entries_of(runs: Seq<Seq<TurnView>>) -> Seq<TurnView> {
    Seq::new(runs.len(), |k: int| run_entry(runs[k]))
}

/// The maximal runs that a sequence of turns falls into.
pub open spec fn runs_of(turns: Seq<TurnView>) -> Seq<Seq<TurnView>>
    decreases turns.len(),
{
    if turns.len() == 0 {
        Seq::empty()
    } else {
        let before = runs_of(turns.drop_last());
        if before.len() > 0 && before.last()[0].author == turns.last().author {
            before.update(before.len() - 1, before.last().push(turns.last()))
        } else {
            before.push(seq![turns.last()])
        }
    }
}

/// Two turns of one author that arrive one after the other, the first of
/// them opening an entry, are stored as that one entry: the content of the
/// second, a line break and the content of the first, under the timestamp of
/// the first.
pub proof fn lemma_same_author_merges(stored: Seq<TurnView>, a: TurnView, b: TurnView)
    requires
        a.author == b.author,
        opens_entry(stored, a),
    ensures
        with_turn(with_turn(stored, a), b) == stored.push(
            TurnView {
                content: b.content + seq!['\n'] + a.content,
                author: a.author,
                start_time: a.start_time,
            },
        ),
{
    assert(with_turn(with_turn(stored, a), b) =~= stored.push(
        TurnView {
            content: b.content + seq!['\n'] + a.content,
            author: a.author,
            start_time: a.start_time,
        },
    ));
}

/// A turn by the author of the last stored entry adds no entry: it is put
/// on top of that entry's content, and the entry keeps its timestamp.
pub proof fn lemma_merge_keeps_entries(stored: Seq<TurnView>, turn: TurnView)
    requires
        !opens_entry(stored, turn),
    ensures
        with_turn(stored, turn).len() == stored.len(),
        with_turn(stored, turn).drop_last() == stored.drop_last(),
        with_turn(stored, turn).last().content == turn.content + seq!['\n'] + stored.last().content,
        with_turn(stored, turn).last().author == stored.last().author,
        with_turn(stored, turn).last().start_time == stored.last().start_time,
{
}

/// Two turns of different authors that arrive one after the other stay two
/// entries: the second is stored unchanged right behind the entry that holds
/// the first, which is the first itself where it opened an entry. Read oldest
/// first, the second comes first and the entry of the first right after it.
pub proof fn lemma_other_author_appends(stored: Seq<TurnView>, a: TurnView, b: TurnView)
    requires
        a.author != b.author,
    ensures
        with_turn(with_turn(stored, a), b) == with_turn(stored, a).push(b),
        with_turn(stored, a).last().author == a.author,
        opens_entry(stored, a) ==> with_turn(with_turn(stored, a), b) == stored.push(a).push(b),
        oldest_first(with_turn(with_turn(stored, a), b))[0] == b,
        oldest_first(with_turn(with_turn(stored, a), b))[1] == with_turn(stored, a).last(),
{
}

/// One more turn keeps neighbouring entries apart in author.
pub proof fn lemma_alternation_kept(stored: Seq<TurnView>, turn: TurnView)
    requires
        authors_alternate(stored),
    ensures
        authors_alternate(with_turn(stored, turn)),
{
}

/// Turns that arrive in two batches are stored as if they had arrived in one.
pub proof fn lemma_batches_compose(stored: Seq<TurnView>, first: Seq<TurnView>, second: Seq<TurnView>)
    ensures
        with_turns(stored, first + second) == with_turns(with_turns(stored, first), second),
    decreases second.len(),
{
    if second.len() > 0 {
        lemma_batches_compose(stored, first, second.drop_last());
        assert((first + second).drop_last() =~= first + second.drop_last());
    }
}

/// No turn adds more than one entry, and none takes one away.
pub proof fn lemma_entries_bounded(stored: Seq<TurnView>, turns: Seq<TurnView>)
    ensures
        stored.len() <= with_turns(stored, turns).len() <= stored.len() + turns.len(),
    decreases turns.len(),
{
    if turns.len() > 0 {
        lemma_entries_bounded(stored, turns.drop_last());
    }
}

/// A run that opens an entry is stored as that one entry.
pub proof fn lemma_run_is_one_entry(stored: Seq<TurnView>, run: Seq<TurnView>)
    requires
        is_run(run),
        opens_entry(stored, run[0]),
    ensures
        with_turns(stored, run) == stored.push(run_entry(run)),
    decreases run.len(),
{
    let shorter = run.drop_last();
    if run.len() == 1 {
        assert(with_turns(stored, shorter) == stored);
    } else {
        assert(is_run(shorter));
        lemma_run_is_one_entry(stored, shorter);
    }
}

/// Turns that fall into maximal runs are stored run by run: one entry for
/// each run, in the order in which the runs arrived.
pub proof fn lemma_runs_collapse(runs: Seq<Seq<TurnView>>)
    requires
        maximal_runs(runs),
    ensures
        with_turns(Seq::empty(), joined(runs)) == entries_of(runs),
    decreases runs.len(),
{
    if runs.len() > 0 {
        let earlier = runs.drop_last();
        let run = runs.last();
        assert(maximal_runs(earlier));
        lemma_runs_collapse(earlier);
        lemma_batches_compose(Seq::empty(), joined(earlier), run);
        // The run before this one ended an entry under another author.
        assert(opens_entry(entries_of(earlier), run[0]));
        lemma_run_is_one_entry(entries_of(earlier), run);
    }
}

/// Every sequence of turns falls into maximal runs.
pub proof fn lemma_runs_exist(turns: Seq<TurnView>)
    ensures
        maximal_runs(runs_of(turns)),
        joined(runs_of(turns)) == turns,
        runs_of(turns).len() <= turns.len(),
    decreases turns.len(),
{
    if turns.len() > 0 {
        let turn = turns.last();
        let before = runs_of(turns.drop_last());
        let runs = runs_of(turns);
        lemma_runs_exist(turns.drop_last());
        if before.len() > 0 && before.last()[0].author == turn.author {
            // The turn lengthens the last run.
            assert(is_run(before.last().push(turn)));
            assert(runs.drop_last() =~= before.drop_last());
        } else {
            // The turn opens a run of its own.
            assert(runs.drop_last() =~= before);
        }
        assert(maximal_runs(runs));
        assert(turns =~= turns.drop_last() + seq![turn]);
    }
}

/// Whatever turns an empty conversation takes in, it is read in the reverse
/// of their arrival, each maximal run of one author collapsed into one entry:
/// the entry of the run that arrived last comes first, and there are no more
/// entries than turns.
pub proof fn lemma_read_in_reverse_of_arrival(turns: Seq<TurnView>)
    ensures
        with_turns(Seq::empty(), turns) == entries_of(runs_of(turns)),
        oldest_first(with_turns(Seq::empty(), turns)).len() == runs_of(turns).len(),
        runs_of(turns).len() <= turns.len(),
        forall|k: int|
            0 <= k < runs_of(turns).len() ==> #[trigger] oldest_first(
                with_turns(Seq::empty(), turns),
            )[k] == run_entry(runs_of(turns)[runs_of(turns).len() - 1 - k]),
        authors_alternate(with_turns(Seq::empty(), turns)),
{
    lemma_runs_exist(turns);
    lemma_runs_collapse(runs_of(turns));
}

/// Turns of which no two neighbours have the same author are all kept, and
/// read in the exact reverse of their arrival.
pub proof fn lemma_distinct_neighbours_all_kept(turns: Seq<TurnView>)
    requires
        authors_alternate(turns),
    ensures
        with_turns(Seq::empty(), turns) == turns,
        oldest_first(with_turns(Seq::empty(), turns)) == turns.reverse(),
    decreases turns.len(),
{
    if turns.len() > 0 {
        let earlier = turns.drop_last();
        assert(authors_alternate(earlier));
        lemma_distinct_neighbours_all_kept(earlier);
    }
}

/// The turns that a batch of messages yields, in the batch's order: one for
/// each ordinary message and each reply, none for any other message.
pub open spec fn turns_of(msgs: Seq<Message>) -> Seq<TurnView>
    decreases msgs.len(),
{
    if msgs.len() == 0 {
        Seq::empty()
    } else {
        match Turn::extracted(msgs.last()) {
            Some(turn) => turns_of(msgs.drop_last()).push(turn),
            None => turns_of(msgs.drop_last()),
        }
    }
}

/// A batch of messages leaves in the first conversation what its turns leave
/// there, and touches no other conversation: the messages that yield no turn
/// leave no trace.
pub proof fn lemma_messages_act_by_their_turns(conversations: Seq<Seq<TurnView>>, msgs: Seq<Message>)
    requires
        conversations.len() > 0,
    ensures
        with_messages(conversations, msgs) == conversations.update(
            0,
            with_turns(conversations[0], turns_of(msgs)),
        ),
        turns_of(msgs).len() <= msgs.len(),
    decreases msgs.len(),
{
    if msgs.len() > 0 {
        let earlier = msgs.drop_last();
        lemma_messages_act_by_their_turns(conversations, earlier);
        if let Some(turn) = Turn::extracted(msgs.last()) {
            assert(turns_of(msgs).drop_last() =~= turns_of(earlier));
            assert(with_messages(conversations, msgs) =~= conversations.update(
                0,
                with_turns(conversations[0], turns_of(msgs)),
            ));
        }
    }
}

/// Saving is repeatable: two saves of one context both succeed, and
/// whatever the two destinations held before, both hold the same text after
/// them, the text of what the context holds.
pub proof fn lemma_save_is_repeatable(
    context: Context,
    first_into: &mut String,
    first: Result<(), SaveError>,
    second_into: &mut String,
    second: Result<(), SaveError>,
)
    requires
        call_ensures(Context::save_to, (&context, first_into), first),
        call_ensures(Context::save_to, (&context, second_into), second),
    ensures
        first is Ok,
        second is Ok,
        final(first_into)@ == final(second_into)@,
        final(first_into)@ == context_text(context@),
{
}

/// Serializing is repeatable: two calls on one conversation both succeed
/// and return the same text.
pub proof fn lemma_serialize_is_repeatable(
    conversation: Conversation,
    first: Result<String, SaveError>,
    second: Result<String, SaveError>,
)
    requires
        call_ensures(Conversation::serialize, (&conversation,), first),
        call_ensures(Conversation::serialize, (&conversation,), second),
    ensures
        first is Ok,
        second is Ok,
        first->Ok_0@ == second->Ok_0@,
        first->Ok_0@ == conversation_text(conversation@, 0),
{
}

} // verus!
