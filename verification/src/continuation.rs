//! The continuation builder: the message list of the second request, which
//! hands the tool results back to the model.

use crate::dispatch::{ResultEntry, ResultEntryModel};
use crate::json::json_to_string;
use crate::message::{
    announcement_message, clone_messages, tool_message, Message, MessageModel, MessageRole,
};
use crate::stream::{CallModel, CompletedToolCall};
use vstd::prelude::*;

verus! {

/// The ids of a list of calls, in order.
pub open spec fn ids_of(calls: Seq<CallModel>) -> Seq<Seq<char>> {
    Seq::new(calls.len(), |i: int| calls[i].id)
}

/// One tool message for each result: it answers the call's id with the
/// result's value as JSON text.
pub open spec fn tool_messages(entries: Seq<ResultEntryModel>) -> Seq<MessageModel> {
    Seq::new(entries.len(), |i: int| tool_message(entries[i].call.id, entries[i].result.value))
}

/// The messages of the continuation request: the prior messages, one assistant
/// message that announces all completed calls, then one tool message per
/// result, in the order of the results.
pub open spec fn continuation(
    prior: Seq<MessageModel>,
    calls: Seq<CallModel>,
    entries: Seq<ResultEntryModel>,
) -> Seq<MessageModel> {
    prior.push(announcement_message(ids_of(calls))) + tool_messages(entries)
}

/// The number of tool messages in a list.
pub open spec fn tool_message_count(messages: Seq<MessageModel>) -> nat
    decreases messages.len(),
{
    if messages.len() == 0 {
        0
    } else if messages.last().role == MessageRole::Tool {
        tool_message_count(messages.drop_last()) + 1
    } else {
        tool_message_count(messages.drop_last())
    }
}

fn call_ids(calls: &Vec<CompletedToolCall>) -> (ids: Vec<String>)
    ensures
        ids.deep_view() == ids_of(calls.deep_view()),
{
    let mut ids: Vec<String> = Vec::new();
    let mut i: usize = 0;
    while i < calls.len()
        invariant
            i <= calls.len(),
            ids.len() == i,
            forall|j: int| 0 <= j < i ==> ids[j]@ == #[trigger] ids_of(calls.deep_view())[j],
        decreases calls.len() - i,
    {
        ids.push(calls[i].id.clone());
        i += 1;
    }
    assert(ids.deep_view() =~= ids_of(calls.deep_view()));
    ids
}

/// Builds the messages of the continuation request.
pub fn build(
    prior: &Vec<Message>,
    completed: &Vec<CompletedToolCall>,
    results: &Vec<ResultEntry>,
) -> (messages: Vec<Message>)
    ensures
        messages.deep_view() == continuation(
            prior.deep_view(),
            completed.deep_view(),
            results.deep_view(),
        ),
{
    let mut messages = clone_messages(prior);
    let ghost head = prior.deep_view().push(announcement_message(ids_of(completed.deep_view())));
    let ghost tail = tool_messages(results.deep_view());
    let ghost copied = messages.deep_view();
    let announcement = Message::announcement(call_ids(completed));
    messages.push(announcement);
    assert(messages.deep_view() =~= copied.push(announcement@));
    assert(tail.take(0) =~= Seq::empty());
    assert(head + Seq::<MessageModel>::empty() =~= head);
    let mut i: usize = 0;
    while i < results.len()
        invariant
            i <= results.len(),
            tail == tool_messages(results.deep_view()),
            messages.deep_view() == head + tail.take(i as int),
        decreases results.len() - i,
    {
        let entry = &results[i];
        let ghost built = messages.deep_view();
        let message = Message::tool(entry.call.id.as_str(), json_to_string(&entry.result.value));
        messages.push(message);
        assert(messages.deep_view() =~= built.push(message@));
        assert(message@ == tail[i as int]);
        i += 1;
        assert(head + tail.take(i as int) =~= (head + tail.take(i - 1)).push(tail[i - 1]));
    }
    assert(tail.take(i as int) =~= tail);
    messages
}

proof fn lemma_count_push(messages: Seq<MessageModel>, message: MessageModel)
    ensures
        tool_message_count(messages.push(message)) == tool_message_count(messages) + (if message.role
            == MessageRole::Tool {
            1nat
        } else {
            0nat
        }),
{
    assert(messages.push(message).drop_last() =~= messages);
}

proof fn lemma_count_tool_messages(head: Seq<MessageModel>, entries: Seq<ResultEntryModel>, n: int)
    requires
        0 <= n <= entries.len(),
    ensures
        tool_message_count(head + tool_messages(entries).take(n)) == tool_message_count(head) + n,
    decreases n,
{
    let tail = tool_messages(entries);
    if n == 0 {
        assert(head + tail.take(0) =~= head);
    } else {
        lemma_count_tool_messages(head, entries, n - 1);
        assert(head + tail.take(n) =~= (head + tail.take(n - 1)).push(tail[n - 1]));
        lemma_count_push(head + tail.take(n - 1), tail[n - 1]);
    }
}

/// The continuation adds exactly one tool message per result to the prior
/// messages, and each of them answers the id of its own call.
pub proof fn lemma_continuation_shape(
    prior: Seq<MessageModel>,
    calls: Seq<CallModel>,
    entries: Seq<ResultEntryModel>,
)
    ensures
        continuation(prior, calls, entries).len() == prior.len() + 1 + entries.len(),
        tool_message_count(continuation(prior, calls, entries)) == tool_message_count(prior)
            + entries.len(),
        continuation(prior, calls, entries)[prior.len() as int] == announcement_message(
            ids_of(calls),
        ),
        forall|i: int|
            0 <= i < prior.len() ==> #[trigger] continuation(prior, calls, entries)[i] == prior[i],
        forall|i: int|
            0 <= i < entries.len() ==> (#[trigger] continuation(
                prior,
                calls,
                entries,
            )[prior.len() + 1 + i]).tool_call_id == Some(entries[i].call.id),
{
    let head = prior.push(announcement_message(ids_of(calls)));
    lemma_count_push(prior, announcement_message(ids_of(calls)));
    lemma_count_tool_messages(head, entries, entries.len() as int);
    assert(tool_messages(entries).take(entries.len() as int) =~= tool_messages(entries));
}

/// Where no call was dispatched, the continuation holds the prior messages and
/// the announcement, and no tool message beyond those of the prior messages.
pub proof fn lemma_continuation_without_results(prior: Seq<MessageModel>, calls: Seq<CallModel>)
    ensures
        continuation(prior, calls, Seq::empty()) == prior.push(
            announcement_message(ids_of(calls)),
        ),
        tool_message_count(continuation(prior, calls, Seq::empty())) == tool_message_count(prior),
{
    lemma_continuation_shape(prior, calls, Seq::empty());
    assert(continuation(prior, calls, Seq::empty()) =~= prior.push(
        announcement_message(ids_of(calls)),
    ));
}

} // verus!
