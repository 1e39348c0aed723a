//! The stream aggregator: it consumes the chunks of one streamed turn in
//! arrival order and keeps the answer text and the table of pending tool calls.
//!
//! The content of all choices is kept as one answer text, in arrival order;
//! tool calls are kept apart by choice and call index.

use crate::stream::{
    apply_fragment, apply_fragments, chunk_content, chunk_deltas, chunk_finish, chunk_fragments,
    completed, has_key, key_position, keyed, snapshot, text_or_empty, CallModel, Chunk, ChunkModel,
    ChoiceDelta, ChoiceModel, CompletedToolCall, FinishReason, FragmentModel, KeyedFragment,
    PendingModel, PendingToolCall, ToolCallFragment, TurnEvent, TurnEventModel,
};
use vstd::prelude::*;

verus! {

/// The state of one streamed turn.
#[derive(Debug)]
pub struct StreamAggregator {
    pending: Vec<PendingToolCall>,
    answer: String,
}

/// The mathematical value of a [`StreamAggregator`].
pub ghost struct AggregatorModel {
    pub pending: Seq<PendingModel>,
    pub answer: Seq<char>,
}

impl View for StreamAggregator {
    type V = AggregatorModel;

    closed spec fn view(&self) -> AggregatorModel {
        AggregatorModel { pending: self.pending.deep_view(), answer: self.answer@ }
    }
}

/// The event that ends a chunk, if the chunk reports a finish reason: the
/// snapshot of the table for `ToolCalls`, the answer so far for any other.
pub open spec fn terminal_events(state: AggregatorModel, finish: Option<FinishReason>) -> Seq<
    TurnEventModel,
> {
    match finish {
        None => Seq::empty(),
        Some(FinishReason::ToolCalls) => seq![
            TurnEventModel::ToolCallsReady(snapshot(state.pending)),
        ],
        Some(_) => seq![TurnEventModel::Done(state.answer)],
    }
}

/// The state after a chunk.
pub open spec fn state_after(state: AggregatorModel, chunk: ChunkModel) -> AggregatorModel {
    AggregatorModel {
        pending: apply_fragments(state.pending, chunk_fragments(chunk.choices)),
        answer: state.answer + chunk_content(chunk.choices),
    }
}

/// The events that a chunk gives rise to: its content deltas, then the
/// terminal event if it reports a finish reason.
pub open spec fn events_of(state: AggregatorModel, chunk: ChunkModel) -> Seq<TurnEventModel> {
    chunk_deltas(chunk.choices) + terminal_events(
        state_after(state, chunk),
        chunk_finish(chunk.choices),
    )
}

/// The state after a sequence of chunks, consumed in order.
pub open spec fn state_after_all(state: AggregatorModel, chunks: Seq<ChunkModel>) -> AggregatorModel
    decreases chunks.len(),
{
    if chunks.len() == 0 {
        state
    } else {
        state_after(state_after_all(state, chunks.drop_last()), chunks.last())
    }
}

/// The state before the first chunk: no pending call, no answer text.
pub open spec fn initial_state() -> AggregatorModel {
    AggregatorModel { pending: Seq::empty(), answer: Seq::empty() }
}

proof fn lemma_key_position_bounds(table: Seq<PendingModel>, choice: u32, call: u32)
    ensures
        0 <= key_position(table, choice, call) <= table.len(),
        key_position(table, choice, call) < table.len() ==> has_key(
            table[key_position(table, choice, call)],
            choice,
            call,
        ),
        forall|j: int|
            0 <= j < key_position(table, choice, call) ==> !has_key(#[trigger] table[j], choice, call),
    decreases table.len(),
{
    if table.len() > 0 && !has_key(table.first(), choice, call) {
        let rest = table.drop_first();
        lemma_key_position_bounds(rest, choice, call);
        assert forall|j: int| 0 <= j < key_position(table, choice, call) implies !has_key(
            #[trigger] table[j],
            choice,
            call,
        ) by {
            if j > 0 {
                assert(table[j] == rest[j - 1]);
            }
        }
    }
}

proof fn lemma_key_position_is(table: Seq<PendingModel>, choice: u32, call: u32, at: int)
    requires
        0 <= at <= table.len(),
        forall|j: int| 0 <= j < at ==> !has_key(#[trigger] table[j], choice, call),
        at < table.len() ==> has_key(table[at], choice, call),
    ensures
        key_position(table, choice, call) == at,
{
    lemma_key_position_bounds(table, choice, call);
    let found = key_position(table, choice, call);
    if found < at {
        assert(!has_key(table[found], choice, call));
    } else if found > at {
        assert(has_key(table[at], choice, call));
    }
}

fn find_pending(table: &Vec<PendingToolCall>, choice: u32, call: u32) -> (at: usize)
    ensures
        at == key_position(table.deep_view(), choice, call),
{
    let mut at: usize = 0;
    while at < table.len() && !(table[at].choice_index == choice && table[at].call_index == call)
        invariant
            at <= table.len(),
            forall|j: int| 0 <= j < at ==> !has_key(#[trigger] table.deep_view()[j], choice, call),
        decreases table.len() - at,
    {
        at += 1;
    }
    proof {
        lemma_key_position_is(table.deep_view(), choice, call, at as int);
    }
    at
}

fn text_of(field: &Option<String>) -> (text: String)
    ensures
        text@ == text_or_empty(field.deep_view()),
{
    match field {
        Some(text) => text.clone(),
        None => String::new(),
    }
}

fn apply_one(table: &mut Vec<PendingToolCall>, choice: u32, fragment: &ToolCallFragment)
    ensures
        final(table).deep_view() == apply_fragment(
            old(table).deep_view(),
            KeyedFragment { choice, fragment: fragment@ },
        ),
{
    let ghost before = table.deep_view();
    let ghost item = KeyedFragment { choice, fragment: fragment@ };
    let at = find_pending(table, choice, fragment.index);
    if at < table.len() {
        let entry = &mut table[at];
        if entry.id.as_str().is_empty() {
            if let Some(id) = &fragment.id {
                entry.id = id.clone();
            }
        }
        if let Some(arguments) = &fragment.arguments {
            entry.argument_buffer.append(arguments.as_str());
        }
        assert(table.deep_view() =~= apply_fragment(before, item));
    } else {
        let mut entry = PendingToolCall {
            choice_index: choice,
            call_index: fragment.index,
            id: text_of(&fragment.id),
            function_name: text_of(&fragment.name),
            argument_buffer: String::new(),
        };
        if let Some(arguments) = &fragment.arguments {
            entry.argument_buffer.append(arguments.as_str());
        }
        table.push(entry);
        assert(table.deep_view() =~= apply_fragment(before, item));
    }
}

fn snapshot_of(table: &Vec<PendingToolCall>) -> (calls: Vec<CompletedToolCall>)
    ensures
        calls.deep_view() == snapshot(table.deep_view()),
{
    let mut calls: Vec<CompletedToolCall> = Vec::new();
    let mut i: usize = 0;
    while i < table.len()
        invariant
            i <= table.len(),
            calls.len() == i,
            forall|j: int| 0 <= j < i ==> calls[j]@ == #[trigger] snapshot(table.deep_view())[j],
        decreases table.len() - i,
    {
        let entry = &table[i];
        calls.push(
            CompletedToolCall {
                id: entry.id.clone(),
                function_name: entry.function_name.clone(),
                arguments: entry.argument_buffer.clone(),
            },
        );
        i += 1;
    }
    assert(calls.deep_view() =~= snapshot(table.deep_view()));
    calls
}

impl StreamAggregator {
    /// The aggregator of a turn that has not seen a chunk yet.
    pub fn new() -> (aggregator: StreamAggregator)
        ensures
            aggregator@ == initial_state(),
    {
        let aggregator = StreamAggregator { pending: Vec::new(), answer: String::new() };
        assert(aggregator.pending.deep_view() =~= Seq::empty());
        aggregator
    }

    /// Consumes the next chunk of the stream.
    ///
    /// Every content fragment is appended to the answer text and reported as a
    /// `ContentDelta`; every tool-call fragment is applied to the entry of its
    /// key, which is created on first sight. If the chunk reports a finish
    /// reason, the last event is `ToolCallsReady` with the table's snapshot, or
    /// `Done` with the answer text.
    pub fn consume(&mut self, chunk: &Chunk) -> (events: Vec<TurnEvent>)
        ensures
            final(self)@ == state_after(old(self)@, chunk@),
            events.deep_view() == events_of(old(self)@, chunk@),
    {
        let ghost before = self@;
        let ghost choices = chunk@.choices;
        let mut events: Vec<TurnEvent> = Vec::new();
        let mut finish: Option<FinishReason> = None;
        let mut ci: usize = 0;
        assert(choices.take(0) =~= Seq::empty());
        assert(events.deep_view() =~= Seq::empty());
        while ci < chunk.choices.len()
            invariant
                ci <= chunk.choices.len(),
                choices == chunk@.choices,
                self.pending.deep_view() == apply_fragments(
                    before.pending,
                    chunk_fragments(choices.take(ci as int)),
                ),
                self.answer@ == before.answer + chunk_content(choices.take(ci as int)),
                events.deep_view() == chunk_deltas(choices.take(ci as int)),
                finish == chunk_finish(choices.take(ci as int)),
            decreases chunk.choices.len() - ci,
        {
            let choice = &chunk.choices[ci];
            let ghost done = choices.take(ci as int);
            let ghost next = choices.take(ci + 1);
            assert(next.drop_last() =~= done);
            assert(next.last() == choice@);
            let mut fi: usize = 0;
            assert(keyed(choice.index, choice@.tool_calls.take(0)) =~= Seq::empty());
            assert(chunk_fragments(done) + Seq::<KeyedFragment>::empty() =~= chunk_fragments(done));
            while fi < choice.tool_calls.len()
                invariant
                    fi <= choice.tool_calls.len(),
                    self.answer@ == before.answer + chunk_content(done),
                    self.pending.deep_view() == apply_fragments(
                        before.pending,
                        chunk_fragments(done) + keyed(
                            choice.index,
                            choice@.tool_calls.take(fi as int),
                        ),
                    ),
                decreases choice.tool_calls.len() - fi,
            {
                let fragment = &choice.tool_calls[fi];
                let ghost seen = chunk_fragments(done) + keyed(
                    choice.index,
                    choice@.tool_calls.take(fi as int),
                );
                let ghost item = KeyedFragment { choice: choice.index, fragment: fragment@ };
                apply_one(&mut self.pending, choice.index, fragment);
                fi += 1;
                proof {
                    let grown = chunk_fragments(done) + keyed(
                        choice.index,
                        choice@.tool_calls.take(fi as int),
                    );
                    assert(grown =~= seen.push(item));
                    assert(grown.drop_last() =~= seen);
                    assert(grown.last() == item);
                }
            }
            assert(choice@.tool_calls.take(fi as int) =~= choice@.tool_calls);
            if let Some(text) = &choice.content {
                self.answer.append(text.as_str());
                events.push(TurnEvent::ContentDelta(text.clone()));
                assert(events.deep_view() =~= chunk_deltas(done).push(
                    TurnEventModel::ContentDelta(text@),
                ));
            }
            if finish.is_none() {
                finish = choice.finish_reason;
            }
            proof {
                let piece = text_or_empty(choice@.content);
                assert(chunk_content(next) == chunk_content(done) + piece);
                assert(self.answer@ =~= (before.answer + chunk_content(done)) + piece);
                assert((before.answer + chunk_content(done)) + piece =~= before.answer + (
                chunk_content(done) + piece));
            }
            ci += 1;
        }
        assert(choices.take(ci as int) =~= choices);
        match finish {
            None => {
                assert(events.deep_view() =~= events_of(before, chunk@));
            },
            Some(FinishReason::ToolCalls) => {
                let calls = snapshot_of(&self.pending);
                let ghost shown = events.deep_view();
                events.push(TurnEvent::ToolCallsReady(calls));
                assert(events.deep_view() =~= shown.push(
                    TurnEventModel::ToolCallsReady(snapshot(self.pending.deep_view())),
                ));
                assert(events.deep_view() =~= events_of(before, chunk@));
            },
            Some(_) => {
                let ghost shown = events.deep_view();
                events.push(TurnEvent::Done(self.answer.clone()));
                assert(events.deep_view() =~= shown.push(TurnEventModel::Done(self.answer@)));
                assert(events.deep_view() =~= events_of(before, chunk@));
            },
        }
        events
    }

    /// The event for the end of the stream: `Done` with the answer text
    /// accumulated so far, whether or not a finish reason was seen.
    pub fn finish(&self) -> (event: TurnEvent)
        ensures
            event@ == TurnEventModel::Done(self@.answer),
    {
        TurnEvent::Done(self.answer.clone())
    }

    /// The answer text accumulated so far.
    pub fn answer(&self) -> (text: &String)
        ensures
            text@ == self@.answer,
    {
        &self.answer
    }

    /// The table of pending tool calls, in the order in which their keys were
    /// first seen.
    pub fn pending(&self) -> (table: &Vec<PendingToolCall>)
        ensures
            table.deep_view() == self@.pending,
    {
        &self.pending
    }

    /// The completed calls of the table as it stands.
    pub fn completed_calls(&self) -> (calls: Vec<CompletedToolCall>)
        ensures
            calls.deep_view() == snapshot(self@.pending),
    {
        snapshot_of(&self.pending)
    }
}

/// All tool-call fragments of a stream, in arrival order, whatever the chunks
/// that brought them.
pub open spec fn stream_fragments(chunks: Seq<ChunkModel>) -> Seq<KeyedFragment>
    decreases chunks.len(),
{
    if chunks.len() == 0 {
        Seq::empty()
    } else {
        stream_fragments(chunks.drop_last()) + chunk_fragments(chunks.last().choices)
    }
}

/// All answer text of a stream, in arrival order.
pub open spec fn stream_content(chunks: Seq<ChunkModel>) -> Seq<char>
    decreases chunks.len(),
{
    if chunks.len() == 0 {
        Seq::empty()
    } else {
        stream_content(chunks.drop_last()) + chunk_content(chunks.last().choices)
    }
}

/// Whether a fragment belongs to the call `(choice, call)`.
pub open spec fn belongs_to(item: KeyedFragment, choice: u32, call: u32) -> bool {
    item.choice == choice && item.fragment.index == call
}

/// Whether some fragment belongs to the call `(choice, call)`.
pub open spec fn mentions(items: Seq<KeyedFragment>, choice: u32, call: u32) -> bool {
    exists|i: int| 0 <= i < items.len() && belongs_to(#[trigger] items[i], choice, call)
}

/// The argument text that the fragments of the call `(choice, call)` carry,
/// concatenated in arrival order.
pub open spec fn arguments_for(items: Seq<KeyedFragment>, choice: u32, call: u32) -> Seq<char>
    decreases items.len(),
{
    if items.len() == 0 {
        Seq::empty()
    } else if belongs_to(items.last(), choice, call) {
        arguments_for(items.drop_last(), choice, call) + text_or_empty(
            items.last().fragment.arguments,
        )
    } else {
        arguments_for(items.drop_last(), choice, call)
    }
}

/// Whether no two entries of a table share a key.
pub open spec fn keys_distinct(table: Seq<PendingModel>) -> bool {
    forall|i: int, j: int|
        0 <= i < j < table.len() ==> !has_key(
            #[trigger] table[j],
            (#[trigger] table[i]).choice_index,
            table[i].call_index,
        )
}

/// The argument buffer that a table holds for the call `(choice, call)`, empty
/// where it has no entry for it.
pub open spec fn buffer_of(table: Seq<PendingModel>, choice: u32, call: u32) -> Seq<char> {
    let at = key_position(table, choice, call);
    if at < table.len() {
        table[at].argument_buffer
    } else {
        Seq::empty()
    }
}

proof fn lemma_apply_fragment(table: Seq<PendingModel>, item: KeyedFragment, choice: u32, call: u32)
    requires
        keys_distinct(table),
    ensures
        keys_distinct(apply_fragment(table, item)),
        key_position(apply_fragment(table, item), choice, call) < apply_fragment(table, item).len()
            <==> key_position(table, choice, call) < table.len() || belongs_to(item, choice, call),
        buffer_of(apply_fragment(table, item), choice, call) == buffer_of(table, choice, call) + (
        if belongs_to(item, choice, call) {
            text_or_empty(item.fragment.arguments)
        } else {
            Seq::empty()
        }),
{
    let after = apply_fragment(table, item);
    let hit = key_position(table, item.choice, item.fragment.index);
    let at = key_position(table, choice, call);
    lemma_key_position_bounds(table, item.choice, item.fragment.index);
    lemma_key_position_bounds(table, choice, call);
    assert(forall|j: int|
        0 <= j < table.len() ==> (#[trigger] after[j]).choice_index == table[j].choice_index
            && after[j].call_index == table[j].call_index);
    assert(keys_distinct(after)) by {
        assert forall|i: int, j: int| 0 <= i < j < after.len() implies !has_key(
            #[trigger] after[j],
            (#[trigger] after[i]).choice_index,
            after[i].call_index,
        ) by {
            if j < table.len() {
                assert(!has_key(table[j], table[i].choice_index, table[i].call_index));
            } else {
                assert(!has_key(table[i], item.choice, item.fragment.index));
            }
        }
    }
    if at < table.len() {
        lemma_key_position_is(after, choice, call, at);
        if belongs_to(item, choice, call) {
            assert(hit == at);
        } else if hit < table.len() {
            assert(hit != at);
        }
        assert(buffer_of(after, choice, call) =~= buffer_of(table, choice, call) + (
        if belongs_to(item, choice, call) {
            text_or_empty(item.fragment.arguments)
        } else {
            Seq::empty()
        }));
    } else if belongs_to(item, choice, call) {
        assert(hit == table.len());
        lemma_key_position_is(after, choice, call, table.len() as int);
        assert(buffer_of(after, choice, call) =~= Seq::<char>::empty() + text_or_empty(
            item.fragment.arguments,
        ));
    } else {
        lemma_key_position_is(after, choice, call, after.len() as int);
        assert(buffer_of(after, choice, call) =~= Seq::<char>::empty() + Seq::<char>::empty());
    }
}

proof fn lemma_apply_fragments(
    table: Seq<PendingModel>,
    items: Seq<KeyedFragment>,
    choice: u32,
    call: u32,
)
    requires
        keys_distinct(table),
    ensures
        keys_distinct(apply_fragments(table, items)),
        key_position(apply_fragments(table, items), choice, call) < apply_fragments(
            table,
            items,
        ).len() <==> key_position(table, choice, call) < table.len() || mentions(
            items,
            choice,
            call,
        ),
        buffer_of(apply_fragments(table, items), choice, call) == buffer_of(table, choice, call)
            + arguments_for(items, choice, call),
    decreases items.len(),
{
    if items.len() == 0 {
        assert(buffer_of(table, choice, call) =~= buffer_of(table, choice, call) + Seq::<
            char,
        >::empty());
    } else {
        let front = items.drop_last();
        let middle = apply_fragments(table, front);
        lemma_apply_fragments(table, front, choice, call);
        lemma_apply_fragment(middle, items.last(), choice, call);
        if mentions(front, choice, call) {
            let i = choose|i: int| 0 <= i < front.len() && belongs_to(#[trigger] front[i], choice, call);
            assert(belongs_to(items[i], choice, call));
        }
        if belongs_to(items.last(), choice, call) {
            assert(belongs_to(items[items.len() - 1], choice, call));
        }
        if mentions(items, choice, call) && !belongs_to(items.last(), choice, call) {
            let i = choose|i: int| 0 <= i < items.len() && belongs_to(#[trigger] items[i], choice, call);
            assert(belongs_to(front[i], choice, call));
        }
        let piece = if belongs_to(items.last(), choice, call) {
            text_or_empty(items.last().fragment.arguments)
        } else {
            Seq::empty()
        };
        assert((buffer_of(table, choice, call) + arguments_for(front, choice, call)) + piece
            =~= buffer_of(table, choice, call) + arguments_for(items, choice, call));
    }
}

proof fn lemma_apply_fragments_concat(
    table: Seq<PendingModel>,
    first: Seq<KeyedFragment>,
    second: Seq<KeyedFragment>,
)
    ensures
        apply_fragments(table, first + second) == apply_fragments(
            apply_fragments(table, first),
            second,
        ),
    decreases second.len(),
{
    if second.len() == 0 {
        assert(first + second =~= first);
    } else {
        lemma_apply_fragments_concat(table, first, second.drop_last());
        assert((first + second).drop_last() =~= first + second.drop_last());
        assert((first + second).last() == second.last());
    }
}

/// The table depends on the fragments alone, not on the chunks that brought
/// them, and so does the answer text.
pub proof fn lemma_state_after_all(chunks: Seq<ChunkModel>)
    ensures
        state_after_all(initial_state(), chunks).pending == apply_fragments(
            Seq::empty(),
            stream_fragments(chunks),
        ),
        state_after_all(initial_state(), chunks).answer == stream_content(chunks),
    decreases chunks.len(),
{
    if chunks.len() > 0 {
        lemma_state_after_all(chunks.drop_last());
        lemma_apply_fragments_concat(
            Seq::empty(),
            stream_fragments(chunks.drop_last()),
            chunk_fragments(chunks.last().choices),
        );
        assert(Seq::<char>::empty() + stream_content(chunks) =~= stream_content(chunks));
        assert(state_after_all(initial_state(), chunks).answer =~= stream_content(chunks));
    } else {
        assert(state_after_all(initial_state(), chunks).answer =~= stream_content(chunks));
    }
}

/// For every stream and every call `(choice, call)` that at least one of its
/// fragments belongs to, the table ends with exactly one entry for that call,
/// and the entry's argument buffer is the concatenation, in arrival order, of
/// the argument text of all fragments of the call, however they were spread
/// over the chunks.
pub proof fn lemma_argument_buffer_is_concatenation(chunks: Seq<ChunkModel>, choice: u32, call: u32)
    requires
        mentions(stream_fragments(chunks), choice, call),
    ensures
        ({
            let table = state_after_all(initial_state(), chunks).pending;
            let at = key_position(table, choice, call);
            &&& 0 <= at < table.len()
            &&& has_key(table[at], choice, call)
            &&& table[at].argument_buffer == arguments_for(stream_fragments(chunks), choice, call)
            &&& snapshot(table)[at].arguments == arguments_for(
                stream_fragments(chunks),
                choice,
                call,
            )
            &&& forall|j: int| 0 <= j < table.len() && j != at ==> !has_key(table[j], choice, call)
        }),
{
    let items = stream_fragments(chunks);
    let table = state_after_all(initial_state(), chunks).pending;
    lemma_state_after_all(chunks);
    lemma_apply_fragments(Seq::empty(), items, choice, call);
    lemma_key_position_bounds(table, choice, call);
    let at = key_position(table, choice, call);
    assert(buffer_of(Seq::<PendingModel>::empty(), choice, call) + arguments_for(
        items,
        choice,
        call,
    ) =~= arguments_for(items, choice, call));
    assert forall|j: int| 0 <= j < table.len() && j != at implies !has_key(
        table[j],
        choice,
        call,
    ) by {
        if j > at {
            assert(!has_key(table[j], table[at].choice_index, table[at].call_index));
        }
    }
}

/// A call that no fragment of the stream belongs to has no entry in the table.
pub proof fn lemma_unmentioned_call_has_no_entry(chunks: Seq<ChunkModel>, choice: u32, call: u32)
    requires
        !mentions(stream_fragments(chunks), choice, call),
    ensures
        forall|j: int|
            0 <= j < state_after_all(initial_state(), chunks).pending.len() ==> !has_key(
                #[trigger] state_after_all(initial_state(), chunks).pending[j],
                choice,
                call,
            ),
{
    let table = state_after_all(initial_state(), chunks).pending;
    lemma_state_after_all(chunks);
    lemma_apply_fragments(Seq::empty(), stream_fragments(chunks), choice, call);
    lemma_key_position_bounds(table, choice, call);
}

/// The fragment that carries a whole call under the given index.
pub open spec fn whole_fragment(call: CallModel, index: int) -> FragmentModel {
    FragmentModel {
        index: index as u32,
        id: Some(call.id),
        name: Some(call.function_name),
        arguments: Some(call.arguments),
    }
}

/// The chunk that stands for a response that came in one piece: one choice
/// with the content, each tool call as one fragment, and the finish reason
/// `ToolCalls` where the response holds tool calls, else `Stop`.
pub open spec fn response_model(content: Option<Seq<char>>, calls: Option<Seq<CallModel>>)
    -> ChunkModel {
    ChunkModel {
        choices: seq![
            ChoiceModel {
                index: 0,
                content,
                tool_calls: match calls {
                    Some(calls) => Seq::new(calls.len(), |i: int| whole_fragment(calls[i], i)),
                    None => Seq::empty(),
                },
                finish_reason: Some(
                    if calls is Some {
                        FinishReason::ToolCalls
                    } else {
                        FinishReason::Stop
                    },
                ),
            },
        ],
    }
}

/// Turns a response that came in one piece into the chunk that stands for it,
/// so that it takes the same path as a streamed one.
pub fn response_chunk(content: Option<String>, tool_calls: Option<Vec<CompletedToolCall>>) -> (chunk:
    Chunk)
    requires
        tool_calls matches Some(calls) ==> calls.len() <= u32::MAX,
    ensures
        chunk@ == response_model(content.deep_view(), tool_calls.deep_view()),
{
    let mut fragments: Vec<ToolCallFragment> = Vec::new();
    let finish_reason = match &tool_calls {
        Some(calls) => {
            let mut i: usize = 0;
            while i < calls.len()
                invariant
                    i <= calls.len() <= u32::MAX,
                    fragments.len() == i,
                    forall|j: int|
                        0 <= j < i ==> (#[trigger] fragments[j])@ == whole_fragment(calls[j]@, j),
                decreases calls.len() - i,
            {
                let call = &calls[i];
                fragments.push(
                    ToolCallFragment {
                        index: i as u32,
                        id: Some(call.id.clone()),
                        name: Some(call.function_name.clone()),
                        arguments: Some(call.arguments.clone()),
                    },
                );
                i += 1;
            }
            assert(fragments.deep_view() =~= Seq::new(
                calls.deep_view().len(),
                |i: int| whole_fragment(calls.deep_view()[i], i),
            ));
            FinishReason::ToolCalls
        },
        None => {
            assert(fragments.deep_view() =~= Seq::empty());
            FinishReason::Stop
        },
    };
    let choice = ChoiceDelta {
        index: 0,
        content,
        tool_calls: fragments,
        finish_reason: Some(finish_reason),
    };
    let mut choices: Vec<ChoiceDelta> = Vec::new();
    choices.push(choice);
    assert(choices.deep_view() =~= seq![choice@]);
    Chunk { choices }
}

proof fn lemma_whole_fragments(calls: Seq<CallModel>, n: int)
    requires
        0 <= n <= calls.len() <= u32::MAX,
    ensures
        ({
            let fragments = Seq::new(calls.len(), |i: int| whole_fragment(calls[i], i));
            let table = apply_fragments(Seq::empty(), keyed(0, fragments).take(n));
            &&& table.len() == n
            &&& forall|j: int|
                0 <= j < n ==> has_key(#[trigger] table[j], 0, j as u32) && completed(table[j])
                    == calls[j]
        }),
    decreases n,
{
    let fragments = Seq::new(calls.len(), |i: int| whole_fragment(calls[i], i));
    let items = keyed(0, fragments);
    if n > 0 {
        lemma_whole_fragments(calls, n - 1);
        let before = apply_fragments(Seq::empty(), items.take(n - 1));
        assert(items.take(n).drop_last() =~= items.take(n - 1));
        assert(items.take(n).last() == items[n - 1]);
        lemma_key_position_is(before, 0, (n - 1) as u32, n - 1);
        let after = apply_fragment(before, items[n - 1]);
        assert(after[n - 1].argument_buffer =~= calls[n - 1].arguments);
        assert forall|j: int| 0 <= j < n implies has_key(#[trigger] after[j], 0, j as u32)
            && completed(after[j]) == calls[j] by {
            if j < n - 1 {
                assert(after[j] == before[j]);
            }
        }
    }
}

/// A response that came in one piece and holds tool calls is reported as
/// `ToolCallsReady` with exactly those calls, in their order.
pub proof fn lemma_response_chunk_keeps_calls(content: Option<Seq<char>>, calls: Seq<CallModel>)
    requires
        calls.len() <= u32::MAX,
    ensures
        ({
            let chunk = response_model(content, Some(calls));
            let events = events_of(initial_state(), chunk);
            &&& events.len() > 0
            &&& events.last() == TurnEventModel::ToolCallsReady(calls)
        }),
{
    let chunk = response_model(content, Some(calls));
    let choice = chunk.choices[0];
    let fragments = choice.tool_calls;
    let none = Seq::<ChoiceModel>::empty();
    assert(chunk.choices.drop_last() =~= none);
    assert(chunk.choices.last() == choice);
    assert(chunk_fragments(none) =~= Seq::empty());
    assert(chunk_finish(none) is None);
    assert(chunk_fragments(chunk.choices) =~= keyed(0, fragments));
    assert(chunk_finish(chunk.choices) == Some(FinishReason::ToolCalls));
    lemma_whole_fragments(calls, calls.len() as int);
    assert(keyed(0, fragments).take(calls.len() as int) =~= keyed(0, fragments));
    let table = apply_fragments(Seq::empty(), keyed(0, fragments));
    assert(snapshot(table) =~= calls);
}

} // verus!
