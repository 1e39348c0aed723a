//! Reconstruction of one streamed model turn: the answer text and the table of
//! tool calls that arrive as fragments spread over many chunks.

use vstd::prelude::*;

verus! {

/// Why the model stopped producing a choice.
#[derive(Clone, Copy, Debug, PartialEq, Eq, Structural)]
pub enum FinishReason {
    Stop,
    Length,
    ToolCalls,
    ContentFilter,
    FunctionCall,
}

/// One fragment of a tool call inside a chunk. Each field may be absent, which
/// means that this chunk brings no update for it.
#[derive(Debug)]
pub struct ToolCallFragment {
    pub index: u32,
    pub id: Option<String>,
    pub name: Option<String>,
    pub arguments: Option<String>,
}

/// What one chunk carries for one choice.
#[derive(Debug)]
pub struct ChoiceDelta {
    pub index: u32,
    pub content: Option<String>,
    pub tool_calls: Vec<ToolCallFragment>,
    pub finish_reason: Option<FinishReason>,
}

/// One incremental unit of a streamed response.
#[derive(Debug)]
pub struct Chunk {
    pub choices: Vec<ChoiceDelta>,
}

/// A tool call under reconstruction, keyed by `(choice_index, call_index)`.
#[derive(Debug)]
pub struct PendingToolCall {
    pub choice_index: u32,
    pub call_index: u32,
    pub id: String,
    pub function_name: String,
    pub argument_buffer: String,
}

/// A tool call as it stood when the stream reported completion.
#[derive(Debug)]
pub struct CompletedToolCall {
    pub id: String,
    pub function_name: String,
    pub arguments: String,
}

/// What the aggregator reports while it consumes a stream.
#[derive(Debug)]
pub enum TurnEvent {
    /// A piece of answer text, to be shown at once.
    ContentDelta(String),
    /// The stream asked for tool calls; the table as it stood at that moment.
    ToolCallsReady(Vec<CompletedToolCall>),
    /// The turn is over; the answer text accumulated so far.
    Done(String),
}

/// The mathematical value of a [`ToolCallFragment`].
pub ghost struct FragmentModel {
    pub index: u32,
    pub id: Option<Seq<char>>,
    pub name: Option<Seq<char>>,
    pub arguments: Option<Seq<char>>,
}

/// The mathematical value of a [`ChoiceDelta`].
pub ghost struct ChoiceModel {
    pub index: u32,
    pub content: Option<Seq<char>>,
    pub tool_calls: Seq<FragmentModel>,
    pub finish_reason: Option<FinishReason>,
}

/// The mathematical value of a [`Chunk`].
pub ghost struct ChunkModel {
    pub choices: Seq<ChoiceModel>,
}

/// The mathematical value of a [`PendingToolCall`].
pub ghost struct PendingModel {
    pub choice_index: u32,
    pub call_index: u32,
    pub id: Seq<char>,
    pub function_name: Seq<char>,
    pub argument_buffer: Seq<char>,
}

/// The mathematical value of a [`CompletedToolCall`].
pub ghost struct CallModel {
    pub id: Seq<char>,
    pub function_name: Seq<char>,
    pub arguments: Seq<char>,
}

/// The mathematical value of a [`TurnEvent`].
pub ghost enum TurnEventModel {
    ContentDelta(Seq<char>),
    ToolCallsReady(Seq<CallModel>),
    Done(Seq<char>),
}

/// A fragment together with the index of the choice that it came in.
pub ghost struct KeyedFragment {
    pub choice: u32,
    pub fragment: FragmentModel,
}

impl View for ToolCallFragment {
    type V = FragmentModel;

    open spec fn view(&self) -> FragmentModel {
        FragmentModel {
            index: self.index,
            id: self.id.deep_view(),
            name: self.name.deep_view(),
            arguments: self.arguments.deep_view(),
        }
    }
}

impl DeepView for ToolCallFragment {
    type V = FragmentModel;

    open spec fn deep_view(&self) -> FragmentModel {
        self@
    }
}

impl View for ChoiceDelta {
    type V = ChoiceModel;

    open spec fn view(&self) -> ChoiceModel {
        ChoiceModel {
            index: self.index,
            content: self.content.deep_view(),
            tool_calls: self.tool_calls.deep_view(),
            finish_reason: self.finish_reason,
        }
    }
}

impl DeepView for ChoiceDelta {
    type V = ChoiceModel;

    open spec fn deep_view(&self) -> ChoiceModel {
        self@
    }
}

impl View for Chunk {
    type V = ChunkModel;

    open spec fn view(&self) -> ChunkModel {
        ChunkModel { choices: self.choices.deep_view() }
    }
}

impl DeepView for Chunk {
    type V = ChunkModel;

    open spec fn deep_view(&self) -> ChunkModel {
        self@
    }
}

impl View for PendingToolCall {
    type V = PendingModel;

    open spec fn view(&self) -> PendingModel {
        PendingModel {
            choice_index: self.choice_index,
            call_index: self.call_index,
            id: self.id@,
            function_name: self.function_name@,
            argument_buffer: self.argument_buffer@,
        }
    }
}

impl DeepView for PendingToolCall {
    type V = PendingModel;

    open spec fn deep_view(&self) -> PendingModel {
        self@
    }
}

impl View for CompletedToolCall {
    type V = CallModel;

    open spec fn view(&self) -> CallModel {
        CallModel {
            id: self.id@,
            function_name: self.function_name@,
            arguments: self.arguments@,
        }
    }
}

impl DeepView for CompletedToolCall {
    type V = CallModel;

    open spec fn deep_view(&self) -> CallModel {
        self@
    }
}

impl View for TurnEvent {
    type V = TurnEventModel;

    open spec fn view(&self) -> TurnEventModel {
        match self {
            TurnEvent::ContentDelta(text) => TurnEventModel::ContentDelta(text@),
            TurnEvent::ToolCallsReady(calls) => TurnEventModel::ToolCallsReady(calls.deep_view()),
            TurnEvent::Done(text) => TurnEventModel::Done(text@),
        }
    }
}

impl DeepView for TurnEvent {
    type V = TurnEventModel;

    open spec fn deep_view(&self) -> TurnEventModel {
        self@
    }
}

impl Clone for CompletedToolCall {
    fn clone(&self) -> (copy: CompletedToolCall)
        ensures
            copy@ == self@,
    {
        CompletedToolCall {
            id: self.id.clone(),
            function_name: self.function_name.clone(),
            arguments: self.arguments.clone(),
        }
    }
}

/// The text of an optional field, empty where the field is absent.
pub open spec fn text_or_empty(field: Option<Seq<char>>) -> Seq<char> {
    match field {
        Some(text) => text,
        None => Seq::empty(),
    }
}

/// Whether a table entry has the key `(choice, call)`.
pub open spec fn has_key(entry: PendingModel, choice: u32, call: u32) -> bool {
    entry.choice_index == choice && entry.call_index == call
}

/// The position of the first entry with the key `(choice, call)`, or the
/// table's length where no entry has it.
pub open spec fn key_position(table: Seq<PendingModel>, choice: u32, call: u32) -> int
    decreases table.len(),
{
    if table.len() == 0 {
        0
    } else if has_key(table.first(), choice, call) {
        0
    } else {
        1 + key_position(table.drop_first(), choice, call)
    }
}

/// The entry that the first fragment of a call creates: the id and the name
/// that the fragment holds, as far as it holds them, and an empty buffer.
pub open spec fn fresh_entry(item: KeyedFragment) -> PendingModel {
    PendingModel {
        choice_index: item.choice,
        call_index: item.fragment.index,
        id: text_or_empty(item.fragment.id),
        function_name: text_or_empty(item.fragment.name),
        argument_buffer: Seq::empty(),
    }
}

/// An entry after one more fragment of its call: the argument text of the
/// fragment is appended, and an id that was still empty is filled in.
pub open spec fn extended_entry(entry: PendingModel, fragment: FragmentModel) -> PendingModel {
    PendingModel {
        id: if entry.id.len() == 0 && fragment.id is Some {
            fragment.id->Some_0
        } else {
            entry.id
        },
        argument_buffer: entry.argument_buffer + text_or_empty(fragment.arguments),
        ..entry
    }
}

/// The table after one fragment.
pub open spec fn apply_fragment(table: Seq<PendingModel>, item: KeyedFragment) -> Seq<
    PendingModel,
> {
    let at = key_position(table, item.choice, item.fragment.index);
    if at < table.len() {
        table.update(at, extended_entry(table[at], item.fragment))
    } else {
        table.push(extended_entry(fresh_entry(item), item.fragment))
    }
}

/// The table after a sequence of fragments, applied in order.
pub open spec fn apply_fragments(table: Seq<PendingModel>, items: Seq<KeyedFragment>) -> Seq<
    PendingModel,
>
    decreases items.len(),
{
    if items.len() == 0 {
        table
    } else {
        apply_fragment(apply_fragments(table, items.drop_last()), items.last())
    }
}

/// The fragments of one choice, each with the choice's index.
pub open spec fn keyed(choice: u32, fragments: Seq<FragmentModel>) -> Seq<KeyedFragment> {
    Seq::new(fragments.len(), |i: int| KeyedFragment { choice, fragment: fragments[i] })
}

/// All tool-call fragments of a chunk, in arrival order.
pub open spec fn chunk_fragments(choices: Seq<ChoiceModel>) -> Seq<KeyedFragment>
    decreases choices.len(),
{
    if choices.len() == 0 {
        Seq::empty()
    } else {
        chunk_fragments(choices.drop_last()) + keyed(choices.last().index, choices.last().tool_calls)
    }
}

/// The answer text that a chunk carries: the content fragments of its choices,
/// in order.
pub open spec fn chunk_content(choices: Seq<ChoiceModel>) -> Seq<char>
    decreases choices.len(),
{
    if choices.len() == 0 {
        Seq::empty()
    } else {
        chunk_content(choices.drop_last()) + text_or_empty(choices.last().content)
    }
}

/// One `ContentDelta` for each content fragment of a chunk, in order.
pub open spec fn chunk_deltas(choices: Seq<ChoiceModel>) -> Seq<TurnEventModel>
    decreases choices.len(),
{
    if choices.len() == 0 {
        Seq::empty()
    } else {
        match choices.last().content {
            Some(text) => chunk_deltas(choices.drop_last()).push(TurnEventModel::ContentDelta(text)),
            None => chunk_deltas(choices.drop_last()),
        }
    }
}

/// The first finish reason that a chunk reports, if it reports any.
pub open spec fn chunk_finish(choices: Seq<ChoiceModel>) -> Option<FinishReason>
    decreases choices.len(),
{
    if choices.len() == 0 {
        None
    } else {
        match chunk_finish(choices.drop_last()) {
            Some(reason) => Some(reason),
            None => choices.last().finish_reason,
        }
    }
}

/// A table entry frozen into a completed call.
pub open spec fn completed(entry: PendingModel) -> CallModel {
    CallModel {
        id: entry.id,
        function_name: entry.function_name,
        arguments: entry.argument_buffer,
    }
}

/// The completed calls of a table, in the order in which their keys were first
/// seen.
pub open spec fn snapshot(table: Seq<PendingModel>) -> Seq<CallModel> {
    Seq::new(table.len(), |i: int| completed(table[i]))
}

} // verus!
