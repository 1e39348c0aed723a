//! The completion orchestrator: the state machine that drives one turn from
//! the user's input to the committed answer.
//!
//! The orchestrator performs no I/O. Its caller hands it events (a chunk was
//! read, the stream ended, a tool process ended) and performs the actions that
//! it answers with (open a stream, show text, start a tool, commit the turn).

use crate::aggregator::{
    events_of, initial_state, state_after, stream_content, terminal_events, AggregatorModel,
    StreamAggregator,
};
use crate::continuation::{
    build, continuation, ids_of, lemma_continuation_shape, lemma_continuation_without_results,
    tool_message_count,
};
use crate::dispatch::{
    ended_in_order, entry_model, fresh_board, is_complete, is_completion_order,
    lemma_plan_counts_resolved, lemma_record_prefix, lemma_unresolved_calls_plan_nothing, plan,
    plan_model, record_all, record_model, resolved_count, BoardModel, Invocation,
    InvocationModel, ProcessOutcome, ProcessOutcomeModel, ResultBoard,
};
use crate::message::{announcement_message, clone_messages, Message, MessageModel};
use crate::registry::{is_registered, schemas_of, ToolRegistry, ToolSpecModel};
use crate::stream::{
    chunk_content, chunk_deltas, chunk_finish, CallModel, ChoiceModel, Chunk, ChunkModel,
    CompletedToolCall, FinishReason, TurnEvent, TurnEventModel,
};
use vstd::prelude::*;

verus! {

/// Where a turn stands.
#[derive(Clone, Copy, Debug, PartialEq, Eq, Structural)]
pub enum Phase {
    /// No turn is under way.
    Idle,
    /// The first stream is open.
    AwaitingFirstStream,
    /// The tools of the turn are running.
    ToolDispatch,
    /// The continuation stream is open.
    AwaitingSecondStream,
    /// The turn was committed to the session.
    Committed,
}

/// A chat request. `tools` holds the schemas offered to the model; a request
/// without schemas leaves the tool choice out.
#[derive(Debug)]
pub struct ChatRequest {
    pub messages: Vec<Message>,
    pub tools: Vec<String>,
    pub tool_choice_auto: bool,
    pub max_tokens: Option<u32>,
}

/// The mathematical value of a [`ChatRequest`].
pub ghost struct ChatRequestModel {
    pub messages: Seq<MessageModel>,
    pub tools: Seq<Seq<char>>,
    pub tool_choice_auto: bool,
    pub max_tokens: Option<u32>,
}

impl View for ChatRequest {
    type V = ChatRequestModel;

    open spec fn view(&self) -> ChatRequestModel {
        ChatRequestModel {
            messages: self.messages.deep_view(),
            tools: self.tools.deep_view(),
            tool_choice_auto: self.tool_choice_auto,
            max_tokens: self.max_tokens,
        }
    }
}

/// What happened outside, as the caller reports it.
#[derive(Debug)]
pub enum Event {
    /// The user entered `input`; `messages` is the session's history with the
    /// input as its last message.
    Start { input: String, messages: Vec<Message>, max_tokens: Option<u32> },
    /// The open stream delivered a chunk.
    Chunk(Chunk),
    /// The open stream ended.
    StreamEnd,
    /// Reading the open stream failed.
    StreamError(String),
    /// The process of the invocation at `index` ended.
    ToolFinished { index: usize, outcome: ProcessOutcome },
    /// The user gave the turn up.
    Cancel,
}

/// The mathematical value of an [`Event`].
pub ghost enum EventModel {
    Start { input: Seq<char>, messages: Seq<MessageModel>, max_tokens: Option<u32> },
    Chunk(ChunkModel),
    StreamEnd,
    StreamError(Seq<char>),
    ToolFinished { index: int, outcome: ProcessOutcomeModel },
    Cancel,
}

impl View for Event {
    type V = EventModel;

    open spec fn view(&self) -> EventModel {
        match self {
            Event::Start { input, messages, max_tokens } => EventModel::Start {
                input: input@,
                messages: messages.deep_view(),
                max_tokens: *max_tokens,
            },
            Event::Chunk(chunk) => EventModel::Chunk(chunk@),
            Event::StreamEnd => EventModel::StreamEnd,
            Event::StreamError(reason) => EventModel::StreamError(reason@),
            Event::ToolFinished { index, outcome } => EventModel::ToolFinished {
                index: *index as int,
                outcome: outcome@,
            },
            Event::Cancel => EventModel::Cancel,
        }
    }
}

/// What the caller is to do.
#[derive(Debug)]
pub enum Action {
    /// Open a stream for the request.
    OpenStream(ChatRequest),
    /// Show a piece of answer text.
    Emit(String),
    /// Start `executable` with `arguments` as its only argument, and report
    /// its end as `ToolFinished` with this `index`.
    RunTool { index: usize, executable: String, arguments: String },
    /// Append the turn to the session.
    Commit { input: String, output: String },
    /// Report a transport error; the turn is lost and nothing is committed.
    Fail(String),
    /// Stop reading the stream and stop the tools that still run; the turn is
    /// given up and nothing is committed.
    Abandon,
}

/// The mathematical value of an [`Action`].
pub ghost enum ActionModel {
    OpenStream(ChatRequestModel),
    Emit(Seq<char>),
    RunTool { index: int, executable: Seq<char>, arguments: Seq<char> },
    Commit { input: Seq<char>, output: Seq<char> },
    Fail(Seq<char>),
    Abandon,
}

impl View for Action {
    type V = ActionModel;

    open spec fn view(&self) -> ActionModel {
        match self {
            Action::OpenStream(request) => ActionModel::OpenStream(request@),
            Action::Emit(text) => ActionModel::Emit(text@),
            Action::RunTool { index, executable, arguments } => ActionModel::RunTool {
                index: *index as int,
                executable: executable@,
                arguments: arguments@,
            },
            Action::Commit { input, output } => ActionModel::Commit {
                input: input@,
                output: output@,
            },
            Action::Fail(reason) => ActionModel::Fail(reason@),
            Action::Abandon => ActionModel::Abandon,
        }
    }
}

impl DeepView for Action {
    type V = ActionModel;

    open spec fn deep_view(&self) -> ActionModel {
        self@
    }
}

/// The mathematical value of an [`Orchestrator`].
pub ghost struct OrchestratorModel {
    pub registry: Seq<ToolSpecModel>,
    pub phase: Phase,
    pub input: Seq<char>,
    /// The messages of the first request.
    pub history: Seq<MessageModel>,
    pub max_tokens: Option<u32>,
    /// The answer text and the pending calls of the turn.
    pub stream: AggregatorModel,
    /// The calls that the first stream completed.
    pub calls: Seq<CallModel>,
    pub board: BoardModel,
}

/// The state of an orchestrator that has not run a turn yet.
pub open spec fn idle_state(registry: Seq<ToolSpecModel>) -> OrchestratorModel {
    OrchestratorModel {
        registry,
        phase: Phase::Idle,
        input: Seq::empty(),
        history: Seq::empty(),
        max_tokens: None,
        stream: initial_state(),
        calls: Seq::empty(),
        board: fresh_board(Seq::empty()),
    }
}

/// The first request of a turn: the session's messages, every registered
/// schema, and the tool choice left to the model.
pub open spec fn first_request(state: OrchestratorModel) -> ChatRequestModel {
    ChatRequestModel {
        messages: state.history,
        tools: schemas_of(state.registry),
        tool_choice_auto: true,
        max_tokens: state.max_tokens,
    }
}

/// The second request of a turn: the continuation messages, no schema and no
/// tool choice, so that the model answers in words.
pub open spec fn second_request(state: OrchestratorModel) -> ChatRequestModel {
    ChatRequestModel {
        messages: continuation(state.history, state.calls, state.board.entries),
        tools: Seq::empty(),
        tool_choice_auto: false,
        max_tokens: state.max_tokens,
    }
}

/// One `RunTool` action per planned invocation, in the order of the plan.
pub open spec fn run_actions(invocations: Seq<InvocationModel>) -> Seq<ActionModel> {
    Seq::new(
        invocations.len(),
        |i: int|
            ActionModel::RunTool {
                index: i,
                executable: invocations[i].executable,
                arguments: invocations[i].call.arguments,
            },
    )
}

/// A turn begins: the first stream is opened.
pub open spec fn begin(
    state: OrchestratorModel,
    input: Seq<char>,
    messages: Seq<MessageModel>,
    max_tokens: Option<u32>,
) -> (OrchestratorModel, Seq<ActionModel>) {
    let next = OrchestratorModel {
        registry: state.registry,
        phase: Phase::AwaitingFirstStream,
        input,
        history: messages,
        max_tokens,
        stream: initial_state(),
        calls: Seq::empty(),
        board: fresh_board(Seq::empty()),
    };
    (next, seq![ActionModel::OpenStream(first_request(next))])
}

/// The turn is committed with the given answer text.
pub open spec fn commit(state: OrchestratorModel, output: Seq<char>) -> (
    OrchestratorModel,
    Seq<ActionModel>,
) {
    (
        OrchestratorModel { phase: Phase::Committed, ..state },
        seq![ActionModel::Commit { input: state.input, output }],
    )
}

/// The first stream asked for tool calls: every call that resolves is started;
/// where none resolves, the continuation stream is opened at once.
pub open spec fn dispatch(state: OrchestratorModel, calls: Seq<CallModel>) -> (
    OrchestratorModel,
    Seq<ActionModel>,
) {
    let invocations = plan_model(calls, state.registry);
    let planned = OrchestratorModel { calls, board: fresh_board(invocations), ..state };
    if invocations.len() == 0 {
        (
            OrchestratorModel { phase: Phase::AwaitingSecondStream, ..planned },
            seq![ActionModel::OpenStream(second_request(planned))],
        )
    } else {
        (OrchestratorModel { phase: Phase::ToolDispatch, ..planned }, run_actions(invocations))
    }
}

/// The reaction to one event of the aggregator.
///
/// Content is shown at once. `ToolCallsReady` on the first stream starts the
/// dispatch; on the second stream, which offers no tools, it ends the turn like
/// `Done`. `Done` commits the turn.
pub open spec fn react(state: OrchestratorModel, event: TurnEventModel) -> (
    OrchestratorModel,
    Seq<ActionModel>,
) {
    match state.phase {
        Phase::AwaitingFirstStream => match event {
            TurnEventModel::ContentDelta(text) => (state, seq![ActionModel::Emit(text)]),
            TurnEventModel::ToolCallsReady(calls) => dispatch(state, calls),
            TurnEventModel::Done(text) => commit(state, text),
        },
        Phase::AwaitingSecondStream => match event {
            TurnEventModel::ContentDelta(text) => (state, seq![ActionModel::Emit(text)]),
            TurnEventModel::ToolCallsReady(_) => commit(state, state.stream.answer),
            TurnEventModel::Done(text) => commit(state, text),
        },
        _ => (state, Seq::empty()),
    }
}

/// The reaction to a sequence of events of the aggregator, in order.
pub open spec fn react_all(state: OrchestratorModel, events: Seq<TurnEventModel>) -> (
    OrchestratorModel,
    Seq<ActionModel>,
)
    decreases events.len(),
{
    if events.len() == 0 {
        (state, Seq::empty())
    } else {
        let (middle, before) = react_all(state, events.drop_last());
        let (next, after) = react(middle, events.last());
        (next, before + after)
    }
}

/// Whether a turn is under way in this phase.
pub open spec fn is_in_flight(phase: Phase) -> bool {
    phase == Phase::AwaitingFirstStream || phase == Phase::ToolDispatch || phase
        == Phase::AwaitingSecondStream
}

/// Whether a stream is open in this phase.
pub open spec fn is_streaming(phase: Phase) -> bool {
    phase == Phase::AwaitingFirstStream || phase == Phase::AwaitingSecondStream
}

/// The transition function of the orchestrator: the state after an event, and
/// the actions that the event calls for. An event that the phase does not
/// expect changes nothing and calls for nothing.
pub open spec fn step_model(state: OrchestratorModel, event: EventModel) -> (
    OrchestratorModel,
    Seq<ActionModel>,
) {
    match event {
        EventModel::Start { input, messages, max_tokens } => {
            if (state.phase == Phase::Idle || state.phase == Phase::Committed) && input.len() > 0 {
                begin(state, input, messages, max_tokens)
            } else {
                (state, Seq::empty())
            }
        },
        EventModel::Chunk(chunk) => {
            if is_streaming(state.phase) {
                react_all(
                    OrchestratorModel { stream: state_after(state.stream, chunk), ..state },
                    events_of(state.stream, chunk),
                )
            } else {
                (state, Seq::empty())
            }
        },
        EventModel::StreamEnd => {
            if is_streaming(state.phase) {
                commit(state, state.stream.answer)
            } else {
                (state, Seq::empty())
            }
        },
        EventModel::StreamError(reason) => {
            if is_streaming(state.phase) {
                (
                    OrchestratorModel { phase: Phase::Idle, ..state },
                    seq![ActionModel::Fail(reason)],
                )
            } else {
                (state, Seq::empty())
            }
        },
        EventModel::ToolFinished { index, outcome } => {
            if state.phase == Phase::ToolDispatch {
                let recorded = OrchestratorModel {
                    board: record_model(state.board, index, outcome),
                    ..state
                };
                if is_complete(recorded.board) {
                    (
                        OrchestratorModel { phase: Phase::AwaitingSecondStream, ..recorded },
                        seq![ActionModel::OpenStream(second_request(recorded))],
                    )
                } else {
                    (recorded, Seq::empty())
                }
            } else {
                (state, Seq::empty())
            }
        },
        EventModel::Cancel => {
            if is_in_flight(state.phase) {
                (OrchestratorModel { phase: Phase::Idle, ..state }, seq![ActionModel::Abandon])
            } else {
                (state, Seq::empty())
            }
        },
    }
}

/// The state after a sequence of events, and all actions that they called for,
/// in order.
pub open spec fn run_model(state: OrchestratorModel, events: Seq<EventModel>) -> (
    OrchestratorModel,
    Seq<ActionModel>,
)
    decreases events.len(),
{
    if events.len() == 0 {
        (state, Seq::empty())
    } else {
        let (middle, before) = run_model(state, events.drop_last());
        let (next, after) = step_model(middle, events.last());
        (next, before + after)
    }
}

fn clone_calls(calls: &Vec<CompletedToolCall>) -> (copy: Vec<CompletedToolCall>)
    ensures
        copy.deep_view() == calls.deep_view(),
{
    let mut copy: Vec<CompletedToolCall> = Vec::new();
    let mut i: usize = 0;
    while i < calls.len()
        invariant
            i <= calls.len(),
            copy.len() == i,
            forall|j: int| 0 <= j < i ==> copy[j]@ == calls[j]@,
        decreases calls.len() - i,
    {
        copy.push(calls[i].clone());
        i += 1;
    }
    assert(copy.deep_view() =~= calls.deep_view());
    copy
}

fn push_run_actions(invocations: &Vec<Invocation>, actions: &mut Vec<Action>)
    ensures
        final(actions).deep_view() == old(actions).deep_view() + run_actions(
            invocations.deep_view(),
        ),
{
    let ghost before = actions.deep_view();
    let ghost target = run_actions(invocations.deep_view());
    let mut i: usize = 0;
    assert(before + target.take(0) =~= before);
    while i < invocations.len()
        invariant
            i <= invocations.len(),
            target == run_actions(invocations.deep_view()),
            actions.deep_view() == before + target.take(i as int),
        decreases invocations.len() - i,
    {
        let invocation = &invocations[i];
        let ghost built = actions.deep_view();
        let action = Action::RunTool {
            index: i,
            executable: invocation.executable.clone(),
            arguments: invocation.call.arguments.clone(),
        };
        assert(action@ == target[i as int]);
        actions.push(action);
        assert(actions.deep_view() =~= built.push(target[i as int]));
        i += 1;
        assert(before + target.take(i as int) =~= (before + target.take(i - 1)).push(
            target[i - 1],
        ));
    }
    assert(target.take(i as int) =~= target);
}

fn empty_board() -> (board: ResultBoard)
    ensures
        board.wf(),
        board@ == fresh_board(Seq::empty()),
{
    let invocations: Vec<Invocation> = Vec::new();
    assert(invocations.deep_view() =~= Seq::empty());
    ResultBoard::new(invocations)
}

/// The driver of one turn at a time.
#[derive(Debug)]
pub struct Orchestrator {
    registry: ToolRegistry,
    phase: Phase,
    input: String,
    history: Vec<Message>,
    max_tokens: Option<u32>,
    aggregator: StreamAggregator,
    calls: Vec<CompletedToolCall>,
    board: ResultBoard,
}

impl View for Orchestrator {
    type V = OrchestratorModel;

    closed spec fn view(&self) -> OrchestratorModel {
        OrchestratorModel {
            registry: self.registry@,
            phase: self.phase,
            input: self.input@,
            history: self.history.deep_view(),
            max_tokens: self.max_tokens,
            stream: self.aggregator@,
            calls: self.calls.deep_view(),
            board: self.board@,
        }
    }
}

impl Orchestrator {
    /// The invariant of an orchestrator: its registry and its result board are
    /// well formed.
    pub closed spec fn wf(&self) -> bool {
        self.registry.wf() && self.board.wf()
    }

    /// An orchestrator over the given registry, with no turn under way.
    pub fn new(registry: ToolRegistry) -> (orchestrator: Orchestrator)
        requires
            registry.wf(),
        ensures
            orchestrator.wf(),
            orchestrator@ == idle_state(registry@),
    {
        let orchestrator = Orchestrator {
            registry,
            phase: Phase::Idle,
            input: String::new(),
            history: Vec::new(),
            max_tokens: None,
            aggregator: StreamAggregator::new(),
            calls: Vec::new(),
            board: empty_board(),
        };
        assert(orchestrator.history.deep_view() =~= Seq::empty());
        assert(orchestrator.calls.deep_view() =~= Seq::empty());
        orchestrator
    }

    /// Where the turn stands.
    pub fn phase(&self) -> (phase: Phase)
        ensures
            phase == self@.phase,
    {
        self.phase
    }

    /// The answer text of the turn so far.
    pub fn answer(&self) -> (text: &String)
        ensures
            text@ == self@.stream.answer,
    {
        self.aggregator.answer()
    }

    /// The calls that the first stream of the turn completed.
    pub fn completed_calls(&self) -> (calls: &Vec<CompletedToolCall>)
        ensures
            calls.deep_view() == self@.calls,
    {
        &self.calls
    }

    fn commit_with(&mut self, output: String, actions: &mut Vec<Action>)
        requires
            old(self).wf(),
        ensures
            final(self).wf(),
            final(self)@ == commit(old(self)@, output@).0,
            final(actions).deep_view() == old(actions).deep_view() + commit(old(self)@, output@).1,
    {
        let ghost before = actions.deep_view();
        let action = Action::Commit { input: self.input.clone(), output };
        actions.push(action);
        self.phase = Phase::Committed;
        assert(actions.deep_view() =~= before + seq![action@]);
    }

    fn open_second(&mut self, actions: &mut Vec<Action>)
        requires
            old(self).wf(),
        ensures
            final(self).wf(),
            final(self)@ == (OrchestratorModel {
                phase: Phase::AwaitingSecondStream,
                ..old(self)@
            }),
            final(actions).deep_view() == old(actions).deep_view() + seq![
                ActionModel::OpenStream(second_request(old(self)@)),
            ],
    {
        let ghost before = actions.deep_view();
        let request = ChatRequest {
            messages: build(&self.history, &self.calls, self.board.entries()),
            tools: Vec::new(),
            tool_choice_auto: false,
            max_tokens: self.max_tokens,
        };
        assert(request.tools.deep_view() =~= Seq::empty());
        let action = Action::OpenStream(request);
        actions.push(action);
        self.phase = Phase::AwaitingSecondStream;
        assert(actions.deep_view() =~= before + seq![action@]);
    }

    fn dispatch_calls(&mut self, calls: &Vec<CompletedToolCall>, actions: &mut Vec<Action>)
        requires
            old(self).wf(),
        ensures
            final(self).wf(),
            final(self)@ == dispatch(old(self)@, calls.deep_view()).0,
            final(actions).deep_view() == old(actions).deep_view() + dispatch(
                old(self)@,
                calls.deep_view(),
            ).1,
    {
        let ghost before = actions.deep_view();
        let invocations = plan(calls, &self.registry);
        self.calls = clone_calls(calls);
        self.board = ResultBoard::new(invocations);
        if self.board.invocations().len() == 0 {
            self.open_second(actions);
        } else {
            push_run_actions(self.board.invocations(), actions);
            self.phase = Phase::ToolDispatch;
        }
    }

    fn react_to(&mut self, event: &TurnEvent, actions: &mut Vec<Action>)
        requires
            old(self).wf(),
        ensures
            final(self).wf(),
            final(self)@ == react(old(self)@, event@).0,
            final(actions).deep_view() == old(actions).deep_view() + react(old(self)@, event@).1,
    {
        let ghost before = actions.deep_view();
        match self.phase {
            Phase::AwaitingFirstStream => match event {
                TurnEvent::ContentDelta(text) => {
                    let action = Action::Emit(text.clone());
                    actions.push(action);
                    assert(actions.deep_view() =~= before + seq![action@]);
                },
                TurnEvent::ToolCallsReady(calls) => {
                    self.dispatch_calls(calls, actions);
                },
                TurnEvent::Done(text) => {
                    self.commit_with(text.clone(), actions);
                },
            },
            Phase::AwaitingSecondStream => match event {
                TurnEvent::ContentDelta(text) => {
                    let action = Action::Emit(text.clone());
                    actions.push(action);
                    assert(actions.deep_view() =~= before + seq![action@]);
                },
                TurnEvent::ToolCallsReady(_) => {
                    let output = self.aggregator.answer().clone();
                    self.commit_with(output, actions);
                },
                TurnEvent::Done(text) => {
                    self.commit_with(text.clone(), actions);
                },
            },
            _ => {
                assert(actions.deep_view() =~= before + Seq::<ActionModel>::empty());
            },
        }
    }

    /// Takes one event and answers with the actions that it calls for.
    pub fn step(&mut self, event: Event) -> (actions: Vec<Action>)
        requires
            old(self).wf(),
        ensures
            final(self).wf(),
            final(self)@ == step_model(old(self)@, event@).0,
            actions.deep_view() == step_model(old(self)@, event@).1,
    {
        let ghost before = self@;
        let mut actions: Vec<Action> = Vec::new();
        assert(actions.deep_view() =~= Seq::empty());
        let streaming = match self.phase {
            Phase::AwaitingFirstStream => true,
            Phase::AwaitingSecondStream => true,
            _ => false,
        };
        match event {
            Event::Start { input, messages, max_tokens } => {
                let ready = match self.phase {
                    Phase::Idle => true,
                    Phase::Committed => true,
                    _ => false,
                };
                if ready && !input.as_str().is_empty() {
                    let request = ChatRequest {
                        messages: clone_messages(&messages),
                        tools: self.registry.schemas(),
                        tool_choice_auto: true,
                        max_tokens,
                    };
                    self.phase = Phase::AwaitingFirstStream;
                    self.input = input;
                    self.history = messages;
                    self.max_tokens = max_tokens;
                    self.aggregator = StreamAggregator::new();
                    self.calls = Vec::new();
                    self.board = empty_board();
                    assert(self.calls.deep_view() =~= Seq::empty());
                    let action = Action::OpenStream(request);
                    actions.push(action);
                    assert(actions.deep_view() =~= seq![action@]);
                }
            },
            Event::Chunk(chunk) => {
                if streaming {
                    let events = self.aggregator.consume(&chunk);
                    let ghost consumed = self@;
                    let ghost all = events.deep_view();
                    let mut i: usize = 0;
                    assert(all.take(0) =~= Seq::empty());
                    while i < events.len()
                        invariant
                            i <= events.len(),
                            all == events.deep_view(),
                            self.wf(),
                            self@ == react_all(consumed, all.take(i as int)).0,
                            actions.deep_view() == react_all(consumed, all.take(i as int)).1,
                        decreases events.len() - i,
                    {
                        assert(all.take(i + 1).drop_last() =~= all.take(i as int));
                        assert(all.take(i + 1).last() == events[i as int]@);
                        self.react_to(&events[i], &mut actions);
                        i += 1;
                    }
                    assert(all.take(i as int) =~= all);
                }
            },
            Event::StreamEnd => {
                if streaming {
                    let output = self.aggregator.answer().clone();
                    self.commit_with(output, &mut actions);
                    assert(actions.deep_view() =~= commit(before, before.stream.answer).1);
                }
            },
            Event::StreamError(reason) => {
                if streaming {
                    self.phase = Phase::Idle;
                    let action = Action::Fail(reason);
                    actions.push(action);
                    assert(actions.deep_view() =~= seq![action@]);
                }
            },
            Event::ToolFinished { index, outcome } => {
                if self.phase == Phase::ToolDispatch {
                    self.board.record(index, &outcome);
                    if self.board.is_complete() {
                        let ghost recorded = self@;
                        self.open_second(&mut actions);
                        assert(actions.deep_view() =~= seq![
                            ActionModel::OpenStream(second_request(recorded)),
                        ]);
                    }
                }
            },
            Event::Cancel => {
                let in_flight = match self.phase {
                    Phase::AwaitingFirstStream => true,
                    Phase::ToolDispatch => true,
                    Phase::AwaitingSecondStream => true,
                    _ => false,
                };
                if in_flight {
                    self.phase = Phase::Idle;
                    actions.push(Action::Abandon);
                    assert(actions.deep_view() =~= seq![ActionModel::Abandon]);
                }
            },
        }
        actions
    }
}

/// The `(input, output)` pairs that a sequence of actions commits, in order.
pub open spec fn commits(actions: Seq<ActionModel>) -> Seq<(Seq<char>, Seq<char>)>
    decreases actions.len(),
{
    if actions.len() == 0 {
        Seq::empty()
    } else {
        match actions.last() {
            ActionModel::Commit { input, output } => commits(actions.drop_last()).push(
                (input, output),
            ),
            _ => commits(actions.drop_last()),
        }
    }
}

/// The number of tool processes that a sequence of actions starts.
pub open spec fn tool_runs(actions: Seq<ActionModel>) -> nat
    decreases actions.len(),
{
    if actions.len() == 0 {
        0
    } else if actions.last() is RunTool {
        tool_runs(actions.drop_last()) + 1
    } else {
        tool_runs(actions.drop_last())
    }
}

/// The events of the chunks of a stream.
pub open spec fn chunk_events(chunks: Seq<ChunkModel>) -> Seq<EventModel> {
    Seq::new(chunks.len(), |i: int| EventModel::Chunk(chunks[i]))
}

/// The position of the first chunk that reports a finish reason, or the
/// number of chunks where none does.
pub open spec fn terminal_position(chunks: Seq<ChunkModel>) -> int
    decreases chunks.len(),
{
    if chunks.len() == 0 {
        0
    } else {
        let before = terminal_position(chunks.drop_last());
        if before < chunks.len() - 1 {
            before
        } else if chunk_finish(chunks.last().choices) is Some {
            chunks.len() - 1
        } else {
            chunks.len() as int
        }
    }
}

/// The chunks of a stream up to its terminal signal: up to and including the
/// first chunk that reports a finish reason, or all of them where none does.
pub open spec fn until_terminal(chunks: Seq<ChunkModel>) -> Seq<ChunkModel> {
    if terminal_position(chunks) < chunks.len() {
        chunks.take(terminal_position(chunks) + 1)
    } else {
        chunks
    }
}

proof fn lemma_commits_single(action: ActionModel)
    ensures
        commits(seq![action]) == match action {
            ActionModel::Commit { input, output } => seq![(input, output)],
            _ => Seq::<(Seq<char>, Seq<char>)>::empty(),
        },
        tool_runs(seq![action]) == (if action is RunTool {
            1nat
        } else {
            0nat
        }),
{
    let one = seq![action];
    assert(one.drop_last() =~= Seq::<ActionModel>::empty());
    assert(one.last() == action);
    assert(commits(one.drop_last()) =~= Seq::empty());
    assert(tool_runs(one.drop_last()) == 0);
    assert(tool_runs(one) == tool_runs(one.drop_last()) + (if action is RunTool {
        1nat
    } else {
        0nat
    }));
    match action {
        ActionModel::Commit { input, output } => {
            assert(commits(one) =~= seq![(input, output)]);
        },
        _ => {},
    }
}

proof fn lemma_commits_concat(first: Seq<ActionModel>, second: Seq<ActionModel>)
    ensures
        commits(first + second) == commits(first) + commits(second),
        tool_runs(first + second) == tool_runs(first) + tool_runs(second),
    decreases second.len(),
{
    if second.len() == 0 {
        assert(first + second =~= first);
        assert(commits(first) + commits(second) =~= commits(first));
    } else {
        lemma_commits_concat(first, second.drop_last());
        assert((first + second).drop_last() =~= first + second.drop_last());
        assert((first + second).last() == second.last());
        match second.last() {
            ActionModel::Commit { input, output } => {
                assert(commits(first + second) =~= commits(first) + commits(second));
            },
            _ => {},
        }
    }
}

proof fn lemma_terminal_position_bounds(chunks: Seq<ChunkModel>)
    ensures
        0 <= terminal_position(chunks) <= chunks.len(),
        terminal_position(chunks) < chunks.len() ==> chunk_finish(
            chunks[terminal_position(chunks)].choices,
        ) is Some,
        forall|i: int|
            0 <= i < terminal_position(chunks) ==> chunk_finish((#[trigger] chunks[i]).choices)
                is None,
    decreases chunks.len(),
{
    if chunks.len() > 0 {
        let front = chunks.drop_last();
        lemma_terminal_position_bounds(front);
        assert forall|i: int| 0 <= i < terminal_position(chunks) implies chunk_finish(
            (#[trigger] chunks[i]).choices,
        ) is None by {
            if i < front.len() {
                assert(front[i] == chunks[i]);
            }
        }
    }
}

proof fn lemma_deltas_only_emit(state: OrchestratorModel, choices: Seq<ChoiceModel>)
    requires
        is_streaming(state.phase),
    ensures
        react_all(state, chunk_deltas(choices)).0 == state,
        commits(react_all(state, chunk_deltas(choices)).1) == Seq::<(Seq<char>, Seq<char>)>::empty(),
        tool_runs(react_all(state, chunk_deltas(choices)).1) == 0,
    decreases choices.len(),
{
    if choices.len() > 0 {
        lemma_deltas_only_emit(state, choices.drop_last());
        match choices.last().content {
            Some(text) => {
                let front = chunk_deltas(choices.drop_last());
                let event = TurnEventModel::ContentDelta(text);
                assert(front.push(event).drop_last() =~= front);
                lemma_commits_concat(react_all(state, front).1, seq![ActionModel::Emit(text)]);
                lemma_commits_single(ActionModel::Emit(text));
                assert(commits(react_all(state, front).1) + Seq::<(Seq<char>, Seq<char>)>::empty()
                    =~= Seq::empty());
            },
            None => {},
        }
    }
}

/// A chunk that reports no finish reason is shown and changes nothing but the
/// stream's state.
proof fn lemma_chunk_without_finish(state: OrchestratorModel, chunk: ChunkModel)
    requires
        is_streaming(state.phase),
        chunk_finish(chunk.choices) is None,
    ensures
        step_model(state, EventModel::Chunk(chunk)).0 == (OrchestratorModel {
            stream: state_after(state.stream, chunk),
            ..state
        }),
        commits(step_model(state, EventModel::Chunk(chunk)).1) == Seq::<
            (Seq<char>, Seq<char>),
        >::empty(),
        tool_runs(step_model(state, EventModel::Chunk(chunk)).1) == 0,
{
    let fed = OrchestratorModel { stream: state_after(state.stream, chunk), ..state };
    lemma_deltas_only_emit(fed, chunk.choices);
    assert(events_of(state.stream, chunk) =~= chunk_deltas(chunk.choices));
}

/// A chunk that reports a finish reason other than `ToolCalls` is shown and
/// commits the turn with the answer text up to and including that chunk.
proof fn lemma_chunk_with_ordinary_finish(state: OrchestratorModel, chunk: ChunkModel)
    requires
        is_streaming(state.phase),
        chunk_finish(chunk.choices) is Some,
        state.phase == Phase::AwaitingFirstStream ==> chunk_finish(chunk.choices) != Some(
            FinishReason::ToolCalls,
        ),
    ensures
        step_model(state, EventModel::Chunk(chunk)).0 == (OrchestratorModel {
            stream: state_after(state.stream, chunk),
            phase: Phase::Committed,
            ..state
        }),
        commits(step_model(state, EventModel::Chunk(chunk)).1) == seq![
            (state.input, state.stream.answer + chunk_content(chunk.choices)),
        ],
        tool_runs(step_model(state, EventModel::Chunk(chunk)).1) == 0,
{
    let fed = OrchestratorModel { stream: state_after(state.stream, chunk), ..state };
    let deltas = chunk_deltas(chunk.choices);
    let terminal = terminal_events(fed.stream, chunk_finish(chunk.choices));
    lemma_deltas_only_emit(fed, chunk.choices);
    assert(terminal.len() == 1);
    let last = terminal[0];
    assert(events_of(state.stream, chunk) =~= deltas.push(last));
    assert(deltas.push(last).drop_last() =~= deltas);
    let output = fed.stream.answer;
    assert(react(fed, last) == commit(fed, output));
    let shown = react_all(fed, deltas).1;
    let done = seq![ActionModel::Commit { input: state.input, output }];
    lemma_commits_concat(shown, done);
    lemma_commits_single(ActionModel::Commit { input: state.input, output });
    assert(commits(shown) + commits(done) =~= seq![(state.input, output)]);
}

proof fn lemma_run_push(state: OrchestratorModel, events: Seq<EventModel>, event: EventModel)
    ensures
        run_model(state, events.push(event)).0 == step_model(run_model(state, events).0, event).0,
        run_model(state, events.push(event)).1 == run_model(state, events).1 + step_model(
            run_model(state, events).0,
            event,
        ).1,
{
    assert(events.push(event).drop_last() =~= events);
}

/// What the chunks of a first stream without tool calls lead to, before the
/// stream ends: the turn is still open and nothing is committed, or a finish
/// reason was seen and the turn is committed once.
proof fn lemma_first_stream(
    state: OrchestratorModel,
    input: Seq<char>,
    messages: Seq<MessageModel>,
    max_tokens: Option<u32>,
    chunks: Seq<ChunkModel>,
)
    requires
        state.phase == Phase::Idle || state.phase == Phase::Committed,
        input.len() > 0,
        forall|i: int|
            0 <= i < chunks.len() ==> chunk_finish((#[trigger] chunks[i]).choices) != Some(
                FinishReason::ToolCalls,
            ),
    ensures
        ({
            let events = seq![EventModel::Start { input, messages, max_tokens }] + chunk_events(
                chunks,
            );
            let (end, actions) = run_model(state, events);
            &&& tool_runs(actions) == 0
            &&& end.input == input
            &&& if terminal_position(chunks) < chunks.len() {
                &&& end.phase == Phase::Committed
                &&& commits(actions) == seq![(input, stream_content(until_terminal(chunks)))]
            } else {
                &&& end.phase == Phase::AwaitingFirstStream
                &&& end.stream.answer == stream_content(chunks)
                &&& commits(actions) == Seq::<(Seq<char>, Seq<char>)>::empty()
            }
        }),
    decreases chunks.len(),
{
    let start = EventModel::Start { input, messages, max_tokens };
    let events = seq![start] + chunk_events(chunks);
    if chunks.len() == 0 {
        assert(events =~= Seq::<EventModel>::empty().push(start));
        lemma_run_push(state, Seq::empty(), start);
        let opened = begin(state, input, messages, max_tokens).1;
        assert(Seq::<ActionModel>::empty() + opened =~= opened);
        lemma_commits_single(opened[0]);
        assert(opened =~= seq![opened[0]]);
    } else {
        let front = chunks.drop_last();
        let last = chunks.last();
        assert forall|i: int| 0 <= i < front.len() implies chunk_finish(
            (#[trigger] front[i]).choices,
        ) != Some(FinishReason::ToolCalls) by {
            assert(front[i] == chunks[i]);
        }
        lemma_first_stream(state, input, messages, max_tokens, front);
        lemma_terminal_position_bounds(front);
        lemma_terminal_position_bounds(chunks);
        let shorter = seq![start] + chunk_events(front);
        assert(events =~= shorter.push(EventModel::Chunk(last)));
        lemma_run_push(state, shorter, EventModel::Chunk(last));
        let (middle, before) = run_model(state, shorter);
        let after = step_model(middle, EventModel::Chunk(last)).1;
        lemma_commits_concat(before, after);
        assert(chunk_finish(chunks[chunks.len() - 1].choices) != Some(FinishReason::ToolCalls));
        if terminal_position(front) < front.len() {
            assert(until_terminal(chunks) =~= until_terminal(front));
            assert(commits(before) + Seq::<(Seq<char>, Seq<char>)>::empty() =~= commits(before));
        } else if chunk_finish(last.choices) is Some {
            lemma_chunk_with_ordinary_finish(middle, last);
            assert(until_terminal(chunks) =~= chunks);
            assert(Seq::<(Seq<char>, Seq<char>)>::empty() + commits(after) =~= commits(after));
        } else {
            lemma_chunk_without_finish(middle, last);
            assert(commits(before) + Seq::<(Seq<char>, Seq<char>)>::empty() =~= commits(before));
        }
    }
}

/// The events of a turn whose first stream delivers `chunks` and then ends.
pub open spec fn streamed_turn(
    input: Seq<char>,
    messages: Seq<MessageModel>,
    max_tokens: Option<u32>,
    chunks: Seq<ChunkModel>,
) -> Seq<EventModel> {
    (seq![EventModel::Start { input, messages, max_tokens }] + chunk_events(chunks)).push(
        EventModel::StreamEnd,
    )
}

/// A turn in which the stream never asks for tool calls commits exactly once,
/// starts no tool, and commits the input together with all content that was
/// streamed up to the terminal signal: up to the first chunk that reports a
/// finish reason, or up to the end of the stream where none does.
pub proof fn lemma_turn_without_tool_calls_commits_once(
    state: OrchestratorModel,
    input: Seq<char>,
    messages: Seq<MessageModel>,
    max_tokens: Option<u32>,
    chunks: Seq<ChunkModel>,
)
    requires
        state.phase == Phase::Idle || state.phase == Phase::Committed,
        input.len() > 0,
        forall|i: int|
            0 <= i < chunks.len() ==> chunk_finish((#[trigger] chunks[i]).choices) != Some(
                FinishReason::ToolCalls,
            ),
    ensures
        ({
            let (end, actions) = run_model(
                state,
                streamed_turn(input, messages, max_tokens, chunks),
            );
            &&& end.phase == Phase::Committed
            &&& commits(actions) == seq![(input, stream_content(until_terminal(chunks)))]
            &&& tool_runs(actions) == 0
        }),
{
    let events = seq![EventModel::Start { input, messages, max_tokens }] + chunk_events(chunks);
    lemma_first_stream(state, input, messages, max_tokens, chunks);
    lemma_run_push(state, events, EventModel::StreamEnd);
    let (middle, before) = run_model(state, events);
    let after = step_model(middle, EventModel::StreamEnd).1;
    lemma_commits_concat(before, after);
    if terminal_position(chunks) < chunks.len() {
        assert(commits(before) + Seq::<(Seq<char>, Seq<char>)>::empty() =~= commits(before));
    } else {
        lemma_commits_single(after[0]);
        assert(after =~= seq![after[0]]);
        assert(Seq::<(Seq<char>, Seq<char>)>::empty() + commits(after) =~= commits(after));
    }
}

/// Where no chunk but the last reports a finish reason, the content up to the
/// terminal signal is all content of the stream.
pub proof fn lemma_until_terminal_is_everything(chunks: Seq<ChunkModel>)
    requires
        forall|i: int|
            0 <= i < chunks.len() - 1 ==> chunk_finish((#[trigger] chunks[i]).choices) is None,
    ensures
        until_terminal(chunks) == chunks,
{
    lemma_terminal_position_bounds(chunks);
    let at = terminal_position(chunks);
    if at < chunks.len() {
        assert(at == chunks.len() - 1);
        assert(chunks.take(at + 1) =~= chunks);
    }
}

/// A transport error never commits: whatever the state, the step commits
/// nothing and starts no tool; where a stream is open, the error is reported
/// and the turn is over.
pub proof fn lemma_transport_error_commits_nothing(state: OrchestratorModel, reason: Seq<char>)
    ensures
        ({
            let (end, actions) = step_model(state, EventModel::StreamError(reason));
            &&& commits(actions) == Seq::<(Seq<char>, Seq<char>)>::empty()
            &&& tool_runs(actions) == 0
            &&& is_streaming(state.phase) ==> end.phase == Phase::Idle && actions == seq![
                ActionModel::Fail(reason),
            ]
            &&& !is_streaming(state.phase) ==> end == state && actions == Seq::<
                ActionModel,
            >::empty()
        }),
{
    lemma_commits_single(ActionModel::Fail(reason));
}

/// A turn whose first stream fails before any finish reason was seen commits
/// nothing: the session is never appended to, the error is the last action,
/// and the orchestrator is idle again.
pub proof fn lemma_failed_first_stream_commits_nothing(
    state: OrchestratorModel,
    input: Seq<char>,
    messages: Seq<MessageModel>,
    max_tokens: Option<u32>,
    chunks: Seq<ChunkModel>,
    reason: Seq<char>,
)
    requires
        state.phase == Phase::Idle || state.phase == Phase::Committed,
        input.len() > 0,
        forall|i: int| 0 <= i < chunks.len() ==> chunk_finish((#[trigger] chunks[i]).choices) is None,
    ensures
        ({
            let events = (seq![EventModel::Start { input, messages, max_tokens }] + chunk_events(
                chunks,
            )).push(EventModel::StreamError(reason));
            let (end, actions) = run_model(state, events);
            &&& end.phase == Phase::Idle
            &&& commits(actions) == Seq::<(Seq<char>, Seq<char>)>::empty()
            &&& tool_runs(actions) == 0
            &&& actions.len() > 0
            &&& actions.last() == ActionModel::Fail(reason)
        }),
{
    let events = seq![EventModel::Start { input, messages, max_tokens }] + chunk_events(chunks);
    lemma_first_stream(state, input, messages, max_tokens, chunks);
    lemma_terminal_position_bounds(chunks);
    lemma_run_push(state, events, EventModel::StreamError(reason));
    let (middle, before) = run_model(state, events);
    lemma_transport_error_commits_nothing(middle, reason);
    let after = step_model(middle, EventModel::StreamError(reason)).1;
    lemma_commits_concat(before, after);
    assert(commits(before) + commits(after) =~= Seq::empty());
}

/// Where none of the completed calls resolves, no tool is started and the
/// continuation stream is opened at once, with the announcement as the only
/// message added to the history: the request holds no tool message beyond
/// those of the history, and offers no tools.
pub proof fn lemma_unresolved_calls_skip_dispatch(state: OrchestratorModel, calls: Seq<CallModel>)
    requires
        state.phase == Phase::AwaitingFirstStream,
        forall|i: int|
            0 <= i < calls.len() ==> !is_registered(
                state.registry,
                (#[trigger] calls[i]).function_name,
            ),
    ensures
        ({
            let (end, actions) = react(state, TurnEventModel::ToolCallsReady(calls));
            let request = ChatRequestModel {
                messages: state.history.push(announcement_message(ids_of(calls))),
                tools: Seq::empty(),
                tool_choice_auto: false,
                max_tokens: state.max_tokens,
            };
            &&& end.phase == Phase::AwaitingSecondStream
            &&& end.board.invocations.len() == 0
            &&& actions == seq![ActionModel::OpenStream(request)]
            &&& tool_runs(actions) == 0
            &&& tool_message_count(request.messages) == tool_message_count(state.history)
        }),
{
    lemma_unresolved_calls_plan_nothing(calls, state.registry);
    lemma_continuation_without_results(state.history, calls);
    let actions = react(state, TurnEventModel::ToolCallsReady(calls)).1;
    lemma_commits_single(actions[0]);
    assert(actions =~= seq![actions[0]]);
}

proof fn lemma_run_actions_count(invocations: Seq<InvocationModel>, n: int)
    requires
        0 <= n <= invocations.len(),
    ensures
        tool_runs(run_actions(invocations).take(n)) == n,
        commits(run_actions(invocations).take(n)) == Seq::<(Seq<char>, Seq<char>)>::empty(),
    decreases n,
{
    let all = run_actions(invocations);
    if n > 0 {
        lemma_run_actions_count(invocations, n - 1);
        assert(all.take(n).drop_last() =~= all.take(n - 1));
        assert(all.take(n).last() == all[n - 1]);
    }
}

/// When the first stream asks for tool calls, one process is started for each
/// call whose function name is registered, each under its own index, and
/// nothing is committed yet.
pub proof fn lemma_dispatch_starts_every_resolved_call(
    state: OrchestratorModel,
    calls: Seq<CallModel>,
)
    requires
        state.phase == Phase::AwaitingFirstStream,
    ensures
        ({
            let (end, actions) = react(state, TurnEventModel::ToolCallsReady(calls));
            let invocations = plan_model(calls, state.registry);
            &&& end.board == fresh_board(invocations)
            &&& invocations.len() == resolved_count(calls, state.registry)
            &&& tool_runs(actions) == resolved_count(calls, state.registry)
            &&& commits(actions) == Seq::<(Seq<char>, Seq<char>)>::empty()
            &&& invocations.len() > 0 ==> end.phase == Phase::ToolDispatch && actions
                == run_actions(invocations)
        }),
{
    let invocations = plan_model(calls, state.registry);
    let actions = react(state, TurnEventModel::ToolCallsReady(calls)).1;
    lemma_plan_counts_resolved(calls, state.registry);
    if invocations.len() == 0 {
        lemma_commits_single(actions[0]);
        assert(actions =~= seq![actions[0]]);
    } else {
        lemma_run_actions_count(invocations, invocations.len() as int);
        assert(run_actions(invocations).take(invocations.len() as int) =~= run_actions(
            invocations,
        ));
    }
}

/// The events that report the end of every process of a plan, in the given
/// order.
pub open spec fn finished_events(order: Seq<int>, outcomes: Seq<ProcessOutcomeModel>) -> Seq<
    EventModel,
> {
    Seq::new(
        order.len(),
        |k: int| EventModel::ToolFinished { index: order[k], outcome: outcomes[order[k]] },
    )
}

proof fn lemma_join_prefix(
    state: OrchestratorModel,
    outcomes: Seq<ProcessOutcomeModel>,
    order: Seq<int>,
    n: int,
)
    requires
        state.phase == Phase::ToolDispatch,
        state.board == fresh_board(state.board.invocations),
        outcomes.len() == state.board.invocations.len(),
        is_completion_order(order, state.board.invocations.len() as int),
        0 <= n < order.len(),
    ensures
        run_model(state, finished_events(order, outcomes).take(n)).0 == (OrchestratorModel {
            board: record_all(state.board, ended_in_order(order, outcomes).take(n)),
            ..state
        }),
        run_model(state, finished_events(order, outcomes).take(n)).1 == Seq::<ActionModel>::empty(),
    decreases n,
{
    let events = finished_events(order, outcomes);
    let ended = ended_in_order(order, outcomes);
    if n == 0 {
        assert(events.take(0) =~= Seq::empty());
        assert(ended.take(0) =~= Seq::empty());
    } else {
        lemma_join_prefix(state, outcomes, order, n - 1);
        lemma_record_prefix(state.board.invocations, outcomes, order, n - 1);
        lemma_record_prefix(state.board.invocations, outcomes, order, n);
        assert(events.take(n).drop_last() =~= events.take(n - 1));
        assert(events.take(n).last() == events[n - 1]);
        assert(ended.take(n).drop_last() =~= ended.take(n - 1));
        assert(ended.take(n).last() == ended[n - 1]);
        assert(Seq::<ActionModel>::empty() + Seq::<ActionModel>::empty() =~= Seq::<
            ActionModel,
        >::empty());
    }
}

/// The join: when every started process has ended once, in whatever order,
/// the continuation stream is opened, exactly once and only then. Its request
/// offers no tools and holds, after the history and the announcement, one tool
/// message per invocation, in the order in which the processes ended.
pub proof fn lemma_join_opens_continuation(
    state: OrchestratorModel,
    outcomes: Seq<ProcessOutcomeModel>,
    order: Seq<int>,
)
    requires
        state.phase == Phase::ToolDispatch,
        state.board == fresh_board(state.board.invocations),
        state.board.invocations.len() > 0,
        outcomes.len() == state.board.invocations.len(),
        is_completion_order(order, state.board.invocations.len() as int),
    ensures
        ({
            let invocations = state.board.invocations;
            let (end, actions) = run_model(state, finished_events(order, outcomes));
            let entries = Seq::new(
                invocations.len(),
                |k: int| entry_model(invocations, order[k], outcomes[order[k]]),
            );
            let request = ChatRequestModel {
                messages: continuation(state.history, state.calls, entries),
                tools: Seq::empty(),
                tool_choice_auto: false,
                max_tokens: state.max_tokens,
            };
            &&& end.phase == Phase::AwaitingSecondStream
            &&& end.board.entries == entries
            &&& actions == seq![ActionModel::OpenStream(request)]
            &&& commits(actions) == Seq::<(Seq<char>, Seq<char>)>::empty()
            &&& tool_message_count(request.messages) == tool_message_count(state.history)
                + invocations.len()
        }),
{
    let invocations = state.board.invocations;
    let events = finished_events(order, outcomes);
    let ended = ended_in_order(order, outcomes);
    let n = order.len() as int;
    let entries = Seq::new(
        invocations.len(),
        |k: int| entry_model(invocations, order[k], outcomes[order[k]]),
    );
    lemma_join_prefix(state, outcomes, order, n - 1);
    lemma_record_prefix(invocations, outcomes, order, n - 1);
    lemma_record_prefix(invocations, outcomes, order, n);
    assert(events.take(n) =~= events);
    assert(events.drop_last() =~= events.take(n - 1));
    assert(events.last() == events[n - 1]);
    assert(ended.take(n).drop_last() =~= ended.take(n - 1));
    assert(ended.take(n).last() == ended[n - 1]);
    let actions = run_model(state, events).1;
    assert(actions =~= seq![actions[0]]);
    lemma_commits_single(actions[0]);
    lemma_continuation_shape(state.history, state.calls, entries);
}

/// Giving a turn up never commits: whatever the state, the step commits
/// nothing and starts no tool; where a turn is under way, it ends there and
/// the orchestrator is idle again.
pub proof fn lemma_cancel_commits_nothing(state: OrchestratorModel)
    ensures
        ({
            let (end, actions) = step_model(state, EventModel::Cancel);
            &&& commits(actions) == Seq::<(Seq<char>, Seq<char>)>::empty()
            &&& tool_runs(actions) == 0
            &&& is_in_flight(state.phase) ==> end.phase == Phase::Idle && actions == seq![
                ActionModel::Abandon,
            ]
            &&& !is_in_flight(state.phase) ==> end == state && actions == Seq::<
                ActionModel,
            >::empty()
        }),
{
    lemma_commits_single(ActionModel::Abandon);
}

} // verus!
