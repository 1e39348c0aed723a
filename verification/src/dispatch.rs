//! Tool dispatch: which completed calls are run, with which executable, and
//! what result each finished process gives.
//!
//! The processes themselves are started and awaited by the caller. This module
//! decides what to start and judges what came back.

use crate::json::{json_from_str, json_null, json_parse, json_text, utf8_text};
use crate::registry::{is_registered, resolution, ToolRegistry, ToolSpecModel};
use crate::stream::{CallModel, CompletedToolCall};
use vstd::prelude::*;
use vstd::utf8::{decode_utf8, valid_utf8};

verus! {

/// Why a tool call has no usable result.
#[derive(Clone, Copy, Debug, PartialEq, Eq, Structural)]
pub enum ToolFailure {
    /// The argument buffer of the call was not valid JSON when the stream
    /// reported completion.
    ArgumentCorruption,
    /// The executable could not be started.
    SpawnFailed,
    /// The process did not end within the time allowed and was stopped.
    TimedOut,
    /// The process ended with a status other than zero.
    NonZeroExit,
    /// The standard output was not valid UTF-8.
    InvalidUtf8,
    /// The standard output was not a JSON value.
    InvalidJson,
}

/// One tool call that resolved against the registry: the call, the executable
/// to start with the call's raw argument string as its only argument, and
/// whether that string is valid JSON.
#[derive(Debug)]
pub struct Invocation {
    pub call: CompletedToolCall,
    pub executable: String,
    pub arguments_valid: bool,
}

/// The mathematical value of an [`Invocation`].
pub ghost struct InvocationModel {
    pub call: CallModel,
    pub executable: Seq<char>,
    pub arguments_valid: bool,
}

impl View for Invocation {
    type V = InvocationModel;

    open spec fn view(&self) -> InvocationModel {
        InvocationModel {
            call: self.call@,
            executable: self.executable@,
            arguments_valid: self.arguments_valid,
        }
    }
}

impl DeepView for Invocation {
    type V = InvocationModel;

    open spec fn deep_view(&self) -> InvocationModel {
        self@
    }
}

impl Invocation {
    /// The invocation of a call that resolved to `executable`, given what
    /// parsing the call's arguments as JSON gave.
    pub fn for_call(
        call: &CompletedToolCall,
        executable: &str,
        parsed: &Result<serde_json::Value, serde_json::Error>,
    ) -> (invocation: Invocation)
        ensures
            invocation@ == (InvocationModel {
                call: call@,
                executable: executable@,
                arguments_valid: parsed is Ok,
            }),
    {
        Invocation {
            call: call.clone(),
            executable: executable.to_string(),
            arguments_valid: parsed.is_ok(),
        }
    }
}

impl Clone for Invocation {
    fn clone(&self) -> (copy: Invocation)
        ensures
            copy@ == self@,
    {
        Invocation {
            call: self.call.clone(),
            executable: self.executable.clone(),
            arguments_valid: self.arguments_valid,
        }
    }
}

/// How a started process ended, as its caller observed it.
#[derive(Debug)]
pub enum ProcessOutcome {
    /// The executable could not be started.
    SpawnFailed,
    /// The process did not end within the time allowed and was stopped.
    TimedOut,
    /// The process ended with the given exit code (`None` where a signal ended
    /// it) and wrote the given bytes to its standard output.
    Exited { code: Option<i32>, stdout: Vec<u8> },
}

/// The mathematical value of a [`ProcessOutcome`].
pub ghost enum ProcessOutcomeModel {
    SpawnFailed,
    TimedOut,
    Exited { code: Option<i32>, stdout: Seq<u8> },
}

impl View for ProcessOutcome {
    type V = ProcessOutcomeModel;

    open spec fn view(&self) -> ProcessOutcomeModel {
        match self {
            ProcessOutcome::SpawnFailed => ProcessOutcomeModel::SpawnFailed,
            ProcessOutcome::TimedOut => ProcessOutcomeModel::TimedOut,
            ProcessOutcome::Exited { code, stdout } => ProcessOutcomeModel::Exited {
                code: *code,
                stdout: stdout@,
            },
        }
    }
}

/// What a process produced, after its output was decoded and parsed.
#[derive(Debug)]
pub enum ToolOutput {
    /// The standard output was one JSON value.
    Json(serde_json::Value),
    /// There is no usable output, for the given reason.
    Unusable(ToolFailure),
}

/// The mathematical value of a [`ToolOutput`].
pub ghost enum ToolOutputModel {
    Json(Seq<char>),
    Unusable(ToolFailure),
}

impl View for ToolOutput {
    type V = ToolOutputModel;

    open spec fn view(&self) -> ToolOutputModel {
        match self {
            ToolOutput::Json(value) => ToolOutputModel::Json(json_text(*value)),
            ToolOutput::Unusable(failure) => ToolOutputModel::Unusable(*failure),
        }
    }
}

/// The result of one tool call: the JSON value that the tool printed, or the
/// default empty value `null` together with the reason of the failure.
#[derive(Debug)]
pub struct ToolResult {
    pub tool_call_id: String,
    pub value: serde_json::Value,
    pub failure: Option<ToolFailure>,
}

/// The mathematical value of a [`ToolResult`].
pub ghost struct ToolResultModel {
    pub tool_call_id: Seq<char>,
    /// The value as compact JSON text.
    pub value: Seq<char>,
    pub failure: Option<ToolFailure>,
}

impl View for ToolResult {
    type V = ToolResultModel;

    open spec fn view(&self) -> ToolResultModel {
        ToolResultModel {
            tool_call_id: self.tool_call_id@,
            value: json_text(self.value),
            failure: self.failure,
        }
    }
}

impl DeepView for ToolResult {
    type V = ToolResultModel;

    open spec fn deep_view(&self) -> ToolResultModel {
        self@
    }
}

/// The text of the default empty value.
pub open spec fn empty_value() -> Seq<char> {
    "null"@
}

/// The invocations planned for a list of completed calls: one for each call
/// whose function name is registered, in the order of the calls. A call whose
/// name is not registered is left out.
pub open spec fn plan_model(calls: Seq<CallModel>, specs: Seq<ToolSpecModel>) -> Seq<
    InvocationModel,
>
    decreases calls.len(),
{
    if calls.len() == 0 {
        Seq::empty()
    } else {
        let call = calls.last();
        match resolution(specs, call.function_name) {
            Some(spec) => plan_model(calls.drop_last(), specs).push(
                InvocationModel {
                    call,
                    executable: spec.executable,
                    arguments_valid: json_parse(call.arguments) is Some,
                },
            ),
            None => plan_model(calls.drop_last(), specs),
        }
    }
}

/// The number of calls whose function name is registered.
pub open spec fn resolved_count(calls: Seq<CallModel>, specs: Seq<ToolSpecModel>) -> nat
    decreases calls.len(),
{
    if calls.len() == 0 {
        0
    } else if is_registered(specs, calls.last().function_name) {
        resolved_count(calls.drop_last(), specs) + 1
    } else {
        resolved_count(calls.drop_last(), specs)
    }
}

/// Plans the dispatch of the completed calls of a turn.
pub fn plan(calls: &Vec<CompletedToolCall>, registry: &ToolRegistry) -> (invocations: Vec<
    Invocation,
>)
    ensures
        invocations.deep_view() == plan_model(calls.deep_view(), registry@),
{
    let ghost all = calls.deep_view();
    let mut invocations: Vec<Invocation> = Vec::new();
    let mut i: usize = 0;
    assert(all.take(0) =~= Seq::empty());
    assert(invocations.deep_view() =~= Seq::empty());
    while i < calls.len()
        invariant
            i <= calls.len(),
            all == calls.deep_view(),
            invocations.deep_view() == plan_model(all.take(i as int), registry@),
        decreases calls.len() - i,
    {
        let call = &calls[i];
        let ghost planned = invocations.deep_view();
        assert(all.take(i + 1).drop_last() =~= all.take(i as int));
        assert(all.take(i + 1).last() == call@);
        match registry.resolve(call.function_name.as_str()) {
            Some(spec) => {
                let parsed = json_from_str(call.arguments.as_str());
                let invocation = Invocation::for_call(call, spec.executable.as_str(), &parsed);
                invocations.push(invocation);
                assert(invocations.deep_view() =~= planned.push(invocation@));
            },
            None => {},
        }
        i += 1;
    }
    assert(all.take(i as int) =~= all);
    invocations
}

/// What the outcome of a process amounts to: the value that
/// `serde_json::from_str` makes of the standard output, where the process
/// ended in time with status zero and wrote valid UTF-8 that is JSON; else the
/// reason why there is none.
pub open spec fn output_model(outcome: ProcessOutcomeModel) -> ToolOutputModel {
    match outcome {
        ProcessOutcomeModel::SpawnFailed => ToolOutputModel::Unusable(ToolFailure::SpawnFailed),
        ProcessOutcomeModel::TimedOut => ToolOutputModel::Unusable(ToolFailure::TimedOut),
        ProcessOutcomeModel::Exited { code, stdout } => {
            if code != Some(0i32) {
                ToolOutputModel::Unusable(ToolFailure::NonZeroExit)
            } else if !valid_utf8(stdout) {
                ToolOutputModel::Unusable(ToolFailure::InvalidUtf8)
            } else {
                match json_parse(decode_utf8(stdout)) {
                    Some(text) => ToolOutputModel::Json(text),
                    None => ToolOutputModel::Unusable(ToolFailure::InvalidJson),
                }
            }
        },
    }
}

/// Decodes and parses what a process produced.
pub fn read_output(outcome: &ProcessOutcome) -> (output: ToolOutput)
    ensures
        output@ == output_model(outcome@),
{
    match outcome {
        ProcessOutcome::SpawnFailed => ToolOutput::Unusable(ToolFailure::SpawnFailed),
        ProcessOutcome::TimedOut => ToolOutput::Unusable(ToolFailure::TimedOut),
        ProcessOutcome::Exited { code, stdout } => {
            let clean = match code {
                Some(status) => *status == 0,
                None => false,
            };
            if !clean {
                ToolOutput::Unusable(ToolFailure::NonZeroExit)
            } else {
                match utf8_text(stdout.as_slice()) {
                    None => ToolOutput::Unusable(ToolFailure::InvalidUtf8),
                    Some(text) => match json_from_str(text) {
                        Ok(value) => ToolOutput::Json(value),
                        Err(_) => ToolOutput::Unusable(ToolFailure::InvalidJson),
                    },
                }
            }
        },
    }
}

/// The result of a tool call, given what its process produced.
///
/// A call whose arguments were not valid JSON is reported as
/// `ArgumentCorruption`, whatever the process did. Every failure carries the
/// default empty value.
pub open spec fn judged(invocation: InvocationModel, output: ToolOutputModel) -> ToolResultModel {
    if !invocation.arguments_valid {
        ToolResultModel {
            tool_call_id: invocation.call.id,
            value: empty_value(),
            failure: Some(ToolFailure::ArgumentCorruption),
        }
    } else {
        match output {
            ToolOutputModel::Json(text) => ToolResultModel {
                tool_call_id: invocation.call.id,
                value: text,
                failure: None,
            },
            ToolOutputModel::Unusable(failure) => ToolResultModel {
                tool_call_id: invocation.call.id,
                value: empty_value(),
                failure: Some(failure),
            },
        }
    }
}

/// The result of a tool call, given the outcome of its process.
pub open spec fn result_model(invocation: InvocationModel, outcome: ProcessOutcomeModel)
    -> ToolResultModel {
    judged(invocation, output_model(outcome))
}

/// Judges what a process produced for a tool call.
pub fn judge(invocation: &Invocation, output: ToolOutput) -> (result: ToolResult)
    ensures
        result@ == judged(invocation@, output@),
{
    let tool_call_id = invocation.call.id.clone();
    if !invocation.arguments_valid {
        ToolResult {
            tool_call_id,
            value: json_null(),
            failure: Some(ToolFailure::ArgumentCorruption),
        }
    } else {
        match output {
            ToolOutput::Json(value) => ToolResult { tool_call_id, value, failure: None },
            ToolOutput::Unusable(failure) => ToolResult {
                tool_call_id,
                value: json_null(),
                failure: Some(failure),
            },
        }
    }
}

/// The result of a tool call whose process ended as `outcome` says. A process
/// that failed, or whose output is not JSON, gives the default empty value;
/// nothing is propagated as an error.
pub fn tool_result(invocation: &Invocation, outcome: &ProcessOutcome) -> (result: ToolResult)
    ensures
        result@ == result_model(invocation@, outcome@),
{
    judge(invocation, read_output(outcome))
}

/// The result of one dispatched call, with the position of its invocation in
/// the plan.
#[derive(Debug)]
pub struct ResultEntry {
    pub index: usize,
    pub call: CompletedToolCall,
    pub result: ToolResult,
}

/// The mathematical value of a [`ResultEntry`].
pub ghost struct ResultEntryModel {
    pub index: int,
    pub call: CallModel,
    pub result: ToolResultModel,
}

impl View for ResultEntry {
    type V = ResultEntryModel;

    open spec fn view(&self) -> ResultEntryModel {
        ResultEntryModel { index: self.index as int, call: self.call@, result: self.result@ }
    }
}

impl DeepView for ResultEntry {
    type V = ResultEntryModel;

    open spec fn deep_view(&self) -> ResultEntryModel {
        self@
    }
}

/// The mathematical value of a [`ResultBoard`].
pub ghost struct BoardModel {
    pub invocations: Seq<InvocationModel>,
    /// The results recorded so far, in the order in which the processes ended.
    pub entries: Seq<ResultEntryModel>,
}

/// Whether a result for the invocation at `index` is among the entries.
pub open spec fn is_recorded(entries: Seq<ResultEntryModel>, index: int) -> bool {
    exists|k: int| 0 <= k < entries.len() && (#[trigger] entries[k]).index == index
}

/// The entry that the end of the process of invocation `index` gives.
pub open spec fn entry_model(
    invocations: Seq<InvocationModel>,
    index: int,
    outcome: ProcessOutcomeModel,
) -> ResultEntryModel {
    ResultEntryModel {
        index,
        call: invocations[index].call,
        result: result_model(invocations[index], outcome),
    }
}

/// The board before any process has ended.
pub open spec fn fresh_board(invocations: Seq<InvocationModel>) -> BoardModel {
    BoardModel { invocations, entries: Seq::empty() }
}

/// The board after the process of invocation `index` ended as `outcome` says.
/// An index outside the plan, or one whose result is recorded already, changes
/// nothing.
pub open spec fn record_model(board: BoardModel, index: int, outcome: ProcessOutcomeModel)
    -> BoardModel {
    if 0 <= index < board.invocations.len() && !is_recorded(board.entries, index) {
        BoardModel {
            entries: board.entries.push(entry_model(board.invocations, index, outcome)),
            ..board
        }
    } else {
        board
    }
}

/// Whether every invocation of the plan has its result.
pub open spec fn is_complete(board: BoardModel) -> bool {
    board.entries.len() == board.invocations.len()
}

/// The invariant of a board: every entry belongs to an invocation of the plan,
/// and no invocation has two entries.
pub open spec fn board_wf(board: BoardModel) -> bool {
    &&& forall|k: int|
        0 <= k < board.entries.len() ==> 0 <= (#[trigger] board.entries[k]).index
            < board.invocations.len()
    &&& forall|k: int, l: int|
        0 <= k < l < board.entries.len() ==> (#[trigger] board.entries[k]).index != (
        #[trigger] board.entries[l]).index
}

/// The results of the dispatched calls of one turn, filled in as the processes
/// end.
#[derive(Debug)]
pub struct ResultBoard {
    invocations: Vec<Invocation>,
    recorded: Vec<bool>,
    entries: Vec<ResultEntry>,
}

impl View for ResultBoard {
    type V = BoardModel;

    closed spec fn view(&self) -> BoardModel {
        BoardModel {
            invocations: self.invocations.deep_view(),
            entries: self.entries.deep_view(),
        }
    }
}

impl ResultBoard {
    /// The invariant of a board.
    pub closed spec fn wf(&self) -> bool {
        &&& board_wf(self@)
        &&& self.recorded.len() == self.invocations.len()
        &&& forall|i: int|
            0 <= i < self.recorded.len() ==> #[trigger] self.recorded[i] == is_recorded(
                self@.entries,
                i,
            )
    }

    /// The board for a plan, before any process has ended.
    pub fn new(invocations: Vec<Invocation>) -> (board: ResultBoard)
        ensures
            board.wf(),
            board@ == fresh_board(invocations.deep_view()),
    {
        let mut recorded: Vec<bool> = Vec::new();
        let mut i: usize = 0;
        while i < invocations.len()
            invariant
                i <= invocations.len(),
                recorded.len() == i,
                forall|j: int| 0 <= j < i ==> !#[trigger] recorded[j],
            decreases invocations.len() - i,
        {
            recorded.push(false);
            i += 1;
        }
        let board = ResultBoard { invocations, recorded, entries: Vec::new() };
        assert(board.entries.deep_view() =~= Seq::empty());
        board
    }

    /// Records how the process of invocation `index` ended. Says whether the
    /// result was taken: it is not where `index` is outside the plan or the
    /// invocation has its result already.
    pub fn record(&mut self, index: usize, outcome: &ProcessOutcome) -> (taken: bool)
        requires
            old(self).wf(),
        ensures
            final(self).wf(),
            final(self)@ == record_model(old(self)@, index as int, outcome@),
            taken == (index < old(self)@.invocations.len() && !is_recorded(
                old(self)@.entries,
                index as int,
            )),
    {
        if index >= self.invocations.len() || self.recorded[index] {
            return false;
        }
        let ghost before = self@;
        let invocation = &self.invocations[index];
        let entry = ResultEntry {
            index,
            call: invocation.call.clone(),
            result: tool_result(invocation, outcome),
        };
        assert(entry@ == entry_model(before.invocations, index as int, outcome@));
        self.entries.push(entry);
        self.recorded.set(index, true);
        proof {
            let after = self@.entries;
            assert(after =~= before.entries.push(entry@));
            assert(after[before.entries.len() as int].index == index);
            assert forall|i: int| 0 <= i < self.recorded.len() implies #[trigger] self.recorded[i]
                == is_recorded(after, i) by {
                if is_recorded(before.entries, i) {
                    let k = choose|k: int|
                        0 <= k < before.entries.len() && (#[trigger] before.entries[k]).index == i;
                    assert(after[k].index == i);
                }
                if is_recorded(after, i) && i != index {
                    let k = choose|k: int| 0 <= k < after.len() && (#[trigger] after[k]).index == i;
                    assert(before.entries[k].index == i);
                }
            }
            assert forall|k: int, l: int| 0 <= k < l < after.len() implies (#[trigger] after[k]).index
                != (#[trigger] after[l]).index by {
                if l == before.entries.len() {
                    assert(before.entries[k].index != index);
                } else {
                    assert(before.entries[k].index != before.entries[l].index);
                }
            }
            assert forall|k: int| 0 <= k < after.len() implies 0 <= (#[trigger] after[k]).index
                < self@.invocations.len() by {
                if k < before.entries.len() {
                    assert(after[k] == before.entries[k]);
                }
            }
        }
        true
    }

    /// Whether every invocation of the plan has its result.
    pub fn is_complete(&self) -> (complete: bool)
        ensures
            complete == is_complete(self@),
    {
        self.entries.len() == self.invocations.len()
    }

    /// The planned invocations.
    pub fn invocations(&self) -> (invocations: &Vec<Invocation>)
        ensures
            invocations.deep_view() == self@.invocations,
    {
        &self.invocations
    }

    /// The results recorded so far, in the order in which the processes ended.
    pub fn entries(&self) -> (entries: &Vec<ResultEntry>)
        ensures
            entries.deep_view() == self@.entries,
    {
        &self.entries
    }
}

/// The board after a sequence of processes ended, each given by the index of
/// its invocation and its outcome.
pub open spec fn record_all(board: BoardModel, ended: Seq<(int, ProcessOutcomeModel)>) -> BoardModel
    decreases ended.len(),
{
    if ended.len() == 0 {
        board
    } else {
        record_model(record_all(board, ended.drop_last()), ended.last().0, ended.last().1)
    }
}

/// The models of a list of ended processes.
pub open spec fn ended_model(ended: Seq<(usize, ProcessOutcome)>) -> Seq<
    (int, ProcessOutcomeModel),
> {
    Seq::new(ended.len(), |k: int| (ended[k].0 as int, ended[k].1@))
}

/// Collects the results of a dispatch: the board for the plan after the
/// processes ended as listed, each given by the index of its invocation and
/// its outcome, in the order in which they ended.
pub fn collect(invocations: Vec<Invocation>, ended: &Vec<(usize, ProcessOutcome)>) -> (board:
    ResultBoard)
    ensures
        board.wf(),
        board@ == record_all(fresh_board(invocations.deep_view()), ended_model(ended@)),
{
    let ghost start = fresh_board(invocations.deep_view());
    let ghost all = ended_model(ended@);
    let mut board = ResultBoard::new(invocations);
    let mut i: usize = 0;
    assert(all.take(0) =~= Seq::empty());
    while i < ended.len()
        invariant
            i <= ended.len(),
            all == ended_model(ended@),
            board.wf(),
            board@ == record_all(start, all.take(i as int)),
        decreases ended.len() - i,
    {
        assert(all.take(i + 1).drop_last() =~= all.take(i as int));
        assert(all.take(i + 1).last() == all[i as int]);
        board.record(ended[i].0, &ended[i].1);
        i += 1;
    }
    assert(all.take(i as int) =~= all);
    board
}

/// Whether `order` names each of the indices `0..count` exactly once.
pub open spec fn is_completion_order(order: Seq<int>, count: int) -> bool {
    &&& order.len() == count
    &&& order.no_duplicates()
    &&& forall|k: int| 0 <= k < order.len() ==> 0 <= #[trigger] order[k] < count
}

/// The ends of all processes of a plan, in the given order.
pub open spec fn ended_in_order(order: Seq<int>, outcomes: Seq<ProcessOutcomeModel>) -> Seq<
    (int, ProcessOutcomeModel),
> {
    Seq::new(order.len(), |k: int| (order[k], outcomes[order[k]]))
}

/// The plan holds exactly one invocation for each call whose function name is
/// registered.
pub proof fn lemma_plan_counts_resolved(calls: Seq<CallModel>, specs: Seq<ToolSpecModel>)
    ensures
        plan_model(calls, specs).len() == resolved_count(calls, specs),
    decreases calls.len(),
{
    if calls.len() > 0 {
        lemma_plan_counts_resolved(calls.drop_last(), specs);
    }
}

/// Where no call resolves, nothing is planned: no process is started.
pub proof fn lemma_unresolved_calls_plan_nothing(calls: Seq<CallModel>, specs: Seq<ToolSpecModel>)
    requires
        forall|i: int| 0 <= i < calls.len() ==> !is_registered(specs, (#[trigger] calls[i]).function_name),
    ensures
        plan_model(calls, specs) == Seq::<InvocationModel>::empty(),
        resolved_count(calls, specs) == 0,
    decreases calls.len(),
{
    if calls.len() > 0 {
        assert(!is_registered(specs, calls[calls.len() - 1].function_name));
        assert forall|i: int| 0 <= i < calls.drop_last().len() implies !is_registered(
            specs,
            (#[trigger] calls.drop_last()[i]).function_name,
        ) by {
            assert(calls.drop_last()[i] == calls[i]);
        }
        lemma_unresolved_calls_plan_nothing(calls.drop_last(), specs);
    }
}

/// After the first `n` processes have ended, the board holds their results,
/// in the order in which they ended.
pub proof fn lemma_record_prefix(
    invocations: Seq<InvocationModel>,
    outcomes: Seq<ProcessOutcomeModel>,
    order: Seq<int>,
    n: int,
)
    requires
        is_completion_order(order, invocations.len() as int),
        0 <= n <= order.len(),
    ensures
        record_all(fresh_board(invocations), ended_in_order(order, outcomes).take(n))
            == (BoardModel {
            invocations,
            entries: Seq::new(
                n as nat,
                |k: int| entry_model(invocations, order[k], outcomes[order[k]]),
            ),
        }),
    decreases n,
{
    let ended = ended_in_order(order, outcomes);
    let target = Seq::new(
        n as nat,
        |k: int| entry_model(invocations, order[k], outcomes[order[k]]),
    );
    if n == 0 {
        assert(target =~= Seq::empty());
    } else {
        lemma_record_prefix(invocations, outcomes, order, n - 1);
        let shorter = Seq::new(
            (n - 1) as nat,
            |k: int| entry_model(invocations, order[k], outcomes[order[k]]),
        );
        assert(ended.take(n).drop_last() =~= ended.take(n - 1));
        assert(ended.take(n).last() == (order[n - 1], outcomes[order[n - 1]]));
        assert(!is_recorded(shorter, order[n - 1])) by {
            if is_recorded(shorter, order[n - 1]) {
                let k = choose|k: int|
                    0 <= k < shorter.len() && (#[trigger] shorter[k]).index == order[n - 1];
                assert(order[k] == order[n - 1]);
            }
        }
        assert(target =~= shorter.push(
            entry_model(invocations, order[n - 1], outcomes[order[n - 1]]),
        ));
    }
}

/// When each process of a plan has ended once, in whatever order, the board is
/// complete and holds exactly one entry per invocation: its entries are, in
/// the order in which the processes ended, the results of those processes.
pub proof fn lemma_join_collects_every_result(
    invocations: Seq<InvocationModel>,
    outcomes: Seq<ProcessOutcomeModel>,
    order: Seq<int>,
)
    requires
        outcomes.len() == invocations.len(),
        is_completion_order(order, invocations.len() as int),
    ensures
        ({
            let board = record_all(fresh_board(invocations), ended_in_order(order, outcomes));
            &&& is_complete(board)
            &&& board.entries.len() == invocations.len()
            &&& board.entries == Seq::new(
                invocations.len(),
                |k: int| entry_model(invocations, order[k], outcomes[order[k]]),
            )
        }),
{
    let ended = ended_in_order(order, outcomes);
    lemma_record_prefix(invocations, outcomes, order, order.len() as int);
    assert(ended.take(order.len() as int) =~= ended);
}

/// The result that a complete board holds for an invocation does not depend on
/// the order in which the processes ended: for each invocation there is
/// exactly one entry, and it holds the result of that invocation's own
/// outcome.
pub proof fn lemma_results_do_not_depend_on_order(
    invocations: Seq<InvocationModel>,
    outcomes: Seq<ProcessOutcomeModel>,
    order: Seq<int>,
    index: int,
)
    requires
        outcomes.len() == invocations.len(),
        is_completion_order(order, invocations.len() as int),
        0 <= index < invocations.len(),
    ensures
        ({
            let board = record_all(fresh_board(invocations), ended_in_order(order, outcomes));
            exists|k: int|
                0 <= k < board.entries.len() && #[trigger] board.entries[k] == entry_model(
                    invocations,
                    index,
                    outcomes[index],
                ) && forall|l: int|
                    0 <= l < board.entries.len() && l != k ==> (#[trigger] board.entries[l]).index
                        != index
        }),
{
    let board = record_all(fresh_board(invocations), ended_in_order(order, outcomes));
    lemma_join_collects_every_result(invocations, outcomes, order);
    let count = invocations.len() as int;
    let named = order.to_set();
    let all = vstd::set_lib::set_int_range(0, count);
    order.unique_seq_to_set();
    vstd::set_lib::lemma_int_range(0, count);
    assert(named.subset_of(all)) by {
        assert forall|i: int| named.contains(i) implies all.contains(i) by {
            let k = choose|k: int| 0 <= k < order.len() && order[k] == i;
            assert(0 <= order[k] < count);
        }
    }
    vstd::set_lib::lemma_len_subset(named, all);
    vstd::set_lib::lemma_subset_equality(named, all);
    assert(all.contains(index));
    assert(named.contains(index));
    let k = choose|k: int| 0 <= k < order.len() && order[k] == index;
    assert(board.entries[k] == entry_model(invocations, index, outcomes[index]));
    assert forall|l: int| 0 <= l < board.entries.len() && l != k implies (
    #[trigger] board.entries[l]).index != index by {
        assert(order[l] != order[k]);
    }
}

/// Whether a process gave a usable output: it ended with status zero and its
/// standard output is valid UTF-8 that `serde_json::from_str` accepts.
pub open spec fn is_usable(outcome: ProcessOutcomeModel) -> bool {
    match outcome {
        ProcessOutcomeModel::SpawnFailed => false,
        ProcessOutcomeModel::TimedOut => false,
        ProcessOutcomeModel::Exited { code, stdout } => code == Some(0i32) && valid_utf8(stdout)
            && json_parse(decode_utf8(stdout)) is Some,
    }
}

/// A tool that cannot be started, does not end in time, ends with a status
/// other than zero, or prints what is not JSON, gives a result with the
/// default empty value and the reason of the failure; a tool with a usable
/// output and valid arguments gives its value and no failure. Either way there
/// is a result for the call's id, and nothing else comes of the failure.
pub proof fn lemma_failed_tool_gives_empty_value(
    invocation: InvocationModel,
    outcome: ProcessOutcomeModel,
)
    ensures
        result_model(invocation, outcome).tool_call_id == invocation.call.id,
        !is_usable(outcome) ==> result_model(invocation, outcome).value == empty_value()
            && result_model(invocation, outcome).failure is Some,
        !invocation.arguments_valid ==> result_model(invocation, outcome).value == empty_value()
            && result_model(invocation, outcome).failure == Some(ToolFailure::ArgumentCorruption),
        is_usable(outcome) && invocation.arguments_valid ==> result_model(
            invocation,
            outcome,
        ).failure is None && Some(result_model(invocation, outcome).value) == json_parse(
            decode_utf8(outcome->Exited_stdout),
        ),
{
}

} // verus!
