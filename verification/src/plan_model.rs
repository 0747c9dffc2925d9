//! What the execution of one declarative plan does, step by step.

use crate::admission::{
    admission, approval_outcome, bound_call, dispatched, execution_of, execution_recorded,
    finalization, policy_outcome, AdmissionModel, AuthorizationModel, ExecutionModel,
    FinalizationModel, PreparedModel, ToolBroker,
};
use crate::agent::RunRequest;
use crate::binding::bound_arguments;
use crate::broker::BrokerModel;
use crate::direct::execution_lost;
use crate::error::{HarnessError, RunError};
use crate::event::{PlanLifecycleOutcome, PlanNodeOutcome, PlanPhase, RunEvent};
use crate::json::{rendered_json, Json, JsonTree};
use crate::ledger::{LedgerModel, RecordModel};
use crate::model::ModelCapabilities;
use crate::plan::PlanNode;
use crate::plan_preflight::PlanBounds;
use crate::policy::PolicyDecision;
use crate::registry::registered;
use crate::request::stop_check;
use crate::schedule::{
    lifecycle_of_error, lifecycle_of_status, next_wave, node_of_error, node_of_status, parallelism,
    permitted, reads_only, ready_nodes, reserved, terminal_failure, MAX_PLAN_RETAINED_BYTES,
    PlanFailureKind, SlotModel,
};
use crate::speculative_call::preparation_failed;
use crate::text::decimal_digits;
use crate::tool::{ToolCall, ToolCaller, ToolResult, ToolResultModel};
use vstd::prelude::*;

verus! {

/// What a plan is executed with.
pub struct PlanContext<'a> {
    /// The tools and the part of them that plans see.
    pub broker: ToolBroker<'a>,
    /// The request.
    pub request: &'a RunRequest,
    /// What the provider can do.
    pub capabilities: ModelCapabilities,
    /// Caps on plans.
    pub bounds: PlanBounds,
    /// When the run must end, in milliseconds.
    pub deadline: Option<u64>,
}

/// What a node's arguments are bound for.
#[derive(Clone, Copy, Debug, PartialEq, Eq, Structural)]
pub enum BindPurpose {
    /// To authorize it before the first mutation runs.
    Gate,
    /// To run it, at this place of its wave.
    Wave(usize),
}

/// Where a plan execution stands.
pub enum PlanStage {
    /// Before the next node is prepared.
    Preflight,
    /// The policy was asked about the node prepared last.
    PreflightPolicy,
    /// Approval of the node prepared last was asked for.
    PreflightApproval,
    /// Before the arguments of this node are bound.
    Bind(BindPurpose, usize),
    /// The policy was asked about this node with these arguments.
    BindPolicy(BindPurpose, usize, Json),
    /// Approval of this node with these arguments was asked for.
    BindApproval(BindPurpose, usize, Json),
    /// The result of this call of the wave is next; how the wave failed so far.
    Results(usize, Option<PlanFailureKind>),
    /// Between two waves.
    NextWave,
    /// The execution is over, with this failure.
    Done(Option<PlanFailureKind>),
}

/// The model of a stage.
pub enum StageModel {
    /// Before the next node is prepared.
    Preflight,
    /// The policy was asked about the node prepared last.
    PreflightPolicy,
    /// Approval of the node prepared last was asked for.
    PreflightApproval,
    /// Before the arguments of this node are bound.
    Bind(BindPurpose, usize),
    /// The policy was asked about this node with these arguments.
    BindPolicy(BindPurpose, usize, JsonTree),
    /// Approval of this node with these arguments was asked for.
    BindApproval(BindPurpose, usize, JsonTree),
    /// The result of this call of the wave is next; how the wave failed so far.
    Results(usize, Option<PlanFailureKind>),
    /// Between two waves.
    NextWave,
    /// The execution is over, with this failure.
    Done(Option<PlanFailureKind>),
}

impl View for PlanStage {
    type V = StageModel;

    open spec fn view(&self) -> StageModel {
        match self {
            PlanStage::Preflight => StageModel::Preflight,
            PlanStage::PreflightPolicy => StageModel::PreflightPolicy,
            PlanStage::PreflightApproval => StageModel::PreflightApproval,
            PlanStage::Bind(purpose, index) => StageModel::Bind(*purpose, *index),
            PlanStage::BindPolicy(purpose, index, arguments) => StageModel::BindPolicy(
                *purpose,
                *index,
                arguments@,
            ),
            PlanStage::BindApproval(purpose, index, arguments) => StageModel::BindApproval(
                *purpose,
                *index,
                arguments@,
            ),
            PlanStage::Results(position, failure) => StageModel::Results(*position, *failure),
            PlanStage::NextWave => StageModel::NextWave,
            PlanStage::Done(failure) => StageModel::Done(*failure),
        }
    }
}

/// What happened outside.
pub enum PlanEvent {
    /// The run was checked: whether it was cancelled, and the time.
    Checked(bool, u64),
    /// The policy answered, and the time.
    Decided(Result<PolicyDecision, HarnessError>, u64),
    /// The request for approval was answered, and the time.
    Approved(Result<bool, HarnessError>, u64),
    /// The next call of the wave returned or failed, and how long it took.
    Returned(Result<ToolResult, HarnessError>, u64),
    /// Go on.
    Continued,
}

/// The model of an event.
pub enum PlanEventModel {
    /// The run was checked.
    Checked(bool, u64),
    /// The policy answered.
    Decided(Result<PolicyDecision<Seq<char>>, HarnessError<Seq<char>>>, u64),
    /// The request for approval was answered.
    Approved(Result<bool, HarnessError<Seq<char>>>, u64),
    /// The next call of the wave returned or failed.
    Returned(Result<ToolResultModel, HarnessError<Seq<char>>>, u64),
    /// Go on.
    Continued,
}

impl View for PlanEvent {
    type V = PlanEventModel;

    open spec fn view(&self) -> PlanEventModel {
        match self {
            PlanEvent::Checked(cancelled, now) => PlanEventModel::Checked(*cancelled, *now),
            PlanEvent::Decided(Ok(decision), now) => PlanEventModel::Decided(Ok(decision@), *now),
            PlanEvent::Decided(Err(error), now) => PlanEventModel::Decided(Err(error@), *now),
            PlanEvent::Approved(Ok(granted), now) => PlanEventModel::Approved(Ok(*granted), *now),
            PlanEvent::Approved(Err(error), now) => PlanEventModel::Approved(Err(error@), *now),
            PlanEvent::Returned(Ok(result), took) => PlanEventModel::Returned(Ok(result@), *took),
            PlanEvent::Returned(Err(error), took) => PlanEventModel::Returned(Err(error@), *took),
            PlanEvent::Continued => PlanEventModel::Continued,
        }
    }
}

/// What a plan execution asks for next.
#[derive(Clone, Copy, Debug, PartialEq, Eq, Structural)]
pub enum PlanAction {
    /// Check whether the run is stopped.
    Check,
    /// Ask the policy about the node at hand.
    AskPolicy,
    /// Ask for approval of the node at hand.
    AskApproval,
    /// Run the calls of the wave and hand back their results, in order.
    ExecuteWave,
    /// Hand back the next result of the wave.
    AwaitResult,
    /// Go on with the next wave.
    Continue,
    /// The execution is over.
    Finish,
    /// The event does not fit the stage; nothing changed.
    Misplaced,
}

/// The model of a plan execution.
pub struct PlanModel {
    /// What the run recorded.
    pub record: RecordModel,
    /// One-based number of the attempt.
    pub attempt: u32,
    /// The nodes.
    pub nodes: Seq<PlanNode>,
    /// What is held for each node prepared so far.
    pub slots: Seq<SlotModel>,
    /// The results of completed nodes.
    pub outputs: Seq<Option<ToolResultModel>>,
    /// The completed calls, in order.
    pub transcript: Seq<(ToolCall<Seq<char>>, ToolResultModel)>,
    /// Bytes that the completed calls take.
    pub retained: u64,
    /// Bytes that they may take, where any are left.
    pub budget: Option<u64>,
    /// Calls that may run beside each other.
    pub max_parallel: usize,
    /// One-based number of the wave.
    pub wave_number: u32,
    /// Whether a call was handed to its tool.
    pub effects_started: bool,
    /// Whether mutations may run.
    pub gate_open: bool,
    /// The nodes of the wave.
    pub wave: Seq<usize>,
    /// Those of them that are to be handed to their tools.
    pub executable: Seq<usize>,
    /// When the node at hand was begun.
    pub node_started: u64,
    /// Where the execution stands.
    pub stage: StageModel,
}

/// The public identifier of a node.
pub open spec fn event_id(attempt: u32, index: int) -> Seq<char> {
    "plan-"@ + decimal_digits(attempt as nat) + "-node-"@ + decimal_digits((index + 1) as nat)
}

/// Which nodes have a result.
pub open spec fn done_nodes(outputs: Seq<Option<ToolResultModel>>) -> Seq<bool> {
    outputs.map_values(|output: Option<ToolResultModel>| output is Some)
}

/// The time since a node was begun.
pub open spec fn since(started: u64, now: u64) -> u64 {
    if now >= started {
        (now - started) as u64
    } else {
        0
    }
}

/// The wave that an event of a node names.
pub open spec fn purpose_wave(run: PlanModel, purpose: BindPurpose) -> u32 {
    match purpose {
        BindPurpose::Gate => 0,
        BindPurpose::Wave(_) => run.wave_number,
    }
}

impl PlanModel {
    /// The execution with another record.
    pub open spec fn with_record(self, record: RecordModel) -> PlanModel {
        PlanModel { record, ..self }
    }

    /// The execution with another ledger.
    pub open spec fn with_ledger(self, ledger: LedgerModel) -> PlanModel {
        self.with_record(self.record.with_ledger(ledger))
    }

    /// The execution at another stage.
    pub open spec fn at(self, stage: StageModel) -> PlanModel {
        PlanModel { stage, ..self }
    }

    /// The execution, over.
    pub open spec fn over(self, failure: Option<PlanFailureKind>) -> (PlanModel, PlanAction) {
        (self.at(StageModel::Done(failure)), PlanAction::Finish)
    }

    /// The execution, stopped by a limit that the result already shows.
    pub open spec fn stopped(self) -> (PlanModel, PlanAction) {
        self.with_record(RecordModel { terminal: true, ..self.record }).over(
            Some(PlanFailureKind::Terminal),
        )
    }

    /// The execution, ended for good by an error.
    pub open spec fn terminated(self, error: HarnessError<Seq<char>>) -> (PlanModel, PlanAction) {
        self.with_record(self.record.terminated(error)).over(Some(PlanFailureKind::Terminal))
    }

    /// The record of an error, and how it fails the execution.
    pub open spec fn noted(
        self,
        error: HarnessError<Seq<char>>,
        otherwise: PlanFailureKind,
    ) -> (PlanModel, PlanFailureKind) {
        if terminal_failure(error) {
            (self.with_record(self.record.terminated(error)), PlanFailureKind::Terminal)
        } else {
            (self.with_ledger(self.record.ledger.with_error(error.recorded())), otherwise)
        }
    }

    /// The execution, failed by an error.
    pub open spec fn failed(
        self,
        error: HarnessError<Seq<char>>,
        otherwise: PlanFailureKind,
    ) -> (PlanModel, PlanAction) {
        let (next, failure) = self.noted(error, otherwise);
        next.over(Some(failure))
    }

    /// The execution with the end of a node reported.
    pub open spec fn node_ended(
        self,
        index: int,
        wave: u32,
        ok: bool,
        outcome: PlanNodeOutcome,
        duration_ms: u64,
    ) -> PlanModel {
        self.with_record(
            self.record.emit(
                RunEvent::PlanNodeCompleted {
                    node_id: event_id(self.attempt, index),
                    tool_id: self.nodes[index].tool_id@,
                    attempt: self.attempt,
                    wave,
                    ok,
                    outcome,
                    duration_ms,
                },
            ),
        )
    }

    /// The execution with the state of its preflight reported.
    pub open spec fn preflight_reported(self, outcome: PlanLifecycleOutcome) -> PlanModel {
        self.with_record(
            self.record.emit(
                RunEvent::PlanLifecycle {
                    phase: PlanPhase::Preflight,
                    attempt: self.attempt,
                    outcome,
                },
            ),
        )
    }

    /// The execution, failed in its preflight.
    pub open spec fn preflight_failed(self, error: HarnessError<Seq<char>>) -> (
        PlanModel,
        PlanAction,
    ) {
        self.preflight_reported(lifecycle_of_error(error)).failed(error, PlanFailureKind::Preflight)
    }

    /// The execution, stopped by a limit in its preflight.
    pub open spec fn preflight_stopped(self) -> (PlanModel, PlanAction) {
        self.preflight_reported(lifecycle_of_status(self.record.ledger.result.status)).stopped()
    }

    /// The execution with the proposal at hand ended by an error before it was issued.
    pub open spec fn aborted(self, error: HarnessError<Seq<char>>) -> PlanModel {
        self.with_ledger(
            self.record.ledger.with_broker(
                self.record.ledger.broker.ended_before_dispatch(error),
            ),
        )
    }

    /// The execution with another slot of a node.
    pub open spec fn with_slot(self, index: int, slot: SlotModel) -> PlanModel {
        PlanModel { slots: self.slots.update(index, slot), ..self }
    }
}

/// The budget of an execution that starts with this conversation.
pub open spec fn result_budget(max_transcript_bytes: u64, existing: nat) -> Option<u64> {
    let budget = crate::binding::smaller(max_transcript_bytes, MAX_PLAN_RETAINED_BYTES);
    if existing <= budget {
        Some((budget - existing) as u64)
    } else {
        None
    }
}

/// An execution before its first node is prepared. `checked` is what the check of the whole
/// plan answered.
pub open spec fn plan_begun(
    context: &PlanContext,
    record: RecordModel,
    attempts: u32,
    nodes: Seq<PlanNode>,
    existing: nat,
    checked: Result<(), HarnessError<Seq<char>>>,
) -> (PlanModel, PlanAction) {
    let fresh = PlanModel {
        record,
        attempt: attempts,
        nodes,
        slots: Seq::empty(),
        outputs: Seq::new(nodes.len(), |i: int| None),
        transcript: Seq::empty(),
        retained: 0,
        budget: result_budget(context.request.agent.limits.max_transcript_bytes, existing),
        max_parallel: parallelism(context.capabilities),
        wave_number: 0,
        effects_started: false,
        gate_open: false,
        wave: Seq::empty(),
        executable: Seq::empty(),
        node_started: 0,
        stage: StageModel::Preflight,
    };
    if attempts == u32::MAX {
        fresh.terminated(
            HarnessError::ResourceLimit("declarative plan attempt counter overflow"@),
        )
    } else {
        let begun = PlanModel { attempt: (attempts + 1) as u32, ..fresh }.preflight_reported(
            PlanLifecycleOutcome::Started,
        );
        match checked {
            Err(error) => begun.preflight_failed(error),
            Ok(_) => (begun, PlanAction::Check),
        }
    }
}

/// A completed node whose result was recorded before.
pub open spec fn reused_node(
    run: PlanModel,
    index: int,
    call: ToolCall<Seq<char>>,
    result: ToolResultModel,
    duration_ms: u64,
) -> Result<PlanModel, PlanModel> {
    let spent = run.with_slot(index, SlotModel::Spent);
    match reserved(run.retained, run.budget->0, call, result) {
        Ok(retained) => {
            let next = spent.node_ended(
                index,
                run.wave_number,
                result.ok,
                PlanNodeOutcome::Reused,
                duration_ms,
            );
            Ok(
                PlanModel {
                    retained,
                    outputs: next.outputs.update(index, Some(result)),
                    transcript: next.transcript.push((call, result)),
                    ..next
                },
            )
        },
        Err(error) => Err(
            spent.node_ended(index, run.wave_number, false, node_of_error(error), duration_ms)
                .terminated(error).0,
        ),
    }
}

/// The calls of the nodes to be handed to their tools.
pub open spec fn executable_calls(run: PlanModel) -> Seq<ToolCall<Seq<char>>> {
    run.executable.map_values(
        |index: usize|
            match run.slots[index as int] {
                SlotModel::Prepared(prepared) => prepared.call,
                SlotModel::Dispatched(prepared) => prepared.call,
                SlotModel::Reused(call, _) => call,
                SlotModel::Spent => ToolCall {
                    id: Seq::empty(),
                    tool_id: Seq::empty(),
                    arguments_json: Seq::empty(),
                },
            },
    )
}

/// The execution with the first `count` calls of the wave handed to their tools.
pub open spec fn wave_started(run: PlanModel, count: nat) -> PlanModel
    decreases count,
{
    if count == 0 || count > run.executable.len() {
        run
    } else {
        let before = wave_started(run, (count - 1) as nat);
        let index = run.executable[count - 1] as int;
        let prepared = run.slots[index]->Prepared_0;
        let ledger = before.record.ledger.with_broker(
            dispatched(before.record.ledger.broker, prepared),
        ).emit(
            RunEvent::PlanNodeStarted {
                node_id: event_id(run.attempt, index),
                tool_id: prepared.call.tool_id,
                attempt: run.attempt,
                wave: run.wave_number,
            },
        );
        before.with_ledger(ledger).with_slot(index, SlotModel::Dispatched(prepared))
    }
}

/// The execution once every node of the wave is bound: as many calls as fit the budget are
/// handed to their tools.
#[verifier::opaque]
pub open spec fn wave_bound(context: &PlanContext, run: PlanModel) -> (PlanModel, PlanAction) {
    let (fitting, _) = permitted(
        executable_calls(run),
        run.retained,
        run.budget->0,
        context.request.agent.limits.max_tool_result_bytes,
        run.executable.len(),
    );
    if run.executable.len() == 0 {
        (run.at(StageModel::NextWave), PlanAction::Continue)
    } else if fitting == 0 {
        run.node_ended(
            run.executable[0] as int,
            run.wave_number,
            false,
            PlanNodeOutcome::LimitReached,
            0,
        ).terminated(
            HarnessError::ResourceLimit(
                "aggregate plan result budget is exhausted before the next wave"@,
            ),
        )
    } else {
        let trimmed = PlanModel {
            executable: run.executable.take(fitting as int),
            effects_started: true,
            ..run
        };
        (
            wave_started(trimmed, fitting).at(StageModel::Results(0, None)),
            PlanAction::ExecuteWave,
        )
    }
}

/// The execution from place `position` of its wave on: recorded results answer at once, the
/// first other node is bound next.
pub open spec fn wave_from(context: &PlanContext, run: PlanModel, position: nat) -> (
    PlanModel,
    PlanAction,
)
    decreases run.wave.len() - position,
{
    if position >= run.wave.len() {
        wave_bound(context, run)
    } else {
        let index = run.wave[position as int];
        match run.slots[index as int] {
            SlotModel::Reused(call, result) => match reused_node(run, index as int, call, result, 0) {
                Err(ended) => (ended, PlanAction::Finish),
                Ok(next) => wave_from(context, next, position + 1),
            },
            _ => (
                run.at(StageModel::Bind(BindPurpose::Wave(position as usize), index)),
                PlanAction::Check,
            ),
        }
    }
}

/// The execution with the next wave taken from these candidates.
#[verifier::opaque]
pub open spec fn wave_begun(context: &PlanContext, run: PlanModel, candidates: Seq<usize>) -> (
    PlanModel,
    PlanAction,
) {
    let wave = next_wave(
        run.nodes,
        context.broker.tools@,
        run.slots,
        candidates,
        run.max_parallel,
    );
    wave_from(
        context,
        PlanModel {
            wave,
            wave_number: if run.wave_number == u32::MAX {
                u32::MAX
            } else {
                (run.wave_number + 1) as u32
            },
            executable: Seq::empty(),
            ..run
        },
        0,
    )
}

/// The execution, failed because nothing can run.
pub open spec fn no_progress(run: PlanModel) -> (PlanModel, PlanAction) {
    run.with_ledger(
        run.record.ledger.with_error(
            RunError {
                code: "plan_execution_failed"@,
                message: "execution plan made no dependency progress"@,
            },
        ),
    ).over(Some(PlanFailureKind::Recoverable))
}

/// The nodes that may run now.
pub open spec fn candidates_of(run: PlanModel, reads: bool) -> Seq<usize> {
    ready_nodes(run.nodes, done_nodes(run.outputs), run.slots, reads, run.nodes.len())
}

/// Whether every node has a result.
pub open spec fn all_complete(run: PlanModel) -> bool {
    forall|i: int| 0 <= i < run.outputs.len() ==> (#[trigger] run.outputs[i]) is Some
}

/// Whether node `index` must be authorized before the first mutation runs.
pub open spec fn gated(run: PlanModel, index: int) -> bool {
    run.outputs[index] is None && (run.slots[index] matches SlotModel::Prepared(prepared) && !(
    prepared.read_only && !run.nodes[index].approval_barrier))
}

/// The execution from node `start` of those to authorize on. Behind the last one mutations may
/// run, and the next wave begins.
pub open spec fn gate_from(context: &PlanContext, run: PlanModel, start: nat) -> (
    PlanModel,
    PlanAction,
)
    decreases run.nodes.len() - start,
{
    if start >= run.nodes.len() {
        let opened = PlanModel { gate_open: true, ..run };
        if candidates_of(opened, false).len() == 0 {
            no_progress(opened)
        } else {
            wave_begun(context, opened, candidates_of(opened, false))
        }
    } else if gated(run, start as int) {
        (run.at(StageModel::Bind(BindPurpose::Gate, start as usize)), PlanAction::Check)
    } else {
        gate_from(context, run, start + 1)
    }
}

/// The execution between two waves.
#[verifier::opaque]
pub open spec fn scheduled(context: &PlanContext, run: PlanModel) -> (PlanModel, PlanAction) {
    if all_complete(run) {
        run.over(None)
    } else if candidates_of(run, false).len() == 0 {
        no_progress(run)
    } else if run.gate_open {
        wave_begun(context, run, candidates_of(run, false))
    } else if candidates_of(run, true).len() == 0 {
        gate_from(context, run, 0)
    } else {
        wave_begun(context, run, candidates_of(run, true))
    }
}

/// The execution once the node at hand is prepared.
#[verifier::opaque]
pub open spec fn node_prepared(context: &PlanContext, run: PlanModel) -> (PlanModel, PlanAction) {
    if run.slots.len() < run.nodes.len() {
        (run.at(StageModel::Preflight), PlanAction::Check)
    } else {
        let validated = run.with_record(
            run.record.emit(
                RunEvent::PlanValidated {
                    attempt: run.attempt,
                    node_count: run.nodes.len() as u32,
                },
            ),
        ).preflight_reported(PlanLifecycleOutcome::Succeeded);
        if run.budget is None {
            validated.terminated(
                HarnessError::ResourceLimit("plan result budget is exhausted before execution"@),
            )
        } else {
            scheduled(context, validated)
        }
    }
}

/// The error of a node that was refused in the preflight.
pub open spec fn preflight_refusal(node: PlanNode) -> HarnessError<Seq<char>> {
    HarnessError::InvalidRequest(
        "plan node '"@ + node.id@ + "' failed execution preflight"@,
    )
}

/// The preparation of the next node.
#[verifier::opaque]
pub open spec fn prepared_next(
    context: &PlanContext,
    run: PlanModel,
    cancelled: bool,
    now: u64,
) -> (PlanModel, PlanAction) {
    let index = run.slots.len() as int;
    let node = run.nodes[index];
    let begun = PlanModel { node_started: now, ..run };
    match stop_check(
        cancelled,
        now,
        context.deadline,
        "run deadline reached before tool validation"@,
    ) {
        Err(error) => begun.node_ended(index, 0, false, node_of_error(error), 0).preflight_failed(
            error,
        ),
        Ok(_) => {
            let call = ToolCall {
                id: event_id(run.attempt, index),
                tool_id: node.tool_id@,
                arguments_json: rendered_json(node.arguments@),
            };
            let (ledger, outcome) = admission(
                run.record.ledger,
                context.broker.tools@,
                context.broker.scope,
                context.request,
                call,
                ToolCaller::DeclarativePlan,
                node.approval_barrier,
                node.result_bindings@.len() > 0,
                None,
            );
            admission_handled(
                context,
                begun.with_ledger(ledger),
                run.record.ledger.broker,
                call,
                outcome,
            )
        },
    }
}

/// What the admission of the next node comes to. `before` holds the counters before it.
#[verifier::opaque]
pub open spec fn admission_handled(
    context: &PlanContext,
    run: PlanModel,
    before: BrokerModel,
    call: ToolCall<Seq<char>>,
    outcome: Result<AdmissionModel, HarnessError<Seq<char>>>,
) -> (PlanModel, PlanAction) {
    let index = run.slots.len() as int;
    match outcome {
        Err(error) => run.with_ledger(
            preparation_failed(run.record.ledger, before.tool_calls, before.classified(), error),
        ).node_ended(index, 0, false, node_of_error(error), 0).preflight_failed(error),
        Ok(AdmissionModel::Stop) => run.node_ended(
            index,
            0,
            false,
            node_of_status(run.record.ledger.result.status),
            0,
        ).preflight_stopped(),
        Ok(AdmissionModel::Rejected(_)) => run.node_ended(
            index,
            0,
            false,
            PlanNodeOutcome::Rejected,
            0,
        ).preflight_failed(preflight_refusal(run.nodes[index])),
        Ok(AdmissionModel::Reused(result)) => node_prepared(
            context,
            PlanModel { slots: run.slots.push(SlotModel::Reused(call, result)), ..run },
        ),
        Ok(AdmissionModel::Deferred(prepared)) => node_prepared(
            context,
            PlanModel { slots: run.slots.push(SlotModel::Prepared(prepared)), ..run },
        ),
        Ok(AdmissionModel::Authorize(prepared)) => (
            PlanModel { slots: run.slots.push(SlotModel::Prepared(prepared)), ..run }.at(
                StageModel::PreflightPolicy,
            ),
            PlanAction::AskPolicy,
        ),
    }
}

/// The execution once the authorization of a prepared node was answered.
#[verifier::opaque]
pub open spec fn preflight_authorized(
    context: &PlanContext,
    run: PlanModel,
    authorization: AuthorizationModel,
    now: u64,
) -> (PlanModel, PlanAction) {
    let index = run.slots.len() - 1;
    match authorization {
        AuthorizationModel::Authorized => node_prepared(context, run),
        AuthorizationModel::AskApproval => (
            run.at(StageModel::PreflightApproval),
            PlanAction::AskApproval,
        ),
        AuthorizationModel::Rejected(_) => run.node_ended(
            index,
            0,
            false,
            PlanNodeOutcome::Rejected,
            since(run.node_started, now),
        ).preflight_failed(preflight_refusal(run.nodes[index])),
    }
}

/// The execution once the authorization of a prepared node failed.
#[verifier::opaque]
pub open spec fn preflight_unauthorized(
    run: PlanModel,
    error: HarnessError<Seq<char>>,
    now: u64,
) -> (PlanModel, PlanAction) {
    run.aborted(error).node_ended(
        run.slots.len() - 1,
        0,
        false,
        node_of_error(error),
        since(run.node_started, now),
    ).preflight_failed(error)
}

/// The execution, failed while a node was bound.
#[verifier::opaque]
pub open spec fn bind_failed(
    run: PlanModel,
    purpose: BindPurpose,
    index: int,
    error: HarnessError<Seq<char>>,
    duration_ms: u64,
) -> (PlanModel, PlanAction) {
    run.node_ended(
        index,
        purpose_wave(run, purpose),
        false,
        node_of_error(error),
        duration_ms,
    ).failed(error, PlanFailureKind::Recoverable)
}

/// The execution once a node is bound and authorized.
#[verifier::opaque]
pub open spec fn node_bound(
    context: &PlanContext,
    run: PlanModel,
    purpose: BindPurpose,
    index: usize,
) -> (PlanModel, PlanAction) {
    match purpose {
        BindPurpose::Gate => gate_from(context, run, (index + 1) as nat),
        BindPurpose::Wave(position) => wave_from(
            context,
            PlanModel { executable: run.executable.push(index), ..run },
            (position + 1) as nat,
        ),
    }
}

/// The binding of a node.
#[verifier::opaque]
pub open spec fn binding_checked(
    context: &PlanContext,
    run: PlanModel,
    purpose: BindPurpose,
    index: usize,
    cancelled: bool,
    now: u64,
) -> (PlanModel, PlanAction) {
    let node = run.nodes[index as int];
    let begun = PlanModel { node_started: now, ..run };
    let prepared = run.slots[index as int]->Prepared_0;
    match bound_arguments(
        run.nodes,
        run.outputs,
        node,
        context.request.agent.limits.max_tool_arguments_bytes,
        context.bounds.max_argument_bytes,
    ) {
        Err(error) => bind_failed(begun.aborted(error), purpose, index as int, error, 0),
        Ok(arguments) => match stop_check(
            cancelled,
            now,
            context.deadline,
            "run deadline reached before bound argument validation"@,
        ) {
            Err(error) => bind_failed(begun.aborted(error), purpose, index as int, error, 0),
            Ok(_) => {
                let permits = match registered(context.broker.tools@, prepared.call.tool_id) {
                    Some(tool) => tool.definition.permits(prepared.caller),
                    None => false,
                };
                let (ledger, next_call, outcome) = finalization(
                    run.record.ledger,
                    context.broker.tools@,
                    context.broker.scope,
                    context.request,
                    prepared,
                    permits,
                    arguments,
                );
                let next = begun.with_ledger(ledger).with_slot(
                    index as int,
                    SlotModel::Prepared(next_call),
                );
                finalization_handled(context, next, purpose, index, arguments, outcome)
            },
        },
    }
}

/// What the final arguments of a node come to.
#[verifier::opaque]
pub open spec fn finalization_handled(
    context: &PlanContext,
    run: PlanModel,
    purpose: BindPurpose,
    index: usize,
    arguments: JsonTree,
    outcome: Result<FinalizationModel, HarnessError<Seq<char>>>,
) -> (PlanModel, PlanAction) {
    let call = run.slots[index as int]->Prepared_0.call;
    match outcome {
        Err(error) => bind_failed(run.aborted(error), purpose, index as int, error, 0),
        Ok(FinalizationModel::Stop) => run.node_ended(
            index as int,
            purpose_wave(run, purpose),
            false,
            node_of_status(run.record.ledger.result.status),
            0,
        ).stopped(),
        Ok(FinalizationModel::Ready) => node_bound(context, run, purpose, index),
        Ok(FinalizationModel::Authorize) => (
            run.at(StageModel::BindPolicy(purpose, index, arguments)),
            PlanAction::AskPolicy,
        ),
        Ok(FinalizationModel::Reused(result)) => match purpose {
            BindPurpose::Gate => gate_from(
                context,
                run.with_slot(index as int, SlotModel::Reused(call, result)),
                (index + 1) as nat,
            ),
            BindPurpose::Wave(position) => match reused_node(run, index as int, call, result, 0) {
                Err(ended) => (ended, PlanAction::Finish),
                Ok(completed) => wave_from(context, completed, (position + 1) as nat),
            },
        },
    }
}

/// The execution once the authorization of a bound node was answered.
#[verifier::opaque]
pub open spec fn bound_authorized(
    context: &PlanContext,
    run: PlanModel,
    purpose: BindPurpose,
    index: usize,
    arguments: JsonTree,
    authorization: AuthorizationModel,
    now: u64,
) -> (PlanModel, PlanAction) {
    let prepared = run.slots[index as int]->Prepared_0;
    match authorization {
        AuthorizationModel::Authorized => node_bound(
            context,
            run.with_slot(index as int, SlotModel::Prepared(bound_call(prepared, arguments))),
            purpose,
            index,
        ),
        AuthorizationModel::AskApproval => (
            run.at(StageModel::BindApproval(purpose, index, arguments)),
            PlanAction::AskApproval,
        ),
        AuthorizationModel::Rejected(_) => bind_failed(
            run,
            purpose,
            index as int,
            HarnessError::Policy("bound plan call authorization denied"@),
            since(run.node_started, now),
        ),
    }
}

/// How a wave failed, once one more call of it did.
pub open spec fn wave_failure(
    failure: Option<PlanFailureKind>,
    kind: PlanFailureKind,
) -> Option<PlanFailureKind> {
    if kind == PlanFailureKind::Terminal || failure is None {
        Some(kind)
    } else {
        failure
    }
}

/// What a returned call comes to.
pub open spec fn call_returned(
    run: PlanModel,
    index: int,
    prepared: PreparedModel,
    execution: ExecutionModel,
    failure: Option<PlanFailureKind>,
    duration_ms: u64,
) -> (PlanModel, Option<PlanFailureKind>) {
    let reported = run.record.ledger.tool_completed(prepared.call, execution.result.ok);
    let ledger = reported.with_broker(execution_recorded(reported.broker, prepared, execution));
    let next = run.with_ledger(ledger);
    if execution.validation_error is Some {
        let ended = next.node_ended(
            index,
            run.wave_number,
            false,
            PlanNodeOutcome::Rejected,
            duration_ms,
        );
        (
            ended.with_ledger(ended.record.ledger.with_error(execution.validation_error->0)),
            wave_failure(failure, PlanFailureKind::Recoverable),
        )
    } else if !execution.result.ok {
        let ended = next.node_ended(
            index,
            run.wave_number,
            false,
            PlanNodeOutcome::Failed,
            duration_ms,
        );
        (
            ended.with_ledger(
                ended.record.ledger.with_error(tool_failure(execution.result)),
            ),
            wave_failure(failure, PlanFailureKind::Recoverable),
        )
    } else {
        match reserved(run.retained, run.budget->0, prepared.call, execution.result) {
            Ok(retained) => {
                let ended = next.node_ended(
                    index,
                    run.wave_number,
                    true,
                    PlanNodeOutcome::Succeeded,
                    duration_ms,
                );
                (
                    PlanModel {
                        retained,
                        outputs: ended.outputs.update(index, Some(execution.result)),
                        transcript: ended.transcript.push((prepared.call, execution.result)),
                        ..ended
                    },
                    failure,
                )
            },
            Err(error) => {
                let ended = next.node_ended(
                    index,
                    run.wave_number,
                    false,
                    node_of_error(error),
                    duration_ms,
                );
                (
                    ended.with_record(ended.record.terminated(error)),
                    Some(PlanFailureKind::Terminal),
                )
            },
        }
    }
}

/// The recorded error of a tool that reported a failure.
pub open spec fn tool_failure(result: ToolResultModel) -> RunError<Seq<char>> {
    RunError {
        code: "tool_error"@,
        message: match result.error {
            Some(message) => message,
            None => "tool returned a failure result"@,
        },
    }
}

/// What a call that ended without a result comes to.
pub open spec fn call_lost(
    run: PlanModel,
    index: int,
    prepared: PreparedModel,
    error: HarnessError<Seq<char>>,
    failure: Option<PlanFailureKind>,
    duration_ms: u64,
) -> (PlanModel, Option<PlanFailureKind>) {
    let lost = run.with_ledger(execution_lost(run.record.ledger, prepared, error));
    let (next, kind) = lost.node_ended(
        index,
        run.wave_number,
        false,
        node_of_error(error),
        duration_ms,
    ).noted(error, PlanFailureKind::Recoverable);
    (next, wave_failure(failure, kind))
}

/// What one outcome of a wave comes to.
#[verifier::opaque]
pub open spec fn outcome_noted(
    context: &PlanContext,
    run: PlanModel,
    index: int,
    prepared: PreparedModel,
    outcome: Result<ToolResultModel, HarnessError<Seq<char>>>,
    failure: Option<PlanFailureKind>,
    duration_ms: u64,
) -> (PlanModel, Option<PlanFailureKind>) {
    let checked = match outcome {
        Ok(result) => execution_of(
            context.broker.tools@,
            context.request.agent.limits,
            prepared.call.tool_id,
            result,
        ),
        Err(error) => Err(error),
    };
    match checked {
        Ok(execution) => call_returned(run, index, prepared, execution, failure, duration_ms),
        Err(error) => call_lost(run, index, prepared, error, failure, duration_ms),
    }
}

/// The execution once the next call of the wave returned or failed.
#[verifier::opaque]
pub open spec fn result_handled(
    context: &PlanContext,
    run: PlanModel,
    position: usize,
    failure: Option<PlanFailureKind>,
    outcome: Result<ToolResultModel, HarnessError<Seq<char>>>,
    duration_ms: u64,
) -> (PlanModel, PlanAction) {
    let index = run.executable[position as int] as int;
    let (next, next_failure) = outcome_noted(
        context,
        run.with_slot(index, SlotModel::Spent),
        index,
        run.slots[index]->Dispatched_0,
        outcome,
        failure,
        duration_ms,
    );
    if position + 1 < run.executable.len() {
        (
            next.at(StageModel::Results((position + 1) as usize, next_failure)),
            PlanAction::AwaitResult,
        )
    } else if next_failure is Some {
        next.over(next_failure)
    } else {
        (next.at(StageModel::NextWave), PlanAction::Continue)
    }
}

/// One step of a plan execution: the next state and what it asks for.
pub open spec fn plan_step(context: &PlanContext, run: PlanModel, event: PlanEventModel) -> (
    PlanModel,
    PlanAction,
) {
    match (run.stage, event) {
        (StageModel::Preflight, PlanEventModel::Checked(cancelled, now)) => prepared_next(
            context,
            run,
            cancelled,
            now,
        ),
        (StageModel::PreflightPolicy, PlanEventModel::Decided(Ok(decision), now)) => {
            let prepared = run.slots.last()->Prepared_0;
            let (ledger, answer) = policy_outcome(
                run.record.ledger,
                prepared.call,
                decision,
                prepared.approval_barrier,
            );
            preflight_authorized(context, run.with_ledger(ledger), answer, now)
        },
        (StageModel::PreflightPolicy, PlanEventModel::Decided(Err(error), now)) =>
            preflight_unauthorized(run, error, now),
        (StageModel::PreflightApproval, PlanEventModel::Approved(Ok(granted), now)) => {
            let (ledger, answer) = approval_outcome(
                run.record.ledger,
                run.slots.last()->Prepared_0.call,
                granted,
            );
            preflight_authorized(context, run.with_ledger(ledger), answer, now)
        },
        (StageModel::PreflightApproval, PlanEventModel::Approved(Err(error), now)) =>
            preflight_unauthorized(run, error, now),
        (StageModel::Bind(purpose, index), PlanEventModel::Checked(cancelled, now)) =>
            binding_checked(context, run, purpose, index, cancelled, now),
        (
            StageModel::BindPolicy(purpose, index, arguments),
            PlanEventModel::Decided(Ok(decision), now),
        ) => {
            let prepared = run.slots[index as int]->Prepared_0;
            let (ledger, answer) = policy_outcome(
                run.record.ledger,
                prepared.call,
                decision,
                prepared.approval_barrier,
            );
            bound_authorized(
                context,
                run.with_ledger(ledger),
                purpose,
                index,
                arguments,
                answer,
                now,
            )
        },
        (
            StageModel::BindPolicy(purpose, index, _),
            PlanEventModel::Decided(Err(error), now),
        ) => bind_failed(
            run.aborted(error),
            purpose,
            index as int,
            error,
            since(run.node_started, now),
        ),
        (
            StageModel::BindApproval(purpose, index, arguments),
            PlanEventModel::Approved(Ok(granted), now),
        ) => {
            let (ledger, answer) = approval_outcome(
                run.record.ledger,
                run.slots[index as int]->Prepared_0.call,
                granted,
            );
            bound_authorized(
                context,
                run.with_ledger(ledger),
                purpose,
                index,
                arguments,
                answer,
                now,
            )
        },
        (
            StageModel::BindApproval(purpose, index, _),
            PlanEventModel::Approved(Err(error), now),
        ) => bind_failed(
            run.aborted(error),
            purpose,
            index as int,
            error,
            since(run.node_started, now),
        ),
        (StageModel::Results(position, failure), PlanEventModel::Returned(outcome, took)) =>
            result_handled(context, run, position, failure, outcome, took),
        (StageModel::NextWave, PlanEventModel::Continued) => scheduled(context, run),
        _ => (run, PlanAction::Misplaced),
    }
}

/// The views of completed calls.
pub open spec fn entries_view(entries: Seq<(ToolCall, ToolResult)>) -> Seq<
    (ToolCall<Seq<char>>, ToolResultModel),
> {
    entries.map_values(|entry: (ToolCall, ToolResult)| (entry.0@, entry.1@))
}

/// Whether as many calls were issued and are resolved as before.
pub open spec fn same_resolution(before: PlanModel, after: PlanModel) -> bool {
    &&& after.record.ledger.broker.tool_issued == before.record.ledger.broker.tool_issued
    &&& after.record.ledger.broker.resolved() == before.record.ledger.broker.resolved()
}

/// How many calls are admitted and not decided yet.
pub open spec fn undecided_calls(slots: Seq<SlotModel>) -> nat
    decreases slots.len(),
{
    if slots.len() == 0 {
        0
    } else {
        undecided_calls(slots.drop_last()) + (if slots.last() is Prepared {
            1nat
        } else {
            0nat
        })
    }
}

/// How an exchanged slot moves the count.
pub proof fn counts_after_update(slots: Seq<SlotModel>, index: int, slot: SlotModel)
    requires
        0 <= index < slots.len(),
    ensures
        undecided_calls(slots.update(index, slot)) == undecided_calls(slots) - (
        if slots[index] is Prepared {
            1int
        } else {
            0int
        }) + (if slot is Prepared {
            1int
        } else {
            0int
        }),
    decreases slots.len(),
{
    let updated = slots.update(index, slot);
    if index == slots.len() - 1 {
        assert(updated.drop_last() =~= slots.drop_last());
    } else {
        counts_after_update(slots.drop_last(), index, slot);
        assert(updated.drop_last() =~= slots.drop_last().update(index, slot));
        assert(updated.last() == slots.last());
    }
}

/// How one more slot moves the count.
pub proof fn counts_after_push(slots: Seq<SlotModel>, slot: SlotModel)
    ensures
        undecided_calls(slots.push(slot)) == undecided_calls(slots) + (if slot is Prepared {
            1int
        } else {
            0int
        }),
{
    assert(slots.push(slot).drop_last() =~= slots);
}

/// A held call is counted.
pub proof fn held_calls_count(slots: Seq<SlotModel>, index: int)
    requires
        0 <= index < slots.len(),
    ensures
        slots[index] is Prepared ==> undecided_calls(slots) > 0,
    decreases slots.len(),
{
    if index < slots.len() - 1 {
        held_calls_count(slots.drop_last(), index);
    }
}

/// Whether a call that changes nothing was handed to its tool.
pub open spec fn running_read(slot: SlotModel) -> bool {
    slot matches SlotModel::Dispatched(prepared) && prepared.read_only
}

/// Whether numbers grow from left to right.
pub open spec fn increasing(values: Seq<usize>) -> bool {
    forall|i: int, j: int| 0 <= i < j < values.len() ==> values[i] < values[j]
}

/// Whether `index` stands in a list, at `start` or behind it.
pub open spec fn lists(values: Seq<usize>, start: int, index: int) -> bool {
    exists|e: int| start <= e < values.len() && (#[trigger] values[e]) as int == index
}

impl PlanModel {
    /// The counters leave room for every call that is held.
    pub open spec fn counted(self) -> bool {
        let broker = self.record.ledger.broker;
        &&& broker.consistent()
        &&& broker.classified() + undecided_calls(self.slots) <= broker.tool_calls
        &&& self.outputs.len() == self.nodes.len()
        &&& self.max_parallel > 0
    }

    /// Every node without a result holds a call or a recorded effect.
    pub open spec fn held(self) -> bool {
        &&& self.counted()
        &&& self.record.ledger.broker.settled()
        &&& self.slots.len() == self.nodes.len()
        &&& self.budget is Some
        &&& forall|i: int|
            0 <= i < self.nodes.len() && (#[trigger] self.outputs[i]) is None ==> self.slots[i]
                is Prepared || self.slots[i] is Reused
    }

    /// What holds from place `position` of a wave on.
    pub open spec fn wave_held(self, position: int) -> bool {
        &&& self.held()
        &&& increasing(self.wave)
        &&& increasing(self.executable)
        &&& forall|j: int|
            0 <= j < self.wave.len() ==> (#[trigger] self.wave[j]) < self.nodes.len()
        &&& forall|j: int|
            position <= j < self.wave.len() ==> self.outputs[(#[trigger] self.wave[j]) as int]
                is None
        &&& forall|e: int|
            0 <= e < self.executable.len() ==> (#[trigger] self.executable[e]) < self.nodes.len()
                && self.slots[self.executable[e] as int] is Prepared
                && self.outputs[self.executable[e] as int] is None
        &&& forall|e: int, j: int|
            0 <= e < self.executable.len() && position <= j < self.wave.len()
                ==> self.executable[e] < self.wave[j]
        &&& !self.gate_open ==> forall|e: int|
            0 <= e < self.executable.len() ==> reads_only(
                self.slots[(#[trigger] self.executable[e]) as int],
            )
        &&& !self.gate_open ==> forall|j: int|
            position <= j < self.wave.len() ==> reads_only(
                self.slots[(#[trigger] self.wave[j]) as int],
            )
    }

    /// What holds of a node that is being bound.
    pub open spec fn binding_held(self, purpose: BindPurpose, index: usize) -> bool {
        &&& self.held()
        &&& index < self.nodes.len()
        &&& self.slots[index as int] is Prepared
        &&& self.outputs[index as int] is None
        &&& match purpose {
            BindPurpose::Gate => true,
            BindPurpose::Wave(position) => position < self.wave.len() && self.wave[position as int]
                == index && self.wave_held(position as int),
        }
    }

    /// What holds while the results of a wave come in.
    pub open spec fn results_held(self, position: int, failure: Option<PlanFailureKind>) -> bool {
        &&& self.counted()
        &&& self.record.ledger.broker.resolved() + (self.executable.len() - position)
            == self.record.ledger.broker.tool_issued
        &&& self.slots.len() == self.nodes.len()
        &&& self.budget is Some
        &&& 0 <= position <= self.executable.len()
        &&& increasing(self.executable)
        &&& forall|e: int|
            position <= e < self.executable.len() ==> (#[trigger] self.executable[e])
                < self.nodes.len() && self.slots[self.executable[e] as int] is Dispatched
                && self.outputs[self.executable[e] as int] is None
        &&& !self.gate_open ==> forall|e: int|
            position <= e < self.executable.len() ==> running_read(
                self.slots[(#[trigger] self.executable[e]) as int],
            )
        &&& failure is None ==> forall|i: int|
            0 <= i < self.nodes.len() && (#[trigger] self.outputs[i]) is None ==> self.slots[i]
                is Prepared || self.slots[i] is Reused || lists(
                self.executable,
                position,
                i,
            )
    }

    /// What holds while nodes are prepared.
    pub open spec fn preflight_held(self) -> bool {
        &&& self.counted()
        &&& self.record.ledger.broker.settled()
        &&& self.slots.len() <= self.nodes.len()
        &&& forall|i: int|
            0 <= i < self.slots.len() ==> (#[trigger] self.slots[i]) is Prepared || self.slots[i]
                is Reused
    }

    /// What holds of an execution between two steps.
    pub open spec fn consistent(self) -> bool {
        match self.stage {
            StageModel::Preflight => self.preflight_held() && self.slots.len() < self.nodes.len(),
            StageModel::PreflightPolicy => self.preflight_held() && self.slots.len() > 0
                && self.slots.last() is Prepared,
            StageModel::PreflightApproval => self.preflight_held() && self.slots.len() > 0
                && self.slots.last() is Prepared,
            StageModel::Bind(purpose, index) => self.binding_held(purpose, index),
            StageModel::BindPolicy(purpose, index, _) => self.binding_held(purpose, index),
            StageModel::BindApproval(purpose, index, _) => self.binding_held(purpose, index),
            StageModel::Results(position, failure) => position < self.executable.len()
                && self.results_held(position as int, failure),
            StageModel::NextWave => self.held(),
            StageModel::Done(_) => self.record.ledger.broker.consistent()
                && self.record.ledger.broker.settled(),
        }
    }
}

} // verus!
