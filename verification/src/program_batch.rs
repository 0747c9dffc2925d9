//! One batch of tool calls that a program asks for: admission, dispatch and what came back.

use crate::admission::{
    admission, approval_outcome, dispatched, execution_of, policy_outcome, AdmissionModel,
    AuthorizationModel, PreparedCall, PreparedModel, ToolBroker,
};
use crate::agent::RunRequest;
use crate::direct::execution_lost;
use crate::error::HarnessError;
use crate::json::{rendered_json, Json};
use crate::ledger::LedgerModel;
use crate::model::ModelCapabilities;
use crate::policy::PolicyDecision;
use crate::programmatic::{MAX_FANOUT_CONCURRENCY, ProgrammaticTranscript};
use crate::registry::{registered, RegisteredTool};
use crate::request::stop_check;
use crate::strategy_core::{execution_kept, execution_spoiled, CoreModel};
use crate::text::{decimal_digits, texts};
use crate::tool::{ToolCall, ToolCallContext, ToolCaller, ToolResult, ToolResultModel};
use vstd::prelude::*;

verus! {

/// One call that a program asks for.
pub struct BatchCall {
    /// Identifier of the tool.
    pub tool_id: String,
    /// The arguments.
    pub arguments: Json,
    /// Attempt of the program.
    pub program_attempt: u32,
    /// Place of the call in the program.
    pub call_site: u32,
    /// How often the place was reached before.
    pub dynamic_ordinal: u64,
}

/// What a batch is executed with.
pub struct BatchContext<'a> {
    /// The tools and the part of them that programs see.
    pub broker: ToolBroker<'a>,
    /// The request.
    pub request: &'a RunRequest,
    /// What the provider can do.
    pub capabilities: ModelCapabilities,
    /// Calls of one fan-out that the host allows.
    pub host_fanout: usize,
    /// Calls of one fan-out that the request allows.
    pub request_fanout: u32,
    /// When the program must end, in milliseconds.
    pub deadline: Option<u64>,
}

/// What a program gets for one call.
pub enum BatchResponse {
    /// The call failed.
    Failure,
    /// What the tool returned.
    Success(ToolResult),
}

/// The model of a response.
pub enum BatchResponseModel {
    /// The call failed.
    Failure,
    /// What the tool returned.
    Success(ToolResultModel),
}

impl View for BatchResponse {
    type V = BatchResponseModel;

    open spec fn view(&self) -> BatchResponseModel {
        match self {
            BatchResponse::Failure => BatchResponseModel::Failure,
            BatchResponse::Success(result) => BatchResponseModel::Success(result@),
        }
    }
}

/// The views of responses.
pub open spec fn responses_view(responses: Seq<Option<BatchResponse>>) -> Seq<
    Option<BatchResponseModel>,
> {
    responses.map_values(
        |response: Option<BatchResponse>|
            match response {
                Some(response) => Some(response@),
                None => None,
            },
    )
}

/// The views of prepared calls.
pub open spec fn prepared_view(prepared: Seq<(usize, PreparedCall)>) -> Seq<
    (usize, PreparedModel),
> {
    prepared.map_values(|entry: (usize, PreparedCall)| (entry.0, entry.1@))
}

/// Where a batch stands.
pub enum BatchStage {
    /// Before the next call is prepared.
    Prepare,
    /// The policy was asked about this call.
    AwaitPolicy(PreparedCall),
    /// Approval of this call was asked for.
    AwaitApproval(PreparedCall),
    /// The result of this one of the dispatched calls is next.
    Results(usize),
    /// The batch is over, with this error if it failed.
    Done(Option<HarnessError>),
}

/// The model of a stage.
pub enum BatchStageModel {
    /// Before the next call is prepared.
    Prepare,
    /// The policy was asked about this call.
    AwaitPolicy(PreparedModel),
    /// Approval of this call was asked for.
    AwaitApproval(PreparedModel),
    /// The result of this one of the dispatched calls is next.
    Results(usize),
    /// The batch is over, with this error if it failed.
    Done(Option<HarnessError<Seq<char>>>),
}

/// The view of an optional error.
pub open spec fn error_option(error: Option<HarnessError>) -> Option<HarnessError<Seq<char>>> {
    match error {
        Some(error) => Some(error@),
        None => None,
    }
}

impl View for BatchStage {
    type V = BatchStageModel;

    open spec fn view(&self) -> BatchStageModel {
        match self {
            BatchStage::Prepare => BatchStageModel::Prepare,
            BatchStage::AwaitPolicy(prepared) => BatchStageModel::AwaitPolicy(prepared@),
            BatchStage::AwaitApproval(prepared) => BatchStageModel::AwaitApproval(prepared@),
            BatchStage::Results(position) => BatchStageModel::Results(*position),
            BatchStage::Done(error) => BatchStageModel::Done(error_option(*error)),
        }
    }
}

/// What happened outside.
pub enum BatchEvent {
    /// The run was checked: whether it was cancelled, and the time.
    Checked(bool, u64),
    /// The policy answered.
    Decided(Result<PolicyDecision, HarnessError>),
    /// The request for approval was answered.
    Approved(Result<bool, HarnessError>),
    /// The next dispatched call returned or failed. The second part is the sandbox's error,
    /// where it cannot keep a successful result.
    Returned(Result<ToolResult, HarnessError>, Option<HarnessError>),
}

/// The model of an event.
pub enum BatchEventModel {
    /// The run was checked.
    Checked(bool, u64),
    /// The policy answered.
    Decided(Result<PolicyDecision<Seq<char>>, HarnessError<Seq<char>>>),
    /// The request for approval was answered.
    Approved(Result<bool, HarnessError<Seq<char>>>),
    /// The next dispatched call returned or failed.
    Returned(
        Result<ToolResultModel, HarnessError<Seq<char>>>,
        Option<HarnessError<Seq<char>>>,
    ),
}

impl View for BatchEvent {
    type V = BatchEventModel;

    open spec fn view(&self) -> BatchEventModel {
        match self {
            BatchEvent::Checked(cancelled, now) => BatchEventModel::Checked(*cancelled, *now),
            BatchEvent::Decided(Ok(decision)) => BatchEventModel::Decided(Ok(decision@)),
            BatchEvent::Decided(Err(error)) => BatchEventModel::Decided(Err(error@)),
            BatchEvent::Approved(Ok(granted)) => BatchEventModel::Approved(Ok(*granted)),
            BatchEvent::Approved(Err(error)) => BatchEventModel::Approved(Err(error@)),
            BatchEvent::Returned(Ok(result), fault) => BatchEventModel::Returned(
                Ok(result@),
                error_option(*fault),
            ),
            BatchEvent::Returned(Err(error), fault) => BatchEventModel::Returned(
                Err(error@),
                error_option(*fault),
            ),
        }
    }
}

/// What a batch asks for next.
#[derive(Clone, Copy, Debug, PartialEq, Eq, Structural)]
pub enum BatchAction {
    /// Check whether the run is stopped.
    Check,
    /// Ask the policy about the call at hand.
    AskPolicy,
    /// Ask for approval of the call at hand.
    AskApproval,
    /// Run the dispatched calls and hand back their results, in order.
    Execute,
    /// Hand back the next result.
    AwaitResult,
    /// The batch is over.
    Finish,
    /// The event does not fit the stage; nothing changed.
    Misplaced,
}

/// The model of a batch.
pub struct BatchModel {
    /// The shared part of the run.
    pub core: CoreModel,
    /// The account of what the model is shown.
    pub transcript: ProgrammaticTranscript,
    /// The calls.
    pub calls: Seq<BatchCall>,
    /// Whether the calls run beside each other.
    pub together: bool,
    /// Identity of the execution.
    pub nonce: Seq<char>,
    /// The calls that are prepared, with their places.
    pub prepared: Seq<(usize, PreparedModel)>,
    /// What the program gets for each call.
    pub responses: Seq<Option<BatchResponseModel>>,
    /// Whether each call succeeded, as far as it is known.
    pub outcomes: Seq<Option<bool>>,
    /// The place of the next call.
    pub next: usize,
    /// Whether a call was handed to its tool.
    pub dispatched: bool,
    /// The first error of a dispatched call.
    pub first_error: Option<HarnessError<Seq<char>>>,
    /// Where the batch stands.
    pub stage: BatchStageModel,
}

impl BatchModel {
    /// The batch with another ledger.
    pub open spec fn with_ledger(self, ledger: LedgerModel) -> BatchModel {
        BatchModel { core: self.core.with_ledger(ledger), ..self }
    }

    /// The batch at another stage.
    pub open spec fn at(self, stage: BatchStageModel) -> BatchModel {
        BatchModel { stage, ..self }
    }

    /// The batch, over.
    pub open spec fn over(self, error: Option<HarnessError<Seq<char>>>) -> (
        BatchModel,
        BatchAction,
    ) {
        (self.at(BatchStageModel::Done(error)), BatchAction::Finish)
    }

    /// The batch with one call answered.
    pub open spec fn answered(
        self,
        index: int,
        response: Option<BatchResponseModel>,
        ok: bool,
    ) -> BatchModel {
        BatchModel {
            responses: self.responses.update(index, response),
            outcomes: self.outcomes.update(index, Some(ok)),
            ..self
        }
    }

    /// What holds of a batch between two steps.
    pub open spec fn consistent(self) -> bool {
        let broker = self.core.record.ledger.broker;
        &&& broker.consistent()
        &&& self.responses.len() == self.calls.len()
        &&& self.outcomes.len() == self.calls.len()
        &&& forall|k: int|
            0 <= k < self.prepared.len() ==> (#[trigger] self.prepared[k]).0 < self.calls.len()
        &&& match self.stage {
            BatchStageModel::Prepare => broker.settled() && self.next < self.calls.len()
                && broker.classified() + self.prepared.len() <= broker.tool_calls,
            BatchStageModel::AwaitPolicy(_) => broker.settled() && self.next < self.calls.len()
                && broker.classified() + self.prepared.len() < broker.tool_calls,
            BatchStageModel::AwaitApproval(_) => broker.settled() && self.next < self.calls.len()
                && broker.classified() + self.prepared.len() < broker.tool_calls,
            BatchStageModel::Results(position) => position < self.prepared.len()
                && broker.resolved() + (self.prepared.len() - position) == broker.tool_issued,
            BatchStageModel::Done(_) => broker.settled(),
        }
    }
}

/// Why a fan-out cannot be admitted, from call `start` on.
pub open spec fn fan_out_fault(
    tools: Seq<RegisteredTool>,
    request: &RunRequest,
    calls: Seq<BatchCall>,
    start: nat,
) -> Option<HarnessError<Seq<char>>>
    decreases calls.len() - start,
{
    if start >= calls.len() {
        None
    } else {
        let id = calls[start as int].tool_id@;
        match registered(tools, id) {
            None => Some(
                HarnessError::InvalidTool(
                    "programmatic fan-out references an unavailable tool"@,
                ),
            ),
            Some(tool) => if !texts(request.agent.tool_allowlist@).contains(id)
                || !tool.definition.permits(ToolCaller::Programmatic) || !tool.definition.read_only
                || !tool.definition.parallel_safe {
                Some(
                    HarnessError::InvalidTool(
                        "programmatic fan-out requires allowed read-only, parallel-safe tools"@,
                    ),
                )
            } else {
                fan_out_fault(tools, request, calls, start + 1)
            },
        }
    }
}

/// The smaller of two sizes.
pub open spec fn least(left: usize, right: usize) -> usize {
    if left <= right {
        left
    } else {
        right
    }
}

/// Calls of one fan-out that may run at the same time, where the provider allows any.
pub open spec fn fan_out_limit(context: &BatchContext) -> Option<usize> {
    match context.capabilities.limits.max_parallel_tool_calls {
        Some(limit) => if context.capabilities.supports_parallel_tool_calls && limit > 0 {
            Some(
                least(
                    least(
                        least(context.host_fanout, context.request_fanout as usize),
                        limit as usize,
                    ),
                    MAX_FANOUT_CONCURRENCY,
                ),
            )
        } else {
            None
        },
        None => None,
    }
}

/// Why a batch cannot begin.
pub open spec fn batch_fault(
    context: &BatchContext,
    calls: Seq<BatchCall>,
    fan_out: bool,
    transcript: ProgrammaticTranscript,
) -> Option<HarnessError<Seq<char>>> {
    let fault = if fan_out {
        match fan_out_fault(context.broker.tools@, context.request, calls, 0) {
            Some(error) => Some(error),
            None => match fan_out_limit(context) {
                None => Some(
                    HarnessError::UnsupportedCapability(
                        "programmatic fan-out requires a nonzero provider parallel-call limit"@,
                    ),
                ),
                Some(limit) => if calls.len() > limit {
                    Some(
                        HarnessError::ResourceLimit(
                            "programmatic fan-out exceeds the effective concurrency limit"@,
                        ),
                    )
                } else {
                    None
                },
            },
        }
    } else {
        None
    };
    match fault {
        Some(error) => Some(error),
        None => match transcript.reservation(calls.len()) {
            Err(error) => Some(error),
            Ok(_) => None,
        },
    }
}

/// The calls that are recorded, in order, as far as they can be counted.
pub open spec fn outcomes_recorded(
    transcript: ProgrammaticTranscript,
    outcomes: Seq<Option<bool>>,
    count: nat,
) -> (ProgrammaticTranscript, Option<HarnessError<Seq<char>>>)
    decreases count,
{
    if count == 0 || count > outcomes.len() {
        (transcript, None)
    } else {
        let (before, fault) = outcomes_recorded(transcript, outcomes, (count - 1) as nat);
        if fault is Some {
            (before, fault)
        } else {
            match outcomes[count - 1] {
                None => (before, None),
                Some(ok) => match before.recorded(ok) {
                    Err(error) => (before, Some(error)),
                    Ok(next) => (next, None),
                },
            }
        }
    }
}

/// Whether every call has a response.
pub open spec fn all_answered(responses: Seq<Option<BatchResponseModel>>) -> bool {
    forall|i: int| 0 <= i < responses.len() ==> (#[trigger] responses[i]) is Some
}

/// The end of a batch.
#[verifier::opaque]
pub open spec fn batch_settled(run: BatchModel) -> (BatchModel, BatchAction) {
    let (transcript, fault) = outcomes_recorded(
        run.transcript,
        run.outcomes,
        run.outcomes.len(),
    );
    let counted = BatchModel { transcript, ..run };
    if fault is Some {
        counted.over(fault)
    } else if run.first_error is Some {
        counted.over(run.first_error)
    } else if !all_answered(run.responses) {
        counted.over(
            Some(HarnessError::Tool("programmatic batch response was incomplete"@)),
        )
    } else {
        counted.over(None)
    }
}

/// The ledger with the first `count` prepared calls handed to their tools.
pub open spec fn batch_started(
    ledger: LedgerModel,
    prepared: Seq<(usize, PreparedModel)>,
    count: nat,
) -> LedgerModel
    decreases count,
{
    if count == 0 || count > prepared.len() {
        ledger
    } else {
        let before = batch_started(ledger, prepared, (count - 1) as nat);
        before.with_broker(dispatched(before.broker, prepared[count - 1].1))
    }
}

/// The batch once every call of it is prepared or refused.
#[verifier::opaque]
pub open spec fn batch_dispatched(run: BatchModel) -> (BatchModel, BatchAction) {
    if run.prepared.len() == 0 {
        batch_settled(run)
    } else {
        (
            BatchModel {
                dispatched: true,
                ..run.with_ledger(
                    batch_started(run.core.record.ledger, run.prepared, run.prepared.len()),
                )
            }.at(BatchStageModel::Results(0)),
            BatchAction::Execute,
        )
    }
}

/// The batch once the call at hand is prepared or refused.
#[verifier::opaque]
pub open spec fn call_settled(run: BatchModel) -> (BatchModel, BatchAction) {
    let next = BatchModel { next: (run.next + 1) as usize, ..run };
    if run.next + 1 < run.calls.len() {
        (next.at(BatchStageModel::Prepare), BatchAction::Check)
    } else {
        batch_dispatched(next)
    }
}

/// The identifier of a call of a program.
pub open spec fn occurrence_id(call: BatchCall, nonce: Seq<char>) -> Seq<char> {
    "programmatic-"@ + decimal_digits(call.program_attempt as nat) + "-"@ + nonce + "-"@
        + decimal_digits(call.call_site as nat) + "-"@ + decimal_digits(
        call.dynamic_ordinal as nat,
    )
}

/// The proposal of a call of a program.
pub open spec fn occurrence_call(call: BatchCall, nonce: Seq<char>) -> ToolCall<Seq<char>> {
    ToolCall {
        id: occurrence_id(call, nonce),
        tool_id: call.tool_id@,
        arguments_json: rendered_json(call.arguments@),
    }
}

/// Where a call of a program comes from.
pub open spec fn occurrence_context(
    core: CoreModel,
    call: BatchCall,
    nonce: Seq<char>,
) -> ToolCallContext<Seq<char>> {
    ToolCallContext {
        run_id: core.record.ledger.result.id,
        trace_id: core.record.ledger.result.trace_id,
        call_id: occurrence_id(call, nonce),
        tool_id: call.tool_id@,
        caller: Some(ToolCaller::Programmatic),
        program_attempt: Some(call.program_attempt),
        static_call_site: Some(call.call_site),
        dynamic_ordinal: Some(call.dynamic_ordinal),
        effect_key: Some(occurrence_id(call, nonce)),
    }
}

/// What the admission of the call at hand comes to.
#[verifier::opaque]
pub open spec fn batch_admitted(
    run: BatchModel,
    outcome: Result<AdmissionModel, HarnessError<Seq<char>>>,
) -> (BatchModel, BatchAction) {
    let index = run.next as int;
    match outcome {
        Err(error) => run.over(Some(error)),
        Ok(AdmissionModel::Stop) => run.over(
            Some(
                HarnessError::ResourceLimit(
                    "programmatic batch exhausted the tool call budget before dispatch"@,
                ),
            ),
        ),
        Ok(AdmissionModel::Rejected(_)) => call_settled(
            run.answered(index, Some(BatchResponseModel::Failure), false),
        ),
        Ok(AdmissionModel::Reused(result)) => call_settled(
            run.answered(
                index,
                Some(
                    if result.ok {
                        BatchResponseModel::Success(result)
                    } else {
                        BatchResponseModel::Failure
                    },
                ),
                result.ok,
            ),
        ),
        Ok(AdmissionModel::Authorize(prepared)) => (
            run.at(BatchStageModel::AwaitPolicy(prepared)),
            BatchAction::AskPolicy,
        ),
        Ok(AdmissionModel::Deferred(prepared)) => (
            run.at(BatchStageModel::AwaitPolicy(prepared)),
            BatchAction::AskPolicy,
        ),
    }
}

/// The preparation of the next call.
#[verifier::opaque]
pub open spec fn batch_prepared(
    context: &BatchContext,
    run: BatchModel,
    cancelled: bool,
    now: u64,
) -> (BatchModel, BatchAction) {
    let call = run.calls[run.next as int];
    match stop_check(
        cancelled,
        now,
        context.deadline,
        "programmatic dispatch deadline reached"@,
    ) {
        Err(error) => run.over(Some(error)),
        Ok(_) => {
            let (ledger, outcome) = admission(
                run.core.record.ledger,
                context.broker.tools@,
                context.broker.scope,
                context.request,
                occurrence_call(call, run.nonce),
                ToolCaller::Programmatic,
                false,
                false,
                Some(occurrence_context(run.core, call, run.nonce)),
            );
            batch_admitted(run.with_ledger(ledger), outcome)
        },
    }
}

/// What an authorization leads to.
#[verifier::opaque]
pub open spec fn batch_authorized(
    run: BatchModel,
    prepared: PreparedModel,
    authorization: AuthorizationModel,
) -> (BatchModel, BatchAction) {
    match authorization {
        AuthorizationModel::Authorized => call_settled(
            BatchModel { prepared: run.prepared.push((run.next, prepared)), ..run },
        ),
        AuthorizationModel::AskApproval => (
            run.at(BatchStageModel::AwaitApproval(prepared)),
            BatchAction::AskApproval,
        ),
        AuthorizationModel::Rejected(_) => call_settled(
            run.answered(run.next as int, Some(BatchResponseModel::Failure), false),
        ),
    }
}

/// The batch with one dispatched call failed.
pub open spec fn call_failed(run: BatchModel, index: int, error: HarnessError<Seq<char>>) -> BatchModel {
    BatchModel {
        first_error: if run.first_error is Some {
            run.first_error
        } else {
            Some(error)
        },
        outcomes: run.outcomes.update(index, Some(false)),
        ..run
    }
}

/// What one dispatched call came to.
#[verifier::opaque]
pub open spec fn batch_returned(
    context: &BatchContext,
    run: BatchModel,
    position: usize,
    outcome: Result<ToolResultModel, HarnessError<Seq<char>>>,
    fault: Option<HarnessError<Seq<char>>>,
) -> BatchModel {
    let (index, prepared) = run.prepared[position as int];
    let ledger = run.core.record.ledger;
    let checked = match outcome {
        Ok(result) => execution_of(
            context.broker.tools@,
            context.request.agent.limits,
            prepared.call.tool_id,
            result,
        ),
        Err(error) => Err(error),
    };
    match checked {
        Err(error) => call_failed(
            run.with_ledger(execution_lost(ledger, prepared, error)),
            index as int,
            error,
        ),
        Ok(execution) => if !execution.succeeded() {
            call_failed(
                run.with_ledger(execution_spoiled(ledger, prepared, execution)),
                index as int,
                HarnessError::Tool("programmatic tool returned a failed or invalid result"@),
            )
        } else {
            match fault {
                Some(error) => call_failed(
                    run.with_ledger(execution_lost(ledger, prepared, error)),
                    index as int,
                    error,
                ),
                None => run.with_ledger(execution_kept(ledger, prepared, execution)).answered(
                    index as int,
                    Some(BatchResponseModel::Success(execution.result)),
                    true,
                ),
            }
        },
    }
}

/// The batch once one dispatched call came to something.
pub open spec fn result_taken(
    context: &BatchContext,
    run: BatchModel,
    position: usize,
    outcome: Result<ToolResultModel, HarnessError<Seq<char>>>,
    fault: Option<HarnessError<Seq<char>>>,
) -> (BatchModel, BatchAction) {
    let next = batch_returned(context, run, position, outcome, fault);
    if position + 1 < run.prepared.len() {
        (
            next.at(BatchStageModel::Results((position + 1) as usize)),
            BatchAction::AwaitResult,
        )
    } else {
        batch_settled(next)
    }
}

/// One step of a batch: the next state and what it asks for.
pub open spec fn batch_step(context: &BatchContext, run: BatchModel, event: BatchEventModel) -> (
    BatchModel,
    BatchAction,
) {
    match (run.stage, event) {
        (BatchStageModel::Prepare, BatchEventModel::Checked(cancelled, now)) => batch_prepared(
            context,
            run,
            cancelled,
            now,
        ),
        (BatchStageModel::AwaitPolicy(prepared), BatchEventModel::Decided(Ok(decision))) => {
            let (ledger, answer) = policy_outcome(
                run.core.record.ledger,
                prepared.call,
                decision,
                prepared.approval_barrier,
            );
            batch_authorized(
                run.at(BatchStageModel::Prepare).with_ledger(ledger),
                prepared,
                answer,
            )
        },
        (BatchStageModel::AwaitPolicy(_), BatchEventModel::Decided(Err(error))) => run.over(
            Some(error),
        ),
        (BatchStageModel::AwaitApproval(prepared), BatchEventModel::Approved(Ok(granted))) => {
            let (ledger, answer) = approval_outcome(
                run.core.record.ledger,
                prepared.call,
                granted,
            );
            batch_authorized(
                run.at(BatchStageModel::Prepare).with_ledger(ledger),
                prepared,
                answer,
            )
        },
        (BatchStageModel::AwaitApproval(_), BatchEventModel::Approved(Err(error))) => run.over(
            Some(error),
        ),
        (BatchStageModel::Results(position), BatchEventModel::Returned(outcome, fault)) =>
            result_taken(context, run, position, outcome, fault),
        _ => (run, BatchAction::Misplaced),
    }
}

/// A batch that just began.
pub open spec fn batch_begun(
    context: &BatchContext,
    core: CoreModel,
    transcript: ProgrammaticTranscript,
    calls: Seq<BatchCall>,
    fan_out: bool,
    nonce: Seq<char>,
) -> (BatchModel, BatchAction) {
    let fresh = BatchModel {
        core,
        transcript,
        calls,
        together: fan_out,
        nonce,
        prepared: Seq::empty(),
        responses: Seq::new(calls.len(), |i: int| None),
        outcomes: Seq::new(calls.len(), |i: int| None),
        next: 0,
        dispatched: false,
        first_error: None,
        stage: BatchStageModel::Prepare,
    };
    match batch_fault(context, calls, fan_out, transcript) {
        Some(error) => fresh.over(Some(error)),
        None => if calls.len() == 0 {
            batch_dispatched(fresh)
        } else {
            (fresh, BatchAction::Check)
        },
    }
}

/// The calls of a batch run beside each other only where the program asked for it, and where every
/// one of their tools changes nothing and may run beside others. All other batches run one call
/// after another.
pub proof fn fan_outs_are_harmless(
    context: &BatchContext,
    core: CoreModel,
    transcript: ProgrammaticTranscript,
    calls: Seq<BatchCall>,
    fan_out: bool,
    nonce: Seq<char>,
)
    ensures
        ({
            let (begun, action) = batch_begun(context, core, transcript, calls, fan_out, nonce);
            &&& action == BatchAction::Check ==> begun.together == fan_out
            &&& action == BatchAction::Check && fan_out ==> forall|i: int|
                #![trigger calls[i]]
                0 <= i < calls.len() ==> (registered(
                    context.broker.tools@,
                    calls[i].tool_id@,
                ) matches Some(tool) && tool.definition.read_only && tool.definition.parallel_safe)
        }),
{
    if fan_out && fan_out_fault(context.broker.tools@, context.request, calls, 0) is None {
        admitted_calls_are_harmless(context.broker.tools@, context.request, calls, 0);
    }
    reveal(batch_dispatched);
    reveal(batch_settled);
}

proof fn admitted_calls_are_harmless(
    tools: Seq<RegisteredTool>,
    request: &RunRequest,
    calls: Seq<BatchCall>,
    start: nat,
)
    requires
        fan_out_fault(tools, request, calls, start) is None,
    ensures
        forall|i: int|
            #![trigger calls[i]]
            start <= i < calls.len() ==> (registered(tools, calls[i].tool_id@) matches Some(tool)
                && tool.definition.read_only && tool.definition.parallel_safe),
    decreases calls.len() - start,
{
    if start < calls.len() {
        admitted_calls_are_harmless(tools, request, calls, start + 1);
    }
}

/// No step of a batch changes whether its calls run beside each other.
pub proof fn batches_keep_their_order(
    context: &BatchContext,
    run: BatchModel,
    event: BatchEventModel,
)
    ensures
        batch_step(context, run, event).0.together == run.together,
{
    reveal(batch_settled);
    reveal(batch_dispatched);
    reveal(call_settled);
    reveal(batch_admitted);
    reveal(batch_prepared);
    reveal(batch_authorized);
    reveal(batch_returned);
}

} // verus!
