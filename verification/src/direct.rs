//! Direct execution: the model calls tools, one after the other, until it answers.

use crate::admission::{
    admission, admission_counts, apply_approval, apply_policy, approval_outcome, dispatched,
    execution_of, execution_recorded, made_uncertain, mark_dispatched, mark_uncertain,
    policy_outcome, record_execution, transcript_call, Admission, AdmissionModel, Authorization,
    AuthorizationModel, BrokerExecution, ExecutionModel, PreparedCall, PreparedModel, ToolBroker,
};
use crate::agent::RunRequest;
use crate::broker::call_resolved;
use crate::error::{HarnessError, RunError};
use crate::event::RunEvent;
use crate::ledger::{LedgerModel, RunLedger};
use crate::limits::AgentLimits;
use crate::message::{
    ensure_transcript, messages_view, plain_message, push_tool_message, tool_calls_message,
    tool_message, transcript_check, Message, MessageModel, MessageRole,
};
use crate::model::{response_check, validate_model_response, ModelResponse, ResponseModel};
use crate::policy::PolicyDecision;
use crate::registry::{RegisteredTool, ToolScope};
use crate::request::{
    call_deadline, check_stopped, output_check, provider_deadline, schema_option, stop_check,
    validate_output,
};
use crate::speculative_call::{
    preparation_failed, publish_speculative, published, settle_failed_preparation,
};
use crate::text::{blank, is_blank};
use crate::tool::{calls_view, ToolCall, ToolCaller, ToolResult, ToolResultModel};
use vstd::prelude::*;

verus! {

/// Where a direct run stands.
pub enum DirectPhase {
    /// Before a turn: is the run stopped?
    TurnCheck,
    /// Before a provider call: is the run stopped?
    AttemptCheck,
    /// The provider was called.
    AwaitModel,
    /// Before the next proposal: is the run stopped?
    CallCheck,
    /// The policy was asked about this call.
    AwaitPolicy(PreparedCall),
    /// Approval of this call was asked for.
    AwaitApproval(PreparedCall),
    /// This call is authorized.
    AwaitDispatch(PreparedCall),
    /// This call was handed to its tool.
    AwaitExecution(PreparedCall),
    /// The run is over.
    Done,
}

/// The model of a phase.
pub enum PhaseModel {
    /// Before a turn.
    TurnCheck,
    /// Before a provider call.
    AttemptCheck,
    /// The provider was called.
    AwaitModel,
    /// Before the next proposal.
    CallCheck,
    /// The policy was asked about this call.
    AwaitPolicy(PreparedModel),
    /// Approval of this call was asked for.
    AwaitApproval(PreparedModel),
    /// This call is authorized.
    AwaitDispatch(PreparedModel),
    /// This call was handed to its tool.
    AwaitExecution(PreparedModel),
    /// The run is over.
    Done,
}

impl View for DirectPhase {
    type V = PhaseModel;

    open spec fn view(&self) -> PhaseModel {
        match self {
            DirectPhase::TurnCheck => PhaseModel::TurnCheck,
            DirectPhase::AttemptCheck => PhaseModel::AttemptCheck,
            DirectPhase::AwaitModel => PhaseModel::AwaitModel,
            DirectPhase::CallCheck => PhaseModel::CallCheck,
            DirectPhase::AwaitPolicy(prepared) => PhaseModel::AwaitPolicy(prepared@),
            DirectPhase::AwaitApproval(prepared) => PhaseModel::AwaitApproval(prepared@),
            DirectPhase::AwaitDispatch(prepared) => PhaseModel::AwaitDispatch(prepared@),
            DirectPhase::AwaitExecution(prepared) => PhaseModel::AwaitExecution(prepared@),
            DirectPhase::Done => PhaseModel::Done,
        }
    }
}

/// What happened outside.
pub enum DirectEvent {
    /// The run was checked: whether it was cancelled, and the time.
    Checked(bool, u64),
    /// The provider call ended.
    Responded(Result<ModelResponse, HarnessError>),
    /// The policy answered.
    Decided(Result<PolicyDecision, HarnessError>),
    /// The request for approval was answered.
    Approved(Result<bool, HarnessError>),
    /// The authorized call is handed to its tool.
    Dispatched,
    /// A result that was computed early is committed for the authorized call.
    Committed(ToolResult),
    /// The authorized call, or the first proposal of a turn, is given up with the run.
    Abandoned(HarnessError),
    /// The tool returned, or failed.
    Returned(Result<ToolResult, HarnessError>),
}

/// The model of an event.
pub enum DirectEventModel {
    /// The run was checked.
    Checked(bool, u64),
    /// The provider call ended.
    Responded(Result<ResponseModel, HarnessError<Seq<char>>>),
    /// The policy answered.
    Decided(Result<PolicyDecision<Seq<char>>, HarnessError<Seq<char>>>),
    /// The request for approval was answered.
    Approved(Result<bool, HarnessError<Seq<char>>>),
    /// The authorized call is handed to its tool.
    Dispatched,
    /// A result that was computed early is committed.
    Committed(ToolResultModel),
    /// The authorized call, or the first proposal of a turn, is given up with the run.
    Abandoned(HarnessError<Seq<char>>),
    /// The tool returned, or failed.
    Returned(Result<ToolResultModel, HarnessError<Seq<char>>>),
}

impl View for DirectEvent {
    type V = DirectEventModel;

    open spec fn view(&self) -> DirectEventModel {
        match self {
            DirectEvent::Checked(cancelled, now) => DirectEventModel::Checked(*cancelled, *now),
            DirectEvent::Responded(Ok(response)) => DirectEventModel::Responded(Ok(response@)),
            DirectEvent::Responded(Err(error)) => DirectEventModel::Responded(Err(error@)),
            DirectEvent::Decided(Ok(decision)) => DirectEventModel::Decided(Ok(decision@)),
            DirectEvent::Decided(Err(error)) => DirectEventModel::Decided(Err(error@)),
            DirectEvent::Approved(Ok(granted)) => DirectEventModel::Approved(Ok(*granted)),
            DirectEvent::Approved(Err(error)) => DirectEventModel::Approved(Err(error@)),
            DirectEvent::Dispatched => DirectEventModel::Dispatched,
            DirectEvent::Committed(result) => DirectEventModel::Committed(result@),
            DirectEvent::Abandoned(error) => DirectEventModel::Abandoned(error@),
            DirectEvent::Returned(Ok(result)) => DirectEventModel::Returned(Ok(result@)),
            DirectEvent::Returned(Err(error)) => DirectEventModel::Returned(Err(error@)),
        }
    }
}

/// What a direct run asks for next.
#[derive(Clone, Copy, Debug, PartialEq, Eq, Structural)]
pub enum DirectAction {
    /// Check whether the run is stopped.
    Check,
    /// Call the provider with the conversation, until the deadline.
    CallModel {
        /// One-based number of the call.
        number: u32,
        /// When the call must end, in milliseconds.
        deadline: Option<u64>,
    },
    /// Ask the policy about the call at hand.
    AskPolicy,
    /// Ask for approval of the call at hand.
    AskApproval,
    /// Hand the call at hand to its tool, or commit a result that was computed early.
    Dispatch,
    /// Await the tool of the call at hand.
    Execute,
    /// Finish the run.
    Finish,
    /// The event does not fit the phase; nothing changed.
    Misplaced,
}

/// The model of a direct run.
pub struct DirectModel {
    /// What the run recorded.
    pub ledger: LedgerModel,
    /// The conversation.
    pub messages: Seq<MessageModel>,
    /// Provider calls so far.
    pub model_calls: u32,
    /// Retries of this turn so far.
    pub provider_retries: u32,
    /// Repairs so far.
    pub output_repairs: u32,
    /// Calls of the last response that are still to be handled.
    pub waiting: Seq<ToolCall<Seq<char>>>,
    /// Whether none of them was handled yet.
    pub opening: bool,
    /// Where the run stands.
    pub phase: PhaseModel,
}

impl DirectModel {
    /// The run, over.
    pub open spec fn over(self) -> (DirectModel, DirectAction) {
        (DirectModel { phase: PhaseModel::Done, ..self }, DirectAction::Finish)
    }

    /// The run, ended by an error.
    pub open spec fn ended_by(self, error: HarnessError<Seq<char>>) -> (DirectModel, DirectAction) {
        DirectModel { ledger: self.ledger.ended_by(error), ..self }.over()
    }

    /// The run, with another error recorded, over.
    pub open spec fn over_with(self, error: RunError<Seq<char>>) -> (DirectModel, DirectAction) {
        DirectModel { ledger: self.ledger.with_error(error), ..self }.over()
    }

    /// The run at another phase that begins with a check.
    pub open spec fn check(self, phase: PhaseModel) -> (DirectModel, DirectAction) {
        (DirectModel { phase, ..self }, DirectAction::Check)
    }

    /// The run before its next proposal, or its next turn where none is left.
    pub open spec fn next_call(self) -> (DirectModel, DirectAction) {
        if self.waiting.len() == 0 {
            self.check(PhaseModel::TurnCheck)
        } else {
            self.check(PhaseModel::CallCheck)
        }
    }

    /// The run after a tool message was handed to the model.
    pub open spec fn answered(
        self,
        call: ToolCall<Seq<char>>,
        result: ToolResultModel,
        limits: AgentLimits,
    ) -> (DirectModel, DirectAction) {
        let messages = self.messages.push(tool_message(call.id, result.json_text()));
        let next = DirectModel { messages, ..self };
        match transcript_check(messages, limits) {
            Err(error) => next.ended_by(error),
            Ok(_) => next.next_call(),
        }
    }
}

/// A provider call, or the limit that forbids it.
pub open spec fn attempt(
    run: DirectModel,
    request: &RunRequest,
    run_deadline: Option<u64>,
    cancelled: bool,
    now_ms: u64,
) -> (DirectModel, DirectAction) {
    let limits = request.agent.limits;
    if run.model_calls >= limits.max_model_calls {
        DirectModel {
            ledger: run.ledger.with_result(run.ledger.result.at_model_call_limit()),
            ..run
        }.over()
    } else {
        match stop_check(cancelled, now_ms, run_deadline, "run deadline reached"@) {
            Err(error) => run.ended_by(error),
            Ok(_) => {
                let number = (run.model_calls + 1) as u32;
                let called = DirectModel {
                    model_calls: number,
                    ledger: run.ledger.emit(
                        RunEvent::ModelRequested {
                            call_number: number,
                            model: run.ledger.result.model,
                        },
                    ),
                    ..run
                };
                match call_deadline(now_ms, run_deadline, limits.max_model_call_duration_ms) {
                    Err(error) => called.ended_by(error),
                    Ok(deadline) => (
                        DirectModel { phase: PhaseModel::AwaitModel, ..called },
                        DirectAction::CallModel { number, deadline },
                    ),
                }
            },
        }
    }
}

/// What the run asks the model for once its output failed validation.
pub open spec fn repair_prompt() -> Seq<char> {
    "Return only JSON that satisfies the requested output schema."@
}

/// What a final output means.
pub open spec fn final_output(
    run: DirectModel,
    request: &RunRequest,
    output: Seq<char>,
) -> (DirectModel, DirectAction) {
    let limits = request.agent.limits;
    if blank(output) {
        run.over_with(
            RunError {
                code: "empty_model_response"@,
                message: "model returned an empty final output"@,
            },
        )
    } else {
        match output_check(
            schema_option(request.agent.output_schema),
            output,
            limits.max_json_depth,
        ) {
            Ok(_) => DirectModel {
                ledger: run.ledger.with_result(run.ledger.result.completed(output)),
                ..run
            }.over(),
            Err(error) => if error is ResourceLimit {
                run.ended_by(error)
            } else if run.output_repairs >= limits.max_output_repairs {
                run.over_with(error.recorded())
            } else {
                let messages = run.messages.push(
                    plain_message(MessageRole::Assistant, output),
                ).push(plain_message(MessageRole::System, repair_prompt()));
                let next = DirectModel {
                    output_repairs: (run.output_repairs + 1) as u32,
                    messages,
                    ..run
                };
                match transcript_check(messages, limits) {
                    Err(error) => next.ended_by(error),
                    Ok(_) => next.check(PhaseModel::TurnCheck),
                }
            },
        }
    }
}

/// Calls as a transcript shows them.
pub open spec fn transcript_calls(
    tools: Seq<RegisteredTool>,
    scope: &ToolScope,
    request: &RunRequest,
    calls: Seq<ToolCall<Seq<char>>>,
) -> Seq<ToolCall<Seq<char>>> {
    calls.map_values(
        |call: ToolCall<Seq<char>>|
            transcript_call(tools, scope, request, call, ToolCaller::Direct),
    )
}

/// What a model response means.
pub open spec fn responded(
    run: DirectModel,
    tools: Seq<RegisteredTool>,
    scope: &ToolScope,
    request: &RunRequest,
    response: ResponseModel,
) -> (DirectModel, DirectAction) {
    match response_check(response, request.agent.limits) {
        Err(error) => run.ended_by(error),
        Ok(_) => match response.final_output {
            Some(output) => final_output(run, request, output),
            None => if response.tool_calls.len() == 0 {
                run.over_with(
                    RunError {
                        code: "empty_model_response"@,
                        message: "model returned neither final output nor tool calls"@,
                    },
                )
            } else {
                let messages = run.messages.push(
                    tool_calls_message(
                        transcript_calls(tools, scope, request, response.tool_calls),
                    ),
                );
                let next = DirectModel {
                    messages,
                    waiting: response.tool_calls,
                    opening: true,
                    ..run
                };
                match transcript_check(messages, request.agent.limits) {
                    Err(error) => next.ended_by(error),
                    Ok(_) => next.check(PhaseModel::CallCheck),
                }
            },
        },
    }
}

/// What the end of a provider call means.
pub open spec fn completion(
    run: DirectModel,
    tools: Seq<RegisteredTool>,
    scope: &ToolScope,
    request: &RunRequest,
    outcome: Result<ResponseModel, HarnessError<Seq<char>>>,
) -> (DirectModel, DirectAction) {
    match outcome {
        Ok(response) => responded(
            DirectModel {
                ledger: run.ledger.emit(
                    RunEvent::ModelResponded { call_number: run.model_calls },
                ),
                ..run
            },
            tools,
            scope,
            request,
            response,
        ),
        Err(error) => if error is RetryableProvider && run.provider_retries
            < request.agent.limits.max_provider_retries {
            DirectModel {
                provider_retries: (run.provider_retries + 1) as u32,
                ledger: run.ledger.emit(
                    RunEvent::ModelRetrying {
                        next_call_number: if run.model_calls == u32::MAX {
                            u32::MAX
                        } else {
                            (run.model_calls + 1) as u32
                        },
                        reason: "retryable provider failure"@,
                    },
                ),
                ..run
            }.check(PhaseModel::AttemptCheck)
        } else {
            run.ended_by(error)
        },
    }
}

/// What the next proposal leads to.
pub open spec fn proposal(
    run: DirectModel,
    tools: Seq<RegisteredTool>,
    scope: &ToolScope,
    request: &RunRequest,
) -> (DirectModel, DirectAction) {
    let call = run.waiting[0];
    let rest = DirectModel { waiting: run.waiting.drop_first(), opening: false, ..run };
    let before = run.ledger.broker;
    let (ledger, outcome) = admission(
        run.ledger,
        tools,
        scope,
        request,
        call,
        ToolCaller::Direct,
        false,
        false,
        None,
    );
    let admitted = DirectModel { ledger, ..rest };
    match outcome {
        Err(error) => DirectModel {
            ledger: preparation_failed(ledger, before.tool_calls, before.classified(), error),
            ..rest
        }.ended_by(error),
        Ok(AdmissionModel::Stop) => admitted.over(),
        Ok(AdmissionModel::Rejected(result)) => admitted.answered(
            call,
            result,
            request.agent.limits,
        ),
        Ok(AdmissionModel::Reused(result)) => admitted.answered(
            call,
            result,
            request.agent.limits,
        ),
        Ok(AdmissionModel::Authorize(prepared)) => (
            DirectModel { phase: PhaseModel::AwaitPolicy(prepared), ..admitted },
            DirectAction::AskPolicy,
        ),
        Ok(AdmissionModel::Deferred(prepared)) => (
            DirectModel { phase: PhaseModel::AwaitPolicy(prepared), ..admitted },
            DirectAction::AskPolicy,
        ),
    }
}

/// What an authorization leads to.
pub open spec fn authorized(
    run: DirectModel,
    request: &RunRequest,
    prepared: PreparedModel,
    outcome: (LedgerModel, AuthorizationModel),
) -> (DirectModel, DirectAction) {
    let next = DirectModel { ledger: outcome.0, ..run };
    match outcome.1 {
        AuthorizationModel::Authorized => (
            DirectModel { phase: PhaseModel::AwaitDispatch(prepared), ..next },
            DirectAction::Dispatch,
        ),
        AuthorizationModel::AskApproval => (
            DirectModel { phase: PhaseModel::AwaitApproval(prepared), ..next },
            DirectAction::AskApproval,
        ),
        AuthorizationModel::Rejected(result) => next.answered(
            prepared.call,
            result,
            request.agent.limits,
        ),
    }
}

/// A run whose authorization failed with an error.
pub open spec fn unauthorized(run: DirectModel, error: HarnessError<Seq<char>>) -> (
    DirectModel,
    DirectAction,
) {
    DirectModel {
        ledger: run.ledger.with_broker(run.ledger.broker.ended_before_dispatch(error)),
        ..run
    }.ended_by(error)
}

/// The ledger after the outcome of an execution was recorded.
pub open spec fn execution_noted(
    ledger: LedgerModel,
    prepared: PreparedModel,
    execution: ExecutionModel,
) -> LedgerModel {
    let reported = ledger.tool_completed(prepared.call, execution.result.ok);
    let recorded = reported.with_broker(
        execution_recorded(reported.broker, prepared, execution),
    );
    match execution.validation_error {
        Some(error) => recorded.with_error(error),
        None => if execution.result.ok {
            recorded
        } else {
            recorded.with_error(
                RunError { code: "tool_error"@, message: "tool returned a failure result"@ },
            )
        },
    }
}

/// The ledger after an execution ended without a result.
pub open spec fn execution_lost(
    ledger: LedgerModel,
    prepared: PreparedModel,
    error: HarnessError<Seq<char>>,
) -> LedgerModel {
    let counted = ledger.broker.ended_in_execution(error);
    ledger.with_broker(made_uncertain(counted, prepared)).tool_completed(prepared.call, false)
}

/// What the end of an execution means.
pub open spec fn executed(
    run: DirectModel,
    tools: Seq<RegisteredTool>,
    request: &RunRequest,
    prepared: PreparedModel,
    outcome: Result<ToolResultModel, HarnessError<Seq<char>>>,
) -> (DirectModel, DirectAction) {
    let checked = match outcome {
        Ok(result) => execution_of(tools, request.agent.limits, prepared.call.tool_id, result),
        Err(error) => Err(error),
    };
    match checked {
        Err(error) => DirectModel {
            ledger: execution_lost(run.ledger, prepared, error),
            ..run
        }.ended_by(error),
        Ok(execution) => DirectModel {
            ledger: execution_noted(run.ledger, prepared, execution),
            ..run
        }.answered(prepared.call, execution.result, request.agent.limits),
    }
}

/// One step of a direct run: the next state and what it asks for.
pub open spec fn direct_step(
    run: DirectModel,
    tools: Seq<RegisteredTool>,
    scope: &ToolScope,
    request: &RunRequest,
    run_deadline: Option<u64>,
    event: DirectEventModel,
) -> (DirectModel, DirectAction) {
    match (run.phase, event) {
        (PhaseModel::TurnCheck, DirectEventModel::Checked(cancelled, now)) => match stop_check(
            cancelled,
            now,
            run_deadline,
            "run deadline reached"@,
        ) {
            Err(error) => run.ended_by(error),
            Ok(_) => DirectModel { provider_retries: 0, ..run }.check(PhaseModel::AttemptCheck),
        },
        (PhaseModel::AttemptCheck, DirectEventModel::Checked(cancelled, now)) => attempt(
            run,
            request,
            run_deadline,
            cancelled,
            now,
        ),
        (PhaseModel::AwaitModel, DirectEventModel::Responded(outcome)) => completion(
            run,
            tools,
            scope,
            request,
            outcome,
        ),
        (PhaseModel::CallCheck, DirectEventModel::Checked(cancelled, now)) => match stop_check(
            cancelled,
            now,
            run_deadline,
            "run deadline reached before tool validation"@,
        ) {
            Err(error) => run.ended_by(error),
            Ok(_) => proposal(run, tools, scope, request),
        },
        (PhaseModel::AwaitPolicy(prepared), DirectEventModel::Decided(Ok(decision))) => authorized(
            run,
            request,
            prepared,
            policy_outcome(run.ledger, prepared.call, decision, prepared.approval_barrier),
        ),
        (PhaseModel::AwaitPolicy(_), DirectEventModel::Decided(Err(error))) => unauthorized(
            run,
            error,
        ),
        (PhaseModel::AwaitApproval(prepared), DirectEventModel::Approved(Ok(granted))) => authorized(
            run,
            request,
            prepared,
            approval_outcome(run.ledger, prepared.call, granted),
        ),
        (PhaseModel::AwaitApproval(_), DirectEventModel::Approved(Err(error))) => unauthorized(
            run,
            error,
        ),
        (PhaseModel::AwaitDispatch(prepared), DirectEventModel::Dispatched) => (
            DirectModel {
                ledger: run.ledger.with_broker(dispatched(run.ledger.broker, prepared)),
                phase: PhaseModel::AwaitExecution(prepared),
                ..run
            },
            DirectAction::Execute,
        ),
        (PhaseModel::AwaitDispatch(prepared), DirectEventModel::Committed(result)) => DirectModel {
            ledger: published(run.ledger, prepared, result),
            ..run
        }.answered(prepared.call, result, request.agent.limits),
        (PhaseModel::AwaitDispatch(_), DirectEventModel::Abandoned(error)) => run.ended_by(error),
        (PhaseModel::CallCheck, DirectEventModel::Abandoned(error)) => if run.opening {
            run.ended_by(error)
        } else {
            (run, DirectAction::Misplaced)
        },
        (PhaseModel::AwaitExecution(prepared), DirectEventModel::Returned(outcome)) => executed(
            run,
            tools,
            request,
            prepared,
            outcome,
        ),
        _ => (run, DirectAction::Misplaced),
    }
}

/// One run in direct execution.
pub struct DirectRun {
    ledger: RunLedger,
    messages: Vec<Message>,
    model_calls: u32,
    provider_retries: u32,
    output_repairs: u32,
    waiting: Vec<ToolCall>,
    opening: bool,
    phase: DirectPhase,
}

impl View for DirectRun {
    type V = DirectModel;

    closed spec fn view(&self) -> DirectModel {
        DirectModel {
            ledger: self.ledger@,
            messages: messages_view(self.messages@),
            model_calls: self.model_calls,
            provider_retries: self.provider_retries,
            output_repairs: self.output_repairs,
            waiting: calls_view(self.waiting@),
            opening: self.opening,
            phase: self.phase@,
        }
    }
}

impl DirectModel {
    /// What holds of a run between two steps: its counters are consistent, a call at hand is
    /// counted as admitted and not yet decided, a call handed to its tool as issued and not
    /// yet resolved, a proposal waits where one is to be handled next, and the first proposal
    /// of a turn is open only until it is handled.
    pub open spec fn consistent(self) -> bool {
        let broker = self.ledger.broker;
        &&& broker.consistent()
        &&& self.opening ==> self.phase is CallCheck || self.phase is Done
        &&& match self.phase {
            PhaseModel::CallCheck => broker.settled() && self.waiting.len() > 0,
            PhaseModel::AwaitPolicy(_) => broker.settled() && broker.classified()
                < broker.tool_calls,
            PhaseModel::AwaitApproval(_) => broker.settled() && broker.classified()
                < broker.tool_calls,
            PhaseModel::AwaitDispatch(_) => broker.settled() && broker.classified()
                < broker.tool_calls,
            PhaseModel::AwaitExecution(_) => broker.resolved() + 1 == broker.tool_issued,
            _ => broker.settled(),
        }
    }
}

impl DirectRun {
    /// A run before its first turn, that continues what a ledger holds.
    pub fn new(ledger: RunLedger, messages: Vec<Message>, model_calls: u32) -> (result: DirectRun)
        requires
            ledger@.broker.consistent(),
            ledger@.broker.settled(),
        ensures
            result@ == (DirectModel {
                ledger: ledger@,
                messages: messages_view(messages@),
                model_calls,
                provider_retries: 0,
                output_repairs: 0,
                waiting: Seq::empty(),
                opening: false,
                phase: PhaseModel::TurnCheck,
            }),
            result@.consistent(),
    {
        let result = DirectRun {
            ledger,
            messages,
            model_calls,
            provider_retries: 0,
            output_repairs: 0,
            waiting: Vec::new(),
            opening: false,
            phase: DirectPhase::TurnCheck,
        };
        assert(result@.waiting =~= Seq::empty());
        result
    }

    /// The conversation so far.
    pub fn messages(&self) -> (result: &Vec<Message>)
        ensures
            messages_view(result@) == self@.messages,
    {
        &self.messages
    }

    /// Provider calls so far.
    pub fn model_calls(&self) -> (result: u32)
        ensures
            result == self@.model_calls,
    {
        self.model_calls
    }

    /// What the run recorded.
    pub fn ledger(&self) -> (result: &RunLedger)
        ensures
            result@ == self@.ledger,
    {
        &self.ledger
    }

    /// What the run recorded, for good.
    pub fn into_ledger(self) -> (result: RunLedger)
        ensures
            result@ == self@.ledger,
    {
        self.ledger
    }

    /// Hands over the recorded events and forgets them.
    pub fn take_events(&mut self) -> (result: Vec<RunEvent>)
        ensures
            crate::event::events_view(result@) == old(self)@.ledger.events,
            final(self)@ == (DirectModel {
                ledger: LedgerModel { events: Seq::empty(), ..old(self)@.ledger },
                ..old(self)@
            }),
    {
        self.ledger.take_events()
    }

    /// The call at hand.
    pub fn prepared(&self) -> (result: Option<&PreparedCall>)
        ensures
            match result {
                Some(prepared) => self@.phase == PhaseModel::AwaitPolicy(prepared@)
                    || self@.phase == PhaseModel::AwaitApproval(prepared@) || self@.phase
                    == PhaseModel::AwaitDispatch(prepared@) || self@.phase
                    == PhaseModel::AwaitExecution(prepared@),
                None => !(self@.phase is AwaitPolicy || self@.phase is AwaitApproval
                    || self@.phase is AwaitDispatch || self@.phase is AwaitExecution),
            },
    {
        match &self.phase {
            DirectPhase::AwaitPolicy(prepared) => Some(prepared),
            DirectPhase::AwaitApproval(prepared) => Some(prepared),
            DirectPhase::AwaitDispatch(prepared) => Some(prepared),
            DirectPhase::AwaitExecution(prepared) => Some(prepared),
            _ => None,
        }
    }

    /// The first proposal of a turn, where it is the next to be handled: the one for which a
    /// result that was computed early may be committed.
    pub fn opening_call(&self) -> (result: Option<&ToolCall>)
        requires
            self@.consistent(),
        ensures
            match result {
                Some(call) => self@.phase is CallCheck && self@.opening && call@
                    == self@.waiting[0],
                None => !(self@.phase is CallCheck && self@.opening),
            },
    {
        match &self.phase {
            DirectPhase::CallCheck => if self.opening {
                assert(self@.waiting[0] == self.waiting@[0]@);
                Some(&self.waiting[0])
            } else {
                None
            },
            _ => None,
        }
    }

    fn over(&mut self) -> (action: DirectAction)
        ensures
            (final(self)@, action) == old(self)@.over(),
    {
        self.phase = DirectPhase::Done;
        DirectAction::Finish
    }

    fn end(&mut self, error: &HarnessError) -> (action: DirectAction)
        ensures
            (final(self)@, action) == old(self)@.ended_by(error@),
    {
        self.ledger.apply_terminal_error(error);
        self.over()
    }

    fn over_with(&mut self, error: RunError) -> (action: DirectAction)
        ensures
            (final(self)@, action) == old(self)@.over_with(error@),
    {
        self.ledger.push_error(error);
        self.over()
    }

    fn check(&mut self, phase: DirectPhase) -> (action: DirectAction)
        ensures
            (final(self)@, action) == old(self)@.check(phase@),
    {
        self.phase = phase;
        DirectAction::Check
    }

    fn push_message(&mut self, message: Message)
        ensures
            final(self)@ == (DirectModel {
                messages: old(self)@.messages.push(message@),
                ..old(self)@
            }),
    {
        let ghost before = self@.messages;
        self.messages.push(message);
        assert(self@.messages =~= before.push(message@));
    }

    fn answer(&mut self, call: &ToolCall, result: &ToolResult, limits: &AgentLimits) -> (action:
        DirectAction)
        ensures
            (final(self)@, action) == old(self)@.answered(call@, result@, *limits),
            !old(self)@.opening && old(self)@.ledger.broker.consistent()
                && old(self)@.ledger.broker.settled() ==> final(self)@.consistent(),
    {
        match push_tool_message(&mut self.messages, call, result, limits) {
            Err(error) => self.end(&error),
            Ok(_) => if self.waiting.len() == 0 {
                self.check(DirectPhase::TurnCheck)
            } else {
                self.check(DirectPhase::CallCheck)
            },
        }
    }

    fn attempt(
        &mut self,
        request: &RunRequest,
        run_deadline: Option<u64>,
        cancelled: bool,
        now_ms: u64,
    ) -> (action: DirectAction)
        ensures
            (final(self)@, action) == attempt(
                old(self)@,
                request,
                run_deadline,
                cancelled,
                now_ms,
            ),
            !old(self)@.opening && old(self)@.ledger.broker.consistent()
                && old(self)@.ledger.broker.settled() ==> final(self)@.consistent(),
    {
        let limits = &request.agent.limits;
        if self.model_calls >= limits.max_model_calls {
            self.ledger.result.stop_at_model_call_limit();
            return self.over();
        }
        if let Err(error) = check_stopped(
            cancelled,
            now_ms,
            run_deadline,
            "run deadline reached",
        ) {
            return self.end(&error);
        }
        self.model_calls += 1;
        let model = self.ledger.result.model.clone();
        self.ledger.emit(RunEvent::ModelRequested { call_number: self.model_calls, model });
        match provider_deadline(now_ms, run_deadline, limits.max_model_call_duration_ms) {
            Err(error) => self.end(&error),
            Ok(deadline) => {
                self.phase = DirectPhase::AwaitModel;
                DirectAction::CallModel { number: self.model_calls, deadline }
            },
        }
    }

    fn handle_output(&mut self, request: &RunRequest, output: &str) -> (action: DirectAction)
        ensures
            (final(self)@, action) == final_output(old(self)@, request, output@),
            !old(self)@.opening && old(self)@.ledger.broker.consistent()
                && old(self)@.ledger.broker.settled() ==> final(self)@.consistent(),
    {
        let limits = &request.agent.limits;
        if is_blank(output) {
            return self.over_with(
                RunError::new("empty_model_response", "model returned an empty final output"),
            );
        }
        match validate_output(&request.agent.output_schema, output, limits.max_json_depth) {
            Ok(_) => {
                self.ledger.result.complete(output);
                self.over()
            },
            Err(error) => {
                if matches!(error, HarnessError::ResourceLimit(_)) {
                    return self.end(&error);
                }
                if self.output_repairs >= limits.max_output_repairs {
                    return self.over_with(error.run_error());
                }
                self.output_repairs += 1;
                self.push_message(Message::assistant(output));
                self.push_message(
                    Message::system("Return only JSON that satisfies the requested output schema."),
                );
                match ensure_transcript(&self.messages, limits) {
                    Err(error) => self.end(&error),
                    Ok(_) => self.check(DirectPhase::TurnCheck),
                }
            },
        }
    }

    fn handle_response(
        &mut self,
        broker: &ToolBroker,
        request: &RunRequest,
        response: ModelResponse,
    ) -> (action: DirectAction)
        ensures
            (final(self)@, action) == responded(
                old(self)@,
                broker.tools@,
                broker.scope,
                request,
                response@,
            ),
            !old(self)@.opening && old(self)@.ledger.broker.consistent()
                && old(self)@.ledger.broker.settled() ==> final(self)@.consistent(),
    {
        if let Err(error) = validate_model_response(&response, &request.agent.limits) {
            return self.end(&error);
        }
        if let Some(output) = &response.final_output {
            return self.handle_output(request, output.as_str());
        }
        if response.tool_calls.len() == 0 {
            return self.over_with(
                RunError::new(
                    "empty_model_response",
                    "model returned neither final output nor tool calls",
                ),
            );
        }
        let recorded = broker.tool_calls_for_transcript(request, &response.tool_calls);
        self.push_message(Message::assistant_tool_calls(recorded));
        self.waiting = response.tool_calls;
        self.opening = true;
        match ensure_transcript(&self.messages, &request.agent.limits) {
            Err(error) => self.end(&error),
            Ok(_) => self.check(DirectPhase::CallCheck),
        }
    }

    fn handle_completion(
        &mut self,
        broker: &ToolBroker,
        request: &RunRequest,
        outcome: Result<ModelResponse, HarnessError>,
    ) -> (action: DirectAction)
        ensures
            (final(self)@, action) == completion(
                old(self)@,
                broker.tools@,
                broker.scope,
                request,
                match outcome {
                    Ok(response) => Ok(response@),
                    Err(error) => Err(error@),
                },
            ),
            !old(self)@.opening && old(self)@.ledger.broker.consistent()
                && old(self)@.ledger.broker.settled() ==> final(self)@.consistent(),
    {
        match outcome {
            Ok(response) => {
                self.ledger.emit(RunEvent::ModelResponded { call_number: self.model_calls });
                self.handle_response(broker, request, response)
            },
            Err(error) => {
                if matches!(error, HarnessError::RetryableProvider(_)) && self.provider_retries
                    < request.agent.limits.max_provider_retries {
                    self.provider_retries += 1;
                    self.ledger.emit(
                        RunEvent::ModelRetrying {
                            next_call_number: self.model_calls.saturating_add(1),
                            reason: "retryable provider failure".to_owned(),
                        },
                    );
                    return self.check(DirectPhase::AttemptCheck);
                }
                self.end(&error)
            },
        }
    }

    fn handle_proposal(&mut self, broker: &ToolBroker, request: &RunRequest) -> (action:
        DirectAction)
        requires
            old(self)@.consistent(),
            old(self)@.ledger.broker.settled(),
            old(self)@.waiting.len() > 0,
        ensures
            (final(self)@, action) == proposal(old(self)@, broker.tools@, broker.scope, request),
            final(self)@.consistent(),
    {
        proof {
            admission_counts(
                self@.ledger,
                broker.tools@,
                broker.scope,
                request,
                self@.waiting[0],
                ToolCaller::Direct,
                false,
                false,
                None,
            );
        }
        let ghost waiting = self@.waiting;
        let call = self.waiting.remove(0);
        self.opening = false;
        assert(waiting[0] == call@);
        assert(self@.waiting =~= waiting.drop_first());
        let attempts_before = self.ledger.broker.tool_calls;
        let classified_before = self.ledger.broker.classified_tool_calls();
        let outcome = broker.prepare(
            request,
            &mut self.ledger,
            call.duplicate(),
            ToolCaller::Direct,
            false,
            false,
            None,
        );
        match outcome {
            Err(error) => {
                settle_failed_preparation(
                    &mut self.ledger,
                    attempts_before,
                    classified_before,
                    &error,
                );
                self.end(&error)
            },
            Ok(Admission::Stop) => self.over(),
            Ok(Admission::Rejected(result)) => self.answer(&call, &result, &request.agent.limits),
            Ok(Admission::Reused(result)) => self.answer(&call, &result, &request.agent.limits),
            Ok(Admission::Authorize(prepared)) => {
                self.phase = DirectPhase::AwaitPolicy(prepared);
                DirectAction::AskPolicy
            },
            Ok(Admission::Deferred(prepared)) => {
                self.phase = DirectPhase::AwaitPolicy(prepared);
                DirectAction::AskPolicy
            },
        }
    }

    fn handle_authorization(
        &mut self,
        request: &RunRequest,
        prepared: PreparedCall,
        authorization: Authorization,
    ) -> (action: DirectAction)
        requires
            !old(self)@.opening,
            old(self)@.ledger.broker.consistent(),
            old(self)@.ledger.broker.settled(),
            !(authorization is Rejected) ==> old(self)@.ledger.broker.classified()
                < old(self)@.ledger.broker.tool_calls,
        ensures
            (final(self)@, action) == authorized(
                old(self)@,
                request,
                prepared@,
                (old(self)@.ledger, authorization@),
            ),
            final(self)@.consistent(),
    {
        match authorization {
            Authorization::Authorized => {
                self.phase = DirectPhase::AwaitDispatch(prepared);
                DirectAction::Dispatch
            },
            Authorization::AskApproval => {
                self.phase = DirectPhase::AwaitApproval(prepared);
                DirectAction::AskApproval
            },
            Authorization::Rejected(result) => self.answer(
                &prepared.call,
                &result,
                &request.agent.limits,
            ),
        }
    }

    fn handle_unauthorized(&mut self, error: &HarnessError) -> (action: DirectAction)
        requires
            old(self)@.ledger.broker.consistent(),
            old(self)@.ledger.broker.settled(),
            old(self)@.ledger.broker.classified() < old(self)@.ledger.broker.tool_calls,
        ensures
            (final(self)@, action) == unauthorized(old(self)@, error@),
            final(self)@.consistent(),
    {
        self.ledger.broker.record_pre_dispatch_error(error);
        self.end(error)
    }

    fn handle_execution(
        &mut self,
        broker: &ToolBroker,
        request: &RunRequest,
        prepared: PreparedCall,
        outcome: Result<ToolResult, HarnessError>,
    ) -> (action: DirectAction)
        requires
            !old(self)@.opening,
            old(self)@.ledger.broker.consistent(),
            old(self)@.ledger.broker.resolved() + 1 == old(self)@.ledger.broker.tool_issued,
        ensures
            (final(self)@, action) == executed(
                old(self)@,
                broker.tools@,
                request,
                prepared@,
                match outcome {
                    Ok(result) => Ok(result@),
                    Err(error) => Err(error@),
                },
            ),
            final(self)@.consistent(),
    {
        let checked = match outcome {
            Ok(result) => broker.check_execution(request, prepared.call.tool_id.as_str(), result),
            Err(error) => Err(error),
        };
        match checked {
            Err(error) => {
                note_lost_execution(&mut self.ledger, &prepared, &error);
                self.end(&error)
            },
            Ok(execution) => {
                note_execution(&mut self.ledger, &prepared, &execution);
                self.answer(&prepared.call, &execution.result, &request.agent.limits)
            },
        }
    }

    fn take_phase(&mut self) -> (phase: DirectPhase)
        ensures
            phase@ == old(self)@.phase,
            final(self)@ == (DirectModel { phase: PhaseModel::Done, ..old(self)@ }),
    {
        let mut phase = DirectPhase::Done;
        std::mem::swap(&mut phase, &mut self.phase);
        phase
    }

    fn misplaced(&mut self, phase: DirectPhase) -> (action: DirectAction)
        ensures
            final(self)@ == (DirectModel { phase: phase@, ..old(self)@ }),
            action == DirectAction::Misplaced,
    {
        self.phase = phase;
        DirectAction::Misplaced
    }

    #[verifier::rlimit(40)]
    fn on_checked(
        &mut self,
        broker: &ToolBroker,
        request: &RunRequest,
        run_deadline: Option<u64>,
        cancelled: bool,
        now_ms: u64,
    ) -> (action: DirectAction)
        requires
            old(self)@.consistent(),
        ensures
            (final(self)@, action) == direct_step(
                old(self)@,
                broker.tools@,
                broker.scope,
                request,
                run_deadline,
                DirectEvent::Checked(cancelled, now_ms)@,
            ),
            final(self)@.consistent(),
    {
        match self.take_phase() {
            DirectPhase::TurnCheck => match check_stopped(
                cancelled,
                now_ms,
                run_deadline,
                "run deadline reached",
            ) {
                Err(error) => self.end(&error),
                Ok(_) => {
                    self.provider_retries = 0;
                    self.check(DirectPhase::AttemptCheck)
                },
            },
            DirectPhase::AttemptCheck => {
                self.phase = DirectPhase::AttemptCheck;
                self.attempt(request, run_deadline, cancelled, now_ms)
            },
            DirectPhase::CallCheck => match check_stopped(
                cancelled,
                now_ms,
                run_deadline,
                "run deadline reached before tool validation",
            ) {
                Err(error) => self.end(&error),
                Ok(_) => {
                    self.phase = DirectPhase::CallCheck;
                    self.handle_proposal(broker, request)
                },
            },
            phase => self.misplaced(phase),
        }
    }

    fn on_responded(
        &mut self,
        broker: &ToolBroker,
        request: &RunRequest,
        run_deadline: Option<u64>,
        outcome: Result<ModelResponse, HarnessError>,
    ) -> (action: DirectAction)
        requires
            old(self)@.consistent(),
        ensures
            (final(self)@, action) == direct_step(
                old(self)@,
                broker.tools@,
                broker.scope,
                request,
                run_deadline,
                DirectEvent::Responded(outcome)@,
            ),
            final(self)@.consistent(),
    {
        match self.take_phase() {
            DirectPhase::AwaitModel => {
                self.phase = DirectPhase::AwaitModel;
                self.handle_completion(broker, request, outcome)
            },
            phase => self.misplaced(phase),
        }
    }

    fn on_decided(
        &mut self,
        broker: &ToolBroker,
        request: &RunRequest,
        run_deadline: Option<u64>,
        outcome: Result<PolicyDecision, HarnessError>,
    ) -> (action: DirectAction)
        requires
            old(self)@.consistent(),
        ensures
            (final(self)@, action) == direct_step(
                old(self)@,
                broker.tools@,
                broker.scope,
                request,
                run_deadline,
                DirectEvent::Decided(outcome)@,
            ),
            final(self)@.consistent(),
    {
        match self.take_phase() {
            DirectPhase::AwaitPolicy(prepared) => match outcome {
                Ok(decision) => {
                    let authorization = apply_policy(
                        &mut self.ledger,
                        &prepared.call,
                        &decision,
                        prepared.approval_barrier,
                    );
                    self.handle_authorization(request, prepared, authorization)
                },
                Err(error) => self.handle_unauthorized(&error),
            },
            phase => self.misplaced(phase),
        }
    }

    fn on_approved(
        &mut self,
        broker: &ToolBroker,
        request: &RunRequest,
        run_deadline: Option<u64>,
        outcome: Result<bool, HarnessError>,
    ) -> (action: DirectAction)
        requires
            old(self)@.consistent(),
        ensures
            (final(self)@, action) == direct_step(
                old(self)@,
                broker.tools@,
                broker.scope,
                request,
                run_deadline,
                DirectEvent::Approved(outcome)@,
            ),
            final(self)@.consistent(),
    {
        match self.take_phase() {
            DirectPhase::AwaitApproval(prepared) => match outcome {
                Ok(granted) => {
                    let authorization = apply_approval(&mut self.ledger, &prepared.call, granted);
                    self.handle_authorization(request, prepared, authorization)
                },
                Err(error) => self.handle_unauthorized(&error),
            },
            phase => self.misplaced(phase),
        }
    }

    fn on_dispatched(
        &mut self,
        broker: &ToolBroker,
        request: &RunRequest,
        run_deadline: Option<u64>,
    ) -> (action: DirectAction)
        requires
            old(self)@.consistent(),
        ensures
            (final(self)@, action) == direct_step(
                old(self)@,
                broker.tools@,
                broker.scope,
                request,
                run_deadline,
                DirectEvent::Dispatched@,
            ),
            final(self)@.consistent(),
    {
        match self.take_phase() {
            DirectPhase::AwaitDispatch(prepared) => {
                mark_dispatched(&mut self.ledger, &prepared);
                self.phase = DirectPhase::AwaitExecution(prepared);
                DirectAction::Execute
            },
            phase => self.misplaced(phase),
        }
    }

    fn on_committed(
        &mut self,
        broker: &ToolBroker,
        request: &RunRequest,
        run_deadline: Option<u64>,
        result: ToolResult,
    ) -> (action: DirectAction)
        requires
            old(self)@.consistent(),
        ensures
            (final(self)@, action) == direct_step(
                old(self)@,
                broker.tools@,
                broker.scope,
                request,
                run_deadline,
                DirectEvent::Committed(result)@,
            ),
            final(self)@.consistent(),
    {
        match self.take_phase() {
            DirectPhase::AwaitDispatch(prepared) => {
                let _ = publish_speculative(&mut self.ledger, &prepared, &result);
                self.answer(&prepared.call, &result, &request.agent.limits)
            },
            phase => self.misplaced(phase),
        }
    }

    fn on_abandoned(
        &mut self,
        broker: &ToolBroker,
        request: &RunRequest,
        run_deadline: Option<u64>,
        error: HarnessError,
    ) -> (action: DirectAction)
        requires
            old(self)@.consistent(),
        ensures
            (final(self)@, action) == direct_step(
                old(self)@,
                broker.tools@,
                broker.scope,
                request,
                run_deadline,
                DirectEvent::Abandoned(error)@,
            ),
            final(self)@.consistent(),
    {
        match self.take_phase() {
            DirectPhase::AwaitDispatch(_) => self.end(&error),
            DirectPhase::CallCheck => if self.opening {
                self.end(&error)
            } else {
                self.misplaced(DirectPhase::CallCheck)
            },
            phase => self.misplaced(phase),
        }
    }

    fn on_returned(
        &mut self,
        broker: &ToolBroker,
        request: &RunRequest,
        run_deadline: Option<u64>,
        outcome: Result<ToolResult, HarnessError>,
    ) -> (action: DirectAction)
        requires
            old(self)@.consistent(),
        ensures
            (final(self)@, action) == direct_step(
                old(self)@,
                broker.tools@,
                broker.scope,
                request,
                run_deadline,
                DirectEvent::Returned(outcome)@,
            ),
            final(self)@.consistent(),
    {
        match self.take_phase() {
            DirectPhase::AwaitExecution(prepared) => self.handle_execution(
                broker,
                request,
                prepared,
                outcome,
            ),
            phase => self.misplaced(phase),
        }
    }

    /// Takes one step.
    pub fn step(
        &mut self,
        broker: &ToolBroker,
        request: &RunRequest,
        run_deadline: Option<u64>,
        event: DirectEvent,
    ) -> (action: DirectAction)
        requires
            old(self)@.consistent(),
        ensures
            (final(self)@, action) == direct_step(
                old(self)@,
                broker.tools@,
                broker.scope,
                request,
                run_deadline,
                event@,
            ),
            final(self)@.consistent(),
    {
        match event {
            DirectEvent::Checked(cancelled, now_ms) => self.on_checked(
                broker,
                request,
                run_deadline,
                cancelled,
                now_ms,
            ),
            DirectEvent::Responded(outcome) => self.on_responded(
                broker,
                request,
                run_deadline,
                outcome,
            ),
            DirectEvent::Decided(outcome) => self.on_decided(
                broker,
                request,
                run_deadline,
                outcome,
            ),
            DirectEvent::Approved(outcome) => self.on_approved(
                broker,
                request,
                run_deadline,
                outcome,
            ),
            DirectEvent::Dispatched => self.on_dispatched(broker, request, run_deadline),
            DirectEvent::Committed(result) => self.on_committed(
                broker,
                request,
                run_deadline,
                result,
            ),
            DirectEvent::Abandoned(error) => self.on_abandoned(
                broker,
                request,
                run_deadline,
                error,
            ),
            DirectEvent::Returned(outcome) => self.on_returned(
                broker,
                request,
                run_deadline,
                outcome,
            ),
        }
    }
}

/// Records what an execution returned.
pub fn note_execution(ledger: &mut RunLedger, prepared: &PreparedCall, execution: &BrokerExecution)
    requires
        old(ledger)@.broker.consistent(),
        old(ledger)@.broker.resolved() < old(ledger)@.broker.tool_issued,
    ensures
        final(ledger)@ == execution_noted(old(ledger)@, prepared@, execution@),
        final(ledger)@.broker.consistent(),
        call_resolved(old(ledger)@.broker, final(ledger)@.broker),
{
    ledger.report_completion(&prepared.call, execution.result.ok);
    record_execution(ledger, prepared, execution);
    match &execution.validation_error {
        Some(error) => ledger.push_error(
            RunError::new(error.code.as_str(), error.message.as_str()),
        ),
        None => {
            if !execution.result.ok {
                ledger.push_error(RunError::new("tool_error", "tool returned a failure result"));
            }
        },
    }
}

/// Records that an execution ended without a result.
pub fn note_lost_execution(ledger: &mut RunLedger, prepared: &PreparedCall, error: &HarnessError)
    requires
        old(ledger)@.broker.consistent(),
        old(ledger)@.broker.resolved() < old(ledger)@.broker.tool_issued,
    ensures
        final(ledger)@ == execution_lost(old(ledger)@, prepared@, error@),
        final(ledger)@.broker.consistent(),
        call_resolved(old(ledger)@.broker, final(ledger)@.broker),
{
    ledger.broker.record_execution_error(error);
    mark_uncertain(ledger, prepared);
    ledger.report_completion(&prepared.call, false);
}

impl<'a> ToolBroker<'a> {
    /// Calls as a transcript shows them.
    pub fn tool_calls_for_transcript(&self, request: &RunRequest, calls: &Vec<ToolCall>) -> (result:
        Vec<ToolCall>)
        ensures
            calls_view(result@) == transcript_calls(
                self.tools@,
                self.scope,
                request,
                calls_view(calls@),
            ),
    {
        let mut result: Vec<ToolCall> = Vec::new();
        let mut i: usize = 0;
        while i < calls.len()
            invariant
                i <= calls@.len(),
                result@.len() == i,
                forall|j: int|
                    0 <= j < i ==> (#[trigger] result@[j])@ == transcript_call(
                        self.tools@,
                        self.scope,
                        request,
                        calls@[j]@,
                        ToolCaller::Direct,
                    ),
            decreases calls@.len() - i,
        {
            result.push(self.call_for_transcript(request, &calls[i], ToolCaller::Direct));
            i += 1;
        }
        assert(calls_view(result@) =~= transcript_calls(
            self.tools@,
            self.scope,
            request,
            calls_view(calls@),
        ));
        result
    }
}

/// Whether a stop of the run is what an event tells of a call that is being prepared.
pub open spec fn interruption(event: DirectEventModel, run_deadline: Option<u64>) -> bool {
    match event {
        DirectEventModel::Checked(cancelled, now) => stop_check(
            cancelled,
            now,
            run_deadline,
            "run deadline reached before tool validation"@,
        ) is Err,
        DirectEventModel::Decided(Err(error)) => error is Cancelled || error is TimedOut,
        DirectEventModel::Approved(Err(error)) => error is Cancelled || error is TimedOut,
        _ => false,
    }
}

impl DirectEvent {
    /// Whether a stop of the run is what this tells of a call that is being prepared.
    pub fn interrupts(&self, run_deadline: Option<u64>) -> (result: bool)
        ensures
            result == interruption(self@, run_deadline),
    {
        match self {
            DirectEvent::Checked(cancelled, now_ms) => check_stopped(
                *cancelled,
                *now_ms,
                run_deadline,
                "run deadline reached before tool validation",
            ).is_err(),
            DirectEvent::Decided(Err(error)) => matches!(
                error,
                HarnessError::Cancelled | HarnessError::TimedOut(_)
            ),
            DirectEvent::Approved(Err(error)) => matches!(
                error,
                HarnessError::Cancelled | HarnessError::TimedOut(_)
            ),
            _ => false,
        }
    }
}

/// A result that was computed early can be committed for the first proposal of a turn alone: a
/// run stands before an opening call only right after the response that proposed it.
pub proof fn only_first_calls_open(
    run: DirectModel,
    tools: Seq<RegisteredTool>,
    scope: &ToolScope,
    request: &RunRequest,
    run_deadline: Option<u64>,
    event: DirectEventModel,
)
    requires
        run.consistent(),
    ensures
        ({
            let (next, _) = direct_step(run, tools, scope, request, run_deadline, event);
            next.phase is CallCheck && next.opening ==> next == run || match (run.phase, event) {
                (PhaseModel::AwaitModel, DirectEventModel::Responded(Ok(response))) => {
                    next.waiting == response.tool_calls
                },
                _ => false,
            }
        }),
{
}

} // verus!
