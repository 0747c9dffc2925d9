//! Direct execution as a part of planned execution: the model calls tools, one after the other,
//! until it answers.

use crate::admission::{
    admission, admission_counts, approval_outcome, dispatched, execution_of, policy_outcome,
    Admission, AdmissionModel, Authorization, AuthorizationModel, PreparedCall, PreparedModel,
    ToolBroker,
};
use crate::agent::RunRequest;
use crate::direct::{execution_lost, repair_prompt, transcript_calls};
use crate::error::{HarnessError, RunError};
use crate::event::RunEvent;
use crate::ledger::LedgerModel;
use crate::message::{
    messages_view, plain_message, tool_calls_message, tool_message, transcript_check, Message,
    MessageRole,
};
use crate::model::{ModelResponse, ResponseModel};
use crate::policy::PolicyDecision;
use crate::request::{check_stopped, output_check, schema_option, stop_check, validate_output};
use crate::speculative_call::preparation_failed;
use crate::strategy_core::{
    outcome_recorded, outcome_view, CallEnd, CallEndModel, CallStart, CoreModel, ModelCallPhase,
    StrategyCore,
};
use crate::text::{blank, is_blank};
use crate::tool::{calls_view, ToolCall, ToolCaller, ToolResult, ToolResultModel};
use vstd::prelude::*;

verus! {

/// What the turns of direct execution are taken with.
pub struct TurnContext<'a> {
    /// The tools and the part of them that direct execution sees.
    pub broker: ToolBroker<'a>,
    /// The request.
    pub request: &'a RunRequest,
    /// When the run must end, in milliseconds.
    pub deadline: Option<u64>,
}

/// Where direct execution stands.
pub enum ReactiveStage {
    /// The provider was called.
    AwaitModel,
    /// Before the next proposal.
    CallCheck,
    /// The policy was asked about this call.
    AwaitPolicy(PreparedCall),
    /// Approval of this call was asked for.
    AwaitApproval(PreparedCall),
    /// This call was handed to its tool.
    AwaitExecution(PreparedCall),
    /// The run is over.
    Done,
}

/// The model of a stage.
pub enum ReactiveStageModel {
    /// The provider was called.
    AwaitModel,
    /// Before the next proposal.
    CallCheck,
    /// The policy was asked about this call.
    AwaitPolicy(PreparedModel),
    /// Approval of this call was asked for.
    AwaitApproval(PreparedModel),
    /// This call was handed to its tool.
    AwaitExecution(PreparedModel),
    /// The run is over.
    Done,
}

impl View for ReactiveStage {
    type V = ReactiveStageModel;

    open spec fn view(&self) -> ReactiveStageModel {
        match self {
            ReactiveStage::AwaitModel => ReactiveStageModel::AwaitModel,
            ReactiveStage::CallCheck => ReactiveStageModel::CallCheck,
            ReactiveStage::AwaitPolicy(prepared) => ReactiveStageModel::AwaitPolicy(prepared@),
            ReactiveStage::AwaitApproval(prepared) => ReactiveStageModel::AwaitApproval(prepared@),
            ReactiveStage::AwaitExecution(prepared) => ReactiveStageModel::AwaitExecution(
                prepared@,
            ),
            ReactiveStage::Done => ReactiveStageModel::Done,
        }
    }
}

/// What happened outside, and the time.
pub enum ReactiveEvent {
    /// The provider call ended.
    Responded(Result<ModelResponse, HarnessError>, u64),
    /// The run was checked: whether it was cancelled.
    Checked(bool, u64),
    /// The policy answered.
    Decided(Result<PolicyDecision, HarnessError>, u64),
    /// The request for approval was answered.
    Approved(Result<bool, HarnessError>, u64),
    /// The tool returned, or failed.
    Returned(Result<ToolResult, HarnessError>, u64),
}

/// The model of an event.
pub enum ReactiveEventModel {
    /// The provider call ended.
    Responded(Result<ResponseModel, HarnessError<Seq<char>>>, u64),
    /// The run was checked.
    Checked(bool, u64),
    /// The policy answered.
    Decided(Result<PolicyDecision<Seq<char>>, HarnessError<Seq<char>>>, u64),
    /// The request for approval was answered.
    Approved(Result<bool, HarnessError<Seq<char>>>, u64),
    /// The tool returned, or failed.
    Returned(Result<ToolResultModel, HarnessError<Seq<char>>>, u64),
}

impl View for ReactiveEvent {
    type V = ReactiveEventModel;

    open spec fn view(&self) -> ReactiveEventModel {
        match self {
            ReactiveEvent::Responded(outcome, now) => ReactiveEventModel::Responded(
                outcome_view(*outcome),
                *now,
            ),
            ReactiveEvent::Checked(cancelled, now) => ReactiveEventModel::Checked(*cancelled, *now),
            ReactiveEvent::Decided(Ok(decision), now) => ReactiveEventModel::Decided(
                Ok(decision@),
                *now,
            ),
            ReactiveEvent::Decided(Err(error), now) => ReactiveEventModel::Decided(
                Err(error@),
                *now,
            ),
            ReactiveEvent::Approved(Ok(granted), now) => ReactiveEventModel::Approved(
                Ok(*granted),
                *now,
            ),
            ReactiveEvent::Approved(Err(error), now) => ReactiveEventModel::Approved(
                Err(error@),
                *now,
            ),
            ReactiveEvent::Returned(Ok(result), now) => ReactiveEventModel::Returned(
                Ok(result@),
                *now,
            ),
            ReactiveEvent::Returned(Err(error), now) => ReactiveEventModel::Returned(
                Err(error@),
                *now,
            ),
        }
    }
}

/// What direct execution asks for next.
#[derive(Clone, Copy, Debug, PartialEq, Eq, Structural)]
pub enum ReactiveAction {
    /// Call the provider with the conversation, until the deadline.
    CallModel {
        /// One-based number of the call.
        number: u32,
        /// When the call must end, in milliseconds.
        deadline: Option<u64>,
    },
    /// Check whether the run is stopped.
    Check,
    /// Ask the policy about the call at hand.
    AskPolicy,
    /// Ask for approval of the call at hand.
    AskApproval,
    /// Await the tool of the call at hand.
    Execute,
    /// Finish the run.
    Finish,
    /// The event does not fit the stage; nothing changed.
    Misplaced,
}

/// The model of direct execution.
pub struct ReactiveModel {
    /// The shared part of the run.
    pub core: CoreModel,
    /// What the next provider call is made for.
    pub purpose: ModelCallPhase,
    /// Retries of this turn so far.
    pub retries: u32,
    /// Calls of the last response that are still to be handled.
    pub waiting: Seq<ToolCall<Seq<char>>>,
    /// Where direct execution stands.
    pub stage: ReactiveStageModel,
}

impl ReactiveModel {
    /// Direct execution with another shared part.
    pub open spec fn with_core(self, core: CoreModel) -> ReactiveModel {
        ReactiveModel { core, ..self }
    }

    /// Direct execution with another ledger.
    pub open spec fn with_ledger(self, ledger: LedgerModel) -> ReactiveModel {
        self.with_core(self.core.with_ledger(ledger))
    }

    /// Direct execution at another stage.
    pub open spec fn at(self, stage: ReactiveStageModel) -> ReactiveModel {
        ReactiveModel { stage, ..self }
    }

    /// Direct execution, over.
    pub open spec fn over(self) -> (ReactiveModel, ReactiveAction) {
        (self.at(ReactiveStageModel::Done), ReactiveAction::Finish)
    }

    /// Direct execution, ended by an error.
    pub open spec fn terminated(self, error: HarnessError<Seq<char>>) -> (
        ReactiveModel,
        ReactiveAction,
    ) {
        self.with_core(self.core.terminated(error)).over()
    }

    /// Direct execution, over with one more error.
    pub open spec fn over_with(self, error: RunError<Seq<char>>) -> (
        ReactiveModel,
        ReactiveAction,
    ) {
        self.with_core(self.core.with_error(error)).over()
    }

    /// What holds of direct execution between two steps.
    pub open spec fn consistent(self) -> bool {
        let broker = self.core.record.ledger.broker;
        &&& self.core.calls.balanced()
        &&& broker.consistent()
        &&& match self.stage {
            ReactiveStageModel::CallCheck => broker.settled() && self.waiting.len() > 0,
            ReactiveStageModel::AwaitPolicy(_) => broker.settled() && broker.classified()
                < broker.tool_calls,
            ReactiveStageModel::AwaitApproval(_) => broker.settled() && broker.classified()
                < broker.tool_calls,
            ReactiveStageModel::AwaitExecution(_) => broker.resolved() + 1 == broker.tool_issued,
            _ => broker.settled(),
        }
    }
}

/// A provider call that begins, or does not.
#[verifier::opaque]
pub open spec fn model_called(context: &TurnContext, run: ReactiveModel, now: u64) -> (
    ReactiveModel,
    ReactiveAction,
) {
    let (core, start) = run.core.call_started(
        context.request.agent.limits,
        context.deadline,
        now,
        run.purpose,
    );
    let next = run.with_core(core);
    match start {
        CallStart::LimitReached => next.over(),
        CallStart::Failed(error) => next.terminated(error),
        CallStart::Call { number, deadline } => (
            next.at(ReactiveStageModel::AwaitModel),
            ReactiveAction::CallModel { number, deadline },
        ),
    }
}

/// A turn that begins.
#[verifier::opaque]
pub open spec fn turn_begun(context: &TurnContext, run: ReactiveModel, now: u64) -> (
    ReactiveModel,
    ReactiveAction,
) {
    if run.core.record.terminal {
        run.over()
    } else {
        model_called(context, ReactiveModel { retries: 0, ..run }, now)
    }
}

/// What a final output means.
#[verifier::opaque]
pub open spec fn output_handled(
    context: &TurnContext,
    run: ReactiveModel,
    output: Seq<char>,
    now: u64,
) -> (ReactiveModel, ReactiveAction) {
    let limits = context.request.agent.limits;
    if blank(output) {
        run.over_with(
            RunError {
                code: "empty_model_response"@,
                message: "model returned an empty final output"@,
            },
        )
    } else {
        match output_check(
            schema_option(context.request.agent.output_schema),
            output,
            limits.max_json_depth,
        ) {
            Ok(_) => run.with_ledger(
                run.core.record.ledger.with_result(
                    run.core.record.ledger.result.completed(output),
                ),
            ).over(),
            Err(error) => if error is ResourceLimit {
                run.terminated(error)
            } else if run.core.output_repairs >= limits.max_output_repairs {
                run.over_with(error.recorded())
            } else {
                let messages = run.core.messages.push(
                    plain_message(MessageRole::Assistant, output),
                ).push(plain_message(MessageRole::System, repair_prompt()));
                let next = run.with_core(
                    CoreModel {
                        output_repairs: (run.core.output_repairs + 1) as u32,
                        messages,
                        ..run.core
                    },
                );
                match transcript_check(messages, limits) {
                    Err(error) => next.terminated(error),
                    Ok(_) => turn_begun(context, next, now),
                }
            },
        }
    }
}

/// What a valid response means.
#[verifier::opaque]
pub open spec fn response_handled(
    context: &TurnContext,
    run: ReactiveModel,
    response: ResponseModel,
    now: u64,
) -> (ReactiveModel, ReactiveAction) {
    let turned = ReactiveModel { purpose: ModelCallPhase::Reactive, ..run };
    match response.final_output {
        Some(output) => output_handled(context, turned, output, now),
        None => if response.tool_calls.len() == 0 {
            turned.over_with(
                RunError {
                    code: "empty_model_response"@,
                    message: "model returned neither final output nor tool calls"@,
                },
            )
        } else {
            let messages = run.core.messages.push(
                tool_calls_message(
                    transcript_calls(
                        context.broker.tools@,
                        context.broker.scope,
                        context.request,
                        response.tool_calls,
                    ),
                ),
            );
            let next = ReactiveModel {
                core: CoreModel { messages, ..run.core },
                waiting: response.tool_calls,
                ..turned
            };
            match transcript_check(messages, context.request.agent.limits) {
                Err(error) => next.terminated(error),
                Ok(_) => (next.at(ReactiveStageModel::CallCheck), ReactiveAction::Check),
            }
        },
    }
}

/// What the end of a provider call means.
#[verifier::opaque]
pub open spec fn call_ended(
    context: &TurnContext,
    run: ReactiveModel,
    outcome: Result<ResponseModel, HarnessError<Seq<char>>>,
    now: u64,
) -> (ReactiveModel, ReactiveAction) {
    let (core, end) = run.core.call_finished(
        context.request.agent.limits,
        outcome,
        run.retries,
        false,
    );
    let next = run.with_core(core);
    match end {
        CallEndModel::Failed(error) => next.terminated(error),
        CallEndModel::Retry => model_called(
            context,
            ReactiveModel { retries: (run.retries + 1) as u32, ..next },
            now,
        ),
        CallEndModel::Response(response) => response_handled(context, next, response, now),
    }
}

/// A call that is answered.
#[verifier::opaque]
pub open spec fn call_answered(
    context: &TurnContext,
    run: ReactiveModel,
    call: ToolCall<Seq<char>>,
    result: ToolResultModel,
    now: u64,
) -> (ReactiveModel, ReactiveAction) {
    let messages = run.core.messages.push(tool_message(call.id, result.json_text()));
    let next = run.with_core(CoreModel { messages, ..run.core });
    match transcript_check(messages, context.request.agent.limits) {
        Err(error) => next.terminated(error),
        Ok(_) => if run.waiting.len() == 0 {
            turn_begun(context, next, now)
        } else {
            (next.at(ReactiveStageModel::CallCheck), ReactiveAction::Check)
        },
    }
}

/// What the next proposal leads to.
#[verifier::opaque]
pub open spec fn proposal_handled(
    context: &TurnContext,
    run: ReactiveModel,
    cancelled: bool,
    now: u64,
) -> (ReactiveModel, ReactiveAction) {
    let call = run.waiting[0];
    let rest = ReactiveModel { waiting: run.waiting.drop_first(), ..run };
    match stop_check(
        cancelled,
        now,
        context.deadline,
        "run deadline reached before tool validation"@,
    ) {
        Err(error) => rest.terminated(error),
        Ok(_) => {
            let before = run.core.record.ledger.broker;
            let (ledger, outcome) = admission(
                run.core.record.ledger,
                context.broker.tools@,
                context.broker.scope,
                context.request,
                call,
                ToolCaller::Direct,
                false,
                false,
                None,
            );
            let admitted = rest.with_ledger(ledger);
            match outcome {
                Err(error) => rest.with_ledger(
                    preparation_failed(ledger, before.tool_calls, before.classified(), error),
                ).terminated(error),
                Ok(AdmissionModel::Stop) => admitted.with_core(
                    admitted.core.with_record(
                        crate::ledger::RecordModel { terminal: true, ..admitted.core.record },
                    ),
                ).over(),
                Ok(AdmissionModel::Rejected(result)) => call_answered(
                    context,
                    admitted,
                    call,
                    result,
                    now,
                ),
                Ok(AdmissionModel::Reused(result)) => call_answered(
                    context,
                    admitted,
                    call,
                    result,
                    now,
                ),
                Ok(AdmissionModel::Authorize(prepared)) => (
                    admitted.at(ReactiveStageModel::AwaitPolicy(prepared)),
                    ReactiveAction::AskPolicy,
                ),
                Ok(AdmissionModel::Deferred(prepared)) => (
                    admitted.at(ReactiveStageModel::AwaitPolicy(prepared)),
                    ReactiveAction::AskPolicy,
                ),
            }
        },
    }
}

/// What an authorization leads to.
#[verifier::opaque]
pub open spec fn authorization_handled(
    context: &TurnContext,
    run: ReactiveModel,
    prepared: PreparedModel,
    authorization: AuthorizationModel,
    now: u64,
) -> (ReactiveModel, ReactiveAction) {
    match authorization {
        AuthorizationModel::Authorized => (
            run.with_ledger(
                run.core.record.ledger.with_broker(
                    dispatched(run.core.record.ledger.broker, prepared),
                ),
            ).at(ReactiveStageModel::AwaitExecution(prepared)),
            ReactiveAction::Execute,
        ),
        AuthorizationModel::AskApproval => (
            run.at(ReactiveStageModel::AwaitApproval(prepared)),
            ReactiveAction::AskApproval,
        ),
        AuthorizationModel::Rejected(result) => call_answered(
            context,
            run,
            prepared.call,
            result,
            now,
        ),
    }
}

/// A proposal whose authorization failed.
pub open spec fn authorization_failed(run: ReactiveModel, error: HarnessError<Seq<char>>) -> (
    ReactiveModel,
    ReactiveAction,
) {
    run.with_ledger(
        run.core.record.ledger.with_broker(
            run.core.record.ledger.broker.ended_before_dispatch(error),
        ),
    ).terminated(error)
}

/// What the end of an execution means.
#[verifier::opaque]
pub open spec fn execution_handled(
    context: &TurnContext,
    run: ReactiveModel,
    prepared: PreparedModel,
    outcome: Result<ToolResultModel, HarnessError<Seq<char>>>,
    now: u64,
) -> (ReactiveModel, ReactiveAction) {
    let checked = match outcome {
        Ok(result) => execution_of(
            context.broker.tools@,
            context.request.agent.limits,
            prepared.call.tool_id,
            result,
        ),
        Err(error) => Err(error),
    };
    match checked {
        Err(error) => run.with_ledger(
            execution_lost(run.core.record.ledger, prepared, error),
        ).terminated(error),
        Ok(execution) => call_answered(
            context,
            run.with_ledger(outcome_recorded(run.core.record.ledger, prepared, execution)),
            prepared.call,
            execution.result,
            now,
        ),
    }
}

/// One step of direct execution: the next state and what it asks for.
pub open spec fn reactive_step(
    context: &TurnContext,
    run: ReactiveModel,
    event: ReactiveEventModel,
) -> (ReactiveModel, ReactiveAction) {
    match (run.stage, event) {
        (ReactiveStageModel::AwaitModel, ReactiveEventModel::Responded(outcome, now)) => call_ended(
            context,
            run,
            outcome,
            now,
        ),
        (ReactiveStageModel::CallCheck, ReactiveEventModel::Checked(cancelled, now)) =>
            proposal_handled(context, run, cancelled, now),
        (ReactiveStageModel::AwaitPolicy(prepared), ReactiveEventModel::Decided(Ok(decision), now)) => {
            let (ledger, answer) = policy_outcome(
                run.core.record.ledger,
                prepared.call,
                decision,
                prepared.approval_barrier,
            );
            authorization_handled(
                context,
                run.at(ReactiveStageModel::Done).with_ledger(ledger),
                prepared,
                answer,
                now,
            )
        },
        (ReactiveStageModel::AwaitPolicy(_), ReactiveEventModel::Decided(Err(error), _)) =>
            authorization_failed(run, error),
        (
            ReactiveStageModel::AwaitApproval(prepared),
            ReactiveEventModel::Approved(Ok(granted), now),
        ) => {
            let (ledger, answer) = approval_outcome(
                run.core.record.ledger,
                prepared.call,
                granted,
            );
            authorization_handled(
                context,
                run.at(ReactiveStageModel::Done).with_ledger(ledger),
                prepared,
                answer,
                now,
            )
        },
        (ReactiveStageModel::AwaitApproval(_), ReactiveEventModel::Approved(Err(error), _)) =>
            authorization_failed(run, error),
        (
            ReactiveStageModel::AwaitExecution(prepared),
            ReactiveEventModel::Returned(outcome, now),
        ) => execution_handled(
            context,
            run.at(ReactiveStageModel::Done),
            prepared,
            outcome,
            now,
        ),
        _ => (run, ReactiveAction::Misplaced),
    }
}

/// Direct execution before its first turn.
pub open spec fn reactive_begun(
    context: &TurnContext,
    core: CoreModel,
    purpose: ModelCallPhase,
    now: u64,
) -> (ReactiveModel, ReactiveAction) {
    turn_begun(
        context,
        ReactiveModel {
            core,
            purpose,
            retries: 0,
            waiting: Seq::empty(),
            stage: ReactiveStageModel::Done,
        },
        now,
    )
}

/// Direct execution of one run.
pub struct ReactiveRun {
    core: StrategyCore,
    purpose: ModelCallPhase,
    retries: u32,
    waiting: Vec<ToolCall>,
    stage: ReactiveStage,
}

impl View for ReactiveRun {
    type V = ReactiveModel;

    closed spec fn view(&self) -> ReactiveModel {
        ReactiveModel {
            core: self.core@,
            purpose: self.purpose,
            retries: self.retries,
            waiting: calls_view(self.waiting@),
            stage: self.stage@,
        }
    }
}

impl ReactiveRun {
    fn over(&mut self) -> (action: ReactiveAction)
        ensures
            (final(self)@, action) == old(self)@.over(),
    {
        self.stage = ReactiveStage::Done;
        ReactiveAction::Finish
    }

    fn terminate(&mut self, error: &HarnessError) -> (action: ReactiveAction)
        ensures
            (final(self)@, action) == old(self)@.terminated(error@),
    {
        self.core.terminate(error);
        self.over()
    }

    fn over_with(&mut self, error: RunError) -> (action: ReactiveAction)
        ensures
            (final(self)@, action) == old(self)@.over_with(error@),
    {
        self.core.push_error(error);
        self.over()
    }

    fn call_model(&mut self, context: &TurnContext, now: u64) -> (action: ReactiveAction)
        requires
            old(self)@.core.calls.balanced(),
            old(self)@.core.record.ledger.broker.consistent(),
            old(self)@.core.record.ledger.broker.settled(),
        ensures
            (final(self)@, action) == model_called(context, old(self)@, now),
            final(self)@.consistent(),
    {
        reveal(model_called);
        let limits = &context.request.agent.limits;
        match self.core.start_call(limits, context.deadline, now, self.purpose) {
            CallStart::LimitReached => self.over(),
            CallStart::Failed(error) => self.terminate(&error),
            CallStart::Call { number, deadline } => {
                self.stage = ReactiveStage::AwaitModel;
                ReactiveAction::CallModel { number, deadline }
            },
        }
    }

    fn begin_turn(&mut self, context: &TurnContext, now: u64) -> (action: ReactiveAction)
        requires
            old(self)@.core.calls.balanced(),
            old(self)@.core.record.ledger.broker.consistent(),
            old(self)@.core.record.ledger.broker.settled(),
        ensures
            (final(self)@, action) == turn_begun(context, old(self)@, now),
            final(self)@.consistent(),
    {
        reveal(turn_begun);
        if self.core.is_terminal() {
            return self.over();
        }
        self.retries = 0;
        self.call_model(context, now)
    }

    /// Begins direct execution, whose first provider call is made for `purpose`.
    pub fn begin(context: &TurnContext, core: StrategyCore, purpose: ModelCallPhase, now: u64) -> (
    result: (ReactiveRun, ReactiveAction))
        requires
            core@.calls.balanced(),
            core@.record.ledger.broker.consistent(),
            core@.record.ledger.broker.settled(),
        ensures
            (result.0@, result.1) == reactive_begun(context, core@, purpose, now),
            result.0@.consistent(),
    {
        let mut run = ReactiveRun {
            core,
            purpose,
            retries: 0,
            waiting: Vec::new(),
            stage: ReactiveStage::Done,
        };
        assert(run@.waiting =~= Seq::empty());
        let action = run.begin_turn(context, now);
        (run, action)
    }

    fn repair_output(&mut self, output: &str)
        requires
            old(self)@.core.output_repairs < u32::MAX,
        ensures
            final(self)@ == old(self)@.with_core(
                CoreModel {
                    output_repairs: (old(self)@.core.output_repairs + 1) as u32,
                    messages: old(self)@.core.messages.push(
                        plain_message(MessageRole::Assistant, output@),
                    ).push(plain_message(MessageRole::System, repair_prompt())),
                    ..old(self)@.core
                },
            ),
    {
        self.core.count_repair();
        self.core.push_message(Message::assistant(output));
        self.core.push_message(
            Message::system("Return only JSON that satisfies the requested output schema."),
        );
    }

    fn handle_output(&mut self, context: &TurnContext, output: &str, now: u64) -> (action:
        ReactiveAction)
        requires
            old(self)@.core.calls.balanced(),
            old(self)@.core.record.ledger.broker.consistent(),
            old(self)@.core.record.ledger.broker.settled(),
        ensures
            (final(self)@, action) == output_handled(context, old(self)@, output@, now),
            final(self)@.consistent(),
    {
        reveal(output_handled);
        let limits = &context.request.agent.limits;
        if is_blank(output) {
            return self.over_with(
                RunError::new("empty_model_response", "model returned an empty final output"),
            );
        }
        match validate_output(
            &context.request.agent.output_schema,
            output,
            limits.max_json_depth,
        ) {
            Ok(_) => {
                self.core.complete_run(output);
                self.over()
            },
            Err(error) => {
                if matches!(error, HarnessError::ResourceLimit(_)) {
                    return self.terminate(&error);
                }
                if self.core.output_repairs() >= limits.max_output_repairs {
                    return self.over_with(error.run_error());
                }
                self.repair_output(output);
                match self.core.check_transcript(limits) {
                    Err(error) => self.terminate(&error),
                    Ok(_) => self.begin_turn(context, now),
                }
            },
        }
    }

    fn handle_response(&mut self, context: &TurnContext, response: ModelResponse, now: u64) -> (
    action: ReactiveAction)
        requires
            old(self)@.core.calls.balanced(),
            old(self)@.core.record.ledger.broker.consistent(),
            old(self)@.core.record.ledger.broker.settled(),
        ensures
            (final(self)@, action) == response_handled(context, old(self)@, response@, now),
            final(self)@.consistent(),
    {
        reveal(response_handled);
        self.purpose = ModelCallPhase::Reactive;
        if let Some(output) = &response.final_output {
            return self.handle_output(context, output.as_str(), now);
        }
        if response.tool_calls.len() == 0 {
            return self.over_with(
                RunError::new(
                    "empty_model_response",
                    "model returned neither final output nor tool calls",
                ),
            );
        }
        let recorded = context.broker.tool_calls_for_transcript(
            context.request,
            &response.tool_calls,
        );
        self.core.push_message(Message::assistant_tool_calls(recorded));
        self.waiting = response.tool_calls;
        match self.core.check_transcript(&context.request.agent.limits) {
            Err(error) => self.terminate(&error),
            Ok(_) => {
                self.stage = ReactiveStage::CallCheck;
                ReactiveAction::Check
            },
        }
    }

    fn end_call(
        &mut self,
        context: &TurnContext,
        outcome: Result<ModelResponse, HarnessError>,
        now: u64,
    ) -> (action: ReactiveAction)
        requires
            old(self)@.core.calls.balanced(),
            old(self)@.core.record.ledger.broker.consistent(),
            old(self)@.core.record.ledger.broker.settled(),
        ensures
            (final(self)@, action) == call_ended(context, old(self)@, outcome_view(outcome), now),
            final(self)@.consistent(),
    {
        reveal(call_ended);
        let limits = &context.request.agent.limits;
        match self.core.finish_call(limits, outcome, self.retries, false) {
            CallEnd::Failed(error) => self.terminate(&error),
            CallEnd::Retry => {
                self.retries += 1;
                self.call_model(context, now)
            },
            CallEnd::Response(response) => self.handle_response(context, response, now),
        }
    }

    fn answer(
        &mut self,
        context: &TurnContext,
        call: &ToolCall,
        result: &ToolResult,
        now: u64,
    ) -> (action: ReactiveAction)
        requires
            old(self)@.core.calls.balanced(),
            old(self)@.core.record.ledger.broker.consistent(),
            old(self)@.core.record.ledger.broker.settled(),
        ensures
            (final(self)@, action) == call_answered(context, old(self)@, call@, result@, now),
            final(self)@.consistent(),
    {
        reveal(call_answered);
        match self.core.push_result(call, result, &context.request.agent.limits) {
            Err(error) => self.terminate(&error),
            Ok(_) => {
                if self.waiting.len() == 0 {
                    return self.begin_turn(context, now);
                }
                self.stage = ReactiveStage::CallCheck;
                ReactiveAction::Check
            },
        }
    }

    fn handle_proposal(&mut self, context: &TurnContext, cancelled: bool, now: u64) -> (action:
        ReactiveAction)
        requires
            old(self)@.consistent(),
            old(self)@.core.record.ledger.broker.settled(),
            old(self)@.waiting.len() > 0,
        ensures
            (final(self)@, action) == proposal_handled(context, old(self)@, cancelled, now),
            final(self)@.consistent(),
    {
        reveal(proposal_handled);
        let ghost waiting = self@.waiting;
        let call = self.waiting.remove(0);
        assert(waiting[0] == call@);
        assert(self@.waiting =~= waiting.drop_first());
        if let Err(error) = check_stopped(
            cancelled,
            now,
            context.deadline,
            "run deadline reached before tool validation",
        ) {
            return self.terminate(&error);
        }
        proof {
            admission_counts(
                self@.core.record.ledger,
                context.broker.tools@,
                context.broker.scope,
                context.request,
                call@,
                ToolCaller::Direct,
                false,
                false,
                None,
            );
        }
        let (attempts_before, classified_before) = self.core.counters();
        match self.core.admit_direct(&context.broker, context.request, &call) {
            Err(error) => {
                self.core.settle_preparation(attempts_before, classified_before, &error);
                self.terminate(&error)
            },
            Ok(Admission::Stop) => {
                self.core.stop();
                self.over()
            },
            Ok(Admission::Rejected(result)) => self.answer(context, &call, &result, now),
            Ok(Admission::Reused(result)) => self.answer(context, &call, &result, now),
            Ok(Admission::Authorize(prepared)) => {
                self.stage = ReactiveStage::AwaitPolicy(prepared);
                ReactiveAction::AskPolicy
            },
            Ok(Admission::Deferred(prepared)) => {
                self.stage = ReactiveStage::AwaitPolicy(prepared);
                ReactiveAction::AskPolicy
            },
        }
    }

    fn handle_authorization(
        &mut self,
        context: &TurnContext,
        prepared: PreparedCall,
        authorization: Authorization,
        now: u64,
    ) -> (action: ReactiveAction)
        requires
            old(self)@.core.calls.balanced(),
            old(self)@.core.record.ledger.broker.consistent(),
            old(self)@.core.record.ledger.broker.settled(),
            !(authorization is Rejected) ==> old(self)@.core.record.ledger.broker.classified()
                < old(self)@.core.record.ledger.broker.tool_calls,
        ensures
            (final(self)@, action) == authorization_handled(
                context,
                old(self)@,
                prepared@,
                authorization@,
                now,
            ),
            final(self)@.consistent(),
    {
        reveal(authorization_handled);
        match authorization {
            Authorization::Authorized => {
                self.core.dispatch(&prepared);
                self.stage = ReactiveStage::AwaitExecution(prepared);
                ReactiveAction::Execute
            },
            Authorization::AskApproval => {
                self.stage = ReactiveStage::AwaitApproval(prepared);
                ReactiveAction::AskApproval
            },
            Authorization::Rejected(result) => self.answer(context, &prepared.call, &result, now),
        }
    }

    fn fail_authorization(&mut self, error: &HarnessError) -> (action: ReactiveAction)
        requires
            old(self)@.core.calls.balanced(),
            old(self)@.core.record.ledger.broker.consistent(),
            old(self)@.core.record.ledger.broker.settled(),
            old(self)@.core.record.ledger.broker.classified()
                < old(self)@.core.record.ledger.broker.tool_calls,
        ensures
            (final(self)@, action) == authorization_failed(old(self)@, error@),
            final(self)@.consistent(),
    {
        self.core.abort_proposal(error);
        self.terminate(error)
    }

    fn handle_execution(
        &mut self,
        context: &TurnContext,
        prepared: &PreparedCall,
        outcome: Result<ToolResult, HarnessError>,
        now: u64,
    ) -> (action: ReactiveAction)
        requires
            old(self)@.core.calls.balanced(),
            old(self)@.core.record.ledger.broker.consistent(),
            old(self)@.core.record.ledger.broker.resolved() + 1
                == old(self)@.core.record.ledger.broker.tool_issued,
        ensures
            (final(self)@, action) == execution_handled(
                context,
                old(self)@,
                prepared@,
                match outcome {
                    Ok(result) => Ok(result@),
                    Err(error) => Err(error@),
                },
                now,
            ),
            final(self)@.consistent(),
    {
        reveal(execution_handled);
        let checked = match outcome {
            Ok(result) => context.broker.check_execution(
                context.request,
                prepared.call.tool_id.as_str(),
                result,
            ),
            Err(error) => Err(error),
        };
        match checked {
            Err(error) => {
                self.core.lose_execution(prepared, &error);
                self.terminate(&error)
            },
            Ok(execution) => {
                self.core.record_outcome(prepared, &execution);
                self.answer(context, &prepared.call, &execution.result, now)
            },
        }
    }

    fn take_stage(&mut self) -> (stage: ReactiveStage)
        ensures
            stage@ == old(self)@.stage,
            final(self)@ == old(self)@.at(ReactiveStageModel::Done),
    {
        let mut stage = ReactiveStage::Done;
        std::mem::swap(&mut stage, &mut self.stage);
        stage
    }

    fn misplaced(&mut self, stage: ReactiveStage) -> (action: ReactiveAction)
        ensures
            final(self)@ == old(self)@.at(stage@),
            action == ReactiveAction::Misplaced,
    {
        self.stage = stage;
        ReactiveAction::Misplaced
    }

    fn on_decided(
        &mut self,
        context: &TurnContext,
        outcome: Result<PolicyDecision, HarnessError>,
        now: u64,
    ) -> (action: ReactiveAction)
        requires
            old(self)@.consistent(),
        ensures
            (final(self)@, action) == reactive_step(
                context,
                old(self)@,
                ReactiveEvent::Decided(outcome, now)@,
            ),
            final(self)@.consistent(),
    {
        match self.take_stage() {
            ReactiveStage::AwaitPolicy(prepared) => match outcome {
                Ok(decision) => {
                    let authorization = self.core.decide(&prepared, &decision);
                    self.handle_authorization(context, prepared, authorization, now)
                },
                Err(error) => self.fail_authorization(&error),
            },
            stage => self.misplaced(stage),
        }
    }

    fn on_approved(
        &mut self,
        context: &TurnContext,
        outcome: Result<bool, HarnessError>,
        now: u64,
    ) -> (action: ReactiveAction)
        requires
            old(self)@.consistent(),
        ensures
            (final(self)@, action) == reactive_step(
                context,
                old(self)@,
                ReactiveEvent::Approved(outcome, now)@,
            ),
            final(self)@.consistent(),
    {
        match self.take_stage() {
            ReactiveStage::AwaitApproval(prepared) => match outcome {
                Ok(granted) => {
                    let authorization = self.core.approve(&prepared, granted);
                    self.handle_authorization(context, prepared, authorization, now)
                },
                Err(error) => self.fail_authorization(&error),
            },
            stage => self.misplaced(stage),
        }
    }

    /// Takes one step.
    pub fn step(&mut self, context: &TurnContext, event: ReactiveEvent) -> (action: ReactiveAction)
        requires
            old(self)@.consistent(),
        ensures
            (final(self)@, action) == reactive_step(context, old(self)@, event@),
            final(self)@.consistent(),
    {
        match event {
            ReactiveEvent::Responded(outcome, now) => match &self.stage {
                ReactiveStage::AwaitModel => self.end_call(context, outcome, now),
                _ => ReactiveAction::Misplaced,
            },
            ReactiveEvent::Checked(cancelled, now) => match &self.stage {
                ReactiveStage::CallCheck => self.handle_proposal(context, cancelled, now),
                _ => ReactiveAction::Misplaced,
            },
            ReactiveEvent::Decided(outcome, now) => self.on_decided(context, outcome, now),
            ReactiveEvent::Approved(outcome, now) => self.on_approved(context, outcome, now),
            ReactiveEvent::Returned(outcome, now) => match self.take_stage() {
                ReactiveStage::AwaitExecution(prepared) => self.handle_execution(
                    context,
                    &prepared,
                    outcome,
                    now,
                ),
                stage => self.misplaced(stage),
            },
        }
    }

    /// The conversation so far.
    pub fn messages(&self) -> (result: &Vec<Message>)
        ensures
            messages_view(result@) == self@.core.messages,
    {
        self.core.messages()
    }

    /// The call at hand.
    pub fn prepared(&self) -> (result: Option<&PreparedCall>)
        ensures
            match self@.stage {
                ReactiveStageModel::AwaitPolicy(held) => result matches Some(prepared) && prepared@
                    == held,
                ReactiveStageModel::AwaitApproval(held) => result matches Some(prepared)
                    && prepared@ == held,
                ReactiveStageModel::AwaitExecution(held) => result matches Some(prepared)
                    && prepared@ == held,
                _ => result is None,
            },
    {
        match &self.stage {
            ReactiveStage::AwaitPolicy(prepared) => Some(prepared),
            ReactiveStage::AwaitApproval(prepared) => Some(prepared),
            ReactiveStage::AwaitExecution(prepared) => Some(prepared),
            _ => None,
        }
    }

    /// Hands over the recorded events and forgets them.
    pub fn take_events(&mut self) -> (result: Vec<RunEvent>)
        ensures
            crate::event::events_view(result@) == old(self)@.core.record.ledger.events,
            final(self)@ == old(self)@.with_ledger(
                LedgerModel { events: Seq::empty(), ..old(self)@.core.record.ledger },
            ),
    {
        self.core.take_events()
    }

    /// The shared part of the run, for good.
    pub fn into_core(self) -> (result: StrategyCore)
        ensures
            result@ == self@.core,
    {
        self.core
    }
}

} // verus!
