//! A run without planning, streaming or a broker: the model calls registered tools, one after
//! the other, until it answers.

use crate::agent::{RunRequest, RunResultModel, RunStatus};
use crate::direct::repair_prompt;
use crate::error::{HarnessError, RunError};
use crate::event::RunEvent;
use crate::json::{parse_json, parsed_json, render_json, rendered_json, Json, JsonTree};
use crate::schema::{check_schema, compiled_fault, find_violation, schema_violation};
use crate::ledger::{LedgerModel, RunLedger};
use crate::limits::check_view;
use crate::message::{
    messages_view, plain_message, tool_message, Message, MessageModel, MessageRole,
};
use crate::model::{ModelResponse, ResponseModel};
use crate::policy::{ApprovalRecord, PolicyDecision};
use crate::registry::{arguments_fault, find_tool, registered, validate_arguments, RegisteredTool};
use crate::text::{blank, contains_text, is_blank, join2, join3, texts};
use crate::strategy_core::outcome_view;
use crate::tool::{calls_view, failure_model, ToolCall, ToolResult, ToolResultModel};
use vstd::prelude::*;

verus! {

/// What a simple run requires of its request.
pub open spec fn simple_check(request: &RunRequest) -> Result<(), HarnessError<Seq<char>>> {
    let agent = request.agent;
    if blank(agent.id@) || blank(agent.name@) || blank(agent.version@) || blank(
        agent.default_model@,
    ) {
        Err(
            HarnessError::InvalidRequest(
                "agent id, name, version, and default model are required"@,
            ),
        )
    } else if blank(request.input@) {
        Err(HarnessError::InvalidRequest("input is required"@))
    } else if agent.limits.max_model_calls == 0 || agent.limits.max_tool_calls == 0
        || agent.limits.max_identical_tool_calls == 0 {
        Err(HarnessError::InvalidRequest("all limits must be greater than zero"@))
    } else {
        match agent.output_schema {
            Some(schema) => match compiled_fault(schema@) {
                Some(message) => Err(
                    HarnessError::InvalidRequest("invalid output schema: "@ + message),
                ),
                None => Ok(()),
            },
            None => Ok(()),
        }
    }
}

/// Checks the request of a simple run.
pub fn check_simple_request(request: &RunRequest) -> (result: Result<(), HarnessError>)
    ensures
        check_view(result) == simple_check(request),
{
    let agent = &request.agent;
    if is_blank(agent.id.as_str()) || is_blank(agent.name.as_str()) || is_blank(
        agent.version.as_str(),
    ) || is_blank(agent.default_model.as_str()) {
        return Err(
            HarnessError::InvalidRequest(
                "agent id, name, version, and default model are required".to_owned(),
            ),
        );
    }
    if is_blank(request.input.as_str()) {
        return Err(HarnessError::InvalidRequest("input is required".to_owned()));
    }
    if agent.limits.max_model_calls == 0 || agent.limits.max_tool_calls == 0
        || agent.limits.max_identical_tool_calls == 0 {
        return Err(
            HarnessError::InvalidRequest("all limits must be greater than zero".to_owned()),
        );
    }
    if let Some(schema) = &agent.output_schema {
        if let Some(message) = check_schema(schema) {
            return Err(
                HarnessError::InvalidRequest(join2("invalid output schema: ", message.as_str())),
            );
        }
    }
    Ok(())
}

/// What is wrong with a final output.
pub open spec fn simple_output_check(schema: Option<JsonTree>, output: Seq<char>) -> Result<
    (),
    HarnessError<Seq<char>>,
> {
    match schema {
        None => Ok(()),
        Some(schema) => match parsed_json(output) {
            Err(message) => Err(HarnessError::InvalidOutput("output is not JSON: "@ + message)),
            Ok(value) => match compiled_fault(schema) {
                Some(message) => Err(
                    HarnessError::InvalidOutput("invalid output schema: "@ + message),
                ),
                None => match schema_violation(schema, value) {
                    Some(message) => Err(HarnessError::InvalidOutput(message)),
                    None => Ok(()),
                },
            },
        },
    }
}

fn check_output(schema: &Option<Json>, output: &str) -> (result: Result<(), HarnessError>)
    ensures
        check_view(result) == simple_output_check(
            match *schema {
                Some(schema) => Some(schema@),
                None => None,
            },
            output@,
        ),
{
    let schema = match schema {
        Some(schema) => schema,
        None => return Ok(()),
    };
    let value = match parse_json(output) {
        Ok(value) => value,
        Err(message) => {
            return Err(
                HarnessError::InvalidOutput(join2("output is not JSON: ", message.as_str())),
            );
        },
    };
    if let Some(message) = check_schema(schema) {
        return Err(
            HarnessError::InvalidOutput(join2("invalid output schema: ", message.as_str())),
        );
    }
    match find_violation(schema, &value) {
        Some(message) => Err(HarnessError::InvalidOutput(message)),
        None => Ok(()),
    }
}

/// Where a simple run stands.
pub enum SimpleStage {
    /// Before a turn.
    Turn,
    /// The provider was called.
    AwaitModel,
    /// The policy was asked about this call with these arguments.
    AwaitPolicy(ToolCall, Json),
    /// Approval of this call with these arguments was asked for.
    AwaitApproval(ToolCall, Json),
    /// This call was handed to its tool with these arguments.
    AwaitExecution(ToolCall, Json),
    /// The run is over.
    Done,
}

/// The model of a stage.
pub enum SimpleStageModel {
    /// Before a turn.
    Turn,
    /// The provider was called.
    AwaitModel,
    /// The policy was asked about this call with these arguments.
    AwaitPolicy(ToolCall<Seq<char>>, JsonTree),
    /// Approval of this call with these arguments was asked for.
    AwaitApproval(ToolCall<Seq<char>>, JsonTree),
    /// This call was handed to its tool with these arguments.
    AwaitExecution(ToolCall<Seq<char>>, JsonTree),
    /// The run is over.
    Done,
}

impl View for SimpleStage {
    type V = SimpleStageModel;

    open spec fn view(&self) -> SimpleStageModel {
        match self {
            SimpleStage::Turn => SimpleStageModel::Turn,
            SimpleStage::AwaitModel => SimpleStageModel::AwaitModel,
            SimpleStage::AwaitPolicy(call, arguments) => SimpleStageModel::AwaitPolicy(
                call@,
                arguments@,
            ),
            SimpleStage::AwaitApproval(call, arguments) => SimpleStageModel::AwaitApproval(
                call@,
                arguments@,
            ),
            SimpleStage::AwaitExecution(call, arguments) => SimpleStageModel::AwaitExecution(
                call@,
                arguments@,
            ),
            SimpleStage::Done => SimpleStageModel::Done,
        }
    }
}

/// What a simple run asks for next.
#[derive(Clone, Copy, Debug, PartialEq, Eq, Structural)]
pub enum SimpleAction {
    /// Say how long the run has taken, and whether it was cancelled.
    Check,
    /// Call the provider.
    CallModel {
        /// One-based number of the call.
        number: u32,
    },
    /// Ask the policy about the call at hand.
    AskPolicy,
    /// Ask for approval of the call at hand.
    AskApproval,
    /// Run the tool of the call at hand.
    Execute,
    /// Finish the run.
    Finish,
    /// The event does not fit the stage; nothing changed.
    Misplaced,
}

/// The model of a simple run.
pub struct SimpleModel {
    /// What the run recorded.
    pub ledger: LedgerModel,
    /// The conversation.
    pub messages: Seq<MessageModel>,
    /// Provider calls so far.
    pub model_calls: u32,
    /// Tool calls so far.
    pub tool_calls: u32,
    /// Repairs of the final output so far.
    pub output_repairs: u32,
    /// Identities of the tool calls so far.
    pub identities: Seq<Seq<char>>,
    /// Calls of the last response that are still to be handled.
    pub waiting: Seq<ToolCall<Seq<char>>>,
    /// Where the run stands.
    pub stage: SimpleStageModel,
}

/// The identity of a call.
pub open spec fn call_identity(tool_id: Seq<char>, arguments: JsonTree) -> Seq<char> {
    tool_id + ":"@ + rendered_json(arguments)
}

/// How often a text occurs in a list.
pub open spec fn text_occurrences(values: Seq<Seq<char>>, value: Seq<char>) -> nat {
    crate::lexicon::term_count(values, value)
}

impl SimpleModel {
    /// The run with another ledger.
    pub open spec fn with_ledger(self, ledger: LedgerModel) -> SimpleModel {
        SimpleModel { ledger, ..self }
    }

    /// The run with another result.
    pub open spec fn with_result(self, result: RunResultModel) -> SimpleModel {
        self.with_ledger(self.ledger.with_result(result))
    }

    /// The run at another stage.
    pub open spec fn at(self, stage: SimpleStageModel) -> SimpleModel {
        SimpleModel { stage, ..self }
    }

    /// The run, over.
    pub open spec fn over(self) -> (SimpleModel, SimpleAction) {
        (self.at(SimpleStageModel::Done), SimpleAction::Finish)
    }

    /// The run with a call refused and the model told so.
    pub open spec fn refused(
        self,
        call: ToolCall<Seq<char>>,
        reason: Seq<char>,
        told: Seq<char>,
    ) -> SimpleModel {
        SimpleModel {
            messages: self.messages.push(
                tool_message(call.id, failure_model(told).json_text()),
            ),
            ..self.with_ledger(
                self.ledger.emit(
                    RunEvent::ToolRejected { call_id: call.id, tool_id: call.tool_id, reason },
                ).with_error(RunError { code: "tool_rejected"@, message: reason }),
            )
        }
    }
}

/// A turn that begins, or does not.
#[verifier::opaque]
pub open spec fn simple_turn(
    run: SimpleModel,
    request: &RunRequest,
    elapsed_ms: u64,
    cancelled: bool,
) -> (SimpleModel, SimpleAction) {
    let limits = request.agent.limits;
    let result = run.ledger.result;
    if limits.max_run_duration_ms matches Some(limit) && elapsed_ms >= limit {
        run.with_result(
            RunResultModel {
                status: RunStatus::Failed,
                ..result.with_error(
                    HarnessError::TimedOut("run duration limit reached"@).recorded(),
                )
            },
        ).over()
    } else if cancelled {
        run.with_result(
            RunResultModel {
                status: RunStatus::Cancelled,
                cancelled: true,
                ..result.with_error(HarnessError::<Seq<char>>::Cancelled.recorded())
            },
        ).over()
    } else if run.model_calls >= limits.max_model_calls {
        run.with_result(result.at_model_call_limit()).over()
    } else {
        let number = (run.model_calls + 1) as u32;
        (
            SimpleModel {
                model_calls: number,
                stage: SimpleStageModel::AwaitModel,
                ..run.with_ledger(
                    run.ledger.emit(
                        RunEvent::ModelRequested { call_number: number, model: result.model },
                    ),
                )
            },
            SimpleAction::CallModel { number },
        )
    }
}

/// The run between two calls: the next one is handled, unless none is left or a limit is
/// reached.
pub open spec fn simple_next(
    run: SimpleModel,
    tools: Seq<RegisteredTool>,
    request: &RunRequest,
) -> (SimpleModel, SimpleAction)
    decreases run.waiting.len(),
{
    let limits = request.agent.limits;
    if run.waiting.len() == 0 {
        if run.ledger.result.status == RunStatus::LimitReached {
            run.over()
        } else {
            (run.at(SimpleStageModel::Turn), SimpleAction::Check)
        }
    } else if run.tool_calls >= limits.max_tool_calls {
        run.with_result(run.ledger.result.at_tool_call_limit()).over()
    } else {
        let call = run.waiting[0];
        let entered = SimpleModel {
            waiting: run.waiting.drop_first(),
            tool_calls: (run.tool_calls + 1) as u32,
            ..run.with_result(
                RunResultModel {
                    tool_calls: run.ledger.result.tool_calls.push(call),
                    ..run.ledger.result
                },
            )
        };
        match parsed_json(call.arguments_json) {
            Err(message) => simple_next(
                entered.refused(call, "malformed JSON: "@ + message, "malformed tool arguments"@),
                tools,
                request,
            ),
            Ok(arguments) => {
                let identity = call_identity(call.tool_id, arguments);
                let known = SimpleModel { identities: run.identities.push(identity), ..entered };
                if text_occurrences(known.identities, identity) > limits.max_identical_tool_calls {
                    known.with_result(known.ledger.result.at_repeated_call_limit()).over()
                } else if registered(tools, call.tool_id) is None {
                    simple_next(
                        known.refused(call, "unknown tool"@, "unknown tool"@),
                        tools,
                        request,
                    )
                } else if !texts(request.agent.tool_allowlist@).contains(call.tool_id) {
                    simple_next(
                        known.refused(
                            call,
                            "tool is not allowed for agent"@,
                            "tool is not allowed"@,
                        ),
                        tools,
                        request,
                    )
                } else {
                    match arguments_fault(tools, call.tool_id, arguments) {
                        Some(error) => simple_next(
                            known.refused(
                                call,
                                error.display_text(),
                                "tool arguments failed validation"@,
                            ),
                            tools,
                            request,
                        ),
                        None => (
                            known.at(SimpleStageModel::AwaitPolicy(call, arguments)),
                            SimpleAction::AskPolicy,
                        ),
                    }
                }
            },
        }
    }
}

/// What a model response means.
#[verifier::opaque]
pub open spec fn simple_response(
    run: SimpleModel,
    tools: Seq<RegisteredTool>,
    request: &RunRequest,
    response: ResponseModel,
) -> (SimpleModel, SimpleAction) {
    match response.final_output {
        Some(output) => match simple_output_check(
            match request.agent.output_schema {
                Some(schema) => Some(schema@),
                None => None,
            },
            output,
        ) {
            Ok(_) => run.with_result(run.ledger.result.completed(output)).over(),
            Err(error) => if run.output_repairs >= request.agent.limits.max_output_repairs {
                run.with_ledger(run.ledger.with_error(error.recorded())).over()
            } else {
                (
                    SimpleModel {
                        output_repairs: (run.output_repairs + 1) as u32,
                        messages: run.messages.push(
                            plain_message(MessageRole::Assistant, output),
                        ).push(plain_message(MessageRole::System, repair_prompt())),
                        ..run
                    }.at(SimpleStageModel::Turn),
                    SimpleAction::Check,
                )
            },
        },
        None => if response.tool_calls.len() == 0 {
            run.with_ledger(
                run.ledger.with_error(
                    RunError {
                        code: "empty_model_response"@,
                        message: "model returned neither final output nor tool calls"@,
                    },
                ),
            ).over()
        } else {
            simple_next(SimpleModel { waiting: response.tool_calls, ..run }, tools, request)
        },
    }
}

/// What the end of a provider call means.
#[verifier::opaque]
pub open spec fn simple_completion(
    run: SimpleModel,
    tools: Seq<RegisteredTool>,
    request: &RunRequest,
    outcome: Result<ResponseModel, HarnessError<Seq<char>>>,
) -> (SimpleModel, SimpleAction) {
    match outcome {
        Err(error) => run.with_result(
            RunResultModel {
                status: if error is Cancelled {
                    RunStatus::Cancelled
                } else {
                    RunStatus::Failed
                },
                cancelled: error is Cancelled,
                ..run.ledger.result.with_error(error.recorded())
            },
        ).over(),
        Ok(response) => simple_response(
            run.with_ledger(
                run.ledger.emit(RunEvent::ModelResponded { call_number: run.model_calls }),
            ),
            tools,
            request,
            response,
        ),
    }
}

/// What a policy decision means.
#[verifier::opaque]
pub open spec fn simple_decision(
    run: SimpleModel,
    tools: Seq<RegisteredTool>,
    request: &RunRequest,
    call: ToolCall<Seq<char>>,
    arguments: JsonTree,
    decision: PolicyDecision<Seq<char>>,
) -> (SimpleModel, SimpleAction) {
    let told = run.ledger.emit(RunEvent::PolicyDecided { call_id: call.id, decision });
    let decided = run.with_ledger(
        told.with_result(
            RunResultModel {
                policy_decisions: told.result.policy_decisions.push(decision),
                ..told.result
            },
        ),
    );
    match decision {
        PolicyDecision::Deny { reason } => simple_next(
            decided.refused(call, "policy denied: "@ + reason, "policy denied"@),
            tools,
            request,
        ),
        PolicyDecision::RequireApproval { .. } => (
            decided.with_ledger(
                decided.ledger.emit(
                    RunEvent::ApprovalRequested { call_id: call.id, tool_id: call.tool_id },
                ),
            ).at(SimpleStageModel::AwaitApproval(call, arguments)),
            SimpleAction::AskApproval,
        ),
        PolicyDecision::Allow { .. } => (
            decided.at(SimpleStageModel::AwaitExecution(call, arguments)),
            SimpleAction::Execute,
        ),
    }
}

/// What an approval means.
#[verifier::opaque]
pub open spec fn simple_approval(
    run: SimpleModel,
    tools: Seq<RegisteredTool>,
    request: &RunRequest,
    call: ToolCall<Seq<char>>,
    arguments: JsonTree,
    granted: bool,
    reason: Seq<char>,
) -> (SimpleModel, SimpleAction) {
    let recorded = run.with_result(
        RunResultModel {
            approvals: run.ledger.result.approvals.push(
                ApprovalRecord { call_id: call.id, tool_id: call.tool_id, granted, reason },
            ),
            ..run.ledger.result
        },
    );
    if granted {
        (
            recorded.at(SimpleStageModel::AwaitExecution(call, arguments)),
            SimpleAction::Execute,
        )
    } else {
        simple_next(
            recorded.refused(call, "approval denied: "@ + reason, "approval denied"@),
            tools,
            request,
        )
    }
}

/// What the end of an execution means.
#[verifier::opaque]
pub open spec fn simple_execution(
    run: SimpleModel,
    tools: Seq<RegisteredTool>,
    request: &RunRequest,
    call: ToolCall<Seq<char>>,
    outcome: Result<ToolResultModel, HarnessError<Seq<char>>>,
) -> (SimpleModel, SimpleAction) {
    let (ledger, result) = match outcome {
        Ok(result) => (run.ledger, result),
        Err(error) => (
            run.ledger.with_error(error.recorded()),
            failure_model(error.display_text()),
        ),
    };
    simple_next(
        SimpleModel {
            messages: run.messages.push(tool_message(call.id, result.json_text())),
            ..run.with_ledger(ledger.tool_completed(call, result.ok))
        },
        tools,
        request,
    )
}

/// A simple run.
pub struct SimpleRun {
    ledger: RunLedger,
    messages: Vec<Message>,
    model_calls: u32,
    tool_calls: u32,
    output_repairs: u32,
    identities: Vec<String>,
    waiting: Vec<ToolCall>,
    stage: SimpleStage,
}

impl View for SimpleRun {
    type V = SimpleModel;

    closed spec fn view(&self) -> SimpleModel {
        SimpleModel {
            ledger: self.ledger@,
            messages: messages_view(self.messages@),
            model_calls: self.model_calls,
            tool_calls: self.tool_calls,
            output_repairs: self.output_repairs,
            identities: texts(self.identities@),
            waiting: calls_view(self.waiting@),
            stage: self.stage@,
        }
    }
}

/// A simple run that just began.
pub open spec fn simple_begun(
    request: &RunRequest,
    run_id: Seq<char>,
    trace_id: Seq<char>,
) -> SimpleModel {
    SimpleModel {
        ledger: crate::lifecycle::begun_ledger(request, run_id, trace_id),
        messages: request.opening(),
        model_calls: 0,
        tool_calls: 0,
        output_repairs: 0,
        identities: Seq::empty(),
        waiting: Seq::empty(),
        stage: SimpleStageModel::Turn,
    }
}

impl SimpleRun {
    /// Begins a simple run.
    pub fn begin(request: &RunRequest, run_id: &str, trace_id: &str) -> (result: SimpleRun)
        ensures
            result@ == simple_begun(request, run_id@, trace_id@),
    {
        let result = SimpleRun {
            ledger: crate::lifecycle::begin_run(request, run_id, trace_id),
            messages: request.initial_messages(),
            model_calls: 0,
            tool_calls: 0,
            output_repairs: 0,
            identities: Vec::new(),
            waiting: Vec::new(),
            stage: SimpleStage::Turn,
        };
        assert(result@.identities =~= Seq::empty());
        assert(result@.waiting =~= Seq::empty());
        result
    }

    fn over(&mut self) -> (action: SimpleAction)
        ensures
            (final(self)@, action) == old(self)@.over(),
    {
        self.stage = SimpleStage::Done;
        SimpleAction::Finish
    }

    fn push_message(&mut self, message: Message)
        ensures
            final(self)@ == (SimpleModel {
                messages: old(self)@.messages.push(message@),
                ..old(self)@
            }),
    {
        let ghost before = self@.messages;
        self.messages.push(message);
        assert(messages_view(self.messages@) =~= before.push(message@));
    }

    fn refuse(&mut self, call: &ToolCall, reason: &str, told: &str)
        ensures
            final(self)@ == old(self)@.refused(call@, reason@, told@),
    {
        self.ledger.emit(
            RunEvent::ToolRejected {
                call_id: call.id.clone(),
                tool_id: call.tool_id.clone(),
                reason: reason.to_owned(),
            },
        );
        self.ledger.push_error(RunError::new("tool_rejected", reason));
        let failure = ToolResult::failure(told);
        self.push_message(Message::tool(call.id.as_str(), &failure));
    }

    /// Takes a turn, or does not: `elapsed_ms` is how long the run has taken.
    pub fn turn(&mut self, request: &RunRequest, elapsed_ms: u64, cancelled: bool) -> (action:
        SimpleAction)
        ensures
            old(self)@.stage is Turn ==> (final(self)@, action) == simple_turn(
                old(self)@,
                request,
                elapsed_ms,
                cancelled,
            ),
            !(old(self)@.stage is Turn) ==> final(self)@ == old(self)@ && action
                == SimpleAction::Misplaced,
    {
        reveal(simple_turn);
        match self.stage {
            SimpleStage::Turn => {},
            _ => return SimpleAction::Misplaced,
        }
        let limits = &request.agent.limits;
        if let Some(limit) = limits.max_run_duration_ms {
            if elapsed_ms >= limit {
                let error = HarnessError::TimedOut("run duration limit reached".to_owned());
                self.ledger.push_error(error.run_error());
                self.ledger.result.status = RunStatus::Failed;
                return self.over();
            }
        }
        if cancelled {
            let error: HarnessError = HarnessError::Cancelled;
            self.ledger.push_error(error.run_error());
            self.ledger.result.status = RunStatus::Cancelled;
            self.ledger.result.cancelled = true;
            return self.over();
        }
        if self.model_calls >= limits.max_model_calls {
            self.ledger.result.stop_at_model_call_limit();
            return self.over();
        }
        self.model_calls += 1;
        let model = self.ledger.result.model.clone();
        self.ledger.emit(RunEvent::ModelRequested { call_number: self.model_calls, model });
        self.stage = SimpleStage::AwaitModel;
        SimpleAction::CallModel { number: self.model_calls }
    }

    /// Enters the next call of the response.
    fn enter_call(&mut self) -> (call: ToolCall)
        requires
            old(self)@.waiting.len() > 0,
            old(self)@.tool_calls < u32::MAX,
        ensures
            call@ == old(self)@.waiting[0],
            final(self)@ == (SimpleModel {
                waiting: old(self)@.waiting.drop_first(),
                tool_calls: (old(self)@.tool_calls + 1) as u32,
                ..old(self)@.with_result(
                    RunResultModel {
                        tool_calls: old(self)@.ledger.result.tool_calls.push(call@),
                        ..old(self)@.ledger.result
                    },
                )
            }),
    {
        let ghost waiting = self@.waiting;
        let call = self.waiting.remove(0);
        assert(waiting[0] == call@);
        assert(self@.waiting =~= waiting.drop_first());
        self.tool_calls += 1;
        self.ledger.result.push_call(call.duplicate());
        call
    }

    fn note_identity(&mut self, call: &ToolCall, arguments: &Json) -> (count: usize)
        ensures
            final(self)@ == (SimpleModel {
                identities: old(self)@.identities.push(
                    call_identity(call@.tool_id, arguments@),
                ),
                ..old(self)@
            }),
            count == text_occurrences(
                final(self)@.identities,
                call_identity(call@.tool_id, arguments@),
            ),
    {
        let ghost before = self@.identities;
        let text = render_json(arguments);
        let identity = join3(call.tool_id.as_str(), ":", text.as_str());
        let copy = identity.clone();
        self.identities.push(identity);
        assert(texts(self.identities@) =~= before.push(copy@));
        crate::lexicon::count_term(&self.identities, copy.as_str())
    }

    fn next(&mut self, tools: &Vec<RegisteredTool>, request: &RunRequest) -> (action: SimpleAction)
        ensures
            (final(self)@, action) == simple_next(old(self)@, tools@, request),
    {
        let ghost first = self@;
        let limits = &request.agent.limits;
        loop
            invariant
                first == old(self)@,
                limits == &request.agent.limits,
                simple_next(first, tools@, request) == simple_next(self@, tools@, request),
            decreases self@.waiting.len(),
        {
            if self.waiting.len() == 0 {
                if self.ledger.result.status == RunStatus::LimitReached {
                    return self.over();
                }
                self.stage = SimpleStage::Turn;
                return SimpleAction::Check;
            }
            if self.tool_calls >= limits.max_tool_calls {
                self.ledger.result.stop_at_tool_call_limit();
                return self.over();
            }
            let call = self.enter_call();
            let arguments = match parse_json(call.arguments_json.as_str()) {
                Err(message) => {
                    let reason = join2("malformed JSON: ", message.as_str());
                    self.refuse(&call, reason.as_str(), "malformed tool arguments");
                    continue;
                },
                Ok(arguments) => arguments,
            };
            let count = self.note_identity(&call, &arguments);
            if count as u64 > limits.max_identical_tool_calls as u64 {
                self.ledger.result.stop_at_repeated_call_limit();
                return self.over();
            }
            if find_tool(tools, call.tool_id.as_str()).is_none() {
                self.refuse(&call, "unknown tool", "unknown tool");
                continue;
            }
            if !contains_text(&request.agent.tool_allowlist, call.tool_id.as_str()) {
                self.refuse(&call, "tool is not allowed for agent", "tool is not allowed");
                continue;
            }
            if let Err(error) = validate_arguments(tools, call.tool_id.as_str(), &arguments) {
                let reason = error.to_text();
                self.refuse(&call, reason.as_str(), "tool arguments failed validation");
                continue;
            }
            self.stage = SimpleStage::AwaitPolicy(call, arguments);
            return SimpleAction::AskPolicy;
        }
    }

    fn handle_response(
        &mut self,
        tools: &Vec<RegisteredTool>,
        request: &RunRequest,
        response: ModelResponse,
    ) -> (action: SimpleAction)
        ensures
            (final(self)@, action) == simple_response(old(self)@, tools@, request, response@),
    {
        reveal(simple_response);
        if let Some(output) = &response.final_output {
            return match check_output(&request.agent.output_schema, output.as_str()) {
                Ok(_) => {
                    self.ledger.result.complete(output.as_str());
                    self.over()
                },
                Err(error) => {
                    if self.output_repairs >= request.agent.limits.max_output_repairs {
                        self.ledger.push_error(error.run_error());
                        return self.over();
                    }
                    self.output_repairs += 1;
                    self.push_message(Message::assistant(output.as_str()));
                    self.push_message(
                        Message::system(
                            "Return only JSON that satisfies the requested output schema.",
                        ),
                    );
                    self.stage = SimpleStage::Turn;
                    SimpleAction::Check
                },
            };
        }
        if response.tool_calls.len() == 0 {
            self.ledger.push_error(
                RunError::new(
                    "empty_model_response",
                    "model returned neither final output nor tool calls",
                ),
            );
            return self.over();
        }
        self.waiting = response.tool_calls;
        self.next(tools, request)
    }

    /// The provider call ended.
    pub fn responded(
        &mut self,
        tools: &Vec<RegisteredTool>,
        request: &RunRequest,
        outcome: Result<ModelResponse, HarnessError>,
    ) -> (action: SimpleAction)
        ensures
            old(self)@.stage is AwaitModel ==> (final(self)@, action) == simple_completion(
                old(self)@,
                tools@,
                request,
                outcome_view(outcome),
            ),
            !(old(self)@.stage is AwaitModel) ==> final(self)@ == old(self)@ && action
                == SimpleAction::Misplaced,
    {
        reveal(simple_completion);
        match self.stage {
            SimpleStage::AwaitModel => {},
            _ => return SimpleAction::Misplaced,
        }
        match outcome {
            Err(error) => {
                let cancelled = matches!(error, HarnessError::Cancelled);
                self.ledger.push_error(error.run_error());
                self.ledger.result.status = if cancelled {
                    RunStatus::Cancelled
                } else {
                    RunStatus::Failed
                };
                self.ledger.result.cancelled = cancelled;
                self.over()
            },
            Ok(response) => {
                self.ledger.emit(RunEvent::ModelResponded { call_number: self.model_calls });
                self.handle_response(tools, request, response)
            },
        }
    }

    fn take_stage(&mut self) -> (stage: SimpleStage)
        ensures
            stage@ == old(self)@.stage,
            final(self)@ == old(self)@.at(SimpleStageModel::Done),
    {
        let mut stage = SimpleStage::Done;
        std::mem::swap(&mut stage, &mut self.stage);
        stage
    }

    fn misplaced(&mut self, stage: SimpleStage) -> (action: SimpleAction)
        ensures
            final(self)@ == old(self)@.at(stage@),
            action == SimpleAction::Misplaced,
    {
        self.stage = stage;
        SimpleAction::Misplaced
    }

    /// The policy answered.
    pub fn decided(
        &mut self,
        tools: &Vec<RegisteredTool>,
        request: &RunRequest,
        decision: PolicyDecision,
    ) -> (action: SimpleAction)
        ensures
            match old(self)@.stage {
                SimpleStageModel::AwaitPolicy(call, arguments) => (final(self)@, action)
                    == simple_decision(
                    old(self)@.at(SimpleStageModel::Done),
                    tools@,
                    request,
                    call,
                    arguments,
                    decision@,
                ),
                _ => final(self)@ == old(self)@ && action == SimpleAction::Misplaced,
            },
    {
        reveal(simple_decision);
        match self.take_stage() {
            SimpleStage::AwaitPolicy(call, arguments) => {
                self.ledger.emit(
                    RunEvent::PolicyDecided {
                        call_id: call.id.clone(),
                        decision: decision.duplicate(),
                    },
                );
                self.ledger.result.push_decision(decision.duplicate());
                match decision {
                    PolicyDecision::Deny { reason } => {
                        let text = join2("policy denied: ", reason.as_str());
                        self.refuse(&call, text.as_str(), "policy denied");
                        self.next(tools, request)
                    },
                    PolicyDecision::RequireApproval { .. } => {
                        self.ledger.emit(
                            RunEvent::ApprovalRequested {
                                call_id: call.id.clone(),
                                tool_id: call.tool_id.clone(),
                            },
                        );
                        self.stage = SimpleStage::AwaitApproval(call, arguments);
                        SimpleAction::AskApproval
                    },
                    PolicyDecision::Allow { .. } => {
                        self.stage = SimpleStage::AwaitExecution(call, arguments);
                        SimpleAction::Execute
                    },
                }
            },
            stage => self.misplaced(stage),
        }
    }

    /// The request for approval was answered.
    pub fn approved(
        &mut self,
        tools: &Vec<RegisteredTool>,
        request: &RunRequest,
        granted: bool,
        reason: &str,
    ) -> (action: SimpleAction)
        ensures
            match old(self)@.stage {
                SimpleStageModel::AwaitApproval(call, arguments) => (final(self)@, action)
                    == simple_approval(
                    old(self)@.at(SimpleStageModel::Done),
                    tools@,
                    request,
                    call,
                    arguments,
                    granted,
                    reason@,
                ),
                _ => final(self)@ == old(self)@ && action == SimpleAction::Misplaced,
            },
    {
        reveal(simple_approval);
        match self.take_stage() {
            SimpleStage::AwaitApproval(call, arguments) => {
                self.ledger.result.push_approval(
                    ApprovalRecord::new(call.id.as_str(), call.tool_id.as_str(), granted, reason),
                );
                if granted {
                    self.stage = SimpleStage::AwaitExecution(call, arguments);
                    return SimpleAction::Execute;
                }
                let text = join2("approval denied: ", reason);
                self.refuse(&call, text.as_str(), "approval denied");
                self.next(tools, request)
            },
            stage => self.misplaced(stage),
        }
    }

    /// The tool returned, or failed.
    pub fn returned(
        &mut self,
        tools: &Vec<RegisteredTool>,
        request: &RunRequest,
        outcome: Result<ToolResult, HarnessError>,
    ) -> (action: SimpleAction)
        ensures
            match old(self)@.stage {
                SimpleStageModel::AwaitExecution(call, _) => (final(self)@, action)
                    == simple_execution(
                    old(self)@.at(SimpleStageModel::Done),
                    tools@,
                    request,
                    call,
                    match outcome {
                        Ok(result) => Ok(result@),
                        Err(error) => Err(error@),
                    },
                ),
                _ => final(self)@ == old(self)@ && action == SimpleAction::Misplaced,
            },
    {
        reveal(simple_execution);
        match self.take_stage() {
            SimpleStage::AwaitExecution(call, _) => {
                let result = match outcome {
                    Ok(result) => result,
                    Err(error) => {
                        self.ledger.push_error(error.run_error());
                        let text = error.to_text();
                        ToolResult::failure(text.as_str())
                    },
                };
                self.ledger.report_completion(&call, result.ok);
                self.push_message(Message::tool(call.id.as_str(), &result));
                self.next(tools, request)
            },
            stage => self.misplaced(stage),
        }
    }

    /// The call at hand and its arguments.
    pub fn call(&self) -> (result: Option<(&ToolCall, &Json)>)
        ensures
            match self@.stage {
                SimpleStageModel::AwaitPolicy(call, arguments) => result matches Some(pair)
                    && pair.0@ == call && pair.1@ == arguments,
                SimpleStageModel::AwaitApproval(call, arguments) => result matches Some(pair)
                    && pair.0@ == call && pair.1@ == arguments,
                SimpleStageModel::AwaitExecution(call, arguments) => result matches Some(pair)
                    && pair.0@ == call && pair.1@ == arguments,
                _ => result is None,
            },
    {
        match &self.stage {
            SimpleStage::AwaitPolicy(call, arguments) => Some((call, arguments)),
            SimpleStage::AwaitApproval(call, arguments) => Some((call, arguments)),
            SimpleStage::AwaitExecution(call, arguments) => Some((call, arguments)),
            _ => None,
        }
    }

    /// The conversation so far.
    pub fn messages(&self) -> (result: &Vec<Message>)
        ensures
            messages_view(result@) == self@.messages,
    {
        &self.messages
    }

    /// Ends the run: its duration and its status are recorded.
    pub fn finish(self, duration_ms: u64) -> (ledger: RunLedger)
        ensures
            ledger@ == crate::lifecycle::direct_finished(
                self@.ledger,
                self@.model_calls,
                None,
                false,
                duration_ms,
            ),
    {
        let mut ledger = self.ledger;
        ledger.result.duration_ms = duration_ms;
        let status = ledger.result.status;
        ledger.emit(RunEvent::Completed { status });
        ledger
    }
}

} // verus!
