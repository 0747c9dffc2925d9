//! Agents, run requests and run results.

use crate::error::{run_errors, HarnessError, RunError};
use crate::json::Json;
use crate::limits::AgentLimits;
use crate::message::{
    copy_messages, messages_view, plain_message, Message, MessageModel, MessageRole,
};
use crate::policy::{approvals_view, decisions_view, ApprovalRecord, PolicyDecision};
use crate::text::{blank, is_blank, same_text, text_option, whitespace};
use crate::tool::{calls_view, ToolCall};
use vstd::prelude::*;

verus! {

/// Strategy identifier used by planning and evaluation contracts.
#[derive(Clone, Copy, Debug, PartialEq, Eq, Hash, Structural)]
pub enum RunStrategy {
    /// Adaptive strategy selection.
    Adaptive,
    /// Direct model-and-tool execution.
    Direct,
    /// Declarative plan execution.
    DeclarativePlan,
    /// Programmatic orchestration.
    Programmatic,
}

/// Terminal status of a run.
#[derive(Clone, Copy, Debug, PartialEq, Eq, Structural)]
#[non_exhaustive]
pub enum RunStatus {
    /// The run produced its output.
    Completed,
    /// The run failed.
    Failed,
    /// The run was cancelled.
    Cancelled,
    /// The run reached a limit.
    LimitReached,
}

/// An agent and its runtime defaults.
#[derive(Clone, Debug, PartialEq, Eq)]
pub struct AgentDefinition {
    /// Stable identifier for the agent.
    pub id: String,
    /// Human-readable agent name.
    pub name: String,
    /// Application-defined agent version.
    pub version: String,
    /// System instructions supplied to the model.
    pub system_instructions: String,
    /// Default model identifier used for runs.
    pub default_model: String,
    /// Tool IDs the agent may use.
    pub tool_allowlist: Vec<String>,
    /// Resource and payload limits for runs.
    pub limits: AgentLimits,
    /// Optional JSON schema for validating final output.
    pub output_schema: Option<Json>,
    /// Application-defined agent metadata.
    pub metadata: Json,
}

impl AgentDefinition {
    /// Creates an agent with default limits, no tools and no output schema.
    pub fn new(id: &str, name: &str, version: &str, default_model: &str) -> (result:
        AgentDefinition)
        ensures
            result.id@ == id@,
            result.name@ == name@,
            result.version@ == version@,
            result.system_instructions@ == ""@,
            result.default_model@ == default_model@,
            result.tool_allowlist@ == Seq::<String>::empty(),
            AgentLimits::default.ensures((), result.limits),
            result.output_schema is None,
            result.metadata is Object,
            result.metadata->Object_0@ == Seq::<(String, Json)>::empty(),
    {
        AgentDefinition {
            id: id.to_owned(),
            name: name.to_owned(),
            version: version.to_owned(),
            system_instructions: "".to_owned(),
            default_model: default_model.to_owned(),
            tool_allowlist: Vec::new(),
            limits: AgentLimits::default(),
            output_schema: None,
            metadata: Json::Object(Vec::new()),
        }
    }
}

/// What a run replaces of its agent's defaults.
#[derive(Clone, Debug, PartialEq, Eq)]
pub struct RunOverrides {
    /// Model identifier to use.
    pub model: Option<String>,
}

/// One run of an agent.
#[derive(Clone, Debug, PartialEq, Eq)]
pub struct RunRequest {
    /// The agent.
    pub agent: AgentDefinition,
    /// The user's input.
    pub input: String,
    /// Application-defined context.
    pub application_context: Json,
    /// Earlier messages of the conversation.
    pub history: Vec<Message>,
    /// Application-defined request metadata.
    pub metadata: Json,
    /// What the run replaces of its agent's defaults.
    pub overrides: RunOverrides,
    /// Application-defined evaluation metadata.
    pub evaluation: Json,
    /// Application-visible run identifier.
    pub run_id: Option<String>,
    /// Application-visible trace identifier.
    pub trace_id: Option<String>,
}

impl RunRequest {
    /// Creates a request without history, metadata or overrides.
    pub fn new(agent: AgentDefinition, input: &str) -> (result: RunRequest)
        ensures
            result.agent == agent,
            result.input@ == input@,
            result.application_context is Object,
            result.application_context->Object_0@ == Seq::<(String, Json)>::empty(),
            result.history@ == Seq::<Message>::empty(),
            result.metadata is Object,
            result.metadata->Object_0@ == Seq::<(String, Json)>::empty(),
            result.overrides.model is None,
            result.evaluation is Object,
            result.evaluation->Object_0@ == Seq::<(String, Json)>::empty(),
            result.run_id is None,
            result.trace_id is None,
    {
        RunRequest {
            agent,
            input: input.to_owned(),
            application_context: Json::Object(Vec::new()),
            history: Vec::new(),
            metadata: Json::Object(Vec::new()),
            overrides: RunOverrides { model: None },
            evaluation: Json::Object(Vec::new()),
            run_id: None,
            trace_id: None,
        }
    }

    /// Supplies the run identifier.
    pub fn with_run_id(self, run_id: &str) -> (result: RunRequest)
        ensures
            text_option(result.run_id) == Some(run_id@),
            result == (RunRequest { run_id: result.run_id, ..self }),
    {
        let mut result = self;
        result.run_id = Some(run_id.to_owned());
        result
    }

    /// Supplies the trace identifier.
    pub fn with_trace_id(self, trace_id: &str) -> (result: RunRequest)
        ensures
            text_option(result.trace_id) == Some(trace_id@),
            result == (RunRequest { trace_id: result.trace_id, ..self }),
    {
        let mut result = self;
        result.trace_id = Some(trace_id.to_owned());
        result
    }

    /// The model that the run uses: the override, else the agent's default.
    pub open spec fn selected_model(&self) -> Seq<char> {
        match self.overrides.model {
            Some(model) => model@,
            None => self.agent.default_model@,
        }
    }

    /// The model that the run uses.
    pub fn model(&self) -> (result: String)
        ensures
            result@ == self.selected_model(),
    {
        match &self.overrides.model {
            Some(model) => model.clone(),
            None => self.agent.default_model.clone(),
        }
    }

    /// The conversation that a run starts with: the system instructions unless they are
    /// blank, the history, and the input.
    pub open spec fn opening(&self) -> Seq<MessageModel> {
        (if blank(self.agent.system_instructions@) {
            Seq::empty()
        } else {
            seq![plain_message(MessageRole::System, self.agent.system_instructions@)]
        }) + messages_view(self.history@) + seq![plain_message(MessageRole::User, self.input@)]
    }

    /// The conversation that a run starts with.
    pub fn initial_messages(&self) -> (result: Vec<Message>)
        ensures
            messages_view(result@) == self.opening(),
    {
        let mut messages: Vec<Message> = Vec::new();
        if !is_blank(self.agent.system_instructions.as_str()) {
            messages.push(Message::system(self.agent.system_instructions.as_str()));
        }
        let ghost head = messages_view(messages@);
        let mut history = copy_messages(&self.history);
        let ghost tail = messages_view(history@);
        messages.append(&mut history);
        assert(messages_view(messages@) =~= head + tail);
        messages.push(Message::user(self.input.as_str()));
        assert(messages_view(messages@) =~= self.opening());
        messages
    }
}

/// A conversation opens with the system instructions, unless they are blank, goes on with the whole
/// history in its order, and ends with the input, as a message of the user. It holds nothing else.
pub proof fn conversations_open_with_the_history(request: &RunRequest)
    ensures
        ({
            let opening = request.opening();
            let told = exists|i: int|
                0 <= i < request.agent.system_instructions@.len() && !whitespace(
                    #[trigger] request.agent.system_instructions@[i],
                );
            let head: int = if told {
                1
            } else {
                0
            };
            &&& opening.len() == head + request.history@.len() + 1
            &&& told ==> opening[0].role == MessageRole::System && opening[0].content
                == request.agent.system_instructions@ && opening[0].tool_call_id is None
                && opening[0].tool_calls.len() == 0
            &&& forall|i: int|
                #![trigger request.history@[i]]
                0 <= i < request.history@.len() ==> opening[head + i] == request.history@[i]@
            &&& opening.last().role == MessageRole::User
            &&& opening.last().content == request.input@
            &&& opening.last().tool_call_id is None && opening.last().tool_calls.len() == 0
        }),
{
    let opening = request.opening();
    assert(blank(request.agent.system_instructions@) <==> !(exists|i: int|
        0 <= i < request.agent.system_instructions@.len() && !whitespace(
            #[trigger] request.agent.system_instructions@[i],
        )));
    let head: int = if blank(request.agent.system_instructions@) {
        0
    } else {
        1
    };
    assert forall|i: int|
        #![trigger request.history@[i]]
        0 <= i < request.history@.len() implies opening[head + i] == request.history@[i]@ by {
        assert(messages_view(request.history@)[i] == request.history@[i]@);
    }
}

/// Outcome of one run.
#[derive(Clone, Debug, PartialEq, Eq)]
#[non_exhaustive]
pub struct RunResult {
    /// Run identifier.
    pub id: String,
    /// Terminal status.
    pub status: RunStatus,
    /// Final output, where there is one.
    pub final_output: Option<String>,
    /// Model that the run used.
    pub model: String,
    /// Calls that the run evaluated.
    pub tool_calls: Vec<ToolCall>,
    /// Policy decisions, in order.
    pub policy_decisions: Vec<PolicyDecision>,
    /// Approvals, in order.
    pub approvals: Vec<ApprovalRecord>,
    /// Errors, in order.
    pub errors: Vec<RunError>,
    /// Elapsed time in milliseconds.
    pub duration_ms: u64,
    /// Trace identifier.
    pub trace_id: String,
    /// Whether the run stopped at its model-call limit.
    pub model_call_limit_reached: bool,
    /// Whether the run stopped at its tool-call limit.
    pub tool_call_limit_reached: bool,
    /// Whether the run stopped at its limit of identical tool calls.
    pub repeated_tool_call_limit_reached: bool,
    /// Whether the run was cancelled.
    pub cancelled: bool,
}

/// The model of a run result.
pub struct RunResultModel {
    /// Run identifier.
    pub id: Seq<char>,
    /// Terminal status.
    pub status: RunStatus,
    /// Final output, where there is one.
    pub final_output: Option<Seq<char>>,
    /// Model that the run used.
    pub model: Seq<char>,
    /// Calls that the run evaluated.
    pub tool_calls: Seq<ToolCall<Seq<char>>>,
    /// Policy decisions, in order.
    pub policy_decisions: Seq<PolicyDecision<Seq<char>>>,
    /// Approvals, in order.
    pub approvals: Seq<ApprovalRecord<Seq<char>>>,
    /// Errors, in order.
    pub errors: Seq<RunError<Seq<char>>>,
    /// Elapsed time in milliseconds.
    pub duration_ms: u64,
    /// Trace identifier.
    pub trace_id: Seq<char>,
    /// Whether the run stopped at its model-call limit.
    pub model_call_limit_reached: bool,
    /// Whether the run stopped at its tool-call limit.
    pub tool_call_limit_reached: bool,
    /// Whether the run stopped at its limit of identical tool calls.
    pub repeated_tool_call_limit_reached: bool,
    /// Whether the run was cancelled.
    pub cancelled: bool,
}

impl View for RunResult {
    type V = RunResultModel;

    open spec fn view(&self) -> RunResultModel {
        RunResultModel {
            id: self.id@,
            status: self.status,
            final_output: text_option(self.final_output),
            model: self.model@,
            tool_calls: calls_view(self.tool_calls@),
            policy_decisions: decisions_view(self.policy_decisions@),
            approvals: approvals_view(self.approvals@),
            errors: run_errors(self.errors@),
            duration_ms: self.duration_ms,
            trace_id: self.trace_id@,
            model_call_limit_reached: self.model_call_limit_reached,
            tool_call_limit_reached: self.tool_call_limit_reached,
            repeated_tool_call_limit_reached: self.repeated_tool_call_limit_reached,
            cancelled: self.cancelled,
        }
    }
}

/// A result in which nothing has happened yet.
pub open spec fn fresh_result(
    id: Seq<char>,
    status: RunStatus,
    model: Seq<char>,
    trace_id: Seq<char>,
) -> RunResultModel {
    RunResultModel {
        id,
        status,
        final_output: None,
        model,
        tool_calls: Seq::empty(),
        policy_decisions: Seq::empty(),
        approvals: Seq::empty(),
        errors: Seq::empty(),
        duration_ms: 0,
        trace_id,
        model_call_limit_reached: false,
        tool_call_limit_reached: false,
        repeated_tool_call_limit_reached: false,
        cancelled: false,
    }
}

/// The status that an error ends a run with.
pub open spec fn terminal_status(error: HarnessError<Seq<char>>) -> RunStatus {
    match error {
        HarnessError::Cancelled => RunStatus::Cancelled,
        HarnessError::ResourceLimit(_) => RunStatus::LimitReached,
        _ => RunStatus::Failed,
    }
}

/// Errors but those of one code.
pub open spec fn errors_without(errors: Seq<RunError<Seq<char>>>, code: Seq<char>) -> Seq<
    RunError<Seq<char>>,
>
    decreases errors.len(),
{
    if errors.len() == 0 {
        Seq::empty()
    } else {
        let before = errors_without(errors.drop_last(), code);
        if errors.last().code == code {
            before
        } else {
            before.push(errors.last())
        }
    }
}

impl RunResultModel {
    /// The result with one more error.
    pub open spec fn with_error(self, error: RunError<Seq<char>>) -> RunResultModel {
        RunResultModel { errors: self.errors.push(error), ..self }
    }

    /// The result that an error ended.
    pub open spec fn ended_by(self, error: HarnessError<Seq<char>>) -> RunResultModel {
        RunResultModel {
            status: terminal_status(error),
            cancelled: error is Cancelled,
            errors: self.errors.push(error.recorded()),
            ..self
        }
    }

    /// The result of a run that stopped at its model-call limit.
    pub open spec fn at_model_call_limit(self) -> RunResultModel {
        RunResultModel {
            status: RunStatus::LimitReached,
            model_call_limit_reached: true,
            errors: self.errors.push(
                RunError { code: "model_call_limit"@, message: "model call limit reached"@ },
            ),
            ..self
        }
    }

    /// The result of a run that stopped at its tool-call limit.
    pub open spec fn at_tool_call_limit(self) -> RunResultModel {
        RunResultModel {
            status: RunStatus::LimitReached,
            tool_call_limit_reached: true,
            errors: self.errors.push(
                RunError { code: "tool_call_limit"@, message: "tool call limit reached"@ },
            ),
            ..self
        }
    }

    /// The result of a run that stopped at its limit of identical tool calls.
    pub open spec fn at_repeated_call_limit(self) -> RunResultModel {
        RunResultModel {
            status: RunStatus::LimitReached,
            repeated_tool_call_limit_reached: true,
            errors: self.errors.push(
                RunError {
                    code: "repeated_tool_call_limit"@,
                    message: "repeated identical tool call limit reached"@,
                },
            ),
            ..self
        }
    }

    /// The result of a run that produced its output.
    pub open spec fn completed(self, output: Seq<char>) -> RunResultModel {
        RunResultModel { status: RunStatus::Completed, final_output: Some(output), ..self }
    }
}

impl RunResult {
    /// Creates a result in which nothing has happened yet.
    pub fn new(id: &str, status: RunStatus, model: &str, trace_id: &str) -> (result: RunResult)
        ensures
            result@ == fresh_result(id@, status, model@, trace_id@),
    {
        let result = RunResult {
            id: id.to_owned(),
            status,
            final_output: None,
            model: model.to_owned(),
            tool_calls: Vec::new(),
            policy_decisions: Vec::new(),
            approvals: Vec::new(),
            errors: Vec::new(),
            duration_ms: 0,
            trace_id: trace_id.to_owned(),
            model_call_limit_reached: false,
            tool_call_limit_reached: false,
            repeated_tool_call_limit_reached: false,
            cancelled: false,
        };
        assert(result@.tool_calls =~= Seq::empty());
        assert(result@.policy_decisions =~= Seq::empty());
        assert(result@.approvals =~= Seq::empty());
        assert(result@.errors =~= Seq::empty());
        result
    }

    /// Records one error.
    pub fn push_error(&mut self, error: RunError)
        ensures
            final(self)@ == old(self)@.with_error(error@),
    {
        let ghost before = self@.errors;
        self.errors.push(error);
        assert(run_errors(self.errors@) =~= before.push(error@));
    }

    /// Forgets the errors of one code.
    pub fn forget_errors(&mut self, code: &str)
        ensures
            final(self)@ == (RunResultModel {
                errors: errors_without(old(self)@.errors, code@),
                ..old(self)@
            }),
    {
        let ghost all = self@.errors;
        let mut kept: Vec<RunError> = Vec::new();
        let mut i: usize = 0;
        assert(all.take(0) =~= Seq::empty());
        assert(run_errors(kept@) =~= Seq::empty());
        while i < self.errors.len()
            invariant
                i <= self.errors@.len(),
                all == run_errors(self.errors@),
                run_errors(kept@) == errors_without(all.take(i as int), code@),
            decreases self.errors@.len() - i,
        {
            let error = &self.errors[i];
            let ghost before = run_errors(kept@);
            proof {
                assert(all.take(i + 1).drop_last() =~= all.take(i as int));
                assert(all.take(i + 1).last() == error@);
            }
            if !same_text(error.code.as_str(), code) {
                let copy = RunError::new(error.code.as_str(), error.message.as_str());
                kept.push(copy);
                assert(run_errors(kept@) =~= before.push(error@));
            }
            i += 1;
        }
        assert(all.take(i as int) =~= all);
        self.errors = kept;
    }

    /// Ends the run with an error.
    pub fn apply_terminal_error(&mut self, error: &HarnessError)
        ensures
            final(self)@ == old(self)@.ended_by(error@),
    {
        self.status = match error {
            HarnessError::Cancelled => RunStatus::Cancelled,
            HarnessError::ResourceLimit(_) => RunStatus::LimitReached,
            _ => RunStatus::Failed,
        };
        self.cancelled = matches!(error, HarnessError::Cancelled);
        self.push_error(error.run_error());
    }

    /// Stops the run at its model-call limit.
    pub fn stop_at_model_call_limit(&mut self)
        ensures
            final(self)@ == old(self)@.at_model_call_limit(),
    {
        self.status = RunStatus::LimitReached;
        self.model_call_limit_reached = true;
        self.push_error(RunError::new("model_call_limit", "model call limit reached"));
    }

    /// Stops the run at its tool-call limit.
    pub fn stop_at_tool_call_limit(&mut self)
        ensures
            final(self)@ == old(self)@.at_tool_call_limit(),
    {
        self.status = RunStatus::LimitReached;
        self.tool_call_limit_reached = true;
        self.push_error(RunError::new("tool_call_limit", "tool call limit reached"));
    }

    /// Stops the run at its limit of identical tool calls.
    pub fn stop_at_repeated_call_limit(&mut self)
        ensures
            final(self)@ == old(self)@.at_repeated_call_limit(),
    {
        self.status = RunStatus::LimitReached;
        self.repeated_tool_call_limit_reached = true;
        self.push_error(
            RunError::new(
                "repeated_tool_call_limit",
                "repeated identical tool call limit reached",
            ),
        );
    }

    /// Ends the run with its output.
    pub fn complete(&mut self, output: &str)
        ensures
            final(self)@ == old(self)@.completed(output@),
    {
        self.status = RunStatus::Completed;
        self.final_output = Some(output.to_owned());
    }

    /// Records one evaluated call.
    pub fn push_call(&mut self, call: ToolCall)
        ensures
            final(self)@ == (RunResultModel {
                tool_calls: old(self)@.tool_calls.push(call@),
                ..old(self)@
            }),
    {
        let ghost before = self@.tool_calls;
        self.tool_calls.push(call);
        assert(calls_view(self.tool_calls@) =~= before.push(call@));
    }

    /// Records one policy decision.
    pub fn push_decision(&mut self, decision: PolicyDecision)
        ensures
            final(self)@ == (RunResultModel {
                policy_decisions: old(self)@.policy_decisions.push(decision@),
                ..old(self)@
            }),
    {
        let ghost before = self@.policy_decisions;
        self.policy_decisions.push(decision);
        assert(decisions_view(self.policy_decisions@) =~= before.push(decision@));
    }

    /// Records one approval.
    pub fn push_approval(&mut self, approval: ApprovalRecord)
        ensures
            final(self)@ == (RunResultModel {
                approvals: old(self)@.approvals.push(approval@),
                ..old(self)@
            }),
    {
        let ghost before = self@.approvals;
        self.approvals.push(approval);
        assert(approvals_view(self.approvals@) =~= before.push(approval@));
    }
}

} // verus!
