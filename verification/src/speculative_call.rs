//! A tool call issued before its model response is complete, from its first check to the
//! moment its result is published or dropped.

use crate::admission::{
    dispatched, execution_recorded, mark_dispatched, probe_passes, record_execution,
    speculation_permitted, BrokerExecution, ExecutionModel, PreparedCall, PreparedModel, ToolBroker,
};
use crate::agent::RunRequest;
use crate::broker::{invocation_key, InvocationKey};
use crate::error::HarnessError;
use crate::json::{depth, parse_json, parsed_json, render_json, rendered_json, Json, JsonTree};
use crate::ledger::{LedgerModel, RunLedger};
use crate::limits::AgentLimits;
use crate::policy::PolicyDecision;
use crate::registry::{
    arguments_fault, find_tool, output_fault, registered, validate_arguments, validate_output,
    RegisteredTool, ToolScope,
};
use crate::speculation::{
    ControllerModel, PreIssueSkipReason, SpeculationConfig, SpeculationController, SpeculationMode,
    SpeculativeResolution, ToolModel,
};
use crate::stream_turn::touched;
use crate::text::{byte_len, same_text, utf8_len};
use crate::tool::{ToolCall, ToolCallContext, ToolCaller, ToolResult, ToolResultModel};
use vstd::prelude::*;

verus! {

/// A candidate that passed every check so far.
pub struct SpeculativePreparedCall {
    /// The call, with canonical arguments.
    pub call: ToolCall,
    /// The parsed arguments.
    pub arguments: Json,
    /// Identity of the call.
    pub key: InvocationKey,
    /// Number of the registration that the candidate was prepared for.
    pub serial: u64,
    /// Version of the catalog that the candidate was prepared for: how many tools it held.
    pub catalog_version: u64,
    /// Number of the model call that proposed the candidate.
    pub model_call_number: u32,
    /// Where the call came from.
    pub context: ToolCallContext,
}

/// The model of a prepared candidate.
pub struct SpeculativeModel {
    /// The call, with canonical arguments.
    pub call: ToolCall<Seq<char>>,
    /// The parsed arguments.
    pub arguments: JsonTree,
    /// Identity of the call.
    pub key: InvocationKey<Seq<char>>,
    /// Number of the registration that the candidate was prepared for.
    pub serial: u64,
    /// Version of the catalog that the candidate was prepared for: how many tools it held.
    pub catalog_version: u64,
    /// Number of the model call that proposed the candidate.
    pub model_call_number: u32,
    /// Where the call came from.
    pub context: ToolCallContext<Seq<char>>,
}

impl View for SpeculativePreparedCall {
    type V = SpeculativeModel;

    open spec fn view(&self) -> SpeculativeModel {
        SpeculativeModel {
            call: self.call@,
            arguments: self.arguments@,
            key: self.key@,
            serial: self.serial,
            catalog_version: self.catalog_version,
            model_call_number: self.model_call_number,
            context: self.context@,
        }
    }
}

/// Whether a prepared candidate still is what it was prepared as.
pub open spec fn candidate_live(
    tools: Seq<RegisteredTool>,
    scope: &ToolScope,
    request: &RunRequest,
    prepared: SpeculativeModel,
) -> bool {
    match registered(tools, prepared.call.tool_id) {
        Some(tool) => {
            &&& prepared.catalog_version == tools.len()
            &&& tool.serial == prepared.serial
            &&& prepared.key == invocation_key(prepared.call.tool_id, prepared.arguments)
            &&& speculation_permitted(tool, scope, request, prepared.call.tool_id)
        },
        None => false,
    }
}

/// The first checks of a candidate.
pub open spec fn speculation_start(
    tools: Seq<RegisteredTool>,
    scope: &ToolScope,
    request: &RunRequest,
    active: bool,
    call: ToolCall<Seq<char>>,
    model_call_number: u32,
    run_id: Seq<char>,
    trace_id: Seq<char>,
) -> Result<SpeculativeModel, PreIssueSkipReason> {
    let limits = request.agent.limits;
    if !active || !probe_passes(tools, request, call.tool_id, call.arguments_json) {
        Err(PreIssueSkipReason::Validation)
    } else {
        let arguments = parsed_json(call.arguments_json)->Ok_0;
        let text = rendered_json(arguments);
        if utf8_len(text) > limits.max_tool_arguments_bytes {
            Err(PreIssueSkipReason::Validation)
        } else {
            match registered(tools, call.tool_id) {
                None => Err(PreIssueSkipReason::Invalidated),
                Some(tool) => if !speculation_permitted(tool, scope, request, call.tool_id) {
                    Err(PreIssueSkipReason::Invalidated)
                } else {
                    Ok(
                        SpeculativeModel {
                            call: ToolCall { arguments_json: text, ..call },
                            arguments,
                            key: invocation_key(call.tool_id, arguments),
                            serial: tool.serial,
                            catalog_version: tools.len() as u64,
                            model_call_number,
                            context: ToolCallContext {
                                run_id,
                                trace_id,
                                call_id: call.id,
                                tool_id: call.tool_id,
                                caller: Some(ToolCaller::Speculative),
                                program_attempt: None,
                                static_call_site: None,
                                dynamic_ordinal: None,
                                effect_key: None,
                            },
                        },
                    )
                },
            }
        }
    }
}

/// Why a candidate whose check failed with an error is skipped.
pub open spec fn skip_for(error: HarnessError<Seq<char>>) -> PreIssueSkipReason {
    if error is Cancelled || error is TimedOut {
        PreIssueSkipReason::Aborted
    } else {
        PreIssueSkipReason::Failed
    }
}

/// Why a candidate whose check failed with an error is skipped.
pub fn skip_reason_for(error: &HarnessError) -> (result: PreIssueSkipReason)
    ensures
        result == skip_for(error@),
{
    if matches!(error, HarnessError::Cancelled | HarnessError::TimedOut(_)) {
        PreIssueSkipReason::Aborted
    } else {
        PreIssueSkipReason::Failed
    }
}

/// What the ordinary policy means for a candidate: only an allowed call may be issued early,
/// and none that needs approval.
pub fn after_ordinary_policy(decision: &PolicyDecision) -> (result: Option<PreIssueSkipReason>)
    ensures
        result == (if decision@ is Allow {
            None
        } else {
            Some(PreIssueSkipReason::Policy)
        }),
{
    if matches!(decision, PolicyDecision::Allow { .. }) {
        None
    } else {
        Some(PreIssueSkipReason::Policy)
    }
}

/// What the dedicated policy means for a candidate.
pub fn after_speculative_policy(decision: &PolicyDecision, active: bool) -> (result: Option<
    PreIssueSkipReason,
>)
    ensures
        result == (if !(decision@ is Allow) {
            Some(PreIssueSkipReason::Policy)
        } else if !active {
            Some(PreIssueSkipReason::Invalidated)
        } else {
            None
        }),
{
    if !matches!(decision, PolicyDecision::Allow { .. }) {
        Some(PreIssueSkipReason::Policy)
    } else if !active {
        Some(PreIssueSkipReason::Invalidated)
    } else {
        None
    }
}

/// What trying for the concurrency key means for a candidate: it never waits for one.
pub fn after_key_attempt(acquired: &Result<bool, HarnessError>) -> (result: Option<
    PreIssueSkipReason,
>)
    ensures
        result == (match *acquired {
            Ok(true) => None::<PreIssueSkipReason>,
            Ok(false) => Some(PreIssueSkipReason::KeySaturated),
            Err(_) => Some(PreIssueSkipReason::Failed),
        }),
{
    match acquired {
        Ok(held) => if *held {
            None
        } else {
            Some(PreIssueSkipReason::KeySaturated)
        },
        Err(_) => Some(PreIssueSkipReason::Failed),
    }
}

impl<'a> ToolBroker<'a> {
    /// Makes the first checks of a candidate.
    pub fn begin_speculation(
        &self,
        request: &RunRequest,
        active: bool,
        call: &ToolCall,
        model_call_number: u32,
        run_id: &str,
        trace_id: &str,
    ) -> (result: Result<SpeculativePreparedCall, PreIssueSkipReason>)
        ensures
            (match result {
                Ok(prepared) => Ok::<_, PreIssueSkipReason>(prepared@),
                Err(reason) => Err(reason),
            }) == speculation_start(
                self.tools@,
                self.scope,
                request,
                active,
                call@,
                model_call_number,
                run_id@,
                trace_id@,
            ),
    {
        let limits = &request.agent.limits;
        if !active || byte_len(call.arguments_json.as_str()) as u64
            > limits.max_tool_arguments_bytes {
            return Err(PreIssueSkipReason::Validation);
        }
        let arguments = match parse_json(call.arguments_json.as_str()) {
            Ok(arguments) => arguments,
            Err(_) => return Err(PreIssueSkipReason::Validation),
        };
        if !arguments.fits_depth(limits.max_json_depth) || validate_arguments(
            self.tools,
            call.tool_id.as_str(),
            &arguments,
        ).is_err() {
            return Err(PreIssueSkipReason::Validation);
        }
        let text = render_json(&arguments);
        if byte_len(text.as_str()) as u64 > limits.max_tool_arguments_bytes {
            return Err(PreIssueSkipReason::Validation);
        }
        let tool = match find_tool(self.tools, call.tool_id.as_str()) {
            Some(tool) => tool,
            None => return Err(PreIssueSkipReason::Invalidated),
        };
        if !self.speculative_metadata_is_live(request, call.tool_id.as_str(), tool) {
            return Err(PreIssueSkipReason::Invalidated);
        }
        let mut context = ToolCallContext::new(
            run_id,
            trace_id,
            call.id.as_str(),
            call.tool_id.as_str(),
        );
        context.caller = Some(ToolCaller::Speculative);
        Ok(
            SpeculativePreparedCall {
                call: call.with_arguments(text.as_str()),
                key: InvocationKey::new(call.tool_id.as_str(), &arguments),
                arguments,
                serial: tool.serial,
                catalog_version: self.tools.len() as u64,
                model_call_number,
                context,
            },
        )
    }

    /// Whether a prepared candidate still is what it was prepared as.
    pub fn speculative_prepared_is_live(
        &self,
        request: &RunRequest,
        prepared: &SpeculativePreparedCall,
    ) -> (result: bool)
        ensures
            result == candidate_live(self.tools@, self.scope, request, prepared@),
    {
        match find_tool(self.tools, prepared.call.tool_id.as_str()) {
            Some(tool) => prepared.catalog_version == self.tools.len() as u64 && tool.serial == prepared.serial
                && prepared.key.same(
                &InvocationKey::new(prepared.call.tool_id.as_str(), &prepared.arguments),
            ) && self.speculative_metadata_is_live(
                request,
                prepared.call.tool_id.as_str(),
                tool,
            ),
            None => false,
        }
    }
}

/// The model of the bookkeeping of one issued candidate.
pub struct LeaseModel {
    /// Identifier of the tool.
    pub tool_id: Seq<char>,
    /// When it was dispatched, in milliseconds.
    pub started_at: u64,
    /// When the tool returned, in milliseconds.
    pub finished_at: Option<u64>,
    /// Whether its duration was counted.
    pub duration_recorded: bool,
    /// How it counts if it is dropped.
    pub drop_resolution: SpeculativeResolution,
    /// Whether its outcome was counted.
    pub settled: bool,
}

/// The time from `since` to `now`, never negative.
pub open spec fn elapsed(since: u64, now: u64) -> u64 {
    if since < now {
        (now - since) as u64
    } else {
        0
    }
}

impl LeaseModel {
    /// How long the result has been waiting.
    pub open spec fn waiting(self, now: u64) -> Option<u64> {
        match self.finished_at {
            Some(finished) => Some(elapsed(finished, now)),
            None => None,
        }
    }

    /// The controller with the duration counted, once.
    pub open spec fn with_duration(self, controller: ControllerModel, now: u64) -> ControllerModel {
        if self.duration_recorded {
            controller
        } else {
            touched(
                controller,
                self.tool_id,
                |state: ToolModel| state.executed(elapsed(self.started_at, now)),
            )
        }
    }

    /// The bookkeeping once the outcome was counted.
    pub open spec fn ended(self) -> LeaseModel {
        if self.settled {
            self
        } else {
            LeaseModel { duration_recorded: true, settled: true, ..self }
        }
    }

    /// The controller with the outcome counted, once.
    pub open spec fn with_outcome(
        self,
        controller: ControllerModel,
        resolution: SpeculativeResolution,
        now: u64,
    ) -> ControllerModel {
        if self.settled {
            controller
        } else {
            touched(
                self.with_duration(controller, now),
                self.tool_id,
                |state: ToolModel| state.resolved(resolution, self.waiting(now)),
            )
        }
    }
}

/// The bookkeeping of one issued candidate: its duration and its outcome are each counted
/// once.
pub struct SpeculativeLease {
    tool_id: String,
    started_at: u64,
    finished_at: Option<u64>,
    duration_recorded: bool,
    drop_resolution: SpeculativeResolution,
    settled: bool,
}

impl View for SpeculativeLease {
    type V = LeaseModel;

    closed spec fn view(&self) -> LeaseModel {
        LeaseModel {
            tool_id: self.tool_id@,
            started_at: self.started_at,
            finished_at: self.finished_at,
            duration_recorded: self.duration_recorded,
            drop_resolution: self.drop_resolution,
            settled: self.settled,
        }
    }
}

impl SpeculativeLease {
    /// Begins the bookkeeping of a candidate dispatched at `now_ms`.
    pub fn new(controller: &mut SpeculationController, tool_id: &str, now_ms: u64) -> (result:
        SpeculativeLease)
        ensures
            result@ == (LeaseModel {
                tool_id: tool_id@,
                started_at: now_ms,
                finished_at: None,
                duration_recorded: false,
                drop_resolution: SpeculativeResolution::Cancelled,
                settled: false,
            }),
            final(controller)@ == touched(
                old(controller)@,
                tool_id@,
                |state: ToolModel| state.issued(now_ms),
            ),
    {
        controller.record_issue_started(tool_id, now_ms);
        SpeculativeLease {
            tool_id: tool_id.to_owned(),
            started_at: now_ms,
            finished_at: None,
            duration_recorded: false,
            drop_resolution: SpeculativeResolution::Cancelled,
            settled: false,
        }
    }

    fn record_duration(&mut self, controller: &mut SpeculationController, now_ms: u64)
        ensures
            final(self)@ == (LeaseModel { duration_recorded: true, ..old(self)@ }),
            final(controller)@ == old(self)@.with_duration(old(controller)@, now_ms),
    {
        if !self.duration_recorded {
            controller.record_execution_duration(
                self.tool_id.as_str(),
                now_ms.saturating_sub(self.started_at),
            );
            self.duration_recorded = true;
        }
    }

    /// Notes that the tool returned: from now on a drop discards the result.
    pub fn execution_finished(&mut self, controller: &mut SpeculationController, now_ms: u64)
        ensures
            final(self)@ == (LeaseModel {
                duration_recorded: true,
                finished_at: Some(now_ms),
                drop_resolution: SpeculativeResolution::Discarded,
                ..old(self)@
            }),
            final(controller)@ == old(self)@.with_duration(old(controller)@, now_ms),
    {
        self.record_duration(controller, now_ms);
        self.finished_at = Some(now_ms);
        self.drop_resolution = SpeculativeResolution::Discarded;
    }

    fn publication_wait_ms(&self, now_ms: u64) -> (result: Option<u64>)
        ensures
            result == self@.waiting(now_ms),
    {
        match self.finished_at {
            Some(finished) => Some(now_ms.saturating_sub(finished)),
            None => None,
        }
    }

    /// Ends the candidate without a commit.
    pub fn settle(
        &mut self,
        controller: &mut SpeculationController,
        resolution: SpeculativeResolution,
        now_ms: u64,
    )
        ensures
            final(self)@ == old(self)@.ended(),
            final(controller)@ == old(self)@.with_outcome(old(controller)@, resolution, now_ms),
    {
        if !self.settled {
            self.record_duration(controller, now_ms);
            let wait = self.publication_wait_ms(now_ms);
            controller.record_resolution(self.tool_id.as_str(), resolution, wait);
            self.settled = true;
        }
    }

    /// Ends a candidate that is dropped: as cancelled while the tool runs, as discarded once
    /// it returned.
    pub fn release(&mut self, controller: &mut SpeculationController, now_ms: u64)
        ensures
            final(self)@ == old(self)@.ended(),
            final(controller)@ == old(self)@.with_outcome(
                old(controller)@,
                old(self)@.drop_resolution,
                now_ms,
            ),
    {
        let resolution = self.drop_resolution;
        self.settle(controller, resolution, now_ms);
    }

    /// Commits the candidate, if it may still be.
    pub fn try_commit(
        &mut self,
        controller: &mut SpeculationController,
        now_ms: u64,
        candidate_deadline: u64,
        run_deadline: Option<u64>,
        cancelled: bool,
    ) -> (result: bool)
        ensures
            result == (!old(self)@.settled && old(controller)@.mode(old(self)@.tool_id)
                == SpeculationMode::Active && !cancelled && now_ms < candidate_deadline && (
            run_deadline matches Some(deadline) ==> now_ms < deadline)),
            final(self)@ == (if result {
                LeaseModel { settled: true, ..old(self)@ }
            } else {
                old(self)@
            }),
            final(controller)@ == (if result {
                touched(
                    old(controller)@,
                    old(self)@.tool_id,
                    |state: ToolModel| state.committed(old(self)@.waiting(now_ms)),
                )
            } else {
                old(controller)@
            }),
    {
        if self.settled {
            return false;
        }
        let wait = self.publication_wait_ms(now_ms);
        if !controller.record_commit_if_active(
            self.tool_id.as_str(),
            now_ms,
            candidate_deadline,
            run_deadline,
            cancelled,
            wait,
        ) {
            return false;
        }
        self.settled = true;
        true
    }
}

/// The outcome of a candidate is counted once, however often it is settled or dropped.
pub proof fn settled_leases_count_nothing(
    lease: LeaseModel,
    controller: ControllerModel,
    resolution: SpeculativeResolution,
    now: u64,
)
    requires
        lease.settled,
    ensures
        lease.with_outcome(controller, resolution, now) == controller,
{
}

/// What keeps a speculative result from being reused.
pub open spec fn speculative_fault(
    tools: Seq<RegisteredTool>,
    limits: AgentLimits,
    tool_id: Seq<char>,
    result: ToolResultModel,
) -> Option<HarnessError<Seq<char>>> {
    if !result.ok {
        Some(HarnessError::Tool("speculative tool returned a failure result"@))
    } else if utf8_len(result.json_text()) > limits.max_tool_result_bytes {
        Some(HarnessError::ResourceLimit("speculative tool result exceeded its byte limit"@))
    } else if depth(result.output) > limits.max_json_depth {
        Some(crate::limits::depth_error("speculative tool result"@, limits.max_json_depth))
    } else {
        output_fault(tools, tool_id, result.output)
    }
}

/// Whether the result of a candidate may be published for the authoritative call.
pub open spec fn publishable(
    tools: Seq<RegisteredTool>,
    scope: &ToolScope,
    request: &RunRequest,
    prepared: SpeculativeModel,
    result: ToolResultModel,
    authoritative: ToolCall<Seq<char>>,
    model_call_number: u32,
) -> bool {
    let limits = request.agent.limits;
    &&& prepared.model_call_number == model_call_number
    &&& prepared.call.id == authoritative.id
    &&& utf8_len(authoritative.arguments_json) <= limits.max_tool_arguments_bytes
    &&& match parsed_json(authoritative.arguments_json) {
        Ok(arguments) => {
            &&& depth(arguments) <= limits.max_json_depth
            &&& prepared.key == invocation_key(authoritative.tool_id, arguments)
            &&& candidate_live(tools, scope, request, prepared)
            &&& arguments_fault(tools, authoritative.tool_id, arguments) is None
            &&& utf8_len(result.json_text()) <= limits.max_tool_result_bytes
            &&& depth(result.output) <= limits.max_json_depth
            &&& output_fault(tools, authoritative.tool_id, result.output) is None
        },
        Err(_) => false,
    }
}

/// What a commit begins with.
pub enum CommitStart {
    /// The run stops with this error.
    Stop(HarnessError),
    /// The result is dropped; the call runs as any other.
    NotCommitted,
    /// The call is prepared as any other, and the result kept until then.
    Prepare,
}

/// The first decision of a commit.
pub open spec fn commit_start(
    config: SpeculationConfig,
    stopped: Option<HarnessError<Seq<char>>>,
    run_ends_first: bool,
    active: bool,
    publishable: bool,
) -> Result<bool, HarnessError<Seq<char>>> {
    match config.check() {
        Err(error) => Err(error),
        Ok(_) => match stopped {
            Some(error) => if error is Cancelled || run_ends_first {
                Err(error)
            } else {
                Ok(false)
            },
            None => Ok(active && publishable),
        },
    }
}

/// The view of what a commit begins with.
pub open spec fn start_view(start: CommitStart) -> Result<bool, HarnessError<Seq<char>>> {
    match start {
        CommitStart::Stop(error) => Err(error@),
        CommitStart::NotCommitted => Ok(false),
        CommitStart::Prepare => Ok(true),
    }
}

impl<'a> ToolBroker<'a> {
    /// Checks whether a speculative result may be reused.
    pub fn check_speculative_result(
        &self,
        request: &RunRequest,
        tool_id: &str,
        result: &ToolResult,
    ) -> (fault: Option<HarnessError>)
        ensures
            match fault {
                Some(error) => speculative_fault(
                    self.tools@,
                    request.agent.limits,
                    tool_id@,
                    result@,
                ) == Some(error@),
                None => speculative_fault(
                    self.tools@,
                    request.agent.limits,
                    tool_id@,
                    result@,
                ) is None,
            },
    {
        let limits = &request.agent.limits;
        if !result.ok {
            return Some(
                HarnessError::Tool("speculative tool returned a failure result".to_owned()),
            );
        }
        if byte_len(result.to_json_text().as_str()) as u64 > limits.max_tool_result_bytes {
            return Some(
                HarnessError::ResourceLimit(
                    "speculative tool result exceeded its byte limit".to_owned(),
                ),
            );
        }
        if let Err(error) = crate::limits::ensure_json_depth(
            "speculative tool result",
            &result.output,
            limits.max_json_depth,
        ) {
            return Some(error);
        }
        match validate_output(self.tools, tool_id, &result.output) {
            Ok(_) => None,
            Err(error) => Some(error),
        }
    }

    /// Whether the result of a candidate may be published for the authoritative call.
    pub fn is_publishable(
        &self,
        request: &RunRequest,
        prepared: &SpeculativePreparedCall,
        result: &ToolResult,
        authoritative: &ToolCall,
        model_call_number: u32,
    ) -> (answer: bool)
        ensures
            answer == publishable(
                self.tools@,
                self.scope,
                request,
                prepared@,
                result@,
                authoritative@,
                model_call_number,
            ),
    {
        let limits = &request.agent.limits;
        if prepared.model_call_number != model_call_number || !same_text(
            prepared.call.id.as_str(),
            authoritative.id.as_str(),
        ) || byte_len(authoritative.arguments_json.as_str()) as u64
            > limits.max_tool_arguments_bytes {
            return false;
        }
        let arguments = match parse_json(authoritative.arguments_json.as_str()) {
            Ok(arguments) => arguments,
            Err(_) => return false,
        };
        arguments.fits_depth(limits.max_json_depth) && prepared.key.same(
            &InvocationKey::new(authoritative.tool_id.as_str(), &arguments),
        ) && self.speculative_prepared_is_live(request, prepared) && validate_arguments(
            self.tools,
            authoritative.tool_id.as_str(),
            &arguments,
        ).is_ok() && byte_len(result.to_json_text().as_str()) as u64
            <= limits.max_tool_result_bytes && result.output.fits_depth(limits.max_json_depth)
            && validate_output(self.tools, authoritative.tool_id.as_str(), &result.output).is_ok()
    }

    /// Decides what a commit begins with.
    ///
    /// `stopped` is what the earlier of the two deadlines, or a cancellation, answers;
    /// `run_ends_first` says whether the run's deadline is not after the candidate's.
    pub fn begin_commit(
        &self,
        controller: &SpeculationController,
        request: &RunRequest,
        candidate: Option<(&SpeculativePreparedCall, &ToolResult)>,
        authoritative: &ToolCall,
        model_call_number: u32,
        stopped: Option<HarnessError>,
        run_ends_first: bool,
    ) -> (start: CommitStart)
        ensures
            start_view(start) == commit_start(
                controller@.config,
                match stopped {
                    Some(error) => Some(error@),
                    None => None,
                },
                run_ends_first,
                match candidate {
                    Some((prepared, _)) => controller@.mode(prepared@.call.tool_id)
                        == SpeculationMode::Active,
                    None => false,
                },
                match candidate {
                    Some((prepared, result)) => publishable(
                        self.tools@,
                        self.scope,
                        request,
                        prepared@,
                        result@,
                        authoritative@,
                        model_call_number,
                    ),
                    None => false,
                },
            ),
    {
        if let Err(error) = controller.config().validate() {
            return CommitStart::Stop(error);
        }
        if let Some(error) = stopped {
            if matches!(error, HarnessError::Cancelled) || run_ends_first {
                return CommitStart::Stop(error);
            }
            return CommitStart::NotCommitted;
        }
        match candidate {
            Some((prepared, result)) => if controller.is_active(prepared.call.tool_id.as_str())
                && self.is_publishable(
                request,
                prepared,
                result,
                authoritative,
                model_call_number,
            ) {
                CommitStart::Prepare
            } else {
                CommitStart::NotCommitted
            },
            None => CommitStart::NotCommitted,
        }
    }
}

/// What the dedicated policy means for a commit.
pub enum CommitPolicy {
    /// The run stops with this error.
    Stop(HarnessError),
    /// The result is dropped; the prepared call runs.
    ExecuteDirect,
    /// The result may be published.
    Publish,
}

/// Applies the dedicated policy to a commit. A failure of that policy does not undo the
/// ordinary authorization, unless the run itself has stopped.
pub fn commit_policy(decision: Result<PolicyDecision, HarnessError>, run_stopped: bool) -> (result:
    CommitPolicy)
    ensures
        match decision {
            Ok(decision) => if decision@ is Allow {
                result is Publish
            } else {
                result is ExecuteDirect
            },
            Err(error) => if run_stopped {
                result == CommitPolicy::Stop(error)
            } else {
                result is ExecuteDirect
            },
        },
{
    match decision {
        Ok(decision) => if matches!(decision, PolicyDecision::Allow { .. }) {
            CommitPolicy::Publish
        } else {
            CommitPolicy::ExecuteDirect
        },
        Err(error) => if run_stopped {
            CommitPolicy::Stop(error)
        } else {
            CommitPolicy::ExecuteDirect
        },
    }
}

/// How a candidate counts whose tool ended without a result.
pub fn resolution_for(error: &HarnessError) -> (result: SpeculativeResolution)
    ensures
        result == (if error@ is Cancelled || error@ is TimedOut {
            SpeculativeResolution::Cancelled
        } else {
            SpeculativeResolution::Discarded
        }),
{
    match error {
        HarnessError::Cancelled | HarnessError::TimedOut(_) => SpeculativeResolution::Cancelled,
        _ => SpeculativeResolution::Discarded,
    }
}

/// The ledger after a speculative result was published for a prepared call.
pub open spec fn published(
    ledger: LedgerModel,
    prepared: PreparedModel,
    result: ToolResultModel,
) -> LedgerModel {
    let issued = dispatched(ledger.broker, prepared);
    ledger.with_broker(
        execution_recorded(
            issued,
            prepared,
            ExecutionModel { result, validation_error: None },
        ),
    ).tool_completed(prepared.call, true)
}

/// Publishes a committed speculative result as the outcome of a prepared call.
pub fn publish_speculative(ledger: &mut RunLedger, prepared: &PreparedCall, result: &ToolResult) -> (
execution: BrokerExecution)
    requires
        old(ledger)@.broker.consistent(),
        old(ledger)@.broker.classified() < old(ledger)@.broker.tool_calls,
    ensures
        final(ledger)@ == published(old(ledger)@, prepared@, result@),
        final(ledger)@.broker.consistent(),
        old(ledger)@.broker.settled() ==> final(ledger)@.broker.settled(),
        execution@ == (ExecutionModel { result: result@, validation_error: None }),
{
    mark_dispatched(ledger, prepared);
    let execution = BrokerExecution { result: result.duplicate(), validation_error: None };
    record_execution(ledger, prepared, &execution);
    ledger.report_completion(&prepared.call, true);
    execution
}

/// The ledger after a preparation failed: a proposal that it admitted and did not decide is
/// counted.
pub open spec fn preparation_failed(
    ledger: LedgerModel,
    attempts_before: u32,
    classified_before: int,
    error: HarnessError<Seq<char>>,
) -> LedgerModel {
    if ledger.broker.tool_calls > attempts_before && ledger.broker.classified()
        == classified_before {
        ledger.with_broker(ledger.broker.ended_before_dispatch(error))
    } else {
        ledger
    }
}

/// Counts the proposal of a preparation that failed, unless it was decided already.
pub fn settle_failed_preparation(
    ledger: &mut RunLedger,
    attempts_before: u32,
    classified_before: u32,
    error: &HarnessError,
)
    requires
        old(ledger)@.broker.consistent(),
        classified_before <= attempts_before,
    ensures
        final(ledger)@ == preparation_failed(
            old(ledger)@,
            attempts_before,
            classified_before as int,
            error@,
        ),
        final(ledger)@.broker.consistent(),
{
    if ledger.broker.tool_calls > attempts_before && ledger.broker.classified_tool_calls()
        == classified_before {
        ledger.broker.record_pre_dispatch_error(error);
    }
}

} // verus!
