//! How one tool call is admitted, authorized, bound and executed.

use crate::agent::{RunRequest, RunResultModel};
use crate::broker::{
    copy_key, effect_of, effect_position, invocation_key, is_key, key_option, occurrences,
    same_calls, with_effect, BrokerModel, EffectModel, EffectRecord, InvocationKey,
};
use crate::error::{HarnessError, RunError};
use crate::event::RunEvent;
use crate::json::{depth, parse_json, parsed_json, render_json, rendered_json, Json, JsonTree};
use crate::ledger::{LedgerModel, RunLedger};
use crate::limits::{depth_check, ensure_json_depth, AgentLimits};
use crate::policy::{public_decision, public_policy_decision, ApprovalRecord, PolicyDecision};
use crate::registry::{
    arguments_fault, find_tool, output_fault, registered, validate_arguments, validate_output,
    RegisteredTool, ToolScope,
};
use crate::speculation::SpeculationController;
use crate::text::{
    byte_len, contains_text, decimal, decimal_digits, join3, same_text, texts, utf8_len,
};
use crate::tool::{
    failure_model, is_text, same_caller, CancellationSafety, ExecutionLocation, IssueSafety,
    NetworkEgress, SpeculationPolicy, ToolCall, ToolCallContext, ToolCaller, ToolResult,
    ToolResultModel,
};
use vstd::prelude::*;

verus! {

/// A validated invocation.
pub struct PreparedCall {
    /// The call, with canonical arguments.
    pub call: ToolCall,
    /// The parsed arguments.
    pub arguments: Json,
    /// Number of the registration that the call was prepared for.
    pub serial: u64,
    /// Whether the tool changes nothing.
    pub read_only: bool,
    /// Where the call came from.
    pub context: ToolCallContext,
    /// Identity of the call, once its arguments are final.
    pub signature: Option<InvocationKey>,
    /// Identity under which its effect is recorded.
    pub effect_key: Option<InvocationKey>,
    /// Who invokes the tool.
    pub caller: ToolCaller,
    /// Identity that was authorized.
    pub authorized_signature: Option<InvocationKey>,
    /// Whether the identity was counted.
    pub signature_accounted: bool,
    /// Whether the call needs approval whatever the policy says.
    pub approval_barrier: bool,
}

/// The model of a prepared call.
pub struct PreparedModel {
    /// The call, with canonical arguments.
    pub call: ToolCall<Seq<char>>,
    /// The parsed arguments.
    pub arguments: JsonTree,
    /// Number of the registration that the call was prepared for.
    pub serial: u64,
    /// Whether the tool changes nothing.
    pub read_only: bool,
    /// Where the call came from.
    pub context: ToolCallContext<Seq<char>>,
    /// Identity of the call, once its arguments are final.
    pub signature: Option<InvocationKey<Seq<char>>>,
    /// Identity under which its effect is recorded.
    pub effect_key: Option<InvocationKey<Seq<char>>>,
    /// Who invokes the tool.
    pub caller: ToolCaller,
    /// Identity that was authorized.
    pub authorized_signature: Option<InvocationKey<Seq<char>>>,
    /// Whether the identity was counted.
    pub signature_accounted: bool,
    /// Whether the call needs approval whatever the policy says.
    pub approval_barrier: bool,
}

impl View for PreparedCall {
    type V = PreparedModel;

    open spec fn view(&self) -> PreparedModel {
        PreparedModel {
            call: self.call@,
            arguments: self.arguments@,
            serial: self.serial,
            read_only: self.read_only,
            context: self.context@,
            signature: key_option(self.signature),
            effect_key: key_option(self.effect_key),
            caller: self.caller,
            authorized_signature: key_option(self.authorized_signature),
            signature_accounted: self.signature_accounted,
            approval_barrier: self.approval_barrier,
        }
    }
}

/// What became of a proposal at the broker.
pub enum Admission {
    /// The run stops at a limit.
    Stop,
    /// The proposal was refused; the model gets this result.
    Rejected(ToolResult),
    /// An identical completed effect answers the proposal.
    Reused(ToolResult),
    /// The call may run once it is authorized.
    Authorize(PreparedCall),
    /// The call is prepared; its arguments are still to be bound.
    Deferred(PreparedCall),
}

/// The model of an admission.
pub enum AdmissionModel {
    /// The run stops at a limit.
    Stop,
    /// The proposal was refused; the model gets this result.
    Rejected(ToolResultModel),
    /// An identical completed effect answers the proposal.
    Reused(ToolResultModel),
    /// The call may run once it is authorized.
    Authorize(PreparedModel),
    /// The call is prepared; its arguments are still to be bound.
    Deferred(PreparedModel),
}

impl View for Admission {
    type V = AdmissionModel;

    open spec fn view(&self) -> AdmissionModel {
        match self {
            Admission::Stop => AdmissionModel::Stop,
            Admission::Rejected(result) => AdmissionModel::Rejected(result@),
            Admission::Reused(result) => AdmissionModel::Reused(result@),
            Admission::Authorize(prepared) => AdmissionModel::Authorize(prepared@),
            Admission::Deferred(prepared) => AdmissionModel::Deferred(prepared@),
        }
    }
}

/// The view of an admission that may fail.
pub open spec fn admission_view(result: Result<Admission, HarnessError>) -> Result<
    AdmissionModel,
    HarnessError<Seq<char>>,
> {
    match result {
        Ok(admission) => Ok(admission@),
        Err(error) => Err(error@),
    }
}

/// Whether the fate of the proposal is still open.
pub open spec fn undecided(result: Result<Admission, HarnessError>) -> bool {
    match result {
        Err(_) => true,
        Ok(Admission::Authorize(_)) => true,
        Ok(Admission::Deferred(_)) => true,
        Ok(_) => false,
    }
}

/// Whether the arguments of a call could be handed to its tool.
pub open spec fn arguments_valid(
    tools: Seq<RegisteredTool>,
    scope: &ToolScope,
    request: &RunRequest,
    call: ToolCall<Seq<char>>,
    caller: ToolCaller,
) -> bool {
    &&& scope.admits(call.tool_id, caller)
    &&& utf8_len(call.arguments_json) <= request.agent.limits.max_tool_arguments_bytes
    &&& match parsed_json(call.arguments_json) {
        Ok(arguments) => {
            &&& depth(arguments) <= request.agent.limits.max_json_depth
            &&& match registered(tools, call.tool_id) {
                Some(tool) => {
                    &&& texts(request.agent.tool_allowlist@).contains(call.tool_id)
                    &&& tool.definition.permits(caller)
                    &&& arguments_fault(tools, call.tool_id, arguments) is None
                },
                None => false,
            }
        },
        Err(_) => false,
    }
}

/// A call as a transcript shows it: arguments that are not valid are left out.
pub open spec fn transcript_call(
    tools: Seq<RegisteredTool>,
    scope: &ToolScope,
    request: &RunRequest,
    call: ToolCall<Seq<char>>,
    caller: ToolCaller,
) -> ToolCall<Seq<char>> {
    if arguments_valid(tools, scope, request, call, caller) {
        call
    } else {
        ToolCall { arguments_json: "{}"@, ..call }
    }
}

/// The context of a call that its caller does not describe.
pub open spec fn own_context(
    result: RunResultModel,
    call: ToolCall<Seq<char>>,
    caller: ToolCaller,
) -> ToolCallContext<Seq<char>> {
    ToolCallContext {
        run_id: result.id,
        trace_id: result.trace_id,
        call_id: call.id,
        tool_id: call.tool_id,
        caller: Some(caller),
        program_attempt: None,
        static_call_site: None,
        dynamic_ordinal: None,
        effect_key: None,
    }
}

/// What is wrong with the context of a call.
pub open spec fn context_fault(
    context: ToolCallContext<Seq<char>>,
    result: RunResultModel,
    call: ToolCall<Seq<char>>,
    caller: ToolCaller,
) -> Option<HarnessError<Seq<char>>> {
    if context.run_id != result.id || context.trace_id != result.trace_id || context.call_id
        != call.id || context.tool_id != call.tool_id || context.caller != Some(caller) {
        Some(
            HarnessError::InvalidRequest(
                "tool call context does not match the broker occurrence"@,
            ),
        )
    } else if caller == ToolCaller::Programmatic {
        if context.program_attempt is None || context.static_call_site is None
            || context.dynamic_ordinal is None || context.effect_key != Some(call.id) {
            Some(
                HarnessError::InvalidRequest(
                    "programmatic tool context is missing occurrence provenance"@,
                ),
            )
        } else {
            None
        }
    } else if context.program_attempt is Some || context.static_call_site is Some
        || context.dynamic_ordinal is Some || context.effect_key is Some {
        Some(
            HarnessError::InvalidRequest(
                "non-programmatic tool context contains program occurrence provenance"@,
            ),
        )
    } else {
        None
    }
}

/// What a recorded effect means for an identical call.
pub enum Reuse {
    /// The call is new.
    New,
    /// The recorded result answers it.
    Recorded(ToolResult),
    /// It may not run again.
    Forbidden,
}

/// The model of a reuse decision.
pub enum ReuseModel {
    /// The call is new.
    New,
    /// The recorded result answers it.
    Recorded(ToolResultModel),
    /// It may not run again.
    Forbidden,
}

impl View for Reuse {
    type V = ReuseModel;

    open spec fn view(&self) -> ReuseModel {
        match self {
            Reuse::New => ReuseModel::New,
            Reuse::Recorded(result) => ReuseModel::Recorded(result@),
            Reuse::Forbidden => ReuseModel::Forbidden,
        }
    }
}

/// What a recorded effect means for an identical call.
pub open spec fn reuse_of(
    broker: BrokerModel,
    caller: ToolCaller,
    read_only: bool,
    key: InvocationKey<Seq<char>>,
) -> ReuseModel {
    if !broker.reuse_committed_effects || read_only || caller == ToolCaller::Programmatic {
        ReuseModel::New
    } else {
        match effect_of(broker.effects, key) {
            Some(EffectModel::Completed(result)) => ReuseModel::Recorded(result),
            Some(_) => ReuseModel::Forbidden,
            None => ReuseModel::New,
        }
    }
}

/// The error of a call that may not run again.
pub open spec fn replay_error() -> HarnessError<Seq<char>> {
    HarnessError::Tool(
        "state-changing tool outcome is uncertain; implicit replay is prohibited"@,
    )
}

/// Whether one more call of the same identity stays under its limit.
pub open spec fn repeats_allowed(
    broker: BrokerModel,
    key: InvocationKey<Seq<char>>,
    limits: AgentLimits,
) -> bool {
    occurrences(broker.accounted, key) < limits.max_identical_tool_calls
}

/// The ledger after the identity of a call was counted.
pub open spec fn accounted(
    ledger: LedgerModel,
    key: InvocationKey<Seq<char>>,
    limits: AgentLimits,
) -> LedgerModel {
    let counted = ledger.with_broker(ledger.broker.with_accounted(key));
    if repeats_allowed(ledger.broker, key, limits) {
        counted
    } else {
        counted.with_broker(counted.broker.refused()).with_result(
            counted.result.at_repeated_call_limit(),
        )
    }
}

/// A refusal and its result.
pub open spec fn refusal(ledger: LedgerModel, call: ToolCall<Seq<char>>, reason: Seq<char>) -> (
    LedgerModel,
    Result<AdmissionModel, HarnessError<Seq<char>>>,
) {
    (ledger.refused(call, reason), Ok(AdmissionModel::Rejected(failure_model(reason))))
}

/// The effect identity of a call.
pub open spec fn effect_identity(
    tool: RegisteredTool,
    caller: ToolCaller,
    tool_id: Seq<char>,
    arguments: JsonTree,
    context: ToolCallContext<Seq<char>>,
    signature: Option<InvocationKey<Seq<char>>>,
) -> Option<InvocationKey<Seq<char>>> {
    if tool.definition.read_only {
        None
    } else if caller == ToolCaller::Programmatic {
        Some(
            InvocationKey {
                programmatic_occurrence: Some(
                    match context.effect_key {
                        Some(key) => key,
                        None => ""@,
                    },
                ),
                ..invocation_key(tool_id, arguments)
            },
        )
    } else {
        signature
    }
}

/// The last part of an admission, for a call whose tool and arguments were accepted.
pub open spec fn admission_of_valid(
    ledger: LedgerModel,
    request: &RunRequest,
    tool: RegisteredTool,
    call: ToolCall<Seq<char>>,
    arguments: JsonTree,
    caller: ToolCaller,
    approval_barrier: bool,
    deferred: bool,
    supplied: Option<ToolCallContext<Seq<char>>>,
) -> (LedgerModel, Result<AdmissionModel, HarnessError<Seq<char>>>) {
    let context = match supplied {
        Some(context) => context,
        None => own_context(ledger.result, call, caller),
    };
    match context_fault(context, ledger.result, call, caller) {
        Some(error) => (ledger, Err(error)),
        None => {
            let key = invocation_key(call.tool_id, arguments);
            let signature = if deferred {
                None
            } else {
                Some(key)
            };
            let prepared = PreparedModel {
                call,
                arguments,
                serial: tool.serial,
                read_only: tool.definition.read_only,
                context,
                signature,
                effect_key: effect_identity(
                    tool,
                    caller,
                    call.tool_id,
                    arguments,
                    context,
                    signature,
                ),
                caller,
                authorized_signature: signature,
                signature_accounted: !deferred,
                approval_barrier,
            };
            if deferred {
                (ledger, Ok(AdmissionModel::Deferred(prepared)))
            } else {
                match reuse_of(ledger.broker, caller, tool.definition.read_only, key) {
                    ReuseModel::Recorded(result) => (
                        ledger.with_broker(ledger.broker.reused()).emit(
                            RunEvent::ToolEffectReused { call_id: call.id, tool_id: call.tool_id },
                        ),
                        Ok(AdmissionModel::Reused(result)),
                    ),
                    ReuseModel::Forbidden => (ledger, Err(replay_error())),
                    ReuseModel::New => (
                        accounted(ledger, key, request.agent.limits),
                        if repeats_allowed(ledger.broker, key, request.agent.limits) {
                            Ok(AdmissionModel::Authorize(prepared))
                        } else {
                            Ok(AdmissionModel::Stop)
                        },
                    ),
                }
            }
        },
    }
}

/// What becomes of a proposal, and what the run then has recorded.
#[verifier::opaque]
pub open spec fn admission(
    ledger: LedgerModel,
    tools: Seq<RegisteredTool>,
    scope: &ToolScope,
    request: &RunRequest,
    call: ToolCall<Seq<char>>,
    caller: ToolCaller,
    approval_barrier: bool,
    deferred: bool,
    supplied: Option<ToolCallContext<Seq<char>>>,
) -> (LedgerModel, Result<AdmissionModel, HarnessError<Seq<char>>>) {
    let limits = request.agent.limits;
    if ledger.broker.tool_calls >= limits.max_tool_calls {
        (ledger.with_result(ledger.result.at_tool_call_limit()), Ok(AdmissionModel::Stop))
    } else {
        let entered = ledger.with_broker(ledger.broker.admitted());
        if utf8_len(call.arguments_json) > limits.max_tool_arguments_bytes {
            refusal(entered, call, "tool arguments exceed byte limit"@)
        } else {
            match parsed_json(call.arguments_json) {
                Err(_) => refusal(entered, call, "malformed tool arguments"@),
                Ok(arguments) => {
                    let text = rendered_json(arguments);
                    if depth(arguments) > limits.max_json_depth {
                        refusal(entered, call, "tool arguments exceed JSON depth limit"@)
                    } else if utf8_len(text) > limits.max_tool_arguments_bytes {
                        refusal(entered, call, "tool arguments exceed byte limit"@)
                    } else {
                        admission_of_canonical(
                            entered,
                            tools,
                            scope,
                            request,
                            ToolCall { arguments_json: text, ..call },
                            arguments,
                            caller,
                            approval_barrier,
                            deferred,
                            supplied,
                        )
                    }
                },
            }
        }
    }
}

/// The part of an admission that follows once the arguments are canonical.
pub open spec fn admission_of_canonical(
    entered: LedgerModel,
    tools: Seq<RegisteredTool>,
    scope: &ToolScope,
    request: &RunRequest,
    call: ToolCall<Seq<char>>,
    arguments: JsonTree,
    caller: ToolCaller,
    approval_barrier: bool,
    deferred: bool,
    supplied: Option<ToolCallContext<Seq<char>>>,
) -> (LedgerModel, Result<AdmissionModel, HarnessError<Seq<char>>>) {
    let ledger = if deferred {
        entered
    } else {
        entered.with_result(
            RunResultModel {
                tool_calls: entered.result.tool_calls.push(
                    transcript_call(tools, scope, request, call, caller),
                ),
                ..entered.result
            },
        )
    };
    if !scope.admits(call.tool_id, caller) {
        refusal(ledger, call, "tool unavailable"@)
    } else {
        match registered(tools, call.tool_id) {
            None => refusal(ledger, call, "tool unavailable"@),
            Some(tool) => if !texts(request.agent.tool_allowlist@).contains(call.tool_id) {
                refusal(ledger, call, "tool is not allowed"@)
            } else if !tool.definition.permits(caller) {
                refusal(ledger, call, "tool caller is not allowed"@)
            } else if arguments_fault(tools, call.tool_id, arguments) is Some {
                refusal(ledger, call, "tool arguments failed validation"@)
            } else {
                admission_of_valid(
                    ledger,
                    request,
                    tool,
                    call,
                    arguments,
                    caller,
                    approval_barrier,
                    deferred,
                    supplied,
                )
            },
        }
    }
}

/// The boundary between calls and registered tools, for one scope.
pub struct ToolBroker<'a> {
    /// The registered tools.
    pub tools: &'a Vec<RegisteredTool>,
    /// The tools that this run may use.
    pub scope: &'a ToolScope,
}

impl<'a> ToolBroker<'a> {
    /// A broker for the tools of one scope.
    pub fn new(tools: &'a Vec<RegisteredTool>, scope: &'a ToolScope) -> (result: ToolBroker<'a>)
        ensures
            result.tools == tools,
            result.scope == scope,
    {
        ToolBroker { tools, scope }
    }

    /// Whether the arguments of a call could be handed to its tool.
    pub fn arguments_are_valid(&self, request: &RunRequest, call: &ToolCall, caller: ToolCaller) -> (
    result: bool)
        ensures
            result == arguments_valid(self.tools@, self.scope, request, call@, caller),
    {
        if !self.scope.allows(call.tool_id.as_str(), caller) {
            return false;
        }
        if byte_len(call.arguments_json.as_str()) as u64
            > request.agent.limits.max_tool_arguments_bytes {
            return false;
        }
        let arguments = match parse_json(call.arguments_json.as_str()) {
            Ok(arguments) => arguments,
            Err(_) => return false,
        };
        if !arguments.fits_depth(request.agent.limits.max_json_depth) {
            return false;
        }
        match find_tool(self.tools, call.tool_id.as_str()) {
            Some(tool) => contains_text(&request.agent.tool_allowlist, call.tool_id.as_str())
                && tool.definition.allows_caller(caller) && validate_arguments(
                self.tools,
                call.tool_id.as_str(),
                &arguments,
            ).is_ok(),
            None => false,
        }
    }

    /// A call as a transcript shows it.
    pub fn call_for_transcript(&self, request: &RunRequest, call: &ToolCall, caller: ToolCaller) -> (
    result: ToolCall)
        ensures
            result@ == transcript_call(self.tools@, self.scope, request, call@, caller),
    {
        if self.arguments_are_valid(request, call, caller) {
            call.duplicate()
        } else {
            call.with_arguments("{}")
        }
    }

    fn reusable_effect(
        &self,
        ledger: &RunLedger,
        caller: ToolCaller,
        read_only: bool,
        key: &InvocationKey,
    ) -> (result: Reuse)
        ensures
            result@ == reuse_of(ledger@.broker, caller, read_only, key@),
    {
        if !ledger.broker.reuse_committed_effects || read_only || caller
            == ToolCaller::Programmatic {
            return Reuse::New;
        }
        match ledger.broker.position_of(key) {
            Some(position) => match &ledger.broker.effects[position].1 {
                EffectRecord::Completed(result) => Reuse::Recorded(result.duplicate()),
                _ => Reuse::Forbidden,
            },
            None => Reuse::New,
        }
    }

    fn account_signature(&self, request: &RunRequest, ledger: &mut RunLedger, key: &InvocationKey) -> (
    result: bool)
        requires
            old(ledger)@.broker.consistent(),
            old(ledger)@.broker.classified() < old(ledger)@.broker.tool_calls,
        ensures
            result == repeats_allowed(old(ledger)@.broker, key@, request.agent.limits),
            final(ledger)@ == accounted(old(ledger)@, key@, request.agent.limits),
            final(ledger)@.broker.consistent(),
    {
        let earlier = ledger.broker.occurrences_of(key);
        ledger.broker.push_accounted(key.duplicate());
        if earlier < request.agent.limits.max_identical_tool_calls as usize {
            return true;
        }
        ledger.broker.tool_rejected += 1;
        ledger.result.stop_at_repeated_call_limit();
        false
    }

    fn reuse(&self, ledger: &mut RunLedger, call: &ToolCall)
        requires
            old(ledger)@.broker.consistent(),
            old(ledger)@.broker.classified() < old(ledger)@.broker.tool_calls,
        ensures
            final(ledger)@ == old(ledger)@.with_broker(old(ledger)@.broker.reused()).emit(
                RunEvent::ToolEffectReused { call_id: call@.id, tool_id: call@.tool_id },
            ),
            final(ledger)@.broker.consistent(),
    {
        ledger.broker.tool_reused += 1;
        ledger.emit(
            RunEvent::ToolEffectReused {
                call_id: call.id.clone(),
                tool_id: call.tool_id.clone(),
            },
        );
    }

    fn check_context(
        context: &ToolCallContext,
        ledger: &RunLedger,
        call: &ToolCall,
        caller: ToolCaller,
    ) -> (result: Option<HarnessError>)
        ensures
            match result {
                Some(error) => context_fault(context@, ledger@.result, call@, caller) == Some(
                    error@,
                ),
                None => context_fault(context@, ledger@.result, call@, caller) is None,
            },
    {
        if !same_text(context.run_id.as_str(), ledger.result.id.as_str()) || !same_text(
            context.trace_id.as_str(),
            ledger.result.trace_id.as_str(),
        ) || !same_text(context.call_id.as_str(), call.id.as_str()) || !same_text(
            context.tool_id.as_str(),
            call.tool_id.as_str(),
        ) || !same_caller(context.caller, caller) {
            return Some(
                HarnessError::InvalidRequest(
                    "tool call context does not match the broker occurrence".to_owned(),
                ),
            );
        }
        if caller == ToolCaller::Programmatic {
            if context.program_attempt.is_none() || context.static_call_site.is_none()
                || context.dynamic_ordinal.is_none() || !is_text(
                &context.effect_key,
                call.id.as_str(),
            ) {
                return Some(
                    HarnessError::InvalidRequest(
                        "programmatic tool context is missing occurrence provenance".to_owned(),
                    ),
                );
            }
        } else if context.program_attempt.is_some() || context.static_call_site.is_some()
            || context.dynamic_ordinal.is_some() || context.effect_key.is_some() {
            return Some(
                HarnessError::InvalidRequest(
                    "non-programmatic tool context contains program occurrence provenance".to_owned(),
                ),
            );
        }
        None
    }

    fn refuse(&self, ledger: &mut RunLedger, call: &ToolCall, reason: &str) -> (result: Result<
        Admission,
        HarnessError,
    >)
        requires
            old(ledger)@.broker.consistent(),
            old(ledger)@.broker.classified() < old(ledger)@.broker.tool_calls,
        ensures
            (final(ledger)@, admission_view(result)) == refusal(old(ledger)@, call@, reason@),
            final(ledger)@.broker.consistent(),
    {
        ledger.reject(call, reason);
        Ok(Admission::Rejected(ToolResult::failure(reason)))
    }

    fn prepare_valid(
        &self,
        request: &RunRequest,
        ledger: &mut RunLedger,
        tool: &RegisteredTool,
        call: ToolCall,
        arguments: Json,
        caller: ToolCaller,
        approval_barrier: bool,
        deferred: bool,
        supplied: Option<ToolCallContext>,
    ) -> (result: Result<Admission, HarnessError>)
        requires
            old(ledger)@.broker.consistent(),
            old(ledger)@.broker.classified() < old(ledger)@.broker.tool_calls,
        ensures
            (final(ledger)@, admission_view(result)) == admission_of_valid(
                old(ledger)@,
                request,
                *tool,
                call@,
                arguments@,
                caller,
                approval_barrier,
                deferred,
                match supplied {
                    Some(context) => Some(context@),
                    None => None,
                },
            ),
            final(ledger)@.broker.consistent(),
            undecided(result) ==> final(ledger)@.broker.classified() < final(ledger)@.broker.tool_calls,
    {
        let context = match supplied {
            Some(context) => context,
            None => {
                let mut context = ToolCallContext::new(
                    ledger.result.id.as_str(),
                    ledger.result.trace_id.as_str(),
                    call.id.as_str(),
                    call.tool_id.as_str(),
                );
                context.caller = Some(caller);
                context
            },
        };
        if let Some(error) = Self::check_context(&context, ledger, &call, caller) {
            return Err(error);
        }
        let key = InvocationKey::new(call.tool_id.as_str(), &arguments);
        if !deferred {
            match self.reusable_effect(ledger, caller, tool.definition.read_only, &key) {
                Reuse::Recorded(recorded) => {
                    self.reuse(ledger, &call);
                    return Ok(Admission::Reused(recorded));
                },
                Reuse::Forbidden => {
                    return Err(
                        HarnessError::Tool(
                            "state-changing tool outcome is uncertain; implicit replay is prohibited".to_owned(),
                        ),
                    );
                },
                Reuse::New => {
                    if !self.account_signature(request, ledger, &key) {
                        return Ok(Admission::Stop);
                    }
                },
            }
        }
        let signature = if deferred {
            None
        } else {
            Some(key)
        };
        let effect_key = if tool.definition.read_only {
            None
        } else if caller == ToolCaller::Programmatic {
            let occurrence = match &context.effect_key {
                Some(key) => key.clone(),
                None => "".to_owned(),
            };
            Some(
                InvocationKey::programmatic(call.tool_id.as_str(), &arguments, occurrence.as_str()),
            )
        } else {
            copy_key(&signature)
        };
        let authorized_signature = copy_key(&signature);
        let prepared = PreparedCall {
            call,
            arguments,
            serial: tool.serial,
            read_only: tool.definition.read_only,
            context,
            signature,
            effect_key,
            caller,
            authorized_signature,
            signature_accounted: !deferred,
            approval_barrier,
        };
        if deferred {
            Ok(Admission::Deferred(prepared))
        } else {
            Ok(Admission::Authorize(prepared))
        }
    }

    fn prepare_canonical(
        &self,
        request: &RunRequest,
        ledger: &mut RunLedger,
        call: ToolCall,
        arguments: Json,
        caller: ToolCaller,
        approval_barrier: bool,
        deferred: bool,
        supplied: Option<ToolCallContext>,
    ) -> (result: Result<Admission, HarnessError>)
        requires
            old(ledger)@.broker.consistent(),
            old(ledger)@.broker.classified() < old(ledger)@.broker.tool_calls,
        ensures
            (final(ledger)@, admission_view(result)) == admission_of_canonical(
                old(ledger)@,
                self.tools@,
                self.scope,
                request,
                call@,
                arguments@,
                caller,
                approval_barrier,
                deferred,
                match supplied {
                    Some(context) => Some(context@),
                    None => None,
                },
            ),
            final(ledger)@.broker.consistent(),
            undecided(result) ==> final(ledger)@.broker.classified() < final(ledger)@.broker.tool_calls,
    {
        if !deferred {
            ledger.result.push_call(self.call_for_transcript(request, &call, caller));
        }
        if !self.scope.allows(call.tool_id.as_str(), caller) {
            return self.refuse(ledger, &call, "tool unavailable");
        }
        let tool = match find_tool(self.tools, call.tool_id.as_str()) {
            Some(tool) => tool,
            None => return self.refuse(ledger, &call, "tool unavailable"),
        };
        if !contains_text(&request.agent.tool_allowlist, call.tool_id.as_str()) {
            return self.refuse(ledger, &call, "tool is not allowed");
        }
        if !tool.definition.allows_caller(caller) {
            return self.refuse(ledger, &call, "tool caller is not allowed");
        }
        if validate_arguments(self.tools, call.tool_id.as_str(), &arguments).is_err() {
            return self.refuse(ledger, &call, "tool arguments failed validation");
        }
        self.prepare_valid(
            request,
            ledger,
            tool,
            call,
            arguments,
            caller,
            approval_barrier,
            deferred,
            supplied,
        )
    }

    /// Decides what becomes of a proposal.
    pub fn prepare(
        &self,
        request: &RunRequest,
        ledger: &mut RunLedger,
        call: ToolCall,
        caller: ToolCaller,
        approval_barrier: bool,
        deferred: bool,
        supplied: Option<ToolCallContext>,
    ) -> (result: Result<Admission, HarnessError>)
        requires
            old(ledger)@.broker.consistent(),
        ensures
            (final(ledger)@, admission_view(result)) == admission(
                old(ledger)@,
                self.tools@,
                self.scope,
                request,
                call@,
                caller,
                approval_barrier,
                deferred,
                match supplied {
                    Some(context) => Some(context@),
                    None => None,
                },
            ),
            final(ledger)@.broker.consistent(),
            undecided(result) ==> final(ledger)@.broker.classified() < final(ledger)@.broker.tool_calls,
    {
        reveal(admission);
        let limits = &request.agent.limits;
        if ledger.broker.tool_calls >= limits.max_tool_calls {
            ledger.result.stop_at_tool_call_limit();
            return Ok(Admission::Stop);
        }
        ledger.broker.tool_calls += 1;
        if byte_len(call.arguments_json.as_str()) as u64 > limits.max_tool_arguments_bytes {
            return self.refuse(ledger, &call, "tool arguments exceed byte limit");
        }
        let arguments = match parse_json(call.arguments_json.as_str()) {
            Ok(arguments) => arguments,
            Err(_) => return self.refuse(ledger, &call, "malformed tool arguments"),
        };
        if !arguments.fits_depth(limits.max_json_depth) {
            return self.refuse(ledger, &call, "tool arguments exceed JSON depth limit");
        }
        let text = render_json(&arguments);
        if byte_len(text.as_str()) as u64 > limits.max_tool_arguments_bytes {
            return self.refuse(ledger, &call, "tool arguments exceed byte limit");
        }
        let canonical = call.with_arguments(text.as_str());
        self.prepare_canonical(
            request,
            ledger,
            canonical,
            arguments,
            caller,
            approval_barrier,
            deferred,
            supplied,
        )
    }
}

/// How an admission moves the counters: a proposal that is not answered at once is counted
/// and stays undecided, one that is answered is counted and decided.
pub proof fn admission_counts(
    ledger: LedgerModel,
    tools: Seq<RegisteredTool>,
    scope: &ToolScope,
    request: &RunRequest,
    call: ToolCall<Seq<char>>,
    caller: ToolCaller,
    approval_barrier: bool,
    deferred: bool,
    supplied: Option<ToolCallContext<Seq<char>>>,
)
    requires
        ledger.broker.consistent(),
    ensures
        ({
            let (next, outcome) = admission(
                ledger,
                tools,
                scope,
                request,
                call,
                caller,
                approval_barrier,
                deferred,
                supplied,
            );
            &&& next.broker.consistent()
            &&& next.broker.tool_issued == ledger.broker.tool_issued
            &&& next.broker.resolved() == ledger.broker.resolved()
            &&& match outcome {
                Err(_) => next.broker.tool_calls == ledger.broker.tool_calls + 1
                    && next.broker.classified() == ledger.broker.classified(),
                Ok(AdmissionModel::Authorize(_)) => next.broker.tool_calls
                    == ledger.broker.tool_calls + 1 && next.broker.classified()
                    == ledger.broker.classified(),
                Ok(AdmissionModel::Deferred(_)) => next.broker.tool_calls
                    == ledger.broker.tool_calls + 1 && next.broker.classified()
                    == ledger.broker.classified(),
                Ok(AdmissionModel::Reused(_)) => next.broker.tool_calls
                    == ledger.broker.tool_calls + 1 && next.broker.classified()
                    == ledger.broker.classified() + 1,
                Ok(AdmissionModel::Rejected(_)) => next.broker.tool_calls
                    == ledger.broker.tool_calls + 1 && next.broker.classified()
                    == ledger.broker.classified() + 1,
                Ok(AdmissionModel::Stop) => true,
            }
        }),
{
    reveal(admission);
}

/// What a policy decision or an approval leads to.
pub enum Authorization {
    /// The call may run.
    Authorized,
    /// The call needs approval first.
    AskApproval,
    /// The call was refused; the model gets this result.
    Rejected(ToolResult),
}

/// The model of an authorization.
pub enum AuthorizationModel {
    /// The call may run.
    Authorized,
    /// The call needs approval first.
    AskApproval,
    /// The call was refused; the model gets this result.
    Rejected(ToolResultModel),
}

impl View for Authorization {
    type V = AuthorizationModel;

    open spec fn view(&self) -> AuthorizationModel {
        match self {
            Authorization::Authorized => AuthorizationModel::Authorized,
            Authorization::AskApproval => AuthorizationModel::AskApproval,
            Authorization::Rejected(result) => AuthorizationModel::Rejected(result@),
        }
    }
}

/// The ledger with a policy decision recorded.
pub open spec fn decided(
    ledger: LedgerModel,
    call: ToolCall<Seq<char>>,
    decision: PolicyDecision<Seq<char>>,
) -> LedgerModel {
    let public = public_decision(decision);
    ledger.emit(RunEvent::PolicyDecided { call_id: call.id, decision: public }).with_result(
        RunResultModel {
            policy_decisions: ledger.result.policy_decisions.push(public),
            ..ledger.result
        },
    )
}

/// What a policy decision leads to, and what the run then has recorded.
pub open spec fn policy_outcome(
    ledger: LedgerModel,
    call: ToolCall<Seq<char>>,
    decision: PolicyDecision<Seq<char>>,
    approval_barrier: bool,
) -> (LedgerModel, AuthorizationModel) {
    let recorded = decided(ledger, call, decision);
    if decision is Deny {
        (
            recorded.refused(call, "policy denied"@),
            AuthorizationModel::Rejected(failure_model("policy denied"@)),
        )
    } else if approval_barrier || decision is RequireApproval {
        (
            recorded.emit(RunEvent::ApprovalRequested { call_id: call.id, tool_id: call.tool_id }),
            AuthorizationModel::AskApproval,
        )
    } else {
        (recorded, AuthorizationModel::Authorized)
    }
}

/// What an approval leads to, and what the run then has recorded.
pub open spec fn approval_outcome(ledger: LedgerModel, call: ToolCall<Seq<char>>, granted: bool) -> (
    LedgerModel,
    AuthorizationModel,
) {
    let recorded = ledger.with_result(
        RunResultModel {
            approvals: ledger.result.approvals.push(
                ApprovalRecord {
                    call_id: call.id,
                    tool_id: call.tool_id,
                    granted,
                    reason: if granted {
                        "approval granted"@
                    } else {
                        "approval denied"@
                    },
                },
            ),
            ..ledger.result
        },
    );
    if granted {
        (recorded, AuthorizationModel::Authorized)
    } else {
        (
            recorded.refused(call, "approval denied"@),
            AuthorizationModel::Rejected(failure_model("approval denied"@)),
        )
    }
}

/// Applies a policy decision to an admitted call.
pub fn apply_policy(
    ledger: &mut RunLedger,
    call: &ToolCall,
    decision: &PolicyDecision,
    approval_barrier: bool,
) -> (result: Authorization)
    requires
        old(ledger)@.broker.consistent(),
        old(ledger)@.broker.classified() < old(ledger)@.broker.tool_calls,
    ensures
        (final(ledger)@, result@) == policy_outcome(
            old(ledger)@,
            call@,
            decision@,
            approval_barrier,
        ),
        final(ledger)@.broker.consistent(),
        same_calls(old(ledger)@.broker, final(ledger)@.broker),
{
    ledger.emit(
        RunEvent::PolicyDecided {
            call_id: call.id.clone(),
            decision: public_policy_decision(decision),
        },
    );
    ledger.result.push_decision(public_policy_decision(decision));
    if let PolicyDecision::Deny { .. } = decision {
        ledger.reject(call, "policy denied");
        return Authorization::Rejected(ToolResult::failure("policy denied"));
    }
    if approval_barrier || matches!(decision, PolicyDecision::RequireApproval { .. }) {
        ledger.emit(
            RunEvent::ApprovalRequested {
                call_id: call.id.clone(),
                tool_id: call.tool_id.clone(),
            },
        );
        return Authorization::AskApproval;
    }
    Authorization::Authorized
}

/// Applies the answer to a request for approval.
pub fn apply_approval(ledger: &mut RunLedger, call: &ToolCall, granted: bool) -> (result:
    Authorization)
    requires
        old(ledger)@.broker.consistent(),
        old(ledger)@.broker.classified() < old(ledger)@.broker.tool_calls,
    ensures
        (final(ledger)@, result@) == approval_outcome(old(ledger)@, call@, granted),
        final(ledger)@.broker.consistent(),
        same_calls(old(ledger)@.broker, final(ledger)@.broker),
{
    let reason = if granted {
        "approval granted"
    } else {
        "approval denied"
    };
    ledger.result.push_approval(
        ApprovalRecord::new(call.id.as_str(), call.tool_id.as_str(), granted, reason),
    );
    if !granted {
        ledger.reject(call, "approval denied");
        return Authorization::Rejected(ToolResult::failure("approval denied"));
    }
    Authorization::Authorized
}

/// What final arguments mean for a call that was prepared before they were known.
pub enum Finalization {
    /// The call may run.
    Ready,
    /// The call may run once it is authorized again.
    Authorize,
    /// An identical completed effect answers the call.
    Reused(ToolResult),
    /// The run stops at a limit.
    Stop,
}

/// The model of a finalization.
pub enum FinalizationModel {
    /// The call may run.
    Ready,
    /// The call may run once it is authorized again.
    Authorize,
    /// An identical completed effect answers the call.
    Reused(ToolResultModel),
    /// The run stops at a limit.
    Stop,
}

impl View for Finalization {
    type V = FinalizationModel;

    open spec fn view(&self) -> FinalizationModel {
        match self {
            Finalization::Ready => FinalizationModel::Ready,
            Finalization::Authorize => FinalizationModel::Authorize,
            Finalization::Reused(result) => FinalizationModel::Reused(result@),
            Finalization::Stop => FinalizationModel::Stop,
        }
    }
}

/// The view of a finalization that may fail.
pub open spec fn finalization_view(result: Result<Finalization, HarnessError>) -> Result<
    FinalizationModel,
    HarnessError<Seq<char>>,
> {
    match result {
        Ok(finalization) => Ok(finalization@),
        Err(error) => Err(error@),
    }
}

/// What is wrong with bound arguments.
pub open spec fn bound_fault(
    tools: Seq<RegisteredTool>,
    scope: &ToolScope,
    request: &RunRequest,
    prepared: PreparedModel,
    permitted: bool,
    arguments: JsonTree,
) -> Option<HarnessError<Seq<char>>> {
    let limits = request.agent.limits;
    if utf8_len(rendered_json(arguments)) > limits.max_tool_arguments_bytes {
        Some(
            HarnessError::ResourceLimit(
                "bound tool arguments exceed "@ + decimal_digits(
                    limits.max_tool_arguments_bytes as nat,
                ) + " bytes"@,
            ),
        )
    } else if depth_check("bound tool arguments"@, arguments, limits.max_json_depth) is Err {
        Some(
            crate::limits::depth_error("bound tool arguments"@, limits.max_json_depth),
        )
    } else if !permitted || !scope.admits(prepared.call.tool_id, prepared.caller) || !texts(
        request.agent.tool_allowlist@,
    ).contains(prepared.call.tool_id) {
        Some(HarnessError::InvalidTool("bound plan call is no longer allowed"@))
    } else {
        arguments_fault(tools, prepared.call.tool_id, arguments)
    }
}

/// A prepared call with its final arguments.
pub open spec fn bound_call(prepared: PreparedModel, arguments: JsonTree) -> PreparedModel {
    let key = invocation_key(prepared.call.tool_id, arguments);
    PreparedModel {
        call: ToolCall { arguments_json: rendered_json(arguments), ..prepared.call },
        arguments,
        signature: Some(key),
        effect_key: if prepared.read_only {
            None
        } else {
            Some(key)
        },
        authorized_signature: Some(key),
        signature_accounted: true,
        ..prepared
    }
}

/// What final arguments mean for a call, and what the run then has recorded.
pub open spec fn finalization(
    ledger: LedgerModel,
    tools: Seq<RegisteredTool>,
    scope: &ToolScope,
    request: &RunRequest,
    prepared: PreparedModel,
    permitted: bool,
    arguments: JsonTree,
) -> (LedgerModel, PreparedModel, Result<FinalizationModel, HarnessError<Seq<char>>>) {
    match bound_fault(tools, scope, request, prepared, permitted, arguments) {
        Some(error) => (ledger, prepared, Err(error)),
        None => {
            let key = invocation_key(prepared.call.tool_id, arguments);
            let named = if prepared.signature_accounted {
                prepared
            } else {
                PreparedModel {
                    call: ToolCall { arguments_json: rendered_json(arguments), ..prepared.call },
                    ..prepared
                }
            };
            let recorded = if prepared.signature_accounted {
                ledger
            } else {
                ledger.with_result(
                    RunResultModel {
                        tool_calls: ledger.result.tool_calls.push(named.call),
                        ..ledger.result
                    },
                )
            };
            match reuse_of(recorded.broker, prepared.caller, prepared.read_only, key) {
                ReuseModel::Recorded(result) => (
                    recorded.with_broker(recorded.broker.reused()).emit(
                        RunEvent::ToolEffectReused {
                            call_id: named.call.id,
                            tool_id: named.call.tool_id,
                        },
                    ),
                    named,
                    Ok(FinalizationModel::Reused(result)),
                ),
                ReuseModel::Forbidden => (recorded, named, Err(replay_error())),
                ReuseModel::New => if !prepared.signature_accounted && !repeats_allowed(
                    recorded.broker,
                    key,
                    request.agent.limits,
                ) {
                    (
                        accounted(recorded, key, request.agent.limits),
                        named,
                        Ok(FinalizationModel::Stop),
                    )
                } else {
                    let counted = if prepared.signature_accounted {
                        recorded
                    } else {
                        accounted(recorded, key, request.agent.limits)
                    };
                    if prepared.authorized_signature == Some(key) {
                        (counted, bound_call(named, arguments), Ok(FinalizationModel::Ready))
                    } else {
                        (
                            counted,
                            PreparedModel { signature_accounted: true, ..named },
                            Ok(FinalizationModel::Authorize),
                        )
                    }
                },
            }
        },
    }
}

/// How final arguments move the counters: only a call that is answered or stopped is decided.
pub proof fn finalization_counts(
    ledger: LedgerModel,
    tools: Seq<RegisteredTool>,
    scope: &ToolScope,
    request: &RunRequest,
    prepared: PreparedModel,
    permitted: bool,
    arguments: JsonTree,
)
    requires
        ledger.broker.consistent(),
        ledger.broker.classified() < ledger.broker.tool_calls,
    ensures
        ({
            let (next, _, outcome) = finalization(
                ledger,
                tools,
                scope,
                request,
                prepared,
                permitted,
                arguments,
            );
            &&& next.broker.consistent()
            &&& next.broker.tool_calls == ledger.broker.tool_calls
            &&& next.broker.tool_issued == ledger.broker.tool_issued
            &&& next.broker.resolved() == ledger.broker.resolved()
            &&& next.broker.classified() == ledger.broker.classified() + (match outcome {
                Ok(FinalizationModel::Reused(_)) => 1int,
                Ok(FinalizationModel::Stop) => 1int,
                _ => 0int,
            })
        }),
{
}

impl PreparedCall {
    /// Gives the call its final arguments, which were authorized.
    pub fn bind(&mut self, arguments: &Json)
        ensures
            final(self)@ == bound_call(old(self)@, arguments@),
    {
        let key = InvocationKey::new(self.call.tool_id.as_str(), arguments);
        self.call = self.call.with_arguments(render_json(arguments).as_str());
        self.arguments = arguments.duplicate();
        self.effect_key = if self.read_only {
            None
        } else {
            Some(key.duplicate())
        };
        self.authorized_signature = Some(key.duplicate());
        self.signature = Some(key);
        self.signature_accounted = true;
    }
}

impl<'a> ToolBroker<'a> {
    /// Decides what final arguments mean for a call that was prepared before they were known.
    ///
    /// Where the call is to be authorized again, a refusal is answered by
    /// `bound_denial`, and a grant by `PreparedCall::bind`.
    pub fn revalidate_bound_arguments(
        &self,
        prepared: &mut PreparedCall,
        arguments: &Json,
        request: &RunRequest,
        ledger: &mut RunLedger,
    ) -> (result: Result<Finalization, HarnessError>)
        requires
            old(ledger)@.broker.consistent(),
            old(ledger)@.broker.classified() < old(ledger)@.broker.tool_calls,
        ensures
            (final(ledger)@, final(prepared)@, finalization_view(result)) == finalization(
                old(ledger)@,
                self.tools@,
                self.scope,
                request,
                old(prepared)@,
                match registered(self.tools@, old(prepared)@.call.tool_id) {
                    Some(tool) => tool.definition.permits(old(prepared).caller),
                    None => false,
                },
                arguments@,
            ),
            final(ledger)@.broker.consistent(),
    {
        let limits = &request.agent.limits;
        let text = render_json(arguments);
        if byte_len(text.as_str()) as u64 > limits.max_tool_arguments_bytes {
            return Err(
                HarnessError::ResourceLimit(
                    join3(
                        "bound tool arguments exceed ",
                        decimal(limits.max_tool_arguments_bytes).as_str(),
                        " bytes",
                    ),
                ),
            );
        }
        ensure_json_depth("bound tool arguments", arguments, limits.max_json_depth)?;
        let permitted = match find_tool(self.tools, prepared.call.tool_id.as_str()) {
            Some(tool) => tool.definition.allows_caller(prepared.caller),
            None => false,
        };
        if !permitted || !self.scope.allows(prepared.call.tool_id.as_str(), prepared.caller)
            || !contains_text(&request.agent.tool_allowlist, prepared.call.tool_id.as_str()) {
            return Err(
                HarnessError::InvalidTool("bound plan call is no longer allowed".to_owned()),
            );
        }
        validate_arguments(self.tools, prepared.call.tool_id.as_str(), arguments)?;
        let key = InvocationKey::new(prepared.call.tool_id.as_str(), arguments);
        if !prepared.signature_accounted {
            prepared.call = prepared.call.with_arguments(text.as_str());
            ledger.result.push_call(prepared.call.duplicate());
        }
        match self.reusable_effect(ledger, prepared.caller, prepared.read_only, &key) {
            Reuse::Recorded(recorded) => {
                self.reuse(ledger, &prepared.call);
                return Ok(Finalization::Reused(recorded));
            },
            Reuse::Forbidden => {
                return Err(
                    HarnessError::Tool(
                        "state-changing tool outcome is uncertain; implicit replay is prohibited".to_owned(),
                    ),
                );
            },
            Reuse::New => {},
        }
        if !prepared.signature_accounted {
            if !self.account_signature(request, ledger, &key) {
                return Ok(Finalization::Stop);
            }
            prepared.signature_accounted = true;
        }
        if is_key(&prepared.authorized_signature, &key) {
            prepared.bind(arguments);
            Ok(Finalization::Ready)
        } else {
            Ok(Finalization::Authorize)
        }
    }
}

/// The error of a bound call whose authorization was denied.
pub fn bound_denial() -> (result: HarnessError)
    ensures
        result@ == HarnessError::Policy("bound plan call authorization denied"@),
{
    HarnessError::Policy("bound plan call authorization denied".to_owned())
}

/// What keeps a prepared call from being handed to its tool.
pub open spec fn invocation_fault(
    tools: Seq<RegisteredTool>,
    scope: &ToolScope,
    prepared: PreparedModel,
) -> Option<HarnessError<Seq<char>>> {
    let key = invocation_key(prepared.call.tool_id, prepared.arguments);
    match registered(tools, prepared.call.tool_id) {
        None => Some(HarnessError::InvalidTool("tool disappeared before invocation"@)),
        Some(tool) => if tool.serial != prepared.serial || !scope.admits(
            prepared.call.tool_id,
            prepared.caller,
        ) || !tool.definition.permits(prepared.caller) || prepared.call.arguments_json
            != rendered_json(prepared.arguments) || prepared.signature != Some(key)
            || prepared.authorized_signature != Some(key) {
            Some(
                HarnessError::Policy(
                    "tool identity or bound authorization changed before invocation"@,
                ),
            )
        } else {
            None
        },
    }
}

/// What came back from a tool, checked.
pub struct BrokerExecution {
    /// The result.
    pub result: ToolResult,
    /// The error of an output that did not conform to its schema.
    pub validation_error: Option<RunError>,
}

/// The model of a checked execution.
pub struct ExecutionModel {
    /// The result.
    pub result: ToolResultModel,
    /// The error of an output that did not conform to its schema.
    pub validation_error: Option<RunError<Seq<char>>>,
}

impl View for BrokerExecution {
    type V = ExecutionModel;

    open spec fn view(&self) -> ExecutionModel {
        ExecutionModel {
            result: self.result@,
            validation_error: match self.validation_error {
                Some(error) => Some(error@),
                None => None,
            },
        }
    }
}

impl ExecutionModel {
    /// Whether the tool did what it was asked.
    pub open spec fn succeeded(self) -> bool {
        self.result.ok && self.validation_error is None
    }
}

/// What a tool's result is worth.
pub open spec fn execution_of(
    tools: Seq<RegisteredTool>,
    limits: AgentLimits,
    tool_id: Seq<char>,
    result: ToolResultModel,
) -> Result<ExecutionModel, HarnessError<Seq<char>>> {
    if utf8_len(result.json_text()) > limits.max_tool_result_bytes {
        Err(
            HarnessError::ResourceLimit(
                "tool result exceeds "@ + decimal_digits(limits.max_tool_result_bytes as nat)
                    + " bytes"@,
            ),
        )
    } else if depth(result.output) > limits.max_json_depth {
        Err(crate::limits::depth_error("tool result"@, limits.max_json_depth))
    } else if result.ok && output_fault(tools, tool_id, result.output) is Some {
        Ok(
            ExecutionModel {
                result: failure_model("tool output failed validation"@),
                validation_error: Some(
                    RunError { code: "tool_error"@, message: "tool output failed validation"@ },
                ),
            },
        )
    } else {
        Ok(ExecutionModel { result, validation_error: None })
    }
}

/// The view of an execution that may fail.
pub open spec fn execution_view(result: Result<BrokerExecution, HarnessError>) -> Result<
    ExecutionModel,
    HarnessError<Seq<char>>,
> {
    match result {
        Ok(execution) => Ok(execution@),
        Err(error) => Err(error@),
    }
}

/// The broker state after a call was handed to its tool.
pub open spec fn dispatched(broker: BrokerModel, prepared: PreparedModel) -> BrokerModel {
    let issued = BrokerModel { tool_issued: (broker.tool_issued + 1) as u32, ..broker };
    if prepared.read_only {
        issued
    } else {
        issued.with_effect(prepared.effect_key, EffectModel::Dispatched)
    }
}

/// The broker state after the outcome of a call became unknown.
pub open spec fn made_uncertain(broker: BrokerModel, prepared: PreparedModel) -> BrokerModel {
    if prepared.read_only {
        broker
    } else {
        broker.with_effect(prepared.effect_key, EffectModel::Uncertain)
    }
}

/// The broker state after a call returned.
pub open spec fn execution_recorded(
    broker: BrokerModel,
    prepared: PreparedModel,
    execution: ExecutionModel,
) -> BrokerModel {
    let counted = if execution.succeeded() {
        BrokerModel { tool_completed: (broker.tool_completed + 1) as u32, ..broker }
    } else {
        BrokerModel { tool_failed: (broker.tool_failed + 1) as u32, ..broker }
    };
    if prepared.read_only {
        counted
    } else {
        counted.with_effect(
            prepared.effect_key,
            if execution.succeeded() {
                EffectModel::Completed(execution.result)
            } else {
                EffectModel::Uncertain
            },
        )
    }
}

impl<'a> ToolBroker<'a> {
    /// Checks that a prepared call is still the one that was authorized.
    pub fn check_invocation(&self, prepared: &PreparedCall) -> (result: Option<HarnessError>)
        ensures
            match result {
                Some(error) => invocation_fault(self.tools@, self.scope, prepared@) == Some(
                    error@,
                ),
                None => invocation_fault(self.tools@, self.scope, prepared@) is None,
            },
    {
        let tool = match find_tool(self.tools, prepared.call.tool_id.as_str()) {
            Some(tool) => tool,
            None => {
                return Some(
                    HarnessError::InvalidTool("tool disappeared before invocation".to_owned()),
                );
            },
        };
        let text = render_json(&prepared.arguments);
        let key = InvocationKey::new(prepared.call.tool_id.as_str(), &prepared.arguments);
        if tool.serial != prepared.serial || !self.scope.allows(
            prepared.call.tool_id.as_str(),
            prepared.caller,
        ) || !tool.definition.allows_caller(prepared.caller) || !same_text(
            prepared.call.arguments_json.as_str(),
            text.as_str(),
        ) || !is_key(&prepared.signature, &key) || !is_key(&prepared.authorized_signature, &key) {
            return Some(
                HarnessError::Policy(
                    "tool identity or bound authorization changed before invocation".to_owned(),
                ),
            );
        }
        None
    }

    /// Checks what came back from a tool.
    pub fn check_execution(&self, request: &RunRequest, tool_id: &str, returned: ToolResult) -> (
    result: Result<BrokerExecution, HarnessError>)
        ensures
            execution_view(result) == execution_of(
                self.tools@,
                request.agent.limits,
                tool_id@,
                returned@,
            ),
    {
        let limits = &request.agent.limits;
        if byte_len(returned.to_json_text().as_str()) as u64 > limits.max_tool_result_bytes {
            return Err(
                HarnessError::ResourceLimit(
                    join3(
                        "tool result exceeds ",
                        decimal(limits.max_tool_result_bytes).as_str(),
                        " bytes",
                    ),
                ),
            );
        }
        ensure_json_depth("tool result", &returned.output, limits.max_json_depth)?;
        if returned.ok && validate_output(self.tools, tool_id, &returned.output).is_err() {
            return Ok(
                BrokerExecution {
                    result: ToolResult::failure("tool output failed validation"),
                    validation_error: Some(
                        RunError::new("tool_error", "tool output failed validation"),
                    ),
                },
            );
        }
        Ok(BrokerExecution { result: returned, validation_error: None })
    }
}

/// Records that a call is handed to its tool.
pub fn mark_dispatched(ledger: &mut RunLedger, prepared: &PreparedCall)
    requires
        old(ledger)@.broker.consistent(),
        old(ledger)@.broker.classified() < old(ledger)@.broker.tool_calls,
    ensures
        final(ledger)@ == old(ledger)@.with_broker(dispatched(old(ledger)@.broker, prepared@)),
        final(ledger)@.broker.consistent(),
        final(ledger)@.broker.resolved() < final(ledger)@.broker.tool_issued,
{
    ledger.broker.tool_issued += 1;
    if !prepared.read_only {
        ledger.broker.write_effect(&prepared.effect_key, EffectRecord::Dispatched);
    }
}

/// Records that the outcome of a call is unknown.
pub fn mark_uncertain(ledger: &mut RunLedger, prepared: &PreparedCall)
    requires
        old(ledger)@.broker.consistent(),
    ensures
        final(ledger)@ == old(ledger)@.with_broker(made_uncertain(old(ledger)@.broker, prepared@)),
        final(ledger)@.broker.consistent(),
{
    if !prepared.read_only {
        ledger.broker.write_effect(&prepared.effect_key, EffectRecord::Uncertain);
    }
}

/// Records what a call returned.
pub fn record_execution(
    ledger: &mut RunLedger,
    prepared: &PreparedCall,
    execution: &BrokerExecution,
)
    requires
        old(ledger)@.broker.consistent(),
        old(ledger)@.broker.resolved() < old(ledger)@.broker.tool_issued,
    ensures
        final(ledger)@ == old(ledger)@.with_broker(
            execution_recorded(old(ledger)@.broker, prepared@, execution@),
        ),
        final(ledger)@.broker.consistent(),
{
    let succeeded = execution.result.ok && execution.validation_error.is_none();
    if succeeded {
        ledger.broker.tool_completed += 1;
    } else {
        ledger.broker.tool_failed += 1;
    }
    if !prepared.read_only {
        let effect = if succeeded {
            EffectRecord::Completed(execution.result.duplicate())
        } else {
            EffectRecord::Uncertain
        };
        ledger.broker.write_effect(&prepared.effect_key, effect);
    }
}

proof fn written_effect_position(
    effects: Seq<(InvocationKey<Seq<char>>, EffectModel)>,
    key: InvocationKey<Seq<char>>,
    effect: EffectModel,
    start: nat,
)
    requires
        start <= effects.len(),
    ensures
        match effect_position(effects, key, start) {
            Some(position) => start <= position < effects.len() && effect_position(
                effects.update(position as int, (key, effect)),
                key,
                start,
            ) == Some(position),
            None => effect_position(effects.push((key, effect)), key, start) == Some(effects.len()),
        },
    decreases effects.len() - start,
{
    if start < effects.len() && effects[start as int].0 != key {
        written_effect_position(effects, key, effect, start + 1);
    }
}

/// A written effect record is the one that is read.
pub proof fn written_effect_reads_back(
    effects: Seq<(InvocationKey<Seq<char>>, EffectModel)>,
    key: InvocationKey<Seq<char>>,
    effect: EffectModel,
)
    ensures
        effect_of(with_effect(effects, key, effect), key) == Some(effect),
{
    written_effect_position(effects, key, effect, 0);
}

/// A state-changing call that was dispatched, or whose outcome is unknown, is never run
/// again while effects are reused.
pub proof fn uncertain_effects_are_never_replayed(
    broker: BrokerModel,
    prepared: PreparedModel,
    caller: ToolCaller,
)
    requires
        broker.reuse_committed_effects,
        !prepared.read_only,
        prepared.effect_key is Some,
        caller != ToolCaller::Programmatic,
    ensures
        reuse_of(dispatched(broker, prepared), caller, false, prepared.effect_key->0)
            == ReuseModel::Forbidden,
        reuse_of(made_uncertain(broker, prepared), caller, false, prepared.effect_key->0)
            == ReuseModel::Forbidden,
{
    let key = prepared.effect_key->0;
    written_effect_reads_back(broker.effects, key, EffectModel::Dispatched);
    written_effect_reads_back(broker.effects, key, EffectModel::Uncertain);
}

/// A state-changing call that succeeded answers an identical later call with its result,
/// and is not run again, while effects are reused.
pub proof fn committed_effects_are_reused(
    broker: BrokerModel,
    prepared: PreparedModel,
    execution: ExecutionModel,
    caller: ToolCaller,
)
    requires
        broker.reuse_committed_effects,
        !prepared.read_only,
        prepared.effect_key is Some,
        execution.succeeded(),
        caller != ToolCaller::Programmatic,
    ensures
        reuse_of(
            execution_recorded(broker, prepared, execution),
            caller,
            false,
            prepared.effect_key->0,
        ) == ReuseModel::Recorded(execution.result),
{
    written_effect_reads_back(
        broker.effects,
        prepared.effect_key->0,
        EffectModel::Completed(execution.result),
    );
}

/// Whether a tool may be issued speculatively by this run.
pub open spec fn speculation_permitted(
    tool: RegisteredTool,
    scope: &ToolScope,
    request: &RunRequest,
    tool_id: Seq<char>,
) -> bool {
    let definition = tool.definition;
    &&& scope.admits(tool_id, ToolCaller::Direct)
    &&& texts(request.agent.tool_allowlist@).contains(tool_id)
    &&& definition.id@ == tool_id
    &&& definition.permits(ToolCaller::Direct)
    &&& definition.permits(ToolCaller::Speculative)
    &&& definition.speculation_policy == SpeculationPolicy::Enabled
    &&& definition.read_only
    &&& definition.idempotent
    &&& definition.parallel_safe
    &&& definition.cancellation_safety == CancellationSafety::Guaranteed
    &&& definition.issue_safety == IssueSafety::Guaranteed
    &&& definition.execution_location == ExecutionLocation::LocalPrivate
    &&& definition.network_egress == NetworkEgress::Prohibited
}

/// Whether a text holds arguments that its tool would accept.
pub open spec fn probe_passes(
    tools: Seq<RegisteredTool>,
    request: &RunRequest,
    tool_id: Seq<char>,
    arguments_json: Seq<char>,
) -> bool {
    &&& utf8_len(arguments_json) <= request.agent.limits.max_tool_arguments_bytes
    &&& match parsed_json(arguments_json) {
        Ok(arguments) => depth(arguments) <= request.agent.limits.max_json_depth
            && arguments_fault(tools, tool_id, arguments) is None,
        Err(_) => false,
    }
}

/// The identity under which a call may be a candidate; `None` where it may not.
pub open spec fn candidate_key(
    tools: Seq<RegisteredTool>,
    scope: &ToolScope,
    request: &RunRequest,
    call: ToolCall<Seq<char>>,
) -> Option<InvocationKey<Seq<char>>> {
    if probe_passes(tools, request, call.tool_id, call.arguments_json) && (match registered(
        tools,
        call.tool_id,
    ) {
        Some(tool) => speculation_permitted(tool, scope, request, call.tool_id),
        None => false,
    }) {
        Some(invocation_key(call.tool_id, parsed_json(call.arguments_json)->Ok_0))
    } else {
        None
    }
}

impl<'a> ToolBroker<'a> {
    /// Whether a tool may be issued speculatively by this run.
    pub fn speculative_metadata_is_live(
        &self,
        request: &RunRequest,
        tool_id: &str,
        tool: &RegisteredTool,
    ) -> (result: bool)
        ensures
            result == speculation_permitted(*tool, self.scope, request, tool_id@),
    {
        let definition = &tool.definition;
        self.scope.allows(tool_id, ToolCaller::Direct) && contains_text(
            &request.agent.tool_allowlist,
            tool_id,
        ) && same_text(definition.id.as_str(), tool_id) && definition.allows_caller(
            ToolCaller::Direct,
        ) && definition.allows_caller(ToolCaller::Speculative) && definition.speculation_policy
            == SpeculationPolicy::Enabled && definition.read_only && definition.idempotent
            && definition.parallel_safe && definition.cancellation_safety
            == CancellationSafety::Guaranteed && definition.issue_safety
            == IssueSafety::Guaranteed && definition.execution_location
            == ExecutionLocation::LocalPrivate && definition.network_egress
            == NetworkEgress::Prohibited
    }

    /// Whether a text holds arguments that its tool would accept.
    pub fn validate_partial_probe(
        &self,
        request: &RunRequest,
        tool_id: &str,
        arguments_json: &str,
    ) -> (result: bool)
        ensures
            result == probe_passes(self.tools@, request, tool_id@, arguments_json@),
    {
        if byte_len(arguments_json) as u64 > request.agent.limits.max_tool_arguments_bytes {
            return false;
        }
        match parse_json(arguments_json) {
            Ok(arguments) => arguments.fits_depth(request.agent.limits.max_json_depth)
                && validate_arguments(self.tools, tool_id, &arguments).is_ok(),
            Err(_) => false,
        }
    }

    /// The identity under which a call may be a candidate.
    ///
    /// A tool whose call may be one gets its speculation state.
    pub fn validate_shadow_candidate(
        &self,
        controller: &mut SpeculationController,
        request: &RunRequest,
        call: &ToolCall,
    ) -> (result: Option<InvocationKey>)
        ensures
            key_option(result) == candidate_key(self.tools@, self.scope, request, call@),
            final(controller)@ == if result is Some {
                old(controller)@.with_tool(call@.tool_id)
            } else {
                old(controller)@
            },
    {
        if byte_len(call.arguments_json.as_str()) as u64
            > request.agent.limits.max_tool_arguments_bytes {
            return None;
        }
        let arguments = match parse_json(call.arguments_json.as_str()) {
            Ok(arguments) => arguments,
            Err(_) => return None,
        };
        if !arguments.fits_depth(request.agent.limits.max_json_depth) || validate_arguments(
            self.tools,
            call.tool_id.as_str(),
            &arguments,
        ).is_err() {
            return None;
        }
        let tool = match find_tool(self.tools, call.tool_id.as_str()) {
            Some(tool) => tool,
            None => return None,
        };
        if !self.speculative_metadata_is_live(request, call.tool_id.as_str(), tool) {
            return None;
        }
        controller.register_tool(call.tool_id.as_str());
        Some(InvocationKey::new(call.tool_id.as_str(), &arguments))
    }
}

} // verus!
