//! What holds of results that are computed early, and of programs that a host lets run.

use crate::agent::RunRequest;
use crate::commit::{commit_step, CommitEventModel, CommitModel, CommitPhase};
use crate::error::HarnessError;
use crate::json::{depth, parsed_json};
use crate::model::{ModelCapabilities, ProgrammaticConformance};
use crate::policy::PolicyDecision;
use crate::programmatic::{
    forced_check, promotion_answer, smallest, ProgrammaticHostConfig, ProgrammaticWorkloadClass,
};
use crate::registry::{arguments_fault, output_fault, registered, RegisteredTool, ToolScope};
use crate::speculation::{ControllerModel, PreIssueSkipReason, SpeculationMode};
use crate::speculative_call::{publishable, speculation_start, SpeculativeModel};
use crate::text::{texts, utf8_len};
use crate::tool::{CancellationSafety, SpeculationPolicy, ToolCall, ToolCaller, ToolResultModel};
use vstd::prelude::*;

verus! {

/// Whether a tool may be run before the model is done: it opted in, it changes nothing, it can be
/// repeated, run beside others and be cancelled, and the agent may call it.
pub open spec fn harmless_early(
    tool: RegisteredTool,
    request: &RunRequest,
    tool_id: Seq<char>,
) -> bool {
    let definition = tool.definition;
    &&& texts(request.agent.tool_allowlist@).contains(tool_id)
    &&& definition.allowed_callers@.contains(ToolCaller::Direct)
        && definition.allowed_callers@.contains(ToolCaller::Speculative)
    &&& definition.speculation_policy == SpeculationPolicy::Enabled
    &&& definition.read_only && definition.idempotent && definition.parallel_safe
    &&& definition.cancellation_safety == CancellationSafety::Guaranteed
}

/// Only an active tool that is harmless early is started early, with the arguments that were
/// proposed, which fit it and are neither too long nor nested too deeply. Where a tool is not
/// active, or the arguments do not fit, the call is skipped for that reason.
pub proof fn only_harmless_calls_start_early(
    tools: Seq<RegisteredTool>,
    scope: &ToolScope,
    request: &RunRequest,
    active: bool,
    call: ToolCall<Seq<char>>,
    model_call_number: u32,
    run_id: Seq<char>,
    trace_id: Seq<char>,
)
    ensures
        ({
            let start = speculation_start(
                tools,
                scope,
                request,
                active,
                call,
                model_call_number,
                run_id,
                trace_id,
            );
            &&& start matches Ok(prepared) ==> {
                &&& active
                &&& registered(tools, call.tool_id) matches Some(tool) && harmless_early(
                    tool,
                    request,
                    call.tool_id,
                ) && prepared.serial == tool.serial
                &&& parsed_json(call.arguments_json) == Ok::<_, Seq<char>>(prepared.arguments)
                &&& arguments_fault(tools, call.tool_id, prepared.arguments) is None
                &&& depth(prepared.arguments) <= request.agent.limits.max_json_depth
                &&& utf8_len(call.arguments_json) <= request.agent.limits.max_tool_arguments_bytes
                &&& prepared.call.id == call.id && prepared.call.tool_id == call.tool_id
                &&& prepared.model_call_number == model_call_number
                &&& prepared.context.caller == Some(ToolCaller::Speculative)
                &&& prepared.context.run_id == run_id && prepared.context.call_id == call.id
            }
            &&& !active ==> start == Err::<SpeculativeModel, _>(PreIssueSkipReason::Validation)
            &&& parsed_json(call.arguments_json) is Err ==> start is Err
        }),
{
}

/// A result that was computed early stands for a call only where it is that call: the same turn, the
/// same identifier, the same tool and arguments, and a tool that is still harmless and the same; and
/// only where the result is what the tool promised.
pub proof fn published_results_fit_their_call(
    tools: Seq<RegisteredTool>,
    scope: &ToolScope,
    request: &RunRequest,
    prepared: SpeculativeModel,
    result: ToolResultModel,
    call: ToolCall<Seq<char>>,
    number: u32,
)
    requires
        publishable(tools, scope, request, prepared, result, call, number),
    ensures
        prepared.model_call_number == number,
        prepared.call.id == call.id,
        registered(tools, prepared.call.tool_id) matches Some(tool) && tool.serial
            == prepared.serial && harmless_early(tool, request, prepared.call.tool_id),
        arguments_fault(tools, call.tool_id, parsed_json(call.arguments_json)->Ok_0) is None,
        utf8_len(result.json_text()) <= request.agent.limits.max_tool_result_bytes,
        depth(result.output) <= request.agent.limits.max_json_depth,
        output_fault(tools, call.tool_id, result.output) is None,
{
}

/// A result that fits is published: where the policy allows it, the tool is active and neither the
/// candidate nor the run has ended, nothing else is asked. Where the policy does not allow it, the
/// call is executed as any other.
pub proof fn fitting_results_are_published(
    run: CommitModel,
    controller: ControllerModel,
    tools: Seq<RegisteredTool>,
    scope: &ToolScope,
    request: &RunRequest,
    run_deadline: Option<u64>,
    decision: PolicyDecision<Seq<char>>,
    now: u64,
)
    requires
        run.phase == CommitPhase::Deciding,
        run.fits(tools, scope, request),
        run.active(controller),
        !run.lease.settled && controller.mode(run.lease.tool_id) == SpeculationMode::Active,
        now < run.deadline,
        run_deadline matches Some(deadline) ==> now < deadline,
    ensures
        ({
            let (next, after, action) = commit_step(
                run,
                controller,
                tools,
                scope,
                request,
                run_deadline,
                CommitEventModel::Decided(Ok(decision), false, now),
            );
            &&& action is Publish <==> decision is Allow
            &&& !(decision is Allow) ==> action is ExecuteDirect
            &&& next.phase == CommitPhase::Over && next.lease.settled
            &&& next.result == run.result && next.call == run.call
        }),
{
}

/// A program is written for a run that asked for one only where the host opted in, with limits that
/// hold, the provider conforms and has room, and two model calls may be made; and then it is.
pub proof fn forced_programs_need_consent(
    config: Option<ProgrammaticHostConfig>,
    limits_valid: bool,
    capabilities: ModelCapabilities,
    request: &RunRequest,
)
    ensures
        forced_check(config, limits_valid, capabilities, request) is Ok <==> (
        config matches Some(host) && limits_valid && 0 < host.max_duration_ms <= 300_000 && 0
            < host.max_active_vms <= 16 && 0 < host.max_fanout_concurrency <= 8)
            && capabilities.supports_tools && capabilities.supports_programmatic_calling
            && capabilities.programmatic_conformance == Some(
            ProgrammaticConformance::StrictJsonAstV1,
        ) && (
        capabilities.limits.max_program_bytes matches Some(bytes) && bytes > 0)
            && request.agent.limits.max_model_calls >= 2,
{
}

/// A run whose strategy is open is promoted to a program only where the host opted in to that kind
/// of work, the provider conforms, and two more model calls may be made.
pub proof fn promotions_need_consent(
    allowlist: Seq<ProgrammaticWorkloadClass>,
    workload: ProgrammaticWorkloadClass,
    config: Option<ProgrammaticHostConfig>,
    limits_valid: bool,
    capabilities: ModelCapabilities,
    request: &RunRequest,
    model_calls: u32,
)
    ensures
        ({
            let answer = promotion_answer(
                allowlist,
                workload,
                config,
                limits_valid,
                capabilities,
                request,
                model_calls,
            );
            let conforms = capabilities.supports_tools && capabilities.supports_programmatic_calling
                && capabilities.programmatic_conformance == Some(
            ProgrammaticConformance::StrictJsonAstV1,
        ) && (
            capabilities.limits.max_program_bytes matches Some(bytes) && bytes > 0);
            let left = request.agent.limits.max_model_calls - model_calls >= 2;
            &&& answer matches Ok(Some(bytes)) ==> allowlist.contains(workload) && config is Some
                && limits_valid && conforms && left && capabilities.limits.max_program_bytes
                == Some(bytes)
            &&& allowlist.contains(workload) && (config matches Some(host) && host.fault(
                limits_valid,
            ) is None) && conforms && left ==> answer == Ok::<_, HarnessError<Seq<char>>>(
                capabilities.limits.max_program_bytes,
            )
            &&& !allowlist.contains(workload) || config is None ==> answer == Ok::<
                Option<u64>,
                HarnessError<Seq<char>>,
            >(None)
        }),
{
}

/// The bytes that a program may have are the least that the host, the run and the provider allow.
pub proof fn least_program_sizes_hold(host: usize, run: u64, provider: u64)
    ensures
        ({
            let most = smallest(host, run, provider);
            &&& most <= host && most <= run && most <= provider
            &&& most == host || most == run || most == provider
        }),
{
}

} // verus!
