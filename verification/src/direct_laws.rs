//! What the result of a direct run tells.

use crate::admission::{
    admission, approval_outcome, policy_outcome, written_effect_reads_back, AuthorizationModel,
    PreparedModel,
};
use crate::agent::{RunRequest, RunResultModel, RunStatus};
use crate::broker::{effect_of, BrokerModel, EffectModel};
use crate::direct::{
    attempt, authorized, completion, direct_step, executed, proposal, DirectAction,
    DirectEventModel, DirectModel, PhaseModel,
};
use crate::error::HarnessError;
use crate::event::RunEvent;
use crate::json::{depth, parsed_json, JsonTree};
use crate::ledger::LedgerModel;
use crate::message::{transcript_len, MessageRole};
use crate::model::ResponseModel;
use crate::registry::{output_fault, RegisteredTool, ToolScope};
use crate::request::{output_check, schema_option};
use crate::schema::instance_fault;
use crate::speculative_call::published;
use crate::text::{blank, utf8_len, whitespace};
use crate::tool::{ToolCall, ToolCallContext, ToolCaller, ToolResultModel};
use vstd::prelude::*;

verus! {

/// Whether the result of a run tells what happened: an output stands in a completed run and in no
/// other, is not blank and conforms to the schema that was asked for, and a run is marked as
/// cancelled where its status says so. While the run goes on it is neither.
pub open spec fn truthful(run: DirectModel, request: &RunRequest) -> bool {
    let result = run.ledger.result;
    &&& result.status == RunStatus::Completed <==> result.final_output is Some
    &&& result.status == RunStatus::Cancelled <==> result.cancelled
    &&& match result.final_output {
        Some(output) => !blank(output) && output_check(
            schema_option(request.agent.output_schema),
            output,
            request.agent.limits.max_json_depth,
        ) is Ok,
        None => true,
    }
    &&& !(run.phase is Done) ==> result.final_output is None && !result.cancelled
}

/// Whether a result is still open: it may have met a limit, and nothing else.
spec fn still_open(before: RunResultModel, after: RunResultModel) -> bool {
    &&& after.final_output == before.final_output
    &&& after.cancelled == before.cancelled
    &&& after.status == before.status || after.status == RunStatus::LimitReached
}

proof fn admission_leaves_open(
    ledger: LedgerModel,
    tools: Seq<RegisteredTool>,
    scope: &ToolScope,
    request: &RunRequest,
    call: ToolCall<Seq<char>>,
    caller: ToolCaller,
    approval_barrier: bool,
    deferred: bool,
    supplied: Option<ToolCallContext<Seq<char>>>,
)
    ensures
        still_open(
            ledger.result,
            admission(
                ledger,
                tools,
                scope,
                request,
                call,
                caller,
                approval_barrier,
                deferred,
                supplied,
            ).0.result,
        ),
{
    reveal(admission);
}

proof fn proposals_stay_truthful(
    run: DirectModel,
    tools: Seq<RegisteredTool>,
    scope: &ToolScope,
    request: &RunRequest,
)
    requires
        truthful(run, request),
        !(run.phase is Done),
    ensures
        truthful(proposal(run, tools, scope, request).0, request),
{
    admission_leaves_open(
        run.ledger,
        tools,
        scope,
        request,
        run.waiting[0],
        ToolCaller::Direct,
        false,
        false,
        None,
    );
}

proof fn responses_stay_truthful(
    run: DirectModel,
    tools: Seq<RegisteredTool>,
    scope: &ToolScope,
    request: &RunRequest,
    outcome: Result<ResponseModel, HarnessError<Seq<char>>>,
)
    requires
        truthful(run, request),
        run.phase is AwaitModel,
    ensures
        truthful(completion(run, tools, scope, request, outcome).0, request),
{
}

proof fn attempts_stay_truthful(
    run: DirectModel,
    request: &RunRequest,
    run_deadline: Option<u64>,
    cancelled: bool,
    now: u64,
)
    requires
        truthful(run, request),
        run.phase is AttemptCheck,
    ensures
        truthful(attempt(run, request, run_deadline, cancelled, now).0, request),
{
}

proof fn answers_stay_truthful(
    run: DirectModel,
    request: &RunRequest,
    call: ToolCall<Seq<char>>,
    result: ToolResultModel,
)
    requires
        truthful(run, request),
        !(run.phase is Done),
    ensures
        truthful(run.answered(call, result, request.agent.limits).0, request),
{
}

proof fn authorizations_stay_truthful(
    run: DirectModel,
    request: &RunRequest,
    prepared: PreparedModel,
    outcome: (LedgerModel, AuthorizationModel),
)
    requires
        truthful(run, request),
        !(run.phase is Done),
        still_open(run.ledger.result, outcome.0.result),
    ensures
        truthful(authorized(run, request, prepared, outcome).0, request),
{
    if let AuthorizationModel::Rejected(result) = outcome.1 {
        answers_stay_truthful(
            DirectModel { ledger: outcome.0, ..run },
            request,
            prepared.call,
            result,
        );
    }
}

proof fn executions_stay_truthful(
    run: DirectModel,
    tools: Seq<RegisteredTool>,
    request: &RunRequest,
    prepared: PreparedModel,
    outcome: Result<ToolResultModel, HarnessError<Seq<char>>>,
)
    requires
        truthful(run, request),
        run.phase is AwaitExecution,
    ensures
        truthful(executed(run, tools, request, prepared, outcome).0, request),
{
}

/// The result of a direct run tells what happened, after every step: it holds an output exactly
/// where the run completed, the output is one that the request accepts, and it is marked as
/// cancelled exactly where the run was.
pub proof fn results_stay_truthful(
    run: DirectModel,
    tools: Seq<RegisteredTool>,
    scope: &ToolScope,
    request: &RunRequest,
    run_deadline: Option<u64>,
    event: DirectEventModel,
)
    requires
        truthful(run, request),
    ensures
        truthful(direct_step(run, tools, scope, request, run_deadline, event).0, request),
{
    match (run.phase, event) {
        (PhaseModel::AttemptCheck, DirectEventModel::Checked(cancelled, now)) => {
            attempts_stay_truthful(run, request, run_deadline, cancelled, now);
        },
        (PhaseModel::AwaitModel, DirectEventModel::Responded(outcome)) => {
            responses_stay_truthful(run, tools, scope, request, outcome);
        },
        (PhaseModel::CallCheck, DirectEventModel::Checked(_, _)) => {
            proposals_stay_truthful(run, tools, scope, request);
        },
        (PhaseModel::AwaitPolicy(prepared), DirectEventModel::Decided(Ok(decision))) => {
            authorizations_stay_truthful(
                run,
                request,
                prepared,
                policy_outcome(run.ledger, prepared.call, decision, prepared.approval_barrier),
            );
        },
        (PhaseModel::AwaitApproval(prepared), DirectEventModel::Approved(Ok(granted))) => {
            authorizations_stay_truthful(
                run,
                request,
                prepared,
                approval_outcome(run.ledger, prepared.call, granted),
            );
        },
        (PhaseModel::AwaitDispatch(prepared), DirectEventModel::Committed(result)) => {
            answers_stay_truthful(
                DirectModel { ledger: published(run.ledger, prepared, result), ..run },
                request,
                prepared.call,
                result,
            );
        },
        (PhaseModel::AwaitExecution(prepared), DirectEventModel::Returned(outcome)) => {
            executions_stay_truthful(run, tools, request, prepared, outcome);
        },
        _ => {},
    }
}

/// A check that finds the run cancelled ends it, as cancelled.
pub proof fn cancelled_runs_end(
    run: DirectModel,
    tools: Seq<RegisteredTool>,
    scope: &ToolScope,
    request: &RunRequest,
    run_deadline: Option<u64>,
    now: u64,
)
    requires
        run.phase is TurnCheck || run.phase is CallCheck || (run.phase is AttemptCheck
            && run.model_calls < request.agent.limits.max_model_calls),
    ensures
        ({
            let (next, _) = direct_step(
                run,
                tools,
                scope,
                request,
                run_deadline,
                DirectEventModel::Checked(true, now),
            );
            &&& next.phase is Done
            &&& next.ledger.result.status == RunStatus::Cancelled
            &&& next.ledger.result.cancelled
        }),
{
}

/// A transient failure of the provider is answered with another attempt while retries are left:
/// nothing but the count of retries changes, and the retry is reported. Any other failure, or one
/// too many, ends the run with that error.
pub proof fn only_transient_failures_are_retried(
    run: DirectModel,
    tools: Seq<RegisteredTool>,
    scope: &ToolScope,
    request: &RunRequest,
    run_deadline: Option<u64>,
    error: HarnessError<Seq<char>>,
)
    requires
        run.phase is AwaitModel,
    ensures
        ({
            let (next, action) = direct_step(
                run,
                tools,
                scope,
                request,
                run_deadline,
                DirectEventModel::Responded(Err(error)),
            );
            let result = next.ledger.result;
            &&& next.messages == run.messages && next.model_calls == run.model_calls
            &&& next.ledger.broker == run.ledger.broker
            &&& if error is RetryableProvider && run.provider_retries
                < request.agent.limits.max_provider_retries {
                &&& next.phase is AttemptCheck && action is Check
                &&& next.provider_retries == run.provider_retries + 1
                &&& result == run.ledger.result
                &&& next.ledger.events.len() == run.ledger.events.len() + 1
                &&& next.ledger.events.last() is ModelRetrying
            } else {
                &&& next.phase is Done && action is Finish
                &&& next.provider_retries == run.provider_retries
                &&& result.errors.len() == run.ledger.result.errors.len() + 1
                &&& result.cancelled <==> error is Cancelled
                &&& result.final_output == run.ledger.result.final_output
                &&& error is Cancelled ==> result.status == RunStatus::Cancelled
                &&& error is ResourceLimit ==> result.status == RunStatus::LimitReached
                &&& !(error is Cancelled) && !(error is ResourceLimit) ==> result.status
                    == RunStatus::Failed
                &&& next.ledger.events == run.ledger.events
            }
        }),
{
}

/// The provider is called only right after a check that found the run neither cancelled nor past
/// its deadline, and never more often than the request allows. Every call has the next number, is
/// reported, and must end no later than the run, and no later than one call may take.
pub proof fn provider_calls_stay_within_limits(
    run: DirectModel,
    tools: Seq<RegisteredTool>,
    scope: &ToolScope,
    request: &RunRequest,
    run_deadline: Option<u64>,
    event: DirectEventModel,
)
    ensures
        ({
            let (next, action) = direct_step(run, tools, scope, request, run_deadline, event);
            let limits = request.agent.limits;
            &&& action matches DirectAction::CallModel { number, deadline } ==> {
                &&& run.phase is AttemptCheck
                &&& event matches DirectEventModel::Checked(cancelled, now) && !cancelled && (
                run_deadline matches Some(end) ==> now < end && (deadline matches Some(until)
                    && until <= end)) && (limits.max_model_call_duration_ms matches Some(most)
                    ==> (deadline matches Some(until) && until <= now + most)) && (
                run_deadline is None && limits.max_model_call_duration_ms is None ==> deadline
                    is None) && (deadline matches Some(until) ==> run_deadline == Some(until) || (
                limits.max_model_call_duration_ms matches Some(most) && until == now + most))
                &&& number == run.model_calls + 1 <= limits.max_model_calls
                &&& next.model_calls == number && next.phase is AwaitModel
                &&& next.messages == run.messages && next.ledger.result == run.ledger.result
                &&& next.ledger.events.len() == run.ledger.events.len() + 1
                &&& next.ledger.events.last() matches RunEvent::ModelRequested {
                    call_number,
                    ..
                } && call_number == number
            }
            &&& next.phase is AwaitModel ==> run.phase is AwaitModel || action is CallModel
            &&& next.model_calls != run.model_calls ==> run.phase is AttemptCheck
                && next.model_calls == run.model_calls + 1
        }),
{
    if run.phase is CallCheck && event is Checked {
        admission_leaves_open(
            run.ledger,
            tools,
            scope,
            request,
            run.waiting[0],
            ToolCaller::Direct,
            false,
            false,
            None,
        );
    }
}

/// Before every attempt a run that is neither cancelled nor past its deadline calls the provider,
/// unless as many calls as are allowed were made: then it stops at that limit.
pub proof fn attempts_are_made_until_the_limit(
    run: DirectModel,
    tools: Seq<RegisteredTool>,
    scope: &ToolScope,
    request: &RunRequest,
    run_deadline: Option<u64>,
    now: u64,
)
    requires
        run.phase is AttemptCheck,
        run_deadline matches Some(end) ==> now < end,
        request.agent.limits.max_model_call_duration_ms matches Some(most) ==> now + most
            <= u64::MAX,
    ensures
        ({
            let (next, action) = direct_step(
                run,
                tools,
                scope,
                request,
                run_deadline,
                DirectEventModel::Checked(false, now),
            );
            if run.model_calls < request.agent.limits.max_model_calls {
                action is CallModel
            } else {
                &&& action is Finish && next.phase is Done
                &&& next.ledger.result.status == RunStatus::LimitReached
                &&& next.ledger.result.model_call_limit_reached
                &&& next.model_calls == run.model_calls
            }
        }),
{
}

/// A turn begins with no retries counted and changes nothing else.
pub proof fn turns_begin_afresh(
    run: DirectModel,
    tools: Seq<RegisteredTool>,
    scope: &ToolScope,
    request: &RunRequest,
    run_deadline: Option<u64>,
    now: u64,
)
    requires
        run.phase is TurnCheck,
        run_deadline matches Some(end) ==> now < end,
    ensures
        ({
            let (next, action) = direct_step(
                run,
                tools,
                scope,
                request,
                run_deadline,
                DirectEventModel::Checked(false, now),
            );
            &&& action is Check && next.phase is AttemptCheck
            &&& next.provider_retries == 0
            &&& next.messages == run.messages && next.ledger == run.ledger
            &&& next.model_calls == run.model_calls && next.output_repairs == run.output_repairs
        }),
{
}

/// A check past the deadline ends the run: nothing further is asked for, no output is kept, and the
/// run neither completed nor was cancelled.
pub proof fn late_runs_end(
    run: DirectModel,
    tools: Seq<RegisteredTool>,
    scope: &ToolScope,
    request: &RunRequest,
    deadline: u64,
    now: u64,
)
    requires
        run.phase is TurnCheck || run.phase is CallCheck || (run.phase is AttemptCheck
            && run.model_calls < request.agent.limits.max_model_calls),
        now >= deadline,
    ensures
        ({
            let (next, action) = direct_step(
                run,
                tools,
                scope,
                request,
                Some(deadline),
                DirectEventModel::Checked(false, now),
            );
            &&& action is Finish && next.phase is Done
            &&& next.ledger.result.status == RunStatus::Failed
            &&& !next.ledger.result.cancelled
            &&& next.ledger.result.errors.len() == run.ledger.result.errors.len() + 1
            &&& next.ledger.result.errors.last().code == "timed_out"@
            &&& next.messages == run.messages && next.model_calls == run.model_calls
        }),
{
}

/// A final output that is not blank, of a run that asks for no particular form, completes the run
/// with that output. A blank one fails it.
pub proof fn plain_outputs_complete_the_run(
    run: DirectModel,
    tools: Seq<RegisteredTool>,
    scope: &ToolScope,
    request: &RunRequest,
    run_deadline: Option<u64>,
    response: ResponseModel,
    output: Seq<char>,
)
    requires
        run.phase is AwaitModel,
        response.final_output == Some(output),
        utf8_len(response.json_text()) <= request.agent.limits.max_model_response_bytes,
        request.agent.output_schema is None,
    ensures
        ({
            let (next, action) = direct_step(
                run,
                tools,
                scope,
                request,
                run_deadline,
                DirectEventModel::Responded(Ok(response)),
            );
            &&& action is Finish && next.phase is Done
            &&& next.ledger.events.len() == run.ledger.events.len() + 1
            &&& next.ledger.events.last() is ModelResponded
            &&& if exists|i: int| 0 <= i < output.len() && !whitespace(#[trigger] output[i]) {
                &&& next.ledger.result.status == RunStatus::Completed
                &&& next.ledger.result.final_output == Some(output)
                &&& next.ledger.result.errors == run.ledger.result.errors
            } else {
                &&& next.ledger.result.final_output == run.ledger.result.final_output
                &&& next.ledger.result.status == run.ledger.result.status
                &&& next.ledger.result.errors.len() == run.ledger.result.errors.len() + 1
            }
        }),
{
}

/// A structured output that does not conform is shown to the model again, with a request to repair
/// it, while repairs are left, and fails the run after that. One that conforms completes it.
pub proof fn structured_outputs_are_repaired(
    run: DirectModel,
    tools: Seq<RegisteredTool>,
    scope: &ToolScope,
    request: &RunRequest,
    run_deadline: Option<u64>,
    response: ResponseModel,
    output: Seq<char>,
)
    requires
        run.phase is AwaitModel,
        response.final_output == Some(output),
        utf8_len(response.json_text()) <= request.agent.limits.max_model_response_bytes,
        exists|i: int| 0 <= i < output.len() && !whitespace(#[trigger] output[i]),
        request.agent.output_schema is Some,
    ensures
        ({
            let (next, action) = direct_step(
                run,
                tools,
                scope,
                request,
                run_deadline,
                DirectEventModel::Responded(Ok(response)),
            );
            let limits = request.agent.limits;
            let schema = request.agent.output_schema->0@;
            let conforms = parsed_json(output) matches Ok(value) && depth(value)
                <= limits.max_json_depth && instance_fault(schema, value) is None;
            let too_deep = parsed_json(output) matches Ok(value) && depth(value)
                > limits.max_json_depth;
            &&& next.ledger.result.final_output is Some && run.ledger.result.final_output is None
                ==> conforms
            &&& conforms ==> action is Finish && next.ledger.result.status == RunStatus::Completed
                && next.ledger.result.final_output == Some(output)
            &&& too_deep ==> action is Finish && next.ledger.result.status
                == RunStatus::LimitReached
            &&& !conforms && !too_deep && run.output_repairs >= limits.max_output_repairs
                ==> action is Finish && next.ledger.result.status == run.ledger.result.status
                && next.ledger.result.errors.len() == run.ledger.result.errors.len() + 1
                && next.ledger.result.errors.last().code == "invalid_output"@
            &&& !conforms && !too_deep && run.output_repairs < limits.max_output_repairs ==> {
                &&& next.output_repairs == run.output_repairs + 1
                &&& next.messages.len() == run.messages.len() + 2
                &&& next.messages.take(run.messages.len() as int) == run.messages
                &&& next.messages[run.messages.len() as int].role == MessageRole::Assistant
                &&& next.messages[run.messages.len() as int].content == output
                &&& next.messages.last().role == MessageRole::System
                &&& action is Check ==> next.phase is TurnCheck && next.ledger.result
                    == run.ledger.result
                &&& !(action is Check) ==> transcript_len(next.messages)
                    > limits.max_transcript_bytes && next.ledger.result.status
                    == RunStatus::LimitReached
            }
        }),
{
    let (next, _) = direct_step(
        run,
        tools,
        scope,
        request,
        run_deadline,
        DirectEventModel::Responded(Ok(response)),
    );
    if next.messages.len() >= run.messages.len() {
        assert(next.messages.take(run.messages.len() as int) =~= run.messages);
    }
}

/// The calls of a response without an output are all handled, in their order: they wait as they
/// were proposed, and the conversation gains one message of the model that names each of them.
pub proof fn proposed_calls_wait_in_order(
    run: DirectModel,
    tools: Seq<RegisteredTool>,
    scope: &ToolScope,
    request: &RunRequest,
    run_deadline: Option<u64>,
    response: ResponseModel,
)
    requires
        run.phase is AwaitModel,
        response.final_output is None,
        utf8_len(response.json_text()) <= request.agent.limits.max_model_response_bytes,
    ensures
        ({
            let (next, action) = direct_step(
                run,
                tools,
                scope,
                request,
                run_deadline,
                DirectEventModel::Responded(Ok(response)),
            );
            let calls = response.tool_calls;
            if calls.len() == 0 {
                &&& action is Finish
                &&& next.ledger.result.status == run.ledger.result.status
                &&& next.ledger.result.final_output == run.ledger.result.final_output
                &&& next.ledger.result.errors.len() == run.ledger.result.errors.len() + 1
            } else {
                let told = next.messages.last();
                &&& next.waiting == calls && next.opening
                &&& next.messages.len() == run.messages.len() + 1
                &&& next.messages.take(run.messages.len() as int) == run.messages
                &&& told.role == MessageRole::Assistant && told.tool_calls.len() == calls.len()
                &&& forall|i: int|
                    #![trigger calls[i]]
                    0 <= i < calls.len() ==> told.tool_calls[i].id == calls[i].id
                        && told.tool_calls[i].tool_id == calls[i].tool_id && (
                    told.tool_calls[i].arguments_json == calls[i].arguments_json
                        || told.tool_calls[i].arguments_json == "{}"@)
                &&& if transcript_len(next.messages) <= request.agent.limits.max_transcript_bytes {
                    action is Check && next.phase is CallCheck && next.ledger.result
                        == run.ledger.result
                } else {
                    action is Finish && next.ledger.result.status == RunStatus::LimitReached
                }
            }
        }),
{
    let (next, _) = direct_step(
        run,
        tools,
        scope,
        request,
        run_deadline,
        DirectEventModel::Responded(Ok(response)),
    );
    if response.tool_calls.len() > 0 {
        assert(next.messages.take(run.messages.len() as int) =~= run.messages);
    }
}

/// A call runs only once it was authorized: it waits for dispatch only where the policy allowed it
/// and no approval was due, or where approval was granted, and it is handed to its tool only from
/// there. What the policy denied, and what was not approved, is never dispatched.
pub proof fn only_authorized_calls_run(
    run: DirectModel,
    tools: Seq<RegisteredTool>,
    scope: &ToolScope,
    request: &RunRequest,
    run_deadline: Option<u64>,
    event: DirectEventModel,
)
    ensures
        ({
            let (next, action) = direct_step(run, tools, scope, request, run_deadline, event);
            &&& next.phase matches PhaseModel::AwaitDispatch(call) ==> next == run || (run.phase
                == PhaseModel::AwaitPolicy(call) && !call.approval_barrier && (event matches
                DirectEventModel::Decided(Ok(decision)) && decision is Allow)) || (run.phase
                == PhaseModel::AwaitApproval(call) && event == DirectEventModel::Approved(Ok(true)))
            &&& next.phase matches PhaseModel::AwaitApproval(call) ==> next == run || (run.phase
                == PhaseModel::AwaitPolicy(call) && (event matches DirectEventModel::Decided(
                Ok(decision),
            ) && (decision is RequireApproval || (decision is Allow && call.approval_barrier))))
            &&& next.phase matches PhaseModel::AwaitExecution(call) ==> next == run || (run.phase
                == PhaseModel::AwaitDispatch(call) && event is Dispatched)
            &&& next.phase is AwaitPolicy ==> next == run || run.phase is CallCheck
            &&& action is Execute ==> next.phase is AwaitExecution && run.phase is AwaitDispatch
            &&& next.ledger.broker.tool_issued != run.ledger.broker.tool_issued ==> action is Execute
                || (run.phase is AwaitDispatch && event is Committed)
        }),
{
    if run.phase is CallCheck && event is Checked {
        reveal(admission);
    }
}

/// What was authorized goes on: an allowed call that needs no approval, and an approved call, wait
/// for dispatch with the conversation unchanged, and a dispatched call is counted as issued once.
pub proof fn authorized_calls_go_on(
    run: DirectModel,
    tools: Seq<RegisteredTool>,
    scope: &ToolScope,
    request: &RunRequest,
    run_deadline: Option<u64>,
    event: DirectEventModel,
    call: PreparedModel,
)
    requires
        run.ledger.broker.tool_issued < u32::MAX,
    ensures
        ({
            let (next, action) = direct_step(run, tools, scope, request, run_deadline, event);
            &&& run.phase == PhaseModel::AwaitPolicy(call) && (event matches
                DirectEventModel::Decided(Ok(decision)) && decision is Allow)
                && !call.approval_barrier ==> next.phase == PhaseModel::AwaitDispatch(call)
                && action is Dispatch && next.messages == run.messages && next.ledger.broker
                == run.ledger.broker
            &&& run.phase == PhaseModel::AwaitPolicy(call) && (event matches
                DirectEventModel::Decided(Ok(decision)) && (decision is RequireApproval || (
            decision is Allow && call.approval_barrier))) ==> next.phase
                == PhaseModel::AwaitApproval(call) && action is AskApproval && next.ledger.broker
                == run.ledger.broker
            &&& run.phase == PhaseModel::AwaitApproval(call) && event == DirectEventModel::Approved(
                Ok(true),
            ) ==> next.phase == PhaseModel::AwaitDispatch(call) && action is Dispatch
                && next.messages == run.messages && next.ledger.broker == run.ledger.broker
            &&& run.phase == PhaseModel::AwaitDispatch(call) && event is Dispatched ==> next.phase
                == PhaseModel::AwaitExecution(call) && action is Execute
                && next.ledger.broker.tool_issued == run.ledger.broker.tool_issued + 1
                && next.messages == run.messages
        }),
{
}

/// A call that the policy denied, or that was not approved, is answered with a failure: it counts
/// as rejected, is not issued, and the model is told so under the identifier of the call. The run
/// goes on with what waits.
pub proof fn refused_calls_are_answered(
    run: DirectModel,
    tools: Seq<RegisteredTool>,
    scope: &ToolScope,
    request: &RunRequest,
    run_deadline: Option<u64>,
    event: DirectEventModel,
    call: PreparedModel,
)
    requires
        run.ledger.broker.tool_rejected < u32::MAX,
        (run.phase == PhaseModel::AwaitPolicy(call) && (event matches DirectEventModel::Decided(
            Ok(decision),
        ) && decision is Deny)) || (run.phase == PhaseModel::AwaitApproval(call) && event
            == DirectEventModel::Approved(Ok(false))),
    ensures
        ({
            let (next, action) = direct_step(run, tools, scope, request, run_deadline, event);
            let reason = if run.phase is AwaitPolicy {
                "policy denied"@
            } else {
                "approval denied"@
            };
            let told = next.messages.last();
            &&& next.ledger.broker == (BrokerModel {
                tool_rejected: (run.ledger.broker.tool_rejected + 1) as u32,
                ..run.ledger.broker
            })
            &&& next.ledger.broker.tool_rejected == run.ledger.broker.tool_rejected + 1
            &&& next.messages.len() == run.messages.len() + 1
            &&& next.messages.take(run.messages.len() as int) == run.messages
            &&& told.role == MessageRole::Tool && told.tool_call_id == Some(call.call.id)
            &&& told.content == (ToolResultModel {
                ok: false,
                output: JsonTree::Null,
                error: Some(reason),
            }).json_text()
            &&& next.waiting == run.waiting
            &&& if transcript_len(next.messages) <= request.agent.limits.max_transcript_bytes {
                &&& action is Check
                &&& if run.waiting.len() == 0 {
                    next.phase is TurnCheck
                } else {
                    next.phase is CallCheck
                }
            } else {
                action is Finish && next.ledger.result.status == RunStatus::LimitReached
            }
        }),
{
    let (next, _) = direct_step(run, tools, scope, request, run_deadline, event);
    assert(next.messages.take(run.messages.len() as int) =~= run.messages);
}

/// What a tool returned reaches the model under the identifier of its call: the result itself where
/// it is valid, and a failure in its place where its output is not what the tool promised. The call
/// is counted as completed where it succeeded and else as failed.
pub proof fn results_reach_the_model(
    run: DirectModel,
    tools: Seq<RegisteredTool>,
    scope: &ToolScope,
    request: &RunRequest,
    run_deadline: Option<u64>,
    call: PreparedModel,
    result: ToolResultModel,
)
    requires
        run.phase == PhaseModel::AwaitExecution(call),
        utf8_len(result.json_text()) <= request.agent.limits.max_tool_result_bytes,
        depth(result.output) <= request.agent.limits.max_json_depth,
        run.ledger.broker.tool_completed < u32::MAX,
        run.ledger.broker.tool_failed < u32::MAX,
    ensures
        ({
            let (next, action) = direct_step(
                run,
                tools,
                scope,
                request,
                run_deadline,
                DirectEventModel::Returned(Ok(result)),
            );
            let broken = result.ok && output_fault(tools, call.call.tool_id, result.output) is Some;
            let told = next.messages.last();
            let before = run.ledger.broker;
            let after = next.ledger.broker;
            &&& next.messages.len() == run.messages.len() + 1
            &&& next.messages.take(run.messages.len() as int) == run.messages
            &&& told.role == MessageRole::Tool && told.tool_call_id == Some(call.call.id)
            &&& !broken ==> told.content == result.json_text()
            &&& broken ==> told.content == (ToolResultModel {
                ok: false,
                output: JsonTree::Null,
                error: Some("tool output failed validation"@),
            }).json_text()
            &&& after.tool_completed == before.tool_completed + (if result.ok && !broken {
                1int
            } else {
                0int
            })
            &&& after.tool_failed == before.tool_failed + (if result.ok && !broken {
                0int
            } else {
                1int
            })
            &&& after.tool_issued == before.tool_issued && after.tool_calls == before.tool_calls
                && after.tool_rejected == before.tool_rejected
            &&& next.ledger.events.len() == run.ledger.events.len() + 1
            &&& next.ledger.events.last() == RunEvent::ToolCompleted {
                call_id: call.call.id,
                tool_id: call.call.tool_id,
                ok: result.ok && !broken,
            }
            &&& next.waiting == run.waiting
            &&& if transcript_len(next.messages) <= request.agent.limits.max_transcript_bytes {
                &&& action is Check
                &&& if run.waiting.len() == 0 {
                    next.phase is TurnCheck
                } else {
                    next.phase is CallCheck
                }
            } else {
                action is Finish && next.ledger.result.status == RunStatus::LimitReached
            }
        }),
{
    let (next, _) = direct_step(
        run,
        tools,
        scope,
        request,
        run_deadline,
        DirectEventModel::Returned(Ok(result)),
    );
    assert(next.messages.take(run.messages.len() as int) =~= run.messages);
}

/// A tool that fails, or returns more than is allowed, ends the run. What became of a call that may
/// have changed something is then unknown, and recorded as such.
pub proof fn lost_executions_end_the_run(
    run: DirectModel,
    tools: Seq<RegisteredTool>,
    scope: &ToolScope,
    request: &RunRequest,
    run_deadline: Option<u64>,
    call: PreparedModel,
    outcome: Result<ToolResultModel, HarnessError<Seq<char>>>,
)
    requires
        run.phase == PhaseModel::AwaitExecution(call),
        outcome matches Ok(result) ==> utf8_len(result.json_text())
            > request.agent.limits.max_tool_result_bytes || depth(result.output)
            > request.agent.limits.max_json_depth,
        run.ledger.broker.tool_cancelled < u32::MAX,
        run.ledger.broker.tool_failed < u32::MAX,
    ensures
        ({
            let (next, action) = direct_step(
                run,
                tools,
                scope,
                request,
                run_deadline,
                DirectEventModel::Returned(outcome),
            );
            let before = run.ledger.broker;
            let after = next.ledger.broker;
            let stopped = outcome matches Err(error) && (error is Cancelled || error is TimedOut);
            &&& action is Finish && next.phase is Done && next.messages == run.messages
            &&& after.tool_cancelled == before.tool_cancelled + (if stopped {
                1int
            } else {
                0int
            })
            &&& after.tool_failed == before.tool_failed + (if stopped {
                0int
            } else {
                1int
            })
            &&& after.tool_completed == before.tool_completed
            &&& !call.read_only && call.effect_key is Some ==> effect_of(
                after.effects,
                call.effect_key->0,
            ) == Some(EffectModel::Uncertain)
            &&& call.read_only ==> after.effects == before.effects
            &&& outcome matches Ok(_) ==> next.ledger.result.status == RunStatus::LimitReached
            &&& outcome matches Err(error) ==> (error is Cancelled <==> next.ledger.result.status
                == RunStatus::Cancelled)
            &&& next.ledger.result.final_output == run.ledger.result.final_output
        }),
{
    if !call.read_only && call.effect_key is Some {
        written_effect_reads_back(
            run.ledger.broker.effects,
            call.effect_key->0,
            EffectModel::Uncertain,
        );
    }
}

/// Calls are taken one by one, in the order in which they wait, and each is handled once.
pub proof fn waiting_calls_are_taken_in_order(
    run: DirectModel,
    tools: Seq<RegisteredTool>,
    scope: &ToolScope,
    request: &RunRequest,
    run_deadline: Option<u64>,
    event: DirectEventModel,
)
    ensures
        ({
            let (next, action) = direct_step(run, tools, scope, request, run_deadline, event);
            &&& next.waiting != run.waiting ==> (run.phase is CallCheck && next.waiting
                == run.waiting.drop_first()) || (run.phase is AwaitModel && (event matches
                DirectEventModel::Responded(Ok(response)) && next.waiting == response.tool_calls))
            &&& run.phase is CallCheck && (event matches DirectEventModel::Checked(cancelled, now)
                && !cancelled && (run_deadline matches Some(end) ==> now < end)) ==> next.waiting
                == run.waiting.drop_first()
            &&& next.phase matches PhaseModel::AwaitPolicy(call) ==> next == run || (
            call.call.id == run.waiting[0].id && call.call.tool_id == run.waiting[0].tool_id
                && call.caller == ToolCaller::Direct && !call.approval_barrier && action is AskPolicy)
            &&& action is Misplaced ==> next == run
        }),
{
    if run.phase is CallCheck && event is Checked {
        reveal(admission);
    }
}

} // verus!
