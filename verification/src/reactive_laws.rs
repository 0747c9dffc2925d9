//! What holds of the turns that a planned run takes with the model.

use crate::admission::{
    admission, approval_outcome, execution_of, policy_outcome, written_effect_reads_back,
    AdmissionModel, AuthorizationModel, PreparedModel,
};
use crate::agent::RunStatus;
use crate::broker::{effect_of, BrokerModel, EffectModel};
use crate::error::HarnessError;
use crate::event::RunEvent;
use crate::json::{depth, parsed_json, JsonTree};
use crate::limits::AgentLimits;
use crate::message::{tool_message, transcript_len, MessageRole};
use crate::model::ResponseModel;
use crate::reactive::{
    authorization_handled, call_answered, call_ended, execution_handled, model_called,
    output_handled, proposal_handled, reactive_step, response_handled, turn_begun,
    ReactiveEventModel, ReactiveModel, ReactiveStageModel, TurnContext,
};
use crate::registry::output_fault;
use crate::schema::instance_fault;
use crate::strategy_core::{outcome_recorded, CallEndModel, CallStart, CoreModel, ModelCallPhase};
use crate::text::{utf8_len, whitespace};
use crate::tool::{ToolCall, ToolCaller, ToolResultModel};
use vstd::prelude::*;

verus! {

/// A model call of a planned run is made only while calls are left, counts once in all and once for
/// what it is for, is announced, and waits no longer than the run may take. At the limit the run
/// stops.
pub proof fn counted_calls_stay_within_limits(
    core: CoreModel,
    limits: AgentLimits,
    run_deadline: Option<u64>,
    now: u64,
    purpose: ModelCallPhase,
)
    requires
        core.calls.balanced(),
    ensures
        ({
            let (next, start) = core.call_started(limits, run_deadline, now, purpose);
            let counted = next.calls;
            &&& next.messages == core.messages && next.output_repairs == core.output_repairs
                && next.selected == core.selected && next.plan_attempt == core.plan_attempt
            &&& start is LimitReached <==> core.calls.model_calls >= limits.max_model_calls
            &&& start is LimitReached ==> counted == core.calls && next.record.terminal
                && next.record.ledger.result.status == RunStatus::LimitReached
                && next.record.ledger.result.model_call_limit_reached
            &&& !(start is LimitReached) ==> {
                &&& counted.model_calls == core.calls.model_calls + 1 && counted.balanced()
                &&& counted.planning == core.calls.planning + (if purpose is Planning {
                    1int
                } else {
                    0
                })
                &&& counted.repair == core.calls.repair + (if purpose is Repair {
                    1int
                } else {
                    0
                })
                &&& counted.recovery == core.calls.recovery + (if purpose is Recovery {
                    1int
                } else {
                    0
                })
                &&& counted.final_synthesis == core.calls.final_synthesis + (
                if purpose is FinalSynthesis {
                    1int
                } else {
                    0
                })
                &&& counted.reactive == core.calls.reactive + (if purpose is Reactive {
                    1int
                } else {
                    0
                })
                &&& next.record.terminal == core.record.terminal
                &&& next.record.ledger.result == core.record.ledger.result
                &&& next.record.ledger.events.len() == core.record.ledger.events.len() + 1
                &&& next.record.ledger.events.last() == RunEvent::ModelRequested {
                    call_number: counted.model_calls,
                    model: core.record.ledger.result.model,
                }
            }
            &&& start matches CallStart::Call { number, deadline } ==> {
                &&& number == core.calls.model_calls + 1 <= limits.max_model_calls
                &&& run_deadline matches Some(end) ==> (deadline matches Some(until) && until
                    <= end)
                &&& limits.max_model_call_duration_ms matches Some(most) ==> (
                deadline matches Some(until) && until <= now + most)
                &&& deadline matches Some(until) ==> run_deadline == Some(until) || (
                limits.max_model_call_duration_ms matches Some(most) && until == now + most)
            }
            &&& start is Failed ==> (limits.max_model_call_duration_ms matches Some(most) && now
                + most > u64::MAX)
        }),
{
}

/// A model call is retried only after a failure of the provider that may pass, while retries are
/// left and, where a call is to be kept for the answer, while one is left for it. Every other
/// failure is handed on, and a response is handed on as it is where it is small enough.
pub proof fn counted_calls_are_retried_after_transient_failures(
    core: CoreModel,
    limits: AgentLimits,
    outcome: Result<ResponseModel, HarnessError<Seq<char>>>,
    retries: u32,
    reserve: bool,
)
    ensures
        ({
            let (next, end) = core.call_finished(limits, outcome, retries, reserve);
            let passing = outcome matches Err(error) && error is RetryableProvider;
            let kept = !reserve || core.calls.model_calls + 1 < limits.max_model_calls;
            &&& end is Retry <==> passing && retries < limits.max_provider_retries && kept
            &&& end is Retry ==> next.record.ledger.events.len()
                == core.record.ledger.events.len() + 1
                && next.record.ledger.events.last() is ModelRetrying
            &&& match outcome {
                Ok(response) => if utf8_len(response.json_text())
                    <= limits.max_model_response_bytes {
                    end == CallEndModel::Response(response)
                } else {
                    end is Failed
                },
                Err(_) => !(end is Response),
            }
            &&& end is Response ==> next.record.ledger.events.len()
                == core.record.ledger.events.len() + 1 && next.record.ledger.events.last()
                == RunEvent::<Seq<char>>::ModelResponded { call_number: core.calls.model_calls }
            &&& outcome matches Err(error) ==> (!passing ==> end == CallEndModel::Failed(error))
            &&& passing ==> (end matches CallEndModel::Failed(error) ==> error
                is RetryableProvider)
            &&& outcome is Ok ==> (end matches CallEndModel::Failed(error) ==> error
                is ResourceLimit)
            &&& end is Failed ==> next == core
            &&& next.messages == core.messages && next.calls == core.calls
            &&& next.record.ledger.result == core.record.ledger.result
            &&& next.record.terminal == core.record.terminal
        }),
{
}

/// The stages of a turn in which a model call is made keep all but the counts.
proof fn turns_keep_the_conversation(context: &TurnContext, run: ReactiveModel, now: u64)
    ensures
        ({
            let (next, action) = turn_begun(context, run, now);
            &&& next.core.messages == run.core.messages
            &&& next.waiting == run.waiting && next.purpose == run.purpose
            &&& next.core.record.ledger.broker == run.core.record.ledger.broker
            &&& action is CallModel || action is Finish
            &&& action is CallModel <==> next.stage is AwaitModel
            &&& action is Finish <==> next.stage is Done
            &&& action is CallModel ==> next.retries == 0 && !run.core.record.terminal
                && next.core.calls.model_calls == run.core.calls.model_calls + 1
            &&& action is Finish ==> run.core.record.terminal
                || next.core.record.ledger.result.status != RunStatus::Completed
            &&& run.core.record.terminal ==> action is Finish && next.core == run.core
        }),
{
    reveal(turn_begun);
    reveal(model_called);
}

/// An answer to a call adds one message and takes the run to what comes next.
proof fn answers_add_one_message(
    context: &TurnContext,
    run: ReactiveModel,
    call: ToolCall<Seq<char>>,
    result: ToolResultModel,
    now: u64,
)
    ensures
        ({
            let (next, action) = call_answered(context, run, call, result, now);
            let told = next.core.messages.last();
            &&& next.core.messages.len() == run.core.messages.len() + 1
            &&& next.core.messages.take(run.core.messages.len() as int) == run.core.messages
            &&& told.role == MessageRole::Tool && told.tool_call_id == Some(call.id)
            &&& told.content == result.json_text()
            &&& next.waiting == run.waiting && next.purpose == run.purpose
            &&& next.core.record.ledger.broker == run.core.record.ledger.broker
            &&& if transcript_len(next.core.messages)
                <= context.request.agent.limits.max_transcript_bytes {
                if run.waiting.len() > 0 {
                    action is Check && next.stage is CallCheck && next.core.record
                        == run.core.record
                } else {
                    (action is CallModel && next.stage is AwaitModel && next.retries == 0) || (
                    action is Finish && next.stage is Done)
                }
            } else {
                action is Finish && next.stage is Done && (!run.core.record.terminal
                    ==> next.core.record.ledger.result.status == RunStatus::LimitReached)
            }
        }),
{
    reveal(call_answered);
    let (next, _) = call_answered(context, run, call, result, now);
    let answered = run.with_core(
        CoreModel {
            messages: run.core.messages.push(
                tool_message(call.id, result.json_text()),
            ),
            ..run.core
        },
    );
    turns_keep_the_conversation(context, answered, now);
    assert(next.core.messages.take(run.core.messages.len() as int) =~= run.core.messages);
}

/// What a response leads to: no call runs, and what was counted of calls stays.
proof fn responses_run_nothing(
    context: &TurnContext,
    run: ReactiveModel,
    outcome: Result<ResponseModel, HarnessError<Seq<char>>>,
    now: u64,
)
    ensures
        ({
            let (next, action) = call_ended(context, run, outcome, now);
            &&& next.stage is AwaitModel || next.stage is CallCheck || next.stage is Done
            &&& !(action is Execute) && !(action is Misplaced)
            &&& next.core.record.ledger.broker == run.core.record.ledger.broker
            &&& next.waiting == run.waiting || (outcome matches Ok(response) && next.waiting
                == response.tool_calls)
            &&& action is Finish <==> next.stage is Done
            &&& action is CallModel <==> next.stage is AwaitModel
            &&& action is Check <==> next.stage is CallCheck
        }),
{
    reveal(call_ended);
    reveal(response_handled);
    reveal(output_handled);
    reveal(turn_begun);
    reveal(model_called);
}

/// What a proposal leads to: no call runs.
proof fn proposals_run_nothing(
    context: &TurnContext,
    run: ReactiveModel,
    cancelled: bool,
    now: u64,
)
    ensures
        ({
            let (next, action) = proposal_handled(context, run, cancelled, now);
            &&& !(next.stage is AwaitApproval) && !(next.stage is AwaitExecution)
            &&& !(action is Execute) && !(action is Misplaced)
            &&& next.core.record.ledger.broker.tool_issued
                == run.core.record.ledger.broker.tool_issued
            &&& next.waiting == run.waiting.drop_first()
            &&& next.stage matches ReactiveStageModel::AwaitPolicy(call) ==> call.call.id
                == run.waiting[0].id && call.call.tool_id == run.waiting[0].tool_id
                && call.caller == ToolCaller::Direct && !call.approval_barrier && action
                is AskPolicy
        }),
{
    reveal(proposal_handled);
    reveal(admission);
    let (ledger, outcome) = admission(
        run.core.record.ledger,
        context.broker.tools@,
        context.broker.scope,
        context.request,
        run.waiting[0],
        ToolCaller::Direct,
        false,
        false,
        None,
    );
    let admitted = ReactiveModel { waiting: run.waiting.drop_first(), ..run }.with_ledger(ledger);
    match outcome {
        Ok(AdmissionModel::Rejected(result)) => {
            answers_add_one_message(context, admitted, run.waiting[0], result, now);
        },
        Ok(AdmissionModel::Reused(result)) => {
            answers_add_one_message(context, admitted, run.waiting[0], result, now);
        },
        _ => {},
    }
}

/// What an authorization leads to: the call runs, is put to approval, or is answered.
proof fn authorizations_lead_on(
    context: &TurnContext,
    run: ReactiveModel,
    prepared: PreparedModel,
    authorization: AuthorizationModel,
    now: u64,
)
    requires
        run.stage is Done,
    ensures
        ({
            let (next, action) = authorization_handled(context, run, prepared, authorization, now);
            &&& next.stage matches ReactiveStageModel::AwaitExecution(call) ==> call == prepared
                && authorization is Authorized && action is Execute
            &&& next.stage matches ReactiveStageModel::AwaitApproval(call) ==> call == prepared
                && authorization is AskApproval && action is AskApproval
            &&& !(next.stage is AwaitPolicy) && !(action is Misplaced)
            &&& action is Execute ==> next.stage is AwaitExecution
            &&& next.core.record.ledger.broker.tool_issued
                != run.core.record.ledger.broker.tool_issued ==> action is Execute
            &&& next.waiting == run.waiting
        }),
{
    reveal(authorization_handled);
    if let AuthorizationModel::Rejected(result) = authorization {
        answers_add_one_message(context, run, prepared.call, result, now);
    }
}

/// What a returned result leads to: no other call runs.
proof fn results_run_nothing(
    context: &TurnContext,
    run: ReactiveModel,
    prepared: PreparedModel,
    outcome: Result<ToolResultModel, HarnessError<Seq<char>>>,
    now: u64,
)
    ensures
        ({
            let (next, action) = execution_handled(context, run, prepared, outcome, now);
            &&& next.stage is AwaitModel || next.stage is CallCheck || next.stage is Done
            &&& !(action is Execute) && !(action is Misplaced)
            &&& next.core.record.ledger.broker.tool_issued
                == run.core.record.ledger.broker.tool_issued
            &&& next.waiting == run.waiting
        }),
{
    reveal(execution_handled);
    if let Ok(result) = outcome {
        if let Ok(execution) = execution_of(
            context.broker.tools@,
            context.request.agent.limits,
            prepared.call.tool_id,
            result,
        ) {
            answers_add_one_message(
                context,
                run.with_ledger(outcome_recorded(run.core.record.ledger, prepared, execution)),
                prepared.call,
                execution.result,
                now,
            );
        }
    }
}

/// A call of a turn runs only where the policy allowed it and no approval was due, or where approval
/// was granted; approval is asked for only where it is due. What the policy denied, and what was not
/// approved, is never executed, and nothing but an execution counts as issued.
pub proof fn only_authorized_calls_run(
    context: &TurnContext,
    run: ReactiveModel,
    event: ReactiveEventModel,
)
    ensures
        ({
            let (next, action) = reactive_step(context, run, event);
            &&& next.stage matches ReactiveStageModel::AwaitExecution(call) ==> next == run || (
            run.stage == ReactiveStageModel::AwaitPolicy(call) && !call.approval_barrier && (
            event matches ReactiveEventModel::Decided(Ok(decision), _) && decision is Allow)) || (
            run.stage == ReactiveStageModel::AwaitApproval(call) && (
            event matches ReactiveEventModel::Approved(Ok(granted), _) && granted))
            &&& next.stage matches ReactiveStageModel::AwaitApproval(call) ==> next == run || (
            run.stage == ReactiveStageModel::AwaitPolicy(call) && (
            event matches ReactiveEventModel::Decided(Ok(decision), _) && (decision
                is RequireApproval || (decision is Allow && call.approval_barrier))))
            &&& next.stage is AwaitPolicy ==> next == run || run.stage is CallCheck
            &&& action is Execute ==> next.stage is AwaitExecution && !(run.stage
                is AwaitExecution)
            &&& next.core.record.ledger.broker.tool_issued
                != run.core.record.ledger.broker.tool_issued ==> action is Execute
        }),
{
    let resting = run.at(ReactiveStageModel::Done);
    match (run.stage, event) {
        (ReactiveStageModel::AwaitModel, ReactiveEventModel::Responded(outcome, now)) => {
            responses_run_nothing(context, run, outcome, now);
        },
        (ReactiveStageModel::CallCheck, ReactiveEventModel::Checked(cancelled, now)) => {
            proposals_run_nothing(context, run, cancelled, now);
        },
        (ReactiveStageModel::AwaitPolicy(call), ReactiveEventModel::Decided(Ok(decision), now)) => {
            let (ledger, answer) = policy_outcome(
                run.core.record.ledger,
                call.call,
                decision,
                call.approval_barrier,
            );
            authorizations_lead_on(context, resting.with_ledger(ledger), call, answer, now);
        },
        (ReactiveStageModel::AwaitApproval(call), ReactiveEventModel::Approved(Ok(granted), now)) => {
            let (ledger, answer) = approval_outcome(run.core.record.ledger, call.call, granted);
            authorizations_lead_on(context, resting.with_ledger(ledger), call, answer, now);
        },
        (ReactiveStageModel::AwaitExecution(call), ReactiveEventModel::Returned(outcome, now)) => {
            results_run_nothing(context, resting, call, outcome, now);
        },
        _ => {},
    }
}

/// What was authorized goes on: an allowed call that needs no approval, and an approved call, are
/// executed and counted as issued once; where approval is due it is asked for. The conversation
/// stays.
pub proof fn authorized_calls_go_on(
    context: &TurnContext,
    run: ReactiveModel,
    event: ReactiveEventModel,
    call: PreparedModel,
)
    requires
        run.core.record.ledger.broker.tool_issued < u32::MAX,
    ensures
        ({
            let (next, action) = reactive_step(context, run, event);
            let before = run.core.record.ledger.broker;
            let after = next.core.record.ledger.broker;
            let allowed = run.stage == ReactiveStageModel::AwaitPolicy(call) && (
            event matches ReactiveEventModel::Decided(Ok(decision), _) && decision is Allow);
            let asked = run.stage == ReactiveStageModel::AwaitPolicy(call) && (
            event matches ReactiveEventModel::Decided(Ok(decision), _) && decision
                is RequireApproval);
            let granted = run.stage == ReactiveStageModel::AwaitApproval(call) && (
            event matches ReactiveEventModel::Approved(Ok(granted), _) && granted);
            &&& (allowed && !call.approval_barrier) || granted ==> next.stage
                == ReactiveStageModel::AwaitExecution(call) && action is Execute
                && after.tool_issued == before.tool_issued + 1 && after.tool_rejected
                == before.tool_rejected && next.core.messages == run.core.messages && next.waiting
                == run.waiting
            &&& (allowed && call.approval_barrier) || asked ==> next.stage
                == ReactiveStageModel::AwaitApproval(call) && action is AskApproval && after
                == before && next.core.messages == run.core.messages && next.waiting == run.waiting
        }),
{
    reveal(authorization_handled);
}

/// A call that the policy denied, or that was not approved, is answered with a failure: it counts
/// as rejected, is not issued, and the model is told so under the identifier of the call. The turn
/// goes on with what waits, or the model is called again.
pub proof fn refused_calls_are_answered(
    context: &TurnContext,
    run: ReactiveModel,
    event: ReactiveEventModel,
    call: PreparedModel,
)
    requires
        run.core.record.ledger.broker.tool_rejected < u32::MAX,
        (run.stage == ReactiveStageModel::AwaitPolicy(call) && (
        event matches ReactiveEventModel::Decided(Ok(decision), _) && decision is Deny)) || (
        run.stage == ReactiveStageModel::AwaitApproval(call) && (
        event matches ReactiveEventModel::Approved(Ok(granted), _) && !granted)),
    ensures
        ({
            let (next, action) = reactive_step(context, run, event);
            let reason = if run.stage is AwaitPolicy {
                "policy denied"@
            } else {
                "approval denied"@
            };
            let told = next.core.messages.last();
            &&& next.core.record.ledger.broker == (BrokerModel {
                tool_rejected: next.core.record.ledger.broker.tool_rejected,
                ..run.core.record.ledger.broker
            })
            &&& next.core.record.ledger.broker.tool_rejected
                == run.core.record.ledger.broker.tool_rejected + 1
            &&& next.core.messages.len() == run.core.messages.len() + 1
            &&& next.core.messages.take(run.core.messages.len() as int) == run.core.messages
            &&& told.role == MessageRole::Tool && told.tool_call_id == Some(call.call.id)
            &&& told.content == (ToolResultModel {
                ok: false,
                output: JsonTree::Null,
                error: Some(reason),
            }).json_text()
            &&& next.waiting == run.waiting
            &&& !(action is Execute)
            &&& transcript_len(next.core.messages)
                <= context.request.agent.limits.max_transcript_bytes && run.waiting.len() > 0
                ==> action is Check && next.stage is CallCheck
        }),
{
    reveal(authorization_handled);
    let resting = run.at(ReactiveStageModel::Done);
    match event {
        ReactiveEventModel::Decided(Ok(decision), now) => {
            let (ledger, answer) = policy_outcome(
                run.core.record.ledger,
                call.call,
                decision,
                call.approval_barrier,
            );
            answers_add_one_message(
                context,
                resting.with_ledger(ledger),
                call.call,
                answer->Rejected_0,
                now,
            );
        },
        ReactiveEventModel::Approved(Ok(granted), now) => {
            let (ledger, answer) = approval_outcome(run.core.record.ledger, call.call, granted);
            answers_add_one_message(
                context,
                resting.with_ledger(ledger),
                call.call,
                answer->Rejected_0,
                now,
            );
        },
        _ => {},
    }
}

/// What a tool returned reaches the model under the identifier of its call: the result itself where
/// it is valid, and a failure in its place where its output is not what the tool promised. The call
/// is counted as completed where it succeeded and else as failed.
pub proof fn results_reach_the_model(
    context: &TurnContext,
    run: ReactiveModel,
    call: PreparedModel,
    result: ToolResultModel,
    now: u64,
)
    requires
        run.stage == ReactiveStageModel::AwaitExecution(call),
        utf8_len(result.json_text()) <= context.request.agent.limits.max_tool_result_bytes,
        depth(result.output) <= context.request.agent.limits.max_json_depth,
        run.core.record.ledger.broker.tool_completed < u32::MAX,
        run.core.record.ledger.broker.tool_failed < u32::MAX,
    ensures
        ({
            let (next, action) = reactive_step(
                context,
                run,
                ReactiveEventModel::Returned(Ok(result), now),
            );
            let broken = result.ok && output_fault(
                context.broker.tools@,
                call.call.tool_id,
                result.output,
            ) is Some;
            let told = next.core.messages.last();
            let before = run.core.record.ledger.broker;
            let after = next.core.record.ledger.broker;
            &&& next.core.messages.len() == run.core.messages.len() + 1
            &&& next.core.messages.take(run.core.messages.len() as int) == run.core.messages
            &&& told.role == MessageRole::Tool && told.tool_call_id == Some(call.call.id)
            &&& !broken ==> told.content == result.json_text()
            &&& broken ==> told.content == (ToolResultModel {
                ok: false,
                output: JsonTree::Null,
                error: Some("tool output failed validation"@),
            }).json_text()
            &&& after.tool_completed == before.tool_completed + (if result.ok && !broken {
                1int
            } else {
                0int
            })
            &&& after.tool_failed == before.tool_failed + (if result.ok && !broken {
                0int
            } else {
                1int
            })
            &&& after.tool_issued == before.tool_issued && after.tool_calls == before.tool_calls
                && after.tool_rejected == before.tool_rejected
            &&& next.waiting == run.waiting
            &&& transcript_len(next.core.messages)
                <= context.request.agent.limits.max_transcript_bytes && run.waiting.len() > 0
                ==> action is Check && next.stage is CallCheck
        }),
{
    reveal(execution_handled);
    let execution = execution_of(
        context.broker.tools@,
        context.request.agent.limits,
        call.call.tool_id,
        result,
    )->Ok_0;
    answers_add_one_message(
        context,
        run.at(ReactiveStageModel::Done).with_ledger(
            outcome_recorded(run.core.record.ledger, call, execution),
        ),
        call.call,
        execution.result,
        now,
    );
}

/// A tool that fails, or returns more than is allowed, ends the turn. What became of a call that may
/// have changed something is then unknown, and recorded as such.
pub proof fn lost_executions_end_the_turn(
    context: &TurnContext,
    run: ReactiveModel,
    call: PreparedModel,
    outcome: Result<ToolResultModel, HarnessError<Seq<char>>>,
    now: u64,
)
    requires
        run.stage == ReactiveStageModel::AwaitExecution(call),
        !run.core.record.terminal,
        outcome matches Ok(result) ==> utf8_len(result.json_text())
            > context.request.agent.limits.max_tool_result_bytes || depth(result.output)
            > context.request.agent.limits.max_json_depth,
        run.core.record.ledger.broker.tool_cancelled < u32::MAX,
        run.core.record.ledger.broker.tool_failed < u32::MAX,
    ensures
        ({
            let (next, action) = reactive_step(
                context,
                run,
                ReactiveEventModel::Returned(outcome, now),
            );
            let before = run.core.record.ledger.broker;
            let after = next.core.record.ledger.broker;
            let result = next.core.record.ledger.result;
            let stopped = outcome matches Err(error) && (error is Cancelled || error is TimedOut);
            &&& action is Finish && next.stage is Done && next.core.messages == run.core.messages
            &&& next.core.record.terminal
            &&& after.tool_cancelled == before.tool_cancelled + (if stopped {
                1int
            } else {
                0int
            })
            &&& after.tool_failed == before.tool_failed + (if stopped {
                0int
            } else {
                1int
            })
            &&& after.tool_completed == before.tool_completed
            &&& !call.read_only && call.effect_key is Some ==> effect_of(
                after.effects,
                call.effect_key->0,
            ) == Some(EffectModel::Uncertain)
            &&& call.read_only ==> after.effects == before.effects
            &&& outcome matches Ok(_) ==> result.status == RunStatus::LimitReached
            &&& outcome matches Err(error) ==> (error is Cancelled <==> result.status
                == RunStatus::Cancelled)
            &&& result.final_output == run.core.record.ledger.result.final_output
        }),
{
    reveal(execution_handled);
    if !call.read_only && call.effect_key is Some {
        written_effect_reads_back(
            run.core.record.ledger.broker.effects,
            call.effect_key->0,
            EffectModel::Uncertain,
        );
    }
}

/// Calls are taken one by one, in the order in which they wait, and each is handled once; the calls
/// of a response all wait as they were proposed. An event that does not fit changes nothing.
pub proof fn waiting_calls_are_taken_in_order(
    context: &TurnContext,
    run: ReactiveModel,
    event: ReactiveEventModel,
)
    ensures
        ({
            let (next, action) = reactive_step(context, run, event);
            &&& next.waiting != run.waiting ==> (run.stage is CallCheck && next.waiting
                == run.waiting.drop_first()) || (run.stage is AwaitModel && (
            event matches ReactiveEventModel::Responded(Ok(response), _) && next.waiting
                == response.tool_calls))
            &&& run.stage is CallCheck && event is Checked ==> next.waiting
                == run.waiting.drop_first()
            &&& next.stage matches ReactiveStageModel::AwaitPolicy(call) ==> next == run || (
            call.call.id == run.waiting[0].id && call.call.tool_id == run.waiting[0].tool_id
                && call.caller == ToolCaller::Direct && !call.approval_barrier && action
                is AskPolicy)
            &&& action is Misplaced ==> next == run
        }),
{
    let resting = run.at(ReactiveStageModel::Done);
    match (run.stage, event) {
        (ReactiveStageModel::AwaitModel, ReactiveEventModel::Responded(outcome, now)) => {
            responses_run_nothing(context, run, outcome, now);
        },
        (ReactiveStageModel::CallCheck, ReactiveEventModel::Checked(cancelled, now)) => {
            proposals_run_nothing(context, run, cancelled, now);
        },
        (ReactiveStageModel::AwaitPolicy(call), ReactiveEventModel::Decided(Ok(decision), now)) => {
            let (ledger, answer) = policy_outcome(
                run.core.record.ledger,
                call.call,
                decision,
                call.approval_barrier,
            );
            authorizations_lead_on(context, resting.with_ledger(ledger), call, answer, now);
        },
        (ReactiveStageModel::AwaitApproval(call), ReactiveEventModel::Approved(Ok(granted), now)) => {
            let (ledger, answer) = approval_outcome(run.core.record.ledger, call.call, granted);
            authorizations_lead_on(context, resting.with_ledger(ledger), call, answer, now);
        },
        (ReactiveStageModel::AwaitExecution(call), ReactiveEventModel::Returned(outcome, now)) => {
            results_run_nothing(context, resting, call, outcome, now);
        },
        _ => {},
    }
}

/// The calls of a response without an output all wait, as they were proposed, and the conversation
/// gains one message of the model that names each of them. A response with neither fails the turn.
pub proof fn proposed_calls_wait_in_order(
    context: &TurnContext,
    run: ReactiveModel,
    response: ResponseModel,
    now: u64,
)
    requires
        run.stage is AwaitModel,
        !run.core.record.terminal,
        response.final_output is None,
        utf8_len(response.json_text()) <= context.request.agent.limits.max_model_response_bytes,
    ensures
        ({
            let (next, action) = reactive_step(
                context,
                run,
                ReactiveEventModel::Responded(Ok(response), now),
            );
            let calls = response.tool_calls;
            let result = next.core.record.ledger.result;
            if calls.len() == 0 {
                &&& action is Finish
                &&& result.final_output == run.core.record.ledger.result.final_output
                &&& result.errors.len() == run.core.record.ledger.result.errors.len() + 1
            } else {
                let told = next.core.messages.last();
                &&& next.waiting == calls
                &&& next.core.messages.len() == run.core.messages.len() + 1
                &&& next.core.messages.take(run.core.messages.len() as int) == run.core.messages
                &&& told.role == MessageRole::Assistant && told.tool_calls.len() == calls.len()
                &&& forall|i: int|
                    #![trigger calls[i]]
                    0 <= i < calls.len() ==> told.tool_calls[i].id == calls[i].id
                        && told.tool_calls[i].tool_id == calls[i].tool_id && (
                    told.tool_calls[i].arguments_json == calls[i].arguments_json
                        || told.tool_calls[i].arguments_json == "{}"@)
                &&& if transcript_len(next.core.messages)
                    <= context.request.agent.limits.max_transcript_bytes {
                    action is Check && next.stage is CallCheck && result
                        == run.core.record.ledger.result
                } else {
                    action is Finish && result.status == RunStatus::LimitReached
                }
            }
        }),
{
    reveal(call_ended);
    reveal(response_handled);
    let (next, _) = reactive_step(
        context,
        run,
        ReactiveEventModel::Responded(Ok(response), now),
    );
    if response.tool_calls.len() > 0 {
        assert(next.core.messages.take(run.core.messages.len() as int) =~= run.core.messages);
    }
}

/// A final output that is not blank, of a run that asks for no particular form, completes the run
/// with that output. A blank one fails it.
pub proof fn plain_outputs_complete_the_run(
    context: &TurnContext,
    run: ReactiveModel,
    response: ResponseModel,
    output: Seq<char>,
    now: u64,
)
    requires
        run.stage is AwaitModel,
        response.final_output == Some(output),
        utf8_len(response.json_text()) <= context.request.agent.limits.max_model_response_bytes,
        context.request.agent.output_schema is None,
    ensures
        ({
            let (next, action) = reactive_step(
                context,
                run,
                ReactiveEventModel::Responded(Ok(response), now),
            );
            let result = next.core.record.ledger.result;
            let before = run.core.record.ledger.result;
            &&& action is Finish && next.stage is Done
            &&& if exists|i: int| 0 <= i < output.len() && !whitespace(#[trigger] output[i]) {
                &&& result.status == RunStatus::Completed
                &&& result.final_output == Some(output)
                &&& result.errors == before.errors
            } else {
                &&& result.final_output == before.final_output
                &&& result.status == before.status
                &&& result.errors.len() == before.errors.len() + 1
            }
        }),
{
    reveal(call_ended);
    reveal(response_handled);
    reveal(output_handled);
}

/// A structured output that does not conform is shown to the model again, with a request to repair
/// it, while repairs are left, and fails the run after that. One that conforms completes it.
pub proof fn structured_outputs_are_repaired(
    context: &TurnContext,
    run: ReactiveModel,
    response: ResponseModel,
    output: Seq<char>,
    now: u64,
)
    requires
        run.stage is AwaitModel,
        !run.core.record.terminal,
        response.final_output == Some(output),
        utf8_len(response.json_text()) <= context.request.agent.limits.max_model_response_bytes,
        exists|i: int| 0 <= i < output.len() && !whitespace(#[trigger] output[i]),
        context.request.agent.output_schema is Some,
    ensures
        ({
            let (next, action) = reactive_step(
                context,
                run,
                ReactiveEventModel::Responded(Ok(response), now),
            );
            let limits = context.request.agent.limits;
            let schema = context.request.agent.output_schema->0@;
            let result = next.core.record.ledger.result;
            let before = run.core.record.ledger.result;
            let conforms = parsed_json(output) matches Ok(value) && depth(value)
                <= limits.max_json_depth && instance_fault(schema, value) is None;
            let too_deep = parsed_json(output) matches Ok(value) && depth(value)
                > limits.max_json_depth;
            let messages = next.core.messages;
            let count = run.core.messages.len() as int;
            &&& result.final_output is Some && before.final_output is None ==> conforms
            &&& conforms ==> action is Finish && result.status == RunStatus::Completed
                && result.final_output == Some(output)
            &&& too_deep ==> action is Finish && result.status == RunStatus::LimitReached
            &&& !conforms && !too_deep && run.core.output_repairs >= limits.max_output_repairs
                ==> action is Finish && result.status == before.status && result.errors.len()
                == before.errors.len() + 1 && result.errors.last().code == "invalid_output"@
            &&& !conforms && !too_deep && run.core.output_repairs < limits.max_output_repairs ==> {
                &&& next.core.output_repairs == run.core.output_repairs + 1
                &&& messages.len() == count + 2 && messages.take(count) == run.core.messages
                &&& messages[count].role == MessageRole::Assistant
                &&& messages[count].content == output
                &&& messages.last().role == MessageRole::System
                &&& transcript_len(messages) > limits.max_transcript_bytes ==> action is Finish
                    && result.status == RunStatus::LimitReached
                &&& transcript_len(messages) <= limits.max_transcript_bytes
                    && run.core.calls.model_calls < limits.max_model_calls && (
                limits.max_model_call_duration_ms matches Some(most) ==> now + most <= u64::MAX)
                    ==> action is CallModel && next.retries == 0
            }
        }),
{
    reveal(call_ended);
    reveal(response_handled);
    reveal(output_handled);
    reveal(turn_begun);
    reveal(model_called);
    let (next, _) = reactive_step(
        context,
        run,
        ReactiveEventModel::Responded(Ok(response), now),
    );
    if next.core.messages.len() >= run.core.messages.len() {
        assert(next.core.messages.take(run.core.messages.len() as int) =~= run.core.messages);
    }
}

/// A call of the model is repeated only after a failure that may pass, with the conversation as it
/// was, and such a failure is retried while retries and calls are left. Every other failure ends the
/// turn.
pub proof fn only_transient_failures_are_retried(
    context: &TurnContext,
    run: ReactiveModel,
    error: HarnessError<Seq<char>>,
    now: u64,
)
    requires
        run.stage is AwaitModel,
    ensures
        ({
            let (next, action) = reactive_step(
                context,
                run,
                ReactiveEventModel::Responded(Err(error), now),
            );
            let limits = context.request.agent.limits;
            &&& next.core.messages == run.core.messages && next.waiting == run.waiting
            &&& action is CallModel || action is Finish
            &&& action is CallModel ==> error is RetryableProvider && run.retries
                < limits.max_provider_retries && run.core.calls.model_calls
                < limits.max_model_calls && next.retries == run.retries + 1 && next.purpose
                == run.purpose && next.core.calls.model_calls == run.core.calls.model_calls + 1
            &&& error is RetryableProvider && run.retries < limits.max_provider_retries
                && run.core.calls.model_calls < limits.max_model_calls && (
            limits.max_model_call_duration_ms matches Some(most) ==> now + most <= u64::MAX)
                ==> action is CallModel
            &&& !(error is RetryableProvider) ==> next.core.calls == run.core.calls
        }),
{
    reveal(call_ended);
    reveal(model_called);
}

} // verus!
