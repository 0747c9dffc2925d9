//! What holds of a planned run and of a program, over all that may come back from outside.

use crate::agent::{errors_without, RunStatus, RunStrategy};
use crate::error::{HarnessError, RunError};
use crate::limits::AgentLimits;
use crate::message::{tool_calls_message, transcript_len, MessageModel, MessageRole};
use crate::model::ResponseModel;
use crate::plan::PlanNode;
use crate::plan_preflight::PlannerEnvelope;
use crate::plan_state::OutcomeModel;
use crate::planned_model::{
    completed_members, concluded, envelope_chosen, envelope_refused, execution_settled,
    plan_executed, planned_responded, planner_answered, planning_begun, planning_called,
    planning_failed, recovery_answered, recovery_begun, recovery_called, PlannedAction,
    PlannedModel, PlannedStage,
};
use crate::strategy_core::{entries_appended, entry_calls, results_appended, ModelCallPhase};
use crate::text::utf8_len;
use crate::tool::{ToolCall, ToolResultModel};
use vstd::prelude::*;

verus! {

/// Whether the results of completed calls follow in their order, each under the identifier of its
/// call.
pub open spec fn results_follow(
    messages: Seq<MessageModel>,
    from: int,
    entries: Seq<(ToolCall<Seq<char>>, ToolResultModel)>,
) -> bool {
    forall|i: int|
        #![trigger entries[i]]
        0 <= i < entries.len() ==> tells_result(messages[from + i], entries[i])
}

/// Whether a message tells the model the result of a call.
pub open spec fn tells_result(
    message: MessageModel,
    entry: (ToolCall<Seq<char>>, ToolResultModel),
) -> bool {
    &&& message.role == MessageRole::Tool
    &&& message.tool_call_id == Some(entry.0.id)
    &&& message.content == entry.1.json_text()
}

proof fn appended_results_follow(
    messages: Seq<MessageModel>,
    entries: Seq<(ToolCall<Seq<char>>, ToolResultModel)>,
    limits: AgentLimits,
    count: nat,
)
    requires
        count <= entries.len(),
        results_appended(messages, entries, limits, count).1 is Ok,
    ensures
        ({
            let after = results_appended(messages, entries, limits, count).0;
            &&& after.len() == messages.len() + count
            &&& after.take(messages.len() as int) == messages
            &&& results_follow(after, messages.len() as int, entries.take(count as int))
            &&& count > 0 ==> transcript_len(after) <= limits.max_transcript_bytes
        }),
    decreases count,
{
    let after = results_appended(messages, entries, limits, count).0;
    if count > 0 {
        appended_results_follow(messages, entries, limits, (count - 1) as nat);
        let before = results_appended(messages, entries, limits, (count - 1) as nat).0;
        assert(after.take(messages.len() as int) =~= before.take(messages.len() as int));
        let shown = entries.take(count as int);
        let earlier = entries.take(count - 1);
        assert forall|i: int| #![trigger shown[i]] 0 <= i < shown.len() implies tells_result(
            after[messages.len() + i],
            shown[i],
        ) by {
            if i < count - 1 {
                assert(earlier[i] == shown[i]);
                assert(after[messages.len() + i] == before[messages.len() + i]);
            }
        }
    } else {
        assert(after.take(messages.len() as int) =~= messages);
    }
}

/// The calls that a plan completed are shown to the model as one message that names them all, in
/// their order, followed by the result of each, as long as the conversation stays within its limit.
pub proof fn completed_calls_are_shown(
    messages: Seq<MessageModel>,
    entries: Seq<(ToolCall<Seq<char>>, ToolResultModel)>,
    limits: AgentLimits,
)
    ensures
        ({
            let (after, answer) = entries_appended(messages, entries, limits);
            let count = messages.len() as int;
            &&& entries.len() == 0 ==> after == messages && answer is Ok
            &&& entries.len() > 0 && answer is Ok ==> {
                &&& after.len() == count + 1 + entries.len() && after.take(count) == messages
                &&& after[count].role == MessageRole::Assistant
                &&& after[count].tool_calls.len() == entries.len()
                &&& forall|i: int|
                    #![trigger entries[i]]
                    0 <= i < entries.len() ==> after[count].tool_calls[i] == entries[i].0
                &&& results_follow(after, count + 1, entries)
                &&& transcript_len(after) <= limits.max_transcript_bytes
            }
        }),
{
    let (after, answer) = entries_appended(messages, entries, limits);
    if entries.len() > 0 && answer is Ok {
        let told = tool_calls_message(entry_calls(entries));
        let next = messages.push(told);
        appended_results_follow(next, entries, limits, entries.len());
        assert(entries.take(entries.len() as int) =~= entries);
        assert(after.take(next.len() as int)[messages.len() as int] == told);
        assert(after.take(messages.len() as int) =~= after.take(next.len() as int).take(
            messages.len() as int,
        ));
        assert(next.take(messages.len() as int) =~= messages);
    }
}

/// A valid answer of the planner is followed as it is: a plan is executed, whole and unchanged, and
/// where the planner chose direct execution the run goes on that way.
pub proof fn valid_plans_are_followed(
    run: PlannedModel,
    limits: AgentLimits,
    deadline: Option<u64>,
    now: u64,
    response: ResponseModel,
    envelope: PlannerEnvelope,
)
    requires
        run.stage is AwaitPlanner,
        utf8_len(response.json_text()) <= limits.max_model_response_bytes,
    ensures
        ({
            let (next, action) = planned_responded(
                run,
                limits,
                deadline,
                now,
                Ok(response),
                Ok(envelope),
            );
            &&& next.core.messages == run.core.messages && next.core.calls == run.core.calls
            &&& next.core.record.ledger.result.errors == run.core.record.ledger.result.errors
            &&& envelope matches PlannerEnvelope::DeclarativePlan { plan } ==> action
                == PlannedAction::ExecutePlan && next.plan == Some(plan) && next.stage
                == PlannedStage::Executing { recovering: false } && next.core.selected
                == RunStrategy::DeclarativePlan
                && next.core.record.ledger.broker.reuse_committed_effects
            &&& envelope is Direct ==> action == PlannedAction::React(ModelCallPhase::Reactive)
                && next.core.selected == RunStrategy::Direct && next.plan == run.plan
        }),
{
    reveal(planner_answered);
    reveal(envelope_chosen);
}

/// An invalid answer of the planner is repaired once, while a call is left beside the one for the
/// answer, and with a further message that asks for it. After that a run whose strategy is open goes
/// on directly, and one that asked for a plan fails. An invalid plan is never executed.
pub proof fn invalid_plans_are_repaired_once(
    run: PlannedModel,
    limits: AgentLimits,
    deadline: Option<u64>,
    now: u64,
    response: ResponseModel,
    error: HarnessError<Seq<char>>,
)
    requires
        run.stage is AwaitPlanner,
        !run.core.record.terminal,
        run.core.calls.balanced(),
        utf8_len(response.json_text()) <= limits.max_model_response_bytes,
        limits.max_model_call_duration_ms matches Some(most) ==> now + most <= u64::MAX,
    ensures
        ({
            let (next, action) = planned_responded(
                run,
                limits,
                deadline,
                now,
                Ok(response),
                Err(error),
            );
            let final_error = error is Cancelled || error is TimedOut || error is ResourceLimit;
            let repair = !run.repair_used && run.core.calls.model_calls + 1
                < limits.max_model_calls;
            let left = run.core.calls.model_calls < limits.max_model_calls;
            let result = next.core.record.ledger.result;
            &&& action != PlannedAction::ExecutePlan && next.plan == run.plan
            &&& final_error ==> action is Finish && next.core.record.terminal
            &&& !final_error && repair ==> action is CallModel && next.repair_used
                && next.retries == 0 && next.planner_messages.len() == run.planner_messages.len()
                + 1 && next.planner_messages.take(run.planner_messages.len() as int)
                == run.planner_messages && next.planner_messages.last().role == MessageRole::System
                && next.core.calls.repair == run.core.calls.repair + 1
            &&& !final_error && !repair && run.requested == RunStrategy::Adaptive && left ==> action
                == PlannedAction::React(ModelCallPhase::Reactive) && next.core.selected
                == RunStrategy::Direct
            &&& !final_error && !repair && run.requested == RunStrategy::Adaptive && !left
                ==> action is Finish && result.status == RunStatus::LimitReached
            &&& !final_error && !repair && run.requested != RunStrategy::Adaptive ==> action
                is Finish && result.errors.len() == run.core.record.ledger.result.errors.len() + 1
                && result.errors.last().code == "invalid_plan"@
            &&& next.core.messages == run.core.messages
        }),
{
    reveal(planner_answered);
    reveal(envelope_refused);
    reveal(planning_begun);
    reveal(planning_called);
    let (next, _) = planned_responded(run, limits, deadline, now, Ok(response), Err(error));
    if next.planner_messages.len() > run.planner_messages.len() {
        assert(next.planner_messages.take(run.planner_messages.len() as int)
            =~= run.planner_messages);
    }
}

/// A failure of the planner's call is retried only where it may pass, while retries are left and a
/// call beside the one for the answer. After that only a run whose strategy is open, and whose
/// failure is not final, goes on directly.
pub proof fn planner_failures_end_or_fall_back(
    run: PlannedModel,
    limits: AgentLimits,
    deadline: Option<u64>,
    now: u64,
    error: HarnessError<Seq<char>>,
    envelope: Result<PlannerEnvelope, HarnessError<Seq<char>>>,
)
    requires
        run.stage is AwaitPlanner,
        limits.max_model_call_duration_ms matches Some(most) ==> now + most <= u64::MAX,
    ensures
        ({
            let (next, action) = planned_responded(
                run,
                limits,
                deadline,
                now,
                Err(error),
                envelope,
            );
            let again = error is RetryableProvider && run.retries < limits.max_provider_retries
                && run.core.calls.model_calls + 1 < limits.max_model_calls;
            let final_error = error is Cancelled || error is TimedOut || error is ResourceLimit;
            &&& action is CallModel <==> again
            &&& again ==> next.retries == run.retries + 1 && next.repair_used == run.repair_used
                && next.planner_messages == run.planner_messages
            &&& action is React <==> !again && run.requested == RunStrategy::Adaptive
                && !final_error && run.core.calls.model_calls < limits.max_model_calls
            &&& action is React ==> action == PlannedAction::React(ModelCallPhase::Reactive)
                && next.core.selected == RunStrategy::Direct
            &&& action is CallModel || action is React || action is Finish
            &&& action is Finish ==> next.core.record.terminal
            &&& next.core.messages == run.core.messages
        }),
{
    reveal(planning_failed);
    reveal(planning_called);
}

/// A plan that succeeded is followed by the answer, with what it completed shown to the model. One
/// that failed is never answered as if it had not: the run ends with an error, falls back where
/// nothing took effect, or recovers where all that took effect is known.
pub proof fn executed_plans_are_answered(
    run: PlannedModel,
    limits: AgentLimits,
    deadline: Option<u64>,
    now: u64,
    recovering: bool,
    execution: OutcomeModel,
)
    requires
        run.core.calls.balanced(),
        limits.max_model_call_duration_ms matches Some(most) ==> now + most <= u64::MAX,
    ensures
        ({
            let (next, action) = plan_executed(run, limits, deadline, now, recovering, execution);
            let (shown, fits) = entries_appended(run.core.messages, execution.transcript, limits);
            let broker = run.core.record.ledger.broker;
            let known = forall|i: int|
                0 <= i < broker.effects.len() ==> (#[trigger] broker.effects[i]).1 is Completed;
            &&& execution.failure is None && fits is Ok ==> action == PlannedAction::React(
                ModelCallPhase::FinalSynthesis,
            ) && next.core.messages == shown
            &&& execution.failure is None && fits is Err ==> action is Finish
                && next.core.record.terminal
            &&& action == PlannedAction::React(ModelCallPhase::FinalSynthesis)
                ==> execution.failure is None
            &&& action == PlannedAction::React(ModelCallPhase::Reactive) ==> !recovering
                && execution.failure is Some && run.requested == RunStrategy::Adaptive
                && !execution.effects_started && !run.core.record.terminal && next.core.selected
                == RunStrategy::Direct && next.core.messages == run.core.messages
            &&& action is CallModel ==> !recovering && execution.failure is Some
                && execution.effects_started && known && !run.core.record.terminal
                && run.core.calls.model_calls + 1 < limits.max_model_calls && next.stage
                is AwaitRecovery && next.core.messages == shown && next.core.calls.recovery
                == run.core.calls.recovery + 1
            &&& action is Finish && execution.failure is Some
                ==> next.core.record.ledger.result.errors.len() > 0 || next.core.record.terminal
            &&& recovering && execution.failure is Some ==> action is Finish
            &&& action != PlannedAction::ExecutePlan
        }),
{
    reveal(execution_settled);
    reveal(concluded);
    reveal(recovery_begun);
    reveal(recovery_called);
}

/// A plan that recovers a run is executed as it was given, and marked as such, so that it is the
/// last; nothing but a plan recovers it, and the run then ends with an error.
pub proof fn recoveries_execute_one_plan(
    run: PlannedModel,
    limits: AgentLimits,
    deadline: Option<u64>,
    now: u64,
    response: ResponseModel,
    envelope: Result<PlannerEnvelope, HarnessError<Seq<char>>>,
)
    requires
        run.stage is AwaitRecovery,
        run.execution matches Some(execution) && execution.failure is Some,
        utf8_len(response.json_text()) <= limits.max_model_response_bytes,
    ensures
        ({
            let (next, action) = planned_responded(
                run,
                limits,
                deadline,
                now,
                Ok(response),
                envelope,
            );
            match envelope {
                Ok(PlannerEnvelope::DeclarativePlan { plan }) => action
                    == PlannedAction::ExecutePlan && next.plan == Some(plan) && next.stage
                    == PlannedStage::Executing { recovering: true },
                _ => action is Finish && next.plan == run.plan && (
                next.core.record.ledger.result.errors.len() > 0 || next.core.record.terminal),
            }
        }),
{
    reveal(recovery_answered);
    reveal(concluded);
}

/// The recovery is told every result that is there, and no other, under the name of its step.
pub proof fn completed_results_are_told(
    nodes: Seq<PlanNode>,
    outputs: Seq<Option<ToolResultModel>>,
    count: nat,
)
    requires
        count <= nodes.len() == outputs.len(),
    ensures
        ({
            let members = completed_members(nodes, outputs, count);
            &&& forall|i: int|
                #![trigger outputs[i]]
                0 <= i < count && outputs[i] is Some ==> members.contains(
                    (nodes[i].id@, outputs[i]->0.output),
                )
            &&& forall|k: int|
                #![trigger members[k]]
                0 <= k < members.len() ==> exists|i: int|
                    0 <= i < count && (#[trigger] outputs[i]) is Some && members[k] == (
                        nodes[i].id@,
                        outputs[i]->0.output,
                    )
        }),
    decreases count,
{
    let members = completed_members(nodes, outputs, count);
    if count > 0 {
        completed_results_are_told(nodes, outputs, (count - 1) as nat);
        let before = completed_members(nodes, outputs, (count - 1) as nat);
        assert forall|i: int| #![trigger outputs[i]] 0 <= i < count
            && outputs[i] is Some implies members.contains(
            (nodes[i].id@, outputs[i]->0.output),
        ) by {
            if i < count - 1 {
                let k = choose|k: int|
                    0 <= k < before.len() && before[k] == (nodes[i].id@, outputs[i]->0.output);
                assert(members[k] == before[k]);
            } else {
                assert(members[before.len() as int] == (nodes[i].id@, outputs[i]->0.output));
            }
        }
        assert forall|k: int| #![trigger members[k]] 0 <= k < members.len() implies exists|i: int|
            0 <= i < count && (#[trigger] outputs[i]) is Some && members[k] == (
                nodes[i].id@,
                outputs[i]->0.output,
            ) by {
            if k < before.len() {
                assert(members[k] == before[k]);
            } else {
                assert(outputs[count - 1] is Some);
            }
        }
    }
}

/// Leaving out the errors of one kind keeps all others, in their order.
pub proof fn other_errors_stay(errors: Seq<RunError<Seq<char>>>, code: Seq<char>)
    ensures
        errors_without(errors, code) == errors.filter(
            |error: RunError<Seq<char>>| error.code != code,
        ),
    decreases errors.len(),
{
    reveal(Seq::filter);
    if errors.len() > 0 {
        other_errors_stay(errors.drop_last(), code);
    }
}

} // verus!
