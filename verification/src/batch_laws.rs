//! What holds of the calls that a program makes together.

use crate::admission::{
    admission, approval_outcome, policy_outcome, AdmissionModel, AuthorizationModel, PreparedModel,
};
use crate::error::HarnessError;
use crate::json::{depth, parsed_json, rendered_json, JsonTree};
use crate::ledger::LedgerModel;
use crate::program_batch::{
    batch_admitted, batch_authorized, batch_begun, batch_dispatched, batch_prepared, batch_returned,
    batch_settled, batch_started, batch_step, call_settled, fan_out_fault, occurrence_call,
    occurrence_context, occurrence_id, outcomes_recorded, BatchCall, BatchContext, BatchEventModel,
    BatchModel, BatchResponseModel, BatchStageModel,
};
use crate::programmatic::ProgrammaticTranscript;
use crate::registry::output_fault;
use crate::strategy_core::CoreModel;
use crate::text::{decimal_digits, utf8_len};
use crate::tool::{ToolCaller, ToolResultModel};
use vstd::prelude::*;

verus! {

/// Dispatching counts every prepared call once and nothing else.
proof fn started_calls_are_counted(
    ledger: LedgerModel,
    prepared: Seq<(usize, PreparedModel)>,
    count: nat,
)
    requires
        count <= prepared.len(),
        ledger.broker.tool_issued + prepared.len() <= u32::MAX,
    ensures
        ({
            let after = batch_started(ledger, prepared, count);
            &&& after.broker.tool_issued == ledger.broker.tool_issued + count
            &&& after.broker.tool_calls == ledger.broker.tool_calls
            &&& after.broker.tool_rejected == ledger.broker.tool_rejected
            &&& after.broker.tool_completed == ledger.broker.tool_completed
            &&& after.broker.tool_failed == ledger.broker.tool_failed
            &&& after.result == ledger.result
        }),
    decreases count,
{
    if count > 0 {
        started_calls_are_counted(ledger, prepared, (count - 1) as nat);
    }
}

/// What follows a call that was handled: the next call is prepared, or all that were authorized are
/// executed at once, or, where none was, the batch ends.
proof fn handled_calls_lead_on(run: BatchModel)
    requires
        run.next < run.calls.len() <= usize::MAX,
        run.core.record.ledger.broker.tool_issued + run.prepared.len() <= u32::MAX,
    ensures
        ({
            let (next, action) = call_settled(run);
            let before = run.core.record.ledger.broker;
            let after = next.core.record.ledger.broker;
            &&& next.next == run.next + 1 && next.prepared == run.prepared
            &&& next.responses == run.responses && next.outcomes == run.outcomes
            &&& next.calls == run.calls && next.first_error == run.first_error
            &&& after.tool_rejected == before.tool_rejected && after.tool_calls
                == before.tool_calls && after.tool_completed == before.tool_completed
            &&& if run.next + 1 < run.calls.len() {
                action is Check && next.stage is Prepare && after == before
            } else if run.prepared.len() > 0 {
                action is Execute && next.stage == BatchStageModel::Results(0)
                    && next.dispatched && after.tool_issued == before.tool_issued
                    + run.prepared.len()
            } else {
                action is Finish && next.stage is Done && after == before && next.dispatched
                    == run.dispatched
            }
        }),
{
    reveal(call_settled);
    reveal(batch_dispatched);
    reveal(batch_settled);
    started_calls_are_counted(run.core.record.ledger, run.prepared, run.prepared.len());
}

/// A call of a batch is prepared for execution only where the policy allowed it and no approval was
/// due, or where approval was granted. What the policy denied, and what was not approved, never is.
pub proof fn only_authorized_calls_are_executed(
    context: &BatchContext,
    run: BatchModel,
    event: BatchEventModel,
    call: PreparedModel,
)
    requires
        run.next < run.calls.len() <= usize::MAX,
        run.core.record.ledger.broker.tool_issued + run.prepared.len() < u32::MAX,
        run.core.record.ledger.broker.tool_rejected < u32::MAX,
        (run.stage == BatchStageModel::AwaitPolicy(call) && event is Decided) || (run.stage
            == BatchStageModel::AwaitApproval(call) && event is Approved),
    ensures
        ({
            let (next, action) = batch_step(context, run, event);
            let before = run.core.record.ledger.broker;
            let after = next.core.record.ledger.broker;
            let allowed = event matches BatchEventModel::Decided(Ok(decision)) && decision is Allow;
            let due = event matches BatchEventModel::Decided(Ok(decision)) && (decision
                is RequireApproval || (decision is Allow && call.approval_barrier));
            let granted = event == BatchEventModel::Approved(Ok(true));
            let refused = event == BatchEventModel::Approved(Ok(false)) || (
            event matches BatchEventModel::Decided(Ok(decision)) && decision is Deny);
            let index = run.next as int;
            &&& (allowed && !call.approval_barrier) || granted ==> {
                &&& next.prepared == run.prepared.push((run.next, call))
                &&& next.next == run.next + 1
                &&& next.responses == run.responses && next.outcomes == run.outcomes
                &&& after.tool_rejected == before.tool_rejected
                &&& if run.next + 1 < run.calls.len() {
                    action is Check && after.tool_issued == before.tool_issued
                } else {
                    action is Execute && next.stage == BatchStageModel::Results(0)
                        && after.tool_issued == before.tool_issued + next.prepared.len()
                }
            }
            &&& due ==> {
                &&& action is AskApproval && next.stage == BatchStageModel::AwaitApproval(call)
                &&& next.prepared == run.prepared && next.next == run.next && after == before
                &&& next.responses == run.responses && next.outcomes == run.outcomes
            }
            &&& refused ==> {
                &&& next.prepared == run.prepared && next.next == run.next + 1
                &&& after.tool_rejected == before.tool_rejected + 1
                &&& next.responses == run.responses.update(
                    index,
                    Some(BatchResponseModel::Failure),
                )
                &&& next.outcomes == run.outcomes.update(index, Some(false))
                &&& run.next + 1 < run.calls.len() ==> action is Check && after.tool_issued
                    == before.tool_issued
                &&& run.next + 1 == run.calls.len() && run.prepared.len() == 0 ==> action is Finish
                    && after.tool_issued == before.tool_issued
            }
            &&& (event matches BatchEventModel::Decided(Err(error)) ==> action is Finish
                && next.stage == BatchStageModel::Done(Some(error)) && after == before
                && next.prepared == run.prepared)
            &&& (event matches BatchEventModel::Approved(Err(error)) ==> action is Finish
                && next.stage == BatchStageModel::Done(Some(error)) && after == before
                && next.prepared == run.prepared)
        }),
{
    reveal(batch_authorized);
    let answered = match (run.stage, event) {
        (BatchStageModel::AwaitPolicy(_), BatchEventModel::Decided(Ok(decision))) => Some(
            policy_outcome(
                run.core.record.ledger,
                call.call,
                decision,
                call.approval_barrier,
            ),
        ),
        (BatchStageModel::AwaitApproval(_), BatchEventModel::Approved(Ok(granted))) => Some(
            approval_outcome(run.core.record.ledger, call.call, granted),
        ),
        _ => None,
    };
    if let Some((ledger, answer)) = answered {
        let resting = run.at(BatchStageModel::Prepare).with_ledger(ledger);
        match answer {
            AuthorizationModel::Authorized => {
                handled_calls_lead_on(
                    BatchModel { prepared: run.prepared.push((run.next, call)), ..resting },
                );
            },
            AuthorizationModel::Rejected(_) => {
                handled_calls_lead_on(
                    resting.answered(run.next as int, Some(BatchResponseModel::Failure), false),
                );
            },
            _ => {},
        }
    }
}

/// Looking at a call of a batch issues none, and what is put to the policy is that call.
proof fn admission_issues_nothing(context: &BatchContext, run: BatchModel, call: BatchCall)
    ensures
        ({
            let (ledger, outcome) = admission(
                run.core.record.ledger,
                context.broker.tools@,
                context.broker.scope,
                context.request,
                occurrence_call(call, run.nonce),
                ToolCaller::Programmatic,
                false,
                false,
                Some(occurrence_context(run.core, call, run.nonce)),
            );
            &&& ledger.broker.tool_issued == run.core.record.ledger.broker.tool_issued
            &&& outcome matches Ok(AdmissionModel::Authorize(prepared)) ==> prepared.call.id
                == occurrence_id(call, run.nonce) && prepared.call.tool_id == call.tool_id@
                && prepared.caller == ToolCaller::Programmatic && !prepared.approval_barrier
                && parsed_json(rendered_json(call.arguments@)) == Ok::<JsonTree, Seq<char>>(
                prepared.arguments,
            )
            &&& !(outcome matches Ok(AdmissionModel::Deferred(_)))
        }),
{
    reveal(admission);
}

/// While calls are looked at one by one none is prepared or executed: what is put to the policy is
/// the call whose turn it is, for its tool, with its arguments, as a call of a program. A call that
/// is answered without execution gets a failure or a successful result, and the others keep theirs.
pub proof fn calls_are_put_to_the_policy_in_order(
    context: &BatchContext,
    run: BatchModel,
    cancelled: bool,
    now: u64,
)
    requires
        run.stage is Prepare,
        run.next < run.calls.len() <= usize::MAX,
        run.responses.len() == run.calls.len() && run.outcomes.len() == run.calls.len(),
        run.core.record.ledger.broker.tool_issued + run.prepared.len() <= u32::MAX,
    ensures
        ({
            let (next, action) = batch_step(
                context,
                run,
                BatchEventModel::Checked(cancelled, now),
            );
            let before = run.core.record.ledger.broker;
            let after = next.core.record.ledger.broker;
            let call = run.calls[run.next as int];
            let index = run.next as int;
            let late = context.deadline matches Some(end) && now >= end;
            &&& next.prepared == run.prepared
            &&& cancelled || late ==> action is Finish && next.core == run.core && (
            next.stage matches BatchStageModel::Done(Some(error)) && (cancelled <==> error
                is Cancelled))
            &&& after.tool_issued != before.tool_issued ==> action is Execute
            &&& next.stage matches BatchStageModel::AwaitPolicy(prepared) ==> {
                &&& action is AskPolicy && next.next == run.next
                &&& prepared.call.id == occurrence_id(call, run.nonce)
                &&& prepared.call.tool_id == call.tool_id@
                &&& parsed_json(rendered_json(call.arguments@)) == Ok::<JsonTree, Seq<char>>(
                    prepared.arguments,
                )
                &&& prepared.caller == ToolCaller::Programmatic
                &&& next.responses == run.responses && next.outcomes == run.outcomes
            }
            &&& !(action is Finish) || next.next != run.next ==> next.stage is AwaitPolicy || {
                &&& next.next == run.next + 1
                &&& next.responses == run.responses.update(index, next.responses[index])
                &&& next.outcomes == run.outcomes.update(index, next.outcomes[index])
                &&& match next.responses[index] {
                    None => false,
                    Some(BatchResponseModel::Failure) => next.outcomes[index] == Some(false),
                    Some(BatchResponseModel::Success(result)) => result.ok
                        && next.outcomes[index] == Some(true),
                }
            }
        }),
{
    reveal(batch_prepared);
    reveal(batch_admitted);
    let call = run.calls[run.next as int];
    let index = run.next as int;
    let (ledger, outcome) = admission(
        run.core.record.ledger,
        context.broker.tools@,
        context.broker.scope,
        context.request,
        occurrence_call(call, run.nonce),
        ToolCaller::Programmatic,
        false,
        false,
        Some(occurrence_context(run.core, call, run.nonce)),
    );
    admission_issues_nothing(context, run, call);
    let entered = run.with_ledger(ledger);
    let failed = entered.answered(index, Some(BatchResponseModel::Failure), false);
    handled_calls_lead_on(failed);
    match outcome {
        Ok(AdmissionModel::Reused(result)) if result.ok => {
            handled_calls_lead_on(
                entered.answered(index, Some(BatchResponseModel::Success(result)), true),
            );
        },
        _ => {},
    }
    let (next, _) = batch_step(context, run, BatchEventModel::Checked(cancelled, now));
    if next.next != run.next {
        assert(next.responses =~= run.responses.update(index, next.responses[index]));
        assert(next.outcomes =~= run.outcomes.update(index, next.outcomes[index]));
    }
}

/// What a tool returned is handed to the program at the place of its call, as it is, where it
/// succeeded and is what the tool promised. Everything else is a failure: it is remembered as the
/// first where none came before, and the place of the call stays without a response.
pub proof fn results_take_their_places(
    context: &BatchContext,
    run: BatchModel,
    position: usize,
    outcome: Result<ToolResultModel, HarnessError<Seq<char>>>,
    fault: Option<HarnessError<Seq<char>>>,
)
    requires
        run.stage == BatchStageModel::Results(position),
        position < run.prepared.len() <= usize::MAX,
        run.prepared[position as int].0 < run.responses.len() == run.outcomes.len(),
        run.core.record.ledger.broker.tool_completed < u32::MAX,
        run.core.record.ledger.broker.tool_failed < u32::MAX,
        run.core.record.ledger.broker.tool_cancelled < u32::MAX,
    ensures
        ({
            let (next, action) = batch_step(
                context,
                run,
                BatchEventModel::Returned(outcome, fault),
            );
            let (index, call) = run.prepared[position as int];
            let limits = context.request.agent.limits;
            let good = fault is None && (outcome matches Ok(result) && result.ok && utf8_len(
                result.json_text(),
            ) <= limits.max_tool_result_bytes && depth(result.output) <= limits.max_json_depth
                && output_fault(context.broker.tools@, call.call.tool_id, result.output) is None);
            let before = run.core.record.ledger.broker;
            let after = next.core.record.ledger.broker;
            &&& next.prepared == run.prepared && next.calls == run.calls
            &&& after.tool_issued == before.tool_issued && after.tool_rejected
                == before.tool_rejected && after.tool_calls == before.tool_calls
            &&& good ==> {
                &&& next.responses == run.responses.update(
                    index as int,
                    Some(BatchResponseModel::Success(outcome->Ok_0)),
                )
                &&& next.outcomes == run.outcomes.update(index as int, Some(true))
                &&& next.first_error == run.first_error
                &&& after.tool_completed == before.tool_completed + 1
                &&& after.tool_failed == before.tool_failed && after.tool_cancelled
                    == before.tool_cancelled
            }
            &&& !good ==> {
                &&& next.responses == run.responses
                &&& next.outcomes == run.outcomes.update(index as int, Some(false))
                &&& next.first_error is Some
                &&& run.first_error is Some ==> next.first_error == run.first_error
                &&& after.tool_completed == before.tool_completed
                &&& after.tool_failed + after.tool_cancelled == before.tool_failed
                    + before.tool_cancelled + 1
            }
            &&& if position + 1 < run.prepared.len() {
                action is AwaitResult && next.stage == BatchStageModel::Results(
                    (position + 1) as usize,
                )
            } else {
                &&& action is Finish
                &&& next.stage matches BatchStageModel::Done(error) && (error is None
                    ==> next.first_error is None && forall|i: int|
                    0 <= i < next.responses.len() ==> (#[trigger] next.responses[i]) is Some)
            }
        }),
{
    reveal(batch_returned);
    reveal(batch_settled);
}

/// Every outcome of a batch is counted once: the calls that succeeded and those that failed.
pub proof fn outcomes_are_all_counted(
    transcript: ProgrammaticTranscript,
    outcomes: Seq<Option<bool>>,
    count: nat,
)
    requires
        count <= outcomes.len(),
        outcomes_recorded(transcript, outcomes, count).1 is None,
    ensures
        ({
            let after = outcomes_recorded(transcript, outcomes, count).0.summary;
            let succeeded = outcomes.take(count as int).filter(
                |outcome: Option<bool>| outcome == Some(true),
            ).len();
            let failed = outcomes.take(count as int).filter(
                |outcome: Option<bool>| outcome == Some(false),
            ).len();
            &&& after.succeeded == transcript.summary.succeeded + succeeded
            &&& after.failed == transcript.summary.failed + failed
            &&& after.total == transcript.summary.total + succeeded + failed
        }),
    decreases count,
{
    reveal(Seq::filter);
    if count > 0 {
        outcomes_are_all_counted(transcript, outcomes, (count - 1) as nat);
        assert(outcomes.take(count as int).drop_last() =~= outcomes.take(count - 1));
    }
}

/// A batch runs its calls beside each other only while there are no more of them than the host, the
/// run and the provider each allow, and the provider says that it takes parallel calls. Where the
/// tools fit, the calls are no more than that and their results can be told, the batch starts.
pub proof fn fan_outs_stay_within_limits(
    context: &BatchContext,
    core: CoreModel,
    transcript: ProgrammaticTranscript,
    calls: Seq<BatchCall>,
    nonce: Seq<char>,
)
    requires
        calls.len() > 0,
    ensures
        ({
            let (begun, action) = batch_begun(context, core, transcript, calls, true, nonce);
            let most = context.capabilities.limits.max_parallel_tool_calls;
            let within = context.capabilities.supports_parallel_tool_calls && (most matches Some(
                provider,
            ) && 0 < provider && calls.len() <= provider) && calls.len() <= context.host_fanout
                && calls.len() <= context.request_fanout && calls.len() <= 8;
            &&& action is Check ==> within && begun.stage is Prepare && begun.next == 0
                && begun.calls == calls && begun.prepared.len() == 0
            &&& !within ==> action is Finish && !begun.dispatched && (
            begun.stage matches BatchStageModel::Done(Some(_)))
            &&& within && transcript.reservation(calls.len()) is Ok && fan_out_fault(
                context.broker.tools@,
                context.request,
                calls,
                0,
            ) is None ==> action is Check
            &&& begun.core == core
        }),
{
}

/// The digits of a number hold no hyphen and are never empty.
proof fn digits_hold_no_hyphen(value: nat)
    ensures
        decimal_digits(value).len() > 0,
        forall|i: int|
            0 <= i < decimal_digits(value).len() ==> (#[trigger] decimal_digits(value)[i]) != '-',
    decreases value,
{
    if value >= 10 {
        digits_hold_no_hyphen(value / 10);
    }
}

/// Different numbers have different digits.
proof fn digits_tell_numbers_apart(left: nat, right: nat)
    requires
        decimal_digits(left) == decimal_digits(right),
    ensures
        left == right,
    decreases left,
{
    digits_hold_no_hyphen(left / 10);
    digits_hold_no_hyphen(right / 10);
    let one = decimal_digits(left);
    let other = decimal_digits(right);
    assert(one.last() == other.last());
    if left >= 10 && right >= 10 {
        assert(one.drop_last() =~= decimal_digits(left / 10));
        assert(other.drop_last() =~= decimal_digits(right / 10));
        digits_tell_numbers_apart(left / 10, right / 10);
    }
}

/// What stands before the first hyphen, and what stands behind it, can be told from the whole.
proof fn hyphens_part(left: Seq<char>, left_rest: Seq<char>, right: Seq<char>, right_rest: Seq<char>)
    requires
        left + "-"@ + left_rest == right + "-"@ + right_rest,
        forall|i: int| 0 <= i < left.len() ==> (#[trigger] left[i]) != '-',
        forall|i: int| 0 <= i < right.len() ==> (#[trigger] right[i]) != '-',
    ensures
        left == right,
        left_rest == right_rest,
{
    reveal_strlit("-");
    let whole = left + "-"@ + left_rest;
    let other = right + "-"@ + right_rest;
    assert(whole[left.len() as int] == '-');
    assert(other[right.len() as int] == '-');
    if left.len() < right.len() {
        assert(other[left.len() as int] == right[left.len() as int]);
    }
    if right.len() < left.len() {
        assert(whole[right.len() as int] == left[right.len() as int]);
    }
    assert forall|i: int| 0 <= i < left.len() implies left[i] == right[i] by {
        assert(whole[i] == left[i]);
        assert(other[i] == right[i]);
    }
    assert(left =~= right);
    assert(whole.len() == other.len());
    assert forall|i: int| 0 <= i < left_rest.len() implies left_rest[i] == right_rest[i] by {
        assert(whole[left.len() + 1 + i] == left_rest[i]);
        assert(other[left.len() + 1 + i] == right_rest[i]);
    }
    assert(left_rest =~= right_rest);
}

/// The calls of one program are told apart by their identifiers: two of them have the same one only
/// where they come from the same attempt, the same place in the program and the same visit to it.
pub proof fn occurrences_are_told_apart(left: BatchCall, right: BatchCall, nonce: Seq<char>)
    requires
        occurrence_id(left, nonce) == occurrence_id(right, nonce),
    ensures
        left.program_attempt == right.program_attempt,
        left.call_site == right.call_site,
        left.dynamic_ordinal == right.dynamic_ordinal,
{
    reveal_strlit("-");
    reveal_strlit("programmatic-");
    let prefix = "programmatic-"@;
    let one = decimal_digits(left.program_attempt as nat);
    let other = decimal_digits(right.program_attempt as nat);
    let one_site = decimal_digits(left.call_site as nat);
    let other_site = decimal_digits(right.call_site as nat);
    let one_visit = decimal_digits(left.dynamic_ordinal as nat);
    let other_visit = decimal_digits(right.dynamic_ordinal as nat);
    let one_tail = one_site + "-"@ + one_visit;
    let other_tail = other_site + "-"@ + other_visit;
    let one_rest = nonce + "-"@ + one_tail;
    let other_rest = nonce + "-"@ + other_tail;
    let left_id = occurrence_id(left, nonce);
    let right_id = occurrence_id(right, nonce);
    assert(left_id =~= prefix + (one + "-"@ + one_rest));
    assert(right_id =~= prefix + (other + "-"@ + other_rest));
    assert(left_id.skip(prefix.len() as int) =~= one + "-"@ + one_rest);
    assert(right_id.skip(prefix.len() as int) =~= other + "-"@ + other_rest);
    digits_hold_no_hyphen(left.program_attempt as nat);
    digits_hold_no_hyphen(right.program_attempt as nat);
    hyphens_part(one, one_rest, other, other_rest);
    digits_tell_numbers_apart(left.program_attempt as nat, right.program_attempt as nat);
    assert(one_rest.skip(nonce.len() as int + 1) =~= one_tail);
    assert(other_rest.skip(nonce.len() as int + 1) =~= other_tail);
    digits_hold_no_hyphen(left.call_site as nat);
    digits_hold_no_hyphen(right.call_site as nat);
    hyphens_part(one_site, one_visit, other_site, other_visit);
    digits_tell_numbers_apart(left.call_site as nat, right.call_site as nat);
    digits_tell_numbers_apart(left.dynamic_ordinal as nat, right.dynamic_ordinal as nat);
}

} // verus!
