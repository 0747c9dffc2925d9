//! What a plan execution is for: when a node runs, beside which others, and what its result becomes.

use crate::admission::PreparedModel;
use crate::binding::first_named;
use crate::error::HarnessError;
use crate::json::depth;
use crate::model::ModelCapabilities;
use crate::plan::{id_position, node_ids, PlanConcurrency, PlanNode};
use crate::plan_model::{
    bind_failed, bound_authorized, outcome_noted, plan_step, preflight_authorized, result_handled,
    wave_started, PlanContext, PlanEventModel, PlanModel, StageModel,
};
use crate::policy::PolicyDecision;
use crate::registry::{output_fault, registered, RegisteredTool};
use crate::schedule::{
    eligible, entry_bytes, is_done, lifecycle_of_error, next_wave, node_of_error, parallelism,
    permitted, ready, ready_nodes, slot_key, terminal_failure, wave_keys, wave_of, PlanFailureKind,
    SlotModel,
};
use crate::text::utf8_len;
use crate::tool::{ToolCall, ToolResultModel};
use vstd::prelude::*;

verus! {

proof fn node_position(nodes: Seq<PlanNode>, id: Seq<char>, start: nat)
    ensures
        match id_position(node_ids(nodes), id, start) {
            Some(position) => start <= position < nodes.len() && nodes[position as int].id@ == id
                && forall|j: int| start <= j < position ==> (#[trigger] nodes[j]).id@ != id,
            None => forall|j: int| start <= j < nodes.len() ==> (#[trigger] nodes[j]).id@ != id,
        },
    decreases nodes.len() - start,
{
    if start < nodes.len() {
        assert(node_ids(nodes)[start as int] == nodes[start as int].id@);
        if nodes[start as int].id@ != id {
            node_position(nodes, id, start + 1);
        }
    }
}

/// Whether the node with this identifier has a result.
pub open spec fn has_result(nodes: Seq<PlanNode>, done: Seq<bool>, id: Seq<char>) -> bool {
    exists|source: int| #[trigger] first_named(nodes, id, source) && done[source]
}

proof fn done_nodes_have_results(nodes: Seq<PlanNode>, done: Seq<bool>, id: Seq<char>)
    requires
        done.len() == nodes.len(),
    ensures
        is_done(nodes, done, id) <==> has_result(nodes, done, id),
{
    node_position(nodes, id, 0);
    if let Some(position) = id_position(node_ids(nodes), id, 0) {
        assert(first_named(nodes, id, position as int));
        assert forall|source: int| #[trigger] first_named(nodes, id, source) implies source
            == position by {
            if source < position {
                assert(nodes[source].id@ != id);
            } else if position < source {
                assert(nodes[position as int].id@ != id);
            }
        }
    }
}

/// A node may run once it lacks a result and every node that it depends on has one.
pub proof fn nodes_wait_for_their_dependencies(nodes: Seq<PlanNode>, done: Seq<bool>, index: int)
    requires
        0 <= index < nodes.len(),
        done.len() == nodes.len(),
    ensures
        ready(nodes, done, index) <==> !done[index] && forall|k: int|
            0 <= k < nodes[index].depends_on@.len() ==> has_result(
                nodes,
                done,
                (#[trigger] nodes[index].depends_on@[k])@,
            ),
{
    assert forall|k: int| 0 <= k < nodes[index].depends_on@.len() implies (is_done(
        nodes,
        done,
        (#[trigger] nodes[index].depends_on@[k])@,
    ) <==> has_result(nodes, done, nodes[index].depends_on@[k]@)) by {
        done_nodes_have_results(nodes, done, nodes[index].depends_on@[k]@);
    }
}

/// The candidates of a wave are all nodes that may run, in the order of the plan, or those of them
/// that change nothing.
pub proof fn candidates_are_all_that_may_run(
    nodes: Seq<PlanNode>,
    done: Seq<bool>,
    slots: Seq<SlotModel>,
    reads: bool,
    count: nat,
)
    requires
        count <= nodes.len(),
        nodes.len() <= usize::MAX,
    ensures
        ({
            let list = ready_nodes(nodes, done, slots, reads, count);
            &&& forall|k: int|
                0 <= k < list.len() ==> (#[trigger] list[k]) < count && ready(
                    nodes,
                    done,
                    list[k] as int,
                ) && (reads ==> (slots[list[k] as int] matches SlotModel::Prepared(call)
                    && call.read_only))
            &&& forall|index: int|
                0 <= index < count && #[trigger] ready(nodes, done, index) && (!reads || (
                slots[index] matches SlotModel::Prepared(call) && call.read_only))
                    ==> list.contains(index as usize)
            &&& forall|i: int, j: int| 0 <= i < j < list.len() ==> list[i] < list[j]
        }),
    decreases count,
{
    if count > 0 {
        candidates_are_all_that_may_run(nodes, done, slots, reads, (count - 1) as nat);
        let before = ready_nodes(nodes, done, slots, reads, (count - 1) as nat);
        let list = ready_nodes(nodes, done, slots, reads, count);
        assert forall|index: int|
            0 <= index < count && #[trigger] ready(nodes, done, index) && (!reads || (
            slots[index] matches SlotModel::Prepared(call)
                && call.read_only)) implies list.contains(index as usize) by {
            if index < count - 1 {
                let k = choose|k: int| 0 <= k < before.len() && before[k] == index as usize;
                assert(list[k] == index as usize);
            } else {
                assert(list[list.len() - 1] == index as usize);
            }
        }
    }
}

/// Whether a node may run beside others: a recorded result always may; a call may where neither the
/// plan nor its tool forbids it and its tool changes nothing.
pub open spec fn may_share(
    tools: Seq<RegisteredTool>,
    node: PlanNode,
    slot: SlotModel,
) -> bool {
    slot is Reused || (slot matches SlotModel::Prepared(call) && node.concurrency
        == PlanConcurrency::ToolDefault && !node.approval_barrier && !node.commit_boundary && (
    registered(tools, call.call.tool_id) matches Some(tool) && tool.definition.read_only
        && tool.definition.parallel_safe))
}

proof fn waves_grow(
    nodes: Seq<PlanNode>,
    tools: Seq<RegisteredTool>,
    slots: Seq<SlotModel>,
    candidates: Seq<usize>,
    max_parallel: usize,
    count: nat,
)
    requires
        count <= candidates.len(),
    ensures
        ({
            let wave = wave_of(nodes, tools, slots, candidates, max_parallel, count);
            &&& forall|k: int|
                0 <= k < wave.len() ==> may_share(
                    tools,
                    nodes[(#[trigger] wave[k]) as int],
                    slots[wave[k] as int],
                )
            &&& forall|k: int|
                0 <= k < count && may_share(
                    tools,
                    nodes[(#[trigger] candidates[k]) as int],
                    slots[candidates[k] as int],
                ) && !wave.contains(candidates[k]) ==> wave.len() >= max_parallel || (slot_key(
                    tools,
                    slots[candidates[k] as int],
                ) is Some && exists|j: int|
                    0 <= j < wave.len() && slot_key(tools, slots[(#[trigger] wave[j]) as int])
                        == slot_key(tools, slots[candidates[k] as int]))
        }),
    decreases count,
{
    if count > 0 {
        waves_grow(nodes, tools, slots, candidates, max_parallel, (count - 1) as nat);
        let before = wave_of(nodes, tools, slots, candidates, max_parallel, (count - 1) as nat);
        let wave = wave_of(nodes, tools, slots, candidates, max_parallel, count);
        let last = candidates[count - 1];
        assert forall|k: int|
            0 <= k < count && may_share(
                tools,
                nodes[(#[trigger] candidates[k]) as int],
                slots[candidates[k] as int],
            ) && !wave.contains(candidates[k]) implies wave.len() >= max_parallel || (slot_key(
            tools,
            slots[candidates[k] as int],
        ) is Some && exists|j: int|
            0 <= j < wave.len() && slot_key(tools, slots[(#[trigger] wave[j]) as int]) == slot_key(
                tools,
                slots[candidates[k] as int],
            )) by {
            let key = slot_key(tools, slots[candidates[k] as int]);
            if k < count - 1 {
                if before.contains(candidates[k]) {
                    let j = choose|j: int| 0 <= j < before.len() && before[j] == candidates[k];
                    assert(wave[j] == candidates[k]);
                }
                if before.len() < max_parallel {
                    let j = choose|j: int|
                        0 <= j < before.len() && slot_key(
                            tools,
                            slots[(#[trigger] before[j]) as int],
                        ) == key;
                    assert(wave[j] == before[j]);
                }
            } else {
                let keys = wave_keys(tools, slots, before);
                if wave != before {
                    assert(wave[wave.len() - 1] == last);
                } else if before.len() < max_parallel {
                    let j = choose|j: int| 0 <= j < keys.len() && keys[j] == key;
                    assert(slot_key(tools, slots[wave[j] as int]) == key);
                }
            }
        }
    }
}

/// The first candidate always runs next. It runs alone where it may not run beside others; else
/// every candidate joins it that may, up to the limit, unless it shares a key with one before it.
/// Nothing that must run alone runs beside another.
pub proof fn waves_take_what_may_run_together(
    nodes: Seq<PlanNode>,
    tools: Seq<RegisteredTool>,
    slots: Seq<SlotModel>,
    candidates: Seq<usize>,
    max_parallel: usize,
)
    requires
        candidates.len() > 0,
        max_parallel > 0,
    ensures
        ({
            let wave = next_wave(nodes, tools, slots, candidates, max_parallel);
            let first = candidates[0];
            &&& wave.contains(first)
            &&& wave.len() > 1 ==> forall|k: int|
                0 <= k < wave.len() ==> may_share(
                    tools,
                    nodes[(#[trigger] wave[k]) as int],
                    slots[wave[k] as int],
                )
            &&& may_share(tools, nodes[first as int], slots[first as int]) ==> forall|k: int|
                0 <= k < candidates.len() && may_share(
                    tools,
                    nodes[(#[trigger] candidates[k]) as int],
                    slots[candidates[k] as int],
                ) && !wave.contains(candidates[k]) ==> wave.len() >= max_parallel || (slot_key(
                    tools,
                    slots[candidates[k] as int],
                ) is Some && exists|j: int|
                    0 <= j < wave.len() && slot_key(tools, slots[(#[trigger] wave[j]) as int])
                        == slot_key(tools, slots[candidates[k] as int]))
        }),
{
    let first = candidates[0];
    let wave = next_wave(nodes, tools, slots, candidates, max_parallel);
    if eligible(tools, nodes[first as int], slots[first as int]) {
        waves_grow(nodes, tools, slots, candidates, max_parallel, candidates.len());
        first_candidates_join(nodes, tools, slots, candidates, max_parallel, candidates.len());
    } else {
        assert(wave[0] == first);
    }
}

proof fn first_candidates_join(
    nodes: Seq<PlanNode>,
    tools: Seq<RegisteredTool>,
    slots: Seq<SlotModel>,
    candidates: Seq<usize>,
    max_parallel: usize,
    count: nat,
)
    requires
        0 < count <= candidates.len(),
        max_parallel > 0,
        eligible(tools, nodes[candidates[0] as int], slots[candidates[0] as int]),
    ensures
        wave_of(nodes, tools, slots, candidates, max_parallel, count).contains(candidates[0]),
    decreases count,
{
    let wave = wave_of(nodes, tools, slots, candidates, max_parallel, count);
    if count == 1 {
        let none = wave_of(nodes, tools, slots, candidates, max_parallel, 0);
        assert(none =~= Seq::empty());
        assert(wave[0] == candidates[0]);
    } else {
        first_candidates_join(nodes, tools, slots, candidates, max_parallel, (count - 1) as nat);
        let before = wave_of(nodes, tools, slots, candidates, max_parallel, (count - 1) as nat);
        let k = choose|k: int| 0 <= k < before.len() && before[k] == candidates[0];
        assert(wave[k] == candidates[0]);
    }
}

/// Two calls of one wave never share the key of their tools.
pub proof fn keys_are_those_of_the_tools(
    tools: Seq<RegisteredTool>,
    call: PreparedModel,
    key: Seq<char>,
)
    ensures
        slot_key(tools, SlotModel::Prepared(call)) == Some(key) <==> (registered(
            tools,
            call.call.tool_id,
        ) matches Some(tool) && tool.definition.concurrency_key matches Some(own) && own@ == key),
{
}

/// No more calls run together than the provider allows, and never more than eight; one at a time
/// where it allows none together.
pub proof fn parallel_calls_are_limited(capabilities: ModelCapabilities)
    ensures
        1 <= parallelism(capabilities) <= 8,
        !capabilities.supports_parallel_tool_calls ==> parallelism(capabilities) == 1,
        capabilities.supports_parallel_tool_calls ==> match capabilities.limits.max_parallel_tool_calls {
            None => parallelism(capabilities) == 8,
            Some(limit) => (1 <= limit <= 8 ==> parallelism(capabilities) == limit) && (limit > 8
                ==> parallelism(capabilities) == 8),
        },
{
}

/// Calls are let through from the first on for as long as the budget holds what they may take at
/// most: the first that is held back would exceed it.
pub proof fn budgets_let_through_what_fits(
    calls: Seq<ToolCall<Seq<char>>>,
    retained: u64,
    budget: u64,
    max_tool_result_bytes: u64,
    count: nat,
)
    requires
        retained <= budget < u64::MAX,
        count <= calls.len(),
    ensures
        ({
            let (fitting, bytes) = permitted(calls, retained, budget, max_tool_result_bytes, count);
            &&& fitting <= count && bytes <= budget
            &&& fitting < count ==> bytes + entry_bytes(
                calls[fitting as int],
                max_tool_result_bytes as nat,
            ) > budget
            &&& bytes == retained + most_bytes(calls.take(fitting as int), max_tool_result_bytes)
        }),
    decreases count,
{
    if count > 0 {
        budgets_let_through_what_fits(
            calls,
            retained,
            budget,
            max_tool_result_bytes,
            (count - 1) as nat,
        );
        let taken = calls.take(count as int);
        assert(taken.drop_last() =~= calls.take(count - 1));
        assert(taken.last() == calls[count - 1]);
    } else {
        assert(calls.take(0) =~= Seq::empty());
    }
}

/// The most that calls can take in a transcript together.
pub open spec fn most_bytes(calls: Seq<ToolCall<Seq<char>>>, max_tool_result_bytes: u64) -> nat
    decreases calls.len(),
{
    if calls.len() == 0 {
        0
    } else {
        most_bytes(calls.drop_last(), max_tool_result_bytes) + entry_bytes(
            calls.last(),
            max_tool_result_bytes as nat,
        )
    }
}

/// What a call takes in a transcript: its identifier twice, its tool, its arguments and its result.
pub proof fn entries_hold_call_and_result(call: ToolCall<Seq<char>>, result_bytes: nat)
    ensures
        entry_bytes(call, result_bytes) == utf8_len(call.id) + utf8_len(call.id) + utf8_len(
            call.tool_id,
        ) + utf8_len(call.arguments_json) + result_bytes,
{
}

/// A stop and a limit end a run for good; no other error of a tool does.
pub proof fn stops_and_limits_are_final(error: HarnessError<Seq<char>>)
    ensures
        terminal_failure(error) <==> match error {
            HarnessError::Cancelled => true,
            HarnessError::TimedOut(_) => true,
            HarnessError::ResourceLimit(_) => true,
            _ => false,
        },
        node_of_error(error) is Cancelled <==> error is Cancelled,
        node_of_error(error) is TimedOut <==> error is TimedOut,
        node_of_error(error) is LimitReached <==> error is ResourceLimit,
        !(node_of_error(error) is Succeeded) && !(node_of_error(error) is Reused),
        lifecycle_of_error(error) is Cancelled <==> error is Cancelled,
        lifecycle_of_error(error) is TimedOut <==> error is TimedOut,
        lifecycle_of_error(error) is LimitReached <==> error is ResourceLimit,
        !(lifecycle_of_error(error) is Succeeded),
        error is Policy || error is Approval ==> node_of_error(error) is Rejected
            && lifecycle_of_error(error) is Rejected,
        error is Tool || error is Provider ==> node_of_error(error) is Failed
            && lifecycle_of_error(error) is Failed,
{
}

/// A result that a tool returned and that is as promised becomes the output of its node, as it
/// came, and stands in the transcript with its call. Anything else leaves the node without an
/// output and fails the execution: for good where the error is final, else so that another plan may
/// make it good. No other node is touched, and the other calls of the wave are still awaited.
#[verifier::rlimit(50)]
pub proof fn results_become_outputs(
    context: &PlanContext,
    run: PlanModel,
    position: usize,
    failure: Option<PlanFailureKind>,
    outcome: Result<ToolResultModel, HarnessError<Seq<char>>>,
    took: u64,
)
    requires
        run.stage == StageModel::Results(position, failure),
        position < run.executable.len() <= usize::MAX,
        run.executable[position as int] < run.outputs.len(),
        run.executable[position as int] < run.slots.len(),
        run.slots[run.executable[position as int] as int] is Dispatched,
        run.budget is Some,
        !run.record.terminal,
    ensures
        ({
            let (next, action) = plan_step(context, run, PlanEventModel::Returned(outcome, took));
            let index = run.executable[position as int] as int;
            let call = run.slots[index]->Dispatched_0.call;
            let limits = context.request.agent.limits;
            let sound = outcome matches Ok(result) && result.ok && utf8_len(result.json_text())
                <= limits.max_tool_result_bytes && depth(result.output) <= limits.max_json_depth
                && output_fault(context.broker.tools@, call.tool_id, result.output) is None;
            let fits = outcome matches Ok(result) && run.retained + entry_bytes(
                call,
                utf8_len(result.json_text()),
            ) <= run.budget->0;
            &&& next.outputs.len() == run.outputs.len()
            &&& forall|i: int|
                0 <= i < run.outputs.len() && i != index ==> #[trigger] next.outputs[i]
                    == run.outputs[i]
            &&& sound && fits ==> next.outputs[index] == Some(outcome->Ok_0) && next.transcript
                == run.transcript.push((call, outcome->Ok_0)) && next.retained == run.retained
                + entry_bytes(call, utf8_len(outcome->Ok_0.json_text()))
            &&& !(sound && fits) ==> next.outputs[index] == run.outputs[index] && next.transcript
                == run.transcript && next.retained == run.retained
            &&& sound && !fits ==> next.record.terminal
            &&& (outcome matches Err(error) && terminal_failure(error)) ==> next.record.terminal
            &&& !sound && !(outcome matches Err(error) && terminal_failure(error)) && (
            outcome matches Ok(result) ==> utf8_len(result.json_text())
                <= limits.max_tool_result_bytes && depth(result.output) <= limits.max_json_depth)
                ==> !next.record.terminal && next.record.ledger.result.status
                == run.record.ledger.result.status
            &&& if position + 1 < run.executable.len() {
                action is AwaitResult && (next.stage matches StageModel::Results(at, told) && at
                    == position + 1 && (told is None <==> failure is None && sound && fits))
            } else if failure is None && sound && fits {
                action is Continue && next.stage is NextWave
            } else {
                action is Finish && (next.stage matches StageModel::Done(told) && told is Some)
            }
            &&& next.slots[index] is Spent
        }),
{
    reveal(result_handled);
    reveal(outcome_noted);
}

/// A plan is prepared without effect: what is denied, or not approved, in its preflight fails the
/// plan there, and no call of it is handed to a tool.
pub proof fn denied_plans_do_not_run(
    context: &PlanContext,
    run: PlanModel,
    event: PlanEventModel,
)
    requires
        run.slots.len() > 0,
        run.slots.last() is Prepared,
        run.record.ledger.broker.tool_rejected < u32::MAX,
        (run.stage is PreflightPolicy && (event matches PlanEventModel::Decided(Ok(decision), _)
            && decision is Deny)) || (run.stage is PreflightApproval && (event matches
            PlanEventModel::Approved(Ok(granted), _) && !granted)),
    ensures
        ({
            let (next, action) = plan_step(context, run, event);
            &&& action is Finish
            &&& next.stage == StageModel::Done(Some(PlanFailureKind::Preflight))
            &&& next.record.ledger.broker.tool_rejected == run.record.ledger.broker.tool_rejected + 1
            &&& next.record.ledger.broker.tool_issued == run.record.ledger.broker.tool_issued
            &&& next.record.ledger.broker.effects == run.record.ledger.broker.effects
            &&& next.outputs == run.outputs && next.effects_started == run.effects_started
        }),
{
    reveal(preflight_authorized);
}

/// A node whose bound arguments are denied, or not approved, does not run: the execution fails and
/// no call is handed to a tool.
pub proof fn denied_bindings_do_not_run(
    context: &PlanContext,
    run: PlanModel,
    event: PlanEventModel,
)
    requires
        run.record.ledger.broker.tool_rejected < u32::MAX,
        (run.stage is BindPolicy && (event matches PlanEventModel::Decided(Ok(decision), _)
            && decision is Deny)) || (run.stage is BindApproval && (event matches
            PlanEventModel::Approved(Ok(granted), _) && !granted)),
    ensures
        ({
            let (next, action) = plan_step(context, run, event);
            &&& action is Finish
            &&& next.stage == StageModel::Done(Some(PlanFailureKind::Recoverable))
            &&& next.record.ledger.broker.tool_rejected == run.record.ledger.broker.tool_rejected + 1
            &&& next.record.ledger.broker.tool_issued == run.record.ledger.broker.tool_issued
            &&& next.record.ledger.broker.effects == run.record.ledger.broker.effects
            &&& next.outputs == run.outputs
        }),
{
    reveal(bound_authorized);
    reveal(bind_failed);
}

/// What needs approval waits for it: an approval is asked for exactly where the policy requires it
/// or, though the policy allows the call, the node does.
pub proof fn approvals_are_asked_for(
    context: &PlanContext,
    run: PlanModel,
    decision: PolicyDecision<Seq<char>>,
    now: u64,
)
    requires
        run.stage is PreflightPolicy || run.stage is BindPolicy,
        run.stage is PreflightPolicy ==> run.slots.len() > 0 && run.slots.last() is Prepared,
        run.stage matches StageModel::BindPolicy(_, index, _) ==> run.slots[index as int] is Prepared,
        !(decision is Deny),
    ensures
        ({
            let (next, action) = plan_step(
                context,
                run,
                PlanEventModel::Decided(Ok(decision), now),
            );
            let call = match run.stage {
                StageModel::BindPolicy(_, index, _) => run.slots[index as int]->Prepared_0,
                _ => run.slots.last()->Prepared_0,
            };
            decision is RequireApproval || call.approval_barrier ==> action is AskApproval && match (
                run.stage,
                next.stage,
            ) {
                (StageModel::PreflightPolicy, StageModel::PreflightApproval) => true,
                (
                    StageModel::BindPolicy(purpose, index, arguments),
                    StageModel::BindApproval(next_purpose, next_index, next_arguments),
                ) => purpose == next_purpose && index == next_index && arguments == next_arguments,
                _ => false,
            } && next.slots == run.slots && next.record.ledger.broker == run.record.ledger.broker
        }),
{
    reveal(preflight_authorized);
    reveal(bound_authorized);
}

/// A wave hands exactly the calls to their tools that were bound for it, as far as the budget
/// reaches; each is counted as issued once.
pub proof fn started_waves_dispatch_their_calls(run: PlanModel, count: nat)
    requires
        count <= run.executable.len(),
        forall|i: int, j: int|
            0 <= i < j < run.executable.len() ==> run.executable[i] != run.executable[j],
        forall|i: int|
            0 <= i < run.executable.len() ==> (#[trigger] run.executable[i]) < run.slots.len()
                && run.slots[run.executable[i] as int] is Prepared,
        run.record.ledger.broker.tool_issued + run.executable.len() <= u32::MAX,
    ensures
        ({
            let next = wave_started(run, count);
            &&& next.record.ledger.broker.tool_issued == run.record.ledger.broker.tool_issued + count
            &&& next.slots.len() == run.slots.len() && next.outputs == run.outputs
                && next.executable == run.executable
            &&& forall|i: int|
                0 <= i < count ==> next.slots[(#[trigger] run.executable[i]) as int]
                    == SlotModel::Dispatched(
                    run.slots[run.executable[i] as int]->Prepared_0,
                )
            &&& forall|k: int|
                0 <= k < run.slots.len() && !run.executable.take(count as int).contains(k as usize)
                    ==> #[trigger] next.slots[k] == run.slots[k]
            &&& next.record.ledger.events.len() == run.record.ledger.events.len() + count
        }),
    decreases count,
{
    if count > 0 {
        started_waves_dispatch_their_calls(run, (count - 1) as nat);
        let before = wave_started(run, (count - 1) as nat);
        let next = wave_started(run, count);
        let index = run.executable[count - 1] as int;
        let part = run.executable.take(count as int);
        let shorter = run.executable.take(count - 1);
        assert(part[count - 1] == run.executable[count - 1]);
        assert forall|k: int|
            0 <= k < run.slots.len() && !part.contains(k as usize) implies #[trigger] next.slots[k]
            == run.slots[k] by {
            if shorter.contains(k as usize) {
                let m = choose|m: int| 0 <= m < shorter.len() && shorter[m] == k as usize;
                assert(part[m] == k as usize);
            }
            assert(before.slots[k] == run.slots[k]);
            assert(k != index);
        }
        assert forall|i: int| 0 <= i < count implies next.slots[(
        #[trigger] run.executable[i]) as int] == SlotModel::Dispatched(
            run.slots[run.executable[i] as int]->Prepared_0,
        ) by {
            if i < count - 1 {
                assert(before.slots[run.executable[i] as int] == SlotModel::Dispatched(
                    run.slots[run.executable[i] as int]->Prepared_0,
                ));
            }
        }
    } else {
        assert(run.executable.take(0) =~= Seq::empty());
    }
}

} // verus!
