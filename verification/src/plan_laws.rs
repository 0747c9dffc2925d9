//! What the outcome of a plan execution tells.

use crate::admission::{
    admission, finalization, AdmissionModel, AuthorizationModel, FinalizationModel, PreparedModel,
};
use crate::binding::bound_arguments;
use crate::broker::BrokerModel;
use crate::error::HarnessError;
use crate::json::JsonTree;
use crate::ledger::RecordModel;
use crate::plan::PlanNode;
use crate::plan_model::{
    admission_handled, all_complete, bind_failed, binding_checked, bound_authorized, call_returned,
    candidates_of, done_nodes, finalization_handled, gate_from, increasing, lists, no_progress,
    node_bound, node_prepared, outcome_noted, plan_begun, plan_step, preflight_authorized,
    preflight_unauthorized, prepared_next, result_handled, reused_node, scheduled, wave_begun,
    wave_bound, wave_from, wave_started, BindPurpose, PlanContext, PlanEventModel, PlanModel,
    StageModel,
};
use crate::registry::RegisteredTool;
use crate::schedule::{
    dependencies_done, is_done, next_wave, permitted, ready_nodes, wave_of, PlanFailureKind,
    SlotModel,
};
use crate::tool::{ToolCall, ToolResultModel};
use vstd::prelude::*;

verus! {

/// How many of the first `count` nodes have a result.
pub open spec fn finished(outputs: Seq<Option<ToolResultModel>>, count: nat) -> nat
    decreases count,
{
    if count == 0 || count > outputs.len() {
        0
    } else {
        finished(outputs, (count - 1) as nat) + (if outputs[count - 1] is Some {
            1nat
        } else {
            0nat
        })
    }
}

/// Whether every dependency of a node has a result.
pub open spec fn may_run(run: PlanModel, index: int) -> bool {
    0 <= index < run.nodes.len() && dependencies_done(run.nodes, done_nodes(run.outputs), index)
}

/// Whether a node still lacks its result.
pub open spec fn lacking(run: PlanModel, index: int) -> bool {
    0 <= index < run.outputs.len() && run.outputs[index] is None
}

/// Whether no call was handed to its tool and no node has a result.
pub open spec fn untouched(run: PlanModel) -> bool {
    &&& !run.effects_started
    &&& run.transcript.len() == 0
    &&& forall|i: int| 0 <= i < run.outputs.len() ==> (#[trigger] run.outputs[i]) is None
}

/// What holds of every execution: a node has a result only after all that it depends on, and
/// every result stands once in the transcript.
pub open spec fn orderly(run: PlanModel) -> bool {
    &&& run.outputs.len() == run.nodes.len()
    &&& forall|i: int|
        0 <= i < run.outputs.len() && (#[trigger] run.outputs[i]) is Some ==> may_run(run, i)
    &&& run.transcript.len() == finished(run.outputs, run.outputs.len())
}

/// What holds of the nodes of a wave from place `position` on, and of those that are to run.
pub open spec fn wave_orderly(run: PlanModel, position: int) -> bool {
    &&& increasing(run.wave)
    &&& forall|j: int|
        position <= j < run.wave.len() ==> may_run(run, (#[trigger] run.wave[j]) as int) && lacking(
            run,
            run.wave[j] as int,
        )
    &&& forall|e: int|
        0 <= e < run.executable.len() ==> may_run(run, (#[trigger] run.executable[e]) as int)
            && lacking(run, run.executable[e] as int)
    &&& forall|e: int, j: int|
        0 <= e < run.executable.len() && position <= j < run.wave.len() ==> run.executable[e]
            < run.wave[j]
}

/// Whether a node lacks its result for good.
pub open spec fn lost(run: PlanModel, position: int) -> bool {
    exists|i: int| #[trigger] lacking(run, i) && !lists(run.executable, position, i)
}

/// Whether the outcome of an execution tells what happened: it names no failure exactly where
/// every node has a result, and a failed preflight left nothing behind.
pub open spec fn telling(run: PlanModel) -> bool {
    &&& orderly(run)
    &&& match run.stage {
        StageModel::Preflight => untouched(run),
        StageModel::PreflightPolicy => untouched(run),
        StageModel::PreflightApproval => untouched(run),
        StageModel::Bind(BindPurpose::Wave(position), _) => wave_orderly(run, position as int),
        StageModel::BindPolicy(BindPurpose::Wave(position), _, _) => wave_orderly(
            run,
            position as int,
        ),
        StageModel::BindApproval(BindPurpose::Wave(position), _, _) => wave_orderly(
            run,
            position as int,
        ),
        StageModel::Results(position, failure) => {
            &&& forall|e: int|
                position <= e < run.executable.len() ==> may_run(
                    run,
                    (#[trigger] run.executable[e]) as int,
                )
            &&& failure is Some ==> lost(run, position as int) && failure
                != Some(PlanFailureKind::Preflight)
        },
        StageModel::Done(None) => all_complete(run),
        StageModel::Done(Some(failure)) => {
            &&& run.nodes.len() > 0 ==> !all_complete(run)
            &&& failure == PlanFailureKind::Preflight ==> untouched(run)
        },
        _ => true,
    }
}

proof fn finished_after(
    outputs: Seq<Option<ToolResultModel>>,
    index: int,
    result: ToolResultModel,
    count: nat,
)
    requires
        0 <= index < outputs.len(),
        outputs[index] is None,
        count <= outputs.len(),
    ensures
        finished(outputs.update(index, Some(result)), count) == finished(outputs, count) + (
        if index < count {
            1nat
        } else {
            0nat
        }),
    decreases count,
{
    if count > 0 {
        finished_after(outputs, index, result, (count - 1) as nat);
    }
}

proof fn none_finished(outputs: Seq<Option<ToolResultModel>>, count: nat)
    requires
        forall|i: int| 0 <= i < outputs.len() ==> (#[trigger] outputs[i]) is None,
        count <= outputs.len(),
    ensures
        finished(outputs, count) == 0,
    decreases count,
{
    if count > 0 {
        none_finished(outputs, (count - 1) as nat);
    }
}

/// Whether one node of an execution got its result, and nothing else of its outputs changed.
spec fn completes(before: PlanModel, after: PlanModel, index: int) -> bool {
    &&& after.nodes == before.nodes
    &&& exists|result: ToolResultModel|
        after.outputs == #[trigger] before.outputs.update(index, Some(result))
    &&& after.transcript.len() == before.transcript.len() + 1
}

/// Whether two executions have the same nodes, outputs and transcript.
spec fn alike(before: PlanModel, after: PlanModel) -> bool {
    &&& after.nodes == before.nodes
    &&& after.outputs == before.outputs
    &&& after.transcript == before.transcript
}

proof fn completion_lets_run(before: PlanModel, after: PlanModel, index: int, other: int)
    requires
        before.outputs.len() == before.nodes.len(),
        0 <= index < before.outputs.len(),
        completes(before, after, index),
        may_run(before, other),
    ensures
        may_run(after, other),
{
    let result = choose|result: ToolResultModel|
        after.outputs == #[trigger] before.outputs.update(index, Some(result));
    let one = done_nodes(before.outputs);
    let two = done_nodes(after.outputs);
    assert forall|k: int| 0 <= k < after.nodes[other].depends_on@.len() implies is_done(
        after.nodes,
        two,
        (#[trigger] after.nodes[other].depends_on@[k])@,
    ) by {
        assert(is_done(before.nodes, one, before.nodes[other].depends_on@[k]@));
        assert(forall|i: int| 0 <= i < one.len() && #[trigger] one[i] ==> two[i]);
    }
}

proof fn completion_is_orderly(before: PlanModel, after: PlanModel, index: int)
    requires
        orderly(before),
        may_run(before, index),
        lacking(before, index),
        completes(before, after, index),
    ensures
        orderly(after),
{
    let result = choose|result: ToolResultModel|
        after.outputs == #[trigger] before.outputs.update(index, Some(result));
    finished_after(before.outputs, index, result, before.outputs.len());
    assert forall|i: int|
        0 <= i < after.outputs.len() && (#[trigger] after.outputs[i]) is Some implies may_run(
        after,
        i,
    ) by {
        if i != index {
            assert(before.outputs[i] is Some);
        }
        completion_lets_run(before, after, index, i);
    }
}

proof fn completion_keeps_wave(before: PlanModel, after: PlanModel, index: int, position: int)
    requires
        orderly(before),
        wave_orderly(before, position),
        0 <= position < before.wave.len(),
        before.wave[position] == index,
        completes(before, after, index),
        after.wave == before.wave,
        after.executable == before.executable,
    ensures
        orderly(after),
        wave_orderly(after, position + 1),
{
    assert(may_run(before, before.wave[position] as int));
    completion_is_orderly(before, after, index);
    assert forall|j: int| position + 1 <= j < after.wave.len() implies may_run(
        after,
        (#[trigger] after.wave[j]) as int,
    ) && lacking(after, after.wave[j] as int) by {
        assert(before.wave[position] < before.wave[j]);
        completion_lets_run(before, after, index, before.wave[j] as int);
    }
    assert forall|e: int| 0 <= e < after.executable.len() implies may_run(
        after,
        (#[trigger] after.executable[e]) as int,
    ) && lacking(after, after.executable[e] as int) by {
        assert(before.executable[e] < before.wave[position]);
        completion_lets_run(before, after, index, before.executable[e] as int);
    }
}

proof fn failing_is_telling(run: PlanModel, after: PlanModel, index: int, failure: PlanFailureKind)
    requires
        orderly(run),
        lacking(run, index),
        alike(run, after),
        after.stage == StageModel::Done(Some(failure)),
        failure != PlanFailureKind::Preflight,
    ensures
        telling(after),
{
    assert(after.outputs[index] is None);
}

proof fn reuse_is_telling(
    run: PlanModel,
    index: int,
    call: ToolCall<Seq<char>>,
    result: ToolResultModel,
    duration_ms: u64,
)
    requires
        orderly(run),
        may_run(run, index),
        lacking(run, index),
    ensures
        match reused_node(run, index, call, result, duration_ms) {
            Ok(next) => completes(run, next, index) && next.wave == run.wave && next.executable
                == run.executable && next.stage == run.stage,
            Err(ended) => telling(ended),
        },
{
    match reused_node(run, index, call, result, duration_ms) {
        Ok(next) => {
            assert(next.outputs == run.outputs.update(index, Some(result)));
        },
        Err(ended) => {
            failing_is_telling(run, ended, index, PlanFailureKind::Terminal);
        },
    }
}

proof fn started_is_alike(run: PlanModel, count: nat)
    requires
        count <= run.executable.len(),
    ensures
        alike(run, wave_started(run, count)),
        wave_started(run, count).executable == run.executable,
    decreases count,
{
    if count > 0 {
        started_is_alike(run, (count - 1) as nat);
    }
}

proof fn fitting_counts(
    calls: Seq<ToolCall<Seq<char>>>,
    retained: u64,
    budget: u64,
    max_tool_result_bytes: u64,
    count: nat,
)
    requires
        count <= calls.len(),
    ensures
        permitted(calls, retained, budget, max_tool_result_bytes, count).0 <= count,
    decreases count,
{
    if count > 0 {
        fitting_counts(calls, retained, budget, max_tool_result_bytes, (count - 1) as nat);
    }
}

proof fn bound_waves_tell(context: &PlanContext, run: PlanModel)
    requires
        orderly(run),
        wave_orderly(run, run.wave.len() as int),
    ensures
        telling(wave_bound(context, run).0),
{
    reveal(wave_bound);
    let calls = crate::plan_model::executable_calls(run);
    fitting_counts(
        calls,
        run.retained,
        run.budget->0,
        context.request.agent.limits.max_tool_result_bytes,
        run.executable.len(),
    );
    let (fitting, _) = permitted(
        calls,
        run.retained,
        run.budget->0,
        context.request.agent.limits.max_tool_result_bytes,
        run.executable.len(),
    );
    if run.executable.len() > 0 {
        assert(may_run(run, run.executable[0] as int));
        if fitting == 0 {
            failing_is_telling(
                run,
                wave_bound(context, run).0,
                run.executable[0] as int,
                PlanFailureKind::Terminal,
            );
        } else {
            let trimmed = PlanModel {
                executable: run.executable.take(fitting as int),
                effects_started: true,
                ..run
            };
            started_is_alike(trimmed, fitting);
            let after = wave_bound(context, run).0;
            assert forall|e: int| 0 <= e < after.executable.len() implies may_run(
                after,
                (#[trigger] after.executable[e]) as int,
            ) by {
                assert(may_run(run, run.executable[e] as int));
            }
        }
    }
}

proof fn places_fit(values: Seq<usize>, place: int)
    requires
        increasing(values),
        0 <= place < values.len(),
    ensures
        place <= values[place],
    decreases place,
{
    if place > 0 {
        places_fit(values, place - 1);
        assert(values[place - 1] < values[place]);
    }
}

proof fn waves_tell(context: &PlanContext, run: PlanModel, position: nat)
    requires
        orderly(run),
        position <= run.wave.len(),
        wave_orderly(run, position as int),
    ensures
        telling(wave_from(context, run, position).0),
    decreases run.wave.len() - position,
{
    if position >= run.wave.len() {
        bound_waves_tell(context, run);
    } else {
        let index = run.wave[position as int];
        places_fit(run.wave, position as int);
        assert(may_run(run, run.wave[position as int] as int));
        match run.slots[index as int] {
            SlotModel::Reused(call, result) => {
                reuse_is_telling(run, index as int, call, result, 0);
                match reused_node(run, index as int, call, result, 0) {
                    Err(_) => {},
                    Ok(next) => {
                        completion_keeps_wave(run, next, index as int, position as int);
                        waves_tell(context, next, position + 1);
                    },
                }
            },
            _ => {
                let after = wave_from(context, run, position).0;
                assert(after == run.at(
                    StageModel::Bind(BindPurpose::Wave(position as usize), index),
                ));
                assert(wave_orderly(after, position as int)) by {
                    assert forall|j: int| position <= j < after.wave.len() implies may_run(
                        after,
                        (#[trigger] after.wave[j]) as int,
                    ) && lacking(after, after.wave[j] as int) by {
                        assert(may_run(run, run.wave[j] as int));
                    }
                    assert forall|e: int| 0 <= e < after.executable.len() implies may_run(
                        after,
                        (#[trigger] after.executable[e]) as int,
                    ) && lacking(after, after.executable[e] as int) by {
                        assert(may_run(run, run.executable[e] as int));
                    }
                }
            },
        }
    }
}

proof fn ready_nodes_may_run(run: PlanModel, reads: bool, count: nat)
    requires
        run.outputs.len() == run.nodes.len(),
        count <= run.nodes.len(),
        run.nodes.len() <= usize::MAX,
    ensures
        ({
            let list = ready_nodes(
                run.nodes,
                done_nodes(run.outputs),
                run.slots,
                reads,
                count,
            );
            &&& increasing(list)
            &&& forall|k: int|
                0 <= k < list.len() ==> (#[trigger] list[k]) < count && may_run(
                    run,
                    list[k] as int,
                ) && lacking(run, list[k] as int)
        }),
    decreases count,
{
    if count > 0 {
        ready_nodes_may_run(run, reads, (count - 1) as nat);
    }
}

proof fn waves_are_candidates(
    nodes: Seq<PlanNode>,
    tools: Seq<RegisteredTool>,
    slots: Seq<SlotModel>,
    candidates: Seq<usize>,
    max_parallel: usize,
    count: nat,
)
    requires
        increasing(candidates),
        count <= candidates.len(),
    ensures
        ({
            let wave = wave_of(nodes, tools, slots, candidates, max_parallel, count);
            &&& increasing(wave)
            &&& forall|k: int|
                0 <= k < wave.len() ==> lists(candidates.take(count as int), 0, (
                #[trigger] wave[k]) as int)
        }),
    decreases count,
{
    if count > 0 {
        waves_are_candidates(nodes, tools, slots, candidates, max_parallel, (count - 1) as nat);
        let before = wave_of(nodes, tools, slots, candidates, max_parallel, (count - 1) as nat);
        let wave = wave_of(nodes, tools, slots, candidates, max_parallel, count);
        let taken = candidates.take(count as int);
        assert forall|k: int| 0 <= k < wave.len() implies lists(
            taken,
            0,
            (#[trigger] wave[k]) as int,
        ) by {
            if k < before.len() {
                assert(wave[k] == before[k]);
                let shorter = candidates.take(count - 1);
                let e = choose|e: int|
                    0 <= e < shorter.len() && (#[trigger] shorter[e]) as int == before[k];
                assert(taken[e] == shorter[e]);
            } else {
                assert(taken[count - 1] == wave[k]);
            }
        }
        assert forall|i: int, j: int| 0 <= i < j < wave.len() implies wave[i] < wave[j] by {
            if j == before.len() {
                assert(wave[i] == before[i]);
                let shorter = candidates.take(count - 1);
                assert(lists(shorter, 0, before[i] as int));
                let e = choose|e: int|
                    0 <= e < shorter.len() && (#[trigger] shorter[e]) as int == before[i];
                assert(candidates[e] < candidates[count - 1]);
            } else {
                assert(wave[i] == before[i] && wave[j] == before[j]);
            }
        }
    }
}

proof fn begun_waves_tell(context: &PlanContext, run: PlanModel, reads: bool)
    requires
        orderly(run),
        run.nodes.len() <= usize::MAX,
        candidates_of(run, reads).len() > 0,
    ensures
        telling(wave_begun(context, run, candidates_of(run, reads)).0),
{
    reveal(wave_begun);
    let candidates = candidates_of(run, reads);
    ready_nodes_may_run(run, reads, run.nodes.len());
    let tools = context.broker.tools@;
    waves_are_candidates(
        run.nodes,
        tools,
        run.slots,
        candidates,
        run.max_parallel,
        candidates.len(),
    );
    let wave = next_wave(run.nodes, tools, run.slots, candidates, run.max_parallel);
    let begun = PlanModel {
        wave,
        wave_number: if run.wave_number == u32::MAX {
            u32::MAX
        } else {
            (run.wave_number + 1) as u32
        },
        executable: Seq::empty(),
        ..run
    };
    assert(candidates.take(candidates.len() as int) =~= candidates);
    assert forall|j: int| 0 <= j < wave.len() implies may_run(
        begun,
        (#[trigger] wave[j]) as int,
    ) && lacking(begun, wave[j] as int) by {
        let all = wave_of(
            run.nodes,
            tools,
            run.slots,
            candidates,
            run.max_parallel,
            candidates.len(),
        );
        if wave == all {
            assert(lists(candidates, 0, all[j] as int));
            let e = choose|e: int|
                0 <= e < candidates.len() && (#[trigger] candidates[e]) as int == all[j];
            assert(may_run(run, candidates[e] as int));
        } else {
            assert(wave[j] == candidates[0]);
            assert(may_run(run, candidates[0] as int));
        }
    }
    assert(orderly(begun)) by {
        assert forall|i: int|
            0 <= i < begun.outputs.len() && (#[trigger] begun.outputs[i]) is Some implies may_run(
            begun,
            i,
        ) by {
            assert(run.outputs[i] is Some);
        }
    }
    assert(wave_orderly(begun, 0));
    waves_tell(context, begun, 0);
}

proof fn same_outputs_stay_orderly(run: PlanModel, after: PlanModel)
    requires
        orderly(run),
        alike(run, after),
    ensures
        orderly(after),
{
    assert forall|i: int|
        0 <= i < after.outputs.len() && (#[trigger] after.outputs[i]) is Some implies may_run(
        after,
        i,
    ) by {
        assert(run.outputs[i] is Some);
    }
}

proof fn stuck_runs_tell(run: PlanModel)
    requires
        orderly(run),
        !all_complete(run),
    ensures
        telling(no_progress(run).0),
{
    same_outputs_stay_orderly(run, no_progress(run).0);
    let i = choose|i: int| 0 <= i < run.outputs.len() && (#[trigger] run.outputs[i]) is None;
    failing_is_telling(run, no_progress(run).0, i, PlanFailureKind::Recoverable);
}

proof fn gates_tell(context: &PlanContext, run: PlanModel, start: nat)
    requires
        orderly(run),
        run.nodes.len() <= usize::MAX,
        !all_complete(run),
    ensures
        telling(gate_from(context, run, start).0),
    decreases run.nodes.len() - start,
{
    if start >= run.nodes.len() {
        let opened = PlanModel { gate_open: true, ..run };
        same_outputs_stay_orderly(run, opened);
        assert(!all_complete(opened)) by {
            let i = choose|i: int|
                0 <= i < run.outputs.len() && (#[trigger] run.outputs[i]) is None;
            assert(opened.outputs[i] is None);
        }
        if candidates_of(opened, false).len() == 0 {
            stuck_runs_tell(opened);
        } else {
            begun_waves_tell(context, opened, false);
        }
    } else if crate::plan_model::gated(run, start as int) {
        same_outputs_stay_orderly(run, gate_from(context, run, start).0);
    } else {
        gates_tell(context, run, start + 1);
    }
}

proof fn schedules_tell(context: &PlanContext, run: PlanModel)
    requires
        orderly(run),
        run.nodes.len() <= usize::MAX,
    ensures
        telling(scheduled(context, run).0),
{
    reveal(scheduled);
    if all_complete(run) {
        let after = run.over(None).0;
        same_outputs_stay_orderly(run, after);
        assert(all_complete(after)) by {
            assert forall|i: int| 0 <= i < after.outputs.len() implies (
            #[trigger] after.outputs[i]) is Some by {
                assert(run.outputs[i] is Some);
            }
        }
    } else if candidates_of(run, false).len() == 0 {
        stuck_runs_tell(run);
    } else if run.gate_open {
        begun_waves_tell(context, run, false);
    } else if candidates_of(run, true).len() == 0 {
        gates_tell(context, run, 0);
    } else {
        begun_waves_tell(context, run, true);
    }
}

/// Whether a step of the preflight changed nothing that an outcome tells.
spec fn still_untouched(run: PlanModel, after: PlanModel) -> bool {
    alike(run, after) && after.effects_started == run.effects_started
}

proof fn failed_preflights_tell(run: PlanModel, after: PlanModel)
    requires
        orderly(run),
        untouched(run),
        still_untouched(run, after),
        run.nodes.len() > 0,
        match after.stage {
            StageModel::Done(failure) => failure is Some,
            StageModel::Preflight => true,
            StageModel::PreflightPolicy => true,
            StageModel::PreflightApproval => true,
            _ => false,
        },
    ensures
        telling(after),
{
    same_outputs_stay_orderly(run, after);
    assert(after.outputs[0] is None);
}

proof fn prepared_nodes_tell(context: &PlanContext, run: PlanModel, from: PlanModel)
    requires
        orderly(from),
        untouched(from),
        from.nodes.len() > 0,
        from.nodes.len() <= usize::MAX,
        still_untouched(from, run),
    ensures
        telling(node_prepared(context, run).0),
{
    reveal(node_prepared);
    let after = node_prepared(context, run).0;
    same_outputs_stay_orderly(from, run);
    if run.slots.len() < run.nodes.len() || run.budget is None {
        failed_preflights_tell(from, after);
    } else {
        let validated = run.with_record(
            run.record.emit(
                crate::event::RunEvent::PlanValidated {
                    attempt: run.attempt,
                    node_count: run.nodes.len() as u32,
                },
            ),
        ).preflight_reported(crate::event::PlanLifecycleOutcome::Succeeded);
        same_outputs_stay_orderly(run, validated);
        schedules_tell(context, validated);
    }
}

proof fn admissions_tell(
    context: &PlanContext,
    run: PlanModel,
    from: PlanModel,
    before: BrokerModel,
    call: ToolCall<Seq<char>>,
    outcome: Result<AdmissionModel, HarnessError<Seq<char>>>,
)
    requires
        orderly(from),
        untouched(from),
        from.nodes.len() > 0,
        from.nodes.len() <= usize::MAX,
        still_untouched(from, run),
    ensures
        telling(admission_handled(context, run, before, call, outcome).0),
{
    reveal(admission_handled);
    let after = admission_handled(context, run, before, call, outcome).0;
    match outcome {
        Ok(AdmissionModel::Reused(result)) => {
            prepared_nodes_tell(
                context,
                PlanModel { slots: run.slots.push(SlotModel::Reused(call, result)), ..run },
                from,
            );
        },
        Ok(AdmissionModel::Deferred(prepared)) => {
            prepared_nodes_tell(
                context,
                PlanModel { slots: run.slots.push(SlotModel::Prepared(prepared)), ..run },
                from,
            );
        },
        _ => {
            failed_preflights_tell(from, after);
        },
    }
}

proof fn preparations_tell(context: &PlanContext, run: PlanModel, cancelled: bool, now: u64)
    requires
        orderly(run),
        untouched(run),
        run.nodes.len() > 0,
        run.nodes.len() <= usize::MAX,
    ensures
        telling(prepared_next(context, run, cancelled, now).0),
{
    reveal(prepared_next);
    let index = run.slots.len() as int;
    let node = run.nodes[index];
    let begun = PlanModel { node_started: now, ..run };
    match crate::request::stop_check(
        cancelled,
        now,
        context.deadline,
        "run deadline reached before tool validation"@,
    ) {
        Err(_) => {
            failed_preflights_tell(run, prepared_next(context, run, cancelled, now).0);
        },
        Ok(_) => {
            let call = ToolCall {
                id: crate::plan_model::event_id(run.attempt, index),
                tool_id: node.tool_id@,
                arguments_json: crate::json::rendered_json(node.arguments@),
            };
            let (ledger, outcome) = admission(
                run.record.ledger,
                context.broker.tools@,
                context.broker.scope,
                context.request,
                call,
                crate::tool::ToolCaller::DeclarativePlan,
                node.approval_barrier,
                node.result_bindings@.len() > 0,
                None,
            );
            admissions_tell(
                context,
                begun.with_ledger(ledger),
                run,
                run.record.ledger.broker,
                call,
                outcome,
            );
        },
    }
}

proof fn authorized_preflights_tell(
    context: &PlanContext,
    run: PlanModel,
    from: PlanModel,
    authorization: AuthorizationModel,
    now: u64,
)
    requires
        orderly(from),
        untouched(from),
        from.nodes.len() > 0,
        from.nodes.len() <= usize::MAX,
        still_untouched(from, run),
    ensures
        telling(preflight_authorized(context, run, authorization, now).0),
{
    reveal(preflight_authorized);
    match authorization {
        AuthorizationModel::Authorized => {
            prepared_nodes_tell(context, run, from);
        },
        _ => {
            failed_preflights_tell(
                from,
                preflight_authorized(context, run, authorization, now).0,
            );
        },
    }
}

proof fn failed_bindings_tell(
    run: PlanModel,
    purpose: BindPurpose,
    index: int,
    error: HarnessError<Seq<char>>,
    duration_ms: u64,
)
    requires
        orderly(run),
        lacking(run, index),
    ensures
        telling(bind_failed(run, purpose, index, error, duration_ms).0),
{
    reveal(bind_failed);
    let after = bind_failed(run, purpose, index, error, duration_ms).0;
    match after.stage {
        StageModel::Done(Some(failure)) => {
            failing_is_telling(run, after, index, failure);
        },
        _ => {},
    }
}

/// What holds of a node that is being bound, as far as outcomes go.
spec fn binding_orderly(run: PlanModel, purpose: BindPurpose, index: usize) -> bool {
    &&& orderly(run)
    &&& run.nodes.len() <= usize::MAX
    &&& lacking(run, index as int)
    &&& purpose matches BindPurpose::Wave(position) ==> position < run.wave.len()
        && run.wave[position as int] == index && wave_orderly(run, position as int)
}

proof fn binding_moves(run: PlanModel, after: PlanModel, purpose: BindPurpose, index: usize)
    requires
        binding_orderly(run, purpose, index),
        alike(run, after),
        after.wave == run.wave,
        after.executable == run.executable,
    ensures
        binding_orderly(after, purpose, index),
{
    same_outputs_stay_orderly(run, after);
    if let BindPurpose::Wave(position) = purpose {
        assert forall|j: int| position <= j < after.wave.len() implies may_run(
            after,
            (#[trigger] after.wave[j]) as int,
        ) && lacking(after, after.wave[j] as int) by {
            assert(may_run(run, run.wave[j] as int));
        }
        assert forall|e: int| 0 <= e < after.executable.len() implies may_run(
            after,
            (#[trigger] after.executable[e]) as int,
        ) && lacking(after, after.executable[e] as int) by {
            assert(may_run(run, run.executable[e] as int));
        }
    }
}

proof fn bound_nodes_tell(
    context: &PlanContext,
    run: PlanModel,
    purpose: BindPurpose,
    index: usize,
)
    requires
        binding_orderly(run, purpose, index),
    ensures
        telling(node_bound(context, run, purpose, index).0),
{
    reveal(node_bound);
    match purpose {
        BindPurpose::Gate => {
            assert(!all_complete(run)) by {
                assert(run.outputs[index as int] is None);
            }
            gates_tell(context, run, (index + 1) as nat);
        },
        BindPurpose::Wave(position) => {
            let next = PlanModel { executable: run.executable.push(index), ..run };
            same_outputs_stay_orderly(run, next);
            assert(may_run(run, run.wave[position as int] as int));
            assert forall|j: int| position + 1 <= j < next.wave.len() implies may_run(
                next,
                (#[trigger] next.wave[j]) as int,
            ) && lacking(next, next.wave[j] as int) by {
                assert(may_run(run, run.wave[j] as int));
            }
            assert forall|e: int| 0 <= e < next.executable.len() implies may_run(
                next,
                (#[trigger] next.executable[e]) as int,
            ) && lacking(next, next.executable[e] as int) by {
                if e < run.executable.len() {
                    assert(may_run(run, run.executable[e] as int));
                }
            }
            assert forall|e: int, j: int|
                0 <= e < next.executable.len() && position + 1 <= j < next.wave.len() implies
            next.executable[e] < next.wave[j] by {
                if e < run.executable.len() {
                    assert(run.executable[e] < run.wave[j]);
                } else {
                    assert(run.wave[position as int] < run.wave[j]);
                }
            }
            waves_tell(context, next, (position + 1) as nat);
        },
    }
}

proof fn finalizations_tell(
    context: &PlanContext,
    run: PlanModel,
    purpose: BindPurpose,
    index: usize,
    arguments: JsonTree,
    outcome: Result<FinalizationModel, HarnessError<Seq<char>>>,
)
    requires
        binding_orderly(run, purpose, index),
    ensures
        telling(finalization_handled(context, run, purpose, index, arguments, outcome).0),
{
    reveal(finalization_handled);
    let after = finalization_handled(context, run, purpose, index, arguments, outcome).0;
    let call = run.slots[index as int]->Prepared_0.call;
    match outcome {
        Err(error) => {
            binding_moves(run, run.aborted(error), purpose, index);
            failed_bindings_tell(run.aborted(error), purpose, index as int, error, 0);
        },
        Ok(FinalizationModel::Stop) => {
            failing_is_telling(run, after, index as int, PlanFailureKind::Terminal);
        },
        Ok(FinalizationModel::Ready) => {
            bound_nodes_tell(context, run, purpose, index);
        },
        Ok(FinalizationModel::Authorize) => {
            binding_moves(run, after, purpose, index);
        },
        Ok(FinalizationModel::Reused(result)) => match purpose {
            BindPurpose::Gate => {
                let next = run.with_slot(index as int, SlotModel::Reused(call, result));
                same_outputs_stay_orderly(run, next);
                assert(!all_complete(next)) by {
                    assert(next.outputs[index as int] is None);
                }
                gates_tell(context, next, (index + 1) as nat);
            },
            BindPurpose::Wave(position) => {
                assert(may_run(run, run.wave[position as int] as int));
                reuse_is_telling(run, index as int, call, result, 0);
                match reused_node(run, index as int, call, result, 0) {
                    Err(_) => {},
                    Ok(next) => {
                        completion_keeps_wave(run, next, index as int, position as int);
                        waves_tell(context, next, (position + 1) as nat);
                    },
                }
            },
        },
    }
}

proof fn bindings_tell(
    context: &PlanContext,
    run: PlanModel,
    purpose: BindPurpose,
    index: usize,
    cancelled: bool,
    now: u64,
)
    requires
        binding_orderly(run, purpose, index),
    ensures
        telling(binding_checked(context, run, purpose, index, cancelled, now).0),
{
    reveal(binding_checked);
    let node = run.nodes[index as int];
    let begun = PlanModel { node_started: now, ..run };
    let prepared = run.slots[index as int]->Prepared_0;
    binding_moves(run, begun, purpose, index);
    match bound_arguments(
        run.nodes,
        run.outputs,
        node,
        context.request.agent.limits.max_tool_arguments_bytes,
        context.bounds.max_argument_bytes,
    ) {
        Err(error) => {
            binding_moves(begun, begun.aborted(error), purpose, index);
            failed_bindings_tell(begun.aborted(error), purpose, index as int, error, 0);
        },
        Ok(arguments) => match crate::request::stop_check(
            cancelled,
            now,
            context.deadline,
            "run deadline reached before bound argument validation"@,
        ) {
            Err(error) => {
                binding_moves(begun, begun.aborted(error), purpose, index);
                failed_bindings_tell(begun.aborted(error), purpose, index as int, error, 0);
            },
            Ok(_) => {
                let permits = match crate::registry::registered(
                    context.broker.tools@,
                    prepared.call.tool_id,
                ) {
                    Some(tool) => tool.definition.permits(prepared.caller),
                    None => false,
                };
                let (ledger, next_call, outcome) = finalization(
                    run.record.ledger,
                    context.broker.tools@,
                    context.broker.scope,
                    context.request,
                    prepared,
                    permits,
                    arguments,
                );
                let next = begun.with_ledger(ledger).with_slot(
                    index as int,
                    SlotModel::Prepared(next_call),
                );
                binding_moves(begun, next, purpose, index);
                finalizations_tell(context, next, purpose, index, arguments, outcome);
            },
        },
    }
}

proof fn authorized_bindings_tell(
    context: &PlanContext,
    run: PlanModel,
    purpose: BindPurpose,
    index: usize,
    arguments: JsonTree,
    authorization: AuthorizationModel,
    now: u64,
)
    requires
        binding_orderly(run, purpose, index),
    ensures
        telling(
            bound_authorized(context, run, purpose, index, arguments, authorization, now).0,
        ),
{
    reveal(bound_authorized);
    let after = bound_authorized(context, run, purpose, index, arguments, authorization, now).0;
    let prepared = run.slots[index as int]->Prepared_0;
    match authorization {
        AuthorizationModel::Authorized => {
            let next = run.with_slot(
                index as int,
                SlotModel::Prepared(crate::admission::bound_call(prepared, arguments)),
            );
            binding_moves(run, next, purpose, index);
            bound_nodes_tell(context, next, purpose, index);
        },
        AuthorizationModel::AskApproval => {
            binding_moves(run, after, purpose, index);
        },
        AuthorizationModel::Rejected(_) => {
            failed_bindings_tell(
                run,
                purpose,
                index as int,
                HarnessError::Policy("bound plan call authorization denied"@),
                crate::plan_model::since(run.node_started, now),
            );
        },
    }
}

proof fn outcomes_complete_or_fail(
    context: &PlanContext,
    run: PlanModel,
    index: int,
    prepared: PreparedModel,
    outcome: Result<ToolResultModel, HarnessError<Seq<char>>>,
    failure: Option<PlanFailureKind>,
    duration_ms: u64,
)
    requires
        0 <= index < run.outputs.len(),
        failure != Some(PlanFailureKind::Preflight),
    ensures
        ({
            let (next, next_failure) = outcome_noted(
                context,
                run,
                index,
                prepared,
                outcome,
                failure,
                duration_ms,
            );
            &&& next.executable == run.executable
            &&& next.nodes == run.nodes
            &&& next_failure != Some(PlanFailureKind::Preflight)
            &&& failure is Some ==> next_failure is Some
            &&& completes(run, next, index) && next_failure == failure || alike(run, next)
                && next_failure is Some
        }),
{
    reveal(outcome_noted);
    let checked = match outcome {
        Ok(result) => crate::admission::execution_of(
            context.broker.tools@,
            context.request.agent.limits,
            prepared.call.tool_id,
            result,
        ),
        Err(error) => Err(error),
    };
    match checked {
        Ok(execution) => {
            let next = call_returned(run, index, prepared, execution, failure, duration_ms).0;
            if execution.validation_error is None && execution.result.ok {
                assert(next.outputs == run.outputs.update(index, Some(execution.result))
                    || alike(run, next));
            }
        },
        Err(_) => {},
    }
}

proof fn results_tell(
    context: &PlanContext,
    run: PlanModel,
    position: usize,
    failure: Option<PlanFailureKind>,
    outcome: Result<ToolResultModel, HarnessError<Seq<char>>>,
    duration_ms: u64,
)
    requires
        telling(run),
        run.stage == StageModel::Results(position, failure),
        position < run.executable.len(),
        increasing(run.executable),
        forall|e: int|
            position <= e < run.executable.len() ==> lacking(
                run,
                (#[trigger] run.executable[e]) as int,
            ),
    ensures
        telling(result_handled(context, run, position, failure, outcome, duration_ms).0),
{
    reveal(result_handled);
    let index = run.executable[position as int] as int;
    let spent = run.with_slot(index, SlotModel::Spent);
    let prepared = run.slots[index]->Dispatched_0;
    same_outputs_stay_orderly(run, spent);
    assert(may_run(run, run.executable[position as int] as int));
    outcomes_complete_or_fail(context, spent, index, prepared, outcome, failure, duration_ms);
    let (next, next_failure) = outcome_noted(
        context,
        spent,
        index,
        prepared,
        outcome,
        failure,
        duration_ms,
    );
    let after = result_handled(context, run, position, failure, outcome, duration_ms).0;
    assert(may_run(spent, index));
    if position + 1 < run.executable.len() {
        places_fit(run.executable, position + 1);
    }
    if completes(spent, next, index) {
        completion_is_orderly(spent, next, index);
    } else {
        same_outputs_stay_orderly(spent, next);
    }
    same_outputs_stay_orderly(next, after);
    assert forall|e: int| position + 1 <= e < after.executable.len() implies may_run(
        after,
        (#[trigger] after.executable[e]) as int,
    ) by {
        assert(may_run(run, run.executable[e] as int));
        assert(may_run(spent, run.executable[e] as int));
        if completes(spent, next, index) {
            completion_lets_run(spent, next, index, run.executable[e] as int);
        }
    }
    if next_failure is Some {
        if completes(spent, next, index) && next_failure == failure {
            let i = choose|i: int|
                #[trigger] lacking(run, i) && !lists(run.executable, position as int, i);
            assert(i != index) by {
                assert(run.executable[position as int] as int == index);
            }
            assert(lacking(after, i));
            assert(!lists(after.executable, position + 1, i));
        } else {
            assert(lacking(run, index));
            assert(lacking(after, index));
            assert(!lists(after.executable, position + 1, index)) by {
                if lists(after.executable, position + 1, index) {
                    let e = choose|e: int|
                        position + 1 <= e < after.executable.len() && (
                        #[trigger] after.executable[e]) as int == index;
                    assert(run.executable[position as int] < run.executable[e]);
                }
            }
        }
        assert(lost(after, position + 1));
        let i = choose|i: int|
            #[trigger] lacking(after, i) && !lists(after.executable, position + 1, i);
        assert(after.outputs[i] is None);
    }
}

/// A plan execution begins with nothing done.
pub proof fn executions_begin_telling(
    context: &PlanContext,
    record: RecordModel,
    attempts: u32,
    nodes: Seq<PlanNode>,
    existing: nat,
    checked: Result<(), HarnessError<Seq<char>>>,
)
    ensures
        telling(plan_begun(context, record, attempts, nodes, existing, checked).0),
{
    let begun = plan_begun(context, record, attempts, nodes, existing, checked).0;
    none_finished(begun.outputs, begun.outputs.len());
    if nodes.len() > 0 {
        assert(begun.outputs[0] is None);
    }
}

/// The outcome of a plan execution tells what happened, after every step. Once it is over, it
/// names no failure exactly where every node has a result. A node has a result only after all
/// that it depends on, the transcript holds one entry for each result, and a failed preflight
/// handed no call to a tool.
pub proof fn executions_stay_telling(context: &PlanContext, run: PlanModel, event: PlanEventModel)
    requires
        run.consistent(),
        run.nodes.len() <= usize::MAX,
        telling(run),
    ensures
        telling(plan_step(context, run, event).0),
{
    match (run.stage, event) {
        (StageModel::Preflight, PlanEventModel::Checked(cancelled, now)) => {
            preparations_tell(context, run, cancelled, now);
        },
        (StageModel::PreflightPolicy, PlanEventModel::Decided(Ok(decision), now)) => {
            let prepared = run.slots.last()->Prepared_0;
            let (ledger, answer) = crate::admission::policy_outcome(
                run.record.ledger,
                prepared.call,
                decision,
                prepared.approval_barrier,
            );
            authorized_preflights_tell(context, run.with_ledger(ledger), run, answer, now);
        },
        (StageModel::PreflightPolicy, PlanEventModel::Decided(Err(error), now)) => {
            reveal(preflight_unauthorized);
            failed_preflights_tell(run, preflight_unauthorized(run, error, now).0);
        },
        (StageModel::PreflightApproval, PlanEventModel::Approved(Ok(granted), now)) => {
            let (ledger, answer) = crate::admission::approval_outcome(
                run.record.ledger,
                run.slots.last()->Prepared_0.call,
                granted,
            );
            authorized_preflights_tell(context, run.with_ledger(ledger), run, answer, now);
        },
        (StageModel::PreflightApproval, PlanEventModel::Approved(Err(error), now)) => {
            reveal(preflight_unauthorized);
            failed_preflights_tell(run, preflight_unauthorized(run, error, now).0);
        },
        (StageModel::Bind(purpose, index), PlanEventModel::Checked(cancelled, now)) => {
            bindings_tell(context, run, purpose, index, cancelled, now);
        },
        (
            StageModel::BindPolicy(purpose, index, arguments),
            PlanEventModel::Decided(Ok(decision), now),
        ) => {
            let prepared = run.slots[index as int]->Prepared_0;
            let (ledger, answer) = crate::admission::policy_outcome(
                run.record.ledger,
                prepared.call,
                decision,
                prepared.approval_barrier,
            );
            binding_moves(run, run.with_ledger(ledger), purpose, index);
            authorized_bindings_tell(
                context,
                run.with_ledger(ledger),
                purpose,
                index,
                arguments,
                answer,
                now,
            );
        },
        (
            StageModel::BindPolicy(purpose, index, _),
            PlanEventModel::Decided(Err(error), now),
        ) => {
            binding_moves(run, run.aborted(error), purpose, index);
            failed_bindings_tell(
                run.aborted(error),
                purpose,
                index as int,
                error,
                crate::plan_model::since(run.node_started, now),
            );
        },
        (
            StageModel::BindApproval(purpose, index, arguments),
            PlanEventModel::Approved(Ok(granted), now),
        ) => {
            let (ledger, answer) = crate::admission::approval_outcome(
                run.record.ledger,
                run.slots[index as int]->Prepared_0.call,
                granted,
            );
            binding_moves(run, run.with_ledger(ledger), purpose, index);
            authorized_bindings_tell(
                context,
                run.with_ledger(ledger),
                purpose,
                index,
                arguments,
                answer,
                now,
            );
        },
        (
            StageModel::BindApproval(purpose, index, _),
            PlanEventModel::Approved(Err(error), now),
        ) => {
            binding_moves(run, run.aborted(error), purpose, index);
            failed_bindings_tell(
                run.aborted(error),
                purpose,
                index as int,
                error,
                crate::plan_model::since(run.node_started, now),
            );
        },
        (StageModel::Results(position, failure), PlanEventModel::Returned(outcome, took)) => {
            results_tell(context, run, position, failure, outcome, took);
        },
        (StageModel::NextWave, PlanEventModel::Continued) => {
            schedules_tell(context, run);
        },
        _ => {},
    }
}

} // verus!
