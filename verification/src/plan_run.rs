//! The execution of one declarative plan: preflight, waves, and what each node came to.

use crate::admission::{
    admission_counts, admission_view, bound_denial, finalization_view, Admission, AdmissionModel,
    Authorization, Finalization, FinalizationModel, PreparedCall,
};
use crate::broker::BrokerModel;
use crate::error::HarnessError;
use crate::event::{PlanLifecycleOutcome, PlanNodeOutcome};
use crate::json::{Json, JsonTree};
use crate::plan_model::{
    admission_handled, bind_failed, binding_checked, bound_authorized, counts_after_push,
    counts_after_update, finalization_handled, gate_from, held_calls_count, increasing, lists,
    node_bound, node_prepared, outcome_noted, plan_step, preflight_authorized,
    preflight_unauthorized, prepared_next, result_handled, reused_node, scheduled, since,
    undecided_calls, wave_begun, wave_bound, wave_from, wave_started, BindPurpose, PlanAction,
    PlanContext, PlanEvent, PlanEventModel, PlanModel, PlanStage,
};
use crate::plan_state::{outcome_frame, PlanRun};
use crate::policy::PolicyDecision;
use crate::request::check_stopped;
use crate::schedule::{node_outcome_for_error, reads_only, NodeSlot, PlanFailureKind, SlotModel};
use crate::tool::{ToolCall, ToolCaller, ToolResult, ToolResultModel};
use vstd::prelude::*;

verus! {

proof fn results_begin(first: PlanModel, trimmed: PlanModel, after: PlanModel)
    requires
        first.held(),
        trimmed.nodes == first.nodes,
        trimmed.slots == first.slots,
        trimmed.outputs == first.outputs,
        trimmed.budget is Some,
        increasing(trimmed.executable),
        forall|e: int|
            0 <= e < trimmed.executable.len() ==> (#[trigger] trimmed.executable[e])
                < trimmed.nodes.len() && trimmed.outputs[trimmed.executable[e] as int] is None,
        after.nodes == trimmed.nodes,
        after.outputs == trimmed.outputs,
        after.executable == trimmed.executable,
        after.budget == trimmed.budget,
        after.counted(),
        after.record.ledger.broker.resolved() + after.executable.len()
            == after.record.ledger.broker.tool_issued,
        after.slots.len() == trimmed.slots.len(),
        forall|e: int|
            0 <= e < trimmed.executable.len() ==> after.slots[(
            #[trigger] trimmed.executable[e]) as int] == SlotModel::Dispatched(
                trimmed.slots[trimmed.executable[e] as int]->Prepared_0,
            ),
        after.gate_open == first.gate_open,
        !first.gate_open ==> forall|e: int|
            0 <= e < trimmed.executable.len() ==> reads_only(
                first.slots[(#[trigger] trimmed.executable[e]) as int],
            ),
        forall|i: int|
            0 <= i < trimmed.slots.len() && !lists(trimmed.executable, 0, i)
                ==> #[trigger] after.slots[i] == trimmed.slots[i],
    ensures
        after.results_held(0, None),
{
    assert forall|i: int|
        0 <= i < after.nodes.len() && (#[trigger] after.outputs[i]) is None implies after.slots[i]
        is Prepared || after.slots[i] is Reused || lists(after.executable, 0, i) by {
        if !lists(trimmed.executable, 0, i) {
            assert(after.slots[i] == trimmed.slots[i]);
            assert(first.outputs[i] is None);
        }
    }
}

/// What handing calls to their tools leaves as it is.
spec fn wave_frame(before: PlanModel, after: PlanModel) -> bool {
    after == PlanModel { record: after.record, slots: after.slots, ..before }
}

/// A recorded effect that answers a node of the wave leaves the wave in order.
proof fn reused_keeps_wave(
    run: PlanModel,
    next: PlanModel,
    position: int,
    call: ToolCall<Seq<char>>,
    result: ToolResultModel,
)
    requires
        run.wave_held(position),
        0 <= position < run.wave.len(),
        next == (PlanModel {
            record: next.record,
            slots: next.slots,
            node_started: next.node_started,
            ..run
        }),
        next.slots.len() == run.slots.len(),
        forall|j: int|
            0 <= j < run.slots.len() && j != run.wave[position] ==> #[trigger] next.slots[j]
                == run.slots[j],
        next.record.ledger.broker.consistent(),
        next.record.ledger.broker.classified() + undecided_calls(
            next.slots.update(run.wave[position] as int, SlotModel::Spent),
        ) <= next.record.ledger.broker.tool_calls,
        next.record.ledger.broker.settled(),
    ensures
        match reused_node(next, run.wave[position] as int, call, result, 0) {
            Ok(after) => after.wave_held(position + 1) && after.wave == run.wave,
            Err(after) => after.consistent() && after.stage is Done,
        },
{
    let index = run.wave[position] as int;
    match reused_node(next, index, call, result, 0) {
        Ok(after) => {
            assert forall|e: int| 0 <= e < after.executable.len() implies (
            #[trigger] after.executable[e]) < after.nodes.len()
                && after.slots[after.executable[e] as int] is Prepared
                && after.outputs[after.executable[e] as int] is None by {
                assert(run.executable[e] < run.wave[position]);
                assert(next.slots[run.executable[e] as int] == run.slots[
                    run.executable[e] as int
                ]);
            }
            assert forall|j: int| position + 1 <= j < after.wave.len() implies after.outputs[(
            #[trigger] after.wave[j]) as int] is None by {
                assert(run.wave[position] < run.wave[j]);
            }
            assert forall|i: int|
                0 <= i < after.nodes.len() && (#[trigger] after.outputs[i])
                    is None implies after.slots[i] is Prepared || after.slots[i] is Reused by {
                assert(run.outputs[i] is None);
                assert(next.slots[i] == run.slots[i]);
            }
        },
        Err(after) => {},
    }
}

/// A run in which one slot changed, and the counters with it.
spec fn slot_changed(before: PlanModel, after: PlanModel, index: int) -> bool {
    &&& after == (PlanModel {
        record: after.record,
        slots: after.slots,
        node_started: after.node_started,
        ..before
    })
    &&& after.slots.len() == before.slots.len()
    &&& reads_only(before.slots[index]) && after.slots[index] is Prepared ==> reads_only(
        after.slots[index],
    )
    &&& forall|j: int|
        0 <= j < before.slots.len() && j != index ==> #[trigger] after.slots[j] == before.slots[j]
}

/// A node that still holds its call can go on being bound.
proof fn binding_goes_on(before: PlanModel, after: PlanModel, purpose: BindPurpose, index: usize)
    requires
        before.binding_held(purpose, index),
        slot_changed(before, after, index as int),
        after.slots[index as int] is Prepared,
        after.counted(),
        after.record.ledger.broker.settled(),
    ensures
        after.binding_held(purpose, index),
{
    assert forall|i: int|
        0 <= i < after.nodes.len() && (#[trigger] after.outputs[i]) is None implies after.slots[i]
        is Prepared || after.slots[i] is Reused by {
        if i != index {
            assert(after.slots[i] == before.slots[i]);
        }
    }
    if let BindPurpose::Wave(position) = purpose {
        assert forall|e: int| 0 <= e < after.executable.len() implies (
        #[trigger] after.executable[e]) < after.nodes.len()
            && after.slots[after.executable[e] as int] is Prepared
            && after.outputs[after.executable[e] as int] is None by {
            assert(before.executable[e] < before.wave[position as int]);
            assert(after.slots[before.executable[e] as int] == before.slots[
                before.executable[e] as int
            ]);
        }
    }
}

/// The results that are still to come stay in order once one of them was handled.
proof fn results_go_on(
    before: PlanModel,
    after: PlanModel,
    position: int,
    failure: Option<PlanFailureKind>,
    next_failure: Option<PlanFailureKind>,
)
    requires
        before.results_held(position, failure),
        0 <= position < before.executable.len(),
        after == (PlanModel {
            record: after.record,
            slots: after.slots,
            outputs: after.outputs,
            transcript: after.transcript,
            retained: after.retained,
            ..before
        }),
        after.slots == before.slots.update(before.executable[position] as int, SlotModel::Spent),
        after.outputs.len() == before.outputs.len(),
        forall|i: int|
            0 <= i < before.outputs.len() && i != before.executable[position]
                ==> #[trigger] after.outputs[i] == before.outputs[i],
        next_failure is None ==> failure is None
            && after.outputs[before.executable[position] as int] is Some,
        after.record.ledger.broker.consistent(),
        after.record.ledger.broker.tool_calls == before.record.ledger.broker.tool_calls,
        after.record.ledger.broker.tool_issued == before.record.ledger.broker.tool_issued,
        after.record.ledger.broker.classified() == before.record.ledger.broker.classified(),
        after.record.ledger.broker.resolved() == before.record.ledger.broker.resolved() + 1,
    ensures
        after.results_held(position + 1, next_failure),
        position + 1 == before.executable.len() && next_failure is None ==> after.held(),
{
    let index = before.executable[position] as int;
    counts_after_update(before.slots, index, SlotModel::Spent);
    assert forall|e: int| position + 1 <= e < after.executable.len() implies (
    #[trigger] after.executable[e]) < after.nodes.len() && after.slots[after.executable[e] as int]
        is Dispatched && after.outputs[after.executable[e] as int] is None by {
        assert(before.executable[position] < before.executable[e]);
    }
    if next_failure is None {
        assert forall|i: int|
            0 <= i < after.nodes.len() && (#[trigger] after.outputs[i])
                is None implies after.slots[i] is Prepared || after.slots[i] is Reused || lists(
            after.executable,
            position + 1,
            i,
        ) by {
            assert(before.outputs[i] is None);
            if lists(before.executable, position, i) {
                let e = choose|e: int|
                    position <= e < before.executable.len() && (
                    #[trigger] before.executable[e]) as int == i;
                assert(e != position);
                assert(after.executable[e] as int == i);
            }
        }
    }
}

impl PlanRun {
    /// Hands the calls of the wave to their tools.
    fn start_wave(&mut self)
        requires
            old(self)@.counted(),
            old(self)@.record.ledger.broker.settled(),
            old(self)@.slots.len() == old(self)@.nodes.len(),
            increasing(old(self)@.executable),
            forall|e: int|
                0 <= e < old(self)@.executable.len() ==> (#[trigger] old(self)@.executable[e])
                    < old(self)@.nodes.len() && old(self)@.slots[old(
                    self,
                )@.executable[e] as int] is Prepared,
        ensures
            final(self)@ == wave_started(old(self)@, old(self)@.executable.len()),
            final(self)@.counted(),
            final(self)@.record.ledger.broker.resolved() + old(self)@.executable.len()
                == final(self)@.record.ledger.broker.tool_issued,
            final(self)@.slots.len() == old(self)@.slots.len(),
            forall|e: int|
                0 <= e < old(self)@.executable.len() ==> final(self)@.slots[(
                #[trigger] old(self)@.executable[e]) as int] == SlotModel::Dispatched(
                    old(self)@.slots[old(self)@.executable[e] as int]->Prepared_0,
                ),
            forall|i: int|
                0 <= i < old(self)@.slots.len() && !lists(old(self)@.executable, 0, i)
                    ==> #[trigger] final(self)@.slots[i] == old(self)@.slots[i],
            wave_frame(old(self)@, final(self)@),
    {
        let ghost first = self@;
        let mut i: usize = 0;
        while i < self.executable().len()
            invariant
                i <= self@.executable.len(),
                self@ == wave_started(first, i as nat),
                self@.counted(),
                self@.record.ledger.broker.resolved() + i == self@.record.ledger.broker.tool_issued,
                wave_frame(first, self@),
                self@.slots.len() == first.slots.len(),
                first.slots.len() == first.nodes.len(),
                increasing(first.executable),
                forall|e: int|
                    0 <= e < first.executable.len() ==> (#[trigger] first.executable[e])
                        < first.nodes.len() && first.slots[first.executable[e] as int] is Prepared,
                forall|e: int|
                    0 <= e < i ==> self@.slots[(#[trigger] first.executable[e]) as int]
                        == SlotModel::Dispatched(
                        first.slots[first.executable[e] as int]->Prepared_0,
                    ),
                forall|e: int|
                    i <= e < first.executable.len() ==> self@.slots[(
                    #[trigger] first.executable[e]) as int] == first.slots[
                        first.executable[e] as int
                    ],
                forall|j: int|
                    0 <= j < first.slots.len() && !lists(first.executable, 0, j)
                        ==> #[trigger] self@.slots[j] == first.slots[j],
            decreases self@.executable.len() - i,
        {
            let index = self.executable()[i];
            assert(first.executable[i as int] == index);
            let ghost before = self@;
            proof {
                held_calls_count(before.slots, index as int);
            }
            self.dispatch_slot(index);
            proof {
                let slot = self@.slots[index as int];
                assert(self@.slots =~= before.slots.update(index as int, slot));
                counts_after_update(before.slots, index as int, slot);
            }
            assert(lists(first.executable, 0, index as int));
            i += 1;
        }
    }

    fn bind_wave(&mut self, context: &PlanContext) -> (action: PlanAction)
        requires
            old(self)@.wave_held(old(self)@.wave.len() as int),
        ensures
            (final(self)@, action) == wave_bound(context, old(self)@),
            final(self)@.consistent(),
    {
        reveal(wave_bound);
        let ghost first = self@;
        let fitting = self.count_permitted(context.request.agent.limits.max_tool_result_bytes);
        if self.executable().len() == 0 {
            self.set_stage(PlanStage::NextWave);
            return PlanAction::Continue;
        }
        if fitting == 0 {
            let index = self.executable()[0];
            let wave = self.wave_of(BindPurpose::Wave(0));
            self.end_node(index, wave, false, PlanNodeOutcome::LimitReached, 0);
            return self.terminate(
                &HarnessError::ResourceLimit(
                    "aggregate plan result budget is exhausted before the next wave".to_owned(),
                ),
            );
        }
        self.trim_wave(fitting);
        let ghost trimmed = self@;
        assert(trimmed.executable.len() == fitting);
        self.start_wave();
        self.set_stage(PlanStage::Results(0, None));
        proof {
            results_begin(first, trimmed, self@);
        }
        PlanAction::ExecuteWave
    }

    fn continue_wave(&mut self, context: &PlanContext, start: usize) -> (action: PlanAction)
        requires
            old(self)@.wave_held(start as int),
            start <= old(self)@.wave.len(),
        ensures
            (final(self)@, action) == wave_from(context, old(self)@, start as nat),
            final(self)@.consistent(),
    {
        let ghost first = self@;
        let mut position: usize = start;
        while position < self.wave().len()
            invariant
                position <= self@.wave.len(),
                self@.wave_held(position as int),
                first == old(self)@,
                wave_from(context, first, start as nat) == wave_from(
                    context,
                    self@,
                    position as nat,
                ),
            decreases self@.wave.len() - position,
        {
            let index = self.wave()[position];
            assert(self@.outputs[index as int] is None);
            let ghost before = self@;
            match self.recorded(index) {
                Some((call, result)) => {
                    proof {
                        counts_after_update(before.slots, index as int, SlotModel::Spent);
                        reused_keeps_wave(before, before, position as int, call@, result@);
                    }
                    if self.reuse_node(index, call, result) {
                        return PlanAction::Finish;
                    }
                },
                None => {
                    self.set_stage(PlanStage::Bind(BindPurpose::Wave(position), index));
                    return PlanAction::Check;
                },
            }
            position += 1;
        }
        self.bind_wave(context)
    }

    fn begin_wave(&mut self, context: &PlanContext, candidates: &Vec<usize>) -> (action: PlanAction)
        requires
            old(self)@.held(),
            candidates@.len() > 0,
            increasing(candidates@),
            forall|k: int|
                0 <= k < candidates@.len() ==> (#[trigger] candidates@[k]) < old(self)@.nodes.len()
                    && old(self)@.outputs[candidates@[k] as int] is None && (old(self)@.gate_open
                    || reads_only(old(self)@.slots[candidates@[k] as int])),
        ensures
            (final(self)@, action) == wave_begun(context, old(self)@, candidates@),
            final(self)@.consistent(),
    {
        reveal(wave_begun);
        self.take_wave(context, candidates);
        proof {
            let wave = self@.wave;
            assert forall|j: int| 0 <= j < wave.len() implies (#[trigger] wave[j])
                < self@.nodes.len() && self@.outputs[wave[j] as int] is None && (self@.gate_open
                || reads_only(self@.slots[wave[j] as int])) by {
                let k = choose|k: int| 0 <= k < candidates@.len() && candidates@[k] == wave[j];
                assert(candidates@[k] == wave[j]);
            }
        }
        self.continue_wave(context, 0)
    }

    /// Authorizes every mutation that is still to run.
    fn authorize_mutation_gate(&mut self, context: &PlanContext, start: usize) -> (action:
        PlanAction)
        requires
            old(self)@.held(),
            start <= old(self)@.nodes.len(),
        ensures
            (final(self)@, action) == gate_from(context, old(self)@, start as nat),
            final(self)@.consistent(),
    {
        let ghost first = self@;
        let mut i: usize = start;
        while i < self.node_count()
            invariant
                i <= self@.nodes.len(),
                self@ == first,
                first == old(self)@,
                first.held(),
                gate_from(context, first, start as nat) == gate_from(context, first, i as nat),
            decreases self@.nodes.len() - i,
        {
            if self.is_gated(i) {
                self.set_stage(PlanStage::Bind(BindPurpose::Gate, i));
                return PlanAction::Check;
            }
            i += 1;
        }
        self.open_gate();
        let candidates = self.candidates(false);
        if candidates.len() == 0 {
            return self.fail_without_progress();
        }
        self.begin_wave(context, &candidates)
    }

    fn schedule(&mut self, context: &PlanContext) -> (action: PlanAction)
        requires
            old(self)@.held(),
        ensures
            (final(self)@, action) == scheduled(context, old(self)@),
            final(self)@.consistent(),
    {
        reveal(scheduled);
        if self.is_complete() {
            return self.over(None);
        }
        let candidates = self.candidates(false);
        if candidates.len() == 0 {
            return self.fail_without_progress();
        }
        if self.gate_is_open() {
            return self.begin_wave(context, &candidates);
        }
        let reads = self.candidates(true);
        if reads.len() == 0 {
            return self.authorize_mutation_gate(context, 0);
        }
        self.begin_wave(context, &reads)
    }

    fn finish_preparation(&mut self, context: &PlanContext) -> (action: PlanAction)
        requires
            old(self)@.preflight_held(),
        ensures
            (final(self)@, action) == node_prepared(context, old(self)@),
            final(self)@.consistent(),
    {
        reveal(node_prepared);
        if self.slot_count() < self.node_count() {
            self.set_stage(PlanStage::Preflight);
            return PlanAction::Check;
        }
        self.report_validated();
        self.report_preflight(PlanLifecycleOutcome::Succeeded);
        if !self.has_budget() {
            return self.terminate(
                &HarnessError::ResourceLimit(
                    "plan result budget is exhausted before execution".to_owned(),
                ),
            );
        }
        self.schedule(context)
    }

    /// Prepares the next node.
    fn prepare_next(&mut self, context: &PlanContext, cancelled: bool, now: u64) -> (action:
        PlanAction)
        requires
            old(self)@.preflight_held(),
            old(self)@.slots.len() < old(self)@.nodes.len(),
        ensures
            (final(self)@, action) == prepared_next(context, old(self)@, cancelled, now),
            final(self)@.consistent(),
    {
        reveal(prepared_next);
        let ghost first = self@;
        let index: usize = self.slot_count();
        self.start_node(now);
        if let Err(error) = check_stopped(
            cancelled,
            now,
            context.deadline,
            "run deadline reached before tool validation",
        ) {
            self.end_node(index, 0, false, node_outcome_for_error(&error), 0);
            return self.fail_preflight(&error);
        }
        let call = self.next_call();
        let (attempts_before, classified_before) = self.counters();
        proof {
            admission_counts(
                first.record.ledger,
                context.broker.tools@,
                context.broker.scope,
                context.request,
                call@,
                ToolCaller::DeclarativePlan,
                first.nodes[index as int].approval_barrier,
                first.nodes[index as int].result_bindings@.len() > 0,
                None,
            );
        }
        let outcome = self.admit_next(context, &call);
        proof {
            match admission_view(outcome) {
                Ok(AdmissionModel::Authorize(prepared)) => {
                    counts_after_push(first.slots, SlotModel::Prepared(prepared));
                },
                Ok(AdmissionModel::Deferred(prepared)) => {
                    counts_after_push(first.slots, SlotModel::Prepared(prepared));
                },
                Ok(AdmissionModel::Reused(result)) => {
                    counts_after_push(first.slots, SlotModel::Reused(call@, result));
                },
                _ => {},
            }
        }
        self.handle_admission(
            context,
            call,
            outcome,
            attempts_before,
            classified_before,
            Ghost(first.record.ledger.broker),
        )
    }

    fn handle_admission(
        &mut self,
        context: &PlanContext,
        call: ToolCall,
        outcome: Result<Admission, HarnessError>,
        attempts_before: u32,
        classified_before: u32,
        Ghost(before): Ghost<BrokerModel>,
    ) -> (action: PlanAction)
        requires
            old(self)@.slots.len() < old(self)@.nodes.len(),
            old(self)@.record.ledger.broker.consistent(),
            old(self)@.record.ledger.broker.settled(),
            before.tool_calls == attempts_before,
            before.classified() == classified_before,
            classified_before <= attempts_before,
            outcome matches Ok(Admission::Authorize(prepared)) ==> (PlanModel {
                slots: old(self)@.slots.push(SlotModel::Prepared(prepared@)),
                ..old(self)@
            }).preflight_held(),
            outcome matches Ok(Admission::Deferred(prepared)) ==> (PlanModel {
                slots: old(self)@.slots.push(SlotModel::Prepared(prepared@)),
                ..old(self)@
            }).preflight_held(),
            outcome matches Ok(Admission::Reused(result)) ==> (PlanModel {
                slots: old(self)@.slots.push(SlotModel::Reused(call@, result@)),
                ..old(self)@
            }).preflight_held(),
        ensures
            (final(self)@, action) == admission_handled(
                context,
                old(self)@,
                before,
                call@,
                admission_view(outcome),
            ),
            final(self)@.consistent(),
    {
        reveal(admission_handled);
        let index: usize = self.slot_count();
        match outcome {
            Err(error) => {
                self.settle_preparation(attempts_before, classified_before, &error);
                self.end_node(index, 0, false, node_outcome_for_error(&error), 0);
                self.fail_preflight(&error)
            },
            Ok(Admission::Stop) => {
                self.end_stopped_node(index, 0);
                self.stop_preflight()
            },
            Ok(Admission::Rejected(_)) => {
                self.end_node(index, 0, false, PlanNodeOutcome::Rejected, 0);
                let error = self.refusal(index);
                self.fail_preflight(&error)
            },
            Ok(Admission::Reused(result)) => {
                self.push_slot(NodeSlot::Reused(call, result));
                self.finish_preparation(context)
            },
            Ok(Admission::Deferred(prepared)) => {
                self.push_slot(NodeSlot::Prepared(prepared));
                self.finish_preparation(context)
            },
            Ok(Admission::Authorize(prepared)) => {
                self.push_slot(NodeSlot::Prepared(prepared));
                self.set_stage(PlanStage::PreflightPolicy);
                PlanAction::AskPolicy
            },
        }
    }

    fn settle_preflight(
        &mut self,
        context: &PlanContext,
        authorization: Authorization,
        now: u64,
    ) -> (action: PlanAction)
        requires
            old(self)@.slots.len() > 0,
            old(self)@.slots.len() <= old(self)@.nodes.len(),
            old(self)@.record.ledger.broker.consistent(),
            old(self)@.record.ledger.broker.settled(),
            !(authorization is Rejected) ==> old(self)@.preflight_held()
                && old(self)@.slots.last() is Prepared,
        ensures
            (final(self)@, action) == preflight_authorized(
                context,
                old(self)@,
                authorization@,
                now,
            ),
            final(self)@.consistent(),
    {
        reveal(preflight_authorized);
        match authorization {
            Authorization::Authorized => self.finish_preparation(context),
            Authorization::AskApproval => {
                self.set_stage(PlanStage::PreflightApproval);
                PlanAction::AskApproval
            },
            Authorization::Rejected(_) => {
                let index: usize = self.slot_count() - 1;
                let duration = self.node_time(now);
                self.end_node(index, 0, false, PlanNodeOutcome::Rejected, duration);
                let error = self.refusal(index);
                self.fail_preflight(&error)
            },
        }
    }

    fn fail_authorization(&mut self, error: &HarnessError, now: u64) -> (action: PlanAction)
        requires
            old(self)@.preflight_held(),
            old(self)@.slots.len() > 0,
            old(self)@.slots.last() is Prepared,
        ensures
            (final(self)@, action) == preflight_unauthorized(old(self)@, error@, now),
            final(self)@.consistent(),
    {
        reveal(preflight_unauthorized);
        proof {
            held_calls_count(self@.slots, self@.slots.len() - 1);
        }
        let index: usize = self.slot_count() - 1;
        let duration = self.node_time(now);
        self.abort(error);
        self.end_node(index, 0, false, node_outcome_for_error(error), duration);
        self.fail_preflight(error)
    }

    fn fail_binding(
        &mut self,
        purpose: BindPurpose,
        index: usize,
        error: &HarnessError,
        duration_ms: u64,
    ) -> (action: PlanAction)
        requires
            index < old(self)@.nodes.len(),
            old(self)@.record.ledger.broker.consistent(),
            old(self)@.record.ledger.broker.settled(),
        ensures
            (final(self)@, action) == bind_failed(
                old(self)@,
                purpose,
                index as int,
                error@,
                duration_ms,
            ),
            final(self)@.consistent(),
    {
        reveal(bind_failed);
        let wave = self.wave_of(purpose);
        self.end_node(index, wave, false, node_outcome_for_error(error), duration_ms);
        self.fail(error, PlanFailureKind::Recoverable)
    }

    fn finish_binding(&mut self, context: &PlanContext, purpose: BindPurpose, index: usize) -> (
    action: PlanAction)
        requires
            old(self)@.binding_held(purpose, index),
        ensures
            (final(self)@, action) == node_bound(context, old(self)@, purpose, index),
            final(self)@.consistent(),
    {
        reveal(node_bound);
        match purpose {
            BindPurpose::Gate => {
                let _ = self.node_count();
                self.authorize_mutation_gate(context, index + 1)
            },
            BindPurpose::Wave(position) => {
                let _ = self.wave().len();
                let ghost before = self@;
                self.push_executable(index);
                proof {
                    assert forall|e: int, j: int|
                        0 <= e < self@.executable.len() && position + 1 <= j
                            < self@.wave.len() implies self@.executable[e] < self@.wave[j] by {
                        if e < before.executable.len() {
                            assert(self@.executable[e] == before.executable[e]);
                        }
                    }
                    assert forall|a: int, b: int|
                        0 <= a < b < self@.executable.len() implies self@.executable[a]
                        < self@.executable[b] by {
                        if b == before.executable.len() {
                            assert(before.executable[a] < before.wave[position as int]);
                        }
                    }
                }
                self.continue_wave(context, position + 1)
            },
        }
    }

    fn handle_finalization(
        &mut self,
        context: &PlanContext,
        purpose: BindPurpose,
        index: usize,
        arguments: Json,
        outcome: Result<Finalization, HarnessError>,
        Ghost(before): Ghost<PlanModel>,
    ) -> (action: PlanAction)
        requires
            before.binding_held(purpose, index),
            slot_changed(before, old(self)@, index as int),
            old(self)@.slots[index as int] is Prepared,
            old(self)@.record.ledger.broker.consistent(),
            old(self)@.record.ledger.broker.tool_calls == before.record.ledger.broker.tool_calls,
            old(self)@.record.ledger.broker.tool_issued == before.record.ledger.broker.tool_issued,
            old(self)@.record.ledger.broker.resolved() == before.record.ledger.broker.resolved(),
            old(self)@.record.ledger.broker.classified() == before.record.ledger.broker.classified()
                + (match outcome {
                Ok(Finalization::Reused(_)) => 1int,
                Ok(Finalization::Stop) => 1int,
                _ => 0int,
            }),
        ensures
            (final(self)@, action) == finalization_handled(
                context,
                old(self)@,
                purpose,
                index,
                arguments@,
                finalization_view(outcome),
            ),
            final(self)@.consistent(),
    {
        reveal(finalization_handled);
        let ghost first = self@;
        proof {
            held_calls_count(before.slots, index as int);
            assert(first.slots =~= before.slots.update(index as int, first.slots[index as int]));
            counts_after_update(before.slots, index as int, first.slots[index as int]);
        }
        match outcome {
            Err(error) => {
                self.abort(&error);
                self.fail_binding(purpose, index, &error, 0)
            },
            Ok(Finalization::Stop) => {
                let wave = self.wave_of(purpose);
                self.end_stopped_node(index, wave);
                self.stop()
            },
            Ok(Finalization::Ready) => {
                proof {
                    binding_goes_on(before, first, purpose, index);
                }
                self.finish_binding(context, purpose, index)
            },
            Ok(Finalization::Authorize) => {
                self.set_stage(PlanStage::BindPolicy(purpose, index, arguments));
                proof {
                    binding_goes_on(
                        before,
                        PlanModel { stage: before.stage, ..self@ },
                        purpose,
                        index,
                    );
                }
                PlanAction::AskPolicy
            },
            Ok(Finalization::Reused(result)) => self.reuse_bound(
                context,
                purpose,
                index,
                result,
                Ghost(before),
            ),
        }
    }

    fn reuse_bound(
        &mut self,
        context: &PlanContext,
        purpose: BindPurpose,
        index: usize,
        result: ToolResult,
        Ghost(before): Ghost<PlanModel>,
    ) -> (action: PlanAction)
        requires
            before.binding_held(purpose, index),
            slot_changed(before, old(self)@, index as int),
            old(self)@.slots[index as int] is Prepared,
            old(self)@.record.ledger.broker.consistent(),
            old(self)@.record.ledger.broker.tool_calls == before.record.ledger.broker.tool_calls,
            old(self)@.record.ledger.broker.tool_issued == before.record.ledger.broker.tool_issued,
            old(self)@.record.ledger.broker.resolved() == before.record.ledger.broker.resolved(),
            old(self)@.record.ledger.broker.classified() == before.record.ledger.broker.classified()
                + 1,
        ensures
            (final(self)@, action) == finalization_handled(
                context,
                old(self)@,
                purpose,
                index,
                JsonTree::Null,
                Ok(FinalizationModel::Reused(result@)),
            ),
            final(self)@.consistent(),
    {
        reveal(finalization_handled);
        let ghost first = self@;
        let call = self.held_call(index);
        match purpose {
            BindPurpose::Gate => {
                let ghost slot = SlotModel::Reused(call@, result@);
                self.set_slot(index, NodeSlot::Reused(call, result));
                proof {
                    assert(self@.slots =~= before.slots.update(index as int, slot));
                    counts_after_update(before.slots, index as int, slot);
                    assert forall|i: int|
                        0 <= i < self@.nodes.len() && (#[trigger] self@.outputs[i])
                            is None implies self@.slots[i] is Prepared || self@.slots[i] is Reused by {
                        assert(before.outputs[i] is None);
                        if i != index {
                            assert(self@.slots[i] == before.slots[i]);
                        }
                    }
                    assert(self@.held());
                }
                let _ = self.node_count();
                self.authorize_mutation_gate(context, index + 1)
            },
            BindPurpose::Wave(position) => {
                proof {
                    assert(first.slots.update(index as int, SlotModel::Spent)
                        =~= before.slots.update(index as int, SlotModel::Spent));
                    counts_after_update(before.slots, index as int, SlotModel::Spent);
                    reused_keeps_wave(before, first, position as int, call@, result@);
                }
                let _ = self.wave().len();
                if self.reuse_node(index, call, result) {
                    return PlanAction::Finish;
                }
                self.continue_wave(context, position + 1)
            },
        }
    }

    /// Binds the arguments of a node.
    fn check_binding(
        &mut self,
        context: &PlanContext,
        purpose: BindPurpose,
        index: usize,
        cancelled: bool,
        now: u64,
    ) -> (action: PlanAction)
        requires
            old(self)@.binding_held(purpose, index),
        ensures
            (final(self)@, action) == binding_checked(
                context,
                old(self)@,
                purpose,
                index,
                cancelled,
                now,
            ),
            final(self)@.consistent(),
    {
        reveal(binding_checked);
        let ghost first = self@;
        proof {
            held_calls_count(first.slots, index as int);
        }
        self.start_node(now);
        let arguments = match self.final_arguments(context, index) {
            Ok(arguments) => arguments,
            Err(error) => {
                self.abort(&error);
                return self.fail_binding(purpose, index, &error, 0);
            },
        };
        if let Err(error) = check_stopped(
            cancelled,
            now,
            context.deadline,
            "run deadline reached before bound argument validation",
        ) {
            self.abort(&error);
            return self.fail_binding(purpose, index, &error, 0);
        }
        let outcome = self.revalidate(context, index, &arguments);
        self.handle_finalization(context, purpose, index, arguments, outcome, Ghost(first))
    }

    fn settle_binding(
        &mut self,
        context: &PlanContext,
        purpose: BindPurpose,
        index: usize,
        arguments: Json,
        authorization: Authorization,
        now: u64,
    ) -> (action: PlanAction)
        requires
            index < old(self)@.nodes.len(),
            old(self)@.slots.len() == old(self)@.nodes.len(),
            old(self)@.slots[index as int] is Prepared,
            old(self)@.record.ledger.broker.consistent(),
            old(self)@.record.ledger.broker.settled(),
            !(authorization is Rejected) ==> old(self)@.binding_held(purpose, index),
        ensures
            (final(self)@, action) == bound_authorized(
                context,
                old(self)@,
                purpose,
                index,
                arguments@,
                authorization@,
                now,
            ),
            final(self)@.consistent(),
    {
        reveal(bound_authorized);
        let ghost first = self@;
        match authorization {
            Authorization::Authorized => {
                self.bind_slot(index, &arguments);
                proof {
                    counts_after_update(first.slots, index as int, self@.slots[index as int]);
                    binding_goes_on(first, self@, purpose, index);
                }
                self.finish_binding(context, purpose, index)
            },
            Authorization::AskApproval => {
                self.set_stage(PlanStage::BindApproval(purpose, index, arguments));
                proof {
                    binding_goes_on(
                        first,
                        PlanModel { stage: first.stage, ..self@ },
                        purpose,
                        index,
                    );
                }
                PlanAction::AskApproval
            },
            Authorization::Rejected(_) => {
                let duration = self.node_time(now);
                let error = bound_denial();
                self.fail_binding(purpose, index, &error, duration)
            },
        }
    }

    fn abandon_binding(
        &mut self,
        purpose: BindPurpose,
        index: usize,
        error: &HarnessError,
        now: u64,
    ) -> (action: PlanAction)
        requires
            old(self)@.binding_held(purpose, index),
        ensures
            (final(self)@, action) == bind_failed(
                old(self)@.aborted(error@),
                purpose,
                index as int,
                error@,
                since(old(self)@.node_started, now),
            ),
            final(self)@.consistent(),
    {
        proof {
            held_calls_count(self@.slots, index as int);
        }
        let duration = self.node_time(now);
        self.abort(error);
        self.fail_binding(purpose, index, error, duration)
    }

    fn note_outcome(
        &mut self,
        context: &PlanContext,
        index: usize,
        prepared: &PreparedCall,
        outcome: Result<ToolResult, HarnessError>,
        failure: Option<PlanFailureKind>,
        duration_ms: u64,
    ) -> (next_failure: Option<PlanFailureKind>)
        requires
            old(self)@.budget is Some,
            index < old(self)@.nodes.len(),
            old(self)@.outputs.len() == old(self)@.nodes.len(),
            old(self)@.record.ledger.broker.consistent(),
            old(self)@.record.ledger.broker.resolved() < old(self)@.record.ledger.broker.tool_issued,
        ensures
            (final(self)@, next_failure) == outcome_noted(
                context,
                old(self)@,
                index as int,
                prepared@,
                match outcome {
                    Ok(result) => Ok(result@),
                    Err(error) => Err(error@),
                },
                failure,
                duration_ms,
            ),
            outcome_frame(old(self)@, final(self)@, index as int, failure, next_failure),
    {
        reveal(outcome_noted);
        let checked = match outcome {
            Ok(result) => context.broker.check_execution(
                context.request,
                prepared.call.tool_id.as_str(),
                result,
            ),
            Err(error) => Err(error),
        };
        match checked {
            Ok(execution) => self.note_returned(
                index,
                prepared,
                execution,
                failure,
                duration_ms,
            ),
            Err(error) => self.note_lost(index, prepared, &error, failure, duration_ms),
        }
    }

    fn handle_result(
        &mut self,
        context: &PlanContext,
        position: usize,
        failure: Option<PlanFailureKind>,
        outcome: Result<ToolResult, HarnessError>,
        duration_ms: u64,
    ) -> (action: PlanAction)
        requires
            old(self)@.results_held(position as int, failure),
            position < old(self)@.executable.len(),
        ensures
            (final(self)@, action) == result_handled(
                context,
                old(self)@,
                position,
                failure,
                match outcome {
                    Ok(result) => Ok(result@),
                    Err(error) => Err(error@),
                },
                duration_ms,
            ),
            final(self)@.consistent(),
    {
        reveal(result_handled);
        let ghost first = self@;
        let index = self.executable()[position];
        proof {
            held_calls_count(first.slots, index as int);
        }
        let slot = self.take_slot(index);
        if let NodeSlot::Dispatched(prepared) = slot {
            let next_failure = self.note_outcome(
                context,
                index,
                &prepared,
                outcome,
                failure,
                duration_ms,
            );
            proof {
                results_go_on(first, self@, position as int, failure, next_failure);
            }
            let count: usize = self.executable().len();
            if position + 1 < count {
                self.set_stage(PlanStage::Results(position + 1, next_failure));
                return PlanAction::AwaitResult;
            }
            if next_failure.is_some() {
                return self.over(next_failure);
            }
            self.set_stage(PlanStage::NextWave);
            return PlanAction::Continue;
        }
        PlanAction::Misplaced
    }

    fn on_checked(&mut self, context: &PlanContext, cancelled: bool, now: u64) -> (action:
        PlanAction)
        requires
            old(self)@.consistent(),
        ensures
            (final(self)@, action) == plan_step(
                context,
                old(self)@,
                PlanEventModel::Checked(cancelled, now),
            ),
            final(self)@.consistent(),
    {
        match self.stage() {
            PlanStage::Preflight => self.prepare_next(context, cancelled, now),
            PlanStage::Bind(purpose, index) => {
                let purpose = *purpose;
                let index = *index;
                self.check_binding(context, purpose, index, cancelled, now)
            },
            _ => PlanAction::Misplaced,
        }
    }

    fn on_decided(
        &mut self,
        context: &PlanContext,
        outcome: Result<PolicyDecision, HarnessError>,
        now: u64,
    ) -> (action: PlanAction)
        requires
            old(self)@.consistent(),
        ensures
            (final(self)@, action) == plan_step(
                context,
                old(self)@,
                PlanEvent::Decided(outcome, now)@,
            ),
            final(self)@.consistent(),
    {
        match self.stage() {
            PlanStage::PreflightPolicy => match outcome {
                Err(error) => self.fail_authorization(&error, now),
                Ok(decision) => {
                    let index: usize = self.slot_count() - 1;
                    let authorization = self.decide(index, &decision);
                    self.settle_preflight(context, authorization, now)
                },
            },
            PlanStage::BindPolicy(purpose, index, arguments) => {
                let purpose = *purpose;
                let index = *index;
                let arguments = arguments.duplicate();
                match outcome {
                    Err(error) => self.abandon_binding(purpose, index, &error, now),
                    Ok(decision) => {
                        let authorization = self.decide(index, &decision);
                        self.settle_binding(context, purpose, index, arguments, authorization, now)
                    },
                }
            },
            _ => PlanAction::Misplaced,
        }
    }

    fn on_approved(
        &mut self,
        context: &PlanContext,
        outcome: Result<bool, HarnessError>,
        now: u64,
    ) -> (action: PlanAction)
        requires
            old(self)@.consistent(),
        ensures
            (final(self)@, action) == plan_step(
                context,
                old(self)@,
                PlanEvent::Approved(outcome, now)@,
            ),
            final(self)@.consistent(),
    {
        match self.stage() {
            PlanStage::PreflightApproval => match outcome {
                Err(error) => self.fail_authorization(&error, now),
                Ok(granted) => {
                    let index: usize = self.slot_count() - 1;
                    let authorization = self.approve(index, granted);
                    self.settle_preflight(context, authorization, now)
                },
            },
            PlanStage::BindApproval(purpose, index, arguments) => {
                let purpose = *purpose;
                let index = *index;
                let arguments = arguments.duplicate();
                match outcome {
                    Err(error) => self.abandon_binding(purpose, index, &error, now),
                    Ok(granted) => {
                        let authorization = self.approve(index, granted);
                        self.settle_binding(context, purpose, index, arguments, authorization, now)
                    },
                }
            },
            _ => PlanAction::Misplaced,
        }
    }

    fn on_returned(
        &mut self,
        context: &PlanContext,
        outcome: Result<ToolResult, HarnessError>,
        took: u64,
    ) -> (action: PlanAction)
        requires
            old(self)@.consistent(),
        ensures
            (final(self)@, action) == plan_step(
                context,
                old(self)@,
                PlanEvent::Returned(outcome, took)@,
            ),
            final(self)@.consistent(),
    {
        match self.stage() {
            PlanStage::Results(position, failure) => {
                let position = *position;
                let failure = *failure;
                self.handle_result(context, position, failure, outcome, took)
            },
            _ => PlanAction::Misplaced,
        }
    }

    /// Takes one step.
    pub fn step(&mut self, context: &PlanContext, event: PlanEvent) -> (action: PlanAction)
        requires
            old(self)@.consistent(),
        ensures
            (final(self)@, action) == plan_step(context, old(self)@, event@),
            final(self)@.consistent(),
    {
        match event {
            PlanEvent::Checked(cancelled, now) => self.on_checked(context, cancelled, now),
            PlanEvent::Decided(outcome, now) => self.on_decided(context, outcome, now),
            PlanEvent::Approved(outcome, now) => self.on_approved(context, outcome, now),
            PlanEvent::Returned(outcome, took) => self.on_returned(context, outcome, took),
            PlanEvent::Continued => match self.stage() {
                PlanStage::NextWave => self.schedule(context),
                _ => PlanAction::Misplaced,
            },
        }
    }
}

} // verus!
