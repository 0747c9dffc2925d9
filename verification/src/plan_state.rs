//! The state of one plan execution, and the small steps that it is made of.

use crate::admission::{
    admission, admission_view, apply_approval, apply_policy, approval_outcome, bound_call,
    dispatched, finalization, finalization_counts, finalization_view, mark_dispatched,
    policy_outcome, record_execution, Admission, Authorization, BrokerExecution, Finalization,
    PreparedCall,
};
use crate::binding::{arguments_view, bind_arguments, bound_arguments, outputs_view};
use crate::direct::note_lost_execution;
use crate::error::{HarnessError, RunError};
use crate::event::{PlanLifecycleOutcome, PlanNodeOutcome, PlanPhase, RunEvent};
use crate::json::{render_json, rendered_json, Json};
use crate::ledger::{LedgerModel, RecordModel, RunRecord};
use crate::limits::check_view;
use crate::message::{messages_view, transcript_len, transcript_total, Message};
use crate::plan::{ExecutionPlan, PlanNode};
use crate::plan_model::{
    all_complete, call_lost, call_returned, candidates_of, done_nodes, entries_view, event_id,
    executable_calls, gated, held_calls_count, increasing, no_progress, plan_begun,
    preflight_refusal, purpose_wave, reused_node, same_resolution, since, tool_failure,
    wave_failure, BindPurpose, PlanAction, PlanContext, PlanModel, PlanStage, StageModel,
};
use crate::plan_preflight::{static_answer, static_plan_preflight};
use crate::policy::PolicyDecision;
use crate::registry::registered;
use crate::schedule::{
    build_wave, find_ready, is_terminal_failure, lifecycle_outcome_for_error,
    lifecycle_outcome_for_status, max_parallel_calls, maximum_plan_entry_bytes, next_wave,
    node_of_status, node_outcome_for_error, node_outcome_for_status, permitted, reads_only, ready,
    reserve_plan_entry, slots_view, MAX_PLAN_RETAINED_BYTES, NodeSlot, PlanFailureKind, SlotModel,
};
use crate::speculative_call::{preparation_failed, settle_failed_preparation};
use crate::text::{decimal, join2, join3};
use crate::tool::{ToolCall, ToolCaller, ToolResult, ToolResultModel};
use vstd::prelude::*;

verus! {

/// The execution of one plan.
pub struct PlanRun {
    record: RunRecord,
    attempt: u32,
    nodes: Vec<PlanNode>,
    slots: Vec<NodeSlot>,
    outputs: Vec<Option<ToolResult>>,
    transcript: Vec<(ToolCall, ToolResult)>,
    retained: u64,
    budget: Option<u64>,
    max_parallel: usize,
    wave_number: u32,
    effects_started: bool,
    gate_open: bool,
    wave: Vec<usize>,
    executable: Vec<usize>,
    node_started: u64,
    stage: PlanStage,
}

impl View for PlanRun {
    type V = PlanModel;

    closed spec fn view(&self) -> PlanModel {
        PlanModel {
            record: self.record@,
            attempt: self.attempt,
            nodes: self.nodes@,
            slots: slots_view(self.slots@),
            outputs: outputs_view(self.outputs@),
            transcript: entries_view(self.transcript@),
            retained: self.retained,
            budget: self.budget,
            max_parallel: self.max_parallel,
            wave_number: self.wave_number,
            effects_started: self.effects_started,
            gate_open: self.gate_open,
            wave: self.wave@,
            executable: self.executable@,
            node_started: self.node_started,
            stage: self.stage@,
        }
    }
}

fn make_event_id(attempt: u32, index: usize) -> (result: String)
    requires
        index < usize::MAX,
    ensures
        result@ == event_id(attempt, index as int),
{
    let number = decimal(attempt as u64);
    let place = decimal(index as u64 + 1);
    join2(join3("plan-", number.as_str(), "-node-").as_str(), place.as_str())
}

pub(crate) fn elapsed(started: u64, now: u64) -> (result: u64)
    ensures
        result == since(started, now),
{
    now.saturating_sub(started)
}

/// How a wave failed, once one more call of it did.
fn join_failures(failure: Option<PlanFailureKind>, kind: PlanFailureKind) -> (result: Option<
    PlanFailureKind,
>)
    ensures
        result == wave_failure(failure, kind),
{
    if kind == PlanFailureKind::Terminal || failure.is_none() {
        Some(kind)
    } else {
        failure
    }
}

/// The recorded error of a tool that reported a failure.
pub fn tool_failure_error(result: &ToolResult) -> (error: RunError)
    ensures
        error@ == tool_failure(result@),
{
    match &result.error {
        Some(message) => RunError::new("tool_error", message.as_str()),
        None => RunError::new("tool_error", "tool returned a failure result"),
    }
}

/// What one outcome of a wave leaves as it is.
pub open spec fn outcome_frame(
    before: PlanModel,
    after: PlanModel,
    index: int,
    failure: Option<PlanFailureKind>,
    next_failure: Option<PlanFailureKind>,
) -> bool {
    &&& after == (PlanModel {
        record: after.record,
        outputs: after.outputs,
        transcript: after.transcript,
        retained: after.retained,
        ..before
    })
    &&& after.outputs.len() == before.outputs.len()
    &&& forall|i: int|
        0 <= i < before.outputs.len() && i != index ==> #[trigger] after.outputs[i]
            == before.outputs[i]
    &&& next_failure is None ==> failure is None && after.outputs[index] is Some
    &&& after.record.ledger.broker.consistent()
    &&& after.record.ledger.broker.tool_calls == before.record.ledger.broker.tool_calls
    &&& after.record.ledger.broker.tool_issued == before.record.ledger.broker.tool_issued
    &&& after.record.ledger.broker.classified() == before.record.ledger.broker.classified()
    &&& after.record.ledger.broker.resolved() == before.record.ledger.broker.resolved() + 1
}

impl PlanRun {
    pub(crate) fn over(&mut self, failure: Option<PlanFailureKind>) -> (action: PlanAction)
        ensures
            (final(self)@, action) == old(self)@.over(failure),
    {
        self.stage = PlanStage::Done(failure);
        PlanAction::Finish
    }

    pub(crate) fn stop(&mut self) -> (action: PlanAction)
        ensures
            (final(self)@, action) == old(self)@.stopped(),
    {
        self.record.terminal = true;
        self.over(Some(PlanFailureKind::Terminal))
    }

    pub(crate) fn terminate(&mut self, error: &HarnessError) -> (action: PlanAction)
        ensures
            (final(self)@, action) == old(self)@.terminated(error@),
    {
        self.record.terminate(error);
        self.over(Some(PlanFailureKind::Terminal))
    }

    /// Records an error, and says how it fails the execution.
    pub(crate) fn record_plan_error(&mut self, error: &HarnessError, otherwise: PlanFailureKind) -> (kind:
        PlanFailureKind)
        ensures
            (final(self)@, kind) == old(self)@.noted(error@, otherwise),
    {
        if is_terminal_failure(error) {
            self.record.terminate(error);
            PlanFailureKind::Terminal
        } else {
            self.record.ledger.push_error(error.run_error());
            otherwise
        }
    }

    pub(crate) fn fail(&mut self, error: &HarnessError, otherwise: PlanFailureKind) -> (action: PlanAction)
        ensures
            (final(self)@, action) == old(self)@.failed(error@, otherwise),
    {
        let failure = self.record_plan_error(error, otherwise);
        self.over(Some(failure))
    }

    pub(crate) fn end_node(
        &mut self,
        index: usize,
        wave: u32,
        ok: bool,
        outcome: PlanNodeOutcome,
        duration_ms: u64,
    )
        requires
            index < old(self)@.nodes.len(),
        ensures
            final(self)@ == old(self)@.node_ended(index as int, wave, ok, outcome, duration_ms),
    {
        assert(self.nodes@.len() == self.nodes.len());
        let event = RunEvent::PlanNodeCompleted {
            node_id: make_event_id(self.attempt, index),
            tool_id: self.nodes[index].tool_id.clone(),
            attempt: self.attempt,
            wave,
            ok,
            outcome,
            duration_ms,
        };
        self.record.emit(event);
    }

    pub(crate) fn report_preflight(&mut self, outcome: PlanLifecycleOutcome)
        ensures
            final(self)@ == old(self)@.preflight_reported(outcome),
    {
        self.record.emit(
            RunEvent::PlanLifecycle {
                phase: PlanPhase::Preflight,
                attempt: self.attempt,
                outcome,
            },
        );
    }

    pub(crate) fn fail_preflight(&mut self, error: &HarnessError) -> (action: PlanAction)
        ensures
            (final(self)@, action) == old(self)@.preflight_failed(error@),
    {
        self.report_preflight(lifecycle_outcome_for_error(error));
        self.fail(error, PlanFailureKind::Preflight)
    }

    pub(crate) fn stop_preflight(&mut self) -> (action: PlanAction)
        ensures
            (final(self)@, action) == old(self)@.preflight_stopped(),
    {
        self.report_preflight(lifecycle_outcome_for_status(self.record.ledger.result.status));
        self.stop()
    }

    pub(crate) fn abort(&mut self, error: &HarnessError)
        requires
            old(self)@.record.ledger.broker.consistent(),
            old(self)@.record.ledger.broker.classified()
                < old(self)@.record.ledger.broker.tool_calls,
        ensures
            final(self)@ == old(self)@.aborted(error@),
            final(self)@.record.ledger.broker.consistent(),
    {
        self.record.ledger.broker.record_pre_dispatch_error(error);
    }

    pub(crate) fn set_slot(&mut self, index: usize, slot: NodeSlot)
        requires
            index < old(self)@.slots.len(),
        ensures
            final(self)@ == old(self)@.with_slot(index as int, slot@),
    {
        let ghost before = self@.slots;
        self.slots.set(index, slot);
        assert(slots_view(self.slots@) =~= before.update(index as int, slot@));
    }

    pub(crate) fn take_slot(&mut self, index: usize) -> (slot: NodeSlot)
        requires
            index < old(self)@.slots.len(),
        ensures
            slot@ == old(self)@.slots[index as int],
            final(self)@ == old(self)@.with_slot(index as int, SlotModel::Spent),
    {
        let ghost before = self@.slots;
        let mut slot = NodeSlot::Spent;
        self.slots.set_and_swap(index, &mut slot);
        assert(slots_view(self.slots@) =~= before.update(index as int, SlotModel::Spent));
        slot
    }

    pub(crate) fn push_slot(&mut self, slot: NodeSlot)
        ensures
            final(self)@ == (PlanModel { slots: old(self)@.slots.push(slot@), ..old(self)@ }),
    {
        let ghost before = self@.slots;
        self.slots.push(slot);
        assert(slots_view(self.slots@) =~= before.push(slot@));
    }

    pub(crate) fn complete_node(&mut self, index: usize, call: ToolCall, result: ToolResult)
        requires
            index < old(self)@.outputs.len(),
        ensures
            final(self)@ == (PlanModel {
                outputs: old(self)@.outputs.update(index as int, Some(result@)),
                transcript: old(self)@.transcript.push((call@, result@)),
                ..old(self)@
            }),
    {
        let ghost outputs = self@.outputs;
        let ghost transcript = self@.transcript;
        let copy = result.duplicate();
        self.outputs.set(index, Some(copy));
        self.transcript.push((call, result));
        assert(outputs_view(self.outputs@) =~= outputs.update(index as int, Some(result@)));
        assert(entries_view(self.transcript@) =~= transcript.push((call@, result@)));
    }

    pub(crate) fn reuse_node(&mut self, index: usize, call: ToolCall, result: ToolResult) -> (ended: bool)
        requires
            old(self)@.budget is Some,
            index < old(self)@.nodes.len(),
            index < old(self)@.slots.len(),
            index < old(self)@.outputs.len(),
        ensures
            match reused_node(old(self)@, index as int, call@, result@, 0) {
                Ok(next) => !ended && final(self)@ == next,
                Err(next) => ended && final(self)@ == next,
            },
    {
        self.set_slot(index, NodeSlot::Spent);
        let budget = self.budget.unwrap();
        match reserve_plan_entry(&mut self.retained, budget, &call, &result) {
            Ok(_) => {
                let wave = self.wave_number;
                self.end_node(index, wave, result.ok, PlanNodeOutcome::Reused, 0);
                self.complete_node(index, call, result);
                false
            },
            Err(error) => {
                let wave = self.wave_number;
                self.end_node(index, wave, false, node_outcome_for_error(&error), 0);
                let _ = self.terminate(&error);
                true
            },
        }
    }

    /// How many of the calls to be handed over fit the budget in the worst case.
    pub(crate) fn count_permitted(&self, max_tool_result_bytes: u64) -> (fitting: usize)
        requires
            self@.budget is Some,
            forall|e: int|
                0 <= e < self@.executable.len() ==> (#[trigger] self@.executable[e])
                    < self@.slots.len() && self@.slots[self@.executable[e] as int] is Prepared,
        ensures
            fitting == permitted(
                executable_calls(self@),
                self@.retained,
                self@.budget->0,
                max_tool_result_bytes,
                self@.executable.len(),
            ).0,
            fitting <= self@.executable.len(),
    {
        let ghost calls = executable_calls(self@);
        let budget = self.budget.unwrap();
        let mut bytes: u64 = self.retained;
        let mut fitting: usize = 0;
        let mut i: usize = 0;
        while i < self.executable.len()
            invariant
                i <= self@.executable.len(),
                budget == self@.budget->0,
                calls == executable_calls(self@),
                forall|e: int|
                    0 <= e < self@.executable.len() ==> (#[trigger] self@.executable[e])
                        < self@.slots.len() && self@.slots[self@.executable[e] as int] is Prepared,
                fitting <= i,
                (fitting as nat, bytes) == permitted(
                    calls,
                    self@.retained,
                    budget,
                    max_tool_result_bytes,
                    i as nat,
                ),
            decreases self@.executable.len() - i,
        {
            let index = self.executable[i];
            assert(self@.executable[i as int] == index);
            assert(self@.slots[index as int] == self.slots@[index as int]@);
            if fitting == i {
                if let NodeSlot::Prepared(prepared) = &self.slots[index] {
                    assert(calls[i as int] == prepared@.call);
                    let most = maximum_plan_entry_bytes(&prepared.call, max_tool_result_bytes);
                    if let Some(next) = bytes.checked_add(most) {
                        if next <= budget {
                            bytes = next;
                            fitting += 1;
                        }
                    }
                }
            }
            i += 1;
        }
        fitting
    }

    pub(crate) fn done_list(&self) -> (done: Vec<bool>)
        ensures
            done@ == done_nodes(self@.outputs),
    {
        let mut done: Vec<bool> = Vec::new();
        let mut i: usize = 0;
        while i < self.outputs.len()
            invariant
                i <= self.outputs@.len(),
                done@.len() == i,
                forall|j: int|
                    0 <= j < i ==> (#[trigger] done@[j]) == (self.outputs@[j] is Some),
            decreases self.outputs@.len() - i,
        {
            done.push(self.outputs[i].is_some());
            i += 1;
        }
        assert(done@ =~= done_nodes(self@.outputs));
        done
    }

    pub(crate) fn candidates(&self, reads: bool) -> (result: Vec<usize>)
        requires
            self@.held(),
        ensures
            result@ == candidates_of(self@, reads),
            increasing(result@),
            forall|k: int|
                0 <= k < result@.len() ==> (#[trigger] result@[k]) < self@.nodes.len()
                    && self@.outputs[result@[k] as int] is None && (reads ==> reads_only(
                    self@.slots[result@[k] as int],
                )),
    {
        let done = self.done_list();
        let result = find_ready(&self.nodes, &done, &self.slots, reads);
        proof {
            assert forall|k: int| 0 <= k < result@.len() implies (#[trigger] result@[k])
                < self@.nodes.len() && self@.outputs[result@[k] as int] is None && (reads
                ==> reads_only(self@.slots[result@[k] as int])) by {
                assert(ready(self@.nodes, done@, result@[k] as int));
                assert(!done@[result@[k] as int]);
            }
        }
        result
    }

    pub(crate) fn fail_without_progress(&mut self) -> (action: PlanAction)
        ensures
            (final(self)@, action) == no_progress(old(self)@),
    {
        self.record.ledger.push_error(
            RunError::new("plan_execution_failed", "execution plan made no dependency progress"),
        );
        self.over(Some(PlanFailureKind::Recoverable))
    }

    pub(crate) fn is_gated(&self, index: usize) -> (result: bool)
        requires
            self@.held(),
            index < self@.nodes.len(),
        ensures
            result == gated(self@, index as int),
    {
        assert(self@.slots[index as int] == self.slots@[index as int]@);
        assert(self@.outputs[index as int] is None <==> self.outputs@[index as int] is None);
        let held = match &self.slots[index] {
            NodeSlot::Prepared(prepared) => !(prepared.read_only
                && !self.nodes[index].approval_barrier),
            _ => false,
        };
        self.outputs[index].is_none() && held
    }

    pub(crate) fn is_complete(&self) -> (result: bool)
        ensures
            result == all_complete(self@),
    {
        let mut i: usize = 0;
        while i < self.outputs.len()
            invariant
                i <= self.outputs@.len(),
                forall|j: int| 0 <= j < i ==> (#[trigger] self@.outputs[j]) is Some,
            decreases self.outputs@.len() - i,
        {
            if self.outputs[i].is_none() {
                assert(self@.outputs[i as int] is None);
                return false;
            }
            i += 1;
        }
        true
    }

    pub(crate) fn refusal(&self, index: usize) -> (error: HarnessError)
        requires
            index < self@.nodes.len(),
        ensures
            error@ == preflight_refusal(self@.nodes[index as int]),
    {
        HarnessError::InvalidRequest(
            join3("plan node '", self.nodes[index].id.as_str(), "' failed execution preflight"),
        )
    }

    pub(crate) fn wave_of(&self, purpose: BindPurpose) -> (wave: u32)
        ensures
            wave == purpose_wave(self@, purpose),
    {
        match purpose {
            BindPurpose::Gate => 0,
            BindPurpose::Wave(_) => self.wave_number,
        }
    }

    pub(crate) fn note_returned(
        &mut self,
        index: usize,
        prepared: &PreparedCall,
        execution: BrokerExecution,
        failure: Option<PlanFailureKind>,
        duration_ms: u64,
    ) -> (next_failure: Option<PlanFailureKind>)
        requires
            old(self)@.budget is Some,
            index < old(self)@.nodes.len(),
            old(self)@.outputs.len() == old(self)@.nodes.len(),
            old(self)@.record.ledger.broker.consistent(),
            old(self)@.record.ledger.broker.resolved() < old(self)@.record.ledger.broker.tool_issued,
        ensures
            (final(self)@, next_failure) == call_returned(
                old(self)@,
                index as int,
                prepared@,
                execution@,
                failure,
                duration_ms,
            ),
            outcome_frame(old(self)@, final(self)@, index as int, failure, next_failure),
    {
        let wave = self.wave_number;
        self.record.ledger.report_completion(&prepared.call, execution.result.ok);
        record_execution(&mut self.record.ledger, prepared, &execution);
        if let Some(error) = execution.validation_error {
            self.end_node(index, wave, false, PlanNodeOutcome::Rejected, duration_ms);
            self.record.ledger.push_error(error);
            return join_failures(failure, PlanFailureKind::Recoverable);
        }
        if !execution.result.ok {
            self.end_node(index, wave, false, PlanNodeOutcome::Failed, duration_ms);
            self.record.ledger.push_error(tool_failure_error(&execution.result));
            return join_failures(failure, PlanFailureKind::Recoverable);
        }
        let budget = self.budget.unwrap();
        match reserve_plan_entry(&mut self.retained, budget, &prepared.call, &execution.result) {
            Ok(_) => {
                self.end_node(index, wave, true, PlanNodeOutcome::Succeeded, duration_ms);
                self.complete_node(index, prepared.call.duplicate(), execution.result);
                failure
            },
            Err(error) => {
                self.end_node(index, wave, false, node_outcome_for_error(&error), duration_ms);
                self.record.terminate(&error);
                Some(PlanFailureKind::Terminal)
            },
        }
    }

    pub(crate) fn note_lost(
        &mut self,
        index: usize,
        prepared: &PreparedCall,
        error: &HarnessError,
        failure: Option<PlanFailureKind>,
        duration_ms: u64,
    ) -> (next_failure: Option<PlanFailureKind>)
        requires
            index < old(self)@.nodes.len(),
            old(self)@.record.ledger.broker.consistent(),
            old(self)@.record.ledger.broker.resolved() < old(self)@.record.ledger.broker.tool_issued,
        ensures
            (final(self)@, next_failure) == call_lost(
                old(self)@,
                index as int,
                prepared@,
                error@,
                failure,
                duration_ms,
            ),
            outcome_frame(old(self)@, final(self)@, index as int, failure, next_failure),
    {
        let wave = self.wave_number;
        note_lost_execution(&mut self.record.ledger, prepared, error);
        self.end_node(index, wave, false, node_outcome_for_error(error), duration_ms);
        let kind = self.record_plan_error(error, PlanFailureKind::Recoverable);
        join_failures(failure, kind)
    }

    /// The call whose authorization is asked for.
    pub fn prepared(&self) -> (result: Option<&PreparedCall>)
        requires
            self@.consistent(),
        ensures
            match self@.stage {
                StageModel::PreflightPolicy => result matches Some(prepared) && self@.slots.last()
                    == SlotModel::Prepared(prepared@),
                StageModel::PreflightApproval => result matches Some(prepared) && self@.slots.last()
                    == SlotModel::Prepared(prepared@),
                StageModel::BindPolicy(_, index, _) => result matches Some(prepared)
                    && self@.slots[index as int] == SlotModel::Prepared(prepared@),
                StageModel::BindApproval(_, index, _) => result matches Some(prepared)
                    && self@.slots[index as int] == SlotModel::Prepared(prepared@),
                _ => result is None,
            },
    {
        let index: usize = match &self.stage {
            PlanStage::PreflightPolicy => self.slots.len() - 1,
            PlanStage::PreflightApproval => self.slots.len() - 1,
            PlanStage::BindPolicy(_, index, _) => *index,
            PlanStage::BindApproval(_, index, _) => *index,
            _ => return None,
        };
        assert(self@.slots[index as int] == self.slots@[index as int]@);
        match &self.slots[index] {
            NodeSlot::Prepared(prepared) => Some(prepared),
            _ => None,
        }
    }

    /// The arguments that the policy and the approver are asked about.
    pub fn arguments(&self) -> (result: Option<&Json>)
        requires
            self@.consistent(),
        ensures
            match self@.stage {
                StageModel::PreflightPolicy => result matches Some(arguments)
                    && self@.slots.last()->Prepared_0.arguments == arguments@,
                StageModel::PreflightApproval => result matches Some(arguments)
                    && self@.slots.last()->Prepared_0.arguments == arguments@,
                StageModel::BindPolicy(_, _, bound) => result matches Some(arguments) && bound
                    == arguments@,
                StageModel::BindApproval(_, _, bound) => result matches Some(arguments) && bound
                    == arguments@,
                _ => result is None,
            },
    {
        match &self.stage {
            PlanStage::BindPolicy(_, _, arguments) => Some(arguments),
            PlanStage::BindApproval(_, _, arguments) => Some(arguments),
            _ => match self.prepared() {
                Some(prepared) => Some(&prepared.arguments),
                None => None,
            },
        }
    }

    /// Applies a policy decision to the call of a node.
    pub(crate) fn decide(&mut self, index: usize, decision: &PolicyDecision) -> (authorization: Authorization)
        requires
            old(self)@.counted(),
            index < old(self)@.slots.len(),
            old(self)@.slots[index as int] is Prepared,
        ensures
            ({
                let prepared = old(self)@.slots[index as int]->Prepared_0;
                let (ledger, answer) = policy_outcome(
                    old(self)@.record.ledger,
                    prepared.call,
                    decision@,
                    prepared.approval_barrier,
                );
                authorization@ == answer && final(self)@ == old(self)@.with_ledger(ledger)
            }),
            final(self)@.record.ledger.broker.consistent(),
            !(authorization is Rejected) ==> final(self)@.counted(),
            same_resolution(old(self)@, final(self)@),
    {
        proof {
            held_calls_count(self@.slots, index as int);
        }
        assert(self@.slots[index as int] == self.slots@[index as int]@);
        match &self.slots[index] {
            NodeSlot::Prepared(prepared) => apply_policy(
                &mut self.record.ledger,
                &prepared.call,
                decision,
                prepared.approval_barrier,
            ),
            _ => Authorization::Authorized,
        }
    }

    /// Applies the answer to a request for approval to the call of a node.
    pub(crate) fn approve(&mut self, index: usize, granted: bool) -> (authorization: Authorization)
        requires
            old(self)@.counted(),
            index < old(self)@.slots.len(),
            old(self)@.slots[index as int] is Prepared,
        ensures
            ({
                let (ledger, answer) = approval_outcome(
                    old(self)@.record.ledger,
                    old(self)@.slots[index as int]->Prepared_0.call,
                    granted,
                );
                authorization@ == answer && final(self)@ == old(self)@.with_ledger(ledger)
            }),
            final(self)@.record.ledger.broker.consistent(),
            !(authorization is Rejected) ==> final(self)@.counted(),
            same_resolution(old(self)@, final(self)@),
    {
        proof {
            held_calls_count(self@.slots, index as int);
        }
        assert(self@.slots[index as int] == self.slots@[index as int]@);
        match &self.slots[index] {
            NodeSlot::Prepared(prepared) => apply_approval(
                &mut self.record.ledger,
                &prepared.call,
                granted,
            ),
            _ => Authorization::Authorized,
        }
    }

    /// Where the execution stands.
    pub(crate) fn stage(&self) -> (result: &PlanStage)
        ensures
            result@ == self@.stage,
    {
        &self.stage
    }

    /// Moves to another stage.
    pub(crate) fn set_stage(&mut self, stage: PlanStage)
        ensures
            final(self)@ == old(self)@.at(stage@),
    {
        self.stage = stage;
    }

    /// Notes when the node at hand is begun.
    pub(crate) fn start_node(&mut self, now: u64)
        ensures
            final(self)@ == (PlanModel { node_started: now, ..old(self)@ }),
    {
        self.node_started = now;
    }

    /// The time since the node at hand was begun.
    pub(crate) fn node_time(&self, now: u64) -> (result: u64)
        ensures
            result == since(self@.node_started, now),
    {
        elapsed(self.node_started, now)
    }

    /// How many nodes the plan has.
    pub(crate) fn node_count(&self) -> (result: usize)
        ensures
            result == self@.nodes.len(),
    {
        self.nodes.len()
    }

    /// How many nodes are prepared.
    pub(crate) fn slot_count(&self) -> (result: usize)
        ensures
            result == self@.slots.len(),
    {
        self.slots.len()
    }

    /// The recorded effect that answers a node.
    pub(crate) fn recorded(&self, index: usize) -> (result: Option<(ToolCall, ToolResult)>)
        requires
            index < self@.slots.len(),
        ensures
            match result {
                Some(entry) => self@.slots[index as int] == SlotModel::Reused(entry.0@, entry.1@),
                None => !(self@.slots[index as int] is Reused),
            },
    {
        assert(self@.slots[index as int] == self.slots@[index as int]@);
        match &self.slots[index] {
            NodeSlot::Reused(call, result) => Some((call.duplicate(), result.duplicate())),
            _ => None,
        }
    }

    /// The call that a node holds.
    pub(crate) fn held_call(&self, index: usize) -> (result: ToolCall)
        requires
            index < self@.slots.len(),
            self@.slots[index as int] is Prepared,
        ensures
            result@ == self@.slots[index as int]->Prepared_0.call,
    {
        assert(self@.slots[index as int] == self.slots@[index as int]@);
        match &self.slots[index] {
            NodeSlot::Prepared(prepared) => prepared.call.duplicate(),
            NodeSlot::Dispatched(prepared) => prepared.call.duplicate(),
            NodeSlot::Reused(call, _) => call.duplicate(),
            NodeSlot::Spent => ToolCall::new("", "", ""),
        }
    }

    /// The nodes of the wave.
    pub(crate) fn wave(&self) -> (result: &Vec<usize>)
        ensures
            result@ == self@.wave,
    {
        &self.wave
    }

    /// The nodes of the wave whose calls are handed to their tools.
    pub fn executable(&self) -> (result: &Vec<usize>)
        ensures
            result@ == self@.executable,
    {
        &self.executable
    }

    /// The call of a node that was handed to its tool.
    pub fn dispatched_call(&self, index: usize) -> (result: Option<&PreparedCall>)
        requires
            index < self@.slots.len(),
        ensures
            match result {
                Some(prepared) => self@.slots[index as int] == SlotModel::Dispatched(prepared@),
                None => !(self@.slots[index as int] is Dispatched),
            },
    {
        assert(self@.slots[index as int] == self.slots@[index as int]@);
        match &self.slots[index] {
            NodeSlot::Dispatched(prepared) => Some(prepared),
            _ => None,
        }
    }

    /// Takes the next wave from these candidates.
    pub(crate) fn take_wave(&mut self, context: &PlanContext, candidates: &Vec<usize>)
        requires
            old(self)@.max_parallel > 0,
            old(self)@.slots.len() == old(self)@.nodes.len(),
            candidates@.len() > 0,
            increasing(candidates@),
            forall|k: int|
                0 <= k < candidates@.len() ==> (#[trigger] candidates@[k]) < old(self)@.nodes.len(),
        ensures
            final(self)@ == (PlanModel {
                wave: next_wave(
                    old(self)@.nodes,
                    context.broker.tools@,
                    old(self)@.slots,
                    candidates@,
                    old(self)@.max_parallel,
                ),
                wave_number: if old(self)@.wave_number == u32::MAX {
                    u32::MAX
                } else {
                    (old(self)@.wave_number + 1) as u32
                },
                executable: Seq::empty(),
                ..old(self)@
            }),
            increasing(final(self)@.wave),
            forall|k: int|
                0 <= k < final(self)@.wave.len() ==> candidates@.contains(
                    #[trigger] final(self)@.wave[k],
                ),
    {
        self.wave =
        build_wave(
            &self.nodes,
            context.broker.tools,
            &self.slots,
            candidates,
            self.max_parallel,
        );
        self.wave_number = self.wave_number.saturating_add(1);
        self.executable = Vec::new();
        assert(self.executable@ =~= Seq::empty());
    }

    /// Adds a node to those whose calls are handed to their tools.
    pub(crate) fn push_executable(&mut self, index: usize)
        ensures
            final(self)@ == (PlanModel {
                executable: old(self)@.executable.push(index),
                ..old(self)@
            }),
    {
        self.executable.push(index);
    }

    /// Keeps the first calls of the wave only, and notes that effects begin.
    pub(crate) fn trim_wave(&mut self, fitting: usize)
        requires
            fitting <= old(self)@.executable.len(),
        ensures
            final(self)@ == (PlanModel {
                executable: old(self)@.executable.take(fitting as int),
                effects_started: true,
                ..old(self)@
            }),
    {
        self.executable.truncate(fitting);
        self.effects_started = true;
        assert(self.executable@ =~= old(self)@.executable.take(fitting as int));
    }

    /// Whether mutations may run.
    pub(crate) fn gate_is_open(&self) -> (result: bool)
        ensures
            result == self@.gate_open,
    {
        self.gate_open
    }

    /// Lets mutations run.
    pub(crate) fn open_gate(&mut self)
        ensures
            final(self)@ == (PlanModel { gate_open: true, ..old(self)@ }),
    {
        self.gate_open = true;
    }

    /// Whether any bytes are left for results.
    pub(crate) fn has_budget(&self) -> (result: bool)
        ensures
            result == (self@.budget is Some),
    {
        self.budget.is_some()
    }

    /// Reports that the whole plan is prepared.
    pub(crate) fn report_validated(&mut self)
        ensures
            final(self)@ == old(self)@.with_record(
                old(self)@.record.emit(
                    RunEvent::PlanValidated {
                        attempt: old(self)@.attempt,
                        node_count: old(self)@.nodes.len() as u32,
                    },
                ),
            ),
    {
        self.record.emit(
            RunEvent::PlanValidated { attempt: self.attempt, node_count: self.nodes.len() as u32 },
        );
    }

    /// Reports that a node was stopped by a limit that the result shows.
    pub(crate) fn end_stopped_node(&mut self, index: usize, wave: u32)
        requires
            index < old(self)@.nodes.len(),
        ensures
            final(self)@ == old(self)@.node_ended(
                index as int,
                wave,
                false,
                node_of_status(old(self)@.record.ledger.result.status),
                0,
            ),
    {
        let status = self.record.ledger.result.status;
        self.end_node(index, wave, false, node_outcome_for_status(status), 0);
    }

    /// The call of the next node.
    pub(crate) fn next_call(&self) -> (call: ToolCall)
        requires
            self@.slots.len() < self@.nodes.len(),
        ensures
            call@ == (ToolCall {
                id: event_id(self@.attempt, self@.slots.len() as int),
                tool_id: self@.nodes[self@.slots.len() as int].tool_id@,
                arguments_json: rendered_json(
                    self@.nodes[self@.slots.len() as int].arguments@,
                ),
            }),
    {
        let index: usize = self.slots.len();
        assert(self.nodes@.len() == self.nodes.len());
        let id = make_event_id(self.attempt, index);
        let text = render_json(&self.nodes[index].arguments);
        ToolCall::new(id.as_str(), self.nodes[index].tool_id.as_str(), text.as_str())
    }

    /// Proposals so far, and how many of them are decided.
    pub(crate) fn counters(&self) -> (result: (u32, u32))
        requires
            self@.record.ledger.broker.consistent(),
        ensures
            result.0 == self@.record.ledger.broker.tool_calls,
            result.1 == self@.record.ledger.broker.classified(),
    {
        (self.record.ledger.broker.tool_calls, self.record.ledger.broker.classified_tool_calls())
    }

    /// Admits the call of the next node.
    pub(crate) fn admit_next(&mut self, context: &PlanContext, call: &ToolCall) -> (outcome: Result<
        Admission,
        HarnessError,
    >)
        requires
            old(self)@.record.ledger.broker.consistent(),
            old(self)@.slots.len() < old(self)@.nodes.len(),
        ensures
            ({
                let node = old(self)@.nodes[old(self)@.slots.len() as int];
                let (ledger, answer) = admission(
                    old(self)@.record.ledger,
                    context.broker.tools@,
                    context.broker.scope,
                    context.request,
                    call@,
                    ToolCaller::DeclarativePlan,
                    node.approval_barrier,
                    node.result_bindings@.len() > 0,
                    None,
                );
                final(self)@ == old(self)@.with_ledger(ledger) && admission_view(outcome) == answer
            }),
            final(self)@.record.ledger.broker.consistent(),
    {
        let index: usize = self.slots.len();
        let barrier = self.nodes[index].approval_barrier;
        let deferred = self.nodes[index].result_bindings.len() > 0;
        context.broker.prepare(
            context.request,
            &mut self.record.ledger,
            call.duplicate(),
            ToolCaller::DeclarativePlan,
            barrier,
            deferred,
            None,
        )
    }

    /// Counts a proposal whose preparation failed, unless it was decided already.
    pub(crate) fn settle_preparation(
        &mut self,
        attempts_before: u32,
        classified_before: u32,
        error: &HarnessError,
    )
        requires
            old(self)@.record.ledger.broker.consistent(),
            classified_before <= attempts_before,
        ensures
            final(self)@ == old(self)@.with_ledger(
                preparation_failed(
                    old(self)@.record.ledger,
                    attempts_before,
                    classified_before as int,
                    error@,
                ),
            ),
            final(self)@.record.ledger.broker.consistent(),
    {
        settle_failed_preparation(
            &mut self.record.ledger,
            attempts_before,
            classified_before,
            error,
        );
    }

    /// The final arguments of a node.
    pub(crate) fn final_arguments(&self, context: &PlanContext, index: usize) -> (result: Result<
        Json,
        HarnessError,
    >)
        requires
            index < self@.nodes.len(),
        ensures
            arguments_view(result) == bound_arguments(
                self@.nodes,
                self@.outputs,
                self@.nodes[index as int],
                context.request.agent.limits.max_tool_arguments_bytes,
                context.bounds.max_argument_bytes,
            ),
    {
        bind_arguments(
            &self.nodes,
            &self.outputs,
            &self.nodes[index],
            context.request.agent.limits.max_tool_arguments_bytes,
            context.bounds.max_argument_bytes,
        )
    }

    /// Checks the final arguments of a node's call.
    pub(crate) fn revalidate(&mut self, context: &PlanContext, index: usize, arguments: &Json) -> (
    outcome: Result<Finalization, HarnessError>)
        requires
            old(self)@.record.ledger.broker.consistent(),
            old(self)@.record.ledger.broker.classified()
                < old(self)@.record.ledger.broker.tool_calls,
            index < old(self)@.slots.len(),
            old(self)@.slots[index as int] is Prepared,
        ensures
            ({
                let prepared = old(self)@.slots[index as int]->Prepared_0;
                let permits = match registered(context.broker.tools@, prepared.call.tool_id) {
                    Some(tool) => tool.definition.permits(prepared.caller),
                    None => false,
                };
                let (ledger, next_call, answer) = finalization(
                    old(self)@.record.ledger,
                    context.broker.tools@,
                    context.broker.scope,
                    context.request,
                    prepared,
                    permits,
                    arguments@,
                );
                &&& final(self)@ == old(self)@.with_ledger(ledger).with_slot(
                    index as int,
                    SlotModel::Prepared(next_call),
                )
                &&& finalization_view(outcome) == answer
                &&& finalization_moves(old(self)@, final(self)@, outcome)
            }),
    {
        let ghost first = self@;
        match self.take_slot(index) {
            NodeSlot::Prepared(prepared) => {
                let mut prepared = prepared;
                proof {
                    finalization_counts(
                        first.record.ledger,
                        context.broker.tools@,
                        context.broker.scope,
                        context.request,
                        prepared@,
                        match registered(context.broker.tools@, prepared@.call.tool_id) {
                            Some(tool) => tool.definition.permits(prepared.caller),
                            None => false,
                        },
                        arguments@,
                    );
                }
                let outcome = context.broker.revalidate_bound_arguments(
                    &mut prepared,
                    arguments,
                    context.request,
                    &mut self.record.ledger,
                );
                let ghost call_view = prepared@;
                self.set_slot(index, NodeSlot::Prepared(prepared));
                assert(self@.slots =~= first.slots.update(
                    index as int,
                    SlotModel::Prepared(call_view),
                ));
                outcome
            },
            _ => Ok(Finalization::Stop),
        }
    }

    /// Gives the call of a node its authorized arguments.
    pub(crate) fn bind_slot(&mut self, index: usize, arguments: &Json)
        requires
            index < old(self)@.slots.len(),
            old(self)@.slots[index as int] is Prepared,
        ensures
            final(self)@ == old(self)@.with_slot(
                index as int,
                SlotModel::Prepared(
                    bound_call(old(self)@.slots[index as int]->Prepared_0, arguments@),
                ),
            ),
    {
        let ghost first = self@;
        if let NodeSlot::Prepared(prepared) = self.take_slot(index) {
            let mut prepared = prepared;
            prepared.bind(arguments);
            let ghost bound = SlotModel::Prepared(prepared@);
            self.set_slot(index, NodeSlot::Prepared(prepared));
            assert(self@.slots =~= first.slots.update(index as int, bound));
        }
    }

    /// Hands the call of a node to its tool.
    pub(crate) fn dispatch_slot(&mut self, index: usize)
        requires
            old(self)@.record.ledger.broker.consistent(),
            old(self)@.record.ledger.broker.classified()
                < old(self)@.record.ledger.broker.tool_calls,
            index < old(self)@.slots.len(),
            index < old(self)@.nodes.len(),
            old(self)@.slots[index as int] is Prepared,
        ensures
            ({
                let prepared = old(self)@.slots[index as int]->Prepared_0;
                let ledger = old(self)@.record.ledger.with_broker(
                    dispatched(old(self)@.record.ledger.broker, prepared),
                ).emit(
                    RunEvent::PlanNodeStarted {
                        node_id: event_id(old(self)@.attempt, index as int),
                        tool_id: prepared.call.tool_id,
                        attempt: old(self)@.attempt,
                        wave: old(self)@.wave_number,
                    },
                );
                final(self)@ == old(self)@.with_ledger(ledger).with_slot(
                    index as int,
                    SlotModel::Dispatched(prepared),
                )
            }),
            final(self)@.record.ledger.broker.consistent(),
    {
        let ghost first = self@;
        if let NodeSlot::Prepared(prepared) = self.take_slot(index) {
            mark_dispatched(&mut self.record.ledger, &prepared);
            assert(self.nodes@.len() == self.nodes.len());
            let event = RunEvent::PlanNodeStarted {
                node_id: make_event_id(self.attempt, index),
                tool_id: prepared.call.tool_id.clone(),
                attempt: self.attempt,
                wave: self.wave_number,
            };
            self.record.emit(event);
            let ghost slot = SlotModel::Dispatched(prepared@);
            self.set_slot(index, NodeSlot::Dispatched(prepared));
            assert(self@.slots =~= first.slots.update(index as int, slot));
        }
    }

    /// An execution before its first node is prepared.
    pub fn begin(
        context: &PlanContext,
        record: RunRecord,
        attempts: u32,
        plan: ExecutionPlan,
        messages: &Vec<Message>,
    ) -> (result: (PlanRun, PlanAction))
        requires
            record@.ledger.broker.consistent(),
            record@.ledger.broker.settled(),
        ensures
            exists|checked: Result<(), HarnessError<Seq<char>>>| #[trigger]
                begins(
                    context,
                    record@,
                    attempts,
                    plan.nodes@,
                    transcript_len(messages_view(messages@)),
                    checked,
                    (result.0@, result.1),
                ),
            result.0@.consistent(),
    {
        let limits = &context.request.agent.limits;
        let room: u64 = if limits.max_transcript_bytes <= MAX_PLAN_RETAINED_BYTES {
            limits.max_transcript_bytes
        } else {
            MAX_PLAN_RETAINED_BYTES
        };
        let budget = match transcript_total(messages) {
            Some(existing) => room.checked_sub(existing),
            None => None,
        };
        let checked = static_plan_preflight(
            &plan,
            context.broker.tools,
            context.broker.scope,
            context.request,
            &context.capabilities.limits,
            &context.bounds,
        );
        let mut outputs: Vec<Option<ToolResult>> = Vec::new();
        let mut i: usize = 0;
        while i < plan.nodes.len()
            invariant
                i <= plan.nodes@.len(),
                outputs@.len() == i,
                forall|j: int| 0 <= j < i ==> (#[trigger] outputs@[j]) is None,
            decreases plan.nodes@.len() - i,
        {
            outputs.push(None);
            i += 1;
        }
        let ghost nodes = plan.nodes@;
        let ghost answer = check_view(checked);
        let mut run = PlanRun {
            record,
            attempt: attempts,
            nodes: plan.nodes,
            slots: Vec::new(),
            outputs,
            transcript: Vec::new(),
            retained: 0,
            budget,
            max_parallel: max_parallel_calls(&context.capabilities),
            wave_number: 0,
            effects_started: false,
            gate_open: false,
            wave: Vec::new(),
            executable: Vec::new(),
            node_started: 0,
            stage: PlanStage::Preflight,
        };
        proof {
            assert(run@.outputs =~= Seq::new(nodes.len(), |j: int| None));
            assert(run@.slots =~= Seq::empty());
            assert(run@.transcript =~= Seq::empty());
            assert(run@.wave =~= Seq::empty());
            assert(run@.executable =~= Seq::empty());
        }
        let action = if attempts == u32::MAX {
            run.terminate(
                &HarnessError::ResourceLimit(
                    "declarative plan attempt counter overflow".to_owned(),
                ),
            )
        } else {
            run.attempt = attempts + 1;
            run.report_preflight(PlanLifecycleOutcome::Started);
            match checked {
                Err(error) => run.fail_preflight(&error),
                Ok(_) => PlanAction::Check,
            }
        };
        let result = (run, action);
        assert(begins(
            context,
            record@,
            attempts,
            plan.nodes@,
            transcript_len(messages_view(messages@)),
            answer,
            (result.0@, result.1),
        ));
        result
    }

    /// What the run recorded, for good, and what the execution came to.
    pub fn into_parts(self) -> (result: (RunRecord, PlanExecution))
        ensures
            result.0@ == self@.record,
            result.1@ == (OutcomeModel {
                attempt: self@.attempt,
                nodes: self@.nodes,
                outputs: self@.outputs,
                transcript: self@.transcript,
                failure: match self@.stage {
                    StageModel::Done(failure) => failure,
                    _ => None,
                },
                effects_started: self@.effects_started,
            }),
    {
        let failure = match self.stage {
            PlanStage::Done(failure) => failure,
            _ => None,
        };
        (
            self.record,
            PlanExecution {
                attempt: self.attempt,
                nodes: self.nodes,
                outputs: self.outputs,
                transcript: self.transcript,
                failure,
                effects_started: self.effects_started,
            },
        )
    }

    /// Hands over the recorded events and forgets them.
    pub fn take_events(&mut self) -> (result: Vec<RunEvent>)
        ensures
            crate::event::events_view(result@) == old(self)@.record.ledger.events,
            final(self)@ == old(self)@.with_ledger(
                LedgerModel { events: Seq::empty(), ..old(self)@.record.ledger },
            ),
    {
        self.record.ledger.take_events()
    }
}

/// What an execution came to.
pub struct PlanExecution {
    /// One-based number of the attempt.
    pub attempt: u32,
    /// The nodes.
    pub nodes: Vec<PlanNode>,
    /// The results of completed nodes.
    pub outputs: Vec<Option<ToolResult>>,
    /// The completed calls, in order.
    pub transcript: Vec<(ToolCall, ToolResult)>,
    /// Why the execution failed, if it did.
    pub failure: Option<PlanFailureKind>,
    /// Whether a call was handed to its tool.
    pub effects_started: bool,
}

/// The model of what an execution came to.
pub struct OutcomeModel {
    /// One-based number of the attempt.
    pub attempt: u32,
    /// The nodes.
    pub nodes: Seq<PlanNode>,
    /// The results of completed nodes.
    pub outputs: Seq<Option<ToolResultModel>>,
    /// The completed calls, in order.
    pub transcript: Seq<(ToolCall<Seq<char>>, ToolResultModel)>,
    /// Why the execution failed, if it did.
    pub failure: Option<PlanFailureKind>,
    /// Whether a call was handed to its tool.
    pub effects_started: bool,
}

impl View for PlanExecution {
    type V = OutcomeModel;

    open spec fn view(&self) -> OutcomeModel {
        OutcomeModel {
            attempt: self.attempt,
            nodes: self.nodes@,
            outputs: outputs_view(self.outputs@),
            transcript: entries_view(self.transcript@),
            failure: self.failure,
            effects_started: self.effects_started,
        }
    }
}

/// How an execution begins, where the check of the whole plan answered `checked`.
pub open spec fn begins(
    context: &PlanContext,
    record: RecordModel,
    attempts: u32,
    nodes: Seq<PlanNode>,
    existing: nat,
    checked: Result<(), HarnessError<Seq<char>>>,
    begun: (PlanModel, PlanAction),
) -> bool {
    &&& static_answer(
        nodes,
        context.broker.tools@,
        context.broker.scope,
        context.request,
        context.capabilities.limits,
        context.bounds,
        checked,
    )
    &&& begun == plan_begun(context, record, attempts, nodes, existing, checked)
}

/// How final arguments move the counters of an execution.
pub open spec fn finalization_moves(
    before: PlanModel,
    after: PlanModel,
    outcome: Result<Finalization, HarnessError>,
) -> bool {
    let old_broker = before.record.ledger.broker;
    let new_broker = after.record.ledger.broker;
    &&& new_broker.consistent()
    &&& new_broker.tool_calls == old_broker.tool_calls
    &&& new_broker.tool_issued == old_broker.tool_issued
    &&& new_broker.resolved() == old_broker.resolved()
    &&& new_broker.classified() == old_broker.classified() + (match outcome {
        Ok(Finalization::Reused(_)) => 1int,
        Ok(Finalization::Stop) => 1int,
        _ => 0int,
    })
}

} // verus!
