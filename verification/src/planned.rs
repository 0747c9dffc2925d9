//! Planned execution: a planner chooses a strategy, its plan is executed, and what fails is
//! repaired, recovered or handed to direct execution.

use crate::agent::RunStrategy;
use crate::error::{HarnessError, RunError};
use crate::event::{
    PlanLifecycleOutcome, PlanPhase, RunEvent, StrategyFallbackReason, StrategySelectionReason,
};
use crate::json::{render_json, view_of_object, Json, JsonTree};
use crate::ledger::RunRecord;
use crate::limits::{check_view, AgentLimits};
use crate::message::{
    copy_messages, ensure_transcript, messages_view, plain_message, transcript_len, Message,
    MessageRole,
};
use crate::model::{ModelResponse, ResponseModel};
use crate::plan::ExecutionPlan;
use crate::plan_model::{PlanAction, PlanContext};
use crate::plan_preflight::{envelope_answer, envelope_view, parse_envelope, PlannerEnvelope};
use crate::plan_state::{begins, PlanExecution, PlanRun};
use crate::planned_model::{
    completed_members, concluded, envelope_chosen, envelope_refused, execution_settled,
    plan_errors_forgotten, plan_executed, planned_begun, planned_responded, planner_answered,
    planner_prompt, planner_repair_prompt, planning_begun, planning_called, planning_failed,
    recovery_answered, recovery_begun, recovery_called, recovery_ended, recovery_prompt,
    recovery_text, PlannedAction, PlannedModel, PlannedStage,
};
use crate::schedule::{
    is_terminal_failure, lifecycle_outcome_for_error, lifecycle_outcome_for_status,
    recovery_execution_outcome, validation_outcome_for_error, PlanFailureKind,
};
use crate::strategy_core::{
    entries_appended, outcome_view, CallEnd, CallStart, CoreModel, ModelCallPhase, StrategyCore,
};
use crate::text::join2;
use vstd::prelude::*;

verus! {

/// Planned execution of one run.
pub struct PlannedRun {
    core: StrategyCore,
    requested: RunStrategy,
    planner_messages: Vec<Message>,
    repair_used: bool,
    retries: u32,
    plan: Option<ExecutionPlan>,
    execution: Option<PlanExecution>,
    stage: PlannedStage,
}

impl View for PlannedRun {
    type V = PlannedModel;

    closed spec fn view(&self) -> PlannedModel {
        PlannedModel {
            core: self.core@,
            requested: self.requested,
            planner_messages: messages_view(self.planner_messages@),
            repair_used: self.repair_used,
            retries: self.retries,
            plan: self.plan,
            execution: match self.execution {
                Some(execution) => Some(execution@),
                None => None,
            },
            stage: self.stage,
        }
    }
}

impl PlannedModel {
    /// What holds of planned execution between two steps.
    pub open spec fn consistent(self) -> bool {
        &&& self.core.calls.balanced()
        &&& self.core.record.ledger.broker.consistent()
        &&& self.core.record.ledger.broker.settled()
        &&& self.stage == PlannedStage::AwaitRecovery ==> self.execution is Some
        &&& self.stage is Executing ==> self.plan is Some
    }
}

fn completed_json(execution: &PlanExecution) -> (result: Json)
    ensures
        result@ == JsonTree::Object(
            completed_members(execution@.nodes, execution@.outputs, execution@.nodes.len()),
        ),
{
    let ghost nodes = execution@.nodes;
    let ghost outputs = execution@.outputs;
    let mut members: Vec<(String, Json)> = Vec::new();
    let mut i: usize = 0;
    let ghost mut seen: Seq<(Seq<char>, JsonTree)> = Seq::empty();
    while i < execution.nodes.len()
        invariant
            i <= execution.nodes@.len(),
            nodes == execution@.nodes,
            outputs == execution@.outputs,
            seen == completed_members(nodes, outputs, i as nat),
            seen.len() == members@.len(),
            forall|j: int|
                0 <= j < members@.len() ==> #[trigger] seen[j] == (
                    members@[j].0@,
                    members@[j].1@,
                ),
        decreases execution.nodes@.len() - i,
    {
        if i < execution.outputs.len() {
            assert(outputs[i as int] == match execution.outputs@[i as int] {
                Some(result) => Some(result@),
                None => None,
            });
            if let Some(result) = &execution.outputs[i] {
                members.push((execution.nodes[i].id.clone(), result.output.duplicate()));
                proof {
                    seen = seen.push((nodes[i as int].id@, result@.output));
                }
            }
        }
        i += 1;
    }
    let result = Json::Object(members);
    proof {
        view_of_object(result);
        assert(result@->Object_0 =~= completed_members(nodes, outputs, nodes.len()));
    }
    result
}

fn recovery_message(execution: &PlanExecution) -> (result: String)
    ensures
        result@ == recovery_text(execution@),
{
    let mut members: Vec<(String, Json)> = Vec::new();
    members.push(("completed".to_owned(), completed_json(execution)));
    let tree = Json::Object(members);
    proof {
        view_of_object(tree);
        assert(tree@->Object_0 =~= seq![
            (
                "completed"@,
                JsonTree::Object(
                    completed_members(
                        execution@.nodes,
                        execution@.outputs,
                        execution@.nodes.len(),
                    ),
                ),
            ),
        ]);
    }
    render_json(&tree)
}

impl PlannedRun {
    fn over(&mut self) -> (action: PlannedAction)
        ensures
            (final(self)@, action) == old(self)@.over(),
    {
        self.stage = PlannedStage::Done;
        PlannedAction::Finish
    }

    fn react(&mut self, phase: ModelCallPhase) -> (action: PlannedAction)
        ensures
            (final(self)@, action) == old(self)@.react(phase),
    {
        self.stage = PlannedStage::Done;
        PlannedAction::React(phase)
    }

    fn terminate(&mut self, error: &HarnessError) -> (action: PlannedAction)
        ensures
            (final(self)@, action) == old(self)@.terminated(error@),
    {
        self.core.terminate(error);
        self.over()
    }

    fn planning_phase(&self) -> (phase: PlanPhase)
        ensures
            phase == self@.planning_phase(),
    {
        if self.repair_used {
            PlanPhase::Repair
        } else {
            PlanPhase::Planning
        }
    }

    fn validation_attempt(&self) -> (attempt: u32)
        ensures
            attempt == self@.validation_attempt(),
    {
        if self.repair_used {
            2
        } else {
            1
        }
    }

    fn push_planner_message(&mut self, message: Message)
        ensures
            final(self)@ == (PlannedModel {
                planner_messages: old(self)@.planner_messages.push(message@),
                ..old(self)@
            }),
    {
        let ghost before = self@.planner_messages;
        self.planner_messages.push(message);
        assert(messages_view(self.planner_messages@) =~= before.push(message@));
    }

    fn fail_planning(&mut self, limits: &AgentLimits, error: &HarnessError) -> (action:
        PlannedAction)
        requires
            old(self)@.consistent(),
        ensures
            (final(self)@, action) == planning_failed(old(self)@, *limits, error@),
            final(self)@.consistent(),
    {
        reveal(planning_failed);
        let phase = self.planning_phase();
        self.core.report(phase, 1, lifecycle_outcome_for_error(error));
        if self.requested == RunStrategy::Adaptive && !is_terminal_failure(error)
            && self.core.has_model_call_capacity(limits) {
            let requested = self.requested;
            self.core.select_direct_fallback(requested, StrategyFallbackReason::PlannerFailure);
            self.react(ModelCallPhase::Reactive)
        } else {
            self.terminate(error)
        }
    }

    fn call_planner(&mut self, limits: &AgentLimits, deadline: Option<u64>, now: u64) -> (action:
        PlannedAction)
        requires
            old(self)@.consistent(),
        ensures
            (final(self)@, action) == planning_called(old(self)@, *limits, deadline, now),
            final(self)@.consistent(),
    {
        reveal(planning_called);
        let purpose = if self.repair_used {
            ModelCallPhase::Repair
        } else {
            ModelCallPhase::Planning
        };
        match self.core.start_call(limits, deadline, now, purpose) {
            CallStart::LimitReached => {
                let phase = self.planning_phase();
                let status = self.core.status();
                self.core.report(phase, 1, lifecycle_outcome_for_status(status));
                self.over()
            },
            CallStart::Failed(error) => self.fail_planning(limits, &error),
            CallStart::Call { number, deadline } => {
                self.stage = PlannedStage::AwaitPlanner;
                PlannedAction::CallModel { number, deadline }
            },
        }
    }

    fn begin_planning(&mut self, limits: &AgentLimits, deadline: Option<u64>, now: u64) -> (action:
        PlannedAction)
        requires
            old(self)@.consistent(),
        ensures
            (final(self)@, action) == planning_begun(old(self)@, *limits, deadline, now),
            final(self)@.consistent(),
    {
        reveal(planning_begun);
        let phase = self.planning_phase();
        self.core.report(phase, 1, PlanLifecycleOutcome::Started);
        self.retries = 0;
        self.call_planner(limits, deadline, now)
    }

    /// Begins planned execution.
    pub fn begin(
        core: StrategyCore,
        requested: RunStrategy,
        limits: &AgentLimits,
        deadline: Option<u64>,
        now: u64,
    ) -> (result: (PlannedRun, PlannedAction))
        requires
            core@.calls.balanced(),
            core@.record.ledger.broker.consistent(),
            core@.record.ledger.broker.settled(),
        ensures
            (result.0@, result.1) == planned_begun(core@, requested, *limits, deadline, now),
            result.0@.consistent(),
    {
        let ghost first = core@;
        let mut core = core;
        let mut shown: Vec<Message> = Vec::new();
        shown.push(
            Message::system(
                "Select the safest efficient tool strategy. Return only one strict JSON object: {\"strategy\":\"direct\"} when no finite safe plan is justified, or {\"strategy\":\"declarative_plan\",\"plan\":{\"nodes\":[...]}} for a finite dependency DAG. Use only the supplied tools. Every plan node requires id, tool_id, and schema-valid arguments. Optional fields are depends_on, result_bindings, concurrency, approval_barrier, and commit_boundary. Choose direct for mutations, approval-sensitive work, ambiguity, or an uncertain next step.",
            ),
        );
        let mut conversation = copy_messages(core.messages());
        let ghost prompt = messages_view(shown@);
        let ghost rest = messages_view(conversation@);
        shown.append(&mut conversation);
        proof {
            let whole = seq![plain_message(MessageRole::System, planner_prompt())] + first.messages;
            assert(messages_view(shown@) =~= prompt + rest);
            assert(prompt =~= seq![plain_message(MessageRole::System, planner_prompt())]);
        }
        if requested == RunStrategy::DeclarativePlan {
            core.emit(
                RunEvent::StrategySelected {
                    requested,
                    selected: RunStrategy::DeclarativePlan,
                    reason: StrategySelectionReason::Forced,
                },
            );
        }
        let mut run = PlannedRun {
            core,
            requested,
            planner_messages: shown,
            repair_used: false,
            retries: 0,
            plan: None,
            execution: None,
            stage: PlannedStage::AwaitPlanner,
        };
        let action = run.begin_planning(limits, deadline, now);
        (run, action)
    }

    fn choose_envelope(&mut self, envelope: PlannerEnvelope) -> (action: PlannedAction)
        requires
            old(self)@.consistent(),
        ensures
            (final(self)@, action) == envelope_chosen(old(self)@, envelope),
            final(self)@.consistent(),
    {
        reveal(envelope_chosen);
        match envelope {
            PlannerEnvelope::Direct => {
                self.core.emit(
                    RunEvent::StrategySelected {
                        requested: self.requested,
                        selected: RunStrategy::Direct,
                        reason: StrategySelectionReason::PlannerSelectedDirect,
                    },
                );
                self.core.select(RunStrategy::Direct);
                self.react(ModelCallPhase::Reactive)
            },
            PlannerEnvelope::DeclarativePlan { plan } => {
                if self.requested == RunStrategy::Adaptive {
                    self.core.emit(
                        RunEvent::StrategySelected {
                            requested: self.requested,
                            selected: RunStrategy::DeclarativePlan,
                            reason: StrategySelectionReason::PlannerSelectedPlan,
                        },
                    );
                }
                self.core.select(RunStrategy::DeclarativePlan);
                self.core.enable_effect_reuse();
                self.plan = Some(plan);
                self.stage = PlannedStage::Executing { recovering: false };
                PlannedAction::ExecutePlan
            },
        }
    }

    fn forget_plan_errors(&mut self)
        ensures
            final(self)@ == old(self)@.with_core(plan_errors_forgotten(old(self)@.core)),
    {
        self.core.forget_errors("invalid_plan");
    }

    fn prepare_repair(&mut self)
        ensures
            final(self)@ == (PlannedModel {
                core: plan_errors_forgotten(old(self)@.core),
                repair_used: true,
                planner_messages: old(self)@.planner_messages.push(
                    plain_message(MessageRole::System, planner_repair_prompt()),
                ),
                ..old(self)@
            }),
    {
        self.forget_plan_errors();
        self.repair_used = true;
        self.push_planner_message(
            Message::system(
                "The previous strategy envelope was invalid. Repair it once. Return only the strict JSON envelope requested by the planning instructions, with no prose or markdown.",
            ),
        );
    }

    fn refuse_envelope(
        &mut self,
        limits: &AgentLimits,
        deadline: Option<u64>,
        now: u64,
        error: &HarnessError,
    ) -> (action: PlannedAction)
        requires
            old(self)@.consistent(),
        ensures
            (final(self)@, action) == envelope_refused(
                old(self)@,
                *limits,
                deadline,
                now,
                error@,
            ),
            final(self)@.consistent(),
    {
        reveal(envelope_refused);
        let attempt = self.validation_attempt();
        if is_terminal_failure(error) {
            self.core.report(PlanPhase::Validation, attempt, lifecycle_outcome_for_error(error));
            return self.terminate(error);
        }
        self.core.report(PlanPhase::Validation, attempt, validation_outcome_for_error(error));
        if !self.repair_used && self.core.can_spend_optional_model_call(limits) {
            self.prepare_repair();
            return self.begin_planning(limits, deadline, now);
        }
        if !self.repair_used {
            self.core.report(PlanPhase::Repair, 1, PlanLifecycleOutcome::Skipped);
        }
        if self.requested == RunStrategy::Adaptive {
            if !self.core.has_model_call_capacity(limits) {
                return self.terminate(
                    &HarnessError::ResourceLimit(
                        "no model call remains for direct fallback".to_owned(),
                    ),
                );
            }
            let requested = self.requested;
            self.core.select_direct_fallback(requested, StrategyFallbackReason::InvalidPlan);
            self.forget_plan_errors();
            return self.react(ModelCallPhase::Reactive);
        }
        let text = join2("declarative plan was invalid: ", error.to_text().as_str());
        self.core.push_error(RunError::new("invalid_plan", text.as_str()));
        self.over()
    }

    fn answer_planner(
        &mut self,
        limits: &AgentLimits,
        deadline: Option<u64>,
        now: u64,
        envelope: Result<PlannerEnvelope, HarnessError>,
    ) -> (action: PlannedAction)
        requires
            old(self)@.consistent(),
        ensures
            (final(self)@, action) == planner_answered(
                old(self)@,
                *limits,
                deadline,
                now,
                envelope_view(envelope),
            ),
            final(self)@.consistent(),
    {
        reveal(planner_answered);
        let phase = self.planning_phase();
        let attempt = self.validation_attempt();
        self.core.report(phase, 1, PlanLifecycleOutcome::Succeeded);
        self.core.report(PlanPhase::Validation, attempt, PlanLifecycleOutcome::Started);
        match envelope {
            Ok(envelope) => {
                self.core.report(PlanPhase::Validation, attempt, PlanLifecycleOutcome::Succeeded);
                self.choose_envelope(envelope)
            },
            Err(error) => self.refuse_envelope(limits, deadline, now, &error),
        }
    }

    fn end_recovery(&mut self, error: &HarnessError)
        ensures
            final(self)@ == recovery_ended(old(self)@, error@),
    {
        self.core.report(PlanPhase::Recovery, 1, lifecycle_outcome_for_error(error));
        self.core.terminate(error);
    }

    /// Ends planned execution with what the last execution came to.
    fn conclude_last(&mut self, limits: &AgentLimits) -> (action: PlannedAction)
        requires
            old(self)@.core.calls.balanced(),
            old(self)@.core.record.ledger.broker.consistent(),
            old(self)@.core.record.ledger.broker.settled(),
            old(self)@.execution is Some,
        ensures
            (final(self)@, action) == concluded(old(self)@, *limits, old(self)@.execution->0),
            final(self)@.consistent(),
    {
        reveal(concluded);
        let failed = match &self.execution {
            Some(execution) => execution.failure.is_some(),
            None => true,
        };
        if failed {
            if !self.core.has_errors() {
                self.core.push_error(
                    RunError::new("plan_execution_failed", "declarative plan execution failed"),
                );
            }
            return self.over();
        }
        match self.append_last(limits) {
            Err(error) => self.terminate(&error),
            Ok(_) => self.react(ModelCallPhase::FinalSynthesis),
        }
    }

    /// Adds the calls and results of the last execution to the conversation.
    fn append_last(&mut self, limits: &AgentLimits) -> (answer: Result<(), HarnessError>)
        requires
            old(self)@.execution is Some,
        ensures
            ({
                let (messages, told) = entries_appended(
                    old(self)@.core.messages,
                    old(self)@.execution->0.transcript,
                    *limits,
                );
                &&& final(self)@ == old(self)@.with_core(
                    CoreModel { messages, ..old(self)@.core },
                )
                &&& check_view(answer) == told
            }),
    {
        match &self.execution {
            Some(execution) => self.core.append_entries(&execution.transcript, limits),
            None => Ok(()),
        }
    }

    fn call_for_recovery(&mut self, limits: &AgentLimits, deadline: Option<u64>, now: u64) -> (
    action: PlannedAction)
        requires
            old(self)@.core.calls.balanced(),
            old(self)@.core.record.ledger.broker.consistent(),
            old(self)@.core.record.ledger.broker.settled(),
            old(self)@.execution is Some,
        ensures
            (final(self)@, action) == recovery_called(old(self)@, *limits, deadline, now),
            final(self)@.consistent(),
    {
        reveal(recovery_called);
        match self.core.start_call(limits, deadline, now, ModelCallPhase::Recovery) {
            CallStart::LimitReached => {
                let status = self.core.status();
                self.core.report(PlanPhase::Recovery, 1, lifecycle_outcome_for_status(status));
                self.conclude_last(limits)
            },
            CallStart::Failed(error) => {
                self.end_recovery(&error);
                self.conclude_last(limits)
            },
            CallStart::Call { number, deadline } => {
                self.stage = PlannedStage::AwaitRecovery;
                PlannedAction::CallModel { number, deadline }
            },
        }
    }

    fn begin_recovery(
        &mut self,
        limits: &AgentLimits,
        deadline: Option<u64>,
        now: u64,
    ) -> (action: PlannedAction)
        requires
            old(self)@.core.calls.balanced(),
            old(self)@.core.record.ledger.broker.consistent(),
            old(self)@.core.record.ledger.broker.settled(),
            old(self)@.execution is Some,
        ensures
            (final(self)@, action) == recovery_begun(
                old(self)@,
                *limits,
                deadline,
                now,
                old(self)@.execution->0,
            ),
            final(self)@.consistent(),
    {
        reveal(recovery_begun);
        self.core.report(PlanPhase::Recovery, 1, PlanLifecycleOutcome::Started);
        let text = match &self.execution {
            Some(execution) => recovery_message(execution),
            None => "".to_owned(),
        };
        if let Err(error) = self.append_last(limits) {
            self.end_recovery(&error);
            return self.over();
        }
        let mut shown = copy_messages(self.core.messages());
        let ghost conversation = messages_view(shown@);
        shown.push(
            Message::system(
                "Execution stopped after the recorded completed results. Produce one replacement declarative plan using only those results as prior state. Never repeat a completed mutation. Return only {\"strategy\":\"declarative_plan\",\"plan\":{\"nodes\":[...]}}.",
            ),
        );
        shown.push(Message::user(text.as_str()));
        assert(messages_view(shown@) =~= conversation.push(
            plain_message(MessageRole::System, recovery_prompt()),
        ).push(plain_message(MessageRole::User, text@)));
        if let Err(error) = ensure_transcript(&shown, limits) {
            self.end_recovery(&error);
            return self.over();
        }
        self.planner_messages = shown;
        self.retries = 0;
        self.call_for_recovery(limits, deadline, now)
    }

    fn answer_recovery(
        &mut self,
        limits: &AgentLimits,
        envelope: Result<PlannerEnvelope, HarnessError>,
    ) -> (action: PlannedAction)
        requires
            old(self)@.core.calls.balanced(),
            old(self)@.core.record.ledger.broker.consistent(),
            old(self)@.core.record.ledger.broker.settled(),
            old(self)@.execution is Some,
        ensures
            (final(self)@, action) == recovery_answered(
                old(self)@,
                *limits,
                envelope_view(envelope),
            ),
            final(self)@.consistent(),
    {
        reveal(recovery_answered);
        match envelope {
            Ok(PlannerEnvelope::DeclarativePlan { plan }) => {
                self.core.emit(
                    RunEvent::StrategyFallback {
                        from: RunStrategy::DeclarativePlan,
                        to: RunStrategy::DeclarativePlan,
                        reason: StrategyFallbackReason::ExecutionRecovery,
                    },
                );
                self.plan = Some(plan);
                self.stage = PlannedStage::Executing { recovering: true };
                PlannedAction::ExecutePlan
            },
            Ok(PlannerEnvelope::Direct) => self.conclude_last(limits),
            Err(error) => {
                if is_terminal_failure(&error) {
                    self.end_recovery(&error);
                    return self.conclude_last(limits);
                }
                self.core.report(PlanPhase::Recovery, 1, PlanLifecycleOutcome::Invalid);
                let text = join2("recovery plan was invalid: ", error.to_text().as_str());
                self.core.push_error(RunError::new("plan_recovery_failed", text.as_str()));
                self.conclude_last(limits)
            },
        }
    }

    /// The provider call ended. `parsed` is the envelope that the response's final output
    /// holds, if it is one.
    pub fn responded(
        &mut self,
        context: &PlanContext,
        outcome: Result<ModelResponse, HarnessError>,
        parsed: Option<PlannerEnvelope>,
        now: u64,
    ) -> (action: PlannedAction)
        requires
            old(self)@.consistent(),
        ensures
            exists|envelope: Result<PlannerEnvelope, HarnessError<Seq<char>>>| #[trigger]
                responds(
                    context,
                    old(self)@,
                    outcome_view(outcome),
                    parsed,
                    now,
                    envelope,
                    (final(self)@, action),
                ),
            final(self)@.consistent(),
    {
        let ghost first = self@;
        let ghost told = outcome_view(outcome);
        let ghost guess = parsed;
        let limits = &context.request.agent.limits;
        let planning = self.stage == PlannedStage::AwaitPlanner;
        if !planning && self.stage != PlannedStage::AwaitRecovery {
            assert(responds(
                context,
                first,
                told,
                guess,
                now,
                Err(HarnessError::Cancelled),
                (self@, PlannedAction::Misplaced),
            ));
            return PlannedAction::Misplaced;
        }
        match self.core.finish_call(limits, outcome, self.retries, true) {
            CallEnd::Failed(error) => {
                let action = if planning {
                    self.fail_planning(limits, &error)
                } else {
                    self.end_recovery(&error);
                    self.conclude_last(limits)
                };
                assert(responds(
                    context,
                    first,
                    told,
                    guess,
                    now,
                    Err(HarnessError::Cancelled),
                    (self@, action),
                ));
                action
            },
            CallEnd::Retry => {
                self.retries += 1;
                let action = if planning {
                    self.call_planner(limits, context.deadline, now)
                } else {
                    self.call_for_recovery(limits, context.deadline, now)
                };
                assert(responds(
                    context,
                    first,
                    told,
                    guess,
                    now,
                    Err(HarnessError::Cancelled),
                    (self@, action),
                ));
                action
            },
            CallEnd::Response(response) => {
                let requested = if planning {
                    self.requested
                } else {
                    RunStrategy::DeclarativePlan
                };
                let envelope = parse_envelope(
                    &response,
                    parsed,
                    requested,
                    context.broker.tools,
                    context.broker.scope,
                    context.request,
                    &context.capabilities.limits,
                    &context.bounds,
                );
                let ghost read = envelope_view(envelope);
                let action = if planning {
                    self.answer_planner(limits, context.deadline, now, envelope)
                } else {
                    self.answer_recovery(limits, envelope)
                };
                assert(responds(context, first, told, guess, now, read, (self@, action)));
                action
            },
        }
    }
}

/// What the end of a provider call leads to, where the reading of a valid response answered
/// `envelope`.
pub open spec fn responds(
    context: &PlanContext,
    run: PlannedModel,
    outcome: Result<ResponseModel, HarnessError<Seq<char>>>,
    parsed: Option<PlannerEnvelope>,
    now: u64,
    envelope: Result<PlannerEnvelope, HarnessError<Seq<char>>>,
    next: (PlannedModel, PlannedAction),
) -> bool {
    let awaiting = run.stage == PlannedStage::AwaitPlanner || run.stage
        == PlannedStage::AwaitRecovery;
    let end = run.core.call_finished(
        context.request.agent.limits,
        outcome,
        run.retries,
        true,
    ).1;
    &&& awaiting && end is Response ==> envelope_answer(
        end->Response_0,
        parsed,
        if run.stage == PlannedStage::AwaitPlanner {
            run.requested
        } else {
            RunStrategy::DeclarativePlan
        },
        context.broker.tools@,
        context.broker.scope,
        context.request,
        context.capabilities.limits,
        context.bounds,
        envelope,
    )
    &&& next == planned_responded(
        run,
        context.request.agent.limits,
        context.deadline,
        now,
        outcome,
        envelope,
    )
}

impl PlannedRun {
    /// Begins the execution of the plan at hand. The record goes with it, and comes back when
    /// the execution is over.
    pub fn start_execution(&mut self, context: &PlanContext) -> (result: Option<
        (PlanRun, PlanAction),
    >)
        requires
            old(self)@.consistent(),
        ensures
            old(self)@.stage is Executing <==> result is Some,
            result matches Some(begun) ==> {
                &&& exists|checked: Result<(), HarnessError<Seq<char>>>| #[trigger]
                    begins(
                        context,
                        old(self)@.core.record,
                        old(self)@.core.plan_attempt,
                        old(self)@.plan->0.nodes@,
                        transcript_len(old(self)@.core.messages),
                        checked,
                        (begun.0@, begun.1),
                    )
                &&& begun.0@.consistent()
                &&& final(self)@ == (PlannedModel {
                    core: CoreModel { record: final(self)@.core.record, ..old(self)@.core },
                    plan: None,
                    ..old(self)@
                })
            },
            result is None ==> final(self)@ == old(self)@,
    {
        match self.stage {
            PlannedStage::Executing { .. } => {},
            _ => {
                return None;
            },
        }
        let taken = self.plan.take();
        let record = self.core.take_record();
        match taken {
            Some(plan) => Some(
                PlanRun::begin(
                    context,
                    record,
                    self.core.plan_attempt(),
                    plan,
                    self.core.messages(),
                ),
            ),
            None => None,
        }
    }

    /// Goes on once the execution of the plan at hand is over.
    pub fn executed(
        &mut self,
        context: &PlanContext,
        record: RunRecord,
        execution: PlanExecution,
        now: u64,
    ) -> (action: PlannedAction)
        requires
            old(self)@.core.calls.balanced(),
            record@.ledger.broker.consistent(),
            record@.ledger.broker.settled(),
        ensures
            old(self)@.stage matches PlannedStage::Executing { recovering } ==> (
                final(self)@,
                action,
            ) == plan_executed(
                old(self)@.with_core(CoreModel { record: record@, ..old(self)@.core }),
                context.request.agent.limits,
                context.deadline,
                now,
                recovering,
                execution@,
            ) && final(self)@.consistent(),
            !(old(self)@.stage is Executing) ==> action == PlannedAction::Misplaced && final(self)@
                == old(self)@,
    {
        let recovering = match self.stage {
            PlannedStage::Executing { recovering } => recovering,
            _ => {
                return PlannedAction::Misplaced;
            },
        };
        let failure = execution.failure;
        let effects_started = execution.effects_started;
        self.keep_execution(record, execution);
        self.settle_execution(context, now, recovering, failure, effects_started)
    }

    fn keep_execution(&mut self, record: RunRecord, execution: PlanExecution)
        ensures
            final(self)@ == (PlannedModel {
                core: CoreModel {
                    record: record@,
                    plan_attempt: execution@.attempt,
                    ..old(self)@.core
                },
                plan: None,
                execution: Some(execution@),
                ..old(self)@
            }),
    {
        self.core.return_record(record, execution.attempt);
        self.plan = None;
        self.execution = Some(execution);
    }

    fn settle_execution(
        &mut self,
        context: &PlanContext,
        now: u64,
        recovering: bool,
        failure: Option<PlanFailureKind>,
        effects_started: bool,
    ) -> (action: PlannedAction)
        requires
            old(self)@.core.calls.balanced(),
            old(self)@.core.record.ledger.broker.consistent(),
            old(self)@.core.record.ledger.broker.settled(),
            old(self)@.execution is Some,
            old(self)@.execution->0.failure == failure,
            old(self)@.execution->0.effects_started == effects_started,
        ensures
            (final(self)@, action) == execution_settled(
                old(self)@,
                context.request.agent.limits,
                context.deadline,
                now,
                recovering,
                old(self)@.execution->0,
            ),
            final(self)@.consistent(),
    {
        reveal(execution_settled);
        let limits = &context.request.agent.limits;
        if recovering {
            let status = self.core.status();
            self.core.report(
                PlanPhase::Recovery,
                1,
                recovery_execution_outcome(failure, status),
            );
            return self.conclude_last(limits);
        }
        let terminal = self.core.is_terminal();
        if failure == Some(PlanFailureKind::Preflight) && self.requested == RunStrategy::Adaptive
            && !effects_started && !terminal && self.core.has_model_call_capacity(limits) {
            let requested = self.requested;
            self.core.select_direct_fallback(requested, StrategyFallbackReason::InvalidPlan);
            return self.react(ModelCallPhase::Reactive);
        }
        if failure == Some(PlanFailureKind::Recoverable) && effects_started
            && self.core.recovery_is_safe() && !terminal {
            if self.core.can_spend_optional_model_call(limits) {
                return self.begin_recovery(limits, context.deadline, now);
            }
            self.core.report(PlanPhase::Recovery, 1, PlanLifecycleOutcome::Skipped);
        }
        self.conclude_last(limits)
    }

    /// What the provider is shown.
    pub fn planner_messages(&self) -> (result: &Vec<Message>)
        ensures
            messages_view(result@) == self@.planner_messages,
    {
        &self.planner_messages
    }

    /// Hands over the recorded events and forgets them.
    pub fn take_events(&mut self) -> (result: Vec<RunEvent>)
        ensures
            crate::event::events_view(result@) == old(self)@.core.record.ledger.events,
            final(self)@ == old(self)@.with_core(
                old(self)@.core.with_ledger(
                    crate::ledger::LedgerModel {
                        events: Seq::empty(),
                        ..old(self)@.core.record.ledger
                    },
                ),
            ),
    {
        self.core.take_events()
    }

    /// The shared part of the run, for good.
    pub fn into_core(self) -> (result: StrategyCore)
        ensures
            result@ == self@.core,
    {
        self.core
    }
}

} // verus!
