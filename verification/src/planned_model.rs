//! What planned execution does, step by step: it plans, repairs, executes, recovers and falls
//! back.

use crate::agent::{errors_without, RunResultModel, RunStrategy};
use crate::error::{HarnessError, RunError};
use crate::event::{
    PlanLifecycleOutcome, PlanPhase, RunEvent, StrategyFallbackReason, StrategySelectionReason,
};
use crate::broker::BrokerModel;
use crate::json::{rendered_json, JsonTree};
use crate::limits::AgentLimits;
use crate::message::{plain_message, transcript_check, MessageModel, MessageRole};
use crate::model::ResponseModel;
use crate::plan::{ExecutionPlan, PlanNode};
use crate::plan_preflight::PlannerEnvelope;
use crate::plan_state::OutcomeModel;
use crate::schedule::{
    lifecycle_of_error, lifecycle_of_status, recovery_of, terminal_failure, validation_of_error,
    PlanFailureKind,
};
use crate::strategy_core::{entries_appended, CallEndModel, CallStart, CoreModel, ModelCallPhase};
use crate::tool::ToolResultModel;
use vstd::prelude::*;

verus! {

/// Where planned execution stands.
#[derive(Clone, Copy, Debug, PartialEq, Eq, Structural)]
pub enum PlannedStage {
    /// The planner was called.
    AwaitPlanner,
    /// A plan is to be executed, or is being executed.
    Executing {
        /// Whether it makes good another one.
        recovering: bool,
    },
    /// The planner was called for a recovery plan.
    AwaitRecovery,
    /// Planning is over.
    Done,
}

/// What planned execution asks for next.
#[derive(Clone, Copy, Debug, PartialEq, Eq, Structural)]
pub enum PlannedAction {
    /// Call the provider with the planner's conversation, until the deadline.
    CallModel {
        /// One-based number of the call.
        number: u32,
        /// When the call must end, in milliseconds.
        deadline: Option<u64>,
    },
    /// Execute the plan at hand.
    ExecutePlan,
    /// Go on with direct execution, whose first call is made for this.
    React(ModelCallPhase),
    /// Finish the run.
    Finish,
    /// The event does not fit the stage; nothing changed.
    Misplaced,
}

/// The model of planned execution.
pub struct PlannedModel {
    /// The shared part of the run.
    pub core: CoreModel,
    /// The strategy that was asked for.
    pub requested: RunStrategy,
    /// What the planner is shown.
    pub planner_messages: Seq<MessageModel>,
    /// Whether the repair of an envelope was spent.
    pub repair_used: bool,
    /// Retries of this provider turn so far.
    pub retries: u32,
    /// The plan at hand.
    pub plan: Option<ExecutionPlan>,
    /// What the last execution came to.
    pub execution: Option<OutcomeModel>,
    /// Where planned execution stands.
    pub stage: PlannedStage,
}

/// The instructions of a planner.
pub open spec fn planner_prompt() -> Seq<char> {
    "Select the safest efficient tool strategy. Return only one strict JSON object: {\"strategy\":\"direct\"} when no finite safe plan is justified, or {\"strategy\":\"declarative_plan\",\"plan\":{\"nodes\":[...]}} for a finite dependency DAG. Use only the supplied tools. Every plan node requires id, tool_id, and schema-valid arguments. Optional fields are depends_on, result_bindings, concurrency, approval_barrier, and commit_boundary. Choose direct for mutations, approval-sensitive work, ambiguity, or an uncertain next step."@
}

/// The instructions of a repair.
pub open spec fn planner_repair_prompt() -> Seq<char> {
    "The previous strategy envelope was invalid. Repair it once. Return only the strict JSON envelope requested by the planning instructions, with no prose or markdown."@
}

/// The instructions of a recovery.
pub open spec fn recovery_prompt() -> Seq<char> {
    "Execution stopped after the recorded completed results. Produce one replacement declarative plan using only those results as prior state. Never repeat a completed mutation. Return only {\"strategy\":\"declarative_plan\",\"plan\":{\"nodes\":[...]}}."@
}

/// The outputs of the first `count` nodes, of those that have one.
pub open spec fn completed_members(
    nodes: Seq<PlanNode>,
    outputs: Seq<Option<ToolResultModel>>,
    count: nat,
) -> Seq<(Seq<char>, JsonTree)>
    decreases count,
{
    if count == 0 || count > nodes.len() {
        Seq::empty()
    } else {
        let before = completed_members(nodes, outputs, (count - 1) as nat);
        if count <= outputs.len() && outputs[count - 1] is Some {
            before.push((nodes[count - 1].id@, outputs[count - 1]->0.output))
        } else {
            before
        }
    }
}

/// What the planner learns of an execution that is to be made good.
pub open spec fn recovery_text(execution: OutcomeModel) -> Seq<char> {
    rendered_json(
        JsonTree::Object(
            seq![
                (
                    "completed"@,
                    JsonTree::Object(
                        completed_members(
                            execution.nodes,
                            execution.outputs,
                            execution.nodes.len(),
                        ),
                    ),
                ),
            ],
        ),
    )
}

impl PlannedModel {
    /// Planned execution with another shared part.
    pub open spec fn with_core(self, core: CoreModel) -> PlannedModel {
        PlannedModel { core, ..self }
    }

    /// Planned execution, over: the run is to be finished.
    pub open spec fn over(self) -> (PlannedModel, PlannedAction) {
        (PlannedModel { stage: PlannedStage::Done, ..self }, PlannedAction::Finish)
    }

    /// Planned execution, over: direct execution goes on.
    pub open spec fn react(self, phase: ModelCallPhase) -> (PlannedModel, PlannedAction) {
        (PlannedModel { stage: PlannedStage::Done, ..self }, PlannedAction::React(phase))
    }

    /// Planned execution, over: an error ended the run.
    pub open spec fn terminated(self, error: HarnessError<Seq<char>>) -> (
        PlannedModel,
        PlannedAction,
    ) {
        self.with_core(self.core.terminated(error)).over()
    }

    /// What planning is called: a repair, once the first envelope was invalid.
    pub open spec fn planning_phase(self) -> PlanPhase {
        if self.repair_used {
            PlanPhase::Repair
        } else {
            PlanPhase::Planning
        }
    }

    /// What a call of the planner is made for.
    pub open spec fn planning_purpose(self) -> ModelCallPhase {
        if self.repair_used {
            ModelCallPhase::Repair
        } else {
            ModelCallPhase::Planning
        }
    }

    /// Which validation of an envelope this is.
    pub open spec fn validation_attempt(self) -> u32 {
        if self.repair_used {
            2
        } else {
            1
        }
    }
}

/// A planner call that failed.
#[verifier::opaque]
pub open spec fn planning_failed(
    run: PlannedModel,
    limits: AgentLimits,
    error: HarnessError<Seq<char>>,
) -> (PlannedModel, PlannedAction) {
    let reported = run.with_core(
        run.core.reported(run.planning_phase(), 1, lifecycle_of_error(error)),
    );
    if run.requested == RunStrategy::Adaptive && !terminal_failure(error)
        && run.core.has_capacity(limits) {
        reported.with_core(
            reported.core.fallen_back(run.requested, StrategyFallbackReason::PlannerFailure),
        ).react(ModelCallPhase::Reactive)
    } else {
        reported.terminated(error)
    }
}

/// A planner call that begins, or does not.
#[verifier::opaque]
pub open spec fn planning_called(
    run: PlannedModel,
    limits: AgentLimits,
    deadline: Option<u64>,
    now: u64,
) -> (PlannedModel, PlannedAction) {
    let (core, start) = run.core.call_started(limits, deadline, now, run.planning_purpose());
    let next = run.with_core(core);
    match start {
        CallStart::LimitReached => next.with_core(
            core.reported(
                run.planning_phase(),
                1,
                lifecycle_of_status(core.record.ledger.result.status),
            ),
        ).over(),
        CallStart::Failed(error) => planning_failed(next, limits, error),
        CallStart::Call { number, deadline } => (
            PlannedModel { stage: PlannedStage::AwaitPlanner, ..next },
            PlannedAction::CallModel { number, deadline },
        ),
    }
}

/// A planning attempt that begins.
#[verifier::opaque]
pub open spec fn planning_begun(
    run: PlannedModel,
    limits: AgentLimits,
    deadline: Option<u64>,
    now: u64,
) -> (PlannedModel, PlannedAction) {
    planning_called(
        PlannedModel {
            core: run.core.reported(run.planning_phase(), 1, PlanLifecycleOutcome::Started),
            retries: 0,
            ..run
        },
        limits,
        deadline,
        now,
    )
}

/// Planned execution before its first planner call.
pub open spec fn planned_begun(
    core: CoreModel,
    requested: RunStrategy,
    limits: AgentLimits,
    deadline: Option<u64>,
    now: u64,
) -> (PlannedModel, PlannedAction) {
    let selected = if requested == RunStrategy::DeclarativePlan {
        core.emit(
            RunEvent::StrategySelected {
                requested,
                selected: RunStrategy::DeclarativePlan,
                reason: StrategySelectionReason::Forced,
            },
        )
    } else {
        core
    };
    planning_begun(
        PlannedModel {
            core: selected,
            requested,
            planner_messages: seq![plain_message(MessageRole::System, planner_prompt())]
                + core.messages,
            repair_used: false,
            retries: 0,
            plan: None,
            execution: None,
            stage: PlannedStage::AwaitPlanner,
        },
        limits,
        deadline,
        now,
    )
}

/// What a valid envelope leads to.
#[verifier::opaque]
pub open spec fn envelope_chosen(run: PlannedModel, envelope: PlannerEnvelope) -> (
    PlannedModel,
    PlannedAction,
) {
    match envelope {
        PlannerEnvelope::Direct => {
            let core = run.core.emit(
                RunEvent::StrategySelected {
                    requested: run.requested,
                    selected: RunStrategy::Direct,
                    reason: StrategySelectionReason::PlannerSelectedDirect,
                },
            );
            run.with_core(CoreModel { selected: RunStrategy::Direct, ..core }).react(
                ModelCallPhase::Reactive,
            )
        },
        PlannerEnvelope::DeclarativePlan { plan } => {
            let told = if run.requested == RunStrategy::Adaptive {
                run.core.emit(
                    RunEvent::StrategySelected {
                        requested: run.requested,
                        selected: RunStrategy::DeclarativePlan,
                        reason: StrategySelectionReason::PlannerSelectedPlan,
                    },
                )
            } else {
                run.core
            };
            let core = CoreModel { selected: RunStrategy::DeclarativePlan, ..told };
            let reusing = core.with_ledger(
                core.record.ledger.with_broker(
                    BrokerModel {
                        reuse_committed_effects: true,
                        ..core.record.ledger.broker
                    },
                ),
            );
            (
                PlannedModel {
                    core: reusing,
                    plan: Some(plan),
                    stage: PlannedStage::Executing { recovering: false },
                    ..run
                },
                PlannedAction::ExecutePlan,
            )
        },
    }
}

/// A run with the errors of invalid plans forgotten.
pub open spec fn plan_errors_forgotten(core: CoreModel) -> CoreModel {
    core.with_ledger(
        core.record.ledger.with_result(
            RunResultModel {
                errors: errors_without(core.record.ledger.result.errors, "invalid_plan"@),
                ..core.record.ledger.result
            },
        ),
    )
}

/// What an invalid envelope leads to: a repair, a fallback or the end.
#[verifier::opaque]
pub open spec fn envelope_refused(
    run: PlannedModel,
    limits: AgentLimits,
    deadline: Option<u64>,
    now: u64,
    error: HarnessError<Seq<char>>,
) -> (PlannedModel, PlannedAction) {
    let attempt = run.validation_attempt();
    if terminal_failure(error) {
        run.with_core(
            run.core.reported(PlanPhase::Validation, attempt, lifecycle_of_error(error)),
        ).terminated(error)
    } else {
        let told = run.core.reported(PlanPhase::Validation, attempt, validation_of_error(error));
        if !run.repair_used && run.core.can_spend(limits) {
            planning_begun(
                PlannedModel {
                    core: plan_errors_forgotten(told),
                    repair_used: true,
                    planner_messages: run.planner_messages.push(
                        plain_message(MessageRole::System, planner_repair_prompt()),
                    ),
                    ..run
                },
                limits,
                deadline,
                now,
            )
        } else {
            let skipped = if run.repair_used {
                told
            } else {
                told.reported(PlanPhase::Repair, 1, PlanLifecycleOutcome::Skipped)
            };
            if run.requested == RunStrategy::Adaptive {
                if !run.core.has_capacity(limits) {
                    run.with_core(skipped).terminated(
                        HarnessError::ResourceLimit("no model call remains for direct fallback"@),
                    )
                } else {
                    run.with_core(
                        plan_errors_forgotten(
                            skipped.fallen_back(
                                run.requested,
                                StrategyFallbackReason::InvalidPlan,
                            ),
                        ),
                    ).react(ModelCallPhase::Reactive)
                }
            } else {
                run.with_core(
                    skipped.with_error(
                        RunError {
                            code: "invalid_plan"@,
                            message: "declarative plan was invalid: "@ + error.display_text(),
                        },
                    ),
                ).over()
            }
        }
    }
}

/// What the response of a planner leads to. `envelope` is what its reading answered.
#[verifier::opaque]
pub open spec fn planner_answered(
    run: PlannedModel,
    limits: AgentLimits,
    deadline: Option<u64>,
    now: u64,
    envelope: Result<PlannerEnvelope, HarnessError<Seq<char>>>,
) -> (PlannedModel, PlannedAction) {
    let attempt = run.validation_attempt();
    let validating = run.with_core(
        run.core.reported(run.planning_phase(), 1, PlanLifecycleOutcome::Succeeded).reported(
            PlanPhase::Validation,
            attempt,
            PlanLifecycleOutcome::Started,
        ),
    );
    match envelope {
        Ok(envelope) => envelope_chosen(
            validating.with_core(
                validating.core.reported(
                    PlanPhase::Validation,
                    attempt,
                    PlanLifecycleOutcome::Succeeded,
                ),
            ),
            envelope,
        ),
        Err(error) => envelope_refused(validating, limits, deadline, now, error),
    }
}

/// What the end of a planner call leads to.
pub open spec fn planner_responded(
    run: PlannedModel,
    limits: AgentLimits,
    deadline: Option<u64>,
    now: u64,
    outcome: Result<ResponseModel, HarnessError<Seq<char>>>,
    envelope: Result<PlannerEnvelope, HarnessError<Seq<char>>>,
) -> (PlannedModel, PlannedAction) {
    let (core, end) = run.core.call_finished(limits, outcome, run.retries, true);
    let next = run.with_core(core);
    match end {
        CallEndModel::Failed(error) => planning_failed(next, limits, error),
        CallEndModel::Retry => planning_called(
            PlannedModel { retries: (run.retries + 1) as u32, ..next },
            limits,
            deadline,
            now,
        ),
        CallEndModel::Response(_) => planner_answered(next, limits, deadline, now, envelope),
    }
}

/// The end of planned execution: an answer follows a completed plan, a failed one ends the run.
#[verifier::opaque]
pub open spec fn concluded(run: PlannedModel, limits: AgentLimits, execution: OutcomeModel) -> (
    PlannedModel,
    PlannedAction,
) {
    if execution.failure is Some {
        if run.core.record.ledger.result.errors.len() == 0 {
            run.with_core(
                run.core.with_error(
                    RunError {
                        code: "plan_execution_failed"@,
                        message: "declarative plan execution failed"@,
                    },
                ),
            ).over()
        } else {
            run.over()
        }
    } else {
        let (messages, answer) = entries_appended(
            run.core.messages,
            execution.transcript,
            limits,
        );
        let appended = run.with_core(CoreModel { messages, ..run.core });
        match answer {
            Err(error) => appended.terminated(error),
            Ok(_) => appended.react(ModelCallPhase::FinalSynthesis),
        }
    }
}

/// A recovery that an error ends, with the run.
pub open spec fn recovery_ended(run: PlannedModel, error: HarnessError<Seq<char>>) -> PlannedModel {
    run.with_core(
        run.core.reported(PlanPhase::Recovery, 1, lifecycle_of_error(error)).terminated(error),
    )
}

/// A call for a recovery plan that begins, or does not.
#[verifier::opaque]
pub open spec fn recovery_called(
    run: PlannedModel,
    limits: AgentLimits,
    deadline: Option<u64>,
    now: u64,
) -> (PlannedModel, PlannedAction) {
    let (core, start) = run.core.call_started(limits, deadline, now, ModelCallPhase::Recovery);
    let next = run.with_core(core);
    match start {
        CallStart::LimitReached => concluded(
            next.with_core(
                core.reported(
                    PlanPhase::Recovery,
                    1,
                    lifecycle_of_status(core.record.ledger.result.status),
                ),
            ),
            limits,
            run.execution->0,
        ),
        CallStart::Failed(error) => concluded(
            recovery_ended(next, error),
            limits,
            run.execution->0,
        ),
        CallStart::Call { number, deadline } => (
            PlannedModel { stage: PlannedStage::AwaitRecovery, ..next },
            PlannedAction::CallModel { number, deadline },
        ),
    }
}

/// A recovery that begins.
#[verifier::opaque]
pub open spec fn recovery_begun(
    run: PlannedModel,
    limits: AgentLimits,
    deadline: Option<u64>,
    now: u64,
    execution: OutcomeModel,
) -> (PlannedModel, PlannedAction) {
    let told = run.core.reported(PlanPhase::Recovery, 1, PlanLifecycleOutcome::Started);
    let (messages, answer) = entries_appended(told.messages, execution.transcript, limits);
    let appended = run.with_core(CoreModel { messages, ..told });
    match answer {
        Err(error) => recovery_ended(appended, error).over(),
        Ok(_) => {
            let shown = messages.push(plain_message(MessageRole::System, recovery_prompt())).push(
                plain_message(MessageRole::User, recovery_text(execution)),
            );
            match transcript_check(shown, limits) {
                Err(error) => recovery_ended(appended, error).over(),
                Ok(_) => recovery_called(
                    PlannedModel { planner_messages: shown, retries: 0, ..appended },
                    limits,
                    deadline,
                    now,
                ),
            }
        },
    }
}

/// What an executed plan leads to.
pub open spec fn plan_executed(
    run: PlannedModel,
    limits: AgentLimits,
    deadline: Option<u64>,
    now: u64,
    recovering: bool,
    execution: OutcomeModel,
) -> (PlannedModel, PlannedAction) {
    execution_settled(
        PlannedModel {
            core: CoreModel { plan_attempt: execution.attempt, ..run.core },
            execution: Some(execution),
            plan: None,
            ..run
        },
        limits,
        deadline,
        now,
        recovering,
        execution,
    )
}

/// What an execution that is kept leads to: a fallback before anything took effect, a recovery
/// where every effect is known, else the end.
#[verifier::opaque]
pub open spec fn execution_settled(
    run: PlannedModel,
    limits: AgentLimits,
    deadline: Option<u64>,
    now: u64,
    recovering: bool,
    execution: OutcomeModel,
) -> (PlannedModel, PlannedAction) {
    let core = run.core;
    let terminal = core.record.terminal;
    if recovering {
        concluded(
            run.with_core(
                core.reported(
                    PlanPhase::Recovery,
                    1,
                    recovery_of(execution.failure, core.record.ledger.result.status),
                ),
            ),
            limits,
            execution,
        )
    } else if execution.failure == Some(PlanFailureKind::Preflight) && run.requested
        == RunStrategy::Adaptive && !execution.effects_started && !terminal && core.has_capacity(
        limits,
    ) {
        run.with_core(
            core.fallen_back(run.requested, StrategyFallbackReason::InvalidPlan),
        ).react(ModelCallPhase::Reactive)
    } else if execution.failure == Some(PlanFailureKind::Recoverable) && execution.effects_started
        && core.record.ledger.broker.safe_to_recover() && !terminal {
        if !core.can_spend(limits) {
            concluded(
                run.with_core(core.reported(PlanPhase::Recovery, 1, PlanLifecycleOutcome::Skipped)),
                limits,
                execution,
            )
        } else {
            recovery_begun(run, limits, deadline, now, execution)
        }
    } else {
        concluded(run, limits, execution)
    }
}

/// What the response of a planner that was asked for a recovery plan leads to.
#[verifier::opaque]
pub open spec fn recovery_answered(
    run: PlannedModel,
    limits: AgentLimits,
    envelope: Result<PlannerEnvelope, HarnessError<Seq<char>>>,
) -> (PlannedModel, PlannedAction) {
    let execution = run.execution->0;
    match envelope {
        Ok(PlannerEnvelope::DeclarativePlan { plan }) => (
            PlannedModel {
                core: run.core.emit(
                    RunEvent::StrategyFallback {
                        from: RunStrategy::DeclarativePlan,
                        to: RunStrategy::DeclarativePlan,
                        reason: StrategyFallbackReason::ExecutionRecovery,
                    },
                ),
                plan: Some(plan),
                stage: PlannedStage::Executing { recovering: true },
                ..run
            },
            PlannedAction::ExecutePlan,
        ),
        Ok(PlannerEnvelope::Direct) => concluded(run, limits, execution),
        Err(error) => if terminal_failure(error) {
            concluded(recovery_ended(run, error), limits, execution)
        } else {
            concluded(
                run.with_core(
                    run.core.reported(
                        PlanPhase::Recovery,
                        1,
                        PlanLifecycleOutcome::Invalid,
                    ).with_error(
                        RunError {
                            code: "plan_recovery_failed"@,
                            message: "recovery plan was invalid: "@ + error.display_text(),
                        },
                    ),
                ),
                limits,
                execution,
            )
        },
    }
}

/// What the end of a call for a recovery plan leads to.
pub open spec fn recovery_responded(
    run: PlannedModel,
    limits: AgentLimits,
    deadline: Option<u64>,
    now: u64,
    outcome: Result<ResponseModel, HarnessError<Seq<char>>>,
    envelope: Result<PlannerEnvelope, HarnessError<Seq<char>>>,
) -> (PlannedModel, PlannedAction) {
    let (core, end) = run.core.call_finished(limits, outcome, run.retries, true);
    let next = run.with_core(core);
    match end {
        CallEndModel::Failed(error) => concluded(
            recovery_ended(next, error),
            limits,
            run.execution->0,
        ),
        CallEndModel::Retry => recovery_called(
            PlannedModel { retries: (run.retries + 1) as u32, ..next },
            limits,
            deadline,
            now,
        ),
        CallEndModel::Response(_) => recovery_answered(next, limits, envelope),
    }
}

/// What the end of a provider call leads to.
pub open spec fn planned_responded(
    run: PlannedModel,
    limits: AgentLimits,
    deadline: Option<u64>,
    now: u64,
    outcome: Result<ResponseModel, HarnessError<Seq<char>>>,
    envelope: Result<PlannerEnvelope, HarnessError<Seq<char>>>,
) -> (PlannedModel, PlannedAction) {
    match run.stage {
        PlannedStage::AwaitPlanner => planner_responded(
            run,
            limits,
            deadline,
            now,
            outcome,
            envelope,
        ),
        PlannedStage::AwaitRecovery => recovery_responded(
            run,
            limits,
            deadline,
            now,
            outcome,
            envelope,
        ),
        _ => (run, PlannedAction::Misplaced),
    }
}

} // verus!
