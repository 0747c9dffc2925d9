//! Events of a run, in the order in which they happened.

use crate::agent::{RunStatus, RunStrategy};
use crate::policy::PolicyDecision;
use crate::tool::ToolCaller;
use vstd::prelude::*;

verus! {

/// Stable, value-free outcome of a completed tool-discovery selection.
#[derive(Clone, Copy, Debug, PartialEq, Eq, Structural)]
#[non_exhaustive]
pub enum ToolDiscoveryOutcome {
    /// A usable scope, including an intentionally empty scope, was selected.
    Selected,
    /// Mandatory tools could not fit the effective count or schema-byte budget.
    LimitReached,
}

/// Stable, value-free category for a completed tool-discovery selection.
#[derive(Clone, Copy, Debug, PartialEq, Eq, Structural)]
#[non_exhaustive]
pub enum ToolDiscoverySelection {
    /// An event written by an earlier release did not record a selection category.
    LegacyUnclassified,
    /// The authorized caller catalog was empty.
    EmptyCatalog,
    /// The provider advertised insufficient capacity for any tool scope.
    NoCapacity,
    /// The complete authorized catalog fit the effective budget.
    FullCatalog,
    /// Only mandatory hot tools were selected.
    HotOnly,
    /// An exact identifier, name, namespace, or alias selected tools.
    Exact,
    /// A high-margin lexical match selected one deferred tool.
    LexicalConfident,
    /// A low-margin lexical match selected a bounded expansion.
    LexicalExpanded,
    /// No deferred candidate matched the query.
    NoMatch,
    /// Mandatory tools exceeded the effective tool-count budget.
    CountLimit,
    /// Mandatory tools exceeded the effective serialized-schema-byte budget.
    SchemaByteLimit,
}

/// Stable, value-free reason for selecting an execution strategy.
#[derive(Clone, Copy, Debug, PartialEq, Eq, Structural)]
#[non_exhaustive]
pub enum StrategySelectionReason {
    /// The host explicitly forced the selected strategy.
    Forced,
    /// Provider capabilities permit adaptive declarative planning.
    AdaptivePlanner,
    /// The provider-directed planner selected direct reactive execution.
    PlannerSelectedDirect,
    /// The provider-directed planner selected a declarative plan.
    PlannerSelectedPlan,
    /// Provider capabilities require the direct compatibility path.
    CapabilityDowngrade,
}

/// Stable, value-free reason for a strategy fallback.
#[derive(Clone, Copy, Debug, PartialEq, Eq, Structural)]
#[non_exhaustive]
pub enum StrategyFallbackReason {
    /// The provider does not support structured plan generation.
    UnsupportedCapability,
    /// A generated plan remained invalid after one repair attempt.
    InvalidPlan,
    /// A generated program remained invalid after its single repair attempt.
    InvalidProgram,
    /// Execution failed after some node results were safely recorded.
    ExecutionRecovery,
    /// Planner execution failed before any tool effect began.
    PlannerFailure,
}

/// Stable value-free lifecycle outcome for a program attempt.
#[derive(Clone, Copy, Debug, PartialEq, Eq, Structural)]
#[non_exhaustive]
pub enum ProgramLifecycleOutcome {
    /// Program generation or repair started.
    Started,
    /// Strict parsing, compilation, and private-bytecode verification succeeded.
    Validated,
    /// The provider output failed strict parsing or verification.
    Invalid,
    /// Final synthesis completed after VM execution and produced the terminal answer.
    Succeeded,
    /// The attempt was abandoned for the approved direct fallback before an effect.
    Fallback,
    /// The attempt failed after validation.
    Failed,
    /// The attempt was cancelled.
    Cancelled,
    /// The attempt exceeded its deadline.
    TimedOut,
    /// The attempt exhausted a configured resource limit.
    LimitReached,
}

/// Stable declarative planning and recovery phase.
#[derive(Clone, Copy, Debug, PartialEq, Eq, Structural)]
#[non_exhaustive]
pub enum PlanPhase {
    /// Initial strategy-envelope generation and validation.
    Planning,
    /// Bounded repair of an invalid strategy envelope.
    Repair,
    /// Structural and schema validation of a generated strategy envelope.
    Validation,
    /// Structural, broker, policy, and approval preflight.
    Preflight,
    /// Bounded recovery after safely recorded execution.
    Recovery,
}

/// Stable value-free outcome for a declarative planning phase.
#[derive(Clone, Copy, Debug, PartialEq, Eq, Structural)]
#[non_exhaustive]
pub enum PlanLifecycleOutcome {
    /// The phase began.
    Started,
    /// The phase completed successfully.
    Succeeded,
    /// Generated structured content was invalid.
    Invalid,
    /// Validation, policy, approval, or another safety gate rejected the phase.
    Rejected,
    /// The phase failed for another reason.
    Failed,
    /// The phase was cancelled.
    Cancelled,
    /// The phase exceeded its deadline.
    TimedOut,
    /// The phase exhausted a configured resource or call limit.
    LimitReached,
    /// The optional phase was skipped to preserve final-synthesis capacity.
    Skipped,
}

/// Stable value-free outcome for one declarative plan node.
#[derive(Clone, Copy, Debug, PartialEq, Eq, Structural)]
#[non_exhaustive]
pub enum PlanNodeOutcome {
    /// The tool returned a successful validated result.
    Succeeded,
    /// The tool or scheduler failed the node.
    Failed,
    /// The node was cancelled.
    Cancelled,
    /// The node exceeded its deadline.
    TimedOut,
    /// Validation, policy, approval, or another safety gate rejected the node.
    Rejected,
    /// The node exhausted a configured resource or call limit.
    LimitReached,
    /// An exact previously completed effect supplied the node result.
    Reused,
}

/// Lifecycle event emitted by the runner.
///
/// `S` is the text: `String` in running code, a sequence of characters in contracts.
#[derive(Clone, Debug, PartialEq, Eq)]
#[non_exhaustive]
pub enum RunEvent<S = String> {
    /// A run has started.
    Started {
        /// Identifier of the started run.
        run_id: S,
        /// Trace identifier for the started run.
        trace_id: S,
    },
    /// The runner is requesting a model completion.
    ModelRequested {
        /// One-based model call number.
        call_number: u32,
        /// Model identifier being called.
        model: S,
    },
    /// A retryable provider error caused another model call to be scheduled.
    ModelRetrying {
        /// Number of the next model call.
        next_call_number: u32,
        /// Reason the previous call will be retried.
        reason: S,
    },
    /// The model returned a response.
    ModelResponded {
        /// Model call number that returned.
        call_number: u32,
    },
    /// A metadata-only tool catalog selection completed for one caller scope.
    ToolDiscoveryCompleted {
        /// Caller whose immutable scope was selected.
        caller: ToolCaller,
        /// Stable outcome of the completed selection attempt.
        outcome: ToolDiscoveryOutcome,
        /// Stable category describing how the scope was selected.
        selection: ToolDiscoverySelection,
        /// Number of allowed, caller-compatible catalog candidates.
        candidate_count: u32,
        /// Number of definitions selected for model exposure.
        selected_count: u32,
        /// Number of candidates explicitly configured as deferred.
        deferred_candidate_count: u32,
        /// Effective maximum number of tools for this caller scope.
        effective_tool_count_budget: u32,
        /// Effective maximum serialized tool-definition bytes for this scope.
        effective_schema_byte_budget: u64,
        /// Exact serialized definition-array byte count selected or required;
        /// a size scalar that never includes definition content.
        selected_schema_bytes: u64,
        /// Number of deferred candidates admitted by bounded expansion.
        expansion_count: u32,
        /// Configured maximum bounded expansion count.
        expansion_limit: u32,
        /// Whether the complete candidate catalog exceeded the effective budget.
        catalog_exceeded_budget: bool,
        /// Elapsed time spent selecting this caller scope.
        duration_ms: u64,
    },
    /// The runner selected an execution strategy using metadata-only inputs.
    StrategySelected {
        /// Strategy requested by the host.
        requested: RunStrategy,
        /// Strategy selected for execution.
        selected: RunStrategy,
        /// Stable reason for the selection.
        reason: StrategySelectionReason,
    },
    /// The runner fell back from one strategy to another.
    StrategyFallback {
        /// Strategy that could not continue.
        from: RunStrategy,
        /// Safe fallback strategy.
        to: RunStrategy,
        /// Stable reason for the fallback.
        reason: StrategyFallbackReason,
    },
    /// A metadata-only declarative planning phase changed lifecycle state.
    PlanLifecycle {
        /// Stable phase whose lifecycle changed.
        phase: PlanPhase,
        /// One-based attempt within the phase.
        attempt: u32,
        /// Stable value-free lifecycle outcome.
        outcome: PlanLifecycleOutcome,
    },
    /// A complete declarative plan passed structural and execution preflight.
    PlanValidated {
        /// One-based execution-plan attempt.
        attempt: u32,
        /// Number of validated plan nodes.
        node_count: u32,
    },
    /// A metadata-only program generation or repair attempt changed lifecycle state.
    ProgramLifecycle {
        /// One-based program generation or repair attempt.
        attempt: u32,
        /// Stable value-free lifecycle outcome.
        outcome: ProgramLifecycleOutcome,
    },
    /// A strict program AST and its private bytecode completed validation.
    ProgramValidated {
        /// One-based successfully validated program attempt.
        attempt: u32,
        /// Number of source AST statements admitted to compilation.
        statement_count: u32,
        /// Number of private verified bytecode instructions.
        instruction_count: u32,
    },
    /// A nonterminal program VM completion before final model synthesis.
    ProgramExecutionCompleted {
        /// One-based successfully executed program attempt.
        attempt: u32,
        /// Deterministic fuel charged by the VM.
        fuel_used: u64,
        /// Scheduling slices that the VM took.
        scheduling_slices: u64,
        /// Tool batches that the VM yielded.
        tool_yields: u64,
        /// Executed branch decisions.
        branches: u64,
        /// Entered bounded loop iterations.
        loop_iterations: u64,
        /// Read-only fan-out batches yielded.
        fanout_batches: u32,
        /// Failed or invalid broker results observed before this terminal execution state.
        partial_failures: u32,
        /// Peak conservatively accounted VM bytes.
        peak_accounted_bytes: u64,
        /// VM execution duration in milliseconds.
        duration_ms: u64,
    },
    /// A declarative plan node started execution.
    PlanNodeStarted {
        /// Runner-generated opaque node identifier; never model-provided text.
        node_id: S,
        /// Registered tool identifier.
        tool_id: S,
        /// One-based execution-plan attempt.
        attempt: u32,
        /// One-based deterministic execution wave.
        wave: u32,
    },
    /// A declarative plan node completed execution.
    PlanNodeCompleted {
        /// Runner-generated opaque node identifier; never model-provided text.
        node_id: S,
        /// Registered tool identifier.
        tool_id: S,
        /// One-based execution-plan attempt.
        attempt: u32,
        /// One-based deterministic execution wave.
        wave: u32,
        /// Whether the node returned a successful validated result.
        ok: bool,
        /// Stable metadata-only node outcome.
        outcome: PlanNodeOutcome,
        /// Elapsed node execution time in milliseconds.
        duration_ms: u64,
    },
    /// A previously committed effect was reused instead of being invoked again.
    ToolEffectReused {
        /// Identifier of the call receiving the recorded result.
        call_id: S,
        /// Registered tool identifier.
        tool_id: S,
    },
    /// Aggregate metadata-only strategy usage for the completed run.
    StrategyUsage {
        /// Strategy that performed the run's final execution path.
        strategy: RunStrategy,
        /// Number of provider calls issued.
        model_calls: u32,
        /// Provider calls used for initial plan selection and validation.
        planning_model_calls: u32,
        /// Provider calls used for the single optional invalid-plan repair.
        repair_model_calls: u32,
        /// Provider calls used for the single optional execution recovery.
        recovery_model_calls: u32,
        /// Provider calls used to synthesize a final answer from completed plan results.
        final_synthesis_model_calls: u32,
        /// Provider calls used by direct reactive execution.
        reactive_model_calls: u32,
        /// Number of tool proposals admitted to the broker attempt budget.
        tool_calls: u32,
        /// Admitted proposals that crossed into the execution boundary.
        tool_issued: u32,
        /// Admitted proposals satisfied from an exact completed-effect record.
        tool_reused: u32,
        /// Admitted proposals rejected by validation, policy, approval, or limits.
        tool_rejected: u32,
        /// Admitted proposals aborted by an error before execution was issued.
        tool_pre_dispatch_aborted: u32,
        /// Issued calls that returned a successful validated result.
        tool_completed: u32,
        /// Issued calls that failed execution or result validation.
        tool_failed: u32,
        /// Issued calls cancelled or timed out before a result was available.
        tool_cancelled: u32,
        /// Elapsed run duration in milliseconds.
        duration_ms: u64,
    },
    /// A tool call was rejected before execution.
    ToolRejected {
        /// Identifier of the rejected call.
        call_id: S,
        /// Identifier of the rejected tool.
        tool_id: S,
        /// Reason for rejection.
        reason: S,
    },
    /// A policy decision was recorded for a tool call.
    PolicyDecided {
        /// Identifier of the related tool call.
        call_id: S,
        /// Policy outcome.
        decision: PolicyDecision<S>,
    },
    /// Approval was requested for a tool call.
    ApprovalRequested {
        /// Identifier of the tool call awaiting approval.
        call_id: S,
        /// Identifier of the tool requiring approval.
        tool_id: S,
    },
    /// A tool call finished execution.
    ToolCompleted {
        /// Identifier of the completed call.
        call_id: S,
        /// Identifier of the completed tool.
        tool_id: S,
        /// Whether the tool returned a successful result.
        ok: bool,
    },
    /// The run reached a terminal status.
    Completed {
        /// Terminal run status.
        status: RunStatus,
    },
}

impl View for RunEvent<String> {
    type V = RunEvent<Seq<char>>;

    open spec fn view(&self) -> RunEvent<Seq<char>> {
        match self {
            RunEvent::Started { run_id, trace_id } => RunEvent::Started { run_id: run_id@, trace_id: trace_id@ },
            RunEvent::ModelRequested { call_number, model } => RunEvent::ModelRequested { call_number: *call_number, model: model@ },
            RunEvent::ModelRetrying { next_call_number, reason } => RunEvent::ModelRetrying { next_call_number: *next_call_number, reason: reason@ },
            RunEvent::ModelResponded { call_number } => RunEvent::ModelResponded { call_number: *call_number },
            RunEvent::ToolDiscoveryCompleted { caller, outcome, selection, candidate_count, selected_count, deferred_candidate_count, effective_tool_count_budget, effective_schema_byte_budget, selected_schema_bytes, expansion_count, expansion_limit, catalog_exceeded_budget, duration_ms } => RunEvent::ToolDiscoveryCompleted { caller: *caller, outcome: *outcome, selection: *selection, candidate_count: *candidate_count, selected_count: *selected_count, deferred_candidate_count: *deferred_candidate_count, effective_tool_count_budget: *effective_tool_count_budget, effective_schema_byte_budget: *effective_schema_byte_budget, selected_schema_bytes: *selected_schema_bytes, expansion_count: *expansion_count, expansion_limit: *expansion_limit, catalog_exceeded_budget: *catalog_exceeded_budget, duration_ms: *duration_ms },
            RunEvent::StrategySelected { requested, selected, reason } => RunEvent::StrategySelected { requested: *requested, selected: *selected, reason: *reason },
            RunEvent::StrategyFallback { from, to, reason } => RunEvent::StrategyFallback { from: *from, to: *to, reason: *reason },
            RunEvent::PlanLifecycle { phase, attempt, outcome } => RunEvent::PlanLifecycle { phase: *phase, attempt: *attempt, outcome: *outcome },
            RunEvent::PlanValidated { attempt, node_count } => RunEvent::PlanValidated { attempt: *attempt, node_count: *node_count },
            RunEvent::ProgramLifecycle { attempt, outcome } => RunEvent::ProgramLifecycle { attempt: *attempt, outcome: *outcome },
            RunEvent::ProgramValidated { attempt, statement_count, instruction_count } => RunEvent::ProgramValidated { attempt: *attempt, statement_count: *statement_count, instruction_count: *instruction_count },
            RunEvent::ProgramExecutionCompleted { attempt, fuel_used, scheduling_slices, tool_yields, branches, loop_iterations, fanout_batches, partial_failures, peak_accounted_bytes, duration_ms } => RunEvent::ProgramExecutionCompleted { attempt: *attempt, fuel_used: *fuel_used, scheduling_slices: *scheduling_slices, tool_yields: *tool_yields, branches: *branches, loop_iterations: *loop_iterations, fanout_batches: *fanout_batches, partial_failures: *partial_failures, peak_accounted_bytes: *peak_accounted_bytes, duration_ms: *duration_ms },
            RunEvent::PlanNodeStarted { node_id, tool_id, attempt, wave } => RunEvent::PlanNodeStarted { node_id: node_id@, tool_id: tool_id@, attempt: *attempt, wave: *wave },
            RunEvent::PlanNodeCompleted { node_id, tool_id, attempt, wave, ok, outcome, duration_ms } => RunEvent::PlanNodeCompleted { node_id: node_id@, tool_id: tool_id@, attempt: *attempt, wave: *wave, ok: *ok, outcome: *outcome, duration_ms: *duration_ms },
            RunEvent::ToolEffectReused { call_id, tool_id } => RunEvent::ToolEffectReused { call_id: call_id@, tool_id: tool_id@ },
            RunEvent::StrategyUsage { strategy, model_calls, planning_model_calls, repair_model_calls, recovery_model_calls, final_synthesis_model_calls, reactive_model_calls, tool_calls, tool_issued, tool_reused, tool_rejected, tool_pre_dispatch_aborted, tool_completed, tool_failed, tool_cancelled, duration_ms } => RunEvent::StrategyUsage { strategy: *strategy, model_calls: *model_calls, planning_model_calls: *planning_model_calls, repair_model_calls: *repair_model_calls, recovery_model_calls: *recovery_model_calls, final_synthesis_model_calls: *final_synthesis_model_calls, reactive_model_calls: *reactive_model_calls, tool_calls: *tool_calls, tool_issued: *tool_issued, tool_reused: *tool_reused, tool_rejected: *tool_rejected, tool_pre_dispatch_aborted: *tool_pre_dispatch_aborted, tool_completed: *tool_completed, tool_failed: *tool_failed, tool_cancelled: *tool_cancelled, duration_ms: *duration_ms },
            RunEvent::ToolRejected { call_id, tool_id, reason } => RunEvent::ToolRejected { call_id: call_id@, tool_id: tool_id@, reason: reason@ },
            RunEvent::PolicyDecided { call_id, decision } => RunEvent::PolicyDecided { call_id: call_id@, decision: decision@ },
            RunEvent::ApprovalRequested { call_id, tool_id } => RunEvent::ApprovalRequested { call_id: call_id@, tool_id: tool_id@ },
            RunEvent::ToolCompleted { call_id, tool_id, ok } => RunEvent::ToolCompleted { call_id: call_id@, tool_id: tool_id@, ok: *ok },
            RunEvent::Completed { status } => RunEvent::Completed { status: *status },
        }
    }
}

/// The views of emitted events.
pub open spec fn events_view(events: Seq<RunEvent>) -> Seq<RunEvent<Seq<char>>> {
    events.map_values(|event: RunEvent| event@)
}

impl RunEvent {
    /// A copy of the event.
    pub fn duplicate(&self) -> (result: RunEvent)
        ensures
            result == *self,
    {
        match self {
            RunEvent::Started { run_id, trace_id } => RunEvent::Started { run_id: run_id.clone(), trace_id: trace_id.clone() },
            RunEvent::ModelRequested { call_number, model } => RunEvent::ModelRequested { call_number: *call_number, model: model.clone() },
            RunEvent::ModelRetrying { next_call_number, reason } => RunEvent::ModelRetrying { next_call_number: *next_call_number, reason: reason.clone() },
            RunEvent::ModelResponded { call_number } => RunEvent::ModelResponded { call_number: *call_number },
            RunEvent::ToolDiscoveryCompleted { caller, outcome, selection, candidate_count, selected_count, deferred_candidate_count, effective_tool_count_budget, effective_schema_byte_budget, selected_schema_bytes, expansion_count, expansion_limit, catalog_exceeded_budget, duration_ms } => RunEvent::ToolDiscoveryCompleted { caller: *caller, outcome: *outcome, selection: *selection, candidate_count: *candidate_count, selected_count: *selected_count, deferred_candidate_count: *deferred_candidate_count, effective_tool_count_budget: *effective_tool_count_budget, effective_schema_byte_budget: *effective_schema_byte_budget, selected_schema_bytes: *selected_schema_bytes, expansion_count: *expansion_count, expansion_limit: *expansion_limit, catalog_exceeded_budget: *catalog_exceeded_budget, duration_ms: *duration_ms },
            RunEvent::StrategySelected { requested, selected, reason } => RunEvent::StrategySelected { requested: *requested, selected: *selected, reason: *reason },
            RunEvent::StrategyFallback { from, to, reason } => RunEvent::StrategyFallback { from: *from, to: *to, reason: *reason },
            RunEvent::PlanLifecycle { phase, attempt, outcome } => RunEvent::PlanLifecycle { phase: *phase, attempt: *attempt, outcome: *outcome },
            RunEvent::PlanValidated { attempt, node_count } => RunEvent::PlanValidated { attempt: *attempt, node_count: *node_count },
            RunEvent::ProgramLifecycle { attempt, outcome } => RunEvent::ProgramLifecycle { attempt: *attempt, outcome: *outcome },
            RunEvent::ProgramValidated { attempt, statement_count, instruction_count } => RunEvent::ProgramValidated { attempt: *attempt, statement_count: *statement_count, instruction_count: *instruction_count },
            RunEvent::ProgramExecutionCompleted { attempt, fuel_used, scheduling_slices, tool_yields, branches, loop_iterations, fanout_batches, partial_failures, peak_accounted_bytes, duration_ms } => RunEvent::ProgramExecutionCompleted { attempt: *attempt, fuel_used: *fuel_used, scheduling_slices: *scheduling_slices, tool_yields: *tool_yields, branches: *branches, loop_iterations: *loop_iterations, fanout_batches: *fanout_batches, partial_failures: *partial_failures, peak_accounted_bytes: *peak_accounted_bytes, duration_ms: *duration_ms },
            RunEvent::PlanNodeStarted { node_id, tool_id, attempt, wave } => RunEvent::PlanNodeStarted { node_id: node_id.clone(), tool_id: tool_id.clone(), attempt: *attempt, wave: *wave },
            RunEvent::PlanNodeCompleted { node_id, tool_id, attempt, wave, ok, outcome, duration_ms } => RunEvent::PlanNodeCompleted { node_id: node_id.clone(), tool_id: tool_id.clone(), attempt: *attempt, wave: *wave, ok: *ok, outcome: *outcome, duration_ms: *duration_ms },
            RunEvent::ToolEffectReused { call_id, tool_id } => RunEvent::ToolEffectReused { call_id: call_id.clone(), tool_id: tool_id.clone() },
            RunEvent::StrategyUsage { strategy, model_calls, planning_model_calls, repair_model_calls, recovery_model_calls, final_synthesis_model_calls, reactive_model_calls, tool_calls, tool_issued, tool_reused, tool_rejected, tool_pre_dispatch_aborted, tool_completed, tool_failed, tool_cancelled, duration_ms } => RunEvent::StrategyUsage { strategy: *strategy, model_calls: *model_calls, planning_model_calls: *planning_model_calls, repair_model_calls: *repair_model_calls, recovery_model_calls: *recovery_model_calls, final_synthesis_model_calls: *final_synthesis_model_calls, reactive_model_calls: *reactive_model_calls, tool_calls: *tool_calls, tool_issued: *tool_issued, tool_reused: *tool_reused, tool_rejected: *tool_rejected, tool_pre_dispatch_aborted: *tool_pre_dispatch_aborted, tool_completed: *tool_completed, tool_failed: *tool_failed, tool_cancelled: *tool_cancelled, duration_ms: *duration_ms },
            RunEvent::ToolRejected { call_id, tool_id, reason } => RunEvent::ToolRejected { call_id: call_id.clone(), tool_id: tool_id.clone(), reason: reason.clone() },
            RunEvent::PolicyDecided { call_id, decision } => RunEvent::PolicyDecided { call_id: call_id.clone(), decision: decision.duplicate() },
            RunEvent::ApprovalRequested { call_id, tool_id } => RunEvent::ApprovalRequested { call_id: call_id.clone(), tool_id: tool_id.clone() },
            RunEvent::ToolCompleted { call_id, tool_id, ok } => RunEvent::ToolCompleted { call_id: call_id.clone(), tool_id: tool_id.clone(), ok: *ok },
            RunEvent::Completed { status } => RunEvent::Completed { status: *status },
        }
    }
}

/// An ordered event emitted during a run.
///
/// `S` is the text: `String` in running code, a sequence of characters in contracts.
#[derive(Clone, Debug, PartialEq, Eq)]
#[non_exhaustive]
pub struct EventRecord<S = String> {
    /// Identifier of the run that emitted the event.
    pub run_id: S,
    /// Unique identity of the execution, independent of an application-visible run ID.
    pub execution_id: S,
    /// Trace identifier associated with the run.
    pub trace_id: S,
    /// Monotonic within one run, starting at one.
    pub sequence: u64,
    /// Milliseconds since the Unix epoch. Never decreases within one emitter.
    pub timestamp_ms: u64,
    /// Event payload.
    pub event: RunEvent<S>,
}

impl View for EventRecord<String> {
    type V = EventRecord<Seq<char>>;

    open spec fn view(&self) -> EventRecord<Seq<char>> {
        EventRecord {
            run_id: self.run_id@,
            execution_id: self.execution_id@,
            trace_id: self.trace_id@,
            sequence: self.sequence,
            timestamp_ms: self.timestamp_ms,
            event: self.event@,
        }
    }
}

/// Whether a character is a lower-case hexadecimal digit.
pub open spec fn lower_hex(character: char) -> bool {
    ('0' <= character <= '9') || ('a' <= character <= 'f')
}

/// Whether a text is a random identifier: thirty-two hexadecimal digits in groups of eight, four,
/// four, four and twelve, with the digits that mark it as random.
pub open spec fn uuid_text(text: Seq<char>) -> bool {
    &&& text.len() == 36
    &&& forall|i: int|
        0 <= i < 36 ==> if i == 8 || i == 13 || i == 18 || i == 23 {
            #[trigger] text[i] == '-'
        } else {
            lower_hex(text[i])
        }
    &&& text[14] == '4'
    &&& text[19] == '8' || text[19] == '9' || text[19] == 'a' || text[19] == 'b'
}

/// `uuid::Uuid::new_v4`, as text: a random identifier in its usual form. That two of them differ
/// is a matter of chance, and not stated.
#[verifier::external_body]
pub(crate) fn new_identifier() -> (result: String)
    ensures
        uuid_text(result@),
{
    uuid::Uuid::new_v4().to_string()
}

/// The record of an event under an execution identity.
pub open spec fn record_of(
    run_id: Seq<char>,
    execution_id: Seq<char>,
    trace_id: Seq<char>,
    sequence: u64,
    timestamp_ms: u64,
    event: RunEvent<Seq<char>>,
) -> EventRecord<Seq<char>> {
    EventRecord { run_id, execution_id, trace_id, sequence, timestamp_ms, event }
}

/// Two records that are made alike differ in their execution identity alone, and there wherever
/// the identifiers that were drawn for them differ, whatever the run is called.
pub proof fn executions_stay_apart(
    run_id: Seq<char>,
    trace_id: Seq<char>,
    sequence: u64,
    timestamp_ms: u64,
    event: RunEvent<Seq<char>>,
    first: Seq<char>,
    second: Seq<char>,
)
    requires
        first != second,
    ensures
        ({
            let one = record_of(run_id, first, trace_id, sequence, timestamp_ms, event);
            let other = record_of(run_id, second, trace_id, sequence, timestamp_ms, event);
            &&& one.execution_id != other.execution_id
            &&& one == (EventRecord { execution_id: first, ..other })
            &&& one.run_id == run_id && other.run_id == run_id
            &&& one.trace_id == trace_id && other.trace_id == trace_id
            &&& one.sequence == sequence && other.sequence == sequence
            &&& one.timestamp_ms == timestamp_ms && other.timestamp_ms == timestamp_ms
            &&& one.event == event && other.event == event
        }),
{
}

impl EventRecord {
    /// Creates one ordered event record for a run and trace, under an execution identity.
    pub fn under(
        run_id: &str,
        execution_id: &str,
        trace_id: &str,
        sequence: u64,
        timestamp_ms: u64,
        event: RunEvent,
    ) -> (result: EventRecord)
        ensures
            result@ == record_of(
                run_id@,
                execution_id@,
                trace_id@,
                sequence,
                timestamp_ms,
                event@,
            ),
    {
        EventRecord {
            run_id: run_id.to_owned(),
            execution_id: execution_id.to_owned(),
            trace_id: trace_id.to_owned(),
            sequence,
            timestamp_ms,
            event,
        }
    }

    /// Creates one ordered event record for a run and trace, with a fresh execution identity.
    pub fn new(
        run_id: &str,
        trace_id: &str,
        sequence: u64,
        timestamp_ms: u64,
        event: RunEvent,
    ) -> (result: EventRecord)
        ensures
            result@ == record_of(
                run_id@,
                result@.execution_id,
                trace_id@,
                sequence,
                timestamp_ms,
                event@,
            ),
            uuid_text(result@.execution_id),
    {
        let execution_id = new_identifier();
        EventRecord::under(run_id, execution_id.as_str(), trace_id, sequence, timestamp_ms, event)
    }

    /// A copy of the record.
    pub fn duplicate(&self) -> (result: EventRecord)
        ensures
            result == *self,
    {
        EventRecord {
            run_id: self.run_id.clone(),
            execution_id: self.execution_id.clone(),
            trace_id: self.trace_id.clone(),
            sequence: self.sequence,
            timestamp_ms: self.timestamp_ms,
            event: self.event.duplicate(),
        }
    }
}

/// Receives ordered events from an agent runner.
pub trait EventSink {
    /// Records one emitted event.
    fn emit(&mut self, record: EventRecord);
}

/// In-memory event collector.
pub struct InMemoryEventSink {
    events: Vec<EventRecord>,
}

impl InMemoryEventSink {
    /// The events collected so far.
    pub closed spec fn collected(&self) -> Seq<EventRecord> {
        self.events@
    }

    /// A collector without events.
    pub fn new() -> (result: InMemoryEventSink)
        ensures
            result.collected() == Seq::<EventRecord>::empty(),
    {
        InMemoryEventSink { events: Vec::new() }
    }

    /// Returns a snapshot of all events collected so far.
    pub fn events(&self) -> (result: Vec<EventRecord>)
        ensures
            result@ == self.collected(),
    {
        let mut result: Vec<EventRecord> = Vec::new();
        let mut i: usize = 0;
        while i < self.events.len()
            invariant
                i <= self.events@.len(),
                result@ =~= self.events@.take(i as int),
            decreases self.events@.len() - i,
        {
            result.push(self.events[i].duplicate());
            i += 1;
        }
        assert(result@ =~= self.events@);
        result
    }
}

impl EventSink for InMemoryEventSink {
    fn emit(&mut self, record: EventRecord)
        ensures
            final(self).collected() == old(self).collected().push(record),
    {
        self.events.push(record);
    }
}

/// Numbers and stamps the events of one run.
pub struct EventEmitter {
    run_id: String,
    execution_id: String,
    trace_id: String,
    sequence: u64,
    last_timestamp_ms: u64,
}

impl EventEmitter {
    /// The number of the last record.
    pub closed spec fn last_sequence(&self) -> u64 {
        self.sequence
    }

    /// The time of the last record.
    pub closed spec fn last_time(&self) -> u64 {
        self.last_timestamp_ms
    }

    /// The run that the records name.
    pub closed spec fn run(&self) -> Seq<char> {
        self.run_id@
    }

    /// The trace that the records name.
    pub closed spec fn trace(&self) -> Seq<char> {
        self.trace_id@
    }

    /// The execution that the records name.
    pub closed spec fn execution(&self) -> Seq<char> {
        self.execution_id@
    }

    /// An emitter with a fresh execution identity.
    pub fn new(run_id: &str, trace_id: &str) -> (result: EventEmitter)
        ensures
            result.run() == run_id@,
            result.trace() == trace_id@,
            uuid_text(result.execution()),
            result.last_sequence() == 0,
            result.last_time() == 0,
    {
        EventEmitter {
            run_id: run_id.to_owned(),
            execution_id: new_identifier(),
            trace_id: trace_id.to_owned(),
            sequence: 0,
            last_timestamp_ms: 0,
        }
    }

    /// Makes the next record: one number higher than the last, and never earlier.
    pub fn emit(&mut self, event: RunEvent, now_ms: u64) -> (record: EventRecord)
        ensures
            record@ == (EventRecord {
                run_id: old(self).run(),
                execution_id: old(self).execution(),
                trace_id: old(self).trace(),
                sequence: if old(self).last_sequence() == u64::MAX {
                    u64::MAX
                } else {
                    (old(self).last_sequence() + 1) as u64
                },
                timestamp_ms: if now_ms > old(self).last_time() {
                    now_ms
                } else {
                    old(self).last_time()
                },
                event: event@,
            }),
            final(self).last_sequence() == record.sequence,
            final(self).last_time() == record.timestamp_ms,
            final(self).run() == old(self).run(),
            final(self).trace() == old(self).trace(),
            final(self).execution() == old(self).execution(),
    {
        self.sequence = self.sequence.saturating_add(1);
        let timestamp_ms: u64 = if now_ms > self.last_timestamp_ms {
            now_ms
        } else {
            self.last_timestamp_ms
        };
        self.last_timestamp_ms = timestamp_ms;
        EventRecord {
            run_id: self.run_id.clone(),
            execution_id: self.execution_id.clone(),
            trace_id: self.trace_id.clone(),
            sequence: self.sequence,
            timestamp_ms,
            event,
        }
    }
}

} // verus!
