use llama_harness_core::admission::{
    mark_dispatched, mark_uncertain, record_execution, Admission, BrokerExecution, ToolBroker,
};
use llama_harness_core::agent::{AgentDefinition, RunRequest, RunStatus, RunStrategy};
use llama_harness_core::batch_run::BatchRun;
use llama_harness_core::catalog::RegistrationBounds;
use llama_harness_core::direct::{DirectAction, DirectEvent, DirectRun};
use llama_harness_core::discovery::ToolDiscoveryLimits;
use llama_harness_core::error::HarnessError;
use llama_harness_core::event::{RunEvent, StrategyFallbackReason, StrategySelectionReason};
use llama_harness_core::json::Json;
use llama_harness_core::ledger::{RunLedger, RunRecord};
use llama_harness_core::lifecycle::{
    announce_direct, begin_run, begin_strategy, discovery_limit_error, end_early, finish_direct,
    finish_strategy, identify, preflight_terminal_result, DirectStrategyEvents,
    SpeculationEligibility,
};
use llama_harness_core::mock::{final_response, tool_response, MockModelProvider, MockStep};
use llama_harness_core::model::{
    ModelCapabilities, ModelResponse, ProviderCapabilityLimits,
};
use llama_harness_core::plan::{
    ExecutionPlan, PlanNode, ResultBinding, ResultRef,
};
use llama_harness_core::plan_model::{PlanAction, PlanContext, PlanEvent};
use llama_harness_core::plan_preflight::{PlanBounds, PlannerEnvelope};
use llama_harness_core::planned::PlannedRun;
use llama_harness_core::planned_model::PlannedAction;
use llama_harness_core::policy::{PolicyDecision, SafeDefaultPolicy};
use llama_harness_core::prepared::ModelRequest;
use llama_harness_core::program_batch::{BatchAction, BatchCall, BatchContext, BatchEvent};
use llama_harness_core::program_run::{
    CompiledProgram, ProgramAction, ProgramContext, ProgramEvent, ProgramMetrics, ProgramRun,
    ProgramStep,
};
use llama_harness_core::program_schema::SandboxLimits;
use llama_harness_core::programmatic::ProgrammaticTranscript;
use llama_harness_core::reactive::{ReactiveAction, ReactiveEvent, ReactiveRun, TurnContext};
use llama_harness_core::registry::ToolScope;
use llama_harness_core::request::ProgrammaticLimits;
use llama_harness_core::routing::{
    continue_directly, open_direct, open_planned, open_programmatic, preflight_request,
    prepare_plan_scope, route_run, Opening, PlanningReadiness, Route,
};
use llama_harness_core::scope_selection::{ToolDiscoveryStats, ToolScopeSelection};
use llama_harness_core::speculation::{
    SpeculationConfig, SpeculationController, SpeculativeResolution,
};
use llama_harness_core::speculative_call::SpeculativeLease;
use llama_harness_core::tool::{ToolCall, ToolCaller, ToolDefinition, ToolResult};
use llama_harness_core::tool_registry::ToolRegistry;

fn bounds() -> RegistrationBounds {
    RegistrationBounds {
        max_id_bytes: 128,
        max_name_bytes: 256,
        max_safe_metadata_bytes: 4096,
    }
}

fn plan_bounds() -> PlanBounds {
    PlanBounds { max_nodes: 32, max_argument_bytes: 65_536 }
}

fn ceilings() -> ProgrammaticLimits {
    ProgrammaticLimits { max_program_bytes: 65_536, max_fanout_concurrency: 8 }
}

fn reader(id: &str) -> ToolDefinition {
    let mut definition = ToolDefinition::new(
        id,
        id,
        "test",
        Json::parse(r#"{"type":"object"}"#).unwrap(),
    )
    .with_allowed_callers(vec![
        ToolCaller::Direct,
        ToolCaller::DeclarativePlan,
        ToolCaller::Programmatic,
    ]);
    definition.idempotent = true;
    definition.read_only = true;
    definition.parallel_safe = true;
    definition
}

fn writer(id: &str) -> ToolDefinition {
    let mut definition = reader(id);
    definition.read_only = false;
    definition.parallel_safe = false;
    definition
}

fn registry(tools: Vec<ToolDefinition>) -> ToolRegistry {
    let mut registry = ToolRegistry::new(bounds());
    for tool in tools {
        registry.register(tool, 100).unwrap();
    }
    registry
}

fn request(tools: &[&str]) -> RunRequest {
    let mut agent = AgentDefinition::new("agent", "Agent", "1", "mock-model");
    agent.tool_allowlist = tools.iter().map(|tool| (*tool).to_owned()).collect();
    RunRequest::new(agent, "hello").with_run_id("run").with_trace_id("trace")
}

fn scope(
    registry: &mut ToolRegistry,
    request: &RunRequest,
    caller: ToolCaller,
) -> (ToolScope, ToolDiscoveryStats) {
    registry
        .select_scope(
            &request.input,
            &request.agent.tool_allowlist,
            caller,
            ToolDiscoveryLimits::new(),
            &ProviderCapabilityLimits::new(),
        )
        .unwrap()
}

fn planning_capabilities() -> ModelCapabilities {
    ModelCapabilities::new(true, false, true)
        .with_structured_plans(true)
        .with_parallel_tool_calls(true)
        .with_limits(
            ProviderCapabilityLimits::new()
                .with_max_plan_bytes(65_536)
                .with_max_plan_nodes(32)
                .with_max_parallel_tool_calls(4),
        )
}

fn echo(prepared_arguments: &Json) -> ToolResult {
    ToolResult::success(Json::Object(vec![(
        "echo".to_owned(),
        prepared_arguments.duplicate(),
    )]))
}

fn policy(registry: &ToolRegistry, tool_id: &str) -> PolicyDecision {
    let definition = &registry.get(tool_id).unwrap().definition;
    if definition.read_only {
        SafeDefaultPolicy.decide(definition)
    } else {
        PolicyDecision::RequireApproval { reason: "ask".to_owned() }
    }
}

fn run_direct(
    mut registry: ToolRegistry,
    request: &RunRequest,
    steps: Vec<MockStep>,
) -> (RunLedger, Vec<String>) {
    let (scope, stats) = scope(&mut registry, request, ToolCaller::Direct);
    let broker = ToolBroker::new(registry.tools(), &scope);
    let mut provider = MockModelProvider::scripted(steps);
    let (run_id, trace_id) = identify(request);
    let mut ledger = begin_run(request, &run_id, &trace_id);
    let choice = DirectStrategyEvents {
        requested: RunStrategy::Direct,
        reason: StrategySelectionReason::Forced,
        fallback: None,
        fallback_from: None,
        prior_discovery: None,
    };
    announce_direct(&mut ledger, Some(stats), Some(choice), true);
    let mut executed = Vec::new();
    let mut run = DirectRun::new(ledger, request.initial_messages(), 0);
    let mut action = DirectAction::Check;
    loop {
        let event = match action {
            DirectAction::Check => DirectEvent::Checked(false, 10),
            DirectAction::CallModel { .. } => DirectEvent::Responded(
                provider.complete(ModelRequest::new(&request.model()), false),
            ),
            DirectAction::AskPolicy => {
                let tool_id = run.prepared().unwrap().call.tool_id.clone();
                DirectEvent::Decided(Ok(policy(&registry, &tool_id)))
            }
            DirectAction::AskApproval => DirectEvent::Approved(Ok(true)),
            DirectAction::Dispatch => DirectEvent::Dispatched,
            DirectAction::Execute => {
                let prepared = run.prepared().unwrap();
                executed.push(prepared.call.tool_id.clone());
                DirectEvent::Returned(Ok(echo(&prepared.arguments)))
            }
            DirectAction::Finish => break,
            DirectAction::Misplaced => panic!("misplaced step"),
        };
        action = run.step(&broker, request, None, event);
    }
    let model_calls = run.model_calls();
    let mut ledger = run.into_ledger();
    finish_direct(&mut ledger, model_calls, None, true, 7);
    (ledger, executed)
}

fn usage(ledger: &RunLedger) -> Vec<u64> {
    for event in &ledger.events {
        if let RunEvent::StrategyUsage {
            model_calls,
            planning_model_calls,
            repair_model_calls,
            recovery_model_calls,
            final_synthesis_model_calls,
            reactive_model_calls,
            tool_calls,
            tool_issued,
            tool_reused,
            tool_rejected,
            tool_pre_dispatch_aborted,
            tool_completed,
            tool_failed,
            tool_cancelled,
            duration_ms,
            ..
        } = event
        {
            let all = vec![
                *model_calls as u64,
                *planning_model_calls as u64,
                *repair_model_calls as u64,
                *recovery_model_calls as u64,
                *final_synthesis_model_calls as u64,
                *reactive_model_calls as u64,
                *tool_calls as u64,
                *tool_issued as u64,
                *tool_reused as u64,
                *tool_rejected as u64,
                *tool_pre_dispatch_aborted as u64,
                *tool_completed as u64,
                *tool_failed as u64,
                *tool_cancelled as u64,
                *duration_ms,
            ];
            assert_eq!(all[0], all[1] + all[2] + all[3] + all[4] + all[5]);
            assert_eq!(all[6], all[7] + all[8] + all[9] + all[10]);
            assert_eq!(all[7], all[11] + all[12] + all[13]);
            return all;
        }
    }
    panic!("no usage was reported")
}

#[test]
fn direct_runs_call_tools_and_answer() {
    let (ledger, executed) = run_direct(
        registry(vec![reader("read")]),
        &request(&["read"]),
        vec![
            tool_response(ToolCall::new("1", "read", "{\"q\":1}")),
            final_response("done"),
        ],
    );
    assert_eq!(ledger.result.status, RunStatus::Completed);
    assert_eq!(ledger.result.final_output.as_deref(), Some("done"));
    assert_eq!(executed, vec!["read".to_owned()]);
    let counted = usage(&ledger);
    assert_eq!(counted[0], 2);
    assert_eq!(counted[7], 1);
    assert_eq!(counted[14], 7);
    assert!(matches!(ledger.events[0], RunEvent::Started { .. }));
    assert!(matches!(
        ledger.events[ledger.events.len() - 1],
        RunEvent::Completed { status: RunStatus::Completed }
    ));
}

#[test]
fn direct_runs_stop_at_their_limits() {
    let mut limited = request(&["read"]);
    limited.agent.limits.max_identical_tool_calls = 1;
    let (ledger, executed) = run_direct(
        registry(vec![reader("read")]),
        &limited,
        vec![
            tool_response(ToolCall::new("1", "read", "{}")),
            tool_response(ToolCall::new("2", "read", "{}")),
        ],
    );
    assert!(ledger.result.repeated_tool_call_limit_reached);
    assert_eq!(ledger.result.status, RunStatus::LimitReached);
    assert_eq!(executed.len(), 1);

    let (ledger, executed) = run_direct(
        registry(vec![writer("write")]),
        &request(&["write"]),
        vec![
            tool_response(ToolCall::new("1", "write", "{}")),
            final_response("done"),
        ],
    );
    assert_eq!(executed.len(), 1);
    assert!(ledger.result.approvals[0].granted);
    let decision =
        SafeDefaultPolicy.decide(&registry(vec![writer("write")]).get("write").unwrap().definition);
    assert!(matches!(decision, PolicyDecision::Deny { .. }));
}

fn run_planned(
    mut registry: ToolRegistry,
    request: &RunRequest,
    strategy: RunStrategy,
    mut envelopes: Vec<PlannerEnvelope>,
    steps: Vec<MockStep>,
) -> (RunLedger, Vec<String>) {
    let capabilities = planning_capabilities();
    let (plan_scope, plan_stats) = match prepare_plan_scope(
        &mut registry,
        request,
        &capabilities,
        ToolDiscoveryLimits::new(),
        &|| Ok(()),
    ) {
        Ok(PlanningReadiness::Ready(scope, stats)) => (scope, stats),
        _ => panic!("planning should be ready"),
    };
    let (direct_scope, direct_stats) = scope(&mut registry, request, ToolCaller::Direct);
    let scopes = vec![
        (ToolCaller::DeclarativePlan, plan_stats),
        (ToolCaller::Direct, direct_stats),
    ];
    let mut provider = MockModelProvider::scripted(steps);
    let (run_id, trace_id) = identify(request);
    let core = begin_strategy(request, &run_id, &trace_id, strategy, &scopes);
    let tools = registry.tools();
    let context = PlanContext {
        broker: ToolBroker::new(tools, &plan_scope),
        request,
        capabilities,
        bounds: plan_bounds(),
        deadline: None,
    };
    let mut executed = Vec::new();
    let (mut planned, mut action) =
        PlannedRun::begin(core, strategy, &request.agent.limits, None, 1);
    let core = loop {
        action = match action {
            PlannedAction::CallModel { .. } => {
                let outcome = provider.complete(ModelRequest::new(&request.model()), false);
                let parsed = if envelopes.is_empty() {
                    None
                } else {
                    Some(envelopes.remove(0))
                };
                planned.responded(&context, outcome, parsed, 2)
            }
            PlannedAction::ExecutePlan => {
                let (mut plan, mut next) = planned.start_execution(&context).unwrap();
                let mut results: Vec<ToolResult> = Vec::new();
                while next != PlanAction::Finish {
                    let event = match next {
                        PlanAction::Check => PlanEvent::Checked(false, 3),
                        PlanAction::AskPolicy => {
                            let tool_id = plan.prepared().unwrap().call.tool_id.clone();
                            PlanEvent::Decided(Ok(policy(&registry, &tool_id)), 3)
                        }
                        PlanAction::AskApproval => PlanEvent::Approved(Ok(true), 3),
                        PlanAction::ExecuteWave => {
                            let wave = plan.executable().clone();
                            for index in wave {
                                let prepared = plan.dispatched_call(index).unwrap();
                                executed.push(prepared.call.tool_id.clone());
                                results.push(echo(&prepared.arguments));
                            }
                            PlanEvent::Returned(Ok(results.remove(0)), 4)
                        }
                        PlanAction::AwaitResult => {
                            PlanEvent::Returned(Ok(results.remove(0)), 4)
                        }
                        PlanAction::Continue => PlanEvent::Continued,
                        PlanAction::Finish => unreachable!(),
                        PlanAction::Misplaced => panic!("misplaced plan step"),
                    };
                    next = plan.step(&context, event);
                }
                let (record, execution) = plan.into_parts();
                planned.executed(&context, record, execution, 5)
            }
            PlannedAction::React(phase) => {
                let turns = TurnContext {
                    broker: ToolBroker::new(tools, &direct_scope),
                    request,
                    deadline: None,
                };
                let (mut reactive, mut next) =
                    ReactiveRun::begin(&turns, planned.into_core(), phase, 6);
                while next != ReactiveAction::Finish {
                    let event = match next {
                        ReactiveAction::CallModel { .. } => ReactiveEvent::Responded(
                            provider.complete(ModelRequest::new(&request.model()), false),
                            7,
                        ),
                        ReactiveAction::Check => ReactiveEvent::Checked(false, 7),
                        ReactiveAction::AskPolicy => {
                            let tool_id = reactive.prepared().unwrap().call.tool_id.clone();
                            ReactiveEvent::Decided(Ok(policy(&registry, &tool_id)), 7)
                        }
                        ReactiveAction::AskApproval => ReactiveEvent::Approved(Ok(true), 7),
                        ReactiveAction::Execute => {
                            let prepared = reactive.prepared().unwrap();
                            executed.push(prepared.call.tool_id.clone());
                            ReactiveEvent::Returned(Ok(echo(&prepared.arguments)), 7)
                        }
                        ReactiveAction::Finish => unreachable!(),
                        ReactiveAction::Misplaced => panic!("misplaced turn"),
                    };
                    next = reactive.step(&turns, event);
                }
                break reactive.into_core();
            }
            PlannedAction::Finish => break planned.into_core(),
            PlannedAction::Misplaced => panic!("misplaced planning step"),
        };
    };
    (finish_strategy(core, 9), executed)
}

fn two_step_plan() -> ExecutionPlan {
    ExecutionPlan::new(vec![
        PlanNode::new("first", "read", Json::parse(r#"{"q":1}"#).unwrap()),
        PlanNode::new("second", "list", Json::parse(r#"{"from":null}"#).unwrap())
            .with_dependency("first")
            .with_result_binding(ResultBinding::new(
                "/from",
                ResultRef::new("first", "/echo/q"),
            )),
    ])
}

#[test]
fn declarative_plans_run_their_nodes_in_order() {
    let (ledger, executed) = run_planned(
        registry(vec![reader("read"), reader("list")]),
        &request(&["read", "list"]),
        RunStrategy::DeclarativePlan,
        vec![PlannerEnvelope::DeclarativePlan { plan: two_step_plan() }],
        vec![final_response("{}"), final_response("done")],
    );
    assert_eq!(executed, vec!["read".to_owned(), "list".to_owned()]);
    assert_eq!(ledger.result.status, RunStatus::Completed);
    assert_eq!(ledger.result.final_output.as_deref(), Some("done"));
    let counted = usage(&ledger);
    assert_eq!(counted[1], 1);
    assert_eq!(counted[4], 1);
    assert_eq!(counted[11], 2);
    let bound = ledger
        .result
        .tool_calls
        .iter()
        .any(|call| call.arguments_json == r#"{"from":1}"#);
    assert!(bound);
}

#[test]
fn plans_read_before_they_change_anything() {
    let plan = ExecutionPlan::new(vec![
        PlanNode::new("change", "write", Json::parse(r#"{"v":1}"#).unwrap()),
        PlanNode::new("look", "read", Json::parse(r#"{"q":1}"#).unwrap()),
    ]);
    let (ledger, executed) = run_planned(
        registry(vec![reader("read"), writer("write")]),
        &request(&["read", "write"]),
        RunStrategy::DeclarativePlan,
        vec![PlannerEnvelope::DeclarativePlan { plan }],
        vec![final_response("{}"), final_response("done")],
    );
    assert_eq!(executed, vec!["read".to_owned(), "write".to_owned()]);
    assert_eq!(ledger.result.status, RunStatus::Completed);
    assert!(ledger.result.approvals[0].granted);
    assert_eq!(usage(&ledger)[11], 2);
}

#[test]
fn calls_of_one_key_run_in_different_waves() {
    let mut first = reader("read");
    first.concurrency_key = Some("disk".to_owned());
    let mut second = reader("list");
    second.concurrency_key = Some("disk".to_owned());
    let plan = ExecutionPlan::new(vec![
        PlanNode::new("a", "read", Json::parse("{}").unwrap()),
        PlanNode::new("b", "list", Json::parse("{}").unwrap()),
        PlanNode::new("c", "scan", Json::parse("{}").unwrap()),
    ]);
    let (ledger, executed) = run_planned(
        registry(vec![first, second, reader("scan")]),
        &request(&["read", "list", "scan"]),
        RunStrategy::DeclarativePlan,
        vec![PlannerEnvelope::DeclarativePlan { plan }],
        vec![final_response("{}"), final_response("done")],
    );
    assert_eq!(executed.len(), 3);
    let mut waves = Vec::new();
    for event in &ledger.events {
        if let RunEvent::PlanNodeStarted { tool_id, wave, .. } = event {
            waves.push((tool_id.clone(), *wave));
        }
    }
    assert_eq!(
        waves,
        vec![
            ("read".to_owned(), 1),
            ("scan".to_owned(), 1),
            ("list".to_owned(), 2)
        ]
    );
}

fn propose(
    tools: &ToolRegistry,
    request: &RunRequest,
    ledger: &mut RunLedger,
    id: &str,
) -> Result<Admission, HarnessError> {
    let scope = ToolScope { caller: ToolCaller::Direct, tool_ids: vec!["write".to_owned()] };
    ToolBroker::new(tools.tools(), &scope).prepare(
        request,
        ledger,
        ToolCall::new(id, "write", "{}"),
        ToolCaller::Direct,
        false,
        false,
        None,
    )
}

#[test]
fn effects_are_reused_or_never_replayed() {
    let tools = registry(vec![writer("write")]);
    let run = request(&["write"]);
    let mut ledger = begin_run(&run, "run", "trace");
    ledger.broker.enable_effect_reuse();
    let prepared = match propose(&tools, &run, &mut ledger, "1") {
        Ok(Admission::Authorize(prepared)) => prepared,
        _ => panic!("a new call asks for authorization"),
    };
    mark_dispatched(&mut ledger, &prepared);
    assert!(!ledger.broker.recovery_is_safe());
    assert_eq!(
        propose(&tools, &run, &mut ledger, "2").err(),
        Some(HarnessError::Tool(
            "state-changing tool outcome is uncertain; implicit replay is prohibited".to_owned()
        ))
    );
    let execution = BrokerExecution {
        result: ToolResult::success(Json::Bool(true)),
        validation_error: None,
    };
    record_execution(&mut ledger, &prepared, &execution);
    assert!(ledger.broker.recovery_is_safe());
    match propose(&tools, &run, &mut ledger, "3") {
        Ok(Admission::Reused(result)) => assert_eq!(result.output, Json::Bool(true)),
        _ => panic!("a committed effect answers an identical call"),
    }
    mark_uncertain(&mut ledger, &prepared);
    assert!(propose(&tools, &run, &mut ledger, "4").is_err());
}

#[test]
fn the_first_terminal_error_stays() {
    let run = request(&[]);
    let mut record = RunRecord { ledger: begin_run(&run, "run", "trace"), terminal: false };
    record.terminate(&HarnessError::TimedOut("late".to_owned()));
    record.terminate(&HarnessError::Cancelled);
    assert!(record.terminal);
    assert_eq!(record.ledger.result.errors[0].code, "timed_out");
    assert_eq!(record.ledger.result.status, RunStatus::Failed);
}

#[test]
fn leases_settle_once() {
    let mut controller = SpeculationController::new(SpeculationConfig::default());
    controller.register_tool("read");
    let mut lease = SpeculativeLease::new(&mut controller, "read", 5);
    assert_eq!(controller.metrics("read", 9).in_flight, 1);
    assert_eq!(controller.metrics("read", 9).oldest_in_flight_ms, 4);
    lease.execution_finished(&mut controller, 8);
    lease.settle(&mut controller, SpeculativeResolution::Discarded, 9);
    lease.release(&mut controller, 10);
    let metrics = controller.metrics("read", 10);
    assert_eq!((metrics.issued, metrics.discarded, metrics.cancelled), (1, 1, 0));
    assert_eq!(metrics.in_flight, 0);
    assert_eq!(metrics.execution_duration_ms.sum_ms, 3);
}

#[test]
fn adaptive_runs_may_choose_to_go_directly() {
    let (ledger, executed) = run_planned(
        registry(vec![reader("read")]),
        &request(&["read"]),
        RunStrategy::Adaptive,
        vec![PlannerEnvelope::Direct],
        vec![
            final_response("{}"),
            tool_response(ToolCall::new("1", "read", "{}")),
            final_response("answer"),
        ],
    );
    assert_eq!(executed, vec!["read".to_owned()]);
    assert_eq!(ledger.result.final_output.as_deref(), Some("answer"));
    assert!(ledger.events.iter().any(|event| matches!(
        event,
        RunEvent::StrategySelected {
            requested: RunStrategy::Adaptive,
            selected: RunStrategy::Direct,
            reason: StrategySelectionReason::PlannerSelectedDirect,
        }
    )));
    assert_eq!(usage(&ledger)[5], 2);
}

#[derive(Clone, Copy)]
enum StopKind {
    Cancel,
    Deadline,
}

fn stop_error(stop: StopKind) -> HarnessError {
    match stop {
        StopKind::Cancel => HarnessError::Cancelled,
        StopKind::Deadline => HarnessError::TimedOut("run deadline reached".to_owned()),
    }
}

fn check_stopped_ledger(ledger: &RunLedger, stop: StopKind, usage_strategy: RunStrategy) {
    match stop {
        StopKind::Cancel => {
            assert_eq!(ledger.result.status, RunStatus::Cancelled);
            assert!(ledger.result.cancelled);
            assert_eq!(ledger.result.errors.len(), 1);
            assert_eq!(ledger.result.errors[0].code, "cancelled");
        }
        StopKind::Deadline => {
            assert_eq!(ledger.result.status, RunStatus::Failed);
            assert!(!ledger.result.cancelled);
            assert_eq!(ledger.result.errors.len(), 1);
            assert_eq!(ledger.result.errors[0].code, "timed_out");
        }
    }
    assert!(ledger.result.tool_calls.is_empty());
    assert!(ledger.result.policy_decisions.is_empty());
    assert!(ledger.result.approvals.is_empty());
    assert_eq!(ledger.events.len(), 3);
    assert!(matches!(ledger.events[0], RunEvent::Started { .. }));
    assert_eq!(usage(ledger), vec![0; 15]);
    assert!(matches!(
        ledger.events[1],
        RunEvent::StrategyUsage { strategy, .. } if strategy == usage_strategy
    ));
    assert!(matches!(
        ledger.events[2],
        RunEvent::Completed { status } if status == ledger.result.status
    ));
}

fn run_stopped_planning(strategy: RunStrategy, stop: StopKind) {
    let mut request = request(&[]);
    request.agent.tool_allowlist =
        (0..100).map(|index| format!("discovery.tool.{index:03}")).collect();
    request.input = "discovery.tool.099".to_owned();
    let checked = preflight_request(&request, &ceilings(), &ceilings(), 100, false, 0);
    assert_eq!(checked, Ok(None));
    let error = match route_run(strategy, checked, Err(stop_error(stop))) {
        Route::EndEarly(error) => error,
        _ => panic!("a stopped discovery ends the run"),
    };
    let ledger =
        end_early(&request, "run", "trace", &error, &Vec::new(), strategy, None, 550);
    assert_eq!(ledger.result.duration_ms, 550);
    check_stopped_ledger(&ledger, stop, strategy);
}

fn run_stopped_direct_scope(usage_strategy: RunStrategy, stop: StopKind) {
    let request = request(&["discovery.tool.000"]);
    let ledger = end_early(
        &request,
        "run",
        "trace",
        &stop_error(stop),
        &Vec::new(),
        usage_strategy,
        None,
        550,
    );
    assert_eq!(ledger.result.duration_ms, 550);
    check_stopped_ledger(&ledger, stop, usage_strategy);
}

#[test]
fn discovery_stop_is_a_terminal_result_for_every_runnable_strategy() {
    for stop in [StopKind::Cancel, StopKind::Deadline] {
        run_stopped_direct_scope(RunStrategy::Direct, stop);
        run_stopped_planning(RunStrategy::Adaptive, stop);
        run_stopped_planning(RunStrategy::DeclarativePlan, stop);
    }
}

#[test]
fn planned_strategy_direct_scope_stop_has_the_same_terminal_contract() {
    for strategy in [RunStrategy::Adaptive, RunStrategy::DeclarativePlan] {
        run_stopped_direct_scope(strategy, StopKind::Cancel);
        run_stopped_direct_scope(strategy, StopKind::Deadline);
    }
}

#[test]
fn adaptive_downgrade_discovery_stop_reports_direct_zero_usage() {
    for stop in [StopKind::Cancel, StopKind::Deadline] {
        let mut tools = registry(vec![]);
        let request = request(&["discovery.tool.000"]);
        let readiness = prepare_plan_scope(
            &mut tools,
            &request,
            &ModelCapabilities::new(true, false, true),
            ToolDiscoveryLimits::new().with_max_tools(1),
            &|| Err(HarnessError::Cancelled),
        );
        assert!(matches!(readiness, Ok(PlanningReadiness::Downgrade(_))));
        match route_run(RunStrategy::Adaptive, Ok(None), readiness) {
            Route::Direct(choice) => {
                assert_eq!(choice.requested, RunStrategy::Adaptive);
                assert_eq!(choice.reason, StrategySelectionReason::CapabilityDowngrade);
            }
            _ => panic!("an unfit provider downgrades the run"),
        }
        run_stopped_direct_scope(RunStrategy::Direct, stop);
    }
}

#[test]
fn requests_are_refused_before_any_event() {
    let mut empty = request(&[]);
    empty.input = "  ".to_owned();
    let checked = preflight_request(&empty, &ceilings(), &ceilings(), 100, false, 0);
    assert_eq!(checked, Err(HarnessError::InvalidRequest("input is required".to_owned())));
    assert!(matches!(
        route_run(RunStrategy::Direct, checked, Err(HarnessError::Cancelled)),
        Route::Refuse(HarnessError::InvalidRequest(_))
    ));
    let cancelled = preflight_request(&request(&[]), &ceilings(), &ceilings(), 100, true, 0);
    assert_eq!(cancelled, Err(HarnessError::Cancelled));
    let result =
        preflight_terminal_result(&request(&[]), "run", "trace", &HarnessError::Cancelled);
    assert!(result.cancelled);
    assert_eq!(result.id, "run");
    assert!(matches!(discovery_limit_error(), HarnessError::ResourceLimit(_)));
    let (run_id, trace_id) = identify(&request(&[]));
    assert_eq!((run_id.as_str(), trace_id.as_str()), ("run", "trace"));
    let unnamed = RunRequest::new(AgentDefinition::new("a", "A", "1", "m"), "x");
    let (first, _) = identify(&unnamed);
    let (second, _) = identify(&unnamed);
    assert_eq!(first.len(), 36);
    assert_ne!(first, second);
}

#[test]
fn speculation_is_for_the_first_provider_attempt_only() {
    let mut eligibility = SpeculationEligibility::FirstProviderAttempt;
    assert!(eligibility.begin_provider_attempt());
    assert!(!eligibility.begin_provider_attempt());
    assert_eq!(eligibility, SpeculationEligibility::SequentialOnly);
}

fn sandbox_limits() -> SandboxLimits {
    SandboxLimits {
        max_program_bytes: 65_536,
        max_ast_nodes: 1_024,
        max_loop_iterations: 256,
        max_collection_items: 512,
        max_fanout: 16,
        max_output_bytes: 4_096,
        max_slice_fuel: 1_000,
    }
}

fn run_program(
    registry: &ToolRegistry,
    scope: &ToolScope,
    request: &RunRequest,
    batches: Vec<Vec<BatchCall>>,
    compiled: Vec<Result<CompiledProgram, HarnessError>>,
    fault: Option<HarnessError>,
    steps: Vec<MockStep>,
) -> (RunLedger, Vec<String>, ProgramAction) {
    let mut provider = MockModelProvider::scripted(steps);
    let core = begin_strategy(request, "run", "trace", RunStrategy::Programmatic, &Vec::new());
    let context = ProgramContext { request, limits: sandbox_limits(), deadline: None };
    let tools = registry.tools();
    let batch_context = BatchContext {
        broker: ToolBroker::new(tools, scope),
        request,
        capabilities: planning_capabilities(),
        host_fanout: 4,
        request_fanout: 4,
        deadline: None,
    };
    let mut executed = Vec::new();
    let mut batches = batches;
    let mut compiled = compiled;
    let (mut run, mut action) = ProgramRun::begin(&context, core, true);
    loop {
        let event = match action {
            ProgramAction::Check | ProgramAction::Yield => ProgramEvent::Checked(false, 1),
            ProgramAction::Write { .. } => ProgramEvent::Written(
                provider.complete(ModelRequest::new(&request.model()), false),
                compiled.remove(0),
            ),
            ProgramAction::Start => ProgramEvent::Started(None),
            ProgramAction::Step => {
                if let (true, Some(error)) = (batches.is_empty(), &fault) {
                    ProgramEvent::Stepped(Err(error.clone()), 2)
                } else if batches.is_empty() {
                    ProgramEvent::Stepped(
                        Ok(ProgramStep::Complete(
                            Json::parse("{\"sum\":3}").unwrap(),
                            ProgramMetrics {
                                fuel_used: 10,
                                yields: 1,
                                branches: 0,
                                loop_iterations: 0,
                                fanout_batches: 1,
                                retained_bytes: 100,
                            },
                            2,
                        )),
                        2,
                    )
                } else {
                    ProgramEvent::Stepped(Ok(ProgramStep::Yielded), 2)
                }
            }
            ProgramAction::RunBatch => {
                let calls = batches.remove(0);
                let (mut batch, mut next): (BatchRun, BatchAction) =
                    run.start_batch(&batch_context, calls, true);
                assert!(batch.runs_together());
                let mut results: Vec<ToolResult> = Vec::new();
                while next != BatchAction::Finish {
                    let event = match next {
                        BatchAction::Check => BatchEvent::Checked(false, 3),
                        BatchAction::AskPolicy => {
                            let tool_id = batch.prepared().unwrap().call.tool_id.clone();
                            BatchEvent::Decided(Ok(policy(registry, &tool_id)))
                        }
                        BatchAction::AskApproval => BatchEvent::Approved(Ok(true)),
                        BatchAction::Execute => {
                            for (_, prepared) in batch.dispatched_calls() {
                                executed.push(prepared.call.tool_id.clone());
                                results.push(echo(&prepared.arguments));
                            }
                            BatchEvent::Returned(Ok(results.remove(0)), None)
                        }
                        BatchAction::AwaitResult => {
                            BatchEvent::Returned(Ok(results.remove(0)), None)
                        }
                        BatchAction::Finish => unreachable!(),
                        BatchAction::Misplaced => panic!("misplaced batch step"),
                    };
                    next = batch.step(&batch_context, event);
                }
                let (core, transcript, dispatched, answer) = batch.into_parts();
                action = run.batch_over(core, transcript, dispatched, answer.err());
                continue;
            }
            ProgramAction::Resume => ProgramEvent::Resumed(None),
            ProgramAction::Answer { .. } => ProgramEvent::Answered(
                provider.complete(ModelRequest::new(&request.model()), false),
            ),
            ProgramAction::Finish | ProgramAction::Fallback => break,
            ProgramAction::Misplaced => panic!("misplaced program step"),
        };
        action = run.step(&context, event);
    }
    (finish_strategy(run.into_core(), 11), executed, action)
}

fn batch_call(ordinal: u64) -> BatchCall {
    BatchCall {
        tool_id: "read".to_owned(),
        arguments: Json::parse("{\"q\":1}").unwrap(),
        program_attempt: 1,
        call_site: 0,
        dynamic_ordinal: ordinal,
    }
}

#[test]
fn programs_fan_out_and_are_summarised_without_values() {
    let mut tools = registry(vec![reader("read")]);
    let run = request(&["read"]);
    let (scope, _) = scope(&mut tools, &run, ToolCaller::Programmatic);
    let program = CompiledProgram { statement_count: 3, instruction_count: 9 };
    let (ledger, executed, action) = run_program(
        &tools,
        &scope,
        &run,
        vec![vec![batch_call(0), batch_call(1)]],
        vec![Ok(program)],
        None,
        vec![final_response("{}"), final_response("sum is 3")],
    );
    assert_eq!(action, ProgramAction::Finish);
    assert_eq!(executed.len(), 2);
    assert_eq!(ledger.result.final_output.as_deref(), Some("sum is 3"));
    assert_eq!(usage(&ledger)[11], 2);
    assert!(ledger.events.iter().any(|event| matches!(
        event,
        RunEvent::ProgramValidated { statement_count: 3, instruction_count: 9, .. }
    )));
}

#[test]
fn programs_that_fail_after_a_call_do_not_fall_back() {
    let mut tools = registry(vec![reader("read")]);
    let run = request(&["read"]);
    let (scope, _) = scope(&mut tools, &run, ToolCaller::Programmatic);
    let program = CompiledProgram { statement_count: 1, instruction_count: 1 };
    let (ledger, executed, action) = run_program(
        &tools,
        &scope,
        &run,
        vec![vec![batch_call(0)]],
        vec![Ok(program)],
        Some(HarnessError::InvalidOutput("trap".to_owned())),
        vec![final_response("{}")],
    );
    assert_eq!(action, ProgramAction::Finish);
    assert_eq!(executed.len(), 1);
    assert_eq!(ledger.result.status, RunStatus::Failed);
    assert_eq!(usage(&ledger)[7], 1);
}

#[test]
fn programs_that_never_compile_fall_back() {
    let mut tools = registry(vec![reader("read")]);
    let run = request(&["read"]);
    let (scope, _) = scope(&mut tools, &run, ToolCaller::Programmatic);
    let fault = || Err(HarnessError::InvalidOutput("no program".to_owned()));
    let (_, executed, action) = run_program(
        &tools,
        &scope,
        &run,
        Vec::new(),
        vec![fault(), fault()],
        None,
        vec![final_response("{}"), final_response("{}")],
    );
    assert_eq!(action, ProgramAction::Fallback);
    assert!(executed.is_empty());
}

#[test]
fn batches_run_together_only_where_they_fan_out() {
    let mut tools = registry(vec![reader("read")]);
    let run = request(&["read"]);
    let (scope, _) = scope(&mut tools, &run, ToolCaller::Programmatic);
    let batches = BatchContext {
        broker: ToolBroker::new(tools.tools(), &scope),
        request: &run,
        capabilities: planning_capabilities(),
        host_fanout: 4,
        request_fanout: 4,
        deadline: None,
    };
    for fan_out in [true, false] {
        let calls = vec![batch_call(0), batch_call(1)];
        let core = begin_strategy(&run, "run", "trace", RunStrategy::Programmatic, &Vec::new());
        let transcript = ProgrammaticTranscript::new(&run, &sandbox_limits()).unwrap();
        let (mut batch, action) =
            BatchRun::begin(&batches, core, transcript, calls, fan_out, "nonce");
        assert_eq!(action, BatchAction::Check);
        assert_eq!(batch.runs_together(), fan_out);
        batch.step(&batches, BatchEvent::Checked(false, 3));
        assert_eq!(batch.runs_together(), fan_out);
    }
}

fn stats() -> ToolDiscoveryStats {
    let mut tools = registry(vec![reader("read")]);
    scope(&mut tools, &request(&["read"]), ToolCaller::Direct).1
}

fn found() -> Result<ToolScopeSelection, HarnessError> {
    let mut tools = registry(vec![reader("read")]);
    let (scope, stats) = scope(&mut tools, &request(&["read"]), ToolCaller::Direct);
    Ok(ToolScopeSelection::Selected(scope, stats))
}

#[test]
fn direct_runs_end_where_their_tools_cannot_be_had() {
    let choice = DirectStrategyEvents {
        requested: RunStrategy::Adaptive,
        reason: StrategySelectionReason::CapabilityDowngrade,
        fallback: None,
        fallback_from: None,
        prior_discovery: Some((ToolCaller::DeclarativePlan, stats())),
    };
    assert!(matches!(open_direct(found(), Some(choice)), Ok(Opening::Proceed(_, _))));
    let limited = Ok(ToolScopeSelection::LimitReached(stats(), false));
    match open_direct(limited, Some(choice)) {
        Ok(Opening::End(error, scopes, told)) => {
            assert_eq!(
                error,
                HarnessError::ResourceLimit("tool discovery budget reached".to_owned())
            );
            assert_eq!(scopes.len(), 2);
            assert_eq!(scopes[0].0, ToolCaller::DeclarativePlan);
            assert_eq!(scopes[1].0, ToolCaller::Direct);
            assert_eq!(told, Some(choice));
        }
        _ => panic!("a selection beyond the budget ends the run"),
    }
    match open_direct(Err(HarnessError::Cancelled), Some(choice)) {
        Ok(Opening::End(error, scopes, told)) => {
            assert_eq!(error, HarnessError::Cancelled);
            assert_eq!(scopes.len(), 1);
            assert_eq!(told, None);
        }
        _ => panic!("a stop ends the run"),
    }
    let broken = HarnessError::InvalidRequest("broken".to_owned());
    assert!(matches!(
        open_direct(Err(broken), None),
        Err(HarnessError::InvalidRequest(_))
    ));
}

#[test]
fn planned_runs_end_where_their_tools_cannot_be_had() {
    assert!(matches!(open_planned(found(), stats()), Ok(Opening::Proceed(_, _))));
    let limited = Ok(ToolScopeSelection::LimitReached(stats(), true));
    match open_planned(limited, stats()) {
        Ok(Opening::End(error, scopes, told)) => {
            assert_eq!(error, discovery_limit_error());
            assert_eq!(scopes[0].0, ToolCaller::DeclarativePlan);
            assert_eq!(scopes[1].0, ToolCaller::Direct);
            assert_eq!(told, None);
        }
        _ => panic!("a selection beyond the budget ends the run"),
    }
    match open_planned(Err(HarnessError::TimedOut("late".to_owned())), stats()) {
        Ok(Opening::End(error, scopes, _)) => {
            assert_eq!(error, HarnessError::TimedOut("late".to_owned()));
            assert!(scopes.is_empty());
        }
        _ => panic!("a stop ends the run"),
    }
    let broken = HarnessError::InvalidRequest("broken".to_owned());
    assert!(matches!(
        open_planned(Err(broken), stats()),
        Err(HarnessError::InvalidRequest(_))
    ));
}

#[test]
fn programs_need_their_tools_within_the_budget() {
    assert_eq!(open_programmatic(found()).unwrap().1, stats());
    let limited = Ok(ToolScopeSelection::LimitReached(stats(), false));
    match open_programmatic(limited) {
        Err(HarnessError::ResourceLimit(text)) => {
            assert_eq!(text, "programmatic tool scope exceeds discovery limits");
        }
        _ => panic!("a selection beyond the budget is refused"),
    }
    assert!(matches!(
        open_programmatic(Err(HarnessError::Cancelled)),
        Err(HarnessError::Cancelled)
    ));
}

#[test]
fn programs_that_never_compile_go_on_directly() {
    let begun = || begin_run(&request(&["read"]), "run", "trace");
    let requested = RunStrategy::Programmatic;
    let reason = StrategySelectionReason::Forced;

    let mut ledger = begun();
    let before = ledger.events.len();
    assert!(continue_directly(&mut ledger, found(), requested, reason).unwrap().is_some());
    assert!(matches!(
        ledger.events[before],
        RunEvent::ToolDiscoveryCompleted { caller: ToolCaller::Direct, .. }
    ));
    assert!(ledger.events.iter().any(|event| matches!(
        event,
        RunEvent::StrategyFallback {
            from: RunStrategy::Programmatic,
            to: RunStrategy::Direct,
            reason: StrategyFallbackReason::InvalidProgram,
            ..
        }
    )));

    let mut ledger = begun();
    let limited = Ok(ToolScopeSelection::LimitReached(stats(), false));
    assert!(continue_directly(&mut ledger, limited, requested, reason).unwrap().is_none());
    assert_eq!(ledger.events.len(), before + 1);
    assert_eq!(ledger.result.errors.len(), 1);

    let mut ledger = begun();
    let stopped = Err(HarnessError::Cancelled);
    assert!(continue_directly(&mut ledger, stopped, requested, reason).unwrap().is_none());
    assert!(ledger.result.cancelled);
    assert_eq!(ledger.events.len(), before);

    let mut ledger = begun();
    let broken = Err(HarnessError::InvalidRequest("broken".to_owned()));
    assert!(continue_directly(&mut ledger, broken, requested, reason).is_err());
    assert_eq!(ledger.events.len(), before);
    assert!(ledger.result.errors.is_empty());
}

#[test]
fn responses_are_counted_by_their_compact_text() {
    let response = ModelResponse::new("m").with_final_output("x");
    assert_eq!(
        response.to_json_text(),
        r#"{"model":"m","final_output":"x","tool_calls":[],"usage":{"input_tokens":0,"output_tokens":0}}"#
    );
}
