use llama_harness_core::broker::InvocationKey;
use llama_harness_core::json::Json;
use llama_harness_core::catalog::RegistrationBounds;
use llama_harness_core::runner::AgentRunner;
use llama_harness_core::speculation::{
    SpeculationConfig, SpeculationController, SpeculationLatencyHistogram, SpeculationMetrics,
    SpeculationMode, HARD_MAX_SPECULATION_DURATION_MS, HARD_MAX_SPECULATION_STREAM_EVENTS,
    MIN_SPECULATION_SHADOW_OBSERVATIONS,
};
use llama_harness_core::admission::ToolBroker;
use llama_harness_core::agent::{AgentDefinition, RunRequest};
use llama_harness_core::commit::{CommitAction, CommitEvent, CommitRun};
use llama_harness_core::error::HarnessError;
use llama_harness_core::model::Usage;
use llama_harness_core::policy::PolicyDecision;
use llama_harness_core::registry::ToolScope;
use llama_harness_core::speculation::{PreIssueSkipReason, SpeculativeResolution};
use llama_harness_core::speculative_call::{
    after_key_attempt, after_ordinary_policy, after_speculative_policy, commit_policy,
    resolution_for, skip_reason_for, CommitPolicy, CommitStart, SpeculativeLease,
};
use llama_harness_core::stream_turn::{
    candidate_deadline_for, invocation_matches, DeadlineKind, StreamTurn, TurnStep,
};
use llama_harness_core::streaming::{
    ModelStreamEvent, ToolCallAssembler, ToolCallAssemblyLimits, ToolCallDelta,
};
use llama_harness_core::tool::{
    CancellationSafety, ExecutionLocation, IssueSafety, NetworkEgress, SpeculationPolicy, ToolCall,
    ToolCaller, ToolDefinition, ToolResult,
};
use llama_harness_core::tool_registry::ToolRegistry;
use std::collections::{HashMap, HashSet};

#[test]
fn pull_metrics_are_backward_deserializable_and_histograms_are_bounded() {
    let metrics = SpeculationMetrics::disabled("local.read");
    assert_eq!(metrics.tool_id, "local.read");
    assert_eq!(metrics.in_flight, 0);
    assert_eq!(metrics.execution_duration_ms.count, 0);

    let mut histogram = SpeculationLatencyHistogram::new();
    for latency_ms in [0, 1, 2, 5_000, 5_001] {
        histogram.record(latency_ms);
    }
    assert_eq!(histogram.count, 5);
    assert_eq!(histogram.sum_ms, 10_004);
    assert_eq!(histogram.max_ms, 5_001);
    assert_eq!(histogram.cumulative_buckets[0], 2);
    assert_eq!(histogram.cumulative_buckets[10], 4);
    assert_eq!(histogram.overflow, 1);
}

#[test]
fn speculation_config_boundaries_are_exact() {
    let valid = [
        SpeculationConfig {
            max_execution_duration_ms: 1,
            required_shadow_observations: MIN_SPECULATION_SHADOW_OBSERVATIONS,
            max_stream_events: 1,
        },
        SpeculationConfig {
            max_execution_duration_ms: HARD_MAX_SPECULATION_DURATION_MS,
            required_shadow_observations: u64::MAX,
            max_stream_events: HARD_MAX_SPECULATION_STREAM_EVENTS,
        },
    ];
    for config in valid {
        assert!(config.validate().is_ok());
    }

    let invalid = [
        SpeculationConfig {
            max_execution_duration_ms: 0,
            ..SpeculationConfig::default()
        },
        SpeculationConfig {
            max_execution_duration_ms: HARD_MAX_SPECULATION_DURATION_MS + 1,
            ..SpeculationConfig::default()
        },
        SpeculationConfig {
            required_shadow_observations: MIN_SPECULATION_SHADOW_OBSERVATIONS - 1,
            ..SpeculationConfig::default()
        },
        SpeculationConfig {
            max_stream_events: 0,
            ..SpeculationConfig::default()
        },
        SpeculationConfig {
            max_stream_events: HARD_MAX_SPECULATION_STREAM_EVENTS + 1,
            ..SpeculationConfig::default()
        },
    ];
    for config in invalid {
        assert!(config.validate().is_err());
    }
}

#[test]
fn activation_and_incidents_are_scoped_per_tool() {
    let mut controller = SpeculationController::new(SpeculationConfig::default());
    controller.register_tool("first");
    controller.register_tool("second");
    for _ in 0..1_000 {
        controller.record_shadow_match("first");
        controller.record_shadow_match("second");
    }
    assert_eq!(controller.activate("first").mode, SpeculationMode::Active);
    assert_eq!(controller.activate("second").mode, SpeculationMode::Active);

    controller.record_mismatch_and_trip("first");
    assert_eq!(controller.mode("first"), SpeculationMode::Shadow);
    assert_eq!(controller.mode("second"), SpeculationMode::Active);
    assert_eq!(controller.metrics("first", 0).mismatches, 1);
    for _ in 0..1_000 {
        controller.record_shadow_match("first");
    }
    assert!(!controller.readiness("first").ready_to_activate);
    assert_eq!(controller.activate("first").mode, SpeculationMode::Shadow);

    controller.record_issue_started("second", 10);
    assert!(controller.record_commit_if_active("second", 10, 1_010, None, false, Some(0)));
    let metrics = controller.metrics("second", 10);
    assert_eq!(metrics.issued, 1);
    assert_eq!(metrics.committed, 1);
    assert_eq!(
        metrics.issued,
        metrics.committed + metrics.discarded + metrics.cancelled
    );
}

#[test]
fn invocation_matching_is_typed_exact_and_call_occurrence_bound() {
    let candidate = ToolCall::new("call-0", "read", r#"{"a":1,"b":true}"#);
    let key = InvocationKey::new("read", &Json::parse(r#"{"a":1,"b":true}"#).unwrap());
    assert!(invocation_matches(
        &candidate,
        &key,
        Some(&ToolCall::new("call-0", "read", r#"{"b":true,"a":1}"#))
    ));
    assert!(!invocation_matches(
        &candidate,
        &key,
        Some(&ToolCall::new("different-call", "read", r#"{"a":1,"b":true}"#))
    ));
    assert!(!invocation_matches(
        &candidate,
        &key,
        Some(&ToolCall::new("call-0", "other", r#"{"a":1,"b":true}"#))
    ));
    assert!(!invocation_matches(
        &candidate,
        &key,
        Some(&ToolCall::new("call-0", "read", r#"{"a":"1","b":true}"#))
    ));
    assert!(!invocation_matches(&candidate, &key, None));
    let negative_zero = ToolCall::new("call-zero", "read", "-0.0");
    let negative_key = InvocationKey::new("read", &Json::parse("-0.0").unwrap());
    assert!(!invocation_matches(
        &negative_zero,
        &negative_key,
        Some(&ToolCall::new("call-zero", "read", "0.0"))
    ));
}

#[test]
fn invocation_key_equality_and_hash_share_one_canonical_representation() {
    let negative_zero = Json::parse("-0.0").unwrap();
    let positive_zero = Json::parse("0.0").unwrap();
    let negative = InvocationKey::new("read", &negative_zero);
    let positive = InvocationKey::new("read", &positive_zero);

    assert_ne!(negative, positive);
    let keys = HashSet::from([negative.clone(), positive.clone()]);
    assert_eq!(keys.len(), 2);
    assert!(keys.contains(&negative));
    assert!(keys.contains(&positive));
    let mut repeated_calls = HashMap::new();
    *repeated_calls.entry(negative.clone()).or_insert(0_u32) += 1;
    *repeated_calls.entry(positive.clone()).or_insert(0_u32) += 1;
    *repeated_calls.entry(negative.clone()).or_insert(0_u32) += 1;
    assert_eq!(repeated_calls[&negative], 2);
    assert_eq!(repeated_calls[&positive], 1);

    let reordered = InvocationKey::new("read", &Json::parse(r#"{"b":2,"a":1}"#).unwrap());
    let canonical = InvocationKey::new("read", &Json::parse(r#"{"a":1,"b":2}"#).unwrap());
    assert_eq!(reordered, canonical);
    assert!(reordered.same(&canonical));
    let unordered = InvocationKey::new(
        "read",
        &Json::Object(vec![
            ("b".to_owned(), Json::Number("2".to_owned())),
            ("a".to_owned(), Json::Number("1".to_owned())),
        ]),
    );
    assert_eq!(unordered, canonical);
    let occurrence = InvocationKey::programmatic(
        "read",
        &Json::parse(r#"{"a":1,"b":2}"#).unwrap(),
        "call-1",
    );
    assert_ne!(occurrence, canonical);
}

#[test]
fn incidents_of_every_sort_bar_activation() {
    let mut controller = SpeculationController::new(SpeculationConfig::default());
    controller.register_tool("tool");
    controller.record_terminal_stream_failure_and_trip("tool");
    for _ in 0..2_000 {
        controller.record_shadow_match("tool");
    }
    assert_eq!(controller.activate("tool").mode, SpeculationMode::Shadow);
    assert_eq!(controller.metrics("tool", 0).terminal_stream_failures, 1);
    assert_eq!(controller.readiness("tool").exact_shadow_observations, 2_000);
    let reply = controller.return_to_shadow("tool");
    assert_eq!(reply.exact_shadow_observations, 0);
    assert!(!reply.ready_to_activate);
    assert_eq!(controller.mode("unknown"), SpeculationMode::Disabled);
}

#[test]
fn runners_without_speculation_report_it_disabled() {
    let bounds = RegistrationBounds {
        max_id_bytes: 128,
        max_name_bytes: 256,
        max_safe_metadata_bytes: 4096,
    };
    let mut plain = AgentRunner::builder(bounds).build();
    assert_eq!(plain.speculation_readiness("read").mode, SpeculationMode::Disabled);
    assert_eq!(plain.activate_speculation("read").mode, SpeculationMode::Disabled);
    assert_eq!(plain.return_speculation_to_shadow("read").mode, SpeculationMode::Disabled);
    assert_eq!(plain.speculation_metrics("read", 0).issued, 0);
    assert_eq!(plain.programmatic_permits, 1);

    let mut opted =
        AgentRunner::builder(bounds).speculation(SpeculationConfig::default()).build();
    assert_eq!(opted.speculation_readiness("read").mode, SpeculationMode::Disabled);
    if let Some(controller) = opted.speculation.as_mut() {
        controller.register_tool("read");
        for _ in 0..1_000 {
            controller.record_shadow_match("read");
        }
    }
    assert!(opted.speculation_readiness("read").ready_to_activate);
    assert_eq!(opted.activate_speculation("read").mode, SpeculationMode::Active);
    assert_eq!(opted.return_speculation_to_shadow("read").mode, SpeculationMode::Shadow);
}

fn bounds() -> RegistrationBounds {
    RegistrationBounds {
        max_id_bytes: 128,
        max_name_bytes: 256,
        max_safe_metadata_bytes: 4096,
    }
}

fn early_tool() -> ToolDefinition {
    let mut tool = ToolDefinition::new(
        "read",
        "read",
        "test",
        Json::parse(r#"{"type":"object"}"#).unwrap(),
    )
    .with_allowed_callers(vec![ToolCaller::Direct, ToolCaller::Speculative]);
    tool.speculation_policy = SpeculationPolicy::Enabled;
    tool.read_only = true;
    tool.idempotent = true;
    tool.parallel_safe = true;
    tool.cancellation_safety = CancellationSafety::Guaranteed;
    tool.issue_safety = IssueSafety::Guaranteed;
    tool.execution_location = ExecutionLocation::LocalPrivate;
    tool.network_egress = NetworkEgress::Prohibited;
    tool
}

fn early_registry() -> ToolRegistry {
    let mut registry = ToolRegistry::new(bounds());
    registry.register(early_tool(), 100).unwrap();
    registry
}

fn early_scope() -> ToolScope {
    ToolScope { caller: ToolCaller::Direct, tool_ids: vec!["read".to_owned()] }
}

fn early_request() -> RunRequest {
    let mut agent = AgentDefinition::new("agent", "Agent", "1", "mock-model");
    agent.tool_allowlist = vec!["read".to_owned()];
    RunRequest::new(agent, "hello")
}

fn turn() -> StreamTurn {
    let assembler =
        ToolCallAssembler::new(&vec![early_tool()], ToolCallAssemblyLimits::default()).unwrap();
    StreamTurn::new(assembler, 10_000)
}

fn feed(
    turn: &mut StreamTurn,
    controller: &mut SpeculationController,
    registry: &ToolRegistry,
    arguments: &str,
) -> TurnStep {
    let scope = early_scope();
    let broker = ToolBroker::new(registry.tools(), &scope);
    let delta = ToolCallDelta::new(0, arguments, true).with_call_id("call-0").with_tool_id("read");
    turn.on_item(
        controller,
        &broker,
        &early_request(),
        true,
        Ok(ModelStreamEvent::ToolCallDelta(delta)),
    )
}

fn complete(
    turn: &mut StreamTurn,
    controller: &mut SpeculationController,
    registry: &ToolRegistry,
) -> TurnStep {
    let scope = early_scope();
    let broker = ToolBroker::new(registry.tools(), &scope);
    turn.on_item(
        controller,
        &broker,
        &early_request(),
        true,
        Ok(ModelStreamEvent::Completed { model: "m".to_owned(), usage: Usage::new(1, 1) }),
    )
}

fn active_controller() -> SpeculationController {
    let mut controller = SpeculationController::new(SpeculationConfig::default());
    controller.register_tool("read");
    for _ in 0..1_000 {
        controller.record_shadow_match("read");
    }
    assert_eq!(controller.activate("read").mode, SpeculationMode::Active);
    controller
}

#[test]
fn shadow_turns_observe_and_issue_nothing() {
    let registry = early_registry();
    let mut controller = SpeculationController::new(SpeculationConfig::default());
    let mut turn = turn();
    assert!(matches!(
        feed(&mut turn, &mut controller, &registry, "{\"q\":1}"),
        TurnStep::Continue
    ));
    assert!(matches!(complete(&mut turn, &mut controller, &registry), TurnStep::Finished));
    let outcome = turn.conclude(&mut controller, 5).unwrap();
    assert_eq!(outcome.response.tool_calls, vec![ToolCall::new("call-0", "read", "{\"q\":1}")]);
    assert_eq!(outcome.commit_until, None);
    let metrics = controller.metrics("read", 5);
    assert_eq!(metrics.mode, SpeculationMode::Shadow);
    assert_eq!(metrics.shadow_matches, 1);
    assert_eq!(metrics.issued, 0);
}

#[test]
fn broken_streams_trip_the_tool() {
    let registry = early_registry();
    let mut controller = SpeculationController::new(SpeculationConfig::default());
    let mut turn = turn();
    feed(&mut turn, &mut controller, &registry, "{}");
    let step = turn.on_end(&mut controller);
    assert!(matches!(step, TurnStep::Failed(HarnessError::ModelStream { .. })));
    assert_eq!(controller.metrics("read", 0).terminal_stream_failures, 1);
}

#[test]
fn active_turns_issue_one_call_early() {
    let registry = early_registry();
    let mut controller = active_controller();
    let mut turn = turn();
    let (call, key) = match feed(&mut turn, &mut controller, &registry, "{}") {
        TurnStep::Issue(call, key) => (call, key),
        _ => panic!("an active tool is issued early"),
    };
    let deadline = candidate_deadline_for(&controller.config(), 10, Some(20)).unwrap();
    assert_eq!(deadline, 20);
    assert!(matches!(
        turn.on_slot(&mut controller, call, key, Some(Ok(deadline))),
        TurnStep::Continue
    ));
    assert_eq!(turn.next_deadline(Some(30)), Some((30, DeadlineKind::Call)));
    turn.on_attempt(true);
    assert_eq!(turn.next_deadline(Some(30)), Some((20, DeadlineKind::Candidate)));
    assert!(matches!(complete(&mut turn, &mut controller, &registry), TurnStep::Finished));
    let outcome = turn.conclude(&mut controller, 15).unwrap();
    assert_eq!(outcome.commit_until, Some(20));
    assert_eq!(controller.metrics("read", 15).active_candidates_considered, 1);
}

#[test]
fn occupied_slots_are_counted_and_never_awaited() {
    let registry = early_registry();
    let mut controller = active_controller();
    let mut turn = turn();
    let (call, key) = match feed(&mut turn, &mut controller, &registry, "{}") {
        TurnStep::Issue(call, key) => (call, key),
        _ => panic!("an active tool is issued early"),
    };
    assert!(matches!(turn.on_slot(&mut controller, call, key, None), TurnStep::Continue));
    complete(&mut turn, &mut controller, &registry);
    assert_eq!(turn.conclude(&mut controller, 15).unwrap().commit_until, None);
    assert_eq!(controller.metrics("read", 15).slot_saturated, 1);
}

#[test]
fn only_the_exact_call_is_published() {
    let registry = early_registry();
    let scope = early_scope();
    let broker = ToolBroker::new(registry.tools(), &scope);
    let request = early_request();
    let controller = active_controller();
    let call = ToolCall::new("call-0", "read", "{\"q\":1}");
    let prepared = match broker.begin_speculation(&request, true, &call, 1, "run", "trace") {
        Ok(prepared) => prepared,
        Err(_) => panic!("the call may be issued early"),
    };
    assert_eq!(prepared.context.caller, Some(ToolCaller::Speculative));
    assert!(matches!(
        broker.begin_speculation(&request, false, &call, 1, "run", "trace"),
        Err(PreIssueSkipReason::Validation)
    ));
    assert!(broker.speculative_prepared_is_live(&request, &prepared));
    let mut grown = early_registry();
    let mut further = early_tool();
    further.id = "further".to_owned();
    grown.register(further, 100).unwrap();
    assert!(!ToolBroker::new(grown.tools(), &scope).speculative_prepared_is_live(&request, &prepared));
    let result = ToolResult::success(Json::Bool(true));
    assert!(broker.check_speculative_result(&request, "read", &result).is_none());
    assert!(broker
        .check_speculative_result(&request, "read", &ToolResult::failure("no"))
        .is_some());
    let start = |authoritative: &ToolCall, stopped: Option<HarnessError>, run_first: bool| {
        broker.begin_commit(
            &controller,
            &request,
            Some((&prepared, &result)),
            authoritative,
            1,
            stopped,
            run_first,
        )
    };
    assert!(matches!(start(&call, None, false), CommitStart::Prepare));
    let other = ToolCall::new("call-0", "read", "{\"q\":2}");
    assert!(matches!(start(&other, None, false), CommitStart::NotCommitted));
    let expired = HarnessError::TimedOut("late".to_owned());
    assert!(matches!(start(&call, Some(expired.clone()), false), CommitStart::NotCommitted));
    assert!(matches!(start(&call, Some(expired), true), CommitStart::Stop(_)));
    assert!(matches!(
        start(&call, Some(HarnessError::Cancelled), false),
        CommitStart::Stop(HarnessError::Cancelled)
    ));
}

fn early_commit(
    controller: &mut SpeculationController,
    broker: &ToolBroker,
    request: &RunRequest,
    call: &ToolCall,
) -> CommitRun {
    let issued = ToolCall::new("call-0", "read", "{\"q\":1}");
    let prepared = broker.begin_speculation(request, true, &issued, 1, "run", "trace").unwrap();
    let mut lease = SpeculativeLease::new(controller, "read", 10);
    lease.execution_finished(controller, 20);
    CommitRun::new(prepared, ToolResult::success(Json::Bool(true)), lease, 100, call, 1)
}

fn allowed() -> Result<PolicyDecision, HarnessError> {
    Ok(PolicyDecision::Allow { reason: "yes".to_owned() })
}

#[test]
fn commits_publish_what_two_policies_allow_in_time() {
    let registry = early_registry();
    let scope = early_scope();
    let broker = ToolBroker::new(registry.tools(), &scope);
    let request = early_request();
    let call = ToolCall::new("call-0", "read", "{ \"q\": 1 }");
    let mut controller = active_controller();
    let mut run = early_commit(&mut controller, &broker, &request, &call);
    let step = |run: &mut CommitRun, controller: &mut SpeculationController, event: CommitEvent| {
        run.step(controller, &broker, &request, Some(90), event)
    };
    assert!(matches!(
        step(&mut run, &mut controller, CommitEvent::Prepared(30)),
        CommitAction::Misplaced
    ));
    assert!(matches!(
        step(&mut run, &mut controller, CommitEvent::Opened(false, 30)),
        CommitAction::Prepare
    ));
    assert!(matches!(
        step(&mut run, &mut controller, CommitEvent::Waited(35)),
        CommitAction::Prepare
    ));
    assert!(matches!(
        step(&mut run, &mut controller, CommitEvent::Prepared(40)),
        CommitAction::AskPolicy(90)
    ));
    assert!(matches!(
        step(&mut run, &mut controller, CommitEvent::Decided(allowed(), false, 50)),
        CommitAction::Publish
    ));
    assert_eq!(run.result().output, Json::Bool(true));
    assert_eq!(run.candidate().call.id, "call-0");
    let metrics = controller.metrics("read", 50);
    assert_eq!((metrics.committed, metrics.discarded, metrics.cancelled), (1, 0, 0));
    assert!(matches!(
        step(&mut run, &mut controller, CommitEvent::Unprepared(true, 60)),
        CommitAction::Misplaced
    ));
    assert_eq!(controller.metrics("read", 60).cancelled, 0);
}

#[test]
fn commits_that_expire_or_differ_are_dropped() {
    let registry = early_registry();
    let scope = early_scope();
    let broker = ToolBroker::new(registry.tools(), &scope);
    let request = early_request();
    let same = ToolCall::new("call-0", "read", "{\"q\":1}");
    let other = ToolCall::new("call-0", "read", "{\"q\":2}");
    let denied = || Ok(PolicyDecision::Deny { reason: "no".to_owned() });
    let cases = vec![
        (&other, vec![CommitEvent::Opened(false, 30)]),
        (&same, vec![CommitEvent::Opened(false, 100)]),
        (&same, vec![CommitEvent::Opened(false, 30), CommitEvent::Waited(100)]),
        (&same, vec![CommitEvent::Opened(false, 30), CommitEvent::Prepared(100)]),
        (&same, vec![CommitEvent::Opened(false, 30), CommitEvent::Unprepared(false, 40)]),
        (
            &same,
            vec![
                CommitEvent::Opened(false, 30),
                CommitEvent::Prepared(40),
                CommitEvent::Decided(denied(), false, 50),
            ],
        ),
        (
            &same,
            vec![
                CommitEvent::Opened(false, 30),
                CommitEvent::Prepared(40),
                CommitEvent::Decided(allowed(), false, 100),
            ],
        ),
        (
            &same,
            vec![
                CommitEvent::Opened(false, 30),
                CommitEvent::Prepared(40),
                CommitEvent::Decided(Err(HarnessError::Policy("broken".to_owned())), false, 50),
            ],
        ),
    ];
    for (call, events) in cases {
        let mut controller = active_controller();
        let mut run = early_commit(&mut controller, &broker, &request, call);
        let mut last = CommitAction::Misplaced;
        for event in events {
            last = run.step(&mut controller, &broker, &request, None, event);
        }
        assert!(matches!(last, CommitAction::ExecuteDirect));
        let metrics = controller.metrics("read", 200);
        assert_eq!((metrics.committed, metrics.discarded, metrics.cancelled), (0, 1, 0));
    }
}

#[test]
fn commits_of_stopped_runs_end_the_run() {
    let registry = early_registry();
    let scope = early_scope();
    let broker = ToolBroker::new(registry.tools(), &scope);
    let request = early_request();
    let call = ToolCall::new("call-0", "read", "{\"q\":1}");

    let mut controller = active_controller();
    let mut run = early_commit(&mut controller, &broker, &request, &call);
    let event = CommitEvent::Opened(true, 30);
    assert!(matches!(
        run.step(&mut controller, &broker, &request, None, event),
        CommitAction::Stop(HarnessError::Cancelled)
    ));
    assert_eq!(controller.metrics("read", 30).cancelled, 1);

    let mut controller = active_controller();
    let mut run = early_commit(&mut controller, &broker, &request, &call);
    match run.step(&mut controller, &broker, &request, Some(25), CommitEvent::Opened(false, 30)) {
        CommitAction::Stop(HarnessError::TimedOut(text)) => {
            assert_eq!(text, "speculative candidate expired before commit");
        }
        _ => panic!("the deadline of the run ends it"),
    }
    assert_eq!(controller.metrics("read", 30).cancelled, 1);

    let mut controller = active_controller();
    let mut run = early_commit(&mut controller, &broker, &request, &call);
    run.step(&mut controller, &broker, &request, Some(60), CommitEvent::Opened(false, 30));
    run.step(&mut controller, &broker, &request, Some(60), CommitEvent::Prepared(40));
    let broken = Err(HarnessError::Policy("broken".to_owned()));
    let event = CommitEvent::Decided(broken, false, 60);
    match run.step(&mut controller, &broker, &request, Some(60), event) {
        CommitAction::Stop(HarnessError::TimedOut(text)) => {
            assert_eq!(text, "run deadline reached before tool validation");
        }
        _ => panic!("the deadline of the run ends it"),
    }
    assert_eq!(controller.metrics("read", 60).discarded, 1);

    let mut controller = active_controller();
    let mut run = early_commit(&mut controller, &broker, &request, &call);
    run.step(&mut controller, &broker, &request, None, CommitEvent::Opened(false, 30));
    run.step(&mut controller, &broker, &request, None, CommitEvent::Unprepared(true, 40));
    assert_eq!(controller.metrics("read", 40).cancelled, 1);
    assert_eq!(run.deadline(), 100);
}

#[test]
fn every_refusal_before_issue_has_its_reason() {
    let allow = PolicyDecision::Allow { reason: "yes".to_owned() };
    let deny = PolicyDecision::Deny { reason: "no".to_owned() };
    assert_eq!(after_ordinary_policy(&allow), None);
    assert_eq!(after_ordinary_policy(&deny), Some(PreIssueSkipReason::Policy));
    assert_eq!(after_speculative_policy(&allow, true), None);
    assert_eq!(after_speculative_policy(&allow, false), Some(PreIssueSkipReason::Invalidated));
    assert_eq!(after_speculative_policy(&deny, true), Some(PreIssueSkipReason::Policy));
    assert_eq!(skip_reason_for(&HarnessError::Cancelled), PreIssueSkipReason::Aborted);
    assert_eq!(
        skip_reason_for(&HarnessError::Policy("broken".to_owned())),
        PreIssueSkipReason::Failed
    );
    assert_eq!(after_key_attempt(&Ok(true)), None);
    assert_eq!(after_key_attempt(&Ok(false)), Some(PreIssueSkipReason::KeySaturated));
    assert_eq!(
        after_key_attempt(&Err(HarnessError::Cancelled)),
        Some(PreIssueSkipReason::Failed)
    );
    assert!(matches!(commit_policy(Ok(allow), false), CommitPolicy::Publish));
    assert!(matches!(commit_policy(Ok(deny), false), CommitPolicy::ExecuteDirect));
    assert!(matches!(
        commit_policy(Err(HarnessError::Cancelled), true),
        CommitPolicy::Stop(HarnessError::Cancelled)
    ));
    assert!(matches!(
        commit_policy(Err(HarnessError::Cancelled), false),
        CommitPolicy::ExecuteDirect
    ));
}

#[test]
fn early_executions_without_a_result_are_cancelled_or_discarded() {
    assert_eq!(resolution_for(&HarnessError::Cancelled), SpeculativeResolution::Cancelled);
    assert_eq!(
        resolution_for(&HarnessError::TimedOut("late".to_owned())),
        SpeculativeResolution::Cancelled
    );
    assert_eq!(
        resolution_for(&HarnessError::Tool("broken".to_owned())),
        SpeculativeResolution::Discarded
    );
}
