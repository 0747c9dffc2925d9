use llama_harness_core::agent::{AgentDefinition, RunRequest, RunStatus};
use llama_harness_core::catalog::RegistrationBounds;
use llama_harness_core::error::HarnessError;
use llama_harness_core::json::Json;
use llama_harness_core::ledger::RunLedger;
use llama_harness_core::mock::{
    error_response, final_response, tool_response, MockModelProvider, MockStep,
};
use llama_harness_core::model::ModelCapabilities;
use llama_harness_core::policy::{DenyApproval, PolicyDecision, SafeDefaultPolicy};
use llama_harness_core::prepared::{ModelRequest, PreparedToolCatalog};
use llama_harness_core::simple_run::{check_simple_request, SimpleAction, SimpleRun};
use llama_harness_core::tool::{ToolCall, ToolDefinition, ToolResult};
use llama_harness_core::tool_registry::ToolRegistry;

struct Host {
    decision: Option<PolicyDecision>,
    approval: Option<bool>,
    fail: bool,
    cancelled: bool,
}

fn host() -> Host {
    Host { decision: None, approval: None, fail: false, cancelled: false }
}

fn request() -> RunRequest {
    let mut agent = AgentDefinition::new("agent", "Agent", "1", "mock-model");
    agent.tool_allowlist = vec!["read".into()];
    RunRequest::new(agent, "hello")
}

fn call(id: &str, tool_id: &str, args: &str) -> ToolCall {
    ToolCall::new(id, tool_id, args)
}

fn tool(id: &str, schema: &str) -> ToolDefinition {
    let mut definition =
        ToolDefinition::new(id, id, "test", Json::parse(schema).unwrap());
    definition.idempotent = true;
    definition.read_only = true;
    definition
}

fn registry(tools: Vec<ToolDefinition>) -> ToolRegistry {
    let mut registry = ToolRegistry::new(RegistrationBounds {
        max_id_bytes: 128,
        max_name_bytes: 256,
        max_safe_metadata_bytes: 4096,
    });
    for tool in tools {
        registry.register(tool, 100).unwrap();
    }
    registry
}

fn drive(
    provider: &mut MockModelProvider,
    registry: &ToolRegistry,
    request: &RunRequest,
    host: &Host,
) -> (RunLedger, u32) {
    check_simple_request(request).unwrap();
    let tools = registry.tools();
    let mut executed = 0;
    let mut run = SimpleRun::begin(request, "run", "trace");
    let mut action = run.turn(request, 0, host.cancelled);
    loop {
        action = match action {
            SimpleAction::Check => run.turn(request, 0, host.cancelled),
            SimpleAction::CallModel { .. } => {
                let outcome = provider.complete(ModelRequest::new(&request.model()), false);
                run.responded(tools, request, outcome)
            }
            SimpleAction::AskPolicy => {
                let decision = match &host.decision {
                    Some(decision) => decision.clone(),
                    None => {
                        let wanted = run.call().unwrap().0.tool_id.clone();
                        SafeDefaultPolicy.decide(&registry.get(&wanted).unwrap().definition)
                    }
                };
                run.decided(tools, request, decision)
            }
            SimpleAction::AskApproval => match host.approval {
                Some(granted) => run.approved(tools, request, granted, "test"),
                None => {
                    let wanted = run.call().unwrap().0.tool_id.clone();
                    let record = DenyApproval.approve(&registry.get(&wanted).unwrap().definition);
                    run.approved(tools, request, record.granted, &record.reason)
                }
            },
            SimpleAction::Execute => {
                executed += 1;
                let outcome = if host.fail {
                    Err(HarnessError::Tool("boom".into()))
                } else {
                    Ok(ToolResult::success(Json::parse("{\"ok\":true}").unwrap()))
                };
                run.returned(tools, request, outcome)
            }
            SimpleAction::Finish => break,
            SimpleAction::Misplaced => panic!("misplaced step"),
        };
    }
    (run.finish(5), executed)
}

fn run_script(
    steps: Vec<MockStep>,
    tools: Vec<ToolDefinition>,
    request: &RunRequest,
    host: &Host,
) -> (RunLedger, u32) {
    let mut provider = MockModelProvider::scripted(steps);
    drive(&mut provider, &registry(tools), request, host)
}

#[test]
fn completes_final_response() {
    let (ledger, _) = run_script(vec![final_response("done")], vec![], &request(), &host());
    assert_eq!(ledger.result.final_output.as_deref(), Some("done"));
    assert_eq!(ledger.result.duration_ms, 5);
}

#[test]
fn executes_allowed_read_only_tool() {
    let schema =
        r#"{"type":"object","required":["query"],"properties":{"query":{"type":"string"}}}"#;
    let (ledger, executed) = run_script(
        vec![
            tool_response(call("1", "read", r#"{"query":"x"}"#)),
            final_response("done"),
        ],
        vec![tool("read", schema)],
        &request(),
        &host(),
    );
    assert_eq!(ledger.result.status, RunStatus::Completed);
    assert_eq!(executed, 1);
}

#[test]
fn rejects_unknown_disallowed_and_malformed_calls() {
    let (ledger, executed) = run_script(
        vec![
            tool_response(call("1", "missing", "{}")),
            tool_response(call("2", "write", "{}")),
            tool_response(call("3", "read", "not json")),
            final_response("done"),
        ],
        vec![
            tool("read", r#"{"type":"object"}"#),
            tool("write", r#"{"type":"object"}"#),
        ],
        &request(),
        &host(),
    );
    assert_eq!(ledger.result.status, RunStatus::Completed);
    assert_eq!(executed, 0);
    assert_eq!(ledger.result.errors.len(), 3);
}

#[test]
fn rejects_schema_invalid_arguments() {
    let (ledger, executed) = run_script(
        vec![tool_response(call("1", "read", "{}")), final_response("done")],
        vec![tool("read", r#"{"type":"object","required":["query"]}"#)],
        &request(),
        &host(),
    );
    assert_eq!(ledger.result.errors[0].code, "tool_rejected");
    assert_eq!(executed, 0);
}

#[test]
fn deny_and_approval_paths_are_recorded() {
    let tools = || vec![tool("read", r#"{"type":"object"}"#)];
    let steps = |id: &str| vec![tool_response(call(id, "read", "{}")), final_response("done")];
    let deny = Host {
        decision: Some(PolicyDecision::Deny { reason: "no".into() }),
        ..host()
    };
    let (denied, _) = run_script(steps("1"), tools(), &request(), &deny);
    assert_eq!(denied.result.errors[0].code, "tool_rejected");
    let grant = Host {
        decision: Some(PolicyDecision::RequireApproval { reason: "ask".into() }),
        approval: Some(true),
        ..host()
    };
    let (granted, _) = run_script(steps("2"), tools(), &request(), &grant);
    assert!(granted.result.approvals[0].granted);
    let refuse = Host {
        decision: Some(PolicyDecision::RequireApproval { reason: "ask".into() }),
        approval: Some(false),
        ..host()
    };
    let (rejected, _) = run_script(steps("3"), tools(), &request(), &refuse);
    assert!(!rejected.result.approvals[0].granted);
}

#[test]
fn tool_error_and_limits_stop_safely() {
    let tools = || vec![tool("read", r#"{"type":"object"}"#)];
    let failing = Host { fail: true, ..host() };
    let (ledger, _) = run_script(
        vec![tool_response(call("1", "read", "{}")), final_response("done")],
        tools(),
        &request(),
        &failing,
    );
    assert_eq!(ledger.result.status, RunStatus::Completed);
    assert_eq!(ledger.result.errors[0].code, "tool_error");
    let mut limited = request();
    limited.agent.limits.max_model_calls = 1;
    let (ledger, _) = run_script(
        vec![tool_response(call("1", "read", "{}"))],
        tools(),
        &limited,
        &host(),
    );
    assert!(ledger.result.model_call_limit_reached);
}

#[test]
fn tool_and_repeat_limits_and_cancellation_work() {
    let tools = || vec![tool("read", r#"{"type":"object"}"#)];
    let steps = || {
        vec![
            tool_response(call("1", "read", "{}")),
            tool_response(call("2", "read", "{}")),
        ]
    };
    let mut limited = request();
    limited.agent.limits.max_tool_calls = 1;
    let (ledger, _) = run_script(steps(), tools(), &limited, &host());
    assert!(ledger.result.tool_call_limit_reached);
    let mut repeated = request();
    repeated.agent.limits.max_identical_tool_calls = 1;
    let (ledger, _) = run_script(steps(), tools(), &repeated, &host());
    assert!(ledger.result.repeated_tool_call_limit_reached);
    let stopped = Host { cancelled: true, ..host() };
    let (ledger, _) = run_script(vec![final_response("never")], vec![], &request(), &stopped);
    assert!(ledger.result.cancelled);
}

#[test]
fn repairs_invalid_structured_output_once() {
    let mut structured = request();
    structured.agent.output_schema =
        Some(Json::parse(r#"{"type":"object","required":["answer"]}"#).unwrap());
    let (ledger, _) = run_script(
        vec![final_response("not json"), final_response(r#"{"answer":"done"}"#)],
        vec![],
        &structured,
        &host(),
    );
    assert_eq!(ledger.result.status, RunStatus::Completed);
    assert_eq!(ledger.result.final_output.as_deref(), Some(r#"{"answer":"done"}"#));
}

#[test]
fn mock_provider_reports_inventory_and_captures_request() {
    let mut provider = MockModelProvider::scripted(vec![final_response("done")]);
    assert_eq!(provider.list_models()[0].id, "mock-model");
    drive(&mut provider, &registry(vec![]), &request(), &host());
    assert_eq!(provider.requests().len(), 1);
    assert_eq!(provider.requests()[0].model, "mock-model");
    assert_eq!(provider.id(), "mock");
}

#[test]
fn scripts_run_out_and_cancelled_requests_leave_no_trace() {
    let mut provider = MockModelProvider::scripted(vec![error_response(HarnessError::Provider(
        "down".into(),
    ))])
    .with_capabilities(ModelCapabilities::new(false, true, false));
    assert!(provider.capabilities().supports_streaming);
    assert_eq!(
        provider.complete(ModelRequest::new("m"), true).unwrap_err(),
        HarnessError::Cancelled
    );
    assert!(provider.requests().is_empty());
    assert_eq!(
        provider.complete(ModelRequest::new("m"), false).unwrap_err(),
        HarnessError::Provider("down".into())
    );
    assert_eq!(
        provider.complete(ModelRequest::new("m"), false).unwrap_err(),
        HarnessError::Provider("mock script exhausted".into())
    );
    assert_eq!(provider.requests().len(), 2);
}

#[test]
fn prepared_tools_are_exact_function_tools() {
    let prepared = PreparedToolCatalog::from_definitions(
        vec![
            tool("read", r#"{"type":"object"}"#),
            tool("write", r#"{"type":"string"}"#),
        ],
        vec![1, 2, 3],
    );
    assert_eq!(
        prepared.provider_tools_json(),
        r#"[{"type":"function","function":{"name":"read","description":"test","parameters":{"type":"object"}}},{"type":"function","function":{"name":"write","description":"test","parameters":{"type":"string"}}}]"#
    );
    assert_eq!(prepared.definitions().len(), 2);
    assert_eq!(prepared.serialized_definitions(), &vec![1, 2, 3]);
    let none = PreparedToolCatalog::from_definitions(Vec::new(), Vec::new());
    assert_eq!(none.provider_tools_json(), "[]");
}
