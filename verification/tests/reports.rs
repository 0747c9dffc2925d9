use llama_harness_core::agent::{AgentDefinition, RunStatus};
use llama_harness_core::model::{ModelCapabilities, ModelInfo, ProviderHealth};
use llama_harness_core::report::{
    agent_line, agent_text, executor_required, filter_report, format_report, health_text,
    join_texts, manifest_summary, model_line, render_inspected_run, replay_required,
    sort_artifacts, suite_summary, AssertionFailure, EvaluationArtifact, EvaluationCaseResult,
    EvaluationReport, InspectedEvent,
};

fn report() -> EvaluationReport {
    EvaluationReport {
        format_version: 1,
        id: "report-1".into(),
        suite_id: "suite".into(),
        suite_version: 1,
        results: vec![
            EvaluationCaseResult {
                suite_id: "suite".into(),
                case_id: "passing".into(),
                model: "ollama:model".into(),
                repetition: 1,
                passed: true,
                failures: vec![],
                run_id: Some("run-pass".into()),
                trace_id: Some("trace-pass".into()),
                status: Some(RunStatus::Completed),
                duration_ms: Some(10),
                model_calls: Some(1),
                tool_calls: Some(0),
                agent_version: Some("1".into()),
                prompt_version: Some("1".into()),
                final_state: None,
                unresolved_items: None,
            },
            EvaluationCaseResult {
                suite_id: "suite".into(),
                case_id: "failing".into(),
                model: "ollama:model".into(),
                repetition: 1,
                passed: false,
                failures: vec![AssertionFailure {
                    rule: "status".into(),
                    message: "expected completed".into(),
                }],
                run_id: Some("run-fail".into()),
                trace_id: Some("trace-fail".into()),
                status: Some(RunStatus::Failed),
                duration_ms: Some(20),
                model_calls: Some(2),
                tool_calls: Some(1),
                agent_version: Some("1".into()),
                prompt_version: Some("1".into()),
                final_state: None,
                unresolved_items: None,
            },
        ],
    }
}

#[test]
fn report_filters_and_human_output_are_stable() {
    let filtered = filter_report(report(), true, Some("failing"));
    assert_eq!(filtered.results.len(), 1);
    let output = format_report(&filtered);
    assert_eq!(
        output,
        "evaluation suite: 0/1 passed\nFAIL failing [1] model=ollama:model trace=trace-fail\n  status: expected completed"
    );
    assert!(output.contains("failing"));
    assert!(!output.contains("passing"));
}

#[test]
fn whole_reports_list_every_result() {
    assert_eq!(report().passed_count(), 1);
    let mut untraced = report();
    untraced.results[0].trace_id = None;
    assert_eq!(
        format_report(&untraced),
        "evaluation suite: 1/2 passed\nPASS passing [1] model=ollama:model trace=none\nFAIL failing [1] model=ollama:model trace=trace-fail\n  status: expected completed"
    );
    assert_eq!(filter_report(report(), false, None), report());
    let once = filter_report(report(), true, None);
    assert_eq!(filter_report(once.clone(), true, None), once);
    assert!(filter_report(report(), true, Some("passing")).results.is_empty());
}

#[test]
fn artifacts_stand_from_the_last_identifier_to_the_first() {
    let artifact = |path: &str, id: &str| EvaluationArtifact {
        path: path.to_owned(),
        report: EvaluationReport { id: id.to_owned(), ..report() },
    };
    let sorted = sort_artifacts(vec![
        artifact("1", "b"),
        artifact("2", "c"),
        artifact("3", "b"),
        artifact("4", "a"),
    ]);
    let paths: Vec<&str> = sorted.iter().map(|item| item.path.as_str()).collect();
    assert_eq!(paths, vec!["2", "1", "3", "4"]);
}

#[test]
fn agent_rendering_keeps_manifest_metadata_visible() {
    let mut agent = AgentDefinition::new("task-agent", "Task Agent", "2", "ollama:qwen3");
    agent.system_instructions = "No secrets".into();
    agent.tool_allowlist = vec!["list_tasks".into()];
    let line = agent_line(&agent);
    assert!(line.contains("task-agent"));
    assert!(line.contains("list_tasks"));
    assert_eq!(line, "task-agent\tTask Agent\tv2\tmodel=ollama:qwen3\ttools=list_tasks");
    assert_eq!(
        agent_text(&agent),
        "agent task-agent (Task Agent)\nversion: 2\ndefault model: ollama:qwen3\nallowed tools: list_tasks\nmodel calls: 8\ntool calls: 16"
    );
    agent.tool_allowlist.clear();
    assert!(agent_text(&agent).contains("allowed tools: none\n"));
}

#[test]
fn inspected_runs_show_one_line_for_each_event() {
    let events = vec![
        InspectedEvent { sequence: 1, event: "{}".to_owned() },
        InspectedEvent { sequence: 12, event: "{\"a\":1}".to_owned() },
    ];
    assert_eq!(
        render_inspected_run("run-1", "trace-1", &events),
        "run run-1 trace trace-1: 2 event(s)\n  #1 {}\n  #12 {\"a\":1}"
    );
    assert_eq!(
        render_inspected_run("run-1", "trace-1", &Vec::new()),
        "run run-1 trace trace-1: 0 event(s)"
    );
}

#[test]
fn command_texts_are_exact() {
    assert_eq!(manifest_summary(1, 3), "valid agent manifest v1: 3 agent(s)");
    assert_eq!(suite_summary("s", 2, 4, 1), "valid suite s (v2): 4 cases, 1 model(s)");
    assert_eq!(health_text(&ProviderHealth::healthy()), "Ollama healthy");
    assert_eq!(health_text(&ProviderHealth::unhealthy("down")), "Ollama unavailable: down");
    let model = ModelInfo::new("m").with_capabilities(ModelCapabilities::new(true, false, true));
    assert_eq!(model_line(&model), "m\ttools=true streaming=false structured_output=true");
    assert_eq!(
        executor_required("s", &vec!["a".to_owned()], &Vec::new(), Some(0)),
        "--repeat must be greater than zero"
    );
    assert!(executor_required("s", &vec!["a".to_owned(), "b".to_owned()], &Vec::new(), None)
        .starts_with("suite s was valid for model(s) a, b, but"));
    assert!(executor_required("s", &vec!["a".to_owned()], &vec!["c".to_owned()], Some(1))
        .starts_with("suite s was valid for model(s) c, but"));
    assert!(replay_required("case", "agent").starts_with("replay case case is valid input for agent agent. "));
    assert_eq!(join_texts(&Vec::new(), ","), "");
}
