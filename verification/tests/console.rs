use llama_harness_core::agent::RunStatus;
use llama_harness_core::console::{
    build_eval_command, build_replay_command, keep_fragments, parse_run_status, path_extension,
    run_filter, run_status_name, update_preferences, validate_model_id, validate_workspace,
    ConsoleModels, ConsolePreferences, EvalLaunchRequest, PathProbe, ProjectFileProbe,
    ProjectWorkspace, PromptfooArtifact, RunQuery, WorkspaceProbe,
};
use llama_harness_core::model::{ModelInfo, ProviderHealth};

fn workspace() -> ProjectWorkspace {
    ProjectWorkspace {
        project_root: "/project".to_owned(),
        trace_db_path: "/project/traces.sqlite".to_owned(),
        evaluation_results_path: None,
        agent_manifest_path: None,
        ollama_url: "http://127.0.0.1:11434".to_owned(),
    }
}

fn probe() -> WorkspaceProbe {
    WorkspaceProbe {
        project_root: PathProbe::Directory("/project".to_owned()),
        trace_database: PathProbe::File("/project/traces.sqlite".to_owned()),
        evaluation_results: None,
        agent_manifest: None,
        manifest_inside: false,
        manifest_error: None,
        url_error: None,
    }
}

#[test]
fn workspace_requires_existing_absolute_project_data_and_loopback_ollama() {
    let valid = validate_workspace(workspace(), &probe()).expect("valid local workspace");
    assert_eq!(valid.project_root, "/project");

    let relative = WorkspaceProbe { project_root: PathProbe::Relative, ..probe() };
    assert!(validate_workspace(workspace(), &relative).unwrap_err().contains("absolute"));

    let remote_ollama = WorkspaceProbe {
        url_error: Some("host is not local".to_owned()),
        ..probe()
    };
    assert!(validate_workspace(workspace(), &remote_ollama).unwrap_err().contains("loopback"));
}

#[test]
fn eval_commands_are_project_scoped_and_validate_model_arguments() {
    let command = build_eval_command(
        &workspace(),
        &EvalLaunchRequest {
            suite_path: "evals/suite.yaml".to_owned(),
            models: vec!["ollama/qwen3:latest".to_owned()],
            repeat: Some(2),
        },
        &ProjectFileProbe::Inside("evals/suite.yaml".to_owned()),
    )
    .expect("safe eval command");
    assert_eq!(command.program, "cargo");
    assert!(command.args.contains(&"evals/suite.yaml".to_owned()));
    assert_eq!(
        command.args,
        [
            "run",
            "-q",
            "-p",
            "llama-harness-cli",
            "--",
            "eval",
            "run",
            "evals/suite.yaml",
            "--model",
            "ollama/qwen3:latest",
            "--repeat",
            "2"
        ]
        .map(str::to_owned)
        .to_vec()
    );
    assert_eq!(command.cwd, "/project");

    let outside = build_eval_command(
        &workspace(),
        &EvalLaunchRequest {
            suite_path: "../outside.yaml".to_owned(),
            models: vec![],
            repeat: None,
        },
        &ProjectFileProbe::Outside,
    );
    assert!(outside.is_err());

    let invalid_model = build_eval_command(
        &workspace(),
        &EvalLaunchRequest {
            suite_path: "evals/suite.yaml".to_owned(),
            models: vec!["model; unexpected".to_owned()],
            repeat: None,
        },
        &ProjectFileProbe::Inside("evals/suite.yaml".to_owned()),
    );
    assert!(invalid_model.is_err());
}

#[test]
fn promptfoo_artifact_reader_is_fixed_and_size_bounded() {
    let artifact = PromptfooArtifact::new(
        "generated_config",
        "/project/.llama-harness/generated/promptfooconfig.yaml",
        "providers: []".to_owned(),
        13,
    );
    assert_eq!(artifact.kind, "generated_config");
    assert!(artifact.content.contains("providers"));
    assert!(!artifact.truncated);
    let full = PromptfooArtifact::new("raw_result", "/p", String::new(), 524_288);
    assert!(!full.truncated);
    let over = PromptfooArtifact::new("raw_result", "/p", String::new(), 524_289);
    assert!(over.truncated);
}

#[test]
fn workspace_faults_come_in_order() {
    let missing = WorkspaceProbe {
        trace_database: PathProbe::Unopenable("no such file".to_owned()),
        ..probe()
    };
    assert_eq!(
        validate_workspace(workspace(), &missing).unwrap_err(),
        "Trace database does not exist or cannot be opened: no such file"
    );
    let directory = WorkspaceProbe {
        trace_database: PathProbe::Directory("/project".to_owned()),
        ..probe()
    };
    assert_eq!(
        validate_workspace(workspace(), &directory).unwrap_err(),
        "Trace database must be an existing file."
    );
    let file = WorkspaceProbe { project_root: PathProbe::File("/p".to_owned()), ..probe() };
    assert_eq!(
        validate_workspace(workspace(), &file).unwrap_err(),
        "Project root must be an existing directory."
    );
    let outside = WorkspaceProbe {
        agent_manifest: Some(PathProbe::File("/elsewhere/agents.yaml".to_owned())),
        ..probe()
    };
    assert_eq!(
        validate_workspace(workspace(), &outside).unwrap_err(),
        "Agent manifest must be inside the selected project root."
    );
    let invalid = WorkspaceProbe {
        agent_manifest: Some(PathProbe::File("/project/agents.yaml".to_owned())),
        manifest_inside: true,
        manifest_error: Some("broken".to_owned()),
        ..probe()
    };
    assert_eq!(
        validate_workspace(workspace(), &invalid).unwrap_err(),
        "Agent manifest is not valid: broken"
    );
    let mut blank = workspace();
    blank.ollama_url = "   ".to_owned();
    assert_eq!(validate_workspace(blank, &probe()).unwrap_err(), "Ollama URL is required.");
    let mut padded = workspace();
    padded.ollama_url = "  http://localhost:1 ".to_owned();
    assert_eq!(validate_workspace(padded, &probe()).unwrap().ollama_url, "http://localhost:1");
}

#[test]
fn replay_commands_need_a_structured_file() {
    let command = build_replay_command(
        &workspace(),
        &ProjectFileProbe::Inside("evals\\replay.json".to_owned()),
    )
    .unwrap();
    assert_eq!(command.args[6], "evals/replay.json");
    assert_eq!(command.args[7], "--json");
    assert_eq!(
        build_replay_command(&workspace(), &ProjectFileProbe::Inside("a/.json".to_owned()))
            .unwrap_err(),
        "Regression artifact must be a YAML or JSON file."
    );
    assert_eq!(
        build_replay_command(&workspace(), &ProjectFileProbe::NotAFile).unwrap_err(),
        "Regression artifact must be a file."
    );
    assert_eq!(
        build_eval_command(
            &workspace(),
            &EvalLaunchRequest {
                suite_path: "evals/suite.yaml".to_owned(),
                models: vec![],
                repeat: Some(0),
            },
            &ProjectFileProbe::Inside("evals/suite.yaml".to_owned()),
        )
        .unwrap_err(),
        "Repeat must be greater than zero."
    );
}

#[test]
fn extensions_follow_the_last_dot_of_the_last_part() {
    assert_eq!(path_extension("a.b/c.tar.gz").as_deref(), Some("gz"));
    assert_eq!(path_extension("a.b/c"), None);
    assert_eq!(path_extension(".json"), None);
    assert_eq!(path_extension("x.").as_deref(), Some(""));
    assert_eq!(path_extension("a/x.yaml//").as_deref(), Some("yaml"));
    assert_eq!(path_extension("a/x.yaml/./").as_deref(), Some("yaml"));
    assert_eq!(path_extension("a.b/.."), None);
    assert_eq!(path_extension(""), None);
    assert!(build_replay_command(
        &workspace(),
        &ProjectFileProbe::Inside("evals\\x.yaml\\".to_owned())
    )
    .is_ok());
}

#[test]
fn model_identifiers_are_short_and_plain() {
    assert!(validate_model_id("ollama/qwen3:latest").is_ok());
    assert!(validate_model_id("").is_err());
    assert!(validate_model_id(&"a".repeat(200)).is_ok());
    assert!(validate_model_id(&"a".repeat(201)).is_err());
    assert_eq!(
        validate_model_id("a b").unwrap_err(),
        "Model IDs may only contain letters, digits, '-', '_', '.', ':', and '/'."
    );
}

#[test]
fn run_statuses_read_back() {
    for status in [
        RunStatus::Completed,
        RunStatus::Failed,
        RunStatus::Cancelled,
        RunStatus::LimitReached,
    ] {
        assert_eq!(parse_run_status(&run_status_name(status)), Ok(status));
    }
    assert_eq!(run_status_name(RunStatus::LimitReached), "limit_reached");
    assert_eq!(
        parse_run_status("done").unwrap_err(),
        "Run status must be one of: completed, failed, cancelled, limit_reached."
    );
}

#[test]
fn run_queries_ignore_blank_fields() {
    let any = run_filter(&RunQuery {
        trace_id: Some("  ".to_owned()),
        status: Some(String::new()),
    })
    .unwrap();
    assert_eq!(any.trace_id, None);
    assert_eq!(any.status, None);
    assert_eq!(any.limit, 200);
    let failed = run_filter(&RunQuery {
        trace_id: Some("trace".to_owned()),
        status: Some("failed".to_owned()),
    })
    .unwrap();
    assert_eq!(failed.trace_id.as_deref(), Some("trace"));
    assert_eq!(failed.status, Some(RunStatus::Failed));
    assert!(run_filter(&RunQuery { trace_id: None, status: Some(" ".to_owned()) }).is_err());
}

#[test]
fn redaction_fragments_are_trimmed_and_capped() {
    let kept = keep_fragments(&vec![" token ".to_owned(), "  ".to_owned(), "key".to_owned()]);
    assert_eq!(kept, vec!["token".to_owned(), "key".to_owned()]);
    let many: Vec<String> = (0..40).map(|index| format!("k{index}")).collect();
    let kept = keep_fragments(&many);
    assert_eq!(kept.len(), 32);
    assert_eq!(kept[31], "k31");
    let next = update_preferences(
        ConsolePreferences {
            workspace: None,
            raw_payload_preference: true,
            redaction_key_fragments: many,
            retention_days: Some(7),
        },
        Some(Ok(workspace())),
    )
    .unwrap();
    assert_eq!(next.workspace, Some(workspace()));
    assert_eq!(next.retention_days, Some(7));
    assert!(next.raw_payload_preference);
    assert_eq!(next.redaction_key_fragments.len(), 32);
    assert!(update_preferences(
        ConsolePreferences::default(),
        Some(Err("no".to_owned()))
    )
    .is_err());
}

#[test]
fn unhealthy_providers_show_no_models() {
    let models = vec![ModelInfo::new("qwen3")];
    let sick = ConsoleModels::new(ProviderHealth::unhealthy("down"), models.clone());
    assert!(sick.models.is_empty());
    let well = ConsoleModels::new(ProviderHealth::healthy(), models);
    assert_eq!(well.models.len(), 1);
}
