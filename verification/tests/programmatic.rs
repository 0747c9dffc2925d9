use llama_harness_core::agent::{AgentDefinition, RunRequest};
use llama_harness_core::catalog::RegistrationBounds;
use llama_harness_core::error::HarnessError;
use llama_harness_core::event::ProgramLifecycleOutcome;
use llama_harness_core::json::Json;
use llama_harness_core::model::{
    ModelCapabilities, ProgrammaticConformance, ProviderCapabilityLimits,
};
use llama_harness_core::program_schema::{program_schema, SandboxLimits};
use llama_harness_core::programmatic::{
    accepted_limits, check_forced, check_promotion, checked_transcript_sum, effective_programmatic_limits,
    programmatic_deadline, sandbox_error, terminal_lifecycle_outcome, ProgrammaticBrokerSummary,
    ProgrammaticHostConfig, ProgrammaticTranscript, ProgrammaticWorkloadClass, Promotion,
    SandboxFaultKind,
};
use llama_harness_core::runner::AgentRunner;

const SYNTHESIS_PROMPT: &str = "A verified program completed. Produce the final answer using only the bounded program return and value-free broker call summary in the next user message.";

fn transcript(limit: u64, maximum_program_return_bytes: u64) -> ProgrammaticTranscript {
    ProgrammaticTranscript {
        summary: ProgrammaticBrokerSummary { total: 0, succeeded: 0, failed: 0 },
        initial_message_bytes: 17,
        limit,
        maximum_program_return_bytes,
    }
}

fn expected_payload(program_return: &Json, summary: ProgrammaticBrokerSummary) -> String {
    format!(
        "{{\"program_return\":{},\"broker_calls\":{{\"total\":{},\"succeeded\":{},\"failed\":{}}}}}",
        program_return.to_json_text(),
        summary.total,
        summary.succeeded,
        summary.failed
    )
}

fn assert_payload_matches_serde(transcript: &ProgrammaticTranscript, program_return: &Json) {
    assert_eq!(
        transcript.serialize_synthesis_input(program_return).unwrap(),
        expected_payload(program_return, transcript.summary)
    );
}

fn sandbox_limits() -> SandboxLimits {
    SandboxLimits {
        max_program_bytes: 65_536,
        max_ast_nodes: 1_024,
        max_loop_iterations: 256,
        max_collection_items: 512,
        max_fanout: 16,
        max_output_bytes: 4_096,
        max_slice_fuel: 1_000,
    }
}

#[test]
fn synthesis_summary_accounting_matches_canonical_serialization() {
    let program_return = Json::parse(r#"{"value":"returned","items":[1,2,3]}"#).unwrap();
    let return_bytes = program_return.to_json_text().len() as u64;
    let mut transcript = transcript(u64::MAX, return_bytes);

    assert_payload_matches_serde(&transcript, &program_return);

    transcript.record(true).unwrap();
    assert_payload_matches_serde(&transcript, &program_return);

    transcript.record(false).unwrap();
    transcript.record(true).unwrap();
    assert_payload_matches_serde(&transcript, &program_return);
    assert_eq!(transcript.summary.total, 3);
    assert_eq!(transcript.summary.succeeded, 2);
    assert_eq!(transcript.summary.failed, 1);
}

#[test]
fn synthesis_summary_enforces_exact_record_and_batch_boundaries() {
    let program_return = Json::parse(r#"{"summary":"bounded"}"#).unwrap();
    let return_bytes = program_return.to_json_text().len() as u64;
    let mut probe = transcript(u64::MAX, return_bytes);
    for _ in 0..10 {
        probe.record(true).unwrap();
    }
    let payload = probe.serialize_synthesis_input(&program_return).unwrap().len() as u64;
    let limit = checked_transcript_sum(
        probe.initial_message_bytes,
        SYNTHESIS_PROMPT.len() as u64,
        payload,
    )
    .unwrap();

    let mut rejected = transcript(limit - 1, return_bytes);
    for _ in 0..9 {
        rejected.record(true).unwrap();
    }
    assert!(matches!(rejected.record(true), Err(HarnessError::ResourceLimit(_))));
    assert_eq!(rejected.summary.total, 9);
    assert_payload_matches_serde(&rejected, &program_return);

    let mut at_limit = transcript(limit, return_bytes);
    for _ in 0..10 {
        at_limit.record(true).unwrap();
    }
    assert_payload_matches_serde(&at_limit, &program_return);

    let mut above_limit = transcript(limit + 1, return_bytes);
    for _ in 0..10 {
        above_limit.record(true).unwrap();
    }
    assert_payload_matches_serde(&above_limit, &program_return);

    let fanout_summary = ProgrammaticBrokerSummary { total: 3, succeeded: 3, failed: 3 };
    let fanout_payload = expected_payload(&program_return, fanout_summary).len() as u64;
    let fanout_limit =
        checked_transcript_sum(17, SYNTHESIS_PROMPT.len() as u64, fanout_payload).unwrap();
    assert!(matches!(
        transcript(fanout_limit - 1, return_bytes).ensure_summary(fanout_summary, return_bytes),
        Err(HarnessError::ResourceLimit(_))
    ));
    transcript(fanout_limit, return_bytes)
        .ensure_summary(fanout_summary, return_bytes)
        .unwrap();
    transcript(fanout_limit + 1, return_bytes)
        .ensure_summary(fanout_summary, return_bytes)
        .unwrap();
}

#[test]
fn synthesis_summary_omits_raw_fanout_values() {
    let program_return = Json::parse(r#"{"status":"complete"}"#).unwrap();
    let mut transcript =
        transcript(u64::MAX, program_return.to_json_text().len() as u64);
    for index in 0..512u64 {
        transcript.record(index % 3 != 0).unwrap();
    }
    assert_payload_matches_serde(&transcript, &program_return);
    let serialized = transcript.serialize_synthesis_input(&program_return).unwrap();
    let payload = Json::parse(&serialized).unwrap();
    assert_eq!(
        payload.pointer("/broker_calls/total"),
        Some(Json::Number("512".to_owned()))
    );
    assert_eq!(
        payload.pointer("/broker_calls/succeeded"),
        Some(Json::Number("341".to_owned()))
    );
    assert_eq!(
        payload.pointer("/broker_calls/failed"),
        Some(Json::Number("171".to_owned()))
    );
    assert!(!serialized.contains("fanout_read"));
    assert!(!serialized.contains("arguments"));
    assert!(!serialized.contains("output"));
    assert!(serialized.len() < 128);
}

#[test]
fn transcript_sums_stop_at_the_top() {
    assert_eq!(checked_transcript_sum(1, 2, 3), Some(6));
    assert_eq!(checked_transcript_sum(u64::MAX, 0, 1), None);
}

#[test]
fn host_configurations_are_checked_before_use() {
    let config = ProgrammaticHostConfig::with_limits(sandbox_limits());
    assert!(config.validate(true).is_ok());
    assert_eq!(
        config.validate(false),
        Err(HarnessError::InvalidRequest("invalid programmatic sandbox limits".to_owned()))
    );
    let endless = ProgrammaticHostConfig { max_duration_ms: 300_001, ..config };
    assert_eq!(
        endless.validate(true),
        Err(HarnessError::InvalidRequest(
            "programmatic duration must be within 1..=300000 milliseconds".to_owned()
        ))
    );
    let crowded = ProgrammaticHostConfig { max_active_vms: usize::MAX, ..config };
    assert_eq!(crowded.admission_permits(), 16);
    assert!(crowded.validate(true).is_err());
    let closed = ProgrammaticHostConfig { max_active_vms: 0, ..config };
    assert_eq!(closed.admission_permits(), 1);
    let wide = ProgrammaticHostConfig { max_fanout_concurrency: 9, ..config };
    assert_eq!(
        wide.validate(true),
        Err(HarnessError::InvalidRequest(
            "programmatic fan-out concurrency must be within 1..=8".to_owned()
        ))
    );
}

fn capable(max_program_bytes: u64) -> ModelCapabilities {
    ModelCapabilities::new(true, false, true)
        .with_programmatic_calling(true)
        .with_programmatic_conformance(ProgrammaticConformance::StrictJsonAstV1)
        .with_limits(ProviderCapabilityLimits::new().with_max_program_bytes(max_program_bytes))
}

fn request() -> RunRequest {
    RunRequest::new(AgentDefinition::new("agent", "Agent", "1", "mock-model"), "hello")
}

#[test]
fn forced_programs_need_an_opt_in_and_a_capable_provider() {
    let config = Some(ProgrammaticHostConfig::with_limits(sandbox_limits()));
    assert!(matches!(
        check_forced(&None, true, &capable(100), &request()),
        Err(HarnessError::UnsupportedCapability(_))
    ));
    assert!(matches!(
        check_forced(&config, true, &ModelCapabilities::new(true, false, true), &request()),
        Err(HarnessError::UnsupportedCapability(_))
    ));
    assert_eq!(check_forced(&config, true, &capable(100), &request()), Ok(100));
    let mut short = request();
    short.agent.limits.max_model_calls = 1;
    assert!(check_forced(&config, true, &capable(100), &short).is_err());
}

#[test]
fn promotion_needs_an_allowed_workload_class() {
    let config = Some(ProgrammaticHostConfig::with_limits(sandbox_limits()));
    let allowed = vec![ProgrammaticWorkloadClass::FanOut];
    let refused = check_promotion(
        &allowed,
        ProgrammaticWorkloadClass::Loop,
        &config,
        true,
        &capable(100),
        &request(),
        1,
    );
    assert!(matches!(refused, Ok(Promotion::Refused)));
    let promoted = check_promotion(
        &allowed,
        ProgrammaticWorkloadClass::FanOut,
        &config,
        true,
        &capable(100),
        &request(),
        1,
    );
    assert!(matches!(promoted, Ok(Promotion::Allowed(100))));
    assert_eq!(ProgrammaticWorkloadClass::LargeIntermediateData.as_str(), "large_intermediate_data");
}

#[test]
fn program_deadlines_and_limits_take_the_tighter_bound() {
    let config = ProgrammaticHostConfig {
        max_duration_ms: 1_000,
        ..ProgrammaticHostConfig::with_limits(sandbox_limits())
    };
    assert_eq!(programmatic_deadline(&config, None, 50), Ok(Some(1_050)));
    assert_eq!(programmatic_deadline(&config, Some(500), 50), Ok(Some(500)));
    assert!(programmatic_deadline(&config, None, u64::MAX).is_err());
    let narrowed = effective_programmatic_limits(&sandbox_limits(), 2_000, 1_000);
    assert_eq!(accepted_limits(narrowed, true), Ok(narrowed));
    assert_eq!(
        accepted_limits(narrowed, false),
        Err(HarnessError::UnsupportedCapability(
            "effective provider program byte limit is invalid".to_owned()
        ))
    );
    assert_eq!(narrowed.max_program_bytes, 1_000);
    assert_eq!(narrowed.max_output_bytes, 4_096);
}

#[test]
fn sandbox_faults_become_harness_errors() {
    assert!(matches!(
        sandbox_error(SandboxFaultKind::ResourceLimit, "fuel"),
        HarnessError::ResourceLimit(_)
    ));
    assert_eq!(
        terminal_lifecycle_outcome(&HarnessError::Cancelled),
        ProgramLifecycleOutcome::Cancelled
    );
    assert_eq!(
        terminal_lifecycle_outcome(&HarnessError::TimedOut("late".to_owned())),
        ProgramLifecycleOutcome::TimedOut
    );
    assert_eq!(
        terminal_lifecycle_outcome(&HarnessError::ResourceLimit("much".to_owned())),
        ProgramLifecycleOutcome::LimitReached
    );
}

#[test]
fn transcripts_start_with_the_messages_of_the_run() {
    let run = request();
    let fresh = ProgrammaticTranscript::new(&run, &sandbox_limits()).unwrap();
    assert_eq!(fresh.summary, ProgrammaticBrokerSummary::none());
    assert_eq!(fresh.limit, run.agent.limits.max_transcript_bytes);
    assert_eq!(fresh.maximum_program_return_bytes, 4_096);
    assert!(fresh.reserve_batch(2).is_ok());
    let full = ProgrammaticTranscript { limit: 10, ..fresh };
    assert!(matches!(full.reserve_batch(1), Err(HarnessError::ResourceLimit(_))));
}

#[test]
fn program_schemas_follow_the_sandbox_limits() {
    let schema = program_schema(&sandbox_limits());
    let text = schema.to_json_text();
    assert!(text.contains("https://json-schema.org/draft/2020-12/schema"));
    assert_eq!(schema.pointer("/type"), Some(Json::Text("object".to_owned())));
    assert_eq!(
        schema.pointer("/required/1"),
        Some(Json::Text("body".to_owned()))
    );
}

#[test]
fn builders_collect_the_programmatic_choices() {
    let bounds = RegistrationBounds {
        max_id_bytes: 128,
        max_name_bytes: 256,
        max_safe_metadata_bytes: 4096,
    };
    let config = ProgrammaticHostConfig {
        max_active_vms: 40,
        ..ProgrammaticHostConfig::with_limits(sandbox_limits())
    };
    let runner = AgentRunner::builder(bounds)
        .programmatic(config)
        .adaptive_programmatic_allowlist(vec![ProgrammaticWorkloadClass::Loop])
        .adaptive_programmatic_allowlist(vec![ProgrammaticWorkloadClass::FanOut])
        .build();
    assert_eq!(runner.programmatic_permits, 16);
    assert_eq!(
        runner.adaptive_programmatic_allowlist,
        vec![ProgrammaticWorkloadClass::Loop, ProgrammaticWorkloadClass::FanOut]
    );
    assert_eq!(runner.programmatic, Some(config));
}
