use llama_harness_core::error::{HarnessError, ModelStreamFailureKind};

#[test]
fn model_stream_failures_have_exact_value_free_run_errors() {
    let expected = [
        (
            ModelStreamFailureKind::EventAfterCompletion,
            "model_stream.event_after_completion",
            "model stream event received after completion",
        ),
        (
            ModelStreamFailureKind::EventAfterFailure,
            "model_stream.event_after_failure",
            "model stream event received after terminal failure",
        ),
        (
            ModelStreamFailureKind::EofAfterFailure,
            "model_stream.eof_after_failure",
            "model stream EOF received after terminal failure",
        ),
        (
            ModelStreamFailureKind::EofBeforeCompletion,
            "model_stream.eof_before_completion",
            "model stream reached EOF before completion",
        ),
        (
            ModelStreamFailureKind::CompletionWithPendingCall,
            "model_stream.completion_with_pending_call",
            "model stream completed with an incomplete tool call",
        ),
        (
            ModelStreamFailureKind::EofWithPendingCall,
            "model_stream.eof_with_pending_call",
            "model stream reached EOF with an incomplete tool call",
        ),
        (
            ModelStreamFailureKind::IncompletePendingCall,
            "model_stream.incomplete_pending_call",
            "model stream ended with an incomplete tool call",
        ),
        (
            ModelStreamFailureKind::FragmentAfterCallCompletion,
            "model_stream.fragment_after_call_completion",
            "model stream tool-call fragment received after call completion",
        ),
        (
            ModelStreamFailureKind::InvalidCallId,
            "model_stream.invalid_call_id",
            "model stream provided an invalid call identifier",
        ),
        (
            ModelStreamFailureKind::InvalidToolId,
            "model_stream.invalid_tool_id",
            "model stream provided an invalid tool identifier",
        ),
        (
            ModelStreamFailureKind::ConflictingCallId,
            "model_stream.conflicting_call_id",
            "model stream changed a tool-call identifier",
        ),
        (
            ModelStreamFailureKind::ConflictingToolId,
            "model_stream.conflicting_tool_id",
            "model stream changed a tool identifier",
        ),
        (
            ModelStreamFailureKind::MissingCallId,
            "model_stream.missing_call_id",
            "model stream omitted a final call identifier",
        ),
        (
            ModelStreamFailureKind::MissingToolId,
            "model_stream.missing_tool_id",
            "model stream omitted a final tool identifier",
        ),
        (
            ModelStreamFailureKind::DuplicateCallId,
            "model_stream.duplicate_call_id",
            "model stream reused a tool-call identifier",
        ),
        (
            ModelStreamFailureKind::UnknownTool,
            "model_stream.unknown_tool",
            "model stream selected an unknown tool",
        ),
        (
            ModelStreamFailureKind::MalformedArgumentsJson,
            "model_stream.malformed_arguments_json",
            "model stream produced malformed tool arguments",
        ),
        (
            ModelStreamFailureKind::ArgumentsSchemaMismatch,
            "model_stream.arguments_schema_mismatch",
            "model stream tool arguments failed schema validation",
        ),
        (
            ModelStreamFailureKind::UpstreamProviderFailure,
            "model_stream.upstream_provider_failure",
            "upstream model stream failed",
        ),
    ];

    for (kind, code, message) in expected {
        let error: HarnessError = HarnessError::ModelStream { kind };
        assert_eq!(kind.code(), code);
        assert_eq!(kind.message(), message);
        assert_eq!(error.to_text(), message);
        let run_error = error.run_error();
        assert_eq!(run_error.code, code);
        assert_eq!(run_error.message, message);
        assert!(!run_error.message.contains("sentinel-provider-controlled-value"));
        assert!(!run_error.code.contains("sentinel-provider-controlled-value"));
    }
}
