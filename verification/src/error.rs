//! Errors of a run, their stable codes and their texts.

use crate::text::join2;
use vstd::prelude::*;

verus! {

/// Stable, value-free reasons why a provider-neutral model stream failed.
#[derive(Clone, Copy, Debug, PartialEq, Eq, Structural)]
#[non_exhaustive]
pub enum ModelStreamFailureKind {
    /// An event arrived after the stream completed successfully.
    EventAfterCompletion,
    /// An event arrived after the stream had already failed.
    EventAfterFailure,
    /// EOF was observed after the stream had already failed.
    EofAfterFailure,
    /// EOF arrived before an explicit completion event.
    EofBeforeCompletion,
    /// Completion arrived while a tool call was still incomplete.
    CompletionWithPendingCall,
    /// EOF arrived while a tool call was still incomplete.
    EofWithPendingCall,
    /// Direct assembler finalization found an incomplete tool call.
    IncompletePendingCall,
    /// A fragment arrived after its indexed tool call had completed.
    FragmentAfterCallCompletion,
    /// A streamed call identifier was empty or exceeded its bound.
    InvalidCallId,
    /// A streamed tool identifier was empty or exceeded its bound.
    InvalidToolId,
    /// A streamed call identifier changed between fragments.
    ConflictingCallId,
    /// A streamed tool identifier changed between fragments.
    ConflictingToolId,
    /// A final tool call did not provide a call identifier.
    MissingCallId,
    /// A final tool call did not provide a tool identifier.
    MissingToolId,
    /// Two completed tool calls used the same call identifier.
    DuplicateCallId,
    /// A completed call selected a tool outside the allowed catalog.
    UnknownTool,
    /// Completed tool arguments were not valid JSON.
    MalformedArgumentsJson,
    /// Completed tool arguments did not satisfy the registered schema.
    ArgumentsSchemaMismatch,
    /// The upstream provider stream returned a non-resource failure.
    UpstreamProviderFailure,
}

impl ModelStreamFailureKind {
    /// The stable machine-readable run-error code.
    pub open spec fn code_text(self) -> Seq<char> {
        match self {
            ModelStreamFailureKind::EventAfterCompletion => "model_stream.event_after_completion"@,
            ModelStreamFailureKind::EventAfterFailure => "model_stream.event_after_failure"@,
            ModelStreamFailureKind::EofAfterFailure => "model_stream.eof_after_failure"@,
            ModelStreamFailureKind::EofBeforeCompletion => "model_stream.eof_before_completion"@,
            ModelStreamFailureKind::CompletionWithPendingCall => "model_stream.completion_with_pending_call"@,
            ModelStreamFailureKind::EofWithPendingCall => "model_stream.eof_with_pending_call"@,
            ModelStreamFailureKind::IncompletePendingCall => "model_stream.incomplete_pending_call"@,
            ModelStreamFailureKind::FragmentAfterCallCompletion => "model_stream.fragment_after_call_completion"@,
            ModelStreamFailureKind::InvalidCallId => "model_stream.invalid_call_id"@,
            ModelStreamFailureKind::InvalidToolId => "model_stream.invalid_tool_id"@,
            ModelStreamFailureKind::ConflictingCallId => "model_stream.conflicting_call_id"@,
            ModelStreamFailureKind::ConflictingToolId => "model_stream.conflicting_tool_id"@,
            ModelStreamFailureKind::MissingCallId => "model_stream.missing_call_id"@,
            ModelStreamFailureKind::MissingToolId => "model_stream.missing_tool_id"@,
            ModelStreamFailureKind::DuplicateCallId => "model_stream.duplicate_call_id"@,
            ModelStreamFailureKind::UnknownTool => "model_stream.unknown_tool"@,
            ModelStreamFailureKind::MalformedArgumentsJson => "model_stream.malformed_arguments_json"@,
            ModelStreamFailureKind::ArgumentsSchemaMismatch => "model_stream.arguments_schema_mismatch"@,
            ModelStreamFailureKind::UpstreamProviderFailure => "model_stream.upstream_provider_failure"@,
        }
    }

    /// The stable human-readable message.
    pub open spec fn message_text(self) -> Seq<char> {
        match self {
            ModelStreamFailureKind::EventAfterCompletion => "model stream event received after completion"@,
            ModelStreamFailureKind::EventAfterFailure => "model stream event received after terminal failure"@,
            ModelStreamFailureKind::EofAfterFailure => "model stream EOF received after terminal failure"@,
            ModelStreamFailureKind::EofBeforeCompletion => "model stream reached EOF before completion"@,
            ModelStreamFailureKind::CompletionWithPendingCall => "model stream completed with an incomplete tool call"@,
            ModelStreamFailureKind::EofWithPendingCall => "model stream reached EOF with an incomplete tool call"@,
            ModelStreamFailureKind::IncompletePendingCall => "model stream ended with an incomplete tool call"@,
            ModelStreamFailureKind::FragmentAfterCallCompletion => "model stream tool-call fragment received after call completion"@,
            ModelStreamFailureKind::InvalidCallId => "model stream provided an invalid call identifier"@,
            ModelStreamFailureKind::InvalidToolId => "model stream provided an invalid tool identifier"@,
            ModelStreamFailureKind::ConflictingCallId => "model stream changed a tool-call identifier"@,
            ModelStreamFailureKind::ConflictingToolId => "model stream changed a tool identifier"@,
            ModelStreamFailureKind::MissingCallId => "model stream omitted a final call identifier"@,
            ModelStreamFailureKind::MissingToolId => "model stream omitted a final tool identifier"@,
            ModelStreamFailureKind::DuplicateCallId => "model stream reused a tool-call identifier"@,
            ModelStreamFailureKind::UnknownTool => "model stream selected an unknown tool"@,
            ModelStreamFailureKind::MalformedArgumentsJson => "model stream produced malformed tool arguments"@,
            ModelStreamFailureKind::ArgumentsSchemaMismatch => "model stream tool arguments failed schema validation"@,
            ModelStreamFailureKind::UpstreamProviderFailure => "upstream model stream failed"@,
        }
    }

    /// Returns the stable machine-readable run-error code.
    pub fn code(self) -> (result: &'static str)
        ensures
            result@ == self.code_text(),
    {
        match self {
            ModelStreamFailureKind::EventAfterCompletion => "model_stream.event_after_completion",
            ModelStreamFailureKind::EventAfterFailure => "model_stream.event_after_failure",
            ModelStreamFailureKind::EofAfterFailure => "model_stream.eof_after_failure",
            ModelStreamFailureKind::EofBeforeCompletion => "model_stream.eof_before_completion",
            ModelStreamFailureKind::CompletionWithPendingCall => "model_stream.completion_with_pending_call",
            ModelStreamFailureKind::EofWithPendingCall => "model_stream.eof_with_pending_call",
            ModelStreamFailureKind::IncompletePendingCall => "model_stream.incomplete_pending_call",
            ModelStreamFailureKind::FragmentAfterCallCompletion => "model_stream.fragment_after_call_completion",
            ModelStreamFailureKind::InvalidCallId => "model_stream.invalid_call_id",
            ModelStreamFailureKind::InvalidToolId => "model_stream.invalid_tool_id",
            ModelStreamFailureKind::ConflictingCallId => "model_stream.conflicting_call_id",
            ModelStreamFailureKind::ConflictingToolId => "model_stream.conflicting_tool_id",
            ModelStreamFailureKind::MissingCallId => "model_stream.missing_call_id",
            ModelStreamFailureKind::MissingToolId => "model_stream.missing_tool_id",
            ModelStreamFailureKind::DuplicateCallId => "model_stream.duplicate_call_id",
            ModelStreamFailureKind::UnknownTool => "model_stream.unknown_tool",
            ModelStreamFailureKind::MalformedArgumentsJson => "model_stream.malformed_arguments_json",
            ModelStreamFailureKind::ArgumentsSchemaMismatch => "model_stream.arguments_schema_mismatch",
            ModelStreamFailureKind::UpstreamProviderFailure => "model_stream.upstream_provider_failure",
        }
    }

    /// Returns the stable human-readable message without provider-controlled data.
    pub fn message(self) -> (result: &'static str)
        ensures
            result@ == self.message_text(),
    {
        match self {
            ModelStreamFailureKind::EventAfterCompletion => "model stream event received after completion",
            ModelStreamFailureKind::EventAfterFailure => "model stream event received after terminal failure",
            ModelStreamFailureKind::EofAfterFailure => "model stream EOF received after terminal failure",
            ModelStreamFailureKind::EofBeforeCompletion => "model stream reached EOF before completion",
            ModelStreamFailureKind::CompletionWithPendingCall => "model stream completed with an incomplete tool call",
            ModelStreamFailureKind::EofWithPendingCall => "model stream reached EOF with an incomplete tool call",
            ModelStreamFailureKind::IncompletePendingCall => "model stream ended with an incomplete tool call",
            ModelStreamFailureKind::FragmentAfterCallCompletion => "model stream tool-call fragment received after call completion",
            ModelStreamFailureKind::InvalidCallId => "model stream provided an invalid call identifier",
            ModelStreamFailureKind::InvalidToolId => "model stream provided an invalid tool identifier",
            ModelStreamFailureKind::ConflictingCallId => "model stream changed a tool-call identifier",
            ModelStreamFailureKind::ConflictingToolId => "model stream changed a tool identifier",
            ModelStreamFailureKind::MissingCallId => "model stream omitted a final call identifier",
            ModelStreamFailureKind::MissingToolId => "model stream omitted a final tool identifier",
            ModelStreamFailureKind::DuplicateCallId => "model stream reused a tool-call identifier",
            ModelStreamFailureKind::UnknownTool => "model stream selected an unknown tool",
            ModelStreamFailureKind::MalformedArgumentsJson => "model stream produced malformed tool arguments",
            ModelStreamFailureKind::ArgumentsSchemaMismatch => "model stream tool arguments failed schema validation",
            ModelStreamFailureKind::UpstreamProviderFailure => "upstream model stream failed",
        }
    }
}

/// Error information captured in a run result.
///
/// `S` is the text: `String` in running code, a sequence of characters in contracts.
#[derive(Clone, Debug, PartialEq, Eq)]
#[non_exhaustive]
pub struct RunError<S = String> {
    /// Stable machine-readable error code.
    pub code: S,
    /// Human-readable error message.
    pub message: S,
}

impl View for RunError<String> {
    type V = RunError<Seq<char>>;

    open spec fn view(&self) -> RunError<Seq<char>> {
        RunError { code: self.code@, message: self.message@ }
    }
}

impl RunError {
    /// Creates a stable run error.
    pub fn new(code: &str, message: &str) -> (result: RunError)
        ensures
            result@ == (RunError { code: code@, message: message@ }),
    {
        RunError { code: code.to_owned(), message: message.to_owned() }
    }
}

/// The views of recorded run errors.
pub open spec fn run_errors(errors: Seq<RunError>) -> Seq<RunError<Seq<char>>> {
    errors.map_values(|error: RunError| error@)
}

/// Errors raised while validating or executing a run.
///
/// `S` is the text: `String` in running code, a sequence of characters in contracts.
#[derive(Clone, Debug, PartialEq, Eq)]
#[non_exhaustive]
pub enum HarnessError<S = String> {
    /// The run request is invalid.
    InvalidRequest(S),
    /// A requested tool is unknown or improperly registered.
    InvalidTool(S),
    /// Tool arguments failed schema validation.
    InvalidArguments(S),
    /// The model provider returned a non-retryable error.
    Provider(S),
    /// The model provider returned an error eligible for retry.
    RetryableProvider(S),
    /// The selected provider does not implement a requested optional capability.
    UnsupportedCapability(S),
    /// Policy evaluation failed.
    Policy(S),
    /// Approval handling failed.
    Approval(S),
    /// Tool execution failed.
    Tool(S),
    /// A configured operation timeout elapsed.
    TimedOut(S),
    /// A configured resource limit was exceeded.
    ResourceLimit(S),
    /// Final output failed structured-output validation.
    InvalidOutput(S),
    /// A provider-neutral model stream failed with a stable value-free reason.
    ModelStream {
        /// Stable reason for the stream failure.
        kind: ModelStreamFailureKind,
    },
    /// Cooperative cancellation stopped the operation.
    Cancelled,
}

impl View for HarnessError<String> {
    type V = HarnessError<Seq<char>>;

    open spec fn view(&self) -> HarnessError<Seq<char>> {
        match self {
            HarnessError::InvalidRequest(text) => HarnessError::InvalidRequest(text@),
            HarnessError::InvalidTool(text) => HarnessError::InvalidTool(text@),
            HarnessError::InvalidArguments(text) => HarnessError::InvalidArguments(text@),
            HarnessError::Provider(text) => HarnessError::Provider(text@),
            HarnessError::RetryableProvider(text) => HarnessError::RetryableProvider(text@),
            HarnessError::UnsupportedCapability(text) => HarnessError::UnsupportedCapability(text@),
            HarnessError::Policy(text) => HarnessError::Policy(text@),
            HarnessError::Approval(text) => HarnessError::Approval(text@),
            HarnessError::Tool(text) => HarnessError::Tool(text@),
            HarnessError::TimedOut(text) => HarnessError::TimedOut(text@),
            HarnessError::ResourceLimit(text) => HarnessError::ResourceLimit(text@),
            HarnessError::InvalidOutput(text) => HarnessError::InvalidOutput(text@),
            HarnessError::ModelStream { kind } => HarnessError::ModelStream { kind: *kind },
            HarnessError::Cancelled => HarnessError::Cancelled,
        }
    }
}

impl HarnessError<Seq<char>> {
    /// The stable code of the error.
    pub open spec fn code_text(self) -> Seq<char> {
        match self {
            HarnessError::InvalidRequest(_) => "invalid_request"@,
            HarnessError::InvalidTool(_) => "invalid_tool"@,
            HarnessError::InvalidArguments(_) => "invalid_arguments"@,
            HarnessError::Provider(_) => "provider_error"@,
            HarnessError::RetryableProvider(_) => "provider_error"@,
            HarnessError::UnsupportedCapability(_) => "unsupported_capability"@,
            HarnessError::Policy(_) => "policy_error"@,
            HarnessError::Approval(_) => "approval_error"@,
            HarnessError::Tool(_) => "tool_error"@,
            HarnessError::TimedOut(_) => "timed_out"@,
            HarnessError::ResourceLimit(_) => "resource_limit"@,
            HarnessError::InvalidOutput(_) => "invalid_output"@,
            HarnessError::ModelStream { kind } => kind.code_text(),
            HarnessError::Cancelled => "cancelled"@,
        }
    }

    /// The text of the error.
    pub open spec fn display_text(self) -> Seq<char> {
        match self {
            HarnessError::InvalidRequest(text) => "invalid request: "@ + text,
            HarnessError::InvalidTool(text) => "invalid tool: "@ + text,
            HarnessError::InvalidArguments(text) => "invalid tool arguments: "@ + text,
            HarnessError::Provider(text) => "provider error: "@ + text,
            HarnessError::RetryableProvider(text) => "retryable provider error: "@ + text,
            HarnessError::UnsupportedCapability(text) => "unsupported capability: "@ + text,
            HarnessError::Policy(text) => "policy error: "@ + text,
            HarnessError::Approval(text) => "approval error: "@ + text,
            HarnessError::Tool(text) => "tool error: "@ + text,
            HarnessError::TimedOut(text) => "timed out: "@ + text,
            HarnessError::ResourceLimit(text) => "resource limit reached: "@ + text,
            HarnessError::InvalidOutput(text) => "invalid structured output: "@ + text,
            HarnessError::ModelStream { kind } => kind.message_text(),
            HarnessError::Cancelled => "cancelled"@,
        }
    }

    /// The run error that records this error.
    pub open spec fn recorded(self) -> RunError<Seq<char>> {
        RunError { code: self.code_text(), message: self.display_text() }
    }
}

impl HarnessError {
    /// The text of the error.
    pub fn to_text(&self) -> (result: String)
        ensures
            result@ == self@.display_text(),
    {
        match self {
            HarnessError::InvalidRequest(text) => join2("invalid request: ", text.as_str()),
            HarnessError::InvalidTool(text) => join2("invalid tool: ", text.as_str()),
            HarnessError::InvalidArguments(text) => join2("invalid tool arguments: ", text.as_str()),
            HarnessError::Provider(text) => join2("provider error: ", text.as_str()),
            HarnessError::RetryableProvider(text) => join2("retryable provider error: ", text.as_str()),
            HarnessError::UnsupportedCapability(text) => join2("unsupported capability: ", text.as_str()),
            HarnessError::Policy(text) => join2("policy error: ", text.as_str()),
            HarnessError::Approval(text) => join2("approval error: ", text.as_str()),
            HarnessError::Tool(text) => join2("tool error: ", text.as_str()),
            HarnessError::TimedOut(text) => join2("timed out: ", text.as_str()),
            HarnessError::ResourceLimit(text) => join2("resource limit reached: ", text.as_str()),
            HarnessError::InvalidOutput(text) => join2("invalid structured output: ", text.as_str()),
            HarnessError::ModelStream { kind } => kind.message().to_owned(),
            HarnessError::Cancelled => "cancelled".to_owned(),
        }
    }

    fn code(&self) -> (result: &'static str)
        ensures
            result@ == self@.code_text(),
    {
        match self {
            HarnessError::InvalidRequest(_) => "invalid_request",
            HarnessError::InvalidTool(_) => "invalid_tool",
            HarnessError::InvalidArguments(_) => "invalid_arguments",
            HarnessError::Provider(_) => "provider_error",
            HarnessError::RetryableProvider(_) => "provider_error",
            HarnessError::UnsupportedCapability(_) => "unsupported_capability",
            HarnessError::Policy(_) => "policy_error",
            HarnessError::Approval(_) => "approval_error",
            HarnessError::Tool(_) => "tool_error",
            HarnessError::TimedOut(_) => "timed_out",
            HarnessError::ResourceLimit(_) => "resource_limit",
            HarnessError::InvalidOutput(_) => "invalid_output",
            HarnessError::ModelStream { kind } => kind.code(),
            HarnessError::Cancelled => "cancelled",
        }
    }

    /// The serializable form of the error: its stable code and its text.
    pub fn run_error(&self) -> (result: RunError)
        ensures
            result@ == self@.recorded(),
    {
        RunError { code: self.code().to_owned(), message: self.to_text() }
    }

    /// A copy of the error.
    pub fn duplicate(&self) -> (result: HarnessError)
        ensures
            result == *self,
    {
        match self {
            HarnessError::InvalidRequest(text) => HarnessError::InvalidRequest(text.clone()),
            HarnessError::InvalidTool(text) => HarnessError::InvalidTool(text.clone()),
            HarnessError::InvalidArguments(text) => HarnessError::InvalidArguments(text.clone()),
            HarnessError::Provider(text) => HarnessError::Provider(text.clone()),
            HarnessError::RetryableProvider(text) => HarnessError::RetryableProvider(text.clone()),
            HarnessError::UnsupportedCapability(text) => HarnessError::UnsupportedCapability(text.clone()),
            HarnessError::Policy(text) => HarnessError::Policy(text.clone()),
            HarnessError::Approval(text) => HarnessError::Approval(text.clone()),
            HarnessError::Tool(text) => HarnessError::Tool(text.clone()),
            HarnessError::TimedOut(text) => HarnessError::TimedOut(text.clone()),
            HarnessError::ResourceLimit(text) => HarnessError::ResourceLimit(text.clone()),
            HarnessError::InvalidOutput(text) => HarnessError::InvalidOutput(text.clone()),
            HarnessError::ModelStream { kind } => HarnessError::ModelStream { kind: *kind },
            HarnessError::Cancelled => HarnessError::Cancelled,
        }
    }
}

} // verus!
