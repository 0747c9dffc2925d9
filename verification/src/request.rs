//! What a run request must satisfy, and what a structured output must.

use crate::agent::RunRequest;
use crate::error::HarnessError;
use crate::json::{depth, parse_json, parsed_json, Json, JsonTree};
use crate::schema::{
    compile_trusted_schema, instance_fault, trusted_schema_fault, validate_instance,
};
use crate::limits::{check_view, depth_check, ensure_json_depth, AgentLimits};
use crate::message::{ensure_transcript, transcript_check};
use crate::text::{blank, byte_len, decimal, decimal_digits, is_blank, join2, join3, utf8_len};
use vstd::prelude::*;

verus! {

/// Limits of programmatic execution.
#[derive(Clone, Copy, Debug, PartialEq, Eq, Structural)]
pub struct ProgrammaticLimits {
    /// Bytes of one program.
    pub max_program_bytes: u64,
    /// Calls of one fan-out at the same time.
    pub max_fanout_concurrency: u32,
}

/// Whether every limit that must be nonzero is.
pub open spec fn limits_nonzero(limits: AgentLimits, programmatic: ProgrammaticLimits) -> bool {
    &&& limits.max_model_calls != 0
    &&& limits.max_tool_calls != 0
    &&& limits.max_identical_tool_calls != 0
    &&& limits.max_input_bytes != 0
    &&& limits.max_request_payload_bytes != 0
    &&& limits.max_model_response_bytes != 0
    &&& limits.max_tool_arguments_bytes != 0
    &&& limits.max_tool_result_bytes != 0
    &&& limits.max_transcript_bytes != 0
    &&& limits.max_json_depth != 0
    &&& programmatic.max_program_bytes != 0
    &&& programmatic.max_fanout_concurrency != 0
}

/// The error of an invalid request.
pub open spec fn invalid(message: Seq<char>) -> Result<(), HarnessError<Seq<char>>> {
    Err(HarnessError::InvalidRequest(message))
}

/// An error told as that of an invalid request.
pub open spec fn told(check: Result<(), HarnessError<Seq<char>>>) -> Result<
    (),
    HarnessError<Seq<char>>,
> {
    match check {
        Ok(_) => Ok(()),
        Err(error) => invalid(error.display_text()),
    }
}

/// What validation of the names and the input answers.
pub open spec fn names_check(request: &RunRequest) -> Result<(), HarnessError<Seq<char>>> {
    if blank(request.agent.id@) || blank(request.agent.name@) || blank(request.agent.version@)
        || blank(request.agent.default_model@) || (request.overrides.model matches Some(model)
        && blank(model@)) {
        invalid("agent id, name, version, and selected model are required"@)
    } else if blank(request.input@) {
        invalid("input is required"@)
    } else {
        Ok(())
    }
}

/// What validation of the limits answers.
pub open spec fn limits_check(
    request: &RunRequest,
    programmatic: ProgrammaticLimits,
    ceilings: ProgrammaticLimits,
    payload_bytes: u64,
) -> Result<(), HarnessError<Seq<char>>> {
    let limits = request.agent.limits;
    if !limits_nonzero(limits, programmatic) {
        invalid("call, byte, transcript, and depth limits must be greater than zero"@)
    } else if programmatic.max_program_bytes > ceilings.max_program_bytes
        || programmatic.max_fanout_concurrency > ceilings.max_fanout_concurrency {
        invalid("programmatic limits exceed immutable library ceilings"@)
    } else if utf8_len(request.input@) > limits.max_input_bytes {
        invalid("input exceeds "@ + decimal_digits(limits.max_input_bytes as nat) + " bytes"@)
    } else if payload_bytes > limits.max_request_payload_bytes {
        invalid(
            "request payload exceeds "@ + decimal_digits(limits.max_request_payload_bytes as nat)
                + " bytes"@,
        )
    } else {
        Ok(())
    }
}

/// The first of two checks that fails.
pub open spec fn both(
    first: Result<(), HarnessError<Seq<char>>>,
    second: Result<(), HarnessError<Seq<char>>>,
) -> Result<(), HarnessError<Seq<char>>> {
    match first {
        Ok(_) => second,
        Err(error) => Err(error),
    }
}

/// What validation of the JSON values answers.
pub open spec fn values_check(request: &RunRequest) -> Result<(), HarnessError<Seq<char>>> {
    let max = request.agent.limits.max_json_depth;
    both(
        told(depth_check("application context"@, request.application_context@, max)),
        both(
            told(depth_check("request metadata"@, request.metadata@, max)),
            both(
                told(depth_check("evaluation metadata"@, request.evaluation@, max)),
                told(depth_check("agent metadata"@, request.agent.metadata@, max)),
            ),
        ),
    )
}

/// What validation of the output schema answers.
pub open spec fn schema_check(request: &RunRequest) -> Result<(), HarnessError<Seq<char>>> {
    match request.agent.output_schema {
        Some(schema) => both(
            told(depth_check("output schema"@, schema@, request.agent.limits.max_json_depth)),
            match trusted_schema_fault(schema@) {
                Some(message) => invalid("invalid output schema: "@ + message),
                None => Ok(()),
            },
        ),
        None => Ok(()),
    }
}

/// What validation of a request answers: the first of its checks that fails.
pub open spec fn request_check(
    request: &RunRequest,
    programmatic: ProgrammaticLimits,
    ceilings: ProgrammaticLimits,
    payload_bytes: u64,
) -> Result<(), HarnessError<Seq<char>>> {
    both(
        names_check(request),
        both(
            limits_check(request, programmatic, ceilings, payload_bytes),
            both(
                values_check(request),
                both(
                    told(transcript_check(request.opening(), request.agent.limits)),
                    schema_check(request),
                ),
            ),
        ),
    )
}

fn tell(check: Result<(), HarnessError>) -> (result: Result<(), HarnessError>)
    ensures
        check_view(result) == told(check_view(check)),
{
    match check {
        Ok(_) => Ok(()),
        Err(error) => Err(HarnessError::InvalidRequest(error.to_text())),
    }
}

fn check_names(request: &RunRequest) -> (result: Result<(), HarnessError>)
    ensures
        check_view(result) == names_check(request),
{
    let override_blank = match &request.overrides.model {
        Some(model) => is_blank(model.as_str()),
        None => false,
    };
    if is_blank(request.agent.id.as_str()) || is_blank(request.agent.name.as_str()) || is_blank(
        request.agent.version.as_str(),
    ) || is_blank(request.agent.default_model.as_str()) || override_blank {
        return Err(
            HarnessError::InvalidRequest(
                "agent id, name, version, and selected model are required".to_owned(),
            ),
        );
    }
    if is_blank(request.input.as_str()) {
        return Err(HarnessError::InvalidRequest("input is required".to_owned()));
    }
    Ok(())
}

fn check_limits(
    request: &RunRequest,
    programmatic: &ProgrammaticLimits,
    ceilings: &ProgrammaticLimits,
    payload_bytes: u64,
) -> (result: Result<(), HarnessError>)
    ensures
        check_view(result) == limits_check(request, *programmatic, *ceilings, payload_bytes),
{
    let limits = &request.agent.limits;
    if limits.max_model_calls == 0 || limits.max_tool_calls == 0
        || limits.max_identical_tool_calls == 0 || limits.max_input_bytes == 0
        || limits.max_request_payload_bytes == 0 || limits.max_model_response_bytes == 0
        || limits.max_tool_arguments_bytes == 0 || limits.max_tool_result_bytes == 0
        || limits.max_transcript_bytes == 0 || limits.max_json_depth == 0
        || programmatic.max_program_bytes == 0 || programmatic.max_fanout_concurrency == 0 {
        return Err(
            HarnessError::InvalidRequest(
                "call, byte, transcript, and depth limits must be greater than zero".to_owned(),
            ),
        );
    }
    if programmatic.max_program_bytes > ceilings.max_program_bytes
        || programmatic.max_fanout_concurrency > ceilings.max_fanout_concurrency {
        return Err(
            HarnessError::InvalidRequest(
                "programmatic limits exceed immutable library ceilings".to_owned(),
            ),
        );
    }
    if byte_len(request.input.as_str()) as u64 > limits.max_input_bytes {
        return Err(
            HarnessError::InvalidRequest(
                join3("input exceeds ", decimal(limits.max_input_bytes).as_str(), " bytes"),
            ),
        );
    }
    if payload_bytes > limits.max_request_payload_bytes {
        return Err(
            HarnessError::InvalidRequest(
                join3(
                    "request payload exceeds ",
                    decimal(limits.max_request_payload_bytes).as_str(),
                    " bytes",
                ),
            ),
        );
    }
    Ok(())
}

/// Validates a request. `payload_bytes` is the size of its serialized form.
pub fn validate_request(
    request: &RunRequest,
    programmatic: &ProgrammaticLimits,
    ceilings: &ProgrammaticLimits,
    payload_bytes: u64,
) -> (result: Result<(), HarnessError>)
    ensures
        check_view(result) == request_check(request, *programmatic, *ceilings, payload_bytes),
{
    check_names(request)?;
    check_limits(request, programmatic, ceilings, payload_bytes)?;
    let max = request.agent.limits.max_json_depth;
    tell(ensure_json_depth("application context", &request.application_context, max))?;
    tell(ensure_json_depth("request metadata", &request.metadata, max))?;
    tell(ensure_json_depth("evaluation metadata", &request.evaluation, max))?;
    tell(ensure_json_depth("agent metadata", &request.agent.metadata, max))?;
    let opening = request.initial_messages();
    tell(ensure_transcript(&opening, &request.agent.limits))?;
    if let Some(schema) = &request.agent.output_schema {
        tell(ensure_json_depth("output schema", schema, max))?;
        if let Some(message) = compile_trusted_schema(schema) {
            return Err(
                HarnessError::InvalidRequest(join2("invalid output schema: ", message.as_str())),
            );
        }
    }
    Ok(())
}

/// What validation of an output against a schema answers.
pub open spec fn output_check(
    schema: Option<JsonTree>,
    output: Seq<char>,
    max_json_depth: u32,
) -> Result<(), HarnessError<Seq<char>>> {
    match schema {
        None => Ok(()),
        Some(schema) => match parsed_json(output) {
            Err(message) => Err(HarnessError::InvalidOutput("output is not JSON: "@ + message)),
            Ok(value) => match depth_check("structured output"@, value, max_json_depth) {
                Err(error) => Err(error),
                Ok(_) => match instance_fault(schema, value) {
                    Some(message) => Err(HarnessError::InvalidOutput(message)),
                    None => Ok(()),
                },
            },
        },
    }
}

/// The view of an optional schema.
pub open spec fn schema_option(schema: Option<Json>) -> Option<JsonTree> {
    match schema {
        Some(schema) => Some(schema@),
        None => None,
    }
}

/// Validates an output against the schema that it is to follow.
pub fn validate_output(schema: &Option<Json>, output: &str, max_json_depth: u32) -> (result: Result<
    (),
    HarnessError,
>)
    ensures
        check_view(result) == output_check(schema_option(*schema), output@, max_json_depth),
{
    let schema = match schema {
        Some(schema) => schema,
        None => return Ok(()),
    };
    let value = match parse_json(output) {
        Ok(value) => value,
        Err(message) => {
            return Err(HarnessError::InvalidOutput(join2("output is not JSON: ", message.as_str())));
        },
    };
    ensure_json_depth("structured output", &value, max_json_depth)?;
    match validate_instance(schema, &value) {
        Some(message) => Err(HarnessError::InvalidOutput(message)),
        None => Ok(()),
    }
}

/// When something that may take `duration_ms` from `now_ms` on must end.
pub open spec fn deadline_after(
    now_ms: u64,
    duration_ms: Option<u64>,
    message: Seq<char>,
) -> Result<Option<u64>, HarnessError<Seq<char>>> {
    match duration_ms {
        None => Ok(None),
        Some(duration) => if now_ms + duration > u64::MAX {
            Err(HarnessError::InvalidRequest(message))
        } else {
            Ok(Some((now_ms + duration) as u64))
        },
    }
}

/// The view of a deadline that may not exist.
pub open spec fn deadline_view(result: Result<Option<u64>, HarnessError>) -> Result<
    Option<u64>,
    HarnessError<Seq<char>>,
> {
    match result {
        Ok(deadline) => Ok(deadline),
        Err(error) => Err(error@),
    }
}

/// The earlier of a deadline that may not exist and another.
pub open spec fn earlier(run: Option<u64>, other: Option<u64>) -> Option<u64> {
    match (run, other) {
        (Some(run), Some(other)) => if run < other {
            Some(run)
        } else {
            Some(other)
        },
        (Some(run), None) => Some(run),
        (None, other) => other,
    }
}

fn checked_deadline(now_ms: u64, duration_ms: Option<u64>, message: &str) -> (result: Result<
    Option<u64>,
    HarnessError,
>)
    ensures
        deadline_view(result) == deadline_after(now_ms, duration_ms, message@),
{
    match duration_ms {
        None => Ok(None),
        Some(duration) => match now_ms.checked_add(duration) {
            Some(deadline) => Ok(Some(deadline)),
            None => Err(HarnessError::InvalidRequest(message.to_owned())),
        },
    }
}

/// When a run that starts at `now_ms` must end.
pub fn absolute_deadline(now_ms: u64, duration_ms: Option<u64>) -> (result: Result<
    Option<u64>,
    HarnessError,
>)
    ensures
        deadline_view(result) == deadline_after(
            now_ms,
            duration_ms,
            "run duration is too large"@,
        ),
{
    checked_deadline(now_ms, duration_ms, "run duration is too large")
}

/// When a provider call that starts at `now_ms` must end: with the run, or earlier.
pub open spec fn call_deadline(
    now_ms: u64,
    run_deadline: Option<u64>,
    duration_ms: Option<u64>,
) -> Result<Option<u64>, HarnessError<Seq<char>>> {
    match deadline_after(now_ms, duration_ms, "model call duration is too large"@) {
        Ok(deadline) => Ok(earlier(run_deadline, deadline)),
        Err(error) => Err(error),
    }
}

/// When a provider call that starts at `now_ms` must end.
pub fn provider_deadline(now_ms: u64, run_deadline: Option<u64>, duration_ms: Option<u64>) -> (
result: Result<Option<u64>, HarnessError>)
    ensures
        deadline_view(result) == call_deadline(now_ms, run_deadline, duration_ms),
{
    let provider = checked_deadline(now_ms, duration_ms, "model call duration is too large")?;
    match (run_deadline, provider) {
        (Some(run), Some(provider)) => if run < provider {
            Ok(Some(run))
        } else {
            Ok(Some(provider))
        },
        (Some(run), None) => Ok(Some(run)),
        (None, provider) => Ok(provider),
    }
}

/// What a check between two steps answers: cancellation before the deadline.
pub open spec fn stop_check(
    cancelled: bool,
    now_ms: u64,
    deadline: Option<u64>,
    message: Seq<char>,
) -> Result<(), HarnessError<Seq<char>>> {
    if cancelled {
        Err(HarnessError::Cancelled)
    } else if deadline matches Some(deadline) && now_ms >= deadline {
        Err(HarnessError::TimedOut(message))
    } else {
        Ok(())
    }
}

/// Checks whether a run was cancelled or is past its deadline.
pub fn check_stopped(cancelled: bool, now_ms: u64, deadline: Option<u64>, timeout_message: &str) -> (
result: Result<(), HarnessError>)
    ensures
        check_view(result) == stop_check(cancelled, now_ms, deadline, timeout_message@),
{
    if cancelled {
        return Err(HarnessError::Cancelled);
    }
    if let Some(deadline) = deadline {
        if now_ms >= deadline {
            return Err(HarnessError::TimedOut(timeout_message.to_owned()));
        }
    }
    Ok(())
}

} // verus!
