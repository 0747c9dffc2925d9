//! Resource and payload limits of a run.

use crate::error::HarnessError;
use crate::json::{depth, Json, JsonTree};
use crate::text::{decimal, decimal_digits, join3};
use vstd::prelude::*;

verus! {

/// Resource and payload limits for runs.
#[derive(Clone, Copy, Debug, PartialEq, Eq, Structural)]
pub struct AgentLimits {
    /// Most provider calls of one run.
    pub max_model_calls: u32,
    /// Most tool proposals of one run.
    pub max_tool_calls: u32,
    /// Most proposals of one tool with the same arguments.
    pub max_identical_tool_calls: u32,
    /// Duration of the whole run, in milliseconds.
    pub max_run_duration_ms: Option<u64>,
    /// Duration of one provider call, in milliseconds.
    pub max_model_call_duration_ms: Option<u64>,
    /// Repairs of a structured output that failed validation.
    pub max_output_repairs: u32,
    /// Retry budget per logical model turn. Only `RetryableProvider` errors qualify.
    pub max_provider_retries: u32,
    /// Bytes of the input.
    pub max_input_bytes: u64,
    /// Bytes of the serialized request.
    pub max_request_payload_bytes: u64,
    /// Bytes of one serialized model response.
    pub max_model_response_bytes: u64,
    /// Bytes of one call's arguments.
    pub max_tool_arguments_bytes: u64,
    /// Bytes of one serialized tool result.
    pub max_tool_result_bytes: u64,
    /// Bytes of the whole transcript.
    pub max_transcript_bytes: u64,
    /// Nesting of JSON values.
    pub max_json_depth: u32,
}

impl Default for AgentLimits {
    fn default() -> (result: AgentLimits)
        ensures
            result == (AgentLimits {
                max_model_calls: 8,
                max_tool_calls: 16,
                max_identical_tool_calls: 2,
                max_run_duration_ms: None,
                max_model_call_duration_ms: None,
                max_output_repairs: 1,
                max_provider_retries: 2,
                max_input_bytes: 65_536,
                max_request_payload_bytes: 262_144,
                max_model_response_bytes: 1_048_576,
                max_tool_arguments_bytes: 65_536,
                max_tool_result_bytes: 1_048_576,
                max_transcript_bytes: 4_194_304,
                max_json_depth: 64,
            }),
    {
        AgentLimits {
            max_model_calls: 8,
            max_tool_calls: 16,
            max_identical_tool_calls: 2,
            max_run_duration_ms: None,
            max_model_call_duration_ms: None,
            max_output_repairs: 1,
            max_provider_retries: 2,
            max_input_bytes: 64 * 1024,
            max_request_payload_bytes: 256 * 1024,
            max_model_response_bytes: 1024 * 1024,
            max_tool_arguments_bytes: 64 * 1024,
            max_tool_result_bytes: 1024 * 1024,
            max_transcript_bytes: 4 * 1024 * 1024,
            max_json_depth: 64,
        }
    }
}

/// The error of a value that is nested too deeply.
pub open spec fn depth_error(label: Seq<char>, max_depth: u32) -> HarnessError<Seq<char>> {
    HarnessError::ResourceLimit(
        label + " exceeds maximum JSON depth of "@ + decimal_digits(max_depth as nat),
    )
}

/// The view of a check that returns nothing on success.
pub open spec fn check_view(result: Result<(), HarnessError>) -> Result<(), HarnessError<Seq<char>>> {
    match result {
        Ok(_) => Ok(()),
        Err(error) => Err(error@),
    }
}

/// What the depth check answers.
pub open spec fn depth_check(
    label: Seq<char>,
    value: JsonTree,
    max_depth: u32,
) -> Result<(), HarnessError<Seq<char>>> {
    if depth(value) > max_depth {
        Err(depth_error(label, max_depth))
    } else {
        Ok(())
    }
}

/// Refuses a value that is nested deeper than `max_depth`.
pub fn ensure_json_depth(label: &str, value: &Json, max_depth: u32) -> (result: Result<
    (),
    HarnessError,
>)
    ensures
        check_view(result) == depth_check(label@, value@, max_depth),
{
    if !value.fits_depth(max_depth) {
        return Err(
            HarnessError::ResourceLimit(
                join3(
                    label,
                    " exceeds maximum JSON depth of ",
                    decimal(max_depth as u64).as_str(),
                ),
            ),
        );
    }
    Ok(())
}

} // verus!
