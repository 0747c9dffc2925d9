//! What holds of the requests that are accepted, and of the time that a run may take.

use crate::agent::RunRequest;
use crate::error::HarnessError;
use crate::json::{depth, parsed_json, JsonTree};
use crate::message::transcript_len;
use crate::request::{
    call_deadline, deadline_after, output_check, request_check, stop_check, ProgrammaticLimits,
};
use crate::schema::instance_fault;
use crate::schema::trusted_schema_fault;
use crate::text::{utf8_len, whitespace};
use vstd::prelude::*;

verus! {

/// Whether a text says something: not all of it is white space.
pub open spec fn says_something(text: Seq<char>) -> bool {
    exists|i: int| 0 <= i < text.len() && !whitespace(#[trigger] text[i])
}

/// A request is accepted where its names, its model and its input are given, every limit lets
/// something through and none exceeds what the library allows, and what it holds stays within its
/// own limits; and it is accepted nowhere else.
pub proof fn accepted_requests_are_complete(
    request: &RunRequest,
    programmatic: ProgrammaticLimits,
    ceilings: ProgrammaticLimits,
    payload_bytes: u64,
)
    ensures
        ({
            let limits = request.agent.limits;
            let most = limits.max_json_depth;
            let named = says_something(request.agent.id@) && says_something(request.agent.name@)
                && says_something(request.agent.version@) && says_something(
                request.agent.default_model@,
            ) && (request.overrides.model matches Some(model) ==> says_something(model@))
                && says_something(request.input@);
            let limited = limits.max_model_calls > 0 && limits.max_tool_calls > 0
                && limits.max_identical_tool_calls > 0 && limits.max_input_bytes > 0
                && limits.max_request_payload_bytes > 0 && limits.max_model_response_bytes > 0
                && limits.max_tool_arguments_bytes > 0 && limits.max_tool_result_bytes > 0
                && limits.max_transcript_bytes > 0 && limits.max_json_depth > 0;
            let programs = 0 < programmatic.max_program_bytes <= ceilings.max_program_bytes && 0
                < programmatic.max_fanout_concurrency <= ceilings.max_fanout_concurrency;
            let sized = utf8_len(request.input@) <= limits.max_input_bytes && payload_bytes
                <= limits.max_request_payload_bytes && transcript_len(request.opening())
                <= limits.max_transcript_bytes;
            let flat = depth(request.application_context@) <= most && depth(request.metadata@)
                <= most && depth(request.evaluation@) <= most && depth(request.agent.metadata@)
                <= most;
            let schema = request.agent.output_schema matches Some(schema) ==> depth(schema@) <= most
                && trusted_schema_fault(schema@) is None;
            &&& request_check(request, programmatic, ceilings, payload_bytes) is Ok <==> named
                && limited && programs && sized && flat && schema
            &&& (request_check(request, programmatic, ceilings, payload_bytes) matches Err(error)
                ==> error is InvalidRequest)
        }),
{
}

/// An output is accepted where no form was asked for, and where it is JSON that is not nested too
/// deeply and fits the form; one that is nested too deeply meets a limit, and any other is invalid.
pub proof fn accepted_outputs_conform(
    schema: Option<JsonTree>,
    output: Seq<char>,
    max_json_depth: u32,
)
    ensures
        ({
            let check = output_check(schema, output, max_json_depth);
            match schema {
                None => check is Ok,
                Some(form) => match parsed_json(output) {
                    Err(_) => check matches Err(error) && error is InvalidOutput,
                    Ok(value) => {
                        &&& check is Ok <==> depth(value) <= max_json_depth && instance_fault(
                            form,
                            value,
                        ) is None
                        &&& (check matches Err(error) ==> (depth(value) > max_json_depth <==> error
                            is ResourceLimit) && (depth(value) <= max_json_depth <==> error
                            is InvalidOutput))
                    },
                },
            }
        }),
{
}

/// A deadline lies exactly the given time ahead, and there is none where no time was given. A call
/// waits until the earlier of its own deadline and that of the run.
pub proof fn deadlines_lie_ahead(
    now: u64,
    run: Option<u64>,
    duration: Option<u64>,
    message: Seq<char>,
)
    ensures
        match duration {
            None => deadline_after(now, None, message) == Ok::<
                Option<u64>,
                HarnessError<Seq<char>>,
            >(None) && call_deadline(now, run, None) == Ok::<Option<u64>, HarnessError<Seq<char>>>(
                run,
            ),
            Some(time) => if now + time > u64::MAX {
                deadline_after(now, duration, message) is Err && call_deadline(now, run, duration)
                    is Err
            } else {
                &&& deadline_after(now, duration, message) matches Ok(Some(end)) && end == now
                    + time
                &&& call_deadline(now, run, duration) matches Ok(Some(end)) && end <= now + time && (
                run matches Some(last) ==> end <= last) && (end == now + time || run == Some(end))
            },
        },
{
}

/// A run goes on exactly while it is neither cancelled nor past its deadline, and being cancelled is
/// what is told where both hold. Once past a deadline a run stays past it.
pub proof fn stopped_runs_stay_stopped(
    cancelled: bool,
    now: u64,
    later: u64,
    deadline: Option<u64>,
    message: Seq<char>,
)
    requires
        now <= later,
    ensures
        ({
            let check = stop_check(cancelled, now, deadline, message);
            let late = deadline matches Some(end) && now >= end;
            &&& check is Ok <==> !cancelled && !late
            &&& (check matches Err(error) ==> (error is Cancelled <==> cancelled) && (error
                is TimedOut <==> !cancelled))
            &&& check is Err ==> stop_check(cancelled, later, deadline, message) is Err
        }),
{
}

} // verus!
