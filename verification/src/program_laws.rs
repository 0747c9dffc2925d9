//! What holds of a run that executes a program, over all that may come back from outside.

use crate::agent::RunStatus;
use crate::error::HarnessError;
use crate::json::{depth, parsed_json};
use crate::ledger::RecordModel;
use crate::limits::AgentLimits;
use crate::message::{transcript_len, MessageRole};
use crate::model::ResponseModel;
use crate::program_run::{
    batch_ended, program_answered, program_completed, program_refused, program_requested,
    program_step, program_written, CompiledProgram, ProgramAction, ProgramContext,
    ProgramEventModel, ProgramModel, ProgramStage, StepModel,
};
use crate::programmatic::ProgrammaticTranscript;
use crate::schema::instance_fault;
use crate::text::{blank, utf8_len, whitespace};
use vstd::prelude::*;

verus! {

/// A program is asked for while the run is neither cancelled nor late and calls are left; the first
/// time for planning, after that for repair. Else the run ends.
pub proof fn programs_are_asked_for(
    context: &ProgramContext,
    run: ProgramModel,
    cancelled: bool,
    now: u64,
)
    requires
        run.stage == ProgramStage::Generate,
        run.core.calls.balanced(),
        context.request.agent.limits.max_model_call_duration_ms matches Some(most) ==> now + most
            <= u64::MAX,
    ensures
        ({
            let (next, action) = program_step(
                context,
                run,
                ProgramEventModel::Checked(cancelled, now),
            );
            let late = context.deadline matches Some(end) && now >= end;
            let left = run.core.calls.model_calls < context.request.agent.limits.max_model_calls;
            &&& action is Write <==> !cancelled && !late && left
            &&& action matches ProgramAction::Write { deadline } ==> {
                &&& next.stage == ProgramStage::AwaitProgram && next.shown == run.shown
                &&& next.core.calls.model_calls == run.core.calls.model_calls + 1
                &&& run.attempt == 0 ==> next.core.calls.planning == run.core.calls.planning + 1
                &&& run.attempt != 0 ==> next.core.calls.repair == run.core.calls.repair + 1
                &&& context.deadline matches Some(end) ==> (deadline matches Some(until) && until
                    <= end)
            }
            &&& !(action is Write) ==> next.stage == ProgramStage::Done && next.core.calls
                == run.core.calls && (action is Finish || action is Fallback)
        }),
{
    reveal(program_requested);
}

/// Whether a response can be read as what was asked for: it is small enough and calls no tools.
pub open spec fn readable(response: ResponseModel, limits: AgentLimits) -> bool {
    &&& utf8_len(response.json_text()) <= limits.max_model_response_bytes
    &&& response.tool_calls.len() == 0
}

/// A program that compiles is started, with nothing else changed.
pub proof fn compiled_programs_start(
    context: &ProgramContext,
    run: ProgramModel,
    response: ResponseModel,
    compiled: CompiledProgram,
)
    requires
        run.stage == ProgramStage::AwaitProgram,
        readable(response, context.request.agent.limits),
        response.final_output is Some,
    ensures
        ({
            let (next, action) = program_step(
                context,
                run,
                ProgramEventModel::Written(Ok(response), Ok(compiled)),
            );
            &&& action is Start && next.stage == ProgramStage::AwaitStart
            &&& next.shown == run.shown && next.attempt == run.attempt
            &&& next.core.calls == run.core.calls
            &&& next.core.record.ledger.result == run.core.record.ledger.result
        }),
{
    reveal(program_written);
}

/// The first program that does not compile, or is not there, is repaired while a call is left beside
/// the one for the answer: the model is shown what it wrote and asked again. It is not started.
pub proof fn invalid_programs_are_repaired(
    context: &ProgramContext,
    run: ProgramModel,
    response: ResponseModel,
    compiled: Result<CompiledProgram, HarnessError<Seq<char>>>,
)
    requires
        run.stage == ProgramStage::AwaitProgram,
        readable(response, context.request.agent.limits),
        response.final_output is None || compiled is Err,
        run.attempt == 0,
        run.core.calls.model_calls + 1 < context.request.agent.limits.max_model_calls,
    ensures
        ({
            let (next, action) = program_step(
                context,
                run,
                ProgramEventModel::Written(Ok(response), compiled),
            );
            let count = run.shown.len() as int;
            &&& next.shown.len() == count + 2 && next.shown.take(count) == run.shown
            &&& next.shown[count].role == MessageRole::Assistant
            &&& response.final_output matches Some(text) ==> next.shown[count].content == text
            &&& next.shown.last().role == MessageRole::System
            &&& next.attempt == 1
            &&& if transcript_len(next.shown)
                <= context.request.agent.limits.max_transcript_bytes {
                action is Check && next.stage == ProgramStage::Generate
            } else {
                next.stage == ProgramStage::Done && (action is Finish || action is Fallback)
            }
        }),
{
    reveal(program_written);
    reveal(program_refused);
    let (next, _) = program_step(context, run, ProgramEventModel::Written(Ok(response), compiled));
    assert(next.shown.take(run.shown.len() as int) =~= run.shown);
}

/// A second program that does not compile, or a first one with no call left to repair it, ends the
/// program: the run starts over without one where no call was issued, and else fails.
pub proof fn invalid_programs_are_given_up(
    context: &ProgramContext,
    run: ProgramModel,
    response: ResponseModel,
    compiled: Result<CompiledProgram, HarnessError<Seq<char>>>,
)
    requires
        run.stage == ProgramStage::AwaitProgram,
        readable(response, context.request.agent.limits),
        response.final_output is None || compiled is Err,
        run.attempt != 0 || run.core.calls.model_calls + 1
            >= context.request.agent.limits.max_model_calls,
    ensures
        ({
            let (next, action) = program_step(
                context,
                run,
                ProgramEventModel::Written(Ok(response), compiled),
            );
            &&& next.stage == ProgramStage::Done
            &&& action is Fallback <==> !run.dispatched
                && run.core.record.ledger.broker.tool_issued == 0
            &&& action is Fallback || action is Finish
        }),
{
    reveal(program_written);
    reveal(program_refused);
}

/// A call for a program that fails, or whose response cannot be read, ends the program, and no
/// program is started.
pub proof fn failed_calls_start_nothing(
    context: &ProgramContext,
    run: ProgramModel,
    outcome: Result<ResponseModel, HarnessError<Seq<char>>>,
    compiled: Result<CompiledProgram, HarnessError<Seq<char>>>,
)
    requires
        run.stage == ProgramStage::AwaitProgram,
        outcome matches Ok(response) ==> !readable(response, context.request.agent.limits),
    ensures
        ({
            let (next, action) = program_step(
                context,
                run,
                ProgramEventModel::Written(outcome, compiled),
            );
            next.stage == ProgramStage::Done && (action is Fallback || action is Finish)
        }),
{
    reveal(program_written);
}

/// What a slice comes to is followed: a program that waits for its calls has them run, one that was
/// cut off goes on after a check, and one that is over has its value told to the model, behind the
/// opening of the conversation, for the answer.
pub proof fn slices_are_followed(
    context: &ProgramContext,
    run: ProgramModel,
    step: Result<StepModel, HarnessError<Seq<char>>>,
    now: u64,
)
    requires
        run.stage == ProgramStage::AwaitStep,
        run.core.calls.balanced(),
    ensures
        ({
            let (next, action) = program_step(context, run, ProgramEventModel::Stepped(step, now));
            let limits = context.request.agent.limits;
            let opening = context.request.opening();
            &&& action is RunBatch <==> step == Ok::<StepModel, HarnessError<Seq<char>>>(
                StepModel::Yielded,
            )
            &&& action is RunBatch ==> next.stage == ProgramStage::InBatch && next.core == run.core
            &&& action is Check <==> step == Ok::<StepModel, HarnessError<Seq<char>>>(
                StepModel::Sliced,
            )
            &&& action is Check ==> next.stage == ProgramStage::SlicedCheck && next.core == run.core
            &&& action is Answer ==> {
                &&& step matches Ok(StepModel::Complete(value, _, _)) && (
                run.transcript.synthesis(value) matches Ok(text) && next.shown.last().content
                    == text)
                &&& next.stage == ProgramStage::AwaitSynthesis
                &&& next.shown.len() == opening.len() + 2 && next.shown.take(opening.len() as int)
                    == opening
                &&& next.shown.last().role == MessageRole::User
                &&& next.shown[opening.len() as int].role == MessageRole::System
                &&& next.core.calls.final_synthesis == run.core.calls.final_synthesis + 1
                &&& run.core.calls.model_calls < limits.max_model_calls
                &&& transcript_len(next.shown) <= limits.max_transcript_bytes
            }
            &&& step is Err || (step matches Ok(done) && done is Unsupported) ==> next.stage
                == ProgramStage::Done && (action is Finish || action is Fallback)
        }),
{
    reveal(program_completed);
    let (next, _) = program_step(context, run, ProgramEventModel::Stepped(step, now));
    let opening = context.request.opening();
    if next.shown.len() >= opening.len() {
        if step matches Ok(StepModel::Complete(value, _, _)) && next.stage
            == ProgramStage::AwaitSynthesis {
            assert(next.shown.take(opening.len() as int) =~= opening);
        }
    }
}

/// An answer that is there and not blank, and is all that a run without a particular form asks for,
/// completes the run with that text.
pub proof fn plain_answers_complete_the_run(
    context: &ProgramContext,
    run: ProgramModel,
    response: ResponseModel,
    output: Seq<char>,
)
    requires
        run.stage == ProgramStage::AwaitSynthesis,
        readable(response, context.request.agent.limits),
        response.final_output == Some(output),
        exists|i: int| 0 <= i < output.len() && !whitespace(#[trigger] output[i]),
        context.request.agent.output_schema is None,
    ensures
        ({
            let (next, action) = program_step(
                context,
                run,
                ProgramEventModel::Answered(Ok(response)),
            );
            let result = next.core.record.ledger.result;
            &&& action is Finish && next.stage == ProgramStage::Done
            &&& result.status == RunStatus::Completed && result.final_output == Some(output)
            &&& result.errors == run.core.record.ledger.result.errors
        }),
{
    reveal(program_answered);
}

/// A structured answer completes the run where it conforms, and only there.
pub proof fn structured_answers_must_conform(
    context: &ProgramContext,
    run: ProgramModel,
    response: ResponseModel,
    output: Seq<char>,
)
    requires
        run.stage == ProgramStage::AwaitSynthesis,
        run.core.record.ledger.result.status != RunStatus::Completed,
        readable(response, context.request.agent.limits),
        response.final_output == Some(output),
        exists|i: int| 0 <= i < output.len() && !whitespace(#[trigger] output[i]),
        context.request.agent.output_schema is Some,
    ensures
        ({
            let (next, action) = program_step(
                context,
                run,
                ProgramEventModel::Answered(Ok(response)),
            );
            let result = next.core.record.ledger.result;
            let schema = context.request.agent.output_schema->0@;
            let conforms = parsed_json(output) matches Ok(value) && depth(value)
                <= context.request.agent.limits.max_json_depth && instance_fault(schema, value)
                is None;
            &&& next.stage == ProgramStage::Done
            &&& result.status == RunStatus::Completed <==> conforms
            &&& conforms ==> result.final_output == Some(output) && action is Finish
        }),
{
    reveal(program_answered);
}

/// A call for the answer that fails, a response that cannot be read, and an answer that is missing or
/// blank never complete the run.
pub proof fn missing_answers_complete_nothing(
    context: &ProgramContext,
    run: ProgramModel,
    outcome: Result<ResponseModel, HarnessError<Seq<char>>>,
)
    requires
        run.stage == ProgramStage::AwaitSynthesis,
        run.core.record.ledger.result.status != RunStatus::Completed,
        outcome matches Ok(response) ==> !readable(response, context.request.agent.limits)
            || response.final_output is None || blank(response.final_output->0),
    ensures
        ({
            let (next, action) = program_step(context, run, ProgramEventModel::Answered(outcome));
            &&& next.stage == ProgramStage::Done
            &&& next.core.record.ledger.result.status != RunStatus::Completed
            &&& next.core.record.ledger.result.final_output
                == run.core.record.ledger.result.final_output
        }),
{
    reveal(program_answered);
}

/// A stopped program runs no further slice, and one that is not stopped goes on.
pub proof fn stopped_programs_run_no_further(
    context: &ProgramContext,
    run: ProgramModel,
    cancelled: bool,
    now: u64,
)
    requires
        run.stage == ProgramStage::SliceCheck || run.stage == ProgramStage::SlicedCheck,
    ensures
        ({
            let (next, action) = program_step(
                context,
                run,
                ProgramEventModel::Checked(cancelled, now),
            );
            let stopped = cancelled || (context.deadline matches Some(end) && now >= end);
            &&& stopped ==> next.stage == ProgramStage::Done && (action is Finish || action
                is Fallback)
            &&& !stopped ==> next.core == run.core && next.shown == run.shown && next.transcript
                == run.transcript
            &&& !stopped && run.stage == ProgramStage::SliceCheck ==> action is Step && next.stage
                == ProgramStage::AwaitStep && (run.slices < u64::MAX ==> next.slices == run.slices
                + 1)
            &&& !stopped && run.stage == ProgramStage::SlicedCheck ==> action is Yield && next.stage
                == ProgramStage::SliceCheck && next.slices == run.slices
        }),
{
}

/// Once a call of a program was dispatched, that is never forgotten, and from then on a failure ends
/// the run as one whose outcome is not certain, never by starting over.
pub proof fn dispatched_calls_are_remembered(
    run: ProgramModel,
    record: RecordModel,
    transcript: ProgrammaticTranscript,
    dispatched: bool,
    fault: Option<HarnessError<Seq<char>>>,
)
    ensures
        ({
            let (next, action) = batch_ended(run, record, transcript, dispatched, fault);
            &&& next.dispatched <==> run.dispatched || dispatched
            &&& fault is None ==> action is Resume && next.stage == ProgramStage::AwaitResume
                && next.transcript == transcript && next.core.record == record
            &&& fault is Some ==> next.stage == ProgramStage::Done
            &&& fault is Some && (run.dispatched || dispatched) ==> action is Finish
                && next.core.record.ledger.result.errors.len() > 0
                && next.core.record.ledger.result.errors.last().code == "tool_error"@
        }),
{
}

/// A program starts and resumes only where the sandbox could do so.
pub proof fn failed_starts_end_the_run(
    context: &ProgramContext,
    run: ProgramModel,
    fault: Option<HarnessError<Seq<char>>>,
)
    ensures
        run.stage == ProgramStage::AwaitStart ==> ({
            let (next, action) = program_step(context, run, ProgramEventModel::Started(fault));
            &&& fault is None <==> action is Check
            &&& fault is None ==> next.stage == ProgramStage::SliceCheck && next.core == run.core
            &&& fault is Some ==> next.stage == ProgramStage::Done
        }),
        run.stage == ProgramStage::AwaitResume ==> ({
            let (next, action) = program_step(context, run, ProgramEventModel::Resumed(fault));
            &&& fault is None <==> action is Check
            &&& fault is None ==> next.stage == ProgramStage::SliceCheck && next.core == run.core
            &&& fault is Some ==> next.stage == ProgramStage::Done
        }),
{
}

} // verus!
