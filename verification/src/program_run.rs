//! The execution of a program that a model wrote: generation, repair, execution and answer.

use crate::agent::{RunRequest, RunStrategy};
use crate::batch_run::BatchRun;
use crate::error::HarnessError;
use crate::event::{new_identifier, uuid_text, ProgramLifecycleOutcome, RunEvent};
use crate::json::{Json, JsonTree};
use crate::ledger::{LedgerModel, RecordModel};
use crate::message::{
    ensure_transcript, messages_view, plain_message, transcript_check, Message, MessageModel,
    MessageRole,
};
use crate::model::{ModelResponse, ResponseModel};
use crate::program_batch::{batch_begun, error_option, BatchAction, BatchCall, BatchContext};
use crate::program_schema::SandboxLimits;
use crate::programmatic::{
    program_outcome, synthesis_prompt, terminal_lifecycle_outcome, ProgrammaticTranscript,
};
use crate::request::{check_stopped, output_check, schema_option, stop_check, validate_output};
use crate::strategy_core::{outcome_view, CallCounts, CoreModel, ModelCallPhase, StrategyCore};
use crate::text::{blank, is_blank};
use vstd::prelude::*;

verus! {

/// What a program is executed with.
pub struct ProgramContext<'a> {
    /// The request.
    pub request: &'a RunRequest,
    /// Limits of the sandbox.
    pub limits: SandboxLimits,
    /// When the program must end, in milliseconds.
    pub deadline: Option<u64>,
}

/// What the sandbox says of a program that it accepted.
#[derive(Clone, Copy, Debug, PartialEq, Eq, Structural)]
pub struct CompiledProgram {
    /// Statements.
    pub statement_count: u32,
    /// Instructions.
    pub instruction_count: u32,
}

/// What the sandbox says of a program that completed.
#[derive(Clone, Copy, Debug, PartialEq, Eq, Structural)]
pub struct ProgramMetrics {
    /// Fuel charged.
    pub fuel_used: u64,
    /// Batches yielded.
    pub yields: u64,
    /// Branch decisions.
    pub branches: u64,
    /// Loop iterations.
    pub loop_iterations: u64,
    /// Fan-out batches.
    pub fanout_batches: u32,
    /// Bytes accounted at most.
    pub retained_bytes: u64,
}

/// What one slice of a program came to.
pub enum ProgramStep {
    /// It is not done yet.
    Sliced,
    /// It returned this, after this many milliseconds.
    Complete(Json, ProgramMetrics, u64),
    /// It asks for a batch of tool calls.
    Yielded,
    /// Something else.
    Unsupported,
}

/// The model of a slice.
pub enum StepModel {
    /// It is not done yet.
    Sliced,
    /// It returned this, after this many milliseconds.
    Complete(JsonTree, ProgramMetrics, u64),
    /// It asks for a batch of tool calls.
    Yielded,
    /// Something else.
    Unsupported,
}

impl View for ProgramStep {
    type V = StepModel;

    open spec fn view(&self) -> StepModel {
        match self {
            ProgramStep::Sliced => StepModel::Sliced,
            ProgramStep::Complete(value, metrics, duration) => StepModel::Complete(
                value@,
                *metrics,
                *duration,
            ),
            ProgramStep::Yielded => StepModel::Yielded,
            ProgramStep::Unsupported => StepModel::Unsupported,
        }
    }
}

/// Where a program stands.
#[derive(Clone, Copy, Debug, PartialEq, Eq, Structural)]
pub enum ProgramStage {
    /// Before a program is asked for.
    Generate,
    /// A program was asked for.
    AwaitProgram,
    /// The sandbox is to start the program.
    AwaitStart,
    /// Before the next slice.
    SliceCheck,
    /// A slice runs.
    AwaitStep,
    /// Behind a slice that did not complete the program.
    SlicedCheck,
    /// A batch of tool calls runs.
    InBatch,
    /// The sandbox is to resume the program.
    AwaitResume,
    /// An answer was asked for.
    AwaitSynthesis,
    /// The program is over.
    Done,
}

/// What happened outside.
pub enum ProgramEvent {
    /// The run was checked: whether it was cancelled, and the time.
    Checked(bool, u64),
    /// The provider call for a program ended; what the sandbox says of the final output of the
    /// response, if there is one.
    Written(Result<ModelResponse, HarnessError>, Result<CompiledProgram, HarnessError>),
    /// The sandbox started the program, or could not.
    Started(Option<HarnessError>),
    /// A slice came to something; the time.
    Stepped(Result<ProgramStep, HarnessError>, u64),
    /// The sandbox resumed the program, or could not.
    Resumed(Option<HarnessError>),
    /// The provider call for an answer ended.
    Answered(Result<ModelResponse, HarnessError>),
}

/// The model of an event.
pub enum ProgramEventModel {
    /// The run was checked.
    Checked(bool, u64),
    /// The provider call for a program ended.
    Written(
        Result<ResponseModel, HarnessError<Seq<char>>>,
        Result<CompiledProgram, HarnessError<Seq<char>>>,
    ),
    /// The sandbox started the program, or could not.
    Started(Option<HarnessError<Seq<char>>>),
    /// A slice came to something; the time.
    Stepped(Result<StepModel, HarnessError<Seq<char>>>, u64),
    /// The sandbox resumed the program, or could not.
    Resumed(Option<HarnessError<Seq<char>>>),
    /// The provider call for an answer ended.
    Answered(Result<ResponseModel, HarnessError<Seq<char>>>),
}

/// The view of what the sandbox says of a program.
pub open spec fn compiled_view(compiled: Result<CompiledProgram, HarnessError>) -> Result<
    CompiledProgram,
    HarnessError<Seq<char>>,
> {
    match compiled {
        Ok(program) => Ok(program),
        Err(error) => Err(error@),
    }
}

impl View for ProgramEvent {
    type V = ProgramEventModel;

    open spec fn view(&self) -> ProgramEventModel {
        match self {
            ProgramEvent::Checked(cancelled, now) => ProgramEventModel::Checked(*cancelled, *now),
            ProgramEvent::Written(outcome, compiled) => ProgramEventModel::Written(
                outcome_view(*outcome),
                compiled_view(*compiled),
            ),
            ProgramEvent::Started(fault) => ProgramEventModel::Started(error_option(*fault)),
            ProgramEvent::Stepped(Ok(step), now) => ProgramEventModel::Stepped(Ok(step@), *now),
            ProgramEvent::Stepped(Err(error), now) => ProgramEventModel::Stepped(
                Err(error@),
                *now,
            ),
            ProgramEvent::Resumed(fault) => ProgramEventModel::Resumed(error_option(*fault)),
            ProgramEvent::Answered(outcome) => ProgramEventModel::Answered(outcome_view(*outcome)),
        }
    }
}

/// What a program asks for next.
#[derive(Clone, Copy, Debug, PartialEq, Eq, Structural)]
pub enum ProgramAction {
    /// Check whether the run is stopped.
    Check,
    /// Let other work run, then check whether the run is stopped.
    Yield,
    /// Call the provider for a program, with the tools, until the deadline.
    Write {
        /// When the call must end, in milliseconds.
        deadline: Option<u64>,
    },
    /// Start the program.
    Start,
    /// Run one slice of the program.
    Step,
    /// Run the batch that the program asks for.
    RunBatch,
    /// Resume the program with the responses.
    Resume,
    /// Call the provider for an answer, without tools, until the deadline.
    Answer {
        /// When the call must end, in milliseconds.
        deadline: Option<u64>,
    },
    /// Finish the run.
    Finish,
    /// Go on with direct execution: no program was valid, and nothing took effect.
    Fallback,
    /// The event does not fit the stage; nothing changed.
    Misplaced,
}

/// The model of a program.
pub struct ProgramModel {
    /// The shared part of the run.
    pub core: CoreModel,
    /// The account of what the model is shown.
    pub transcript: ProgrammaticTranscript,
    /// What the provider is shown.
    pub shown: Seq<MessageModel>,
    /// Number of the attempt, from zero.
    pub attempt: u32,
    /// Whether a call was handed to its tool.
    pub dispatched: bool,
    /// Whether no further attempt is left for an invalid program.
    pub exhausted: bool,
    /// Slices so far.
    pub slices: u64,
    /// Where the program stands.
    pub stage: ProgramStage,
}

/// The instructions for a program.
pub open spec fn program_prompt() -> Seq<char> {
    "Return only a strict llama-harness program JSON object. Use version 1 and a body array. Statements are let, branch, for_each, map, filter, reduce, invoke, fan_out, and return. Expressions are null, boolean, integer, string, variable, path, array, object, binary, and unary. Tool IDs in invoke/fan_out must be static IDs from the supplied catalog. All loops and collections require explicit bounded limits. Do not use markdown, floats, dynamic tool names, code strings, imports, functions, recursion, mutation, reflection, exceptions, regex, or prose."@
}

/// The instructions for the repair of a program.
pub open spec fn program_repair_prompt() -> Seq<char> {
    "The previous program failed strict structural verification. Return one corrected version-1 program JSON object only. Do not add markdown or prose."@
}

/// The error of a program whose effects are not known.
pub open spec fn uncertain_error() -> HarnessError<Seq<char>> {
    HarnessError::Tool(
        "programmatic execution ended with an uncertain post-dispatch outcome"@,
    )
}

impl ProgramModel {
    /// The program with another shared part.
    pub open spec fn with_core(self, core: CoreModel) -> ProgramModel {
        ProgramModel { core, ..self }
    }

    /// The program at another stage.
    pub open spec fn at(self, stage: ProgramStage) -> ProgramModel {
        ProgramModel { stage, ..self }
    }

    /// One-based number of the attempt.
    pub open spec fn attempt_number(self) -> u32 {
        if self.attempt == u32::MAX {
            u32::MAX
        } else {
            (self.attempt + 1) as u32
        }
    }

    /// The program with the state of its attempt reported.
    pub open spec fn reported(self, outcome: ProgramLifecycleOutcome) -> ProgramModel {
        self.with_core(
            self.core.emit(
                RunEvent::ProgramLifecycle { attempt: self.attempt_number(), outcome },
            ),
        )
    }

    /// The program, ended by an error: direct execution takes over where no program was valid
    /// and nothing took effect; where something did, what it was is uncertain.
    pub open spec fn failed(self, error: HarnessError<Seq<char>>) -> (ProgramModel, ProgramAction) {
        if self.exhausted && !self.dispatched && self.core.record.ledger.broker.tool_issued == 0 {
            (
                self.reported(ProgramLifecycleOutcome::Fallback).at(ProgramStage::Done),
                ProgramAction::Fallback,
            )
        } else {
            let told = self.reported(program_outcome(error));
            (
                told.with_core(
                    told.core.with_ledger(
                        told.core.record.ledger.ended_by(
                            if self.dispatched {
                                uncertain_error()
                            } else {
                                error
                            },
                        ),
                    ),
                ).at(ProgramStage::Done),
                ProgramAction::Finish,
            )
        }
    }

    /// What holds of a program between two steps.
    pub open spec fn consistent(self) -> bool {
        &&& self.core.calls.balanced()
        &&& self.core.record.ledger.broker.consistent()
        &&& self.core.record.ledger.broker.settled()
    }
}

/// A program that just began. `admitted` is whether a slot was free for it.
#[verifier::opaque]
pub open spec fn program_begun(context: &ProgramContext, core: CoreModel, admitted: bool) -> (
    ProgramModel,
    ProgramAction,
) {
    let started = ProgramModel {
        core,
        transcript: ProgrammaticTranscript {
            summary: crate::programmatic::ProgrammaticBrokerSummary {
                total: 0,
                succeeded: 0,
                failed: 0,
            },
            initial_message_bytes: 0,
            limit: 0,
            maximum_program_return_bytes: 0,
        },
        shown: Seq::empty(),
        attempt: 0,
        dispatched: false,
        exhausted: false,
        slices: 0,
        stage: ProgramStage::Generate,
    }.reported(ProgramLifecycleOutcome::Started);
    if !admitted {
        started.failed(HarnessError::ResourceLimit("programmatic run admission limit reached"@))
    } else {
        match ProgrammaticTranscript::begun(context.request, context.limits) {
            Err(error) => started.failed(error),
            Ok(transcript) => {
                let shown = context.request.opening().push(
                    plain_message(MessageRole::System, program_prompt()),
                );
                let next = ProgramModel { transcript, shown, ..started };
                match transcript_check(shown, context.request.agent.limits) {
                    Err(error) => next.failed(error),
                    Ok(_) => (next, ProgramAction::Check),
                }
            },
        }
    }
}

/// A program that is asked for.
#[verifier::opaque]
pub open spec fn program_requested(
    context: &ProgramContext,
    run: ProgramModel,
    cancelled: bool,
    now: u64,
) -> (ProgramModel, ProgramAction) {
    match stop_check(
        cancelled,
        now,
        context.deadline,
        "programmatic run deadline reached"@,
    ) {
        Err(error) => run.failed(error),
        Ok(_) => {
            let (core, started) = run.core.program_call_started(
                context.request.agent.limits,
                context.deadline,
                now,
                if run.attempt == 0 {
                    ModelCallPhase::Planning
                } else {
                    ModelCallPhase::Repair
                },
            );
            let next = run.with_core(core);
            match started {
                Err(error) => next.failed(error),
                Ok(deadline) => (
                    next.at(ProgramStage::AwaitProgram),
                    ProgramAction::Write { deadline },
                ),
            }
        },
    }
}

/// A program that is not valid: it is repaired once, where a provider call can be spent.
#[verifier::opaque]
pub open spec fn program_refused(
    context: &ProgramContext,
    run: ProgramModel,
    output: Option<Seq<char>>,
    error: HarnessError<Seq<char>>,
) -> (ProgramModel, ProgramAction) {
    let told = run.reported(ProgramLifecycleOutcome::Invalid);
    if run.attempt == 0 && run.core.can_spend(context.request.agent.limits) {
        let shown = run.shown.push(
            plain_message(
                MessageRole::Assistant,
                match output {
                    Some(text) => text,
                    None => Seq::empty(),
                },
            ),
        ).push(plain_message(MessageRole::System, program_repair_prompt()));
        let next = ProgramModel { attempt: 1, shown, ..told };
        match transcript_check(shown, context.request.agent.limits) {
            Err(error) => next.failed(error),
            Ok(_) => (
                next.reported(ProgramLifecycleOutcome::Started).at(ProgramStage::Generate),
                ProgramAction::Check,
            ),
        }
    } else {
        ProgramModel { exhausted: true, ..told }.failed(error)
    }
}

/// What the response to a request for a program means.
#[verifier::opaque]
pub open spec fn program_written(
    context: &ProgramContext,
    run: ProgramModel,
    outcome: Result<ResponseModel, HarnessError<Seq<char>>>,
    compiled: Result<CompiledProgram, HarnessError<Seq<char>>>,
) -> (ProgramModel, ProgramAction) {
    let (core, response) = run.core.program_call_finished(context.request.agent.limits, outcome);
    let next = run.with_core(core);
    match response {
        Err(error) => next.failed(error),
        Ok(response) => match response.final_output {
            None => program_refused(
                context,
                next,
                None,
                HarnessError::InvalidOutput("provider returned no program"@),
            ),
            Some(output) => match compiled {
                Err(error) => program_refused(context, next, Some(output), error),
                Ok(program) => {
                    let valid = next.reported(ProgramLifecycleOutcome::Validated);
                    (
                        valid.with_core(
                            valid.core.emit(
                                RunEvent::ProgramValidated {
                                    attempt: run.attempt_number(),
                                    statement_count: program.statement_count,
                                    instruction_count: program.instruction_count,
                                },
                            ),
                        ).at(ProgramStage::AwaitStart),
                        ProgramAction::Start,
                    )
                },
            },
        },
    }
}

/// A slice that is about to run.
pub open spec fn slice_begun(
    context: &ProgramContext,
    run: ProgramModel,
    cancelled: bool,
    now: u64,
) -> (ProgramModel, ProgramAction) {
    match stop_check(
        cancelled,
        now,
        context.deadline,
        "programmatic run deadline reached"@,
    ) {
        Err(error) => run.failed(error),
        Ok(_) => (
            ProgramModel {
                slices: if run.slices == u64::MAX {
                    u64::MAX
                } else {
                    (run.slices + 1) as u64
                },
                ..run
            }.at(ProgramStage::AwaitStep),
            ProgramAction::Step,
        ),
    }
}

/// A slice that did not complete the program.
pub open spec fn slice_ended(
    context: &ProgramContext,
    run: ProgramModel,
    cancelled: bool,
    now: u64,
) -> (ProgramModel, ProgramAction) {
    match stop_check(
        cancelled,
        now,
        context.deadline,
        "programmatic run deadline reached"@,
    ) {
        Err(error) => run.failed(error),
        Ok(_) => (run.at(ProgramStage::SliceCheck), ProgramAction::Yield),
    }
}

/// A sum that stops at the most a counter can hold.
pub open spec fn capped(left: u32, right: u32) -> u32 {
    if left + right > u32::MAX {
        u32::MAX
    } else {
        (left + right) as u32
    }
}

/// What a program that completed leads to: an answer is asked for.
#[verifier::opaque]
pub open spec fn program_completed(
    context: &ProgramContext,
    run: ProgramModel,
    value: JsonTree,
    metrics: ProgramMetrics,
    duration_ms: u64,
    now: u64,
) -> (ProgramModel, ProgramAction) {
    let broker = run.core.record.ledger.broker;
    let told = run.with_core(
        run.core.emit(
            RunEvent::ProgramExecutionCompleted {
                attempt: run.attempt_number(),
                fuel_used: metrics.fuel_used,
                scheduling_slices: run.slices,
                tool_yields: metrics.yields,
                branches: metrics.branches,
                loop_iterations: metrics.loop_iterations,
                fanout_batches: metrics.fanout_batches,
                partial_failures: capped(
                    capped(broker.tool_failed, broker.tool_cancelled),
                    broker.tool_rejected,
                ),
                peak_accounted_bytes: metrics.retained_bytes,
                duration_ms,
            },
        ),
    );
    match run.transcript.synthesis(value) {
        Err(error) => told.failed(error),
        Ok(text) => {
            let shown = context.request.opening().push(
                plain_message(MessageRole::System, synthesis_prompt()),
            ).push(plain_message(MessageRole::User, text));
            let next = ProgramModel { shown, ..told };
            match transcript_check(shown, context.request.agent.limits) {
                Err(error) => next.failed(error),
                Ok(_) => {
                    let (core, started) = next.core.program_call_started(
                        context.request.agent.limits,
                        context.deadline,
                        now,
                        ModelCallPhase::FinalSynthesis,
                    );
                    match started {
                        Err(error) => next.with_core(core).failed(error),
                        Ok(deadline) => (
                            next.with_core(core).at(ProgramStage::AwaitSynthesis),
                            ProgramAction::Answer { deadline },
                        ),
                    }
                },
            }
        },
    }
}

/// What a slice means.
pub open spec fn slice_handled(
    context: &ProgramContext,
    run: ProgramModel,
    step: Result<StepModel, HarnessError<Seq<char>>>,
    now: u64,
) -> (ProgramModel, ProgramAction) {
    match step {
        Err(error) => run.failed(error),
        Ok(StepModel::Sliced) => (run.at(ProgramStage::SlicedCheck), ProgramAction::Check),
        Ok(StepModel::Complete(value, metrics, duration)) => program_completed(
            context,
            run,
            value,
            metrics,
            duration,
            now,
        ),
        Ok(StepModel::Yielded) => (run.at(ProgramStage::InBatch), ProgramAction::RunBatch),
        Ok(StepModel::Unsupported) => run.failed(
            HarnessError::Tool("sandbox returned an unsupported step outcome"@),
        ),
    }
}

/// What the answer means.
#[verifier::opaque]
pub open spec fn program_answered(
    context: &ProgramContext,
    run: ProgramModel,
    outcome: Result<ResponseModel, HarnessError<Seq<char>>>,
) -> (ProgramModel, ProgramAction) {
    let (core, response) = run.core.program_call_finished(context.request.agent.limits, outcome);
    let next = run.with_core(core);
    match response {
        Err(error) => next.failed(error),
        Ok(response) => match response.final_output {
            None => next.failed(
                HarnessError::InvalidOutput("final synthesis returned no output"@),
            ),
            Some(output) => if blank(output) {
                next.failed(
                    HarnessError::InvalidOutput("final synthesis returned empty output"@),
                )
            } else {
                match output_check(
                    schema_option(context.request.agent.output_schema),
                    output,
                    context.request.agent.limits.max_json_depth,
                ) {
                    Err(error) => next.failed(error),
                    Ok(_) => {
                        let told = next.reported(ProgramLifecycleOutcome::Succeeded);
                        (
                            told.with_core(
                                told.core.with_ledger(
                                    told.core.record.ledger.with_result(
                                        told.core.record.ledger.result.completed(output),
                                    ),
                                ),
                            ).at(ProgramStage::Done),
                            ProgramAction::Finish,
                        )
                    },
                }
            },
        },
    }
}

/// One step of a program: the next state and what it asks for.
pub open spec fn program_step(
    context: &ProgramContext,
    run: ProgramModel,
    event: ProgramEventModel,
) -> (ProgramModel, ProgramAction) {
    match (run.stage, event) {
        (ProgramStage::Generate, ProgramEventModel::Checked(cancelled, now)) => program_requested(
            context,
            run,
            cancelled,
            now,
        ),
        (ProgramStage::AwaitProgram, ProgramEventModel::Written(outcome, compiled)) =>
            program_written(context, run, outcome, compiled),
        (ProgramStage::AwaitStart, ProgramEventModel::Started(fault)) => match fault {
            Some(error) => run.failed(error),
            None => (run.at(ProgramStage::SliceCheck), ProgramAction::Check),
        },
        (ProgramStage::SliceCheck, ProgramEventModel::Checked(cancelled, now)) => slice_begun(
            context,
            run,
            cancelled,
            now,
        ),
        (ProgramStage::AwaitStep, ProgramEventModel::Stepped(step, now)) => slice_handled(
            context,
            run,
            step,
            now,
        ),
        (ProgramStage::SlicedCheck, ProgramEventModel::Checked(cancelled, now)) => slice_ended(
            context,
            run,
            cancelled,
            now,
        ),
        (ProgramStage::AwaitResume, ProgramEventModel::Resumed(fault)) => match fault {
            Some(error) => run.failed(error),
            None => (run.at(ProgramStage::SliceCheck), ProgramAction::Check),
        },
        (ProgramStage::AwaitSynthesis, ProgramEventModel::Answered(outcome)) => program_answered(
            context,
            run,
            outcome,
        ),
        _ => (run, ProgramAction::Misplaced),
    }
}

/// What the end of a batch means.
pub open spec fn batch_ended(
    run: ProgramModel,
    record: RecordModel,
    transcript: ProgrammaticTranscript,
    dispatched: bool,
    fault: Option<HarnessError<Seq<char>>>,
) -> (ProgramModel, ProgramAction) {
    let next = ProgramModel {
        core: run.core.with_record(record),
        transcript,
        dispatched: run.dispatched || dispatched,
        ..run
    };
    match fault {
        Some(error) => next.failed(error),
        None => (next.at(ProgramStage::AwaitResume), ProgramAction::Resume),
    }
}

/// A program of one run.
pub struct ProgramRun {
    core: StrategyCore,
    transcript: ProgrammaticTranscript,
    shown: Vec<Message>,
    attempt: u32,
    dispatched: bool,
    exhausted: bool,
    slices: u64,
    nonce: String,
    stage: ProgramStage,
}

impl View for ProgramRun {
    type V = ProgramModel;

    closed spec fn view(&self) -> ProgramModel {
        ProgramModel {
            core: self.core@,
            transcript: self.transcript,
            shown: messages_view(self.shown@),
            attempt: self.attempt,
            dispatched: self.dispatched,
            exhausted: self.exhausted,
            slices: self.slices,
            stage: self.stage,
        }
    }
}

impl ProgramRun {
    /// Identity of the execution, which the identifiers of its calls hold.
    pub closed spec fn execution_nonce(&self) -> Seq<char> {
        self.nonce@
    }

    fn report(&mut self, outcome: ProgramLifecycleOutcome)
        ensures
            final(self)@ == old(self)@.reported(outcome),
            final(self).execution_nonce() == old(self).execution_nonce(),
    {
        self.core.emit(
            RunEvent::ProgramLifecycle { attempt: self.attempt.saturating_add(1), outcome },
        );
    }

    fn fail(&mut self, error: &HarnessError) -> (action: ProgramAction)
        requires
            old(self)@.consistent(),
        ensures
            (final(self)@, action) == old(self)@.failed(error@),
            final(self)@.consistent(),
            final(self).execution_nonce() == old(self).execution_nonce(),
    {
        let (issued, _, _, _) = self.core.broker_counts();
        if self.exhausted && !self.dispatched && issued == 0 {
            self.report(ProgramLifecycleOutcome::Fallback);
            self.stage = ProgramStage::Done;
            return ProgramAction::Fallback;
        }
        self.report(terminal_lifecycle_outcome(error));
        if self.dispatched {
            self.core.end_with(
                &HarnessError::Tool(
                    "programmatic execution ended with an uncertain post-dispatch outcome".to_owned(),
                ),
            );
        } else {
            self.core.end_with(error);
        }
        self.stage = ProgramStage::Done;
        ProgramAction::Finish
    }

    /// Begins a program. `admitted` is whether a slot was free for it.
    pub fn begin(context: &ProgramContext, core: StrategyCore, admitted: bool) -> (result: (
        ProgramRun,
        ProgramAction,
    ))
        requires
            core@.calls.balanced(),
            core@.record.ledger.broker.consistent(),
            core@.record.ledger.broker.settled(),
        ensures
            (result.0@, result.1) == program_begun(context, core@, admitted),
            result.0@.consistent(),
            uuid_text(result.0.execution_nonce()),
    {
        reveal(program_begun);
        let mut run = ProgramRun {
            core,
            transcript: ProgrammaticTranscript {
                summary: crate::programmatic::ProgrammaticBrokerSummary::none(),
                initial_message_bytes: 0,
                limit: 0,
                maximum_program_return_bytes: 0,
            },
            shown: Vec::new(),
            attempt: 0,
            dispatched: false,
            exhausted: false,
            slices: 0,
            nonce: new_identifier(),
            stage: ProgramStage::Generate,
        };
        assert(run@.shown =~= Seq::empty());
        run.report(ProgramLifecycleOutcome::Started);
        if !admitted {
            let action = run.fail(
                &HarnessError::ResourceLimit(
                    "programmatic run admission limit reached".to_owned(),
                ),
            );
            return (run, action);
        }
        match ProgrammaticTranscript::new(context.request, &context.limits) {
            Err(error) => {
                let action = run.fail(&error);
                return (run, action);
            },
            Ok(transcript) => {
                run.transcript = transcript;
            },
        }
        let mut shown = context.request.initial_messages();
        let ghost opening = messages_view(shown@);
        shown.push(
            Message::system(
                "Return only a strict llama-harness program JSON object. Use version 1 and a body array. Statements are let, branch, for_each, map, filter, reduce, invoke, fan_out, and return. Expressions are null, boolean, integer, string, variable, path, array, object, binary, and unary. Tool IDs in invoke/fan_out must be static IDs from the supplied catalog. All loops and collections require explicit bounded limits. Do not use markdown, floats, dynamic tool names, code strings, imports, functions, recursion, mutation, reflection, exceptions, regex, or prose.",
            ),
        );
        assert(messages_view(shown@) =~= opening.push(
            plain_message(MessageRole::System, program_prompt()),
        ));
        run.shown = shown;
        if let Err(error) = ensure_transcript(&run.shown, &context.request.agent.limits) {
            let action = run.fail(&error);
            return (run, action);
        }
        (run, ProgramAction::Check)
    }

    fn request_program(&mut self, context: &ProgramContext, cancelled: bool, now: u64) -> (action:
        ProgramAction)
        requires
            old(self)@.consistent(),
        ensures
            (final(self)@, action) == program_requested(context, old(self)@, cancelled, now),
            final(self)@.consistent(),
            final(self).execution_nonce() == old(self).execution_nonce(),
    {
        reveal(program_requested);
        if let Err(error) = check_stopped(
            cancelled,
            now,
            context.deadline,
            "programmatic run deadline reached",
        ) {
            return self.fail(&error);
        }
        let phase = if self.attempt == 0 {
            ModelCallPhase::Planning
        } else {
            ModelCallPhase::Repair
        };
        match self.core.start_program_call(
            &context.request.agent.limits,
            context.deadline,
            now,
            phase,
        ) {
            Err(error) => self.fail(&error),
            Ok(deadline) => {
                self.stage = ProgramStage::AwaitProgram;
                ProgramAction::Write { deadline }
            },
        }
    }

    fn push_shown(&mut self, message: Message)
        ensures
            final(self)@ == (ProgramModel {
                shown: old(self)@.shown.push(message@),
                ..old(self)@
            }),
            final(self).execution_nonce() == old(self).execution_nonce(),
    {
        let ghost before = self@.shown;
        self.shown.push(message);
        assert(messages_view(self.shown@) =~= before.push(message@));
    }

    fn refuse_program(
        &mut self,
        context: &ProgramContext,
        output: &Option<String>,
        error: &HarnessError,
    ) -> (action: ProgramAction)
        requires
            old(self)@.consistent(),
        ensures
            (final(self)@, action) == program_refused(
                context,
                old(self)@,
                crate::text::text_option(*output),
                error@,
            ),
            final(self)@.consistent(),
            final(self).execution_nonce() == old(self).execution_nonce(),
    {
        reveal(program_refused);
        let limits = &context.request.agent.limits;
        self.report(ProgramLifecycleOutcome::Invalid);
        if self.attempt == 0 && self.core.can_spend_optional_model_call(limits) {
            self.attempt = 1;
            let said = match output {
                Some(text) => text.as_str(),
                None => "",
            };
            proof {
                reveal_strlit("");
                assert(""@ =~= Seq::<char>::empty());
            }
            self.push_shown(Message::assistant(said));
            self.push_shown(
                Message::system(
                    "The previous program failed strict structural verification. Return one corrected version-1 program JSON object only. Do not add markdown or prose.",
                ),
            );
            if let Err(error) = ensure_transcript(&self.shown, limits) {
                return self.fail(&error);
            }
            self.report(ProgramLifecycleOutcome::Started);
            self.stage = ProgramStage::Generate;
            return ProgramAction::Check;
        }
        self.exhausted = true;
        self.fail(error)
    }

    fn handle_program(
        &mut self,
        context: &ProgramContext,
        outcome: Result<ModelResponse, HarnessError>,
        compiled: Result<CompiledProgram, HarnessError>,
    ) -> (action: ProgramAction)
        requires
            old(self)@.consistent(),
        ensures
            (final(self)@, action) == program_written(
                context,
                old(self)@,
                outcome_view(outcome),
                compiled_view(compiled),
            ),
            final(self)@.consistent(),
            final(self).execution_nonce() == old(self).execution_nonce(),
    {
        reveal(program_written);
        match self.core.finish_program_call(&context.request.agent.limits, outcome) {
            Err(error) => self.fail(&error),
            Ok(response) => {
                if response.final_output.is_none() {
                    return self.refuse_program(
                        context,
                        &response.final_output,
                        &HarnessError::InvalidOutput("provider returned no program".to_owned()),
                    );
                }
                match compiled {
                    Err(error) => self.refuse_program(context, &response.final_output, &error),
                    Ok(program) => {
                        self.report(ProgramLifecycleOutcome::Validated);
                        self.core.emit(
                            RunEvent::ProgramValidated {
                                attempt: self.attempt.saturating_add(1),
                                statement_count: program.statement_count,
                                instruction_count: program.instruction_count,
                            },
                        );
                        self.stage = ProgramStage::AwaitStart;
                        ProgramAction::Start
                    },
                }
            },
        }
    }

    fn begin_slice(&mut self, context: &ProgramContext, cancelled: bool, now: u64) -> (action:
        ProgramAction)
        requires
            old(self)@.consistent(),
        ensures
            (final(self)@, action) == slice_begun(context, old(self)@, cancelled, now),
            final(self)@.consistent(),
            final(self).execution_nonce() == old(self).execution_nonce(),
    {
        if let Err(error) = check_stopped(
            cancelled,
            now,
            context.deadline,
            "programmatic run deadline reached",
        ) {
            return self.fail(&error);
        }
        self.slices = self.slices.saturating_add(1);
        self.stage = ProgramStage::AwaitStep;
        ProgramAction::Step
    }

    fn end_slice(&mut self, context: &ProgramContext, cancelled: bool, now: u64) -> (action:
        ProgramAction)
        requires
            old(self)@.consistent(),
        ensures
            (final(self)@, action) == slice_ended(context, old(self)@, cancelled, now),
            final(self)@.consistent(),
            final(self).execution_nonce() == old(self).execution_nonce(),
    {
        if let Err(error) = check_stopped(
            cancelled,
            now,
            context.deadline,
            "programmatic run deadline reached",
        ) {
            return self.fail(&error);
        }
        self.stage = ProgramStage::SliceCheck;
        ProgramAction::Yield
    }

    fn complete_program(
        &mut self,
        context: &ProgramContext,
        value: &Json,
        metrics: ProgramMetrics,
        duration_ms: u64,
        now: u64,
    ) -> (action: ProgramAction)
        requires
            old(self)@.consistent(),
        ensures
            (final(self)@, action) == program_completed(
                context,
                old(self)@,
                value@,
                metrics,
                duration_ms,
                now,
            ),
            final(self)@.consistent(),
            final(self).execution_nonce() == old(self).execution_nonce(),
    {
        reveal(program_completed);
        let limits = &context.request.agent.limits;
        let (_, failed, cancelled, rejected) = self.core.broker_counts();
        self.core.emit(
            RunEvent::ProgramExecutionCompleted {
                attempt: self.attempt.saturating_add(1),
                fuel_used: metrics.fuel_used,
                scheduling_slices: self.slices,
                tool_yields: metrics.yields,
                branches: metrics.branches,
                loop_iterations: metrics.loop_iterations,
                fanout_batches: metrics.fanout_batches,
                partial_failures: failed.saturating_add(cancelled).saturating_add(rejected),
                peak_accounted_bytes: metrics.retained_bytes,
                duration_ms,
            },
        );
        let text = match self.transcript.serialize_synthesis_input(value) {
            Err(error) => return self.fail(&error),
            Ok(text) => text,
        };
        let mut shown = context.request.initial_messages();
        let ghost opening = messages_view(shown@);
        shown.push(
            Message::system(
                "A verified program completed. Produce the final answer using only the bounded program return and value-free broker call summary in the next user message.",
            ),
        );
        shown.push(Message::user(text.as_str()));
        assert(messages_view(shown@) =~= opening.push(
            plain_message(MessageRole::System, synthesis_prompt()),
        ).push(plain_message(MessageRole::User, text@)));
        self.shown = shown;
        if let Err(error) = ensure_transcript(&self.shown, limits) {
            return self.fail(&error);
        }
        match self.core.start_program_call(
            limits,
            context.deadline,
            now,
            ModelCallPhase::FinalSynthesis,
        ) {
            Err(error) => self.fail(&error),
            Ok(deadline) => {
                self.stage = ProgramStage::AwaitSynthesis;
                ProgramAction::Answer { deadline }
            },
        }
    }

    fn handle_step(
        &mut self,
        context: &ProgramContext,
        step: Result<ProgramStep, HarnessError>,
        now: u64,
    ) -> (action: ProgramAction)
        requires
            old(self)@.consistent(),
        ensures
            (final(self)@, action) == slice_handled(
                context,
                old(self)@,
                match step {
                    Ok(step) => Ok(step@),
                    Err(error) => Err(error@),
                },
                now,
            ),
            final(self)@.consistent(),
            final(self).execution_nonce() == old(self).execution_nonce(),
    {
        match step {
            Err(error) => self.fail(&error),
            Ok(ProgramStep::Sliced) => {
                self.stage = ProgramStage::SlicedCheck;
                ProgramAction::Check
            },
            Ok(ProgramStep::Complete(value, metrics, duration)) => self.complete_program(
                context,
                &value,
                metrics,
                duration,
                now,
            ),
            Ok(ProgramStep::Yielded) => {
                self.stage = ProgramStage::InBatch;
                ProgramAction::RunBatch
            },
            Ok(ProgramStep::Unsupported) => self.fail(
                &HarnessError::Tool("sandbox returned an unsupported step outcome".to_owned()),
            ),
        }
    }

    fn handle_answer(
        &mut self,
        context: &ProgramContext,
        outcome: Result<ModelResponse, HarnessError>,
    ) -> (action: ProgramAction)
        requires
            old(self)@.consistent(),
        ensures
            (final(self)@, action) == program_answered(
                context,
                old(self)@,
                outcome_view(outcome),
            ),
            final(self)@.consistent(),
            final(self).execution_nonce() == old(self).execution_nonce(),
    {
        reveal(program_answered);
        let limits = &context.request.agent.limits;
        let response = match self.core.finish_program_call(limits, outcome) {
            Err(error) => return self.fail(&error),
            Ok(response) => response,
        };
        match &response.final_output {
            None => self.fail(
                &HarnessError::InvalidOutput("final synthesis returned no output".to_owned()),
            ),
            Some(output) => {
                if is_blank(output.as_str()) {
                    return self.fail(
                        &HarnessError::InvalidOutput(
                            "final synthesis returned empty output".to_owned(),
                        ),
                    );
                }
                if let Err(error) = validate_output(
                    &context.request.agent.output_schema,
                    output.as_str(),
                    limits.max_json_depth,
                ) {
                    return self.fail(&error);
                }
                self.report(ProgramLifecycleOutcome::Succeeded);
                self.core.complete_run(output.as_str());
                self.stage = ProgramStage::Done;
                ProgramAction::Finish
            },
        }
    }

    /// Takes one step.
    pub fn step(&mut self, context: &ProgramContext, event: ProgramEvent) -> (action: ProgramAction)
        requires
            old(self)@.consistent(),
        ensures
            (final(self)@, action) == program_step(context, old(self)@, event@),
            final(self)@.consistent(),
            final(self).execution_nonce() == old(self).execution_nonce(),
    {
        match event {
            ProgramEvent::Checked(cancelled, now) => match self.stage {
                ProgramStage::Generate => self.request_program(context, cancelled, now),
                ProgramStage::SliceCheck => self.begin_slice(context, cancelled, now),
                ProgramStage::SlicedCheck => self.end_slice(context, cancelled, now),
                _ => ProgramAction::Misplaced,
            },
            ProgramEvent::Written(outcome, compiled) => match self.stage {
                ProgramStage::AwaitProgram => self.handle_program(context, outcome, compiled),
                _ => ProgramAction::Misplaced,
            },
            ProgramEvent::Started(fault) => match self.stage {
                ProgramStage::AwaitStart => match fault {
                    Some(error) => self.fail(&error),
                    None => {
                        self.stage = ProgramStage::SliceCheck;
                        ProgramAction::Check
                    },
                },
                _ => ProgramAction::Misplaced,
            },
            ProgramEvent::Stepped(step, now) => match self.stage {
                ProgramStage::AwaitStep => self.handle_step(context, step, now),
                _ => ProgramAction::Misplaced,
            },
            ProgramEvent::Resumed(fault) => match self.stage {
                ProgramStage::AwaitResume => match fault {
                    Some(error) => self.fail(&error),
                    None => {
                        self.stage = ProgramStage::SliceCheck;
                        ProgramAction::Check
                    },
                },
                _ => ProgramAction::Misplaced,
            },
            ProgramEvent::Answered(outcome) => match self.stage {
                ProgramStage::AwaitSynthesis => self.handle_answer(context, outcome),
                _ => ProgramAction::Misplaced,
            },
        }
    }

    /// Begins the batch that the program asks for. The record goes with it, and comes back when
    /// the batch is over.
    pub fn start_batch(
        &mut self,
        context: &BatchContext,
        calls: Vec<BatchCall>,
        fan_out: bool,
    ) -> (result: (BatchRun, BatchAction))
        requires
            old(self)@.consistent(),
        ensures
            (result.0@, result.1) == batch_begun(
                context,
                CoreModel {
                    record: old(self)@.core.record,
                    messages: Seq::empty(),
                    calls: CallCounts {
                        model_calls: 0,
                        planning: 0,
                        repair: 0,
                        recovery: 0,
                        final_synthesis: 0,
                        reactive: 0,
                    },
                    output_repairs: 0,
                    selected: RunStrategy::Programmatic,
                    plan_attempt: 0,
                },
                old(self)@.transcript,
                calls@,
                fan_out,
                old(self).execution_nonce(),
            ),
            result.0@.consistent(),
            final(self)@ == old(self)@.with_core(
                old(self)@.core.with_record(final(self)@.core.record),
            ),
            final(self).execution_nonce() == old(self).execution_nonce(),
    {
        let record = self.core.take_record();
        let messages: Vec<Message> = Vec::new();
        assert(messages_view(messages@) =~= Seq::empty());
        let core = StrategyCore::new(record, messages, RunStrategy::Programmatic);
        BatchRun::begin(
            context,
            core,
            self.transcript,
            calls,
            fan_out,
            self.nonce.as_str(),
        )
    }

    /// Goes on once the batch is over, with its error if it failed.
    pub fn batch_over(
        &mut self,
        core: StrategyCore,
        transcript: ProgrammaticTranscript,
        dispatched: bool,
        fault: Option<HarnessError>,
    ) -> (action: ProgramAction)
        requires
            old(self)@.core.calls.balanced(),
            core@.record.ledger.broker.consistent(),
            core@.record.ledger.broker.settled(),
        ensures
            old(self)@.stage == ProgramStage::InBatch ==> (final(self)@, action) == batch_ended(
                old(self)@,
                core@.record,
                transcript,
                dispatched,
                error_option(fault),
            ) && final(self)@.consistent(),
            old(self)@.stage != ProgramStage::InBatch ==> final(self)@ == old(self)@ && action
                == ProgramAction::Misplaced,
            final(self).execution_nonce() == old(self).execution_nonce(),
    {
        if self.stage != ProgramStage::InBatch {
            return ProgramAction::Misplaced;
        }
        let (record, _, _) = core.into_parts();
        let plan_attempt = self.core.plan_attempt();
        self.core.return_record(record, plan_attempt);
        self.transcript = transcript;
        self.dispatched = self.dispatched || dispatched;
        match fault {
            Some(error) => self.fail(&error),
            None => {
                self.stage = ProgramStage::AwaitResume;
                ProgramAction::Resume
            },
        }
    }

    /// What the provider is shown.
    pub fn shown(&self) -> (result: &Vec<Message>)
        ensures
            messages_view(result@) == self@.shown,
    {
        &self.shown
    }

    /// One-based number of the attempt.
    pub fn attempt_number(&self) -> (result: u32)
        ensures
            result == self@.attempt_number(),
    {
        self.attempt.saturating_add(1)
    }

    /// Hands over the recorded events and forgets them.
    pub fn take_events(&mut self) -> (result: Vec<RunEvent>)
        ensures
            crate::event::events_view(result@) == old(self)@.core.record.ledger.events,
            final(self)@ == old(self)@.with_core(
                old(self)@.core.with_ledger(
                    LedgerModel { events: Seq::empty(), ..old(self)@.core.record.ledger },
                ),
            ),
            final(self).execution_nonce() == old(self).execution_nonce(),
    {
        self.core.take_events()
    }

    /// The shared part of the run, for good.
    pub fn into_core(self) -> (result: StrategyCore)
        ensures
            result@ == self@.core,
    {
        self.core
    }
}

/// A program falls back to direct execution only where none of its calls took effect, and an
/// error after a call took effect is never told as if nothing had.
pub proof fn effects_bar_fallback(run: ProgramModel, error: HarnessError<Seq<char>>)
    ensures
        ({
            let (next, action) = run.failed(error);
            &&& action == ProgramAction::Fallback ==> !run.dispatched
                && run.core.record.ledger.broker.tool_issued == 0
            &&& run.dispatched ==> next.core.record.ledger.result
                == run.core.record.ledger.result.ended_by(uncertain_error())
        }),
{
}

} // verus!
