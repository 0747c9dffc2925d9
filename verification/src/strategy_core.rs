//! What every strategy of a run shares: its record, its conversation and its provider calls.

use crate::admission::{
    admission, admission_view, apply_approval, apply_policy, approval_outcome, dispatched,
    execution_recorded, made_uncertain, mark_dispatched, mark_uncertain, policy_outcome,
    record_execution, undecided, Admission, Authorization, BrokerExecution, ExecutionModel,
    PreparedCall, PreparedModel, ToolBroker,
};
use crate::agent::{errors_without, RunRequest, RunResult, RunResultModel, RunStatus, RunStrategy};
use crate::broker::BrokerModel;
use crate::direct::{execution_lost, note_lost_execution};
use crate::error::{HarnessError, RunError};
use crate::event::{
    events_view, PlanLifecycleOutcome, PlanPhase, RunEvent, StrategyFallbackReason,
    StrategySelectionReason,
};
use crate::ledger::{LedgerModel, RecordModel, RunLedger, RunRecord};
use crate::limits::{check_view, AgentLimits};
use crate::message::{
    ensure_transcript, messages_view, push_tool_message, tool_calls_message, tool_message,
    transcript_check, Message, MessageModel,
};
use crate::model::{response_check, validate_model_response, ModelResponse, ResponseModel};
use crate::plan_model::{entries_view, tool_failure};
use crate::plan_state::tool_failure_error;
use crate::policy::PolicyDecision;
use crate::request::{call_deadline, deadline_view, provider_deadline};
use crate::speculative_call::{preparation_failed, settle_failed_preparation};
use crate::tool::{calls_view, ToolCall, ToolCallContext, ToolCaller, ToolResult, ToolResultModel};
use vstd::prelude::*;

verus! {

/// What a provider call is made for.
#[derive(Clone, Copy, Debug, PartialEq, Eq, Structural)]
pub enum ModelCallPhase {
    /// The first envelope.
    Planning,
    /// The repair of an envelope.
    Repair,
    /// A plan that makes good a failed execution.
    Recovery,
    /// The answer that follows a completed plan.
    FinalSynthesis,
    /// A turn of direct execution.
    Reactive,
}

/// Provider calls so far, by what they were made for.
#[derive(Clone, Copy, Debug, PartialEq, Eq, Structural)]
pub struct CallCounts {
    /// All of them.
    pub model_calls: u32,
    /// For envelopes.
    pub planning: u32,
    /// For repairs of envelopes.
    pub repair: u32,
    /// For recovery plans.
    pub recovery: u32,
    /// For answers that follow a completed plan.
    pub final_synthesis: u32,
    /// For turns of direct execution.
    pub reactive: u32,
}

impl CallCounts {
    /// Whether every call was counted once, by what it was made for.
    pub open spec fn balanced(self) -> bool {
        self.model_calls == self.planning + self.repair + self.recovery + self.final_synthesis
            + self.reactive
    }

    /// The counts with one more call.
    pub open spec fn counted(self, phase: ModelCallPhase) -> CallCounts {
        let next = CallCounts { model_calls: (self.model_calls + 1) as u32, ..self };
        match phase {
            ModelCallPhase::Planning => CallCounts { planning: (self.planning + 1) as u32, ..next },
            ModelCallPhase::Repair => CallCounts { repair: (self.repair + 1) as u32, ..next },
            ModelCallPhase::Recovery => CallCounts { recovery: (self.recovery + 1) as u32, ..next },
            ModelCallPhase::FinalSynthesis => CallCounts {
                final_synthesis: (self.final_synthesis + 1) as u32,
                ..next
            },
            ModelCallPhase::Reactive => CallCounts { reactive: (self.reactive + 1) as u32, ..next },
        }
    }

    /// No calls.
    pub fn none() -> (result: CallCounts)
        ensures
            result == (CallCounts {
                model_calls: 0,
                planning: 0,
                repair: 0,
                recovery: 0,
                final_synthesis: 0,
                reactive: 0,
            }),
            result.balanced(),
    {
        CallCounts {
            model_calls: 0,
            planning: 0,
            repair: 0,
            recovery: 0,
            final_synthesis: 0,
            reactive: 0,
        }
    }

    /// Counts one more call.
    pub fn count(&mut self, phase: ModelCallPhase)
        requires
            old(self).balanced(),
            old(self).model_calls < u32::MAX,
        ensures
            *final(self) == old(self).counted(phase),
            final(self).balanced(),
    {
        self.model_calls += 1;
        match phase {
            ModelCallPhase::Planning => self.planning += 1,
            ModelCallPhase::Repair => self.repair += 1,
            ModelCallPhase::Recovery => self.recovery += 1,
            ModelCallPhase::FinalSynthesis => self.final_synthesis += 1,
            ModelCallPhase::Reactive => self.reactive += 1,
        }
    }
}

/// The shared part of a run.
pub struct StrategyCore {
    record: RunRecord,
    messages: Vec<Message>,
    calls: CallCounts,
    output_repairs: u32,
    selected: RunStrategy,
    plan_attempt: u32,
}

/// The model of the shared part of a run.
pub struct CoreModel {
    /// What the run recorded.
    pub record: RecordModel,
    /// The conversation.
    pub messages: Seq<MessageModel>,
    /// Provider calls so far.
    pub calls: CallCounts,
    /// Repairs of the final output so far.
    pub output_repairs: u32,
    /// The strategy at work.
    pub selected: RunStrategy,
    /// Plans executed so far.
    pub plan_attempt: u32,
}

impl View for StrategyCore {
    type V = CoreModel;

    closed spec fn view(&self) -> CoreModel {
        CoreModel {
            record: self.record@,
            messages: messages_view(self.messages@),
            calls: self.calls,
            output_repairs: self.output_repairs,
            selected: self.selected,
            plan_attempt: self.plan_attempt,
        }
    }
}

/// Whether a provider call can begin.
pub enum CallStart<S = String> {
    /// The limit of provider calls is reached.
    LimitReached,
    /// It cannot.
    Failed(HarnessError<S>),
    /// It can.
    Call {
        /// One-based number of the call.
        number: u32,
        /// When the call must end, in milliseconds.
        deadline: Option<u64>,
    },
}

impl View for CallStart<String> {
    type V = CallStart<Seq<char>>;

    open spec fn view(&self) -> CallStart<Seq<char>> {
        match self {
            CallStart::LimitReached => CallStart::LimitReached,
            CallStart::Failed(error) => CallStart::Failed(error@),
            CallStart::Call { number, deadline } => CallStart::Call {
                number: *number,
                deadline: *deadline,
            },
        }
    }
}

/// What the end of a provider call means.
pub enum CallEnd {
    /// The response is valid.
    Response(ModelResponse),
    /// The call is made again.
    Retry,
    /// The call failed.
    Failed(HarnessError),
}

/// The model of the end of a provider call.
pub enum CallEndModel {
    /// The response is valid.
    Response(ResponseModel),
    /// The call is made again.
    Retry,
    /// The call failed.
    Failed(HarnessError<Seq<char>>),
}

impl View for CallEnd {
    type V = CallEndModel;

    open spec fn view(&self) -> CallEndModel {
        match self {
            CallEnd::Response(response) => CallEndModel::Response(response@),
            CallEnd::Retry => CallEndModel::Retry,
            CallEnd::Failed(error) => CallEndModel::Failed(error@),
        }
    }
}

/// The view of the outcome of a provider call.
pub open spec fn outcome_view(outcome: Result<ModelResponse, HarnessError>) -> Result<
    ResponseModel,
    HarnessError<Seq<char>>,
> {
    match outcome {
        Ok(response) => Ok(response@),
        Err(error) => Err(error@),
    }
}

impl CoreModel {
    /// The run with another record.
    pub open spec fn with_record(self, record: RecordModel) -> CoreModel {
        CoreModel { record, ..self }
    }

    /// The run with another ledger.
    pub open spec fn with_ledger(self, ledger: LedgerModel) -> CoreModel {
        self.with_record(self.record.with_ledger(ledger))
    }

    /// The run with one more event.
    pub open spec fn emit(self, event: RunEvent<Seq<char>>) -> CoreModel {
        self.with_record(self.record.emit(event))
    }

    /// The run, ended by an error unless it was ended before.
    pub open spec fn terminated(self, error: HarnessError<Seq<char>>) -> CoreModel {
        self.with_record(self.record.terminated(error))
    }

    /// The run with one more error.
    pub open spec fn with_error(self, error: RunError<Seq<char>>) -> CoreModel {
        self.with_ledger(self.record.ledger.with_error(error))
    }

    /// The run with the state of a planning phase reported.
    pub open spec fn reported(
        self,
        phase: PlanPhase,
        attempt: u32,
        outcome: PlanLifecycleOutcome,
    ) -> CoreModel {
        self.emit(RunEvent::PlanLifecycle { phase, attempt, outcome })
    }

    /// Whether a provider call can be spent on something else than an answer.
    pub open spec fn can_spend(self, limits: AgentLimits) -> bool {
        limits.max_model_calls > self.calls.model_calls + 1
    }

    /// Whether a provider call is left.
    pub open spec fn has_capacity(self, limits: AgentLimits) -> bool {
        self.calls.model_calls < limits.max_model_calls
    }

    /// The run, fallen back from planning to direct execution.
    pub open spec fn fallen_back(
        self,
        requested: RunStrategy,
        reason: StrategyFallbackReason,
    ) -> CoreModel {
        CoreModel {
            selected: RunStrategy::Direct,
            ..self.emit(
                RunEvent::StrategyFallback {
                    from: RunStrategy::DeclarativePlan,
                    to: RunStrategy::Direct,
                    reason,
                },
            ).emit(
                RunEvent::StrategySelected {
                    requested,
                    selected: RunStrategy::Direct,
                    reason: StrategySelectionReason::PlannerSelectedDirect,
                },
            )
        }
    }

    /// The run with one provider call begun, or the limit that forbids it.
    pub open spec fn call_started(
        self,
        limits: AgentLimits,
        run_deadline: Option<u64>,
        now_ms: u64,
        phase: ModelCallPhase,
    ) -> (CoreModel, CallStart<Seq<char>>) {
        if !self.has_capacity(limits) {
            (
                self.with_record(
                    RecordModel {
                        ledger: self.record.ledger.with_result(
                            self.record.ledger.result.at_model_call_limit(),
                        ),
                        terminal: true,
                    },
                ),
                CallStart::LimitReached,
            )
        } else {
            let calls = self.calls.counted(phase);
            let called = CoreModel { calls, ..self }.emit(
                RunEvent::ModelRequested {
                    call_number: calls.model_calls,
                    model: self.record.ledger.result.model,
                },
            );
            match call_deadline(now_ms, run_deadline, limits.max_model_call_duration_ms) {
                Err(error) => (called, CallStart::Failed(error)),
                Ok(deadline) => (
                    called,
                    CallStart::Call { number: calls.model_calls, deadline },
                ),
            }
        }
    }

    /// The run with one provider call ended. `retries` counts those of this turn; `reserve`
    /// keeps one call for an answer.
    pub open spec fn call_finished(
        self,
        limits: AgentLimits,
        outcome: Result<ResponseModel, HarnessError<Seq<char>>>,
        retries: u32,
        reserve: bool,
    ) -> (CoreModel, CallEndModel) {
        match outcome {
            Ok(response) => match response_check(response, limits) {
                Err(error) => (self, CallEndModel::Failed(error)),
                Ok(_) => (
                    self.emit(RunEvent::ModelResponded { call_number: self.calls.model_calls }),
                    CallEndModel::Response(response),
                ),
            },
            Err(HarnessError::RetryableProvider(reason)) => if retries
                >= limits.max_provider_retries {
                (self, CallEndModel::Failed(HarnessError::RetryableProvider(reason)))
            } else if reserve && !self.can_spend(limits) {
                (
                    self,
                    CallEndModel::Failed(
                        HarnessError::RetryableProvider(
                            "provider retry skipped to preserve final synthesis capacity"@,
                        ),
                    ),
                )
            } else {
                (
                    self.emit(
                        RunEvent::ModelRetrying {
                            next_call_number: if self.calls.model_calls == u32::MAX {
                                u32::MAX
                            } else {
                                (self.calls.model_calls + 1) as u32
                            },
                            reason,
                        },
                    ),
                    CallEndModel::Retry,
                )
            },
            Err(error) => (self, CallEndModel::Failed(error)),
        }
    }
}

impl CoreModel {
    /// The run with one provider call for a program begun, or why it cannot.
    pub open spec fn program_call_started(
        self,
        limits: AgentLimits,
        deadline: Option<u64>,
        now_ms: u64,
        phase: ModelCallPhase,
    ) -> (CoreModel, Result<Option<u64>, HarnessError<Seq<char>>>) {
        if !self.has_capacity(limits) {
            (self, Err(HarnessError::ResourceLimit("model call limit reached"@)))
        } else {
            let calls = self.calls.counted(phase);
            (
                CoreModel { calls, ..self }.emit(
                    RunEvent::ModelRequested {
                        call_number: calls.model_calls,
                        model: self.record.ledger.result.model,
                    },
                ),
                call_deadline(now_ms, deadline, limits.max_model_call_duration_ms),
            )
        }
    }

    /// The run with one provider call for a program ended.
    pub open spec fn program_call_finished(
        self,
        limits: AgentLimits,
        outcome: Result<ResponseModel, HarnessError<Seq<char>>>,
    ) -> (CoreModel, Result<ResponseModel, HarnessError<Seq<char>>>) {
        match outcome {
            Err(error) => (self, Err(error)),
            Ok(response) => match response_check(response, limits) {
                Err(error) => (self, Err(error)),
                Ok(_) => if response.tool_calls.len() > 0 {
                    (
                        self,
                        Err(
                            HarnessError::InvalidOutput(
                                "programmatic model phases cannot return native tool calls"@,
                            ),
                        ),
                    )
                } else {
                    (
                        self.emit(
                            RunEvent::ModelResponded { call_number: self.calls.model_calls },
                        ),
                        Ok(response),
                    )
                },
            },
        }
    }
}

/// The ledger once a call came to something, with the tool's own words on a failure.
pub open spec fn outcome_recorded(
    ledger: LedgerModel,
    prepared: PreparedModel,
    execution: ExecutionModel,
) -> LedgerModel {
    let reported = ledger.tool_completed(prepared.call, execution.result.ok);
    let recorded = reported.with_broker(execution_recorded(reported.broker, prepared, execution));
    match execution.validation_error {
        Some(error) => recorded.with_error(error),
        None => if execution.result.ok {
            recorded
        } else {
            recorded.with_error(tool_failure(execution.result))
        },
    }
}

/// The ledger once a call of a program returned something that the program cannot use.
pub open spec fn execution_spoiled(
    ledger: LedgerModel,
    prepared: PreparedModel,
    execution: ExecutionModel,
) -> LedgerModel {
    ledger.with_broker(
        made_uncertain(execution_recorded(ledger.broker, prepared, execution), prepared),
    ).tool_completed(prepared.call, false)
}

/// The ledger once a call of a program succeeded.
pub open spec fn execution_kept(
    ledger: LedgerModel,
    prepared: PreparedModel,
    execution: ExecutionModel,
) -> LedgerModel {
    let reported = ledger.tool_completed(prepared.call, true);
    reported.with_broker(execution_recorded(reported.broker, prepared, execution))
}

/// The calls of completed entries.
pub open spec fn entry_calls(entries: Seq<(ToolCall<Seq<char>>, ToolResultModel)>) -> Seq<
    ToolCall<Seq<char>>,
> {
    entries.map_values(|entry: (ToolCall<Seq<char>>, ToolResultModel)| entry.0)
}

/// A conversation with the first `count` results of completed entries added, as far as it
/// stays within its limit.
pub open spec fn results_appended(
    messages: Seq<MessageModel>,
    entries: Seq<(ToolCall<Seq<char>>, ToolResultModel)>,
    limits: AgentLimits,
    count: nat,
) -> (Seq<MessageModel>, Result<(), HarnessError<Seq<char>>>)
    decreases count,
{
    if count == 0 || count > entries.len() {
        (messages, Ok(()))
    } else {
        let (before, answer) = results_appended(messages, entries, limits, (count - 1) as nat);
        if answer is Err {
            (before, answer)
        } else {
            let (call, result) = entries[count - 1];
            let next = before.push(tool_message(call.id, result.json_text()));
            (next, transcript_check(next, limits))
        }
    }
}

/// A conversation with completed entries added, as far as it stays within its limit.
pub open spec fn entries_appended(
    messages: Seq<MessageModel>,
    entries: Seq<(ToolCall<Seq<char>>, ToolResultModel)>,
    limits: AgentLimits,
) -> (Seq<MessageModel>, Result<(), HarnessError<Seq<char>>>) {
    if entries.len() == 0 {
        (messages, Ok(()))
    } else {
        let next = messages.push(tool_calls_message(entry_calls(entries)));
        match transcript_check(next, limits) {
            Err(error) => (next, Err(error)),
            Ok(_) => results_appended(next, entries, limits, entries.len()),
        }
    }
}

proof fn results_appended_stays(
    messages: Seq<MessageModel>,
    entries: Seq<(ToolCall<Seq<char>>, ToolResultModel)>,
    limits: AgentLimits,
    count: nat,
    longer: nat,
)
    requires
        count <= longer <= entries.len(),
        results_appended(messages, entries, limits, count).1 is Err,
    ensures
        results_appended(messages, entries, limits, longer) == results_appended(
            messages,
            entries,
            limits,
            count,
        ),
    decreases longer - count,
{
    if count < longer {
        results_appended_stays(messages, entries, limits, count, (longer - 1) as nat);
    }
}

/// Adds the calls and results of a plan to a conversation.
pub fn append_plan_transcript(
    messages: &mut Vec<Message>,
    entries: &Vec<(ToolCall, ToolResult)>,
    limits: &AgentLimits,
) -> (result: Result<(), HarnessError>)
    ensures
        (messages_view(final(messages)@), check_view(result)) == entries_appended(
            messages_view(old(messages)@),
            entries_view(entries@),
            *limits,
        ),
{
    if entries.len() == 0 {
        return Ok(());
    }
    let ghost all = entries_view(entries@);
    let ghost first = messages_view(messages@);
    let mut calls: Vec<ToolCall> = Vec::new();
    let mut i: usize = 0;
    while i < entries.len()
        invariant
            i <= entries@.len(),
            calls@.len() == i,
            forall|j: int| 0 <= j < i ==> (#[trigger] calls@[j])@ == entries@[j].0@,
        decreases entries@.len() - i,
    {
        calls.push(entries[i].0.duplicate());
        i += 1;
    }
    assert(calls_view(calls@) =~= entry_calls(all));
    messages.push(Message::assistant_tool_calls(calls));
    let ghost called = first.push(tool_calls_message(entry_calls(all)));
    assert(messages_view(messages@) =~= called);
    ensure_transcript(messages, limits)?;
    let mut k: usize = 0;
    while k < entries.len()
        invariant
            k <= entries@.len(),
            all == entries_view(entries@),
            first == messages_view(old(messages)@),
            called == first.push(tool_calls_message(entry_calls(all))),
            transcript_check(called, *limits) is Ok,
            all.len() > 0,
            (messages_view(messages@), Ok::<(), HarnessError<Seq<char>>>(())) == results_appended(
                called,
                all,
                *limits,
                k as nat,
            ),
        decreases entries@.len() - k,
    {
        assert(all[k as int] == (entries@[k as int].0@, entries@[k as int].1@));
        if let Err(error) = push_tool_message(messages, &entries[k].0, &entries[k].1, limits) {
            proof {
                results_appended_stays(called, all, *limits, (k + 1) as nat, all.len());
            }
            return Err(error);
        }
        k += 1;
    }
    Ok(())
}

impl StrategyCore {
    /// A run that has made no provider call yet.
    pub fn new(record: RunRecord, messages: Vec<Message>, selected: RunStrategy) -> (result:
        StrategyCore)
        ensures
            result@ == (CoreModel {
                record: record@,
                messages: messages_view(messages@),
                calls: CallCounts {
                    model_calls: 0,
                    planning: 0,
                    repair: 0,
                    recovery: 0,
                    final_synthesis: 0,
                    reactive: 0,
                },
                output_repairs: 0,
                selected,
                plan_attempt: 0,
            }),
            result@.calls.balanced(),
    {
        StrategyCore {
            record,
            messages,
            calls: CallCounts::none(),
            output_repairs: 0,
            selected,
            plan_attempt: 0,
        }
    }

    /// The conversation.
    pub fn messages(&self) -> (result: &Vec<Message>)
        ensures
            messages_view(result@) == self@.messages,
    {
        &self.messages
    }

    /// The status of the run so far.
    pub fn status(&self) -> (result: RunStatus)
        ensures
            result == self@.record.ledger.result.status,
    {
        self.record.ledger.result.status
    }

    /// Whether the run was ended for good.
    pub fn is_terminal(&self) -> (result: bool)
        ensures
            result == self@.record.terminal,
    {
        self.record.terminal
    }

    /// Whether an error was recorded.
    pub fn has_errors(&self) -> (result: bool)
        ensures
            result == (self@.record.ledger.result.errors.len() > 0),
    {
        self.record.ledger.result.errors.len() > 0
    }

    /// Forgets the errors of one code.
    pub fn forget_errors(&mut self, code: &str)
        ensures
            final(self)@ == old(self)@.with_ledger(
                old(self)@.record.ledger.with_result(
                    RunResultModel {
                        errors: errors_without(old(self)@.record.ledger.result.errors, code@),
                        ..old(self)@.record.ledger.result
                    },
                ),
            ),
    {
        self.record.ledger.result.forget_errors(code);
    }

    /// Lets completed effects answer identical later calls.
    pub fn enable_effect_reuse(&mut self)
        ensures
            final(self)@ == old(self)@.with_ledger(
                old(self)@.record.ledger.with_broker(
                    BrokerModel {
                        reuse_committed_effects: true,
                        ..old(self)@.record.ledger.broker
                    },
                ),
            ),
    {
        self.record.ledger.broker.enable_effect_reuse();
    }

    /// Whether every recorded effect is known to have taken place.
    pub fn recovery_is_safe(&self) -> (result: bool)
        ensures
            result == self@.record.ledger.broker.safe_to_recover(),
    {
        self.record.ledger.broker.recovery_is_safe()
    }

    /// Changes the strategy at work.
    pub fn select(&mut self, selected: RunStrategy)
        ensures
            final(self)@ == (CoreModel { selected, ..old(self)@ }),
    {
        self.selected = selected;
    }

    /// Plans executed so far.
    pub fn plan_attempt(&self) -> (result: u32)
        ensures
            result == self@.plan_attempt,
    {
        self.plan_attempt
    }

    /// Hands the record over, and keeps a blank one in its place.
    pub fn take_record(&mut self) -> (record: RunRecord)
        ensures
            record@ == old(self)@.record,
            final(self)@ == old(self)@.with_record(final(self)@.record),
    {
        let mut record = RunRecord {
            ledger: RunLedger::new(RunResult::new("", RunStatus::Failed, "", "")),
            terminal: false,
        };
        std::mem::swap(&mut record, &mut self.record);
        record
    }

    /// Takes the record back, with the number of the plan that it went with.
    pub fn return_record(&mut self, record: RunRecord, plan_attempt: u32)
        ensures
            final(self)@ == (CoreModel { record: record@, plan_attempt, ..old(self)@ }),
    {
        self.record = record;
        self.plan_attempt = plan_attempt;
    }

    /// Adds completed calls and their results to the conversation.
    pub fn append_entries(&mut self, entries: &Vec<(ToolCall, ToolResult)>, limits: &AgentLimits) -> (
    answer: Result<(), HarnessError>)
        ensures
            ({
                let (messages, told) = entries_appended(
                    old(self)@.messages,
                    entries_view(entries@),
                    *limits,
                );
                final(self)@ == (CoreModel { messages, ..old(self)@ }) && check_view(answer) == told
            }),
    {
        append_plan_transcript(&mut self.messages, entries, limits)
    }

    /// Hands over the recorded events and forgets them.
    pub fn take_events(&mut self) -> (result: Vec<RunEvent>)
        ensures
            events_view(result@) == old(self)@.record.ledger.events,
            final(self)@ == old(self)@.with_ledger(
                LedgerModel { events: Seq::empty(), ..old(self)@.record.ledger },
            ),
    {
        self.record.ledger.take_events()
    }

    /// Adds a message to the conversation.
    pub fn push_message(&mut self, message: Message)
        ensures
            final(self)@ == (CoreModel {
                messages: old(self)@.messages.push(message@),
                ..old(self)@
            }),
    {
        let ghost before = self@.messages;
        self.messages.push(message);
        assert(messages_view(self.messages@) =~= before.push(message@));
    }

    /// Checks that the conversation stays within its limit.
    pub fn check_transcript(&self, limits: &AgentLimits) -> (answer: Result<(), HarnessError>)
        ensures
            check_view(answer) == transcript_check(self@.messages, *limits),
    {
        ensure_transcript(&self.messages, limits)
    }

    /// Hands a tool result to the model.
    pub fn push_result(&mut self, call: &ToolCall, result: &ToolResult, limits: &AgentLimits) -> (
    answer: Result<(), HarnessError>)
        ensures
            final(self)@ == (CoreModel {
                messages: old(self)@.messages.push(
                    tool_message(call@.id, result@.json_text()),
                ),
                ..old(self)@
            }),
            check_view(answer) == transcript_check(final(self)@.messages, *limits),
    {
        push_tool_message(&mut self.messages, call, result, limits)
    }

    /// Completes the run with its output.
    pub fn complete_run(&mut self, output: &str)
        ensures
            final(self)@ == old(self)@.with_ledger(
                old(self)@.record.ledger.with_result(
                    old(self)@.record.ledger.result.completed(output@),
                ),
            ),
    {
        self.record.ledger.result.complete(output);
    }

    /// Repairs of the final output so far.
    pub fn output_repairs(&self) -> (result: u32)
        ensures
            result == self@.output_repairs,
    {
        self.output_repairs
    }

    /// Counts one more repair of the final output.
    pub fn count_repair(&mut self)
        requires
            old(self)@.output_repairs < u32::MAX,
        ensures
            final(self)@ == (CoreModel {
                output_repairs: (old(self)@.output_repairs + 1) as u32,
                ..old(self)@
            }),
    {
        self.output_repairs += 1;
    }

    /// Marks the run as ended for good.
    pub fn stop(&mut self)
        ensures
            final(self)@ == old(self)@.with_record(
                RecordModel { terminal: true, ..old(self)@.record },
            ),
    {
        self.record.terminal = true;
    }

    /// Proposals so far, and how many of them are decided.
    pub fn counters(&self) -> (result: (u32, u32))
        requires
            self@.record.ledger.broker.consistent(),
        ensures
            result.0 == self@.record.ledger.broker.tool_calls,
            result.1 == self@.record.ledger.broker.classified(),
    {
        (self.record.ledger.broker.tool_calls, self.record.ledger.broker.classified_tool_calls())
    }

    /// Admits a proposal of direct execution.
    pub fn admit_direct(&mut self, broker: &ToolBroker, request: &RunRequest, call: &ToolCall) -> (
    outcome: Result<Admission, HarnessError>)
        requires
            old(self)@.record.ledger.broker.consistent(),
        ensures
            ({
                let (ledger, answer) = admission(
                    old(self)@.record.ledger,
                    broker.tools@,
                    broker.scope,
                    request,
                    call@,
                    ToolCaller::Direct,
                    false,
                    false,
                    None,
                );
                final(self)@ == old(self)@.with_ledger(ledger) && admission_view(outcome) == answer
            }),
            final(self)@.record.ledger.broker.consistent(),
            undecided(outcome) ==> final(self)@.record.ledger.broker.classified()
                < final(self)@.record.ledger.broker.tool_calls,
    {
        broker.prepare(
            request,
            &mut self.record.ledger,
            call.duplicate(),
            ToolCaller::Direct,
            false,
            false,
            None,
        )
    }

    /// Admits a call of a program.
    pub fn admit_programmatic(
        &mut self,
        broker: &ToolBroker,
        request: &RunRequest,
        call: &ToolCall,
        context: ToolCallContext,
    ) -> (outcome: Result<Admission, HarnessError>)
        requires
            old(self)@.record.ledger.broker.consistent(),
        ensures
            ({
                let (ledger, answer) = admission(
                    old(self)@.record.ledger,
                    broker.tools@,
                    broker.scope,
                    request,
                    call@,
                    ToolCaller::Programmatic,
                    false,
                    false,
                    Some(context@),
                );
                final(self)@ == old(self)@.with_ledger(ledger) && admission_view(outcome) == answer
            }),
            final(self)@.record.ledger.broker.consistent(),
    {
        broker.prepare(
            request,
            &mut self.record.ledger,
            call.duplicate(),
            ToolCaller::Programmatic,
            false,
            false,
            Some(context),
        )
    }

    /// The identifiers of the run and its trace.
    pub fn identity(&self) -> (result: (String, String))
        ensures
            result.0@ == self@.record.ledger.result.id,
            result.1@ == self@.record.ledger.result.trace_id,
    {
        (self.record.ledger.result.id.clone(), self.record.ledger.result.trace_id.clone())
    }

    /// Records that a call of a program ended without a result that the program can use.
    pub fn spoil_execution(&mut self, prepared: &PreparedCall, execution: &BrokerExecution)
        requires
            old(self)@.record.ledger.broker.consistent(),
            old(self)@.record.ledger.broker.resolved()
                < old(self)@.record.ledger.broker.tool_issued,
        ensures
            final(self)@ == old(self)@.with_ledger(
                execution_spoiled(old(self)@.record.ledger, prepared@, execution@),
            ),
            final(self)@.record.ledger.broker.consistent(),
    {
        record_execution(&mut self.record.ledger, prepared, execution);
        mark_uncertain(&mut self.record.ledger, prepared);
        self.record.ledger.report_completion(&prepared.call, false);
    }

    /// Records that a call of a program succeeded.
    pub fn keep_execution(&mut self, prepared: &PreparedCall, execution: &BrokerExecution)
        requires
            old(self)@.record.ledger.broker.consistent(),
            old(self)@.record.ledger.broker.resolved()
                < old(self)@.record.ledger.broker.tool_issued,
        ensures
            final(self)@ == old(self)@.with_ledger(
                execution_kept(old(self)@.record.ledger, prepared@, execution@),
            ),
            final(self)@.record.ledger.broker.consistent(),
    {
        self.record.ledger.report_completion(&prepared.call, true);
        record_execution(&mut self.record.ledger, prepared, execution);
    }

    /// Counts a proposal whose preparation failed, unless it was decided already.
    pub fn settle_preparation(
        &mut self,
        attempts_before: u32,
        classified_before: u32,
        error: &HarnessError,
    )
        requires
            old(self)@.record.ledger.broker.consistent(),
            classified_before <= attempts_before,
        ensures
            final(self)@ == old(self)@.with_ledger(
                preparation_failed(
                    old(self)@.record.ledger,
                    attempts_before,
                    classified_before as int,
                    error@,
                ),
            ),
            final(self)@.record.ledger.broker.consistent(),
    {
        settle_failed_preparation(
            &mut self.record.ledger,
            attempts_before,
            classified_before,
            error,
        );
    }

    /// Counts a proposal that an error ended before it was issued.
    pub fn abort_proposal(&mut self, error: &HarnessError)
        requires
            old(self)@.record.ledger.broker.consistent(),
            old(self)@.record.ledger.broker.classified()
                < old(self)@.record.ledger.broker.tool_calls,
        ensures
            final(self)@ == old(self)@.with_ledger(
                old(self)@.record.ledger.with_broker(
                    old(self)@.record.ledger.broker.ended_before_dispatch(error@),
                ),
            ),
            final(self)@.record.ledger.broker.consistent(),
    {
        self.record.ledger.broker.record_pre_dispatch_error(error);
    }

    /// Applies a policy decision to an admitted call.
    pub fn decide(&mut self, prepared: &PreparedCall, decision: &PolicyDecision) -> (authorization:
        Authorization)
        requires
            old(self)@.record.ledger.broker.consistent(),
            old(self)@.record.ledger.broker.classified()
                < old(self)@.record.ledger.broker.tool_calls,
        ensures
            ({
                let (ledger, answer) = policy_outcome(
                    old(self)@.record.ledger,
                    prepared@.call,
                    decision@,
                    prepared@.approval_barrier,
                );
                final(self)@ == old(self)@.with_ledger(ledger) && authorization@ == answer
            }),
            final(self)@.record.ledger.broker.consistent(),
            !(authorization is Rejected) ==> final(self)@.record.ledger.broker
                == old(self)@.record.ledger.broker,
    {
        apply_policy(
            &mut self.record.ledger,
            &prepared.call,
            decision,
            prepared.approval_barrier,
        )
    }

    /// Applies the answer to a request for approval.
    pub fn approve(&mut self, prepared: &PreparedCall, granted: bool) -> (authorization:
        Authorization)
        requires
            old(self)@.record.ledger.broker.consistent(),
            old(self)@.record.ledger.broker.classified()
                < old(self)@.record.ledger.broker.tool_calls,
        ensures
            ({
                let (ledger, answer) = approval_outcome(
                    old(self)@.record.ledger,
                    prepared@.call,
                    granted,
                );
                final(self)@ == old(self)@.with_ledger(ledger) && authorization@ == answer
            }),
            final(self)@.record.ledger.broker.consistent(),
            !(authorization is Rejected) ==> final(self)@.record.ledger.broker
                == old(self)@.record.ledger.broker,
    {
        apply_approval(&mut self.record.ledger, &prepared.call, granted)
    }

    /// Hands an authorized call to its tool.
    pub fn dispatch(&mut self, prepared: &PreparedCall)
        requires
            old(self)@.record.ledger.broker.consistent(),
            old(self)@.record.ledger.broker.classified()
                < old(self)@.record.ledger.broker.tool_calls,
        ensures
            final(self)@ == old(self)@.with_ledger(
                old(self)@.record.ledger.with_broker(
                    dispatched(old(self)@.record.ledger.broker, prepared@),
                ),
            ),
            final(self)@.record.ledger.broker.consistent(),
            final(self)@.record.ledger.broker.resolved()
                < final(self)@.record.ledger.broker.tool_issued,
    {
        mark_dispatched(&mut self.record.ledger, prepared);
    }

    /// Records that a call ended without a result.
    pub fn lose_execution(&mut self, prepared: &PreparedCall, error: &HarnessError)
        requires
            old(self)@.record.ledger.broker.consistent(),
            old(self)@.record.ledger.broker.resolved()
                < old(self)@.record.ledger.broker.tool_issued,
        ensures
            final(self)@ == old(self)@.with_ledger(
                execution_lost(old(self)@.record.ledger, prepared@, error@),
            ),
            final(self)@.record.ledger.broker.consistent(),
    {
        note_lost_execution(&mut self.record.ledger, prepared, error);
    }

    /// Records what a call came to.
    pub fn record_outcome(&mut self, prepared: &PreparedCall, execution: &BrokerExecution)
        requires
            old(self)@.record.ledger.broker.consistent(),
            old(self)@.record.ledger.broker.resolved()
                < old(self)@.record.ledger.broker.tool_issued,
        ensures
            final(self)@ == old(self)@.with_ledger(
                outcome_recorded(old(self)@.record.ledger, prepared@, execution@),
            ),
            final(self)@.record.ledger.broker.consistent(),
    {
        self.record.ledger.report_completion(&prepared.call, execution.result.ok);
        record_execution(&mut self.record.ledger, prepared, execution);
        if let Some(error) = &execution.validation_error {
            self.record.ledger.push_error(
                RunError::new(error.code.as_str(), error.message.as_str()),
            );
        } else if !execution.result.ok {
            self.record.ledger.push_error(tool_failure_error(&execution.result));
        }
    }

    /// The parts of the run that its end is made of.
    pub fn into_parts(self) -> (result: (RunRecord, CallCounts, RunStrategy))
        ensures
            result.0@ == self@.record,
            result.1 == self@.calls,
            result.2 == self@.selected,
    {
        (self.record, self.calls, self.selected)
    }

    /// Records one event.
    pub fn emit(&mut self, event: RunEvent)
        ensures
            final(self)@ == old(self)@.emit(event@),
    {
        self.record.emit(event);
    }

    /// Ends the run with an error, unless it was ended before.
    pub fn terminate(&mut self, error: &HarnessError)
        ensures
            final(self)@ == old(self)@.terminated(error@),
    {
        self.record.terminate(error);
    }

    /// Records one error.
    pub fn push_error(&mut self, error: RunError)
        ensures
            final(self)@ == old(self)@.with_error(error@),
    {
        self.record.ledger.push_error(error);
    }

    /// Reports the state of a planning phase.
    pub fn report(&mut self, phase: PlanPhase, attempt: u32, outcome: PlanLifecycleOutcome)
        ensures
            final(self)@ == old(self)@.reported(phase, attempt, outcome),
    {
        self.emit(RunEvent::PlanLifecycle { phase, attempt, outcome });
    }

    /// Whether a provider call can be spent on something else than an answer.
    pub fn can_spend_optional_model_call(&self, limits: &AgentLimits) -> (result: bool)
        ensures
            result == self@.can_spend(*limits),
    {
        limits.max_model_calls.saturating_sub(self.calls.model_calls) > 1
    }

    /// Whether a provider call is left.
    pub fn has_model_call_capacity(&self, limits: &AgentLimits) -> (result: bool)
        ensures
            result == self@.has_capacity(*limits),
    {
        self.calls.model_calls < limits.max_model_calls
    }

    /// Falls back from planning to direct execution.
    pub fn select_direct_fallback(
        &mut self,
        requested: RunStrategy,
        reason: StrategyFallbackReason,
    )
        ensures
            final(self)@ == old(self)@.fallen_back(requested, reason),
    {
        self.emit(
            RunEvent::StrategyFallback {
                from: RunStrategy::DeclarativePlan,
                to: RunStrategy::Direct,
                reason,
            },
        );
        self.emit(
            RunEvent::StrategySelected {
                requested,
                selected: RunStrategy::Direct,
                reason: StrategySelectionReason::PlannerSelectedDirect,
            },
        );
        self.selected = RunStrategy::Direct;
    }

    /// Begins one provider call.
    pub fn start_call(
        &mut self,
        limits: &AgentLimits,
        run_deadline: Option<u64>,
        now_ms: u64,
        phase: ModelCallPhase,
    ) -> (start: CallStart)
        requires
            old(self)@.calls.balanced(),
        ensures
            (final(self)@, start@) == old(self)@.call_started(*limits, run_deadline, now_ms, phase),
            final(self)@.calls.balanced(),
            final(self)@.record.ledger.broker == old(self)@.record.ledger.broker,
    {
        if !self.has_model_call_capacity(limits) {
            self.record.ledger.result.stop_at_model_call_limit();
            self.record.terminal = true;
            return CallStart::LimitReached;
        }
        self.calls.count(phase);
        let model = self.record.ledger.result.model.clone();
        self.emit(RunEvent::ModelRequested { call_number: self.calls.model_calls, model });
        match provider_deadline(now_ms, run_deadline, limits.max_model_call_duration_ms) {
            Err(error) => CallStart::Failed(error),
            Ok(deadline) => CallStart::Call { number: self.calls.model_calls, deadline },
        }
    }

    /// Begins one provider call for a program.
    pub fn start_program_call(
        &mut self,
        limits: &AgentLimits,
        deadline: Option<u64>,
        now_ms: u64,
        phase: ModelCallPhase,
    ) -> (result: Result<Option<u64>, HarnessError>)
        requires
            old(self)@.calls.balanced(),
        ensures
            (final(self)@, deadline_view(result)) == old(self)@.program_call_started(
                *limits,
                deadline,
                now_ms,
                phase,
            ),
            final(self)@.calls.balanced(),
            final(self)@.record.ledger.broker == old(self)@.record.ledger.broker,
    {
        if !self.has_model_call_capacity(limits) {
            return Err(HarnessError::ResourceLimit("model call limit reached".to_owned()));
        }
        self.calls.count(phase);
        let model = self.record.ledger.result.model.clone();
        self.emit(RunEvent::ModelRequested { call_number: self.calls.model_calls, model });
        provider_deadline(now_ms, deadline, limits.max_model_call_duration_ms)
    }

    /// Ends one provider call for a program.
    pub fn finish_program_call(
        &mut self,
        limits: &AgentLimits,
        outcome: Result<ModelResponse, HarnessError>,
    ) -> (result: Result<ModelResponse, HarnessError>)
        ensures
            (final(self)@, outcome_view(result)) == old(self)@.program_call_finished(
                *limits,
                outcome_view(outcome),
            ),
            final(self)@.calls == old(self)@.calls,
            final(self)@.record.ledger.broker == old(self)@.record.ledger.broker,
    {
        match outcome {
            Err(error) => Err(error),
            Ok(response) => {
                if let Err(error) = validate_model_response(&response, limits) {
                    return Err(error);
                }
                if response.tool_calls.len() > 0 {
                    return Err(
                        HarnessError::InvalidOutput(
                            "programmatic model phases cannot return native tool calls".to_owned(),
                        ),
                    );
                }
                self.emit(RunEvent::ModelResponded { call_number: self.calls.model_calls });
                Ok(response)
            },
        }
    }

    /// Provider calls so far.
    pub fn model_calls(&self) -> (result: u32)
        ensures
            result == self@.calls.model_calls,
    {
        self.calls.model_calls
    }

    /// Ends the run with an error.
    pub fn end_with(&mut self, error: &HarnessError)
        ensures
            final(self)@ == old(self)@.with_ledger(old(self)@.record.ledger.ended_by(error@)),
    {
        self.record.ledger.apply_terminal_error(error);
    }

    /// The counters of tool calls.
    pub fn broker_counts(&self) -> (result: (u32, u32, u32, u32))
        ensures
            result.0 == self@.record.ledger.broker.tool_issued,
            result.1 == self@.record.ledger.broker.tool_failed,
            result.2 == self@.record.ledger.broker.tool_cancelled,
            result.3 == self@.record.ledger.broker.tool_rejected,
    {
        (
            self.record.ledger.broker.tool_issued,
            self.record.ledger.broker.tool_failed,
            self.record.ledger.broker.tool_cancelled,
            self.record.ledger.broker.tool_rejected,
        )
    }

    /// A run that goes on after another strategy made provider calls.
    pub fn resume(
        record: RunRecord,
        messages: Vec<Message>,
        calls: CallCounts,
        selected: RunStrategy,
    ) -> (result: StrategyCore)
        ensures
            result@ == (CoreModel {
                record: record@,
                messages: messages_view(messages@),
                calls,
                output_repairs: 0,
                selected,
                plan_attempt: 0,
            }),
    {
        StrategyCore { record, messages, calls, output_repairs: 0, selected, plan_attempt: 0 }
    }

    /// Ends one provider call.
    pub fn finish_call(
        &mut self,
        limits: &AgentLimits,
        outcome: Result<ModelResponse, HarnessError>,
        retries: u32,
        reserve: bool,
    ) -> (end: CallEnd)
        ensures
            (final(self)@, end@) == old(self)@.call_finished(
                *limits,
                outcome_view(outcome),
                retries,
                reserve,
            ),
            final(self)@.calls == old(self)@.calls,
            final(self)@.record.ledger.broker == old(self)@.record.ledger.broker,
            end@ is Retry ==> retries < limits.max_provider_retries,
    {
        match outcome {
            Ok(response) => {
                if let Err(error) = validate_model_response(&response, limits) {
                    return CallEnd::Failed(error);
                }
                self.emit(RunEvent::ModelResponded { call_number: self.calls.model_calls });
                CallEnd::Response(response)
            },
            Err(HarnessError::RetryableProvider(reason)) => {
                if retries >= limits.max_provider_retries {
                    return CallEnd::Failed(HarnessError::RetryableProvider(reason));
                }
                if reserve && !self.can_spend_optional_model_call(limits) {
                    return CallEnd::Failed(
                        HarnessError::RetryableProvider(
                            "provider retry skipped to preserve final synthesis capacity".to_owned(),
                        ),
                    );
                }
                self.emit(
                    RunEvent::ModelRetrying {
                        next_call_number: self.calls.model_calls.saturating_add(1),
                        reason,
                    },
                );
                CallEnd::Retry
            },
            Err(error) => CallEnd::Failed(error),
        }
    }
}

/// Every provider call is counted once, by what it was made for, and never past the limit.
pub proof fn calls_stay_counted(
    core: CoreModel,
    limits: AgentLimits,
    run_deadline: Option<u64>,
    now_ms: u64,
    phase: ModelCallPhase,
)
    requires
        core.calls.balanced(),
        core.calls.model_calls <= limits.max_model_calls,
    ensures
        ({
            let (next, start) = core.call_started(limits, run_deadline, now_ms, phase);
            &&& next.calls.balanced()
            &&& next.calls.model_calls <= limits.max_model_calls
            &&& start is LimitReached <==> core.calls.model_calls == limits.max_model_calls
            &&& !(start is LimitReached) ==> next.calls.model_calls == core.calls.model_calls + 1
        }),
{
}

} // verus!
