//! The execution of one batch of a program's tool calls.

use crate::admission::{
    admission_counts, admission_view, dispatched, Admission, AdmissionModel, Authorization,
    PreparedCall,
};
use crate::error::HarnessError;
use crate::event::RunEvent;
use crate::json::render_json;
use crate::ledger::LedgerModel;
use crate::policy::PolicyDecision;
use crate::program_batch::{
    all_answered, batch_admitted, batch_authorized, batch_begun, batch_dispatched, batch_fault,
    batch_prepared, batch_returned, batch_settled, batch_started, batch_step, call_failed,
    call_settled, error_option, fan_out_fault, fan_out_limit, least, occurrence_id,
    outcomes_recorded, prepared_view, responses_view, result_taken, BatchAction, BatchCall,
    BatchContext, BatchEvent, BatchModel, BatchResponse, BatchStage, BatchStageModel,
};
use crate::programmatic::{MAX_FANOUT_CONCURRENCY, ProgrammaticTranscript};
use crate::registry::find_tool;
use crate::request::check_stopped;
use crate::strategy_core::StrategyCore;
use crate::text::{contains_text, decimal, join2, join3};
use crate::tool::{ToolCall, ToolCallContext, ToolCaller, ToolResult};
use vstd::prelude::*;

verus! {

/// One batch of a program's tool calls.
pub struct BatchRun {
    core: StrategyCore,
    transcript: ProgrammaticTranscript,
    calls: Vec<BatchCall>,
    together: bool,
    nonce: String,
    prepared: Vec<(usize, PreparedCall)>,
    responses: Vec<Option<BatchResponse>>,
    outcomes: Vec<Option<bool>>,
    next: usize,
    dispatched: bool,
    first_error: Option<HarnessError>,
    stage: BatchStage,
}

impl View for BatchRun {
    type V = BatchModel;

    closed spec fn view(&self) -> BatchModel {
        BatchModel {
            core: self.core@,
            transcript: self.transcript,
            calls: self.calls@,
            together: self.together,
            nonce: self.nonce@,
            prepared: prepared_view(self.prepared@),
            responses: responses_view(self.responses@),
            outcomes: self.outcomes@,
            next: self.next,
            dispatched: self.dispatched,
            first_error: error_option(self.first_error),
            stage: self.stage@,
        }
    }
}

/// Whether a fan-out can be admitted.
fn check_fan_out(context: &BatchContext, calls: &Vec<BatchCall>) -> (result: Option<HarnessError>)
    ensures
        error_option(result) == fan_out_fault(
            context.broker.tools@,
            context.request,
            calls@,
            0,
        ),
{
    let mut i: usize = 0;
    while i < calls.len()
        invariant
            i <= calls@.len(),
            fan_out_fault(context.broker.tools@, context.request, calls@, 0) == fan_out_fault(
                context.broker.tools@,
                context.request,
                calls@,
                i as nat,
            ),
        decreases calls@.len() - i,
    {
        let id = calls[i].tool_id.as_str();
        match find_tool(context.broker.tools, id) {
            None => {
                return Some(
                    HarnessError::InvalidTool(
                        "programmatic fan-out references an unavailable tool".to_owned(),
                    ),
                );
            },
            Some(tool) => {
                if !contains_text(&context.request.agent.tool_allowlist, id)
                    || !tool.definition.allows_caller(ToolCaller::Programmatic)
                    || !tool.definition.read_only || !tool.definition.parallel_safe {
                    return Some(
                        HarnessError::InvalidTool(
                            "programmatic fan-out requires allowed read-only, parallel-safe tools".to_owned(),
                        ),
                    );
                }
            },
        }
        i += 1;
    }
    None
}

fn lesser(left: usize, right: usize) -> (result: usize)
    ensures
        result == least(left, right),
{
    if left <= right {
        left
    } else {
        right
    }
}

fn find_fan_out_limit(context: &BatchContext) -> (result: Option<usize>)
    ensures
        result == fan_out_limit(context),
{
    match context.capabilities.limits.max_parallel_tool_calls {
        Some(limit) => if context.capabilities.supports_parallel_tool_calls && limit > 0 {
            Some(
                lesser(
                    lesser(
                        lesser(context.host_fanout, context.request_fanout as usize),
                        limit as usize,
                    ),
                    MAX_FANOUT_CONCURRENCY,
                ),
            )
        } else {
            None
        },
        None => None,
    }
}

/// Why a batch cannot begin.
fn check_batch(
    context: &BatchContext,
    calls: &Vec<BatchCall>,
    fan_out: bool,
    transcript: &ProgrammaticTranscript,
) -> (result: Option<HarnessError>)
    ensures
        error_option(result) == batch_fault(context, calls@, fan_out, *transcript),
{
    if fan_out {
        if let Some(error) = check_fan_out(context, calls) {
            return Some(error);
        }
        match find_fan_out_limit(context) {
            None => {
                return Some(
                    HarnessError::UnsupportedCapability(
                        "programmatic fan-out requires a nonzero provider parallel-call limit".to_owned(),
                    ),
                );
            },
            Some(limit) => {
                if calls.len() > limit {
                    return Some(
                        HarnessError::ResourceLimit(
                            "programmatic fan-out exceeds the effective concurrency limit".to_owned(),
                        ),
                    );
                }
            },
        }
    }
    match transcript.reserve_batch(calls.len()) {
        Err(error) => Some(error),
        Ok(_) => None,
    }
}

fn make_occurrence_id(call: &BatchCall, nonce: &str) -> (result: String)
    ensures
        result@ == occurrence_id(*call, nonce@),
{
    let attempt = decimal(call.program_attempt as u64);
    let site = decimal(call.call_site as u64);
    let ordinal = decimal(call.dynamic_ordinal);
    let one = join3("programmatic-", attempt.as_str(), "-");
    let two = join3(one.as_str(), nonce, "-");
    let three = join3(two.as_str(), site.as_str(), "-");
    join2(three.as_str(), ordinal.as_str())
}

proof fn outcomes_stay_lost(
    transcript: ProgrammaticTranscript,
    outcomes: Seq<Option<bool>>,
    count: nat,
    longer: nat,
)
    requires
        count <= longer <= outcomes.len(),
        outcomes_recorded(transcript, outcomes, count).1 is Some,
    ensures
        outcomes_recorded(transcript, outcomes, longer) == outcomes_recorded(
            transcript,
            outcomes,
            count,
        ),
    decreases longer - count,
{
    if count < longer {
        outcomes_stay_lost(transcript, outcomes, count, (longer - 1) as nat);
    }
}

impl BatchRun {
    fn over(&mut self, error: Option<HarnessError>) -> (action: BatchAction)
        ensures
            (final(self)@, action) == old(self)@.over(error_option(error)),
    {
        self.stage = BatchStage::Done(error);
        BatchAction::Finish
    }

    fn answer(&mut self, index: usize, response: BatchResponse, ok: bool)
        requires
            index < old(self)@.responses.len(),
            index < old(self)@.outcomes.len(),
        ensures
            final(self)@ == old(self)@.answered(index as int, Some(response@), ok),
    {
        let ghost before = self@.responses;
        self.responses.set(index, Some(response));
        self.outcomes.set(index, Some(ok));
        assert(responses_view(self.responses@) =~= before.update(
            index as int,
            Some(response@),
        ));
    }

    /// Counts the calls; the error of a count that cannot be kept.
    fn count_outcomes(&mut self) -> (fault: Option<HarnessError>)
        ensures
            ({
                let (transcript, told) = outcomes_recorded(
                    old(self)@.transcript,
                    old(self)@.outcomes,
                    old(self)@.outcomes.len(),
                );
                final(self)@ == (BatchModel { transcript, ..old(self)@ }) && error_option(fault)
                    == told
            }),
    {
        let ghost first = self@;
        let mut i: usize = 0;
        while i < self.outcomes.len()
            invariant
                i <= self@.outcomes.len(),
                first == old(self)@,
                self@ == (BatchModel { transcript: self@.transcript, ..first }),
                outcomes_recorded(first.transcript, first.outcomes, i as nat) == (
                    self@.transcript,
                    None::<HarnessError<Seq<char>>>,
                ),
            decreases self@.outcomes.len() - i,
        {
            if let Some(ok) = self.outcomes[i] {
                if let Err(error) = self.transcript.record(ok) {
                    proof {
                        outcomes_stay_lost(
                            first.transcript,
                            first.outcomes,
                            (i + 1) as nat,
                            first.outcomes.len(),
                        );
                    }
                    return Some(error);
                }
            }
            i += 1;
        }
        None
    }

    fn is_answered(&self) -> (result: bool)
        ensures
            result == all_answered(self@.responses),
    {
        let mut i: usize = 0;
        while i < self.responses.len()
            invariant
                i <= self.responses@.len(),
                forall|j: int| 0 <= j < i ==> (#[trigger] self@.responses[j]) is Some,
            decreases self.responses@.len() - i,
        {
            if self.responses[i].is_none() {
                assert(self@.responses[i as int] is None);
                return false;
            }
            i += 1;
        }
        true
    }

    fn settle(&mut self) -> (action: BatchAction)
        requires
            old(self)@.core.record.ledger.broker.consistent(),
            old(self)@.core.record.ledger.broker.settled(),
            old(self)@.responses.len() == old(self)@.calls.len(),
            old(self)@.outcomes.len() == old(self)@.calls.len(),
            forall|k: int|
                0 <= k < old(self)@.prepared.len() ==> (#[trigger] old(self)@.prepared[k]).0
                    < old(self)@.calls.len(),
        ensures
            (final(self)@, action) == batch_settled(old(self)@),
            final(self)@.consistent(),
    {
        reveal(batch_settled);
        if let Some(error) = self.count_outcomes() {
            return self.over(Some(error));
        }
        if let Some(error) = &self.first_error {
            let copy = error.duplicate();
            return self.over(Some(copy));
        }
        if !self.is_answered() {
            return self.over(
                Some(
                    HarnessError::Tool("programmatic batch response was incomplete".to_owned()),
                ),
            );
        }
        self.over(None)
    }

    fn dispatch_all(&mut self)
        requires
            old(self)@.core.record.ledger.broker.consistent(),
            old(self)@.core.record.ledger.broker.settled(),
            old(self)@.core.record.ledger.broker.classified() + old(self)@.prepared.len()
                <= old(self)@.core.record.ledger.broker.tool_calls,
        ensures
            final(self)@ == old(self)@.with_ledger(
                batch_started(
                    old(self)@.core.record.ledger,
                    old(self)@.prepared,
                    old(self)@.prepared.len(),
                ),
            ),
            final(self)@.core.record.ledger.broker.consistent(),
            final(self)@.core.record.ledger.broker.resolved() + final(self)@.prepared.len()
                == final(self)@.core.record.ledger.broker.tool_issued,
    {
        let ghost first = self@;
        let mut i: usize = 0;
        while i < self.prepared.len()
            invariant
                i <= self@.prepared.len(),
                first == old(self)@,
                self@ == first.with_ledger(
                    batch_started(first.core.record.ledger, first.prepared, i as nat),
                ),
                self@.core.record.ledger.broker.consistent(),
                self@.core.record.ledger.broker.classified() + (self@.prepared.len() - i)
                    <= self@.core.record.ledger.broker.tool_calls,
                self@.core.record.ledger.broker.resolved() + i
                    == self@.core.record.ledger.broker.tool_issued,
            decreases self@.prepared.len() - i,
        {
            assert(first.prepared[i as int].1 == self.prepared@[i as int].1@);
            self.core.dispatch(&self.prepared[i].1);
            i += 1;
        }
    }

    fn dispatch(&mut self) -> (action: BatchAction)
        requires
            old(self)@.core.record.ledger.broker.consistent(),
            old(self)@.core.record.ledger.broker.settled(),
            old(self)@.core.record.ledger.broker.classified() + old(self)@.prepared.len()
                <= old(self)@.core.record.ledger.broker.tool_calls,
            old(self)@.responses.len() == old(self)@.calls.len(),
            old(self)@.outcomes.len() == old(self)@.calls.len(),
            forall|k: int|
                0 <= k < old(self)@.prepared.len() ==> (#[trigger] old(self)@.prepared[k]).0
                    < old(self)@.calls.len(),
        ensures
            (final(self)@, action) == batch_dispatched(old(self)@),
            final(self)@.consistent(),
    {
        reveal(batch_dispatched);
        if self.prepared.len() == 0 {
            return self.settle();
        }
        self.dispatch_all();
        self.dispatched = true;
        self.stage = BatchStage::Results(0);
        BatchAction::Execute
    }

    fn settle_call(&mut self) -> (action: BatchAction)
        requires
            old(self)@.next < old(self)@.calls.len(),
            old(self)@.core.record.ledger.broker.consistent(),
            old(self)@.core.record.ledger.broker.settled(),
            old(self)@.core.record.ledger.broker.classified() + old(self)@.prepared.len()
                <= old(self)@.core.record.ledger.broker.tool_calls,
            old(self)@.responses.len() == old(self)@.calls.len(),
            old(self)@.outcomes.len() == old(self)@.calls.len(),
            forall|k: int|
                0 <= k < old(self)@.prepared.len() ==> (#[trigger] old(self)@.prepared[k]).0
                    < old(self)@.calls.len(),
        ensures
            (final(self)@, action) == call_settled(old(self)@),
            final(self)@.consistent(),
    {
        reveal(call_settled);
        let count: usize = self.calls.len();
        self.next = self.next + 1;
        if self.next < count {
            self.stage = BatchStage::Prepare;
            return BatchAction::Check;
        }
        self.dispatch()
    }

    fn handle_admission(
        &mut self,
        outcome: Result<Admission, HarnessError>,
        Ghost(before): Ghost<BatchModel>,
    ) -> (action: BatchAction)
        requires
            old(self)@.next < old(self)@.calls.len(),
            old(self)@.responses.len() == old(self)@.calls.len(),
            old(self)@.outcomes.len() == old(self)@.calls.len(),
            forall|k: int|
                0 <= k < old(self)@.prepared.len() ==> (#[trigger] old(self)@.prepared[k]).0
                    < old(self)@.calls.len(),
            before.prepared == old(self)@.prepared,
            before.core.record.ledger.broker.classified() + before.prepared.len()
                <= before.core.record.ledger.broker.tool_calls,
            old(self)@.core.record.ledger.broker.consistent(),
            old(self)@.core.record.ledger.broker.settled(),
            match admission_view(outcome) {
                Ok(AdmissionModel::Stop) => true,
                Ok(AdmissionModel::Rejected(_)) => old(self)@.core.record.ledger.broker.tool_calls
                    == before.core.record.ledger.broker.tool_calls + 1 && old(self)@.core.record.ledger.broker.classified()
                    == before.core.record.ledger.broker.classified() + 1,
                Ok(AdmissionModel::Reused(_)) => old(self)@.core.record.ledger.broker.tool_calls
                    == before.core.record.ledger.broker.tool_calls + 1 && old(self)@.core.record.ledger.broker.classified()
                    == before.core.record.ledger.broker.classified() + 1,
                _ => old(self)@.core.record.ledger.broker.tool_calls
                    == before.core.record.ledger.broker.tool_calls + 1 && old(self)@.core.record.ledger.broker.classified()
                    == before.core.record.ledger.broker.classified(),
            },
        ensures
            (final(self)@, action) == batch_admitted(old(self)@, admission_view(outcome)),
            final(self)@.consistent(),
    {
        reveal(batch_admitted);
        let index = self.next;
        match outcome {
            Err(error) => self.over(Some(error)),
            Ok(Admission::Stop) => self.over(
                Some(
                    HarnessError::ResourceLimit(
                        "programmatic batch exhausted the tool call budget before dispatch".to_owned(),
                    ),
                ),
            ),
            Ok(Admission::Rejected(_)) => {
                self.answer(index, BatchResponse::Failure, false);
                self.settle_call()
            },
            Ok(Admission::Reused(result)) => {
                let ok = result.ok;
                if ok {
                    self.answer(index, BatchResponse::Success(result), true);
                } else {
                    self.answer(index, BatchResponse::Failure, false);
                }
                self.settle_call()
            },
            Ok(Admission::Authorize(prepared)) => {
                self.stage = BatchStage::AwaitPolicy(prepared);
                BatchAction::AskPolicy
            },
            Ok(Admission::Deferred(prepared)) => {
                self.stage = BatchStage::AwaitPolicy(prepared);
                BatchAction::AskPolicy
            },
        }
    }

    fn prepare_call(&mut self, context: &BatchContext, cancelled: bool, now: u64) -> (action:
        BatchAction)
        requires
            old(self)@.consistent(),
            old(self)@.stage is Prepare,
        ensures
            (final(self)@, action) == batch_prepared(context, old(self)@, cancelled, now),
            final(self)@.consistent(),
    {
        reveal(batch_prepared);
        let ghost first = self@;
        if let Err(error) = check_stopped(
            cancelled,
            now,
            context.deadline,
            "programmatic dispatch deadline reached",
        ) {
            return self.over(Some(error));
        }
        let index = self.next;
        let id = make_occurrence_id(&self.calls[index], self.nonce.as_str());
        let text = render_json(&self.calls[index].arguments);
        let call = ToolCall::new(
            id.as_str(),
            self.calls[index].tool_id.as_str(),
            text.as_str(),
        );
        let (run_id, trace_id) = self.core.identity();
        let origin = ToolCallContext::new(
            run_id.as_str(),
            trace_id.as_str(),
            id.as_str(),
            self.calls[index].tool_id.as_str(),
        ).with_programmatic_occurrence(
            self.calls[index].program_attempt,
            self.calls[index].call_site,
            self.calls[index].dynamic_ordinal,
            id.as_str(),
        );
        proof {
            admission_counts(
                first.core.record.ledger,
                context.broker.tools@,
                context.broker.scope,
                context.request,
                call@,
                ToolCaller::Programmatic,
                false,
                false,
                Some(origin@),
            );
        }
        let outcome = self.core.admit_programmatic(
            &context.broker,
            context.request,
            &call,
            origin,
        );
        self.handle_admission(outcome, Ghost(first))
    }

    fn settle_authorization(&mut self, prepared: PreparedCall, authorization: Authorization) -> (
    action: BatchAction)
        requires
            old(self)@.next < old(self)@.calls.len(),
            old(self)@.core.record.ledger.broker.consistent(),
            old(self)@.core.record.ledger.broker.settled(),
            old(self)@.responses.len() == old(self)@.calls.len(),
            old(self)@.outcomes.len() == old(self)@.calls.len(),
            forall|k: int|
                0 <= k < old(self)@.prepared.len() ==> (#[trigger] old(self)@.prepared[k]).0
                    < old(self)@.calls.len(),
            old(self)@.core.record.ledger.broker.classified() + old(self)@.prepared.len() + (
            if authorization is Rejected {
                0int
            } else {
                1int
            }) <= old(self)@.core.record.ledger.broker.tool_calls,
        ensures
            (final(self)@, action) == batch_authorized(old(self)@, prepared@, authorization@),
            final(self)@.consistent(),
    {
        reveal(batch_authorized);
        match authorization {
            Authorization::Authorized => {
                let ghost before = self@.prepared;
                let index = self.next;
                self.prepared.push((index, prepared));
                assert(self@.prepared =~= before.push((index, prepared@)));
                self.settle_call()
            },
            Authorization::AskApproval => {
                self.stage = BatchStage::AwaitApproval(prepared);
                BatchAction::AskApproval
            },
            Authorization::Rejected(_) => {
                let index = self.next;
                self.answer(index, BatchResponse::Failure, false);
                self.settle_call()
            },
        }
    }

    fn fail_call(&mut self, index: usize, error: HarnessError)
        requires
            index < old(self)@.outcomes.len(),
        ensures
            final(self)@ == call_failed(old(self)@, index as int, error@),
    {
        if self.first_error.is_none() {
            self.first_error = Some(error);
        }
        self.outcomes.set(index, Some(false));
    }

    fn note_result(
        &mut self,
        context: &BatchContext,
        position: usize,
        outcome: Result<ToolResult, HarnessError>,
        fault: Option<HarnessError>,
    )
        requires
            position < old(self)@.prepared.len(),
            old(self)@.core.record.ledger.broker.consistent(),
            old(self)@.core.record.ledger.broker.resolved()
                < old(self)@.core.record.ledger.broker.tool_issued,
            old(self)@.responses.len() == old(self)@.calls.len(),
            old(self)@.outcomes.len() == old(self)@.calls.len(),
            forall|k: int|
                0 <= k < old(self)@.prepared.len() ==> (#[trigger] old(self)@.prepared[k]).0
                    < old(self)@.calls.len(),
        ensures
            final(self)@ == batch_returned(
                context,
                old(self)@,
                position,
                match outcome {
                    Ok(result) => Ok(result@),
                    Err(error) => Err(error@),
                },
                error_option(fault),
            ),
            result_frame(old(self)@, final(self)@),
    {
        reveal(batch_returned);
        assert(self@.prepared[position as int] == (
            self.prepared@[position as int].0,
            self.prepared@[position as int].1@,
        ));
        let index = self.prepared[position].0;
        let checked = match outcome {
            Ok(result) => context.broker.check_execution(
                context.request,
                self.prepared[position].1.call.tool_id.as_str(),
                result,
            ),
            Err(error) => Err(error),
        };
        match checked {
            Err(error) => {
                self.core.lose_execution(&self.prepared[position].1, &error);
                self.fail_call(index, error);
            },
            Ok(execution) => {
                if !(execution.result.ok && execution.validation_error.is_none()) {
                    self.core.spoil_execution(&self.prepared[position].1, &execution);
                    self.fail_call(
                        index,
                        HarnessError::Tool(
                            "programmatic tool returned a failed or invalid result".to_owned(),
                        ),
                    );
                    return;
                }
                match fault {
                    Some(error) => {
                        self.core.lose_execution(&self.prepared[position].1, &error);
                        self.fail_call(index, error);
                    },
                    None => {
                        self.core.keep_execution(&self.prepared[position].1, &execution);
                        self.answer(index, BatchResponse::Success(execution.result), true);
                    },
                }
            },
        }
    }

    fn take_result(
        &mut self,
        context: &BatchContext,
        position: usize,
        outcome: Result<ToolResult, HarnessError>,
        fault: Option<HarnessError>,
    ) -> (action: BatchAction)
        requires
            old(self)@.consistent(),
            old(self)@.stage == BatchStageModel::Results(position),
        ensures
            (final(self)@, action) == result_taken(
                context,
                old(self)@,
                position,
                match outcome {
                    Ok(result) => Ok(result@),
                    Err(error) => Err(error@),
                },
                error_option(fault),
            ),
            final(self)@.consistent(),
    {
        let count: usize = self.prepared.len();
        self.note_result(context, position, outcome, fault);
        if position + 1 < count {
            self.stage = BatchStage::Results(position + 1);
            return BatchAction::AwaitResult;
        }
        self.settle()
    }

    fn take_stage(&mut self) -> (stage: BatchStage)
        ensures
            stage@ == old(self)@.stage,
            final(self)@ == old(self)@.at(BatchStageModel::Prepare),
    {
        let mut stage = BatchStage::Prepare;
        std::mem::swap(&mut stage, &mut self.stage);
        stage
    }

    fn misplaced(&mut self, stage: BatchStage) -> (action: BatchAction)
        ensures
            final(self)@ == old(self)@.at(stage@),
            action == BatchAction::Misplaced,
    {
        self.stage = stage;
        BatchAction::Misplaced
    }

    fn on_decided(&mut self, context: &BatchContext, outcome: Result<PolicyDecision, HarnessError>) -> (
    action: BatchAction)
        requires
            old(self)@.consistent(),
        ensures
            (final(self)@, action) == batch_step(
                context,
                old(self)@,
                BatchEvent::Decided(outcome)@,
            ),
            final(self)@.consistent(),
    {
        match self.take_stage() {
            BatchStage::AwaitPolicy(prepared) => match outcome {
                Ok(decision) => {
                    let authorization = self.core.decide(&prepared, &decision);
                    self.settle_authorization(prepared, authorization)
                },
                Err(error) => self.over(Some(error)),
            },
            stage => self.misplaced(stage),
        }
    }

    fn on_approved(&mut self, context: &BatchContext, outcome: Result<bool, HarnessError>) -> (
    action: BatchAction)
        requires
            old(self)@.consistent(),
        ensures
            (final(self)@, action) == batch_step(
                context,
                old(self)@,
                BatchEvent::Approved(outcome)@,
            ),
            final(self)@.consistent(),
    {
        match self.take_stage() {
            BatchStage::AwaitApproval(prepared) => match outcome {
                Ok(granted) => {
                    let authorization = self.core.approve(&prepared, granted);
                    self.settle_authorization(prepared, authorization)
                },
                Err(error) => self.over(Some(error)),
            },
            stage => self.misplaced(stage),
        }
    }

    /// Takes one step.
    pub fn step(&mut self, context: &BatchContext, event: BatchEvent) -> (action: BatchAction)
        requires
            old(self)@.consistent(),
        ensures
            (final(self)@, action) == batch_step(context, old(self)@, event@),
            final(self)@.consistent(),
    {
        match event {
            BatchEvent::Checked(cancelled, now) => match &self.stage {
                BatchStage::Prepare => self.prepare_call(context, cancelled, now),
                _ => BatchAction::Misplaced,
            },
            BatchEvent::Decided(outcome) => self.on_decided(context, outcome),
            BatchEvent::Approved(outcome) => self.on_approved(context, outcome),
            BatchEvent::Returned(outcome, fault) => match &self.stage {
                BatchStage::Results(position) => {
                    let position = *position;
                    self.take_result(context, position, outcome, fault)
                },
                _ => BatchAction::Misplaced,
            },
        }
    }

    /// Begins a batch.
    pub fn begin(
        context: &BatchContext,
        core: StrategyCore,
        transcript: ProgrammaticTranscript,
        calls: Vec<BatchCall>,
        fan_out: bool,
        nonce: &str,
    ) -> (result: (BatchRun, BatchAction))
        requires
            core@.record.ledger.broker.consistent(),
            core@.record.ledger.broker.settled(),
        ensures
            (result.0@, result.1) == batch_begun(
                context,
                core@,
                transcript,
                calls@,
                fan_out,
                nonce@,
            ),
            result.0@.consistent(),
    {
        let fault = check_batch(context, &calls, fan_out, &transcript);
        let mut responses: Vec<Option<BatchResponse>> = Vec::new();
        let mut outcomes: Vec<Option<bool>> = Vec::new();
        let mut i: usize = 0;
        while i < calls.len()
            invariant
                i <= calls@.len(),
                responses@.len() == i,
                outcomes@.len() == i,
                forall|j: int| 0 <= j < i ==> (#[trigger] responses@[j]) is None,
                forall|j: int| 0 <= j < i ==> (#[trigger] outcomes@[j]) is None,
            decreases calls@.len() - i,
        {
            responses.push(None);
            outcomes.push(None);
            i += 1;
        }
        let ghost count = calls@.len();
        let empty = calls.len() == 0;
        let mut run = BatchRun {
            core,
            transcript,
            calls,
            together: fan_out,
            nonce: nonce.to_owned(),
            prepared: Vec::new(),
            responses,
            outcomes,
            next: 0,
            dispatched: false,
            first_error: None,
            stage: BatchStage::Prepare,
        };
        proof {
            assert(run@.prepared =~= Seq::empty());
            assert(run@.responses =~= Seq::new(count, |j: int| None));
            assert(run@.outcomes =~= Seq::new(count, |j: int| None));
        }
        let action = match fault {
            Some(error) => run.over(Some(error)),
            None => if empty {
                run.dispatch()
            } else {
                BatchAction::Check
            },
        };
        (run, action)
    }

    /// The call whose authorization is asked for.
    pub fn prepared(&self) -> (result: Option<&PreparedCall>)
        ensures
            match self@.stage {
                BatchStageModel::AwaitPolicy(held) => result matches Some(prepared) && prepared@
                    == held,
                BatchStageModel::AwaitApproval(held) => result matches Some(prepared) && prepared@
                    == held,
                _ => result is None,
            },
    {
        match &self.stage {
            BatchStage::AwaitPolicy(prepared) => Some(prepared),
            BatchStage::AwaitApproval(prepared) => Some(prepared),
            _ => None,
        }
    }

    /// Whether the calls run beside each other; else they run one after another.
    pub fn runs_together(&self) -> (result: bool)
        ensures
            result == self@.together,
    {
        self.together
    }

    /// The calls that are handed to their tools, with their places.
    pub fn dispatched_calls(&self) -> (result: &Vec<(usize, PreparedCall)>)
        ensures
            prepared_view(result@) == self@.prepared,
    {
        &self.prepared
    }

    /// Hands over the recorded events and forgets them.
    pub fn take_events(&mut self) -> (result: Vec<RunEvent>)
        ensures
            crate::event::events_view(result@) == old(self)@.core.record.ledger.events,
            final(self)@ == old(self)@.with_ledger(
                LedgerModel { events: Seq::empty(), ..old(self)@.core.record.ledger },
            ),
    {
        self.core.take_events()
    }

    /// What the batch came to: the shared part of the run, the account, whether a call took
    /// effect, and the responses or the error.
    pub fn into_parts(self) -> (result: (
        StrategyCore,
        ProgrammaticTranscript,
        bool,
        Result<Vec<Option<BatchResponse>>, HarnessError>,
    ))
        ensures
            result.0@ == self@.core,
            result.1 == self@.transcript,
            result.2 == self@.dispatched,
            match self@.stage {
                BatchStageModel::Done(Some(told)) => result.3 matches Err(error) && error@ == told,
                _ => result.3 matches Ok(responses) && responses_view(responses@)
                    == self@.responses,
            },
    {
        match self.stage {
            BatchStage::Done(Some(error)) => (
                self.core,
                self.transcript,
                self.dispatched,
                Err(error),
            ),
            _ => (self.core, self.transcript, self.dispatched, Ok(self.responses)),
        }
    }
}

/// What one result of a batch leaves as it is.
spec fn result_frame(before: BatchModel, after: BatchModel) -> bool {
    &&& after == (BatchModel {
        core: after.core,
        responses: after.responses,
        outcomes: after.outcomes,
        first_error: after.first_error,
        ..before
    })
    &&& after.responses.len() == before.responses.len()
    &&& after.outcomes.len() == before.outcomes.len()
    &&& after.core.record.ledger.broker.consistent()
    &&& after.core.record.ledger.broker.tool_issued == before.core.record.ledger.broker.tool_issued
    &&& after.core.record.ledger.broker.resolved()
        == before.core.record.ledger.broker.resolved() + 1
}

} // verus!
