//! Everything that a run has recorded so far.

use crate::agent::{RunResult, RunResultModel};
use crate::broker::{BrokerModel, BrokerState};
use crate::error::{HarnessError, RunError};
use crate::event::{events_view, RunEvent};
use crate::tool::ToolCall;
use vstd::prelude::*;

verus! {

/// The result, the broker state and the events of one run.
pub struct RunLedger {
    /// The result so far.
    pub result: RunResult,
    /// The broker state.
    pub broker: BrokerState,
    /// The events that are yet to be emitted, in order.
    pub events: Vec<RunEvent>,
}

/// The model of a ledger.
pub struct LedgerModel {
    /// The result so far.
    pub result: RunResultModel,
    /// The broker state.
    pub broker: BrokerModel,
    /// The events that are yet to be emitted, in order.
    pub events: Seq<RunEvent<Seq<char>>>,
}

impl View for RunLedger {
    type V = LedgerModel;

    open spec fn view(&self) -> LedgerModel {
        LedgerModel {
            result: self.result@,
            broker: self.broker@,
            events: events_view(self.events@),
        }
    }
}

impl LedgerModel {
    /// The ledger with one more event.
    pub open spec fn emit(self, event: RunEvent<Seq<char>>) -> LedgerModel {
        LedgerModel { events: self.events.push(event), ..self }
    }

    /// The ledger with another result.
    pub open spec fn with_result(self, result: RunResultModel) -> LedgerModel {
        LedgerModel { result, ..self }
    }

    /// The ledger with another broker state.
    pub open spec fn with_broker(self, broker: BrokerModel) -> LedgerModel {
        LedgerModel { broker, ..self }
    }

    /// The ledger of a run that an error ended.
    pub open spec fn ended_by(self, error: HarnessError<Seq<char>>) -> LedgerModel {
        self.with_result(self.result.ended_by(error))
    }

    /// The ledger with one more error.
    pub open spec fn with_error(self, error: RunError<Seq<char>>) -> LedgerModel {
        self.with_result(self.result.with_error(error))
    }

    /// The ledger with one proposal refused.
    pub open spec fn refused(self, call: ToolCall<Seq<char>>, reason: Seq<char>) -> LedgerModel {
        self.with_broker(self.broker.refused()).emit(
            RunEvent::ToolRejected { call_id: call.id, tool_id: call.tool_id, reason },
        ).with_error(RunError { code: "tool_rejected"@, message: reason })
    }

    /// The ledger with one tool completion reported.
    pub open spec fn tool_completed(self, call: ToolCall<Seq<char>>, ok: bool) -> LedgerModel {
        self.emit(RunEvent::ToolCompleted { call_id: call.id, tool_id: call.tool_id, ok })
    }
}

impl RunLedger {
    /// A ledger in which nothing has happened yet.
    pub fn new(result: RunResult) -> (ledger: RunLedger)
        ensures
            ledger@.result == result@,
            ledger@.broker == crate::broker::fresh_broker(),
            ledger@.broker.consistent(),
            ledger@.events == Seq::<RunEvent<Seq<char>>>::empty(),
    {
        let ledger = RunLedger { result, broker: BrokerState::new(), events: Vec::new() };
        assert(ledger@.events =~= Seq::empty());
        ledger
    }

    /// Records one event.
    pub fn emit(&mut self, event: RunEvent)
        ensures
            final(self)@ == old(self)@.emit(event@),
    {
        let ghost before = self@.events;
        self.events.push(event);
        assert(events_view(self.events@) =~= before.push(event@));
    }

    /// Hands over the recorded events and forgets them.
    pub fn take_events(&mut self) -> (events: Vec<RunEvent>)
        ensures
            events@ == old(self).events@,
            final(self)@ == (LedgerModel { events: Seq::empty(), ..old(self)@ }),
    {
        let mut events: Vec<RunEvent> = Vec::new();
        events.append(&mut self.events);
        assert(events@ =~= old(self).events@);
        assert(events_view(self.events@) =~= Seq::empty());
        events
    }

    /// Ends the run with an error.
    pub fn apply_terminal_error(&mut self, error: &HarnessError)
        ensures
            final(self)@ == old(self)@.ended_by(error@),
    {
        self.result.apply_terminal_error(error);
    }

    /// Records one error.
    pub fn push_error(&mut self, error: RunError)
        ensures
            final(self)@ == old(self)@.with_error(error@),
    {
        self.result.push_error(error);
    }

    /// Refuses one admitted proposal.
    pub fn reject(&mut self, call: &ToolCall, reason: &str)
        requires
            old(self)@.broker.consistent(),
            old(self)@.broker.classified() < old(self)@.broker.tool_calls,
        ensures
            final(self)@ == old(self)@.refused(call@, reason@),
            final(self)@.broker.consistent(),
    {
        self.broker.tool_rejected += 1;
        self.emit(
            RunEvent::ToolRejected {
                call_id: call.id.clone(),
                tool_id: call.tool_id.clone(),
                reason: reason.to_owned(),
            },
        );
        self.push_error(RunError::new("tool_rejected", reason));
    }

    /// Reports one tool completion.
    pub fn report_completion(&mut self, call: &ToolCall, ok: bool)
        ensures
            final(self)@ == old(self)@.tool_completed(call@, ok),
    {
        self.emit(
            RunEvent::ToolCompleted { call_id: call.id.clone(), tool_id: call.tool_id.clone(), ok },
        );
    }
}

/// A ledger, and whether its run was ended for good.
pub struct RunRecord {
    /// What the run recorded.
    pub ledger: RunLedger,
    /// Whether the run was ended for good.
    pub terminal: bool,
}

/// The model of a record.
pub struct RecordModel {
    /// What the run recorded.
    pub ledger: LedgerModel,
    /// Whether the run was ended for good.
    pub terminal: bool,
}

impl View for RunRecord {
    type V = RecordModel;

    open spec fn view(&self) -> RecordModel {
        RecordModel { ledger: self.ledger@, terminal: self.terminal }
    }
}

impl RecordModel {
    /// The record with another ledger.
    pub open spec fn with_ledger(self, ledger: LedgerModel) -> RecordModel {
        RecordModel { ledger, ..self }
    }

    /// The record with one more event.
    pub open spec fn emit(self, event: RunEvent<Seq<char>>) -> RecordModel {
        self.with_ledger(self.ledger.emit(event))
    }

    /// The record of a run that an error ended, unless it was ended before.
    pub open spec fn terminated(self, error: HarnessError<Seq<char>>) -> RecordModel {
        if self.terminal {
            self
        } else {
            RecordModel { ledger: self.ledger.ended_by(error), terminal: true }
        }
    }
}

impl RunRecord {
    /// Ends the run with an error, unless it was ended before.
    pub fn terminate(&mut self, error: &HarnessError)
        ensures
            final(self)@ == old(self)@.terminated(error@),
    {
        if !self.terminal {
            self.ledger.apply_terminal_error(error);
            self.terminal = true;
        }
    }

    /// Records one event.
    pub fn emit(&mut self, event: RunEvent)
        ensures
            final(self)@ == old(self)@.emit(event@),
    {
        self.ledger.emit(event);
    }
}

/// The first error that ends a run decides its result.
pub proof fn first_terminal_error_stays(
    record: RecordModel,
    first: HarnessError<Seq<char>>,
    second: HarnessError<Seq<char>>,
)
    ensures
        record.terminated(first).terminated(second) == record.terminated(first),
{
}

} // verus!
