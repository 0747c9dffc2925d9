//! The commit of a result that was computed early: its decisions, from the first proposal of a
//! turn to the moment the result is published or dropped.

use crate::admission::ToolBroker;
use crate::agent::RunRequest;
use crate::error::HarnessError;
use crate::policy::PolicyDecision;
use crate::registry::{RegisteredTool, ToolScope};
use crate::request::{check_stopped, stop_check};
use crate::speculation::{
    ControllerModel, SpeculationController, SpeculationMode, SpeculativeResolution, ToolModel,
};
use crate::speculative_call::{
    candidate_live, commit_policy, commit_start, publishable, CommitPolicy, CommitStart, LeaseModel,
    SpeculativeLease, SpeculativeModel, SpeculativePreparedCall,
};
use crate::stream_turn::touched;
use crate::tool::{ToolCall, ToolResult, ToolResultModel};
use vstd::prelude::*;

verus! {

/// Where a commit stands.
#[derive(Clone, Copy, Debug, PartialEq, Eq, Structural)]
pub enum CommitPhase {
    /// Before the call is prepared.
    Opening,
    /// While the call is prepared as any other.
    Preparing,
    /// The dedicated policy was asked.
    Deciding,
    /// The result is published or dropped.
    Over,
}

/// What happened outside.
pub enum CommitEvent {
    /// The call is the next to be handled: whether the run was cancelled, and the time.
    Opened(bool, u64),
    /// Time passed while the call is prepared.
    Waited(u64),
    /// The call is authorized.
    Prepared(u64),
    /// The call came to no authorization: whether the run was stopped, and the time.
    Unprepared(bool, u64),
    /// The dedicated policy answered: whether the run was cancelled by then, and the time.
    Decided(Result<PolicyDecision, HarnessError>, bool, u64),
}

/// The model of an event.
pub enum CommitEventModel {
    /// The call is the next to be handled.
    Opened(bool, u64),
    /// Time passed while the call is prepared.
    Waited(u64),
    /// The call is authorized.
    Prepared(u64),
    /// The call came to no authorization.
    Unprepared(bool, u64),
    /// The dedicated policy answered.
    Decided(Result<PolicyDecision<Seq<char>>, HarnessError<Seq<char>>>, bool, u64),
}

impl View for CommitEvent {
    type V = CommitEventModel;

    open spec fn view(&self) -> CommitEventModel {
        match self {
            CommitEvent::Opened(cancelled, now) => CommitEventModel::Opened(*cancelled, *now),
            CommitEvent::Waited(now) => CommitEventModel::Waited(*now),
            CommitEvent::Prepared(now) => CommitEventModel::Prepared(*now),
            CommitEvent::Unprepared(stopped, now) => CommitEventModel::Unprepared(*stopped, *now),
            CommitEvent::Decided(Ok(decision), cancelled, now) => CommitEventModel::Decided(
                Ok(decision@),
                *cancelled,
                *now,
            ),
            CommitEvent::Decided(Err(error), cancelled, now) => CommitEventModel::Decided(
                Err(error@),
                *cancelled,
                *now,
            ),
        }
    }
}

/// What a commit asks for next.
pub enum CommitAction {
    /// Prepare the call as any other, with the result kept.
    Prepare,
    /// Ask the dedicated policy, until this time.
    AskPolicy(u64),
    /// Publish the result for the call.
    Publish,
    /// Let the call go its ordinary way: the result is dropped.
    ExecuteDirect,
    /// End the run with this error: the result is dropped.
    Stop(HarnessError),
    /// The event does not fit the phase; nothing changed.
    Misplaced,
}

/// The model of an action.
pub enum CommitActionModel {
    /// Prepare the call as any other.
    Prepare,
    /// Ask the dedicated policy.
    AskPolicy(u64),
    /// Publish the result.
    Publish,
    /// Let the call go its ordinary way.
    ExecuteDirect,
    /// End the run.
    Stop(HarnessError<Seq<char>>),
    /// The event does not fit the phase.
    Misplaced,
}

impl View for CommitAction {
    type V = CommitActionModel;

    open spec fn view(&self) -> CommitActionModel {
        match self {
            CommitAction::Prepare => CommitActionModel::Prepare,
            CommitAction::AskPolicy(until) => CommitActionModel::AskPolicy(*until),
            CommitAction::Publish => CommitActionModel::Publish,
            CommitAction::ExecuteDirect => CommitActionModel::ExecuteDirect,
            CommitAction::Stop(error) => CommitActionModel::Stop(error@),
            CommitAction::Misplaced => CommitActionModel::Misplaced,
        }
    }
}

/// The model of a commit.
pub struct CommitModel {
    /// The candidate.
    pub prepared: SpeculativeModel,
    /// What its tool returned.
    pub result: ToolResultModel,
    /// Its bookkeeping.
    pub lease: LeaseModel,
    /// When the candidate expires, in milliseconds.
    pub deadline: u64,
    /// The call that the result may be published for.
    pub call: ToolCall<Seq<char>>,
    /// Number of the model call that proposed it.
    pub number: u32,
    /// Where the commit stands.
    pub phase: CommitPhase,
}

/// The earlier of the deadlines of a candidate and of its run.
pub open spec fn earlier(candidate: u64, run_deadline: Option<u64>) -> u64 {
    match run_deadline {
        Some(run) => if run < candidate {
            run
        } else {
            candidate
        },
        None => candidate,
    }
}

/// Whether a run ends no later than a candidate expires.
pub open spec fn run_ends_first(candidate: u64, run_deadline: Option<u64>) -> bool {
    run_deadline matches Some(run) && run <= candidate
}

/// Whether an error tells of a stop.
pub open spec fn tells_stop(error: HarnessError<Seq<char>>) -> bool {
    error is Cancelled || error is TimedOut
}

impl CommitModel {
    /// Whether the tool of the candidate is open to speculation.
    pub open spec fn active(self, controller: ControllerModel) -> bool {
        controller.mode(self.prepared.call.tool_id) == SpeculationMode::Active
    }

    /// Whether the result may be published for the call.
    pub open spec fn fits(
        self,
        tools: Seq<RegisteredTool>,
        scope: &ToolScope,
        request: &RunRequest,
    ) -> bool {
        publishable(
            tools,
            scope,
            request,
            self.prepared,
            self.result,
            self.call,
            self.number,
        )
    }

    /// The commit once the result was dropped: counted as cancelled where a stop ended it.
    pub open spec fn dropped(
        self,
        controller: ControllerModel,
        stopped: bool,
        now: u64,
        action: CommitActionModel,
    ) -> (CommitModel, ControllerModel, CommitActionModel) {
        (
            CommitModel { lease: self.lease.ended(), phase: CommitPhase::Over, ..self },
            self.lease.with_outcome(
                controller,
                if stopped {
                    SpeculativeResolution::Cancelled
                } else {
                    self.lease.drop_resolution
                },
                now,
            ),
            action,
        )
    }

    /// The commit once the result is published.
    pub open spec fn published(self, controller: ControllerModel, now: u64) -> (
        CommitModel,
        ControllerModel,
        CommitActionModel,
    ) {
        (
            CommitModel {
                lease: LeaseModel { settled: true, ..self.lease },
                phase: CommitPhase::Over,
                ..self
            },
            touched(
                controller,
                self.lease.tool_id,
                |state: ToolModel| state.committed(self.lease.waiting(now)),
            ),
            CommitActionModel::Publish,
        )
    }
}

/// The first decision of a commit, before its call is prepared.
pub open spec fn opened(
    run: CommitModel,
    controller: ControllerModel,
    tools: Seq<RegisteredTool>,
    scope: &ToolScope,
    request: &RunRequest,
    run_deadline: Option<u64>,
    cancelled: bool,
    now: u64,
) -> (CommitModel, ControllerModel, CommitActionModel) {
    match commit_start(
        controller.config,
        match stop_check(
            cancelled,
            now,
            Some(earlier(run.deadline, run_deadline)),
            "speculative candidate expired before commit"@,
        ) {
            Ok(_) => None,
            Err(error) => Some(error),
        },
        run_ends_first(run.deadline, run_deadline),
        run.active(controller),
        run.fits(tools, scope, request),
    ) {
        Err(error) => if tells_stop(error) {
            run.dropped(controller, true, now, CommitActionModel::Stop(error))
        } else {
            run.dropped(controller, false, now, CommitActionModel::ExecuteDirect)
        },
        Ok(prepare) => if prepare {
            (
                CommitModel { phase: CommitPhase::Preparing, ..run },
                controller,
                CommitActionModel::Prepare,
            )
        } else {
            run.dropped(controller, false, now, CommitActionModel::ExecuteDirect)
        },
    }
}

/// The last decision of a commit, once the dedicated policy answered.
pub open spec fn decided(
    run: CommitModel,
    controller: ControllerModel,
    tools: Seq<RegisteredTool>,
    scope: &ToolScope,
    request: &RunRequest,
    run_deadline: Option<u64>,
    decision: Result<PolicyDecision<Seq<char>>, HarnessError<Seq<char>>>,
    cancelled: bool,
    now: u64,
) -> (CommitModel, ControllerModel, CommitActionModel) {
    match decision {
        Err(error) => match stop_check(
            cancelled,
            now,
            run_deadline,
            "run deadline reached before tool validation"@,
        ) {
            Ok(_) => run.dropped(controller, false, now, CommitActionModel::ExecuteDirect),
            Err(stop) => if tells_stop(error) {
                run.dropped(controller, true, now, CommitActionModel::Stop(error))
            } else {
                run.dropped(controller, false, now, CommitActionModel::Stop(stop))
            },
        },
        Ok(decision) => if decision is Allow && run.active(controller) && run.fits(
            tools,
            scope,
            request,
        ) && !run.lease.settled && controller.mode(run.lease.tool_id) == SpeculationMode::Active
            && !cancelled && now < run.deadline && (run_deadline matches Some(deadline) ==> now
            < deadline) {
            run.published(controller, now)
        } else {
            run.dropped(controller, false, now, CommitActionModel::ExecuteDirect)
        },
    }
}

/// One step of a commit: the next state, the controller, and what it asks for.
pub open spec fn commit_step(
    run: CommitModel,
    controller: ControllerModel,
    tools: Seq<RegisteredTool>,
    scope: &ToolScope,
    request: &RunRequest,
    run_deadline: Option<u64>,
    event: CommitEventModel,
) -> (CommitModel, ControllerModel, CommitActionModel) {
    match (run.phase, event) {
        (CommitPhase::Opening, CommitEventModel::Opened(cancelled, now)) => opened(
            run,
            controller,
            tools,
            scope,
            request,
            run_deadline,
            cancelled,
            now,
        ),
        (CommitPhase::Preparing, CommitEventModel::Waited(now)) => if now < run.deadline {
            (run, controller, CommitActionModel::Prepare)
        } else {
            run.dropped(controller, false, now, CommitActionModel::ExecuteDirect)
        },
        (CommitPhase::Preparing, CommitEventModel::Unprepared(stopped, now)) => run.dropped(
            controller,
            stopped && now < run.deadline,
            now,
            CommitActionModel::ExecuteDirect,
        ),
        (CommitPhase::Preparing, CommitEventModel::Prepared(now)) => if now < run.deadline
            && run.active(controller) && candidate_live(tools, scope, request, run.prepared) {
            (
                CommitModel { phase: CommitPhase::Deciding, ..run },
                controller,
                CommitActionModel::AskPolicy(earlier(run.deadline, run_deadline)),
            )
        } else {
            run.dropped(controller, false, now, CommitActionModel::ExecuteDirect)
        },
        (CommitPhase::Deciding, CommitEventModel::Decided(decision, cancelled, now)) => decided(
            run,
            controller,
            tools,
            scope,
            request,
            run_deadline,
            decision,
            cancelled,
            now,
        ),
        _ => (run, controller, CommitActionModel::Misplaced),
    }
}

/// The commit of one result that was computed early.
pub struct CommitRun {
    prepared: SpeculativePreparedCall,
    result: ToolResult,
    lease: SpeculativeLease,
    deadline: u64,
    call: ToolCall,
    number: u32,
    phase: CommitPhase,
}

impl View for CommitRun {
    type V = CommitModel;

    closed spec fn view(&self) -> CommitModel {
        CommitModel {
            prepared: self.prepared@,
            result: self.result@,
            lease: self.lease@,
            deadline: self.deadline,
            call: self.call@,
            number: self.number,
            phase: self.phase,
        }
    }
}

impl CommitRun {
    /// A commit for the call that is the next to be handled.
    pub fn new(
        prepared: SpeculativePreparedCall,
        result: ToolResult,
        lease: SpeculativeLease,
        deadline: u64,
        call: &ToolCall,
        number: u32,
    ) -> (run: CommitRun)
        ensures
            run@ == (CommitModel {
                prepared: prepared@,
                result: result@,
                lease: lease@,
                deadline,
                call: call@,
                number,
                phase: CommitPhase::Opening,
            }),
    {
        CommitRun {
            prepared,
            result,
            lease,
            deadline,
            call: call.duplicate(),
            number,
            phase: CommitPhase::Opening,
        }
    }

    /// The candidate.
    pub fn candidate(&self) -> (result: &SpeculativePreparedCall)
        ensures
            result@ == self@.prepared,
    {
        &self.prepared
    }

    /// What the tool of the candidate returned.
    pub fn result(&self) -> (result: &ToolResult)
        ensures
            result@ == self@.result,
    {
        &self.result
    }

    /// When the candidate expires, in milliseconds.
    pub fn deadline(&self) -> (result: u64)
        ensures
            result == self@.deadline,
    {
        self.deadline
    }

    fn drop_result(
        &mut self,
        controller: &mut SpeculationController,
        stopped: bool,
        now_ms: u64,
        action: CommitAction,
    ) -> (answer: CommitAction)
        ensures
            (final(self)@, final(controller)@, answer@) == old(self)@.dropped(
                old(controller)@,
                stopped,
                now_ms,
                action@,
            ),
            answer == action,
    {
        if stopped {
            self.lease.settle(controller, SpeculativeResolution::Cancelled, now_ms);
        } else {
            self.lease.release(controller, now_ms);
        }
        self.phase = CommitPhase::Over;
        action
    }

    fn open(
        &mut self,
        controller: &mut SpeculationController,
        broker: &ToolBroker,
        request: &RunRequest,
        run_deadline: Option<u64>,
        cancelled: bool,
        now_ms: u64,
    ) -> (action: CommitAction)
        ensures
            (final(self)@, final(controller)@, action@) == opened(
                old(self)@,
                old(controller)@,
                broker.tools@,
                broker.scope,
                request,
                run_deadline,
                cancelled,
                now_ms,
            ),
    {
        let until: u64 = match run_deadline {
            Some(run) => if run < self.deadline {
                run
            } else {
                self.deadline
            },
            None => self.deadline,
        };
        let stopped = match check_stopped(
            cancelled,
            now_ms,
            Some(until),
            "speculative candidate expired before commit",
        ) {
            Ok(_) => None,
            Err(error) => Some(error),
        };
        let run_first = match run_deadline {
            Some(run) => run <= self.deadline,
            None => false,
        };
        match broker.begin_commit(
            controller,
            request,
            Some((&self.prepared, &self.result)),
            &self.call,
            self.number,
            stopped,
            run_first,
        ) {
            CommitStart::Stop(error) => if matches!(
                error,
                HarnessError::Cancelled | HarnessError::TimedOut(_)
            ) {
                self.drop_result(controller, true, now_ms, CommitAction::Stop(error))
            } else {
                self.drop_result(controller, false, now_ms, CommitAction::ExecuteDirect)
            },
            CommitStart::NotCommitted => {
                self.drop_result(controller, false, now_ms, CommitAction::ExecuteDirect)
            },
            CommitStart::Prepare => {
                self.phase = CommitPhase::Preparing;
                CommitAction::Prepare
            },
        }
    }

    fn decide(
        &mut self,
        controller: &mut SpeculationController,
        broker: &ToolBroker,
        request: &RunRequest,
        run_deadline: Option<u64>,
        decision: Result<PolicyDecision, HarnessError>,
        cancelled: bool,
        now_ms: u64,
    ) -> (action: CommitAction)
        ensures
            (final(self)@, final(controller)@, action@) == decided(
                old(self)@,
                old(controller)@,
                broker.tools@,
                broker.scope,
                request,
                run_deadline,
                match decision {
                    Ok(decision) => Ok(decision@),
                    Err(error) => Err(error@),
                },
                cancelled,
                now_ms,
            ),
    {
        let stop = check_stopped(
            cancelled,
            now_ms,
            run_deadline,
            "run deadline reached before tool validation",
        );
        match commit_policy(decision, stop.is_err()) {
            CommitPolicy::Stop(error) => if matches!(
                error,
                HarnessError::Cancelled | HarnessError::TimedOut(_)
            ) {
                self.drop_result(controller, true, now_ms, CommitAction::Stop(error))
            } else {
                match stop {
                    Err(stop) => self.drop_result(
                        controller,
                        false,
                        now_ms,
                        CommitAction::Stop(stop),
                    ),
                    Ok(_) => self.drop_result(
                        controller,
                        false,
                        now_ms,
                        CommitAction::ExecuteDirect,
                    ),
                }
            },
            CommitPolicy::ExecuteDirect => {
                self.drop_result(controller, false, now_ms, CommitAction::ExecuteDirect)
            },
            CommitPolicy::Publish => {
                if controller.is_active(self.prepared.call.tool_id.as_str())
                    && broker.is_publishable(
                    request,
                    &self.prepared,
                    &self.result,
                    &self.call,
                    self.number,
                ) && self.lease.try_commit(
                    controller,
                    now_ms,
                    self.deadline,
                    run_deadline,
                    cancelled,
                ) {
                    self.phase = CommitPhase::Over;
                    CommitAction::Publish
                } else {
                    self.drop_result(controller, false, now_ms, CommitAction::ExecuteDirect)
                }
            },
        }
    }

    /// Takes one step.
    pub fn step(
        &mut self,
        controller: &mut SpeculationController,
        broker: &ToolBroker,
        request: &RunRequest,
        run_deadline: Option<u64>,
        event: CommitEvent,
    ) -> (action: CommitAction)
        ensures
            (final(self)@, final(controller)@, action@) == commit_step(
                old(self)@,
                old(controller)@,
                broker.tools@,
                broker.scope,
                request,
                run_deadline,
                event@,
            ),
    {
        match (self.phase, event) {
            (CommitPhase::Opening, CommitEvent::Opened(cancelled, now_ms)) => self.open(
                controller,
                broker,
                request,
                run_deadline,
                cancelled,
                now_ms,
            ),
            (CommitPhase::Preparing, CommitEvent::Waited(now_ms)) => if now_ms < self.deadline {
                CommitAction::Prepare
            } else {
                self.drop_result(controller, false, now_ms, CommitAction::ExecuteDirect)
            },
            (CommitPhase::Preparing, CommitEvent::Unprepared(stopped, now_ms)) => {
                let in_time = stopped && now_ms < self.deadline;
                self.drop_result(controller, in_time, now_ms, CommitAction::ExecuteDirect)
            },
            (CommitPhase::Preparing, CommitEvent::Prepared(now_ms)) => if now_ms < self.deadline
                && controller.is_active(self.prepared.call.tool_id.as_str())
                && broker.speculative_prepared_is_live(request, &self.prepared) {
                self.phase = CommitPhase::Deciding;
                CommitAction::AskPolicy(
                    match run_deadline {
                        Some(run) => if run < self.deadline {
                            run
                        } else {
                            self.deadline
                        },
                        None => self.deadline,
                    },
                )
            } else {
                self.drop_result(controller, false, now_ms, CommitAction::ExecuteDirect)
            },
            (CommitPhase::Deciding, CommitEvent::Decided(decision, cancelled, now_ms)) => {
                self.decide(
                    controller,
                    broker,
                    request,
                    run_deadline,
                    decision,
                    cancelled,
                    now_ms,
                )
            },
            _ => CommitAction::Misplaced,
        }
    }
}

/// A result that was computed early is published only if it fits the call that the model
/// proposed, the dedicated policy allows it, its tool is open to speculation, and neither the
/// candidate nor the run has ended.
pub proof fn published_results_are_authorized(
    run: CommitModel,
    controller: ControllerModel,
    tools: Seq<RegisteredTool>,
    scope: &ToolScope,
    request: &RunRequest,
    run_deadline: Option<u64>,
    event: CommitEventModel,
)
    requires
        commit_step(run, controller, tools, scope, request, run_deadline, event).2 is Publish,
    ensures
        run.phase == CommitPhase::Deciding,
        run.fits(tools, scope, request),
        run.active(controller),
        match event {
            CommitEventModel::Decided(Ok(decision), cancelled, now) => {
                &&& decision is Allow
                &&& !cancelled
                &&& now < run.deadline
                &&& run_deadline matches Some(deadline) ==> now < deadline
            },
            _ => false,
        },
{
}

/// The policy is asked about a commit only after the call was authorized as any other, so that
/// nothing is published that was not authorized twice.
pub proof fn decisions_follow_preparation(
    run: CommitModel,
    controller: ControllerModel,
    tools: Seq<RegisteredTool>,
    scope: &ToolScope,
    request: &RunRequest,
    run_deadline: Option<u64>,
    event: CommitEventModel,
)
    requires
        run.phase != CommitPhase::Deciding,
        commit_step(run, controller, tools, scope, request, run_deadline, event).0.phase
            == CommitPhase::Deciding,
    ensures
        run.phase == CommitPhase::Preparing,
        event is Prepared,
{
}

/// A commit that is over stays so, and counts nothing more.
pub proof fn finished_commits_change_nothing(
    run: CommitModel,
    controller: ControllerModel,
    tools: Seq<RegisteredTool>,
    scope: &ToolScope,
    request: &RunRequest,
    run_deadline: Option<u64>,
    event: CommitEventModel,
)
    requires
        run.phase == CommitPhase::Over,
    ensures
        commit_step(run, controller, tools, scope, request, run_deadline, event) == (
            run,
            controller,
            CommitActionModel::Misplaced,
        ),
{
}

/// Every way out of a commit settles its candidate: whatever is not kept is counted once.
pub proof fn ended_commits_are_settled(
    run: CommitModel,
    controller: ControllerModel,
    tools: Seq<RegisteredTool>,
    scope: &ToolScope,
    request: &RunRequest,
    run_deadline: Option<u64>,
    event: CommitEventModel,
)
    requires
        run.phase != CommitPhase::Over,
        commit_step(run, controller, tools, scope, request, run_deadline, event).0.phase
            == CommitPhase::Over,
    ensures
        commit_step(run, controller, tools, scope, request, run_deadline, event).0.lease.settled,
{
}

} // verus!
