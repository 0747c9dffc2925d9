//! How a run begins and ends: its identity, the events that frame it, and its usage.

use crate::agent::{fresh_result, RunRequest, RunResult, RunResultModel, RunStatus, RunStrategy};
use crate::broker::{fresh_broker, BrokerModel};
use crate::error::HarnessError;
use crate::event::{
    new_identifier, uuid_text, RunEvent, StrategyFallbackReason, StrategySelectionReason,
};
use crate::ledger::{LedgerModel, RecordModel, RunLedger, RunRecord};
use crate::scope_selection::ToolDiscoveryStats;
use crate::strategy_core::{CallCounts, CoreModel, StrategyCore};
use crate::tool::ToolCaller;
use vstd::prelude::*;

verus! {

/// How direct execution came to be chosen.
#[derive(Clone, Copy, Debug, PartialEq, Eq)]
pub struct DirectStrategyEvents {
    /// The strategy that was asked for.
    pub requested: RunStrategy,
    /// Why direct execution was selected.
    pub reason: StrategySelectionReason,
    /// Why the run fell back to it, if it did.
    pub fallback: Option<StrategyFallbackReason>,
    /// The strategy that it fell back from, where that is not the requested one.
    pub fallback_from: Option<RunStrategy>,
    /// A selection of tools that was made before.
    pub prior_discovery: Option<(ToolCaller, ToolDiscoveryStats)>,
}

/// Provider calls of a program that fell through to direct execution.
#[derive(Clone, Copy, Debug, PartialEq, Eq, Structural)]
pub struct ProgrammaticUsage {
    /// For programs.
    pub planning_model_calls: u32,
    /// For repairs of programs.
    pub repair_model_calls: u32,
    /// For answers.
    pub final_synthesis_model_calls: u32,
}

/// Whether the next provider attempt may enter guarded streaming speculation. Every attempt
/// consumes the only eligible state, including one that fails and is retried.
#[derive(Clone, Copy, Debug, PartialEq, Eq, Structural)]
pub enum SpeculationEligibility {
    /// The next attempt may.
    FirstProviderAttempt,
    /// No attempt may.
    SequentialOnly,
}

impl SpeculationEligibility {
    /// Begins one attempt; whether it may speculate.
    pub fn begin_provider_attempt(&mut self) -> (result: bool)
        ensures
            result == (*old(self) == SpeculationEligibility::FirstProviderAttempt),
            *final(self) == SpeculationEligibility::SequentialOnly,
    {
        let first = *self == SpeculationEligibility::FirstProviderAttempt;
        *self = SpeculationEligibility::SequentialOnly;
        first
    }
}

/// The identifiers of a run and its trace: those of the request, else fresh ones.
pub fn identify(request: &RunRequest) -> (result: (String, String))
    ensures
        match request.run_id {
            Some(id) => result.0@ == id@,
            None => uuid_text(result.0@),
        },
        match request.trace_id {
            Some(id) => result.1@ == id@,
            None => uuid_text(result.1@),
        },
{
    let run_id = match &request.run_id {
        Some(id) => id.clone(),
        None => new_identifier(),
    };
    let trace_id = match &request.trace_id {
        Some(id) => id.clone(),
        None => new_identifier(),
    };
    (run_id, trace_id)
}

/// The result of a run that has done nothing yet.
pub open spec fn blank_result(
    request: &RunRequest,
    run_id: Seq<char>,
    trace_id: Seq<char>,
) -> RunResultModel {
    fresh_result(run_id, RunStatus::Failed, request.selected_model(), trace_id)
}

/// The ledger of a run that just began.
pub open spec fn begun_ledger(
    request: &RunRequest,
    run_id: Seq<char>,
    trace_id: Seq<char>,
) -> LedgerModel {
    LedgerModel {
        result: blank_result(request, run_id, trace_id),
        broker: fresh_broker(),
        events: Seq::empty(),
    }.emit(RunEvent::Started { run_id, trace_id })
}

/// Begins a run.
pub fn begin_run(request: &RunRequest, run_id: &str, trace_id: &str) -> (ledger: RunLedger)
    ensures
        ledger@ == begun_ledger(request, run_id@, trace_id@),
        ledger@.broker.consistent(),
        ledger@.broker.settled(),
{
    let model = request.model();
    let mut ledger = RunLedger::new(
        RunResult::new(run_id, RunStatus::Failed, model.as_str(), trace_id),
    );
    ledger.emit(
        RunEvent::Started { run_id: run_id.to_owned(), trace_id: trace_id.to_owned() },
    );
    ledger
}

/// The ledger with the choice of a strategy reported.
pub open spec fn choice_reported(
    ledger: LedgerModel,
    choice: DirectStrategyEvents,
    strategy: RunStrategy,
) -> LedgerModel {
    let told = match choice.fallback {
        Some(reason) => ledger.emit(
            RunEvent::StrategyFallback {
                from: match choice.fallback_from {
                    Some(from) => from,
                    None => choice.requested,
                },
                to: strategy,
                reason,
            },
        ),
        None => ledger,
    };
    told.emit(
        RunEvent::StrategySelected {
            requested: choice.requested,
            selected: strategy,
            reason: choice.reason,
        },
    )
}

/// Reports the choice of a strategy.
pub fn report_choice(ledger: &mut RunLedger, choice: &DirectStrategyEvents, strategy: RunStrategy)
    ensures
        final(ledger)@ == choice_reported(old(ledger)@, *choice, strategy),
{
    if let Some(reason) = choice.fallback {
        let from = match choice.fallback_from {
            Some(from) => from,
            None => choice.requested,
        };
        ledger.emit(RunEvent::StrategyFallback { from, to: strategy, reason });
    }
    ledger.emit(
        RunEvent::StrategySelected {
            requested: choice.requested,
            selected: strategy,
            reason: choice.reason,
        },
    );
}

/// The ledger of direct execution before its first turn: what was selected before, what is
/// selected now, and why direct execution was chosen. A run that goes on has reported the
/// first before.
pub open spec fn direct_announced(
    ledger: LedgerModel,
    discovery: Option<ToolDiscoveryStats>,
    choice: Option<DirectStrategyEvents>,
    goes_on: bool,
) -> LedgerModel {
    let first = match choice {
        Some(choice) => match choice.prior_discovery {
            Some((caller, stats)) => if goes_on {
                ledger
            } else {
                ledger.emit(stats.reported(caller))
            },
            None => ledger,
        },
        None => ledger,
    };
    let second = match discovery {
        Some(stats) => first.emit(stats.reported(ToolCaller::Direct)),
        None => first,
    };
    match choice {
        Some(choice) => choice_reported(second, choice, RunStrategy::Direct),
        None => second,
    }
}

/// Announces direct execution.
pub fn announce_direct(
    ledger: &mut RunLedger,
    discovery: Option<ToolDiscoveryStats>,
    choice: Option<DirectStrategyEvents>,
    goes_on: bool,
)
    ensures
        final(ledger)@ == direct_announced(old(ledger)@, discovery, choice, goes_on),
{
    if let Some(choice) = choice {
        if let Some((caller, stats)) = choice.prior_discovery {
            if !goes_on {
                ledger.emit(stats.to_event(caller));
            }
        }
    }
    if let Some(stats) = discovery {
        ledger.emit(stats.to_event(ToolCaller::Direct));
    }
    if let Some(choice) = choice {
        report_choice(ledger, &choice, RunStrategy::Direct);
    }
}

/// The usage of a run.
pub open spec fn usage_event(
    strategy: RunStrategy,
    calls: CallCounts,
    broker: BrokerModel,
    duration_ms: u64,
) -> RunEvent<Seq<char>> {
    RunEvent::StrategyUsage {
        strategy,
        model_calls: calls.model_calls,
        planning_model_calls: calls.planning,
        repair_model_calls: calls.repair,
        recovery_model_calls: calls.recovery,
        final_synthesis_model_calls: calls.final_synthesis,
        reactive_model_calls: calls.reactive,
        tool_calls: broker.tool_calls,
        tool_issued: broker.tool_issued,
        tool_reused: broker.tool_reused,
        tool_rejected: broker.tool_rejected,
        tool_pre_dispatch_aborted: broker.tool_pre_dispatch_aborted,
        tool_completed: broker.tool_completed,
        tool_failed: broker.tool_failed,
        tool_cancelled: broker.tool_cancelled,
        duration_ms,
    }
}

/// The ledger of a run that is over: every proposal is decided, and usage and status are
/// reported.
pub open spec fn finished(
    ledger: LedgerModel,
    strategy: RunStrategy,
    calls: CallCounts,
    duration_ms: u64,
) -> LedgerModel {
    let timed = ledger.with_result(RunResultModel { duration_ms, ..ledger.result }).with_broker(
        ledger.broker.finalized(),
    );
    timed.emit(usage_event(strategy, calls, timed.broker, duration_ms)).emit(
        RunEvent::Completed { status: timed.result.status },
    )
}

/// Ends a run.
pub fn finish_run(
    ledger: &mut RunLedger,
    strategy: RunStrategy,
    calls: CallCounts,
    duration_ms: u64,
)
    requires
        old(ledger)@.broker.consistent(),
        old(ledger)@.broker.settled(),
    ensures
        final(ledger)@ == finished(old(ledger)@, strategy, calls, duration_ms),
        final(ledger)@.broker.classified() == final(ledger)@.broker.tool_calls,
        final(ledger)@.broker.settled(),
{
    ledger.result.duration_ms = duration_ms;
    ledger.broker.finalize_usage();
    let event = RunEvent::StrategyUsage {
        strategy,
        model_calls: calls.model_calls,
        planning_model_calls: calls.planning,
        repair_model_calls: calls.repair,
        recovery_model_calls: calls.recovery,
        final_synthesis_model_calls: calls.final_synthesis,
        reactive_model_calls: calls.reactive,
        tool_calls: ledger.broker.tool_calls,
        tool_issued: ledger.broker.tool_issued,
        tool_reused: ledger.broker.tool_reused,
        tool_rejected: ledger.broker.tool_rejected,
        tool_pre_dispatch_aborted: ledger.broker.tool_pre_dispatch_aborted,
        tool_completed: ledger.broker.tool_completed,
        tool_failed: ledger.broker.tool_failed,
        tool_cancelled: ledger.broker.tool_cancelled,
        duration_ms,
    };
    ledger.emit(event);
    let status = ledger.result.status;
    ledger.emit(RunEvent::Completed { status });
}

/// What is left of a count.
pub open spec fn left_of(total: u32, used: u32) -> u32 {
    if total >= used {
        (total - used) as u32
    } else {
        0
    }
}

/// Provider calls of direct execution, by what they were made for.
pub open spec fn direct_calls(model_calls: u32, usage: Option<ProgrammaticUsage>) -> CallCounts {
    match usage {
        Some(usage) => CallCounts {
            model_calls,
            planning: usage.planning_model_calls,
            repair: usage.repair_model_calls,
            recovery: 0,
            final_synthesis: usage.final_synthesis_model_calls,
            reactive: left_of(
                left_of(
                    left_of(model_calls, usage.planning_model_calls),
                    usage.repair_model_calls,
                ),
                usage.final_synthesis_model_calls,
            ),
        },
        None => CallCounts {
            model_calls,
            planning: 0,
            repair: 0,
            recovery: 0,
            final_synthesis: 0,
            reactive: model_calls,
        },
    }
}

/// The ledger of direct execution that is over. Usage is reported where the choice of the
/// strategy was, or where a program came before.
pub open spec fn direct_finished(
    ledger: LedgerModel,
    model_calls: u32,
    usage: Option<ProgrammaticUsage>,
    announced: bool,
    duration_ms: u64,
) -> LedgerModel {
    if announced || usage is Some {
        finished(ledger, RunStrategy::Direct, direct_calls(model_calls, usage), duration_ms)
    } else {
        let timed = ledger.with_result(RunResultModel { duration_ms, ..ledger.result });
        timed.emit(RunEvent::Completed { status: timed.result.status })
    }
}

/// Ends direct execution.
pub fn finish_direct(
    ledger: &mut RunLedger,
    model_calls: u32,
    usage: Option<ProgrammaticUsage>,
    announced: bool,
    duration_ms: u64,
)
    requires
        old(ledger)@.broker.consistent(),
        old(ledger)@.broker.settled(),
    ensures
        final(ledger)@ == direct_finished(
            old(ledger)@,
            model_calls,
            usage,
            announced,
            duration_ms,
        ),
{
    let calls = match usage {
        Some(usage) => CallCounts {
            model_calls,
            planning: usage.planning_model_calls,
            repair: usage.repair_model_calls,
            recovery: 0,
            final_synthesis: usage.final_synthesis_model_calls,
            reactive: model_calls.saturating_sub(usage.planning_model_calls).saturating_sub(
                usage.repair_model_calls,
            ).saturating_sub(usage.final_synthesis_model_calls),
        },
        None => CallCounts {
            model_calls,
            planning: 0,
            repair: 0,
            recovery: 0,
            final_synthesis: 0,
            reactive: model_calls,
        },
    };
    if announced || usage.is_some() {
        finish_run(ledger, RunStrategy::Direct, calls, duration_ms);
    } else {
        ledger.result.duration_ms = duration_ms;
        let status = ledger.result.status;
        ledger.emit(RunEvent::Completed { status });
    }
}

/// Ends a strategy run; its result and the events that are yet to be emitted.
pub fn finish_strategy(core: StrategyCore, duration_ms: u64) -> (ledger: RunLedger)
    requires
        core@.record.ledger.broker.consistent(),
        core@.record.ledger.broker.settled(),
    ensures
        ledger@ == finished(
            core@.record.ledger,
            core@.selected,
            core@.calls,
            duration_ms,
        ),
        ledger@.broker.classified() == ledger@.broker.tool_calls,
{
    let (record, calls, selected) = core.into_parts();
    let mut ledger = record.ledger;
    finish_run(&mut ledger, selected, calls, duration_ms);
    ledger
}

/// The ledger with selections of tools reported.
pub open spec fn scopes_reported(
    ledger: LedgerModel,
    scopes: Seq<(ToolCaller, ToolDiscoveryStats)>,
    count: nat,
) -> LedgerModel
    decreases count,
{
    if count == 0 || count > scopes.len() {
        ledger
    } else {
        let (caller, stats) = scopes[count - 1];
        scopes_reported(ledger, scopes, (count - 1) as nat).emit(stats.reported(caller))
    }
}

/// Reports selections of tools.
pub fn report_scopes(ledger: &mut RunLedger, scopes: &Vec<(ToolCaller, ToolDiscoveryStats)>)
    ensures
        final(ledger)@ == scopes_reported(old(ledger)@, scopes@, scopes@.len()),
{
    let ghost first = ledger@;
    let mut i: usize = 0;
    while i < scopes.len()
        invariant
            i <= scopes@.len(),
            first == old(ledger)@,
            ledger@ == scopes_reported(first, scopes@, i as nat),
        decreases scopes@.len() - i,
    {
        let (caller, stats) = scopes[i];
        ledger.emit(stats.to_event(caller));
        i += 1;
    }
}

/// The result of a run that an error ended before any event.
pub open spec fn preflight_result(
    request: &RunRequest,
    run_id: Seq<char>,
    trace_id: Seq<char>,
    error: HarnessError<Seq<char>>,
) -> RunResultModel {
    blank_result(request, run_id, trace_id).ended_by(error)
}

/// The result of a run that an error ended before any event.
pub fn preflight_terminal_result(
    request: &RunRequest,
    run_id: &str,
    trace_id: &str,
    error: &HarnessError,
) -> (result: RunResult)
    ensures
        result@ == preflight_result(request, run_id@, trace_id@, error@),
{
    let model = request.model();
    let mut result = RunResult::new(run_id, RunStatus::Failed, model.as_str(), trace_id);
    result.apply_terminal_error(error);
    result
}

/// The ledger of a run that is about to end early.
pub open spec fn begun_early(
    request: &RunRequest,
    run_id: Seq<char>,
    trace_id: Seq<char>,
    error: HarnessError<Seq<char>>,
    duration_ms: u64,
) -> LedgerModel {
    LedgerModel {
        result: RunResultModel {
            duration_ms,
            ..preflight_result(request, run_id, trace_id, error)
        },
        broker: fresh_broker(),
        events: Seq::empty(),
    }.emit(RunEvent::Started { run_id, trace_id })
}

/// The time that the usage of a run reports which an error ended before its first turn: none
/// where the run was stopped, for then nothing was used.
pub open spec fn early_usage_ms(error: HarnessError<Seq<char>>, duration_ms: u64) -> u64 {
    if error is Cancelled || error is TimedOut {
        0
    } else {
        duration_ms
    }
}

/// The ledger of a run that an error ended before its first turn.
pub open spec fn ended_early(
    request: &RunRequest,
    run_id: Seq<char>,
    trace_id: Seq<char>,
    error: HarnessError<Seq<char>>,
    scopes: Seq<(ToolCaller, ToolDiscoveryStats)>,
    strategy: RunStrategy,
    choice: Option<DirectStrategyEvents>,
    duration_ms: u64,
) -> LedgerModel {
    let begun = begun_early(request, run_id, trace_id, error, duration_ms);
    let told = scopes_reported(begun, scopes, scopes.len());
    let chosen = match choice {
        Some(choice) => choice_reported(told, choice, strategy),
        None => told,
    };
    chosen.emit(
        usage_event(
            strategy,
            CallCounts {
                model_calls: 0,
                planning: 0,
                repair: 0,
                recovery: 0,
                final_synthesis: 0,
                reactive: 0,
            },
            fresh_broker(),
            early_usage_ms(error, duration_ms),
        ),
    ).emit(RunEvent::Completed { status: chosen.result.status })
}

/// Ends a run before its first turn.
pub fn end_early(
    request: &RunRequest,
    run_id: &str,
    trace_id: &str,
    error: &HarnessError,
    scopes: &Vec<(ToolCaller, ToolDiscoveryStats)>,
    strategy: RunStrategy,
    choice: Option<DirectStrategyEvents>,
    duration_ms: u64,
) -> (ledger: RunLedger)
    ensures
        ledger@ == ended_early(
            request,
            run_id@,
            trace_id@,
            error@,
            scopes@,
            strategy,
            choice,
            duration_ms,
        ),
{
    let mut result = preflight_terminal_result(request, run_id, trace_id, error);
    result.duration_ms = duration_ms;
    let mut ledger = RunLedger::new(result);
    ledger.emit(
        RunEvent::Started { run_id: run_id.to_owned(), trace_id: trace_id.to_owned() },
    );
    report_scopes(&mut ledger, scopes);
    if let Some(choice) = choice {
        report_choice(&mut ledger, &choice, strategy);
    }
    proof {
        scopes_leave_broker(
            begun_early(request, run_id@, trace_id@, error@, duration_ms),
            scopes@,
            scopes@.len(),
        );
    }
    let used_ms: u64 = match error {
        HarnessError::Cancelled => 0,
        HarnessError::TimedOut(_) => 0,
        _ => duration_ms,
    };
    finish_run(&mut ledger, strategy, CallCounts::none(), used_ms);
    ledger.result.duration_ms = duration_ms;
    ledger
}

/// A run that was stopped before its first turn reports that it used nothing, however long it
/// took: its events are its start, the selections made so far, zero usage and its end.
pub proof fn stopped_runs_use_nothing(
    request: &RunRequest,
    run_id: Seq<char>,
    trace_id: Seq<char>,
    error: HarnessError<Seq<char>>,
    strategy: RunStrategy,
    duration_ms: u64,
)
    requires
        error is Cancelled || error is TimedOut,
    ensures
        ({
            let over = ended_early(
                request,
                run_id,
                trace_id,
                error,
                Seq::empty(),
                strategy,
                None,
                duration_ms,
            );
            &&& over.events == seq![
                RunEvent::Started { run_id, trace_id },
                usage_event(
                    strategy,
                    CallCounts {
                        model_calls: 0,
                        planning: 0,
                        repair: 0,
                        recovery: 0,
                        final_synthesis: 0,
                        reactive: 0,
                    },
                    fresh_broker(),
                    0,
                ),
                RunEvent::Completed { status: over.result.status },
            ]
            &&& over.result.cancelled == (error is Cancelled)
            &&& over.result.errors.len() == 1
            &&& over.result.tool_calls.len() == 0
            &&& over.result.duration_ms == duration_ms
        }),
{
    let over = ended_early(
        request,
        run_id,
        trace_id,
        error,
        Seq::empty(),
        strategy,
        None,
        duration_ms,
    );
    assert(over.events =~= seq![
        RunEvent::Started { run_id, trace_id },
        over.events[1],
        RunEvent::Completed { status: over.result.status },
    ]);
}

proof fn scopes_leave_broker(
    ledger: LedgerModel,
    scopes: Seq<(ToolCaller, ToolDiscoveryStats)>,
    count: nat,
)
    requires
        count <= scopes.len(),
    ensures
        scopes_reported(ledger, scopes, count).broker == ledger.broker,
        scopes_reported(ledger, scopes, count).result == ledger.result,
    decreases count,
{
    if count > 0 {
        scopes_leave_broker(ledger, scopes, (count - 1) as nat);
    }
}

/// The error of a run whose mandatory tools exceed the discovery budget.
pub fn discovery_limit_error() -> (result: HarnessError)
    ensures
        result@ == HarnessError::ResourceLimit("tool discovery budget reached"@),
{
    HarnessError::ResourceLimit("tool discovery budget reached".to_owned())
}

/// The shared part of a strategy run that just began.
pub open spec fn strategy_begun(
    request: &RunRequest,
    run_id: Seq<char>,
    trace_id: Seq<char>,
    requested: RunStrategy,
    scopes: Seq<(ToolCaller, ToolDiscoveryStats)>,
) -> CoreModel {
    CoreModel {
        record: RecordModel {
            ledger: scopes_reported(
                begun_ledger(request, run_id, trace_id),
                scopes,
                scopes.len(),
            ),
            terminal: false,
        },
        messages: request.opening(),
        calls: CallCounts {
            model_calls: 0,
            planning: 0,
            repair: 0,
            recovery: 0,
            final_synthesis: 0,
            reactive: 0,
        },
        output_repairs: 0,
        selected: requested,
        plan_attempt: 0,
    }
}

/// Begins a strategy run.
pub fn begin_strategy(
    request: &RunRequest,
    run_id: &str,
    trace_id: &str,
    requested: RunStrategy,
    scopes: &Vec<(ToolCaller, ToolDiscoveryStats)>,
) -> (core: StrategyCore)
    ensures
        core@ == strategy_begun(request, run_id@, trace_id@, requested, scopes@),
        core@.calls.balanced(),
        core@.record.ledger.broker.consistent(),
        core@.record.ledger.broker.settled(),
{
    let mut ledger = begin_run(request, run_id, trace_id);
    report_scopes(&mut ledger, scopes);
    proof {
        scopes_leave_broker(
            begun_ledger(request, run_id@, trace_id@),
            scopes@,
            scopes@.len(),
        );
    }
    StrategyCore::new(
        RunRecord { ledger, terminal: false },
        request.initial_messages(),
        requested,
    )
}

} // verus!
