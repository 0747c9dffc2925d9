//! Which way a run goes: the checks before it, and the strategy that carries it.

use crate::agent::{RunRequest, RunStrategy};
use crate::discovery::ToolDiscoveryLimits;
use crate::error::HarnessError;
use crate::event::{StrategyFallbackReason, StrategySelectionReason};
use crate::guard::stops;
use crate::ledger::RunLedger;
use crate::lifecycle::{
    announce_direct, direct_announced, discovery_limit_error, DirectStrategyEvents,
};
use crate::model::ModelCapabilities;
use crate::registry::ToolScope;
use crate::request::{
    absolute_deadline, check_stopped, deadline_after, deadline_view, request_check, stop_check,
    validate_request, ProgrammaticLimits,
};
use crate::scope_selection::{scope_of, ScopeModel, ToolDiscoveryStats, ToolScopeSelection};
use crate::text::texts;
use crate::tool::ToolCaller;
use crate::tool_registry::ToolRegistry;
use vstd::prelude::*;

verus! {

/// What the checks before a run answer: its deadline, or why it cannot begin.
pub open spec fn preflight(
    request: &RunRequest,
    programmatic: ProgrammaticLimits,
    ceilings: ProgrammaticLimits,
    payload_bytes: u64,
    cancelled: bool,
    now_ms: u64,
) -> Result<Option<u64>, HarnessError<Seq<char>>> {
    match request_check(request, programmatic, ceilings, payload_bytes) {
        Err(error) => Err(error),
        Ok(_) => match deadline_after(
            now_ms,
            request.agent.limits.max_run_duration_ms,
            "run duration is too large"@,
        ) {
            Err(error) => Err(error),
            Ok(deadline) => match stop_check(
                cancelled,
                now_ms,
                deadline,
                "run deadline reached"@,
            ) {
                Err(error) => Err(error),
                Ok(_) => Ok(deadline),
            },
        },
    }
}

/// Checks a request before its run, and sets the deadline.
pub fn preflight_request(
    request: &RunRequest,
    programmatic: &ProgrammaticLimits,
    ceilings: &ProgrammaticLimits,
    payload_bytes: u64,
    cancelled: bool,
    now_ms: u64,
) -> (result: Result<Option<u64>, HarnessError>)
    ensures
        deadline_view(result) == preflight(
            request,
            *programmatic,
            *ceilings,
            payload_bytes,
            cancelled,
            now_ms,
        ),
{
    validate_request(request, programmatic, ceilings, payload_bytes)?;
    let deadline = absolute_deadline(now_ms, request.agent.limits.max_run_duration_ms)?;
    check_stopped(cancelled, now_ms, deadline, "run deadline reached")?;
    Ok(deadline)
}

/// Why a run cannot be planned, as far as its limits and its provider tell.
pub open spec fn planning_obstacle(
    request: &RunRequest,
    capabilities: ModelCapabilities,
) -> Option<Seq<char>> {
    if request.agent.limits.max_model_calls < 2 {
        Some("run model-call budget cannot support planning and finalization"@)
    } else if !capabilities.supports_tools || !capabilities.supports_structured_plans {
        Some("provider does not support structured plans"@)
    } else if capabilities.limits.max_plan_nodes == Some(0u32)
        || capabilities.limits.max_plan_bytes == Some(0u64) {
        Some("provider advertises no structured-plan capacity"@)
    } else {
        None
    }
}

/// Whether a run can be planned.
pub enum PlanningReadiness {
    /// With these tools.
    Ready(ToolScope, ToolDiscoveryStats),
    /// Not, for this reason.
    Downgrade(String),
}

/// Whether the preparation of a plan's tools answers this.
pub open spec fn plan_scope_answer(
    registry: &ToolRegistry,
    request: &RunRequest,
    capabilities: ModelCapabilities,
    host_limits: ToolDiscoveryLimits,
    answer: Result<PlanningReadiness, HarnessError>,
) -> bool {
    match planning_obstacle(request, capabilities) {
        Some(reason) => answer matches Ok(PlanningReadiness::Downgrade(told)) && told@ == reason,
        None => match scope_of(
            registry@,
            request.input@,
            texts(request.agent.tool_allowlist@),
            ToolCaller::DeclarativePlan,
            host_limits.narrowed(capabilities.limits),
        ) {
            Ok(ScopeModel::Selected(ids, stats)) => if ids.len() == 0 {
                answer matches Ok(PlanningReadiness::Downgrade(told)) && told@
                    == "no allowed tools permit declarative plan calls"@
            } else {
                answer matches Ok(PlanningReadiness::Ready(scope, told)) && texts(scope.tool_ids@)
                    == ids && scope.caller == ToolCaller::DeclarativePlan && told == stats
            },
            Ok(ScopeModel::LimitReached(_, exact)) => answer matches Err(error) && error@
                == HarnessError::ResourceLimit(
                if exact {
                    "mandatory hot or exact-match tool scope exceeds discovery budget"@
                } else {
                    "mandatory hot tool scope exceeds discovery budget"@
                },
            ),
            Err(told) => answer matches Err(error) && error@ == told,
        },
    }
}

/// Selects the tools of a plan under a guard, or says why a run cannot be planned. The guard is
/// asked only where nothing else stands in the way of a plan.
pub fn prepare_plan_scope<G: Fn() -> Result<(), HarnessError>>(
    registry: &mut ToolRegistry,
    request: &RunRequest,
    capabilities: &ModelCapabilities,
    host_limits: ToolDiscoveryLimits,
    guard: &G,
) -> (result: Result<PlanningReadiness, HarnessError>)
    requires
        old(registry).wf(),
        call_requires(*guard, ()),
    ensures
        final(registry).wf(),
        final(registry)@.tools == old(registry)@.tools,
        (planning_obstacle(request, *capabilities) is None && (result matches Err(error) && stops(
            *guard,
            error,
        ))) || plan_scope_answer(old(registry), request, *capabilities, host_limits, result),
{
    if request.agent.limits.max_model_calls < 2 {
        return Ok(
            PlanningReadiness::Downgrade(
                "run model-call budget cannot support planning and finalization".to_owned(),
            ),
        );
    }
    if !capabilities.supports_tools || !capabilities.supports_structured_plans {
        return Ok(
            PlanningReadiness::Downgrade("provider does not support structured plans".to_owned()),
        );
    }
    if capabilities.limits.max_plan_nodes == Some(0u32) || capabilities.limits.max_plan_bytes
        == Some(0u64) {
        return Ok(
            PlanningReadiness::Downgrade(
                "provider advertises no structured-plan capacity".to_owned(),
            ),
        );
    }
    match registry.select_scope_for_run(
        request.input.as_str(),
        &request.agent.tool_allowlist,
        ToolCaller::DeclarativePlan,
        host_limits,
        &capabilities.limits,
        guard,
    ) {
        Err(error) => Err(error),
        Ok((scope, stats)) => {
            assert(texts(scope.tool_ids@).len() == scope.tool_ids@.len());
            if scope.is_empty() {
                return Ok(
                    PlanningReadiness::Downgrade(
                        "no allowed tools permit declarative plan calls".to_owned(),
                    ),
                );
            }
            Ok(PlanningReadiness::Ready(scope, stats))
        },
    }
}

/// The way that a run goes.
pub enum Route {
    /// It is refused.
    Refuse(HarnessError),
    /// It is over before any event.
    EndBeforeEvents(HarnessError),
    /// It is over before its first turn.
    EndEarly(HarnessError),
    /// By direct execution.
    Direct(DirectStrategyEvents),
    /// By planned execution, with these tools.
    Plan(ToolScope, ToolDiscoveryStats),
}

/// Direct execution that was asked for.
pub open spec fn forced_direct() -> DirectStrategyEvents {
    DirectStrategyEvents {
        requested: RunStrategy::Direct,
        reason: StrategySelectionReason::Forced,
        fallback: None,
        fallback_from: None,
        prior_discovery: None,
    }
}

/// Direct execution in place of planning that is not possible.
pub open spec fn downgraded_direct() -> DirectStrategyEvents {
    DirectStrategyEvents {
        requested: RunStrategy::Adaptive,
        reason: StrategySelectionReason::CapabilityDowngrade,
        fallback: Some(StrategyFallbackReason::UnsupportedCapability),
        fallback_from: None,
        prior_discovery: None,
    }
}

/// Whether an error stops a run that was asked to stop.
pub open spec fn stopping<S>(error: HarnessError<S>) -> bool {
    error is Cancelled || error is TimedOut
}

/// Whether `route` is the way of a run of this strategy, where its checks and the preparation
/// of a plan answer this.
pub open spec fn routes(
    strategy: RunStrategy,
    checked: Result<Option<u64>, HarnessError>,
    readiness: Result<PlanningReadiness, HarnessError>,
    route: Route,
) -> bool {
    if strategy == RunStrategy::Programmatic {
        route matches Route::Refuse(error) && error@ == HarnessError::UnsupportedCapability(
            "programmatic execution requires the optional sandbox runtime"@,
        )
    } else {
        match checked {
            Err(fault) => if stopping(fault) {
                route == Route::EndBeforeEvents(fault)
            } else {
                route == Route::Refuse(fault)
            },
            Ok(_) => if strategy == RunStrategy::Direct {
                route == Route::Direct(forced_direct())
            } else {
                match readiness {
                    Err(fault) => if stopping(fault) {
                        route == Route::EndEarly(fault)
                    } else {
                        route == Route::Refuse(fault)
                    },
                    Ok(PlanningReadiness::Ready(scope, stats)) => route == Route::Plan(
                        scope,
                        stats,
                    ),
                    Ok(PlanningReadiness::Downgrade(reason)) => if strategy
                        == RunStrategy::DeclarativePlan {
                        route matches Route::Refuse(error) && error@
                            == HarnessError::UnsupportedCapability(reason@)
                    } else {
                        route == Route::Direct(downgraded_direct())
                    },
                }
            },
        }
    }
}

fn is_stopping(error: &HarnessError) -> (result: bool)
    ensures
        result == stopping(*error),
{
    matches!(error, HarnessError::Cancelled | HarnessError::TimedOut(_))
}

/// The way of a run. `readiness` is consulted for planned and adaptive runs only.
pub fn route_run(
    strategy: RunStrategy,
    checked: Result<Option<u64>, HarnessError>,
    readiness: Result<PlanningReadiness, HarnessError>,
) -> (route: Route)
    ensures
        routes(strategy, checked, readiness, route),
{
    if strategy == RunStrategy::Programmatic {
        return Route::Refuse(
            HarnessError::UnsupportedCapability(
                "programmatic execution requires the optional sandbox runtime".to_owned(),
            ),
        );
    }
    if let Err(fault) = checked {
        if is_stopping(&fault) {
            return Route::EndBeforeEvents(fault);
        }
        return Route::Refuse(fault);
    }
    if strategy == RunStrategy::Direct {
        return Route::Direct(
            DirectStrategyEvents {
                requested: RunStrategy::Direct,
                reason: StrategySelectionReason::Forced,
                fallback: None,
                fallback_from: None,
                prior_discovery: None,
            },
        );
    }
    match readiness {
        Err(fault) => {
            if is_stopping(&fault) {
                return Route::EndEarly(fault);
            }
            Route::Refuse(fault)
        },
        Ok(PlanningReadiness::Ready(scope, stats)) => Route::Plan(scope, stats),
        Ok(PlanningReadiness::Downgrade(reason)) => {
            if strategy == RunStrategy::DeclarativePlan {
                return Route::Refuse(HarnessError::UnsupportedCapability(reason));
            }
            Route::Direct(
                DirectStrategyEvents {
                    requested: RunStrategy::Adaptive,
                    reason: StrategySelectionReason::CapabilityDowngrade,
                    fallback: Some(StrategyFallbackReason::UnsupportedCapability),
                    fallback_from: None,
                    prior_discovery: None,
                },
            )
        },
    }
}

/// How a run goes on once its tools were looked for.
pub enum Opening {
    /// With these tools.
    Proceed(ToolScope, ToolDiscoveryStats),
    /// Not at all: it ends with this error, after these selections and this choice are reported.
    End(HarnessError, Vec<(ToolCaller, ToolDiscoveryStats)>, Option<DirectStrategyEvents>),
}

/// Whether an error is a stop of the run.
pub open spec fn is_stop<S>(error: HarnessError<S>) -> bool {
    error is Cancelled || error is TimedOut
}

fn tells_stop(error: &HarnessError) -> (result: bool)
    ensures
        result == is_stop(*error),
{
    matches!(error, HarnessError::Cancelled | HarnessError::TimedOut(_))
}

/// The selection that was made before direct execution was chosen.
pub open spec fn selected_before(choice: Option<DirectStrategyEvents>) -> Seq<
    (ToolCaller, ToolDiscoveryStats),
> {
    match choice {
        Some(choice) => match choice.prior_discovery {
            Some(prior) => seq![prior],
            None => Seq::empty(),
        },
        None => Seq::empty(),
    }
}

/// How direct execution goes on once its tools were looked for: where they exceed the budget, or
/// the run is stopped, it ends with what was selected so far; any other error is the caller's.
pub fn open_direct(
    outcome: Result<ToolScopeSelection, HarnessError>,
    choice: Option<DirectStrategyEvents>,
) -> (result: Result<Opening, HarnessError>)
    ensures
        match outcome {
            Ok(ToolScopeSelection::Selected(scope, stats)) => result == Ok::<_, HarnessError>(
                Opening::Proceed(scope, stats),
            ),
            Ok(ToolScopeSelection::LimitReached(stats, _)) => {
                &&& result matches Ok(Opening::End(error, scopes, told))
                &&& error@ == HarnessError::ResourceLimit("tool discovery budget reached"@)
                &&& scopes@ == selected_before(choice).push((ToolCaller::Direct, stats))
                &&& told == choice
            },
            Err(fault) => if is_stop(fault) {
                &&& result matches Ok(Opening::End(error, scopes, told))
                &&& error == fault
                &&& scopes@ == selected_before(choice)
                &&& told is None
            } else {
                result == Err::<Opening, _>(fault)
            },
        },
{
    let mut scopes: Vec<(ToolCaller, ToolDiscoveryStats)> = Vec::new();
    if let Some(choice) = choice {
        if let Some(prior) = choice.prior_discovery {
            scopes.push(prior);
        }
    }
    assert(scopes@ =~= selected_before(choice));
    match outcome {
        Ok(ToolScopeSelection::Selected(scope, stats)) => Ok(Opening::Proceed(scope, stats)),
        Ok(ToolScopeSelection::LimitReached(stats, _)) => {
            scopes.push((ToolCaller::Direct, stats));
            Ok(Opening::End(discovery_limit_error(), scopes, choice))
        },
        Err(error) => if tells_stop(&error) {
            Ok(Opening::End(error, scopes, None))
        } else {
            Err(error)
        },
    }
}

/// How planned execution goes on once the tools of its later turns were looked for: where they
/// exceed the budget it ends with both selections, where the run is stopped with none; any other
/// error is the caller's.
pub fn open_planned(
    outcome: Result<ToolScopeSelection, HarnessError>,
    planned: ToolDiscoveryStats,
) -> (result: Result<Opening, HarnessError>)
    ensures
        match outcome {
            Ok(ToolScopeSelection::Selected(scope, stats)) => result == Ok::<_, HarnessError>(
                Opening::Proceed(scope, stats),
            ),
            Ok(ToolScopeSelection::LimitReached(stats, _)) => {
                &&& result matches Ok(Opening::End(error, scopes, told))
                &&& error@ == HarnessError::ResourceLimit("tool discovery budget reached"@)
                &&& scopes@ == seq![
                    (ToolCaller::DeclarativePlan, planned),
                    (ToolCaller::Direct, stats),
                ]
                &&& told is None
            },
            Err(fault) => if is_stop(fault) {
                &&& result matches Ok(Opening::End(error, scopes, told))
                &&& error == fault
                &&& scopes@.len() == 0
                &&& told is None
            } else {
                result == Err::<Opening, _>(fault)
            },
        },
{
    match outcome {
        Ok(ToolScopeSelection::Selected(scope, stats)) => Ok(Opening::Proceed(scope, stats)),
        Ok(ToolScopeSelection::LimitReached(stats, _)) => {
            let mut scopes: Vec<(ToolCaller, ToolDiscoveryStats)> = Vec::new();
            scopes.push((ToolCaller::DeclarativePlan, planned));
            scopes.push((ToolCaller::Direct, stats));
            assert(scopes@ =~= seq![
                (ToolCaller::DeclarativePlan, planned),
                (ToolCaller::Direct, stats),
            ]);
            Ok(Opening::End(discovery_limit_error(), scopes, None))
        },
        Err(error) => if tells_stop(&error) {
            Ok(Opening::End(error, Vec::new(), None))
        } else {
            Err(error)
        },
    }
}

/// The tools of programmatic execution that was asked for. Where they exceed the budget it cannot
/// begin.
pub fn open_programmatic(outcome: Result<ToolScopeSelection, HarnessError>) -> (result: Result<
    (ToolScope, ToolDiscoveryStats),
    HarnessError,
>)
    ensures
        match outcome {
            Ok(ToolScopeSelection::Selected(scope, stats)) => result == Ok::<_, HarnessError>(
                (scope, stats),
            ),
            Ok(ToolScopeSelection::LimitReached(_, _)) => result matches Err(error) && error@
                == HarnessError::ResourceLimit(
                "programmatic tool scope exceeds discovery limits"@,
            ),
            Err(fault) => result == Err::<(ToolScope, ToolDiscoveryStats), _>(fault),
        },
{
    match outcome {
        Ok(ToolScopeSelection::Selected(scope, stats)) => Ok((scope, stats)),
        Ok(ToolScopeSelection::LimitReached(_, _)) => Err(
            HarnessError::ResourceLimit(
                "programmatic tool scope exceeds discovery limits".to_owned(),
            ),
        ),
        Err(error) => Err(error),
    }
}

/// Direct execution in place of a program that never became valid.
pub open spec fn program_fallback(
    requested: RunStrategy,
    reason: StrategySelectionReason,
) -> DirectStrategyEvents {
    DirectStrategyEvents {
        requested,
        reason,
        fallback: Some(StrategyFallbackReason::InvalidProgram),
        fallback_from: Some(RunStrategy::Programmatic),
        prior_discovery: None,
    }
}

/// Takes a program that never became valid on as direct execution, with the tools that were found
/// for it. Where they exceed the budget, or the run is stopped, the run is ended; any other error
/// is the caller's, and nothing is recorded.
pub fn continue_directly(
    ledger: &mut RunLedger,
    outcome: Result<ToolScopeSelection, HarnessError>,
    requested: RunStrategy,
    reason: StrategySelectionReason,
) -> (result: Result<Option<ToolScope>, HarnessError>)
    ensures
        match outcome {
            Ok(ToolScopeSelection::Selected(scope, stats)) => {
                &&& result == Ok::<_, HarnessError>(Some(scope))
                &&& final(ledger)@ == direct_announced(
                    old(ledger)@,
                    Some(stats),
                    Some(program_fallback(requested, reason)),
                    true,
                )
            },
            Ok(ToolScopeSelection::LimitReached(stats, _)) => {
                &&& result == Ok::<Option<ToolScope>, HarnessError>(None)
                &&& final(ledger)@ == direct_announced(
                    old(ledger)@,
                    Some(stats),
                    None,
                    true,
                ).ended_by(HarnessError::ResourceLimit("tool discovery budget reached"@))
            },
            Err(fault) => if is_stop(fault) {
                &&& result == Ok::<Option<ToolScope>, HarnessError>(None)
                &&& final(ledger)@ == old(ledger)@.ended_by(fault@)
            } else {
                &&& result == Err::<Option<ToolScope>, _>(fault)
                &&& final(ledger)@ == old(ledger)@
            },
        },
{
    match outcome {
        Ok(ToolScopeSelection::Selected(scope, stats)) => {
            let choice = DirectStrategyEvents {
                requested,
                reason,
                fallback: Some(StrategyFallbackReason::InvalidProgram),
                fallback_from: Some(RunStrategy::Programmatic),
                prior_discovery: None,
            };
            announce_direct(ledger, Some(stats), Some(choice), true);
            Ok(Some(scope))
        },
        Ok(ToolScopeSelection::LimitReached(stats, _)) => {
            announce_direct(ledger, Some(stats), None, true);
            ledger.apply_terminal_error(&discovery_limit_error());
            Ok(None)
        },
        Err(error) => if tells_stop(&error) {
            ledger.apply_terminal_error(&error);
            Ok(None)
        } else {
            Err(error)
        },
    }
}

} // verus!
