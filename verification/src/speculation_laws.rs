//! What holds of the record by which tools earn early execution, and of the choice of a strategy.

use crate::agent::{RunRequest, RunStrategy};
use crate::error::HarnessError;
use crate::model::ModelCapabilities;
use crate::routing::{planning_obstacle, routes, PlanningReadiness, Route};
use crate::speculation::{
    bucket_bound, fresh_tool, HistogramModel, PreIssueSkipReason, SpeculationConfig,
    SpeculationMode, SpeculativeResolution, ToolModel,
};
use vstd::prelude::*;

verus! {

/// A tool after so many exact matches.
pub open spec fn matched_often(state: ToolModel, times: nat) -> ToolModel
    decreases times,
{
    if times == 0 {
        state
    } else {
        matched_often(state, (times - 1) as nat).shadow_matched()
    }
}

proof fn matches_are_counted(state: ToolModel, times: nat)
    requires
        state.exact_shadow_observations + times <= u64::MAX,
        state.metrics.shadow_matches + times <= u64::MAX,
    ensures
        ({
            let after = matched_often(state, times);
            &&& after.exact_shadow_observations == state.exact_shadow_observations + times
            &&& after.metrics.shadow_matches == state.metrics.shadow_matches + times
            &&& after.mode == state.mode
            &&& after.metrics.mismatches == state.metrics.mismatches
            &&& after.metrics.terminal_stream_failures == state.metrics.terminal_stream_failures
            &&& after.metrics.discarded == state.metrics.discarded
            &&& after.metrics.cancelled == state.metrics.cancelled
            &&& after.metrics.issued == state.metrics.issued
        }),
    decreases times,
{
    if times > 0 {
        matches_are_counted(state, (times - 1) as nat);
    }
}

/// A new tool may execute early once it matched exactly as often as is asked for, and not before;
/// nothing but being activated then makes it do so.
pub proof fn tools_earn_activation(tool_id: Seq<char>, config: SpeculationConfig, times: nat)
    requires
        times <= u64::MAX,
    ensures
        ({
            let state = matched_often(fresh_tool(tool_id), times);
            &&& state.mode == SpeculationMode::Shadow
            &&& state.activated(config).mode == SpeculationMode::Active <==> times
                >= config.required_shadow_observations
            &&& state.metrics.shadow_matches == times
        }),
{
    matches_are_counted(fresh_tool(tool_id), times);
}

/// After a mismatch, a failed stream or an execution that came to nothing, a tool never executes
/// early again, however often it matches.
pub proof fn incidents_are_never_forgotten(
    state: ToolModel,
    config: SpeculationConfig,
    resolution: SpeculativeResolution,
    wait_ms: Option<u64>,
    times: nat,
)
    requires
        times <= u64::MAX,
        state.metrics.shadow_matches + times <= u64::MAX,
    ensures
        matched_often(state.mismatched(), times).activated(config).mode == SpeculationMode::Shadow,
        matched_often(state.stream_failed(), times).activated(config).mode
            == SpeculationMode::Shadow,
        matched_often(state.resolved(resolution, wait_ms), times).activated(config).mode
            == SpeculationMode::Shadow,
{
    matches_are_counted(state.mismatched(), times);
    matches_are_counted(state.stream_failed(), times);
    matches_are_counted(state.resolved(resolution, wait_ms), times);
}

/// Two latencies are recorded the same way whichever comes first: both are counted, both are in the
/// sum, the larger stands as the largest, and a bucket holds every one that is no larger than its
/// bound.
pub proof fn latencies_are_all_recorded(before: HistogramModel, first: u64, second: u64)
    requires
        before.buckets.len() == 11,
        before.count + 2 <= u64::MAX,
        before.overflow + 2 <= u64::MAX,
        before.sum_ms + first + second <= u64::MAX,
        forall|i: int| 0 <= i < 11 ==> (#[trigger] before.buckets[i]) + 2 <= u64::MAX,
    ensures
        ({
            let after = before.observe(first).observe(second);
            &&& after == before.observe(second).observe(first)
            &&& after.count == before.count + 2
            &&& after.sum_ms == before.sum_ms + first + second
            &&& after.max_ms >= first && after.max_ms >= second && after.max_ms >= before.max_ms
            &&& after.max_ms == first || after.max_ms == second || after.max_ms == before.max_ms
            &&& forall|i: int|
                #![trigger after.buckets[i]]
                0 <= i < 11 ==> after.buckets[i] == before.buckets[i] + (if first <= bucket_bound(
                    i,
                ) {
                    1int
                } else {
                    0
                }) + (if second <= bucket_bound(i) {
                    1int
                } else {
                    0
                })
            &&& after.overflow == before.overflow + (if first > 5_000 {
                1int
            } else {
                0
            }) + (if second > 5_000 {
                1int
            } else {
                0
            })
        }),
{
    let after = before.observe(first).observe(second);
    let other = before.observe(second).observe(first);
    assert(after.buckets =~= other.buckets);
}

/// A call that was not issued is counted under its reason, once, and nothing else is.
pub proof fn skipped_calls_are_counted(state: ToolModel, reason: PreIssueSkipReason)
    requires
        state.metrics.pre_issue_validation_skipped < u64::MAX,
        state.metrics.pre_issue_policy_skipped < u64::MAX,
        state.metrics.pre_issue_failed < u64::MAX,
        state.metrics.pre_issue_invalidated < u64::MAX,
        state.metrics.pre_issue_aborted < u64::MAX,
        state.metrics.key_saturated < u64::MAX,
    ensures
        ({
            let before = state.metrics;
            let after = state.skipped(reason).metrics;
            &&& after.pre_issue_validation_skipped + after.pre_issue_policy_skipped
                + after.pre_issue_failed + after.pre_issue_invalidated + after.pre_issue_aborted
                + after.key_saturated == before.pre_issue_validation_skipped
                + before.pre_issue_policy_skipped + before.pre_issue_failed
                + before.pre_issue_invalidated + before.pre_issue_aborted + before.key_saturated + 1
            &&& after.pre_issue_validation_skipped > before.pre_issue_validation_skipped <==> reason
                is Validation
            &&& after.pre_issue_policy_skipped > before.pre_issue_policy_skipped <==> reason
                is Policy
            &&& after.pre_issue_failed > before.pre_issue_failed <==> reason is Failed
            &&& after.pre_issue_invalidated > before.pre_issue_invalidated <==> reason
                is Invalidated
            &&& after.pre_issue_aborted > before.pre_issue_aborted <==> reason is Aborted
            &&& after.key_saturated > before.key_saturated <==> reason is KeySaturated
            &&& after.issued == before.issued && after.in_flight == before.in_flight
            &&& state.skipped(reason).mode == state.mode
        }),
{
}

/// Every execution that was issued comes to one end, and while one is under way the record tells
/// since when the oldest is.
pub proof fn executions_come_to_one_end(
    state: ToolModel,
    first: u64,
    second: u64,
    resolution: SpeculativeResolution,
    wait_ms: Option<u64>,
)
    requires
        state.metrics.in_flight == 0,
        state.in_flight_started is None,
        state.metrics.issued + 2 <= u64::MAX,
        state.metrics.committed < u64::MAX,
        state.metrics.discarded < u64::MAX,
        state.metrics.cancelled < u64::MAX,
    ensures
        ({
            let one = state.issued(first);
            let two = one.issued(second);
            let kept = two.committed(wait_ms);
            let lost = kept.resolved(resolution, wait_ms);
            &&& two.metrics.in_flight == 2 && two.metrics.issued == state.metrics.issued + 2
            &&& two.in_flight_started matches Some(since) && since <= first && since <= second && (
            since == first || since == second)
            &&& kept.metrics.in_flight == 1 && kept.metrics.committed == state.metrics.committed
                + 1 && kept.in_flight_started == two.in_flight_started && kept.mode == state.mode
            &&& lost.metrics.in_flight == 0 && lost.in_flight_started is None
            &&& lost.metrics.discarded + lost.metrics.cancelled == state.metrics.discarded
                + state.metrics.cancelled + 1
            &&& lost.metrics.discarded > state.metrics.discarded <==> resolution is Discarded
            &&& lost.metrics.committed == kept.metrics.committed
        }),
{
}

/// A run is planned only where it may be, and only where nothing stands in the way; a run that asked
/// for a plan is never executed directly instead, and one that asked for direct execution is never
/// planned. Only an open strategy falls back, and only where planning is not possible.
pub proof fn strategies_are_followed(
    strategy: RunStrategy,
    checked: Result<Option<u64>, HarnessError>,
    readiness: Result<PlanningReadiness, HarnessError>,
    route: Route,
)
    requires
        routes(strategy, checked, readiness, route),
    ensures
        route is Plan ==> (strategy == RunStrategy::DeclarativePlan || strategy
            == RunStrategy::Adaptive) && checked is Ok && (readiness matches Ok(ready) && ready
            is Ready),
        route is Direct ==> (strategy == RunStrategy::Direct || (strategy == RunStrategy::Adaptive
            && (readiness matches Ok(ready) && ready is Downgrade))) && checked is Ok,
        (strategy == RunStrategy::DeclarativePlan || strategy == RunStrategy::Adaptive) && checked
            is Ok && (readiness matches Ok(ready) && ready is Ready) ==> route is Plan,
        strategy == RunStrategy::Direct && checked is Ok ==> route is Direct,
        strategy == RunStrategy::Adaptive && checked is Ok && (readiness matches Ok(ready) && ready
            is Downgrade) ==> route is Direct,
        strategy == RunStrategy::DeclarativePlan && (readiness matches Ok(ready) && ready
            is Downgrade) ==> route is Refuse || checked is Err,
        strategy == RunStrategy::Programmatic ==> route is Refuse,
        route matches Route::Direct(told) ==> told.requested == strategy && (told.fallback is Some
            <==> strategy == RunStrategy::Adaptive),
        strategy != RunStrategy::Programmatic ==> (checked matches Err(fault) ==> (fault is Cancelled
            || fault is TimedOut <==> route is EndBeforeEvents)),
{
}

/// Planning takes two model calls, and a provider that takes tools and structured plans and has room
/// for them; where all of that is there nothing stands in the way.
pub proof fn plans_need_room(request: &RunRequest, capabilities: ModelCapabilities)
    ensures
        planning_obstacle(request, capabilities) is None <==> request.agent.limits.max_model_calls
            >= 2 && capabilities.supports_tools && capabilities.supports_structured_plans && (
        capabilities.limits.max_plan_nodes matches Some(nodes) ==> nodes > 0) && (
        capabilities.limits.max_plan_bytes matches Some(bytes) ==> bytes > 0),
{
}

} // verus!
