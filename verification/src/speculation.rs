//! Shadow-first speculation: when a tool may run before its model response is complete.

use crate::error::HarnessError;
use crate::limits::check_view;
use crate::text::same_text;
use vstd::prelude::*;

verus! {

/// Minimum exact same-runner shadow observations required before activation.
pub const MIN_SPECULATION_SHADOW_OBSERVATIONS: u64 = 1_000;

/// Immutable ceiling for one speculative candidate lifetime, in milliseconds.
pub const HARD_MAX_SPECULATION_DURATION_MS: u64 = 5_000;

/// Immutable ceiling for stream events processed in one speculative model turn.
pub const HARD_MAX_SPECULATION_STREAM_EVENTS: u32 = 4_096;

/// Explicit host opt-in and conservative bounds for speculative execution.
#[derive(Clone, Copy, Debug, PartialEq, Eq, Structural)]
pub struct SpeculationConfig {
    /// Maximum issue-to-commit lifetime of one candidate, in milliseconds.
    pub max_execution_duration_ms: u64,
    /// Exact consecutive shadow observations required before activation.
    pub required_shadow_observations: u64,
    /// Maximum provider stream events processed in one speculative model turn.
    pub max_stream_events: u32,
}

impl Default for SpeculationConfig {
    fn default() -> (result: SpeculationConfig)
        ensures
            result == (SpeculationConfig {
                max_execution_duration_ms: 1_000,
                required_shadow_observations: 1_000,
                max_stream_events: 1_024,
            }),
    {
        SpeculationConfig {
            max_execution_duration_ms: 1_000,
            required_shadow_observations: MIN_SPECULATION_SHADOW_OBSERVATIONS,
            max_stream_events: 1_024,
        }
    }
}

impl SpeculationConfig {
    /// What validation answers.
    pub open spec fn check(self) -> Result<(), HarnessError<Seq<char>>> {
        if !(1 <= self.max_execution_duration_ms <= HARD_MAX_SPECULATION_DURATION_MS) {
            Err(
                HarnessError::InvalidRequest(
                    "speculation duration must be within 1..=5000 milliseconds"@,
                ),
            )
        } else if self.required_shadow_observations < MIN_SPECULATION_SHADOW_OBSERVATIONS {
            Err(
                HarnessError::InvalidRequest(
                    "speculation requires at least 1000 shadow observations"@,
                ),
            )
        } else if !(1 <= self.max_stream_events <= HARD_MAX_SPECULATION_STREAM_EVENTS) {
            Err(
                HarnessError::InvalidRequest(
                    "speculation stream events must be within 1..=4096"@,
                ),
            )
        } else {
            Ok(())
        }
    }

    /// Validates the bounds.
    pub fn validate(&self) -> (result: Result<(), HarnessError>)
        ensures
            check_view(result) == self.check(),
    {
        if self.max_execution_duration_ms == 0 || self.max_execution_duration_ms
            > HARD_MAX_SPECULATION_DURATION_MS {
            return Err(
                HarnessError::InvalidRequest(
                    "speculation duration must be within 1..=5000 milliseconds".to_owned(),
                ),
            );
        }
        if self.required_shadow_observations < MIN_SPECULATION_SHADOW_OBSERVATIONS {
            return Err(
                HarnessError::InvalidRequest(
                    "speculation requires at least 1000 shadow observations".to_owned(),
                ),
            );
        }
        if self.max_stream_events == 0 || self.max_stream_events
            > HARD_MAX_SPECULATION_STREAM_EVENTS {
            return Err(
                HarnessError::InvalidRequest(
                    "speculation stream events must be within 1..=4096".to_owned(),
                ),
            );
        }
        Ok(())
    }
}

/// Current per-tool speculative execution mode.
#[derive(Clone, Copy, Debug, PartialEq, Eq, Structural)]
#[non_exhaustive]
pub enum SpeculationMode {
    /// The runner or requested tool has no eligible host-owned speculation state.
    Disabled,
    /// Candidates are compared with authoritative responses but never executed.
    Shadow,
    /// Eligible candidates may execute before the authoritative stream completes.
    Active,
}

/// Current same-runner evidence for one tool's explicit activation decision.
///
/// `S` is the text: `String` in running code, a sequence of characters in contracts.
#[derive(Clone, Debug, PartialEq, Eq)]
#[non_exhaustive]
pub struct SpeculationReadiness<S = String> {
    /// Registered tool identifier whose state was queried.
    pub tool_id: S,
    /// Current per-tool mode.
    pub mode: SpeculationMode,
    /// Consecutive exact shadow observations since this tool's last incident.
    pub exact_shadow_observations: u64,
    /// Exact shadow observations required by the host configuration.
    pub required_shadow_observations: u64,
    /// Whether an explicit activation request can currently enter active mode.
    pub ready_to_activate: bool,
}

impl View for SpeculationReadiness<String> {
    type V = SpeculationReadiness<Seq<char>>;

    open spec fn view(&self) -> SpeculationReadiness<Seq<char>> {
        SpeculationReadiness {
            tool_id: self.tool_id@,
            mode: self.mode,
            exact_shadow_observations: self.exact_shadow_observations,
            required_shadow_observations: self.required_shadow_observations,
            ready_to_activate: self.ready_to_activate,
        }
    }
}

/// The readiness of a tool without speculation state.
pub open spec fn disabled_readiness(tool_id: Seq<char>, required: u64) -> SpeculationReadiness<
    Seq<char>,
> {
    SpeculationReadiness {
        tool_id,
        mode: SpeculationMode::Disabled,
        exact_shadow_observations: 0,
        required_shadow_observations: required,
        ready_to_activate: false,
    }
}

impl SpeculationReadiness {
    /// The readiness of a tool of a runner without speculation.
    pub fn disabled(tool_id: &str) -> (result: SpeculationReadiness)
        ensures
            result@ == disabled_readiness(tool_id@, MIN_SPECULATION_SHADOW_OBSERVATIONS),
    {
        SpeculationReadiness::disabled_with_required(tool_id, MIN_SPECULATION_SHADOW_OBSERVATIONS)
    }

    fn disabled_with_required(tool_id: &str, required_shadow_observations: u64) -> (result:
        SpeculationReadiness)
        ensures
            result@ == disabled_readiness(tool_id@, required_shadow_observations),
    {
        SpeculationReadiness {
            tool_id: tool_id.to_owned(),
            mode: SpeculationMode::Disabled,
            exact_shadow_observations: 0,
            required_shadow_observations,
            ready_to_activate: false,
        }
    }
}

/// One more, unless the counter is full.
pub open spec fn counted(value: u64) -> u64 {
    if value == u64::MAX {
        value
    } else {
        (value + 1) as u64
    }
}

/// Inclusive upper bound, in milliseconds, of a cumulative bucket.
pub open spec fn bucket_bound(bucket: int) -> u64 {
    if bucket == 0 {
        1
    } else if bucket == 1 {
        5
    } else if bucket == 2 {
        10
    } else if bucket == 3 {
        25
    } else if bucket == 4 {
        50
    } else if bucket == 5 {
        100
    } else if bucket == 6 {
        250
    } else if bucket == 7 {
        500
    } else if bucket == 8 {
        1_000
    } else if bucket == 9 {
        2_500
    } else {
        5_000
    }
}

fn bound_of(bucket: usize) -> (result: u64)
    ensures
        result == bucket_bound(bucket as int),
{
    match bucket {
        0 => 1,
        1 => 5,
        2 => 10,
        3 => 25,
        4 => 50,
        5 => 100,
        6 => 250,
        7 => 500,
        8 => 1_000,
        9 => 2_500,
        _ => 5_000,
    }
}

/// Fixed-memory, value-free latency aggregate for speculative execution.
#[derive(Clone, Copy, Debug, PartialEq, Eq)]
#[non_exhaustive]
pub struct SpeculationLatencyHistogram {
    /// Number of recorded observations.
    pub count: u64,
    /// Saturating sum of all observed milliseconds.
    pub sum_ms: u64,
    /// Largest observed latency in milliseconds.
    pub max_ms: u64,
    /// Cumulative counts at the bucket bounds.
    pub cumulative_buckets: [u64; 11],
    /// Observations above the final 5,000 ms bucket.
    pub overflow: u64,
}

/// The model of a latency aggregate.
pub struct HistogramModel {
    /// Number of recorded observations.
    pub count: u64,
    /// Saturating sum of all observed milliseconds.
    pub sum_ms: u64,
    /// Largest observed latency in milliseconds.
    pub max_ms: u64,
    /// Cumulative counts at the bucket bounds.
    pub buckets: Seq<u64>,
    /// Observations above the last bucket.
    pub overflow: u64,
}

impl View for SpeculationLatencyHistogram {
    type V = HistogramModel;

    open spec fn view(&self) -> HistogramModel {
        HistogramModel {
            count: self.count,
            sum_ms: self.sum_ms,
            max_ms: self.max_ms,
            buckets: self.cumulative_buckets@,
            overflow: self.overflow,
        }
    }
}

/// An aggregate without observations.
pub open spec fn empty_histogram() -> HistogramModel {
    HistogramModel {
        count: 0,
        sum_ms: 0,
        max_ms: 0,
        buckets: Seq::new(11, |i: int| 0u64),
        overflow: 0,
    }
}

impl HistogramModel {
    /// The aggregate with one more observation.
    pub open spec fn observe(self, latency_ms: u64) -> HistogramModel {
        HistogramModel {
            count: counted(self.count),
            sum_ms: if self.sum_ms + latency_ms > u64::MAX {
                u64::MAX
            } else {
                (self.sum_ms + latency_ms) as u64
            },
            max_ms: if latency_ms > self.max_ms {
                latency_ms
            } else {
                self.max_ms
            },
            buckets: Seq::new(
                self.buckets.len(),
                |i: int|
                    if latency_ms <= bucket_bound(i) {
                        counted(self.buckets[i])
                    } else {
                        self.buckets[i]
                    },
            ),
            overflow: if latency_ms > 5_000 {
                counted(self.overflow)
            } else {
                self.overflow
            },
        }
    }

    /// The aggregate with an optional observation.
    pub open spec fn observe_option(self, latency_ms: Option<u64>) -> HistogramModel {
        match latency_ms {
            Some(latency) => self.observe(latency),
            None => self,
        }
    }

    /// Whether the buckets grow with their bounds and every observation is in the last
    /// bucket or above it.
    pub open spec fn coherent(self) -> bool {
        &&& self.buckets.len() == 11
        &&& forall|i: int, j: int|
            0 <= i <= j < 11 ==> #[trigger] self.buckets[i] <= #[trigger] self.buckets[j]
        &&& self.count == self.buckets[10] + self.overflow
    }
}

impl SpeculationLatencyHistogram {
    /// An aggregate without observations.
    pub fn new() -> (result: SpeculationLatencyHistogram)
        ensures
            result@ == empty_histogram(),
            result@.coherent(),
    {
        let result = SpeculationLatencyHistogram {
            count: 0,
            sum_ms: 0,
            max_ms: 0,
            cumulative_buckets: [0; 11],
            overflow: 0,
        };
        assert(result@.buckets =~= empty_histogram().buckets);
        result
    }

    /// Adds one observation.
    pub fn record(&mut self, latency_ms: u64)
        ensures
            final(self)@ == old(self)@.observe(latency_ms),
    {
        self.count = self.count.saturating_add(1);
        self.sum_ms = self.sum_ms.saturating_add(latency_ms);
        if latency_ms > self.max_ms {
            self.max_ms = latency_ms;
        }
        let before: Ghost<HistogramModel> = Ghost(old(self)@);
        let mut recorded = false;
        let mut i: usize = 0;
        while i < 11
            invariant
                i <= 11,
                recorded == (exists|j: int| 0 <= j < i && latency_ms <= #[trigger] bucket_bound(j)),
                before@.buckets.len() == 11,
                forall|j: int|
                    0 <= j < i ==> #[trigger] self.cumulative_buckets@[j] == if latency_ms
                        <= bucket_bound(j) {
                        counted(before@.buckets[j])
                    } else {
                        before@.buckets[j]
                    },
                forall|j: int|
                    i <= j < 11 ==> #[trigger] self.cumulative_buckets@[j] == before@.buckets[j],
                self.count == before@.observe(latency_ms).count,
                self.sum_ms == before@.observe(latency_ms).sum_ms,
                self.max_ms == before@.observe(latency_ms).max_ms,
                self.overflow == before@.overflow,
            decreases 11 - i,
        {
            if latency_ms <= bound_of(i) {
                let bucket = self.cumulative_buckets[i];
                self.cumulative_buckets[i] = bucket.saturating_add(1);
                recorded = true;
                assert(latency_ms <= bucket_bound(i as int));
            }
            i += 1;
        }
        assert(recorded == (latency_ms <= 5_000)) by {
            assert(bucket_bound(10) == 5_000);
        }
        if !recorded {
            self.overflow = self.overflow.saturating_add(1);
        }
        assert(self@.buckets =~= before@.observe(latency_ms).buckets);
    }
}

/// An aggregate that is not full stays coherent.
pub proof fn observations_stay_coherent(before: HistogramModel, latency_ms: u64)
    requires
        before.coherent(),
        before.count < u64::MAX,
    ensures
        before.observe(latency_ms).coherent(),
{
    let after = before.observe(latency_ms);
    assert forall|i: int, j: int| 0 <= i <= j < 11 implies #[trigger] after.buckets[i]
        <= #[trigger] after.buckets[j] by {
        assert(before.buckets[i] <= before.buckets[j]);
        assert(before.buckets[j] <= before.buckets[10]);
    }
    assert(bucket_bound(10) == 5_000);
}

/// Pull-only metadata counters for one tool's speculative execution state.
///
/// `S` is the text and `H` the latency aggregate: `String` and
/// `SpeculationLatencyHistogram` in running code, their models in contracts.
#[derive(Clone, Debug, PartialEq, Eq)]
#[non_exhaustive]
pub struct SpeculationMetrics<S = String, H = SpeculationLatencyHistogram> {
    /// Registered tool identifier whose state was queried.
    pub tool_id: S,
    /// Current per-tool mode.
    pub mode: SpeculationMode,
    /// Exact shadow candidates observed over the runner lifetime.
    pub shadow_matches: u64,
    /// Candidate/authoritative invocation mismatches.
    pub mismatches: u64,
    /// Candidate-bearing streams that failed before authoritative completion.
    pub terminal_stream_failures: u64,
    /// Speculative tool executions issued through the broker.
    pub issued: u64,
    /// Issued executions committed as the exact authoritative first call.
    pub committed: u64,
    /// Issued executions resolved but were not reusable.
    pub discarded: u64,
    /// Issued executions cancelled before a reusable result was available.
    pub cancelled: u64,
    /// Active candidates skipped because the runner-wide slot was occupied.
    pub slot_saturated: u64,
    /// Finalized, eligible index-zero calls considered while the tool was Active.
    pub active_candidates_considered: u64,
    /// Active candidates rejected by bounded validation before hidden policy.
    pub pre_issue_validation_skipped: u64,
    /// Active candidates denied by ordinary or dedicated hidden policy.
    pub pre_issue_policy_skipped: u64,
    /// Active preflight attempts that failed unexpectedly before dispatch.
    pub pre_issue_failed: u64,
    /// Active preflight attempts invalidated by live registry, mode, or metadata changes.
    pub pre_issue_invalidated: u64,
    /// Active preflight attempts stopped by cancellation or an absolute deadline.
    pub pre_issue_aborted: u64,
    /// Active candidates skipped because their tool concurrency key was unavailable.
    pub key_saturated: u64,
    /// Speculative tool executions currently between dispatch and terminal resolution.
    pub in_flight: u64,
    /// Age of the oldest dispatched candidate for this tool, in milliseconds.
    pub oldest_in_flight_ms: u64,
    /// Dispatch-to-tool-resolution latency using a fixed-memory histogram.
    pub execution_duration_ms: H,
    /// Successful-tool-resolution-to-terminal-publication latency histogram.
    pub publication_wait_ms: H,
}

impl View for SpeculationMetrics<String, SpeculationLatencyHistogram> {
    type V = SpeculationMetrics<Seq<char>, HistogramModel>;

    open spec fn view(&self) -> SpeculationMetrics<Seq<char>, HistogramModel> {
        SpeculationMetrics {
            tool_id: self.tool_id@,
            mode: self.mode,
            shadow_matches: self.shadow_matches,
            mismatches: self.mismatches,
            terminal_stream_failures: self.terminal_stream_failures,
            issued: self.issued,
            committed: self.committed,
            discarded: self.discarded,
            cancelled: self.cancelled,
            slot_saturated: self.slot_saturated,
            active_candidates_considered: self.active_candidates_considered,
            pre_issue_validation_skipped: self.pre_issue_validation_skipped,
            pre_issue_policy_skipped: self.pre_issue_policy_skipped,
            pre_issue_failed: self.pre_issue_failed,
            pre_issue_invalidated: self.pre_issue_invalidated,
            pre_issue_aborted: self.pre_issue_aborted,
            key_saturated: self.key_saturated,
            in_flight: self.in_flight,
            oldest_in_flight_ms: self.oldest_in_flight_ms,
            execution_duration_ms: self.execution_duration_ms@,
            publication_wait_ms: self.publication_wait_ms@,
        }
    }
}

/// Counters in which nothing was counted.
pub open spec fn fresh_metrics(tool_id: Seq<char>, mode: SpeculationMode) -> SpeculationMetrics<
    Seq<char>,
    HistogramModel,
> {
    SpeculationMetrics {
        tool_id,
        mode,
        shadow_matches: 0,
        mismatches: 0,
        terminal_stream_failures: 0,
        issued: 0,
        committed: 0,
        discarded: 0,
        cancelled: 0,
        slot_saturated: 0,
        active_candidates_considered: 0,
        pre_issue_validation_skipped: 0,
        pre_issue_policy_skipped: 0,
        pre_issue_failed: 0,
        pre_issue_invalidated: 0,
        pre_issue_aborted: 0,
        key_saturated: 0,
        in_flight: 0,
        oldest_in_flight_ms: 0,
        execution_duration_ms: empty_histogram(),
        publication_wait_ms: empty_histogram(),
    }
}

impl SpeculationMetrics<Seq<char>, HistogramModel> {
    /// Whether every issued execution is in flight or has one outcome.
    pub open spec fn balanced(self) -> bool {
        self.issued == self.in_flight + self.committed + self.discarded + self.cancelled
    }
}

impl SpeculationMetrics {
    fn fresh(tool_id: &str, mode: SpeculationMode) -> (result: SpeculationMetrics)
        ensures
            result@ == fresh_metrics(tool_id@, mode),
    {
        SpeculationMetrics {
            tool_id: tool_id.to_owned(),
            mode,
            shadow_matches: 0,
            mismatches: 0,
            terminal_stream_failures: 0,
            issued: 0,
            committed: 0,
            discarded: 0,
            cancelled: 0,
            slot_saturated: 0,
            active_candidates_considered: 0,
            pre_issue_validation_skipped: 0,
            pre_issue_policy_skipped: 0,
            pre_issue_failed: 0,
            pre_issue_invalidated: 0,
            pre_issue_aborted: 0,
            key_saturated: 0,
            in_flight: 0,
            oldest_in_flight_ms: 0,
            execution_duration_ms: SpeculationLatencyHistogram::new(),
            publication_wait_ms: SpeculationLatencyHistogram::new(),
        }
    }

    /// The counters of a tool of a runner without speculation.
    pub fn disabled(tool_id: &str) -> (result: SpeculationMetrics)
        ensures
            result@ == fresh_metrics(tool_id@, SpeculationMode::Disabled),
    {
        SpeculationMetrics::fresh(tool_id, SpeculationMode::Disabled)
    }

    fn copy(&self) -> (result: SpeculationMetrics)
        ensures
            result@ == self@,
    {
        SpeculationMetrics {
            tool_id: self.tool_id.clone(),
            mode: self.mode,
            shadow_matches: self.shadow_matches,
            mismatches: self.mismatches,
            terminal_stream_failures: self.terminal_stream_failures,
            issued: self.issued,
            committed: self.committed,
            discarded: self.discarded,
            cancelled: self.cancelled,
            slot_saturated: self.slot_saturated,
            active_candidates_considered: self.active_candidates_considered,
            pre_issue_validation_skipped: self.pre_issue_validation_skipped,
            pre_issue_policy_skipped: self.pre_issue_policy_skipped,
            pre_issue_failed: self.pre_issue_failed,
            pre_issue_invalidated: self.pre_issue_invalidated,
            pre_issue_aborted: self.pre_issue_aborted,
            key_saturated: self.key_saturated,
            in_flight: self.in_flight,
            oldest_in_flight_ms: self.oldest_in_flight_ms,
            execution_duration_ms: self.execution_duration_ms,
            publication_wait_ms: self.publication_wait_ms,
        }
    }
}

/// How an issued execution ended without being committed.
#[derive(Clone, Copy, Debug, PartialEq, Eq, Structural)]
pub enum SpeculativeResolution {
    /// Its result was not reusable.
    Discarded,
    /// It was cancelled.
    Cancelled,
}

/// Why an active candidate was not issued.
#[derive(Clone, Copy, Debug, PartialEq, Eq, Structural)]
pub enum PreIssueSkipReason {
    /// Bounded validation.
    Validation,
    /// Policy.
    Policy,
    /// An unexpected failure.
    Failed,
    /// A change of registry, mode or metadata.
    Invalidated,
    /// Cancellation or a deadline.
    Aborted,
    /// The tool's concurrency key was held.
    KeySaturated,
}

/// Speculation state of one tool.
pub struct ToolState {
    /// Current mode.
    pub mode: SpeculationMode,
    /// Consecutive exact shadow observations since the last incident.
    pub exact_shadow_observations: u64,
    /// The counters.
    pub metrics: SpeculationMetrics,
    /// When the oldest execution in flight was dispatched, in milliseconds.
    pub in_flight_started: Option<u64>,
}

/// The model of one tool's speculation state.
pub struct ToolModel {
    /// Current mode.
    pub mode: SpeculationMode,
    /// Consecutive exact shadow observations since the last incident.
    pub exact_shadow_observations: u64,
    /// The counters.
    pub metrics: SpeculationMetrics<Seq<char>, HistogramModel>,
    /// When the oldest execution in flight was dispatched, in milliseconds.
    pub in_flight_started: Option<u64>,
}

impl View for ToolState {
    type V = ToolModel;

    open spec fn view(&self) -> ToolModel {
        ToolModel {
            mode: self.mode,
            exact_shadow_observations: self.exact_shadow_observations,
            metrics: self.metrics@,
            in_flight_started: self.in_flight_started,
        }
    }
}

impl ToolModel {
    /// Whether an explicit request may activate the tool: enough exact observations in
    /// shadow mode, and no incident ever.
    pub open spec fn ready(self, config: SpeculationConfig) -> bool {
        &&& self.mode == SpeculationMode::Shadow
        &&& self.exact_shadow_observations >= config.required_shadow_observations
        &&& self.metrics.mismatches == 0
        &&& self.metrics.terminal_stream_failures == 0
        &&& self.metrics.discarded == 0
        &&& self.metrics.cancelled == 0
    }

    /// The state in shadow mode, with its observations forgotten.
    pub open spec fn tripped(self) -> ToolModel {
        ToolModel {
            mode: SpeculationMode::Shadow,
            exact_shadow_observations: 0,
            metrics: SpeculationMetrics { mode: SpeculationMode::Shadow, ..self.metrics },
            ..self
        }
    }

    /// The state after an activation request.
    pub open spec fn activated(self, config: SpeculationConfig) -> ToolModel {
        if self.ready(config) {
            ToolModel {
                mode: SpeculationMode::Active,
                metrics: SpeculationMetrics { mode: SpeculationMode::Active, ..self.metrics },
                ..self
            }
        } else {
            self
        }
    }

    /// The state after an exact shadow match.
    pub open spec fn shadow_matched(self) -> ToolModel {
        ToolModel {
            exact_shadow_observations: counted(self.exact_shadow_observations),
            metrics: SpeculationMetrics {
                shadow_matches: counted(self.metrics.shadow_matches),
                ..self.metrics
            },
            ..self
        }
    }

    /// The state after a mismatch.
    pub open spec fn mismatched(self) -> ToolModel {
        ToolModel {
            metrics: SpeculationMetrics {
                mismatches: counted(self.metrics.mismatches),
                ..self.metrics
            },
            ..self
        }.tripped()
    }

    /// The state after a candidate-bearing stream failed.
    pub open spec fn stream_failed(self) -> ToolModel {
        ToolModel {
            metrics: SpeculationMetrics {
                terminal_stream_failures: counted(self.metrics.terminal_stream_failures),
                ..self.metrics
            },
            ..self
        }.tripped()
    }

    /// The state after a candidate found the runner-wide slot occupied.
    pub open spec fn slot_occupied(self) -> ToolModel {
        ToolModel {
            metrics: SpeculationMetrics {
                slot_saturated: counted(self.metrics.slot_saturated),
                ..self.metrics
            },
            ..self
        }
    }

    /// The state after a candidate was considered in active mode.
    pub open spec fn considered(self) -> ToolModel {
        ToolModel {
            metrics: SpeculationMetrics {
                active_candidates_considered: counted(self.metrics.active_candidates_considered),
                ..self.metrics
            },
            ..self
        }
    }

    /// The state after a candidate was skipped before it was issued.
    pub open spec fn skipped(self, reason: PreIssueSkipReason) -> ToolModel {
        let m = self.metrics;
        ToolModel {
            metrics: match reason {
                PreIssueSkipReason::Validation => SpeculationMetrics {
                    pre_issue_validation_skipped: counted(m.pre_issue_validation_skipped),
                    ..m
                },
                PreIssueSkipReason::Policy => SpeculationMetrics {
                    pre_issue_policy_skipped: counted(m.pre_issue_policy_skipped),
                    ..m
                },
                PreIssueSkipReason::Failed => SpeculationMetrics {
                    pre_issue_failed: counted(m.pre_issue_failed),
                    ..m
                },
                PreIssueSkipReason::Invalidated => SpeculationMetrics {
                    pre_issue_invalidated: counted(m.pre_issue_invalidated),
                    ..m
                },
                PreIssueSkipReason::Aborted => SpeculationMetrics {
                    pre_issue_aborted: counted(m.pre_issue_aborted),
                    ..m
                },
                PreIssueSkipReason::KeySaturated => SpeculationMetrics {
                    key_saturated: counted(m.key_saturated),
                    ..m
                },
            },
            ..self
        }
    }

    /// The state after an execution was dispatched at `started`.
    pub open spec fn issued(self, started: u64) -> ToolModel {
        ToolModel {
            metrics: SpeculationMetrics {
                issued: counted(self.metrics.issued),
                in_flight: counted(self.metrics.in_flight),
                ..self.metrics
            },
            in_flight_started: Some(
                match self.in_flight_started {
                    Some(current) => if current < started {
                        current
                    } else {
                        started
                    },
                    None => started,
                },
            ),
            ..self
        }
    }

    /// One execution less in flight.
    pub open spec fn landed(self) -> ToolModel {
        let in_flight = if self.metrics.in_flight == 0 {
            0
        } else {
            (self.metrics.in_flight - 1) as u64
        };
        ToolModel {
            metrics: SpeculationMetrics { in_flight, ..self.metrics },
            in_flight_started: if in_flight == 0 {
                None
            } else {
                self.in_flight_started
            },
            ..self
        }
    }

    /// The state after an execution was not committed.
    pub open spec fn resolved(
        self,
        resolution: SpeculativeResolution,
        wait_ms: Option<u64>,
    ) -> ToolModel {
        let landed = self.landed();
        let m = SpeculationMetrics {
            publication_wait_ms: landed.metrics.publication_wait_ms.observe_option(wait_ms),
            ..landed.metrics
        };
        ToolModel {
            metrics: match resolution {
                SpeculativeResolution::Discarded => SpeculationMetrics {
                    discarded: counted(m.discarded),
                    ..m
                },
                SpeculativeResolution::Cancelled => SpeculationMetrics {
                    cancelled: counted(m.cancelled),
                    ..m
                },
            },
            ..landed
        }.tripped()
    }

    /// The state after an execution was committed.
    pub open spec fn committed(self, wait_ms: Option<u64>) -> ToolModel {
        let landed = self.landed();
        ToolModel {
            metrics: SpeculationMetrics {
                committed: counted(landed.metrics.committed),
                publication_wait_ms: landed.metrics.publication_wait_ms.observe_option(wait_ms),
                ..landed.metrics
            },
            ..landed
        }
    }

    /// The state after an execution took `duration_ms`.
    pub open spec fn executed(self, duration_ms: u64) -> ToolModel {
        ToolModel {
            metrics: SpeculationMetrics {
                execution_duration_ms: self.metrics.execution_duration_ms.observe(duration_ms),
                ..self.metrics
            },
            ..self
        }
    }
}

/// The state of a tool that was just registered.
pub open spec fn fresh_tool(tool_id: Seq<char>) -> ToolModel {
    ToolModel {
        mode: SpeculationMode::Shadow,
        exact_shadow_observations: 0,
        metrics: fresh_metrics(tool_id, SpeculationMode::Shadow),
        in_flight_started: None,
    }
}

/// After any incident, a tool cannot be activated again, however many exact observations
/// follow: a mismatch, a failed stream, or an execution that was not committed.
pub proof fn incidents_bar_activation(
    state: ToolModel,
    config: SpeculationConfig,
    resolution: SpeculativeResolution,
    wait_ms: Option<u64>,
)
    ensures
        !state.mismatched().ready(config) && state.mismatched().mode == SpeculationMode::Shadow,
        !state.stream_failed().ready(config) && state.stream_failed().mode
            == SpeculationMode::Shadow,
        !state.resolved(resolution, wait_ms).ready(config) && state.resolved(resolution, wait_ms).mode
            == SpeculationMode::Shadow,
        state.metrics.mismatches > 0 ==> !state.shadow_matched().ready(config)
            && state.shadow_matched().metrics.mismatches > 0,
        state.metrics.terminal_stream_failures > 0 ==> !state.shadow_matched().ready(config)
            && state.shadow_matched().metrics.terminal_stream_failures > 0,
        state.metrics.discarded > 0 ==> !state.shadow_matched().ready(config)
            && state.shadow_matched().metrics.discarded > 0,
        state.metrics.cancelled > 0 ==> !state.shadow_matched().ready(config)
            && state.shadow_matched().metrics.cancelled > 0,
{
}

/// A tool becomes active only on a request, and only when it is ready.
pub proof fn only_ready_tools_activate(state: ToolModel, config: SpeculationConfig, started: u64)
    requires
        state.mode != SpeculationMode::Active,
    ensures
        state.activated(config).mode == SpeculationMode::Active <==> state.ready(config),
        state.shadow_matched().mode != SpeculationMode::Active,
        state.mismatched().mode != SpeculationMode::Active,
        state.stream_failed().mode != SpeculationMode::Active,
        state.considered().mode != SpeculationMode::Active,
        state.slot_occupied().mode != SpeculationMode::Active,
        state.issued(started).mode != SpeculationMode::Active,
{
}

/// Every issued execution is in flight or has exactly one outcome, whatever happens to it.
pub proof fn executions_stay_balanced(
    state: ToolModel,
    started: u64,
    resolution: SpeculativeResolution,
    wait_ms: Option<u64>,
)
    requires
        state.metrics.balanced(),
        state.metrics.issued < u64::MAX,
    ensures
        state.issued(started).metrics.balanced(),
        state.metrics.in_flight > 0 ==> state.resolved(resolution, wait_ms).metrics.balanced(),
        state.metrics.in_flight > 0 ==> state.committed(wait_ms).metrics.balanced(),
        state.tripped().metrics.balanced(),
{
}

/// The views of tool states.
pub open spec fn states_view(states: Seq<ToolState>) -> Seq<ToolModel> {
    states.map_values(|state: ToolState| state@)
}

/// The position of the state of `tool_id`, from `start` on.
pub open spec fn state_position(states: Seq<ToolModel>, tool_id: Seq<char>, start: nat) -> Option<
    nat,
>
    decreases states.len() - start,
{
    if start >= states.len() {
        None
    } else if states[start as int].metrics.tool_id == tool_id {
        Some(start)
    } else {
        state_position(states, tool_id, start + 1)
    }
}

/// The model of a controller.
pub struct ControllerModel {
    /// The configuration.
    pub config: SpeculationConfig,
    /// The states of the registered tools.
    pub tools: Seq<ToolModel>,
}

impl ControllerModel {
    /// The state of one tool.
    pub open spec fn state(self, tool_id: Seq<char>) -> Option<ToolModel> {
        match state_position(self.tools, tool_id, 0) {
            Some(position) => Some(self.tools[position as int]),
            None => None,
        }
    }

    /// The controller with the state of one tool replaced; unchanged where it has none.
    pub open spec fn with_state(self, tool_id: Seq<char>, state: ToolModel) -> ControllerModel {
        match state_position(self.tools, tool_id, 0) {
            Some(position) => ControllerModel {
                tools: self.tools.update(position as int, state),
                ..self
            },
            None => self,
        }
    }

    /// The controller with a tool registered; one that has a state keeps it.
    pub open spec fn with_tool(self, tool_id: Seq<char>) -> ControllerModel {
        match self.state(tool_id) {
            Some(_) => self,
            None => ControllerModel { tools: self.tools.push(fresh_tool(tool_id)), ..self },
        }
    }

    /// The mode of one tool.
    pub open spec fn mode(self, tool_id: Seq<char>) -> SpeculationMode {
        match self.state(tool_id) {
            Some(state) => state.mode,
            None => SpeculationMode::Disabled,
        }
    }

    /// The counters of a tool at `now_ms`.
    pub open spec fn metrics_at(self, tool_id: Seq<char>, now_ms: u64) -> SpeculationMetrics<
        Seq<char>,
        HistogramModel,
    > {
        match self.state(tool_id) {
            Some(state) => SpeculationMetrics {
                mode: state.mode,
                oldest_in_flight_ms: match state.in_flight_started {
                    Some(started) => if started < now_ms {
                        (now_ms - started) as u64
                    } else {
                        0
                    },
                    None => 0,
                },
                ..state.metrics
            },
            None => fresh_metrics(tool_id, SpeculationMode::Disabled),
        }
    }

    /// The controller once a tool was asked to activate.
    pub open spec fn activation(self, tool_id: Seq<char>) -> ControllerModel {
        match self.state(tool_id) {
            Some(state) => self.with_state(tool_id, state.activated(self.config)),
            None => self,
        }
    }

    /// The readiness that is reported of a tool once it was returned to shadow mode.
    pub open spec fn shadow_readiness(self, tool_id: Seq<char>) -> SpeculationReadiness<
        Seq<char>,
    > {
        SpeculationReadiness {
            mode: if self.state(tool_id) is Some {
                SpeculationMode::Shadow
            } else {
                SpeculationMode::Disabled
            },
            ..disabled_readiness(tool_id, self.config.required_shadow_observations)
        }
    }

    /// The controller once a tool was returned to shadow mode.
    pub open spec fn shadowed(self, tool_id: Seq<char>) -> ControllerModel {
        match self.state(tool_id) {
            Some(state) => self.with_state(tool_id, state.tripped()),
            None => self,
        }
    }

    /// The readiness of one tool.
    pub open spec fn readiness(self, tool_id: Seq<char>) -> SpeculationReadiness<Seq<char>> {
        match self.state(tool_id) {
            Some(state) => SpeculationReadiness {
                tool_id,
                mode: state.mode,
                exact_shadow_observations: state.exact_shadow_observations,
                required_shadow_observations: self.config.required_shadow_observations,
                ready_to_activate: state.ready(self.config),
            },
            None => disabled_readiness(tool_id, self.config.required_shadow_observations),
        }
    }
}

proof fn state_position_bounds(states: Seq<ToolModel>, tool_id: Seq<char>, start: nat)
    ensures
        match state_position(states, tool_id, start) {
            Some(position) => start <= position < states.len()
                && states[position as int].metrics.tool_id == tool_id && (forall|i: int|
                start <= i < position ==> (#[trigger] states[i]).metrics.tool_id != tool_id),
            None => forall|i: int|
                start <= i < states.len() ==> (#[trigger] states[i]).metrics.tool_id != tool_id,
        },
    decreases states.len() - start,
{
    if start < states.len() && states[start as int].metrics.tool_id != tool_id {
        state_position_bounds(states, tool_id, start + 1);
    }
}

proof fn state_position_at(states: Seq<ToolModel>, tool_id: Seq<char>, start: nat, position: nat)
    requires
        start <= position < states.len(),
        states[position as int].metrics.tool_id == tool_id,
        forall|i: int| start <= i < position ==> (#[trigger] states[i]).metrics.tool_id != tool_id,
    ensures
        state_position(states, tool_id, start) == Some(position),
    decreases states.len() - start,
{
    if start < position {
        state_position_at(states, tool_id, start + 1, position);
    }
}

proof fn state_position_none(states: Seq<ToolModel>, tool_id: Seq<char>, start: nat)
    requires
        forall|i: int| start <= i < states.len() ==> (#[trigger] states[i]).metrics.tool_id != tool_id,
    ensures
        state_position(states, tool_id, start) is None,
    decreases states.len() - start,
{
    if start < states.len() {
        state_position_none(states, tool_id, start + 1);
    }
}

/// What happens to one tool leaves every other tool as it was.
pub proof fn states_are_scoped_per_tool(
    controller: ControllerModel,
    tool_id: Seq<char>,
    state: ToolModel,
    other: Seq<char>,
)
    requires
        state.metrics.tool_id == tool_id,
        other != tool_id,
    ensures
        controller.with_state(tool_id, state).state(other) == controller.state(other),
        controller.state(tool_id) is Some ==> controller.with_state(tool_id, state).state(tool_id)
            == Some(state),
{
    let states = controller.tools;
    let next = controller.with_state(tool_id, state).tools;
    state_position_bounds(states, tool_id, 0);
    state_position_bounds(states, other, 0);
    if let Some(position) = state_position(states, tool_id, 0) {
        assert forall|i: int| 0 <= i < position implies (#[trigger] next[i]).metrics.tool_id
            != tool_id by {
            assert(next[i] == states[i]);
        }
        state_position_at(next, tool_id, 0, position);
        match state_position(states, other, 0) {
            Some(there) => {
                assert forall|i: int| 0 <= i < there implies (#[trigger] next[i]).metrics.tool_id
                    != other by {
                    if i != position {
                        assert(next[i] == states[i]);
                    }
                }
                assert(next[there as int] == states[there as int]);
                state_position_at(next, other, 0, there);
            },
            None => {
                assert forall|i: int| 0 <= i < next.len() implies (#[trigger] next[i]).metrics.tool_id
                    != other by {
                    if i != position {
                        assert(next[i] == states[i]);
                    }
                }
                state_position_none(next, other, 0);
            },
        }
    }
}

/// Decides, tool by tool, whether candidates are only compared or also executed.
pub struct SpeculationController {
    config: SpeculationConfig,
    tools: Vec<ToolState>,
}

impl View for SpeculationController {
    type V = ControllerModel;

    closed spec fn view(&self) -> ControllerModel {
        ControllerModel { config: self.config, tools: states_view(self.tools@) }
    }
}

impl SpeculationController {
    /// A controller without tools.
    pub fn new(config: SpeculationConfig) -> (result: SpeculationController)
        ensures
            result@ == (ControllerModel { config, tools: Seq::empty() }),
    {
        let result = SpeculationController { config, tools: Vec::new() };
        assert(result@.tools =~= Seq::empty());
        result
    }

    /// The configuration.
    pub fn config(&self) -> (result: SpeculationConfig)
        ensures
            result == self@.config,
    {
        self.config
    }

    fn position_of(&self, tool_id: &str) -> (result: Option<usize>)
        ensures
            match result {
                Some(position) => state_position(self@.tools, tool_id@, 0) == Some(position as nat)
                    && position < self.tools@.len(),
                None => state_position(self@.tools, tool_id@, 0) is None,
            },
    {
        let mut i: usize = 0;
        while i < self.tools.len()
            invariant
                i <= self.tools@.len(),
                state_position(self@.tools, tool_id@, 0) == state_position(
                    self@.tools,
                    tool_id@,
                    i as nat,
                ),
            decreases self.tools@.len() - i,
        {
            assert(self@.tools[i as int] == self.tools@[i as int]@);
            if same_text(self.tools[i].metrics.tool_id.as_str(), tool_id) {
                return Some(i);
            }
            i += 1;
        }
        None
    }

    /// Gives a registered tool its state, in shadow mode; a tool that has one keeps it.
    pub fn register_tool(&mut self, tool_id: &str)
        ensures
            final(self)@ == old(self)@.with_tool(tool_id@),
    {
        if self.position_of(tool_id).is_none() {
            let ghost before = self@.tools;
            let state = ToolState {
                mode: SpeculationMode::Shadow,
                exact_shadow_observations: 0,
                metrics: SpeculationMetrics::fresh(tool_id, SpeculationMode::Shadow),
                in_flight_started: None,
            };
            self.tools.push(state);
            assert(self@.tools =~= before.push(state@));
        }
    }

    fn write(&mut self, position: usize, state: ToolState)
        requires
            position < old(self)@.tools.len(),
        ensures
            final(self)@ == (ControllerModel {
                tools: old(self)@.tools.update(position as int, state@),
                ..old(self)@
            }),
    {
        let ghost before = self@.tools;
        self.tools.set(position, state);
        assert(self@.tools =~= before.update(position as int, state@));
    }

    fn read(&self, position: usize) -> (result: ToolState)
        requires
            position < self@.tools.len(),
        ensures
            result@ == self@.tools[position as int],
    {
        let state = &self.tools[position];
        ToolState {
            mode: state.mode,
            exact_shadow_observations: state.exact_shadow_observations,
            metrics: state.metrics.copy(),
            in_flight_started: state.in_flight_started,
        }
    }

    /// The readiness of one tool.
    pub fn readiness(&self, tool_id: &str) -> (result: SpeculationReadiness)
        ensures
            result@ == self@.readiness(tool_id@),
    {
        match self.position_of(tool_id) {
            Some(position) => {
                let state = self.read(position);
                SpeculationReadiness {
                    tool_id: tool_id.to_owned(),
                    mode: state.mode,
                    exact_shadow_observations: state.exact_shadow_observations,
                    required_shadow_observations: self.config.required_shadow_observations,
                    ready_to_activate: state.is_ready(&self.config),
                }
            },
            None => SpeculationReadiness::disabled_with_required(
                tool_id,
                self.config.required_shadow_observations,
            ),
        }
    }

    /// The counters of one tool at `now_ms`.
    pub fn metrics(&self, tool_id: &str, now_ms: u64) -> (result: SpeculationMetrics)
        ensures
            result@ == self@.metrics_at(tool_id@, now_ms),
    {
        match self.position_of(tool_id) {
            Some(position) => {
                let state = self.read(position);
                let mut metrics = state.metrics;
                metrics.mode = state.mode;
                metrics.oldest_in_flight_ms = match state.in_flight_started {
                    Some(started) => now_ms.saturating_sub(started),
                    None => 0,
                };
                metrics
            },
            None => SpeculationMetrics::disabled(tool_id),
        }
    }

    /// Activates one tool if it is ready, and reports its readiness then.
    pub fn activate(&mut self, tool_id: &str) -> (result: SpeculationReadiness)
        ensures
            final(self)@ == old(self)@.activation(tool_id@),
            result@ == final(self)@.readiness(tool_id@),
    {
        if let Some(position) = self.position_of(tool_id) {
            let mut state = self.read(position);
            proof {
                state_position_bounds(self@.tools, tool_id@, 0);
            }
            if state.is_ready(&self.config) {
                state.mode = SpeculationMode::Active;
                state.metrics.mode = SpeculationMode::Active;
            }
            let ghost before = self@;
            self.write(position, state);
            proof {
                let next = self@.tools;
                assert forall|i: int| 0 <= i < position implies (
                #[trigger] next[i]).metrics.tool_id != tool_id@ by {
                    assert(next[i] == before.tools[i]);
                }
                state_position_at(next, tool_id@, 0, position as nat);
            }
        }
        self.readiness(tool_id)
    }

    /// Returns one tool to shadow mode and forgets its observations.
    pub fn return_to_shadow(&mut self, tool_id: &str) -> (result: SpeculationReadiness)
        ensures
            final(self)@ == old(self)@.shadowed(tool_id@),
            result@ == old(self)@.shadow_readiness(tool_id@),
    {
        match self.position_of(tool_id) {
            Some(position) => {
                let mut state = self.read(position);
                state.trip();
                self.write(position, state);
                SpeculationReadiness {
                    tool_id: tool_id.to_owned(),
                    mode: SpeculationMode::Shadow,
                    exact_shadow_observations: 0,
                    required_shadow_observations: self.config.required_shadow_observations,
                    ready_to_activate: false,
                }
            },
            None => SpeculationReadiness::disabled_with_required(
                tool_id,
                self.config.required_shadow_observations,
            ),
        }
    }

    /// The mode of one tool.
    pub fn mode(&self, tool_id: &str) -> (result: SpeculationMode)
        ensures
            result == self@.mode(tool_id@),
    {
        match self.position_of(tool_id) {
            Some(position) => self.tools[position].mode,
            None => SpeculationMode::Disabled,
        }
    }

    /// Whether one tool is active.
    pub fn is_active(&self, tool_id: &str) -> (result: bool)
        ensures
            result == (self@.mode(tool_id@) == SpeculationMode::Active),
    {
        self.mode(tool_id) == SpeculationMode::Active
    }


    /// Counts an exact shadow match.
    pub fn record_shadow_match(&mut self, tool_id: &str)
        ensures
            match old(self)@.state(tool_id@) {
                Some(state) => final(self)@ == old(self)@.with_state(tool_id@, state.shadow_matched()),
                None => final(self)@ == old(self)@,
            },
    {
        if let Some(position) = self.position_of(tool_id) {
            let mut state = self.read(position);
            state.exact_shadow_observations = state.exact_shadow_observations.saturating_add(1);
            state.metrics.shadow_matches = state.metrics.shadow_matches.saturating_add(1);
            self.write(position, state);
        }
    }


    /// Counts a mismatch and returns the tool to shadow mode.
    pub fn record_mismatch_and_trip(&mut self, tool_id: &str)
        ensures
            match old(self)@.state(tool_id@) {
                Some(state) => final(self)@ == old(self)@.with_state(tool_id@, state.mismatched()),
                None => final(self)@ == old(self)@,
            },
    {
        if let Some(position) = self.position_of(tool_id) {
            let mut state = self.read(position);
            state.metrics.mismatches = state.metrics.mismatches.saturating_add(1);
            state.trip();
            self.write(position, state);
        }
    }


    /// Counts a failed candidate-bearing stream and returns the tool to shadow mode.
    pub fn record_terminal_stream_failure_and_trip(&mut self, tool_id: &str)
        ensures
            match old(self)@.state(tool_id@) {
                Some(state) => final(self)@ == old(self)@.with_state(tool_id@, state.stream_failed()),
                None => final(self)@ == old(self)@,
            },
    {
        if let Some(position) = self.position_of(tool_id) {
            let mut state = self.read(position);
            state.metrics.terminal_stream_failures =
                state.metrics.terminal_stream_failures.saturating_add(1);
            state.trip();
            self.write(position, state);
        }
    }


    /// Counts a candidate that found the runner-wide slot occupied.
    pub fn record_slot_saturated(&mut self, tool_id: &str)
        ensures
            match old(self)@.state(tool_id@) {
                Some(state) => final(self)@ == old(self)@.with_state(tool_id@, state.slot_occupied()),
                None => final(self)@ == old(self)@,
            },
    {
        if let Some(position) = self.position_of(tool_id) {
            let mut state = self.read(position);
            state.metrics.slot_saturated = state.metrics.slot_saturated.saturating_add(1);
            self.write(position, state);
        }
    }


    /// Counts a candidate considered in active mode.
    pub fn record_active_candidate_considered(&mut self, tool_id: &str)
        ensures
            match old(self)@.state(tool_id@) {
                Some(state) => final(self)@ == old(self)@.with_state(tool_id@, state.considered()),
                None => final(self)@ == old(self)@,
            },
    {
        if let Some(position) = self.position_of(tool_id) {
            let mut state = self.read(position);
            state.metrics.active_candidates_considered =
                state.metrics.active_candidates_considered.saturating_add(1);
            self.write(position, state);
        }
    }


    /// Counts a candidate skipped before it was issued.
    pub fn record_pre_issue_skip(&mut self, tool_id: &str, reason: PreIssueSkipReason)
        ensures
            match old(self)@.state(tool_id@) {
                Some(state) => final(self)@ == old(self)@.with_state(tool_id@, state.skipped(reason)),
                None => final(self)@ == old(self)@,
            },
    {
        if let Some(position) = self.position_of(tool_id) {
            let mut state = self.read(position);
            match reason {
                PreIssueSkipReason::Validation => {
                    state.metrics.pre_issue_validation_skipped =
                        state.metrics.pre_issue_validation_skipped.saturating_add(1);
                },
                PreIssueSkipReason::Policy => {
                    state.metrics.pre_issue_policy_skipped =
                        state.metrics.pre_issue_policy_skipped.saturating_add(1);
                },
                PreIssueSkipReason::Failed => {
                    state.metrics.pre_issue_failed =
                        state.metrics.pre_issue_failed.saturating_add(1);
                },
                PreIssueSkipReason::Invalidated => {
                    state.metrics.pre_issue_invalidated =
                        state.metrics.pre_issue_invalidated.saturating_add(1);
                },
                PreIssueSkipReason::Aborted => {
                    state.metrics.pre_issue_aborted =
                        state.metrics.pre_issue_aborted.saturating_add(1);
                },
                PreIssueSkipReason::KeySaturated => {
                    state.metrics.key_saturated = state.metrics.key_saturated.saturating_add(1);
                },
            }
            self.write(position, state);
        }
    }


    /// Counts an execution dispatched at `started`, in milliseconds.
    pub fn record_issue_started(&mut self, tool_id: &str, started: u64)
        ensures
            match old(self)@.state(tool_id@) {
                Some(state) => final(self)@ == old(self)@.with_state(tool_id@, state.issued(started)),
                None => final(self)@ == old(self)@,
            },
    {
        if let Some(position) = self.position_of(tool_id) {
            let mut state = self.read(position);
            state.metrics.issued = state.metrics.issued.saturating_add(1);
            state.metrics.in_flight = state.metrics.in_flight.saturating_add(1);
            state.in_flight_started = Some(
                match state.in_flight_started {
                    Some(current) => if current < started {
                        current
                    } else {
                        started
                    },
                    None => started,
                },
            );
            self.write(position, state);
        }
    }


    /// Adds one execution latency.
    pub fn record_execution_duration(&mut self, tool_id: &str, duration_ms: u64)
        ensures
            match old(self)@.state(tool_id@) {
                Some(state) => final(self)@ == old(self)@.with_state(
                    tool_id@,
                    state.executed(duration_ms),
                ),
                None => final(self)@ == old(self)@,
            },
    {
        if let Some(position) = self.position_of(tool_id) {
            let mut state = self.read(position);
            state.metrics.execution_duration_ms.record(duration_ms);
            self.write(position, state);
        }
    }

    /// Ends one execution without a commit and returns the tool to shadow mode.
    pub fn record_resolution(
        &mut self,
        tool_id: &str,
        resolution: SpeculativeResolution,
        publication_wait_ms: Option<u64>,
    )
        ensures
            match old(self)@.state(tool_id@) {
                Some(state) => final(self)@ == old(self)@.with_state(
                    tool_id@,
                    state.resolved(resolution, publication_wait_ms),
                ),
                None => final(self)@ == old(self)@,
            },
    {
        if let Some(position) = self.position_of(tool_id) {
            let mut state = self.read(position);
            let ghost before = state@;
            state.land();
            state.publish(publication_wait_ms);
            match resolution {
                SpeculativeResolution::Discarded => {
                    state.metrics.discarded = state.metrics.discarded.saturating_add(1);
                },
                SpeculativeResolution::Cancelled => {
                    state.metrics.cancelled = state.metrics.cancelled.saturating_add(1);
                },
            }
            state.trip();
            self.write(position, state);
        }
    }

    /// Commits one execution if its tool is active, nothing was cancelled and neither
    /// deadline has passed.
    pub fn record_commit_if_active(
        &mut self,
        tool_id: &str,
        now_ms: u64,
        candidate_deadline: u64,
        run_deadline: Option<u64>,
        cancelled: bool,
        publication_wait_ms: Option<u64>,
    ) -> (result: bool)
        ensures
            result == (old(self)@.mode(tool_id@) == SpeculationMode::Active && !cancelled && now_ms
                < candidate_deadline && (run_deadline matches Some(deadline) ==> now_ms
                < deadline)),
            match old(self)@.state(tool_id@) {
                Some(state) => if result {
                    final(self)@ == old(self)@.with_state(
                        tool_id@,
                        state.committed(publication_wait_ms),
                    )
                } else {
                    final(self)@ == old(self)@
                },
                None => final(self)@ == old(self)@,
            },
    {
        let position = match self.position_of(tool_id) {
            Some(position) => position,
            None => return false,
        };
        let mut state = self.read(position);
        let expired = match run_deadline {
            Some(deadline) => now_ms >= deadline,
            None => false,
        };
        if state.mode != SpeculationMode::Active || cancelled || now_ms >= candidate_deadline
            || expired {
            return false;
        }
        let ghost before = state@;
        state.land();
        state.metrics.committed = state.metrics.committed.saturating_add(1);
        state.publish(publication_wait_ms);
        self.write(position, state);
        true
    }
}

impl ToolState {
    fn is_ready(&self, config: &SpeculationConfig) -> (result: bool)
        ensures
            result == self@.ready(*config),
    {
        self.mode == SpeculationMode::Shadow && self.exact_shadow_observations
            >= config.required_shadow_observations && self.metrics.mismatches == 0
            && self.metrics.terminal_stream_failures == 0 && self.metrics.discarded == 0
            && self.metrics.cancelled == 0
    }

    fn trip(&mut self)
        ensures
            final(self)@ == old(self)@.tripped(),
    {
        self.mode = SpeculationMode::Shadow;
        self.metrics.mode = SpeculationMode::Shadow;
        self.exact_shadow_observations = 0;
    }

    fn land(&mut self)
        ensures
            final(self)@ == old(self)@.landed(),
    {
        self.metrics.in_flight = self.metrics.in_flight.saturating_sub(1);
        if self.metrics.in_flight == 0 {
            self.in_flight_started = None;
        }
    }

    fn publish(&mut self, wait_ms: Option<u64>)
        ensures
            final(self)@ == (ToolModel {
                metrics: SpeculationMetrics {
                    publication_wait_ms: old(self)@.metrics.publication_wait_ms.observe_option(
                        wait_ms,
                    ),
                    ..old(self)@.metrics
                },
                ..old(self)@
            }),
    {
        if let Some(wait_ms) = wait_ms {
            self.metrics.publication_wait_ms.record(wait_ms);
        }
    }
}

} // verus!
