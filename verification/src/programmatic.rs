//! What the host allows of programs, and how much of them the model gets to see again.

use crate::agent::RunRequest;
use crate::error::HarnessError;
use crate::event::ProgramLifecycleOutcome;
use crate::json::{render_json, rendered_json, Json, JsonTree};
use crate::limits::check_view;
use crate::message::{transcript_len, transcript_total};
use crate::model::{ModelCapabilities, ProgrammaticConformance};
use crate::program_schema::SandboxLimits;
use crate::request::{deadline_after, deadline_view, earlier};
use crate::text::{byte_len, decimal, decimal_digits, join3, utf8_len, utf8_len_of_joined};
use vstd::prelude::*;
use vstd::string::*;
use vstd::utf8::{is_ascii_chars, is_ascii_chars_encode_utf8};

verus! {

/// Longest programmatic run.
pub const HARD_PROGRAMMATIC_DURATION_MS: u64 = 300_000;

/// Most programmatic runs at the same time.
pub const HARD_VM_ADMISSION: usize = 16;

/// Most calls of one fan-out at the same time.
pub const MAX_FANOUT_CONCURRENCY: usize = 8;

/// A bounded workload shape that a host may allow adaptive planning to promote to
/// deterministic programmatic execution.
#[derive(Clone, Copy, Debug, PartialEq, Eq, PartialOrd, Ord, Hash, Structural)]
#[non_exhaustive]
pub enum ProgrammaticWorkloadClass {
    /// Bounded iteration over a collection or repeated operation.
    Loop,
    /// Bounded parallel dispatch of independent read-only work.
    FanOut,
    /// Bounded selection of values from an intermediate collection.
    Filter,
    /// Bounded reduction or aggregation of intermediate values.
    Aggregation,
    /// Work whose bounded intermediate representation is materially larger than is practical to
    /// shuttle through a native tool-calling transcript.
    LargeIntermediateData,
}

impl ProgrammaticWorkloadClass {
    /// The name of the class.
    pub open spec fn name(self) -> Seq<char> {
        match self {
            ProgrammaticWorkloadClass::Loop => "loop"@,
            ProgrammaticWorkloadClass::FanOut => "fan_out"@,
            ProgrammaticWorkloadClass::Filter => "filter"@,
            ProgrammaticWorkloadClass::Aggregation => "aggregation"@,
            ProgrammaticWorkloadClass::LargeIntermediateData => "large_intermediate_data"@,
        }
    }

    /// The name of the class.
    pub fn as_str(self) -> (result: &'static str)
        ensures
            result@ == self.name(),
    {
        match self {
            ProgrammaticWorkloadClass::Loop => "loop",
            ProgrammaticWorkloadClass::FanOut => "fan_out",
            ProgrammaticWorkloadClass::Filter => "filter",
            ProgrammaticWorkloadClass::Aggregation => "aggregation",
            ProgrammaticWorkloadClass::LargeIntermediateData => "large_intermediate_data",
        }
    }
}

/// Explicit host opt-in and resource bounds for programmatic execution.
#[derive(Clone, Copy, Debug, PartialEq, Eq, Structural)]
pub struct ProgrammaticHostConfig {
    /// Sandbox limits further constrained by immutable library and provider caps.
    pub limits: SandboxLimits,
    /// Finite programmatic run deadline in milliseconds.
    pub max_duration_ms: u64,
    /// Maximum concurrently admitted programmatic runs.
    pub max_active_vms: usize,
    /// Maximum concurrent read-only, parallel-safe calls in a fan-out batch.
    pub max_fanout_concurrency: usize,
}

impl ProgrammaticHostConfig {
    /// The default configuration with these sandbox limits.
    pub fn with_limits(limits: SandboxLimits) -> (result: ProgrammaticHostConfig)
        ensures
            result == (ProgrammaticHostConfig {
                limits,
                max_duration_ms: 60_000,
                max_active_vms: 4,
                max_fanout_concurrency: MAX_FANOUT_CONCURRENCY,
            }),
    {
        ProgrammaticHostConfig {
            limits,
            max_duration_ms: 60_000,
            max_active_vms: 4,
            max_fanout_concurrency: MAX_FANOUT_CONCURRENCY,
        }
    }

    /// What is wrong with the configuration. `limits_valid` is whether the sandbox accepts its
    /// limits.
    pub open spec fn fault(self, limits_valid: bool) -> Option<Seq<char>> {
        if !limits_valid {
            Some("invalid programmatic sandbox limits"@)
        } else if self.max_duration_ms == 0 || self.max_duration_ms
            > HARD_PROGRAMMATIC_DURATION_MS {
            Some("programmatic duration must be within 1..=300000 milliseconds"@)
        } else if self.max_active_vms == 0 || self.max_active_vms > HARD_VM_ADMISSION {
            Some("programmatic run admission must be within 1..=16"@)
        } else if self.max_fanout_concurrency == 0 || self.max_fanout_concurrency
            > MAX_FANOUT_CONCURRENCY {
            Some("programmatic fan-out concurrency must be within 1..=8"@)
        } else {
            None
        }
    }

    /// Checks the configuration. `limits_valid` is whether the sandbox accepts its limits.
    pub fn validate(&self, limits_valid: bool) -> (result: Result<(), HarnessError>)
        ensures
            match self.fault(limits_valid) {
                Some(text) => check_view(result) == Err::<(), HarnessError<Seq<char>>>(
                    HarnessError::InvalidRequest(text),
                ),
                None => result is Ok,
            },
    {
        if !limits_valid {
            return Err(
                HarnessError::InvalidRequest("invalid programmatic sandbox limits".to_owned()),
            );
        }
        if self.max_duration_ms == 0 || self.max_duration_ms > HARD_PROGRAMMATIC_DURATION_MS {
            return Err(
                HarnessError::InvalidRequest(
                    "programmatic duration must be within 1..=300000 milliseconds".to_owned(),
                ),
            );
        }
        if self.max_active_vms == 0 || self.max_active_vms > HARD_VM_ADMISSION {
            return Err(
                HarnessError::InvalidRequest(
                    "programmatic run admission must be within 1..=16".to_owned(),
                ),
            );
        }
        if self.max_fanout_concurrency == 0 || self.max_fanout_concurrency
            > MAX_FANOUT_CONCURRENCY {
            return Err(
                HarnessError::InvalidRequest(
                    "programmatic fan-out concurrency must be within 1..=8".to_owned(),
                ),
            );
        }
        Ok(())
    }

    /// How many runs are admitted at the same time, whatever the configuration says.
    pub fn admission_permits(&self) -> (result: usize)
        ensures
            1 <= result <= HARD_VM_ADMISSION,
            1 <= self.max_active_vms <= HARD_VM_ADMISSION ==> result == self.max_active_vms,
            self.max_active_vms == 0 ==> result == 1,
            self.max_active_vms > HARD_VM_ADMISSION ==> result == HARD_VM_ADMISSION,
    {
        if self.max_active_vms == 0 {
            1
        } else if self.max_active_vms > HARD_VM_ADMISSION {
            HARD_VM_ADMISSION
        } else {
            self.max_active_vms
        }
    }
}

/// When a programmatic run must end.
pub open spec fn program_deadline(
    config: ProgrammaticHostConfig,
    run_deadline: Option<u64>,
    now_ms: u64,
) -> Result<Option<u64>, HarnessError<Seq<char>>> {
    match deadline_after(
        now_ms,
        Some(config.max_duration_ms),
        "programmatic duration is too large"@,
    ) {
        Err(error) => Err(error),
        Ok(configured) => Ok(earlier(run_deadline, configured)),
    }
}

/// When a programmatic run must end: the earlier of its own limit and that of the run.
pub fn programmatic_deadline(
    config: &ProgrammaticHostConfig,
    run_deadline: Option<u64>,
    now_ms: u64,
) -> (result: Result<Option<u64>, HarnessError>)
    ensures
        deadline_view(result) == program_deadline(*config, run_deadline, now_ms),
{
    match now_ms.checked_add(config.max_duration_ms) {
        None => Err(
            HarnessError::InvalidRequest("programmatic duration is too large".to_owned()),
        ),
        Some(configured) => Ok(
            Some(
                match run_deadline {
                    Some(run) => if run < configured {
                        run
                    } else {
                        configured
                    },
                    None => configured,
                },
            ),
        ),
    }
}

/// The smallest of three sizes.
pub open spec fn smallest(first: usize, second: u64, third: u64) -> usize {
    let two = if (second as nat) < first {
        second as usize
    } else {
        first
    };
    if (third as nat) < two {
        third as usize
    } else {
        two
    }
}

/// The limits of a run's programs: `constrained` are those of the configuration under the
/// sandbox's own caps; the request and the provider narrow the size of programs further.
pub fn effective_programmatic_limits(
    constrained: &SandboxLimits,
    max_request_program_bytes: u64,
    provider_program_bytes: u64,
) -> (result: SandboxLimits)
    ensures
        result == (SandboxLimits {
            max_program_bytes: smallest(
                constrained.max_program_bytes,
                max_request_program_bytes,
                provider_program_bytes,
            ),
            ..*constrained
        }),
{
    let first: usize = constrained.max_program_bytes;
    let two: usize = if max_request_program_bytes < first as u64 {
        max_request_program_bytes as usize
    } else {
        first
    };
    let three: usize = if provider_program_bytes < two as u64 {
        provider_program_bytes as usize
    } else {
        two
    };
    SandboxLimits { max_program_bytes: three, ..*constrained }
}

/// The limits of a run's programs, once the sandbox said whether it accepts them.
pub fn accepted_limits(limits: SandboxLimits, accepted: bool) -> (result: Result<
    SandboxLimits,
    HarnessError,
>)
    ensures
        match result {
            Ok(kept) => accepted && kept == limits,
            Err(error) => !accepted && error@ == HarnessError::UnsupportedCapability(
                "effective provider program byte limit is invalid"@,
            ),
        },
{
    if accepted {
        Ok(limits)
    } else {
        Err(
            HarnessError::UnsupportedCapability(
                "effective provider program byte limit is invalid".to_owned(),
            ),
        )
    }
}

/// Why a provider cannot carry programmatic execution.
pub open spec fn provider_obstacle(capabilities: ModelCapabilities) -> Option<Seq<char>> {
    if !capabilities.supports_tools || !capabilities.supports_programmatic_calling
        || capabilities.programmatic_conformance != Some(ProgrammaticConformance::StrictJsonAstV1) {
        Some("provider does not explicitly conform to strict programmatic JSON AST V1"@)
    } else if capabilities.limits.max_program_bytes is None
        || capabilities.limits.max_program_bytes == Some(0u64) {
        Some("provider must advertise a nonzero program byte limit"@)
    } else {
        None
    }
}

/// Whether a provider can carry programmatic execution: the size of its programs, or why not.
pub fn check_provider(capabilities: &ModelCapabilities) -> (result: Result<u64, HarnessError>)
    ensures
        match provider_obstacle(*capabilities) {
            Some(text) => result matches Err(error) && error@
                == HarnessError::UnsupportedCapability(text),
            None => result matches Ok(bytes) && Some(bytes)
                == capabilities.limits.max_program_bytes,
        },
{
    if !capabilities.supports_tools || !capabilities.supports_programmatic_calling
        || capabilities.programmatic_conformance != Some(ProgrammaticConformance::StrictJsonAstV1) {
        return Err(
            HarnessError::UnsupportedCapability(
                "provider does not explicitly conform to strict programmatic JSON AST V1".to_owned(),
            ),
        );
    }
    match capabilities.limits.max_program_bytes {
        Some(bytes) if bytes > 0 => Ok(bytes),
        _ => Err(
            HarnessError::UnsupportedCapability(
                "provider must advertise a nonzero program byte limit".to_owned(),
            ),
        ),
    }
}

/// What the checks before a programmatic run that was asked for answer.
pub open spec fn forced_check(
    config: Option<ProgrammaticHostConfig>,
    limits_valid: bool,
    capabilities: ModelCapabilities,
    request: &RunRequest,
) -> Result<(), HarnessError<Seq<char>>> {
    match config {
        None => Err(
            HarnessError::UnsupportedCapability(
                "programmatic execution requires explicit host opt-in"@,
            ),
        ),
        Some(config) => match config.fault(limits_valid) {
            Some(text) => Err(HarnessError::InvalidRequest(text)),
            None => match provider_obstacle(capabilities) {
                Some(text) => Err(HarnessError::UnsupportedCapability(text)),
                None => if request.agent.limits.max_model_calls < 2 {
                    Err(
                        HarnessError::UnsupportedCapability(
                            "programmatic execution requires at least two model calls"@,
                        ),
                    )
                } else {
                    Ok(())
                },
            },
        },
    }
}

/// Checks a programmatic run that was asked for.
pub fn check_forced(
    config: &Option<ProgrammaticHostConfig>,
    limits_valid: bool,
    capabilities: &ModelCapabilities,
    request: &RunRequest,
) -> (result: Result<u64, HarnessError>)
    ensures
        match forced_check(*config, limits_valid, *capabilities, request) {
            Ok(_) => result matches Ok(bytes) && Some(bytes)
                == capabilities.limits.max_program_bytes,
            Err(told) => result matches Err(error) && error@ == told,
        },
{
    match config {
        None => Err(
            HarnessError::UnsupportedCapability(
                "programmatic execution requires explicit host opt-in".to_owned(),
            ),
        ),
        Some(config) => {
            if let Err(error) = config.validate(limits_valid) {
                return Err(error);
            }
            let bytes = match check_provider(capabilities) {
                Ok(bytes) => bytes,
                Err(error) => return Err(error),
            };
            if request.agent.limits.max_model_calls < 2 {
                return Err(
                    HarnessError::UnsupportedCapability(
                        "programmatic execution requires at least two model calls".to_owned(),
                    ),
                );
            }
            Ok(bytes)
        },
    }
}

/// Whether an adaptive run may be promoted to a program.
pub enum Promotion {
    /// It may; the provider takes programs of this size.
    Allowed(u64),
    /// It may not.
    Refused,
}

/// What the check of a promotion answers: an unallowed class, a missing opt-in, an unfit
/// provider or too few provider calls refuse it; an invalid configuration is an error.
pub open spec fn promotion_answer(
    allowlist: Seq<ProgrammaticWorkloadClass>,
    workload: ProgrammaticWorkloadClass,
    config: Option<ProgrammaticHostConfig>,
    limits_valid: bool,
    capabilities: ModelCapabilities,
    request: &RunRequest,
    model_calls: u32,
) -> Result<Option<u64>, HarnessError<Seq<char>>> {
    if !allowlist.contains(workload) || config is None {
        Ok(None)
    } else {
        match config->0.fault(limits_valid) {
            Some(text) => Err(HarnessError::InvalidRequest(text)),
            None => if provider_obstacle(capabilities) is Some
                || request.agent.limits.max_model_calls < model_calls + 2 {
                Ok(None)
            } else {
                Ok(capabilities.limits.max_program_bytes)
            },
        }
    }
}

/// Checks whether an adaptive run may be promoted to a program.
pub fn check_promotion(
    allowlist: &Vec<ProgrammaticWorkloadClass>,
    workload: ProgrammaticWorkloadClass,
    config: &Option<ProgrammaticHostConfig>,
    limits_valid: bool,
    capabilities: &ModelCapabilities,
    request: &RunRequest,
    model_calls: u32,
) -> (result: Result<Promotion, HarnessError>)
    ensures
        match promotion_answer(
            allowlist@,
            workload,
            *config,
            limits_valid,
            *capabilities,
            request,
            model_calls,
        ) {
            Ok(Some(bytes)) => result == Ok::<Promotion, HarnessError>(Promotion::Allowed(bytes)),
            Ok(None) => result == Ok::<Promotion, HarnessError>(Promotion::Refused),
            Err(told) => result matches Err(error) && error@ == told,
        },
{
    let mut allowed = false;
    let mut i: usize = 0;
    while i < allowlist.len()
        invariant
            i <= allowlist@.len(),
            allowed <==> allowlist@.take(i as int).contains(workload),
        decreases allowlist@.len() - i,
    {
        proof {
            let shorter = allowlist@.take(i as int);
            let longer = allowlist@.take(i + 1);
            assert(longer =~= shorter.push(allowlist@[i as int]));
            if shorter.contains(workload) {
                let k = choose|k: int| 0 <= k < shorter.len() && shorter[k] == workload;
                assert(longer[k] == workload);
            }
            if longer.contains(workload) && allowlist@[i as int] != workload {
                let k = choose|k: int| 0 <= k < longer.len() && longer[k] == workload;
                assert(shorter[k] == workload);
            }
            assert(longer[i as int] == allowlist@[i as int]);
        }
        if allowlist[i] == workload {
            allowed = true;
        }
        i += 1;
    }
    assert(allowlist@.take(i as int) =~= allowlist@);
    if !allowed {
        return Ok(Promotion::Refused);
    }
    match config {
        None => Ok(Promotion::Refused),
        Some(config) => {
            if let Err(error) = config.validate(limits_valid) {
                return Err(error);
            }
            match check_provider(capabilities) {
                Err(_) => Ok(Promotion::Refused),
                Ok(bytes) => {
                    if request.agent.limits.max_model_calls.saturating_sub(model_calls) < 2 {
                        return Ok(Promotion::Refused);
                    }
                    Ok(Promotion::Allowed(bytes))
                },
            }
        },
    }
}

/// What kind of fault a sandbox reports.
#[derive(Clone, Copy, Debug, PartialEq, Eq, Structural)]
pub enum SandboxFaultKind {
    /// A limit was exhausted.
    ResourceLimit,
    /// A program was resumed with something else than it waits for.
    InvalidResume,
    /// A program failed while it ran.
    Execution,
    /// A program is not valid.
    Invalid,
}

/// The error of a sandbox fault.
pub open spec fn sandbox_fault(kind: SandboxFaultKind, message: Seq<char>) -> HarnessError<
    Seq<char>,
> {
    match kind {
        SandboxFaultKind::ResourceLimit => HarnessError::ResourceLimit(message),
        SandboxFaultKind::InvalidResume => HarnessError::Tool(message),
        SandboxFaultKind::Execution => HarnessError::Tool(message),
        SandboxFaultKind::Invalid => HarnessError::InvalidOutput(message),
    }
}

/// The error of a sandbox fault.
pub fn sandbox_error(kind: SandboxFaultKind, message: &str) -> (result: HarnessError)
    ensures
        result@ == sandbox_fault(kind, message@),
{
    match kind {
        SandboxFaultKind::ResourceLimit => HarnessError::ResourceLimit(message.to_owned()),
        SandboxFaultKind::InvalidResume => HarnessError::Tool(message.to_owned()),
        SandboxFaultKind::Execution => HarnessError::Tool(message.to_owned()),
        SandboxFaultKind::Invalid => HarnessError::InvalidOutput(message.to_owned()),
    }
}

/// What an error that ends a program is called in its life.
pub open spec fn program_outcome<S>(error: HarnessError<S>) -> ProgramLifecycleOutcome {
    if error is Cancelled {
        ProgramLifecycleOutcome::Cancelled
    } else if error is TimedOut {
        ProgramLifecycleOutcome::TimedOut
    } else if error is ResourceLimit {
        ProgramLifecycleOutcome::LimitReached
    } else {
        ProgramLifecycleOutcome::Failed
    }
}

/// What an error that ends a program is called in its life.
pub fn terminal_lifecycle_outcome(error: &HarnessError) -> (result: ProgramLifecycleOutcome)
    ensures
        result == program_outcome(error@),
{
    match error {
        HarnessError::Cancelled => ProgramLifecycleOutcome::Cancelled,
        HarnessError::TimedOut(_) => ProgramLifecycleOutcome::TimedOut,
        HarnessError::ResourceLimit(_) => ProgramLifecycleOutcome::LimitReached,
        _ => ProgramLifecycleOutcome::Failed,
    }
}

/// The calls of a program, counted without their values.
#[derive(Clone, Copy, Debug, PartialEq, Eq, Structural)]
pub struct ProgrammaticBrokerSummary {
    /// All of them.
    pub total: u64,
    /// Those that succeeded.
    pub succeeded: u64,
    /// Those that failed.
    pub failed: u64,
}

impl ProgrammaticBrokerSummary {
    /// The summary as JSON text.
    pub open spec fn json_text(self) -> Seq<char> {
        "{\"total\":"@ + decimal_digits(self.total as nat) + ",\"succeeded\":"@ + decimal_digits(
            self.succeeded as nat,
        ) + ",\"failed\":"@ + decimal_digits(self.failed as nat) + "}"@
    }

    /// No calls.
    pub fn none() -> (result: ProgrammaticBrokerSummary)
        ensures
            result == (ProgrammaticBrokerSummary { total: 0, succeeded: 0, failed: 0 }),
    {
        ProgrammaticBrokerSummary { total: 0, succeeded: 0, failed: 0 }
    }

    /// The summary as JSON text.
    pub fn to_json_text(&self) -> (result: String)
        ensures
            result@ == self.json_text(),
    {
        let total = decimal(self.total);
        let succeeded = decimal(self.succeeded);
        let failed = decimal(self.failed);
        let head = join3("{\"total\":", total.as_str(), ",\"succeeded\":");
        let body = join3(head.as_str(), succeeded.as_str(), ",\"failed\":");
        join3(body.as_str(), failed.as_str(), "}")
    }
}

/// What the model is told before it answers for a program.
pub open spec fn synthesis_prompt() -> Seq<char> {
    "A verified program completed. Produce the final answer using only the bounded program return and value-free broker call summary in the next user message."@
}

/// What the model is shown of a program: what it returned, and the counts of its calls.
pub open spec fn synthesis_text(
    program_return: JsonTree,
    summary: ProgrammaticBrokerSummary,
) -> Seq<char> {
    "{\"program_return\":"@ + rendered_json(program_return) + ",\"broker_calls\":"@
        + summary.json_text() + "}"@
}

/// Bytes of what the model is shown of a program whose return takes this many.
pub open spec fn payload_bytes(
    program_return_bytes: nat,
    summary: ProgrammaticBrokerSummary,
) -> nat {
    35 + program_return_bytes + utf8_len(summary.json_text())
}

/// The error of an account that cannot be kept.
pub open spec fn accounting_overflow() -> HarnessError<Seq<char>> {
    HarnessError::ResourceLimit("programmatic transcript accounting overflowed"@)
}

/// Bounded program return and value-free summary passed to the final synthesis call. The
/// maximum of both is reserved before a call can take effect, so that large intermediate data
/// is reduced by the program and never reaches the model.
#[derive(Clone, Copy, Debug, PartialEq, Eq, Structural)]
pub struct ProgrammaticTranscript {
    /// The calls so far.
    pub summary: ProgrammaticBrokerSummary,
    /// Bytes of the conversation that the run starts with.
    pub initial_message_bytes: u64,
    /// Bytes that the whole may take.
    pub limit: u64,
    /// Bytes that the program may return.
    pub maximum_program_return_bytes: u64,
}

impl ProgrammaticTranscript {
    /// What the check of a summary answers.
    pub open spec fn summary_check(
        self,
        summary: ProgrammaticBrokerSummary,
        program_return_bytes: nat,
    ) -> Result<(), HarnessError<Seq<char>>> {
        let payload = payload_bytes(program_return_bytes, summary);
        let projected = self.initial_message_bytes + utf8_len(synthesis_prompt()) + payload;
        if payload > u64::MAX || projected > u64::MAX {
            Err(accounting_overflow())
        } else if projected > self.limit {
            Err(
                HarnessError::ResourceLimit(
                    "programmatic synthesis transcript exceeds "@ + decimal_digits(
                        self.limit as nat,
                    ) + " bytes"@,
                ),
            )
        } else {
            Ok(())
        }
    }

    /// What the reservation of a batch answers: both outcomes may grow to the projected total.
    pub open spec fn reservation(self, calls: nat) -> Result<(), HarnessError<Seq<char>>> {
        let total = self.summary.total + calls;
        if total > u64::MAX {
            Err(HarnessError::ResourceLimit("programmatic broker call count overflowed"@))
        } else {
            self.summary_check(
                ProgrammaticBrokerSummary {
                    total: total as u64,
                    succeeded: total as u64,
                    failed: total as u64,
                },
                self.maximum_program_return_bytes as nat,
            )
        }
    }

    /// The summary with one more call, as far as it can be counted.
    pub open spec fn recorded(self, ok: bool) -> Result<
        ProgrammaticTranscript,
        HarnessError<Seq<char>>,
    > {
        if self.summary.total == u64::MAX {
            Err(HarnessError::ResourceLimit("programmatic broker call count overflowed"@))
        } else if (ok && self.summary.succeeded == u64::MAX) || (!ok && self.summary.failed
            == u64::MAX) {
            Err(HarnessError::ResourceLimit("programmatic broker outcome count overflowed"@))
        } else {
            let next = ProgrammaticBrokerSummary {
                total: (self.summary.total + 1) as u64,
                succeeded: if ok {
                    (self.summary.succeeded + 1) as u64
                } else {
                    self.summary.succeeded
                },
                failed: if ok {
                    self.summary.failed
                } else {
                    (self.summary.failed + 1) as u64
                },
            };
            match self.summary_check(next, self.maximum_program_return_bytes as nat) {
                Err(error) => Err(error),
                Ok(_) => Ok(ProgrammaticTranscript { summary: next, ..self }),
            }
        }
    }

    /// What the model is shown of a program, where it fits.
    pub open spec fn synthesis(self, program_return: JsonTree) -> Result<
        Seq<char>,
        HarnessError<Seq<char>>,
    > {
        match self.summary_check(self.summary, utf8_len(rendered_json(program_return))) {
            Err(error) => Err(error),
            Ok(_) => Ok(synthesis_text(program_return, self.summary)),
        }
    }

    /// Checks that a summary and a return of this size fit.
    pub fn ensure_summary(&self, summary: ProgrammaticBrokerSummary, program_return_bytes: u64) -> (
    result: Result<(), HarnessError>)
        ensures
            check_view(result) == self.summary_check(summary, program_return_bytes as nat),
    {
        let text = summary.to_json_text();
        let prompt = byte_len(
            "A verified program completed. Produce the final answer using only the bounded program return and value-free broker call summary in the next user message.",
        ) as u64;
        let payload = checked_transcript_sum(35, program_return_bytes, byte_len(text.as_str()) as u64);
        let projected = match payload {
            Some(payload) => checked_transcript_sum(self.initial_message_bytes, prompt, payload),
            None => None,
        };
        match projected {
            None => Err(
                HarnessError::ResourceLimit(
                    "programmatic transcript accounting overflowed".to_owned(),
                ),
            ),
            Some(projected) => {
                if projected > self.limit {
                    let digits = decimal(self.limit);
                    return Err(
                        HarnessError::ResourceLimit(
                            join3(
                                "programmatic synthesis transcript exceeds ",
                                digits.as_str(),
                                " bytes",
                            ),
                        ),
                    );
                }
                Ok(())
            },
        }
    }

    /// Reserves room for a batch of calls.
    pub fn reserve_batch(&self, calls: usize) -> (result: Result<(), HarnessError>)
        ensures
            check_view(result) == self.reservation(calls as nat),
    {
        match self.summary.total.checked_add(calls as u64) {
            None => Err(
                HarnessError::ResourceLimit(
                    "programmatic broker call count overflowed".to_owned(),
                ),
            ),
            Some(total) => self.ensure_summary(
                ProgrammaticBrokerSummary { total, succeeded: total, failed: total },
                self.maximum_program_return_bytes,
            ),
        }
    }

    /// Counts one more call.
    pub fn record(&mut self, ok: bool) -> (result: Result<(), HarnessError>)
        ensures
            match old(self).recorded(ok) {
                Ok(next) => result is Ok && *final(self) == next,
                Err(error) => check_view(result) == Err::<(), HarnessError<Seq<char>>>(error)
                    && *final(self) == *old(self),
            },
    {
        let mut next = self.summary;
        if next.total == u64::MAX {
            return Err(
                HarnessError::ResourceLimit(
                    "programmatic broker call count overflowed".to_owned(),
                ),
            );
        }
        if (ok && next.succeeded == u64::MAX) || (!ok && next.failed == u64::MAX) {
            return Err(
                HarnessError::ResourceLimit(
                    "programmatic broker outcome count overflowed".to_owned(),
                ),
            );
        }
        next.total += 1;
        if ok {
            next.succeeded += 1;
        } else {
            next.failed += 1;
        }
        self.ensure_summary(next, self.maximum_program_return_bytes)?;
        self.summary = next;
        Ok(())
    }

    /// What the model is shown of a program, where it fits.
    pub fn serialize_synthesis_input(&self, program_return: &Json) -> (result: Result<
        String,
        HarnessError,
    >)
        ensures
            match self.synthesis(program_return@) {
                Ok(text) => result matches Ok(shown) && shown@ == text,
                Err(told) => result matches Err(error) && error@ == told,
            },
    {
        let value = render_json(program_return);
        match self.ensure_summary(self.summary, byte_len(value.as_str()) as u64) {
            Err(error) => Err(error),
            Ok(_) => {
                let summary = self.summary.to_json_text();
                let head = join3("{\"program_return\":", value.as_str(), ",\"broker_calls\":");
                Ok(join3(head.as_str(), summary.as_str(), "}"))
            },
        }
    }

    /// An account that just began, where the largest return fits it.
    pub open spec fn begun(request: &RunRequest, limits: SandboxLimits) -> Result<
        ProgrammaticTranscript,
        HarnessError<Seq<char>>,
    > {
        let initial = transcript_len(request.opening());
        let transcript = ProgrammaticTranscript {
            summary: ProgrammaticBrokerSummary { total: 0, succeeded: 0, failed: 0 },
            initial_message_bytes: initial as u64,
            limit: request.agent.limits.max_transcript_bytes,
            maximum_program_return_bytes: limits.max_output_bytes as u64,
        };
        if initial > u64::MAX {
            Err(accounting_overflow())
        } else {
            match transcript.summary_check(
                transcript.summary,
                transcript.maximum_program_return_bytes as nat,
            ) {
                Err(error) => Err(error),
                Ok(_) => Ok(transcript),
            }
        }
    }

    /// Begins an account.
    pub fn new(request: &RunRequest, limits: &SandboxLimits) -> (result: Result<
        ProgrammaticTranscript,
        HarnessError,
    >)
        ensures
            match ProgrammaticTranscript::begun(request, *limits) {
                Ok(transcript) => result == Ok::<ProgrammaticTranscript, HarnessError>(transcript),
                Err(told) => result matches Err(error) && error@ == told,
            },
    {
        let opening = request.initial_messages();
        let initial = match transcript_total(&opening) {
            Some(bytes) => bytes,
            None => {
                return Err(
                    HarnessError::ResourceLimit(
                        "programmatic transcript accounting overflowed".to_owned(),
                    ),
                );
            },
        };
        let transcript = ProgrammaticTranscript {
            summary: ProgrammaticBrokerSummary::none(),
            initial_message_bytes: initial,
            limit: request.agent.limits.max_transcript_bytes,
            maximum_program_return_bytes: limits.max_output_bytes as u64,
        };
        match transcript.ensure_summary(
            transcript.summary,
            transcript.maximum_program_return_bytes,
        ) {
            Err(error) => Err(error),
            Ok(_) => Ok(transcript),
        }
    }
}

/// The sum of three counts, where a counter can hold it.
pub fn checked_transcript_sum(first: u64, second: u64, third: u64) -> (result: Option<u64>)
    ensures
        result == (if first + second + third > u64::MAX {
            None
        } else {
            Some((first + second + third) as u64)
        }),
{
    match first.checked_add(second) {
        Some(sum) => sum.checked_add(third),
        None => None,
    }
}

proof fn fixed_text_bytes()
    ensures
        utf8_len("{\"program_return\":"@) == 18,
        utf8_len(",\"broker_calls\":"@) == 16,
        utf8_len("}"@) == 1,
{
    reveal_strlit("{\"program_return\":");
    reveal_strlit(",\"broker_calls\":");
    reveal_strlit("}");
    assert(is_ascii_chars("{\"program_return\":"@));
    assert(is_ascii_chars(",\"broker_calls\":"@));
    assert(is_ascii_chars("}"@));
    is_ascii_chars_encode_utf8("{\"program_return\":"@);
    is_ascii_chars_encode_utf8(",\"broker_calls\":"@);
    is_ascii_chars_encode_utf8("}"@);
}

/// The account is exact: what the model is shown takes as many bytes as were counted.
pub proof fn synthesis_account_is_exact(
    program_return: JsonTree,
    summary: ProgrammaticBrokerSummary,
)
    ensures
        utf8_len(synthesis_text(program_return, summary)) == payload_bytes(
            utf8_len(rendered_json(program_return)),
            summary,
        ),
{
    fixed_text_bytes();
    let value = rendered_json(program_return);
    let counts = summary.json_text();
    let one = "{\"program_return\":"@ + value;
    let two = one + ",\"broker_calls\":"@;
    let three = two + counts;
    utf8_len_of_joined("{\"program_return\":"@, value);
    utf8_len_of_joined(one, ",\"broker_calls\":"@);
    utf8_len_of_joined(two, counts);
    utf8_len_of_joined(three, "}"@);
}

/// What is shown never exceeds the transcript limit, together with what surrounds it.
pub proof fn shown_programs_fit(transcript: ProgrammaticTranscript, program_return: JsonTree)
    ensures
        transcript.synthesis(program_return) matches Ok(text) ==> transcript.initial_message_bytes
            + utf8_len(synthesis_prompt()) + utf8_len(text) <= transcript.limit,
{
    synthesis_account_is_exact(program_return, transcript.summary);
}

/// Successes and failures add up to the total, however the calls went.
pub proof fn outcomes_add_up(transcript: ProgrammaticTranscript, ok: bool)
    requires
        transcript.summary.total == transcript.summary.succeeded + transcript.summary.failed,
    ensures
        transcript.recorded(ok) matches Ok(next) ==> next.summary.total == next.summary.succeeded
            + next.summary.failed,
{
}

} // verus!
