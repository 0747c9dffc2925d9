//! One streamed model turn, and the one call in it that may be issued early.

use crate::admission::{candidate_key, ToolBroker};
use crate::agent::RunRequest;
use crate::broker::{invocation_key, InvocationKey};
use crate::error::{HarnessError, ModelStreamFailureKind};
use crate::json::{parse_json, parsed_json};
use crate::limits::{check_view, AgentLimits};
use crate::model::{ModelResponse, ProviderCapabilityLimits, ResponseModel, Usage};
use crate::registry::{RegisteredTool, ToolScope};
use crate::speculation::{
    ControllerModel, PreIssueSkipReason, SpeculationConfig, SpeculationController, SpeculationMode,
    ToolModel,
};
use crate::streaming::{
    assembled, AssemblerModel, ModelStreamEvent, ToolCallAssembler, ToolCallAssemblyLimits,
    ToolCallDelta,
};
use crate::text::{byte_len, same_text, text_option, utf8_len};
use crate::tool::{calls_view, ToolCall};
use vstd::prelude::*;
use vstd::string::*;

verus! {

/// How far a model stream has come.
#[derive(Clone, Copy, Debug, PartialEq, Eq, Structural)]
pub enum StreamPhase {
    /// More events may come.
    Open,
    /// The response is complete.
    Completed,
    /// The stream failed.
    Failed,
}

/// An event of a model stream that was checked.
///
/// `S` is the text: `String` in running code, a sequence of characters in contracts.
#[derive(Clone, Debug, PartialEq, Eq)]
pub struct ValidatedModelStreamEvent<S = String> {
    /// The event.
    pub event: ModelStreamEvent<S>,
    /// The call that the event completed.
    pub completed_tool_call: Option<ToolCall<S>>,
}

impl View for ValidatedModelStreamEvent<String> {
    type V = ValidatedModelStreamEvent<Seq<char>>;

    open spec fn view(&self) -> ValidatedModelStreamEvent<Seq<char>> {
        ValidatedModelStreamEvent {
            event: self.event@,
            completed_tool_call: match self.completed_tool_call {
                Some(call) => Some(call@),
                None => None,
            },
        }
    }
}

/// The model of a checked model stream.
pub struct StreamModel {
    /// The calls.
    pub assembler: AssemblerModel,
    /// How far the stream has come.
    pub phase: StreamPhase,
}

/// A failure of the stream itself.
pub open spec fn stream_failure(kind: ModelStreamFailureKind) -> HarnessError<Seq<char>> {
    HarnessError::ModelStream { kind }
}

/// The view of an item that a provider's stream yields.
pub open spec fn item_view(item: Result<ModelStreamEvent, HarnessError>) -> Result<
    ModelStreamEvent<Seq<char>>,
    HarnessError<Seq<char>>,
> {
    match item {
        Ok(event) => Ok(event@),
        Err(error) => Err(error@),
    }
}

impl StreamModel {
    /// The stream after a failure.
    pub open spec fn failed(self) -> StreamModel {
        StreamModel { phase: StreamPhase::Failed, ..self }
    }

    /// The stream after one item, and what the item is worth.
    pub open spec fn pushed(
        self,
        item: Result<ModelStreamEvent<Seq<char>>, HarnessError<Seq<char>>>,
    ) -> (
        StreamModel,
        Result<ValidatedModelStreamEvent<Seq<char>>, HarnessError<Seq<char>>>,
    ) {
        match self.phase {
            StreamPhase::Completed => (
                self.failed(),
                Err(stream_failure(ModelStreamFailureKind::EventAfterCompletion)),
            ),
            StreamPhase::Failed => (
                self,
                Err(stream_failure(ModelStreamFailureKind::EventAfterFailure)),
            ),
            StreamPhase::Open => match item {
                Err(error) => (
                    self.failed(),
                    Err(
                        if error is ResourceLimit {
                            error
                        } else {
                            stream_failure(ModelStreamFailureKind::UpstreamProviderFailure)
                        },
                    ),
                ),
                Ok(ModelStreamEvent::ToolCallDelta(delta)) => {
                    let (assembler, result) = assembled(self.assembler, delta);
                    match result {
                        Ok(call) => (
                            StreamModel { assembler, ..self },
                            Ok(
                                ValidatedModelStreamEvent {
                                    event: ModelStreamEvent::ToolCallDelta(delta),
                                    completed_tool_call: call,
                                },
                            ),
                        ),
                        Err(error) => (StreamModel { assembler, ..self }.failed(), Err(error)),
                    }
                },
                Ok(ModelStreamEvent::Completed { model, usage }) => if self.assembler.pending.len()
                    > 0 {
                    (
                        self.failed(),
                        Err(stream_failure(ModelStreamFailureKind::CompletionWithPendingCall)),
                    )
                } else {
                    (
                        StreamModel { phase: StreamPhase::Completed, ..self },
                        Ok(
                            ValidatedModelStreamEvent {
                                event: ModelStreamEvent::Completed { model, usage },
                                completed_tool_call: None,
                            },
                        ),
                    )
                },
                Ok(event) => (
                    self,
                    Ok(ValidatedModelStreamEvent { event, completed_tool_call: None }),
                ),
            },
        }
    }

    /// What the end of the stream means.
    pub open spec fn ended(self) -> (StreamModel, Result<(), HarnessError<Seq<char>>>) {
        match self.phase {
            StreamPhase::Completed => (self, Ok(())),
            StreamPhase::Failed => (
                self,
                Err(stream_failure(ModelStreamFailureKind::EofAfterFailure)),
            ),
            StreamPhase::Open => (
                self.failed(),
                Err(
                    stream_failure(
                        if self.assembler.pending.len() > 0 {
                            ModelStreamFailureKind::EofWithPendingCall
                        } else {
                            ModelStreamFailureKind::EofBeforeCompletion
                        },
                    ),
                ),
            ),
        }
    }
}

/// A model stream that yields a response only if it completes.
pub struct ModelStreamController {
    assembler: ToolCallAssembler,
    phase: StreamPhase,
}

impl View for ModelStreamController {
    type V = StreamModel;

    closed spec fn view(&self) -> StreamModel {
        StreamModel { assembler: self.assembler@, phase: self.phase }
    }
}

/// The view of a checked item.
pub open spec fn validated_view(result: Result<ValidatedModelStreamEvent, HarnessError>) -> Result<
    ValidatedModelStreamEvent<Seq<char>>,
    HarnessError<Seq<char>>,
> {
    match result {
        Ok(event) => Ok(event@),
        Err(error) => Err(error@),
    }
}

impl ModelStreamController {
    /// Whether the assembler inside is well-formed.
    pub closed spec fn wf(&self) -> bool {
        self.assembler.wf()
    }

    /// A stream without events.
    pub fn new(assembler: ToolCallAssembler) -> (result: ModelStreamController)
        requires
            assembler.wf(),
        ensures
            result.wf(),
            result@ == (StreamModel { assembler: assembler@, phase: StreamPhase::Open }),
    {
        ModelStreamController { assembler, phase: StreamPhase::Open }
    }

    /// Checks one item.
    pub fn push(&mut self, item: Result<ModelStreamEvent, HarnessError>) -> (result: Result<
        ValidatedModelStreamEvent,
        HarnessError,
    >)
        requires
            old(self).wf(),
        ensures
            final(self).wf(),
            (final(self)@, validated_view(result)) == old(self)@.pushed(item_view(item)),
    {
        match self.phase {
            StreamPhase::Completed => {
                self.phase = StreamPhase::Failed;
                return Err(
                    HarnessError::ModelStream {
                        kind: ModelStreamFailureKind::EventAfterCompletion,
                    },
                );
            },
            StreamPhase::Failed => {
                return Err(
                    HarnessError::ModelStream { kind: ModelStreamFailureKind::EventAfterFailure },
                );
            },
            StreamPhase::Open => {},
        }
        let event = match item {
            Ok(event) => event,
            Err(error) => {
                self.phase = StreamPhase::Failed;
                if matches!(error, HarnessError::ResourceLimit(_)) {
                    return Err(error);
                }
                return Err(
                    HarnessError::ModelStream {
                        kind: ModelStreamFailureKind::UpstreamProviderFailure,
                    },
                );
            },
        };
        match event {
            ModelStreamEvent::ToolCallDelta(delta) => {
                let pushed = copy_delta(&delta);
                match self.assembler.push(pushed) {
                    Ok(completed_tool_call) => Ok(
                        ValidatedModelStreamEvent {
                            event: ModelStreamEvent::ToolCallDelta(delta),
                            completed_tool_call,
                        },
                    ),
                    Err(error) => {
                        self.phase = StreamPhase::Failed;
                        Err(error)
                    },
                }
            },
            ModelStreamEvent::Completed { model, usage } => {
                if self.assembler.has_pending() {
                    self.phase = StreamPhase::Failed;
                    return Err(
                        HarnessError::ModelStream {
                            kind: ModelStreamFailureKind::CompletionWithPendingCall,
                        },
                    );
                }
                self.phase = StreamPhase::Completed;
                Ok(
                    ValidatedModelStreamEvent {
                        event: ModelStreamEvent::Completed { model, usage },
                        completed_tool_call: None,
                    },
                )
            },
            event => Ok(ValidatedModelStreamEvent { event, completed_tool_call: None }),
        }
    }

    /// Checks the end of the stream.
    pub fn finish_eof(&mut self) -> (result: Result<(), HarnessError>)
        requires
            old(self).wf(),
        ensures
            final(self).wf(),
            (final(self)@, check_view(result)) == old(self)@.ended(),
    {
        match self.phase {
            StreamPhase::Completed => Ok(()),
            StreamPhase::Failed => Err(
                HarnessError::ModelStream { kind: ModelStreamFailureKind::EofAfterFailure },
            ),
            StreamPhase::Open => {
                self.phase = StreamPhase::Failed;
                let kind = if self.assembler.has_pending() {
                    ModelStreamFailureKind::EofWithPendingCall
                } else {
                    ModelStreamFailureKind::EofBeforeCompletion
                };
                Err(HarnessError::ModelStream { kind })
            },
        }
    }
}

fn copy_delta(delta: &ToolCallDelta) -> (result: ToolCallDelta)
    ensures
        result@ == delta@,
{
    ToolCallDelta {
        index: delta.index,
        call_id: crate::text::copy_option(&delta.call_id),
        tool_id: crate::text::copy_option(&delta.tool_id),
        arguments_fragment: delta.arguments_fragment.clone(),
        is_final: delta.is_final,
    }
}

/// A model stream yields nothing after it completed or failed.
pub proof fn closed_streams_stay_closed(
    stream: StreamModel,
    item: Result<ModelStreamEvent<Seq<char>>, HarnessError<Seq<char>>>,
)
    requires
        stream.phase != StreamPhase::Open,
    ensures
        stream.pushed(item).1 is Err,
        stream.pushed(item).0.phase == StreamPhase::Failed,
        stream.pushed(item).0.assembler == stream.assembler,
        stream.ended().0.assembler == stream.assembler,
{
}

/// The calls in the order of their indices, with one written.
pub open spec fn with_call(
    calls: Seq<(usize, ToolCall<Seq<char>>)>,
    index: usize,
    call: ToolCall<Seq<char>>,
) -> Seq<(usize, ToolCall<Seq<char>>)>
    decreases calls.len(),
{
    if calls.len() == 0 || calls.last().0 < index {
        calls.push((index, call))
    } else if calls.last().0 == index {
        calls.drop_last().push((index, call))
    } else {
        with_call(calls.drop_last(), index, call).push(calls.last())
    }
}

/// Whether a call has this index.
pub open spec fn has_call(calls: Seq<(usize, ToolCall<Seq<char>>)>, index: usize) -> bool {
    exists|i: int| 0 <= i < calls.len() && (#[trigger] calls[i]).0 == index
}

/// Whether the indices grow.
pub open spec fn calls_in_order(calls: Seq<(usize, ToolCall<Seq<char>>)>) -> bool {
    forall|i: int, j: int|
        0 <= i < j < calls.len() ==> (#[trigger] calls[i]).0 < (#[trigger] calls[j]).0
}

/// The model of a response under assembly.
pub struct AssemblyModel {
    /// Model name, once the response completed.
    pub model: Option<Seq<char>>,
    /// Token usage.
    pub usage: Usage,
    /// Text so far.
    pub text: Seq<char>,
    /// Calls so far, in the order of their indices.
    pub calls: Seq<(usize, ToolCall<Seq<char>>)>,
    /// Bytes retained so far.
    pub retained_bytes: u64,
    /// Most bytes that may be retained.
    pub max_bytes: u64,
}

/// The sum of three lengths, as far as a machine word holds it.
pub open spec fn saturated(bytes: nat) -> nat {
    if bytes > usize::MAX {
        usize::MAX as nat
    } else {
        bytes
    }
}

impl AssemblyModel {
    /// The assembly with more bytes retained, or the error of too many.
    pub open spec fn retain(self, bytes: nat) -> (AssemblyModel, Result<(), HarnessError<Seq<char>>>) {
        if self.retained_bytes + bytes > u64::MAX {
            (self, Err(HarnessError::ResourceLimit("stream response size overflow"@)))
        } else {
            let next = AssemblyModel {
                retained_bytes: (self.retained_bytes + bytes) as u64,
                ..self
            };
            if next.retained_bytes > self.max_bytes {
                (
                    next,
                    Err(
                        HarnessError::ResourceLimit(
                            "stream response exceeded model response byte limit"@,
                        ),
                    ),
                )
            } else {
                (next, Ok(()))
            }
        }
    }

    /// The assembly with text added.
    pub open spec fn with_text(self, content: Seq<char>) -> (
        AssemblyModel,
        Result<(), HarnessError<Seq<char>>>,
    ) {
        let (next, result) = self.retain(utf8_len(content));
        match result {
            Ok(_) => (AssemblyModel { text: next.text + content, ..next }, Ok(())),
            Err(error) => (next, Err(error)),
        }
    }

    /// The assembly with a complete call added.
    pub open spec fn with_call(self, index: usize, call: ToolCall<Seq<char>>) -> (
        AssemblyModel,
        Result<(), HarnessError<Seq<char>>>,
    ) {
        let bytes = saturated(
            saturated(utf8_len(call.id) + utf8_len(call.tool_id)) + utf8_len(call.arguments_json),
        );
        let (next, result) = self.retain(bytes);
        match result {
            Ok(_) => (
                AssemblyModel { calls: with_call(next.calls, index, call), ..next },
                if has_call(self.calls, index) {
                    Err(
                        HarnessError::InvalidRequest(
                            "stream finalized one call index more than once"@,
                        ),
                    )
                } else {
                    Ok(())
                },
            ),
            Err(error) => (next, Err(error)),
        }
    }

    /// The assembly of a response that completed.
    pub open spec fn completed(self, model: Seq<char>, usage: Usage) -> (
        AssemblyModel,
        Result<(), HarnessError<Seq<char>>>,
    ) {
        let (next, result) = self.retain(utf8_len(model));
        match result {
            Ok(_) => (AssemblyModel { model: Some(model), usage, ..next }, Ok(())),
            Err(error) => (next, Err(error)),
        }
    }

    /// The response.
    pub open spec fn response(self) -> Result<ResponseModel, HarnessError<Seq<char>>> {
        match self.model {
            None => Err(
                HarnessError::InvalidRequest("stream completed without model metadata"@),
            ),
            Some(model) => Ok(
                ResponseModel {
                    model,
                    final_output: if self.text.len() == 0 {
                        None
                    } else {
                        Some(self.text)
                    },
                    tool_calls: self.calls.map_values(
                        |entry: (usize, ToolCall<Seq<char>>)| entry.1,
                    ),
                    usage: self.usage,
                },
            ),
        }
    }
}

/// A response under assembly.
pub struct StreamResponseAssembler {
    model: Option<String>,
    usage: Usage,
    text: String,
    calls: Vec<(usize, ToolCall)>,
    retained_bytes: u64,
    max_bytes: u64,
}

/// The views of indexed calls.
pub open spec fn indexed_view(calls: Seq<(usize, ToolCall)>) -> Seq<(usize, ToolCall<Seq<char>>)> {
    calls.map_values(|entry: (usize, ToolCall)| (entry.0, entry.1@))
}

impl View for StreamResponseAssembler {
    type V = AssemblyModel;

    closed spec fn view(&self) -> AssemblyModel {
        AssemblyModel {
            model: text_option(self.model),
            usage: self.usage,
            text: self.text@,
            calls: indexed_view(self.calls@),
            retained_bytes: self.retained_bytes,
            max_bytes: self.max_bytes,
        }
    }
}

/// Writes a call at its place; whether its index was taken.
#[verifier::rlimit(40)]
fn insert_call(calls: &mut Vec<(usize, ToolCall)>, index: usize, call: ToolCall) -> (taken: bool)
    requires
        calls_in_order(indexed_view(old(calls)@)),
    ensures
        indexed_view(final(calls)@) == with_call(indexed_view(old(calls)@), index, call@),
        calls_in_order(indexed_view(final(calls)@)),
        taken == has_call(indexed_view(old(calls)@), index),
{
    let ghost whole = indexed_view(calls@);
    let mut at: usize = calls.len();
    let ghost mut tail: Seq<(usize, ToolCall<Seq<char>>)> = Seq::empty();
    assert(whole.take(at as int) =~= whole);
    assert(with_call(whole, index, call@) =~= with_call(whole.take(at as int), index, call@)
        + tail);
    while at > 0 && calls[at - 1].0 > index
        invariant
            at <= calls@.len(),
            whole == indexed_view(calls@),
            calls_in_order(whole),
            tail =~= whole.skip(at as int),
            forall|i: int| at <= i < whole.len() ==> (#[trigger] whole[i]).0 > index,
            with_call(whole, index, call@) == with_call(whole.take(at as int), index, call@)
                + tail,
        decreases at,
    {
        proof {
            let head = whole.take(at as int);
            assert(head.last() == whole[at - 1]);
            assert(head.drop_last() =~= whole.take(at - 1));
            assert(whole.skip(at - 1) =~= seq![head.last()] + tail);
            assert(with_call(head, index, call@) + tail =~= with_call(
                whole.take(at - 1),
                index,
                call@,
            ) + whole.skip(at - 1));
            tail = whole.skip(at - 1);
        }
        at -= 1;
    }
    let ghost head = whole.take(at as int);
    let ghost new_call = call@;
    proof {
        if at > 0 {
            assert(head.last() == whole[at - 1]);
        }
    }
    if at > 0 && calls[at - 1].0 == index {
        calls.set(at - 1, (index, call));
        proof {
            let result = indexed_view(calls@);
            assert(result =~= whole.update(at - 1, (index, new_call)));
            assert(head.drop_last().push((index, new_call)) + tail =~= result);
            assert(whole[at - 1].0 == index);
            assert forall|i: int, j: int| 0 <= i < j < result.len() implies (
            #[trigger] result[i]).0 < (#[trigger] result[j]).0 by {
                assert(whole[i].0 < whole[j].0);
            }
        }
        return true;
    }
    calls.insert(at, (index, call));
    proof {
        let result = indexed_view(calls@);
        assert(result =~= whole.insert(at as int, (index, new_call)));
        assert(result =~= head.push((index, new_call)) + tail);
        inserted_keeps_order(whole, at as int, index, new_call);
    }
    false
}

proof fn inserted_keeps_order(
    whole: Seq<(usize, ToolCall<Seq<char>>)>,
    at: int,
    index: usize,
    call: ToolCall<Seq<char>>,
)
    requires
        0 <= at <= whole.len(),
        calls_in_order(whole),
        at > 0 ==> whole[at - 1].0 < index,
        forall|i: int| at <= i < whole.len() ==> (#[trigger] whole[i]).0 > index,
    ensures
        calls_in_order(whole.insert(at, (index, call))),
        !has_call(whole, index),
{
    let result = whole.insert(at, (index, call));
    assert forall|i: int| 0 <= i < at implies (#[trigger] whole[i]).0 < index by {
        if i < at - 1 {
            assert(whole[i].0 < whole[at - 1].0);
        }
    }
    assert forall|i: int, j: int| 0 <= i < j < result.len() implies (#[trigger] result[i]).0 < (
    #[trigger] result[j]).0 by {
        if j < at {
            assert(whole[i].0 < whole[j].0);
        } else if i > at {
            assert(whole[i - 1].0 < whole[j - 1].0);
        } else if i < at && j > at {
            assert(whole[i].0 < whole[j - 1].0);
        }
    }
}

impl StreamResponseAssembler {
    /// Whether the calls are in the order of their indices.
    pub open spec fn wf(&self) -> bool {
        calls_in_order(self@.calls)
    }

    /// A response without content.
    pub fn new(max_bytes: u64) -> (result: StreamResponseAssembler)
        ensures
            result.wf(),
            result@ == (AssemblyModel {
                model: None,
                usage: Usage { input_tokens: 0, output_tokens: 0 },
                text: Seq::empty(),
                calls: Seq::empty(),
                retained_bytes: 0,
                max_bytes,
            }),
    {
        let result = StreamResponseAssembler {
            model: None,
            usage: Usage::default(),
            text: String::new(),
            calls: Vec::new(),
            retained_bytes: 0,
            max_bytes,
        };
        assert(result@.calls =~= Seq::empty());
        result
    }

    fn retain(&mut self, bytes: usize) -> (result: Result<(), HarnessError>)
        ensures
            (final(self)@, check_view(result)) == old(self)@.retain(bytes as nat),
    {
        match self.retained_bytes.checked_add(bytes as u64) {
            Some(total) => {
                self.retained_bytes = total;
                if total > self.max_bytes {
                    return Err(
                        HarnessError::ResourceLimit(
                            "stream response exceeded model response byte limit".to_owned(),
                        ),
                    );
                }
                Ok(())
            },
            None => Err(
                HarnessError::ResourceLimit("stream response size overflow".to_owned()),
            ),
        }
    }

    /// Adds text.
    pub fn text(&mut self, content: String) -> (result: Result<(), HarnessError>)
        ensures
            (final(self)@, check_view(result)) == old(self)@.with_text(content@),
    {
        self.retain(byte_len(content.as_str()))?;
        self.text.append(content.as_str());
        Ok(())
    }

    /// Adds a complete call.
    pub fn call(&mut self, index: usize, call: ToolCall) -> (result: Result<(), HarnessError>)
        requires
            old(self).wf(),
        ensures
            (final(self)@, check_view(result)) == old(self)@.with_call(index, call@),
            final(self).wf(),
    {
        let bytes = byte_len(call.id.as_str()).saturating_add(
            byte_len(call.tool_id.as_str()),
        ).saturating_add(byte_len(call.arguments_json.as_str()));
        self.retain(bytes)?;
        if insert_call(&mut self.calls, index, call) {
            return Err(
                HarnessError::InvalidRequest(
                    "stream finalized one call index more than once".to_owned(),
                ),
            );
        }
        Ok(())
    }

    /// Completes the response.
    pub fn complete(&mut self, model: String, usage: Usage) -> (result: Result<(), HarnessError>)
        ensures
            (final(self)@, check_view(result)) == old(self)@.completed(model@, usage),
    {
        self.retain(byte_len(model.as_str()))?;
        self.model = Some(model);
        self.usage = usage;
        Ok(())
    }

    /// The response.
    pub fn finish(&self) -> (result: Result<ModelResponse, HarnessError>)
        ensures
            (match result {
                Ok(response) => Ok::<_, HarnessError<Seq<char>>>(response@),
                Err(error) => Err(error@),
            }) == self@.response(),
    {
        let model = match &self.model {
            Some(model) => model,
            None => {
                return Err(
                    HarnessError::InvalidRequest(
                        "stream completed without model metadata".to_owned(),
                    ),
                );
            },
        };
        let mut calls: Vec<ToolCall> = Vec::new();
        let mut i: usize = 0;
        while i < self.calls.len()
            invariant
                i <= self.calls@.len(),
                calls@.len() == i,
                forall|j: int| 0 <= j < i ==> (#[trigger] calls@[j])@ == self.calls@[j].1@,
            decreases self.calls@.len() - i,
        {
            calls.push(self.calls[i].1.duplicate());
            i += 1;
        }
        let ghost projected = self@.calls.map_values(
            |entry: (usize, ToolCall<Seq<char>>)| entry.1,
        );
        assert(calls_view(calls@) =~= projected);
        let mut response = ModelResponse::new(model.as_str()).with_tool_calls(calls).with_usage(
            self.usage,
        );
        if !self.text.as_str().is_empty() {
            response = response.with_final_output(self.text.as_str());
        }
        Ok(response)
    }
}

/// The call that may be issued early, and how far that has come.
///
/// `S` is the text: `String` in running code, a sequence of characters in contracts.
pub enum Candidate<S = String> {
    /// It is only compared with the authoritative call.
    Shadow {
        /// The call.
        call: ToolCall<S>,
        /// Its identity.
        key: InvocationKey<S>,
    },
    /// It is being executed.
    ActivePending {
        /// The call.
        call: ToolCall<S>,
        /// Its identity.
        key: InvocationKey<S>,
        /// When it expires, in milliseconds.
        deadline: u64,
    },
    /// Its result is waiting for the authoritative call.
    ActiveReady {
        /// The call.
        call: ToolCall<S>,
        /// Its identity.
        key: InvocationKey<S>,
        /// When it expires, in milliseconds.
        deadline: u64,
    },
}

impl View for Candidate<String> {
    type V = Candidate<Seq<char>>;

    open spec fn view(&self) -> Candidate<Seq<char>> {
        match self {
            Candidate::Shadow { call, key } => Candidate::Shadow { call: call@, key: key@ },
            Candidate::ActivePending { call, key, deadline } => Candidate::ActivePending {
                call: call@,
                key: key@,
                deadline: *deadline,
            },
            Candidate::ActiveReady { call, key, deadline } => Candidate::ActiveReady {
                call: call@,
                key: key@,
                deadline: *deadline,
            },
        }
    }
}

/// The view of an optional candidate.
pub open spec fn candidate_option(candidate: Option<Candidate>) -> Option<Candidate<Seq<char>>> {
    match candidate {
        Some(candidate) => Some(candidate@),
        None => None,
    }
}

/// The tool of a candidate.
pub open spec fn candidate_tool(candidate: Candidate<Seq<char>>) -> Seq<char> {
    match candidate {
        Candidate::Shadow { call, .. } => call.tool_id,
        Candidate::ActivePending { call, .. } => call.tool_id,
        Candidate::ActiveReady { call, .. } => call.tool_id,
    }
}

/// Whether the authoritative call is exactly the candidate.
pub open spec fn matches_candidate(
    call: ToolCall<Seq<char>>,
    key: InvocationKey<Seq<char>>,
    authoritative: Option<ToolCall<Seq<char>>>,
) -> bool {
    match authoritative {
        Some(actual) => match parsed_json(actual.arguments_json) {
            Ok(arguments) => call.id == actual.id && key == invocation_key(
                actual.tool_id,
                arguments,
            ),
            Err(_) => false,
        },
        None => false,
    }
}

/// Whether the authoritative call is exactly the candidate.
pub fn invocation_matches(call: &ToolCall, key: &InvocationKey, authoritative: Option<&ToolCall>) -> (
result: bool)
    ensures
        result == matches_candidate(
            call@,
            key@,
            match authoritative {
                Some(actual) => Some(actual@),
                None => None,
            },
        ),
{
    match authoritative {
        Some(actual) => match parse_json(actual.arguments_json.as_str()) {
            Ok(arguments) => same_text(call.id.as_str(), actual.id.as_str()) && key.same(
                &InvocationKey::new(actual.tool_id.as_str(), &arguments),
            ),
            Err(_) => false,
        },
        None => false,
    }
}

/// Which deadline comes first.
#[derive(Clone, Copy, Debug, PartialEq, Eq, Structural)]
pub enum DeadlineKind {
    /// That of the provider call.
    Call,
    /// That of the candidate.
    Candidate,
}

/// The deadline that a turn waits for: the earlier one, and that of the call where both are
/// the same.
pub open spec fn earliest(call: Option<u64>, candidate: Option<u64>) -> Option<(u64, DeadlineKind)> {
    match (call, candidate) {
        (Some(call), Some(candidate)) => if call <= candidate {
            Some((call, DeadlineKind::Call))
        } else {
            Some((candidate, DeadlineKind::Candidate))
        },
        (Some(call), None) => Some((call, DeadlineKind::Call)),
        (None, Some(candidate)) => Some((candidate, DeadlineKind::Candidate)),
        (None, None) => None,
    }
}

/// When a candidate issued at `now` expires.
pub open spec fn candidate_expiry(now_ms: u64, duration_ms: u64, call_deadline: Option<u64>) -> Result<
    u64,
    HarnessError<Seq<char>>,
> {
    if now_ms + duration_ms > u64::MAX {
        Err(HarnessError::InvalidRequest("speculation duration is too large"@))
    } else {
        match call_deadline {
            Some(deadline) => if deadline < now_ms + duration_ms {
                Ok(deadline)
            } else {
                Ok((now_ms + duration_ms) as u64)
            },
            None => Ok((now_ms + duration_ms) as u64),
        }
    }
}

/// When a candidate issued at `now_ms` expires.
pub fn candidate_deadline_for(
    config: &SpeculationConfig,
    now_ms: u64,
    call_deadline: Option<u64>,
) -> (result: Result<u64, HarnessError>)
    ensures
        (match result {
            Ok(deadline) => Ok::<_, HarnessError<Seq<char>>>(deadline),
            Err(error) => Err(error@),
        }) == candidate_expiry(now_ms, config.max_execution_duration_ms, call_deadline),
{
    match now_ms.checked_add(config.max_execution_duration_ms) {
        Some(candidate) => match call_deadline {
            Some(deadline) => if deadline < candidate {
                Ok(deadline)
            } else {
                Ok(candidate)
            },
            None => Ok(candidate),
        },
        None => Err(
            HarnessError::InvalidRequest("speculation duration is too large".to_owned()),
        ),
    }
}

/// Limits of one streamed turn: those of the assembler and those of its inputs.
#[derive(Clone, Copy, Debug, PartialEq, Eq, Structural)]
pub struct TurnLimits {
    /// Limits of the assembler.
    pub assembly: ToolCallAssemblyLimits,
    /// Most bytes of one call's arguments.
    pub max_argument_bytes: usize,
    /// Most tools of one request.
    pub max_allowed_tools: usize,
    /// Most bytes of all schemas together.
    pub max_aggregate_schema_bytes: usize,
}

/// A value as far as a machine word holds it.
pub open spec fn word(value: u64) -> usize {
    if value > usize::MAX {
        usize::MAX
    } else {
        value as usize
    }
}

/// The lesser of two values.
pub open spec fn lesser(left: usize, right: usize) -> usize {
    if left < right {
        left
    } else {
        right
    }
}

/// The provider's limits, narrowed by those of the run.
pub open spec fn narrowed_limits(provider: TurnLimits, run: AgentLimits, tool_count: usize) -> TurnLimits {
    let field_bytes = if 2 * provider.assembly.max_field_bytes > usize::MAX {
        usize::MAX as int
    } else {
        2 * provider.assembly.max_field_bytes
    };
    let call_bytes = if word(run.max_tool_arguments_bytes) + field_bytes > usize::MAX {
        usize::MAX as int
    } else {
        word(run.max_tool_arguments_bytes) + field_bytes
    };
    TurnLimits {
        assembly: ToolCallAssemblyLimits {
            max_calls: lesser(provider.assembly.max_calls, run.max_tool_calls as usize),
            max_call_bytes: lesser(provider.assembly.max_call_bytes, call_bytes as usize),
            max_total_buffered_bytes: lesser(
                lesser(
                    provider.assembly.max_total_buffered_bytes,
                    word(run.max_request_payload_bytes),
                ),
                word(run.max_model_response_bytes),
            ),
            max_field_bytes: provider.assembly.max_field_bytes,
            max_json_depth: if run.max_json_depth < provider.assembly.max_json_depth {
                run.max_json_depth
            } else {
                provider.assembly.max_json_depth
            },
        },
        max_argument_bytes: lesser(
            provider.max_argument_bytes,
            word(run.max_tool_arguments_bytes),
        ),
        max_allowed_tools: lesser(
            provider.max_allowed_tools,
            if tool_count < 1 {
                1
            } else {
                tool_count
            },
        ),
        max_aggregate_schema_bytes: lesser(
            provider.max_aggregate_schema_bytes,
            word(run.max_request_payload_bytes),
        ),
    }
}

fn bounded_usize(value: u64) -> (result: usize)
    ensures
        result == word(value),
{
    if value > usize::MAX as u64 {
        usize::MAX
    } else {
        value as usize
    }
}

fn min_usize(left: usize, right: usize) -> (result: usize)
    ensures
        result == lesser(left, right),
{
    if left < right {
        left
    } else {
        right
    }
}

/// The limits of a provider for one streamed turn: what it says of streamed calls, and else the
/// usual limits.
pub open spec fn provider_limits(provider: ProviderCapabilityLimits, tool_count: usize) -> TurnLimits {
    TurnLimits {
        assembly: ToolCallAssemblyLimits {
            max_calls: match provider.max_streamed_tool_calls {
                Some(calls) => calls as usize,
                None => 16,
            },
            max_call_bytes: 67_584,
            max_total_buffered_bytes: 262_144,
            max_field_bytes: 1024,
            max_json_depth: 64,
        },
        max_argument_bytes: match provider.max_streamed_argument_bytes {
            Some(bytes) => word(bytes),
            None => usize::MAX,
        },
        max_allowed_tools: if tool_count < 1 {
            1
        } else {
            tool_count
        },
        max_aggregate_schema_bytes: usize::MAX,
    }
}

/// The limits of a provider for one streamed turn.
pub fn turn_limits_of(provider: &ProviderCapabilityLimits, tool_count: usize) -> (result: TurnLimits)
    ensures
        result == provider_limits(*provider, tool_count),
{
    let usual = ToolCallAssemblyLimits::default();
    TurnLimits {
        assembly: ToolCallAssemblyLimits {
            max_calls: match provider.max_streamed_tool_calls {
                Some(calls) => calls as usize,
                None => usual.max_calls,
            },
            ..usual
        },
        max_argument_bytes: match provider.max_streamed_argument_bytes {
            Some(bytes) => bounded_usize(bytes),
            None => usize::MAX,
        },
        max_allowed_tools: if tool_count < 1 {
            1
        } else {
            tool_count
        },
        max_aggregate_schema_bytes: usize::MAX,
    }
}

/// Narrows a provider's limits by those of the run.
pub fn assembly_limits(run: &AgentLimits, provider: &TurnLimits, tool_count: usize) -> (result:
    Result<TurnLimits, HarnessError>)
    ensures
        match result {
            Ok(limits) => limits == narrowed_limits(*provider, *run, tool_count)
                && limits.assembly.check() is Ok,
            Err(error) => narrowed_limits(*provider, *run, tool_count).assembly.check() == Err::<
                (),
                _,
            >(error@),
        },
{
    let argument_bytes = bounded_usize(run.max_tool_arguments_bytes);
    let request_bytes = bounded_usize(run.max_request_payload_bytes);
    let response_bytes = bounded_usize(run.max_model_response_bytes);
    let base = provider.assembly;
    let call_bytes = argument_bytes.saturating_add(base.max_field_bytes.saturating_add(base.max_field_bytes));
    let limits = TurnLimits {
        assembly: ToolCallAssemblyLimits {
            max_calls: min_usize(base.max_calls, run.max_tool_calls as usize),
            max_call_bytes: min_usize(base.max_call_bytes, call_bytes),
            max_total_buffered_bytes: min_usize(
                min_usize(base.max_total_buffered_bytes, request_bytes),
                response_bytes,
            ),
            max_field_bytes: base.max_field_bytes,
            max_json_depth: if run.max_json_depth < base.max_json_depth {
                run.max_json_depth
            } else {
                base.max_json_depth
            },
        },
        max_argument_bytes: min_usize(provider.max_argument_bytes, argument_bytes),
        max_allowed_tools: min_usize(
            provider.max_allowed_tools,
            if tool_count < 1 {
                1
            } else {
                tool_count
            },
        ),
        max_aggregate_schema_bytes: min_usize(provider.max_aggregate_schema_bytes, request_bytes),
    };
    limits.assembly.validate()?;
    Ok(limits)
}

/// The model of one streamed turn.
pub struct TurnModel {
    /// The checked stream.
    pub stream: StreamModel,
    /// The response under assembly.
    pub response: AssemblyModel,
    /// The candidate.
    pub candidate: Option<Candidate<Seq<char>>>,
    /// Whether the first call was considered.
    pub considered: bool,
    /// Incomplete arguments probed so far.
    pub probes: u8,
    /// Stream items so far.
    pub events: u32,
}

/// What a turn asks for next.
pub enum TurnStep {
    /// Wait for the next wake.
    Continue,
    /// Try to issue this call early, and report with `StreamTurn::on_slot`.
    Issue(ToolCall, InvocationKey),
    /// The response is complete: await what is in flight, and conclude.
    Finished,
    /// The turn failed: cancel the provider call and discard what is in flight.
    Failed(HarnessError),
}

/// The model of a turn step.
pub enum TurnStepModel {
    /// Wait for the next wake.
    Continue,
    /// Try to issue this call early.
    Issue(ToolCall<Seq<char>>, InvocationKey<Seq<char>>),
    /// The response is complete.
    Finished,
    /// The turn failed.
    Failed(HarnessError<Seq<char>>),
}

impl View for TurnStep {
    type V = TurnStepModel;

    open spec fn view(&self) -> TurnStepModel {
        match self {
            TurnStep::Continue => TurnStepModel::Continue,
            TurnStep::Issue(call, key) => TurnStepModel::Issue(call@, key@),
            TurnStep::Finished => TurnStepModel::Finished,
            TurnStep::Failed(error) => TurnStepModel::Failed(error@),
        }
    }
}

/// The controller with what happened to one tool, where it has a state.
pub open spec fn touched(
    controller: ControllerModel,
    tool_id: Seq<char>,
    change: spec_fn(ToolModel) -> ToolModel,
) -> ControllerModel {
    match controller.state(tool_id) {
        Some(state) => controller.with_state(tool_id, change(state)),
        None => controller,
    }
}

/// The controller after the stream of a candidate failed.
pub open spec fn after_failure(
    controller: ControllerModel,
    candidate: Option<Candidate<Seq<char>>>,
) -> ControllerModel {
    match candidate {
        Some(candidate) => touched(
            controller,
            candidate_tool(candidate),
            |state: ToolModel| state.stream_failed(),
        ),
        None => controller,
    }
}

/// A turn that failed.
pub open spec fn failed_turn(
    turn: TurnModel,
    controller: ControllerModel,
    error: HarnessError<Seq<char>>,
) -> (TurnModel, ControllerModel, TurnStepModel) {
    (
        TurnModel { candidate: None, ..turn },
        after_failure(controller, turn.candidate),
        TurnStepModel::Failed(error),
    )
}

/// What the first complete call means for speculation.
pub open spec fn considered_call(
    turn: TurnModel,
    controller: ControllerModel,
    tools: Seq<RegisteredTool>,
    scope: &ToolScope,
    request: &RunRequest,
    call: ToolCall<Seq<char>>,
) -> (TurnModel, ControllerModel, TurnStepModel) {
    let key = candidate_key(tools, scope, request, call);
    let prior = controller.mode(call.tool_id);
    let registered = if key is Some {
        controller.with_tool(call.tool_id)
    } else {
        controller
    };
    let mode = registered.mode(call.tool_id);
    let noted = if prior == SpeculationMode::Active || mode == SpeculationMode::Active {
        touched(registered, call.tool_id, |state: ToolModel| state.considered())
    } else {
        registered
    };
    let turn = TurnModel { considered: true, ..turn };
    match key {
        Some(key) => match mode {
            SpeculationMode::Shadow => (
                TurnModel { candidate: Some(Candidate::Shadow { call, key }), ..turn },
                noted,
                TurnStepModel::Continue,
            ),
            SpeculationMode::Active => (
                TurnModel { candidate: None, ..turn },
                noted,
                TurnStepModel::Issue(call, key),
            ),
            SpeculationMode::Disabled => (
                TurnModel { candidate: None, ..turn },
                noted,
                TurnStepModel::Continue,
            ),
        },
        None => (
            turn,
            if mode == SpeculationMode::Active {
                touched(
                    noted,
                    call.tool_id,
                    |state: ToolModel| state.skipped(PreIssueSkipReason::Validation),
                )
            } else {
                noted
            },
            TurnStepModel::Continue,
        ),
    }
}

/// The turn after one stream item, and what it asks for next.
pub open spec fn turn_after(
    turn: TurnModel,
    controller: ControllerModel,
    tools: Seq<RegisteredTool>,
    scope: &ToolScope,
    request: &RunRequest,
    probing: bool,
    item: Result<ModelStreamEvent<Seq<char>>, HarnessError<Seq<char>>>,
) -> (TurnModel, ControllerModel, TurnStepModel) {
    let counted = TurnModel {
        events: if turn.events == u32::MAX {
            turn.events
        } else {
            (turn.events + 1) as u32
        },
        ..turn
    };
    if counted.events > controller.config.max_stream_events {
        failed_turn(
            counted,
            controller,
            HarnessError::ResourceLimit("speculative stream event limit reached"@),
        )
    } else {
        let (stream, checked) = turn.stream.pushed(item);
        let pushed = TurnModel { stream, ..counted };
        match checked {
            Err(error) => failed_turn(pushed, controller, error),
            Ok(validated) => match validated.event {
                ModelStreamEvent::TextDelta { content } => {
                    let (response, result) = pushed.response.with_text(content);
                    let next = TurnModel { response, ..pushed };
                    match result {
                        Err(error) => failed_turn(next, controller, error),
                        Ok(_) => (next, controller, TurnStepModel::Continue),
                    }
                },
                ModelStreamEvent::ToolCallDelta(delta) => {
                    let probed = TurnModel {
                        probes: if probing && pushed.probes < 8 && delta.index == 0
                            && !delta.is_final {
                            (pushed.probes + 1) as u8
                        } else {
                            pushed.probes
                        },
                        ..pushed
                    };
                    match validated.completed_tool_call {
                        None => (probed, controller, TurnStepModel::Continue),
                        Some(call) => {
                            let (response, result) = probed.response.with_call(delta.index, call);
                            let next = TurnModel { response, ..probed };
                            match result {
                                Err(error) => failed_turn(next, controller, error),
                                Ok(_) => if delta.index == 0 && !turn.considered {
                                    considered_call(
                                        next,
                                        controller,
                                        tools,
                                        scope,
                                        request,
                                        call,
                                    )
                                } else {
                                    (next, controller, TurnStepModel::Continue)
                                },
                            }
                        },
                    }
                },
                ModelStreamEvent::Completed { model, usage } => {
                    let (response, result) = pushed.response.completed(model, usage);
                    let next = TurnModel { response, ..pushed };
                    match result {
                        Err(error) => failed_turn(next, controller, error),
                        Ok(_) => (next, controller, TurnStepModel::Finished),
                    }
                },
            },
        }
    }
}

/// One streamed model turn.
pub struct StreamTurn {
    stream: ModelStreamController,
    response: StreamResponseAssembler,
    candidate: Option<Candidate>,
    considered: bool,
    probes: u8,
    events: u32,
}

impl View for StreamTurn {
    type V = TurnModel;

    closed spec fn view(&self) -> TurnModel {
        TurnModel {
            stream: self.stream@,
            response: self.response@,
            candidate: candidate_option(self.candidate),
            considered: self.considered,
            probes: self.probes,
            events: self.events,
        }
    }
}

/// What the end of a turn yields.
pub struct TurnOutcome {
    /// The authoritative response.
    pub response: ModelResponse,
    /// Whether the waiting execution may be committed, and until when.
    pub commit_until: Option<u64>,
}

/// The turn's end: the response, whether the waiting execution may be committed, and the
/// controller then.
pub open spec fn conclusion(turn: TurnModel, controller: ControllerModel, now_ms: u64) -> (
    ControllerModel,
    Result<(ResponseModel, Option<u64>), HarnessError<Seq<char>>>,
) {
    match turn.response.response() {
        Err(error) => (after_failure(controller, turn.candidate), Err(error)),
        Ok(response) => {
            let authoritative = if response.tool_calls.len() > 0 {
                Some(response.tool_calls[0])
            } else {
                None
            };
            match turn.candidate {
                Some(Candidate::Shadow { call, key }) => if matches_candidate(
                    call,
                    key,
                    authoritative,
                ) {
                    (
                        touched(
                            controller,
                            call.tool_id,
                            |state: ToolModel| state.shadow_matched(),
                        ),
                        Ok((response, None)),
                    )
                } else {
                    (
                        touched(
                            controller,
                            call.tool_id,
                            |state: ToolModel| state.mismatched(),
                        ),
                        Ok((response, None)),
                    )
                },
                Some(Candidate::ActiveReady { call, key, deadline }) => if now_ms >= deadline {
                    (controller, Ok((response, None)))
                } else if matches_candidate(call, key, authoritative) {
                    (controller, Ok((response, Some(deadline))))
                } else {
                    (
                        touched(
                            controller,
                            call.tool_id,
                            |state: ToolModel| state.mismatched(),
                        ),
                        Ok((response, None)),
                    )
                },
                _ => (controller, Ok((response, None))),
            }
        },
    }
}

impl StreamTurn {
    /// Whether the parts of the turn are well-formed.
    pub closed spec fn wf(&self) -> bool {
        self.stream.wf() && self.response.wf()
    }

    /// A turn without events.
    pub fn new(assembler: ToolCallAssembler, max_response_bytes: u64) -> (result: StreamTurn)
        requires
            assembler.wf(),
        ensures
            result.wf(),
            result@.stream == (StreamModel { assembler: assembler@, phase: StreamPhase::Open }),
            result@.response.max_bytes == max_response_bytes,
            result@.response.retained_bytes == 0,
            result@.response.model is None,
            result@.response.text == Seq::<char>::empty(),
            result@.response.calls == Seq::<(usize, ToolCall<Seq<char>>)>::empty(),
            result@.candidate is None,
            !result@.considered,
            result@.probes == 0,
            result@.events == 0,
    {
        StreamTurn {
            stream: ModelStreamController::new(assembler),
            response: StreamResponseAssembler::new(max_response_bytes),
            candidate: None,
            considered: false,
            probes: 0,
            events: 0,
        }
    }

    /// The deadline that the turn waits for. An execution in flight watches its own.
    pub fn next_deadline(&self, call_deadline: Option<u64>) -> (result: Option<(u64, DeadlineKind)>)
        ensures
            result == earliest(
                call_deadline,
                match self@.candidate {
                    Some(Candidate::ActiveReady { deadline, .. }) => Some(deadline),
                    _ => None,
                },
            ),
    {
        let ready: Option<u64> = match &self.candidate {
            Some(Candidate::ActiveReady { deadline, .. }) => Some(*deadline),
            _ => None,
        };
        match (call_deadline, ready) {
            (Some(call), Some(candidate)) => if call <= candidate {
                Some((call, DeadlineKind::Call))
            } else {
                Some((candidate, DeadlineKind::Candidate))
            },
            (Some(call), None) => Some((call, DeadlineKind::Call)),
            (None, Some(candidate)) => Some((candidate, DeadlineKind::Candidate)),
            (None, None) => None,
        }
    }

    /// Drops the candidate: it expired, or the turn was cancelled.
    pub fn drop_candidate(&mut self)
        requires
            old(self).wf(),
        ensures
            final(self).wf(),
            final(self)@ == (TurnModel { candidate: None, ..old(self)@ }),
    {
        self.candidate = None;
    }

    /// Notes that the execution in flight ended, with a reusable result or without.
    pub fn on_attempt(&mut self, reusable: bool)
        requires
            old(self).wf(),
        ensures
            final(self).wf(),
            final(self)@ == (TurnModel {
                candidate: match old(self)@.candidate {
                    Some(Candidate::ActivePending { call, key, deadline }) => if reusable {
                        Some(Candidate::ActiveReady { call, key, deadline })
                    } else {
                        None
                    },
                    _ => None,
                },
                ..old(self)@
            }),
    {
        let current = self.candidate.take();
        self.candidate = match current {
            Some(Candidate::ActivePending { call, key, deadline }) => if reusable {
                Some(Candidate::ActiveReady { call, key, deadline })
            } else {
                None
            },
            _ => None,
        };
    }

    fn fail(&mut self, controller: &mut SpeculationController, error: HarnessError) -> (result:
        TurnStep)
        requires
            old(self).wf(),
        ensures
            final(self).wf(),
            (final(self)@, final(controller)@, result@) == failed_turn(
                old(self)@,
                old(controller)@,
                error@,
            ),
    {
        match self.candidate.take() {
            Some(Candidate::Shadow { call, .. }) => {
                controller.record_terminal_stream_failure_and_trip(call.tool_id.as_str());
            },
            Some(Candidate::ActivePending { call, .. }) => {
                controller.record_terminal_stream_failure_and_trip(call.tool_id.as_str());
            },
            Some(Candidate::ActiveReady { call, .. }) => {
                controller.record_terminal_stream_failure_and_trip(call.tool_id.as_str());
            },
            None => {},
        }
        TurnStep::Failed(error)
    }

    fn consider(
        &mut self,
        controller: &mut SpeculationController,
        broker: &ToolBroker,
        request: &RunRequest,
        call: ToolCall,
    ) -> (result: TurnStep)
        requires
            old(self).wf(),
        ensures
            final(self).wf(),
            (final(self)@, final(controller)@, result@) == considered_call(
                old(self)@,
                old(controller)@,
                broker.tools@,
                broker.scope,
                request,
                call@,
            ),
    {
        self.considered = true;
        let prior = controller.mode(call.tool_id.as_str());
        let key = broker.validate_shadow_candidate(controller, request, &call);
        let mode = controller.mode(call.tool_id.as_str());
        if prior == SpeculationMode::Active || mode == SpeculationMode::Active {
            controller.record_active_candidate_considered(call.tool_id.as_str());
        }
        match key {
            Some(key) => match mode {
                SpeculationMode::Shadow => {
                    self.candidate = Some(Candidate::Shadow { call, key });
                    TurnStep::Continue
                },
                SpeculationMode::Active => {
                    self.candidate = None;
                    TurnStep::Issue(call, key)
                },
                SpeculationMode::Disabled => {
                    self.candidate = None;
                    TurnStep::Continue
                },
            },
            None => {
                if mode == SpeculationMode::Active {
                    controller.record_pre_issue_skip(
                        call.tool_id.as_str(),
                        PreIssueSkipReason::Validation,
                    );
                }
                TurnStep::Continue
            },
        }
    }

    /// Handles one stream item.
    pub fn on_item(
        &mut self,
        controller: &mut SpeculationController,
        broker: &ToolBroker,
        request: &RunRequest,
        probing: bool,
        item: Result<ModelStreamEvent, HarnessError>,
    ) -> (result: TurnStep)
        requires
            old(self).wf(),
        ensures
            final(self).wf(),
            (final(self)@, final(controller)@, result@) == turn_after(
                old(self)@,
                old(controller)@,
                broker.tools@,
                broker.scope,
                request,
                probing,
                item_view(item),
            ),
    {
        self.events = self.events.saturating_add(1);
        if self.events > controller.config().max_stream_events {
            return self.fail(
                controller,
                HarnessError::ResourceLimit("speculative stream event limit reached".to_owned()),
            );
        }
        let validated = match self.stream.push(item) {
            Ok(validated) => validated,
            Err(error) => return self.fail(controller, error),
        };
        match validated.event {
            ModelStreamEvent::TextDelta { content } => match self.response.text(content) {
                Ok(_) => TurnStep::Continue,
                Err(error) => self.fail(controller, error),
            },
            ModelStreamEvent::ToolCallDelta(delta) => {
                if probing && self.probes < 8 && delta.index == 0 && !delta.is_final {
                    self.probes = self.probes + 1;
                }
                match validated.completed_tool_call {
                    None => TurnStep::Continue,
                    Some(call) => match self.response.call(delta.index, call.duplicate()) {
                        Ok(_) => if delta.index == 0 && !self.considered {
                            self.consider(controller, broker, request, call)
                        } else {
                            TurnStep::Continue
                        },
                        Err(error) => self.fail(controller, error),
                    },
                }
            },
            ModelStreamEvent::Completed { model, usage } => match self.response.complete(
                model,
                usage,
            ) {
                Ok(_) => TurnStep::Finished,
                Err(error) => self.fail(controller, error),
            },
        }
    }

    /// Handles the end of the stream.
    pub fn on_end(&mut self, controller: &mut SpeculationController) -> (result: TurnStep)
        requires
            old(self).wf(),
        ensures
            final(self).wf(),
            (final(self)@, final(controller)@, result@) == ({
                let (stream, ended) = old(self)@.stream.ended();
                let next = TurnModel { stream, ..old(self)@ };
                match ended {
                    Ok(_) => (next, old(controller)@, TurnStepModel::Finished),
                    Err(error) => failed_turn(next, old(controller)@, error),
                }
            }),
    {
        match self.stream.finish_eof() {
            Ok(_) => TurnStep::Finished,
            Err(error) => self.fail(controller, error),
        }
    }

    /// Notes what came of trying to issue a call early: no slot was free, or the call is in
    /// flight until a deadline, or its deadline could not be computed.
    pub fn on_slot(
        &mut self,
        controller: &mut SpeculationController,
        call: ToolCall,
        key: InvocationKey,
        slot: Option<Result<u64, HarnessError>>,
    ) -> (result: TurnStep)
        requires
            old(self).wf(),
        ensures
            final(self).wf(),
            (final(self)@, final(controller)@, result@) == (match slot {
                None => (
                    TurnModel { candidate: None, ..old(self)@ },
                    touched(
                        old(controller)@,
                        call@.tool_id,
                        |state: ToolModel| state.slot_occupied(),
                    ),
                    TurnStepModel::Continue,
                ),
                Some(Ok(deadline)) => (
                    TurnModel {
                        candidate: Some(
                            Candidate::ActivePending { call: call@, key: key@, deadline },
                        ),
                        ..old(self)@
                    },
                    old(controller)@,
                    TurnStepModel::Continue,
                ),
                Some(Err(error)) => (
                    TurnModel { candidate: None, ..old(self)@ },
                    touched(
                        old(controller)@,
                        call@.tool_id,
                        |state: ToolModel| state.skipped(PreIssueSkipReason::Failed),
                    ),
                    TurnStepModel::Failed(error@),
                ),
            }),
    {
        match slot {
            None => {
                self.candidate = None;
                controller.record_slot_saturated(call.tool_id.as_str());
                TurnStep::Continue
            },
            Some(Ok(deadline)) => {
                self.candidate = Some(Candidate::ActivePending { call, key, deadline });
                TurnStep::Continue
            },
            Some(Err(error)) => {
                self.candidate = None;
                controller.record_pre_issue_skip(
                    call.tool_id.as_str(),
                    PreIssueSkipReason::Failed,
                );
                TurnStep::Failed(error)
            },
        }
    }

    /// Ends the turn, once nothing is in flight.
    pub fn conclude(&mut self, controller: &mut SpeculationController, now_ms: u64) -> (result:
        Result<TurnOutcome, HarnessError>)
        requires
            old(self).wf(),
            !(old(self)@.candidate matches Some(Candidate::ActivePending { .. })),
        ensures
            (final(controller)@, match result {
                Ok(outcome) => Ok::<_, HarnessError<Seq<char>>>(
                    (outcome.response@, outcome.commit_until),
                ),
                Err(error) => Err(error@),
            }) == conclusion(old(self)@, old(controller)@, now_ms),
    {
        let response = match self.response.finish() {
            Ok(response) => response,
            Err(error) => {
                match self.fail(controller, error) {
                    TurnStep::Failed(error) => return Err(error),
                    _ => {
                        assert(false);
                        return Err(HarnessError::Cancelled);
                    },
                }
            },
        };
        let first = if response.tool_calls.len() > 0 {
            Some(&response.tool_calls[0])
        } else {
            None
        };
        proof {
            if response.tool_calls@.len() > 0 {
                assert(response@.tool_calls[0] == response.tool_calls@[0]@);
            }
        }
        let commit_until: Option<u64> = match self.candidate.take() {
            Some(Candidate::Shadow { call, key }) => {
                if invocation_matches(&call, &key, first) {
                    controller.record_shadow_match(call.tool_id.as_str());
                } else {
                    controller.record_mismatch_and_trip(call.tool_id.as_str());
                }
                None
            },
            Some(Candidate::ActiveReady { call, key, deadline }) => {
                if now_ms >= deadline {
                    None
                } else if invocation_matches(&call, &key, first) {
                    Some(deadline)
                } else {
                    controller.record_mismatch_and_trip(call.tool_id.as_str());
                    None
                }
            },
            _ => None,
        };
        Ok(TurnOutcome { response, commit_until })
    }
}

/// A waiting execution is committed only for exactly the authoritative first call, and only
/// before it expires.
pub proof fn only_exact_calls_commit(turn: TurnModel, controller: ControllerModel, now_ms: u64)
    requires
        conclusion(turn, controller, now_ms).1 matches Ok((_, Some(_))),
    ensures
        turn.candidate matches Some(Candidate::ActiveReady { call, key, deadline }) && now_ms
            < deadline && conclusion(turn, controller, now_ms).1 == Ok::<
            _,
            HarnessError<Seq<char>>,
        >((turn.response.response()->Ok_0, Some(deadline)))
            && turn.response.response()->Ok_0.tool_calls.len() > 0 && matches_candidate(
            call,
            key,
            Some(turn.response.response()->Ok_0.tool_calls[0]),
        ),
{
}

} // verus!
