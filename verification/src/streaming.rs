//! Bounded assembly of streamed tool calls.

use crate::error::HarnessError;
use crate::json::{parse_json, parsed_json, render_json, rendered_json, Json, JsonTree};
use crate::schema::{
    compile_trusted_schema, instance_fault, trusted_schema_fault, validate_instance,
};
use crate::limits::{check_view, depth_check, ensure_json_depth, AgentLimits};
use crate::model::Usage;
use crate::text::{
    blank, byte_len, contains_text, copy_option, decimal, decimal_digits, is_blank, join2, join3,
    same_text, text_option, texts, utf8_len, utf8_len_of_joined,
};
use crate::tool::{ToolCall, ToolDefinition};
use vstd::prelude::*;
use vstd::string::*;
use vstd::utf8::encode_utf8;

verus! {

/// Ephemeral events emitted while a provider produces a model response.
///
/// `S` is the text: `String` in running code, a sequence of characters in contracts.
#[derive(Clone, Debug, PartialEq, Eq)]
#[non_exhaustive]
pub enum ModelStreamEvent<S = String> {
    /// A fragment of assistant text.
    TextDelta {
        /// Text received in this response fragment.
        content: S,
    },
    /// An incremental fragment of one model-requested tool call.
    ToolCallDelta(ToolCallDelta<S>),
    /// The response completed with provider-reported model and usage metadata.
    Completed {
        /// Model name reported by the provider.
        model: S,
        /// Token usage reported by the provider.
        usage: Usage,
    },
}

impl View for ModelStreamEvent<String> {
    type V = ModelStreamEvent<Seq<char>>;

    open spec fn view(&self) -> ModelStreamEvent<Seq<char>> {
        match self {
            ModelStreamEvent::TextDelta { content } => ModelStreamEvent::TextDelta {
                content: content@,
            },
            ModelStreamEvent::ToolCallDelta(delta) => ModelStreamEvent::ToolCallDelta(delta@),
            ModelStreamEvent::Completed { model, usage } => ModelStreamEvent::Completed {
                model: model@,
                usage: *usage,
            },
        }
    }
}

/// Incremental provider data for one indexed tool call.
///
/// `S` is the text: `String` in running code, a sequence of characters in contracts.
#[derive(Clone, Debug, PartialEq, Eq)]
#[non_exhaustive]
pub struct ToolCallDelta<S = String> {
    /// Provider-local call index used to interleave multiple calls.
    pub index: usize,
    /// Stable call identifier, when first supplied by the provider.
    pub call_id: Option<S>,
    /// Stable registered tool identifier, when first supplied by the provider.
    pub tool_id: Option<S>,
    /// JSON argument text appended by this fragment.
    pub arguments_fragment: S,
    /// Whether this is the final fragment for the indexed call.
    pub is_final: bool,
}

impl View for ToolCallDelta<String> {
    type V = ToolCallDelta<Seq<char>>;

    open spec fn view(&self) -> ToolCallDelta<Seq<char>> {
        ToolCallDelta {
            index: self.index,
            call_id: text_option(self.call_id),
            tool_id: text_option(self.tool_id),
            arguments_fragment: self.arguments_fragment@,
            is_final: self.is_final,
        }
    }
}

impl ToolCallDelta {
    /// Creates one incremental tool-call fragment.
    pub fn new(index: usize, arguments_fragment: &str, is_final: bool) -> (result: ToolCallDelta)
        ensures
            result@ == (ToolCallDelta {
                index,
                call_id: None,
                tool_id: None,
                arguments_fragment: arguments_fragment@,
                is_final,
            }),
    {
        ToolCallDelta {
            index,
            call_id: None,
            tool_id: None,
            arguments_fragment: arguments_fragment.to_owned(),
            is_final,
        }
    }

    /// Supplies the immutable provider call identifier.
    pub fn with_call_id(self, call_id: &str) -> (result: ToolCallDelta)
        ensures
            result@ == (ToolCallDelta { call_id: Some(call_id@), ..self@ }),
    {
        let mut result = self;
        result.call_id = Some(call_id.to_owned());
        result
    }

    /// Supplies the immutable registered tool identifier.
    pub fn with_tool_id(self, tool_id: &str) -> (result: ToolCallDelta)
        ensures
            result@ == (ToolCallDelta { tool_id: Some(tool_id@), ..self@ }),
    {
        let mut result = self;
        result.tool_id = Some(tool_id.to_owned());
        result
    }
}

/// Resource limits for bounded incremental tool-call assembly.
#[derive(Clone, Copy, Debug, PartialEq, Eq, Structural)]
pub struct ToolCallAssemblyLimits {
    /// Maximum distinct call indices accepted in one response.
    pub max_calls: usize,
    /// Maximum bytes retained for one call, including identifiers and arguments.
    pub max_call_bytes: usize,
    /// Maximum bytes retained across all incomplete calls.
    pub max_total_buffered_bytes: usize,
    /// Maximum bytes accepted for either call identifier field.
    pub max_field_bytes: usize,
    /// Maximum JSON nesting depth accepted for completed arguments.
    pub max_json_depth: u32,
}

impl Default for ToolCallAssemblyLimits {
    fn default() -> (result: ToolCallAssemblyLimits)
        ensures
            result == (ToolCallAssemblyLimits {
                max_calls: 16,
                max_call_bytes: 67_584,
                max_total_buffered_bytes: 262_144,
                max_field_bytes: 1024,
                max_json_depth: 64,
            }),
    {
        let limits = AgentLimits::default();
        ToolCallAssemblyLimits {
            max_calls: limits.max_tool_calls as usize,
            max_call_bytes: limits.max_tool_arguments_bytes as usize + 2 * 1024,
            max_total_buffered_bytes: limits.max_request_payload_bytes as usize,
            max_field_bytes: 1024,
            max_json_depth: limits.max_json_depth,
        }
    }
}

impl ToolCallAssemblyLimits {
    /// Whether every limit is nonzero.
    pub open spec fn nonzero(self) -> bool {
        self.max_calls != 0 && self.max_call_bytes != 0 && self.max_total_buffered_bytes != 0
            && self.max_field_bytes != 0 && self.max_json_depth != 0
    }

    /// What validation answers.
    pub open spec fn check(self) -> Result<(), HarnessError<Seq<char>>> {
        if self.nonzero() {
            Ok(())
        } else {
            Err(
                HarnessError::InvalidRequest(
                    "tool-call assembly limits must be greater than zero"@,
                ),
            )
        }
    }

    /// Validates that every assembly limit is nonzero.
    pub fn validate(&self) -> (result: Result<(), HarnessError>)
        ensures
            check_view(result) == self.check(),
    {
        if self.max_calls == 0 || self.max_call_bytes == 0 || self.max_total_buffered_bytes == 0
            || self.max_field_bytes == 0 || self.max_json_depth == 0 {
            return Err(
                HarnessError::InvalidRequest(
                    "tool-call assembly limits must be greater than zero".to_owned(),
                ),
            );
        }
        Ok(())
    }
}

/// Observable but ephemeral state for an incomplete streamed tool call.
///
/// Partial arguments are never executable and must not be persisted.
///
/// `S` is the text: `String` in running code, a sequence of characters in contracts.
#[derive(Clone, Debug, PartialEq, Eq)]
#[non_exhaustive]
pub struct PartialToolCall<S = String> {
    /// Provider-local call index.
    pub index: usize,
    /// Stable call identifier observed so far.
    pub call_id: Option<S>,
    /// Stable registered tool identifier observed so far.
    pub tool_id: Option<S>,
    /// Unvalidated partial JSON argument text.
    pub arguments_json: S,
}

impl View for PartialToolCall<String> {
    type V = PartialToolCall<Seq<char>>;

    open spec fn view(&self) -> PartialToolCall<Seq<char>> {
        PartialToolCall {
            index: self.index,
            call_id: text_option(self.call_id),
            tool_id: text_option(self.tool_id),
            arguments_json: self.arguments_json@,
        }
    }
}

/// Bytes of an optional field.
pub open spec fn field_bytes(field: Option<Seq<char>>) -> nat {
    match field {
        Some(text) => utf8_len(text),
        None => 0,
    }
}

impl PartialToolCall<Seq<char>> {
    /// Bytes that the call retains.
    pub open spec fn bytes(self) -> nat {
        field_bytes(self.call_id) + field_bytes(self.tool_id) + utf8_len(self.arguments_json)
    }
}

/// The position of the call `index`, from `start` on.
pub open spec fn call_position(
    pending: Seq<PartialToolCall<Seq<char>>>,
    index: usize,
    start: nat,
) -> Option<nat>
    decreases pending.len() - start,
{
    if start >= pending.len() {
        None
    } else if pending[start as int].index == index {
        Some(start)
    } else {
        call_position(pending, index, start + 1)
    }
}

/// Bytes that calls retain together.
pub open spec fn pending_bytes(pending: Seq<PartialToolCall<Seq<char>>>) -> nat
    decreases pending.len(),
{
    if pending.len() == 0 {
        0
    } else {
        pending_bytes(pending.drop_last()) + pending.last().bytes()
    }
}

/// The schema of the tool `tool_id`, from `start` on.
pub open spec fn schema_of(
    allowed: Seq<(Seq<char>, JsonTree)>,
    tool_id: Seq<char>,
    start: nat,
) -> Option<JsonTree>
    decreases allowed.len() - start,
{
    if start >= allowed.len() {
        None
    } else if allowed[start as int].0 == tool_id {
        Some(allowed[start as int].1)
    } else {
        schema_of(allowed, tool_id, start + 1)
    }
}

/// The model of an assembler.
pub struct AssemblerModel {
    /// Tools that may be called, with the schemas of their arguments.
    pub allowed: Seq<(Seq<char>, JsonTree)>,
    /// The limits.
    pub limits: ToolCallAssemblyLimits,
    /// The incomplete calls, in the order in which they began.
    pub pending: Seq<PartialToolCall<Seq<char>>>,
    /// The indices seen so far.
    pub seen: Seq<usize>,
    /// The indices of complete calls.
    pub finalized: Seq<usize>,
    /// The identifiers of complete calls.
    pub call_ids: Seq<Seq<char>>,
}

/// The call `index` as it stands before its next fragment.
pub open spec fn current_call(model: AssemblerModel, index: usize) -> PartialToolCall<Seq<char>> {
    match call_position(model.pending, index, 0) {
        Some(position) => model.pending[position as int],
        None => PartialToolCall {
            index,
            call_id: None,
            tool_id: None,
            arguments_json: Seq::empty(),
        },
    }
}

/// The first identifier given, or the one given now.
pub open spec fn kept_field(current: Option<Seq<char>>, incoming: Option<Seq<char>>) -> Option<
    Seq<char>,
> {
    match current {
        Some(text) => Some(text),
        None => incoming,
    }
}

/// A call with one fragment added.
pub open spec fn extended_call(
    call: PartialToolCall<Seq<char>>,
    delta: ToolCallDelta<Seq<char>>,
) -> PartialToolCall<Seq<char>> {
    PartialToolCall {
        index: call.index,
        call_id: kept_field(call.call_id, delta.call_id),
        tool_id: kept_field(call.tool_id, delta.tool_id),
        arguments_json: call.arguments_json + delta.arguments_fragment,
    }
}

/// What is wrong with an identifier.
pub open spec fn field_fault(label: Seq<char>, value: Option<Seq<char>>, max_bytes: usize) -> Option<
    HarnessError<Seq<char>>,
> {
    match value {
        Some(text) => if text.len() == 0 || utf8_len(text) > max_bytes {
            Some(
                HarnessError::Provider(
                    "streamed "@ + label + " is empty or exceeds "@ + decimal_digits(
                        max_bytes as nat,
                    ) + " bytes"@,
                ),
            )
        } else {
            None
        },
        None => None,
    }
}

/// What is wrong with an identifier that is given again.
pub open spec fn conflict_fault(
    label: Seq<char>,
    current: Option<Seq<char>>,
    incoming: Option<Seq<char>>,
) -> Option<HarnessError<Seq<char>>> {
    if current is Some && incoming is Some && current != incoming {
        Some(HarnessError::Provider("conflicting streamed "@ + label))
    } else {
        None
    }
}

/// What is wrong with the identifiers of a fragment.
pub open spec fn identifier_fault(
    limits: ToolCallAssemblyLimits,
    current: PartialToolCall<Seq<char>>,
    delta: ToolCallDelta<Seq<char>>,
) -> Option<HarnessError<Seq<char>>> {
    if field_fault("call id"@, delta.call_id, limits.max_field_bytes) is Some {
        field_fault("call id"@, delta.call_id, limits.max_field_bytes)
    } else if field_fault("tool id"@, delta.tool_id, limits.max_field_bytes) is Some {
        field_fault("tool id"@, delta.tool_id, limits.max_field_bytes)
    } else if conflict_fault("call id"@, current.call_id, delta.call_id) is Some {
        conflict_fault("call id"@, current.call_id, delta.call_id)
    } else {
        conflict_fault("tool id"@, current.tool_id, delta.tool_id)
    }
}

/// What is wrong with the size of a call.
pub open spec fn size_fault(
    limits: ToolCallAssemblyLimits,
    index: usize,
    call_bytes: nat,
    total_bytes: nat,
) -> Option<HarnessError<Seq<char>>> {
    if call_bytes > usize::MAX {
        Some(HarnessError::ResourceLimit("streamed tool call size overflow"@))
    } else if call_bytes > limits.max_call_bytes {
        Some(
            HarnessError::ResourceLimit(
                "streamed tool call "@ + decimal_digits(index as nat) + " exceeds "@
                    + decimal_digits(limits.max_call_bytes as nat) + " bytes"@,
            ),
        )
    } else if total_bytes > usize::MAX {
        Some(HarnessError::ResourceLimit("streamed tool buffer overflow"@))
    } else if total_bytes > limits.max_total_buffered_bytes {
        Some(
            HarnessError::ResourceLimit(
                "streamed tool buffer exceeds "@ + decimal_digits(
                    limits.max_total_buffered_bytes as nat,
                ) + " bytes"@,
            ),
        )
    } else {
        None
    }
}

/// What a complete call is worth, and the identifiers then known.
pub open spec fn completed_call(model: AssemblerModel, call: PartialToolCall<Seq<char>>) -> (
    Seq<Seq<char>>,
    Result<ToolCall<Seq<char>>, HarnessError<Seq<char>>>,
) {
    match (call.call_id, call.tool_id) {
        (None, _) => (
            model.call_ids,
            Err(HarnessError::Provider("final streamed call id is missing"@)),
        ),
        (_, None) => (
            model.call_ids,
            Err(HarnessError::Provider("final streamed tool id is missing"@)),
        ),
        (Some(call_id), Some(tool_id)) => if model.call_ids.contains(call_id) {
            (
                model.call_ids,
                Err(HarnessError::Provider("duplicate streamed tool call id: "@ + call_id)),
            )
        } else {
            (
                model.call_ids.push(call_id),
                match schema_of(model.allowed, tool_id, 0) {
                    None => Err(HarnessError::InvalidTool("unknown streamed tool: "@ + tool_id)),
                    Some(schema) => match parsed_json(call.arguments_json) {
                        Err(message) => Err(
                            HarnessError::InvalidArguments(
                                "streamed tool arguments are not JSON: "@ + message,
                            ),
                        ),
                        Ok(arguments) => match depth_check(
                            "streamed tool arguments"@,
                            arguments,
                            model.limits.max_json_depth,
                        ) {
                            Err(error) => Err(error),
                            Ok(_) => match instance_fault(schema, arguments) {
                                Some(message) => Err(HarnessError::InvalidArguments(message)),
                                None => Ok(
                                    ToolCall {
                                        id: call_id,
                                        tool_id,
                                        arguments_json: call.arguments_json,
                                    },
                                ),
                            },
                        },
                    },
                },
            )
        },
    }
}

/// The assembler after one fragment, and what the fragment yields.
pub open spec fn assembled(model: AssemblerModel, delta: ToolCallDelta<Seq<char>>) -> (
    AssemblerModel,
    Result<Option<ToolCall<Seq<char>>>, HarnessError<Seq<char>>>,
) {
    let limits = model.limits;
    if model.finalized.contains(delta.index) {
        (
            model,
            Err(
                HarnessError::Provider(
                    "tool call "@ + decimal_digits(delta.index as nat)
                        + " received a fragment after completion"@,
                ),
            ),
        )
    } else if !model.seen.contains(delta.index) && model.seen.len() >= limits.max_calls {
        (
            model,
            Err(
                HarnessError::ResourceLimit(
                    "streamed tool calls exceed "@ + decimal_digits(limits.max_calls as nat),
                ),
            ),
        )
    } else {
        let noted = if model.seen.contains(delta.index) {
            model
        } else {
            AssemblerModel { seen: model.seen.push(delta.index), ..model }
        };
        let current = current_call(model, delta.index);
        let extended = extended_call(current, delta);
        if identifier_fault(limits, current, delta) is Some {
            (noted, Err(identifier_fault(limits, current, delta)->0))
        } else if size_fault(
            limits,
            delta.index,
            extended.bytes(),
            (pending_bytes(model.pending) - current.bytes() + extended.bytes()) as nat,
        ) is Some {
            (
                noted,
                Err(
                    size_fault(
                        limits,
                        delta.index,
                        extended.bytes(),
                        (pending_bytes(model.pending) - current.bytes()
                            + extended.bytes()) as nat,
                    )->0,
                ),
            )
        } else if !delta.is_final {
            (
                AssemblerModel {
                    pending: match call_position(model.pending, delta.index, 0) {
                        Some(position) => model.pending.update(position as int, extended),
                        None => model.pending.push(extended),
                    },
                    ..noted
                },
                Ok(None),
            )
        } else {
            let (call_ids, result) = completed_call(model, extended);
            (
                AssemblerModel {
                    pending: match call_position(model.pending, delta.index, 0) {
                        Some(position) => model.pending.remove(position as int),
                        None => model.pending,
                    },
                    finalized: model.finalized.push(delta.index),
                    call_ids,
                    ..noted
                },
                match result {
                    Ok(call) => Ok(Some(call)),
                    Err(error) => Err(error),
                },
            )
        }
    }
}

impl AssemblerModel {
    /// What holds of an assembler between two fragments: an index is either incomplete or
    /// complete, never both; every index was seen, and no more than the limit; and what is
    /// retained stays within the limits.
    pub open spec fn bounded(self) -> bool {
        &&& self.seen.len() <= self.limits.max_calls
        &&& self.seen.no_duplicates()
        &&& forall|i: int, j: int|
            0 <= i < j < self.pending.len() ==> (#[trigger] self.pending[i]).index != (
            #[trigger] self.pending[j]).index
        &&& forall|i: int|
            0 <= i < self.pending.len() ==> self.seen.contains((#[trigger] self.pending[i]).index)
                && !self.finalized.contains(self.pending[i].index) && self.pending[i].bytes()
                <= self.limits.max_call_bytes
        &&& forall|i: int| 0 <= i < self.finalized.len() ==> self.seen.contains(#[trigger] self.finalized[i])
        &&& pending_bytes(self.pending) <= self.limits.max_total_buffered_bytes
    }
}

proof fn bytes_without(pending: Seq<PartialToolCall<Seq<char>>>, position: int)
    requires
        0 <= position < pending.len(),
    ensures
        pending_bytes(pending.remove(position)) + pending[position].bytes() == pending_bytes(pending),
    decreases pending.len(),
{
    if position == pending.len() - 1 {
        assert(pending.remove(position) =~= pending.drop_last());
    } else {
        let rest = pending.drop_last();
        bytes_without(rest, position);
        assert(pending.remove(position).drop_last() =~= rest.remove(position));
        assert(pending.remove(position).last() == pending.last());
    }
}

proof fn bytes_with(
    pending: Seq<PartialToolCall<Seq<char>>>,
    position: int,
    call: PartialToolCall<Seq<char>>,
)
    requires
        0 <= position < pending.len(),
    ensures
        pending_bytes(pending.update(position, call)) + pending[position].bytes() == pending_bytes(
            pending,
        ) + call.bytes(),
    decreases pending.len(),
{
    if position == pending.len() - 1 {
        assert(pending.update(position, call).drop_last() =~= pending.drop_last());
    } else {
        let rest = pending.drop_last();
        bytes_with(rest, position, call);
        assert(pending.update(position, call).drop_last() =~= rest.update(position, call));
        assert(pending.update(position, call).last() == pending.last());
    }
}

proof fn call_position_found(pending: Seq<PartialToolCall<Seq<char>>>, index: usize, start: nat)
    ensures
        match call_position(pending, index, start) {
            Some(position) => start <= position < pending.len() && pending[position as int].index
                == index,
            None => forall|i: int| start <= i < pending.len() ==> (#[trigger] pending[i]).index
                != index,
        },
    decreases pending.len() - start,
{
    if start < pending.len() && pending[start as int].index != index {
        call_position_found(pending, index, start + 1);
    }
}

/// Whatever fragments arrive, an assembler stays within its limits.
pub proof fn assembly_stays_bounded(model: AssemblerModel, delta: ToolCallDelta<Seq<char>>)
    requires
        model.bounded(),
    ensures
        assembled(model, delta).0.bounded(),
        assembled(model, delta).0.limits == model.limits,
        assembled(model, delta).0.allowed == model.allowed,
{
    let next = assembled(model, delta).0;
    let position = call_position(model.pending, delta.index, 0);
    call_position_found(model.pending, delta.index, 0);
    let current = current_call(model, delta.index);
    let extended = extended_call(current, delta);
    assert(current.bytes() == 0 || position is Some) by {
        assert(encode_utf8(Seq::<char>::empty()).len() == 0);
    }
    if next.seen != model.seen {
        assert(next.seen =~= model.seen.push(delta.index));
        assert forall|x: usize| model.seen.contains(x) implies next.seen.contains(x) by {
            let k = choose|k: int| 0 <= k < model.seen.len() && model.seen[k] == x;
            assert(next.seen[k] == x);
        }
        assert(next.seen[model.seen.len() as int] == delta.index);
    }
    assert(!model.finalized.contains(delta.index) && (model.seen.contains(delta.index)
        || model.seen.len() < model.limits.max_calls) ==> next.seen.contains(delta.index));
    if position is Some {
        bytes_without(model.pending, position->0 as int);
        bytes_with(model.pending, position->0 as int, extended);
    } else {
        assert(model.pending.push(extended).drop_last() =~= model.pending);
    }
    assert forall|i: int, j: int| 0 <= i < j < next.pending.len() implies (
    #[trigger] next.pending[i]).index != (#[trigger] next.pending[j]).index by {
        if next.pending.len() < model.pending.len() {
            let p = position->0 as int;
            let a = if i < p {
                i
            } else {
                i + 1
            };
            let b = if j < p {
                j
            } else {
                j + 1
            };
            assert(next.pending[i] == model.pending[a]);
            assert(next.pending[j] == model.pending[b]);
        }
    }
    assert forall|i: int| 0 <= i < next.pending.len() implies next.seen.contains(
        (#[trigger] next.pending[i]).index,
    ) && !next.finalized.contains(next.pending[i].index) && next.pending[i].bytes()
        <= next.limits.max_call_bytes by {
        if next.pending.len() < model.pending.len() {
            let p = position->0 as int;
            let a = if i < p {
                i
            } else {
                i + 1
            };
            assert(next.pending[i] == model.pending[a]);
            assert(model.pending[a].index != model.pending[p].index);
        } else if next.pending != model.pending && (if position is Some {
            i == position->0
        } else {
            i == model.pending.len()
        }) {
            assert(next.pending[i] == extended);
        } else {
            assert(next.pending[i] == model.pending[i]);
        }
        if next.finalized != model.finalized {
            assert(next.finalized =~= model.finalized.push(delta.index));
            assert(next.pending[i].index != delta.index);
            if next.finalized.contains(next.pending[i].index) {
                let k = choose|k: int|
                    0 <= k < next.finalized.len() && next.finalized[k] == next.pending[i].index;
                assert(model.finalized[k] == next.pending[i].index);
            }
        }
    }
    assert forall|i: int| 0 <= i < next.finalized.len() implies next.seen.contains(
        #[trigger] next.finalized[i],
    ) by {
        if i < model.finalized.len() {
            assert(next.finalized[i] == model.finalized[i]);
        }
    }
}

/// A call index that completed never yields another call.
pub proof fn completed_index_stays_closed(
    model: AssemblerModel,
    delta: ToolCallDelta<Seq<char>>,
    later: ToolCallDelta<Seq<char>>,
)
    requires
        assembled(model, delta).1 matches Ok(Some(_)),
        later.index == delta.index,
    ensures
        assembled(assembled(model, delta).0, later).1 is Err,
        assembled(assembled(model, delta).0, later).0 == assembled(model, delta).0,
{
    let next = assembled(model, delta).0;
    assert(next.finalized[model.finalized.len() as int] == delta.index);
}

/// Whether a list holds an index.
fn has_index(indices: &Vec<usize>, index: usize) -> (result: bool)
    ensures
        result == indices@.contains(index),
{
    let mut i: usize = 0;
    while i < indices.len()
        invariant
            i <= indices@.len(),
            forall|j: int| 0 <= j < i ==> indices@[j] != index,
        decreases indices@.len() - i,
    {
        if indices[i] == index {
            return true;
        }
        i += 1;
    }
    false
}

/// The views of incomplete calls.
pub open spec fn partials_view(pending: Seq<PartialToolCall>) -> Seq<PartialToolCall<Seq<char>>> {
    pending.map_values(|call: PartialToolCall| call@)
}

/// The views of allowed tools.
pub open spec fn allowed_view(allowed: Seq<(String, Json)>) -> Seq<(Seq<char>, JsonTree)> {
    allowed.map_values(|entry: (String, Json)| (entry.0@, entry.1@))
}

/// Bounded assembler that validates final streamed tool calls without executing them.
pub struct ToolCallAssembler {
    allowed: Vec<(String, Json)>,
    limits: ToolCallAssemblyLimits,
    pending: Vec<PartialToolCall>,
    seen: Vec<usize>,
    finalized: Vec<usize>,
    call_ids: Vec<String>,
    total: usize,
}

impl View for ToolCallAssembler {
    type V = AssemblerModel;

    closed spec fn view(&self) -> AssemblerModel {
        AssemblerModel {
            allowed: allowed_view(self.allowed@),
            limits: self.limits,
            pending: partials_view(self.pending@),
            seen: self.seen@,
            finalized: self.finalized@,
            call_ids: texts(self.call_ids@),
        }
    }
}

/// The view of what a fragment yields.
pub open spec fn yield_view(result: Result<Option<ToolCall>, HarnessError>) -> Result<
    Option<ToolCall<Seq<char>>>,
    HarnessError<Seq<char>>,
> {
    match result {
        Ok(Some(call)) => Ok(Some(call@)),
        Ok(None) => Ok(None),
        Err(error) => Err(error@),
    }
}

/// What is wrong with one tool of a request, given the tools before it.
pub open spec fn allowed_fault(
    definition: ToolDefinition,
    earlier: Seq<(Seq<char>, JsonTree)>,
    limits: ToolCallAssemblyLimits,
) -> Option<HarnessError<Seq<char>>> {
    let id = definition.id@;
    let schema = definition.arguments_schema@;
    if blank(id) || utf8_len(id) > limits.max_field_bytes {
        Some(HarnessError::InvalidTool("allowed streamed tool id is empty or too large"@))
    } else if schema_of(earlier, id, 0) is Some {
        Some(HarnessError::InvalidTool("duplicate allowed streamed tool: "@ + id))
    } else if utf8_len(rendered_json(schema)) > 262_144 {
        Some(
            HarnessError::InvalidTool("schema for "@ + id + " exceeds trusted schema limit"@),
        )
    } else {
        match depth_check("streamed tool schema"@, schema, 64) {
            Err(error) => Some(HarnessError::InvalidTool(error.display_text())),
            Ok(_) => match trusted_schema_fault(schema) {
                Some(message) => Some(
                    HarnessError::InvalidTool("invalid schema for "@ + id + ": "@ + message),
                ),
                None => None,
            },
        }
    }
}

/// The tools that an assembler allows, or the first fault among them.
pub open spec fn allowed_tools(
    definitions: Seq<ToolDefinition>,
    limits: ToolCallAssemblyLimits,
) -> Result<Seq<(Seq<char>, JsonTree)>, HarnessError<Seq<char>>>
    decreases definitions.len(),
{
    if definitions.len() == 0 {
        Ok(Seq::empty())
    } else {
        match allowed_tools(definitions.drop_last(), limits) {
            Err(error) => Err(error),
            Ok(earlier) => match allowed_fault(definitions.last(), earlier, limits) {
                Some(error) => Err(error),
                None => Ok(
                    earlier.push(
                        (definitions.last().id@, definitions.last().arguments_schema@),
                    ),
                ),
            },
        }
    }
}

proof fn allowed_fault_stays(
    definitions: Seq<ToolDefinition>,
    limits: ToolCallAssemblyLimits,
    count: nat,
)
    requires
        count <= definitions.len(),
        allowed_tools(definitions.take(count as int), limits) is Err,
    ensures
        allowed_tools(definitions, limits) == allowed_tools(
            definitions.take(count as int),
            limits,
        ),
    decreases definitions.len(),
{
    if count < definitions.len() {
        assert(definitions.drop_last().take(count as int) =~= definitions.take(count as int));
        allowed_fault_stays(definitions.drop_last(), limits, count);
    } else {
        assert(definitions.take(count as int) =~= definitions);
    }
}

fn find_schema<'a>(allowed: &'a Vec<(String, Json)>, tool_id: &str) -> (result: Option<&'a Json>)
    ensures
        match result {
            Some(schema) => schema_of(allowed_view(allowed@), tool_id@, 0) == Some(schema@),
            None => schema_of(allowed_view(allowed@), tool_id@, 0) is None,
        },
{
    let mut i: usize = 0;
    while i < allowed.len()
        invariant
            i <= allowed@.len(),
            schema_of(allowed_view(allowed@), tool_id@, 0) == schema_of(
                allowed_view(allowed@),
                tool_id@,
                i as nat,
            ),
        decreases allowed@.len() - i,
    {
        assert(allowed_view(allowed@)[i as int] == (allowed@[i as int].0@, allowed@[i as int].1@));
        if same_text(allowed[i].0.as_str(), tool_id) {
            return Some(&allowed[i].1);
        }
        i += 1;
    }
    None
}

fn check_allowed(
    definition: &ToolDefinition,
    earlier: &Vec<(String, Json)>,
    limits: &ToolCallAssemblyLimits,
) -> (result: Option<HarnessError>)
    ensures
        match result {
            Some(error) => allowed_fault(*definition, allowed_view(earlier@), *limits) == Some(
                error@,
            ),
            None => allowed_fault(*definition, allowed_view(earlier@), *limits) is None,
        },
{
    let id = definition.id.as_str();
    let schema_limits = AgentLimits::default();
    if is_blank(id) || byte_len(id) > limits.max_field_bytes {
        return Some(
            HarnessError::InvalidTool("allowed streamed tool id is empty or too large".to_owned()),
        );
    }
    if find_schema(earlier, id).is_some() {
        return Some(HarnessError::InvalidTool(join2("duplicate allowed streamed tool: ", id)));
    }
    if byte_len(render_json(&definition.arguments_schema).as_str()) as u64
        > schema_limits.max_request_payload_bytes {
        return Some(
            HarnessError::InvalidTool(join3("schema for ", id, " exceeds trusted schema limit")),
        );
    }
    if let Err(error) = ensure_json_depth(
        "streamed tool schema",
        &definition.arguments_schema,
        schema_limits.max_json_depth,
    ) {
        return Some(HarnessError::InvalidTool(error.to_text()));
    }
    match compile_trusted_schema(&definition.arguments_schema) {
        Some(message) => Some(
            HarnessError::InvalidTool(
                join3("invalid schema for ", id, ": ").concat(message.as_str()),
            ),
        ),
        None => None,
    }
}

fn check_field(label: &str, value: &Option<String>, max_bytes: usize) -> (result: Option<
    HarnessError,
>)
    ensures
        match result {
            Some(error) => field_fault(label@, text_option(*value), max_bytes) == Some(error@),
            None => field_fault(label@, text_option(*value), max_bytes) is None,
        },
{
    match value {
        Some(text) => if text.as_str().is_empty() || byte_len(text.as_str()) > max_bytes {
            Some(
                HarnessError::Provider(
                    join3("streamed ", label, " is empty or exceeds ").concat(
                        decimal(max_bytes as u64).as_str(),
                    ).concat(" bytes"),
                ),
            )
        } else {
            None
        },
        None => None,
    }
}

fn check_conflict(label: &str, current: &Option<String>, incoming: &Option<String>) -> (result:
    Option<HarnessError>)
    ensures
        match result {
            Some(error) => conflict_fault(label@, text_option(*current), text_option(*incoming))
                == Some(error@),
            None => conflict_fault(label@, text_option(*current), text_option(*incoming)) is None,
        },
{
    match (current, incoming) {
        (Some(left), Some(right)) => if same_text(left.as_str(), right.as_str()) {
            None
        } else {
            Some(HarnessError::Provider(join2("conflicting streamed ", label)))
        },
        _ => None,
    }
}

fn check_identifiers(
    limits: &ToolCallAssemblyLimits,
    current: &PartialToolCall,
    delta: &ToolCallDelta,
) -> (result: Option<HarnessError>)
    ensures
        match result {
            Some(error) => identifier_fault(*limits, current@, delta@) == Some(error@),
            None => identifier_fault(*limits, current@, delta@) is None,
        },
{
    if let Some(error) = check_field("call id", &delta.call_id, limits.max_field_bytes) {
        return Some(error);
    }
    if let Some(error) = check_field("tool id", &delta.tool_id, limits.max_field_bytes) {
        return Some(error);
    }
    if let Some(error) = check_conflict("call id", &current.call_id, &delta.call_id) {
        return Some(error);
    }
    check_conflict("tool id", &current.tool_id, &delta.tool_id)
}

fn option_bytes(field: &Option<String>) -> (result: usize)
    ensures
        result == field_bytes(text_option(*field)),
{
    match field {
        Some(text) => byte_len(text.as_str()),
        None => 0,
    }
}

impl PartialToolCall {
    fn retained(&self) -> (result: Option<usize>)
        ensures
            match result {
                Some(bytes) => bytes == self@.bytes(),
                None => self@.bytes() > usize::MAX,
            },
    {
        match option_bytes(&self.call_id).checked_add(option_bytes(&self.tool_id)) {
            Some(sum) => sum.checked_add(byte_len(self.arguments_json.as_str())),
            None => None,
        }
    }

    fn extend(&self, delta: &ToolCallDelta) -> (result: PartialToolCall)
        ensures
            result@ == extended_call(self@, delta@),
    {
        PartialToolCall {
            index: self.index,
            call_id: match &self.call_id {
                Some(text) => Some(text.clone()),
                None => copy_option(&delta.call_id),
            },
            tool_id: match &self.tool_id {
                Some(text) => Some(text.clone()),
                None => copy_option(&delta.tool_id),
            },
            arguments_json: join2(
                self.arguments_json.as_str(),
                delta.arguments_fragment.as_str(),
            ),
        }
    }

    fn copy(&self) -> (result: PartialToolCall)
        ensures
            result@ == self@,
    {
        PartialToolCall {
            index: self.index,
            call_id: copy_option(&self.call_id),
            tool_id: copy_option(&self.tool_id),
            arguments_json: self.arguments_json.clone(),
        }
    }
}

impl ToolCallAssembler {
    /// Whether the assembler stays within its limits and counts what it retains.
    pub closed spec fn wf(&self) -> bool {
        &&& self@.bounded()
        &&& self.total == pending_bytes(self@.pending)
    }

    /// Creates an assembler from the exact tool definitions allowed for one model request.
    pub fn new(definitions: &Vec<ToolDefinition>, limits: ToolCallAssemblyLimits) -> (result:
        Result<ToolCallAssembler, HarnessError>)
        ensures
            match result {
                Ok(assembler) => {
                    &&& assembler.wf()
                    &&& limits.check() is Ok
                    &&& allowed_tools(definitions@, limits) == Ok::<
                        _,
                        HarnessError<Seq<char>>,
                    >(assembler@.allowed)
                    &&& assembler@ == (AssemblerModel {
                        allowed: assembler@.allowed,
                        limits,
                        pending: Seq::empty(),
                        seen: Seq::empty(),
                        finalized: Seq::empty(),
                        call_ids: Seq::empty(),
                    })
                },
                Err(error) => match limits.check() {
                    Err(first) => error@ == first,
                    Ok(_) => allowed_tools(definitions@, limits) == Err::<
                        Seq<(Seq<char>, JsonTree)>,
                        _,
                    >(error@),
                },
            },
    {
        limits.validate()?;
        let mut allowed: Vec<(String, Json)> = Vec::new();
        let mut i: usize = 0;
        assert(definitions@.take(0) =~= Seq::empty());
        assert(allowed_view(allowed@) =~= Seq::empty());
        while i < definitions.len()
            invariant
                i <= definitions@.len(),
                limits.check() is Ok,
                allowed_tools(definitions@.take(i as int), limits) == Ok::<
                    _,
                    HarnessError<Seq<char>>,
                >(allowed_view(allowed@)),
            decreases definitions@.len() - i,
        {
            let ghost longer = definitions@.take(i as int + 1);
            assert(longer.drop_last() =~= definitions@.take(i as int));
            assert(longer.last() == definitions@[i as int]);
            if let Some(error) = check_allowed(&definitions[i], &allowed, &limits) {
                proof {
                    allowed_fault_stays(definitions@, limits, i as nat + 1);
                }
                return Err(error);
            }
            let ghost before = allowed_view(allowed@);
            let schema = definitions[i].arguments_schema.duplicate();
            allowed.push((definitions[i].id.clone(), schema));
            assert(allowed_view(allowed@) =~= before.push(
                (definitions@[i as int].id@, definitions@[i as int].arguments_schema@),
            ));
            i += 1;
        }
        assert(definitions@.take(definitions@.len() as int) =~= definitions@);
        let result = ToolCallAssembler {
            allowed,
            limits,
            pending: Vec::new(),
            seen: Vec::new(),
            finalized: Vec::new(),
            call_ids: Vec::new(),
            total: 0,
        };
        assert(result@.pending =~= Seq::empty());
        assert(result@.seen =~= Seq::empty());
        assert(result@.finalized =~= Seq::empty());
        assert(result@.call_ids =~= Seq::empty());
        Ok(result)
    }

    fn position_of(&self, index: usize) -> (result: Option<usize>)
        ensures
            match result {
                Some(position) => call_position(self@.pending, index, 0) == Some(position as nat)
                    && position < self.pending@.len(),
                None => call_position(self@.pending, index, 0) is None,
            },
    {
        let mut i: usize = 0;
        while i < self.pending.len()
            invariant
                i <= self.pending@.len(),
                call_position(self@.pending, index, 0) == call_position(
                    self@.pending,
                    index,
                    i as nat,
                ),
            decreases self.pending@.len() - i,
        {
            assert(self@.pending[i as int] == self.pending@[i as int]@);
            if self.pending[i].index == index {
                return Some(i);
            }
            i += 1;
        }
        None
    }

    /// Returns ephemeral partial JSON for an incomplete call index.
    pub fn partial_call(&self, index: usize) -> (result: Option<PartialToolCall>)
        ensures
            match result {
                Some(call) => call_position(self@.pending, index, 0) is Some && call@
                    == self@.pending[call_position(self@.pending, index, 0)->0 as int],
                None => call_position(self@.pending, index, 0) is None,
            },
    {
        match self.position_of(index) {
            Some(position) => Some(self.pending[position].copy()),
            None => None,
        }
    }

    /// Returns the bytes currently retained across incomplete calls.
    pub fn buffered_bytes(&self) -> (result: usize)
        requires
            self.wf(),
        ensures
            result == pending_bytes(self@.pending),
    {
        self.total
    }

    /// Whether any call is incomplete.
    pub fn has_pending(&self) -> (result: bool)
        ensures
            result == (self@.pending.len() > 0),
    {
        self.pending.len() > 0
    }

    fn check_sizes(
        &self,
        index: usize,
        before: usize,
        after: Option<usize>,
    ) -> (result: Option<HarnessError>)
        requires
            before <= self.total,
            after matches Some(bytes) ==> before <= bytes,
        ensures
            forall|call_bytes: nat|
                (match after {
                    Some(bytes) => call_bytes == bytes,
                    None => call_bytes > usize::MAX,
                }) ==> match result {
                    Some(error) => #[trigger] size_fault(
                        self@.limits,
                        index,
                        call_bytes,
                        (self.total - before + call_bytes) as nat,
                    ) == Some(error@),
                    None => size_fault(
                        self@.limits,
                        index,
                        call_bytes,
                        (self.total - before + call_bytes) as nat,
                    ) is None,
                },
    {
        let bytes = match after {
            Some(bytes) => bytes,
            None => {
                return Some(
                    HarnessError::ResourceLimit("streamed tool call size overflow".to_owned()),
                );
            },
        };
        if bytes > self.limits.max_call_bytes {
            return Some(
                HarnessError::ResourceLimit(
                    join3("streamed tool call ", decimal(index as u64).as_str(), " exceeds ").concat(
                        decimal(self.limits.max_call_bytes as u64).as_str(),
                    ).concat(" bytes"),
                ),
            );
        }
        let total = match self.total.checked_add(bytes - before) {
            Some(total) => total,
            None => {
                return Some(
                    HarnessError::ResourceLimit("streamed tool buffer overflow".to_owned()),
                );
            },
        };
        if total > self.limits.max_total_buffered_bytes {
            return Some(
                HarnessError::ResourceLimit(
                    join3(
                        "streamed tool buffer exceeds ",
                        decimal(self.limits.max_total_buffered_bytes as u64).as_str(),
                        " bytes",
                    ),
                ),
            );
        }
        None
    }

    fn complete(&mut self, call: PartialToolCall) -> (result: Result<ToolCall, HarnessError>)
        ensures
            final(self)@ == (AssemblerModel {
                call_ids: completed_call(old(self)@, call@).0,
                ..old(self)@
            }),
            final(self).total == old(self).total,
            (match result {
                Ok(call) => Ok::<_, HarnessError<Seq<char>>>(call@),
                Err(error) => Err(error@),
            }) == completed_call(old(self)@, call@).1,
    {
        let call_id = match &call.call_id {
            Some(id) => id.clone(),
            None => {
                return Err(
                    HarnessError::Provider("final streamed call id is missing".to_owned()),
                );
            },
        };
        let tool_id = match &call.tool_id {
            Some(id) => id.clone(),
            None => {
                return Err(
                    HarnessError::Provider("final streamed tool id is missing".to_owned()),
                );
            },
        };
        if contains_text(&self.call_ids, call_id.as_str()) {
            return Err(
                HarnessError::Provider(
                    join2("duplicate streamed tool call id: ", call_id.as_str()),
                ),
            );
        }
        let ghost before = self@;
        self.call_ids.push(call_id.clone());
        assert(self@.call_ids =~= before.call_ids.push(call_id@));
        let schema = match find_schema(&self.allowed, tool_id.as_str()) {
            Some(schema) => schema,
            None => {
                return Err(
                    HarnessError::InvalidTool(join2("unknown streamed tool: ", tool_id.as_str())),
                );
            },
        };
        let arguments = match parse_json(call.arguments_json.as_str()) {
            Ok(arguments) => arguments,
            Err(message) => {
                return Err(
                    HarnessError::InvalidArguments(
                        join2("streamed tool arguments are not JSON: ", message.as_str()),
                    ),
                );
            },
        };
        ensure_json_depth("streamed tool arguments", &arguments, self.limits.max_json_depth)?;
        match validate_instance(schema, &arguments) {
            Some(message) => Err(HarnessError::InvalidArguments(message)),
            None => Ok(ToolCall { id: call_id, tool_id, arguments_json: call.arguments_json }),
        }
    }

    /// Adds a fragment and yields a validated call only when its final fragment arrives.
    #[verifier::rlimit(60)]
    pub fn push(&mut self, delta: ToolCallDelta) -> (result: Result<Option<ToolCall>, HarnessError>)
        requires
            old(self).wf(),
        ensures
            (final(self)@, yield_view(result)) == assembled(old(self)@, delta@),
            final(self).wf(),
    {
        proof {
            assembly_stays_bounded(self@, delta@);
        }
        if has_index(&self.finalized, delta.index) {
            return Err(
                HarnessError::Provider(
                    join3(
                        "tool call ",
                        decimal(delta.index as u64).as_str(),
                        " received a fragment after completion",
                    ),
                ),
            );
        }
        let position = self.position_of(delta.index);
        let ghost model = self@;
        if !has_index(&self.seen, delta.index) {
            if self.seen.len() >= self.limits.max_calls {
                return Err(
                    HarnessError::ResourceLimit(
                        join2(
                            "streamed tool calls exceed ",
                            decimal(self.limits.max_calls as u64).as_str(),
                        ),
                    ),
                );
            }
            self.seen.push(delta.index);
        }
        let ghost noted = self@;
        assert(noted.pending == model.pending && noted.call_ids == model.call_ids
            && noted.allowed == model.allowed && noted.limits == model.limits
            && noted.finalized == model.finalized);
        let current = match position {
            Some(position) => self.pending[position].copy(),
            None => PartialToolCall {
                index: delta.index,
                call_id: None,
                tool_id: None,
                arguments_json: "".to_owned(),
            },
        };
        proof {
            reveal_strlit("");
            if position is None {
                assert(current@.arguments_json =~= Seq::empty());
            } else {
                assert(model.pending[position->0 as int] == self.pending@[position->0 as int]@);
            }
            assert(current@ == current_call(model, delta.index));
            assert(encode_utf8(Seq::<char>::empty()).len() == 0);
            if position is Some {
                bytes_without(model.pending, position->0 as int);
            }
            utf8_len_of_joined(current@.arguments_json, delta@.arguments_fragment);
        }
        if let Some(error) = check_identifiers(&self.limits, &current, &delta) {
            return Err(error);
        }
        let extended = current.extend(&delta);
        let before = match current.retained() {
            Some(bytes) => bytes,
            None => {
                assert(false);
                0
            },
        };
        let after = extended.retained();
        if let Some(error) = self.check_sizes(delta.index, before, after) {
            proof {
                let bytes = extended@.bytes();
                assert(size_fault(
                    model.limits,
                    delta.index,
                    bytes,
                    (self.total - before + bytes) as nat,
                ) is Some);
            }
            return Err(error);
        }
        proof {
            let bytes = extended@.bytes();
            assert(size_fault(
                model.limits,
                delta.index,
                bytes,
                (self.total - before + bytes) as nat,
            ) is None);
            if position is Some {
                bytes_with(model.pending, position->0 as int, extended@);
            } else {
                assert(model.pending.push(extended@).drop_last() =~= model.pending);
            }
        }
        if !delta.is_final {
            let added: usize = match after {
                Some(bytes) => bytes - before,
                None => 0,
            };
            self.total = self.total + added;
            match position {
                Some(position) => {
                    self.pending.set(position, extended);
                    assert(self@.pending =~= model.pending.update(position as int, extended@));
                },
                None => {
                    self.pending.push(extended);
                    assert(self@.pending =~= model.pending.push(extended@));
                },
            }
            return Ok(None);
        }
        if let Some(position) = position {
            self.pending.remove(position);
            self.total = self.total - before;
            assert(self@.pending =~= model.pending.remove(position as int));
        }
        self.finalized.push(delta.index);
        match self.complete(extended) {
            Ok(call) => Ok(Some(call)),
            Err(error) => Err(error),
        }
    }
}

} // verus!
