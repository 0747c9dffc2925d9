//! What holds of a response that arrives in pieces.

use crate::error::HarnessError;
use crate::json::{depth, parsed_json, JsonTree};
use crate::schema::instance_fault;
use crate::stream_turn::{calls_in_order, has_call, with_call, AssemblyModel};
use crate::streaming::{
    assembled, call_position, completed_call, current_call, extended_call, identifier_fault,
    pending_bytes, schema_of, size_fault, AssemblerModel, PartialToolCall, ToolCallDelta,
};
use crate::text::{utf8_len, utf8_len_of_joined};
use crate::tool::ToolCall;
use vstd::prelude::*;

verus! {

/// A pending call is found by its index, at its only place.
proof fn pending_calls_are_found(pending: Seq<PartialToolCall<Seq<char>>>, index: usize, start: nat)
    requires
        forall|i: int, j: int|
            0 <= i < j < pending.len() ==> (#[trigger] pending[i]).index != (
            #[trigger] pending[j]).index,
    ensures
        match call_position(pending, index, start) {
            Some(position) => start <= position < pending.len() && pending[position as int].index
                == index,
            None => forall|i: int| start <= i < pending.len() ==> (#[trigger] pending[i]).index
                != index,
        },
    decreases pending.len() - start,
{
    if start < pending.len() && pending[start as int].index != index {
        pending_calls_are_found(pending, index, start + 1);
    }
}

/// Whatever is found under an index is what stands there.
proof fn pending_call_is_current(model: AssemblerModel, position: int)
    requires
        forall|i: int, j: int|
            0 <= i < j < model.pending.len() ==> (#[trigger] model.pending[i]).index != (
            #[trigger] model.pending[j]).index,
        0 <= position < model.pending.len(),
    ensures
        current_call(model, model.pending[position].index) == model.pending[position],
{
    let index = model.pending[position].index;
    pending_calls_are_found(model.pending, index, 0);
    if let Some(found) = call_position(model.pending, index, 0) {
        if found < position {
            assert(model.pending[found as int].index != model.pending[position].index);
        }
        if found > position {
            assert(model.pending[position].index != model.pending[found as int].index);
        }
    }
}

/// The fragments of a call are joined in the order in which they arrive: after one that does not end
/// the call, what is held under its index is what was held, with the fragment at its end and with
/// the identifiers that came first, and every other call is held as before.
pub proof fn fragments_are_joined(
    model: AssemblerModel,
    delta: ToolCallDelta<Seq<char>>,
    other: usize,
)
    requires
        model.bounded(),
        !delta.is_final,
        assembled(model, delta).1 is Ok,
    ensures
        ({
            let (next, result) = assembled(model, delta);
            let before = current_call(model, delta.index);
            let after = current_call(next, delta.index);
            &&& result == Ok::<Option<ToolCall<Seq<char>>>, HarnessError<Seq<char>>>(None)
            &&& after.arguments_json == before.arguments_json + delta.arguments_fragment
            &&& after.call_id == (if before.call_id is Some {
                before.call_id
            } else {
                delta.call_id
            })
            &&& after.tool_id == (if before.tool_id is Some {
                before.tool_id
            } else {
                delta.tool_id
            })
            &&& other != delta.index ==> current_call(next, other) == current_call(model, other)
            &&& next.finalized == model.finalized && next.call_ids == model.call_ids
            &&& next.seen.contains(delta.index)
        }),
{
    let (next, _) = assembled(model, delta);
    let index = delta.index;
    pending_calls_are_found(model.pending, index, 0);
    pending_calls_are_found(model.pending, other, 0);
    let extended = extended_call(current_call(model, index), delta);
    assert(extended.index == index);
    match call_position(model.pending, index, 0) {
        Some(position) => {
            assert(next.pending =~= model.pending.update(position as int, extended));
            assert forall|i: int, j: int| 0 <= i < j < next.pending.len() implies (
            #[trigger] next.pending[i]).index != (#[trigger] next.pending[j]).index by {
                assert(model.pending[i].index != model.pending[j].index);
            }
            pending_call_is_current(next, position as int);
            if other != index {
                pending_calls_are_found(next.pending, other, 0);
                match call_position(model.pending, other, 0) {
                    Some(at) => {
                        assert(next.pending[at as int] == model.pending[at as int]);
                        pending_call_is_current(next, at as int);
                    },
                    None => {
                        if let Some(at) = call_position(next.pending, other, 0) {
                            assert(model.pending[at as int].index == next.pending[at as int].index);
                        }
                    },
                }
            }
        },
        None => {
            assert(next.pending =~= model.pending.push(extended));
            assert forall|i: int, j: int| 0 <= i < j < next.pending.len() implies (
            #[trigger] next.pending[i]).index != (#[trigger] next.pending[j]).index by {
                assert(next.pending[i] == model.pending[i]);
                if j < model.pending.len() {
                    assert(next.pending[j] == model.pending[j]);
                }
            }
            pending_call_is_current(next, model.pending.len() as int);
            if other != index {
                pending_calls_are_found(next.pending, other, 0);
                match call_position(model.pending, other, 0) {
                    Some(at) => {
                        assert(next.pending[at as int] == model.pending[at as int]);
                        pending_call_is_current(next, at as int);
                    },
                    None => {
                        if let Some(at) = call_position(next.pending, other, 0) {
                            if at < model.pending.len() {
                                assert(model.pending[at as int].index
                                    == next.pending[at as int].index);
                            }
                        }
                    },
                }
            }
        },
    }
    if next.seen != model.seen {
        assert(next.seen[model.seen.len() as int] == index);
    }
}

/// A schema that is found for a tool is one that was allowed for it.
proof fn schemas_are_allowed(allowed: Seq<(Seq<char>, JsonTree)>, tool_id: Seq<char>, start: nat)
    ensures
        match schema_of(allowed, tool_id, start) {
            Some(schema) => exists|i: int|
                0 <= i < allowed.len() && (#[trigger] allowed[i]) == (tool_id, schema),
            None => forall|i: int| start <= i < allowed.len() ==> (#[trigger] allowed[i]).0
                != tool_id,
        },
    decreases allowed.len() - start,
{
    if start < allowed.len() {
        if allowed[start as int].0 == tool_id {
            assert(allowed[start as int] == (tool_id, allowed[start as int].1));
        } else {
            schemas_are_allowed(allowed, tool_id, start + 1);
        }
    }
}

/// A call that its last fragment completes holds all its fragments, joined, and the identifiers that
/// came first. It is for a tool that is allowed, its arguments can be read, are not nested too
/// deeply and fit the tool, and no other call had its identifier. Its index takes no further
/// fragment.
pub proof fn completed_calls_are_whole(model: AssemblerModel, delta: ToolCallDelta<Seq<char>>)
    requires
        assembled(model, delta).1 matches Ok(Some(_)),
    ensures
        ({
            let (next, result) = assembled(model, delta);
            let call = result->Ok_0->0;
            let before = current_call(model, delta.index);
            &&& delta.is_final
            &&& call.arguments_json == before.arguments_json + delta.arguments_fragment
            &&& Some(call.id) == (if before.call_id is Some {
                before.call_id
            } else {
                delta.call_id
            })
            &&& Some(call.tool_id) == (if before.tool_id is Some {
                before.tool_id
            } else {
                delta.tool_id
            })
            &&& parsed_json(call.arguments_json) matches Ok(arguments) && depth(arguments)
                <= model.limits.max_json_depth && exists|i: int|
                0 <= i < model.allowed.len() && (#[trigger] model.allowed[i]).0 == call.tool_id
                    && instance_fault(model.allowed[i].1, arguments) is None
            &&& forall|i: int|
                0 <= i < model.call_ids.len() ==> (#[trigger] model.call_ids[i]) != call.id
            &&& next.call_ids == model.call_ids.push(call.id)
            &&& next.finalized == model.finalized.push(delta.index)
        }),
{
    let before = current_call(model, delta.index);
    let extended = extended_call(before, delta);
    let (ids, result) = completed_call(model, extended);
    schemas_are_allowed(model.allowed, extended.tool_id->0, 0);
    let call = result->Ok_0;
    assert forall|i: int| 0 <= i < model.call_ids.len() implies (#[trigger] model.call_ids[i])
        != call.id by {
        if model.call_ids[i] == call.id {
            assert(model.call_ids.contains(call.id));
        }
    }
}

/// The last fragment completes its call wherever nothing is wrong with it: neither too many calls
/// nor too many bytes, both identifiers given and in agreement, the identifier new, the tool allowed
/// and the arguments valid for it.
pub proof fn valid_calls_are_completed(
    model: AssemblerModel,
    delta: ToolCallDelta<Seq<char>>,
    schema: JsonTree,
)
    requires
        delta.is_final,
        !model.finalized.contains(delta.index),
        model.seen.contains(delta.index) || model.seen.len() < model.limits.max_calls,
        identifier_fault(model.limits, current_call(model, delta.index), delta) is None,
        ({
            let before = current_call(model, delta.index);
            let whole = extended_call(before, delta);
            &&& size_fault(
                model.limits,
                delta.index,
                whole.bytes(),
                (pending_bytes(model.pending) - before.bytes()
                    + whole.bytes()) as nat,
            ) is None
            &&& whole.call_id matches Some(id) && !model.call_ids.contains(id)
            &&& whole.tool_id matches Some(tool) && schema_of(model.allowed, tool, 0) == Some(
                schema,
            )
            &&& parsed_json(whole.arguments_json) matches Ok(arguments) && depth(arguments)
                <= model.limits.max_json_depth && instance_fault(schema, arguments) is None
        }),
    ensures
        assembled(model, delta).1 matches Ok(Some(_)),
{
}

/// The pieces of a text are joined in the order in which they arrive, and each is counted: two pieces
/// give the same text, and the same count, as both at once.
pub proof fn texts_are_joined(assembly: AssemblyModel, first: Seq<char>, second: Seq<char>)
    requires
        assembly.retained_bytes + utf8_len(first) + utf8_len(second) <= assembly.max_bytes,
    ensures
        ({
            let (one, _) = assembly.with_text(first);
            let (two, answer) = one.with_text(second);
            let (both, at_once) = assembly.with_text(first + second);
            &&& answer is Ok && at_once is Ok
            &&& two.text == assembly.text + first + second && both.text == two.text
            &&& two.retained_bytes == assembly.retained_bytes + utf8_len(first) + utf8_len(second)
            &&& both.retained_bytes == two.retained_bytes
            &&& two.calls == assembly.calls
        }),
{
    utf8_len_of_joined(first, second);
    assert(assembly.text + first + second =~= assembly.text + (first + second));
}

/// Writing a call under a new index adds it and keeps all others.
proof fn written_calls_are_kept(
    calls: Seq<(usize, ToolCall<Seq<char>>)>,
    index: usize,
    call: ToolCall<Seq<char>>,
)
    requires
        !has_call(calls, index),
        calls_in_order(calls),
    ensures
        ({
            let after = with_call(calls, index, call);
            &&& after.len() == calls.len() + 1
            &&& calls_in_order(after)
            &&& exists|k: int| 0 <= k < after.len() && (#[trigger] after[k]) == (index, call)
            &&& forall|i: int|
                #![trigger calls[i]]
                0 <= i < calls.len() ==> after.contains(calls[i])
            &&& forall|k: int|
                #![trigger after[k]]
                0 <= k < after.len() ==> after[k] == (index, call) || calls.contains(after[k])
        }),
    decreases calls.len(),
{
    let after = with_call(calls, index, call);
    if calls.len() == 0 || calls.last().0 < index {
        assert(after[calls.len() as int] == (index, call));
        assert forall|i: int| #![trigger calls[i]] 0 <= i < calls.len() implies after.contains(
            calls[i],
        ) by {
            assert(after[i] == calls[i]);
        }
    } else {
        assert(calls[calls.len() - 1].0 != index);
        let rest = calls.drop_last();
        assert(!has_call(rest, index)) by {
            if has_call(rest, index) {
                let i = choose|i: int| 0 <= i < rest.len() && (#[trigger] rest[i]).0 == index;
                assert(calls[i].0 == index);
            }
        }
        assert(calls_in_order(rest)) by {
            assert forall|i: int, j: int| 0 <= i < j < rest.len() implies (#[trigger] rest[i]).0 < (
            #[trigger] rest[j]).0 by {
                assert(calls[i].0 < calls[j].0);
            }
        }
        written_calls_are_kept(rest, index, call);
        let inner = with_call(rest, index, call);
        assert(after == inner.push(calls.last()));
        let k = choose|k: int| 0 <= k < inner.len() && (#[trigger] inner[k]) == (index, call);
        assert(after[k] == (index, call));
        assert forall|i: int| #![trigger calls[i]] 0 <= i < calls.len() implies after.contains(
            calls[i],
        ) by {
            if i < rest.len() {
                assert(inner.contains(rest[i]));
                let j = choose|j: int| 0 <= j < inner.len() && inner[j] == rest[i];
                assert(after[j] == calls[i]);
            } else {
                assert(after[inner.len() as int] == calls[i]);
            }
        }
        assert forall|j: int| #![trigger after[j]] 0 <= j < after.len() implies after[j] == (
            index,
            call,
        ) || calls.contains(after[j]) by {
            if j < inner.len() {
                assert(after[j] == inner[j]);
                if inner[j] != (index, call) {
                    let i = choose|i: int| 0 <= i < rest.len() && rest[i] == inner[j];
                    assert(calls[i] == after[j]);
                }
            } else {
                assert(calls[calls.len() - 1] == after[j]);
            }
        }
        assert forall|i: int, j: int| 0 <= i < j < after.len() implies (#[trigger] after[i]).0 < (
        #[trigger] after[j]).0 by {
            if j < inner.len() {
                assert(inner[i].0 < inner[j].0);
            } else {
                assert(after[i] == inner[i]);
                if inner[i] != (index, call) {
                    let k = choose|k: int| 0 <= k < rest.len() && rest[k] == inner[i];
                    assert(calls[k].0 < calls[calls.len() - 1].0);
                }
            }
        }
    }
}

/// A response holds the text and the calls that arrived, all of them, the calls in the order of
/// their indices, and with the model and the usage that completed it.
pub proof fn responses_hold_what_arrived(
    assembly: AssemblyModel,
    index: usize,
    call: ToolCall<Seq<char>>,
)
    requires
        calls_in_order(assembly.calls),
        !has_call(assembly.calls, index),
        assembly.with_call(index, call).1 is Ok,
        assembly.model is Some,
    ensures
        ({
            let (next, _) = assembly.with_call(index, call);
            let before = assembly.response()->Ok_0;
            let after = next.response()->Ok_0;
            &&& next.response() is Ok && assembly.response() is Ok
            &&& after.tool_calls.len() == before.tool_calls.len() + 1
            &&& after.tool_calls.contains(call)
            &&& forall|i: int|
                #![trigger before.tool_calls[i]]
                0 <= i < before.tool_calls.len() ==> after.tool_calls.contains(
                    before.tool_calls[i],
                )
            &&& after.final_output == (if assembly.text.len() == 0 {
                None
            } else {
                Some(assembly.text)
            })
            &&& after.usage == assembly.usage && Some(after.model) == assembly.model
            &&& calls_in_order(next.calls)
        }),
{
    let (next, _) = assembly.with_call(index, call);
    written_calls_are_kept(assembly.calls, index, call);
    let before = assembly.response()->Ok_0;
    let after = next.response()->Ok_0;
    let k = choose|k: int| 0 <= k < next.calls.len() && (#[trigger] next.calls[k]) == (index, call);
    assert(after.tool_calls[k] == call);
    assert forall|i: int|
        #![trigger before.tool_calls[i]]
        0 <= i < before.tool_calls.len() implies after.tool_calls.contains(
        before.tool_calls[i],
    ) by {
        assert(next.calls.contains(assembly.calls[i]));
        let j = choose|j: int| 0 <= j < next.calls.len() && next.calls[j] == assembly.calls[i];
        assert(after.tool_calls[j] == before.tool_calls[i]);
    }
}

} // verus!
