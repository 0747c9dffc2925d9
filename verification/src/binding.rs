//! How outputs of completed plan nodes become arguments of later nodes.

use crate::error::HarnessError;
use crate::json::{render_json, rendered_json, Json, JsonTree};
use crate::plan::{find_node, id_position, node_ids, PlanNode, ResultBinding};
use crate::pointer::{
    held, placed, places_written, pointed, pointers_apart, writing_leaves_other_places,
};
use crate::text::{byte_len, decimal, decimal_digits, join3, utf8_len};
use crate::tool::{ToolResult, ToolResultModel};
use vstd::prelude::*;

verus! {

/// The results of completed nodes, by position.
pub open spec fn outputs_view(outputs: Seq<Option<ToolResult>>) -> Seq<Option<ToolResultModel>> {
    outputs.map_values(
        |output: Option<ToolResult>|
            match output {
                Some(result) => Some(result@),
                None => None,
            },
    )
}

/// The result of the completed node `id`.
pub open spec fn output_of(
    nodes: Seq<PlanNode>,
    outputs: Seq<Option<ToolResultModel>>,
    id: Seq<char>,
) -> Option<ToolResultModel> {
    match id_position(node_ids(nodes), id, 0) {
        Some(position) => if position < outputs.len() {
            outputs[position as int]
        } else {
            None
        },
        None => None,
    }
}

/// The error of a binding whose node has no result.
pub open spec fn missing_result(node: PlanNode, binding: ResultBinding) -> HarnessError<Seq<char>> {
    HarnessError::InvalidArguments(
        "plan node '"@ + node.id@ + "' cannot bind missing result '"@ + binding.source.node_id@
            + "'"@,
    )
}

/// The error of a binding whose source does not resolve.
pub open spec fn unresolved_source(node: PlanNode) -> HarnessError<Seq<char>> {
    HarnessError::InvalidArguments(
        "plan node '"@ + node.id@ + "' source pointer did not resolve"@,
    )
}

/// The error of a binding whose target does not resolve.
pub open spec fn unresolved_target(node: PlanNode) -> HarnessError<Seq<char>> {
    HarnessError::InvalidArguments(
        "plan node '"@ + node.id@ + "' target pointer did not resolve"@,
    )
}

/// The value that a binding copies.
pub open spec fn bound_value(
    nodes: Seq<PlanNode>,
    outputs: Seq<Option<ToolResultModel>>,
    node: PlanNode,
    binding: ResultBinding,
) -> Result<JsonTree, HarnessError<Seq<char>>> {
    match output_of(nodes, outputs, binding.source.node_id@) {
        None => Err(missing_result(node, binding)),
        Some(result) => match pointed(result.output, binding.source.output_pointer@) {
            None => Err(unresolved_source(node)),
            Some(value) => Ok(value),
        },
    }
}

/// Bytes that the arguments and the first `count` bound values take, where they stay within
/// the budget.
pub open spec fn projected(
    nodes: Seq<PlanNode>,
    outputs: Seq<Option<ToolResultModel>>,
    node: PlanNode,
    budget: u64,
    count: nat,
) -> Result<nat, HarnessError<Seq<char>>>
    decreases count,
{
    if count == 0 || count > node.result_bindings@.len() {
        Ok(utf8_len(rendered_json(node.arguments@)))
    } else {
        let binding = node.result_bindings@[count - 1];
        match projected(nodes, outputs, node, budget, (count - 1) as nat) {
            Err(error) => Err(error),
            Ok(bytes) => match bound_value(nodes, outputs, node, binding) {
                Err(error) => Err(error),
                Ok(value) => if pointed(node.arguments@, binding.target_pointer@) is None {
                    Err(unresolved_target(node))
                } else {
                    let total = bytes + utf8_len(rendered_json(value));
                    if total > u64::MAX {
                        Err(
                            HarnessError::ResourceLimit("bound argument copy budget overflow"@),
                        )
                    } else if total > budget {
                        Err(
                            HarnessError::ResourceLimit(
                                "bound argument copies exceed "@ + decimal_digits(budget as nat)
                                    + " bytes"@,
                            ),
                        )
                    } else {
                        Ok(total)
                    }
                },
            },
        }
    }
}

/// The arguments with the first `count` bindings applied.
pub open spec fn applied(
    nodes: Seq<PlanNode>,
    outputs: Seq<Option<ToolResultModel>>,
    node: PlanNode,
    count: nat,
) -> Result<JsonTree, HarnessError<Seq<char>>>
    decreases count,
{
    if count == 0 || count > node.result_bindings@.len() {
        Ok(node.arguments@)
    } else {
        let binding = node.result_bindings@[count - 1];
        match applied(nodes, outputs, node, (count - 1) as nat) {
            Err(error) => Err(error),
            Ok(arguments) => match bound_value(nodes, outputs, node, binding) {
                Err(error) => Err(error),
                Ok(value) => match placed(arguments, binding.target_pointer@, value) {
                    None => Err(unresolved_target(node)),
                    Some(next) => Ok(next),
                },
            },
        }
    }
}

/// The smaller of two limits.
pub open spec fn smaller(left: u64, right: u64) -> u64 {
    if left <= right {
        left
    } else {
        right
    }
}

/// The final arguments of a node: every binding applied in order, once all of them are known
/// to stay within the budget.
pub open spec fn bound_arguments(
    nodes: Seq<PlanNode>,
    outputs: Seq<Option<ToolResultModel>>,
    node: PlanNode,
    max_arguments_bytes: u64,
    max_plan_argument_bytes: u64,
) -> Result<JsonTree, HarnessError<Seq<char>>> {
    let count = node.result_bindings@.len();
    match projected(
        nodes,
        outputs,
        node,
        smaller(max_arguments_bytes, max_plan_argument_bytes),
        count,
    ) {
        Err(error) => Err(error),
        Ok(_) => applied(nodes, outputs, node, count),
    }
}

/// The view of arguments or an error.
pub open spec fn arguments_view(result: Result<Json, HarnessError>) -> Result<
    JsonTree,
    HarnessError<Seq<char>>,
> {
    match result {
        Ok(arguments) => Ok(arguments@),
        Err(error) => Err(error@),
    }
}

proof fn projected_stays(
    nodes: Seq<PlanNode>,
    outputs: Seq<Option<ToolResultModel>>,
    node: PlanNode,
    budget: u64,
    count: nat,
    longer: nat,
)
    requires
        count <= longer <= node.result_bindings@.len(),
        projected(nodes, outputs, node, budget, count) is Err,
    ensures
        projected(nodes, outputs, node, budget, longer) == projected(
            nodes,
            outputs,
            node,
            budget,
            count,
        ),
    decreases longer - count,
{
    if count < longer {
        projected_stays(nodes, outputs, node, budget, count, (longer - 1) as nat);
    }
}

proof fn applied_stays(
    nodes: Seq<PlanNode>,
    outputs: Seq<Option<ToolResultModel>>,
    node: PlanNode,
    count: nat,
    longer: nat,
)
    requires
        count <= longer <= node.result_bindings@.len(),
        applied(nodes, outputs, node, count) is Err,
    ensures
        applied(nodes, outputs, node, longer) == applied(nodes, outputs, node, count),
    decreases longer - count,
{
    if count < longer {
        applied_stays(nodes, outputs, node, count, (longer - 1) as nat);
    }
}

/// The value that a binding copies.
fn find_value(
    nodes: &Vec<PlanNode>,
    outputs: &Vec<Option<ToolResult>>,
    node: &PlanNode,
    binding: &ResultBinding,
) -> (result: Result<Json, HarnessError>)
    ensures
        match result {
            Ok(value) => bound_value(nodes@, outputs_view(outputs@), *node, *binding) == Ok::<
                JsonTree,
                HarnessError<Seq<char>>,
            >(value@) && held(value@) == value@,
            Err(error) => bound_value(nodes@, outputs_view(outputs@), *node, *binding) == Err::<
                JsonTree,
                HarnessError<Seq<char>>,
            >(error@),
        },
{
    let position = find_node(nodes, binding.source.node_id.as_str());
    if let Some(position) = position {
        if position < outputs.len() {
            assert(outputs_view(outputs@)[position as int] == match outputs@[position as int] {
                Some(result) => Some(result@),
                None => None,
            });
            if let Some(result) = &outputs[position] {
                return match result.output.pointer(binding.source.output_pointer.as_str()) {
                    Some(value) => Ok(value),
                    None => Err(
                        HarnessError::InvalidArguments(
                            join3(
                                "plan node '",
                                node.id.as_str(),
                                "' source pointer did not resolve",
                            ),
                        ),
                    ),
                };
            }
        }
    }
    let head = join3("plan node '", node.id.as_str(), "' cannot bind missing result '");
    Err(
        HarnessError::InvalidArguments(
            join3(head.as_str(), binding.source.node_id.as_str(), "'"),
        ),
    )
}

fn target_error(node: &PlanNode) -> (result: HarnessError)
    ensures
        result@ == unresolved_target(*node),
{
    HarnessError::InvalidArguments(
        join3("plan node '", node.id.as_str(), "' target pointer did not resolve"),
    )
}

/// Whether the last binding of a node holds in its arguments: the target reads as the source.
pub open spec fn last_binding_holds(
    nodes: Seq<PlanNode>,
    outputs: Seq<Option<ToolResultModel>>,
    node: PlanNode,
    count: nat,
    arguments: JsonTree,
) -> bool {
    let binding = node.result_bindings@[count - 1];
    bound_value(nodes, outputs, node, binding) matches Ok(value) && pointed(
        arguments,
        binding.target_pointer@,
    ) == Some(value)
}

/// Whether position `k` is the first at which a node has this identifier.
pub open spec fn first_named(nodes: Seq<PlanNode>, id: Seq<char>, k: int) -> bool {
    &&& 0 <= k < nodes.len() && nodes[k].id@ == id
    &&& forall|j: int| 0 <= j < k ==> (#[trigger] nodes[j]).id@ != id
}

/// Whether the source of a binding is this value: the result of the node that it names holds it
/// where its pointer leads.
pub open spec fn source_reads(
    nodes: Seq<PlanNode>,
    outputs: Seq<Option<ToolResultModel>>,
    binding: ResultBinding,
    value: JsonTree,
) -> bool {
    exists|k: int| #[trigger]
        first_named(nodes, binding.source.node_id@, k) && k < outputs.len() && (outputs[k] matches
            Some(result) && pointed(result.output, binding.source.output_pointer@) == Some(value))
}

proof fn id_position_is_first(nodes: Seq<PlanNode>, id: Seq<char>, start: nat)
    ensures
        match id_position(node_ids(nodes), id, start) {
            Some(position) => start <= position < nodes.len() && nodes[position as int].id@ == id
                && forall|j: int| start <= j < position ==> (#[trigger] nodes[j]).id@ != id,
            None => forall|j: int| start <= j < nodes.len() ==> (#[trigger] nodes[j]).id@ != id,
        },
    decreases nodes.len() - start,
{
    if start < nodes.len() {
        assert(node_ids(nodes)[start as int] == nodes[start as int].id@);
        if nodes[start as int].id@ != id {
            id_position_is_first(nodes, id, start + 1);
        }
    }
}

/// What a binding copies is what its pointer names in the result of the node that it names, and it
/// copies something exactly where there is such a value.
pub proof fn bindings_copy_their_source(
    nodes: Seq<PlanNode>,
    outputs: Seq<Option<ToolResultModel>>,
    node: PlanNode,
    binding: ResultBinding,
)
    ensures
        forall|value: JsonTree|
            bound_value(nodes, outputs, node, binding) == Ok::<JsonTree, HarnessError<Seq<char>>>(
                value,
            ) <==> #[trigger] source_reads(nodes, outputs, binding, value),
        bound_value(nodes, outputs, node, binding) matches Err(error) ==> error is InvalidArguments,
{
    let id = binding.source.node_id@;
    id_position_is_first(nodes, id, 0);
    assert forall|value: JsonTree|
        bound_value(nodes, outputs, node, binding) == Ok::<JsonTree, HarnessError<Seq<char>>>(
            value,
        ) <==> #[trigger] source_reads(nodes, outputs, binding, value) by {
        if let Some(position) = id_position(node_ids(nodes), id, 0) {
            assert(first_named(nodes, id, position as int));
            assert forall|k: int| #[trigger] first_named(nodes, id, k) implies k == position by {
                if k < position {
                    assert(nodes[k].id@ != id);
                } else if position < k {
                    assert(nodes[position as int].id@ != id);
                }
            }
        }
    }
}

/// Whether no later one of the first `count` bindings writes into or around the target of binding
/// `index`.
pub open spec fn kept_apart(node: PlanNode, index: int, count: nat) -> bool {
    forall|later: int|
        #![trigger node.result_bindings@[later]]
        index < later < count ==> pointers_apart(
            node.result_bindings@[later].target_pointer@,
            node.result_bindings@[index].target_pointer@,
        )
}

/// Whether a pointer is apart from the targets of the first `count` bindings.
pub open spec fn untouched(node: PlanNode, pointer: Seq<char>, count: nat) -> bool {
    forall|index: int|
        #![trigger node.result_bindings@[index]]
        0 <= index < count ==> pointers_apart(
            node.result_bindings@[index].target_pointer@,
            pointer,
        )
}

/// Whether the first `count` bindings of a node hold in its arguments: every target that no later
/// binding touches reads as its source, and whatever no binding touches reads as in the arguments
/// that the plan gives.
pub open spec fn bindings_hold(
    nodes: Seq<PlanNode>,
    outputs: Seq<Option<ToolResultModel>>,
    node: PlanNode,
    arguments: JsonTree,
    count: nat,
) -> bool {
    &&& forall|index: int|
        #![trigger node.result_bindings@[index]]
        0 <= index < count && kept_apart(node, index, count) ==> exists|value: JsonTree| #[trigger]
            source_reads(nodes, outputs, node.result_bindings@[index], value) && pointed(
                arguments,
                node.result_bindings@[index].target_pointer@,
            ) == Some(value)
    &&& forall|pointer: Seq<char>| #[trigger]
        untouched(node, pointer, count) ==> pointed(arguments, pointer) == pointed(
            node.arguments@,
            pointer,
        )
}

proof fn further_bindings_hold(
    nodes: Seq<PlanNode>,
    outputs: Seq<Option<ToolResultModel>>,
    node: PlanNode,
    arguments: JsonTree,
    count: nat,
    value: JsonTree,
    written: JsonTree,
)
    requires
        count < node.result_bindings@.len(),
        bindings_hold(nodes, outputs, node, arguments, count),
        bound_value(nodes, outputs, node, node.result_bindings@[count as int]) == Ok::<
            JsonTree,
            HarnessError<Seq<char>>,
        >(value),
        held(value) == value,
        pointed(arguments, node.result_bindings@[count as int].target_pointer@) is Some,
        pointed(written, node.result_bindings@[count as int].target_pointer@) == Some(held(value)),
        places_written(
            arguments,
            node.result_bindings@[count as int].target_pointer@,
            value,
            written,
        ),
    ensures
        bindings_hold(nodes, outputs, node, written, (count + 1) as nat),
{
    let bindings = node.result_bindings@;
    let last = bindings[count as int];
    let target = last.target_pointer@;
    bindings_copy_their_source(nodes, outputs, node, last);
    assert(source_reads(nodes, outputs, last, value));
    assert forall|index: int|
        #![trigger bindings[index]]
        0 <= index < count + 1 && kept_apart(node, index, (count + 1) as nat) implies exists|
        source: JsonTree,
    | #[trigger]
        source_reads(nodes, outputs, bindings[index], source) && pointed(
            written,
            bindings[index].target_pointer@,
        ) == Some(source) by {
        if index < count {
            assert(bindings[count as int] == last);
            assert(pointers_apart(target, bindings[index].target_pointer@));
            assert(kept_apart(node, index, count));
            writing_leaves_other_places(
                arguments,
                target,
                value,
                written,
                bindings[index].target_pointer@,
            );
        } else {
            assert(source_reads(nodes, outputs, bindings[index], value));
        }
    }
    assert forall|pointer: Seq<char>| #[trigger]
        untouched(node, pointer, (count + 1) as nat) implies pointed(written, pointer) == pointed(
        node.arguments@,
        pointer,
    ) by {
        assert(bindings[count as int] == last);
        assert(untouched(node, pointer, count));
        writing_leaves_other_places(arguments, target, value, written, pointer);
    }
}

/// The final arguments of a node, from the results of the nodes that are done. Every binding holds
/// in them, unless a later one writes over it, and nothing else is changed.
pub fn bind_arguments(
    nodes: &Vec<PlanNode>,
    outputs: &Vec<Option<ToolResult>>,
    node: &PlanNode,
    max_arguments_bytes: u64,
    max_plan_argument_bytes: u64,
) -> (result: Result<Json, HarnessError>)
    ensures
        arguments_view(result) == bound_arguments(
            nodes@,
            outputs_view(outputs@),
            *node,
            max_arguments_bytes,
            max_plan_argument_bytes,
        ),
        match result {
            Ok(arguments) => node.result_bindings@.len() > 0 ==> last_binding_holds(
                nodes@,
                outputs_view(outputs@),
                *node,
                node.result_bindings@.len(),
                arguments@,
            ),
            Err(_) => true,
        },
        result matches Ok(arguments) ==> bindings_hold(
            nodes@,
            outputs_view(outputs@),
            *node,
            arguments@,
            node.result_bindings@.len(),
        ),
{
    let budget = if max_arguments_bytes <= max_plan_argument_bytes {
        max_arguments_bytes
    } else {
        max_plan_argument_bytes
    };
    let ghost done = outputs_view(outputs@);
    let ghost all = node.result_bindings@.len();
    let text = render_json(&node.arguments);
    let mut bytes: u64 = byte_len(text.as_str()) as u64;
    let mut i: usize = 0;
    while i < node.result_bindings.len()
        invariant
            i <= node.result_bindings@.len(),
            done == outputs_view(outputs@),
            all == node.result_bindings@.len(),
            budget == smaller(max_arguments_bytes, max_plan_argument_bytes),
            projected(nodes@, done, *node, budget, i as nat) == Ok::<nat, HarnessError<Seq<char>>>(
                bytes as nat,
            ),
        decreases node.result_bindings@.len() - i,
    {
        let binding = &node.result_bindings[i];
        let value = match find_value(nodes, outputs, node, binding) {
            Ok(value) => value,
            Err(error) => {
                proof {
                    projected_stays(nodes@, done, *node, budget, (i + 1) as nat, all);
                }
                return Err(error);
            },
        };
        if node.arguments.pointer(binding.target_pointer.as_str()).is_none() {
            proof {
                projected_stays(nodes@, done, *node, budget, (i + 1) as nat, all);
            }
            return Err(target_error(node));
        }
        let copy = render_json(&value);
        match bytes.checked_add(byte_len(copy.as_str()) as u64) {
            None => {
                proof {
                    projected_stays(nodes@, done, *node, budget, (i + 1) as nat, all);
                }
                return Err(
                    HarnessError::ResourceLimit("bound argument copy budget overflow".to_owned()),
                );
            },
            Some(total) => {
                if total > budget {
                    let digits = decimal(budget);
                    proof {
                        projected_stays(nodes@, done, *node, budget, (i + 1) as nat, all);
                    }
                    return Err(
                        HarnessError::ResourceLimit(
                            join3("bound argument copies exceed ", digits.as_str(), " bytes"),
                        ),
                    );
                }
                bytes = total;
            },
        }
        i += 1;
    }
    let mut arguments = node.arguments.duplicate();
    let mut j: usize = 0;
    while j < node.result_bindings.len()
        invariant
            j <= node.result_bindings@.len(),
            done == outputs_view(outputs@),
            all == node.result_bindings@.len(),
            projected(
                nodes@,
                done,
                *node,
                smaller(max_arguments_bytes, max_plan_argument_bytes),
                all,
            ) is Ok,
            applied(nodes@, done, *node, j as nat) == Ok::<JsonTree, HarnessError<Seq<char>>>(
                arguments@,
            ),
            j > 0 ==> last_binding_holds(nodes@, done, *node, j as nat, arguments@),
            bindings_hold(nodes@, done, *node, arguments@, j as nat),
        decreases node.result_bindings@.len() - j,
    {
        let binding = &node.result_bindings[j];
        let value = match find_value(nodes, outputs, node, binding) {
            Ok(value) => value,
            Err(error) => {
                proof {
                    applied_stays(nodes@, done, *node, (j + 1) as nat, all);
                }
                return Err(error);
            },
        };
        match arguments.with_pointer(binding.target_pointer.as_str(), &value) {
            Some(next) => {
                proof {
                    further_bindings_hold(
                        nodes@,
                        done,
                        *node,
                        arguments@,
                        j as nat,
                        value@,
                        next@,
                    );
                }
                arguments = next;
            },
            None => {
                proof {
                    applied_stays(nodes@, done, *node, (j + 1) as nat, all);
                }
                return Err(target_error(node));
            },
        }
        j += 1;
    }
    Ok(arguments)
}

/// A node without bindings keeps its arguments.
pub proof fn unbound_arguments_stay(
    nodes: Seq<PlanNode>,
    outputs: Seq<Option<ToolResultModel>>,
    node: PlanNode,
    max_arguments_bytes: u64,
    max_plan_argument_bytes: u64,
)
    requires
        node.result_bindings@.len() == 0,
    ensures
        bound_arguments(nodes, outputs, node, max_arguments_bytes, max_plan_argument_bytes)
            == Ok::<JsonTree, HarnessError<Seq<char>>>(node.arguments@),
{
}

/// Bytes that values take together.
pub open spec fn values_len(values: Seq<JsonTree>) -> nat
    decreases values.len(),
{
    if values.len() == 0 {
        0
    } else {
        values_len(values.drop_last()) + utf8_len(rendered_json(values.last()))
    }
}

/// Whether these are the values that the bindings of a node copy, and every target is there.
pub open spec fn all_resolve(
    nodes: Seq<PlanNode>,
    outputs: Seq<Option<ToolResultModel>>,
    node: PlanNode,
    values: Seq<JsonTree>,
) -> bool {
    &&& values.len() == node.result_bindings@.len()
    &&& forall|i: int|
        #![trigger node.result_bindings@[i]]
        0 <= i < values.len() ==> source_reads(nodes, outputs, node.result_bindings@[i], values[i])
            && pointed(node.arguments@, node.result_bindings@[i].target_pointer@) is Some
}

proof fn projection_adds_up(
    nodes: Seq<PlanNode>,
    outputs: Seq<Option<ToolResultModel>>,
    node: PlanNode,
    budget: u64,
    values: Seq<JsonTree>,
    count: nat,
)
    requires
        all_resolve(nodes, outputs, node, values),
        count <= values.len(),
    ensures
        ({
            let own = utf8_len(rendered_json(node.arguments@));
            let total = own + values_len(values.take(count as int));
            match projected(nodes, outputs, node, budget, count) {
                Ok(bytes) => bytes == total && (count > 0 ==> total <= budget),
                Err(error) => error is ResourceLimit && total > budget,
            }
        }),
    decreases count,
{
    if count > 0 {
        projection_adds_up(nodes, outputs, node, budget, values, (count - 1) as nat);
        let binding = node.result_bindings@[count - 1];
        bindings_copy_their_source(nodes, outputs, node, binding);
        assert(source_reads(nodes, outputs, binding, values[count - 1]));
        assert(values.take(count as int).drop_last() =~= values.take(count - 1));
        assert(values.take(count as int).last() == values[count - 1]);
    } else {
        assert(values.take(0) =~= Seq::empty());
    }
}

proof fn projection_resolves(
    nodes: Seq<PlanNode>,
    outputs: Seq<Option<ToolResultModel>>,
    node: PlanNode,
    budget: u64,
    count: nat,
) -> (values: Seq<JsonTree>)
    requires
        projected(nodes, outputs, node, budget, count) is Ok,
        count <= node.result_bindings@.len(),
    ensures
        values.len() == count,
        forall|i: int|
            #![trigger node.result_bindings@[i]]
            0 <= i < count ==> source_reads(nodes, outputs, node.result_bindings@[i], values[i])
                && pointed(node.arguments@, node.result_bindings@[i].target_pointer@) is Some,
    decreases count,
{
    if count == 0 {
        Seq::empty()
    } else {
        let before = projection_resolves(nodes, outputs, node, budget, (count - 1) as nat);
        let binding = node.result_bindings@[count - 1];
        bindings_copy_their_source(nodes, outputs, node, binding);
        let value = bound_value(nodes, outputs, node, binding)->Ok_0;
        assert(source_reads(nodes, outputs, binding, value));
        before.push(value)
    }
}

/// Arguments are bound only where every source and every target is there, and the arguments with
/// all copies stay within both limits. Where something is missing, or too much is copied, the node
/// gets no arguments.
pub proof fn bound_copies_stay_within_limits(
    nodes: Seq<PlanNode>,
    outputs: Seq<Option<ToolResultModel>>,
    node: PlanNode,
    max_arguments_bytes: u64,
    max_plan_argument_bytes: u64,
)
    ensures
        ({
            let bound = bound_arguments(
                nodes,
                outputs,
                node,
                max_arguments_bytes,
                max_plan_argument_bytes,
            );
            &&& bound is Ok ==> exists|values: Seq<JsonTree>| #[trigger]
                all_resolve(nodes, outputs, node, values)
            &&& forall|values: Seq<JsonTree>| #[trigger]
                all_resolve(nodes, outputs, node, values) && values.len() > 0 ==> {
                    let total = utf8_len(rendered_json(node.arguments@)) + values_len(values);
                    &&& bound is Ok ==> total <= max_arguments_bytes && total
                        <= max_plan_argument_bytes
                    &&& total > max_arguments_bytes || total > max_plan_argument_bytes
                        ==> (bound matches Err(error) && error is ResourceLimit)
                }
        }),
{
    let budget = smaller(max_arguments_bytes, max_plan_argument_bytes);
    let count = node.result_bindings@.len();
    if projected(nodes, outputs, node, budget, count) is Ok {
        let values = projection_resolves(nodes, outputs, node, budget, count);
        assert(all_resolve(nodes, outputs, node, values));
    }
    assert forall|values: Seq<JsonTree>| #[trigger]
        all_resolve(nodes, outputs, node, values) && values.len() > 0 implies {
        let total = utf8_len(rendered_json(node.arguments@)) + values_len(values);
        let bound = bound_arguments(
            nodes,
            outputs,
            node,
            max_arguments_bytes,
            max_plan_argument_bytes,
        );
        &&& bound is Ok ==> total <= max_arguments_bytes && total <= max_plan_argument_bytes
        &&& total > max_arguments_bytes || total > max_plan_argument_bytes ==> (bound matches Err(
            error,
        ) && error is ResourceLimit)
    } by {
        projection_adds_up(nodes, outputs, node, budget, values, count);
        assert(values.take(count as int) =~= values);
    }
}

} // verus!
