//! What holds of the tools that are registered and of the plans that are accepted.

use crate::agent::RunRequest;
use crate::broker::{invocation_key, occurrences};
use crate::discovery::{ToolDiscoveryLimits, ToolDiscoveryMetadata};
use crate::error::HarnessError;
use crate::json::{depth, items_depth, members_depth, rendered_json, JsonTree};
use crate::model::ProviderCapabilityLimits;
use crate::plan::{
    all_sources_fault, bindings_fault, dependencies_fault, identifiers_fault, links_fault, node_ids,
    plan_valid, reaches, sources_fault, PlanNode,
};
use crate::plan_preflight::{
    node_fault, node_limit, nodes_fault, plan_tree, static_answer, topology_answer, unbound_keys,
    PlanBounds,
};
use crate::registry::{arguments_fault, position_from, registered, RegisteredTool, ToolScope};
use crate::text::{blank, texts, utf8_len};
use crate::tool::{ToolCaller, ToolDefinition};
use crate::tool_registry::{registers, RegistryModel};
use vstd::prelude::*;

verus! {

/// A registered tool is found under its identifier, as it was registered; every other tool is found
/// as before. A tool that is refused changes nothing, and an identifier is registered once.
pub proof fn registered_tools_are_found(
    before: RegistryModel,
    after: RegistryModel,
    definition: ToolDefinition,
    metadata: ToolDiscoveryMetadata,
    serialized_bytes: u64,
    answer: Result<(), HarnessError<Seq<char>>>,
    other: Seq<char>,
)
    requires
        registers(before, after, definition, metadata, serialized_bytes, answer),
    ensures
        answer is Ok ==> (registered(after.tools, definition.id@) matches Some(tool)
            && tool.definition == definition && tool.metadata.exposure == metadata.exposure
            && tool.metadata.namespace == metadata.namespace && tool.serialized_bytes
            == serialized_bytes),
        answer is Ok ==> registered(before.tools, definition.id@) is None,
        other != definition.id@ || answer is Err ==> registered(after.tools, other) == registered(
            before.tools,
            other,
        ),
        registered(before.tools, definition.id@) is Some ==> answer is Err,
        answer is Err ==> after == before,
{
    if answer is Ok {
        let tools = before.tools;
        assert(after.tools =~= tools.push(after.tools.last()));
        first_positions_stay(tools, after.tools.last(), definition.id@, 0);
        first_positions_stay(tools, after.tools.last(), other, 0);
    }
}

/// A tool behind the others is found where none of them is.
proof fn first_positions_stay(
    tools: Seq<RegisteredTool>,
    tool: RegisteredTool,
    id: Seq<char>,
    start: nat,
)
    requires
        start <= tools.len(),
    ensures
        position_from(tools.push(tool), id, start) == (match position_from(tools, id, start) {
            Some(position) => Some(position),
            None => if tool.definition.id@ == id {
                Some(tools.len())
            } else {
                None
            },
        }),
        position_from(tools, id, start) matches Some(position) ==> position < tools.len()
            && tools.push(tool)[position as int] == tools[position as int],
    decreases tools.len() - start,
{
    if start < tools.len() {
        assert(tools.push(tool)[start as int] == tools[start as int]);
        if tools[start as int].definition.id@ != id {
            first_positions_stay(tools, tool, id, start + 1);
        }
    } else {
        assert(tools.push(tool)[tools.len() as int] == tool);
        assert(position_from(tools.push(tool), id, start + 1) is None);
    }
}

/// The limits that hold are the stricter ones of the host and the provider.
pub proof fn stricter_limits_hold(host: ToolDiscoveryLimits, provider: ProviderCapabilityLimits)
    ensures
        ({
            let limits = host.narrowed(provider);
            &&& limits.max_tools <= host.max_tools && limits.max_bytes
                <= host.max_tool_schema_bytes && limits.max_expansion == host.max_expansion_tools
            &&& provider.max_tools matches Some(most) ==> limits.max_tools <= most
            &&& provider.max_tool_schema_bytes matches Some(most) ==> limits.max_bytes <= most
            &&& limits.max_tools == host.max_tools || provider.max_tools == Some(limits.max_tools)
            &&& limits.max_bytes == host.max_tool_schema_bytes || provider.max_tool_schema_bytes
                == Some(limits.max_bytes)
        }),
{
}

proof fn deepest_items(items: Seq<JsonTree>, count: nat)
    requires
        count <= items.len(),
    ensures
        forall|i: int| 0 <= i < count ==> depth(#[trigger] items[i]) <= items_depth(items, count),
        count > 0 ==> exists|i: int|
            0 <= i < count && depth(#[trigger] items[i]) == items_depth(items, count),
        count == 0 ==> items_depth(items, count) == 0,
    decreases count,
{
    if count > 0 {
        deepest_items(items, (count - 1) as nat);
        if count > 1 {
            let rest = items_depth(items, (count - 1) as nat);
            let i = choose|i: int| 0 <= i < count - 1 && depth(#[trigger] items[i]) == rest;
            assert(depth(items[i]) == rest);
        }
        assert(depth(items[count - 1]) <= items_depth(items, count));
    }
}

proof fn deepest_members(members: Seq<(Seq<char>, JsonTree)>, count: nat)
    requires
        count <= members.len(),
    ensures
        forall|i: int|
            0 <= i < count ==> depth((#[trigger] members[i]).1) <= members_depth(members, count),
        count > 0 ==> exists|i: int|
            0 <= i < count && depth((#[trigger] members[i]).1) == members_depth(members, count),
        count == 0 ==> members_depth(members, count) == 0,
    decreases count,
{
    if count > 0 {
        deepest_members(members, (count - 1) as nat);
        if count > 1 {
            let rest = members_depth(members, (count - 1) as nat);
            let i = choose|i: int| 0 <= i < count - 1 && depth((#[trigger] members[i]).1) == rest;
            assert(depth(members[i].1) == rest);
        }
        assert(depth(members[count - 1].1) <= members_depth(members, count));
    }
}

/// A value is nested one level deeper than the deepest of what it holds, and no deeper; what holds
/// nothing is flat.
pub proof fn values_nest_one_deeper(value: JsonTree)
    ensures
        match value {
            JsonTree::Array(items) => {
                &&& depth(value) >= 1
                &&& forall|i: int|
                    0 <= i < items.len() ==> depth(#[trigger] items[i]) < depth(value)
                &&& items.len() > 0 ==> exists|i: int|
                    0 <= i < items.len() && depth(#[trigger] items[i]) + 1 == depth(value)
                &&& items.len() == 0 ==> depth(value) == 1
            },
            JsonTree::Object(members) => {
                &&& depth(value) >= 1
                &&& forall|i: int|
                    0 <= i < members.len() ==> depth((#[trigger] members[i]).1) < depth(value)
                &&& members.len() > 0 ==> exists|i: int|
                    0 <= i < members.len() && depth((#[trigger] members[i]).1) + 1 == depth(value)
                &&& members.len() == 0 ==> depth(value) == 1
            },
            _ => depth(value) == 0,
        },
{
    match value {
        JsonTree::Array(items) => {
            deepest_items(items, items.len());
            if items.len() > 0 {
                let i = choose|i: int|
                    0 <= i < items.len() && depth(#[trigger] items[i]) == items_depth(
                        items,
                        items.len(),
                    );
                assert(depth(items[i]) + 1 == depth(value));
            }
        },
        JsonTree::Object(members) => {
            deepest_members(members, members.len());
            if members.len() > 0 {
                let i = choose|i: int|
                    0 <= i < members.len() && depth((#[trigger] members[i]).1) == members_depth(
                        members,
                        members.len(),
                    );
                assert(depth(members[i].1) + 1 == depth(value));
            }
        },
        _ => {},
    }
}

/// Whether a step of a plan may be called: its tool is offered, registered and open to the agent and
/// to plans, and its arguments fit the tool.
pub open spec fn callable(
    tools: Seq<RegisteredTool>,
    scope: &ToolScope,
    request: &RunRequest,
    node: PlanNode,
) -> bool {
    &&& texts(scope.tool_ids@).contains(node.tool_id@)
    &&& texts(request.agent.tool_allowlist@).contains(node.tool_id@)
    &&& registered(tools, node.tool_id@) matches Some(tool)
        && tool.definition.allowed_callers@.contains(ToolCaller::DeclarativePlan)
    &&& arguments_fault(tools, node.tool_id@, node.arguments@) is None
}

/// Whether a step is not repeated too often: the steps up to it that ask for the same call are no
/// more than is allowed.
pub open spec fn not_repeated(nodes: Seq<PlanNode>, request: &RunRequest, index: int) -> bool {
    let node = nodes[index];
    node.result_bindings@.len() > 0 || occurrences(
        unbound_keys(nodes, (index + 1) as nat),
        invocation_key(node.tool_id@, node.arguments@),
    ) <= request.agent.limits.max_identical_tool_calls
}

proof fn faultless_nodes_are_callable(
    nodes: Seq<PlanNode>,
    tools: Seq<RegisteredTool>,
    scope: &ToolScope,
    request: &RunRequest,
    start: nat,
)
    ensures
        nodes_fault(nodes, tools, scope, request, start) is None <==> forall|i: int|
            start <= i < nodes.len() ==> callable(tools, scope, request, #[trigger] nodes[i])
                && not_repeated(nodes, request, i),
    decreases nodes.len() - start,
{
    if start < nodes.len() {
        faultless_nodes_are_callable(nodes, tools, scope, request, start + 1);
        assert(node_fault(nodes, tools, scope, request, start as int) is None <==> callable(
            tools,
            scope,
            request,
            nodes[start as int],
        ) && not_repeated(nodes, request, start as int));
        if nodes_fault(nodes, tools, scope, request, start) is None {
            assert forall|i: int| start <= i < nodes.len() implies callable(
                tools,
                scope,
                request,
                #[trigger] nodes[i],
            ) && not_repeated(nodes, request, i) by {
                if i > start {
                    assert(start + 1 <= i);
                }
            }
        }
    }
}

/// A plan that is accepted has steps, no more of them than the run, the provider and the library
/// each allow, and no more bytes than the provider allows. Every step may be called and none is
/// repeated too often. A plan of which all that holds, and whose steps hang together, is accepted.
pub proof fn accepted_plans_may_be_executed(
    nodes: Seq<PlanNode>,
    tools: Seq<RegisteredTool>,
    scope: &ToolScope,
    request: &RunRequest,
    provider: ProviderCapabilityLimits,
    bounds: PlanBounds,
    answer: Result<(), HarnessError<Seq<char>>>,
)
    requires
        static_answer(nodes, tools, scope, request, provider, bounds, answer),
    ensures
        ({
            let small = 0 < nodes.len() <= request.agent.limits.max_tool_calls && nodes.len()
                <= bounds.max_nodes && (provider.max_plan_nodes matches Some(most) ==> nodes.len()
                <= most) && (provider.max_plan_bytes matches Some(most) ==> utf8_len(
                rendered_json(plan_tree(nodes)),
            ) <= most);
            let steps = forall|i: int|
                0 <= i < nodes.len() ==> callable(tools, scope, request, #[trigger] nodes[i])
                    && not_repeated(nodes, request, i);
            &&& answer is Ok ==> small && steps && plan_valid(
                nodes,
                node_limit(request, provider, bounds),
            ) && topology_answer(nodes, tools, scope, Ok(()))
            &&& small && steps && plan_valid(nodes, node_limit(request, provider, bounds))
                && topology_answer(nodes, tools, scope, Ok(())) ==> answer
                is Ok
        }),
{
    faultless_nodes_are_callable(nodes, tools, scope, request, 0);
}

/// Whether the first steps are named: each has an identifier and a tool, and no two the same
/// identifier.
pub open spec fn well_named(nodes: Seq<PlanNode>, count: nat) -> bool {
    &&& forall|i: int|
        0 <= i < count ==> !blank((#[trigger] nodes[i]).id@) && !blank(nodes[i].tool_id@)
    &&& forall|i: int, j: int|
        0 <= i < j < count ==> (#[trigger] nodes[i]).id@ != (#[trigger] nodes[j]).id@
}

proof fn names_are_checked(nodes: Seq<PlanNode>, count: nat)
    requires
        count <= nodes.len(),
    ensures
        identifiers_fault(nodes, count) is None <==> well_named(nodes, count),
    decreases count,
{
    if count > 0 {
        names_are_checked(nodes, (count - 1) as nat);
        let ids = node_ids(nodes).take(count - 1);
        let id = nodes[count - 1].id@;
        if ids.contains(id) {
            let i = choose|i: int| 0 <= i < ids.len() && ids[i] == id;
            assert(nodes[i].id@ == nodes[count - 1].id@);
        } else {
            assert forall|i: int| 0 <= i < count - 1 implies (#[trigger] nodes[i]).id@ != id by {
                assert(ids[i] == nodes[i].id@);
            }
        }
    }
}

/// Whether the first dependencies of a step are other steps, each named once.
pub open spec fn well_linked(ids: Seq<Seq<char>>, node: PlanNode, count: nat) -> bool {
    let on = node.depends_on@;
    &&& forall|i: int|
        0 <= i < count ==> (#[trigger] on[i])@ != node.id@ && ids.contains(on[i]@)
    &&& forall|i: int, j: int| 0 <= i < j < count ==> (#[trigger] on[i])@ != (#[trigger] on[j])@
}

proof fn dependencies_are_checked(ids: Seq<Seq<char>>, node: PlanNode, count: nat)
    requires
        count <= node.depends_on@.len(),
    ensures
        dependencies_fault(ids, node, count) is None <==> well_linked(ids, node, count),
    decreases count,
{
    if count > 0 {
        dependencies_are_checked(ids, node, (count - 1) as nat);
        let on = node.depends_on@;
        let earlier = texts(on).take(count - 1);
        let last = on[count - 1]@;
        if earlier.contains(last) {
            let i = choose|i: int| 0 <= i < earlier.len() && earlier[i] == last;
            assert(on[i]@ == on[count - 1]@);
        } else {
            assert forall|i: int| 0 <= i < count - 1 implies (#[trigger] on[i])@ != last by {
                assert(earlier[i] == on[i]@);
            }
        }
    }
}

/// Whether the first bindings of a step point somewhere: each has a place to write to, a place to
/// read from, and a step that it reads.
pub open spec fn well_bound(ids: Seq<Seq<char>>, node: PlanNode, count: nat) -> bool {
    let bound = node.result_bindings@;
    forall|i: int|
        0 <= i < count ==> {
            &&& (#[trigger] bound[i]).target_pointer@.len() > 0 && bound[i].target_pointer@[0]
                == '/'
            &&& bound[i].source.output_pointer@.len() == 0
                || bound[i].source.output_pointer@[0] == '/'
            &&& ids.contains(bound[i].source.node_id@)
        }
}

proof fn bindings_are_checked(ids: Seq<Seq<char>>, node: PlanNode, count: nat)
    requires
        count <= node.result_bindings@.len(),
    ensures
        bindings_fault(ids, node, count) is None <==> well_bound(ids, node, count),
    decreases count,
{
    if count > 0 {
        bindings_are_checked(ids, node, (count - 1) as nat);
        let bound = node.result_bindings@;
        if well_bound(ids, node, count) {
            assert(bound[count - 1].target_pointer@.len() > 0);
        }
    }
}

/// Whether a step hangs together with the others.
pub open spec fn hangs_together(nodes: Seq<PlanNode>, index: int) -> bool {
    let node = nodes[index];
    &&& well_linked(node_ids(nodes), node, node.depends_on@.len())
    &&& well_bound(node_ids(nodes), node, node.result_bindings@.len())
}

proof fn links_are_checked(nodes: Seq<PlanNode>, count: nat)
    requires
        count <= nodes.len(),
    ensures
        links_fault(nodes, count) is None <==> forall|i: int|
            0 <= i < count ==> #[trigger] hangs_together(nodes, i),
    decreases count,
{
    if count > 0 {
        links_are_checked(nodes, (count - 1) as nat);
        let node = nodes[count - 1];
        dependencies_are_checked(node_ids(nodes), node, node.depends_on@.len());
        bindings_are_checked(node_ids(nodes), node, node.result_bindings@.len());
        assert(hangs_together(nodes, count - 1) <==> dependencies_fault(
            node_ids(nodes),
            node,
            node.depends_on@.len(),
        ) is None && bindings_fault(node_ids(nodes), node, node.result_bindings@.len()) is None);
    }
}

/// A valid plan has no more steps than is allowed; its steps are named, each by its own identifier;
/// they depend on other steps of the plan, on each of them once, and on no circle; and what they
/// bind is read from steps of the plan.
pub proof fn valid_plans_hang_together(nodes: Seq<PlanNode>, max_nodes: usize)
    ensures
        plan_valid(nodes, max_nodes) ==> nodes.len() <= max_nodes && well_named(nodes, nodes.len())
            && (forall|i: int| 0 <= i < nodes.len() ==> #[trigger] hangs_together(nodes, i)) && (
        forall|i: int|
            0 <= i < nodes.len() ==> !#[trigger] reaches(nodes, i, i)),
        nodes.len() <= max_nodes && well_named(nodes, nodes.len()) && (forall|i: int|
            0 <= i < nodes.len() ==> #[trigger] hangs_together(nodes, i)) && (forall|i: int|
            0 <= i < nodes.len() ==> !#[trigger] reaches(nodes, i, i)) && (forall|
            i: int,
        |
            0 <= i < nodes.len() ==> (#[trigger] nodes[i]).result_bindings@.len() == 0)
            ==> plan_valid(nodes, max_nodes),
{
    names_are_checked(nodes, nodes.len());
    links_are_checked(nodes, nodes.len());
    if forall|i: int| 0 <= i < nodes.len() ==> (#[trigger] nodes[i]).result_bindings@.len() == 0 {
        unbound_plans_need_no_sources(nodes, nodes.len());
    }
}

proof fn unbound_plans_need_no_sources(nodes: Seq<PlanNode>, count: nat)
    requires
        forall|i: int| 0 <= i < nodes.len() ==> (#[trigger] nodes[i]).result_bindings@.len() == 0,
    ensures
        all_sources_fault(nodes, count) is None,
    decreases count,
{
    if 0 < count <= nodes.len() {
        unbound_plans_need_no_sources(nodes, (count - 1) as nat);
        assert(nodes[count - 1].result_bindings@.len() == 0);
        assert(sources_fault(nodes, count - 1, 0) is None);
    }
}

} // verus!
