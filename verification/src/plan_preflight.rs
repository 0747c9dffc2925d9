//! What is checked of a plan before anything is executed.

use crate::agent::{RunRequest, RunStrategy};
use crate::broker::{invocation_key, keys_view, occurrences, InvocationKey};
use crate::error::HarnessError;
use crate::json::{render_json, rendered_json, view_of_array, view_of_object, Json, JsonTree};
use crate::limits::check_view;
use crate::model::{ModelResponse, ProviderCapabilityLimits, ResponseModel};
use crate::plan::{
    plan_answer, plan_valid, reaches, transitive_dependencies, ExecutionPlan, PlanConcurrency,
    PlanNode, ResultBinding,
};
use crate::registry::{
    arguments_fault, find_tool, registered, validate_arguments, RegisteredTool, ToolScope,
};
use crate::text::{byte_len, contains_text, decimal, decimal_digits, join3, texts, utf8_len};
use crate::tool::ToolCaller;
use vstd::prelude::*;
use vstd::string::*;

verus! {

/// Caps on plans that hold whatever a provider advertises.
#[derive(Clone, Copy, Debug, PartialEq, Eq, Structural)]
pub struct PlanBounds {
    /// Most nodes of one plan.
    pub max_nodes: usize,
    /// Bytes of one node's bound arguments.
    pub max_argument_bytes: u64,
}

/// What a planner may answer.
pub enum PlannerEnvelope {
    /// No plan: call tools one after the other.
    Direct,
    /// This plan.
    DeclarativePlan {
        /// The plan.
        plan: ExecutionPlan,
    },
}

/// Texts as JSON.
pub open spec fn text_trees(values: Seq<String>) -> JsonTree {
    JsonTree::Array(values.map_values(|value: String| JsonTree::Text(value@)))
}

/// A binding as JSON.
pub open spec fn binding_tree(binding: ResultBinding) -> JsonTree {
    JsonTree::Object(
        seq![
            ("target_pointer"@, JsonTree::Text(binding.target_pointer@)),
            (
                "source"@,
                JsonTree::Object(
                    seq![
                        ("node_id"@, JsonTree::Text(binding.source.node_id@)),
                        ("output_pointer"@, JsonTree::Text(binding.source.output_pointer@)),
                    ],
                ),
            ),
        ],
    )
}

/// The name of a concurrency constraint.
pub open spec fn concurrency_name(concurrency: PlanConcurrency) -> Seq<char> {
    match concurrency {
        PlanConcurrency::ToolDefault => "tool_default"@,
        PlanConcurrency::Serial => "serial"@,
    }
}

/// A node as JSON.
pub open spec fn node_tree(node: PlanNode) -> JsonTree {
    JsonTree::Object(
        seq![
            ("id"@, JsonTree::Text(node.id@)),
            ("tool_id"@, JsonTree::Text(node.tool_id@)),
            ("arguments"@, node.arguments@),
            ("depends_on"@, text_trees(node.depends_on@)),
            (
                "result_bindings"@,
                JsonTree::Array(
                    node.result_bindings@.map_values(|binding: ResultBinding| binding_tree(binding)),
                ),
            ),
            ("concurrency"@, JsonTree::Text(concurrency_name(node.concurrency))),
            ("approval_barrier"@, JsonTree::Bool(node.approval_barrier)),
            ("commit_boundary"@, JsonTree::Bool(node.commit_boundary)),
        ],
    )
}

/// A plan as JSON.
pub open spec fn plan_tree(nodes: Seq<PlanNode>) -> JsonTree {
    JsonTree::Object(
        seq![("nodes"@, JsonTree::Array(nodes.map_values(|node: PlanNode| node_tree(node))))],
    )
}

fn texts_to_json(values: &Vec<String>) -> (result: Json)
    ensures
        result@ == text_trees(values@),
{
    let mut items: Vec<Json> = Vec::new();
    let mut i: usize = 0;
    while i < values.len()
        invariant
            i <= values@.len(),
            items@.len() == i,
            forall|j: int|
                0 <= j < i ==> (#[trigger] items@[j])@ == JsonTree::Text(values@[j]@),
        decreases values@.len() - i,
    {
        items.push(Json::Text(values[i].clone()));
        i += 1;
    }
    let result = Json::Array(items);
    proof {
        view_of_array(result);
        assert(result@->Array_0 =~= text_trees(values@)->Array_0);
    }
    result
}

fn binding_to_json(binding: &ResultBinding) -> (result: Json)
    ensures
        result@ == binding_tree(*binding),
{
    let mut source: Vec<(String, Json)> = Vec::new();
    source.push(("node_id".to_owned(), Json::Text(binding.source.node_id.clone())));
    source.push(("output_pointer".to_owned(), Json::Text(binding.source.output_pointer.clone())));
    let source = Json::Object(source);
    let mut members: Vec<(String, Json)> = Vec::new();
    members.push(("target_pointer".to_owned(), Json::Text(binding.target_pointer.clone())));
    proof {
        view_of_object(source);
        assert(source@->Object_0 =~= binding_tree(*binding)->Object_0[1].1->Object_0);
    }
    let ghost source_view = source@;
    members.push(("source".to_owned(), source));
    let result = Json::Object(members);
    proof {
        view_of_object(result);
        assert(result@->Object_0 =~= binding_tree(*binding)->Object_0);
    }
    result
}

fn bindings_to_json(bindings: &Vec<ResultBinding>) -> (result: Json)
    ensures
        result@ == JsonTree::Array(
            bindings@.map_values(|binding: ResultBinding| binding_tree(binding)),
        ),
{
    let mut items: Vec<Json> = Vec::new();
    let mut i: usize = 0;
    while i < bindings.len()
        invariant
            i <= bindings@.len(),
            items@.len() == i,
            forall|j: int| 0 <= j < i ==> (#[trigger] items@[j])@ == binding_tree(bindings@[j]),
        decreases bindings@.len() - i,
    {
        items.push(binding_to_json(&bindings[i]));
        i += 1;
    }
    let result = Json::Array(items);
    proof {
        view_of_array(result);
        assert(result@->Array_0 =~= bindings@.map_values(
            |binding: ResultBinding| binding_tree(binding),
        ));
    }
    result
}

fn node_to_json(node: &PlanNode) -> (result: Json)
    ensures
        result@ == node_tree(*node),
{
    let concurrency = match node.concurrency {
        PlanConcurrency::ToolDefault => "tool_default",
        PlanConcurrency::Serial => "serial",
    };
    let mut members: Vec<(String, Json)> = Vec::new();
    members.push(("id".to_owned(), Json::Text(node.id.clone())));
    members.push(("tool_id".to_owned(), Json::Text(node.tool_id.clone())));
    members.push(("arguments".to_owned(), node.arguments.duplicate()));
    members.push(("depends_on".to_owned(), texts_to_json(&node.depends_on)));
    members.push(("result_bindings".to_owned(), bindings_to_json(&node.result_bindings)));
    members.push(("concurrency".to_owned(), Json::Text(concurrency.to_owned())));
    members.push(("approval_barrier".to_owned(), Json::Bool(node.approval_barrier)));
    members.push(("commit_boundary".to_owned(), Json::Bool(node.commit_boundary)));
    let result = Json::Object(members);
    proof {
        view_of_object(result);
        assert(result@->Object_0 =~= node_tree(*node)->Object_0);
    }
    result
}

impl ExecutionPlan {
    /// The plan as JSON.
    pub fn to_json(&self) -> (result: Json)
        ensures
            result@ == plan_tree(self.nodes@),
    {
        let nodes = &self.nodes;
        let mut items: Vec<Json> = Vec::new();
        let mut i: usize = 0;
        while i < nodes.len()
            invariant
                i <= nodes@.len(),
                items@.len() == i,
                forall|j: int| 0 <= j < i ==> (#[trigger] items@[j])@ == node_tree(nodes@[j]),
            decreases nodes@.len() - i,
        {
            items.push(node_to_json(&nodes[i]));
            i += 1;
        }
        let list = Json::Array(items);
        proof {
            view_of_array(list);
            assert(list@->Array_0 =~= nodes@.map_values(|node: PlanNode| node_tree(node)));
        }
        let mut members: Vec<(String, Json)> = Vec::new();
        members.push(("nodes".to_owned(), list));
        let result = Json::Object(members);
        proof {
            view_of_object(result);
            assert(result@->Object_0 =~= plan_tree(self.nodes@)->Object_0);
        }
        result
    }
}

/// Whether a bound node may rest on this one: its tool is available and changes nothing.
pub open spec fn supports_binding(
    tools: Seq<RegisteredTool>,
    scope: &ToolScope,
    node: PlanNode,
) -> bool {
    &&& texts(scope.tool_ids@).contains(node.tool_id@)
    &&& match registered(tools, node.tool_id@) {
        Some(tool) => tool.definition.read_only,
        None => false,
    }
}

/// Whether the tool of a node is available at all.
pub open spec fn available(tools: Seq<RegisteredTool>, scope: &ToolScope, node: PlanNode) -> bool {
    texts(scope.tool_ids@).contains(node.tool_id@) && registered(tools, node.tool_id@) is Some
}

/// Whether everything that node `index` depends on supports its bindings, if it has any.
pub open spec fn topology_allows(
    nodes: Seq<PlanNode>,
    tools: Seq<RegisteredTool>,
    scope: &ToolScope,
    index: int,
) -> bool {
    nodes[index].result_bindings@.len() == 0 || forall|j: int|
        0 <= j < nodes.len() && #[trigger] reaches(nodes, index, j) ==> supports_binding(
            tools,
            scope,
            nodes[j],
        )
}

/// The error of a bound node that rests on a mutation.
pub open spec fn mutation_error(index: int) -> HarnessError<Seq<char>> {
    HarnessError::InvalidRequest(
        "bound plan node "@ + decimal_digits((index + 1) as nat)
            + " transitively depends on a mutation"@,
    )
}

/// The error of a dependency whose tool is not available.
pub open spec fn unavailable_dependency() -> HarnessError<Seq<char>> {
    HarnessError::InvalidTool("plan selects an unavailable tool"@)
}

/// Whether `error` is a fault of a node that node `index` depends on.
pub open spec fn topology_fault(
    nodes: Seq<PlanNode>,
    tools: Seq<RegisteredTool>,
    scope: &ToolScope,
    index: int,
    error: HarnessError<Seq<char>>,
) -> bool {
    exists|j: int|
        0 <= j < nodes.len() && #[trigger] reaches(nodes, index, j) && !supports_binding(
            tools,
            scope,
            nodes[j],
        ) && error == (if available(tools, scope, nodes[j]) {
            mutation_error(index)
        } else {
            unavailable_dependency()
        })
}

/// What the check of bound nodes may answer: success where all of them are supported, else a
/// fault of the first node that is not. Of several faults of that node, any may be named.
pub open spec fn topology_answer(
    nodes: Seq<PlanNode>,
    tools: Seq<RegisteredTool>,
    scope: &ToolScope,
    answer: Result<(), HarnessError<Seq<char>>>,
) -> bool {
    match answer {
        Ok(_) => forall|i: int|
            0 <= i < nodes.len() ==> #[trigger] topology_allows(nodes, tools, scope, i),
        Err(error) => exists|i: int|
            {
                &&& 0 <= i < nodes.len()
                &&& !#[trigger] topology_allows(nodes, tools, scope, i)
                &&& forall|k: int| 0 <= k < i ==> #[trigger] topology_allows(nodes, tools, scope, k)
                &&& topology_fault(nodes, tools, scope, i, error)
            },
    }
}

/// Checks that bound nodes rest on available tools that change nothing.
pub fn validate_bound_authorization_topology(
    nodes: &Vec<PlanNode>,
    tools: &Vec<RegisteredTool>,
    scope: &ToolScope,
) -> (result: Result<(), HarnessError>)
    ensures
        topology_answer(nodes@, tools@, scope, check_view(result)),
{
    let mut i: usize = 0;
    while i < nodes.len()
        invariant
            i <= nodes@.len(),
            forall|k: int| 0 <= k < i ==> #[trigger] topology_allows(nodes@, tools@, scope, k),
        decreases nodes@.len() - i,
    {
        if nodes[i].result_bindings.len() > 0 {
            let dependencies = transitive_dependencies(nodes, i);
            let mut j: usize = 0;
            while j < nodes.len()
                invariant
                    j <= nodes@.len(),
                    i < nodes@.len(),
                    nodes@[i as int].result_bindings@.len() > 0,
                    dependencies@.len() == nodes@.len(),
                    forall|m: int|
                        0 <= m < nodes@.len() ==> (#[trigger] dependencies@[m]) == reaches(
                            nodes@,
                            i as int,
                            m,
                        ),
                    forall|k: int|
                        0 <= k < i ==> #[trigger] topology_allows(nodes@, tools@, scope, k),
                    forall|m: int|
                        0 <= m < j && #[trigger] reaches(nodes@, i as int, m) ==> supports_binding(
                            tools@,
                            scope,
                            nodes@[m],
                        ),
                decreases nodes@.len() - j,
            {
                if dependencies[j] {
                    assert(reaches(nodes@, i as int, j as int));
                    let node = &nodes[j];
                    let mut found: Option<HarnessError> = None;
                    if !scope.contains(node.tool_id.as_str()) {
                        found =
                        Some(
                            HarnessError::InvalidTool(
                                "plan selects an unavailable tool".to_owned(),
                            ),
                        );
                    } else {
                        match find_tool(tools, node.tool_id.as_str()) {
                            None => {
                                found =
                                Some(
                                    HarnessError::InvalidTool(
                                        "plan selects an unavailable tool".to_owned(),
                                    ),
                                );
                            },
                            Some(tool) => {
                                if !tool.definition.read_only {
                                    let digits = decimal(i as u64 + 1);
                                    found =
                                    Some(
                                        HarnessError::InvalidRequest(
                                            join3(
                                                "bound plan node ",
                                                digits.as_str(),
                                                " transitively depends on a mutation",
                                            ),
                                        ),
                                    );
                                }
                            },
                        }
                    }
                    if let Some(error) = found {
                        proof {
                            assert(!topology_allows(nodes@, tools@, scope, i as int));
                            assert(topology_fault(nodes@, tools@, scope, i as int, error@));
                        }
                        return Err(error);
                    }
                }
                j += 1;
            }
        }
        assert(topology_allows(nodes@, tools@, scope, i as int));
        i += 1;
    }
    Ok(())
}

/// Identities of the first `count` nodes without bindings.
pub open spec fn unbound_keys(nodes: Seq<PlanNode>, count: nat) -> Seq<InvocationKey<Seq<char>>>
    decreases count,
{
    if count == 0 || count > nodes.len() {
        Seq::empty()
    } else {
        let before = unbound_keys(nodes, (count - 1) as nat);
        let node = nodes[count - 1];
        if node.result_bindings@.len() == 0 {
            before.push(invocation_key(node.tool_id@, node.arguments@))
        } else {
            before
        }
    }
}

/// What is wrong with the call of node `index` by itself.
pub open spec fn node_fault(
    nodes: Seq<PlanNode>,
    tools: Seq<RegisteredTool>,
    scope: &ToolScope,
    request: &RunRequest,
    index: int,
) -> Option<HarnessError<Seq<char>>> {
    let node = nodes[index];
    if !available(tools, scope, node) {
        Some(
            HarnessError::InvalidTool(
                "plan node '"@ + node.id@ + "' selects an unavailable tool"@,
            ),
        )
    } else if !texts(request.agent.tool_allowlist@).contains(node.tool_id@) || !registered(
        tools,
        node.tool_id@,
    )->0.definition.permits(ToolCaller::DeclarativePlan) {
        Some(
            HarnessError::InvalidTool(
                "plan node '"@ + node.id@
                    + "' selects a tool not allowed for declarative plans"@,
            ),
        )
    } else if arguments_fault(tools, node.tool_id@, node.arguments@) is Some {
        arguments_fault(tools, node.tool_id@, node.arguments@)
    } else if node.result_bindings@.len() == 0 && occurrences(
        unbound_keys(nodes, (index + 1) as nat),
        invocation_key(node.tool_id@, node.arguments@),
    ) > request.agent.limits.max_identical_tool_calls {
        Some(HarnessError::ResourceLimit("execution plan exceeds the repeated-call limit"@))
    } else {
        None
    }
}

/// What is wrong with the calls of the nodes from `start` on.
pub open spec fn nodes_fault(
    nodes: Seq<PlanNode>,
    tools: Seq<RegisteredTool>,
    scope: &ToolScope,
    request: &RunRequest,
    start: nat,
) -> Option<HarnessError<Seq<char>>>
    decreases nodes.len() - start,
{
    if start >= nodes.len() {
        None
    } else if node_fault(nodes, tools, scope, request, start as int) is Some {
        node_fault(nodes, tools, scope, request, start as int)
    } else {
        nodes_fault(nodes, tools, scope, request, start + 1)
    }
}

/// Most nodes of a plan for this request and this provider.
pub open spec fn node_limit(
    request: &RunRequest,
    provider: ProviderCapabilityLimits,
    bounds: PlanBounds,
) -> usize {
    let advertised = match provider.max_plan_nodes {
        Some(limit) => limit as usize,
        None => bounds.max_nodes,
    };
    let calls = request.agent.limits.max_tool_calls as usize;
    let first = if advertised <= calls {
        advertised
    } else {
        calls
    };
    if first <= bounds.max_nodes {
        first
    } else {
        bounds.max_nodes
    }
}

/// Whether a text is longer than a limit that may be absent.
pub open spec fn exceeds(limit: Option<u64>, text: Seq<char>) -> bool {
    limit matches Some(limit) && utf8_len(text) > limit
}

/// What the check of a whole plan may answer.
pub open spec fn static_answer(
    nodes: Seq<PlanNode>,
    tools: Seq<RegisteredTool>,
    scope: &ToolScope,
    request: &RunRequest,
    provider: ProviderCapabilityLimits,
    bounds: PlanBounds,
    answer: Result<(), HarnessError<Seq<char>>>,
) -> bool {
    let limit = node_limit(request, provider, bounds);
    if nodes.len() == 0 {
        answer == Err::<(), _>(
            HarnessError::InvalidRequest("declarative plan must contain at least one node"@),
        )
    } else if !plan_valid(nodes, limit) {
        plan_answer(nodes, limit, answer) && answer is Err
    } else if !topology_answer(nodes, tools, scope, Ok(())) {
        topology_answer(nodes, tools, scope, answer) && answer is Err
    } else if exceeds(provider.max_plan_bytes, rendered_json(plan_tree(nodes))) {
        answer == Err::<(), _>(
            HarnessError::ResourceLimit("execution plan exceeds provider plan-byte limit"@),
        )
    } else {
        answer == crate::registry::fault_check(nodes_fault(nodes, tools, scope, request, 0))
    }
}

fn count_key(keys: &Vec<InvocationKey>, key: &InvocationKey) -> (count: usize)
    ensures
        count == occurrences(keys_view(keys@), key@),
        count <= keys@.len(),
{
    let mut count: usize = 0;
    let mut i: usize = 0;
    while i < keys.len()
        invariant
            i <= keys@.len(),
            count <= i,
            count == occurrences(keys_view(keys@).take(i as int), key@),
        decreases keys@.len() - i,
    {
        proof {
            let longer = keys_view(keys@).take(i + 1);
            assert(longer.drop_last() =~= keys_view(keys@).take(i as int));
            assert(longer.last() == keys@[i as int]@);
        }
        if keys[i].same(key) {
            count += 1;
        }
        i += 1;
    }
    assert(keys_view(keys@).take(i as int) =~= keys_view(keys@));
    count
}

fn check_node(
    nodes: &Vec<PlanNode>,
    index: usize,
    tools: &Vec<RegisteredTool>,
    scope: &ToolScope,
    request: &RunRequest,
    keys: &mut Vec<InvocationKey>,
) -> (result: Result<(), HarnessError>)
    requires
        index < nodes@.len(),
        keys_view(old(keys)@) == unbound_keys(nodes@, index as nat),
    ensures
        check_view(result) == crate::registry::fault_check(
            node_fault(nodes@, tools@, scope, request, index as int),
        ),
        result is Ok ==> keys_view(final(keys)@) == unbound_keys(nodes@, (index + 1) as nat),
{
    let node = &nodes[index];
    let found = find_tool(tools, node.tool_id.as_str());
    let listed = scope.contains(node.tool_id.as_str());
    let tool = match found {
        Some(tool) if listed => tool,
        _ => {
            return Err(
                HarnessError::InvalidTool(
                    join3("plan node '", node.id.as_str(), "' selects an unavailable tool"),
                ),
            );
        },
    };
    if !contains_text(&request.agent.tool_allowlist, node.tool_id.as_str())
        || !tool.definition.allows_caller(ToolCaller::DeclarativePlan) {
        return Err(
            HarnessError::InvalidTool(
                join3(
                    "plan node '",
                    node.id.as_str(),
                    "' selects a tool not allowed for declarative plans",
                ),
            ),
        );
    }
    validate_arguments(tools, node.tool_id.as_str(), &node.arguments)?;
    if node.result_bindings.len() == 0 {
        let key = InvocationKey::new(node.tool_id.as_str(), &node.arguments);
        let ghost before = keys_view(keys@);
        let copy = key.duplicate();
        keys.push(key);
        assert(keys_view(keys@) =~= before.push(key@));
        if count_key(keys, &copy) as u64 > request.agent.limits.max_identical_tool_calls as u64 {
            return Err(
                HarnessError::ResourceLimit(
                    "execution plan exceeds the repeated-call limit".to_owned(),
                ),
            );
        }
    }
    Ok(())
}

/// Checks a whole plan, before anything of it is prepared.
pub fn static_plan_preflight(
    plan: &ExecutionPlan,
    tools: &Vec<RegisteredTool>,
    scope: &ToolScope,
    request: &RunRequest,
    provider: &ProviderCapabilityLimits,
    bounds: &PlanBounds,
) -> (result: Result<(), HarnessError>)
    ensures
        static_answer(
            plan.nodes@,
            tools@,
            scope,
            request,
            *provider,
            *bounds,
            check_view(result),
        ),
{
    let advertised: usize = match provider.max_plan_nodes {
        Some(limit) => limit as usize,
        None => bounds.max_nodes,
    };
    let calls: usize = request.agent.limits.max_tool_calls as usize;
    let first: usize = if advertised <= calls {
        advertised
    } else {
        calls
    };
    let limit: usize = if first <= bounds.max_nodes {
        first
    } else {
        bounds.max_nodes
    };
    if plan.nodes.len() == 0 {
        return Err(
            HarnessError::InvalidRequest(
                "declarative plan must contain at least one node".to_owned(),
            ),
        );
    }
    plan.validate(limit)?;
    if let Err(error) = validate_bound_authorization_topology(&plan.nodes, tools, scope) {
        return Err(error);
    }
    if let Some(max_bytes) = provider.max_plan_bytes {
        let text = render_json(&plan.to_json());
        if byte_len(text.as_str()) as u64 > max_bytes {
            return Err(
                HarnessError::ResourceLimit(
                    "execution plan exceeds provider plan-byte limit".to_owned(),
                ),
            );
        }
    }
    let mut keys: Vec<InvocationKey> = Vec::new();
    let mut i: usize = 0;
    assert(keys_view(keys@) =~= unbound_keys(plan.nodes@, 0));
    while i < plan.nodes.len()
        invariant
            i <= plan.nodes@.len(),
            keys_view(keys@) == unbound_keys(plan.nodes@, i as nat),
            nodes_fault(plan.nodes@, tools@, scope, request, 0) == nodes_fault(
                plan.nodes@,
                tools@,
                scope,
                request,
                i as nat,
            ),
            static_answer(
                plan.nodes@,
                tools@,
                scope,
                request,
                *provider,
                *bounds,
                crate::registry::fault_check(nodes_fault(plan.nodes@, tools@, scope, request, 0)),
            ),
        decreases plan.nodes@.len() - i,
    {
        check_node(&plan.nodes, i, tools, scope, request, &mut keys)?;
        i += 1;
    }
    Ok(())
}

/// What the reading of a planner's response may answer.
pub open spec fn envelope_answer(
    response: ResponseModel,
    parsed: Option<PlannerEnvelope>,
    requested: RunStrategy,
    tools: Seq<RegisteredTool>,
    scope: &ToolScope,
    request: &RunRequest,
    provider: ProviderCapabilityLimits,
    bounds: PlanBounds,
    answer: Result<PlannerEnvelope, HarnessError<Seq<char>>>,
) -> bool {
    if response.tool_calls.len() > 0 {
        answer == Err::<PlannerEnvelope, _>(
            HarnessError::InvalidOutput(
                "planner returned tool calls instead of a strategy envelope"@,
            ),
        )
    } else if response.final_output is None {
        answer == Err::<PlannerEnvelope, _>(
            HarnessError::InvalidOutput("planner omitted the strategy envelope"@),
        )
    } else if exceeds(provider.max_plan_bytes, response.final_output->0) {
        answer == Err::<PlannerEnvelope, _>(
            HarnessError::ResourceLimit("planner envelope exceeds provider plan-byte limit"@),
        )
    } else {
        match parsed {
            None => answer == Err::<PlannerEnvelope, _>(
                HarnessError::InvalidOutput("planner returned an invalid strategy envelope"@),
            ),
            Some(PlannerEnvelope::Direct) => if requested == RunStrategy::DeclarativePlan {
                answer == Err::<PlannerEnvelope, _>(
                    HarnessError::InvalidOutput(
                        "forced declarative planning cannot select direct execution"@,
                    ),
                )
            } else {
                answer == Ok::<_, HarnessError<Seq<char>>>(PlannerEnvelope::Direct)
            },
            Some(PlannerEnvelope::DeclarativePlan { plan }) => match answer {
                Ok(envelope) => Some(envelope) == parsed && static_answer(
                    plan.nodes@,
                    tools,
                    scope,
                    request,
                    provider,
                    bounds,
                    Ok(()),
                ),
                Err(error) => static_answer(
                    plan.nodes@,
                    tools,
                    scope,
                    request,
                    provider,
                    bounds,
                    Err(error),
                ),
            },
        }
    }
}

/// The view of an envelope or an error.
pub open spec fn envelope_view(result: Result<PlannerEnvelope, HarnessError>) -> Result<
    PlannerEnvelope,
    HarnessError<Seq<char>>,
> {
    match result {
        Ok(envelope) => Ok(envelope),
        Err(error) => Err(error@),
    }
}

/// Reads a planner's response. `parsed` is the envelope that its final output holds, if it is
/// one.
pub fn parse_envelope(
    response: &ModelResponse,
    parsed: Option<PlannerEnvelope>,
    requested: RunStrategy,
    tools: &Vec<RegisteredTool>,
    scope: &ToolScope,
    request: &RunRequest,
    provider: &ProviderCapabilityLimits,
    bounds: &PlanBounds,
) -> (result: Result<PlannerEnvelope, HarnessError>)
    ensures
        envelope_answer(
            response@,
            parsed,
            requested,
            tools@,
            scope,
            request,
            *provider,
            *bounds,
            envelope_view(result),
        ),
{
    if response.tool_calls.len() > 0 {
        return Err(
            HarnessError::InvalidOutput(
                "planner returned tool calls instead of a strategy envelope".to_owned(),
            ),
        );
    }
    let output = match &response.final_output {
        Some(output) => output,
        None => {
            return Err(
                HarnessError::InvalidOutput("planner omitted the strategy envelope".to_owned()),
            );
        },
    };
    if let Some(max_bytes) = provider.max_plan_bytes {
        if byte_len(output.as_str()) as u64 > max_bytes {
            return Err(
                HarnessError::ResourceLimit(
                    "planner envelope exceeds provider plan-byte limit".to_owned(),
                ),
            );
        }
    }
    match parsed {
        None => Err(
            HarnessError::InvalidOutput(
                "planner returned an invalid strategy envelope".to_owned(),
            ),
        ),
        Some(PlannerEnvelope::Direct) => {
            if requested == RunStrategy::DeclarativePlan {
                return Err(
                    HarnessError::InvalidOutput(
                        "forced declarative planning cannot select direct execution".to_owned(),
                    ),
                );
            }
            Ok(PlannerEnvelope::Direct)
        },
        Some(PlannerEnvelope::DeclarativePlan { plan }) => {
            match static_plan_preflight(&plan, tools, scope, request, provider, bounds) {
                Ok(_) => Ok(PlannerEnvelope::DeclarativePlan { plan }),
                Err(error) => Err(error),
            }
        },
    }
}

} // verus!
