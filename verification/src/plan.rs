//! Declarative execution plans: what they are and when they are valid.

use crate::error::HarnessError;
use crate::json::Json;
use crate::limits::check_view;
use crate::text::{blank, decimal, decimal_digits, is_blank, join2, join3, same_text, texts};
use vstd::prelude::*;
use vstd::string::*;

verus! {

/// How a plan node shares its time with others.
#[derive(Clone, Copy, Debug, PartialEq, Eq, Structural)]
pub enum PlanConcurrency {
    /// As its tool permits.
    ToolDefault,
    /// Alone.
    Serial,
}

/// A place inside the output of another node.
#[derive(Clone, Debug, PartialEq, Eq)]
pub struct ResultRef {
    /// The other node.
    pub node_id: String,
    /// JSON pointer into its output.
    pub output_pointer: String,
}

impl ResultRef {
    /// Creates a reference.
    pub fn new(node_id: &str, output_pointer: &str) -> (result: ResultRef)
        ensures
            result.node_id@ == node_id@,
            result.output_pointer@ == output_pointer@,
    {
        ResultRef { node_id: node_id.to_owned(), output_pointer: output_pointer.to_owned() }
    }

    /// A copy of the reference.
    pub fn duplicate(&self) -> (result: ResultRef)
        ensures
            result == *self,
    {
        ResultRef { node_id: self.node_id.clone(), output_pointer: self.output_pointer.clone() }
    }
}

/// Where an output of another node goes in the arguments of a node.
#[derive(Clone, Debug, PartialEq, Eq)]
pub struct ResultBinding {
    /// JSON pointer into the arguments.
    pub target_pointer: String,
    /// The output.
    pub source: ResultRef,
}

impl ResultBinding {
    /// Creates a binding.
    pub fn new(target_pointer: &str, source: ResultRef) -> (result: ResultBinding)
        ensures
            result.target_pointer@ == target_pointer@,
            result.source == source,
    {
        ResultBinding { target_pointer: target_pointer.to_owned(), source }
    }

    /// A copy of the binding.
    pub fn duplicate(&self) -> (result: ResultBinding)
        ensures
            result == *self,
    {
        ResultBinding {
            target_pointer: self.target_pointer.clone(),
            source: self.source.duplicate(),
        }
    }
}

/// One tool call of a plan.
#[derive(Clone, Debug, PartialEq, Eq)]
pub struct PlanNode {
    /// Identifier of the node, unique in its plan.
    pub id: String,
    /// Identifier of the tool.
    pub tool_id: String,
    /// Arguments, before bindings.
    pub arguments: Json,
    /// Nodes that must be done before.
    pub depends_on: Vec<String>,
    /// Outputs of other nodes that go into the arguments.
    pub result_bindings: Vec<ResultBinding>,
    /// How the node shares its time.
    pub concurrency: PlanConcurrency,
    /// Whether the node needs approval whatever the policy says.
    pub approval_barrier: bool,
    /// Whether the node is a commit boundary.
    pub commit_boundary: bool,
}

impl PlanNode {
    /// Creates a node without dependencies or bindings.
    pub fn new(id: &str, tool_id: &str, arguments: Json) -> (result: PlanNode)
        ensures
            result.id@ == id@,
            result.tool_id@ == tool_id@,
            result.arguments == arguments,
            result.depends_on@ == Seq::<String>::empty(),
            result.result_bindings@ == Seq::<ResultBinding>::empty(),
            result.concurrency == PlanConcurrency::ToolDefault,
            !result.approval_barrier,
            !result.commit_boundary,
    {
        PlanNode {
            id: id.to_owned(),
            tool_id: tool_id.to_owned(),
            arguments,
            depends_on: Vec::new(),
            result_bindings: Vec::new(),
            concurrency: PlanConcurrency::ToolDefault,
            approval_barrier: false,
            commit_boundary: false,
        }
    }

    /// Adds a dependency.
    pub fn with_dependency(self, node_id: &str) -> (result: PlanNode)
        ensures
            texts(result.depends_on@) == texts(self.depends_on@).push(node_id@),
            result == (PlanNode { depends_on: result.depends_on, ..self }),
    {
        let mut result = self;
        result.depends_on.push(node_id.to_owned());
        assert(texts(result.depends_on@) =~= texts(self.depends_on@).push(node_id@));
        result
    }

    /// Adds a binding.
    pub fn with_result_binding(self, binding: ResultBinding) -> (result: PlanNode)
        ensures
            result.result_bindings@ == self.result_bindings@.push(binding),
            result == (PlanNode { result_bindings: result.result_bindings, ..self }),
    {
        let mut result = self;
        result.result_bindings.push(binding);
        result
    }

    /// Sets how the node shares its time.
    pub fn with_concurrency(self, concurrency: PlanConcurrency) -> (result: PlanNode)
        ensures
            result == (PlanNode { concurrency, ..self }),
    {
        let mut result = self;
        result.concurrency = concurrency;
        result
    }

    /// Sets whether the node needs approval.
    pub fn with_approval_barrier(self, enabled: bool) -> (result: PlanNode)
        ensures
            result == (PlanNode { approval_barrier: enabled, ..self }),
    {
        let mut result = self;
        result.approval_barrier = enabled;
        result
    }

    /// Sets whether the node is a commit boundary.
    pub fn with_commit_boundary(self, enabled: bool) -> (result: PlanNode)
        ensures
            result == (PlanNode { commit_boundary: enabled, ..self }),
    {
        let mut result = self;
        result.commit_boundary = enabled;
        result
    }
}

/// A finite set of tool calls and the order that they depend on.
#[derive(Clone, Debug, PartialEq, Eq)]
pub struct ExecutionPlan {
    /// The nodes.
    pub nodes: Vec<PlanNode>,
}

/// The identifiers of nodes.
pub open spec fn node_ids(nodes: Seq<PlanNode>) -> Seq<Seq<char>> {
    nodes.map_values(|node: PlanNode| node.id@)
}

/// The first position of `id`, from `start` on.
pub open spec fn id_position(ids: Seq<Seq<char>>, id: Seq<char>, start: nat) -> Option<nat>
    decreases ids.len() - start,
{
    if start >= ids.len() {
        None
    } else if ids[start as int] == id {
        Some(start)
    } else {
        id_position(ids, id, start + 1)
    }
}

/// Whether node `from` lists node `to` as a dependency.
pub open spec fn depends(nodes: Seq<PlanNode>, from: int, to: int) -> bool {
    &&& 0 <= from < nodes.len()
    &&& 0 <= to < nodes.len()
    &&& exists|k: int|
        0 <= k < nodes[from].depends_on@.len() && id_position(
            node_ids(nodes),
            (#[trigger] nodes[from].depends_on@[k])@,
            0,
        ) == Some(to as nat)
}

/// Whether every node on a path lists the next as a dependency.
pub open spec fn is_path(nodes: Seq<PlanNode>, path: Seq<int>) -> bool {
    &&& path.len() >= 2
    &&& forall|k: int| 0 <= k < path.len() - 1 ==> depends(nodes, #[trigger] path[k], path[k + 1])
}

/// Whether node `from` depends on node `to`, at once or through others.
pub open spec fn reaches(nodes: Seq<PlanNode>, from: int, to: int) -> bool {
    exists|path: Seq<int>| #[trigger]
        is_path(nodes, path) && path.first() == from && path.last() == to
}

/// Whether no node depends on itself.
pub open spec fn acyclic(nodes: Seq<PlanNode>) -> bool {
    forall|i: int| 0 <= i < nodes.len() ==> !#[trigger] reaches(nodes, i, i)
}

/// What is wrong with the identifiers of the first `count` nodes.
pub open spec fn identifiers_fault(nodes: Seq<PlanNode>, count: nat) -> Option<Seq<char>>
    decreases count,
{
    if count == 0 || count > nodes.len() {
        None
    } else {
        let before = identifiers_fault(nodes, (count - 1) as nat);
        let node = nodes[count - 1];
        if before is Some {
            before
        } else if blank(node.id@) {
            Some(
                "execution plan node at index "@ + decimal_digits((count - 1) as nat)
                    + " has an empty ID"@,
            )
        } else if blank(node.tool_id@) {
            Some("execution plan node '"@ + node.id@ + "' has an empty tool ID"@)
        } else if node_ids(nodes).take(count - 1).contains(node.id@) {
            Some("execution plan contains duplicate node ID '"@ + node.id@ + "'"@)
        } else {
            None
        }
    }
}

/// What is wrong with the first `count` dependencies of a node.
pub open spec fn dependencies_fault(ids: Seq<Seq<char>>, node: PlanNode, count: nat) -> Option<
    Seq<char>,
>
    decreases count,
{
    if count == 0 || count > node.depends_on@.len() {
        None
    } else {
        let before = dependencies_fault(ids, node, (count - 1) as nat);
        let dependency = node.depends_on@[count - 1]@;
        if before is Some {
            before
        } else if dependency == node.id@ {
            Some("execution plan node '"@ + node.id@ + "' depends on itself"@)
        } else if !ids.contains(dependency) {
            Some(
                "execution plan node '"@ + node.id@ + "' depends on missing node '"@ + dependency
                    + "'"@,
            )
        } else if texts(node.depends_on@).take(count - 1).contains(dependency) {
            Some(
                "execution plan node '"@ + node.id@ + "' contains duplicate dependency '"@
                    + dependency + "'"@,
            )
        } else {
            None
        }
    }
}

/// Whether a text is empty or begins with a slash.
pub open spec fn is_pointer(pointer: Seq<char>) -> bool {
    pointer.len() == 0 || pointer[0] == '/'
}

/// What is wrong with the first `count` bindings of a node.
pub open spec fn bindings_fault(ids: Seq<Seq<char>>, node: PlanNode, count: nat) -> Option<Seq<char>>
    decreases count,
{
    if count == 0 || count > node.result_bindings@.len() {
        None
    } else {
        let before = bindings_fault(ids, node, (count - 1) as nat);
        let binding = node.result_bindings@[count - 1];
        if before is Some {
            before
        } else if binding.target_pointer@.len() == 0 || binding.target_pointer@[0] != '/' {
            Some(
                "execution plan node '"@ + node.id@ + "' has invalid binding target pointer '"@
                    + binding.target_pointer@ + "'"@,
            )
        } else if !is_pointer(binding.source.output_pointer@) {
            Some(
                "execution plan node '"@ + node.id@ + "' has invalid source output pointer '"@
                    + binding.source.output_pointer@ + "'"@,
            )
        } else if !ids.contains(binding.source.node_id@) {
            Some(
                "execution plan node '"@ + node.id@ + "' binds from missing node '"@
                    + binding.source.node_id@ + "'"@,
            )
        } else {
            None
        }
    }
}

/// What is wrong with the dependencies and bindings of the first `count` nodes.
pub open spec fn links_fault(nodes: Seq<PlanNode>, count: nat) -> Option<Seq<char>>
    decreases count,
{
    if count == 0 || count > nodes.len() {
        None
    } else {
        let before = links_fault(nodes, (count - 1) as nat);
        let node = nodes[count - 1];
        let ids = node_ids(nodes);
        if before is Some {
            before
        } else if dependencies_fault(ids, node, node.depends_on@.len()) is Some {
            dependencies_fault(ids, node, node.depends_on@.len())
        } else {
            bindings_fault(ids, node, node.result_bindings@.len())
        }
    }
}

/// The error of a node on a cycle.
pub open spec fn cycle_text(id: Seq<char>) -> Seq<char> {
    "execution plan contains a dependency cycle involving node '"@ + id + "'"@
}

/// What is wrong with the sources of the first `count` bindings of node `index`.
pub open spec fn sources_fault(nodes: Seq<PlanNode>, index: int, count: nat) -> Option<Seq<char>>
    decreases count,
{
    let node = nodes[index];
    if count == 0 || count > node.result_bindings@.len() {
        None
    } else {
        let before = sources_fault(nodes, index, (count - 1) as nat);
        let source = node.result_bindings@[count - 1].source.node_id@;
        if before is Some {
            before
        } else if !(id_position(node_ids(nodes), source, 0) matches Some(position) && reaches(
            nodes,
            index,
            position as int,
        )) {
            Some(
                "execution plan node '"@ + node.id@ + "' binds from node '"@ + source
                    + "' which is not a transitive dependency"@,
            )
        } else {
            None
        }
    }
}

/// What is wrong with the sources of the bindings of the first `count` nodes.
pub open spec fn all_sources_fault(nodes: Seq<PlanNode>, count: nat) -> Option<Seq<char>>
    decreases count,
{
    if count == 0 || count > nodes.len() {
        None
    } else {
        let before = all_sources_fault(nodes, (count - 1) as nat);
        if before is Some {
            before
        } else {
            sources_fault(nodes, count - 1, nodes[count - 1].result_bindings@.len())
        }
    }
}

/// The error of a plan with too many nodes.
pub open spec fn size_text(nodes: nat, max_nodes: usize) -> Seq<char> {
    "execution plan has "@ + decimal_digits(nodes) + " nodes, exceeding maximum of "@
        + decimal_digits(max_nodes as nat)
}

/// The positions of the first `count` dependencies of a node, in their order.
pub open spec fn targets(nodes: Seq<PlanNode>, index: int, count: nat) -> Seq<int>
    decreases count,
{
    if count == 0 || count > nodes[index].depends_on@.len() {
        Seq::empty()
    } else {
        let before = targets(nodes, index, (count - 1) as nat);
        match id_position(node_ids(nodes), nodes[index].depends_on@[count - 1]@, 0) {
            Some(position) => before.push(position as int),
            None => before,
        }
    }
}

/// The first node that is met again, where the nodes of `path` led to node `index` and
/// dependencies are followed to their end, one after the other.
pub open spec fn met_again(nodes: Seq<PlanNode>, path: Seq<int>, index: int) -> Option<int>
    decreases nodes.len() - path.len(), 0nat,
{
    if path.contains(index) {
        Some(index)
    } else if path.len() >= nodes.len() {
        None
    } else {
        let list = targets(nodes, index, nodes[index].depends_on@.len());
        met_among(nodes, path.push(index), list, 0)
    }
}

/// The first node that is met again behind one of `list`, from place `start` on.
pub open spec fn met_among(nodes: Seq<PlanNode>, path: Seq<int>, list: Seq<int>, start: nat) -> Option<
    int,
>
    decreases nodes.len() - path.len(), list.len() - start + 1,
{
    if start >= list.len() {
        None
    } else {
        match met_again(nodes, path, list[start as int]) {
            Some(found) => Some(found),
            None => met_among(nodes, path, list, start + 1),
        }
    }
}

/// The first node that is met again from one of the first `count` nodes.
pub open spec fn first_met(nodes: Seq<PlanNode>, count: nat) -> Option<int>
    decreases count,
{
    if count == 0 || count > nodes.len() {
        None
    } else {
        match first_met(nodes, (count - 1) as nat) {
            Some(found) => Some(found),
            None => met_again(nodes, Seq::empty(), count - 1),
        }
    }
}

/// Whether a plan may be executed.
pub open spec fn plan_valid(nodes: Seq<PlanNode>, max_nodes: usize) -> bool {
    &&& nodes.len() <= max_nodes
    &&& identifiers_fault(nodes, nodes.len()) is None
    &&& links_fault(nodes, nodes.len()) is None
    &&& acyclic(nodes)
    &&& all_sources_fault(nodes, nodes.len()) is None
}

/// What validation answers: the first fault in the order size, identifiers, links, cycles,
/// sources. Of the nodes on cycles, the first that is met again is named.
pub open spec fn plan_answer(
    nodes: Seq<PlanNode>,
    max_nodes: usize,
    answer: Result<(), HarnessError<Seq<char>>>,
) -> bool {
    if nodes.len() > max_nodes {
        answer == Err::<(), _>(
            HarnessError::InvalidRequest(size_text(nodes.len(), max_nodes)),
        )
    } else if identifiers_fault(nodes, nodes.len()) is Some {
        answer == Err::<(), _>(
            HarnessError::InvalidRequest(identifiers_fault(nodes, nodes.len())->0),
        )
    } else if links_fault(nodes, nodes.len()) is Some {
        answer == Err::<(), _>(
            HarnessError::InvalidRequest(links_fault(nodes, nodes.len())->0),
        )
    } else if !acyclic(nodes) {
        first_met(nodes, nodes.len()) matches Some(found) && answer == Err::<(), _>(
            HarnessError::InvalidRequest(cycle_text(nodes[found].id@)),
        )
    } else if all_sources_fault(nodes, nodes.len()) is Some {
        answer == Err::<(), _>(
            HarnessError::InvalidRequest(all_sources_fault(nodes, nodes.len())->0),
        )
    } else {
        answer == Ok::<(), HarnessError<Seq<char>>>(())
    }
}

/// A path with one more step.
proof fn path_extends(nodes: Seq<PlanNode>, path: Seq<int>, to: int)
    requires
        is_path(nodes, path),
        depends(nodes, path.last(), to),
    ensures
        is_path(nodes, path.push(to)),
{
    let longer = path.push(to);
    assert forall|k: int| 0 <= k < longer.len() - 1 implies depends(
        nodes,
        #[trigger] longer[k],
        longer[k + 1],
    ) by {
        if k < path.len() - 1 {
            assert(longer[k] == path[k] && longer[k + 1] == path[k + 1]);
        }
    }
}

proof fn step_reaches(nodes: Seq<PlanNode>, from: int, to: int)
    requires
        depends(nodes, from, to),
    ensures
        reaches(nodes, from, to),
{
    let path = seq![from, to];
    assert(is_path(nodes, path));
    assert(path.first() == from && path.last() == to);
}

proof fn reaches_extends(nodes: Seq<PlanNode>, from: int, middle: int, to: int)
    requires
        reaches(nodes, from, middle),
        depends(nodes, middle, to),
    ensures
        reaches(nodes, from, to),
{
    let path = choose|path: Seq<int>| #[trigger]
        is_path(nodes, path) && path.first() == from && path.last() == middle;
    path_extends(nodes, path, to);
    assert(path.push(to).first() == from && path.push(to).last() == to);
}

/// Ranks that fall along every dependency leave no room for a cycle.
proof fn ranked_is_acyclic(nodes: Seq<PlanNode>, rank: Map<int, int>)
    requires
        forall|i: int, j: int| #[trigger] depends(nodes, i, j) ==> rank[j] < rank[i],
    ensures
        acyclic(nodes),
{
    assert forall|i: int| 0 <= i < nodes.len() implies !#[trigger] reaches(nodes, i, i) by {
        if reaches(nodes, i, i) {
            let path = choose|path: Seq<int>| #[trigger]
                is_path(nodes, path) && path.first() == i && path.last() == i;
            rank_falls(nodes, rank, path, path.len() as int - 1);
        }
    }
}

proof fn rank_falls(nodes: Seq<PlanNode>, rank: Map<int, int>, path: Seq<int>, at: int)
    requires
        forall|i: int, j: int| #[trigger] depends(nodes, i, j) ==> rank[j] < rank[i],
        is_path(nodes, path),
        1 <= at < path.len(),
    ensures
        rank[path[at]] < rank[path[0]],
    decreases at,
{
    assert(depends(nodes, path[at - 1], path[at - 1 + 1]));
    if at > 1 {
        rank_falls(nodes, rank, path, at - 1);
    }
}

#[derive(Clone, Copy, PartialEq, Eq, Structural)]
enum VisitState {
    Unvisited,
    Visiting,
    Visited,
}

spec fn unvisited(states: Seq<VisitState>) -> nat
    decreases states.len(),
{
    if states.len() == 0 {
        0
    } else {
        unvisited(states.drop_last()) + (if states.last() == VisitState::Unvisited {
            1nat
        } else {
            0nat
        })
    }
}

proof fn unvisited_falls(states: Seq<VisitState>, index: int, to: VisitState)
    requires
        0 <= index < states.len(),
        to != VisitState::Unvisited,
    ensures
        unvisited(states.update(index, to)) <= unvisited(states),
        states[index] == VisitState::Unvisited ==> unvisited(states.update(index, to)) < unvisited(
            states,
        ),
    decreases states.len(),
{
    if index == states.len() - 1 {
        assert(states.update(index, to).drop_last() =~= states.drop_last());
    } else {
        unvisited_falls(states.drop_last(), index, to);
        assert(states.update(index, to).drop_last() =~= states.drop_last().update(index, to));
        assert(states.update(index, to).last() == states.last());
    }
}

/// Positions as numbers.
spec fn places(list: Seq<usize>) -> Seq<int> {
    list.map_values(|place: usize| place as int)
}

/// The positions of the dependencies of every node.
spec fn edges_match(nodes: Seq<PlanNode>, edges: Seq<Vec<usize>>) -> bool {
    &&& edges.len() == nodes.len()
    &&& forall|i: int|
        0 <= i < nodes.len() ==> places((#[trigger] edges[i])@) == targets(
            nodes,
            i,
            nodes[i].depends_on@.len(),
        )
    &&& forall|i: int, k: int|
        0 <= i < nodes.len() && 0 <= k < (#[trigger] edges[i])@.len() ==> depends(
            nodes,
            i,
            (#[trigger] edges[i]@[k]) as int,
        )
    &&& forall|i: int, j: int| #[trigger]
        depends(nodes, i, j) ==> exists|k: int|
            0 <= k < edges[i]@.len() && #[trigger] edges[i]@[k] == j
}

/// The nodes being visited, each a dependency of the one before it.
spec fn is_stack(nodes: Seq<PlanNode>, states: Seq<VisitState>, stack: Seq<int>) -> bool {
    &&& stack.no_duplicates()
    &&& forall|k: int|
        0 <= k < stack.len() ==> 0 <= #[trigger] stack[k] < nodes.len() && states[stack[k]]
            == VisitState::Visiting
    &&& forall|i: int|
        0 <= i < states.len() && (#[trigger] states[i]) == VisitState::Visiting ==> stack.contains(i)
    &&& forall|k: int| 0 <= k < stack.len() - 1 ==> depends(nodes, #[trigger] stack[k], stack[k + 1])
}

/// Finished nodes have ranks, and depend only on finished nodes of lower rank.
spec fn finished_ranked(
    nodes: Seq<PlanNode>,
    states: Seq<VisitState>,
    rank: Map<int, int>,
    next: int,
) -> bool {
    &&& forall|i: int|
        0 <= i < states.len() && (#[trigger] states[i]) == VisitState::Visited ==> rank[i] < next
    &&& forall|i: int, j: int| #[trigger]
        depends(nodes, i, j) && states[i] == VisitState::Visited ==> states[j]
            == VisitState::Visited && rank[j] < rank[i]
}

/// Different positions are no more than there are nodes.
proof fn distinct_places(stack: Seq<int>, count: nat)
    requires
        stack.no_duplicates(),
        forall|k: int| 0 <= k < stack.len() ==> 0 <= #[trigger] stack[k] < count,
    ensures
        stack.len() <= count,
{
    stack.unique_seq_to_set();
    let all = vstd::set_lib::set_int_range(0, count as int);
    vstd::set_lib::lemma_int_range(0, count as int);
    assert forall|i: int| #[trigger] stack.to_set().contains(i) implies all.contains(i) by {
        let k = choose|k: int| 0 <= k < stack.len() && stack[k] == i;
        assert(0 <= stack[k] < count);
    }
    vstd::set_lib::lemma_len_subset(stack.to_set(), all);
}

/// Whether the finished nodes of a path rank above a node.
spec fn ranks_above(
    states: Seq<VisitState>,
    rank: Map<int, int>,
    path: Seq<int>,
    index: int,
) -> bool {
    forall|k: int|
        0 <= k < path.len() ==> 0 <= #[trigger] path[k] < states.len() && (states[path[k]]
            == VisitState::Visited ==> rank[path[k]] > rank[index])
}

/// The targets of a node are its dependencies.
proof fn targets_are_dependencies(nodes: Seq<PlanNode>, index: int, count: nat)
    requires
        0 <= index < nodes.len(),
        count <= nodes[index].depends_on@.len(),
    ensures
        forall|k: int|
            0 <= k < targets(nodes, index, count).len() ==> depends(
                nodes,
                index,
                #[trigger] targets(nodes, index, count)[k],
            ),
    decreases count,
{
    if count > 0 {
        targets_are_dependencies(nodes, index, (count - 1) as nat);
        let id = nodes[index].depends_on@[count - 1]@;
        id_position_contains(node_ids(nodes), id, 0);
        let before = targets(nodes, index, (count - 1) as nat);
        let list = targets(nodes, index, count);
        assert forall|k: int| 0 <= k < list.len() implies depends(
            nodes,
            index,
            #[trigger] list[k],
        ) by {
            if k < before.len() {
                assert(list[k] == before[k]);
            } else {
                assert(id_position(
                    node_ids(nodes),
                    nodes[index].depends_on@[count - 1]@,
                    0,
                ) == Some(list[k] as nat));
            }
        }
    }
}

/// From a finished node nothing is met again.
proof fn finished_meet_nothing(
    nodes: Seq<PlanNode>,
    states: Seq<VisitState>,
    rank: Map<int, int>,
    next: int,
    path: Seq<int>,
    index: int,
)
    requires
        states.len() == nodes.len(),
        finished_ranked(nodes, states, rank, next),
        0 <= index < nodes.len(),
        states[index] == VisitState::Visited,
        ranks_above(states, rank, path, index),
    ensures
        met_again(nodes, path, index) is None,
    decreases nodes.len() - path.len(), 0nat,
{
    if path.contains(index) {
        let k = choose|k: int| 0 <= k < path.len() && path[k] == index;
        assert(rank[path[k]] > rank[index]);
    } else if path.len() < nodes.len() {
        let list = targets(nodes, index, nodes[index].depends_on@.len());
        targets_are_dependencies(nodes, index, nodes[index].depends_on@.len());
        finished_lists_meet_nothing(nodes, states, rank, next, path.push(index), index, list, 0);
    }
}

proof fn finished_lists_meet_nothing(
    nodes: Seq<PlanNode>,
    states: Seq<VisitState>,
    rank: Map<int, int>,
    next: int,
    path: Seq<int>,
    index: int,
    list: Seq<int>,
    start: nat,
)
    requires
        states.len() == nodes.len(),
        finished_ranked(nodes, states, rank, next),
        0 <= index < nodes.len(),
        states[index] == VisitState::Visited,
        forall|k: int|
            0 <= k < path.len() ==> 0 <= #[trigger] path[k] < states.len() && (states[path[k]]
                == VisitState::Visited ==> rank[path[k]] >= rank[index]),
        forall|k: int| 0 <= k < list.len() ==> depends(nodes, index, #[trigger] list[k]),
    ensures
        met_among(nodes, path, list, start) is None,
    decreases nodes.len() - path.len(), list.len() - start + 1,
{
    if start < list.len() {
        assert(depends(nodes, index, list[start as int]));
        finished_meet_nothing(nodes, states, rank, next, path, list[start as int]);
        finished_lists_meet_nothing(nodes, states, rank, next, path, index, list, start + 1);
    }
}

/// Visits a node and everything that it depends on; the position of the first node that it meets
/// again.
fn visit(
    index: usize,
    Ghost(nodes): Ghost<Seq<PlanNode>>,
    edges: &Vec<Vec<usize>>,
    states: &mut Vec<VisitState>,
    Ghost(stack): Ghost<Seq<int>>,
    Ghost(rank): Ghost<Map<int, int>>,
    Ghost(next): Ghost<int>,
) -> (result: (Option<usize>, Ghost<Map<int, int>>, Ghost<int>))
    requires
        edges_match(nodes, edges@),
        old(states)@.len() == nodes.len(),
        index < nodes.len(),
        is_stack(nodes, old(states)@, stack),
        stack.len() > 0 ==> depends(nodes, stack.last(), index as int),
        finished_ranked(nodes, old(states)@, rank, next),
    ensures
        final(states)@.len() == nodes.len(),
        match result.0 {
            Some(found) => found < nodes.len() && reaches(nodes, found as int, found as int)
                && met_again(nodes, stack, index as int) == Some(found as int),
            None => {
                &&& met_again(nodes, stack, index as int) is None
                &&& is_stack(nodes, final(states)@, stack)
                &&& final(states)@[index as int] == VisitState::Visited
                &&& finished_ranked(nodes, final(states)@, result.1@, result.2@)
                &&& forall|i: int|
                    0 <= i < nodes.len() && (#[trigger] old(states)@[i]) != VisitState::Unvisited
                        ==> final(states)@[i] == old(states)@[i]
                &&& unvisited(final(states)@) <= unvisited(old(states)@)
                &&& result.2@ >= next
            },
        },
    decreases unvisited(old(states)@),
{
    match states[index] {
        VisitState::Visited => {
            proof {
                finished_meet_nothing(nodes, states@, rank, next, stack, index as int);
            }
            return (None, Ghost(rank), Ghost(next));
        },
        VisitState::Visiting => {
            proof {
                let at = choose|at: int| 0 <= at < stack.len() && stack[at] == index;
                stack_loops(nodes, stack, at, index as int);
            }
            return (Some(index), Ghost(rank), Ghost(next));
        },
        VisitState::Unvisited => {},
    }
    let ghost before = states@;
    states.set(index, VisitState::Visiting);
    let ghost pushed = stack.push(index as int);
    let ghost list = targets(nodes, index as int, nodes[index as int].depends_on@.len());
    let mut current_rank: Ghost<Map<int, int>> = Ghost(rank);
    let mut current_next: Ghost<int> = Ghost(next);
    proof {
        unvisited_falls(before, index as int, VisitState::Visiting);
        assert(!stack.contains(index as int)) by {
            if stack.contains(index as int) {
                let k = choose|k: int| 0 <= k < stack.len() && stack[k] == index as int;
                assert(before[stack[k]] == VisitState::Visiting);
            }
        }
        assert(pushed.no_duplicates());
        distinct_places(pushed, nodes.len());
        assert(places(edges@[index as int]@) == list);
        assert(is_stack(nodes, states@, pushed)) by {
            assert forall|i: int|
                0 <= i < states@.len() && (#[trigger] states@[i])
                    == VisitState::Visiting implies pushed.contains(i) by {
                if i == index {
                    assert(pushed[stack.len() as int] == i);
                } else {
                    assert(before[i] == VisitState::Visiting);
                    let k = choose|k: int| 0 <= k < stack.len() && stack[k] == i;
                    assert(pushed[k] == i);
                }
            }
            assert forall|k: int| 0 <= k < pushed.len() - 1 implies depends(
                nodes,
                #[trigger] pushed[k],
                pushed[k + 1],
            ) by {
                if k < stack.len() - 1 {
                    assert(pushed[k] == stack[k] && pushed[k + 1] == stack[k + 1]);
                }
            }
        }
        assert forall|i: int, j: int| #[trigger]
            depends(nodes, i, j) && states@[i] == VisitState::Visited implies states@[j]
            == VisitState::Visited && rank[j] < rank[i] by {
            assert(before[i] == VisitState::Visited);
        }
    }
    let mut k: usize = 0;
    while k < edges[index as usize].len()
        invariant
            k <= edges@[index as int]@.len(),
            edges_match(nodes, edges@),
            index < nodes.len(),
            states@.len() == nodes.len(),
            is_stack(nodes, states@, pushed),
            pushed == stack.push(index as int),
            list == places(edges@[index as int]@),
            met_again(nodes, stack, index as int) == met_among(nodes, pushed, list, k as nat),
            finished_ranked(nodes, states@, current_rank@, current_next@),
            unvisited(states@) < unvisited(before),
            before == old(states)@,
            forall|i: int|
                0 <= i < nodes.len() && i != index && (#[trigger] before[i])
                    != VisitState::Unvisited ==> states@[i] == before[i],
            states@[index as int] == VisitState::Visiting,
            forall|m: int|
                0 <= m < k ==> states@[(#[trigger] edges@[index as int]@[m]) as int]
                    == VisitState::Visited,
            current_next@ >= next,
        decreases edges@[index as int]@.len() - k,
    {
        let dependency = edges[index as usize][k];
        assert(depends(nodes, index as int, dependency as int));
        assert(list[k as int] == dependency as int);
        let ghost inner = states@;
        let (found, new_rank, new_next) = visit(
            dependency,
            Ghost(nodes),
            edges,
            states,
            Ghost(pushed),
            current_rank,
            current_next,
        );
        if found.is_some() {
            return (found, new_rank, new_next);
        }
        proof {
            assert forall|i: int|
                0 <= i < nodes.len() && i != index && (#[trigger] before[i])
                    != VisitState::Unvisited implies states@[i] == before[i] by {
                assert(inner[i] == before[i]);
            }
            assert(inner[index as int] == VisitState::Visiting);
            assert forall|m: int| 0 <= m < k implies states@[(
            #[trigger] edges@[index as int]@[m]) as int] == VisitState::Visited by {
                assert(inner[edges@[index as int]@[m] as int] == VisitState::Visited);
            }
        }
        current_rank = new_rank;
        current_next = new_next;
        k += 1;
    }
    let ghost inner = states@;
    let ghost final_rank = current_rank@.insert(index as int, current_next@);
    states.set(index, VisitState::Visited);
    proof {
        unvisited_falls(inner, index as int, VisitState::Visited);
        assert(is_stack(nodes, states@, stack)) by {
            assert forall|q: int| 0 <= q < stack.len() implies 0 <= #[trigger] stack[q]
                < nodes.len() && states@[stack[q]] == VisitState::Visiting by {
                assert(pushed[q] == stack[q]);
                assert(before[stack[q]] == VisitState::Visiting);
                assert(before[index as int] == VisitState::Unvisited);
            }
            assert forall|i: int|
                0 <= i < states@.len() && (#[trigger] states@[i])
                    == VisitState::Visiting implies stack.contains(i) by {
                assert(inner[i] == VisitState::Visiting);
                let q = choose|q: int| 0 <= q < pushed.len() && pushed[q] == i;
                assert(stack[q] == i);
            }
            assert forall|q: int| 0 <= q < stack.len() - 1 implies depends(
                nodes,
                #[trigger] stack[q],
                stack[q + 1],
            ) by {
                assert(pushed[q] == stack[q] && pushed[q + 1] == stack[q + 1]);
            }
        }
        assert forall|i: int, j: int| #[trigger]
            depends(nodes, i, j) && states@[i] == VisitState::Visited implies states@[j]
            == VisitState::Visited && final_rank[j] < final_rank[i] by {
            if i == index {
                let m = choose|m: int|
                    0 <= m < edges@[i]@.len() && #[trigger] edges@[i]@[m] == j;
                assert(inner[edges@[index as int]@[m] as int] == VisitState::Visited);
            } else {
                assert(inner[i] == VisitState::Visited);
            }
        }
        assert forall|i: int|
            0 <= i < nodes.len() && (#[trigger] old(states)@[i])
                != VisitState::Unvisited implies states@[i] == old(states)@[i] by {
            assert(before[i] == old(states)@[i]);
            assert(before[index as int] == VisitState::Unvisited);
        }
    }
    (None, Ghost(final_rank), Ghost(current_next@ + 1))
}

proof fn stack_loops(nodes: Seq<PlanNode>, stack: Seq<int>, at: int, index: int)
    requires
        0 <= at < stack.len(),
        stack[at] == index,
        forall|k: int| 0 <= k < stack.len() - 1 ==> depends(nodes, #[trigger] stack[k], stack[k + 1]),
        depends(nodes, stack.last(), index),
    ensures
        reaches(nodes, index, index),
{
    let path = stack.skip(at).push(index);
    assert forall|k: int| 0 <= k < path.len() - 1 implies depends(
        nodes,
        #[trigger] path[k],
        path[k + 1],
    ) by {
        if k < path.len() - 2 {
            assert(path[k] == stack[at + k] && path[k + 1] == stack[at + k + 1]);
        } else {
            assert(path[k] == stack.last());
        }
    }
    assert(is_path(nodes, path));
    assert(path.first() == index && path.last() == index);
}

/// The position of a node, by identifier.
pub fn find_node(nodes: &Vec<PlanNode>, id: &str) -> (result: Option<usize>)
    ensures
        match result {
            Some(position) => id_position(node_ids(nodes@), id@, 0) == Some(position as nat)
                && position < nodes@.len(),
            None => id_position(node_ids(nodes@), id@, 0) is None,
        },
{
    let mut i: usize = 0;
    while i < nodes.len()
        invariant
            i <= nodes@.len(),
            id_position(node_ids(nodes@), id@, 0) == id_position(
                node_ids(nodes@),
                id@,
                i as nat,
            ),
        decreases nodes@.len() - i,
    {
        assert(node_ids(nodes@)[i as int] == nodes@[i as int].id@);
        if same_text(nodes[i].id.as_str(), id) {
            return Some(i);
        }
        i += 1;
    }
    None
}

proof fn id_position_contains(ids: Seq<Seq<char>>, id: Seq<char>, start: nat)
    requires
        start <= ids.len(),
    ensures
        match id_position(ids, id, start) {
            Some(position) => start <= position < ids.len() && ids[position as int] == id,
            None => forall|i: int| start <= i < ids.len() ==> #[trigger] ids[i] != id,
        },
    decreases ids.len() - start,
{
    if start < ids.len() && ids[start as int] != id {
        id_position_contains(ids, id, start + 1);
    }
}

spec fn listed(list: Seq<usize>, position: Option<nat>) -> bool {
    position is Some ==> exists|k: int| 0 <= k < list.len() && #[trigger] list[k] == position->0
}

/// The positions of the dependencies of every node, for nodes that all exist.
fn edges_of(nodes: &Vec<PlanNode>) -> (edges: Vec<Vec<usize>>)
    ensures
        edges_match(nodes@, edges@),
{
    let mut edges: Vec<Vec<usize>> = Vec::new();
    let mut i: usize = 0;
    while i < nodes.len()
        invariant
            i <= nodes@.len(),
            edges@.len() == i,
            forall|a: int|
                0 <= a < i ==> places((#[trigger] edges@[a])@) == targets(
                    nodes@,
                    a,
                    nodes@[a].depends_on@.len(),
                ),
            forall|a: int, k: int|
                0 <= a < i && 0 <= k < (#[trigger] edges@[a])@.len() ==> depends(
                    nodes@,
                    a,
                    (#[trigger] edges@[a]@[k]) as int,
                ),
            forall|a: int, j: int|
                a < i && #[trigger] depends(nodes@, a, j) ==> exists|k: int|
                    0 <= k < edges@[a]@.len() && #[trigger] edges@[a]@[k] == j,
        decreases nodes@.len() - i,
    {
        let mut list: Vec<usize> = Vec::new();
        let node = &nodes[i];
        let mut d: usize = 0;
        assert(places(list@) =~= Seq::empty());
        while d < node.depends_on.len()
            invariant
                d <= node.depends_on@.len(),
                i < nodes@.len(),
                *node == nodes@[i as int],
                places(list@) == targets(nodes@, i as int, d as nat),
                forall|k: int| 0 <= k < list@.len() ==> depends(
                    nodes@,
                    i as int,
                    (#[trigger] list@[k]) as int,
                ),
                forall|m: int|
                    0 <= m < d ==> listed(
                        list@,
                        id_position(node_ids(nodes@), (#[trigger] node.depends_on@[m])@, 0),
                    ),
            decreases node.depends_on@.len() - d,
        {
            let ghost earlier = list@;
            if let Some(position) = find_node(nodes, node.depends_on[d].as_str()) {
                list.push(position);
                assert(list@[earlier.len() as int] == position);
                assert(places(list@) =~= places(earlier).push(position as int));
                assert(nodes@[i as int].depends_on@[d as int]@ == node.depends_on@[d as int]@);
            }
            proof {
                assert forall|m: int| 0 <= m < d + 1 implies listed(
                    list@,
                    id_position(node_ids(nodes@), (#[trigger] node.depends_on@[m])@, 0),
                ) by {
                    let position = id_position(node_ids(nodes@), node.depends_on@[m]@, 0);
                    if m < d && position is Some {
                        assert(listed(earlier, position));
                        let k = choose|k: int|
                            0 <= k < earlier.len() && #[trigger] earlier[k] == position->0;
                        assert(list@[k] == position->0);
                    }
                }
            }
            d += 1;
        }
        let ghost before = edges@;
        let ghost new_list = list@;
        edges.push(list);
        proof {
            assert forall|a: int| 0 <= a < i + 1 implies places((#[trigger] edges@[a])@)
                == targets(nodes@, a, nodes@[a].depends_on@.len()) by {
                if a < i {
                    assert(before[a] == edges@[a]);
                }
            }
            assert forall|a: int, k: int|
                0 <= a < i + 1 && 0 <= k < (#[trigger] edges@[a])@.len() implies depends(
                nodes@,
                a,
                (#[trigger] edges@[a]@[k]) as int,
            ) by {
                if a < i {
                    assert(before[a] == edges@[a]);
                    assert(before[a]@[k] == edges@[a]@[k]);
                }
            }
            assert forall|a: int, j: int|
                a < i + 1 && #[trigger] depends(nodes@, a, j) implies exists|k: int|
                0 <= k < edges@[a]@.len() && #[trigger] edges@[a]@[k] == j by {
                if a < i {
                    let k = choose|k: int|
                        0 <= k < before[a]@.len() && #[trigger] before[a]@[k] == j;
                    assert(edges@[a]@[k] == j);
                } else {
                    let m = choose|m: int|
                        0 <= m < nodes@[a].depends_on@.len() && id_position(
                            node_ids(nodes@),
                            (#[trigger] nodes@[a].depends_on@[m])@,
                            0,
                        ) == Some(j as nat);
                    assert(node.depends_on@[m]@ == nodes@[a].depends_on@[m]@);
                    assert(listed(
                        new_list,
                        id_position(node_ids(nodes@), node.depends_on@[m]@, 0),
                    ));
                    let k = choose|k: int| 0 <= k < new_list.len() && #[trigger] new_list[k] == j;
                    assert(edges@[a]@[k] == j);
                }
            }
        }
        i += 1;
    }
    edges
}

/// Everything that a marked node depends on is marked or waiting.
spec fn closed_but(nodes: Seq<PlanNode>, marked: Seq<bool>, pending: Seq<usize>) -> bool {
    forall|i: int, j: int| #[trigger]
        depends(nodes, i, j) && marked[i] && !pending.contains(i as usize) ==> marked[j]
}

spec fn unmarked(marked: Seq<bool>) -> nat
    decreases marked.len(),
{
    if marked.len() == 0 {
        0
    } else {
        unmarked(marked.drop_last()) + (if marked.last() {
            0nat
        } else {
            1nat
        })
    }
}

proof fn unmarked_falls(marked: Seq<bool>, index: int)
    requires
        0 <= index < marked.len(),
        !marked[index],
    ensures
        unmarked(marked.update(index, true)) < unmarked(marked),
    decreases marked.len(),
{
    if index == marked.len() - 1 {
        assert(marked.update(index, true).drop_last() =~= marked.drop_last());
    } else {
        unmarked_falls(marked.drop_last(), index);
        assert(marked.update(index, true).drop_last() =~= marked.drop_last().update(index, true));
        assert(marked.update(index, true).last() == marked.last());
    }
}

proof fn marks_cover_paths(nodes: Seq<PlanNode>, marked: Seq<bool>, path: Seq<int>, at: int)
    requires
        is_path(nodes, path),
        1 <= at < path.len(),
        marked[path[1]],
        forall|i: int, j: int| #[trigger] depends(nodes, i, j) && marked[i] ==> marked[j],
    ensures
        marked[path[at]],
    decreases at,
{
    if at > 1 {
        marks_cover_paths(nodes, marked, path, at - 1);
        assert(depends(nodes, path[at - 1], path[at - 1 + 1]));
    }
}

/// Marks the nodes of a list of positions that are not yet marked.
fn mark(
    list: &Vec<usize>,
    marked: &mut Vec<bool>,
    pending: &mut Vec<usize>,
    Ghost(nodes): Ghost<Seq<PlanNode>>,
    Ghost(root): Ghost<int>,
    Ghost(owner): Ghost<int>,
)
    requires
        old(marked)@.len() == nodes.len(),
        forall|k: int| 0 <= k < list@.len() ==> depends(nodes, owner, (#[trigger] list@[k]) as int),
        forall|k: int|
            0 <= k < list@.len() ==> reaches(nodes, root, (#[trigger] list@[k]) as int),
        forall|k: int|
            0 <= k < old(pending)@.len() ==> (#[trigger] old(pending)@[k]) < nodes.len()
                && old(marked)@[old(pending)@[k] as int],
        forall|i: int|
            0 <= i < nodes.len() && #[trigger] old(marked)@[i] ==> reaches(nodes, root, i),
    ensures
        final(marked)@.len() == nodes.len(),
        forall|k: int| 0 <= k < list@.len() ==> final(marked)@[(#[trigger] list@[k]) as int],
        forall|i: int|
            0 <= i < nodes.len() && #[trigger] old(marked)@[i] ==> final(marked)@[i],
        forall|i: int|
            0 <= i < nodes.len() && #[trigger] final(marked)@[i] && !old(marked)@[i]
                ==> final(pending)@.contains(i as usize),
        forall|i: usize| #[trigger]
            old(pending)@.contains(i) ==> final(pending)@.contains(i),
        forall|k: int|
            0 <= k < final(pending)@.len() ==> (#[trigger] final(pending)@[k]) < nodes.len()
                && final(marked)@[final(pending)@[k] as int],
        forall|i: int|
            0 <= i < nodes.len() && #[trigger] final(marked)@[i] ==> reaches(nodes, root, i),
        unmarked(final(marked)@) < unmarked(old(marked)@) || (final(marked)@ == old(marked)@
            && final(pending)@ == old(pending)@),
{
    let ghost first_marked = marked@;
    let ghost first_pending = pending@;
    let mut k: usize = 0;
    while k < list.len()
        invariant
            k <= list@.len(),
            marked@.len() == nodes.len(),
            first_marked == old(marked)@,
            first_pending == old(pending)@,
            forall|m: int|
                0 <= m < list@.len() ==> depends(nodes, owner, (#[trigger] list@[m]) as int),
            forall|m: int|
                0 <= m < list@.len() ==> reaches(nodes, root, (#[trigger] list@[m]) as int),
            forall|m: int| 0 <= m < k ==> marked@[(#[trigger] list@[m]) as int],
            forall|i: int|
                0 <= i < nodes.len() && #[trigger] first_marked[i] ==> marked@[i],
            forall|i: int|
                0 <= i < nodes.len() && #[trigger] marked@[i] && !first_marked[i]
                    ==> pending@.contains(i as usize),
            forall|i: usize| #[trigger] first_pending.contains(i) ==> pending@.contains(i),
            forall|m: int|
                0 <= m < pending@.len() ==> (#[trigger] pending@[m]) < nodes.len()
                    && marked@[pending@[m] as int],
            forall|i: int|
                0 <= i < nodes.len() && #[trigger] marked@[i] ==> reaches(nodes, root, i),
            unmarked(marked@) < unmarked(first_marked) || (marked@ == first_marked && pending@
                == first_pending),
        decreases list@.len() - k,
    {
        let dependency = list[k];
        assert(depends(nodes, owner, dependency as int));
        if !marked[dependency] {
            let ghost before = marked@;
            let ghost waiting = pending@;
            proof {
                unmarked_falls(before, dependency as int);
            }
            marked.set(dependency, true);
            pending.push(dependency);
            proof {
                assert(pending@[waiting.len() as int] == dependency);
                assert forall|i: int|
                    0 <= i < nodes.len() && #[trigger] marked@[i]
                        && !first_marked[i] implies pending@.contains(i as usize) by {
                    if i != dependency {
                        assert(before[i]);
                        let m = choose|m: int| 0 <= m < waiting.len() && waiting[m] == i as usize;
                        assert(pending@[m] == i as usize);
                    }
                }
                assert forall|i: usize| #[trigger]
                    first_pending.contains(i) implies pending@.contains(i) by {
                    let m = choose|m: int| 0 <= m < waiting.len() && waiting[m] == i;
                    assert(pending@[m] == i);
                }
                assert forall|m: int| 0 <= m < pending@.len() implies (#[trigger] pending@[m])
                    < nodes.len() && marked@[pending@[m] as int] by {
                    if m < waiting.len() {
                        assert(pending@[m] == waiting[m]);
                    }
                }
                assert forall|m: int| 0 <= m < k + 1 implies marked@[(
                #[trigger] list@[m]) as int] by {
                    if m < k {
                        assert(before[list@[m] as int]);
                    }
                }
            }
        }
        k += 1;
    }
}

/// For every node, whether node `index` depends on it, at once or through others.
pub fn transitive_dependencies(nodes: &Vec<PlanNode>, index: usize) -> (marked: Vec<bool>)
    requires
        index < nodes@.len(),
    ensures
        marked@.len() == nodes@.len(),
        forall|j: int|
            0 <= j < nodes@.len() ==> (#[trigger] marked@[j]) == reaches(nodes@, index as int, j),
{
    let edges = edges_of(nodes);
    let mut marked: Vec<bool> = Vec::new();
    let mut i: usize = 0;
    while i < nodes.len()
        invariant
            i <= nodes@.len(),
            marked@.len() == i,
            forall|j: int| 0 <= j < i ==> !(#[trigger] marked@[j]),
        decreases nodes@.len() - i,
    {
        marked.push(false);
        i += 1;
    }
    let mut pending: Vec<usize> = Vec::new();
    proof {
        assert forall|k: int| 0 <= k < edges@[index as int]@.len() implies reaches(
            nodes@,
            index as int,
            (#[trigger] edges@[index as int]@[k]) as int,
        ) by {
            step_reaches(nodes@, index as int, edges@[index as int]@[k] as int);
        }
    }
    mark(
        &edges[index],
        &mut marked,
        &mut pending,
        Ghost(nodes@),
        Ghost(index as int),
        Ghost(index as int),
    );
    let ghost roots = marked@;
    proof {
        assert forall|a: int, j: int| #[trigger]
            depends(nodes@, a, j) && marked@[a] && !pending@.contains(a as usize) implies marked@[j]
            by {
            assert(pending@.contains(a as usize));
        }
        assert(closed_but(nodes@, marked@, pending@));
    }
    while pending.len() > 0
        invariant
            index < nodes@.len(),
            edges_match(nodes@, edges@),
            marked@.len() == nodes@.len(),
            forall|k: int|
                0 <= k < edges@[index as int]@.len() ==> marked@[(
                #[trigger] edges@[index as int]@[k]) as int],
            forall|k: int|
                0 <= k < pending@.len() ==> (#[trigger] pending@[k]) < nodes@.len()
                    && marked@[pending@[k] as int],
            forall|j: int|
                0 <= j < nodes@.len() && #[trigger] marked@[j] ==> reaches(
                    nodes@,
                    index as int,
                    j,
                ),
            closed_but(nodes@, marked@, pending@),
        decreases unmarked(marked@), pending@.len(),
    {
        let ghost waiting = pending@;
        let node = pending.pop().unwrap();
        let ghost before = marked@;
        let ghost shorter = pending@;
        proof {
            assert(waiting[waiting.len() - 1] == node);
            assert forall|k: int| 0 <= k < edges@[node as int]@.len() implies reaches(
                nodes@,
                index as int,
                (#[trigger] edges@[node as int]@[k]) as int,
            ) by {
                reaches_extends(
                    nodes@,
                    index as int,
                    node as int,
                    edges@[node as int]@[k] as int,
                );
            }
            assert forall|k: int| 0 <= k < pending@.len() implies (#[trigger] pending@[k])
                < nodes@.len() && marked@[pending@[k] as int] by {
                assert(pending@[k] == waiting[k]);
            }
        }
        mark(
            &edges[node],
            &mut marked,
            &mut pending,
            Ghost(nodes@),
            Ghost(index as int),
            Ghost(node as int),
        );
        proof {
            assert forall|a: int, j: int| #[trigger]
                depends(nodes@, a, j) && marked@[a] && !pending@.contains(
                    a as usize,
                ) implies marked@[j] by {
                if a == node {
                    let k = choose|k: int|
                        0 <= k < edges@[a]@.len() && #[trigger] edges@[a]@[k] == j;
                    assert(marked@[edges@[node as int]@[k] as int]);
                } else if before[a] {
                    if waiting.contains(a as usize) {
                        let m = choose|m: int| 0 <= m < waiting.len() && waiting[m] == a as usize;
                        assert(shorter[m] == a as usize);
                        assert(shorter.contains(a as usize));
                    }
                    assert(before[j]);
                }
            }
            assert forall|k: int| 0 <= k < edges@[index as int]@.len() implies marked@[(
            #[trigger] edges@[index as int]@[k]) as int] by {
                assert(before[edges@[index as int]@[k] as int]);
            }
        }
    }
    proof {
        assert forall|j: int| 0 <= j < nodes@.len() implies (#[trigger] marked@[j]) == reaches(
            nodes@,
            index as int,
            j,
        ) by {
            if reaches(nodes@, index as int, j) {
                let path = choose|path: Seq<int>| #[trigger]
                    is_path(nodes@, path) && path.first() == index as int && path.last() == j;
                assert(depends(nodes@, path[0int], path[0int + 1]));
                let k = choose|k: int|
                    0 <= k < edges@[index as int]@.len() && #[trigger] edges@[index as int]@[k]
                        == path[1];
                assert(marked@[edges@[index as int]@[k] as int]);
                assert forall|a: int, b: int| #[trigger]
                    depends(nodes@, a, b) && marked@[a] implies marked@[b] by {
                    assert(!pending@.contains(a as usize));
                }
                marks_cover_paths(nodes@, marked@, path, path.len() as int - 1);
            }
        }
    }
    marked
}

/// What is wrong with the identifiers of a plan's nodes.
fn check_identifiers(nodes: &Vec<PlanNode>) -> (result: Option<String>)
    ensures
        match result {
            Some(text) => identifiers_fault(nodes@, nodes@.len()) == Some(text@),
            None => identifiers_fault(nodes@, nodes@.len()) is None,
        },
{
    let mut i: usize = 0;
    while i < nodes.len()
        invariant
            i <= nodes@.len(),
            identifiers_fault(nodes@, i as nat) is None,
        decreases nodes@.len() - i,
    {
        let node = &nodes[i];
        let mut fault: Option<String> = None;
        if is_blank(node.id.as_str()) {
            let digits = decimal(i as u64);
            fault =
            Some(
                join3("execution plan node at index ", digits.as_str(), " has an empty ID"),
            );
        } else if is_blank(node.tool_id.as_str()) {
            fault =
            Some(join3("execution plan node '", node.id.as_str(), "' has an empty tool ID"));
        } else {
            let mut j: usize = 0;
            let mut seen = false;
            while j < i
                invariant
                    j <= i < nodes@.len(),
                    *node == nodes@[i as int],
                    seen <==> node_ids(nodes@).take(j as int).contains(node.id@),
                decreases i - j,
            {
                proof {
                    let shorter = node_ids(nodes@).take(j as int);
                    let longer = node_ids(nodes@).take(j + 1);
                    assert(longer =~= shorter.push(nodes@[j as int].id@));
                    if shorter.contains(node.id@) {
                        let m = choose|m: int| 0 <= m < shorter.len() && shorter[m] == node.id@;
                        assert(longer[m] == node.id@);
                    }
                    if longer.contains(node.id@) {
                        let m = choose|m: int| 0 <= m < longer.len() && longer[m] == node.id@;
                        if m < j {
                            assert(shorter[m] == node.id@);
                        }
                    }
                    assert(longer[j as int] == nodes@[j as int].id@);
                }
                if same_text(nodes[j].id.as_str(), node.id.as_str()) {
                    seen = true;
                }
                j += 1;
            }
            if seen {
                fault =
                Some(
                    join3("execution plan contains duplicate node ID '", node.id.as_str(), "'"),
                );
            }
        }
        proof {
            assert(identifiers_fault(nodes@, (i + 1) as nat) == match fault {
                Some(text) => Some(text@),
                None => None::<Seq<char>>,
            });
        }
        if fault.is_some() {
            proof {
                identifiers_fault_stays(nodes@, (i + 1) as nat, nodes@.len());
            }
            return fault;
        }
        i += 1;
    }
    None
}

proof fn identifiers_fault_stays(nodes: Seq<PlanNode>, count: nat, longer: nat)
    requires
        count <= longer <= nodes.len(),
        identifiers_fault(nodes, count) is Some,
    ensures
        identifiers_fault(nodes, longer) == identifiers_fault(nodes, count),
    decreases longer - count,
{
    if count < longer {
        identifiers_fault_stays(nodes, count, (longer - 1) as nat);
    }
}

proof fn links_fault_stays(nodes: Seq<PlanNode>, count: nat, longer: nat)
    requires
        count <= longer <= nodes.len(),
        links_fault(nodes, count) is Some,
    ensures
        links_fault(nodes, longer) == links_fault(nodes, count),
    decreases longer - count,
{
    if count < longer {
        links_fault_stays(nodes, count, (longer - 1) as nat);
    }
}

proof fn dependencies_fault_stays(ids: Seq<Seq<char>>, node: PlanNode, count: nat, longer: nat)
    requires
        count <= longer <= node.depends_on@.len(),
        dependencies_fault(ids, node, count) is Some,
    ensures
        dependencies_fault(ids, node, longer) == dependencies_fault(ids, node, count),
    decreases longer - count,
{
    if count < longer {
        dependencies_fault_stays(ids, node, count, (longer - 1) as nat);
    }
}

proof fn bindings_fault_stays(ids: Seq<Seq<char>>, node: PlanNode, count: nat, longer: nat)
    requires
        count <= longer <= node.result_bindings@.len(),
        bindings_fault(ids, node, count) is Some,
    ensures
        bindings_fault(ids, node, longer) == bindings_fault(ids, node, count),
    decreases longer - count,
{
    if count < longer {
        bindings_fault_stays(ids, node, count, (longer - 1) as nat);
    }
}

proof fn sources_fault_stays(nodes: Seq<PlanNode>, index: int, count: nat, longer: nat)
    requires
        count <= longer <= nodes[index].result_bindings@.len(),
        sources_fault(nodes, index, count) is Some,
    ensures
        sources_fault(nodes, index, longer) == sources_fault(nodes, index, count),
    decreases longer - count,
{
    if count < longer {
        sources_fault_stays(nodes, index, count, (longer - 1) as nat);
    }
}

proof fn all_sources_fault_stays(nodes: Seq<PlanNode>, count: nat, longer: nat)
    requires
        count <= longer <= nodes.len(),
        all_sources_fault(nodes, count) is Some,
    ensures
        all_sources_fault(nodes, longer) == all_sources_fault(nodes, count),
    decreases longer - count,
{
    if count < longer {
        all_sources_fault_stays(nodes, count, (longer - 1) as nat);
    }
}

/// Whether a node of this identifier exists.
fn has_node(nodes: &Vec<PlanNode>, id: &str) -> (result: bool)
    ensures
        result <==> node_ids(nodes@).contains(id@),
{
    proof {
        id_position_contains(node_ids(nodes@), id@, 0);
    }
    find_node(nodes, id).is_some()
}

/// Whether an identifier stands among the first `count` of a list.
fn listed_before(values: &Vec<String>, count: usize, wanted: &str) -> (result: bool)
    requires
        count <= values@.len(),
    ensures
        result <==> texts(values@).take(count as int).contains(wanted@),
{
    let mut j: usize = 0;
    while j < count
        invariant
            j <= count <= values@.len(),
            !texts(values@).take(j as int).contains(wanted@),
        decreases count - j,
    {
        let ghost longer = texts(values@).take(j + 1);
        let ghost whole = texts(values@).take(count as int);
        if same_text(values[j].as_str(), wanted) {
            assert(whole[j as int] == wanted@);
            return true;
        }
        proof {
            if longer.contains(wanted@) {
                let m = choose|m: int| 0 <= m < longer.len() && longer[m] == wanted@;
                assert(m < j);
                assert(texts(values@).take(j as int)[m] == wanted@);
            }
        }
        j += 1;
    }
    false
}

fn check_dependencies(nodes: &Vec<PlanNode>, node: &PlanNode) -> (result: Option<String>)
    ensures
        match result {
            Some(text) => dependencies_fault(node_ids(nodes@), *node, node.depends_on@.len())
                == Some(text@),
            None => dependencies_fault(node_ids(nodes@), *node, node.depends_on@.len()) is None,
        },
{
    let ghost ids = node_ids(nodes@);
    let mut d: usize = 0;
    while d < node.depends_on.len()
        invariant
            d <= node.depends_on@.len(),
            ids == node_ids(nodes@),
            dependencies_fault(ids, *node, d as nat) is None,
        decreases node.depends_on@.len() - d,
    {
        let dependency = node.depends_on[d].as_str();
        let mut fault: Option<String> = None;
        if same_text(dependency, node.id.as_str()) {
            fault = Some(join3("execution plan node '", node.id.as_str(), "' depends on itself"));
        } else if !has_node(nodes, dependency) {
            let head = join3(
                "execution plan node '",
                node.id.as_str(),
                "' depends on missing node '",
            );
            fault = Some(join3(head.as_str(), dependency, "'"));
        } else if listed_before(&node.depends_on, d, dependency) {
            let head = join3(
                "execution plan node '",
                node.id.as_str(),
                "' contains duplicate dependency '",
            );
            fault = Some(join3(head.as_str(), dependency, "'"));
        }
        proof {
            assert(dependencies_fault(ids, *node, (d + 1) as nat) == match fault {
                Some(text) => Some(text@),
                None => None::<Seq<char>>,
            });
        }
        if fault.is_some() {
            proof {
                dependencies_fault_stays(ids, *node, (d + 1) as nat, node.depends_on@.len());
            }
            return fault;
        }
        d += 1;
    }
    None
}

/// Whether a text begins with a slash.
fn starts_with_slash(text: &str) -> (result: bool)
    ensures
        result <==> text@.len() > 0 && text@[0] == '/',
{
    text.unicode_len() > 0 && text.get_char(0) == '/'
}

fn check_bindings(nodes: &Vec<PlanNode>, node: &PlanNode) -> (result: Option<String>)
    ensures
        match result {
            Some(text) => bindings_fault(node_ids(nodes@), *node, node.result_bindings@.len())
                == Some(text@),
            None => bindings_fault(node_ids(nodes@), *node, node.result_bindings@.len()) is None,
        },
{
    let ghost ids = node_ids(nodes@);
    let mut b: usize = 0;
    while b < node.result_bindings.len()
        invariant
            b <= node.result_bindings@.len(),
            ids == node_ids(nodes@),
            bindings_fault(ids, *node, b as nat) is None,
        decreases node.result_bindings@.len() - b,
    {
        let binding = &node.result_bindings[b];
        let target = binding.target_pointer.as_str();
        let pointer = binding.source.output_pointer.as_str();
        let source = binding.source.node_id.as_str();
        let mut fault: Option<String> = None;
        if !starts_with_slash(target) {
            let head = join3(
                "execution plan node '",
                node.id.as_str(),
                "' has invalid binding target pointer '",
            );
            fault = Some(join3(head.as_str(), target, "'"));
        } else if pointer.unicode_len() > 0 && !starts_with_slash(pointer) {
            let head = join3(
                "execution plan node '",
                node.id.as_str(),
                "' has invalid source output pointer '",
            );
            fault = Some(join3(head.as_str(), pointer, "'"));
        } else if !has_node(nodes, source) {
            let head = join3("execution plan node '", node.id.as_str(), "' binds from missing node '");
            fault = Some(join3(head.as_str(), source, "'"));
        }
        proof {
            assert(bindings_fault(ids, *node, (b + 1) as nat) == match fault {
                Some(text) => Some(text@),
                None => None::<Seq<char>>,
            });
        }
        if fault.is_some() {
            proof {
                bindings_fault_stays(ids, *node, (b + 1) as nat, node.result_bindings@.len());
            }
            return fault;
        }
        b += 1;
    }
    None
}

fn check_links(nodes: &Vec<PlanNode>) -> (result: Option<String>)
    ensures
        match result {
            Some(text) => links_fault(nodes@, nodes@.len()) == Some(text@),
            None => links_fault(nodes@, nodes@.len()) is None,
        },
{
    let mut i: usize = 0;
    while i < nodes.len()
        invariant
            i <= nodes@.len(),
            links_fault(nodes@, i as nat) is None,
        decreases nodes@.len() - i,
    {
        let node = &nodes[i];
        let mut fault = check_dependencies(nodes, node);
        if fault.is_none() {
            fault = check_bindings(nodes, node);
        }
        proof {
            assert(links_fault(nodes@, (i + 1) as nat) == match fault {
                Some(text) => Some(text@),
                None => None::<Seq<char>>,
            });
        }
        if fault.is_some() {
            proof {
                links_fault_stays(nodes@, (i + 1) as nat, nodes@.len());
            }
            return fault;
        }
        i += 1;
    }
    None
}

proof fn met_stays(nodes: Seq<PlanNode>, count: nat, longer: nat)
    requires
        count <= longer <= nodes.len(),
        first_met(nodes, count) is Some,
    ensures
        first_met(nodes, longer) == first_met(nodes, count),
    decreases longer - count,
{
    if count < longer {
        met_stays(nodes, count, (longer - 1) as nat);
    }
}

/// The position of the first node that is met again, where dependencies lead back to it.
pub fn find_cycle(nodes: &Vec<PlanNode>) -> (result: Option<usize>)
    ensures
        match result {
            Some(index) => index < nodes@.len() && reaches(nodes@, index as int, index as int)
                && first_met(nodes@, nodes@.len()) == Some(index as int),
            None => acyclic(nodes@) && first_met(nodes@, nodes@.len()) is None,
        },
{
    let edges = edges_of(nodes);
    let mut states: Vec<VisitState> = Vec::new();
    let mut i: usize = 0;
    while i < nodes.len()
        invariant
            i <= nodes@.len(),
            states@.len() == i,
            forall|j: int| 0 <= j < i ==> (#[trigger] states@[j]) == VisitState::Unvisited,
        decreases nodes@.len() - i,
    {
        states.push(VisitState::Unvisited);
        i += 1;
    }
    let mut rank: Ghost<Map<int, int>> = Ghost(Map::empty());
    let mut next: Ghost<int> = Ghost(0);
    let mut index: usize = 0;
    while index < nodes.len()
        invariant
            index <= nodes@.len(),
            edges_match(nodes@, edges@),
            states@.len() == nodes@.len(),
            is_stack(nodes@, states@, Seq::empty()),
            finished_ranked(nodes@, states@, rank@, next@),
            first_met(nodes@, index as nat) is None,
            forall|j: int| 0 <= j < index ==> (#[trigger] states@[j]) == VisitState::Visited,
        decreases nodes@.len() - index,
    {
        let ghost before = states@;
        let (found, new_rank, new_next) = visit(
            index,
            Ghost(nodes@),
            &edges,
            &mut states,
            Ghost(Seq::empty()),
            rank,
            next,
        );
        if found.is_some() {
            proof {
                met_stays(nodes@, (index + 1) as nat, nodes@.len());
            }
            return found;
        }
        rank = new_rank;
        next = new_next;
        proof {
            assert forall|j: int| 0 <= j < index + 1 implies (#[trigger] states@[j])
                == VisitState::Visited by {
                if j < index {
                    assert(before[j] == VisitState::Visited);
                }
            }
        }
        index += 1;
    }
    proof {
        ranked_is_acyclic(nodes@, rank@);
    }
    None
}

fn check_sources(nodes: &Vec<PlanNode>) -> (result: Option<String>)
    ensures
        match result {
            Some(text) => all_sources_fault(nodes@, nodes@.len()) == Some(text@),
            None => all_sources_fault(nodes@, nodes@.len()) is None,
        },
{
    let mut i: usize = 0;
    while i < nodes.len()
        invariant
            i <= nodes@.len(),
            all_sources_fault(nodes@, i as nat) is None,
        decreases nodes@.len() - i,
    {
        let node = &nodes[i];
        let dependencies = transitive_dependencies(nodes, i);
        let mut b: usize = 0;
        while b < node.result_bindings.len()
            invariant
                i < nodes@.len(),
                *node == nodes@[i as int],
                b <= node.result_bindings@.len(),
                all_sources_fault(nodes@, i as nat) is None,
                sources_fault(nodes@, i as int, b as nat) is None,
                dependencies@.len() == nodes@.len(),
                forall|j: int|
                    0 <= j < nodes@.len() ==> (#[trigger] dependencies@[j]) == reaches(
                        nodes@,
                        i as int,
                        j,
                    ),
            decreases node.result_bindings@.len() - b,
        {
            let source = node.result_bindings[b].source.node_id.as_str();
            let known = match find_node(nodes, source) {
                Some(position) => dependencies[position],
                None => false,
            };
            if !known {
                let head = join3("execution plan node '", node.id.as_str(), "' binds from node '");
                let text = join3(head.as_str(), source, "' which is not a transitive dependency");
                proof {
                    assert(sources_fault(nodes@, i as int, (b + 1) as nat) == Some(text@));
                    sources_fault_stays(
                        nodes@,
                        i as int,
                        (b + 1) as nat,
                        node.result_bindings@.len(),
                    );
                    assert(all_sources_fault(nodes@, (i + 1) as nat) == Some(text@));
                    all_sources_fault_stays(nodes@, (i + 1) as nat, nodes@.len());
                }
                return Some(text);
            }
            assert(sources_fault(nodes@, i as int, (b + 1) as nat) is None);
            b += 1;
        }
        assert(all_sources_fault(nodes@, (i + 1) as nat) is None);
        i += 1;
    }
    None
}

impl ExecutionPlan {
    /// Creates a plan of these nodes.
    pub fn new(nodes: Vec<PlanNode>) -> (result: ExecutionPlan)
        ensures
            result.nodes == nodes,
    {
        ExecutionPlan { nodes }
    }

    /// Adds a node at the end.
    pub fn with_node(self, node: PlanNode) -> (result: ExecutionPlan)
        ensures
            result.nodes@ == self.nodes@.push(node),
    {
        let mut result = self;
        result.nodes.push(node);
        result
    }

    /// Checks the plan's structure, without executing anything.
    pub fn validate(&self, max_nodes: usize) -> (result: Result<(), HarnessError>)
        ensures
            plan_answer(self.nodes@, max_nodes, check_view(result)),
            result is Ok <==> plan_valid(self.nodes@, max_nodes),
    {
        let nodes = &self.nodes;
        if nodes.len() > max_nodes {
            let found = decimal(nodes.len() as u64);
            let allowed = decimal(max_nodes as u64);
            let head = join3(
                "execution plan has ",
                found.as_str(),
                " nodes, exceeding maximum of ",
            );
            return Err(HarnessError::InvalidRequest(join2(head.as_str(), allowed.as_str())));
        }
        if let Some(text) = check_identifiers(nodes) {
            return Err(HarnessError::InvalidRequest(text));
        }
        if let Some(text) = check_links(nodes) {
            return Err(HarnessError::InvalidRequest(text));
        }
        if let Some(index) = find_cycle(nodes) {
            return Err(
                HarnessError::InvalidRequest(
                    join3(
                        "execution plan contains a dependency cycle involving node '",
                        nodes[index].id.as_str(),
                        "'",
                    ),
                ),
            );
        }
        if let Some(text) = check_sources(nodes) {
            return Err(HarnessError::InvalidRequest(text));
        }
        Ok(())
    }
}

/// In a valid plan no node depends on itself, and what is bound into a node comes from a
/// node that it depends on.
pub proof fn bindings_come_from_dependencies(
    nodes: Seq<PlanNode>,
    max_nodes: usize,
    index: int,
    binding: int,
)
    requires
        plan_valid(nodes, max_nodes),
        0 <= index < nodes.len(),
        0 <= binding < nodes[index].result_bindings@.len(),
    ensures
        !reaches(nodes, index, index),
        exists|source: int|
            0 <= source < nodes.len() && #[trigger] reaches(nodes, index, source)
                && nodes[source].id@ == nodes[index].result_bindings@[binding].source.node_id@
                && source != index,
{
    let count = nodes[index].result_bindings@.len();
    if all_sources_fault(nodes, (index + 1) as nat) is Some {
        all_sources_fault_stays(nodes, (index + 1) as nat, nodes.len());
    }
    if sources_fault(nodes, index, (binding + 1) as nat) is Some {
        sources_fault_stays(nodes, index, (binding + 1) as nat, count);
    }
    let source = nodes[index].result_bindings@[binding].source.node_id@;
    id_position_contains(node_ids(nodes), source, 0);
    let position = id_position(node_ids(nodes), source, 0)->0 as int;
    assert(reaches(nodes, index, position));
}

} // verus!
