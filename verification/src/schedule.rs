//! How the nodes of a plan are ordered into waves, and what their outcomes are called.

use crate::admission::{PreparedCall, PreparedModel};
use crate::agent::RunStatus;
use crate::error::HarnessError;
use crate::event::{PlanLifecycleOutcome, PlanNodeOutcome};
use crate::limits::check_view;
use crate::model::ModelCapabilities;
use crate::plan::{find_node, id_position, node_ids, PlanConcurrency, PlanNode};
use crate::registry::{find_tool, registered, RegisteredTool};
use crate::text::{byte_len, decimal, decimal_digits, join3, same_text, text_option, utf8_len};
use crate::tool::{ToolCall, ToolResult, ToolResultModel};
use vstd::prelude::*;

verus! {

/// Most tool calls of one plan at the same time.
pub const MAX_SCHEDULER_PARALLELISM: usize = 8;

/// Bytes that one plan execution may retain.
pub const MAX_PLAN_RETAINED_BYTES: u64 = 16_777_216;

/// Why a plan execution failed.
#[derive(Clone, Copy, Debug, PartialEq, Eq, Structural)]
pub enum PlanFailureKind {
    /// Before anything was executed.
    Preflight,
    /// In a way that another plan may make good.
    Recoverable,
    /// For good.
    Terminal,
}

/// Whether an error ends a run whatever else could be tried.
pub open spec fn terminal_failure<S>(error: HarnessError<S>) -> bool {
    error is Cancelled || error is TimedOut || error is ResourceLimit
}

/// Whether an error ends a run whatever else could be tried.
pub fn is_terminal_failure(error: &HarnessError) -> (result: bool)
    ensures
        result == terminal_failure(error@),
{
    matches!(error, HarnessError::Cancelled | HarnessError::TimedOut(_) | HarnessError::ResourceLimit(_))
}

/// Whether an error is a refusal: of the request, the tool, its arguments or its output, by
/// validation, policy or approval.
pub open spec fn refusal_error<S>(error: HarnessError<S>) -> bool {
    error is InvalidRequest || error is InvalidTool || error is InvalidArguments || error is Policy
        || error is Approval || error is InvalidOutput
}

fn is_refusal(error: &HarnessError) -> (result: bool)
    ensures
        result == refusal_error(error@),
{
    matches!(
        error,
        HarnessError::InvalidRequest(_) | HarnessError::InvalidTool(_)
            | HarnessError::InvalidArguments(_) | HarnessError::Policy(_)
            | HarnessError::Approval(_) | HarnessError::InvalidOutput(_)
    )
}

/// What an error is called in the life of a planning phase.
pub open spec fn lifecycle_of_error<S>(error: HarnessError<S>) -> PlanLifecycleOutcome {
    if error is Cancelled {
        PlanLifecycleOutcome::Cancelled
    } else if error is TimedOut {
        PlanLifecycleOutcome::TimedOut
    } else if error is ResourceLimit {
        PlanLifecycleOutcome::LimitReached
    } else if refusal_error(error) {
        PlanLifecycleOutcome::Rejected
    } else {
        PlanLifecycleOutcome::Failed
    }
}

/// What an error is called in the life of a planning phase.
pub fn lifecycle_outcome_for_error(error: &HarnessError) -> (result: PlanLifecycleOutcome)
    ensures
        result == lifecycle_of_error(error@),
{
    match error {
        HarnessError::Cancelled => PlanLifecycleOutcome::Cancelled,
        HarnessError::TimedOut(_) => PlanLifecycleOutcome::TimedOut,
        HarnessError::ResourceLimit(_) => PlanLifecycleOutcome::LimitReached,
        other => if is_refusal(other) {
            PlanLifecycleOutcome::Rejected
        } else {
            PlanLifecycleOutcome::Failed
        },
    }
}

/// What an error is called in the validation of an envelope.
pub open spec fn validation_of_error<S>(error: HarnessError<S>) -> PlanLifecycleOutcome {
    if error is InvalidOutput {
        PlanLifecycleOutcome::Invalid
    } else {
        lifecycle_of_error(error)
    }
}

/// What an error is called in the validation of an envelope.
pub fn validation_outcome_for_error(error: &HarnessError) -> (result: PlanLifecycleOutcome)
    ensures
        result == validation_of_error(error@),
{
    match error {
        HarnessError::InvalidOutput(_) => PlanLifecycleOutcome::Invalid,
        other => lifecycle_outcome_for_error(other),
    }
}

/// What the status of a run is called in the life of a planning phase.
pub open spec fn lifecycle_of_status(status: RunStatus) -> PlanLifecycleOutcome {
    match status {
        RunStatus::Completed => PlanLifecycleOutcome::Succeeded,
        RunStatus::Cancelled => PlanLifecycleOutcome::Cancelled,
        RunStatus::LimitReached => PlanLifecycleOutcome::LimitReached,
        RunStatus::Failed => PlanLifecycleOutcome::Failed,
    }
}

/// What the status of a run is called in the life of a planning phase.
pub fn lifecycle_outcome_for_status(status: RunStatus) -> (result: PlanLifecycleOutcome)
    ensures
        result == lifecycle_of_status(status),
{
    match status {
        RunStatus::Completed => PlanLifecycleOutcome::Succeeded,
        RunStatus::Cancelled => PlanLifecycleOutcome::Cancelled,
        RunStatus::LimitReached => PlanLifecycleOutcome::LimitReached,
        RunStatus::Failed => PlanLifecycleOutcome::Failed,
    }
}

/// What the outcome of a recovery plan's execution is called.
pub open spec fn recovery_of(failure: Option<PlanFailureKind>, status: RunStatus) -> PlanLifecycleOutcome {
    match failure {
        None => PlanLifecycleOutcome::Succeeded,
        Some(PlanFailureKind::Preflight) => PlanLifecycleOutcome::Rejected,
        Some(PlanFailureKind::Recoverable) => PlanLifecycleOutcome::Failed,
        Some(PlanFailureKind::Terminal) => lifecycle_of_status(status),
    }
}

/// What the outcome of a recovery plan's execution is called.
pub fn recovery_execution_outcome(failure: Option<PlanFailureKind>, status: RunStatus) -> (result:
    PlanLifecycleOutcome)
    ensures
        result == recovery_of(failure, status),
{
    match failure {
        None => PlanLifecycleOutcome::Succeeded,
        Some(PlanFailureKind::Preflight) => PlanLifecycleOutcome::Rejected,
        Some(PlanFailureKind::Recoverable) => PlanLifecycleOutcome::Failed,
        Some(PlanFailureKind::Terminal) => lifecycle_outcome_for_status(status),
    }
}

/// What an error is called as the outcome of a node.
pub open spec fn node_of_error<S>(error: HarnessError<S>) -> PlanNodeOutcome {
    if error is Cancelled {
        PlanNodeOutcome::Cancelled
    } else if error is TimedOut {
        PlanNodeOutcome::TimedOut
    } else if error is ResourceLimit {
        PlanNodeOutcome::LimitReached
    } else if refusal_error(error) {
        PlanNodeOutcome::Rejected
    } else {
        PlanNodeOutcome::Failed
    }
}

/// What an error is called as the outcome of a node.
pub fn node_outcome_for_error(error: &HarnessError) -> (result: PlanNodeOutcome)
    ensures
        result == node_of_error(error@),
{
    match error {
        HarnessError::Cancelled => PlanNodeOutcome::Cancelled,
        HarnessError::TimedOut(_) => PlanNodeOutcome::TimedOut,
        HarnessError::ResourceLimit(_) => PlanNodeOutcome::LimitReached,
        other => if is_refusal(other) {
            PlanNodeOutcome::Rejected
        } else {
            PlanNodeOutcome::Failed
        },
    }
}

/// What the status of a run is called as the outcome of a node.
pub open spec fn node_of_status(status: RunStatus) -> PlanNodeOutcome {
    match status {
        RunStatus::Completed => PlanNodeOutcome::Succeeded,
        RunStatus::Cancelled => PlanNodeOutcome::Cancelled,
        RunStatus::LimitReached => PlanNodeOutcome::LimitReached,
        RunStatus::Failed => PlanNodeOutcome::Failed,
    }
}

/// What the status of a run is called as the outcome of a node.
pub fn node_outcome_for_status(status: RunStatus) -> (result: PlanNodeOutcome)
    ensures
        result == node_of_status(status),
{
    match status {
        RunStatus::Completed => PlanNodeOutcome::Succeeded,
        RunStatus::Cancelled => PlanNodeOutcome::Cancelled,
        RunStatus::LimitReached => PlanNodeOutcome::LimitReached,
        RunStatus::Failed => PlanNodeOutcome::Failed,
    }
}

/// Calls that may run at the same time with this provider.
pub open spec fn parallelism(capabilities: ModelCapabilities) -> usize {
    if !capabilities.supports_parallel_tool_calls {
        1
    } else {
        match capabilities.limits.max_parallel_tool_calls {
            None => MAX_SCHEDULER_PARALLELISM,
            Some(limit) => if limit == 0 {
                1
            } else if limit as usize > MAX_SCHEDULER_PARALLELISM {
                MAX_SCHEDULER_PARALLELISM
            } else {
                limit as usize
            },
        }
    }
}

/// Calls that may run at the same time with this provider.
pub fn max_parallel_calls(capabilities: &ModelCapabilities) -> (result: usize)
    ensures
        result == parallelism(*capabilities),
        1 <= result <= MAX_SCHEDULER_PARALLELISM,
{
    if !capabilities.supports_parallel_tool_calls {
        return 1;
    }
    match capabilities.limits.max_parallel_tool_calls {
        None => MAX_SCHEDULER_PARALLELISM,
        Some(limit) => if limit == 0 {
            1
        } else if limit as usize > MAX_SCHEDULER_PARALLELISM {
            MAX_SCHEDULER_PARALLELISM
        } else {
            limit as usize
        },
    }
}

/// What a plan execution holds for a node.
pub enum NodeSlot {
    /// An admitted call that is not decided yet.
    Prepared(PreparedCall),
    /// A recorded effect that answers this call.
    Reused(ToolCall, ToolResult),
    /// A call that was handed to its tool.
    Dispatched(PreparedCall),
    /// Nothing more.
    Spent,
}

/// The model of a slot.
pub enum SlotModel {
    /// An admitted call that is not decided yet.
    Prepared(PreparedModel),
    /// A recorded effect that answers this call.
    Reused(ToolCall<Seq<char>>, ToolResultModel),
    /// A call that was handed to its tool.
    Dispatched(PreparedModel),
    /// Nothing more.
    Spent,
}

impl View for NodeSlot {
    type V = SlotModel;

    open spec fn view(&self) -> SlotModel {
        match self {
            NodeSlot::Prepared(prepared) => SlotModel::Prepared(prepared@),
            NodeSlot::Reused(call, result) => SlotModel::Reused(call@, result@),
            NodeSlot::Dispatched(prepared) => SlotModel::Dispatched(prepared@),
            NodeSlot::Spent => SlotModel::Spent,
        }
    }
}

/// The views of slots.
pub open spec fn slots_view(slots: Seq<NodeSlot>) -> Seq<SlotModel> {
    slots.map_values(|slot: NodeSlot| slot@)
}

/// Whether the node may run beside others.
pub open spec fn eligible(
    tools: Seq<RegisteredTool>,
    node: PlanNode,
    slot: SlotModel,
) -> bool {
    match slot {
        SlotModel::Reused(_, _) => true,
        SlotModel::Prepared(prepared) => {
            &&& node.concurrency == PlanConcurrency::ToolDefault
            &&& !node.approval_barrier
            &&& !node.commit_boundary
            &&& match registered(tools, prepared.call.tool_id) {
                Some(tool) => tool.definition.read_only && tool.definition.parallel_safe,
                None => false,
            }
        },
        _ => false,
    }
}

/// Whether the node may run beside others.
pub fn parallel_eligible(tools: &Vec<RegisteredTool>, node: &PlanNode, slot: &NodeSlot) -> (result:
    bool)
    ensures
        result == eligible(tools@, *node, slot@),
{
    match slot {
        NodeSlot::Reused(_, _) => true,
        NodeSlot::Prepared(prepared) => {
            let tool_allows = match find_tool(tools, prepared.call.tool_id.as_str()) {
                Some(tool) => tool.definition.read_only && tool.definition.parallel_safe,
                None => false,
            };
            node.concurrency == PlanConcurrency::ToolDefault && !node.approval_barrier
                && !node.commit_boundary && tool_allows
        },
        _ => false,
    }
}

/// Whether the node holds a call that changes nothing.
pub open spec fn reads_only(slot: SlotModel) -> bool {
    slot matches SlotModel::Prepared(prepared) && prepared.read_only
}

/// Whether the node holds a call that changes nothing.
pub fn prepared_node_is_read_only(slot: &NodeSlot) -> (result: bool)
    ensures
        result == reads_only(slot@),
{
    match slot {
        NodeSlot::Prepared(prepared) => prepared.read_only,
        _ => false,
    }
}

/// The key under which the node may not run beside another.
pub open spec fn slot_key(tools: Seq<RegisteredTool>, slot: SlotModel) -> Option<Seq<char>> {
    match slot {
        SlotModel::Prepared(prepared) => match registered(tools, prepared.call.tool_id) {
            Some(tool) => text_option(tool.definition.concurrency_key),
            None => None,
        },
        _ => None,
    }
}

/// Whether every dependency of a node has a result.
pub open spec fn dependencies_done(
    nodes: Seq<PlanNode>,
    done: Seq<bool>,
    index: int,
) -> bool {
    forall|k: int|
        0 <= k < nodes[index].depends_on@.len() ==> is_done(
            nodes,
            done,
            (#[trigger] nodes[index].depends_on@[k])@,
        )
}

/// Whether the node `id` has a result.
pub open spec fn is_done(nodes: Seq<PlanNode>, done: Seq<bool>, id: Seq<char>) -> bool {
    match id_position(node_ids(nodes), id, 0) {
        Some(position) => position < done.len() && done[position as int],
        None => false,
    }
}

/// Whether node `index` may run now.
pub open spec fn ready(nodes: Seq<PlanNode>, done: Seq<bool>, index: int) -> bool {
    !done[index] && dependencies_done(nodes, done, index)
}

/// The first `count` nodes that may run now and, where `reads` is set, change nothing.
pub open spec fn ready_nodes(
    nodes: Seq<PlanNode>,
    done: Seq<bool>,
    slots: Seq<SlotModel>,
    reads: bool,
    count: nat,
) -> Seq<usize>
    decreases count,
{
    if count == 0 || count > nodes.len() {
        Seq::empty()
    } else {
        let before = ready_nodes(nodes, done, slots, reads, (count - 1) as nat);
        if ready(nodes, done, count - 1) && (!reads || reads_only(slots[count - 1])) {
            before.push((count - 1) as usize)
        } else {
            before
        }
    }
}

/// The keys of the nodes of a wave.
pub open spec fn wave_keys(
    tools: Seq<RegisteredTool>,
    slots: Seq<SlotModel>,
    wave: Seq<usize>,
) -> Seq<Option<Seq<char>>> {
    wave.map_values(|index: usize| slot_key(tools, slots[index as int]))
}

/// The nodes that run beside each other, taken from the first `count` of those that may run.
pub open spec fn wave_of(
    nodes: Seq<PlanNode>,
    tools: Seq<RegisteredTool>,
    slots: Seq<SlotModel>,
    candidates: Seq<usize>,
    max_parallel: usize,
    count: nat,
) -> Seq<usize>
    decreases count,
{
    if count == 0 || count > candidates.len() {
        Seq::empty()
    } else {
        let before = wave_of(nodes, tools, slots, candidates, max_parallel, (count - 1) as nat);
        let index = candidates[count - 1];
        let key = slot_key(tools, slots[index as int]);
        if before.len() >= max_parallel || !eligible(tools, nodes[index as int], slots[index as int])
            || (key is Some && wave_keys(tools, slots, before).contains(key)) {
            before
        } else {
            before.push(index)
        }
    }
}

/// The next wave: the first candidate alone where it must run alone, else every candidate
/// that may run beside those before it.
pub open spec fn next_wave(
    nodes: Seq<PlanNode>,
    tools: Seq<RegisteredTool>,
    slots: Seq<SlotModel>,
    candidates: Seq<usize>,
    max_parallel: usize,
) -> Seq<usize> {
    let first = candidates[0];
    if !eligible(tools, nodes[first as int], slots[first as int]) {
        seq![first]
    } else {
        wave_of(nodes, tools, slots, candidates, max_parallel, candidates.len())
    }
}

/// Whether every dependency of a node has a result.
fn all_done(nodes: &Vec<PlanNode>, done: &Vec<bool>, index: usize) -> (result: bool)
    requires
        index < nodes@.len(),
    ensures
        result == dependencies_done(nodes@, done@, index as int),
{
    let mut k: usize = 0;
    while k < nodes[index].depends_on.len()
        invariant
            index < nodes@.len(),
            k <= nodes@[index as int].depends_on@.len(),
            forall|m: int|
                0 <= m < k ==> is_done(
                    nodes@,
                    done@,
                    (#[trigger] nodes@[index as int].depends_on@[m])@,
                ),
        decreases nodes@[index as int].depends_on@.len() - k,
    {
        let dependency = nodes[index].depends_on[k].as_str();
        let complete = match find_node(nodes, dependency) {
            Some(position) => position < done.len() && done[position],
            None => false,
        };
        if !complete {
            assert(!is_done(nodes@, done@, nodes@[index as int].depends_on@[k as int]@));
            return false;
        }
        k += 1;
    }
    true
}

/// The nodes that may run now and, where `reads` is set, change nothing.
pub fn find_ready(nodes: &Vec<PlanNode>, done: &Vec<bool>, slots: &Vec<NodeSlot>, reads: bool) -> (
result: Vec<usize>)
    requires
        nodes@.len() == done@.len(),
        nodes@.len() == slots@.len(),
    ensures
        result@ == ready_nodes(nodes@, done@, slots_view(slots@), reads, nodes@.len()),
        forall|k: int|
            0 <= k < result@.len() ==> (#[trigger] result@[k]) < nodes@.len() && ready(
                nodes@,
                done@,
                result@[k] as int,
            ) && (reads ==> reads_only(slots_view(slots@)[result@[k] as int])),
        forall|i: int, j: int| 0 <= i < j < result@.len() ==> result@[i] < result@[j],
{
    let mut result: Vec<usize> = Vec::new();
    let mut i: usize = 0;
    while i < nodes.len()
        invariant
            i <= nodes@.len(),
            nodes@.len() == done@.len(),
            nodes@.len() == slots@.len(),
            result@ == ready_nodes(nodes@, done@, slots_view(slots@), reads, i as nat),
            forall|k: int|
                0 <= k < result@.len() ==> (#[trigger] result@[k]) < i && ready(
                    nodes@,
                    done@,
                    result@[k] as int,
                ) && (reads ==> reads_only(slots_view(slots@)[result@[k] as int])),
            forall|a: int, b: int| 0 <= a < b < result@.len() ==> result@[a] < result@[b],
        decreases nodes@.len() - i,
    {
        assert(slots_view(slots@)[i as int] == slots@[i as int]@);
        if !done[i] && all_done(nodes, done, i) && (!reads || prepared_node_is_read_only(
            &slots[i],
        )) {
            result.push(i);
        }
        i += 1;
    }
    result
}

fn key_of<'a>(tools: &'a Vec<RegisteredTool>, slot: &NodeSlot) -> (result: Option<&'a String>)
    ensures
        match result {
            Some(key) => slot_key(tools@, slot@) == Some(key@),
            None => slot_key(tools@, slot@) is None,
        },
{
    match slot {
        NodeSlot::Prepared(prepared) => match find_tool(tools, prepared.call.tool_id.as_str()) {
            Some(tool) => match &tool.definition.concurrency_key {
                Some(key) => Some(key),
                None => None,
            },
            None => None,
        },
        _ => None,
    }
}

/// Whether a node of the wave has this key.
fn key_taken(
    tools: &Vec<RegisteredTool>,
    slots: &Vec<NodeSlot>,
    wave: &Vec<usize>,
    key: &String,
) -> (result: bool)
    requires
        forall|k: int| 0 <= k < wave@.len() ==> (#[trigger] wave@[k]) < slots@.len(),
    ensures
        result == wave_keys(tools@, slots_view(slots@), wave@).contains(Some(key@)),
{
    let ghost keys = wave_keys(tools@, slots_view(slots@), wave@);
    let mut k: usize = 0;
    while k < wave.len()
        invariant
            k <= wave@.len(),
            keys == wave_keys(tools@, slots_view(slots@), wave@),
            forall|m: int| 0 <= m < wave@.len() ==> (#[trigger] wave@[m]) < slots@.len(),
            forall|m: int| 0 <= m < k ==> #[trigger] keys[m] != Some(key@),
        decreases wave@.len() - k,
    {
        let index = wave[k];
        assert(slots_view(slots@)[index as int] == slots@[index as int]@);
        assert(keys[k as int] == slot_key(tools@, slots_view(slots@)[index as int]));
        if let Some(other) = key_of(tools, &slots[index]) {
            if same_text(other.as_str(), key.as_str()) {
                assert(keys[k as int] == Some(key@));
                return true;
            }
        }
        k += 1;
    }
    false
}

/// The next wave of a plan.
pub fn build_wave(
    nodes: &Vec<PlanNode>,
    tools: &Vec<RegisteredTool>,
    slots: &Vec<NodeSlot>,
    candidates: &Vec<usize>,
    max_parallel: usize,
) -> (wave: Vec<usize>)
    requires
        candidates@.len() > 0,
        max_parallel > 0,
        nodes@.len() == slots@.len(),
        forall|k: int| 0 <= k < candidates@.len() ==> (#[trigger] candidates@[k]) < nodes@.len(),
        forall|i: int, j: int| 0 <= i < j < candidates@.len() ==> candidates@[i] < candidates@[j],
    ensures
        forall|i: int, j: int| 0 <= i < j < wave@.len() ==> wave@[i] < wave@[j],
        wave@ == next_wave(nodes@, tools@, slots_view(slots@), candidates@, max_parallel),
        0 < wave@.len() <= max_parallel,
        forall|k: int| 0 <= k < wave@.len() ==> candidates@.contains(#[trigger] wave@[k]),
{
    let first = candidates[0];
    assert(slots_view(slots@)[first as int] == slots@[first as int]@);
    let mut wave: Vec<usize> = Vec::new();
    if !parallel_eligible(tools, &nodes[first], &slots[first]) {
        wave.push(first);
        assert(wave@ =~= seq![first]);
        assert(candidates@.contains(wave@[0]));
        return wave;
    }
    let mut i: usize = 0;
    while i < candidates.len()
        invariant
            i <= candidates@.len(),
            max_parallel > 0,
            nodes@.len() == slots@.len(),
            forall|k: int|
                0 <= k < candidates@.len() ==> (#[trigger] candidates@[k]) < nodes@.len(),
            wave@ == wave_of(
                nodes@,
                tools@,
                slots_view(slots@),
                candidates@,
                max_parallel,
                i as nat,
            ),
            wave@.len() <= max_parallel,
            forall|k: int| 0 <= k < wave@.len() ==> candidates@.contains(#[trigger] wave@[k]),
            forall|k: int| 0 <= k < wave@.len() ==> (#[trigger] wave@[k]) < slots@.len(),
            forall|a: int, b: int|
                0 <= a < b < candidates@.len() ==> candidates@[a] < candidates@[b],
            forall|a: int, b: int| 0 <= a < b < wave@.len() ==> wave@[a] < wave@[b],
            forall|a: int, b: int|
                0 <= a < wave@.len() && i <= b < candidates@.len() ==> wave@[a] < candidates@[b],
            i == 0 ==> wave@.len() == 0,
            i > 0 ==> wave@.len() > 0,
            eligible(
                tools@,
                nodes@[candidates@[0] as int],
                slots_view(slots@)[candidates@[0] as int],
            ),
        decreases candidates@.len() - i,
    {
        let index = candidates[i];
        assert(slots_view(slots@)[index as int] == slots@[index as int]@);
        let mut fits = wave.len() < max_parallel && parallel_eligible(
            tools,
            &nodes[index],
            &slots[index],
        );
        if fits {
            if let Some(key) = key_of(tools, &slots[index]) {
                if key_taken(tools, slots, &wave, key) {
                    fits = false;
                }
            }
        }
        if fits {
            wave.push(index);
            assert(candidates@.contains(index));
        }
        i += 1;
    }
    wave
}

/// Nodes of one wave are among the candidates, no more than may run beside each other, and no
/// two of them share a key.
pub proof fn waves_never_share_keys(
    nodes: Seq<PlanNode>,
    tools: Seq<RegisteredTool>,
    slots: Seq<SlotModel>,
    candidates: Seq<usize>,
    max_parallel: usize,
)
    requires
        candidates.len() > 0,
        max_parallel > 0,
    ensures
        ({
            let wave = next_wave(nodes, tools, slots, candidates, max_parallel);
            &&& wave.len() <= max_parallel
            &&& forall|k: int| 0 <= k < wave.len() ==> candidates.contains(#[trigger] wave[k])
            &&& forall|i: int, j: int|
                0 <= i < j < wave.len() && slot_key(
                    tools,
                    slots[(#[trigger] wave[i]) as int],
                ) is Some ==> slot_key(tools, slots[wave[i] as int]) != slot_key(
                    tools,
                    slots[(#[trigger] wave[j]) as int],
                )
        }),
{
    let first = candidates[0];
    if eligible(tools, nodes[first as int], slots[first as int]) {
        wave_keys_differ(nodes, tools, slots, candidates, max_parallel, candidates.len());
    } else {
        assert(candidates.contains(first));
    }
}

proof fn wave_keys_differ(
    nodes: Seq<PlanNode>,
    tools: Seq<RegisteredTool>,
    slots: Seq<SlotModel>,
    candidates: Seq<usize>,
    max_parallel: usize,
    count: nat,
)
    requires
        count <= candidates.len(),
    ensures
        ({
            let wave = wave_of(nodes, tools, slots, candidates, max_parallel, count);
            &&& wave.len() <= max_parallel
            &&& forall|k: int| 0 <= k < wave.len() ==> candidates.contains(#[trigger] wave[k])
            &&& forall|i: int, j: int|
                0 <= i < j < wave.len() && slot_key(
                    tools,
                    slots[(#[trigger] wave[i]) as int],
                ) is Some ==> slot_key(tools, slots[wave[i] as int]) != slot_key(
                    tools,
                    slots[(#[trigger] wave[j]) as int],
                )
        }),
    decreases count,
{
    if count > 0 {
        wave_keys_differ(nodes, tools, slots, candidates, max_parallel, (count - 1) as nat);
        let before = wave_of(nodes, tools, slots, candidates, max_parallel, (count - 1) as nat);
        let wave = wave_of(nodes, tools, slots, candidates, max_parallel, count);
        let keys = wave_keys(tools, slots, before);
        let index = candidates[count - 1];
        assert(candidates.contains(index));
        if wave != before {
            assert(wave == before.push(index));
            assert forall|i: int, j: int|
                0 <= i < j < wave.len() && slot_key(
                    tools,
                    slots[(#[trigger] wave[i]) as int],
                ) is Some implies slot_key(tools, slots[wave[i] as int]) != slot_key(
                tools,
                slots[(#[trigger] wave[j]) as int],
            ) by {
                if j == before.len() {
                    assert(keys[i] == slot_key(tools, slots[wave[i] as int]));
                    if slot_key(tools, slots[wave[i] as int]) == slot_key(
                        tools,
                        slots[wave[j] as int],
                    ) {
                        assert(keys.contains(slot_key(tools, slots[index as int])));
                    }
                } else {
                    assert(wave[i] == before[i] && wave[j] == before[j]);
                }
            }
        }
    }
}

/// Bytes that a call and a result of this size take in a transcript.
pub open spec fn entry_bytes(call: ToolCall<Seq<char>>, result_bytes: nat) -> nat {
    2 * utf8_len(call.id) + utf8_len(call.tool_id) + utf8_len(call.arguments_json) + result_bytes
}

/// The most that a call can take in a transcript, as far as a counter can tell.
pub open spec fn most_entry_bytes(call: ToolCall<Seq<char>>, max_tool_result_bytes: u64) -> u64 {
    let bytes = entry_bytes(call, max_tool_result_bytes as nat);
    if bytes > u64::MAX {
        u64::MAX
    } else {
        bytes as u64
    }
}

/// The most that a call can take in a transcript.
pub fn maximum_plan_entry_bytes(call: &ToolCall, max_tool_result_bytes: u64) -> (result: u64)
    ensures
        result == most_entry_bytes(call@, max_tool_result_bytes),
{
    let id_bytes: u64 = byte_len(call.id.as_str()) as u64;
    id_bytes.saturating_add(id_bytes).saturating_add(
        byte_len(call.tool_id.as_str()) as u64,
    ).saturating_add(byte_len(call.arguments_json.as_str()) as u64).saturating_add(
        max_tool_result_bytes,
    )
}

/// How many of the first `count` calls fit the budget in the worst case, and the bytes that
/// they may then take.
pub open spec fn permitted(
    calls: Seq<ToolCall<Seq<char>>>,
    retained: u64,
    budget: u64,
    max_tool_result_bytes: u64,
    count: nat,
) -> (nat, u64)
    decreases count,
{
    if count == 0 || count > calls.len() {
        (0, retained)
    } else {
        let (fitting, bytes) = permitted(
            calls,
            retained,
            budget,
            max_tool_result_bytes,
            (count - 1) as nat,
        );
        let next = bytes + most_entry_bytes(calls[count - 1], max_tool_result_bytes);
        if fitting < count - 1 || next > budget {
            (fitting, bytes)
        } else {
            (count, next as u64)
        }
    }
}

/// The bytes retained with one more entry.
pub open spec fn reserved(
    retained: u64,
    budget: u64,
    call: ToolCall<Seq<char>>,
    result: ToolResultModel,
) -> Result<u64, HarnessError<Seq<char>>> {
    let next = retained + entry_bytes(call, utf8_len(result.json_text()));
    if next > u64::MAX {
        Err(HarnessError::ResourceLimit("plan result budget overflow"@))
    } else if next > budget {
        Err(
            HarnessError::ResourceLimit(
                "aggregate plan results exceed "@ + decimal_digits(budget as nat) + " bytes"@,
            ),
        )
    } else {
        Ok(next as u64)
    }
}

fn overflow_error() -> (result: HarnessError)
    ensures
        result@ == HarnessError::ResourceLimit("plan result budget overflow"@),
{
    HarnessError::ResourceLimit("plan result budget overflow".to_owned())
}

/// Reserves the bytes of one more entry.
pub fn reserve_plan_entry(retained: &mut u64, budget: u64, call: &ToolCall, result: &ToolResult) -> (
answer: Result<(), HarnessError>)
    ensures
        match reserved(*old(retained), budget, call@, result@) {
            Ok(next) => answer is Ok && *final(retained) == next,
            Err(error) => check_view(answer) == Err::<(), HarnessError<Seq<char>>>(error)
                && *final(retained) == *old(retained),
        },
{
    let id_bytes: u64 = byte_len(call.id.as_str()) as u64;
    let text = result.to_json_text();
    let mut next: Option<u64> = id_bytes.checked_add(id_bytes);
    if let Some(bytes) = next {
        next = bytes.checked_add(byte_len(call.tool_id.as_str()) as u64);
    }
    if let Some(bytes) = next {
        next = bytes.checked_add(byte_len(call.arguments_json.as_str()) as u64);
    }
    if let Some(bytes) = next {
        next = bytes.checked_add(byte_len(text.as_str()) as u64);
    }
    if let Some(bytes) = next {
        next = (*retained).checked_add(bytes);
    }
    match next {
        None => Err(overflow_error()),
        Some(bytes) => {
            if bytes > budget {
                let digits = decimal(budget);
                return Err(
                    HarnessError::ResourceLimit(
                        join3("aggregate plan results exceed ", digits.as_str(), " bytes"),
                    ),
                );
            }
            *retained = bytes;
            Ok(())
        },
    }
}

/// What is retained never exceeds the budget, once it is within it.
pub proof fn retained_bytes_stay_bounded(
    retained: u64,
    budget: u64,
    call: ToolCall<Seq<char>>,
    result: ToolResultModel,
)
    requires
        retained <= budget,
    ensures
        reserved(retained, budget, call, result) matches Ok(next) ==> retained <= next <= budget,
{
}

/// The calls that are let through stay within the budget even in the worst case.
pub proof fn permitted_calls_fit(
    calls: Seq<ToolCall<Seq<char>>>,
    retained: u64,
    budget: u64,
    max_tool_result_bytes: u64,
    count: nat,
)
    requires
        retained <= budget,
        count <= calls.len(),
    ensures
        ({
            let (fitting, bytes) = permitted(calls, retained, budget, max_tool_result_bytes, count);
            fitting <= count && retained <= bytes <= budget
        }),
    decreases count,
{
    if count > 0 {
        permitted_calls_fit(calls, retained, budget, max_tool_result_bytes, (count - 1) as nat);
    }
}

} // verus!
