//! The choice of the tools that one caller of one run gets to see.

use crate::discovery::{EffectiveLimits, ToolDiscoveryLimits, ToolExposure};
use crate::error::HarnessError;
use crate::event::{RunEvent, ToolDiscoveryOutcome, ToolDiscoverySelection};
use crate::guard::{ask_at, stops};
use crate::model::ProviderCapabilityLimits;
use crate::ranking::{
    selected_are_candidates, selected_tools, selection, RankedModel, RankedSelection,
};
use crate::registry::{find_tool, position_from, registered, RegisteredTool, ToolScope};
use crate::text::{same_text, texts};
use crate::tool::ToolCaller;
use crate::tool_registry::{RegistryModel, ToolRegistry};
use vstd::prelude::*;

verus! {

/// How a selection went, without any content.
#[derive(Clone, Copy, Debug, PartialEq, Eq, Structural)]
pub struct ToolDiscoveryStats {
    /// Whether a scope was selected.
    pub outcome: ToolDiscoveryOutcome,
    /// How it was selected.
    pub selection: ToolDiscoverySelection,
    /// Allowed tools that the caller may use.
    pub candidate_count: u32,
    /// Tools selected.
    pub selected_count: u32,
    /// Candidates configured as deferred.
    pub deferred_candidate_count: u32,
    /// Maximum tools of the scope.
    pub effective_tool_count_budget: u32,
    /// Maximum bytes of the scope's definitions.
    pub effective_schema_byte_budget: u64,
    /// Bytes of the definitions selected, or required where they are too many.
    pub selected_schema_bytes: u64,
    /// Deferred candidates that a lexical match let in.
    pub expansion_count: u32,
    /// Maximum of those.
    pub expansion_limit: u32,
    /// Whether the candidates together exceeded the budget.
    pub catalog_exceeded_budget: bool,
    /// Whether the index of the catalog was at hand.
    pub cache_hit: bool,
    /// How long the selection took.
    pub duration_ms: u64,
}

impl ToolDiscoveryStats {
    /// The event that reports a selection.
    pub open spec fn reported(self, caller: ToolCaller) -> RunEvent<Seq<char>> {
        RunEvent::ToolDiscoveryCompleted {
            caller,
            outcome: self.outcome,
            selection: self.selection,
            candidate_count: self.candidate_count,
            selected_count: self.selected_count,
            deferred_candidate_count: self.deferred_candidate_count,
            effective_tool_count_budget: self.effective_tool_count_budget,
            effective_schema_byte_budget: self.effective_schema_byte_budget,
            selected_schema_bytes: self.selected_schema_bytes,
            expansion_count: self.expansion_count,
            expansion_limit: self.expansion_limit,
            catalog_exceeded_budget: self.catalog_exceeded_budget,
            duration_ms: self.duration_ms,
        }
    }

    /// The event that reports a selection.
    pub fn to_event(&self, caller: ToolCaller) -> (event: RunEvent)
        ensures
            event@ == self.reported(caller),
    {
        RunEvent::ToolDiscoveryCompleted {
            caller,
            outcome: self.outcome,
            selection: self.selection,
            candidate_count: self.candidate_count,
            selected_count: self.selected_count,
            deferred_candidate_count: self.deferred_candidate_count,
            effective_tool_count_budget: self.effective_tool_count_budget,
            effective_schema_byte_budget: self.effective_schema_byte_budget,
            selected_schema_bytes: self.selected_schema_bytes,
            expansion_count: self.expansion_count,
            expansion_limit: self.expansion_limit,
            catalog_exceeded_budget: self.catalog_exceeded_budget,
            duration_ms: self.duration_ms,
        }
    }

    /// The report with the time that the selection took.
    pub fn with_duration(self, duration_ms: u64) -> (result: ToolDiscoveryStats)
        ensures
            result == (ToolDiscoveryStats { duration_ms, ..self }),
    {
        ToolDiscoveryStats { duration_ms, ..self }
    }
}

/// What a selection came to.
pub enum ToolScopeSelection {
    /// A scope was selected.
    Selected(ToolScope, ToolDiscoveryStats),
    /// The tools that must be in the scope exceed its budget; whether exact matches are among
    /// them.
    LimitReached(ToolDiscoveryStats, bool),
}

/// The model of a selection.
pub enum ScopeModel {
    /// A scope of these tools was selected.
    Selected(Seq<Seq<char>>, ToolDiscoveryStats),
    /// The tools that must be in the scope exceed its budget; whether exact matches are among
    /// them.
    LimitReached(ToolDiscoveryStats, bool),
}

/// Where the tool of an allowed identifier is registered, if the caller may use it.
pub open spec fn usable(tools: Seq<RegisteredTool>, id: Seq<char>, caller: ToolCaller) -> Option<
    usize,
> {
    match position_from(tools, id, 0) {
        Some(position) => if tools[position as int].definition.permits(caller) {
            Some(position as usize)
        } else {
            None
        },
        None => None,
    }
}

/// The candidates among the first `count` allowed identifiers.
pub open spec fn candidates_of(
    tools: Seq<RegisteredTool>,
    allowlist: Seq<Seq<char>>,
    caller: ToolCaller,
    count: nat,
) -> Seq<usize>
    decreases count,
{
    if count == 0 || count > allowlist.len() {
        Seq::empty()
    } else {
        let before = candidates_of(tools, allowlist, caller, (count - 1) as nat);
        match usable(tools, allowlist[count - 1], caller) {
            Some(position) => before.push(position),
            None => before,
        }
    }
}

/// How many of the first `count` candidates are deferred.
pub open spec fn deferred_count(
    tools: Seq<RegisteredTool>,
    candidates: Seq<usize>,
    count: nat,
) -> nat
    decreases count,
{
    if count == 0 || count > candidates.len() {
        0
    } else {
        deferred_count(tools, candidates, (count - 1) as nat) + (
        if tools[candidates[count - 1] as int].metadata.exposure == ToolExposure::Deferred {
            1nat
        } else {
            0nat
        })
    }
}

/// The marked ones of the first `count` candidates.
pub open spec fn kept(candidates: Seq<usize>, marks: Seq<bool>, count: nat) -> Seq<usize>
    decreases count,
{
    if count == 0 || count > candidates.len() {
        Seq::empty()
    } else {
        let before = kept(candidates, marks, (count - 1) as nat);
        if marks[candidates[count - 1] as int] {
            before.push(candidates[count - 1])
        } else {
            before
        }
    }
}

/// Bytes of the first `count` serialized definitions.
pub open spec fn element_bytes(tools: Seq<RegisteredTool>, chosen: Seq<usize>, count: nat) -> nat
    decreases count,
{
    if count == 0 || count > chosen.len() {
        0
    } else {
        element_bytes(tools, chosen, (count - 1) as nat) + tools[chosen[count
            - 1] as int].serialized_bytes as nat
    }
}

/// Bytes of a serialized definition array: brackets, elements and the commas between them.
pub open spec fn array_bytes(tools: Seq<RegisteredTool>, chosen: Seq<usize>) -> nat {
    element_bytes(tools, chosen, chosen.len()) + (if chosen.len() > 0 {
        (chosen.len() - 1) as nat
    } else {
        0
    }) + 2
}

/// Whether a scope of these tools stays within the limits.
pub open spec fn within(
    tools: Seq<RegisteredTool>,
    chosen: Seq<usize>,
    limits: EffectiveLimits,
) -> bool {
    chosen.len() <= limits.max_tools && array_bytes(tools, chosen) <= limits.max_bytes
}

/// The error of a catalog whose size cannot be counted.
pub open spec fn accounting_error() -> HarnessError<Seq<char>> {
    HarnessError::ResourceLimit("tool catalog serialized byte accounting overflowed"@)
}

/// Whether the size of a definition array can be counted.
pub open spec fn countable(tools: Seq<RegisteredTool>, chosen: Seq<usize>) -> bool {
    array_bytes(tools, chosen) <= u64::MAX
}

/// The tools that are in every scope.
pub open spec fn hot_marks(tools: Seq<RegisteredTool>) -> Seq<bool> {
    tools.map_values(|tool: RegisteredTool| tool.metadata.exposure == ToolExposure::Hot)
}

/// Marks with the first `count` tools of a list added.
pub open spec fn with_marks(marks: Seq<bool>, list: Seq<usize>, count: nat) -> Seq<bool>
    decreases count,
{
    if count == 0 || count > list.len() {
        marks
    } else {
        with_marks(marks, list, (count - 1) as nat).update(list[count - 1] as int, true)
    }
}

/// Marks with those of the first `count` tools of a list added that still fit, one after the
/// other, and how many did.
pub open spec fn expanded(
    tools: Seq<RegisteredTool>,
    candidates: Seq<usize>,
    marks: Seq<bool>,
    list: Seq<usize>,
    limits: EffectiveLimits,
    count: nat,
) -> Result<(Seq<bool>, nat), HarnessError<Seq<char>>>
    decreases count,
{
    if count == 0 || count > list.len() {
        Ok((marks, 0))
    } else {
        match expanded(tools, candidates, marks, list, limits, (count - 1) as nat) {
            Err(error) => Err(error),
            Ok((before, admitted)) => {
                let next = before.update(list[count - 1] as int, true);
                let chosen = kept(candidates, next, candidates.len());
                if !countable(tools, chosen) {
                    Err(accounting_error())
                } else if within(tools, chosen, limits) {
                    Ok((next, admitted + 1))
                } else {
                    Ok((before, admitted))
                }
            },
        }
    }
}

/// The identifiers of chosen tools.
pub open spec fn chosen_ids(tools: Seq<RegisteredTool>, chosen: Seq<usize>) -> Seq<Seq<char>> {
    chosen.map_values(|index: usize| tools[index as int].definition.id@)
}

/// A report on candidates of which nothing was selected yet.
pub open spec fn base_stats(
    tools: Seq<RegisteredTool>,
    candidates: Seq<usize>,
    limits: EffectiveLimits,
) -> ToolDiscoveryStats {
    ToolDiscoveryStats {
        outcome: ToolDiscoveryOutcome::Selected,
        selection: if candidates.len() == 0 {
            ToolDiscoverySelection::EmptyCatalog
        } else {
            ToolDiscoverySelection::NoCapacity
        },
        candidate_count: candidates.len() as u32,
        selected_count: 0,
        deferred_candidate_count: deferred_count(tools, candidates, candidates.len()) as u32,
        effective_tool_count_budget: limits.max_tools,
        effective_schema_byte_budget: limits.max_bytes,
        selected_schema_bytes: 0,
        expansion_count: 0,
        expansion_limit: limits.max_expansion,
        catalog_exceeded_budget: false,
        cache_hit: false,
        duration_ms: 0,
    }
}

/// A report on tools that must be in the scope and exceed its budget.
pub open spec fn limit_stats(
    tools: Seq<RegisteredTool>,
    base: ToolDiscoveryStats,
    required: Seq<usize>,
    limits: EffectiveLimits,
) -> ToolDiscoveryStats {
    ToolDiscoveryStats {
        outcome: ToolDiscoveryOutcome::LimitReached,
        selection: if required.len() > limits.max_tools {
            ToolDiscoverySelection::CountLimit
        } else {
            ToolDiscoverySelection::SchemaByteLimit
        },
        selected_schema_bytes: array_bytes(tools, required) as u64,
        ..base
    }
}

/// A report on a selected scope.
pub open spec fn selected_stats(
    tools: Seq<RegisteredTool>,
    base: ToolDiscoveryStats,
    category: ToolDiscoverySelection,
    chosen: Seq<usize>,
    admitted: nat,
) -> ToolDiscoveryStats {
    ToolDiscoveryStats {
        selection: category,
        selected_count: chosen.len() as u32,
        selected_schema_bytes: array_bytes(tools, chosen) as u64,
        expansion_count: admitted as u32,
        ..base
    }
}

/// The scope that a ranked query leads to, where the catalog does not fit as a whole.
pub open spec fn narrowed_scope(
    tools: Seq<RegisteredTool>,
    candidates: Seq<usize>,
    ranked: RankedModel,
    limits: EffectiveLimits,
    base: ToolDiscoveryStats,
) -> Result<ScopeModel, HarnessError<Seq<char>>> {
    let all = candidates.len();
    let hot = kept(candidates, hot_marks(tools), all);
    if !countable(tools, hot) {
        Err(accounting_error())
    } else if !within(tools, hot, limits) {
        Ok(ScopeModel::LimitReached(limit_stats(tools, base, hot, limits), false))
    } else {
        match ranked {
            RankedModel::Exact(list) => {
                let exact = kept(candidates, with_marks(hot_marks(tools), list, list.len()), all);
                if !countable(tools, exact) {
                    Err(accounting_error())
                } else if !within(tools, exact, limits) {
                    Ok(ScopeModel::LimitReached(limit_stats(tools, base, exact, limits), true))
                } else {
                    Ok(
                        ScopeModel::Selected(
                            chosen_ids(tools, exact),
                            selected_stats(
                                tools,
                                base,
                                if list.len() > 0 {
                                    ToolDiscoverySelection::Exact
                                } else {
                                    ToolDiscoverySelection::HotOnly
                                },
                                exact,
                                0,
                            ),
                        ),
                    )
                }
            },
            RankedModel::Lexical(list, confident) => match expanded(
                tools,
                candidates,
                hot_marks(tools),
                list,
                limits,
                list.len(),
            ) {
                Err(error) => Err(error),
                Ok((marks, admitted)) => {
                    let chosen = kept(candidates, marks, all);
                    Ok(
                        ScopeModel::Selected(
                            chosen_ids(tools, chosen),
                            selected_stats(
                                tools,
                                base,
                                lexical_category(list.len(), admitted, confident),
                                chosen,
                                admitted,
                            ),
                        ),
                    )
                },
            },
        }
    }
}

/// How a lexical match selected.
pub open spec fn lexical_category(
    matches: nat,
    admitted: nat,
    confident: bool,
) -> ToolDiscoverySelection {
    if matches == 0 {
        ToolDiscoverySelection::NoMatch
    } else if admitted == 0 {
        ToolDiscoverySelection::HotOnly
    } else if confident {
        ToolDiscoverySelection::LexicalConfident
    } else {
        ToolDiscoverySelection::LexicalExpanded
    }
}

/// Whether the candidates have to be narrowed: there is room for some of them and not for
/// all.
pub open spec fn must_narrow(
    tools: Seq<RegisteredTool>,
    candidates: Seq<usize>,
    limits: EffectiveLimits,
) -> bool {
    limits.max_tools > 0 && limits.max_bytes >= 2 && candidates.len() > 0 && countable(
        tools,
        candidates,
    ) && !within(tools, candidates, limits)
}

/// The scope of a caller: all candidates where they fit, else the hot ones and those that the
/// query selects.
pub open spec fn scope_of(
    registry: RegistryModel,
    query: Seq<char>,
    allowlist: Seq<Seq<char>>,
    caller: ToolCaller,
    limits: EffectiveLimits,
) -> Result<ScopeModel, HarnessError<Seq<char>>> {
    let tools = registry.tools;
    let candidates = candidates_of(tools, allowlist, caller, allowlist.len());
    let base = base_stats(tools, candidates, limits);
    if limits.max_tools == 0 || limits.max_bytes < 2 || candidates.len() == 0 {
        Ok(ScopeModel::Selected(Seq::empty(), base))
    } else if !countable(tools, candidates) {
        Err(accounting_error())
    } else if within(tools, candidates, limits) {
        Ok(
            ScopeModel::Selected(
                chosen_ids(tools, candidates),
                selected_stats(
                    tools,
                    base,
                    ToolDiscoverySelection::FullCatalog,
                    candidates,
                    0,
                ),
            ),
        )
    } else {
        narrowed_scope(
            tools,
            candidates,
            selection(tools, candidates, query, limits.max_expansion as usize),
            limits,
            ToolDiscoveryStats {
                catalog_exceeded_budget: true,
                cache_hit: registry.warm,
                ..base
            },
        )
    }
}

/// The view of a selection for a caller.
pub open spec fn scope_view(
    result: Result<ToolScopeSelection, HarnessError>,
    caller: ToolCaller,
    model: Result<ScopeModel, HarnessError<Seq<char>>>,
) -> bool {
    match (result, model) {
        (Ok(ToolScopeSelection::Selected(scope, stats)), Ok(ScopeModel::Selected(ids, told))) =>
            texts(scope.tool_ids@) == ids && scope.caller == caller && stats == told,
        (
            Ok(ToolScopeSelection::LimitReached(stats, exact)),
            Ok(ScopeModel::LimitReached(told, named)),
        ) => stats == told && exact == named,
        (Err(error), Err(told)) => error@ == told,
        _ => false,
    }
}

fn find_position(tools: &Vec<RegisteredTool>, id: &str) -> (result: Option<usize>)
    ensures
        match result {
            Some(position) => position_from(tools@, id@, 0) == Some(position as nat) && position
                < tools@.len(),
            None => position_from(tools@, id@, 0) is None,
        },
{
    let mut i: usize = 0;
    while i < tools.len()
        invariant
            i <= tools@.len(),
            position_from(tools@, id@, 0) == position_from(tools@, id@, i as nat),
        decreases tools@.len() - i,
    {
        if same_text(tools[i].definition.id.as_str(), id) {
            return Some(i);
        }
        i += 1;
    }
    None
}

/// Whether positions are those of tools.
pub open spec fn in_range(tools: Seq<RegisteredTool>, list: Seq<usize>) -> bool {
    forall|k: int| 0 <= k < list.len() ==> (#[trigger] list[k]) < tools.len()
}

fn allowed_catalog_guarded<G: Fn() -> Result<(), HarnessError>>(
    tools: &Vec<RegisteredTool>,
    allowlist: &Vec<String>,
    caller: ToolCaller,
    guard: &G,
) -> (result: Result<Vec<usize>, HarnessError>)
    requires
        call_requires(*guard, ()),
    ensures
        match result {
            Ok(candidates) => candidates@ == candidates_of(
                tools@,
                texts(allowlist@),
                caller,
                allowlist@.len(),
            ) && in_range(tools@, candidates@),
            Err(error) => stops(*guard, error),
        },
{
    let ghost ids = texts(allowlist@);
    let mut result: Vec<usize> = Vec::new();
    let mut i: usize = 0;
    while i < allowlist.len()
        invariant
            call_requires(*guard, ()),
            i <= allowlist@.len(),
            ids == texts(allowlist@),
            result@ == candidates_of(tools@, ids, caller, i as nat),
            in_range(tools@, result@),
        decreases allowlist@.len() - i,
    {
        if let Err(error) = ask_at(guard, i) {
            return Err(error);
        }
        assert(ids[i as int] == allowlist@[i as int]@);
        if let Some(position) = find_position(tools, allowlist[i].as_str()) {
            if tools[position].definition.allows_caller(caller) {
                result.push(position);
            }
        }
        i += 1;
    }
    Ok(result)
}

/// Where the allowed tools that a caller may use are registered, in the order of the allowlist.
pub fn allowed_catalog(tools: &Vec<RegisteredTool>, allowlist: &Vec<String>, caller: ToolCaller) -> (
result: Vec<usize>)
    ensures
        result@ == candidates_of(tools@, texts(allowlist@), caller, allowlist@.len()),
        in_range(tools@, result@),
{
    let patient = || -> (answer: Result<(), HarnessError>)
        ensures
            answer is Ok,
        { Ok(()) };
    match allowed_catalog_guarded(tools, allowlist, caller, &patient) {
        Ok(candidates) => candidates,
        Err(_) => Vec::new(),
    }
}

fn count_deferred(tools: &Vec<RegisteredTool>, candidates: &Vec<usize>) -> (count: usize)
    requires
        in_range(tools@, candidates@),
    ensures
        count == deferred_count(tools@, candidates@, candidates@.len()),
{
    let mut count: usize = 0;
    let mut i: usize = 0;
    while i < candidates.len()
        invariant
            i <= candidates@.len(),
            count <= i,
            in_range(tools@, candidates@),
            count == deferred_count(tools@, candidates@, i as nat),
        decreases candidates@.len() - i,
    {
        if tools[candidates[i]].metadata.exposure == ToolExposure::Deferred {
            count += 1;
        }
        i += 1;
    }
    count
}

proof fn element_bytes_grow(tools: Seq<RegisteredTool>, chosen: Seq<usize>, count: nat, longer: nat)
    requires
        count <= longer <= chosen.len(),
    ensures
        element_bytes(tools, chosen, count) <= element_bytes(tools, chosen, longer),
    decreases longer - count,
{
    if count < longer {
        element_bytes_grow(tools, chosen, count, (longer - 1) as nat);
    }
}

/// The size of a definition array, where it can be counted.
pub fn measure(tools: &Vec<RegisteredTool>, chosen: &Vec<usize>) -> (result: Result<
    u64,
    HarnessError,
>)
    requires
        in_range(tools@, chosen@),
    ensures
        match result {
            Ok(bytes) => bytes == array_bytes(tools@, chosen@) && countable(tools@, chosen@),
            Err(error) => error@ == accounting_error() && !countable(tools@, chosen@),
        },
{
    let mut total: Option<u64> = Some(0);
    let mut i: usize = 0;
    while i < chosen.len()
        invariant
            i <= chosen@.len(),
            in_range(tools@, chosen@),
            match total {
                Some(bytes) => bytes == element_bytes(tools@, chosen@, i as nat),
                None => element_bytes(tools@, chosen@, i as nat) > u64::MAX,
            },
        decreases chosen@.len() - i,
    {
        proof {
            element_bytes_grow(tools@, chosen@, i as nat, (i + 1) as nat);
        }
        if let Some(bytes) = total {
            total = bytes.checked_add(tools[chosen[i]].serialized_bytes);
        }
        i += 1;
    }
    let commas: u64 = if chosen.len() > 0 {
        (chosen.len() - 1) as u64
    } else {
        0
    };
    if let Some(bytes) = total {
        if let Some(bytes) = bytes.checked_add(commas) {
            if let Some(bytes) = bytes.checked_add(2) {
                return Ok(bytes);
            }
        }
    }
    Err(
        HarnessError::ResourceLimit(
            "tool catalog serialized byte accounting overflowed".to_owned(),
        ),
    )
}

fn keep(candidates: &Vec<usize>, marks: &Vec<bool>, Ghost(tools): Ghost<Seq<RegisteredTool>>) -> (
result: Vec<usize>)
    requires
        in_range(tools, candidates@),
        marks@.len() == tools.len(),
    ensures
        result@ == kept(candidates@, marks@, candidates@.len()),
        in_range(tools, result@),
{
    let mut result: Vec<usize> = Vec::new();
    let mut i: usize = 0;
    while i < candidates.len()
        invariant
            i <= candidates@.len(),
            in_range(tools, candidates@),
            marks@.len() == tools.len(),
            result@ == kept(candidates@, marks@, i as nat),
            in_range(tools, result@),
        decreases candidates@.len() - i,
    {
        if marks[candidates[i]] {
            result.push(candidates[i]);
        }
        i += 1;
    }
    result
}

fn mark_hot(tools: &Vec<RegisteredTool>) -> (marks: Vec<bool>)
    ensures
        marks@ == hot_marks(tools@),
{
    let mut marks: Vec<bool> = Vec::new();
    let mut i: usize = 0;
    while i < tools.len()
        invariant
            i <= tools@.len(),
            marks@.len() == i,
            forall|j: int|
                0 <= j < i ==> (#[trigger] marks@[j]) == (tools@[j].metadata.exposure
                    == ToolExposure::Hot),
        decreases tools@.len() - i,
    {
        marks.push(tools[i].metadata.exposure == ToolExposure::Hot);
        i += 1;
    }
    assert(marks@ =~= hot_marks(tools@));
    marks
}

fn scope_for(tools: &Vec<RegisteredTool>, chosen: &Vec<usize>, caller: ToolCaller) -> (scope:
    ToolScope)
    requires
        in_range(tools@, chosen@),
    ensures
        texts(scope.tool_ids@) == chosen_ids(tools@, chosen@),
        scope.caller == caller,
{
    let mut tool_ids: Vec<String> = Vec::new();
    let mut i: usize = 0;
    while i < chosen.len()
        invariant
            i <= chosen@.len(),
            in_range(tools@, chosen@),
            tool_ids@.len() == i,
            forall|j: int|
                0 <= j < i ==> (#[trigger] tool_ids@[j])@ == tools@[chosen@[j] as int].definition.id@,
        decreases chosen@.len() - i,
    {
        tool_ids.push(tools[chosen[i]].definition.id.clone());
        i += 1;
    }
    assert(texts(tool_ids@) =~= chosen_ids(tools@, chosen@));
    ToolScope { caller, tool_ids }
}

fn fits(chosen: &Vec<usize>, bytes: u64, limits: EffectiveLimits) -> (result: bool)
    ensures
        result == (chosen@.len() <= limits.max_tools && bytes <= limits.max_bytes),
{
    chosen.len() as u64 <= limits.max_tools as u64 && bytes <= limits.max_bytes
}

fn report_limit(
    base: ToolDiscoveryStats,
    required: &Vec<usize>,
    bytes: u64,
    limits: EffectiveLimits,
    Ghost(tools): Ghost<Seq<RegisteredTool>>,
) -> (stats: ToolDiscoveryStats)
    requires
        bytes == array_bytes(tools, required@),
    ensures
        stats == limit_stats(tools, base, required@, limits),
{
    ToolDiscoveryStats {
        outcome: ToolDiscoveryOutcome::LimitReached,
        selection: if required.len() as u64 > limits.max_tools as u64 {
            ToolDiscoverySelection::CountLimit
        } else {
            ToolDiscoverySelection::SchemaByteLimit
        },
        selected_schema_bytes: bytes,
        ..base
    }
}

fn report_selected(
    base: ToolDiscoveryStats,
    category: ToolDiscoverySelection,
    chosen: &Vec<usize>,
    bytes: u64,
    admitted: usize,
    Ghost(tools): Ghost<Seq<RegisteredTool>>,
) -> (stats: ToolDiscoveryStats)
    requires
        bytes == array_bytes(tools, chosen@),
    ensures
        stats == selected_stats(tools, base, category, chosen@, admitted as nat),
{
    ToolDiscoveryStats {
        selection: category,
        selected_count: chosen.len() as u32,
        selected_schema_bytes: bytes,
        expansion_count: admitted as u32,
        ..base
    }
}

proof fn expanded_stays(
    tools: Seq<RegisteredTool>,
    candidates: Seq<usize>,
    marks: Seq<bool>,
    list: Seq<usize>,
    limits: EffectiveLimits,
    count: nat,
    longer: nat,
)
    requires
        count <= longer <= list.len(),
        expanded(tools, candidates, marks, list, limits, count) is Err,
    ensures
        expanded(tools, candidates, marks, list, limits, longer) == expanded(
            tools,
            candidates,
            marks,
            list,
            limits,
            count,
        ),
    decreases longer - count,
{
    if count < longer {
        expanded_stays(tools, candidates, marks, list, limits, count, (longer - 1) as nat);
    }
}

/// What a selection keeps: the candidates stay within the limits.
pub open spec fn marks_fit(
    tools: Seq<RegisteredTool>,
    candidates: Seq<usize>,
    marks: Seq<bool>,
    limits: EffectiveLimits,
) -> bool {
    let chosen = kept(candidates, marks, candidates.len());
    countable(tools, chosen) && within(tools, chosen, limits)
}

fn expand(
    tools: &Vec<RegisteredTool>,
    candidates: &Vec<usize>,
    marks: &mut Vec<bool>,
    list: &Vec<usize>,
    limits: EffectiveLimits,
) -> (result: Result<usize, HarnessError>)
    requires
        in_range(tools@, candidates@),
        in_range(tools@, list@),
        old(marks)@.len() == tools@.len(),
        marks_fit(tools@, candidates@, old(marks)@, limits),
    ensures
        match expanded(tools@, candidates@, old(marks)@, list@, limits, list@.len()) {
            Ok((next, admitted)) => result matches Ok(count) && count == admitted
                && final(marks)@ == next && next.len() == tools@.len() && marks_fit(
                tools@,
                candidates@,
                next,
                limits,
            ),
            Err(error) => result matches Err(told) && told@ == error,
        },
{
    let ghost first = marks@;
    let mut admitted: usize = 0;
    let mut i: usize = 0;
    while i < list.len()
        invariant
            i <= list@.len(),
            admitted <= i,
            first == old(marks)@,
            in_range(tools@, candidates@),
            in_range(tools@, list@),
            marks@.len() == tools@.len(),
            marks_fit(tools@, candidates@, marks@, limits),
            expanded(tools@, candidates@, first, list@, limits, i as nat) == Ok::<
                (Seq<bool>, nat),
                HarnessError<Seq<char>>,
            >((marks@, admitted as nat)),
        decreases list@.len() - i,
    {
        let index = list[i];
        let ghost before = marks@;
        let was = marks[index];
        marks.set(index, true);
        let chosen = keep(candidates, marks, Ghost(tools@));
        let bytes = match measure(tools, &chosen) {
            Ok(bytes) => bytes,
            Err(error) => {
                proof {
                    assert(expanded(tools@, candidates@, first, list@, limits, (i + 1) as nat)
                        == Err::<(Seq<bool>, nat), HarnessError<Seq<char>>>(error@));
                    expanded_stays(
                        tools@,
                        candidates@,
                        first,
                        list@,
                        limits,
                        (i + 1) as nat,
                        list@.len(),
                    );
                }
                return Err(error);
            },
        };
        if fits(&chosen, bytes, limits) {
            admitted += 1;
        } else {
            marks.set(index, was);
            assert(marks@ =~= before);
        }
        i += 1;
    }
    Ok(admitted)
}

fn mark_all(marks: &mut Vec<bool>, list: &Vec<usize>)
    requires
        forall|k: int| 0 <= k < list@.len() ==> (#[trigger] list@[k]) < old(marks)@.len(),
    ensures
        final(marks)@ == with_marks(old(marks)@, list@, list@.len()),
        final(marks)@.len() == old(marks)@.len(),
{
    let ghost first = marks@;
    let mut i: usize = 0;
    while i < list.len()
        invariant
            i <= list@.len(),
            first == old(marks)@,
            marks@.len() == first.len(),
            forall|k: int| 0 <= k < list@.len() ==> (#[trigger] list@[k]) < first.len(),
            marks@ == with_marks(first, list@, i as nat),
        decreases list@.len() - i,
    {
        marks.set(list[i], true);
        i += 1;
    }
}

/// The scope that a ranked query leads to, where the catalog does not fit as a whole.
fn narrow_scope(
    tools: &Vec<RegisteredTool>,
    candidates: &Vec<usize>,
    ranked: RankedSelection,
    limits: EffectiveLimits,
    base: ToolDiscoveryStats,
    caller: ToolCaller,
) -> (result: Result<ToolScopeSelection, HarnessError>)
    requires
        in_range(tools@, candidates@),
        match ranked {
            RankedSelection::Exact(list) => in_range(tools@, list@),
            RankedSelection::Lexical(list, _) => in_range(tools@, list@),
        },
    ensures
        scope_view(
            result,
            caller,
            narrowed_scope(tools@, candidates@, ranked@, limits, base),
        ),
{
    let mut marks = mark_hot(tools);
    let hot = keep(candidates, &marks, Ghost(tools@));
    let hot_bytes = match measure(tools, &hot) {
        Ok(bytes) => bytes,
        Err(error) => return Err(error),
    };
    if !fits(&hot, hot_bytes, limits) {
        return Ok(
            ToolScopeSelection::LimitReached(
                report_limit(base, &hot, hot_bytes, limits, Ghost(tools@)),
                false,
            ),
        );
    }
    match ranked {
        RankedSelection::Exact(list) => {
            mark_all(&mut marks, &list);
            let exact = keep(candidates, &marks, Ghost(tools@));
            let bytes = match measure(tools, &exact) {
                Ok(bytes) => bytes,
                Err(error) => return Err(error),
            };
            if !fits(&exact, bytes, limits) {
                return Ok(
                    ToolScopeSelection::LimitReached(
                        report_limit(base, &exact, bytes, limits, Ghost(tools@)),
                        true,
                    ),
                );
            }
            let category = if list.len() > 0 {
                ToolDiscoverySelection::Exact
            } else {
                ToolDiscoverySelection::HotOnly
            };
            let stats = report_selected(base, category, &exact, bytes, 0, Ghost(tools@));
            Ok(ToolScopeSelection::Selected(scope_for(tools, &exact, caller), stats))
        },
        RankedSelection::Lexical(list, confident) => {
            let admitted = match expand(tools, candidates, &mut marks, &list, limits) {
                Ok(admitted) => admitted,
                Err(error) => return Err(error),
            };
            let chosen = keep(candidates, &marks, Ghost(tools@));
            let bytes = match measure(tools, &chosen) {
                Ok(bytes) => bytes,
                Err(error) => return Err(error),
            };
            let category = if list.len() == 0 {
                ToolDiscoverySelection::NoMatch
            } else if admitted == 0 {
                ToolDiscoverySelection::HotOnly
            } else if confident {
                ToolDiscoverySelection::LexicalConfident
            } else {
                ToolDiscoverySelection::LexicalExpanded
            };
            let stats = report_selected(base, category, &chosen, bytes, admitted, Ghost(tools@));
            Ok(ToolScopeSelection::Selected(scope_for(tools, &chosen, caller), stats))
        },
    }
}

/// Whether a selection that fails where a scope has no room answers this.
pub open spec fn selection_view(
    answer: Result<(ToolScope, ToolDiscoveryStats), HarnessError>,
    caller: ToolCaller,
    model: Result<ScopeModel, HarnessError<Seq<char>>>,
) -> bool {
    match model {
        Ok(ScopeModel::Selected(ids, told)) => answer matches Ok(selected) && texts(
            selected.0.tool_ids@,
        ) == ids && selected.0.caller == caller && selected.1 == told,
        Ok(ScopeModel::LimitReached(_, exact)) => answer matches Err(error) && error@
            == HarnessError::ResourceLimit(
            if exact {
                "mandatory hot or exact-match tool scope exceeds discovery budget"@
            } else {
                "mandatory hot tool scope exceeds discovery budget"@
            },
        ),
        Err(told) => answer matches Err(error) && error@ == told,
    }
}

/// What a guarded selection comes to.
pub enum GuardedSelection {
    /// The guard ended it, with this error.
    Stopped(HarnessError),
    /// It went through, with this answer.
    Finished(Result<ToolScopeSelection, HarnessError>),
}

impl ToolRegistry {
    /// Selects the scope of a caller under a guard, which is asked throughout the traversals of
    /// the allowlist, of the catalog where its index is not at hand, and of the candidates. A
    /// selection ends early only with an error of the guard; the index that was made by then
    /// stays, and nothing else changes.
    pub fn select_scope_guarded<G: Fn() -> Result<(), HarnessError>>(
        &mut self,
        query: &str,
        allowlist: &Vec<String>,
        caller: ToolCaller,
        host_limits: ToolDiscoveryLimits,
        provider_limits: &ProviderCapabilityLimits,
        guard: &G,
    ) -> (result: GuardedSelection)
        requires
            old(self).wf(),
            call_requires(*guard, ()),
        ensures
            final(self).wf(),
            match result {
                GuardedSelection::Stopped(error) => {
                    &&& stops(*guard, error)
                    &&& final(self)@ == old(self)@ || (final(self)@ == (RegistryModel {
                        warm: true,
                        ..old(self)@
                    }) && must_narrow(
                        old(self)@.tools,
                        candidates_of(
                            old(self)@.tools,
                            texts(allowlist@),
                            caller,
                            allowlist@.len(),
                        ),
                        host_limits.narrowed(*provider_limits),
                    ))
                },
                GuardedSelection::Finished(answer) => {
                    &&& scope_view(
                        answer,
                        caller,
                        scope_of(
                            old(self)@,
                            query@,
                            texts(allowlist@),
                            caller,
                            host_limits.narrowed(*provider_limits),
                        ),
                    )
                    &&& final(self)@ == (RegistryModel {
                        warm: old(self)@.warm || must_narrow(
                            old(self)@.tools,
                            candidates_of(
                                old(self)@.tools,
                                texts(allowlist@),
                                caller,
                                allowlist@.len(),
                            ),
                            host_limits.narrowed(*provider_limits),
                        ),
                        ..old(self)@
                    })
                },
            },
    {
        let limits = host_limits.effective(provider_limits);
        if let Err(error) = guard() {
            return GuardedSelection::Stopped(error);
        }
        let candidates = match allowed_catalog_guarded(self.tools(), allowlist, caller, guard) {
            Ok(candidates) => candidates,
            Err(error) => return GuardedSelection::Stopped(error),
        };
        let ghost tools = self@.tools;
        let base = ToolDiscoveryStats {
            outcome: ToolDiscoveryOutcome::Selected,
            selection: if candidates.len() == 0 {
                ToolDiscoverySelection::EmptyCatalog
            } else {
                ToolDiscoverySelection::NoCapacity
            },
            candidate_count: candidates.len() as u32,
            selected_count: 0,
            deferred_candidate_count: count_deferred(self.tools(), &candidates) as u32,
            effective_tool_count_budget: limits.max_tools,
            effective_schema_byte_budget: limits.max_bytes,
            selected_schema_bytes: 0,
            expansion_count: 0,
            expansion_limit: limits.max_expansion,
            catalog_exceeded_budget: false,
            cache_hit: false,
            duration_ms: 0,
        };
        if limits.max_tools == 0 || limits.max_bytes < 2 || candidates.len() == 0 {
            let scope = ToolScope::empty(caller);
            assert(texts(scope.tool_ids@) =~= Seq::empty());
            return GuardedSelection::Finished(Ok(ToolScopeSelection::Selected(scope, base)));
        }
        let bytes = match measure(self.tools(), &candidates) {
            Ok(bytes) => bytes,
            Err(error) => return GuardedSelection::Finished(Err(error)),
        };
        if fits(&candidates, bytes, limits) {
            let stats = report_selected(
                base,
                ToolDiscoverySelection::FullCatalog,
                &candidates,
                bytes,
                0,
                Ghost(tools),
            );
            let scope = scope_for(self.tools(), &candidates, caller);
            return GuardedSelection::Finished(Ok(ToolScopeSelection::Selected(scope, stats)));
        }
        let (ranked, hit) = match self.rank_candidates(
            &candidates,
            query,
            limits.max_expansion as usize,
            guard,
        ) {
            Ok(answer) => answer,
            Err(error) => return GuardedSelection::Stopped(error),
        };
        proof {
            selected_are_candidates(tools, candidates@, query@, limits.max_expansion as usize);
            let list = selected_tools(ranked@);
            assert forall|k: int| 0 <= k < list.len() implies (#[trigger] list[k]) < tools.len() by {
                let c = choose|c: int| 0 <= c < candidates@.len() && candidates@[c] == list[k];
                assert(candidates@[c] < tools.len());
            }
        }
        let known = ToolDiscoveryStats { catalog_exceeded_budget: true, cache_hit: hit, ..base };
        GuardedSelection::Finished(
            narrow_scope(self.tools(), &candidates, ranked, limits, known, caller),
        )
    }

    /// Selects the scope of a caller under a guard; fails where the guard ends the selection, and
    /// where the tools that must be in the scope exceed its budget.
    pub fn select_scope_for_run<G: Fn() -> Result<(), HarnessError>>(
        &mut self,
        query: &str,
        allowlist: &Vec<String>,
        caller: ToolCaller,
        host_limits: ToolDiscoveryLimits,
        provider_limits: &ProviderCapabilityLimits,
        guard: &G,
    ) -> (result: Result<(ToolScope, ToolDiscoveryStats), HarnessError>)
        requires
            old(self).wf(),
            call_requires(*guard, ()),
        ensures
            final(self).wf(),
            final(self)@.tools == old(self)@.tools,
            (result matches Err(error) && stops(*guard, error)) || selection_view(
                result,
                caller,
                scope_of(
                    old(self)@,
                    query@,
                    texts(allowlist@),
                    caller,
                    host_limits.narrowed(*provider_limits),
                ),
            ),
    {
        match self.select_scope_guarded(
            query,
            allowlist,
            caller,
            host_limits,
            provider_limits,
            guard,
        ) {
            GuardedSelection::Stopped(error) => Err(error),
            GuardedSelection::Finished(Ok(ToolScopeSelection::Selected(scope, stats))) => {
                Ok((scope, stats))
            },
            GuardedSelection::Finished(Ok(ToolScopeSelection::LimitReached(_, exact))) => {
                let text = if exact {
                    "mandatory hot or exact-match tool scope exceeds discovery budget"
                } else {
                    "mandatory hot tool scope exceeds discovery budget"
                };
                Err(HarnessError::ResourceLimit(text.to_owned()))
            },
            GuardedSelection::Finished(Err(error)) => Err(error),
        }
    }

    /// Selects the scope of a caller; fails where the tools that must be in it exceed its
    /// budget.
    pub fn select_scope(
        &mut self,
        query: &str,
        allowlist: &Vec<String>,
        caller: ToolCaller,
        host_limits: ToolDiscoveryLimits,
        provider_limits: &ProviderCapabilityLimits,
    ) -> (result: Result<(ToolScope, ToolDiscoveryStats), HarnessError>)
        requires
            old(self).wf(),
        ensures
            final(self).wf(),
            final(self)@.tools == old(self)@.tools,
            selection_view(
                result,
                caller,
                scope_of(
                    old(self)@,
                    query@,
                    texts(allowlist@),
                    caller,
                    host_limits.narrowed(*provider_limits),
                ),
            ),
    {
        let patient = || -> (answer: Result<(), HarnessError>)
            ensures
                answer is Ok,
            { Ok(()) };
        self.select_scope_for_run(query, allowlist, caller, host_limits, provider_limits, &patient)
    }
}

/// The definitions of the tools of a scope, in its order.
pub open spec fn scope_definitions(
    tools: Seq<RegisteredTool>,
    ids: Seq<Seq<char>>,
    count: nat,
) -> Seq<RegisteredTool>
    decreases count,
{
    if count == 0 || count > ids.len() {
        Seq::empty()
    } else {
        let before = scope_definitions(tools, ids, (count - 1) as nat);
        match registered(tools, ids[count - 1]) {
            Some(tool) => before.push(tool),
            None => before,
        }
    }
}

/// The tools of a scope, in its order.
pub fn tools_in_scope<'a>(tools: &'a Vec<RegisteredTool>, scope: &ToolScope) -> (result: Vec<
    &'a RegisteredTool,
>)
    ensures
        result@.map_values(|tool: &'a RegisteredTool| *tool) == scope_definitions(
            tools@,
            texts(scope.tool_ids@),
            scope.tool_ids@.len(),
        ),
{
    let ghost ids = texts(scope.tool_ids@);
    let mut result: Vec<&'a RegisteredTool> = Vec::new();
    let mut i: usize = 0;
    assert(result@.map_values(|tool: &'a RegisteredTool| *tool) =~= Seq::empty());
    while i < scope.tool_ids.len()
        invariant
            i <= scope.tool_ids@.len(),
            ids == texts(scope.tool_ids@),
            result@.map_values(|tool: &'a RegisteredTool| *tool) == scope_definitions(
                tools@,
                ids,
                i as nat,
            ),
        decreases scope.tool_ids@.len() - i,
    {
        let ghost before = result@.map_values(|tool: &'a RegisteredTool| *tool);
        assert(ids[i as int] == scope.tool_ids@[i as int]@);
        if let Some(tool) = find_tool(tools, scope.tool_ids[i].as_str()) {
            result.push(tool);
            assert(result@.map_values(|tool: &'a RegisteredTool| *tool) =~= before.push(*tool));
        }
        i += 1;
    }
    result
}

/// A selected scope stays within its limits, unless there is room for no tool at all.
pub proof fn selected_scopes_fit(
    registry: RegistryModel,
    query: Seq<char>,
    allowlist: Seq<Seq<char>>,
    caller: ToolCaller,
    limits: EffectiveLimits,
)
    ensures
        scope_of(registry, query, allowlist, caller, limits) matches Ok(
            ScopeModel::Selected(ids, stats),
        ) ==> ids.len() <= limits.max_tools && stats.selected_schema_bytes <= limits.max_bytes,
{
    let tools = registry.tools;
    let candidates = candidates_of(tools, allowlist, caller, allowlist.len());
    if must_narrow(tools, candidates, limits) {
        let ranked = selection(tools, candidates, query, limits.max_expansion as usize);
        if let RankedModel::Lexical(list, _) = ranked {
            expanded_fits(tools, candidates, hot_marks(tools), list, limits, list.len());
        }
    }
}

proof fn expanded_fits(
    tools: Seq<RegisteredTool>,
    candidates: Seq<usize>,
    marks: Seq<bool>,
    list: Seq<usize>,
    limits: EffectiveLimits,
    count: nat,
)
    requires
        count <= list.len(),
    ensures
        marks_fit(tools, candidates, marks, limits) ==> (expanded(
            tools,
            candidates,
            marks,
            list,
            limits,
            count,
        ) matches Ok((next, _)) ==> marks_fit(tools, candidates, next, limits)),
    decreases count,
{
    if count > 0 {
        expanded_fits(tools, candidates, marks, list, limits, (count - 1) as nat);
    }
}

} // verus!
