//! What holds of the tools that a run is offered.

use crate::discovery::{EffectiveLimits, ToolExposure};
use crate::error::HarnessError;
use crate::ranking::{selected_are_candidates, selected_tools, selection, RankedModel};
use crate::registry::{position_from, registered, RegisteredTool};
use crate::scope_selection::{
    array_bytes, candidates_of, chosen_ids, expanded, hot_marks, kept, scope_of, usable, with_marks,
    within, ScopeModel,
};
use crate::tool::ToolCaller;
use crate::tool_registry::RegistryModel;
use vstd::prelude::*;

verus! {

/// A tool that is found stands where it was found, and one that is not found stands nowhere.
proof fn positions_are_found(tools: Seq<RegisteredTool>, id: Seq<char>, start: nat)
    ensures
        match position_from(tools, id, start) {
            Some(position) => start <= position < tools.len() && tools[position as int].definition.id@
                == id,
            None => forall|i: int| start <= i < tools.len() ==> (#[trigger] tools[i]).definition.id@
                != id,
        },
    decreases tools.len() - start,
{
    if start < tools.len() && tools[start as int].definition.id@ != id {
        positions_are_found(tools, id, start + 1);
    }
}

/// Whether a tool may be offered: an identifier in the list names it and it takes such callers.
pub open spec fn offerable(
    tools: Seq<RegisteredTool>,
    allowlist: Seq<Seq<char>>,
    caller: ToolCaller,
    id: Seq<char>,
) -> bool {
    &&& exists|k: int| 0 <= k < allowlist.len() && (#[trigger] allowlist[k]) == id
    &&& registered(tools, id) matches Some(tool) && tool.definition.allowed_callers@.contains(
        caller,
    )
}

/// The candidates are the tools of the list that may be offered, all of them and no others.
proof fn candidates_may_be_offered(
    tools: Seq<RegisteredTool>,
    allowlist: Seq<Seq<char>>,
    caller: ToolCaller,
    count: nat,
)
    requires
        count <= allowlist.len(),
        tools.len() <= usize::MAX,
    ensures
        ({
            let candidates = candidates_of(tools, allowlist, caller, count);
            &&& forall|i: int|
                #![trigger candidates[i]]
                0 <= i < candidates.len() ==> candidates[i] < tools.len() && offerable(
                    tools,
                    allowlist,
                    caller,
                    tools[candidates[i] as int].definition.id@,
                )
            &&& forall|k: int|
                #![trigger allowlist[k]]
                0 <= k < count && offerable(tools, allowlist, caller, allowlist[k])
                    ==> exists|i: int|
                    0 <= i < candidates.len() && tools[(
                    #[trigger] candidates[i]) as int].definition.id@ == allowlist[k]
        }),
    decreases count,
{
    if count > 0 {
        candidates_may_be_offered(tools, allowlist, caller, (count - 1) as nat);
        let before = candidates_of(tools, allowlist, caller, (count - 1) as nat);
        let candidates = candidates_of(tools, allowlist, caller, count);
        let id = allowlist[count - 1];
        positions_are_found(tools, id, 0);
        assert forall|i: int| #![trigger candidates[i]] 0 <= i < candidates.len() implies candidates[i]
            < tools.len() && offerable(
            tools,
            allowlist,
            caller,
            tools[candidates[i] as int].definition.id@,
        ) by {
            if i < before.len() {
                assert(candidates[i] == before[i]);
            } else {
                assert(allowlist[count - 1] == tools[candidates[i] as int].definition.id@);
            }
        }
        assert forall|k: int| #![trigger allowlist[k]] 0 <= k < count && offerable(
            tools,
            allowlist,
            caller,
            allowlist[k],
        ) implies exists|i: int|
            0 <= i < candidates.len() && tools[(#[trigger] candidates[i]) as int].definition.id@
                == allowlist[k] by {
            if k < count - 1 {
                let i = choose|i: int|
                    0 <= i < before.len() && tools[(#[trigger] before[i]) as int].definition.id@
                        == allowlist[k];
                assert(candidates[i] == before[i]);
            } else {
                assert(candidates[before.len() as int] == usable(tools, id, caller)->0);
            }
        }
    }
}

/// What is kept of the candidates is every one that is marked, in their order.
proof fn marked_candidates_are_kept(candidates: Seq<usize>, marks: Seq<bool>, count: nat)
    requires
        count <= candidates.len(),
    ensures
        ({
            let chosen = kept(candidates, marks, count);
            &&& chosen.len() <= count
            &&& forall|i: int|
                #![trigger candidates[i]]
                0 <= i < count && marks[candidates[i] as int] ==> chosen.contains(candidates[i])
            &&& forall|k: int|
                #![trigger chosen[k]]
                0 <= k < chosen.len() ==> marks[chosen[k] as int] && candidates.contains(chosen[k])
        }),
    decreases count,
{
    if count > 0 {
        marked_candidates_are_kept(candidates, marks, (count - 1) as nat);
        let before = kept(candidates, marks, (count - 1) as nat);
        let chosen = kept(candidates, marks, count);
        assert forall|i: int| #![trigger candidates[i]] 0 <= i < count
            && marks[candidates[i] as int] implies chosen.contains(candidates[i]) by {
            if i < count - 1 {
                let k = choose|k: int| 0 <= k < before.len() && before[k] == candidates[i];
                assert(chosen[k] == candidates[i]);
            } else {
                assert(chosen[before.len() as int] == candidates[i]);
            }
        }
        assert forall|k: int| #![trigger chosen[k]] 0 <= k < chosen.len() implies marks[chosen[k] as int]
            && candidates.contains(chosen[k]) by {
            if k < before.len() {
                assert(chosen[k] == before[k]);
            } else {
                assert(candidates[count - 1] == chosen[k]);
            }
        }
    }
}

/// Marking a list marks what is in it and leaves the rest.
proof fn lists_are_marked(marks: Seq<bool>, list: Seq<usize>, count: nat)
    requires
        count <= list.len(),
        forall|k: int| 0 <= k < list.len() ==> (#[trigger] list[k]) < marks.len(),
    ensures
        ({
            let after = with_marks(marks, list, count);
            &&& after.len() == marks.len()
            &&& forall|i: int|
                #![trigger after[i]]
                0 <= i < marks.len() ==> (marks[i] ==> after[i])
            &&& forall|k: int|
                #![trigger list[k]]
                0 <= k < count ==> after[list[k] as int]
        }),
    decreases count,
{
    if count > 0 {
        lists_are_marked(marks, list, (count - 1) as nat);
    }
}

/// Whether one of a list still fits when its turn comes.
spec fn fits_in_turn(
    tools: Seq<RegisteredTool>,
    candidates: Seq<usize>,
    marks: Seq<bool>,
    list: Seq<usize>,
    limits: EffectiveLimits,
    turn: int,
) -> bool {
    expanded(tools, candidates, marks, list, limits, turn as nat) matches Ok((before, _)) && within(
        tools,
        kept(candidates, before.update(list[turn] as int, true), candidates.len()),
        limits,
    )
}

/// Whether one of the first of a list is this tool.
spec fn listed(list: Seq<usize>, count: nat, tool: int) -> bool {
    exists|k: int| 0 <= k < count && (#[trigger] list[k]) == tool
}

/// Expanding keeps what is marked, marks nothing outside the list, and marks each of the list, in
/// its order, that still fits when its turn comes.
proof fn lists_are_expanded(
    tools: Seq<RegisteredTool>,
    candidates: Seq<usize>,
    marks: Seq<bool>,
    list: Seq<usize>,
    limits: EffectiveLimits,
    count: nat,
)
    requires
        count <= list.len(),
        forall|k: int| 0 <= k < list.len() ==> (#[trigger] list[k]) < marks.len(),
        expanded(tools, candidates, marks, list, limits, count) is Ok,
    ensures
        ({
            let (after, admitted) = expanded(tools, candidates, marks, list, limits, count)->Ok_0;
            &&& after.len() == marks.len() && admitted <= count
            &&& forall|i: int|
                #![trigger after[i]]
                0 <= i < marks.len() ==> (marks[i] ==> after[i]) && (after[i] ==> marks[i]
                    || listed(list, count, i))
            &&& forall|k: int|
                #![trigger list[k]]
                0 <= k < count && fits_in_turn(tools, candidates, marks, list, limits, k)
                    ==> after[list[k] as int]
        }),
    decreases count,
{
    if count > 0 {
        lists_are_expanded(tools, candidates, marks, list, limits, (count - 1) as nat);
        let (before, _) = expanded(tools, candidates, marks, list, limits, (count - 1) as nat)->Ok_0;
        let (after, _) = expanded(tools, candidates, marks, list, limits, count)->Ok_0;
        let last = list[count - 1] as int;
        assert(after == before || after == before.update(last, true));
        assert forall|i: int| #![trigger after[i]] 0 <= i < marks.len() implies (marks[i]
            ==> after[i]) && (after[i] ==> marks[i] || listed(list, count, i)) by {
            assert(before[i] ==> marks[i] || listed(list, (count - 1) as nat, i));
            if i == last {
                assert(list[count - 1] == i);
            } else {
                assert(after[i] == before[i]);
                if listed(list, (count - 1) as nat, i) {
                    let k = choose|k: int| 0 <= k < count - 1 && (#[trigger] list[k]) == i;
                    assert(list[k] == i);
                }
            }
        }
        assert forall|k: int| #![trigger list[k]] 0 <= k < count && fits_in_turn(
            tools,
            candidates,
            marks,
            list,
            limits,
            k,
        ) implies after[list[k] as int] by {
            if k < count - 1 {
                assert(before[list[k] as int]);
            }
        }
    }
}

/// No run is offered a tool that it may not call: every tool of a scope is named by the list, is
/// registered and takes such callers.
pub proof fn scopes_offer_only_what_is_allowed(
    registry: RegistryModel,
    query: Seq<char>,
    allowlist: Seq<Seq<char>>,
    caller: ToolCaller,
    limits: EffectiveLimits,
)
    requires
        registry.tools.len() <= usize::MAX,
    ensures
        scope_of(registry, query, allowlist, caller, limits) matches Ok(
            ScopeModel::Selected(ids, stats),
        ) ==> forall|i: int|
            #![trigger ids[i]]
            0 <= i < ids.len() ==> offerable(registry.tools, allowlist, caller, ids[i]),
{
    let tools = registry.tools;
    let candidates = candidates_of(tools, allowlist, caller, allowlist.len());
    candidates_may_be_offered(tools, allowlist, caller, allowlist.len());
    let scope = scope_of(registry, query, allowlist, caller, limits);
    if let Ok(ScopeModel::Selected(ids, _)) = scope {
        let all = candidates.len();
        let ranked = selection(tools, candidates, query, limits.max_expansion as usize);
        let marks = match ranked {
            RankedModel::Exact(list) => with_marks(hot_marks(tools), list, list.len()),
            RankedModel::Lexical(list, _) => expanded(
                tools,
                candidates,
                hot_marks(tools),
                list,
                limits,
                list.len(),
            )->Ok_0.0,
        };
        marked_candidates_are_kept(candidates, marks, all);
        let chosen = kept(candidates, marks, all);
        assert forall|i: int| #![trigger ids[i]] 0 <= i < ids.len() implies offerable(
            tools,
            allowlist,
            caller,
            ids[i],
        ) by {
            if ids == chosen_ids(tools, candidates) {
                assert(candidates[i] < tools.len());
            } else {
                assert(ids == chosen_ids(tools, chosen));
                assert(candidates.contains(chosen[i]));
                let k = choose|k: int| 0 <= k < candidates.len() && candidates[k] == chosen[i];
                assert(candidates[k] < tools.len());
            }
        }
    }
}

/// Where all that may be offered fits, all of it is offered.
pub proof fn fitting_catalogs_are_offered_whole(
    registry: RegistryModel,
    query: Seq<char>,
    allowlist: Seq<Seq<char>>,
    caller: ToolCaller,
    limits: EffectiveLimits,
    id: Seq<char>,
)
    requires
        registry.tools.len() <= usize::MAX,
        offerable(registry.tools, allowlist, caller, id),
        ({
            let candidates = candidates_of(registry.tools, allowlist, caller, allowlist.len());
            candidates.len() <= limits.max_tools && array_bytes(registry.tools, candidates)
                <= limits.max_bytes
        }),
    ensures
        scope_of(registry, query, allowlist, caller, limits) matches Ok(
            ScopeModel::Selected(ids, stats),
        ) && ids.contains(id) && !stats.catalog_exceeded_budget,
{
    let tools = registry.tools;
    let candidates = candidates_of(tools, allowlist, caller, allowlist.len());
    candidates_may_be_offered(tools, allowlist, caller, allowlist.len());
    let k = choose|k: int| 0 <= k < allowlist.len() && (#[trigger] allowlist[k]) == id;
    assert(offerable(tools, allowlist, caller, allowlist[k]));
    let i = choose|i: int|
        0 <= i < candidates.len() && tools[(#[trigger] candidates[i]) as int].definition.id@ == id;
    assert(chosen_ids(tools, candidates)[i] == id);
}

/// Where the catalog is cut down, the tools that are always shown stay: a scope holds every one of
/// them that may be offered. What else it holds was found for the query, and the best of what was
/// found is in it wherever it fits beside them.
pub proof fn narrowed_scopes_keep_hot_tools(
    registry: RegistryModel,
    query: Seq<char>,
    allowlist: Seq<Seq<char>>,
    caller: ToolCaller,
    limits: EffectiveLimits,
)
    requires
        registry.tools.len() <= usize::MAX,
        limits.max_tools > 0 && limits.max_bytes >= 2,
    ensures
        ({
            let tools = registry.tools;
            let candidates = candidates_of(tools, allowlist, caller, allowlist.len());
            scope_of(registry, query, allowlist, caller, limits) matches Ok(
                ScopeModel::Selected(ids, stats),
            ) ==> {
                &&& forall|i: int|
                    #![trigger candidates[i]]
                    0 <= i < candidates.len() && tools[candidates[i] as int].metadata.exposure
                        == ToolExposure::Hot ==> ids.contains(
                        tools[candidates[i] as int].definition.id@,
                    )
                &&& stats.catalog_exceeded_budget ==> match selection(
                    tools,
                    candidates,
                    query,
                    limits.max_expansion as usize,
                ) {
                    RankedModel::Exact(list) => forall|k: int|
                        #![trigger list[k]]
                        0 <= k < list.len() ==> ids.contains(tools[list[k] as int].definition.id@),
                    RankedModel::Lexical(list, _) => list.len() > 0 && within(
                        tools,
                        kept(
                            candidates,
                            hot_marks(tools).update(list[0] as int, true),
                            candidates.len(),
                        ),
                        limits,
                    ) ==> ids.contains(tools[list[0] as int].definition.id@),
                }
            }
        }),
{
    let tools = registry.tools;
    let candidates = candidates_of(tools, allowlist, caller, allowlist.len());
    candidates_may_be_offered(tools, allowlist, caller, allowlist.len());
    if let Ok(ScopeModel::Selected(ids, stats)) = scope_of(
        registry,
        query,
        allowlist,
        caller,
        limits,
    ) {
        let all = candidates.len();
        let hot = hot_marks(tools);
        let ranked = selection(tools, candidates, query, limits.max_expansion as usize);
        selected_are_candidates(tools, candidates, query, limits.max_expansion as usize);
        let found = selected_tools(ranked);
        assert forall|k: int| 0 <= k < found.len() implies (#[trigger] found[k]) < tools.len() by {
            assert(candidates.contains(found[k]));
            let i = choose|i: int| 0 <= i < candidates.len() && candidates[i] == found[k];
            assert(candidates[i] < tools.len());
        }
        if stats.catalog_exceeded_budget {
            let marks = match ranked {
                RankedModel::Exact(list) => with_marks(hot, list, list.len()),
                RankedModel::Lexical(list, _) => expanded(
                    tools,
                    candidates,
                    hot,
                    list,
                    limits,
                    list.len(),
                )->Ok_0.0,
            };
            match ranked {
                RankedModel::Exact(list) => lists_are_marked(hot, list, list.len()),
                RankedModel::Lexical(list, _) => {
                    lists_are_expanded(tools, candidates, hot, list, limits, list.len());
                },
            }
            marked_candidates_are_kept(candidates, marks, all);
            let chosen = kept(candidates, marks, all);
            assert(ids == chosen_ids(tools, chosen));
            assert forall|x: usize| candidates.contains(x) && x < tools.len()
                && marks[x as int] implies #[trigger] ids.contains(
                tools[x as int].definition.id@,
            ) by {
                let i = choose|i: int| 0 <= i < candidates.len() && candidates[i] == x;
                assert(chosen.contains(candidates[i]));
                let k = choose|k: int| 0 <= k < chosen.len() && chosen[k] == x;
                assert(ids[k] == tools[x as int].definition.id@);
            }
            assert forall|i: int|
                #![trigger candidates[i]]
                0 <= i < candidates.len() && tools[candidates[i] as int].metadata.exposure
                    == ToolExposure::Hot implies ids.contains(
                tools[candidates[i] as int].definition.id@,
            ) by {
                assert(hot[candidates[i] as int]);
                assert(candidates.contains(candidates[i]));
                assert(marks[candidates[i] as int]);
            }
            match ranked {
                RankedModel::Exact(list) => {
                    assert forall|k: int|
                        #![trigger list[k]]
                        0 <= k < list.len() implies ids.contains(
                        tools[list[k] as int].definition.id@,
                    ) by {
                        assert(candidates.contains(found[k]));
                    }
                },
                RankedModel::Lexical(list, _) => {
                    if list.len() > 0 {
                        assert(candidates.contains(found[0]));
                        assert(expanded(tools, candidates, hot, list, limits, 0) == Ok::<
                            (Seq<bool>, nat),
                            HarnessError<Seq<char>>,
                        >((hot, 0nat)));
                        assert(fits_in_turn(tools, candidates, hot, list, limits, 0) ==> marks[
                        list[0] as int]);
                    }
                },
            }
        } else {
            assert forall|i: int|
                #![trigger candidates[i]]
                0 <= i < candidates.len() implies ids.contains(
                tools[candidates[i] as int].definition.id@,
            ) by {
                assert(ids == chosen_ids(tools, candidates));
                assert(ids[i] == tools[candidates[i] as int].definition.id@);
            }
        }
    }
}

} // verus!
