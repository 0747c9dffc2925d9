//! What holds of a streamed turn, and of the manifests that are accepted.

use crate::agent::{AgentDefinition, RunRequest};
use crate::error::HarnessError;
use crate::manifest::{agent_fault, agent_ids, agents_fault, manifest_fault, AGENT_MANIFEST_VERSION};
use crate::registry::{RegisteredTool, ToolScope};
use crate::speculation::{ControllerModel, SpeculationMode};
use crate::stream_turn::{conclusion, turn_after, Candidate, StreamPhase, TurnModel, TurnStepModel};
use crate::stream_laws::completed_calls_are_whole;
use crate::streaming::{assembled, ModelStreamEvent};
use crate::text::{blank, texts};
use vstd::prelude::*;

verus! {

/// A call is executed early only where its tool is active, only the first call of a turn is, only
/// once it arrived whole, and only while the stream is open; it is then part of the response, too.
pub proof fn only_active_tools_run_early(
    turn: TurnModel,
    controller: ControllerModel,
    tools: Seq<RegisteredTool>,
    scope: &ToolScope,
    request: &RunRequest,
    probing: bool,
    item: Result<ModelStreamEvent<Seq<char>>, HarnessError<Seq<char>>>,
)
    ensures
        ({
            let (next, after, step) = turn_after(
                turn,
                controller,
                tools,
                scope,
                request,
                probing,
                item,
            );
            &&& step matches TurnStepModel::Issue(call, key) ==> {
                &&& !turn.considered && next.considered && next.candidate is None
                &&& turn.stream.phase == StreamPhase::Open
                &&& controller.with_tool(call.tool_id).mode(call.tool_id)
                    == SpeculationMode::Active
                &&& item matches Ok(ModelStreamEvent::ToolCallDelta(delta)) && delta.is_final
                    && delta.index == 0 && (assembled(
                    turn.stream.assembler,
                    delta,
                ).1 matches Ok(Some(whole)) && whole == call)
            }
            &&& turn.considered ==> next.considered
            &&& next.candidate is Some && turn.candidate is None ==> !turn.considered
            &&& step is Failed ==> next.candidate is None
        }),
{
    if let Ok(ModelStreamEvent::ToolCallDelta(delta)) = item {
        if let Ok(Some(_)) = assembled(turn.stream.assembler, delta).1 {
            completed_calls_are_whole(turn.stream.assembler, delta);
        }
    }
}

/// Every piece of text reaches the response, behind what arrived before, and changes nothing else;
/// a turn is finished by the completion of its response alone, and never with a call half arrived.
pub proof fn streamed_pieces_reach_the_response(
    turn: TurnModel,
    controller: ControllerModel,
    tools: Seq<RegisteredTool>,
    scope: &ToolScope,
    request: &RunRequest,
    probing: bool,
    item: Result<ModelStreamEvent<Seq<char>>, HarnessError<Seq<char>>>,
)
    ensures
        ({
            let (next, after, step) = turn_after(
                turn,
                controller,
                tools,
                scope,
                request,
                probing,
                item,
            );
            &&& item matches Ok(ModelStreamEvent::TextDelta { content }) ==> step is Failed || (
            next.response.text == turn.response.text + content && next.response.calls
                == turn.response.calls && after == controller && next.candidate == turn.candidate)
            &&& step is Finished ==> {
                &&& item matches Ok(ModelStreamEvent::Completed { model, usage })
                    && next.response.model == Some(model) && next.response.usage == usage
                &&& turn.stream.assembler.pending.len() == 0
                &&& next.response.text == turn.response.text
                &&& next.response.calls == turn.response.calls
            }
            &&& item is Err || turn.stream.phase != StreamPhase::Open ==> step is Failed
            &&& turn.events < u32::MAX ==> next.events == turn.events + 1
            &&& turn.events < u32::MAX && turn.events + 1 > controller.config.max_stream_events
                ==> step is Failed
        }),
{
}

/// A turn concludes with the response that arrived, whatever became of an early execution.
pub proof fn turns_conclude_with_their_response(
    turn: TurnModel,
    controller: ControllerModel,
    now_ms: u64,
)
    ensures
        match turn.response.response() {
            Ok(response) => conclusion(turn, controller, now_ms).1 matches Ok((told, _)) ==> told
                == response,
            Err(error) => conclusion(turn, controller, now_ms).1 is Err,
        },
        turn.response.response() is Ok && !(turn.candidate matches Some(
            Candidate::ActiveReady { .. },
        )) ==> conclusion(turn, controller, now_ms).1 matches Ok((_, None)),
{
}

/// Whether an agent is described completely.
pub open spec fn complete(agent: AgentDefinition) -> bool {
    let limits = agent.limits;
    let tools = agent.tool_allowlist@;
    &&& !blank(agent.id@) && !blank(agent.name@) && !blank(agent.version@) && !blank(
        agent.default_model@,
    )
    &&& limits.max_model_calls > 0 && limits.max_tool_calls > 0 && limits.max_identical_tool_calls
        > 0 && limits.max_input_bytes > 0 && limits.max_request_payload_bytes > 0
        && limits.max_model_response_bytes > 0 && limits.max_tool_arguments_bytes > 0
        && limits.max_tool_result_bytes > 0 && limits.max_transcript_bytes > 0
        && limits.max_json_depth > 0
    &&& forall|i: int| 0 <= i < tools.len() ==> !blank((#[trigger] tools[i])@)
    &&& forall|i: int, j: int|
        0 <= i < j < tools.len() ==> (#[trigger] tools[i])@ != (#[trigger] tools[j])@
}

proof fn faultless_agents_are_complete(agent: AgentDefinition)
    ensures
        agent_fault(agent) is None <==> complete(agent),
{
    let tools = agent.tool_allowlist@;
    let named = texts(tools);
    assert forall|i: int| 0 <= i < tools.len() implies #[trigger] named[i] == tools[i]@ by {}
    if complete(agent) {
        assert forall|i: int| 0 <= i < named.len() implies !blank(#[trigger] named[i]) by {
            assert(!blank(tools[i]@));
        }
        assert forall|i: int, j: int| 0 <= i < j < named.len() implies (#[trigger] named[i]) != (
        #[trigger] named[j]) by {
            assert(tools[i]@ != tools[j]@);
        }
    }
    if agent_fault(agent) is None {
        assert forall|i: int| 0 <= i < tools.len() implies !blank((#[trigger] tools[i])@) by {
            assert(!blank(named[i]));
        }
        assert forall|i: int, j: int| 0 <= i < j < tools.len() implies (#[trigger] tools[i])@ != (
        #[trigger] tools[j])@ by {
            assert(named[i] != named[j]);
        }
    }
}

/// Whether an agent of a list is complete and no earlier one has its identifier.
pub open spec fn stands_alone(agents: Seq<AgentDefinition>, index: int) -> bool {
    &&& complete(agents[index])
    &&& forall|k: int| 0 <= k < index ==> (#[trigger] agents[k]).id@ != agents[index].id@
}

proof fn faultless_lists_stand_alone(agents: Seq<AgentDefinition>, start: nat)
    ensures
        agents_fault(agents, start) is None <==> forall|i: int|
            start <= i < agents.len() ==> #[trigger] stands_alone(agents, i),
    decreases agents.len() - start,
{
    if start < agents.len() {
        faultless_lists_stand_alone(agents, start + 1);
        let agent = agents[start as int];
        faultless_agents_are_complete(agent);
        let earlier = agent_ids(agents).take(start as int);
        if earlier.contains(agent.id@) {
            let k = choose|k: int| 0 <= k < earlier.len() && earlier[k] == agent.id@;
            assert(agents[k].id@ == agent.id@);
            assert(!stands_alone(agents, start as int));
        } else {
            assert forall|k: int| 0 <= k < start implies (#[trigger] agents[k]).id@ != agent.id@ by {
                assert(earlier[k] == agents[k].id@);
            }
        }
        assert(stands_alone(agents, start as int) <==> complete(agent) && !earlier.contains(
            agent.id@,
        ));
        if agents_fault(agents, start) is None {
            assert forall|i: int| start <= i < agents.len() implies #[trigger] stands_alone(
                agents,
                i,
            ) by {
                if i > start {
                    assert(start + 1 <= i);
                }
            }
        }
    }
}

/// A manifest is accepted where it has the version that is read, every agent is complete and no two
/// have the same identifier; and it is accepted nowhere else.
pub proof fn accepted_manifests_are_complete(version: u32, agents: Seq<AgentDefinition>)
    ensures
        manifest_fault(version, agents) is None <==> version == AGENT_MANIFEST_VERSION && (forall|
            i: int,
        |
            0 <= i < agents.len() ==> complete(#[trigger] agents[i])) && (forall|i: int, j: int|
            0 <= i < j < agents.len() ==> (#[trigger] agents[i]).id@ != (
            #[trigger] agents[j]).id@),
{
    faultless_lists_stand_alone(agents, 0);
    if manifest_fault(version, agents) is None {
        assert forall|i: int| 0 <= i < agents.len() implies complete(#[trigger] agents[i]) by {
            assert(stands_alone(agents, i));
        }
        assert forall|i: int, j: int| 0 <= i < j < agents.len() implies (#[trigger] agents[i]).id@
            != (#[trigger] agents[j]).id@ by {
            assert(stands_alone(agents, j));
        }
    } else if version == AGENT_MANIFEST_VERSION {
        let i = choose|i: int| 0 <= i < agents.len() && !#[trigger] stands_alone(agents, i);
        assert(0 <= i < agents.len());
        if complete(agents[i]) {
            let k = choose|k: int| 0 <= k < i && (#[trigger] agents[k]).id@ == agents[i].id@;
            assert(agents[k].id@ == agents[i].id@);
        }
    }
}

} // verus!
