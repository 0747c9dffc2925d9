//! What holds of proposals, authorizations and effects, whichever strategy makes the calls.

use crate::admission::{
    admission, approval_outcome, bound_call, dispatched, execution_of, execution_recorded,
    finalization, invocation_fault, made_uncertain, policy_outcome, reuse_of, transcript_call,
    written_effect_reads_back, AdmissionModel, AuthorizationModel, ExecutionModel,
    FinalizationModel, PreparedModel, ReuseModel,
};
use crate::agent::{RunRequest, RunStatus};
use crate::broker::{
    effect_of, effect_position, invocation_key, occurrences, with_effect, BrokerModel, EffectModel,
    InvocationKey,
};
use crate::canonical::canonical_text;
use crate::event::RunEvent;
use crate::json::{depth, parsed_json, rendered_json, JsonTree};
use crate::ledger::LedgerModel;
use crate::limits::AgentLimits;
use crate::policy::PolicyDecision;
use crate::registry::{output_fault, position_from, registered, RegisteredTool, ToolScope};
use crate::schema::instance_fault;
use crate::text::{texts, utf8_len};
use crate::tool::{ToolCall, ToolCallContext, ToolCaller, ToolResultModel};
use vstd::prelude::*;

verus! {

/// A tool is looked up by its identifier: what is found bears it and no earlier tool does, and
/// nothing is found only where none does.
pub proof fn tools_are_found_by_identifier(tools: Seq<RegisteredTool>, id: Seq<char>)
    ensures
        match registered(tools, id) {
            Some(tool) => exists|k: int|
                0 <= k < tools.len() && #[trigger] tools[k] == tool && tool.definition.id@ == id
                    && forall|j: int|
                    0 <= j < k ==> (#[trigger] tools[j]).definition.id@ != id,
            None => forall|j: int|
                0 <= j < tools.len() ==> (#[trigger] tools[j]).definition.id@ != id,
        },
{
    position_is_first(tools, id, 0);
    if let Some(position) = position_from(tools, id, 0) {
        assert(tools[position as int] == registered(tools, id)->0);
    }
}

proof fn position_is_first(tools: Seq<RegisteredTool>, id: Seq<char>, start: nat)
    ensures
        match position_from(tools, id, start) {
            Some(position) => start <= position < tools.len() && tools[position as int].definition.id@
                == id && forall|j: int|
                start <= j < position ==> (#[trigger] tools[j]).definition.id@ != id,
            None => forall|j: int|
                start <= j < tools.len() ==> (#[trigger] tools[j]).definition.id@ != id,
        },
    decreases tools.len() - start,
{
    if start < tools.len() && tools[start as int].definition.id@ != id {
        position_is_first(tools, id, start + 1);
    }
}

/// Whether the registered tool of a call accepts it: it is in scope and on the list of the request,
/// admits the caller, and its schema accepts the arguments.
pub open spec fn acceptable(
    tools: Seq<RegisteredTool>,
    scope: &ToolScope,
    request: &RunRequest,
    tool_id: Seq<char>,
    arguments: JsonTree,
    caller: ToolCaller,
) -> bool {
    &&& scope.caller == caller
    &&& exists|k: int|
        0 <= k < scope.tool_ids@.len() && #[trigger] scope.tool_ids@[k]@ == tool_id
    &&& exists|k: int|
        0 <= k < request.agent.tool_allowlist@.len() && #[trigger] request.agent.tool_allowlist@[k]@
            == tool_id
    &&& registered(tools, tool_id) matches Some(tool) && tool.definition.allowed_callers@.contains(
        caller,
    ) && instance_fault(tool.definition.arguments_schema@, arguments) is None
}

proof fn listed_texts(list: Seq<String>, text: Seq<char>)
    ensures
        texts(list).contains(text) <==> exists|k: int|
            0 <= k < list.len() && #[trigger] list[k]@ == text,
{
    if texts(list).contains(text) {
        let k = choose|k: int| 0 <= k < texts(list).len() && texts(list)[k] == text;
        assert(list[k]@ == text);
    }
    if exists|k: int| 0 <= k < list.len() && #[trigger] list[k]@ == text {
        let k = choose|k: int| 0 <= k < list.len() && #[trigger] list[k]@ == text;
        assert(texts(list)[k] == text);
    }
}

/// A proposal is prepared only where it is acceptable and within every limit, and then stands for
/// the call that was proposed: its identifier, its tool and its parsed arguments. While the limits
/// leave room, what is not acceptable is refused, with a failure for the model and one more
/// rejection on record, and nothing else is counted.
pub proof fn only_acceptable_proposals_are_prepared(
    ledger: LedgerModel,
    tools: Seq<RegisteredTool>,
    scope: &ToolScope,
    request: &RunRequest,
    call: ToolCall<Seq<char>>,
    caller: ToolCaller,
    approval_barrier: bool,
    deferred: bool,
    supplied: Option<ToolCallContext<Seq<char>>>,
)
    requires
        ledger.broker.tool_calls < request.agent.limits.max_tool_calls,
        ledger.broker.tool_rejected < u32::MAX,
    ensures
        ({
            let (next, outcome) = admission(
                ledger,
                tools,
                scope,
                request,
                call,
                caller,
                approval_barrier,
                deferred,
                supplied,
            );
            let limits = request.agent.limits;
            let fit = utf8_len(call.arguments_json) <= limits.max_tool_arguments_bytes && (
            parsed_json(call.arguments_json) matches Ok(arguments) && depth(arguments)
                <= limits.max_json_depth && utf8_len(rendered_json(arguments))
                <= limits.max_tool_arguments_bytes && acceptable(
                tools,
                scope,
                request,
                call.tool_id,
                arguments,
                caller,
            ));
            let prepared = match outcome {
                Ok(AdmissionModel::Authorize(prepared)) => Some(prepared),
                Ok(AdmissionModel::Deferred(prepared)) => Some(prepared),
                _ => None,
            };
            &&& next.broker.tool_calls == ledger.broker.tool_calls + 1
            &&& next.broker.tool_issued == ledger.broker.tool_issued
            &&& next.broker.effects == ledger.broker.effects
            &&& !fit <==> (outcome matches Ok(AdmissionModel::Rejected(_)))
            &&& outcome matches Ok(AdmissionModel::Rejected(result)) ==> {
                &&& !result.ok && result.error is Some && result.output is Null
                &&& next.broker.tool_rejected == ledger.broker.tool_rejected + 1
                &&& next.broker.accounted == ledger.broker.accounted
                &&& next.result.errors.len() == ledger.result.errors.len() + 1
                &&& next.result.errors.last().code == "tool_rejected"@
                &&& next.result.status == ledger.result.status
                &&& next.events.len() == ledger.events.len() + 1
                &&& (next.events.last() matches RunEvent::ToolRejected { call_id, tool_id, .. }
                    && call_id == call.id && tool_id == call.tool_id)
            }
            &&& prepared matches Some(prepared) ==> {
                &&& fit
                &&& prepared.call.id == call.id && prepared.call.tool_id == call.tool_id
                &&& parsed_json(call.arguments_json) == Ok::<JsonTree, Seq<char>>(
                    prepared.arguments,
                )
                &&& prepared.call.arguments_json == rendered_json(prepared.arguments)
                &&& prepared.caller == caller && prepared.approval_barrier == approval_barrier
                &&& (registered(tools, call.tool_id) matches Some(tool) && prepared.serial
                    == tool.serial && prepared.read_only == tool.definition.read_only)
                &&& next.broker.tool_rejected == ledger.broker.tool_rejected
                &&& next.result.errors == ledger.result.errors && next.result.status
                    == ledger.result.status
            }
            &&& outcome matches Ok(AdmissionModel::Authorize(prepared)) ==> {
                &&& !deferred
                &&& prepared.signature == Some(invocation_key(call.tool_id, prepared.arguments))
                &&& prepared.authorized_signature == prepared.signature
                &&& next.broker.accounted == ledger.broker.accounted.push(prepared.signature->0)
                &&& occurrences(ledger.broker.accounted, prepared.signature->0)
                    < limits.max_identical_tool_calls
            }
            &&& outcome matches Ok(AdmissionModel::Deferred(prepared)) ==> {
                &&& deferred && prepared.signature is None && prepared.authorized_signature is None
                &&& next.broker.accounted == ledger.broker.accounted
            }
        }),
{
    reveal(admission);
    listed_texts(scope.tool_ids@, call.tool_id);
    listed_texts(request.agent.tool_allowlist@, call.tool_id);
}

/// An acceptable proposal that describes itself as the broker expects goes on to its
/// authorization, unless its effect is known already or it was made too often.
pub proof fn acceptable_proposals_go_on(
    ledger: LedgerModel,
    tools: Seq<RegisteredTool>,
    scope: &ToolScope,
    request: &RunRequest,
    call: ToolCall<Seq<char>>,
    arguments: JsonTree,
    caller: ToolCaller,
    approval_barrier: bool,
)
    requires
        ledger.broker.tool_calls < request.agent.limits.max_tool_calls,
        caller != ToolCaller::Programmatic,
        utf8_len(call.arguments_json) <= request.agent.limits.max_tool_arguments_bytes,
        parsed_json(call.arguments_json) == Ok::<JsonTree, Seq<char>>(arguments),
        depth(arguments) <= request.agent.limits.max_json_depth,
        utf8_len(rendered_json(arguments)) <= request.agent.limits.max_tool_arguments_bytes,
        acceptable(tools, scope, request, call.tool_id, arguments, caller),
        !ledger.broker.reuse_committed_effects,
    ensures
        ({
            let (next, outcome) = admission(
                ledger,
                tools,
                scope,
                request,
                call,
                caller,
                approval_barrier,
                false,
                None,
            );
            let key = invocation_key(call.tool_id, arguments);
            if occurrences(ledger.broker.accounted, key)
                < request.agent.limits.max_identical_tool_calls {
                outcome matches Ok(AdmissionModel::Authorize(_))
            } else {
                &&& outcome matches Ok(AdmissionModel::Stop)
                &&& next.result.status == RunStatus::LimitReached
                &&& next.result.repeated_tool_call_limit_reached
            }
        }),
{
    reveal(admission);
    listed_texts(scope.tool_ids@, call.tool_id);
    listed_texts(request.agent.tool_allowlist@, call.tool_id);
}

/// At the limit of calls nothing more is admitted: the run stops there, and no counter moves.
pub proof fn call_limits_stop_the_run(
    ledger: LedgerModel,
    tools: Seq<RegisteredTool>,
    scope: &ToolScope,
    request: &RunRequest,
    call: ToolCall<Seq<char>>,
    caller: ToolCaller,
    approval_barrier: bool,
    deferred: bool,
    supplied: Option<ToolCallContext<Seq<char>>>,
)
    requires
        ledger.broker.tool_calls >= request.agent.limits.max_tool_calls,
    ensures
        ({
            let (next, outcome) = admission(
                ledger,
                tools,
                scope,
                request,
                call,
                caller,
                approval_barrier,
                deferred,
                supplied,
            );
            &&& outcome matches Ok(AdmissionModel::Stop)
            &&& next.broker == ledger.broker && next.events == ledger.events
            &&& next.result.status == RunStatus::LimitReached
            &&& next.result.tool_call_limit_reached
            &&& next.result.tool_calls == ledger.result.tool_calls
        }),
{
    reveal(admission);
}

/// How often a call was counted is how many of the counted calls have its identity.
pub proof fn identical_calls_are_counted(
    keys: Seq<InvocationKey<Seq<char>>>,
    key: InvocationKey<Seq<char>>,
)
    ensures
        occurrences(keys, key) == keys.filter(|other: InvocationKey<Seq<char>>| other == key).len(),
        occurrences(keys.push(key), key) == occurrences(keys, key) + 1,
    decreases keys.len(),
{
    reveal(Seq::filter);
    assert(keys.push(key).drop_last() =~= keys);
    if keys.len() > 0 {
        identical_calls_are_counted(keys.drop_last(), key);
    }
}

/// Two calls have the same identity exactly where they name the same tool and their arguments have
/// the same canonical text; the call of a program has an identity of its own.
pub proof fn identities_tell_calls_apart(
    left: Seq<char>,
    left_arguments: JsonTree,
    right: Seq<char>,
    right_arguments: JsonTree,
)
    ensures
        invocation_key(left, left_arguments) == invocation_key(right, right_arguments) <==> left
            == right && canonical_text(left_arguments) == canonical_text(right_arguments),
        invocation_key(left, left_arguments).programmatic_occurrence is None,
{
}

/// What the policy says decides: what it denies is rejected, counted and told so; what needs
/// approval, by its word or because the call demands it, waits for that; the rest is authorized.
/// The decision is recorded once.
pub proof fn policies_decide(
    ledger: LedgerModel,
    call: ToolCall<Seq<char>>,
    decision: PolicyDecision<Seq<char>>,
    approval_barrier: bool,
)
    requires
        ledger.broker.tool_rejected < u32::MAX,
    ensures
        ({
            let (next, outcome) = policy_outcome(ledger, call, decision, approval_barrier);
            let recorded = next.result.policy_decisions;
            &&& outcome is Authorized <==> decision is Allow && !approval_barrier
            &&& outcome is AskApproval <==> decision is RequireApproval || (decision is Allow
                && approval_barrier)
            &&& outcome is Rejected <==> decision is Deny
            &&& outcome matches AuthorizationModel::Rejected(result) ==> !result.ok
                && result.output is Null && result.error == Some("policy denied"@)
            &&& next.broker.tool_rejected == ledger.broker.tool_rejected + (if decision is Deny {
                1int
            } else {
                0int
            })
            &&& next.broker.tool_issued == ledger.broker.tool_issued && next.broker.effects
                == ledger.broker.effects && next.broker.tool_calls == ledger.broker.tool_calls
            &&& recorded.len() == ledger.result.policy_decisions.len() + 1
            &&& recorded.drop_last() == ledger.result.policy_decisions
            &&& (recorded.last() is Deny <==> decision is Deny) && (recorded.last() is Allow
                <==> decision is Allow)
            &&& (next.events[ledger.events.len() as int] matches RunEvent::PolicyDecided {
                call_id,
                decision: told,
            } && call_id == call.id && told == recorded.last())
            &&& outcome is AskApproval ==> next.events.last() == RunEvent::ApprovalRequested {
                call_id: call.id,
                tool_id: call.tool_id,
            }
            &&& next.result.status == ledger.result.status && next.result.approvals
                == ledger.result.approvals
        }),
{
    let (next, _) = policy_outcome(ledger, call, decision, approval_barrier);
    assert(next.result.policy_decisions.drop_last() =~= ledger.result.policy_decisions);
}

/// Approval decides: a call is authorized exactly where it was granted. What was not granted is
/// rejected, with the failure that says so, and counted. The answer is recorded with its call.
pub proof fn approvals_decide(ledger: LedgerModel, call: ToolCall<Seq<char>>, granted: bool)
    requires
        ledger.broker.tool_rejected < u32::MAX,
    ensures
        ({
            let (next, outcome) = approval_outcome(ledger, call, granted);
            let recorded = next.result.approvals;
            &&& outcome is Authorized <==> granted
            &&& !(outcome is AskApproval)
            &&& outcome matches AuthorizationModel::Rejected(result) ==> !granted && !result.ok
                && result.output is Null && result.error == Some("approval denied"@)
            &&& next.broker.tool_rejected == ledger.broker.tool_rejected + (if granted {
                0int
            } else {
                1int
            })
            &&& next.broker.tool_issued == ledger.broker.tool_issued && next.broker.effects
                == ledger.broker.effects && next.broker.tool_calls == ledger.broker.tool_calls
            &&& recorded.len() == ledger.result.approvals.len() + 1
            &&& recorded.drop_last() == ledger.result.approvals
            &&& recorded.last().granted == granted && recorded.last().call_id == call.id
                && recorded.last().tool_id == call.tool_id
            &&& next.events.len() == ledger.events.len() + (if granted {
                0int
            } else {
                1int
            })
            &&& !granted ==> next.events.last() == (RunEvent::ToolRejected {
                call_id: call.id,
                tool_id: call.tool_id,
                reason: "approval denied"@,
            }) && next.result.errors.len() == ledger.result.errors.len() + 1
            &&& next.result.status == ledger.result.status
        }),
{
    let (next, _) = approval_outcome(ledger, call, granted);
    assert(next.result.approvals.drop_last() =~= ledger.result.approvals);
}

/// A prepared call is handed to its tool only while everything stands as it was authorized: the
/// same registration, in scope, for this caller, with the arguments that were authorized.
pub proof fn only_unchanged_calls_are_invoked(
    tools: Seq<RegisteredTool>,
    scope: &ToolScope,
    prepared: PreparedModel,
)
    ensures
        invocation_fault(tools, scope, prepared) is None <==> {
            let key = invocation_key(prepared.call.tool_id, prepared.arguments);
            &&& registered(tools, prepared.call.tool_id) matches Some(tool) && tool.serial
                == prepared.serial && tool.definition.allowed_callers@.contains(prepared.caller)
            &&& scope.caller == prepared.caller && exists|k: int|
                0 <= k < scope.tool_ids@.len() && #[trigger] scope.tool_ids@[k]@
                    == prepared.call.tool_id
            &&& prepared.call.arguments_json == rendered_json(prepared.arguments)
            &&& prepared.signature == Some(key) && prepared.authorized_signature == Some(key)
        },
{
    listed_texts(scope.tool_ids@, prepared.call.tool_id);
}

/// A result is handed on as it came where it is small enough, not too deep, and what its tool
/// promised. A successful one that its tool did not promise becomes a failure; one beyond a limit
/// is an error.
pub proof fn results_are_checked(
    tools: Seq<RegisteredTool>,
    limits: AgentLimits,
    tool_id: Seq<char>,
    result: ToolResultModel,
)
    ensures
        match execution_of(tools, limits, tool_id, result) {
            Ok(execution) => {
                let broken = result.ok && output_fault(tools, tool_id, result.output) is Some;
                &&& utf8_len(result.json_text()) <= limits.max_tool_result_bytes
                &&& depth(result.output) <= limits.max_json_depth
                &&& !broken ==> execution.result == result && execution.validation_error is None
                &&& broken ==> !execution.result.ok && execution.result.output is Null
                    && execution.validation_error is Some
            },
            Err(error) => {
                &&& error is ResourceLimit
                &&& utf8_len(result.json_text()) > limits.max_tool_result_bytes || depth(
                    result.output,
                ) > limits.max_json_depth
            },
        },
{
}

/// A record of an effect changes no other record.
pub proof fn other_effects_stay(
    effects: Seq<(InvocationKey<Seq<char>>, EffectModel)>,
    key: InvocationKey<Seq<char>>,
    effect: EffectModel,
    other: InvocationKey<Seq<char>>,
)
    requires
        other != key,
    ensures
        effect_of(with_effect(effects, key, effect), other) == effect_of(effects, other),
{
    key_position(effects, key, 0);
    other_position(effects, with_effect(effects, key, effect), key, other, 0);
}

proof fn key_position(
    effects: Seq<(InvocationKey<Seq<char>>, EffectModel)>,
    key: InvocationKey<Seq<char>>,
    start: nat,
)
    ensures
        effect_position(effects, key, start) matches Some(position) ==> start <= position
            < effects.len() && effects[position as int].0 == key,
    decreases effects.len() - start,
{
    if start < effects.len() {
        key_position(effects, key, start + 1);
    }
}

proof fn other_position(
    effects: Seq<(InvocationKey<Seq<char>>, EffectModel)>,
    written: Seq<(InvocationKey<Seq<char>>, EffectModel)>,
    key: InvocationKey<Seq<char>>,
    other: InvocationKey<Seq<char>>,
    start: nat,
)
    requires
        other != key,
        effects.len() <= written.len() <= effects.len() + 1,
        forall|i: int|
            #![trigger written[i]]
            0 <= i < effects.len() ==> written[i] == effects[i] || (written[i].0 == key
                && effects[i].0 == key),
        written.len() > effects.len() ==> written.last().0 == key,
        start <= written.len(),
    ensures
        effect_position(written, other, start) == effect_position(effects, other, start),
        effect_position(effects, other, start) matches Some(position) ==> position < effects.len()
            && written[position as int] == effects[position as int],
    decreases written.len() - start,
{
    if start < written.len() {
        assert(start < effects.len() ==> (written[start as int] == effects[start as int] || (
        written[start as int].0 == key && effects[start as int].0 == key)));
        other_position(effects, written, key, other, start + 1);
    }
}

/// A state-changing call is on record from its dispatch on: as dispatched, then as completed with
/// its result where it succeeded, and as uncertain where it did not or where its outcome was lost. A
/// call that changes nothing leaves no record. Each dispatch counts as one issue, each return as one
/// completion or one failure.
pub proof fn effects_are_recorded(
    broker: BrokerModel,
    prepared: PreparedModel,
    execution: ExecutionModel,
)
    requires
        broker.tool_issued < u32::MAX,
        broker.tool_completed < u32::MAX,
        broker.tool_failed < u32::MAX,
    ensures
        ({
            let issued = dispatched(broker, prepared);
            let returned = execution_recorded(broker, prepared, execution);
            let lost = made_uncertain(broker, prepared);
            let well = execution.result.ok && execution.validation_error is None;
            &&& issued.tool_issued == broker.tool_issued + 1
            &&& returned.tool_issued == broker.tool_issued && lost.tool_issued == broker.tool_issued
            &&& returned.tool_completed == broker.tool_completed + (if well {
                1int
            } else {
                0int
            })
            &&& returned.tool_failed == broker.tool_failed + (if well {
                0int
            } else {
                1int
            })
            &&& prepared.read_only ==> issued.effects == broker.effects && returned.effects
                == broker.effects && lost.effects == broker.effects
            &&& !prepared.read_only && prepared.effect_key is Some ==> {
                let key = prepared.effect_key->0;
                &&& effect_of(issued.effects, key) == Some(EffectModel::Dispatched)
                &&& effect_of(lost.effects, key) == Some(EffectModel::Uncertain)
                &&& effect_of(returned.effects, key) == Some(
                    if well {
                        EffectModel::Completed(execution.result)
                    } else {
                        EffectModel::Uncertain
                    },
                )
            }
        }),
{
    if prepared.effect_key is Some {
        let key = prepared.effect_key->0;
        written_effect_reads_back(broker.effects, key, EffectModel::Dispatched);
        written_effect_reads_back(broker.effects, key, EffectModel::Uncertain);
        written_effect_reads_back(broker.effects, key, EffectModel::Completed(execution.result));
    }
}

/// A recorded effect answers a later call only where effects are reused and the call may change
/// something; where nothing is recorded the call is new.
pub proof fn only_recorded_effects_answer(
    broker: BrokerModel,
    caller: ToolCaller,
    read_only: bool,
    key: InvocationKey<Seq<char>>,
)
    ensures
        ({
            let reuse = reuse_of(broker, caller, read_only, key);
            &&& reuse matches ReuseModel::Recorded(result) ==> effect_of(broker.effects, key)
                == Some(EffectModel::Completed(result)) && broker.reuse_committed_effects
                && !read_only && caller != ToolCaller::Programmatic
            &&& reuse is Forbidden ==> (effect_of(broker.effects, key) == Some(
                EffectModel::Dispatched,
            ) || effect_of(broker.effects, key) == Some(EffectModel::Uncertain))
                && broker.reuse_committed_effects && !read_only
            &&& effect_of(broker.effects, key) is None ==> reuse is New
            &&& read_only || caller == ToolCaller::Programmatic || !broker.reuse_committed_effects
                ==> reuse is New
        }),
{
}

/// A call whose arguments were bound runs without being asked about again only where exactly these
/// arguments were authorized; they must fit the limits and still be allowed, and an effect that is
/// known is not caused again.
pub proof fn bound_calls_run_as_authorized(
    ledger: LedgerModel,
    tools: Seq<RegisteredTool>,
    scope: &ToolScope,
    request: &RunRequest,
    prepared: PreparedModel,
    permitted: bool,
    arguments: JsonTree,
)
    ensures
        ({
            let (next, call, outcome) = finalization(
                ledger,
                tools,
                scope,
                request,
                prepared,
                permitted,
                arguments,
            );
            let limits = request.agent.limits;
            let key = invocation_key(prepared.call.tool_id, arguments);
            let fit = utf8_len(rendered_json(arguments)) <= limits.max_tool_arguments_bytes
                && depth(arguments) <= limits.max_json_depth && permitted && scope.caller
                == prepared.caller && texts(scope.tool_ids@).contains(prepared.call.tool_id)
                && texts(request.agent.tool_allowlist@).contains(prepared.call.tool_id) && (
            registered(tools, prepared.call.tool_id) matches Some(tool) && instance_fault(
                tool.definition.arguments_schema@,
                arguments,
            ) is None);
            &&& outcome is Ok ==> fit
            &&& outcome matches Ok(FinalizationModel::Ready) ==> prepared.authorized_signature
                == Some(key) && call.arguments == arguments && call.call.arguments_json
                == rendered_json(arguments) && call.signature == Some(key)
                && call.authorized_signature == Some(key) && call.call.id == prepared.call.id
                && call.call.tool_id == prepared.call.tool_id
            &&& outcome matches Ok(FinalizationModel::Authorize) ==> prepared.authorized_signature
                != Some(key) && call.authorized_signature == prepared.authorized_signature
                && call.signature_accounted
            &&& outcome matches Ok(FinalizationModel::Reused(result)) ==> effect_of(
                ledger.broker.effects,
                key,
            ) == Some(EffectModel::Completed(result)) && next.broker.accounted
                == ledger.broker.accounted
            &&& outcome matches Ok(FinalizationModel::Stop) ==> occurrences(
                ledger.broker.accounted,
                key,
            ) >= limits.max_identical_tool_calls && next.result.repeated_tool_call_limit_reached
            &&& outcome is Ok && !prepared.signature_accounted ==> next.result.tool_calls.len()
                == ledger.result.tool_calls.len() + 1 && next.result.tool_calls.last().arguments_json
                == rendered_json(arguments)
            &&& ((outcome matches Ok(FinalizationModel::Ready)) || (outcome matches Ok(
                FinalizationModel::Authorize,
            ))) && !prepared.signature_accounted ==> next.broker.accounted
                == ledger.broker.accounted.push(key)
            &&& fit && !ledger.broker.reuse_committed_effects ==> outcome is Ok
        }),
{
}

/// Binding gives a call exactly the arguments at hand, and the identity that goes with them.
pub proof fn bound_calls_hold_their_arguments(prepared: PreparedModel, arguments: JsonTree)
    ensures
        ({
            let bound = bound_call(prepared, arguments);
            let key = invocation_key(prepared.call.tool_id, arguments);
            &&& bound.arguments == arguments
            &&& bound.call.arguments_json == rendered_json(arguments)
            &&& bound.call.id == prepared.call.id && bound.call.tool_id == prepared.call.tool_id
            &&& bound.signature == Some(key) && bound.authorized_signature == Some(key)
            &&& bound.effect_key == (if prepared.read_only {
                None
            } else {
                Some(key)
            })
            &&& bound.serial == prepared.serial && bound.caller == prepared.caller
                && bound.read_only == prepared.read_only && bound.context == prepared.context
        }),
{
}

/// The transcript shows the arguments of a call only where its tool accepts them.
pub proof fn transcripts_hide_invalid_arguments(
    tools: Seq<RegisteredTool>,
    scope: &ToolScope,
    request: &RunRequest,
    call: ToolCall<Seq<char>>,
    caller: ToolCaller,
)
    ensures
        ({
            let told = transcript_call(tools, scope, request, call, caller);
            let limits = request.agent.limits;
            let valid = utf8_len(call.arguments_json) <= limits.max_tool_arguments_bytes && (
            parsed_json(call.arguments_json) matches Ok(arguments) && depth(arguments)
                <= limits.max_json_depth && acceptable(
                tools,
                scope,
                request,
                call.tool_id,
                arguments,
                caller,
            ));
            &&& told.id == call.id && told.tool_id == call.tool_id
            &&& valid ==> told.arguments_json == call.arguments_json
            &&& !valid ==> told.arguments_json == "{}"@
        }),
{
    listed_texts(scope.tool_ids@, call.tool_id);
    listed_texts(request.agent.tool_allowlist@, call.tool_id);
}

} // verus!
