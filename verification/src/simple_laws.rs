//! What holds of a simple run, over all that may come back from outside.

use crate::agent::{RunRequest, RunResultModel, RunStatus};
use crate::error::HarnessError;
use crate::event::RunEvent;
use crate::json::{parsed_json, rendered_json, JsonTree};
use crate::lexicon::term_count;
use crate::message::{tool_message, MessageModel, MessageRole};
use crate::model::ResponseModel;
use crate::policy::{ApprovalRecord, PolicyDecision};
use crate::registry::{arguments_fault, registered, RegisteredTool};
use crate::schema::{compiled_fault, schema_violation};
use crate::simple_run::{
    call_identity, simple_approval, simple_completion, simple_decision, simple_execution,
    simple_next, simple_response, simple_turn, SimpleAction, SimpleModel, SimpleStageModel,
};
use crate::text::texts;
use crate::tool::{failure_model, ToolCall, ToolResultModel};
use vstd::prelude::*;

verus! {

/// Whether a message answers a call with a failure.
pub open spec fn answered_with_failure(
    message: MessageModel,
    call: ToolCall<Seq<char>>,
) -> bool {
    &&& message.role == MessageRole::Tool && message.tool_call_id == Some(call.id)
    &&& exists|reason: Seq<char>|
        message.content == #[trigger] failure_text(reason)
}

/// The text of a failed result without output.
pub open spec fn failure_text(reason: Seq<char>) -> Seq<char> {
    (ToolResultModel { ok: false, output: JsonTree::Null, error: Some(reason) }).json_text()
}

/// Whether a proposed call may be put to the policy: its arguments can be read and fit its tool,
/// which is registered and open to the agent.
pub open spec fn may_be_decided(
    tools: Seq<RegisteredTool>,
    request: &RunRequest,
    call: ToolCall<Seq<char>>,
) -> bool {
    &&& parsed_json(call.arguments_json) is Ok
    &&& registered(tools, call.tool_id) is Some
    &&& exists|i: int|
        0 <= i < request.agent.tool_allowlist.len()
            && #[trigger] request.agent.tool_allowlist[i]@ == call.tool_id
    &&& arguments_fault(tools, call.tool_id, parsed_json(call.arguments_json)->Ok_0) is None
}

/// The waiting calls are taken in their order. Each that may not be put to the policy is answered
/// with a failure, and the first that may is put to it, with the arguments that it was proposed
/// with. Every call counts, those that were refused too, and no more are taken than are allowed. No
/// call runs before it was decided.
pub proof fn waiting_calls_are_taken_in_order(
    run: SimpleModel,
    tools: Seq<RegisteredTool>,
    request: &RunRequest,
)
    ensures
        ({
            let (next, action) = simple_next(run, tools, request);
            let taken = next.messages.len() - run.messages.len();
            &&& 0 <= taken <= run.waiting.len()
            &&& forall|i: int|
                #![trigger next.messages[i]]
                0 <= i < run.messages.len() ==> next.messages[i] == run.messages[i]
            &&& forall|i: int|
                #![trigger run.waiting[i]]
                0 <= i < taken ==> answered_with_failure(
                    next.messages[run.messages.len() + i],
                    run.waiting[i],
                ) && !may_be_decided(tools, request, run.waiting[i])
            &&& next.model_calls == run.model_calls && next.output_repairs == run.output_repairs
            &&& next.tool_calls == run.tool_calls || next.tool_calls
                <= request.agent.limits.max_tool_calls
            &&& match next.stage {
                SimpleStageModel::AwaitPolicy(call, arguments) => {
                    &&& action is AskPolicy && taken < run.waiting.len()
                    &&& call == run.waiting[taken] && may_be_decided(tools, request, call)
                    &&& parsed_json(call.arguments_json) == Ok::<JsonTree, Seq<char>>(arguments)
                    &&& next.waiting == run.waiting.skip(taken + 1)
                    &&& next.tool_calls == run.tool_calls + taken + 1
                    &&& next.ledger.result.tool_calls == run.ledger.result.tool_calls
                        + run.waiting.take(taken + 1)
                },
                SimpleStageModel::Turn => {
                    &&& action is Check && taken == run.waiting.len() && next.waiting.len() == 0
                    &&& next.tool_calls == run.tool_calls + taken
                },
                SimpleStageModel::Done => action is Finish && next.ledger.result.status
                    == RunStatus::LimitReached,
                _ => false,
            }
        }),
    decreases run.waiting.len(),
{
    let limits = request.agent.limits;
    if run.waiting.len() > 0 && run.tool_calls < limits.max_tool_calls {
        let call = run.waiting[0];
        let (next, action) = simple_next(run, tools, request);
        let entered = SimpleModel {
            waiting: run.waiting.drop_first(),
            tool_calls: (run.tool_calls + 1) as u32,
            ..run.with_result(
                RunResultModel {
                    tool_calls: run.ledger.result.tool_calls.push(call),
                    ..run.ledger.result
                },
            )
        };
        let allowed = texts(request.agent.tool_allowlist@).contains(call.tool_id);
        if allowed {
            let i = choose|i: int|
                0 <= i < texts(request.agent.tool_allowlist@).len()
                    && texts(request.agent.tool_allowlist@)[i] == call.tool_id;
            assert(request.agent.tool_allowlist[i]@ == call.tool_id);
        } else {
            assert forall|i: int| 0 <= i < request.agent.tool_allowlist.len() implies (
            #[trigger] request.agent.tool_allowlist[i])@ != call.tool_id by {
                assert(texts(request.agent.tool_allowlist@)[i]
                    == request.agent.tool_allowlist[i]@);
            }
        }
        if !may_be_decided(tools, request, call) {
            let (known, told) = match parsed_json(call.arguments_json) {
                Err(message) => (entered, ("malformed JSON: "@ + message, "malformed tool arguments"@)),
                Ok(arguments) => (
                    SimpleModel {
                        identities: run.identities.push(
                            call_identity(call.tool_id, arguments),
                        ),
                        ..entered
                    },
                    if registered(tools, call.tool_id) is None {
                        ("unknown tool"@, "unknown tool"@)
                    } else if !allowed {
                        ("tool is not allowed for agent"@, "tool is not allowed"@)
                    } else {
                        (
                            arguments_fault(tools, call.tool_id, arguments)->0.display_text(),
                            "tool arguments failed validation"@,
                        )
                    },
                ),
            };
            let refused = known.refused(call, told.0, told.1);
            assert(refused.messages.last().content == failure_text(told.1));
            waiting_calls_are_taken_in_order(refused, tools, request);
            if next == simple_next(refused, tools, request).0 {
                let taken = next.messages.len() - run.messages.len();
                let rest = run.waiting.drop_first();
                assert(next.messages[run.messages.len() as int]
                    == refused.messages[run.messages.len() as int]);
                assert forall|i: int| #![trigger run.waiting[i]] 0 <= i < taken implies
                    answered_with_failure(
                    next.messages[run.messages.len() + i],
                    run.waiting[i],
                ) && !may_be_decided(tools, request, run.waiting[i]) by {
                    if i > 0 {
                        assert(rest[i - 1] == run.waiting[i]);
                    }
                }
                assert forall|i: int| #![trigger next.messages[i]] 0 <= i
                    < run.messages.len() implies next.messages[i] == run.messages[i] by {
                    assert(refused.messages[i] == run.messages[i]);
                }
                if next.stage is AwaitPolicy {
                    assert(rest.skip(taken) =~= run.waiting.skip(taken + 1));
                    assert(run.ledger.result.tool_calls.push(call) + rest.take(taken)
                        =~= run.ledger.result.tool_calls + run.waiting.take(taken + 1));
                }
            }
        } else {
            assert(run.waiting.skip(1) =~= run.waiting.drop_first());
            assert(run.ledger.result.tool_calls + run.waiting.take(1)
                =~= run.ledger.result.tool_calls.push(call));
        }
    }
}

/// No call is decided that was proposed more often, for the same tool with the same arguments, than
/// is allowed.
pub proof fn repeated_calls_are_limited(
    run: SimpleModel,
    tools: Seq<RegisteredTool>,
    request: &RunRequest,
)
    ensures
        ({
            let (next, action) = simple_next(run, tools, request);
            next.stage matches SimpleStageModel::AwaitPolicy(call, arguments) ==> {
                let identity = call.tool_id + ":"@ + rendered_json(arguments);
                &&& next.identities.len() > 0 && next.identities.last() == identity
                &&& term_count(next.identities, identity)
                    <= request.agent.limits.max_identical_tool_calls
                &&& run.identities.len() < next.identities.len()
                &&& next.identities.take(run.identities.len() as int) == run.identities
            }
        }),
    decreases run.waiting.len(),
{
    let limits = request.agent.limits;
    if run.waiting.len() > 0 && run.tool_calls < limits.max_tool_calls {
        let call = run.waiting[0];
        let entered = SimpleModel {
            waiting: run.waiting.drop_first(),
            tool_calls: (run.tool_calls + 1) as u32,
            ..run.with_result(
                RunResultModel {
                    tool_calls: run.ledger.result.tool_calls.push(call),
                    ..run.ledger.result
                },
            )
        };
        let (known, told) = match parsed_json(call.arguments_json) {
            Err(message) => (
                entered,
                ("malformed JSON: "@ + message, "malformed tool arguments"@),
            ),
            Ok(arguments) => (
                SimpleModel {
                    identities: run.identities.push(call_identity(call.tool_id, arguments)),
                    ..entered
                },
                if registered(tools, call.tool_id) is None {
                    ("unknown tool"@, "unknown tool"@)
                } else if !texts(request.agent.tool_allowlist@).contains(call.tool_id) {
                    ("tool is not allowed for agent"@, "tool is not allowed"@)
                } else {
                    (
                        arguments_fault(tools, call.tool_id, arguments)->0.display_text(),
                        "tool arguments failed validation"@,
                    )
                },
            ),
        };
        let refused = known.refused(call, told.0, told.1);
        repeated_calls_are_limited(refused, tools, request);
        let (next, action) = simple_next(run, tools, request);
        if next == simple_next(refused, tools, request).0 && next.stage is AwaitPolicy {
            let kept = next.identities.take(known.identities.len() as int);
            assert(kept == known.identities);
            assert(next.identities.take(run.identities.len() as int) =~= kept.take(
                run.identities.len() as int,
            ));
            assert(known.identities.take(run.identities.len() as int) =~= run.identities);
        }
        assert(known.identities.take(run.identities.len() as int) =~= run.identities);
    }
}

/// A run that is neither late nor cancelled calls the model while calls are left, counts the call
/// and announces it. A late one fails, a cancelled one is cancelled, and at the limit it stops.
pub proof fn turns_call_the_model(
    run: SimpleModel,
    request: &RunRequest,
    elapsed_ms: u64,
    cancelled: bool,
)
    ensures
        ({
            let (next, action) = simple_turn(run, request, elapsed_ms, cancelled);
            let limits = request.agent.limits;
            let late = limits.max_run_duration_ms matches Some(most) && elapsed_ms >= most;
            let result = next.ledger.result;
            &&& next.messages == run.messages && next.waiting == run.waiting
            &&& next.tool_calls == run.tool_calls && next.output_repairs == run.output_repairs
            &&& result.final_output == run.ledger.result.final_output
            &&& if !late && !cancelled && run.model_calls < limits.max_model_calls {
                &&& next.stage is AwaitModel
                &&& next.model_calls == run.model_calls + 1
                &&& action == SimpleAction::CallModel { number: next.model_calls }
                &&& result == run.ledger.result
                &&& next.ledger.events == run.ledger.events.push(
                    RunEvent::ModelRequested {
                        call_number: next.model_calls,
                        model: run.ledger.result.model,
                    },
                )
            } else {
                &&& action is Finish && next.stage is Done && next.model_calls == run.model_calls
                &&& late ==> result.status == RunStatus::Failed && result.errors.last().code
                    == "timed_out"@ && result.errors.len() == run.ledger.result.errors.len() + 1
                &&& !late && cancelled ==> result.status == RunStatus::Cancelled
                    && result.cancelled
                &&& !late && !cancelled ==> result.status == RunStatus::LimitReached
                    && result.model_call_limit_reached
            }
        }),
{
    reveal(simple_turn);
}

/// A call runs only where the policy allowed it, or approval was granted where it was due; it runs
/// with the arguments that were decided on. A denied call is answered with a failure and the next
/// is taken.
pub proof fn policies_decide_what_runs(
    run: SimpleModel,
    tools: Seq<RegisteredTool>,
    request: &RunRequest,
    call: ToolCall<Seq<char>>,
    arguments: JsonTree,
    decision: PolicyDecision<Seq<char>>,
)
    ensures
        ({
            let (next, action) = simple_decision(run, tools, request, call, arguments, decision);
            &&& action is Execute <==> decision is Allow
            &&& action is AskApproval <==> decision is RequireApproval
            &&& next.stage is AwaitExecution <==> decision is Allow
            &&& decision is Allow ==> next.stage == SimpleStageModel::AwaitExecution(
                call,
                arguments,
            ) && next.messages == run.messages && next.waiting == run.waiting
            &&& decision is RequireApproval ==> next.stage == SimpleStageModel::AwaitApproval(
                call,
                arguments,
            ) && next.messages == run.messages && next.waiting == run.waiting
            &&& decision is Deny ==> {
                &&& next.messages.len() > run.messages.len()
                &&& answered_with_failure(next.messages[run.messages.len() as int], call)
                &&& next.stage is AwaitPolicy || next.stage is Turn || next.stage is Done
                &&& next.messages.len() - run.messages.len() <= run.waiting.len() + 1
            }
        }),
{
    reveal(simple_decision);
    if let PolicyDecision::Deny { reason } = decision {
        let told = run.ledger.emit(RunEvent::PolicyDecided { call_id: call.id, decision });
        let decided = run.with_ledger(
            told.with_result(
                RunResultModel {
                    policy_decisions: told.result.policy_decisions.push(decision),
                    ..told.result
                },
            ),
        );
        let refused = decided.refused(call, "policy denied: "@ + reason, "policy denied"@);
        assert(refused.messages.last().content == failure_text("policy denied"@));
        waiting_calls_are_taken_in_order(refused, tools, request);
        let next = simple_next(refused, tools, request).0;
        assert(next.messages[run.messages.len() as int] == refused.messages.last());
    }
}

/// A granted approval lets the call run, and one that was not granted never does: that call is
/// answered with a failure. Either way the approval is recorded as it was given.
pub proof fn approvals_decide_what_runs(
    run: SimpleModel,
    tools: Seq<RegisteredTool>,
    request: &RunRequest,
    call: ToolCall<Seq<char>>,
    arguments: JsonTree,
    granted: bool,
    reason: Seq<char>,
)
    ensures
        ({
            let (next, action) = simple_approval(
                run,
                tools,
                request,
                call,
                arguments,
                granted,
                reason,
            );
            let before = run.ledger.result.approvals.len() as int;
            &&& action is Execute <==> granted
            &&& next.stage is AwaitExecution <==> granted
            &&& granted ==> next.stage == SimpleStageModel::AwaitExecution(call, arguments)
                && next.messages == run.messages && next.waiting == run.waiting
                && next.ledger.result.approvals.len() == before + 1
                && next.ledger.result.approvals[before].granted
                && next.ledger.result.approvals[before].call_id == call.id
            &&& !granted ==> {
                &&& next.messages.len() > run.messages.len()
                &&& answered_with_failure(next.messages[run.messages.len() as int], call)
                &&& next.stage is AwaitPolicy || next.stage is Turn || next.stage is Done
            }
        }),
{
    reveal(simple_approval);
    if !granted {
        let recorded = run.with_result(
            RunResultModel {
                approvals: run.ledger.result.approvals.push(
                    ApprovalRecord { call_id: call.id, tool_id: call.tool_id, granted, reason },
                ),
                ..run.ledger.result
            },
        );
        let refused = recorded.refused(call, "approval denied: "@ + reason, "approval denied"@);
        assert(refused.messages.last().content == failure_text("approval denied"@));
        waiting_calls_are_taken_in_order(refused, tools, request);
        let next = simple_next(refused, tools, request).0;
        assert(next.messages[run.messages.len() as int] == refused.messages.last());
    }
}

/// What a tool returned reaches the model under the identifier of its call, as it is. Where the tool
/// could not be run the model is told so, and the next call is taken.
pub proof fn results_reach_the_model(
    run: SimpleModel,
    tools: Seq<RegisteredTool>,
    request: &RunRequest,
    call: ToolCall<Seq<char>>,
    outcome: Result<ToolResultModel, HarnessError<Seq<char>>>,
)
    ensures
        ({
            let (next, action) = simple_execution(run, tools, request, call, outcome);
            let told = next.messages[run.messages.len() as int];
            &&& next.messages.len() > run.messages.len()
            &&& forall|i: int|
                #![trigger next.messages[i]]
                0 <= i < run.messages.len() ==> next.messages[i] == run.messages[i]
            &&& told.role == MessageRole::Tool && told.tool_call_id == Some(call.id)
            &&& outcome matches Ok(result) ==> told.content == result.json_text()
            &&& outcome matches Err(error) ==> answered_with_failure(told, call)
            &&& next.stage is AwaitPolicy || next.stage is Turn || next.stage is Done
            &&& run.waiting.len() == 0 && run.ledger.result.status != RunStatus::LimitReached
                ==> action is Check && next.stage is Turn && next.messages.len()
                == run.messages.len() + 1
        }),
{
    reveal(simple_execution);
    let (ledger, result) = match outcome {
        Ok(result) => (run.ledger, result),
        Err(error) => (
            run.ledger.with_error(error.recorded()),
            failure_model(error.display_text()),
        ),
    };
    let answered = SimpleModel {
        messages: run.messages.push(tool_message(call.id, result.json_text())),
        ..run.with_ledger(ledger.tool_completed(call, result.ok))
    };
    waiting_calls_are_taken_in_order(answered, tools, request);
    let next = simple_next(answered, tools, request).0;
    assert(next.messages[run.messages.len() as int] == answered.messages.last());
    if let Err(error) = outcome {
        assert(answered.messages.last().content == failure_text(error.display_text()));
    }
    assert forall|i: int| #![trigger next.messages[i]] 0 <= i < run.messages.len() implies next.messages[i]
        == run.messages[i] by {
        assert(answered.messages[i] == run.messages[i]);
    }
}

/// A provider that fails ends a simple run, whatever the failure: nothing is retried. The run is
/// cancelled where the failure says so, and else fails.
pub proof fn failed_calls_end_the_run(
    run: SimpleModel,
    tools: Seq<RegisteredTool>,
    request: &RunRequest,
    error: HarnessError<Seq<char>>,
)
    ensures
        ({
            let (next, action) = simple_completion(run, tools, request, Err(error));
            let result = next.ledger.result;
            &&& action is Finish && next.stage is Done && next.messages == run.messages
            &&& result.status == (if error is Cancelled {
                RunStatus::Cancelled
            } else {
                RunStatus::Failed
            })
            &&& result.cancelled == (error is Cancelled)
            &&& result.errors.len() == run.ledger.result.errors.len() + 1
            &&& result.final_output == run.ledger.result.final_output
        }),
{
    reveal(simple_completion);
}

/// An output of a run that asks for no particular form completes the run with that output. A
/// structured one completes it where it conforms, and is else shown to the model again while repairs
/// are left.
pub proof fn outputs_complete_the_run(
    run: SimpleModel,
    tools: Seq<RegisteredTool>,
    request: &RunRequest,
    response: ResponseModel,
    output: Seq<char>,
)
    requires
        response.final_output == Some(output),
    ensures
        ({
            let (next, action) = simple_completion(run, tools, request, Ok(response));
            let result = next.ledger.result;
            let conforms = match request.agent.output_schema {
                None => true,
                Some(schema) => parsed_json(output) matches Ok(value) && compiled_fault(schema@)
                    is None && schema_violation(schema@, value) is None,
            };
            let count = run.messages.len() as int;
            &&& conforms ==> action is Finish && result.status == RunStatus::Completed
                && result.final_output == Some(output) && next.messages == run.messages
            &&& !conforms && run.output_repairs >= request.agent.limits.max_output_repairs
                ==> action is Finish && result.final_output == run.ledger.result.final_output
                && result.errors.len() == run.ledger.result.errors.len() + 1
            &&& !conforms && run.output_repairs < request.agent.limits.max_output_repairs ==> {
                &&& action is Check && next.stage is Turn
                &&& next.output_repairs == run.output_repairs + 1
                &&& next.messages.len() == count + 2 && next.messages.take(count) == run.messages
                &&& next.messages[count].role == MessageRole::Assistant
                &&& next.messages[count].content == output
                &&& next.messages.last().role == MessageRole::System
            }
        }),
{
    reveal(simple_completion);
    reveal(simple_response);
    let (next, _) = simple_completion(run, tools, request, Ok(response));
    if next.messages.len() >= run.messages.len() {
        assert(next.messages.take(run.messages.len() as int) =~= run.messages);
    }
}

/// The calls of a response without an output are all taken, in their order, and one without calls
/// either ends the run with an error.
pub proof fn proposed_calls_are_taken(
    run: SimpleModel,
    tools: Seq<RegisteredTool>,
    request: &RunRequest,
    response: ResponseModel,
)
    requires
        response.final_output is None,
    ensures
        ({
            let (next, action) = simple_completion(run, tools, request, Ok(response));
            let calls = response.tool_calls;
            let taken = next.messages.len() - run.messages.len();
            &&& !(action is Execute) && !(action is AskApproval)
            &&& calls.len() == 0 ==> action is Finish && next.messages == run.messages
                && next.ledger.result.errors.len() == run.ledger.result.errors.len() + 1
            &&& calls.len() > 0 ==> {
                &&& next.stage matches SimpleStageModel::AwaitPolicy(call, arguments) ==> 0 <= taken
                    < calls.len() && call == calls[taken] && next.waiting == calls.skip(taken + 1)
                &&& next.stage is Turn ==> taken == calls.len()
                &&& next.stage is AwaitPolicy || next.stage is Turn || (next.stage is Done
                    && next.ledger.result.status == RunStatus::LimitReached)
            }
        }),
{
    reveal(simple_completion);
    reveal(simple_response);
    if response.tool_calls.len() > 0 {
        let told = run.with_ledger(
            run.ledger.emit(RunEvent::ModelResponded { call_number: run.model_calls }),
        );
        waiting_calls_are_taken_in_order(
            SimpleModel { waiting: response.tool_calls, ..told },
            tools,
            request,
        );
    }
}

} // verus!
