//! What every strategy keeps: each issued call is settled before the run is over, the usage that
//! is reported adds up, and no mutation of a plan runs before all of them are authorized.

use crate::agent::RunStrategy;
use crate::direct::DirectModel;
use crate::ledger::LedgerModel;
use crate::lifecycle::{finished, usage_event};
use crate::plan_model::{running_read, PlanModel, StageModel};
use crate::program_batch::BatchModel;
use crate::reactive::ReactiveModel;
use crate::strategy_core::CallCounts;
use vstd::prelude::*;

verus! {

/// The usage that a run reports adds up: every provider call has a purpose, every proposal was
/// issued, reused, rejected or aborted, and every issued call completed, failed or was cancelled.
pub proof fn reported_usage_adds_up(
    ledger: LedgerModel,
    strategy: RunStrategy,
    calls: CallCounts,
    duration_ms: u64,
)
    requires
        ledger.broker.consistent(),
        ledger.broker.settled(),
        calls.balanced(),
    ensures
        ({
            let over = finished(ledger, strategy, calls, duration_ms);
            let broker = over.broker;
            &&& over.events == ledger.events.push(
                usage_event(strategy, calls, broker, duration_ms),
            ).push(crate::event::RunEvent::Completed { status: ledger.result.status })
            &&& calls.model_calls == calls.planning + calls.repair + calls.recovery
                + calls.final_synthesis + calls.reactive
            &&& broker.tool_calls == broker.tool_issued + broker.tool_reused + broker.tool_rejected
                + broker.tool_pre_dispatch_aborted
            &&& broker.tool_issued == broker.tool_completed + broker.tool_failed
                + broker.tool_cancelled
        }),
{
}

/// Whatever strategy a run takes, no call is left open once it is over.
pub proof fn ended_runs_are_settled(
    direct: DirectModel,
    turns: ReactiveModel,
    plan: PlanModel,
    batch: BatchModel,
)
    requires
        direct.consistent(),
        turns.consistent(),
        plan.consistent(),
        batch.consistent(),
    ensures
        direct.phase is Done ==> direct.ledger.broker.settled(),
        turns.stage is Done ==> turns.core.record.ledger.broker.settled(),
        plan.stage is Done ==> plan.record.ledger.broker.settled(),
        batch.stage is Done ==> batch.core.record.ledger.broker.settled(),
{
}

/// As long as not every mutation of a plan is authorized, only calls that change nothing are
/// handed to their tools.
pub proof fn mutations_wait_for_authorization(run: PlanModel, call: int)
    requires
        run.consistent(),
        !run.gate_open,
        run.stage matches StageModel::Results(position, _) && position <= call
            < run.executable.len(),
    ensures
        running_read(run.slots[run.executable[call] as int]),
{
}

} // verus!
