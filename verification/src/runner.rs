//! The configuration of an agent runner.

use crate::catalog::RegistrationBounds;
use crate::discovery::ToolDiscoveryLimits;
use crate::programmatic::{HARD_VM_ADMISSION, ProgrammaticHostConfig, ProgrammaticWorkloadClass};
use crate::speculation::{
    disabled_readiness, fresh_metrics, MIN_SPECULATION_SHADOW_OBSERVATIONS, ControllerModel,
    SpeculationConfig, SpeculationController, SpeculationMetrics, SpeculationMode,
    SpeculationReadiness,
};
use crate::tool_registry::{RegistryModel, ToolRegistry};
use vstd::prelude::*;

verus! {

/// What a runner of agents holds besides its provider, policy, approvals and event sink.
pub struct AgentRunner {
    /// The tools of the runner.
    pub tools: ToolRegistry,
    /// Bounded host limits for model-facing tool discovery.
    pub discovery_limits: ToolDiscoveryLimits,
    /// The speculation of the runner, where the host opted in.
    pub speculation: Option<SpeculationController>,
    /// Bounded programmatic execution, where the host opted in.
    pub programmatic: Option<ProgrammaticHostConfig>,
    /// The workload classes that adaptive runs may promote to programs.
    pub adaptive_programmatic_allowlist: Vec<ProgrammaticWorkloadClass>,
    /// How many programmatic runs are admitted at the same time.
    pub programmatic_permits: usize,
}

/// Configures an [`AgentRunner`].
pub struct AgentRunnerBuilder {
    tools: ToolRegistry,
    discovery_limits: ToolDiscoveryLimits,
    speculation: Option<SpeculationConfig>,
    programmatic: Option<ProgrammaticHostConfig>,
    adaptive_programmatic_allowlist: Vec<ProgrammaticWorkloadClass>,
}

/// The model of a builder.
pub struct BuilderModel {
    /// The tools.
    pub tools: RegistryModel,
    /// Limits of tool discovery.
    pub discovery_limits: ToolDiscoveryLimits,
    /// The speculation asked for.
    pub speculation: Option<SpeculationConfig>,
    /// The programmatic execution asked for.
    pub programmatic: Option<ProgrammaticHostConfig>,
    /// The workload classes that may be promoted.
    pub allowlist: Seq<ProgrammaticWorkloadClass>,
}

impl View for AgentRunnerBuilder {
    type V = BuilderModel;

    closed spec fn view(&self) -> BuilderModel {
        BuilderModel {
            tools: self.tools@,
            discovery_limits: self.discovery_limits,
            speculation: self.speculation,
            programmatic: self.programmatic,
            allowlist: self.adaptive_programmatic_allowlist@,
        }
    }
}

/// How many programmatic runs a configuration admits at the same time, never none and never
/// more than the host can bear.
pub open spec fn permits_of(config: Option<ProgrammaticHostConfig>) -> usize {
    match config {
        None => 1,
        Some(config) => if config.max_active_vms == 0 {
            1
        } else if config.max_active_vms > HARD_VM_ADMISSION {
            HARD_VM_ADMISSION
        } else {
            config.max_active_vms
        },
    }
}

/// What a runner's controller knows, if it has one.
pub open spec fn controller_of(speculation: Option<SpeculationController>) -> Option<
    ControllerModel,
> {
    match speculation {
        Some(controller) => Some(controller@),
        None => None,
    }
}

/// The readiness of a tool, disabled where the host did not opt in.
pub open spec fn readiness_of(controller: Option<ControllerModel>, tool_id: Seq<char>) ->
    SpeculationReadiness<Seq<char>> {
    match controller {
        Some(controller) => controller.readiness(tool_id),
        None => disabled_readiness(tool_id, MIN_SPECULATION_SHADOW_OBSERVATIONS),
    }
}

impl AgentRunner {
    /// Starts building a runner with conservative defaults.
    pub fn builder(bounds: RegistrationBounds) -> (result: AgentRunnerBuilder)
        ensures
            result@.tools.bounds == bounds,
            result@.tools.tools == Seq::<crate::registry::RegisteredTool>::empty(),
            result@.discovery_limits == (ToolDiscoveryLimits {
                max_tools: 64,
                max_tool_schema_bytes: 131_072,
                max_expansion_tools: 8,
            }),
            result@.speculation is None,
            result@.programmatic is None,
            result@.allowlist == Seq::<ProgrammaticWorkloadClass>::empty(),
    {
        AgentRunnerBuilder {
            tools: ToolRegistry::new(bounds),
            discovery_limits: ToolDiscoveryLimits::default(),
            speculation: None,
            programmatic: None,
            adaptive_programmatic_allowlist: Vec::new(),
        }
    }

    /// Returns pull-only readiness evidence for one registered tool.
    pub fn speculation_readiness(&self, tool_id: &str) -> (result: SpeculationReadiness)
        ensures
            result@ == readiness_of(controller_of(self.speculation), tool_id@),
    {
        match &self.speculation {
            Some(controller) => controller.readiness(tool_id),
            None => SpeculationReadiness::disabled(tool_id),
        }
    }

    /// Returns pull-only metadata counters for one registered tool at `now_ms`.
    pub fn speculation_metrics(&self, tool_id: &str, now_ms: u64) -> (result: SpeculationMetrics)
        ensures
            match controller_of(self.speculation) {
                Some(controller) => result@ == controller.metrics_at(tool_id@, now_ms),
                None => result@ == fresh_metrics(tool_id@, SpeculationMode::Disabled),
            },
    {
        match &self.speculation {
            Some(controller) => controller.metrics(tool_id, now_ms),
            None => SpeculationMetrics::disabled(tool_id),
        }
    }

    /// Explicitly activates one ready tool without affecting other tools.
    pub fn activate_speculation(&mut self, tool_id: &str) -> (result: SpeculationReadiness)
        ensures
            controller_of(final(self).speculation) == match controller_of(old(self).speculation) {
                Some(controller) => Some(controller.activation(tool_id@)),
                None => None,
            },
            result@ == readiness_of(controller_of(final(self).speculation), tool_id@),
            final(self).tools == old(self).tools,
            final(self).discovery_limits == old(self).discovery_limits,
            final(self).programmatic == old(self).programmatic,
            final(self).adaptive_programmatic_allowlist
                == old(self).adaptive_programmatic_allowlist,
            final(self).programmatic_permits == old(self).programmatic_permits,
    {
        match &mut self.speculation {
            Some(controller) => controller.activate(tool_id),
            None => SpeculationReadiness::disabled(tool_id),
        }
    }

    /// Immediately returns one tool to shadow mode and clears its readiness streak.
    pub fn return_speculation_to_shadow(&mut self, tool_id: &str) -> (result: SpeculationReadiness)
        ensures
            controller_of(final(self).speculation) == match controller_of(old(self).speculation) {
                Some(controller) => Some(controller.shadowed(tool_id@)),
                None => None,
            },
            result@ == match controller_of(old(self).speculation) {
                Some(controller) => controller.shadow_readiness(tool_id@),
                None => disabled_readiness(tool_id@, MIN_SPECULATION_SHADOW_OBSERVATIONS),
            },
            final(self).tools == old(self).tools,
            final(self).discovery_limits == old(self).discovery_limits,
            final(self).programmatic == old(self).programmatic,
            final(self).adaptive_programmatic_allowlist
                == old(self).adaptive_programmatic_allowlist,
            final(self).programmatic_permits == old(self).programmatic_permits,
    {
        match &mut self.speculation {
            Some(controller) => controller.return_to_shadow(tool_id),
            None => SpeculationReadiness::disabled(tool_id),
        }
    }
}

impl AgentRunnerBuilder {
    /// Explicitly opts this host into bounded programmatic execution.
    pub fn programmatic(self, config: ProgrammaticHostConfig) -> (result: AgentRunnerBuilder)
        ensures
            result@ == (BuilderModel { programmatic: Some(config), ..self@ }),
    {
        let mut next = self;
        next.programmatic = Some(config);
        next
    }

    /// Allows adaptive runs to promote selected workload classes to programs.
    ///
    /// The default allowlist is empty. Forced programmatic runs do not consult it.
    pub fn adaptive_programmatic_allowlist(
        self,
        workload_classes: Vec<ProgrammaticWorkloadClass>,
    ) -> (result: AgentRunnerBuilder)
        ensures
            result@ == (BuilderModel { allowlist: self@.allowlist + workload_classes@, ..self@ }),
    {
        let mut next = self;
        let mut classes = workload_classes;
        next.adaptive_programmatic_allowlist.append(&mut classes);
        next
    }

    /// Replaces the tools used by the runner.
    pub fn tools(self, tools: ToolRegistry) -> (result: AgentRunnerBuilder)
        ensures
            result@ == (BuilderModel { tools: tools@, ..self@ }),
    {
        let mut next = self;
        next.tools = tools;
        next
    }

    /// Replaces the bounded host limits used for model-facing tool discovery.
    pub fn discovery_limits(self, limits: ToolDiscoveryLimits) -> (result: AgentRunnerBuilder)
        ensures
            result@ == (BuilderModel { discovery_limits: limits, ..self@ }),
    {
        let mut next = self;
        next.discovery_limits = limits;
        next
    }

    /// Explicitly opts this runner into guarded shadow-first speculation.
    pub fn speculation(self, config: SpeculationConfig) -> (result: AgentRunnerBuilder)
        ensures
            result@ == (BuilderModel { speculation: Some(config), ..self@ }),
    {
        let mut next = self;
        next.speculation = Some(config);
        next
    }

    /// Builds the configured runner.
    pub fn build(self) -> (result: AgentRunner)
        ensures
            result.tools@ == self@.tools,
            result.discovery_limits == self@.discovery_limits,
            controller_of(result.speculation) == match self@.speculation {
                Some(config) => Some(ControllerModel { config, tools: Seq::empty() }),
                None => None,
            },
            result.programmatic == self@.programmatic,
            result.adaptive_programmatic_allowlist@ == self@.allowlist,
            result.programmatic_permits == permits_of(self@.programmatic),
    {
        let programmatic_permits: usize = match &self.programmatic {
            Some(config) => config.admission_permits(),
            None => 1,
        };
        let speculation = match self.speculation {
            Some(config) => Some(SpeculationController::new(config)),
            None => None,
        };
        AgentRunner {
            tools: self.tools,
            discovery_limits: self.discovery_limits,
            speculation,
            programmatic: self.programmatic,
            adaptive_programmatic_allowlist: self.adaptive_programmatic_allowlist,
            programmatic_permits,
        }
    }
}

/// A runner whose host did not opt in never activates a tool.
pub proof fn speculation_needs_opt_in(tool_id: Seq<char>)
    ensures
        readiness_of(None, tool_id).mode == SpeculationMode::Disabled,
        !readiness_of(None, tool_id).ready_to_activate,
{
}

} // verus!
