//! Agent manifests: project-owned collections of agent definitions.

use crate::agent::AgentDefinition;
use crate::lexicon::small;
use crate::text::{
    blank, borrowed_text, characters, decimal, decimal_digits, is_blank, join2, join3, same_text,
    text_of, texts,
};
use vstd::prelude::*;

verus! {

/// The only supported on-disk agent manifest format version.
pub const AGENT_MANIFEST_VERSION: u32 = 1;

/// A project-owned collection of inspectable agent definitions.
///
/// Loading one does not register tools or execute an agent.
#[non_exhaustive]
pub struct AgentManifest {
    /// On-disk manifest format version.
    pub version: u32,
    /// Agent definitions included in the manifest.
    pub agents: Vec<AgentDefinition>,
}

/// Errors of loading or validating an agent manifest.
///
/// `S` is the text: `String` in running code, a sequence of characters in contracts.
#[derive(Clone, Debug, PartialEq, Eq)]
#[non_exhaustive]
pub enum AgentManifestError<S = String> {
    /// The manifest could not be read from disk.
    Io(S),
    /// JSON parsing failed.
    Json(S),
    /// YAML parsing failed.
    Yaml(S),
    /// The manifest contents violate the runtime contract.
    Invalid(S),
}

impl View for AgentManifestError<String> {
    type V = AgentManifestError<Seq<char>>;

    open spec fn view(&self) -> AgentManifestError<Seq<char>> {
        match self {
            AgentManifestError::Io(text) => AgentManifestError::Io(text@),
            AgentManifestError::Json(text) => AgentManifestError::Json(text@),
            AgentManifestError::Yaml(text) => AgentManifestError::Yaml(text@),
            AgentManifestError::Invalid(text) => AgentManifestError::Invalid(text@),
        }
    }
}

impl AgentManifestError<Seq<char>> {
    /// The error in words.
    pub open spec fn display_text(self) -> Seq<char> {
        match self {
            AgentManifestError::Io(text) => "I/O error: "@ + text,
            AgentManifestError::Json(text) => "JSON error: "@ + text,
            AgentManifestError::Yaml(text) => "YAML error: "@ + text,
            AgentManifestError::Invalid(text) => "invalid agent manifest: "@ + text,
        }
    }
}

impl AgentManifestError {
    /// The error in words.
    pub fn to_text(&self) -> (result: String)
        ensures
            result@ == self@.display_text(),
    {
        match self {
            AgentManifestError::Io(text) => join2("I/O error: ", text.as_str()),
            AgentManifestError::Json(text) => join2("JSON error: ", text.as_str()),
            AgentManifestError::Yaml(text) => join2("YAML error: ", text.as_str()),
            AgentManifestError::Invalid(text) => join2("invalid agent manifest: ", text.as_str()),
        }
    }
}

/// Whether a text of a list is blank.
pub open spec fn has_blank(values: Seq<Seq<char>>) -> bool {
    exists|i: int| 0 <= i < values.len() && blank(#[trigger] values[i])
}

/// Whether a list holds no text twice.
pub open spec fn no_repeats(values: Seq<Seq<char>>) -> bool {
    forall|i: int, j: int|
        0 <= i < j < values.len() ==> #[trigger] values[i] != #[trigger] values[j]
}

/// What is wrong with one agent.
pub open spec fn agent_fault(agent: AgentDefinition) -> Option<Seq<char>> {
    let limits = agent.limits;
    let tools = texts(agent.tool_allowlist@);
    if blank(agent.id@) || blank(agent.name@) || blank(agent.version@) || blank(
        agent.default_model@,
    ) {
        Some("agent id, name, version, and default model are required"@)
    } else if limits.max_model_calls == 0 || limits.max_tool_calls == 0
        || limits.max_identical_tool_calls == 0 || limits.max_input_bytes == 0
        || limits.max_request_payload_bytes == 0 || limits.max_model_response_bytes == 0
        || limits.max_tool_arguments_bytes == 0 || limits.max_tool_result_bytes == 0
        || limits.max_transcript_bytes == 0 || limits.max_json_depth == 0 {
        Some("agent call, byte, transcript, and depth limits must be greater than zero"@)
    } else if has_blank(tools) {
        Some("agent "@ + agent.id@ + " has an empty allowed tool ID"@)
    } else if !no_repeats(tools) {
        Some("agent "@ + agent.id@ + " lists an allowed tool more than once"@)
    } else {
        None
    }
}

/// The identifiers of agents.
pub open spec fn agent_ids(agents: Seq<AgentDefinition>) -> Seq<Seq<char>> {
    agents.map_values(|agent: AgentDefinition| agent.id@)
}

/// What is wrong with the agents from `start` on.
pub open spec fn agents_fault(agents: Seq<AgentDefinition>, start: nat) -> Option<Seq<char>>
    decreases agents.len() - start,
{
    if start >= agents.len() {
        None
    } else {
        let agent = agents[start as int];
        if agent_fault(agent) is Some {
            agent_fault(agent)
        } else if agent_ids(agents).take(start as int).contains(agent.id@) {
            Some("agent ID "@ + agent.id@ + " appears more than once"@)
        } else {
            agents_fault(agents, start + 1)
        }
    }
}

/// What is wrong with a manifest.
pub open spec fn manifest_fault(version: u32, agents: Seq<AgentDefinition>) -> Option<Seq<char>> {
    if version != AGENT_MANIFEST_VERSION {
        Some(
            "version "@ + decimal_digits(version as nat) + " is unsupported; expected "@
                + decimal_digits(AGENT_MANIFEST_VERSION as nat),
        )
    } else {
        agents_fault(agents, 0)
    }
}

/// A check whose failure is an invalid manifest.
pub open spec fn manifest_check(
    result: Result<(), AgentManifestError>,
    fault: Option<Seq<char>>,
) -> bool {
    match fault {
        Some(text) => result matches Err(error) && error@ == AgentManifestError::Invalid(text),
        None => result is Ok,
    }
}

fn find_blank(values: &Vec<String>) -> (result: bool)
    ensures
        result == has_blank(texts(values@)),
{
    let ghost all = texts(values@);
    let mut i: usize = 0;
    while i < values.len()
        invariant
            i <= values@.len(),
            all == texts(values@),
            forall|j: int| 0 <= j < i ==> !blank(#[trigger] all[j]),
        decreases values@.len() - i,
    {
        if is_blank(values[i].as_str()) {
            assert(blank(all[i as int]));
            return true;
        }
        i += 1;
    }
    false
}

fn find_repeat(values: &Vec<String>) -> (result: bool)
    ensures
        result == !no_repeats(texts(values@)),
{
    let ghost all = texts(values@);
    let mut i: usize = 0;
    while i < values.len()
        invariant
            i <= values@.len(),
            all == texts(values@),
            forall|a: int, b: int|
                0 <= a < b < i ==> #[trigger] all[a] != #[trigger] all[b],
        decreases values@.len() - i,
    {
        let mut j: usize = 0;
        while j < i
            invariant
                j <= i < values@.len(),
                all == texts(values@),
                forall|a: int| 0 <= a < j ==> #[trigger] all[a] != all[i as int],
            decreases i - j,
        {
            if same_text(values[j].as_str(), values[i].as_str()) {
                assert(all[j as int] == all[i as int]);
                return true;
            }
            j += 1;
        }
        i += 1;
    }
    false
}

fn invalid(text: String) -> (result: Result<(), AgentManifestError>)
    ensures
        result matches Err(error) && error@ == AgentManifestError::Invalid(text@),
{
    Err(AgentManifestError::Invalid(text))
}

/// Checks one agent of a manifest.
pub fn validate_agent_definition(agent: &AgentDefinition) -> (result: Result<
    (),
    AgentManifestError,
>)
    ensures
        manifest_check(result, agent_fault(*agent)),
{
    if is_blank(agent.id.as_str()) || is_blank(agent.name.as_str()) || is_blank(
        agent.version.as_str(),
    ) || is_blank(agent.default_model.as_str()) {
        return invalid("agent id, name, version, and default model are required".to_owned());
    }
    let limits = &agent.limits;
    if limits.max_model_calls == 0 || limits.max_tool_calls == 0 || limits.max_identical_tool_calls
        == 0 || limits.max_input_bytes == 0 || limits.max_request_payload_bytes == 0
        || limits.max_model_response_bytes == 0 || limits.max_tool_arguments_bytes == 0
        || limits.max_tool_result_bytes == 0 || limits.max_transcript_bytes == 0
        || limits.max_json_depth == 0 {
        return invalid(
            "agent call, byte, transcript, and depth limits must be greater than zero".to_owned(),
        );
    }
    if find_blank(&agent.tool_allowlist) {
        return invalid(join3("agent ", agent.id.as_str(), " has an empty allowed tool ID"));
    }
    if find_repeat(&agent.tool_allowlist) {
        return invalid(
            join3("agent ", agent.id.as_str(), " lists an allowed tool more than once"),
        );
    }
    Ok(())
}

fn id_seen(agents: &Vec<AgentDefinition>, index: usize) -> (result: bool)
    requires
        index < agents@.len(),
    ensures
        result == agent_ids(agents@).take(index as int).contains(agents@[index as int].id@),
{
    let ghost ids = agent_ids(agents@).take(index as int);
    let mut j: usize = 0;
    while j < index
        invariant
            j <= index < agents@.len(),
            ids == agent_ids(agents@).take(index as int),
            forall|k: int| 0 <= k < j ==> #[trigger] ids[k] != agents@[index as int].id@,
        decreases index - j,
    {
        assert(ids[j as int] == agents@[j as int].id@);
        if same_text(agents[j].id.as_str(), agents[index].id.as_str()) {
            return true;
        }
        j += 1;
    }
    false
}

impl AgentManifest {
    /// A manifest of the supported format version.
    pub fn new(agents: Vec<AgentDefinition>) -> (result: AgentManifest)
        ensures
            result.version == AGENT_MANIFEST_VERSION,
            result.agents == agents,
    {
        AgentManifest { version: AGENT_MANIFEST_VERSION, agents }
    }

    /// Checks the version, the agents and that no two share an identifier.
    pub fn validate(&self) -> (result: Result<(), AgentManifestError>)
        ensures
            manifest_check(result, manifest_fault(self.version, self.agents@)),
    {
        if self.version != AGENT_MANIFEST_VERSION {
            let found = decimal(self.version as u64);
            let expected = decimal(AGENT_MANIFEST_VERSION as u64);
            let head = join3("version ", found.as_str(), " is unsupported; expected ");
            return invalid(join2(head.as_str(), expected.as_str()));
        }
        let agents: &Vec<AgentDefinition> = &self.agents;
        let mut i: usize = 0;
        while i < agents.len()
            invariant
                i <= agents@.len(),
                *agents == self.agents,
                self.version == AGENT_MANIFEST_VERSION,
                agents_fault(agents@, 0) == agents_fault(agents@, i as nat),
            decreases agents@.len() - i,
        {
            validate_agent_definition(&agents[i])?;
            if id_seen(agents, i) {
                return invalid(
                    join3("agent ID ", agents[i].id.as_str(), " appears more than once"),
                );
            }
            i += 1;
        }
        Ok(())
    }

    /// The agent of this identifier.
    pub fn find(&self, id: &str) -> (result: Option<&AgentDefinition>)
        ensures
            match result {
                Some(agent) => agent.id@ == id@ && self.agents@.contains(*agent),
                None => forall|i: int|
                    0 <= i < self.agents@.len() ==> (#[trigger] self.agents@[i]).id@ != id@,
            },
    {
        let mut i: usize = 0;
        while i < self.agents.len()
            invariant
                i <= self.agents@.len(),
                forall|j: int| 0 <= j < i ==> (#[trigger] self.agents@[j]).id@ != id@,
            decreases self.agents@.len() - i,
        {
            if same_text(self.agents[i].id.as_str(), id) {
                return Some(&self.agents[i]);
            }
            i += 1;
        }
        None
    }
}

/// How a manifest is written.
#[derive(Clone, Copy, Debug, PartialEq, Eq, Structural)]
pub enum ManifestFormat {
    /// As YAML.
    Yaml,
    /// As JSON.
    Json,
}

/// A text with ASCII capitals made small.
pub open spec fn lowered(text: Seq<char>) -> Seq<char> {
    text.map_values(|character: char| small(character))
}

/// How a manifest of this file extension is written.
pub open spec fn format_of(extension: Option<Seq<char>>) -> Option<ManifestFormat> {
    match extension {
        Some(extension) => if lowered(extension) == "yaml"@ || lowered(extension) == "yml"@ {
            Some(ManifestFormat::Yaml)
        } else if lowered(extension) == "json"@ {
            Some(ManifestFormat::Json)
        } else {
            None
        },
        None => None,
    }
}

/// A text with ASCII capitals made small.
pub fn lower(text: &str) -> (result: String)
    ensures
        result@ == lowered(text@),
{
    let all = characters(text);
    let mut folded: Vec<char> = Vec::new();
    let mut i: usize = 0;
    while i < all.len()
        invariant
            i <= all@.len(),
            all@ == text@,
            folded@.len() == i,
            forall|j: int| 0 <= j < i ==> (#[trigger] folded@[j]) == small(text@[j]),
        decreases all@.len() - i,
    {
        folded.push(crate::lexicon::make_small(all[i]));
        i += 1;
    }
    assert(folded@ =~= lowered(text@));
    text_of(&folded)
}

/// How a manifest of this file extension is written.
pub fn manifest_format(extension: Option<&str>) -> (result: Result<
    ManifestFormat,
    AgentManifestError,
>)
    ensures
        match format_of(borrowed_text(extension)) {
            Some(format) => result == Ok::<ManifestFormat, AgentManifestError>(format),
            None => result matches Err(error) && error@ == AgentManifestError::Invalid(
                "agent manifest must use a .yaml, .yml, or .json extension"@,
            ),
        },
{
    if let Some(extension) = extension {
        let folded = lower(extension);
        if same_text(folded.as_str(), "yaml") || same_text(folded.as_str(), "yml") {
            return Ok(ManifestFormat::Yaml);
        }
        if same_text(folded.as_str(), "json") {
            return Ok(ManifestFormat::Json);
        }
    }
    Err(
        AgentManifestError::Invalid(
            "agent manifest must use a .yaml, .yml, or .json extension".to_owned(),
        ),
    )
}

/// Checks a manifest that was read: a manifest that could not be read stays an error, and one
/// that is not valid becomes one.
pub fn accept_manifest(read: Result<AgentManifest, AgentManifestError>) -> (result: Result<
    AgentManifest,
    AgentManifestError,
>)
    ensures
        match read {
            Err(fault) => result == Err::<AgentManifest, _>(fault),
            Ok(manifest) => match manifest_fault(manifest.version, manifest.agents@) {
                Some(text) => result matches Err(error) && error@ == AgentManifestError::Invalid(
                    text,
                ),
                None => result == Ok::<_, AgentManifestError>(manifest),
            },
        },
{
    match read {
        Err(fault) => Err(fault),
        Ok(manifest) => match manifest.validate() {
            Err(error) => Err(error),
            Ok(_) => Ok(manifest),
        },
    }
}

/// In a valid manifest no two agents share an identifier.
pub proof fn valid_manifests_have_unique_agents(version: u32, agents: Seq<AgentDefinition>)
    requires
        manifest_fault(version, agents) is None,
    ensures
        version == AGENT_MANIFEST_VERSION,
        no_repeats(agent_ids(agents)),
{
    assert forall|i: int, j: int| 0 <= i < j < agents.len() implies #[trigger] agent_ids(agents)[i]
        != #[trigger] agent_ids(agents)[j] by {
        agents_fault_none(agents, 0, j as nat);
        let before = agent_ids(agents).take(j);
        assert(before[i] == agent_ids(agents)[i]);
    }
}

proof fn agents_fault_none(agents: Seq<AgentDefinition>, start: nat, at: nat)
    requires
        agents_fault(agents, start) is None,
        start <= at < agents.len(),
    ensures
        !agent_ids(agents).take(at as int).contains(agents[at as int].id@),
    decreases at - start,
{
    if start < at {
        agents_fault_none(agents, start + 1, at);
    }
}

} // verus!
