//! What the developer console decides about a local project.

use crate::agent::RunStatus;
use crate::json::Json;
use crate::lexicon::alphanumeric;
use crate::model::{ModelInfo, ProviderHealth};
use crate::text::{
    blank, byte_len, characters, copy_option, decimal, decimal_digits, is_blank, join2, join3,
    same_text, text_of, text_option, texts, trim, trimmed, utf8_len,
};
use vstd::prelude::*;

verus! {

/// How many runs the console lists at most.
pub const MAX_RUNS: u32 = 200;

/// How many events of a run the console lists at most.
pub const MAX_EVENTS_PER_RUN: u32 = 1_000;

/// How much of a Promptfoo artifact the console reads.
pub const MAX_PROMPTFOO_ARTIFACT_BYTES: u64 = 524_288;

/// How many redaction fragments the console keeps.
pub const MAX_REDACTION_FRAGMENTS: usize = 32;

/// A local project the console is connected to.
#[derive(Clone, Debug, Default, PartialEq, Eq)]
pub struct ProjectWorkspace {
    /// The directory of the project.
    pub project_root: String,
    /// The trace database of the project.
    pub trace_db_path: String,
    /// Where evaluation reports are.
    pub evaluation_results_path: Option<String>,
    /// The agent manifest of the project.
    pub agent_manifest_path: Option<String>,
    /// The address of the local provider.
    pub ollama_url: String,
}

/// What the console remembers.
#[derive(Clone, Debug, Default, PartialEq, Eq)]
pub struct ConsolePreferences {
    /// The project the console is connected to.
    pub workspace: Option<ProjectWorkspace>,
    /// This only records a console preference. It cannot enable raw persistence
    /// or restore raw payloads from an existing trace database.
    pub raw_payload_preference: bool,
    /// Fragments of keys whose values are not shown.
    pub redaction_key_fragments: Vec<String>,
    /// How long runs are kept.
    pub retention_days: Option<u32>,
}

/// Which runs to list.
#[derive(Clone, Debug, PartialEq, Eq)]
pub struct RunQuery {
    /// The trace of the runs.
    pub trace_id: Option<String>,
    /// The status of the runs.
    pub status: Option<String>,
}

/// A run in the console's list.
#[derive(Clone, Debug, PartialEq, Eq)]
pub struct ConsoleRun {
    /// The run.
    pub run_id: String,
    /// Its trace.
    pub trace_id: String,
    /// When it started.
    pub started_at_ms: u64,
    /// When it last recorded an event.
    pub updated_at_ms: u64,
    /// How many events it recorded.
    pub event_count: u64,
    /// How it ended.
    pub status: Option<String>,
}

/// A recorded event as the console shows it: never with its raw payload.
#[derive(Clone, Debug, PartialEq, Eq)]
pub struct ConsoleEvent {
    /// Its place in the run.
    pub sequence: u64,
    /// When it was recorded.
    pub timestamp_ms: u64,
    /// The event.
    pub event: Json,
}

/// The local provider and its models.
#[derive(Clone, Debug, PartialEq, Eq)]
pub struct ConsoleModels {
    /// How the provider is.
    pub health: ProviderHealth,
    /// The models it has.
    pub models: Vec<ModelInfo>,
}

impl ConsoleModels {
    /// The models of a provider: none where it is not healthy.
    pub fn new(health: ProviderHealth, listed: Vec<ModelInfo>) -> (result: ConsoleModels)
        ensures
            result.health == health,
            result.models@ == if health.healthy {
                listed@
            } else {
                Seq::empty()
            },
    {
        if health.healthy {
            ConsoleModels { health, models: listed }
        } else {
            ConsoleModels { health, models: Vec::new() }
        }
    }
}

/// One of the artifacts the Promptfoo adapter writes.
#[derive(Clone, Debug, PartialEq, Eq)]
pub struct PromptfooArtifact {
    /// Which artifact it is.
    pub kind: String,
    /// Its file.
    pub path: String,
    /// What was read of it.
    pub content: String,
    /// Whether the file holds more.
    pub truncated: bool,
}

impl PromptfooArtifact {
    /// What was read of a file of this length.
    pub fn new(kind: &str, path: &str, content: String, length: u64) -> (result: PromptfooArtifact)
        ensures
            result.kind@ == kind@,
            result.path@ == path@,
            result.content == content,
            result.truncated == (length > MAX_PROMPTFOO_ARTIFACT_BYTES),
    {
        PromptfooArtifact {
            kind: kind.to_owned(),
            path: path.to_owned(),
            content,
            truncated: length > MAX_PROMPTFOO_ARTIFACT_BYTES,
        }
    }
}

/// A request to run an evaluation suite.
#[derive(Clone, Debug, PartialEq, Eq)]
pub struct EvalLaunchRequest {
    /// The suite.
    pub suite_path: String,
    /// Models to run it with.
    pub models: Vec<String>,
    /// How often to run each case.
    pub repeat: Option<u32>,
}

/// A request to replay a regression case.
#[derive(Clone, Debug, PartialEq, Eq)]
pub struct ReplayLaunchRequest {
    /// The case.
    pub regression_path: String,
}

/// A command the console may start.
#[derive(Clone, Debug, PartialEq, Eq)]
pub struct CommandPreview {
    /// The program.
    pub program: String,
    /// Its arguments.
    pub args: Vec<String>,
    /// Where it runs.
    pub cwd: String,
}

/// What a command did.
#[derive(Clone, Debug, PartialEq, Eq)]
pub struct CommandResult {
    /// The command.
    pub command: CommandPreview,
    /// Whether it succeeded.
    pub success: bool,
    /// Its exit code.
    pub exit_code: Option<i32>,
    /// What it wrote.
    pub stdout: String,
    /// What it wrote as errors.
    pub stderr: String,
}

/// Whether a character may stand in a model identifier.
pub open spec fn model_character(character: char) -> bool {
    alphanumeric(character) || character == '-' || character == '_' || character == '.'
        || character == ':' || character == '/'
}

/// Whether a text is a model identifier that may be handed to a command.
pub open spec fn model_identifier(model: Seq<char>) -> bool {
    &&& model.len() > 0
    &&& utf8_len(model) <= 200
    &&& forall|i: int| 0 <= i < model.len() ==> model_character(#[trigger] model[i])
}

/// What is said of a model identifier that may not be handed to a command.
pub open spec fn model_id_error() -> Seq<char> {
    "Model IDs may only contain letters, digits, '-', '_', '.', ':', and '/'."@
}

/// A check that fails with this text, if any.
pub open spec fn text_check(result: Result<(), String>, fault: Option<Seq<char>>) -> bool {
    match fault {
        Some(text) => result matches Err(error) && error@ == text,
        None => result is Ok,
    }
}

/// Checks a model identifier.
pub fn validate_model_id(model: &str) -> (result: Result<(), String>)
    ensures
        text_check(
            result,
            if model_identifier(model@) {
                None
            } else {
                Some(model_id_error())
            },
        ),
{
    let error = "Model IDs may only contain letters, digits, '-', '_', '.', ':', and '/'.";
    let all = characters(model);
    if all.len() == 0 || byte_len(model) > 200 {
        return Err(error.to_owned());
    }
    let mut i: usize = 0;
    while i < all.len()
        invariant
            i <= all@.len(),
            all@ == model@,
            error@ == model_id_error(),
            forall|j: int| 0 <= j < i ==> model_character(#[trigger] model@[j]),
        decreases all@.len() - i,
    {
        let character = all[i];
        if !(crate::lexicon::is_alphanumeric(character) || character == '-' || character == '_'
            || character == '.' || character == ':' || character == '/') {
            assert(!model_character(model@[i as int]));
            return Err(error.to_owned());
        }
        i += 1;
    }
    Ok(())
}

/// The first place of a text behind the last occurrence of a character; 0 if there is none.
pub open spec fn behind_last(text: Seq<char>, character: char) -> nat
    decreases text.len(),
{
    if text.len() == 0 {
        0
    } else if text.last() == character {
        text.len()
    } else {
        behind_last(text.drop_last(), character)
    }
}

/// A path without the separators, and the parts that name their own place, at its end.
pub open spec fn stripped(path: Seq<char>) -> Seq<char>
    decreases path.len(),
{
    if path.len() > 0 && path.last() == '/' {
        stripped(path.drop_last())
    } else if path.len() > 1 && path.last() == '.' && path[path.len() - 2] == '/' {
        stripped(path.drop_last())
    } else {
        path
    }
}

/// The last part of a path.
pub open spec fn file_name(path: Seq<char>) -> Seq<char> {
    let whole = stripped(path);
    whole.skip(behind_last(whole, '/') as int)
}

/// The extension of a path: what follows the last dot of its last part, unless that dot comes
/// first or the part leads upwards.
pub open spec fn extension(path: Seq<char>) -> Option<Seq<char>> {
    let name = file_name(path);
    if behind_last(name, '.') <= 1 || name == ".."@ {
        None
    } else {
        Some(name.skip(behind_last(name, '.') as int))
    }
}

fn strip(text: &Vec<char>) -> (result: Vec<char>)
    ensures
        result@ == stripped(text@),
{
    let mut end: usize = text.len();
    assert(text@.take(end as int) =~= text@);
    while (end > 0 && text[end - 1] == '/') || (end > 1 && text[end - 1] == '.' && text[end - 2]
        == '/')
        invariant
            end <= text@.len(),
            stripped(text@) == stripped(text@.take(end as int)),
        decreases end,
    {
        assert(text@.take(end as int).drop_last() =~= text@.take(end - 1));
        end -= 1;
    }
    let mut result: Vec<char> = Vec::new();
    let mut i: usize = 0;
    while i < end
        invariant
            i <= end <= text@.len(),
            result@ == text@.take(i as int),
        decreases end - i,
    {
        result.push(text[i]);
        assert(result@ =~= text@.take(i + 1));
        i += 1;
    }
    result
}

fn find_behind_last(text: &Vec<char>, character: char) -> (result: usize)
    ensures
        result == behind_last(text@, character),
        result <= text@.len(),
{
    let mut end: usize = text.len();
    assert(text@.take(end as int) =~= text@);
    while end > 0
        invariant
            end <= text@.len(),
            behind_last(text@, character) == behind_last(text@.take(end as int), character),
        decreases end,
    {
        assert(text@.take(end as int).drop_last() =~= text@.take(end - 1));
        if text[end - 1] == character {
            return end;
        }
        end -= 1;
    }
    0
}

fn characters_from(text: &Vec<char>, start: usize) -> (result: Vec<char>)
    requires
        start <= text@.len(),
    ensures
        result@ == text@.skip(start as int),
{
    let mut result: Vec<char> = Vec::new();
    let mut i: usize = start;
    while i < text.len()
        invariant
            start <= i <= text@.len(),
            result@ == text@.subrange(start as int, i as int),
        decreases text@.len() - i,
    {
        result.push(text[i]);
        assert(result@ =~= text@.subrange(start as int, i + 1));
        i += 1;
    }
    assert(result@ =~= text@.skip(start as int));
    result
}

/// The extension of a path.
pub fn path_extension(path: &str) -> (result: Option<String>)
    ensures
        text_option(result) == extension(path@),
{
    let given = characters(path);
    let all = strip(&given);
    let start: usize = find_behind_last(&all, '/');
    let name = characters_from(&all, start);
    let dot: usize = find_behind_last(&name, '.');
    if dot <= 1 || same_text(text_of(&name).as_str(), "..") {
        return None;
    }
    let rest = characters_from(&name, dot);
    Some(text_of(&rest))
}

/// Whether a project file is written as YAML or JSON.
pub open spec fn structured_file(path: Seq<char>) -> bool {
    extension(path) matches Some(extension) && (extension == "yaml"@ || extension == "yml"@
        || extension == "json"@)
}

fn is_structured_file(path: &str) -> (result: bool)
    ensures
        result == structured_file(path@),
{
    match path_extension(path) {
        Some(extension) => same_text(extension.as_str(), "yaml") || same_text(
            extension.as_str(),
            "yml",
        ) || same_text(extension.as_str(), "json"),
        None => false,
    }
}

/// What was found at a path.
#[derive(Clone, Debug, PartialEq, Eq)]
pub enum PathProbe {
    /// The path is not absolute.
    Relative,
    /// Nothing could be opened there, for this reason.
    Unopenable(String),
    /// A directory of this resolved path.
    Directory(String),
    /// A file of this resolved path.
    File(String),
    /// Something else of this resolved path.
    Other(String),
}

/// What is wrong with a path that should exist.
pub open spec fn path_fault(probe: PathProbe, label: Seq<char>) -> Option<Seq<char>> {
    match probe {
        PathProbe::Relative => Some(label + " must be an absolute path."@),
        PathProbe::Unopenable(reason) => Some(
            label + " does not exist or cannot be opened: "@ + reason@,
        ),
        _ => None,
    }
}

/// What is wrong with a path that should be a directory.
pub open spec fn directory_fault(probe: PathProbe, label: Seq<char>) -> Option<Seq<char>> {
    if path_fault(probe, label) is Some {
        path_fault(probe, label)
    } else if !(probe is Directory) {
        Some(label + " must be an existing directory."@)
    } else {
        None
    }
}

/// What is wrong with a path that should be a file.
pub open spec fn file_fault(probe: PathProbe, label: Seq<char>) -> Option<Seq<char>> {
    if path_fault(probe, label) is Some {
        path_fault(probe, label)
    } else if !(probe is File) {
        Some(label + " must be an existing file."@)
    } else {
        None
    }
}

/// The resolved path of something that exists.
pub open spec fn resolved(probe: PathProbe) -> Seq<char> {
    match probe {
        PathProbe::Directory(path) => path@,
        PathProbe::File(path) => path@,
        PathProbe::Other(path) => path@,
        _ => Seq::empty(),
    }
}

/// A resolved path, or what is wrong with it.
pub open spec fn text_result(
    result: Result<String, String>,
    fault: Option<Seq<char>>,
    value: Seq<char>,
) -> bool {
    match fault {
        Some(text) => result matches Err(error) && error@ == text,
        None => result matches Ok(found) && found@ == value,
    }
}

/// The resolved path of something that must exist.
pub fn existing_path(probe: &PathProbe, label: &str) -> (result: Result<String, String>)
    ensures
        text_result(result, path_fault(*probe, label@), resolved(*probe)),
{
    match probe {
        PathProbe::Relative => Err(join2(label, " must be an absolute path.")),
        PathProbe::Unopenable(reason) => Err(
            join3(label, " does not exist or cannot be opened: ", reason.as_str()),
        ),
        PathProbe::Directory(path) => Ok(path.clone()),
        PathProbe::File(path) => Ok(path.clone()),
        PathProbe::Other(path) => Ok(path.clone()),
    }
}

/// The resolved path of a directory that must exist.
pub fn existing_directory(probe: &PathProbe, label: &str) -> (result: Result<String, String>)
    ensures
        text_result(result, directory_fault(*probe, label@), resolved(*probe)),
{
    let path = existing_path(probe, label)?;
    match probe {
        PathProbe::Directory(_) => Ok(path),
        _ => Err(join2(label, " must be an existing directory.")),
    }
}

/// The resolved path of a file that must exist.
pub fn existing_file(probe: &PathProbe, label: &str) -> (result: Result<String, String>)
    ensures
        text_result(result, file_fault(*probe, label@), resolved(*probe)),
{
    let path = existing_path(probe, label)?;
    match probe {
        PathProbe::File(_) => Ok(path),
        _ => Err(join2(label, " must be an existing file.")),
    }
}

/// What was found of a workspace.
pub struct WorkspaceProbe {
    /// At the project root.
    pub project_root: PathProbe,
    /// At the trace database.
    pub trace_database: PathProbe,
    /// At the evaluation results, where the workspace names them.
    pub evaluation_results: Option<PathProbe>,
    /// At the agent manifest, where the workspace names one.
    pub agent_manifest: Option<PathProbe>,
    /// Whether the agent manifest is inside the project root.
    pub manifest_inside: bool,
    /// Why the agent manifest is not valid, if it is not.
    pub manifest_error: Option<String>,
    /// Why the provider does not take the trimmed address, if it does not.
    pub url_error: Option<String>,
}

/// What is wrong with the agent manifest of a workspace.
pub open spec fn manifest_probe_fault(probe: WorkspaceProbe) -> Option<Seq<char>> {
    match probe.agent_manifest {
        None => None,
        Some(manifest) => if file_fault(manifest, "Agent manifest"@) is Some {
            file_fault(manifest, "Agent manifest"@)
        } else if !probe.manifest_inside {
            Some("Agent manifest"@ + " must be inside the selected project root."@)
        } else {
            match probe.manifest_error {
                Some(error) => Some("Agent manifest is not valid: "@ + error@),
                None => None,
            }
        },
    }
}

/// What is wrong with a workspace.
pub open spec fn workspace_fault(workspace: ProjectWorkspace, probe: WorkspaceProbe) -> Option<
    Seq<char>,
> {
    if directory_fault(probe.project_root, "Project root"@) is Some {
        directory_fault(probe.project_root, "Project root"@)
    } else if file_fault(probe.trace_database, "Trace database"@) is Some {
        file_fault(probe.trace_database, "Trace database"@)
    } else if probe.evaluation_results matches Some(results) && path_fault(
        results,
        "Evaluation results"@,
    ) is Some {
        path_fault(probe.evaluation_results->0, "Evaluation results"@)
    } else if manifest_probe_fault(probe) is Some {
        manifest_probe_fault(probe)
    } else if blank(workspace.ollama_url@) {
        Some("Ollama URL is required."@)
    } else {
        match probe.url_error {
            Some(error) => Some("Ollama URL must be a loopback address: "@ + error@),
            None => None,
        }
    }
}

/// The resolved path of something a workspace may name.
pub open spec fn resolved_option(probe: Option<PathProbe>) -> Option<Seq<char>> {
    match probe {
        Some(probe) => Some(resolved(probe)),
        None => None,
    }
}

/// Checks a workspace against what was found of it, and puts the resolved paths into it.
pub fn validate_workspace(workspace: ProjectWorkspace, probe: &WorkspaceProbe) -> (result: Result<
    ProjectWorkspace,
    String,
>)
    ensures
        match workspace_fault(workspace, *probe) {
            Some(text) => result matches Err(error) && error@ == text,
            None => result matches Ok(valid) && {
                &&& valid.project_root@ == resolved(probe.project_root)
                &&& valid.trace_db_path@ == resolved(probe.trace_database)
                &&& text_option(valid.evaluation_results_path) == resolved_option(
                    probe.evaluation_results,
                )
                &&& text_option(valid.agent_manifest_path) == resolved_option(probe.agent_manifest)
                &&& valid.ollama_url@ == trimmed(workspace.ollama_url@)
            },
        },
{
    let project_root = existing_directory(&probe.project_root, "Project root")?;
    let trace_db_path = existing_file(&probe.trace_database, "Trace database")?;
    let evaluation_results_path = match &probe.evaluation_results {
        Some(results) => Some(existing_path(results, "Evaluation results")?),
        None => None,
    };
    let agent_manifest_path = match &probe.agent_manifest {
        Some(manifest) => {
            let path = existing_file(manifest, "Agent manifest")?;
            if !probe.manifest_inside {
                return Err(join2("Agent manifest", " must be inside the selected project root."));
            }
            if let Some(error) = &probe.manifest_error {
                return Err(join2("Agent manifest is not valid: ", error.as_str()));
            }
            Some(path)
        },
        None => None,
    };
    if is_blank(workspace.ollama_url.as_str()) {
        return Err("Ollama URL is required.".to_owned());
    }
    if let Some(error) = &probe.url_error {
        return Err(join2("Ollama URL must be a loopback address: ", error.as_str()));
    }
    let ollama_url = trim(workspace.ollama_url.as_str());
    Ok(
        ProjectWorkspace {
            project_root,
            trace_db_path,
            evaluation_results_path,
            agent_manifest_path,
            ollama_url,
        },
    )
}

/// What was found of a file of a project.
#[derive(Clone, Debug, PartialEq, Eq)]
pub enum ProjectFileProbe {
    /// Nothing could be opened, for this reason.
    Unopenable(String),
    /// Something that is no file.
    NotAFile,
    /// A file outside the project root.
    Outside,
    /// A file of this path below the project root.
    Inside(String),
}

/// A path with forward slashes.
pub open spec fn forward(path: Seq<char>) -> Seq<char> {
    path.map_values(
        |character: char|
            if character == '\\' {
                '/'
            } else {
                character
            },
    )
}

/// What is wrong with a file of a project.
pub open spec fn project_file_fault(probe: ProjectFileProbe, label: Seq<char>) -> Option<
    Seq<char>,
> {
    match probe {
        ProjectFileProbe::Unopenable(reason) => Some(
            label + " does not exist or cannot be opened: "@ + reason@,
        ),
        ProjectFileProbe::NotAFile => Some(label + " must be a file."@),
        ProjectFileProbe::Outside => Some(label + " must be inside the selected project root."@),
        ProjectFileProbe::Inside(_) => None,
    }
}

/// The path of a file below the project root, with forward slashes.
pub open spec fn project_path(probe: ProjectFileProbe) -> Seq<char> {
    match probe {
        ProjectFileProbe::Inside(path) => forward(path@),
        _ => Seq::empty(),
    }
}

fn make_forward(path: &str) -> (result: String)
    ensures
        result@ == forward(path@),
{
    let all = characters(path);
    let mut result: Vec<char> = Vec::new();
    let mut i: usize = 0;
    while i < all.len()
        invariant
            i <= all@.len(),
            all@ == path@,
            result@ == forward(path@).take(i as int),
        decreases all@.len() - i,
    {
        if all[i] == '\\' {
            result.push('/');
        } else {
            result.push(all[i]);
        }
        assert(result@ =~= forward(path@).take(i + 1));
        i += 1;
    }
    assert(result@ =~= forward(path@));
    text_of(&result)
}

/// The path of a file that must be inside the project.
pub fn project_relative_existing_file(probe: &ProjectFileProbe, label: &str) -> (result: Result<
    String,
    String,
>)
    ensures
        text_result(result, project_file_fault(*probe, label@), project_path(*probe)),
{
    match probe {
        ProjectFileProbe::Unopenable(reason) => Err(
            join3(label, " does not exist or cannot be opened: ", reason.as_str()),
        ),
        ProjectFileProbe::NotAFile => Err(join2(label, " must be a file.")),
        ProjectFileProbe::Outside => Err(
            join2(label, " must be inside the selected project root."),
        ),
        ProjectFileProbe::Inside(path) => Ok(make_forward(path.as_str())),
    }
}

/// Whether every model may be handed to a command.
pub open spec fn models_fit(models: Seq<Seq<char>>) -> bool {
    forall|i: int| 0 <= i < models.len() ==> model_identifier(#[trigger] models[i])
}

/// What is wrong with a request to run a suite.
pub open spec fn eval_fault(request: EvalLaunchRequest, probe: ProjectFileProbe) -> Option<
    Seq<char>,
> {
    if request.repeat == Some(0u32) {
        Some("Repeat must be greater than zero."@)
    } else if project_file_fault(probe, "Evaluation suite"@) is Some {
        project_file_fault(probe, "Evaluation suite"@)
    } else if !structured_file(project_path(probe)) {
        Some("Evaluation suite must be a YAML or JSON file."@)
    } else if !models_fit(texts(request.models@)) {
        Some(model_id_error())
    } else {
        None
    }
}

/// The arguments that choose the first models.
pub open spec fn model_arguments(models: Seq<Seq<char>>, count: nat) -> Seq<Seq<char>>
    decreases count,
{
    if count == 0 || count > models.len() {
        Seq::empty()
    } else {
        model_arguments(models, (count - 1) as nat).push("--model"@).push(models[count - 1])
    }
}

/// The arguments of the command that runs a suite.
pub open spec fn eval_arguments(request: EvalLaunchRequest, suite: Seq<char>) -> Seq<Seq<char>> {
    let models = texts(request.models@);
    seq![
        "run"@,
        "-q"@,
        "-p"@,
        "llama-harness-cli"@,
        "--"@,
        "eval"@,
        "run"@,
        suite,
    ] + model_arguments(models, models.len()) + (match request.repeat {
        Some(repeat) => seq!["--repeat"@, decimal_digits(repeat as nat)],
        None => Seq::empty(),
    })
}

/// A command that Cargo runs in the project root.
pub open spec fn cargo_command(
    command: CommandPreview,
    workspace: ProjectWorkspace,
    arguments: Seq<Seq<char>>,
) -> bool {
    &&& command.program@ == "cargo"@
    &&& texts(command.args@) == arguments
    &&& command.cwd@ == workspace.project_root@
}

/// The command that runs a suite of the project.
pub fn build_eval_command(
    workspace: &ProjectWorkspace,
    request: &EvalLaunchRequest,
    suite: &ProjectFileProbe,
) -> (result: Result<CommandPreview, String>)
    ensures
        match eval_fault(*request, *suite) {
            Some(text) => result matches Err(error) && error@ == text,
            None => result matches Ok(command) && cargo_command(
                command,
                *workspace,
                eval_arguments(*request, project_path(*suite)),
            ),
        },
{
    if let Some(repeat) = request.repeat {
        if repeat == 0 {
            return Err("Repeat must be greater than zero.".to_owned());
        }
    }
    let path = project_relative_existing_file(suite, "Evaluation suite")?;
    if !is_structured_file(path.as_str()) {
        return Err("Evaluation suite must be a YAML or JSON file.".to_owned());
    }
    let ghost models = texts(request.models@);
    let ghost head = seq![
        "run"@,
        "-q"@,
        "-p"@,
        "llama-harness-cli"@,
        "--"@,
        "eval"@,
        "run"@,
        path@,
    ];
    let mut args: Vec<String> = vec![
        "run".to_owned(),
        "-q".to_owned(),
        "-p".to_owned(),
        "llama-harness-cli".to_owned(),
        "--".to_owned(),
        "eval".to_owned(),
        "run".to_owned(),
        path,
    ];
    let mut i: usize = 0;
    assert(texts(args@) =~= head + model_arguments(models, 0));
    while i < request.models.len()
        invariant
            i <= request.models@.len(),
            models == texts(request.models@),
            forall|j: int| 0 <= j < i ==> model_identifier(#[trigger] models[j]),
            texts(args@) == head + model_arguments(models, i as nat),
            eval_fault(*request, *suite) == if models_fit(models) {
                None
            } else {
                Some(model_id_error())
            },
        decreases request.models@.len() - i,
    {
        let model = &request.models[i];
        assert(models[i as int] == model@);
        validate_model_id(model.as_str())?;
        let ghost before = texts(args@);
        args.push("--model".to_owned());
        args.push(model.clone());
        assert(texts(args@) =~= before.push("--model"@).push(model@));
        assert(texts(args@) =~= head + model_arguments(models, (i + 1) as nat));
        i += 1;
    }
    assert(models_fit(models));
    let ghost before = texts(args@);
    if let Some(repeat) = request.repeat {
        args.push("--repeat".to_owned());
        args.push(decimal(repeat as u64));
        assert(texts(args@) =~= before + seq!["--repeat"@, decimal_digits(repeat as nat)]);
    } else {
        assert(texts(args@) =~= before + Seq::<Seq<char>>::empty());
    }
    Ok(
        CommandPreview {
            program: "cargo".to_owned(),
            args,
            cwd: workspace.project_root.clone(),
        },
    )
}

/// What is wrong with a request to replay a case.
pub open spec fn replay_fault(probe: ProjectFileProbe) -> Option<Seq<char>> {
    if project_file_fault(probe, "Regression artifact"@) is Some {
        project_file_fault(probe, "Regression artifact"@)
    } else if !structured_file(project_path(probe)) {
        Some("Regression artifact must be a YAML or JSON file."@)
    } else {
        None
    }
}

/// The command that replays a case of the project.
pub fn build_replay_command(workspace: &ProjectWorkspace, regression: &ProjectFileProbe) -> (result:
    Result<CommandPreview, String>)
    ensures
        match replay_fault(*regression) {
            Some(text) => result matches Err(error) && error@ == text,
            None => result matches Ok(command) && cargo_command(
                command,
                *workspace,
                seq![
                    "run"@,
                    "-q"@,
                    "-p"@,
                    "llama-harness-cli"@,
                    "--"@,
                    "replay"@,
                    project_path(*regression),
                    "--json"@,
                ],
            ),
        },
{
    let path = project_relative_existing_file(regression, "Regression artifact")?;
    if !is_structured_file(path.as_str()) {
        return Err("Regression artifact must be a YAML or JSON file.".to_owned());
    }
    let args: Vec<String> = vec![
        "run".to_owned(),
        "-q".to_owned(),
        "-p".to_owned(),
        "llama-harness-cli".to_owned(),
        "--".to_owned(),
        "replay".to_owned(),
        path,
        "--json".to_owned(),
    ];
    assert(texts(args@) =~= seq![
        "run"@,
        "-q"@,
        "-p"@,
        "llama-harness-cli"@,
        "--"@,
        "replay"@,
        project_path(*regression),
        "--json"@,
    ]);
    Ok(
        CommandPreview {
            program: "cargo".to_owned(),
            args,
            cwd: workspace.project_root.clone(),
        },
    )
}

/// The name of a run status.
pub open spec fn status_name(status: RunStatus) -> Seq<char> {
    match status {
        RunStatus::Completed => "completed"@,
        RunStatus::Failed => "failed"@,
        RunStatus::Cancelled => "cancelled"@,
        RunStatus::LimitReached => "limit_reached"@,
    }
}

/// The name of a run status.
pub fn run_status_name(status: RunStatus) -> (result: String)
    ensures
        result@ == status_name(status),
{
    match status {
        RunStatus::Completed => "completed".to_owned(),
        RunStatus::Failed => "failed".to_owned(),
        RunStatus::Cancelled => "cancelled".to_owned(),
        RunStatus::LimitReached => "limit_reached".to_owned(),
    }
}

/// The run status of a name.
pub open spec fn status_of(name: Seq<char>) -> Result<RunStatus, Seq<char>> {
    if name == status_name(RunStatus::Completed) {
        Ok(RunStatus::Completed)
    } else if name == status_name(RunStatus::Failed) {
        Ok(RunStatus::Failed)
    } else if name == status_name(RunStatus::Cancelled) {
        Ok(RunStatus::Cancelled)
    } else if name == status_name(RunStatus::LimitReached) {
        Ok(RunStatus::LimitReached)
    } else {
        Err("Run status must be one of: completed, failed, cancelled, limit_reached."@)
    }
}

/// The run status of a name.
pub fn parse_run_status(status: &str) -> (result: Result<RunStatus, String>)
    ensures
        match status_of(status@) {
            Ok(found) => result == Ok::<RunStatus, String>(found),
            Err(text) => result matches Err(error) && error@ == text,
        },
{
    if same_text(status, "completed") {
        Ok(RunStatus::Completed)
    } else if same_text(status, "failed") {
        Ok(RunStatus::Failed)
    } else if same_text(status, "cancelled") {
        Ok(RunStatus::Cancelled)
    } else if same_text(status, "limit_reached") {
        Ok(RunStatus::LimitReached)
    } else {
        Err("Run status must be one of: completed, failed, cancelled, limit_reached.".to_owned())
    }
}

/// The name of a run status reads back as that status.
pub proof fn status_names_read_back(status: RunStatus)
    ensures
        status_of(status_name(status)) == Ok::<RunStatus, Seq<char>>(status),
{
    reveal_strlit("completed");
    reveal_strlit("failed");
    reveal_strlit("cancelled");
    reveal_strlit("limit_reached");
    assert("completed"@[0] == 'c' && "cancelled"@[0] == 'c' && "failed"@[0] == 'f'
        && "limit_reached"@[0] == 'l');
    assert("completed"@[1] == 'o' && "cancelled"@[1] == 'a');
}

/// Which runs the trace database is asked for.
#[derive(Clone, Debug, PartialEq, Eq)]
pub struct RunFilter {
    /// The trace of the runs.
    pub trace_id: Option<String>,
    /// The status of the runs.
    pub status: Option<RunStatus>,
    /// How many runs at most.
    pub limit: u32,
}

/// Which runs a query asks for: an empty status and a blank trace ask for any.
pub fn run_filter(query: &RunQuery) -> (result: Result<RunFilter, String>)
    ensures
        ({
            let wanted = text_option(query.status);
            let any = wanted is None || wanted == Some(Seq::<char>::empty());
            if !any && status_of(wanted->0) is Err {
                result matches Err(error) && error@ == status_of(wanted->0)->Err_0
            } else {
                result matches Ok(filter) && {
                    &&& filter.limit == MAX_RUNS
                    &&& filter.status == if any {
                        None
                    } else {
                        Some(status_of(wanted->0)->Ok_0)
                    }
                    &&& text_option(filter.trace_id) == match text_option(query.trace_id) {
                        Some(trace) => if blank(trace) {
                            None
                        } else {
                            Some(trace)
                        },
                        None => None,
                    }
                }
            }
        }),
{
    let status = match &query.status {
        Some(text) => {
            let all = characters(text.as_str());
            if all.len() == 0 {
                assert(text@ =~= Seq::empty());
                None
            } else {
                Some(parse_run_status(text.as_str())?)
            }
        },
        None => None,
    };
    let trace_id = match &query.trace_id {
        Some(trace) => if is_blank(trace.as_str()) {
            None
        } else {
            copy_option(&query.trace_id)
        },
        None => None,
    };
    Ok(RunFilter { trace_id, status, limit: MAX_RUNS })
}

/// The fragments of a list that are not blank, trimmed.
pub open spec fn fragments_of(values: Seq<Seq<char>>) -> Seq<Seq<char>>
    decreases values.len(),
{
    if values.len() == 0 {
        Seq::empty()
    } else {
        let before = fragments_of(values.drop_last());
        if blank(values.last()) {
            before
        } else {
            before.push(trimmed(values.last()))
        }
    }
}

/// The fragments the console keeps.
pub open spec fn kept_fragments(values: Seq<Seq<char>>) -> Seq<Seq<char>> {
    let fragments = fragments_of(values);
    if fragments.len() > MAX_REDACTION_FRAGMENTS {
        fragments.take(MAX_REDACTION_FRAGMENTS as int)
    } else {
        fragments
    }
}

proof fn fragments_only_grow(values: Seq<Seq<char>>, count: int)
    requires
        0 <= count <= values.len(),
    ensures
        fragments_of(values.take(count)).is_prefix_of(fragments_of(values)),
    decreases values.len(),
{
    if count == values.len() {
        assert(values.take(count) =~= values);
    } else {
        assert(values.drop_last().take(count) =~= values.take(count));
        fragments_only_grow(values.drop_last(), count);
    }
}

/// Trims redaction fragments, drops the blank ones and keeps as many as the console takes.
pub fn keep_fragments(values: &Vec<String>) -> (result: Vec<String>)
    ensures
        texts(result@) == kept_fragments(texts(values@)),
{
    let ghost all = texts(values@);
    let mut result: Vec<String> = Vec::new();
    let mut i: usize = 0;
    assert(all.take(0) =~= Seq::empty());
    assert(texts(result@) =~= fragments_of(all.take(0)));
    while i < values.len() && result.len() < MAX_REDACTION_FRAGMENTS
        invariant
            i <= values@.len(),
            all == texts(values@),
            result@.len() <= MAX_REDACTION_FRAGMENTS,
            texts(result@) == fragments_of(all.take(i as int)),
        decreases values@.len() - i,
    {
        assert(all.take(i + 1).drop_last() =~= all.take(i as int));
        assert(all.take(i + 1).last() == values@[i as int]@);
        if !is_blank(values[i].as_str()) {
            let ghost before = texts(result@);
            result.push(trim(values[i].as_str()));
            assert(texts(result@) =~= before.push(trimmed(values@[i as int]@)));
        }
        i += 1;
    }
    proof {
        fragments_only_grow(all, i as int);
        assert(all.take(all.len() as int) =~= all);
        assert(texts(result@) =~= kept_fragments(all));
    }
    result
}

/// Takes an update of the preferences; `workspace` is the workspace of the update as it was
/// checked.
pub fn update_preferences(
    update: ConsolePreferences,
    workspace: Option<Result<ProjectWorkspace, String>>,
) -> (result: Result<ConsolePreferences, String>)
    ensures
        match workspace {
            Some(Err(error)) => result == Err::<ConsolePreferences, String>(error),
            _ => result matches Ok(next) && {
                &&& next.workspace == match workspace {
                    Some(Ok(valid)) => Some(valid),
                    _ => None,
                }
                &&& next.raw_payload_preference == update.raw_payload_preference
                &&& next.retention_days == update.retention_days
                &&& texts(next.redaction_key_fragments@) == kept_fragments(
                    texts(update.redaction_key_fragments@),
                )
            },
        },
{
    let workspace = match workspace {
        Some(Ok(valid)) => Some(valid),
        Some(Err(error)) => return Err(error),
        None => None,
    };
    Ok(
        ConsolePreferences {
            workspace,
            raw_payload_preference: update.raw_payload_preference,
            redaction_key_fragments: keep_fragments(&update.redaction_key_fragments),
            retention_days: update.retention_days,
        },
    )
}

/// Every argument of a suite command that comes from the request is a path inside the project, a
/// model identifier of the accepted characters, or a number above zero.
pub proof fn commands_stay_constrained(request: EvalLaunchRequest, probe: ProjectFileProbe)
    requires
        eval_fault(request, probe) is None,
    ensures
        probe is Inside,
        structured_file(project_path(probe)),
        models_fit(texts(request.models@)),
        request.repeat != Some(0u32),
        eval_arguments(request, project_path(probe)).len() == 8 + 2 * request.models@.len()
            + if request.repeat is Some {
            2int
        } else {
            0int
        },
{
    model_arguments_len(texts(request.models@), request.models@.len());
}

proof fn model_arguments_len(models: Seq<Seq<char>>, count: nat)
    requires
        count <= models.len(),
    ensures
        model_arguments(models, count).len() == 2 * count,
    decreases count,
{
    if count > 0 {
        model_arguments_len(models, (count - 1) as nat);
    }
}

} // verus!
