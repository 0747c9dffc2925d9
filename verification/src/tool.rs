//! Tools as the library sees them: what the host registered, what a model asked for and
//! what came back.

use crate::json::{render_json, rendered_json, Json, JsonTree};
use crate::text::{copy_option, join2, join3, same_text, text_option};
use vstd::prelude::*;
use vstd::string::*;

verus! {

/// Who invokes a tool.
#[derive(Clone, Copy, Debug, PartialEq, Eq, Hash, Structural)]
#[non_exhaustive]
pub enum ToolCaller {
    /// A native tool call of a model.
    Direct,
    /// A node of a declarative plan.
    DeclarativePlan,
    /// A call of a sandboxed program.
    Programmatic,
    /// A call issued before its model response completed.
    Speculative,
}

/// How much harm a tool can do.
#[derive(Clone, Copy, Debug, PartialEq, Eq, Structural)]
#[non_exhaustive]
pub enum ToolRisk {
    /// Little.
    Low,
    /// Some.
    Medium,
    /// Much.
    High,
}

/// Whether a tool may be issued speculatively at all.
#[derive(Clone, Copy, Debug, PartialEq, Eq, Structural)]
#[non_exhaustive]
pub enum SpeculationPolicy {
    /// Never.
    Disabled,
    /// Under every other condition of speculation.
    Enabled,
}

/// What cancelling a running tool leaves behind.
#[derive(Clone, Copy, Debug, PartialEq, Eq, Structural)]
#[non_exhaustive]
pub enum CancellationSafety {
    /// Unknown.
    Unspecified,
    /// Nothing.
    Guaranteed,
}

/// What issuing a tool whose result is dropped leaves behind.
#[derive(Clone, Copy, Debug, PartialEq, Eq, Structural)]
#[non_exhaustive]
pub enum IssueSafety {
    /// Unknown.
    Unspecified,
    /// Nothing.
    Guaranteed,
}

/// Where a tool runs.
#[derive(Clone, Copy, Debug, PartialEq, Eq, Structural)]
#[non_exhaustive]
pub enum ExecutionLocation {
    /// Unknown or remote.
    Unspecified,
    /// On this machine, with nothing shared.
    LocalPrivate,
}

/// Whether a tool sends data over the network.
#[derive(Clone, Copy, Debug, PartialEq, Eq, Structural)]
#[non_exhaustive]
pub enum NetworkEgress {
    /// Unknown or allowed.
    Unspecified,
    /// Never.
    Prohibited,
}

/// One tool call that a model asked for.
///
/// `S` is the text: `String` in running code, a sequence of characters in contracts.
#[derive(Clone, Debug, PartialEq, Eq)]
pub struct ToolCall<S = String> {
    /// Identifier of the call.
    pub id: S,
    /// Identifier of the tool.
    pub tool_id: S,
    /// Arguments, as JSON text.
    pub arguments_json: S,
}

impl View for ToolCall<String> {
    type V = ToolCall<Seq<char>>;

    open spec fn view(&self) -> ToolCall<Seq<char>> {
        ToolCall { id: self.id@, tool_id: self.tool_id@, arguments_json: self.arguments_json@ }
    }
}

/// The views of a list of calls.
pub open spec fn calls_view(calls: Seq<ToolCall>) -> Seq<ToolCall<Seq<char>>> {
    calls.map_values(|call: ToolCall| call@)
}

impl ToolCall {
    /// Creates a call.
    pub fn new(id: &str, tool_id: &str, arguments_json: &str) -> (result: ToolCall)
        ensures
            result@ == (ToolCall { id: id@, tool_id: tool_id@, arguments_json: arguments_json@ }),
    {
        ToolCall {
            id: id.to_owned(),
            tool_id: tool_id.to_owned(),
            arguments_json: arguments_json.to_owned(),
        }
    }

    /// A copy of the call.
    pub fn duplicate(&self) -> (result: ToolCall)
        ensures
            result == *self,
    {
        ToolCall {
            id: self.id.clone(),
            tool_id: self.tool_id.clone(),
            arguments_json: self.arguments_json.clone(),
        }
    }

    /// A copy of the call with other arguments.
    pub fn with_arguments(&self, arguments_json: &str) -> (result: ToolCall)
        ensures
            result@ == (ToolCall { arguments_json: arguments_json@, ..self@ }),
    {
        ToolCall {
            id: self.id.clone(),
            tool_id: self.tool_id.clone(),
            arguments_json: arguments_json.to_owned(),
        }
    }
}

/// A copy of a list of calls.
pub fn copy_calls(calls: &Vec<ToolCall>) -> (result: Vec<ToolCall>)
    ensures
        calls_view(result@) == calls_view(calls@),
        result@ == calls@,
{
    let mut result: Vec<ToolCall> = Vec::new();
    let mut i: usize = 0;
    while i < calls.len()
        invariant
            i <= calls@.len(),
            result@ =~= calls@.take(i as int),
        decreases calls@.len() - i,
    {
        result.push(calls[i].duplicate());
        i += 1;
    }
    assert(result@ =~= calls@);
    result
}

/// What a tool returned.
#[derive(Clone, Debug, PartialEq, Eq)]
pub struct ToolResult {
    /// Whether the tool succeeded.
    pub ok: bool,
    /// Its output.
    pub output: Json,
    /// Its failure message.
    pub error: Option<String>,
}

/// The model of a tool result.
pub struct ToolResultModel {
    /// Whether the tool succeeded.
    pub ok: bool,
    /// Its output.
    pub output: JsonTree,
    /// Its failure message.
    pub error: Option<Seq<char>>,
}

impl View for ToolResult {
    type V = ToolResultModel;

    open spec fn view(&self) -> ToolResultModel {
        ToolResultModel { ok: self.ok, output: self.output@, error: text_option(self.error) }
    }
}

/// The result of a failure.
pub open spec fn failure_model(message: Seq<char>) -> ToolResultModel {
    ToolResultModel { ok: false, output: JsonTree::Null, error: Some(message) }
}

impl ToolResultModel {
    /// The compact JSON text of a result: `ok`, `output`, and `error` where there is one.
    pub open spec fn json_text(self) -> Seq<char> {
        "{\"ok\":"@ + (if self.ok {
            "true"@
        } else {
            "false"@
        }) + ",\"output\":"@ + rendered_json(self.output) + (match self.error {
            Some(message) => ",\"error\":"@ + rendered_json(JsonTree::Text(message)),
            None => ""@,
        }) + "}"@
    }
}

impl ToolResult {
    /// A successful result.
    pub fn success(output: Json) -> (result: ToolResult)
        ensures
            result@ == (ToolResultModel { ok: true, output: output@, error: None }),
    {
        ToolResult { ok: true, output, error: None }
    }

    /// A failed result.
    pub fn failure(message: &str) -> (result: ToolResult)
        ensures
            result@ == failure_model(message@),
    {
        ToolResult { ok: false, output: Json::Null, error: Some(message.to_owned()) }
    }

    /// A copy of the result.
    pub fn duplicate(&self) -> (result: ToolResult)
        ensures
            result@ == self@,
    {
        ToolResult {
            ok: self.ok,
            output: self.output.duplicate(),
            error: copy_option(&self.error),
        }
    }

    /// The compact JSON text of the result.
    pub fn to_json_text(&self) -> (result: String)
        ensures
            result@ == self@.json_text(),
    {
        let head = join3(
            "{\"ok\":",
            if self.ok {
                "true"
            } else {
                "false"
            },
            ",\"output\":",
        );
        let body = head.concat(render_json(&self.output).as_str());
        let tail = match &self.error {
            Some(message) => join2(
                ",\"error\":",
                render_json(&Json::Text(message.clone())).as_str(),
            ),
            None => "".to_owned(),
        };
        body.concat(tail.as_str()).concat("}")
    }
}

/// A tool that the host registered.
#[derive(Clone, Debug, PartialEq, Eq)]
pub struct ToolDefinition {
    /// Stable identifier.
    pub id: String,
    /// Human-readable name.
    pub name: String,
    /// What the tool does.
    pub description: String,
    /// Schema of its arguments.
    pub arguments_schema: Json,
    /// Schema of its output, where it has one.
    pub output_schema: Option<Json>,
    /// How much harm it can do.
    pub risk: ToolRisk,
    /// Whether running it twice is the same as running it once.
    pub idempotent: bool,
    /// Whether it changes nothing.
    pub read_only: bool,
    /// Whether it may run beside other tools.
    pub parallel_safe: bool,
    /// Tools with the same key never run at the same time.
    pub concurrency_key: Option<String>,
    /// Who may call it.
    pub allowed_callers: Vec<ToolCaller>,
    /// Whether it may be issued speculatively.
    pub speculation_policy: SpeculationPolicy,
    /// What cancelling it leaves behind.
    pub cancellation_safety: CancellationSafety,
    /// What dropping its result leaves behind.
    pub issue_safety: IssueSafety,
    /// Where it runs.
    pub execution_location: ExecutionLocation,
    /// Whether it sends data over the network.
    pub network_egress: NetworkEgress,
}

impl ToolDefinition {
    /// Whether `caller` may invoke the tool.
    pub open spec fn permits(&self, caller: ToolCaller) -> bool {
        self.allowed_callers@.contains(caller)
    }

    /// Creates a read-only, sequential definition that only direct calls may use.
    pub fn new(id: &str, name: &str, description: &str, arguments_schema: Json) -> (result:
        ToolDefinition)
        ensures
            result.id@ == id@,
            result.name@ == name@,
            result.description@ == description@,
            result.arguments_schema == arguments_schema,
            result.output_schema is None,
            result.risk == ToolRisk::Low,
            !result.idempotent,
            result.read_only,
            !result.parallel_safe,
            result.concurrency_key is None,
            result.allowed_callers@ == seq![ToolCaller::Direct],
            result.speculation_policy == SpeculationPolicy::Disabled,
            result.cancellation_safety == CancellationSafety::Unspecified,
            result.issue_safety == IssueSafety::Unspecified,
            result.execution_location == ExecutionLocation::Unspecified,
            result.network_egress == NetworkEgress::Unspecified,
    {
        let mut allowed_callers: Vec<ToolCaller> = Vec::new();
        allowed_callers.push(ToolCaller::Direct);
        assert(allowed_callers@ =~= seq![ToolCaller::Direct]);
        ToolDefinition {
            id: id.to_owned(),
            name: name.to_owned(),
            description: description.to_owned(),
            arguments_schema,
            output_schema: None,
            risk: ToolRisk::Low,
            idempotent: false,
            read_only: true,
            parallel_safe: false,
            concurrency_key: None,
            allowed_callers,
            speculation_policy: SpeculationPolicy::Disabled,
            cancellation_safety: CancellationSafety::Unspecified,
            issue_safety: IssueSafety::Unspecified,
            execution_location: ExecutionLocation::Unspecified,
            network_egress: NetworkEgress::Unspecified,
        }
    }

    /// Replaces the callers that may invoke the tool.
    pub fn with_allowed_callers(self, allowed_callers: Vec<ToolCaller>) -> (result: ToolDefinition)
        ensures
            result == (ToolDefinition { allowed_callers, ..self }),
    {
        let mut result = self;
        result.allowed_callers = allowed_callers;
        result
    }

    /// Whether `caller` may invoke the tool.
    pub fn allows_caller(&self, caller: ToolCaller) -> (result: bool)
        ensures
            result == self.permits(caller),
    {
        let mut i: usize = 0;
        while i < self.allowed_callers.len()
            invariant
                i <= self.allowed_callers@.len(),
                forall|j: int| 0 <= j < i ==> self.allowed_callers@[j] != caller,
            decreases self.allowed_callers@.len() - i,
        {
            if self.allowed_callers[i] == caller {
                return true;
            }
            i += 1;
        }
        false
    }
}

/// Where a call came from. Only programmatic calls carry the last four.
///
/// `S` is the text: `String` in running code, a sequence of characters in contracts.
#[derive(Clone, Debug, PartialEq, Eq)]
pub struct ToolCallContext<S = String> {
    /// Identifier of the run.
    pub run_id: S,
    /// Identifier of the trace.
    pub trace_id: S,
    /// Identifier of the call.
    pub call_id: S,
    /// Identifier of the tool.
    pub tool_id: S,
    /// Who invokes the tool.
    pub caller: Option<ToolCaller>,
    /// Program attempt of a programmatic call.
    pub program_attempt: Option<u32>,
    /// Static call site of a programmatic call.
    pub static_call_site: Option<u32>,
    /// Dynamic ordinal of a programmatic call.
    pub dynamic_ordinal: Option<u64>,
    /// Effect identity of a programmatic call.
    pub effect_key: Option<S>,
}

impl View for ToolCallContext<String> {
    type V = ToolCallContext<Seq<char>>;

    open spec fn view(&self) -> ToolCallContext<Seq<char>> {
        ToolCallContext {
            run_id: self.run_id@,
            trace_id: self.trace_id@,
            call_id: self.call_id@,
            tool_id: self.tool_id@,
            caller: self.caller,
            program_attempt: self.program_attempt,
            static_call_site: self.static_call_site,
            dynamic_ordinal: self.dynamic_ordinal,
            effect_key: text_option(self.effect_key),
        }
    }
}

impl ToolCallContext {
    /// The context of a call whose caller is not yet known.
    pub fn new(run_id: &str, trace_id: &str, call_id: &str, tool_id: &str) -> (result:
        ToolCallContext)
        ensures
            result@ == (ToolCallContext {
                run_id: run_id@,
                trace_id: trace_id@,
                call_id: call_id@,
                tool_id: tool_id@,
                caller: None,
                program_attempt: None,
                static_call_site: None,
                dynamic_ordinal: None,
                effect_key: None,
            }),
    {
        ToolCallContext {
            run_id: run_id.to_owned(),
            trace_id: trace_id.to_owned(),
            call_id: call_id.to_owned(),
            tool_id: tool_id.to_owned(),
            caller: None,
            program_attempt: None,
            static_call_site: None,
            dynamic_ordinal: None,
            effect_key: None,
        }
    }

    /// Marks the context as one occurrence of a program's call site.
    pub fn with_programmatic_occurrence(
        self,
        program_attempt: u32,
        static_call_site: u32,
        dynamic_ordinal: u64,
        effect_key: &str,
    ) -> (result: ToolCallContext)
        ensures
            result@ == (ToolCallContext {
                caller: Some(ToolCaller::Programmatic),
                program_attempt: Some(program_attempt),
                static_call_site: Some(static_call_site),
                dynamic_ordinal: Some(dynamic_ordinal),
                effect_key: Some(effect_key@),
                ..self@
            }),
    {
        ToolCallContext {
            run_id: self.run_id,
            trace_id: self.trace_id,
            call_id: self.call_id,
            tool_id: self.tool_id,
            caller: Some(ToolCaller::Programmatic),
            program_attempt: Some(program_attempt),
            static_call_site: Some(static_call_site),
            dynamic_ordinal: Some(dynamic_ordinal),
            effect_key: Some(effect_key.to_owned()),
        }
    }
}

/// Whether two optional callers are the same.
pub fn same_caller(left: Option<ToolCaller>, right: ToolCaller) -> (result: bool)
    ensures
        result == (left == Some(right)),
{
    match left {
        Some(caller) => caller == right,
        None => false,
    }
}

/// Whether an optional text is `wanted`.
pub fn is_text(value: &Option<String>, wanted: &str) -> (result: bool)
    ensures
        result == (text_option(*value) == Some(wanted@)),
{
    match value {
        Some(text) => same_text(text.as_str(), wanted),
        None => false,
    }
}

} // verus!
