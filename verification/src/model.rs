//! What a model provider reports and what it answers.

use crate::error::HarnessError;
use crate::json::{render_json, rendered_json, Json, JsonTree};
use crate::limits::{check_view, AgentLimits};
use crate::text::{byte_len, decimal, decimal_digits, join2, join3, text_option, utf8_len};
use crate::tool::{calls_view, ToolCall};
use vstd::prelude::*;
use vstd::string::*;

verus! {

/// Tokens that a response used.
#[derive(Clone, Copy, Debug, PartialEq, Eq, Structural)]
#[non_exhaustive]
pub struct Usage {
    /// Tokens of the input.
    pub input_tokens: u64,
    /// Tokens of the output.
    pub output_tokens: u64,
}

impl Default for Usage {
    fn default() -> (result: Usage)
        ensures
            result == (Usage { input_tokens: 0, output_tokens: 0 }),
    {
        Usage { input_tokens: 0, output_tokens: 0 }
    }
}

impl Usage {
    /// Creates a token count.
    pub fn new(input_tokens: u64, output_tokens: u64) -> (result: Usage)
        ensures
            result == (Usage { input_tokens, output_tokens }),
    {
        Usage { input_tokens, output_tokens }
    }
}

/// One complete model response.
#[derive(Clone, Debug, PartialEq, Eq)]
#[non_exhaustive]
pub struct ModelResponse {
    /// Model that answered.
    pub model: String,
    /// Final output, where there is one.
    pub final_output: Option<String>,
    /// Tool calls that the model asks for.
    pub tool_calls: Vec<ToolCall>,
    /// Tokens that the response used.
    pub usage: Usage,
}

/// The model of a model response.
pub struct ResponseModel {
    /// Model that answered.
    pub model: Seq<char>,
    /// Final output, where there is one.
    pub final_output: Option<Seq<char>>,
    /// Tool calls that the model asks for.
    pub tool_calls: Seq<ToolCall<Seq<char>>>,
    /// Tokens that the response used.
    pub usage: Usage,
}

impl View for ModelResponse {
    type V = ResponseModel;

    open spec fn view(&self) -> ResponseModel {
        ResponseModel {
            model: self.model@,
            final_output: text_option(self.final_output),
            tool_calls: calls_view(self.tool_calls@),
            usage: self.usage,
        }
    }
}

impl ModelResponse {
    /// Creates a response without output or calls.
    pub fn new(model: &str) -> (result: ModelResponse)
        ensures
            result@ == (ResponseModel {
                model: model@,
                final_output: None,
                tool_calls: Seq::empty(),
                usage: Usage { input_tokens: 0, output_tokens: 0 },
            }),
    {
        let result = ModelResponse {
            model: model.to_owned(),
            final_output: None,
            tool_calls: Vec::new(),
            usage: Usage::default(),
        };
        assert(result@.tool_calls =~= Seq::empty());
        result
    }

    /// Supplies the final output.
    pub fn with_final_output(self, output: &str) -> (result: ModelResponse)
        ensures
            result@ == (ResponseModel { final_output: Some(output@), ..self@ }),
    {
        let mut result = self;
        result.final_output = Some(output.to_owned());
        result
    }

    /// Supplies the tool calls.
    pub fn with_tool_calls(self, tool_calls: Vec<ToolCall>) -> (result: ModelResponse)
        ensures
            result@ == (ResponseModel { tool_calls: calls_view(tool_calls@), ..self@ }),
    {
        let mut result = self;
        result.tool_calls = tool_calls;
        result
    }

    /// Supplies the token count.
    pub fn with_usage(self, usage: Usage) -> (result: ModelResponse)
        ensures
            result@ == (ResponseModel { usage, ..self@ }),
    {
        let mut result = self;
        result.usage = usage;
        result
    }
}

/// The compact JSON text of a string.
pub open spec fn string_json(text: Seq<char>) -> Seq<char> {
    rendered_json(JsonTree::Text(text))
}

/// The compact JSON text of a call.
pub open spec fn call_json(call: ToolCall<Seq<char>>) -> Seq<char> {
    "{\"id\":"@ + string_json(call.id) + ",\"tool_id\":"@ + string_json(call.tool_id)
        + ",\"arguments_json\":"@ + string_json(call.arguments_json) + "}"@
}

/// The compact JSON texts of calls, with commas between them.
pub open spec fn calls_json(calls: Seq<ToolCall<Seq<char>>>) -> Seq<char>
    decreases calls.len(),
{
    if calls.len() == 0 {
        Seq::empty()
    } else if calls.len() == 1 {
        call_json(calls[0])
    } else {
        calls_json(calls.drop_last()) + ","@ + call_json(calls.last())
    }
}

impl ResponseModel {
    /// The compact JSON text of a response.
    pub open spec fn json_text(self) -> Seq<char> {
        "{\"model\":"@ + string_json(self.model) + (match self.final_output {
            Some(output) => ",\"final_output\":"@ + string_json(output),
            None => ""@,
        }) + ",\"tool_calls\":["@ + calls_json(self.tool_calls)
            + "],\"usage\":{\"input_tokens\":"@ + decimal_digits(self.usage.input_tokens as nat)
            + ",\"output_tokens\":"@ + decimal_digits(self.usage.output_tokens as nat) + "}}"@
    }
}

fn string_text(text: &str) -> (result: String)
    ensures
        result@ == string_json(text@),
{
    render_json(&Json::Text(text.to_owned()))
}

fn call_text(call: &ToolCall) -> (result: String)
    ensures
        result@ == call_json(call@),
{
    join3("{\"id\":", string_text(call.id.as_str()).as_str(), ",\"tool_id\":").concat(
        string_text(call.tool_id.as_str()).as_str(),
    ).concat(",\"arguments_json\":").concat(string_text(call.arguments_json.as_str()).as_str()).concat(
        "}",
    )
}

impl ModelResponse {
    /// The compact JSON text of the response.
    pub fn to_json_text(&self) -> (result: String)
        ensures
            result@ == self@.json_text(),
    {
        let head = join2("{\"model\":", string_text(self.model.as_str()).as_str());
        let output = match &self.final_output {
            Some(output) => join2(",\"final_output\":", string_text(output.as_str()).as_str()),
            None => "".to_owned(),
        };
        let mut calls = String::new();
        let mut i: usize = 0;
        let ghost all = self@.tool_calls;
        assert(all.take(0) =~= Seq::empty());
        assert(calls@ =~= Seq::empty());
        while i < self.tool_calls.len()
            invariant
                i <= self.tool_calls@.len(),
                all == calls_view(self.tool_calls@),
                calls@ == calls_json(all.take(i as int)),
            decreases self.tool_calls@.len() - i,
        {
            let ghost longer = all.take(i as int + 1);
            assert(longer.drop_last() =~= all.take(i as int));
            assert(longer.last() == self.tool_calls@[i as int]@);
            let text = call_text(&self.tool_calls[i]);
            if i == 0 {
                calls = text;
            } else {
                calls = calls.concat(",").concat(text.as_str());
            }
            i += 1;
        }
        assert(all.take(all.len() as int) =~= all);
        head.concat(output.as_str()).concat(",\"tool_calls\":[").concat(calls.as_str()).concat(
            "],\"usage\":{\"input_tokens\":",
        ).concat(decimal(self.usage.input_tokens).as_str()).concat(",\"output_tokens\":").concat(
            decimal(self.usage.output_tokens).as_str(),
        ).concat("}}")
    }
}

/// What the size check of a response answers.
pub open spec fn response_check(response: ResponseModel, limits: AgentLimits) -> Result<
    (),
    HarnessError<Seq<char>>,
> {
    if utf8_len(response.json_text()) > limits.max_model_response_bytes {
        Err(
            HarnessError::ResourceLimit(
                "model response exceeds "@ + decimal_digits(limits.max_model_response_bytes as nat)
                    + " bytes"@,
            ),
        )
    } else {
        Ok(())
    }
}

/// Refuses a response whose serialized form is larger than the limit.
pub fn validate_model_response(response: &ModelResponse, limits: &AgentLimits) -> (result: Result<
    (),
    HarnessError,
>)
    ensures
        check_view(result) == response_check(response@, *limits),
{
    if byte_len(response.to_json_text().as_str()) as u64 > limits.max_model_response_bytes {
        return Err(
            HarnessError::ResourceLimit(
                join3(
                    "model response exceeds ",
                    decimal(limits.max_model_response_bytes).as_str(),
                    " bytes",
                ),
            ),
        );
    }
    Ok(())
}

/// How faithfully a provider writes programs.
#[derive(Clone, Copy, Debug, PartialEq, Eq, Structural)]
#[non_exhaustive]
pub enum ProgrammaticConformance {
    /// Strict JSON syntax trees of version one.
    StrictJsonAstV1,
}

/// Limits that a provider advertises.
#[derive(Clone, Copy, Debug, PartialEq, Eq, Structural)]
#[non_exhaustive]
pub struct ProviderCapabilityLimits {
    /// Most tools in one request.
    pub max_tools: Option<u32>,
    /// Bytes of the serialized tool definitions.
    pub max_tool_schema_bytes: Option<u64>,
    /// Most tool calls at the same time.
    pub max_parallel_tool_calls: Option<u32>,
    /// Bytes of one streamed call's arguments.
    pub max_streamed_argument_bytes: Option<u64>,
    /// Most tool calls in one stream.
    pub max_streamed_tool_calls: Option<u32>,
    /// Bytes of one plan.
    pub max_plan_bytes: Option<u64>,
    /// Most nodes of one plan.
    pub max_plan_nodes: Option<u32>,
    /// Bytes of one program.
    pub max_program_bytes: Option<u64>,
}

impl Default for ProviderCapabilityLimits {
    fn default() -> (result: ProviderCapabilityLimits)
        ensures
            result == (ProviderCapabilityLimits {
                max_tools: None,
                max_tool_schema_bytes: None,
                max_parallel_tool_calls: None,
                max_streamed_argument_bytes: None,
                max_streamed_tool_calls: None,
                max_plan_bytes: None,
                max_plan_nodes: None,
                max_program_bytes: None,
            }),
    {
        ProviderCapabilityLimits {
            max_tools: None,
            max_tool_schema_bytes: None,
            max_parallel_tool_calls: None,
            max_streamed_argument_bytes: None,
            max_streamed_tool_calls: None,
            max_plan_bytes: None,
            max_plan_nodes: None,
            max_program_bytes: None,
        }
    }
}

impl ProviderCapabilityLimits {
    /// Creates limits of which none is advertised.
    pub fn new() -> (result: ProviderCapabilityLimits)
        ensures
            result == (ProviderCapabilityLimits {
                max_tools: None,
                max_tool_schema_bytes: None,
                max_parallel_tool_calls: None,
                max_streamed_argument_bytes: None,
                max_streamed_tool_calls: None,
                max_plan_bytes: None,
                max_plan_nodes: None,
                max_program_bytes: None,
            }),
    {
        ProviderCapabilityLimits::default()
    }

    /// Advertises `max_tools`.
    pub fn with_max_tools(self, max_tools: u32) -> (result: ProviderCapabilityLimits)
        ensures
            result == (ProviderCapabilityLimits { max_tools: Some(max_tools), ..self }),
    {
        let mut result = self;
        result.max_tools = Some(max_tools);
        result
    }

    /// Advertises `max_tool_schema_bytes`.
    pub fn with_max_tool_schema_bytes(self, max_tool_schema_bytes: u64) -> (result: ProviderCapabilityLimits)
        ensures
            result == (ProviderCapabilityLimits { max_tool_schema_bytes: Some(max_tool_schema_bytes), ..self }),
    {
        let mut result = self;
        result.max_tool_schema_bytes = Some(max_tool_schema_bytes);
        result
    }

    /// Advertises `max_parallel_tool_calls`.
    pub fn with_max_parallel_tool_calls(self, max_parallel_tool_calls: u32) -> (result: ProviderCapabilityLimits)
        ensures
            result == (ProviderCapabilityLimits { max_parallel_tool_calls: Some(max_parallel_tool_calls), ..self }),
    {
        let mut result = self;
        result.max_parallel_tool_calls = Some(max_parallel_tool_calls);
        result
    }

    /// Advertises `max_streamed_argument_bytes`.
    pub fn with_max_streamed_argument_bytes(self, max_streamed_argument_bytes: u64) -> (result: ProviderCapabilityLimits)
        ensures
            result == (ProviderCapabilityLimits { max_streamed_argument_bytes: Some(max_streamed_argument_bytes), ..self }),
    {
        let mut result = self;
        result.max_streamed_argument_bytes = Some(max_streamed_argument_bytes);
        result
    }

    /// Advertises `max_streamed_tool_calls`.
    pub fn with_max_streamed_tool_calls(self, max_streamed_tool_calls: u32) -> (result: ProviderCapabilityLimits)
        ensures
            result == (ProviderCapabilityLimits { max_streamed_tool_calls: Some(max_streamed_tool_calls), ..self }),
    {
        let mut result = self;
        result.max_streamed_tool_calls = Some(max_streamed_tool_calls);
        result
    }

    /// Advertises `max_plan_bytes`.
    pub fn with_max_plan_bytes(self, max_plan_bytes: u64) -> (result: ProviderCapabilityLimits)
        ensures
            result == (ProviderCapabilityLimits { max_plan_bytes: Some(max_plan_bytes), ..self }),
    {
        let mut result = self;
        result.max_plan_bytes = Some(max_plan_bytes);
        result
    }

    /// Advertises `max_plan_nodes`.
    pub fn with_max_plan_nodes(self, max_plan_nodes: u32) -> (result: ProviderCapabilityLimits)
        ensures
            result == (ProviderCapabilityLimits { max_plan_nodes: Some(max_plan_nodes), ..self }),
    {
        let mut result = self;
        result.max_plan_nodes = Some(max_plan_nodes);
        result
    }

    /// Advertises `max_program_bytes`.
    pub fn with_max_program_bytes(self, max_program_bytes: u64) -> (result: ProviderCapabilityLimits)
        ensures
            result == (ProviderCapabilityLimits { max_program_bytes: Some(max_program_bytes), ..self }),
    {
        let mut result = self;
        result.max_program_bytes = Some(max_program_bytes);
        result
    }

}

/// What a provider can do.
#[derive(Clone, Copy, Debug, PartialEq, Eq, Structural)]
#[non_exhaustive]
pub struct ModelCapabilities {
    /// Native tool calls.
    pub supports_tools: bool,
    /// Streamed responses.
    pub supports_streaming: bool,
    /// Output that follows a schema.
    pub supports_structured_output: bool,
    /// Arguments that always follow their schema.
    pub supports_strict_tool_schemas: bool,
    /// Streamed tool arguments.
    pub supports_streaming_tool_arguments: bool,
    /// Several tool calls in one response.
    pub supports_parallel_tool_calls: bool,
    /// Declarative plans.
    pub supports_structured_plans: bool,
    /// Sandboxed programs.
    pub supports_programmatic_calling: bool,
    /// How faithfully it writes programs, where it does.
    pub programmatic_conformance: Option<ProgrammaticConformance>,
    /// Limits that it advertises.
    pub limits: ProviderCapabilityLimits,
}

/// Limits of which none is advertised.
pub open spec fn no_provider_limits() -> ProviderCapabilityLimits {
    ProviderCapabilityLimits {
        max_tools: None,
        max_tool_schema_bytes: None,
        max_parallel_tool_calls: None,
        max_streamed_argument_bytes: None,
        max_streamed_tool_calls: None,
        max_plan_bytes: None,
        max_plan_nodes: None,
        max_program_bytes: None,
    }
}

impl Default for ModelCapabilities {
    fn default() -> (result: ModelCapabilities)
        ensures
            result == (ModelCapabilities {
                supports_tools: false,
                supports_streaming: false,
                supports_structured_output: false,
                supports_strict_tool_schemas: false,
                supports_streaming_tool_arguments: false,
                supports_parallel_tool_calls: false,
                supports_structured_plans: false,
                supports_programmatic_calling: false,
                programmatic_conformance: None,
                limits: no_provider_limits(),
            }),
    {
        ModelCapabilities::new(false, false, false)
    }
}

impl ModelCapabilities {
    /// Creates capabilities with the three basic ones given and no others.
    pub fn new(
        supports_tools: bool,
        supports_streaming: bool,
        supports_structured_output: bool,
    ) -> (result: ModelCapabilities)
        ensures
            result == (ModelCapabilities {
                supports_tools,
                supports_streaming,
                supports_structured_output,
                supports_strict_tool_schemas: false,
                supports_streaming_tool_arguments: false,
                supports_parallel_tool_calls: false,
                supports_structured_plans: false,
                supports_programmatic_calling: false,
                programmatic_conformance: None,
                limits: no_provider_limits(),
            }),
    {
        ModelCapabilities {
            supports_tools,
            supports_streaming,
            supports_structured_output,
            supports_strict_tool_schemas: false,
            supports_streaming_tool_arguments: false,
            supports_parallel_tool_calls: false,
            supports_structured_plans: false,
            supports_programmatic_calling: false,
            programmatic_conformance: None,
            limits: ProviderCapabilityLimits::default(),
        }
    }

    /// Sets `supports_strict_tool_schemas`.
    pub fn with_strict_tool_schemas(self, supported: bool) -> (result: ModelCapabilities)
        ensures
            result == (ModelCapabilities { supports_strict_tool_schemas: supported, ..self }),
    {
        let mut result = self;
        result.supports_strict_tool_schemas = supported;
        result
    }

    /// Sets `supports_streaming_tool_arguments`.
    pub fn with_streaming_tool_arguments(self, supported: bool) -> (result: ModelCapabilities)
        ensures
            result == (ModelCapabilities { supports_streaming_tool_arguments: supported, ..self }),
    {
        let mut result = self;
        result.supports_streaming_tool_arguments = supported;
        result
    }

    /// Sets `supports_parallel_tool_calls`.
    pub fn with_parallel_tool_calls(self, supported: bool) -> (result: ModelCapabilities)
        ensures
            result == (ModelCapabilities { supports_parallel_tool_calls: supported, ..self }),
    {
        let mut result = self;
        result.supports_parallel_tool_calls = supported;
        result
    }

    /// Sets `supports_structured_plans`.
    pub fn with_structured_plans(self, supported: bool) -> (result: ModelCapabilities)
        ensures
            result == (ModelCapabilities { supports_structured_plans: supported, ..self }),
    {
        let mut result = self;
        result.supports_structured_plans = supported;
        result
    }

    /// Sets `supports_programmatic_calling`.
    pub fn with_programmatic_calling(self, supported: bool) -> (result: ModelCapabilities)
        ensures
            result == (ModelCapabilities { supports_programmatic_calling: supported, ..self }),
    {
        let mut result = self;
        result.supports_programmatic_calling = supported;
        result
    }

    /// Sets how faithfully the provider writes programs.
    pub fn with_programmatic_conformance(self, conformance: ProgrammaticConformance) -> (result:
        ModelCapabilities)
        ensures
            result == (ModelCapabilities { programmatic_conformance: Some(conformance), ..self }),
    {
        let mut result = self;
        result.programmatic_conformance = Some(conformance);
        result
    }

    /// Sets the advertised limits.
    pub fn with_limits(self, limits: ProviderCapabilityLimits) -> (result: ModelCapabilities)
        ensures
            result == (ModelCapabilities { limits, ..self }),
    {
        let mut result = self;
        result.limits = limits;
        result
    }
}

/// A model that a provider offers.
#[derive(Clone, Debug, PartialEq, Eq)]
#[non_exhaustive]
pub struct ModelInfo {
    /// Model identifier.
    pub id: String,
    /// What the model can do.
    pub capabilities: ModelCapabilities,
}

impl ModelInfo {
    /// Creates a model without capabilities.
    pub fn new(id: &str) -> (result: ModelInfo)
        ensures
            result.id@ == id@,
            result.capabilities == (ModelCapabilities {
                supports_tools: false,
                supports_streaming: false,
                supports_structured_output: false,
                supports_strict_tool_schemas: false,
                supports_streaming_tool_arguments: false,
                supports_parallel_tool_calls: false,
                supports_structured_plans: false,
                supports_programmatic_calling: false,
                programmatic_conformance: None,
                limits: no_provider_limits(),
            }),
    {
        ModelInfo { id: id.to_owned(), capabilities: ModelCapabilities::default() }
    }

    /// Sets what the model can do.
    pub fn with_capabilities(self, capabilities: ModelCapabilities) -> (result: ModelInfo)
        ensures
            result == (ModelInfo { capabilities, ..self }),
    {
        let mut result = self;
        result.capabilities = capabilities;
        result
    }
}

/// Whether a provider can be reached.
#[derive(Clone, Debug, PartialEq, Eq)]
#[non_exhaustive]
pub struct ProviderHealth {
    /// Whether the provider answers.
    pub healthy: bool,
    /// What it says of itself.
    pub detail: Option<String>,
}

impl ProviderHealth {
    /// Creates a health report.
    pub fn new(healthy: bool, detail: Option<String>) -> (result: ProviderHealth)
        ensures
            result == (ProviderHealth { healthy, detail }),
    {
        ProviderHealth { healthy, detail }
    }

    /// A provider that answers.
    pub fn healthy() -> (result: ProviderHealth)
        ensures
            result == (ProviderHealth { healthy: true, detail: None }),
    {
        ProviderHealth { healthy: true, detail: None }
    }

    /// A provider that does not.
    pub fn unhealthy(detail: &str) -> (result: ProviderHealth)
        ensures
            !result.healthy,
            text_option(result.detail) == Some(detail@),
    {
        ProviderHealth { healthy: false, detail: Some(detail.to_owned()) }
    }
}

/// What a provider answers that cannot stream.
pub fn streaming_unsupported(provider_id: &str) -> (result: HarnessError)
    ensures
        result@ == HarnessError::UnsupportedCapability(
            "provider "@ + provider_id@ + " does not support streaming"@,
        ),
{
    HarnessError::UnsupportedCapability(
        join3("provider ", provider_id, " does not support streaming"),
    )
}

} // verus!
