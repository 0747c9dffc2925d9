//! A scripted provider.

use crate::error::HarnessError;
use crate::model::{
    no_provider_limits, ModelCapabilities, ModelInfo, ModelResponse, ResponseModel, Usage,
};
use crate::prepared::ModelRequest;
use crate::tool::{calls_view, ToolCall};
use vstd::prelude::*;

verus! {

/// One scripted response or failure for the mock provider.
#[non_exhaustive]
pub enum MockStep {
    /// Return a model response.
    Response(ModelResponse),
    /// Return a harness error.
    Error(HarnessError),
}

/// A scripted successful final response from the mock model.
pub fn final_response(output: &str) -> (result: MockStep)
    ensures
        result matches MockStep::Response(response) && response@ == (ResponseModel {
            model: "mock-model"@,
            final_output: Some(output@),
            tool_calls: Seq::empty(),
            usage: Usage { input_tokens: 0, output_tokens: 0 },
        }),
{
    let response = ModelResponse {
        model: "mock-model".to_owned(),
        final_output: Some(output.to_owned()),
        tool_calls: Vec::new(),
        usage: Usage::default(),
    };
    assert(calls_view(response.tool_calls@) =~= Seq::empty());
    MockStep::Response(response)
}

/// A scripted response containing a tool call.
pub fn tool_response(call: ToolCall) -> (result: MockStep)
    ensures
        result matches MockStep::Response(response) && response@ == (ResponseModel {
            model: "mock-model"@,
            final_output: None,
            tool_calls: seq![call@],
            usage: Usage { input_tokens: 0, output_tokens: 0 },
        }),
{
    let mut tool_calls: Vec<ToolCall> = Vec::new();
    tool_calls.push(call);
    assert(calls_view(tool_calls@) =~= seq![call@]);
    MockStep::Response(
        ModelResponse {
            model: "mock-model".to_owned(),
            final_output: None,
            tool_calls,
            usage: Usage::default(),
        },
    )
}

/// A scripted provider failure.
pub fn error_response(error: HarnessError) -> (result: MockStep)
    ensures
        result == MockStep::Error(error),
{
    MockStep::Error(error)
}

/// Deterministic model provider backed by a scripted queue.
pub struct MockModelProvider {
    capabilities: ModelCapabilities,
    steps: Vec<MockStep>,
    requests: Vec<ModelRequest>,
}

/// The model of a scripted provider.
pub struct MockModel {
    /// What the provider advertises.
    pub capabilities: ModelCapabilities,
    /// The steps that are left.
    pub steps: Seq<MockStep>,
    /// The requests received so far.
    pub requests: Seq<ModelRequest>,
}

impl View for MockModelProvider {
    type V = MockModel;

    closed spec fn view(&self) -> MockModel {
        MockModel {
            capabilities: self.capabilities,
            steps: self.steps@,
            requests: self.requests@,
        }
    }
}

impl MockModelProvider {
    /// A provider that consumes these steps in order.
    pub fn scripted(steps: Vec<MockStep>) -> (result: MockModelProvider)
        ensures
            result@ == (MockModel {
                capabilities: ModelCapabilities {
                    supports_tools: true,
                    supports_streaming: false,
                    supports_structured_output: true,
                    supports_strict_tool_schemas: false,
                    supports_streaming_tool_arguments: false,
                    supports_parallel_tool_calls: false,
                    supports_structured_plans: false,
                    supports_programmatic_calling: false,
                    programmatic_conformance: None,
                    limits: no_provider_limits(),
                },
                steps: steps@,
                requests: Seq::empty(),
            }),
    {
        let capabilities = ModelCapabilities::new(true, false, true);
        MockModelProvider { capabilities, steps, requests: Vec::new() }
    }

    /// Replaces what the provider advertises.
    pub fn with_capabilities(self, capabilities: ModelCapabilities) -> (result: MockModelProvider)
        ensures
            result@ == (MockModel { capabilities, ..self@ }),
    {
        MockModelProvider { capabilities, steps: self.steps, requests: self.requests }
    }

    /// Identifier of the provider.
    pub fn id(&self) -> (result: &'static str)
        ensures
            result@ == "mock"@,
    {
        "mock"
    }

    /// What the provider advertises.
    pub fn capabilities(&self) -> (result: ModelCapabilities)
        ensures
            result == self@.capabilities,
    {
        self.capabilities
    }

    /// The requests received so far.
    pub fn requests(&self) -> (result: &Vec<ModelRequest>)
        ensures
            result@ == self@.requests,
    {
        &self.requests
    }

    /// The only model of the provider.
    pub fn list_models(&self) -> (result: Vec<ModelInfo>)
        ensures
            result@.len() == 1,
            result@[0].id@ == "mock-model"@,
            result@[0].capabilities == self@.capabilities,
    {
        let mut models: Vec<ModelInfo> = Vec::new();
        models.push(ModelInfo { id: "mock-model".to_owned(), capabilities: self.capabilities });
        models
    }

    /// Answers a request with the next step. A cancelled request is not recorded.
    pub fn complete(&mut self, request: ModelRequest, cancelled: bool) -> (result: Result<
        ModelResponse,
        HarnessError,
    >)
        ensures
            if cancelled {
                final(self)@ == old(self)@ && result == Err::<ModelResponse, HarnessError>(
                    HarnessError::Cancelled,
                )
            } else {
                &&& final(self)@.capabilities == old(self)@.capabilities
                &&& final(self)@.requests == old(self)@.requests.push(request)
                &&& if old(self)@.steps.len() == 0 {
                    final(self)@.steps == old(self)@.steps && (result matches Err(error) && error@
                        == HarnessError::Provider("mock script exhausted"@))
                } else {
                    &&& final(self)@.steps == old(self)@.steps.drop_first()
                    &&& match old(self)@.steps[0] {
                        MockStep::Response(response) => result == Ok::<_, HarnessError>(response),
                        MockStep::Error(error) => result == Err::<ModelResponse, _>(error),
                    }
                }
            },
    {
        if cancelled {
            return Err(HarnessError::Cancelled);
        }
        self.requests.push(request);
        if self.steps.len() == 0 {
            return Err(HarnessError::Provider("mock script exhausted".to_owned()));
        }
        let ghost before = self.steps@;
        let step = self.steps.remove(0);
        assert(self.steps@ =~= before.drop_first());
        match step {
            MockStep::Response(response) => Ok(response),
            MockStep::Error(error) => Err(error),
        }
    }
}

} // verus!
