//! Requests to a model provider, and tools in the form a provider consumes.

use crate::json::{render_json, rendered_json, Json, JsonTree};
use crate::message::Message;
use crate::text::join3;
use crate::tool::ToolDefinition;
use vstd::prelude::*;

verus! {

/// The compact JSON text of a tool as providers take it.
pub open spec fn provider_tool_json(definition: ToolDefinition) -> Seq<char> {
    "{\"type\":\"function\",\"function\":{\"name\":"@ + rendered_json(
        JsonTree::Text(definition.id@),
    ) + ",\"description\":"@ + rendered_json(JsonTree::Text(definition.description@))
        + ",\"parameters\":"@ + rendered_json(definition.arguments_schema@) + "}}"@
}

/// The compact JSON texts of tools, with commas between them.
pub open spec fn provider_tools(definitions: Seq<ToolDefinition>) -> Seq<char>
    decreases definitions.len(),
{
    if definitions.len() == 0 {
        Seq::empty()
    } else if definitions.len() == 1 {
        provider_tool_json(definitions[0])
    } else {
        provider_tools(definitions.drop_last()) + ","@ + provider_tool_json(definitions.last())
    }
}

fn provider_tool_text(definition: &ToolDefinition) -> (result: String)
    ensures
        result@ == provider_tool_json(*definition),
{
    let name = render_json(&Json::Text(definition.id.clone()));
    let description = render_json(&Json::Text(definition.description.clone()));
    let parameters = render_json(&definition.arguments_schema);
    let text = join3(
        "{\"type\":\"function\",\"function\":{\"name\":",
        name.as_str(),
        ",\"description\":",
    );
    let text = join3(text.as_str(), description.as_str(), ",\"parameters\":");
    join3(text.as_str(), parameters.as_str(), "}}")
}

/// Immutable tool definitions and their exact provider-consumable JSON.
pub struct PreparedToolCatalog {
    definitions: Vec<ToolDefinition>,
    serialized_definitions: Vec<u8>,
    provider_tools: String,
}

impl PreparedToolCatalog {
    /// The definitions, in provider order.
    pub closed spec fn tools(self) -> Seq<ToolDefinition> {
        self.definitions@
    }

    /// The serialized definitions.
    pub closed spec fn serialized(self) -> Seq<u8> {
        self.serialized_definitions@
    }

    /// The provider's form.
    pub closed spec fn provider_text(self) -> Seq<char> {
        self.provider_tools@
    }

    /// Prepares an immutable catalog of definitions and their serialized form.
    pub fn from_definitions(definitions: Vec<ToolDefinition>, serialized_definitions: Vec<u8>) -> (result:
        PreparedToolCatalog)
        ensures
            result.tools() == definitions@,
            result.serialized() == serialized_definitions@,
            result.provider_text() == "["@ + provider_tools(definitions@) + "]"@,
    {
        let mut tools = String::new();
        let ghost all = definitions@;
        let mut i: usize = 0;
        assert(all.take(0) =~= Seq::empty());
        assert(tools@ =~= Seq::empty());
        while i < definitions.len()
            invariant
                i <= definitions@.len(),
                all == definitions@,
                tools@ == provider_tools(all.take(i as int)),
            decreases definitions@.len() - i,
        {
            let ghost longer = all.take(i + 1);
            assert(longer.drop_last() =~= all.take(i as int));
            assert(longer.last() == all[i as int]);
            let text = provider_tool_text(&definitions[i]);
            if i == 0 {
                tools = text;
            } else {
                tools = join3(tools.as_str(), ",", text.as_str());
            }
            i += 1;
        }
        assert(all.take(i as int) =~= all);
        PreparedToolCatalog {
            definitions,
            serialized_definitions,
            provider_tools: join3("[", tools.as_str(), "]"),
        }
    }

    /// Returns the selected definitions in provider order.
    pub fn definitions(&self) -> (result: &Vec<ToolDefinition>)
        ensures
            result@ == self.tools(),
    {
        &self.definitions
    }

    /// Returns the exact serialized definitions used for discovery budgets.
    pub fn serialized_definitions(&self) -> (result: &Vec<u8>)
        ensures
            result@ == self.serialized(),
    {
        &self.serialized_definitions
    }

    /// Returns exact JSON for a standard function-tool array.
    pub fn provider_tools_json(&self) -> (result: &str)
        ensures
            result@ == self.provider_text(),
    {
        self.provider_tools.as_str()
    }
}

/// Request sent from the runner to a model provider.
pub struct ModelRequest {
    /// Model identifier requested for completion.
    pub model: String,
    /// Transcript messages sent to the model.
    pub messages: Vec<Message>,
    /// Tools available to the model for this request.
    pub tools: Vec<ToolDefinition>,
    /// Immutable prepared form of `tools`, when the runner supplied it.
    pub prepared_tools: Option<PreparedToolCatalog>,
    /// Provider-specific request metadata.
    pub metadata: Json,
}

impl ModelRequest {
    /// A request without messages and tools.
    pub fn new(model: &str) -> (result: ModelRequest)
        ensures
            result.model@ == model@,
            result.messages@ == Seq::<Message>::empty(),
            result.tools@ == Seq::<ToolDefinition>::empty(),
            result.prepared_tools is None,
            result.metadata matches Json::Object(members) && members@ == Seq::<
                (String, Json),
            >::empty(),
    {
        ModelRequest {
            model: model.to_owned(),
            messages: Vec::new(),
            tools: Vec::new(),
            prepared_tools: None,
            metadata: Json::Object(Vec::new()),
        }
    }
}

} // verus!
