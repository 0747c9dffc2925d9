//! The tools that a host registered, and the part of them that one caller sees.

use crate::discovery::ToolDiscoveryMetadata;
use crate::error::HarnessError;
use crate::json::{Json, JsonTree};
use crate::schema::{instance_fault, validate_instance};
use crate::limits::check_view;
use crate::text::{contains_text, same_text, texts};
use crate::tool::{ToolCaller, ToolDefinition};
use vstd::prelude::*;

verus! {

/// One registered tool.
#[derive(Clone, Debug, PartialEq, Eq)]
pub struct RegisteredTool {
    /// What the tool is.
    pub definition: ToolDefinition,
    /// What discovery may know of it.
    pub metadata: ToolDiscoveryMetadata,
    /// Bytes of the serialized definition.
    pub serialized_bytes: u64,
    /// Number of the registration: two registrations never share one.
    pub serial: u64,
}

/// The first tool registered as `id`, from position `start` on.
pub open spec fn position_from(tools: Seq<RegisteredTool>, id: Seq<char>, start: nat) -> Option<nat>
    decreases tools.len() - start,
{
    if start >= tools.len() {
        None
    } else if tools[start as int].definition.id@ == id {
        Some(start)
    } else {
        position_from(tools, id, start + 1)
    }
}

/// The tool registered as `id`.
pub open spec fn registered(tools: Seq<RegisteredTool>, id: Seq<char>) -> Option<RegisteredTool> {
    match position_from(tools, id, 0) {
        Some(position) => Some(tools[position as int]),
        None => None,
    }
}

/// Why arguments do not conform to the schema of the tool registered as `id`.
pub open spec fn arguments_fault(
    tools: Seq<RegisteredTool>,
    id: Seq<char>,
    arguments: JsonTree,
) -> Option<HarnessError<Seq<char>>> {
    match registered(tools, id) {
        Some(tool) => match instance_fault(tool.definition.arguments_schema@, arguments) {
            Some(message) => Some(HarnessError::InvalidArguments(message)),
            None => None,
        },
        None => Some(HarnessError::InvalidTool("unknown tool"@)),
    }
}

/// Why an output does not conform to the output schema of the tool registered as `id`.
pub open spec fn output_fault(tools: Seq<RegisteredTool>, id: Seq<char>, output: JsonTree) -> Option<
    HarnessError<Seq<char>>,
> {
    match registered(tools, id) {
        Some(tool) => match tool.definition.output_schema {
            Some(schema) => match instance_fault(schema@, output) {
                Some(message) => Some(HarnessError::InvalidOutput(message)),
                None => None,
            },
            None => None,
        },
        None => Some(HarnessError::InvalidTool("unknown tool"@)),
    }
}

/// A check that fails with an error.
pub open spec fn fault_check(fault: Option<HarnessError<Seq<char>>>) -> Result<
    (),
    HarnessError<Seq<char>>,
> {
    match fault {
        Some(error) => Err(error),
        None => Ok(()),
    }
}

/// Looks up the tool registered as `id`.
pub fn find_tool<'a>(tools: &'a Vec<RegisteredTool>, id: &str) -> (result: Option<&'a RegisteredTool>)
    ensures
        match result {
            Some(tool) => registered(tools@, id@) == Some(*tool),
            None => registered(tools@, id@) is None,
        },
{
    let mut i: usize = 0;
    while i < tools.len()
        invariant
            i <= tools@.len(),
            position_from(tools@, id@, 0) == position_from(tools@, id@, i as nat),
        decreases tools@.len() - i,
    {
        if same_text(tools[i].definition.id.as_str(), id) {
            return Some(&tools[i]);
        }
        i += 1;
    }
    None
}

/// Checks arguments against the schema of the tool registered as `id`.
pub fn validate_arguments(tools: &Vec<RegisteredTool>, id: &str, arguments: &Json) -> (result:
    Result<(), HarnessError>)
    ensures
        check_view(result) == fault_check(arguments_fault(tools@, id@, arguments@)),
{
    match find_tool(tools, id) {
        Some(tool) => match validate_instance(&tool.definition.arguments_schema, arguments) {
            Some(message) => Err(HarnessError::InvalidArguments(message)),
            None => Ok(()),
        },
        None => Err(HarnessError::InvalidTool("unknown tool".to_owned())),
    }
}

/// Checks an output against the output schema of the tool registered as `id`.
pub fn validate_output(tools: &Vec<RegisteredTool>, id: &str, output: &Json) -> (result: Result<
    (),
    HarnessError,
>)
    ensures
        check_view(result) == fault_check(output_fault(tools@, id@, output@)),
{
    match find_tool(tools, id) {
        Some(tool) => match &tool.definition.output_schema {
            Some(schema) => match validate_instance(schema, output) {
                Some(message) => Err(HarnessError::InvalidOutput(message)),
                None => Ok(()),
            },
            None => Ok(()),
        },
        None => Err(HarnessError::InvalidTool("unknown tool".to_owned())),
    }
}

/// The tools selected for one caller and one run.
#[derive(Clone, Debug, PartialEq, Eq)]
pub struct ToolScope {
    /// The caller.
    pub caller: ToolCaller,
    /// Identifiers of the selected tools, in catalog order.
    pub tool_ids: Vec<String>,
}

impl ToolScope {
    /// Whether `caller` may use the tool `tool_id` through this scope.
    pub open spec fn admits(&self, tool_id: Seq<char>, caller: ToolCaller) -> bool {
        texts(self.tool_ids@).contains(tool_id) && self.caller == caller
    }

    /// A scope without tools.
    pub fn empty(caller: ToolCaller) -> (result: ToolScope)
        ensures
            result.caller == caller,
            result.tool_ids@ == Seq::<String>::empty(),
    {
        ToolScope { caller, tool_ids: Vec::new() }
    }

    /// Whether the scope holds `tool_id`.
    pub fn contains(&self, tool_id: &str) -> (result: bool)
        ensures
            result == texts(self.tool_ids@).contains(tool_id@),
    {
        contains_text(&self.tool_ids, tool_id)
    }

    /// Whether `caller` may use the tool `tool_id` through this scope.
    pub fn allows(&self, tool_id: &str, caller: ToolCaller) -> (result: bool)
        ensures
            result == self.admits(tool_id@, caller),
    {
        self.contains(tool_id) && self.caller == caller
    }

    /// Whether the scope holds no tool.
    pub fn is_empty(&self) -> (result: bool)
        ensures
            result == (self.tool_ids@.len() == 0),
    {
        self.tool_ids.len() == 0
    }
}

} // verus!
