//! The schema of the programs that a model may write.

use crate::json::{view_of_array, view_of_object, Json, JsonTree};
use crate::text::{decimal, decimal_digits, join2};
use vstd::prelude::*;

verus! {

/// Limits of a sandbox that runs programs.
#[derive(Clone, Copy, Debug, PartialEq, Eq, Structural)]
pub struct SandboxLimits {
    /// Bytes of one program.
    pub max_program_bytes: usize,
    /// Nodes of one program.
    pub max_ast_nodes: usize,
    /// Iterations of one loop.
    pub max_loop_iterations: usize,
    /// Items of one collection.
    pub max_collection_items: usize,
    /// Calls of one fan-out.
    pub max_fanout: usize,
    /// Bytes of what a program returns.
    pub max_output_bytes: usize,
    /// Fuel of one scheduling slice.
    pub max_slice_fuel: u64,
}

/// The views of members.
pub open spec fn member_views(members: Seq<(String, Json)>) -> Seq<(Seq<char>, JsonTree)> {
    members.map_values(|member: (String, Json)| (member.0@, member.1@))
}

/// The views of items.
pub open spec fn item_views(items: Seq<Json>) -> Seq<JsonTree> {
    items.map_values(|item: Json| item@)
}

/// Texts as JSON.
pub open spec fn name_trees(names: Seq<&str>) -> Seq<JsonTree> {
    names.map_values(|name: &str| JsonTree::Text(name@))
}

fn object(members: Vec<(String, Json)>) -> (result: Json)
    ensures
        result@ == JsonTree::Object(member_views(members@)),
{
    let result = Json::Object(members);
    proof {
        view_of_object(result);
        assert(result@->Object_0 =~= member_views(members@));
    }
    result
}

fn array(items: Vec<Json>) -> (result: Json)
    ensures
        result@ == JsonTree::Array(item_views(items@)),
{
    let result = Json::Array(items);
    proof {
        view_of_array(result);
        assert(result@->Array_0 =~= item_views(items@));
    }
    result
}

fn names(list: Vec<&str>) -> (result: Json)
    ensures
        result@ == JsonTree::Array(name_trees(list@)),
{
    let mut items: Vec<Json> = Vec::new();
    let mut i: usize = 0;
    while i < list.len()
        invariant
            i <= list@.len(),
            items@.len() == i,
            forall|j: int| 0 <= j < i ==> (#[trigger] items@[j])@ == JsonTree::Text(list@[j]@),
        decreases list@.len() - i,
    {
        items.push(Json::Text(list[i].to_owned()));
        i += 1;
    }
    assert(item_views(items@) =~= name_trees(list@));
    array(items)
}

fn text(value: &str) -> (result: Json)
    ensures
        result@ == JsonTree::Text(value@),
{
    Json::Text(value.to_owned())
}

fn member(name: &str, value: Json) -> (result: (String, Json))
    ensures
        result.0@ == name@,
        result.1 == value,
{
    (name.to_owned(), value)
}

/// A number.
pub open spec fn number_tree(value: usize) -> JsonTree {
    JsonTree::Number(decimal_digits(value as nat))
}

fn number(value: usize) -> (result: Json)
    ensures
        result@ == number_tree(value),
{
    Json::Number(decimal(value as u64))
}

/// A reference to a definition of the schema.
pub open spec fn reference_tree(name: Seq<char>) -> JsonTree {
    JsonTree::Object(seq![("$ref"@, JsonTree::Text("#/$defs/"@ + name))])
}

fn reference(name: &str) -> (result: Json)
    ensures
        result@ == reference_tree(name@),
{
    let result = object(vec![member("$ref", Json::Text(join2("#/$defs/", name)))]);
    assert(result@->Object_0 =~= reference_tree(name@)->Object_0);
    result
}

/// A value that is this text.
pub open spec fn constant_tree(value: Seq<char>) -> JsonTree {
    JsonTree::Object(seq![("const"@, JsonTree::Text(value))])
}

fn constant(value: &str) -> (result: Json)
    ensures
        result@ == constant_tree(value@),
{
    let result = object(vec![member("const", text(value))]);
    assert(result@->Object_0 =~= constant_tree(value@)->Object_0);
    result
}

/// A value of this type.
pub open spec fn type_tree(name: Seq<char>) -> JsonTree {
    JsonTree::Object(seq![("type"@, JsonTree::Text(name))])
}

fn of_type(name: &str) -> (result: Json)
    ensures
        result@ == type_tree(name@),
{
    let result = object(vec![member("type", text(name))]);
    assert(result@->Object_0 =~= type_tree(name@)->Object_0);
    result
}

/// A text that is not empty.
pub open spec fn identifier_tree() -> JsonTree {
    JsonTree::Object(
        seq![("type"@, JsonTree::Text("string"@)), ("minLength"@, number_tree(1))],
    )
}

fn identifier() -> (result: Json)
    ensures
        result@ == identifier_tree(),
{
    let result = object(vec![member("type", text("string")), member("minLength", number(1))]);
    assert(result@->Object_0 =~= identifier_tree()->Object_0);
    result
}

/// A count from one to a limit.
pub open spec fn count_tree(limit: usize) -> JsonTree {
    JsonTree::Object(
        seq![
            ("type"@, JsonTree::Text("integer"@)),
            ("minimum"@, number_tree(1)),
            ("maximum"@, number_tree(limit)),
        ],
    )
}

fn count(limit: usize) -> (result: Json)
    ensures
        result@ == count_tree(limit),
{
    let result = object(
        vec![
            member("type", text("integer")),
            member("minimum", number(1)),
            member("maximum", number(limit)),
        ],
    );
    assert(result@->Object_0 =~= count_tree(limit)->Object_0);
    result
}

/// A list of at most this many items of a definition.
pub open spec fn list_tree(limit: usize, items: Seq<char>) -> JsonTree {
    JsonTree::Object(
        seq![
            ("type"@, JsonTree::Text("array"@)),
            ("maxItems"@, number_tree(limit)),
            ("items"@, reference_tree(items)),
        ],
    )
}

fn list(limit: usize, items: &str) -> (result: Json)
    ensures
        result@ == list_tree(limit, items@),
{
    let result = object(
        vec![
            member("type", text("array")),
            member("maxItems", number(limit)),
            member("items", reference(items)),
        ],
    );
    assert(result@->Object_0 =~= list_tree(limit, items@)->Object_0);
    result
}

/// One of these texts.
pub open spec fn choice_tree(values: Seq<&str>) -> JsonTree {
    JsonTree::Object(seq![("enum"@, JsonTree::Array(name_trees(values)))])
}

fn choice(values: Vec<&str>) -> (result: Json)
    ensures
        result@ == choice_tree(values@),
{
    let result = object(vec![member("enum", names(values))]);
    assert(result@->Object_0 =~= choice_tree(values@)->Object_0);
    result
}

/// An object with these properties and no others, of which these are required.
pub open spec fn record_tree(
    required: Seq<&str>,
    properties: Seq<(Seq<char>, JsonTree)>,
) -> JsonTree {
    JsonTree::Object(
        seq![
            ("type"@, JsonTree::Text("object"@)),
            ("required"@, JsonTree::Array(name_trees(required))),
            ("properties"@, JsonTree::Object(properties)),
            ("additionalProperties"@, JsonTree::Bool(false)),
        ],
    )
}

fn record(required: Vec<&str>, properties: Vec<(String, Json)>) -> (result: Json)
    ensures
        result@ == record_tree(required@, member_views(properties@)),
{
    let ghost fields = member_views(properties@);
    let result = object(
        vec![
            member("type", text("object")),
            member("required", names(required)),
            member("properties", object(properties)),
            member("additionalProperties", Json::Bool(false)),
        ],
    );
    assert(result@->Object_0 =~= record_tree(required@, fields)->Object_0);
    result
}

/// A statement that names a value.
pub open spec fn let_statement_tree() -> JsonTree {
    record_tree(
        seq!["kind", "name", "value"],
        seq![
            ("kind"@, constant_tree("let"@)),
            ("name"@, identifier_tree()),
            ("value"@, reference_tree("expression"@)),
        ],
    )
}

fn let_statement() -> (result: Json)
    ensures
        result@ == let_statement_tree(),
{
    let properties = vec![
        member("kind", constant("let")),
        member("name", identifier()),
        member("value", reference("expression")),
    ];
    assert(member_views(properties@) =~= seq![
            ("kind"@, constant_tree("let"@)),
            ("name"@, identifier_tree()),
            ("value"@, reference_tree("expression"@)),
    ]);
    let required: Vec<&str> = vec!["kind", "name", "value"];
    assert(required@ =~= seq!["kind", "name", "value"]);
    record(required, properties)
}

/// A statement that chooses between two bodies.
pub open spec fn branch_statement_tree() -> JsonTree {
    record_tree(
        seq!["kind", "condition", "then_body"],
        seq![
            ("kind"@, constant_tree("branch"@)),
            ("condition"@, reference_tree("expression"@)),
            ("then_body"@, reference_tree("body"@)),
            ("else_body"@, reference_tree("body"@)),
        ],
    )
}

fn branch_statement() -> (result: Json)
    ensures
        result@ == branch_statement_tree(),
{
    let properties = vec![
        member("kind", constant("branch")),
        member("condition", reference("expression")),
        member("then_body", reference("body")),
        member("else_body", reference("body")),
    ];
    assert(member_views(properties@) =~= seq![
            ("kind"@, constant_tree("branch"@)),
            ("condition"@, reference_tree("expression"@)),
            ("then_body"@, reference_tree("body"@)),
            ("else_body"@, reference_tree("body"@)),
    ]);
    let required: Vec<&str> = vec!["kind", "condition", "then_body"];
    assert(required@ =~= seq!["kind", "condition", "then_body"]);
    record(required, properties)
}

/// A bounded loop.
pub open spec fn for_each_statement_tree(limits: SandboxLimits) -> JsonTree {
    record_tree(
        seq!["kind", "item", "collection", "max_iterations", "body"],
        seq![
            ("kind"@, constant_tree("for_each"@)),
            ("item"@, identifier_tree()),
            ("collection"@, reference_tree("expression"@)),
            ("max_iterations"@, count_tree(limits.max_loop_iterations)),
            ("body"@, reference_tree("body"@)),
        ],
    )
}

fn for_each_statement(limits: &SandboxLimits) -> (result: Json)
    ensures
        result@ == for_each_statement_tree(*limits),
{
    let properties = vec![
        member("kind", constant("for_each")),
        member("item", identifier()),
        member("collection", reference("expression")),
        member("max_iterations", count(limits.max_loop_iterations)),
        member("body", reference("body")),
    ];
    assert(member_views(properties@) =~= seq![
            ("kind"@, constant_tree("for_each"@)),
            ("item"@, identifier_tree()),
            ("collection"@, reference_tree("expression"@)),
            ("max_iterations"@, count_tree(limits.max_loop_iterations)),
            ("body"@, reference_tree("body"@)),
    ]);
    let required: Vec<&str> = vec!["kind", "item", "collection", "max_iterations", "body"];
    assert(required@ =~= seq!["kind", "item", "collection", "max_iterations", "body"]);
    record(required, properties)
}

/// A statement that maps a collection.
pub open spec fn map_statement_tree(limits: SandboxLimits) -> JsonTree {
    record_tree(
        seq!["kind", "name", "item", "collection", "max_items", "value"],
        seq![
            ("kind"@, constant_tree("map"@)),
            ("name"@, identifier_tree()),
            ("item"@, identifier_tree()),
            ("collection"@, reference_tree("expression"@)),
            ("max_items"@, count_tree(limits.max_collection_items)),
            ("value"@, reference_tree("expression"@)),
        ],
    )
}

fn map_statement(limits: &SandboxLimits) -> (result: Json)
    ensures
        result@ == map_statement_tree(*limits),
{
    let properties = vec![
        member("kind", constant("map")),
        member("name", identifier()),
        member("item", identifier()),
        member("collection", reference("expression")),
        member("max_items", count(limits.max_collection_items)),
        member("value", reference("expression")),
    ];
    assert(member_views(properties@) =~= seq![
            ("kind"@, constant_tree("map"@)),
            ("name"@, identifier_tree()),
            ("item"@, identifier_tree()),
            ("collection"@, reference_tree("expression"@)),
            ("max_items"@, count_tree(limits.max_collection_items)),
            ("value"@, reference_tree("expression"@)),
    ]);
    let required: Vec<&str> = vec!["kind", "name", "item", "collection", "max_items", "value"];
    assert(required@ =~= seq!["kind", "name", "item", "collection", "max_items", "value"]);
    record(required, properties)
}

/// A statement that filters a collection.
pub open spec fn filter_statement_tree(limits: SandboxLimits) -> JsonTree {
    record_tree(
        seq!["kind", "name", "item", "collection", "max_items", "predicate"],
        seq![
            ("kind"@, constant_tree("filter"@)),
            ("name"@, identifier_tree()),
            ("item"@, identifier_tree()),
            ("collection"@, reference_tree("expression"@)),
            ("max_items"@, count_tree(limits.max_collection_items)),
            ("predicate"@, reference_tree("expression"@)),
        ],
    )
}

fn filter_statement(limits: &SandboxLimits) -> (result: Json)
    ensures
        result@ == filter_statement_tree(*limits),
{
    let properties = vec![
        member("kind", constant("filter")),
        member("name", identifier()),
        member("item", identifier()),
        member("collection", reference("expression")),
        member("max_items", count(limits.max_collection_items)),
        member("predicate", reference("expression")),
    ];
    assert(member_views(properties@) =~= seq![
            ("kind"@, constant_tree("filter"@)),
            ("name"@, identifier_tree()),
            ("item"@, identifier_tree()),
            ("collection"@, reference_tree("expression"@)),
            ("max_items"@, count_tree(limits.max_collection_items)),
            ("predicate"@, reference_tree("expression"@)),
    ]);
    let required: Vec<&str> = vec!["kind", "name", "item", "collection", "max_items", "predicate"];
    assert(required@ =~= seq!["kind", "name", "item", "collection", "max_items", "predicate"]);
    record(required, properties)
}

/// A statement that reduces a collection.
pub open spec fn reduce_statement_tree(limits: SandboxLimits) -> JsonTree {
    record_tree(
        seq!["kind", "name", "item", "accumulator", "collection", "max_items", "initial", "value"],
        seq![
            ("kind"@, constant_tree("reduce"@)),
            ("name"@, identifier_tree()),
            ("item"@, identifier_tree()),
            ("accumulator"@, identifier_tree()),
            ("collection"@, reference_tree("expression"@)),
            ("max_items"@, count_tree(limits.max_collection_items)),
            ("initial"@, reference_tree("expression"@)),
            ("value"@, reference_tree("expression"@)),
        ],
    )
}

fn reduce_statement(limits: &SandboxLimits) -> (result: Json)
    ensures
        result@ == reduce_statement_tree(*limits),
{
    let properties = vec![
        member("kind", constant("reduce")),
        member("name", identifier()),
        member("item", identifier()),
        member("accumulator", identifier()),
        member("collection", reference("expression")),
        member("max_items", count(limits.max_collection_items)),
        member("initial", reference("expression")),
        member("value", reference("expression")),
    ];
    assert(member_views(properties@) =~= seq![
            ("kind"@, constant_tree("reduce"@)),
            ("name"@, identifier_tree()),
            ("item"@, identifier_tree()),
            ("accumulator"@, identifier_tree()),
            ("collection"@, reference_tree("expression"@)),
            ("max_items"@, count_tree(limits.max_collection_items)),
            ("initial"@, reference_tree("expression"@)),
            ("value"@, reference_tree("expression"@)),
    ]);
    let required: Vec<&str> = vec!["kind", "name", "item", "accumulator", "collection", "max_items", "initial", "value"];
    assert(required@ =~= seq!["kind", "name", "item", "accumulator", "collection", "max_items", "initial", "value"]);
    record(required, properties)
}

/// A statement that calls a tool.
pub open spec fn invoke_statement_tree() -> JsonTree {
    record_tree(
        seq!["kind", "name", "tool_id", "arguments"],
        seq![
            ("kind"@, constant_tree("invoke"@)),
            ("name"@, identifier_tree()),
            ("tool_id"@, identifier_tree()),
            ("arguments"@, reference_tree("expression"@)),
        ],
    )
}

fn invoke_statement() -> (result: Json)
    ensures
        result@ == invoke_statement_tree(),
{
    let properties = vec![
        member("kind", constant("invoke")),
        member("name", identifier()),
        member("tool_id", identifier()),
        member("arguments", reference("expression")),
    ];
    assert(member_views(properties@) =~= seq![
            ("kind"@, constant_tree("invoke"@)),
            ("name"@, identifier_tree()),
            ("tool_id"@, identifier_tree()),
            ("arguments"@, reference_tree("expression"@)),
    ]);
    let required: Vec<&str> = vec!["kind", "name", "tool_id", "arguments"];
    assert(required@ =~= seq!["kind", "name", "tool_id", "arguments"]);
    record(required, properties)
}

/// A statement that calls a tool for every item of a collection.
pub open spec fn fan_out_statement_tree(limits: SandboxLimits) -> JsonTree {
    record_tree(
        seq!["kind", "name", "tool_id", "item", "collection", "max_calls", "arguments"],
        seq![
            ("kind"@, constant_tree("fan_out"@)),
            ("name"@, identifier_tree()),
            ("tool_id"@, identifier_tree()),
            ("item"@, identifier_tree()),
            ("collection"@, reference_tree("expression"@)),
            ("max_calls"@, count_tree(limits.max_fanout)),
            ("arguments"@, reference_tree("expression"@)),
        ],
    )
}

fn fan_out_statement(limits: &SandboxLimits) -> (result: Json)
    ensures
        result@ == fan_out_statement_tree(*limits),
{
    let properties = vec![
        member("kind", constant("fan_out")),
        member("name", identifier()),
        member("tool_id", identifier()),
        member("item", identifier()),
        member("collection", reference("expression")),
        member("max_calls", count(limits.max_fanout)),
        member("arguments", reference("expression")),
    ];
    assert(member_views(properties@) =~= seq![
            ("kind"@, constant_tree("fan_out"@)),
            ("name"@, identifier_tree()),
            ("tool_id"@, identifier_tree()),
            ("item"@, identifier_tree()),
            ("collection"@, reference_tree("expression"@)),
            ("max_calls"@, count_tree(limits.max_fanout)),
            ("arguments"@, reference_tree("expression"@)),
    ]);
    let required: Vec<&str> = vec!["kind", "name", "tool_id", "item", "collection", "max_calls", "arguments"];
    assert(required@ =~= seq!["kind", "name", "tool_id", "item", "collection", "max_calls", "arguments"]);
    record(required, properties)
}

/// A statement that ends the program.
pub open spec fn return_statement_tree() -> JsonTree {
    record_tree(
        seq!["kind", "value"],
        seq![
            ("kind"@, constant_tree("return"@)),
            ("value"@, reference_tree("expression"@)),
        ],
    )
}

fn return_statement() -> (result: Json)
    ensures
        result@ == return_statement_tree(),
{
    let properties = vec![
        member("kind", constant("return")),
        member("value", reference("expression")),
    ];
    assert(member_views(properties@) =~= seq![
            ("kind"@, constant_tree("return"@)),
            ("value"@, reference_tree("expression"@)),
    ]);
    let required: Vec<&str> = vec!["kind", "value"];
    assert(required@ =~= seq!["kind", "value"]);
    record(required, properties)
}

/// Nothing.
pub open spec fn null_expression_tree() -> JsonTree {
    record_tree(
        seq!["kind"],
        seq![
            ("kind"@, constant_tree("null"@)),
        ],
    )
}

fn null_expression() -> (result: Json)
    ensures
        result@ == null_expression_tree(),
{
    let properties = vec![
        member("kind", constant("null")),
    ];
    assert(member_views(properties@) =~= seq![
            ("kind"@, constant_tree("null"@)),
    ]);
    let required: Vec<&str> = vec!["kind"];
    assert(required@ =~= seq!["kind"]);
    record(required, properties)
}

/// A truth value.
pub open spec fn boolean_expression_tree() -> JsonTree {
    record_tree(
        seq!["kind", "value"],
        seq![
            ("kind"@, constant_tree("boolean"@)),
            ("value"@, type_tree("boolean"@)),
        ],
    )
}

fn boolean_expression() -> (result: Json)
    ensures
        result@ == boolean_expression_tree(),
{
    let properties = vec![
        member("kind", constant("boolean")),
        member("value", of_type("boolean")),
    ];
    assert(member_views(properties@) =~= seq![
            ("kind"@, constant_tree("boolean"@)),
            ("value"@, type_tree("boolean"@)),
    ]);
    let required: Vec<&str> = vec!["kind", "value"];
    assert(required@ =~= seq!["kind", "value"]);
    record(required, properties)
}

/// An integer.
pub open spec fn integer_expression_tree() -> JsonTree {
    record_tree(
        seq!["kind", "value"],
        seq![
            ("kind"@, constant_tree("integer"@)),
            ("value"@, type_tree("integer"@)),
        ],
    )
}

fn integer_expression() -> (result: Json)
    ensures
        result@ == integer_expression_tree(),
{
    let properties = vec![
        member("kind", constant("integer")),
        member("value", of_type("integer")),
    ];
    assert(member_views(properties@) =~= seq![
            ("kind"@, constant_tree("integer"@)),
            ("value"@, type_tree("integer"@)),
    ]);
    let required: Vec<&str> = vec!["kind", "value"];
    assert(required@ =~= seq!["kind", "value"]);
    record(required, properties)
}

/// A text.
pub open spec fn string_expression_tree() -> JsonTree {
    record_tree(
        seq!["kind", "value"],
        seq![
            ("kind"@, constant_tree("string"@)),
            ("value"@, type_tree("string"@)),
        ],
    )
}

fn string_expression() -> (result: Json)
    ensures
        result@ == string_expression_tree(),
{
    let properties = vec![
        member("kind", constant("string")),
        member("value", of_type("string")),
    ];
    assert(member_views(properties@) =~= seq![
            ("kind"@, constant_tree("string"@)),
            ("value"@, type_tree("string"@)),
    ]);
    let required: Vec<&str> = vec!["kind", "value"];
    assert(required@ =~= seq!["kind", "value"]);
    record(required, properties)
}

/// A named value.
pub open spec fn variable_expression_tree() -> JsonTree {
    record_tree(
        seq!["kind", "name"],
        seq![
            ("kind"@, constant_tree("variable"@)),
            ("name"@, identifier_tree()),
        ],
    )
}

fn variable_expression() -> (result: Json)
    ensures
        result@ == variable_expression_tree(),
{
    let properties = vec![
        member("kind", constant("variable")),
        member("name", identifier()),
    ];
    assert(member_views(properties@) =~= seq![
            ("kind"@, constant_tree("variable"@)),
            ("name"@, identifier_tree()),
    ]);
    let required: Vec<&str> = vec!["kind", "name"];
    assert(required@ =~= seq!["kind", "name"]);
    record(required, properties)
}

/// A place inside a value.
pub open spec fn path_expression_tree() -> JsonTree {
    record_tree(
        seq!["kind", "value", "pointer"],
        seq![
            ("kind"@, constant_tree("path"@)),
            ("value"@, reference_tree("expression"@)),
            ("pointer"@, type_tree("string"@)),
        ],
    )
}

fn path_expression() -> (result: Json)
    ensures
        result@ == path_expression_tree(),
{
    let properties = vec![
        member("kind", constant("path")),
        member("value", reference("expression")),
        member("pointer", of_type("string")),
    ];
    assert(member_views(properties@) =~= seq![
            ("kind"@, constant_tree("path"@)),
            ("value"@, reference_tree("expression"@)),
            ("pointer"@, type_tree("string"@)),
    ]);
    let required: Vec<&str> = vec!["kind", "value", "pointer"];
    assert(required@ =~= seq!["kind", "value", "pointer"]);
    record(required, properties)
}

/// A list of values.
pub open spec fn array_expression_tree(limits: SandboxLimits) -> JsonTree {
    record_tree(
        seq!["kind", "items"],
        seq![
            ("kind"@, constant_tree("array"@)),
            ("items"@, list_tree(limits.max_collection_items, "expression"@)),
        ],
    )
}

fn array_expression(limits: &SandboxLimits) -> (result: Json)
    ensures
        result@ == array_expression_tree(*limits),
{
    let properties = vec![
        member("kind", constant("array")),
        member("items", list(limits.max_collection_items, "expression")),
    ];
    assert(member_views(properties@) =~= seq![
            ("kind"@, constant_tree("array"@)),
            ("items"@, list_tree(limits.max_collection_items, "expression"@)),
    ]);
    let required: Vec<&str> = vec!["kind", "items"];
    assert(required@ =~= seq!["kind", "items"]);
    record(required, properties)
}

/// A list of named values.
pub open spec fn object_expression_tree(limits: SandboxLimits) -> JsonTree {
    record_tree(
        seq!["kind", "entries"],
        seq![
            ("kind"@, constant_tree("object"@)),
            ("entries"@, list_tree(limits.max_collection_items, "object_entry"@)),
        ],
    )
}

fn object_expression(limits: &SandboxLimits) -> (result: Json)
    ensures
        result@ == object_expression_tree(*limits),
{
    let properties = vec![
        member("kind", constant("object")),
        member("entries", list(limits.max_collection_items, "object_entry")),
    ];
    assert(member_views(properties@) =~= seq![
            ("kind"@, constant_tree("object"@)),
            ("entries"@, list_tree(limits.max_collection_items, "object_entry"@)),
    ]);
    let required: Vec<&str> = vec!["kind", "entries"];
    assert(required@ =~= seq!["kind", "entries"]);
    record(required, properties)
}

/// An operation on two values.
pub open spec fn binary_expression_tree() -> JsonTree {
    record_tree(
        seq!["kind", "operator", "left", "right"],
        seq![
            ("kind"@, constant_tree("binary"@)),
            ("operator"@, choice_tree(seq!["add", "subtract", "multiply", "divide", "remainder", "equal", "not_equal", "less_than", "less_than_or_equal", "greater_than", "greater_than_or_equal", "and", "or"])),
            ("left"@, reference_tree("expression"@)),
            ("right"@, reference_tree("expression"@)),
        ],
    )
}

fn binary_expression() -> (result: Json)
    ensures
        result@ == binary_expression_tree(),
{
    let operators: Vec<&str> = vec!["add", "subtract", "multiply", "divide", "remainder", "equal", "not_equal", "less_than", "less_than_or_equal", "greater_than", "greater_than_or_equal", "and", "or"];
    assert(operators@ =~= seq!["add", "subtract", "multiply", "divide", "remainder", "equal", "not_equal", "less_than", "less_than_or_equal", "greater_than", "greater_than_or_equal", "and", "or"]);
    let properties = vec![
        member("kind", constant("binary")),
        member("operator", choice(operators)),
        member("left", reference("expression")),
        member("right", reference("expression")),
    ];
    assert(member_views(properties@) =~= seq![
            ("kind"@, constant_tree("binary"@)),
            ("operator"@, choice_tree(seq!["add", "subtract", "multiply", "divide", "remainder", "equal", "not_equal", "less_than", "less_than_or_equal", "greater_than", "greater_than_or_equal", "and", "or"])),
            ("left"@, reference_tree("expression"@)),
            ("right"@, reference_tree("expression"@)),
    ]);
    let required: Vec<&str> = vec!["kind", "operator", "left", "right"];
    assert(required@ =~= seq!["kind", "operator", "left", "right"]);
    record(required, properties)
}

/// An operation on one value.
pub open spec fn unary_expression_tree() -> JsonTree {
    record_tree(
        seq!["kind", "operator", "value"],
        seq![
            ("kind"@, constant_tree("unary"@)),
            ("operator"@, choice_tree(seq!["not", "negate", "count", "sum", "all", "any"])),
            ("value"@, reference_tree("expression"@)),
        ],
    )
}

fn unary_expression() -> (result: Json)
    ensures
        result@ == unary_expression_tree(),
{
    let operators: Vec<&str> = vec!["not", "negate", "count", "sum", "all", "any"];
    assert(operators@ =~= seq!["not", "negate", "count", "sum", "all", "any"]);
    let properties = vec![
        member("kind", constant("unary")),
        member("operator", choice(operators)),
        member("value", reference("expression")),
    ];
    assert(member_views(properties@) =~= seq![
            ("kind"@, constant_tree("unary"@)),
            ("operator"@, choice_tree(seq!["not", "negate", "count", "sum", "all", "any"])),
            ("value"@, reference_tree("expression"@)),
    ]);
    let required: Vec<&str> = vec!["kind", "operator", "value"];
    assert(required@ =~= seq!["kind", "operator", "value"]);
    record(required, properties)
}

/// A named value.
pub open spec fn object_entry_schema_tree() -> JsonTree {
    record_tree(
        seq!["key", "value"],
        seq![
            ("key"@, type_tree("string"@)),
            ("value"@, reference_tree("expression"@)),
        ],
    )
}

fn object_entry_schema() -> (result: Json)
    ensures
        result@ == object_entry_schema_tree(),
{
    let properties = vec![
        member("key", of_type("string")),
        member("value", reference("expression")),
    ];
    assert(member_views(properties@) =~= seq![
            ("key"@, type_tree("string"@)),
            ("value"@, reference_tree("expression"@)),
    ]);
    let required: Vec<&str> = vec!["key", "value"];
    assert(required@ =~= seq!["key", "value"]);
    record(required, properties)
}

/// The schemas of statements.
pub open spec fn statement_trees(limits: SandboxLimits) -> Seq<JsonTree> {
    seq![
        let_statement_tree(),
        branch_statement_tree(),
        for_each_statement_tree(limits),
        map_statement_tree(limits),
        filter_statement_tree(limits),
        reduce_statement_tree(limits),
        invoke_statement_tree(),
        fan_out_statement_tree(limits),
        return_statement_tree(),
    ]
}

fn statements(limits: &SandboxLimits) -> (result: Json)
    ensures
        result@ == JsonTree::Object(seq![("oneOf"@, JsonTree::Array(statement_trees(*limits)))]),
{
    let items = vec![
        let_statement(),
        branch_statement(),
        for_each_statement(limits),
        map_statement(limits),
        filter_statement(limits),
        reduce_statement(limits),
        invoke_statement(),
        fan_out_statement(limits),
        return_statement(),
    ];
    assert(item_views(items@) =~= statement_trees(*limits));
    let result = object(vec![member("oneOf", array(items))]);
    assert(result@->Object_0 =~= seq![("oneOf"@, JsonTree::Array(statement_trees(*limits)))]);
    result
}

/// The schemas of expressions.
pub open spec fn expression_trees(limits: SandboxLimits) -> Seq<JsonTree> {
    seq![
        null_expression_tree(),
        boolean_expression_tree(),
        integer_expression_tree(),
        string_expression_tree(),
        variable_expression_tree(),
        path_expression_tree(),
        array_expression_tree(limits),
        object_expression_tree(limits),
        binary_expression_tree(),
        unary_expression_tree(),
    ]
}

fn expressions(limits: &SandboxLimits) -> (result: Json)
    ensures
        result@ == JsonTree::Object(seq![("oneOf"@, JsonTree::Array(expression_trees(*limits)))]),
{
    let items = vec![
        null_expression(),
        boolean_expression(),
        integer_expression(),
        string_expression(),
        variable_expression(),
        path_expression(),
        array_expression(limits),
        object_expression(limits),
        binary_expression(),
        unary_expression(),
    ];
    assert(item_views(items@) =~= expression_trees(*limits));
    let result = object(vec![member("oneOf", array(items))]);
    assert(result@->Object_0 =~= seq![("oneOf"@, JsonTree::Array(expression_trees(*limits)))]);
    result
}

/// A program: its version and its body.
pub open spec fn version_tree() -> JsonTree {
    JsonTree::Object(seq![("const"@, number_tree(1))])
}

/// The schema of programs under these limits.
pub open spec fn program_tree(limits: SandboxLimits) -> JsonTree {
    JsonTree::Object(
        seq![
            ("$schema"@, JsonTree::Text("https://json-schema.org/draft/2020-12/schema"@)),
            ("type"@, JsonTree::Text("object"@)),
            ("required"@, JsonTree::Array(name_trees(seq!["version", "body"]))),
            (
                "properties"@,
                JsonTree::Object(
                    seq![("version"@, version_tree()), ("body"@, reference_tree("body"@))],
                ),
            ),
            ("additionalProperties"@, JsonTree::Bool(false)),
            (
                "$defs"@,
                JsonTree::Object(
                    seq![
                        ("body"@, list_tree(limits.max_ast_nodes, "statement"@)),
                        (
                            "statement"@,
                            JsonTree::Object(
                                seq![("oneOf"@, JsonTree::Array(statement_trees(limits)))],
                            ),
                        ),
                        (
                            "expression"@,
                            JsonTree::Object(
                                seq![("oneOf"@, JsonTree::Array(expression_trees(limits)))],
                            ),
                        ),
                        ("object_entry"@, object_entry_schema_tree()),
                    ],
                ),
            ),
        ],
    )
}

fn definitions(limits: &SandboxLimits) -> (result: Json)
    ensures
        result@ == program_tree(*limits)->Object_0[5].1,
{
    let result = object(
        vec![
            member("body", list(limits.max_ast_nodes, "statement")),
            member("statement", statements(limits)),
            member("expression", expressions(limits)),
            member("object_entry", object_entry_schema()),
        ],
    );
    assert(result@->Object_0 =~= program_tree(*limits)->Object_0[5].1->Object_0);
    result
}

fn program_properties() -> (result: Json)
    ensures
        result@ == JsonTree::Object(
            seq![("version"@, version_tree()), ("body"@, reference_tree("body"@))],
        ),
{
    let version = object(vec![member("const", number(1))]);
    assert(version@->Object_0 =~= version_tree()->Object_0);
    let ghost version_view = version@;
    let result = object(vec![member("version", version), member("body", reference("body"))]);
    assert(result@->Object_0 =~= seq![
        ("version"@, version_view),
        ("body"@, reference_tree("body"@)),
    ]);
    result
}

/// The schema of programs under these limits.
pub fn program_schema(limits: &SandboxLimits) -> (result: Json)
    ensures
        result@ == program_tree(*limits),
{
    let required: Vec<&str> = vec!["version", "body"];
    assert(required@ =~= seq!["version", "body"]);
    let result = object(
        vec![
            member("$schema", text("https://json-schema.org/draft/2020-12/schema")),
            member("type", text("object")),
            member("required", names(required)),
            member("properties", program_properties()),
            member("additionalProperties", Json::Bool(false)),
            member("$defs", definitions(limits)),
        ],
    );
    assert(result@->Object_0 =~= program_tree(*limits)->Object_0);
    result
}

} // verus!
