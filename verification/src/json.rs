//! JSON values as the library reads them.
//!
//! Text is parsed and rendered by `serde_json`. What the library decides on a value it decides on
//! `Json`.

use crate::text::{join2, same_text, text_option};
use vstd::prelude::*;
use vstd::string::*;

verus! {

/// `serde_json::Value`, carried between the functions that convert it.
#[verifier::external_type_specification]
#[verifier::external_body]
pub struct ExValue(serde_json::Value);

/// A JSON value. Numbers keep the text in which they are written; the members of an
/// object keep their order, and of those that share a name the last counts. A parsed value has
/// no such members, and its numbers are written as `serde_json` writes them.
#[derive(Debug, PartialEq, Eq)]
pub enum Json {
    /// `null`.
    Null,
    /// `true` or `false`.
    Bool(bool),
    /// A number, as its shortest text.
    Number(String),
    /// A string.
    Text(String),
    /// An array.
    Array(Vec<Json>),
    /// An object.
    Object(Vec<(String, Json)>),
}

/// The mathematical form of a JSON value.
pub enum JsonTree {
    /// `null`.
    Null,
    /// `true` or `false`.
    Bool(bool),
    /// A number, as its shortest text.
    Number(Seq<char>),
    /// A string.
    Text(Seq<char>),
    /// An array.
    Array(Seq<JsonTree>),
    /// An object.
    Object(Seq<(Seq<char>, JsonTree)>),
}

impl View for Json {
    type V = JsonTree;

    open spec fn view(&self) -> JsonTree
        decreases self,
    {
        match self {
            Json::Null => JsonTree::Null,
            Json::Bool(value) => JsonTree::Bool(*value),
            Json::Number(text) => JsonTree::Number(text@),
            Json::Text(text) => JsonTree::Text(text@),
            Json::Array(items) => JsonTree::Array(
                Seq::new(
                    items@.len(),
                    |i: int|
                        if 0 <= i < items.len() {
                            items[i]@
                        } else {
                            JsonTree::Null
                        },
                ),
            ),
            Json::Object(members) => JsonTree::Object(
                Seq::new(
                    members@.len(),
                    |i: int|
                        (
                            members[i].0@,
                            if 0 <= i < members.len() {
                                members[i].1@
                            } else {
                                JsonTree::Null
                            },
                        ),
                ),
            ),
        }
    }
}

/// How deeply arrays and objects are nested.
pub open spec fn depth(value: JsonTree) -> nat
    decreases value, 0nat,
{
    match value {
        JsonTree::Array(items) => 1 + items_depth(items, items.len()),
        JsonTree::Object(members) => 1 + members_depth(members, members.len()),
        _ => 0,
    }
}

/// The deepest of the first `count` items.
pub open spec fn items_depth(items: Seq<JsonTree>, count: nat) -> nat
    decreases items, count,
{
    if 0 < count <= items.len() {
        let rest = items_depth(items, (count - 1) as nat);
        let last = depth(items[count - 1]);
        if rest < last {
            last
        } else {
            rest
        }
    } else {
        0
    }
}

/// The deepest of the first `count` members.
pub open spec fn members_depth(members: Seq<(Seq<char>, JsonTree)>, count: nat) -> nat
    decreases members, count,
{
    if 0 < count <= members.len() {
        let rest = members_depth(members, (count - 1) as nat);
        let last = depth(members[count - 1].1);
        if rest < last {
            last
        } else {
            rest
        }
    } else {
        0
    }
}

/// What `serde_json` reads from a text: the value, or its error message.
pub uninterp spec fn parsed_json(text: Seq<char>) -> Result<JsonTree, Seq<char>>;

/// The compact text that `serde_json` writes for a value.
pub uninterp spec fn rendered_json(value: JsonTree) -> Seq<char>;

/// The model of a parse result.
pub open spec fn parse_view(result: Result<Json, String>) -> Result<JsonTree, Seq<char>> {
    match result {
        Ok(value) => Ok(value@),
        Err(message) => Err(message@),
    }
}

/// Converts a value of `serde_json` member by member.
#[verifier::external_body]
pub(crate) fn json_from_value(value: serde_json::Value) -> (result: Json) {
    match value {
        serde_json::Value::Null => Json::Null,
        serde_json::Value::Bool(value) => Json::Bool(value),
        serde_json::Value::Number(number) => Json::Number(number.to_string()),
        serde_json::Value::String(text) => Json::Text(text),
        serde_json::Value::Array(items) => Json::Array(
            items.into_iter().map(json_from_value).collect(),
        ),
        serde_json::Value::Object(members) => Json::Object(
            members.into_iter().map(|(key, value)| (key, json_from_value(value))).collect(),
        ),
    }
}

/// Converts a value to one of `serde_json` member by member. Of members that share a name a map of
/// `serde_json` keeps what is put in last, which is the one that `Json::member` reads. A number is
/// read from its text; what is no number there is, in `serde_json`, `null`.
#[verifier::external_body]
pub(crate) fn value_from_json(value: &Json) -> (result: serde_json::Value) {
    match value {
        Json::Null => serde_json::Value::Null,
        Json::Bool(value) => serde_json::Value::Bool(*value),
        Json::Number(text) => serde_json::from_str(text).map_or_else(
            |_| serde_json::Value::Null,
            serde_json::Value::Number,
        ),
        Json::Text(text) => serde_json::Value::String(text.clone()),
        Json::Array(items) => serde_json::Value::Array(items.iter().map(value_from_json).collect()),
        Json::Object(members) => members.iter().fold(
            serde_json::Map::new(),
            |mut map, (key, value)| { map.insert(key.clone(), value_from_json(value)); map },
        ).into(),
    }
}

/// `serde_json::from_str`: the value that the text holds, or the parser's message.
#[verifier::external_body]
pub(crate) fn parse_json(text: &str) -> (result: Result<Json, String>)
    ensures
        parse_view(result) == parsed_json(text@),
{
    match serde_json::from_str(text) {
        Ok(value) => Ok(json_from_value(value)),
        Err(error) => Err(error.to_string()),
    }
}

/// `serde_json::Value::to_string`: the compact text of a value, which it always writes.
#[verifier::external_body]
pub(crate) fn render_json(value: &Json) -> (result: String)
    ensures
        result@ == rendered_json(value@),
{
    value_from_json(value).to_string()
}

/// An array is viewed item by item.
pub proof fn view_of_array(value: Json)
    requires
        value is Array,
    ensures
        value@ is Array,
        value@->Array_0.len() == value->Array_0@.len(),
        forall|i: int|
            0 <= i < value->Array_0@.len() ==> #[trigger] value@->Array_0[i] == value->Array_0@[i]@,
{
}

/// An object is viewed member by member.
pub proof fn view_of_object(value: Json)
    requires
        value is Object,
    ensures
        value@ is Object,
        value@->Object_0.len() == value->Object_0@.len(),
        forall|i: int|
            0 <= i < value->Object_0@.len() ==> #[trigger] value@->Object_0[i] == (
                value->Object_0@[i].0@,
                value->Object_0@[i].1@,
            ),
{
}

impl Json {
    /// The value that a text holds, or the parser's message.
    pub fn parse(text: &str) -> (result: Result<Json, String>)
        ensures
            parse_view(result) == parsed_json(text@),
    {
        parse_json(text)
    }

    /// The compact text of the value.
    pub fn to_json_text(&self) -> (result: String)
        ensures
            result@ == rendered_json(self@),
    {
        render_json(self)
    }

    /// A copy of the value.
    pub fn duplicate(&self) -> (result: Json)
        ensures
            result@ == self@,
        decreases self,
    {
        match self {
            Json::Null => Json::Null,
            Json::Bool(value) => Json::Bool(*value),
            Json::Number(text) => Json::Number(text.clone()),
            Json::Text(text) => Json::Text(text.clone()),
            Json::Array(items) => {
                let mut copy: Vec<Json> = Vec::new();
                let mut i: usize = 0;
                while i < items.len()
                    invariant
                        i <= items@.len(),
                        *self == Json::Array(*items),
                        copy@.len() == i,
                        forall|j: int| 0 <= j < i ==> (#[trigger] copy@[j])@ == items@[j]@,
                    decreases items@.len() - i,
                {
                    assert(*items == self->Array_0);
                    let item = items[i].duplicate();
                    copy.push(item);
                    i += 1;
                }
                let result = Json::Array(copy);
                assert(result@->Array_0 =~= self@->Array_0);
                result
            },
            Json::Object(members) => {
                let mut copy: Vec<(String, Json)> = Vec::new();
                let mut i: usize = 0;
                while i < members.len()
                    invariant
                        i <= members@.len(),
                        *self == Json::Object(*members),
                        copy@.len() == i,
                        forall|j: int|
                            0 <= j < i ==> (#[trigger] copy@[j]).0@ == members@[j].0@ && copy@[j].1@
                                == members@[j].1@,
                    decreases members@.len() - i,
                {
                    assert(*members == self->Object_0);
                    let value = members[i].1.duplicate();
                    copy.push((members[i].0.clone(), value));
                    i += 1;
                }
                let result = Json::Object(copy);
                assert(result@->Object_0 =~= self@->Object_0);
                result
            },
        }
    }

    /// Whether arrays and objects are nested no deeper than `limit`.
    pub fn fits_depth(&self, limit: u32) -> (result: bool)
        ensures
            result == (depth(self@) <= limit),
        decreases self,
    {
        match self {
            Json::Array(items) => {
                if limit == 0 {
                    return false;
                }
                let mut i: usize = 0;
                while i < items.len()
                    invariant
                        i <= items@.len(),
                        limit > 0,
                        *self == Json::Array(*items),
                        items_depth(self@->Array_0, i as nat) <= limit - 1,
                    decreases items@.len() - i,
                {
                    if !items[i].fits_depth(limit - 1) {
                        proof {
                            assert(self@->Array_0[i as int] == items@[i as int]@);
                            assert(items_depth(self@->Array_0, (i + 1) as nat) > limit - 1);
                            items_depth_grows(self@->Array_0, (i + 1) as nat, items@.len());
                        }
                        return false;
                    }
                    assert(self@->Array_0[i as int] == items@[i as int]@);
                    i += 1;
                }
                true
            },
            Json::Object(members) => {
                if limit == 0 {
                    return false;
                }
                let mut i: usize = 0;
                while i < members.len()
                    invariant
                        i <= members@.len(),
                        limit > 0,
                        *self == Json::Object(*members),
                        members_depth(self@->Object_0, i as nat) <= limit - 1,
                    decreases members@.len() - i,
                {
                    if !members[i].1.fits_depth(limit - 1) {
                        proof {
                            assert(self@->Object_0[i as int].1 == members@[i as int].1@);
                            assert(members_depth(self@->Object_0, (i + 1) as nat) > limit - 1);
                            members_depth_grows(self@->Object_0, (i + 1) as nat, members@.len());
                        }
                        return false;
                    }
                    assert(self@->Object_0[i as int].1 == members@[i as int].1@);
                    i += 1;
                }
                true
            },
            _ => true,
        }
    }

    /// The member named `key`.
    pub fn member(&self, key: &str) -> (result: Option<&Json>)
        ensures
            match result {
                Some(value) => member(self@, key@) == Some(value@),
                None => member(self@, key@) is None,
            },
    {
        if let Json::Object(members) = self {
            let mut i: usize = members.len();
            while i > 0
                invariant
                    i <= members@.len(),
                    *self == Json::Object(*members),
                    last_member(self@->Object_0, key@, members@.len()) == last_member(
                        self@->Object_0,
                        key@,
                        i as nat,
                    ),
                decreases i,
            {
                i -= 1;
                assert(self@->Object_0[i as int] == (members@[i as int].0@, members@[i as int].1@));
                if same_text(members[i].0.as_str(), key) {
                    return Some(&members[i].1);
                }
            }
        }
        None
    }
}

impl Clone for Json {
    fn clone(&self) -> (result: Json)
        ensures
            result@ == self@,
    {
        self.duplicate()
    }
}

/// The position of the last of the first `count` members that is named `key`.
pub open spec fn last_member(members: Seq<(Seq<char>, JsonTree)>, key: Seq<char>, count: nat) -> Option<nat>
    decreases count,
{
    if count == 0 || count > members.len() {
        None
    } else if members[count - 1].0 == key {
        Some((count - 1) as nat)
    } else {
        last_member(members, key, (count - 1) as nat)
    }
}

/// The member of an object named `key`.
pub open spec fn member(value: JsonTree, key: Seq<char>) -> Option<JsonTree> {
    match value {
        JsonTree::Object(members) => match last_member(members, key, members.len()) {
            Some(index) => Some(members[index as int].1),
            None => None,
        },
        _ => None,
    }
}

proof fn items_depth_grows(items: Seq<JsonTree>, few: nat, many: nat)
    requires
        few <= many <= items.len(),
    ensures
        items_depth(items, few) <= items_depth(items, many),
    decreases many,
{
    if few < many {
        items_depth_grows(items, few, (many - 1) as nat);
    }
}

proof fn members_depth_grows(members: Seq<(Seq<char>, JsonTree)>, few: nat, many: nat)
    requires
        few <= many <= members.len(),
    ensures
        members_depth(members, few) <= members_depth(members, many),
    decreases many,
{
    if few < many {
        members_depth_grows(members, few, (many - 1) as nat);
    }
}

/// Whether a schema keyword holds a reference.
pub open spec fn is_reference_key(key: Seq<char>) -> bool {
    key == "$ref"@ || key == "$dynamicRef"@
}

/// What is wrong with the reference that the member `key` holds.
pub open spec fn member_reference_fault(key: Seq<char>, value: JsonTree) -> Option<Seq<char>> {
    if !is_reference_key(key) {
        None
    } else {
        match value {
            JsonTree::Text(reference) => if reference.len() > 0 && reference[0] == '#' {
                None
            } else {
                Some("external schema reference is disabled: "@ + reference)
            },
            _ => Some(key + " must be a string"@),
        }
    }
}

/// The first reference in a schema, in document order, that leaves the document.
pub open spec fn reference_fault(schema: JsonTree) -> Option<Seq<char>>
    decreases schema, 0nat,
{
    match schema {
        JsonTree::Array(items) => items_reference_fault(items, items.len()),
        JsonTree::Object(members) => members_reference_fault(members, members.len()),
        _ => None,
    }
}

/// The first such reference in the first `count` items.
pub open spec fn items_reference_fault(items: Seq<JsonTree>, count: nat) -> Option<Seq<char>>
    decreases items, count,
{
    if 0 < count <= items.len() {
        match items_reference_fault(items, (count - 1) as nat) {
            Some(fault) => Some(fault),
            None => reference_fault(items[count - 1]),
        }
    } else {
        None
    }
}

/// The first such reference in the first `count` members.
pub open spec fn members_reference_fault(
    members: Seq<(Seq<char>, JsonTree)>,
    count: nat,
) -> Option<Seq<char>>
    decreases members, count,
{
    if 0 < count <= members.len() {
        match members_reference_fault(members, (count - 1) as nat) {
            Some(fault) => Some(fault),
            None => match member_reference_fault(members[count - 1].0, members[count - 1].1) {
                Some(fault) => Some(fault),
                None => reference_fault(members[count - 1].1),
            },
        }
    } else {
        None
    }
}

proof fn items_fault_stays(items: Seq<JsonTree>, few: nat, many: nat)
    requires
        few <= many <= items.len(),
        items_reference_fault(items, few) is Some,
    ensures
        items_reference_fault(items, many) == items_reference_fault(items, few),
    decreases many,
{
    if few < many {
        items_fault_stays(items, few, (many - 1) as nat);
    }
}

proof fn members_fault_stays(members: Seq<(Seq<char>, JsonTree)>, few: nat, many: nat)
    requires
        few <= many <= members.len(),
        members_reference_fault(members, few) is Some,
    ensures
        members_reference_fault(members, many) == members_reference_fault(members, few),
    decreases many,
{
    if few < many {
        members_fault_stays(members, few, (many - 1) as nat);
    }
}

fn member_fault(key: &str, value: &Json) -> (result: Option<String>)
    ensures
        text_option(result) == member_reference_fault(key@, value@),
{
    if !same_text(key, "$ref") && !same_text(key, "$dynamicRef") {
        return None;
    }
    match value {
        Json::Text(reference) => {
            if !reference.as_str().is_empty() && reference.as_str().get_char(0) == '#' {
                None
            } else {
                Some(join2("external schema reference is disabled: ", reference.as_str()))
            }
        },
        _ => Some(join2(key, " must be a string")),
    }
}

/// Finds the first reference in a schema that leaves the document.
pub fn validate_schema_references(schema: &Json) -> (result: Option<String>)
    ensures
        text_option(result) == reference_fault(schema@),
    decreases schema,
{
    match schema {
        Json::Array(items) => {
            let mut i: usize = 0;
            while i < items.len()
                invariant
                    i <= items@.len(),
                    *schema == Json::Array(*items),
                    items_reference_fault(schema@->Array_0, i as nat) is None,
                decreases items@.len() - i,
            {
                let fault = validate_schema_references(&items[i]);
                assert(schema@->Array_0[i as int] == items@[i as int]@);
                if fault.is_some() {
                    proof {
                        items_fault_stays(schema@->Array_0, (i + 1) as nat, items@.len());
                    }
                    return fault;
                }
                i += 1;
            }
            None
        },
        Json::Object(members) => {
            let mut i: usize = 0;
            while i < members.len()
                invariant
                    i <= members@.len(),
                    *schema == Json::Object(*members),
                    members_reference_fault(schema@->Object_0, i as nat) is None,
                decreases members@.len() - i,
            {
                assert(schema@->Object_0[i as int] == (
                    members@[i as int].0@,
                    members@[i as int].1@,
                ));
                let own = member_fault(members[i].0.as_str(), &members[i].1);
                if own.is_some() {
                    proof {
                        members_fault_stays(schema@->Object_0, (i + 1) as nat, members@.len());
                    }
                    return own;
                }
                let fault = validate_schema_references(&members[i].1);
                if fault.is_some() {
                    proof {
                        members_fault_stays(schema@->Object_0, (i + 1) as nat, members@.len());
                    }
                    return fault;
                }
                i += 1;
            }
            None
        },
        _ => None,
    }
}

} // verus!
