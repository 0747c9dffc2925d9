//! The parts of a schema: which of its values are schemas, and where references lead.

use crate::json::{Json, JsonTree};
use crate::pointer::{array_index, index_of, parse_pointer, pointer_path};
use crate::text::{characters, same_text, text_of, text_option, texts};
use vstd::prelude::*;

verus! {

/// Whether the subschema of the member `key` judges the same instance as its schema.
pub open spec fn judges_in_place(key: Seq<char>) -> bool {
    key == "allOf"@ || key == "anyOf"@ || key == "oneOf"@ || key == "not"@ || key == "if"@ || key
        == "then"@ || key == "else"@
}

/// Whether the member `key` holds subschemas by name that judge the same instance.
pub open spec fn judges_by_name(key: Seq<char>) -> bool {
    key == "dependentSchemas"@ || key == "dependencies"@
}

/// Whether the member `key` holds a subschema, or a list of them, that is compiled.
pub open spec fn holds_schema(key: Seq<char>) -> bool {
    judges_in_place(key) || key == "additionalItems"@ || key == "additionalProperties"@ || key
        == "contains"@ || key == "items"@ || key == "prefixItems"@ || key == "propertyNames"@ || key
        == "unevaluatedItems"@ || key == "unevaluatedProperties"@
}

/// Whether the member `key` holds subschemas by name that are compiled.
pub open spec fn holds_named(key: Seq<char>) -> bool {
    judges_by_name(key) || key == "properties"@ || key == "patternProperties"@
}

/// Whether the member `key` keeps subschemas by name that are compiled where something refers to
/// them.
pub open spec fn keeps_named(key: Seq<char>) -> bool {
    key == "$defs"@ || key == "definitions"@
}

pub(crate) fn in_place(key: &str) -> (result: bool)
    ensures
        result == judges_in_place(key@),
{
    same_text(key, "allOf") || same_text(key, "anyOf") || same_text(key, "oneOf") || same_text(
        key,
        "not",
    ) || same_text(key, "if") || same_text(key, "then") || same_text(key, "else")
}

pub(crate) fn by_name(key: &str) -> (result: bool)
    ensures
        result == judges_by_name(key@),
{
    same_text(key, "dependentSchemas") || same_text(key, "dependencies")
}

fn is_held(key: &str) -> (result: bool)
    ensures
        result == holds_schema(key@),
{
    in_place(key) || same_text(key, "additionalItems") || same_text(key, "additionalProperties")
        || same_text(key, "contains") || same_text(key, "items") || same_text(key, "prefixItems")
        || same_text(key, "propertyNames") || same_text(key, "unevaluatedItems") || same_text(
        key,
        "unevaluatedProperties",
    )
}

fn is_named(key: &str) -> (result: bool)
    ensures
        result == holds_named(key@),
{
    by_name(key) || same_text(key, "properties") || same_text(key, "patternProperties")
}

/// The schemas of a value that stands where a schema is expected: the value and its subschemas.
/// `kept` takes along those that nothing compiles as long as nothing refers to them.
pub open spec fn seats(part: JsonTree, kept: bool) -> Seq<JsonTree>
    decreases part, 1nat,
{
    match part {
        JsonTree::Object(members) => seq![part] + members_seats(members, kept, members.len()),
        JsonTree::Array(items) => items_seats(items, kept, items.len()),
        _ => Seq::empty(),
    }
}

/// The schemas of the first items.
pub open spec fn items_seats(items: Seq<JsonTree>, kept: bool, count: nat) -> Seq<JsonTree>
    decreases items, count,
{
    if 0 < count <= items.len() {
        items_seats(items, kept, (count - 1) as nat) + seats(items[count - 1], kept)
    } else {
        Seq::empty()
    }
}

/// The schemas of the values of the first members.
pub open spec fn values_seats(members: Seq<(Seq<char>, JsonTree)>, kept: bool, count: nat) -> Seq<
    JsonTree,
>
    decreases members, count,
{
    if 0 < count <= members.len() {
        values_seats(members, kept, (count - 1) as nat) + seats(members[count - 1].1, kept)
    } else {
        Seq::empty()
    }
}

/// The subschemas in the first members of a schema.
pub open spec fn members_seats(members: Seq<(Seq<char>, JsonTree)>, kept: bool, count: nat) -> Seq<
    JsonTree,
>
    decreases members, count,
{
    if 0 < count <= members.len() {
        let key = members[count - 1].0;
        members_seats(members, kept, (count - 1) as nat) + (if holds_schema(key) || (kept && key
            == "contentSchema"@) {
            seats(members[count - 1].1, kept)
        } else if holds_named(key) || (kept && keeps_named(key)) {
            match members[count - 1].1 {
                JsonTree::Object(inner) => values_seats(inner, kept, inner.len()),
                _ => Seq::empty(),
            }
        } else {
            Seq::empty()
        })
    } else {
        Seq::empty()
    }
}

/// The members of an object, viewed.
pub open spec fn pairs(members: Seq<(String, Json)>) -> Seq<(Seq<char>, JsonTree)> {
    members.map_values(|member: (String, Json)| (member.0@, member.1@))
}

/// The items of an array, viewed.
pub open spec fn trees(items: Seq<Json>) -> Seq<JsonTree> {
    items.map_values(|item: Json| item@)
}

/// Values that are pointed to, viewed.
pub open spec fn seen(list: Seq<&Json>) -> Seq<JsonTree> {
    list.map_values(|item: &Json| item@)
}

pub proof fn object_view(value: Json)
    requires
        value is Object,
    ensures
        value@ == JsonTree::Object(pairs(value->Object_0@)),
{
    assert(value@->Object_0 =~= pairs(value->Object_0@));
}

pub proof fn array_view(value: Json)
    requires
        value is Array,
    ensures
        value@ == JsonTree::Array(trees(value->Array_0@)),
{
    assert(value@->Array_0 =~= trees(value->Array_0@));
}

pub(crate) fn append_all<'a>(list: &mut Vec<&'a Json>, more: &Vec<&'a Json>)
    ensures
        seen(final(list)@) == seen(old(list)@) + seen(more@),
{
    let ghost first = seen(list@);
    let mut i: usize = 0;
    assert(seen(list@) =~= first + seen(more@).take(0));
    while i < more.len()
        invariant
            i <= more@.len(),
            seen(list@) == first + seen(more@).take(i as int),
        decreases more@.len() - i,
    {
        let ghost before = seen(list@);
        let item: &'a Json = more[i];
        list.push(item);
        assert(seen(list@) =~= before.push(item@));
        assert(seen(more@)[i as int] == item@);
        assert(seen(list@) =~= first + seen(more@).take(i + 1));
        i += 1;
    }
    assert(seen(more@).take(i as int) =~= seen(more@));
}

/// The schemas of a value that stands where a schema is expected.
pub fn find_seats<'a>(part: &'a Json, kept: bool) -> (result: Vec<&'a Json>)
    ensures
        seen(result@) == seats(part@, kept),
    decreases part,
{
    let mut result: Vec<&'a Json> = Vec::new();
    assert(seen(result@) =~= Seq::empty());
    match part {
        Json::Object(members) => {
            proof {
                object_view(*part);
            }
            result.push(part);
            assert(seen(result@) =~= seq![part@] + members_seats(pairs(members@), kept, 0));
            let mut i: usize = 0;
            while i < members.len()
                invariant
                    i <= members@.len(),
                    *part == Json::Object(*members),
                    seen(result@) == seq![part@] + members_seats(pairs(members@), kept, i as nat),
                decreases members@.len() - i,
            {
                assert(*members == part->Object_0);
                let key = members[i].0.as_str();
                assert(pairs(members@)[i as int] == (members@[i as int].0@, members@[i as int].1@));
                let ghost before = members_seats(pairs(members@), kept, i as nat);
                let ghost after = members_seats(pairs(members@), kept, (i + 1) as nat);
                if is_held(key) || (kept && same_text(key, "contentSchema")) {
                    let more = find_seats(&members[i].1, kept);
                    append_all(&mut result, &more);
                    assert(after == before + seen(more@));
                } else if is_named(key) || (kept && (same_text(key, "$defs") || same_text(
                    key,
                    "definitions",
                ))) {
                    let more = find_value_seats(&members[i].1, kept);
                    append_all(&mut result, &more);
                    assert(after == before + seen(more@));
                } else {
                    assert(after =~= before);
                }
                assert(seen(result@) =~= seq![part@] + after);
                i += 1;
            }
        },
        Json::Array(items) => {
            proof {
                array_view(*part);
            }
            let mut i: usize = 0;
            while i < items.len()
                invariant
                    i <= items@.len(),
                    *part == Json::Array(*items),
                    seen(result@) == items_seats(trees(items@), kept, i as nat),
                decreases items@.len() - i,
            {
                assert(*items == part->Array_0);
                assert(trees(items@)[i as int] == items@[i as int]@);
                let more = find_seats(&items[i], kept);
                append_all(&mut result, &more);
                i += 1;
            }
        },
        _ => {},
    }
    result
}

fn find_value_seats<'a>(value: &'a Json, kept: bool) -> (result: Vec<&'a Json>)
    ensures
        seen(result@) == (match value@ {
            JsonTree::Object(inner) => values_seats(inner, kept, inner.len()),
            _ => Seq::empty(),
        }),
    decreases value,
{
    let mut result: Vec<&'a Json> = Vec::new();
    assert(seen(result@) =~= Seq::empty());
    if let Json::Object(members) = value {
        proof {
            object_view(*value);
        }
        let mut i: usize = 0;
        while i < members.len()
            invariant
                i <= members@.len(),
                *value == Json::Object(*members),
                seen(result@) == values_seats(pairs(members@), kept, i as nat),
            decreases members@.len() - i,
        {
            assert(*members == value->Object_0);
            assert(pairs(members@)[i as int] == (members@[i as int].0@, members@[i as int].1@));
            let more = find_seats(&members[i].1, kept);
            append_all(&mut result, &more);
            i += 1;
        }
    }
    result
}

/// Whether a text holds a character.
pub open spec fn holds(text: Seq<char>, wanted: char) -> bool {
    exists|i: int| 0 <= i < text.len() && text[i] == wanted
}

pub(crate) fn has_char(text: &str, wanted: char) -> (result: bool)
    ensures
        result == holds(text@, wanted),
{
    let all = characters(text);
    let mut i: usize = 0;
    while i < all.len()
        invariant
            i <= all@.len(),
            all@ == text@,
            forall|j: int| 0 <= j < i ==> text@[j] != wanted,
        decreases all@.len() - i,
    {
        if all[i] == wanted {
            assert(text@[i as int] == wanted);
            return true;
        }
        i += 1;
    }
    false
}

/// Whether a text begins with another.
pub open spec fn begins(text: Seq<char>, with: Seq<char>) -> bool {
    with.len() <= text.len() && text.take(with.len() as int) == with
}

pub(crate) fn text_begins(text: &str, with: &str) -> (result: bool)
    ensures
        result == begins(text@, with@),
{
    let all = characters(text);
    let start = characters(with);
    if start.len() > all.len() {
        return false;
    }
    let mut i: usize = 0;
    while i < start.len()
        invariant
            i <= start@.len() <= all@.len(),
            all@ == text@,
            start@ == with@,
            forall|j: int| 0 <= j < i ==> text@[j] == with@[j],
        decreases start@.len() - i,
    {
        if all[i] != start[i] {
            proof {
                let head = text@.take(with@.len() as int);
                assert(head[i as int] == text@[i as int]);
            }
            return false;
        }
        i += 1;
    }
    assert(text@.take(with@.len() as int) =~= with@);
    true
}

/// Whether the member `key` refers to another schema.
pub open spec fn refers(key: Seq<char>) -> bool {
    key == "$ref"@ || key == "$dynamicRef"@ || key == "$recursiveRef"@
}

/// Where a text has its last `#`.
pub open spec fn last_hash(text: Seq<char>, count: nat) -> Option<nat>
    decreases count,
{
    if count == 0 || count > text.len() {
        None
    } else if text[count - 1] == '#' {
        Some((count - 1) as nat)
    } else {
        last_hash(text, (count - 1) as nat)
    }
}

/// The place inside a resource that a reference names. A recursive reference names its root.
pub open spec fn fragment_of(key: Seq<char>, value: JsonTree) -> Option<Seq<char>> {
    match value {
        JsonTree::Text(reference) => if key == "$recursiveRef"@ {
            Some(Seq::empty())
        } else if !refers(key) {
            None
        } else if reference.len() > 0 && reference[0] == '#' {
            Some(reference.skip(1))
        } else {
            match last_hash(reference, reference.len()) {
                Some(at) => Some(reference.skip(at as int + 1)),
                None => Some(Seq::empty()),
            }
        },
        _ => None,
    }
}

fn text_from(all: &Vec<char>, start: usize) -> (result: String)
    requires
        start <= all@.len(),
    ensures
        result@ == all@.skip(start as int),
{
    let mut rest: Vec<char> = Vec::new();
    let mut i: usize = start;
    while i < all.len()
        invariant
            start <= i <= all@.len(),
            rest@ == all@.subrange(start as int, i as int),
        decreases all@.len() - i,
    {
        rest.push(all[i]);
        assert(rest@ =~= all@.subrange(start as int, i + 1));
        i += 1;
    }
    assert(rest@ =~= all@.skip(start as int));
    text_of(&rest)
}

pub(crate) fn find_fragment(key: &str, value: &Json) -> (result: Option<String>)
    ensures
        text_option(result) == fragment_of(key@, value@),
{
    if let Json::Text(reference) = value {
        if same_text(key, "$recursiveRef") {
            let none: Vec<char> = Vec::new();
            assert(none@ =~= Seq::empty());
            return Some(text_of(&none));
        }
        if !same_text(key, "$ref") && !same_text(key, "$dynamicRef") {
            return None;
        }
        let all = characters(reference.as_str());
        if all.len() > 0 && all[0] == '#' {
            return Some(text_from(&all, 1));
        }
        let mut i: usize = all.len();
        while i > 0
            invariant
                i <= all@.len(),
                all@ == reference@,
                value@ == JsonTree::Text(reference@),
                refers(key@) && key@ != "$recursiveRef"@,
                !(reference@.len() > 0 && reference@[0] == '#'),
                last_hash(reference@, reference@.len()) == last_hash(reference@, i as nat),
            decreases i,
        {
            i -= 1;
            if all[i] == '#' {
                return Some(text_from(&all, i + 1));
            }
        }
        let none: Vec<char> = Vec::new();
        assert(none@ =~= Seq::empty());
        return Some(text_of(&none));
    }
    None
}

/// The value of a hexadecimal digit.
pub open spec fn hex_value(digit: char) -> Option<int> {
    if '0' <= digit <= '9' {
        Some(digit as int - '0' as int)
    } else if 'a' <= digit <= 'f' {
        Some(digit as int - 'a' as int + 10)
    } else if 'A' <= digit <= 'F' {
        Some(digit as int - 'A' as int + 10)
    } else {
        None
    }
}

/// The character that three characters write as `%` and a two-digit number, where it is one of
/// ASCII.
pub open spec fn escape_value(text: Seq<char>) -> Option<u8> {
    if text.len() >= 3 && text[0] == '%' {
        match (hex_value(text[1]), hex_value(text[2])) {
            (Some(high), Some(low)) => if high < 8 {
                Some((high * 16 + low) as u8)
            } else {
                None
            },
            _ => None,
        }
    } else {
        None
    }
}

/// A text with its percent-encoded ASCII characters decoded.
pub open spec fn decoded(text: Seq<char>) -> Seq<char>
    decreases text.len(),
{
    if text.len() == 0 {
        Seq::empty()
    } else {
        match escape_value(text) {
            Some(value) => seq![value as char] + decoded(text.skip(3)),
            None => seq![text[0]] + decoded(text.skip(1)),
        }
    }
}

fn hex_digit(digit: char) -> (result: Option<u8>)
    ensures
        match result {
            Some(value) => hex_value(digit) == Some(value as int) && value < 16,
            None => hex_value(digit) is None,
        },
{
    if '0' <= digit && digit <= '9' {
        Some((digit as u32 - '0' as u32) as u8)
    } else if 'a' <= digit && digit <= 'f' {
        Some((digit as u32 - 'a' as u32) as u8 + 10)
    } else if 'A' <= digit && digit <= 'F' {
        Some((digit as u32 - 'A' as u32) as u8 + 10)
    } else {
        None
    }
}

fn decode(text: &str) -> (result: String)
    ensures
        result@ == decoded(text@),
{
    let all = characters(text);
    let mut plain: Vec<char> = Vec::new();
    let mut i: usize = 0;
    assert(all@.skip(0) =~= text@);
    assert(plain@ + decoded(text@.skip(0)) =~= decoded(text@));
    while i < all.len()
        invariant
            i <= all@.len(),
            all@ == text@,
            plain@ + decoded(text@.skip(i as int)) == decoded(text@),
        decreases all@.len() - i,
    {
        let ghost rest = text@.skip(i as int);
        let ghost before = plain@;
        let mut value: Option<u8> = None;
        if all.len() - i >= 3 && all[i] == '%' {
            if let Some(high) = hex_digit(all[i + 1]) {
                if let Some(low) = hex_digit(all[i + 2]) {
                    if high < 8 {
                        value = Some(high * 16 + low);
                    }
                }
            }
        }
        proof {
            assert(rest.len() > 0);
            assert(rest[0] == text@[i as int]);
            if rest.len() >= 3 {
                assert(rest[1] == text@[i + 1]);
                assert(rest[2] == text@[i + 2]);
            }
            assert(value == escape_value(rest));
        }
        match value {
            Some(value) => {
                plain.push(value as char);
                proof {
                    assert(rest.skip(3) =~= text@.skip(i + 3));
                    assert(plain@ + decoded(text@.skip(i + 3)) =~= before + decoded(rest));
                }
                i += 3;
            },
            None => {
                plain.push(all[i]);
                proof {
                    assert(rest.skip(1) =~= text@.skip(i + 1));
                    assert(plain@ + decoded(text@.skip(i + 1)) =~= before + decoded(rest));
                }
                i += 1;
            },
        }
    }
    assert(text@.skip(i as int) =~= Seq::empty());
    assert(plain@ + decoded(Seq::<char>::empty()) =~= plain@);
    text_of(&plain)
}

/// Where a fragment leads.
pub enum Jump {
    /// Along these names, from the root of a resource.
    Path(Vec<String>),
    /// To the parts that bear this name.
    Name(String),
}

/// The model of a jump.
pub enum JumpModel {
    /// Along these names.
    Path(Seq<Seq<char>>),
    /// To the parts that bear this name.
    Name(Seq<char>),
}

impl View for Jump {
    type V = JumpModel;

    open spec fn view(&self) -> JumpModel {
        match self {
            Jump::Path(path) => JumpModel::Path(texts(path@)),
            Jump::Name(name) => JumpModel::Name(name@),
        }
    }
}

/// Where a fragment leads.
pub open spec fn jump_to(fragment: Seq<char>) -> JumpModel {
    match pointer_path(decoded(fragment)) {
        Some(path) => JumpModel::Path(path),
        None => JumpModel::Name(fragment),
    }
}

fn find_jump(fragment: &str) -> (result: Jump)
    ensures
        result@ == jump_to(fragment@),
{
    let plain = decode(fragment);
    match parse_pointer(plain.as_str()) {
        Some(path) => Jump::Path(path),
        None => Jump::Name(fragment.to_owned()),
    }
}

/// Whether a name may stand for another: it is percent-encoded beyond ASCII.
pub open spec fn encoded(name: Seq<char>) -> bool {
    holds(name, '%')
}

/// Whether a name may stand for more than one position: a number with a sign or with leading
/// zeros.
pub open spec fn loosely_numbered(name: Seq<char>) -> bool {
    name.len() > 0 && (name[0] == '+' || (name[0] == '0' && name.len() > 1))
}

/// Whether the member `key` gives its object an identifier.
pub open spec fn identifies(key: Seq<char>, value: JsonTree) -> bool {
    (key == "$id"@ || key == "id"@) && value is Text
}

/// Whether the member `key` lets a jump by name end at its object.
pub open spec fn bears(key: Seq<char>, value: JsonTree, name: Seq<char>) -> bool {
    value matches JsonTree::Text(own) && if key == "$anchor"@ || key == "$dynamicAnchor"@ {
        own == name
    } else {
        (key == "$id"@ || key == "id"@) && holds(own, '#')
    }
}

/// Whether one of the first members lets a jump start or end at its object.
pub open spec fn marked(members: Seq<(Seq<char>, JsonTree)>, jump: JumpModel, count: nat) -> bool
    decreases count,
{
    if count == 0 || count > members.len() {
        false
    } else {
        let (key, value) = members[count - 1];
        marked(members, jump, (count - 1) as nat) || match jump {
            JumpModel::Path(_) => identifies(key, value),
            JumpModel::Name(name) => bears(key, value, name),
        }
    }
}

/// Every value that a path may lead to, from a value.
pub open spec fn reached(value: JsonTree, path: Seq<Seq<char>>) -> Seq<JsonTree>
    decreases path.len(), 1nat, 0nat,
{
    if path.len() == 0 {
        seq![value]
    } else {
        match value {
            JsonTree::Object(members) => members_reached(members, path, members.len()),
            JsonTree::Array(items) => items_reached(items, path, items.len()),
            _ => Seq::empty(),
        }
    }
}

/// What a path leads to among the first members.
pub open spec fn members_reached(
    members: Seq<(Seq<char>, JsonTree)>,
    path: Seq<Seq<char>>,
    count: nat,
) -> Seq<JsonTree>
    decreases path.len(), 0nat, count,
{
    if path.len() == 0 || count == 0 || count > members.len() {
        Seq::empty()
    } else {
        let before = members_reached(members, path, (count - 1) as nat);
        if encoded(path[0]) || members[count - 1].0 == path[0] {
            before + reached(members[count - 1].1, path.drop_first())
        } else {
            before
        }
    }
}

/// What a path leads to among the first items.
pub open spec fn items_reached(items: Seq<JsonTree>, path: Seq<Seq<char>>, count: nat) -> Seq<
    JsonTree,
>
    decreases path.len(), 0nat, count,
{
    if path.len() == 0 || count == 0 || count > items.len() {
        Seq::empty()
    } else {
        let before = items_reached(items, path, (count - 1) as nat);
        if encoded(path[0]) || loosely_numbered(path[0]) || array_index(path[0]) == Some(
            (count - 1) as nat,
        ) {
            before + reached(items[count - 1], path.drop_first())
        } else {
            before
        }
    }
}

/// Where a jump may end by way of an object itself.
pub open spec fn own_ends(
    part: JsonTree,
    members: Seq<(Seq<char>, JsonTree)>,
    whole: bool,
    jump: JumpModel,
) -> Seq<JsonTree> {
    let here = marked(members, jump, members.len());
    match jump {
        JumpModel::Path(path) => if whole || here {
            reached(part, path)
        } else {
            Seq::empty()
        },
        JumpModel::Name(_) => if here {
            seq![part]
        } else {
            Seq::empty()
        },
    }
}

/// Every part of a document that a jump may end at, from a part on. `whole` says that the part is
/// the document.
pub open spec fn ends(part: JsonTree, whole: bool, jump: JumpModel) -> Seq<JsonTree>
    decreases part, 1nat,
{
    match part {
        JsonTree::Object(members) => {
            let own = own_ends(part, members, whole, jump);
            own + members_ends(members, jump, members.len())
        },
        JsonTree::Array(items) => items_ends(items, jump, items.len()),
        _ => Seq::empty(),
    }
}

/// The ends of a jump inside the first members.
pub open spec fn members_ends(
    members: Seq<(Seq<char>, JsonTree)>,
    jump: JumpModel,
    count: nat,
) -> Seq<JsonTree>
    decreases members, count,
{
    if 0 < count <= members.len() {
        members_ends(members, jump, (count - 1) as nat) + ends(members[count - 1].1, false, jump)
    } else {
        Seq::empty()
    }
}

/// The ends of a jump inside the first items.
pub open spec fn items_ends(items: Seq<JsonTree>, jump: JumpModel, count: nat) -> Seq<JsonTree>
    decreases items, count,
{
    if 0 < count <= items.len() {
        items_ends(items, jump, (count - 1) as nat) + ends(items[count - 1], false, jump)
    } else {
        Seq::empty()
    }
}

/// Every part of a document that a fragment may lead to.
pub open spec fn targets(document: JsonTree, fragment: Seq<char>) -> Seq<JsonTree> {
    ends(document, true, jump_to(fragment))
}

pub(crate) fn is_identifier(key: &str, value: &Json) -> (result: bool)
    ensures
        result == identifies(key@, value@),
{
    match value {
        Json::Text(_) => same_text(key, "$id") || same_text(key, "id"),
        _ => false,
    }
}

fn is_borne(key: &str, value: &Json, name: &str) -> (result: bool)
    ensures
        result == bears(key@, value@, name@),
{
    match value {
        Json::Text(own) => if same_text(key, "$anchor") || same_text(key, "$dynamicAnchor") {
            same_text(own.as_str(), name)
        } else {
            (same_text(key, "$id") || same_text(key, "id")) && has_char(own.as_str(), '#')
        },
        _ => false,
    }
}

fn is_marked(members: &Vec<(String, Json)>, jump: &Jump) -> (result: bool)
    ensures
        result == marked(pairs(members@), jump@, members@.len()),
{
    let mut found = false;
    let mut i: usize = 0;
    while i < members.len()
        invariant
            i <= members@.len(),
            found == marked(pairs(members@), jump@, i as nat),
        decreases members@.len() - i,
    {
        let key = members[i].0.as_str();
        let value = &members[i].1;
        assert(pairs(members@)[i as int] == (key@, value@));
        let here = match jump {
            Jump::Path(_) => is_identifier(key, value),
            Jump::Name(name) => is_borne(key, value, name.as_str()),
        };
        found = found || here;
        i += 1;
    }
    found
}

fn reach<'a>(value: &'a Json, path: &Vec<String>, at: usize) -> (result: Vec<&'a Json>)
    requires
        at <= path@.len(),
    ensures
        seen(result@) == reached(value@, texts(path@).skip(at as int)),
    decreases path@.len() - at,
{
    let ghost names = texts(path@).skip(at as int);
    let mut result: Vec<&'a Json> = Vec::new();
    if at == path.len() {
        result.push(value);
        assert(seen(result@) =~= seq![value@]);
        return result;
    }
    let name = path[at].as_str();
    let loose = has_char(name, '%');
    let numbered = is_loose(name);
    proof {
        assert(names[0] == name@);
        assert(loose == encoded(name@));
        assert(names.drop_first() =~= texts(path@).skip(at + 1));
        assert(seen(result@) =~= Seq::empty());
    }
    match value {
        Json::Object(members) => {
            proof {
                object_view(*value);
            }
            let mut i: usize = 0;
            while i < members.len()
                invariant
                    i <= members@.len(),
                    at < path.len(),
                    names == texts(path@).skip(at as int),
                    names.len() > 0,
                    names[0] == name@,
                    names.drop_first() == texts(path@).skip(at + 1),
                    loose == encoded(name@),
                    seen(result@) == members_reached(pairs(members@), names, i as nat),
                decreases members@.len() - i,
            {
                assert(pairs(members@)[i as int] == (members@[i as int].0@, members@[i as int].1@));
                if loose || same_text(members[i].0.as_str(), name) {
                    let more = reach(&members[i].1, path, at + 1);
                    append_all(&mut result, &more);
                }
                i += 1;
            }
        },
        Json::Array(items) => {
            proof {
                array_view(*value);
            }
            let wanted = index_of(name);
            let mut i: usize = 0;
            while i < items.len()
                invariant
                    i <= items@.len(),
                    at < path.len(),
                    names == texts(path@).skip(at as int),
                    names.len() > 0,
                    names[0] == name@,
                    names.drop_first() == texts(path@).skip(at + 1),
                    loose == encoded(name@),
                    numbered == loosely_numbered(name@),
                    match wanted {
                        Some(index) => array_index(name@) == Some(index as nat),
                        None => array_index(name@) is None,
                    },
                    seen(result@) == items_reached(trees(items@), names, i as nat),
                decreases items@.len() - i,
            {
                assert(trees(items@)[i as int] == items@[i as int]@);
                let here = match wanted {
                    Some(index) => index == i,
                    None => false,
                };
                if loose || numbered || here {
                    let more = reach(&items[i], path, at + 1);
                    append_all(&mut result, &more);
                }
                i += 1;
            }
        },
        _ => {},
    }
    result
}

fn find_ends<'a>(part: &'a Json, whole: bool, jump: &Jump) -> (result: Vec<&'a Json>)
    ensures
        seen(result@) == ends(part@, whole, jump@),
    decreases part,
{
    let mut result: Vec<&'a Json> = Vec::new();
    assert(seen(result@) =~= Seq::empty());
    match part {
        Json::Object(members) => {
            proof {
                object_view(*part);
            }
            let here = is_marked(members, jump);
            match jump {
                Jump::Path(path) => {
                    if whole || here {
                        result = reach(part, path, 0);
                        assert(texts(path@).skip(0) =~= texts(path@));
                    }
                },
                Jump::Name(_) => {
                    if here {
                        result.push(part);
                    }
                },
            }
            let ghost own = seen(result@);
            let mut i: usize = 0;
            proof {
                assert(own =~= own_ends(part@, pairs(members@), whole, jump@));
                assert(own =~= own + members_ends(pairs(members@), jump@, 0));
            }
            while i < members.len()
                invariant
                    i <= members@.len(),
                    *part == Json::Object(*members),
                    seen(result@) == own + members_ends(pairs(members@), jump@, i as nat),
                decreases members@.len() - i,
            {
                assert(*members == part->Object_0);
                assert(pairs(members@)[i as int] == (members@[i as int].0@, members@[i as int].1@));
                let more = find_ends(&members[i].1, false, jump);
                append_all(&mut result, &more);
                assert(seen(result@) =~= own + members_ends(pairs(members@), jump@, (i + 1) as nat));
                i += 1;
            }
        },
        Json::Array(items) => {
            proof {
                array_view(*part);
            }
            let mut i: usize = 0;
            while i < items.len()
                invariant
                    i <= items@.len(),
                    *part == Json::Array(*items),
                    seen(result@) == items_ends(trees(items@), jump@, i as nat),
                decreases items@.len() - i,
            {
                assert(*items == part->Array_0);
                assert(trees(items@)[i as int] == items@[i as int]@);
                let more = find_ends(&items[i], false, jump);
                append_all(&mut result, &more);
                i += 1;
            }
        },
        _ => {},
    }
    result
}

fn is_loose(name: &str) -> (result: bool)
    ensures
        result == loosely_numbered(name@),
{
    let all = characters(name);
    all.len() > 0 && (all[0] == '+' || (all[0] == '0' && all.len() > 1))
}

/// Every part of a document that a fragment may lead to.
pub fn find_targets<'a>(document: &'a Json, fragment: &str) -> (result: Vec<&'a Json>)
    ensures
        seen(result@) == targets(document@, fragment@),
{
    let jump = find_jump(fragment);
    find_ends(document, true, &jump)
}

/// The fragments that the first members of a schema refer to.
pub open spec fn own_fragments(members: Seq<(Seq<char>, JsonTree)>, count: nat) -> Seq<Seq<char>>
    decreases count,
{
    if 0 < count <= members.len() {
        let before = own_fragments(members, (count - 1) as nat);
        match fragment_of(members[count - 1].0, members[count - 1].1) {
            Some(fragment) => before.push(fragment),
            None => before,
        }
    } else {
        Seq::empty()
    }
}

/// The fragments that a schema itself refers to.
pub open spec fn part_fragments(part: JsonTree) -> Seq<Seq<char>> {
    match part {
        JsonTree::Object(members) => own_fragments(members, members.len()),
        _ => Seq::empty(),
    }
}

/// A list with the first texts of another added that it does not hold.
pub open spec fn merged(known: Seq<Seq<char>>, more: Seq<Seq<char>>, count: nat) -> Seq<Seq<char>>
    decreases count,
{
    if 0 < count <= more.len() {
        let before = merged(known, more, (count - 1) as nat);
        if before.contains(more[count - 1]) {
            before
        } else {
            before.push(more[count - 1])
        }
    } else {
        known
    }
}

/// A list with the fragments added that the first schemas of another refer to.
pub open spec fn with_fragments(known: Seq<Seq<char>>, parts: Seq<JsonTree>, count: nat) -> Seq<
    Seq<char>,
>
    decreases count,
{
    if 0 < count <= parts.len() {
        let own = part_fragments(parts[count - 1]);
        merged(with_fragments(known, parts, (count - 1) as nat), own, own.len())
    } else {
        known
    }
}

/// The compiled schemas of the first values of a list. `kept` takes along those that nothing
/// compiles as long as nothing refers to them.
pub open spec fn list_seats(list: Seq<JsonTree>, kept: bool, count: nat) -> Seq<JsonTree>
    decreases count,
{
    if 0 < count <= list.len() {
        list_seats(list, kept, (count - 1) as nat) + seats(list[count - 1], kept)
    } else {
        Seq::empty()
    }
}

/// The schemas behind a fragment.
pub open spec fn seats_behind(document: JsonTree, fragment: Seq<char>, kept: bool) -> Seq<JsonTree> {
    let list = targets(document, fragment);
    list_seats(list, kept, list.len())
}

/// The fragments that a compiler follows, where it knows some and has looked behind the first
/// `at` of them. It looks behind no more than `fuel` of the others.
pub open spec fn followed(
    document: JsonTree,
    known: Seq<Seq<char>>,
    at: nat,
    fuel: nat,
) -> Seq<Seq<char>>
    decreases fuel,
{
    if fuel == 0 || at >= known.len() {
        known
    } else {
        let behind = seats_behind(document, known[at as int], false);
        followed(
            document,
            with_fragments(known, behind, behind.len()),
            at + 1,
            (fuel - 1) as nat,
        )
    }
}

/// The schemas behind the first fragments of a list.
pub open spec fn seats_of(
    document: JsonTree,
    fragments: Seq<Seq<char>>,
    kept: bool,
    count: nat,
) -> Seq<JsonTree>
    decreases count,
{
    if 0 < count <= fragments.len() {
        seats_of(document, fragments, kept, (count - 1) as nat) + seats_behind(
            document,
            fragments[count - 1],
            kept,
        )
    } else {
        Seq::empty()
    }
}

fn has_text(list: &Vec<String>, wanted: &str) -> (result: bool)
    ensures
        result == texts(list@).contains(wanted@),
{
    let mut i: usize = 0;
    while i < list.len()
        invariant
            i <= list@.len(),
            forall|j: int| 0 <= j < i ==> texts(list@)[j] != wanted@,
        decreases list@.len() - i,
    {
        assert(texts(list@)[i as int] == list@[i as int]@);
        if same_text(list[i].as_str(), wanted) {
            return true;
        }
        i += 1;
    }
    false
}

fn add_own(known: &mut Vec<String>, part: &Json)
    ensures
        texts(final(known)@) == merged(
            texts(old(known)@),
            part_fragments(part@),
            part_fragments(part@).len(),
        ),
{
    let ghost first = texts(known@);
    if let Json::Object(members) = part {
        proof {
            object_view(*part);
        }
        let ghost all = own_fragments(pairs(members@), members@.len());
        let mut i: usize = 0;
        while i < members.len()
            invariant
                i <= members@.len(),
                all == own_fragments(pairs(members@), members@.len()),
                texts(known@) == merged(
                    first,
                    own_fragments(pairs(members@), i as nat),
                    own_fragments(pairs(members@), i as nat).len(),
                ),
            decreases members@.len() - i,
        {
            assert(pairs(members@)[i as int] == (members@[i as int].0@, members@[i as int].1@));
            let ghost before = own_fragments(pairs(members@), i as nat);
            let ghost after = own_fragments(pairs(members@), (i + 1) as nat);
            if let Some(fragment) = find_fragment(members[i].0.as_str(), &members[i].1) {
                proof {
                    assert(after == before.push(fragment@));
                    merged_prefix(first, before, after, before.len());
                }
                if !has_text(known, fragment.as_str()) {
                    let ghost list = texts(known@);
                    let ghost added = fragment@;
                    known.push(fragment);
                    assert(texts(known@) =~= list.push(added));
                }
            }
            i += 1;
        }
    }
}

proof fn merged_prefix(
    known: Seq<Seq<char>>,
    left: Seq<Seq<char>>,
    right: Seq<Seq<char>>,
    count: nat,
)
    requires
        count <= left.len(),
        count <= right.len(),
        forall|i: int| 0 <= i < count ==> left[i] == right[i],
    ensures
        merged(known, left, count) == merged(known, right, count),
    decreases count,
{
    if count > 0 {
        merged_prefix(known, left, right, (count - 1) as nat);
    }
}

pub(crate) fn add_fragments(known: &mut Vec<String>, parts: &Vec<&Json>)
    ensures
        texts(final(known)@) == with_fragments(
            texts(old(known)@),
            seen(parts@),
            parts@.len(),
        ),
{
    let ghost first = texts(known@);
    let mut i: usize = 0;
    while i < parts.len()
        invariant
            i <= parts@.len(),
            texts(known@) == with_fragments(first, seen(parts@), i as nat),
        decreases parts@.len() - i,
    {
        assert(seen(parts@)[i as int] == parts@[i as int]@);
        add_own(known, parts[i]);
        i += 1;
    }
}

fn find_list_seats<'a>(list: &Vec<&'a Json>, kept: bool) -> (result: Vec<&'a Json>)
    ensures
        seen(result@) == list_seats(seen(list@), kept, list@.len()),
{
    let mut result: Vec<&'a Json> = Vec::new();
    let mut i: usize = 0;
    assert(seen(result@) =~= Seq::empty());
    while i < list.len()
        invariant
            i <= list@.len(),
            seen(result@) == list_seats(seen(list@), kept, i as nat),
        decreases list@.len() - i,
    {
        assert(seen(list@)[i as int] == list@[i as int]@);
        let item: &'a Json = list[i];
        let more = find_seats(item, kept);
        append_all(&mut result, &more);
        i += 1;
    }
    result
}

/// The schemas behind a fragment.
pub fn find_seats_behind<'a>(document: &'a Json, fragment: &str, kept: bool) -> (result: Vec<
    &'a Json,
>)
    ensures
        seen(result@) == seats_behind(document@, fragment@, kept),
{
    let list = find_targets(document, fragment);
    assert(seen(list@).len() == list@.len());
    find_list_seats(&list, kept)
}

/// The fragments that a compiler follows, from some that it knows on.
pub fn follow(document: &Json, start: Vec<String>, fuel: usize) -> (result: Vec<String>)
    ensures
        texts(result@) == followed(document@, texts(start@), 0, fuel as nat),
{
    let mut known = start;
    let mut at: usize = 0;
    let mut left: usize = fuel;
    while left > 0 && at < known.len()
        invariant
            at <= known@.len(),
            followed(document@, texts(start@), 0, fuel as nat) == followed(
                document@,
                texts(known@),
                at as nat,
                left as nat,
            ),
        decreases left,
    {
        let ghost before = texts(known@);
        assert(before[at as int] == known@[at as int]@);
        let behind = find_seats_behind(document, known[at].as_str(), false);
        assert(seen(behind@).len() == behind@.len());
        add_fragments(&mut known, &behind);
        proof {
            with_fragments_grows(before, seen(behind@), behind@.len());
        }
        at += 1;
        left -= 1;
    }
    known
}

proof fn merged_grows(known: Seq<Seq<char>>, more: Seq<Seq<char>>, count: nat)
    ensures
        merged(known, more, count).len() >= known.len(),
    decreases count,
{
    if 0 < count <= more.len() {
        merged_grows(known, more, (count - 1) as nat);
    }
}

proof fn with_fragments_grows(known: Seq<Seq<char>>, parts: Seq<JsonTree>, count: nat)
    ensures
        with_fragments(known, parts, count).len() >= known.len(),
    decreases count,
{
    if 0 < count <= parts.len() {
        with_fragments_grows(known, parts, (count - 1) as nat);
        let own = part_fragments(parts[count - 1]);
        merged_grows(with_fragments(known, parts, (count - 1) as nat), own, own.len());
    }
}

/// The schemas behind the fragments of a list.
pub fn find_seats_of<'a>(document: &'a Json, fragments: &Vec<String>, kept: bool) -> (result: Vec<
    &'a Json,
>)
    ensures
        seen(result@) == seats_of(document@, texts(fragments@), kept, fragments@.len()),
{
    let mut result: Vec<&'a Json> = Vec::new();
    let mut i: usize = 0;
    assert(seen(result@) =~= Seq::empty());
    while i < fragments.len()
        invariant
            i <= fragments@.len(),
            seen(result@) == seats_of(document@, texts(fragments@), kept, i as nat),
        decreases fragments@.len() - i,
    {
        assert(texts(fragments@)[i as int] == fragments@[i as int]@);
        let more = find_seats_behind(document, fragments[i].as_str(), kept);
        append_all(&mut result, &more);
        i += 1;
    }
    result
}

} // verus!
