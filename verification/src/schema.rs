//! Schemas: what may be compiled, and what conforms.
//!
//! `jsonschema` compiles and applies schemas. It is handed only those that it follows to their end
//! and that refer to nothing outside themselves.

use crate::json::{reference_fault, validate_schema_references, value_from_json, Json, JsonTree};
use crate::schema_guard::{
    colon_first, find_known, find_text, grounded, has_colon_first, is_grounded, places, text_member,
};
use crate::schema_walk::{
    array_view, begins, last_hash, object_view, pairs, seen, text_begins, trees,
};
use crate::text::{characters, join2, join3, same_text, text_of, text_option, texts};
use vstd::prelude::*;

verus! {

/// Why `jsonschema` does not compile a schema; `None` where it does.
pub uninterp spec fn schema_fault(schema: JsonTree) -> Option<Seq<char>>;

/// The first violation that `jsonschema` finds where a schema that it compiles is applied to an
/// instance; `None` where the instance conforms.
pub uninterp spec fn schema_violation(schema: JsonTree, instance: JsonTree) -> Option<Seq<char>>;

/// `jsonschema::ValidationOptions::build`: whether a schema compiles depends on the schema alone,
/// and so does the compiler's message, unless there are several dialects from outside to miss.
/// Which of them the message then names is left open.
#[verifier::external_body]
fn compile_schema(schema: &Json) -> (result: Option<String>)
    requires
        grounded(schema@),
        outsiders(schema@, false, identities(schema@)).len() == 0,
    ensures
        result is None <==> schema_fault(schema@) is None,
        settled(schema@) ==> text_option(result) == schema_fault(schema@),
{
    match jsonschema::options().build(&value_from_json(schema)) {
        Ok(_) => None,
        Err(error) => Some(error.to_string()),
    }
}

/// `jsonschema::Validator::validate`, with the validator of a schema that compiles: the first
/// violation depends on the schema and the instance alone.
#[verifier::external_body]
fn apply_schema(schema: &Json, instance: &Json) -> (result: Option<String>)
    requires
        grounded(schema@),
        outsiders(schema@, false, identities(schema@)).len() == 0,
        schema_fault(schema@) is None,
    ensures
        text_option(result) == schema_violation(schema@, instance@),
{
    let validator = jsonschema::options().build(&value_from_json(schema)).ok()?;
    match validator.validate(&value_from_json(instance)) {
        Ok(_) => None,
        Err(error) => Some(error.to_string()),
    }
}

/// The resource that a reference names: the text before its fragment.
pub open spec fn resource_of(reference: Seq<char>) -> Seq<char> {
    match last_hash(reference, reference.len()) {
        Some(at) => reference.take(at as int),
        None => reference,
    }
}

fn find_resource(reference: &str) -> (result: String)
    ensures
        result@ == resource_of(reference@),
{
    let all = characters(reference);
    let mut i: usize = all.len();
    while i > 0
        invariant
            i <= all@.len(),
            all@ == reference@,
            last_hash(reference@, reference@.len()) == last_hash(reference@, i as nat),
        decreases i,
    {
        i -= 1;
        if all[i] == '#' {
            let mut head: Vec<char> = Vec::new();
            let mut k: usize = 0;
            while k < i
                invariant
                    k <= i < all@.len(),
                    head@ == all@.take(k as int),
                decreases i - k,
            {
                head.push(all[k]);
                assert(head@ =~= all@.take(k + 1));
                k += 1;
            }
            return text_of(&head);
        }
    }
    reference.to_owned()
}

/// The resource that the member `key` of a schema gives an absolute name.
pub open spec fn named_resource(part: JsonTree, key: Seq<char>) -> Seq<Seq<char>> {
    match text_member(part, key) {
        Some(id) => if colon_first(id, 0) {
            seq![resource_of(id)]
        } else {
            Seq::empty()
        },
        None => Seq::empty(),
    }
}

/// The absolute names of the first schemas.
pub open spec fn names_of(parts: Seq<JsonTree>, count: nat) -> Seq<Seq<char>>
    decreases count,
{
    if 0 < count <= parts.len() {
        names_of(parts, (count - 1) as nat) + named_resource(parts[count - 1], "$id"@)
            + named_resource(parts[count - 1], "id"@)
    } else {
        Seq::empty()
    }
}

/// The absolute names of the resources of a document.
pub open spec fn identities(document: JsonTree) -> Seq<Seq<char>> {
    let known = places(document, true);
    names_of(known, known.len())
}

fn add_name(names: &mut Vec<String>, part: &Json, key: &str)
    ensures
        texts(final(names)@) == texts(old(names)@) + named_resource(part@, key@),
{
    let ghost before = texts(names@);
    if let Some(id) = find_text(part, key) {
        if has_colon_first(id.as_str()) {
            let name = find_resource(id.as_str());
            let ghost added = name@;
            names.push(name);
            assert(texts(names@) =~= before + seq![added]);
            return;
        }
    }
    assert(before + Seq::<Seq<char>>::empty() =~= before);
}

fn find_identities(document: &Json) -> (result: Vec<String>)
    ensures
        texts(result@) == identities(document@),
{
    let known = find_known(document);
    assert(seen(known@).len() == known@.len());
    let mut result: Vec<String> = Vec::new();
    let mut i: usize = 0;
    assert(texts(result@) =~= Seq::empty());
    while i < known.len()
        invariant
            i <= known@.len(),
            texts(result@) == names_of(seen(known@), i as nat),
        decreases known@.len() - i,
    {
        assert(seen(known@)[i as int] == known@[i as int]@);
        add_name(&mut result, known[i], "$id");
        add_name(&mut result, known[i], "id");
        i += 1;
    }
    result
}

/// Whether a text names a resource outside a document whose resources are known. Names are compared
/// as they are written: one that leads back only once it is resolved counts as outside.
pub open spec fn foreign(text: Seq<char>, names: Seq<Seq<char>>) -> bool {
    !begins(text, "#"@) && !names.contains(resource_of(text))
}

/// Whether a dialect is one that needs no looking up.
pub open spec fn well_known(dialect: Seq<char>) -> bool {
    begins(dialect, "https://json-schema.org/draft/"@) || begins(
        dialect,
        "http://json-schema.org/draft-"@,
    )
}

/// What the member `key` names outside its document: a dialect, or a schema that it refers to.
pub open spec fn outsider(
    key: Seq<char>,
    value: JsonTree,
    dialects: bool,
    names: Seq<Seq<char>>,
) -> Seq<Seq<char>> {
    match value {
        JsonTree::Text(text) => if foreign(text, names) && (if dialects {
            key == "$schema"@ && !well_known(text)
        } else {
            key == "$ref"@ || key == "$dynamicRef"@
        }) {
            seq![text]
        } else {
            Seq::empty()
        },
        _ => Seq::empty(),
    }
}

/// What a value names outside its document, in document order.
pub open spec fn outsiders(value: JsonTree, dialects: bool, names: Seq<Seq<char>>) -> Seq<Seq<char>>
    decreases value, 1nat,
{
    match value {
        JsonTree::Object(members) => members_outsiders(members, dialects, names, members.len()),
        JsonTree::Array(items) => items_outsiders(items, dialects, names, items.len()),
        _ => Seq::empty(),
    }
}

/// What the first members name outside their document.
pub open spec fn members_outsiders(
    members: Seq<(Seq<char>, JsonTree)>,
    dialects: bool,
    names: Seq<Seq<char>>,
    count: nat,
) -> Seq<Seq<char>>
    decreases members, count,
{
    if 0 < count <= members.len() {
        members_outsiders(members, dialects, names, (count - 1) as nat) + outsider(
            members[count - 1].0,
            members[count - 1].1,
            dialects,
            names,
        ) + outsiders(members[count - 1].1, dialects, names)
    } else {
        Seq::empty()
    }
}

/// What the first items name outside their document.
pub open spec fn items_outsiders(
    items: Seq<JsonTree>,
    dialects: bool,
    names: Seq<Seq<char>>,
    count: nat,
) -> Seq<Seq<char>>
    decreases items, count,
{
    if 0 < count <= items.len() {
        items_outsiders(items, dialects, names, (count - 1) as nat) + outsiders(
            items[count - 1],
            dialects,
            names,
        )
    } else {
        Seq::empty()
    }
}

fn has_name(names: &Vec<String>, wanted: &str) -> (result: bool)
    ensures
        result == texts(names@).contains(wanted@),
{
    let mut i: usize = 0;
    while i < names.len()
        invariant
            i <= names@.len(),
            forall|j: int| 0 <= j < i ==> texts(names@)[j] != wanted@,
        decreases names@.len() - i,
    {
        assert(texts(names@)[i as int] == names@[i as int]@);
        if same_text(names[i].as_str(), wanted) {
            return true;
        }
        i += 1;
    }
    false
}

fn is_foreign(text: &str, names: &Vec<String>) -> (result: bool)
    ensures
        result == foreign(text@, texts(names@)),
{
    let resource = find_resource(text);
    !text_begins(text, "#") && !has_name(names, resource.as_str())
}

fn is_well_known(dialect: &str) -> (result: bool)
    ensures
        result == well_known(dialect@),
{
    text_begins(dialect, "https://json-schema.org/draft/") || text_begins(
        dialect,
        "http://json-schema.org/draft-",
    )
}

fn add_outsider(
    list: &mut Vec<String>,
    key: &str,
    value: &Json,
    dialects: bool,
    names: &Vec<String>,
)
    ensures
        texts(final(list)@) == texts(old(list)@) + outsider(key@, value@, dialects, texts(names@)),
{
    let ghost before = texts(list@);
    if let Json::Text(text) = value {
        let wanted = if dialects {
            same_text(key, "$schema") && !is_well_known(text.as_str())
        } else {
            same_text(key, "$ref") || same_text(key, "$dynamicRef")
        };
        if wanted && is_foreign(text.as_str(), names) {
            list.push(text.clone());
            assert(texts(list@) =~= before + seq![text@]);
            return;
        }
    }
    assert(before + Seq::<Seq<char>>::empty() =~= before);
}

fn find_outsiders(value: &Json, dialects: bool, names: &Vec<String>) -> (result: Vec<String>)
    ensures
        texts(result@) == outsiders(value@, dialects, texts(names@)),
    decreases value,
{
    let ghost known = texts(names@);
    let mut result: Vec<String> = Vec::new();
    assert(texts(result@) =~= Seq::empty());
    match value {
        Json::Object(members) => {
            proof {
                object_view(*value);
            }
            let mut i: usize = 0;
            while i < members.len()
                invariant
                    i <= members@.len(),
                    known == texts(names@),
                    *value == Json::Object(*members),
                    texts(result@) == members_outsiders(
                        pairs(members@),
                        dialects,
                        known,
                        i as nat,
                    ),
                decreases members@.len() - i,
            {
                assert(*members == value->Object_0);
                assert(pairs(members@)[i as int] == (members@[i as int].0@, members@[i as int].1@));
                add_outsider(
                    &mut result,
                    members[i].0.as_str(),
                    &members[i].1,
                    dialects,
                    names,
                );
                let ghost before = texts(result@);
                let mut more = find_outsiders(&members[i].1, dialects, names);
                let ghost added = texts(more@);
                result.append(&mut more);
                assert(texts(result@) =~= before + added);
                i += 1;
            }
        },
        Json::Array(items) => {
            proof {
                array_view(*value);
            }
            let mut i: usize = 0;
            while i < items.len()
                invariant
                    i <= items@.len(),
                    known == texts(names@),
                    *value == Json::Array(*items),
                    texts(result@) == items_outsiders(trees(items@), dialects, known, i as nat),
                decreases items@.len() - i,
            {
                assert(*items == value->Array_0);
                assert(trees(items@)[i as int] == items@[i as int]@);
                let ghost before = texts(result@);
                let mut more = find_outsiders(&items[i], dialects, names);
                let ghost added = texts(more@);
                result.append(&mut more);
                assert(texts(result@) =~= before + added);
                i += 1;
            }
        },
        _ => {},
    }
    result
}

/// Whether the compiler can miss no more than one dialect, or misses that of the whole schema
/// first.
pub open spec fn settled(schema: JsonTree) -> bool {
    let names = identities(schema);
    ||| outsiders(schema, true, names).len() <= 1
    ||| text_member(schema, "$schema"@) matches Some(dialect) && !well_known(dialect)
}

/// What is said of a schema that its compiler would not follow to its end.
pub open spec fn unfollowed() -> Seq<char> {
    "schema cannot be followed to its end"@
}

/// What is said of a schema that needs something from outside.
pub open spec fn unretrieved(resource: Seq<char>) -> Seq<char> {
    "Resource '"@ + resource + retrieval_mark() + disabled(resource)
}

/// What the compiler says between a resource and why it could not be had.
pub open spec fn retrieval_mark() -> Seq<char> {
    "' is not present in a registry and retrieving it failed: "@
}

/// Why a resource from outside cannot be had.
pub open spec fn disabled(resource: Seq<char>) -> Seq<char> {
    "external schema reference is disabled: "@ + resource
}

/// Why a schema does not compile: it refers to something outside, cannot be followed to its end,
/// or is refused by the compiler.
pub open spec fn compiled_fault(schema: JsonTree) -> Option<Seq<char>> {
    let names = identities(schema);
    let references = outsiders(schema, false, names);
    if references.len() > 0 {
        Some(disabled(references[0]))
    } else if !grounded(schema) {
        Some(unfollowed())
    } else {
        match schema_fault(schema) {
            None => None,
            Some(message) => if settled(schema) {
                Some(message)
            } else {
                Some(unretrieved(outsiders(schema, true, names)[0]))
            },
        }
    }
}

/// Where a text holds another, from a place on.
pub open spec fn found_at(text: Seq<char>, wanted: Seq<char>, at: int) -> Option<int>
    decreases text.len() + 1 - at,
{
    if at < 0 || at > text.len() {
        None
    } else if begins(text.skip(at), wanted) {
        Some(at)
    } else {
        found_at(text, wanted, at + 1)
    }
}

/// A message of the compiler, with nothing from outside at hand: where it could not have a
/// resource by its own means, the reason is that such resources are disabled.
pub open spec fn reworded(message: Seq<char>) -> Seq<char> {
    let head = "Resource '"@;
    let mark = retrieval_mark();
    match found_at(message, mark, head.len() as int) {
        Some(at) => {
            let resource = message.subrange(head.len() as int, at);
            let cause = message.skip(at + mark.len());
            if begins(message, head) && (begins(cause, "`resolve-"@) || begins(
                cause,
                "Unknown scheme "@,
            )) {
                unretrieved(resource)
            } else {
                message
            }
        },
        None => message,
    }
}

/// Why a schema cannot be trusted: a reference that leaves it, or why it does not compile.
pub open spec fn trusted_schema_fault(schema: JsonTree) -> Option<Seq<char>> {
    match reference_fault(schema) {
        Some(fault) => Some(fault),
        None => match compiled_fault(schema) {
            Some(message) => Some(reworded(message)),
            None => None,
        },
    }
}

/// Why an instance does not conform to a schema: the schema cannot be trusted, or the first
/// violation.
pub open spec fn instance_fault(schema: JsonTree, instance: JsonTree) -> Option<Seq<char>> {
    match trusted_schema_fault(schema) {
        Some(fault) => Some(fault),
        None => schema_violation(schema, instance),
    }
}

fn text_after(all: &Vec<char>, start: usize) -> (result: String)
    requires
        start <= all@.len(),
    ensures
        result@ == all@.skip(start as int),
{
    text_between(all, start, all.len())
}

fn text_between(all: &Vec<char>, start: usize, end: usize) -> (result: String)
    requires
        start <= end <= all@.len(),
    ensures
        result@ == all@.subrange(start as int, end as int),
{
    let mut part: Vec<char> = Vec::new();
    let mut i: usize = start;
    while i < end
        invariant
            start <= i <= end <= all@.len(),
            part@ == all@.subrange(start as int, i as int),
        decreases end - i,
    {
        part.push(all[i]);
        assert(part@ =~= all@.subrange(start as int, i + 1));
        i += 1;
    }
    text_of(&part)
}

fn find_at(all: &Vec<char>, wanted: &str, start: usize) -> (result: Option<usize>)
    ensures
        match result {
            Some(at) => found_at(all@, wanted@, start as int) == Some(at as int) && start <= at
                <= all@.len() && at + wanted@.len() <= all@.len(),
            None => found_at(all@, wanted@, start as int) is None,
        },
{
    let mut at: usize = start;
    while at <= all.len()
        invariant
            start <= at,
            start <= all@.len() ==> at <= all@.len() + 1,
            found_at(all@, wanted@, start as int) == found_at(all@, wanted@, at as int),
        decreases all@.len() + 1 - at,
    {
        let rest = text_after(all, at);
        if text_begins(rest.as_str(), wanted) {
            return Some(at);
        }
        if at == all.len() {
            assert(found_at(all@, wanted@, at + 1) is None);
            return None;
        }
        at += 1;
    }
    None
}

fn reword(message: &str) -> (result: String)
    ensures
        result@ == reworded(message@),
{
    let head = "Resource '";
    let mark = "' is not present in a registry and retrieving it failed: ";
    let all = characters(message);
    let start: usize = characters(head).len();
    let width: usize = characters(mark).len();
    match find_at(&all, mark, start) {
        Some(at) => {
            assert(at + width <= all.len());
            let resource = text_between(&all, start, at);
            let cause = text_after(&all, at + width);
            if text_begins(message, head) && (text_begins(cause.as_str(), "`resolve-")
                || text_begins(cause.as_str(), "Unknown scheme ")) {
                return miss(resource.as_str());
            }
            message.to_owned()
        },
        None => message.to_owned(),
    }
}

fn disable(resource: &str) -> (result: String)
    ensures
        result@ == disabled(resource@),
{
    join2("external schema reference is disabled: ", resource)
}

fn miss(resource: &str) -> (result: String)
    ensures
        result@ == unretrieved(resource@),
{
    let head = join3(
        "Resource '",
        resource,
        "' is not present in a registry and retrieving it failed: ",
    );
    let cause = disable(resource);
    join2(head.as_str(), cause.as_str())
}

/// Checks that a schema compiles.
pub fn check_schema(schema: &Json) -> (result: Option<String>)
    ensures
        text_option(result) == compiled_fault(schema@),
{
    let names = find_identities(schema);
    let references = find_outsiders(schema, false, &names);
    assert(texts(references@).len() == references@.len());
    if references.len() > 0 {
        assert(texts(references@)[0] == references@[0]@);
        return Some(disable(references[0].as_str()));
    }
    if !is_grounded(schema) {
        return Some("schema cannot be followed to its end".to_owned());
    }
    match compile_schema(schema) {
        None => None,
        Some(message) => {
            let dialects = find_outsiders(schema, true, &names);
            assert(texts(dialects@).len() == dialects@.len());
            let unknown = match find_text(schema, "$schema") {
                Some(dialect) => !is_well_known(dialect.as_str()),
                None => false,
            };
            if dialects.len() <= 1 || unknown {
                Some(message)
            } else {
                assert(texts(dialects@)[0] == dialects@[0]@);
                Some(miss(dialects[0].as_str()))
            }
        },
    }
}

/// Checks that a schema compiles without any resource from outside.
pub fn compile_trusted_schema(schema: &Json) -> (result: Option<String>)
    ensures
        text_option(result) == trusted_schema_fault(schema@),
{
    if let Some(fault) = validate_schema_references(schema) {
        return Some(fault);
    }
    match check_schema(schema) {
        Some(message) => Some(reword(message.as_str())),
        None => None,
    }
}

/// Applies a schema that compiles.
pub fn find_violation(schema: &Json, instance: &Json) -> (result: Option<String>)
    ensures
        match compiled_fault(schema@) {
            Some(fault) => text_option(result) == Some(fault),
            None => text_option(result) == schema_violation(schema@, instance@),
        },
{
    match check_schema(schema) {
        Some(fault) => Some(fault),
        None => apply_schema(schema, instance),
    }
}

/// Why an instance does not conform to a schema.
pub fn validate_instance(schema: &Json, instance: &Json) -> (result: Option<String>)
    ensures
        text_option(result) == instance_fault(schema@, instance@),
{
    match compile_trusted_schema(schema) {
        Some(fault) => Some(fault),
        None => find_violation(schema, instance),
    }
}

} // verus!
