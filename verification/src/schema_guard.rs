//! Which schemas `jsonschema` can follow to their end.
//!
//! Its compiler follows references for as long as they lead on, and what it compiles late, while an
//! instance is judged, it takes to be well-formed. A schema is followed to its end where neither
//! goes wrong on any instance.

use crate::json::{member, Json, JsonTree};
use crate::schema_walk::{
    add_fragments, append_all, array_view, by_name, find_fragment, find_seats, find_seats_of,
    find_targets, follow, followed, fragment_of, has_char, holds, identifies, in_place,
    is_identifier, judges_by_name, judges_in_place, object_view, pairs, seats, seats_of, seen,
    targets, trees, with_fragments,
};
use crate::text::{characters, same_text, texts};
use vstd::prelude::*;

verus! {

/// For what a schema is looked through together with all that judges the same instance.
#[derive(Clone, Copy, Debug, PartialEq, Eq, Structural)]
pub enum Sweep {
    /// Whether it comes to an end.
    Judged,
    /// Also, which items it evaluates.
    Items,
    /// Also, which properties it evaluates, before any reference.
    Properties,
    /// The same, behind a reference: what stands there may be compiled late.
    Behind,
}

/// How the sweep goes on behind a reference.
pub open spec fn behind(sweep: Sweep) -> Sweep {
    match sweep {
        Sweep::Properties => Sweep::Behind,
        _ => sweep,
    }
}

/// Whether the items of a schema are counted without a fault: `items` holds a schema object or a
/// list, or stands beside `additionalItems`.
pub open spec fn items_counted(part: JsonTree) -> bool {
    match member(part, "items"@) {
        None => true,
        Some(items) => items is Object || items is Array || member(part, "additionalItems"@) is Some,
    }
}

/// Whether a character behind a backslash makes a pattern one that is matched by backtracking.
pub open spec fn hard_escape(escaped: char) -> bool {
    ('0' <= escaped <= '9') || escaped == 'b' || escaped == 'B' || escaped == 'k' || escaped == 'K'
        || escaped == 'g' || escaped == 'G' || escaped == '<' || escaped == '>'
}

/// Whether a character ends a repetition.
pub open spec fn repeats(character: char) -> bool {
    character == '*' || character == '+' || character == '?' || character == '}'
}

/// Whether a pattern is matched without backtracking, from a place on: it has no look-around, no
/// back-reference, no word boundary, no group that keeps what it took, and no repetition that
/// does. `repeated` says that a repetition ends right before the place.
pub open spec fn plain_from(pattern: Seq<char>, at: int, repeated: bool) -> bool
    decreases pattern.len() - at,
{
    if at < 0 || at >= pattern.len() {
        true
    } else if pattern[at] == '\\' {
        at + 1 >= pattern.len() || (!hard_escape(pattern[at + 1]) && plain_from(
            pattern,
            at + 2,
            false,
        ))
    } else if pattern[at] == '(' && at + 1 < pattern.len() && pattern[at + 1] == '?' {
        at + 2 < pattern.len() && pattern[at + 2] == ':' && plain_from(pattern, at + 3, false)
    } else {
        !(repeated && pattern[at] == '+') && plain_from(pattern, at + 1, repeats(pattern[at]))
    }
}

/// Whether the names of the first members are patterns that are matched without backtracking.
pub open spec fn names_plain(members: Seq<(Seq<char>, JsonTree)>, count: nat) -> bool
    decreases count,
{
    if 0 < count <= members.len() {
        names_plain(members, (count - 1) as nat) && plain_from(members[count - 1].0, 0, false)
    } else {
        true
    }
}

/// Whether every pattern for properties is matched without backtracking.
pub open spec fn patterns_plain(part: JsonTree) -> bool {
    match member(part, "patternProperties"@) {
        Some(JsonTree::Object(patterns)) => names_plain(patterns, patterns.len()),
        _ => true,
    }
}

/// Whether one of the first members gives its object an identifier.
pub open spec fn identified(members: Seq<(Seq<char>, JsonTree)>, count: nat) -> bool
    decreases count,
{
    if 0 < count <= members.len() {
        identified(members, (count - 1) as nat) || identifies(
            members[count - 1].0,
            members[count - 1].1,
        )
    } else {
        false
    }
}

/// Whether a schema has a condition from which nothing follows.
pub open spec fn idle_condition(part: JsonTree) -> bool {
    member(part, "if"@) is Some && member(part, "then"@) is None && member(part, "else"@) is None
}

/// Whether a schema object goes through a sweep by itself.
pub open spec fn passes(part: JsonTree, members: Seq<(Seq<char>, JsonTree)>, sweep: Sweep) -> bool {
    match sweep {
        Sweep::Judged => true,
        Sweep::Items => items_counted(part),
        Sweep::Properties => patterns_plain(part) && !identified(members, members.len()),
        Sweep::Behind => patterns_plain(part) && !identified(members, members.len())
            && !idle_condition(part),
    }
}

/// Whether a schema goes through a sweep, together with all that judges the same instance, in no
/// more than so many jumps.
pub open spec fn settles(document: JsonTree, schema: JsonTree, jumps: nat, sweep: Sweep) -> bool
    decreases jumps, schema, 1nat,
{
    match schema {
        JsonTree::Object(members) => passes(schema, members, sweep) && members_settle(
            document,
            members,
            jumps,
            sweep,
            members.len(),
        ),
        JsonTree::Array(items) => items_settle(document, items, jumps, sweep, items.len()),
        _ => true,
    }
}

/// Whether the first items settle.
pub open spec fn items_settle(
    document: JsonTree,
    items: Seq<JsonTree>,
    jumps: nat,
    sweep: Sweep,
    count: nat,
) -> bool
    decreases jumps, items, count,
{
    if 0 < count <= items.len() {
        items_settle(document, items, jumps, sweep, (count - 1) as nat) && settles(
            document,
            items[count - 1],
            jumps,
            sweep,
        )
    } else {
        true
    }
}

/// Whether the values of the first members settle.
pub open spec fn values_settle(
    document: JsonTree,
    members: Seq<(Seq<char>, JsonTree)>,
    jumps: nat,
    sweep: Sweep,
    count: nat,
) -> bool
    decreases jumps, members, count,
{
    if 0 < count <= members.len() {
        values_settle(document, members, jumps, sweep, (count - 1) as nat) && settles(
            document,
            members[count - 1].1,
            jumps,
            sweep,
        )
    } else {
        true
    }
}

/// Whether the first members of a schema settle.
pub open spec fn members_settle(
    document: JsonTree,
    members: Seq<(Seq<char>, JsonTree)>,
    jumps: nat,
    sweep: Sweep,
    count: nat,
) -> bool
    decreases jumps, members, count,
{
    if 0 < count <= members.len() {
        let (key, value) = members[count - 1];
        members_settle(document, members, jumps, sweep, (count - 1) as nat) && (match fragment_of(
            key,
            value,
        ) {
            Some(fragment) => jumps > 0 && list_settles(
                document,
                targets(document, fragment),
                (jumps - 1) as nat,
                behind(sweep),
            ),
            None => if judges_in_place(key) {
                settles(document, members[count - 1].1, jumps, sweep)
            } else if judges_by_name(key) {
                match members[count - 1].1 {
                    JsonTree::Object(inner) => values_settle(
                        document,
                        inner,
                        jumps,
                        sweep,
                        inner.len(),
                    ),
                    _ => true,
                }
            } else {
                true
            },
        })
    } else {
        true
    }
}

/// Whether every value of a list settles. What is compiled late for its properties must be an
/// object.
pub open spec fn list_settles(
    document: JsonTree,
    list: Seq<JsonTree>,
    jumps: nat,
    sweep: Sweep,
) -> bool
    decreases jumps, list, 2nat,
{
    forall|i: int|
        #![trigger list[i]]
        0 <= i < list.len() ==> (sweep == Sweep::Behind ==> list[i] is Object) && settles(
            document,
            list[i],
            jumps,
            sweep,
        )
}

fn count_items(part: &Json) -> (result: bool)
    ensures
        result == items_counted(part@),
{
    match part.member("items") {
        None => true,
        Some(items) => matches!(items, Json::Object(_) | Json::Array(_)) || part.member(
            "additionalItems",
        ).is_some(),
    }
}

fn is_plain(pattern: &str) -> (result: bool)
    ensures
        result == plain_from(pattern@, 0, false),
{
    let all = characters(pattern);
    let mut at: usize = 0;
    let mut repeated = false;
    while at < all.len()
        invariant
            all@ == pattern@,
            at <= all@.len(),
            plain_from(pattern@, 0, false) == plain_from(pattern@, at as int, repeated),
        decreases all@.len() - at,
    {
        let character = all[at];
        if character == '\\' {
            if all.len() - at < 2 {
                return true;
            }
            let escaped = all[at + 1];
            if ('0' <= escaped && escaped <= '9') || escaped == 'b' || escaped == 'B' || escaped
                == 'k' || escaped == 'K' || escaped == 'g' || escaped == 'G' || escaped == '<'
                || escaped == '>' {
                return false;
            }
            repeated = false;
            at += 2;
        } else if character == '(' && all.len() - at > 1 && all[at + 1] == '?' {
            if all.len() - at < 3 || all[at + 2] != ':' {
                return false;
            }
            repeated = false;
            at += 3;
        } else {
            if repeated && character == '+' {
                return false;
            }
            repeated = character == '*' || character == '+' || character == '?' || character == '}';
            at += 1;
        }
    }
    true
}

fn has_plain_patterns(part: &Json) -> (result: bool)
    ensures
        result == patterns_plain(part@),
{
    if let Some(value) = part.member("patternProperties") {
        if let Json::Object(patterns) = value {
            proof {
                object_view(*value);
            }
            let ghost all = pairs(patterns@);
            let mut plain = true;
            let mut i: usize = 0;
            while i < patterns.len()
                invariant
                    i <= patterns@.len(),
                    all == pairs(patterns@),
                    plain == names_plain(all, i as nat),
                decreases patterns@.len() - i,
            {
                assert(all[i as int].0 == patterns@[i as int].0@);
                plain = plain && is_plain(patterns[i].0.as_str());
                i += 1;
            }
            assert(all.len() == patterns@.len());
            assert(member(part@, "patternProperties"@) == Some(JsonTree::Object(all)));
            return plain;
        }
    }
    true
}

fn is_identified(members: &Vec<(String, Json)>) -> (result: bool)
    ensures
        result == identified(pairs(members@), members@.len()),
{
    let mut found = false;
    let mut i: usize = 0;
    while i < members.len()
        invariant
            i <= members@.len(),
            found == identified(pairs(members@), i as nat),
        decreases members@.len() - i,
    {
        assert(pairs(members@)[i as int] == (members@[i as int].0@, members@[i as int].1@));
        found = found || is_identifier(members[i].0.as_str(), &members[i].1);
        i += 1;
    }
    found
}

fn is_idle(part: &Json) -> (result: bool)
    ensures
        result == idle_condition(part@),
{
    part.member("if").is_some() && part.member("then").is_none() && part.member("else").is_none()
}

fn does_pass(part: &Json, members: &Vec<(String, Json)>, sweep: Sweep) -> (result: bool)
    ensures
        result == passes(part@, pairs(members@), sweep),
{
    match sweep {
        Sweep::Judged => true,
        Sweep::Items => count_items(part),
        Sweep::Properties => has_plain_patterns(part) && !is_identified(members),
        Sweep::Behind => has_plain_patterns(part) && !is_identified(members) && !is_idle(part),
    }
}

fn sweep_behind(sweep: Sweep) -> (result: Sweep)
    ensures
        result == behind(sweep),
{
    match sweep {
        Sweep::Properties => Sweep::Behind,
        other => other,
    }
}

fn do_settle(document: &Json, schema: &Json, jumps: usize, sweep: Sweep) -> (result: bool)
    ensures
        result == settles(document@, schema@, jumps as nat, sweep),
    decreases jumps, schema, 1nat,
{
    match schema {
        Json::Object(members) => {
            proof {
                object_view(*schema);
            }
            does_pass(schema, members, sweep) && do_members_settle(document, schema, jumps, sweep)
        },
        Json::Array(items) => {
            proof {
                array_view(*schema);
            }
            let mut settled = true;
            let mut i: usize = 0;
            while i < items.len()
                invariant
                    i <= items@.len(),
                    *schema == Json::Array(*items),
                    settled == items_settle(
                        document@,
                        trees(items@),
                        jumps as nat,
                        sweep,
                        i as nat,
                    ),
                decreases items@.len() - i,
            {
                assert(*items == schema->Array_0);
                assert(trees(items@)[i as int] == items@[i as int]@);
                settled = settled && do_settle(document, &items[i], jumps, sweep);
                i += 1;
            }
            settled
        },
        _ => true,
    }
}

fn do_members_settle(document: &Json, schema: &Json, jumps: usize, sweep: Sweep) -> (result: bool)
    ensures
        result == (match schema@ {
            JsonTree::Object(members) => members_settle(
                document@,
                members,
                jumps as nat,
                sweep,
                members.len(),
            ),
            _ => true,
        }),
    decreases jumps, schema, 0nat,
{
    let mut settled = true;
    if let Json::Object(members) = schema {
        proof {
            object_view(*schema);
        }
        let mut i: usize = 0;
        while i < members.len()
            invariant
                i <= members@.len(),
                *schema == Json::Object(*members),
                settled == members_settle(
                    document@,
                    pairs(members@),
                    jumps as nat,
                    sweep,
                    i as nat,
                ),
            decreases members@.len() - i,
        {
            assert(*members == schema->Object_0);
            let key = members[i].0.as_str();
            let value = &members[i].1;
            assert(pairs(members@)[i as int] == (key@, value@));
            if settled {
                settled = match find_fragment(key, value) {
                    Some(fragment) => {
                        let next = sweep_behind(sweep);
                        let mut through = jumps > 0;
                        if through {
                            let list = find_targets(document, fragment.as_str());
                            let ghost all = targets(document@, fragment@);
                            let mut k: usize = 0;
                            while k < list.len()
                                invariant
                                    k <= list@.len(),
                                    jumps > 0,
                                    seen(list@) == all,
                                    through <==> forall|j: int|
                                        #![trigger all[j]]
                                        0 <= j < k ==> (next == Sweep::Behind ==> all[j] is Object)
                                            && settles(
                                            document@,
                                            all[j],
                                            (jumps - 1) as nat,
                                            next,
                                        ),
                                decreases list@.len() - k,
                            {
                                assert(all[k as int] == list@[k as int]@);
                                let item = list[k];
                                let object = matches!(item, Json::Object(_));
                                assert(object == (all[k as int] is Object));
                                through = through && (next != Sweep::Behind || object)
                                    && do_settle(document, item, jumps - 1, next);
                                k += 1;
                            }
                            assert(through == list_settles(
                                document@,
                                all,
                                (jumps - 1) as nat,
                                next,
                            ));
                        }
                        through
                    },
                    None => if in_place(key) {
                        do_settle(document, value, jumps, sweep)
                    } else if by_name(key) {
                        do_values_settle(document, value, jumps, sweep)
                    } else {
                        true
                    },
                };
            }
            i += 1;
        }
    }
    settled
}

fn do_values_settle(document: &Json, value: &Json, jumps: usize, sweep: Sweep) -> (result: bool)
    ensures
        result == (match value@ {
            JsonTree::Object(inner) => values_settle(
                document@,
                inner,
                jumps as nat,
                sweep,
                inner.len(),
            ),
            _ => true,
        }),
    decreases jumps, value, 0nat,
{
    let mut settled = true;
    if let Json::Object(members) = value {
        proof {
            object_view(*value);
        }
        let mut i: usize = 0;
        while i < members.len()
            invariant
                i <= members@.len(),
                *value == Json::Object(*members),
                settled == values_settle(
                    document@,
                    pairs(members@),
                    jumps as nat,
                    sweep,
                    i as nat,
                ),
            decreases members@.len() - i,
        {
            assert(*members == value->Object_0);
            assert(pairs(members@)[i as int] == (members@[i as int].0@, members@[i as int].1@));
            settled = settled && do_settle(document, &members[i].1, jumps, sweep);
            i += 1;
        }
    }
    settled
}

/// Whether a schema looks at what the member `key` says of parts that nothing else evaluated.
pub open spec fn filters(part: JsonTree, key: Seq<char>) -> bool {
    match member(part, key) {
        None => false,
        Some(JsonTree::Bool(value)) => !value,
        Some(_) => true,
    }
}

/// Whether recursion may start from a schema that refers to another by itself: such a reference
/// is followed anew each time.
pub open spec fn reopens(part: JsonTree) -> bool {
    member(part, "$recursiveAnchor"@) == Some(JsonTree::Bool(true)) && (member(part, "$ref"@) is Some
        || member(part, "$dynamicRef"@) is Some)
}

/// Whether the members of a schema settle.
pub open spec fn object_settles(document: JsonTree, part: JsonTree, jumps: nat, sweep: Sweep) -> bool {
    match part {
        JsonTree::Object(members) => members_settle(document, members, jumps, sweep, members.len()),
        _ => true,
    }
}

/// Whether a compiled schema is followed to its end. `dated` says that a schema of the document
/// follows the dialect of 2019-09.
pub open spec fn place_fits(document: JsonTree, part: JsonTree, jumps: nat, dated: bool) -> bool {
    &&& object_settles(document, part, jumps, Sweep::Judged)
    &&& !reopens(part)
    &&& dated && filters(part, "unevaluatedItems"@) ==> items_counted(part) && object_settles(
        document,
        part,
        jumps,
        Sweep::Items,
    )
    &&& filters(part, "unevaluatedProperties"@) ==> patterns_plain(part) && object_settles(
        document,
        part,
        jumps,
        Sweep::Properties,
    )
}

fn does_filter(part: &Json, key: &str) -> (result: bool)
    ensures
        result == filters(part@, key@),
{
    match part.member(key) {
        None => false,
        Some(Json::Bool(value)) => !*value,
        Some(_) => true,
    }
}

fn does_reopen(part: &Json) -> (result: bool)
    ensures
        result == reopens(part@),
{
    let anchored = match part.member("$recursiveAnchor") {
        Some(Json::Bool(value)) => *value,
        _ => false,
    };
    anchored && (part.member("$ref").is_some() || part.member("$dynamicRef").is_some())
}

fn fits_place(document: &Json, part: &Json, jumps: usize, dated: bool) -> (result: bool)
    ensures
        result == place_fits(document@, part@, jumps as nat, dated),
{
    do_members_settle(document, part, jumps, Sweep::Judged) && !does_reopen(part) && (!(dated
        && does_filter(part, "unevaluatedItems")) || (count_items(part) && do_members_settle(
        document,
        part,
        jumps,
        Sweep::Items,
    ))) && (!does_filter(part, "unevaluatedProperties") || (has_plain_patterns(part)
        && do_members_settle(document, part, jumps, Sweep::Properties)))
}

/// A text without the `#` at its end.
pub open spec fn unhashed(text: Seq<char>) -> Seq<char>
    decreases text.len(),
{
    if text.len() > 0 && text.last() == '#' {
        unhashed(text.drop_last())
    } else {
        text
    }
}

/// Whether a text has a colon before any slash, from a place on.
pub open spec fn colon_first(text: Seq<char>, at: int) -> bool
    decreases text.len() - at,
{
    if at < 0 || at >= text.len() {
        false
    } else if text[at] == ':' {
        true
    } else {
        text[at] != '/' && colon_first(text, at + 1)
    }
}

/// Whether an identifier, resolved against what it resolves to, stays what it is: it has a scheme,
/// begins at a root, or is a single name.
pub open spec fn steady(id: Seq<char>) -> bool {
    let own = unhashed(id);
    ||| own.len() == 0
    ||| own[0] == '#'
    ||| !holds(own, '#') && (colon_first(own, 0) || own[0] == '/' || (!holds(own, '/') && own != "."@
        && own != ".."@))
}

/// The text that the member `key` of a value holds.
pub open spec fn text_member(part: JsonTree, key: Seq<char>) -> Option<Seq<char>> {
    match member(part, key) {
        Some(JsonTree::Text(text)) => Some(text),
        _ => None,
    }
}

/// Whether the identifiers of a schema are steady.
pub open spec fn steadily_named(part: JsonTree) -> bool {
    (text_member(part, "$id"@) matches Some(id) ==> steady(id)) && (text_member(part, "id"@) matches
        Some(id) ==> steady(id))
}

/// The dialect of a document.
pub open spec fn dialect_of(document: JsonTree) -> Seq<char> {
    match text_member(document, "$schema"@) {
        Some(dialect) => dialect,
        None => "https://json-schema.org/draft/2020-12/schema"@,
    }
}

/// Whether a schema follows this dialect, as far as it says.
pub open spec fn follows(part: JsonTree, dialect: Seq<char>) -> bool {
    text_member(part, "$schema"@) matches Some(own) ==> own == dialect
}

/// Whether a schema says that it follows the dialect of 2019-09.
pub open spec fn is_dated(part: JsonTree) -> bool {
    text_member(part, "$schema"@) matches Some(own) && unhashed(own)
        == "https://json-schema.org/draft/2019-09/schema"@
}

/// The identifier of a document.
pub open spec fn identity_of(document: JsonTree) -> Option<Seq<char>> {
    match text_member(document, "$id"@) {
        Some(id) => Some(id),
        None => text_member(document, "id"@),
    }
}

/// Whether a schema has no identifier but this one.
pub open spec fn identified_as(part: JsonTree, identity: Option<Seq<char>>) -> bool {
    (text_member(part, "$id"@) matches Some(id) ==> identity == Some(id)) && (text_member(
        part,
        "id"@,
    ) matches Some(id) ==> identity == Some(id))
}

/// Whether what a schema refers to depends on where it was reached from.
pub open spec fn is_dynamic(part: JsonTree) -> bool {
    member(part, "$dynamicRef"@) is Some || member(part, "$recursiveRef"@) is Some
}

/// The fragments that are followed from a document.
pub open spec fn live(document: JsonTree) -> Seq<Seq<char>> {
    let own = seats(document, false);
    followed(
        document,
        with_fragments(Seq::empty(), own, own.len()),
        0,
        usize::MAX as nat,
    )
}

/// The schemas of a document that its compiler may come to. `kept` takes along those that it knows
/// of besides.
pub open spec fn places(document: JsonTree, kept: bool) -> Seq<JsonTree> {
    seats(document, kept) + seats_of(document, live(document), kept, live(document).len())
}

/// Whether one of the first schemas follows the dialect of 2019-09.
pub open spec fn any_dated(parts: Seq<JsonTree>, count: nat) -> bool
    decreases count,
{
    0 < count <= parts.len() && (any_dated(parts, (count - 1) as nat) || is_dated(parts[count - 1]))
}

/// Whether one of the first schemas refers by where it was reached from.
pub open spec fn any_dynamic(parts: Seq<JsonTree>, count: nat) -> bool
    decreases count,
{
    0 < count <= parts.len() && (any_dynamic(parts, (count - 1) as nat) || is_dynamic(
        parts[count - 1],
    ))
}

/// Whether `jsonschema` follows a schema to its end, whatever the instance: every compiled schema
/// fits; where something is referred to, identifiers are steady and one dialect is followed; and
/// where that depends on where it was reached from, there is one identifier at most.
pub open spec fn grounded(schema: JsonTree) -> bool {
    let compiled = places(schema, false);
    let known = places(schema, true);
    let jumps = live(schema).len();
    &&& forall|i: int|
        #![trigger compiled[i]]
        0 <= i < compiled.len() ==> place_fits(
            schema,
            compiled[i],
            jumps,
            any_dated(known, known.len()),
        )
    &&& jumps > 0 ==> forall|i: int|
        #![trigger known[i]]
        0 <= i < known.len() ==> steadily_named(known[i]) && follows(known[i], dialect_of(schema))
    &&& any_dynamic(compiled, compiled.len()) ==> forall|i: int|
        #![trigger known[i]]
        0 <= i < known.len() ==> identified_as(known[i], identity_of(schema))
}

fn is_steady(id: &str) -> (result: bool)
    ensures
        result == steady(id@),
{
    let own = strip_hashes(id);
    let all = characters(own.as_str());
    if all.len() == 0 || all[0] == '#' {
        return true;
    }
    if has_char(own.as_str(), '#') {
        return false;
    }
    has_colon_first(own.as_str()) || all[0] == '/' || (!has_char(own.as_str(), '/') && !same_text(
        own.as_str(),
        ".",
    ) && !same_text(own.as_str(), ".."))
}

fn strip_hashes(text: &str) -> (result: String)
    ensures
        result@ == unhashed(text@),
{
    let mut all = characters(text);
    while all.len() > 0 && all[all.len() - 1] == '#'
        invariant
            unhashed(text@) == unhashed(all@),
        decreases all@.len(),
    {
        let ghost before = all@;
        let _ = all.pop();
        assert(all@ =~= before.drop_last());
    }
    crate::text::text_of(&all)
}

pub(crate) fn has_colon_first(text: &str) -> (result: bool)
    ensures
        result == colon_first(text@, 0),
{
    let all = characters(text);
    let mut i: usize = 0;
    while i < all.len()
        invariant
            i <= all@.len(),
            all@ == text@,
            colon_first(text@, 0) == colon_first(text@, i as int),
        decreases all@.len() - i,
    {
        if all[i] == ':' {
            return true;
        }
        if all[i] == '/' {
            return false;
        }
        i += 1;
    }
    false
}

pub(crate) fn find_text<'a>(part: &'a Json, key: &str) -> (result: Option<&'a String>)
    ensures
        match result {
            Some(text) => text_member(part@, key@) == Some(text@),
            None => text_member(part@, key@) is None,
        },
{
    match part.member(key) {
        Some(Json::Text(text)) => Some(text),
        _ => None,
    }
}

fn is_steadily_named(part: &Json) -> (result: bool)
    ensures
        result == steadily_named(part@),
{
    let first = match find_text(part, "$id") {
        Some(id) => is_steady(id.as_str()),
        None => true,
    };
    let second = match find_text(part, "id") {
        Some(id) => is_steady(id.as_str()),
        None => true,
    };
    first && second
}

fn does_follow(part: &Json, dialect: &str) -> (result: bool)
    ensures
        result == follows(part@, dialect@),
{
    match find_text(part, "$schema") {
        Some(own) => same_text(own.as_str(), dialect),
        None => true,
    }
}

fn has_identity(part: &Json, key: &str, identity: Option<&String>) -> (result: bool)
    ensures
        result == (text_member(part@, key@) matches Some(id) ==> (match identity {
            Some(own) => id == own@,
            None => false,
        })),
{
    match find_text(part, key) {
        Some(id) => match identity {
            Some(own) => same_text(id.as_str(), own.as_str()),
            None => false,
        },
        None => true,
    }
}

fn find_places<'a>(document: &'a Json, fragments: &Vec<String>, kept: bool) -> (result: Vec<
    &'a Json,
>)
    requires
        texts(fragments@) == live(document@),
    ensures
        seen(result@) == places(document@, kept),
{
    let mut result = find_seats(document, kept);
    let more = find_seats_of(document, fragments, kept);
    append_all(&mut result, &more);
    assert(texts(fragments@).len() == fragments@.len());
    result
}

fn find_dated(parts: &Vec<&Json>) -> (result: bool)
    ensures
        result == any_dated(seen(parts@), parts@.len()),
{
    let mut found = false;
    let mut i: usize = 0;
    while i < parts.len()
        invariant
            i <= parts@.len(),
            found == any_dated(seen(parts@), i as nat),
        decreases parts@.len() - i,
    {
        assert(seen(parts@)[i as int] == parts@[i as int]@);
        let here = match find_text(parts[i], "$schema") {
            Some(own) => {
                let plain = strip_hashes(own.as_str());
                same_text(plain.as_str(), "https://json-schema.org/draft/2019-09/schema")
            },
            None => false,
        };
        found = found || here;
        i += 1;
    }
    found
}

fn find_dynamic(parts: &Vec<&Json>) -> (result: bool)
    ensures
        result == any_dynamic(seen(parts@), parts@.len()),
{
    let mut found = false;
    let mut i: usize = 0;
    while i < parts.len()
        invariant
            i <= parts@.len(),
            found == any_dynamic(seen(parts@), i as nat),
        decreases parts@.len() - i,
    {
        assert(seen(parts@)[i as int] == parts@[i as int]@);
        found = found || parts[i].member("$dynamicRef").is_some() || parts[i].member(
            "$recursiveRef",
        ).is_some();
        i += 1;
    }
    found
}

fn find_live(document: &Json) -> (result: Vec<String>)
    ensures
        texts(result@) == live(document@),
{
    let own = find_seats(document, false);
    let mut start: Vec<String> = Vec::new();
    assert(texts(start@) =~= Seq::empty());
    assert(seen(own@).len() == own@.len());
    add_fragments(&mut start, &own);
    follow(document, start, usize::MAX)
}

/// The schemas of a document that its compiler knows of.
pub(crate) fn find_known(document: &Json) -> (result: Vec<&Json>)
    ensures
        seen(result@) == places(document@, true),
{
    let fragments = find_live(document);
    find_places(document, &fragments, true)
}

/// Whether `jsonschema` follows a schema to its end, whatever the instance.
pub fn is_grounded(schema: &Json) -> (result: bool)
    ensures
        result == grounded(schema@),
{
    let fragments = find_live(schema);
    let compiled = find_places(schema, &fragments, false);
    let known = find_places(schema, &fragments, true);
    let ghost compiled_all = places(schema@, false);
    let ghost known_all = places(schema@, true);
    assert(texts(fragments@).len() == fragments@.len());
    assert(seen(compiled@).len() == compiled@.len());
    assert(seen(known@).len() == known@.len());
    let jumps: usize = fragments.len();
    let dated = find_dated(&known);
    let mut fits = true;
    let mut i: usize = 0;
    while i < compiled.len()
        invariant
            i <= compiled@.len(),
            seen(compiled@) == compiled_all,
            fits <==> forall|j: int|
                #![trigger compiled_all[j]]
                0 <= j < i ==> place_fits(schema@, compiled_all[j], jumps as nat, dated),
        decreases compiled@.len() - i,
    {
        assert(compiled_all[i as int] == compiled@[i as int]@);
        fits = fits && fits_place(schema, compiled[i], jumps, dated);
        i += 1;
    }
    let dynamic = find_dynamic(&compiled);
    let identity = match find_text(schema, "$id") {
        Some(id) => Some(id),
        None => find_text(schema, "id"),
    };
    let fallback = "https://json-schema.org/draft/2020-12/schema".to_owned();
    let dialect = match find_text(schema, "$schema") {
        Some(dialect) => dialect.as_str(),
        None => fallback.as_str(),
    };
    let mut named = true;
    let mut single = true;
    let mut k: usize = 0;
    while k < known.len()
        invariant
            k <= known@.len(),
            seen(known@) == known_all,
            dialect@ == dialect_of(schema@),
            identity_of(schema@) == (match identity {
                Some(own) => Some(own@),
                None => None,
            }),
            named <==> forall|j: int|
                #![trigger known_all[j]]
                0 <= j < k ==> steadily_named(known_all[j]) && follows(
                    known_all[j],
                    dialect_of(schema@),
                ),
            single <==> forall|j: int|
                #![trigger known_all[j]]
                0 <= j < k ==> identified_as(known_all[j], identity_of(schema@)),
        decreases known@.len() - k,
    {
        assert(known_all[k as int] == known@[k as int]@);
        named = named && is_steadily_named(known[k]) && does_follow(known[k], dialect);
        single = single && has_identity(known[k], "$id", identity) && has_identity(
            known[k],
            "id",
            identity,
        );
        k += 1;
    }
    fits && (jumps == 0 || named) && (!dynamic || single)
}

} // verus!
