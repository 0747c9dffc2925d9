//! JSON pointers: `/a/0/b` names a place inside a value.
//!
//! Places are found by `serde_json`; what it finds is stated here. The names along a pointer are
//! also read here, for the references of schemas.

use crate::json::{json_from_value, last_member, member, value_from_json, Json, JsonTree};
use crate::text::{characters, text_of, texts};
use vstd::prelude::*;

verus! {

/// The texts between the slashes of `rest`, the first of them continuing `current`.
pub open spec fn tokens_from(rest: Seq<char>, current: Seq<char>) -> Seq<Seq<char>>
    decreases rest.len(),
{
    if rest.len() == 0 {
        seq![current]
    } else if rest[0] == '/' {
        seq![current] + tokens_from(rest.drop_first(), Seq::empty())
    } else {
        tokens_from(rest.drop_first(), current.push(rest[0]))
    }
}

/// A token with `~1` read as a slash and `~0` read as a tilde.
pub open spec fn unescaped(token: Seq<char>) -> Seq<char>
    decreases token.len(),
{
    if token.len() == 0 {
        Seq::empty()
    } else if token.len() >= 2 && token[0] == '~' && token[1] == '1' {
        seq!['/'] + unescaped(token.skip(2))
    } else if token.len() >= 2 && token[0] == '~' && token[1] == '0' {
        seq!['~'] + unescaped(token.skip(2))
    } else {
        seq![token[0]] + unescaped(token.drop_first())
    }
}

/// The names along a pointer; `None` where the text is no pointer.
pub open spec fn pointer_path(pointer: Seq<char>) -> Option<Seq<Seq<char>>> {
    if pointer.len() == 0 {
        Some(Seq::empty())
    } else if pointer[0] != '/' {
        None
    } else {
        Some(
            tokens_from(pointer.drop_first(), Seq::empty()).map_values(
                |token: Seq<char>| unescaped(token),
            ),
        )
    }
}

/// The value of a digit.
pub open spec fn digit_value(digit: char) -> Option<nat> {
    if '0' <= digit <= '9' {
        Some((digit as u32 - '0' as u32) as nat)
    } else {
        None
    }
}

/// The number that decimal digits write.
pub open spec fn digits_value(digits: Seq<char>) -> Option<nat>
    decreases digits.len(),
{
    if digits.len() == 0 {
        Some(0)
    } else {
        match (digits_value(digits.drop_last()), digit_value(digits.last())) {
            (Some(high), Some(low)) => Some(high * 10 + low),
            _ => None,
        }
    }
}

/// The array position that a name stands for: decimal digits without a leading zero, of a
/// number that a machine word holds.
pub open spec fn array_index(name: Seq<char>) -> Option<nat> {
    if name.len() == 0 || (name[0] == '0' && name.len() != 1) {
        None
    } else {
        match digits_value(name) {
            Some(value) => if value <= usize::MAX {
                Some(value)
            } else {
                None
            },
            None => None,
        }
    }
}

fn unescape(token: &Vec<char>) -> (result: String)
    ensures
        result@ == unescaped(token@),
{
    let mut plain: Vec<char> = Vec::new();
    let mut i: usize = 0;
    assert(token@.skip(0) =~= token@);
    while i < token.len()
        invariant
            i <= token@.len(),
            unescaped(token@) == plain@ + unescaped(token@.skip(i as int)),
        decreases token@.len() - i,
    {
        let ghost rest = token@.skip(i as int);
        if i + 1 < token.len() && token[i] == '~' && token[i + 1] == '1' {
            plain.push('/');
            i += 2;
            proof {
                assert(rest.skip(2) =~= token@.skip(i as int));
                assert(unescaped(token@) =~= plain@ + unescaped(token@.skip(i as int)));
            }
        } else if i + 1 < token.len() && token[i] == '~' && token[i + 1] == '0' {
            plain.push('~');
            i += 2;
            proof {
                assert(rest.skip(2) =~= token@.skip(i as int));
                assert(unescaped(token@) =~= plain@ + unescaped(token@.skip(i as int)));
            }
        } else {
            plain.push(token[i]);
            i += 1;
            proof {
                assert(rest.drop_first() =~= token@.skip(i as int));
                assert(unescaped(token@) =~= plain@ + unescaped(token@.skip(i as int)));
            }
        }
    }
    assert(token@.skip(i as int) =~= Seq::empty());
    assert(plain@ + unescaped(Seq::<char>::empty()) =~= plain@);
    text_of(&plain)
}

/// The names along a pointer.
pub fn parse_pointer(pointer: &str) -> (result: Option<Vec<String>>)
    ensures
        match result {
            Some(path) => pointer_path(pointer@) == Some(texts(path@)),
            None => pointer_path(pointer@) is None,
        },
{
    let all = characters(pointer);
    let mut path: Vec<String> = Vec::new();
    if all.len() == 0 {
        assert(texts(path@) =~= Seq::empty());
        return Some(path);
    }
    if all[0] != '/' {
        return None;
    }
    let ghost unescape_all = |token: Seq<char>| unescaped(token);
    let ghost whole = tokens_from(pointer@.drop_first(), Seq::empty());
    let mut current: Vec<char> = Vec::new();
    let mut i: usize = 1;
    assert(pointer@.skip(1) =~= pointer@.drop_first());
    assert(texts(path@) =~= Seq::empty());
    let ghost mut done: Seq<Seq<char>> = Seq::empty();
    while i < all.len()
        invariant
            1 <= i <= all@.len(),
            all@ == pointer@,
            whole == done + tokens_from(pointer@.skip(i as int), current@),
            texts(path@) =~= done.map_values(unescape_all),
            unescape_all == (|token: Seq<char>| unescaped(token)),
        decreases all@.len() - i,
    {
        let ghost rest = pointer@.skip(i as int);
        assert(rest.drop_first() =~= pointer@.skip(i as int + 1));
        if all[i] == '/' {
            let ghost before = texts(path@);
            path.push(unescape(&current));
            proof {
                assert(texts(path@) =~= before.push(unescaped(current@)));
                let extended = done.push(current@);
                assert(done + tokens_from(rest, current@) =~= extended + tokens_from(
                    rest.drop_first(),
                    Seq::empty(),
                ));
                done = extended;
            }
            current = Vec::new();
            assert(current@ =~= Seq::empty());
        } else {
            current.push(all[i]);
        }
        i += 1;
    }
    let ghost before = texts(path@);
    path.push(unescape(&current));
    proof {
        assert(texts(path@) =~= before.push(unescaped(current@)));
        assert(pointer@.skip(i as int) =~= Seq::empty());
        assert(whole =~= done.push(current@));
        assert(texts(path@) =~= whole.map_values(unescape_all));
    }
    Some(path)
}

/// The array position that a name stands for.
pub(crate) fn index_of(name: &str) -> (result: Option<usize>)
    ensures
        match result {
            Some(index) => array_index(name@) == Some(index as nat),
            None => array_index(name@) is None,
        },
{
    let all = characters(name);
    if all.len() == 0 || (all[0] == '0' && all.len() != 1) {
        return None;
    }
    let mut value: usize = 0;
    let mut i: usize = 0;
    while i < all.len()
        invariant
            i <= all@.len(),
            all@ == name@,
            digits_value(name@.take(i as int)) == Some(value as nat),
        decreases all@.len() - i,
    {
        let digit = all[i];
        let ghost longer = name@.take(i as int + 1);
        assert(longer.drop_last() =~= name@.take(i as int));
        if !('0' <= digit && digit <= '9') {
            proof {
                digits_value_needs_all(name@, i as nat + 1);
            }
            return None;
        }
        let low: usize = (digit as u32 - '0' as u32) as usize;
        if value > (usize::MAX - low) / 10 {
            proof {
                assert(digits_value(longer) == Some((value * 10 + low) as nat));
                assert(value * 10 + low > usize::MAX) by (nonlinear_arith)
                    requires
                        value > (usize::MAX - low) / 10,
                        0 <= low <= 9,
                        usize::MAX >= 9,
                ;
                digits_value_grows(name@, i as nat + 1);
            }
            return None;
        }
        assert(value * 10 + low <= usize::MAX) by (nonlinear_arith)
            requires
                value <= (usize::MAX - low) / 10,
                0 <= low <= 9,
                usize::MAX >= 9,
        ;
        value = value * 10 + low;
        i += 1;
    }
    assert(name@.take(name@.len() as int) =~= name@);
    Some(value)
}

proof fn digits_value_needs_all(digits: Seq<char>, count: nat)
    requires
        count <= digits.len(),
        digits_value(digits.take(count as int)) is None,
    ensures
        digits_value(digits) is None,
    decreases digits.len(),
{
    if count < digits.len() {
        assert(digits.drop_last().take(count as int) =~= digits.take(count as int));
        digits_value_needs_all(digits.drop_last(), count);
    } else {
        assert(digits.take(count as int) =~= digits);
    }
}

proof fn digits_value_grows(digits: Seq<char>, count: nat)
    requires
        count <= digits.len(),
        digits_value(digits.take(count as int)) is Some,
        digits_value(digits.take(count as int))->0 > usize::MAX,
    ensures
        digits_value(digits) is Some ==> digits_value(digits)->0 > usize::MAX,
    decreases digits.len(),
{
    if count < digits.len() {
        assert(digits.drop_last().take(count as int) =~= digits.take(count as int));
        digits_value_grows(digits.drop_last(), count);
    } else {
        assert(digits.take(count as int) =~= digits);
    }
}

/// How `serde_json` holds a value: numbers as it writes them, and the members of objects once and
/// in its order. Which text it writes for a number, and what the order is, is left open.
pub uninterp spec fn held(value: JsonTree) -> JsonTree;

/// Whether one value holds what another does: they differ at most in how numbers are written, in
/// the order of members, and in members that do not count because another of their name follows.
/// What is written as a number and is none reads as `null`.
pub open spec fn alike(value: JsonTree, other: JsonTree) -> bool
    decreases value,
{
    match (value, other) {
        (JsonTree::Number(_), JsonTree::Number(_)) => true,
        (JsonTree::Number(_), JsonTree::Null) => true,
        (JsonTree::Array(items), JsonTree::Array(others)) => items.len() == others.len()
            && forall|i: int|
            #![trigger items[i]]
            0 <= i < items.len() ==> alike(items[i], others[i]),
        (JsonTree::Object(members), JsonTree::Object(_)) => {
            &&& forall|key: Seq<char>| #[trigger]
                member(other, key) is Some ==> member(value, key) is Some
            &&& forall|i: int|
                #![trigger members[i]]
                0 <= i < members.len() && last_member(members, members[i].0, members.len()) == Some(
                    i as nat,
                ) ==> (member(other, members[i].0) matches Some(kept) && alike(members[i].1, kept))
        },
        _ => value == other,
    }
}

/// What stands under a name in an object, or at its position in an array.
pub open spec fn inner(value: JsonTree, name: Seq<char>) -> Option<JsonTree> {
    match value {
        JsonTree::Array(items) => match array_index(name) {
            Some(index) => if index < items.len() {
                Some(items[index as int])
            } else {
                None
            },
            None => None,
        },
        _ => member(value, name),
    }
}

/// What stands at the end of a path.
pub open spec fn along(value: JsonTree, path: Seq<Seq<char>>) -> Option<JsonTree>
    decreases path.len(),
{
    if path.len() == 0 {
        Some(value)
    } else {
        match inner(value, path[0]) {
            Some(next) => along(next, path.drop_first()),
            None => None,
        }
    }
}

/// A value with what stands under a name replaced.
pub open spec fn replaced(value: JsonTree, name: Seq<char>, with: JsonTree) -> JsonTree {
    match value {
        JsonTree::Array(items) => match array_index(name) {
            Some(index) => JsonTree::Array(items.update(index as int, with)),
            None => value,
        },
        JsonTree::Object(members) => match last_member(members, name, members.len()) {
            Some(index) => JsonTree::Object(members.update(index as int, (name, with))),
            None => value,
        },
        _ => value,
    }
}

/// A value with what stands at the end of a path replaced.
pub open spec fn rewritten(value: JsonTree, path: Seq<Seq<char>>, with: JsonTree) -> JsonTree
    decreases path.len(),
{
    if path.len() == 0 {
        with
    } else {
        match inner(value, path[0]) {
            Some(next) => replaced(value, path[0], rewritten(next, path.drop_first(), with)),
            None => value,
        }
    }
}

/// What a pointer names in a value, as `serde_json` holds it.
pub open spec fn pointed(value: JsonTree, pointer: Seq<char>) -> Option<JsonTree> {
    match pointer_path(pointer) {
        Some(path) => match along(value, path) {
            Some(found) => Some(held(found)),
            None => None,
        },
        None => None,
    }
}

/// A value with what a pointer names replaced, as `serde_json` holds it.
pub open spec fn placed(value: JsonTree, pointer: Seq<char>, with: JsonTree) -> Option<JsonTree> {
    match pointer_path(pointer) {
        Some(path) => if along(value, path) is Some {
            Some(held(rewritten(value, path, with)))
        } else {
            None
        },
        None => None,
    }
}

/// Whether a value is alike what a pointer names.
pub open spec fn found_alike(value: JsonTree, pointer: Seq<char>, found: JsonTree) -> bool {
    pointer_path(pointer) matches Some(path) && along(value, path) matches Some(there) && alike(
        there,
        found,
    )
}

/// Whether a value is alike another in which what a pointer names was replaced.
pub open spec fn written_alike(
    value: JsonTree,
    pointer: Seq<char>,
    with: JsonTree,
    written: JsonTree,
) -> bool {
    pointer_path(pointer) matches Some(path) && alike(rewritten(value, path, with), written)
}

/// What a path leads to, as `serde_json` holds it.
pub open spec fn read_along(value: JsonTree, path: Seq<Seq<char>>) -> Option<JsonTree> {
    match along(value, path) {
        Some(found) => Some(held(found)),
        None => None,
    }
}

/// Whether every place of a value is held as the same place of another, in which what a pointer
/// names was replaced.
pub open spec fn places_written(
    value: JsonTree,
    pointer: Seq<char>,
    with: JsonTree,
    written: JsonTree,
) -> bool {
    pointer_path(pointer) matches Some(target) && forall|path: Seq<Seq<char>>|
        #![trigger along(written, path)]
        along(written, path) == read_along(rewritten(value, target, with), path) && read_along(
            written,
            path,
        ) == along(written, path)
}

/// `serde_json::Value::pointer`: what stands at the end of the path that the pointer writes, as
/// `serde_json` holds it, which is alike. What it holds, it holds as it is.
#[verifier::external_body]
fn read_place(value: &Json, pointer: &str) -> (result: Option<Json>)
    ensures
        tree_option(result) == pointed(value@, pointer@),
        result matches Some(found) ==> held(found@) == found@,
        result matches Some(found) ==> found_alike(value@, pointer@, found@),
{
    value_from_json(value).pointer(pointer).map(|found| json_from_value(found.clone()))
}

/// `serde_json::Value::pointer_mut`: the value with what stands at the end of the path replaced,
/// as `serde_json` holds it, which is alike. What was written is then found there, and every other
/// place is found as it was.
#[verifier::external_body]
fn write_place(value: &Json, pointer: &str, with: &Json) -> (result: Option<Json>)
    ensures
        tree_option(result) == placed(value@, pointer@, with@),
        result matches Some(written) ==> pointed(written@, pointer@) == Some(held(with@)),
        result matches Some(written) ==> written_alike(value@, pointer@, with@, written@),
        result matches Some(written) ==> places_written(value@, pointer@, with@, written@),
{
    let mut document = value_from_json(value);
    *document.pointer_mut(pointer)? = value_from_json(with);
    Some(json_from_value(document))
}

/// The view of a value that may be missing.
pub open spec fn tree_option(value: Option<Json>) -> Option<JsonTree> {
    match value {
        Some(value) => Some(value@),
        None => None,
    }
}

impl Json {
    /// The value at a pointer.
    pub fn pointer(&self, pointer: &str) -> (result: Option<Json>)
        ensures
            tree_option(result) == pointed(self@, pointer@),
            result matches Some(found) ==> held(found@) == found@,
            result matches Some(found) ==> found_alike(self@, pointer@, found@),
    {
        read_place(self, pointer)
    }

    /// The value with what stands at a pointer replaced: the place then reads as the new value
    /// does, and there is one where the pointer finds anything.
    pub fn with_pointer(&self, pointer: &str, with: &Json) -> (result: Option<Json>)
        ensures
            tree_option(result) == placed(self@, pointer@, with@),
            result is Some <==> pointed(self@, pointer@) is Some,
            result matches Some(written) ==> pointed(written@, pointer@) == Some(held(with@)),
            result matches Some(written) ==> written_alike(self@, pointer@, with@, written@),
            result matches Some(written) ==> places_written(self@, pointer@, with@, written@),
    {
        write_place(self, pointer, with)
    }
}

/// The empty pointer names the whole value, and a text that does not begin with a slash names
/// nothing.
pub proof fn pointers_begin_with_a_slash(value: JsonTree, pointer: Seq<char>)
    ensures
        pointer.len() == 0 ==> pointed(value, pointer) == Some(held(value)),
        pointer.len() > 0 && pointer[0] != '/' ==> pointed(value, pointer) is None,
{
}

/// A path that leads to a place leads, once the place is rewritten, to what was written there.
pub proof fn rewritten_places_hold_what_was_written(
    value: JsonTree,
    path: Seq<Seq<char>>,
    with: JsonTree,
)
    requires
        along(value, path) is Some,
    ensures
        along(rewritten(value, path, with), path) == Some(with),
    decreases path.len(),
{
    if path.len() > 0 {
        let next = inner(value, path[0])->0;
        let deeper = rewritten(next, path.drop_first(), with);
        rewritten_places_hold_what_was_written(next, path.drop_first(), with);
        if let JsonTree::Object(members) = value {
            last_member_is_named(members, path[0], members.len());
            let index = last_member(members, path[0], members.len())->0;
            let changed = members.update(index as int, (path[0], deeper));
            updates_keep_last_members(members, path[0], index, deeper, members.len());
            assert(last_member(changed, path[0], changed.len()) == Some(index));
        }
        assert(inner(replaced(value, path[0], deeper), path[0]) == Some(deeper));
    }
}

proof fn last_member_is_named(members: Seq<(Seq<char>, JsonTree)>, key: Seq<char>, count: nat)
    requires
        count <= members.len(),
    ensures
        last_member(members, key, count) matches Some(index) ==> index < count
            && members[index as int].0 == key,
    decreases count,
{
    if count > 0 {
        last_member_is_named(members, key, (count - 1) as nat);
    }
}

proof fn updates_keep_last_members(
    members: Seq<(Seq<char>, JsonTree)>,
    key: Seq<char>,
    index: nat,
    with: JsonTree,
    count: nat,
)
    requires
        count <= members.len(),
        last_member(members, key, count) == Some(index),
        index < count,
    ensures
        last_member(members.update(index as int, (key, with)), key, count) == Some(index),
    decreases count,
{
    if members[count - 1].0 != key {
        last_member_is_named(members, key, (count - 1) as nat);
        updates_keep_last_members(members, key, index, with, (count - 1) as nat);
    }
}

/// Whether two paths part: neither leads to or through the end of the other.
pub open spec fn paths_part(left: Seq<Seq<char>>, right: Seq<Seq<char>>) -> bool {
    exists|i: int| 0 <= i < left.len() && i < right.len() && #[trigger] left[i] != #[trigger] right[i]
}

/// Whether two pointers name places of which neither is inside the other.
pub open spec fn pointers_apart(left: Seq<char>, right: Seq<char>) -> bool {
    pointer_path(left) matches Some(one) && pointer_path(right) matches Some(other) && paths_part(
        one,
        other,
    )
}

proof fn leading_digits_count(digits: Seq<char>)
    requires
        digits.len() > 0,
        digits[0] != '0',
        digits_value(digits) is Some,
    ensures
        digits_value(digits)->0 > 0,
    decreases digits.len(),
{
    if digits.len() > 1 {
        leading_digits_count(digits.drop_last());
    } else {
        assert(digits.drop_last() =~= Seq::empty());
        assert(digits.last() == digits[0]);
    }
}

/// Two names stand for the same array position only where they are the same.
pub proof fn positions_have_one_name(left: Seq<char>, right: Seq<char>)
    requires
        array_index(left) is Some,
        array_index(left) == array_index(right),
    ensures
        left == right,
    decreases left.len(),
{
    assert(digits_value(left.drop_last()) is Some && digit_value(left.last()) is Some);
    assert(digits_value(right.drop_last()) is Some && digit_value(right.last()) is Some);
    assert(digit_value(left.last()) == digit_value(right.last()));
    assert(left.last() == right.last());
    assert(digits_value(left.drop_last()) == digits_value(right.drop_last()));
    if left.len() == 1 {
        assert(left.drop_last() =~= Seq::empty());
        if right.len() > 1 {
            leading_digits_count(right.drop_last());
        }
    } else if right.len() == 1 {
        assert(right.drop_last() =~= Seq::empty());
        leading_digits_count(left.drop_last());
    } else {
        assert(left.drop_last()[0] == left[0] && right.drop_last()[0] == right[0]);
        leading_digits_count(left.drop_last());
        leading_digits_count(right.drop_last());
        positions_have_one_name(left.drop_last(), right.drop_last());
    }
    assert(left =~= left.drop_last().push(left.last()));
    assert(right =~= right.drop_last().push(right.last()));
    if left.len() == 1 && right.len() == 1 {
        assert(left =~= right);
    }
}

proof fn updates_keep_other_members(
    members: Seq<(Seq<char>, JsonTree)>,
    key: Seq<char>,
    index: nat,
    with: JsonTree,
    other: Seq<char>,
    count: nat,
)
    requires
        count <= members.len(),
        index < members.len(),
        members[index as int].0 == key,
        other != key,
    ensures
        last_member(members.update(index as int, (key, with)), other, count) == last_member(
            members,
            other,
            count,
        ),
        last_member(members, other, count) matches Some(found) ==> found < members.len() && found
            != index,
    decreases count,
{
    if count > 0 {
        updates_keep_other_members(members, key, index, with, other, (count - 1) as nat);
    }
}

/// What is rewritten at one place leaves every place as it was that is neither inside it nor around
/// it.
pub proof fn rewriting_leaves_other_places(
    value: JsonTree,
    path: Seq<Seq<char>>,
    with: JsonTree,
    other: Seq<Seq<char>>,
)
    requires
        along(value, path) is Some,
        paths_part(path, other),
    ensures
        along(rewritten(value, path, with), other) == along(value, other),
    decreases path.len(),
{
    let next = inner(value, path[0])->0;
    let deeper = rewritten(next, path.drop_first(), with);
    let changed = replaced(value, path[0], deeper);
    if let JsonTree::Object(members) = value {
        last_member_is_named(members, path[0], members.len());
        let index = last_member(members, path[0], members.len())->0;
        updates_keep_last_members(members, path[0], index, deeper, members.len());
        if other[0] != path[0] {
            updates_keep_other_members(
                members,
                path[0],
                index,
                deeper,
                other[0],
                members.len(),
            );
        }
    }
    if other[0] != path[0] {
        if let JsonTree::Array(items) = value {
            if array_index(other[0]) is Some && array_index(other[0]) == array_index(path[0]) {
                positions_have_one_name(other[0], path[0]);
            }
        }
        assert(inner(changed, other[0]) == inner(value, other[0]));
    } else {
        let i = choose|i: int|
            0 <= i < path.len() && i < other.len() && #[trigger] path[i] != #[trigger] other[i];
        assert(path.drop_first()[i - 1] != other.drop_first()[i - 1]);
        rewriting_leaves_other_places(next, path.drop_first(), with, other.drop_first());
        assert(inner(changed, other[0]) == Some(deeper));
    }
}

/// What is written at a pointer leaves what any pointer apart from it names.
pub proof fn writing_leaves_other_places(
    value: JsonTree,
    target: Seq<char>,
    with: JsonTree,
    written: JsonTree,
    pointer: Seq<char>,
)
    requires
        pointed(value, target) is Some,
        places_written(value, target, with, written),
        pointers_apart(target, pointer),
    ensures
        pointed(written, pointer) == pointed(value, pointer),
{
    let path = pointer_path(target)->0;
    let other = pointer_path(pointer)->0;
    rewriting_leaves_other_places(value, path, with, other);
    assert(along(written, other) == read_along(rewritten(value, path, with), other));
}

} // verus!
