//! One text for every way of writing the same JSON value.

use crate::json::{render_json, rendered_json, view_of_array, view_of_object, Json, JsonTree};
use vstd::prelude::*;
use vstd::utf8::{encode_utf8, encode_utf8_decode_utf8};

verus! {

/// The order of byte strings, by their first difference.
pub open spec fn bytes_le(left: Seq<u8>, right: Seq<u8>) -> bool
    decreases left.len(),
{
    if left.len() == 0 {
        true
    } else if right.len() == 0 {
        false
    } else if left[0] == right[0] {
        bytes_le(left.drop_first(), right.drop_first())
    } else {
        left[0] < right[0]
    }
}

/// The order of texts: that of their bytes.
pub open spec fn text_le(left: Seq<char>, right: Seq<char>) -> bool {
    bytes_le(encode_utf8(left), encode_utf8(right))
}

/// The order of byte strings is total, and only equal ones are at the same place in it.
pub proof fn bytes_le_total(left: Seq<u8>, right: Seq<u8>)
    ensures
        bytes_le(left, right) || bytes_le(right, left),
        bytes_le(left, right) && bytes_le(right, left) ==> left == right,
    decreases left.len(),
{
    if left.len() == 0 {
        if right.len() == 0 {
            assert(left =~= right);
        }
    } else if right.len() > 0 && left[0] == right[0] {
        bytes_le_total(left.drop_first(), right.drop_first());
        if left.drop_first() == right.drop_first() {
            assert(left =~= seq![left[0]] + left.drop_first());
            assert(right =~= seq![right[0]] + right.drop_first());
        }
    }
}

/// The order of byte strings is transitive.
pub proof fn bytes_le_transitive(a: Seq<u8>, b: Seq<u8>, c: Seq<u8>)
    requires
        bytes_le(a, b),
        bytes_le(b, c),
    ensures
        bytes_le(a, c),
    decreases a.len(),
{
    if a.len() > 0 && b.len() > 0 && c.len() > 0 && a[0] == b[0] && b[0] == c[0] {
        bytes_le_transitive(a.drop_first(), b.drop_first(), c.drop_first());
    }
}

/// The order of texts is total, and only equal texts are at the same place in it.
pub proof fn text_le_total(left: Seq<char>, right: Seq<char>)
    ensures
        text_le(left, right) || text_le(right, left),
        text_le(left, right) && text_le(right, left) ==> left == right,
{
    bytes_le_total(encode_utf8(left), encode_utf8(right));
    encode_utf8_decode_utf8(left);
    encode_utf8_decode_utf8(right);
}

/// The order of texts is transitive.
pub proof fn text_le_transitive(a: Seq<char>, b: Seq<char>, c: Seq<char>)
    requires
        text_le(a, b),
        text_le(b, c),
    ensures
        text_le(a, c),
{
    bytes_le_transitive(encode_utf8(a), encode_utf8(b), encode_utf8(c));
}

/// Whether `left` stands at or before `right` in the order of texts.
pub fn is_text_le(left: &str, right: &str) -> (result: bool)
    ensures
        result == text_le(left@, right@),
{
    let a = left.as_bytes();
    let b = right.as_bytes();
    let mut i: usize = 0;
    assert(a@.skip(0) =~= a@);
    assert(b@.skip(0) =~= b@);
    while i < a.len()
        invariant
            i <= a@.len(),
            i <= b@.len(),
            a@ == encode_utf8(left@),
            b@ == encode_utf8(right@),
            bytes_le(a@, b@) == bytes_le(a@.skip(i as int), b@.skip(i as int)),
        decreases a@.len() - i,
    {
        if i >= b.len() {
            return false;
        }
        if a[i] != b[i] {
            return a[i] < b[i];
        }
        assert(a@.skip(i as int).drop_first() =~= a@.skip(i as int + 1));
        assert(b@.skip(i as int).drop_first() =~= b@.skip(i as int + 1));
        i += 1;
    }
    true
}

/// A member put at its place among members in order.
pub open spec fn with_member(
    members: Seq<(Seq<char>, JsonTree)>,
    member: (Seq<char>, JsonTree),
) -> Seq<(Seq<char>, JsonTree)>
    decreases members.len(),
{
    if members.len() == 0 || text_le(members.last().0, member.0) {
        members.push(member)
    } else {
        with_member(members.drop_last(), member).push(members.last())
    }
}

/// Members in the order of their keys.
pub open spec fn sorted_members(members: Seq<(Seq<char>, JsonTree)>) -> Seq<(Seq<char>, JsonTree)>
    decreases members.len(),
{
    if members.len() == 0 {
        members
    } else {
        with_member(sorted_members(members.drop_last()), members.last())
    }
}

/// A value with the members of every object in the order of their keys.
pub open spec fn normalized(value: JsonTree) -> JsonTree
    decreases value,
{
    match value {
        JsonTree::Array(items) => JsonTree::Array(
            Seq::new(
                items.len(),
                |i: int|
                    if 0 <= i < items.len() {
                        normalized(items[i])
                    } else {
                        JsonTree::Null
                    },
            ),
        ),
        JsonTree::Object(members) => JsonTree::Object(sorted_members(normalized_values(members))),
        _ => value,
    }
}

/// Members with every value normalized.
pub open spec fn normalized_values(members: Seq<(Seq<char>, JsonTree)>) -> Seq<(Seq<char>, JsonTree)>
    decreases members,
{
    Seq::new(
        members.len(),
        |i: int|
            (
                members[i].0,
                if 0 <= i < members.len() {
                    normalized(members[i].1)
                } else {
                    JsonTree::Null
                },
            ),
    )
}

/// The canonical text of a value.
pub open spec fn canonical_text(value: JsonTree) -> Seq<char> {
    rendered_json(normalized(value))
}

/// The views of members.
pub open spec fn members_view(members: Seq<(String, Json)>) -> Seq<(Seq<char>, JsonTree)> {
    members.map_values(|member: (String, Json)| (member.0@, member.1@))
}

fn insert_member(members: &mut Vec<(String, Json)>, member: (String, Json))
    ensures
        members_view(final(members)@) == with_member(
            members_view(old(members)@),
            (member.0@, member.1@),
        ),
{
    let ghost whole = members_view(members@);
    let ghost new = (member.0@, member.1@);
    let ghost new_view = members_view(seq![member]);
    let mut at: usize = members.len();
    let ghost mut tail: Seq<(Seq<char>, JsonTree)> = Seq::empty();
    assert(whole.take(at as int) =~= whole);
    assert(with_member(whole, new) =~= with_member(whole.take(at as int), new) + tail);
    while at > 0 && !is_text_le(members[at - 1].0.as_str(), member.0.as_str())
        invariant
            at <= members@.len(),
            whole == members_view(members@),
            new == (member.0@, member.1@),
            tail =~= whole.skip(at as int),
            with_member(whole, new) == with_member(whole.take(at as int), new) + tail,
        decreases at,
    {
        proof {
            let head = whole.take(at as int);
            assert(head.last() == (members@[at - 1].0@, members@[at - 1].1@));
            assert(head.drop_last() =~= whole.take(at - 1));
            assert(whole.skip(at - 1) =~= seq![head.last()] + tail);
            assert(with_member(head, new) + tail =~= with_member(whole.take(at - 1), new) + whole.skip(
                at - 1,
            ));
            tail = whole.skip(at - 1);
        }
        at -= 1;
    }
    proof {
        let head = whole.take(at as int);
        if at > 0 {
            assert(head.last() == (members@[at - 1].0@, members@[at - 1].1@));
        }
        assert(with_member(head, new) == head.push(new));
    }
    members.insert(at, member);
    assert(members_view(members@) =~= whole.take(at as int).push(new) + whole.skip(at as int));
}

impl Json {
    /// A copy with the members of every object in the order of their keys.
    pub fn normalize(&self) -> (result: Json)
        ensures
            result@ == normalized(self@),
        decreases self,
    {
        match self {
            Json::Array(items) => {
                proof {
                    view_of_array(*self);
                }
                let mut copy: Vec<Json> = Vec::new();
                let mut i: usize = 0;
                while i < items.len()
                    invariant
                        i <= items@.len(),
                        *self == Json::Array(*items),
                        copy@.len() == i,
                        forall|j: int| 0 <= j < i ==> (#[trigger] copy@[j])@ == normalized(items@[j]@),
                    decreases items@.len() - i,
                {
                    assert(*items == self->Array_0);
                    let item = items[i].normalize();
                    copy.push(item);
                    i += 1;
                }
                let result = Json::Array(copy);
                proof {
                    view_of_array(result);
                    assert(result@->Array_0 =~= normalized(self@)->Array_0);
                }
                result
            },
            Json::Object(members) => {
                proof {
                    view_of_object(*self);
                }
                let mut copy: Vec<(String, Json)> = Vec::new();
                let mut i: usize = 0;
                let ghost pairs = Seq::new(
                    members@.len(),
                    |j: int| (members@[j].0@, normalized(members@[j].1@)),
                );
                assert(pairs.take(0) =~= Seq::empty());
                assert(members_view(copy@) =~= Seq::empty());
                while i < members.len()
                    invariant
                        i <= members@.len(),
                        *self == Json::Object(*members),
                        pairs == Seq::new(
                            members@.len(),
                            |j: int| (members@[j].0@, normalized(members@[j].1@)),
                        ),
                        members_view(copy@) == sorted_members(pairs.take(i as int)),
                    decreases members@.len() - i,
                {
                    assert(*members == self->Object_0);
                    let value = members[i].1.normalize();
                    let key = members[i].0.clone();
                    insert_member(&mut copy, (key, value));
                    proof {
                        let longer = pairs.take(i as int + 1);
                        assert(longer.drop_last() =~= pairs.take(i as int));
                        assert(longer.last() == pairs[i as int]);
                    }
                    i += 1;
                }
                let result = Json::Object(copy);
                proof {
                    view_of_object(result);
                    assert(pairs.take(members@.len() as int) =~= pairs);
                    assert(result@->Object_0 =~= members_view(copy@));
                    assert(normalized_values(self@->Object_0) =~= pairs);
                }
                result
            },
            _ => self.duplicate(),
        }
    }
}

/// The canonical text of a value.
pub fn canonical_json(value: &Json) -> (result: String)
    ensures
        result@ == canonical_text(value@),
{
    render_json(&value.normalize())
}

/// Whether no key occurs twice.
pub open spec fn distinct_keys(members: Seq<(Seq<char>, JsonTree)>) -> bool {
    forall|i: int, j: int|
        0 <= i < j < members.len() ==> (#[trigger] members[i]).0 != (#[trigger] members[j]).0
}

/// Whether every key stands before those that follow it.
pub open spec fn in_key_order(members: Seq<(Seq<char>, JsonTree)>) -> bool {
    forall|i: int, j: int|
        0 <= i < j < members.len() ==> text_le(
            (#[trigger] members[i]).0,
            (#[trigger] members[j]).0,
        )
}

proof fn with_member_keeps_order(
    members: Seq<(Seq<char>, JsonTree)>,
    member: (Seq<char>, JsonTree),
)
    requires
        in_key_order(members),
    ensures
        in_key_order(with_member(members, member)),
        with_member(members, member).len() == members.len() + 1,
        forall|m: (Seq<char>, JsonTree)|
            #![trigger with_member(members, member).contains(m)]
            #![trigger members.contains(m)]
            with_member(members, member).contains(m) <==> members.contains(m) || m == member,
        distinct_keys(members) && (forall|i: int|
            0 <= i < members.len() ==> (#[trigger] members[i]).0 != member.0) ==> distinct_keys(
            with_member(members, member),
        ),
    decreases members.len(),
{
    let result = with_member(members, member);
    if members.len() == 0 || text_le(members.last().0, member.0) {
        assert(result == members.push(member));
        assert forall|i: int, j: int| 0 <= i < j < result.len() implies text_le(
            (#[trigger] result[i]).0,
            (#[trigger] result[j]).0,
        ) by {
            if j == members.len() && i < members.len() - 1 {
                assert(members[i] == result[i]);
                text_le_transitive(members[i].0, members.last().0, member.0);
            }
        }
        assert forall|m: (Seq<char>, JsonTree)| result.contains(m) <==> members.contains(m) || m
            == member by {
            if members.contains(m) {
                let k = choose|k: int| 0 <= k < members.len() && members[k] == m;
                assert(result[k] == m);
            }
            if m == member {
                assert(result[members.len() as int] == m);
            }
        }
    } else {
        let init = members.drop_last();
        let last = members.last();
        assert(in_key_order(init)) by {
            assert forall|i: int, j: int| 0 <= i < j < init.len() implies text_le(
                (#[trigger] init[i]).0,
                (#[trigger] init[j]).0,
            ) by {
                assert(init[i] == members[i] && init[j] == members[j]);
            }
        }
        with_member_keeps_order(init, member);
        let inner = with_member(init, member);
        assert(result == inner.push(last));
        text_le_total(last.0, member.0);
        assert forall|i: int, j: int| 0 <= i < j < result.len() implies text_le(
            (#[trigger] result[i]).0,
            (#[trigger] result[j]).0,
        ) by {
            if j == inner.len() {
                assert(inner.contains(inner[i]));
                assert(init.contains(inner[i]) || inner[i] == member);
                if inner[i] != member {
                    let k = choose|k: int| 0 <= k < init.len() && init[k] == inner[i];
                    assert(members[k] == inner[i]);
                    assert(members[members.len() - 1] == last);
                }
            }
        }
        assert forall|m: (Seq<char>, JsonTree)| result.contains(m) <==> members.contains(m) || m
            == member by {
            if members.contains(m) {
                let k = choose|k: int| 0 <= k < members.len() && members[k] == m;
                if k < init.len() {
                    assert(init[k] == m);
                    assert(init.contains(m));
                    let n = choose|n: int| 0 <= n < inner.len() && inner[n] == m;
                    assert(result[n] == m);
                } else {
                    assert(result[inner.len() as int] == m);
                }
            }
            if m == member {
                assert(init.contains(m) || m == member);
                assert(inner.contains(m));
                let n = choose|n: int| 0 <= n < inner.len() && inner[n] == m;
                assert(result[n] == m);
            }
            if result.contains(m) {
                let n = choose|n: int| 0 <= n < result.len() && result[n] == m;
                if n < inner.len() {
                    assert(inner[n] == m);
                    assert(inner.contains(m));
                    assert(init.contains(m) || m == member);
                    if m != member {
                        let k = choose|k: int| 0 <= k < init.len() && init[k] == m;
                        assert(members[k] == m);
                    }
                } else {
                    assert(members[members.len() - 1] == m);
                }
            }
        }
        if distinct_keys(members) && (forall|i: int|
            0 <= i < members.len() ==> (#[trigger] members[i]).0 != member.0) {
            assert(distinct_keys(init)) by {
                assert forall|i: int, j: int| 0 <= i < j < init.len() implies (
                #[trigger] init[i]).0 != (#[trigger] init[j]).0 by {
                    assert(init[i] == members[i] && init[j] == members[j]);
                }
            }
            assert forall|i: int| 0 <= i < init.len() implies (#[trigger] init[i]).0 != member.0 by {
                assert(init[i] == members[i]);
            }
            assert forall|i: int, j: int| 0 <= i < j < result.len() implies (
            #[trigger] result[i]).0 != (#[trigger] result[j]).0 by {
                if j == inner.len() {
                    assert(inner.contains(inner[i]));
                    assert(init.contains(inner[i]) || inner[i] == member);
                    if inner[i] != member {
                        let k = choose|k: int| 0 <= k < init.len() && init[k] == inner[i];
                        assert(members[k] == inner[i]);
                        assert(members[members.len() - 1] == last);
                    } else {
                        assert(members[members.len() - 1] == last);
                    }
                }
            }
        }
    }
}

proof fn sorted_members_are_in_order(members: Seq<(Seq<char>, JsonTree)>)
    ensures
        in_key_order(sorted_members(members)),
        sorted_members(members).len() == members.len(),
        forall|m: (Seq<char>, JsonTree)|
            sorted_members(members).contains(m) <==> members.contains(m),
        distinct_keys(members) ==> distinct_keys(sorted_members(members)),
    decreases members.len(),
{
    if members.len() > 0 {
        let init = members.drop_last();
        let last = members.last();
        sorted_members_are_in_order(init);
        with_member_keeps_order(sorted_members(init), last);
        assert forall|m: (Seq<char>, JsonTree)| sorted_members(members).contains(m)
            <==> members.contains(m) by {
            if members.contains(m) {
                let k = choose|k: int| 0 <= k < members.len() && members[k] == m;
                if k < init.len() {
                    assert(init[k] == m);
                    assert(init.contains(m));
                }
            }
            if init.contains(m) {
                let k = choose|k: int| 0 <= k < init.len() && init[k] == m;
                assert(members[k] == m);
            }
            assert(members[members.len() - 1] == last);
        }
        if distinct_keys(members) {
            assert forall|i: int, j: int| 0 <= i < j < init.len() implies (
            #[trigger] init[i]).0 != (#[trigger] init[j]).0 by {
                assert(init[i] == members[i] && init[j] == members[j]);
            }
            let sorted = sorted_members(init);
            assert forall|i: int| 0 <= i < sorted.len() implies (#[trigger] sorted[i]).0
                != last.0 by {
                assert(sorted.contains(sorted[i]));
                assert(init.contains(sorted[i]));
                let k = choose|k: int| 0 <= k < init.len() && init[k] == sorted[i];
                assert(members[k] == sorted[i]);
                assert(members[members.len() - 1] == last);
            }
        }
    }
}

proof fn ordered_members_are_unique(
    left: Seq<(Seq<char>, JsonTree)>,
    right: Seq<(Seq<char>, JsonTree)>,
)
    requires
        in_key_order(left),
        in_key_order(right),
        distinct_keys(left),
        distinct_keys(right),
        forall|m: (Seq<char>, JsonTree)| left.contains(m) <==> right.contains(m),
    ensures
        left == right,
    decreases left.len(),
{
    if left.len() == 0 {
        if right.len() > 0 {
            assert(right.contains(right[0]));
        }
        assert(left =~= right);
    } else {
        assert(left.contains(left.last()));
        assert(right.contains(left.last()));
        assert(right.contains(right.last()));
        let i = choose|i: int| 0 <= i < right.len() && right[i] == left.last();
        let j = choose|j: int| 0 <= j < left.len() && left[j] == right.last();
        text_le_total(left.last().0, right.last().0);
        assert(left.last() == right.last()) by {
            if i < right.len() - 1 && j < left.len() - 1 {
                assert(text_le(right[i].0, right[right.len() - 1].0));
                assert(text_le(left[j].0, left[left.len() - 1].0));
                assert(left[j].0 != left[left.len() - 1].0);
            }
        }
        let a = left.drop_last();
        let b = right.drop_last();
        assert forall|m: (Seq<char>, JsonTree)| a.contains(m) <==> b.contains(m) by {
            if a.contains(m) {
                let k = choose|k: int| 0 <= k < a.len() && a[k] == m;
                assert(left[k] == m && left[k].0 != left[left.len() - 1].0);
                assert(left.contains(m));
                let n = choose|n: int| 0 <= n < right.len() && right[n] == m;
                assert(b[n] == m);
            }
            if b.contains(m) {
                let k = choose|k: int| 0 <= k < b.len() && b[k] == m;
                assert(right[k] == m && right[k].0 != right[right.len() - 1].0);
                assert(right.contains(m));
                let n = choose|n: int| 0 <= n < left.len() && left[n] == m;
                assert(a[n] == m);
            }
        }
        assert forall|x: int, y: int| 0 <= x < y < a.len() implies text_le(
            (#[trigger] a[x]).0,
            (#[trigger] a[y]).0,
        ) && a[x].0 != a[y].0 by {
            assert(a[x] == left[x] && a[y] == left[y]);
        }
        assert forall|x: int, y: int| 0 <= x < y < b.len() implies text_le(
            (#[trigger] b[x]).0,
            (#[trigger] b[y]).0,
        ) && b[x].0 != b[y].0 by {
            assert(b[x] == right[x] && b[y] == right[y]);
        }
        ordered_members_are_unique(a, b);
        assert(left =~= a.push(left.last()));
        assert(right =~= b.push(right.last()));
    }
}

proof fn normalized_values_contain(
    members: Seq<(Seq<char>, JsonTree)>,
    m: (Seq<char>, JsonTree),
)
    ensures
        normalized_values(members).contains(m) <==> exists|n: (Seq<char>, JsonTree)|
            members.contains(n) && #[trigger] normalized_member(n) == m,
{
    let values = normalized_values(members);
    if values.contains(m) {
        let k = choose|k: int| 0 <= k < values.len() && values[k] == m;
        assert(members.contains(members[k]));
        assert(normalized_member(members[k]) == m);
    }
    if exists|n: (Seq<char>, JsonTree)|
        members.contains(n) && #[trigger] normalized_member(n) == m {
        let n = choose|n: (Seq<char>, JsonTree)|
            members.contains(n) && #[trigger] normalized_member(n) == m;
        let k = choose|k: int| 0 <= k < members.len() && members[k] == n;
        assert(values[k] == m);
    }
}

spec fn normalized_member(member: (Seq<char>, JsonTree)) -> (Seq<char>, JsonTree) {
    (member.0, normalized(member.1))
}

/// Objects that list the same members, in whatever order, have one canonical text.
pub proof fn canonical_text_ignores_member_order(
    left: Seq<(Seq<char>, JsonTree)>,
    right: Seq<(Seq<char>, JsonTree)>,
)
    requires
        distinct_keys(left),
        distinct_keys(right),
        forall|m: (Seq<char>, JsonTree)| left.contains(m) <==> right.contains(m),
    ensures
        normalized(JsonTree::Object(left)) == normalized(JsonTree::Object(right)),
        canonical_text(JsonTree::Object(left)) == canonical_text(JsonTree::Object(right)),
{
    let a = normalized_values(left);
    let b = normalized_values(right);
    sorted_members_are_in_order(a);
    sorted_members_are_in_order(b);
    assert forall|m: (Seq<char>, JsonTree)| a.contains(m) <==> b.contains(m) by {
        normalized_values_contain(left, m);
        normalized_values_contain(right, m);
    }
    assert forall|i: int, j: int| 0 <= i < j < a.len() implies (#[trigger] a[i]).0 != (
    #[trigger] a[j]).0 by {
        assert(left[i].0 != left[j].0);
    }
    assert forall|i: int, j: int| 0 <= i < j < b.len() implies (#[trigger] b[i]).0 != (
    #[trigger] b[j]).0 by {
        assert(right[i].0 != right[j].0);
    }
    assert forall|m: (Seq<char>, JsonTree)| sorted_members(a).contains(m) <==> sorted_members(
        b,
    ).contains(m) by {
        assert(a.contains(m) <==> b.contains(m));
    }
    ordered_members_are_unique(sorted_members(a), sorted_members(b));
}

} // verus!
