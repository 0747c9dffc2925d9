//! Sorting, as the registry and the ranking of tools need it.

use crate::canonical::{is_text_le, text_le, text_le_total, text_le_transitive};
use crate::text::texts;
use vstd::prelude::*;
use vstd::relations::{sorted_by, total_ordering};
use vstd::seq_lib::lemma_sorted_unique;

verus! {

/// An item put where it belongs leaves a list sorted.
pub proof fn inserted_in_order<A>(
    list: Seq<A>,
    position: int,
    item: A,
    leq: spec_fn(A, A) -> bool,
)
    requires
        total_ordering(leq),
        sorted_by(list, leq),
        0 <= position <= list.len(),
        forall|i: int| 0 <= i < position ==> leq(#[trigger] list[i], item),
        forall|i: int| position <= i < list.len() ==> leq(item, #[trigger] list[i]),
    ensures
        sorted_by(list.insert(position, item), leq),
        list.insert(position, item).to_multiset() == list.to_multiset().insert(item),
{
    let longer = list.insert(position, item);
    assert forall|i: int, j: int| 0 <= i < j < longer.len() implies #[trigger] leq(
        longer[i],
        longer[j],
    ) by {
        let a = if i < position {
            i
        } else {
            i - 1
        };
        let b = if j < position {
            j
        } else {
            j - 1
        };
        if i != position && j != position {
            assert(longer[i] == list[a] && longer[j] == list[b]);
        } else if i == position {
            assert(longer[j] == list[b]);
        } else {
            assert(longer[i] == list[a]);
        }
    }
    vstd::seq_lib::to_multiset_insert(list, position, item);
}

/// A sorted list of the same items is the list sorted.
pub proof fn sorted_is_sorting<A>(list: Seq<A>, sorted: Seq<A>, leq: spec_fn(A, A) -> bool)
    requires
        total_ordering(leq),
        sorted_by(sorted, leq),
        sorted.to_multiset() == list.to_multiset(),
    ensures
        sorted == list.sort_by(leq),
{
    list.lemma_sort_by_ensures(leq);
    lemma_sorted_unique(sorted, list.sort_by(leq), leq);
}

/// Lists of the same items are the same once they are sorted.
pub proof fn sorting_ignores_order<A>(left: Seq<A>, right: Seq<A>, leq: spec_fn(A, A) -> bool)
    requires
        total_ordering(leq),
        left.to_multiset() == right.to_multiset(),
    ensures
        left.sort_by(leq) == right.sort_by(leq),
{
    right.lemma_sort_by_ensures(leq);
    sorted_is_sorting(left, right.sort_by(leq), leq);
}

/// The order of texts.
pub open spec fn text_order() -> spec_fn(Seq<char>, Seq<char>) -> bool {
    |left: Seq<char>, right: Seq<char>| text_le(left, right)
}

/// The order of texts is total.
pub proof fn text_order_is_total()
    ensures
        total_ordering(text_order()),
{
    let leq = text_order();
    assert forall|a: Seq<char>| #[trigger] leq(a, a) by {
        text_le_total(a, a);
    }
    assert forall|a: Seq<char>, b: Seq<char>| #[trigger]
        leq(a, b) && #[trigger] leq(b, a) implies a == b by {
        text_le_total(a, b);
    }
    assert forall|a: Seq<char>, b: Seq<char>, c: Seq<char>| #[trigger]
        leq(a, b) && #[trigger] leq(b, c) implies leq(a, c) by {
        text_le_transitive(a, b, c);
    }
    assert forall|a: Seq<char>, b: Seq<char>| #[trigger] leq(a, b) || #[trigger] leq(b, a) by {
        text_le_total(a, b);
    }
}

/// Texts in their order.
pub open spec fn sorted_texts(values: Seq<Seq<char>>) -> Seq<Seq<char>> {
    values.sort_by(text_order())
}

/// Sorts texts.
pub fn sort_texts(values: &Vec<String>) -> (result: Vec<String>)
    ensures
        texts(result@) == sorted_texts(texts(values@)),
{
    let ghost leq = text_order();
    let ghost all = texts(values@);
    proof {
        text_order_is_total();
    }
    let mut result: Vec<String> = Vec::new();
    let mut i: usize = 0;
    assert(texts(result@) =~= all.take(0));
    while i < values.len()
        invariant
            i <= values@.len(),
            all == texts(values@),
            leq == text_order(),
            total_ordering(leq),
            sorted_by(texts(result@), leq),
            texts(result@).to_multiset() == all.take(i as int).to_multiset(),
        decreases values@.len() - i,
    {
        let ghost sorted = texts(result@);
        let ghost item = all[i as int];
        let mut position: usize = 0;
        while position < result.len() && is_text_le(result[position].as_str(), values[i].as_str())
            invariant
                i < values@.len(),
                position <= result@.len(),
                sorted == texts(result@),
                item == values@[i as int]@,
                leq == text_order(),
                forall|j: int| 0 <= j < position ==> leq(#[trigger] sorted[j], item),
            ensures
                position <= result@.len(),
                forall|j: int| 0 <= j < position ==> leq(#[trigger] sorted[j], item),
                position < result@.len() ==> !text_le(sorted[position as int], item),
            decreases result@.len() - position,
        {
            position += 1;
        }
        proof {
            assert forall|j: int| position <= j < sorted.len() implies leq(
                item,
                #[trigger] sorted[j],
            ) by {
                text_le_total(sorted[position as int], item);
                if j > position {
                    assert(leq(sorted[position as int], sorted[j]));
                    text_le_transitive(item, sorted[position as int], sorted[j]);
                }
            }
            inserted_in_order(sorted, position as int, item, leq);
            assert(all.take(i + 1) =~= all.take(i as int).push(item));
            vstd::seq_lib::to_multiset_build(all.take(i as int), item);
        }
        result.insert(position, values[i].clone());
        assert(texts(result@) =~= sorted.insert(position as int, item));
        i += 1;
    }
    proof {
        assert(all.take(i as int) =~= all);
        sorted_is_sorting(all, texts(result@), leq);
    }
    result
}

} // verus!
