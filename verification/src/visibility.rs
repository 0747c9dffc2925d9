//! What a caller may not see changes nothing: the scope of a caller depends on the tools that it
//! may use, and on nothing else of a registry.

use crate::catalog::ids_unique;
use crate::discovery::EffectiveLimits;
use crate::lexicon::{phrase, terms_of};
use crate::ordering::sorted_is_sorting;
use crate::ranking::{
    best, document_frequency, index_terms, lexical_selection, named, names, rank_order,
    rank_order_is_total, ranks_before, score_of, scored, selection, MatchKind, RankedModel,
};
use crate::registry::{position_from, RegisteredTool};
use crate::scope_selection::{
    base_stats, candidates_of, chosen_ids, countable, deferred_count, element_bytes, expanded,
    hot_marks, kept, narrowed_scope, scope_of, usable, with_marks, within, ToolDiscoveryStats,
};
use crate::text::{text_option, texts};
use crate::tool::ToolCaller;
use crate::tool_registry::RegistryModel;
use vstd::prelude::*;

verus! {

/// Whether two tools are the same as far as discovery goes.
pub open spec fn alike(left: RegisteredTool, right: RegisteredTool) -> bool {
    &&& left.definition.id@ == right.definition.id@
    &&& left.definition.name@ == right.definition.name@
    &&& left.metadata.exposure == right.metadata.exposure
    &&& text_option(left.metadata.namespace) == text_option(right.metadata.namespace)
    &&& texts(left.metadata.aliases@) == texts(right.metadata.aliases@)
    &&& left.serialized_bytes == right.serialized_bytes
}

/// The allowed identifiers, in order, whose tools a caller may use.
pub open spec fn visible(
    tools: Seq<RegisteredTool>,
    allowlist: Seq<Seq<char>>,
    caller: ToolCaller,
    count: nat,
) -> Seq<Seq<char>>
    decreases count,
{
    if count == 0 || count > allowlist.len() {
        Seq::empty()
    } else {
        let before = visible(tools, allowlist, caller, (count - 1) as nat);
        if usable(tools, allowlist[count - 1], caller) is Some {
            before.push(allowlist[count - 1])
        } else {
            before
        }
    }
}

/// Two registries with the places of the same candidates in each.
pub struct Twins {
    /// One registry.
    pub left: Seq<RegisteredTool>,
    /// The other.
    pub right: Seq<RegisteredTool>,
    /// The places in the one.
    pub ls: Seq<usize>,
    /// The places in the other.
    pub rs: Seq<usize>,
}

impl Twins {
    /// Whether the same tools stand at the places, and the same places hold the same tools.
    pub open spec fn hold(self) -> bool {
        &&& self.ls.len() == self.rs.len()
        &&& ids_unique(self.left)
        &&& ids_unique(self.right)
        &&& forall|k: int|
            0 <= k < self.ls.len() ==> (#[trigger] self.ls[k]) < self.left.len() && self.rs[k]
                < self.right.len() && alike(
                self.left[self.ls[k] as int],
                self.right[self.rs[k] as int],
            )
    }

    /// Whether two places are those of the same candidate.
    pub open spec fn pair(self, a: usize, b: usize) -> bool {
        exists|k: int| 0 <= k < self.ls.len() && #[trigger] self.ls[k] == a && self.rs[k] == b
    }

    /// Whether two lists hold the places of the same candidates.
    pub open spec fn lists(self, a: Seq<usize>, b: Seq<usize>) -> bool {
        a.len() == b.len() && forall|i: int|
            0 <= i < a.len() ==> self.pair(#[trigger] a[i], b[i])
    }

    /// Whether two lists rank the same candidates in the same way.
    pub open spec fn ranks(self, a: Seq<(u64, usize)>, b: Seq<(u64, usize)>) -> bool {
        a.len() == b.len() && forall|i: int|
            0 <= i < a.len() ==> (#[trigger] a[i]).0 == b[i].0 && self.pair(a[i].1, b[i].1)
    }

    /// Whether the same candidates are marked.
    pub open spec fn marks(self, a: Seq<bool>, b: Seq<bool>) -> bool {
        &&& a.len() == self.left.len()
        &&& b.len() == self.right.len()
        &&& forall|k: int|
            0 <= k < self.ls.len() ==> a[(#[trigger] self.ls[k]) as int] == b[self.rs[k] as int]
    }

    /// Whether the same candidates are selected in the same way.
    pub open spec fn selections(self, a: RankedModel, b: RankedModel) -> bool {
        match (a, b) {
            (RankedModel::Exact(a), RankedModel::Exact(b)) => self.lists(a, b),
            (RankedModel::Lexical(a, x), RankedModel::Lexical(b, y)) => self.lists(a, b) && x == y,
            _ => false,
        }
    }
}

proof fn paired_alike(twins: Twins, a: usize, b: usize)
    requires
        twins.hold(),
        twins.pair(a, b),
    ensures
        a < twins.left.len(),
        b < twins.right.len(),
        alike(twins.left[a as int], twins.right[b as int]),
{
}

proof fn paired_once(twins: Twins, a: usize, b: usize, c: usize, d: usize)
    requires
        twins.hold(),
        twins.pair(a, b),
        twins.pair(c, d),
    ensures
        a == c <==> b == d,
        twins.left[a as int].definition.id@ == twins.left[c as int].definition.id@ <==> a == c,
{
    paired_alike(twins, a, b);
    paired_alike(twins, c, d);
    if a < c {
        assert(twins.left[a as int].definition.id@ != twins.left[c as int].definition.id@);
    } else if c < a {
        assert(twins.left[c as int].definition.id@ != twins.left[a as int].definition.id@);
    }
    if b < d {
        assert(twins.right[b as int].definition.id@ != twins.right[d as int].definition.id@);
    } else if d < b {
        assert(twins.right[d as int].definition.id@ != twins.right[b as int].definition.id@);
    }
}

proof fn twin_places(twins: Twins, k: int)
    requires
        twins.hold(),
        0 <= k < twins.ls.len(),
    ensures
        twins.pair(twins.ls[k], twins.rs[k]),
        alike(twins.left[twins.ls[k] as int], twins.right[twins.rs[k] as int]),
{
    assert(twins.ls[k] == twins.ls[k]);
}

proof fn named_alike(twins: Twins, kind: MatchKind, query: Seq<char>, count: nat)
    requires
        twins.hold(),
        count <= twins.ls.len(),
    ensures
        twins.lists(
            named(twins.left, twins.ls, kind, query, count),
            named(twins.right, twins.rs, kind, query, count),
        ),
    decreases count,
{
    if count > 0 {
        named_alike(twins, kind, query, (count - 1) as nat);
        twin_places(twins, count - 1);
        let before = named(twins.left, twins.ls, kind, query, (count - 1) as nat);
        let other = named(twins.right, twins.rs, kind, query, (count - 1) as nat);
        assert(names(twins.left[twins.ls[count - 1] as int], kind, query) == names(
            twins.right[twins.rs[count - 1] as int],
            kind,
            query,
        ));
        let a = named(twins.left, twins.ls, kind, query, count);
        let b = named(twins.right, twins.rs, kind, query, count);
        assert forall|i: int| 0 <= i < a.len() implies twins.pair(#[trigger] a[i], b[i]) by {
            if i < before.len() {
                assert(a[i] == before[i] && b[i] == other[i]);
            }
        }
    }
}

proof fn frequency_alike(twins: Twins, term: Seq<char>, count: nat)
    requires
        twins.hold(),
        count <= twins.ls.len(),
    ensures
        document_frequency(twins.left, twins.ls, term, count) == document_frequency(
            twins.right,
            twins.rs,
            term,
            count,
        ),
    decreases count,
{
    if count > 0 {
        frequency_alike(twins, term, (count - 1) as nat);
        twin_places(twins, count - 1);
        assert(index_terms(twins.left[twins.ls[count - 1] as int]) == index_terms(
            twins.right[twins.rs[count - 1] as int],
        ));
    }
}

proof fn score_alike(twins: Twins, query_terms: Seq<Seq<char>>, a: usize, b: usize, count: nat)
    requires
        twins.hold(),
        twins.pair(a, b),
        count <= query_terms.len(),
    ensures
        score_of(twins.left, twins.ls, query_terms, a, count) == score_of(
            twins.right,
            twins.rs,
            query_terms,
            b,
            count,
        ),
    decreases count,
{
    if count > 0 {
        score_alike(twins, query_terms, a, b, (count - 1) as nat);
        frequency_alike(twins, query_terms[count - 1], twins.ls.len());
        paired_alike(twins, a, b);
        assert(index_terms(twins.left[a as int]) == index_terms(twins.right[b as int]));
    }
}

proof fn scored_alike(twins: Twins, query_terms: Seq<Seq<char>>, count: nat)
    requires
        twins.hold(),
        count <= twins.ls.len(),
    ensures
        twins.ranks(
            scored(twins.left, twins.ls, query_terms, count),
            scored(twins.right, twins.rs, query_terms, count),
        ),
    decreases count,
{
    if count > 0 {
        scored_alike(twins, query_terms, (count - 1) as nat);
        twin_places(twins, count - 1);
        let x = twins.ls[count - 1];
        let y = twins.rs[count - 1];
        score_alike(twins, query_terms, x, y, query_terms.len());
        let before = scored(twins.left, twins.ls, query_terms, (count - 1) as nat);
        let other = scored(twins.right, twins.rs, query_terms, (count - 1) as nat);
        let a = scored(twins.left, twins.ls, query_terms, count);
        let b = scored(twins.right, twins.rs, query_terms, count);
        assert forall|i: int| 0 <= i < a.len() implies (#[trigger] a[i]).0 == b[i].0 && twins.pair(
            a[i].1,
            b[i].1,
        ) by {
            if i < before.len() {
                assert(a[i] == before[i] && b[i] == other[i]);
            }
        }
    }
}

/// Lists of the same items keep the same items under a function.
proof fn mapped_items<A, B>(left: Seq<A>, right: Seq<A>, f: spec_fn(A) -> B)
    requires
        left.to_multiset() == right.to_multiset(),
    ensures
        left.map_values(f).to_multiset() == right.map_values(f).to_multiset(),
    decreases left.len(),
{
    left.to_multiset_ensures();
    right.to_multiset_ensures();
    if left.len() == 0 {
        assert(right.len() == 0);
        assert(left.map_values(f) =~= right.map_values(f));
    } else {
        let item = left.last();
        assert(left.contains(item));
        assert(left.to_multiset().count(item) > 0);
        assert(right.contains(item));
        let j = choose|j: int| 0 <= j < right.len() && right[j] == item;
        let shorter = left.drop_last();
        let other = right.remove(j);
        assert(shorter =~= left.remove(left.len() - 1));
        assert(shorter.to_multiset() =~= left.to_multiset().remove(item));
        assert(other.to_multiset() =~= right.to_multiset().remove(item));
        mapped_items(shorter, other, f);
        let a = left.map_values(f);
        let b = right.map_values(f);
        a.to_multiset_ensures();
        b.to_multiset_ensures();
        shorter.map_values(f).to_multiset_ensures();
        assert(shorter.map_values(f) =~= a.remove(a.len() - 1));
        assert(other.map_values(f) =~= b.remove(j));
        assert(a.to_multiset().remove(f(item)) =~= b.to_multiset().remove(f(item)));
        assert(a.to_multiset() =~= a.to_multiset().remove(f(item)).insert(f(item))) by {
            assert(a.contains(a[a.len() - 1]));
        }
        assert(b.to_multiset() =~= b.to_multiset().remove(f(item)).insert(f(item))) by {
            assert(b.contains(b[j]));
        }
    }
}

/// The twin of a ranked candidate.
spec fn twin_of(twins: Twins, ranked: (u64, usize)) -> (u64, usize) {
    (ranked.0, choose|b: usize| twins.pair(ranked.1, b))
}

proof fn twin_is(twins: Twins, ranked: (u64, usize), b: usize)
    requires
        twins.hold(),
        twins.pair(ranked.1, b),
    ensures
        twin_of(twins, ranked) == (ranked.0, b),
{
    let other = choose|b: usize| twins.pair(ranked.1, b);
    assert(twins.pair(ranked.1, other));
    paired_once(twins, ranked.1, b, ranked.1, other);
}

proof fn sorted_alike(twins: Twins, a: Seq<(u64, usize)>, b: Seq<(u64, usize)>)
    requires
        twins.hold(),
        twins.ranks(a, b),
    ensures
        twins.ranks(a.sort_by(rank_order(twins.left)), b.sort_by(rank_order(twins.right))),
{
    let one = rank_order(twins.left);
    let other = rank_order(twins.right);
    rank_order_is_total(twins.left);
    rank_order_is_total(twins.right);
    a.lemma_sort_by_ensures(one);
    let sorted = a.sort_by(one);
    let f = |ranked: (u64, usize)| twin_of(twins, ranked);
    let mirror = sorted.map_values(f);
    assert(b =~= a.map_values(f)) by {
        assert forall|i: int| 0 <= i < a.len() implies b[i] == f(a[i]) by {
            twin_is(twins, a[i], b[i].1);
        }
    }
    mapped_items(sorted, a, f);
    a.to_multiset_ensures();
    sorted.to_multiset_ensures();
    assert forall|i: int| 0 <= i < sorted.len() implies (#[trigger] sorted[i]).0 == mirror[i].0
        && twins.pair(sorted[i].1, mirror[i].1) by {
        assert(sorted.contains(sorted[i]));
        assert(a.to_multiset().count(sorted[i]) > 0);
        assert(a.contains(sorted[i]));
        let k = choose|k: int| 0 <= k < a.len() && a[k] == sorted[i];
        assert(twins.pair(a[k].1, b[k].1));
        twin_is(twins, sorted[i], b[k].1);
    }
    assert forall|i: int, j: int| 0 <= i < j < mirror.len() implies #[trigger] other(
        mirror[i],
        mirror[j],
    ) by {
        assert(one(sorted[i], sorted[j]));
        assert(ranks_before(twins.left, sorted[i], sorted[j]));
        assert(twins.pair(sorted[i].1, mirror[i].1));
        assert(twins.pair(sorted[j].1, mirror[j].1));
        paired_alike(twins, sorted[i].1, mirror[i].1);
        paired_alike(twins, sorted[j].1, mirror[j].1);
        paired_once(twins, sorted[i].1, mirror[i].1, sorted[j].1, mirror[j].1);
    }
    sorted_is_sorting(b, mirror, other);
}

proof fn best_alike(twins: Twins, a: Seq<(u64, usize)>, b: Seq<(u64, usize)>, count: nat)
    requires
        twins.ranks(a, b),
    ensures
        twins.lists(best(a, count), best(b, count)),
{
    let x = best(a, count);
    let y = best(b, count);
    assert forall|i: int| 0 <= i < x.len() implies twins.pair(#[trigger] x[i], y[i]) by {
        assert(a[i].0 == b[i].0);
    }
}

proof fn selection_alike(twins: Twins, query: Seq<char>, max_expansion: usize)
    requires
        twins.hold(),
    ensures
        twins.selections(
            selection(twins.left, twins.ls, query, max_expansion),
            selection(twins.right, twins.rs, query, max_expansion),
        ),
{
    let wanted = phrase(query);
    let all = twins.ls.len();
    named_alike(twins, MatchKind::Identifier, wanted, all);
    named_alike(twins, MatchKind::Name, wanted, all);
    named_alike(twins, MatchKind::Namespace, wanted, all);
    named_alike(twins, MatchKind::Alias, wanted, all);
    let query_terms = terms_of(query);
    scored_alike(twins, query_terms, all);
    let a = scored(twins.left, twins.ls, query_terms, all);
    let b = scored(twins.right, twins.rs, query_terms, all);
    sorted_alike(twins, a, b);
    let x = a.sort_by(rank_order(twins.left));
    let y = b.sort_by(rank_order(twins.right));
    best_alike(twins, x, y, 1);
    best_alike(twins, x, y, max_expansion as nat);
    if x.len() >= 2 {
        assert(x[0].0 == y[0].0 && x[1].0 == y[1].0);
    }
    assert(twins.selections(
        lexical_selection(twins.left, twins.ls, query, max_expansion),
        lexical_selection(twins.right, twins.rs, query, max_expansion),
    ));
}

proof fn kept_alike(twins: Twins, a: Seq<bool>, b: Seq<bool>, count: nat)
    requires
        twins.hold(),
        twins.marks(a, b),
        count <= twins.ls.len(),
    ensures
        twins.lists(kept(twins.ls, a, count), kept(twins.rs, b, count)),
    decreases count,
{
    if count > 0 {
        kept_alike(twins, a, b, (count - 1) as nat);
        twin_places(twins, count - 1);
        let before = kept(twins.ls, a, (count - 1) as nat);
        let other = kept(twins.rs, b, (count - 1) as nat);
        let x = kept(twins.ls, a, count);
        let y = kept(twins.rs, b, count);
        assert(a[twins.ls[count - 1] as int] == b[twins.rs[count - 1] as int]);
        assert forall|i: int| 0 <= i < x.len() implies twins.pair(#[trigger] x[i], y[i]) by {
            if i < before.len() {
                assert(x[i] == before[i] && y[i] == other[i]);
            }
        }
    }
}

proof fn bytes_alike(twins: Twins, a: Seq<usize>, b: Seq<usize>, count: nat)
    requires
        twins.hold(),
        twins.lists(a, b),
        count <= a.len(),
    ensures
        element_bytes(twins.left, a, count) == element_bytes(twins.right, b, count),
    decreases count,
{
    if count > 0 {
        bytes_alike(twins, a, b, (count - 1) as nat);
        paired_alike(twins, a[count - 1], b[count - 1]);
    }
}

proof fn ids_alike(twins: Twins, a: Seq<usize>, b: Seq<usize>)
    requires
        twins.hold(),
        twins.lists(a, b),
    ensures
        chosen_ids(twins.left, a) == chosen_ids(twins.right, b),
{
    let x = chosen_ids(twins.left, a);
    let y = chosen_ids(twins.right, b);
    assert forall|i: int| 0 <= i < a.len() implies x[i] == y[i] by {
        paired_alike(twins, a[i], b[i]);
    }
    assert(x =~= y);
}

proof fn deferred_alike(twins: Twins, count: nat)
    requires
        twins.hold(),
        count <= twins.ls.len(),
    ensures
        deferred_count(twins.left, twins.ls, count) == deferred_count(
            twins.right,
            twins.rs,
            count,
        ),
    decreases count,
{
    if count > 0 {
        deferred_alike(twins, (count - 1) as nat);
        twin_places(twins, count - 1);
    }
}

proof fn mark_alike(twins: Twins, a: Seq<bool>, b: Seq<bool>, x: usize, y: usize)
    requires
        twins.hold(),
        twins.marks(a, b),
        twins.pair(x, y),
    ensures
        twins.marks(a.update(x as int, true), b.update(y as int, true)),
{
    paired_alike(twins, x, y);
    let c = a.update(x as int, true);
    let d = b.update(y as int, true);
    assert forall|k: int| 0 <= k < twins.ls.len() implies c[(#[trigger] twins.ls[k]) as int]
        == d[twins.rs[k] as int] by {
        twin_places(twins, k);
        paired_once(twins, twins.ls[k], twins.rs[k], x, y);
        assert(a[twins.ls[k] as int] == b[twins.rs[k] as int]);
    }
}

proof fn marks_alike(
    twins: Twins,
    a: Seq<bool>,
    b: Seq<bool>,
    x: Seq<usize>,
    y: Seq<usize>,
    count: nat,
)
    requires
        twins.hold(),
        twins.marks(a, b),
        twins.lists(x, y),
        count <= x.len(),
    ensures
        twins.marks(with_marks(a, x, count), with_marks(b, y, count)),
    decreases count,
{
    if count > 0 {
        marks_alike(twins, a, b, x, y, (count - 1) as nat);
        mark_alike(
            twins,
            with_marks(a, x, (count - 1) as nat),
            with_marks(b, y, (count - 1) as nat),
            x[count - 1],
            y[count - 1],
        );
    }
}

proof fn kept_fit_alike(twins: Twins, a: Seq<bool>, b: Seq<bool>, limits: EffectiveLimits)
    requires
        twins.hold(),
        twins.marks(a, b),
    ensures
        ({
            let x = kept(twins.ls, a, twins.ls.len());
            let y = kept(twins.rs, b, twins.rs.len());
            &&& twins.lists(x, y)
            &&& element_bytes(twins.left, x, x.len()) == element_bytes(twins.right, y, y.len())
            &&& countable(twins.left, x) == countable(twins.right, y)
            &&& within(twins.left, x, limits) == within(twins.right, y, limits)
            &&& chosen_ids(twins.left, x) == chosen_ids(twins.right, y)
        }),
{
    kept_alike(twins, a, b, twins.ls.len());
    let x = kept(twins.ls, a, twins.ls.len());
    let y = kept(twins.rs, b, twins.rs.len());
    bytes_alike(twins, x, y, x.len());
    ids_alike(twins, x, y);
}

proof fn expanded_alike(
    twins: Twins,
    a: Seq<bool>,
    b: Seq<bool>,
    x: Seq<usize>,
    y: Seq<usize>,
    limits: EffectiveLimits,
    count: nat,
)
    requires
        twins.hold(),
        twins.marks(a, b),
        twins.lists(x, y),
        count <= x.len(),
    ensures
        match (
            expanded(twins.left, twins.ls, a, x, limits, count),
            expanded(twins.right, twins.rs, b, y, limits, count),
        ) {
            (Ok((c, m)), Ok((d, n))) => twins.marks(c, d) && m == n,
            (Err(e), Err(f)) => e == f,
            _ => false,
        },
    decreases count,
{
    if count > 0 {
        expanded_alike(twins, a, b, x, y, limits, (count - 1) as nat);
        match (
            expanded(twins.left, twins.ls, a, x, limits, (count - 1) as nat),
            expanded(twins.right, twins.rs, b, y, limits, (count - 1) as nat),
        ) {
            (Ok((c, _)), Ok((d, _))) => {
                mark_alike(twins, c, d, x[count - 1], y[count - 1]);
                kept_fit_alike(
                    twins,
                    c.update(x[count - 1] as int, true),
                    d.update(y[count - 1] as int, true),
                    limits,
                );
            },
            _ => {},
        }
    }
}

proof fn narrowed_alike(
    twins: Twins,
    one: RankedModel,
    other: RankedModel,
    limits: EffectiveLimits,
    base: ToolDiscoveryStats,
)
    requires
        twins.hold(),
        twins.selections(one, other),
    ensures
        narrowed_scope(twins.left, twins.ls, one, limits, base) == narrowed_scope(
            twins.right,
            twins.rs,
            other,
            limits,
            base,
        ),
{
    let a = hot_marks(twins.left);
    let b = hot_marks(twins.right);
    assert(twins.marks(a, b)) by {
        assert forall|k: int| 0 <= k < twins.ls.len() implies a[(#[trigger] twins.ls[k]) as int]
            == b[twins.rs[k] as int] by {
            twin_places(twins, k);
        }
    }
    kept_fit_alike(twins, a, b, limits);
    match (one, other) {
        (RankedModel::Exact(x), RankedModel::Exact(y)) => {
            marks_alike(twins, a, b, x, y, x.len());
            kept_fit_alike(
                twins,
                with_marks(a, x, x.len()),
                with_marks(b, y, y.len()),
                limits,
            );
        },
        (RankedModel::Lexical(x, _), RankedModel::Lexical(y, _)) => {
            expanded_alike(twins, a, b, x, y, limits, x.len());
            match (
                expanded(twins.left, twins.ls, a, x, limits, x.len()),
                expanded(twins.right, twins.rs, b, y, limits, y.len()),
            ) {
                (Ok((c, _)), Ok((d, _))) => {
                    kept_fit_alike(twins, c, d, limits);
                },
                _ => {},
            }
        },
        _ => {},
    }
}

proof fn candidates_are_visible(
    tools: Seq<RegisteredTool>,
    allowlist: Seq<Seq<char>>,
    caller: ToolCaller,
    count: nat,
)
    requires
        count <= allowlist.len(),
    ensures
        ({
            let names = visible(tools, allowlist, caller, count);
            let places = candidates_of(tools, allowlist, caller, count);
            &&& names.len() == places.len()
            &&& forall|k: int|
                0 <= k < names.len() ==> usable(tools, #[trigger] names[k], caller) == Some(
                    places[k],
                )
        }),
    decreases count,
{
    if count > 0 {
        candidates_are_visible(tools, allowlist, caller, (count - 1) as nat);
        let names = visible(tools, allowlist, caller, count);
        let places = candidates_of(tools, allowlist, caller, count);
        let before = visible(tools, allowlist, caller, (count - 1) as nat);
        let earlier = candidates_of(tools, allowlist, caller, (count - 1) as nat);
        assert forall|k: int| 0 <= k < names.len() implies usable(
            tools,
            #[trigger] names[k],
            caller,
        ) == Some(places[k]) by {
            if k < before.len() {
                assert(names[k] == before[k] && places[k] == earlier[k]);
            }
        }
    }
}

proof fn position_is_inside(tools: Seq<RegisteredTool>, id: Seq<char>, start: nat)
    ensures
        match position_from(tools, id, start) {
            Some(position) => start <= position < tools.len(),
            None => true,
        },
    decreases tools.len() - start,
{
    if start < tools.len() && tools[start as int].definition.id@ != id {
        position_is_inside(tools, id, start + 1);
    }
}

/// The scope of a caller, and every count of the report on it, depends on the allowed tools that
/// the caller may use and on nothing else: two registries in which these are alike and stand on
/// the allowlists in the same order give the same answer, whatever other tools they hold,
/// wherever those stand, and whether or not the allowlists name them.
pub proof fn hidden_tools_change_no_scope(
    left: RegistryModel,
    right: RegistryModel,
    left_allowlist: Seq<Seq<char>>,
    right_allowlist: Seq<Seq<char>>,
    query: Seq<char>,
    caller: ToolCaller,
    limits: EffectiveLimits,
)
    requires
        left.valid(),
        right.valid(),
        left.warm == right.warm,
        visible(left.tools, left_allowlist, caller, left_allowlist.len()) == visible(
            right.tools,
            right_allowlist,
            caller,
            right_allowlist.len(),
        ),
        forall|k: int|
            0 <= k < visible(left.tools, left_allowlist, caller, left_allowlist.len()).len()
                ==> alike(
                left.tools[usable(
                    left.tools,
                    #[trigger] visible(left.tools, left_allowlist, caller, left_allowlist.len())[k],
                    caller,
                )->0 as int],
                right.tools[usable(
                    right.tools,
                    visible(left.tools, left_allowlist, caller, left_allowlist.len())[k],
                    caller,
                )->0 as int],
            ),
    ensures
        scope_of(left, query, left_allowlist, caller, limits) == scope_of(
            right,
            query,
            right_allowlist,
            caller,
            limits,
        ),
{
    candidates_are_visible(left.tools, left_allowlist, caller, left_allowlist.len());
    candidates_are_visible(right.tools, right_allowlist, caller, right_allowlist.len());
    let names = visible(left.tools, left_allowlist, caller, left_allowlist.len());
    let twins = Twins {
        left: left.tools,
        right: right.tools,
        ls: candidates_of(left.tools, left_allowlist, caller, left_allowlist.len()),
        rs: candidates_of(right.tools, right_allowlist, caller, right_allowlist.len()),
    };
    assert forall|k: int| 0 <= k < twins.ls.len() implies (#[trigger] twins.ls[k])
        < twins.left.len() && twins.rs[k] < twins.right.len() && alike(
        twins.left[twins.ls[k] as int],
        twins.right[twins.rs[k] as int],
    ) by {
        assert(usable(left.tools, names[k], caller) == Some(twins.ls[k]));
        assert(usable(right.tools, names[k], caller) == Some(twins.rs[k]));
        position_is_inside(left.tools, names[k], 0);
        position_is_inside(right.tools, names[k], 0);
    }
    assert(twins.hold());
    deferred_alike(twins, twins.ls.len());
    assert(twins.lists(twins.ls, twins.rs)) by {
        assert forall|i: int| 0 <= i < twins.ls.len() implies twins.pair(
            #[trigger] twins.ls[i],
            twins.rs[i],
        ) by {
            twin_places(twins, i);
        }
    }
    bytes_alike(twins, twins.ls, twins.rs, twins.ls.len());
    ids_alike(twins, twins.ls, twins.rs);
    selection_alike(twins, query, limits.max_expansion as usize);
    let base = base_stats(left.tools, twins.ls, limits);
    assert(base == base_stats(right.tools, twins.rs, limits));
    narrowed_alike(
        twins,
        selection(left.tools, twins.ls, query, limits.max_expansion as usize),
        selection(right.tools, twins.rs, query, limits.max_expansion as usize),
        limits,
        ToolDiscoveryStats { catalog_exceeded_budget: true, cache_hit: left.warm, ..base },
    );
}

} // verus!
