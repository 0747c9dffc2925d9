//! What the terms of a query are for: which tools it finds, and in which order.

use crate::canonical::text_le;
use crate::lexicon::{
    alphanumeric, bounded, bounded_is_short, phrase, small, term_count, terms_of, words_from,
};
use crate::ranking::{
    alias_terms, document_frequency, index_terms, lexical_selection, named, names, rank_order,
    rank_order_is_total, ranks_before, score_of, scored, selection, term_weight, MatchKind,
    RankedModel,
};
use crate::registry::RegisteredTool;
use crate::text::{text_option, texts};
use vstd::prelude::*;
use vstd::relations::sorted_by;

verus! {

/// The terms that are equal to this one.
pub open spec fn same_term(term: Seq<char>) -> spec_fn(Seq<char>) -> bool {
    |other: Seq<char>| other == term
}

/// The tools that are found under this term.
pub open spec fn found_under(tools: Seq<RegisteredTool>, term: Seq<char>) -> spec_fn(usize) -> bool {
    |index: usize| index_terms(tools[index as int]).contains(term)
}

/// The tools that a query names exactly.
pub open spec fn named_so(tools: Seq<RegisteredTool>, kind: MatchKind, query: Seq<char>) -> spec_fn(
    usize,
) -> bool {
    |index: usize| names(tools[index as int], kind, query)
}

/// How often a term occurs is how many terms are equal to it.
pub proof fn terms_are_counted(terms: Seq<Seq<char>>, term: Seq<char>)
    ensures
        term_count(terms, term) == terms.filter(same_term(term)).len(),
        term_count(terms, term) > 0 <==> terms.contains(term),
    decreases terms.len(),
{
    reveal(Seq::filter);
    if terms.len() > 0 {
        let rest = terms.drop_last();
        terms_are_counted(rest, term);
        if terms.contains(term) && terms.last() != term {
            let k = choose|k: int| 0 <= k < terms.len() && terms[k] == term;
            assert(rest[k] == term);
        }
        if rest.contains(term) {
            let k = choose|k: int| 0 <= k < rest.len() && rest[k] == term;
            assert(terms[k] == term);
        }
    }
}

/// A term occurs in two lists together as often as in both of them.
pub proof fn joined_terms_are_counted(
    left: Seq<Seq<char>>,
    right: Seq<Seq<char>>,
    term: Seq<char>,
)
    ensures
        term_count(left + right, term) == term_count(left, term) + term_count(right, term),
    decreases right.len(),
{
    if right.len() > 0 {
        joined_terms_are_counted(left, right.drop_last(), term);
        assert((left + right).drop_last() =~= left + right.drop_last());
    } else {
        assert(left + right =~= left);
    }
}

/// A tool is found under every term of its identifier, its name, its namespace and each of its
/// aliases, and under no other.
pub proof fn tools_are_found_under_their_names(tool: RegisteredTool, term: Seq<char>)
    ensures
        index_terms(tool).contains(term) <==> terms_of(tool.definition.id@).contains(term)
            || terms_of(tool.definition.name@).contains(term) || (text_option(
            tool.metadata.namespace,
        ) matches Some(namespace) && terms_of(namespace).contains(term)) || exists|k: int|
            0 <= k < tool.metadata.aliases@.len() && terms_of(
                #[trigger] tool.metadata.aliases@[k]@,
            ).contains(term),
{
    let ids = terms_of(tool.definition.id@);
    let own = terms_of(tool.definition.name@);
    let space = match text_option(tool.metadata.namespace) {
        Some(namespace) => terms_of(namespace),
        None => Seq::empty(),
    };
    let aliases = texts(tool.metadata.aliases@);
    let others = alias_terms(aliases, aliases.len());
    joined_terms_are_counted(ids, own, term);
    joined_terms_are_counted(ids + own, space, term);
    joined_terms_are_counted(ids + own + space, others, term);
    terms_are_counted(ids, term);
    terms_are_counted(own, term);
    terms_are_counted(space, term);
    terms_are_counted(others, term);
    terms_are_counted(index_terms(tool), term);
    aliases_are_found(aliases, term, aliases.len());
    if others.contains(term) {
        let k = choose|k: int|
            0 <= k < aliases.len() && terms_of(#[trigger] aliases[k]).contains(term);
        assert(tool.metadata.aliases@[k]@ == aliases[k]);
    }
    if exists|k: int|
        0 <= k < tool.metadata.aliases@.len() && terms_of(
            #[trigger] tool.metadata.aliases@[k]@,
        ).contains(term) {
        let k = choose|k: int|
            0 <= k < tool.metadata.aliases@.len() && terms_of(
                #[trigger] tool.metadata.aliases@[k]@,
            ).contains(term);
        assert(aliases[k] == tool.metadata.aliases@[k]@);
    }
}

proof fn aliases_are_found(aliases: Seq<Seq<char>>, term: Seq<char>, count: nat)
    requires
        count <= aliases.len(),
    ensures
        alias_terms(aliases, count).contains(term) <==> exists|k: int|
            0 <= k < count && terms_of(#[trigger] aliases[k]).contains(term),
    decreases count,
{
    if count > 0 {
        let before = alias_terms(aliases, (count - 1) as nat);
        let own = terms_of(aliases[count - 1]);
        aliases_are_found(aliases, term, (count - 1) as nat);
        joined_terms_are_counted(before, own, term);
        terms_are_counted(before, term);
        terms_are_counted(own, term);
        terms_are_counted(alias_terms(aliases, count), term);
    }
}

/// How many candidates are found under a term: as many as bear it.
pub proof fn documents_are_counted(
    tools: Seq<RegisteredTool>,
    candidates: Seq<usize>,
    term: Seq<char>,
)
    ensures
        document_frequency(tools, candidates, term, candidates.len()) == candidates.filter(found_under(tools, term)).len(),
        document_frequency(tools, candidates, term, candidates.len()) <= candidates.len(),
{
    frequency_is_filter(tools, candidates, term, candidates.len());
    assert(candidates.take(candidates.len() as int) =~= candidates);
}

proof fn frequency_is_filter(
    tools: Seq<RegisteredTool>,
    candidates: Seq<usize>,
    term: Seq<char>,
    count: nat,
)
    requires
        count <= candidates.len(),
    ensures
        document_frequency(tools, candidates, term, count) == candidates.take(count as int).filter(found_under(tools, term)).len(),
        document_frequency(tools, candidates, term, count) <= count,
    decreases count,
{
    reveal(Seq::filter);
    if count > 0 {
        frequency_is_filter(tools, candidates, term, (count - 1) as nat);
        let part = candidates.take(count as int);
        assert(part.drop_last() =~= candidates.take(count - 1));
        terms_are_counted(index_terms(tools[candidates[count - 1] as int]), term);
    }
}

proof fn scores_read_what_they_count(
    tools: Seq<RegisteredTool>,
    candidates: Seq<usize>,
    left: Seq<Seq<char>>,
    right: Seq<Seq<char>>,
    index: usize,
    count: nat,
)
    requires
        count <= left.len(),
        count <= right.len(),
        left.take(count as int) == right.take(count as int),
    ensures
        score_of(tools, candidates, left, index, count) == score_of(
            tools,
            candidates,
            right,
            index,
            count,
        ),
    decreases count,
{
    if count > 0 {
        assert(left[count - 1] == left.take(count as int)[count - 1]);
        assert(right[count - 1] == right.take(count as int)[count - 1]);
        assert(left.take(count - 1) =~= left.take(count as int).drop_last());
        assert(right.take(count - 1) =~= right.take(count as int).drop_last());
        scores_read_what_they_count(
            tools,
            candidates,
            left,
            right,
            index,
            (count - 1) as nat,
        );
    }
}

/// The score of a tool for a list of query terms.
pub open spec fn score(
    tools: Seq<RegisteredTool>,
    candidates: Seq<usize>,
    query_terms: Seq<Seq<char>>,
    index: usize,
) -> Option<u64> {
    score_of(tools, candidates, query_terms, index, query_terms.len())
}

/// Every term of a query counts: what two lists of terms score together is what they score apart,
/// as long as a counter holds it.
pub proof fn scores_add_up(
    tools: Seq<RegisteredTool>,
    candidates: Seq<usize>,
    first: Seq<Seq<char>>,
    second: Seq<Seq<char>>,
    index: usize,
)
    requires
        score(tools, candidates, first + second, index) is Some,
    ensures
        score(tools, candidates, first, index) is Some,
        score(tools, candidates, second, index) is Some,
        score(tools, candidates, first + second, index)->0 == score(
            tools,
            candidates,
            first,
            index,
        )->0 + score(tools, candidates, second, index)->0,
    decreases second.len(),
{
    let whole = first + second;
    if second.len() == 0 {
        assert(whole =~= first);
    } else {
        let shorter = second.drop_last();
        assert(whole.take(whole.len() - 1) =~= first + shorter);
        assert((first + shorter).take(whole.len() - 1) =~= first + shorter);
        scores_read_what_they_count(
            tools,
            candidates,
            whole,
            first + shorter,
            index,
            (whole.len() - 1) as nat,
        );
        assert(second.take(second.len() - 1) =~= shorter);
        assert(shorter.take(second.len() - 1) =~= shorter);
        scores_read_what_they_count(
            tools,
            candidates,
            second,
            shorter,
            index,
            (second.len() - 1) as nat,
        );
        assert(whole.last() == second.last());
        scores_add_up(tools, candidates, first, shorter, index);
    }
}

/// No more than eight occurrences of a term count.
pub open spec fn counted(tool: RegisteredTool, term: Seq<char>) -> nat {
    let occurrences = index_terms(tool).filter(same_term(term)).len();
    if occurrences < 8 {
        occurrences
    } else {
        8
    }
}

/// What one term scores: nothing where a tool is not found under it, and else, for each counted
/// occurrence, a thousand times the candidates and one more, shared among those that bear the term
/// and one more, rounded down. A term that every candidate bears scores a thousand.
pub proof fn terms_weigh_by_rarity(
    tools: Seq<RegisteredTool>,
    candidates: Seq<usize>,
    term: Seq<char>,
    index: usize,
)
    requires
        (candidates.len() + 1) * 8000 <= u64::MAX,
    ensures
        ({
            let all = candidates.len();
            let bearing = candidates.filter(found_under(tools, term)).len();
            let times = counted(tools[index as int], term);
            &&& score(tools, candidates, seq![term], index) matches Some(total) && exists|once: nat|
                total == #[trigger] (once * times) && once * (bearing + 1) <= (all + 1) * 1000 < (once
                    + 1) * (bearing + 1) && once >= 1000
        }),
{
    let all = candidates.len();
    let query = seq![term];
    let tool = tools[index as int];
    documents_are_counted(tools, candidates, term);
    terms_are_counted(index_terms(tool), term);
    let bearing = document_frequency(tools, candidates, term, candidates.len());
    let times = counted(tool, term);
    let once = ((all + 1) * 1000) / (bearing + 1);
    assert(query[0] == term);
    assert(once * (bearing + 1) <= (all + 1) * 1000 < (once + 1) * (bearing + 1) && once >= 1000
        && once <= (all + 1) * 1000) by (nonlinear_arith)
        requires
            once == ((all + 1) * 1000) / (bearing + 1),
            bearing <= all,
    ;
    assert(once * times <= (all + 1) * 8000) by (nonlinear_arith)
        requires
            once <= (all + 1) * 1000,
            times <= 8,
    ;
    reveal_with_fuel(score_of, 2);
    if times == 0 {
        assert(once * times == 0) by (nonlinear_arith)
            requires
                times == 0,
        ;
    }
    let occurrences = term_count(index_terms(tool), term);
    assert(term_weight(all, bearing, occurrences) == once * times);
    let total = score(tools, candidates, query, index)->0;
    assert(total == once * times);
}

proof fn more_occurrences_score_more(
    tools: Seq<RegisteredTool>,
    candidates: Seq<usize>,
    query_terms: Seq<Seq<char>>,
    better: usize,
    worse: usize,
    count: nat,
)
    requires
        count <= query_terms.len(),
        score_of(tools, candidates, query_terms, better, count) is Some,
        score_of(tools, candidates, query_terms, worse, count) is Some,
        forall|k: int|
            0 <= k < query_terms.len() ==> counted(
                tools[worse as int],
                #[trigger] query_terms[k],
            ) <= counted(tools[better as int], query_terms[k]),
    ensures
        score_of(tools, candidates, query_terms, better, count)->0 >= score_of(
            tools,
            candidates,
            query_terms,
            worse,
            count,
        )->0,
        (exists|k: int|
            0 <= k < count && counted(tools[worse as int], #[trigger] query_terms[k]) < counted(
                tools[better as int],
                query_terms[k],
            )) ==> score_of(tools, candidates, query_terms, better, count)->0 > score_of(
            tools,
            candidates,
            query_terms,
            worse,
            count,
        )->0,
    decreases count,
{
    if count > 0 {
        let term = query_terms[count - 1];
        more_occurrences_score_more(
            tools,
            candidates,
            query_terms,
            better,
            worse,
            (count - 1) as nat,
        );
        documents_are_counted(tools, candidates, term);
        terms_are_counted(index_terms(tools[better as int]), term);
        terms_are_counted(index_terms(tools[worse as int]), term);
        let all = candidates.len();
        let bearing = document_frequency(tools, candidates, term, candidates.len());
        let once = ((all + 1) * 1000) / (bearing + 1);
        let more = counted(tools[better as int], term);
        let less = counted(tools[worse as int], term);
        assert(once >= 1000) by (nonlinear_arith)
            requires
                once == ((all + 1) * 1000) / (bearing + 1),
                bearing <= all,
        ;
        assert(less <= more);
        assert(term_weight(all, bearing, term_count(index_terms(tools[better as int]), term))
            == once * more);
        assert(term_weight(all, bearing, term_count(index_terms(tools[worse as int]), term))
            == once * less);
        assert(once * less <= once * more && (less < more ==> once * less < once * more))
            by (nonlinear_arith)
            requires
                once >= 1000,
                less <= more,
        ;
        if less == 0 {
            assert(once * less == 0) by (nonlinear_arith)
                requires
                    less == 0,
            ;
        }
        if more == 0 {
            assert(once * more == 0) by (nonlinear_arith)
                requires
                    more == 0,
            ;
        }
    }
}

/// A tool in which every term of a query occurs at least as often as in another scores no less, and
/// where one of them occurs more often, up to eight times, it scores more and ranks before it.
pub proof fn closer_tools_rank_before(
    tools: Seq<RegisteredTool>,
    candidates: Seq<usize>,
    query_terms: Seq<Seq<char>>,
    better: usize,
    worse: usize,
)
    requires
        score(tools, candidates, query_terms, better) is Some,
        score(tools, candidates, query_terms, worse) is Some,
        forall|k: int|
            0 <= k < query_terms.len() ==> counted(
                tools[worse as int],
                #[trigger] query_terms[k],
            ) <= counted(tools[better as int], query_terms[k]),
    ensures
        ({
            let high = score(tools, candidates, query_terms, better)->0;
            let low = score(tools, candidates, query_terms, worse)->0;
            &&& high >= low
            &&& (exists|k: int|
                0 <= k < query_terms.len() && counted(
                    tools[worse as int],
                    #[trigger] query_terms[k],
                ) < counted(tools[better as int], query_terms[k])) ==> high > low && ranks_before(
                tools,
                (high, better),
                (low, worse),
            ) && !ranks_before(tools, (low, worse), (high, better))
        }),
{
    more_occurrences_score_more(
        tools,
        candidates,
        query_terms,
        better,
        worse,
        query_terms.len(),
    );
}

/// A tool scores exactly where it is found under a term of the query.
pub proof fn only_found_tools_score(
    tools: Seq<RegisteredTool>,
    candidates: Seq<usize>,
    query_terms: Seq<Seq<char>>,
    index: usize,
)
    requires
        score(tools, candidates, query_terms, index) is Some,
    ensures
        score(tools, candidates, query_terms, index)->0 > 0 <==> exists|k: int|
            0 <= k < query_terms.len() && index_terms(tools[index as int]).contains(
                #[trigger] query_terms[k],
            ),
    decreases query_terms.len(),
{
    if query_terms.len() > 0 {
        let rest = query_terms.drop_last();
        let term = query_terms.last();
        assert(query_terms.take(rest.len() as int) =~= rest.take(rest.len() as int));
        scores_read_what_they_count(tools, candidates, query_terms, rest, index, rest.len());
        only_found_tools_score(tools, candidates, rest, index);
        terms_are_counted(index_terms(tools[index as int]), term);
        documents_are_counted(tools, candidates, term);
        let all = candidates.len();
        let bearing = document_frequency(tools, candidates, term, candidates.len());
        let once = ((all + 1) * 1000) / (bearing + 1);
        let times = counted(tools[index as int], term);
        assert(term_weight(all, bearing, term_count(index_terms(tools[index as int]), term))
            == once * times);
        assert(once >= 1000) by (nonlinear_arith)
            requires
                once == ((all + 1) * 1000) / (bearing + 1),
                bearing <= all,
        ;
        if times > 0 {
            assert(once * times > 0) by (nonlinear_arith)
                requires
                    once >= 1000,
                    times > 0,
            ;
            assert(query_terms[query_terms.len() - 1] == term);
        }
        if exists|k: int|
            0 <= k < rest.len() && index_terms(tools[index as int]).contains(#[trigger] rest[k]) {
            let k = choose|k: int|
                0 <= k < rest.len() && index_terms(tools[index as int]).contains(#[trigger] rest[k]);
            assert(query_terms[k] == rest[k]);
        }
        if exists|k: int|
            0 <= k < query_terms.len() && index_terms(tools[index as int]).contains(
                #[trigger] query_terms[k],
            ) {
            let k = choose|k: int|
                0 <= k < query_terms.len() && index_terms(tools[index as int]).contains(
                    #[trigger] query_terms[k],
                );
            if k < rest.len() {
                assert(rest[k] == query_terms[k]);
            }
        }
    }
}

/// Whether a candidate scores for a query.
pub open spec fn fits_query(
    tools: Seq<RegisteredTool>,
    candidates: Seq<usize>,
    query: Seq<char>,
    index: usize,
) -> bool {
    candidates.contains(index) && (score(tools, candidates, terms_of(query), index) matches Some(
        total,
    ) && total > 0)
}

/// The score of a candidate for a query, as a number.
pub open spec fn points(
    tools: Seq<RegisteredTool>,
    candidates: Seq<usize>,
    query: Seq<char>,
    index: usize,
) -> int {
    score(tools, candidates, terms_of(query), index)->0 as int
}

/// Whether one candidate comes before another: it scores more, or the same under an identifier that
/// is not after the other's.
pub open spec fn comes_before(
    tools: Seq<RegisteredTool>,
    candidates: Seq<usize>,
    query: Seq<char>,
    first: usize,
    second: usize,
) -> bool {
    let left = points(tools, candidates, query, first);
    let right = points(tools, candidates, query, second);
    left > right || (left == right && (text_le(
        tools[first as int].definition.id@,
        tools[second as int].definition.id@,
    ) || tools[first as int].definition.id@ == tools[second as int].definition.id@))
}

proof fn scored_holds_what_fits(
    tools: Seq<RegisteredTool>,
    candidates: Seq<usize>,
    terms: Seq<Seq<char>>,
    count: nat,
)
    requires
        count <= candidates.len(),
        candidates.no_duplicates(),
    ensures
        ({
            let list = scored(tools, candidates, terms, count);
            &&& forall|i: int|
                0 <= i < list.len() ==> {
                    let item = #[trigger] list[i];
                    &&& candidates.take(count as int).contains(item.1)
                    &&& score(tools, candidates, terms, item.1) == Some(item.0) && item.0 > 0
                }
            &&& forall|k: int|
                0 <= k < count && (score(
                    tools,
                    candidates,
                    terms,
                    #[trigger] candidates[k],
                ) matches Some(total) && total > 0) ==> list.contains(
                    (score(tools, candidates, terms, candidates[k])->0, candidates[k]),
                )
            &&& list.no_duplicates()
        }),
    decreases count,
{
    if count > 0 {
        scored_holds_what_fits(tools, candidates, terms, (count - 1) as nat);
        let before = scored(tools, candidates, terms, (count - 1) as nat);
        let list = scored(tools, candidates, terms, count);
        let index = candidates[count - 1];
        let part = candidates.take(count as int);
        assert(part[count - 1] == index);
        assert forall|i: int| 0 <= i < list.len() implies {
            let item = #[trigger] list[i];
            &&& part.contains(item.1)
            &&& score(tools, candidates, terms, item.1) == Some(item.0) && item.0 > 0
        } by {
            if i < before.len() {
                assert(list[i] == before[i]);
                let shorter = candidates.take(count - 1);
                let k = choose|k: int| 0 <= k < shorter.len() && shorter[k] == before[i].1;
                assert(part[k] == before[i].1);
            }
        }
        assert forall|k: int|
            0 <= k < count && (score(
                tools,
                candidates,
                terms,
                #[trigger] candidates[k],
            ) matches Some(total) && total > 0) implies list.contains(
            (score(tools, candidates, terms, candidates[k])->0, candidates[k]),
        ) by {
            let item = (score(tools, candidates, terms, candidates[k])->0, candidates[k]);
            if k < count - 1 {
                assert(before.contains(item));
                let i = choose|i: int| 0 <= i < before.len() && before[i] == item;
                assert(list[i] == item);
            } else {
                assert(list[list.len() - 1] == item);
            }
        }
        assert forall|i: int, j: int| 0 <= i < list.len() && 0 <= j < list.len() && i
            != j implies list[i] != list[j] by {
            let low = if i < j {
                i
            } else {
                j
            };
            assert(list[low] == before[low]);
            if list.len() > before.len() {
                let shorter = candidates.take(count - 1);
                let k = choose|k: int| 0 <= k < shorter.len() && shorter[k] == before[low].1;
                assert(candidates[k] == before[low].1);
                assert(candidates[k] != candidates[count - 1]);
            }
            if i < before.len() && j < before.len() {
                assert(before[i] != before[j]);
            }
        }
    } else {
        assert(scored(tools, candidates, terms, 0) =~= Seq::empty());
    }
}

/// A query that names no tool exactly selects the candidates that score best, in the order of their
/// scores: each selected one scores, and comes before each that scores and is not selected. Where
/// one is at least 500 points ahead of all others it is selected alone; else as many are selected
/// as there is room for.
pub proof fn lexical_selections_are_the_best(
    tools: Seq<RegisteredTool>,
    candidates: Seq<usize>,
    query: Seq<char>,
    max_expansion: usize,
)
    requires
        candidates.no_duplicates(),
    ensures
        lexical_selection(tools, candidates, query, max_expansion) matches RankedModel::Lexical(
            list,
            confident,
        ) && {
            &&& list.no_duplicates()
            &&& forall|k: int|
                0 <= k < list.len() ==> fits_query(tools, candidates, query, #[trigger] list[k])
            &&& forall|j: int, k: int|
                0 <= j < k < list.len() ==> comes_before(
                    tools,
                    candidates,
                    query,
                    #[trigger] list[j],
                    #[trigger] list[k],
                )
            &&& max_expansion > 0 ==> forall|k: int, other: usize|
                0 <= k < list.len() && #[trigger] fits_query(tools, candidates, query, other)
                    && !list.contains(other) ==> comes_before(
                    tools,
                    candidates,
                    query,
                    #[trigger] list[k],
                    other,
                )
            &&& list.len() == 0 <==> max_expansion == 0 || forall|other: usize|
                !(#[trigger] fits_query(tools, candidates, query, other))
            &&& confident ==> list.len() == 1 && forall|other: usize|
                #[trigger] fits_query(tools, candidates, query, other) && other != list[0]
                    ==> points(tools, candidates, query, other) + 500 <= points(
                    tools,
                    candidates,
                    query,
                    list[0],
                )
            &&& !confident ==> list.len() <= max_expansion && forall|other: usize|
                #[trigger] fits_query(tools, candidates, query, other) && !list.contains(other)
                    ==> list.len() == max_expansion
            &&& !confident && list.len() > 0 ==> exists|other: usize| #[trigger]
                fits_query(tools, candidates, query, other) && other != list[0] && points(
                    tools,
                    candidates,
                    query,
                    other,
                ) + 500 > points(tools, candidates, query, list[0])
        },
{
    let terms = terms_of(query);
    let all = scored(tools, candidates, terms, candidates.len());
    let leq = rank_order(tools);
    let ranked = all.sort_by(leq);
    rank_order_is_total(tools);
    all.lemma_sort_by_ensures(leq);
    scored_holds_what_fits(tools, candidates, terms, candidates.len());
    assert(candidates.take(candidates.len() as int) =~= candidates);
    all.lemma_multiset_has_no_duplicates();
    ranked.lemma_multiset_has_no_duplicates_conv();
    assert forall|i: int| 0 <= i < ranked.len() implies {
        let item = #[trigger] ranked[i];
        &&& fits_query(tools, candidates, query, item.1)
        &&& points(tools, candidates, query, item.1) == item.0
    } by {
        let item = ranked[i];
        assert(ranked.contains(item));
        assert(ranked.to_multiset().contains(item)) by {
            ranked.to_multiset_ensures();
        }
        assert(all.contains(item)) by {
            all.to_multiset_ensures();
        }
        let k = choose|k: int| 0 <= k < all.len() && all[k] == item;
        assert(candidates.contains(all[k].1));
    }
    assert forall|other: usize| #[trigger]
        fits_query(tools, candidates, query, other) implies exists|i: int|
        0 <= i < ranked.len() && (#[trigger] ranked[i]).1 == other by {
        let k = choose|k: int| 0 <= k < candidates.len() && candidates[k] == other;
        let item = (score(tools, candidates, terms, candidates[k])->0, candidates[k]);
        assert(all.contains(item));
        assert(ranked.contains(item)) by {
            all.to_multiset_ensures();
            ranked.to_multiset_ensures();
            assert(all.to_multiset().count(item) > 0);
            assert(ranked.to_multiset().count(item) > 0);
        }
        let i = choose|i: int| 0 <= i < ranked.len() && ranked[i] == item;
        assert(ranked[i].1 == other);
    }
    assert forall|i: int, j: int| 0 <= i < ranked.len() && 0 <= j < ranked.len() && i
        != j implies (#[trigger] ranked[i]).1 != (#[trigger] ranked[j]).1 by {
        if ranked[i].1 == ranked[j].1 {
            assert(ranked[i] == ranked[j]);
        }
    }
    assert forall|i: int, j: int| 0 <= i < j < ranked.len() implies comes_before(
        tools,
        candidates,
        query,
        (#[trigger] ranked[i]).1,
        (#[trigger] ranked[j]).1,
    ) && ranked[i].0 >= ranked[j].0 by {
        assert(leq(ranked[i], ranked[j]));
        assert(ranks_before(tools, ranked[i], ranked[j]));
    }
    if terms.len() == 0 {
        assert forall|other: usize| !(#[trigger] fits_query(tools, candidates, query, other)) by {}
    }
    if let RankedModel::Lexical(list, confident) = lexical_selection(
        tools,
        candidates,
        query,
        max_expansion,
    ) {
        if max_expansion > 0 && terms.len() > 0 && ranked.len() > 0 {
            assert(forall|k: int| 0 <= k < list.len() ==> #[trigger] list[k] == ranked[k].1);
            assert forall|k: int, other: usize|
                0 <= k < list.len() && #[trigger] fits_query(tools, candidates, query, other)
                    && !list.contains(other) implies comes_before(
                tools,
                candidates,
                query,
                #[trigger] list[k],
                other,
            ) by {
                let i = choose|i: int| 0 <= i < ranked.len() && (#[trigger] ranked[i]).1 == other;
                if i < list.len() {
                    assert(list[i] == other);
                }
                assert(ranked[k].1 == list[k]);
            }
            assert(fits_query(tools, candidates, query, ranked[0].1));
            if confident {
                assert forall|other: usize|
                    #[trigger] fits_query(tools, candidates, query, other) && other
                        != list[0] implies points(tools, candidates, query, other) + 500 <= points(
                    tools,
                    candidates,
                    query,
                    list[0],
                ) by {
                    let i = choose|i: int|
                        0 <= i < ranked.len() && (#[trigger] ranked[i]).1 == other;
                    assert(ranked[0].1 == list[0]);
                    assert(i >= 1);
                    if i > 1 {
                        assert(ranked[1].0 >= ranked[i].0);
                    }
                }
            } else {
                assert(ranked[0].1 == list[0]);
                assert(fits_query(tools, candidates, query, ranked[1].1));
                assert(ranked[1].1 != ranked[0].1);
                assert forall|other: usize|
                    #[trigger] fits_query(tools, candidates, query, other) && !list.contains(
                        other,
                    ) implies list.len() == max_expansion by {
                    let i = choose|i: int|
                        0 <= i < ranked.len() && (#[trigger] ranked[i]).1 == other;
                    if i < list.len() {
                        assert(list[i] == other);
                    }
                }
            }
        } else if max_expansion > 0 {
            assert forall|other: usize| !(#[trigger] fits_query(
                tools,
                candidates,
                query,
                other,
            )) by {
                if fits_query(tools, candidates, query, other) {
                    let i = choose|i: int|
                        0 <= i < ranked.len() && (#[trigger] ranked[i]).1 == other;
                }
            }
        }
    }
}

/// The candidates that a query names are those that bear the name, in their order.
pub proof fn named_candidates_bear_the_name(
    tools: Seq<RegisteredTool>,
    candidates: Seq<usize>,
    kind: MatchKind,
    query: Seq<char>,
)
    ensures
        named(tools, candidates, kind, query, candidates.len()) == candidates.filter(named_so(tools, kind, query)),
{
    named_is_filter(tools, candidates, kind, query, candidates.len());
    assert(candidates.take(candidates.len() as int) =~= candidates);
}

proof fn named_is_filter(
    tools: Seq<RegisteredTool>,
    candidates: Seq<usize>,
    kind: MatchKind,
    query: Seq<char>,
    count: nat,
)
    requires
        count <= candidates.len(),
    ensures
        named(tools, candidates, kind, query, count) == candidates.take(count as int).filter(named_so(tools, kind, query)),
    decreases count,
{
    reveal(Seq::filter);
    if count > 0 {
        named_is_filter(tools, candidates, kind, query, (count - 1) as nat);
        assert(candidates.take(count as int).drop_last() =~= candidates.take(count - 1));
    } else {
        assert(candidates.take(0) =~= Seq::empty());
    }
}

/// How many candidates bear an exact name.
pub open spec fn bearers(
    tools: Seq<RegisteredTool>,
    candidates: Seq<usize>,
    kind: MatchKind,
    query: Seq<char>,
) -> Seq<usize> {
    candidates.filter(named_so(tools, kind, phrase(query)))
}

/// An exact name decides before any score: first the identifier of one tool, then a name, then a
/// namespace with all its tools, then an alias. A name or an alias that several tools bear selects
/// none of them. Scores decide only where nothing is named exactly.
pub proof fn exact_names_come_first(
    tools: Seq<RegisteredTool>,
    candidates: Seq<usize>,
    query: Seq<char>,
    max_expansion: usize,
)
    ensures
        ({
            let chosen = selection(tools, candidates, query, max_expansion);
            let ids = bearers(tools, candidates, MatchKind::Identifier, query);
            let own = bearers(tools, candidates, MatchKind::Name, query);
            let spaces = bearers(tools, candidates, MatchKind::Namespace, query);
            let aliases = bearers(tools, candidates, MatchKind::Alias, query);
            &&& ids.len() == 1 ==> chosen == RankedModel::Exact(ids)
            &&& ids.len() != 1 && own.len() == 1 ==> chosen == RankedModel::Exact(own)
            &&& ids.len() != 1 && own.len() > 1 ==> (chosen matches RankedModel::Exact(list)
                && list.len() == 0)
            &&& ids.len() != 1 && own.len() == 0 && spaces.len() > 0 ==> chosen
                == RankedModel::Exact(spaces)
            &&& ids.len() != 1 && own.len() == 0 && spaces.len() == 0 && aliases.len() == 1
                ==> chosen == RankedModel::Exact(aliases)
            &&& ids.len() != 1 && own.len() == 0 && spaces.len() == 0 && aliases.len() > 1 ==> (
            chosen matches RankedModel::Exact(list) && list.len() == 0)
            &&& chosen is Lexical <==> ids.len() != 1 && own.len() == 0 && spaces.len() == 0
                && aliases.len() == 0
            &&& chosen is Lexical ==> chosen == lexical_selection(
                tools,
                candidates,
                query,
                max_expansion,
            )
        }),
{
    named_candidates_bear_the_name(tools, candidates, MatchKind::Identifier, phrase(query));
    named_candidates_bear_the_name(tools, candidates, MatchKind::Name, phrase(query));
    named_candidates_bear_the_name(tools, candidates, MatchKind::Namespace, phrase(query));
    named_candidates_bear_the_name(tools, candidates, MatchKind::Alias, phrase(query));
}

/// What it takes for a query to name a tool exactly.
pub proof fn names_are_exact(tool: RegisteredTool, query: Seq<char>)
    ensures
        names(tool, MatchKind::Identifier, query) <==> tool.definition.id@ == query,
        names(tool, MatchKind::Name, query) <==> phrase(tool.definition.name@) == query,
        names(tool, MatchKind::Namespace, query) <==> text_option(tool.metadata.namespace) == Some(
            query,
        ),
        names(tool, MatchKind::Alias, query) <==> exists|k: int|
            0 <= k < tool.metadata.aliases@.len() && #[trigger] tool.metadata.aliases@[k]@ == query,
{
    let aliases = texts(tool.metadata.aliases@);
    if aliases.contains(query) {
        let k = choose|k: int| 0 <= k < aliases.len() && aliases[k] == query;
        assert(tool.metadata.aliases@[k]@ == query);
    }
    if exists|k: int|
        0 <= k < tool.metadata.aliases@.len() && #[trigger] tool.metadata.aliases@[k]@ == query {
        let k = choose|k: int|
            0 <= k < tool.metadata.aliases@.len() && #[trigger] tool.metadata.aliases@[k]@ == query;
        assert(aliases[k] == query);
    }
}

/// Whether a text is a run of letters and digits.
pub open spec fn one_word(text: Seq<char>) -> bool {
    forall|i: int| 0 <= i < text.len() ==> alphanumeric(#[trigger] text[i])
}

/// A text with its capitals made small.
pub open spec fn made_small(text: Seq<char>) -> Seq<char> {
    text.map_values(|character: char| small(character))
}

proof fn runs_are_words(text: Seq<char>, current: Seq<char>)
    requires
        one_word(text),
        current.len() + text.len() > 0,
    ensures
        words_from(text, current) == seq![current + made_small(text)],
    decreases text.len(),
{
    if text.len() > 0 {
        let next = current.push(small(text[0]));
        assert(alphanumeric(text[0]));
        assert forall|i: int| 0 <= i < text.drop_first().len() implies alphanumeric(
            #[trigger] text.drop_first()[i],
        ) by {
            assert(text.drop_first()[i] == text[i + 1]);
        }
        runs_are_words(text.drop_first(), next);
        assert(next + made_small(text.drop_first()) =~= current + made_small(text));
    } else {
        assert(current + made_small(text) =~= current);
    }
}

proof fn words_part_at_separators(
    left: Seq<char>,
    separator: char,
    right: Seq<char>,
    current: Seq<char>,
)
    requires
        !alphanumeric(separator),
    ensures
        words_from(left.push(separator) + right, current) == words_from(left, current) + words_from(
            right,
            Seq::empty(),
        ),
    decreases left.len(),
{
    let whole = left.push(separator) + right;
    if left.len() == 0 {
        assert(whole[0] == separator);
        assert(whole.drop_first() =~= right);
    } else {
        assert(whole[0] == left[0]);
        assert(whole.drop_first() =~= left.drop_first().push(separator) + right);
        if alphanumeric(left[0]) {
            words_part_at_separators(
                left.drop_first(),
                separator,
                right,
                current.push(small(left[0])),
            );
        } else {
            words_part_at_separators(left.drop_first(), separator, right, Seq::empty());
            let flushed = if current.len() > 0 {
                seq![current]
            } else {
                Seq::empty()
            };
            assert(flushed + (words_from(left.drop_first(), Seq::empty()) + words_from(
                right,
                Seq::empty(),
            )) =~= (flushed + words_from(left.drop_first(), Seq::empty())) + words_from(
                right,
                Seq::empty(),
            ));
        }
    }
}

/// A text is split into words at every character that is no letter or digit, and nowhere else; a
/// word is told with small letters.
pub proof fn words_are_runs_of_letters_and_digits(left: Seq<char>, separator: char, right: Seq<char>)
    ensures
        !alphanumeric(separator) ==> words_from(left.push(separator) + right, Seq::empty())
            == words_from(left, Seq::empty()) + words_from(right, Seq::empty()),
        left.len() > 0 && one_word(left) ==> words_from(left, Seq::empty()) == seq![
            made_small(left),
        ],
        words_from(Seq::empty(), Seq::empty()).len() == 0,
{
    if !alphanumeric(separator) {
        words_part_at_separators(left, separator, right, Seq::empty());
    }
    if left.len() > 0 && one_word(left) {
        runs_are_words(left, Seq::empty());
        assert(Seq::<char>::empty() + made_small(left) =~= made_small(left));
    }
}

/// The terms of a text are the words of its first 4096 bytes, the first 64 of them.
pub proof fn terms_are_the_first_words(text: Seq<char>)
    ensures
        ({
            let part = bounded(text, 4096);
            let words = words_from(part, Seq::empty());
            let terms = terms_of(text);
            &&& part == text.take(part.len() as int)
            &&& terms.len() == (if words.len() < 64 {
                words.len()
            } else {
                64
            })
            &&& forall|i: int| 0 <= i < terms.len() ==> #[trigger] terms[i] == words[i]
        }),
{
    bounded_is_short(text, 0, 4096);
}

} // verus!
