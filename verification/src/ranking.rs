//! Which tools a query names, and how well the others fit it.

use crate::error::HarnessError;
use crate::guard::{ask_at, stops};
use crate::canonical::{is_text_le, text_le, text_le_total, text_le_transitive};
use crate::lexicon::{count_term, normalize_phrase, phrase, term_count, terms_of, tokenize};
use crate::ordering::{inserted_in_order, sorted_is_sorting};
use crate::registry::RegisteredTool;
use crate::text::{contains_text, same_text, text_option, texts};
use vstd::prelude::*;
use vstd::relations::{sorted_by, total_ordering};

verus! {

/// What a query may name exactly.
#[derive(Clone, Copy, Debug, PartialEq, Eq, Structural)]
pub enum MatchKind {
    /// The identifier of a tool.
    Identifier,
    /// The name of a tool.
    Name,
    /// The namespace of tools.
    Namespace,
    /// An alias of a tool.
    Alias,
}

/// Whether a query names a tool exactly.
pub open spec fn names(tool: RegisteredTool, kind: MatchKind, query: Seq<char>) -> bool {
    match kind {
        MatchKind::Identifier => tool.definition.id@ == query,
        MatchKind::Name => phrase(tool.definition.name@) == query,
        MatchKind::Namespace => text_option(tool.metadata.namespace) == Some(query),
        MatchKind::Alias => texts(tool.metadata.aliases@).contains(query),
    }
}

/// The first `count` candidates, of those that a query names exactly.
pub open spec fn named(
    tools: Seq<RegisteredTool>,
    candidates: Seq<usize>,
    kind: MatchKind,
    query: Seq<char>,
    count: nat,
) -> Seq<usize>
    decreases count,
{
    if count == 0 || count > candidates.len() {
        Seq::empty()
    } else {
        let before = named(tools, candidates, kind, query, (count - 1) as nat);
        if names(tools[candidates[count - 1] as int], kind, query) {
            before.push(candidates[count - 1])
        } else {
            before
        }
    }
}

/// The terms of the first `count` aliases.
pub open spec fn alias_terms(aliases: Seq<Seq<char>>, count: nat) -> Seq<Seq<char>>
    decreases count,
{
    if count == 0 || count > aliases.len() {
        Seq::empty()
    } else {
        alias_terms(aliases, (count - 1) as nat) + terms_of(aliases[count - 1])
    }
}

/// The terms under which a tool is found: those of its identifier, name, namespace and
/// aliases.
pub open spec fn index_terms(tool: RegisteredTool) -> Seq<Seq<char>> {
    terms_of(tool.definition.id@) + terms_of(tool.definition.name@) + (
    match text_option(tool.metadata.namespace) {
        Some(namespace) => terms_of(namespace),
        None => Seq::empty(),
    }) + alias_terms(texts(tool.metadata.aliases@), tool.metadata.aliases@.len())
}

/// The terms under which a tool is found.
pub fn collect_terms(tool: &RegisteredTool) -> (result: Vec<String>)
    ensures
        texts(result@) == index_terms(*tool),
{
    let mut result = tokenize(tool.definition.id.as_str());
    let ghost first = texts(result@);
    let mut more = tokenize(tool.definition.name.as_str());
    let ghost second = texts(more@);
    result.append(&mut more);
    assert(texts(result@) =~= first + second);
    let ghost named_terms = texts(result@);
    if let Some(namespace) = &tool.metadata.namespace {
        let mut more = tokenize(namespace.as_str());
        let ghost third = texts(more@);
        result.append(&mut more);
        assert(texts(result@) =~= named_terms + third);
    } else {
        assert(named_terms + Seq::<Seq<char>>::empty() =~= named_terms);
    }
    let ghost base = texts(result@);
    let ghost aliases = texts(tool.metadata.aliases@);
    let mut i: usize = 0;
    assert(base + alias_terms(aliases, 0) =~= base);
    while i < tool.metadata.aliases.len()
        invariant
            i <= tool.metadata.aliases@.len(),
            aliases == texts(tool.metadata.aliases@),
            texts(result@) == base + alias_terms(aliases, i as nat),
        decreases tool.metadata.aliases@.len() - i,
    {
        let ghost before = texts(result@);
        let mut more = tokenize(tool.metadata.aliases[i].as_str());
        let ghost fresh = texts(more@);
        assert(fresh == terms_of(aliases[i as int]));
        result.append(&mut more);
        assert(texts(result@) =~= before + fresh);
        assert(before + fresh =~= base + (alias_terms(aliases, i as nat) + fresh));
        i += 1;
    }
    result
}

/// How many of the first `count` candidates are found under a term.
pub open spec fn document_frequency(
    tools: Seq<RegisteredTool>,
    candidates: Seq<usize>,
    term: Seq<char>,
    count: nat,
) -> nat
    decreases count,
{
    if count == 0 || count > candidates.len() {
        0
    } else {
        document_frequency(tools, candidates, term, (count - 1) as nat) + (if term_count(
            index_terms(tools[candidates[count - 1] as int]),
            term,
        ) > 0 {
            1nat
        } else {
            0nat
        })
    }
}

/// What one term of the query adds to the score of a tool in which it occurs `occurrences`
/// times: rarer terms weigh more, and no more than eight occurrences count.
pub open spec fn term_weight(documents: nat, frequency: nat, occurrences: nat) -> nat {
    ((documents + 1) * 1000) / (frequency + 1) * (if occurrences < 8 {
        occurrences
    } else {
        8
    })
}

/// The score of a tool after the first `count` terms of the query, as far as a counter can
/// hold it.
pub open spec fn score_of(
    tools: Seq<RegisteredTool>,
    candidates: Seq<usize>,
    query_terms: Seq<Seq<char>>,
    index: usize,
    count: nat,
) -> Option<u64>
    decreases count,
{
    if count == 0 || count > query_terms.len() {
        Some(0)
    } else {
        let term = query_terms[count - 1];
        let occurrences = term_count(index_terms(tools[index as int]), term);
        match score_of(tools, candidates, query_terms, index, (count - 1) as nat) {
            None => None,
            Some(total) => if occurrences == 0 {
                Some(total)
            } else {
                let next = total + term_weight(
                    candidates.len(),
                    document_frequency(tools, candidates, term, candidates.len()),
                    occurrences,
                );
                if (candidates.len() + 1) * 1000 > u64::MAX || next > u64::MAX {
                    None
                } else {
                    Some(next as u64)
                }
            },
        }
    }
}

/// The first `count` candidates with a score, of those that have one.
pub open spec fn scored(
    tools: Seq<RegisteredTool>,
    candidates: Seq<usize>,
    query_terms: Seq<Seq<char>>,
    count: nat,
) -> Seq<(u64, usize)>
    decreases count,
{
    if count == 0 || count > candidates.len() {
        Seq::empty()
    } else {
        let before = scored(tools, candidates, query_terms, (count - 1) as nat);
        let index = candidates[count - 1];
        match score_of(tools, candidates, query_terms, index, query_terms.len()) {
            Some(score) => if score > 0 {
                before.push((score, index))
            } else {
                before
            },
            None => before,
        }
    }
}

/// The order of ranked tools: higher scores first, then identifiers in their order.
pub open spec fn rank_order(tools: Seq<RegisteredTool>) -> spec_fn(
    (u64, usize),
    (u64, usize),
) -> bool {
    |left: (u64, usize), right: (u64, usize)| ranks_before(tools, left, right)
}

/// Whether a ranked tool stands at or before another.
pub open spec fn ranks_before(
    tools: Seq<RegisteredTool>,
    left: (u64, usize),
    right: (u64, usize),
) -> bool {
    let left_id = tools[left.1 as int].definition.id@;
    let right_id = tools[right.1 as int].definition.id@;
    if left.0 != right.0 {
        left.0 > right.0
    } else if left_id != right_id {
        text_le(left_id, right_id)
    } else {
        left.1 <= right.1
    }
}

/// The order of ranked tools is total.
pub proof fn rank_order_is_total(tools: Seq<RegisteredTool>)
    ensures
        total_ordering(rank_order(tools)),
{
    let leq = rank_order(tools);
    assert forall|a: (u64, usize), b: (u64, usize)| #[trigger]
        leq(a, b) && #[trigger] leq(b, a) implies a == b by {
        text_le_total(tools[a.1 as int].definition.id@, tools[b.1 as int].definition.id@);
    }
    assert forall|a: (u64, usize), b: (u64, usize), c: (u64, usize)| #[trigger]
        leq(a, b) && #[trigger] leq(b, c) implies leq(a, c) by {
        let x = tools[a.1 as int].definition.id@;
        let y = tools[b.1 as int].definition.id@;
        let z = tools[c.1 as int].definition.id@;
        text_le_total(x, y);
        text_le_total(y, z);
        text_le_total(x, z);
        if a.0 == b.0 && b.0 == c.0 && x != y && y != z {
            text_le_transitive(x, y, z);
            if x == z {
                text_le_total(x, y);
            }
        }
    }
    assert forall|a: (u64, usize), b: (u64, usize)| #[trigger]
        leq(a, b) || #[trigger] leq(b, a) by {
        text_le_total(tools[a.1 as int].definition.id@, tools[b.1 as int].definition.id@);
    }
}

/// What a query selects from candidates.
pub enum RankedSelection {
    /// The tools that it names exactly; none where it names several that must be told apart.
    Exact(Vec<usize>),
    /// The tools that fit it best, and whether the first one is far ahead.
    Lexical(Vec<usize>, bool),
}

/// The model of a selection.
pub enum RankedModel {
    /// The tools that the query names exactly.
    Exact(Seq<usize>),
    /// The tools that fit it best, and whether the first one is far ahead.
    Lexical(Seq<usize>, bool),
}

impl View for RankedSelection {
    type V = RankedModel;

    open spec fn view(&self) -> RankedModel {
        match self {
            RankedSelection::Exact(list) => RankedModel::Exact(list@),
            RankedSelection::Lexical(list, confident) => RankedModel::Lexical(list@, *confident),
        }
    }
}

/// The tools of the first `count` ranked ones.
pub open spec fn best(ranked: Seq<(u64, usize)>, count: nat) -> Seq<usize> {
    Seq::new(
        if ranked.len() < count {
            ranked.len()
        } else {
            count
        },
        |i: int| ranked[i].1,
    )
}

/// Whether the best score is far ahead of the second.
pub open spec fn far_ahead(ranked: Seq<(u64, usize)>) -> bool {
    ranked.len() < 2 || ranked[0].0 >= ranked[1].0 + 500
}

/// What a query that names no tool exactly selects.
pub open spec fn lexical_selection(
    tools: Seq<RegisteredTool>,
    candidates: Seq<usize>,
    query: Seq<char>,
    max_expansion: usize,
) -> RankedModel {
    let query_terms = terms_of(query);
    if max_expansion == 0 || query_terms.len() == 0 {
        RankedModel::Lexical(Seq::empty(), false)
    } else {
        let ranked = scored(tools, candidates, query_terms, candidates.len()).sort_by(
            rank_order(tools),
        );
        if ranked.len() == 0 {
            RankedModel::Lexical(Seq::empty(), false)
        } else if far_ahead(ranked) {
            RankedModel::Lexical(best(ranked, 1), true)
        } else {
            RankedModel::Lexical(best(ranked, max_expansion as nat), false)
        }
    }
}

/// What a query selects: a tool that it names by identifier, name, namespace or alias, in this
/// order, else the tools that fit it best.
pub open spec fn selection(
    tools: Seq<RegisteredTool>,
    candidates: Seq<usize>,
    query: Seq<char>,
    max_expansion: usize,
) -> RankedModel {
    let wanted = phrase(query);
    let all = candidates.len();
    let by_id = named(tools, candidates, MatchKind::Identifier, wanted, all);
    let by_name = named(tools, candidates, MatchKind::Name, wanted, all);
    let by_namespace = named(tools, candidates, MatchKind::Namespace, wanted, all);
    let by_alias = named(tools, candidates, MatchKind::Alias, wanted, all);
    if by_id.len() == 1 {
        RankedModel::Exact(by_id)
    } else if by_name.len() == 1 {
        RankedModel::Exact(by_name)
    } else if by_name.len() > 1 {
        RankedModel::Exact(Seq::empty())
    } else if by_namespace.len() > 0 {
        RankedModel::Exact(by_namespace)
    } else if by_alias.len() == 1 {
        RankedModel::Exact(by_alias)
    } else if by_alias.len() > 1 {
        RankedModel::Exact(Seq::empty())
    } else {
        lexical_selection(tools, candidates, query, max_expansion)
    }
}

fn is_named(tool: &RegisteredTool, kind: MatchKind, query: &str) -> (result: bool)
    ensures
        result == names(*tool, kind, query@),
{
    match kind {
        MatchKind::Identifier => same_text(tool.definition.id.as_str(), query),
        MatchKind::Name => {
            let folded = normalize_phrase(tool.definition.name.as_str());
            same_text(folded.as_str(), query)
        },
        MatchKind::Namespace => match &tool.metadata.namespace {
            Some(namespace) => same_text(namespace.as_str(), query),
            None => false,
        },
        MatchKind::Alias => contains_text(&tool.metadata.aliases, query),
    }
}

fn find_named(
    tools: &Vec<RegisteredTool>,
    candidates: &Vec<usize>,
    kind: MatchKind,
    query: &str,
) -> (result: Vec<usize>)
    requires
        forall|k: int| 0 <= k < candidates@.len() ==> (#[trigger] candidates@[k]) < tools@.len(),
    ensures
        result@ == named(tools@, candidates@, kind, query@, candidates@.len()),
        forall|k: int| 0 <= k < result@.len() ==> (#[trigger] result@[k]) < tools@.len(),
{
    let mut result: Vec<usize> = Vec::new();
    let mut i: usize = 0;
    while i < candidates.len()
        invariant
            i <= candidates@.len(),
            forall|k: int|
                0 <= k < candidates@.len() ==> (#[trigger] candidates@[k]) < tools@.len(),
            result@ == named(tools@, candidates@, kind, query@, i as nat),
            forall|k: int| 0 <= k < result@.len() ==> (#[trigger] result@[k]) < tools@.len(),
        decreases candidates@.len() - i,
    {
        if is_named(&tools[candidates[i]], kind, query) {
            result.push(candidates[i]);
        }
        i += 1;
    }
    result
}

/// Whether terms were collected for every tool.
pub open spec fn terms_match(tools: Seq<RegisteredTool>, terms: Seq<Vec<String>>) -> bool {
    &&& terms.len() == tools.len()
    &&& forall|i: int|
        0 <= i < tools.len() ==> texts((#[trigger] terms[i])@) == index_terms(tools[i])
}

fn count_documents<G: Fn() -> Result<(), HarnessError>>(
    terms: &Vec<Vec<String>>,
    candidates: &Vec<usize>,
    term: &str,
    guard: &G,
    Ghost(tools): Ghost<Seq<RegisteredTool>>,
) -> (result: Result<usize, HarnessError>)
    requires
        call_requires(*guard, ()),
        terms_match(tools, terms@),
        forall|k: int| 0 <= k < candidates@.len() ==> (#[trigger] candidates@[k]) < tools.len(),
    ensures
        match result {
            Ok(count) => count == document_frequency(tools, candidates@, term@, candidates@.len())
                && count <= candidates@.len(),
            Err(error) => stops(*guard, error),
        },
{
    let mut count: usize = 0;
    let mut i: usize = 0;
    while i < candidates.len()
        invariant
            call_requires(*guard, ()),
            i <= candidates@.len(),
            count <= i,
            terms_match(tools, terms@),
            forall|k: int|
                0 <= k < candidates@.len() ==> (#[trigger] candidates@[k]) < tools.len(),
            count == document_frequency(tools, candidates@, term@, i as nat),
        decreases candidates@.len() - i,
    {
        if let Err(error) = ask_at(guard, i) {
            return Err(error);
        }
        let index = candidates[i];
        assert(texts(terms@[index as int]@) == index_terms(tools[index as int]));
        if count_term(&terms[index], term) > 0 {
            count += 1;
        }
        i += 1;
    }
    Ok(count)
}

fn frequencies<G: Fn() -> Result<(), HarnessError>>(
    terms: &Vec<Vec<String>>,
    candidates: &Vec<usize>,
    query_terms: &Vec<String>,
    guard: &G,
    Ghost(tools): Ghost<Seq<RegisteredTool>>,
) -> (result: Result<Vec<usize>, HarnessError>)
    requires
        call_requires(*guard, ()),
        terms_match(tools, terms@),
        forall|k: int| 0 <= k < candidates@.len() ==> (#[trigger] candidates@[k]) < tools.len(),
    ensures
        match result {
            Ok(counts) => {
                &&& counts@.len() == query_terms@.len()
                &&& forall|k: int|
                    0 <= k < counts@.len() ==> (#[trigger] counts@[k]) == document_frequency(
                        tools,
                        candidates@,
                        query_terms@[k]@,
                        candidates@.len(),
                    ) && counts@[k] <= candidates@.len()
            },
            Err(error) => stops(*guard, error),
        },
{
    let mut result: Vec<usize> = Vec::new();
    let mut i: usize = 0;
    while i < query_terms.len()
        invariant
            call_requires(*guard, ()),
            i <= query_terms@.len(),
            result@.len() == i,
            terms_match(tools, terms@),
            forall|k: int|
                0 <= k < candidates@.len() ==> (#[trigger] candidates@[k]) < tools.len(),
            forall|k: int|
                0 <= k < i ==> (#[trigger] result@[k]) == document_frequency(
                    tools,
                    candidates@,
                    query_terms@[k]@,
                    candidates@.len(),
                ) && result@[k] <= candidates@.len(),
        decreases query_terms@.len() - i,
    {
        match count_documents(terms, candidates, query_terms[i].as_str(), guard, Ghost(tools)) {
            Ok(count) => result.push(count),
            Err(error) => return Err(error),
        }
        i += 1;
    }
    Ok(result)
}

/// What one term of the query adds to a score, as far as a counter can hold it.
fn weigh(documents: usize, frequency: usize, occurrences: usize, total: u64) -> (result: Option<u64>)
    requires
        frequency <= documents,
    ensures
        ({
            let next = total + term_weight(
                documents as nat,
                frequency as nat,
                occurrences as nat,
            );
            if (documents + 1) * 1000 > u64::MAX || next > u64::MAX {
                result is None
            } else {
                result == Some(next as u64)
            }
        }),
{
    let scaled: Option<u64> = match (documents as u64).checked_add(1) {
        Some(more) => more.checked_mul(1000),
        None => None,
    };
    let counted: u64 = if occurrences < 8 {
        occurrences as u64
    } else {
        8
    };
    match scaled {
        None => None,
        Some(scaled) => {
            let idf: u64 = scaled / (frequency as u64 + 1);
            assert(idf == ((documents + 1) * 1000) / (frequency as int + 1));
            match idf.checked_mul(counted) {
                None => {
                    assert(idf * counted > u64::MAX);
                    None
                },
                Some(weight) => total.checked_add(weight),
            }
        },
    }
}

fn score_tool(
    terms: &Vec<Vec<String>>,
    candidates: &Vec<usize>,
    query_terms: &Vec<String>,
    counts: &Vec<usize>,
    index: usize,
    Ghost(tools): Ghost<Seq<RegisteredTool>>,
) -> (result: Option<u64>)
    requires
        terms_match(tools, terms@),
        index < tools.len(),
        counts@.len() == query_terms@.len(),
        forall|k: int|
            0 <= k < counts@.len() ==> (#[trigger] counts@[k]) == document_frequency(
                tools,
                candidates@,
                query_terms@[k]@,
                candidates@.len(),
            ) && counts@[k] <= candidates@.len(),
    ensures
        result == score_of(
            tools,
            candidates@,
            texts(query_terms@),
            index,
            query_terms@.len(),
        ),
{
    let ghost query = texts(query_terms@);
    let mut total: u64 = 0;
    let mut i: usize = 0;
    while i < query_terms.len()
        invariant
            i <= query_terms@.len(),
            query == texts(query_terms@),
            terms_match(tools, terms@),
            index < tools.len(),
            counts@.len() == query_terms@.len(),
            forall|k: int|
                0 <= k < counts@.len() ==> (#[trigger] counts@[k]) == document_frequency(
                    tools,
                    candidates@,
                    query_terms@[k]@,
                    candidates@.len(),
                ) && counts@[k] <= candidates@.len(),
                score_of(tools, candidates@, query, index, i as nat) == Some(total),
        decreases query_terms@.len() - i,
    {
        assert(query[i as int] == query_terms@[i as int]@);
        assert(texts(terms@[index as int]@) == index_terms(tools[index as int]));
        let occurrences = count_term(&terms[index], query_terms[i].as_str());
        if occurrences > 0 {
            let frequency = counts[i];
            match weigh(candidates.len(), frequency, occurrences, total) {
                None => {
                    proof {
                        assert(score_of(tools, candidates@, query, index, (i + 1) as nat) is None);
                        score_stays_lost(
                            tools,
                            candidates@,
                            query,
                            index,
                            (i + 1) as nat,
                            query.len(),
                        );
                    }
                    return None;
                },
                Some(next) => {
                    total = next;
                },
            }
        }
        i += 1;
    }
    Some(total)
}

proof fn score_stays_lost(
    tools: Seq<RegisteredTool>,
    candidates: Seq<usize>,
    query_terms: Seq<Seq<char>>,
    index: usize,
    count: nat,
    longer: nat,
)
    requires
        count <= longer <= query_terms.len(),
        score_of(tools, candidates, query_terms, index, count) is None,
    ensures
        score_of(tools, candidates, query_terms, index, longer) is None,
    decreases longer - count,
{
    if count < longer {
        score_stays_lost(tools, candidates, query_terms, index, count, (longer - 1) as nat);
    }
}

fn stands_before(tools: &Vec<RegisteredTool>, left: (u64, usize), right: (u64, usize)) -> (result:
    bool)
    requires
        left.1 < tools@.len(),
        right.1 < tools@.len(),
    ensures
        result == ranks_before(tools@, left, right),
{
    if left.0 != right.0 {
        return left.0 > right.0;
    }
    let left_id = tools[left.1].definition.id.as_str();
    let right_id = tools[right.1].definition.id.as_str();
    if same_text(left_id, right_id) {
        left.1 <= right.1
    } else {
        is_text_le(left_id, right_id)
    }
}

/// Puts a scored tool where it belongs.
fn place(tools: &Vec<RegisteredTool>, ranked: &mut Vec<(u64, usize)>, item: (u64, usize))
    requires
        item.1 < tools@.len(),
        forall|k: int| 0 <= k < old(ranked)@.len() ==> (#[trigger] old(ranked)@[k]).1 < tools@.len(),
        sorted_by(old(ranked)@, rank_order(tools@)),
    ensures
        sorted_by(final(ranked)@, rank_order(tools@)),
        final(ranked)@.to_multiset() == old(ranked)@.to_multiset().insert(item),
        forall|k: int|
            0 <= k < final(ranked)@.len() ==> (#[trigger] final(ranked)@[k]).1 < tools@.len(),
{
    let ghost leq = rank_order(tools@);
    let ghost sorted = ranked@;
    proof {
        rank_order_is_total(tools@);
    }
    let mut position: usize = 0;
    while position < ranked.len() && stands_before(tools, ranked[position], item)
        invariant
            position <= ranked@.len(),
            sorted == ranked@,
            leq == rank_order(tools@),
            item.1 < tools@.len(),
            forall|k: int| 0 <= k < ranked@.len() ==> (#[trigger] ranked@[k]).1 < tools@.len(),
            forall|j: int| 0 <= j < position ==> leq(#[trigger] sorted[j], item),
        ensures
            position <= ranked@.len(),
            forall|j: int| 0 <= j < position ==> leq(#[trigger] sorted[j], item),
            position < ranked@.len() ==> !ranks_before(tools@, sorted[position as int], item),
        decreases ranked@.len() - position,
    {
        position += 1;
    }
    proof {
        assert forall|j: int| position <= j < sorted.len() implies leq(
            item,
            #[trigger] sorted[j],
        ) by {
            assert(leq(item, sorted[position as int]) || leq(sorted[position as int], item));
            if j > position {
                assert(leq(sorted[position as int], sorted[j]));
                assert(leq(item, sorted[position as int]) && leq(
                    sorted[position as int],
                    sorted[j],
                ));
            }
        }
        inserted_in_order(sorted, position as int, item, leq);
    }
    ranked.insert(position, item);
}

fn best_tools(ranked: &Vec<(u64, usize)>, count: usize) -> (result: Vec<usize>)
    ensures
        result@ == best(ranked@, count as nat),
{
    let mut result: Vec<usize> = Vec::new();
    let mut i: usize = 0;
    while i < ranked.len() && i < count
        invariant
            i <= ranked@.len(),
            i <= count,
            result@.len() == i,
            forall|j: int| 0 <= j < i ==> (#[trigger] result@[j]) == ranked@[j].1,
        decreases ranked@.len() - i,
    {
        result.push(ranked[i].1);
        i += 1;
    }
    assert(result@ =~= best(ranked@, count as nat));
    result
}

fn rank_lexically<G: Fn() -> Result<(), HarnessError>>(
    tools: &Vec<RegisteredTool>,
    terms: &Vec<Vec<String>>,
    candidates: &Vec<usize>,
    query: &str,
    max_expansion: usize,
    guard: &G,
) -> (result: Result<RankedSelection, HarnessError>)
    requires
        call_requires(*guard, ()),
        terms_match(tools@, terms@),
        forall|k: int| 0 <= k < candidates@.len() ==> (#[trigger] candidates@[k]) < tools@.len(),
    ensures
        match result {
            Ok(ranked) => ranked@ == lexical_selection(tools@, candidates@, query@, max_expansion),
            Err(error) => stops(*guard, error),
        },
{
    let query_terms = tokenize(query);
    if max_expansion == 0 || query_terms.len() == 0 {
        let none: Vec<usize> = Vec::new();
        assert(none@ =~= Seq::empty());
        return Ok(RankedSelection::Lexical(none, false));
    }
    let ghost wanted = texts(query_terms@);
    let ghost leq = rank_order(tools@);
    let counts = match frequencies(terms, candidates, &query_terms, guard, Ghost(tools@)) {
        Ok(counts) => counts,
        Err(error) => return Err(error),
    };
    let mut ranked: Vec<(u64, usize)> = Vec::new();
    let mut i: usize = 0;
    assert(ranked@ =~= scored(tools@, candidates@, wanted, 0));
    while i < candidates.len()
        invariant
            call_requires(*guard, ()),
            i <= candidates@.len(),
            wanted == texts(query_terms@),
            leq == rank_order(tools@),
            terms_match(tools@, terms@),
            forall|k: int|
                0 <= k < candidates@.len() ==> (#[trigger] candidates@[k]) < tools@.len(),
                counts@.len() == query_terms@.len(),
            forall|k: int|
                0 <= k < counts@.len() ==> (#[trigger] counts@[k]) == document_frequency(
                    tools@,
                    candidates@,
                    query_terms@[k]@,
                    candidates@.len(),
                ) && counts@[k] <= candidates@.len(),
            sorted_by(ranked@, leq),
            ranked@.to_multiset() == scored(
                tools@,
                candidates@,
                wanted,
                i as nat,
            ).to_multiset(),
            forall|k: int| 0 <= k < ranked@.len() ==> (#[trigger] ranked@[k]).1 < tools@.len(),
        decreases candidates@.len() - i,
    {
        if let Err(error) = ask_at(guard, i) {
            return Err(error);
        }
        let index = candidates[i];
        if let Some(score) = score_tool(
            terms,
            candidates,
            &query_terms,
            &counts,
            index,
            Ghost(tools@),
        ) {
            if score > 0 {
                proof {
                    vstd::seq_lib::to_multiset_build(
                        scored(tools@, candidates@, wanted, i as nat),
                        (score, index),
                    );
                }
                place(tools, &mut ranked, (score, index));
            }
        }
        i += 1;
    }
    proof {
        rank_order_is_total(tools@);
        sorted_is_sorting(
            scored(tools@, candidates@, wanted, candidates@.len()),
            ranked@,
            leq,
        );
    }
    if ranked.len() == 0 {
        let none: Vec<usize> = Vec::new();
        assert(none@ =~= Seq::empty());
        return Ok(RankedSelection::Lexical(none, false));
    }
    let confident = ranked.len() < 2 || ranked[0].0.saturating_sub(ranked[1].0) >= 500;
    if confident {
        Ok(RankedSelection::Lexical(best_tools(&ranked, 1), true))
    } else {
        Ok(RankedSelection::Lexical(best_tools(&ranked, max_expansion), false))
    }
}

/// What a query selects from candidates, unless the guard ends it.
pub fn rank<G: Fn() -> Result<(), HarnessError>>(
    tools: &Vec<RegisteredTool>,
    terms: &Vec<Vec<String>>,
    candidates: &Vec<usize>,
    query: &str,
    max_expansion: usize,
    guard: &G,
) -> (result: Result<RankedSelection, HarnessError>)
    requires
        call_requires(*guard, ()),
        terms_match(tools@, terms@),
        forall|k: int| 0 <= k < candidates@.len() ==> (#[trigger] candidates@[k]) < tools@.len(),
    ensures
        match result {
            Ok(ranked) => ranked@ == selection(tools@, candidates@, query@, max_expansion),
            Err(error) => stops(*guard, error),
        },
{
    let wanted = normalize_phrase(query);
    if let Err(error) = guard() {
        return Err(error);
    }
    let by_id = find_named(tools, candidates, MatchKind::Identifier, wanted.as_str());
    if by_id.len() == 1 {
        return Ok(RankedSelection::Exact(by_id));
    }
    if let Err(error) = guard() {
        return Err(error);
    }
    let by_name = find_named(tools, candidates, MatchKind::Name, wanted.as_str());
    if by_name.len() == 1 {
        return Ok(RankedSelection::Exact(by_name));
    }
    if by_name.len() > 1 {
        let none: Vec<usize> = Vec::new();
        assert(none@ =~= Seq::empty());
        return Ok(RankedSelection::Exact(none));
    }
    if let Err(error) = guard() {
        return Err(error);
    }
    let by_namespace = find_named(tools, candidates, MatchKind::Namespace, wanted.as_str());
    if by_namespace.len() > 0 {
        return Ok(RankedSelection::Exact(by_namespace));
    }
    if let Err(error) = guard() {
        return Err(error);
    }
    let by_alias = find_named(tools, candidates, MatchKind::Alias, wanted.as_str());
    if by_alias.len() == 1 {
        return Ok(RankedSelection::Exact(by_alias));
    }
    if by_alias.len() > 1 {
        let none: Vec<usize> = Vec::new();
        assert(none@ =~= Seq::empty());
        return Ok(RankedSelection::Exact(none));
    }
    rank_lexically(tools, terms, candidates, query, max_expansion, guard)
}

/// Whether two registries hold the same tools at the places of candidates.
pub open spec fn agree_on(
    left: Seq<RegisteredTool>,
    right: Seq<RegisteredTool>,
    candidates: Seq<usize>,
) -> bool {
    forall|k: int|
        0 <= k < candidates.len() ==> left[(#[trigger] candidates[k]) as int]
            == right[candidates[k] as int]
}

proof fn named_is_local(
    left: Seq<RegisteredTool>,
    right: Seq<RegisteredTool>,
    candidates: Seq<usize>,
    kind: MatchKind,
    query: Seq<char>,
    count: nat,
)
    requires
        agree_on(left, right, candidates),
        count <= candidates.len(),
    ensures
        named(left, candidates, kind, query, count) == named(right, candidates, kind, query, count),
    decreases count,
{
    if count > 0 {
        named_is_local(left, right, candidates, kind, query, (count - 1) as nat);
        assert(left[candidates[count - 1] as int] == right[candidates[count - 1] as int]);
    }
}

proof fn frequency_is_local(
    left: Seq<RegisteredTool>,
    right: Seq<RegisteredTool>,
    candidates: Seq<usize>,
    term: Seq<char>,
    count: nat,
)
    requires
        agree_on(left, right, candidates),
        count <= candidates.len(),
    ensures
        document_frequency(left, candidates, term, count) == document_frequency(
            right,
            candidates,
            term,
            count,
        ),
    decreases count,
{
    if count > 0 {
        frequency_is_local(left, right, candidates, term, (count - 1) as nat);
        assert(left[candidates[count - 1] as int] == right[candidates[count - 1] as int]);
    }
}

proof fn score_is_local(
    left: Seq<RegisteredTool>,
    right: Seq<RegisteredTool>,
    candidates: Seq<usize>,
    query_terms: Seq<Seq<char>>,
    index: usize,
    count: nat,
)
    requires
        agree_on(left, right, candidates),
        left[index as int] == right[index as int],
        count <= query_terms.len(),
    ensures
        score_of(left, candidates, query_terms, index, count) == score_of(
            right,
            candidates,
            query_terms,
            index,
            count,
        ),
    decreases count,
{
    if count > 0 {
        score_is_local(left, right, candidates, query_terms, index, (count - 1) as nat);
        frequency_is_local(
            left,
            right,
            candidates,
            query_terms[count - 1],
            candidates.len(),
        );
    }
}

proof fn scored_is_local(
    left: Seq<RegisteredTool>,
    right: Seq<RegisteredTool>,
    candidates: Seq<usize>,
    query_terms: Seq<Seq<char>>,
    count: nat,
)
    requires
        agree_on(left, right, candidates),
        count <= candidates.len(),
    ensures
        scored(left, candidates, query_terms, count) == scored(
            right,
            candidates,
            query_terms,
            count,
        ),
        forall|k: int|
            0 <= k < scored(left, candidates, query_terms, count).len() ==> candidates.contains(
                (#[trigger] scored(left, candidates, query_terms, count)[k]).1,
            ),
    decreases count,
{
    if count > 0 {
        let index = candidates[count - 1];
        scored_is_local(left, right, candidates, query_terms, (count - 1) as nat);
        assert(left[index as int] == right[index as int]);
        assert(candidates.contains(index));
        score_is_local(left, right, candidates, query_terms, index, query_terms.len());
    }
}

/// What a query selects depends on the candidates alone: tools that a caller may not see
/// change neither which tools are found nor their order.
pub proof fn hidden_tools_change_nothing(
    left: Seq<RegisteredTool>,
    right: Seq<RegisteredTool>,
    candidates: Seq<usize>,
    query: Seq<char>,
    max_expansion: usize,
)
    requires
        agree_on(left, right, candidates),
    ensures
        selection(left, candidates, query, max_expansion) == selection(
            right,
            candidates,
            query,
            max_expansion,
        ),
{
    let wanted = phrase(query);
    let all = candidates.len();
    named_is_local(left, right, candidates, MatchKind::Identifier, wanted, all);
    named_is_local(left, right, candidates, MatchKind::Name, wanted, all);
    named_is_local(left, right, candidates, MatchKind::Namespace, wanted, all);
    named_is_local(left, right, candidates, MatchKind::Alias, wanted, all);
    let query_terms = terms_of(query);
    scored_is_local(left, right, candidates, query_terms, all);
    let list = scored(left, candidates, query_terms, all);
    let one = rank_order(left);
    let other = rank_order(right);
    rank_order_is_total(left);
    rank_order_is_total(right);
    list.lemma_sort_by_ensures(one);
    let sorted = list.sort_by(one);
    assert forall|i: int, j: int| 0 <= i < j < sorted.len() implies #[trigger] other(
        sorted[i],
        sorted[j],
    ) by {
        assert(one(sorted[i], sorted[j]));
        sorted_holds_candidates(list, sorted, one, i);
        sorted_holds_candidates(list, sorted, one, j);
        let a = choose|a: int| 0 <= a < list.len() && list[a] == sorted[i];
        let b = choose|b: int| 0 <= b < list.len() && list[b] == sorted[j];
        assert(candidates.contains(list[a].1));
        assert(candidates.contains(list[b].1));
        let c = choose|c: int| 0 <= c < candidates.len() && candidates[c] == sorted[i].1;
        let d = choose|d: int| 0 <= d < candidates.len() && candidates[d] == sorted[j].1;
        assert(left[candidates[c] as int] == right[candidates[c] as int]);
        assert(left[candidates[d] as int] == right[candidates[d] as int]);
    }
    sorted_is_sorting(list, sorted, other);
}

proof fn sorted_holds_candidates(
    list: Seq<(u64, usize)>,
    sorted: Seq<(u64, usize)>,
    leq: spec_fn((u64, usize), (u64, usize)) -> bool,
    index: int,
)
    requires
        total_ordering(leq),
        sorted == list.sort_by(leq),
        0 <= index < sorted.len(),
    ensures
        list.contains(sorted[index]),
{
    list.lemma_sort_by_ensures(leq);
    if !list.contains(sorted[index]) {
        assert(sorted.contains(sorted[index]));
    }
}

proof fn named_are_candidates(
    tools: Seq<RegisteredTool>,
    candidates: Seq<usize>,
    kind: MatchKind,
    query: Seq<char>,
    count: nat,
)
    requires
        count <= candidates.len(),
    ensures
        forall|k: int|
            0 <= k < named(tools, candidates, kind, query, count).len() ==> candidates.contains(
                #[trigger] named(tools, candidates, kind, query, count)[k],
            ),
    decreases count,
{
    if count > 0 {
        named_are_candidates(tools, candidates, kind, query, (count - 1) as nat);
        let before = named(tools, candidates, kind, query, (count - 1) as nat);
        let list = named(tools, candidates, kind, query, count);
        assert(candidates.contains(candidates[count - 1]));
        assert forall|k: int| 0 <= k < list.len() implies candidates.contains(
            #[trigger] list[k],
        ) by {
            if k < before.len() {
                assert(list[k] == before[k]);
            }
        }
    }
}

/// The tools of a selection.
pub open spec fn selected_tools(ranked: RankedModel) -> Seq<usize> {
    match ranked {
        RankedModel::Exact(list) => list,
        RankedModel::Lexical(list, _) => list,
    }
}

/// A query selects nothing but candidates.
pub proof fn selected_are_candidates(
    tools: Seq<RegisteredTool>,
    candidates: Seq<usize>,
    query: Seq<char>,
    max_expansion: usize,
)
    ensures
        ({
            let list = selected_tools(selection(tools, candidates, query, max_expansion));
            forall|k: int| 0 <= k < list.len() ==> candidates.contains(#[trigger] list[k])
        }),
{
    let wanted = phrase(query);
    let all = candidates.len();
    named_are_candidates(tools, candidates, MatchKind::Identifier, wanted, all);
    named_are_candidates(tools, candidates, MatchKind::Name, wanted, all);
    named_are_candidates(tools, candidates, MatchKind::Namespace, wanted, all);
    named_are_candidates(tools, candidates, MatchKind::Alias, wanted, all);
    let query_terms = terms_of(query);
    scored_is_local(tools, tools, candidates, query_terms, all);
    let list = scored(tools, candidates, query_terms, all);
    let leq = rank_order(tools);
    rank_order_is_total(tools);
    let sorted = list.sort_by(leq);
    assert forall|i: int| 0 <= i < sorted.len() implies candidates.contains(
        (#[trigger] sorted[i]).1,
    ) by {
        sorted_holds_candidates(list, sorted, leq, i);
        let a = choose|a: int| 0 <= a < list.len() && list[a] == sorted[i];
        assert(candidates.contains(list[a].1));
    }
}

} // verus!
