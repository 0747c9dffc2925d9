//! What the fingerprint of a catalog depends on: the safe metadata of its tools, whatever the
//! order in which the tools were registered and their aliases written.

use crate::catalog::{
    catalog_bytes, catalog_entries, entry_bytes, entry_order, entry_order_is_total,
    fingerprint_ignores_registration_order, joined_entries,
};
use crate::discovery::ToolDiscoveryMetadata;
use crate::error::HarnessError;
use crate::ordering::{sorted_is_sorting, text_order, text_order_is_total};
use crate::registry::RegisteredTool;
use crate::text::{text_option, texts};
use crate::tool::ToolDefinition;
use crate::tool_registry::{registers, RegistryModel};
use vstd::prelude::*;

verus! {

/// Whether two tools have the same safe metadata, the order of their aliases aside.
pub open spec fn same_metadata(left: RegisteredTool, right: RegisteredTool) -> bool {
    &&& left.definition.id@ == right.definition.id@
    &&& left.definition.name@ == right.definition.name@
    &&& text_option(left.metadata.namespace) == text_option(right.metadata.namespace)
    &&& left.metadata.exposure == right.metadata.exposure
    &&& texts(left.metadata.aliases@).to_multiset() == texts(
        right.metadata.aliases@,
    ).to_multiset()
}

/// Whether every tool of the one list has a partner with the same safe metadata in the other.
pub open spec fn covered(left: Seq<RegisteredTool>, right: Seq<RegisteredTool>) -> bool {
    forall|i: int|
        0 <= i < left.len() ==> exists|j: int|
            0 <= j < right.len() && same_metadata(#[trigger] left[i], #[trigger] right[j])
}

proof fn entries_agree(left: RegistryModel, right: RegistryModel, i: int, j: int)
    requires
        left.valid(),
        right.valid(),
        0 <= i < left.tools.len(),
        0 <= j < right.tools.len(),
        same_metadata(left.tools[i], right.tools[j]),
    ensures
        catalog_entries(left.tools)[i] == catalog_entries(right.tools)[j],
{
    let one = texts(left.tools[i].metadata.aliases@);
    let other = texts(right.tools[j].metadata.aliases@);
    text_order_is_total();
    sorted_is_sorting(one, one, text_order());
    sorted_is_sorting(one, other, text_order());
    assert(one == other);
    assert(one.len() == left.tools[i].metadata.aliases@.len());
    assert(other.len() == right.tools[j].metadata.aliases@.len());
    assert(entry_bytes(left.tools[i]) == entry_bytes(right.tools[j]));
}

proof fn entries_are_distinct(registry: RegistryModel)
    requires
        registry.valid(),
    ensures
        catalog_entries(registry.tools).no_duplicates(),
{
    let entries = catalog_entries(registry.tools);
    assert forall|i: int, j: int|
        0 <= i < entries.len() && 0 <= j < entries.len() && i != j implies entries[i]
        != entries[j] by {
        if i < j {
            assert(registry.tools[i].definition.id@ != registry.tools[j].definition.id@);
        } else {
            assert(registry.tools[j].definition.id@ != registry.tools[i].definition.id@);
        }
    }
}

proof fn entries_are_covered(left: RegistryModel, right: RegistryModel)
    requires
        left.valid(),
        right.valid(),
        covered(left.tools, right.tools),
    ensures
        forall|entry: (Seq<char>, Seq<u8>)|
            catalog_entries(left.tools).contains(entry) ==> #[trigger] catalog_entries(
                right.tools,
            ).contains(entry),
{
    assert forall|entry: (Seq<char>, Seq<u8>)|
        catalog_entries(left.tools).contains(entry) implies #[trigger] catalog_entries(
        right.tools,
    ).contains(entry) by {
        let i = choose|i: int|
            0 <= i < left.tools.len() && catalog_entries(left.tools)[i] == entry;
        assert(same_metadata(left.tools[i], left.tools[i]));
        let j = choose|j: int|
            0 <= j < right.tools.len() && same_metadata(left.tools[i], #[trigger] right.tools[j]);
        entries_agree(left, right, i, j);
        assert(catalog_entries(right.tools)[j] == entry);
    }
}

/// The fingerprint reads the safe metadata alone: two registries whose tools have the same
/// identifiers, names, namespaces, exposures and aliases have one fingerprint, in whatever order
/// the tools were registered and the aliases written, and whatever else of the tools differs.
pub proof fn fingerprint_reads_safe_metadata(left: RegistryModel, right: RegistryModel)
    requires
        left.valid(),
        right.valid(),
        covered(left.tools, right.tools),
        covered(right.tools, left.tools),
    ensures
        catalog_bytes(left.tools) == catalog_bytes(right.tools),
{
    let one = catalog_entries(left.tools);
    let other = catalog_entries(right.tools);
    entries_are_distinct(left);
    entries_are_distinct(right);
    entries_are_covered(left, right);
    entries_are_covered(right, left);
    one.to_multiset_ensures();
    other.to_multiset_ensures();
    one.lemma_multiset_has_no_duplicates();
    other.lemma_multiset_has_no_duplicates();
    assert forall|entry: (Seq<char>, Seq<u8>)| #[trigger]
        one.to_multiset().count(entry) == other.to_multiset().count(entry) by {
        assert(one.contains(entry) <==> one.to_multiset().count(entry) > 0);
        assert(other.contains(entry) <==> other.to_multiset().count(entry) > 0);
        if one.contains(entry) {
            assert(other.contains(entry));
            assert(one.to_multiset().contains(entry));
            assert(other.to_multiset().contains(entry));
        } else {
            assert(!other.contains(entry));
        }
    }
    assert(one.to_multiset() =~= other.to_multiset());
    fingerprint_ignores_registration_order(left.tools, right.tools);
}

/// A rejected registration leaves a registry, and with it the catalog, as it was.
pub proof fn rejected_registrations_change_nothing(
    before: RegistryModel,
    after: RegistryModel,
    definition: ToolDefinition,
    metadata: ToolDiscoveryMetadata,
    serialized_bytes: u64,
    answer: Result<(), HarnessError<Seq<char>>>,
)
    requires
        registers(before, after, definition, metadata, serialized_bytes, answer),
        answer is Err,
    ensures
        after == before,
        catalog_bytes(after.tools) == catalog_bytes(before.tools),
{
}

/// How many bytes entries take.
spec fn total_bytes(entries: Seq<(Seq<char>, Seq<u8>)>) -> nat
    decreases entries.len(),
{
    if entries.len() == 0 {
        0
    } else {
        total_bytes(entries.drop_last()) + entries.last().1.len()
    }
}

proof fn total_without(entries: Seq<(Seq<char>, Seq<u8>)>, at: int)
    requires
        0 <= at < entries.len(),
    ensures
        total_bytes(entries) == total_bytes(entries.remove(at)) + entries[at].1.len(),
    decreases entries.len(),
{
    if at == entries.len() - 1 {
        assert(entries.remove(at) =~= entries.drop_last());
    } else {
        total_without(entries.drop_last(), at);
        assert(entries.remove(at).drop_last() =~= entries.drop_last().remove(at));
        assert(entries.remove(at).last() == entries.last());
    }
}

proof fn total_ignores_order(left: Seq<(Seq<char>, Seq<u8>)>, right: Seq<(Seq<char>, Seq<u8>)>)
    requires
        left.to_multiset() == right.to_multiset(),
    ensures
        total_bytes(left) == total_bytes(right),
    decreases left.len(),
{
    left.to_multiset_ensures();
    right.to_multiset_ensures();
    if left.len() > 0 {
        let entry = left.last();
        assert(left.contains(entry));
        assert(left.to_multiset().count(entry) > 0);
        assert(right.contains(entry));
        let j = choose|j: int| 0 <= j < right.len() && right[j] == entry;
        assert(left.drop_last() =~= left.remove(left.len() - 1));
        assert(left.drop_last().to_multiset() =~= left.to_multiset().remove(entry));
        assert(right.remove(j).to_multiset() =~= right.to_multiset().remove(entry));
        total_ignores_order(left.drop_last(), right.remove(j));
        total_without(right, j);
    }
}

proof fn joined_take_total(entries: Seq<(Seq<char>, Seq<u8>)>, count: nat)
    requires
        count <= entries.len(),
    ensures
        joined_entries(entries, count).len() == total_bytes(entries.take(count as int)),
    decreases count,
{
    if count > 0 {
        joined_take_total(entries, (count - 1) as nat);
        assert(entries.take(count as int).drop_last() =~= entries.take(count - 1));
    }
}

proof fn catalog_length(tools: Seq<RegisteredTool>)
    ensures
        catalog_bytes(tools).len() == catalog_bytes(Seq::empty()).len() + total_bytes(
            catalog_entries(tools),
        ),
{
    let entries = catalog_entries(tools);
    let sorted = entries.sort_by(entry_order());
    entry_order_is_total();
    entries.lemma_sort_by_ensures(entry_order());
    total_ignores_order(entries, sorted);
    joined_take_total(sorted, sorted.len());
    assert(sorted.take(sorted.len() as int) =~= sorted);
    let none = catalog_entries(Seq::empty());
    none.lemma_sort_by_ensures(entry_order());
    none.to_multiset_ensures();
    none.sort_by(entry_order()).to_multiset_ensures();
    assert(none.sort_by(entry_order()).len() == 0);
}

/// One tool more makes what a fingerprint is taken of longer, so that it differs. That the
/// digest differs too rests on the hash.
pub proof fn further_tools_change_the_bytes(
    before: RegistryModel,
    after: RegistryModel,
    definition: ToolDefinition,
    metadata: ToolDiscoveryMetadata,
    serialized_bytes: u64,
    answer: Result<(), HarnessError<Seq<char>>>,
)
    requires
        registers(before, after, definition, metadata, serialized_bytes, answer),
        answer is Ok,
    ensures
        catalog_bytes(after.tools).len() > catalog_bytes(before.tools).len(),
        catalog_bytes(after.tools) != catalog_bytes(before.tools),
{
    catalog_length(before.tools);
    catalog_length(after.tools);
    let one = catalog_entries(after.tools);
    assert(one.drop_last() =~= catalog_entries(before.tools)) by {
        assert forall|i: int| 0 <= i < before.tools.len() implies one[i] == catalog_entries(
            before.tools,
        )[i] by {
            assert(after.tools.drop_last()[i] == after.tools[i]);
        }
    }
    assert(one.last().1 == entry_bytes(after.tools.last()));
    assert(entry_bytes(after.tools.last()).len() > 0);
}

} // verus!
