//! The registry of tools: registration, fingerprint and the choice of what a caller sees.

use crate::canonical::{
    bytes_le, bytes_le_total, bytes_le_transitive, is_text_le, text_le, text_le_total,
    text_le_transitive,
};
use crate::discovery::ToolExposure;
use crate::ordering::{inserted_in_order, sorted_is_sorting, sorting_ignores_order};
use crate::registry::RegisteredTool;
use crate::text::{byte_len, text_option, texts, utf8_len};
use vstd::bytes::{spec_u64_to_le_bytes, u64_to_le_bytes};
use vstd::prelude::*;
use vstd::relations::{sorted_by, total_ordering};
use vstd::string::*;
use vstd::utf8::encode_utf8;

verus! {

/// Version of the canonical safe-metadata catalog fingerprint format.
pub const CATALOG_FINGERPRINT_VERSION: u32 = 1;

/// What a host accepts of a tool's safe metadata.
#[derive(Clone, Copy, Debug, PartialEq, Eq, Structural)]
pub struct RegistrationBounds {
    /// Bytes of an identifier.
    pub max_id_bytes: usize,
    /// Bytes of a name.
    pub max_name_bytes: usize,
    /// Bytes of identifier, name, namespace and aliases together.
    pub max_safe_metadata_bytes: u64,
}

/// Versioned BLAKE3 identity for an immutable safe-metadata catalog index.
#[derive(Clone, Debug, PartialEq, Eq)]
#[non_exhaustive]
pub struct CatalogFingerprint {
    /// Canonical fingerprint format version.
    pub version: u32,
    /// Lowercase hexadecimal BLAKE3 digest.
    pub digest: String,
}

/// The lowercase hexadecimal BLAKE3 digest of bytes.
pub uninterp spec fn blake3_digest(bytes: Seq<u8>) -> Seq<char>;

/// Calls `blake3::hash` and renders the digest with `to_hex`: the result is a function of the
/// bytes alone. Nothing more is stated of it.
#[verifier::external_body]
fn blake3_hex(bytes: &Vec<u8>) -> (result: String)
    ensures
        result@ == blake3_digest(bytes@),
{
    blake3::hash(bytes.as_slice()).to_hex().to_string()
}

/// A text in a fingerprint: its length, then its bytes.
pub open spec fn field_bytes(text: Seq<char>) -> Seq<u8> {
    spec_u64_to_le_bytes(utf8_len(text) as u64) + encode_utf8(text)
}

/// The first `count` aliases in a fingerprint.
pub open spec fn alias_bytes(aliases: Seq<Seq<char>>, count: nat) -> Seq<u8>
    decreases count,
{
    if count == 0 || count > aliases.len() {
        Seq::empty()
    } else {
        alias_bytes(aliases, (count - 1) as nat) + field_bytes(aliases[count - 1])
    }
}

/// The safe metadata of a tool in a fingerprint.
pub open spec fn entry_bytes(tool: RegisteredTool) -> Seq<u8> {
    field_bytes(tool.definition.id@) + field_bytes(tool.definition.name@) + field_bytes(
        match text_option(tool.metadata.namespace) {
            Some(namespace) => namespace,
            None => Seq::empty(),
        },
    ) + seq![
        if tool.metadata.exposure == ToolExposure::Hot {
            0u8
        } else {
            1u8
        },
    ] + alias_bytes(texts(tool.metadata.aliases@), tool.metadata.aliases@.len()) + seq![0xffu8]
}

/// A tool as the fingerprint sees it: its identifier and its bytes.
pub open spec fn catalog_entries(tools: Seq<RegisteredTool>) -> Seq<(Seq<char>, Seq<u8>)> {
    tools.map_values(|tool: RegisteredTool| (tool.definition.id@, entry_bytes(tool)))
}

/// The order of entries: by identifier.
pub open spec fn entry_order() -> spec_fn((Seq<char>, Seq<u8>), (Seq<char>, Seq<u8>)) -> bool {
    |left: (Seq<char>, Seq<u8>), right: (Seq<char>, Seq<u8>)|
        if left.0 == right.0 {
            bytes_le(left.1, right.1)
        } else {
            text_le(left.0, right.0)
        }
}

/// The order of entries is total.
pub proof fn entry_order_is_total()
    ensures
        total_ordering(entry_order()),
{
    let leq = entry_order();
    assert forall|a: (Seq<char>, Seq<u8>)| #[trigger] leq(a, a) by {
        bytes_le_total(a.1, a.1);
    }
    assert forall|a: (Seq<char>, Seq<u8>), b: (Seq<char>, Seq<u8>)| #[trigger]
        leq(a, b) && #[trigger] leq(b, a) implies a == b by {
        bytes_le_total(a.1, b.1);
        text_le_total(a.0, b.0);
    }
    assert forall|
        a: (Seq<char>, Seq<u8>),
        b: (Seq<char>, Seq<u8>),
        c: (Seq<char>, Seq<u8>),
    | #[trigger] leq(a, b) && #[trigger] leq(b, c) implies leq(a, c) by {
        text_le_total(a.0, b.0);
        text_le_total(b.0, c.0);
        text_le_total(a.0, c.0);
        if a.0 == b.0 && b.0 == c.0 {
            bytes_le_transitive(a.1, b.1, c.1);
        } else if a.0 != b.0 && b.0 != c.0 {
            text_le_transitive(a.0, b.0, c.0);
        }
    }
    assert forall|a: (Seq<char>, Seq<u8>), b: (Seq<char>, Seq<u8>)| #[trigger]
        leq(a, b) || #[trigger] leq(b, a) by {
        bytes_le_total(a.1, b.1);
        text_le_total(a.0, b.0);
    }
}

/// The bytes of the first `count` entries, one after the other.
pub open spec fn joined_entries(entries: Seq<(Seq<char>, Seq<u8>)>, count: nat) -> Seq<u8>
    decreases count,
{
    if count == 0 || count > entries.len() {
        Seq::empty()
    } else {
        joined_entries(entries, (count - 1) as nat) + entries[count - 1].1
    }
}

/// What a catalog's fingerprint is taken of: its safe metadata, by identifier.
pub open spec fn catalog_bytes(tools: Seq<RegisteredTool>) -> Seq<u8> {
    let entries = catalog_entries(tools).sort_by(entry_order());
    encode_utf8("llama-harness-tool-catalog\0v1\0"@) + joined_entries(entries, entries.len())
}

/// The fingerprint ignores the order of registration.
pub proof fn fingerprint_ignores_registration_order(
    left: Seq<RegisteredTool>,
    right: Seq<RegisteredTool>,
)
    requires
        catalog_entries(left).to_multiset() == catalog_entries(right).to_multiset(),
    ensures
        catalog_bytes(left) == catalog_bytes(right),
{
    entry_order_is_total();
    sorting_ignores_order(catalog_entries(left), catalog_entries(right), entry_order());
}

fn push_field(bytes: &mut Vec<u8>, text: &str)
    ensures
        final(bytes)@ == old(bytes)@ + field_bytes(text@),
{
    let ghost before = bytes@;
    let mut length = u64_to_le_bytes(byte_len(text) as u64);
    let ghost head = length@;
    bytes.append(&mut length);
    let raw = text.as_bytes();
    let mut i: usize = 0;
    assert(raw@.take(0) =~= Seq::empty());
    assert(bytes@ =~= before + head + raw@.take(0));
    while i < raw.len()
        invariant
            i <= raw@.len(),
            bytes@ == before + head + raw@.take(i as int),
        decreases raw@.len() - i,
    {
        bytes.push(raw[i]);
        assert(raw@.take(i + 1) =~= raw@.take(i as int).push(raw@[i as int]));
        assert(bytes@ =~= before + head + raw@.take(i + 1));
        i += 1;
    }
    assert(raw@.take(i as int) =~= raw@);
    assert(before + head + raw@ =~= before + (head + raw@));
}

fn push_entry(bytes: &mut Vec<u8>, tool: &RegisteredTool)
    ensures
        final(bytes)@ == old(bytes)@ + entry_bytes(*tool),
{
    let ghost before = bytes@;
    let ghost id = field_bytes(tool.definition.id@);
    let ghost name = field_bytes(tool.definition.name@);
    let ghost aliases = texts(tool.metadata.aliases@);
    push_field(bytes, tool.definition.id.as_str());
    push_field(bytes, tool.definition.name.as_str());
    let namespace = match &tool.metadata.namespace {
        Some(namespace) => namespace.as_str(),
        None => "",
    };
    proof {
        reveal_strlit("");
        assert(""@ =~= Seq::<char>::empty());
    }
    let ghost space = field_bytes(namespace@);
    push_field(bytes, namespace);
    let exposure: u8 = match tool.metadata.exposure {
        ToolExposure::Hot => 0,
        ToolExposure::Deferred => 1,
    };
    bytes.push(exposure);
    let ghost head = bytes@;
    assert(head =~= before + (id + name + space + seq![exposure]));
    let mut i: usize = 0;
    assert(bytes@ =~= head + alias_bytes(aliases, 0));
    while i < tool.metadata.aliases.len()
        invariant
            i <= tool.metadata.aliases@.len(),
            aliases == texts(tool.metadata.aliases@),
            bytes@ == head + alias_bytes(aliases, i as nat),
        decreases tool.metadata.aliases@.len() - i,
    {
        assert(aliases[i as int] == tool.metadata.aliases@[i as int]@);
        push_field(bytes, tool.metadata.aliases[i].as_str());
        assert(bytes@ =~= head + alias_bytes(aliases, (i + 1) as nat));
        i += 1;
    }
    bytes.push(0xff);
    assert(bytes@ =~= before + entry_bytes(*tool));
}

/// Whether no two tools share an identifier.
pub open spec fn ids_unique(tools: Seq<RegisteredTool>) -> bool {
    forall|i: int, j: int|
        0 <= i < j < tools.len() ==> (#[trigger] tools[i]).definition.id@ != (
        #[trigger] tools[j]).definition.id@
}

/// The positions of tools, by identifier.
fn sorted_positions(tools: &Vec<RegisteredTool>) -> (order: Vec<usize>)
    requires
        ids_unique(tools@),
    ensures
        order@.len() == tools@.len(),
        forall|k: int| 0 <= k < order@.len() ==> (#[trigger] order@[k]) < tools@.len(),
        ordered_entries(tools@, order@) == catalog_entries(tools@).sort_by(entry_order()),
{
    let ghost leq = entry_order();
    let ghost all = catalog_entries(tools@);
    proof {
        entry_order_is_total();
    }
    let mut order: Vec<usize> = Vec::new();
    let mut i: usize = 0;
    assert(ordered_entries(tools@, order@) =~= all.take(0));
    while i < tools.len()
        invariant
            i <= tools@.len(),
            ids_unique(tools@),
            all == catalog_entries(tools@),
            leq == entry_order(),
            total_ordering(leq),
            order@.len() == i,
            forall|k: int| 0 <= k < order@.len() ==> (#[trigger] order@[k]) < i,
            sorted_by(ordered_entries(tools@, order@), leq),
            ordered_entries(tools@, order@).to_multiset() == all.take(i as int).to_multiset(),
        decreases tools@.len() - i,
    {
        let ghost sorted = ordered_entries(tools@, order@);
        let ghost item = all[i as int];
        let mut position: usize = 0;
        while position < order.len() && is_text_le(
            tools[order[position]].definition.id.as_str(),
            tools[i].definition.id.as_str(),
        )
            invariant
                i < tools@.len(),
                position <= order@.len(),
                ids_unique(tools@),
                sorted == ordered_entries(tools@, order@),
                item == (tools@[i as int].definition.id@, entry_bytes(tools@[i as int])),
                leq == entry_order(),
                forall|k: int| 0 <= k < order@.len() ==> (#[trigger] order@[k]) < i,
                forall|j: int| 0 <= j < position ==> leq(#[trigger] sorted[j], item),
            ensures
                position <= order@.len(),
                forall|j: int| 0 <= j < position ==> leq(#[trigger] sorted[j], item),
                position < order@.len() ==> !text_le(sorted[position as int].0, item.0),
            decreases order@.len() - position,
        {
            proof {
                assert(order@[position as int] < i);
                assert(tools@[order@[position as int] as int].definition.id@
                    != tools@[i as int].definition.id@);
            }
            position += 1;
        }
        proof {
            assert forall|j: int| position <= j < sorted.len() implies leq(
                item,
                #[trigger] sorted[j],
            ) by {
                assert(order@[position as int] < i && order@[j] < i);
                assert(tools@[order@[position as int] as int].definition.id@
                    != tools@[i as int].definition.id@);
                text_le_total(sorted[position as int].0, item.0);
                assert(leq(item, sorted[position as int]));
                if j > position {
                    assert(leq(sorted[position as int], sorted[j]));
                }
            }
            inserted_in_order(sorted, position as int, item, leq);
            assert(all.take(i + 1) =~= all.take(i as int).push(item));
            vstd::seq_lib::to_multiset_build(all.take(i as int), item);
        }
        order.insert(position, i);
        assert(ordered_entries(tools@, order@) =~= sorted.insert(position as int, item));
        i += 1;
    }
    proof {
        assert(all.take(i as int) =~= all);
        sorted_is_sorting(all, ordered_entries(tools@, order@), leq);
    }
    order
}

/// The entries at these positions.
spec fn ordered_entries(tools: Seq<RegisteredTool>, order: Seq<usize>) -> Seq<
    (Seq<char>, Seq<u8>),
> {
    order.map_values(
        |index: usize|
            (tools[index as int].definition.id@, entry_bytes(tools[index as int])),
    )
}

/// The digest of a catalog's safe metadata.
pub(crate) fn digest_of(tools: &Vec<RegisteredTool>) -> (digest: String)
    requires
        ids_unique(tools@),
    ensures
        digest@ == blake3_digest(catalog_bytes(tools@)),
{
    let order = sorted_positions(tools);
    let ghost entries = catalog_entries(tools@).sort_by(entry_order());
    let mut bytes: Vec<u8> = Vec::new();
    let prefix = "llama-harness-tool-catalog\0v1\0";
    let raw = prefix.as_bytes();
    let mut k: usize = 0;
    assert(raw@.take(0) =~= Seq::empty());
    assert(bytes@ =~= raw@.take(0));
    while k < raw.len()
        invariant
            k <= raw@.len(),
            bytes@ == raw@.take(k as int),
        decreases raw@.len() - k,
    {
        bytes.push(raw[k]);
        assert(raw@.take(k + 1) =~= raw@.take(k as int).push(raw@[k as int]));
        k += 1;
    }
    assert(raw@.take(k as int) =~= raw@);
    let ghost head = encode_utf8("llama-harness-tool-catalog\0v1\0"@);
    let mut i: usize = 0;
    assert(bytes@ =~= head + joined_entries(entries, 0));
    while i < order.len()
        invariant
            i <= order@.len(),
            order@.len() == tools@.len(),
            forall|k: int| 0 <= k < order@.len() ==> (#[trigger] order@[k]) < tools@.len(),
            entries == ordered_entries(tools@, order@),
            bytes@ == head + joined_entries(entries, i as nat),
        decreases order@.len() - i,
    {
        push_entry(&mut bytes, &tools[order[i]]);
        assert(entries[i as int].1 == entry_bytes(tools@[order@[i as int] as int]));
        assert(bytes@ =~= head + joined_entries(entries, (i + 1) as nat));
        i += 1;
    }
    blake3_hex(&bytes)
}

} // verus!
