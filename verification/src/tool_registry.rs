//! The registry of tools: what is registered, and what one caller of one run gets to see.

use crate::catalog::{
    blake3_digest, catalog_bytes, digest_of, ids_unique, CATALOG_FINGERPRINT_VERSION,
    CatalogFingerprint, RegistrationBounds,
};
use crate::discovery::{ToolDiscoveryMetadata, ToolExposure};
use crate::error::HarnessError;
use crate::guard::{ask_at, stops};
use crate::limits::check_view;
use crate::ordering::{sort_texts, sorted_texts, text_order, text_order_is_total};
use crate::ranking::{collect_terms, index_terms, rank, selection, terms_match, RankedSelection};
use crate::registry::{find_tool, position_from, registered, RegisteredTool};
use crate::schema::{compile_trusted_schema, trusted_schema_fault};
use crate::text::{
    blank, byte_len, characters, decimal, decimal_digits, is_blank, join2, join3, text_option,
    texts, utf8_len,
};
use crate::tool::ToolDefinition;
use vstd::prelude::*;
use vstd::relations::sorted_by;

verus! {

/// What is kept of a catalog between two selections.
struct CatalogIndex {
    terms: Vec<Vec<String>>,
    digest: String,
}

/// The tools that a host registered.
pub struct ToolRegistry {
    bounds: RegistrationBounds,
    tools: Vec<RegisteredTool>,
    next_serial: u64,
    index: Option<CatalogIndex>,
}

/// The model of a registry.
pub struct RegistryModel {
    /// What the host accepts.
    pub bounds: RegistrationBounds,
    /// The tools, in the order of registration.
    pub tools: Seq<RegisteredTool>,
    /// Number of the next registration.
    pub next_serial: u64,
    /// Whether the index of the catalog is at hand.
    pub warm: bool,
}

impl View for ToolRegistry {
    type V = RegistryModel;

    closed spec fn view(&self) -> RegistryModel {
        RegistryModel {
            bounds: self.bounds,
            tools: self.tools@,
            next_serial: self.next_serial,
            warm: self.index is Some,
        }
    }
}

/// Whether a character is printable ASCII, without or with the space.
pub open spec fn printable(character: char, space: bool) -> bool {
    (space && character == ' ') || ('!' <= character && character <= '~')
}

/// Whether a text is made of printable ASCII.
pub open spec fn is_printable(value: Seq<char>, space: bool) -> bool {
    forall|i: int| 0 <= i < value.len() ==> printable(#[trigger] value[i], space)
}

/// Bytes of the first `count` texts.
pub open spec fn total_bytes(values: Seq<Seq<char>>, count: nat) -> nat
    decreases count,
{
    if count == 0 || count > values.len() {
        0
    } else {
        total_bytes(values, (count - 1) as nat) + utf8_len(values[count - 1])
    }
}

/// Bytes of a tool's safe metadata.
pub open spec fn safe_metadata_bytes(
    definition: ToolDefinition,
    metadata: ToolDiscoveryMetadata,
) -> nat {
    utf8_len(definition.id@) + utf8_len(definition.name@) + (match text_option(
        metadata.namespace,
    ) {
        Some(namespace) => utf8_len(namespace),
        None => 0,
    }) + total_bytes(texts(metadata.aliases@), metadata.aliases@.len())
}

impl RegistryModel {
    /// Why a tool cannot be registered.
    pub open spec fn registration_fault(
        self,
        definition: ToolDefinition,
        metadata: ToolDiscoveryMetadata,
    ) -> Option<Seq<char>> {
        let id = definition.id@;
        if blank(id) {
            Some("tool id is required"@)
        } else if utf8_len(id) > self.bounds.max_id_bytes || !is_printable(id, false) {
            Some(
                "tool id must be printable ASCII without spaces, at most "@ + decimal_digits(
                    self.bounds.max_id_bytes as nat,
                ) + " bytes"@,
            )
        } else if utf8_len(definition.name@) > self.bounds.max_name_bytes || !is_printable(
            definition.name@,
            true,
        ) {
            Some(
                "tool "@ + id + " name must be printable ASCII, at most "@ + decimal_digits(
                    self.bounds.max_name_bytes as nat,
                ) + " bytes"@,
            )
        } else if metadata.fault(id) is Some {
            metadata.fault(id)
        } else if safe_metadata_bytes(definition, metadata) > self.bounds.max_safe_metadata_bytes {
            Some(
                "tool "@ + id + " safe discovery metadata exceeds "@ + decimal_digits(
                    self.bounds.max_safe_metadata_bytes as nat,
                ) + " bytes"@,
            )
        } else {
            schema_or_later_fault(self, definition)
        }
    }

    /// What holds of a registry: no two tools share an identifier, the aliases of a tool are in
    /// order, and every registration has a number of its own.
    pub open spec fn valid(self) -> bool {
        &&& ids_unique(self.tools)
        &&& forall|i: int|
            0 <= i < self.tools.len() ==> sorted_by(
                texts((#[trigger] self.tools[i]).metadata.aliases@),
                text_order(),
            )
        &&& forall|i: int|
            0 <= i < self.tools.len() ==> (#[trigger] self.tools[i]).serial < self.next_serial
        &&& forall|i: int, j: int|
            0 <= i < j < self.tools.len() ==> (#[trigger] self.tools[i]).serial < (
            #[trigger] self.tools[j]).serial
    }
}

fn check_printable(value: &str, space: bool) -> (result: bool)
    ensures
        result == is_printable(value@, space),
{
    let all = characters(value);
    let mut i: usize = 0;
    while i < all.len()
        invariant
            i <= all@.len(),
            all@ == value@,
            forall|j: int| 0 <= j < i ==> printable(#[trigger] value@[j], space),
        decreases all@.len() - i,
    {
        let character = all[i];
        if !((space && character == ' ') || ('!' <= character && character <= '~')) {
            assert(!printable(value@[i as int], space));
            return false;
        }
        i += 1;
    }
    true
}

/// Whether a tool's safe metadata fits in this many bytes.
fn metadata_fits(definition: &ToolDefinition, metadata: &ToolDiscoveryMetadata, limit: u64) -> (
result: bool)
    ensures
        result == (safe_metadata_bytes(*definition, *metadata) <= limit),
{
    let ghost aliases = texts(metadata.aliases@);
    let first: Option<u64> = (byte_len(definition.id.as_str()) as u64).checked_add(
        byte_len(definition.name.as_str()) as u64,
    );
    let space: u64 = match &metadata.namespace {
        Some(namespace) => byte_len(namespace.as_str()) as u64,
        None => 0,
    };
    let mut total: u64 = match first {
        Some(bytes) => match bytes.checked_add(space) {
            Some(bytes) => bytes,
            None => return false,
        },
        None => return false,
    };
    let ghost head = total as nat;
    let mut i: usize = 0;
    while i < metadata.aliases.len()
        invariant
            i <= metadata.aliases@.len(),
            aliases == texts(metadata.aliases@),
            total == head + total_bytes(aliases, i as nat),
            head + total_bytes(aliases, aliases.len()) == safe_metadata_bytes(
                *definition,
                *metadata,
            ),
        decreases metadata.aliases@.len() - i,
    {
        assert(aliases[i as int] == metadata.aliases@[i as int]@);
        let bytes: u64 = byte_len(metadata.aliases[i].as_str()) as u64;
        proof {
            total_bytes_grow(aliases, (i + 1) as nat, aliases.len());
        }
        match total.checked_add(bytes) {
            Some(next) => {
                total = next;
            },
            None => return false,
        }
        i += 1;
    }
    total <= limit
}

proof fn total_bytes_grow(values: Seq<Seq<char>>, count: nat, longer: nat)
    requires
        count <= longer <= values.len(),
    ensures
        total_bytes(values, count) <= total_bytes(values, longer),
    decreases longer - count,
{
    if count < longer {
        total_bytes_grow(values, count, (longer - 1) as nat);
    }
}

proof fn position_from_finds(tools: Seq<RegisteredTool>, id: Seq<char>, start: nat)
    ensures
        match position_from(tools, id, start) {
            Some(position) => start <= position < tools.len() && tools[position as int].definition.id@
                == id,
            None => forall|i: int|
                start <= i < tools.len() ==> (#[trigger] tools[i]).definition.id@ != id,
        },
    decreases tools.len() - start,
{
    if start < tools.len() && tools[start as int].definition.id@ != id {
        position_from_finds(tools, id, start + 1);
    }
}

impl ToolRegistry {
    /// Whether the kept index is that of the registered tools.
    spec fn index_holds(&self) -> bool {
        self.index matches Some(index) ==> terms_match(self.tools@, index.terms@)
            && index.digest@ == blake3_digest(catalog_bytes(self.tools@))
    }

    /// What holds of a registry.
    pub closed spec fn wf(&self) -> bool {
        self@.valid() && self.index_holds()
    }

    /// A valid registry is one whose tools can be told apart.
    pub proof fn wf_is_valid(&self)
        requires
            self.wf(),
        ensures
            self@.valid(),
    {
    }

    /// An empty registry.
    pub fn new(bounds: RegistrationBounds) -> (result: ToolRegistry)
        ensures
            result.wf(),
            result@ == (RegistryModel {
                bounds,
                tools: Seq::empty(),
                next_serial: 0,
                warm: false,
            }),
    {
        let result = ToolRegistry { bounds, tools: Vec::new(), next_serial: 0, index: None };
        assert(result@.tools =~= Seq::empty());
        result
    }

    /// The registered tools, in the order of registration.
    pub fn tools(&self) -> (result: &Vec<RegisteredTool>)
        ensures
            result@ == self@.tools,
    {
        &self.tools
    }

    /// The tool registered as `id`.
    pub fn get(&self, id: &str) -> (result: Option<&RegisteredTool>)
        ensures
            match result {
                Some(tool) => registered(self@.tools, id@) == Some(*tool),
                None => registered(self@.tools, id@) is None,
            },
    {
        find_tool(&self.tools, id)
    }

    fn check_safe_metadata(&self, definition: &ToolDefinition, metadata: &ToolDiscoveryMetadata) -> (
    result: Option<String>)
        ensures
            match result {
                Some(text) => self@.registration_fault(*definition, *metadata) == Some(text@),
                None => self@.registration_fault(*definition, *metadata) == schema_or_later_fault(
                    self@,
                    *definition,
                ),
            },
    {
        let id = definition.id.as_str();
        if is_blank(id) {
            return Some("tool id is required".to_owned());
        }
        if byte_len(id) > self.bounds.max_id_bytes || !check_printable(id, false) {
            let digits = decimal(self.bounds.max_id_bytes as u64);
            return Some(
                join3(
                    "tool id must be printable ASCII without spaces, at most ",
                    digits.as_str(),
                    " bytes",
                ),
            );
        }
        let name = definition.name.as_str();
        if byte_len(name) > self.bounds.max_name_bytes || !check_printable(name, true) {
            let digits = decimal(self.bounds.max_name_bytes as u64);
            let head = join3("tool ", id, " name must be printable ASCII, at most ");
            return Some(join3(head.as_str(), digits.as_str(), " bytes"));
        }
        if let Err(HarnessError::InvalidTool(text)) = metadata.validate(id) {
            return Some(text);
        }
        if !metadata_fits(definition, metadata, self.bounds.max_safe_metadata_bytes) {
            let digits = decimal(self.bounds.max_safe_metadata_bytes);
            let head = join3("tool ", id, " safe discovery metadata exceeds ");
            return Some(join3(head.as_str(), digits.as_str(), " bytes"));
        }
        None
    }

    fn find_fault(&self, definition: &ToolDefinition, metadata: &ToolDiscoveryMetadata) -> (result:
        Option<String>)
        ensures
            text_option(result) == self@.registration_fault(*definition, *metadata),
    {
        if let Some(text) = self.check_safe_metadata(definition, metadata) {
            return Some(text);
        }
        let id = definition.id.as_str();
        if let Some(fault) = compile_trusted_schema(&definition.arguments_schema) {
            let head = join3("invalid schema for ", id, ": ");
            return Some(join2(head.as_str(), fault.as_str()));
        }
        if let Some(schema) = &definition.output_schema {
            if let Some(fault) = compile_trusted_schema(schema) {
                let head = join3("invalid output schema for ", id, ": ");
                return Some(join2(head.as_str(), fault.as_str()));
            }
        }
        if find_tool(&self.tools, id).is_some() {
            return Some(join2("duplicate tool: ", id));
        }
        if self.next_serial == u64::MAX {
            return Some("tool registration counter overflow".to_owned());
        }
        None
    }

    /// Registers a tool with metadata that keeps it hot.
    pub fn register(&mut self, definition: ToolDefinition, serialized_bytes: u64) -> (result:
        Result<(), HarnessError>)
        requires
            old(self).wf(),
        ensures
            final(self).wf(),
            exists|metadata: ToolDiscoveryMetadata| #[trigger]
                registers(
                    old(self)@,
                    final(self)@,
                    definition,
                    metadata,
                    serialized_bytes,
                    check_view(result),
                ) && metadata.exposure == ToolExposure::Hot && metadata.namespace is None
                    && metadata.aliases@.len() == 0,
    {
        let metadata = ToolDiscoveryMetadata::hot();
        let ghost kept = metadata;
        let result = self.register_with_discovery(definition, metadata, serialized_bytes);
        assert(registers(
            old(self)@,
            self@,
            definition,
            kept,
            serialized_bytes,
            check_view(result),
        ));
        result
    }

    /// Registers a tool. `serialized_bytes` is the size of its serialized definition.
    /// A registration that fails changes nothing.
    pub fn register_with_discovery(
        &mut self,
        definition: ToolDefinition,
        metadata: ToolDiscoveryMetadata,
        serialized_bytes: u64,
    ) -> (result: Result<(), HarnessError>)
        requires
            old(self).wf(),
        ensures
            final(self).wf(),
            registers(
                old(self)@,
                final(self)@,
                definition,
                metadata,
                serialized_bytes,
                check_view(result),
            ),
    {
        if let Some(text) = self.find_fault(&definition, &metadata) {
            return Err(HarnessError::InvalidTool(text));
        }
        let ghost before = self@;
        proof {
            position_from_finds(before.tools, definition.id@, 0);
        }
        let aliases = sort_texts(&metadata.aliases);
        let kept = ToolDiscoveryMetadata {
            exposure: metadata.exposure,
            namespace: metadata.namespace,
            aliases,
        };
        proof {
            text_order_is_total();
            texts(metadata.aliases@).lemma_sort_by_ensures(text_order());
        }
        let serial = self.next_serial;
        self.tools.push(
            RegisteredTool { definition, metadata: kept, serialized_bytes, serial },
        );
        self.next_serial = serial + 1;
        self.index = None;
        assert(self@.tools.drop_last() =~= before.tools);
        Ok(())
    }

    /// Makes the index of the catalog under a guard, unless it is at hand. Whether it was. A
    /// guard that ends it leaves the registry as it was.
    pub(crate) fn catalog_index_guarded<G: Fn() -> Result<(), HarnessError>>(
        &mut self,
        guard: &G,
    ) -> (result: Result<bool, HarnessError>)
        requires
            old(self).wf(),
            call_requires(*guard, ()),
        ensures
            final(self).wf(),
            match result {
                Ok(hit) => hit == old(self)@.warm && final(self)@ == (RegistryModel {
                    warm: true,
                    ..old(self)@
                }),
                Err(error) => final(self)@ == old(self)@ && stops(*guard, error),
            },
    {
        if self.index.is_some() {
            return Ok(true);
        }
        if let Err(error) = guard() {
            return Err(error);
        }
        let mut terms: Vec<Vec<String>> = Vec::new();
        let mut i: usize = 0;
        while i < self.tools.len()
            invariant
                call_requires(*guard, ()),
                *self == *old(self),
                self.wf(),
                i <= self.tools@.len(),
                terms@.len() == i,
                forall|j: int|
                    0 <= j < i ==> texts((#[trigger] terms@[j])@) == index_terms(self.tools@[j]),
            decreases self.tools@.len() - i,
        {
            if let Err(error) = ask_at(guard, i) {
                return Err(error);
            }
            terms.push(collect_terms(&self.tools[i]));
            i += 1;
        }
        let digest = digest_of(&self.tools);
        self.index = Some(CatalogIndex { terms, digest });
        Ok(false)
    }

    /// Makes the index of the catalog, unless it is at hand. Whether it was.
    pub fn catalog_index(&mut self) -> (hit: bool)
        requires
            old(self).wf(),
        ensures
            final(self).wf(),
            hit == old(self)@.warm,
            final(self)@ == (RegistryModel { warm: true, ..old(self)@ }),
    {
        let patient = || -> (answer: Result<(), HarnessError>)
            ensures
                answer is Ok,
            { Ok(()) };
        match self.catalog_index_guarded(&patient) {
            Ok(hit) => hit,
            Err(_) => false,
        }
    }

    /// What a query selects from candidates under a guard. Whether the index of the catalog was
    /// at hand.
    pub(crate) fn rank_candidates<G: Fn() -> Result<(), HarnessError>>(
        &mut self,
        candidates: &Vec<usize>,
        query: &str,
        max_expansion: usize,
        guard: &G,
    ) -> (result: Result<(RankedSelection, bool), HarnessError>)
        requires
            old(self).wf(),
            call_requires(*guard, ()),
            forall|k: int|
                0 <= k < candidates@.len() ==> (#[trigger] candidates@[k])
                    < old(self)@.tools.len(),
        ensures
            final(self).wf(),
            match result {
                Ok((ranked, hit)) => {
                    &&& final(self)@ == (RegistryModel { warm: true, ..old(self)@ })
                    &&& ranked@ == selection(
                        old(self)@.tools,
                        candidates@,
                        query@,
                        max_expansion,
                    )
                    &&& hit == old(self)@.warm
                },
                Err(error) => {
                    &&& stops(*guard, error)
                    &&& final(self)@ == old(self)@ || final(self)@ == (RegistryModel {
                        warm: true,
                        ..old(self)@
                    })
                },
            },
    {
        let hit = match self.catalog_index_guarded(guard) {
            Ok(hit) => hit,
            Err(error) => return Err(error),
        };
        match &self.index {
            Some(index) => match rank(
                &self.tools,
                &index.terms,
                candidates,
                query,
                max_expansion,
                guard,
            ) {
                Ok(ranked) => Ok((ranked, hit)),
                Err(error) => Err(error),
            },
            None => Ok((RankedSelection::Exact(Vec::new()), hit)),
        }
    }

    /// The versioned fingerprint of the catalog's safe metadata.
    pub fn catalog_fingerprint(&mut self) -> (result: CatalogFingerprint)
        requires
            old(self).wf(),
        ensures
            final(self).wf(),
            final(self)@ == (RegistryModel { warm: true, ..old(self)@ }),
            result.version == CATALOG_FINGERPRINT_VERSION,
            result.digest@ == blake3_digest(catalog_bytes(old(self)@.tools)),
    {
        let _ = self.catalog_index();
        let digest = match &self.index {
            Some(index) => index.digest.clone(),
            None => digest_of(&self.tools),
        };
        CatalogFingerprint { version: CATALOG_FINGERPRINT_VERSION, digest }
    }
}

/// Why a tool whose safe metadata is accepted cannot be registered.
pub open spec fn schema_or_later_fault(
    registry: RegistryModel,
    definition: ToolDefinition,
) -> Option<Seq<char>> {
    let id = definition.id@;
    if trusted_schema_fault(definition.arguments_schema@) is Some {
        Some(
            "invalid schema for "@ + id + ": "@ + trusted_schema_fault(
                definition.arguments_schema@,
            )->0,
        )
    } else if definition.output_schema is Some && trusted_schema_fault(
        definition.output_schema->0@,
    ) is Some {
        Some(
            "invalid output schema for "@ + id + ": "@ + trusted_schema_fault(
                definition.output_schema->0@,
            )->0,
        )
    } else if registered(registry.tools, id) is Some {
        Some("duplicate tool: "@ + id)
    } else if registry.next_serial == u64::MAX {
        Some("tool registration counter overflow"@)
    } else {
        None
    }
}

/// What a registration does: it adds the tool at the end, with its aliases in order, or
/// changes nothing.
pub open spec fn registers(
    before: RegistryModel,
    after: RegistryModel,
    definition: ToolDefinition,
    metadata: ToolDiscoveryMetadata,
    serialized_bytes: u64,
    answer: Result<(), HarnessError<Seq<char>>>,
) -> bool {
    match before.registration_fault(definition, metadata) {
        Some(text) => after == before && answer == Err::<(), _>(HarnessError::InvalidTool(text)),
        None => {
            &&& answer == Ok::<(), HarnessError<Seq<char>>>(())
            &&& after.bounds == before.bounds
            &&& after.next_serial == before.next_serial + 1
            &&& !after.warm
            &&& after.tools.len() == before.tools.len() + 1
            &&& after.tools.drop_last() == before.tools
            &&& after.tools.last().definition == definition
            &&& after.tools.last().metadata.exposure == metadata.exposure
            &&& after.tools.last().metadata.namespace == metadata.namespace
            &&& texts(after.tools.last().metadata.aliases@) == sorted_texts(
                texts(metadata.aliases@),
            )
            &&& after.tools.last().serialized_bytes == serialized_bytes
            &&& after.tools.last().serial == before.next_serial
        },
    }
}

} // verus!
