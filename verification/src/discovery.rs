//! What discovery may know of a tool, and the limits that it works under.

use crate::error::HarnessError;
use crate::lexicon::{terms_of, tokenize};
use crate::limits::check_view;
use crate::model::ProviderCapabilityLimits;
use crate::text::{
    byte_len, characters, copy_option, copy_texts, join3, same_text, text_option, texts, utf8_len,
};
use vstd::prelude::*;
use vstd::string::*;

verus! {

/// Bytes of a namespace or an alias.
pub const MAX_DISCOVERY_IDENTIFIER_BYTES: usize = 128;

/// Whether a registered tool is always exposed or selected only when relevant.
#[derive(Clone, Copy, Debug, PartialEq, Eq, Structural)]
#[non_exhaustive]
pub enum ToolExposure {
    /// The tool is included in every non-empty model tool scope.
    Hot,
    /// The tool is included only when the complete catalog does not fit and discovery selects it.
    Deferred,
}

/// Safe, indexable discovery metadata associated with a registered tool.
#[derive(Clone, Debug, PartialEq, Eq)]
#[non_exhaustive]
pub struct ToolDiscoveryMetadata {
    /// Whether the tool is hot or deferred.
    pub exposure: ToolExposure,
    /// Optional stable namespace used for exact and lexical selection.
    pub namespace: Option<String>,
    /// Stable alternate identifiers used for discovery.
    pub aliases: Vec<String>,
}

/// Whether a character may stand in a stable identifier.
pub open spec fn stable_char(character: char) -> bool {
    ('a' <= character && character <= 'z') || ('0' <= character && character <= '9') || character
        == '.' || character == '_' || character == '-' || character == '/'
}

/// Whether a text is a stable lowercase identifier.
pub open spec fn stable(value: Seq<char>) -> bool {
    &&& value.len() > 0
    &&& utf8_len(value) <= MAX_DISCOVERY_IDENTIFIER_BYTES
    &&& forall|i: int| 0 <= i < value.len() ==> stable_char(#[trigger] value[i])
    &&& value[0] != '.' && value[0] != '_' && value[0] != '-' && value[0] != '/'
}

/// The error of an identifier that is not stable.
pub open spec fn unstable_text(label: Seq<char>, tool_id: Seq<char>) -> Seq<char> {
    "tool "@ + tool_id + " discovery "@ + label + " must be a stable lowercase identifier"@
}

/// Whether an earlier alias has the same terms.
pub open spec fn alias_repeated(aliases: Seq<Seq<char>>, index: int) -> bool {
    exists|j: int| 0 <= j < index && terms_of(#[trigger] aliases[j]) == terms_of(aliases[index])
}

/// What is wrong with the aliases from `start` on.
pub open spec fn aliases_fault(aliases: Seq<Seq<char>>, tool_id: Seq<char>, start: nat) -> Option<
    Seq<char>,
>
    decreases aliases.len() - start,
{
    if start >= aliases.len() {
        None
    } else if !stable(aliases[start as int]) {
        Some(unstable_text("alias"@, tool_id))
    } else if alias_repeated(aliases, start as int) {
        Some("tool "@ + tool_id + " has duplicate normalized discovery aliases"@)
    } else {
        aliases_fault(aliases, tool_id, start + 1)
    }
}

impl ToolDiscoveryMetadata {
    /// What is wrong with the metadata of a tool.
    pub open spec fn fault(self, tool_id: Seq<char>) -> Option<Seq<char>> {
        if self.namespace is Some && !stable(self.namespace->0@) {
            Some(unstable_text("namespace"@, tool_id))
        } else if self.aliases@.len() > 32 {
            Some("tool "@ + tool_id + " has more than 32 discovery aliases"@)
        } else {
            aliases_fault(texts(self.aliases@), tool_id, 0)
        }
    }

    /// Metadata that keeps the tool hot.
    pub fn hot() -> (result: ToolDiscoveryMetadata)
        ensures
            result.exposure == ToolExposure::Hot,
            result.namespace is None,
            result.aliases@ == Seq::<String>::empty(),
    {
        ToolDiscoveryMetadata { exposure: ToolExposure::Hot, namespace: None, aliases: Vec::new() }
    }

    /// Deferred metadata without namespace or aliases.
    pub fn deferred() -> (result: ToolDiscoveryMetadata)
        ensures
            result.exposure == ToolExposure::Deferred,
            result.namespace is None,
            result.aliases@ == Seq::<String>::empty(),
    {
        ToolDiscoveryMetadata {
            exposure: ToolExposure::Deferred,
            namespace: None,
            aliases: Vec::new(),
        }
    }

    /// Sets the stable namespace.
    pub fn with_namespace(self, namespace: &str) -> (result: ToolDiscoveryMetadata)
        ensures
            text_option(result.namespace) == Some(namespace@),
            result.exposure == self.exposure,
            result.aliases == self.aliases,
    {
        let mut result = self;
        result.namespace = Some(namespace.to_owned());
        result
    }

    /// Replaces the stable aliases.
    pub fn with_aliases(self, aliases: Vec<String>) -> (result: ToolDiscoveryMetadata)
        ensures
            result == (ToolDiscoveryMetadata { aliases, ..self }),
    {
        let mut result = self;
        result.aliases = aliases;
        result
    }

    /// A copy of the metadata.
    pub fn duplicate(&self) -> (result: ToolDiscoveryMetadata)
        ensures
            result.exposure == self.exposure,
            text_option(result.namespace) == text_option(self.namespace),
            texts(result.aliases@) == texts(self.aliases@),
    {
        ToolDiscoveryMetadata {
            exposure: self.exposure,
            namespace: copy_option(&self.namespace),
            aliases: copy_texts(&self.aliases),
        }
    }

    /// Checks the metadata of a tool.
    pub fn validate(&self, tool_id: &str) -> (result: Result<(), HarnessError>)
        ensures
            match self.fault(tool_id@) {
                Some(text) => check_view(result) == Err::<(), HarnessError<Seq<char>>>(
                    HarnessError::InvalidTool(text),
                ),
                None => result is Ok,
            },
    {
        if let Some(namespace) = &self.namespace {
            if !is_stable(namespace.as_str()) {
                return Err(unstable("namespace", tool_id));
            }
        }
        if self.aliases.len() > 32 {
            return Err(
                HarnessError::InvalidTool(
                    join3("tool ", tool_id, " has more than 32 discovery aliases"),
                ),
            );
        }
        let ghost aliases = texts(self.aliases@);
        let mut i: usize = 0;
        while i < self.aliases.len()
            invariant
                i <= self.aliases@.len(),
                aliases == texts(self.aliases@),
                self.aliases@.len() <= 32,
                aliases_fault(aliases, tool_id@, 0) == aliases_fault(aliases, tool_id@, i as nat),
                self.fault(tool_id@) == aliases_fault(aliases, tool_id@, 0),
            decreases self.aliases@.len() - i,
        {
            assert(aliases[i as int] == self.aliases@[i as int]@);
            if !is_stable(self.aliases[i].as_str()) {
                return Err(unstable("alias", tool_id));
            }
            if self.repeats_alias(i) {
                return Err(
                    HarnessError::InvalidTool(
                        join3("tool ", tool_id, " has duplicate normalized discovery aliases"),
                    ),
                );
            }
            i += 1;
        }
        Ok(())
    }

    fn repeats_alias(&self, index: usize) -> (result: bool)
        requires
            index < self.aliases@.len(),
        ensures
            result == alias_repeated(texts(self.aliases@), index as int),
    {
        let ghost aliases = texts(self.aliases@);
        let terms = tokenize(self.aliases[index].as_str());
        assert(texts(terms@) == terms_of(aliases[index as int]));
        let mut j: usize = 0;
        while j < index
            invariant
                j <= index < self.aliases@.len(),
                aliases == texts(self.aliases@),
                texts(terms@) == terms_of(aliases[index as int]),
                forall|k: int|
                    0 <= k < j ==> terms_of(#[trigger] aliases[k]) != terms_of(
                        aliases[index as int],
                    ),
            decreases index - j,
        {
            let other = tokenize(self.aliases[j].as_str());
            assert(texts(other@) == terms_of(aliases[j as int]));
            if same_terms(&terms, &other) {
                return true;
            }
            j += 1;
        }
        false
    }
}

fn same_terms(left: &Vec<String>, right: &Vec<String>) -> (result: bool)
    ensures
        result == (texts(left@) == texts(right@)),
{
    if left.len() != right.len() {
        assert(texts(left@).len() != texts(right@).len());
        return false;
    }
    let mut i: usize = 0;
    while i < left.len()
        invariant
            i <= left@.len(),
            left@.len() == right@.len(),
            forall|j: int| 0 <= j < i ==> #[trigger] texts(left@)[j] == texts(right@)[j],
        decreases left@.len() - i,
    {
        if !same_text(left[i].as_str(), right[i].as_str()) {
            assert(texts(left@)[i as int] != texts(right@)[i as int]);
            return false;
        }
        i += 1;
    }
    assert(texts(left@) =~= texts(right@));
    true
}

fn unstable(label: &str, tool_id: &str) -> (result: HarnessError)
    ensures
        result@ == HarnessError::InvalidTool(unstable_text(label@, tool_id@)),
{
    let head = join3("tool ", tool_id, " discovery ");
    HarnessError::InvalidTool(
        join3(head.as_str(), label, " must be a stable lowercase identifier"),
    )
}

fn is_stable_char(character: char) -> (result: bool)
    ensures
        result == stable_char(character),
{
    ('a' <= character && character <= 'z') || ('0' <= character && character <= '9') || character
        == '.' || character == '_' || character == '-' || character == '/'
}

/// Whether a text is a stable lowercase identifier.
pub fn is_stable(value: &str) -> (result: bool)
    ensures
        result == stable(value@),
{
    let all = characters(value);
    if all.len() == 0 || byte_len(value) > MAX_DISCOVERY_IDENTIFIER_BYTES {
        return false;
    }
    let mut i: usize = 0;
    while i < all.len()
        invariant
            i <= all@.len(),
            all@ == value@,
            forall|j: int| 0 <= j < i ==> stable_char(#[trigger] value@[j]),
        decreases all@.len() - i,
    {
        if !is_stable_char(all[i]) {
            return false;
        }
        i += 1;
    }
    all[0] != '.' && all[0] != '_' && all[0] != '-' && all[0] != '/'
}

/// Host limits applied before provider-specific discovery limits.
#[derive(Clone, Copy, Debug, PartialEq, Eq, Structural)]
#[non_exhaustive]
pub struct ToolDiscoveryLimits {
    /// Maximum tools in one selected scope.
    pub max_tools: u32,
    /// Maximum exact serialized bytes for the selected tool-definition array.
    pub max_tool_schema_bytes: u64,
    /// Maximum deferred candidates admitted for a low-margin lexical match.
    pub max_expansion_tools: u32,
}

impl Default for ToolDiscoveryLimits {
    fn default() -> (result: ToolDiscoveryLimits)
        ensures
            result == (ToolDiscoveryLimits {
                max_tools: 64,
                max_tool_schema_bytes: 131_072,
                max_expansion_tools: 8,
            }),
    {
        ToolDiscoveryLimits {
            max_tools: 64,
            max_tool_schema_bytes: 128 * 1024,
            max_expansion_tools: 8,
        }
    }
}

/// Limits of one selection.
#[derive(Clone, Copy, Debug, PartialEq, Eq, Structural)]
pub struct EffectiveLimits {
    /// Maximum tools in the scope.
    pub max_tools: u32,
    /// Maximum bytes of the definition array.
    pub max_bytes: u64,
    /// Maximum deferred candidates of a low-margin match.
    pub max_expansion: u32,
}

impl ToolDiscoveryLimits {
    /// The host limits, narrowed by what the provider advertises.
    pub open spec fn narrowed(self, provider: ProviderCapabilityLimits) -> EffectiveLimits {
        EffectiveLimits {
            max_tools: match provider.max_tools {
                Some(limit) => if limit < self.max_tools {
                    limit
                } else {
                    self.max_tools
                },
                None => self.max_tools,
            },
            max_bytes: match provider.max_tool_schema_bytes {
                Some(limit) => if limit < self.max_tool_schema_bytes {
                    limit
                } else {
                    self.max_tool_schema_bytes
                },
                None => self.max_tool_schema_bytes,
            },
            max_expansion: self.max_expansion_tools,
        }
    }

    /// The default host limits.
    pub fn new() -> (result: ToolDiscoveryLimits)
        ensures
            result == (ToolDiscoveryLimits {
                max_tools: 64,
                max_tool_schema_bytes: 131_072,
                max_expansion_tools: 8,
            }),
    {
        ToolDiscoveryLimits {
            max_tools: 64,
            max_tool_schema_bytes: 128 * 1024,
            max_expansion_tools: 8,
        }
    }

    /// Sets the maximum selected tool count.
    pub fn with_max_tools(self, max_tools: u32) -> (result: ToolDiscoveryLimits)
        ensures
            result == (ToolDiscoveryLimits { max_tools, ..self }),
    {
        ToolDiscoveryLimits { max_tools, ..self }
    }

    /// Sets the maximum exact serialized schema bytes.
    pub fn with_max_tool_schema_bytes(self, bytes: u64) -> (result: ToolDiscoveryLimits)
        ensures
            result == (ToolDiscoveryLimits { max_tool_schema_bytes: bytes, ..self }),
    {
        ToolDiscoveryLimits { max_tool_schema_bytes: bytes, ..self }
    }

    /// Sets the bounded low-confidence expansion count.
    pub fn with_max_expansion_tools(self, count: u32) -> (result: ToolDiscoveryLimits)
        ensures
            result == (ToolDiscoveryLimits { max_expansion_tools: count, ..self }),
    {
        ToolDiscoveryLimits { max_expansion_tools: count, ..self }
    }

    /// The host limits, narrowed by what the provider advertises.
    pub fn effective(self, provider: &ProviderCapabilityLimits) -> (result: EffectiveLimits)
        ensures
            result == self.narrowed(*provider),
    {
        EffectiveLimits {
            max_tools: match provider.max_tools {
                Some(limit) => if limit < self.max_tools {
                    limit
                } else {
                    self.max_tools
                },
                None => self.max_tools,
            },
            max_bytes: match provider.max_tool_schema_bytes {
                Some(limit) => if limit < self.max_tool_schema_bytes {
                    limit
                } else {
                    self.max_tool_schema_bytes
                },
                None => self.max_tool_schema_bytes,
            },
            max_expansion: self.max_expansion_tools,
        }
    }
}

} // verus!
