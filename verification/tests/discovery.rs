use llama_harness_core::catalog::RegistrationBounds;
use llama_harness_core::discovery::{
    is_stable, ToolDiscoveryLimits, ToolDiscoveryMetadata, MAX_DISCOVERY_IDENTIFIER_BYTES,
};
use llama_harness_core::error::HarnessError;
use llama_harness_core::event::{ToolDiscoveryOutcome, ToolDiscoverySelection};
use llama_harness_core::json::Json;
use llama_harness_core::lexicon::{normalize_phrase, tokenize};
use llama_harness_core::model::ProviderCapabilityLimits;
use llama_harness_core::registry::ToolScope;
use llama_harness_core::scope_selection::{
    allowed_catalog, measure, tools_in_scope, GuardedSelection, ToolDiscoveryStats,
    ToolScopeSelection,
};
use llama_harness_core::tool::{ToolCaller, ToolDefinition};
use llama_harness_core::tool_registry::ToolRegistry;
use std::cell::Cell;

const MAX_TOOL_ID_BYTES: usize = 128;
const MAX_TOOL_NAME_BYTES: usize = 256;
const MAX_TOOL_SAFE_METADATA_BYTES: u64 = 4096;

fn new_registry() -> ToolRegistry {
    ToolRegistry::new(RegistrationBounds {
        max_id_bytes: MAX_TOOL_ID_BYTES,
        max_name_bytes: MAX_TOOL_NAME_BYTES,
        max_safe_metadata_bytes: MAX_TOOL_SAFE_METADATA_BYTES,
    })
}

fn object_schema() -> Json {
    Json::Object(vec![("type".to_owned(), Json::Text("object".to_owned()))])
}

fn aliases(values: &[&str]) -> Vec<String> {
    values.iter().map(|value| (*value).to_owned()).collect()
}

fn definition(id: &str, description: &str) -> ToolDefinition {
    ToolDefinition::new(id, &id.replace('.', " "), description, object_schema())
        .with_allowed_callers(vec![ToolCaller::Direct, ToolCaller::DeclarativePlan])
}

fn serialized_bytes(definition: &ToolDefinition) -> u64 {
    200 + definition.id.len() as u64
        + definition.name.len() as u64
        + definition.description.len() as u64
}

fn add(
    registry: &mut ToolRegistry,
    definition: ToolDefinition,
    metadata: ToolDiscoveryMetadata,
) -> Result<(), HarnessError> {
    let bytes = serialized_bytes(&definition);
    registry.register_with_discovery(definition, metadata, bytes)
}

fn register(
    registry: &mut ToolRegistry,
    id: &str,
    description: &str,
    metadata: ToolDiscoveryMetadata,
) {
    add(registry, definition(id, description), metadata).unwrap();
}

fn allowlist(count: usize) -> Vec<String> {
    (0..count).map(|index| format!("tool.{index:04}")).collect()
}

fn scope(
    registry: &mut ToolRegistry,
    query: &str,
    allowlist: &Vec<String>,
    limits: ToolDiscoveryLimits,
    provider: ProviderCapabilityLimits,
) -> Result<(ToolScope, ToolDiscoveryStats), HarnessError> {
    registry.select_scope(query, allowlist, ToolCaller::Direct, limits, &provider)
}

#[test]
fn exact_selection_is_stable_for_large_catalogs() {
    for count in [30usize, 100, 1_000] {
        let mut registry = new_registry();
        for id in allowlist(count) {
            register(
                &mut registry,
                &id,
                "unindexed description",
                ToolDiscoveryMetadata::deferred(),
            );
        }
        let ids = allowlist(count);
        let target = ids[count - 1].clone();
        let (selected, stats) = scope(
            &mut registry,
            &target,
            &ids,
            ToolDiscoveryLimits::new().with_max_tools(4),
            ProviderCapabilityLimits::new(),
        )
        .unwrap();
        assert_eq!(tools_in_scope(registry.tools(), &selected).len(), 1);
        assert!(selected.contains(&target));
        assert_eq!(stats.candidate_count, count as u32);
        assert!(stats.catalog_exceeded_budget);
    }
}

fn stop_at(checkpoints: &Cell<u32>, last: u32) -> Result<(), HarnessError> {
    checkpoints.set(checkpoints.get() + 1);
    if checkpoints.get() == last {
        Err(HarnessError::Cancelled)
    } else {
        Ok(())
    }
}

#[test]
fn guarded_large_catalog_traversal_cancels_without_warming_the_index() {
    let count = 1_000;
    let mut registry = new_registry();
    for id in allowlist(count) {
        register(&mut registry, &id, "description", ToolDiscoveryMetadata::deferred());
    }
    let checkpoints = Cell::new(0);
    let result = registry.select_scope_guarded(
        "tool 0999",
        &allowlist(count),
        ToolCaller::Direct,
        ToolDiscoveryLimits::new().with_max_tools(1),
        &ProviderCapabilityLimits::new(),
        &|| stop_at(&checkpoints, 20),
    );
    assert!(matches!(result, GuardedSelection::Stopped(HarnessError::Cancelled)));
    assert_eq!(checkpoints.get(), 20);
    assert!(!registry.catalog_index());
}

#[test]
fn guards_are_asked_while_candidates_are_ranked() {
    let mut registry = new_registry();
    for id in allowlist(100) {
        register(&mut registry, &id, "description", ToolDiscoveryMetadata::deferred());
    }
    let limits = ToolDiscoveryLimits::new().with_max_tools(1);
    let provider = ProviderCapabilityLimits::new();
    let asked = Cell::new(0);
    assert!(matches!(
        registry.select_scope_guarded(
            "unknown words",
            &allowlist(100),
            ToolCaller::Direct,
            limits,
            &provider,
            &|| stop_at(&asked, 0),
        ),
        GuardedSelection::Finished(Ok(_))
    ));
    let warm = Cell::new(0);
    assert!(matches!(
        registry.select_scope_for_run(
            "unknown words",
            &allowlist(100),
            ToolCaller::Direct,
            limits,
            &provider,
            &|| stop_at(&warm, 7),
        ),
        Err(HarnessError::Cancelled)
    ));
    assert_eq!(warm.get(), 7);
    assert!(asked.get() > 10);
    assert!(registry.catalog_index());
}

#[test]
fn patient_guards_change_nothing() {
    let mut registry = permitted_registry();
    let ids = aliases(&["permitted.alpha", "permitted.beta", "permitted.neutral"]);
    let limits = ToolDiscoveryLimits::new().with_max_tools(2).with_max_expansion_tools(2);
    let checkpoints = Cell::new(0);
    let guarded = registry.select_scope_guarded(
        "rare common",
        &ids,
        ToolCaller::Direct,
        limits,
        &ProviderCapabilityLimits::new(),
        &|| stop_at(&checkpoints, 0),
    );
    assert!(checkpoints.get() > 0);
    let (plain, _) =
        scope(&mut registry, "rare common", &ids, limits, ProviderCapabilityLimits::new()).unwrap();
    match guarded {
        GuardedSelection::Finished(Ok(ToolScopeSelection::Selected(scope, stats))) => {
            assert_eq!(scope, plain);
            assert!(!stats.cache_hit);
        }
        _ => panic!("the selection goes through"),
    }
}

#[test]
fn namespace_exact_match_and_ambiguous_aliases_fail_closed() {
    let mut registry = new_registry();
    register(
        &mut registry,
        "weather.current",
        "secret-description",
        ToolDiscoveryMetadata::deferred()
            .with_namespace("weather")
            .with_aliases(aliases(&["forecast"])),
    );
    register(
        &mut registry,
        "weather.future",
        "secret-description",
        ToolDiscoveryMetadata::deferred()
            .with_namespace("weather")
            .with_aliases(aliases(&["forecast"])),
    );
    let ids = aliases(&["weather.current", "weather.future"]);
    let tight = ToolDiscoveryLimits::new().with_max_tools(1);
    assert!(matches!(
        scope(&mut registry, "weather", &ids, tight, ProviderCapabilityLimits::new()),
        Err(HarnessError::ResourceLimit(_))
    ));
    let (ambiguous, _) =
        scope(&mut registry, "forecast", &ids, tight, ProviderCapabilityLimits::new()).unwrap();
    assert!(ambiguous.is_empty());
}

#[test]
fn exact_name_precedes_lexical_ranking_and_low_margin_expansion_is_bounded() {
    let mut registry = new_registry();
    for index in 0..10 {
        let id = format!("weather.tool.{index:02}");
        register(&mut registry, &id, "description", ToolDiscoveryMetadata::deferred());
    }
    let ids = (0..10)
        .rev()
        .map(|index| format!("weather.tool.{index:02}"))
        .collect::<Vec<_>>();
    let limits = ToolDiscoveryLimits::new().with_max_tools(4).with_max_expansion_tools(3);
    let (exact_name, _) =
        scope(&mut registry, "weather tool 07", &ids, limits, ProviderCapabilityLimits::new())
            .unwrap();
    assert_eq!(tools_in_scope(registry.tools(), &exact_name).len(), 1);
    assert!(exact_name.contains("weather.tool.07"));

    let (expanded, stats) =
        scope(&mut registry, "weather", &ids, limits, ProviderCapabilityLimits::new()).unwrap();
    assert_eq!(tools_in_scope(registry.tools(), &expanded).len(), 3);
    assert!(expanded.contains("weather.tool.00"));
    assert!(expanded.contains("weather.tool.01"));
    assert!(expanded.contains("weather.tool.02"));
    assert_eq!(stats.expansion_limit, 3);
}

fn permitted_registry() -> ToolRegistry {
    let mut registry = new_registry();
    for (id, alias) in [
        ("permitted.alpha", "rare"),
        ("permitted.beta", "common"),
        ("permitted.neutral", "neutral"),
    ] {
        register(
            &mut registry,
            id,
            "description",
            ToolDiscoveryMetadata::deferred().with_aliases(aliases(&[alias])),
        );
    }
    registry
}

#[test]
fn hidden_and_caller_incompatible_tools_cannot_change_scope_local_ranking() {
    let mut baseline = permitted_registry();
    let mut polluted = permitted_registry();
    let mut polluted_allowlist =
        aliases(&["permitted.alpha", "permitted.beta", "permitted.neutral"]);
    for index in 0..100 {
        let hidden_id = format!("hidden.tool.{index:03}");
        let hidden = ToolDefinition::new(
            &hidden_id,
            "rare rare rare rare rare rare rare rare",
            "description",
            object_schema(),
        )
        .with_allowed_callers(vec![ToolCaller::Direct, ToolCaller::DeclarativePlan]);
        add(
            &mut polluted,
            hidden,
            ToolDiscoveryMetadata::deferred()
                .with_aliases(vec![format!("rare-hidden-{index:03}")]),
        )
        .unwrap();

        let incompatible_id = format!("incompatible.tool.{index:03}");
        let incompatible = ToolDefinition::new(
            &incompatible_id,
            "rare rare rare rare rare rare rare rare",
            "description",
            object_schema(),
        )
        .with_allowed_callers(vec![ToolCaller::Programmatic]);
        add(
            &mut polluted,
            incompatible,
            ToolDiscoveryMetadata::deferred()
                .with_aliases(vec![format!("rare-incompatible-{index:03}")]),
        )
        .unwrap();
        polluted_allowlist.push(incompatible_id);
    }

    let baseline_allowlist = aliases(&["permitted.alpha", "permitted.beta", "permitted.neutral"]);
    let limits = ToolDiscoveryLimits::new().with_max_tools(2).with_max_expansion_tools(2);
    for caller in [ToolCaller::Direct, ToolCaller::DeclarativePlan] {
        let (baseline_scope, baseline_stats) = baseline
            .select_scope(
                "rare common",
                &baseline_allowlist,
                caller,
                limits,
                &ProviderCapabilityLimits::new(),
            )
            .unwrap();
        let (polluted_scope, polluted_stats) = polluted
            .select_scope(
                "rare common",
                &polluted_allowlist,
                caller,
                limits,
                &ProviderCapabilityLimits::new(),
            )
            .unwrap();
        assert_eq!(baseline_scope.tool_ids, polluted_scope.tool_ids);
        assert_eq!(baseline_stats.candidate_count, 3);
        assert_eq!(polluted_stats.candidate_count, 3);
        assert_eq!(baseline_stats.selected_count, 2);
        assert_eq!(polluted_stats.selected_count, 2);
        assert_eq!(baseline_stats.deferred_candidate_count, 3);
        assert_eq!(polluted_stats.deferred_candidate_count, 3);
        assert_eq!(
            baseline_stats.catalog_exceeded_budget,
            polluted_stats.catalog_exceeded_budget
        );
        assert_eq!(baseline_stats.cache_hit, polluted_stats.cache_hit);
    }
}

#[test]
fn budgets_are_exact_and_zero_provider_capacity_is_a_no_tool_scope() {
    let mut registry = new_registry();
    register(&mut registry, "weather.current", "weather", ToolDiscoveryMetadata::hot());
    let ids = aliases(&["weather.current"]);
    let chosen = allowed_catalog(registry.tools(), &ids, ToolCaller::Direct);
    let bytes = measure(registry.tools(), &chosen).unwrap();
    assert_eq!(bytes, serialized_bytes(&definition("weather.current", "weather")) + 2);
    let exact = ToolDiscoveryLimits::new().with_max_tools(1).with_max_tool_schema_bytes(bytes);
    let (one, _) =
        scope(&mut registry, "weather.current", &ids, exact, ProviderCapabilityLimits::new())
            .unwrap();
    assert_eq!(tools_in_scope(registry.tools(), &one).len(), 1);
    assert!(scope(
        &mut registry,
        "weather.current",
        &ids,
        exact.with_max_tool_schema_bytes(bytes - 1),
        ProviderCapabilityLimits::new()
    )
    .is_err());
    let (empty, _) = scope(
        &mut registry,
        "weather.current",
        &ids,
        exact,
        ProviderCapabilityLimits::new().with_max_tools(0),
    )
    .unwrap();
    assert!(empty.is_empty());

    for provider_bytes in [0, 1] {
        let (empty, stats) = scope(
            &mut registry,
            "weather.current",
            &ids,
            exact,
            ProviderCapabilityLimits::new()
                .with_max_tools(1)
                .with_max_tool_schema_bytes(provider_bytes),
        )
        .unwrap();
        assert!(empty.is_empty());
        assert!(!stats.cache_hit);
    }

    let mut empty_registry = new_registry();
    let (empty, stats) = scope(
        &mut empty_registry,
        "anything",
        &Vec::new(),
        ToolDiscoveryLimits::new().with_max_tool_schema_bytes(1),
        ProviderCapabilityLimits::new(),
    )
    .unwrap();
    assert!(empty.is_empty());
    assert!(!stats.cache_hit);
    assert!(!empty_registry.catalog_index());

    let mut full_fit_registry = new_registry();
    register(&mut full_fit_registry, "weather.current", "weather", ToolDiscoveryMetadata::hot());
    let (full, stats) = scope(
        &mut full_fit_registry,
        "weather.current",
        &ids,
        ToolDiscoveryLimits::new(),
        ProviderCapabilityLimits::new(),
    )
    .unwrap();
    assert_eq!(tools_in_scope(full_fit_registry.tools(), &full).len(), 1);
    assert!(!stats.cache_hit);
    assert!(!full_fit_registry.catalog_index());
}

#[test]
fn fingerprint_and_cache_use_only_canonical_safe_metadata() {
    let metadata = ToolDiscoveryMetadata::deferred()
        .with_namespace("weather")
        .with_aliases(aliases(&["forecast", "temperature"]));
    let mut first = new_registry();
    register(&mut first, "weather.current", "SECRET-A", metadata.duplicate());
    register(&mut first, "weather.future", "SECRET-C", ToolDiscoveryMetadata::deferred());
    let ids = aliases(&["weather.current", "weather.future"]);
    let tight = ToolDiscoveryLimits::new().with_max_tools(1);
    let (_, cold_stats) =
        scope(&mut first, "SECRET-A", &ids, tight, ProviderCapabilityLimits::new()).unwrap();
    assert!(!cold_stats.cache_hit);
    let (_, warm_stats) =
        scope(&mut first, "temperature", &ids, tight, ProviderCapabilityLimits::new()).unwrap();
    assert!(warm_stats.cache_hit);
    let first_fingerprint = first.catalog_fingerprint();

    let mut second = new_registry();
    register(&mut second, "weather.current", "SECRET-B", metadata);
    register(&mut second, "weather.future", "SECRET-D", ToolDiscoveryMetadata::deferred());
    assert_eq!(first_fingerprint, second.catalog_fingerprint());

    assert!(add(
        &mut first,
        definition("weather.current", "duplicate"),
        ToolDiscoveryMetadata::deferred(),
    )
    .is_err());
    assert!(add(
        &mut first,
        definition("weather.invalid", "invalid"),
        ToolDiscoveryMetadata::deferred().with_namespace("not stable"),
    )
    .is_err());
    assert_eq!(first_fingerprint, first.catalog_fingerprint());
    let (_, preserved_stats) =
        scope(&mut first, "temperature", &ids, tight, ProviderCapabilityLimits::new()).unwrap();
    assert!(preserved_stats.cache_hit);

    register(&mut first, "weather.archive", "SECRET-E", ToolDiscoveryMetadata::deferred());
    assert_ne!(first_fingerprint, first.catalog_fingerprint());

    let mut permuted = new_registry();
    register(&mut permuted, "weather.archive", "SECRET-W", ToolDiscoveryMetadata::deferred());
    register(&mut permuted, "weather.future", "SECRET-X", ToolDiscoveryMetadata::deferred());
    register(
        &mut permuted,
        "weather.current",
        "SECRET-Y",
        ToolDiscoveryMetadata::deferred()
            .with_namespace("weather")
            .with_aliases(aliases(&["temperature", "forecast"])),
    );
    assert_eq!(first.catalog_fingerprint(), permuted.catalog_fingerprint());
}

#[test]
fn discovery_metadata_validation_rejects_unstable_or_duplicate_values() {
    let mut registry = new_registry();
    assert!(add(
        &mut registry,
        definition("tool", "description"),
        ToolDiscoveryMetadata::deferred().with_namespace("Not Stable"),
    )
    .is_err());
    assert!(add(
        &mut registry,
        definition("tool-2", "description"),
        ToolDiscoveryMetadata::deferred().with_aliases(aliases(&["same", "same"])),
    )
    .is_err());
    assert!(add(
        &mut registry,
        definition("tool-3", "description"),
        ToolDiscoveryMetadata::deferred().with_aliases(aliases(&["same-token", "same_token"])),
    )
    .is_err());
}

#[test]
fn registration_bounds_are_canonical_and_failures_preserve_warm_catalog() {
    let mut registry = new_registry();
    register(&mut registry, "weather.current", "description", ToolDiscoveryMetadata::deferred());
    let one = aliases(&["weather.current"]);
    let (_, cold) = scope(
        &mut registry,
        "weather",
        &one,
        ToolDiscoveryLimits::new().with_max_tools(0),
        ProviderCapabilityLimits::new(),
    )
    .unwrap();
    assert!(!cold.cache_hit);
    let fingerprint = registry.catalog_fingerprint();
    let (_, warm) = scope(
        &mut registry,
        "weather",
        &one,
        ToolDiscoveryLimits::new().with_max_tools(1),
        ProviderCapabilityLimits::new().with_max_tools(0),
    )
    .unwrap();
    assert!(!warm.cache_hit);

    let exact_id = format!("a{}", "x".repeat(MAX_TOOL_ID_BYTES - 1));
    let exact_name = "N".repeat(MAX_TOOL_NAME_BYTES);
    add(
        &mut registry,
        ToolDefinition::new(&exact_id, &exact_name, "description", object_schema()),
        ToolDiscoveryMetadata::deferred()
            .with_namespace(&"n".repeat(MAX_DISCOVERY_IDENTIFIER_BYTES))
            .with_aliases(vec!["a".repeat(MAX_DISCOVERY_IDENTIFIER_BYTES)]),
    )
    .unwrap();
    let fingerprint_after_valid = registry.catalog_fingerprint();
    assert_ne!(fingerprint, fingerprint_after_valid);
    let all_ids = vec!["weather.current".to_owned(), exact_id];
    let tight = ToolDiscoveryLimits::new().with_max_tools(1);
    let (_, warmed) =
        scope(&mut registry, "no match", &all_ids, tight, ProviderCapabilityLimits::new()).unwrap();
    assert!(warmed.cache_hit);

    let overlong_id = format!("a{}", "x".repeat(MAX_TOOL_ID_BYTES));
    let overlong_name = "N".repeat(MAX_TOOL_NAME_BYTES + 1);
    for (id, name) in [
        (overlong_id.as_str(), "Overlong id"),
        ("invalid.name.length", overlong_name.as_str()),
        (" leading", "Leading id whitespace"),
        ("unicode.\u{e9}", "Unicode id"),
        ("unicode.decomposed", "Cafe\u{301}"),
        ("unicode.composed", "Caf\u{e9}"),
        ("control.name", "Control\nName"),
        ("bidi.name", "Bidi \u{202e}Name"),
    ] {
        assert!(add(
            &mut registry,
            ToolDefinition::new(id, name, "description", object_schema()),
            ToolDiscoveryMetadata::deferred(),
        )
        .is_err());
    }

    let overlong = format!("n{}", "x".repeat(MAX_DISCOVERY_IDENTIFIER_BYTES));
    for metadata in [
        ToolDiscoveryMetadata::deferred().with_namespace(&overlong),
        ToolDiscoveryMetadata::deferred()
            .with_aliases(vec![format!("a{}", "x".repeat(MAX_DISCOVERY_IDENTIFIER_BYTES))]),
        ToolDiscoveryMetadata::deferred().with_namespace("unicode.\u{e9}"),
        ToolDiscoveryMetadata::deferred().with_aliases(aliases(&["control\u{0000}"])),
    ] {
        assert!(add(&mut registry, definition("invalid.metadata", "description"), metadata)
            .is_err());
    }

    let stuffed_aliases = (0..32)
        .map(|index| {
            format!("a{index:02}{}", "x".repeat(MAX_DISCOVERY_IDENTIFIER_BYTES - 3))
        })
        .collect::<Vec<_>>();
    let stuffed = add(
        &mut registry,
        definition("stuffed.metadata", "description"),
        ToolDiscoveryMetadata::deferred().with_aliases(stuffed_aliases),
    )
    .unwrap_err();
    assert!(matches!(
        stuffed,
        HarnessError::InvalidTool(message)
            if message.contains("safe discovery metadata")
                && message.contains(&MAX_TOOL_SAFE_METADATA_BYTES.to_string())
    ));

    assert_eq!(fingerprint_after_valid, registry.catalog_fingerprint());
    let (_, preserved) =
        scope(&mut registry, "no match", &all_ids, tight, ProviderCapabilityLimits::new()).unwrap();
    assert!(preserved.cache_hit);
}

#[test]
fn bounded_malicious_unicode_query_is_safe_and_does_not_search_payload_metadata() {
    let mut registry = new_registry();
    register(
        &mut registry,
        "weather.current",
        "payload-secret schema-secret provider-secret",
        ToolDiscoveryMetadata::deferred().with_aliases(aliases(&["temperature"])),
    );
    let ids = aliases(&["weather.current"]);
    let query = format!("{}payload-secret", "\u{1f999}".repeat(8_000));
    let (selected, _) = scope(
        &mut registry,
        &query,
        &ids,
        ToolDiscoveryLimits::new().with_max_tools(0),
        ProviderCapabilityLimits::new(),
    )
    .unwrap();
    assert!(selected.is_empty());
}

#[test]
fn exact_matches_are_not_disabled_by_lexical_expansion_limit() {
    let mut registry = new_registry();
    for id in ["weather.current", "weather.future"] {
        register(&mut registry, id, "description", ToolDiscoveryMetadata::deferred());
    }
    let ids = aliases(&["weather.current", "weather.future"]);
    let (selected, stats) = scope(
        &mut registry,
        "weather.current",
        &ids,
        ToolDiscoveryLimits::new().with_max_tools(1).with_max_expansion_tools(0),
        ProviderCapabilityLimits::new(),
    )
    .unwrap();
    assert!(selected.contains("weather.current"));
    assert_eq!(stats.outcome, ToolDiscoveryOutcome::Selected);
    assert_eq!(stats.selection, ToolDiscoverySelection::Exact);
}

#[test]
fn host_and_provider_limits_narrow_each_other() {
    let host = ToolDiscoveryLimits::new();
    let narrowed = host.effective(
        &ProviderCapabilityLimits::new().with_max_tools(3).with_max_tool_schema_bytes(100),
    );
    assert_eq!(narrowed.max_tools, 3);
    assert_eq!(narrowed.max_bytes, 100);
    assert_eq!(narrowed.max_expansion, 8);
    let wide = host.effective(
        &ProviderCapabilityLimits::new().with_max_tools(1000).with_max_tool_schema_bytes(1 << 40),
    );
    assert_eq!(wide.max_tools, 64);
    assert_eq!(wide.max_bytes, 131_072);
}

#[test]
fn queries_split_into_lower_case_words() {
    assert_eq!(tokenize("Weather.Tool 07!"), aliases(&["weather", "tool", "07"]));
    assert_eq!(normalize_phrase("  Weather.Tool -- 07 "), "weather.tool -- 07");
    assert_eq!(normalize_phrase(&"a".repeat(5_000)).len(), 4_096);
    assert!(tokenize("\u{1f999}--").is_empty());
    assert_eq!(tokenize(&"a ".repeat(100)).len(), 64);
}

#[test]
fn stable_identifiers_start_with_a_letter_or_digit() {
    assert!(is_stable("weather.tool-1_a"));
    assert!(!is_stable("Weather"));
    assert!(!is_stable(""));
    assert!(!is_stable("not stable"));
}

#[test]
fn fingerprints_are_digests_of_the_catalog() {
    let mut registry = new_registry();
    let empty = registry.catalog_fingerprint();
    assert_eq!(empty.version, 1);
    assert_eq!(empty.digest.len(), 64);
    assert_eq!(
        empty.digest,
        blake3::hash(b"llama-harness-tool-catalog\0v1\0").to_hex().to_string()
    );
}

#[test]
fn an_unknown_tool_is_not_found() {
    let mut registry = new_registry();
    register(&mut registry, "weather.current", "description", ToolDiscoveryMetadata::hot());
    assert!(registry.get("weather.current").is_some());
    assert!(registry.get("weather.future").is_none());
    let again = add(
        &mut registry,
        definition("weather.current", "again"),
        ToolDiscoveryMetadata::hot(),
    );
    assert!(matches!(again, Err(HarnessError::InvalidTool(_))));
    assert_eq!(registry.tools().len(), 1);
}
