use llama_harness_core::agent::AgentDefinition;
use llama_harness_core::manifest::{
    accept_manifest, lower, manifest_format, validate_agent_definition, AgentManifest,
    AgentManifestError, ManifestFormat,
};

fn text_of(value: &serde_json::Value, key: &str) -> String {
    value[key].as_str().unwrap_or("").to_owned()
}

fn read_manifest(
    text: &str,
    extension: Option<&str>,
) -> Result<AgentManifest, AgentManifestError> {
    let value: serde_json::Value = match manifest_format(extension)? {
        ManifestFormat::Yaml => serde_yaml::from_str(text)
            .map_err(|error| AgentManifestError::Yaml(error.to_string()))?,
        ManifestFormat::Json => serde_json::from_str(text)
            .map_err(|error| AgentManifestError::Json(error.to_string()))?,
    };
    let mut agents = Vec::new();
    for entry in value["agents"].as_array().unwrap() {
        let mut agent = AgentDefinition::new(
            &text_of(entry, "id"),
            &text_of(entry, "name"),
            &text_of(entry, "version"),
            &text_of(entry, "default_model"),
        );
        if let Some(tools) = entry["tool_allowlist"].as_array() {
            agent.tool_allowlist =
                tools.iter().map(|tool| tool.as_str().unwrap().to_owned()).collect();
        }
        agents.push(agent);
    }
    let mut manifest = AgentManifest::new(agents);
    manifest.version = value["version"].as_u64().unwrap() as u32;
    accept_manifest(Ok(manifest))
}

#[test]
fn yaml_and_json_manifests_are_validated_without_registering_tools() {
    let yaml = r#"
version: 1
agents:
  - id: task
    name: Task Agent
    version: "1"
    default_model: ollama:qwen3
    tool_allowlist: [list_tasks]
"#;
    let yaml_manifest = read_manifest(yaml, Some("yaml")).unwrap();
    assert_eq!(yaml_manifest.agents[0].id, "task");
    let json = r#"{"version":1,"agents":[{"id":"task","name":"Task Agent","version":"1","default_model":"ollama:qwen3","tool_allowlist":["list_tasks"]}]}"#;
    let json_manifest = read_manifest(json, Some("json")).unwrap();
    assert_eq!(json_manifest.version, yaml_manifest.version);
    assert_eq!(json_manifest.agents, yaml_manifest.agents);
}

#[test]
fn invalid_versions_duplicate_ids_and_duplicate_tools_are_rejected() {
    let unsupported = r#"{"version":2,"agents":[]}"#;
    assert!(read_manifest(unsupported, Some("json")).is_err());
    let duplicate_id = r#"
version: 1
agents:
  - {id: a, name: A, version: "1", default_model: ollama:a}
  - {id: a, name: B, version: "1", default_model: ollama:b}
"#;
    assert!(read_manifest(duplicate_id, Some("yaml")).is_err());
    let duplicate_tool = r#"
version: 1
agents:
  - id: a
    name: A
    version: "1"
    default_model: ollama:a
    tool_allowlist: [list, list]
"#;
    assert!(read_manifest(duplicate_tool, Some("yaml")).is_err());
}

#[test]
fn every_manifest_fault_has_its_own_words() {
    let mut manifest = AgentManifest::new(Vec::new());
    manifest.version = 2;
    let error = manifest.validate().unwrap_err();
    assert_eq!(error.to_text(), "invalid agent manifest: version 2 is unsupported; expected 1");

    let mut agent = AgentDefinition::new("a", "A", "1", "model");
    agent.name = "  ".to_owned();
    assert_eq!(
        validate_agent_definition(&agent),
        Err(AgentManifestError::Invalid(
            "agent id, name, version, and default model are required".to_owned()
        ))
    );
    let mut agent = AgentDefinition::new("a", "A", "1", "model");
    agent.limits.max_json_depth = 0;
    assert_eq!(
        validate_agent_definition(&agent),
        Err(AgentManifestError::Invalid(
            "agent call, byte, transcript, and depth limits must be greater than zero".to_owned()
        ))
    );
    let mut agent = AgentDefinition::new("a", "A", "1", "model");
    agent.tool_allowlist = vec!["read".to_owned(), " ".to_owned()];
    assert_eq!(
        validate_agent_definition(&agent),
        Err(AgentManifestError::Invalid("agent a has an empty allowed tool ID".to_owned()))
    );
    let mut agent = AgentDefinition::new("a", "A", "1", "model");
    agent.tool_allowlist = vec!["read".to_owned(), "list".to_owned(), "read".to_owned()];
    assert_eq!(
        validate_agent_definition(&agent),
        Err(AgentManifestError::Invalid(
            "agent a lists an allowed tool more than once".to_owned()
        ))
    );
    let twice = AgentManifest::new(vec![
        AgentDefinition::new("a", "A", "1", "model"),
        AgentDefinition::new("b", "B", "1", "model"),
        AgentDefinition::new("a", "C", "1", "model"),
    ]);
    assert_eq!(
        twice.validate(),
        Err(AgentManifestError::Invalid("agent ID a appears more than once".to_owned()))
    );
    assert_eq!(twice.find("b").map(|agent| agent.name.as_str()), Some("B"));
    assert!(twice.find("z").is_none());
}

#[test]
fn manifest_formats_follow_the_extension() {
    assert_eq!(manifest_format(Some("YAML")), Ok(ManifestFormat::Yaml));
    assert_eq!(manifest_format(Some("yml")), Ok(ManifestFormat::Yaml));
    assert_eq!(manifest_format(Some("Json")), Ok(ManifestFormat::Json));
    assert_eq!(
        manifest_format(Some("toml")),
        Err(AgentManifestError::Invalid(
            "agent manifest must use a .yaml, .yml, or .json extension".to_owned()
        ))
    );
    assert!(manifest_format(None).is_err());
    assert_eq!(lower("A\u{c9}z"), "a\u{c9}z");
    let broken: AgentManifestError = AgentManifestError::Io("gone".to_owned());
    assert_eq!(broken.to_text(), "I/O error: gone");
    assert!(matches!(accept_manifest(Err(broken)), Err(AgentManifestError::Io(_))));
}
