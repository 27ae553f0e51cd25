use oxydra::bootstrap::{
    build_reliable_provider, catalog_failure, config_layer, file_uses_profiles, local_memory_path,
    names_are_profiles, plan_model, prompt_file_candidate, resolve_model_catalog, retry_policy,
    scheduler_state, selected_profile, validate_agents, vm_workspace_root, with_model,
    AgentDefinition, BootstrapError, CatalogSource, ConfigError, ConfigLayer, ConfigSearchPaths,
    ModelConfig, SchedulerState,
};
use oxydra::catalog::{
    canonicalize_json, catalog_drift, filter_catalog, merge_overrides, show_catalog_summary,
    verify_snapshot_bytes, CapsOverrideEntry, CapsOverrides, ProviderModels,
};
use oxydra::endpoint::{ModelCatalog, ProviderRegistryEntry, ProviderType};
use oxydra::environment::{
    apply_web_search_config, build_path_scrub_mappings, build_system_prompt,
    collect_config_env_vars, collect_shell_config_env_keys, paths_to_scrub, PathScrubMapping,
    RegistryEntry, WebSearchConfig, BASE_PROMPT, NO_TOOLS_PROMPT, SCHEDULER_PROMPT,
};
use oxydra::json::{parse_json, Json};
use oxydra::migration::{
    backup_file_name, is_older_version, migrate_config_text, parse_version_segments, ConfigType,
    Migration,
};
use oxydra::model::{ModelId, ProviderError, ProviderId};
use oxydra::retry::ReliableProvider;
use oxydra::sandbox::RunnerGuestImages;
use oxydra::text_map::TextMap;
use oxydra::update_check::{
    cache_after, cache_is_fresh, check_image_tag_mismatches, latest_tag, needs_fetch, release_tag, run_check,
    UpdateCache, UpdateCheckOutcome,
};
use std::time::Duration;

fn words(parts: &[&str]) -> Vec<String> {
    parts.iter().map(|part| (*part).to_owned()).collect()
}

fn env(entries: &[(&str, &str)]) -> TextMap<String> {
    let mut map = TextMap::new();
    for (name, value) in entries {
        map.insert((*name).to_owned(), (*value).to_owned());
    }
    map
}

fn value_of(env: &TextMap<String>, name: &str) -> Option<String> {
    env.get(name).cloned()
}

#[test]
fn apply_web_search_config_sets_provider_and_base_url_env_vars() {
    let config = WebSearchConfig {
        provider: Some("google".to_owned()),
        base_url: Some("https://custom-google.example/v1".to_owned()),
        query_params: Some("lr=lang_en".to_owned()),
        ..WebSearchConfig::default()
    };
    let mut env = env(&[]);
    apply_web_search_config(&config, &mut env);
    assert_eq!(value_of(&env, "OXYDRA_WEB_SEARCH_PROVIDER").as_deref(), Some("google"));
    assert_eq!(
        value_of(&env, "OXYDRA_WEB_SEARCH_GOOGLE_BASE_URL").as_deref(),
        Some("https://custom-google.example/v1")
    );
    assert_eq!(value_of(&env, "OXYDRA_WEB_SEARCH_QUERY_PARAMS").as_deref(), Some("lr=lang_en"));
}

#[test]
fn apply_web_search_config_does_not_override_existing_env_vars() {
    let config =
        WebSearchConfig { provider: Some("google".to_owned()), ..WebSearchConfig::default() };
    let mut env = env(&[("OXYDRA_WEB_SEARCH_PROVIDER", "duckduckgo-explicit")]);
    apply_web_search_config(&config, &mut env);
    assert_eq!(
        value_of(&env, "OXYDRA_WEB_SEARCH_PROVIDER").as_deref(),
        Some("duckduckgo-explicit"),
        "explicit env var should take precedence over config"
    );
}

#[test]
fn apply_web_search_config_resolves_google_api_key_via_indirection() {
    let config = WebSearchConfig {
        provider: Some("google".to_owned()),
        api_key_env: Some("MY_GOOGLE_KEY".to_owned()),
        engine_id_env: Some("MY_GOOGLE_CX".to_owned()),
        ..WebSearchConfig::default()
    };
    let mut env = env(&[("MY_GOOGLE_KEY", "secret-key-123"), ("MY_GOOGLE_CX", "engine-456")]);
    apply_web_search_config(&config, &mut env);
    assert_eq!(
        value_of(&env, "OXYDRA_WEB_SEARCH_GOOGLE_API_KEY").as_deref(),
        Some("secret-key-123")
    );
    assert_eq!(value_of(&env, "OXYDRA_WEB_SEARCH_GOOGLE_CX").as_deref(), Some("engine-456"));
}

#[test]
fn apply_web_search_config_sets_searxng_specific_fields() {
    let config = WebSearchConfig {
        provider: Some("searxng".to_owned()),
        base_url: Some("https://searx.example".to_owned()),
        engines: Some("google,bing".to_owned()),
        categories: Some("general".to_owned()),
        safesearch: Some(1),
        ..WebSearchConfig::default()
    };
    let mut env = env(&[]);
    apply_web_search_config(&config, &mut env);
    assert_eq!(value_of(&env, "OXYDRA_WEB_SEARCH_PROVIDER").as_deref(), Some("searxng"));
    assert_eq!(
        value_of(&env, "OXYDRA_WEB_SEARCH_SEARXNG_BASE_URL").as_deref(),
        Some("https://searx.example")
    );
    assert_eq!(
        value_of(&env, "OXYDRA_WEB_SEARCH_SEARXNG_ENGINES").as_deref(),
        Some("google,bing")
    );
    assert_eq!(
        value_of(&env, "OXYDRA_WEB_SEARCH_SEARXNG_CATEGORIES").as_deref(),
        Some("general")
    );
    assert_eq!(value_of(&env, "OXYDRA_WEB_SEARCH_SEARXNG_SAFESEARCH").as_deref(), Some("1"));
}

#[test]
fn configured_variables_are_forwarded() {
    let registry = vec![
        RegistryEntry { provider_type: ProviderType::Openai, api_key_env: Some("MINE".to_owned()) },
        RegistryEntry { provider_type: ProviderType::Anthropic, api_key_env: None },
    ];
    let env = env(&[
        ("MINE", "1"),
        ("ANTHROPIC_API_KEY", "2"),
        ("OPENAI_API_KEY", "3"),
        ("OTHER", "4"),
    ]);
    let vars = collect_config_env_vars(&registry, &None, &env);
    assert!(vars.contains(&"MINE=1".to_owned()));
    assert!(vars.contains(&"ANTHROPIC_API_KEY=2".to_owned()));
    assert!(!vars.iter().any(|var| var.starts_with("OTHER")));
    let keys = collect_shell_config_env_keys(&Some(words(&["OTHER", "GONE"])), &env);
    assert_eq!(keys, vec!["OTHER=4"]);
    assert!(collect_shell_config_env_keys(&None, &env).is_empty());
}

#[test]
fn host_paths_are_hidden() {
    let (shared, tmp, vault, root) = paths_to_scrub(&None, "/home/u/w");
    let mappings = build_path_scrub_mappings(shared, tmp, vault, root);
    let prefixes: Vec<&str> = mappings.iter().map(|m| m.host_prefix.as_str()).collect();
    assert!(prefixes.contains(&"/home/u/w"));
    assert_eq!(
        mappings[0],
        PathScrubMapping {
            host_prefix: "/home/u/w/shared".to_owned(),
            virtual_path: "/shared".to_owned(),
        }
    );
}

#[test]
fn prompts_say_what_is_there() {
    let plain = build_system_prompt(&None, false, None);
    assert!(plain.starts_with(BASE_PROMPT));
    assert!(plain.contains(NO_TOOLS_PROMPT));
    assert!(!plain.contains(SCHEDULER_PROMPT));
    assert!(build_system_prompt(&None, true, None).contains(SCHEDULER_PROMPT));
    assert!(build_system_prompt(&None, false, Some("Be kind.")).contains("Be kind."));
}

const MODELS: &str = r#"{
    "anthropic": {"id": "anthropic", "name": "Anthropic", "models": {"sonnet-3-5-latest": {"name": "Sonnet 3.5"}}},
    "google": {"id": "google", "name": "Google", "models": {"gemini-2.0-flash": {"name": "Gemini 2.0 Flash"}}},
    "mistral": {"id": "mistral", "name": "Mistral AI", "models": {"mistral-large-latest": {"name": "Mistral Large"}}},
    "openai": {"id": "openai", "name": "OpenAI", "models": {"gpt-4o": {"name": "GPT-4o"}}}
}"#;

fn filtered(text: &str, providers: &[&str]) -> Vec<(String, Json)> {
    match parse_json(text).expect("catalog should parse") {
        Json::Object(members) => filter_catalog(members, &words(providers)),
        _ => panic!("the catalog is an object"),
    }
}

fn names(catalog: &[(String, Json)]) -> Vec<&str> {
    catalog.iter().map(|(name, _)| name.as_str()).collect()
}

fn canonical(catalog: Vec<(String, Json)>) -> String {
    canonicalize_json(&Json::Object(catalog).to_pretty_text())
}

#[test]
fn regenerate_snapshot_is_deterministic() {
    let providers = &["openai", "anthropic", "google"];
    let json1 = canonical(filtered(MODELS, providers));
    let json2 = canonical(filtered(MODELS, providers));
    assert_eq!(
        json1, json2,
        "two runs from the same source data must produce byte-identical output"
    );
}

#[test]
fn verify_detects_drift() {
    let providers = &["openai", "anthropic", "google"];
    let canonical_json = canonical(filtered(MODELS, providers));
    assert!(
        verify_snapshot_bytes(&canonical_json, &canonical_json),
        "identical snapshots should verify successfully"
    );
    let drifted = MODELS.replace("GPT-4o", "GPT-4o-MODIFIED");
    let drifted_json = canonical(filtered(&drifted, providers));
    assert!(
        !verify_snapshot_bytes(&drifted_json, &canonical_json),
        "drifted snapshot should fail verification"
    );
}

#[test]
fn filter_excludes_non_configured_providers() {
    let catalog = filtered(MODELS, &["openai", "anthropic"]);
    assert_eq!(catalog.len(), 2, "should have exactly 2 providers");
    assert!(names(&catalog).contains(&"openai"), "openai should be kept");
    assert!(names(&catalog).contains(&"anthropic"), "anthropic should be kept");
    assert!(!names(&catalog).contains(&"google"), "google should be excluded");
    assert!(!names(&catalog).contains(&"mistral"), "mistral should be excluded");
}

#[test]
fn filter_to_default_providers_excludes_mistral() {
    let catalog = filtered(MODELS, &["openai", "anthropic", "google"]);
    assert_eq!(catalog.len(), 3, "default filter should yield openai + anthropic + google");
    assert!(
        !names(&catalog).contains(&"mistral"),
        "mistral should not be in default filter output"
    );
}

#[test]
fn overlay_preserves_existing_overrides() {
    let mut existing = CapsOverrides::default();
    existing.overrides.insert(
        "anthropic/sonnet-3-5-latest".to_string(),
        CapsOverrideEntry {
            supports_streaming: Some(true),
            supports_tools: Some(false),
            ..CapsOverrideEntry::default()
        },
    );
    existing.provider_defaults.insert(
        "openai".to_string(),
        CapsOverrideEntry { supports_streaming: Some(true), ..CapsOverrideEntry::default() },
    );
    let merged = merge_overrides(existing, &words(&["openai", "anthropic", "google"]));
    assert_eq!(
        merged.overrides.get("anthropic/sonnet-3-5-latest").and_then(|e| e.supports_tools),
        Some(false),
        "existing model-specific override should be preserved"
    );
    assert_eq!(
        merged.provider_defaults.get("openai").and_then(|e| e.supports_streaming),
        Some(true),
        "existing openai provider default should be preserved"
    );
    assert!(
        merged.provider_defaults.contains_key("anthropic"),
        "anthropic should have a provider_defaults entry after merge"
    );
    assert!(
        merged.provider_defaults.contains_key("google"),
        "google should have a provider_defaults entry after merge"
    );
    assert_eq!(
        merged.provider_defaults.get("google").and_then(|e| e.supports_streaming),
        Some(true),
        "new google provider default should have supports_streaming=true"
    );
}

#[test]
fn load_overrides_returns_default_when_file_missing() {
    let overrides = CapsOverrides::default();
    assert!(
        overrides.overrides.entries.is_empty(),
        "default overrides should have no model entries"
    );
    assert!(
        overrides.provider_defaults.entries.is_empty(),
        "default overrides should have no provider defaults"
    );
}

#[test]
fn canonicalize_json_ends_with_newline() {
    let canonical = canonical(filtered(MODELS, &["openai"]));
    assert!(canonical.ends_with('\n'), "canonical JSON should end with a newline");
    assert!(canonical.contains("\n  \"openai\": {"));
}

#[test]
fn filter_catalog_with_empty_provider_list_yields_empty_catalog() {
    let catalog = filtered(MODELS, &[]);
    assert!(
        catalog.is_empty(),
        "filtering with empty provider list should yield empty catalog"
    );
}

fn listed(provider: &str, models: &[&str]) -> ProviderModels {
    ProviderModels { provider: provider.to_owned(), models: words(models) }
}

#[test]
fn summaries_count_models() {
    let text = show_catalog_summary(&vec![listed("a", &["m1", "m2"]), listed("b", &["m3"])]);
    assert!(text.contains("\na (2 models):\n  - m1\n  - m2\n"));
    assert!(text.contains("\nTotal: 3 models across 2 providers"));
    let drift = catalog_drift(
        &vec![listed("a", &["m1"]), listed("b", &["m2"])],
        &vec![listed("a", &["m1", "m3"]), listed("b", &["m2"])],
        &words(&["a", "b"]),
    );
    assert_eq!(drift.len(), 1);
    assert_eq!((drift[0].provider.as_str(), drift[0].committed, drift[0].fresh), ("a", 1, 2));
}

fn openai_catalog() -> ModelCatalog {
    ModelCatalog {
        entries: vec![(ProviderId::new("openai"), ModelId::new("gpt-4o-mini"))],
    }
}

fn entry(provider_type: ProviderType, api_key: Option<&str>) -> ProviderRegistryEntry {
    ProviderRegistryEntry {
        provider_type,
        api_key: api_key.map(str::to_owned),
        api_key_env: None,
        base_url: None,
        catalog_provider: None,
    }
}

fn registry(entries: Vec<(&str, ProviderRegistryEntry)>) -> TextMap<ProviderRegistryEntry> {
    let mut map = TextMap::new();
    for (name, entry) in entries {
        map.insert(name.to_owned(), entry);
    }
    map
}

fn model_config(provider: &str, model: &str) -> ModelConfig {
    ModelConfig {
        provider: provider.to_owned(),
        model: model.to_owned(),
        skip_catalog_validation: false,
        max_attempts: 3,
        backoff_base_ms: 250,
        backoff_max_ms: 2_000,
    }
}

#[test]
fn provider_factory_switches_by_config_selection() {
    let registered = registry(vec![
        ("openai", entry(ProviderType::Openai, Some("openai-test-key"))),
        ("anthropic", entry(ProviderType::Anthropic, Some("anthropic-test-key"))),
    ]);
    let mut openai_config = model_config("openai", "gpt-4o-mini");
    openai_config.max_attempts = 4;
    openai_config.backoff_base_ms = 10;
    openai_config.backoff_max_ms = 100;
    let reliable_openai = build_reliable_provider(
        &openai_config,
        &registered,
        &env(&[]),
        openai_catalog(),
        &CapsOverrides::default(),
    )
    .expect("openai provider should be constructed");
    assert_eq!(reliable_openai.inner.connection.provider, ProviderId::new("openai"));
    assert_eq!(reliable_openai.retry_policy().max_attempts, 4);
    assert_eq!(reliable_openai.retry_policy().backoff_base, Duration::from_millis(10));
    assert_eq!(reliable_openai.retry_policy().backoff_max, Duration::from_millis(100));

    let catalog = ModelCatalog {
        entries: vec![(ProviderId::new("anthropic"), ModelId::new("haiku-3-5-latest"))],
    };
    let provider = build_reliable_provider(
        &model_config("anthropic", "haiku-3-5-latest"),
        &registered,
        &env(&[]),
        catalog,
        &CapsOverrides::default(),
    )
    .expect("anthropic provider should build");
    assert_eq!(provider.inner.connection.provider, ProviderId::new("anthropic"));
    assert_eq!(provider.inner.connection.api_key, "anthropic-test-key");
    assert_eq!(provider.inner.connection.base_url, "https://api.anthropic.com");
}

#[test]
fn deprecated_model_emits_warning() {
    let mut overrides = CapsOverrides::default();
    overrides.overrides.insert(
        "openai/gpt-4o-mini".to_owned(),
        CapsOverrideEntry { deprecated: Some(true), ..CapsOverrideEntry::default() },
    );
    assert!(overrides.is_deprecated("openai", "gpt-4o-mini"));
    assert!(!overrides.is_deprecated("openai", "gpt-4o"));
    let registered =
        registry(vec![("openai", entry(ProviderType::Openai, Some("test-openai-key")))]);
    let provider = build_reliable_provider(
        &model_config("openai", "gpt-4o-mini"),
        &registered,
        &env(&[]),
        openai_catalog(),
        &overrides,
    )
    .expect("deprecation is no error");
    assert!(provider.inner.plan.deprecated);
    assert!(!provider.inner.plan.synthetic);
}

#[test]
fn provider_type_model_mismatch_rejected() {
    let registered =
        registry(vec![("openai", entry(ProviderType::Openai, Some("test-openai-key")))]);
    let build = |config: &ModelConfig| {
        build_reliable_provider(
            config,
            &registered,
            &env(&[]),
            openai_catalog(),
            &CapsOverrides::default(),
        )
    };
    let mut config = model_config("openai", "haiku-3-5-latest");
    assert!(matches!(
        build(&config),
        Err(BootstrapError::ConfigValidation(ConfigError::UnknownModelForCatalogProvider { .. }))
    ));
    config.skip_catalog_validation = true;
    let skipped = build(&config).expect("validation is skipped");
    assert!(skipped.inner.plan.synthetic);
    assert!(!skipped.inner.plan.check_capabilities);
    assert_eq!(
        skipped
            .inner
            .catalog
            .validate(&ProviderId::new("openai"), &ModelId::new("haiku-3-5-latest")),
        Ok(())
    );
    let plan = plan_model(
        &openai_catalog(),
        &CapsOverrides::default(),
        "openai",
        "gpt-4o-mini",
        true,
    )
    .expect("the model is listed");
    assert!(plan.check_capabilities);
    let grown = with_model(openai_catalog(), "openai", "haiku-3-5-latest");
    assert_eq!(
        grown.validate(&ProviderId::new("openai"), &ModelId::new("haiku-3-5-latest")),
        Ok(())
    );
}

#[test]
fn openai_responses_provider_uses_openai_catalog() {
    let registered = registry(vec![(
        "openai-responses",
        entry(ProviderType::OpenaiResponses, Some("test-responses-key")),
    )]);
    let provider = build_reliable_provider(
        &model_config("openai-responses", "gpt-4o-mini"),
        &registered,
        &env(&[]),
        openai_catalog(),
        &CapsOverrides::default(),
    )
    .expect("openai-responses provider should validate gpt-4o-mini against openai catalog");
    assert_eq!(provider.inner.connection.provider, ProviderId::new("openai-responses"));
    assert_eq!(provider.inner.connection.catalog_provider, ProviderId::new("openai"));
}

#[test]
fn keys_come_from_the_environment() {
    let mut named = entry(ProviderType::Gemini, None);
    named.api_key_env = Some("MY_KEY".to_owned());
    named.catalog_provider = Some("openai".to_owned());
    named.base_url = Some("https://my-proxy.example/".to_owned());
    assert_eq!(named.effective_catalog_provider(), "openai");
    assert_eq!(entry(ProviderType::Gemini, None).effective_catalog_provider(), "google");
    let registered = registry(vec![("my-proxy", named)]);
    let build = |variables: &[(&str, &str)]| {
        build_reliable_provider(
            &model_config("my-proxy", "gpt-4o-mini"),
            &registered,
            &env(variables),
            openai_catalog(),
            &CapsOverrides::default(),
        )
        .map(|provider| (provider.inner.connection.api_key, provider.inner.connection.base_url))
    };
    let url = "https://my-proxy.example".to_owned();
    let all = [("API_KEY", "c"), ("GEMINI_API_KEY", "b"), ("MY_KEY", "a")];
    assert_eq!(build(&all), Ok(("a".to_owned(), url.clone())));
    assert_eq!(build(&all[..2]), Ok(("b".to_owned(), url.clone())));
    assert_eq!(build(&all[..1]), Ok(("c".to_owned(), url)));
    assert_eq!(
        build(&[]),
        Err(BootstrapError::Provider(ProviderError::MissingApiKey {
            provider: ProviderId::new("my-proxy"),
        }))
    );
    let unknown = build_reliable_provider(
        &model_config("other", "gpt-4o-mini"),
        &registered,
        &env(&[]),
        openai_catalog(),
        &CapsOverrides::default(),
    );
    assert!(matches!(
        unknown,
        Err(BootstrapError::ConfigValidation(ConfigError::UnknownProvider { .. }))
    ));
}

#[test]
fn reliable_providers_have_sound_policies() {
    let usual = ReliableProvider::with_defaults(7_u8);
    assert_eq!((usual.inner, usual.retry_policy().max_attempts), (7, 3));
    let odd = ReliableProvider::new("inner", retry_policy(0, 0, 0));
    assert_eq!(odd.retry_policy().max_attempts, 1);
    assert_eq!(odd.retry_policy().backoff_base, Duration::from_millis(1));
    assert_eq!(odd.retry_policy().backoff_max, Duration::from_millis(1));
}

#[test]
fn config_files_go_from_far_to_near() {
    let paths = ConfigSearchPaths::discover("/w", Some("/home/u"));
    assert_eq!(
        paths.config_files(),
        words(&[
            "/etc/oxydra/agent.toml",
            "/etc/oxydra/providers.toml",
            "/home/u/.config/oxydra/agent.toml",
            "/home/u/.config/oxydra/providers.toml",
            "/w/.oxydra/agent.toml",
            "/w/.oxydra/providers.toml",
        ])
    );
    assert_eq!(ConfigSearchPaths::discover("/w", None).config_files().len(), 4);
    assert!(paths.system_md_candidates().contains(&"/w/.oxydra/SYSTEM.md".to_owned()));
}

#[test]
fn profiles_are_told_from_settings() {
    assert_eq!(selected_profile(None), "default");
    assert_eq!(selected_profile(Some("prod")), "prod");
    assert!(file_uses_profiles("[default.selection]\nmodel = \"m\"\n", "default"));
    assert!(!file_uses_profiles("[selection]\nmodel = \"m\"\n", "default"));
    assert!(!file_uses_profiles("not toml [", "default"));
    assert!(names_are_profiles(&words(&["prod"]), "prod"));
    assert_eq!(config_layer(false, None, "default"), ConfigLayer::Skip);
    assert_eq!(config_layer(true, Some("[selection]\n"), "default"), ConfigLayer::Plain);
    assert_eq!(config_layer(true, Some("[default.selection]\n"), "default"), ConfigLayer::Nested);
}

#[test]
fn catalogs_come_from_the_nearest_source() {
    assert_eq!(resolve_model_catalog(true, None), CatalogSource::Cache);
    assert_eq!(resolve_model_catalog(false, None), CatalogSource::Fetch);
    assert_eq!(resolve_model_catalog(false, Some(true)), CatalogSource::Fetched);
    assert_eq!(resolve_model_catalog(false, Some(false)), CatalogSource::Pinned);
    assert!(matches!(
        catalog_failure(&ProviderId::new("p"), "broken"),
        BootstrapError::Provider(_)
    ));
    let policy = retry_policy(3, 250, 1000);
    assert_eq!(policy.max_attempts, 3);
    assert_eq!(policy.backoff_base, std::time::Duration::from_millis(250));
}

#[test]
fn roots_and_files_have_their_places() {
    assert_eq!(vm_workspace_root(Some("/cli".to_owned()), None).as_deref(), Some("/cli"));
    assert_eq!(vm_workspace_root(None, None), None);
    assert_eq!(local_memory_path(Some("/w"), "/cwd"), "/w/.oxydra/memory.db");
    assert_eq!(local_memory_path(None, "/cwd"), "/cwd/.oxydra/memory.db");
    assert_eq!(prompt_file_candidate(Some("/w"), "p.md"), "/w/p.md");
    assert_eq!(prompt_file_candidate(Some("/w"), "/abs/p.md"), "/abs/p.md");
    assert_eq!(scheduler_state(false, None), SchedulerState::Off);
    assert_eq!(scheduler_state(true, Some(Ok(()))), SchedulerState::On);
    assert!(matches!(
        scheduler_state(true, Some(Err("no".to_owned()))),
        SchedulerState::Unavailable(_)
    ));
}

#[test]
fn agents_are_checked_in_order() {
    let agent = |name: &str| AgentDefinition {
        name: name.to_owned(),
        selection: None,
        tools: None,
        system_prompt_file: None,
        prompt_file_found: false,
    };
    let providers = words(&["openai"]);
    let tools = words(&["file_read"]);
    assert_eq!(validate_agents(&vec![agent("a")], &providers, &tools), Ok(()));
    let unknown = AgentDefinition {
        selection: Some(("elsewhere".to_owned(), "m".to_owned())),
        ..agent("b")
    };
    assert!(matches!(
        validate_agents(&vec![agent("a"), unknown], &providers, &tools),
        Err(BootstrapError::UnsupportedProvider { provider }) if provider == "elsewhere"
    ));
    let modelless =
        AgentDefinition { selection: Some(("openai".to_owned(), " ".to_owned())), ..agent("c") };
    assert!(matches!(
        validate_agents(&vec![modelless], &providers, &tools),
        Err(BootstrapError::ConfigValidation(ConfigError::EmptyModelForProvider { .. }))
    ));
    let toolless = AgentDefinition { tools: Some(words(&["fly"])), ..agent("d") };
    assert!(matches!(
        validate_agents(&vec![toolless], &providers, &tools),
        Err(BootstrapError::ConfigValidation(ConfigError::UnknownAgentTool { .. }))
    ));
    let promptless = AgentDefinition { system_prompt_file: Some("p.md".to_owned()), ..agent("e") };
    assert!(matches!(
        validate_agents(&vec![promptless], &providers, &tools),
        Err(BootstrapError::ConfigValidation(ConfigError::SystemPromptFileNotFound { .. }))
    ));
}

#[test]
fn old_configurations_are_migrated() {
    let text = "config_version = \"1.0.0\"\nworkspace_root = \"w\" # kept\n";
    let Migration::Migrated { from_version, text } = migrate_config_text(text, ConfigType::Global)
    else {
        panic!("the file is old");
    };
    assert_eq!(from_version, "1.0.0");
    assert!(text.contains("config_version = \"1.0.1\""));
    assert!(text.contains("workspace_root = \"w\" # kept"));
    assert_eq!(
        migrate_config_text("config_version = \"1.0.1\"\n", ConfigType::User),
        Migration::Current
    );
    assert_eq!(
        migrate_config_text("config_version = \"9.0.0\"\n", ConfigType::User),
        Migration::Newer
    );
    assert_eq!(
        migrate_config_text("config_version = \"x\"\n", ConfigType::User),
        Migration::Malformed
    );
    assert!(matches!(migrate_config_text("= broken", ConfigType::User), Migration::Invalid(_)));
}

#[test]
fn versions_are_compared_by_number() {
    assert_eq!(parse_version_segments("1.10.2"), Some(vec![1, 10, 2]));
    assert_eq!(parse_version_segments("1.x"), None);
    assert_eq!(is_older_version("1.9.9", "1.10.0"), Some(true));
    assert_eq!(is_older_version("1.10.0", "1.9.9"), Some(false));
    assert_eq!(is_older_version("nine", "1.0.0"), None);
    let backup = backup_file_name(Some("runner.toml"), 123, 7);
    assert!(backup.starts_with("runner.toml"));
    assert!(backup.contains("123"));
}

#[test]
fn updates_are_found() {
    let cache = UpdateCache { latest_tag: "v1.3.0".to_owned(), checked_at_secs: 1000 };
    assert!(cache_is_fresh(&cache, 1000 + 86399));
    assert!(!cache_is_fresh(&cache, 1000 + 86400));
    let cache = Some(cache);
    assert!(!needs_fetch(true, &cache, 1001));
    assert!(needs_fetch(false, &cache, 1001));
    assert_eq!(latest_tag(true, false, &cache, 1001, None).as_deref(), Some("v1.3.0"));
    let answer = r#"[
        {"draft": true, "prerelease": false, "tag_name": "v3.0.0"},
        {"draft": false, "prerelease": true, "tag_name": "v2.1.0-rc.1"},
        {"draft": false, "prerelease": false, "tag_name": "v2.0.0"}
    ]"#;
    assert_eq!(release_tag(answer, false).as_deref(), Some("v2.0.0"));
    assert_eq!(release_tag(answer, true).as_deref(), Some("v2.1.0-rc.1"));
    assert_eq!(release_tag(r#"[{"tag_name": "v2.0.0"}]"#, true), None);
    assert_eq!(release_tag("nonsense", false), None);
    assert_eq!(latest_tag(false, false, &None, 5, Some(answer)).as_deref(), Some("v2.0.0"));
    assert_eq!(
        run_check("1.2.3", Some("v1.10.0")),
        Some(UpdateCheckOutcome {
            current_version: "1.2.3".to_owned(),
            latest_version: "1.10.0".to_owned(),
            update_available: true,
        })
    );
    let stored = |tag: &str, at| {
        Some(UpdateCache { latest_tag: tag.to_owned(), checked_at_secs: at })
    };
    assert_eq!(cache_after(false, false, None, 5, Some(answer)), stored("v2.0.0", 5));
    assert_eq!(cache_after(true, false, stored("v1", 4), 5, Some(answer)), stored("v1", 4));
    assert_eq!(cache_after(false, false, stored("v1", 4), 5, Some(answer)), stored("v2.0.0", 5));
    assert_eq!(cache_after(false, false, stored("v1", 4), 5, Some("no")), stored("v1", 4));
    assert_eq!(cache_after(false, false, stored("v1", 4), 5, None), stored("v1", 4));
    let available = |tag| run_check("1.2.3", Some(tag)).map(|outcome| outcome.update_available);
    assert_eq!(available("v1.2.3"), Some(false));
    assert_eq!(available("v1.2.2"), Some(false));
    assert_eq!(available("v1.2.3-rc.1"), Some(false));
    assert_eq!(run_check("1.2.3", Some("latest")), None);
    assert_eq!(run_check("1.2.3", None), None);
}

#[test]
fn image_tags_are_held_against_the_binary() {
    let images = RunnerGuestImages {
        oxydra_vm: "ghcr.io/x/oxydra-vm:v1.2.3".to_owned(),
        shell_vm: "ghcr.io/x/shell-vm:1.0.0".to_owned(),
        firecracker_oxydra_vm_config: None,
        firecracker_shell_vm_config: None,
    };
    let mismatches = check_image_tag_mismatches(&images, "1.2.3");
    assert_eq!(mismatches.len(), 1);
    assert_eq!(mismatches[0].field, "guest_images.shell_vm");
    assert_eq!(mismatches[0].image_tag, "1.0.0");
}

#[test]
fn start_up_errors_have_texts() {
    let text = |text: &str| text.to_owned();
    assert_eq!(
        BootstrapError::Io { message: text("no home") }.to_text(),
        "failed to resolve configuration path: no home"
    );
    assert_eq!(
        BootstrapError::ConfigExtract { message: text("bad table") }.to_text(),
        "failed to load configuration: bad table"
    );
    assert_eq!(
        BootstrapError::UnsupportedProvider { provider: text("elsewhere") }.to_text(),
        "unsupported provider `elsewhere` in provider selection"
    );
    assert_eq!(BootstrapError::Memory { message: text("locked") }.to_text(), "locked");
    assert_eq!(BootstrapError::Bootstrap { message: text("no user") }.to_text(), "no user");
    let error = ConfigError::UnknownModelForCatalogProvider {
        model: text("m"),
        catalog_provider: text("p"),
    };
    assert_eq!(
        BootstrapError::ConfigValidation(error).to_text(),
        "unknown model `m` for catalog provider `p`"
    );
    let error = ProviderError::HttpStatus {
        provider: ProviderId::new("p"),
        status: 503,
        message: text("busy"),
    };
    assert_eq!(
        BootstrapError::Provider(error).to_text(),
        "provider `p` answered with status 503: busy"
    );
}
