//! How a guest is configured when it starts: which files count, which model it talks to,
//! what its tools are told, and what the model is told of its workspace.

use crate::catalog;
use crate::endpoint;
use crate::endpoint::{provider_key_variable, ModelCatalog, ProviderRegistryEntry};
use crate::exchange;
use crate::exchange::{build_provider, KeySources, ProviderConnection};
use crate::model;
use crate::model::{
    request_failed, ContextModel, ModelId, ProviderError, ProviderErrorModel, ProviderId,
};
use crate::paths;
use crate::paths::join_path;
use crate::retry;
use crate::retry::{ReliableProvider, RetryPolicy};
use crate::startup::RunnerBootstrapEnvelope;
use crate::text;
use crate::text::{concat, concat3, concat5, same_text, trim};
use crate::text_map::TextMap;
use core::time::Duration;
use vstd::prelude::*;

verus! {

pub const SYSTEM_CONFIG_DIR: &'static str = "/etc/oxydra";

pub const USER_CONFIG_DIR: &'static str = ".config/oxydra";

pub const WORKSPACE_CONFIG_DIR: &'static str = ".oxydra";

pub const AGENT_CONFIG_FILE_NAME: &'static str = "agent.toml";

pub const PROVIDERS_CONFIG_FILE_NAME: &'static str = "providers.toml";

/// What the variables start with that configure the agent.
pub const CONFIG_ENV_PREFIX: &'static str = "OXYDRA__";

pub const DEFAULT_PROFILE: &'static str = "default";

/// The database that the agent remembers in.
pub const MEMORY_DB_FILENAME: &'static str = "memory.db";

/// What the user may add to what the model is told.
pub const SYSTEM_MD_FILE: &'static str = "SYSTEM.md";

/// Where configuration is looked for.
#[derive(Debug, PartialEq, Eq)]
pub struct ConfigSearchPaths {
    pub system_dir: String,
    pub user_dir: Option<String>,
    pub workspace_dir: String,
}

impl ConfigSearchPaths {
    /// Where configuration is looked for, given where the program runs and where the
    /// user is at home.
    pub fn discover(current_dir: &str, home: Option<&str>) -> (r: Self)
        ensures
            r.system_dir@ == "/etc/oxydra"@,
            r.user_dir.deep_view() == match home {
                Some(home) => Some(paths::joined_path(home@, ".config/oxydra"@)),
                None => None,
            },
            r.workspace_dir@ == paths::joined_path(current_dir@, ".oxydra"@),
    {
        ConfigSearchPaths {
            system_dir: SYSTEM_CONFIG_DIR.to_owned(),
            user_dir: match home {
                Some(home) => Some(join_path(home, USER_CONFIG_DIR)),
                None => None,
            },
            workspace_dir: join_path(current_dir, WORKSPACE_CONFIG_DIR),
        }
    }

    /// The files that the agent is configured by, the least important first.
    pub open spec fn config_paths(self) -> Seq<Seq<char>> {
        let system = seq![
            paths::joined_path(self.system_dir@, "agent.toml"@),
            paths::joined_path(self.system_dir@, "providers.toml"@),
        ];
        let user = match self.user_dir {
            Some(user_dir) => seq![
                paths::joined_path(user_dir@, "agent.toml"@),
                paths::joined_path(user_dir@, "providers.toml"@),
            ],
            None => Seq::empty(),
        };
        let workspace = seq![
            paths::joined_path(self.workspace_dir@, "agent.toml"@),
            paths::joined_path(self.workspace_dir@, "providers.toml"@),
        ];
        system + user + workspace
    }

    /// The files that the agent is configured by, the least important first. What a later
    /// one says counts.
    pub fn config_files(&self) -> (r: Vec<String>)
        ensures
            r.deep_view() == self.config_paths(),
    {
        let mut files: Vec<String> = Vec::new();
        files.push(join_path(self.system_dir.as_str(), AGENT_CONFIG_FILE_NAME));
        files.push(join_path(self.system_dir.as_str(), PROVIDERS_CONFIG_FILE_NAME));
        if let Some(user_dir) = &self.user_dir {
            files.push(join_path(user_dir.as_str(), AGENT_CONFIG_FILE_NAME));
            files.push(join_path(user_dir.as_str(), PROVIDERS_CONFIG_FILE_NAME));
        }
        files.push(join_path(self.workspace_dir.as_str(), AGENT_CONFIG_FILE_NAME));
        files.push(join_path(self.workspace_dir.as_str(), PROVIDERS_CONFIG_FILE_NAME));
        proof {
            assert(files.deep_view() =~= self.config_paths());
        }
        files
    }

    /// Where the user's addition to what the model is told may be, the most important
    /// place first.
    pub open spec fn system_md_paths(self) -> Seq<Seq<char>> {
        let user = match self.user_dir {
            Some(user_dir) => seq![paths::joined_path(user_dir@, "SYSTEM.md"@)],
            None => Seq::empty(),
        };
        seq![paths::joined_path(self.workspace_dir@, "SYSTEM.md"@)] + user + seq![
            paths::joined_path(self.system_dir@, "SYSTEM.md"@),
        ]
    }

    /// Where the user's addition to what the model is told may be, the most important
    /// place first. The first that is there counts.
    pub fn system_md_candidates(&self) -> (r: Vec<String>)
        ensures
            r.deep_view() == self.system_md_paths(),
    {
        let mut files: Vec<String> = Vec::new();
        files.push(join_path(self.workspace_dir.as_str(), SYSTEM_MD_FILE));
        if let Some(user_dir) = &self.user_dir {
            files.push(join_path(user_dir.as_str(), SYSTEM_MD_FILE));
        }
        files.push(join_path(self.system_dir.as_str(), SYSTEM_MD_FILE));
        proof {
            assert(files.deep_view() =~= self.system_md_paths());
        }
        files
    }
}

/// Which model is to be used, in place of the configured one.
#[derive(Debug, PartialEq, Eq, Default)]
pub struct SelectionOverrides {
    pub provider: Option<String>,
    pub model: Option<String>,
}

/// What is to be used in place of a provider's configuration.
#[derive(Debug, PartialEq, Eq, Default)]
pub struct RegistryEntryOverrides {
    pub api_key: Option<String>,
    pub base_url: Option<String>,
    pub api_key_env: Option<String>,
    pub catalog_provider: Option<String>,
}

/// What is to be used in place of the configuration of providers.
#[derive(Debug, PartialEq, Eq)]
pub struct ProviderOverrides {
    pub registry: Option<TextMap<RegistryEntryOverrides>>,
}

/// How calls are repeated, in place of the configuration.
#[derive(Debug, Clone, Copy, PartialEq, Eq, Structural, Default)]
pub struct ReliabilityOverrides {
    pub max_attempts: Option<u32>,
    pub backoff_base_ms: Option<u64>,
    pub backoff_max_ms: Option<u64>,
    pub jitter: Option<bool>,
}

/// How the catalog is treated, in place of the configuration.
#[derive(Debug, Clone, Copy, PartialEq, Eq, Structural, Default)]
pub struct CatalogOverrides {
    pub skip_catalog_validation: Option<bool>,
}

/// The profile that is used: the one that is given, if it is one.
pub fn selected_profile(profile: Option<&str>) -> (r: String)
    ensures
        r@ == if profile matches Some(name) && text::trimmed(name@).len() > 0 {
            text::trimmed(profile->0@)
        } else {
            "default"@
        },
{
    if let Some(name) = profile {
        let name = trim(name);
        if !name.as_str().is_empty() {
            return name;
        }
    }
    DEFAULT_PROFILE.to_owned()
}

/// The names of what stands at the top of a TOML document, or nothing where a text is
/// none.
pub uninterp spec fn toml_top_names(contents: Seq<char>) -> Option<Seq<Seq<char>>>;

/// `toml::from_str` into `toml::Value`, and the names in the table that comes out. What
/// comes out depends on the text alone.
#[verifier::external_body]
fn top_names(contents: &str) -> (r: Option<Vec<String>>)
    ensures
        r.deep_view() == toml_top_names(contents@),
{
    match toml::from_str::<toml::Value>(contents) {
        Ok(toml::Value::Table(table)) => Some(table.keys().cloned().collect()),
        _ => None,
    }
}

/// Names that tell a file with profiles from one without.
pub open spec fn name_profiles(names: Seq<Seq<char>>, selected: Seq<char>) -> bool {
    names.contains("default"@) || names.contains("global"@) || names.contains(selected)
}

/// Whether names at the top of a file tell that it has profiles: those that always do,
/// or the profile that is used.
pub fn names_are_profiles(names: &Vec<String>, selected: &str) -> (r: bool)
    ensures
        r == name_profiles(names.deep_view(), selected@),
{
    let ghost all = names.deep_view();
    let mut i: usize = 0;
    while i < names.len()
        invariant
            i <= names.len(),
            all == names.deep_view(),
            forall|k: int|
                0 <= k < i ==> #[trigger] all[k] != "default"@ && all[k] != "global"@ && all[k]
                    != selected@,
        decreases names.len() - i,
    {
        assert(all[i as int] == names@[i as int]@);
        if same_text(names[i].as_str(), "default") || same_text(names[i].as_str(), "global")
            || same_text(names[i].as_str(), selected) {
            proof {
                assert(all.contains(all[i as int]));
            }
            return true;
        }
        i += 1;
    }
    false
}

/// Whether a file of configuration has profiles. One that is no TOML has none.
pub fn file_uses_profiles(contents: &str, selected: &str) -> (r: bool)
    ensures
        r == match toml_top_names(contents@) {
            Some(names) => name_profiles(names, selected@),
            None => false,
        },
{
    match top_names(contents) {
        Some(names) => names_are_profiles(&names, selected),
        None => false,
    }
}

/// How a file of configuration is taken in.
#[derive(Debug, Clone, Copy, PartialEq, Eq, Structural)]
pub enum ConfigLayer {
    /// It is not there.
    Skip,
    /// Profile by profile.
    Nested,
    Plain,
}

/// How a file of configuration is taken in, given what could be read of it.
pub fn config_layer(is_file: bool, contents: Option<&str>, selected: &str) -> (r: ConfigLayer)
    ensures
        r == if !is_file {
            ConfigLayer::Skip
        } else {
            match contents {
                Some(contents) => match toml_top_names(contents@) {
                    Some(names) => if name_profiles(names, selected@) {
                        ConfigLayer::Nested
                    } else {
                        ConfigLayer::Plain
                    },
                    None => ConfigLayer::Plain,
                },
                None => ConfigLayer::Plain,
            }
        },
{
    if !is_file {
        return ConfigLayer::Skip;
    }
    match contents {
        Some(contents) => if file_uses_profiles(contents, selected) {
            ConfigLayer::Nested
        } else {
            ConfigLayer::Plain
        },
        None => ConfigLayer::Plain,
    }
}

/// What is wrong with a configuration.
#[derive(Debug, PartialEq, Eq)]
pub enum ConfigError {
    UnknownProvider { provider: String },
    UnknownModelForCatalogProvider { model: String, catalog_provider: String },
    EmptyModelForProvider { provider: String },
    UnknownAgentTool { agent: String, tool: String },
    SystemPromptFileNotFound { agent: String, file: String },
    Other { message: String },
}

/// What can go wrong when a guest starts.
#[derive(Debug, PartialEq, Eq)]
pub enum BootstrapError {
    Io { message: String },
    ConfigExtract { message: String },
    ConfigValidation(ConfigError),
    Memory { message: String },
    Provider(ProviderError),
    Bootstrap { message: String },
    UnsupportedProvider { provider: String },
}

impl ConfigError {
    /// How the error reads.
    pub open spec fn text(self) -> Seq<char> {
        match self {
            ConfigError::UnknownProvider { provider } => "unknown provider `"@ + provider@ + "`"@,
            ConfigError::UnknownModelForCatalogProvider { model, catalog_provider } =>
                "unknown model `"@ + model@ + "` for catalog provider `"@ + catalog_provider@
                + "`"@,
            ConfigError::EmptyModelForProvider { provider } => "no model is named for provider `"@
                + provider@ + "`"@,
            ConfigError::UnknownAgentTool { agent, tool } => "agent `"@ + agent@
                + "` names the unknown tool `"@ + tool@ + "`"@,
            ConfigError::SystemPromptFileNotFound { agent, file } => "agent `"@ + agent@
                + "` names the missing system prompt file `"@ + file@ + "`"@,
            ConfigError::Other { message } => message@,
        }
    }

    /// How the error reads.
    pub fn to_text(&self) -> (r: String)
        ensures
            r@ == self.text(),
    {
        match self {
            ConfigError::UnknownProvider { provider } => concat3(
                "unknown provider `",
                provider.as_str(),
                "`",
            ),
            ConfigError::UnknownModelForCatalogProvider { model, catalog_provider } => concat5(
                "unknown model `",
                model.as_str(),
                "` for catalog provider `",
                catalog_provider.as_str(),
                "`",
            ),
            ConfigError::EmptyModelForProvider { provider } => concat3(
                "no model is named for provider `",
                provider.as_str(),
                "`",
            ),
            ConfigError::UnknownAgentTool { agent, tool } => concat5(
                "agent `",
                agent.as_str(),
                "` names the unknown tool `",
                tool.as_str(),
                "`",
            ),
            ConfigError::SystemPromptFileNotFound { agent, file } => concat5(
                "agent `",
                agent.as_str(),
                "` names the missing system prompt file `",
                file.as_str(),
                "`",
            ),
            ConfigError::Other { message } => message.clone(),
        }
    }
}

impl BootstrapError {
    /// How the error reads. One that only passes on another reads as that one.
    pub open spec fn text(self) -> Seq<char> {
        match self {
            BootstrapError::Io { message } => "failed to resolve configuration path: "@ + message@,
            BootstrapError::ConfigExtract { message } => "failed to load configuration: "@
                + message@,
            BootstrapError::ConfigValidation(error) => error.text(),
            BootstrapError::Memory { message } => message@,
            BootstrapError::Provider(error) => model::provider_error_text(error.deep_view()),
            BootstrapError::Bootstrap { message } => message@,
            BootstrapError::UnsupportedProvider { provider } => "unsupported provider `"@
                + provider@ + "` in provider selection"@,
        }
    }

    /// How the error reads.
    pub fn to_text(&self) -> (r: String)
        ensures
            r@ == self.text(),
    {
        match self {
            BootstrapError::Io { message } => concat(
                "failed to resolve configuration path: ",
                message.as_str(),
            ),
            BootstrapError::ConfigExtract { message } => concat(
                "failed to load configuration: ",
                message.as_str(),
            ),
            BootstrapError::ConfigValidation(error) => error.to_text(),
            BootstrapError::Memory { message } => message.clone(),
            BootstrapError::Provider(error) => error.to_text(),
            BootstrapError::Bootstrap { message } => message.clone(),
            BootstrapError::UnsupportedProvider { provider } => concat3(
                "unsupported provider `",
                provider.as_str(),
                "` in provider selection",
            ),
        }
    }
}

/// Where the catalog of models comes from.
#[derive(Debug, Clone, Copy, PartialEq, Eq, Structural)]
pub enum CatalogSource {
    Cache,
    /// It has to be fetched.
    Fetch,
    Fetched,
    /// The one that comes with the program.
    Pinned,
}

/// Where the catalog of models comes from: a stored one goes before a fetched one, and
/// that before the one that comes with the program. `fetched` tells whether what was
/// fetched is a catalog, once it was tried.
pub fn resolve_model_catalog(cached: bool, fetched: Option<bool>) -> (r: CatalogSource)
    ensures
        r == if cached {
            CatalogSource::Cache
        } else {
            match fetched {
                None => CatalogSource::Fetch,
                Some(true) => CatalogSource::Fetched,
                Some(false) => CatalogSource::Pinned,
            }
        },
{
    if cached {
        CatalogSource::Cache
    } else {
        match fetched {
            None => CatalogSource::Fetch,
            Some(good) => if good {
                CatalogSource::Fetched
            } else {
                CatalogSource::Pinned
            },
        }
    }
}

/// What is reported where even the catalog that comes with the program cannot be had.
pub fn catalog_failure(provider: &ProviderId, error: &str) -> (r: BootstrapError)
    ensures
        r matches BootstrapError::Provider(cause) && cause.deep_view() == (
        ProviderErrorModel::RequestFailed {
            provider: provider.deep_view(),
            message: "failed to load model catalog: "@ + error@,
        }),
{
    BootstrapError::Provider(
        request_failed(provider, concat("failed to load model catalog: ", error)),
    )
}

/// What is to be done before a model can be used.
#[derive(Debug, PartialEq, Eq)]
pub struct ModelPlan {
    /// The model is not in the catalog, and is entered as one of which nothing is known.
    pub synthetic: bool,
    /// The model is on its way out, which is worth a warning.
    pub deprecated: bool,
    /// What the model can do is checked against the catalog.
    pub check_capabilities: bool,
}

/// Enters a model into the catalog if it is not there.
pub fn with_model(catalog: ModelCatalog, provider: &str, model: &str) -> (r: ModelCatalog)
    ensures
        forall|p: Seq<char>, m: Seq<char>| #[trigger]
            r.lists(p, m) <==> catalog.lists(p, m) || (p == provider@ && m == model@),
{
    let ghost before = catalog.entries@;
    let mut catalog = catalog;
    catalog.entries.push((ProviderId::new(provider), ModelId::new(model)));
    proof {
        let after = catalog.entries@;
        assert forall|p: Seq<char>, m: Seq<char>| #[trigger] catalog.lists(p, m) implies (exists|
            i: int,
        |
            #![trigger before[i]]
            0 <= i < before.len() && before[i].0.deep_view() == p && before[i].1.deep_view() == m)
            || (p == provider@ && m == model@) by {
            let i = choose|i: int|
                #![trigger catalog.entries@[i]]
                0 <= i < catalog.entries@.len() && catalog.entries@[i].0.deep_view() == p
                    && catalog.entries@[i].1.deep_view() == m;
            if i < before.len() {
                assert(before[i] == after[i]);
            }
        }
        assert forall|p: Seq<char>, m: Seq<char>|
            #![trigger catalog.lists(p, m)]
            (exists|i: int|
                #![trigger before[i]]
                0 <= i < before.len() && before[i].0.deep_view() == p && before[i].1.deep_view()
                    == m) || (p == provider@ && m == model@) implies catalog.lists(p, m) by {
            if p == provider@ && m == model@ {
                assert(after[before.len() as int].0.deep_view() == p);
            } else {
                let i = choose|i: int|
                    #![trigger before[i]]
                    0 <= i < before.len() && before[i].0.deep_view() == p
                        && before[i].1.deep_view() == m;
                assert(after[i] == before[i]);
            }
        }
    }
    catalog
}

/// How the configured model is used. A model that the catalog does not list is refused,
/// unless the check is switched off: then it is entered as one of which nothing is known.
pub fn plan_model(
    catalog: &ModelCatalog,
    overrides: &catalog::CapsOverrides,
    catalog_provider: &str,
    model: &str,
    skip_catalog_validation: bool,
) -> (r: Result<ModelPlan, BootstrapError>)
    requires
        overrides.well_formed(),
    ensures
        match r {
            Ok(plan) => {
                let listed = catalog.lists(catalog_provider@, model@);
                &&& listed || skip_catalog_validation
                &&& plan.synthetic == !listed
                &&& plan.deprecated == overrides.deprecates(catalog_provider@, model@)
                &&& plan.check_capabilities == (!skip_catalog_validation || listed)
            },
            Err(error) => {
                &&& !catalog.lists(catalog_provider@, model@)
                &&& !skip_catalog_validation
                &&& error matches BootstrapError::ConfigValidation(
                    ConfigError::UnknownModelForCatalogProvider { model: m, catalog_provider: p },
                ) && m@ == model@ && p@ == catalog_provider@
            },
        },
{
    let provider_id = ProviderId::new(catalog_provider);
    let model_id = ModelId::new(model);
    let listed = catalog.validate(&provider_id, &model_id).is_ok();
    if !listed && !skip_catalog_validation {
        return Err(
            BootstrapError::ConfigValidation(
                ConfigError::UnknownModelForCatalogProvider {
                    model: model.to_owned(),
                    catalog_provider: catalog_provider.to_owned(),
                },
            ),
        );
    }
    Ok(
        ModelPlan {
            synthetic: !listed,
            deprecated: overrides.is_deprecated(catalog_provider, model),
            check_capabilities: !skip_catalog_validation || listed,
        },
    )
}

/// How calls are repeated, as it is configured.
pub fn retry_policy(max_attempts: u32, backoff_base_ms: u64, backoff_max_ms: u64) -> (r: RetryPolicy)
    ensures
        r.max_attempts == max_attempts,
        retry::duration_nanos(r.backoff_base) == backoff_base_ms * 1_000_000,
        retry::duration_nanos(r.backoff_max) == backoff_max_ms * 1_000_000,
{
    RetryPolicy {
        max_attempts,
        backoff_base: Duration::from_millis(backoff_base_ms),
        backoff_max: Duration::from_millis(backoff_max_ms),
    }
}

/// Which model of which provider the agent talks to, and how.
#[derive(Debug, PartialEq, Eq)]
pub struct ModelConfig {
    pub provider: String,
    pub model: String,
    /// A model that the catalog does not list may be used.
    pub skip_catalog_validation: bool,
    pub max_attempts: u32,
    pub backoff_base_ms: u64,
    pub backoff_max_ms: u64,
}

/// The configured provider, with a catalog that lists the configured model.
#[derive(Debug, PartialEq, Eq)]
pub struct SelectedProvider {
    pub connection: ProviderConnection,
    pub catalog: ModelCatalog,
    pub plan: ModelPlan,
}

/// What a variable of the environment holds.
pub open spec fn variable(env: Map<Seq<char>, String>, name: Seq<char>) -> Option<Seq<char>> {
    if env.dom().contains(name) {
        Some(env[name]@)
    } else {
        None
    }
}

/// The key of a registered provider in an environment.
pub open spec fn entry_key(entry: ProviderRegistryEntry, env: Map<Seq<char>, String>) -> Option<
    Seq<char>,
> {
    let named = match entry.api_key_env {
        Some(name) => variable(env, name@),
        None => None,
    };
    endpoint::api_key_of(
        entry.api_key.deep_view(),
        if named is Some {
            named
        } else {
            variable(env, endpoint::default_key_variable(entry.provider_type))
        },
        variable(env, "API_KEY"@),
    )
}

/// Why the configured model cannot be used: its provider is not registered, the catalog
/// does not list it, or there is no key.
pub open spec fn selection_fails(
    config: ModelConfig,
    registry: Map<Seq<char>, ProviderRegistryEntry>,
    env: Map<Seq<char>, String>,
    catalog: ModelCatalog,
    error: BootstrapError,
) -> bool {
    if !registry.dom().contains(config.provider@) {
        error matches BootstrapError::ConfigValidation(ConfigError::UnknownProvider { provider })
            && provider@ == config.provider@
    } else {
        let entry = registry[config.provider@];
        if !catalog.lists(entry.catalog_name(), config.model@) && !config.skip_catalog_validation {
            error matches BootstrapError::ConfigValidation(
                ConfigError::UnknownModelForCatalogProvider { model, catalog_provider },
            ) && model@ == config.model@ && catalog_provider@ == entry.catalog_name()
        } else {
            &&& entry_key(entry, env) is None
            &&& error matches BootstrapError::Provider(cause) && cause.deep_view() == (
            ProviderErrorModel::MissingApiKey { provider: config.provider@ })
        }
    }
}

/// The configured model can be used, by that connection.
pub open spec fn selection_connects(
    config: ModelConfig,
    entry: ProviderRegistryEntry,
    env: Map<Seq<char>, String>,
    connection: ProviderConnection,
) -> bool {
    &&& connection.provider.deep_view() == config.provider@
    &&& connection.catalog_provider.deep_view() == entry.catalog_name()
    &&& connection.provider_type == entry.provider_type
    &&& entry_key(entry, env) == Some(connection.api_key@)
    &&& connection.base_url@ == endpoint::base_url_of(
        match entry.base_url {
            Some(url) => url@,
            None => ""@,
        },
        exchange::default_base_url(entry.provider_type),
    )
}

/// What is read of a variable.
fn read_variable(env: &TextMap<String>, name: &str) -> (r: Option<String>)
    requires
        env.well_formed(),
    ensures
        r.deep_view() == variable(env@, name@),
{
    match env.get(name) {
        Some(value) => Some(value.clone()),
        None => None,
    }
}

/// Connects to a registered provider, with the key that the entry or the environment
/// gives.
fn connect_entry(name: &str, entry: &ProviderRegistryEntry, env: &TextMap<String>) -> (r: Result<
    ProviderConnection,
    ProviderError,
>)
    requires
        env.well_formed(),
    ensures
        match r {
            Ok(connection) => {
                &&& connection.provider.deep_view() == name@
                &&& connection.catalog_provider.deep_view() == entry.catalog_name()
                &&& connection.provider_type == entry.provider_type
                &&& entry_key(*entry, env@) == Some(connection.api_key@)
                &&& connection.base_url@ == endpoint::base_url_of(
                    match entry.base_url {
                        Some(url) => url@,
                        None => ""@,
                    },
                    exchange::default_base_url(entry.provider_type),
                )
            },
            Err(error) => entry_key(*entry, env@) is None && error.deep_view() == (
            ProviderErrorModel::MissingApiKey { provider: name@ }),
        },
{
    let custom_env = match &entry.api_key_env {
        Some(variable) => read_variable(env, variable.as_str()),
        None => None,
    };
    let keys = KeySources {
        explicit: entry.api_key.clone(),
        custom_env,
        provider_env: read_variable(env, provider_key_variable(entry.provider_type)),
        fallback_env: read_variable(env, "API_KEY"),
    };
    let catalog_provider = ProviderId(entry.effective_catalog_provider());
    build_provider(
        ProviderId::new(name),
        catalog_provider,
        entry.provider_type,
        keys,
        entry.base_url.clone(),
    )
}

/// Makes the configured provider ready for the configured model. The provider has to be
/// registered, the catalog has to list the model unless that check is switched off, and
/// there has to be a key. Failed calls are repeated as it is configured.
pub fn build_reliable_provider(
    config: &ModelConfig,
    registry: &TextMap<ProviderRegistryEntry>,
    env: &TextMap<String>,
    catalog: ModelCatalog,
    overrides: &catalog::CapsOverrides,
) -> (r: Result<ReliableProvider<SelectedProvider>, BootstrapError>)
    requires
        registry.well_formed(),
        env.well_formed(),
        overrides.well_formed(),
    ensures
        match r {
            Ok(provider) => {
                let entry = registry@[config.provider@];
                let listed = catalog.lists(entry.catalog_name(), config.model@);
                let inner = provider.inner;
                &&& registry@.dom().contains(config.provider@)
                &&& listed || config.skip_catalog_validation
                &&& selection_connects(*config, entry, env@, inner.connection)
                &&& forall|p: Seq<char>, m: Seq<char>| #[trigger]
                    inner.catalog.lists(p, m) <==> catalog.lists(p, m) || (p
                        == entry.catalog_name() && m == config.model@)
                &&& inner.plan.synthetic == !listed
                &&& inner.plan.deprecated == overrides.deprecates(
                    entry.catalog_name(),
                    config.model@,
                )
                &&& inner.plan.check_capabilities == (!config.skip_catalog_validation || listed)
                &&& provider.well_formed()
                &&& exists|given: RetryPolicy| #[trigger]
                    given.becomes(provider.retry_policy) && given.max_attempts
                        == config.max_attempts && retry::duration_nanos(given.backoff_base)
                        == config.backoff_base_ms * 1_000_000 && retry::duration_nanos(
                        given.backoff_max,
                    ) == config.backoff_max_ms * 1_000_000
            },
            Err(error) => selection_fails(*config, registry@, env@, catalog, error),
        },
{
    let entry = match registry.get(config.provider.as_str()) {
        Some(entry) => entry,
        None => {
            return Err(
                BootstrapError::ConfigValidation(
                    ConfigError::UnknownProvider { provider: config.provider.clone() },
                ),
            );
        },
    };
    let catalog_provider = entry.effective_catalog_provider();
    let plan = match plan_model(
        &catalog,
        overrides,
        catalog_provider.as_str(),
        config.model.as_str(),
        config.skip_catalog_validation,
    ) {
        Ok(plan) => plan,
        Err(error) => {
            return Err(error);
        },
    };
    let connection = match connect_entry(config.provider.as_str(), entry, env) {
        Ok(connection) => connection,
        Err(error) => {
            return Err(BootstrapError::Provider(error));
        },
    };
    let catalog = with_model(catalog, catalog_provider.as_str(), config.model.as_str());
    let policy = retry_policy(
        config.max_attempts,
        config.backoff_base_ms,
        config.backoff_max_ms,
    );
    Ok(ReliableProvider::new(SelectedProvider { connection, catalog, plan }, policy))
}

/// A provider that is ready takes up every conversation that is meant for it and for the
/// configured model.
pub proof fn law_selected_model_is_taken_up(
    config: ModelConfig,
    entry: ProviderRegistryEntry,
    env: Map<Seq<char>, String>,
    listed: ModelCatalog,
    inner: SelectedProvider,
    context: ContextModel,
)
    requires
        selection_connects(config, entry, env, inner.connection),
        forall|p: Seq<char>, m: Seq<char>| #[trigger]
            inner.catalog.lists(p, m) <==> listed.lists(p, m) || (p == entry.catalog_name() && m
                == config.model@),
        context.provider == config.provider@,
        context.model == config.model@,
    ensures
        exchange::refusal(inner.connection, inner.catalog, context) is None,
{
    assert(inner.catalog.lists(entry.catalog_name(), config.model@));
}

/// The root of a guest's workspace: the one that its command line gives goes before the
/// one that its start-up data gives.
pub fn vm_workspace_root(
    cli_workspace_root: Option<String>,
    bootstrap: Option<&RunnerBootstrapEnvelope>,
) -> (r: Option<String>)
    ensures
        r.deep_view() == match cli_workspace_root {
            Some(root) => Some(root@),
            None => match bootstrap {
                Some(envelope) => Some(envelope.workspace_root@),
                None => None,
            },
        },
{
    match cli_workspace_root {
        Some(root) => Some(root),
        None => match bootstrap {
            Some(envelope) => Some(envelope.workspace_root.clone()),
            None => None,
        },
    }
}

/// The database that the agent remembers in: in the workspace, or else where the program
/// runs.
pub fn local_memory_path(workspace_root: Option<&str>, current_dir: &str) -> (r: String)
    ensures
        r@ == paths::joined_path(
            paths::joined_path(
                match workspace_root {
                    Some(root) => root@,
                    None => current_dir@,
                },
                ".oxydra"@,
            ),
            "memory.db"@,
        ),
{
    let root = match workspace_root {
        Some(root) => root,
        None => current_dir,
    };
    let internal = join_path(root, WORKSPACE_CONFIG_DIR);
    join_path(internal.as_str(), MEMORY_DB_FILENAME)
}

/// Whether tasks can be scheduled.
#[derive(Debug, PartialEq, Eq)]
pub enum SchedulerState {
    /// Nobody asked for it.
    Off,
    On,
    /// It was asked for and cannot be had, which is worth a warning.
    Unavailable(String),
}

/// Whether tasks can be scheduled: that takes memory, and a connection to it.
/// `connection` is what came of connecting, where there is memory.
pub fn scheduler_state(enabled: bool, connection: Option<Result<(), String>>) -> (r: SchedulerState)
    ensures
        match (enabled, connection) {
            (false, _) => r is Off,
            (true, Some(Ok(()))) => r is On,
            (true, Some(Err(error))) => r matches SchedulerState::Unavailable(warning) && warning@
                == "failed to create scheduler store; scheduler disabled: "@ + error@,
            (true, None) => r matches SchedulerState::Unavailable(warning) && warning@
                == "scheduler enabled but memory backend is not available; scheduler disabled"@,
        },
{
    if !enabled {
        return SchedulerState::Off;
    }
    match connection {
        Some(Ok(())) => SchedulerState::On,
        Some(Err(error)) => SchedulerState::Unavailable(
            concat("failed to create scheduler store; scheduler disabled: ", error.as_str()),
        ),
        None => SchedulerState::Unavailable(
            "scheduler enabled but memory backend is not available; scheduler disabled".to_owned(),
        ),
    }
}

/// An agent that work can be handed to.
#[derive(Debug, PartialEq, Eq)]
pub struct AgentDefinition {
    pub name: String,
    /// Its provider and its model, where it has its own.
    pub selection: Option<(String, String)>,
    pub tools: Option<Vec<String>>,
    pub system_prompt_file: Option<String>,
    /// Whether the file with its prompt is there.
    pub prompt_file_found: bool,
}

/// Where the file with an agent's prompt is looked for.
pub fn prompt_file_candidate(workspace_root: Option<&str>, prompt_file: &str) -> (r: String)
    ensures
        r@ == match workspace_root {
            Some(root) => paths::joined_path(root@, prompt_file@),
            None => prompt_file@,
        },
{
    match workspace_root {
        Some(root) => join_path(root, prompt_file),
        None => prompt_file.to_owned(),
    }
}

/// The first tool of an agent that is not known stands there.
pub open spec fn unknown_tool_at(tools: Seq<Seq<char>>, known: Seq<Seq<char>>, i: int) -> bool {
    &&& 0 <= i < tools.len()
    &&& !known.contains(tools[i])
    &&& forall|k: int| 0 <= k < i ==> known.contains(#[trigger] tools[k])
}

/// An agent is refused with that error.
pub open spec fn agent_fails(
    agent: AgentDefinition,
    providers: Seq<Seq<char>>,
    tools: Seq<Seq<char>>,
    error: BootstrapError,
) -> bool {
    if agent.selection matches Some((provider, _)) && !providers.contains(provider@) {
        error matches BootstrapError::UnsupportedProvider { provider: p } && p@
            == (agent.selection->0).0@
    } else if agent.selection matches Some((_, model)) && text::trimmed(model@).len() == 0 {
        error matches BootstrapError::ConfigValidation(
            ConfigError::EmptyModelForProvider { provider: p },
        ) && p@ == (agent.selection->0).0@
    } else if agent.tools matches Some(wanted) && exists|i: int|
        unknown_tool_at(wanted.deep_view(), tools, i) {
        error matches BootstrapError::ConfigValidation(
            ConfigError::UnknownAgentTool { agent: a, tool },
        ) && a@ == agent.name@ && exists|i: int| #[trigger]
            unknown_tool_at(agent.tools->0.deep_view(), tools, i) && tool@
                == agent.tools->0.deep_view()[i]
    } else if agent.system_prompt_file is Some && !agent.prompt_file_found {
        error matches BootstrapError::ConfigValidation(
            ConfigError::SystemPromptFileNotFound { agent: a, file },
        ) && a@ == agent.name@ && file@ == agent.system_prompt_file->0@
    } else {
        false
    }
}

/// An agent is accepted: its provider and its tools are known, its model has a name, and
/// its prompt is there.
pub open spec fn agent_is_valid(
    agent: AgentDefinition,
    providers: Seq<Seq<char>>,
    tools: Seq<Seq<char>>,
) -> bool {
    &&& agent.selection matches Some((provider, model)) ==> providers.contains(provider@)
        && text::trimmed(model@).len() > 0
    &&& agent.tools matches Some(wanted) ==> forall|i: int|
        0 <= i < wanted@.len() ==> tools.contains(#[trigger] wanted.deep_view()[i])
    &&& agent.system_prompt_file is Some ==> agent.prompt_file_found
}

fn holds_text(texts: &Vec<String>, wanted: &str) -> (r: bool)
    ensures
        r == texts.deep_view().contains(wanted@),
{
    let ghost all = texts.deep_view();
    let mut i: usize = 0;
    while i < texts.len()
        invariant
            i <= texts.len(),
            all == texts.deep_view(),
            forall|k: int| 0 <= k < i ==> #[trigger] all[k] != wanted@,
        decreases texts.len() - i,
    {
        assert(all[i as int] == texts@[i as int]@);
        if same_text(texts[i].as_str(), wanted) {
            assert(all.contains(all[i as int]));
            return true;
        }
        i += 1;
    }
    false
}

fn validate_agent(agent: &AgentDefinition, providers: &Vec<String>, tools: &Vec<String>) -> (r:
    Result<(), BootstrapError>)
    ensures
        match r {
            Ok(()) => agent_is_valid(*agent, providers.deep_view(), tools.deep_view()),
            Err(error) => agent_fails(*agent, providers.deep_view(), tools.deep_view(), error),
        },
{
    if let Some(selection) = &agent.selection {
        if !holds_text(providers, selection.0.as_str()) {
            return Err(BootstrapError::UnsupportedProvider { provider: selection.0.clone() });
        }
        let model = trim(selection.1.as_str());
        if model.as_str().is_empty() {
            return Err(
                BootstrapError::ConfigValidation(
                    ConfigError::EmptyModelForProvider { provider: selection.0.clone() },
                ),
            );
        }
    }
    if let Some(wanted) = &agent.tools {
        let ghost all = wanted.deep_view();
        let ghost known = tools.deep_view();
        let mut i: usize = 0;
        while i < wanted.len()
            invariant
                i <= wanted.len(),
                all == wanted.deep_view(),
                known == tools.deep_view(),
                agent.tools == Some(*wanted),
                agent.selection matches Some((provider, model)) ==> providers.deep_view().contains(
                    provider@,
                ) && text::trimmed(model@).len() > 0,
                forall|k: int| 0 <= k < i ==> known.contains(#[trigger] all[k]),
            decreases wanted.len() - i,
        {
            assert(all[i as int] == wanted@[i as int]@);
            if !holds_text(tools, wanted[i].as_str()) {
                assert(unknown_tool_at(all, known, i as int));
                return Err(
                    BootstrapError::ConfigValidation(
                        ConfigError::UnknownAgentTool {
                            agent: agent.name.clone(),
                            tool: wanted[i].clone(),
                        },
                    ),
                );
            }
            i += 1;
        }
    }
    if let Some(file) = &agent.system_prompt_file {
        if !agent.prompt_file_found {
            return Err(
                BootstrapError::ConfigValidation(
                    ConfigError::SystemPromptFileNotFound {
                        agent: agent.name.clone(),
                        file: file.clone(),
                    },
                ),
            );
        }
    }
    Ok(())
}

/// Checks the agents that work can be handed to. The first that is refused is reported.
pub fn validate_agents(
    agents: &Vec<AgentDefinition>,
    providers: &Vec<String>,
    tools: &Vec<String>,
) -> (r: Result<(), BootstrapError>)
    ensures
        match r {
            Ok(()) => forall|i: int|
                0 <= i < agents@.len() ==> agent_is_valid(
                    #[trigger] agents@[i],
                    providers.deep_view(),
                    tools.deep_view(),
                ),
            Err(error) => exists|i: int|
                {
                    &&& 0 <= i < agents@.len()
                    &&& agent_fails(
                        #[trigger] agents@[i],
                        providers.deep_view(),
                        tools.deep_view(),
                        error,
                    )
                    &&& forall|k: int|
                        0 <= k < i ==> agent_is_valid(
                            #[trigger] agents@[k],
                            providers.deep_view(),
                            tools.deep_view(),
                        )
                },
        },
{
    let mut i: usize = 0;
    while i < agents.len()
        invariant
            i <= agents.len(),
            forall|k: int|
                0 <= k < i ==> agent_is_valid(
                    #[trigger] agents@[k],
                    providers.deep_view(),
                    tools.deep_view(),
                ),
        decreases agents.len() - i,
    {
        match validate_agent(&agents[i], providers, tools) {
            Ok(()) => {},
            Err(error) => {
                return Err(error);
            },
        }
        i += 1;
    }
    Ok(())
}

/// No agent is both accepted and refused.
pub proof fn law_agents_are_judged_once(
    agent: AgentDefinition,
    providers: Seq<Seq<char>>,
    tools: Seq<Seq<char>>,
    error: BootstrapError,
)
    requires
        agent_is_valid(agent, providers, tools),
    ensures
        !agent_fails(agent, providers, tools, error),
{
    if let Some(wanted) = agent.tools {
        if exists|i: int| unknown_tool_at(wanted.deep_view(), tools, i) {
            let i = choose|i: int| unknown_tool_at(wanted.deep_view(), tools, i);
            assert(tools.contains(wanted.deep_view()[i]));
        }
    }
}

/// Configuration is looked for in the system's directory, the user's, where there is one,
/// and the workspace's; files count in this order, the later over the earlier, and the
/// user's addition to the prompt the other way round.
pub proof fn law_nearer_configuration_counts_more(
    current_dir: &str,
    home: Option<&str>,
    search: ConfigSearchPaths,
    files: Vec<String>,
    prompts: Vec<String>,
)
    requires
        call_ensures(ConfigSearchPaths::discover, (current_dir, home), search),
        call_ensures(ConfigSearchPaths::config_files, (&search,), files),
        call_ensures(ConfigSearchPaths::system_md_candidates, (&search,), prompts),
    ensures
        ({
            let n = files@.len() as int;
            let workspace = paths::joined_path(current_dir@, ".oxydra"@);
            &&& n == if home is Some {
                6int
            } else {
                4
            }
            &&& files@[0]@ == paths::joined_path("/etc/oxydra"@, "agent.toml"@)
            &&& files@[1]@ == paths::joined_path("/etc/oxydra"@, "providers.toml"@)
            &&& home matches Some(place) ==> files@[2]@ == paths::joined_path(
                paths::joined_path(place@, ".config/oxydra"@),
                "agent.toml"@,
            ) && files@[3]@ == paths::joined_path(
                paths::joined_path(place@, ".config/oxydra"@),
                "providers.toml"@,
            )
            &&& files@[n - 2]@ == paths::joined_path(workspace, "agent.toml"@)
            &&& files@[n - 1]@ == paths::joined_path(workspace, "providers.toml"@)
            &&& prompts@.len() == n / 2
            &&& prompts@[0]@ == paths::joined_path(workspace, "SYSTEM.md"@)
            &&& home matches Some(place) ==> prompts@[1]@ == paths::joined_path(
                paths::joined_path(place@, ".config/oxydra"@),
                "SYSTEM.md"@,
            )
            &&& prompts@[prompts@.len() - 1]@ == paths::joined_path("/etc/oxydra"@, "SYSTEM.md"@)
        }),
{
    text::lemma_list(files);
    text::lemma_list(prompts);
}

/// A file of configuration counts where it is there, profile by profile where one of the
/// names at its top is that of a profile.
pub proof fn law_profiles_are_told_by_their_names(
    is_file: bool,
    contents: &str,
    selected: &str,
    layer: ConfigLayer,
    names: Vec<String>,
    are_profiles: bool,
)
    requires
        call_ensures(config_layer, (is_file, Some(contents), selected), layer),
        toml_top_names(contents@) == Some(names.deep_view()),
        call_ensures(names_are_profiles, (&names, selected), are_profiles),
    ensures
        layer == ConfigLayer::Skip <==> !is_file,
        is_file ==> (layer == ConfigLayer::Nested <==> are_profiles),
        are_profiles <==> exists|i: int|
            #![trigger names@[i]]
            0 <= i < names@.len() && (names@[i]@ == "default"@ || names@[i]@ == "global"@
                || names@[i]@ == selected@),
{
    text::lemma_list(names);
    let list = names.deep_view();
    if are_profiles {
        let wanted = if list.contains("default"@) {
            "default"@
        } else if list.contains("global"@) {
            "global"@
        } else {
            selected@
        };
        assert(list.contains(wanted));
        let i = choose|i: int| 0 <= i < list.len() && list[i] == wanted;
        assert(names@[i]@ == wanted);
    }
    if exists|i: int|
        #![trigger names@[i]]
        0 <= i < names@.len() && (names@[i]@ == "default"@ || names@[i]@ == "global"@
            || names@[i]@ == selected@) {
        let i = choose|i: int|
            #![trigger names@[i]]
            0 <= i < names@.len() && (names@[i]@ == "default"@ || names@[i]@ == "global"@
                || names@[i]@ == selected@);
        assert(list[i] == names@[i]@);
        assert(list.contains(list[i]));
    }
}

/// The profile that is used is the one that is given, without the white space around it,
/// or else the default one.
pub proof fn law_given_profile_is_used(profile: Option<&str>, selected: String)
    requires
        call_ensures(selected_profile, (profile,), selected),
    ensures
        profile matches Some(name) ==> (text::trimmed(name@).len() > 0 ==> selected@
            == text::trimmed(name@)),
        !(profile matches Some(name) && text::trimmed(name@).len() > 0) ==> selected@
            == "default"@,
{
}

/// A catalog that is stored is used; otherwise one is fetched first, and where that brings
/// none the one that comes along is used.
pub proof fn law_catalog_comes_from_the_nearest_source(
    cached: bool,
    fetched: Option<bool>,
    source: CatalogSource,
)
    requires
        call_ensures(resolve_model_catalog, (cached, fetched), source),
    ensures
        source == CatalogSource::Cache <==> cached,
        source == CatalogSource::Fetch <==> !cached && fetched is None,
        source == CatalogSource::Fetched <==> !cached && fetched == Some(true),
        source == CatalogSource::Pinned <==> !cached && fetched == Some(false),
{
}

/// A model that the catalog lists is used and judged by it; one that it does not list is
/// refused by name, unless the check is switched off, and is then one of which nothing is
/// known.
pub proof fn law_unlisted_models_are_refused(
    catalog: ModelCatalog,
    overrides: catalog::CapsOverrides,
    provider: &str,
    model: &str,
    skip: bool,
    r: Result<ModelPlan, BootstrapError>,
)
    requires
        overrides.well_formed(),
        call_ensures(plan_model, (&catalog, &overrides, provider, model, skip), r),
    ensures
        r is Ok <==> catalog.lists(provider@, model@) || skip,
        r matches Ok(plan) ==> {
            &&& plan.synthetic == !catalog.lists(provider@, model@)
            &&& catalog.lists(provider@, model@) ==> plan.check_capabilities
            &&& plan.synthetic ==> !plan.check_capabilities
        },
        r matches Err(error) ==> (error matches BootstrapError::ConfigValidation(
            ConfigError::UnknownModelForCatalogProvider { model: told, catalog_provider },
        ) && told@ == model@ && catalog_provider@ == provider@),
{
}

/// The configured provider is connected to as it is registered: under its name, for its
/// kind, with its key, and with a catalog that lists the configured model besides all that
/// it listed. One that is not registered is refused by name.
pub proof fn law_registered_provider_is_connected_to(
    config: ModelConfig,
    registry: TextMap<ProviderRegistryEntry>,
    env: TextMap<String>,
    catalog: ModelCatalog,
    overrides: catalog::CapsOverrides,
    r: Result<ReliableProvider<SelectedProvider>, BootstrapError>,
    provider: Seq<char>,
    model: Seq<char>,
)
    requires
        registry.well_formed(),
        env.well_formed(),
        overrides.well_formed(),
        call_ensures(
            build_reliable_provider,
            (&config, &registry, &env, catalog, &overrides),
            r,
        ),
    ensures
        !registry@.dom().contains(config.provider@) ==> (r matches Err(
            BootstrapError::ConfigValidation(ConfigError::UnknownProvider { provider: named }),
        ) && named@ == config.provider@),
        r matches Ok(ready) ==> {
            let entry = registry@[config.provider@];
            &&& registry@.dom().contains(config.provider@)
            &&& ready.inner.connection.provider.0@ == config.provider@
            &&& ready.inner.connection.provider_type == entry.provider_type
            &&& entry.api_key matches Some(key) ==> (text::trimmed(key@).len() > 0
                ==> ready.inner.connection.api_key@ == text::trimmed(key@))
            &&& entry.catalog_provider matches Some(name)
                ==> ready.inner.connection.catalog_provider.0@ == name@
            &&& ready.inner.catalog.lists(entry.catalog_name(), config.model@)
            &&& catalog.lists(provider, model) ==> ready.inner.catalog.lists(provider, model)
            &&& config.max_attempts >= 1 ==> ready.retry_policy.max_attempts
                == config.max_attempts
        },
{
}

/// The key of a provider is the one of its entry, or else what the variable holds that the
/// entry names, or else what that of its kind holds, or else what the shared one holds.
pub proof fn law_key_is_looked_up_in_order(
    config: ModelConfig,
    registry: TextMap<ProviderRegistryEntry>,
    env: TextMap<String>,
    catalog: ModelCatalog,
    overrides: catalog::CapsOverrides,
    ready: ReliableProvider<SelectedProvider>,
    variable_name: &'static str,
)
    requires
        registry.well_formed(),
        env.well_formed(),
        overrides.well_formed(),
        call_ensures(
            build_reliable_provider,
            (&config, &registry, &env, catalog, &overrides),
            Ok(ready),
        ),
        registry@[config.provider@].api_key is None,
        call_ensures(
            provider_key_variable,
            (registry@[config.provider@].provider_type,),
            variable_name,
        ),
    ensures
        ({
            let entry = registry@[config.provider@];
            let key = ready.inner.connection.api_key@;
            let holds = |name: Seq<char>|
                env@.dom().contains(name) && text::trimmed(env@[name]@).len() > 0;
            &&& entry.api_key_env matches Some(own) ==> (holds(own@) ==> key == text::trimmed(
                env@[own@]@,
            ))
            &&& entry.api_key_env is None && holds(variable_name@) ==> key == text::trimmed(
                env@[variable_name@]@,
            )
            &&& entry.api_key_env is None && !holds(variable_name@) ==> holds("API_KEY"@) && key
                == text::trimmed(env@["API_KEY"@]@)
        }),
{
}

/// The root on a guest's command line goes before the one of its start-up data, and the
/// agent remembers in its workspace, or else where the program runs.
pub proof fn law_command_line_goes_before_start_up_data(
    given: Option<String>,
    envelope: RunnerBootstrapEnvelope,
    root: Option<String>,
    workspace: Option<&str>,
    current_dir: &str,
    database: String,
)
    requires
        call_ensures(vm_workspace_root, (given, Some(&envelope)), root),
        call_ensures(local_memory_path, (workspace, current_dir), database),
    ensures
        root is Some,
        given matches Some(path) ==> root->0@ == path@,
        given is None ==> root->0@ == envelope.workspace_root@,
        workspace matches Some(path) ==> database@ == paths::joined_path(
            paths::joined_path(path@, ".oxydra"@),
            "memory.db"@,
        ),
        workspace is None ==> database@ == paths::joined_path(
            paths::joined_path(current_dir@, ".oxydra"@),
            "memory.db"@,
        ),
{
}

/// Tasks can be scheduled where that is switched on and memory is connected; what is
/// switched off needs no warning.
pub proof fn law_scheduling_needs_memory(
    enabled: bool,
    connection: Option<Result<(), String>>,
    state: SchedulerState,
)
    requires
        call_ensures(scheduler_state, (enabled, connection), state),
    ensures
        state is On <==> enabled && (connection matches Some(Ok(()))),
        state is Off <==> !enabled,
{
}

/// An agent that is accepted names a registered provider with a model, known tools, and a
/// prompt that is there.
pub proof fn law_accepted_agent_names_what_is_there(
    agent: AgentDefinition,
    providers: Vec<String>,
    tools: Vec<String>,
    t: int,
)
    requires
        agent_is_valid(agent, providers.deep_view(), tools.deep_view()),
    ensures
        agent.selection matches Some((provider, model)) ==> providers.deep_view().contains(
            provider@,
        ) && text::trimmed(model@).len() > 0,
        agent.tools matches Some(wanted) ==> (0 <= t < wanted@.len()
            ==> tools.deep_view().contains(wanted@[t]@)),
        agent.system_prompt_file is Some ==> agent.prompt_file_found,
{
    if let Some(wanted) = agent.tools {
        if 0 <= t < wanted@.len() {
            assert(wanted.deep_view()[t] == wanted@[t]@);
        }
    }
}

/// The text of an error of a configuration names what the error holds.
pub proof fn law_errors_of_a_configuration_say_why(error: ConfigError, r: String)
    requires
        call_ensures(ConfigError::to_text, (&error,), r),
    ensures
        match error {
            ConfigError::UnknownProvider { provider } => {
                &&& text::stands_in(r@, provider@)
            },
            ConfigError::UnknownModelForCatalogProvider { model, catalog_provider } => {
                &&& text::stands_in(r@, model@)
                &&& text::stands_in(r@, catalog_provider@)
            },
            ConfigError::EmptyModelForProvider { provider } => {
                &&& text::stands_in(r@, provider@)
            },
            ConfigError::UnknownAgentTool { agent, tool } => {
                &&& text::stands_in(r@, agent@)
                &&& text::stands_in(r@, tool@)
            },
            ConfigError::SystemPromptFileNotFound { agent, file } => {
                &&& text::stands_in(r@, agent@)
                &&& text::stands_in(r@, file@)
            },
            ConfigError::Other { message } => {
                &&& text::stands_in(r@, message@)
            },
        },
{
    text::lemma_parts_stand_in();
}

/// The text of an error of a start says what the error holds; one that passes on another
/// reads as that one.
pub proof fn law_errors_of_a_start_say_why(error: BootstrapError, r: String)
    requires
        call_ensures(BootstrapError::to_text, (&error,), r),
    ensures
        match error {
            BootstrapError::Io { message } => {
                &&& text::stands_in(r@, message@)
            },
            BootstrapError::ConfigExtract { message } => {
                &&& text::stands_in(r@, message@)
            },
            BootstrapError::ConfigValidation(inner) => r@ == inner.text(),
            BootstrapError::Memory { message } => {
                &&& text::stands_in(r@, message@)
            },
            BootstrapError::Provider(inner) => r@ == model::provider_error_text(inner.deep_view()),
            BootstrapError::Bootstrap { message } => {
                &&& text::stands_in(r@, message@)
            },
            BootstrapError::UnsupportedProvider { provider } => {
                &&& text::stands_in(r@, provider@)
            },
        },
{
    text::lemma_parts_stand_in();
}

/// A model that is added to a catalog is listed for its provider, what was listed stays, and
/// nothing else comes.
pub proof fn law_added_model_is_listed(
    catalog: ModelCatalog,
    provider: &str,
    model: &str,
    r: ModelCatalog,
    p: Seq<char>,
    m: Seq<char>,
)
    requires
        call_ensures(with_model, (catalog, provider, model), r),
    ensures
        r.lists(provider@, model@),
        catalog.lists(p, m) ==> r.lists(p, m),
        p != provider@ || m != model@ ==> (r.lists(p, m) <==> catalog.lists(p, m)),
{
}

/// A file of a prompt is looked for in the workspace, where there is one, and a policy of
/// retries waits as many milliseconds as are configured.
pub proof fn law_prompt_files_stand_in_the_workspace(
    root: &str,
    file: &str,
    inside: String,
    outside: String,
    attempts: u32,
    base: u64,
    max: u64,
    policy: RetryPolicy,
)
    requires
        call_ensures(prompt_file_candidate, (Some(root), file), inside),
        call_ensures(prompt_file_candidate, (None, file), outside),
        call_ensures(retry_policy, (attempts, base, max), policy),
    ensures
        outside@ == file@,
        file@.len() > 0 && file@[0] == '/' ==> inside@ == file@,
        root@.len() > 0 && root@.last() != '/' && !(file@.len() > 0 && file@[0] == '/') ==> inside@
            == root@ + "/"@ + file@,
        policy.max_attempts == attempts,
        retry::duration_nanos(policy.backoff_base) == base * 1_000_000,
        retry::duration_nanos(policy.backoff_max) == max * 1_000_000,
{
}

} // verus!
