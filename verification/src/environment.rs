//! What a guest's tools and its model are told: variables that configure tools, names
//! for paths of the host, and the prompt.

use crate::endpoint;
use crate::endpoint::{provider_key_variable, ProviderType};
use crate::paths;
use crate::paths::join_path;
use crate::sandbox::SandboxTier;
use crate::startup::RunnerBootstrapEnvelope;
use crate::text;
use crate::text::{concat, concat3, decimal_text, join, same_text, to_chars, trim};
use crate::text_map;
use crate::text_map::TextMap;
use vstd::prelude::*;

verus! {

/// The letter in lower case, if it is an ASCII letter.
pub open spec fn lower(c: char) -> char {
    if 'A' <= c <= 'Z' {
        ((c as int) + 32) as char
    } else {
        c
    }
}

/// The letter in upper case, if it is an ASCII letter.
pub open spec fn upper(c: char) -> char {
    if 'a' <= c <= 'z' {
        ((c as int) - 32) as char
    } else {
        c
    }
}

pub open spec fn lower_case(s: Seq<char>) -> Seq<char> {
    s.map_values(|c: char| lower(c))
}

pub open spec fn upper_case(s: Seq<char>) -> Seq<char> {
    s.map_values(|c: char| upper(c))
}

/// A text in lower case, as far as its letters are ASCII.
fn to_lower_case(s: &str) -> (r: String)
    ensures
        r@ == lower_case(s@),
{
    let chars = to_chars(s);
    let mut out = String::new();
    let mut i: usize = 0;
    while i < chars.len()
        invariant
            i <= chars.len(),
            chars@ == s@,
            out@ == lower_case(s@).take(i as int),
        decreases chars.len() - i,
    {
        let c = chars[i];
        let ghost before = out@;
        if 'A' <= c && c <= 'Z' {
            out.push((c as u8 + 32) as char);
        } else {
            out.push(c);
        }
        proof {
            assert(lower_case(s@).take(i as int + 1) =~= before.push(lower(c)));
        }
        i += 1;
    }
    proof {
        assert(lower_case(s@).take(i as int) =~= lower_case(s@));
    }
    out
}

/// A text in upper case, as far as its letters are ASCII.
fn to_upper_case(s: &str) -> (r: String)
    ensures
        r@ == upper_case(s@),
{
    let chars = to_chars(s);
    let mut out = String::new();
    let mut i: usize = 0;
    while i < chars.len()
        invariant
            i <= chars.len(),
            chars@ == s@,
            out@ == upper_case(s@).take(i as int),
        decreases chars.len() - i,
    {
        let c = chars[i];
        let ghost before = out@;
        if 'a' <= c && c <= 'z' {
            out.push((c as u8 - 32) as char);
        } else {
            out.push(c);
        }
        proof {
            assert(upper_case(s@).take(i as int + 1) =~= before.push(upper(c)));
        }
        i += 1;
    }
    proof {
        assert(upper_case(s@).take(i as int) =~= upper_case(s@));
    }
    out
}

/// How the web is searched.
#[derive(Debug, PartialEq, Eq, Default)]
pub struct WebSearchConfig {
    pub provider: Option<String>,
    pub base_url: Option<String>,
    pub base_urls: Option<String>,
    /// The variable that holds the key.
    pub api_key_env: Option<String>,
    /// The variable that holds the engine's identity.
    pub engine_id_env: Option<String>,
    pub query_params: Option<String>,
    pub engines: Option<String>,
    pub categories: Option<String>,
    pub safesearch: Option<u8>,
    /// The hosts that web tools may reach.
    pub egress_allowlist: Option<Vec<String>>,
}

/// An environment with a variable set, unless it is already, or the value is empty.
pub open spec fn set_if_absent(
    env: Map<Seq<char>, Seq<char>>,
    key: Seq<char>,
    value: Seq<char>,
) -> Map<Seq<char>, Seq<char>> {
    if value.len() > 0 && !env.dom().contains(key) {
        env.insert(key, value)
    } else {
        env
    }
}

/// An environment with a variable set, if there is a value for it.
pub open spec fn set_some(
    env: Map<Seq<char>, Seq<char>>,
    key: Seq<char>,
    value: Option<Seq<char>>,
) -> Map<Seq<char>, Seq<char>> {
    match value {
        Some(value) => set_if_absent(env, key, value),
        None => env,
    }
}

/// What the variable of that name holds.
pub open spec fn looked_up(env: Map<Seq<char>, Seq<char>>, name: Option<Seq<char>>) -> Option<
    Seq<char>,
> {
    match name {
        Some(name) => if env.dom().contains(name) {
            Some(env[name])
        } else {
            None
        },
        None => None,
    }
}

/// The search provider that is configured, in lower case, or nothing.
pub open spec fn search_provider(config: WebSearchConfig) -> Seq<char> {
    match config.provider {
        Some(name) => lower_case(text::trimmed(name@)),
        None => lower_case(text::trimmed(Seq::empty())),
    }
}

/// The environment with what depends on the search provider.
pub open spec fn with_provider(config: WebSearchConfig, env: Map<Seq<char>, Seq<char>>) -> Map<
    Seq<char>,
    Seq<char>,
> {
    let provider = search_provider(config);
    if provider.len() == 0 {
        env
    } else {
        let prefix = "OXYDRA_WEB_SEARCH_"@ + upper_case(provider);
        let named = set_if_absent(env, "OXYDRA_WEB_SEARCH_PROVIDER"@, provider);
        let based = set_some(named, prefix + "_BASE_URL"@, config.base_url.deep_view());
        let listed = set_some(based, prefix + "_BASE_URLS"@, config.base_urls.deep_view());
        if provider == "google"@ {
            let keyed = set_some(
                listed,
                "OXYDRA_WEB_SEARCH_GOOGLE_API_KEY"@,
                looked_up(listed, config.api_key_env.deep_view()),
            );
            set_some(
                keyed,
                "OXYDRA_WEB_SEARCH_GOOGLE_CX"@,
                looked_up(keyed, config.engine_id_env.deep_view()),
            )
        } else {
            listed
        }
    }
}

/// The text of an optional number.
pub open spec fn number_text(value: Option<u8>) -> Option<Seq<char>> {
    match value {
        Some(n) => Some(text::decimal(n as nat)),
        None => None,
    }
}

/// The hosts that web tools may reach, as one text.
pub open spec fn allowlist_text(hosts: Option<Vec<String>>) -> Option<Seq<char>> {
    match hosts {
        Some(hosts) => if hosts@.len() > 0 {
            Some(text::joined(hosts.deep_view(), ","@))
        } else {
            None
        },
        None => None,
    }
}

/// The environment with what the configuration of web tools gives. What is already set
/// stands.
pub open spec fn with_web_search(config: WebSearchConfig, env: Map<Seq<char>, Seq<char>>) -> Map<
    Seq<char>,
    Seq<char>,
> {
    let provided = with_provider(config, env);
    let queried = set_some(
        provided,
        "OXYDRA_WEB_SEARCH_QUERY_PARAMS"@,
        config.query_params.deep_view(),
    );
    let engines = set_some(
        queried,
        "OXYDRA_WEB_SEARCH_SEARXNG_ENGINES"@,
        config.engines.deep_view(),
    );
    let categories = set_some(
        engines,
        "OXYDRA_WEB_SEARCH_SEARXNG_CATEGORIES"@,
        config.categories.deep_view(),
    );
    let safe = set_some(
        categories,
        "OXYDRA_WEB_SEARCH_SEARXNG_SAFESEARCH"@,
        number_text(config.safesearch),
    );
    set_some(safe, "OXYDRA_WEB_EGRESS_ALLOWLIST"@, allowlist_text(config.egress_allowlist))
}

/// What an environment holds.
pub open spec fn env_model(env: TextMap<String>) -> Map<Seq<char>, Seq<char>> {
    env@.map_values(|value: String| value@)
}

fn set_variable(env: &mut TextMap<String>, key: &str, value: &Option<String>)
    requires
        old(env).well_formed(),
    ensures
        final(env).well_formed(),
        env_model(*final(env)) == set_some(env_model(*old(env)), key@, value.deep_view()),
{
    if let Some(value) = value {
        if !value.as_str().is_empty() && !env.contains_key(key) {
            env.insert(key.to_owned(), value.clone());
            proof {
                assert(env_model(*env) =~= set_some(
                    env_model(*old(env)),
                    key@,
                    Some(value@),
                ));
            }
        }
    }
}

fn look_up(env: &TextMap<String>, name: &Option<String>) -> (r: Option<String>)
    requires
        env.well_formed(),
    ensures
        r.deep_view() == looked_up(env_model(*env), name.deep_view()),
{
    match name {
        Some(name) => match env.get(name.as_str()) {
            Some(value) => Some(value.clone()),
            None => None,
        },
        None => None,
    }
}

/// Sets what the configuration of web tools gives in an environment. Variables that are
/// already set stand, for they go before the configuration.
pub fn apply_web_search_config(config: &WebSearchConfig, env: &mut TextMap<String>)
    requires
        old(env).well_formed(),
    ensures
        final(env).well_formed(),
        env_model(*final(env)) == with_web_search(*config, env_model(*old(env))),
{
    let given = match &config.provider {
        Some(name) => name.clone(),
        None => String::new(),
    };
    proof {
        if config.provider is None {
            assert(given@ =~= Seq::empty());
        }
    }
    let provider = to_lower_case(trim(given.as_str()).as_str());
    if !provider.as_str().is_empty() {
        let prefix = concat("OXYDRA_WEB_SEARCH_", to_upper_case(provider.as_str()).as_str());
        let google = same_text(provider.as_str(), "google");
        set_variable(env, "OXYDRA_WEB_SEARCH_PROVIDER", &Some(provider));
        set_variable(env, concat(prefix.as_str(), "_BASE_URL").as_str(), &config.base_url);
        set_variable(env, concat(prefix.as_str(), "_BASE_URLS").as_str(), &config.base_urls);
        if google {
            let api_key = look_up(env, &config.api_key_env);
            set_variable(env, "OXYDRA_WEB_SEARCH_GOOGLE_API_KEY", &api_key);
            let engine_id = look_up(env, &config.engine_id_env);
            set_variable(env, "OXYDRA_WEB_SEARCH_GOOGLE_CX", &engine_id);
        }
    }
    set_variable(env, "OXYDRA_WEB_SEARCH_QUERY_PARAMS", &config.query_params);
    set_variable(env, "OXYDRA_WEB_SEARCH_SEARXNG_ENGINES", &config.engines);
    set_variable(env, "OXYDRA_WEB_SEARCH_SEARXNG_CATEGORIES", &config.categories);
    let safesearch = match config.safesearch {
        Some(n) => Some(decimal_text(n as u64)),
        None => None,
    };
    set_variable(env, "OXYDRA_WEB_SEARCH_SEARXNG_SAFESEARCH", &safesearch);
    let allowlist = match &config.egress_allowlist {
        Some(hosts) => if hosts.len() > 0 {
            Some(join(hosts, ","))
        } else {
            None
        },
        None => None,
    };
    set_variable(env, "OXYDRA_WEB_EGRESS_ALLOWLIST", &allowlist);
}

/// What is set in an environment stands, whatever the configuration says.
pub proof fn law_environment_goes_before_configuration(
    config: WebSearchConfig,
    env: Map<Seq<char>, Seq<char>>,
    key: Seq<char>,
)
    requires
        env.dom().contains(key),
    ensures
        with_web_search(config, env).dom().contains(key),
        with_web_search(config, env)[key] == env[key],
{
}

/// A provider that is registered.
#[derive(Debug, PartialEq, Eq)]
pub struct RegistryEntry {
    pub provider_type: ProviderType,
    /// The variable that holds its key, where it has its own.
    pub api_key_env: Option<String>,
}

/// The variables that the configuration needs: that of each provider, its own and the
/// usual one of its kind, and those of the web search.
pub open spec fn is_needed(
    name: Seq<char>,
    registry: Seq<RegistryEntry>,
    web_search: Option<WebSearchConfig>,
) -> bool {
    ||| exists|i: int|
        0 <= i < registry.len() && ((#[trigger] registry[i]).api_key_env.deep_view() == Some(name)
            || endpoint::default_key_variable(registry[i].provider_type) == name)
    ||| web_search matches Some(config) && (config.api_key_env.deep_view() == Some(name)
        || config.engine_id_env.deep_view() == Some(name))
}

/// Texts of the form `KEY=VALUE`, one for each variable that is needed and set, in the
/// order of their names.
pub open spec fn lists_needed(
    texts: Seq<Seq<char>>,
    registry: Seq<RegistryEntry>,
    web_search: Option<WebSearchConfig>,
    env: Map<Seq<char>, Seq<char>>,
) -> bool {
    exists|names: Seq<Seq<char>>|
        {
            &&& #[trigger] text_map::is_sorted(names)
            &&& names.len() == texts.len()
            &&& forall|name: Seq<char>| #[trigger]
                names.contains(name) <==> is_needed(name, registry, web_search) && name.len() > 0
                    && env.dom().contains(name) && env[name].len() > 0
            &&& forall|i: int|
                0 <= i < texts.len() ==> #[trigger] texts[i] == names[i] + "="@ + env[names[i]]
        }
}

/// Notes a variable and what it holds, if it holds anything.
fn note_variable(
    found: &mut TextMap<String>,
    name: &str,
    env: &TextMap<String>,
    Ghost(needed): Ghost<Set<Seq<char>>>,
)
    requires
        env.well_formed(),
        old(found).well_formed(),
        notes(*old(found), env_model(*env), needed),
    ensures
        final(found).well_formed(),
        notes(*final(found), env_model(*env), needed.insert(name@)),
{
    if name.is_empty() {
        return ;
    }
    match env.get(name) {
        Some(value) => {
            if !value.as_str().is_empty() {
                found.insert(name.to_owned(), value.clone());
            }
        },
        None => {},
    }
}

/// Exactly the needed variables that hold something are noted, with what they hold.
pub open spec fn notes(
    found: TextMap<String>,
    env: Map<Seq<char>, Seq<char>>,
    needed: Set<Seq<char>>,
) -> bool {
    forall|name: Seq<char>|
        #![trigger found@.dom().contains(name)]
        (found@.dom().contains(name) <==> needed.contains(name) && name.len() > 0
            && env.dom().contains(name) && env[name].len() > 0) && (found@.dom().contains(name)
            ==> found@[name]@ == env[name])
}

/// The variables that the first providers need.
pub open spec fn registry_names(registry: Seq<RegistryEntry>, n: int) -> Set<Seq<char>> {
    Set::new(
        |name: Seq<char>|
            exists|i: int|
                0 <= i < n && ((#[trigger] registry[i]).api_key_env.deep_view() == Some(name)
                    || endpoint::default_key_variable(registry[i].provider_type) == name),
    )
}

/// The variables that the configuration needs, and what they hold, each as `KEY=VALUE`,
/// in the order of their names. Those that hold nothing are left out.
pub fn collect_config_env_vars(
    registry: &Vec<RegistryEntry>,
    web_search: &Option<WebSearchConfig>,
    env: &TextMap<String>,
) -> (r: Vec<String>)
    requires
        env.well_formed(),
    ensures
        lists_needed(r.deep_view(), registry@, *web_search, env_model(*env)),
{
    let mut found: TextMap<String> = TextMap::new();
    let ghost mut needed: Set<Seq<char>> = Set::empty();
    proof {
        assert(notes(found, env_model(*env), needed));
        assert(needed =~= registry_names(registry@, 0));
    }
    let mut i: usize = 0;
    while i < registry.len()
        invariant
            i <= registry.len(),
            env.well_formed(),
            found.well_formed(),
            notes(found, env_model(*env), needed),
            needed == registry_names(registry@, i as int),
        decreases registry.len() - i,
    {
        let ghost before = needed;
        let usual = provider_key_variable(registry[i].provider_type);
        note_variable(&mut found, usual, env, Ghost(needed));
        proof {
            needed = needed.insert(usual@);
        }
        if let Some(own) = &registry[i].api_key_env {
            note_variable(&mut found, own.as_str(), env, Ghost(needed));
            proof {
                needed = needed.insert(own@);
            }
        }
        proof {
            let after = registry_names(registry@, i as int + 1);
            assert forall|name: Seq<char>| needed.contains(name) <==> after.contains(name) by {
                if before.contains(name) {
                    let k = choose|k: int|
                        0 <= k < i && ((#[trigger] registry@[k]).api_key_env.deep_view() == Some(
                            name,
                        ) || endpoint::default_key_variable(registry@[k].provider_type) == name);
                    assert(registry@[k].api_key_env.deep_view() == Some(name)
                        || endpoint::default_key_variable(registry@[k].provider_type) == name);
                }
                if needed.contains(name) && !before.contains(name) {
                    assert(registry@[i as int].api_key_env.deep_view() == Some(name)
                        || endpoint::default_key_variable(registry@[i as int].provider_type)
                        == name);
                }
                if after.contains(name) {
                    let k = choose|k: int|
                        0 <= k < i + 1 && ((#[trigger] registry@[k]).api_key_env.deep_view()
                            == Some(name) || endpoint::default_key_variable(
                            registry@[k].provider_type,
                        ) == name);
                    if k < i {
                        assert(before.contains(name));
                    }
                }
            }
            assert(needed =~= after);
        }
        i += 1;
    }
    if let Some(config) = web_search {
        if let Some(name) = &config.api_key_env {
            note_variable(&mut found, name.as_str(), env, Ghost(needed));
            proof {
                needed = needed.insert(name@);
            }
        }
        if let Some(name) = &config.engine_id_env {
            note_variable(&mut found, name.as_str(), env, Ghost(needed));
            proof {
                needed = needed.insert(name@);
            }
        }
    }
    let ghost keys = text_map::keys_of(found.entries@);
    let mut out: Vec<String> = Vec::new();
    let mut k: usize = 0;
    proof {
        assert forall|name: Seq<char>| needed.contains(name) <==> is_needed(
            name,
            registry@,
            *web_search,
        ) by {
            let base = registry_names(registry@, registry@.len() as int);
            assert(base.contains(name) <==> exists|i: int|
                0 <= i < registry@.len() && ((#[trigger] registry@[i]).api_key_env.deep_view()
                    == Some(name) || endpoint::default_key_variable(registry@[i].provider_type)
                    == name));
        }
        assert forall|name: Seq<char>| #[trigger] keys.contains(name) <==> is_needed(
            name,
            registry@,
            *web_search,
        ) && name.len() > 0 && env_model(*env).dom().contains(name) && env_model(*env)[name].len()
            > 0 by {
            assert(found@.dom().contains(name) == keys.contains(name));
        }
    }
    while k < found.entries.len()
        invariant
            k <= found.entries.len(),
            out.len() == k,
            found.well_formed(),
            keys == text_map::keys_of(found.entries@),
            notes(found, env_model(*env), needed),
            forall|j: int|
                0 <= j < k ==> (#[trigger] out@[j])@ == keys[j] + "="@ + env_model(*env)[keys[j]],
        decreases found.entries.len() - k,
    {
        proof {
            text_map::lemma_at(found.entries@, k as int);
            assert(keys[k as int] == found.entries@[k as int].0@);
            assert(found@.dom().contains(keys[k as int]));
            assert(found@[keys[k as int]] == found.entries@[k as int].1);
        }
        out.push(concat3(found.entries[k].0.as_str(), "=", found.entries[k].1.as_str()));
        k += 1;
    }
    proof {
        let texts = out.deep_view();
        assert forall|j: int| 0 <= j < texts.len() implies #[trigger] texts[j] == keys[j] + "="@
            + env_model(*env)[keys[j]] by {
            assert(out@[j]@ == keys[j] + "="@ + env_model(*env)[keys[j]]);
        }
        assert(text_map::is_sorted(keys));
    }
    out
}

/// The variables for the shell that are set, in the order of their keys.
pub open spec fn shell_variables(keys: Seq<Seq<char>>, env: Map<Seq<char>, Seq<char>>) -> Seq<
    Seq<char>,
>
    decreases keys.len(),
{
    if keys.len() == 0 {
        Seq::empty()
    } else {
        let name = text::trimmed(keys.last());
        let rest = shell_variables(keys.drop_last(), env);
        if name.len() > 0 && env.dom().contains(name) && env[name].len() > 0 {
            rest.push(name + "="@ + env[name])
        } else {
            rest
        }
    }
}

/// The variables that the configuration gives to the shell, and what they hold, each as
/// `KEY=VALUE`. Those that hold nothing are left out.
pub fn collect_shell_config_env_keys(env_keys: &Option<Vec<String>>, env: &TextMap<String>) -> (r:
    Vec<String>)
    requires
        env.well_formed(),
    ensures
        r.deep_view() == match env_keys.deep_view() {
            Some(keys) => shell_variables(keys, env_model(*env)),
            None => Seq::empty(),
        },
{
    let mut out: Vec<String> = Vec::new();
    proof {
        assert(out.deep_view() =~= Seq::empty());
    }
    if let Some(keys) = env_keys {
        let ghost models = keys.deep_view();
        let mut i: usize = 0;
        proof {
            assert(models.take(0) =~= Seq::empty());
        }
        while i < keys.len()
            invariant
                i <= keys.len(),
                models == keys.deep_view(),
                env.well_formed(),
                out.deep_view() == shell_variables(models.take(i as int), env_model(*env)),
            decreases keys.len() - i,
        {
            let ghost before = out.deep_view();
            proof {
                assert(models.take(i as int + 1).drop_last() =~= models.take(i as int));
                assert(models.take(i as int + 1).last() == keys@[i as int]@);
            }
            let name = trim(keys[i].as_str());
            if !name.as_str().is_empty() {
                if let Some(value) = env.get(name.as_str()) {
                    if !value.as_str().is_empty() {
                        out.push(concat3(name.as_str(), "=", value.as_str()));
                        proof {
                            assert(out.deep_view() =~= before.push(name@ + "="@ + value@));
                        }
                    }
                }
            }
            i += 1;
        }
        proof {
            assert(models.take(i as int) =~= models);
        }
    }
    out
}

/// A path of the host, and what it is called instead.
#[derive(Debug, PartialEq, Eq)]
pub struct PathScrubMapping {
    pub host_prefix: String,
    pub virtual_path: String,
}

/// The paths of the host that a guest must not give away: what is mounted as shared,
/// temporary and vault, and the workspace itself.
pub open spec fn scrubbed_paths(
    bootstrap: Option<RunnerBootstrapEnvelope>,
    current_dir: Seq<char>,
) -> (Seq<char>, Seq<char>, Seq<char>, Seq<char>) {
    match bootstrap {
        Some(envelope) => match envelope.runtime_policy {
            Some(policy) => (
                policy.mounts.shared@,
                policy.mounts.tmp@,
                policy.mounts.vault@,
                envelope.workspace_root@,
            ),
            None => usual_paths(envelope.workspace_root@),
        },
        None => usual_paths(current_dir),
    }
}

/// The paths under a root.
pub open spec fn usual_paths(root: Seq<char>) -> (Seq<char>, Seq<char>, Seq<char>, Seq<char>) {
    (
        paths::joined_path(root, "shared"@),
        paths::joined_path(root, "tmp"@),
        paths::joined_path(root, "vault"@),
        root,
    )
}

fn paths_under(root: &str) -> (r: (String, String, String, String))
    ensures
        (r.0@, r.1@, r.2@, r.3@) == usual_paths(root@),
{
    (join_path(root, "shared"), join_path(root, "tmp"), join_path(root, "vault"), root.to_owned())
}

/// The paths of the host that a guest must not give away.
pub fn paths_to_scrub(bootstrap: &Option<RunnerBootstrapEnvelope>, current_dir: &str) -> (r: (
    String,
    String,
    String,
    String,
))
    ensures
        (r.0@, r.1@, r.2@, r.3@) == scrubbed_paths(*bootstrap, current_dir@),
{
    match bootstrap {
        Some(envelope) => match &envelope.runtime_policy {
            Some(policy) => (
                policy.mounts.shared.clone(),
                policy.mounts.tmp.clone(),
                policy.mounts.vault.clone(),
                envelope.workspace_root.clone(),
            ),
            None => paths_under(envelope.workspace_root.as_str()),
        },
        None => paths_under(current_dir),
    }
}

/// What paths of the host are called instead, once their links are resolved. The
/// workspace itself is left out altogether.
pub fn build_path_scrub_mappings(
    shared: String,
    tmp: String,
    vault: String,
    workspace_root: String,
) -> (r: Vec<PathScrubMapping>)
    ensures
        r@.len() == 4,
        r@[0].host_prefix == shared && r@[0].virtual_path@ == "/shared"@,
        r@[1].host_prefix == tmp && r@[1].virtual_path@ == "/tmp"@,
        r@[2].host_prefix == vault && r@[2].virtual_path@ == "/vault"@,
        r@[3].host_prefix == workspace_root && r@[3].virtual_path@ == ""@,
{
    vec![
        PathScrubMapping { host_prefix: shared, virtual_path: "/shared".to_owned() },
        PathScrubMapping { host_prefix: tmp, virtual_path: "/tmp".to_owned() },
        PathScrubMapping { host_prefix: vault, virtual_path: "/vault".to_owned() },
        PathScrubMapping { host_prefix: workspace_root, virtual_path: "".to_owned() },
    ]
}

/// What the model is told in any case.
pub const BASE_PROMPT: &'static str =
    "You are Oxydra - an AI assistant with access to a sandboxed workspace.\n\n## File System\n\nYour workspace contains three directories:\n- `/shared` — persistent working directory for reading and writing files\n- `/tmp` — temporary scratch space (may be cleared between sessions)\n- `/vault` — read-only directory for sensitive/reference files; use `vault_copyto` to copy files from vault into `/shared` or `/tmp` before reading them\n\nWhen using file tools (`file_read`, `file_write`, `file_edit`, `file_list`, `file_search`, `file_delete`), always use paths relative to or starting with `/shared`, `/tmp`, or `/vault`. For example: `file_list` with path `/shared` to list files, or `file_write` with path `/shared/notes.txt`.";

/// What the model is told where it has neither shell nor browser.
pub const NO_TOOLS_PROMPT: &'static str =
    "\n\nNote: Shell and browser tools are disabled in the current environment.";

/// What the model is told where tasks can be scheduled.
pub const SCHEDULER_PROMPT: &'static str =
    "\n\n## Scheduled Tasks\n\nYou can create and manage scheduled tasks that run automatically.\n- Use `schedule_create` to set up one-off or recurring tasks.\n- Use `schedule_search` to find existing schedules (supports filtering and pagination).\n- Use `schedule_edit` to modify, pause, or resume schedules.\n- Use `schedule_delete` to permanently remove a schedule.\n\nEach scheduled task executes as an independent agent turn with its own context.\nWrite goals as complete, self-contained instructions — scheduled tasks run\nwithout conversational history from this session.";

/// The tier that a guest runs in, as far as it knows: without start-up data it is a plain
/// process.
pub open spec fn known_tier(bootstrap: Option<RunnerBootstrapEnvelope>) -> SandboxTier {
    match bootstrap {
        Some(envelope) => envelope.sandbox_tier,
        None => SandboxTier::Process,
    }
}

/// What the model is told.
pub open spec fn system_prompt(
    tier: SandboxTier,
    scheduler_enabled: bool,
    custom: Option<Seq<char>>,
) -> Seq<char> {
    let shell_note = if tier == SandboxTier::Process {
        NO_TOOLS_PROMPT@
    } else {
        ""@
    };
    let scheduler_note = if scheduler_enabled {
        SCHEDULER_PROMPT@
    } else {
        ""@
    };
    let usual = BASE_PROMPT@ + shell_note + scheduler_note;
    match custom {
        Some(custom) => if text::trimmed(custom).len() > 0 {
            usual + "\n\n---\n\n"@ + text::trimmed(custom)
        } else {
            usual
        },
        None => usual,
    }
}

/// What the model is told: what its workspace is, what it can do there, and what the user
/// adds.
pub fn build_system_prompt(
    bootstrap: &Option<RunnerBootstrapEnvelope>,
    scheduler_enabled: bool,
    custom: Option<&str>,
) -> (r: String)
    ensures
        r@ == system_prompt(
            known_tier(*bootstrap),
            scheduler_enabled,
            match custom {
                Some(custom) => Some(custom@),
                None => None,
            },
        ),
{
    let tier = match bootstrap {
        Some(envelope) => envelope.sandbox_tier,
        None => SandboxTier::Process,
    };
    let shell_note = if tier == SandboxTier::Process {
        NO_TOOLS_PROMPT
    } else {
        ""
    };
    let scheduler_note = if scheduler_enabled {
        SCHEDULER_PROMPT
    } else {
        ""
    };
    let usual = concat3(BASE_PROMPT, shell_note, scheduler_note);
    match custom {
        Some(custom) => {
            let addition = trim(custom);
            if addition.as_str().is_empty() {
                usual
            } else {
                concat3(usual.as_str(), "\n\n---\n\n", addition.as_str())
            }
        },
        None => usual,
    }
}

proof fn lemma_names_differ(provider: Seq<char>)
    ensures
        ({
            let base = "OXYDRA_WEB_SEARCH_"@ + provider + "_BASE_URL"@;
            let bases = "OXYDRA_WEB_SEARCH_"@ + provider + "_BASE_URLS"@;
            &&& base.last() == 'L'
            &&& bases.len() >= 2
            &&& bases.last() == 'S'
            &&& bases[bases.len() - 2] == 'L'
        }),
        "OXYDRA_WEB_SEARCH_PROVIDER"@.last() == 'R',
        "OXYDRA_WEB_SEARCH_GOOGLE_API_KEY"@.last() == 'Y',
        "OXYDRA_WEB_SEARCH_GOOGLE_CX"@.last() == 'X',
        "OXYDRA_WEB_SEARCH_QUERY_PARAMS"@.last() == 'S',
        "OXYDRA_WEB_SEARCH_QUERY_PARAMS"@["OXYDRA_WEB_SEARCH_QUERY_PARAMS"@.len() - 2] == 'M',
        "OXYDRA_WEB_SEARCH_SEARXNG_ENGINES"@.last() == 'S',
        "OXYDRA_WEB_SEARCH_SEARXNG_ENGINES"@["OXYDRA_WEB_SEARCH_SEARXNG_ENGINES"@.len() - 3]
            == 'N',
        "OXYDRA_WEB_SEARCH_SEARXNG_ENGINES"@["OXYDRA_WEB_SEARCH_SEARXNG_ENGINES"@.len() - 2]
            == 'E',
        "OXYDRA_WEB_SEARCH_SEARXNG_CATEGORIES"@.last() == 'S',
        "OXYDRA_WEB_SEARCH_SEARXNG_CATEGORIES"@["OXYDRA_WEB_SEARCH_SEARXNG_CATEGORIES"@.len() - 3]
            == 'I',
        "OXYDRA_WEB_SEARCH_SEARXNG_CATEGORIES"@["OXYDRA_WEB_SEARCH_SEARXNG_CATEGORIES"@.len() - 2]
            == 'E',
        "OXYDRA_WEB_SEARCH_SEARXNG_SAFESEARCH"@.last() == 'H',
        "OXYDRA_WEB_EGRESS_ALLOWLIST"@.last() == 'T',
{
    reveal_strlit("_BASE_URL");
    reveal_strlit("_BASE_URLS");
    reveal_strlit("OXYDRA_WEB_SEARCH_PROVIDER");
    reveal_strlit("OXYDRA_WEB_SEARCH_GOOGLE_API_KEY");
    reveal_strlit("OXYDRA_WEB_SEARCH_GOOGLE_CX");
    reveal_strlit("OXYDRA_WEB_SEARCH_QUERY_PARAMS");
    reveal_strlit("OXYDRA_WEB_SEARCH_SEARXNG_ENGINES");
    reveal_strlit("OXYDRA_WEB_SEARCH_SEARXNG_CATEGORIES");
    reveal_strlit("OXYDRA_WEB_SEARCH_SEARXNG_SAFESEARCH");
    reveal_strlit("OXYDRA_WEB_EGRESS_ALLOWLIST");
}

/// Each setting of the web tools reaches them under the name that they look for, unless
/// the environment holds something under it; the provider's addresses under names that
/// hold the provider's.
pub proof fn law_web_settings_reach_their_tools(
    config: WebSearchConfig,
    env: &mut TextMap<String>,
    provider: Seq<char>,
)
    requires
        env.well_formed(),
        call_ensures(apply_web_search_config, (&config, env), ()),
        config.provider matches Some(name) ==> provider == lower_case(text::trimmed(name@)),
    ensures
        ({
            let before = env_model(*old(env));
            let after = env_model(*final(env));
            let sets = |name: Seq<char>, value: Option<String>|
                value matches Some(text) ==> (text@.len() > 0 && !before.dom().contains(name)
                    ==> after.dom().contains(name) && after[name] == text@);
            &&& sets("OXYDRA_WEB_SEARCH_QUERY_PARAMS"@, config.query_params)
            &&& sets("OXYDRA_WEB_SEARCH_SEARXNG_ENGINES"@, config.engines)
            &&& sets("OXYDRA_WEB_SEARCH_SEARXNG_CATEGORIES"@, config.categories)
            &&& config.provider is Some && provider.len() > 0 ==> {
                let prefix = "OXYDRA_WEB_SEARCH_"@ + upper_case(provider);
                &&& sets(prefix + "_BASE_URL"@, config.base_url)
                &&& sets(prefix + "_BASE_URLS"@, config.base_urls)
                &&& !before.dom().contains("OXYDRA_WEB_SEARCH_PROVIDER"@) ==> (after.dom().contains(
                    "OXYDRA_WEB_SEARCH_PROVIDER"@,
                ) && after["OXYDRA_WEB_SEARCH_PROVIDER"@] == provider)
            }
            &&& config.safesearch matches Some(level) ==> {
                let name = "OXYDRA_WEB_SEARCH_SEARXNG_SAFESEARCH"@;
                !before.dom().contains(name) && text::decimal(level as nat).len() > 0
                    ==> after.dom().contains(name) && after[name] == text::decimal(level as nat)
            }
        }),
{
    lemma_names_differ(upper_case(provider));
    lemma_names_differ(upper_case(search_provider(config)));
    let prefix = "OXYDRA_WEB_SEARCH_"@ + upper_case(provider);
    assert(prefix + "_BASE_URL"@ != prefix + "_BASE_URLS"@);
}

/// The key of every registered provider reaches the guest, where the environment holds it:
/// under the variable that its entry names, and under that of its kind.
pub proof fn law_keys_reach_the_guest(
    registry: Vec<RegistryEntry>,
    web_search: Option<WebSearchConfig>,
    env: TextMap<String>,
    given: Vec<String>,
    i: int,
    name: Seq<char>,
) -> (at: int)
    requires
        env.well_formed(),
        call_ensures(collect_config_env_vars, (&registry, &web_search, &env), given),
        ({
            let named = registry@[i].api_key_env matches Some(own) && own@ == name;
            let usual = name == match registry@[i].provider_type {
                ProviderType::Openai => "OPENAI_API_KEY"@,
                ProviderType::OpenaiResponses => "OPENAI_API_KEY"@,
                ProviderType::Anthropic => "ANTHROPIC_API_KEY"@,
                ProviderType::Gemini => "GEMINI_API_KEY"@,
            };
            let searched = web_search matches Some(config) && ((config.api_key_env matches Some(
                key,
            ) && key@ == name) || (config.engine_id_env matches Some(engine) && engine@ == name));
            searched || (0 <= i < registry@.len() && (named || usual))
        }),
        name.len() > 0,
        env@.dom().contains(name),
        env@[name]@.len() > 0,
    ensures
        0 <= at < given@.len(),
        given@[at]@ == name + "="@ + env@[name]@,
{
    let texts = given.deep_view();
    let model = env_model(env);
    let names = choose|names: Seq<Seq<char>>|
        {
            &&& #[trigger] text_map::is_sorted(names)
            &&& names.len() == texts.len()
            &&& forall|n: Seq<char>| #[trigger]
                names.contains(n) <==> is_needed(n, registry@, web_search) && n.len() > 0
                    && model.dom().contains(n) && model[n].len() > 0
            &&& forall|k: int|
                0 <= k < texts.len() ==> #[trigger] texts[k] == names[k] + "="@ + model[names[k]]
        };
    assert(is_needed(name, registry@, web_search));
    assert(model.dom().contains(name));
    assert(names.contains(name));
    let at = choose|at: int| 0 <= at < names.len() && names[at] == name;
    text::lemma_list(given);
    assert(texts[at] == names[at] + "="@ + model[names[at]]);
    at
}

/// Nothing reaches the guest but what the configuration names.
pub proof fn law_nothing_else_reaches_the_guest(
    registry: Vec<RegistryEntry>,
    web_search: Option<WebSearchConfig>,
    env: TextMap<String>,
    given: Vec<String>,
    at: int,
) -> (name: Seq<char>)
    requires
        env.well_formed(),
        call_ensures(collect_config_env_vars, (&registry, &web_search, &env), given),
        0 <= at < given@.len(),
    ensures
        is_needed(name, registry@, web_search),
        env@.dom().contains(name),
        given@[at]@ == name + "="@ + env@[name]@,
{
    let texts = given.deep_view();
    let model = env_model(env);
    let names = choose|names: Seq<Seq<char>>|
        {
            &&& #[trigger] text_map::is_sorted(names)
            &&& names.len() == texts.len()
            &&& forall|n: Seq<char>| #[trigger]
                names.contains(n) <==> is_needed(n, registry@, web_search) && n.len() > 0
                    && model.dom().contains(n) && model[n].len() > 0
            &&& forall|k: int|
                0 <= k < texts.len() ==> #[trigger] texts[k] == names[k] + "="@ + model[names[k]]
        };
    text::lemma_list(given);
    assert(texts[at] == names[at] + "="@ + model[names[at]]);
    assert(names.contains(names[at]));
    names[at]
}

proof fn lemma_shell_variable(keys: Seq<Seq<char>>, env: Map<Seq<char>, Seq<char>>, i: int) -> (at:
    int)
    requires
        0 <= i < keys.len(),
        text::trimmed(keys[i]).len() > 0,
        env.dom().contains(text::trimmed(keys[i])),
        env[text::trimmed(keys[i])].len() > 0,
    ensures
        0 <= at < shell_variables(keys, env).len(),
        shell_variables(keys, env)[at] == text::trimmed(keys[i]) + "="@ + env[text::trimmed(
            keys[i],
        )],
    decreases keys.len(),
{
    if i == keys.len() - 1 {
        shell_variables(keys.drop_last(), env).len() as int
    } else {
        lemma_shell_variable(keys.drop_last(), env, i)
    }
}

/// Every variable that the shell is configured to have and that is set reaches the sidecar,
/// as it is set.
pub proof fn law_shell_variables_reach_the_sidecar(
    keys: Vec<String>,
    env: TextMap<String>,
    given: Vec<String>,
    i: int,
) -> (at: int)
    requires
        env.well_formed(),
        call_ensures(collect_shell_config_env_keys, (&Some(keys), &env), given),
        0 <= i < keys@.len(),
        text::trimmed(keys@[i]@).len() > 0,
        env@.dom().contains(text::trimmed(keys@[i]@)),
        env@[text::trimmed(keys@[i]@)]@.len() > 0,
    ensures
        0 <= at < given@.len(),
        given@[at]@ == text::trimmed(keys@[i]@) + "="@ + env@[text::trimmed(keys@[i]@)]@,
{
    text::lemma_list(keys);
    text::lemma_list(given);
    let list = keys.deep_view();
    assert(list[i] == keys@[i]@);
    let at = lemma_shell_variable(list, env_model(env), i);
    assert(given.deep_view()[at] == given@[at]@);
    at
}

/// The paths of the host that are mounted in a guest are called by the guest's own names,
/// and the workspace itself by none: those that the start-up data gives, or else the usual
/// ones.
pub proof fn law_host_paths_are_called_by_the_guests_names(
    envelope: RunnerBootstrapEnvelope,
    current_dir: &str,
    r: (String, String, String, String),
    mappings: Vec<PathScrubMapping>,
)
    requires
        call_ensures(paths_to_scrub, (&Some(envelope), current_dir), r),
        call_ensures(build_path_scrub_mappings, (r.0, r.1, r.2, r.3), mappings),
    ensures
        envelope.runtime_policy matches Some(policy) ==> r.0@ == policy.mounts.shared@ && r.1@
            == policy.mounts.tmp@ && r.2@ == policy.mounts.vault@,
        envelope.runtime_policy is None ==> r.0@ == paths::joined_path(
            envelope.workspace_root@,
            "shared"@,
        ) && r.1@ == paths::joined_path(envelope.workspace_root@, "tmp"@) && r.2@
            == paths::joined_path(envelope.workspace_root@, "vault"@),
        r.3@ == envelope.workspace_root@,
        mappings@.len() == 4,
        mappings@[0].host_prefix@ == r.0@ && mappings@[0].virtual_path@ == "/shared"@,
        mappings@[1].host_prefix@ == r.1@ && mappings@[1].virtual_path@ == "/tmp"@,
        mappings@[2].host_prefix@ == r.2@ && mappings@[2].virtual_path@ == "/vault"@,
        mappings@[3].host_prefix@ == r.3@ && mappings@[3].virtual_path@ == ""@,
{
}

/// The model is told of its workspace first; that it has no shell and no browser exactly in
/// a plain process, which a guest without start-up data is; how to schedule tasks exactly
/// where it can; and at the end what the user adds.
pub proof fn law_prompt_tells_what_there_is(
    bootstrap: Option<RunnerBootstrapEnvelope>,
    scheduler_enabled: bool,
    custom: &str,
    plain: String,
    added: String,
)
    requires
        call_ensures(
            build_system_prompt,
            (&bootstrap, scheduler_enabled, None::<&str>),
            plain,
        ),
        call_ensures(
            build_system_prompt,
            (&bootstrap, scheduler_enabled, Some(custom)),
            added,
        ),
    ensures
        ({
            let isolated = bootstrap matches Some(envelope) && envelope.sandbox_tier
                != SandboxTier::Process;
            plain@ == BASE_PROMPT@ + (if isolated {
                ""@
            } else {
                NO_TOOLS_PROMPT@
            }) + (if scheduler_enabled {
                SCHEDULER_PROMPT@
            } else {
                ""@
            })
        }),
        text::trimmed(custom@).len() == 0 ==> added@ == plain@,
        text::trimmed(custom@).len() > 0 ==> added@ == plain@ + "\n\n---\n\n"@ + text::trimmed(
            custom@,
        ),
{
}

} // verus!
