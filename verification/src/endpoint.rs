//! Where a provider is reached, with which key, and what its error answers say.

use crate::text;
use crate::model::{ModelId, ProviderError, ProviderErrorModel, ProviderId};
use crate::text::{concat, concat5, from_chars, same_text, to_chars, trim, trim_trailing};
use vstd::prelude::*;

verus! {

pub const OPENAI_DEFAULT_BASE_URL: &'static str = "https://api.openai.com";

pub const OPENAI_CHAT_COMPLETIONS_PATH: &'static str = "/v1/chat/completions";

pub const OPENAI_RESPONSES_PATH: &'static str = "/v1/responses";

pub const ANTHROPIC_DEFAULT_BASE_URL: &'static str = "https://api.anthropic.com";

pub const ANTHROPIC_MESSAGES_PATH: &'static str = "/v1/messages";

pub const ANTHROPIC_VERSION: &'static str = "2023-06-01";

pub const DEFAULT_ANTHROPIC_MAX_TOKENS: u32 = 1024;

pub const DEFAULT_STREAM_BUFFER_SIZE: usize = 64;

pub const GEMINI_DEFAULT_BASE_URL: &'static str = "https://generativelanguage.googleapis.com";

/// Which protocol a provider speaks.
#[derive(Debug, Clone, Copy, PartialEq, Eq, Structural)]
pub enum ProviderType {
    Openai,
    Anthropic,
    Gemini,
    OpenaiResponses,
}

/// What is left of a text once the white space at its ends is gone, if anything is.
pub open spec fn non_empty_text(value: Seq<char>) -> Option<Seq<char>> {
    if text::trimmed(value).len() == 0 {
        None
    } else {
        Some(text::trimmed(value))
    }
}

/// Trims a text and drops it if nothing is left.
pub fn non_empty(value: String) -> (r: Option<String>)
    ensures
        r.deep_view() == non_empty_text(value@),
{
    let inner = trim(value.as_str());
    if inner.as_str().is_empty() {
        None
    } else {
        Some(inner)
    }
}

/// The text that an optional text holds, once trimmed.
pub open spec fn filled(value: Option<Seq<char>>) -> Option<Seq<char>> {
    match value {
        Some(text) => non_empty_text(text),
        None => None,
    }
}

/// The first of three sources that holds a key.
pub open spec fn api_key_of(
    explicit: Option<Seq<char>>,
    provider_specific: Option<Seq<char>>,
    fallback: Option<Seq<char>>,
) -> Option<Seq<char>> {
    if filled(explicit) is Some {
        filled(explicit)
    } else if filled(provider_specific) is Some {
        filled(provider_specific)
    } else {
        filled(fallback)
    }
}

/// The API key: the explicit one, else that of the provider's environment variable,
/// else that of the general one. A source that holds only white space counts as
/// empty, and the key is trimmed.
pub fn resolve_api_key_from_sources(
    explicit_api_key: Option<String>,
    provider_specific_env_key: Option<String>,
    fallback_env_key: Option<String>,
) -> (r: Option<String>)
    ensures
        r.deep_view() == api_key_of(
            explicit_api_key.deep_view(),
            provider_specific_env_key.deep_view(),
            fallback_env_key.deep_view(),
        ),
{
    if let Some(value) = explicit_api_key {
        if let Some(key) = non_empty(value) {
            return Some(key);
        }
    }
    if let Some(value) = provider_specific_env_key {
        if let Some(key) = non_empty(value) {
            return Some(key);
        }
    }
    match fallback_env_key {
        Some(value) => non_empty(value),
        None => None,
    }
}

/// The environment variable that holds a provider's key where none is named.
pub open spec fn default_key_variable(provider_type: ProviderType) -> Seq<char> {
    match provider_type {
        ProviderType::Openai => "OPENAI_API_KEY"@,
        ProviderType::OpenaiResponses => "OPENAI_API_KEY"@,
        ProviderType::Anthropic => "ANTHROPIC_API_KEY"@,
        ProviderType::Gemini => "GEMINI_API_KEY"@,
    }
}

/// The environment variable that holds a provider's key where none is named.
pub fn provider_key_variable(provider_type: ProviderType) -> (r: &'static str)
    ensures
        r@ == default_key_variable(provider_type),
{
    match provider_type {
        ProviderType::Openai => "OPENAI_API_KEY",
        ProviderType::OpenaiResponses => "OPENAI_API_KEY",
        ProviderType::Anthropic => "ANTHROPIC_API_KEY",
        ProviderType::Gemini => "GEMINI_API_KEY",
    }
}

/// The key of a registered provider, out of what its environment variables hold: a
/// variable that the entry names is asked before that of the provider's kind, even
/// where it holds only white space.
pub fn resolve_api_key_for_entry(
    explicit_api_key: Option<String>,
    custom_env: Option<String>,
    provider_env: Option<String>,
    fallback_env: Option<String>,
) -> (r: Option<String>)
    ensures
        r.deep_view() == api_key_of(
            explicit_api_key.deep_view(),
            if custom_env is Some {
                custom_env.deep_view()
            } else {
                provider_env.deep_view()
            },
            fallback_env.deep_view(),
        ),
{
    let specific = if custom_env.is_some() {
        custom_env
    } else {
        provider_env
    };
    resolve_api_key_from_sources(explicit_api_key, specific, fallback_env)
}

/// A registered provider.
#[derive(Debug, PartialEq, Eq)]
pub struct ProviderRegistryEntry {
    pub provider_type: ProviderType,
    pub api_key: Option<String>,
    /// The environment variable that holds the key.
    pub api_key_env: Option<String>,
    pub base_url: Option<String>,
    /// The provider under which the catalog lists its models.
    pub catalog_provider: Option<String>,
}

/// Under which name the catalog lists the models of a kind of provider.
pub open spec fn usual_catalog_provider(provider_type: ProviderType) -> Seq<char> {
    match provider_type {
        ProviderType::Openai => "openai"@,
        ProviderType::OpenaiResponses => "openai"@,
        ProviderType::Anthropic => "anthropic"@,
        ProviderType::Gemini => "google"@,
    }
}

impl ProviderRegistryEntry {
    /// Under which name the catalog lists the models of the provider.
    pub open spec fn catalog_name(self) -> Seq<char> {
        match self.catalog_provider {
            Some(name) => name@,
            None => usual_catalog_provider(self.provider_type),
        }
    }

    /// Under which name the catalog lists the models of the provider: the one that is
    /// configured, or else that of the provider's kind.
    pub fn effective_catalog_provider(&self) -> (r: String)
        ensures
            r@ == self.catalog_name(),
    {
        match &self.catalog_provider {
            Some(name) => name.clone(),
            None => match self.provider_type {
                ProviderType::Openai => "openai".to_owned(),
                ProviderType::OpenaiResponses => "openai".to_owned(),
                ProviderType::Anthropic => "anthropic".to_owned(),
                ProviderType::Gemini => "google".to_owned(),
            },
        }
    }
}

/// The address that a provider is reached at.
pub open spec fn base_url_of(base_url: Seq<char>, default_base_url: Seq<char>) -> Seq<char> {
    if text::trimmed(base_url).len() == 0 {
        default_base_url
    } else {
        text::without_trailing(text::trimmed(base_url), '/')
    }
}

/// The base address: the configured one without white space around it and without
/// slashes at its end, or the default where none is configured.
pub fn normalize_base_url_or_default(base_url: &str, default_base_url: &str) -> (r: String)
    ensures
        r@ == base_url_of(base_url@, default_base_url@),
{
    let inner = trim(base_url);
    if inner.as_str().is_empty() {
        default_base_url.to_owned()
    } else {
        trim_trailing(inner.as_str(), '/')
    }
}

pub const MAX_MESSAGE_CHARS: usize = 512;

/// At most 512 characters of a message, with dots where it goes on.
pub open spec fn shortened(message: Seq<char>) -> Seq<char> {
    if message.len() <= MAX_MESSAGE_CHARS {
        message
    } else {
        message.take(MAX_MESSAGE_CHARS as int) + "..."@
    }
}

/// Cuts a message off behind its first 512 characters.
pub fn truncate_message(message: &str) -> (r: String)
    ensures
        r@ == shortened(message@),
{
    let chars = to_chars(message);
    if chars.len() <= MAX_MESSAGE_CHARS {
        return message.to_owned();
    }
    let prefix = from_chars(vstd::slice::slice_subrange(chars.as_slice(), 0, MAX_MESSAGE_CHARS));
    proof {
        assert(prefix@ =~= message@.take(MAX_MESSAGE_CHARS as int));
    }
    concat(prefix.as_str(), "...")
}

/// The messages that an error answer holds in each of the places where providers
/// put them, as far as the answer has them.
#[derive(Debug, PartialEq, Eq)]
pub struct ErrorEnvelopes {
    /// `error.message`, where the answer is an OpenAI error.
    pub openai: Option<String>,
    /// `error.message`, where the answer is an Anthropic error.
    pub anthropic_error: Option<String>,
    /// `message`, where the answer is an Anthropic error.
    pub anthropic: Option<String>,
    /// `error.message`, where the answer is a Gemini error.
    pub gemini: Option<String>,
}

/// What an error answer says: the first message that is not empty, else the answer
/// itself.
pub open spec fn error_message_of(
    body: Seq<char>,
    openai: Option<Seq<char>>,
    anthropic_error: Option<Seq<char>>,
    anthropic: Option<Seq<char>>,
    gemini: Option<Seq<char>>,
) -> Seq<char> {
    if filled(openai) is Some {
        shortened(filled(openai)->0)
    } else if filled(anthropic_error) is Some {
        shortened(filled(anthropic_error)->0)
    } else if filled(anthropic) is Some {
        shortened(filled(anthropic)->0)
    } else if filled(gemini) is Some {
        shortened(filled(gemini)->0)
    } else if text::trimmed(body).len() == 0 {
        "empty error response from provider"@
    } else {
        shortened(text::trimmed(body))
    }
}

/// What an error answer says, in at most 512 characters and dots.
pub fn extract_http_error_message(body: &str, envelopes: ErrorEnvelopes) -> (r: String)
    ensures
        r@ == error_message_of(
            body@,
            envelopes.openai.deep_view(),
            envelopes.anthropic_error.deep_view(),
            envelopes.anthropic.deep_view(),
            envelopes.gemini.deep_view(),
        ),
{
    if let Some(value) = envelopes.openai {
        if let Some(message) = non_empty(value) {
            return truncate_message(message.as_str());
        }
    }
    if let Some(value) = envelopes.anthropic_error {
        if let Some(message) = non_empty(value) {
            return truncate_message(message.as_str());
        }
    }
    if let Some(value) = envelopes.anthropic {
        if let Some(message) = non_empty(value) {
            return truncate_message(message.as_str());
        }
    }
    if let Some(value) = envelopes.gemini {
        if let Some(message) = non_empty(value) {
            return truncate_message(message.as_str());
        }
    }
    let inner = trim(body);
    if inner.as_str().is_empty() {
        "empty error response from provider".to_owned()
    } else {
        truncate_message(inner.as_str())
    }
}

/// The error of an answer whose status is no success.
pub fn http_status_error(
    provider: &ProviderId,
    status: u16,
    body: &str,
    envelopes: ErrorEnvelopes,
) -> (r: ProviderError)
    ensures
        r.deep_view() == (ProviderErrorModel::HttpStatus {
            provider: provider.deep_view(),
            status,
            message: error_message_of(
                body@,
                envelopes.openai.deep_view(),
                envelopes.anthropic_error.deep_view(),
                envelopes.anthropic.deep_view(),
                envelopes.gemini.deep_view(),
            ),
        }),
{
    let message = extract_http_error_message(body, envelopes);
    ProviderError::HttpStatus { provider: provider.clone(), status, message }
}

/// How many items a stream may hold back: as many as asked for, or the default
/// where none are asked for.
pub fn stream_channel_size(buffer_size: usize) -> (r: usize)
    ensures
        r == if buffer_size == 0 {
            DEFAULT_STREAM_BUFFER_SIZE
        } else {
            buffer_size
        },
{
    if buffer_size == 0 {
        DEFAULT_STREAM_BUFFER_SIZE
    } else {
        buffer_size
    }
}

/// The models that a catalog lists, each under its provider.
#[derive(Debug, PartialEq, Eq)]
pub struct ModelCatalog {
    pub entries: Vec<(ProviderId, ModelId)>,
}

impl ModelCatalog {
    /// The catalog lists that model under that provider.
    pub open spec fn lists(self, provider: Seq<char>, model: Seq<char>) -> bool {
        exists|i: int|
            #![trigger self.entries@[i]]
            0 <= i < self.entries@.len() && self.entries@[i].0.deep_view() == provider
                && self.entries@[i].1.deep_view() == model
    }

    /// Checks that the catalog lists a model under a provider.
    pub fn validate(&self, provider: &ProviderId, model: &ModelId) -> (r: Result<
        (),
        ProviderError,
    >)
        ensures
            match r {
                Ok(_) => self.lists(provider.deep_view(), model.deep_view()),
                Err(error) => {
                    &&& !self.lists(provider.deep_view(), model.deep_view())
                    &&& error.deep_view() == (ProviderErrorModel::UnknownModel {
                        provider: provider.deep_view(),
                        model: model.deep_view(),
                    })
                },
            },
    {
        let mut i: usize = 0;
        while i < self.entries.len()
            invariant
                i <= self.entries.len(),
                forall|k: int|
                    #![trigger self.entries@[k]]
                    0 <= k < i ==> !(self.entries@[k].0.deep_view() == provider.deep_view()
                        && self.entries@[k].1.deep_view() == model.deep_view()),
            decreases self.entries.len() - i,
        {
            if same_text(self.entries[i].0.0.as_str(), provider.0.as_str()) && same_text(
                self.entries[i].1.0.as_str(),
                model.0.as_str(),
            ) {
                return Ok(());
            }
            i += 1;
        }
        Err(ProviderError::UnknownModel { provider: provider.clone(), model: model.clone() })
    }
}

/// The complaint about a conversation that is meant for another provider.
pub open spec fn mismatch_message(context_provider: Seq<char>, provider: Seq<char>) -> Seq<char> {
    "context provider `"@ + context_provider + "` does not match provider `"@ + provider + "`"@
}

/// Checks that a conversation is meant for this provider and asks for a model that
/// its catalog lists.
pub fn validate_context(
    context_provider: &ProviderId,
    context_model: &ModelId,
    provider: &ProviderId,
    catalog_provider: &ProviderId,
    catalog: &ModelCatalog,
) -> (r: Result<(), ProviderError>)
    ensures
        match r {
            Ok(_) => context_provider.deep_view() == provider.deep_view() && catalog.lists(
                catalog_provider.deep_view(),
                context_model.deep_view(),
            ),
            Err(error) => if context_provider.deep_view() != provider.deep_view() {
                error.deep_view() == (ProviderErrorModel::RequestFailed {
                    provider: provider.deep_view(),
                    message: mismatch_message(context_provider.deep_view(), provider.deep_view()),
                })
            } else {
                &&& !catalog.lists(catalog_provider.deep_view(), context_model.deep_view())
                &&& error.deep_view() == (ProviderErrorModel::UnknownModel {
                    provider: catalog_provider.deep_view(),
                    model: context_model.deep_view(),
                })
            },
        },
{
    if !same_text(context_provider.0.as_str(), provider.0.as_str()) {
        let message = concat5(
            "context provider `",
            context_provider.0.as_str(),
            "` does not match provider `",
            provider.0.as_str(),
            "`",
        );
        return Err(ProviderError::RequestFailed { provider: provider.clone(), message });
    }
    catalog.validate(catalog_provider, context_model)
}

/// A key never starts or ends with white space, and is never empty.
pub proof fn law_api_key_is_trimmed(
    explicit: Option<Seq<char>>,
    provider_specific: Option<Seq<char>>,
    fallback: Option<Seq<char>>,
)
    ensures
        api_key_of(explicit, provider_specific, fallback) matches Some(key) ==> {
            &&& key.len() > 0
            &&& !crate::text::is_white_space(key[0])
            &&& !crate::text::is_white_space(key.last())
        },
{
    if let Some(text) = explicit {
        lemma_trimmed_ends(text);
    }
    if let Some(text) = provider_specific {
        lemma_trimmed_ends(text);
    }
    if let Some(text) = fallback {
        lemma_trimmed_ends(text);
    }
}

proof fn lemma_trimmed_ends(s: Seq<char>)
    ensures
        text::trimmed(s).len() > 0 ==> !crate::text::is_white_space(text::trimmed(s)[0])
            && !crate::text::is_white_space(text::trimmed(s).last()),
{
    lemma_start(s);
    lemma_end(crate::text::trimmed_start(s));
}

proof fn lemma_start(s: Seq<char>)
    ensures
        crate::text::trimmed_start(s).len() > 0 ==> !crate::text::is_white_space(
            crate::text::trimmed_start(s)[0],
        ),
    decreases s.len(),
{
    if s.len() > 0 && crate::text::is_white_space(s[0]) {
        lemma_start(s.skip(1));
    }
}

proof fn lemma_end(s: Seq<char>)
    ensures
        crate::text::trimmed_end(s).len() > 0 ==> {
            &&& !crate::text::is_white_space(crate::text::trimmed_end(s).last())
            &&& crate::text::trimmed_end(s)[0] == s[0]
        },
    decreases s.len(),
{
    if s.len() > 0 && crate::text::is_white_space(s.last()) {
        lemma_end(s.drop_last());
    }
}

/// The key is the first one that is there, without the white space around it: the
/// explicit one, or else that of the provider, or else the one that all share. A source
/// of white space alone counts as none.
pub proof fn law_key_is_the_first_that_is_there(
    explicit: Option<String>,
    own: Option<String>,
    shared: Option<String>,
    key: Option<String>,
)
    requires
        call_ensures(resolve_api_key_from_sources, (explicit, own, shared), key),
    ensures
        ({
            let has_explicit = explicit matches Some(value) && text::trimmed(value@).len() > 0;
            let has_own = own matches Some(value) && text::trimmed(value@).len() > 0;
            let has_shared = shared matches Some(value) && text::trimmed(value@).len() > 0;
            &&& has_explicit ==> (key matches Some(found) && found@ == text::trimmed(explicit->0@))
            &&& !has_explicit && has_own ==> (key matches Some(found) && found@ == text::trimmed(
                own->0@,
            ))
            &&& !has_explicit && !has_own && has_shared ==> (key matches Some(found) && found@
                == text::trimmed(shared->0@))
            &&& key is None <==> !has_explicit && !has_own && !has_shared
        }),
{
}

/// A variable that an entry names is asked in place of the one of its kind, and nothing
/// else changes by it.
pub proof fn law_named_variable_takes_the_place(
    explicit: Option<String>,
    custom: Option<String>,
    usual: Option<String>,
    shared: Option<String>,
    key: Option<String>,
    plain: Option<String>,
)
    requires
        call_ensures(resolve_api_key_for_entry, (explicit, custom, usual, shared), key),
        call_ensures(
            resolve_api_key_from_sources,
            (
                explicit,
                if custom is Some {
                    custom
                } else {
                    usual
                },
                shared,
            ),
            plain,
        ),
    ensures
        key.deep_view() == plain.deep_view(),
{
}

/// Every kind of provider has its own variable for the key, but for the two that speak to
/// the same service.
pub proof fn law_key_variables(
    one: ProviderType,
    other: ProviderType,
    variable: &'static str,
    another: &'static str,
)
    requires
        call_ensures(provider_key_variable, (one,), variable),
        call_ensures(provider_key_variable, (other,), another),
    ensures
        one == ProviderType::Openai || one == ProviderType::OpenaiResponses ==> variable@
            == "OPENAI_API_KEY"@,
        one == ProviderType::Anthropic ==> variable@ == "ANTHROPIC_API_KEY"@,
        one == ProviderType::Gemini ==> variable@ == "GEMINI_API_KEY"@,
        variable@ == another@ ==> one == other || ((one == ProviderType::Openai || one
            == ProviderType::OpenaiResponses) && (other == ProviderType::Openai || other
            == ProviderType::OpenaiResponses)),
{
    reveal_strlit("OPENAI_API_KEY");
    reveal_strlit("ANTHROPIC_API_KEY");
    reveal_strlit("GEMINI_API_KEY");
    assert("OPENAI_API_KEY"@[0] == 'O' && "ANTHROPIC_API_KEY"@[0] == 'A' && "GEMINI_API_KEY"@[0]
        == 'G');
}

/// The models of a provider are listed under the name that is configured for it, or else
/// under that of its kind.
pub proof fn law_catalog_name(entry: ProviderRegistryEntry, name: String)
    requires
        call_ensures(ProviderRegistryEntry::effective_catalog_provider, (&entry,), name),
    ensures
        entry.catalog_provider matches Some(configured) ==> name@ == configured@,
        entry.catalog_provider is None ==> match entry.provider_type {
            ProviderType::Openai => name@ == "openai"@,
            ProviderType::OpenaiResponses => name@ == "openai"@,
            ProviderType::Anthropic => name@ == "anthropic"@,
            ProviderType::Gemini => name@ == "google"@,
        },
{
}

/// An address that is configured is used, without the white space around it and without
/// a slash at its end, and the default where none is.
pub proof fn law_configured_address_is_used(base_url: &str, default_url: &str, url: String)
    requires
        call_ensures(normalize_base_url_or_default, (base_url, default_url), url),
    ensures
        text::trimmed(base_url@).len() == 0 ==> url@ == default_url@,
        text::trimmed(base_url@).len() > 0 ==> {
            &&& url@.is_prefix_of(text::trimmed(base_url@))
            &&& url@.len() > 0 ==> url@.last() != '/'
            &&& forall|i: int|
                url@.len() <= i < text::trimmed(base_url@).len() ==> #[trigger] text::trimmed(
                    base_url@,
                )[i] == '/'
        },
{
    if text::trimmed(base_url@).len() > 0 {
        lemma_without_slashes(text::trimmed(base_url@));
    }
}

proof fn lemma_without_slashes(s: Seq<char>)
    ensures
        text::without_trailing(s, '/').is_prefix_of(s),
        text::without_trailing(s, '/').len() > 0 ==> text::without_trailing(s, '/').last() != '/',
        forall|i: int|
            text::without_trailing(s, '/').len() <= i < s.len() ==> #[trigger] s[i] == '/',
    decreases s.len(),
{
    if s.len() > 0 && s.last() == '/' {
        lemma_without_slashes(s.drop_last());
        assert forall|i: int|
            text::without_trailing(s, '/').len() <= i < s.len() implies #[trigger] s[i] == '/' by {
            if i < s.len() - 1 {
                assert(s.drop_last()[i] == '/');
            }
        }
    }
}

/// What an error answer says is the first message that stands in one of its envelopes, or
/// else the answer itself, cut behind its first five hundred and twelve characters.
pub proof fn law_error_message_is_the_first_found(
    body: &str,
    envelopes: ErrorEnvelopes,
    message: String,
    said: Seq<char>,
)
    requires
        call_ensures(extract_http_error_message, (body, envelopes), message),
        ({
            let blank = |value: Option<String>|
                !(value matches Some(inner) && text::trimmed(inner@).len() > 0);
            let is_said = |value: Option<String>|
                value matches Some(inner) && text::trimmed(inner@).len() > 0 && said
                    == text::trimmed(inner@);
            ||| is_said(envelopes.openai)
            ||| blank(envelopes.openai) && is_said(envelopes.anthropic_error)
            ||| blank(envelopes.openai) && blank(envelopes.anthropic_error) && is_said(
                envelopes.anthropic,
            )
            ||| blank(envelopes.openai) && blank(envelopes.anthropic_error) && blank(
                envelopes.anthropic,
            ) && is_said(envelopes.gemini)
            ||| blank(envelopes.openai) && blank(envelopes.anthropic_error) && blank(
                envelopes.anthropic,
            ) && blank(envelopes.gemini) && text::trimmed(body@).len() > 0 && said
                == text::trimmed(body@)
        }),
    ensures
        said.len() <= 512 ==> message@ == said,
        said.len() > 512 ==> message@.len() == 515 && message@.take(512) == said.take(512),
{
    reveal_strlit("...");
    if said.len() > 512 {
        assert(message@.take(512) =~= said.take(512));
    }
}

/// A provider takes up a conversation exactly where it is meant for it and its catalog
/// lists the model; otherwise it says which of the two is wrong, the provider first.
pub proof fn law_conversation_is_taken_up(
    context_provider: ProviderId,
    context_model: ModelId,
    provider: ProviderId,
    catalog_provider: ProviderId,
    catalog: ModelCatalog,
    r: Result<(), ProviderError>,
)
    requires
        call_ensures(
            validate_context,
            (&context_provider, &context_model, &provider, &catalog_provider, &catalog),
            r,
        ),
    ensures
        ({
            let listed = exists|i: int|
                #![trigger catalog.entries@[i]]
                0 <= i < catalog.entries@.len() && catalog.entries@[i].0.deep_view() == catalog_provider.0@
                    && catalog.entries@[i].1.deep_view() == context_model.0@;
            &&& r is Ok <==> context_provider.0@ == provider.0@ && listed
            &&& context_provider.0@ != provider.0@ ==> (r matches Err(
                ProviderError::RequestFailed { provider: named, .. },
            ) && named.0@ == provider.0@)
            &&& context_provider.0@ == provider.0@ && !listed ==> (r matches Err(
                ProviderError::UnknownModel { provider: named, model },
            ) && named.0@ == catalog_provider.0@ && model.0@ == context_model.0@)
        }),
{
    if catalog.lists(catalog_provider.0@, context_model.0@) {
        let i = choose|i: int|
            #![trigger catalog.entries@[i]]
            0 <= i < catalog.entries@.len() && catalog.entries@[i].0.deep_view()
                == catalog_provider.0@ && catalog.entries@[i].1.deep_view() == context_model.0@;
        assert(catalog.entries@[i].0.deep_view() == catalog_provider.0@);
    }
}

/// A stream holds back as many items as asked for, and always some.
pub proof fn law_stream_holds_back_some(asked: usize, size: usize)
    requires
        call_ensures(stream_channel_size, (asked,), size),
    ensures
        size > 0,
        asked > 0 ==> size == asked,
        asked == 0 ==> size == 64,
{
}

/// A message of more than so many characters is cut there, with three dots behind it, and
/// any other stays.
pub proof fn law_long_messages_are_cut(message: &str, r: String)
    requires
        call_ensures(truncate_message, (message,), r),
    ensures
        message@.len() <= MAX_MESSAGE_CHARS ==> r@ == message@,
        message@.len() > MAX_MESSAGE_CHARS ==> r@.len() == MAX_MESSAGE_CHARS + 3
            && r@.take(MAX_MESSAGE_CHARS as int) == message@.take(MAX_MESSAGE_CHARS as int)
            && r@.skip(MAX_MESSAGE_CHARS as int) == "..."@,
{
    reveal_strlit("...");
    if message@.len() > MAX_MESSAGE_CHARS {
        let n = MAX_MESSAGE_CHARS as int;
        assert(r@.take(n) =~= message@.take(n));
        assert(r@.skip(n) =~= "..."@);
    }
}

/// A text counts without the white space around it, and not at all where nothing else is in
/// it; a failed request is reported with its provider and its status.
pub proof fn law_white_space_does_not_count(
    value: String,
    r: Option<String>,
    provider: ProviderId,
    status: u16,
    body: &str,
    envelopes: ErrorEnvelopes,
    error: ProviderError,
)
    requires
        call_ensures(non_empty, (value,), r),
        call_ensures(http_status_error, (&provider, status, body, envelopes), error),
    ensures
        r is Some <==> text::trimmed(value@).len() > 0,
        r matches Some(inner) ==> inner@ == text::trimmed(value@),
        error matches ProviderError::HttpStatus { provider: whose, status: code, .. }
            && whose.deep_view() == provider.deep_view() && code == status,
{
}

} // verus!
