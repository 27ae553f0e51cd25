//! One exchange with a provider: what is sent, and what is made of what came back.

use crate::anthropic;
use crate::anthropic::{
    messages_url, normalize_anthropic_response, AnthropicMessagesRequest, AnthropicMessagesResponse,
};
use crate::endpoint;
use crate::endpoint::{
    http_status_error, normalize_base_url_or_default, resolve_api_key_for_entry,
    validate_context, ErrorEnvelopes, ModelCatalog, ProviderType, ANTHROPIC_DEFAULT_BASE_URL,
    ANTHROPIC_VERSION, GEMINI_DEFAULT_BASE_URL, OPENAI_DEFAULT_BASE_URL,
};
use crate::gemini;
use crate::gemini::{
    generate_content_url, normalize_gemini_response, stream_generate_content_url,
    GeminiGenerateContentRequest, GeminiGenerateContentResponse,
};
use crate::model::{
    response_parse, Context, ContextModel, ProviderError, ProviderErrorModel, ProviderId, Response,
};
use crate::openai;
use crate::openai::{
    chat_completions_url, normalize_openai_response, OpenAIChatCompletionRequest,
    OpenAIChatCompletionResponse,
};
use crate::responses;
use crate::responses::{
    normalize_responses_response, responses_url, ChainingState, FailedRequest, ResponsesApiRequest,
    ResponsesApiResponse,
};
use crate::text;
use crate::text::concat;
use crate::text_map::TextMap;
use vstd::prelude::*;

verus! {

/// A provider that can be asked: who it is, whose models it has, and how it is reached.
#[derive(Debug, PartialEq, Eq)]
pub struct ProviderConnection {
    pub provider: ProviderId,
    pub catalog_provider: ProviderId,
    pub provider_type: ProviderType,
    pub api_key: String,
    pub base_url: String,
}

/// What the keys of a provider come from: its entry, the variable that the entry names,
/// the variable of the provider's kind, and the one that all providers share.
#[derive(Debug, PartialEq, Eq)]
pub struct KeySources {
    pub explicit: Option<String>,
    pub custom_env: Option<String>,
    pub provider_env: Option<String>,
    pub fallback_env: Option<String>,
}

/// The key that these sources give.
pub open spec fn key_of(sources: KeySources) -> Option<Seq<char>> {
    endpoint::api_key_of(
        sources.explicit.deep_view(),
        if sources.custom_env is Some {
            sources.custom_env.deep_view()
        } else {
            sources.provider_env.deep_view()
        },
        sources.fallback_env.deep_view(),
    )
}

/// Where a provider of that kind is reached if nothing else is configured.
pub open spec fn default_base_url(provider_type: ProviderType) -> Seq<char> {
    match provider_type {
        ProviderType::Openai => OPENAI_DEFAULT_BASE_URL@,
        ProviderType::OpenaiResponses => OPENAI_DEFAULT_BASE_URL@,
        ProviderType::Anthropic => ANTHROPIC_DEFAULT_BASE_URL@,
        ProviderType::Gemini => GEMINI_DEFAULT_BASE_URL@,
    }
}

/// Connects to a registered provider. Without a key that is an error.
pub fn build_provider(
    provider: ProviderId,
    catalog_provider: ProviderId,
    provider_type: ProviderType,
    keys: KeySources,
    base_url: Option<String>,
) -> (r: Result<ProviderConnection, ProviderError>)
    ensures
        match (r, key_of(keys)) {
            (Ok(connection), Some(key)) => {
                &&& connection.provider.deep_view() == provider.deep_view()
                &&& connection.catalog_provider.deep_view() == catalog_provider.deep_view()
                &&& connection.provider_type == provider_type
                &&& connection.api_key@ == key
                &&& connection.base_url@ == endpoint::base_url_of(
                    match base_url {
                        Some(url) => url@,
                        None => ""@,
                    },
                    default_base_url(provider_type),
                )
            },
            (Err(error), None) => error.deep_view() == (ProviderErrorModel::MissingApiKey {
                provider: provider.deep_view(),
            }),
            _ => false,
        },
{
    let key = resolve_api_key_for_entry(
        keys.explicit,
        keys.custom_env,
        keys.provider_env,
        keys.fallback_env,
    );
    let api_key = match key {
        Some(key) => key,
        None => {
            return Err(ProviderError::MissingApiKey { provider });
        },
    };
    let usual = match provider_type {
        ProviderType::Openai => OPENAI_DEFAULT_BASE_URL,
        ProviderType::OpenaiResponses => OPENAI_DEFAULT_BASE_URL,
        ProviderType::Anthropic => ANTHROPIC_DEFAULT_BASE_URL,
        ProviderType::Gemini => GEMINI_DEFAULT_BASE_URL,
    };
    let base_url = match base_url {
        Some(url) => normalize_base_url_or_default(url.as_str(), usual),
        None => normalize_base_url_or_default("", usual),
    };
    Ok(ProviderConnection { provider, catalog_provider, provider_type, api_key, base_url })
}

/// The address that a provider is asked at.
pub open spec fn url_of(connection: ProviderConnection, model: Seq<char>, stream: bool) -> Seq<
    char,
> {
    match connection.provider_type {
        ProviderType::Openai => connection.base_url@ + "/v1/chat/completions"@,
        ProviderType::OpenaiResponses => connection.base_url@ + "/v1/responses"@,
        ProviderType::Anthropic => connection.base_url@ + "/v1/messages"@,
        ProviderType::Gemini => connection.base_url@ + "/v1beta/models/"@ + model + if stream {
            ":streamGenerateContent?alt=sse"@
        } else {
            ":generateContent"@
        },
    }
}

/// The address that a provider is asked at for an answer of a model, whole or in pieces.
pub fn request_url(connection: &ProviderConnection, model: &str, stream: bool) -> (r: String)
    ensures
        r@ == url_of(*connection, model@, stream),
{
    let base_url = connection.base_url.as_str();
    match connection.provider_type {
        ProviderType::Openai => chat_completions_url(base_url),
        ProviderType::OpenaiResponses => responses_url(base_url),
        ProviderType::Anthropic => messages_url(base_url),
        ProviderType::Gemini => if stream {
            stream_generate_content_url(base_url, model)
        } else {
            generate_content_url(base_url, model)
        },
    }
}

/// The headers that show a provider who asks.
pub open spec fn key_headers(connection: ProviderConnection) -> Seq<(Seq<char>, Seq<char>)> {
    match connection.provider_type {
        ProviderType::Openai => seq![("authorization"@, "Bearer "@ + connection.api_key@)],
        ProviderType::OpenaiResponses => seq![
            ("authorization"@, "Bearer "@ + connection.api_key@),
        ],
        ProviderType::Anthropic => seq![
            ("x-api-key"@, connection.api_key@),
            ("anthropic-version"@, "2023-06-01"@),
        ],
        ProviderType::Gemini => seq![("x-goog-api-key"@, connection.api_key@)],
    }
}

fn header(name: &str, value: &str) -> (r: (String, String))
    ensures
        r.deep_view() == (name@, value@),
{
    (name.to_owned(), value.to_owned())
}

/// The headers of a request: the ones that hold the key, in the way of the provider's
/// kind, and behind them the ones that are configured.
pub fn authenticated_request(
    connection: &ProviderConnection,
    extra_headers: &TextMap<String>,
) -> (r: Vec<(String, String)>)
    ensures
        r.deep_view() == key_headers(*connection) + extra_headers.entries.deep_view(),
{
    let key = connection.api_key.as_str();
    let mut headers: Vec<(String, String)> = Vec::new();
    match connection.provider_type {
        ProviderType::Openai | ProviderType::OpenaiResponses => {
            let bearer = concat("Bearer ", key);
            headers.push(header("authorization", bearer.as_str()));
        },
        ProviderType::Anthropic => {
            headers.push(header("x-api-key", key));
            headers.push(header("anthropic-version", ANTHROPIC_VERSION));
        },
        ProviderType::Gemini => {
            headers.push(header("x-goog-api-key", key));
        },
    }
    let ghost own = key_headers(*connection);
    assert(headers.deep_view() =~= own);
    let mut i: usize = 0;
    while i < extra_headers.entries.len()
        invariant
            i <= extra_headers.entries.len(),
            headers.deep_view() == own + extra_headers.entries.deep_view().take(i as int),
        decreases extra_headers.entries.len() - i,
    {
        let entry = &extra_headers.entries[i];
        let ghost before = headers.deep_view();
        headers.push(header(entry.0.as_str(), entry.1.as_str()));
        proof {
            let extra = extra_headers.entries.deep_view();
            assert(headers.deep_view() =~= before.push(extra[i as int]));
            assert(extra.take(i + 1) =~= extra.take(i as int).push(extra[i as int]));
        }
        i += 1;
    }
    proof {
        let extra = extra_headers.entries.deep_view();
        assert(extra.take(extra.len() as int) =~= extra);
    }
    headers
}

/// Why a provider does not take up a conversation: it is meant for another one, or its
/// model is not listed.
pub open spec fn refusal(
    connection: ProviderConnection,
    catalog: ModelCatalog,
    context: ContextModel,
) -> Option<ProviderErrorModel> {
    if context.provider != connection.provider.deep_view() {
        Some(
            ProviderErrorModel::RequestFailed {
                provider: connection.provider.deep_view(),
                message: endpoint::mismatch_message(
                    context.provider,
                    connection.provider.deep_view(),
                ),
            },
        )
    } else if !catalog.lists(connection.catalog_provider.deep_view(), context.model) {
        Some(
            ProviderErrorModel::UnknownModel {
                provider: connection.catalog_provider.deep_view(),
                model: context.model,
            },
        )
    } else {
        None
    }
}

fn check(connection: &ProviderConnection, catalog: &ModelCatalog, context: &Context) -> (r: Result<
    (),
    ProviderError,
>)
    ensures
        match (r, refusal(*connection, *catalog, context.deep_view())) {
            (Ok(_), None) => true,
            (Err(error), Some(expected)) => error.deep_view() == expected,
            _ => false,
        },
{
    validate_context(
        &context.provider,
        &context.model,
        &connection.provider,
        &connection.catalog_provider,
        catalog,
    )
}

/// What is sent to OpenAI.
pub fn openai_exchange(
    connection: &ProviderConnection,
    catalog: &ModelCatalog,
    context: &Context,
    stream: bool,
) -> (r: Result<OpenAIChatCompletionRequest, ProviderError>)
    ensures
        match (r, refusal(*connection, *catalog, context.deep_view())) {
            (Ok(request), None) => request.deep_view() == openai::openai_request(
                context.deep_view(),
                stream,
            ),
            (Err(error), Some(expected)) => error.deep_view() == expected,
            _ => false,
        },
{
    match check(connection, catalog, context) {
        Ok(()) => Ok(OpenAIChatCompletionRequest::from_context_with_stream(context, stream)),
        Err(error) => Err(error),
    }
}

/// What is sent to Anthropic.
pub fn anthropic_exchange(
    connection: &ProviderConnection,
    catalog: &ModelCatalog,
    context: &Context,
    max_tokens: u32,
    stream: bool,
) -> (r: Result<AnthropicMessagesRequest, ProviderError>)
    ensures
        match refusal(*connection, *catalog, context.deep_view()) {
            Some(expected) => r matches Err(error) && error.deep_view() == expected,
            None => match (
                r,
                anthropic::anthropic_request(context.deep_view(), max_tokens, stream),
            ) {
                (Ok(request), Ok(expected)) => request.deep_view() == expected,
                (Err(error), Err(message)) => error.deep_view() == (
                ProviderErrorModel::RequestFailed {
                    provider: context.deep_view().provider,
                    message,
                }),
                _ => false,
            },
        },
{
    match check(connection, catalog, context) {
        Ok(()) => AnthropicMessagesRequest::from_context_with_stream(context, max_tokens, stream),
        Err(error) => Err(error),
    }
}

/// What is sent to Gemini. `attachments` tells what came of checking the attachments of
/// the conversation against what the model takes, which counts once the provider and the
/// model are right.
pub fn gemini_exchange(
    connection: &ProviderConnection,
    catalog: &ModelCatalog,
    context: &Context,
    attachments: Result<(), ProviderError>,
) -> (r: Result<GeminiGenerateContentRequest, ProviderError>)
    ensures
        ({
            let messages = context.deep_view().messages;
            match (refusal(*connection, *catalog, context.deep_view()), attachments) {
                (Some(expected), _) => r matches Err(error) && error.deep_view() == expected,
                (None, Err(expected)) => r matches Err(error) && error == expected,
                (None, Ok(())) => if gemini::turns_of(messages, messages).len() > 0 {
                    r matches Ok(request) && request.deep_view() == gemini::gemini_request(
                        context.deep_view(),
                    )
                } else {
                    r matches Err(error) && error.deep_view() == (
                    ProviderErrorModel::RequestFailed {
                        provider: context.deep_view().provider,
                        message: "Gemini request requires at least one non-system message"@,
                    })
                },
            }
        }),
{
    match check(connection, catalog, context) {
        Ok(()) => match attachments {
            Ok(()) => GeminiGenerateContentRequest::from_context(context),
            Err(error) => Err(error),
        },
        Err(error) => Err(error),
    }
}

/// What is sent to the Responses API: what the answer that it builds on has not seen.
pub fn responses_exchange(
    connection: &ProviderConnection,
    catalog: &ModelCatalog,
    context: &Context,
    chaining: &ChainingState,
) -> (r: Result<ResponsesApiRequest, ProviderError>)
    ensures
        match (r, refusal(*connection, *catalog, context.deep_view())) {
            (Ok(request), None) => request.deep_view() == responses::responses_request(
                context.deep_view(),
                chaining.previous_response_id.deep_view(),
                chaining.last_input_count as nat,
            ),
            (Err(error), Some(expected)) => error.deep_view() == expected,
            _ => false,
        },
{
    match check(connection, catalog, context) {
        Ok(()) => Ok(chaining.build_request(context)),
        Err(error) => Err(error),
    }
}

/// What came of sending a request.
#[derive(Debug, PartialEq, Eq)]
pub enum HttpOutcome<T> {
    /// The request did not get there.
    Unreachable(String),
    /// The status says that the request failed. With it come the text of the answer, and
    /// what that text says in the forms that the providers give their errors in.
    Refused { status: u16, body: String, envelopes: ErrorEnvelopes },
    /// The answer cannot be read.
    Unreadable(String),
    Answered(T),
}

/// The text of an answer that says what failed, or why even that cannot be read.
pub fn error_body(body: Result<String, String>) -> (r: String)
    ensures
        r@ == match body {
            Ok(text) => text@,
            Err(error) => "unable to read error body: "@ + error@,
        },
{
    match body {
        Ok(text) => text,
        Err(error) => concat("unable to read error body: ", error.as_str()),
    }
}

/// The error that an exchange without an answer ends with.
pub open spec fn failure_of<T>(outcome: HttpOutcome<T>, provider: Seq<char>) -> Option<
    ProviderErrorModel,
> {
    match outcome {
        HttpOutcome::Unreachable(message) => Some(
            ProviderErrorModel::Transport { provider, message: message@ },
        ),
        HttpOutcome::Refused { status, body, envelopes } => Some(
            ProviderErrorModel::HttpStatus {
                provider,
                status,
                message: endpoint::error_message_of(
                    body@,
                    envelopes.openai.deep_view(),
                    envelopes.anthropic_error.deep_view(),
                    envelopes.anthropic.deep_view(),
                    envelopes.gemini.deep_view(),
                ),
            },
        ),
        HttpOutcome::Unreadable(message) => Some(
            ProviderErrorModel::ResponseParse { provider, message: message@ },
        ),
        HttpOutcome::Answered(_) => None,
    }
}

/// The answer of an exchange, or the error that it ends with.
pub fn answer_of<T>(outcome: HttpOutcome<T>, provider: &ProviderId) -> (r: Result<
    T,
    ProviderError,
>)
    ensures
        match (r, failure_of(outcome, provider.deep_view())) {
            (Ok(answer), None) => outcome == HttpOutcome::Answered(answer),
            (Err(error), Some(expected)) => error.deep_view() == expected,
            _ => false,
        },
{
    match outcome {
        HttpOutcome::Unreachable(message) => Err(
            ProviderError::Transport { provider: provider.clone(), message },
        ),
        HttpOutcome::Refused { status, body, envelopes } => Err(
            http_status_error(provider, status, body.as_str(), envelopes),
        ),
        HttpOutcome::Unreadable(message) => Err(response_parse(provider, message)),
        HttpOutcome::Answered(answer) => Ok(answer),
    }
}

/// What comes of asking OpenAI.
pub fn openai_completion(
    outcome: HttpOutcome<OpenAIChatCompletionResponse>,
    provider: &ProviderId,
) -> (r: Result<Response, ProviderError>)
    ensures
        match failure_of(outcome, provider.deep_view()) {
            Some(expected) => r matches Err(error) && error.deep_view() == expected,
            None => match (
                r,
                openai::openai_answer(
                    outcome->Answered_0.choices.deep_view(),
                    outcome->Answered_0.usage,
                ),
            ) {
                (Ok(answer), Ok(expected)) => answer.deep_view() == expected,
                (Err(error), Err(message)) => error.deep_view() == (
                ProviderErrorModel::ResponseParse { provider: provider.deep_view(), message }),
                _ => false,
            },
        },
{
    match answer_of(outcome, provider) {
        Ok(answer) => normalize_openai_response(answer, provider),
        Err(error) => Err(error),
    }
}

/// What comes of asking Anthropic.
pub fn anthropic_completion(
    outcome: HttpOutcome<AnthropicMessagesResponse>,
    provider: &ProviderId,
) -> (r: Result<Response, ProviderError>)
    ensures
        match failure_of(outcome, provider.deep_view()) {
            Some(expected) => r matches Err(error) && error.deep_view() == expected,
            None => match (
                r,
                anthropic::anthropic_answer(
                    outcome->Answered_0.role@,
                    outcome->Answered_0.content.deep_view(),
                    outcome->Answered_0.stop_reason.deep_view(),
                    outcome->Answered_0.usage,
                ),
            ) {
                (Ok(answer), Ok(expected)) => answer.deep_view() == expected,
                (Err(error), Err(message)) => error.deep_view() == (
                ProviderErrorModel::ResponseParse { provider: provider.deep_view(), message }),
                _ => false,
            },
        },
{
    match answer_of(outcome, provider) {
        Ok(answer) => normalize_anthropic_response(answer, provider),
        Err(error) => Err(error),
    }
}

/// What comes of asking Gemini. Each tool call of the answer gets a fresh identity.
pub fn gemini_completion(
    outcome: HttpOutcome<GeminiGenerateContentResponse>,
    provider: &ProviderId,
) -> (r: Result<Response, ProviderError>)
    ensures
        match failure_of(outcome, provider.deep_view()) {
            Some(expected) => r matches Err(error) && error.deep_view() == expected,
            None => exists|ids: Seq<Seq<char>>| #[trigger]
                gemini::answers_with_ids(
                    outcome->Answered_0.deep_view(),
                    provider.deep_view(),
                    ids,
                    r,
                ),
        },
{
    match answer_of(outcome, provider) {
        Ok(answer) => {
            let ghost model = answer.deep_view();
            let result = normalize_gemini_response(answer, provider);
            proof {
                let ids = choose|ids: Seq<Seq<char>>| #[trigger]
                    gemini::answers_with_ids(model, provider.deep_view(), ids, result);
                assert(outcome->Answered_0.deep_view() == model);
                assert(gemini::answers_with_ids(
                    outcome->Answered_0.deep_view(),
                    provider.deep_view(),
                    ids,
                    result,
                ));
            }
            result
        },
        Err(error) => Err(error),
    }
}

/// A failure that is met by sending the whole conversation: the request built on an
/// earlier answer, and the service found a fault in it.
pub open spec fn is_sent_again<T>(outcome: HttpOutcome<T>, attempted_with_chaining: bool) -> bool {
    attempted_with_chaining && (outcome matches HttpOutcome::Refused { status, .. } && 400 <= status
        < 500)
}

/// What to do next with a question to the Responses API.
#[derive(Debug, PartialEq)]
pub enum ResponsesTurn<T> {
    /// Send this instead, which builds on nothing.
    SendAgain(ResponsesApiRequest),
    Return(Result<T, ProviderError>),
}

/// The service's answer to a question, the question to be sent again, or the error that
/// ends it.
pub fn responses_turn<T>(
    chaining: &mut ChainingState,
    context: &Context,
    attempted_with_chaining: bool,
    outcome: HttpOutcome<T>,
    provider: &ProviderId,
) -> (r: ResponsesTurn<T>)
    ensures
        if is_sent_again(outcome, attempted_with_chaining) {
            &&& r matches ResponsesTurn::SendAgain(request) && request.deep_view()
                == responses::responses_request(context.deep_view(), None, 0)
            &&& final(chaining).previous_response_id is None
            &&& final(chaining).last_input_count == 0
        } else {
            &&& *final(chaining) == *old(chaining)
            &&& match (r, failure_of(outcome, provider.deep_view())) {
                (ResponsesTurn::Return(Ok(answer)), None) => outcome == HttpOutcome::Answered(
                    answer,
                ),
                (ResponsesTurn::Return(Err(error)), Some(expected)) => error.deep_view()
                    == expected,
                _ => false,
            }
        },
{
    let refused = match &outcome {
        HttpOutcome::Refused { status, .. } => Some(*status),
        _ => None,
    };
    if let Some(status) = refused {
        match chaining.after_failure(attempted_with_chaining, status) {
            FailedRequest::StartOver => {
                return ResponsesTurn::SendAgain(
                    ResponsesApiRequest::from_context(context, None, 0),
                );
            },
            FailedRequest::GiveUp => {},
        }
    }
    ResponsesTurn::Return(answer_of(outcome, provider))
}

/// What comes of asking the Responses API. A complete answer is what the next question
/// builds on.
pub fn responses_completion(
    chaining: &mut ChainingState,
    context: &Context,
    attempted_with_chaining: bool,
    outcome: HttpOutcome<ResponsesApiResponse>,
    provider: &ProviderId,
) -> (r: ResponsesTurn<Response>)
    ensures
        if is_sent_again(outcome, attempted_with_chaining) {
            &&& r matches ResponsesTurn::SendAgain(request) && request.deep_view()
                == responses::responses_request(context.deep_view(), None, 0)
            &&& final(chaining).previous_response_id is None
            &&& final(chaining).last_input_count == 0
        } else {
            match failure_of(outcome, provider.deep_view()) {
                Some(expected) => {
                    &&& r matches ResponsesTurn::Return(Err(error)) && error.deep_view()
                        == expected
                    &&& *final(chaining) == *old(chaining)
                },
                None => match (
                    r,
                    responses::responses_answer(
                        outcome->Answered_0.id.deep_view(),
                        outcome->Answered_0.output.deep_view(),
                        outcome->Answered_0.status.deep_view(),
                        outcome->Answered_0.usage,
                    ),
                ) {
                    (ResponsesTurn::Return(Ok(answer)), Ok(expected)) => {
                        &&& answer.deep_view() == expected.response
                        &&& match expected.response_id {
                            Some(id) => {
                                &&& final(chaining).previous_response_id.deep_view() == Some(id)
                                &&& final(chaining).last_input_count == context.messages@.len()
                            },
                            None => *final(chaining) == *old(chaining),
                        }
                    },
                    (ResponsesTurn::Return(Err(error)), Err(message)) => {
                        &&& error.deep_view() == (ProviderErrorModel::ResponseParse {
                            provider: provider.deep_view(),
                            message,
                        })
                        &&& *final(chaining) == *old(chaining)
                    },
                    _ => false,
                },
            }
        },
{
    match responses_turn(chaining, context, attempted_with_chaining, outcome, provider) {
        ResponsesTurn::SendAgain(request) => ResponsesTurn::SendAgain(request),
        ResponsesTurn::Return(Err(error)) => ResponsesTurn::Return(Err(error)),
        ResponsesTurn::Return(Ok(answer)) => match normalize_responses_response(answer, provider) {
            Ok(normalized) => {
                if let Some(id) = normalized.response_id {
                    chaining.update_chaining_state(id, context.messages.len());
                }
                ResponsesTurn::Return(Ok(normalized.response))
            },
            Err(error) => ResponsesTurn::Return(Err(error)),
        },
    }
}

/// A conversation is sent again at most once: what is sent the second time builds on
/// nothing, and a failure of that is handed on.
pub proof fn law_conversation_is_sent_again_once<T>(
    context: ContextModel,
    outcome: HttpOutcome<T>,
)
    ensures
        responses::responses_request(context, None, 0).previous_response_id is None,
        !is_sent_again(outcome, false),
{
}

/// A provider is connected to exactly where one of its sources holds a key, with the key
/// that they give: under its own name, for its kind, at the address that is configured for
/// it or else at that of its kind.
pub proof fn law_connection_holds_what_was_configured(
    provider: ProviderId,
    catalog_provider: ProviderId,
    provider_type: ProviderType,
    keys: KeySources,
    base_url: Option<String>,
    r: Result<ProviderConnection, ProviderError>,
    key: Option<String>,
)
    requires
        call_ensures(
            build_provider,
            (provider, catalog_provider, provider_type, keys, base_url),
            r,
        ),
        call_ensures(
            resolve_api_key_for_entry,
            (keys.explicit, keys.custom_env, keys.provider_env, keys.fallback_env),
            key,
        ),
    ensures
        r is Ok <==> key is Some,
        r matches Ok(connection) ==> {
            let configured = base_url matches Some(url) && text::trimmed(url@).len() > 0;
            &&& connection.provider.0@ == provider.0@
            &&& connection.catalog_provider.0@ == catalog_provider.0@
            &&& connection.provider_type == provider_type
            &&& connection.api_key@ == key->0@
            &&& configured ==> connection.base_url@ == text::without_trailing(
                text::trimmed(base_url->0@),
                '/',
            )
            &&& !configured ==> connection.base_url@ == match provider_type {
                ProviderType::Openai => "https://api.openai.com"@,
                ProviderType::OpenaiResponses => "https://api.openai.com"@,
                ProviderType::Anthropic => "https://api.anthropic.com"@,
                ProviderType::Gemini => "https://generativelanguage.googleapis.com"@,
            }
        },
        r matches Err(error) ==> (error matches ProviderError::MissingApiKey { provider: named }
            && named.0@ == provider.0@),
{
    reveal_strlit("");
    assert(text::trimmed(""@).len() == 0) by {
        let ends = text::law_trimming_takes_white_space(""@);
    }
}

/// Every request goes to an address under the connection's base: the same for whole and
/// streamed answers, but for Gemini, whose addresses name the model and how it answers.
pub proof fn law_requests_go_to_the_connection(
    connection: ProviderConnection,
    model: &str,
    whole: String,
    streamed: String,
)
    requires
        call_ensures(request_url, (&connection, model, false), whole),
        call_ensures(request_url, (&connection, model, true), streamed),
    ensures
        connection.base_url@.is_prefix_of(whole@),
        connection.base_url@.is_prefix_of(streamed@),
        whole@.skip(connection.base_url@.len() as int) == match connection.provider_type {
            ProviderType::Openai => "/v1/chat/completions"@,
            ProviderType::OpenaiResponses => "/v1/responses"@,
            ProviderType::Anthropic => "/v1/messages"@,
            ProviderType::Gemini => "/v1beta/models/"@ + model@ + ":generateContent"@,
        },
        connection.provider_type != ProviderType::Gemini ==> whole@ == streamed@,
        connection.provider_type == ProviderType::Gemini ==> streamed@.skip(
            connection.base_url@.len() as int,
        ) == "/v1beta/models/"@ + model@ + ":streamGenerateContent?alt=sse"@,
{
    let base = connection.base_url@;
    let size = base.len() as int;
    assert(base =~= whole@.subrange(0, size));
    assert(base =~= streamed@.subrange(0, size));
    match connection.provider_type {
        ProviderType::Openai => {
            assert(whole@.skip(size) =~= "/v1/chat/completions"@);
        },
        ProviderType::OpenaiResponses => {
            assert(whole@.skip(size) =~= "/v1/responses"@);
        },
        ProviderType::Anthropic => {
            assert(whole@.skip(size) =~= "/v1/messages"@);
        },
        ProviderType::Gemini => {
            assert(whole@.skip(size) =~= "/v1beta/models/"@ + model@ + ":generateContent"@);
            assert(streamed@.skip(size) =~= "/v1beta/models/"@ + model@
                + ":streamGenerateContent?alt=sse"@);
        },
    }
}

/// Every request shows the key of its connection, in the header that its provider looks
/// for, and carries all headers that are configured, in their order, behind that.
pub proof fn law_requests_show_the_key(
    connection: ProviderConnection,
    extra: TextMap<String>,
    headers: Vec<(String, String)>,
    i: int,
)
    requires
        call_ensures(authenticated_request, (&connection, &extra), headers),
    ensures
        headers@.len() >= 1 + extra.entries@.len(),
        match connection.provider_type {
            ProviderType::Openai => headers@[0].0@ == "authorization"@ && headers@[0].1@
                == "Bearer "@ + connection.api_key@ && headers@.len() == 1 + extra.entries@.len(),
            ProviderType::OpenaiResponses => headers@[0].0@ == "authorization"@ && headers@[0].1@
                == "Bearer "@ + connection.api_key@ && headers@.len() == 1 + extra.entries@.len(),
            ProviderType::Anthropic => headers@[0].0@ == "x-api-key"@ && headers@[0].1@
                == connection.api_key@ && headers@[1].0@ == "anthropic-version"@ && headers@[1].1@
                == "2023-06-01"@ && headers@.len() == 2 + extra.entries@.len(),
            ProviderType::Gemini => headers@[0].0@ == "x-goog-api-key"@ && headers@[0].1@
                == connection.api_key@ && headers@.len() == 1 + extra.entries@.len(),
        },
        0 <= i < extra.entries@.len() ==> {
            let at = headers@.len() - extra.entries@.len() + i;
            &&& headers@[at].0@ == extra.entries@[i].0@
            &&& headers@[at].1@ == extra.entries@[i].1@
        },
{
    let list = headers.deep_view();
    assert(list.len() == headers@.len());
    assert(extra.entries.deep_view().len() == extra.entries@.len());
    assert(list[0] == headers@[0].deep_view());
    if connection.provider_type == ProviderType::Anthropic {
        assert(list[1] == headers@[1].deep_view());
    }
    if 0 <= i < extra.entries@.len() {
        let at = headers@.len() - extra.entries@.len() + i;
        assert(list[at] == headers@[at].deep_view());
        assert(extra.entries.deep_view()[i] == extra.entries@[i].deep_view());
    }
}

/// A provider is asked exactly where the conversation is meant for it and its catalog
/// lists the model, and is then sent the request that the conversation becomes; otherwise
/// it is not asked, whatever its kind.
pub proof fn law_only_the_right_provider_is_asked(
    connection: ProviderConnection,
    catalog: ModelCatalog,
    context: Context,
    stream: bool,
    max_tokens: u32,
    chaining: ChainingState,
    allowed: Result<(), ProviderError>,
    openai: (Result<OpenAIChatCompletionRequest, ProviderError>, OpenAIChatCompletionRequest),
    anthropic: (
        Result<AnthropicMessagesRequest, ProviderError>,
        Result<AnthropicMessagesRequest, ProviderError>,
    ),
    responses: (Result<ResponsesApiRequest, ProviderError>, ResponsesApiRequest),
)
    requires
        call_ensures(
            validate_context,
            (
                &context.provider,
                &context.model,
                &connection.provider,
                &connection.catalog_provider,
                &catalog,
            ),
            allowed,
        ),
        call_ensures(openai_exchange, (&connection, &catalog, &context, stream), openai.0),
        call_ensures(
            OpenAIChatCompletionRequest::from_context_with_stream,
            (&context, stream),
            openai.1,
        ),
        call_ensures(
            anthropic_exchange,
            (&connection, &catalog, &context, max_tokens, stream),
            anthropic.0,
        ),
        call_ensures(
            AnthropicMessagesRequest::from_context_with_stream,
            (&context, max_tokens, stream),
            anthropic.1,
        ),
        call_ensures(
            responses_exchange,
            (&connection, &catalog, &context, &chaining),
            responses.0,
        ),
        call_ensures(ChainingState::build_request, (&chaining, &context), responses.1),
    ensures
        allowed is Ok ==> {
            &&& openai.0 matches Ok(sent) && sent.deep_view() == openai.1.deep_view()
            &&& anthropic.0 is Ok <==> anthropic.1 is Ok
            &&& anthropic.0 is Ok ==> anthropic.0->Ok_0.deep_view() == anthropic.1->Ok_0.deep_view()
            &&& responses.0 matches Ok(sent) && sent.deep_view() == responses.1.deep_view()
        },
        allowed matches Err(refused) ==> {
            &&& openai.0 matches Err(error) && error.deep_view() == refused.deep_view()
            &&& anthropic.0 matches Err(error) && error.deep_view() == refused.deep_view()
            &&& responses.0 matches Err(error) && error.deep_view() == refused.deep_view()
        },
{
}

/// Gemini is asked where the conversation is meant for it, its catalog lists the model and
/// the attachments suit that, and is then sent the request that the conversation becomes.
pub proof fn law_gemini_is_asked_what_it_takes(
    connection: ProviderConnection,
    catalog: ModelCatalog,
    context: Context,
    attachments: Result<(), ProviderError>,
    allowed: Result<(), ProviderError>,
    sent: Result<GeminiGenerateContentRequest, ProviderError>,
    plain: Result<GeminiGenerateContentRequest, ProviderError>,
)
    requires
        call_ensures(
            validate_context,
            (
                &context.provider,
                &context.model,
                &connection.provider,
                &connection.catalog_provider,
                &catalog,
            ),
            allowed,
        ),
        call_ensures(gemini_exchange, (&connection, &catalog, &context, attachments), sent),
        call_ensures(GeminiGenerateContentRequest::from_context, (&context,), plain),
    ensures
        allowed matches Err(refused) ==> (sent matches Err(error) && error.deep_view()
            == refused.deep_view()),
        allowed is Ok ==> (attachments matches Err(refused) ==> sent == Err::<
            GeminiGenerateContentRequest,
            ProviderError,
        >(refused)),
        allowed is Ok && attachments is Ok ==> (sent is Ok <==> plain is Ok) && (sent is Ok
            ==> sent->Ok_0.deep_view() == plain->Ok_0.deep_view()),
{
}

/// An exchange that brought no answer ends with an error that names its provider: one
/// that did not get there with what the transport says, one that was refused with its
/// status, and one that cannot be read with what the parser says.
pub proof fn law_failed_exchanges_say_why<T>(
    outcome: HttpOutcome<T>,
    provider: ProviderId,
    r: Result<T, ProviderError>,
)
    requires
        call_ensures(answer_of::<T>, (outcome, &provider), r),
    ensures
        match outcome {
            HttpOutcome::Unreachable(message) => r matches Err(ProviderError::Transport {
                provider: named,
                message: told,
            }) && named.0@ == provider.0@ && told@ == message@,
            HttpOutcome::Refused { status, .. } => r matches Err(ProviderError::HttpStatus {
                provider: named,
                status: told,
                ..
            }) && named.0@ == provider.0@ && told == status,
            HttpOutcome::Unreadable(message) => r matches Err(ProviderError::ResponseParse {
                provider: named,
                message: told,
            }) && named.0@ == provider.0@ && told@ == message@,
            HttpOutcome::Answered(answer) => r == Ok::<T, ProviderError>(answer),
        },
{
}

/// What a provider answers is read as its kind is read, and nothing else comes of asking
/// it.
pub proof fn law_answers_are_read_by_kind(
    openai: OpenAIChatCompletionResponse,
    anthropic: AnthropicMessagesResponse,
    provider: ProviderId,
    completions: (Result<Response, ProviderError>, Result<Response, ProviderError>),
    readings: (Result<Response, ProviderError>, Result<Response, ProviderError>),
)
    requires
        call_ensures(
            openai_completion,
            (HttpOutcome::Answered(openai), &provider),
            completions.0,
        ),
        call_ensures(normalize_openai_response, (openai, &provider), readings.0),
        call_ensures(
            anthropic_completion,
            (HttpOutcome::Answered(anthropic), &provider),
            completions.1,
        ),
        call_ensures(normalize_anthropic_response, (anthropic, &provider), readings.1),
    ensures
        completions.0 is Ok <==> readings.0 is Ok,
        completions.0 is Ok ==> completions.0->Ok_0.deep_view() == readings.0->Ok_0.deep_view(),
        completions.0 is Err ==> completions.0->Err_0.deep_view()
            == readings.0->Err_0.deep_view(),
        completions.1 is Ok <==> readings.1 is Ok,
        completions.1 is Ok ==> completions.1->Ok_0.deep_view() == readings.1->Ok_0.deep_view(),
        completions.1 is Err ==> completions.1->Err_0.deep_view()
            == readings.1->Err_0.deep_view(),
{
}

/// A conversation whose request was refused because of the answer that it builds on is
/// sent again as it is from the start, and that answer is forgotten. Any other refusal is
/// handed on, and an answer is remembered with the messages that it has seen.
pub proof fn law_refused_chains_start_over(
    chaining: &mut ChainingState,
    context: Context,
    attempted_with_chaining: bool,
    outcome: HttpOutcome<ResponsesApiResponse>,
    provider: ProviderId,
    turn: ResponsesTurn<Response>,
    fresh: ResponsesApiRequest,
)
    requires
        call_ensures(
            responses_completion,
            (chaining, &context, attempted_with_chaining, outcome, &provider),
            turn,
        ),
        call_ensures(
            ResponsesApiRequest::from_context,
            (&context, None::<String>, 0usize),
            fresh,
        ),
    ensures
        outcome matches HttpOutcome::Refused { status, .. } ==> {
            &&& attempted_with_chaining && 400 <= status < 500 ==> (
            turn matches ResponsesTurn::SendAgain(request) && request.deep_view()
                == fresh.deep_view()) && final(chaining).previous_response_id is None && final(chaining).last_input_count == 0
            &&& !(attempted_with_chaining && 400 <= status < 500) ==> (
            turn matches ResponsesTurn::Return(Err(ProviderError::HttpStatus {
                status: told,
                ..
            })) && told == status) && *final(chaining) == *old(chaining)
        },
        outcome matches HttpOutcome::Answered(answer) ==> {
            &&& turn is Return
            &&& turn->Return_0 is Ok <==> answer.output@.len() > 0
            &&& answer.output@.len() > 0 ==> (answer.id matches Some(id) ==> (final(chaining).previous_response_id matches Some(kept) && kept@ == id@) && final(chaining).last_input_count == context.messages@.len())
            &&& answer.output@.len() == 0 || answer.id is None ==> *final(chaining) == *old(chaining)
        },
{
    if let HttpOutcome::Answered(answer) = outcome {
        assert(answer.output.deep_view().len() == answer.output@.len());
    }
}

} // verus!
