//! Conversations with a model: what is asked, what comes back, and what goes wrong.

use crate::json::{Json, JsonTree};
use crate::schema::{FunctionDecl, FunctionDeclModel};
use crate::text;
use crate::text::{concat3, concat4, concat5, decimal_text};
use vstd::prelude::*;

verus! {

/// The name under which a provider is registered.
#[derive(Debug, PartialEq, Eq)]
pub struct ProviderId(pub String);

impl DeepView for ProviderId {
    type V = Seq<char>;

    open spec fn deep_view(&self) -> Seq<char> {
        self.0@
    }
}

impl Clone for ProviderId {
    fn clone(&self) -> (r: Self)
        ensures
            r.deep_view() == self.deep_view(),
    {
        ProviderId(self.0.clone())
    }
}

impl ProviderId {
    pub fn new(name: &str) -> (r: Self)
        ensures
            r.deep_view() == name@,
    {
        ProviderId(name.to_owned())
    }
}

/// The name of a model.
#[derive(Debug, PartialEq, Eq)]
pub struct ModelId(pub String);

impl DeepView for ModelId {
    type V = Seq<char>;

    open spec fn deep_view(&self) -> Seq<char> {
        self.0@
    }
}

impl Clone for ModelId {
    fn clone(&self) -> (r: Self)
        ensures
            r.deep_view() == self.deep_view(),
    {
        ModelId(self.0.clone())
    }
}

impl ModelId {
    pub fn new(name: &str) -> (r: Self)
        ensures
            r.deep_view() == name@,
    {
        ModelId(name.to_owned())
    }
}

/// Who speaks in a message.
#[derive(Debug, Clone, Copy, PartialEq, Eq, Structural)]
pub enum MessageRole {
    System,
    User,
    Assistant,
    Tool,
}

/// A request of the model to run a tool.
#[derive(Debug, PartialEq)]
pub struct ToolCall {
    pub id: String,
    pub name: String,
    pub arguments: Json,
    pub metadata: Option<Json>,
}

/// The model of a [`ToolCall`].
pub struct ToolCallModel {
    pub id: Seq<char>,
    pub name: Seq<char>,
    pub arguments: JsonTree,
    pub metadata: Option<JsonTree>,
}

impl DeepView for ToolCall {
    type V = ToolCallModel;

    open spec fn deep_view(&self) -> ToolCallModel {
        ToolCallModel {
            id: self.id@,
            name: self.name@,
            arguments: self.arguments.deep_view(),
            metadata: self.metadata.deep_view(),
        }
    }
}

impl Clone for ToolCall {
    fn clone(&self) -> (r: Self)
        ensures
            r.deep_view() == self.deep_view(),
    {
        ToolCall {
            id: self.id.clone(),
            name: self.name.clone(),
            arguments: self.arguments.clone(),
            metadata: self.metadata.clone(),
        }
    }
}

/// A copy of a list of tool calls.
pub fn clone_tool_calls(calls: &Vec<ToolCall>) -> (r: Vec<ToolCall>)
    ensures
        r.deep_view() == calls.deep_view(),
{
    let r = calls.clone();
    assert(r.deep_view() =~= calls.deep_view());
    r
}

/// A file that travels inside a message.
#[derive(Debug, PartialEq, Eq)]
pub struct InlineMedia {
    pub mime_type: String,
    pub data: Vec<u8>,
}

/// The model of an [`InlineMedia`].
pub struct InlineMediaModel {
    pub mime_type: Seq<char>,
    pub data: Seq<u8>,
}

impl DeepView for InlineMedia {
    type V = InlineMediaModel;

    open spec fn deep_view(&self) -> InlineMediaModel {
        InlineMediaModel { mime_type: self.mime_type@, data: self.data@ }
    }
}

/// One turn of a conversation.
#[derive(Debug, PartialEq)]
pub struct Message {
    pub role: MessageRole,
    pub content: Option<String>,
    pub tool_calls: Vec<ToolCall>,
    pub tool_call_id: Option<String>,
    pub attachments: Vec<InlineMedia>,
}

/// The model of a [`Message`].
pub struct MessageModel {
    pub role: MessageRole,
    pub content: Option<Seq<char>>,
    pub tool_calls: Seq<ToolCallModel>,
    pub tool_call_id: Option<Seq<char>>,
    pub attachments: Seq<InlineMediaModel>,
}

impl DeepView for Message {
    type V = MessageModel;

    open spec fn deep_view(&self) -> MessageModel {
        MessageModel {
            role: self.role,
            content: self.content.deep_view(),
            tool_calls: self.tool_calls.deep_view(),
            tool_call_id: self.tool_call_id.deep_view(),
            attachments: self.attachments.deep_view(),
        }
    }
}

impl Message {
    /// It says something other than white space.
    pub open spec fn speaks(self) -> bool {
        self.content matches Some(content) && text::trimmed(content@).len() > 0
    }
}

/// A conversation, and whom it is for.
#[derive(Debug, PartialEq)]
pub struct Context {
    pub provider: ProviderId,
    pub model: ModelId,
    pub tools: Vec<FunctionDecl>,
    pub messages: Vec<Message>,
}

/// The model of a [`Context`].
pub struct ContextModel {
    pub provider: Seq<char>,
    pub model: Seq<char>,
    pub tools: Seq<FunctionDeclModel>,
    pub messages: Seq<MessageModel>,
}

impl DeepView for Context {
    type V = ContextModel;

    open spec fn deep_view(&self) -> ContextModel {
        ContextModel {
            provider: self.provider.deep_view(),
            model: self.model.deep_view(),
            tools: self.tools.deep_view(),
            messages: self.messages.deep_view(),
        }
    }
}

/// Token counts, as far as a provider reports them.
#[derive(Debug, Clone, Copy, PartialEq, Eq)]
pub struct UsageUpdate {
    pub prompt_tokens: Option<u64>,
    pub completion_tokens: Option<u64>,
    pub total_tokens: Option<u64>,
}

/// A complete answer.
#[derive(Debug, PartialEq)]
pub struct Response {
    pub message: Message,
    pub tool_calls: Vec<ToolCall>,
    pub finish_reason: Option<String>,
    pub usage: Option<UsageUpdate>,
}

/// The model of a [`Response`].
pub struct ResponseModel {
    pub message: MessageModel,
    pub tool_calls: Seq<ToolCallModel>,
    pub finish_reason: Option<Seq<char>>,
    pub usage: Option<UsageUpdate>,
}

impl DeepView for Response {
    type V = ResponseModel;

    open spec fn deep_view(&self) -> ResponseModel {
        ResponseModel {
            message: self.message.deep_view(),
            tool_calls: self.tool_calls.deep_view(),
            finish_reason: self.finish_reason.deep_view(),
            usage: self.usage,
        }
    }
}

/// What is newly known of a tool call while an answer streams in.
#[derive(Debug, PartialEq)]
pub struct ToolCallDelta {
    pub index: usize,
    pub id: Option<String>,
    pub name: Option<String>,
    pub arguments: Option<String>,
    pub metadata: Option<Json>,
}

/// The model of a [`ToolCallDelta`].
pub struct ToolCallDeltaModel {
    pub index: usize,
    pub id: Option<Seq<char>>,
    pub name: Option<Seq<char>>,
    pub arguments: Option<Seq<char>>,
    pub metadata: Option<JsonTree>,
}

impl DeepView for ToolCallDelta {
    type V = ToolCallDeltaModel;

    open spec fn deep_view(&self) -> ToolCallDeltaModel {
        ToolCallDeltaModel {
            index: self.index,
            id: self.id.deep_view(),
            name: self.name.deep_view(),
            arguments: self.arguments.deep_view(),
            metadata: self.metadata.deep_view(),
        }
    }
}

/// One piece of an answer that streams in.
#[derive(Debug, PartialEq)]
pub enum StreamItem {
    Text(String),
    ToolCallDelta(ToolCallDelta),
    ReasoningDelta(String),
    UsageUpdate(UsageUpdate),
    ConnectionLost(String),
    FinishReason(String),
}

/// The model of a [`StreamItem`].
pub enum StreamItemModel {
    Text(Seq<char>),
    ToolCallDelta(ToolCallDeltaModel),
    ReasoningDelta(Seq<char>),
    UsageUpdate(UsageUpdate),
    ConnectionLost(Seq<char>),
    FinishReason(Seq<char>),
}

impl DeepView for StreamItem {
    type V = StreamItemModel;

    open spec fn deep_view(&self) -> StreamItemModel {
        match *self {
            StreamItem::Text(text) => StreamItemModel::Text(text@),
            StreamItem::ToolCallDelta(delta) => StreamItemModel::ToolCallDelta(delta.deep_view()),
            StreamItem::ReasoningDelta(text) => StreamItemModel::ReasoningDelta(text@),
            StreamItem::UsageUpdate(usage) => StreamItemModel::UsageUpdate(usage),
            StreamItem::ConnectionLost(text) => StreamItemModel::ConnectionLost(text@),
            StreamItem::FinishReason(text) => StreamItemModel::FinishReason(text@),
        }
    }
}

/// Why a call to a provider failed.
#[derive(Debug, PartialEq, Eq)]
pub enum ProviderError {
    MissingApiKey { provider: ProviderId },
    UnknownModel { provider: ProviderId, model: ModelId },
    RequestFailed { provider: ProviderId, message: String },
    Transport { provider: ProviderId, message: String },
    HttpStatus { provider: ProviderId, status: u16, message: String },
    ResponseParse { provider: ProviderId, message: String },
}

/// The model of a [`ProviderError`].
pub enum ProviderErrorModel {
    MissingApiKey { provider: Seq<char> },
    UnknownModel { provider: Seq<char>, model: Seq<char> },
    RequestFailed { provider: Seq<char>, message: Seq<char> },
    Transport { provider: Seq<char>, message: Seq<char> },
    HttpStatus { provider: Seq<char>, status: u16, message: Seq<char> },
    ResponseParse { provider: Seq<char>, message: Seq<char> },
}

impl DeepView for ProviderError {
    type V = ProviderErrorModel;

    open spec fn deep_view(&self) -> ProviderErrorModel {
        match *self {
            ProviderError::MissingApiKey { provider } => ProviderErrorModel::MissingApiKey {
                provider: provider.deep_view(),
            },
            ProviderError::UnknownModel { provider, model } => ProviderErrorModel::UnknownModel {
                provider: provider.deep_view(),
                model: model.deep_view(),
            },
            ProviderError::RequestFailed { provider, message } => {
                ProviderErrorModel::RequestFailed {
                    provider: provider.deep_view(),
                    message: message@,
                }
            },
            ProviderError::Transport { provider, message } => ProviderErrorModel::Transport {
                provider: provider.deep_view(),
                message: message@,
            },
            ProviderError::HttpStatus { provider, status, message } => {
                ProviderErrorModel::HttpStatus {
                    provider: provider.deep_view(),
                    status,
                    message: message@,
                }
            },
            ProviderError::ResponseParse { provider, message } => {
                ProviderErrorModel::ResponseParse {
                    provider: provider.deep_view(),
                    message: message@,
                }
            },
        }
    }
}

/// How the error of a provider reads.
pub open spec fn provider_error_text(error: ProviderErrorModel) -> Seq<char> {
    match error {
        ProviderErrorModel::MissingApiKey { provider } => "no API key for provider `"@ + provider
            + "`"@,
        ProviderErrorModel::UnknownModel { provider, model } => "unknown model `"@ + model
            + "` for provider `"@ + provider + "`"@,
        ProviderErrorModel::RequestFailed { provider, message } => "request to provider `"@
            + provider + "` failed: "@ + message,
        ProviderErrorModel::Transport { provider, message } => "provider `"@ + provider
            + "` cannot be reached: "@ + message,
        ProviderErrorModel::HttpStatus { provider, status, message } => "provider `"@ + provider
            + "` answered with status "@ + text::decimal(status as nat) + ": "@ + message,
        ProviderErrorModel::ResponseParse { provider, message } => "provider `"@ + provider
            + "` gave an answer that cannot be read: "@ + message,
    }
}

impl ProviderError {
    /// How the error reads.
    pub fn to_text(&self) -> (r: String)
        ensures
            r@ == provider_error_text(self.deep_view()),
    {
        match self {
            ProviderError::MissingApiKey { provider } => concat3(
                "no API key for provider `",
                provider.0.as_str(),
                "`",
            ),
            ProviderError::UnknownModel { provider, model } => concat5(
                "unknown model `",
                model.0.as_str(),
                "` for provider `",
                provider.0.as_str(),
                "`",
            ),
            ProviderError::RequestFailed { provider, message } => concat4(
                "request to provider `",
                provider.0.as_str(),
                "` failed: ",
                message.as_str(),
            ),
            ProviderError::Transport { provider, message } => concat4(
                "provider `",
                provider.0.as_str(),
                "` cannot be reached: ",
                message.as_str(),
            ),
            ProviderError::HttpStatus { provider, status, message } => {
                let code = decimal_text(*status as u64);
                let mut out = concat5(
                    "provider `",
                    provider.0.as_str(),
                    "` answered with status ",
                    code.as_str(),
                    ": ",
                );
                out.append(message.as_str());
                out
            },
            ProviderError::ResponseParse { provider, message } => concat4(
                "provider `",
                provider.0.as_str(),
                "` gave an answer that cannot be read: ",
                message.as_str(),
            ),
        }
    }
}

/// The error of a provider whose answer makes no sense.
pub fn response_parse(provider: &ProviderId, message: String) -> (r: ProviderError)
    ensures
        r.deep_view() == (ProviderErrorModel::ResponseParse {
            provider: provider.deep_view(),
            message: message@,
        }),
{
    ProviderError::ResponseParse { provider: provider.clone(), message }
}

/// The error of a request that cannot be made.
pub fn request_failed(provider: &ProviderId, message: String) -> (r: ProviderError)
    ensures
        r.deep_view() == (ProviderErrorModel::RequestFailed {
            provider: provider.deep_view(),
            message: message@,
        }),
{
    ProviderError::RequestFailed { provider: provider.clone(), message }
}

/// The text of a provider's error names the provider and says what the error holds.
pub proof fn law_errors_name_their_provider(error: ProviderError, r: String)
    requires
        call_ensures(ProviderError::to_text, (&error,), r),
    ensures
        match error {
            ProviderError::MissingApiKey { provider } => {
                &&& text::stands_in(r@, provider.deep_view())
            },
            ProviderError::UnknownModel { provider, model } => {
                &&& text::stands_in(r@, provider.deep_view())
                &&& text::stands_in(r@, model.deep_view())
            },
            ProviderError::RequestFailed { provider, message } => {
                &&& text::stands_in(r@, provider.deep_view())
                &&& text::stands_in(r@, message@)
            },
            ProviderError::Transport { provider, message } => {
                &&& text::stands_in(r@, provider.deep_view())
                &&& text::stands_in(r@, message@)
            },
            ProviderError::HttpStatus { provider, status, message } => {
                &&& text::stands_in(r@, provider.deep_view())
                &&& text::stands_in(r@, text::decimal(status as nat))
                &&& text::stands_in(r@, message@)
            },
            ProviderError::ResponseParse { provider, message } => {
                &&& text::stands_in(r@, provider.deep_view())
                &&& text::stands_in(r@, message@)
            },
        },
{
    text::lemma_parts_stand_in();
}

/// An answer that makes no sense and a request that cannot be made are told apart, each with
/// the provider and the message.
pub proof fn law_failures_are_told_apart(
    provider: ProviderId,
    message: String,
    parse: ProviderError,
    request: ProviderError,
)
    requires
        call_ensures(response_parse, (&provider, message), parse),
        call_ensures(request_failed, (&provider, message), request),
    ensures
        parse matches ProviderError::ResponseParse { provider: whose, message: why }
            && whose.deep_view() == provider.deep_view() && why@ == message@,
        request matches ProviderError::RequestFailed { provider: whose, message: why }
            && whose.deep_view() == provider.deep_view() && why@ == message@,
{
}

} // verus!
