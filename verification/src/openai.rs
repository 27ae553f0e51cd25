//! Requests to OpenAI's chat completions, and what the answers mean.

use crate::json;
use crate::schema;
use crate::text;
use crate::endpoint::{OPENAI_CHAT_COMPLETIONS_PATH, OPENAI_DEFAULT_BASE_URL};
use crate::json::{parse_json, Json, JsonTree};
use crate::model::{
    clone_tool_calls, response_parse, Context, ContextModel, Message, MessageModel, MessageRole,
    ProviderError, ProviderErrorModel, ProviderId, Response, ResponseModel, StreamItem,
    StreamItemModel, ToolCall, ToolCallDelta, ToolCallDeltaModel, ToolCallModel, UsageUpdate,
};
use crate::schema::{
    FunctionDecl, FunctionDeclModel, JsonSchema, sanitize_schema_strict, SchemaModel,
};
use crate::stream::{append_items, BatchEnd, BatchEndModel, StreamBatch, StreamPayload};
use crate::text::{concat, concat3, concat4, same_text, trim};
use std::collections::HashMap;
use vstd::prelude::*;

verus! {

broadcast use vstd::std_specs::hash::group_hash_axioms;

/// How OpenAI is reached.
#[derive(Debug, PartialEq, Eq)]
pub struct OpenAIConfig {
    pub api_key: Option<String>,
    pub base_url: String,
}

impl Default for OpenAIConfig {
    fn default() -> (r: Self)
        ensures
            r.api_key is None,
            r.base_url@ == OPENAI_DEFAULT_BASE_URL@,
    {
        OpenAIConfig { api_key: None, base_url: OPENAI_DEFAULT_BASE_URL.to_owned() }
    }
}

/// The address that chat completions are asked at.
pub fn chat_completions_url(base_url: &str) -> (r: String)
    ensures
        r@ == base_url@ + OPENAI_CHAT_COMPLETIONS_PATH@,
{
    concat(base_url, OPENAI_CHAT_COMPLETIONS_PATH)
}

#[derive(Debug, PartialEq, Eq)]
pub struct OpenAIRequestFunction {
    pub name: String,
    pub arguments: String,
}

#[derive(Debug, PartialEq, Eq)]
pub struct OpenAIRequestToolCall {
    pub id: String,
    pub kind: String,
    pub function: OpenAIRequestFunction,
}

#[derive(Debug, PartialEq, Eq)]
pub struct OpenAIChatMessageRequest {
    pub role: String,
    pub content: Option<String>,
    pub tool_calls: Vec<OpenAIRequestToolCall>,
    pub tool_call_id: Option<String>,
}

#[derive(Debug, PartialEq, Eq)]
pub struct OpenAIRequestFunctionDecl {
    pub name: String,
    pub description: Option<String>,
    pub parameters: JsonSchema,
}

#[derive(Debug, PartialEq, Eq)]
pub struct OpenAIRequestToolDefinition {
    pub kind: String,
    pub function: OpenAIRequestFunctionDecl,
}

#[derive(Debug, Clone, Copy, PartialEq, Eq)]
pub struct OpenAIStreamOptions {
    pub include_usage: bool,
}

#[derive(Debug, PartialEq, Eq)]
pub struct OpenAIChatCompletionRequest {
    pub model: String,
    pub messages: Vec<OpenAIChatMessageRequest>,
    pub tools: Vec<OpenAIRequestToolDefinition>,
    pub tool_choice: Option<String>,
    pub stream: bool,
    pub stream_options: Option<OpenAIStreamOptions>,
}

pub struct OpenAICallModel {
    pub id: Seq<char>,
    pub kind: Seq<char>,
    pub name: Seq<char>,
    pub arguments: Seq<char>,
}

pub struct OpenAIMessageModel {
    pub role: Seq<char>,
    pub content: Option<Seq<char>>,
    pub tool_calls: Seq<OpenAICallModel>,
    pub tool_call_id: Option<Seq<char>>,
}

pub struct OpenAIToolModel {
    pub kind: Seq<char>,
    pub name: Seq<char>,
    pub description: Option<Seq<char>>,
    pub parameters: SchemaModel,
}

pub struct OpenAIRequestModel {
    pub model: Seq<char>,
    pub messages: Seq<OpenAIMessageModel>,
    pub tools: Seq<OpenAIToolModel>,
    pub tool_choice: Option<Seq<char>>,
    pub stream: bool,
    pub stream_options: Option<OpenAIStreamOptions>,
}

impl DeepView for OpenAIRequestToolCall {
    type V = OpenAICallModel;

    open spec fn deep_view(&self) -> OpenAICallModel {
        OpenAICallModel {
            id: self.id@,
            kind: self.kind@,
            name: self.function.name@,
            arguments: self.function.arguments@,
        }
    }
}

impl DeepView for OpenAIChatMessageRequest {
    type V = OpenAIMessageModel;

    open spec fn deep_view(&self) -> OpenAIMessageModel {
        OpenAIMessageModel {
            role: self.role@,
            content: self.content.deep_view(),
            tool_calls: self.tool_calls.deep_view(),
            tool_call_id: self.tool_call_id.deep_view(),
        }
    }
}

impl DeepView for OpenAIRequestToolDefinition {
    type V = OpenAIToolModel;

    open spec fn deep_view(&self) -> OpenAIToolModel {
        OpenAIToolModel {
            kind: self.kind@,
            name: self.function.name@,
            description: self.function.description.deep_view(),
            parameters: self.function.parameters.deep_view(),
        }
    }
}

impl DeepView for OpenAIChatCompletionRequest {
    type V = OpenAIRequestModel;

    open spec fn deep_view(&self) -> OpenAIRequestModel {
        OpenAIRequestModel {
            model: self.model@,
            messages: self.messages.deep_view(),
            tools: self.tools.deep_view(),
            tool_choice: self.tool_choice.deep_view(),
            stream: self.stream,
            stream_options: self.stream_options,
        }
    }
}

/// What OpenAI calls a role.
pub open spec fn openai_role(role: MessageRole) -> Seq<char> {
    match role {
        MessageRole::System => "system"@,
        MessageRole::User => "user"@,
        MessageRole::Assistant => "assistant"@,
        MessageRole::Tool => "tool"@,
    }
}

/// What OpenAI calls a role.
pub fn message_role_to_openai_role(role: &MessageRole) -> (r: &'static str)
    ensures
        r@ == openai_role(*role),
{
    match role {
        MessageRole::System => "system",
        MessageRole::User => "user",
        MessageRole::Assistant => "assistant",
        MessageRole::Tool => "tool",
    }
}

/// The role that OpenAI calls so, if there is one.
pub fn openai_role_to_message_role(role: &str) -> (r: Option<MessageRole>)
    ensures
        match r {
            Some(found) => openai_role(found) == role@,
            None => forall|other: MessageRole| #[trigger] openai_role(other) != role@,
        },
{
    if same_text(role, "system") {
        Some(MessageRole::System)
    } else if same_text(role, "user") {
        Some(MessageRole::User)
    } else if same_text(role, "assistant") {
        Some(MessageRole::Assistant)
    } else if same_text(role, "tool") {
        Some(MessageRole::Tool)
    } else {
        None
    }
}

/// No two roles have the same name, so a name that is written is read back.
pub proof fn law_roles_read_back(one: MessageRole, other: MessageRole)
    ensures
        openai_role(one) == openai_role(other) ==> one == other,
{
    reveal_strlit("system");
    reveal_strlit("user");
    reveal_strlit("assistant");
    reveal_strlit("tool");
    assert("system"@.len() == 6 && "user"@.len() == 4 && "assistant"@.len() == 9 && "tool"@.len()
        == 4);
    assert("user"@[0] != "tool"@[0]);
}

pub open spec fn request_call(call: ToolCallModel) -> OpenAICallModel {
    OpenAICallModel {
        id: call.id,
        kind: "function"@,
        name: call.name,
        arguments: json::tree_text(call.arguments),
    }
}

pub open spec fn request_message(message: MessageModel) -> OpenAIMessageModel {
    OpenAIMessageModel {
        role: openai_role(message.role),
        content: message.content,
        tool_calls: message.tool_calls.map_values(|call: ToolCallModel| request_call(call)),
        tool_call_id: message.tool_call_id,
    }
}

pub open spec fn request_tool(tool: FunctionDeclModel) -> OpenAIToolModel {
    OpenAIToolModel {
        kind: "function"@,
        name: tool.name,
        description: tool.description,
        parameters: schema::strict_schema(tool.parameters),
    }
}

/// The request that a conversation becomes.
pub open spec fn openai_request(context: ContextModel, stream: bool) -> OpenAIRequestModel {
    OpenAIRequestModel {
        model: context.model,
        messages: context.messages.map_values(|message: MessageModel| request_message(message)),
        tools: context.tools.map_values(|tool: FunctionDeclModel| request_tool(tool)),
        tool_choice: if context.tools.len() == 0 {
            None
        } else {
            Some("auto"@)
        },
        stream,
        stream_options: if stream {
            Some(OpenAIStreamOptions { include_usage: true })
        } else {
            None
        },
    }
}

impl OpenAIRequestToolCall {
    pub fn from(call: &ToolCall) -> (r: Self)
        ensures
            r.deep_view() == request_call(call.deep_view()),
    {
        OpenAIRequestToolCall {
            id: call.id.clone(),
            kind: "function".to_owned(),
            function: OpenAIRequestFunction {
                name: call.name.clone(),
                arguments: call.arguments.to_text(),
            },
        }
    }
}

impl OpenAIChatMessageRequest {
    pub fn from(message: &Message) -> (r: Self)
        ensures
            r.deep_view() == request_message(message.deep_view()),
    {
        let mut tool_calls: Vec<OpenAIRequestToolCall> = Vec::new();
        let mut i: usize = 0;
        while i < message.tool_calls.len()
            invariant
                i <= message.tool_calls.len(),
                tool_calls.len() == i,
                forall|k: int|
                    0 <= k < i ==> (#[trigger] tool_calls@[k]).deep_view() == request_call(
                        message.tool_calls@[k].deep_view(),
                    ),
            decreases message.tool_calls.len() - i,
        {
            tool_calls.push(OpenAIRequestToolCall::from(&message.tool_calls[i]));
            i += 1;
        }
        proof {
            assert(tool_calls.deep_view() =~= request_message(message.deep_view()).tool_calls);
        }
        OpenAIChatMessageRequest {
            role: message_role_to_openai_role(&message.role).to_owned(),
            content: message.content.clone(),
            tool_calls,
            tool_call_id: message.tool_call_id.clone(),
        }
    }
}

impl OpenAIRequestToolDefinition {
    pub fn from(tool: &FunctionDecl) -> (r: Self)
        ensures
            r.deep_view() == request_tool(tool.deep_view()),
    {
        OpenAIRequestToolDefinition {
            kind: "function".to_owned(),
            function: OpenAIRequestFunctionDecl {
                name: tool.name.clone(),
                description: tool.description.clone(),
                parameters: sanitize_schema_strict(&tool.parameters),
            },
        }
    }
}

impl OpenAIChatCompletionRequest {
    pub fn from_context(context: &Context) -> (r: Self)
        ensures
            r.deep_view() == openai_request(context.deep_view(), false),
    {
        Self::from_context_with_stream(context, false)
    }

    pub fn from_stream_context(context: &Context) -> (r: Self)
        ensures
            r.deep_view() == openai_request(context.deep_view(), true),
    {
        Self::from_context_with_stream(context, true)
    }

    /// The request that a conversation becomes.
    pub fn from_context_with_stream(context: &Context, stream: bool) -> (r: Self)
        ensures
            r.deep_view() == openai_request(context.deep_view(), stream),
    {
        let mut messages: Vec<OpenAIChatMessageRequest> = Vec::new();
        let mut i: usize = 0;
        while i < context.messages.len()
            invariant
                i <= context.messages.len(),
                messages.len() == i,
                forall|k: int|
                    0 <= k < i ==> (#[trigger] messages@[k]).deep_view() == request_message(
                        context.messages@[k].deep_view(),
                    ),
            decreases context.messages.len() - i,
        {
            messages.push(OpenAIChatMessageRequest::from(&context.messages[i]));
            i += 1;
        }
        let mut tools: Vec<OpenAIRequestToolDefinition> = Vec::new();
        let mut k: usize = 0;
        while k < context.tools.len()
            invariant
                k <= context.tools.len(),
                tools.len() == k,
                forall|j: int|
                    0 <= j < k ==> (#[trigger] tools@[j]).deep_view() == request_tool(
                        context.tools@[j].deep_view(),
                    ),
            decreases context.tools.len() - k,
        {
            tools.push(OpenAIRequestToolDefinition::from(&context.tools[k]));
            k += 1;
        }
        proof {
            let expected = openai_request(context.deep_view(), stream);
            assert(messages.deep_view() =~= expected.messages);
            assert(tools.deep_view() =~= expected.tools);
        }
        let tool_choice = if tools.len() == 0 {
            None
        } else {
            Some("auto".to_owned())
        };
        let stream_options = if stream {
            Some(OpenAIStreamOptions { include_usage: true })
        } else {
            None
        };
        OpenAIChatCompletionRequest {
            model: context.model.0.clone(),
            messages,
            tools,
            tool_choice,
            stream,
            stream_options,
        }
    }
}

#[derive(Debug, PartialEq, Eq)]
pub struct OpenAIResponseFunction {
    pub name: String,
    pub arguments: String,
}

#[derive(Debug, PartialEq, Eq)]
pub struct OpenAIResponseToolCall {
    pub id: String,
    pub kind: String,
    pub function: OpenAIResponseFunction,
}

#[derive(Debug, PartialEq, Eq)]
pub struct OpenAIChatMessageResponse {
    pub role: String,
    pub content: Option<String>,
    pub tool_calls: Vec<OpenAIResponseToolCall>,
}

#[derive(Debug, PartialEq, Eq)]
pub struct OpenAIChoice {
    pub message: OpenAIChatMessageResponse,
    pub finish_reason: Option<String>,
}

#[derive(Debug, Clone, Copy, PartialEq, Eq)]
pub struct OpenAIUsage {
    pub prompt_tokens: Option<u64>,
    pub completion_tokens: Option<u64>,
    pub total_tokens: Option<u64>,
}

#[derive(Debug, PartialEq, Eq)]
pub struct OpenAIChatCompletionResponse {
    pub choices: Vec<OpenAIChoice>,
    pub usage: Option<OpenAIUsage>,
}

pub struct OpenAIChoiceModel {
    pub role: Seq<char>,
    pub content: Option<Seq<char>>,
    pub tool_calls: Seq<OpenAICallModel>,
    pub finish_reason: Option<Seq<char>>,
}

impl DeepView for OpenAIResponseToolCall {
    type V = OpenAICallModel;

    open spec fn deep_view(&self) -> OpenAICallModel {
        OpenAICallModel {
            id: self.id@,
            kind: self.kind@,
            name: self.function.name@,
            arguments: self.function.arguments@,
        }
    }
}

impl DeepView for OpenAIChoice {
    type V = OpenAIChoiceModel;

    open spec fn deep_view(&self) -> OpenAIChoiceModel {
        OpenAIChoiceModel {
            role: self.message.role@,
            content: self.message.content.deep_view(),
            tool_calls: self.message.tool_calls.deep_view(),
            finish_reason: self.finish_reason.deep_view(),
        }
    }
}

pub open spec fn usage_of(usage: OpenAIUsage) -> UsageUpdate {
    UsageUpdate {
        prompt_tokens: usage.prompt_tokens,
        completion_tokens: usage.completion_tokens,
        total_tokens: usage.total_tokens,
    }
}

/// The tool call that a call in an answer means, given what its arguments parse to.
pub open spec fn call_with(
    call: OpenAICallModel,
    arguments: Result<JsonTree, Seq<char>>,
) -> Result<ToolCallModel, Seq<char>> {
    if call.kind != "function"@ {
        Err("unsupported OpenAI tool call type `"@ + call.kind + "`"@)
    } else {
        match arguments {
            Ok(arguments) => Ok(
                ToolCallModel { id: call.id, name: call.name, arguments, metadata: None },
            ),
            Err(message) => Err(
                "invalid OpenAI tool call arguments for `"@ + call.id + "`: "@ + message,
            ),
        }
    }
}

/// The tool call that a call in an answer means.
pub open spec fn answer_call(call: OpenAICallModel) -> Result<ToolCallModel, Seq<char>> {
    call_with(
        call,
        match json::parse_outcome(call.arguments) {
            Ok(_) => Ok(json::parsed_tree(call.arguments)->0),
            Err(message) => Err(message),
        },
    )
}

/// The tool calls that the calls in an answer mean, or what is wrong with the first
/// that means none.
pub open spec fn answer_calls(calls: Seq<OpenAICallModel>) -> Result<
    Seq<ToolCallModel>,
    Seq<char>,
>
    decreases calls.len(),
{
    if calls.len() == 0 {
        Ok(Seq::empty())
    } else {
        match answer_calls(calls.drop_last()) {
            Err(message) => Err(message),
            Ok(before) => match answer_call(calls.last()) {
                Err(message) => Err(message),
                Ok(call) => Ok(before.push(call)),
            },
        }
    }
}

/// A role has that name.
pub open spec fn is_role_name(name: Seq<char>) -> bool {
    exists|role: MessageRole| #[trigger] openai_role(role) == name
}

/// The message that a choice means.
pub open spec fn answer_message(choice: OpenAIChoiceModel) -> Result<MessageModel, Seq<char>> {
    if !is_role_name(choice.role) {
        Err("unsupported OpenAI role `"@ + choice.role + "`"@)
    } else {
        match answer_calls(choice.tool_calls) {
            Err(message) => Err(message),
            Ok(calls) => Ok(
                MessageModel {
                    role: choose|role: MessageRole| #[trigger] openai_role(role) == choice.role,
                    content: choice.content,
                    tool_calls: calls,
                    tool_call_id: None,
                    attachments: Seq::empty(),
                },
            ),
        }
    }
}

/// The answer that a response means: that of its first choice.
pub open spec fn openai_answer(
    choices: Seq<OpenAIChoiceModel>,
    usage: Option<OpenAIUsage>,
) -> Result<ResponseModel, Seq<char>> {
    if choices.len() == 0 {
        Err("OpenAI response did not contain any choices"@)
    } else {
        match answer_message(choices[0]) {
            Err(message) => Err(message),
            Ok(message) => Ok(
                ResponseModel {
                    message,
                    tool_calls: message.tool_calls,
                    finish_reason: choices[0].finish_reason,
                    usage: match usage {
                        Some(usage) => Some(usage_of(usage)),
                        None => None,
                    },
                },
            ),
        }
    }
}

/// The tool call that a call in an answer means, given what its arguments parse to, or
/// why they do not.
pub fn call_with_arguments(call: &OpenAIResponseToolCall, arguments: Result<Json, String>) -> (r:
    Result<ToolCall, String>)
    ensures
        match (
            r,
            call_with(
                call.deep_view(),
                match arguments {
                    Ok(json) => Ok(json.deep_view()),
                    Err(message) => Err(message@),
                },
            ),
        ) {
            (Ok(call), Ok(expected)) => call.deep_view() == expected,
            (Err(message), Err(expected)) => message@ == expected,
            _ => false,
        },
{
    if !same_text(call.kind.as_str(), "function") {
        return Err(concat3("unsupported OpenAI tool call type `", call.kind.as_str(), "`"));
    }
    match arguments {
        Ok(arguments) => Ok(
            ToolCall {
                id: call.id.clone(),
                name: call.function.name.clone(),
                arguments,
                metadata: None,
            },
        ),
        Err(error) => Err(
            concat4(
                "invalid OpenAI tool call arguments for `",
                call.id.as_str(),
                "`: ",
                error.as_str(),
            ),
        ),
    }
}

fn normalize_call(call: &OpenAIResponseToolCall) -> (r: Result<ToolCall, String>)
    ensures
        match (r, answer_call(call.deep_view())) {
            (Ok(call), Ok(expected)) => call.deep_view() == expected,
            (Err(message), Err(expected)) => message@ == expected,
            _ => false,
        },
{
    call_with_arguments(call, parse_json(call.function.arguments.as_str()))
}

proof fn lemma_answer_calls_stop(calls: Seq<OpenAICallModel>, upto: int)
    requires
        0 <= upto <= calls.len(),
        answer_calls(calls.take(upto)) is Err,
    ensures
        answer_calls(calls) == answer_calls(calls.take(upto)),
    decreases calls.len() - upto,
{
    if upto == calls.len() {
        assert(calls.take(upto) =~= calls);
    } else {
        assert(calls.take(upto + 1).drop_last() =~= calls.take(upto));
        lemma_answer_calls_stop(calls, upto + 1);
    }
}

/// The message that a choice means.
pub fn normalize_openai_message(choice: &OpenAIChoice, provider: &ProviderId) -> (r: Result<
    Message,
    ProviderError,
>)
    ensures
        match (r, answer_message(choice.deep_view())) {
            (Ok(message), Ok(expected)) => message.deep_view() == expected,
            (Err(error), Err(message)) => error.deep_view() == (
            ProviderErrorModel::ResponseParse { provider: provider.deep_view(), message }),
            _ => false,
        },
{
    let message = &choice.message;
    let role = match openai_role_to_message_role(message.role.as_str()) {
        Some(role) => role,
        None => {
            return Err(
                response_parse(
                    provider,
                    concat3("unsupported OpenAI role `", message.role.as_str(), "`"),
                ),
            );
        },
    };
    proof {
        let chosen = choose|other: MessageRole| #[trigger] openai_role(other) == message.role@;
        assert(openai_role(role) == message.role@);
        law_roles_read_back(chosen, role);
    }
    let ghost models = message.tool_calls.deep_view();
    let mut tool_calls: Vec<ToolCall> = Vec::new();
    let mut i: usize = 0;
    proof {
        assert(models.take(0) =~= Seq::empty());
        assert(tool_calls.deep_view() =~= Seq::empty());
    }
    while i < message.tool_calls.len()
        invariant
            i <= message.tool_calls.len(),
            models == message.tool_calls.deep_view(),
            answer_calls(models.take(i as int)) == Ok::<Seq<ToolCallModel>, Seq<char>>(
                tool_calls.deep_view(),
            ),
            message == choice.message,
            is_role_name(message.role@),
        decreases message.tool_calls.len() - i,
    {
        let ghost before = tool_calls.deep_view();
        proof {
            assert(models.take(i as int + 1).drop_last() =~= models.take(i as int));
            assert(models.take(i as int + 1).last() == message.tool_calls@[i as int].deep_view());
        }
        match normalize_call(&message.tool_calls[i]) {
            Ok(call) => {
                tool_calls.push(call);
                proof {
                    assert(tool_calls.deep_view() =~= before.push(call.deep_view()));
                }
            },
            Err(error) => {
                proof {
                    lemma_answer_calls_stop(models, i as int + 1);
                }
                return Err(response_parse(provider, error));
            },
        }
        i += 1;
    }
    proof {
        assert(models.take(i as int) =~= models);
    }
    let r = Message {
        role,
        content: message.content.clone(),
        tool_calls,
        tool_call_id: None,
        attachments: Vec::new(),
    };
    proof {
        assert(r.deep_view().attachments =~= Seq::empty());
    }
    Ok(r)
}

/// The answer that a response means: that of its first choice.
pub fn normalize_openai_response(
    response: OpenAIChatCompletionResponse,
    provider: &ProviderId,
) -> (r: Result<Response, ProviderError>)
    ensures
        match (r, openai_answer(response.choices.deep_view(), response.usage)) {
            (Ok(answer), Ok(expected)) => answer.deep_view() == expected,
            (Err(error), Err(message)) => error.deep_view() == (
            ProviderErrorModel::ResponseParse { provider: provider.deep_view(), message }),
            _ => false,
        },
{
    if response.choices.len() == 0 {
        return Err(
            response_parse(provider, "OpenAI response did not contain any choices".to_owned()),
        );
    }
    let choice = &response.choices[0];
    let message = match normalize_openai_message(choice, provider) {
        Ok(message) => message,
        Err(error) => {
            return Err(error);
        },
    };
    let usage = match response.usage {
        Some(usage) => Some(
            UsageUpdate {
                prompt_tokens: usage.prompt_tokens,
                completion_tokens: usage.completion_tokens,
                total_tokens: usage.total_tokens,
            },
        ),
        None => None,
    };
    let tool_calls = clone_tool_calls(&message.tool_calls);
    Ok(Response { message, tool_calls, finish_reason: choice.finish_reason.clone(), usage })
}

#[derive(Debug, PartialEq, Eq)]
pub struct OpenAIStreamFunctionDelta {
    pub name: Option<String>,
    pub arguments: Option<String>,
}

#[derive(Debug, PartialEq, Eq)]
pub struct OpenAIStreamToolCallDelta {
    pub index: usize,
    pub id: Option<String>,
    pub function: Option<OpenAIStreamFunctionDelta>,
}

#[derive(Debug, PartialEq, Eq)]
pub struct OpenAIStreamDelta {
    pub content: Option<String>,
    pub reasoning: Option<String>,
    pub tool_calls: Vec<OpenAIStreamToolCallDelta>,
}

#[derive(Debug, PartialEq, Eq)]
pub struct OpenAIStreamChoice {
    pub delta: OpenAIStreamDelta,
    pub finish_reason: Option<String>,
}

/// One event of a streamed answer.
#[derive(Debug, PartialEq, Eq)]
pub struct OpenAIChatCompletionStreamChunk {
    pub choices: Vec<OpenAIStreamChoice>,
    pub usage: Option<OpenAIUsage>,
}

pub struct CallFragment {
    pub index: usize,
    pub id: Option<Seq<char>>,
    pub name: Option<Seq<char>>,
    pub arguments: Option<Seq<char>>,
}

pub struct StreamChoiceModel {
    pub content: Option<Seq<char>>,
    pub reasoning: Option<Seq<char>>,
    pub tool_calls: Seq<CallFragment>,
    pub finish_reason: Option<Seq<char>>,
}

impl DeepView for OpenAIStreamToolCallDelta {
    type V = CallFragment;

    open spec fn deep_view(&self) -> CallFragment {
        CallFragment {
            index: self.index,
            id: self.id.deep_view(),
            name: match self.function {
                Some(function) => function.name.deep_view(),
                None => None,
            },
            arguments: match self.function {
                Some(function) => function.arguments.deep_view(),
                None => None,
            },
        }
    }
}

impl DeepView for OpenAIStreamChoice {
    type V = StreamChoiceModel;

    open spec fn deep_view(&self) -> StreamChoiceModel {
        StreamChoiceModel {
            content: self.delta.content.deep_view(),
            reasoning: self.delta.reasoning.deep_view(),
            tool_calls: self.delta.tool_calls.deep_view(),
            finish_reason: self.finish_reason.deep_view(),
        }
    }
}

/// What is known of one tool call so far.
#[derive(Debug)]
pub struct ToolCallAccumulatorEntry {
    pub id: Option<String>,
    pub name: Option<String>,
    pub arguments: String,
}

pub struct CallSoFar {
    pub id: Option<Seq<char>>,
    pub name: Option<Seq<char>>,
    pub arguments: Seq<char>,
}

impl DeepView for ToolCallAccumulatorEntry {
    type V = CallSoFar;

    open spec fn deep_view(&self) -> CallSoFar {
        CallSoFar {
            id: self.id.deep_view(),
            name: self.name.deep_view(),
            arguments: self.arguments@,
        }
    }
}

/// Puts tool calls together whose arguments come in pieces.
#[derive(Debug)]
pub struct ToolCallAccumulator {
    pub by_index: HashMap<usize, ToolCallAccumulatorEntry>,
}

impl Default for ToolCallAccumulator {
    fn default() -> (r: Self)
        ensures
            r.entries() == Map::<usize, CallSoFar>::empty(),
    {
        let r = ToolCallAccumulator { by_index: HashMap::new() };
        proof {
            assert(r.entries() =~= Map::<usize, CallSoFar>::empty());
        }
        r
    }
}

/// What is known of a call before anything has come.
pub open spec fn nothing_yet() -> CallSoFar {
    CallSoFar { id: None, name: None, arguments: Seq::empty() }
}

/// What is known of a call once a further piece has come: a new identity or name
/// takes the place of the old one, arguments are appended.
pub open spec fn with_fragment(so_far: CallSoFar, fragment: CallFragment) -> CallSoFar {
    CallSoFar {
        id: if fragment.id is Some {
            fragment.id
        } else {
            so_far.id
        },
        name: if fragment.name is Some {
            fragment.name
        } else {
            so_far.name
        },
        arguments: match fragment.arguments {
            Some(more) => so_far.arguments + more,
            None => so_far.arguments,
        },
    }
}

/// What is known of the call at that index.
pub open spec fn known(entries: Map<usize, CallSoFar>, index: usize) -> CallSoFar {
    if entries.dom().contains(index) {
        entries[index]
    } else {
        nothing_yet()
    }
}

pub open spec fn merged(entries: Map<usize, CallSoFar>, fragment: CallFragment) -> Map<
    usize,
    CallSoFar,
> {
    entries.insert(fragment.index, with_fragment(known(entries, fragment.index), fragment))
}

/// What is handed out for a piece: all that is known of its call, with the arguments
/// that have come so far if the piece held any.
pub open spec fn merged_delta(
    entries: Map<usize, CallSoFar>,
    fragment: CallFragment,
) -> ToolCallDeltaModel {
    let call = merged(entries, fragment)[fragment.index];
    ToolCallDeltaModel {
        index: fragment.index,
        id: call.id,
        name: call.name,
        arguments: if fragment.arguments is Some {
            Some(call.arguments)
        } else {
            None
        },
        metadata: None,
    }
}

impl ToolCallAccumulator {
    /// What is known of every call.
    pub open spec fn entries(self) -> Map<usize, CallSoFar> {
        self.by_index@.map_values(|entry: ToolCallAccumulatorEntry| entry.deep_view())
    }

    /// Takes a piece of the call at that index, and hands out what is now known.
    pub fn merge(
        &mut self,
        index: usize,
        id: Option<String>,
        function: OpenAIStreamFunctionDelta,
    ) -> (r: ToolCallDelta)
        ensures
            ({
                let fragment = CallFragment {
                    index,
                    id: id.deep_view(),
                    name: function.name.deep_view(),
                    arguments: function.arguments.deep_view(),
                };
                &&& final(self).entries() == merged(old(self).entries(), fragment)
                &&& r.deep_view() == merged_delta(old(self).entries(), fragment)
            }),
    {
        let ghost before = self.entries();
        let ghost fragment = CallFragment {
            index,
            id: id.deep_view(),
            name: function.name.deep_view(),
            arguments: function.arguments.deep_view(),
        };
        let mut entry = match self.by_index.remove(&index) {
            Some(entry) => entry,
            None => ToolCallAccumulatorEntry { id: None, name: None, arguments: String::new() },
        };
        proof {
            assert(entry.deep_view() == known(before, index));
        }
        if id.is_some() {
            entry.id = id;
        }
        if function.name.is_some() {
            entry.name = function.name;
        }
        let arguments = match &function.arguments {
            Some(more) => {
                entry.arguments.append(more.as_str());
                Some(entry.arguments.clone())
            },
            None => None,
        };
        let delta = ToolCallDelta {
            index,
            id: entry.id.clone(),
            name: entry.name.clone(),
            arguments,
            metadata: None,
        };
        proof {
            assert(entry.deep_view() == with_fragment(known(before, index), fragment));
        }
        self.by_index.insert(index, entry);
        proof {
            assert(self.entries() =~= merged(before, fragment));
        }
        delta
    }
}

/// What an event does: what is known of the calls behind it, and what it hands out.
pub struct ChunkStep {
    pub entries: Map<usize, CallSoFar>,
    pub items: Seq<StreamItemModel>,
}

/// The effect of a piece of a tool call. One that holds nothing is passed over.
pub open spec fn fragment_step(step: ChunkStep, fragment: CallFragment) -> ChunkStep {
    if fragment.id is None && fragment.name is None && fragment.arguments is None {
        step
    } else {
        ChunkStep {
            entries: merged(step.entries, fragment),
            items: step.items.push(
                StreamItemModel::ToolCallDelta(merged_delta(step.entries, fragment)),
            ),
        }
    }
}

pub open spec fn fragments_step(step: ChunkStep, fragments: Seq<CallFragment>) -> ChunkStep
    decreases fragments.len(),
{
    if fragments.len() == 0 {
        step
    } else {
        fragment_step(fragments_step(step, fragments.drop_last()), fragments.last())
    }
}

/// A text where there is one that is not empty.
pub open spec fn some_text(text: Option<Seq<char>>) -> bool {
    text is Some && text->0.len() > 0
}

/// The effect of a choice: its text, its reasoning, its tool calls and why it ended,
/// in this order and as far as it has them.
pub open spec fn choice_step(step: ChunkStep, choice: StreamChoiceModel) -> ChunkStep {
    let with_text = if some_text(choice.content) {
        step.items.push(StreamItemModel::Text(choice.content->0))
    } else {
        step.items
    };
    let with_reasoning = if some_text(choice.reasoning) {
        with_text.push(StreamItemModel::ReasoningDelta(choice.reasoning->0))
    } else {
        with_text
    };
    let with_calls = fragments_step(
        ChunkStep { entries: step.entries, items: with_reasoning },
        choice.tool_calls,
    );
    ChunkStep {
        entries: with_calls.entries,
        items: if some_text(choice.finish_reason) {
            with_calls.items.push(StreamItemModel::FinishReason(choice.finish_reason->0))
        } else {
            with_calls.items
        },
    }
}

pub open spec fn choices_step(step: ChunkStep, choices: Seq<StreamChoiceModel>) -> ChunkStep
    decreases choices.len(),
{
    if choices.len() == 0 {
        step
    } else {
        choice_step(choices_step(step, choices.drop_last()), choices.last())
    }
}

/// The effect of an event: its token counts, then its choices.
pub open spec fn chunk_step(
    entries: Map<usize, CallSoFar>,
    choices: Seq<StreamChoiceModel>,
    usage: Option<OpenAIUsage>,
) -> ChunkStep {
    choices_step(
        ChunkStep {
            entries,
            items: match usage {
                Some(usage) => seq![StreamItemModel::UsageUpdate(usage_of(usage))],
                None => Seq::empty(),
            },
        },
        choices,
    )
}

fn push_item(items: &mut Vec<StreamItem>, item: StreamItem)
    ensures
        final(items).deep_view() == old(items).deep_view().push(item.deep_view()),
{
    items.push(item);
    proof {
        assert(items.deep_view() =~= old(items).deep_view().push(item.deep_view()));
    }
}

fn push_fragments(
    items: &mut Vec<StreamItem>,
    fragments: &Vec<OpenAIStreamToolCallDelta>,
    accumulator: &mut ToolCallAccumulator,
)
    ensures
        ({
            let step = fragments_step(
                ChunkStep { entries: old(accumulator).entries(), items: old(items).deep_view() },
                fragments.deep_view(),
            );
            &&& final(accumulator).entries() == step.entries
            &&& final(items).deep_view() == step.items
        }),
{
    let ghost models = fragments.deep_view();
    let ghost start = ChunkStep { entries: accumulator.entries(), items: items.deep_view() };
    let mut i: usize = 0;
    proof {
        assert(models.take(0) =~= Seq::empty());
    }
    while i < fragments.len()
        invariant
            i <= fragments.len(),
            models == fragments.deep_view(),
            accumulator.entries() == fragments_step(start, models.take(i as int)).entries,
            items.deep_view() == fragments_step(start, models.take(i as int)).items,
        decreases fragments.len() - i,
    {
        let fragment = &fragments[i];
        proof {
            assert(models.take(i as int + 1).drop_last() =~= models.take(i as int));
            assert(models.take(i as int + 1).last() == fragment.deep_view());
        }
        let function = match &fragment.function {
            Some(function) => OpenAIStreamFunctionDelta {
                name: function.name.clone(),
                arguments: function.arguments.clone(),
            },
            None => OpenAIStreamFunctionDelta { name: None, arguments: None },
        };
        if !(fragment.id.is_none() && function.name.is_none() && function.arguments.is_none()) {
            let delta = accumulator.merge(fragment.index, fragment.id.clone(), function);
            push_item(items, StreamItem::ToolCallDelta(delta));
        }
        i += 1;
    }
    proof {
        assert(models.take(i as int) =~= models);
    }
}

fn push_choice(
    items: &mut Vec<StreamItem>,
    choice: &OpenAIStreamChoice,
    accumulator: &mut ToolCallAccumulator,
)
    ensures
        ({
            let step = choice_step(
                ChunkStep { entries: old(accumulator).entries(), items: old(items).deep_view() },
                choice.deep_view(),
            );
            &&& final(accumulator).entries() == step.entries
            &&& final(items).deep_view() == step.items
        }),
{
    if let Some(content) = &choice.delta.content {
        if !content.as_str().is_empty() {
            push_item(items, StreamItem::Text(content.clone()));
        }
    }
    if let Some(reasoning) = &choice.delta.reasoning {
        if !reasoning.as_str().is_empty() {
            push_item(items, StreamItem::ReasoningDelta(reasoning.clone()));
        }
    }
    push_fragments(items, &choice.delta.tool_calls, accumulator);
    if let Some(reason) = &choice.finish_reason {
        if !reason.as_str().is_empty() {
            push_item(items, StreamItem::FinishReason(reason.clone()));
        }
    }
}

/// What an event of a streamed answer hands out.
pub fn normalize_openai_stream_chunk(
    chunk: OpenAIChatCompletionStreamChunk,
    tool_call_accumulator: &mut ToolCallAccumulator,
) -> (r: Vec<StreamItem>)
    ensures
        ({
            let step = chunk_step(
                old(tool_call_accumulator).entries(),
                chunk.choices.deep_view(),
                chunk.usage,
            );
            &&& final(tool_call_accumulator).entries() == step.entries
            &&& r.deep_view() == step.items
        }),
{
    let ghost models = chunk.choices.deep_view();
    let mut items: Vec<StreamItem> = Vec::new();
    proof {
        assert(items.deep_view() =~= Seq::empty());
    }
    if let Some(usage) = chunk.usage {
        push_item(
            &mut items,
            StreamItem::UsageUpdate(
                UsageUpdate {
                    prompt_tokens: usage.prompt_tokens,
                    completion_tokens: usage.completion_tokens,
                    total_tokens: usage.total_tokens,
                },
            ),
        );
        proof {
            assert(items.deep_view() =~= seq![StreamItemModel::UsageUpdate(usage_of(usage))]);
        }
    }
    let ghost start = ChunkStep {
        entries: tool_call_accumulator.entries(),
        items: items.deep_view(),
    };
    let mut done: usize = 0;
    proof {
        assert(models.take(0) =~= Seq::empty());
    }
    while done < chunk.choices.len()
        invariant
            done <= chunk.choices.len(),
            models == chunk.choices.deep_view(),
            tool_call_accumulator.entries() == choices_step(
                start,
                models.take(done as int),
            ).entries,
            items.deep_view() == choices_step(start, models.take(done as int)).items,
        decreases chunk.choices.len() - done,
    {
        proof {
            assert(models.take(done as int + 1).drop_last() =~= models.take(done as int));
            assert(models.take(done as int + 1).last()
                == chunk.choices@[done as int].deep_view());
        }
        push_choice(&mut items, &chunk.choices[done], tool_call_accumulator);
        done += 1;
    }
    proof {
        assert(models.take(done as int) =~= models);
    }
    items
}

/// What to do with the text of one event: an empty one is passed over, `[DONE]` ends
/// the stream, any other is parsed without the white space around it.
pub fn openai_stream_payload(payload: &str) -> (r: StreamPayload)
    ensures
        match r {
            StreamPayload::Empty => text::trimmed(payload@).len() == 0,
            StreamPayload::Done => text::trimmed(payload@).len() > 0 && text::trimmed(payload@) == "[DONE]"@,
            StreamPayload::Parse(text) => {
                &&& text::trimmed(payload@).len() > 0
                &&& text::trimmed(payload@) != "[DONE]"@
                &&& text@ == text::trimmed(payload@)
            },
        },
{
    let inner = trim(payload);
    if inner.as_str().is_empty() {
        StreamPayload::Empty
    } else if same_text(inner.as_str(), "[DONE]") {
        StreamPayload::Done
    } else {
        StreamPayload::Parse(inner)
    }
}

/// The error of an event that does not parse.
pub fn openai_payload_error(provider: &ProviderId, error: &str) -> (r: ProviderError)
    ensures
        r.deep_view() == (ProviderErrorModel::ResponseParse {
            provider: provider.deep_view(),
            message: "failed to parse OpenAI streaming payload: "@ + error@,
        }),
{
    response_parse(provider, concat("failed to parse OpenAI streaming payload: ", error))
}

/// The text of one event of a stream, once it has been parsed.
#[derive(Debug, PartialEq, Eq)]
pub enum OpenAIPayload {
    Empty,
    Done,
    Chunk(OpenAIChatCompletionStreamChunk),
    Invalid(String),
}

pub enum OpenAIPayloadModel {
    Empty,
    Done,
    Chunk(Seq<StreamChoiceModel>, Option<OpenAIUsage>),
    Invalid(Seq<char>),
}

impl DeepView for OpenAIPayload {
    type V = OpenAIPayloadModel;

    open spec fn deep_view(&self) -> OpenAIPayloadModel {
        match *self {
            OpenAIPayload::Empty => OpenAIPayloadModel::Empty,
            OpenAIPayload::Done => OpenAIPayloadModel::Done,
            OpenAIPayload::Chunk(chunk) => OpenAIPayloadModel::Chunk(
                chunk.choices.deep_view(),
                chunk.usage,
            ),
            OpenAIPayload::Invalid(error) => OpenAIPayloadModel::Invalid(error@),
        }
    }
}

pub struct OpenAIBatch {
    pub entries: Map<usize, CallSoFar>,
    pub items: Seq<StreamItemModel>,
    pub end: BatchEndModel,
}

/// What a batch of events does, one after the other up to the first that is done or
/// does not parse.
pub open spec fn openai_batch(
    entries: Map<usize, CallSoFar>,
    payloads: Seq<OpenAIPayloadModel>,
    provider: Seq<char>,
) -> OpenAIBatch
    decreases payloads.len(),
{
    if payloads.len() == 0 {
        OpenAIBatch { entries, items: Seq::empty(), end: BatchEndModel::Open }
    } else {
        let before = openai_batch(entries, payloads.drop_last(), provider);
        if before.end !is Open {
            before
        } else {
            match payloads.last() {
                OpenAIPayloadModel::Empty => before,
                OpenAIPayloadModel::Done => OpenAIBatch { end: BatchEndModel::Done, ..before },
                OpenAIPayloadModel::Chunk(choices, usage) => {
                    let step = chunk_step(before.entries, choices, usage);
                    OpenAIBatch {
                        entries: step.entries,
                        items: before.items + step.items,
                        end: BatchEndModel::Open,
                    }
                },
                OpenAIPayloadModel::Invalid(error) => OpenAIBatch {
                    end: BatchEndModel::Failed(
                        ProviderErrorModel::ResponseParse {
                            provider,
                            message: "failed to parse OpenAI streaming payload: "@ + error,
                        },
                    ),
                    ..before
                },
            }
        }
    }
}

proof fn lemma_openai_batch_stops(
    entries: Map<usize, CallSoFar>,
    payloads: Seq<OpenAIPayloadModel>,
    provider: Seq<char>,
    upto: int,
)
    requires
        0 <= upto <= payloads.len(),
        openai_batch(entries, payloads.take(upto), provider).end !is Open,
    ensures
        openai_batch(entries, payloads, provider) == openai_batch(
            entries,
            payloads.take(upto),
            provider,
        ),
    decreases payloads.len() - upto,
{
    if upto == payloads.len() {
        assert(payloads.take(upto) =~= payloads);
    } else {
        assert(payloads.take(upto + 1).drop_last() =~= payloads.take(upto));
        lemma_openai_batch_stops(entries, payloads, provider, upto + 1);
    }
}

/// What a batch of events hands out, and how it leaves the stream.
pub fn emit_stream_payloads(
    payloads: Vec<OpenAIPayload>,
    provider: &ProviderId,
    tool_call_accumulator: &mut ToolCallAccumulator,
) -> (r: StreamBatch)
    ensures
        ({
            let batch = openai_batch(
                old(tool_call_accumulator).entries(),
                payloads.deep_view(),
                provider.deep_view(),
            );
            &&& final(tool_call_accumulator).entries() == batch.entries
            &&& r.items.deep_view() == batch.items
            &&& r.end.deep_view() == batch.end
        }),
{
    let ghost models = payloads.deep_view();
    let ghost start = tool_call_accumulator.entries();
    let ghost name = provider.deep_view();
    let mut items: Vec<StreamItem> = Vec::new();
    let mut end = BatchEnd::Open;
    let ghost mut seen: int = 0;
    proof {
        assert(models.take(0) =~= Seq::empty());
        assert(items.deep_view() =~= Seq::empty());
    }
    for payload in it: payloads
        invariant
            it.seq() == payloads@,
            models == payloads.deep_view(),
            name == provider.deep_view(),
            0 <= seen <= it.index(),
            end.deep_view() is Open ==> seen == it.index(),
            ({
                let batch = openai_batch(start, models.take(seen), name);
                &&& tool_call_accumulator.entries() == batch.entries
                &&& items.deep_view() == batch.items
                &&& end.deep_view() == batch.end
            }),
    {
        if let BatchEnd::Open = &end {
            proof {
                assert(models.take(seen + 1).drop_last() =~= models.take(seen));
                assert(models.take(seen + 1).last() == payload.deep_view());
            }
            match payload {
                OpenAIPayload::Empty => {},
                OpenAIPayload::Done => {
                    end = BatchEnd::Done;
                },
                OpenAIPayload::Chunk(chunk) => {
                    let more = normalize_openai_stream_chunk(chunk, tool_call_accumulator);
                    append_items(&mut items, more);
                },
                OpenAIPayload::Invalid(error) => {
                    end = BatchEnd::Failed(openai_payload_error(provider, error.as_str()));
                },
            }
            proof {
                seen = seen + 1;
            }
        }
    }
    proof {
        assert(models.take(models.len() as int) =~= models);
        if end.deep_view() !is Open {
            lemma_openai_batch_stops(start, models, name, seen);
        }
    }
    StreamBatch { items, end }
}

/// What a stream still hands out that is over: a lost connection, if nothing ended it
/// before.
pub fn openai_stream_end(end: &BatchEnd) -> (r: Option<StreamItem>)
    ensures
        r.deep_view() == if end.deep_view() is Open {
            Some(StreamItemModel::ConnectionLost("OpenAI stream ended before [DONE] sentinel"@))
        } else {
            None::<StreamItemModel>
        },
{
    match end {
        BatchEnd::Open => Some(
            StreamItem::ConnectionLost("OpenAI stream ended before [DONE] sentinel".to_owned()),
        ),
        _ => None,
    }
}

/// What a stream hands out when its transport fails.
pub fn openai_transport_lost(error: &str) -> (r: StreamItem)
    ensures
        r.deep_view() == StreamItemModel::ConnectionLost(
            "OpenAI stream transport dropped: "@ + error@,
        ),
{
    StreamItem::ConnectionLost(concat("OpenAI stream transport dropped: ", error))
}

/// All the argument pieces of the call at that index, one after the other.
pub open spec fn arguments_in(fragments: Seq<CallFragment>, index: usize) -> Seq<char>
    decreases fragments.len(),
{
    if fragments.len() == 0 {
        Seq::empty()
    } else {
        let before = arguments_in(fragments.drop_last(), index);
        let last = fragments.last();
        if last.index == index && last.arguments is Some {
            before + last.arguments->0
        } else {
            before
        }
    }
}

/// However the arguments of a call are cut into pieces, and whatever pieces of other
/// calls come between them, what is known of them in the end is all of its pieces in
/// the order in which they came.
pub proof fn law_arguments_reassemble(fragments: Seq<CallFragment>, index: usize)
    ensures
        known(
            fragments_step(
                ChunkStep { entries: Map::empty(), items: Seq::empty() },
                fragments,
            ).entries,
            index,
        ).arguments == arguments_in(fragments, index),
    decreases fragments.len(),
{
    if fragments.len() > 0 {
        law_arguments_reassemble(fragments.drop_last(), index);
    }
}

/// The delta of a piece with arguments carries all the arguments of its call that have
/// come so far.
pub proof fn law_delta_carries_all_arguments(fragments: Seq<CallFragment>, last: CallFragment)
    requires
        last.arguments is Some,
    ensures
        merged_delta(
            fragments_step(
                ChunkStep { entries: Map::empty(), items: Seq::empty() },
                fragments,
            ).entries,
            last,
        ).arguments == Some(arguments_in(fragments.push(last), last.index)),
{
    law_arguments_reassemble(fragments, last.index);
    assert(fragments.push(last).drop_last() =~= fragments);
}

/// Every message of a conversation is sent, in its order and under its role, with what it
/// says, the identity of the call that it answers, and its calls one by one, each with its
/// identity, its name and the JSON text of its arguments.
pub proof fn law_messages_are_sent_as_they_are(
    context: Context,
    stream: bool,
    request: OpenAIChatCompletionRequest,
    i: int,
    j: int,
)
    requires
        call_ensures(
            OpenAIChatCompletionRequest::from_context_with_stream,
            (&context, stream),
            request,
        ),
        0 <= i < context.messages@.len(),
    ensures
        request.messages@.len() == context.messages@.len(),
        ({
            let message = context.messages@[i];
            let sent = request.messages@[i];
            &&& message.role == MessageRole::System ==> sent.role@ == "system"@
            &&& message.role == MessageRole::User ==> sent.role@ == "user"@
            &&& message.role == MessageRole::Assistant ==> sent.role@ == "assistant"@
            &&& message.role == MessageRole::Tool ==> sent.role@ == "tool"@
            &&& match message.content {
                Some(content) => sent.content matches Some(said) && said@ == content@,
                None => sent.content is None,
            }
            &&& match message.tool_call_id {
                Some(id) => sent.tool_call_id matches Some(answers) && answers@ == id@,
                None => sent.tool_call_id is None,
            }
            &&& sent.tool_calls@.len() == message.tool_calls@.len()
            &&& 0 <= j < message.tool_calls@.len() ==> {
                let call = sent.tool_calls@[j];
                &&& call.id@ == message.tool_calls@[j].id@
                &&& call.kind@ == "function"@
                &&& call.function.name@ == message.tool_calls@[j].name@
                &&& call.function.arguments@ == json::tree_text(
                    message.tool_calls@[j].arguments.deep_view(),
                )
            }
        }),
{
    let models = context.messages.deep_view();
    let message = context.messages@[i];
    let sent = request.messages@[i];
    assert(models.len() == context.messages@.len());
    assert(request.messages.deep_view().len() == request.messages@.len());
    assert(models[i] == message.deep_view());
    assert(request.messages.deep_view()[i] == sent.deep_view());
    assert(sent.tool_calls.deep_view().len() == sent.tool_calls@.len());
    assert(message.tool_calls.deep_view().len() == message.tool_calls@.len());
    if 0 <= j < message.tool_calls@.len() {
        assert(message.tool_calls.deep_view()[j] == message.tool_calls@[j].deep_view());
        assert(sent.tool_calls.deep_view()[j] == sent.tool_calls@[j].deep_view());
    }
}

/// A request asks the model of its conversation, and offers it all the tools of its
/// conversation, in their order, to choose among where there are any. A streamed answer
/// is asked to count its tokens too, and is the only thing in which the request for it
/// differs from the request for a whole one.
pub proof fn law_request_asks_the_model_of_its_conversation(
    context: Context,
    whole: OpenAIChatCompletionRequest,
    streamed: OpenAIChatCompletionRequest,
    i: int,
)
    requires
        call_ensures(OpenAIChatCompletionRequest::from_context, (&context,), whole),
        call_ensures(OpenAIChatCompletionRequest::from_stream_context, (&context,), streamed),
    ensures
        whole.model@ == context.model.0@,
        !whole.stream,
        whole.stream_options is None,
        streamed.stream,
        streamed.stream_options matches Some(options) && options.include_usage,
        streamed.model@ == whole.model@,
        streamed.messages.deep_view() == whole.messages.deep_view(),
        streamed.tools.deep_view() == whole.tools.deep_view(),
        whole.tools@.len() == context.tools@.len(),
        streamed.tool_choice.deep_view() == whole.tool_choice.deep_view(),
        context.tools@.len() == 0 ==> whole.tool_choice is None,
        context.tools@.len() > 0 ==> (whole.tool_choice matches Some(choice) && choice@ == "auto"@),
        0 <= i < context.tools@.len() ==> {
            let tool = context.tools@[i];
            let offered = whole.tools@[i];
            &&& offered.kind@ == "function"@
            &&& offered.function.name@ == tool.name@
            &&& match tool.description {
                Some(text) => offered.function.description matches Some(given) && given@ == text@,
                None => offered.function.description is None,
            }
            &&& offered.function.parameters.deep_view() == schema::strict_schema(
                tool.parameters.deep_view(),
            )
        },
{
    assert(context.tools.deep_view().len() == context.tools@.len());
    assert(whole.tools.deep_view().len() == whole.tools@.len());
    if 0 <= i < context.tools@.len() {
        assert(context.tools.deep_view()[i] == context.tools@[i].deep_view());
        assert(whole.tools.deep_view()[i] == whole.tools@[i].deep_view());
    }
}

proof fn lemma_answer_call_at(calls: Seq<OpenAICallModel>, i: int)
    requires
        answer_calls(calls) is Ok,
        0 <= i < calls.len(),
    ensures
        answer_calls(calls)->Ok_0.len() == calls.len(),
        answer_call(calls[i]) == Ok::<_, Seq<char>>(answer_calls(calls)->Ok_0[i]),
    decreases calls.len(),
{
    if calls.len() > 1 {
        lemma_answer_call_at(
            calls.drop_last(),
            if i < calls.len() - 1 {
                i
            } else {
                0
            },
        );
    } else {
        reveal_with_fuel(answer_calls, 2);
        assert(answer_calls(calls.drop_last())->Ok_0.len() == 0);
        assert(answer_calls(calls)->Ok_0.len() == 1);
    }
}

proof fn lemma_answer_calls_refuse(calls: Seq<OpenAICallModel>, i: int)
    requires
        0 <= i < calls.len(),
        answer_call(calls[i]) is Err,
    ensures
        answer_calls(calls) is Err,
    decreases calls.len(),
{
    if i < calls.len() - 1 {
        lemma_answer_calls_refuse(calls.drop_last(), i);
    }
}

/// An answer is its first choice: it says what that says, under the role that it names,
/// makes the calls that it makes, in their order, with what their arguments parse to, and
/// ends for its reason, with the tokens that were counted.
pub proof fn law_answer_is_the_first_choice(
    response: OpenAIChatCompletionResponse,
    provider: ProviderId,
    answer: Result<Response, ProviderError>,
    i: int,
)
    requires
        call_ensures(normalize_openai_response, (response, &provider), answer),
    ensures
        response.choices@.len() == 0 ==> answer is Err,
        answer matches Err(error) ==> (error matches ProviderError::ResponseParse {
            provider: named,
            ..
        } && named.0@ == provider.0@),
        answer matches Ok(given) ==> {
            let choice = response.choices@[0];
            let calls = choice.message.tool_calls@;
            &&& given.message.role == MessageRole::Assistant <==> choice.message.role@
                == "assistant"@
            &&& given.message.role == MessageRole::User <==> choice.message.role@ == "user"@
            &&& given.message.role == MessageRole::System <==> choice.message.role@ == "system"@
            &&& given.message.role == MessageRole::Tool <==> choice.message.role@ == "tool"@
            &&& match choice.message.content {
                Some(content) => given.message.content matches Some(said) && said@ == content@,
                None => given.message.content is None,
            }
            &&& given.message.tool_call_id is None
            &&& given.message.attachments@.len() == 0
            &&& given.message.tool_calls.deep_view() == given.tool_calls.deep_view()
            &&& given.tool_calls@.len() == calls.len()
            &&& 0 <= i < calls.len() ==> {
                &&& calls[i].kind@ == "function"@
                &&& given.tool_calls@[i].id@ == calls[i].id@
                &&& given.tool_calls@[i].name@ == calls[i].function.name@
                &&& json::parse_outcome(calls[i].function.arguments@) is Ok
                &&& json::parsed_tree(calls[i].function.arguments@)->0
                    == given.tool_calls@[i].arguments.deep_view()
                &&& given.tool_calls@[i].metadata is None
            }
            &&& match choice.finish_reason {
                Some(reason) => given.finish_reason matches Some(told) && told@ == reason@,
                None => given.finish_reason is None,
            }
            &&& match response.usage {
                Some(usage) => given.usage matches Some(counted) && counted.prompt_tokens
                    == usage.prompt_tokens && counted.completion_tokens == usage.completion_tokens
                    && counted.total_tokens == usage.total_tokens,
                None => given.usage is None,
            }
        },
        response.choices@.len() > 0 && 0 <= i < response.choices@[0].message.tool_calls@.len()
            && response.choices@[0].message.tool_calls@[i].kind@ != "function"@ ==> answer is Err,
{
    assert(response.choices.deep_view().len() == response.choices@.len());
    if response.choices@.len() > 0 {
        let choice = response.choices@[0];
        assert(response.choices.deep_view()[0] == choice.deep_view());
        let calls = choice.message.tool_calls;
        let models = calls.deep_view();
        assert(models.len() == calls@.len());
        if 0 <= i < calls@.len() {
            assert(models[i] == calls@[i].deep_view());
            if calls@[i].kind@ != "function"@ {
                lemma_answer_calls_refuse(models, i);
            }
        }
        if let Ok(given) = answer {
            if models.len() > 0 {
                lemma_answer_call_at(
                    models,
                    if 0 <= i < models.len() {
                        i
                    } else {
                        0
                    },
                );
            }
            assert(given.tool_calls.deep_view().len() == given.tool_calls@.len());
            assert(given.message.attachments.deep_view().len() == given.message.attachments@.len());
            if 0 <= i < calls@.len() {
                assert(given.tool_calls.deep_view()[i] == given.tool_calls@[i].deep_view());
            }
            law_roles_read_back(given.message.role, MessageRole::Assistant);
            law_roles_read_back(given.message.role, MessageRole::User);
            law_roles_read_back(given.message.role, MessageRole::System);
            law_roles_read_back(given.message.role, MessageRole::Tool);
        }
    }
}

/// What is handed out for two pieces of one call, whatever was known before: the second
/// carries the arguments of both behind what had come, and identity and name stay until
/// others take their place. The pieces of a call change nothing of another.
pub proof fn law_pieces_of_a_call_add_up(
    first: &mut ToolCallAccumulator,
    second: &mut ToolCallAccumulator,
    index: usize,
    other: usize,
    ids: (Option<String>, Option<String>),
    pieces: (OpenAIStreamFunctionDelta, OpenAIStreamFunctionDelta),
    deltas: (ToolCallDelta, ToolCallDelta),
)
    requires
        call_ensures(ToolCallAccumulator::merge, (first, index, ids.0, pieces.0), deltas.0),
        call_ensures(ToolCallAccumulator::merge, (second, index, ids.1, pieces.1), deltas.1),
        final(first).entries() == old(second).entries(),
        other != index,
    ensures
        deltas.0.index == index,
        deltas.1.index == index,
        ids.0 matches Some(id) ==> (deltas.0.id matches Some(told) && told@ == id@),
        pieces.0.name matches Some(name) ==> (deltas.0.name matches Some(told) && told@ == name@),
        ids.1 matches Some(id) ==> (deltas.1.id matches Some(told) && told@ == id@),
        ids.1 is None ==> deltas.1.id.deep_view() == deltas.0.id.deep_view(),
        pieces.1.name matches Some(name) ==> (deltas.1.name matches Some(told) && told@ == name@),
        pieces.1.name is None ==> deltas.1.name.deep_view() == deltas.0.name.deep_view(),
        deltas.0.arguments is Some <==> pieces.0.arguments is Some,
        deltas.1.arguments is Some <==> pieces.1.arguments is Some,
        deltas.0.metadata is None,
        pieces.0.arguments matches Some(one) ==> (pieces.1.arguments matches Some(two)
            ==> deltas.1.arguments->0@ == deltas.0.arguments->0@ + two@),
        !old(first).entries().dom().contains(index) ==> (pieces.0.arguments matches Some(one)
            ==> deltas.0.arguments->0@ == one@),
        final(second).entries().dom().contains(other) <==> old(first).entries().dom().contains(
            other,
        ),
        old(first).entries().dom().contains(other) ==> final(second).entries()[other] == old(
            first,
        ).entries()[other],
{
    if pieces.0.arguments is Some && !old(first).entries().dom().contains(index) {
        let one = pieces.0.arguments->0@;
        assert(Seq::<char>::empty() + one =~= one);
    }
}

/// A piece of a call holds something.
pub open spec fn tells_something(fragment: OpenAIStreamToolCallDelta) -> bool {
    fragment.id is Some || (fragment.function matches Some(function) && (function.name is Some
        || function.arguments is Some))
}

/// How many of the first pieces hold something.
pub open spec fn telling_before(fragments: Seq<OpenAIStreamToolCallDelta>, f: int) -> nat
    decreases f,
{
    if f <= 0 {
        0
    } else {
        telling_before(fragments, f - 1) + if tells_something(fragments[f - 1]) {
            1nat
        } else {
            0
        }
    }
}

proof fn lemma_fragments(
    step: ChunkStep,
    fragments: Seq<OpenAIStreamToolCallDelta>,
    models: Seq<CallFragment>,
    n: int,
    f: int,
)
    requires
        models.len() == fragments.len(),
        forall|k: int|
            0 <= k < fragments.len() ==> #[trigger] models[k] == fragments[k].deep_view(),
        0 <= n <= fragments.len(),
    ensures
        ({
            let after = fragments_step(step, models.take(n)).items;
            &&& after.len() == step.items.len() + telling_before(fragments, n)
            &&& forall|k: int| 0 <= k < step.items.len() ==> #[trigger] after[k] == step.items[k]
            &&& 0 <= f < n && tells_something(fragments[f]) ==> ({
                let at = step.items.len() + telling_before(fragments, f);
                &&& at < after.len()
                &&& after[at as int] == StreamItemModel::ToolCallDelta(
                    merged_delta(fragments_step(step, models.take(f)).entries, models[f]),
                )
            })
        }),
    decreases n,
{
    if n == 0 {
        assert(models.take(0) =~= Seq::empty());
    } else {
        assert(models.take(n).drop_last() =~= models.take(n - 1));
        assert(models.take(n).last() == models[n - 1]);
        lemma_fragments(step, fragments, models, n - 1, f);
    }
}

/// An event with one choice hands out its token counts, its text, its reasoning, the
/// pieces of its calls and why it ended, each as it came, in this order and as far as it
/// has them.
pub proof fn law_choice_is_streamed_in_order(
    chunk: OpenAIChatCompletionStreamChunk,
    accumulator: &mut ToolCallAccumulator,
    items: Vec<StreamItem>,
    f: int,
)
    requires
        call_ensures(normalize_openai_stream_chunk, (chunk, accumulator), items),
        chunk.choices@.len() == 1,
    ensures
        ({
            let choice = chunk.choices@[0];
            let fragments = choice.delta.tool_calls@;
            let counted: int = if chunk.usage is Some {
                1
            } else {
                0
            };
            let said: int = if choice.delta.content matches Some(text) && text@.len() > 0 {
                1
            } else {
                0
            };
            let reasoned: int = if choice.delta.reasoning matches Some(text) && text@.len() > 0 {
                1
            } else {
                0
            };
            let ended: int = if choice.finish_reason matches Some(text) && text@.len() > 0 {
                1
            } else {
                0
            };
            let calls = counted + said + reasoned;
            &&& items@.len() == calls + telling_before(fragments, fragments.len() as int) + ended
            &&& chunk.usage matches Some(usage) ==> (items@[0] matches StreamItem::UsageUpdate(given)
                && given.prompt_tokens == usage.prompt_tokens && given.completion_tokens
                == usage.completion_tokens && given.total_tokens == usage.total_tokens)
            &&& said == 1 ==> (items@[counted] matches StreamItem::Text(text) && text@
                == choice.delta.content->0@)
            &&& reasoned == 1 ==> (items@[counted + said] matches StreamItem::ReasoningDelta(text)
                && text@ == choice.delta.reasoning->0@)
            &&& 0 <= f < fragments.len() && tells_something(fragments[f]) ==> ({
                let piece = fragments[f];
                &&& items@[calls + telling_before(fragments, f)] matches StreamItem::ToolCallDelta(
                    delta,
                )
                &&& delta.index == piece.index
                &&& piece.id matches Some(id) ==> (delta.id matches Some(told) && told@ == id@)
                &&& piece.function matches Some(function) ==> {
                    &&& function.name matches Some(name) ==> (delta.name matches Some(told) && told@
                        == name@)
                    &&& function.arguments matches Some(more) ==> (
                    delta.arguments matches Some(told) && more@.len() <= told@.len() && told@.skip(
                        told@.len() - more@.len(),
                    ) == more@)
                    &&& function.arguments is None ==> delta.arguments is None
                }
            })
            &&& ended == 1 ==> (items@[items@.len() - 1] matches StreamItem::FinishReason(reason)
                && reason@ == choice.finish_reason->0@)
        }),
{
    let choice = chunk.choices@[0];
    let choices = chunk.choices.deep_view();
    assert(choices.len() == 1);
    assert(choices[0] == choice.deep_view());
    assert(choices.drop_last() =~= Seq::empty());
    assert(choices.last() == choice.deep_view());
    let fragments = choice.delta.tool_calls@;
    let models = choice.delta.tool_calls.deep_view();
    assert(models.len() == fragments.len());
    assert forall|k: int| 0 <= k < fragments.len() implies #[trigger] models[k]
        == fragments[k].deep_view() by {}
    assert(models.take(models.len() as int) =~= models);
    let entries = old(accumulator).entries();
    let counts = match chunk.usage {
        Some(usage) => seq![StreamItemModel::UsageUpdate(usage_of(usage))],
        None => Seq::empty(),
    };
    let start = ChunkStep { entries, items: counts };
    reveal_with_fuel(choices_step, 2);
    let whole = choice_step(start, choice.deep_view());
    assert(chunk_step(entries, choices, chunk.usage) == whole);
    let model = choice.deep_view();
    let with_text = if some_text(model.content) {
        counts.push(StreamItemModel::Text(model.content->0))
    } else {
        counts
    };
    let with_reasoning = if some_text(model.reasoning) {
        with_text.push(StreamItemModel::ReasoningDelta(model.reasoning->0))
    } else {
        with_text
    };
    let before = ChunkStep { entries, items: with_reasoning };
    lemma_fragments(before, fragments, models, fragments.len() as int, f);
    let list = items.deep_view();
    assert(list.len() == items@.len());
    assert(list == whole.items);
    let calls = with_reasoning.len() as int;
    let after = fragments_step(before, models).items;
    assert forall|k: int| 0 <= k < list.len() implies #[trigger] items@[k].deep_view()
        == list[k] by {}
    if chunk.usage is Some {
        assert(after[0] == with_reasoning[0]);
        assert(items@[0].deep_view() == list[0]);
    }
    if some_text(model.content) {
        let at = counts.len() as int;
        assert(after[at] == with_reasoning[at]);
        assert(items@[at].deep_view() == list[at]);
    }
    if some_text(model.reasoning) {
        let at = with_text.len() as int;
        assert(after[at] == with_reasoning[at]);
        assert(items@[at].deep_view() == list[at]);
    }
    if 0 <= f < fragments.len() && tells_something(fragments[f]) {
        let at = calls + telling_before(fragments, f);
        assert(list[at] == after[at]);
        assert(items@[at].deep_view() == list[at]);
        let known_before = fragments_step(before, models.take(f)).entries;
        assert(models[f] == fragments[f].deep_view());
        if let Some(function) = fragments[f].function {
            if let Some(more) = function.arguments {
                let so_far = known(known_before, models[f].index).arguments;
                assert((so_far + more@).skip(so_far.len() as int) =~= more@);
            }
        }
    }
    if some_text(model.finish_reason) {
        let at = list.len() - 1;
        assert(items@[at].deep_view() == list[at]);
    }
}

/// A stream is complete once it says so, whatever still comes behind that; a stream that
/// is over before has lost its connection.
pub proof fn law_stream_is_over_when_it_says_so(
    payloads: Vec<OpenAIPayload>,
    provider: ProviderId,
    accumulator: &mut ToolCallAccumulator,
    batch: StreamBatch,
    last: Option<StreamItem>,
    k: int,
)
    requires
        call_ensures(emit_stream_payloads, (payloads, &provider, accumulator), batch),
        call_ensures(openai_stream_end, (&batch.end,), last),
        0 <= k <= payloads@.len(),
        forall|i: int|
            0 <= i < k ==> (#[trigger] payloads@[i] is Empty || payloads@[i] is Chunk),
    ensures
        k == payloads@.len() ==> batch.end is Open && (
        last matches Some(StreamItem::ConnectionLost(_))),
        k < payloads@.len() && payloads@[k] is Done ==> batch.end is Done && last is None,
        k < payloads@.len() && payloads@[k] is Invalid ==> (batch.end matches BatchEnd::Failed(
            ProviderError::ResponseParse { provider: named, .. },
        ) && named.0@ == provider.0@ && last is None),
{
    let models = payloads.deep_view();
    assert(models.len() == payloads@.len());
    let entries = old(accumulator).entries();
    assert forall|i: int| 0 <= i < payloads@.len() implies #[trigger] models[i]
        == payloads@[i].deep_view() by {}
    lemma_batch_stays_open(entries, payloads@, models, provider.0@, k);
    if k < payloads@.len() {
        assert(models.take(k + 1).drop_last() =~= models.take(k));
        assert(models.take(k + 1).last() == models[k]);
        if payloads@[k] is Done || payloads@[k] is Invalid {
            lemma_openai_batch_stops(entries, models, provider.0@, k + 1);
        }
    } else {
        assert(models.take(k) =~= models);
    }
}

proof fn lemma_batch_stays_open(
    entries: Map<usize, CallSoFar>,
    payloads: Seq<OpenAIPayload>,
    models: Seq<OpenAIPayloadModel>,
    provider: Seq<char>,
    k: int,
)
    requires
        models.len() == payloads.len(),
        forall|i: int| 0 <= i < payloads.len() ==> #[trigger] models[i] == payloads[i].deep_view(),
        0 <= k <= payloads.len(),
        forall|i: int| 0 <= i < k ==> (#[trigger] payloads[i] is Empty || payloads[i] is Chunk),
    ensures
        openai_batch(entries, models.take(k), provider).end is Open,
    decreases k,
{
    if k > 0 {
        assert(models.take(k).drop_last() =~= models.take(k - 1));
        assert(models.take(k).last() == models[k - 1]);
        assert(payloads[k - 1] is Empty || payloads[k - 1] is Chunk);
        lemma_batch_stays_open(entries, payloads, models, provider, k - 1);
    }
}

/// A batch that is handed on in two parts hands out what it hands out at once.
pub proof fn law_batches_can_be_cut(
    whole: Vec<OpenAIPayload>,
    first: Vec<OpenAIPayload>,
    last: OpenAIChatCompletionStreamChunk,
    provider: ProviderId,
    one: &mut ToolCallAccumulator,
    two: &mut ToolCallAccumulator,
    three: &mut ToolCallAccumulator,
    at_once: StreamBatch,
    before: StreamBatch,
    more: Vec<StreamItem>,
)
    requires
        call_ensures(emit_stream_payloads, (whole, &provider, one), at_once),
        call_ensures(emit_stream_payloads, (first, &provider, two), before),
        call_ensures(normalize_openai_stream_chunk, (last, three), more),
        whole@ == first@.push(OpenAIPayload::Chunk(last)),
        old(one).entries() == old(two).entries(),
        final(two).entries() == old(three).entries(),
        before.end is Open,
    ensures
        at_once.end is Open,
        at_once.items.deep_view() == before.items.deep_view() + more.deep_view(),
        final(one).entries() == final(three).entries(),
{
    let models = whole.deep_view();
    assert(models.len() == whole@.len());
    assert(models.drop_last() =~= first.deep_view());
    assert(models.last() == whole@[whole@.len() - 1].deep_view());
}

/// A role is called by its name, and is found by it again; no other name is a role.
pub proof fn law_roles_are_called_by_their_names(
    role: MessageRole,
    name: &'static str,
    word: &str,
    r: Option<MessageRole>,
)
    requires
        call_ensures(message_role_to_openai_role, (&role,), name),
        call_ensures(openai_role_to_message_role, (word,), r),
    ensures
        name@ == match role {
            MessageRole::System => "system"@,
            MessageRole::User => "user"@,
            MessageRole::Assistant => "assistant"@,
            MessageRole::Tool => "tool"@,
        },
        word@ == "system"@ ==> r == Some(MessageRole::System),
        word@ == "user"@ ==> r == Some(MessageRole::User),
        word@ == "assistant"@ ==> r == Some(MessageRole::Assistant),
        word@ == "tool"@ ==> r == Some(MessageRole::Tool),
        r is Some ==> word@ == "system"@ || word@ == "user"@ || word@ == "assistant"@ || word@
            == "tool"@,
{
    reveal_strlit("system");
    reveal_strlit("user");
    reveal_strlit("assistant");
    reveal_strlit("tool");
    assert("user"@[0] == 'u' && "tool"@[0] == 't');
    assert(openai_role(MessageRole::System) == "system"@);
    assert(openai_role(MessageRole::User) == "user"@);
    assert(openai_role(MessageRole::Assistant) == "assistant"@);
    assert(openai_role(MessageRole::Tool) == "tool"@);
}

/// A call in an answer keeps its identity and its name, and its arguments are what they
/// parse to; one that is no call of a function, or whose arguments do not parse, is refused
/// with what is wrong.
pub proof fn law_call_keeps_its_arguments(
    call: OpenAIResponseToolCall,
    arguments: Result<Json, String>,
    r: Result<ToolCall, String>,
)
    requires
        call_ensures(call_with_arguments, (&call, arguments), r),
    ensures
        r is Ok <==> call.kind@ == "function"@ && arguments is Ok,
        r matches Ok(read) ==> read.id@ == call.id@ && read.name@ == call.function.name@
            && read.arguments.deep_view() == arguments->Ok_0.deep_view() && read.metadata is None,
        call.kind@ != "function"@ ==> (r matches Err(message) && text::stands_in(
            message@,
            call.kind@,
        )),
        call.kind@ == "function"@ ==> (arguments matches Err(why) ==> (r matches Err(message)
            && text::stands_in(message@, call.id@) && text::stands_in(message@, why@))),
{
    text::lemma_parts_stand_in();
}

/// The text of an event is what its white space leaves of it; nothing is parsed of an empty
/// one, nor of the one that ends the stream.
pub proof fn law_event_text_is_trimmed(payload: &str, r: StreamPayload)
    requires
        call_ensures(openai_stream_payload, (payload,), r),
    ensures
        r is Empty <==> text::trimmed(payload@).len() == 0,
        r is Done <==> text::trimmed(payload@) == "[DONE]"@,
        r matches StreamPayload::Parse(inner) ==> inner@ == text::trimmed(payload@),
{
    reveal_strlit("[DONE]");
}

} // verus!
