//! Requests to OpenAI's Responses API, what the answers mean, and how one request
//! builds on the answer to the one before.

use crate::endpoint::OPENAI_RESPONSES_PATH;
use crate::json;
use crate::schema;
use crate::text;
use crate::json::{Json, JsonTree, parse_json};
use crate::model::{
    clone_tool_calls, request_failed, response_parse, Context, ContextModel, Message, MessageModel,
    MessageRole, ProviderError, ProviderErrorModel, ProviderId, Response, ResponseModel,
    StreamItem, StreamItemModel, ToolCall, ToolCallDelta, ToolCallDeltaModel, ToolCallModel,
    UsageUpdate,
};
use crate::schema::{
    FunctionDecl, FunctionDeclModel, JsonSchema, sanitize_schema_strict, SchemaModel,
};
use crate::stream::{append_items, BatchEnd, BatchEndModel, StreamBatch};
use crate::text::{concat, join, same_text, trim};
use std::collections::BTreeMap;
use vstd::prelude::*;

verus! {

broadcast use vstd::std_specs::btree::group_btree_axioms;

/// The address that responses are asked at.
pub fn responses_url(base_url: &str) -> (r: String)
    ensures
        r@ == base_url@ + OPENAI_RESPONSES_PATH@,
{
    concat(base_url, OPENAI_RESPONSES_PATH)
}

#[derive(Debug, PartialEq, Eq)]
pub enum ResponsesInputItem {
    Message { role: String, content: String },
    FunctionCall { call_id: String, name: String, arguments: String },
    FunctionCallOutput { call_id: String, output: String },
}

#[derive(Debug, PartialEq, Eq)]
pub struct ResponsesToolDeclaration {
    pub kind: String,
    pub name: String,
    pub description: Option<String>,
    pub parameters: JsonSchema,
    pub strict: Option<bool>,
}

#[derive(Debug, PartialEq, Eq)]
pub struct ResponsesApiRequest {
    pub model: String,
    pub input: Vec<ResponsesInputItem>,
    pub previous_response_id: Option<String>,
    pub instructions: Option<String>,
    pub tools: Vec<ResponsesToolDeclaration>,
    pub store: bool,
    pub stream: bool,
}

pub enum InputItemModel {
    Message { role: Seq<char>, content: Seq<char> },
    FunctionCall { call_id: Seq<char>, name: Seq<char>, arguments: Seq<char> },
    FunctionCallOutput { call_id: Seq<char>, output: Seq<char> },
}

pub struct DeclarationModel {
    pub kind: Seq<char>,
    pub name: Seq<char>,
    pub description: Option<Seq<char>>,
    pub parameters: SchemaModel,
    pub strict: Option<bool>,
}

pub struct ResponsesRequestModel {
    pub model: Seq<char>,
    pub input: Seq<InputItemModel>,
    pub previous_response_id: Option<Seq<char>>,
    pub instructions: Option<Seq<char>>,
    pub tools: Seq<DeclarationModel>,
    pub store: bool,
    pub stream: bool,
}

impl DeepView for ResponsesInputItem {
    type V = InputItemModel;

    open spec fn deep_view(&self) -> InputItemModel {
        match *self {
            ResponsesInputItem::Message { role, content } => InputItemModel::Message {
                role: role@,
                content: content@,
            },
            ResponsesInputItem::FunctionCall { call_id, name, arguments } => {
                InputItemModel::FunctionCall {
                    call_id: call_id@,
                    name: name@,
                    arguments: arguments@,
                }
            },
            ResponsesInputItem::FunctionCallOutput { call_id, output } => {
                InputItemModel::FunctionCallOutput { call_id: call_id@, output: output@ }
            },
        }
    }
}

impl DeepView for ResponsesToolDeclaration {
    type V = DeclarationModel;

    open spec fn deep_view(&self) -> DeclarationModel {
        DeclarationModel {
            kind: self.kind@,
            name: self.name@,
            description: self.description.deep_view(),
            parameters: self.parameters.deep_view(),
            strict: self.strict,
        }
    }
}

impl DeepView for ResponsesApiRequest {
    type V = ResponsesRequestModel;

    open spec fn deep_view(&self) -> ResponsesRequestModel {
        ResponsesRequestModel {
            model: self.model@,
            input: self.input.deep_view(),
            previous_response_id: self.previous_response_id.deep_view(),
            instructions: self.instructions.deep_view(),
            tools: self.tools.deep_view(),
            store: self.store,
            stream: self.stream,
        }
    }
}

/// A text that is there and holds more than white space.
pub open spec fn spoken(content: Option<Seq<char>>) -> Option<Seq<char>> {
    match content {
        Some(text) => if text::trimmed(text).len() > 0 {
            Some(text)
        } else {
            None
        },
        None => None,
    }
}

pub open spec fn text_or_empty(content: Option<Seq<char>>) -> Seq<char> {
    match content {
        Some(text) => text,
        None => Seq::empty(),
    }
}

pub open spec fn message_item(role: Seq<char>, content: Option<Seq<char>>) -> Seq<
    InputItemModel,
> {
    match spoken(content) {
        Some(text) => seq![InputItemModel::Message { role, content: text }],
        None => Seq::empty(),
    }
}

/// The input that a message becomes.
pub open spec fn input_of(message: MessageModel) -> Seq<InputItemModel> {
    match message.role {
        MessageRole::System => Seq::empty(),
        MessageRole::User => message_item("user"@, message.content),
        MessageRole::Assistant => message_item("assistant"@, message.content)
            + message.tool_calls.map_values(
            |call: ToolCallModel|
                InputItemModel::FunctionCall {
                    call_id: call.id,
                    name: call.name,
                    arguments: json::tree_text(call.arguments),
                },
        ),
        MessageRole::Tool => seq![
            InputItemModel::FunctionCallOutput {
                call_id: text_or_empty(message.tool_call_id),
                output: text_or_empty(message.content),
            },
        ],
    }
}

pub open spec fn inputs_of(messages: Seq<MessageModel>) -> Seq<InputItemModel>
    decreases messages.len(),
{
    if messages.len() == 0 {
        Seq::empty()
    } else {
        inputs_of(messages.drop_last()) + input_of(messages.last())
    }
}

/// What the system messages say.
pub open spec fn instructions_of(messages: Seq<MessageModel>) -> Seq<Seq<char>>
    decreases messages.len(),
{
    if messages.len() == 0 {
        Seq::empty()
    } else {
        let before = instructions_of(messages.drop_last());
        if messages.last().role == MessageRole::System && spoken(messages.last().content) is Some {
            before.push(spoken(messages.last().content)->0)
        } else {
            before
        }
    }
}

/// How many messages the answer that a request builds on has seen already.
pub open spec fn seen_messages(chained: bool, last_input_count: nat, messages: nat) -> nat {
    if chained {
        if last_input_count <= messages {
            last_input_count
        } else {
            messages
        }
    } else {
        0
    }
}

pub open spec fn declaration_of(tool: FunctionDeclModel) -> DeclarationModel {
    DeclarationModel {
        kind: "function"@,
        name: tool.name,
        description: tool.description,
        parameters: schema::strict_schema(tool.parameters),
        strict: None,
    }
}

/// The request that a conversation becomes. Where it builds on an earlier answer, it
/// holds only the messages that have come since, and no instructions.
pub open spec fn responses_request(
    context: ContextModel,
    previous_response_id: Option<Seq<char>>,
    last_input_count: nat,
) -> ResponsesRequestModel {
    let seen = seen_messages(previous_response_id is Some, last_input_count, context.messages.len());
    let messages = context.messages.skip(seen as int);
    ResponsesRequestModel {
        model: context.model,
        input: inputs_of(messages),
        previous_response_id,
        instructions: if seen == 0 && instructions_of(messages).len() > 0 {
            Some(text::joined(instructions_of(messages), "\n"@))
        } else {
            None
        },
        tools: context.tools.map_values(|tool: FunctionDeclModel| declaration_of(tool)),
        store: true,
        stream: false,
    }
}

fn has_speech(content: &Option<String>) -> (r: bool)
    ensures
        r == (spoken(content.deep_view()) is Some),
{
    match content {
        Some(text) => !trim(text.as_str()).as_str().is_empty(),
        None => false,
    }
}

fn owned_or_empty(content: &Option<String>) -> (r: String)
    ensures
        r@ == text_or_empty(content.deep_view()),
{
    match content {
        Some(text) => text.clone(),
        None => String::new(),
    }
}

fn push_message(input: &mut Vec<ResponsesInputItem>, role: &str, content: &Option<String>)
    ensures
        final(input).deep_view() == old(input).deep_view() + message_item(
            role@,
            content.deep_view(),
        ),
{
    if has_speech(content) {
        input.push(
            ResponsesInputItem::Message {
                role: role.to_owned(),
                content: owned_or_empty(content),
            },
        );
    }
    proof {
        assert(input.deep_view() =~= old(input).deep_view() + message_item(
            role@,
            content.deep_view(),
        ));
    }
}

fn push_calls(input: &mut Vec<ResponsesInputItem>, calls: &Vec<ToolCall>)
    ensures
        final(input).deep_view() == old(input).deep_view() + calls.deep_view().map_values(
            |call: ToolCallModel|
                InputItemModel::FunctionCall {
                    call_id: call.id,
                    name: call.name,
                    arguments: json::tree_text(call.arguments),
                },
        ),
{
    let ghost start = input.deep_view();
    let ghost items = calls.deep_view().map_values(
        |call: ToolCallModel|
            InputItemModel::FunctionCall {
                call_id: call.id,
                name: call.name,
                arguments: json::tree_text(call.arguments),
            },
    );
    let mut i: usize = 0;
    proof {
        assert(start + items.take(0) =~= start);
    }
    while i < calls.len()
        invariant
            i <= calls.len(),
            items == calls.deep_view().map_values(
                |call: ToolCallModel|
                    InputItemModel::FunctionCall {
                        call_id: call.id,
                        name: call.name,
                        arguments: json::tree_text(call.arguments),
                    },
            ),
            input.deep_view() == start + items.take(i as int),
        decreases calls.len() - i,
    {
        let ghost before = input.deep_view();
        input.push(
            ResponsesInputItem::FunctionCall {
                call_id: calls[i].id.clone(),
                name: calls[i].name.clone(),
                arguments: calls[i].arguments.to_text(),
            },
        );
        proof {
            assert(input.deep_view() =~= before.push(items[i as int]));
            assert(start + items.take(i as int + 1) =~= (start + items.take(i as int)).push(
                items[i as int],
            ));
        }
        i += 1;
    }
    proof {
        assert(items.take(i as int) =~= items);
    }
}

fn push_input(input: &mut Vec<ResponsesInputItem>, message: &Message)
    ensures
        final(input).deep_view() == old(input).deep_view() + input_of(message.deep_view()),
{
    let ghost start = input.deep_view();
    match message.role {
        MessageRole::System => {},
        MessageRole::User => {
            push_message(input, "user", &message.content);
        },
        MessageRole::Assistant => {
            push_message(input, "assistant", &message.content);
            push_calls(input, &message.tool_calls);
        },
        MessageRole::Tool => {
            input.push(
                ResponsesInputItem::FunctionCallOutput {
                    call_id: owned_or_empty(&message.tool_call_id),
                    output: owned_or_empty(&message.content),
                },
            );
        },
    }
    proof {
        assert(input.deep_view() =~= start + input_of(message.deep_view()));
    }
}

impl ResponsesToolDeclaration {
    pub fn from(tool: &FunctionDecl) -> (r: Self)
        ensures
            r.deep_view() == declaration_of(tool.deep_view()),
    {
        ResponsesToolDeclaration {
            kind: "function".to_owned(),
            name: tool.name.clone(),
            description: tool.description.clone(),
            parameters: sanitize_schema_strict(&tool.parameters),
            strict: None,
        }
    }
}

impl ResponsesApiRequest {
    /// The request that a conversation becomes, on top of an earlier answer that has
    /// seen so many of its messages, or from the start.
    pub fn from_context(
        context: &Context,
        previous_response_id: Option<String>,
        last_input_count: usize,
    ) -> (r: Self)
        ensures
            r.deep_view() == responses_request(
                context.deep_view(),
                previous_response_id.deep_view(),
                last_input_count as nat,
            ),
    {
        let start: usize = if previous_response_id.is_some() {
            if last_input_count <= context.messages.len() {
                last_input_count
            } else {
                context.messages.len()
            }
        } else {
            0
        };
        let ghost models = context.messages.deep_view().skip(start as int);
        let mut said: Vec<String> = Vec::new();
        let mut input: Vec<ResponsesInputItem> = Vec::new();
        let mut i: usize = start;
        proof {
            assert(models.take(0) =~= Seq::empty());
            assert(said.deep_view() =~= Seq::empty());
            assert(input.deep_view() =~= Seq::empty());
        }
        while i < context.messages.len()
            invariant
                start <= i <= context.messages.len(),
                models == context.messages.deep_view().skip(start as int),
                said.deep_view() == instructions_of(models.take(i - start)),
                input.deep_view() == inputs_of(models.take(i - start)),
            decreases context.messages.len() - i,
        {
            let message = &context.messages[i];
            let ghost before = said.deep_view();
            proof {
                assert(models.take(i - start + 1).drop_last() =~= models.take(i - start));
                assert(models.take(i - start + 1).last() == message.deep_view());
            }
            if message.role == MessageRole::System && has_speech(&message.content) {
                said.push(owned_or_empty(&message.content));
                proof {
                    assert(said.deep_view() =~= before.push(
                        text_or_empty(message.content.deep_view()),
                    ));
                }
            }
            push_input(&mut input, message);
            i += 1;
        }
        proof {
            assert(models.take(i - start) =~= models);
        }
        let instructions = if start == 0 && said.len() > 0 {
            Some(join(&said, "\n"))
        } else {
            None
        };
        let mut tools: Vec<ResponsesToolDeclaration> = Vec::new();
        let mut k: usize = 0;
        while k < context.tools.len()
            invariant
                k <= context.tools.len(),
                tools.len() == k,
                forall|j: int|
                    0 <= j < k ==> (#[trigger] tools@[j]).deep_view() == declaration_of(
                        context.tools@[j].deep_view(),
                    ),
            decreases context.tools.len() - k,
        {
            tools.push(ResponsesToolDeclaration::from(&context.tools[k]));
            k += 1;
        }
        proof {
            assert(tools.deep_view() =~= context.deep_view().tools.map_values(
                |tool: FunctionDeclModel| declaration_of(tool),
            ));
        }
        ResponsesApiRequest {
            model: context.model.0.clone(),
            input,
            previous_response_id,
            instructions,
            tools,
            store: true,
            stream: false,
        }
    }
}

/// The answer that the next request builds on, and how many messages it has seen.
#[derive(Debug, PartialEq, Eq)]
pub struct ChainingState {
    pub previous_response_id: Option<String>,
    pub last_input_count: usize,
}

/// What to do about an answer whose status is no success.
#[derive(Debug, Clone, Copy, PartialEq, Eq, Structural)]
pub enum FailedRequest {
    /// Send the conversation again, from the start.
    StartOver,
    /// Hand the failure on.
    GiveUp,
}

impl ChainingState {
    /// Nothing to build on.
    pub fn new() -> (r: Self)
        ensures
            r.previous_response_id is None,
            r.last_input_count == 0,
    {
        ChainingState { previous_response_id: None, last_input_count: 0 }
    }

    /// Forgets the answer.
    pub fn reset_chaining_state(&mut self)
        ensures
            final(self).previous_response_id is None,
            final(self).last_input_count == 0,
    {
        self.previous_response_id = None;
        self.last_input_count = 0;
    }

    /// Remembers an answer.
    pub fn update_chaining_state(&mut self, response_id: String, message_count: usize)
        ensures
            final(self).previous_response_id.deep_view() == Some(response_id@),
            final(self).last_input_count == message_count,
    {
        self.previous_response_id = Some(response_id);
        self.last_input_count = message_count;
    }

    /// The next request.
    pub fn build_request(&self, context: &Context) -> (r: ResponsesApiRequest)
        ensures
            r.deep_view() == responses_request(
                context.deep_view(),
                self.previous_response_id.deep_view(),
                self.last_input_count as nat,
            ),
    {
        ResponsesApiRequest::from_context(
            context,
            self.previous_response_id.clone(),
            self.last_input_count,
        )
    }

    /// What to do about an answer whose status is no success. Where the request built
    /// on an earlier answer and was refused as bad, that answer is forgotten.
    pub fn after_failure(&mut self, attempted_with_chaining: bool, status: u16) -> (r:
        FailedRequest)
        ensures
            if attempted_with_chaining && 400 <= status < 500 {
                &&& r == FailedRequest::StartOver
                &&& final(self).previous_response_id is None
                &&& final(self).last_input_count == 0
            } else {
                &&& r == FailedRequest::GiveUp
                &&& *final(self) == *old(self)
            },
    {
        if attempted_with_chaining && 400 <= status && status < 500 {
            self.reset_chaining_state();
            FailedRequest::StartOver
        } else {
            FailedRequest::GiveUp
        }
    }
}

#[derive(Debug, PartialEq, Eq)]
pub enum ResponsesOutputContent {
    OutputText { text: String },
}

#[derive(Debug, PartialEq, Eq)]
pub enum ResponsesOutputBlock {
    Message { role: String, content: Vec<ResponsesOutputContent> },
    FunctionCall { call_id: String, name: String, arguments: String },
}

#[derive(Debug, Clone, Copy, PartialEq, Eq)]
pub struct ResponsesUsage {
    pub input_tokens: Option<u64>,
    pub output_tokens: Option<u64>,
    pub total_tokens: Option<u64>,
}

#[derive(Debug, PartialEq, Eq)]
pub struct ResponsesApiResponse {
    pub id: Option<String>,
    pub output: Vec<ResponsesOutputBlock>,
    pub status: Option<String>,
    pub usage: Option<ResponsesUsage>,
}

/// An answer, and under which identity later requests can build on it.
#[derive(Debug, PartialEq)]
pub struct NormalizedResponses {
    pub response: Response,
    pub response_id: Option<String>,
}

pub enum OutputModel {
    Message(Seq<Seq<char>>),
    FunctionCall { call_id: Seq<char>, name: Seq<char>, arguments: Seq<char> },
}

impl DeepView for ResponsesOutputContent {
    type V = Seq<char>;

    open spec fn deep_view(&self) -> Seq<char> {
        match *self {
            ResponsesOutputContent::OutputText { text } => text@,
        }
    }
}

impl DeepView for ResponsesOutputBlock {
    type V = OutputModel;

    open spec fn deep_view(&self) -> OutputModel {
        match *self {
            ResponsesOutputBlock::Message { role, content } => OutputModel::Message(
                content.deep_view(),
            ),
            ResponsesOutputBlock::FunctionCall { call_id, name, arguments } => {
                OutputModel::FunctionCall {
                    call_id: call_id@,
                    name: name@,
                    arguments: arguments@,
                }
            },
        }
    }
}

pub struct ResponsesAnswer {
    pub response: ResponseModel,
    pub response_id: Option<Seq<char>>,
}

impl DeepView for NormalizedResponses {
    type V = ResponsesAnswer;

    open spec fn deep_view(&self) -> ResponsesAnswer {
        ResponsesAnswer {
            response: self.response.deep_view(),
            response_id: self.response_id.deep_view(),
        }
    }
}

/// The texts that are not empty.
pub open spec fn filled_texts(texts: Seq<Seq<char>>) -> Seq<Seq<char>>
    decreases texts.len(),
{
    if texts.len() == 0 {
        Seq::empty()
    } else if texts.last().len() > 0 {
        filled_texts(texts.drop_last()).push(texts.last())
    } else {
        filled_texts(texts.drop_last())
    }
}

/// All texts of an answer that are not empty.
pub open spec fn output_texts(output: Seq<OutputModel>) -> Seq<Seq<char>>
    decreases output.len(),
{
    if output.len() == 0 {
        Seq::empty()
    } else {
        output_texts(output.drop_last()) + match output.last() {
            OutputModel::Message(texts) => filled_texts(texts),
            OutputModel::FunctionCall { .. } => Seq::empty(),
        }
    }
}

/// The arguments of a call: what they parse to, or else themselves as text.
pub open spec fn arguments_tree(arguments: Seq<char>) -> JsonTree {
    match json::parsed_tree(arguments) {
        Some(tree) => tree,
        None => JsonTree::Text(arguments),
    }
}

/// All tool calls of an answer.
pub open spec fn output_calls(output: Seq<OutputModel>) -> Seq<ToolCallModel>
    decreases output.len(),
{
    if output.len() == 0 {
        Seq::empty()
    } else {
        let before = output_calls(output.drop_last());
        match output.last() {
            OutputModel::Message(_) => before,
            OutputModel::FunctionCall { call_id, name, arguments } => before.push(
                ToolCallModel {
                    id: call_id,
                    name,
                    arguments: arguments_tree(arguments),
                    metadata: None,
                },
            ),
        }
    }
}

pub open spec fn usage_of(usage: ResponsesUsage) -> UsageUpdate {
    UsageUpdate {
        prompt_tokens: usage.input_tokens,
        completion_tokens: usage.output_tokens,
        total_tokens: usage.total_tokens,
    }
}

/// The answer that a response means, or why it means none.
pub open spec fn responses_answer(
    id: Option<Seq<char>>,
    output: Seq<OutputModel>,
    status: Option<Seq<char>>,
    usage: Option<ResponsesUsage>,
) -> Result<ResponsesAnswer, Seq<char>> {
    if output.len() == 0 {
        Err("Responses API response contained no output items"@)
    } else {
        Ok(
            ResponsesAnswer {
                response: ResponseModel {
                    message: MessageModel {
                        role: MessageRole::Assistant,
                        content: if output_texts(output).len() == 0 {
                            None
                        } else {
                            Some(text::joined(output_texts(output), ""@))
                        },
                        tool_calls: output_calls(output),
                        tool_call_id: None,
                        attachments: Seq::empty(),
                    },
                    tool_calls: output_calls(output),
                    finish_reason: status,
                    usage: match usage {
                        Some(usage) => Some(usage_of(usage)),
                        None => None,
                    },
                },
                response_id: id,
            },
        )
    }
}

fn push_texts(texts: &mut Vec<String>, content: &Vec<ResponsesOutputContent>)
    ensures
        final(texts).deep_view() == old(texts).deep_view() + filled_texts(content.deep_view()),
{
    let ghost start = texts.deep_view();
    let ghost models = content.deep_view();
    let mut i: usize = 0;
    proof {
        assert(models.take(0) =~= Seq::empty());
        assert(start + Seq::<Seq<char>>::empty() =~= start);
    }
    while i < content.len()
        invariant
            i <= content.len(),
            models == content.deep_view(),
            texts.deep_view() == start + filled_texts(models.take(i as int)),
        decreases content.len() - i,
    {
        let ghost before = texts.deep_view();
        proof {
            assert(models.take(i as int + 1).drop_last() =~= models.take(i as int));
            assert(models.take(i as int + 1).last() == content@[i as int].deep_view());
        }
        match &content[i] {
            ResponsesOutputContent::OutputText { text } => {
                if !text.as_str().is_empty() {
                    texts.push(text.clone());
                    proof {
                        assert(texts.deep_view() =~= before.push(text@));
                        assert(start + filled_texts(models.take(i as int)).push(text@) =~= (start
                            + filled_texts(models.take(i as int))).push(text@));
                    }
                }
            },
        }
        i += 1;
    }
    proof {
        assert(models.take(i as int) =~= models);
    }
}

/// The arguments of a call, given what they parse to, if they do: that, or else
/// themselves as text.
pub fn arguments_or_text(arguments: &str, parsed: Option<Json>) -> (r: Json)
    ensures
        r.deep_view() == match parsed {
            Some(json) => json.deep_view(),
            None => JsonTree::Text(arguments@),
        },
{
    match parsed {
        Some(json) => json,
        None => Json::Text(arguments.to_owned()),
    }
}

fn arguments_json(arguments: &str) -> (r: Json)
    ensures
        r.deep_view() == arguments_tree(arguments@),
{
    arguments_or_text(arguments, parse_json(arguments).ok())
}

/// The answer that a response means.
pub fn normalize_responses_response(
    response: ResponsesApiResponse,
    provider: &ProviderId,
) -> (r: Result<NormalizedResponses, ProviderError>)
    ensures
        match (
            r,
            responses_answer(
                response.id.deep_view(),
                response.output.deep_view(),
                response.status.deep_view(),
                response.usage,
            ),
        ) {
            (Ok(answer), Ok(expected)) => answer.deep_view() == expected,
            (Err(error), Err(message)) => error.deep_view() == (
            ProviderErrorModel::ResponseParse { provider: provider.deep_view(), message }),
            _ => false,
        },
{
    let ghost models = response.output.deep_view();
    let mut texts: Vec<String> = Vec::new();
    let mut calls: Vec<ToolCall> = Vec::new();
    let mut i: usize = 0;
    proof {
        assert(models.take(0) =~= Seq::empty());
        assert(texts.deep_view() =~= Seq::empty());
        assert(calls.deep_view() =~= Seq::empty());
    }
    while i < response.output.len()
        invariant
            i <= response.output.len(),
            models == response.output.deep_view(),
            texts.deep_view() == output_texts(models.take(i as int)),
            calls.deep_view() == output_calls(models.take(i as int)),
        decreases response.output.len() - i,
    {
        let ghost before = calls.deep_view();
        let ghost said = texts.deep_view();
        proof {
            assert(models.take(i as int + 1).drop_last() =~= models.take(i as int));
            assert(models.take(i as int + 1).last() == response.output@[i as int].deep_view());
        }
        match &response.output[i] {
            ResponsesOutputBlock::Message { role, content } => {
                push_texts(&mut texts, content);
            },
            ResponsesOutputBlock::FunctionCall { call_id, name, arguments } => {
                let call = ToolCall {
                    id: call_id.clone(),
                    name: name.clone(),
                    arguments: arguments_json(arguments.as_str()),
                    metadata: None,
                };
                calls.push(call);
                proof {
                    assert(calls.deep_view() =~= before.push(call.deep_view()));
                    assert(said + Seq::<Seq<char>>::empty() =~= said);
                }
            },
        }
        i += 1;
    }
    proof {
        assert(models.take(i as int) =~= models);
    }
    let content = if texts.len() == 0 {
        None
    } else {
        Some(join(&texts, ""))
    };
    let usage = match response.usage {
        Some(usage) => Some(
            UsageUpdate {
                prompt_tokens: usage.input_tokens,
                completion_tokens: usage.output_tokens,
                total_tokens: usage.total_tokens,
            },
        ),
        None => None,
    };
    if response.output.len() == 0 {
        return Err(
            response_parse(provider, "Responses API response contained no output items".to_owned()),
        );
    }
    let tool_calls = clone_tool_calls(&calls);
    let message = Message {
        role: MessageRole::Assistant,
        content,
        tool_calls: calls,
        tool_call_id: None,
        attachments: Vec::new(),
    };
    proof {
        assert(message.deep_view().attachments =~= Seq::empty());
    }
    Ok(
        NormalizedResponses {
            response: Response { message, tool_calls, finish_reason: response.status, usage },
            response_id: response.id,
        },
    )
}

/// What is known of one tool call so far.
#[derive(Debug)]
pub struct ToolCallState {
    pub id: Option<String>,
    pub name: Option<String>,
    pub arguments: String,
    pub ordinal: Option<u32>,
}

pub struct CallStateModel {
    pub id: Option<Seq<char>>,
    pub name: Option<Seq<char>>,
    pub arguments: Seq<char>,
    pub ordinal: Option<u32>,
}

impl DeepView for ToolCallState {
    type V = CallStateModel;

    open spec fn deep_view(&self) -> CallStateModel {
        CallStateModel {
            id: self.id.deep_view(),
            name: self.name.deep_view(),
            arguments: self.arguments@,
            ordinal: self.ordinal,
        }
    }
}

/// Puts tool calls together whose arguments come in pieces, and numbers them in the
/// order in which they turn up.
#[derive(Debug)]
pub struct ResponsesToolCallAccumulator {
    pub output_index_to_call: BTreeMap<u32, ToolCallState>,
    pub next_ordinal: u32,
}

/// The model of a [`ResponsesToolCallAccumulator`].
pub struct CallsModel {
    pub calls: Map<u32, CallStateModel>,
    pub next: u32,
}

pub open spec fn no_calls() -> CallsModel {
    CallsModel { calls: Map::empty(), next: 0 }
}

impl Default for ResponsesToolCallAccumulator {
    fn default() -> (r: Self)
        ensures
            r.model() == no_calls(),
    {
        let r = ResponsesToolCallAccumulator {
            output_index_to_call: BTreeMap::new(),
            next_ordinal: 0,
        };
        proof {
            assert(r.model().calls =~= Map::empty());
        }
        r
    }
}

/// What is known of the call at that index, once it has an ordinal.
pub open spec fn numbered_call(calls: CallsModel, index: u32) -> CallStateModel {
    let known = if calls.calls.dom().contains(index) {
        calls.calls[index]
    } else {
        CallStateModel { id: None, name: None, arguments: Seq::empty(), ordinal: None }
    };
    if known.ordinal is None {
        CallStateModel { ordinal: Some(calls.next), ..known }
    } else {
        known
    }
}

/// The call at that index still needs an ordinal.
pub open spec fn needs_ordinal(calls: CallsModel, index: u32) -> bool {
    !calls.calls.dom().contains(index) || calls.calls[index].ordinal is None
}

pub open spec fn next_after(calls: CallsModel, index: u32) -> u32 {
    if needs_ordinal(calls, index) {
        (calls.next + 1) as u32
    } else {
        calls.next
    }
}

/// The accumulator once a call has been announced.
pub open spec fn registered(
    calls: CallsModel,
    index: u32,
    id: Option<Seq<char>>,
    name: Option<Seq<char>>,
) -> CallsModel {
    let call = numbered_call(calls, index);
    CallsModel {
        calls: calls.calls.insert(
            index,
            CallStateModel {
                id: if id is Some {
                    id
                } else {
                    call.id
                },
                name: if name is Some {
                    name
                } else {
                    call.name
                },
                ..call
            },
        ),
        next: next_after(calls, index),
    }
}

/// The accumulator once arguments have come for a call.
pub open spec fn appended(calls: CallsModel, index: u32, delta: Seq<char>) -> CallsModel {
    let call = numbered_call(calls, index);
    CallsModel {
        calls: calls.calls.insert(
            index,
            CallStateModel { arguments: call.arguments + delta, ..call },
        ),
        next: next_after(calls, index),
    }
}

/// What is handed out for a piece of arguments: the piece itself, unless it is empty.
pub open spec fn appended_delta(
    calls: CallsModel,
    index: u32,
    delta: Seq<char>,
) -> ToolCallDeltaModel {
    let call = numbered_call(calls, index);
    ToolCallDeltaModel {
        index: call.ordinal->0 as usize,
        id: call.id,
        name: call.name,
        arguments: if delta.len() == 0 {
            None
        } else {
            Some(delta)
        },
        metadata: None,
    }
}

impl ResponsesToolCallAccumulator {
    pub open spec fn model(self) -> CallsModel {
        CallsModel {
            calls: self.output_index_to_call@.map_values(
                |call: ToolCallState| call.deep_view(),
            ),
            next: self.next_ordinal,
        }
    }

    /// Takes out the call at that index, with an ordinal.
    fn take_numbered(&mut self, output_index: u32) -> (r: ToolCallState)
        requires
            has_room_for(old(self).model(), output_index),
        ensures
            r.deep_view() == numbered_call(old(self).model(), output_index),
            final(self).model() == (CallsModel {
                calls: old(self).model().calls.remove(output_index),
                next: next_after(old(self).model(), output_index),
            }),
    {
        let mut call = match self.output_index_to_call.remove(&output_index) {
            Some(call) => call,
            None => ToolCallState { id: None, name: None, arguments: String::new(), ordinal: None },
        };
        if call.ordinal.is_none() {
            let next: u32 = self.next_ordinal;
            self.next_ordinal = next + 1;
            call.ordinal = Some(next);
        }
        proof {
            assert(self.model().calls =~= old(self).model().calls.remove(output_index));
        }
        call
    }

    fn put(&mut self, output_index: u32, call: ToolCallState)
        ensures
            final(self).model() == (CallsModel {
                calls: old(self).model().calls.insert(output_index, call.deep_view()),
                next: old(self).model().next,
            }),
    {
        self.output_index_to_call.insert(output_index, call);
        proof {
            assert(self.model().calls =~= old(self).model().calls.insert(
                output_index,
                call.deep_view(),
            ));
        }
    }

    /// A call has been announced. What was known of it stays where the announcement
    /// says nothing.
    pub fn register_output_item(
        &mut self,
        output_index: u32,
        call_id: Option<String>,
        name: Option<String>,
    )
        requires
            has_room_for(old(self).model(), output_index),
        ensures
            final(self).model() == registered(
                old(self).model(),
                output_index,
                call_id.deep_view(),
                name.deep_view(),
            ),
    {
        let mut call = self.take_numbered(output_index);
        if call_id.is_some() {
            call.id = call_id;
        }
        if name.is_some() {
            call.name = name;
        }
        self.put(output_index, call);
        proof {
            assert(self.model().calls =~= registered(
                old(self).model(),
                output_index,
                call_id.deep_view(),
                name.deep_view(),
            ).calls);
        }
    }

    /// Arguments have come for a call.
    pub fn append_arguments(&mut self, output_index: u32, delta: &str) -> (r: Option<StreamItem>)
        requires
            has_room_for(old(self).model(), output_index),
        ensures
            final(self).model() == appended(old(self).model(), output_index, delta@),
            r.deep_view() == Some(
                StreamItemModel::ToolCallDelta(
                    appended_delta(old(self).model(), output_index, delta@),
                ),
            ),
    {
        let mut call = self.take_numbered(output_index);
        call.arguments.append(delta);
        let ordinal: u32 = match call.ordinal {
            Some(ordinal) => ordinal,
            None => 0,
        };
        let item = StreamItem::ToolCallDelta(
            ToolCallDelta {
                index: ordinal as usize,
                id: call.id.clone(),
                name: call.name.clone(),
                arguments: if delta.is_empty() {
                    None
                } else {
                    Some(delta.to_owned())
                },
                metadata: None,
            },
        );
        self.put(output_index, call);
        proof {
            assert(self.model().calls =~= appended(
                old(self).model(),
                output_index,
                delta@,
            ).calls);
        }
        Some(item)
    }

    /// Whether any call has turned up.
    pub fn has_streamed_tool_calls(&self) -> (r: bool)
        ensures
            r == !self.model().calls.is_empty(),
    {
        proof {
            assert(self.model().calls.dom() =~= self.output_index_to_call@.dom());
        }
        !self.output_index_to_call.is_empty()
    }
}

/// Every call has an ordinal below the next, and no two have the same.
pub open spec fn ordinals_are_distinct(calls: CallsModel) -> bool {
    &&& forall|index: u32|
        calls.calls.dom().contains(index) ==> (#[trigger] calls.calls[index]).ordinal is Some
            && calls.calls[index].ordinal->0 < calls.next
    &&& forall|one: u32, other: u32|
        #![trigger calls.calls[one], calls.calls[other]]
        calls.calls.dom().contains(one) && calls.calls.dom().contains(other) && one != other
            ==> calls.calls[one].ordinal != calls.calls[other].ordinal
}

/// Whatever happens to an accumulator, its ordinals stay distinct, and a call keeps
/// the ordinal that it has.
pub proof fn law_ordinals_stay_distinct(
    calls: CallsModel,
    index: u32,
    id: Option<Seq<char>>,
    name: Option<Seq<char>>,
    delta: Seq<char>,
    other: u32,
)
    requires
        ordinals_are_distinct(calls),
        calls.next < u32::MAX,
    ensures
        ordinals_are_distinct(no_calls()),
        ordinals_are_distinct(registered(calls, index, id, name)),
        ordinals_are_distinct(appended(calls, index, delta)),
        calls.calls.dom().contains(other) ==> {
            &&& registered(calls, index, id, name).calls[other].ordinal
                == calls.calls[other].ordinal
            &&& appended(calls, index, delta).calls[other].ordinal == calls.calls[other].ordinal
        },
{
}

/// Something that happened to an accumulator.
pub enum CallStep {
    Announced { index: u32, id: Option<Seq<char>>, name: Option<Seq<char>> },
    Continued { index: u32, delta: Seq<char> },
}

impl CallStep {
    /// The call that it happened to.
    pub open spec fn index(self) -> u32 {
        match self {
            CallStep::Announced { index, .. } => index,
            CallStep::Continued { index, .. } => index,
        }
    }
}

/// The accumulator after all that happened to it.
pub open spec fn calls_after(steps: Seq<CallStep>) -> CallsModel
    decreases steps.len(),
{
    if steps.len() == 0 {
        no_calls()
    } else {
        match steps.last() {
            CallStep::Announced { index, id, name } => registered(
                calls_after(steps.drop_last()),
                index,
                id,
                name,
            ),
            CallStep::Continued { index, delta } => appended(
                calls_after(steps.drop_last()),
                index,
                delta,
            ),
        }
    }
}

/// The accumulator has a number left for that call, if it needs one.
pub open spec fn has_room_for(calls: CallsModel, call: u32) -> bool {
    needs_ordinal(calls, call) ==> calls.next < u32::MAX
}

/// All of it can happen to an accumulator that starts empty, one after the other.
pub open spec fn can_happen(steps: Seq<CallStep>) -> bool
    decreases steps.len(),
{
    steps.len() > 0 ==> {
        &&& can_happen(steps.drop_last())
        &&& has_room_for(calls_after(steps.drop_last()), steps.last().index())
    }
}

/// The calls that something happened to, each once, in the order in which they turned up.
pub open spec fn calls_in_order(steps: Seq<CallStep>) -> Seq<u32>
    decreases steps.len(),
{
    if steps.len() == 0 {
        Seq::empty()
    } else {
        let before = calls_in_order(steps.drop_last());
        if before.contains(steps.last().index()) {
            before
        } else {
            before.push(steps.last().index())
        }
    }
}

/// The last id that was given for a call.
pub open spec fn last_id(steps: Seq<CallStep>, call: u32) -> Option<Seq<char>>
    decreases steps.len(),
{
    if steps.len() == 0 {
        None
    } else {
        match steps.last() {
            CallStep::Announced { index, id: Some(id), .. } if index == call => Some(id),
            _ => last_id(steps.drop_last(), call),
        }
    }
}

/// The last name that was given for a call.
pub open spec fn last_name(steps: Seq<CallStep>, call: u32) -> Option<Seq<char>>
    decreases steps.len(),
{
    if steps.len() == 0 {
        None
    } else {
        match steps.last() {
            CallStep::Announced { index, name: Some(name), .. } if index == call => Some(name),
            _ => last_name(steps.drop_last(), call),
        }
    }
}

/// What an accumulator holds after all that happened to it, in terms of what happened.
pub open spec fn tells_what_happened(calls: CallsModel, steps: Seq<CallStep>) -> bool {
    let order = calls_in_order(steps);
    &&& calls.next == order.len()
    &&& order.no_duplicates()
    &&& forall|call: u32| #[trigger] calls.calls.dom().contains(call) <==> order.contains(call)
    &&& forall|place: int|
        0 <= place < order.len() ==> calls.calls[#[trigger] order[place]].ordinal == Some(
            place as u32,
        )
    &&& forall|call: u32| #[trigger]
        calls.calls.dom().contains(call) ==> {
            &&& calls.calls[call].id == last_id(steps, call)
            &&& calls.calls[call].name == last_name(steps, call)
        }
    &&& forall|call: u32|
        !(#[trigger] calls.calls.dom().contains(call)) ==> {
            &&& last_id(steps, call) is None
            &&& last_name(steps, call) is None
        }
}

proof fn lemma_calls_tell_what_happened(steps: Seq<CallStep>)
    requires
        can_happen(steps),
    ensures
        tells_what_happened(calls_after(steps), steps),
    decreases steps.len(),
{
    if steps.len() > 0 {
        let before = steps.drop_last();
        let order = calls_in_order(before);
        let call = steps.last().index();
        lemma_calls_tell_what_happened(before);
        let had = calls_after(before);
        let has = calls_after(steps);
        assert(had.calls.dom().contains(call) <==> order.contains(call));
        if order.contains(call) {
            let place = order.index_of(call);
            assert(order[place] == call);
            assert(!needs_ordinal(had, call));
        } else {
            assert(order.push(call).no_duplicates());
            assert forall|other: u32|
                #![trigger has.calls.dom().contains(other)]
                order.push(call).contains(other) <==> order.contains(other) || other == call by {
                if order.contains(other) {
                    let place = order.index_of(other);
                    assert(order.push(call)[place] == other);
                }
                assert(order.push(call)[order.len() as int] == call);
            }
        }
    }
}

/// Over any history of an accumulator that starts empty, a call has for its index the
/// number of calls that turned up before it, whatever is announced again, and for its id
/// and its name the last ones that were given. What happens to another call changes
/// nothing of that.
pub proof fn law_index_counts_earlier_calls(
    steps: Seq<CallStep>,
    call: u32,
    delta: Seq<char>,
    next: CallStep,
)
    requires
        can_happen(steps),
        has_room_for(calls_after(steps), call),
    ensures
        calls_in_order(steps).no_duplicates(),
        forall|index: u32| #[trigger]
            calls_in_order(steps).contains(index) <==> exists|place: int|
                #![trigger steps[place]]
                0 <= place < steps.len() && steps[place].index() == index,
        ({
            let order = calls_in_order(steps);
            let told = appended_delta(calls_after(steps), call, delta);
            &&& order.contains(call) ==> told.index == order.index_of(call)
            &&& !order.contains(call) ==> told.index == order.len()
            &&& told.id == last_id(steps, call)
            &&& told.name == last_name(steps, call)
        }),
        ({
            let before = appended_delta(calls_after(steps), call, delta);
            let after = appended_delta(calls_after(steps.push(next)), call, delta);
            next.index() != call && calls_in_order(steps).contains(call) ==> before == after
        }),
{
    lemma_calls_tell_what_happened(steps);
    lemma_calls_are_those_of_the_steps(steps);
    let order = calls_in_order(steps);
    let calls = calls_after(steps);
    assert(calls.calls.dom().contains(call) <==> order.contains(call));
    if order.contains(call) {
        assert(order[order.index_of(call)] == call);
    }
    assert(steps.push(next).drop_last() =~= steps);
}

proof fn lemma_calls_are_those_of_the_steps(steps: Seq<CallStep>)
    ensures
        forall|index: u32| #[trigger]
            calls_in_order(steps).contains(index) <==> exists|place: int|
                #![trigger steps[place]]
                0 <= place < steps.len() && steps[place].index() == index,
    decreases steps.len(),
{
    if steps.len() > 0 {
        let before = steps.drop_last();
        lemma_calls_are_those_of_the_steps(before);
        let order = calls_in_order(before);
        let last = steps.last().index();
        assert forall|index: u32| #[trigger] calls_in_order(steps).contains(index) implies exists|
            place: int,
        |
            #![trigger steps[place]]
            0 <= place < steps.len() && steps[place].index() == index by {
            if index == last {
                assert(steps[steps.len() - 1].index() == index);
            } else {
                assert(order.contains(index));
                let place = choose|place: int|
                    #![trigger before[place]]
                    0 <= place < before.len() && before[place].index() == index;
                assert(steps[place].index() == index);
            }
        }
        assert forall|place: int| #![trigger steps[place]] 0 <= place < steps.len() implies calls_in_order(
            steps,
        ).contains(steps[place].index()) by {
            let index = steps[place].index();
            if place < before.len() {
                assert(before[place].index() == index);
                assert(order.contains(index));
            }
            if order.contains(index) {
                let at = order.index_of(index);
                if !order.contains(last) {
                    assert(order.push(last)[at] == index);
                }
            } else {
                assert(index == last);
                assert(order.push(last)[order.len() as int] == index);
            }
        }
    }
}

#[derive(Debug, PartialEq, Eq)]
pub struct ResponsesTextDeltaData {
    pub delta: String,
}

#[derive(Debug, PartialEq, Eq)]
pub struct ResponsesFunctionArgsDeltaData {
    pub output_index: u32,
    pub delta: String,
}

#[derive(Debug, PartialEq, Eq)]
pub struct ResponsesOutputItemAdded {
    pub kind: Option<String>,
    pub call_id: Option<String>,
    pub name: Option<String>,
}

#[derive(Debug, PartialEq, Eq)]
pub struct ResponsesOutputItemAddedData {
    pub output_index: u32,
    pub item: ResponsesOutputItemAdded,
}

#[derive(Debug, PartialEq, Eq)]
pub struct ResponsesCompletedData {
    pub response: ResponsesApiResponse,
}

#[derive(Debug, PartialEq, Eq)]
pub struct ResponsesFailedData {
    pub error: Option<String>,
}

/// What an event is about.
#[derive(Debug, Clone, Copy, PartialEq, Eq, Structural)]
pub enum ResponsesEventKind {
    Ignored,
    TextDelta,
    ArgumentsDelta,
    ItemAdded,
    Completed,
    Failed,
}

/// What an event of that type is about. Events without a type and those of unknown
/// types are ignored.
pub open spec fn event_kind(event_type: Option<Seq<char>>) -> ResponsesEventKind {
    match event_type {
        None => ResponsesEventKind::Ignored,
        Some(kind) => if kind == "response.output_text.delta"@ {
            ResponsesEventKind::TextDelta
        } else if kind == "response.function_call_arguments.delta"@ {
            ResponsesEventKind::ArgumentsDelta
        } else if kind == "response.output_item.added"@ {
            ResponsesEventKind::ItemAdded
        } else if kind == "response.completed"@ {
            ResponsesEventKind::Completed
        } else if kind == "response.failed"@ {
            ResponsesEventKind::Failed
        } else {
            ResponsesEventKind::Ignored
        },
    }
}

/// What an event of that type is about.
pub fn responses_event_kind(event_type: &Option<String>) -> (r: ResponsesEventKind)
    ensures
        r == event_kind(event_type.deep_view()),
{
    match event_type {
        None => ResponsesEventKind::Ignored,
        Some(kind) => if same_text(kind.as_str(), "response.output_text.delta") {
            ResponsesEventKind::TextDelta
        } else if same_text(kind.as_str(), "response.function_call_arguments.delta") {
            ResponsesEventKind::ArgumentsDelta
        } else if same_text(kind.as_str(), "response.output_item.added") {
            ResponsesEventKind::ItemAdded
        } else if same_text(kind.as_str(), "response.completed") {
            ResponsesEventKind::Completed
        } else if same_text(kind.as_str(), "response.failed") {
            ResponsesEventKind::Failed
        } else {
            ResponsesEventKind::Ignored
        },
    }
}

/// What stopped an event from being parsed.
#[derive(Debug, PartialEq, Eq)]
pub struct InvalidEvent {
    pub kind: ResponsesEventKind,
    pub error: String,
}

/// One event of a stream, once it has been parsed.
#[derive(Debug, PartialEq, Eq)]
pub enum ResponsesPayload {
    Ignored,
    TextDelta(ResponsesTextDeltaData),
    ArgumentsDelta(ResponsesFunctionArgsDeltaData),
    ItemAdded(ResponsesOutputItemAddedData),
    Completed(ResponsesCompletedData),
    Failed(ResponsesFailedData),
    Invalid(InvalidEvent),
}

pub enum PayloadModel {
    Ignored,
    TextDelta(Seq<char>),
    ArgumentsDelta(u32, Seq<char>),
    ItemAdded(u32, Option<Seq<char>>, Option<Seq<char>>),
    Completed {
        id: Option<Seq<char>>,
        output: Seq<OutputModel>,
        status: Option<Seq<char>>,
        usage: Option<ResponsesUsage>,
    },
    Failed(Option<Seq<char>>),
    Invalid(ResponsesEventKind, Seq<char>),
}

impl DeepView for ResponsesPayload {
    type V = PayloadModel;

    open spec fn deep_view(&self) -> PayloadModel {
        match *self {
            ResponsesPayload::Ignored => PayloadModel::Ignored,
            ResponsesPayload::TextDelta(data) => PayloadModel::TextDelta(data.delta@),
            ResponsesPayload::ArgumentsDelta(data) => PayloadModel::ArgumentsDelta(
                data.output_index,
                data.delta@,
            ),
            ResponsesPayload::ItemAdded(data) => PayloadModel::ItemAdded(
                data.output_index,
                data.item.call_id.deep_view(),
                data.item.name.deep_view(),
            ),
            ResponsesPayload::Completed(data) => PayloadModel::Completed {
                id: data.response.id.deep_view(),
                output: data.response.output.deep_view(),
                status: data.response.status.deep_view(),
                usage: data.response.usage,
            },
            ResponsesPayload::Failed(data) => PayloadModel::Failed(data.error.deep_view()),
            ResponsesPayload::Invalid(invalid) => PayloadModel::Invalid(
                invalid.kind,
                invalid.error@,
            ),
        }
    }
}

/// What an event asks the stream to do.
#[derive(Debug, PartialEq)]
pub enum ResponsesEventAction {
    /// Hand these items out.
    Items(Vec<StreamItem>),
    /// The answer is complete: remember it, and hand these items out.
    Completed { response_id: String, items: Vec<StreamItem> },
    /// The stream ends with this error.
    Error(ProviderError),
}

pub enum ActionModel {
    Items(Seq<StreamItemModel>),
    Completed { response_id: Seq<char>, items: Seq<StreamItemModel> },
    Error(ProviderErrorModel),
}

impl DeepView for ResponsesEventAction {
    type V = ActionModel;

    open spec fn deep_view(&self) -> ActionModel {
        match *self {
            ResponsesEventAction::Items(items) => ActionModel::Items(items.deep_view()),
            ResponsesEventAction::Completed { response_id, items } => ActionModel::Completed {
                response_id: response_id@,
                items: items.deep_view(),
            },
            ResponsesEventAction::Error(error) => ActionModel::Error(error.deep_view()),
        }
    }
}

pub open spec fn invalid_message(kind: ResponsesEventKind, error: Seq<char>) -> Seq<char> {
    (match kind {
        ResponsesEventKind::TextDelta => "failed to parse output_text.delta: "@,
        ResponsesEventKind::ArgumentsDelta => "failed to parse function_call_arguments.delta: "@,
        ResponsesEventKind::ItemAdded => "failed to parse output_item.added: "@,
        ResponsesEventKind::Completed => "failed to parse response.completed: "@,
        ResponsesEventKind::Failed => "failed to parse response.failed: "@,
        ResponsesEventKind::Ignored => Seq::empty(),
    }) + error
}

/// The deltas of whole tool calls, numbered from zero.
pub open spec fn whole_calls(calls: Seq<ToolCallModel>) -> Seq<StreamItemModel> {
    calls.map(
        |i: int, call: ToolCallModel|
            StreamItemModel::ToolCallDelta(
                ToolCallDeltaModel {
                    index: i as usize,
                    id: Some(call.id),
                    name: Some(call.name),
                    arguments: Some(json::tree_text(call.arguments)),
                    metadata: None,
                },
            ),
    )
}

/// What a complete answer hands out: its text, its tool calls unless they have been
/// streamed already, its token counts and why it ended.
pub open spec fn completed_items(answer: ResponseModel, streamed: bool) -> Seq<StreamItemModel> {
    (match answer.message.content {
        Some(text) => seq![StreamItemModel::Text(text)],
        None => Seq::empty(),
    }) + (if streamed {
        Seq::empty()
    } else {
        whole_calls(answer.tool_calls)
    }) + (match answer.usage {
        Some(usage) => seq![StreamItemModel::UsageUpdate(usage)],
        None => Seq::empty(),
    }) + (match answer.finish_reason {
        Some(reason) => seq![StreamItemModel::FinishReason(reason)],
        None => Seq::empty(),
    })
}

pub struct EventStep {
    pub calls: CallsModel,
    pub action: Result<ActionModel, ProviderErrorModel>,
}

/// What one event does.
pub open spec fn event_step(
    calls: CallsModel,
    payload: PayloadModel,
    provider: Seq<char>,
) -> EventStep {
    match payload {
        PayloadModel::Ignored => EventStep { calls, action: Ok(ActionModel::Items(Seq::empty())) },
        PayloadModel::TextDelta(delta) => EventStep {
            calls,
            action: Ok(
                ActionModel::Items(
                    if delta.len() == 0 {
                        Seq::empty()
                    } else {
                        seq![StreamItemModel::Text(delta)]
                    },
                ),
            ),
        },
        PayloadModel::ArgumentsDelta(index, delta) => EventStep {
            calls: appended(calls, index, delta),
            action: Ok(
                ActionModel::Items(
                    seq![StreamItemModel::ToolCallDelta(appended_delta(calls, index, delta))],
                ),
            ),
        },
        PayloadModel::ItemAdded(index, id, name) => EventStep {
            calls: registered(calls, index, id, name),
            action: Ok(ActionModel::Items(Seq::empty())),
        },
        PayloadModel::Completed { id, output, status, usage } => EventStep {
            calls,
            action: match responses_answer(id, output, status, usage) {
                Err(message) => Err(ProviderErrorModel::ResponseParse { provider, message }),
                Ok(answer) => {
                    let items = completed_items(answer.response, !calls.calls.is_empty());
                    Ok(
                        match answer.response_id {
                            Some(response_id) => ActionModel::Completed { response_id, items },
                            None => ActionModel::Items(items),
                        },
                    )
                },
            },
        },
        PayloadModel::Failed(error) => EventStep {
            calls,
            action: Ok(
                ActionModel::Error(
                    ProviderErrorModel::RequestFailed {
                        provider,
                        message: match error {
                            Some(text) => text,
                            None => "Responses API failed"@,
                        },
                    },
                ),
            ),
        },
        PayloadModel::Invalid(kind, error) => EventStep {
            calls,
            action: Err(
                ProviderErrorModel::ResponseParse {
                    provider,
                    message: invalid_message(kind, error),
                },
            ),
        },
    }
}

fn whole_call_items(calls: &Vec<ToolCall>) -> (r: Vec<StreamItem>)
    ensures
        r.deep_view() == whole_calls(calls.deep_view()),
{
    let mut items: Vec<StreamItem> = Vec::new();
    let mut i: usize = 0;
    while i < calls.len()
        invariant
            i <= calls.len(),
            items.len() == i,
            forall|k: int|
                0 <= k < i ==> (#[trigger] items@[k]).deep_view() == whole_calls(
                    calls.deep_view(),
                )[k],
        decreases calls.len() - i,
    {
        items.push(
            StreamItem::ToolCallDelta(
                ToolCallDelta {
                    index: i,
                    id: Some(calls[i].id.clone()),
                    name: Some(calls[i].name.clone()),
                    arguments: Some(calls[i].arguments.to_text()),
                    metadata: None,
                },
            ),
        );
        i += 1;
    }
    proof {
        assert(items.deep_view() =~= whole_calls(calls.deep_view()));
    }
    items
}

/// What a complete answer hands out.
fn completion_items(answer: &Response, streamed: bool) -> (r: Vec<StreamItem>)
    ensures
        r.deep_view() == completed_items(answer.deep_view(), streamed),
{
    let mut items: Vec<StreamItem> = Vec::new();
    if let Some(text) = &answer.message.content {
        items.push(StreamItem::Text(text.clone()));
    }
    let ghost texts = items.deep_view();
    if !streamed {
        append_items(&mut items, whole_call_items(&answer.tool_calls));
    }
    let ghost with_calls = items.deep_view();
    if let Some(usage) = answer.usage {
        items.push(StreamItem::UsageUpdate(usage));
    }
    if let Some(reason) = &answer.finish_reason {
        items.push(StreamItem::FinishReason(reason.clone()));
    }
    proof {
        assert(texts =~= match answer.message.content.deep_view() {
            Some(text) => seq![StreamItemModel::Text(text)],
            None => Seq::empty(),
        });
        assert(items.deep_view() =~= completed_items(answer.deep_view(), streamed));
    }
    items
}

fn one_item(item: StreamItem) -> (r: ResponsesEventAction)
    ensures
        r.deep_view() == ActionModel::Items(seq![item.deep_view()]),
{
    let mut items: Vec<StreamItem> = Vec::new();
    items.push(item);
    proof {
        assert(items.deep_view() =~= seq![item.deep_view()]);
    }
    ResponsesEventAction::Items(items)
}

fn no_items() -> (r: ResponsesEventAction)
    ensures
        r.deep_view() == ActionModel::Items(Seq::empty()),
{
    let items: Vec<StreamItem> = Vec::new();
    proof {
        assert(items.deep_view() =~= Seq::empty());
    }
    ResponsesEventAction::Items(items)
}

/// What one event asks the stream to do.
pub fn parse_responses_stream_event(
    event: ResponsesPayload,
    provider: &ProviderId,
    accumulator: &mut ResponsesToolCallAccumulator,
) -> (r: Result<ResponsesEventAction, ProviderError>)
    requires
        old(accumulator).next_ordinal < u32::MAX,
    ensures
        ({
            let step = event_step(
                old(accumulator).model(),
                event.deep_view(),
                provider.deep_view(),
            );
            &&& final(accumulator).model() == step.calls
            &&& match (r, step.action) {
                (Ok(action), Ok(expected)) => action.deep_view() == expected,
                (Err(error), Err(expected)) => error.deep_view() == expected,
                _ => false,
            }
        }),
{
    match event {
        ResponsesPayload::Ignored => Ok(no_items()),
        ResponsesPayload::TextDelta(data) => if data.delta.as_str().is_empty() {
            Ok(no_items())
        } else {
            Ok(one_item(StreamItem::Text(data.delta)))
        },
        ResponsesPayload::ArgumentsDelta(data) => {
            match accumulator.append_arguments(data.output_index, data.delta.as_str()) {
                Some(item) => Ok(one_item(item)),
                None => Ok(no_items()),
            }
        },
        ResponsesPayload::ItemAdded(data) => {
            accumulator.register_output_item(
                data.output_index,
                data.item.call_id,
                data.item.name,
            );
            Ok(no_items())
        },
        ResponsesPayload::Completed(data) => {
            let answer = match normalize_responses_response(data.response, provider) {
                Ok(answer) => answer,
                Err(error) => {
                    return Err(error);
                },
            };
            let items = completion_items(&answer.response, accumulator.has_streamed_tool_calls());
            match answer.response_id {
                Some(response_id) => {
                    Ok(ResponsesEventAction::Completed { response_id, items })
                },
                None => Ok(ResponsesEventAction::Items(items)),
            }
        },
        ResponsesPayload::Failed(data) => {
            let message = match data.error {
                Some(message) => message,
                None => "Responses API failed".to_owned(),
            };
            Ok(ResponsesEventAction::Error(request_failed(provider, message)))
        },
        ResponsesPayload::Invalid(invalid) => {
            let prefix: &str = match invalid.kind {
                ResponsesEventKind::TextDelta => "failed to parse output_text.delta: ",
                ResponsesEventKind::ArgumentsDelta => {
                    "failed to parse function_call_arguments.delta: "
                },
                ResponsesEventKind::ItemAdded => "failed to parse output_item.added: ",
                ResponsesEventKind::Completed => "failed to parse response.completed: ",
                ResponsesEventKind::Failed => "failed to parse response.failed: ",
                ResponsesEventKind::Ignored => "",
            };
            proof {
                reveal_strlit("");
                assert(""@ =~= Seq::empty());
            }
            Err(response_parse(provider, concat(prefix, invalid.error.as_str())))
        },
    }
}

pub struct ResponsesBatch {
    pub calls: CallsModel,
    pub completed: Option<Seq<char>>,
    pub items: Seq<StreamItemModel>,
    pub end: BatchEndModel,
}

/// What a batch of events does, one after the other up to the first that ends the
/// stream.
pub open spec fn responses_batch(
    calls: CallsModel,
    payloads: Seq<PayloadModel>,
    provider: Seq<char>,
) -> ResponsesBatch
    decreases payloads.len(),
{
    if payloads.len() == 0 {
        ResponsesBatch { calls, completed: None, items: Seq::empty(), end: BatchEndModel::Open }
    } else {
        let before = responses_batch(calls, payloads.drop_last(), provider);
        if before.end !is Open {
            before
        } else {
            let step = event_step(before.calls, payloads.last(), provider);
            match step.action {
                Err(error) => ResponsesBatch {
                    calls: step.calls,
                    end: BatchEndModel::Failed(error),
                    ..before
                },
                Ok(ActionModel::Items(items)) => ResponsesBatch {
                    calls: step.calls,
                    items: before.items + items,
                    ..before
                },
                Ok(ActionModel::Completed { response_id, items }) => ResponsesBatch {
                    calls: step.calls,
                    completed: Some(response_id),
                    items: before.items + items,
                    end: BatchEndModel::Done,
                },
                Ok(ActionModel::Error(error)) => ResponsesBatch {
                    calls: step.calls,
                    end: BatchEndModel::Failed(error),
                    ..before
                },
            }
        }
    }
}

proof fn lemma_responses_batch_stops(
    calls: CallsModel,
    payloads: Seq<PayloadModel>,
    provider: Seq<char>,
    upto: int,
)
    requires
        0 <= upto <= payloads.len(),
        responses_batch(calls, payloads.take(upto), provider).end !is Open,
    ensures
        responses_batch(calls, payloads, provider) == responses_batch(
            calls,
            payloads.take(upto),
            provider,
        ),
    decreases payloads.len() - upto,
{
    if upto == payloads.len() {
        assert(payloads.take(upto) =~= payloads);
    } else {
        assert(payloads.take(upto + 1).drop_last() =~= payloads.take(upto));
        lemma_responses_batch_stops(calls, payloads, provider, upto + 1);
    }
}

/// What a batch of events hands out, and how it leaves the stream. A complete answer
/// is remembered, with the number of messages that it has seen.
pub fn process_responses_events(
    payloads: Vec<ResponsesPayload>,
    provider: &ProviderId,
    accumulator: &mut ResponsesToolCallAccumulator,
    chaining: &mut ChainingState,
    message_count: usize,
) -> (r: StreamBatch)
    requires
        old(accumulator).next_ordinal + payloads@.len() < u32::MAX,
    ensures
        ({
            let batch = responses_batch(
                old(accumulator).model(),
                payloads.deep_view(),
                provider.deep_view(),
            );
            &&& final(accumulator).model() == batch.calls
            &&& r.items.deep_view() == batch.items
            &&& r.end.deep_view() == batch.end
            &&& match batch.completed {
                Some(response_id) => {
                    &&& final(chaining).previous_response_id.deep_view() == Some(response_id)
                    &&& final(chaining).last_input_count == message_count
                },
                None => *final(chaining) == *old(chaining),
            }
        }),
{
    let ghost models = payloads.deep_view();
    let ghost start = accumulator.model();
    let ghost name = provider.deep_view();
    let mut items: Vec<StreamItem> = Vec::new();
    let mut end = BatchEnd::Open;
    let ghost mut seen: int = 0;
    proof {
        assert(models.take(0) =~= Seq::empty());
        assert(items.deep_view() =~= Seq::empty());
    }
    for payload in it: payloads
        invariant
            it.seq() == payloads@,
            models == payloads.deep_view(),
            name == provider.deep_view(),
            start.next + models.len() < u32::MAX,
            0 <= seen <= it.index() <= models.len(),
            end.deep_view() is Open ==> seen == it.index(),
            accumulator.next_ordinal <= start.next + seen,
            ({
                let batch = responses_batch(start, models.take(seen), name);
                &&& accumulator.model() == batch.calls
                &&& items.deep_view() == batch.items
                &&& end.deep_view() == batch.end
                &&& match batch.completed {
                    Some(response_id) => {
                        &&& chaining.previous_response_id.deep_view() == Some(response_id)
                        &&& chaining.last_input_count == message_count
                        &&& batch.end !is Open
                    },
                    None => *chaining == *old(chaining),
                }
            }),
    {
        if let BatchEnd::Open = &end {
            proof {
                assert(models.take(seen + 1).drop_last() =~= models.take(seen));
                assert(models.take(seen + 1).last() == payload.deep_view());
            }
            match parse_responses_stream_event(payload, provider, accumulator) {
                Err(error) => {
                    end = BatchEnd::Failed(error);
                },
                Ok(ResponsesEventAction::Items(more)) => {
                    append_items(&mut items, more);
                },
                Ok(ResponsesEventAction::Completed { response_id, items: more }) => {
                    chaining.update_chaining_state(response_id, message_count);
                    append_items(&mut items, more);
                    end = BatchEnd::Done;
                },
                Ok(ResponsesEventAction::Error(error)) => {
                    end = BatchEnd::Failed(error);
                },
            }
            proof {
                seen = seen + 1;
            }
        }
    }
    proof {
        assert(models.take(models.len() as int) =~= models);
        if end.deep_view() !is Open {
            lemma_responses_batch_stops(start, models, name, seen);
        }
    }
    StreamBatch { items, end }
}

/// What a stream hands out when its transport fails.
pub fn responses_transport_lost(error: &str) -> (r: StreamItem)
    ensures
        r.deep_view() == StreamItemModel::ConnectionLost(
            "Responses stream transport dropped: "@ + error@,
        ),
{
    StreamItem::ConnectionLost(concat("Responses stream transport dropped: ", error))
}

/// No tool call is handed out twice: an answer whose calls have been streamed hands
/// none of them out again when it is complete.
pub proof fn law_streamed_calls_are_not_repeated(answer: ResponseModel, i: int)
    requires
        0 <= i < completed_items(answer, true).len(),
    ensures
        !(completed_items(answer, true)[i] is ToolCallDelta),
{
}

/// A request on top of an earlier answer, together with what that answer has seen,
/// holds the whole conversation: nothing is left out, nothing is sent twice.
pub proof fn law_chained_request_continues(
    context: ContextModel,
    previous_response_id: Option<Seq<char>>,
    last_input_count: nat,
)
    requires
        previous_response_id is Some,
        last_input_count <= context.messages.len(),
    ensures
        inputs_of(context.messages.take(last_input_count as int)) + responses_request(
            context,
            previous_response_id,
            last_input_count,
        ).input == responses_request(context, None, 0).input,
{
    let first = context.messages.take(last_input_count as int);
    let rest = context.messages.skip(last_input_count as int);
    lemma_inputs_split(first, rest);
    assert(first + rest =~= context.messages);
    assert(context.messages.skip(0) =~= context.messages);
}

proof fn lemma_inputs_split(first: Seq<MessageModel>, rest: Seq<MessageModel>)
    ensures
        inputs_of(first + rest) == inputs_of(first) + inputs_of(rest),
    decreases rest.len(),
{
    if rest.len() == 0 {
        assert(first + rest =~= first);
        assert(inputs_of(first) + Seq::<InputItemModel>::empty() =~= inputs_of(first));
    } else {
        lemma_inputs_split(first, rest.drop_last());
        assert((first + rest).drop_last() =~= first + rest.drop_last());
        assert((first + rest).last() == rest.last());
        assert(inputs_of(first) + inputs_of(rest.drop_last()) + input_of(rest.last())
            =~= inputs_of(first) + (inputs_of(rest.drop_last()) + input_of(rest.last())));
    }
}

/// How many items of a request's input a message takes.
pub open spec fn items_taken(message: Message) -> nat {
    match message.role {
        MessageRole::System => 0,
        MessageRole::User => if message.speaks() {
            1
        } else {
            0
        },
        MessageRole::Assistant => message.tool_calls@.len() + if message.speaks() {
            1nat
        } else {
            0
        },
        MessageRole::Tool => 1,
    }
}

/// Where a message of a conversation stands in the input of a request that begins with a
/// given one: behind what the messages between take.
pub open spec fn place_of(messages: Seq<Message>, first: int, i: int) -> nat
    decreases i - first,
{
    if i <= first {
        0
    } else {
        place_of(messages, first, i - 1) + items_taken(messages[i - 1])
    }
}

/// The first message that a request sends: all of them, unless it builds on an earlier
/// answer that has seen some.
pub open spec fn first_sent(
    context: Context,
    previous_response_id: Option<String>,
    last_input_count: usize,
) -> int {
    if previous_response_id is None {
        0
    } else if last_input_count <= context.messages@.len() {
        last_input_count as int
    } else {
        context.messages@.len() as int
    }
}

proof fn lemma_items_taken(message: Message)
    ensures
        input_of(message.deep_view()).len() == items_taken(message),
{
    assert(message.tool_calls.deep_view().len() == message.tool_calls@.len());
}

proof fn lemma_place(messages: Seq<Message>, models: Seq<MessageModel>, first: int, i: int)
    requires
        models.len() == messages.len(),
        forall|k: int| 0 <= k < messages.len() ==> #[trigger] models[k] == messages[k].deep_view(),
        0 <= first <= i <= messages.len(),
    ensures
        inputs_of(models.skip(first).take(i - first)).len() == place_of(messages, first, i),
    decreases i - first,
{
    let sent = models.skip(first);
    if i > first {
        lemma_place(messages, models, first, i - 1);
        assert(sent.take(i - first).drop_last() =~= sent.take(i - 1 - first));
        assert(sent.take(i - first).last() == models[i - 1]);
        lemma_items_taken(messages[i - 1]);
    } else {
        assert(sent.take(0) =~= Seq::empty());
    }
}

proof fn lemma_input_at(models: Seq<MessageModel>, k: int)
    requires
        0 <= k < models.len(),
    ensures
        inputs_of(models.take(k)).len() + input_of(models[k]).len() <= inputs_of(models).len(),
        forall|t: int|
            0 <= t < input_of(models[k]).len() ==> inputs_of(models)[inputs_of(
                models.take(k),
            ).len() + t] == #[trigger] input_of(models[k])[t],
    decreases models.len(),
{
    if k == models.len() - 1 {
        assert(models.take(k) =~= models.drop_last());
    } else {
        lemma_input_at(models.drop_last(), k);
        assert(models.drop_last().take(k) =~= models.take(k));
    }
}

proof fn lemma_sent_at(
    context: Context,
    previous_response_id: Option<String>,
    last_input_count: usize,
    request: ResponsesApiRequest,
    i: int,
)
    requires
        call_ensures(
            ResponsesApiRequest::from_context,
            (&context, previous_response_id, last_input_count),
            request,
        ),
        first_sent(context, previous_response_id, last_input_count) <= i < context.messages@.len(),
    ensures
        ({
            let place = place_of(
                context.messages@,
                first_sent(context, previous_response_id, last_input_count),
                i,
            );
            let items = input_of(context.messages@[i].deep_view());
            &&& place + items.len() <= request.input@.len()
            &&& items.len() == items_taken(context.messages@[i])
            &&& forall|t: int|
                0 <= t < items.len() ==> request.input@[place + t].deep_view()
                    == #[trigger] items[t]
        }),
{
    let first = first_sent(context, previous_response_id, last_input_count);
    let models = context.messages.deep_view();
    assert(models.len() == context.messages@.len());
    assert forall|k: int| 0 <= k < models.len() implies #[trigger] models[k]
        == context.messages@[k].deep_view() by {}
    lemma_place(context.messages@, models, first, i);
    lemma_items_taken(context.messages@[i]);
    let sent = models.skip(first);
    assert(sent[i - first] == models[i]);
    lemma_input_at(sent, i - first);
    let input = request.input.deep_view();
    assert(input == inputs_of(sent));
    assert(input.len() == request.input@.len());
    let place = place_of(context.messages@, first, i);
    let items = input_of(models[i]);
    assert forall|t: int| 0 <= t < items.len() implies request.input@[place + t].deep_view()
        == #[trigger] items[t] by {
        assert(input[place + t] == request.input@[place + t].deep_view());
    }
}

/// Every message that a request sends stands in its input at that message's place, with
/// what it says under its role. A result stands there under the identity of the call
/// that it answers, and calls stand behind what was said with them, each with its
/// identity, its name and the JSON text of its arguments.
pub proof fn law_messages_stand_at_their_place(
    context: Context,
    previous_response_id: Option<String>,
    last_input_count: usize,
    request: ResponsesApiRequest,
    i: int,
    j: int,
)
    requires
        call_ensures(
            ResponsesApiRequest::from_context,
            (&context, previous_response_id, last_input_count),
            request,
        ),
        first_sent(context, previous_response_id, last_input_count) <= i < context.messages@.len(),
    ensures
        ({
            let message = context.messages@[i];
            let place = place_of(
                context.messages@,
                first_sent(context, previous_response_id, last_input_count),
                i,
            ) as int;
            let behind = if message.speaks() {
                place + 1
            } else {
                place
            };
            &&& place + items_taken(message) <= request.input@.len()
            &&& message.role == MessageRole::Tool ==> (
            request.input@[place] matches ResponsesInputItem::FunctionCallOutput { call_id, output }
                && (match message.tool_call_id {
                Some(id) => call_id@ == id@,
                None => call_id@.len() == 0,
            }) && (match message.content {
                Some(content) => output@ == content@,
                None => output@.len() == 0,
            }))
            &&& message.role == MessageRole::User && message.speaks() ==> (
            request.input@[place] matches ResponsesInputItem::Message { role, content } && role@
                == "user"@ && content@ == message.content->0@)
            &&& message.role == MessageRole::Assistant && message.speaks() ==> (
            request.input@[place] matches ResponsesInputItem::Message { role, content } && role@
                == "assistant"@ && content@ == message.content->0@)
            &&& message.role == MessageRole::Assistant && 0 <= j < message.tool_calls@.len() ==> (
            request.input@[behind + j] matches ResponsesInputItem::FunctionCall {
                call_id,
                name,
                arguments,
            } && call_id@ == message.tool_calls@[j].id@ && name@ == message.tool_calls@[j].name@
                && arguments@ == json::tree_text(message.tool_calls@[j].arguments.deep_view()))
        }),
{
    lemma_sent_at(context, previous_response_id, last_input_count, request, i);
    let message = context.messages@[i];
    let place = place_of(
        context.messages@,
        first_sent(context, previous_response_id, last_input_count),
        i,
    ) as int;
    let items = input_of(message.deep_view());
    if message.role == MessageRole::Assistant {
        let calls = message.tool_calls.deep_view();
        assert(calls.len() == message.tool_calls@.len());
        if message.speaks() {
            assert(items[0] == request.input@[place + 0].deep_view());
        }
        if 0 <= j < calls.len() {
            let t: int = if message.speaks() {
                j + 1
            } else {
                j
            };
            assert(calls[j] == message.tool_calls@[j].deep_view());
            assert(items[t] == request.input@[place + t].deep_view());
        }
    } else if items.len() > 0 {
        assert(items[0] == request.input@[place + 0].deep_view());
    }
}

/// A request sends nothing but the messages that it is to send.
pub proof fn law_request_sends_nothing_else(
    context: Context,
    previous_response_id: Option<String>,
    last_input_count: usize,
    request: ResponsesApiRequest,
)
    requires
        call_ensures(
            ResponsesApiRequest::from_context,
            (&context, previous_response_id, last_input_count),
            request,
        ),
    ensures
        request.input@.len() == place_of(
            context.messages@,
            first_sent(context, previous_response_id, last_input_count),
            context.messages@.len() as int,
        ),
{
    let first = first_sent(context, previous_response_id, last_input_count);
    let models = context.messages.deep_view();
    let count = context.messages@.len() as int;
    assert(models.len() == count);
    assert forall|k: int| 0 <= k < models.len() implies #[trigger] models[k]
        == context.messages@[k].deep_view() by {}
    lemma_place(context.messages@, models, first, count);
    assert(models.skip(first).take(count - first) =~= models.skip(first));
    assert(request.input.deep_view() == inputs_of(models.skip(first)));
    assert(request.input.deep_view().len() == request.input@.len());
}

/// Where a result answers a call that an earlier message of the same request makes, the
/// input holds the call before the result, under the same identity.
pub proof fn law_results_follow_their_calls(
    context: Context,
    previous_response_id: Option<String>,
    last_input_count: usize,
    request: ResponsesApiRequest,
    asked: int,
    j: int,
    answered: int,
) -> (r: (int, int))
    requires
        call_ensures(
            ResponsesApiRequest::from_context,
            (&context, previous_response_id, last_input_count),
            request,
        ),
        first_sent(context, previous_response_id, last_input_count) <= asked < answered
            < context.messages@.len(),
        context.messages@[asked].role == MessageRole::Assistant,
        0 <= j < context.messages@[asked].tool_calls@.len(),
        context.messages@[answered].role == MessageRole::Tool,
        context.messages@[answered].tool_call_id matches Some(id) && id@
            == context.messages@[asked].tool_calls@[j].id@,
    ensures
        0 <= r.0 < r.1 < request.input@.len(),
        request.input@[r.0] matches ResponsesInputItem::FunctionCall { call_id, .. }
            && request.input@[r.1] matches ResponsesInputItem::FunctionCallOutput {
            call_id: answers,
            ..
        } && call_id@ == answers@ && call_id@ == context.messages@[asked].tool_calls@[j].id@,
{
    let first = first_sent(context, previous_response_id, last_input_count);
    law_messages_stand_at_their_place(
        context,
        previous_response_id,
        last_input_count,
        request,
        asked,
        j,
    );
    law_messages_stand_at_their_place(
        context,
        previous_response_id,
        last_input_count,
        request,
        answered,
        0,
    );
    lemma_places_grow(context.messages@, first, asked + 1, answered);
    let at = place_of(context.messages@, first, asked) as int + if context.messages@[asked].speaks() {
        1 + j
    } else {
        j
    };
    (at, place_of(context.messages@, first, answered) as int)
}

proof fn lemma_places_grow(messages: Seq<Message>, first: int, i: int, j: int)
    requires
        first <= i <= j,
    ensures
        place_of(messages, first, i) <= place_of(messages, first, j),
    decreases j - i,
{
    if i < j {
        lemma_places_grow(messages, first, i, j - 1);
    }
}

/// A request asks the model of its conversation, offers it the tools of its conversation
/// one by one, is kept by the provider so that the next can build on it, and names the
/// answer that it builds on itself.
pub proof fn law_request_asks_the_model_of_its_conversation(
    context: Context,
    previous_response_id: Option<String>,
    last_input_count: usize,
    request: ResponsesApiRequest,
    i: int,
)
    requires
        call_ensures(
            ResponsesApiRequest::from_context,
            (&context, previous_response_id, last_input_count),
            request,
        ),
    ensures
        request.model@ == context.model.0@,
        request.store,
        !request.stream,
        match previous_response_id {
            Some(id) => request.previous_response_id matches Some(named) && named@ == id@,
            None => request.previous_response_id is None,
        },
        request.tools@.len() == context.tools@.len(),
        0 <= i < context.tools@.len() ==> {
            let tool = context.tools@[i];
            let offered = request.tools@[i];
            &&& offered.kind@ == "function"@
            &&& offered.name@ == tool.name@
            &&& match tool.description {
                Some(description) => offered.description matches Some(given) && given@
                    == description@,
                None => offered.description is None,
            }
            &&& offered.parameters.deep_view() == schema::strict_schema(tool.parameters.deep_view())
            &&& offered.strict is None
        },
{
    let tools = context.tools.deep_view();
    assert(request.tools.deep_view().len() == request.tools@.len());
    assert(tools.len() == context.tools@.len());
    if 0 <= i < context.tools@.len() {
        assert(request.tools.deep_view()[i] == request.tools@[i].deep_view());
        assert(tools[i] == context.tools@[i].deep_view());
    }
}

proof fn lemma_instruction_is_among(models: Seq<MessageModel>, i: int) -> (at: int)
    requires
        0 <= i < models.len(),
        models[i].role == MessageRole::System,
        spoken(models[i].content) is Some,
    ensures
        0 <= at < instructions_of(models).len(),
        instructions_of(models)[at] == models[i].content->0,
    decreases models.len(),
{
    if i == models.len() - 1 {
        instructions_of(models.drop_last()).len() as int
    } else {
        lemma_instruction_is_among(models.drop_last(), i)
    }
}

proof fn lemma_no_instructions(models: Seq<MessageModel>)
    requires
        forall|i: int|
            0 <= i < models.len() ==> !((#[trigger] models[i]).role == MessageRole::System
                && spoken(models[i].content) is Some),
    ensures
        instructions_of(models).len() == 0,
    decreases models.len(),
{
    if models.len() > 0 {
        assert(models.last() == models[models.len() - 1]);
        assert forall|i: int| 0 <= i < models.drop_last().len() implies !((
        #[trigger] models.drop_last()[i]).role == MessageRole::System && spoken(
            models.drop_last()[i].content,
        ) is Some) by {
            assert(models.drop_last()[i] == models[i]);
        }
        lemma_no_instructions(models.drop_last());
    }
}

/// What a system message says is in the instructions of a request that begins the
/// conversation; one that goes on with it has none, and neither has one without system
/// messages that say something.
pub proof fn law_system_messages_are_instructions(
    context: Context,
    previous_response_id: Option<String>,
    last_input_count: usize,
    request: ResponsesApiRequest,
    i: int,
)
    requires
        call_ensures(
            ResponsesApiRequest::from_context,
            (&context, previous_response_id, last_input_count),
            request,
        ),
    ensures
        ({
            let begins = first_sent(context, previous_response_id, last_input_count) == 0;
            &&& begins && 0 <= i < context.messages@.len() && context.messages@[i].role
                == MessageRole::System && context.messages@[i].speaks() ==> (
            request.instructions matches Some(instructions) && text::stands_in(
                instructions@,
                context.messages@[i].content->0@,
            ))
            &&& !begins ==> request.instructions is None
            &&& (forall|k: int|
                0 <= k < context.messages@.len() ==> !((#[trigger] context.messages@[k]).role
                    == MessageRole::System && context.messages@[k].speaks()))
                ==> request.instructions is None
        }),
{
    let first = first_sent(context, previous_response_id, last_input_count);
    let models = context.messages.deep_view();
    assert(models.len() == context.messages@.len());
    if first == 0 {
        assert(models.skip(0) =~= models);
        if 0 <= i < models.len() && context.messages@[i].role == MessageRole::System && context.messages@[i].speaks() {
            assert(models[i] == context.messages@[i].deep_view());
            let at = lemma_instruction_is_among(models, i);
            text::law_joined_holds_its_parts(instructions_of(models), "\n"@, at);
        }
        if forall|k: int|
            0 <= k < context.messages@.len() ==> !((#[trigger] context.messages@[k]).role
                == MessageRole::System && context.messages@[k].speaks()) {
            assert forall|k: int| 0 <= k < models.len() implies !((#[trigger] models[k]).role
                == MessageRole::System && spoken(models[k].content) is Some) by {
                assert(models[k] == context.messages@[k].deep_view());
                assert(!(context.messages@[k].role == MessageRole::System && context.messages@[k].speaks()));
            }
            lemma_no_instructions(models);
        }
    }
}

/// How many of the first blocks of an answer are calls.
pub open spec fn calls_before(output: Seq<ResponsesOutputBlock>, i: int) -> nat
    decreases i,
{
    if i <= 0 {
        0
    } else {
        calls_before(output, i - 1) + if output[i - 1] is FunctionCall {
            1nat
        } else {
            0
        }
    }
}

/// All that the first blocks of an answer say.
pub open spec fn said_before(output: Seq<ResponsesOutputBlock>, i: int) -> Seq<char>
    decreases i,
{
    if i <= 0 {
        Seq::empty()
    } else {
        said_before(output, i - 1) + match output[i - 1] {
            ResponsesOutputBlock::Message { content, .. } => said_in(content@, content@.len() as int),
            ResponsesOutputBlock::FunctionCall { .. } => Seq::empty(),
        }
    }
}

/// All that the first pieces of a block say.
pub open spec fn said_in(content: Seq<ResponsesOutputContent>, i: int) -> Seq<char>
    decreases i,
{
    if i <= 0 {
        Seq::empty()
    } else {
        said_in(content, i - 1) + match content[i - 1] {
            ResponsesOutputContent::OutputText { text } => text@,
        }
    }
}

proof fn lemma_calls_before(output: Seq<ResponsesOutputBlock>, models: Seq<OutputModel>, i: int)
    requires
        models.len() == output.len(),
        forall|k: int| 0 <= k < output.len() ==> #[trigger] models[k] == output[k].deep_view(),
        0 <= i <= output.len(),
    ensures
        output_calls(models.take(i)).len() == calls_before(output, i),
    decreases i,
{
    if i > 0 {
        lemma_calls_before(output, models, i - 1);
        assert(models.take(i).drop_last() =~= models.take(i - 1));
        assert(models.take(i).last() == models[i - 1]);
    }
}

proof fn lemma_call_at(models: Seq<OutputModel>, i: int)
    requires
        0 <= i < models.len(),
        models[i] is FunctionCall,
    ensures
        output_calls(models.take(i)).len() < output_calls(models).len(),
        output_calls(models)[output_calls(models.take(i)).len() as int] == (ToolCallModel {
            id: models[i]->call_id,
            name: models[i]->name,
            arguments: arguments_tree(models[i]->arguments),
            metadata: None,
        }),
    decreases models.len(),
{
    if i == models.len() - 1 {
        assert(models.take(i) =~= models.drop_last());
    } else {
        lemma_call_at(models.drop_last(), i);
        assert(models.drop_last().take(i) =~= models.take(i));
    }
}

/// An answer makes the calls that its blocks hold, in their order: each with its
/// identity and its name, and with what its arguments parse to, or their text where they
/// do not parse.
pub proof fn law_calls_are_read_as_they_stand(
    response: ResponsesApiResponse,
    provider: ProviderId,
    answer: Result<NormalizedResponses, ProviderError>,
    i: int,
    tree: JsonTree,
)
    requires
        call_ensures(normalize_responses_response, (response, &provider), answer),
        0 <= i < response.output@.len(),
        response.output@[i] is FunctionCall,
    ensures
        answer is Ok,
        ({
            let block = response.output@[i];
            let calls = answer->Ok_0.response.tool_calls@;
            let at = calls_before(response.output@, i) as int;
            &&& calls.len() == calls_before(response.output@, response.output@.len() as int)
            &&& at < calls.len()
            &&& calls[at].id@ == block->call_id@
            &&& calls[at].name@ == block->name@
            &&& calls[at].metadata is None
            &&& json::parsed_tree(block->arguments@) == Some(tree)
                ==> calls[at].arguments.deep_view() == tree
            &&& json::parsed_tree(block->arguments@) is None ==> calls[at].arguments.deep_view()
                == JsonTree::Text(block->arguments@)
        }),
{
    let models = response.output.deep_view();
    let output = response.output@;
    assert(models.len() == output.len());
    assert forall|k: int| 0 <= k < output.len() implies #[trigger] models[k]
        == output[k].deep_view() by {}
    lemma_calls_before(output, models, i);
    lemma_calls_before(output, models, output.len() as int);
    assert(models.take(models.len() as int) =~= models);
    assert(models[i] == output[i].deep_view());
    lemma_call_at(models, i);
    let calls = answer->Ok_0.response.tool_calls;
    assert(calls.deep_view() == output_calls(models));
    assert(calls.deep_view().len() == calls@.len());
    let at = calls_before(output, i) as int;
    assert(calls.deep_view()[at] == calls@[at].deep_view());
}

proof fn lemma_said_in(content: Seq<ResponsesOutputContent>, texts: Seq<Seq<char>>, i: int)
    requires
        texts.len() == content.len(),
        forall|k: int| 0 <= k < content.len() ==> #[trigger] texts[k] == content[k].deep_view(),
        0 <= i <= content.len(),
    ensures
        text::run_together(filled_texts(texts.take(i))) == said_in(content, i),
    decreases i,
{
    if i > 0 {
        lemma_said_in(content, texts, i - 1);
        assert(texts.take(i).drop_last() =~= texts.take(i - 1));
        assert(texts.take(i).last() == texts[i - 1]);
        let before = filled_texts(texts.take(i - 1));
        if texts[i - 1].len() > 0 {
            assert(before.push(texts[i - 1]).drop_last() =~= before);
        } else {
            assert(said_in(content, i) =~= said_in(content, i - 1));
        }
    } else {
        assert(texts.take(0) =~= Seq::empty());
    }
}

proof fn lemma_said_before(output: Seq<ResponsesOutputBlock>, models: Seq<OutputModel>, i: int)
    requires
        models.len() == output.len(),
        forall|k: int| 0 <= k < output.len() ==> #[trigger] models[k] == output[k].deep_view(),
        0 <= i <= output.len(),
    ensures
        text::run_together(output_texts(models.take(i))) == said_before(output, i),
    decreases i,
{
    if i > 0 {
        lemma_said_before(output, models, i - 1);
        assert(models.take(i).drop_last() =~= models.take(i - 1));
        assert(models.take(i).last() == models[i - 1]);
        let before = output_texts(models.take(i - 1));
        match output[i - 1] {
            ResponsesOutputBlock::Message { content, .. } => {
                let texts = content.deep_view();
                assert(texts.len() == content@.len());
                assert forall|k: int| 0 <= k < content@.len() implies #[trigger] texts[k]
                    == content@[k].deep_view() by {}
                lemma_said_in(content@, texts, content@.len() as int);
                assert(texts.take(texts.len() as int) =~= texts);
                text::lemma_run_together_adds(before, filled_texts(texts));
            },
            ResponsesOutputBlock::FunctionCall { .. } => {
                assert(before + Seq::<Seq<char>>::empty() =~= before);
                assert(said_before(output, i) =~= said_before(output, i - 1));
            },
        }
    } else {
        assert(models.take(0) =~= Seq::empty());
    }
}

proof fn lemma_filled_texts_are_filled(texts: Seq<Seq<char>>)
    ensures
        forall|k: int|
            0 <= k < filled_texts(texts).len() ==> (#[trigger] filled_texts(texts)[k]).len() > 0,
    decreases texts.len(),
{
    if texts.len() > 0 {
        lemma_filled_texts_are_filled(texts.drop_last());
        let before = filled_texts(texts.drop_last());
        assert forall|k: int| 0 <= k < filled_texts(texts).len() implies (
        #[trigger] filled_texts(texts)[k]).len() > 0 by {
            if k < before.len() {
                assert(filled_texts(texts)[k] == before[k]);
            }
        }
    }
}

proof fn lemma_output_texts_are_filled(models: Seq<OutputModel>)
    ensures
        forall|k: int|
            0 <= k < output_texts(models).len() ==> (#[trigger] output_texts(models)[k]).len() > 0,
    decreases models.len(),
{
    if models.len() > 0 {
        lemma_output_texts_are_filled(models.drop_last());
        let before = output_texts(models.drop_last());
        if let OutputModel::Message(texts) = models.last() {
            lemma_filled_texts_are_filled(texts);
            assert forall|k: int| 0 <= k < output_texts(models).len() implies (
            #[trigger] output_texts(models)[k]).len() > 0 by {
                if k < before.len() {
                    assert(output_texts(models)[k] == before[k]);
                } else {
                    assert(output_texts(models)[k] == filled_texts(texts)[k - before.len()]);
                }
            }
        } else {
            assert(output_texts(models) =~= before);
        }
    }
}

/// An answer says what its blocks say, one behind the other, and nothing where they say
/// nothing. It is the assistant's, makes the same calls inside its message as beside it,
/// ends for the reason that the status gives, and counts the tokens that were counted. A
/// response without blocks is no answer.
pub proof fn law_answer_says_what_its_blocks_say(
    response: ResponsesApiResponse,
    provider: ProviderId,
    answer: Result<NormalizedResponses, ProviderError>,
)
    requires
        call_ensures(normalize_responses_response, (response, &provider), answer),
    ensures
        answer is Ok <==> response.output@.len() > 0,
        answer matches Err(error) ==> (error matches ProviderError::ResponseParse {
            provider: named,
            message,
        } && named.0@ == provider.0@ && message@
            == "Responses API response contained no output items"@),
        answer matches Ok(given) ==> {
            let said = said_before(response.output@, response.output@.len() as int);
            &&& said.len() > 0 ==> (given.response.message.content matches Some(content) && content@
                == said)
            &&& said.len() == 0 ==> given.response.message.content is None
            &&& given.response.message.role == MessageRole::Assistant
            &&& given.response.message.tool_call_id is None
            &&& given.response.message.attachments@.len() == 0
            &&& given.response.message.tool_calls.deep_view()
                == given.response.tool_calls.deep_view()
            &&& match response.status {
                Some(status) => given.response.finish_reason matches Some(reason) && reason@
                    == status@,
                None => given.response.finish_reason is None,
            }
            &&& match response.id {
                Some(id) => given.response_id matches Some(kept) && kept@ == id@,
                None => given.response_id is None,
            }
            &&& match response.usage {
                Some(usage) => given.response.usage matches Some(counted) && counted.prompt_tokens
                    == usage.input_tokens && counted.completion_tokens == usage.output_tokens
                    && counted.total_tokens == usage.total_tokens,
                None => given.response.usage is None,
            }
        },
{
    let models = response.output.deep_view();
    let output = response.output@;
    assert(models.len() == output.len());
    assert forall|k: int| 0 <= k < output.len() implies #[trigger] models[k]
        == output[k].deep_view() by {}
    lemma_said_before(output, models, output.len() as int);
    assert(models.take(models.len() as int) =~= models);
    text::law_joined_by_nothing(output_texts(models));
    lemma_output_texts_are_filled(models);
    let texts = output_texts(models);
    if texts.len() > 0 {
        assert(texts.last().len() > 0);
        assert(text::run_together(texts).len() > 0);
    }
    if let Ok(given) = answer {
        assert(given.response.message.attachments.deep_view().len()
            == given.response.message.attachments@.len());
    }
}

/// A piece of text is handed on as it came, and changes nothing of the calls.
pub proof fn law_text_is_handed_on(
    data: ResponsesTextDeltaData,
    provider: ProviderId,
    accumulator: &mut ResponsesToolCallAccumulator,
    action: Result<ResponsesEventAction, ProviderError>,
)
    requires
        call_ensures(
            parse_responses_stream_event,
            (ResponsesPayload::TextDelta(data), &provider, accumulator),
            action,
        ),
    ensures
        final(accumulator).model() == old(accumulator).model(),
        action matches Ok(ResponsesEventAction::Items(items)) && (if data.delta@.len() == 0 {
            items@.len() == 0
        } else {
            items@.len() == 1 && (items@[0] matches StreamItem::Text(text) && text@ == data.delta@)
        }),
{
    let items = action->Ok_0->Items_0;
    assert(items.deep_view().len() == items@.len());
    if data.delta@.len() > 0 {
        assert(items.deep_view()[0] == items@[0].deep_view());
    }
}

/// Where a call is announced and arguments come for it next, they are handed on as they
/// came, under the identity and the name that were announced; what comes after belongs to
/// the same place.
pub proof fn law_arguments_belong_to_the_announced_call(
    announced: ResponsesOutputItemAddedData,
    data: ResponsesFunctionArgsDeltaData,
    more: ResponsesFunctionArgsDeltaData,
    provider: ProviderId,
    first: &mut ResponsesToolCallAccumulator,
    second: &mut ResponsesToolCallAccumulator,
    third: &mut ResponsesToolCallAccumulator,
    actions: (
        Result<ResponsesEventAction, ProviderError>,
        Result<ResponsesEventAction, ProviderError>,
        Result<ResponsesEventAction, ProviderError>,
    ),
)
    requires
        call_ensures(
            parse_responses_stream_event,
            (ResponsesPayload::ItemAdded(announced), &provider, first),
            actions.0,
        ),
        call_ensures(
            parse_responses_stream_event,
            (ResponsesPayload::ArgumentsDelta(data), &provider, second),
            actions.1,
        ),
        call_ensures(
            parse_responses_stream_event,
            (ResponsesPayload::ArgumentsDelta(more), &provider, third),
            actions.2,
        ),
        final(first).model() == old(second).model(),
        final(second).model() == old(third).model(),
        announced.output_index == data.output_index,
        data.output_index == more.output_index,
    ensures
        actions.0 matches Ok(ResponsesEventAction::Items(items)) && items@.len() == 0,
        actions.1 matches Ok(ResponsesEventAction::Items(items)) && items@.len() == 1 && (
        items@[0] matches StreamItem::ToolCallDelta(delta) && (announced.item.call_id matches Some(
            id,
        ) ==> (delta.id matches Some(given) && given@ == id@)) && (
        announced.item.name matches Some(name) ==> (delta.name matches Some(given) && given@
            == name@)) && (if data.delta@.len() == 0 {
            delta.arguments is None
        } else {
            delta.arguments matches Some(given) && given@ == data.delta@
        })),
        actions.2 matches Ok(ResponsesEventAction::Items(items)) && items@.len() == 1 && (
        items@[0] matches StreamItem::ToolCallDelta(delta) && actions.1->Ok_0->Items_0@[0] matches
            StreamItem::ToolCallDelta(before) && delta.index == before.index
            && delta.id.deep_view() == before.id.deep_view() && delta.name.deep_view()
            == before.name.deep_view() && (if more.delta@.len() == 0 {
            delta.arguments is None
        } else {
            delta.arguments matches Some(given) && given@ == more.delta@
        })),
        final(third).model().calls[more.output_index].arguments
            == old(second).model().calls[data.output_index].arguments + data.delta@ + more.delta@,
{
    let none = actions.0->Ok_0->Items_0;
    assert(none.deep_view().len() == none@.len());
    let one = actions.1->Ok_0->Items_0;
    assert(one.deep_view().len() == one@.len());
    assert(one.deep_view()[0] == one@[0].deep_view());
    let two = actions.2->Ok_0->Items_0;
    assert(two.deep_view().len() == two@.len());
    assert(two.deep_view()[0] == two@[0].deep_view());
}

/// A complete answer is streamed as it would be read whole: its text first, then each of
/// its calls in its place with its identity, its name and the JSON text of its
/// arguments, then its token counts and why it ended. Calls that have been streamed
/// before are not handed out again. It is remembered under its identity.
pub proof fn law_completion_streams_the_whole_answer(
    data: ResponsesCompletedData,
    provider: ProviderId,
    accumulator: &mut ResponsesToolCallAccumulator,
    action: Result<ResponsesEventAction, ProviderError>,
    answer: Result<NormalizedResponses, ProviderError>,
    k: int,
)
    requires
        call_ensures(
            parse_responses_stream_event,
            (ResponsesPayload::Completed(data), &provider, accumulator),
            action,
        ),
        call_ensures(normalize_responses_response, (data.response, &provider), answer),
        old(accumulator).output_index_to_call@.dom().finite(),
    ensures
        final(accumulator).model() == old(accumulator).model(),
        action is Err <==> answer is Err,
        answer matches Ok(whole) ==> {
            let items = match action->Ok_0 {
                ResponsesEventAction::Completed { items, .. } => items@,
                ResponsesEventAction::Items(items) => items@,
                ResponsesEventAction::Error(_) => Seq::empty(),
            };
            let calls = whole.response.tool_calls@;
            let streamed = old(accumulator).output_index_to_call@.dom().len() > 0;
            let text: int = if whole.response.message.content is Some {
                1
            } else {
                0
            };
            let behind: int = if streamed {
                text
            } else {
                text + calls.len()
            };
            let counted: int = if data.response.usage is Some {
                1
            } else {
                0
            };
            let ended: int = if data.response.status is Some {
                1
            } else {
                0
            };
            &&& match data.response.id {
                Some(id) => action->Ok_0 matches ResponsesEventAction::Completed {
                    response_id,
                    ..
                } && response_id@ == id@,
                None => action->Ok_0 is Items,
            }
            &&& items.len() == behind + counted + ended
            &&& whole.response.message.content matches Some(content) ==> (
            items[0] matches StreamItem::Text(given) && given@ == content@)
            &&& !streamed && 0 <= k < calls.len() && k <= usize::MAX ==> (
            items[text + k] matches StreamItem::ToolCallDelta(delta) && delta.index == k && (
            delta.id matches Some(id) && id@ == calls[k].id@) && (delta.name matches Some(name)
                && name@ == calls[k].name@) && (delta.arguments matches Some(arguments)
                && arguments@ == json::tree_text(calls[k].arguments.deep_view()))
                && delta.metadata is None)
            &&& data.response.usage matches Some(usage) ==> (
            items[behind] matches StreamItem::UsageUpdate(given) && given.prompt_tokens
                == usage.input_tokens && given.completion_tokens == usage.output_tokens
                && given.total_tokens == usage.total_tokens)
            &&& data.response.status matches Some(status) ==> (
            items[behind + counted] matches StreamItem::FinishReason(given) && given@ == status@)
        },
{
    let model = old(accumulator).model();
    let known = old(accumulator).output_index_to_call@;
    assert(model.calls.dom() =~= known.dom());
    if known.dom().len() > 0 {
        assert(!model.calls.is_empty()) by {
            if model.calls.is_empty() {
                assert(known.dom() =~= Set::empty());
            }
        }
    } else {
        assert(known.dom() =~= Set::empty());
        assert(model.calls =~= Map::empty());
    }
    if let Ok(whole) = answer {
        let list = match action->Ok_0 {
            ResponsesEventAction::Completed { items, .. } => items,
            ResponsesEventAction::Items(items) => items,
            ResponsesEventAction::Error(_) => arbitrary(),
        };
        assert(list.deep_view().len() == list@.len());
        let streamed = known.dom().len() > 0;
        let text: int = if whole.response.message.content is Some {
            1
        } else {
            0
        };
        let calls = whole.response.tool_calls.deep_view();
        assert(calls.len() == whole.response.tool_calls@.len());
        let behind: int = if streamed {
            text
        } else {
            text + calls.len()
        };
        assert(list.deep_view() == completed_items(whole.response.deep_view(), streamed));
        if text > 0 {
            assert(list.deep_view()[0] == list@[0].deep_view());
        }
        if !streamed && 0 <= k < calls.len() {
            assert(calls[k] == whole.response.tool_calls@[k].deep_view());
            assert(whole_calls(calls)[k] == list.deep_view()[text + k]);
            assert(list.deep_view()[text + k] == list@[text + k].deep_view());
        }
        if data.response.usage is Some {
            assert(list.deep_view()[behind] == list@[behind].deep_view());
        }
        if data.response.status is Some {
            assert(list.deep_view().last() == list@[list@.len() - 1].deep_view());
        }
    }
}

/// A failure that the provider reports ends the stream with what it says, and so does an
/// event that cannot be read.
pub proof fn law_reported_failure_ends_the_stream(
    data: ResponsesFailedData,
    invalid: InvalidEvent,
    provider: ProviderId,
    first: &mut ResponsesToolCallAccumulator,
    second: &mut ResponsesToolCallAccumulator,
    failed: Result<ResponsesEventAction, ProviderError>,
    unread: Result<ResponsesEventAction, ProviderError>,
)
    requires
        call_ensures(
            parse_responses_stream_event,
            (ResponsesPayload::Failed(data), &provider, first),
            failed,
        ),
        call_ensures(
            parse_responses_stream_event,
            (ResponsesPayload::Invalid(invalid), &provider, second),
            unread,
        ),
    ensures
        failed matches Ok(ResponsesEventAction::Error(ProviderError::RequestFailed {
            provider: named,
            message,
        })) && named.0@ == provider.0@ && (data.error matches Some(error) ==> message@ == error@),
        unread matches Err(ProviderError::ResponseParse { provider: named, message })
            && named.0@ == provider.0@ && invalid.error@.len() <= message@.len() && message@.skip(
            message@.len() - invalid.error@.len(),
        ) == invalid.error@,
{
    let message = unread->Err_0->ResponseParse_message@;
    assert(message.skip(message.len() - invalid.error@.len()) =~= invalid.error@);
}

/// Every event type that a stream may bring is told apart from every other.
pub proof fn law_event_types_are_told_apart(kind: String, r: ResponsesEventKind)
    requires
        call_ensures(responses_event_kind, (&Some(kind),), r),
    ensures
        r == ResponsesEventKind::TextDelta <==> kind@ == "response.output_text.delta"@,
        r == ResponsesEventKind::ArgumentsDelta <==> kind@
            == "response.function_call_arguments.delta"@,
        r == ResponsesEventKind::ItemAdded <==> kind@ == "response.output_item.added"@,
        r == ResponsesEventKind::Completed <==> kind@ == "response.completed"@,
        r == ResponsesEventKind::Failed <==> kind@ == "response.failed"@,
{
    reveal_strlit("response.output_text.delta");
    reveal_strlit("response.function_call_arguments.delta");
    reveal_strlit("response.output_item.added");
    reveal_strlit("response.completed");
    reveal_strlit("response.failed");
    assert("response.output_text.delta"@.len() == 26);
    assert("response.function_call_arguments.delta"@.len() == 38);
    assert("response.output_item.added"@[16] == 'i');
    assert("response.output_text.delta"@[16] == 't');
    assert("response.completed"@.len() == 18);
    assert("response.failed"@.len() == 15);
}

proof fn lemma_open_is_not_completed(
    calls: CallsModel,
    payloads: Seq<PayloadModel>,
    provider: Seq<char>,
)
    requires
        responses_batch(calls, payloads, provider).end is Open,
    ensures
        responses_batch(calls, payloads, provider).completed is None,
    decreases payloads.len(),
{
    if payloads.len() > 0 {
        lemma_open_is_not_completed(calls, payloads.drop_last(), provider);
    }
}

/// A batch does what its events do one after the other: with one more event behind a
/// batch that left its stream open, the items of that event come behind those of the
/// batch, and the stream ends where that event ends it. A complete answer is what the
/// next request builds on, with the messages that it has seen; nothing else is.
pub proof fn law_batch_does_what_its_events_do(
    whole: Vec<ResponsesPayload>,
    first: Vec<ResponsesPayload>,
    last: ResponsesPayload,
    provider: ProviderId,
    calls: (
        &mut ResponsesToolCallAccumulator,
        &mut ResponsesToolCallAccumulator,
        &mut ResponsesToolCallAccumulator,
    ),
    chaining: (&mut ChainingState, &mut ChainingState),
    message_count: usize,
    at_once: StreamBatch,
    before: StreamBatch,
    action: Result<ResponsesEventAction, ProviderError>,
)
    requires
        call_ensures(
            process_responses_events,
            (whole, &provider, calls.0, chaining.0, message_count),
            at_once,
        ),
        call_ensures(
            process_responses_events,
            (first, &provider, calls.1, chaining.1, message_count),
            before,
        ),
        call_ensures(parse_responses_stream_event, (last, &provider, calls.2), action),
        whole@ == first@.push(last),
        calls.0.model() == calls.1.model(),
        final(calls.1).model() == calls.2.model(),
        *chaining.0 == *chaining.1,
    ensures
        before.end !is Open ==> at_once.items.deep_view() == before.items.deep_view()
            && at_once.end.deep_view() == before.end.deep_view(),
        before.end is Open ==> match action {
            Ok(ResponsesEventAction::Items(items)) => at_once.end is Open
                && at_once.items.deep_view() == before.items.deep_view() + items.deep_view()
                && *final(chaining.0) == *final(chaining.1),
            Ok(ResponsesEventAction::Completed { response_id, items }) => at_once.end is Done
                && at_once.items.deep_view() == before.items.deep_view() + items.deep_view() && (
            final(chaining.0).previous_response_id matches Some(id) && id@ == response_id@)
                && final(chaining.0).last_input_count == message_count,
            Ok(ResponsesEventAction::Error(error)) => (at_once.end matches BatchEnd::Failed(told)
                && told.deep_view() == error.deep_view()) && at_once.items.deep_view()
                == before.items.deep_view(),
            Err(error) => (at_once.end matches BatchEnd::Failed(told) && told.deep_view()
                == error.deep_view()) && at_once.items.deep_view() == before.items.deep_view(),
        },
{
    let models = whole.deep_view();
    assert(models.len() == whole@.len());
    assert(models.drop_last() =~= first.deep_view());
    assert(models.last() == whole@[whole@.len() - 1].deep_view());
    if before.end is Open {
        lemma_open_is_not_completed(calls.1.model(), first.deep_view(), provider.0@);
    }
}

/// The next request builds on the last answer that was remembered, and sends what has
/// come since; once that is forgotten, it sends everything.
pub proof fn law_next_request_builds_on_the_answer(
    remembered: &mut ChainingState,
    forgotten: &mut ChainingState,
    response_id: String,
    message_count: usize,
    context: Context,
    next: ResponsesApiRequest,
    fresh: ResponsesApiRequest,
)
    requires
        call_ensures(
            ChainingState::update_chaining_state,
            (remembered, response_id, message_count),
            (),
        ),
        call_ensures(ChainingState::reset_chaining_state, (forgotten,), ()),
        call_ensures(ChainingState::build_request, (final(remembered), &context), next),
        call_ensures(ChainingState::build_request, (final(forgotten), &context), fresh),
        message_count <= context.messages@.len(),
    ensures
        next.previous_response_id matches Some(id) && id@ == response_id@,
        next.input.deep_view() == inputs_of(
            context.messages.deep_view().skip(message_count as int),
        ),
        message_count > 0 ==> next.instructions is None,
        fresh.previous_response_id is None,
        fresh.input.deep_view() == inputs_of(context.messages.deep_view()),
        next.model@ == context.model.0@,
        fresh.model@ == context.model.0@,
{
    assert(context.messages.deep_view().len() == context.messages@.len());
    assert(context.messages.deep_view().skip(0) =~= context.messages.deep_view());
}

} // verus!
