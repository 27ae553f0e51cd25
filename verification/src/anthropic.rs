//! Requests to Anthropic, and what its answers mean.

use crate::endpoint;
use crate::schema;
use crate::text;
use crate::endpoint::{
    ANTHROPIC_DEFAULT_BASE_URL, ANTHROPIC_MESSAGES_PATH, DEFAULT_ANTHROPIC_MAX_TOKENS, non_empty,
};
use crate::json::{Json, JsonTree};
use crate::model::{
    clone_tool_calls, request_failed, response_parse, Context, ContextModel, Message, MessageModel,
    MessageRole, ProviderError, ProviderErrorModel, ProviderId, Response, ResponseModel,
    StreamItem, StreamItemModel, ToolCall, ToolCallDelta, ToolCallDeltaModel, ToolCallModel,
    UsageUpdate,
};
use crate::schema::{FunctionDecl, FunctionDeclModel};
use crate::stream::{append_items, BatchEnd, BatchEndModel, StreamBatch, StreamPayload};
use crate::text::{concat, concat3, join, same_text, trim};
use std::collections::HashMap;
use vstd::prelude::*;

verus! {

broadcast use vstd::std_specs::hash::group_hash_axioms;

/// How Anthropic is reached.
#[derive(Debug, PartialEq, Eq)]
pub struct AnthropicConfig {
    pub api_key: Option<String>,
    pub base_url: String,
    pub max_tokens: u32,
}

impl Default for AnthropicConfig {
    fn default() -> (r: Self)
        ensures
            r.api_key is None,
            r.base_url@ == ANTHROPIC_DEFAULT_BASE_URL@,
            r.max_tokens == DEFAULT_ANTHROPIC_MAX_TOKENS,
    {
        AnthropicConfig {
            api_key: None,
            base_url: ANTHROPIC_DEFAULT_BASE_URL.to_owned(),
            max_tokens: DEFAULT_ANTHROPIC_MAX_TOKENS,
        }
    }
}

/// The address that messages are sent to.
pub fn messages_url(base_url: &str) -> (r: String)
    ensures
        r@ == base_url@ + ANTHROPIC_MESSAGES_PATH@,
{
    concat(base_url, ANTHROPIC_MESSAGES_PATH)
}

#[derive(Debug, PartialEq)]
pub enum AnthropicRequestContentBlock {
    Text { text: String },
    ToolUse { id: String, name: String, input: Json },
    ToolResult { tool_use_id: String, content: String },
}

#[derive(Debug, PartialEq)]
pub struct AnthropicMessageRequest {
    pub role: String,
    pub content: Vec<AnthropicRequestContentBlock>,
}

#[derive(Debug, PartialEq)]
pub struct AnthropicRequestToolDefinition {
    pub name: String,
    pub description: Option<String>,
    pub input_schema: Json,
}

#[derive(Debug, PartialEq, Eq)]
pub struct AnthropicToolChoice {
    pub kind: String,
}

impl AnthropicToolChoice {
    /// The model decides whether to use a tool.
    pub fn auto() -> (r: Self)
        ensures
            r.kind@ == "auto"@,
    {
        AnthropicToolChoice { kind: "auto".to_owned() }
    }
}

#[derive(Debug, PartialEq)]
pub struct AnthropicMessagesRequest {
    pub model: String,
    pub max_tokens: u32,
    pub system: Option<String>,
    pub messages: Vec<AnthropicMessageRequest>,
    pub tools: Vec<AnthropicRequestToolDefinition>,
    pub tool_choice: Option<AnthropicToolChoice>,
    pub stream: bool,
}

pub enum BlockModel {
    Text { text: Seq<char> },
    ToolUse { id: Seq<char>, name: Seq<char>, input: JsonTree },
    ToolResult { tool_use_id: Seq<char>, content: Seq<char> },
}

pub struct TurnModel {
    pub role: Seq<char>,
    pub content: Seq<BlockModel>,
}

pub struct ToolModel {
    pub name: Seq<char>,
    pub description: Option<Seq<char>>,
    pub input_schema: JsonTree,
}

pub struct AnthropicRequestModel {
    pub model: Seq<char>,
    pub max_tokens: u32,
    pub system: Option<Seq<char>>,
    pub messages: Seq<TurnModel>,
    pub tools: Seq<ToolModel>,
    pub tool_choice: Option<Seq<char>>,
    pub stream: bool,
}

impl DeepView for AnthropicRequestContentBlock {
    type V = BlockModel;

    open spec fn deep_view(&self) -> BlockModel {
        match *self {
            AnthropicRequestContentBlock::Text { text } => BlockModel::Text { text: text@ },
            AnthropicRequestContentBlock::ToolUse { id, name, input } => BlockModel::ToolUse {
                id: id@,
                name: name@,
                input: input.deep_view(),
            },
            AnthropicRequestContentBlock::ToolResult { tool_use_id, content } => {
                BlockModel::ToolResult { tool_use_id: tool_use_id@, content: content@ }
            },
        }
    }
}

impl DeepView for AnthropicMessageRequest {
    type V = TurnModel;

    open spec fn deep_view(&self) -> TurnModel {
        TurnModel { role: self.role@, content: self.content.deep_view() }
    }
}

impl DeepView for AnthropicRequestToolDefinition {
    type V = ToolModel;

    open spec fn deep_view(&self) -> ToolModel {
        ToolModel {
            name: self.name@,
            description: self.description.deep_view(),
            input_schema: self.input_schema.deep_view(),
        }
    }
}

impl DeepView for AnthropicToolChoice {
    type V = Seq<char>;

    open spec fn deep_view(&self) -> Seq<char> {
        self.kind@
    }
}

impl DeepView for AnthropicMessagesRequest {
    type V = AnthropicRequestModel;

    open spec fn deep_view(&self) -> AnthropicRequestModel {
        AnthropicRequestModel {
            model: self.model@,
            max_tokens: self.max_tokens,
            system: self.system.deep_view(),
            messages: self.messages.deep_view(),
            tools: self.tools.deep_view(),
            tool_choice: self.tool_choice.deep_view(),
            stream: self.stream,
        }
    }
}

/// What Anthropic calls a role. It knows two.
pub open spec fn anthropic_role(role: MessageRole) -> Seq<char> {
    if role == MessageRole::Assistant {
        "assistant"@
    } else {
        "user"@
    }
}

/// What Anthropic calls a role.
pub fn message_role_to_anthropic_role(role: &MessageRole) -> (r: &'static str)
    ensures
        r@ == anthropic_role(*role),
{
    match role {
        MessageRole::User => "user",
        MessageRole::Tool => "user",
        MessageRole::Assistant => "assistant",
        MessageRole::System => "user",
    }
}

/// The role that an answer comes from.
pub open spec fn role_of_answer(role: Seq<char>) -> Option<MessageRole> {
    if role == "user"@ {
        Some(MessageRole::User)
    } else if role == "assistant"@ {
        Some(MessageRole::Assistant)
    } else {
        None
    }
}

/// The role that an answer comes from.
pub fn anthropic_role_to_message_role(role: &str) -> (r: Option<MessageRole>)
    ensures
        r == role_of_answer(role@),
{
    if same_text(role, "user") {
        Some(MessageRole::User)
    } else if same_text(role, "assistant") {
        Some(MessageRole::Assistant)
    } else {
        None
    }
}

/// What a turn of the user or the assistant says: its text without the white space
/// around it, if any is left, then its tool calls.
pub open spec fn blocks_of(message: MessageModel) -> Seq<BlockModel> {
    (match message.content {
        Some(text) => match endpoint::non_empty_text(text) {
            Some(inner) => seq![BlockModel::Text { text: inner }],
            None => Seq::empty(),
        },
        None => Seq::empty(),
    }) + message.tool_calls.map_values(
        |call: ToolCallModel|
            BlockModel::ToolUse { id: call.id, name: call.name, input: call.arguments },
    )
}

pub open spec fn role_label(role: MessageRole) -> Seq<char> {
    match role {
        MessageRole::System => "System"@,
        MessageRole::User => "User"@,
        MessageRole::Assistant => "Assistant"@,
        MessageRole::Tool => "Tool"@,
    }
}

pub open spec fn empty_turn_message(role: MessageRole) -> Seq<char> {
    "cannot convert "@ + role_label(role)
        + " message with empty content and no tool calls to Anthropic payload"@
}

/// The turn that a message becomes; none for what the system says; or what is wrong
/// with it.
pub open spec fn turn_of(message: MessageModel) -> Result<Seq<TurnModel>, Seq<char>> {
    match message.role {
        MessageRole::System => Ok(Seq::empty()),
        MessageRole::Tool => match message.tool_call_id {
            None => Err("tool message is missing tool_call_id for Anthropic payload"@),
            Some(id) => Ok(
                seq![
                    TurnModel {
                        role: "user"@,
                        content: seq![
                            BlockModel::ToolResult {
                                tool_use_id: id,
                                content: match message.content {
                                    Some(text) => text,
                                    None => Seq::empty(),
                                },
                            },
                        ],
                    },
                ],
            ),
        },
        _ => if blocks_of(message).len() == 0 {
            Err(empty_turn_message(message.role))
        } else {
            Ok(
                seq![
                    TurnModel { role: anthropic_role(message.role), content: blocks_of(message) },
                ],
            )
        },
    }
}

/// The turns that messages become, or what is wrong with the first that becomes none.
pub open spec fn turns_of(messages: Seq<MessageModel>) -> Result<Seq<TurnModel>, Seq<char>>
    decreases messages.len(),
{
    if messages.len() == 0 {
        Ok(Seq::empty())
    } else {
        match turns_of(messages.drop_last()) {
            Err(message) => Err(message),
            Ok(before) => match turn_of(messages.last()) {
                Err(message) => Err(message),
                Ok(turn) => Ok(before + turn),
            },
        }
    }
}

/// What the system messages say, each without the white space around it.
pub open spec fn system_chunks(messages: Seq<MessageModel>) -> Seq<Seq<char>>
    decreases messages.len(),
{
    if messages.len() == 0 {
        Seq::empty()
    } else {
        let before = system_chunks(messages.drop_last());
        let last = messages.last();
        if last.role == MessageRole::System && last.content is Some && endpoint::non_empty_text(
            last.content->0,
        ) is Some {
            before.push(endpoint::non_empty_text(last.content->0)->0)
        } else {
            before
        }
    }
}

pub open spec fn tool_of(tool: FunctionDeclModel) -> ToolModel {
    ToolModel {
        name: tool.name,
        description: tool.description,
        input_schema: schema::schema_tree(tool.parameters),
    }
}

/// The request that a conversation becomes, or what is wrong with it.
pub open spec fn anthropic_request(
    context: ContextModel,
    max_tokens: u32,
    stream: bool,
) -> Result<AnthropicRequestModel, Seq<char>> {
    match turns_of(context.messages) {
        Err(message) => Err(message),
        Ok(turns) => if turns.len() == 0 {
            Err("Anthropic request requires at least one non-system message"@)
        } else {
            Ok(
                AnthropicRequestModel {
                    model: context.model,
                    max_tokens: if max_tokens == 0 {
                        1
                    } else {
                        max_tokens
                    },
                    system: if system_chunks(context.messages).len() == 0 {
                        None
                    } else {
                        Some(text::joined(system_chunks(context.messages), "\n\n"@))
                    },
                    messages: turns,
                    tools: context.tools.map_values(|tool: FunctionDeclModel| tool_of(tool)),
                    tool_choice: if context.tools.len() == 0 {
                        None
                    } else {
                        Some("auto"@)
                    },
                    stream,
                },
            )
        },
    }
}

fn blocks(message: &Message) -> (r: Vec<AnthropicRequestContentBlock>)
    ensures
        r.deep_view() == blocks_of(message.deep_view()),
{
    let mut content: Vec<AnthropicRequestContentBlock> = Vec::new();
    if let Some(text) = &message.content {
        if let Some(text) = non_empty(text.clone()) {
            content.push(AnthropicRequestContentBlock::Text { text });
        }
    }
    let ghost start = content.deep_view();
    let ghost calls = message.deep_view().tool_calls.map_values(
        |call: ToolCallModel|
            BlockModel::ToolUse { id: call.id, name: call.name, input: call.arguments },
    );
    let mut i: usize = 0;
    proof {
        assert(start + calls.take(0) =~= start);
    }
    while i < message.tool_calls.len()
        invariant
            i <= message.tool_calls.len(),
            calls == message.deep_view().tool_calls.map_values(
                |call: ToolCallModel|
                    BlockModel::ToolUse { id: call.id, name: call.name, input: call.arguments },
            ),
            content.deep_view() == start + calls.take(i as int),
        decreases message.tool_calls.len() - i,
    {
        let ghost before = content.deep_view();
        let call = &message.tool_calls[i];
        content.push(
            AnthropicRequestContentBlock::ToolUse {
                id: call.id.clone(),
                name: call.name.clone(),
                input: call.arguments.clone(),
            },
        );
        proof {
            assert(content.deep_view() =~= before.push(calls[i as int]));
            assert(start + calls.take(i as int + 1) =~= (start + calls.take(i as int)).push(
                calls[i as int],
            ));
        }
        i += 1;
    }
    proof {
        assert(calls.take(i as int) =~= calls);
        assert(content.deep_view() =~= blocks_of(message.deep_view()));
    }
    content
}

fn role_text(role: MessageRole) -> (r: &'static str)
    ensures
        r@ == role_label(role),
{
    match role {
        MessageRole::System => "System",
        MessageRole::User => "User",
        MessageRole::Assistant => "Assistant",
        MessageRole::Tool => "Tool",
    }
}

/// The turn that a message becomes, if it becomes one.
fn turn(message: &Message) -> (r: Result<Option<AnthropicMessageRequest>, String>)
    ensures
        match (r, turn_of(message.deep_view())) {
            (Ok(Some(turn)), Ok(expected)) => expected == seq![turn.deep_view()],
            (Ok(None), Ok(expected)) => expected.len() == 0,
            (Err(message), Err(expected)) => message@ == expected,
            _ => false,
        },
{
    match message.role {
        MessageRole::System => Ok(None),
        MessageRole::Tool => match &message.tool_call_id {
            None => Err("tool message is missing tool_call_id for Anthropic payload".to_owned()),
            Some(id) => {
                let text = match &message.content {
                    Some(text) => text.clone(),
                    None => String::new(),
                };
                let mut content: Vec<AnthropicRequestContentBlock> = Vec::new();
                content.push(
                    AnthropicRequestContentBlock::ToolResult {
                        tool_use_id: id.clone(),
                        content: text,
                    },
                );
                let turn = AnthropicMessageRequest { role: "user".to_owned(), content };
                proof {
                    assert(turn.deep_view().content =~= turn_of(
                        message.deep_view(),
                    )->Ok_0[0].content);
                }
                Ok(Some(turn))
            },
        },
        _ => {
            let content = blocks(message);
            if content.len() == 0 {
                return Err(
                    concat3(
                        "cannot convert ",
                        role_text(message.role),
                        " message with empty content and no tool calls to Anthropic payload",
                    ),
                );
            }
            Ok(
                Some(
                    AnthropicMessageRequest {
                        role: message_role_to_anthropic_role(&message.role).to_owned(),
                        content,
                    },
                ),
            )
        },
    }
}

proof fn lemma_turns_stop(messages: Seq<MessageModel>, upto: int)
    requires
        0 <= upto <= messages.len(),
        turns_of(messages.take(upto)) is Err,
    ensures
        turns_of(messages) == turns_of(messages.take(upto)),
    decreases messages.len() - upto,
{
    if upto == messages.len() {
        assert(messages.take(upto) =~= messages);
    } else {
        assert(messages.take(upto + 1).drop_last() =~= messages.take(upto));
        lemma_turns_stop(messages, upto + 1);
    }
}

impl AnthropicRequestToolDefinition {
    pub fn from(tool: &FunctionDecl) -> (r: Self)
        ensures
            r.deep_view() == tool_of(tool.deep_view()),
    {
        AnthropicRequestToolDefinition {
            name: tool.name.clone(),
            description: tool.description.clone(),
            input_schema: tool.parameters.to_json(),
        }
    }
}

impl AnthropicMessagesRequest {
    pub fn from_context(context: &Context, max_tokens: u32) -> (r: Result<Self, ProviderError>)
        ensures
            match (r, anthropic_request(context.deep_view(), max_tokens, false)) {
                (Ok(request), Ok(expected)) => request.deep_view() == expected,
                (Err(error), Err(message)) => error.deep_view() == (
                ProviderErrorModel::RequestFailed {
                    provider: context.deep_view().provider,
                    message,
                }),
                _ => false,
            },
    {
        Self::from_context_with_stream(context, max_tokens, false)
    }

    /// The request that a conversation becomes. What the system says stands apart from
    /// the turns, of which there has to be one.
    pub fn from_context_with_stream(context: &Context, max_tokens: u32, stream: bool) -> (r: Result<
        Self,
        ProviderError,
    >)
        ensures
            match (r, anthropic_request(context.deep_view(), max_tokens, stream)) {
                (Ok(request), Ok(expected)) => request.deep_view() == expected,
                (Err(error), Err(message)) => error.deep_view() == (
                ProviderErrorModel::RequestFailed {
                    provider: context.deep_view().provider,
                    message,
                }),
                _ => false,
            },
    {
        let ghost models = context.messages.deep_view();
        let mut chunks: Vec<String> = Vec::new();
        let mut messages: Vec<AnthropicMessageRequest> = Vec::new();
        let mut i: usize = 0;
        proof {
            assert(models.take(0) =~= Seq::empty());
            assert(chunks.deep_view() =~= Seq::empty());
            assert(messages.deep_view() =~= Seq::empty());
        }
        while i < context.messages.len()
            invariant
                i <= context.messages.len(),
                models == context.messages.deep_view(),
                chunks.deep_view() == system_chunks(models.take(i as int)),
                turns_of(models.take(i as int)) == Ok::<Seq<TurnModel>, Seq<char>>(
                    messages.deep_view(),
                ),
            decreases context.messages.len() - i,
        {
            let message = &context.messages[i];
            let ghost said = chunks.deep_view();
            let ghost before = messages.deep_view();
            proof {
                assert(models.take(i as int + 1).drop_last() =~= models.take(i as int));
                assert(models.take(i as int + 1).last() == message.deep_view());
            }
            if message.role == MessageRole::System {
                if let Some(text) = &message.content {
                    if let Some(inner) = non_empty(text.clone()) {
                        chunks.push(inner);
                        proof {
                            assert(chunks.deep_view() =~= said.push(inner@));
                        }
                    }
                }
            }
            match turn(message) {
                Ok(Some(turn)) => {
                    messages.push(turn);
                    proof {
                        assert(messages.deep_view() =~= before + seq![turn.deep_view()]);
                    }
                },
                Ok(None) => {
                    proof {
                        assert(before + turn_of(message.deep_view())->Ok_0 =~= before);
                    }
                },
                Err(error) => {
                    proof {
                        lemma_turns_stop(models, i as int + 1);
                    }
                    return Err(request_failed(&context.provider, error));
                },
            }
            i += 1;
        }
        proof {
            assert(models.take(i as int) =~= models);
        }
        let mut tools: Vec<AnthropicRequestToolDefinition> = Vec::new();
        let mut k: usize = 0;
        while k < context.tools.len()
            invariant
                k <= context.tools.len(),
                tools.len() == k,
                forall|j: int|
                    0 <= j < k ==> (#[trigger] tools@[j]).deep_view() == tool_of(
                        context.tools@[j].deep_view(),
                    ),
            decreases context.tools.len() - k,
        {
            tools.push(AnthropicRequestToolDefinition::from(&context.tools[k]));
            k += 1;
        }
        if messages.len() == 0 {
            return Err(
                request_failed(
                    &context.provider,
                    "Anthropic request requires at least one non-system message".to_owned(),
                ),
            );
        }
        proof {
            assert(tools.deep_view() =~= context.deep_view().tools.map_values(
                |tool: FunctionDeclModel| tool_of(tool),
            ));
        }
        let tool_choice = if tools.len() == 0 {
            None
        } else {
            Some(AnthropicToolChoice::auto())
        };
        let system = if chunks.len() == 0 {
            None
        } else {
            Some(join(&chunks, "\n\n"))
        };
        Ok(
            AnthropicMessagesRequest {
                model: context.model.0.clone(),
                max_tokens: if max_tokens < 1 {
                    1
                } else {
                    max_tokens
                },
                system,
                messages,
                tools,
                tool_choice,
                stream,
            },
        )
    }
}

#[derive(Debug, PartialEq)]
pub struct AnthropicResponseContentBlock {
    pub kind: String,
    pub text: Option<String>,
    pub id: Option<String>,
    pub name: Option<String>,
    pub input: Option<Json>,
}

#[derive(Debug, Clone, Copy, PartialEq, Eq)]
pub struct AnthropicUsage {
    pub input_tokens: Option<u64>,
    pub output_tokens: Option<u64>,
}

#[derive(Debug, PartialEq)]
pub struct AnthropicMessagesResponse {
    pub role: String,
    pub content: Vec<AnthropicResponseContentBlock>,
    pub stop_reason: Option<String>,
    pub usage: Option<AnthropicUsage>,
}

pub struct AnswerBlock {
    pub kind: Seq<char>,
    pub text: Option<Seq<char>>,
    pub id: Option<Seq<char>>,
    pub name: Option<Seq<char>>,
    pub input: Option<JsonTree>,
}

impl DeepView for AnthropicResponseContentBlock {
    type V = AnswerBlock;

    open spec fn deep_view(&self) -> AnswerBlock {
        AnswerBlock {
            kind: self.kind@,
            text: self.text.deep_view(),
            id: self.id.deep_view(),
            name: self.name.deep_view(),
            input: self.input.deep_view(),
        }
    }
}

/// What the blocks of an answer amount to.
pub struct Gathered {
    pub texts: Seq<Seq<char>>,
    pub calls: Seq<ToolCallModel>,
}

/// What one block adds, or what is missing in it. Blocks of other kinds than text and
/// tool use add nothing.
pub open spec fn gather_block(so_far: Gathered, block: AnswerBlock) -> Result<
    Gathered,
    Seq<char>,
> {
    if block.kind == "text"@ {
        if block.text is Some && endpoint::non_empty_text(block.text->0) is Some {
            Ok(Gathered { texts: so_far.texts.push(endpoint::non_empty_text(block.text->0)->0), ..so_far })
        } else {
            Ok(so_far)
        }
    } else if block.kind == "tool_use"@ {
        match (block.id, block.name, block.input) {
            (None, _, _) => Err("Anthropic tool_use block missing id"@),
            (Some(id), None, _) => Err("Anthropic tool_use block `"@ + id + "` missing name"@),
            (Some(id), Some(_), None) => Err(
                "Anthropic tool_use block `"@ + id + "` missing input"@,
            ),
            (Some(id), Some(name), Some(input)) => Ok(
                Gathered {
                    calls: so_far.calls.push(
                        ToolCallModel { id, name, arguments: input, metadata: None },
                    ),
                    ..so_far
                },
            ),
        }
    } else {
        Ok(so_far)
    }
}

/// What the blocks of an answer amount to, or what is missing in the first bad one.
pub open spec fn gather(blocks: Seq<AnswerBlock>) -> Result<Gathered, Seq<char>>
    decreases blocks.len(),
{
    if blocks.len() == 0 {
        Ok(Gathered { texts: Seq::empty(), calls: Seq::empty() })
    } else {
        match gather(blocks.drop_last()) {
            Err(message) => Err(message),
            Ok(so_far) => gather_block(so_far, blocks.last()),
        }
    }
}

/// The sum of two token counts, as far as it can be told.
pub open spec fn token_sum(one: Option<u64>, other: Option<u64>) -> Option<u64> {
    match (one, other) {
        (Some(a), Some(b)) => Some(
            if a + b > u64::MAX {
                u64::MAX
            } else {
                (a + b) as u64
            },
        ),
        _ => None,
    }
}

fn sum_tokens(one: Option<u64>, other: Option<u64>) -> (r: Option<u64>)
    ensures
        r == token_sum(one, other),
{
    match (one, other) {
        (Some(a), Some(b)) => Some(a.saturating_add(b)),
        _ => None,
    }
}

/// The answer that a response means.
pub open spec fn anthropic_answer(
    role: Seq<char>,
    blocks: Seq<AnswerBlock>,
    stop_reason: Option<Seq<char>>,
    usage: Option<AnthropicUsage>,
) -> Result<ResponseModel, Seq<char>> {
    match role_of_answer(role) {
        None => Err("unsupported Anthropic role `"@ + role + "`"@),
        Some(found) => match gather(blocks) {
            Err(message) => Err(message),
            Ok(gathered) => Ok(
                ResponseModel {
                    message: MessageModel {
                        role: found,
                        content: if gathered.texts.len() == 0 {
                            None
                        } else {
                            Some(text::joined(gathered.texts, "\n"@))
                        },
                        tool_calls: gathered.calls,
                        tool_call_id: None,
                        attachments: Seq::empty(),
                    },
                    tool_calls: gathered.calls,
                    finish_reason: stop_reason,
                    usage: match usage {
                        Some(usage) => Some(
                            UsageUpdate {
                                prompt_tokens: usage.input_tokens,
                                completion_tokens: usage.output_tokens,
                                total_tokens: token_sum(usage.input_tokens, usage.output_tokens),
                            },
                        ),
                        None => None,
                    },
                },
            ),
        },
    }
}

proof fn lemma_gather_stops(blocks: Seq<AnswerBlock>, upto: int)
    requires
        0 <= upto <= blocks.len(),
        gather(blocks.take(upto)) is Err,
    ensures
        gather(blocks) == gather(blocks.take(upto)),
    decreases blocks.len() - upto,
{
    if upto == blocks.len() {
        assert(blocks.take(upto) =~= blocks);
    } else {
        assert(blocks.take(upto + 1).drop_last() =~= blocks.take(upto));
        lemma_gather_stops(blocks, upto + 1);
    }
}

/// The tool call that a block of that kind means, or what is missing in it.
fn tool_use(block: &AnthropicResponseContentBlock) -> (r: Result<ToolCall, String>)
    requires
        block.kind@ == "tool_use"@,
    ensures
        forall|so_far: Gathered|
            match (r, #[trigger] gather_block(so_far, block.deep_view())) {
                (Ok(call), Ok(gathered)) => gathered == (Gathered {
                    calls: so_far.calls.push(call.deep_view()),
                    ..so_far
                }),
                (Err(message), Err(expected)) => message@ == expected,
                _ => false,
            },
{
    proof {
        reveal_strlit("text");
        reveal_strlit("tool_use");
        assert("text"@.len() != "tool_use"@.len());
    }
    let id = match &block.id {
        Some(id) => id.clone(),
        None => {
            return Err("Anthropic tool_use block missing id".to_owned());
        },
    };
    let name = match &block.name {
        Some(name) => name.clone(),
        None => {
            return Err(concat3("Anthropic tool_use block `", id.as_str(), "` missing name"));
        },
    };
    let arguments = match &block.input {
        Some(input) => input.clone(),
        None => {
            return Err(concat3("Anthropic tool_use block `", id.as_str(), "` missing input"));
        },
    };
    Ok(ToolCall { id, name, arguments, metadata: None })
}

/// The answer that a response means.
pub fn normalize_anthropic_response(
    response: AnthropicMessagesResponse,
    provider: &ProviderId,
) -> (r: Result<Response, ProviderError>)
    ensures
        match (
            r,
            anthropic_answer(
                response.role@,
                response.content.deep_view(),
                response.stop_reason.deep_view(),
                response.usage,
            ),
        ) {
            (Ok(answer), Ok(expected)) => answer.deep_view() == expected,
            (Err(error), Err(message)) => error.deep_view() == (
            ProviderErrorModel::ResponseParse { provider: provider.deep_view(), message }),
            _ => false,
        },
{
    let role = match anthropic_role_to_message_role(response.role.as_str()) {
        Some(role) => role,
        None => {
            return Err(
                response_parse(
                    provider,
                    concat3("unsupported Anthropic role `", response.role.as_str(), "`"),
                ),
            );
        },
    };
    let ghost models = response.content.deep_view();
    let mut texts: Vec<String> = Vec::new();
    let mut calls: Vec<ToolCall> = Vec::new();
    let mut i: usize = 0;
    proof {
        assert(models.take(0) =~= Seq::empty());
        assert(texts.deep_view() =~= Seq::empty());
        assert(calls.deep_view() =~= Seq::empty());
    }
    while i < response.content.len()
        invariant
            i <= response.content.len(),
            models == response.content.deep_view(),
            role_of_answer(response.role@) is Some,
            gather(models.take(i as int)) == Ok::<Gathered, Seq<char>>(
                Gathered { texts: texts.deep_view(), calls: calls.deep_view() },
            ),
        decreases response.content.len() - i,
    {
        let block = &response.content[i];
        let ghost so_far = Gathered { texts: texts.deep_view(), calls: calls.deep_view() };
        proof {
            assert(models.take(i as int + 1).drop_last() =~= models.take(i as int));
            assert(models.take(i as int + 1).last() == block.deep_view());
        }
        if same_text(block.kind.as_str(), "text") {
            if let Some(text) = &block.text {
                if let Some(inner) = non_empty(text.clone()) {
                    texts.push(inner);
                    proof {
                        assert(texts.deep_view() =~= so_far.texts.push(inner@));
                    }
                }
            }
        } else if same_text(block.kind.as_str(), "tool_use") {
            let ghost step = gather_block(so_far, block.deep_view());
            match tool_use(block) {
                Ok(call) => {
                    calls.push(call);
                    proof {
                        assert(calls.deep_view() =~= so_far.calls.push(call.deep_view()));
                    }
                },
                Err(message) => {
                    proof {
                        lemma_gather_stops(models, i as int + 1);
                    }
                    return Err(response_parse(provider, message));
                },
            }
        }
        i += 1;
    }
    proof {
        assert(models.take(i as int) =~= models);
    }
    let usage = match response.usage {
        Some(usage) => Some(
            UsageUpdate {
                prompt_tokens: usage.input_tokens,
                completion_tokens: usage.output_tokens,
                total_tokens: sum_tokens(usage.input_tokens, usage.output_tokens),
            },
        ),
        None => None,
    };
    let content = if texts.len() == 0 {
        None
    } else {
        Some(join(&texts, "\n"))
    };
    let tool_calls = clone_tool_calls(&calls);
    let message = Message {
        role,
        content,
        tool_calls: calls,
        tool_call_id: None,
        attachments: Vec::new(),
    };
    proof {
        assert(message.deep_view().attachments =~= Seq::empty());
    }
    Ok(Response { message, tool_calls, finish_reason: response.stop_reason, usage })
}

/// What is known of one tool call so far.
#[derive(Debug)]
pub struct AnthropicToolCallEntry {
    pub id: Option<String>,
    pub name: Option<String>,
    pub arguments: String,
}

pub struct CallSoFar {
    pub id: Option<Seq<char>>,
    pub name: Option<Seq<char>>,
    pub arguments: Seq<char>,
}

impl DeepView for AnthropicToolCallEntry {
    type V = CallSoFar;

    open spec fn deep_view(&self) -> CallSoFar {
        CallSoFar {
            id: self.id.deep_view(),
            name: self.name.deep_view(),
            arguments: self.arguments@,
        }
    }
}

/// Puts tool calls together whose arguments come in pieces. Anthropic numbers the
/// blocks of an answer through, whatever they hold; here each block that calls a tool
/// gets the next ordinal among those.
#[derive(Debug)]
pub struct AnthropicToolCallAccumulator {
    pub by_block_index: HashMap<usize, AnthropicToolCallEntry>,
    pub block_to_ordinal: HashMap<usize, usize>,
    pub next_ordinal: usize,
}

/// The model of an [`AnthropicToolCallAccumulator`].
pub struct CallsModel {
    pub calls: Map<usize, CallSoFar>,
    pub ordinals: Map<usize, usize>,
    pub next: usize,
}

impl Default for AnthropicToolCallAccumulator {
    fn default() -> (r: Self)
        ensures
            r.model() == no_calls(),
    {
        let r = AnthropicToolCallAccumulator {
            by_block_index: HashMap::new(),
            block_to_ordinal: HashMap::new(),
            next_ordinal: 0,
        };
        proof {
            assert(r.model().calls =~= Map::empty());
            assert(r.model().ordinals =~= Map::empty());
        }
        r
    }
}

pub open spec fn no_calls() -> CallsModel {
    CallsModel { calls: Map::empty(), ordinals: Map::empty(), next: 0 }
}

/// The accumulator once a block that calls a tool has started: it has the next
/// ordinal, and no arguments yet.
pub open spec fn started(
    calls: CallsModel,
    block: usize,
    id: Option<Seq<char>>,
    name: Option<Seq<char>>,
) -> CallsModel {
    CallsModel {
        calls: calls.calls.insert(block, CallSoFar { id, name, arguments: Seq::empty() }),
        ordinals: calls.ordinals.insert(block, calls.next),
        next: (calls.next + 1) as usize,
    }
}

/// The accumulator once arguments have come for a block. A block that never started
/// gets the next ordinal now.
pub open spec fn appended(calls: CallsModel, block: usize, json: Seq<char>) -> CallsModel {
    let known = if calls.calls.dom().contains(block) {
        calls.calls[block]
    } else {
        CallSoFar { id: None, name: None, arguments: Seq::empty() }
    };
    CallsModel {
        calls: calls.calls.insert(
            block,
            CallSoFar { arguments: known.arguments + json, ..known },
        ),
        ordinals: if calls.ordinals.dom().contains(block) {
            calls.ordinals
        } else {
            calls.ordinals.insert(block, calls.next)
        },
        next: if calls.ordinals.dom().contains(block) {
            calls.next
        } else {
            (calls.next + 1) as usize
        },
    }
}

/// What is handed out for a piece of arguments: the piece itself, unless it is empty.
pub open spec fn appended_delta(
    calls: CallsModel,
    block: usize,
    json: Seq<char>,
) -> ToolCallDeltaModel {
    let after = appended(calls, block, json);
    ToolCallDeltaModel {
        index: after.ordinals[block],
        id: after.calls[block].id,
        name: after.calls[block].name,
        arguments: if json.len() == 0 {
            None
        } else {
            Some(json)
        },
        metadata: None,
    }
}

impl AnthropicToolCallAccumulator {
    pub open spec fn model(self) -> CallsModel {
        CallsModel {
            calls: self.by_block_index@.map_values(
                |entry: AnthropicToolCallEntry| entry.deep_view(),
            ),
            ordinals: self.block_to_ordinal@,
            next: self.next_ordinal,
        }
    }

    /// A block that calls a tool has started.
    pub fn start_tool(
        &mut self,
        block_index: usize,
        id: Option<String>,
        name: Option<String>,
    ) -> (r: ToolCallDelta)
        requires
            old(self).next_ordinal < usize::MAX,
        ensures
            final(self).model() == started(
                old(self).model(),
                block_index,
                id.deep_view(),
                name.deep_view(),
            ),
            r.deep_view() == (ToolCallDeltaModel {
                index: old(self).model().next,
                id: id.deep_view(),
                name: name.deep_view(),
                arguments: None,
                metadata: None,
            }),
    {
        let ordinal: usize = self.next_ordinal;
        self.next_ordinal = self.next_ordinal + 1;
        self.block_to_ordinal.insert(block_index, ordinal);
        self.by_block_index.insert(
            block_index,
            AnthropicToolCallEntry {
                id: id.clone(),
                name: name.clone(),
                arguments: String::new(),
            },
        );
        proof {
            let expected = started(
                old(self).model(),
                block_index,
                id.deep_view(),
                name.deep_view(),
            );
            assert(self.model().calls =~= expected.calls);
            assert(self.model().ordinals =~= expected.ordinals);
        }
        ToolCallDelta { index: ordinal, id, name, arguments: None, metadata: None }
    }

    /// Arguments have come for a block.
    pub fn append_json(&mut self, block_index: usize, partial_json: &str) -> (r: ToolCallDelta)
        requires
            old(self).next_ordinal < usize::MAX || old(self).block_to_ordinal@.dom().contains(
                block_index,
            ),
        ensures
            final(self).model() == appended(old(self).model(), block_index, partial_json@),
            r.deep_view() == appended_delta(old(self).model(), block_index, partial_json@),
    {
        let ghost before = self.model();
        let known = self.block_to_ordinal.get(&block_index);
        let ordinal: usize = match known {
            Some(ordinal) => *ordinal,
            None => {
                let next: usize = self.next_ordinal;
                self.next_ordinal = self.next_ordinal + 1;
                self.block_to_ordinal.insert(block_index, next);
                next
            },
        };
        let mut entry = match self.by_block_index.remove(&block_index) {
            Some(entry) => entry,
            None => AnthropicToolCallEntry { id: None, name: None, arguments: String::new() },
        };
        entry.arguments.append(partial_json);
        let delta = ToolCallDelta {
            index: ordinal,
            id: entry.id.clone(),
            name: entry.name.clone(),
            arguments: if partial_json.is_empty() {
                None
            } else {
                Some(partial_json.to_owned())
            },
            metadata: None,
        };
        self.by_block_index.insert(block_index, entry);
        proof {
            let expected = appended(before, block_index, partial_json@);
            assert(self.model().calls =~= expected.calls);
            assert(self.model().ordinals =~= expected.ordinals);
        }
        delta
    }
}

/// Every block with an ordinal has one below the next, and no two have the same.
pub open spec fn ordinals_are_distinct(calls: CallsModel) -> bool {
    &&& forall|block: usize|
        calls.ordinals.dom().contains(block) ==> #[trigger] calls.ordinals[block] < calls.next
    &&& forall|one: usize, other: usize|
        #![trigger calls.ordinals[one], calls.ordinals[other]]
        calls.ordinals.dom().contains(one) && calls.ordinals.dom().contains(other) && one != other
            ==> calls.ordinals[one] != calls.ordinals[other]
}

/// Whatever happens to an accumulator, its ordinals stay distinct, and arguments for
/// a block that has an ordinal leave all ordinals as they are.
pub proof fn law_ordinals_stay_distinct(
    calls: CallsModel,
    block: usize,
    id: Option<Seq<char>>,
    name: Option<Seq<char>>,
    json: Seq<char>,
)
    requires
        ordinals_are_distinct(calls),
        calls.next < usize::MAX,
    ensures
        ordinals_are_distinct(no_calls()),
        ordinals_are_distinct(started(calls, block, id, name)),
        ordinals_are_distinct(appended(calls, block, json)),
        calls.ordinals.dom().contains(block) ==> appended(calls, block, json).ordinals
            == calls.ordinals && appended_delta(calls, block, json).index
            == calls.ordinals[block],
{
}

/// The blocks started one after the other.
pub open spec fn after_starts(blocks: Seq<usize>) -> CallsModel
    decreases blocks.len(),
{
    if blocks.len() == 0 {
        no_calls()
    } else {
        started(after_starts(blocks.drop_last()), blocks.last(), None, None)
    }
}

/// However the blocks of an answer are numbered, those that call tools get the
/// ordinals zero, one, two and so on, in the order in which they start.
pub proof fn law_ordinals_count_tool_blocks(blocks: Seq<usize>, i: int)
    requires
        blocks.no_duplicates(),
        blocks.len() < usize::MAX,
        0 <= i < blocks.len(),
    ensures
        after_starts(blocks).next == blocks.len(),
        after_starts(blocks).ordinals.dom().contains(blocks[i]),
        after_starts(blocks).ordinals[blocks[i]] == i,
    decreases blocks.len(),
{
    let before = blocks.drop_last();
    lemma_next_counts_starts(before);
    if i < blocks.len() - 1 {
        assert(before.no_duplicates());
        law_ordinals_count_tool_blocks(before, i);
        assert(before[i] == blocks[i]);
        assert(blocks[i] != blocks.last());
    }
}

proof fn lemma_next_counts_starts(blocks: Seq<usize>)
    requires
        blocks.len() < usize::MAX,
    ensures
        after_starts(blocks).next == blocks.len(),
    decreases blocks.len(),
{
    if blocks.len() > 0 {
        lemma_next_counts_starts(blocks.drop_last());
    }
}

#[derive(Debug, PartialEq, Eq)]
pub struct AnthropicMessageStartPayload {
    pub usage: Option<AnthropicUsage>,
}

#[derive(Debug, PartialEq, Eq)]
pub struct AnthropicMessageStartEvent {
    pub message: AnthropicMessageStartPayload,
}

#[derive(Debug, PartialEq, Eq)]
pub struct AnthropicContentBlockStartPayload {
    pub kind: String,
    pub id: Option<String>,
    pub name: Option<String>,
}

#[derive(Debug, PartialEq, Eq)]
pub struct AnthropicContentBlockStartEvent {
    pub index: usize,
    pub content_block: AnthropicContentBlockStartPayload,
}

#[derive(Debug, PartialEq, Eq)]
pub struct AnthropicDelta {
    pub kind: String,
    pub text: Option<String>,
    pub partial_json: Option<String>,
    pub thinking: Option<String>,
}

#[derive(Debug, PartialEq, Eq)]
pub struct AnthropicContentBlockDeltaEvent {
    pub index: usize,
    pub delta: AnthropicDelta,
}

#[derive(Debug, PartialEq, Eq)]
pub struct AnthropicMessageDeltaPayload {
    pub stop_reason: Option<String>,
}

#[derive(Debug, Clone, Copy, PartialEq, Eq)]
pub struct AnthropicDeltaUsage {
    pub output_tokens: Option<u64>,
}

#[derive(Debug, PartialEq, Eq)]
pub struct AnthropicMessageDeltaEvent {
    pub delta: AnthropicMessageDeltaPayload,
    pub usage: Option<AnthropicDeltaUsage>,
}

#[derive(Debug, PartialEq, Eq)]
pub struct AnthropicStreamErrorPayload {
    pub message: Option<String>,
}

#[derive(Debug, PartialEq, Eq)]
pub struct AnthropicStreamErrorEvent {
    pub error: AnthropicStreamErrorPayload,
}

/// What an event is about.
#[derive(Debug, Clone, Copy, PartialEq, Eq, Structural)]
pub enum AnthropicEventKind {
    Ignored,
    MessageStop,
    MessageStart,
    ContentBlockStart,
    ContentBlockDelta,
    MessageDelta,
    Error,
}

/// What an event of that type is about. Unknown types are ignored.
pub open spec fn event_kind(kind: Seq<char>) -> AnthropicEventKind {
    if kind == "message_stop"@ {
        AnthropicEventKind::MessageStop
    } else if kind == "message_start"@ {
        AnthropicEventKind::MessageStart
    } else if kind == "content_block_start"@ {
        AnthropicEventKind::ContentBlockStart
    } else if kind == "content_block_delta"@ {
        AnthropicEventKind::ContentBlockDelta
    } else if kind == "message_delta"@ {
        AnthropicEventKind::MessageDelta
    } else if kind == "error"@ {
        AnthropicEventKind::Error
    } else {
        AnthropicEventKind::Ignored
    }
}

/// What an event of that type is about.
pub fn anthropic_event_kind(kind: &str) -> (r: AnthropicEventKind)
    ensures
        r == event_kind(kind@),
{
    if same_text(kind, "message_stop") {
        AnthropicEventKind::MessageStop
    } else if same_text(kind, "message_start") {
        AnthropicEventKind::MessageStart
    } else if same_text(kind, "content_block_start") {
        AnthropicEventKind::ContentBlockStart
    } else if same_text(kind, "content_block_delta") {
        AnthropicEventKind::ContentBlockDelta
    } else if same_text(kind, "message_delta") {
        AnthropicEventKind::MessageDelta
    } else if same_text(kind, "error") {
        AnthropicEventKind::Error
    } else {
        AnthropicEventKind::Ignored
    }
}

/// What to do with the text of one event: an empty one is passed over, any other is
/// parsed without the white space around it.
pub fn anthropic_stream_payload(payload: &str) -> (r: StreamPayload)
    ensures
        match r {
            StreamPayload::Empty => text::trimmed(payload@).len() == 0,
            StreamPayload::Done => false,
            StreamPayload::Parse(text) => text::trimmed(payload@).len() > 0 && text@ == text::trimmed(payload@),
        },
{
    let inner = trim(payload);
    if inner.as_str().is_empty() {
        StreamPayload::Empty
    } else {
        StreamPayload::Parse(inner)
    }
}

/// What an event asks the stream to do.
#[derive(Debug, PartialEq)]
pub enum AnthropicEventAction {
    /// Hand these items out.
    Items(Vec<StreamItem>),
    /// The answer is complete.
    Done,
    /// The stream ends with this error.
    Error(ProviderError),
}

pub enum ActionModel {
    Items(Seq<StreamItemModel>),
    Done,
    Error(ProviderErrorModel),
}

impl DeepView for AnthropicEventAction {
    type V = ActionModel;

    open spec fn deep_view(&self) -> ActionModel {
        match *self {
            AnthropicEventAction::Items(items) => ActionModel::Items(items.deep_view()),
            AnthropicEventAction::Done => ActionModel::Done,
            AnthropicEventAction::Error(error) => ActionModel::Error(error.deep_view()),
        }
    }
}

/// What stopped an event from being parsed.
#[derive(Debug, PartialEq, Eq)]
pub struct InvalidEvent {
    /// What the event is about, where its type could be read.
    pub kind: Option<AnthropicEventKind>,
    pub error: String,
}

/// The text of one event of a stream, once it has been parsed.
#[derive(Debug, PartialEq, Eq)]
pub enum AnthropicPayload {
    Empty,
    Ignored,
    MessageStop,
    MessageStart(AnthropicMessageStartEvent),
    ContentBlockStart(AnthropicContentBlockStartEvent),
    ContentBlockDelta(AnthropicContentBlockDeltaEvent),
    MessageDelta(AnthropicMessageDeltaEvent),
    Error(AnthropicStreamErrorEvent),
    Invalid(InvalidEvent),
}

pub enum PayloadModel {
    Nothing,
    MessageStop,
    MessageStart { input_tokens: Option<u64> },
    BlockStart { index: usize, kind: Seq<char>, id: Option<Seq<char>>, name: Option<Seq<char>> },
    BlockDelta {
        index: usize,
        kind: Seq<char>,
        text: Option<Seq<char>>,
        partial_json: Option<Seq<char>>,
        thinking: Option<Seq<char>>,
    },
    MessageDelta { stop_reason: Option<Seq<char>>, usage: Option<AnthropicDeltaUsage> },
    Error { message: Option<Seq<char>> },
    Invalid { about: Option<AnthropicEventKind>, error: Seq<char> },
}

impl DeepView for AnthropicPayload {
    type V = PayloadModel;

    open spec fn deep_view(&self) -> PayloadModel {
        match *self {
            AnthropicPayload::Empty => PayloadModel::Nothing,
            AnthropicPayload::Ignored => PayloadModel::Nothing,
            AnthropicPayload::MessageStop => PayloadModel::MessageStop,
            AnthropicPayload::MessageStart(event) => PayloadModel::MessageStart {
                input_tokens: match event.message.usage {
                    Some(usage) => usage.input_tokens,
                    None => None,
                },
            },
            AnthropicPayload::ContentBlockStart(event) => PayloadModel::BlockStart {
                index: event.index,
                kind: event.content_block.kind@,
                id: event.content_block.id.deep_view(),
                name: event.content_block.name.deep_view(),
            },
            AnthropicPayload::ContentBlockDelta(event) => PayloadModel::BlockDelta {
                index: event.index,
                kind: event.delta.kind@,
                text: event.delta.text.deep_view(),
                partial_json: event.delta.partial_json.deep_view(),
                thinking: event.delta.thinking.deep_view(),
            },
            AnthropicPayload::MessageDelta(event) => PayloadModel::MessageDelta {
                stop_reason: event.delta.stop_reason.deep_view(),
                usage: event.usage,
            },
            AnthropicPayload::Error(event) => PayloadModel::Error {
                message: event.error.message.deep_view(),
            },
            AnthropicPayload::Invalid(invalid) => PayloadModel::Invalid {
                about: invalid.kind,
                error: invalid.error@,
            },
        }
    }
}

/// What a stream remembers from one event to the next.
pub struct StreamState {
    pub calls: CallsModel,
    pub input_tokens: Option<u64>,
}

pub struct StreamStep {
    pub state: StreamState,
    pub action: ActionModel,
}

pub open spec fn one_or_none(item: Option<StreamItemModel>) -> Seq<StreamItemModel> {
    match item {
        Some(item) => seq![item],
        None => Seq::empty(),
    }
}

/// A text that is there and not empty.
pub open spec fn some_text(text: Option<Seq<char>>) -> Option<Seq<char>> {
    match text {
        Some(text) => if text.len() > 0 {
            Some(text)
        } else {
            None
        },
        None => None,
    }
}

pub open spec fn invalid_message(kind: Option<AnthropicEventKind>, error: Seq<char>) -> Seq<char> {
    (match kind {
        Some(AnthropicEventKind::MessageStart) => {
            "failed to parse Anthropic message_start event: "@
        },
        Some(AnthropicEventKind::ContentBlockStart) => {
            "failed to parse Anthropic content_block_start event: "@
        },
        Some(AnthropicEventKind::ContentBlockDelta) => {
            "failed to parse Anthropic content_block_delta event: "@
        },
        Some(AnthropicEventKind::MessageDelta) => {
            "failed to parse Anthropic message_delta event: "@
        },
        Some(AnthropicEventKind::Error) => "failed to parse Anthropic error event: "@,
        _ => "failed to parse Anthropic stream event envelope: "@,
    }) + error
}

/// What the end of an answer hands out: why it ended, and the token counts, in which
/// the count of the start is added to that of the end.
pub open spec fn message_delta_items(
    stop_reason: Option<Seq<char>>,
    usage: Option<AnthropicDeltaUsage>,
    input_tokens: Option<u64>,
) -> Seq<StreamItemModel> {
    (match some_text(stop_reason) {
        Some(reason) => seq![StreamItemModel::FinishReason(reason)],
        None => Seq::empty(),
    }) + (match usage {
        Some(usage) => seq![
            StreamItemModel::UsageUpdate(
                UsageUpdate {
                    prompt_tokens: input_tokens,
                    completion_tokens: usage.output_tokens,
                    total_tokens: token_sum(input_tokens, usage.output_tokens),
                },
            ),
        ],
        None => Seq::empty(),
    })
}

/// What one event does.
pub open spec fn event_step(
    state: StreamState,
    payload: PayloadModel,
    provider: Seq<char>,
) -> StreamStep {
    match payload {
        PayloadModel::Nothing => StreamStep { state, action: ActionModel::Items(Seq::empty()) },
        PayloadModel::MessageStop => StreamStep { state, action: ActionModel::Done },
        PayloadModel::MessageStart { input_tokens } => if input_tokens is Some {
            StreamStep {
                state: StreamState { input_tokens, ..state },
                action: ActionModel::Items(
                    seq![
                        StreamItemModel::UsageUpdate(
                            UsageUpdate {
                                prompt_tokens: input_tokens,
                                completion_tokens: None,
                                total_tokens: None,
                            },
                        ),
                    ],
                ),
            }
        } else {
            StreamStep { state, action: ActionModel::Items(Seq::empty()) }
        },
        PayloadModel::BlockStart { index, kind, id, name } => if kind == "tool_use"@ {
            StreamStep {
                state: StreamState { calls: started(state.calls, index, id, name), ..state },
                action: ActionModel::Items(
                    seq![
                        StreamItemModel::ToolCallDelta(
                            ToolCallDeltaModel {
                                index: state.calls.next,
                                id,
                                name,
                                arguments: None,
                                metadata: None,
                            },
                        ),
                    ],
                ),
            }
        } else {
            StreamStep { state, action: ActionModel::Items(Seq::empty()) }
        },
        PayloadModel::BlockDelta { index, kind, text, partial_json, thinking } => {
            if kind == "text_delta"@ {
                StreamStep {
                    state,
                    action: ActionModel::Items(
                        match some_text(text) {
                            Some(text) => seq![StreamItemModel::Text(text)],
                            None => Seq::empty(),
                        },
                    ),
                }
            } else if kind == "input_json_delta"@ {
                match partial_json {
                    Some(json) => StreamStep {
                        state: StreamState { calls: appended(state.calls, index, json), ..state },
                        action: ActionModel::Items(
                            seq![
                                StreamItemModel::ToolCallDelta(
                                    appended_delta(state.calls, index, json),
                                ),
                            ],
                        ),
                    },
                    None => StreamStep { state, action: ActionModel::Items(Seq::empty()) },
                }
            } else if kind == "thinking_delta"@ {
                StreamStep {
                    state,
                    action: ActionModel::Items(
                        match some_text(thinking) {
                            Some(text) => seq![StreamItemModel::ReasoningDelta(text)],
                            None => Seq::empty(),
                        },
                    ),
                }
            } else {
                StreamStep { state, action: ActionModel::Items(Seq::empty()) }
            }
        },
        PayloadModel::MessageDelta { stop_reason, usage } => StreamStep {
            state,
            action: ActionModel::Items(
                message_delta_items(stop_reason, usage, state.input_tokens),
            ),
        },
        PayloadModel::Error { message } => StreamStep {
            state,
            action: ActionModel::Error(
                ProviderErrorModel::ResponseParse {
                    provider,
                    message: match message {
                        Some(text) => text,
                        None => "unknown streaming error from Anthropic"@,
                    },
                },
            ),
        },
        PayloadModel::Invalid { about, error } => StreamStep {
            state,
            action: ActionModel::Error(
                ProviderErrorModel::ResponseParse {
                    provider,
                    message: invalid_message(about, error),
                },
            ),
        },
    }
}

fn items_of(item: Option<StreamItem>) -> (r: AnthropicEventAction)
    ensures
        r.deep_view() == ActionModel::Items(one_or_none(item.deep_view())),
{
    let mut items: Vec<StreamItem> = Vec::new();
    if let Some(item) = item {
        items.push(item);
    }
    proof {
        assert(items.deep_view() =~= one_or_none(item.deep_view()));
    }
    AnthropicEventAction::Items(items)
}

/// An answer has started, and says how many tokens the question took.
pub fn parse_message_start(
    event: AnthropicMessageStartEvent,
    provider: &ProviderId,
    input_tokens: &mut Option<u64>,
) -> (r: AnthropicEventAction)
    ensures
        forall|calls: CallsModel|
            ({
                let step = #[trigger] event_step(
                    StreamState { calls, input_tokens: *old(input_tokens) },
                    AnthropicPayload::MessageStart(event).deep_view(),
                    provider.deep_view(),
                );
                &&& step.state.calls == calls
                &&& *final(input_tokens) == step.state.input_tokens
                &&& r.deep_view() == step.action
            }),
{
    let prompt = match event.message.usage {
        Some(usage) => usage.input_tokens,
        None => None,
    };
    if prompt.is_some() {
        *input_tokens = prompt;
        items_of(
            Some(
                StreamItem::UsageUpdate(
                    UsageUpdate {
                        prompt_tokens: prompt,
                        completion_tokens: None,
                        total_tokens: None,
                    },
                ),
            ),
        )
    } else {
        items_of(None)
    }
}

/// A block has started.
pub fn parse_content_block_start(
    event: AnthropicContentBlockStartEvent,
    provider: &ProviderId,
    accumulator: &mut AnthropicToolCallAccumulator,
) -> (r: AnthropicEventAction)
    requires
        old(accumulator).next_ordinal < usize::MAX,
    ensures
        forall|input_tokens: Option<u64>|
            ({
                let step = #[trigger] event_step(
                    StreamState { calls: old(accumulator).model(), input_tokens },
                    AnthropicPayload::ContentBlockStart(event).deep_view(),
                    provider.deep_view(),
                );
                &&& step.state.input_tokens == input_tokens
                &&& final(accumulator).model() == step.state.calls
                &&& r.deep_view() == step.action
            }),
{
    if same_text(event.content_block.kind.as_str(), "tool_use") {
        let delta = accumulator.start_tool(
            event.index,
            event.content_block.id,
            event.content_block.name,
        );
        items_of(Some(StreamItem::ToolCallDelta(delta)))
    } else {
        items_of(None)
    }
}

fn filled(text: Option<String>) -> (r: Option<String>)
    ensures
        r.deep_view() == some_text(text.deep_view()),
{
    match text {
        Some(text) => if text.as_str().is_empty() {
            None
        } else {
            Some(text)
        },
        None => None,
    }
}

/// A block goes on.
pub fn parse_content_block_delta(
    event: AnthropicContentBlockDeltaEvent,
    provider: &ProviderId,
    accumulator: &mut AnthropicToolCallAccumulator,
) -> (r: AnthropicEventAction)
    requires
        old(accumulator).next_ordinal < usize::MAX,
    ensures
        forall|input_tokens: Option<u64>|
            ({
                let step = #[trigger] event_step(
                    StreamState { calls: old(accumulator).model(), input_tokens },
                    AnthropicPayload::ContentBlockDelta(event).deep_view(),
                    provider.deep_view(),
                );
                &&& step.state.input_tokens == input_tokens
                &&& final(accumulator).model() == step.state.calls
                &&& r.deep_view() == step.action
            }),
{
    let kind = event.delta.kind;
    if same_text(kind.as_str(), "text_delta") {
        match filled(event.delta.text) {
            Some(text) => items_of(Some(StreamItem::Text(text))),
            None => items_of(None),
        }
    } else if same_text(kind.as_str(), "input_json_delta") {
        match event.delta.partial_json {
            Some(json) => {
                let delta = accumulator.append_json(event.index, json.as_str());
                items_of(Some(StreamItem::ToolCallDelta(delta)))
            },
            None => items_of(None),
        }
    } else if same_text(kind.as_str(), "thinking_delta") {
        match filled(event.delta.thinking) {
            Some(text) => items_of(Some(StreamItem::ReasoningDelta(text))),
            None => items_of(None),
        }
    } else {
        items_of(None)
    }
}

/// An answer ends, and says why and how many tokens it took.
pub fn parse_message_delta(event: AnthropicMessageDeltaEvent, input_tokens: Option<u64>) -> (r:
    AnthropicEventAction)
    ensures
        r.deep_view() == ActionModel::Items(
            message_delta_items(
                event.delta.stop_reason.deep_view(),
                event.usage,
                input_tokens,
            ),
        ),
{
    let mut items: Vec<StreamItem> = Vec::new();
    let usage = event.usage;
    let ghost reason_text = event.delta.stop_reason.deep_view();
    if let Some(reason) = filled(event.delta.stop_reason) {
        items.push(StreamItem::FinishReason(reason));
    }
    if let Some(usage) = usage {
        items.push(
            StreamItem::UsageUpdate(
                UsageUpdate {
                    prompt_tokens: input_tokens,
                    completion_tokens: usage.output_tokens,
                    total_tokens: sum_tokens(input_tokens, usage.output_tokens),
                },
            ),
        );
    }
    proof {
        assert(items.deep_view() =~= message_delta_items(reason_text, usage, input_tokens));
    }
    AnthropicEventAction::Items(items)
}

/// Anthropic reports an error in the middle of an answer.
pub fn parse_error_event(event: AnthropicStreamErrorEvent, provider: &ProviderId) -> (r:
    AnthropicEventAction)
    ensures
        forall|state: StreamState|
            r.deep_view() == (#[trigger] event_step(
                state,
                AnthropicPayload::Error(event).deep_view(),
                provider.deep_view(),
            )).action,
{
    let message = match event.error.message {
        Some(message) => message,
        None => "unknown streaming error from Anthropic".to_owned(),
    };
    AnthropicEventAction::Error(response_parse(provider, message))
}

fn invalid_event(invalid: InvalidEvent, provider: &ProviderId) -> (r: AnthropicEventAction)
    ensures
        r.deep_view() == ActionModel::Error(
            ProviderErrorModel::ResponseParse {
                provider: provider.deep_view(),
                message: invalid_message(invalid.kind, invalid.error@),
            },
        ),
{
    let prefix: &str = match invalid.kind {
        Some(AnthropicEventKind::MessageStart) => {
            "failed to parse Anthropic message_start event: "
        },
        Some(AnthropicEventKind::ContentBlockStart) => {
            "failed to parse Anthropic content_block_start event: "
        },
        Some(AnthropicEventKind::ContentBlockDelta) => {
            "failed to parse Anthropic content_block_delta event: "
        },
        Some(AnthropicEventKind::MessageDelta) => {
            "failed to parse Anthropic message_delta event: "
        },
        Some(AnthropicEventKind::Error) => "failed to parse Anthropic error event: ",
        _ => "failed to parse Anthropic stream event envelope: ",
    };
    AnthropicEventAction::Error(response_parse(provider, concat(prefix, invalid.error.as_str())))
}

/// What one event asks the stream to do.
pub fn parse_anthropic_stream_payload(
    payload: AnthropicPayload,
    provider: &ProviderId,
    accumulator: &mut AnthropicToolCallAccumulator,
    input_tokens: &mut Option<u64>,
) -> (r: AnthropicEventAction)
    requires
        old(accumulator).next_ordinal < usize::MAX,
    ensures
        ({
            let step = event_step(
                StreamState {
                    calls: old(accumulator).model(),
                    input_tokens: *old(input_tokens),
                },
                payload.deep_view(),
                provider.deep_view(),
            );
            &&& final(accumulator).model() == step.state.calls
            &&& *final(input_tokens) == step.state.input_tokens
            &&& r.deep_view() == step.action
        }),
{
    match payload {
        AnthropicPayload::Empty => items_of(None),
        AnthropicPayload::Ignored => items_of(None),
        AnthropicPayload::MessageStop => AnthropicEventAction::Done,
        AnthropicPayload::MessageStart(event) => {
            parse_message_start(event, provider, input_tokens)
        },
        AnthropicPayload::ContentBlockStart(event) => {
            parse_content_block_start(event, provider, accumulator)
        },
        AnthropicPayload::ContentBlockDelta(event) => {
            parse_content_block_delta(event, provider, accumulator)
        },
        AnthropicPayload::MessageDelta(event) => parse_message_delta(event, *input_tokens),
        AnthropicPayload::Error(event) => parse_error_event(event, provider),
        AnthropicPayload::Invalid(invalid) => invalid_event(invalid, provider),
    }
}

pub struct AnthropicBatch {
    pub state: StreamState,
    pub items: Seq<StreamItemModel>,
    pub end: BatchEndModel,
}

/// What a batch of events does, one after the other up to the first that ends the
/// stream.
pub open spec fn anthropic_batch(
    state: StreamState,
    payloads: Seq<PayloadModel>,
    provider: Seq<char>,
) -> AnthropicBatch
    decreases payloads.len(),
{
    if payloads.len() == 0 {
        AnthropicBatch { state, items: Seq::empty(), end: BatchEndModel::Open }
    } else {
        let before = anthropic_batch(state, payloads.drop_last(), provider);
        if before.end !is Open {
            before
        } else {
            let step = event_step(before.state, payloads.last(), provider);
            match step.action {
                ActionModel::Items(items) => AnthropicBatch {
                    state: step.state,
                    items: before.items + items,
                    end: BatchEndModel::Open,
                },
                ActionModel::Done => AnthropicBatch {
                    state: step.state,
                    items: before.items,
                    end: BatchEndModel::Done,
                },
                ActionModel::Error(error) => AnthropicBatch {
                    state: step.state,
                    items: before.items,
                    end: BatchEndModel::Failed(error),
                },
            }
        }
    }
}

proof fn lemma_anthropic_batch_stops(
    state: StreamState,
    payloads: Seq<PayloadModel>,
    provider: Seq<char>,
    upto: int,
)
    requires
        0 <= upto <= payloads.len(),
        anthropic_batch(state, payloads.take(upto), provider).end !is Open,
    ensures
        anthropic_batch(state, payloads, provider) == anthropic_batch(
            state,
            payloads.take(upto),
            provider,
        ),
    decreases payloads.len() - upto,
{
    if upto == payloads.len() {
        assert(payloads.take(upto) =~= payloads);
    } else {
        assert(payloads.take(upto + 1).drop_last() =~= payloads.take(upto));
        lemma_anthropic_batch_stops(state, payloads, provider, upto + 1);
    }
}

/// What a batch of events hands out, and how it leaves the stream.
pub fn process_anthropic_payloads(
    payloads: Vec<AnthropicPayload>,
    provider: &ProviderId,
    accumulator: &mut AnthropicToolCallAccumulator,
    input_tokens: &mut Option<u64>,
) -> (r: StreamBatch)
    requires
        old(accumulator).next_ordinal + payloads@.len() < usize::MAX,
    ensures
        ({
            let batch = anthropic_batch(
                StreamState {
                    calls: old(accumulator).model(),
                    input_tokens: *old(input_tokens),
                },
                payloads.deep_view(),
                provider.deep_view(),
            );
            &&& final(accumulator).model() == batch.state.calls
            &&& *final(input_tokens) == batch.state.input_tokens
            &&& r.items.deep_view() == batch.items
            &&& r.end.deep_view() == batch.end
        }),
{
    let ghost models = payloads.deep_view();
    let ghost start = StreamState { calls: accumulator.model(), input_tokens: *input_tokens };
    let ghost name = provider.deep_view();
    let mut items: Vec<StreamItem> = Vec::new();
    let mut end = BatchEnd::Open;
    let ghost mut seen: int = 0;
    proof {
        assert(models.take(0) =~= Seq::empty());
        assert(items.deep_view() =~= Seq::empty());
    }
    for payload in it: payloads
        invariant
            it.seq() == payloads@,
            models == payloads.deep_view(),
            name == provider.deep_view(),
            start.calls.next + models.len() < usize::MAX,
            0 <= seen <= it.index() <= models.len(),
            end.deep_view() is Open ==> seen == it.index(),
            accumulator.next_ordinal <= start.calls.next + seen,
            ({
                let batch = anthropic_batch(start, models.take(seen), name);
                &&& accumulator.model() == batch.state.calls
                &&& *input_tokens == batch.state.input_tokens
                &&& items.deep_view() == batch.items
                &&& end.deep_view() == batch.end
            }),
    {
        if let BatchEnd::Open = &end {
            proof {
                assert(models.take(seen + 1).drop_last() =~= models.take(seen));
                assert(models.take(seen + 1).last() == payload.deep_view());
            }
            match parse_anthropic_stream_payload(payload, provider, accumulator, input_tokens) {
                AnthropicEventAction::Items(more) => {
                    append_items(&mut items, more);
                },
                AnthropicEventAction::Done => {
                    end = BatchEnd::Done;
                },
                AnthropicEventAction::Error(error) => {
                    end = BatchEnd::Failed(error);
                },
            }
            proof {
                seen = seen + 1;
            }
        }
    }
    proof {
        assert(models.take(models.len() as int) =~= models);
        if end.deep_view() !is Open {
            lemma_anthropic_batch_stops(start, models, name, seen);
        }
    }
    StreamBatch { items, end }
}

/// What a stream still hands out that is over: a lost connection, if the answer was
/// never complete.
pub fn anthropic_stream_end(end: &BatchEnd) -> (r: Option<StreamItem>)
    ensures
        r.deep_view() == if end.deep_view() is Open {
            Some(StreamItemModel::ConnectionLost("Anthropic stream ended before message_stop"@))
        } else {
            None::<StreamItemModel>
        },
{
    match end {
        BatchEnd::Open => Some(
            StreamItem::ConnectionLost("Anthropic stream ended before message_stop".to_owned()),
        ),
        _ => None,
    }
}

/// What a stream hands out when its transport fails.
pub fn anthropic_transport_lost(error: &str) -> (r: StreamItem)
    ensures
        r.deep_view() == StreamItemModel::ConnectionLost(
            "Anthropic stream transport dropped: "@ + error@,
        ),
{
    StreamItem::ConnectionLost(concat("Anthropic stream transport dropped: ", error))
}

/// How many of the first messages are somebody's other than the system's.
pub open spec fn turns_before(messages: Seq<Message>, i: int) -> nat
    decreases i,
{
    if i <= 0 {
        0
    } else {
        turns_before(messages, i - 1) + if messages[i - 1].role == MessageRole::System {
            0nat
        } else {
            1
        }
    }
}

proof fn lemma_turns_before(messages: Seq<Message>, models: Seq<MessageModel>, n: int, i: int)
    requires
        models.len() == messages.len(),
        forall|k: int| 0 <= k < messages.len() ==> #[trigger] models[k] == messages[k].deep_view(),
        0 <= n <= messages.len(),
        turns_of(models.take(n)) is Ok,
    ensures
        turns_of(models.take(n))->Ok_0.len() == turns_before(messages, n),
        0 <= i < n ==> turn_of(models[i]) is Ok,
        0 <= i < n && messages[i].role != MessageRole::System ==> turns_before(messages, i)
            < turns_before(messages, n) && turn_of(models[i])->Ok_0.len() == 1 && turns_of(
            models.take(n),
        )->Ok_0[turns_before(messages, i) as int] == turn_of(models[i])->Ok_0[0],
    decreases n,
{
    if n == 0 {
        assert(models.take(0) =~= Seq::empty());
    } else {
        assert(models.take(n).drop_last() =~= models.take(n - 1));
        assert(models.take(n).last() == models[n - 1]);
        lemma_turns_before(messages, models, n - 1, i);
        assert(models[n - 1] == messages[n - 1].deep_view());
    }
}

/// Every message but the system's is the turn at its place. A result is a turn of the
/// user's, under the identity of the call that it answers; what else is said stands
/// there without the white space around it, under its role, and calls stand behind it,
/// each with its identity, its name and its arguments.
pub proof fn law_messages_are_turns_in_order(
    context: Context,
    max_tokens: u32,
    stream: bool,
    request: AnthropicMessagesRequest,
    i: int,
    j: int,
)
    requires
        call_ensures(
            AnthropicMessagesRequest::from_context_with_stream,
            (&context, max_tokens, stream),
            Ok(request),
        ),
        0 <= i < context.messages@.len(),
        context.messages@[i].role != MessageRole::System,
    ensures
        request.messages@.len() == turns_before(
            context.messages@,
            context.messages@.len() as int,
        ),
        ({
            let message = context.messages@[i];
            let place = turns_before(context.messages@, i) as int;
            let turn = request.messages@[place];
            let behind: int = if message.speaks() {
                1
            } else {
                0
            };
            &&& place < request.messages@.len()
            &&& message.role == MessageRole::Tool ==> turn.role@ == "user"@ && turn.content@.len()
                == 1 && (turn.content@[0] matches AnthropicRequestContentBlock::ToolResult {
                tool_use_id,
                content,
            } && message.tool_call_id matches Some(id) && tool_use_id@ == id@ && (
            match message.content {
                Some(text) => content@ == text@,
                None => content@.len() == 0,
            }))
            &&& message.role != MessageRole::Tool ==> {
                &&& message.role == MessageRole::Assistant ==> turn.role@ == "assistant"@
                &&& message.role == MessageRole::User ==> turn.role@ == "user"@
                &&& turn.content@.len() == behind + message.tool_calls@.len()
                &&& message.speaks() ==> (
                turn.content@[0] matches AnthropicRequestContentBlock::Text { text } && text@
                    == text::trimmed(message.content->0@))
                &&& 0 <= j < message.tool_calls@.len() ==> (
                turn.content@[behind + j] matches AnthropicRequestContentBlock::ToolUse {
                    id,
                    name,
                    input,
                } && id@ == message.tool_calls@[j].id@ && name@ == message.tool_calls@[j].name@
                    && input.deep_view() == message.tool_calls@[j].arguments.deep_view())
            }
        }),
{
    let models = context.messages.deep_view();
    let messages = context.messages@;
    let count = messages.len() as int;
    assert(models.len() == count);
    assert forall|k: int| 0 <= k < messages.len() implies #[trigger] models[k]
        == messages[k].deep_view() by {}
    assert(models.take(count) =~= models);
    lemma_turns_before(messages, models, count, i);
    assert(request.messages.deep_view().len() == request.messages@.len());
    let place = turns_before(messages, i) as int;
    let turn = request.messages@[place];
    assert(request.messages.deep_view()[place] == turn.deep_view());
    let blocks = turn.content.deep_view();
    assert(blocks.len() == turn.content@.len());
    let message = messages[i];
    assert(message.tool_calls.deep_view().len() == message.tool_calls@.len());
    if message.role == MessageRole::Tool || message.speaks() {
        assert(blocks[0] == turn.content@[0].deep_view());
    }
    if message.role != MessageRole::Tool && 0 <= j < message.tool_calls@.len() {
        let at: int = if message.speaks() {
            j + 1
        } else {
            j
        };
        assert(message.tool_calls.deep_view()[j] == message.tool_calls@[j].deep_view());
        assert(blocks[at] == turn.content@[at].deep_view());
    }
}

/// A conversation is refused where a result names no call, where the user or the
/// assistant neither says something nor calls a tool, and where nobody but the system
/// speaks; the error names its provider.
pub proof fn law_refused_conversations(
    context: Context,
    max_tokens: u32,
    stream: bool,
    r: Result<AnthropicMessagesRequest, ProviderError>,
    i: int,
)
    requires
        call_ensures(
            AnthropicMessagesRequest::from_context_with_stream,
            (&context, max_tokens, stream),
            r,
        ),
    ensures
        r matches Err(error) ==> (error matches ProviderError::RequestFailed { provider, .. }
            && provider.0@ == context.provider.0@),
        r is Ok ==> turns_before(context.messages@, context.messages@.len() as int) > 0,
        0 <= i < context.messages@.len() && context.messages@[i].role == MessageRole::Tool
            && context.messages@[i].tool_call_id is None ==> r is Err,
        0 <= i < context.messages@.len() && (context.messages@[i].role == MessageRole::User
            || context.messages@[i].role == MessageRole::Assistant)
            && !context.messages@[i].speaks() && context.messages@[i].tool_calls@.len() == 0
            ==> r is Err,
{
    let models = context.messages.deep_view();
    let messages = context.messages@;
    let count = messages.len() as int;
    assert(models.len() == count);
    assert forall|k: int| 0 <= k < messages.len() implies #[trigger] models[k]
        == messages[k].deep_view() by {}
    assert(models.take(count) =~= models);
    if r is Ok {
        lemma_turns_before(messages, models, count, i);
    }
    if 0 <= i < count {
        assert(models[i] == messages[i].deep_view());
        assert(messages[i].tool_calls.deep_view().len() == messages[i].tool_calls@.len());
    }
}

proof fn lemma_system_chunk(models: Seq<MessageModel>, i: int) -> (at: int)
    requires
        0 <= i < models.len(),
        models[i].role == MessageRole::System,
        models[i].content is Some,
        endpoint::non_empty_text(models[i].content->0) is Some,
    ensures
        0 <= at < system_chunks(models).len(),
        system_chunks(models)[at] == endpoint::non_empty_text(models[i].content->0)->0,
    decreases models.len(),
{
    if i == models.len() - 1 {
        system_chunks(models.drop_last()).len() as int
    } else {
        lemma_system_chunk(models.drop_last(), i)
    }
}

proof fn lemma_no_system_chunks(models: Seq<MessageModel>)
    requires
        forall|i: int|
            0 <= i < models.len() ==> !((#[trigger] models[i]).role == MessageRole::System
                && models[i].content is Some && endpoint::non_empty_text(
                models[i].content->0,
            ) is Some),
    ensures
        system_chunks(models).len() == 0,
    decreases models.len(),
{
    if models.len() > 0 {
        assert(models.last() == models[models.len() - 1]);
        assert forall|i: int| 0 <= i < models.drop_last().len() implies !((
        #[trigger] models.drop_last()[i]).role == MessageRole::System
            && models.drop_last()[i].content is Some && endpoint::non_empty_text(
            models.drop_last()[i].content->0,
        ) is Some) by {
            assert(models.drop_last()[i] == models[i]);
        }
        lemma_no_system_chunks(models.drop_last());
    }
}

/// A request asks the model of its conversation for at most the given tokens, and at
/// least one; says apart from the turns what the system says, if anything; and offers all
/// the tools of its conversation, in their order, to choose among where there are any.
pub proof fn law_request_asks_the_model_of_its_conversation(
    context: Context,
    max_tokens: u32,
    stream: bool,
    request: AnthropicMessagesRequest,
    i: int,
    t: int,
)
    requires
        call_ensures(
            AnthropicMessagesRequest::from_context_with_stream,
            (&context, max_tokens, stream),
            Ok(request),
        ),
    ensures
        request.model@ == context.model.0@,
        request.stream == stream,
        request.max_tokens >= 1,
        max_tokens >= 1 ==> request.max_tokens == max_tokens,
        max_tokens == 0 ==> request.max_tokens == 1,
        0 <= i < context.messages@.len() && context.messages@[i].role == MessageRole::System
            && context.messages@[i].speaks() ==> (request.system matches Some(system)
            && text::stands_in(system@, text::trimmed(context.messages@[i].content->0@))),
        (forall|k: int|
            0 <= k < context.messages@.len() ==> !((#[trigger] context.messages@[k]).role
                == MessageRole::System && context.messages@[k].speaks()))
            ==> request.system is None,
        request.tools@.len() == context.tools@.len(),
        context.tools@.len() == 0 ==> request.tool_choice is None,
        context.tools@.len() > 0 ==> (request.tool_choice matches Some(choice) && choice.kind@
            == "auto"@),
        0 <= t < context.tools@.len() ==> {
            let tool = context.tools@[t];
            let offered = request.tools@[t];
            &&& offered.name@ == tool.name@
            &&& match tool.description {
                Some(text) => offered.description matches Some(given) && given@ == text@,
                None => offered.description is None,
            }
            &&& offered.input_schema.deep_view() == schema::schema_tree(tool.parameters.deep_view())
        },
{
    let models = context.messages.deep_view();
    let messages = context.messages@;
    assert(models.len() == messages.len());
    assert forall|k: int| 0 <= k < messages.len() implies #[trigger] models[k]
        == messages[k].deep_view() by {}
    if 0 <= i < messages.len() && messages[i].role == MessageRole::System && messages[i].speaks() {
        assert(models[i] == messages[i].deep_view());
        let at = lemma_system_chunk(models, i);
        text::law_joined_holds_its_parts(system_chunks(models), "\n\n"@, at);
    }
    if forall|k: int|
        0 <= k < messages.len() ==> !((#[trigger] messages[k]).role == MessageRole::System
            && messages[k].speaks()) {
        assert forall|k: int| 0 <= k < models.len() implies !((#[trigger] models[k]).role
            == MessageRole::System && models[k].content is Some && endpoint::non_empty_text(
            models[k].content->0,
        ) is Some) by {
            assert(models[k] == messages[k].deep_view());
            assert(!(messages[k].role == MessageRole::System && messages[k].speaks()));
        }
        lemma_no_system_chunks(models);
    }
    assert(context.tools.deep_view().len() == context.tools@.len());
    assert(request.tools.deep_view().len() == request.tools@.len());
    if 0 <= t < context.tools@.len() {
        assert(context.tools.deep_view()[t] == context.tools@[t].deep_view());
        assert(request.tools.deep_view()[t] == request.tools@[t].deep_view());
    }
}

/// How many of the first blocks of an answer are calls.
pub open spec fn calls_before(blocks: Seq<AnthropicResponseContentBlock>, i: int) -> nat
    decreases i,
{
    if i <= 0 {
        0
    } else {
        calls_before(blocks, i - 1) + if blocks[i - 1].kind@ == "tool_use"@ {
            1nat
        } else {
            0
        }
    }
}

/// A block of an answer says something.
pub open spec fn says_something(block: AnthropicResponseContentBlock) -> bool {
    block.kind@ == "text"@ && (block.text matches Some(text) && text::trimmed(text@).len() > 0)
}

/// All that the first blocks of an answer say, each on lines of its own and without the
/// white space around it.
pub open spec fn said_before(blocks: Seq<AnthropicResponseContentBlock>, i: int) -> Seq<char>
    decreases i,
{
    if i <= 0 {
        Seq::empty()
    } else if !says_something(blocks[i - 1]) {
        said_before(blocks, i - 1)
    } else if said_before(blocks, i - 1).len() == 0 {
        text::trimmed(blocks[i - 1].text->0@)
    } else {
        said_before(blocks, i - 1) + "\n"@ + text::trimmed(blocks[i - 1].text->0@)
    }
}

proof fn lemma_gathered(
    blocks: Seq<AnthropicResponseContentBlock>,
    models: Seq<AnswerBlock>,
    n: int,
    i: int,
)
    requires
        models.len() == blocks.len(),
        forall|k: int| 0 <= k < blocks.len() ==> #[trigger] models[k] == blocks[k].deep_view(),
        0 <= n <= blocks.len(),
        gather(models.take(n)) is Ok,
    ensures
        ({
            let gathered = gather(models.take(n))->Ok_0;
            &&& gathered.calls.len() == calls_before(blocks, n)
            &&& text::joined(gathered.texts, "\n"@) == said_before(blocks, n)
            &&& gathered.texts.len() == 0 <==> said_before(blocks, n).len() == 0
            &&& 0 <= i < n && blocks[i].kind@ == "tool_use"@ ==> {
                &&& calls_before(blocks, i) < gathered.calls.len()
                &&& models[i].id is Some
                &&& models[i].name is Some
                &&& models[i].input is Some
                &&& gathered.calls[calls_before(blocks, i) as int] == (ToolCallModel {
                    id: models[i].id->0,
                    name: models[i].name->0,
                    arguments: models[i].input->0,
                    metadata: None,
                })
            }
        }),
    decreases n,
{
    reveal_strlit("text");
    reveal_strlit("tool_use");
    assert("text"@.len() == 4 && "tool_use"@.len() == 8);
    if n == 0 {
        assert(models.take(0) =~= Seq::empty());
    } else {
        assert(models.take(n).drop_last() =~= models.take(n - 1));
        assert(models.take(n).last() == models[n - 1]);
        lemma_gathered(blocks, models, n - 1, i);
        assert(models[n - 1] == blocks[n - 1].deep_view());
        let before = gather(models.take(n - 1))->Ok_0;
        if says_something(blocks[n - 1]) {
            let inner = text::trimmed(blocks[n - 1].text->0@);
            assert(before.texts.push(inner).drop_last() =~= before.texts);
        }
    }
}

/// An answer makes the calls that its blocks hold, in their order, each with its identity,
/// its name and its input; it says what its blocks say; it comes from whom it names, ends
/// for its reason, and counts the tokens that were counted and their sum.
pub proof fn law_answer_is_what_its_blocks_hold(
    response: AnthropicMessagesResponse,
    provider: ProviderId,
    answer: Result<Response, ProviderError>,
    i: int,
)
    requires
        call_ensures(normalize_anthropic_response, (response, &provider), answer),
    ensures
        response.role@ != "user"@ && response.role@ != "assistant"@ ==> answer is Err,
        answer matches Err(error) ==> (error matches ProviderError::ResponseParse {
            provider: named,
            ..
        } && named.0@ == provider.0@),
        answer matches Ok(given) ==> {
            let blocks = response.content@;
            let said = said_before(blocks, blocks.len() as int);
            &&& given.message.role == MessageRole::Assistant <==> response.role@ == "assistant"@
            &&& given.message.role == MessageRole::User <==> response.role@ == "user"@
            &&& said.len() > 0 ==> (given.message.content matches Some(content) && content@ == said)
            &&& said.len() == 0 ==> given.message.content is None
            &&& given.message.tool_call_id is None
            &&& given.message.attachments@.len() == 0
            &&& given.message.tool_calls.deep_view() == given.tool_calls.deep_view()
            &&& given.tool_calls@.len() == calls_before(blocks, blocks.len() as int)
            &&& 0 <= i < blocks.len() && blocks[i].kind@ == "tool_use"@ ==> {
                let call = given.tool_calls@[calls_before(blocks, i) as int];
                &&& blocks[i].id matches Some(id) && call.id@ == id@
                &&& blocks[i].name matches Some(name) && call.name@ == name@
                &&& blocks[i].input matches Some(input) && call.arguments.deep_view()
                    == input.deep_view()
                &&& call.metadata is None
            }
            &&& match response.stop_reason {
                Some(reason) => given.finish_reason matches Some(told) && told@ == reason@,
                None => given.finish_reason is None,
            }
            &&& match response.usage {
                Some(usage) => given.usage matches Some(counted) && counted.prompt_tokens
                    == usage.input_tokens && counted.completion_tokens == usage.output_tokens && (
                usage.input_tokens is Some && usage.output_tokens is Some
                    && usage.input_tokens->0 + usage.output_tokens->0 <= u64::MAX
                    ==> counted.total_tokens == Some(
                    (usage.input_tokens->0 + usage.output_tokens->0) as u64,
                )) && (usage.input_tokens is None || usage.output_tokens is None
                    ==> counted.total_tokens is None),
                None => given.usage is None,
            }
        },
        0 <= i < response.content@.len() && response.content@[i].kind@ == "tool_use"@ && (
        response.content@[i].id is None || response.content@[i].name is None
            || response.content@[i].input is None) ==> answer is Err,
{
    let models = response.content.deep_view();
    let blocks = response.content@;
    let count = blocks.len() as int;
    assert(models.len() == count);
    assert forall|k: int| 0 <= k < blocks.len() implies #[trigger] models[k]
        == blocks[k].deep_view() by {}
    assert(models.take(count) =~= models);
    reveal_strlit("user");
    reveal_strlit("assistant");
    assert("user"@.len() != "assistant"@.len());
    if let Ok(given) = answer {
        lemma_gathered(blocks, models, count, i);
        assert(given.tool_calls.deep_view().len() == given.tool_calls@.len());
        assert(given.message.attachments.deep_view().len() == given.message.attachments@.len());
        if 0 <= i < count && blocks[i].kind@ == "tool_use"@ {
            let at = calls_before(blocks, i) as int;
            assert(models[i] == blocks[i].deep_view());
            assert(given.tool_calls.deep_view()[at] == given.tool_calls@[at].deep_view());
        }
    }
}

/// What a block goes on with is handed on as it came: text as text, thinking as reasoning.
pub proof fn law_text_and_thinking_are_handed_on(
    event: AnthropicContentBlockDeltaEvent,
    provider: ProviderId,
    accumulator: &mut AnthropicToolCallAccumulator,
    input_tokens: &mut Option<u64>,
    action: AnthropicEventAction,
)
    requires
        call_ensures(
            parse_anthropic_stream_payload,
            (AnthropicPayload::ContentBlockDelta(event), &provider, accumulator, input_tokens),
            action,
        ),
        event.delta.kind@ == "text_delta"@ || event.delta.kind@ == "thinking_delta"@,
    ensures
        final(accumulator).model() == old(accumulator).model(),
        *final(input_tokens) == *old(input_tokens),
        action matches AnthropicEventAction::Items(items) && (if event.delta.kind@
            == "text_delta"@ {
            match event.delta.text {
                Some(text) => if text@.len() > 0 {
                    items@.len() == 1 && (items@[0] matches StreamItem::Text(told) && told@
                        == text@)
                } else {
                    items@.len() == 0
                },
                None => items@.len() == 0,
            }
        } else {
            match event.delta.thinking {
                Some(text) => if text@.len() > 0 {
                    items@.len() == 1 && (items@[0] matches StreamItem::ReasoningDelta(told)
                        && told@ == text@)
                } else {
                    items@.len() == 0
                },
                None => items@.len() == 0,
            }
        }),
{
    reveal_strlit("text_delta");
    reveal_strlit("thinking_delta");
    reveal_strlit("input_json_delta");
    assert("text_delta"@.len() == 10 && "thinking_delta"@.len() == 14
        && "input_json_delta"@.len() == 16);
    let items = action->Items_0;
    assert(items.deep_view().len() == items@.len());
    if items@.len() > 0 {
        assert(items.deep_view()[0] == items@[0].deep_view());
    }
}

/// A block that calls a tool is announced with the identity and the name that it starts
/// with, under the next number; the arguments that then come for that block are handed on
/// as they came, under the same number, identity and name. A block of another kind is
/// not announced.
pub proof fn law_arguments_belong_to_their_block(
    event: AnthropicContentBlockStartEvent,
    more: AnthropicContentBlockDeltaEvent,
    provider: ProviderId,
    first: &mut AnthropicToolCallAccumulator,
    second: &mut AnthropicToolCallAccumulator,
    tokens: &mut Option<u64>,
    later_tokens: &mut Option<u64>,
    started: AnthropicEventAction,
    action: AnthropicEventAction,
)
    requires
        call_ensures(
            parse_anthropic_stream_payload,
            (AnthropicPayload::ContentBlockStart(event), &provider, first, tokens),
            started,
        ),
        call_ensures(
            parse_anthropic_stream_payload,
            (AnthropicPayload::ContentBlockDelta(more), &provider, second, later_tokens),
            action,
        ),
        final(first).model() == old(second).model(),
        old(first).next_ordinal < usize::MAX,
        more.delta.kind@ == "input_json_delta"@,
        event.index == more.index,
    ensures
        event.content_block.kind@ != "tool_use"@ ==> final(first).model() == old(first).model()
            && (started matches AnthropicEventAction::Items(items) && items@.len() == 0),
        event.content_block.kind@ == "tool_use"@ ==> {
            &&& started matches AnthropicEventAction::Items(items) && items@.len() == 1 && (
            items@[0] matches StreamItem::ToolCallDelta(delta) && delta.index == old(
                first,
            ).next_ordinal && delta.id.deep_view() == event.content_block.id.deep_view()
                && delta.name.deep_view() == event.content_block.name.deep_view()
                && delta.arguments is None)
            &&& final(first).next_ordinal == old(first).next_ordinal + 1
            &&& more.delta.partial_json matches Some(json) ==> (
            action matches AnthropicEventAction::Items(items) && items@.len() == 1 && (
            items@[0] matches StreamItem::ToolCallDelta(delta) && delta.index == old(
                first,
            ).next_ordinal && delta.id.deep_view() == event.content_block.id.deep_view()
                && delta.name.deep_view() == event.content_block.name.deep_view() && (if json@.len()
                == 0 {
                delta.arguments is None
            } else {
                delta.arguments matches Some(told) && told@ == json@
            })) && final(second).model().calls[more.index].arguments == json@)
        },
{
    reveal_strlit("text_delta");
    reveal_strlit("thinking_delta");
    reveal_strlit("input_json_delta");
    assert("text_delta"@.len() == 10 && "thinking_delta"@.len() == 14
        && "input_json_delta"@.len() == 16);
    let one = started->Items_0;
    assert(one.deep_view().len() == one@.len());
    if event.content_block.kind@ == "tool_use"@ {
        assert(one.deep_view()[0] == one@[0].deep_view());
        if let Some(json) = more.delta.partial_json {
            let two = action->Items_0;
            assert(two.deep_view().len() == two@.len());
            assert(two.deep_view()[0] == two@[0].deep_view());
            assert(Seq::<char>::empty() + json@ =~= json@);
        }
    }
}

/// The tokens that the question took are counted when the answer starts, and again when
/// it ends, with those that the answer took and the sum of both; the end says why the
/// answer ended.
pub proof fn law_tokens_of_start_and_end_add_up(
    start: AnthropicMessageStartEvent,
    end: AnthropicMessageDeltaEvent,
    provider: ProviderId,
    first: &mut AnthropicToolCallAccumulator,
    second: &mut AnthropicToolCallAccumulator,
    tokens: &mut Option<u64>,
    later_tokens: &mut Option<u64>,
    started: AnthropicEventAction,
    ended: AnthropicEventAction,
    asked: u64,
)
    requires
        call_ensures(
            parse_anthropic_stream_payload,
            (AnthropicPayload::MessageStart(start), &provider, first, tokens),
            started,
        ),
        call_ensures(
            parse_anthropic_stream_payload,
            (AnthropicPayload::MessageDelta(end), &provider, second, later_tokens),
            ended,
        ),
        *final(tokens) == *old(later_tokens),
        start.message.usage matches Some(usage) && usage.input_tokens == Some(asked),
    ensures
        started matches AnthropicEventAction::Items(items) && items@.len() == 1 && (
        items@[0] matches StreamItem::UsageUpdate(counted) && counted.prompt_tokens == Some(asked)
            && counted.completion_tokens is None && counted.total_tokens is None),
        *final(tokens) == Some(asked),
        ended is Items,
        ({
            let items = ended->Items_0@;
            let reasons: int = if end.delta.stop_reason matches Some(reason) && reason@.len() > 0 {
                1
            } else {
                0
            };
            &&& reasons == 1 ==> (items[0] matches StreamItem::FinishReason(told) && told@
                == end.delta.stop_reason->0@)
            &&& items.len() == reasons + if end.usage is Some {
                1int
            } else {
                0
            }
            &&& end.usage matches Some(usage) ==> (
            items[reasons] matches StreamItem::UsageUpdate(counted) && counted.prompt_tokens
                == Some(asked) && counted.completion_tokens == usage.output_tokens && (
            usage.output_tokens matches Some(answered) ==> (asked + answered <= u64::MAX
                ==> counted.total_tokens == Some((asked + answered) as u64))) && (
            usage.output_tokens is None ==> counted.total_tokens is None))
        }),
{
    let one = started->Items_0;
    assert(one.deep_view().len() == one@.len());
    assert(one.deep_view()[0] == one@[0].deep_view());
    let two = ended->Items_0;
    assert(two.deep_view().len() == two@.len());
    if two@.len() > 0 {
        assert(two.deep_view()[0] == two@[0].deep_view());
    }
    if two@.len() > 1 {
        assert(two.deep_view()[1] == two@[1].deep_view());
    }
}

/// An answer is complete once it stops, and an error that the provider reports ends the
/// stream with what it says.
pub proof fn law_stop_and_error_end_the_stream(
    event: AnthropicStreamErrorEvent,
    provider: ProviderId,
    first: &mut AnthropicToolCallAccumulator,
    second: &mut AnthropicToolCallAccumulator,
    tokens: &mut Option<u64>,
    later_tokens: &mut Option<u64>,
    stopped: AnthropicEventAction,
    failed: AnthropicEventAction,
)
    requires
        call_ensures(
            parse_anthropic_stream_payload,
            (AnthropicPayload::MessageStop, &provider, first, tokens),
            stopped,
        ),
        call_ensures(
            parse_anthropic_stream_payload,
            (AnthropicPayload::Error(event), &provider, second, later_tokens),
            failed,
        ),
    ensures
        stopped is Done,
        failed matches AnthropicEventAction::Error(ProviderError::ResponseParse {
            provider: named,
            message,
        }) && named.0@ == provider.0@ && (event.error.message matches Some(told) ==> message@
            == told@),
{
}

/// Every event type that a stream may bring is told apart from every other.
pub proof fn law_event_types_are_told_apart(kind: &str, r: AnthropicEventKind)
    requires
        call_ensures(anthropic_event_kind, (kind,), r),
    ensures
        r == AnthropicEventKind::MessageStop <==> kind@ == "message_stop"@,
        r == AnthropicEventKind::MessageStart <==> kind@ == "message_start"@,
        r == AnthropicEventKind::ContentBlockStart <==> kind@ == "content_block_start"@,
        r == AnthropicEventKind::ContentBlockDelta <==> kind@ == "content_block_delta"@,
        r == AnthropicEventKind::MessageDelta <==> kind@ == "message_delta"@,
        r == AnthropicEventKind::Error <==> kind@ == "error"@,
{
    reveal_strlit("message_stop");
    reveal_strlit("message_start");
    reveal_strlit("content_block_start");
    reveal_strlit("content_block_delta");
    reveal_strlit("message_delta");
    reveal_strlit("error");
    assert("message_stop"@.len() == 12 && "message_start"@.len() == 13 && "error"@.len() == 5);
    assert("message_delta"@.len() == 13 && "message_delta"@[8] == 'd' && "message_start"@[8] == 's');
    assert("content_block_start"@.len() == 19 && "content_block_delta"@.len() == 19);
    assert("content_block_start"@[14] == 's' && "content_block_delta"@[14] == 'd');
}

/// A batch does what its events do one after the other: with one more event behind a
/// batch that left its stream open, the items of that event come behind those of the
/// batch, and the stream ends where that event ends it. Behind a batch that ended its
/// stream nothing more comes. A stream that is over before it was ended has lost its
/// connection.
pub proof fn law_batch_does_what_its_events_do(
    whole: Vec<AnthropicPayload>,
    first: Vec<AnthropicPayload>,
    last: AnthropicPayload,
    provider: ProviderId,
    calls: (
        &mut AnthropicToolCallAccumulator,
        &mut AnthropicToolCallAccumulator,
        &mut AnthropicToolCallAccumulator,
    ),
    tokens: (&mut Option<u64>, &mut Option<u64>, &mut Option<u64>),
    at_once: StreamBatch,
    before: StreamBatch,
    action: AnthropicEventAction,
    lost: Option<StreamItem>,
)
    requires
        call_ensures(
            process_anthropic_payloads,
            (whole, &provider, calls.0, tokens.0),
            at_once,
        ),
        call_ensures(process_anthropic_payloads, (first, &provider, calls.1, tokens.1), before),
        call_ensures(
            parse_anthropic_stream_payload,
            (last, &provider, calls.2, tokens.2),
            action,
        ),
        call_ensures(anthropic_stream_end, (&at_once.end,), lost),
        whole@ == first@.push(last),
        calls.0.model() == calls.1.model(),
        *tokens.0 == *tokens.1,
        final(calls.1).model() == calls.2.model(),
        *final(tokens.1) == *tokens.2,
    ensures
        before.end !is Open ==> at_once.items.deep_view() == before.items.deep_view()
            && at_once.end.deep_view() == before.end.deep_view(),
        before.end is Open ==> match action {
            AnthropicEventAction::Items(items) => at_once.end is Open
                && at_once.items.deep_view() == before.items.deep_view() + items.deep_view(),
            AnthropicEventAction::Done => at_once.end is Done && at_once.items.deep_view()
                == before.items.deep_view(),
            AnthropicEventAction::Error(error) => (at_once.end matches BatchEnd::Failed(told)
                && told.deep_view() == error.deep_view()) && at_once.items.deep_view()
                == before.items.deep_view(),
        },
        at_once.end is Open <==> (lost matches Some(StreamItem::ConnectionLost(_))),
        at_once.end !is Open ==> lost is None,
{
    let models = whole.deep_view();
    assert(models.len() == whole@.len());
    assert(models.drop_last() =~= first.deep_view());
    assert(models.last() == whole@[whole@.len() - 1].deep_view());
}

/// Only the assistant speaks as itself; everybody else speaks as the user. The two names are
/// roles of an answer, and no other is.
pub proof fn law_roles_are_user_and_assistant(
    role: MessageRole,
    name: &'static str,
    word: &str,
    r: Option<MessageRole>,
)
    requires
        call_ensures(message_role_to_anthropic_role, (&role,), name),
        call_ensures(anthropic_role_to_message_role, (word,), r),
    ensures
        role == MessageRole::Assistant ==> name@ == "assistant"@,
        role != MessageRole::Assistant ==> name@ == "user"@,
        word@ == "user"@ ==> r == Some(MessageRole::User),
        word@ == "assistant"@ ==> r == Some(MessageRole::Assistant),
        r is Some ==> word@ == "user"@ || word@ == "assistant"@,
{
    reveal_strlit("user");
    reveal_strlit("assistant");
    assert("user"@.len() != "assistant"@.len());
}

/// A tool that starts gets the next place, and pieces of its arguments are added to it in
/// their order.
pub proof fn law_started_tool_gets_the_next_place(
    accumulator: &mut AnthropicToolCallAccumulator,
    block: usize,
    id: Option<String>,
    name: Option<String>,
    r: ToolCallDelta,
)
    requires
        old(accumulator).next_ordinal < usize::MAX,
        call_ensures(AnthropicToolCallAccumulator::start_tool, (accumulator, block, id, name), r),
    ensures
        r.index == old(accumulator).model().next,
        r.id.deep_view() == id.deep_view(),
        r.name.deep_view() == name.deep_view(),
        r.arguments is None,
        final(accumulator).model().next == old(accumulator).model().next + 1,
        final(accumulator).model().ordinals.dom().contains(block),
        final(accumulator).model().ordinals[block] == r.index,
        final(accumulator).model().calls.dom().contains(block),
        final(accumulator).model().calls[block].arguments.len() == 0,
{
}

/// A piece of a tool's arguments comes behind those before it, under the place that the tool
/// has, and no other tool changes.
pub proof fn law_pieces_of_arguments_add_up(
    accumulator: &mut AnthropicToolCallAccumulator,
    block: usize,
    piece: &str,
    r: ToolCallDelta,
    other: usize,
)
    requires
        old(accumulator).model().calls.dom().contains(block),
        old(accumulator).model().ordinals.dom().contains(block),
        call_ensures(AnthropicToolCallAccumulator::append_json, (accumulator, block, piece), r),
        other != block,
    ensures
        final(accumulator).model().calls[block].arguments == old(accumulator).model().calls[block].arguments + piece@,
        final(accumulator).model().calls[block].id == old(accumulator).model().calls[block].id,
        final(accumulator).model().ordinals == old(accumulator).model().ordinals,
        r.index == old(accumulator).model().ordinals[block],
        r.arguments is Some <==> piece@.len() > 0,
        r.arguments matches Some(arguments) ==> arguments@ == piece@,
        old(accumulator).model().calls.dom().contains(other) ==> final(accumulator).model().calls[other] == old(accumulator).model().calls[other],
{
}

} // verus!
