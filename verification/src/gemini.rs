//! Requests to Gemini, and what its answers mean.

use crate::encoding;
use crate::json;
use crate::schema;
use crate::text;
use crate::encoding::{decode_base64, encode_base64, fresh_uuid};
use crate::json::{Json, JsonTree, parse_json};
use crate::model::{
    clone_tool_calls, request_failed, response_parse, Context, ContextModel, InlineMedia,
    InlineMediaModel, Message, MessageModel, MessageRole, ProviderError, ProviderErrorModel,
    ProviderId, Response, ResponseModel, StreamItem, StreamItemModel, ToolCall, ToolCallDelta,
    ToolCallDeltaModel, ToolCallModel, UsageUpdate,
};
use crate::schema::{FunctionDecl, FunctionDeclModel, sanitize_schema_for_gemini};
use crate::stream::{append_items, BatchEnd, BatchEndModel, StreamBatch, StreamPayload};
use crate::text::{concat, concat4, join, same_text, trim};
use vstd::prelude::*;

verus! {

#[derive(Debug, PartialEq, Eq)]
pub struct GeminiInlineData {
    pub mime_type: String,
    pub data: String,
}

#[derive(Debug, PartialEq)]
pub struct GeminiFunctionCall {
    pub name: String,
    pub args: Json,
}

#[derive(Debug, PartialEq)]
pub struct GeminiFunctionResponse {
    pub name: String,
    pub response: Json,
}

/// One part of a turn. A thought signature has to be sent back as it came.
#[derive(Debug, PartialEq)]
pub struct GeminiPart {
    pub text: Option<String>,
    pub function_call: Option<GeminiFunctionCall>,
    pub function_response: Option<GeminiFunctionResponse>,
    pub thought_signature: Option<String>,
    pub inline_data: Option<GeminiInlineData>,
}

#[derive(Debug, PartialEq)]
pub struct GeminiContent {
    pub role: String,
    pub parts: Vec<GeminiPart>,
}

#[derive(Debug, PartialEq)]
pub struct GeminiFunctionDeclaration {
    pub name: String,
    pub description: Option<String>,
    pub parameters: Json,
}

#[derive(Debug, PartialEq)]
pub struct GeminiToolDeclaration {
    pub function_declarations: Vec<GeminiFunctionDeclaration>,
}

#[derive(Debug, PartialEq)]
pub struct GeminiGenerateContentRequest {
    pub contents: Vec<GeminiContent>,
    pub system_instruction: Option<GeminiContent>,
    pub tools: Option<Vec<GeminiToolDeclaration>>,
}

pub struct GeminiPartModel {
    pub text: Option<Seq<char>>,
    pub function_call: Option<(Seq<char>, JsonTree)>,
    pub function_response: Option<(Seq<char>, JsonTree)>,
    pub thought_signature: Option<Seq<char>>,
    pub inline_data: Option<(Seq<char>, Seq<char>)>,
}

pub struct GeminiContentModel {
    pub role: Seq<char>,
    pub parts: Seq<GeminiPartModel>,
}

pub struct GeminiDeclarationModel {
    pub name: Seq<char>,
    pub description: Option<Seq<char>>,
    pub parameters: JsonTree,
}

pub struct GeminiRequestModel {
    pub contents: Seq<GeminiContentModel>,
    pub system_instruction: Option<GeminiContentModel>,
    pub tools: Option<Seq<Seq<GeminiDeclarationModel>>>,
}

impl DeepView for GeminiInlineData {
    type V = (Seq<char>, Seq<char>);

    open spec fn deep_view(&self) -> (Seq<char>, Seq<char>) {
        (self.mime_type@, self.data@)
    }
}

impl DeepView for GeminiFunctionCall {
    type V = (Seq<char>, JsonTree);

    open spec fn deep_view(&self) -> (Seq<char>, JsonTree) {
        (self.name@, self.args.deep_view())
    }
}

impl DeepView for GeminiFunctionResponse {
    type V = (Seq<char>, JsonTree);

    open spec fn deep_view(&self) -> (Seq<char>, JsonTree) {
        (self.name@, self.response.deep_view())
    }
}

impl DeepView for GeminiPart {
    type V = GeminiPartModel;

    open spec fn deep_view(&self) -> GeminiPartModel {
        GeminiPartModel {
            text: self.text.deep_view(),
            function_call: self.function_call.deep_view(),
            function_response: self.function_response.deep_view(),
            thought_signature: self.thought_signature.deep_view(),
            inline_data: self.inline_data.deep_view(),
        }
    }
}

impl DeepView for GeminiContent {
    type V = GeminiContentModel;

    open spec fn deep_view(&self) -> GeminiContentModel {
        GeminiContentModel { role: self.role@, parts: self.parts.deep_view() }
    }
}

impl DeepView for GeminiFunctionDeclaration {
    type V = GeminiDeclarationModel;

    open spec fn deep_view(&self) -> GeminiDeclarationModel {
        GeminiDeclarationModel {
            name: self.name@,
            description: self.description.deep_view(),
            parameters: self.parameters.deep_view(),
        }
    }
}

impl DeepView for GeminiToolDeclaration {
    type V = Seq<GeminiDeclarationModel>;

    open spec fn deep_view(&self) -> Seq<GeminiDeclarationModel> {
        self.function_declarations.deep_view()
    }
}

impl DeepView for GeminiGenerateContentRequest {
    type V = GeminiRequestModel;

    open spec fn deep_view(&self) -> GeminiRequestModel {
        GeminiRequestModel {
            contents: self.contents.deep_view(),
            system_instruction: self.system_instruction.deep_view(),
            tools: self.tools.deep_view(),
        }
    }
}

pub open spec fn empty_part() -> GeminiPartModel {
    GeminiPartModel {
        text: None,
        function_call: None,
        function_response: None,
        thought_signature: None,
        inline_data: None,
    }
}

pub open spec fn text_part(text: Seq<char>) -> GeminiPartModel {
    GeminiPartModel { text: Some(text), ..empty_part() }
}

/// The signature that a tool call carries in its metadata.
pub open spec fn signature_of(metadata: Option<JsonTree>) -> Option<Seq<char>> {
    match metadata {
        Some(tree) => match json::member(tree, "thought_signature"@) {
            Some(JsonTree::Text(signature)) => Some(signature),
            _ => None,
        },
        None => None,
    }
}

pub open spec fn call_part(call: ToolCallModel) -> GeminiPartModel {
    GeminiPartModel {
        function_call: Some((call.name, call.arguments)),
        thought_signature: signature_of(call.metadata),
        ..empty_part()
    }
}

pub open spec fn media_part(media: InlineMediaModel) -> GeminiPartModel {
    GeminiPartModel {
        inline_data: Some((media.mime_type, encoding::base64_text(media.data))),
        ..empty_part()
    }
}

/// A text part where there is text other than white space, else none.
pub open spec fn text_parts(content: Option<Seq<char>>) -> Seq<GeminiPartModel> {
    match content {
        Some(text) => if text::trimmed(text).len() > 0 {
            seq![text_part(text)]
        } else {
            Seq::empty()
        },
        None => Seq::empty(),
    }
}

/// The name of the last of these calls that has that identity.
pub open spec fn name_in_calls(calls: Seq<ToolCallModel>, id: Seq<char>) -> Option<Seq<char>>
    decreases calls.len(),
{
    if calls.len() == 0 {
        None
    } else if calls.last().id == id {
        Some(calls.last().name)
    } else {
        name_in_calls(calls.drop_last(), id)
    }
}

/// The name of the last tool call of that identity that the assistant made.
pub open spec fn called_name(messages: Seq<MessageModel>, id: Seq<char>) -> Option<Seq<char>>
    decreases messages.len(),
{
    if messages.len() == 0 {
        None
    } else if messages.last().role == MessageRole::Assistant && name_in_calls(
        messages.last().tool_calls,
        id,
    ) is Some {
        name_in_calls(messages.last().tool_calls, id)
    } else {
        called_name(messages.drop_last(), id)
    }
}

/// The function that a tool message answers.
pub open spec fn answered_function(
    messages: Seq<MessageModel>,
    tool_call_id: Option<Seq<char>>,
) -> Seq<char> {
    match tool_call_id {
        Some(id) => match called_name(messages, id) {
            Some(name) => name,
            None => id,
        },
        None => "unknown_function"@,
    }
}

/// The answer of a tool, given what it parses to: a JSON object as it is, and anything
/// else as a text inside one.
pub open spec fn answer_object(content: Option<Seq<char>>, parsed: Option<JsonTree>) -> JsonTree {
    match parsed {
        Some(JsonTree::Object(members)) => JsonTree::Object(members),
        _ => JsonTree::Object(
            seq![
                (
                    "result"@,
                    JsonTree::Text(
                        match content {
                            Some(text) => text,
                            None => Seq::empty(),
                        },
                    ),
                ),
            ],
        ),
    }
}

/// The answer of a tool: a JSON object as it is, and anything else inside one.
pub open spec fn answer_tree(content: Option<Seq<char>>) -> JsonTree {
    answer_object(
        content,
        match content {
            Some(text) => json::parsed_tree(text),
            None => None,
        },
    )
}

pub open spec fn user_parts(message: MessageModel) -> Seq<GeminiPartModel> {
    text_parts(message.content) + message.attachments.map_values(
        |media: InlineMediaModel| media_part(media),
    )
}

pub open spec fn assistant_parts(message: MessageModel) -> Seq<GeminiPartModel> {
    text_parts(message.content) + message.tool_calls.map_values(
        |call: ToolCallModel| call_part(call),
    )
}

/// The turn that a message becomes, unless it has nothing to say there.
pub open spec fn turn_of(messages: Seq<MessageModel>, message: MessageModel) -> Seq<
    GeminiContentModel,
> {
    match message.role {
        MessageRole::System => Seq::empty(),
        MessageRole::User => if user_parts(message).len() == 0 {
            Seq::empty()
        } else {
            seq![GeminiContentModel { role: "user"@, parts: user_parts(message) }]
        },
        MessageRole::Assistant => if assistant_parts(message).len() == 0 {
            Seq::empty()
        } else {
            seq![GeminiContentModel { role: "model"@, parts: assistant_parts(message) }]
        },
        MessageRole::Tool => seq![
            GeminiContentModel {
                role: "user"@,
                parts: seq![
                    GeminiPartModel {
                        function_response: Some(
                            (
                                answered_function(messages, message.tool_call_id),
                                answer_tree(message.content),
                            ),
                        ),
                        ..empty_part()
                    },
                ],
            },
        ],
    }
}

/// The turns that the first messages become.
pub open spec fn turns_of(messages: Seq<MessageModel>, first: Seq<MessageModel>) -> Seq<
    GeminiContentModel,
>
    decreases first.len(),
{
    if first.len() == 0 {
        Seq::empty()
    } else {
        turns_of(messages, first.drop_last()) + turn_of(messages, first.last())
    }
}

/// What system messages say, part by part.
pub open spec fn system_parts(messages: Seq<MessageModel>) -> Seq<GeminiPartModel>
    decreases messages.len(),
{
    if messages.len() == 0 {
        Seq::empty()
    } else if messages.last().role == MessageRole::System {
        system_parts(messages.drop_last()) + text_parts(messages.last().content)
    } else {
        system_parts(messages.drop_last())
    }
}

pub open spec fn declaration_of(tool: FunctionDeclModel) -> GeminiDeclarationModel {
    GeminiDeclarationModel {
        name: tool.name,
        description: tool.description,
        parameters: schema::gemini_schema(schema::schema_tree(tool.parameters)),
    }
}

/// The request that a conversation becomes.
pub open spec fn gemini_request(context: ContextModel) -> GeminiRequestModel {
    GeminiRequestModel {
        contents: turns_of(context.messages, context.messages),
        system_instruction: if system_parts(context.messages).len() == 0 {
            None
        } else {
            Some(GeminiContentModel { role: "user"@, parts: system_parts(context.messages) })
        },
        tools: if context.tools.len() == 0 {
            None
        } else {
            Some(seq![context.tools.map_values(|tool: FunctionDeclModel| declaration_of(tool))])
        },
    }
}

impl GeminiPart {
    pub fn text(text: &str) -> (r: Self)
        ensures
            r.deep_view() == text_part(text@),
    {
        GeminiPart {
            text: Some(text.to_owned()),
            function_call: None,
            function_response: None,
            thought_signature: None,
            inline_data: None,
        }
    }

    pub fn function_call(name: &str, args: &Json, thought_signature: Option<&str>) -> (r: Self)
        ensures
            r.deep_view() == (GeminiPartModel {
                function_call: Some((name@, args.deep_view())),
                thought_signature: thought_signature.deep_view(),
                ..empty_part()
            }),
    {
        let signature = match thought_signature {
            Some(text) => Some(text.to_owned()),
            None => None,
        };
        GeminiPart {
            text: None,
            function_call: Some(GeminiFunctionCall { name: name.to_owned(), args: args.clone() }),
            function_response: None,
            thought_signature: signature,
            inline_data: None,
        }
    }

    pub fn function_response(name: &str, response: Json) -> (r: Self)
        ensures
            r.deep_view() == (GeminiPartModel {
                function_response: Some((name@, response.deep_view())),
                ..empty_part()
            }),
    {
        GeminiPart {
            text: None,
            function_call: None,
            function_response: Some(GeminiFunctionResponse { name: name.to_owned(), response }),
            thought_signature: None,
            inline_data: None,
        }
    }

    pub fn inline_data(mime_type: &str, data: &[u8]) -> (r: Self)
        ensures
            r.deep_view() == media_part(InlineMediaModel { mime_type: mime_type@, data: data@ }),
    {
        GeminiPart {
            text: None,
            function_call: None,
            function_response: None,
            thought_signature: None,
            inline_data: Some(
                GeminiInlineData { mime_type: mime_type.to_owned(), data: encode_base64(data) },
            ),
        }
    }
}

fn push_text_parts(parts: &mut Vec<GeminiPart>, content: &Option<String>)
    ensures
        final(parts).deep_view() == old(parts).deep_view() + text_parts(content.deep_view()),
{
    if let Some(text) = content {
        if !trim(text.as_str()).as_str().is_empty() {
            parts.push(GeminiPart::text(text.as_str()));
        }
    }
    proof {
        assert(parts.deep_view() =~= old(parts).deep_view() + text_parts(content.deep_view()));
    }
}

fn user_turn(message: &Message) -> (r: Vec<GeminiPart>)
    ensures
        r.deep_view() == user_parts(message.deep_view()),
{
    let mut parts: Vec<GeminiPart> = Vec::new();
    proof {
        assert(parts.deep_view() =~= Seq::empty());
    }
    push_text_parts(&mut parts, &message.content);
    let ghost start = parts.deep_view();
    let mut i: usize = 0;
    let ghost medias = message.deep_view().attachments.map_values(
        |media: InlineMediaModel| media_part(media),
    );
    proof {
        assert(start =~= text_parts(message.content.deep_view()));
        assert(start + medias.take(0) =~= start);
    }
    while i < message.attachments.len()
        invariant
            i <= message.attachments.len(),
            medias == message.deep_view().attachments.map_values(
                |media: InlineMediaModel| media_part(media),
            ),
            parts.deep_view() == start + medias.take(i as int),
        decreases message.attachments.len() - i,
    {
        let attachment = &message.attachments[i];
        let ghost before = parts.deep_view();
        parts.push(
            GeminiPart::inline_data(attachment.mime_type.as_str(), attachment.data.as_slice()),
        );
        proof {
            assert(parts.deep_view() =~= before.push(medias[i as int]));
            assert(medias.take(i as int + 1) =~= medias.take(i as int).push(medias[i as int]));
            assert(start + medias.take(i as int + 1) =~= (start + medias.take(i as int)).push(
                medias[i as int],
            ));
        }
        i += 1;
    }
    proof {
        assert(medias.take(i as int) =~= medias);
    }
    parts
}

fn assistant_turn(message: &Message) -> (r: Vec<GeminiPart>)
    ensures
        r.deep_view() == assistant_parts(message.deep_view()),
{
    let mut parts: Vec<GeminiPart> = Vec::new();
    proof {
        assert(parts.deep_view() =~= Seq::empty());
    }
    push_text_parts(&mut parts, &message.content);
    let ghost start = parts.deep_view();
    let mut i: usize = 0;
    let ghost calls = message.deep_view().tool_calls.map_values(
        |call: ToolCallModel| call_part(call),
    );
    proof {
        assert(start =~= text_parts(message.content.deep_view()));
        assert(start + calls.take(0) =~= start);
    }
    while i < message.tool_calls.len()
        invariant
            i <= message.tool_calls.len(),
            calls == message.deep_view().tool_calls.map_values(
                |call: ToolCallModel| call_part(call),
            ),
            parts.deep_view() == start + calls.take(i as int),
        decreases message.tool_calls.len() - i,
    {
        let call = &message.tool_calls[i];
        let signature: Option<&str> = match &call.metadata {
            Some(metadata) => match metadata.get("thought_signature") {
                Some(value) => value.as_str(),
                None => None,
            },
            None => None,
        };
        let ghost before = parts.deep_view();
        parts.push(GeminiPart::function_call(call.name.as_str(), &call.arguments, signature));
        proof {
            assert(parts.deep_view() =~= before.push(calls[i as int]));
            assert(calls.take(i as int + 1) =~= calls.take(i as int).push(calls[i as int]));
            assert(start + calls.take(i as int + 1) =~= (start + calls.take(i as int)).push(
                calls[i as int],
            ));
        }
        i += 1;
    }
    proof {
        assert(calls.take(i as int) =~= calls);
    }
    parts
}

fn find_in_calls(calls: &Vec<ToolCall>, id: &str) -> (r: Option<String>)
    ensures
        r.deep_view() == name_in_calls(calls.deep_view(), id@),
{
    let mut i: usize = calls.len();
    proof {
        assert(calls.deep_view().take(i as int) =~= calls.deep_view());
    }
    while i > 0
        invariant
            i <= calls.len(),
            name_in_calls(calls.deep_view(), id@) == name_in_calls(
                calls.deep_view().take(i as int),
                id@,
            ),
        decreases i,
    {
        proof {
            assert(calls.deep_view().take(i as int).drop_last() =~= calls.deep_view().take(
                i as int - 1,
            ));
            assert(calls.deep_view().take(i as int).last() == calls@[i as int - 1].deep_view());
        }
        i -= 1;
        if same_text(calls[i].id.as_str(), id) {
            return Some(calls[i].name.clone());
        }
    }
    None
}

fn find_called_name(messages: &Vec<Message>, id: &str) -> (r: Option<String>)
    ensures
        r.deep_view() == called_name(messages.deep_view(), id@),
{
    let mut i: usize = messages.len();
    let ghost models = messages.deep_view();
    proof {
        assert(models.take(i as int) =~= models);
    }
    while i > 0
        invariant
            i <= messages.len(),
            models == messages.deep_view(),
            called_name(models, id@) == called_name(models.take(i as int), id@),
        decreases i,
    {
        proof {
            assert(models.take(i as int).drop_last() =~= models.take(i as int - 1));
            assert(models.take(i as int).last() == messages@[i as int - 1].deep_view());
        }
        i -= 1;
        if messages[i].role == MessageRole::Assistant {
            let found = find_in_calls(&messages[i].tool_calls, id);
            if found.is_some() {
                return found;
            }
        }
    }
    None
}

/// The answer of a tool, given what it parses to, if it does: a JSON object as it is, and
/// anything else as a text inside one.
pub fn tool_answer(content: &Option<String>, parsed: Option<Json>) -> (r: Json)
    ensures
        r.deep_view() == answer_object(content.deep_view(), parsed.deep_view()),
{
    if let Some(json) = parsed {
        if json.is_object() {
            return json;
        }
    }
    let text = match content {
        Some(text) => text.clone(),
        None => String::new(),
    };
    let mut members: Vec<(String, Json)> = Vec::new();
    members.push(("result".to_owned(), Json::Text(text)));
    let wrapped = Json::Object(members);
    proof {
        assert(members@[0].1.deep_view() == JsonTree::Text(text@));
        assert(wrapped.deep_view()->Object_0 =~= seq![("result"@, JsonTree::Text(text@))]);
        if content is None {
            assert(text@ =~= Seq::empty());
        }
    }
    wrapped
}

fn tool_turn(messages: &Vec<Message>, message: &Message) -> (r: GeminiPart)
    ensures
        r.deep_view() == (GeminiPartModel {
            function_response: Some(
                (
                    answered_function(messages.deep_view(), message.deep_view().tool_call_id),
                    answer_tree(message.deep_view().content),
                ),
            ),
            ..empty_part()
        }),
{
    let name: String = match &message.tool_call_id {
        Some(id) => match find_called_name(messages, id.as_str()) {
            Some(name) => name,
            None => id.clone(),
        },
        None => "unknown_function".to_owned(),
    };
    let parsed: Option<Json> = match &message.content {
        Some(text) => parse_json(text.as_str()).ok(),
        None => None,
    };
    GeminiPart::function_response(name.as_str(), tool_answer(&message.content, parsed))
}

impl GeminiFunctionDeclaration {
    pub fn from(tool: &FunctionDecl) -> (r: Self)
        ensures
            r.deep_view() == declaration_of(tool.deep_view()),
    {
        let mut parameters = tool.parameters.to_json();
        sanitize_schema_for_gemini(&mut parameters);
        GeminiFunctionDeclaration {
            name: tool.name.clone(),
            description: tool.description.clone(),
            parameters,
        }
    }
}

fn declarations(tools: &Vec<FunctionDecl>) -> (r: Vec<GeminiFunctionDeclaration>)
    ensures
        r.deep_view() == tools.deep_view().map_values(
            |tool: FunctionDeclModel| declaration_of(tool),
        ),
{
    let mut out: Vec<GeminiFunctionDeclaration> = Vec::new();
    let mut i: usize = 0;
    while i < tools.len()
        invariant
            i <= tools.len(),
            out.len() == i,
            forall|k: int|
                0 <= k < i ==> (#[trigger] out@[k]).deep_view() == declaration_of(
                    tools@[k].deep_view(),
                ),
        decreases tools.len() - i,
    {
        out.push(GeminiFunctionDeclaration::from(&tools[i]));
        i += 1;
    }
    proof {
        assert(out.deep_view() =~= tools.deep_view().map_values(
            |tool: FunctionDeclModel| declaration_of(tool),
        ));
    }
    out
}

impl GeminiGenerateContentRequest {
    /// The request that a conversation becomes. It needs a turn of somebody other
    /// than the system.
    pub fn from_context(context: &Context) -> (r: Result<Self, ProviderError>)
        ensures
            match r {
                Ok(request) => {
                    &&& turns_of(
                        context.deep_view().messages,
                        context.deep_view().messages,
                    ).len() > 0
                    &&& request.deep_view() == gemini_request(context.deep_view())
                },
                Err(error) => {
                    &&& turns_of(
                        context.deep_view().messages,
                        context.deep_view().messages,
                    ).len() == 0
                    &&& error.deep_view() == (ProviderErrorModel::RequestFailed {
                        provider: context.deep_view().provider,
                        message: "Gemini request requires at least one non-system message"@,
                    })
                },
            },
    {
        let ghost models = context.messages.deep_view();
        let mut system: Vec<GeminiPart> = Vec::new();
        let mut contents: Vec<GeminiContent> = Vec::new();
        let mut i: usize = 0;
        proof {
            assert(models.take(0) =~= Seq::empty());
            assert(system.deep_view() =~= Seq::empty());
            assert(contents.deep_view() =~= Seq::empty());
        }
        while i < context.messages.len()
            invariant
                i <= context.messages.len(),
                models == context.messages.deep_view(),
                system.deep_view() == system_parts(models.take(i as int)),
                contents.deep_view() == turns_of(models, models.take(i as int)),
            decreases context.messages.len() - i,
        {
            let message = &context.messages[i];
            let ghost before = contents.deep_view();
            let ghost turn = turn_of(models, message.deep_view());
            proof {
                assert(models.take(i as int + 1).drop_last() =~= models.take(i as int));
                assert(models.take(i as int + 1).last() == message.deep_view());
            }
            match message.role {
                MessageRole::System => {
                    push_text_parts(&mut system, &message.content);
                    proof {
                        assert(before + turn =~= before);
                    }
                },
                MessageRole::User => {
                    let parts = user_turn(message);
                    if parts.len() > 0 {
                        contents.push(GeminiContent { role: "user".to_owned(), parts });
                    }
                },
                MessageRole::Assistant => {
                    let parts = assistant_turn(message);
                    if parts.len() > 0 {
                        contents.push(GeminiContent { role: "model".to_owned(), parts });
                    }
                },
                MessageRole::Tool => {
                    let mut parts: Vec<GeminiPart> = Vec::new();
                    parts.push(tool_turn(&context.messages, message));
                    proof {
                        assert(parts.deep_view() =~= turn[0].parts);
                    }
                    contents.push(GeminiContent { role: "user".to_owned(), parts });
                },
            }
            proof {
                assert(contents.deep_view() =~= before + turn);
            }
            i += 1;
        }
        proof {
            assert(models.take(i as int) =~= models);
        }
        let system_instruction = if system.len() == 0 {
            None
        } else {
            Some(GeminiContent { role: "user".to_owned(), parts: system })
        };
        let tools = if context.tools.len() == 0 {
            None
        } else {
            let mut groups: Vec<GeminiToolDeclaration> = Vec::new();
            groups.push(
                GeminiToolDeclaration { function_declarations: declarations(&context.tools) },
            );
            proof {
                assert(groups.deep_view() =~= gemini_request(context.deep_view()).tools->0);
            }
            Some(groups)
        };
        if contents.len() == 0 {
            return Err(
                request_failed(
                    &context.provider,
                    "Gemini request requires at least one non-system message".to_owned(),
                ),
            );
        }
        Ok(GeminiGenerateContentRequest { contents, system_instruction, tools })
    }
}

#[derive(Debug, PartialEq)]
pub struct GeminiCandidate {
    pub content: Option<GeminiContent>,
    pub finish_reason: Option<String>,
}

#[derive(Debug, Clone, Copy, PartialEq, Eq)]
pub struct GeminiUsageMetadata {
    pub prompt_token_count: Option<u64>,
    pub candidates_token_count: Option<u64>,
    pub total_token_count: Option<u64>,
}

/// An answer of Gemini, or one event of a streamed answer.
#[derive(Debug, PartialEq)]
pub struct GeminiGenerateContentResponse {
    pub candidates: Vec<GeminiCandidate>,
    pub usage_metadata: Option<GeminiUsageMetadata>,
}

pub struct GeminiCandidateModel {
    pub content: Option<GeminiContentModel>,
    pub finish_reason: Option<Seq<char>>,
}

pub struct GeminiResponseModel {
    pub candidates: Seq<GeminiCandidateModel>,
    pub usage_metadata: Option<GeminiUsageMetadata>,
}

impl DeepView for GeminiCandidate {
    type V = GeminiCandidateModel;

    open spec fn deep_view(&self) -> GeminiCandidateModel {
        GeminiCandidateModel {
            content: self.content.deep_view(),
            finish_reason: self.finish_reason.deep_view(),
        }
    }
}

impl DeepView for GeminiGenerateContentResponse {
    type V = GeminiResponseModel;

    open spec fn deep_view(&self) -> GeminiResponseModel {
        GeminiResponseModel {
            candidates: self.candidates.deep_view(),
            usage_metadata: self.usage_metadata,
        }
    }
}

pub open spec fn usage_of(usage: GeminiUsageMetadata) -> UsageUpdate {
    UsageUpdate {
        prompt_tokens: usage.prompt_token_count,
        completion_tokens: usage.candidates_token_count,
        total_tokens: usage.total_token_count,
    }
}

/// The metadata in which a tool call keeps its signature.
pub open spec fn signature_metadata(signature: Option<Seq<char>>) -> Option<JsonTree> {
    match signature {
        Some(text) => Some(JsonTree::Object(seq![("thought_signature"@, JsonTree::Text(text))])),
        None => None,
    }
}

/// What the parts of an answer amount to.
pub struct Gathered {
    pub texts: Seq<Seq<char>>,
    pub calls: Seq<ToolCallModel>,
    pub media: Seq<InlineMediaModel>,
}

pub open spec fn decode_failure(message: Seq<char>) -> Seq<char> {
    "failed to decode Gemini inlineData attachment: "@ + message
}

/// What one part adds. The identity of its tool call is the next unused one.
pub open spec fn gather_part(
    so_far: Gathered,
    part: GeminiPartModel,
    ids: Seq<Seq<char>>,
) -> Result<Gathered, Seq<char>> {
    let texts = match part.text {
        Some(text) => if text.len() > 0 {
            so_far.texts.push(text)
        } else {
            so_far.texts
        },
        None => so_far.texts,
    };
    let calls = match part.function_call {
        Some(call) => so_far.calls.push(
            ToolCallModel {
                id: ids[so_far.calls.len() as int],
                name: call.0,
                arguments: call.1,
                metadata: signature_metadata(part.thought_signature),
            },
        ),
        None => so_far.calls,
    };
    match part.inline_data {
        None => Ok(Gathered { texts, calls, media: so_far.media }),
        Some(data) => match encoding::base64_bytes(data.1) {
            Ok(bytes) => Ok(
                Gathered {
                    texts,
                    calls,
                    media: so_far.media.push(InlineMediaModel { mime_type: data.0, data: bytes }),
                },
            ),
            Err(message) => Err(decode_failure(message)),
        },
    }
}

/// What the parts of an answer amount to, or the first failure among them.
pub open spec fn gather(parts: Seq<GeminiPartModel>, ids: Seq<Seq<char>>) -> Result<
    Gathered,
    Seq<char>,
>
    decreases parts.len(),
{
    if parts.len() == 0 {
        Ok(Gathered { texts: Seq::empty(), calls: Seq::empty(), media: Seq::empty() })
    } else {
        match gather(parts.drop_last(), ids) {
            Ok(so_far) => gather_part(so_far, parts.last(), ids),
            Err(message) => Err(message),
        }
    }
}

pub open spec fn parts_of(candidate: GeminiCandidateModel) -> Seq<GeminiPartModel> {
    match candidate.content {
        Some(content) => content.parts,
        None => Seq::empty(),
    }
}

/// The answer that a response means, given identities for its tool calls.
pub open spec fn gemini_answer(response: GeminiResponseModel, ids: Seq<Seq<char>>) -> Result<
    ResponseModel,
    Seq<char>,
> {
    if response.candidates.len() == 0 {
        Err("Gemini response did not contain any candidates"@)
    } else {
        match gather(parts_of(response.candidates[0]), ids) {
            Err(message) => Err(message),
            Ok(gathered) => Ok(
                ResponseModel {
                    message: MessageModel {
                        role: MessageRole::Assistant,
                        content: if gathered.texts.len() == 0 {
                            None
                        } else {
                            Some(text::joined(gathered.texts, ""@))
                        },
                        tool_calls: gathered.calls,
                        tool_call_id: None,
                        attachments: gathered.media,
                    },
                    tool_calls: gathered.calls,
                    finish_reason: response.candidates[0].finish_reason,
                    usage: match response.usage_metadata {
                        Some(usage) => Some(usage_of(usage)),
                        None => None,
                    },
                },
            ),
        }
    }
}

/// How many of these parts call a tool.
pub open spec fn calls_in_parts(parts: Seq<GeminiPartModel>) -> nat
    decreases parts.len(),
{
    if parts.len() == 0 {
        0
    } else {
        calls_in_parts(parts.drop_last()) + if parts.last().function_call is Some {
            1nat
        } else {
            0nat
        }
    }
}

proof fn lemma_calls_in_first_parts(parts: Seq<GeminiPartModel>, upto: int)
    requires
        0 <= upto <= parts.len(),
    ensures
        calls_in_parts(parts.take(upto)) <= calls_in_parts(parts),
    decreases parts.len() - upto,
{
    if upto == parts.len() {
        assert(parts.take(upto) =~= parts);
    } else {
        assert(parts.take(upto + 1).drop_last() =~= parts.take(upto));
        lemma_calls_in_first_parts(parts, upto + 1);
    }
}

fn metadata_for(signature: &Option<String>) -> (r: Option<Json>)
    ensures
        r.deep_view() == signature_metadata(signature.deep_view()),
{
    match signature {
        Some(text) => {
            let mut members: Vec<(String, Json)> = Vec::new();
            members.push(("thought_signature".to_owned(), Json::Text(text.clone())));
            let json = Json::Object(members);
            proof {
                assert(members@[0].1.deep_view() == JsonTree::Text(text@));
                assert(json.deep_view()->Object_0 =~= signature_metadata(
                    signature.deep_view(),
                )->0->Object_0);
            }
            Some(json)
        },
        None => None,
    }
}

/// The media that a part holds, given what its data decodes to, or why it does not.
pub fn decoded_media(mime_type: &str, decoded: Result<Vec<u8>, String>) -> (r: Result<
    InlineMedia,
    String,
>)
    ensures
        match (r, decoded) {
            (Ok(media), Ok(data)) => media.deep_view() == (InlineMediaModel {
                mime_type: mime_type@,
                data: data@,
            }),
            (Err(message), Err(error)) => message@ == decode_failure(error@),
            _ => false,
        },
{
    match decoded {
        Ok(data) => Ok(InlineMedia { mime_type: mime_type.to_owned(), data }),
        Err(error) => Err(
            concat("failed to decode Gemini inlineData attachment: ", error.as_str()),
        ),
    }
}

/// The answer that a response means, with the given identities for its tool calls,
/// in their order.
pub fn normalize_gemini_response_with_ids(
    response: GeminiGenerateContentResponse,
    provider: &ProviderId,
    ids: &Vec<String>,
) -> (r: Result<Response, ProviderError>)
    requires
        response.candidates@.len() > 0 ==> calls_in_parts(
            parts_of(response.candidates@[0].deep_view()),
        ) <= ids@.len(),
    ensures
        match (r, gemini_answer(response.deep_view(), ids.deep_view())) {
            (Ok(answer), Ok(expected)) => answer.deep_view() == expected,
            (Err(error), Err(message)) => error.deep_view() == (
            ProviderErrorModel::ResponseParse { provider: provider.deep_view(), message }),
            _ => false,
        },
{
    let ghost model = response.deep_view();
    let ghost names = ids.deep_view();
    let usage = match response.usage_metadata {
        Some(usage) => Some(
            UsageUpdate {
                prompt_tokens: usage.prompt_token_count,
                completion_tokens: usage.candidates_token_count,
                total_tokens: usage.total_token_count,
            },
        ),
        None => None,
    };
    if response.candidates.len() == 0 {
        return Err(
            response_parse(provider, "Gemini response did not contain any candidates".to_owned()),
        );
    }
    let candidate = &response.candidates[0];
    let mut texts: Vec<String> = Vec::new();
    let mut calls: Vec<ToolCall> = Vec::new();
    let mut media: Vec<InlineMedia> = Vec::new();
    proof {
        assert(texts.deep_view() =~= Seq::empty());
        assert(calls.deep_view() =~= Seq::empty());
        assert(media.deep_view() =~= Seq::empty());
        assert(model.candidates[0] == candidate.deep_view());
    }
    if let Some(content) = &candidate.content {
        let ghost parts = content.parts.deep_view();
        let mut i: usize = 0;
        proof {
            assert(parts.take(0) =~= Seq::empty());
        }
        while i < content.parts.len()
            invariant
                i <= content.parts.len(),
                parts == content.parts.deep_view(),
                parts == parts_of(model.candidates[0]),
                model.candidates.len() > 0,
                names == ids.deep_view(),
                calls_in_parts(parts) <= ids.len(),
                calls.len() == calls_in_parts(parts.take(i as int)),
                gather(parts.take(i as int), names) == Ok::<Gathered, Seq<char>>(
                    Gathered {
                        texts: texts.deep_view(),
                        calls: calls.deep_view(),
                        media: media.deep_view(),
                    },
                ),
                gemini_answer(model, names) == gemini_answer(response.deep_view(), ids.deep_view()),
            decreases content.parts.len() - i,
        {
            let part = &content.parts[i];
            let ghost so_far = Gathered {
                texts: texts.deep_view(),
                calls: calls.deep_view(),
                media: media.deep_view(),
            };
            proof {
                assert(parts.take(i as int + 1).drop_last() =~= parts.take(i as int));
                assert(parts.take(i as int + 1).last() == part.deep_view());
                lemma_calls_in_first_parts(parts, i as int + 1);
            }
            if let Some(text) = &part.text {
                if !text.as_str().is_empty() {
                    texts.push(text.clone());
                    proof {
                        assert(texts.deep_view() =~= so_far.texts.push(text@));
                    }
                }
            }
            if let Some(call) = &part.function_call {
                let id = ids[calls.len()].clone();
                calls.push(
                    ToolCall {
                        id,
                        name: call.name.clone(),
                        arguments: call.args.clone(),
                        metadata: metadata_for(&part.thought_signature),
                    },
                );
                proof {
                    assert(calls.deep_view() =~= so_far.calls.push(calls.deep_view().last()));
                }
            }
            if let Some(inline_data) = &part.inline_data {
                let decoded = decode_base64(inline_data.data.as_str());
                match decoded_media(inline_data.mime_type.as_str(), decoded) {
                    Ok(one) => {
                        media.push(one);
                        proof {
                            assert(media.deep_view() =~= so_far.media.push(
                                media.deep_view().last(),
                            ));
                        }
                    },
                    Err(message) => {
                        proof {
                            lemma_gather_stops(parts, i as int + 1, names);
                        }
                        return Err(response_parse(provider, message));
                    },
                }
            }
            i += 1;
        }
        proof {
            assert(parts.take(i as int) =~= parts);
        }
    }
    let content = if texts.len() == 0 {
        None
    } else {
        Some(join(&texts, ""))
    };
    let finish_reason = candidate.finish_reason.clone();
    let tool_calls = clone_tool_calls(&calls);
    let message = Message {
        role: MessageRole::Assistant,
        content,
        tool_calls: calls,
        tool_call_id: None,
        attachments: media,
    };
    Ok(Response { message, tool_calls, finish_reason, usage })
}

proof fn lemma_gather_stops(parts: Seq<GeminiPartModel>, upto: int, ids: Seq<Seq<char>>)
    requires
        0 <= upto <= parts.len(),
        gather(parts.take(upto), ids) is Err,
    ensures
        gather(parts, ids) == gather(parts.take(upto), ids),
    decreases parts.len() - upto,
{
    if upto == parts.len() {
        assert(parts.take(upto) =~= parts);
    } else {
        assert(parts.take(upto + 1).drop_last() =~= parts.take(upto));
        lemma_gather_stops(parts, upto + 1, ids);
    }
}

/// Each of these identities has the form of a UUID.
pub open spec fn are_fresh_ids(ids: Seq<Seq<char>>) -> bool {
    forall|i: int| 0 <= i < ids.len() ==> encoding::is_uuid_text(#[trigger] ids[i])
}

/// Adds a fresh identity for every tool call among the parts of a candidate.
fn push_fresh_ids(ids: &mut Vec<String>, candidate: &GeminiCandidate)
    requires
        are_fresh_ids(old(ids).deep_view()),
    ensures
        are_fresh_ids(final(ids).deep_view()),
        final(ids)@.len() == old(ids)@.len() + calls_in_parts(parts_of(candidate.deep_view())),
{
    if let Some(content) = &candidate.content {
        let ghost parts = content.parts.deep_view();
        let mut i: usize = 0;
        proof {
            assert(parts.take(0) =~= Seq::empty());
        }
        while i < content.parts.len()
            invariant
                i <= content.parts.len(),
                parts == content.parts.deep_view(),
                are_fresh_ids(ids.deep_view()),
                ids@.len() == old(ids)@.len() + calls_in_parts(parts.take(i as int)),
            decreases content.parts.len() - i,
        {
            proof {
                assert(parts.take(i as int + 1).drop_last() =~= parts.take(i as int));
                assert(parts.take(i as int + 1).last() == content.parts@[i as int].deep_view());
            }
            if content.parts[i].function_call.is_some() {
                let id = fresh_uuid();
                let ghost before = ids.deep_view();
                ids.push(id);
                proof {
                    assert(ids.deep_view() =~= before.push(id@));
                }
            }
            i += 1;
        }
        proof {
            assert(parts.take(i as int) =~= parts);
        }
    }
}

/// How many tool calls the first candidate of a response makes.
pub open spec fn calls_in_answer(response: GeminiResponseModel) -> nat {
    if response.candidates.len() == 0 {
        0
    } else {
        calls_in_parts(parts_of(response.candidates[0]))
    }
}

/// That is what a response means whose tool calls get these identities, each of them
/// fresh.
pub open spec fn answers_with_ids(
    response: GeminiResponseModel,
    provider: Seq<char>,
    ids: Seq<Seq<char>>,
    result: Result<Response, ProviderError>,
) -> bool {
    &&& are_fresh_ids(ids)
    &&& ids.len() == calls_in_answer(response)
    &&& match (result, gemini_answer(response, ids)) {
        (Ok(answer), Ok(expected)) => answer.deep_view() == expected,
        (Err(error), Err(message)) => error.deep_view() == (ProviderErrorModel::ResponseParse {
            provider,
            message,
        }),
        _ => false,
    }
}

/// The answer that a response means. Gemini gives its tool calls no identities, so
/// each gets a fresh one.
pub fn normalize_gemini_response(
    response: GeminiGenerateContentResponse,
    provider: &ProviderId,
) -> (r: Result<Response, ProviderError>)
    ensures
        exists|ids: Seq<Seq<char>>| #[trigger]
            answers_with_ids(response.deep_view(), provider.deep_view(), ids, r),
{
    let mut ids: Vec<String> = Vec::new();
    if response.candidates.len() > 0 {
        push_fresh_ids(&mut ids, &response.candidates[0]);
    }
    let ghost model = response.deep_view();
    let result = normalize_gemini_response_with_ids(response, provider, &ids);
    proof {
        assert(answers_with_ids(model, provider.deep_view(), ids.deep_view(), result));
    }
    result
}

/// What one part of a streamed answer hands out, behind so many tool calls.
pub open spec fn part_items(part: GeminiPartModel, calls: nat, ids: Seq<Seq<char>>) -> Seq<
    StreamItemModel,
> {
    (match part.text {
        Some(text) => if text.len() > 0 {
            seq![StreamItemModel::Text(text)]
        } else {
            Seq::empty()
        },
        None => Seq::empty(),
    }) + (match part.function_call {
        Some(call) => seq![
            StreamItemModel::ToolCallDelta(
                ToolCallDeltaModel {
                    index: calls as usize,
                    id: Some(ids[calls as int]),
                    name: Some(call.0),
                    arguments: Some(json::tree_text(call.1)),
                    metadata: signature_metadata(part.thought_signature),
                },
            ),
        ],
        None => Seq::empty(),
    })
}

pub open spec fn parts_items(
    parts: Seq<GeminiPartModel>,
    calls: nat,
    ids: Seq<Seq<char>>,
) -> Seq<StreamItemModel>
    decreases parts.len(),
{
    if parts.len() == 0 {
        Seq::empty()
    } else {
        parts_items(parts.drop_last(), calls, ids) + part_items(
            parts.last(),
            calls + calls_in_parts(parts.drop_last()),
            ids,
        )
    }
}

pub open spec fn calls_in_candidates(candidates: Seq<GeminiCandidateModel>) -> nat
    decreases candidates.len(),
{
    if candidates.len() == 0 {
        0
    } else {
        calls_in_candidates(candidates.drop_last()) + calls_in_parts(parts_of(candidates.last()))
    }
}

/// What the candidates of a streamed answer hand out: their parts, then why they
/// ended, if they say so. Tool calls are numbered through.
pub open spec fn candidates_items(
    candidates: Seq<GeminiCandidateModel>,
    ids: Seq<Seq<char>>,
) -> Seq<StreamItemModel>
    decreases candidates.len(),
{
    if candidates.len() == 0 {
        Seq::empty()
    } else {
        candidates_items(candidates.drop_last(), ids) + parts_items(
            parts_of(candidates.last()),
            calls_in_candidates(candidates.drop_last()),
            ids,
        ) + finish_items(candidates.last().finish_reason)
    }
}

pub open spec fn finish_items(reason: Option<Seq<char>>) -> Seq<StreamItemModel> {
    match reason {
        Some(text) => if text.len() > 0 {
            seq![StreamItemModel::FinishReason(text)]
        } else {
            Seq::empty()
        },
        None => Seq::empty(),
    }
}

/// What one event of a streamed answer hands out.
pub open spec fn chunk_items(chunk: GeminiResponseModel, ids: Seq<Seq<char>>) -> Seq<
    StreamItemModel,
> {
    candidates_items(chunk.candidates, ids) + match chunk.usage_metadata {
        Some(usage) => seq![StreamItemModel::UsageUpdate(usage_of(usage))],
        None => Seq::empty(),
    }
}

fn push_part_items(
    items: &mut Vec<StreamItem>,
    part: &GeminiPart,
    calls: usize,
    ids: &Vec<String>,
)
    requires
        part.function_call is Some ==> calls < ids.len(),
    ensures
        final(items).deep_view() == old(items).deep_view() + part_items(
            part.deep_view(),
            calls as nat,
            ids.deep_view(),
        ),
{
    if let Some(text) = &part.text {
        if !text.as_str().is_empty() {
            items.push(StreamItem::Text(text.clone()));
        }
    }
    if let Some(call) = &part.function_call {
        items.push(
            StreamItem::ToolCallDelta(
                ToolCallDelta {
                    index: calls,
                    id: Some(ids[calls].clone()),
                    name: Some(call.name.clone()),
                    arguments: Some(call.args.to_text()),
                    metadata: metadata_for(&part.thought_signature),
                },
            ),
        );
    }
    proof {
        assert(items.deep_view() =~= old(items).deep_view() + part_items(
            part.deep_view(),
            calls as nat,
            ids.deep_view(),
        ));
    }
}

fn push_parts_items(
    items: &mut Vec<StreamItem>,
    parts: &Vec<GeminiPart>,
    calls: usize,
    ids: &Vec<String>,
) -> (r: usize)
    requires
        calls + calls_in_parts(parts.deep_view()) <= ids.len(),
    ensures
        final(items).deep_view() == old(items).deep_view() + parts_items(
            parts.deep_view(),
            calls as nat,
            ids.deep_view(),
        ),
        r == calls + calls_in_parts(parts.deep_view()),
{
    let ghost models = parts.deep_view();
    let ghost start = items.deep_view();
    let mut next: usize = calls;
    let mut i: usize = 0;
    proof {
        assert(models.take(0) =~= Seq::empty());
        assert(start + Seq::<StreamItemModel>::empty() =~= start);
    }
    while i < parts.len()
        invariant
            i <= parts.len(),
            models == parts.deep_view(),
            calls + calls_in_parts(models) <= ids.len(),
            next == calls + calls_in_parts(models.take(i as int)),
            items.deep_view() == start + parts_items(
                models.take(i as int),
                calls as nat,
                ids.deep_view(),
            ),
        decreases parts.len() - i,
    {
        proof {
            assert(models.take(i as int + 1).drop_last() =~= models.take(i as int));
            assert(models.take(i as int + 1).last() == parts@[i as int].deep_view());
            lemma_calls_in_first_parts(models, i as int + 1);
            assert(start + parts_items(models.take(i as int), calls as nat, ids.deep_view())
                + part_items(models[i as int], next as nat, ids.deep_view()) =~= start + (
            parts_items(models.take(i as int), calls as nat, ids.deep_view()) + part_items(
                models[i as int],
                next as nat,
                ids.deep_view(),
            )));
        }
        push_part_items(items, &parts[i], next, ids);
        if parts[i].function_call.is_some() {
            next += 1;
        }
        i += 1;
    }
    proof {
        assert(models.take(i as int) =~= models);
    }
    next
}

proof fn lemma_calls_in_first_candidates(candidates: Seq<GeminiCandidateModel>, upto: int)
    requires
        0 <= upto <= candidates.len(),
    ensures
        calls_in_candidates(candidates.take(upto)) <= calls_in_candidates(candidates),
    decreases candidates.len() - upto,
{
    if upto == candidates.len() {
        assert(candidates.take(upto) =~= candidates);
    } else {
        assert(candidates.take(upto + 1).drop_last() =~= candidates.take(upto));
        lemma_calls_in_first_candidates(candidates, upto + 1);
    }
}

/// What one event of a streamed answer hands out, with the given identities for its
/// tool calls, in their order.
pub fn normalize_gemini_stream_chunk_with_ids(
    chunk: &GeminiGenerateContentResponse,
    ids: &Vec<String>,
) -> (r: Vec<StreamItem>)
    requires
        calls_in_candidates(chunk.candidates.deep_view()) <= ids.len(),
    ensures
        r.deep_view() == chunk_items(chunk.deep_view(), ids.deep_view()),
{
    let ghost models = chunk.candidates.deep_view();
    let ghost names = ids.deep_view();
    let mut items: Vec<StreamItem> = Vec::new();
    let mut calls: usize = 0;
    let mut i: usize = 0;
    proof {
        assert(models.take(0) =~= Seq::empty());
        assert(items.deep_view() =~= Seq::empty());
    }
    while i < chunk.candidates.len()
        invariant
            i <= chunk.candidates.len(),
            models == chunk.candidates.deep_view(),
            names == ids.deep_view(),
            calls_in_candidates(models) <= ids.len(),
            calls == calls_in_candidates(models.take(i as int)),
            items.deep_view() == candidates_items(models.take(i as int), names),
        decreases chunk.candidates.len() - i,
    {
        let candidate = &chunk.candidates[i];
        let ghost before = items.deep_view();
        proof {
            assert(models.take(i as int + 1).drop_last() =~= models.take(i as int));
            assert(models.take(i as int + 1).last() == candidate.deep_view());
            lemma_calls_in_first_candidates(models, i as int + 1);
        }
        let ghost parts = parts_items(parts_of(candidate.deep_view()), calls as nat, names);
        match &candidate.content {
            Some(content) => {
                calls = push_parts_items(&mut items, &content.parts, calls, ids);
            },
            None => {
                proof {
                    assert(before + parts =~= before);
                }
            },
        }
        if let Some(reason) = &candidate.finish_reason {
            if !reason.as_str().is_empty() {
                items.push(StreamItem::FinishReason(reason.clone()));
            }
        }
        proof {
            assert(items.deep_view() =~= before + parts + finish_items(
                candidate.deep_view().finish_reason,
            ));
        }
        i += 1;
    }
    proof {
        assert(models.take(i as int) =~= models);
    }
    let ghost before = items.deep_view();
    if let Some(usage) = chunk.usage_metadata {
        items.push(
            StreamItem::UsageUpdate(
                UsageUpdate {
                    prompt_tokens: usage.prompt_token_count,
                    completion_tokens: usage.candidates_token_count,
                    total_tokens: usage.total_token_count,
                },
            ),
        );
    }
    proof {
        assert(items.deep_view() =~= chunk_items(chunk.deep_view(), names));
    }
    items
}

/// What one event of a streamed answer hands out. Its tool calls come whole, and
/// each gets a fresh identity.
pub fn normalize_gemini_stream_chunk(chunk: &GeminiGenerateContentResponse) -> (r: Vec<StreamItem>)
    ensures
        exists|ids: Seq<Seq<char>>|
            {
                &&& are_fresh_ids(ids)
                &&& ids.len() == calls_in_candidates(chunk.candidates.deep_view())
                &&& r.deep_view() == #[trigger] chunk_items(chunk.deep_view(), ids)
            },
{
    let ghost models = chunk.candidates.deep_view();
    let mut ids: Vec<String> = Vec::new();
    let mut i: usize = 0;
    proof {
        assert(models.take(0) =~= Seq::empty());
    }
    while i < chunk.candidates.len()
        invariant
            i <= chunk.candidates.len(),
            models == chunk.candidates.deep_view(),
            are_fresh_ids(ids.deep_view()),
            ids@.len() == calls_in_candidates(models.take(i as int)),
        decreases chunk.candidates.len() - i,
    {
        proof {
            assert(models.take(i as int + 1).drop_last() =~= models.take(i as int));
            assert(models.take(i as int + 1).last() == chunk.candidates@[i as int].deep_view());
        }
        push_fresh_ids(&mut ids, &chunk.candidates[i]);
        i += 1;
    }
    proof {
        assert(models.take(i as int) =~= models);
    }
    normalize_gemini_stream_chunk_with_ids(chunk, &ids)
}

/// What to do with the text of one event: an empty one is passed over, any other is
/// parsed without the white space around it.
pub fn gemini_stream_payload(payload: &str) -> (r: StreamPayload)
    ensures
        match r {
            StreamPayload::Empty => text::trimmed(payload@).len() == 0,
            StreamPayload::Done => false,
            StreamPayload::Parse(text) => text::trimmed(payload@).len() > 0 && text@ == text::trimmed(payload@),
        },
{
    let inner = trim(payload);
    if inner.as_str().is_empty() {
        StreamPayload::Empty
    } else {
        StreamPayload::Parse(inner)
    }
}

/// The error of an event that does not parse.
pub fn gemini_payload_error(provider: &ProviderId, error: &str) -> (r: ProviderError)
    ensures
        r.deep_view() == (ProviderErrorModel::ResponseParse {
            provider: provider.deep_view(),
            message: "failed to parse Gemini streaming payload: "@ + error@,
        }),
{
    response_parse(provider, concat("failed to parse Gemini streaming payload: ", error))
}

/// Whether one of these items says why the answer ended.
pub open spec fn has_finish_reason(items: Seq<StreamItemModel>) -> bool {
    exists|i: int| 0 <= i < items.len() && #[trigger] items[i] is FinishReason
}

fn finishes(items: &Vec<StreamItem>) -> (r: bool)
    ensures
        r == has_finish_reason(items.deep_view()),
{
    let mut i: usize = 0;
    while i < items.len()
        invariant
            i <= items.len(),
            forall|k: int| 0 <= k < i ==> !(#[trigger] items.deep_view()[k] is FinishReason),
        decreases items.len() - i,
    {
        if matches!(items[i], StreamItem::FinishReason(_)) {
            assert(items.deep_view()[i as int] is FinishReason);
            return true;
        }
        i += 1;
    }
    false
}

/// The text of one event of a stream, once it has been parsed: the items that it
/// hands out, or the error that the parser displays.
#[derive(Debug, PartialEq)]
pub enum GeminiPayload {
    Items(Vec<StreamItem>),
    Invalid(String),
}

pub enum GeminiPayloadModel {
    Items(Seq<StreamItemModel>),
    Invalid(Seq<char>),
}

impl DeepView for GeminiPayload {
    type V = GeminiPayloadModel;

    open spec fn deep_view(&self) -> GeminiPayloadModel {
        match *self {
            GeminiPayload::Items(items) => GeminiPayloadModel::Items(items.deep_view()),
            GeminiPayload::Invalid(error) => GeminiPayloadModel::Invalid(error@),
        }
    }
}

pub struct GeminiBatch {
    pub finished: bool,
    pub items: Seq<StreamItemModel>,
    pub end: BatchEndModel,
}

/// What a batch of events does, one after the other up to the first that does not
/// parse.
pub open spec fn gemini_batch(
    finished: bool,
    payloads: Seq<GeminiPayloadModel>,
    provider: Seq<char>,
) -> GeminiBatch
    decreases payloads.len(),
{
    if payloads.len() == 0 {
        GeminiBatch { finished, items: Seq::empty(), end: BatchEndModel::Open }
    } else {
        let before = gemini_batch(finished, payloads.drop_last(), provider);
        if before.end !is Open {
            before
        } else {
            match payloads.last() {
                GeminiPayloadModel::Items(items) => GeminiBatch {
                    finished: before.finished || has_finish_reason(items),
                    items: before.items + items,
                    end: BatchEndModel::Open,
                },
                GeminiPayloadModel::Invalid(error) => GeminiBatch {
                    end: BatchEndModel::Failed(
                        ProviderErrorModel::ResponseParse {
                            provider,
                            message: "failed to parse Gemini streaming payload: "@ + error,
                        },
                    ),
                    ..before
                },
            }
        }
    }
}

proof fn lemma_gemini_batch_stops(
    finished: bool,
    payloads: Seq<GeminiPayloadModel>,
    provider: Seq<char>,
    upto: int,
)
    requires
        0 <= upto <= payloads.len(),
        gemini_batch(finished, payloads.take(upto), provider).end !is Open,
    ensures
        gemini_batch(finished, payloads, provider) == gemini_batch(
            finished,
            payloads.take(upto),
            provider,
        ),
    decreases payloads.len() - upto,
{
    if upto == payloads.len() {
        assert(payloads.take(upto) =~= payloads);
    } else {
        assert(payloads.take(upto + 1).drop_last() =~= payloads.take(upto));
        lemma_gemini_batch_stops(finished, payloads, provider, upto + 1);
    }
}

/// What a batch of events hands out, and how it leaves the stream.
pub fn process_gemini_payloads(
    payloads: Vec<GeminiPayload>,
    provider: &ProviderId,
    received_finish: &mut bool,
) -> (r: StreamBatch)
    ensures
        ({
            let batch = gemini_batch(
                *old(received_finish),
                payloads.deep_view(),
                provider.deep_view(),
            );
            &&& *final(received_finish) == batch.finished
            &&& r.items.deep_view() == batch.items
            &&& r.end.deep_view() == batch.end
        }),
{
    let ghost models = payloads.deep_view();
    let ghost start = *received_finish;
    let ghost name = provider.deep_view();
    let mut items: Vec<StreamItem> = Vec::new();
    let mut end = BatchEnd::Open;
    let ghost mut seen: int = 0;
    proof {
        assert(models.take(0) =~= Seq::empty());
        assert(items.deep_view() =~= Seq::empty());
    }
    for payload in it: payloads
        invariant
            it.seq() == payloads@,
            models == payloads.deep_view(),
            name == provider.deep_view(),
            0 <= seen <= it.index(),
            end.deep_view() is Open ==> seen == it.index(),
            ({
                let batch = gemini_batch(start, models.take(seen), name);
                &&& *received_finish == batch.finished
                &&& items.deep_view() == batch.items
                &&& end.deep_view() == batch.end
            }),
    {
        if let BatchEnd::Open = &end {
            proof {
                assert(models.take(seen + 1).drop_last() =~= models.take(seen));
                assert(models.take(seen + 1).last() == payload.deep_view());
            }
            match payload {
                GeminiPayload::Items(more) => {
                    if finishes(&more) {
                        *received_finish = true;
                    }
                    append_items(&mut items, more);
                },
                GeminiPayload::Invalid(error) => {
                    end = BatchEnd::Failed(gemini_payload_error(provider, error.as_str()));
                },
            }
            proof {
                seen = seen + 1;
            }
        }
    }
    proof {
        assert(models.take(models.len() as int) =~= models);
        if end.deep_view() !is Open {
            lemma_gemini_batch_stops(start, models, name, seen);
        }
    }
    StreamBatch { items, end }
}

/// What a stream that is over still hands out: a lost connection, if it never said
/// why the answer ended.
pub fn gemini_stream_end(received_finish: bool) -> (r: Option<StreamItem>)
    ensures
        r.deep_view() == if received_finish {
            None::<StreamItemModel>
        } else {
            Some(StreamItemModel::ConnectionLost("Gemini stream ended before finish_reason"@))
        },
{
    if received_finish {
        None
    } else {
        Some(StreamItem::ConnectionLost("Gemini stream ended before finish_reason".to_owned()))
    }
}

/// What a stream hands out when its transport fails.
pub fn gemini_transport_lost(error: &str) -> (r: StreamItem)
    ensures
        r.deep_view() == StreamItemModel::ConnectionLost(
            "Gemini stream transport dropped: "@ + error@,
        ),
{
    StreamItem::ConnectionLost(concat("Gemini stream transport dropped: ", error))
}

/// The address that an answer of a model is asked at.
pub fn generate_content_url(base_url: &str, model: &str) -> (r: String)
    ensures
        r@ == base_url@ + "/v1beta/models/"@ + model@ + ":generateContent"@,
{
    concat4(base_url, "/v1beta/models/", model, ":generateContent")
}

/// The address that a streamed answer of a model is asked at.
pub fn stream_generate_content_url(base_url: &str, model: &str) -> (r: String)
    ensures
        r@ == base_url@ + "/v1beta/models/"@ + model@ + ":streamGenerateContent?alt=sse"@,
{
    concat4(base_url, "/v1beta/models/", model, ":streamGenerateContent?alt=sse")
}

/// What a tool answers is always sent as a JSON object.
pub proof fn law_tool_answers_are_objects(content: Option<Seq<char>>)
    ensures
        answer_tree(content) is Object,
{
}

/// A thought signature that came with a tool call is sent back as it came.
pub proof fn law_signature_is_sent_back(signature: Option<Seq<char>>)
    ensures
        signature_of(signature_metadata(signature)) == signature,
{
    if let Some(text) = signature {
        let members = seq![("thought_signature"@, JsonTree::Text(text))];
        assert(members[0].0 == "thought_signature"@);
        assert(json::first_member(members, "thought_signature"@, 0));
        let i = choose|i: int| json::first_member(members, "thought_signature"@, i);
        assert(json::first_member(members, "thought_signature"@, i));
        assert(i == 0);
        assert(exists|i: int|
            0 <= i < members.len() && #[trigger] members[i].0 == "thought_signature"@);
        assert(signature_metadata(signature) == Some(JsonTree::Object(members)));
        assert(json::member(JsonTree::Object(members), "thought_signature"@) == Some(
            JsonTree::Text(text),
        ));
    }
}

/// The parts that a candidate holds.
pub open spec fn held_parts(candidate: GeminiCandidate) -> Seq<GeminiPart> {
    match candidate.content {
        Some(content) => content.parts@,
        None => Seq::empty(),
    }
}

/// A part holds text.
pub open spec fn holds_text(part: GeminiPart) -> bool {
    part.text matches Some(text) && text@.len() > 0
}

/// How many items the first parts hand out: one for a text, and one for a call.
pub open spec fn items_in(parts: Seq<GeminiPart>, p: int) -> nat
    decreases p,
{
    if p <= 0 {
        0
    } else {
        items_in(parts, p - 1) + (if holds_text(parts[p - 1]) {
            1nat
        } else {
            0
        }) + (if parts[p - 1].function_call is Some {
            1nat
        } else {
            0
        })
    }
}

/// How many of the first parts are calls.
pub open spec fn calls_in(parts: Seq<GeminiPart>, p: int) -> nat
    decreases p,
{
    if p <= 0 {
        0
    } else {
        calls_in(parts, p - 1) + if parts[p - 1].function_call is Some {
            1nat
        } else {
            0
        }
    }
}

/// How many items the first candidates hand out: those of their parts, and one for why
/// they ended.
pub open spec fn items_ahead(candidates: Seq<GeminiCandidate>, c: int) -> nat
    decreases c,
{
    if c <= 0 {
        0
    } else {
        let parts = held_parts(candidates[c - 1]);
        items_ahead(candidates, c - 1) + items_in(parts, parts.len() as int) + if
            candidates[c - 1].finish_reason matches Some(reason) && reason@.len() > 0 {
            1nat
        } else {
            0
        }
    }
}

/// How many calls the first candidates make.
pub open spec fn calls_ahead(candidates: Seq<GeminiCandidate>, c: int) -> nat
    decreases c,
{
    if c <= 0 {
        0
    } else {
        let parts = held_parts(candidates[c - 1]);
        calls_ahead(candidates, c - 1) + calls_in(parts, parts.len() as int)
    }
}

proof fn lemma_held_parts(candidate: GeminiCandidate)
    ensures
        parts_of(candidate.deep_view()).len() == held_parts(candidate).len(),
        forall|k: int|
            0 <= k < held_parts(candidate).len() ==> #[trigger] parts_of(candidate.deep_view())[k]
                == held_parts(candidate)[k].deep_view(),
{
    if let Some(content) = candidate.content {
        assert(content.parts.deep_view().len() == content.parts@.len());
    }
}

proof fn lemma_counts(
    parts: Seq<GeminiPart>,
    models: Seq<GeminiPartModel>,
    p: int,
    calls: nat,
    ids: Seq<Seq<char>>,
)
    requires
        models.len() == parts.len(),
        forall|k: int| 0 <= k < parts.len() ==> #[trigger] models[k] == parts[k].deep_view(),
        0 <= p <= parts.len(),
    ensures
        parts_items(models.take(p), calls, ids).len() == items_in(parts, p),
        calls_in_parts(models.take(p)) == calls_in(parts, p),
    decreases p,
{
    if p > 0 {
        lemma_counts(parts, models, p - 1, calls, ids);
        assert(models.take(p).drop_last() =~= models.take(p - 1));
        assert(models.take(p).last() == models[p - 1]);
    }
}

proof fn lemma_part_at(
    models: Seq<GeminiPartModel>,
    calls: nat,
    ids: Seq<Seq<char>>,
    p: int,
)
    requires
        0 <= p < models.len(),
    ensures
        ({
            let ahead = parts_items(models.take(p), calls, ids).len();
            let items = part_items(models[p], calls + calls_in_parts(models.take(p)), ids);
            &&& ahead + items.len() <= parts_items(models, calls, ids).len()
            &&& forall|t: int|
                0 <= t < items.len() ==> parts_items(models, calls, ids)[ahead + t]
                    == #[trigger] items[t]
        }),
    decreases models.len(),
{
    if p == models.len() - 1 {
        assert(models.take(p) =~= models.drop_last());
    } else {
        lemma_part_at(models.drop_last(), calls, ids, p);
        assert(models.drop_last().take(p) =~= models.take(p));
    }
}

proof fn lemma_candidate_counts(
    candidates: Seq<GeminiCandidate>,
    models: Seq<GeminiCandidateModel>,
    c: int,
    ids: Seq<Seq<char>>,
)
    requires
        models.len() == candidates.len(),
        forall|k: int|
            0 <= k < candidates.len() ==> #[trigger] models[k] == candidates[k].deep_view(),
        0 <= c <= candidates.len(),
    ensures
        candidates_items(models.take(c), ids).len() == items_ahead(candidates, c),
        calls_in_candidates(models.take(c)) == calls_ahead(candidates, c),
    decreases c,
{
    if c > 0 {
        lemma_candidate_counts(candidates, models, c - 1, ids);
        assert(models.take(c).drop_last() =~= models.take(c - 1));
        assert(models.take(c).last() == models[c - 1]);
        let parts = held_parts(candidates[c - 1]);
        lemma_held_parts(candidates[c - 1]);
        let held = parts_of(models[c - 1]);
        lemma_counts(parts, held, parts.len() as int, calls_in_candidates(models.take(c - 1)), ids);
        assert(held.take(held.len() as int) =~= held);
    }
}

proof fn lemma_candidate_at(models: Seq<GeminiCandidateModel>, ids: Seq<Seq<char>>, c: int)
    requires
        0 <= c < models.len(),
    ensures
        ({
            let ahead = candidates_items(models.take(c), ids).len();
            let items = parts_items(
                parts_of(models[c]),
                calls_in_candidates(models.take(c)),
                ids,
            ) + finish_items(models[c].finish_reason);
            &&& ahead + items.len() <= candidates_items(models, ids).len()
            &&& forall|t: int|
                0 <= t < items.len() ==> candidates_items(models, ids)[ahead + t]
                    == #[trigger] items[t]
        }),
    decreases models.len(),
{
    if c == models.len() - 1 {
        assert(models.take(c) =~= models.drop_last());
    } else {
        lemma_candidate_at(models.drop_last(), ids, c);
        assert(models.drop_last().take(c) =~= models.take(c));
    }
}

/// Every part of a streamed answer is handed out in its place: its text as it came, then
/// its call with the next index and identity, its name, the JSON text of its arguments
/// and its signature. Behind the parts of a candidate comes why it ended, and behind all
/// of them come the token counts.
pub proof fn law_parts_are_streamed_in_place(
    chunk: GeminiGenerateContentResponse,
    ids: Vec<String>,
    items: Vec<StreamItem>,
    c: int,
    p: int,
)
    requires
        call_ensures(normalize_gemini_stream_chunk_with_ids, (&chunk, &ids), items),
        0 <= c < chunk.candidates@.len(),
        0 <= p <= held_parts(chunk.candidates@[c]).len(),
        p < held_parts(chunk.candidates@[c]).len() ==> calls_ahead(chunk.candidates@, c) + calls_in(
            held_parts(chunk.candidates@[c]),
            p,
        ) < ids@.len(),
    ensures
        ({
            let parts = held_parts(chunk.candidates@[c]);
            let at = items_ahead(chunk.candidates@, c) + items_in(parts, p);
            let n = (calls_ahead(chunk.candidates@, c) + calls_in(parts, p)) as int;
            &&& p < parts.len() && holds_text(parts[p]) ==> at < items@.len() && (
            items@[at as int] matches StreamItem::Text(text) && text@ == parts[p].text->0@)
            &&& p < parts.len() && parts[p].function_call is Some ==> ({
                let place = if holds_text(parts[p]) {
                    at as int + 1
                } else {
                    at as int
                };
                let call = parts[p].function_call->0;
                &&& place < items@.len()
                &&& items@[place] matches StreamItem::ToolCallDelta(delta)
                &&& delta.index == n
                &&& delta.id matches Some(id) && id@ == ids@[n]@
                &&& delta.name matches Some(name) && name@ == call.name@
                &&& delta.arguments matches Some(arguments) && arguments@ == json::tree_text(
                    call.args.deep_view(),
                )
                &&& match parts[p].thought_signature {
                    Some(signature) => delta.metadata matches Some(metadata)
                        && metadata.deep_view() == JsonTree::Object(
                        seq![("thought_signature"@, JsonTree::Text(signature@))],
                    ),
                    None => delta.metadata is None,
                }
            })
            &&& p == parts.len() && (chunk.candidates@[c].finish_reason matches Some(reason)
                && reason@.len() > 0) ==> at < items@.len() && (
            items@[at as int] matches StreamItem::FinishReason(given) && given@
                == chunk.candidates@[c].finish_reason->0@)
            &&& chunk.usage_metadata matches Some(usage) ==> items@.len() > 0 && (
            items@.last() matches StreamItem::UsageUpdate(counted) && counted.prompt_tokens
                == usage.prompt_token_count && counted.completion_tokens
                == usage.candidates_token_count && counted.total_tokens == usage.total_token_count)
            &&& items@.len() == items_ahead(chunk.candidates@, chunk.candidates@.len() as int) + if
                chunk.usage_metadata is Some {
                1int
            } else {
                0
            }
        }),
{
    let names = ids.deep_view();
    let models = chunk.candidates.deep_view();
    let candidates = chunk.candidates@;
    assert(models.len() == candidates.len());
    assert forall|k: int| 0 <= k < candidates.len() implies #[trigger] models[k]
        == candidates[k].deep_view() by {}
    let list = items.deep_view();
    assert(list.len() == items@.len());
    assert(list == chunk_items(chunk.deep_view(), names));
    let whole = candidates_items(models, names);
    lemma_candidate_counts(candidates, models, candidates.len() as int, names);
    assert(models.take(models.len() as int) =~= models);
    lemma_candidate_counts(candidates, models, c, names);
    lemma_candidate_at(models, names, c);
    let parts = held_parts(candidates[c]);
    lemma_held_parts(candidates[c]);
    let held = parts_of(models[c]);
    let calls = calls_in_candidates(models.take(c));
    lemma_counts(parts, held, parts.len() as int, calls, names);
    assert(held.take(held.len() as int) =~= held);
    lemma_counts(parts, held, p, calls, names);
    let ahead = items_ahead(candidates, c) as int;
    let own = parts_items(held, calls, names) + finish_items(models[c].finish_reason);
    if p < parts.len() {
        lemma_part_at(held, calls, names, p);
        let part = parts[p];
        assert(held[p] == part.deep_view());
        let shown = part_items(held[p], calls + calls_in_parts(held.take(p)), names);
        let at = items_in(parts, p) as int;
        if holds_text(part) {
            assert(shown[0] == parts_items(held, calls, names)[at + 0]);
            assert(own[at] == shown[0]);
            assert(whole[ahead + at] == own[at]);
            assert(list[ahead + at] == items@[ahead + at].deep_view());
        }
        if part.function_call is Some {
            let t: int = if holds_text(part) {
                1
            } else {
                0
            };
            assert(shown[t] == parts_items(held, calls, names)[at + t]);
            assert(own[at + t] == shown[t]);
            assert(whole[ahead + at + t] == own[at + t]);
            assert(list[ahead + at + t] == items@[ahead + at + t].deep_view());
            let n = (calls_ahead(candidates, c) + calls_in(parts, p)) as int;
            assert(names[n] == ids@[n]@);
            assert(n < ids.len());
            assert(part.function_call->0.deep_view() == (
                part.function_call->0.name@,
                part.function_call->0.args.deep_view(),
            ));
        }
    } else if candidates[c].finish_reason matches Some(reason) && reason@.len() > 0 {
        let at = parts_items(held, calls, names).len() as int;
        assert(own[at] == finish_items(models[c].finish_reason)[0]);
        assert(whole[ahead + at] == own[at]);
        assert(list[ahead + at] == items@[ahead + at].deep_view());
    }
    if chunk.usage_metadata is Some {
        assert(list.last() == items@.last().deep_view());
    }
}

proof fn lemma_gathered_call(models: Seq<GeminiPartModel>, ids: Seq<Seq<char>>, p: int)
    requires
        0 <= p <= models.len(),
        gather(models, ids) is Ok,
    ensures
        gather(models.take(p), ids) is Ok,
        gather(models, ids)->Ok_0.calls.len() == calls_in_parts(models),
        p < models.len() && models[p].function_call is Some ==> ({
            let n = calls_in_parts(models.take(p));
            let call = models[p].function_call->0;
            &&& n < calls_in_parts(models)
            &&& gather(models, ids)->Ok_0.calls[n as int] == (ToolCallModel {
                id: ids[n as int],
                name: call.0,
                arguments: call.1,
                metadata: signature_metadata(models[p].thought_signature),
            })
        }),
    decreases models.len(),
{
    if models.len() == 0 {
        assert(models.take(p) =~= models);
    } else if p == models.len() {
        assert(models.take(p) =~= models);
        lemma_gathered_call(models.drop_last(), ids, p - 1);
    } else {
        lemma_gathered_call(models.drop_last(), ids, p);
        assert(models.drop_last().take(p) =~= models.take(p));
        if p == models.len() - 1 {
            assert(models.take(p) =~= models.drop_last());
        }
    }
}

/// An answer that is read whole makes the calls that the parts of its first candidate
/// hold, in their order, each with the next identity, its name, its arguments and its
/// signature.
pub proof fn law_calls_are_read_as_they_stand(
    response: GeminiGenerateContentResponse,
    provider: ProviderId,
    ids: Vec<String>,
    answer: Result<Response, ProviderError>,
    p: int,
)
    requires
        call_ensures(
            normalize_gemini_response_with_ids,
            (response, &provider, &ids),
            answer,
        ),
        answer is Ok,
        0 <= p < held_parts(response.candidates@[0]).len(),
        held_parts(response.candidates@[0])[p].function_call is Some,
        calls_in(held_parts(response.candidates@[0]), p) < ids@.len(),
    ensures
        response.candidates@.len() > 0,
        ({
            let parts = held_parts(response.candidates@[0]);
            let calls = answer->Ok_0.tool_calls@;
            let n = calls_in(parts, p) as int;
            &&& calls.len() == calls_in(parts, parts.len() as int)
            &&& n < calls.len()
            &&& calls[n].id@ == ids@[n]@
            &&& calls[n].name@ == parts[p].function_call->0.name@
            &&& calls[n].arguments.deep_view() == parts[p].function_call->0.args.deep_view()
            &&& match parts[p].thought_signature {
                Some(signature) => calls[n].metadata matches Some(metadata)
                    && metadata.deep_view() == JsonTree::Object(
                    seq![("thought_signature"@, JsonTree::Text(signature@))],
                ),
                None => calls[n].metadata is None,
            }
            &&& answer->Ok_0.message.tool_calls.deep_view() == answer->Ok_0.tool_calls.deep_view()
        }),
{
    let names = ids.deep_view();
    assert(response.candidates.deep_view().len() == response.candidates@.len());
    let candidate = response.candidates@[0];
    assert(response.candidates.deep_view()[0] == candidate.deep_view());
    lemma_held_parts(candidate);
    let parts = held_parts(candidate);
    let held = parts_of(candidate.deep_view());
    lemma_gathered_call(held, names, p);
    lemma_counts(parts, held, p, 0, names);
    lemma_counts(parts, held, parts.len() as int, 0, names);
    assert(held.take(held.len() as int) =~= held);
    let n = calls_in(parts, p) as int;
    let calls = answer->Ok_0.tool_calls;
    assert(calls.deep_view().len() == calls@.len());
    assert(held[p] == parts[p].deep_view());
    assert(calls.deep_view()[n] == calls@[n].deep_view());
    assert(names[n] == ids@[n]@);
}

/// A streamed answer of one candidate makes the same calls as the same answer read
/// whole: the delta of each call has its place for its index, its identity, its name, its
/// metadata, and the JSON text of its arguments.
pub proof fn law_streamed_calls_are_those_of_the_answer(
    chunk: GeminiGenerateContentResponse,
    provider: ProviderId,
    ids: Vec<String>,
    items: Vec<StreamItem>,
    answer: Result<Response, ProviderError>,
    p: int,
) -> (at: int)
    requires
        call_ensures(normalize_gemini_stream_chunk_with_ids, (&chunk, &ids), items),
        call_ensures(normalize_gemini_response_with_ids, (chunk, &provider, &ids), answer),
        answer is Ok,
        chunk.candidates@.len() == 1,
        0 <= p < held_parts(chunk.candidates@[0]).len(),
        held_parts(chunk.candidates@[0])[p].function_call is Some,
        calls_in(held_parts(chunk.candidates@[0]), p) < ids@.len(),
    ensures
        0 <= at < items@.len(),
        ({
            let n = calls_in(held_parts(chunk.candidates@[0]), p) as int;
            let call = answer->Ok_0.tool_calls@[n];
            &&& n < answer->Ok_0.tool_calls@.len()
            &&& items@[at] matches StreamItem::ToolCallDelta(delta)
            &&& delta.index == n
            &&& delta.id matches Some(id) && id@ == call.id@
            &&& delta.name matches Some(name) && name@ == call.name@
            &&& delta.arguments matches Some(arguments) && arguments@ == json::tree_text(
                call.arguments.deep_view(),
            )
            &&& delta.metadata.deep_view() == call.metadata.deep_view()
        }),
{
    let parts = held_parts(chunk.candidates@[0]);
    assert(calls_ahead(chunk.candidates@, 0) == 0);
    assert(items_ahead(chunk.candidates@, 0) == 0);
    law_parts_are_streamed_in_place(chunk, ids, items, 0, p);
    law_calls_are_read_as_they_stand(chunk, provider, ids, answer, p);
    if holds_text(parts[p]) {
        items_in(parts, p) as int + 1
    } else {
        items_in(parts, p) as int
    }
}

/// All that the first parts say.
pub open spec fn said_in(parts: Seq<GeminiPart>, p: int) -> Seq<char>
    decreases p,
{
    if p <= 0 {
        Seq::empty()
    } else {
        said_in(parts, p - 1) + match parts[p - 1].text {
            Some(text) => text@,
            None => Seq::empty(),
        }
    }
}

/// How many of the first parts hold media.
pub open spec fn media_in(parts: Seq<GeminiPart>, p: int) -> nat
    decreases p,
{
    if p <= 0 {
        0
    } else {
        media_in(parts, p - 1) + if parts[p - 1].inline_data is Some {
            1nat
        } else {
            0
        }
    }
}

proof fn lemma_gathered(
    parts: Seq<GeminiPart>,
    models: Seq<GeminiPartModel>,
    ids: Seq<Seq<char>>,
    p: int,
)
    requires
        models.len() == parts.len(),
        forall|k: int| 0 <= k < parts.len() ==> #[trigger] models[k] == parts[k].deep_view(),
        0 <= p <= parts.len(),
        gather(models.take(p), ids) is Ok,
    ensures
        ({
            let gathered = gather(models.take(p), ids)->Ok_0;
            &&& text::run_together(gathered.texts) == said_in(parts, p)
            &&& gathered.texts.len() > 0 ==> said_in(parts, p).len() > 0
            &&& gathered.media.len() == media_in(parts, p)
            &&& forall|q: int|
                0 <= q < p && (#[trigger] parts[q]).inline_data is Some ==> {
                    let data = parts[q].inline_data->0;
                    &&& media_in(parts, q) < gathered.media.len()
                    &&& gathered.media[media_in(parts, q) as int].mime_type == data.mime_type@
                    &&& encoding::base64_bytes(data.data@) == Ok::<_, Seq<char>>(
                        gathered.media[media_in(parts, q) as int].data,
                    )
                }
        }),
    decreases p,
{
    if p == 0 {
        assert(models.take(0) =~= Seq::empty());
    } else {
        assert(models.take(p).drop_last() =~= models.take(p - 1));
        assert(models.take(p).last() == models[p - 1]);
        lemma_gathered(parts, models, ids, p - 1);
        let before = gather(models.take(p - 1), ids)->Ok_0;
        let part = parts[p - 1];
        if holds_text(part) {
            assert(before.texts.push(part.text->0@).drop_last() =~= before.texts);
        } else {
            assert(said_in(parts, p) =~= said_in(parts, p - 1));
        }
        if let Some(data) = part.inline_data {
            assert(data.deep_view() == (data.mime_type@, data.data@));
        }
    }
}

/// An answer says what the parts of its first candidate say, one behind the other, and
/// brings their media, decoded. It ends for that candidate's reason, and counts the
/// tokens that were counted. A response without candidates is no answer.
pub proof fn law_answer_says_what_its_parts_say(
    response: GeminiGenerateContentResponse,
    provider: ProviderId,
    ids: Vec<String>,
    answer: Result<Response, ProviderError>,
    p: int,
)
    requires
        call_ensures(
            normalize_gemini_response_with_ids,
            (response, &provider, &ids),
            answer,
        ),
    ensures
        response.candidates@.len() == 0 ==> (answer matches Err(ProviderError::ResponseParse {
            provider: named,
            message,
        }) && named.0@ == provider.0@ && message@
            == "Gemini response did not contain any candidates"@),
        answer matches Ok(given) ==> {
            let candidate = response.candidates@[0];
            let parts = held_parts(candidate);
            let said = said_in(parts, parts.len() as int);
            &&& said.len() > 0 ==> (given.message.content matches Some(content) && content@ == said)
            &&& said.len() == 0 ==> given.message.content is None
            &&& given.message.role == MessageRole::Assistant
            &&& given.message.tool_call_id is None
            &&& given.message.attachments@.len() == media_in(parts, parts.len() as int)
            &&& 0 <= p < parts.len() && parts[p].inline_data is Some ==> {
                let media = given.message.attachments@[media_in(parts, p) as int];
                &&& media.mime_type@ == parts[p].inline_data->0.mime_type@
                &&& encoding::base64_bytes(parts[p].inline_data->0.data@) == Ok::<_, Seq<char>>(
                    media.data@,
                )
            }
            &&& match candidate.finish_reason {
                Some(reason) => given.finish_reason matches Some(told) && told@ == reason@,
                None => given.finish_reason is None,
            }
            &&& match response.usage_metadata {
                Some(usage) => given.usage matches Some(counted) && counted.prompt_tokens
                    == usage.prompt_token_count && counted.completion_tokens
                    == usage.candidates_token_count && counted.total_tokens
                    == usage.total_token_count,
                None => given.usage is None,
            }
        },
{
    assert(response.candidates.deep_view().len() == response.candidates@.len());
    if let Ok(given) = answer {
        let names = ids.deep_view();
        let candidate = response.candidates@[0];
        assert(response.candidates.deep_view()[0] == candidate.deep_view());
        lemma_held_parts(candidate);
        let parts = held_parts(candidate);
        let held = parts_of(candidate.deep_view());
        assert(held.take(held.len() as int) =~= held);
        lemma_gathered(parts, held, names, parts.len() as int);
        text::law_joined_by_nothing(gather(held, names)->Ok_0.texts);
        let media = given.message.attachments;
        assert(media.deep_view().len() == media@.len());
        if 0 <= p < parts.len() && parts[p].inline_data is Some {
            let at = media_in(parts, p) as int;
            assert(media.deep_view()[at] == media@[at].deep_view());
        }
    }
}

/// Whether a message becomes a turn.
pub open spec fn takes_turn(message: Message) -> bool {
    match message.role {
        MessageRole::System => false,
        MessageRole::User => message.speaks() || message.attachments@.len() > 0,
        MessageRole::Assistant => message.speaks() || message.tool_calls@.len() > 0,
        MessageRole::Tool => true,
    }
}

/// How many of the first messages become turns.
pub open spec fn turns_before(messages: Seq<Message>, i: int) -> nat
    decreases i,
{
    if i <= 0 {
        0
    } else {
        turns_before(messages, i - 1) + if takes_turn(messages[i - 1]) {
            1nat
        } else {
            0
        }
    }
}

proof fn lemma_takes_turn(messages: Seq<MessageModel>, message: Message)
    ensures
        turn_of(messages, message.deep_view()).len() == if takes_turn(message) {
            1int
        } else {
            0
        },
{
    assert(message.tool_calls.deep_view().len() == message.tool_calls@.len());
    assert(message.attachments.deep_view().len() == message.attachments@.len());
}

proof fn lemma_turns_before(messages: Seq<Message>, models: Seq<MessageModel>, i: int)
    requires
        models.len() == messages.len(),
        forall|k: int| 0 <= k < messages.len() ==> #[trigger] models[k] == messages[k].deep_view(),
        0 <= i <= messages.len(),
    ensures
        turns_of(models, models.take(i)).len() == turns_before(messages, i),
    decreases i,
{
    if i > 0 {
        lemma_turns_before(messages, models, i - 1);
        assert(models.take(i).drop_last() =~= models.take(i - 1));
        assert(models.take(i).last() == models[i - 1]);
        lemma_takes_turn(models, messages[i - 1]);
    }
}

proof fn lemma_turn_at(models: Seq<MessageModel>, first: Seq<MessageModel>, i: int)
    requires
        0 <= i < first.len(),
        turn_of(models, first[i]).len() == 1,
    ensures
        turns_of(models, first.take(i)).len() < turns_of(models, first).len(),
        turns_of(models, first)[turns_of(models, first.take(i)).len() as int] == turn_of(
            models,
            first[i],
        )[0],
    decreases first.len(),
{
    if i == first.len() - 1 {
        assert(first.take(i) =~= first.drop_last());
    } else {
        lemma_turn_at(models, first.drop_last(), i);
        assert(first.drop_last().take(i) =~= first.take(i));
    }
}

/// Every message with something to say is the turn at its place, under its role: what it
/// says first, then its media, or its calls with their names, arguments and signatures.
pub proof fn law_messages_are_turns_in_order(
    context: Context,
    request: GeminiGenerateContentRequest,
    i: int,
    j: int,
)
    requires
        call_ensures(
            GeminiGenerateContentRequest::from_context,
            (&context,),
            Ok(request),
        ),
        0 <= i < context.messages@.len(),
        takes_turn(context.messages@[i]),
        context.messages@[i].role != MessageRole::Tool,
    ensures
        ({
            let message = context.messages@[i];
            let place = turns_before(context.messages@, i) as int;
            let turn = request.contents@[place];
            let behind = if message.speaks() {
                1int
            } else {
                0
            };
            &&& place < request.contents@.len()
            &&& request.contents@.len() == turns_before(
                context.messages@,
                context.messages@.len() as int,
            )
            &&& message.speaks() ==> turn.parts@.len() > 0 && (turn.parts@[0].text matches Some(text)
                && text@ == message.content->0@) && turn.parts@[0].function_call is None
                && turn.parts@[0].inline_data is None
            &&& message.role == MessageRole::User ==> turn.role@ == "user"@ && turn.parts@.len()
                == behind + message.attachments@.len() && (0 <= j < message.attachments@.len()
                ==> ({
                let part = turn.parts@[behind + j];
                &&& part.inline_data matches Some(data)
                &&& data.mime_type@ == message.attachments@[j].mime_type@
                &&& data.data@ == encoding::base64_text(message.attachments@[j].data@)
            }))
            &&& message.role == MessageRole::Assistant ==> turn.role@ == "model"@
                && turn.parts@.len() == behind + message.tool_calls@.len() && (0 <= j
                < message.tool_calls@.len() ==> ({
                let part = turn.parts@[behind + j];
                &&& part.function_call matches Some(call)
                &&& call.name@ == message.tool_calls@[j].name@
                &&& call.args.deep_view() == message.tool_calls@[j].arguments.deep_view()
                &&& message.tool_calls@[j].metadata is None ==> part.thought_signature is None
                &&& part.text is None
            }))
        }),
{
    let models = context.messages.deep_view();
    let messages = context.messages@;
    assert(models.len() == messages.len());
    assert forall|k: int| 0 <= k < messages.len() implies #[trigger] models[k]
        == messages[k].deep_view() by {}
    lemma_turns_before(messages, models, i);
    lemma_turns_before(messages, models, messages.len() as int);
    assert(models.take(models.len() as int) =~= models);
    lemma_takes_turn(models, messages[i]);
    lemma_turn_at(models, models, i);
    let place = turns_before(messages, i) as int;
    assert(request.contents.deep_view().len() == request.contents@.len());
    assert(request.contents.deep_view()[place] == request.contents@[place].deep_view());
    let message = messages[i];
    let turn = request.contents@[place];
    let parts = turn.parts.deep_view();
    assert(parts.len() == turn.parts@.len());
    assert(message.tool_calls.deep_view().len() == message.tool_calls@.len());
    assert(message.attachments.deep_view().len() == message.attachments@.len());
    if message.speaks() {
        assert(parts[0] == turn.parts@[0].deep_view());
    }
    let behind = if message.speaks() {
        1int
    } else {
        0
    };
    if message.role == MessageRole::User && 0 <= j < message.attachments@.len() {
        assert(message.attachments.deep_view()[j] == message.attachments@[j].deep_view());
        assert(parts[behind + j] == turn.parts@[behind + j].deep_view());
    }
    if message.role == MessageRole::Assistant && 0 <= j < message.tool_calls@.len() {
        assert(message.tool_calls.deep_view()[j] == message.tool_calls@[j].deep_view());
        assert(parts[behind + j] == turn.parts@[behind + j].deep_view());
    }
}

/// Every call of that identity in the conversation has that name, and there is one.
pub open spec fn is_name_of_call(messages: Seq<Message>, id: Seq<char>, name: Seq<char>) -> bool {
    &&& forall|a: int, c: int|
        #![trigger messages[a].tool_calls@[c]]
        0 <= a < messages.len() && messages[a].role == MessageRole::Assistant && 0 <= c
            < messages[a].tool_calls@.len() && messages[a].tool_calls@[c].id@ == id
            ==> messages[a].tool_calls@[c].name@ == name
    &&& exists|a: int, c: int|
        #![trigger messages[a].tool_calls@[c]]
        0 <= a < messages.len() && messages[a].role == MessageRole::Assistant && 0 <= c
            < messages[a].tool_calls@.len() && messages[a].tool_calls@[c].id@ == id
}

proof fn lemma_name_in_calls(calls: Seq<ToolCallModel>, id: Seq<char>)
    ensures
        match name_in_calls(calls, id) {
            Some(name) => exists|c: int|
                0 <= c < calls.len() && (#[trigger] calls[c]).id == id && calls[c].name == name,
            None => forall|c: int| 0 <= c < calls.len() ==> (#[trigger] calls[c]).id != id,
        },
    decreases calls.len(),
{
    if calls.len() > 0 {
        if calls.last().id == id {
            assert(calls[calls.len() - 1].id == id);
        } else {
            lemma_name_in_calls(calls.drop_last(), id);
            if let Some(name) = name_in_calls(calls.drop_last(), id) {
                let c = choose|c: int|
                    0 <= c < calls.drop_last().len() && (#[trigger] calls.drop_last()[c]).id == id
                        && calls.drop_last()[c].name == name;
                assert(calls[c].id == id && calls[c].name == name);
            } else {
                assert forall|c: int| 0 <= c < calls.len() implies (#[trigger] calls[c]).id
                    != id by {
                    if c < calls.len() - 1 {
                        assert(calls.drop_last()[c].id != id);
                    }
                }
            }
        }
    }
}

proof fn lemma_called_name(models: Seq<MessageModel>, id: Seq<char>)
    ensures
        match called_name(models, id) {
            Some(name) => exists|a: int, c: int|
                #![trigger models[a].tool_calls[c]]
                0 <= a < models.len() && models[a].role == MessageRole::Assistant && 0 <= c
                    < models[a].tool_calls.len() && models[a].tool_calls[c].id == id
                    && models[a].tool_calls[c].name == name,
            None => forall|a: int, c: int|
                #![trigger models[a].tool_calls[c]]
                0 <= a < models.len() && models[a].role == MessageRole::Assistant && 0 <= c
                    < models[a].tool_calls.len() ==> models[a].tool_calls[c].id != id,
        },
    decreases models.len(),
{
    if models.len() > 0 {
        let last = models.last();
        lemma_name_in_calls(last.tool_calls, id);
        if last.role == MessageRole::Assistant && name_in_calls(last.tool_calls, id) is Some {
            let name = name_in_calls(last.tool_calls, id)->0;
            let c = choose|c: int|
                0 <= c < last.tool_calls.len() && (#[trigger] last.tool_calls[c]).id == id
                    && last.tool_calls[c].name == name;
            assert(models[models.len() - 1].tool_calls[c].name == name);
        } else {
            lemma_called_name(models.drop_last(), id);
            let first = models.drop_last();
            if let Some(name) = called_name(first, id) {
                let (a, c) = choose|a: int, c: int|
                    #![trigger first[a].tool_calls[c]]
                    0 <= a < first.len() && first[a].role == MessageRole::Assistant && 0 <= c
                        < first[a].tool_calls.len() && first[a].tool_calls[c].id == id
                        && first[a].tool_calls[c].name == name;
                assert(models[a].tool_calls[c].id == id);
            } else {
                assert forall|a: int, c: int|
                    #![trigger models[a].tool_calls[c]]
                    0 <= a < models.len() && models[a].role == MessageRole::Assistant && 0 <= c
                        < models[a].tool_calls.len() implies models[a].tool_calls[c].id != id by {
                    if a < models.len() - 1 {
                        assert(first[a].tool_calls[c].id != id);
                    }
                }
            }
        }
    }
}

/// The result of a tool is a turn of the user's that answers the function which was
/// called under that identity: with the JSON object that it holds, or else with its text
/// inside one.
pub proof fn law_results_answer_the_called_function(
    context: Context,
    request: GeminiGenerateContentRequest,
    i: int,
    name: Seq<char>,
    tree: JsonTree,
)
    requires
        call_ensures(
            GeminiGenerateContentRequest::from_context,
            (&context,),
            Ok(request),
        ),
        0 <= i < context.messages@.len(),
        context.messages@[i].role == MessageRole::Tool,
    ensures
        ({
            let message = context.messages@[i];
            let place = turns_before(context.messages@, i) as int;
            let turn = request.contents@[place];
            &&& place < request.contents@.len()
            &&& turn.role@ == "user"@
            &&& turn.parts@.len() == 1
            &&& turn.parts@[0].text is None
            &&& turn.parts@[0].function_response matches Some(response)
            &&& message.tool_call_id is None ==> response.name@ == "unknown_function"@
            &&& message.tool_call_id matches Some(id) ==> {
                &&& is_name_of_call(context.messages@, id@, name) ==> response.name@ == name
                &&& (forall|a: int, c: int|
                    #![trigger context.messages@[a].tool_calls@[c]]
                    0 <= a < context.messages@.len() && context.messages@[a].role
                        == MessageRole::Assistant && 0 <= c
                        < context.messages@[a].tool_calls@.len()
                        ==> context.messages@[a].tool_calls@[c].id@ != id@) ==> response.name@
                    == id@
            }
            &&& message.content matches Some(content) ==> {
                let parsed = json::parsed_tree(content@);
                &&& parsed == Some(tree) && (tree is Object) ==> response.response.deep_view()
                    == tree
                &&& !(parsed is Some && parsed->0 is Object) ==> response.response.deep_view()
                    == JsonTree::Object(seq![("result"@, JsonTree::Text(content@))])
            }
        }),
{
    let models = context.messages.deep_view();
    let messages = context.messages@;
    assert(models.len() == messages.len());
    assert forall|k: int| 0 <= k < messages.len() implies #[trigger] models[k]
        == messages[k].deep_view() by {}
    lemma_turns_before(messages, models, i);
    lemma_takes_turn(models, messages[i]);
    lemma_turn_at(models, models, i);
    let place = turns_before(messages, i) as int;
    assert(request.contents.deep_view().len() == request.contents@.len());
    assert(request.contents.deep_view()[place] == request.contents@[place].deep_view());
    let message = messages[i];
    let turn = request.contents@[place];
    let parts = turn.parts.deep_view();
    assert(parts.len() == turn.parts@.len());
    assert(parts[0] == turn.parts@[0].deep_view());
    let response = turn.parts@[0].function_response->0;
    assert(response.deep_view() == (response.name@, response.response.deep_view()));
    if let Some(id) = message.tool_call_id {
        lemma_called_name(models, id@);
        if is_name_of_call(messages, id@, name) {
            let (a, c) = choose|a: int, c: int|
                #![trigger messages[a].tool_calls@[c]]
                0 <= a < messages.len() && messages[a].role == MessageRole::Assistant && 0 <= c
                    < messages[a].tool_calls@.len() && messages[a].tool_calls@[c].id@ == id@;
            assert(messages[a].tool_calls.deep_view().len() == messages[a].tool_calls@.len());
            assert(models[a].tool_calls[c] == messages[a].tool_calls@[c].deep_view());
            assert(models[a].tool_calls[c].id == id@);
        }
        if let Some(found) = called_name(models, id@) {
            let (a, c) = choose|a: int, c: int|
                #![trigger models[a].tool_calls[c]]
                0 <= a < models.len() && models[a].role == MessageRole::Assistant && 0 <= c
                    < models[a].tool_calls.len() && models[a].tool_calls[c].id == id@
                    && models[a].tool_calls[c].name == found;
            assert(models[a] == messages[a].deep_view());
            assert(models[a].tool_calls.len() == messages[a].tool_calls@.len());
            assert(models[a].tool_calls[c] == messages[a].tool_calls@[c].deep_view());
            assert(messages[a].tool_calls@[c].id@ == id@);
        }
    }
}

/// How many of the first messages are the system's and say something.
pub open spec fn instructions_before(messages: Seq<Message>, i: int) -> nat
    decreases i,
{
    if i <= 0 {
        0
    } else {
        instructions_before(messages, i - 1) + if messages[i - 1].role == MessageRole::System
            && messages[i - 1].speaks() {
            1nat
        } else {
            0
        }
    }
}

proof fn lemma_instructions(messages: Seq<Message>, models: Seq<MessageModel>, i: int)
    requires
        models.len() == messages.len(),
        forall|k: int| 0 <= k < messages.len() ==> #[trigger] models[k] == messages[k].deep_view(),
        0 <= i <= messages.len(),
    ensures
        system_parts(models.take(i)).len() == instructions_before(messages, i),
        forall|k: int|
            0 <= k < i && (#[trigger] messages[k]).role == MessageRole::System
                && messages[k].speaks() ==> instructions_before(messages, k)
                < instructions_before(messages, i) && system_parts(
                models.take(i),
            )[instructions_before(messages, k) as int].text == Some(messages[k].content->0@),
    decreases i,
{
    if i > 0 {
        lemma_instructions(messages, models, i - 1);
        assert(models.take(i).drop_last() =~= models.take(i - 1));
        assert(models.take(i).last() == models[i - 1]);
    }
}

/// What the system messages say is the system's instruction, message by message, and
/// there is none without such a message. The tools of the conversation are all declared,
/// in their order, and a conversation without tools declares none. A conversation
/// without turns is refused.
pub proof fn law_request_carries_instructions_and_tools(
    context: Context,
    r: Result<GeminiGenerateContentRequest, ProviderError>,
    i: int,
    t: int,
)
    requires
        call_ensures(GeminiGenerateContentRequest::from_context, (&context,), r),
    ensures
        r is Ok <==> turns_before(context.messages@, context.messages@.len() as int) > 0,
        r matches Err(error) ==> (error matches ProviderError::RequestFailed { provider, .. }
            && provider.0@ == context.provider.0@),
        r matches Ok(request) ==> {
            let count = instructions_before(context.messages@, context.messages@.len() as int);
            &&& request.system_instruction is Some <==> count > 0
            &&& request.system_instruction matches Some(instruction) ==> instruction.parts@.len()
                == count
            &&& 0 <= i < context.messages@.len() && context.messages@[i].role
                == MessageRole::System && context.messages@[i].speaks() ==> (
            request.system_instruction matches Some(instruction)
                && instruction.parts@[instructions_before(context.messages@, i) as int].text matches
                Some(text) && text@ == context.messages@[i].content->0@)
            &&& request.tools is Some <==> context.tools@.len() > 0
            &&& 0 <= t < context.tools@.len() ==> (request.tools matches Some(tools) && tools@.len()
                == 1 && tools@[0].function_declarations@.len() == context.tools@.len() && ({
                let declared = tools@[0].function_declarations@[t];
                &&& declared.name@ == context.tools@[t].name@
                &&& match context.tools@[t].description {
                    Some(text) => declared.description matches Some(given) && given@ == text@,
                    None => declared.description is None,
                }
                &&& declared.parameters.deep_view() == schema::gemini_schema(
                    schema::schema_tree(context.tools@[t].parameters.deep_view()),
                )
            }))
        },
{
    let models = context.messages.deep_view();
    let messages = context.messages@;
    assert(models.len() == messages.len());
    assert forall|k: int| 0 <= k < messages.len() implies #[trigger] models[k]
        == messages[k].deep_view() by {}
    lemma_turns_before(messages, models, messages.len() as int);
    lemma_instructions(messages, models, messages.len() as int);
    assert(models.take(models.len() as int) =~= models);
    assert(context.tools.deep_view().len() == context.tools@.len());
    if let Ok(request) = r {
        if let Some(instruction) = request.system_instruction {
            let parts = instruction.parts.deep_view();
            assert(parts.len() == instruction.parts@.len());
            if 0 <= i < messages.len() && messages[i].role == MessageRole::System
                && messages[i].speaks() {
                let at = instructions_before(messages, i) as int;
                assert(messages[i].role == MessageRole::System);
                assert(parts[at] == instruction.parts@[at].deep_view());
            }
        }
        if let Some(tools) = request.tools {
            assert(tools.deep_view().len() == tools@.len());
            assert(tools.deep_view()[0] == tools@[0].deep_view());
            let declared = tools@[0].function_declarations;
            assert(declared.deep_view().len() == declared@.len());
            if 0 <= t < context.tools@.len() {
                assert(context.tools.deep_view()[t] == context.tools@[t].deep_view());
                assert(declared.deep_view()[t] == declared@[t].deep_view());
            }
        }
    }
}

/// How many items the first events of a batch hand out.
pub open spec fn handed_out(payloads: Seq<GeminiPayload>, i: int) -> nat
    decreases i,
{
    if i <= 0 {
        0
    } else {
        handed_out(payloads, i - 1) + match payloads[i - 1] {
            GeminiPayload::Items(items) => items@.len(),
            GeminiPayload::Invalid(_) => 0,
        }
    }
}

proof fn lemma_batch_of_items(
    finished: bool,
    payloads: Seq<GeminiPayload>,
    models: Seq<GeminiPayloadModel>,
    provider: Seq<char>,
    i: int,
)
    requires
        models.len() == payloads.len(),
        forall|k: int| 0 <= k < payloads.len() ==> #[trigger] models[k] == payloads[k].deep_view(),
        0 <= i <= payloads.len(),
        forall|k: int| 0 <= k < i ==> #[trigger] payloads[k] is Items,
    ensures
        gemini_batch(finished, models.take(i), provider).end is Open,
        gemini_batch(finished, models.take(i), provider).items.len() == handed_out(payloads, i),
        gemini_batch(finished, models.take(i), provider).finished <==> finished
            || has_finish_reason(gemini_batch(finished, models.take(i), provider).items),
    decreases i,
{
    if i == 0 {
        assert(models.take(0) =~= Seq::empty());
    } else {
        assert(models.take(i).drop_last() =~= models.take(i - 1));
        assert(models.take(i).last() == models[i - 1]);
        lemma_batch_of_items(finished, payloads, models, provider, i - 1);
        let before = gemini_batch(finished, models.take(i - 1), provider).items;
        assert(payloads[i - 1] is Items);
        let list = payloads[i - 1]->Items_0;
        let more = list.deep_view();
        assert(more.len() == list@.len());
        let after = gemini_batch(finished, models.take(i), provider).items;
        assert(after == before + more);
        lemma_finish_reason_adds(before, more);
    }
}

proof fn lemma_finish_reason_adds(before: Seq<StreamItemModel>, more: Seq<StreamItemModel>)
    ensures
        has_finish_reason(before + more) <==> has_finish_reason(before) || has_finish_reason(more),
{
    let after = before + more;
    if has_finish_reason(before) {
        let k = choose|k: int| 0 <= k < before.len() && #[trigger] before[k] is FinishReason;
        assert(after[k] is FinishReason);
    }
    if has_finish_reason(more) {
        let k = choose|k: int| 0 <= k < more.len() && #[trigger] more[k] is FinishReason;
        assert(after[before.len() + k] is FinishReason);
    }
    if has_finish_reason(after) {
        let k = choose|k: int| 0 <= k < after.len() && #[trigger] after[k] is FinishReason;
        if k < before.len() {
            assert(before[k] is FinishReason);
        } else {
            assert(more[k - before.len()] is FinishReason);
        }
    }
}

proof fn lemma_batch_at(
    finished: bool,
    payloads: Seq<GeminiPayload>,
    models: Seq<GeminiPayloadModel>,
    provider: Seq<char>,
    i: int,
    k: int,
    t: int,
)
    requires
        models.len() == payloads.len(),
        forall|k: int| 0 <= k < payloads.len() ==> #[trigger] models[k] == payloads[k].deep_view(),
        0 <= k < i <= payloads.len(),
        forall|k: int| 0 <= k < i ==> #[trigger] payloads[k] is Items,
        0 <= t < payloads[k]->Items_0@.len(),
    ensures
        handed_out(payloads, k) + t < gemini_batch(finished, models.take(i), provider).items.len(),
        gemini_batch(finished, models.take(i), provider).items[handed_out(payloads, k) + t]
            == payloads[k]->Items_0@[t].deep_view(),
    decreases i,
{
    assert(models.take(i).drop_last() =~= models.take(i - 1));
    assert(models.take(i).last() == models[i - 1]);
    lemma_batch_of_items(finished, payloads, models, provider, i - 1);
    assert(payloads[i - 1] is Items);
    let list = payloads[i - 1]->Items_0;
    let more = list.deep_view();
    assert(more.len() == list@.len());
    if k < i - 1 {
        lemma_batch_at(finished, payloads, models, provider, i - 1, k, t);
    } else {
        assert(more[t] == list@[t].deep_view());
    }
}

/// A batch of events that can all be read hands out every item of every event, in order,
/// and leaves the stream open; why an answer ended has been said once an item says it. A
/// stream that is over without that has lost its connection.
pub proof fn law_batch_hands_everything_on(
    payloads: Vec<GeminiPayload>,
    provider: ProviderId,
    received_finish: &mut bool,
    batch: StreamBatch,
    last: Option<StreamItem>,
    k: int,
    t: int,
)
    requires
        call_ensures(process_gemini_payloads, (payloads, &provider, received_finish), batch),
        forall|k: int| 0 <= k < payloads@.len() ==> #[trigger] payloads@[k] is Items,
        call_ensures(gemini_stream_end, (*final(received_finish),), last),
    ensures
        batch.end is Open,
        batch.items@.len() == handed_out(payloads@, payloads@.len() as int),
        0 <= k < payloads@.len() && 0 <= t < payloads@[k]->Items_0@.len() ==> batch.items@[handed_out(
            payloads@,
            k,
        ) + t].deep_view() == payloads@[k]->Items_0@[t].deep_view(),
        *final(received_finish) <==> *old(received_finish) || exists|i: int|
            0 <= i < batch.items@.len() && #[trigger] batch.items@[i] is FinishReason,
        last is None <==> *final(received_finish),
        last matches Some(item) ==> item is ConnectionLost,
{
    let models = payloads.deep_view();
    assert(models.len() == payloads@.len());
    assert forall|k: int| 0 <= k < payloads@.len() implies #[trigger] models[k]
        == payloads@[k].deep_view() by {}
    let count = payloads@.len() as int;
    assert(models.take(count) =~= models);
    lemma_batch_of_items(*old(received_finish), payloads@, models, provider.0@, count);
    let items = batch.items.deep_view();
    assert(items.len() == batch.items@.len());
    if 0 <= k < count && 0 <= t < payloads@[k]->Items_0@.len() {
        let at = handed_out(payloads@, k) + t;
        lemma_batch_at(*old(received_finish), payloads@, models, provider.0@, count, k, t);
        assert(items[at] == batch.items@[at].deep_view());
    }
    if has_finish_reason(items) {
        let i = choose|i: int| 0 <= i < items.len() && #[trigger] items[i] is FinishReason;
        assert(items[i] == batch.items@[i].deep_view());
        assert(batch.items@[i] is FinishReason);
    }
    if exists|i: int| 0 <= i < batch.items@.len() && #[trigger] batch.items@[i] is FinishReason {
        let i = choose|i: int|
            0 <= i < batch.items@.len() && #[trigger] batch.items@[i] is FinishReason;
        assert(items[i] is FinishReason);
    }
}

/// The same model is asked for whole and for streamed answers at addresses under the same
/// base, which differ, and each of which names the model.
pub proof fn law_addresses_name_the_model(base: &str, model: &str, whole: String, streamed: String)
    requires
        call_ensures(generate_content_url, (base, model), whole),
        call_ensures(stream_generate_content_url, (base, model), streamed),
    ensures
        whole@ == base@ + "/v1beta/models/"@ + model@ + ":generateContent"@,
        streamed@ == base@ + "/v1beta/models/"@ + model@ + ":streamGenerateContent?alt=sse"@,
        whole@ != streamed@,
{
    reveal_strlit(":generateContent");
    reveal_strlit(":streamGenerateContent?alt=sse");
    assert(whole@.len() < streamed@.len());
}

/// The result of a tool is handed to Gemini as the object that it is, or else under `result`
/// as the text that it is.
pub proof fn law_results_are_objects(content: Option<String>, parsed: Option<Json>, r: Json)
    requires
        call_ensures(tool_answer, (&content, parsed), r),
    ensures
        r is Object,
        parsed matches Some(json) ==> (json is Object ==> r.deep_view() == json.deep_view()),
        !(parsed matches Some(json) && json is Object) ==> r.deep_view() == JsonTree::Object(
            seq![
                (
                    "result"@,
                    JsonTree::Text(
                        match content {
                            Some(text) => text@,
                            None => ""@,
                        },
                    ),
                ),
            ],
        ),
{
    reveal_strlit("");
    assert(""@ =~= Seq::<char>::empty());
}

/// A part holds what it was made of, and nothing else.
pub proof fn law_parts_hold_what_they_were_made_of(
    text: &str,
    said: GeminiPart,
    name: &str,
    args: Json,
    signature: Option<&str>,
    call: GeminiPart,
    response: Json,
    answer: GeminiPart,
)
    requires
        call_ensures(GeminiPart::text, (text,), said),
        call_ensures(GeminiPart::function_call, (name, &args, signature), call),
        call_ensures(GeminiPart::function_response, (name, response), answer),
    ensures
        said.text matches Some(inner) && inner@ == text@,
        said.function_call is None && said.function_response is None && said.inline_data is None,
        call.function_call matches Some(made) && made.name@ == name@ && made.args.deep_view()
            == args.deep_view(),
        call.thought_signature is Some <==> signature is Some,
        call.text is None && call.function_response is None && call.inline_data is None,
        answer.function_response matches Some(made) && made.name@ == name@
            && made.response.deep_view() == response.deep_view(),
        answer.text is None && answer.function_call is None && answer.inline_data is None,
{
}

} // verus!
