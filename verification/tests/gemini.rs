use oxydra::gemini::{
    gemini_payload_error, gemini_stream_end, gemini_stream_payload, gemini_transport_lost,
    generate_content_url, normalize_gemini_response, normalize_gemini_response_with_ids,
    normalize_gemini_stream_chunk, process_gemini_payloads, stream_generate_content_url,
    GeminiCandidate, GeminiContent, GeminiFunctionCall, GeminiGenerateContentRequest,
    GeminiGenerateContentResponse, GeminiInlineData, GeminiPart, GeminiPayload,
    GeminiUsageMetadata,
};
use oxydra::json::{parse_json, Json};
use oxydra::model::{
    Context, InlineMedia, Message, MessageRole, ModelId, ProviderError, ProviderId, StreamItem,
    ToolCall, UsageUpdate,
};
use oxydra::schema::{
    sanitize_schema_for_gemini, sanitize_schema_strict, FunctionDecl, JsonSchema, JsonSchemaType,
};
use oxydra::stream::{BatchEnd, StreamPayload};

fn provider() -> ProviderId {
    ProviderId::new("gemini")
}

fn json(text: &str) -> Json {
    parse_json(text).expect("text should be JSON")
}

fn message(role: MessageRole, content: Option<&str>) -> Message {
    Message {
        role,
        content: content.map(str::to_owned),
        tool_calls: vec![],
        tool_call_id: None,
        attachments: vec![],
    }
}

fn call(id: &str, name: &str) -> ToolCall {
    ToolCall {
        id: id.to_owned(),
        name: name.to_owned(),
        arguments: json(r#"{"path":"a"}"#),
        metadata: None,
    }
}

fn context(messages: Vec<Message>) -> Context {
    Context { provider: provider(), model: ModelId::new("gemini-2.0-flash"), tools: vec![], messages }
}

#[test]
fn gemini_requests_carry_the_conversation() {
    let request = GeminiGenerateContentRequest::from_context(&context(vec![
        message(MessageRole::System, Some("Be brief")),
        Message {
            attachments: vec![InlineMedia { mime_type: "image/png".to_owned(), data: vec![1, 2] }],
            ..message(MessageRole::User, Some("Hi"))
        },
        Message {
            tool_calls: vec![call("c1", "file_read")],
            ..message(MessageRole::Assistant, None)
        },
        Message {
            tool_call_id: Some("c1".to_owned()),
            ..message(MessageRole::Tool, Some(r#"{"ok":true}"#))
        },
    ]))
    .expect("request should normalize");
    let system = request.system_instruction.expect("system text is kept apart");
    assert_eq!(system.parts[0].text.as_deref(), Some("Be brief"));
    assert_eq!(request.contents.len(), 3);
    assert_eq!(request.contents[0].role, "user");
    let media: Vec<&GeminiInlineData> = request.contents[0]
        .parts
        .iter()
        .filter_map(|part| part.inline_data.as_ref())
        .collect();
    assert_eq!(media.len(), 1);
    assert_eq!(media[0].data, "AQI=");
    assert_eq!(request.contents[1].role, "model");
    let made = request.contents[1].parts[0].function_call.as_ref().expect("the call is made");
    assert_eq!(made.name, "file_read");
    assert_eq!(made.args, json(r#"{"path":"a"}"#));
    let answered =
        request.contents[2].parts[0].function_response.as_ref().expect("the call is answered");
    assert_eq!(answered.name, "file_read");
    assert!(request.tools.is_none());
}

fn part() -> GeminiPart {
    GeminiPart {
        text: None,
        function_call: None,
        function_response: None,
        thought_signature: None,
        inline_data: None,
    }
}

fn answer(parts: Vec<GeminiPart>, finish_reason: Option<&str>) -> GeminiGenerateContentResponse {
    GeminiGenerateContentResponse {
        candidates: vec![GeminiCandidate {
            content: Some(GeminiContent { role: "model".to_owned(), parts }),
            finish_reason: finish_reason.map(str::to_owned),
        }],
        usage_metadata: Some(GeminiUsageMetadata {
            prompt_token_count: Some(3),
            candidates_token_count: Some(4),
            total_token_count: Some(7),
        }),
    }
}

fn calling() -> GeminiPart {
    GeminiPart {
        function_call: Some(GeminiFunctionCall {
            name: "file_read".to_owned(),
            args: json(r#"{"path":"a"}"#),
        }),
        ..part()
    }
}

#[test]
fn gemini_answers_are_normalized() {
    let parts = vec![
        GeminiPart { text: Some("Done".to_owned()), ..part() },
        GeminiPart {
            inline_data: Some(GeminiInlineData {
                mime_type: "image/png".to_owned(),
                data: "AQI=".to_owned(),
            }),
            ..part()
        },
        calling(),
    ];
    let normalized = normalize_gemini_response_with_ids(
        answer(parts, Some("STOP")),
        &provider(),
        &vec!["id-1".to_owned()],
    )
    .expect("answer should normalize");
    assert_eq!(normalized.message.content.as_deref(), Some("Done"));
    assert_eq!(normalized.tool_calls.len(), 1);
    assert!(normalized.tool_calls[0].id.contains("id-1"));
    assert_eq!(normalized.message.attachments[0].data, vec![1, 2]);
    assert_eq!(
        normalized.usage,
        Some(UsageUpdate {
            prompt_tokens: Some(3),
            completion_tokens: Some(4),
            total_tokens: Some(7),
        })
    );
}

#[test]
fn gemini_calls_get_fresh_ids() {
    let first = normalize_gemini_response(answer(vec![calling()], None), &provider())
        .expect("answer should normalize");
    let second = normalize_gemini_response(answer(vec![calling()], None), &provider())
        .expect("answer should normalize");
    assert_ne!(first.tool_calls[0].id, second.tool_calls[0].id);
    let none = GeminiGenerateContentResponse { candidates: vec![], usage_metadata: None };
    assert!(matches!(
        normalize_gemini_response(none, &provider()),
        Err(ProviderError::ResponseParse { .. })
    ));
}

#[test]
fn gemini_streams_end_with_their_finish_reason() {
    let chunk =
        answer(vec![GeminiPart { text: Some("Hi".to_owned()), ..part() }, calling()], Some("STOP"));
    let items = normalize_gemini_stream_chunk(&chunk);
    assert!(items.contains(&StreamItem::Text("Hi".to_owned())));
    assert!(items.iter().any(|item| matches!(item, StreamItem::ToolCallDelta(_))));
    assert!(items.iter().any(|item| matches!(item, StreamItem::FinishReason(_))));
    let mut finished = false;
    let batch =
        process_gemini_payloads(vec![GeminiPayload::Items(items)], &provider(), &mut finished);
    assert!(finished);
    assert_eq!(batch.end, BatchEnd::Open);
    assert_eq!(gemini_stream_end(finished), None);
    assert!(matches!(gemini_stream_end(false), Some(StreamItem::ConnectionLost(_))));
    let mut finished = false;
    let broken = process_gemini_payloads(
        vec![GeminiPayload::Invalid("oops".to_owned())],
        &provider(),
        &mut finished,
    );
    assert_eq!(broken.end, BatchEnd::Failed(gemini_payload_error(&provider(), "oops")));
    assert!(matches!(
        gemini_transport_lost("reset"),
        StreamItem::ConnectionLost(message) if message.contains("reset")
    ));
    assert_eq!(gemini_stream_payload(" "), StreamPayload::Empty);
}

#[test]
fn gemini_addresses_name_the_model() {
    assert_eq!(
        generate_content_url("https://g", "gemini-2.0-flash"),
        "https://g/v1beta/models/gemini-2.0-flash:generateContent"
    );
    assert_eq!(
        stream_generate_content_url("https://g", "gemini-2.0-flash"),
        "https://g/v1beta/models/gemini-2.0-flash:streamGenerateContent?alt=sse"
    );
}

#[test]
fn gemini_schemas_lose_what_the_service_refuses() {
    let mut schema = json(
        r#"{"type":"object","additionalProperties":false,"properties":{"a":{"type":"object","additionalProperties":true}}}"#,
    );
    sanitize_schema_for_gemini(&mut schema);
    assert!(!schema.to_text().contains("additionalProperties"));
    assert!(schema.to_text().contains("\"properties\""));
    let decl = FunctionDecl::new(
        "f",
        None,
        JsonSchema::object(
            vec![
                ("b".to_owned(), JsonSchema::new(JsonSchemaType::String)),
                ("a".to_owned(), JsonSchema::new(JsonSchemaType::Integer)),
            ],
            vec!["a".to_owned()],
        ),
    );
    let strict = sanitize_schema_strict(&decl.parameters);
    assert_eq!(strict.additional_properties, Some(false));
    assert_eq!(strict.required.len(), 2);
}
