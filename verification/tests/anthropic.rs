use oxydra::anthropic::{
    anthropic_event_kind, anthropic_role_to_message_role, anthropic_stream_end,
    anthropic_stream_payload, anthropic_transport_lost, messages_url,
    normalize_anthropic_response, parse_anthropic_stream_payload, parse_content_block_delta,
    parse_content_block_start, parse_error_event, parse_message_delta, parse_message_start,
    process_anthropic_payloads, AnthropicConfig, AnthropicContentBlockDeltaEvent,
    AnthropicContentBlockStartEvent, AnthropicContentBlockStartPayload, AnthropicDelta,
    AnthropicDeltaUsage, AnthropicEventAction, AnthropicEventKind, AnthropicMessageDeltaEvent,
    AnthropicMessageDeltaPayload, AnthropicMessageStartEvent, AnthropicMessageStartPayload,
    AnthropicMessagesRequest, AnthropicMessagesResponse, AnthropicPayload,
    AnthropicRequestContentBlock, AnthropicResponseContentBlock, AnthropicStreamErrorEvent,
    AnthropicStreamErrorPayload, AnthropicToolCallAccumulator, AnthropicUsage, InvalidEvent,
};
use oxydra::endpoint::{
    extract_http_error_message, resolve_api_key_from_sources, validate_context,
    ErrorEnvelopes, ModelCatalog, ANTHROPIC_DEFAULT_BASE_URL, DEFAULT_ANTHROPIC_MAX_TOKENS,
};
use oxydra::exchange::{anthropic_completion, HttpOutcome};
use oxydra::json::{parse_json, Json};
use oxydra::model::{
    Context, Message, MessageRole, ModelId, ProviderError, ProviderId, StreamItem,
    ToolCall, ToolCallDelta, UsageUpdate,
};
use oxydra::schema::{FunctionDecl, JsonSchema, JsonSchemaType};
use oxydra::stream::{BatchEnd, StreamPayload};

fn provider() -> ProviderId {
    ProviderId::new("anthropic")
}

fn json(text: &str) -> Json {
    parse_json(text).expect("text should be JSON")
}

fn text_at(value: &serde_json::Value, name: &str) -> Option<String> {
    value.get(name).and_then(|member| member.as_str()).map(str::to_owned)
}

fn parsed(text: &str) -> serde_json::Value {
    serde_json::from_str(text).expect("event should be JSON")
}

fn event_kind(text: &str) -> AnthropicEventKind {
    anthropic_event_kind(&text_at(&parsed(text), "type").expect("event should have a type"))
}

fn message_start(text: &str) -> AnthropicMessageStartEvent {
    let event = parsed(text);
    AnthropicMessageStartEvent {
        message: AnthropicMessageStartPayload {
            usage: event["message"].get("usage").map(|usage| AnthropicUsage {
                input_tokens: usage.get("input_tokens").and_then(|count| count.as_u64()),
                output_tokens: usage.get("output_tokens").and_then(|count| count.as_u64()),
            }),
        },
    }
}

fn block_start(text: &str) -> AnthropicContentBlockStartEvent {
    let event = parsed(text);
    let block = &event["content_block"];
    AnthropicContentBlockStartEvent {
        index: event["index"].as_u64().expect("event should have an index") as usize,
        content_block: AnthropicContentBlockStartPayload {
            kind: text_at(block, "type").expect("block should have a type"),
            id: text_at(block, "id"),
            name: text_at(block, "name"),
        },
    }
}

fn block_delta(text: &str) -> AnthropicContentBlockDeltaEvent {
    let event = parsed(text);
    let delta = &event["delta"];
    AnthropicContentBlockDeltaEvent {
        index: event["index"].as_u64().expect("event should have an index") as usize,
        delta: AnthropicDelta {
            kind: text_at(delta, "type").expect("delta should have a type"),
            text: text_at(delta, "text"),
            partial_json: text_at(delta, "partial_json"),
            thinking: text_at(delta, "thinking"),
        },
    }
}

fn message_delta(text: &str) -> AnthropicMessageDeltaEvent {
    let event = parsed(text);
    AnthropicMessageDeltaEvent {
        delta: AnthropicMessageDeltaPayload { stop_reason: text_at(&event["delta"], "stop_reason") },
        usage: event.get("usage").map(|usage| AnthropicDeltaUsage {
            output_tokens: usage.get("output_tokens").and_then(|count| count.as_u64()),
        }),
    }
}

fn stream_error(text: &str) -> AnthropicStreamErrorEvent {
    AnthropicStreamErrorEvent {
        error: AnthropicStreamErrorPayload { message: text_at(&parsed(text)["error"], "message") },
    }
}

#[test]
fn default_anthropic_config_uses_anthropic_base_url() {
    let config = AnthropicConfig::default();
    assert_eq!(config.base_url, ANTHROPIC_DEFAULT_BASE_URL);
    assert_eq!(config.max_tokens, DEFAULT_ANTHROPIC_MAX_TOKENS);
}

#[test]
fn anthropic_api_key_resolution_uses_expected_precedence() {
    let resolved = resolve_api_key_from_sources(
        Some("explicit".to_owned()),
        Some("anthropic-env".to_owned()),
        Some("fallback".to_owned()),
    );
    assert_eq!(resolved.as_deref(), Some("explicit"));

    let resolved = resolve_api_key_from_sources(
        None,
        Some("anthropic-env".to_owned()),
        Some("fallback".to_owned()),
    );
    assert_eq!(resolved.as_deref(), Some("anthropic-env"));

    let resolved = resolve_api_key_from_sources(None, None, Some("fallback".to_owned()));
    assert_eq!(resolved.as_deref(), Some("fallback"));
}

fn message(role: MessageRole, content: Option<&str>) -> Message {
    Message {
        role,
        content: content.map(str::to_owned),
        tool_calls: vec![],
        tool_call_id: None,
        attachments: vec![],
    }
}

#[test]
fn anthropic_request_normalization_snapshot_is_stable() {
    let context = Context {
        provider: provider(),
        model: ModelId::new("sonnet-3-5-latest"),
        tools: vec![FunctionDecl::new(
            "file_read",
            Some("Read UTF-8 text from a file".to_owned()),
            JsonSchema::object(
                vec![("path".to_owned(), JsonSchema::new(JsonSchemaType::String))],
                vec!["path".to_owned()],
            ),
        )],
        messages: vec![
            message(MessageRole::System, Some("You are concise")),
            message(MessageRole::User, Some("List project files")),
            Message {
                tool_calls: vec![ToolCall {
                    id: "call_1".to_owned(),
                    name: "file_read".to_owned(),
                    arguments: json(r#"{"path": "Cargo.toml"}"#),
                    metadata: None,
                }],
                ..message(MessageRole::Assistant, None)
            },
            Message {
                tool_call_id: Some("call_1".to_owned()),
                ..message(MessageRole::Tool, Some("{\"ok\":true}"))
            },
        ],
    };
    let request = AnthropicMessagesRequest::from_context(&context, DEFAULT_ANTHROPIC_MAX_TOKENS)
        .expect("request should normalize");
    assert_eq!(request.max_tokens, 1024);
    assert_eq!(request.model, "sonnet-3-5-latest");
    assert_eq!(request.system.as_deref(), Some("You are concise"));
    assert!(!request.stream);
    assert_eq!(request.tool_choice.expect("tools are offered").kind, "auto");
    assert_eq!(request.messages.len(), 3);
    assert_eq!(request.messages[0].role, "user");
    assert_eq!(
        request.messages[0].content,
        vec![AnthropicRequestContentBlock::Text { text: "List project files".to_owned() }]
    );
    assert_eq!(request.messages[1].role, "assistant");
    assert_eq!(
        request.messages[1].content,
        vec![AnthropicRequestContentBlock::ToolUse {
            id: "call_1".to_owned(),
            name: "file_read".to_owned(),
            input: json(r#"{"path": "Cargo.toml"}"#),
        }]
    );
    assert_eq!(request.messages[2].role, "user");
    assert_eq!(
        request.messages[2].content,
        vec![AnthropicRequestContentBlock::ToolResult {
            tool_use_id: "call_1".to_owned(),
            content: "{\"ok\":true}".to_owned(),
        }]
    );
    assert_eq!(request.tools.len(), 1);
    assert_eq!(request.tools[0].name, "file_read");
    assert_eq!(request.tools[0].description.as_deref(), Some("Read UTF-8 text from a file"));
    let schema: serde_json::Value = parsed(&request.tools[0].input_schema.to_text());
    assert_eq!(
        schema,
        parsed(
            r#"{
              "additionalProperties": false,
              "properties": { "path": { "type": "string" } },
              "required": ["path"],
              "type": "object"
            }"#
        )
    );
}

#[test]
fn requests_need_what_the_service_needs() {
    let mut context = Context {
        provider: provider(),
        model: ModelId::new("m"),
        tools: vec![],
        messages: vec![message(MessageRole::System, Some("a")), message(MessageRole::System, Some("b"))],
    };
    let empty = AnthropicMessagesRequest::from_context(&context, 5).expect_err("nothing to send");
    assert!(matches!(empty, ProviderError::RequestFailed { .. }));
    context.messages.push(message(MessageRole::Tool, Some("result")));
    let unlinked = AnthropicMessagesRequest::from_context(&context, 5).expect_err("no call id");
    assert!(matches!(unlinked, ProviderError::RequestFailed { .. }));
    context.messages.pop();
    context.messages.push(message(MessageRole::User, Some("hi")));
    let request = AnthropicMessagesRequest::from_context_with_stream(&context, 5, true)
        .expect("request should normalize");
    assert_eq!(request.system.as_deref(), Some("a\n\nb"));
    assert!(request.stream);
    assert_eq!(request.tool_choice, None);
}

#[test]
fn anthropic_response_normalization_maps_text_and_tool_use() {
    let response = AnthropicMessagesResponse {
        role: "assistant".to_owned(),
        content: vec![
            AnthropicResponseContentBlock {
                kind: "text".to_owned(),
                text: Some("Done".to_owned()),
                id: None,
                name: None,
                input: None,
            },
            AnthropicResponseContentBlock {
                kind: "tool_use".to_owned(),
                text: None,
                id: Some("call_1".to_owned()),
                name: Some("file_read".to_owned()),
                input: Some(json(r#"{"path":"Cargo.toml"}"#)),
            },
        ],
        stop_reason: Some("tool_use".to_owned()),
        usage: Some(AnthropicUsage { input_tokens: Some(5), output_tokens: Some(2) }),
    };

    let normalized = normalize_anthropic_response(response, &provider()).expect("should parse");
    assert_eq!(normalized.message.role, MessageRole::Assistant);
    assert_eq!(normalized.message.content.as_deref(), Some("Done"));
    assert_eq!(normalized.finish_reason.as_deref(), Some("tool_use"));
    assert_eq!(
        normalized.usage,
        Some(UsageUpdate {
            prompt_tokens: Some(5),
            completion_tokens: Some(2),
            total_tokens: Some(7),
        })
    );
    assert_eq!(normalized.tool_calls.len(), 1);
    assert_eq!(normalized.tool_calls[0].id, "call_1");
    assert_eq!(normalized.tool_calls[0].name, "file_read");
    assert_eq!(normalized.tool_calls[0].arguments, json(r#"{"path": "Cargo.toml"}"#));
}

fn catalog() -> ModelCatalog {
    ModelCatalog { entries: vec![(provider(), ModelId::new("sonnet-3-5-latest"))] }
}

#[test]
fn anthropic_unknown_models_are_rejected_before_network_request() {
    let validation = validate_context(
        &provider(),
        &ModelId::new("unknown-model"),
        &provider(),
        &provider(),
        &catalog(),
    );
    assert!(matches!(validation, Err(ProviderError::UnknownModel { .. })));
    assert_eq!(
        validate_context(
            &provider(),
            &ModelId::new("sonnet-3-5-latest"),
            &provider(),
            &provider(),
            &catalog(),
        ),
        Ok(())
    );
}

#[test]
fn anthropic_http_status_errors_are_mapped() {
    let body = r#"{"type":"error","error":{"type":"rate_limit_error","message":"rate limited"}}"#;
    let said = text_at(&parsed(body)["error"], "message");
    let envelopes = ErrorEnvelopes {
        openai: said.clone(),
        anthropic_error: said.clone(),
        anthropic: text_at(&parsed(body), "message"),
        gemini: said,
    };
    let refused = HttpOutcome::Refused { status: 429, body: body.to_owned(), envelopes };
    assert!(matches!(
        anthropic_completion(refused, &provider()),
        Err(ProviderError::HttpStatus { status: 429, message, .. }) if message == "rate limited"
    ));
    let nothing =
        ErrorEnvelopes { openai: None, anthropic_error: None, anthropic: None, gemini: None };
    assert_eq!(extract_http_error_message("  plain text  ", nothing), "plain text");
}

#[test]
fn anthropic_response_parse_errors_are_mapped() {
    let error = parse_json("not-json").expect_err("text is no JSON");
    assert!(matches!(
        anthropic_completion(HttpOutcome::Unreadable(error), &provider()),
        Err(ProviderError::ResponseParse { message, .. }) if !message.is_empty()
    ));
}

#[test]
fn stream_event_envelope_extracts_type() {
    let json = r#"{"type":"message_start","message":{"usage":{}}}"#;
    assert_eq!(event_kind(json), AnthropicEventKind::MessageStart);
}

#[test]
fn message_start_with_usage() {
    let json = r#"{"type":"message_start","message":{"usage":{"input_tokens":42}}}"#;
    let ev = message_start(json);
    let usage = ev.message.usage.unwrap();
    assert_eq!(usage.input_tokens, Some(42));
    assert_eq!(usage.output_tokens, None);
    let mut input_tokens = None;
    assert_eq!(
        parse_message_start(message_start(json), &provider(), &mut input_tokens),
        AnthropicEventAction::Items(vec![StreamItem::UsageUpdate(UsageUpdate {
            prompt_tokens: Some(42),
            completion_tokens: None,
            total_tokens: None,
        })])
    );
    assert_eq!(input_tokens, Some(42));
}

#[test]
fn message_start_without_usage() {
    let json = r#"{"type":"message_start","message":{}}"#;
    let ev = message_start(json);
    assert!(ev.message.usage.is_none());
    let mut input_tokens = None;
    assert_eq!(
        parse_message_start(ev, &provider(), &mut input_tokens),
        AnthropicEventAction::Items(vec![])
    );
    assert_eq!(input_tokens, None);
}

#[test]
fn content_block_start_text() {
    let json =
        r#"{"type":"content_block_start","index":0,"content_block":{"type":"text","text":""}}"#;
    let ev = block_start(json);
    assert_eq!(ev.index, 0);
    assert_eq!(ev.content_block.kind, "text");
    assert!(ev.content_block.id.is_none());
    assert!(ev.content_block.name.is_none());
    let mut acc = AnthropicToolCallAccumulator::default();
    assert_eq!(
        parse_content_block_start(ev, &provider(), &mut acc),
        AnthropicEventAction::Items(vec![])
    );
}

#[test]
fn content_block_start_tool_use() {
    let json = r#"{"type":"content_block_start","index":1,"content_block":{"type":"tool_use","id":"toolu_123","name":"get_weather"}}"#;
    let ev = block_start(json);
    assert_eq!(ev.index, 1);
    assert_eq!(ev.content_block.kind, "tool_use");
    assert_eq!(ev.content_block.id.as_deref(), Some("toolu_123"));
    assert_eq!(ev.content_block.name.as_deref(), Some("get_weather"));
    let mut acc = AnthropicToolCallAccumulator::default();
    assert_eq!(
        parse_content_block_start(ev, &provider(), &mut acc),
        AnthropicEventAction::Items(vec![StreamItem::ToolCallDelta(ToolCallDelta {
            index: 0,
            id: Some("toolu_123".to_owned()),
            name: Some("get_weather".to_owned()),
            arguments: None,
            metadata: None,
        })])
    );
}

#[test]
fn content_block_start_thinking() {
    let json = r#"{"type":"content_block_start","index":0,"content_block":{"type":"thinking"}}"#;
    let ev = block_start(json);
    assert_eq!(ev.content_block.kind, "thinking");
}

#[test]
fn content_block_delta_text() {
    let json = r#"{"type":"content_block_delta","index":0,"delta":{"type":"text_delta","text":"Hello"}}"#;
    let ev = block_delta(json);
    assert_eq!(ev.index, 0);
    assert_eq!(ev.delta.kind, "text_delta");
    assert_eq!(ev.delta.text.as_deref(), Some("Hello"));
    assert!(ev.delta.partial_json.is_none());
    assert!(ev.delta.thinking.is_none());
    let mut acc = AnthropicToolCallAccumulator::default();
    assert_eq!(
        parse_content_block_delta(ev, &provider(), &mut acc),
        AnthropicEventAction::Items(vec![StreamItem::Text("Hello".to_owned())])
    );
}

#[test]
fn content_block_delta_input_json() {
    let json = r#"{"type":"content_block_delta","index":1,"delta":{"type":"input_json_delta","partial_json":"{\"loc"}}"#;
    let ev = block_delta(json);
    assert_eq!(ev.delta.kind, "input_json_delta");
    assert_eq!(ev.delta.partial_json.as_deref(), Some("{\"loc"));
    let mut acc = AnthropicToolCallAccumulator::default();
    assert_eq!(
        parse_content_block_delta(ev, &provider(), &mut acc),
        AnthropicEventAction::Items(vec![StreamItem::ToolCallDelta(ToolCallDelta {
            index: 0,
            id: None,
            name: None,
            arguments: Some("{\"loc".to_owned()),
            metadata: None,
        })])
    );
}

#[test]
fn content_block_delta_thinking() {
    let json = r#"{"type":"content_block_delta","index":0,"delta":{"type":"thinking_delta","thinking":"Let me think..."}}"#;
    let ev = block_delta(json);
    assert_eq!(ev.delta.kind, "thinking_delta");
    assert_eq!(ev.delta.thinking.as_deref(), Some("Let me think..."));
    let mut acc = AnthropicToolCallAccumulator::default();
    assert_eq!(
        parse_content_block_delta(ev, &provider(), &mut acc),
        AnthropicEventAction::Items(vec![StreamItem::ReasoningDelta("Let me think...".to_owned())])
    );
}

#[test]
fn message_delta_with_stop_reason_and_usage() {
    let json = r#"{"type":"message_delta","delta":{"stop_reason":"end_turn"},"usage":{"output_tokens":15}}"#;
    let ev = message_delta(json);
    assert_eq!(ev.delta.stop_reason.as_deref(), Some("end_turn"));
    let usage = ev.usage.unwrap();
    assert_eq!(usage.output_tokens, Some(15));
    assert_eq!(
        parse_message_delta(ev, Some(42)),
        AnthropicEventAction::Items(vec![
            StreamItem::FinishReason("end_turn".to_owned()),
            StreamItem::UsageUpdate(UsageUpdate {
                prompt_tokens: Some(42),
                completion_tokens: Some(15),
                total_tokens: Some(57),
            }),
        ])
    );
}

#[test]
fn message_delta_null_stop_reason() {
    let json = r#"{"type":"message_delta","delta":{"stop_reason":null},"usage":{"output_tokens":5}}"#;
    let ev = message_delta(json);
    assert!(ev.delta.stop_reason.is_none());
}

#[test]
fn message_delta_without_usage() {
    let json = r#"{"type":"message_delta","delta":{"stop_reason":"end_turn"}}"#;
    let ev = message_delta(json);
    assert!(ev.usage.is_none());
    assert_eq!(
        parse_message_delta(ev, None),
        AnthropicEventAction::Items(vec![StreamItem::FinishReason("end_turn".to_owned())])
    );
}

#[test]
fn stream_error_event() {
    let json = r#"{"type":"error","error":{"type":"overloaded_error","message":"Overloaded"}}"#;
    let ev = stream_error(json);
    assert_eq!(ev.error.message.as_deref(), Some("Overloaded"));
    assert!(matches!(
        parse_error_event(ev, &provider()),
        AnthropicEventAction::Error(ProviderError::ResponseParse { message, .. })
            if message == "Overloaded"
    ));
}

#[test]
fn stream_error_without_message() {
    let json = r#"{"type":"error","error":{"type":"server_error"}}"#;
    let ev = stream_error(json);
    assert!(ev.error.message.is_none());
    assert!(matches!(parse_error_event(ev, &provider()), AnthropicEventAction::Error(_)));
}

#[test]
fn unknown_fields_are_tolerated() {
    let json = r#"{"type":"content_block_delta","index":0,"delta":{"type":"text_delta","text":"hi","future_field":true},"extra":42}"#;
    let ev = block_delta(json);
    assert_eq!(ev.delta.text.as_deref(), Some("hi"));
}

#[test]
fn ping_event_parses() {
    assert_eq!(event_kind(r#"{"type":"ping"}"#), AnthropicEventKind::Ignored);
}

#[test]
fn message_stop_parses() {
    assert_eq!(event_kind(r#"{"type":"message_stop"}"#), AnthropicEventKind::MessageStop);
}

#[test]
fn content_block_stop_parses() {
    assert_eq!(
        event_kind(r#"{"type":"content_block_stop","index":0}"#),
        AnthropicEventKind::Ignored
    );
}

#[test]
fn start_tool_assigns_sequential_ordinals() {
    let mut acc = AnthropicToolCallAccumulator::default();

    let delta0 = acc.start_tool(1, Some("id_a".into()), Some("func_a".into()));
    assert_eq!(delta0.index, 0);
    assert_eq!(delta0.id.as_deref(), Some("id_a"));
    assert_eq!(delta0.name.as_deref(), Some("func_a"));
    assert!(delta0.arguments.is_none());

    let delta1 = acc.start_tool(3, Some("id_b".into()), Some("func_b".into()));
    assert_eq!(delta1.index, 1);
    assert_eq!(delta1.id.as_deref(), Some("id_b"));
    assert_eq!(delta1.name.as_deref(), Some("func_b"));
    assert!(delta1.arguments.is_none());
}

#[test]
fn append_json_accumulates_arguments() {
    let mut acc = AnthropicToolCallAccumulator::default();
    acc.start_tool(1, Some("id_a".into()), Some("func_a".into()));

    let delta1 = acc.append_json(1, r#"{"lo"#);
    assert_eq!(delta1.index, 0);
    assert_eq!(delta1.arguments.as_deref(), Some(r#"{"lo"#));

    let delta2 = acc.append_json(1, r#"c":"NYC"}"#);
    assert_eq!(delta2.index, 0);
    assert_eq!(delta2.arguments.as_deref(), Some(r#"c":"NYC"}"#));
    assert_eq!(delta2.id.as_deref(), Some("id_a"));
    assert_eq!(delta2.name.as_deref(), Some("func_a"));
}

#[test]
fn index_remapping_skips_non_tool_blocks() {
    let mut acc = AnthropicToolCallAccumulator::default();

    let d0 = acc.start_tool(1, Some("t1".into()), Some("fn1".into()));
    assert_eq!(d0.index, 0, "first tool_use should be ordinal 0");

    let d1 = acc.start_tool(3, Some("t2".into()), Some("fn2".into()));
    assert_eq!(d1.index, 1, "second tool_use should be ordinal 1");

    let a0 = acc.append_json(1, r#"{"a":1}"#);
    assert_eq!(a0.index, 0);
    assert_eq!(a0.arguments.as_deref(), Some(r#"{"a":1}"#));

    let a1 = acc.append_json(3, r#"{"b":2}"#);
    assert_eq!(a1.index, 1);
    assert_eq!(a1.arguments.as_deref(), Some(r#"{"b":2}"#));
}

#[test]
fn append_json_without_prior_start_tool_assigns_ordinal() {
    let mut acc = AnthropicToolCallAccumulator::default();
    let d = acc.append_json(5, r#"{"x":1}"#);
    assert_eq!(d.index, 0, "should get ordinal 0 as first seen tool block");
    assert!(d.id.is_none());
    assert!(d.name.is_none());
    assert_eq!(d.arguments.as_deref(), Some(r#"{"x":1}"#));
}

#[test]
fn multiple_tools_accumulate_independently() {
    let mut acc = AnthropicToolCallAccumulator::default();
    acc.start_tool(0, Some("t0".into()), Some("read".into()));
    acc.start_tool(2, Some("t1".into()), Some("write".into()));

    let a = acc.append_json(0, r#"{"p"#);
    assert_eq!(a.index, 0);
    assert_eq!(a.arguments.as_deref(), Some(r#"{"p"#));

    let b = acc.append_json(2, r#"{"q"#);
    assert_eq!(b.index, 1);
    assert_eq!(b.arguments.as_deref(), Some(r#"{"q"#));

    let a2 = acc.append_json(0, r#"ath":"/"}"#);
    assert_eq!(a2.index, 0);
    assert_eq!(a2.arguments.as_deref(), Some(r#"ath":"/"}"#));

    let b2 = acc.append_json(2, r#"":"v"}"#);
    assert_eq!(b2.index, 1);
    assert_eq!(b2.arguments.as_deref(), Some(r#"":"v"}"#));
}

#[test]
fn default_accumulator_is_empty() {
    let acc = AnthropicToolCallAccumulator::default();
    assert!(acc.by_block_index.is_empty());
    assert!(acc.block_to_ordinal.is_empty());
}

#[test]
fn a_whole_stream_is_gathered() {
    let mut acc = AnthropicToolCallAccumulator::default();
    let mut input_tokens = None;
    let batch = process_anthropic_payloads(
        vec![
            AnthropicPayload::Empty,
            AnthropicPayload::MessageStart(message_start(
                r#"{"message":{"usage":{"input_tokens":3}}}"#,
            )),
            AnthropicPayload::Ignored,
            AnthropicPayload::ContentBlockDelta(block_delta(
                r#"{"index":0,"delta":{"type":"text_delta","text":"Hi"}}"#,
            )),
            AnthropicPayload::MessageStop,
            AnthropicPayload::ContentBlockDelta(block_delta(
                r#"{"index":0,"delta":{"type":"text_delta","text":"late"}}"#,
            )),
        ],
        &provider(),
        &mut acc,
        &mut input_tokens,
    );
    assert_eq!(batch.end, BatchEnd::Done);
    assert_eq!(batch.items.len(), 2);
    assert_eq!(batch.items[1], StreamItem::Text("Hi".to_owned()));
    assert_eq!(anthropic_stream_end(&batch.end), None);
    assert!(matches!(anthropic_stream_end(&BatchEnd::Open), Some(StreamItem::ConnectionLost(_))));
    assert!(matches!(
        anthropic_transport_lost("reset"),
        StreamItem::ConnectionLost(message) if message.contains("reset")
    ));
}

#[test]
fn a_broken_event_ends_the_stream() {
    let mut acc = AnthropicToolCallAccumulator::default();
    let mut input_tokens = None;
    let action = parse_anthropic_stream_payload(
        AnthropicPayload::Invalid(InvalidEvent { kind: None, error: "oops".to_owned() }),
        &provider(),
        &mut acc,
        &mut input_tokens,
    );
    assert!(matches!(
        action,
        AnthropicEventAction::Error(ProviderError::ResponseParse { message, .. })
            if message.contains("oops")
    ));
    assert_eq!(anthropic_stream_payload("  \n"), StreamPayload::Empty);
    assert_eq!(anthropic_stream_payload(" {} "), StreamPayload::Parse("{}".to_owned()));
}

#[test]
fn roles_and_addresses_of_the_service() {
    assert_eq!(anthropic_role_to_message_role("user"), Some(MessageRole::User));
    assert_eq!(anthropic_role_to_message_role("assistant"), Some(MessageRole::Assistant));
    assert_eq!(anthropic_role_to_message_role("system"), None);
    assert_eq!(messages_url("https://x.test"), "https://x.test/v1/messages");
}
