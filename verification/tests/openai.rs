use std::time::Duration;

use oxydra::endpoint::{
    normalize_base_url_or_default, resolve_api_key_for_entry,
    resolve_api_key_from_sources, stream_channel_size, truncate_message, validate_context,
    ErrorEnvelopes, ModelCatalog, OPENAI_DEFAULT_BASE_URL,
};
use oxydra::exchange::{openai_completion, HttpOutcome};
use oxydra::json::{parse_json, Json};
use oxydra::model::{
    response_parse, Context, Message, MessageRole, ModelId, ProviderError, ProviderId, Response,
    StreamItem, ToolCall, ToolCallDelta, UsageUpdate,
};
use oxydra::openai::{
    chat_completions_url, emit_stream_payloads, normalize_openai_response,
    normalize_openai_stream_chunk, openai_payload_error, openai_role_to_message_role,
    openai_stream_end, openai_stream_payload, openai_transport_lost, OpenAIChatCompletionRequest,
    OpenAIChatCompletionResponse, OpenAIChatCompletionStreamChunk, OpenAIChatMessageResponse,
    OpenAIChoice, OpenAIConfig, OpenAIPayload, OpenAIResponseFunction, OpenAIResponseToolCall,
    OpenAIStreamChoice, OpenAIStreamDelta, OpenAIStreamFunctionDelta, OpenAIStreamToolCallDelta,
    OpenAIUsage, ToolCallAccumulator,
};
use oxydra::retry::{
    after_error, complete_step, is_retriable_provider_error, stream_step, CompletionStep,
    RetryDecision, RetryPolicy, StreamEvent, StreamStep,
};
use oxydra::schema::{FunctionDecl, JsonSchema, JsonSchemaType};
use oxydra::sse::{SseDataParser, SseEvent, SseEventParser};
use oxydra::stream::{last_payloads, stream_payloads, BatchEnd, StreamBatch, StreamPayload};

fn provider() -> ProviderId {
    ProviderId::new("openai")
}

fn json(text: &str) -> Json {
    parse_json(text).expect("text should be JSON")
}

fn text_at(value: &serde_json::Value, name: &str) -> Option<String> {
    value.get(name).and_then(|member| member.as_str()).map(str::to_owned)
}

fn list_at<'a>(value: &'a serde_json::Value, name: &str) -> Vec<&'a serde_json::Value> {
    match value.get(name).and_then(|member| member.as_array()) {
        Some(members) => members.iter().collect(),
        None => Vec::new(),
    }
}

fn chunk(text: &str) -> OpenAIChatCompletionStreamChunk {
    let value: serde_json::Value = serde_json::from_str(text).expect("payload should be JSON");
    let mut choices = Vec::new();
    for choice in list_at(&value, "choices") {
        let delta = &choice["delta"];
        let mut tool_calls = Vec::new();
        for call in list_at(delta, "tool_calls") {
            tool_calls.push(OpenAIStreamToolCallDelta {
                index: call["index"].as_u64().expect("call should have an index") as usize,
                id: text_at(call, "id"),
                function: call.get("function").map(|function| OpenAIStreamFunctionDelta {
                    name: text_at(function, "name"),
                    arguments: text_at(function, "arguments"),
                }),
            });
        }
        choices.push(OpenAIStreamChoice {
            delta: OpenAIStreamDelta {
                content: text_at(delta, "content"),
                reasoning: text_at(delta, "reasoning"),
                tool_calls,
            },
            finish_reason: text_at(choice, "finish_reason"),
        });
    }
    OpenAIChatCompletionStreamChunk {
        choices,
        usage: value.get("usage").map(|usage| OpenAIUsage {
            prompt_tokens: usage["prompt_tokens"].as_u64(),
            completion_tokens: usage["completion_tokens"].as_u64(),
            total_tokens: usage["total_tokens"].as_u64(),
        }),
    }
}

fn payload(text: &str) -> OpenAIPayload {
    match openai_stream_payload(text) {
        StreamPayload::Empty => OpenAIPayload::Empty,
        StreamPayload::Done => OpenAIPayload::Done,
        StreamPayload::Parse(text) => OpenAIPayload::Chunk(chunk(&text)),
    }
}

#[test]
fn api_key_resolution_uses_expected_precedence() {
    let resolved = resolve_api_key_from_sources(
        Some("explicit".to_owned()),
        Some("provider".to_owned()),
        Some("fallback".to_owned()),
    );
    assert_eq!(resolved.as_deref(), Some("explicit"));

    let resolved = resolve_api_key_from_sources(
        None,
        Some("provider".to_owned()),
        Some("fallback".to_owned()),
    );
    assert_eq!(resolved.as_deref(), Some("provider"));

    let resolved = resolve_api_key_from_sources(None, None, Some("fallback".to_owned()));
    assert_eq!(resolved.as_deref(), Some("fallback"));

    let resolved = resolve_api_key_from_sources(
        Some("   ".to_owned()),
        Some("provider".to_owned()),
        Some("fallback".to_owned()),
    );
    assert_eq!(resolved.as_deref(), Some("provider"));

    let resolved = resolve_api_key_from_sources(None, None, None);
    assert!(resolved.is_none());
}

#[test]
fn a_named_variable_goes_before_the_usual_one() {
    let resolved = resolve_api_key_for_entry(
        None,
        Some("custom".to_owned()),
        Some("provider".to_owned()),
        Some("fallback".to_owned()),
    );
    assert_eq!(resolved.as_deref(), Some("custom"));
}

#[test]
fn default_openai_config_uses_openai_base_url() {
    assert_eq!(OpenAIConfig::default().base_url, OPENAI_DEFAULT_BASE_URL);
}

fn message(role: MessageRole, content: Option<&str>) -> Message {
    Message {
        role,
        content: content.map(str::to_owned),
        tool_calls: vec![],
        tool_call_id: None,
        attachments: vec![],
    }
}

fn context(model: &str) -> Context {
    Context {
        provider: provider(),
        model: ModelId::new(model),
        tools: vec![],
        messages: vec![message(MessageRole::User, Some("Ping"))],
    }
}

#[test]
fn request_normalization_maps_messages_and_tools() {
    let context = Context {
        provider: provider(),
        model: ModelId::new("gpt-4o-mini"),
        tools: vec![FunctionDecl::new(
            "file_read",
            Some("Read UTF-8 text from a file".to_owned()),
            JsonSchema::object(
                vec![("path".to_owned(), JsonSchema::new(JsonSchemaType::String))],
                vec!["path".to_owned()],
            ),
        )],
        messages: vec![
            message(MessageRole::User, Some("List project files")),
            Message {
                tool_calls: vec![ToolCall {
                    id: "call_1".to_owned(),
                    name: "file_read".to_owned(),
                    arguments: json(r#"{"path": "Cargo.toml"}"#),
                    metadata: None,
                }],
                ..message(MessageRole::Assistant, None)
            },
        ],
    };

    let request = OpenAIChatCompletionRequest::from_context(&context);
    assert_eq!(request.model, "gpt-4o-mini");
    assert_eq!(request.messages[0].role, "user");
    assert_eq!(request.messages[1].tool_calls[0].function.name, "file_read");
    assert_eq!(request.tools[0].kind, "function");
    assert_eq!(request.tools[0].function.name, "file_read");
    assert_eq!(request.tool_choice.as_deref(), Some("auto"));
    assert_eq!(
        request.messages[1].tool_calls[0].function.arguments,
        "{\"path\":\"Cargo.toml\"}"
    );
    assert!(!request.stream);
    assert_eq!(request.stream_options, None);
}

#[test]
fn streaming_request_normalization_snapshot_is_stable() {
    let request = OpenAIChatCompletionRequest::from_stream_context(&context("gpt-4o-mini"));
    assert_eq!(request.messages.len(), 1);
    assert_eq!(request.messages[0].content.as_deref(), Some("Ping"));
    assert_eq!(request.messages[0].role, "user");
    assert!(request.messages[0].tool_calls.is_empty());
    assert_eq!(request.messages[0].tool_call_id, None);
    assert_eq!(request.model, "gpt-4o-mini");
    assert!(request.tools.is_empty());
    assert_eq!(request.tool_choice, None);
    assert!(request.stream);
    assert!(request.stream_options.expect("usage is asked for").include_usage);
}

#[test]
fn streaming_request_normalization_enables_stream_and_usage() {
    let request = OpenAIChatCompletionRequest::from_stream_context(&context("gpt-4o-mini"));
    assert!(request.stream);
    assert_eq!(request.stream_options.map(|options| options.include_usage), Some(true));
}

#[test]
fn stream_payload_normalization_maps_text_tool_usage_and_finish_reason() {
    let payload = r#"{
        "choices": [{
            "delta": {
                "content": "Done",
                "tool_calls": [{
                    "index": 0,
                    "id": "call_1",
                    "function": {
                        "name": "file_read",
                        "arguments": "{\"path\":\"Cargo.toml\"}"
                    }
                }]
            },
            "finish_reason": "tool_calls"
        }],
        "usage": {
            "prompt_tokens": 5,
            "completion_tokens": 2,
            "total_tokens": 7
        }
    }"#;

    let mut accumulator = ToolCallAccumulator::default();
    let items = normalize_openai_stream_chunk(chunk(payload), &mut accumulator);

    assert_eq!(
        items,
        vec![
            StreamItem::UsageUpdate(UsageUpdate {
                prompt_tokens: Some(5),
                completion_tokens: Some(2),
                total_tokens: Some(7),
            }),
            StreamItem::Text("Done".to_owned()),
            StreamItem::ToolCallDelta(ToolCallDelta {
                index: 0,
                id: Some("call_1".to_owned()),
                name: Some("file_read".to_owned()),
                arguments: Some("{\"path\":\"Cargo.toml\"}".to_owned()),
                metadata: None,
            }),
            StreamItem::FinishReason("tool_calls".to_owned()),
        ]
    );
}

fn first_arguments(items: &[StreamItem]) -> String {
    match items.first() {
        Some(StreamItem::ToolCallDelta(delta)) => {
            delta.arguments.clone().expect("reassembled arguments should be present")
        }
        _ => panic!("expected tool-call delta item"),
    }
}

#[test]
fn tool_call_deltas_reassemble_arguments_across_payloads() {
    let first_payload = r#"{"choices":[{"delta":{"tool_calls":[{"index":0,"id":"call_1","function":{"name":"file_read","arguments":"{\"path\":\"Car"}}]}}]}"#;
    let second_payload = r#"{"choices":[{"delta":{"tool_calls":[{"index":0,"function":{"arguments":"go.toml\"}"}}]}}]}"#;

    let mut accumulator = ToolCallAccumulator::default();
    let first_items = normalize_openai_stream_chunk(chunk(first_payload), &mut accumulator);
    assert_eq!(first_arguments(&first_items), "{\"path\":\"Car");

    let second_items = normalize_openai_stream_chunk(chunk(second_payload), &mut accumulator);
    let arguments = first_arguments(&second_items);
    let parsed = parse_json(&arguments).expect("reassembled arguments should be valid JSON");
    assert_eq!(parsed, json(r#"{"path": "Cargo.toml"}"#));
}

#[test]
fn tool_call_deltas_reassemble_split_unicode_escape_sequences() {
    let first_payload = r#"{"choices":[{"delta":{"tool_calls":[{"index":0,"id":"call_1","function":{"name":"echo","arguments":"{\"emoji\":\"\\uD83D"}}]}}]}"#;
    let second_payload = r#"{"choices":[{"delta":{"tool_calls":[{"index":0,"function":{"arguments":"\\uDE00\"}"}}]}}]}"#;

    let mut accumulator = ToolCallAccumulator::default();
    let _ = normalize_openai_stream_chunk(chunk(first_payload), &mut accumulator);
    let second_items = normalize_openai_stream_chunk(chunk(second_payload), &mut accumulator);
    let arguments = first_arguments(&second_items);
    let parsed = parse_json(&arguments).expect("reassembled arguments should be valid JSON");
    assert_eq!(parsed, json(r#"{"emoji": "😀"}"#));
}

#[test]
fn sse_parser_handles_fragmented_frames() {
    let mut parser = SseDataParser::default();
    let payloads = parser
        .push_chunk(br#"data: {"choices":[{"delta":{"content":"Hel"#)
        .expect("first chunk should parse");
    assert!(payloads.is_empty());

    let payloads = parser
        .push_chunk(
            br#"lo"}}]}

data: [DONE]

"#,
        )
        .expect("second chunk should parse");
    assert_eq!(payloads.len(), 2);

    let mut accumulator = ToolCallAccumulator::default();
    let OpenAIPayload::Chunk(first) = payload(&payloads[0]) else {
        panic!("payload should not terminate stream");
    };
    let items = normalize_openai_stream_chunk(first, &mut accumulator);
    assert_eq!(items, vec![StreamItem::Text("Hello".to_owned())]);
    assert_eq!(payload(&payloads[1]), OpenAIPayload::Done);
}

#[test]
fn sse_lines_join_and_comments_are_skipped() {
    let mut parser = SseEventParser::default();
    let events = parser
        .push_chunk(b": note\r\nevent: update\r\ndata: one\r\ndata:two\r\nid: 7\r\n\r\n")
        .expect("chunk should parse");
    assert_eq!(
        events,
        vec![SseEvent { event_type: Some("update".to_owned()), data: "one\ntwo".to_owned() }]
    );
    assert!(parser.push_chunk(b"data: open").expect("chunk should parse").is_empty());
    assert_eq!(
        parser.finish().expect("rest should parse"),
        vec![SseEvent { event_type: None, data: "open".to_owned() }]
    );
    let mut broken = SseDataParser::default();
    assert!(broken.push_chunk(b"data: \xff\n").is_err());
}

#[test]
fn the_end_of_a_stream_closes_its_event() {
    for (open, closing) in [
        ("data: a\ndata: b", "\n\n"),
        ("event: x\ndata: a\n", "\n"),
        (": note", "\n\n"),
        ("", "\n"),
    ] {
        let mut ended = SseEventParser::default();
        let early = ended.push_chunk(open.as_bytes()).expect("text should parse");
        assert!(early.is_empty());
        let mut closed = SseEventParser::default();
        closed.push_chunk(open.as_bytes()).expect("text should parse");
        assert_eq!(ended.finish(), closed.push_chunk(closing.as_bytes()));
    }
}

fn run_stream(body: &str) -> Vec<Result<StreamItem, ProviderError>> {
    let mut parser = SseDataParser::default();
    let mut accumulator = ToolCallAccumulator::default();
    let texts = stream_payloads(&mut parser, body.as_bytes(), &provider()).expect("body is text");
    let batch = emit_stream_payloads(
        texts.iter().map(|text| payload(text)).collect(),
        &provider(),
        &mut accumulator,
    );
    let StreamBatch { mut items, mut end } = batch;
    if end == BatchEnd::Open {
        let texts = last_payloads(parser, &provider()).expect("rest is text");
        let rest = emit_stream_payloads(
            texts.iter().map(|text| payload(text)).collect(),
            &provider(),
            &mut accumulator,
        );
        items.extend(rest.items);
        end = rest.end;
    }
    items.extend(openai_stream_end(&end));
    let mut items: Vec<_> = items.into_iter().map(Ok).collect();
    if let BatchEnd::Failed(error) = end {
        items.push(Err(error));
    }
    items
}

#[test]
fn stream_emits_connection_lost_when_done_sentinel_missing() {
    let items = run_stream("data: {\"choices\":[{\"delta\":{\"content\":\"Hi\"}}]}\n\n");
    assert!(items.iter().any(|item| matches!(item, Ok(StreamItem::Text(text)) if text == "Hi")));
    assert!(matches!(
        items.last(),
        Some(Ok(StreamItem::ConnectionLost(message))) if message.contains("[DONE]")
    ));
}

#[test]
fn stream_finishes_without_connection_lost_when_done_is_received() {
    let items =
        run_stream("data: {\"choices\":[{\"delta\":{\"content\":\"Hi\"}}]}\n\ndata: [DONE]\n\n");
    assert!(items.iter().all(Result::is_ok));
    assert!(items.iter().any(|item| matches!(item, Ok(StreamItem::Text(text)) if text == "Hi")));
    assert!(!items.iter().any(|item| matches!(item, Ok(StreamItem::ConnectionLost(_)))));
}

#[test]
fn a_broken_payload_ends_the_stream() {
    let mut accumulator = ToolCallAccumulator::default();
    let batch = emit_stream_payloads(
        vec![OpenAIPayload::Empty, OpenAIPayload::Invalid("oops".to_owned()), OpenAIPayload::Done],
        &provider(),
        &mut accumulator,
    );
    assert!(batch.items.is_empty());
    assert_eq!(batch.end, BatchEnd::Failed(openai_payload_error(&provider(), "oops")));
    assert_eq!(openai_stream_end(&batch.end), None);
    assert!(matches!(
        openai_transport_lost("reset"),
        StreamItem::ConnectionLost(message) if message.contains("reset")
    ));
}

#[test]
fn response_normalization_maps_message_and_finish_reason() {
    let response = OpenAIChatCompletionResponse {
        choices: vec![OpenAIChoice {
            message: OpenAIChatMessageResponse {
                role: "assistant".to_owned(),
                content: Some("Done".to_owned()),
                tool_calls: vec![OpenAIResponseToolCall {
                    id: "call_1".to_owned(),
                    kind: "function".to_owned(),
                    function: OpenAIResponseFunction {
                        name: "file_read".to_owned(),
                        arguments: "{\"path\":\"Cargo.toml\"}".to_owned(),
                    },
                }],
            },
            finish_reason: Some("tool_calls".to_owned()),
        }],
        usage: Some(OpenAIUsage {
            prompt_tokens: Some(5),
            completion_tokens: Some(2),
            total_tokens: Some(7),
        }),
    };

    let normalized = normalize_openai_response(response, &provider()).expect("should parse");
    assert_eq!(normalized.message.role, MessageRole::Assistant);
    assert_eq!(normalized.finish_reason.as_deref(), Some("tool_calls"));
    assert_eq!(
        normalized.usage,
        Some(UsageUpdate {
            prompt_tokens: Some(5),
            completion_tokens: Some(2),
            total_tokens: Some(7),
        })
    );
    assert_eq!(normalized.tool_calls.len(), 1);
    assert_eq!(normalized.tool_calls[0].name, "file_read");
    assert_eq!(normalized.tool_calls[0].arguments, json(r#"{"path": "Cargo.toml"}"#));
}

#[test]
fn answers_that_make_no_sense_are_refused() {
    let none = OpenAIChatCompletionResponse { choices: vec![], usage: None };
    assert!(matches!(
        normalize_openai_response(none, &provider()),
        Err(ProviderError::ResponseParse { .. })
    ));
    let odd = OpenAIChatCompletionResponse {
        choices: vec![OpenAIChoice {
            message: OpenAIChatMessageResponse {
                role: "narrator".to_owned(),
                content: None,
                tool_calls: vec![],
            },
            finish_reason: None,
        }],
        usage: None,
    };
    assert!(matches!(
        normalize_openai_response(odd, &provider()),
        Err(ProviderError::ResponseParse { .. })
    ));
    assert_eq!(openai_role_to_message_role("tool"), Some(MessageRole::Tool));
    assert_eq!(openai_role_to_message_role("narrator"), None);
}

fn catalog() -> ModelCatalog {
    ModelCatalog { entries: vec![(provider(), ModelId::new("gpt-4o-mini"))] }
}

#[test]
fn unknown_models_are_rejected_before_network_request() {
    let validation = validate_context(
        &provider(),
        &ModelId::new("unknown-model"),
        &provider(),
        &provider(),
        &catalog(),
    );
    assert!(matches!(validation, Err(ProviderError::UnknownModel { .. })));
    let other = validate_context(
        &ProviderId::new("other"),
        &ModelId::new("gpt-4o-mini"),
        &provider(),
        &provider(),
        &catalog(),
    );
    assert!(matches!(other, Err(ProviderError::RequestFailed { .. })));
}

#[test]
fn http_status_errors_are_mapped() {
    let body = r#"{"error":{"message":"invalid API key"}}"#;
    let value: serde_json::Value = serde_json::from_str(body).expect("body should be JSON");
    let said = text_at(&value["error"], "message");
    let envelopes = ErrorEnvelopes {
        openai: said.clone(),
        anthropic_error: said.clone(),
        anthropic: text_at(&value, "message"),
        gemini: said,
    };
    let refused =
        HttpOutcome::Refused { status: 401, body: body.to_owned(), envelopes };
    assert!(matches!(
        openai_completion(refused, &provider()),
        Err(ProviderError::HttpStatus { status: 401, message, .. }) if message == "invalid API key"
    ));
}

#[test]
fn response_parse_errors_are_mapped() {
    let error = parse_json("not-json").expect_err("text is no JSON");
    assert!(matches!(
        openai_completion(HttpOutcome::Unreadable(error), &provider()),
        Err(ProviderError::ResponseParse { message, .. }) if !message.is_empty()
    ));
}

fn quick(max_attempts: u32) -> RetryPolicy {
    RetryPolicy {
        max_attempts,
        backoff_base: Duration::from_millis(1),
        backoff_max: Duration::from_millis(1),
    }
}

fn timeout(message: &str) -> ProviderError {
    ProviderError::Transport { provider: provider(), message: message.to_owned() }
}

fn sample_response(content: &str) -> Response {
    Response {
        message: message(MessageRole::Assistant, Some(content)),
        tool_calls: vec![],
        finish_reason: Some("stop".to_owned()),
        usage: None,
    }
}

fn run_complete(
    policy: &RetryPolicy,
    steps: Vec<Result<Response, ProviderError>>,
) -> (Result<Response, ProviderError>, usize) {
    let mut attempt = 1;
    let mut calls = 0;
    for step in steps {
        calls += 1;
        match complete_step(policy, attempt, step) {
            CompletionStep::Return(outcome) => return (outcome, calls),
            CompletionStep::Retry { next_attempt, .. } => attempt = next_attempt,
        }
    }
    panic!("the steps ran out");
}

#[test]
fn reliable_provider_retries_transport_failures_then_succeeds() {
    let (response, calls) =
        run_complete(&quick(3), vec![Err(timeout("timeout")), Ok(sample_response("Recovered"))]);
    let response = response.expect("retry should recover");
    assert_eq!(response.message.content.as_deref(), Some("Recovered"));
    assert_eq!(calls, 2);
}

#[test]
fn reliable_provider_does_not_retry_non_retriable_errors() {
    let (outcome, calls) = run_complete(
        &quick(3),
        vec![
            Err(response_parse(&provider(), "schema mismatch".to_owned())),
            Ok(sample_response("ignored")),
        ],
    );
    let error = outcome.expect_err("non-retriable error should be surfaced");
    assert!(matches!(error, ProviderError::ResponseParse { .. }));
    assert_eq!(calls, 1);
}

#[test]
fn reliable_provider_enforces_max_attempts() {
    let (outcome, calls) = run_complete(
        &quick(2),
        vec![
            Err(timeout("timeout-1")),
            Err(timeout("timeout-2")),
            Ok(sample_response("should not be reached")),
        ],
    );
    let error = outcome.expect_err("max attempts should stop retries");
    assert!(matches!(error, ProviderError::Transport { .. }));
    assert_eq!(calls, 2);
}

#[test]
fn waits_double_up_to_their_limit() {
    let policy = RetryPolicy {
        max_attempts: 9,
        backoff_base: Duration::from_millis(250),
        backoff_max: Duration::from_millis(2000),
    };
    assert_eq!(policy.backoff_delay_for_attempt(1), Duration::from_millis(250));
    assert_eq!(policy.backoff_delay_for_attempt(2), Duration::from_millis(500));
    assert_eq!(policy.backoff_delay_for_attempt(4), Duration::from_millis(2000));
    assert_eq!(policy.backoff_delay_for_attempt(60), Duration::from_millis(2000));
    assert_eq!(RetryPolicy { max_attempts: 0, ..policy }.normalized().max_attempts, 1);
    assert_eq!(
        after_error(&policy, 2, &timeout("late")),
        RetryDecision::Retry { delay: Duration::from_millis(500), next_attempt: 3 }
    );
    assert_eq!(after_error(&policy, 9, &timeout("late")), RetryDecision::GiveUp);
}

#[test]
fn only_passing_failures_are_retried() {
    let status = |status: u16| ProviderError::HttpStatus {
        provider: provider(),
        status,
        message: String::new(),
    };
    assert!(is_retriable_provider_error(&status(429)));
    assert!(is_retriable_provider_error(&status(503)));
    assert!(!is_retriable_provider_error(&status(401)));
    assert!(is_retriable_provider_error(&timeout("t")));
    assert!(!is_retriable_provider_error(&ProviderError::MissingApiKey { provider: provider() }));
}

#[test]
fn streams_restart_only_before_their_first_item() {
    let policy = quick(2);
    assert_eq!(
        stream_step(&policy, 1, StreamEvent::SetupFailed(timeout("t"))),
        StreamStep::Restart { delay: Duration::from_millis(1), next_attempt: 2 }
    );
    assert_eq!(
        stream_step(&policy, 2, StreamEvent::SetupFailed(timeout("t"))),
        StreamStep::Finish(Err(timeout("t")))
    );
    assert_eq!(stream_step(&policy, 1, StreamEvent::Ended), StreamStep::End);
    assert_eq!(
        stream_step(&policy, 1, StreamEvent::Item(Ok(StreamItem::Text("x".to_owned())))),
        StreamStep::Forward(Ok(StreamItem::Text("x".to_owned())))
    );
}

#[test]
fn addresses_and_sizes_have_their_defaults() {
    assert_eq!(
        chat_completions_url(&normalize_base_url_or_default(" http://localhost:8080/// ", "x")),
        "http://localhost:8080/v1/chat/completions"
    );
    assert_eq!(normalize_base_url_or_default("  ", "https://d"), "https://d");
    assert_eq!(stream_channel_size(0), 64);
    assert_eq!(stream_channel_size(9), 9);
    let long = "x".repeat(600);
    assert_eq!(truncate_message(&long), format!("{}...", "x".repeat(512)));
    assert_eq!(truncate_message(" short "), " short ");
}
