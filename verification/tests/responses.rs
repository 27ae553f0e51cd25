use oxydra::model::{
    Context, Message, MessageRole, ModelId, ProviderError, ProviderId, StreamItem,
};
use oxydra::responses::{
    normalize_responses_response, parse_responses_stream_event, process_responses_events,
    responses_event_kind, responses_transport_lost, ChainingState, FailedRequest, InvalidEvent,
    ResponsesApiRequest, ResponsesApiResponse, ResponsesCompletedData, ResponsesEventAction,
    ResponsesEventKind, ResponsesFailedData, ResponsesInputItem, ResponsesOutputBlock,
    ResponsesOutputContent, ResponsesPayload, ResponsesTextDeltaData,
    ResponsesToolCallAccumulator, ResponsesUsage,
};
use oxydra::stream::BatchEnd;

fn index_of(item: StreamItem) -> usize {
    let StreamItem::ToolCallDelta(delta) = item else {
        panic!("expected ToolCallDelta");
    };
    delta.index
}

#[test]
fn single_tool_call_gets_ordinal_zero() {
    let mut acc = ResponsesToolCallAccumulator::default();
    acc.register_output_item(0, Some("call_1".to_owned()), Some("search".to_owned()));
    let item = acc.append_arguments(0, r#"{"q":"hi"}"#).unwrap();
    assert_eq!(index_of(item), 0);
}

#[test]
fn two_tool_calls_get_distinct_ordinals_zero_and_one() {
    let mut acc = ResponsesToolCallAccumulator::default();
    acc.register_output_item(0, Some("call_1".to_owned()), Some("search".to_owned()));
    acc.register_output_item(1, Some("call_2".to_owned()), Some("fetch".to_owned()));

    let item0 = acc.append_arguments(0, r#"{"q":"a"}"#).unwrap();
    let item1 = acc.append_arguments(1, r#"{"url":"b"}"#).unwrap();
    assert_eq!(index_of(item0), 0, "first tool call must have ordinal 0");
    assert_eq!(index_of(item1), 1, "second tool call must have ordinal 1");
}

#[test]
fn three_tool_calls_get_consecutive_ordinals() {
    let mut acc = ResponsesToolCallAccumulator::default();
    for i in 0u32..3 {
        acc.register_output_item(i, Some(format!("call_{i}")), Some(format!("tool_{i}")));
    }
    let mut ordinals = Vec::new();
    for i in 0u32..3 {
        ordinals.push(index_of(acc.append_arguments(i, "{}").unwrap()));
    }
    assert_eq!(ordinals, vec![0, 1, 2]);
}

#[test]
fn ordinal_assigned_in_append_when_no_prior_register() {
    let mut acc = ResponsesToolCallAccumulator::default();
    let item0 = acc.append_arguments(5, r#"{"a":1}"#).unwrap();
    let item1 = acc.append_arguments(7, r#"{"b":2}"#).unwrap();
    assert_eq!(index_of(item0), 0, "first fallback delta must get ordinal 0");
    assert_eq!(index_of(item1), 1, "second fallback delta must get ordinal 1");
}

#[test]
fn an_index_counts_the_calls_before_it() {
    let mut acc = ResponsesToolCallAccumulator::default();
    acc.append_arguments(9, "{");
    acc.register_output_item(4, Some("call_4".to_owned()), None);
    acc.register_output_item(9, Some("old".to_owned()), Some("search".to_owned()));
    acc.register_output_item(9, Some("new".to_owned()), None);
    acc.register_output_item(2, None, None);
    let Some(StreamItem::ToolCallDelta(nine)) = acc.append_arguments(9, "}") else {
        panic!("expected ToolCallDelta");
    };
    assert_eq!(nine.index, 0);
    assert_eq!(nine.id.as_deref(), Some("new"));
    assert_eq!(nine.name.as_deref(), Some("search"));
    let Some(StreamItem::ToolCallDelta(four)) = acc.append_arguments(4, "") else {
        panic!("expected ToolCallDelta");
    };
    assert_eq!((four.index, four.id.as_deref(), four.name), (1, Some("call_4"), None));
    assert_eq!(index_of(acc.append_arguments(2, "{}").unwrap()), 2);
    assert_eq!(index_of(acc.append_arguments(7, "{}").unwrap()), 3);
}

fn make_completed_event(tool_calls: &[(&str, &str, &str)]) -> ResponsesPayload {
    let output = tool_calls
        .iter()
        .map(|(id, name, args)| ResponsesOutputBlock::FunctionCall {
            call_id: (*id).to_owned(),
            name: (*name).to_owned(),
            arguments: (*args).to_owned(),
        })
        .collect();
    ResponsesPayload::Completed(ResponsesCompletedData {
        response: ResponsesApiResponse {
            id: Some("resp_1".to_owned()),
            output,
            status: Some("completed".to_owned()),
            usage: None,
        },
    })
}

fn collect_tool_call_deltas(items: &[StreamItem]) -> Vec<(usize, String, String)> {
    items
        .iter()
        .filter_map(|item| {
            if let StreamItem::ToolCallDelta(d) = item {
                Some((
                    d.index,
                    d.id.clone().unwrap_or_default(),
                    d.name.clone().unwrap_or_default(),
                ))
            } else {
                None
            }
        })
        .collect()
}

#[test]
fn completed_event_emits_sequential_indices_when_no_streaming_deltas() {
    let provider = ProviderId::new("test");
    let mut acc = ResponsesToolCallAccumulator::default();
    let event = make_completed_event(&[
        ("call_a", "search", r#"{"q":"hello"}"#),
        ("call_b", "fetch", r#"{"url":"http://x.com"}"#),
        ("call_c", "compute", r#"{"expr":"1+1"}"#),
    ]);

    let action = parse_responses_stream_event(event, &provider, &mut acc).unwrap();
    let ResponsesEventAction::Completed { items, .. } = action else {
        panic!("expected Completed action");
    };

    let deltas = collect_tool_call_deltas(&items);
    assert_eq!(deltas.len(), 3, "should emit 3 tool call deltas");
    assert_eq!(deltas[0].0, 0, "first delta index must be 0");
    assert_eq!(deltas[1].0, 1, "second delta index must be 1");
    assert_eq!(deltas[2].0, 2, "third delta index must be 2");
    assert_eq!(deltas[0].1, "call_a");
    assert_eq!(deltas[1].1, "call_b");
    assert_eq!(deltas[2].1, "call_c");
}

#[test]
fn completed_event_skips_tool_calls_when_streaming_deltas_already_sent() {
    let provider = ProviderId::new("test");
    let mut acc = ResponsesToolCallAccumulator::default();
    acc.register_output_item(0, Some("call_a".to_owned()), Some("search".to_owned()));
    let _ = acc.append_arguments(0, r#"{"q":"hello"}"#);

    let event = make_completed_event(&[("call_a", "search", r#"{"q":"hello"}"#)]);
    let action = parse_responses_stream_event(event, &provider, &mut acc).unwrap();
    let ResponsesEventAction::Completed { items, .. } = action else {
        panic!("expected Completed action");
    };

    let deltas = collect_tool_call_deltas(&items);
    assert!(
        deltas.is_empty(),
        "tool call deltas must not be re-emitted when streaming deltas were already sent"
    );
}

fn message(role: MessageRole, content: &str) -> Message {
    Message {
        role,
        content: Some(content.to_owned()),
        tool_calls: vec![],
        tool_call_id: None,
        attachments: vec![],
    }
}

fn context() -> Context {
    Context {
        provider: ProviderId::new("test"),
        model: ModelId::new("gpt-4o"),
        tools: vec![],
        messages: vec![
            message(MessageRole::System, "Be brief"),
            message(MessageRole::User, "one"),
            message(MessageRole::Assistant, "two"),
            message(MessageRole::User, "three"),
        ],
    }
}

#[test]
fn chained_requests_send_only_what_is_new() {
    let full = ResponsesApiRequest::from_context(&context(), None, 0);
    assert_eq!(full.instructions.as_deref(), Some("Be brief"));
    assert_eq!(full.input.len(), 3);
    let mut state = ChainingState::new();
    state.update_chaining_state("resp_1".to_owned(), 3);
    let chained = state.build_request(&context());
    assert_eq!(chained.previous_response_id.as_deref(), Some("resp_1"));
    assert_eq!(
        chained.input,
        vec![ResponsesInputItem::Message { role: "user".to_owned(), content: "three".to_owned() }]
    );
    assert_eq!(state.after_failure(true, 400), FailedRequest::StartOver);
    assert_eq!(state.previous_response_id, None);
    assert_eq!(state.after_failure(false, 400), FailedRequest::GiveUp);
}

#[test]
fn responses_answers_are_normalized() {
    let answer = ResponsesApiResponse {
        id: Some("resp_9".to_owned()),
        output: vec![
            ResponsesOutputBlock::Message {
                role: "assistant".to_owned(),
                content: vec![ResponsesOutputContent::OutputText { text: "Done".to_owned() }],
            },
            ResponsesOutputBlock::FunctionCall {
                call_id: "c".to_owned(),
                name: "search".to_owned(),
                arguments: r#"{"q":1}"#.to_owned(),
            },
        ],
        status: Some("completed".to_owned()),
        usage: Some(ResponsesUsage {
            input_tokens: Some(1),
            output_tokens: Some(2),
            total_tokens: Some(3),
        }),
    };
    let normalized =
        normalize_responses_response(answer, &ProviderId::new("test")).expect("should parse");
    assert_eq!(normalized.response_id.as_deref(), Some("resp_9"));
    assert_eq!(normalized.response.message.content.as_deref(), Some("Done"));
    assert_eq!(normalized.response.tool_calls[0].name, "search");
}

#[test]
fn responses_streams_keep_the_chain() {
    let provider = ProviderId::new("test");
    let mut acc = ResponsesToolCallAccumulator::default();
    let mut chaining = ChainingState::new();
    let batch = process_responses_events(
        vec![
            ResponsesPayload::Ignored,
            ResponsesPayload::TextDelta(ResponsesTextDeltaData { delta: "Hi".to_owned() }),
            make_completed_event(&[("call_a", "search", "{}")]),
        ],
        &provider,
        &mut acc,
        &mut chaining,
        4,
    );
    assert_eq!(batch.items[0], StreamItem::Text("Hi".to_owned()));
    assert_eq!(chaining.previous_response_id.as_deref(), Some("resp_1"));
    assert_eq!(chaining.last_input_count, 4);
    let failed = process_responses_events(
        vec![ResponsesPayload::Failed(ResponsesFailedData { error: None })],
        &provider,
        &mut acc,
        &mut chaining,
        4,
    );
    assert!(matches!(failed.end, BatchEnd::Failed(ProviderError::RequestFailed { .. })));
    let broken = parse_responses_stream_event(
        ResponsesPayload::Invalid(InvalidEvent {
            kind: ResponsesEventKind::TextDelta,
            error: "oops".to_owned(),
        }),
        &provider,
        &mut acc,
    );
    assert!(matches!(broken, Err(ProviderError::ResponseParse { .. })));
    assert_eq!(
        responses_event_kind(&Some("response.output_text.delta".to_owned())),
        ResponsesEventKind::TextDelta
    );
    assert_eq!(responses_event_kind(&None), ResponsesEventKind::Ignored);
    assert!(matches!(responses_transport_lost("reset"), StreamItem::ConnectionLost(_)));
}
