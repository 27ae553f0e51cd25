use oxydra::anthropic::{
    AnthropicMessagesResponse, AnthropicPayload, AnthropicResponseContentBlock,
};
use oxydra::arguments::OxydraVmArgs;
use oxydra::bootstrap::{AgentDefinition, BootstrapError};
use oxydra::docker::{
    image_load_command, image_save_command, load_image_into_sandbox_vm, ImageTransfer,
};
use oxydra::endpoint::{ErrorEnvelopes, ModelCatalog, ProviderType};
use oxydra::exchange::{
    anthropic_completion, anthropic_exchange, answer_of, authenticated_request, build_provider,
    error_body, gemini_completion, gemini_exchange, openai_completion, openai_exchange,
    request_url, responses_completion, responses_exchange, responses_turn, HttpOutcome, KeySources,
    ProviderConnection, ResponsesTurn,
};
use oxydra::gemini::{GeminiGenerateContentResponse, GeminiPayload};
use oxydra::model::{
    Context, Message, MessageRole, ModelId, ProviderError, ProviderId, StreamItem,
};
use oxydra::openai::{
    OpenAIChatCompletionResponse, OpenAIChatCompletionStreamChunk, OpenAIPayload,
    OpenAIStreamChoice, OpenAIStreamDelta,
};
use oxydra::program::{
    guest_services, run_vm, Assembly, AssemblyAction, AssemblyEvent, AssemblyStage, GuestConfig,
    GuestSetup, TelegramSetup, VmAction, VmEvent, VmStage,
};
use oxydra::responses::{
    ChainingState, ResponsesApiResponse, ResponsesOutputBlock, ResponsesPayload,
    ResponsesTextDeltaData,
};
use oxydra::sandbox::{RunnerError, SandboxTier};
use oxydra::startup::RunnerBootstrapEnvelope;
use oxydra::streaming::{
    AnthropicStream, GeminiStream, OpenAIStream, ReadStage, ResponsesStream, StreamInput,
    StreamOutput,
};
use oxydra::text_map::TextMap;
use oxydra::vm::VmError;

fn no_keys() -> KeySources {
    KeySources { explicit: None, custom_env: None, provider_env: None, fallback_env: None }
}

fn connection(provider_type: ProviderType) -> ProviderConnection {
    build_provider(
        ProviderId::new("mine"),
        ProviderId::new("openai"),
        provider_type,
        KeySources { provider_env: Some(" key ".to_owned()), ..no_keys() },
        None,
    )
    .expect("there is a key")
}

fn catalog() -> ModelCatalog {
    ModelCatalog { entries: vec![(ProviderId::new("openai"), ModelId::new("gpt-4o-mini"))] }
}

fn context(provider: &str, model: &str) -> Context {
    Context {
        provider: ProviderId::new(provider),
        model: ModelId::new(model),
        tools: vec![],
        messages: vec![Message {
            role: MessageRole::User,
            content: Some("Ping".to_owned()),
            tool_calls: vec![],
            tool_call_id: None,
            attachments: vec![],
        }],
    }
}

#[test]
fn each_kind_has_its_address() {
    let url = |kind, stream| request_url(&connection(kind), "m-1", stream);
    assert_eq!(
        url(ProviderType::Openai, true),
        "https://api.openai.com/v1/chat/completions"
    );
    assert_eq!(
        url(ProviderType::OpenaiResponses, false),
        "https://api.openai.com/v1/responses"
    );
    assert_eq!(url(ProviderType::Anthropic, false), "https://api.anthropic.com/v1/messages");
    assert_eq!(
        url(ProviderType::Gemini, false),
        "https://generativelanguage.googleapis.com/v1beta/models/m-1:generateContent"
    );
    assert_eq!(
        url(ProviderType::Gemini, true),
        "https://generativelanguage.googleapis.com/v1beta/models/m-1:streamGenerateContent?alt=sse"
    );
}

#[test]
fn each_kind_shows_its_key() {
    let mut extra = TextMap::new();
    extra.insert("x-team".to_owned(), "blue".to_owned());
    let headers = |kind| authenticated_request(&connection(kind), &extra);
    let pair = |name: &str, value: &str| (name.to_owned(), value.to_owned());
    let bearer = vec![pair("authorization", "Bearer key"), pair("x-team", "blue")];
    assert_eq!(headers(ProviderType::Openai), bearer);
    assert_eq!(headers(ProviderType::OpenaiResponses), bearer);
    assert_eq!(
        headers(ProviderType::Anthropic),
        vec![
            pair("x-api-key", "key"),
            pair("anthropic-version", "2023-06-01"),
            pair("x-team", "blue"),
        ]
    );
    assert_eq!(
        headers(ProviderType::Gemini),
        vec![pair("x-goog-api-key", "key"), pair("x-team", "blue")]
    );
}

#[test]
fn providers_need_a_key() {
    let missing = build_provider(
        ProviderId::new("mine"),
        ProviderId::new("openai"),
        ProviderType::Openai,
        KeySources { explicit: Some("  ".to_owned()), ..no_keys() },
        None,
    );
    assert_eq!(missing, Err(ProviderError::MissingApiKey { provider: ProviderId::new("mine") }));
    let built = build_provider(
        ProviderId::new("mine"),
        ProviderId::new("openai"),
        ProviderType::Gemini,
        KeySources { explicit: Some("k".to_owned()), ..no_keys() },
        Some("https://proxy.example/ ".to_owned()),
    )
    .expect("there is a key");
    assert_eq!(built.api_key, "k");
    assert_eq!(built.base_url, "https://proxy.example");
    assert_eq!(connection(ProviderType::Openai).api_key, "key");
    assert_eq!(connection(ProviderType::Openai).base_url, "https://api.openai.com");
    assert_eq!(connection(ProviderType::OpenaiResponses).base_url, "https://api.openai.com");
    assert_eq!(connection(ProviderType::Anthropic).base_url, "https://api.anthropic.com");
    assert_eq!(
        connection(ProviderType::Gemini).base_url,
        "https://generativelanguage.googleapis.com"
    );
}

#[test]
fn questions_are_checked_before_they_are_sent() {
    let openai = connection(ProviderType::Openai);
    let request = openai_exchange(&openai, &catalog(), &context("mine", "gpt-4o-mini"), true)
        .expect("the model is listed");
    assert!(request.stream);
    assert!(matches!(
        openai_exchange(&openai, &catalog(), &context("other", "gpt-4o-mini"), false),
        Err(ProviderError::RequestFailed { .. })
    ));
    assert!(matches!(
        anthropic_exchange(&openai, &catalog(), &context("mine", "gpt-5"), 9, false),
        Err(ProviderError::UnknownModel { .. })
    ));
    let listed = context("mine", "gpt-4o-mini");
    assert!(gemini_exchange(&openai, &catalog(), &listed, Ok(())).is_ok());
    let unsuitable = ProviderError::RequestFailed {
        provider: ProviderId::new("mine"),
        message: "the model takes no images".to_owned(),
    };
    assert!(matches!(
        gemini_exchange(&openai, &catalog(), &listed, Err(unsuitable)),
        Err(ProviderError::RequestFailed { message, .. }) if message == "the model takes no images"
    ));
    let mut chaining = ChainingState::new();
    chaining.update_chaining_state("resp_1".to_owned(), 1);
    let request =
        responses_exchange(&openai, &catalog(), &context("mine", "gpt-4o-mini"), &chaining)
            .expect("the model is listed");
    assert_eq!(request.previous_response_id.as_deref(), Some("resp_1"));
    assert!(request.input.is_empty());
}

fn refused<T>(status: u16, body: &str) -> HttpOutcome<T> {
    HttpOutcome::Refused {
        status,
        body: body.to_owned(),
        envelopes: ErrorEnvelopes {
            openai: None,
            anthropic_error: None,
            anthropic: None,
            gemini: None,
        },
    }
}

#[test]
fn transport_errors_are_mapped() {
    let provider = ProviderId::new("openai");
    let completion =
        openai_completion(HttpOutcome::Unreachable("refused".to_owned()), &provider);
    assert!(matches!(
        completion,
        Err(ProviderError::Transport { message, .. }) if message == "refused"
    ));
}

#[test]
fn anthropic_transport_errors_are_mapped() {
    let provider = ProviderId::new("anthropic");
    let completion =
        anthropic_completion(HttpOutcome::Unreachable("refused".to_owned()), &provider);
    assert!(matches!(completion, Err(ProviderError::Transport { .. })));
}

#[test]
fn every_failure_has_its_error() {
    let provider = ProviderId::new("p");
    assert!(matches!(
        openai_completion(refused(503, "busy"), &provider),
        Err(ProviderError::HttpStatus { status: 503, message, .. }) if message == "busy"
    ));
    assert!(matches!(
        gemini_completion(HttpOutcome::Unreadable("no JSON".to_owned()), &provider),
        Err(ProviderError::ResponseParse { message, .. }) if message == "no JSON"
    ));
    let none = OpenAIChatCompletionResponse { choices: vec![], usage: None };
    assert!(matches!(
        openai_completion(HttpOutcome::Answered(none), &provider),
        Err(ProviderError::ResponseParse { .. })
    ));
    let empty = GeminiGenerateContentResponse { candidates: vec![], usage_metadata: None };
    assert!(gemini_completion(HttpOutcome::Answered(empty), &provider).is_err());
    assert_eq!(answer_of(HttpOutcome::Answered(7u8), &provider), Ok(7));
    assert_eq!(error_body(Ok("text".to_owned())), "text");
    assert_eq!(error_body(Err("cut".to_owned())), "unable to read error body: cut");
    let said = AnthropicMessagesResponse {
        role: "assistant".to_owned(),
        content: vec![AnthropicResponseContentBlock {
            kind: "text".to_owned(),
            text: Some("Hi".to_owned()),
            id: None,
            name: None,
            input: None,
        }],
        stop_reason: None,
        usage: None,
    };
    let answer = anthropic_completion(HttpOutcome::Answered(said), &provider)
        .expect("the answer makes sense");
    assert_eq!(answer.message.content.as_deref(), Some("Hi"));
}

#[test]
fn a_broken_chain_is_started_over_once() {
    let provider = ProviderId::new("mine");
    let context = context("mine", "gpt-4o-mini");
    let mut chaining = ChainingState::new();
    chaining.update_chaining_state("resp_1".to_owned(), 1);
    let turn = responses_completion(&mut chaining, &context, true, refused(404, "gone"), &provider);
    let ResponsesTurn::SendAgain(request) = turn else {
        panic!("the conversation should be sent again");
    };
    assert_eq!(request.previous_response_id, None);
    assert_eq!(request.input.len(), 1);
    assert_eq!(chaining, ChainingState::new());
    let turn: ResponsesTurn<u8> =
        responses_turn(&mut chaining, &context, false, refused(404, "gone"), &provider);
    assert!(matches!(
        turn,
        ResponsesTurn::Return(Err(ProviderError::HttpStatus { status: 404, .. }))
    ));
    let answer = ResponsesApiResponse {
        id: Some("resp_2".to_owned()),
        output: vec![ResponsesOutputBlock::FunctionCall {
            call_id: "c".to_owned(),
            name: "f".to_owned(),
            arguments: "{}".to_owned(),
        }],
        status: None,
        usage: None,
    };
    let turn = responses_completion(
        &mut chaining,
        &context,
        false,
        HttpOutcome::Answered(answer),
        &provider,
    );
    assert!(matches!(turn, ResponsesTurn::Return(Ok(_))));
    assert_eq!(chaining.previous_response_id.as_deref(), Some("resp_2"));
    assert_eq!(chaining.last_input_count, 1);
}

fn said(text: &str) -> OpenAIPayload {
    match text {
        "" => OpenAIPayload::Empty,
        "[DONE]" => OpenAIPayload::Done,
        text => OpenAIPayload::Chunk(OpenAIChatCompletionStreamChunk {
            choices: vec![OpenAIStreamChoice {
                delta: OpenAIStreamDelta {
                    content: Some(text.to_owned()),
                    reasoning: None,
                    tool_calls: vec![],
                },
                finish_reason: None,
            }],
            usage: None,
        }),
    }
}

fn openai_items(chunks: &[&[u8]]) -> (Vec<StreamItem>, bool) {
    let mut stream = OpenAIStream::new(ProviderId::new("openai"));
    let mut all = Vec::new();
    let mut inputs: Vec<StreamInput<OpenAIPayload>> =
        chunks.iter().map(|chunk| StreamInput::Chunk(chunk.to_vec())).collect();
    inputs.push(StreamInput::End);
    for input in inputs {
        if stream.stage == ReadStage::Over {
            break;
        }
        let (read, output) = stream.step(input);
        stream = read;
        let output = match (output, &stream.stage) {
            (StreamOutput::Parse, ReadStage::Parsing { events, .. }) => {
                let payloads = events.iter().map(|event| said(event.trim())).collect();
                let (next, output) = stream.step(StreamInput::Parsed(payloads));
                stream = next;
                output
            }
            (output, _) => output,
        };
        if let StreamOutput::Hand { items, failure } = output {
            all.extend(items);
            assert_eq!(failure, None);
        }
    }
    (all, stream.stage == ReadStage::Over)
}

#[test]
fn streams_do_not_depend_on_their_chunks() {
    let whole = openai_items(&[b"data: one\n\ndata: two\n\ndata: [DONE]\n\n"]);
    let cut = openai_items(&[b"data: o", b"ne\n\ndata:", b" two\n", b"\ndata: [DONE]\n\n", b"x"]);
    assert_eq!(whole, cut);
    assert_eq!(
        whole.0,
        vec![StreamItem::Text("one".to_owned()), StreamItem::Text("two".to_owned())]
    );
    assert!(whole.1);
    let (lost, over) = openai_items(&[b"data: one\n\n"]);
    assert!(over);
    assert_eq!(
        lost.last(),
        Some(&StreamItem::ConnectionLost("OpenAI stream ended before [DONE] sentinel".to_owned()))
    );
}

#[test]
fn streams_end_when_their_transport_fails() {
    let (stream, output) =
        OpenAIStream::new(ProviderId::new("openai")).step(StreamInput::Lost("reset".to_owned()));
    assert_eq!(stream.stage, ReadStage::Over);
    assert_eq!(
        output,
        StreamOutput::Hand {
            items: vec![StreamItem::ConnectionLost(
                "OpenAI stream transport dropped: reset".to_owned()
            )],
            failure: None,
        }
    );
    let (stream, output) = stream.step(StreamInput::End);
    assert_eq!(stream.stage, ReadStage::Over);
    assert_eq!(output, StreamOutput::Nothing);
    let (stream, output) =
        AnthropicStream::new(ProviderId::new("a")).step(StreamInput::Chunk(b"data: \xff\n".to_vec()));
    assert_eq!(stream.stage, ReadStage::Over);
    assert!(matches!(
        output,
        StreamOutput::Hand { failure: Some(ProviderError::ResponseParse { .. }), .. }
    ));
}

#[test]
fn the_other_streams_hand_out_theirs() {
    let anthropic = AnthropicStream::new(ProviderId::new("a"));
    let (anthropic, output) = anthropic.step(StreamInput::Chunk(b"data: {}\n\n".to_vec()));
    assert_eq!(output, StreamOutput::Parse);
    let (anthropic, _) = anthropic.step(StreamInput::Parsed(vec![AnthropicPayload::MessageStop]));
    assert_eq!(anthropic.stage, ReadStage::Over);

    let gemini = GeminiStream::new(ProviderId::new("g"));
    let (gemini, _) = gemini.step(StreamInput::Chunk(b"data: {}\n\n".to_vec()));
    let items = vec![StreamItem::FinishReason("STOP".to_owned())];
    let (gemini, _) = gemini.step(StreamInput::Parsed(vec![GeminiPayload::Items(items)]));
    assert_eq!(gemini.stage, ReadStage::Reading);
    let (gemini, _) = gemini.step(StreamInput::End);
    let (gemini, output) = gemini.step(StreamInput::Parsed(vec![]));
    assert_eq!(gemini.stage, ReadStage::Over);
    assert_eq!(output, StreamOutput::Hand { items: vec![], failure: None });

    let responses = ResponsesStream::new(ProviderId::new("r"), ChainingState::new(), 3);
    let (responses, _) = responses.step(StreamInput::Chunk(
        b"event: response.output_text.delta\ndata: {}\n\n".to_vec(),
    ));
    let delta = ResponsesPayload::TextDelta(ResponsesTextDeltaData { delta: "Hi".to_owned() });
    let (responses, output) = responses.step(StreamInput::Parsed(vec![delta]));
    assert_eq!(responses.stage, ReadStage::Reading);
    assert_eq!(
        output,
        StreamOutput::Hand { items: vec![StreamItem::Text("Hi".to_owned())], failure: None }
    );
}

fn vm_args() -> OxydraVmArgs {
    OxydraVmArgs {
        user_id: "alice".to_owned(),
        workspace_root: "/w".to_owned(),
        bootstrap_stdin: false,
        bootstrap_file: None,
        gateway_bind: "127.0.0.1:0".to_owned(),
    }
}

fn plain_setup() -> GuestSetup {
    GuestSetup {
        has_agents: false,
        has_session_store: true,
        has_scheduler_store: false,
        telegram: None,
    }
}

#[test]
fn a_guest_announces_its_gateway_and_takes_that_back() {
    let args = vm_args();
    let mut stage = VmStage::Begin;
    let mut actions = Vec::new();
    for event in [
        VmEvent::Done,
        VmEvent::Ready(plain_setup()),
        VmEvent::Done,
        VmEvent::ListensAt("127.0.0.1:42".to_owned()),
        VmEvent::Done,
        VmEvent::Done,
        VmEvent::Done,
        VmEvent::Failed("already gone".to_owned()),
    ] {
        let (next, action) = run_vm(&args, stage, event);
        stage = next;
        actions.push(action);
    }
    assert_eq!(stage, VmStage::Over);
    assert_eq!(
        actions[0],
        VmAction::Bootstrap { frame: None, workspace_root: "/w".to_owned() }
    );
    assert_eq!(
        actions[4],
        VmAction::WriteMarker {
            path: "/w/ipc/gateway-endpoint".to_owned(),
            content: "ws://127.0.0.1:42/ws".to_owned(),
        }
    );
    assert_eq!(actions[5], VmAction::Serve);
    assert_eq!(
        actions[6],
        VmAction::RemoveMarker { path: "/w/ipc/gateway-endpoint".to_owned() }
    );
    assert_eq!(actions[7], VmAction::Finish);
}

#[test]
fn a_guest_fails_with_the_step_that_failed() {
    let nobody = OxydraVmArgs { user_id: "  ".to_owned(), ..vm_args() };
    let (_, action) = run_vm(&nobody, VmStage::Begin, VmEvent::Done);
    assert_eq!(action, VmAction::Fail(VmError::InvalidUserId));
    let args = OxydraVmArgs { bootstrap_file: Some("/b".to_owned()), ..vm_args() };
    let (stage, action) = run_vm(&args, VmStage::Begin, VmEvent::Done);
    assert_eq!(action, VmAction::ReadFile { path: "/b".to_owned() });
    let (stage, action) = run_vm(&args, stage, VmEvent::FileRead(Ok(b"{}".to_vec())));
    assert_eq!(stage, VmStage::Runtime);
    assert_eq!(
        action,
        VmAction::Bootstrap {
            frame: Some(vec![0, 0, 0, 2, b'{', b'}']),
            workspace_root: "/w".to_owned(),
        }
    );
    let (_, action) = run_vm(&args, VmStage::Frame, VmEvent::FileRead(Err("gone".to_owned())));
    assert!(matches!(action, VmAction::Fail(VmError::ReadBootstrapFile { .. })));
    let (_, action) = run_vm(&args, VmStage::Frame, VmEvent::Received(vec![0, 0]));
    assert!(matches!(action, VmAction::Fail(VmError::ReadBootstrapFrame { .. })));
    let (_, action) = run_vm(
        &args,
        VmStage::Frame,
        VmEvent::Broken { received: vec![0, 0, 0, 1], error: "pipe gone".to_owned() },
    );
    assert_eq!(
        action,
        VmAction::Fail(VmError::ReadBootstrapFrame {
            stage: "payload",
            message: "pipe gone".to_owned(),
        })
    );
    let failed = || VmEvent::Failed("no".to_owned());
    assert!(matches!(
        run_vm(&args, VmStage::Runtime, failed()).1,
        VmAction::Fail(VmError::Bootstrap { .. })
    ));
    assert!(matches!(
        run_vm(&args, VmStage::Listener, failed()).1,
        VmAction::Fail(VmError::BindGateway { .. })
    ));
    assert!(matches!(
        run_vm(&args, VmStage::Address, failed()).1,
        VmAction::Fail(VmError::GatewayAddress { .. })
    ));
    assert!(matches!(
        run_vm(&args, VmStage::Marker { path: "/m".to_owned() }, failed()).1,
        VmAction::Fail(VmError::GatewayMarkerWrite { .. })
    ));
    assert!(matches!(
        run_vm(&args, VmStage::Serving { path: "/m".to_owned() }, failed()).1,
        VmAction::Fail(VmError::ServeGateway { .. })
    ));
    assert_eq!(
        run_vm(&args, VmStage::Listener, VmEvent::Received(vec![])),
        (VmStage::Listener, VmAction::Nothing)
    );
}

#[test]
fn a_bot_needs_its_token_and_its_store() {
    let services = guest_services(GuestSetup {
        telegram: Some(TelegramSetup {
            enabled: true,
            bot_token_env: Some("BOT".to_owned()),
            token: Some("t".to_owned()),
        }),
        has_agents: true,
        ..plain_setup()
    });
    assert!(services.delegation);
    assert!(services.keeps_sessions);
    assert!(!services.scheduler);
    assert_eq!(services.sender.as_deref(), Some("t"));
    assert_eq!(services.telegram, Some(Ok("t".to_owned())));
    let unset = guest_services(GuestSetup {
        telegram: Some(TelegramSetup {
            enabled: true,
            bot_token_env: Some("BOT".to_owned()),
            token: None,
        }),
        ..plain_setup()
    });
    assert_eq!(unset.sender, None);
    assert!(matches!(unset.telegram, Some(Err(error)) if error.contains("`BOT`")));
    assert_eq!(guest_services(plain_setup()).telegram, None);
}

fn config(scheduler_enabled: bool) -> GuestConfig {
    GuestConfig {
        has_web_search: true,
        scheduler_enabled,
        providers: vec!["openai".to_owned()],
    }
}

fn envelope() -> RunnerBootstrapEnvelope {
    RunnerBootstrapEnvelope {
        user_id: "alice".to_owned(),
        sandbox_tier: SandboxTier::Process,
        workspace_root: "/envelope".to_owned(),
        sidecar_endpoint: None,
        runtime_policy: None,
        startup_status: None,
        browser_config: None,
    }
}

fn run_assembly(assembly: Assembly, events: Vec<AssemblyEvent>) -> (Assembly, Vec<AssemblyAction>) {
    let mut actions = Vec::new();
    let mut assembly = assembly;
    for event in events {
        let (next, action) = assembly.step(event);
        assembly = next;
        actions.push(action);
    }
    (assembly, actions)
}

#[test]
fn a_guest_is_put_together_in_order() {
    let (assembly, actions) = run_assembly(
        Assembly::new(Some(vec![1]), None),
        vec![
            AssemblyEvent::Done,
            AssemblyEvent::Decoded(Ok(envelope())),
            AssemblyEvent::Loaded(config(true)),
            AssemblyEvent::Done,
            AssemblyEvent::Memory { built: true },
            AssemblyEvent::Done,
            AssemblyEvent::Connected(Ok(())),
            AssemblyEvent::AgentsFound { agents: vec![], tools: vec![] },
            AssemblyEvent::Connected(Ok(())),
        ],
    );
    assert_eq!(
        actions,
        vec![
            AssemblyAction::Decode { frame: vec![1] },
            AssemblyAction::LoadConfig,
            AssemblyAction::BuildProvider { web_search: true },
            AssemblyAction::BuildMemory { workspace_root: Some("/envelope".to_owned()) },
            AssemblyAction::BuildTools { memory_tools: true },
            AssemblyAction::ConnectScheduler,
            AssemblyAction::FindAgents { scheduler_tools: true, warning: None },
            AssemblyAction::ConnectSessions,
            AssemblyAction::Assembled { sessions: true, warning: None },
        ]
    );
    assert_eq!(assembly.stage, AssemblyStage::Over);
    assert!(assembly.scheduler);
    assert!(assembly.system_prompt(None).len() > 100);
    assert_eq!(assembly.scrubbed_paths("/cwd").3, "/envelope");
}

#[test]
fn without_memory_a_guest_schedules_nothing() {
    let (assembly, actions) = run_assembly(
        Assembly::new(None, Some("/cli".to_owned())),
        vec![
            AssemblyEvent::Done,
            AssemblyEvent::Loaded(config(true)),
            AssemblyEvent::Done,
            AssemblyEvent::Memory { built: false },
            AssemblyEvent::Done,
            AssemblyEvent::AgentsFound {
                agents: vec![AgentDefinition {
                    name: "helper".to_owned(),
                    selection: Some(("nobody".to_owned(), "m".to_owned())),
                    tools: None,
                    system_prompt_file: None,
                    prompt_file_found: false,
                }],
                tools: vec![],
            },
        ],
    );
    assert_eq!(
        actions[2],
        AssemblyAction::BuildMemory { workspace_root: Some("/cli".to_owned()) }
    );
    assert!(matches!(
        &actions[4],
        AssemblyAction::FindAgents { scheduler_tools: false, warning: Some(warning) }
            if warning.contains("memory backend is not available")
    ));
    assert!(matches!(
        &actions[5],
        AssemblyAction::Fail(BootstrapError::UnsupportedProvider { provider })
            if provider == "nobody"
    ));
    assert!(!assembly.scheduler);
    let (_, actions) = run_assembly(
        Assembly::new(Some(vec![]), None),
        vec![AssemblyEvent::Done, AssemblyEvent::Decoded(Err("cut".to_owned()))],
    );
    assert!(matches!(&actions[1], AssemblyAction::Fail(BootstrapError::Bootstrap { .. })));
}

#[test]
fn images_are_brought_into_machines() {
    assert_eq!(image_save_command("img:1").args, vec!["save", "img:1"]);
    assert_eq!(image_load_command("/s").args, vec!["--host", "unix:///s", "load"]);
    let ran = |saved: bool, loaded: bool| ImageTransfer::Ran {
        saved,
        save_status: "exit status: 1".to_owned(),
        loaded,
        load_status: "exit status: 2".to_owned(),
        load_errors: "no space".to_owned(),
    };
    assert_eq!(load_image_into_sandbox_vm("img:1", ran(true, true)), Ok(()));
    let message = |transfer: ImageTransfer| match load_image_into_sandbox_vm("img:1", transfer) {
        Err(RunnerError::ImageTransfer { message, .. }) => message,
        other => panic!("unexpected result {other:?}"),
    };
    assert_eq!(message(ran(false, false)), "'docker save' exited with status exit status: 1");
    assert_eq!(
        message(ran(true, false)),
        "'docker load' exited with status exit status: 2: no space"
    );
    assert_eq!(message(ImageTransfer::SaveWithoutOutput), "failed to capture 'docker save' stdout");
}
